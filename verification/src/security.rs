use vstd::prelude::*;
use crate::cmd_log::{replace_all, replace_text};
use crate::json::JsonValue;

verus! {

/// `serde_json::Value`, a parsed JSON document, carried through unopened.
#[verifier::external_type_specification]
#[verifier::external_body]
pub struct ExJsonDocument(serde_json::Value);

/// The names under which the signing keys are kept in the key vault.
pub struct KeyKind;

impl KeyKind {
    pub const PRIMARY_KEY: &'static str = "primary-login-key";
    pub const SECONDARY_KEY: &'static str = "secondary-login-key";
    pub const TEST_PRIMARY_KEY: &'static str = "test-primary-login-key";
    pub const TEST_SECONDARY_KEY: &'static str = "test-secondary-login-key";
    pub const VALIDATATION_PRIMARY_KEY: &'static str = "validation-primary-key";
    pub const VALIDATATION_SECONDARY_KEY: &'static str = "validation-secondary-key";
}

/// A pair of signing keys and the names they are stored under. Tokens are signed with
/// the primary key; the secondary key is still accepted, so that keys can be rotated.
#[derive(Debug)]
pub struct KeySet {
    pub primary_key_name: String,
    pub secondary_key_name: String,
    pub primary_key: String,
    pub secondary_key: String,
}

/// `jsonwebtoken::DecodingKey`, a key that checks token signatures, carried through
/// unopened.
#[verifier::external_type_specification]
#[verifier::external_body]
pub struct ExDecodingKey(jsonwebtoken::DecodingKey);

/// `jsonwebtoken::Validation`, the checks made on a token, carried through unopened.
#[verifier::external_type_specification]
#[verifier::external_body]
pub struct ExValidation(jsonwebtoken::Validation);

/// The algorithms the service's tokens are signed with.
#[derive(Clone, Copy, Debug, PartialEq, Eq, Structural)]
pub enum TokenAlgorithm {
    HS512,
    RS256,
}

/// The key that checks tokens signed with the RSA key whose public half is given in PEM
/// form (`jsonwebtoken::DecodingKey::from_rsa_pem` on the text's bytes); a refusal comes
/// back as the error's debug text. Which texts are accepted is not stated.
#[verifier::external_body]
pub(crate) fn key_from_rsa_pem(pem: &str) -> (res: Result<jsonwebtoken::DecodingKey, String>) {
    match jsonwebtoken::DecodingKey::from_rsa_pem(pem.as_bytes()) {
        Ok(key) => Ok(key),
        Err(e) => Err(format!("{:#?}", e)),
    }
}

/// The default checks for a token signed with `alg` (`jsonwebtoken::Validation::new`):
/// the algorithm, the signature and that the token has not expired.
#[verifier::external_body]
pub(crate) fn token_validation(alg: TokenAlgorithm) -> (res: jsonwebtoken::Validation) {
    match alg {
        TokenAlgorithm::HS512 => jsonwebtoken::Validation::new(jsonwebtoken::Algorithm::HS512),
        TokenAlgorithm::RS256 => jsonwebtoken::Validation::new(jsonwebtoken::Algorithm::RS256),
    }
}

/// Makes the checks accept only tokens for one audience
/// (`jsonwebtoken::Validation::set_audience` with that one name).
#[verifier::external_body]
pub(crate) fn set_audience(validation: &mut jsonwebtoken::Validation, audience: &str) {
    validation.set_audience(&[audience]);
}

/// The claims of a token that passes the checks (`jsonwebtoken::decode`); a refusal comes
/// back as the error's debug text. Whether a token passes depends on the clock (its
/// expiry), so nothing is stated of the outcome.
#[verifier::external_body]
pub(crate) fn decode_claims(
    token: &str,
    key: &jsonwebtoken::DecodingKey,
    validation: &jsonwebtoken::Validation,
) -> (res: Result<serde_json::Value, String>) {
    match jsonwebtoken::decode::<serde_json::Value>(token, key, validation) {
        Ok(data) => Ok(data.claims),
        Err(e) => Err(format!("{:#?}", e)),
    }
}

/// A parsed JSON document (`serde_json::Value`) as the library's JSON value: each variant
/// to its own, a number by its text (`serde_json::Number`'s `to_string`), an object's
/// members in the document's order. Verus cannot see into the document, so nothing is
/// stated.
#[verifier::external_body]
pub(crate) fn json_of_document(v: &serde_json::Value) -> (res: JsonValue) {
    match v {
        serde_json::Value::Null => JsonValue::Null,
        serde_json::Value::Bool(b) => JsonValue::Bool(*b),
        serde_json::Value::Number(n) => JsonValue::Number(n.to_string()),
        serde_json::Value::String(t) => JsonValue::Str(t.clone()),
        serde_json::Value::Array(items) => JsonValue::Array(items.iter().map(json_of_document).collect()),
        serde_json::Value::Object(m) => JsonValue::Object(m.iter().map(|(k, x)| (k.clone(), json_of_document(x))).collect()),
    }
}

/// The claims carried by an HS512 token whose signature verifies under `secret`, read as
/// JSON; nothing where the signature does not verify or the claims are not a JSON
/// document. This depends on the token and the secret alone.
pub uninterp spec fn hs512_payload(token: Seq<char>, secret: Seq<char>) -> Option<JsonValue>;

/// The claims of an HS512 token checked with `secret` (`jsonwebtoken::decode` with
/// `Validation::new(Algorithm::HS512)` and `DecodingKey::from_secret`, the claims then
/// read as the library's JSON value), or nothing where the token is refused. Whether it
/// is refused depends also on the clock (its expiry), so success is not stated; claims
/// that come back are those its signature carries under `secret`.
#[verifier::external_body]
fn decode_hs512(token: &str, secret: &str) -> (res: Option<JsonValue>)
    ensures
        res matches Some(c) ==> hs512_payload(token@, secret@) == Some(c),
{
    let key = jsonwebtoken::DecodingKey::from_secret(secret.as_bytes());
    let validation = jsonwebtoken::Validation::new(jsonwebtoken::Algorithm::HS512);
    match jsonwebtoken::decode::<serde_json::Value>(token, &key, &validation) {
        Ok(data) => Some(json_of_document(&data.claims)),
        Err(_) => None,
    }
}

/// The claims a key set gives for a token, from what decoding under each of its keys gave:
/// those under the primary key where it accepted the token, else those under the
/// secondary key.
pub fn pick_claims(primary: Option<JsonValue>, secondary: Option<JsonValue>) -> (res: Option<JsonValue>)
    ensures
        res == (if primary is Some { primary } else { secondary }),
{
    match primary {
        Some(claims) => Some(claims),
        None => secondary,
    }
}

impl KeySet {
    /// A key set from the two names and the two secrets found under them.
    pub fn from_secrets(
        primary_key_name: &str,
        secondary_key_name: &str,
        primary_key: String,
        secondary_key: String,
    ) -> (res: KeySet)
        ensures
            res.primary_key_name@ == primary_key_name@,
            res.secondary_key_name@ == secondary_key_name@,
            res.primary_key@ == primary_key@,
            res.secondary_key@ == secondary_key@,
    {
        KeySet {
            primary_key_name: String::from_str(primary_key_name),
            secondary_key_name: String::from_str(secondary_key_name),
            primary_key,
            secondary_key,
        }
    }

    /// The claims of a token signed with either key of the set: the primary key is
    /// tried first, and the secondary key only where the primary one refuses the token;
    /// the result is `pick_claims` of the two outcomes. Claims that come back are those
    /// the token carries under one of the two keys; a token that verifies under neither
    /// key gives nothing.
    pub fn validate_token(&self, token: &str) -> (res: Option<JsonValue>)
        ensures
            res matches Some(c) ==> hs512_payload(token@, self.primary_key@) == Some(c)
                || hs512_payload(token@, self.secondary_key@) == Some(c),
            hs512_payload(token@, self.primary_key@) is None && hs512_payload(token@, self.secondary_key@) is None
                ==> res is None,
    {
        let primary = decode_hs512(token, self.primary_key.as_str());
        let secondary = match primary {
            Some(_) => None,
            None => decode_hs512(token, self.secondary_key.as_str()),
        };
        pick_claims(primary, secondary)
    }
}

/// The three key sets of the service: for logging in, for validating phone numbers and
/// e-mail addresses, and for tests.
#[derive(Debug)]
pub struct SecurityContext {
    pub login_keys: KeySet,
    pub validation_keys: KeySet,
    pub test_keys: KeySet,
}

impl SecurityContext {
    /// The name under which the whole context is stored in the key vault.
    pub const SECURITY_CONTEXT_SECRET_NAME: &'static str = "security-context-secrets";
}

/// Fills a buffer of `n` bytes from the thread's random number generator
/// (`rand::RngCore::fill_bytes` on `rand::thread_rng()`). The bytes are random: only their
/// number is stated.
#[verifier::external_body]
fn random_bytes(n: usize) -> (res: Vec<u8>)
    ensures
        res@.len() == n,
{
    let mut bytes = vec![0u8; n];
    rand::RngCore::fill_bytes(&mut rand::thread_rng(), &mut bytes);
    bytes
}

/// The character of a 6-bit value in the standard Base64 alphabet.
pub open spec fn base64_char(v: int) -> char {
    if v < 26 {
        (65 + v) as char
    } else if v < 52 {
        (97 + v - 26) as char
    } else if v < 62 {
        (48 + v - 52) as char
    } else if v == 62 {
        '+'
    } else {
        '/'
    }
}

/// The standard Base64 text of a byte string: every three bytes become four characters,
/// and a last group of one or two bytes is padded with '='.
pub open spec fn base64_text(b: Seq<u8>) -> Seq<char>
    decreases b.len(),
{
    let x0 = if b.len() > 0 { b[0] as int } else { 0 };
    let x1 = if b.len() > 1 { b[1] as int } else { 0 };
    let x2 = if b.len() > 2 { b[2] as int } else { 0 };
    if b.len() == 0 {
        Seq::empty()
    } else if b.len() == 1 {
        seq![base64_char(x0 / 4), base64_char((x0 % 4) * 16), '=', '=']
    } else if b.len() == 2 {
        seq![base64_char(x0 / 4), base64_char((x0 % 4) * 16 + x1 / 16), base64_char((x1 % 16) * 4), '=']
    } else {
        seq![
            base64_char(x0 / 4),
            base64_char((x0 % 4) * 16 + x1 / 16),
            base64_char((x1 % 16) * 4 + x2 / 64),
            base64_char(x2 % 64),
        ] + base64_text(b.skip(3))
    }
}

/// Every three bytes give four characters.
pub proof fn lemma_base64_len(b: Seq<u8>)
    requires
        b.len() % 3 == 0,
    ensures
        base64_text(b).len() == b.len() / 3 * 4,
    decreases b.len(),
{
    if b.len() > 0 {
        lemma_base64_len(b.skip(3));
    }
}

/// Encodes bytes as standard Base64 with padding and no line breaks
/// (`openssl::base64::encode_block`, OpenSSL's `EVP_EncodeBlock`). That function panics
/// only where the length of the text overflows a C `int`, which `requires` leaves out.
#[verifier::external_body]
fn base64_encode(bytes: &[u8]) -> (res: String)
    requires
        bytes@.len() / 3 * 4 + (if bytes@.len() % 3 != 0 { 4int } else { 0int }) + 1 <= 0x7fff_ffff,
    ensures
        res@ == base64_text(bytes@),
{
    openssl::base64::encode_block(bytes)
}

/// A new random signing key: 96 random bytes (768 bits), in Base64, so 128 characters.
pub fn generate_jwt_key() -> (res: String)
    ensures
        exists|bytes: Seq<u8>| bytes.len() == 96 && res@ == #[trigger] base64_text(bytes),
        res@.len() == 128,
{
    let bytes = random_bytes(96);
    proof { lemma_base64_len(bytes@); }
    base64_encode(bytes.as_slice())
}

/// The token of an authorization header: the header with every "Bearer " taken out.
pub fn token_of_header(header: &str) -> (res: String)
    ensures
        res@ == replace_all(header@, "Bearer "@, ""@),
{
    replace_text(header, "Bearer ", "")
}

} // verus!
