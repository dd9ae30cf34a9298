use vstd::prelude::*;
use std::collections::HashMap;
use crate::json::{as_str, get, get_member, string_list_member, string_list_of, string_member, texts, JsonValue};
use crate::text::{append_nat_decimal, nat_decimal};
use crate::tiles::append_str;
use crate::security::{decode_claims, key_from_rsa_pem, set_audience, token_validation, TokenAlgorithm};

verus! {

/// The kinds of failure of a call to the identity service.
#[derive(Clone, Copy, Debug, PartialEq, Eq, Structural)]
pub enum KeyCloakErrorType {
    ReqwestError,
    KeyCloakServiceError,
    KeyCloakProxyError,
    JsonError,
    WebTokenError,
}

/// A failed call to the identity service: its kind and a message.
#[derive(Debug)]
pub struct KeyCloakError {
    pub error_type: KeyCloakErrorType,
    pub message: String,
}

impl KeyCloakError {
    /// An error of the given kind with the given message.
    pub fn new(error_type: KeyCloakErrorType, msg: &str) -> (res: KeyCloakError)
        ensures
            res.error_type == error_type,
            res.message@ == msg@,
    {
        KeyCloakError { error_type, message: String::from_str(msg) }
    }
}

/// The HTTP methods a request can be made with; the proxy sends the first four.
#[derive(Debug)]
pub enum HttpMethod {
    Get,
    Post,
    Put,
    Delete,
    Other(String),
}

/// What to do with the answer to a request: return the type's empty value, or read
/// the body as the expected JSON document.
#[derive(Clone, Copy, Debug, PartialEq, Eq, Structural)]
pub enum ResponseAction {
    ReturnEmpty,
    ParseBody,
}

/// A client of the identity service for one host and realm, with the token that
/// authenticated calls carry.
#[derive(Debug)]
pub struct KeyCloakProxy {
    pub host_name: String,
    pub auth_token: Option<String>,
    pub realm: String,
}

/// The text of a list of name and value pairs, pair by pair.
pub open spec fn pair_texts(s: Seq<(String, String)>) -> Seq<(Seq<char>, Seq<char>)> {
    s.map_values(|p: (String, String)| (p.0@, p.1@))
}

/// The form fields of a password login: the grant type, the client (the admin console's
/// by default), the user name and the password, and the scopes where some are given.
pub open spec fn login_fields(
    user_name: Seq<char>,
    password: Seq<char>,
    client_id: Option<Seq<char>>,
    scopes: Option<Seq<char>>,
) -> Seq<(Seq<char>, Seq<char>)> {
    let base = seq![
        ("grant_type"@, "password"@),
        ("client_id"@, match client_id { Some(c) => c, None => "admin-cli"@ }),
        ("username"@, user_name),
        ("password"@, password),
    ];
    match scopes {
        Some(sc) => base.push(("scope"@, sc)),
        None => base,
    }
}

/// The content headers of a request: the type (and length) of the form or body of a PUT
/// or a POST.
pub open spec fn content_headers(is_put_or_post: bool, has_form: bool, body_len: Option<usize>) -> Seq<(Seq<char>, Seq<char>)> {
    if is_put_or_post && has_form {
        seq![("Content-Type"@, "application/x-www-form-urlencoded"@)]
    } else if is_put_or_post && body_len is Some {
        seq![("Content-Type"@, "application/json"@), ("Content-Length"@, nat_decimal(body_len->0 as nat))]
    } else {
        Seq::empty()
    }
}

/// The authorization header of a request that carries a token.
pub open spec fn auth_headers(auth_token: Option<Seq<char>>) -> Seq<(Seq<char>, Seq<char>)> {
    match auth_token {
        Some(t) => seq![("Authorization"@, "Bearer "@ + t)],
        None => Seq::empty(),
    }
}

/// The headers of a request: the content type (and length) of the body of a PUT or a
/// POST, then the caller's own headers in order, then the bearer token, if there is one.
pub open spec fn request_header_texts(
    is_put_or_post: bool,
    has_form: bool,
    body_len: Option<usize>,
    extra: Seq<(Seq<char>, Seq<char>)>,
    auth_token: Option<Seq<char>>,
) -> Seq<(Seq<char>, Seq<char>)> {
    content_headers(is_put_or_post, has_form, body_len) + extra + auth_headers(auth_token)
}

/// The roles a token grants: the realm's roles, then, member by member of the resource
/// access, the roles of the given client and of the account.
pub open spec fn claim_roles(claims: JsonValue, client_id: Seq<char>) -> Seq<Seq<char>> {
    let realm = match get(claims, "realm_access"@) {
        Some(ra) => string_list_member(ra, "roles"@),
        None => Seq::empty(),
    };
    let resources = match get(claims, "resource_access"@) {
        Some(JsonValue::Object(members)) => resource_roles(members@, client_id),
        _ => Seq::empty(),
    };
    realm + resources
}

/// The roles listed under the given client and under the account, member by member.
pub open spec fn resource_roles(members: Seq<(String, JsonValue)>, client_id: Seq<char>) -> Seq<Seq<char>>
    decreases members.len(),
{
    if members.len() == 0 {
        Seq::empty()
    } else {
        let (key, val) = members.last();
        resource_roles(members.drop_last(), client_id) + if key@ == client_id || key@ == "account"@ {
            string_list_member(val, "roles"@)
        } else {
            Seq::empty()
        }
    }
}

/// What the lookup of a client by name answers: its id when the answer is a list of
/// exactly one object whose `id` is a string, and otherwise why not.
pub open spec fn client_id_answer(value: JsonValue) -> Result<Seq<char>, Seq<char>> {
    match value {
        JsonValue::Array(items) => if items@.len() != 1 {
            Err("Array length is not 1."@)
        } else {
            match get(items@[0], "id"@) {
                Some(JsonValue::Str(id)) => Ok(id@),
                Some(_) => Err("'id' value is not a string."@),
                None => Err("'id' not found in first element."@),
            }
        },
        _ => Err("Value is not an array."@),
    }
}

impl KeyCloakProxy {
    /// A proxy for the given host and realm, with no token.
    pub fn new(host_name: &str, realm: &str) -> (res: KeyCloakProxy)
        ensures
            res.host_name@ == host_name@,
            res.realm@ == realm@,
            res.auth_token is None,
    {
        KeyCloakProxy {
            host_name: String::from_str(host_name),
            auth_token: None,
            realm: String::from_str(realm),
        }
    }

    /// Sets the token that the next calls carry (none for anonymous calls).
    pub fn set_auth_token(&mut self, auth_token: Option<String>)
        ensures
            final(self).auth_token == auth_token,
            final(self).host_name == old(self).host_name,
            final(self).realm == old(self).realm,
    {
        self.auth_token = auth_token;
    }

    /// Switches to another realm.
    pub fn set_realm(&mut self, realm: &str)
        ensures
            final(self).realm@ == realm@,
            final(self).host_name == old(self).host_name,
            final(self).auth_token == old(self).auth_token,
    {
        self.realm = String::from_str(realm);
    }

    /// The address of the realm's token endpoint, where users log in.
    pub fn login_url(&self) -> (res: String)
        ensures
            res@ == self.host_name@ + "/auth/realms/"@ + self.realm@ + "/protocol/openid-connect/token"@,
    {
        let mut url = self.host_name.clone();
        append_str(&mut url, "/auth/realms/");
        append_str(&mut url, self.realm.as_str());
        append_str(&mut url, "/protocol/openid-connect/token");
        url
    }

    /// The address of the realm's users, where users are created.
    pub fn users_url(&self) -> (res: String)
        ensures
            res@ == self.host_name@ + "/auth/admin/realms/"@ + self.realm@ + "/users"@,
    {
        let mut url = self.host_name.clone();
        append_str(&mut url, "/auth/admin/realms/");
        append_str(&mut url, self.realm.as_str());
        append_str(&mut url, "/users");
        url
    }

    /// The address that finds the profiles of the users with a given user name.
    pub fn user_profile_url(&self, user_name: &str) -> (res: String)
        ensures
            res@ == self.host_name@ + "/auth/admin/realms/"@ + self.realm@ + "/users?username="@ + user_name@,
    {
        let mut url = self.users_url();
        append_str(&mut url, "?username=");
        append_str(&mut url, user_name);
        proof { reveal_strlit("/users"); reveal_strlit("?username="); reveal_strlit("/users?username="); }
        assert(url@ =~= self.host_name@ + "/auth/admin/realms/"@ + self.realm@ + "/users?username="@ + user_name@);
        url
    }

    /// The address where a user's password is set.
    pub fn reset_password_url(&self, user_id: &str) -> (res: String)
        ensures
            res@ == self.host_name@ + "/auth/admin/realms/"@ + self.realm@ + "/users/"@ + user_id@
                + "/reset-password"@,
    {
        let mut url = self.users_url();
        append_str(&mut url, "/");
        append_str(&mut url, user_id);
        append_str(&mut url, "/reset-password");
        proof { reveal_strlit("/users"); reveal_strlit("/users/"); reveal_strlit("/"); }
        assert(url@ =~= self.host_name@ + "/auth/admin/realms/"@ + self.realm@ + "/users/"@ + user_id@
            + "/reset-password"@);
        url
    }

    /// The address where a user is given roles of a client.
    pub fn role_mapping_url(&self, user_id: &str, client_id: &str) -> (res: String)
        ensures
            res@ == self.host_name@ + "/auth/admin/realms/"@ + self.realm@ + "/users/"@ + user_id@
                + "/role-mappings/clients/"@ + client_id@,
    {
        let mut url = self.users_url();
        append_str(&mut url, "/");
        append_str(&mut url, user_id);
        append_str(&mut url, "/role-mappings/clients/");
        append_str(&mut url, client_id);
        proof { reveal_strlit("/users"); reveal_strlit("/users/"); reveal_strlit("/"); }
        assert(url@ =~= self.host_name@ + "/auth/admin/realms/"@ + self.realm@ + "/users/"@ + user_id@
            + "/role-mappings/clients/"@ + client_id@);
        url
    }

    /// The address of the realm's public signing keys.
    pub fn certs_url(&self) -> (res: String)
        ensures
            res@ == self.host_name@ + "/auth/realms/"@ + self.realm@ + "/protocol/openid-connect/certs"@,
    {
        let mut url = self.host_name.clone();
        append_str(&mut url, "/auth/realms/");
        append_str(&mut url, self.realm.as_str());
        append_str(&mut url, "/protocol/openid-connect/certs");
        url
    }

    /// The address of the realm's description, which holds its public key.
    pub fn realm_url(&self) -> (res: String)
        ensures
            res@ == self.host_name@ + "/auth/realms/"@ + self.realm@,
    {
        let mut url = self.host_name.clone();
        append_str(&mut url, "/auth/realms/");
        append_str(&mut url, self.realm.as_str());
        url
    }

    /// The address of the realm's groups.
    pub fn groups_url(&self) -> (res: String)
        ensures
            res@ == self.host_name@ + "/auth/admin/realms/"@ + self.realm@ + "/groups"@,
    {
        let mut url = self.host_name.clone();
        append_str(&mut url, "/auth/admin/realms/");
        append_str(&mut url, self.realm.as_str());
        append_str(&mut url, "/groups");
        url
    }

    /// The address of the roles of a client, or of the realm's roles where no client
    /// is given.
    pub fn roles_url(&self, client_uuid: Option<&str>) -> (res: String)
        ensures
            res@ == match client_uuid {
                Some(uuid) => self.host_name@ + "/auth/admin/realms/"@ + self.realm@ + "/clients/"@ + uuid@
                    + "/roles"@,
                None => self.host_name@ + "/auth/admin/realms/"@ + self.realm@ + "/roles"@,
            },
    {
        let mut url = self.host_name.clone();
        append_str(&mut url, "/auth/admin/realms/");
        append_str(&mut url, self.realm.as_str());
        match client_uuid {
            Some(uuid) => {
                append_str(&mut url, "/clients/");
                append_str(&mut url, uuid);
                append_str(&mut url, "/roles");
            },
            None => {
                append_str(&mut url, "/roles");
            },
        }
        url
    }

    /// The address that finds a client by its name.
    pub fn client_id_url(&self, name: &str) -> (res: String)
        ensures
            res@ == self.host_name@ + "/auth/admin/realms/"@ + self.realm@ + "/clients?clientId="@ + name@,
    {
        let mut url = self.host_name.clone();
        append_str(&mut url, "/auth/admin/realms/");
        append_str(&mut url, self.realm.as_str());
        append_str(&mut url, "/clients?clientId=");
        append_str(&mut url, name);
        url
    }

    /// The form fields of a password login.
    pub fn login_params(
        user_name: &str,
        password: &str,
        client_id: Option<&str>,
        scopes: Option<&str>,
    ) -> (res: Vec<(String, String)>)
        ensures
            pair_texts(res@) == login_fields(
                user_name@,
                password@,
                match client_id { Some(c) => Some(c@), None => None },
                match scopes { Some(s) => Some(s@), None => None },
            ),
    {
        let client = match client_id {
            Some(c) => c,
            None => "admin-cli",
        };
        let mut params: Vec<(String, String)> = Vec::new();
        params.push((String::from_str("grant_type"), String::from_str("password")));
        params.push((String::from_str("client_id"), String::from_str(client)));
        params.push((String::from_str("username"), String::from_str(user_name)));
        params.push((String::from_str("password"), String::from_str(password)));
        match scopes {
            Some(sc) => {
                params.push((String::from_str("scope"), String::from_str(sc)));
            },
            None => {},
        }
        assert(pair_texts(params@) =~= login_fields(
            user_name@,
            password@,
            match client_id { Some(c) => Some(c@), None => None },
            match scopes { Some(s) => Some(s@), None => None },
        ));
        params
    }

    /// The password credential that sets a user's password for good.
    pub fn password_credential(password: &str) -> (res: CredentialRepresentation)
        ensures
            res.field_name@ == "password"@,
            res.value@ == password@,
            !res.temporary,
    {
        CredentialRepresentation {
            field_name: String::from_str("password"),
            temporary: false,
            value: String::from_str(password),
        }
    }

    /// The headers of a request with the given method: the content type (and length) of
    /// the form or body of a PUT or a POST, the caller's headers, and the bearer token.
    /// Methods other than GET, POST, PUT and DELETE are refused.
    pub fn request_headers(
        &self,
        method: &HttpMethod,
        has_form: bool,
        body_len: Option<usize>,
        extra: &Vec<(String, String)>,
    ) -> (res: Result<Vec<(String, String)>, KeyCloakError>)
        ensures
            match method {
                HttpMethod::Other(name) => res matches Err(e)
                    && e.error_type == KeyCloakErrorType::KeyCloakProxyError
                    && e.message@ == "Unsupported HTTP method: "@ + name@,
                _ => res matches Ok(h) && pair_texts(h@) == request_header_texts(
                    method is Put || method is Post,
                    has_form,
                    body_len,
                    pair_texts(extra@),
                    match self.auth_token { Some(t) => Some(t@), None => None },
                ),
            },
    {
        let put_or_post = match method {
            HttpMethod::Other(name) => {
                let mut msg = String::from_str("Unsupported HTTP method: ");
                append_str(&mut msg, name.as_str());
                return Err(KeyCloakError { error_type: KeyCloakErrorType::KeyCloakProxyError, message: msg });
            },
            HttpMethod::Put => true,
            HttpMethod::Post => true,
            _ => false,
        };
        let mut headers: Vec<(String, String)> = Vec::new();
        if put_or_post {
            if has_form {
                headers.push((String::from_str("Content-Type"), String::from_str("application/x-www-form-urlencoded")));
            } else {
                match body_len {
                    Some(n) => {
                        headers.push((String::from_str("Content-Type"), String::from_str("application/json")));
                        let mut len_text = String::new();
                        append_nat_decimal(&mut len_text, n as u64);
                        headers.push((String::from_str("Content-Length"), len_text));
                    },
                    None => {},
                }
            }
        }
        let ghost content = pair_texts(headers@);
        assert(content =~= content_headers(put_or_post, has_form, body_len));
        let mut i: usize = 0;
        while i < extra.len()
            invariant
                i <= extra@.len(),
                pair_texts(headers@) == content + pair_texts(extra@).take(i as int),
            decreases extra.len() - i,
        {
            let name = extra[i].0.clone();
            let value = extra[i].1.clone();
            let ghost before = headers@;
            headers.push((name, value));
            assert(headers@ == before.push((name, value)));
            assert(pair_texts(headers@) =~= pair_texts(before).push((name@, value@)));
            assert(pair_texts(extra@).take(i as int + 1) =~= pair_texts(extra@).take(i as int).push((name@, value@)));
            assert(pair_texts(headers@) =~= content + pair_texts(extra@).take(i as int + 1));
            i = i + 1;
        }
        assert(pair_texts(extra@).take(i as int) =~= pair_texts(extra@));
        let ghost middle = headers@;
        let ghost token_text = match &self.auth_token { Some(t) => Some(t@), None => None };
        match &self.auth_token {
            Some(token) => {
                let mut bearer = String::from_str("Bearer ");
                append_str(&mut bearer, token.as_str());
                let name = String::from_str("Authorization");
                headers.push((name, bearer));
                assert(pair_texts(headers@) =~= pair_texts(middle).push((name@, bearer@)));
            },
            None => {},
        }
        assert(pair_texts(headers@) =~= pair_texts(middle) + auth_headers(token_text));
        assert(pair_texts(headers@) =~= request_header_texts(
            put_or_post,
            has_form,
            body_len,
            pair_texts(extra@),
            match self.auth_token { Some(t) => Some(t@), None => None },
        ));
        Ok(headers)
    }

    /// What to do with an answer: an empty body is the empty value of a call that
    /// expects none (when the call succeeded), and an error otherwise; a body is read
    /// when the call succeeded, and reported with the status otherwise. The status and
    /// the body are given as the texts the messages show.
    pub fn response_action(
        success: bool,
        body_is_empty: bool,
        expects_empty: bool,
        status_text: &str,
        body_text: &str,
    ) -> (res: Result<ResponseAction, KeyCloakError>)
        ensures
            body_is_empty && expects_empty && success ==> res == Ok::<ResponseAction, KeyCloakError>(ResponseAction::ReturnEmpty),
            body_is_empty && expects_empty && !success ==> (res matches Err(e)
                && e.error_type == KeyCloakErrorType::KeyCloakServiceError
                && e.message@ == "Empty body. [status: "@ + status_text@ + "]"@),
            body_is_empty && !expects_empty ==> (res matches Err(e)
                && e.error_type == KeyCloakErrorType::KeyCloakServiceError
                && e.message@ == "Expected body, but found none"@),
            !body_is_empty && success ==> res == Ok::<ResponseAction, KeyCloakError>(ResponseAction::ParseBody),
            !body_is_empty && !success ==> (res matches Err(e)
                && e.error_type == KeyCloakErrorType::KeyCloakServiceError
                && e.message@ == "[status: "@ + status_text@ + " body: "@ + body_text@),
    {
        if body_is_empty {
            if expects_empty {
                if success {
                    return Ok(ResponseAction::ReturnEmpty);
                }
                let mut msg = String::from_str("Empty body. [status: ");
                append_str(&mut msg, status_text);
                append_str(&mut msg, "]");
                return Err(KeyCloakError { error_type: KeyCloakErrorType::KeyCloakServiceError, message: msg });
            }
            return Err(KeyCloakError::new(KeyCloakErrorType::KeyCloakServiceError, "Expected body, but found none"));
        }
        if success {
            Ok(ResponseAction::ParseBody)
        } else {
            let mut msg = String::from_str("[status: ");
            append_str(&mut msg, status_text);
            append_str(&mut msg, " body: ");
            append_str(&mut msg, body_text);
            Err(KeyCloakError { error_type: KeyCloakErrorType::KeyCloakServiceError, message: msg })
        }
    }

    /// The public key of the realm, from the realm's description: its `public_key`
    /// member, where that is a string.
    pub fn public_key_from(value: &JsonValue) -> (res: Option<String>)
        ensures
            match res {
                Some(k) => as_str(get(*value, "public_key"@)) == Some(k@),
                None => as_str(get(*value, "public_key"@)) is None,
            },
    {
        string_member(value, "public_key")
    }

    /// The PEM text of a public key given as its Base64 body.
    pub fn public_key_pem(public_key: &str) -> (res: String)
        ensures
            res@ == "-----BEGIN PUBLIC KEY-----\n"@ + public_key@ + "\n-----END PUBLIC KEY-----"@,
    {
        let mut pem = String::from_str("-----BEGIN PUBLIC KEY-----\n");
        append_str(&mut pem, public_key);
        append_str(&mut pem, "\n-----END PUBLIC KEY-----");
        pem
    }

    /// The claims of a token of the identity service: its RS256 signature is checked with
    /// the realm's public key, given as the Base64 body of its PEM text, and its audience
    /// must be "account". A key that cannot be read, or a token that is refused, is a
    /// `WebTokenError`.
    pub fn decode_token(jwt: &str, public_key: &str) -> (res: Result<serde_json::Value, KeyCloakError>)
        ensures
            res matches Err(e) ==> e.error_type == KeyCloakErrorType::WebTokenError,
    {
        let pem = Self::public_key_pem(public_key);
        let key = match key_from_rsa_pem(pem.as_str()) {
            Ok(key) => key,
            Err(e) => {
                let mut message = String::from_str("DecodingKey::from_rsa_pem error: ");
                append_str(&mut message, e.as_str());
                return Err(KeyCloakError { error_type: KeyCloakErrorType::WebTokenError, message });
            },
        };
        let mut validation = token_validation(TokenAlgorithm::RS256);
        set_audience(&mut validation, "account");
        match decode_claims(jwt, &key, &validation) {
            Ok(claims) => Ok(claims),
            Err(e) => Err(KeyCloakError { error_type: KeyCloakErrorType::WebTokenError, message: e }),
        }
    }

    /// The id of a client, from the answer to the lookup of the client by name: the
    /// answer must be a list of exactly one object whose `id` is a string.
    pub fn client_id_from(value: &JsonValue) -> (res: Result<String, KeyCloakError>)
        ensures
            match client_id_answer(*value) {
                Ok(id) => res matches Ok(r) && r@ == id,
                Err(msg) => res matches Err(e) && e.error_type == KeyCloakErrorType::KeyCloakProxyError
                    && e.message@ == msg,
            },
    {
        match value {
            JsonValue::Array(items) => {
                if items.len() != 1 {
                    return Err(KeyCloakError::new(KeyCloakErrorType::KeyCloakProxyError, "Array length is not 1."));
                }
                match get_member(&items[0], "id") {
                    Some(JsonValue::Str(id)) => Ok(id.clone()),
                    Some(_) => Err(KeyCloakError::new(KeyCloakErrorType::KeyCloakProxyError, "'id' value is not a string.")),
                    None => Err(KeyCloakError::new(KeyCloakErrorType::KeyCloakProxyError, "'id' not found in first element.")),
                }
            },
            _ => Err(KeyCloakError::new(KeyCloakErrorType::KeyCloakProxyError, "Value is not an array.")),
        }
    }

    /// All the roles the claims of a token grant: those of the realm, then those of the
    /// given client and of the account, in the order of the claims. Never fails.
    pub fn claim_to_roles(claims: &JsonValue, client_id: &str) -> (res: Result<Vec<String>, KeyCloakError>)
        ensures
            res matches Ok(roles) && texts(roles@) == claim_roles(*claims, client_id@),
    {
        let mut all_roles: Vec<String> = match get_member(claims, "realm_access") {
            Some(ra) => string_list_of(ra, "roles"),
            None => {
                let empty: Vec<String> = Vec::new();
                assert(texts(empty@) =~= Seq::empty());
                empty
            },
        };
        let ghost realm = texts(all_roles@);
        match get_member(claims, "resource_access") {
            Some(JsonValue::Object(members)) => {
                let wanted = String::from_str(client_id);
                let account = String::from_str("account");
                let mut i: usize = 0;
                while i < members.len()
                    invariant
                        i <= members@.len(),
                        texts(all_roles@) == realm + resource_roles(members@.take(i as int), client_id@),
                        wanted@ == client_id@,
                        account@ == "account"@,
                    decreases members.len() - i,
                {
                    assert(members@.take(i as int + 1).drop_last() =~= members@.take(i as int));
                    if members[i].0 == wanted || members[i].0 == account {
                        let mut found = string_list_of(&members[i].1, "roles");
                        let ghost before = all_roles@;
                        let ghost added = found@;
                        all_roles.append(&mut found);
                        assert(texts(all_roles@) =~= texts(before) + texts(added));
                    }
                    assert(texts(all_roles@) =~= realm + resource_roles(members@.take(i as int + 1), client_id@));
                    i = i + 1;
                }
                assert(members@.take(i as int) =~= members@);
            },
            _ => {
                assert(texts(all_roles@) =~= realm + Seq::empty());
            },
        }
        Ok(all_roles)
    }
}

/// The tokens and lifetimes a login gives.
#[derive(Debug)]
pub struct KeyCloakLoginData {
    pub access_token: String,
    pub expires_in: u32,
    pub refresh_expires_in: u32,
    pub refresh_token: String,
    pub not_before_policy: u32,
    pub session_state: String,
    pub scope: String,
}

/// A request to create a user.
#[derive(Debug)]
pub struct UserCreateRequest {
    pub username: String,
    pub email: String,
    pub enabled: bool,
}

/// A user's profile as the identity service describes it.
#[derive(Debug)]
pub struct UserResponse {
    pub id: String,
    pub created_time_stamp: u64,
    pub username: String,
    pub enabled: bool,
    pub totp: bool,
    pub email_verified: bool,
    pub email: String,
    pub attributes: HashMap<String, Vec<String>>,
    pub disable_credential_types: Vec<String>,
    pub required_actions: Vec<String>,
    pub not_before: u64,
    pub access: Access,
}

/// What the caller may do with a user.
#[derive(Debug)]
pub struct Access {
    pub manage_group_membership: bool,
    pub view: bool,
    pub map_roles: bool,
    pub impersonate: bool,
    pub manage: bool,
}

/// A credential to set for a user.
#[derive(Debug)]
pub struct CredentialRepresentation {
    pub field_name: String,
    pub value: String,
    pub temporary: bool,
}

/// One of the realm's public signing keys.
#[derive(Debug)]
pub struct KeyCloakKeyInfo {
    pub key_id: String,
    pub key_type: String,
    pub algorithm: String,
    pub key_use: String,
    pub modulus: String,
    pub exponent: String,
    pub x509_cert_chain: Vec<String>,
    pub x509_cert_thumbprint: String,
    pub x509_cert_thumbprint_s256: String,
}

/// The realm's public signing keys.
#[derive(Debug)]
pub struct KeyCloakKeyResponse {
    pub keys: Vec<KeyCloakKeyInfo>,
}

/// The claims of a token the identity service issued.
#[derive(Debug)]
pub struct KeyCloakClaims {
    pub authentication_context_class: String,
    pub authorized_party: String,
    pub user_email: String,
    pub is_email_verified: bool,
    pub expiration_time: u64,
    pub issued_at: u64,
    pub issuer: String,
    pub jwt_id: String,
    pub preferred_username: String,
    pub scope: String,
    pub session_state: String,
    pub session_id: String,
    pub subject: String,
    pub token_type: String,
}

/// A group of users.
#[derive(Debug)]
pub struct KeyCloakGroup {
    pub id: String,
    pub name: String,
    pub path: String,
}

/// A role of a realm or of a client.
#[derive(Debug)]
pub struct KeyCloakRole {
    pub role_id: String,
    pub role_name: String,
    pub role_description: Option<String>,
    pub is_composite: bool,
    pub is_client_role: bool,
    pub container_id: String,
}

/// A group as the identity service lists it, with its subgroups.
#[derive(Debug)]
pub struct GroupResponse {
    pub id: String,
    pub name: String,
    pub path: String,
    pub attributes: Option<HashMap<String, Vec<String>>>,
    pub sub_groups: Option<Vec<GroupResponse>>,
}

impl Default for GroupResponse {
    /// A group with empty texts, no attributes and no subgroups.
    fn default() -> (res: GroupResponse)
        ensures
            res.id@.len() == 0,
            res.name@.len() == 0,
            res.path@.len() == 0,
            res.attributes is None,
            res.sub_groups is None,
    {
        GroupResponse {
            id: String::new(),
            name: String::new(),
            path: String::new(),
            attributes: None,
            sub_groups: None,
        }
    }
}

} // verus!

verus! {

/// The roles listed under a member of the resource access named for the client or for
/// the account are among the roles found there.
proof fn lemma_resource_roles_include(members: Seq<(String, JsonValue)>, client_id: Seq<char>, i: int, x: Seq<char>)
    requires
        0 <= i < members.len(),
        members[i].0@ == client_id || members[i].0@ == "account"@,
        string_list_member(members[i].1, "roles"@).contains(x),
    ensures
        resource_roles(members, client_id).contains(x),
    decreases members.len(),
{
    let rest = members.drop_last();
    let here = if members.last().0@ == client_id || members.last().0@ == "account"@ {
        string_list_member(members.last().1, "roles"@)
    } else {
        Seq::empty()
    };
    assert(resource_roles(members, client_id) == resource_roles(rest, client_id) + here);
    if i == members.len() - 1 {
        let k = choose|k: int| 0 <= k < here.len() && here[k] == x;
        assert((resource_roles(rest, client_id) + here)[resource_roles(rest, client_id).len() + k] == x);
    } else {
        assert(rest[i] == members[i]);
        lemma_resource_roles_include(rest, client_id, i, x);
        let k = choose|k: int| 0 <= k < resource_roles(rest, client_id).len() && resource_roles(rest, client_id)[k] == x;
        assert((resource_roles(rest, client_id) + here)[k] == x);
    }
}

/// A token grants every role listed for the client, or for the account, under its resource
/// access, whatever its realm access holds (or whether it has one at all); and every role
/// listed under its realm access.
pub proof fn lemma_claimed_roles_are_granted(claims: JsonValue, client_id: Seq<char>, x: Seq<char>)
    ensures
        (get(claims, "resource_access"@) matches Some(JsonValue::Object(members))
            && exists|i: int| 0 <= i < members@.len()
                && (members@[i].0@ == client_id || members@[i].0@ == "account"@)
                && string_list_member(#[trigger] members@[i].1, "roles"@).contains(x))
            ==> claim_roles(claims, client_id).contains(x),
        (get(claims, "realm_access"@) matches Some(ra) && string_list_member(ra, "roles"@).contains(x))
            ==> claim_roles(claims, client_id).contains(x),
{
    let realm = match get(claims, "realm_access"@) {
        Some(ra) => string_list_member(ra, "roles"@),
        None => Seq::<Seq<char>>::empty(),
    };
    let resources = match get(claims, "resource_access"@) {
        Some(JsonValue::Object(members)) => resource_roles(members@, client_id),
        _ => Seq::<Seq<char>>::empty(),
    };
    assert(claim_roles(claims, client_id) == realm + resources);
    if let Some(JsonValue::Object(members)) = get(claims, "resource_access"@) {
        if exists|i: int| 0 <= i < members@.len()
            && (members@[i].0@ == client_id || members@[i].0@ == "account"@)
            && string_list_member(#[trigger] members@[i].1, "roles"@).contains(x) {
            let i = choose|i: int| 0 <= i < members@.len()
                && (members@[i].0@ == client_id || members@[i].0@ == "account"@)
                && string_list_member(#[trigger] members@[i].1, "roles"@).contains(x);
            lemma_resource_roles_include(members@, client_id, i, x);
            let k = choose|k: int| 0 <= k < resources.len() && resources[k] == x;
            assert((realm + resources)[realm.len() + k] == x);
        }
    }
    if let Some(ra) = get(claims, "realm_access"@) {
        if string_list_member(ra, "roles"@).contains(x) {
            let k = choose|k: int| 0 <= k < realm.len() && realm[k] == x;
            assert((realm + resources)[k] == x);
        }
    }
}

} // verus!
