use catan_service::json::JsonValue;
use catan_service::keycloak::{HttpMethod, KeyCloakError, KeyCloakErrorType, KeyCloakProxy, ResponseAction};

fn s(t: &str) -> JsonValue {
    JsonValue::Str(t.to_string())
}

fn obj(members: Vec<(&str, JsonValue)>) -> JsonValue {
    JsonValue::Object(members.into_iter().map(|(k, v)| (k.to_string(), v)).collect())
}

fn proxy() -> KeyCloakProxy {
    KeyCloakProxy::new("https://kc.example.com", "catan")
}

fn pairs(v: &[(&str, &str)]) -> Vec<(String, String)> {
    v.iter().map(|(a, b)| (a.to_string(), b.to_string())).collect()
}

#[test]
fn urls() {
    let p = proxy();
    assert_eq!(p.login_url(), "https://kc.example.com/auth/realms/catan/protocol/openid-connect/token");
    assert_eq!(p.users_url(), "https://kc.example.com/auth/admin/realms/catan/users");
    assert_eq!(p.user_profile_url("bob"), "https://kc.example.com/auth/admin/realms/catan/users?username=bob");
    assert_eq!(
        p.reset_password_url("42"),
        "https://kc.example.com/auth/admin/realms/catan/users/42/reset-password"
    );
    assert_eq!(p.certs_url(), "https://kc.example.com/auth/realms/catan/protocol/openid-connect/certs");
    assert_eq!(p.realm_url(), "https://kc.example.com/auth/realms/catan");
    assert_eq!(p.groups_url(), "https://kc.example.com/auth/admin/realms/catan/groups");
    assert_eq!(p.roles_url(None), "https://kc.example.com/auth/admin/realms/catan/roles");
    assert_eq!(
        p.roles_url(Some("c-1")),
        "https://kc.example.com/auth/admin/realms/catan/clients/c-1/roles"
    );
    assert_eq!(
        p.client_id_url("svc"),
        "https://kc.example.com/auth/admin/realms/catan/clients?clientId=svc"
    );
    assert_eq!(
        p.role_mapping_url("42", "c-1"),
        "https://kc.example.com/auth/admin/realms/catan/users/42/role-mappings/clients/c-1"
    );
}

#[test]
fn token_and_realm_can_change() {
    let mut p = proxy();
    assert!(p.auth_token.is_none());
    p.set_auth_token(Some("tok".to_string()));
    assert_eq!(p.auth_token.as_deref(), Some("tok"));
    p.set_realm("master");
    assert_eq!(p.realm_url(), "https://kc.example.com/auth/realms/master");
    p.set_auth_token(None);
    assert!(p.auth_token.is_none());
}

#[test]
fn login_params_default_to_the_admin_console() {
    assert_eq!(
        KeyCloakProxy::login_params("u", "p", None, None),
        pairs(&[("grant_type", "password"), ("client_id", "admin-cli"), ("username", "u"), ("password", "p")])
    );
    assert_eq!(
        KeyCloakProxy::login_params("u", "p", Some("svc"), Some("openid")),
        pairs(&[
            ("grant_type", "password"),
            ("client_id", "svc"),
            ("username", "u"),
            ("password", "p"),
            ("scope", "openid")
        ])
    );
}

#[test]
fn password_credential_is_permanent() {
    let c = KeyCloakProxy::password_credential("secret");
    assert_eq!(c.field_name, "password");
    assert_eq!(c.value, "secret");
    assert!(!c.temporary);
}

#[test]
fn request_headers() {
    let mut p = proxy();
    let extra = pairs(&[("X-One", "1")]);
    let h = p.request_headers(&HttpMethod::Post, true, None, &extra).unwrap();
    assert_eq!(h, pairs(&[("Content-Type", "application/x-www-form-urlencoded"), ("X-One", "1")]));
    p.set_auth_token(Some("abc".to_string()));
    let h = p.request_headers(&HttpMethod::Put, false, Some(17), &Vec::new()).unwrap();
    assert_eq!(
        h,
        pairs(&[("Content-Type", "application/json"), ("Content-Length", "17"), ("Authorization", "Bearer abc")])
    );
    let h = p.request_headers(&HttpMethod::Get, true, Some(3), &extra).unwrap();
    assert_eq!(h, pairs(&[("X-One", "1"), ("Authorization", "Bearer abc")]));
    let e: KeyCloakError = p.request_headers(&HttpMethod::Other("PATCH".to_string()), false, None, &extra).unwrap_err();
    assert_eq!(e.error_type, KeyCloakErrorType::KeyCloakProxyError);
    assert_eq!(e.message, "Unsupported HTTP method: PATCH");
}

#[test]
fn response_actions() {
    assert_eq!(KeyCloakProxy::response_action(true, true, true, "200", "").unwrap(), ResponseAction::ReturnEmpty);
    let e = KeyCloakProxy::response_action(false, true, true, "404", "").unwrap_err();
    assert_eq!(e.error_type, KeyCloakErrorType::KeyCloakServiceError);
    assert_eq!(e.message, "Empty body. [status: 404]");
    let e = KeyCloakProxy::response_action(true, true, false, "200", "").unwrap_err();
    assert_eq!(e.message, "Expected body, but found none");
    assert_eq!(KeyCloakProxy::response_action(true, false, false, "200", "{}").unwrap(), ResponseAction::ParseBody);
    let e = KeyCloakProxy::response_action(false, false, true, "409", "dup").unwrap_err();
    assert_eq!(e.message, "[status: 409 body: dup");
}

#[test]
fn roles_come_from_the_realm_then_the_client_and_account() {
    let claims = obj(vec![
        ("realm_access", obj(vec![("roles", JsonValue::Array(vec![s("offline"), JsonValue::Null, s("uma")]))])),
        (
            "resource_access",
            obj(vec![
                ("account", obj(vec![("roles", JsonValue::Array(vec![s("view-profile")]))])),
                ("other", obj(vec![("roles", JsonValue::Array(vec![s("nope")]))])),
                ("svc", obj(vec![("roles", JsonValue::Array(vec![s("TestUser")]))])),
            ]),
        ),
    ]);
    let roles = KeyCloakProxy::claim_to_roles(&claims, "svc").unwrap();
    assert_eq!(roles, vec!["offline", "uma", "view-profile", "TestUser"]);
    let none = KeyCloakProxy::claim_to_roles(&JsonValue::Null, "svc").unwrap();
    assert!(none.is_empty());
}

#[test]
fn client_id_lookup() {
    let ok = JsonValue::Array(vec![obj(vec![("clientId", s("svc")), ("id", s("uuid-1"))])]);
    assert_eq!(KeyCloakProxy::client_id_from(&ok).unwrap(), "uuid-1");
    let e = KeyCloakProxy::client_id_from(&JsonValue::Array(vec![])).unwrap_err();
    assert_eq!(e.message, "Array length is not 1.");
    let e = KeyCloakProxy::client_id_from(&s("x")).unwrap_err();
    assert_eq!(e.message, "Value is not an array.");
    let e = KeyCloakProxy::client_id_from(&JsonValue::Array(vec![obj(vec![("id", JsonValue::Bool(true))])])).unwrap_err();
    assert_eq!(e.message, "'id' value is not a string.");
    let e = KeyCloakProxy::client_id_from(&JsonValue::Array(vec![obj(vec![])])).unwrap_err();
    assert_eq!(e.error_type, KeyCloakErrorType::KeyCloakProxyError);
    assert_eq!(e.message, "'id' not found in first element.");
}

#[test]
fn public_key() {
    let realm = obj(vec![("realm", s("catan")), ("public_key", s("MIIB"))]);
    assert_eq!(KeyCloakProxy::public_key_from(&realm).as_deref(), Some("MIIB"));
    assert_eq!(KeyCloakProxy::public_key_from(&obj(vec![])), None);
    assert_eq!(
        KeyCloakProxy::public_key_pem("MIIB"),
        "-----BEGIN PUBLIC KEY-----\nMIIB\n-----END PUBLIC KEY-----"
    );
}

#[test]
fn error_constructor() {
    let e = KeyCloakError::new(KeyCloakErrorType::JsonError, "bad");
    assert_eq!(e.error_type, KeyCloakErrorType::JsonError);
    assert_eq!(e.message, "bad");
}

fn rsa_pair() -> (String, String) {
    let rsa = openssl::rsa::Rsa::generate(2048).unwrap();
    let private_pem = String::from_utf8(rsa.private_key_to_pem().unwrap()).unwrap();
    let public_pem = String::from_utf8(rsa.public_key_to_pem().unwrap()).unwrap();
    let body: Vec<&str> = public_pem.lines().filter(|l| !l.starts_with("-----")).collect();
    (private_pem, body.join("\n"))
}

fn rs256_token(private_pem: &str, claims_text: &str) -> String {
    let claims: serde_json::Value = serde_json::from_str(claims_text).unwrap();
    let header = jsonwebtoken::Header::new(jsonwebtoken::Algorithm::RS256);
    let key = jsonwebtoken::EncodingKey::from_rsa_pem(private_pem.as_bytes()).unwrap();
    jsonwebtoken::encode(&header, &claims, &key).unwrap()
}

#[test]
fn decode_token_checks_the_realm_key() {
    let (private_pem, public_body) = rsa_pair();
    let claims_text = r#"{"aud":"account","exp":4102444800,"realm_access":{"roles":["user"]}}"#;
    let token = rs256_token(&private_pem, claims_text);
    let claims = KeyCloakProxy::decode_token(&token, &public_body).unwrap();
    assert_eq!(claims, serde_json::from_str::<serde_json::Value>(claims_text).unwrap());

    let (_, other_body) = rsa_pair();
    let err = KeyCloakProxy::decode_token(&token, &other_body).unwrap_err();
    assert_eq!(err.error_type, KeyCloakErrorType::WebTokenError);

    let err = KeyCloakProxy::decode_token(&token, "not a key").unwrap_err();
    assert_eq!(err.error_type, KeyCloakErrorType::WebTokenError);
    assert!(err.message.starts_with("DecodingKey::from_rsa_pem error: "));
}

#[test]
fn decode_token_wants_the_account_audience() {
    let (private_pem, public_body) = rsa_pair();
    let token = rs256_token(&private_pem, r#"{"aud":"other","exp":4102444800}"#);
    let err = KeyCloakProxy::decode_token(&token, &public_body).unwrap_err();
    assert_eq!(err.error_type, KeyCloakErrorType::WebTokenError);
    let token = rs256_token(&private_pem, r#"{"aud":"account","exp":1000}"#);
    assert!(KeyCloakProxy::decode_token(&token, &public_body).is_err());
}
