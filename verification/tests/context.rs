use catan_service::cosmos::{connected_users_query, cosmos_names, email_query, id_query, list_users_query};
use catan_service::database::CosmosDocType;
use catan_service::database::{get_collection_names, DatabaseKind, ProfileStorage};
use catan_service::environment::{ConfigEnvironmentVariables, RequestContext as EnvContext, TestContext};
use catan_service::json::JsonValue;
use catan_service::request_context::{Claims, RequestContext, Role, TestCallContext};
use catan_service::security::{generate_jwt_key, KeySet, SecurityContext};
use catan_service::service_config::{name_value_map_from, ServiceConfig};

fn keys() -> SecurityContext {
    let k = || KeySet::from_secrets("p", "s", "key-one".to_string(), "key-two".to_string());
    SecurityContext { login_keys: k(), validation_keys: k(), test_keys: k() }
}

fn config() -> ServiceConfig {
    let mut c = ServiceConfig::default();
    c.cosmos_database_name = "catan-db".to_string();
    c
}

#[test]
fn collection_names() {
    assert_eq!(get_collection_names(false), vec!["Users-Collection", "Profile-Collection", "Game-Collection"]);
    assert_eq!(
        get_collection_names(true),
        vec!["Users-Collection-Test", "Profile-Collection-Test", "Game-Collection-Test"]
    );
}

#[test]
fn database_from_location() {
    assert_eq!(DatabaseKind::from_location(ProfileStorage::CosmosDb), DatabaseKind::Cosmos { use_test_collection: false });
    assert_eq!(DatabaseKind::from_location(ProfileStorage::CosmosDbTest), DatabaseKind::Cosmos { use_test_collection: true });
    assert_eq!(DatabaseKind::from_location(ProfileStorage::MockDb), DatabaseKind::Test);
    assert_eq!(DatabaseKind::for_storage(None), DatabaseKind::Cosmos { use_test_collection: false });
}

#[test]
fn test_request_contexts() {
    let ctx = RequestContext::test_default(true, &config(), &keys());
    assert!(ctx.is_test());
    assert!(ctx.is_caller_in_role(Role::TestUser));
    assert!(!ctx.is_caller_in_role(Role::Admin));
    assert_eq!(ctx.database_name(), "catan-db-test");
    assert_eq!(ctx.database().unwrap(), DatabaseKind::Cosmos { use_test_collection: true });
    let mock = RequestContext::test_default(false, &config(), &keys());
    assert_eq!(mock.database_name(), "catan-db");
    assert_eq!(mock.database().unwrap(), DatabaseKind::Test);
}

#[test]
fn admin_and_anonymous_contexts() {
    let admin = RequestContext::admin_default(Some("u1"), "a@b.c", &config(), &keys());
    assert!(admin.is_caller_in_role(Role::Admin));
    assert!(admin.is_test());
    let claims = admin.claims.as_ref().unwrap();
    assert_eq!(claims.id, "u1");
    assert_eq!(claims.email, "a@b.c");
    assert_eq!(claims.roles, vec![Role::TestUser, Role::Admin]);
    let none = RequestContext::new(None, &None, &config(), &keys());
    assert!(!none.is_test());
    let e = none.database().unwrap_err();
    assert_eq!(e.message, "need claims to create a db connection from a request context");
    let mut set = none;
    let c = Claims::new("x", "y", 100, &vec![Role::User], ProfileStorage::MockDb);
    set.set_claims(&c);
    assert!(set.is_caller_in_role(Role::User));
    assert_eq!(set.database().unwrap(), DatabaseKind::Test);
}

#[test]
fn test_call_context() {
    let mut t = TestCallContext::new(None, None);
    t.set_phone_code(Some(569342));
    assert_eq!(t.phone_code, Some(569342));
    assert!(t.game.is_none());
}

#[test]
fn environment_context() {
    let env = ConfigEnvironmentVariables { cosmos_database_name: "db".to_string() };
    let t = EnvContext::test_default(false, &env);
    assert!(t.is_test());
    assert!(t.use_mock_db());
    assert!(!t.use_cosmos_db());
    assert_eq!(t.database_name(), "db-test");
    assert_eq!(t.database, DatabaseKind::Test);
    let p = EnvContext::new(None, &env);
    assert!(!p.is_test());
    assert!(!p.use_mock_db());
    assert!(p.use_cosmos_db());
    assert_eq!(p.database_name(), "db");
    let c = EnvContext::new(Some(TestContext::new(true)), &env);
    assert_eq!(c.database, DatabaseKind::Cosmos { use_test_collection: true });
    assert_eq!(TestContext::as_json(true), "{\"UseCosmosDb\":true}");
    assert_eq!(TestContext::as_json(false), "{\"UseCosmosDb\":false}");
}

#[test]
fn secrets_map_to_their_names() {
    let doc = JsonValue::Object(vec![
        ("adminPassword".to_string(), JsonValue::Str("hunter2".to_string())),
        ("count".to_string(), JsonValue::Number("3".to_string())),
        ("testPassword".to_string(), JsonValue::Str("hunter2".to_string())),
        ("cosmosToken".to_string(), JsonValue::Str("tok".to_string())),
    ]);
    let map = name_value_map_from(&doc);
    assert_eq!(
        map,
        vec![
            ("hunter2".to_string(), "testPassword".to_string()),
            ("tok".to_string(), "cosmosToken".to_string())
        ]
    );
    assert!(name_value_map_from(&JsonValue::Null).is_empty());
}

#[test]
fn tokens_signed_with_either_key_are_accepted() {
    let claims: serde_json::Value = serde_json::from_str("{\"sub\":\"x\",\"exp\":4102444800}").unwrap();
    let header = jsonwebtoken::Header::new(jsonwebtoken::Algorithm::HS512);
    let ks = KeySet::from_secrets("p", "s", "key-one".to_string(), "key-two".to_string());
    let t1 = jsonwebtoken::encode(&header, &claims, &jsonwebtoken::EncodingKey::from_secret(b"key-one")).unwrap();
    let t2 = jsonwebtoken::encode(&header, &claims, &jsonwebtoken::EncodingKey::from_secret(b"key-two")).unwrap();
    let t3 = jsonwebtoken::encode(&header, &claims, &jsonwebtoken::EncodingKey::from_secret(b"other")).unwrap();
    let expected = |v: Option<JsonValue>| match v {
        Some(JsonValue::Object(m)) => {
            m.len() == 2
                && m[0].0 == "exp" && matches!(&m[0].1, JsonValue::Number(n) if n == "4102444800")
                && m[1].0 == "sub" && matches!(&m[1].1, JsonValue::Str(s) if s == "x")
        }
        _ => false,
    };
    assert!(expected(ks.validate_token(&t1)));
    assert!(expected(ks.validate_token(&t2)));
    assert!(ks.validate_token(&t3).is_none());
    assert!(ks.validate_token("not a token").is_none());
}

#[test]
fn generated_keys_are_base64_of_96_bytes() {
    let a = generate_jwt_key();
    let b = generate_jwt_key();
    assert_eq!(a.len(), 128);
    assert_ne!(a, b);
    assert!(a.chars().all(|c| c.is_ascii_alphanumeric() || c == '+' || c == '/' || c == '='));
}

#[test]
fn claims_hold_from_now() {
    let now = std::time::SystemTime::now()
        .duration_since(std::time::UNIX_EPOCH)
        .unwrap()
        .as_secs();
    let c = Claims::new("id", "e@x", 30, &vec![Role::Admin], ProfileStorage::CosmosDb);
    assert!(c.exp >= now + 30);
    assert!(c.exp <= now + 30 + 60);
    assert_eq!(c.roles, vec![Role::Admin]);
    assert_eq!(c.profile_storage, ProfileStorage::CosmosDb);
}

#[test]
fn cosmos_names_and_queries() {
    let names = cosmos_names("Users-db", true);
    assert_eq!(names.database_name, "Users-db-test");
    assert_eq!(names.collections[0], (CosmosDocType::User, "Users-Collection-test".to_string()));
    assert_eq!(names.collections[2], (CosmosDocType::Game, "Game-Collection-test".to_string()));
    let prod = cosmos_names("Users-db", false);
    assert_eq!(prod.database_name, "Users-db");
    assert_eq!(prod.collections[1], (CosmosDocType::Profile, "Profile-Collection".to_string()));
    assert_eq!(id_query("42"), "SELECT * FROM c WHERE c.id = '42'");
    assert_eq!(email_query("a@b"), "SELECT * FROM c WHERE c.user_profile.Pii.Email = 'a@b'");
    assert_eq!(connected_users_query("7"), "SELECT * FROM c WHERE c.connected_user_id = '7'");
    assert_eq!(list_users_query(), "SELECT * FROM c WHERE c.partitionKey=1");
}

#[test]
fn bearer_token_of_a_header() {
    assert_eq!(catan_service::security::token_of_header("Bearer abc.def"), "abc.def");
    assert_eq!(catan_service::security::token_of_header("abc"), "abc");
}
