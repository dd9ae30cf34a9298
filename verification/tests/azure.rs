use catan_service::cmd_log::{print_cmd, replace_text, try_print_cmd};
use catan_service::azure::{
    create_cosmos_account_args, create_resource_group_args, database_args, list_locations_args,
    message_display, names_hold, resource_group_creation, cosmos_account_creation, names_of_locations, output_mentions, parse_exists_output,
    save_secret_args, secret_display, send_email_args, subscription_id_from, trim_text, CosmosSecret,
};
use catan_service::json::JsonValue;

fn secret(c: &str) -> CosmosSecret {
    CosmosSecret {
        connection_string: c.to_string(),
        description: "Primary SQL Connection String".to_string(),
        key_kind: "Primary".to_string(),
        key_type: "Sql".to_string(),
    }
}

#[test]
fn secrets_compare_by_value() {
    assert!(secret("a").equal_by_val(&secret("a")));
    assert!(!secret("a").equal_by_val(&secret("b")));
}

#[test]
fn command_arguments() {
    assert_eq!(
        create_resource_group_args("rg", "westus"),
        vec!["group", "create", "--name", "rg", "--location", "westus"]
    );
    assert_eq!(
        create_cosmos_account_args("rg", "acct", "westus"),
        vec![
            "cosmosdb", "create", "--name", "acct", "--resource-group", "rg", "--kind", "GlobalDocumentDB",
            "--locations", "regionName=westus", "--capabilities", "EnableServerless"
        ]
    );
    assert_eq!(
        database_args("show", "acct", "db", "rg"),
        vec!["cosmosdb", "sql", "database", "show", "--account-name", "acct", "--name", "db", "--resource-group", "rg"]
    );
    assert_eq!(
        list_locations_args("West US"),
        vec![
            "account",
            "list-locations",
            "--query",
            "[?name == 'West US' || displayName == 'West US'].{Name: name, DisplayName: displayName}"
        ]
    );
    assert_eq!(
        send_email_args("to@x", "from@x", "hi", "body"),
        vec!["communication", "email", "send", "--sender", "from@x", "--to", "to@x", "--subject", "hi", "--text", "body"]
    );
    assert_eq!(
        save_secret_args("kv", "name", "value"),
        vec!["keyvault", "secret", "set", "--vault-name", "kv", "--name", "name", "--value", "value"]
    );
}

#[test]
fn exists_output_is_trimmed_true_or_false() {
    assert_eq!(parse_exists_output("true\n").unwrap(), true);
    assert_eq!(parse_exists_output("  false ").unwrap(), false);
    assert_eq!(parse_exists_output("TRUE").unwrap_err(), "Unexpected output from Azure CLI: TRUE");
    assert_eq!(parse_exists_output(" \n").unwrap_err(), "Unexpected output from Azure CLI: ");
}

#[test]
fn trimming() {
    assert_eq!(trim_text("\t a b \n"), "a b");
    assert_eq!(trim_text(""), "");
    assert_eq!(trim_text("   "), "");
    assert_eq!(trim_text("x"), "x");
}

#[test]
fn mentions() {
    assert!(output_mentions("{\"name\": \"my-kv\"}", "my-kv"));
    assert!(!output_mentions("ERROR: not found", "my-kv"));
    assert!(output_mentions("abc", ""));
    assert!(!output_mentions("ab", "abc"));
}

#[test]
fn secrets_are_masked_in_logs() {
    assert_eq!(secret_display("abcdefgh"), "ab...gh");
    assert_eq!(secret_display("abcd"), "<secret>");
    assert_eq!(secret_display("abcde"), "ab...de");
    assert_eq!(secret_display("ééé"), "é...é");
    assert_eq!(message_display("hello world"), "hel...rld");
    assert_eq!(message_display("short"), "short");
}

#[test]
fn locations_and_subscription() {
    let loc = |n: &str, d: &str| {
        JsonValue::Object(vec![
            ("Name".to_string(), JsonValue::Str(n.to_string())),
            ("DisplayName".to_string(), JsonValue::Str(d.to_string())),
        ])
    };
    let names = names_of_locations(&vec![loc("westus", "West US"), JsonValue::Null, loc("eastus", "East US")]);
    assert_eq!(names, vec!["westus", "West US", "eastus", "East US"]);
    assert!(names_hold(&names, "West US"));
    assert!(!names_hold(&names, "Mars"));
    let account = JsonValue::Object(vec![("id".to_string(), JsonValue::Str("sub-1".to_string()))]);
    assert_eq!(subscription_id_from(&account).as_deref(), Some("sub-1"));
    assert_eq!(subscription_id_from(&JsonValue::Null), None);
}

fn strings(v: &[&str]) -> Vec<String> {
    v.iter().map(|s| s.to_string()).collect()
}

#[test]
fn command_lines_for_the_log() {
    let none: Vec<(String, String)> = Vec::new();
    assert_eq!(print_cmd(&strings(&["group", "exists", "--name", "rg"]), &none), "az group exists --name rg");
    assert_eq!(
        print_cmd(&strings(&["account", "list-locations", "--query", "[?x]"]), &none),
        "az account list-locations --query \"[?x]\""
    );
    let secrets = vec![("s3cr3t".to_string(), "adminPassword".to_string())];
    assert_eq!(print_cmd(&strings(&["--value", "xs3cr3ty"]), &secrets), "az --value xadminPasswordy");
    assert_eq!(
        print_cmd(&strings(&["AccountEndpoint=e;AccountKey=abcdefgh;Db=1"]), &none),
        "az AccountEndpoint=e;AccountKey=XXXXXx==;Db=1"
    );
    assert_eq!(try_print_cmd(&strings(&["AccountKey=ab"]), &none), None);
    assert_eq!(replace_text("aaa", "aa", "b"), "ba");
    assert_eq!(replace_text("abc", "", "-"), "-a-b-c-");
    assert_eq!(replace_text("abc", "x", "y"), "abc");
}

#[test]
fn setup_plan_covers_both_databases() {
    use_setup_steps();
}

fn use_setup_steps() {
    let steps = catan_service::azure::setup_steps("db");
    let names: Vec<String> = steps
        .iter()
        .map(|s| match s {
            catan_service::azure::SetupStep::Account => "account".to_string(),
            catan_service::azure::SetupStep::Database(d) => format!("database {}", d),
            catan_service::azure::SetupStep::Collection { database, collection } => {
                format!("collection {}/{}", database, collection)
            }
        })
        .collect();
    assert_eq!(
        names,
        vec![
            "account",
            "database db",
            "database db-test",
            "collection db/Users-Collection",
            "collection db-test/Users-Collection-test",
            "collection db/Profile-Collection",
            "collection db-test/Profile-Collection-test",
            "collection db/Game-Collection",
            "collection db-test/Game-Collection-test",
        ]
    );
}

#[test]
fn host_names_split_into_host_and_port() {
    use_host_and_port();
}

fn use_host_and_port() {
    let hp = catan_service::azure::host_and_port;
    assert_eq!(hp("example.com:8443"), ("example.com".to_string(), 8443));
    assert_eq!(hp("example.com"), ("example.com".to_string(), 8080));
    assert_eq!(hp("example.com:"), ("example.com".to_string(), 8080));
    assert_eq!(hp("example.com:99999"), ("example.com".to_string(), 8080));
    assert_eq!(hp("example.com:-1"), ("example.com".to_string(), 8080));
    assert_eq!(hp("example.com:+81:x"), ("example.com".to_string(), 81));
    assert_eq!(hp("h:12ab"), ("h".to_string(), 8080));
}

#[test]
fn resource_group_creation_refuses_bad_location_and_existing_group() {
    assert_eq!(resource_group_creation("rg", "westus", true, false), Ok(()));
    assert_eq!(resource_group_creation("rg", "mars", false, false), Err("Invalid location: mars".to_string()));
    assert_eq!(resource_group_creation("rg", "westus", true, true), Err("Resource group already exists: rg".to_string()));
}

#[test]
fn cosmos_account_creation_needs_a_valid_location() {
    assert_eq!(cosmos_account_creation("westus", true, false), Ok(true));
    assert_eq!(cosmos_account_creation("westus", true, true), Ok(false));
    assert_eq!(cosmos_account_creation("mars", false, false), Err("Invalid location: mars".to_string()));
}
