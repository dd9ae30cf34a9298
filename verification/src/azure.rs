use vstd::prelude::*;
use crate::json::{as_str, get, string_member, texts, JsonValue};
use crate::text::{byte_boundary, is_white_space, parse_i32, parse_i32_text, shorten, shortened, text_utf8_len, utf8_len};
use crate::database::{collection_name_values, collection_names};
use crate::tiles::append_str;

verus! {

/// A connection string of a cloud database account, as its key listing gives it.
#[derive(Debug)]
pub struct CosmosSecret {
    pub connection_string: String,
    pub description: String,
    pub key_kind: String,
    pub key_type: String,
}

impl CosmosSecret {
    /// Whether two secrets have the same four texts.
    pub fn equal_by_val(&self, other: &CosmosSecret) -> (res: bool)
        ensures
            res == (self.connection_string@ == other.connection_string@
                && self.description@ == other.description@
                && self.key_kind@ == other.key_kind@
                && self.key_type@ == other.key_type@),
    {
        if self.connection_string == other.connection_string
            && self.description == other.description
            && self.key_kind == other.key_kind
            && self.key_type == other.key_type
        {
            return true;
        }
        false
    }
}

/// The answer of the key listing of a cloud database account.
#[derive(Debug)]
pub struct CosmosSecretsOutput {
    pub connection_strings: Vec<CosmosSecret>,
}

/// What the command line tool says of a cloud database.
#[derive(Debug)]
pub struct CosmosDatabaseInfo {
    pub id: String,
    pub name: String,
    pub resource_group: String,
    pub cosmos_type: String,
}

/// The texts of a list of string slices.
pub open spec fn str_texts(parts: Seq<&str>) -> Seq<Seq<char>> {
    parts.map_values(|p: &str| p@)
}

/// Owned copies of a list of string slices.
fn to_strings(parts: Vec<&str>) -> (res: Vec<String>)
    ensures
        texts(res@) == str_texts(parts@),
{
    let mut res: Vec<String> = Vec::new();
    let mut i: usize = 0;
    while i < parts.len()
        invariant
            i <= parts@.len(),
            texts(res@) == str_texts(parts@).take(i as int),
        decreases parts.len() - i,
    {
        let ghost before = res@;
        let s = String::from_str(parts[i]);
        res.push(s);
        assert(texts(res@) =~= texts(before).push(s@));
        assert(str_texts(parts@).take(i as int + 1) =~= str_texts(parts@).take(i as int).push(parts@[i as int]@));
        i = i + 1;
    }
    assert(str_texts(parts@).take(i as int) =~= str_texts(parts@));
    res
}

/// The arguments that show the signed-in account.
pub fn account_show_args() -> (res: Vec<String>)
    ensures
        texts(res@) == seq!["account"@, "show"@],
{
    let res = to_strings(vec!["account", "show"]);
    proof { assert(str_texts(seq!["account", "show"]) =~= seq!["account"@, "show"@]); }
    res
}

/// The arguments that start an interactive login.
pub fn login_args() -> (res: Vec<String>)
    ensures
        texts(res@) == seq!["login"@],
{
    let res = to_strings(vec!["login"]);
    proof { assert(str_texts(seq!["login"]) =~= seq!["login"@]); }
    res
}

/// The arguments that get an access token for the signed-in account.
pub fn access_token_args() -> (res: Vec<String>)
    ensures
        texts(res@) == seq!["account"@, "get-access-token"@],
{
    let res = to_strings(vec!["account", "get-access-token"]);
    proof { assert(str_texts(seq!["account", "get-access-token"]) =~= seq!["account"@, "get-access-token"@]); }
    res
}

/// The arguments that create a resource group in a location.
pub fn create_resource_group_args(resource_group_name: &str, location: &str) -> (res: Vec<String>)
    ensures
        texts(res@) == seq!["group"@, "create"@, "--name"@, resource_group_name@, "--location"@, location@],
{
    let parts = vec!["group", "create", "--name", resource_group_name, "--location", location];
    let res = to_strings(parts);
    assert(str_texts(parts@) =~= seq!["group"@, "create"@, "--name"@, resource_group_name@, "--location"@, location@]);
    res
}

/// The arguments that ask whether a resource group exists.
pub fn resource_group_exists_args(resource_group_name: &str) -> (res: Vec<String>)
    ensures
        texts(res@) == seq!["group"@, "exists"@, "--name"@, resource_group_name@],
{
    let parts = vec!["group", "exists", "--name", resource_group_name];
    let res = to_strings(parts);
    assert(str_texts(parts@) =~= seq!["group"@, "exists"@, "--name"@, resource_group_name@]);
    res
}

/// The arguments that delete a resource group without asking and without waiting.
pub fn delete_resource_group_args(resource_group_name: &str) -> (res: Vec<String>)
    ensures
        texts(res@) == seq!["group"@, "delete"@, "--name"@, resource_group_name@, "--yes"@, "--no-wait"@],
{
    let parts = vec!["group", "delete", "--name", resource_group_name, "--yes", "--no-wait"];
    let res = to_strings(parts);
    assert(str_texts(parts@) =~= seq!["group"@, "delete"@, "--name"@, resource_group_name@, "--yes"@, "--no-wait"@]);
    res
}

/// The query that finds a location by its name or its display name.
pub open spec fn location_query(location: Seq<char>) -> Seq<char> {
    "[?name == '"@ + location + "' || displayName == '"@ + location + "'].{Name: name, DisplayName: displayName}"@
}

/// The arguments that look a location up.
pub fn list_locations_args(location: &str) -> (res: Vec<String>)
    ensures
        texts(res@) == seq!["account"@, "list-locations"@, "--query"@, location_query(location@)],
{
    let mut query = String::from_str("[?name == '");
    append_str(&mut query, location);
    append_str(&mut query, "' || displayName == '");
    append_str(&mut query, location);
    append_str(&mut query, "'].{Name: name, DisplayName: displayName}");
    let mut res = to_strings(vec!["account", "list-locations", "--query"]);
    let ghost before = res@;
    res.push(query);
    proof {
        assert(str_texts(seq!["account", "list-locations", "--query"]) =~= seq!["account"@, "list-locations"@, "--query"@]);
        assert(texts(res@) =~= texts(before).push(query@));
    }
    res
}

/// The arguments that create a serverless document database account in a location.
pub fn create_cosmos_account_args(resource_group_name: &str, account_name: &str, location: &str) -> (res: Vec<String>)
    ensures
        texts(res@) == seq![
            "cosmosdb"@, "create"@, "--name"@, account_name@, "--resource-group"@, resource_group_name@,
            "--kind"@, "GlobalDocumentDB"@, "--locations"@, "regionName="@ + location@,
            "--capabilities"@, "EnableServerless"@,
        ],
{
    let mut region = String::from_str("regionName=");
    append_str(&mut region, location);
    let mut res = to_strings(vec![
        "cosmosdb", "create", "--name", account_name, "--resource-group", resource_group_name,
        "--kind", "GlobalDocumentDB", "--locations",
    ]);
    let ghost first = res@;
    res.push(region);
    let tail = to_strings(vec!["--capabilities", "EnableServerless"]);
    let ghost middle = res@;
    let mut tail = tail;
    let ghost tail_view = tail@;
    res.append(&mut tail);
    proof {
        assert(texts(res@) =~= texts(first) + seq![region@] + texts(tail_view));
        assert(str_texts(seq!["--capabilities", "EnableServerless"]) =~= seq!["--capabilities"@, "EnableServerless"@]);
        assert(str_texts(seq![
            "cosmosdb", "create", "--name", account_name, "--resource-group", resource_group_name,
            "--kind", "GlobalDocumentDB", "--locations",
        ]) =~= seq![
            "cosmosdb"@, "create"@, "--name"@, account_name@, "--resource-group"@, resource_group_name@,
            "--kind"@, "GlobalDocumentDB"@, "--locations"@,
        ]);
    }
    assert(texts(res@) =~= seq![
        "cosmosdb"@, "create"@, "--name"@, account_name@, "--resource-group"@, resource_group_name@,
        "--kind"@, "GlobalDocumentDB"@, "--locations"@, "regionName="@ + location@,
        "--capabilities"@, "EnableServerless"@,
    ]);
    res
}

/// The arguments that delete a document database account without asking.
pub fn delete_cosmos_account_args(cosmos_db_name: &str, resource_group_name: &str) -> (res: Vec<String>)
    ensures
        texts(res@) == seq![
            "cosmosdb"@, "delete"@, "--name"@, cosmos_db_name@, "--resource-group"@, resource_group_name@, "--yes"@,
        ],
{
    let parts = vec!["cosmosdb", "delete", "--name", cosmos_db_name, "--resource-group", resource_group_name, "--yes"];
    let res = to_strings(parts);
    assert(str_texts(parts@) =~= seq![
        "cosmosdb"@, "delete"@, "--name"@, cosmos_db_name@, "--resource-group"@, resource_group_name@, "--yes"@,
    ]);
    res
}

/// The arguments that list the document database accounts of a resource group with the
/// given name, as JSON.
pub fn cosmos_account_list_args(cosmos_db_name: &str, resource_group_name: &str) -> (res: Vec<String>)
    ensures
        texts(res@) == seq![
            "cosmosdb"@, "list"@, "--resource-group"@, resource_group_name@, "--query"@,
            "[?name=='"@ + cosmos_db_name@ + "']"@, "--output"@, "json"@,
        ],
{
    let mut query = String::from_str("[?name=='");
    append_str(&mut query, cosmos_db_name);
    append_str(&mut query, "']");
    let mut res = to_strings(vec!["cosmosdb", "list", "--resource-group", resource_group_name, "--query"]);
    let ghost first = res@;
    res.push(query);
    let mut tail = to_strings(vec!["--output", "json"]);
    let ghost tail_view = tail@;
    res.append(&mut tail);
    proof {
        assert(texts(res@) =~= texts(first) + seq![query@] + texts(tail_view));
        assert(str_texts(seq!["--output", "json"]) =~= seq!["--output"@, "json"@]);
        assert(str_texts(seq!["cosmosdb", "list", "--resource-group", resource_group_name, "--query"])
            =~= seq!["cosmosdb"@, "list"@, "--resource-group"@, resource_group_name@, "--query"@]);
    }
    assert(texts(res@) =~= seq![
        "cosmosdb"@, "list"@, "--resource-group"@, resource_group_name@, "--query"@,
        "[?name=='"@ + cosmos_db_name@ + "']"@, "--output"@, "json"@,
    ]);
    res
}

/// The arguments that list the connection strings of a document database account.
pub fn cosmos_keys_args(cosmos_db_name: &str, subscription_id: &str, resource_group: &str) -> (res: Vec<String>)
    ensures
        texts(res@) == seq![
            "cosmosdb"@, "keys"@, "list"@, "--name"@, cosmos_db_name@, "--subscription"@, subscription_id@,
            "--type"@, "connection-strings"@, "--resource-group"@, resource_group@,
        ],
{
    let parts = vec![
        "cosmosdb", "keys", "list", "--name", cosmos_db_name, "--subscription", subscription_id,
        "--type", "connection-strings", "--resource-group", resource_group,
    ];
    let res = to_strings(parts);
    assert(str_texts(parts@) =~= seq![
        "cosmosdb"@, "keys"@, "list"@, "--name"@, cosmos_db_name@, "--subscription"@, subscription_id@,
        "--type"@, "connection-strings"@, "--resource-group"@, resource_group@,
    ]);
    res
}

/// The arguments that create (`action` "create") or show (`action` "show") a SQL
/// database of an account.
pub fn database_args(action: &str, account_name: &str, database_name: &str, resource_group: &str) -> (res: Vec<String>)
    ensures
        texts(res@) == seq![
            "cosmosdb"@, "sql"@, "database"@, action@, "--account-name"@, account_name@, "--name"@,
            database_name@, "--resource-group"@, resource_group@,
        ],
{
    let parts = vec![
        "cosmosdb", "sql", "database", action, "--account-name", account_name, "--name", database_name,
        "--resource-group", resource_group,
    ];
    let res = to_strings(parts);
    assert(str_texts(parts@) =~= seq![
        "cosmosdb"@, "sql"@, "database"@, action@, "--account-name"@, account_name@, "--name"@,
        database_name@, "--resource-group"@, resource_group@,
    ]);
    res
}

/// The arguments that create a collection partitioned by `/partitionKey`.
pub fn create_collection_args(
    account_name: &str,
    database_name: &str,
    collection_name: &str,
    resource_group: &str,
) -> (res: Vec<String>)
    ensures
        texts(res@) == seq![
            "cosmosdb"@, "sql"@, "container"@, "create"@, "--account-name"@, account_name@,
            "--database-name"@, database_name@, "--name"@, collection_name@, "--resource-group"@,
            resource_group@, "--partition-key-path"@, "/partitionKey"@,
        ],
{
    let parts = vec![
        "cosmosdb", "sql", "container", "create", "--account-name", account_name, "--database-name",
        database_name, "--name", collection_name, "--resource-group", resource_group,
        "--partition-key-path", "/partitionKey",
    ];
    let res = to_strings(parts);
    assert(str_texts(parts@) =~= seq![
        "cosmosdb"@, "sql"@, "container"@, "create"@, "--account-name"@, account_name@,
        "--database-name"@, database_name@, "--name"@, collection_name@, "--resource-group"@,
        resource_group@, "--partition-key-path"@, "/partitionKey"@,
    ]);
    res
}

/// The arguments that show a collection.
pub fn show_collection_args(
    account_name: &str,
    database_name: &str,
    collection_name: &str,
    resource_group: &str,
) -> (res: Vec<String>)
    ensures
        texts(res@) == seq![
            "cosmosdb"@, "sql"@, "container"@, "show"@, "--account-name"@, account_name@,
            "--database-name"@, database_name@, "--name"@, collection_name@, "--resource-group"@,
            resource_group@,
        ],
{
    let parts = vec![
        "cosmosdb", "sql", "container", "show", "--account-name", account_name, "--database-name",
        database_name, "--name", collection_name, "--resource-group", resource_group,
    ];
    let res = to_strings(parts);
    assert(str_texts(parts@) =~= seq![
        "cosmosdb"@, "sql"@, "container"@, "show"@, "--account-name"@, account_name@,
        "--database-name"@, database_name@, "--name"@, collection_name@, "--resource-group"@,
        resource_group@,
    ]);
    res
}

/// The arguments that show a key vault.
pub fn keyvault_show_args(kv_name: &str) -> (res: Vec<String>)
    ensures
        texts(res@) == seq!["keyvault"@, "show"@, "--name"@, kv_name@],
{
    let parts = vec!["keyvault", "show", "--name", kv_name];
    let res = to_strings(parts);
    assert(str_texts(parts@) =~= seq!["keyvault"@, "show"@, "--name"@, kv_name@]);
    res
}

/// The arguments that store a secret in a key vault.
pub fn save_secret_args(keyvault_name: &str, secret_name: &str, secret_value: &str) -> (res: Vec<String>)
    ensures
        texts(res@) == seq![
            "keyvault"@, "secret"@, "set"@, "--vault-name"@, keyvault_name@, "--name"@, secret_name@,
            "--value"@, secret_value@,
        ],
{
    let parts = vec![
        "keyvault", "secret", "set", "--vault-name", keyvault_name, "--name", secret_name, "--value", secret_value,
    ];
    let res = to_strings(parts);
    assert(str_texts(parts@) =~= seq![
        "keyvault"@, "secret"@, "set"@, "--vault-name"@, keyvault_name@, "--name"@, secret_name@,
        "--value"@, secret_value@,
    ]);
    res
}

/// The arguments that read a secret from a key vault.
pub fn get_secret_args(keyvault_name: &str, secret_name: &str) -> (res: Vec<String>)
    ensures
        texts(res@) == seq![
            "keyvault"@, "secret"@, "show"@, "--vault-name"@, keyvault_name@, "--name"@, secret_name@,
        ],
{
    let parts = vec!["keyvault", "secret", "show", "--vault-name", keyvault_name, "--name", secret_name];
    let res = to_strings(parts);
    assert(str_texts(parts@) =~= seq![
        "keyvault"@, "secret"@, "show"@, "--vault-name"@, keyvault_name@, "--name"@, secret_name@,
    ]);
    res
}

/// The arguments that send a text message.
pub fn send_text_message_args(sender: &str, to: &str, msg: &str) -> (res: Vec<String>)
    ensures
        texts(res@) == seq![
            "communication"@, "sms"@, "send"@, "--sender"@, sender@, "--recipient"@, to@, "--message"@, msg@,
        ],
{
    let parts = vec!["communication", "sms", "send", "--sender", sender, "--recipient", to, "--message", msg];
    let res = to_strings(parts);
    assert(str_texts(parts@) =~= seq![
        "communication"@, "sms"@, "send"@, "--sender"@, sender@, "--recipient"@, to@, "--message"@, msg@,
    ]);
    res
}

/// The arguments that send an e-mail.
pub fn send_email_args(to: &str, from: &str, subject: &str, msg: &str) -> (res: Vec<String>)
    ensures
        texts(res@) == seq![
            "communication"@, "email"@, "send"@, "--sender"@, from@, "--to"@, to@, "--subject"@, subject@,
            "--text"@, msg@,
        ],
{
    let parts = vec![
        "communication", "email", "send", "--sender", from, "--to", to, "--subject", subject, "--text", msg,
    ];
    let res = to_strings(parts);
    assert(str_texts(parts@) =~= seq![
        "communication"@, "email"@, "send"@, "--sender"@, from@, "--to"@, to@, "--subject"@, subject@,
        "--text"@, msg@,
    ]);
    res
}

/// The number of white-space characters at the start of a text.
pub open spec fn leading_white(s: Seq<char>) -> nat
    decreases s.len(),
{
    if s.len() > 0 && is_white_space(s[0]) { 1 + leading_white(s.drop_first()) } else { 0 }
}

/// The number of white-space characters at the end of a text.
pub open spec fn trailing_white(s: Seq<char>) -> nat
    decreases s.len(),
{
    if s.len() > 0 && is_white_space(s.last()) { 1 + trailing_white(s.drop_last()) } else { 0 }
}

/// A text without its leading and trailing white space (`str::trim`).
pub open spec fn trimmed(s: Seq<char>) -> Seq<char> {
    let start = leading_white(s);
    let rest = s.subrange(start as int, s.len() as int);
    rest.subrange(0, rest.len() - trailing_white(rest))
}

proof fn lemma_leading_white(s: Seq<char>, i: int)
    requires
        0 <= i <= s.len(),
        forall|j: int| 0 <= j < i ==> is_white_space(#[trigger] s[j]),
        i < s.len() ==> !is_white_space(s[i]),
    ensures
        leading_white(s) == i,
    decreases i,
{
    if i > 0 {
        lemma_leading_white(s.drop_first(), i - 1);
    }
}

proof fn lemma_trailing_white(s: Seq<char>, k: int)
    requires
        0 <= k <= s.len(),
        forall|j: int| s.len() - k <= j < s.len() ==> is_white_space(#[trigger] s[j]),
        k < s.len() ==> !is_white_space(s[s.len() - k - 1]),
    ensures
        trailing_white(s) == k,
    decreases k,
{
    if k > 0 {
        lemma_trailing_white(s.drop_last(), k - 1);
    }
}

/// A text without its leading and trailing white space.
pub fn trim_text(s: &str) -> (res: String)
    ensures
        res@ == trimmed(s@),
{
    let n = s.unicode_len();
    let mut start: usize = 0;
    while start < n && crate::text::char_is_white_space(s.get_char(start))
        invariant
            n == s@.len(),
            start <= n,
            forall|j: int| 0 <= j < start ==> is_white_space(#[trigger] s@[j]),
        decreases n - start,
    {
        start = start + 1;
    }
    proof { lemma_leading_white(s@, start as int); }
    let mut end: usize = n;
    while end > start && crate::text::char_is_white_space(s.get_char(end - 1))
        invariant
            n == s@.len(),
            start <= end <= n,
            forall|j: int| end <= j < n ==> is_white_space(#[trigger] s@[j]),
        decreases end,
    {
        end = end - 1;
    }
    let ghost rest = s@.subrange(start as int, n as int);
    proof {
        assert forall|j: int| rest.len() - (n - end) <= j < rest.len() implies is_white_space(#[trigger] rest[j]) by {
            assert(rest[j] == s@[start + j]);
        }
        if n - end < rest.len() {
            assert(rest[rest.len() - (n - end) - 1] == s@[end - 1]);
        }
        lemma_trailing_white(rest, (n - end) as int);
    }
    let piece = s.substring_char(start, end);
    assert(piece@ =~= trimmed(s@));
    piece.to_string()
}

/// What the existence check of a resource group answers, after trimming: "true" or
/// "false"; anything else is reported with the text.
pub open spec fn exists_answer(output: Seq<char>) -> Result<bool, Seq<char>> {
    let t = trimmed(output);
    if t == "true"@ {
        Ok(true)
    } else if t == "false"@ {
        Ok(false)
    } else {
        Err("Unexpected output from Azure CLI: "@ + t)
    }
}

/// Reads the answer of the existence check of a resource group.
pub fn parse_exists_output(output: &str) -> (res: Result<bool, String>)
    ensures
        match exists_answer(output@) {
            Ok(b) => res == Ok::<bool, String>(b),
            Err(msg) => res matches Err(m) && m@ == msg,
        },
{
    let t = trim_text(output);
    let yes = String::from_str("true");
    let no = String::from_str("false");
    if t == yes {
        Ok(true)
    } else if t == no {
        Ok(false)
    } else {
        let mut msg = String::from_str("Unexpected output from Azure CLI: ");
        append_str(&mut msg, t.as_str());
        Err(msg)
    }
}

/// What creating a resource group comes to once its location has been checked and the
/// group looked up: an invalid location and an existing group are refused, with the
/// reason; otherwise the group is to be created.
pub fn resource_group_creation(name: &str, location: &str, location_valid: bool, exists: bool) -> (res: Result<(), String>)
    ensures
        res is Ok <==> location_valid && !exists,
        !location_valid ==> (res matches Err(m) && m@ == "Invalid location: "@ + location@),
        location_valid && exists ==> (res matches Err(m) && m@ == "Resource group already exists: "@ + name@),
{
    if !location_valid {
        let mut m = String::from_str("Invalid location: ");
        append_str(&mut m, location);
        return Err(m);
    }
    if exists {
        let mut m = String::from_str("Resource group already exists: ");
        append_str(&mut m, name);
        return Err(m);
    }
    Ok(())
}

/// What creating a document database account comes to once its location has been
/// checked and the account looked up: an invalid location is refused, with the reason;
/// otherwise `Ok(true)` where the account is still to be created and `Ok(false)` where it
/// exists already.
pub fn cosmos_account_creation(location: &str, location_valid: bool, exists: bool) -> (res: Result<bool, String>)
    ensures
        !location_valid ==> (res matches Err(m) && m@ == "Invalid location: "@ + location@),
        location_valid ==> res == Ok::<bool, String>(!exists),
{
    if !location_valid {
        let mut m = String::from_str("Invalid location: ");
        append_str(&mut m, location);
        return Err(m);
    }
    Ok(!exists)
}

/// Whether `part` occurs in `text` at position `i`.
pub open spec fn occurs_at(text: Seq<char>, part: Seq<char>, i: int) -> bool {
    0 <= i && i + part.len() <= text.len() && text.subrange(i, i + part.len()) == part
}

/// Whether `part` occurs somewhere in `text` (`str::contains`).
pub open spec fn mentions(text: Seq<char>, part: Seq<char>) -> bool {
    exists|i: int| #[trigger] occurs_at(text, part, i)
}

/// Whether `part` occurs somewhere in `text`; a key vault exists when its description
/// mentions its name.
pub fn output_mentions(text: &str, part: &str) -> (res: bool)
    ensures
        res == mentions(text@, part@),
{
    let n = text.unicode_len();
    let m = part.unicode_len();
    if m > n {
        assert forall|i: int| !occurs_at(text@, part@, i) by {}
        return false;
    }
    let mut i: usize = 0;
    while i <= n - m
        invariant
            n == text@.len(),
            m == part@.len(),
            m <= n,
            i <= n - m + 1,
            forall|k: int| 0 <= k < i ==> !#[trigger] occurs_at(text@, part@, k),
        decreases n - m + 1 - i,
    {
        let mut j: usize = 0;
        let mut same = true;
        while j < m
            invariant_except_break
                same,
            invariant
                n == text@.len(),
                m == part@.len(),
                i + m <= n,
                j <= m,
                forall|t: int| 0 <= t < j ==> text@[i + t] == part@[t],
            ensures
                same ==> forall|t: int| 0 <= t < m ==> text@[i + t] == part@[t],
                !same ==> j < m && text@[i + j as int] != part@[j as int],
            decreases m - j,
        {
            if text.get_char(i + j) != part.get_char(j) {
                same = false;
                break;
            }
            j = j + 1;
        }
        if same {
            assert(text@.subrange(i as int, i + m) =~= part@);
            assert(occurs_at(text@, part@, i as int));
            return true;
        }
        assert(!occurs_at(text@, part@, i as int)) by {
            if text@.subrange(i as int, i + m) == part@ {
                assert(text@[i + j as int] == text@.subrange(i as int, i + m)[j as int]);
            }
        }
        i = i + 1;
    }
    assert forall|k: int| !occurs_at(text@, part@, k) by {
        if 0 <= k < i {
        }
    }
    false
}

/// How a secret is shown in the log of the command that stores it: its first and last
/// two bytes around "..." when it is longer than four bytes, "<secret>" otherwise.
pub open spec fn secret_shown(s: Seq<char>) -> Seq<char> {
    if utf8_len(s) > 4 { shortened(s, 2) } else { "<secret>"@ }
}

/// How a secret is shown in the log of the command that stores it. Slicing a secret
/// inside a character panics, which `requires` leaves out.
pub fn secret_display(secret_value: &str) -> (res: String)
    requires
        utf8_len(secret_value@) <= usize::MAX,
        utf8_len(secret_value@) > 4 ==> byte_boundary(secret_value@, 2)
            && byte_boundary(secret_value@, utf8_len(secret_value@) - 2),
    ensures
        res@ == secret_shown(secret_value@),
{
    if text_utf8_len(secret_value) > 4 {
        shorten(secret_value, 2)
    } else {
        String::from_str("<secret>")
    }
}

/// How the text of an e-mail is shown in the log of the command that sends it: its
/// first and last three bytes around "..." when it is longer than six bytes, whole
/// otherwise.
pub open spec fn message_shown(s: Seq<char>) -> Seq<char> {
    if utf8_len(s) > 6 { shortened(s, 3) } else { s }
}

/// How the text of an e-mail is shown in the log of the command that sends it. Slicing
/// a text inside a character panics, which `requires` leaves out.
pub fn message_display(msg: &str) -> (res: String)
    requires
        utf8_len(msg@) <= usize::MAX,
        utf8_len(msg@) > 6 ==> byte_boundary(msg@, 3) && byte_boundary(msg@, utf8_len(msg@) - 3),
    ensures
        res@ == message_shown(msg@),
{
    if text_utf8_len(msg) > 6 {
        shorten(msg, 3)
    } else {
        msg.to_string()
    }
}

/// The names a list of locations gives: for each location, its name and then its
/// display name, where they are strings.
pub open spec fn location_names(items: Seq<JsonValue>) -> Seq<Seq<char>>
    decreases items.len(),
{
    if items.len() == 0 {
        Seq::empty()
    } else {
        let loc = items.last();
        let name: Seq<Seq<char>> = match as_str(get(loc, "Name"@)) { Some(n) => seq![n], None => Seq::empty() };
        let display: Seq<Seq<char>> = match as_str(get(loc, "DisplayName"@)) { Some(n) => seq![n], None => Seq::empty() };
        location_names(items.drop_last()) + name + display
    }
}

/// The names and display names of the locations the lookup of a location found.
pub fn names_of_locations(items: &Vec<JsonValue>) -> (res: Vec<String>)
    ensures
        texts(res@) == location_names(items@),
{
    let mut res: Vec<String> = Vec::new();
    let mut i: usize = 0;
    while i < items.len()
        invariant
            i <= items@.len(),
            texts(res@) == location_names(items@.take(i as int)),
        decreases items.len() - i,
    {
        assert(items@.take(i as int + 1).drop_last() =~= items@.take(i as int));
        let ghost before = texts(res@);
        match string_member(&items[i], "Name") {
            Some(n) => res.push(n),
            None => {},
        }
        match string_member(&items[i], "DisplayName") {
            Some(n) => res.push(n),
            None => {},
        }
        assert(texts(res@) =~= location_names(items@.take(i as int + 1)));
        i = i + 1;
    }
    assert(items@.take(i as int) =~= items@);
    res
}

/// Whether a list of names holds a location, by name or display name.
pub fn names_hold(names: &Vec<String>, location: &str) -> (res: bool)
    ensures
        res == texts(names@).contains(location@),
{
    let wanted = String::from_str(location);
    let mut i: usize = 0;
    while i < names.len()
        invariant
            i <= names@.len(),
            wanted@ == location@,
            forall|j: int| 0 <= j < i ==> names@[j]@ != location@,
        decreases names.len() - i,
    {
        if names[i] == wanted {
            assert(texts(names@)[i as int] == location@);
            return true;
        }
        i = i + 1;
    }
    assert forall|j: int| 0 <= j < texts(names@).len() implies texts(names@)[j] != location@ by {}
    false
}

/// The subscription of the signed-in account: the `id` of the account's description.
pub fn subscription_id_from(account: &JsonValue) -> (res: Option<String>)
    ensures
        match res {
            Some(t) => as_str(get(*account, "id"@)) == Some(t@),
            None => as_str(get(*account, "id"@)) is None,
        },
{
    string_member(account, "id")
}

/// A resource the service needs in the cloud, made where it is missing.
#[derive(Debug)]
pub enum SetupStep {
    Account,
    Database(String),
    Collection { database: String, collection: String },
}

/// What a setup step names.
pub enum SetupStepModel {
    Account,
    Database(Seq<char>),
    Collection(Seq<char>, Seq<char>),
}

/// What each setup step of a list names.
pub open spec fn step_models(steps: Seq<SetupStep>) -> Seq<SetupStepModel> {
    steps.map_values(|st: SetupStep| match st {
        SetupStep::Account => SetupStepModel::Account,
        SetupStep::Database(d) => SetupStepModel::Database(d@),
        SetupStep::Collection { database, collection } => SetupStepModel::Collection(database@, collection@),
    })
}

/// The collection steps for the collections from the `k`-th on: each collection in the
/// database and, with "-test" appended, in the test database.
pub open spec fn collection_steps(db: Seq<char>, k: int) -> Seq<SetupStepModel>
    decreases 3 - k,
{
    if k < 0 || k >= 3 {
        Seq::empty()
    } else {
        seq![
            SetupStepModel::Collection(db, collection_names()[k]),
            SetupStepModel::Collection(db + "-test"@, collection_names()[k] + "-test"@),
        ] + collection_steps(db, k + 1)
    }
}

/// What setting up the cloud takes: the account, the database and the test database,
/// then each collection in both.
pub open spec fn setup_plan(db: Seq<char>) -> Seq<SetupStepModel> {
    seq![
        SetupStepModel::Account,
        SetupStepModel::Database(db),
        SetupStepModel::Database(db + "-test"@),
    ] + collection_steps(db, 0)
}

/// The steps of setting up the cloud for the given database name.
pub fn setup_steps(database_name: &str) -> (res: Vec<SetupStep>)
    ensures
        step_models(res@) == setup_plan(database_name@),
{
    let mut test_db = String::from_str(database_name);
    append_str(&mut test_db, "-test");
    let mut steps: Vec<SetupStep> = Vec::new();
    steps.push(SetupStep::Account);
    steps.push(SetupStep::Database(String::from_str(database_name)));
    steps.push(SetupStep::Database(test_db.clone()));
    let values = collection_name_values();
    let ghost head = step_models(steps@);
    assert(head =~= seq![
        SetupStepModel::Account,
        SetupStepModel::Database(database_name@),
        SetupStepModel::Database(database_name@ + "-test"@),
    ]);
    let mut k: usize = 0;
    while k < values.len()
        invariant
            values@.len() == 3,
            forall|j: int| 0 <= j < 3 ==> (#[trigger] values@[j]).value@ == collection_names()[j],
            k <= 3,
            test_db@ == database_name@ + "-test"@,
            step_models(steps@) + collection_steps(database_name@, k as int) == setup_plan(database_name@),
        decreases 3 - k,
    {
        let ghost before = step_models(steps@);
        let mut test_name = String::from_str(values[k].value);
        append_str(&mut test_name, "-test");
        steps.push(SetupStep::Collection {
            database: String::from_str(database_name),
            collection: String::from_str(values[k].value),
        });
        steps.push(SetupStep::Collection { database: test_db.clone(), collection: test_name });
        assert(step_models(steps@) =~= before + seq![
            SetupStepModel::Collection(database_name@, collection_names()[k as int]),
            SetupStepModel::Collection(database_name@ + "-test"@, collection_names()[k as int] + "-test"@),
        ]);
        k = k + 1;
    }
    assert(collection_steps(database_name@, 3) =~= Seq::empty());
    assert(step_models(steps@) =~= setup_plan(database_name@));
    steps
}

/// What parsing text as a `u16` gives: an optional '+', then decimal digits, with a
/// value that fits in 16 bits.
pub open spec fn parse_u16(s: Seq<char>) -> Option<u16> {
    if s.len() > 0 && s[0] == '-' {
        None
    } else {
        match parse_i32(s) {
            Some(v) => if 0 <= v <= 0xffff { Some(v as u16) } else { None },
            None => None,
        }
    }
}

/// The text up to the first ':' (all of it where there is none).
pub open spec fn before_colon(s: Seq<char>) -> Seq<char>
    decreases s.len(),
{
    if s.len() == 0 || s[0] == ':' { Seq::empty() } else { seq![s[0]] + before_colon(s.drop_first()) }
}

/// The text after the first ':', if there is one.
pub open spec fn after_colon(s: Seq<char>) -> Option<Seq<char>>
    decreases s.len(),
{
    if s.len() == 0 { None } else if s[0] == ':' { Some(s.drop_first()) } else { after_colon(s.drop_first()) }
}

/// The host and the port a host name gives: the text before the first ':', and the
/// number between the first and the second ':' (8080 where there is none or it is not
/// a 16-bit number).
pub open spec fn host_and_port_of(host_name: Seq<char>) -> (Seq<char>, u16) {
    let port: u16 = match after_colon(host_name) {
        Some(rest) => match parse_u16(before_colon(rest)) {
            Some(p) => p,
            None => 8080,
        },
        None => 8080,
    };
    (before_colon(host_name), port)
}

proof fn lemma_colon_split(s: Seq<char>, i: int)
    requires
        0 <= i <= s.len(),
        forall|j: int| 0 <= j < i ==> s[j] != ':',
        i < s.len() ==> s[i] == ':',
    ensures
        before_colon(s) == s.take(i),
        after_colon(s) == if i < s.len() { Some(s.skip(i + 1)) } else { None::<Seq<char>> },
    decreases i,
{
    if i > 0 {
        lemma_colon_split(s.drop_first(), i - 1);
        assert(s.drop_first().take(i - 1) =~= s.take(i).drop_first());
        assert(s.take(i) =~= seq![s[0]] + s.take(i).drop_first());
        if i < s.len() {
            assert(s.drop_first().skip(i) =~= s.skip(i + 1));
        }
    } else {
        assert(s.take(0) =~= Seq::<char>::empty());
        if s.len() > 0 {
            assert(s.skip(1) =~= s.drop_first());
        }
    }
}

/// The position of the first ':' of a text, or its length where there is none.
fn colon_at(s: &str, n: usize) -> (i: usize)
    requires
        n == s@.len(),
    ensures
        i <= n,
        forall|j: int| 0 <= j < i ==> s@[j] != ':',
        i < n ==> s@[i as int] == ':',
{
    let mut i: usize = 0;
    while i < n && s.get_char(i) != ':'
        invariant
            n == s@.len(),
            i <= n,
            forall|j: int| 0 <= j < i ==> s@[j] != ':',
        decreases n - i,
    {
        i = i + 1;
    }
    i
}

/// The host and the port of a host name such as "example.com:8443"; the port is 8080
/// where none is given or it is not a 16-bit number.
pub fn host_and_port(host_name: &str) -> (res: (String, u16))
    ensures
        (res.0@, res.1) == host_and_port_of(host_name@),
{
    let n = host_name.unicode_len();
    let i = colon_at(host_name, n);
    proof { lemma_colon_split(host_name@, i as int); }
    let host = host_name.substring_char(0, i).to_string();
    if i == n {
        return (host, 8080);
    }
    let rest = host_name.substring_char(i + 1, n);
    let m = rest.unicode_len();
    let k = colon_at(rest, m);
    proof { lemma_colon_split(rest@, k as int); }
    let port_text = rest.substring_char(0, k);
    let port: u16 = if m > 0 && k > 0 && rest.get_char(0) == '-' {
        8080
    } else {
        match parse_i32_text(port_text) {
            Some(v) => if 0 <= v && v <= 0xffff { v as u16 } else { 8080 },
            None => 8080,
        }
    };
    proof {
        assert(port_text@ == before_colon(rest@));
        if k == 0 {
            assert(port_text@.len() == 0);
        } else {
            assert(port_text@[0] == rest@[0]);
        }
    }
    (host, port)
}

} // verus!
