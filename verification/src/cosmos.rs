use vstd::prelude::*;
use crate::database::{collection_name_values, collection_names, CosmosDocType};
use crate::tiles::append_str;

verus! {

/// The names a document database client uses: the database (with "-test" appended
/// for the test collections) and, for each kind of document in the order users,
/// profiles, games, its collection (with "-test" appended likewise).
pub struct CosmosNames {
    pub database_name: String,
    pub collections: Vec<(CosmosDocType, String)>,
}

/// A name with "-test" appended when the test collections are used.
pub open spec fn test_suffixed(name: Seq<char>, use_test_collection: bool) -> Seq<char> {
    if use_test_collection { name + "-test"@ } else { name }
}

/// The names of the database and of its collections.
pub fn cosmos_names(database_name: &str, use_test_collection: bool) -> (res: CosmosNames)
    ensures
        res.database_name@ == test_suffixed(database_name@, use_test_collection),
        res.collections@.len() == 3,
        res.collections@[0].0 == CosmosDocType::User,
        res.collections@[1].0 == CosmosDocType::Profile,
        res.collections@[2].0 == CosmosDocType::Game,
        forall|i: int| 0 <= i < 3 ==> (#[trigger] res.collections@[i]).1@
            == test_suffixed(collection_names()[i], use_test_collection),
{
    let mut db = String::from_str(database_name);
    if use_test_collection {
        append_str(&mut db, "-test");
    }
    let values = collection_name_values();
    let mut collections: Vec<(CosmosDocType, String)> = Vec::new();
    let mut i: usize = 0;
    while i < values.len()
        invariant
            values@.len() == 3,
            values@[0].name == CosmosDocType::User,
            values@[1].name == CosmosDocType::Profile,
            values@[2].name == CosmosDocType::Game,
            forall|k: int| 0 <= k < 3 ==> (#[trigger] values@[k]).value@ == collection_names()[k],
            i <= 3,
            collections@.len() == i,
            forall|k: int| 0 <= k < i ==> (#[trigger] collections@[k]).0 == values@[k].name
                && collections@[k].1@ == test_suffixed(collection_names()[k], use_test_collection),
        decreases 3 - i,
    {
        let mut name = String::from_str(values[i].value);
        if use_test_collection {
            append_str(&mut name, "-test");
        }
        collections.push((values[i].name, name));
        i = i + 1;
    }
    CosmosNames { database_name: db, collections }
}

/// The query for the documents whose field `field` is `value`.
pub open spec fn field_query(field: Seq<char>, value: Seq<char>) -> Seq<char> {
    "SELECT * FROM c WHERE c."@ + field + " = '"@ + value + "'"@
}

fn field_query_text(field: &str, value: &str) -> (res: String)
    ensures
        res@ == field_query(field@, value@),
{
    let mut q = String::from_str("SELECT * FROM c WHERE c.");
    append_str(&mut q, field);
    append_str(&mut q, " = '");
    append_str(&mut q, value);
    append_str(&mut q, "'");
    q
}

/// The query for the document with the given id (a user or a game).
pub fn id_query(id: &str) -> (res: String)
    ensures
        res@ == field_query("id"@, id@),
{
    field_query_text("id", id)
}

/// The query for the user with the given e-mail address.
pub fn email_query(email: &str) -> (res: String)
    ensures
        res@ == field_query("user_profile.Pii.Email"@, email@),
{
    field_query_text("user_profile.Pii.Email", email)
}

/// The query for the local users connected to the given user.
pub fn connected_users_query(connected_user_id: &str) -> (res: String)
    ensures
        res@ == field_query("connected_user_id"@, connected_user_id@),
{
    field_query_text("connected_user_id", connected_user_id)
}

/// The query for every user.
pub fn list_users_query() -> (res: String)
    ensures
        res@ == "SELECT * FROM c WHERE c.partitionKey=1"@,
{
    String::from_str("SELECT * FROM c WHERE c.partitionKey=1")
}

} // verus!
