use vstd::prelude::*;
use crate::tiles::append_str;

verus! {

/// The kinds of documents the service keeps, one collection each.
#[derive(Clone, Copy, Debug, PartialEq, Eq, Hash, Structural)]
pub enum CosmosDocType {
    User,
    Profile,
    Game,
}

/// A kind of document and the name of its collection.
#[derive(Clone, Copy, Debug)]
pub struct CosmosCollectionNameValues {
    pub name: CosmosDocType,
    pub value: &'static str,
}

/// Where the profiles of the users of a request are kept.
#[derive(Clone, Copy, Debug, PartialEq, Eq, Structural)]
pub enum ProfileStorage {
    CosmosDb,
    CosmosDbTest,
    MockDb,
}

/// The database a request talks to: the cloud database (with the test collections or
/// not), or the in-memory test database.
#[derive(Clone, Copy, Debug, PartialEq, Eq, Structural)]
pub enum DatabaseKind {
    Cosmos { use_test_collection: bool },
    Test,
}

/// The names of the collections, in the order users, profiles, games.
pub open spec fn collection_names() -> Seq<Seq<char>> {
    seq!["Users-Collection"@, "Profile-Collection"@, "Game-Collection"@]
}

/// Each kind of document with the name of its collection.
pub fn collection_name_values() -> (res: Vec<CosmosCollectionNameValues>)
    ensures
        res@.len() == 3,
        res@[0].name == CosmosDocType::User,
        res@[1].name == CosmosDocType::Profile,
        res@[2].name == CosmosDocType::Game,
        forall|i: int| 0 <= i < 3 ==> (#[trigger] res@[i]).value@ == collection_names()[i],
{
    let res = vec![
        CosmosCollectionNameValues { name: CosmosDocType::User, value: "Users-Collection" },
        CosmosCollectionNameValues { name: CosmosDocType::Profile, value: "Profile-Collection" },
        CosmosCollectionNameValues { name: CosmosDocType::Game, value: "Game-Collection" },
    ];
    assert(forall|i: int| 0 <= i < 3 ==> (#[trigger] res@[i]).value@ == collection_names()[i]);
    res
}

/// The names of the collections to use: with "-Test" appended for tests.
pub fn get_collection_names(is_test: bool) -> (res: Vec<String>)
    ensures
        res@.len() == 3,
        forall|i: int| 0 <= i < 3 ==> (#[trigger] res@[i])@ == if is_test {
            collection_names()[i] + "-Test"@
        } else {
            collection_names()[i]
        },
{
    let values = collection_name_values();
    let mut res: Vec<String> = Vec::new();
    let mut i: usize = 0;
    while i < values.len()
        invariant
            values@.len() == 3,
            forall|k: int| 0 <= k < 3 ==> (#[trigger] values@[k]).value@ == collection_names()[k],
            i <= 3,
            res@.len() == i,
            forall|k: int| 0 <= k < i ==> (#[trigger] res@[k])@ == if is_test {
                collection_names()[k] + "-Test"@
            } else {
                collection_names()[k]
            },
        decreases 3 - i,
    {
        let mut name = String::from_str(values[i].value);
        if is_test {
            append_str(&mut name, "-Test");
        }
        res.push(name);
        i = i + 1;
    }
    res
}

impl DatabaseKind {
    /// The database that keeps profiles in the given place: the cloud database, its test
    /// collections, or the in-memory test database.
    pub fn from_location(location: ProfileStorage) -> (res: DatabaseKind)
        ensures
            res == DatabaseKind::from_location_spec(location),
    {
        match location {
            ProfileStorage::CosmosDb => DatabaseKind::Cosmos { use_test_collection: false },
            ProfileStorage::CosmosDbTest => DatabaseKind::Cosmos { use_test_collection: true },
            ProfileStorage::MockDb => DatabaseKind::Test,
        }
    }

    /// The database for a caller: where its claims keep profiles, and the production
    /// cloud database for a caller without claims.
    pub fn for_storage(storage: Option<ProfileStorage>) -> (res: DatabaseKind)
        ensures
            res == match storage {
                Some(s) => DatabaseKind::from_location_spec(s),
                None => DatabaseKind::Cosmos { use_test_collection: false },
            },
    {
        match storage {
            Some(s) => Self::from_location(s),
            None => DatabaseKind::Cosmos { use_test_collection: false },
        }
    }

    /// The database that keeps profiles in the given place.
    pub open spec fn from_location_spec(location: ProfileStorage) -> DatabaseKind {
        match location {
            ProfileStorage::CosmosDb => DatabaseKind::Cosmos { use_test_collection: false },
            ProfileStorage::CosmosDbTest => DatabaseKind::Cosmos { use_test_collection: true },
            ProfileStorage::MockDb => DatabaseKind::Test,
        }
    }
}

} // verus!
