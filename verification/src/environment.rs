use vstd::prelude::*;
use crate::database::DatabaseKind;
use crate::tiles::append_str;

verus! {

/// What a test asks of the service: whether to use the cloud database.
#[derive(Clone, Copy, Debug, PartialEq, Eq, Structural)]
pub struct TestContext {
    pub use_cosmos_db: bool,
}

/// The JSON text of a test context, as the test header carries it.
pub open spec fn test_context_json(use_cosmos: bool) -> Seq<char> {
    "{\"UseCosmosDb\":"@ + (if use_cosmos { "true"@ } else { "false"@ }) + "}"@
}

impl TestContext {
    /// A test context.
    pub fn new(use_cosmos_db: bool) -> (res: TestContext)
        ensures
            res.use_cosmos_db == use_cosmos_db,
    {
        TestContext { use_cosmos_db }
    }

    /// The JSON text of a test context with the given choice.
    pub fn as_json(use_cosmos: bool) -> (res: String)
        ensures
            res@ == test_context_json(use_cosmos),
    {
        let mut json = String::from_str("{\"UseCosmosDb\":");
        if use_cosmos {
            append_str(&mut json, "true");
        } else {
            append_str(&mut json, "false");
        }
        append_str(&mut json, "}");
        json
    }
}

/// The settings the service reads from its environment.
#[derive(Debug)]
pub struct ConfigEnvironmentVariables {
    pub cosmos_database_name: String,
}

/// The database a request with the given test context uses: the cloud database's test
/// collections or the in-memory database for a test, the cloud database otherwise.
pub open spec fn database_for(test_context: Option<TestContext>) -> DatabaseKind {
    match test_context {
        Some(c) => if c.use_cosmos_db {
            DatabaseKind::Cosmos { use_test_collection: true }
        } else {
            DatabaseKind::Test
        },
        None => DatabaseKind::Cosmos { use_test_collection: false },
    }
}

/// The context of a request: the environment's settings, the test context the request
/// came with, and the database it uses.
#[derive(Debug)]
pub struct RequestContext {
    pub env: ConfigEnvironmentVariables,
    pub test_context: Option<TestContext>,
    pub database: DatabaseKind,
}

impl RequestContext {
    /// The context of a request with the given test context.
    pub fn new(test_context: Option<TestContext>, env: &ConfigEnvironmentVariables) -> (res: RequestContext)
        ensures
            res.env.cosmos_database_name == env.cosmos_database_name,
            res.test_context == test_context,
            res.database == database_for(test_context),
    {
        let database = match test_context {
            Some(context) => {
                if context.use_cosmos_db {
                    DatabaseKind::Cosmos { use_test_collection: true }
                } else {
                    DatabaseKind::Test
                }
            },
            None => DatabaseKind::Cosmos { use_test_collection: false },
        };
        RequestContext {
            env: ConfigEnvironmentVariables { cosmos_database_name: env.cosmos_database_name.clone() },
            test_context,
            database,
        }
    }

    /// The context of a test request.
    pub fn test_default(use_cosmos: bool, env: &ConfigEnvironmentVariables) -> (res: RequestContext)
        ensures
            res.env.cosmos_database_name == env.cosmos_database_name,
            res.test_context == Some(TestContext { use_cosmos_db: use_cosmos }),
            res.database == database_for(Some(TestContext { use_cosmos_db: use_cosmos })),
    {
        RequestContext::new(Some(TestContext::new(use_cosmos)), env)
    }

    /// Whether the request is a test.
    pub fn is_test(&self) -> (res: bool)
        ensures
            res == self.test_context is Some,
    {
        self.test_context.is_some()
    }

    /// Whether the request uses the in-memory database: a test that does not ask for the
    /// cloud database.
    pub fn use_mock_db(&self) -> (res: bool)
        ensures
            res == (self.test_context matches Some(c) && !c.use_cosmos_db),
    {
        match self.test_context {
            Some(ctx) => !ctx.use_cosmos_db,
            None => false,
        }
    }

    /// Whether the request uses the cloud database: any request but a test that does not
    /// ask for it.
    pub fn use_cosmos_db(&self) -> (res: bool)
        ensures
            res == match self.test_context {
                Some(c) => c.use_cosmos_db,
                None => true,
            },
    {
        match self.test_context {
            Some(b) => b.use_cosmos_db,
            None => true,
        }
    }

    /// The name of the database: with "-test" appended for a test.
    pub fn database_name(&self) -> (res: String)
        ensures
            res@ == if self.test_context is Some {
                self.env.cosmos_database_name@ + "-test"@
            } else {
                self.env.cosmos_database_name@
            },
    {
        let mut name = self.env.cosmos_database_name.clone();
        if self.test_context.is_some() {
            append_str(&mut name, "-test");
        }
        name
    }
}

/// A request uses exactly one of the two kinds of database.
pub proof fn lemma_one_database(ctx: RequestContext)
    ensures
        (ctx.test_context matches Some(c) && !c.use_cosmos_db) != match ctx.test_context {
            Some(c) => c.use_cosmos_db,
            None => true,
        },
{
}

} // verus!
