use vstd::prelude::*;
use crate::database::{DatabaseKind, ProfileStorage};
use crate::errors::{ServiceError, ServiceErrorKind};
use crate::regular_game::RegularGame;
use crate::security::{KeySet, SecurityContext};
use crate::service_config::{same_config, ServiceConfig};
use crate::tiles::append_str;

verus! {

/// What a caller may do.
#[derive(Clone, Copy, Debug, PartialEq, Eq, Structural)]
pub enum Role {
    Admin,
    User,
    TestUser,
}

/// What a signed token says of its bearer: who it is, until when the token holds
/// (seconds since 1970), its roles, and where its profile is kept.
#[derive(Debug)]
pub struct Claims {
    pub id: String,
    pub email: String,
    pub exp: u64,
    pub roles: Vec<Role>,
    pub profile_storage: ProfileStorage,
}

/// The whole seconds since 1970 by the system clock (`std::time::SystemTime::now`, then
/// `duration_since(UNIX_EPOCH)`), or nothing for a clock set before 1970. The time is
/// not stated.
#[verifier::external_body]
fn seconds_since_epoch() -> (res: Option<u64>) {
    match std::time::SystemTime::now().duration_since(std::time::UNIX_EPOCH) {
        Ok(d) => Some(d.as_secs()),
        Err(_) => None,
    }
}

/// Copies of a list of roles.
fn clone_roles(roles: &Vec<Role>) -> (res: Vec<Role>)
    ensures
        res@ == roles@,
{
    let res = roles.clone();
    assert(res@ =~= roles@);
    res
}

impl Claims {
    /// Claims for a bearer that hold for `duration_secs` seconds from now (from second 0
    /// where the clock reads before 1970), the expiry capped at the largest `u64`.
    pub fn new(
        id: &str,
        email: &str,
        duration_secs: u64,
        roles: &Vec<Role>,
        profile_storage: ProfileStorage,
    ) -> (res: Claims)
        ensures
            res.id@ == id@,
            res.email@ == email@,
            res.exp >= duration_secs,
            res.roles@ == roles@,
            res.profile_storage == profile_storage,
    {
        let now = match seconds_since_epoch() {
            Some(t) => t,
            None => 0,
        };
        Claims {
            id: String::from_str(id),
            email: String::from_str(email),
            exp: now.saturating_add(duration_secs),
            roles: clone_roles(roles),
            profile_storage,
        }
    }
}

impl Clone for Claims {
    /// A copy of the claims.
    fn clone(&self) -> (res: Claims)
        ensures
            res.id == self.id,
            res.email == self.email,
            res.exp == self.exp,
            res.roles@ == self.roles@,
            res.profile_storage == self.profile_storage,
    {
        Claims {
            id: self.id.clone(),
            email: self.email.clone(),
            exp: self.exp,
            roles: clone_roles(&self.roles),
            profile_storage: self.profile_storage,
        }
    }
}

impl Clone for KeySet {
    /// A copy of the key set.
    fn clone(&self) -> (res: KeySet)
        ensures
            res == *self,
    {
        KeySet {
            primary_key_name: self.primary_key_name.clone(),
            secondary_key_name: self.secondary_key_name.clone(),
            primary_key: self.primary_key.clone(),
            secondary_key: self.secondary_key.clone(),
        }
    }
}

impl Clone for SecurityContext {
    /// A copy of the security context.
    fn clone(&self) -> (res: SecurityContext)
        ensures
            res == *self,
    {
        SecurityContext {
            login_keys: self.login_keys.clone(),
            validation_keys: self.validation_keys.clone(),
            test_keys: self.test_keys.clone(),
        }
    }
}

/// What a test sends with a single call: a phone code to accept, or a game to use.
#[derive(Debug)]
pub struct TestCallContext {
    pub phone_code: Option<i32>,
    pub game: Option<RegularGame>,
}

/// The games of two optional games hold the same.
pub open spec fn same_game(a: Option<RegularGame>, b: Option<RegularGame>) -> bool {
    match (a, b) {
        (Some(x), Some(y)) => x@ == y@,
        (None, None) => true,
        _ => false,
    }
}

impl TestCallContext {
    /// A test context with the given phone code and game.
    pub fn new(phone_code: Option<i32>, game: Option<RegularGame>) -> (res: TestCallContext)
        ensures
            res.phone_code == phone_code,
            res.game == game,
    {
        TestCallContext { phone_code, game }
    }

    /// Sets the phone code.
    pub fn set_phone_code(&mut self, code: Option<i32>)
        ensures
            final(self).phone_code == code,
            final(self).game == old(self).game,
    {
        self.phone_code = code;
    }

    /// Sets the game.
    pub fn set_game(&mut self, game: Option<RegularGame>)
        ensures
            final(self).game == game,
            final(self).phone_code == old(self).phone_code,
    {
        self.game = game;
    }
}

impl Clone for TestCallContext {
    /// A copy of the test context, with a copy of its game.
    fn clone(&self) -> (res: TestCallContext)
        ensures
            res.phone_code == self.phone_code,
            same_game(res.game, self.game),
    {
        let game = match &self.game {
            Some(g) => Some(g.clone()),
            None => None,
        };
        TestCallContext { phone_code: self.phone_code, game }
    }
}

/// Two optional claims say the same.
pub open spec fn same_claims(a: Option<Claims>, b: Option<Claims>) -> bool {
    match (a, b) {
        (Some(x), Some(y)) => x.id == y.id && x.email == y.email && x.exp == y.exp
            && x.roles@ == y.roles@ && x.profile_storage == y.profile_storage,
        (None, None) => true,
        _ => false,
    }
}

/// Two optional test contexts say the same.
pub open spec fn same_test_context(a: Option<TestCallContext>, b: Option<TestCallContext>) -> bool {
    match (a, b) {
        (Some(x), Some(y)) => x.phone_code == y.phone_code && same_game(x.game, y.game),
        (None, None) => true,
        _ => false,
    }
}

/// Whether the claims grant a role.
pub open spec fn claims_have_role(claims: Option<Claims>, role: Role) -> bool {
    match claims {
        Some(c) => c.roles@.contains(role),
        None => false,
    }
}

/// Whether a list of roles holds a role.
fn has_role(roles: &Vec<Role>, role: Role) -> (res: bool)
    ensures
        res == roles@.contains(role),
{
    let mut i: usize = 0;
    while i < roles.len()
        invariant
            i <= roles@.len(),
            forall|j: int| 0 <= j < i ==> roles@[j] != role,
        decreases roles.len() - i,
    {
        if roles[i] == role {
            assert(roles@[i as int] == role);
            return true;
        }
        i = i + 1;
    }
    false
}

/// Everything a request needs: the service's configuration, the test context the call
/// came with, the caller's claims once authenticated, and the signing keys.
#[derive(Debug)]
pub struct RequestContext {
    pub config: ServiceConfig,
    pub test_context: Option<TestCallContext>,
    pub claims: Option<Claims>,
    pub security_context: SecurityContext,
}

fn clone_claims(claims: Option<&Claims>) -> (res: Option<Claims>)
    ensures
        same_claims(res, match claims { Some(c) => Some(*c), None => None }),
{
    match claims {
        Some(c) => Some(c.clone()),
        None => None,
    }
}

impl RequestContext {
    /// A context with copies of the given claims, test context, configuration and keys.
    pub fn new(
        claims: Option<&Claims>,
        test_call_context: &Option<TestCallContext>,
        service_config: &ServiceConfig,
        security_context: &SecurityContext,
    ) -> (res: RequestContext)
        ensures
            same_config(res.config, *service_config),
            same_test_context(res.test_context, *test_call_context),
            same_claims(res.claims, match claims { Some(c) => Some(*c), None => None }),
            res.security_context == *security_context,
    {
        let test_context = match test_call_context {
            Some(t) => Some(t.clone()),
            None => None,
        };
        RequestContext {
            config: service_config.clone(),
            test_context,
            claims: clone_claims(claims),
            security_context: security_context.clone(),
        }
    }

    /// The context of an administrator: claims for the given user that hold for thirty
    /// seconds, with the test and admin roles, keeping profiles in the cloud database,
    /// and an empty test context.
    pub fn admin_default(
        user_id: Option<&str>,
        email: &str,
        service_config: &ServiceConfig,
        security_context: &SecurityContext,
    ) -> (res: RequestContext)
        ensures
            same_config(res.config, *service_config),
            res.test_context matches Some(t) && t.phone_code is None && t.game is None,
            res.claims matches Some(c) && c.id@ == (match user_id { Some(u) => u@, None => Seq::empty() })
                && c.email@ == email@ && c.exp >= 30
                && c.roles@ == seq![Role::TestUser, Role::Admin]
                && c.profile_storage == ProfileStorage::CosmosDb,
            res.security_context == *security_context,
    {
        let id = match user_id {
            Some(u) => u,
            None => "",
        };
        proof { reveal_strlit(""); }
        let roles = vec![Role::TestUser, Role::Admin];
        let claims = Claims::new(id, email, 30, &roles, ProfileStorage::CosmosDb);
        assert(claims.roles@ =~= seq![Role::TestUser, Role::Admin]);
        RequestContext {
            config: service_config.clone(),
            test_context: Some(TestCallContext::new(None, None)),
            claims: Some(claims),
            security_context: security_context.clone(),
        }
    }

    /// Sets the caller's claims.
    pub fn set_claims(&mut self, claims: &Claims)
        ensures
            same_claims(final(self).claims, Some(*claims)),
            same_config(final(self).config, old(self).config),
            final(self).test_context == old(self).test_context,
            final(self).security_context == old(self).security_context,
    {
        self.claims = Some(claims.clone());
        proof { assert(same_config(self.config, old(self).config)); }
    }

    /// The context of a test call: claims with no id or e-mail that hold for 60000
    /// seconds, with the test role, keeping profiles in the cloud test collections or in
    /// the in-memory database, and an empty test context.
    pub fn test_default(
        use_cosmos: bool,
        service_config: &ServiceConfig,
        security_context: &SecurityContext,
    ) -> (res: RequestContext)
        ensures
            same_config(res.config, *service_config),
            res.test_context matches Some(t) && t.phone_code is None && t.game is None,
            res.claims matches Some(c) && c.id@.len() == 0 && c.email@.len() == 0 && c.exp >= 60000
                && c.roles@ == seq![Role::TestUser]
                && c.profile_storage == if use_cosmos { ProfileStorage::CosmosDbTest } else { ProfileStorage::MockDb },
            res.security_context == *security_context,
    {
        let profile_location = if use_cosmos {
            ProfileStorage::CosmosDbTest
        } else {
            ProfileStorage::MockDb
        };
        let roles = vec![Role::TestUser];
        proof { reveal_strlit(""); }
        let claims = Claims::new("", "", 60000, &roles, profile_location);
        assert(claims.roles@ =~= seq![Role::TestUser]);
        let test_context = Some(TestCallContext::new(None, None));
        let res = RequestContext::new(Some(&claims), &test_context, service_config, security_context);
        res
    }

    /// Whether the caller is a test user.
    pub fn is_test(&self) -> (res: bool)
        ensures
            res == claims_have_role(self.claims, Role::TestUser),
    {
        self.is_caller_in_role(Role::TestUser)
    }

    /// Whether the caller's claims grant the role; a caller without claims has none.
    pub fn is_caller_in_role(&self, role: Role) -> (res: bool)
        ensures
            res == claims_have_role(self.claims, role),
    {
        match &self.claims {
            Some(c) => has_role(&c.roles, role),
            None => false,
        }
    }

    /// The database of the caller, from where its claims keep profiles; refused for a
    /// caller without claims.
    pub fn database(&self) -> (res: Result<DatabaseKind, ServiceError>)
        ensures
            match self.claims {
                Some(c) => res == Ok::<DatabaseKind, ServiceError>(DatabaseKind::from_location_spec(c.profile_storage)),
                None => res matches Err(e) && e.kind == ServiceErrorKind::BadRequest
                    && e.message@ == "need claims to create a db connection from a request context"@,
            },
    {
        match &self.claims {
            Some(c) => Ok(DatabaseKind::from_location(c.profile_storage)),
            None => Err(ServiceError::new_bad_request("need claims to create a db connection from a request context")),
        }
    }

    /// The name of the database: the configured name, with "-test" appended when the
    /// caller's profiles are kept in the test collections.
    pub fn database_name(&self) -> (res: String)
        ensures
            res@ == if self.claims matches Some(c) && c.profile_storage == ProfileStorage::CosmosDbTest {
                self.config.cosmos_database_name@ + "-test"@
            } else {
                self.config.cosmos_database_name@
            },
    {
        let mut name = self.config.cosmos_database_name.clone();
        let is_test_db = match &self.claims {
            Some(c) => c.profile_storage == ProfileStorage::CosmosDbTest,
            None => false,
        };
        if is_test_db {
            append_str(&mut name, "-test");
        }
        name
    }
}

} // verus!
