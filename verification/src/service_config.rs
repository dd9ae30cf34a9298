use vstd::prelude::*;
use crate::json::JsonValue;

verus! {

/// The secrets and settings the service needs to run, read from its configuration file,
/// with the map from each secret's value back to its name (used to hide secrets in logs).
#[derive(Debug)]
pub struct ServiceConfig {
    pub admin_email: String,
    pub admin_password: String,
    pub admin_profile_json: String,
    pub azure_communication_connection_string: String,
    pub azure_location: String,
    pub resource_group: String,
    pub cosmos_account: String,
    pub cosmos_token: String,
    pub cosmos_database_name: String,
    pub host_name: String,
    pub key_vault_name: String,
    pub login_secret_key: String,
    pub rust_log: String,
    pub service_email: String,
    pub service_phone_number: String,
    pub ssl_cert_file: String,
    pub ssl_key_file: String,
    pub test_cred_cache_location: String,
    pub test_email: String,
    pub test_phone_number: String,
    pub test_users_json: String,
    pub validation_secret_key: String,
    pub name_value_map: Vec<(String, String)>,
    pub config_file: String,
}

/// The text of a list of pairs of strings, pair by pair.
pub open spec fn string_pairs(s: Seq<(String, String)>) -> Seq<(Seq<char>, Seq<char>)> {
    s.map_values(|p: (String, String)| (p.0@, p.1@))
}

/// Two configurations hold the same settings.
pub open spec fn same_config(a: ServiceConfig, b: ServiceConfig) -> bool {
    &&& a.admin_email == b.admin_email
    &&& a.admin_password == b.admin_password
    &&& a.admin_profile_json == b.admin_profile_json
    &&& a.azure_communication_connection_string == b.azure_communication_connection_string
    &&& a.azure_location == b.azure_location
    &&& a.resource_group == b.resource_group
    &&& a.cosmos_account == b.cosmos_account
    &&& a.cosmos_token == b.cosmos_token
    &&& a.cosmos_database_name == b.cosmos_database_name
    &&& a.host_name == b.host_name
    &&& a.key_vault_name == b.key_vault_name
    &&& a.login_secret_key == b.login_secret_key
    &&& a.rust_log == b.rust_log
    &&& a.service_email == b.service_email
    &&& a.service_phone_number == b.service_phone_number
    &&& a.ssl_cert_file == b.ssl_cert_file
    &&& a.ssl_key_file == b.ssl_key_file
    &&& a.test_cred_cache_location == b.test_cred_cache_location
    &&& a.test_email == b.test_email
    &&& a.test_phone_number == b.test_phone_number
    &&& a.test_users_json == b.test_users_json
    &&& a.validation_secret_key == b.validation_secret_key
    &&& string_pairs(a.name_value_map@) == string_pairs(b.name_value_map@)
    &&& a.config_file == b.config_file
}

/// Copies of the pairs of a list, in order.
pub fn clone_pairs(v: &Vec<(String, String)>) -> (res: Vec<(String, String)>)
    ensures
        string_pairs(res@) == string_pairs(v@),
{
    let mut res: Vec<(String, String)> = Vec::new();
    let mut i: usize = 0;
    while i < v.len()
        invariant
            i <= v@.len(),
            string_pairs(res@) == string_pairs(v@).take(i as int),
        decreases v.len() - i,
    {
        let a = v[i].0.clone();
        let b = v[i].1.clone();
        let ghost before = res@;
        res.push((a, b));
        assert(string_pairs(res@) =~= string_pairs(before).push((a@, b@)));
        assert(string_pairs(v@).take(i as int + 1) =~= string_pairs(v@).take(i as int).push((a@, b@)));
        i = i + 1;
    }
    assert(string_pairs(v@).take(i as int) =~= string_pairs(v@));
    res
}

impl Clone for ServiceConfig {
    /// A copy of the configuration.
    fn clone(&self) -> (res: ServiceConfig)
        ensures
            same_config(res, *self),
    {
        ServiceConfig {
            admin_email: self.admin_email.clone(),
            admin_password: self.admin_password.clone(),
            admin_profile_json: self.admin_profile_json.clone(),
            azure_communication_connection_string: self.azure_communication_connection_string.clone(),
            azure_location: self.azure_location.clone(),
            resource_group: self.resource_group.clone(),
            cosmos_account: self.cosmos_account.clone(),
            cosmos_token: self.cosmos_token.clone(),
            cosmos_database_name: self.cosmos_database_name.clone(),
            host_name: self.host_name.clone(),
            key_vault_name: self.key_vault_name.clone(),
            login_secret_key: self.login_secret_key.clone(),
            rust_log: self.rust_log.clone(),
            service_email: self.service_email.clone(),
            service_phone_number: self.service_phone_number.clone(),
            ssl_cert_file: self.ssl_cert_file.clone(),
            ssl_key_file: self.ssl_key_file.clone(),
            test_cred_cache_location: self.test_cred_cache_location.clone(),
            test_email: self.test_email.clone(),
            test_phone_number: self.test_phone_number.clone(),
            test_users_json: self.test_users_json.clone(),
            validation_secret_key: self.validation_secret_key.clone(),
            name_value_map: clone_pairs(&self.name_value_map),
            config_file: self.config_file.clone(),
        }
    }
}

impl Default for ServiceConfig {
    /// A configuration with every setting empty.
    fn default() -> (res: ServiceConfig)
        ensures
            res.admin_email@.len() == 0,
            res.admin_password@.len() == 0,
            res.admin_profile_json@.len() == 0,
            res.azure_communication_connection_string@.len() == 0,
            res.azure_location@.len() == 0,
            res.resource_group@.len() == 0,
            res.cosmos_account@.len() == 0,
            res.cosmos_token@.len() == 0,
            res.cosmos_database_name@.len() == 0,
            res.host_name@.len() == 0,
            res.key_vault_name@.len() == 0,
            res.login_secret_key@.len() == 0,
            res.rust_log@.len() == 0,
            res.service_email@.len() == 0,
            res.service_phone_number@.len() == 0,
            res.ssl_cert_file@.len() == 0,
            res.ssl_key_file@.len() == 0,
            res.test_cred_cache_location@.len() == 0,
            res.test_email@.len() == 0,
            res.test_phone_number@.len() == 0,
            res.test_users_json@.len() == 0,
            res.validation_secret_key@.len() == 0,
            res.name_value_map@.len() == 0,
            res.config_file@.len() == 0,
    {
        ServiceConfig {
            admin_email: String::new(),
            admin_password: String::new(),
            admin_profile_json: String::new(),
            azure_communication_connection_string: String::new(),
            azure_location: String::new(),
            resource_group: String::new(),
            cosmos_account: String::new(),
            cosmos_token: String::new(),
            cosmos_database_name: String::new(),
            host_name: String::new(),
            key_vault_name: String::new(),
            login_secret_key: String::new(),
            rust_log: String::new(),
            service_email: String::new(),
            service_phone_number: String::new(),
            ssl_cert_file: String::new(),
            ssl_key_file: String::new(),
            test_cred_cache_location: String::new(),
            test_email: String::new(),
            test_phone_number: String::new(),
            test_users_json: String::new(),
            validation_secret_key: String::new(),
            name_value_map: Vec::new(),
            config_file: String::new(),
        }
    }
}

/// The map from each string value of a configuration document's members to the
/// member's name; where two members hold the same value, the later one wins.
pub open spec fn value_names(members: Seq<(String, JsonValue)>) -> Map<Seq<char>, Seq<char>>
    decreases members.len(),
{
    if members.len() == 0 {
        Map::empty()
    } else {
        let rest = value_names(members.drop_last());
        match members.last().1 {
            JsonValue::Str(v) => rest.insert(v@, members.last().0@),
            _ => rest,
        }
    }
}

/// A list of pairs that holds exactly the given map, each key once.
pub open spec fn holds_map(pairs: Seq<(Seq<char>, Seq<char>)>, m: Map<Seq<char>, Seq<char>>) -> bool {
    &&& forall|i: int, j: int| 0 <= i < j < pairs.len() ==> (#[trigger] pairs[i]).0 != (#[trigger] pairs[j]).0
    &&& forall|i: int| 0 <= i < pairs.len() ==> m.contains_key((#[trigger] pairs[i]).0) && m[pairs[i].0] == pairs[i].1
    &&& forall|k: Seq<char>| #[trigger] m.contains_key(k) ==> exists|i: int| 0 <= i < pairs.len() && (#[trigger] pairs[i]).0 == k
}

/// The map from each string value of a configuration document to the name of the
/// member that holds it (later members win), as a list of (value, name) pairs; a
/// document that is not an object gives an empty map.
pub fn name_value_map_from(doc: &JsonValue) -> (res: Vec<(String, String)>)
    ensures
        match doc {
            JsonValue::Object(members) => holds_map(string_pairs(res@), value_names(members@)),
            _ => res@.len() == 0,
        },
{
    let mut pairs: Vec<(String, String)> = Vec::new();
    match doc {
        JsonValue::Object(members) => {
            let mut i: usize = 0;
            assert(value_names(members@.take(0)) =~= Map::empty());
            while i < members.len()
                invariant
                    i <= members@.len(),
                    holds_map(string_pairs(pairs@), value_names(members@.take(i as int))),
                decreases members.len() - i,
            {
                assert(members@.take(i as int + 1).drop_last() =~= members@.take(i as int));
                let ghost m = value_names(members@.take(i as int));
                match &members[i].1 {
                    JsonValue::Str(v) => {
                        let ghost before = string_pairs(pairs@);
                        let mut j: usize = 0;
                        let mut found = false;
                        while j < pairs.len()
                            invariant_except_break
                                !found,
                            invariant
                                j <= pairs@.len(),
                                string_pairs(pairs@) == before,
                                forall|t: int| 0 <= t < j ==> before[t].0 != v@,
                            ensures
                                found ==> j < pairs@.len() && before[j as int].0 == v@,
                                !found ==> forall|t: int| 0 <= t < pairs@.len() ==> before[t].0 != v@,
                            decreases pairs.len() - j,
                        {
                            if pairs[j].0 == *v {
                                found = true;
                                break;
                            }
                            j = j + 1;
                        }
                        let name = members[i].0.clone();
                        if found {
                            let value = pairs[j].0.clone();
                            pairs.set(j, (value, name));
                            assert(string_pairs(pairs@) =~= before.update(j as int, (v@, name@)));
                        } else {
                            pairs.push((v.clone(), name));
                            assert(string_pairs(pairs@) =~= before.push((v@, name@)));
                        }
                        let ghost m2 = m.insert(v@, name@);
                        assert(value_names(members@.take(i as int + 1)) == m2);
                        assert forall|k: Seq<char>| #[trigger] m2.contains_key(k) implies
                            exists|t: int| 0 <= t < string_pairs(pairs@).len() && (#[trigger] string_pairs(pairs@)[t]).0 == k by {
                            if k == v@ {
                                if found {
                                    assert(string_pairs(pairs@)[j as int].0 == k);
                                } else {
                                    assert(string_pairs(pairs@)[before.len() as int].0 == k);
                                }
                            } else {
                                assert(m.contains_key(k));
                                let t = choose|t: int| 0 <= t < before.len() && (#[trigger] before[t]).0 == k;
                                assert(string_pairs(pairs@)[t].0 == k);
                            }
                        }
                    },
                    _ => {
                        assert(value_names(members@.take(i as int + 1)) == m);
                    },
                }
                i = i + 1;
            }
            assert(members@.take(i as int) =~= members@);
        },
        _ => {},
    }
    pairs
}

} // verus!
