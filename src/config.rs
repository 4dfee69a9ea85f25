use std::collections::HashMap;
use vstd::prelude::*;
use vstd::std_specs::hash::obeys_key_model;

verus! {

broadcast use vstd::std_specs::hash::group_hash_axioms;

/// Settings of the directory lookup used for password logins.
#[derive(Clone, Debug, Default)]
pub struct LdapConfig {
    pub enabled: bool,
    pub uri: String,
    pub bind_dn: String,
    pub bind_password: String,
    pub base_dn: String,
    pub user_filter: String,
    pub attribute_mapping: HashMap<String, String>,
}

/// Directory lookup is off unless configured.
pub fn default_ldap_enabled() -> (r: bool)
    ensures
        !r,
{
    false
}

/// The search filter used when none is configured; `%u` stands for the login name.
pub fn default_user_filter() -> (r: String)
    ensures
        r@ == "(uid=%u)"@,
{
    "(uid=%u)".to_owned()
}

/// Whether `m` maps each profile field to its default directory attribute and holds
/// nothing else.
pub open spec fn is_default_mapping(m: Map<String, String>) -> bool {
    &&& m.len() == 3
    &&& exists|k: String| #[trigger] m.contains_key(k) && k@ == "localpart"@ && m[k]@ == "uid"@
    &&& exists|k: String| #[trigger] m.contains_key(k) && k@ == "displayname"@ && m[k]@ == "cn"@
    &&& exists|k: String| #[trigger] m.contains_key(k) && k@ == "email"@ && m[k]@ == "mail"@
}

/// The profile-field-to-attribute mapping used when none is configured.
pub fn default_attribute_mapping() -> (r: HashMap<String, String>)
    ensures
        obeys_key_model::<String>() ==> is_default_mapping(r@),
{
    let mut map: HashMap<String, String> = HashMap::new();
    let k1 = "localpart".to_owned();
    let k2 = "displayname".to_owned();
    let k3 = "email".to_owned();
    proof {
        reveal_strlit("localpart");
        reveal_strlit("displayname");
        reveal_strlit("email");
    }
    assert(k1 != k2 && k1 != k3 && k2 != k3) by {
        assert(k1@.len() != k2@.len());
        assert(k1@.len() != k3@.len());
        assert(k2@.len() != k3@.len());
    }
    let ghost (g1, g2, g3) = (k1, k2, k3);
    map.insert(k1, "uid".to_owned());
    map.insert(k2, "cn".to_owned());
    map.insert(k3, "mail".to_owned());
    proof {
        if obeys_key_model::<String>() {
            assert(map@.dom() =~= set![g1, g2, g3]);
            assert(set![g1, g2, g3].len() == 3) by {
                assert(set![g1, g2, g3] == set![g1, g2].insert(g3));
            }
            assert(map@.contains_key(g1));
            assert(map@.contains_key(g2));
            assert(map@.contains_key(g3));
        }
    }
    map
}

} // verus!
