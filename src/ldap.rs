use vstd::prelude::*;

verus! {

/// A user account as the directory describes it.
#[derive(Debug)]
pub struct LdapUser {
    pub dn: String,
    pub localpart: String,
    pub displayname: String,
    pub email: String,
}

} // verus!
