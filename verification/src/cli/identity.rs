//! Listing identities.

use vstd::prelude::*;
use vstd::string::StringExecFns;

verus! {

/// List identities.
pub struct ListCommand {}

impl ListCommand {
    /// What this command is called.
    pub fn name(&self) -> (r: String)
        ensures
            r@ == "identity list"@,
    {
        String::from_str("identity list")
    }
}

/// One identity, as the listing reports it.
pub struct IdentityListOutput {
    pub name: String,
    pub identifier: String,
    pub is_default: bool,
}

impl IdentityListOutput {
    /// A report line for one identity.
    pub fn new(name: String, identifier: String, is_default: bool) -> (r: Self)
        ensures
            r.name@ == name@,
            r.identifier@ == identifier@,
            r.is_default == is_default,
    {
        IdentityListOutput { name, identifier, is_default }
    }
}

} // verus!
