//! Showing a relay.

use vstd::prelude::*;
use vstd::string::StringExecFns;

verus! {

/// Show a relay, given its name.
pub struct ShowCommand {
    /// The name assigned to the relay.
    pub relay_name: Option<String>,
    /// The node the relay belongs to.
    pub at: Option<String>,
}

impl ShowCommand {
    /// What this command is called.
    pub fn name(&self) -> (r: String)
        ensures
            r@ == "relay show"@,
    {
        String::from_str("relay show")
    }
}

} // verus!
