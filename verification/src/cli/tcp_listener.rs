//! Creating TCP listeners.

use vstd::prelude::*;
use vstd::string::StringExecFns;

verus! {

/// Create a TCP listener.
pub struct CreateCommand {
    /// The node at which to create the listener.
    pub at: Option<String>,
    /// The socket address for the listener.
    pub address: String,
}

impl CreateCommand {
    /// What this command is called.
    pub fn name(&self) -> (r: String)
        ensures
            r@ == "tcp-listener create"@,
    {
        String::from_str("tcp-listener create")
    }
}

} // verus!
