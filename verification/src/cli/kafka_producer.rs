//! Deleting a kafka producer service.

use vstd::prelude::*;
use vstd::string::StringExecFns;

verus! {

/// Delete a kafka producer.
pub struct DeleteCommand {
    /// The service address of the producer to delete.
    pub address: String,
}

impl DeleteCommand {
    /// What this command is called.
    pub fn name(&self) -> (r: String)
        ensures
            r@ == "delete kafka producer"@,
    {
        String::from_str("delete kafka producer")
    }
}

} // verus!
