//! Listing secure channels.

use vstd::prelude::*;
use vstd::string::StringExecFns;

verus! {

/// List secure channels.
pub struct ListCommand {
    /// The node at which the listed channels were initiated.
    pub at: Option<String>,
}

impl ListCommand {
    /// What this command is called.
    pub fn name(&self) -> (r: String)
        ensures
            r@ == "secure-channel list"@,
    {
        String::from_str("secure-channel list")
    }
}

/// One secure channel, as the listing reports it.
pub struct SecureChannelListOutput {
    pub from: String,
    pub to: String,
    pub at: String,
}

impl SecureChannelListOutput {
    /// A report line for one channel.
    pub fn new(from: String, to: String, at: String) -> (r: Self)
        ensures
            r.from@ == from@,
            r.to@ == to@,
            r.at@ == at@,
    {
        SecureChannelListOutput { from, to, at }
    }
}

} // verus!
