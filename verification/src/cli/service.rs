//! Starting node services.

use vstd::prelude::*;
use vstd::string::StringExecFns;

verus! {

/// Which node a command addresses.
pub struct NodeOpts {
    /// The node to run at, or the default one.
    pub at_node: Option<String>,
}

/// The services that can be started.
pub enum StartSubCommand {
    /// A hop service — forwarding only, for demonstrations; production
    /// nodes should not run one.
    Hop {
        /// The address to start it at.
        addr: String,
    },
}

/// The default address of a hop service.
pub fn hop_default_addr() -> (r: String)
    ensures
        r@ == "hop_service"@,
{
    String::from_str("hop_service")
}

/// Start a specified service.
pub struct StartCommand {
    /// The service to start.
    pub create_subcommand: StartSubCommand,
    /// The node to start it at.
    pub node_opts: NodeOpts,
}

impl StartCommand {
    /// What this command is called.
    pub fn name(&self) -> (r: String)
        ensures
            r@ == "service start"@,
    {
        String::from_str("service start")
    }
}

} // verus!
