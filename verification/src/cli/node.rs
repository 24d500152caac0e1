//! Listing nodes.

use vstd::prelude::*;
use vstd::string::StringExecFns;

verus! {

/// Whether a node's process runs, and under which process id.
#[derive(Clone, Copy, Debug, PartialEq, Eq, Structural)]
pub enum NodeProcessStatus {
    /// Running under this process id.
    Running(u32),
    /// A process exists under this id but no longer answers.
    Zombie(u32),
    /// No process.
    Stopped,
}

/// What is known of one node on this system.
pub struct NodeInfo {
    name: String,
    status: NodeProcessStatus,
    pid: Option<u32>,
    is_default: bool,
}

impl NodeInfo {
    /// Record a node's name and process state.
    pub fn new(name: String, status: NodeProcessStatus, pid: Option<u32>, is_default: bool) -> (r: Self)
        ensures
            r.name() == name@,
            r.status() == status,
            r.pid() == pid,
            r.is_default() == is_default,
    {
        NodeInfo { name, status, pid, is_default }
    }

    /// The node's name.
    pub closed spec fn name(&self) -> Seq<char> {
        self.name@
    }

    /// The node's process status.
    pub closed spec fn status(&self) -> NodeProcessStatus {
        self.status
    }

    /// The node's process id, if one is recorded.
    pub closed spec fn pid(&self) -> Option<u32> {
        self.pid
    }

    /// Whether this is the default node.
    pub closed spec fn is_default(&self) -> bool {
        self.is_default
    }
}

/// List nodes.
pub struct ListCommand {}

impl ListCommand {
    /// What this command is called.
    pub fn name(&self) -> (r: String)
        ensures
            r@ == "node list"@,
    {
        String::from_str("node list")
    }
}

/// One node, as the listing reports it.
pub struct NodeListOutput {
    pub node_name: String,
    pub status: NodeProcessStatus,
    pub pid: Option<u32>,
    pub is_default: bool,
}

impl NodeListOutput {
    /// A report line for one node.
    pub fn new(node_name: String, status: NodeProcessStatus, pid: Option<u32>, is_default: bool) -> (r: Self)
        ensures
            r.node_name@ == node_name@,
            r.status == status,
            r.pid == pid,
            r.is_default == is_default,
    {
        NodeListOutput { node_name, status, pid, is_default }
    }

    /// The report line for a known node.
    pub fn from_node_info(node_info: &NodeInfo) -> (r: Self)
        ensures
            r.node_name@ == node_info.name(),
            r.status == node_info.status(),
            r.pid == node_info.pid(),
            r.is_default == node_info.is_default(),
    {
        NodeListOutput {
            node_name: node_info.name.clone(),
            status: node_info.status,
            pid: node_info.pid,
            is_default: node_info.is_default,
        }
    }
}

} // verus!
