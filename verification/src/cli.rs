//! The command-line surface of the node: the commands' names and the
//! plain records their output is built from.  Running a command —
//! talking to a node, printing — is the binary's business, not the
//! library's; what each command is called, and what its reports hold,
//! is decided here.

pub mod addon;
pub mod identity;
pub mod kafka_producer;
pub mod node;
pub mod policy;
pub mod relay_show;
pub mod secure_channel;
pub mod service;
pub mod tcp_listener;
pub mod tcp_outlet;
