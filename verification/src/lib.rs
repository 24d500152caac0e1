//! A transport-agnostic, authenticated message-routing substrate:
//! typed addresses and hop-by-hop routes with a wire codec, a mailbox
//! runtime with flow-control based access control, a secure-channel
//! handshake state machine, and a session/replacer abstraction that
//! keeps routed resources (such as relays) alive across failures.

pub mod address;
pub mod bare;
pub mod branding;
pub mod channel;
pub mod cli;
pub mod date;
pub mod delayed;
pub mod enroll;
pub mod flow_control;
pub mod handshake;
pub mod identity;
pub mod invitation;
pub mod kafka;
pub mod lease;
pub mod mailbox;
pub mod relay;
pub mod rng;
pub mod route;
pub mod session;
pub mod transport;
pub mod udp;
pub mod uds;

pub use address::Address;
pub use address::TransportType;
pub use address::LOCAL;
