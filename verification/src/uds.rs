//! The management interface of the local-socket transport.
//!
//! Only one such transport can exist per node, as it registers itself
//! as the router for the local-socket address type: a second creation
//! fails.  The socket work itself — connecting, listening, moving bytes
//! — is the runner's, behind the wire frame of this library.

use vstd::prelude::*;

use crate::address::TransportType;

verus! {

/// The transport type of local-socket connections.
pub const UDS: TransportType = 2;

/// A router for this address type is already registered.
#[derive(Clone, Copy, Debug, PartialEq, Eq, Structural)]
pub struct RouterAlreadyRegistered;

/// The routers registered on one node, at most one per transport type.
pub struct TransportRouters {
    registered: Vec<TransportType>,
}

impl TransportRouters {
    /// The transport types with a registered router.
    pub closed spec fn registered_view(&self) -> Seq<TransportType> {
        self.registered@
    }

    /// True when a router is registered for `tt`.
    pub open spec fn has_router(&self, tt: TransportType) -> bool {
        exists|k: int| 0 <= k < self.registered_view().len() && #[trigger] self.registered_view()[k] == tt
    }

    /// A node with no routers yet.
    pub fn new() -> (r: Self)
        ensures
            r.registered_view() == Seq::<TransportType>::empty(),
    {
        TransportRouters { registered: Vec::new() }
    }

    /// Register a router for `tt` — at most once per transport type.
    pub fn register(&mut self, tt: TransportType) -> (r: Result<(), RouterAlreadyRegistered>)
        ensures
            old(self).has_router(tt) ==> {
                &&& r == Result::<(), RouterAlreadyRegistered>::Err(RouterAlreadyRegistered)
                &&& final(self).registered_view() == old(self).registered_view()
            },
            !old(self).has_router(tt) ==> {
                &&& r is Ok
                &&& final(self).registered_view() == old(self).registered_view().push(tt)
            },
    {
        let n = self.registered.len();
        let mut k: usize = 0;
        while k < n
            invariant
                0 <= k <= n,
                n == self.registered@.len(),
                forall|q: int| 0 <= q < k ==> #[trigger] self.registered@[q] != tt,
            decreases n - k,
        {
            if self.registered[k] == tt {
                return Err(RouterAlreadyRegistered);
            }
            k += 1;
        }
        self.registered.push(tt);
        Ok(())
    }
}

/// The management interface of the local-socket transport: connecting,
/// disconnecting and listening go through the router this value
/// registered.
pub struct UdsTransport {}

impl UdsTransport {
    /// Create the local-socket transport, registering its router with
    /// the node.  Only one can exist per node: a second creation fails
    /// and registers nothing.
    pub fn create(routers: &mut TransportRouters) -> (r: Result<UdsTransport, RouterAlreadyRegistered>)
        ensures
            old(routers).has_router(UDS) ==> {
                &&& r is Err
                &&& final(routers).registered_view() == old(routers).registered_view()
            },
            !old(routers).has_router(UDS) ==> {
                &&& r is Ok
                &&& final(routers).registered_view() == old(routers).registered_view().push(UDS)
            },
    {
        match routers.register(UDS) {
            Ok(_) => Ok(UdsTransport {}),
            Err(e) => Err(e),
        }
    }
}

} // verus!
