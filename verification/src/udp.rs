//! Options for a UDP bind: the flow its receiver produces into, and the
//! flows its sender consumes from.

use vstd::prelude::*;

use crate::address::Address;
use crate::address::AddressView;
use crate::flow_control::FlowControlId;
use crate::flow_control::FlowControls;
use crate::mailbox::OutgoingAccessControl;

verus! {

/// The worker addresses a UDP bind creates: one receiver (reading from
/// the socket) and one sender (writing to it).
pub struct UdpAddresses {
    sender: Address,
    receiver: Address,
}

impl UdpAddresses {
    /// The model of the sender worker's address.
    pub closed spec fn sender_addr(&self) -> AddressView {
        self.sender@
    }

    /// The model of the receiver worker's address.
    pub closed spec fn receiver_addr(&self) -> AddressView {
        self.receiver@
    }

    /// Pair a sender and a receiver address.
    pub fn new(sender: Address, receiver: Address) -> (r: Self)
        ensures
            r.sender_addr() == sender@,
            r.receiver_addr() == receiver@,
    {
        UdpAddresses { sender, receiver }
    }

    /// The address of the worker writing to the socket.
    pub fn sender_address(&self) -> (r: &Address)
        ensures
            r@ == self.sender_addr(),
    {
        &self.sender
    }

    /// The address of the worker reading from the socket.
    pub fn receiver_address(&self) -> (r: &Address)
        ensures
            r@ == self.receiver_addr(),
    {
        &self.receiver
    }
}

/// Options for a UDP bind.
pub struct UdpBindOptions {
    consumer: Vec<FlowControlId>,
    flow_control_id: FlowControlId,
}

impl UdpBindOptions {
    /// The flows this bind's sender consumes from.
    pub closed spec fn consumer_flows(&self) -> Seq<u64> {
        Seq::new(self.consumer@.len(), |i: int| self.consumer@[i]@)
    }

    /// The identifier of the flow this bind's receiver produces into.
    pub closed spec fn spec_flow_control_id(&self) -> FlowControlId {
        self.flow_control_id
    }

    /// Mark this bind's receiver as a producer, with a freshly generated
    /// [`FlowControlId`].
    pub fn new(flow_controls: &mut FlowControls) -> (r: Self)
        requires
            old(flow_controls).issued() < u64::MAX,
        ensures
            r.spec_flow_control_id()@ == old(flow_controls).issued(),
            r.consumer_flows() == Seq::<u64>::empty(),
            final(flow_controls).issued() == old(flow_controls).issued() + 1,
            FlowControls::same_registrations(old(flow_controls), final(flow_controls)),
    {
        let id = flow_controls.generate_flow_control_id();
        let r = UdpBindOptions { consumer: Vec::new(), flow_control_id: id };
        proof {
            assert(r.consumer_flows() =~= Seq::<u64>::empty());
        }
        r
    }

    /// Mark this bind as a consumer of the given flow.
    pub fn as_consumer(self, id: &FlowControlId) -> (r: Self)
        ensures
            r.spec_flow_control_id() == self.spec_flow_control_id(),
            r.consumer_flows() == self.consumer_flows().push(id@),
    {
        let mut consumer = self.consumer;
        consumer.push(*id);
        let r = UdpBindOptions { consumer, flow_control_id: self.flow_control_id };
        proof {
            assert(r.consumer_flows() =~= self.consumer_flows().push(id@));
        }
        r
    }

    /// The freshly generated identifier of the flow this bind's receiver
    /// produces into.
    pub fn flow_control_id(&self) -> (r: FlowControlId)
        ensures
            r == self.spec_flow_control_id(),
    {
        self.flow_control_id
    }

    /// Register this bind with the flow-control registry: the receiver
    /// becomes the producer of the bind's flow with the sender as its
    /// consumer, and the sender becomes a consumer of every flow this
    /// bind was marked a consumer of.  Nothing else changes: these
    /// registrations are the only memberships granted — registration is
    /// the one way into a flow — and no other producer or spawner entry
    /// moves.
    pub fn setup_flow_control(&self, flow_controls: &mut FlowControls, addresses: &UdpAddresses)
        ensures
            old(flow_controls).producer_of_addr(addresses.receiver_addr()) is None
                ==> final(flow_controls).producer_of_addr(addresses.receiver_addr())
                    == Some(self.spec_flow_control_id()@),
            forall|x: AddressView| x != addresses.receiver_addr()
                ==> final(flow_controls).producer_of_addr(x) == old(flow_controls).producer_of_addr(x),
            final(flow_controls).consumer_registered(addresses.sender_addr(), self.spec_flow_control_id()@),
            forall|k: int| 0 <= k < self.consumer_flows().len()
                ==> final(flow_controls).consumer_registered(addresses.sender_addr(), #[trigger] self.consumer_flows()[k]),
            forall|x: AddressView, id: u64| old(flow_controls).consumer_registered(x, id)
                ==> final(flow_controls).consumer_registered(x, id),
            forall|x: AddressView, id: u64| final(flow_controls).consumer_registered(x, id)
                ==> old(flow_controls).consumer_registered(x, id)
                    || (x == addresses.sender_addr() && (id == self.spec_flow_control_id()@
                        || exists|k: int| 0 <= k < self.consumer_flows().len()
                            && #[trigger] self.consumer_flows()[k] == id)),
            forall|x: AddressView| final(flow_controls).spawner_of_addr(x)
                == old(flow_controls).spawner_of_addr(x),
            final(flow_controls).issued() == old(flow_controls).issued(),
    {
        let mut initial_consumers: Vec<Address> = Vec::new();
        initial_consumers.push(addresses.sender_address().clone());
        proof {
            assert(initial_consumers@[0]@ == addresses.sender_addr());
        }
        flow_controls.add_producer(
            addresses.receiver_address(),
            &self.flow_control_id,
            None,
            &initial_consumers,
        );
        let n = self.consumer.len();
        let mut i: usize = 0;
        while i < n
            invariant
                0 <= i <= n,
                n == self.consumer@.len(),
                flow_controls.consumer_registered(addresses.sender_addr(), self.spec_flow_control_id()@),
                forall|k: int| 0 <= k < i
                    ==> flow_controls.consumer_registered(addresses.sender_addr(), #[trigger] self.consumer_flows()[k]),
                forall|x: AddressView, id: u64| old(flow_controls).consumer_registered(x, id)
                    ==> flow_controls.consumer_registered(x, id),
                forall|x: AddressView, id: u64| flow_controls.consumer_registered(x, id)
                    ==> old(flow_controls).consumer_registered(x, id)
                        || (x == addresses.sender_addr() && (id == self.spec_flow_control_id()@
                            || exists|k: int| 0 <= k < i
                                && #[trigger] self.consumer_flows()[k] == id)),
                old(flow_controls).producer_of_addr(addresses.receiver_addr()) is None
                    ==> flow_controls.producer_of_addr(addresses.receiver_addr())
                        == Some(self.spec_flow_control_id()@),
                forall|x: AddressView| x != addresses.receiver_addr()
                    ==> flow_controls.producer_of_addr(x) == old(flow_controls).producer_of_addr(x),
                forall|x: AddressView| flow_controls.spawner_of_addr(x)
                    == old(flow_controls).spawner_of_addr(x),
                flow_controls.issued() == old(flow_controls).issued(),
            decreases n - i,
        {
            flow_controls.add_consumer(addresses.sender_address(), &self.consumer[i]);
            proof {
                assert(self.consumer_flows()[i as int] == self.consumer@[i as int]@);
            }
            i += 1;
        }
    }

    /// The outgoing access control guarding what the bind's receiver may
    /// hand on: only consumers of the bind's flow.
    pub fn create_receiver_outgoing_access_control(&self) -> (r: OutgoingAccessControl)
        ensures
            r == (OutgoingAccessControl::FlowControlOutgoing {
                flow_control_id: self.spec_flow_control_id(),
                spawner_flow_control_id: None::<FlowControlId>,
            }),
    {
        OutgoingAccessControl::FlowControlOutgoing {
            flow_control_id: self.flow_control_id,
            spawner_flow_control_id: None,
        }
    }
}

} // verus!
