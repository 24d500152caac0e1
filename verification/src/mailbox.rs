//! Mailboxes, access control, and the delivery gate of the actor
//! runtime.
//!
//! Each worker owns one or more mailboxes, each holding an
//! incoming-access-control predicate evaluated against a message's
//! declared source and an outgoing-access-control predicate evaluated
//! against a message's destination.  A message failing a check is
//! dropped — never delivered — and the worker's state is unaffected.

use vstd::prelude::*;

use crate::address::Address;
use crate::address::AddressView;
use crate::flow_control::FlowControlId;
use crate::flow_control::FlowControls;
use crate::route::Route;
use crate::route::RouteError;

verus! {

/// A message travelling through the node: where it is going, how to
/// answer, and its payload.
pub struct LocalMessage {
    onward_route: Route,
    return_route: Route,
    payload: Vec<u8>,
}

/// Mathematical model of a [`LocalMessage`].
pub struct LocalMessageView {
    pub onward: Seq<AddressView>,
    pub ret: Seq<AddressView>,
    pub payload: Seq<u8>,
}

impl View for LocalMessage {
    type V = LocalMessageView;

    closed spec fn view(&self) -> LocalMessageView {
        LocalMessageView { onward: self.onward_route@, ret: self.return_route@, payload: self.payload@ }
    }
}

impl LocalMessageView {
    /// The declared origin of a message: the front of its return route.
    pub open spec fn source(&self) -> Option<AddressView> {
        if self.ret.len() > 0 {
            Some(self.ret[0])
        } else {
            None
        }
    }

    /// The destination of a message: the front of its onward route.
    pub open spec fn destination(&self) -> Option<AddressView> {
        if self.onward.len() > 0 {
            Some(self.onward[0])
        } else {
            None
        }
    }
}

impl LocalMessage {
    /// Assemble a message.
    pub fn new(onward_route: Route, return_route: Route, payload: Vec<u8>) -> (r: Self)
        ensures
            r@.onward == onward_route@,
            r@.ret == return_route@,
            r@.payload == payload@,
    {
        LocalMessage { onward_route, return_route, payload }
    }

    /// The route this message still has to travel.
    pub fn onward_route(&self) -> (r: &Route)
        ensures
            r@ == self@.onward,
    {
        &self.onward_route
    }

    /// The route on which an answer travels back.
    pub fn return_route(&self) -> (r: &Route)
        ensures
            r@ == self@.ret,
    {
        &self.return_route
    }

    /// The payload carried.
    pub fn payload(&self) -> (r: &Vec<u8>)
        ensures
            r@ == self@.payload,
    {
        &self.payload
    }

    /// Drop the front hop of the onward route, after it has been
    /// traversed.  Fails on an exhausted route.
    pub fn pop_front_onward_route(self) -> (r: Result<LocalMessage, RouteError>)
        ensures
            self@.onward.len() > 0 ==> (r matches Ok(m)
                && m@.onward == self@.onward.subrange(1, self@.onward.len() as int)
                && m@.ret == self@.ret && m@.payload == self@.payload),
            self@.onward.len() == 0 ==> (r matches Err(e) && e == RouteError::IncompleteRoute),
    {
        let mut onward = self.onward_route;
        match onward.step() {
            Ok(_) => Ok(LocalMessage { onward_route: onward, return_route: self.return_route, payload: self.payload }),
            Err(e) => Err(e),
        }
    }

    /// Replace the front hop of the onward route with `addr`, to hand
    /// the message over to another local worker.  Fails on an exhausted
    /// route.
    pub fn replace_front_onward_route(self, addr: &Address) -> (r: Result<LocalMessage, RouteError>)
        ensures
            self@.onward.len() > 0 ==> (r matches Ok(m)
                && m@.onward == seq![addr@] + self@.onward.subrange(1, self@.onward.len() as int)
                && m@.ret == self@.ret && m@.payload == self@.payload),
            self@.onward.len() == 0 ==> (r matches Err(e) && e == RouteError::IncompleteRoute),
    {
        if self.onward_route.is_empty() {
            return Err(RouteError::IncompleteRoute);
        }
        let onward = self.onward_route.modify().replace(addr.clone()).build();
        Ok(LocalMessage { onward_route: onward, return_route: self.return_route, payload: self.payload })
    }
}

/// An incoming-access-control predicate, evaluated against a message's
/// declared source before the message reaches a worker's mailbox.
pub enum IncomingAccessControl {
    /// Accept every message.
    AllowAll,
    /// Accept no message.
    DenyAll,
    /// Accept only messages declaring exactly this source.
    AllowSourceAddress(Address),
    /// Accept only messages whose declared source is a registered
    /// consumer of this flow.
    FlowControlIncoming(FlowControlId),
}

impl IncomingAccessControl {
    /// Whether a message with declared source `source` may come in.
    pub open spec fn spec_allows(&self, fc: &FlowControls, source: Option<AddressView>) -> bool {
        match self {
            IncomingAccessControl::AllowAll => true,
            IncomingAccessControl::DenyAll => false,
            IncomingAccessControl::AllowSourceAddress(a) => source == Some(a@),
            IncomingAccessControl::FlowControlIncoming(id) => match source {
                Some(s) => fc.consumer_registered(s, id@),
                None => false,
            },
        }
    }

    /// Evaluate this predicate against a declared source.
    pub fn is_authorized(&self, fc: &FlowControls, source: Option<&Address>) -> (r: bool)
        ensures
            r == self.spec_allows(fc, match source {
                Some(a) => Some(a@),
                None => None::<AddressView>,
            }),
    {
        match self {
            IncomingAccessControl::AllowAll => true,
            IncomingAccessControl::DenyAll => false,
            IncomingAccessControl::AllowSourceAddress(a) => match source {
                Some(s) => s == a,
                None => false,
            },
            IncomingAccessControl::FlowControlIncoming(id) => match source {
                Some(s) => fc.is_consumer(s, id),
                None => false,
            },
        }
    }
}

/// An outgoing-access-control predicate, evaluated against a message's
/// destination before a worker's send is handed on.
pub enum OutgoingAccessControl {
    /// Let every send pass.
    AllowAll,
    /// Let no send pass.
    DenyAll,
    /// Let only sends to exactly this address pass.
    AllowOnwardAddress(Address),
    /// Let only sends pass whose destination is a registered consumer of
    /// this flow (or of the spawner flow it descends from): this is what
    /// keeps a producer's output — say, a decryptor's plaintext — from
    /// reaching workers that never opted in.
    FlowControlOutgoing {
        flow_control_id: FlowControlId,
        spawner_flow_control_id: Option<FlowControlId>,
    },
}

impl OutgoingAccessControl {
    /// Whether a message heading to `destination` may go out.
    pub open spec fn spec_allows(&self, fc: &FlowControls, destination: Option<AddressView>) -> bool {
        match self {
            OutgoingAccessControl::AllowAll => true,
            OutgoingAccessControl::DenyAll => false,
            OutgoingAccessControl::AllowOnwardAddress(a) => destination == Some(a@),
            OutgoingAccessControl::FlowControlOutgoing { flow_control_id, spawner_flow_control_id } =>
                match destination {
                    Some(d) => fc.consumer_registered(d, flow_control_id@)
                        || (spawner_flow_control_id matches Some(s) && fc.consumer_registered(d, s@)),
                    None => false,
                },
        }
    }

    /// Evaluate this predicate against a destination.
    pub fn is_authorized(&self, fc: &FlowControls, destination: Option<&Address>) -> (r: bool)
        ensures
            r == self.spec_allows(fc, match destination {
                Some(a) => Some(a@),
                None => None::<AddressView>,
            }),
    {
        match self {
            OutgoingAccessControl::AllowAll => true,
            OutgoingAccessControl::DenyAll => false,
            OutgoingAccessControl::AllowOnwardAddress(a) => match destination {
                Some(d) => d == a,
                None => false,
            },
            OutgoingAccessControl::FlowControlOutgoing { flow_control_id, spawner_flow_control_id } =>
                match destination {
                    Some(d) => {
                        if fc.is_consumer(d, flow_control_id) {
                            true
                        } else {
                            match spawner_flow_control_id {
                                Some(s) => fc.is_consumer(d, s),
                                None => false,
                            }
                        }
                    },
                    None => false,
                },
        }
    }
}

/// One mailbox: an address with the two predicates guarding it.
pub struct Mailbox {
    address: Address,
    incoming: IncomingAccessControl,
    outgoing: OutgoingAccessControl,
}

/// Mathematical model of a [`Mailbox`].
pub struct MailboxView {
    pub address: AddressView,
    pub incoming: IncomingAccessControl,
    pub outgoing: OutgoingAccessControl,
}

impl View for Mailbox {
    type V = MailboxView;

    closed spec fn view(&self) -> MailboxView {
        MailboxView { address: self.address@, incoming: self.incoming, outgoing: self.outgoing }
    }
}

impl Mailbox {
    /// A mailbox at `address` guarded by the two given predicates.
    pub fn new(address: Address, incoming: IncomingAccessControl, outgoing: OutgoingAccessControl) -> (r: Self)
        ensures
            r@.address == address@,
            r@.incoming == incoming,
            r@.outgoing == outgoing,
    {
        Mailbox { address, incoming, outgoing }
    }

    /// The address this mailbox answers to.
    pub fn address(&self) -> (r: &Address)
        ensures
            r@ == self@.address,
    {
        &self.address
    }
}

/// The mailboxes of one worker: an externally visible primary one, plus
/// internal-only ones not reachable from arbitrary senders.
pub struct Mailboxes {
    primary: Mailbox,
    additional: Vec<Mailbox>,
}

impl Mailboxes {
    /// All mailboxes of the worker, primary first.
    pub closed spec fn all(&self) -> Seq<MailboxView> {
        seq![self.primary@] + Seq::new(self.additional@.len(), |i: int| self.additional@[i]@)
    }

    /// The first mailbox answering to `a`, if any.
    pub open spec fn mailbox_for(&self, a: AddressView) -> Option<MailboxView> {
        find_mailbox(self.all(), a)
    }

    /// The externally visible primary mailbox.
    pub fn primary_mailbox(&self) -> (r: &Mailbox)
        ensures
            r@ == self.all()[0],
    {
        &self.primary
    }

    /// A worker with the primary mailbox alone.
    pub fn primary(address: Address, incoming: IncomingAccessControl, outgoing: OutgoingAccessControl) -> (r: Self)
        ensures
            r.all() == seq![
                MailboxView { address: address@, incoming, outgoing },
            ],
    {
        let r = Mailboxes { primary: Mailbox::new(address, incoming, outgoing), additional: Vec::new() };
        proof {
            assert(r.all() =~= seq![r.primary@]);
        }
        r
    }

    /// A worker with a primary mailbox and further internal ones.
    pub fn new(primary: Mailbox, additional: Vec<Mailbox>) -> (r: Self)
        ensures
            r.all().len() == 1 + additional@.len(),
            r.all()[0] == primary@,
            forall|k: int| 0 <= k < additional@.len() ==> r.all()[k + 1] == (#[trigger] additional@[k])@,
    {
        let r = Mailboxes { primary, additional };
        proof {
            assert forall|k: int| 0 <= k < r.additional@.len()
                implies r.all()[k + 1] == r.additional@[k]@ by {
                assert(r.all()[k + 1] == Seq::new(r.additional@.len(), |i: int| r.additional@[i]@)[k]);
            }
        }
        r
    }
}

/// The first mailbox in `s` answering to `a`, if any.
pub open spec fn find_mailbox(s: Seq<MailboxView>, a: AddressView) -> Option<MailboxView>
    decreases s.len(),
{
    if s.len() == 0 {
        None
    } else if s[0].address == a {
        Some(s[0])
    } else {
        find_mailbox(s.drop_first(), a)
    }
}

/// A worker as the delivery gate sees it: its mailboxes and the messages
/// that reached it, in arrival order.
pub struct WorkerState {
    mailboxes: Mailboxes,
    received: Vec<LocalMessage>,
}

/// Mathematical model of a [`WorkerState`].
pub struct WorkerStateView {
    pub mailboxes: Seq<MailboxView>,
    pub received: Seq<LocalMessageView>,
}

impl View for WorkerState {
    type V = WorkerStateView;

    closed spec fn view(&self) -> WorkerStateView {
        WorkerStateView {
            mailboxes: self.mailboxes.all(),
            received: Seq::new(self.received@.len(), |i: int| self.received@[i]@),
        }
    }
}

impl WorkerState {
    /// A worker that has received nothing yet.
    pub fn new(mailboxes: Mailboxes) -> (r: Self)
        ensures
            r@.mailboxes == mailboxes.all(),
            r@.received == Seq::<LocalMessageView>::empty(),
    {
        let r = WorkerState { mailboxes, received: Vec::new() };
        proof {
            assert(r@.received =~= Seq::<LocalMessageView>::empty());
        }
        r
    }

    /// The messages that reached this worker, in arrival order.
    pub fn received_count(&self) -> (r: usize)
        ensures
            r == self@.received.len(),
    {
        self.received.len()
    }
}

/// Whether the delivery gate lets `msg` through to a worker with the
/// given mailboxes: the destination must name one of the worker's
/// mailboxes, and that mailbox's incoming predicate must accept the
/// message's declared source.
pub open spec fn delivery_allowed(fc: &FlowControls, mailboxes: Seq<MailboxView>, msg: LocalMessageView) -> bool {
    match msg.destination() {
        Some(d) => match find_mailbox(mailboxes, d) {
            Some(mb) => mb.incoming.spec_allows(fc, msg.source()),
            None => false,
        },
        None => false,
    }
}

/// Deliver `msg` into the worker's mailbox, under access control: a
/// message failing the check is dropped — it never reaches the worker,
/// whose state is unaffected.
pub fn deliver(fc: &FlowControls, worker: &mut WorkerState, msg: LocalMessage) -> (delivered: bool)
    ensures
        delivered == delivery_allowed(fc, old(worker)@.mailboxes, msg@),
        final(worker)@.mailboxes == old(worker)@.mailboxes,
        delivered ==> final(worker)@.received == old(worker)@.received.push(msg@),
        !delivered ==> final(worker)@ == old(worker)@,
{
    let dest = match msg.onward_route().next() {
        Ok(a) => a.clone(),
        Err(_) => {
            return false;
        },
    };
    let source: Option<Address> = match msg.return_route().next() {
        Ok(a) => Some(a.clone()),
        Err(_) => None,
    };
    let mailbox = match find_mailbox_exec(&worker.mailboxes, &dest) {
        Some(mb) => mb,
        None => {
            return false;
        },
    };
    let allowed = mailbox.incoming.is_authorized(fc, source.as_ref());
    if allowed {
        let ghost received0 = worker@.received;
        let ghost msgv = msg@;
        worker.received.push(msg);
        proof {
            assert(worker@.received =~= received0.push(msgv));
        }
        true
    } else {
        false
    }
}

/// Whether a worker's send clears both gates: its own mailbox's
/// outgoing predicate against the destination, then the receiving
/// worker's incoming predicate against the declared source.
pub open spec fn send_allowed(
    fc: &FlowControls,
    sender: MailboxView,
    destination_mailboxes: Seq<MailboxView>,
    msg: LocalMessageView,
) -> bool {
    sender.outgoing.spec_allows(fc, msg.destination())
        && delivery_allowed(fc, destination_mailboxes, msg)
}

/// Hand a worker's outgoing message on: the sending mailbox's outgoing
/// predicate rules first — a send it refuses never reaches the wire or
/// another worker — and delivery then applies the receiving side's own
/// incoming predicate.  Either refusal drops the message and leaves the
/// receiving worker untouched.
pub fn send(fc: &FlowControls, sender: &Mailbox, destination: &mut WorkerState, msg: LocalMessage) -> (sent: bool)
    ensures
        sent == send_allowed(fc, sender@, old(destination)@.mailboxes, msg@),
        final(destination)@.mailboxes == old(destination)@.mailboxes,
        sent ==> final(destination)@.received == old(destination)@.received.push(msg@),
        !sent ==> final(destination)@ == old(destination)@,
{
    let dest = match msg.onward_route().next() {
        Ok(a) => Some(a.clone()),
        Err(_) => None,
    };
    if !sender.outgoing.is_authorized(fc, dest.as_ref()) {
        return false;
    }
    deliver(fc, destination, msg)
}

fn find_mailbox_exec<'a>(mailboxes: &'a Mailboxes, a: &Address) -> (r: Option<&'a Mailbox>)
    ensures
        match r {
            Some(mb) => find_mailbox(mailboxes.all(), a@) == Some(mb@),
            None => find_mailbox(mailboxes.all(), a@) is None,
        },
{
    if mailboxes.primary.address() == a {
        proof {
            assert(mailboxes.all()[0] == mailboxes.primary@);
        }
        return Some(&mailboxes.primary);
    }
    let n = mailboxes.additional.len();
    let mut i: usize = 0;
    while i < n
        invariant
            0 <= i <= n,
            n == mailboxes.additional@.len(),
            mailboxes.all().len() == 1 + n,
            mailboxes.all()[0].address != a@,
            forall|k: int| 0 <= k < i ==> (#[trigger] mailboxes.all()[k + 1]).address != a@,
            forall|k: int| 0 <= k < n ==> mailboxes.all()[k + 1] == (#[trigger] mailboxes.additional@[k])@,
        decreases n - i,
    {
        if mailboxes.additional[i].address() == a {
            proof {
                lemma_find_mailbox_at(mailboxes.all(), a@, i + 1);
            }
            return Some(&mailboxes.additional[i]);
        }
        i += 1;
    }
    proof {
        lemma_find_mailbox_none(mailboxes.all(), a@);
    }
    None
}

proof fn lemma_find_mailbox_at(s: Seq<MailboxView>, a: AddressView, j: int)
    requires
        0 <= j < s.len(),
        s[j].address == a,
        forall|k: int| 0 <= k < j ==> (#[trigger] s[k]).address != a,
    ensures
        find_mailbox(s, a) == Some(s[j]),
    decreases s.len(),
{
    if j > 0 {
        let t = s.drop_first();
        assert(forall|k: int| 0 <= k < j - 1 ==> (#[trigger] t[k]) == s[k + 1]);
        lemma_find_mailbox_at(t, a, j - 1);
    }
}

proof fn lemma_find_mailbox_none(s: Seq<MailboxView>, a: AddressView)
    requires
        forall|k: int| 0 <= k < s.len() ==> (#[trigger] s[k]).address != a,
    ensures
        find_mailbox(s, a) is None,
    decreases s.len(),
{
    if s.len() > 0 {
        let t = s.drop_first();
        assert(forall|k: int| 0 <= k < t.len() ==> (#[trigger] t[k]) == s[k + 1]);
        lemma_find_mailbox_none(t, a);
    }
}

} // verus!
