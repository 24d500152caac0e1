//! Delayed events: sending a message to a destination after a delay,
//! with at most one send scheduled at a time.
//!
//! The sleeping and sending are the runner's work; what is decided here
//! — and proved — is the bookkeeping: scheduling hands back the handle
//! of any previously scheduled send so the runner can abort it first,
//! and cancelling leaves nothing outstanding.  Dropping the event's
//! owner is expected to cancel explicitly through the same handle.

use vstd::prelude::*;

use crate::address::Address;
use crate::address::AddressView;
use crate::mailbox::IncomingAccessControl;
use crate::mailbox::Mailboxes;
use crate::mailbox::OutgoingAccessControl;

verus! {

/// A delayed, repeatable message to one destination.  At most one send
/// is scheduled at any time; scheduling anew displaces the previous one.
pub struct DelayedEvent {
    address: Address,
    destination_addr: Address,
    msg: Vec<u8>,
    abort_handle: Option<u64>,
}

impl DelayedEvent {
    /// The address of the scheduled task outstanding, if any.
    pub closed spec fn spec_handle(&self) -> Option<u64> {
        self.abort_handle
    }

    /// The destination the message goes to.
    pub closed spec fn spec_destination(&self) -> AddressView {
        self.destination_addr@
    }

    /// The message sent on each firing.
    pub closed spec fn spec_msg(&self) -> Seq<u8> {
        self.msg@
    }

    /// The sending address this event uses.
    pub closed spec fn spec_address(&self) -> AddressView {
        self.address@
    }

    /// A delayed event aimed at `destination_addr`, with nothing
    /// scheduled yet.  It sends from a fresh address of its own, allowed
    /// to reach the destination alone.
    pub fn create(destination_addr: Address, msg: Vec<u8>) -> (r: Self)
        ensures
            r.spec_handle() is None,
            r.spec_destination() == destination_addr@,
            r.spec_msg() == msg@,
            r.spec_address().transport == crate::address::LOCAL,
    {
        DelayedEvent {
            address: Address::random_tagged("delayed_event"),
            destination_addr,
            msg,
            abort_handle: None,
        }
    }

    /// The address used to send the delayed messages.
    pub fn address(&self) -> (r: &Address)
        ensures
            r@ == self.spec_address(),
    {
        &self.address
    }

    /// The one mailbox this event sends from: it takes nothing in, and
    /// what goes out may reach the destination alone — the handle cannot
    /// be used to message any other address.
    pub fn mailboxes(&self) -> (r: Mailboxes)
        ensures
            r.all().len() == 1,
            r.all()[0].address == self.spec_address(),
            r.all()[0].incoming is DenyAll,
            r.all()[0].outgoing matches OutgoingAccessControl::AllowOnwardAddress(allowed)
                && allowed@ == self.spec_destination(),
    {
        Mailboxes::primary(
            self.address.clone(),
            IncomingAccessControl::DenyAll,
            OutgoingAccessControl::AllowOnwardAddress(self.destination_addr.clone()),
        )
    }

    /// Cancel whatever is scheduled: hands the runner the handle to
    /// abort, if one was outstanding, and leaves nothing scheduled.
    pub fn cancel(&mut self) -> (r: Option<u64>)
        ensures
            r == old(self).spec_handle(),
            final(self).spec_handle() is None,
            final(self).spec_destination() == old(self).spec_destination(),
            final(self).spec_msg() == old(self).spec_msg(),
            final(self).spec_address() == old(self).spec_address(),
    {
        self.abort_handle.take()
    }

    /// Schedule one send under the fresh task handle `token`: any send
    /// already scheduled is handed back to be aborted first, so that at
    /// most one is ever outstanding.
    pub fn schedule(&mut self, token: u64) -> (r: Option<u64>)
        ensures
            r == old(self).spec_handle(),
            final(self).spec_handle() == Some(token),
            final(self).spec_destination() == old(self).spec_destination(),
            final(self).spec_msg() == old(self).spec_msg(),
            final(self).spec_address() == old(self).spec_address(),
    {
        let previous = self.abort_handle.take();
        self.abort_handle = Some(token);
        previous
    }
}

} // verus!
