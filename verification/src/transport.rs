//! The stream-transport wire frame and the sending worker's decisions.
//!
//! A connection starts with one protocol-version byte; after that, each
//! message travels as a four-byte big-endian length prefix followed by
//! that many bytes of encoded payload.  A payload too long for the frame
//! is a fatal send-time error, caught before anything is written.

use vstd::prelude::*;

use crate::address::Address;
use crate::address::AddressView;
use crate::bare::starts_with;
use crate::mailbox::IncomingAccessControl;
use crate::mailbox::LocalMessage;
use crate::mailbox::Mailbox;
use crate::mailbox::Mailboxes;
use crate::mailbox::MailboxView;
use crate::mailbox::OutgoingAccessControl;
use crate::route::RouteError;

verus! {

/// The version byte sent once per connection.
pub const PROTOCOL_VERSION: u8 = 1;

/// The largest payload a frame may carry.
pub const MAX_MESSAGE_SIZE: usize = 64 * 1024 * 1024;

/// Failure to put a message on the wire.
#[derive(Clone, Copy, Debug, PartialEq, Eq, Structural)]
pub enum TransportError {
    /// The message could not be encoded.
    Encoding,
    /// The encoded message exceeds what a frame may carry.
    MessageLengthExceeded,
}

/// The four bytes of `n`, most significant first.
pub open spec fn u32_be_bytes(n: u32) -> Seq<u8> {
    seq![
        ((n >> 24) & 0xff) as u8,
        ((n >> 16) & 0xff) as u8,
        ((n >> 8) & 0xff) as u8,
        (n & 0xff) as u8,
    ]
}

/// The frame of a payload: its length, then its bytes.
pub open spec fn frame_bytes(payload: Seq<u8>) -> Seq<u8> {
    u32_be_bytes(payload.len() as u32) + payload
}

fn u32_be_bytes_exec(n: u32) -> (r: Vec<u8>)
    ensures
        r@ == u32_be_bytes(n),
{
    proof {
        assert((n >> 24) & 0xff <= 0xff && (n >> 16) & 0xff <= 0xff
            && (n >> 8) & 0xff <= 0xff && n & 0xff <= 0xff) by (bit_vector);
    }
    let mut out: Vec<u8> = Vec::new();
    out.push(((n >> 24) & 0xff) as u8);
    out.push(((n >> 16) & 0xff) as u8);
    out.push(((n >> 8) & 0xff) as u8);
    out.push((n & 0xff) as u8);
    proof {
        assert(out@ =~= u32_be_bytes(n));
    }
    out
}

/// Put one encoded payload in a frame: its four-byte big-endian length,
/// then its bytes.  A payload over [`MAX_MESSAGE_SIZE`] is a fatal
/// send-time error and nothing is framed.
pub fn frame_payload(payload: &Vec<u8>) -> (r: Result<Vec<u8>, TransportError>)
    ensures
        payload@.len() <= MAX_MESSAGE_SIZE ==> (r matches Ok(buf) && buf@ == frame_bytes(payload@)),
        payload@.len() > MAX_MESSAGE_SIZE ==> r == Result::<Vec<u8>, TransportError>::Err(TransportError::MessageLengthExceeded),
{
    let len = payload.len();
    if len > MAX_MESSAGE_SIZE {
        return Err(TransportError::MessageLengthExceeded);
    }
    let mut out = u32_be_bytes_exec(len as u32);
    let n = payload.len();
    let mut i: usize = 0;
    while i < n
        invariant
            0 <= i <= n,
            n == payload@.len(),
            out@.len() == 4 + i,
            out@.subrange(0, 4) == u32_be_bytes(payload@.len() as u32),
            forall|k: int| 0 <= k < i ==> out@[k + 4] == payload@[k],
        decreases n - i,
    {
        let ghost before = out@;
        out.push(payload[i]);
        proof {
            assert(out@.subrange(0, 4) =~= before.subrange(0, 4));
        }
        i += 1;
    }
    proof {
        assert(out@ =~= frame_bytes(payload@));
    }
    Ok(out)
}

/// Read one frame from `data` at `index`, advancing the index past it:
/// framing a payload and reading the result back yields the payload,
/// whatever follows it; a buffer that ends inside the frame is rejected.
pub fn read_frame(data: &Vec<u8>, index: &mut usize) -> (r: Option<Vec<u8>>)
    requires
        *old(index) <= data@.len(),
    ensures
        r matches Some(p) ==> {
            &&& *old(index) + 4 + p@.len() == *final(index) <= data@.len()
            &&& data@.subrange(*old(index) as int, *final(index) as int) == frame_bytes(p@)
        },
        forall|p: Seq<u8>|
            starts_with(#[trigger] frame_bytes(p), data@.subrange(*old(index) as int, data@.len() as int))
                && p.len() <= u32::MAX
                ==> (r matches Some(out) && out@ == p),
    {
    let ghost i0 = *index;
    let ghost tail = data@.subrange(i0 as int, data@.len() as int);
    let dlen = data.len();
    if dlen - *index < 4 {
        proof {
            assert forall|p: Seq<u8>| !(starts_with(#[trigger] frame_bytes(p), tail) && p.len() <= u32::MAX) by {
                assert(frame_bytes(p).len() >= 4);
            }
        }
        return None;
    }
    let b0 = data[*index];
    let b1 = data[*index + 1];
    let b2 = data[*index + 2];
    let b3 = data[*index + 3];
    let n: u32 = ((b0 as u32) << 24) | ((b1 as u32) << 16) | ((b2 as u32) << 8) | (b3 as u32);
    proof {
        assert({
            &&& ((((b0 as u32) << 24) | ((b1 as u32) << 16) | ((b2 as u32) << 8) | (b3 as u32)) >> 24) & 0xff == b0 as u32
            &&& ((((b0 as u32) << 24) | ((b1 as u32) << 16) | ((b2 as u32) << 8) | (b3 as u32)) >> 16) & 0xff == b1 as u32
            &&& ((((b0 as u32) << 24) | ((b1 as u32) << 16) | ((b2 as u32) << 8) | (b3 as u32)) >> 8) & 0xff == b2 as u32
            &&& (((b0 as u32) << 24) | ((b1 as u32) << 16) | ((b2 as u32) << 8) | (b3 as u32)) & 0xff == b3 as u32
        }) by (bit_vector);
        assert(((n >> 24) & 0xff) as u8 == b0);
        assert(((n >> 16) & 0xff) as u8 == b1);
        assert(((n >> 8) & 0xff) as u8 == b2);
        assert((n & 0xff) as u8 == b3);
        assert(u32_be_bytes(n) =~= seq![b0, b1, b2, b3]);
        assert(tail[0] == b0 && tail[1] == b1 && tail[2] == b2 && tail[3] == b3);
    }
    if n as u64 > (usize::MAX as u64) || (n as usize) > dlen - (*index + 4) {
        proof {
            assert forall|p: Seq<u8>| !(starts_with(#[trigger] frame_bytes(p), tail) && p.len() <= u32::MAX) by {
                if starts_with(frame_bytes(p), tail) && p.len() <= u32::MAX {
                    lemma_frame_length(p, tail);
                    assert(u32_be_bytes(p.len() as u32) =~= seq![tail[0], tail[1], tail[2], tail[3]]);
                    lemma_u32_be_injective(p.len() as u32, n);
                }
            }
        }
        return None;
    }
    let start = *index + 4;
    let len = n as usize;
    let mut out: Vec<u8> = Vec::new();
    let mut i: usize = 0;
    while i < len
        invariant
            0 <= i <= len,
            start + len <= dlen,
            dlen == data@.len(),
            out@.len() == i,
            forall|k: int| 0 <= k < i ==> out@[k] == data@[start + k],
        decreases len - i,
    {
        out.push(data[start + i]);
        i += 1;
    }
    *index = start + len;
    proof {
        assert(out@ =~= data@.subrange(start as int, (start + len) as int));
        assert(data@.subrange(i0 as int, *index as int) =~= frame_bytes(out@));
        assert forall|p: Seq<u8>|
            starts_with(#[trigger] frame_bytes(p), tail) && p.len() <= u32::MAX
                implies out@ == p by {
            lemma_frame_length(p, tail);
            assert(u32_be_bytes(p.len() as u32) =~= seq![tail[0], tail[1], tail[2], tail[3]]);
            lemma_u32_be_injective(p.len() as u32, n);
            assert(p.len() == len);
            assert forall|k: int| 0 <= k < p.len() implies p[k] == out@[k] by {
                assert(frame_bytes(p)[k + 4] == p[k]);
                assert(tail.subrange(0, frame_bytes(p).len() as int)[k + 4] == tail[k + 4]);
            }
            assert(out@ =~= p);
        }
    }
    Some(out)
}

proof fn lemma_frame_length(p: Seq<u8>, tail: Seq<u8>)
    requires
        starts_with(frame_bytes(p), tail),
    ensures
        tail.len() >= 4 + p.len(),
        u32_be_bytes(p.len() as u32) == seq![tail[0], tail[1], tail[2], tail[3]],
{
    let f = frame_bytes(p);
    assert(f.len() == 4 + p.len());
    assert forall|y: int| 0 <= y < f.len() implies tail[y] == f[y] by {
        assert(tail.subrange(0, f.len() as int)[y] == tail[y]);
    }
    assert(u32_be_bytes(p.len() as u32) =~= seq![tail[0], tail[1], tail[2], tail[3]]);
}

proof fn lemma_u32_be_injective(a: u32, b: u32)
    requires
        u32_be_bytes(a) == u32_be_bytes(b),
    ensures
        a == b,
{
    assert(u32_be_bytes(a)[0] == u32_be_bytes(b)[0]);
    assert(u32_be_bytes(a)[1] == u32_be_bytes(b)[1]);
    assert(u32_be_bytes(a)[2] == u32_be_bytes(b)[2]);
    assert(u32_be_bytes(a)[3] == u32_be_bytes(b)[3]);
    assert((((a >> 24) & 0xff) as u8 == ((b >> 24) & 0xff) as u8
        && ((a >> 16) & 0xff) as u8 == ((b >> 16) & 0xff) as u8
        && ((a >> 8) & 0xff) as u8 == ((b >> 8) & 0xff) as u8
        && (a & 0xff) as u8 == (b & 0xff) as u8) ==> a == b) by (bit_vector);
}

/// The message a receiving half sends to its sending half when the
/// connection closed under them.
#[derive(Clone, Copy, Debug, PartialEq, Eq, Structural)]
pub enum TcpSendWorkerMsg {
    ConnectionClosed,
}

/// What the sending worker asks its runner to do with one message.
pub enum SenderDirective {
    /// Stop this worker; the connection is gone.
    Stop,
    /// Write these bytes to the stream.
    Write(Vec<u8>),
}

/// The decision half of a TCP sending worker: which bytes go out for
/// each message handed to it, and when it stops instead.
pub struct TcpSendWorker {
    sender_address: Address,
    sender_internal_address: Address,
    receiver_address: Address,
    receiver_internal_address: Address,
    rx_should_be_stopped: bool,
}

impl TcpSendWorker {
    /// The externally visible address of this worker.
    pub closed spec fn spec_sender_address(&self) -> AddressView {
        self.sender_address@
    }

    /// The internal companion address, reachable only from the receiver.
    pub closed spec fn spec_internal_address(&self) -> AddressView {
        self.sender_internal_address@
    }

    /// Whether shutdown must also stop the receiving half.
    pub closed spec fn spec_rx_should_be_stopped(&self) -> bool {
        self.rx_should_be_stopped
    }

    /// The address of the receiving half's internal mailbox.
    pub closed spec fn spec_receiver_internal_address(&self) -> AddressView {
        self.receiver_internal_address@
    }

    /// A sending worker for a fresh connection: until told otherwise, it
    /// tears the receiving half down with itself.
    pub fn new(
        sender_address: Address,
        sender_internal_address: Address,
        receiver_address: Address,
        receiver_internal_address: Address,
    ) -> (r: Self)
        ensures
            r.spec_sender_address() == sender_address@,
            r.spec_internal_address() == sender_internal_address@,
            r.spec_receiver_internal_address() == receiver_internal_address@,
            r.spec_rx_should_be_stopped(),
    {
        TcpSendWorker {
            sender_address,
            sender_internal_address,
            receiver_address,
            receiver_internal_address,
            rx_should_be_stopped: true,
        }
    }

    /// The mailboxes this worker starts with: the externally visible one
    /// takes messages from anyone and sends nothing on through the node,
    /// and the internal one answers only to the receiving half's own
    /// internal address.
    pub fn mailboxes(&self) -> (r: Mailboxes)
        ensures
            r.all().len() == 2,
            r.all()[0] == (MailboxView {
                address: self.spec_sender_address(),
                incoming: IncomingAccessControl::AllowAll,
                outgoing: OutgoingAccessControl::DenyAll,
            }),
            r.all()[1].address == self.spec_internal_address(),
            r.all()[1].incoming matches IncomingAccessControl::AllowSourceAddress(allowed)
                && allowed@ == self.spec_receiver_internal_address(),
            r.all()[1].outgoing is DenyAll,
    {
        let main_mailbox = Mailbox::new(
            self.sender_address.clone(),
            IncomingAccessControl::AllowAll,
            OutgoingAccessControl::DenyAll,
        );
        let internal_mailbox = Mailbox::new(
            self.sender_internal_address.clone(),
            IncomingAccessControl::AllowSourceAddress(self.receiver_internal_address.clone()),
            OutgoingAccessControl::DenyAll,
        );
        let mut additional: Vec<Mailbox> = Vec::new();
        additional.push(internal_mailbox);
        let ghost am = additional@;
        let r = Mailboxes::new(main_mailbox, additional);
        proof {
            assert(r.all()[1] == am[0]@);
        }
        r
    }

    /// The one byte that opens every connection.
    pub fn protocol_version_frame() -> (r: Vec<u8>)
        ensures
            r@ == seq![PROTOCOL_VERSION],
    {
        let mut out: Vec<u8> = Vec::new();
        out.push(PROTOCOL_VERSION);
        proof {
            assert(out@ =~= seq![PROTOCOL_VERSION]);
        }
        out
    }

    /// The receiver told this worker the connection closed: stop, and do
    /// not stop the receiver back — it is stopping itself.
    pub fn on_connection_closed(&mut self) -> (r: SenderDirective)
        ensures
            !final(self).spec_rx_should_be_stopped(),
            final(self).spec_sender_address() == old(self).spec_sender_address(),
            final(self).spec_internal_address() == old(self).spec_internal_address(),
            r is Stop,
    {
        self.rx_should_be_stopped = false;
        SenderDirective::Stop
    }

    /// Decide one outgoing message: drop this worker's own hop from the
    /// onward route, then frame the encoded payload for the stream.  A
    /// message with an exhausted route cannot be sent; an oversized one
    /// is a fatal framing error.
    pub fn prepare_outgoing(&self, msg: LocalMessage, encoded_payload: &Vec<u8>) -> (r: Result<(LocalMessage, Vec<u8>), TransportError>)
        ensures
            msg@.onward.len() == 0 ==> r == Result::<(LocalMessage, Vec<u8>), TransportError>::Err(TransportError::Encoding),
            msg@.onward.len() > 0 && encoded_payload@.len() > MAX_MESSAGE_SIZE
                ==> r == Result::<(LocalMessage, Vec<u8>), TransportError>::Err(TransportError::MessageLengthExceeded),
            msg@.onward.len() > 0 && encoded_payload@.len() <= MAX_MESSAGE_SIZE
                ==> (r matches Ok((m, buf))
                    && m@.onward == msg@.onward.subrange(1, msg@.onward.len() as int)
                    && m@.ret == msg@.ret
                    && m@.payload == msg@.payload
                    && buf@ == frame_bytes(encoded_payload@)),
    {
        let popped = match msg.pop_front_onward_route() {
            Ok(m) => m,
            Err(_) => {
                return Err(TransportError::Encoding);
            },
        };
        let framed = match frame_payload(encoded_payload) {
            Ok(buf) => buf,
            Err(e) => {
                return Err(e);
            },
        };
        Ok((popped, framed))
    }

    /// On shutdown, whether the receiving half must be stopped too.
    pub fn shutdown_stops_receiver(&self) -> (r: bool)
        ensures
            r == self.spec_rx_should_be_stopped(),
    {
        self.rx_should_be_stopped
    }
}

} // verus!
