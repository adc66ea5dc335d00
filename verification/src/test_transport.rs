//! A simulated network on which endpoints exchange packets through in-memory
//! channels.

use crate::addr::{
    endpoint_id_is_its_bytes, key_of, EndpointId, ENDPOINT_ID_LEN,
};
use crate::flat::flat;
use bytes::Bytes;
use std::task::Context;
use tokio::sync::mpsc::{Receiver, Sender};
use vstd::prelude::*;

verus! {

/// The transport ID of the simulated network.
pub const TEST_TRANSPORT_ID: u64 = 0x20;

/// How many packets wait for an endpoint at most.
pub const CHANNEL_CAPACITY: usize = 256;

/// A shared sequence of bytes.
#[verifier::external_type_specification]
#[verifier::external_body]
pub struct ExBytes(bytes::Bytes);

/// What a sequence of bytes holds.
pub uninterp spec fn contents(b: bytes::Bytes) -> Seq<u8>;

/// `Bytes::copy_from_slice`: holds the bytes of the slice.
#[verifier::external_body]
fn bytes_copy(data: &[u8]) -> (r: Bytes)
    ensures
        contents(r) == data@,
{
    Bytes::copy_from_slice(data)
}

/// `Bytes::as_ref`: the bytes that are held.
#[verifier::external_body]
fn bytes_slice(b: &Bytes) -> (r: &[u8])
    ensures
        r@ == contents(*b),
{
    b.as_ref()
}

/// The sending end of a bounded channel.
#[verifier::external_type_specification]
#[verifier::external_body]
#[verifier::reject_recursive_types(T)]
pub struct ExSender<T>(tokio::sync::mpsc::Sender<T>);

/// The receiving end of a bounded channel.
#[verifier::external_type_specification]
#[verifier::external_body]
#[verifier::reject_recursive_types(T)]
pub struct ExReceiver<T>(tokio::sync::mpsc::Receiver<T>);

/// What a task is polled with.
#[verifier::external_type_specification]
#[verifier::external_body]
pub struct ExContext<'a>(std::task::Context<'a>);

/// An address of a custom transport: the ID of the transport, and what it
/// makes of the address.
#[derive(Debug)]
pub struct CustomAddr {
    pub id: u64,
    pub data: Vec<u8>,
}

/// The mathematical value of a [`CustomAddr`].
pub struct CustomAddrView {
    pub id: u64,
    pub data: Seq<u8>,
}

impl View for CustomAddr {
    type V = CustomAddrView;

    open spec fn view(&self) -> CustomAddrView {
        CustomAddrView { id: self.id, data: self.data@ }
    }
}

/// The address of an endpoint on the simulated network.
pub open spec fn custom_addr(endpoint: EndpointId) -> CustomAddrView {
    CustomAddrView { id: TEST_TRANSPORT_ID, data: endpoint.bytes() }
}

/// Converts an endpoint ID to a custom address for this test transport.
///
/// The address leads back to the endpoint.
pub fn to_custom_addr(endpoint: EndpointId) -> (r: CustomAddr)
    ensures
        r@ == custom_addr(endpoint),
        parsed(r@, key_of(r@.data)) == Ok::<EndpointId, TransportError>(endpoint),
{
    proof {
        endpoint_id_is_its_bytes(endpoint, endpoint);
    }
    CustomAddr { id: TEST_TRANSPORT_ID, data: endpoint.as_bytes() }
}

/// A packet on its way.
#[derive(Debug)]
pub struct Packet {
    pub data: Bytes,
    pub from: CustomAddr,
}

/// The mathematical value of a [`Packet`].
pub struct PacketView {
    pub data: Seq<u8>,
    pub from: CustomAddrView,
}

impl View for Packet {
    type V = PacketView;

    open spec fn view(&self) -> PacketView {
        PacketView { data: contents(self.data), from: self.from@ }
    }
}

/// The values of packets.
pub open spec fn views(packets: Seq<Packet>) -> Seq<PacketView> {
    packets.map_values(|p: Packet| p@)
}

/// The packets that wait in a channel, in the order in which they were sent.
pub uninterp spec fn queued(rx: tokio::sync::mpsc::Receiver<Packet>) -> Seq<PacketView>;

/// How many packets can wait in the channel of which these are the two ends.
/// It is zero for ends of different channels or of a closed one.
pub uninterp spec fn room(
    tx: tokio::sync::mpsc::Sender<Packet>,
    rx: tokio::sync::mpsc::Receiver<Packet>,
) -> usize;

/// `tokio::sync::mpsc::channel`: an empty channel in which `capacity` packets
/// can wait. The function panics on a capacity of zero, and on one that is
/// larger than an eighth of what a `usize` can count.
#[verifier::external_body]
fn channel(capacity: usize) -> (r: (Sender<Packet>, Receiver<Packet>))
    requires
        0 < capacity <= CHANNEL_CAPACITY,
    ensures
        queued(r.1).len() == 0,
        room(r.0, r.1) == capacity,
{
    tokio::sync::mpsc::channel(capacity)
}

/// What came of sending a packet into a channel.
#[derive(Debug, Clone, Copy, PartialEq, Eq, Structural)]
pub enum TrySend {
    /// The packet waits in the channel.
    Sent,
    /// The channel was full and the packet dropped.
    Full,
    /// The channel was closed.
    Closed,
}

/// `Sender::try_send`, on a channel that nobody else uses meanwhile: the
/// packet is queued if there is room, and nothing is queued otherwise.
#[verifier::external_body]
fn try_send(tx: &Sender<Packet>, rx: &mut Receiver<Packet>, packet: Packet) -> (r: TrySend)
    requires
        room(*tx, *old(rx)) > 0,
    ensures
        room(*tx, *final(rx)) == room(*tx, *old(rx)),
        if queued(*old(rx)).len() < room(*tx, *old(rx)) {
            r == TrySend::Sent && queued(*final(rx)) == queued(*old(rx)).push(packet@)
        } else {
            r == TrySend::Full && queued(*final(rx)) == queued(*old(rx))
        },
{
    match tx.try_send(packet) {
        Ok(()) => TrySend::Sent,
        Err(tokio::sync::mpsc::error::TrySendError::Full(_)) => TrySend::Full,
        Err(tokio::sync::mpsc::error::TrySendError::Closed(_)) => TrySend::Closed,
    }
}

/// How many of the packets in a queue are taken out at once.
pub open spec fn batch(queue: Seq<PacketView>, limit: nat) -> int {
    if queue.len() < limit {
        queue.len() as int
    } else {
        limit as int
    }
}

/// `Receiver::poll_recv_many`, on an open channel that nobody else uses
/// meanwhile: takes out the packets that have waited longest, as many as
/// there are up to the limit. `None` stands for pending, which takes out
/// nothing; it can come although packets wait.
#[verifier::external_body]
fn poll_recv_many(
    tx: &Sender<Packet>,
    rx: &mut Receiver<Packet>,
    cx: &mut Context<'_>,
    limit: usize,
) -> (r: Option<Vec<Packet>>)
    requires
        room(*tx, *old(rx)) > 0,
        limit > 0,
    ensures
        room(*tx, *final(rx)) == room(*tx, *old(rx)),
        match r {
            Some(packets) => {
                &&& packets@.len() > 0
                &&& views(packets@) == queued(*old(rx)).take(batch(queued(*old(rx)), limit as nat))
                &&& queued(*final(rx)) == queued(*old(rx)).skip(batch(queued(*old(rx)), limit as nat))
            },
            None => queued(*final(rx)) == queued(*old(rx)),
        },
{
    let mut packets = Vec::new();
    match rx.poll_recv_many(cx, &mut packets, limit) {
        std::task::Poll::Ready(_) => Some(packets),
        std::task::Poll::Pending => None,
    }
}

/// Why something could not be sent or received, or a transport not created.
#[derive(Debug, Clone, Copy, PartialEq, Eq, Structural)]
pub enum TransportError {
    /// An endpoint of that ID is on the network already.
    AlreadyExists,
    /// The address belongs to another transport.
    UnexpectedTransportId,
    /// The address does not have the length of a key.
    WrongKeyLength,
    /// The address is no public key.
    KeyParse,
    /// No endpoint of that address is on the network.
    UnknownEndpoint,
    /// The channel to the endpoint is closed.
    ChannelClosed,
}

impl TransportError {
    /// What the error says.
    pub open spec fn text(self) -> Seq<char> {
        match self {
            TransportError::AlreadyExists => "endpoint ID already exists in network"@,
            TransportError::UnexpectedTransportId => "unexpected transport id"@,
            TransportError::WrongKeyLength => "wrong key length"@,
            TransportError::KeyParse => "KeyParseError"@,
            TransportError::UnknownEndpoint => "Unknown endpoint"@,
            TransportError::ChannelClosed => "channel closed"@,
        }
    }

    /// Returns what the error says.
    pub fn message(&self) -> (r: &'static str)
        ensures
            r@ == self.text(),
    {
        match self {
            TransportError::AlreadyExists => "endpoint ID already exists in network",
            TransportError::UnexpectedTransportId => "unexpected transport id",
            TransportError::WrongKeyLength => "wrong key length",
            TransportError::KeyParse => "KeyParseError",
            TransportError::UnknownEndpoint => "Unknown endpoint",
            TransportError::ChannelClosed => "channel closed",
        }
    }
}

/// The endpoint that an address leads to, given the identity that its bytes
/// encode, if they encode one.
pub open spec fn parsed(addr: CustomAddrView, key: Option<EndpointId>) -> Result<
    EndpointId,
    TransportError,
> {
    if addr.id != TEST_TRANSPORT_ID {
        Err(TransportError::UnexpectedTransportId)
    } else if addr.data.len() != ENDPOINT_ID_LEN {
        Err(TransportError::WrongKeyLength)
    } else {
        match key {
            Some(id) => Ok(id),
            None => Err(TransportError::KeyParse),
        }
    }
}

/// Finds the endpoint that an address leads to, given the identity that its
/// bytes encode, if they encode one.
pub fn parse_checked_custom_addr(addr: &CustomAddr, key: Option<EndpointId>) -> (r: Result<
    EndpointId,
    TransportError,
>)
    ensures
        r == parsed(addr@, key),
{
    if addr.id != TEST_TRANSPORT_ID {
        return Err(TransportError::UnexpectedTransportId);
    }
    if addr.data.len() != ENDPOINT_ID_LEN {
        return Err(TransportError::WrongKeyLength);
    }
    match key {
        Some(id) => Ok(id),
        None => Err(TransportError::KeyParse),
    }
}

/// Finds the endpoint that an address leads to.
pub fn try_parse_custom_addr(addr: &CustomAddr) -> (r: Result<EndpointId, TransportError>)
    ensures
        r == parsed(addr@, key_of(addr@.data)),
{
    parse_checked_custom_addr(addr, EndpointId::from_bytes(addr.data.as_slice()))
}

/// The pieces of `n` bytes, and what is left in the end, of which `s` is made
/// up.
pub open spec fn chunks(s: Seq<u8>, n: nat) -> Seq<Seq<u8>>
    decreases s.len(),
{
    if s.len() == 0 || n == 0 {
        Seq::empty()
    } else if s.len() <= n {
        seq![s]
    } else {
        seq![s.take(n as int)] + chunks(s.skip(n as int), n)
    }
}

/// What is to be transmitted.
pub struct Transmit {
    pub contents: Vec<u8>,
    /// The length of the segments, if there are several.
    pub segment_size: Option<usize>,
}

impl Transmit {
    /// The length of the segments, the last of which may be shorter.
    pub open spec fn segment(&self) -> usize {
        match self.segment_size {
            Some(n) => n,
            None => self.contents@.len() as usize,
        }
    }
}

/// The packets that carry pieces of data from an endpoint.
pub open spec fn packets_of(pieces: Seq<Seq<u8>>, from: EndpointId) -> Seq<PacketView> {
    pieces.map_values(|data: Seq<u8>| PacketView { data, from: custom_addr(from) })
}

/// Sends packets of one endpoint.
#[derive(Debug, Clone, Copy)]
pub struct TestSender {
    pub id: EndpointId,
}

impl TestSender {
    /// Returns `true` for an address on this transport.
    pub fn is_valid_send_addr(&self, addr: &CustomAddr) -> (r: bool)
        ensures
            r == (addr@.id == TEST_TRANSPORT_ID),
    {
        addr.id == TEST_TRANSPORT_ID
    }

    /// Splits what is to be transmitted into packets, one for each segment.
    pub fn split(&self, transmit: &Transmit) -> (r: Vec<Packet>)
        requires
            transmit.segment() > 0,
        ensures
            views(r@) == packets_of(
                chunks(transmit.contents@, transmit.segment() as nat),
                self.id,
            ),
    {
        let n = match transmit.segment_size {
            Some(n) => n,
            None => transmit.contents.len(),
        };
        let all = transmit.contents.as_slice();
        let mut r: Vec<Packet> = Vec::new();
        let mut pos: usize = 0;
        let ghost total = chunks(all@, n as nat);
        assert(all@.skip(0) =~= all@);
        assert(packets_of(total, self.id) =~= views(r@) + packets_of(total, self.id));
        while pos < all.len()
            invariant
                pos <= all@.len(),
                n > 0,
                packets_of(total, self.id) == views(r@) + packets_of(
                    chunks(all@.skip(pos as int), n as nat),
                    self.id,
                ),
            decreases all@.len() - pos,
        {
            let ghost rest = all@.skip(pos as int);
            let ghost before = views(r@);
            let end = if all.len() - pos <= n {
                all.len()
            } else {
                pos + n
            };
            let piece = vstd::slice::slice_subrange(all, pos, end);
            r.push(Packet { data: bytes_copy(piece), from: to_custom_addr(self.id) });
            proof {
                let p = PacketView { data: piece@, from: custom_addr(self.id) };
                assert(views(r@) =~= before.push(p));
                if rest.len() <= n {
                    assert(piece@ =~= rest);
                    assert(packets_of(chunks(rest, n as nat), self.id) =~= seq![p]);
                    assert(all@.skip(end as int) =~= Seq::empty());
                } else {
                    assert(piece@ =~= rest.take(n as int));
                    assert(rest.skip(n as int) =~= all@.skip(end as int));
                    assert(packets_of(chunks(rest, n as nat), self.id) =~= seq![p] + packets_of(
                        chunks(all@.skip(end as int), n as nat),
                        self.id,
                    ));
                }
                assert(packets_of(total, self.id) =~= views(r@) + packets_of(
                    chunks(all@.skip(end as int), n as nat),
                    self.id,
                ));
            }
            pos = end;
        }
        assert(packets_of(chunks(all@.skip(pos as int), n as nat), self.id) =~= Seq::empty());
        assert(views(r@) =~= packets_of(total, self.id));
        r
    }
}

/// The channel to an endpoint.
struct Link {
    id: EndpointId,
    tx: Sender<Packet>,
    rx: Receiver<Packet>,
}

/// A simulated network for testing custom transports.
///
/// This allows creating multiple [`TestTransport`] instances that can
/// communicate with each other through in-memory channels.
pub struct TestNetwork {
    links: Vec<Link>,
    /// When `true`, all packets are silently dropped.
    blackhole: bool,
}

/// The mathematical value of a [`TestNetwork`]: which packets wait for each
/// endpoint on it, and whether packets are dropped.
#[verifier::ext_equal]
pub struct NetworkView {
    pub queues: Map<EndpointId, Seq<PacketView>>,
    pub blackhole: bool,
}

/// Whether a link is the one to an endpoint.
spec fn leads_to(links: Seq<Link>, i: int, id: EndpointId) -> bool {
    0 <= i < links.len() && links[i].id == id
}

impl View for TestNetwork {
    type V = NetworkView;

    closed spec fn view(&self) -> NetworkView {
        NetworkView {
            queues: Map::new(
                |id: EndpointId| exists|i: int| leads_to(self.links@, i, id),
                |id: EndpointId|
                    {
                        let i = choose|i: int| leads_to(self.links@, i, id);
                        queued(self.links@[i].rx)
                    },
            ),
            blackhole: self.blackhole,
        }
    }
}

/// The queue of an endpoint after packets were sent to it: what finds no room
/// is dropped.
pub open spec fn delivered(queue: Seq<PacketView>, packets: Seq<PacketView>) -> Seq<PacketView> {
    if queue.len() + packets.len() <= CHANNEL_CAPACITY {
        queue + packets
    } else {
        queue + packets.take(CHANNEL_CAPACITY - queue.len())
    }
}

impl NetworkView {
    /// The network that drops packets or does not.
    pub open spec fn with_blackhole(self, blackhole: bool) -> NetworkView {
        NetworkView { blackhole, ..self }
    }

    /// The network after packets were sent to an address, given the identity
    /// that it encodes, if any, and what the sender is told. While packets are
    /// dropped, the sender is told that all is well.
    pub open spec fn sent(
        self,
        dst: CustomAddrView,
        key: Option<EndpointId>,
        packets: Seq<PacketView>,
    ) -> (NetworkView, Result<(), TransportError>) {
        match parsed(dst, key) {
            Err(error) => (self, Err(error)),
            Ok(to) => if self.blackhole {
                (self, Ok(()))
            } else if !self.queues.contains_key(to) {
                (self, Err(TransportError::UnknownEndpoint))
            } else {
                (
                    NetworkView {
                        queues: self.queues.insert(to, delivered(self.queues[to], packets)),
                        ..self
                    },
                    Ok(()),
                )
            },
        }
    }
}

impl TestNetwork {
    /// Whether there is one channel to each endpoint, with both its ends.
    pub closed spec fn wf(&self) -> bool {
        &&& forall|i: int, j: int|
            0 <= i < j < self.links@.len() ==> self.links@[i].id != self.links@[j].id
        &&& forall|i: int|
            0 <= i < self.links@.len() ==> room(
                (#[trigger] self.links@[i]).tx,
                self.links@[i].rx,
            ) == CHANNEL_CAPACITY && queued(self.links@[i].rx).len() <= CHANNEL_CAPACITY
    }

    /// The queue of the endpoint of a link.
    proof fn queue_of(&self, i: int)
        requires
            self.wf(),
            0 <= i < self.links@.len(),
        ensures
            self@.queues.contains_key(self.links@[i].id),
            self@.queues[self.links@[i].id] == queued(self.links@[i].rx),
    {
        let id = self.links@[i].id;
        assert(leads_to(self.links@, i, id));
        let k = choose|k: int| leads_to(self.links@, k, id);
        assert(leads_to(self.links@, k, id));
        assert(k == i);
    }

    /// The network after one link changed its queue.
    proof fn one_queue_changed(before: &TestNetwork, after: &TestNetwork, i: int)
        requires
            before.wf(),
            after.wf(),
            0 <= i < before.links@.len(),
            after.links@.len() == before.links@.len(),
            after.blackhole == before.blackhole,
            after.links@[i].id == before.links@[i].id,
            forall|j: int| 0 <= j < before.links@.len() && j != i ==> after.links@[j]
                == before.links@[j],
        ensures
            after@ == (NetworkView {
                queues: before@.queues.insert(
                    before.links@[i].id,
                    queued(after.links@[i].rx),
                ),
                ..before@
            }),
    {
        let expected = before@.queues.insert(
            before.links@[i].id,
            queued(after.links@[i].rx),
        );
        assert forall|id: EndpointId|
            after@.queues.contains_key(id) <==> expected.contains_key(id) by {
            if after@.queues.contains_key(id) {
                let k = choose|k: int| leads_to(after.links@, k, id);
                assert(leads_to(before.links@, k, id));
            }
            if before@.queues.contains_key(id) {
                let k = choose|k: int| leads_to(before.links@, k, id);
                assert(leads_to(after.links@, k, id));
            }
            if id == before.links@[i].id {
                assert(leads_to(after.links@, i, id));
            }
        }
        assert forall|id: EndpointId| #[trigger] after@.queues.contains_key(id) implies after@.queues[id]
            == expected[id] by {
            let k = choose|k: int| leads_to(after.links@, k, id);
            assert(leads_to(after.links@, k, id));
            after.queue_of(k);
            before.queue_of(k);
        }
        assert(after@.queues =~= expected);
    }

    /// Creates a new empty test network.
    pub fn new() -> (r: Self)
        ensures
            r.wf(),
            r@ == (NetworkView { queues: Map::empty(), blackhole: false }),
    {
        let r = TestNetwork { links: Vec::new(), blackhole: false };
        assert forall|id: EndpointId| !r@.queues.contains_key(id) by {
            if r@.queues.contains_key(id) {
                let k = choose|k: int| leads_to(r.links@, k, id);
                assert(leads_to(r.links@, k, id));
            }
        }
        assert(r@.queues =~= Map::empty());
        r
    }

    /// Starts or stops dropping every packet carried by this test transport.
    ///
    /// While enabled, sends still report success but nothing is delivered,
    /// exactly like a network path that went dark.
    pub fn set_blackhole(&mut self, blackhole: bool)
        requires
            old(self).wf(),
        ensures
            final(self).wf(),
            final(self)@ == old(self)@.with_blackhole(blackhole),
    {
        self.blackhole = blackhole;
    }

    /// Finds the link to an endpoint.
    fn find(&self, id: EndpointId) -> (r: Option<usize>)
        requires
            self.wf(),
        ensures
            match r {
                Some(i) => i < self.links@.len() && self.links@[i as int].id == id
                    && self@.queues.contains_key(id),
                None => !self@.queues.contains_key(id) && forall|j: int|
                    0 <= j < self.links@.len() ==> self.links@[j].id != id,
            },
    {
        let n = self.links.len();
        let mut i: usize = 0;
        while i < n
            invariant
                i <= n == self.links@.len(),
                forall|j: int| 0 <= j < i ==> self.links@[j].id != id,
            decreases n - i,
        {
            if self.links[i].id == id {
                assert(leads_to(self.links@, i as int, id));
                return Some(i);
            }
            i += 1;
        }
        proof {
            if self@.queues.contains_key(id) {
                let k = choose|k: int| leads_to(self.links@, k, id);
                assert(leads_to(self.links@, k, id));
            }
        }
        None
    }

    /// Creates a new test transport for the given endpoint ID.
    ///
    /// Returns an error if the ID already exists in the network.
    pub fn create_transport(&mut self, id: EndpointId) -> (r: Result<TestTransport, TransportError>)
        requires
            old(self).wf(),
        ensures
            final(self).wf(),
            match r {
                Ok(transport) => {
                    &&& !old(self)@.queues.contains_key(id)
                    &&& final(self)@ == (NetworkView {
                        queues: old(self)@.queues.insert(id, Seq::empty()),
                        ..old(self)@
                    })
                    &&& transport.id == id
                    &&& transport.local_addr@ == custom_addr(id)
                },
                Err(error) => {
                    &&& old(self)@.queues.contains_key(id)
                    &&& final(self)@ == old(self)@
                    &&& error == TransportError::AlreadyExists
                },
            },
    {
        if self.find(id).is_some() {
            return Err(TransportError::AlreadyExists);
        }
        let (tx, rx) = channel(CHANNEL_CAPACITY);
        self.links.push(Link { id, tx, rx });
        proof {
            let n = old(self).links@.len() as int;
            assert(self.wf());
            let expected = old(self)@.queues.insert(id, Seq::empty());
            assert forall|e: EndpointId|
                self@.queues.contains_key(e) <==> expected.contains_key(e) by {
                if self@.queues.contains_key(e) {
                    let k = choose|k: int| leads_to(self.links@, k, e);
                    assert(leads_to(self.links@, k, e));
                    if k < n {
                        assert(leads_to(old(self).links@, k, e));
                    }
                }
                if old(self)@.queues.contains_key(e) {
                    let k = choose|k: int| leads_to(old(self).links@, k, e);
                    assert(leads_to(old(self).links@, k, e));
                    assert(leads_to(self.links@, k, e));
                }
                if e == id {
                    assert(leads_to(self.links@, n, e));
                }
            }
            assert forall|e: EndpointId| #[trigger]
                self@.queues.contains_key(e) implies self@.queues[e] == expected[e] by {
                let k = choose|k: int| leads_to(self.links@, k, e);
                assert(leads_to(self.links@, k, e));
                self.queue_of(k);
                if k < n {
                    old(self).queue_of(k);
                } else {
                    assert(queued(rx) =~= Seq::empty());
                }
            }
            assert(self@.queues =~= expected);
        }
        Ok(TestTransport { id, local_addr: to_custom_addr(id) })
    }

    /// Creates an address lookup service for this network.
    pub fn address_lookup(&self) -> (r: TestAddrLookup<'_>)
        ensures
            r.network == self,
    {
        TestAddrLookup { network: self }
    }

    /// Sends packets into the channel of a link. What finds no room is
    /// dropped.
    fn send_over(&mut self, i: usize, packets: Vec<Packet>) -> (r: Result<(), TransportError>)
        requires
            old(self).wf(),
            i < old(self).links@.len(),
        ensures
            final(self).wf(),
            r == Ok::<(), TransportError>(()),
            final(self)@ == (NetworkView {
                queues: old(self)@.queues.insert(
                    old(self).links@[i as int].id,
                    delivered(
                        old(self)@.queues[old(self).links@[i as int].id],
                        views(packets@),
                    ),
                ),
                ..old(self)@
            }),
    {
        let ghost queue = queued(self.links@[i as int].rx);
        let ghost all = views(packets@);
        let ghost mut done: int = 0;
        proof {
            self.queue_of(i as int);
            assert(all.skip(0) =~= all);
        }
        let mut packets = packets;
        while packets.len() > 0
            invariant
                0 <= done <= all.len(),
                views(packets@) == all.skip(done),
                self.wf(),
                i < self.links@.len(),
                self.links@.len() == old(self).links@.len(),
                self.blackhole == old(self).blackhole,
                self.links@[i as int].id == old(self).links@[i as int].id,
                forall|j: int| 0 <= j < self.links@.len() && j != i ==> self.links@[j] == old(
                    self,
                ).links@[j],
                queue.len() <= CHANNEL_CAPACITY,
                queued(self.links@[i as int].rx) == queue + all.take(
                    if queue.len() + done <= CHANNEL_CAPACITY {
                        done
                    } else {
                        CHANNEL_CAPACITY - queue.len()
                    },
                ),
            decreases packets@.len(),
        {
            let ghost waiting = packets@;
            assert(views(waiting).len() == all.len() - done);
            let packet = packets.remove(0);
            let link = &mut self.links[i];
            let outcome = try_send(&link.tx, &mut link.rx, packet);
            if outcome == TrySend::Closed {
                return Err(TransportError::ChannelClosed);
            }
            proof {
                let now = queued(self.links@[i as int].rx);
                assert(packets@ =~= waiting.skip(1));
                assert(views(waiting)[0] == packet@);
                assert forall|k: int| 0 <= k < packets@.len() implies views(packets@)[k]
                    == all.skip(done + 1)[k] by {
                    assert(views(waiting)[k + 1] == all.skip(done)[k + 1]);
                }
                assert(views(packets@) =~= all.skip(done + 1));
                if queue.len() + done < CHANNEL_CAPACITY {
                    assert(all.take(done + 1) =~= all.take(done).push(all[done]));
                    assert(now =~= queue + all.take(done + 1));
                }
                done = done + 1;
                assert(self.wf());
            }
        }
        proof {
            assert(done == all.len());
            assert(all.take(done) =~= all);
            let after = queued(self.links@[i as int].rx);
            assert(after =~= delivered(queue, all));
            Self::one_queue_changed(old(self), &*self, i as int);
        }
        Ok(())
    }
}

/// An endpoint's end of the simulated network.
#[derive(Debug)]
pub struct TestTransport {
    pub id: EndpointId,
    pub local_addr: CustomAddr,
}

/// The address that an endpoint was found to have.
#[derive(Debug)]
pub struct FoundAddr {
    pub endpoint_id: EndpointId,
    pub addr: CustomAddr,
    /// What found the address.
    pub provenance: &'static str,
}

/// Looks up the addresses of endpoints on the simulated network.
pub struct TestAddrLookup<'a> {
    pub network: &'a TestNetwork,
}

impl<'a> TestAddrLookup<'a> {
    /// Finds the address of an endpoint, if it is on the network.
    pub fn resolve(&self, endpoint_id: EndpointId) -> (r: Option<FoundAddr>)
        requires
            self.network.wf(),
        ensures
            match r {
                Some(found) => {
                    &&& self.network@.queues.contains_key(endpoint_id)
                    &&& found.endpoint_id == endpoint_id
                    &&& found.addr@ == custom_addr(endpoint_id)
                    &&& found.provenance@ == "test discovery"@
                },
                None => !self.network@.queues.contains_key(endpoint_id),
            },
    {
        if self.network.find(endpoint_id).is_some() {
            Some(
                FoundAddr {
                    endpoint_id,
                    addr: to_custom_addr(endpoint_id),
                    provenance: "test discovery",
                },
            )
        } else {
            None
        }
    }
}

impl TestSender {
    /// Sends packets to an address, given the identity that it encodes, if any.
    pub fn send_checked(
        &self,
        network: &mut TestNetwork,
        dst: &CustomAddr,
        key: Option<EndpointId>,
        packets: Vec<Packet>,
    ) -> (r: Result<(), TransportError>)
        requires
            old(network).wf(),
        ensures
            final(network).wf(),
            (final(network)@, r) == old(network)@.sent(dst@, key, views(packets@)),
    {
        let to = match parse_checked_custom_addr(dst, key) {
            Ok(to) => to,
            Err(error) => return Err(error),
        };
        if network.blackhole {
            return Ok(());
        }
        match network.find(to) {
            Some(i) => network.send_over(i, packets),
            None => Err(TransportError::UnknownEndpoint),
        }
    }

    /// Sends packets to an address.
    pub fn send_sync(&self, network: &mut TestNetwork, dst: &CustomAddr, packets: Vec<Packet>) -> (r:
        Result<(), TransportError>)
        requires
            old(network).wf(),
        ensures
            final(network).wf(),
            (final(network)@, r) == old(network)@.sent(
                dst@,
                key_of(dst@.data),
                views(packets@),
            ),
    {
        self.send_checked(network, dst, EndpointId::from_bytes(dst.data.as_slice()), packets)
    }

    /// Transmits to an address, in one packet for each segment.
    pub fn poll_send(&self, network: &mut TestNetwork, dst: &CustomAddr, transmit: &Transmit) -> (r:
        Result<(), TransportError>)
        requires
            old(network).wf(),
            transmit.segment() > 0,
        ensures
            final(network).wf(),
            (final(network)@, r) == old(network)@.sent(
                dst@,
                key_of(dst@.data),
                packets_of(chunks(transmit.contents@, transmit.segment() as nat), self.id),
            ),
    {
        let packets = self.split(transmit);
        self.send_sync(network, dst, packets)
    }
}

/// Room for a packet to be received in, and what is said about the packet.
#[derive(Debug)]
pub struct RecvSlot {
    pub buf: Vec<u8>,
    pub len: usize,
    pub stride: usize,
    pub from: Option<CustomAddr>,
    pub to: Option<CustomAddr>,
}

/// The mathematical value of a [`RecvSlot`].
pub struct SlotView {
    pub buf: Seq<u8>,
    pub len: usize,
    pub stride: usize,
    pub from: Option<CustomAddrView>,
    pub to: Option<CustomAddrView>,
}

/// The value of an address that may be missing.
pub open spec fn addr_of(addr: Option<CustomAddr>) -> Option<CustomAddrView> {
    match addr {
        Some(addr) => Some(addr@),
        None => None,
    }
}

impl View for RecvSlot {
    type V = SlotView;

    open spec fn view(&self) -> SlotView {
        SlotView {
            buf: self.buf@,
            len: self.len,
            stride: self.stride,
            from: addr_of(self.from),
            to: addr_of(self.to),
        }
    }
}

/// The values of slots.
pub open spec fn slot_views(slots: Seq<RecvSlot>) -> Seq<SlotView> {
    slots.map_values(|s: RecvSlot| s@)
}

/// A slot with a packet in it that endpoint `to` received.
pub open spec fn filled_slot(slot: SlotView, packet: PacketView, to: EndpointId) -> SlotView {
    SlotView {
        buf: packet.data + slot.buf.skip(packet.data.len() as int),
        len: packet.data.len() as usize,
        stride: packet.data.len() as usize,
        from: Some(packet.from),
        to: Some(custom_addr(to)),
    }
}

/// How many packets are received: those up to the first that does not fit into
/// its slot.
pub open spec fn fitting(packets: Seq<PacketView>, slots: Seq<SlotView>) -> nat
    decreases packets.len(),
{
    if packets.len() == 0 {
        0
    } else {
        let before = fitting(packets.drop_last(), slots);
        let last = packets.len() - 1;
        if before == last && packets[last].data.len() <= slots[last].buf.len() {
            packets.len()
        } else {
            before
        }
    }
}

/// The slots with the packets in them that fit.
pub open spec fn filled(packets: Seq<PacketView>, slots: Seq<SlotView>, to: EndpointId) -> Seq<
    SlotView,
> {
    Seq::new(
        slots.len(),
        |i: int|
            if i < fitting(packets, slots) {
                filled_slot(slots[i], packets[i], to)
            } else {
                slots[i]
            },
    )
}

/// No more packets fit than there are, and none after one that does not.
proof fn fitting_is_prefix(packets: Seq<PacketView>, slots: Seq<SlotView>)
    ensures
        fitting(packets, slots) <= packets.len(),
        forall|i: int| 0 <= i < fitting(packets, slots) ==> packets[i].data.len()
            <= slots[i].buf.len(),
        fitting(packets, slots) < packets.len() ==> packets[fitting(
            packets,
            slots,
        ) as int].data.len() > slots[fitting(packets, slots) as int].buf.len(),
    decreases packets.len(),
{
    if packets.len() > 0 {
        fitting_is_prefix(packets.drop_last(), slots);
    }
}

/// The number of packets that fit is where the first one does not.
proof fn fitting_stops_at(packets: Seq<PacketView>, slots: Seq<SlotView>, n: int)
    requires
        0 <= n <= packets.len(),
        forall|i: int| 0 <= i < n ==> packets[i].data.len() <= slots[i].buf.len(),
        n < packets.len() ==> packets[n].data.len() > slots[n].buf.len(),
    ensures
        fitting(packets, slots) == n,
{
    fitting_is_prefix(packets, slots);
    let f = fitting(packets, slots) as int;
    if f < n {
        assert(packets[f].data.len() <= slots[f].buf.len());
    } else if n < f {
        assert(packets[n].data.len() <= slots[n].buf.len());
    }
}

/// What came of polling for packets.
#[derive(Debug, Clone, Copy, PartialEq, Eq)]
pub enum RecvPoll {
    /// Nothing was received.
    Pending,
    /// So many packets were received.
    Ready(usize),
    /// The channel is closed.
    Closed,
}

/// What polling for packets says when so many were received.
pub open spec fn polled(count: nat) -> RecvPoll {
    if count > 0 {
        RecvPoll::Ready(count as usize)
    } else {
        RecvPoll::Pending
    }
}

/// What polling for packets says, and the slots afterwards, given what came out
/// of the channel of an endpoint: `None` if it was pending, and nothing if it
/// is closed.
pub open spec fn received(
    packets: Option<Seq<PacketView>>,
    slots: Seq<SlotView>,
    id: EndpointId,
) -> (RecvPoll, Seq<SlotView>) {
    match packets {
        None => (RecvPoll::Pending, slots),
        Some(packets) => if packets.len() == 0 {
            (RecvPoll::Closed, slots)
        } else {
            (polled(fitting(packets, slots)), filled(packets, slots, id))
        },
    }
}

impl NetworkView {
    /// The network after an endpoint took out so many of its packets.
    pub open spec fn taken(self, id: EndpointId, n: int) -> NetworkView {
        NetworkView { queues: self.queues.insert(id, self.queues[id].skip(n)), ..self }
    }
}

impl TestTransport {
    /// Creates a sender for the endpoint.
    pub fn create_sender(&self) -> (r: TestSender)
        ensures
            r.id == self.id,
    {
        TestSender { id: self.id }
    }

    /// Puts a packet into a slot that has room for it.
    fn fill_slot(&self, packet: Packet, slot: &mut RecvSlot)
        requires
            packet@.data.len() <= old(slot)@.buf.len(),
        ensures
            final(slot)@ == filled_slot(old(slot)@, packet@, self.id),
    {
        let data = bytes_slice(&packet.data);
        let n = data.len();
        let ghost room = slot.buf@;
        let mut i: usize = 0;
        while i < n
            invariant
                i <= n == data@.len(),
                n <= room.len(),
                slot.buf@ == data@.take(i as int) + room.skip(i as int),
            decreases n - i,
        {
            slot.buf.set(i, data[i]);
            i += 1;
            assert(slot.buf@ =~= data@.take(i as int) + room.skip(i as int));
        }
        assert(data@.take(n as int) =~= data@);
        slot.len = n;
        slot.stride = n;
        slot.from = Some(packet.from);
        slot.to = Some(to_custom_addr(self.id));
    }

    /// Puts packets into slots, up to the first that does not fit into its
    /// slot. Returns how many did.
    pub fn fill_slots(&self, packets: Vec<Packet>, slots: &mut Vec<RecvSlot>) -> (count: usize)
        requires
            packets@.len() <= old(slots)@.len(),
        ensures
            count == fitting(views(packets@), slot_views(old(slots)@)),
            slot_views(final(slots)@) == filled(
                views(packets@),
                slot_views(old(slots)@),
                self.id,
            ),
    {
        let ghost all = packets@;
        let ghost pv = views(all);
        let ghost sv = slot_views(slots@);
        let room = slots.len();
        let mut packets = packets;
        let mut count: usize = 0;
        while packets.len() > 0
            invariant_except_break
                packets@ == all.skip(count as int),
            invariant
                count <= all.len() <= room,
                room == slots@.len(),
                pv == views(all),
                sv == slot_views(old(slots)@),
                slots@.len() == old(slots)@.len(),
                forall|i: int| 0 <= i < count ==> pv[i].data.len() <= sv[i].buf.len(),
                forall|i: int|
                    0 <= i < slots@.len() ==> (#[trigger] slots@[i])@ == if i < count {
                        filled_slot(sv[i], pv[i], self.id)
                    } else {
                        sv[i]
                    },
            ensures
                count < all.len() ==> pv[count as int].data.len() > sv[count as int].buf.len(),
            decreases packets@.len(),
        {
            assert(count < all.len());
            let packet = packets.remove(0);
            assert(packet == all[count as int]);
            assert(slots@[count as int]@ == sv[count as int]);
            if slots[count].buf.len() < bytes_slice(&packet.data).len() {
                break;
            }
            self.fill_slot(packet, &mut slots[count]);
            count += 1;
            assert(packets@ =~= all.skip(count as int));
        }
        proof {
            fitting_stops_at(pv, sv, count as int);
            assert(slot_views(slots@) =~= filled(pv, sv, self.id));
        }
        count
    }

    /// Receives what came out of the channel of the endpoint: `None` if it was
    /// pending, and nothing if it is closed.
    pub fn receive(&self, packets: Option<Vec<Packet>>, slots: &mut Vec<RecvSlot>) -> (r: RecvPoll)
        requires
            packets matches Some(packets) ==> packets@.len() <= old(slots)@.len(),
        ensures
            (r, slot_views(final(slots)@)) == received(
                match packets {
                    Some(packets) => Some(views(packets@)),
                    None => None,
                },
                slot_views(old(slots)@),
                self.id,
            ),
    {
        let packets = match packets {
            Some(packets) => packets,
            None => return RecvPoll::Pending,
        };
        if packets.len() == 0 {
            return RecvPoll::Closed;
        }
        let count = self.fill_slots(packets, slots);
        if count > 0 {
            RecvPoll::Ready(count)
        } else {
            RecvPoll::Pending
        }
    }

    /// Receives packets that wait for the endpoint, as many as there are
    /// slots.
    ///
    /// What was taken out of the channel but does not fit into its slot is
    /// lost, and so is what follows it.
    pub fn poll_recv(
        &self,
        network: &mut TestNetwork,
        cx: &mut Context<'_>,
        slots: &mut Vec<RecvSlot>,
    ) -> (r: RecvPoll)
        requires
            old(network).wf(),
        ensures
            final(network).wf(),
            ({
                let before = old(network)@;
                let room = slot_views(old(slots)@);
                let n = batch(before.queues[self.id], room.len());
                let packets = before.queues[self.id].take(n);
                if room.len() == 0 || !before.queues.contains_key(self.id) {
                    &&& r == RecvPoll::Ready(0)
                    &&& final(network)@ == before
                    &&& slot_views(final(slots)@) == room
                } else {
                    ||| {
                        &&& n > 0
                        &&& final(network)@ == before.taken(self.id, n)
                        &&& (r, slot_views(final(slots)@)) == received(
                            Some(packets),
                            room,
                            self.id,
                        )
                    }
                    ||| {
                        &&& final(network)@ == before
                        &&& (r, slot_views(final(slots)@)) == received(None, room, self.id)
                    }
                }
            }),
    {
        let n = slots.len();
        if n == 0 {
            return RecvPoll::Ready(0);
        }
        let i = match network.find(self.id) {
            Some(i) => i,
            None => return RecvPoll::Ready(0),
        };
        let ghost before = *network;
        let ghost queue = queued(network.links@[i as int].rx);
        proof {
            network.queue_of(i as int);
        }
        let link = &mut network.links[i];
        let packets = poll_recv_many(&link.tx, &mut link.rx, cx, n);
        proof {
            assert(network.wf());
            TestNetwork::one_queue_changed(&before, &*network, i as int);
            if packets is Some {
                assert(views(packets->0@).len() == packets->0@.len());
            } else {
                assert(network@.queues =~= before@.queues);
            }
        }
        self.receive(packets, slots)
    }
}

/// The address of an endpoint leads back to it, and no two endpoints have the
/// same address.
pub proof fn address_leads_back(a: EndpointId, b: EndpointId)
    requires
        a.is_valid(),
    ensures
        parsed(custom_addr(a), key_of(custom_addr(a).data)) == Ok::<EndpointId, TransportError>(a),
        custom_addr(a) == custom_addr(b) ==> a == b,
{
    endpoint_id_is_its_bytes(a, b);
}

/// An address is refused if it belongs to another transport, does not have
/// the length of a key, or is no key; there is no other reason.
pub proof fn only_addresses_of_endpoints_are_parsed(addr: CustomAddrView)
    ensures
        parsed(addr, key_of(addr.data)) is Ok <==> addr.id == TEST_TRANSPORT_ID && key_of(
            addr.data,
        ) is Some,
{
}

/// An address is refused for the first of these that holds of it: it belongs to
/// another transport, it does not have the length of a key, it is no key. Then
/// nothing is sent, whether packets are dropped or not.
pub proof fn bad_address_is_refused(
    v: NetworkView,
    addr: CustomAddrView,
    key: Option<EndpointId>,
    packets: Seq<PacketView>,
)
    ensures
        ({
            let error = if addr.id != 0x20 {
                Some(TransportError::UnexpectedTransportId)
            } else if addr.data.len() != 32 {
                Some(TransportError::WrongKeyLength)
            } else if key is None {
                Some(TransportError::KeyParse)
            } else {
                None
            };
            &&& error matches Some(error) ==> parsed(addr, key) == Err::<
                EndpointId,
                TransportError,
            >(error) && v.sent(addr, key, packets) == (v, Err::<(), TransportError>(error))
            &&& error is None ==> parsed(addr, key) == Ok::<EndpointId, TransportError>(key->0)
        }),
{
}

/// The address of an endpoint belongs to this transport and is its key.
pub proof fn address_holds_the_key(e: EndpointId)
    ensures
        custom_addr(e).id == 0x20,
        custom_addr(e).data == e.bytes(),
        custom_addr(e).data.len() == 32,
{
    endpoint_id_is_its_bytes(e, e);
}

/// Unless packets are dropped, what is sent to an endpoint that is not on the
/// network is refused, and nothing changes.
pub proof fn unknown_endpoint_is_refused(v: NetworkView, to: EndpointId, packets: Seq<PacketView>)
    requires
        to.is_valid(),
        !v.blackhole,
        !v.queues.contains_key(to),
    ensures
        v.sent(custom_addr(to), key_of(custom_addr(to).data), packets) == (
            v,
            Err::<(), TransportError>(TransportError::UnknownEndpoint),
        ),
{
    address_leads_back(to, to);
}

/// What comes out of the channel of an endpoint is received up to the first
/// packet that does not fit into its slot. Each of these slots then holds its
/// packet, with where it came from and where it went; what was in the slot
/// behind it is still there, and so is what was in the other slots.
pub proof fn packets_are_received_while_they_fit(
    packets: Seq<PacketView>,
    slots: Seq<SlotView>,
    id: EndpointId,
    count: int,
    i: int,
)
    requires
        0 < packets.len() <= slots.len(),
        0 <= count <= packets.len(),
        forall|k: int| 0 <= k < count ==> packets[k].data.len() <= slots[k].buf.len(),
        count < packets.len() ==> packets[count].data.len() > slots[count].buf.len(),
        forall|k: int| 0 <= k < slots.len() ==> (#[trigger] slots[k]).buf.len() <= usize::MAX,
        slots.len() <= usize::MAX,
    ensures
        ({
            let (r, next) = received(Some(packets), slots, id);
            &&& r == if count > 0 {
                RecvPoll::Ready(count as usize)
            } else {
                RecvPoll::Pending
            }
            &&& next.len() == slots.len()
            &&& 0 <= i < count ==> {
                let n = packets[i].data.len();
                &&& next[i].len == n
                &&& next[i].stride == n
                &&& next[i].buf.take(n as int) == packets[i].data
                &&& next[i].buf.skip(n as int) == slots[i].buf.skip(n as int)
                &&& next[i].from == Some(packets[i].from)
                &&& next[i].to == Some(custom_addr(id))
            }
            &&& count <= i < slots.len() ==> next[i] == slots[i]
        }),
{
    fitting_stops_at(packets, slots, count);
    let next = received(Some(packets), slots, id).1;
    if 0 <= i < count {
        let n = packets[i].data.len() as int;
        assert(slots[i].buf.len() <= usize::MAX);
        assert(next[i].buf.take(n) =~= packets[i].data);
        assert(next[i].buf.skip(n) =~= slots[i].buf.skip(n));
    }
}

/// A channel that is pending changes nothing, and one that is closed is told.
pub proof fn no_packets_are_received_from_an_idle_channel(slots: Seq<SlotView>, id: EndpointId)
    ensures
        received(None, slots, id) == (RecvPoll::Pending, slots),
        received(Some(Seq::empty()), slots, id) == (RecvPoll::Closed, slots),
{
}

/// As many packets are taken out as wait and as there are slots, the oldest
/// first, and the others stay. No other endpoint is affected.
pub proof fn oldest_packets_are_taken(
    v: NetworkView,
    id: EndpointId,
    slots: nat,
    other: EndpointId,
)
    requires
        v.queues.contains_key(id),
    ensures
        ({
            let queue = v.queues[id];
            let n = batch(queue, slots);
            let next = v.taken(id, n);
            &&& 0 <= n <= queue.len() && n <= slots
            &&& n == queue.len() || n == slots
            &&& queue.take(n) + next.queues[id] == queue
            &&& next.blackhole == v.blackhole
            &&& other != id ==> next.queues.contains_key(other) == v.queues.contains_key(other)
                && next.queues[other] == v.queues[other]
        }),
{
    let queue = v.queues[id];
    let n = batch(queue, slots);
    assert(queue.take(n) + queue.skip(n) =~= queue);
}

/// The pieces one after the other.
pub open spec fn joined(pieces: Seq<Seq<u8>>) -> Seq<u8> {
    flat(pieces, |piece: Seq<u8>| piece)
}

/// The pieces after a first one.
proof fn joined_with_first(first: Seq<u8>, rest: Seq<Seq<u8>>)
    ensures
        joined(seq![first] + rest) == first + joined(rest),
    decreases rest.len(),
{
    let f = |piece: Seq<u8>| piece;
    let all = seq![first] + rest;
    if rest.len() == 0 {
        assert(all =~= seq![first]);
        assert(all.drop_last() =~= Seq::empty());
        assert(flat(all.drop_last(), f) =~= Seq::<u8>::empty());
        assert(joined(all) =~= first + joined(rest));
    } else {
        joined_with_first(first, rest.drop_last());
        assert(all.drop_last() =~= seq![first] + rest.drop_last());
        assert(joined(all) =~= first + joined(rest));
    }
}

/// Splitting loses nothing: the segments one after the other are what was
/// split. Each has the segment length, but for the last, which may be shorter
/// but is not empty.
pub proof fn segments_make_up_the_whole(s: Seq<u8>, n: nat)
    requires
        n > 0,
    ensures
        joined(chunks(s, n)) == s,
        forall|i: int|
            0 <= i < chunks(s, n).len() ==> 0 < (#[trigger] chunks(s, n)[i]).len() <= n,
        forall|i: int|
            0 <= i < chunks(s, n).len() - 1 ==> (#[trigger] chunks(s, n)[i]).len() == n,
    decreases s.len(),
{
    let f = |piece: Seq<u8>| piece;
    if s.len() == 0 {
        assert(joined(chunks(s, n)) =~= s);
    } else if s.len() <= n {
        joined_with_first(s, Seq::empty());
        assert(seq![s] + Seq::empty() =~= seq![s]);
        assert(joined(Seq::empty()) =~= Seq::empty());
        assert(joined(chunks(s, n)) =~= s);
    } else {
        let rest = s.skip(n as int);
        segments_make_up_the_whole(rest, n);
        joined_with_first(s.take(n as int), chunks(rest, n));
        assert(s.take(n as int) + rest =~= s);
        let all = chunks(s, n);
        assert forall|i: int| 0 <= i < all.len() implies 0 < (#[trigger] all[i]).len() <= n by {
            if i > 0 {
                assert(all[i] == chunks(rest, n)[i - 1]);
            }
        }
        assert forall|i: int| 0 <= i < all.len() - 1 implies (#[trigger] all[i]).len() == n by {
            if i > 0 {
                assert(all[i] == chunks(rest, n)[i - 1]);
            }
        }
    }
}

/// While packets are dropped, a send to any endpoint still reports success but
/// nothing is delivered, whatever is sent and however full the queues are.
/// Once packets are not dropped any more, all is as if nothing had been sent
/// meanwhile.
pub proof fn blackhole_drops_silently(v: NetworkView, to: EndpointId, packets: Seq<PacketView>)
    requires
        to.is_valid(),
    ensures
        ({
            let dark = v.with_blackhole(true);
            let (next, r) = dark.sent(custom_addr(to), key_of(custom_addr(to).data), packets);
            &&& r == Ok::<(), TransportError>(())
            &&& next == dark
            &&& next.with_blackhole(false) == v.with_blackhole(false)
        }),
{
    address_leads_back(to, to);
}

/// What is sent to an endpoint waits there behind what waited before, in the
/// order in which it was sent, as far as there is room. Nobody else is
/// affected, and no queue grows beyond its room.
pub proof fn packets_wait_in_order(
    v: NetworkView,
    to: EndpointId,
    packets: Seq<PacketView>,
    other: EndpointId,
)
    requires
        to.is_valid(),
        !v.blackhole,
        v.queues.contains_key(to),
        v.queues[to].len() <= CHANNEL_CAPACITY,
    ensures
        ({
            let (next, r) = v.sent(custom_addr(to), key_of(custom_addr(to).data), packets);
            let queue = next.queues[to];
            &&& r is Ok
            &&& queue.len() <= CHANNEL_CAPACITY
            &&& queue.is_prefix_of(v.queues[to] + packets)
            &&& v.queues[to].len() + packets.len() > CHANNEL_CAPACITY ==> queue.len()
                == CHANNEL_CAPACITY
            &&& next.blackhole == v.blackhole
            &&& v.queues[to].len() + packets.len() <= CHANNEL_CAPACITY ==> queue == v.queues[to]
                + packets
            &&& other != to ==> next.queues.contains_key(other) == v.queues.contains_key(other)
                && next.queues[other] == v.queues[other]
        }),
{
    address_leads_back(to, to);
    let queue = delivered(v.queues[to], packets);
    assert(queue =~= (v.queues[to] + packets).take(queue.len() as int));
}

/// All packets fit into slots that have room for each.
proof fn all_fit(packets: Seq<PacketView>, slots: Seq<SlotView>)
    requires
        forall|i: int| 0 <= i < packets.len() ==> packets[i].data.len() <= slots[i].buf.len(),
    ensures
        fitting(packets, slots) == packets.len(),
{
    fitting_stops_at(packets, slots, packets.len() as int);
}

/// What one endpoint transmits the other receives: if nothing waited for it
/// and there is room in the channel and in the slots, the slots hold the
/// segments in their order, each with the address of the sender, and the
/// segments make up what was transmitted.
pub proof fn transmission_arrives(
    v: NetworkView,
    from: EndpointId,
    to: EndpointId,
    s: Seq<u8>,
    n: nat,
    slots: Seq<SlotView>,
    i: int,
)
    requires
        n > 0,
        to.is_valid(),
        !v.blackhole,
        v.queues.contains_key(to),
        v.queues[to].len() == 0,
        chunks(s, n).len() <= CHANNEL_CAPACITY,
        chunks(s, n).len() <= slots.len(),
        forall|k: int| 0 <= k < slots.len() ==> n <= (#[trigger] slots[k]).buf.len() <= usize::MAX,
        0 <= i < chunks(s, n).len(),
    ensures
        ({
            let next = v.sent(custom_addr(to), key_of(custom_addr(to).data), packets_of(chunks(s, n), from)).0;
            let packets = next.queues[to].take(batch(next.queues[to], slots.len()));
            let slot = filled(packets, slots, to)[i];
            &&& fitting(packets, slots) == chunks(s, n).len()
            &&& slot.len == chunks(s, n)[i].len()
            &&& slot.buf.take(slot.len as int) == chunks(s, n)[i]
            &&& slot.from == Some(custom_addr(from))
            &&& slot.to == Some(custom_addr(to))
            &&& joined(chunks(s, n)) == s
        }),
{
    address_leads_back(to, to);
    segments_make_up_the_whole(s, n);
    let sent = packets_of(chunks(s, n), from);
    let next = v.sent(custom_addr(to), key_of(custom_addr(to).data), sent).0;
    assert(next.queues[to] =~= sent);
    let packets = next.queues[to].take(batch(next.queues[to], slots.len()));
    assert(packets =~= sent);
    assert forall|k: int| 0 <= k < packets.len() implies packets[k].data.len()
        <= slots[k].buf.len() by {
        assert(packets[k].data == chunks(s, n)[k]);
        assert(chunks(s, n)[k].len() <= n);
        assert(slots[k].buf.len() >= n);
    }
    all_fit(packets, slots);
    let slot = filled(packets, slots, to)[i];
    assert(packets[i].data == chunks(s, n)[i]);
    assert(chunks(s, n)[i].len() <= n);
    assert(slots[i].buf.len() <= usize::MAX);
    assert(slot.buf.take(slot.len as int) =~= chunks(s, n)[i]);
}

} // verus!
