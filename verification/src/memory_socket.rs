//! Sockets within one process, made of channels.

use vstd::prelude::*;

use crate::addr::{IpAddr, Ipv6Addr, SocketAddr};
use crate::channels::PutOutcome;
use crate::error::SocketError;
use crate::memory_queue::{unbounded_queues, QueueIn, QueueOut};
use crate::slices::copy_to_front;

verus! {

/// Largest packet, in bytes.
pub const NETCODE_MAX_PACKET_BYTES: usize = 1400;

/// The port that stands for the server.
pub const IN_MEMORY_SERVER_ID: u16 = 65535;

/// One packet on its way.
pub struct InMemoryPacket {
    bytes: [u8; NETCODE_MAX_PACKET_BYTES],
    len: usize,
}

impl View for InMemoryPacket {
    type V = Seq<u8>;

    closed spec fn view(&self) -> Seq<u8> {
        self.bytes@.take(self.len as int)
    }
}

impl Default for InMemoryPacket {
    fn default() -> (r: Self)
        ensures
            r@ == Seq::<u8>::empty(),
    {
        let r = InMemoryPacket { bytes: [0u8;NETCODE_MAX_PACKET_BYTES], len: 0 };
        assert(r@ =~= Seq::<u8>::empty());
        r
    }
}

impl InMemoryPacket {
    #[verifier::type_invariant]
    spec fn fits(self) -> bool {
        self.len <= NETCODE_MAX_PACKET_BYTES
    }

    /// Makes a packet of some bytes.
    pub fn new(packet: &[u8]) -> (r: Self)
        requires
            packet@.len() <= NETCODE_MAX_PACKET_BYTES,
        ensures
            r@ == packet@,
    {
        let mut bytes: [u8; NETCODE_MAX_PACKET_BYTES] = [0u8;NETCODE_MAX_PACKET_BYTES];
        for i in 0..packet.len()
            invariant
                packet@.len() <= NETCODE_MAX_PACKET_BYTES,
                bytes@.take(i as int) =~= packet@.take(i as int),
        {
            bytes[i] = packet[i];
        }
        let r = InMemoryPacket { bytes, len: packet.len() };
        assert(r@ =~= packet@);
        r
    }

    /// The number of bytes.
    pub fn len(&self) -> (r: usize)
        ensures
            r == self@.len(),
            r <= NETCODE_MAX_PACKET_BYTES,
    {
        proof {
            use_type_invariant(&*self);
        }
        self.len
    }

    /// Copies the bytes to the front of a buffer, and returns how many there are.
    pub fn copy_to(&self, buffer: &mut [u8]) -> (r: usize)
        requires
            old(buffer)@.len() >= NETCODE_MAX_PACKET_BYTES,
        ensures
            r == self@.len(),
            r <= NETCODE_MAX_PACKET_BYTES,
            final(buffer)@ == self@ + old(buffer)@.skip(r as int),
    {
        proof {
            use_type_invariant(&*self);
        }
        let bytes = vstd::slice::slice_subrange(self.bytes.as_slice(), 0, self.len);
        assert(bytes@ =~= self@);
        copy_to_front(buffer, bytes);
        self.len
    }
}

/// Produces a [`SocketAddr`] for in-memory server sockets.
pub fn in_memory_server_addr() -> (r: SocketAddr)
    ensures
        r == memory_addr(IN_MEMORY_SERVER_ID),
{
    SocketAddr::new(IpAddr::V6(Ipv6Addr { bits: 0 }), IN_MEMORY_SERVER_ID)
}

/// Converts a client index into a [`SocketAddr`] for in-memory client sockets.
pub fn in_memory_client_addr(client_id: u16) -> (r: SocketAddr)
    ensures
        r == memory_addr(client_id),
{
    SocketAddr::new(IpAddr::V6(Ipv6Addr { bits: 0 }), client_id)
}

/// The unspecified IPv6 address, with an identifier as the port.
pub open spec fn memory_addr(id: u16) -> SocketAddr {
    SocketAddr::of_parts(IpAddr::V6(Ipv6Addr { bits: 0 }), id)
}

/// Participants with different identifiers have different addresses, and the port of an address is
/// the identifier.
pub proof fn memory_addrs_are_distinct(id1: u16, id2: u16)
    ensures
        memory_addr(id1).spec_port() == id1,
        memory_addr(id1) == memory_addr(id2) ==> id1 == id2,
{
}

/// Holds the endpoints of bi-directional channels used by in-memory sockets.
pub struct MemorySocketChannels {
    /// Sends packets to a partner.
    sender: QueueOut,
    /// Receives packets from a partner.
    receiver: QueueIn,
}

impl Clone for MemorySocketChannels {
    fn clone(&self) -> (r: Self)
        ensures
            r.same_ends(self),
            r.sent() == Seq::<(Seq<u8>, PutOutcome)>::empty(),
            r.received() == Seq::<Option<Seq<u8>>>::empty(),
            r.in_order(),
    {
        MemorySocketChannels { sender: self.sender.another(), receiver: self.receiver.another() }
    }
}

impl MemorySocketChannels {
    /// The queue that packets are sent into.
    pub closed spec fn out_queue(&self) -> int {
        self.sender.queue()
    }

    /// The queue that packets are received from.
    pub closed spec fn in_queue(&self) -> int {
        self.receiver.queue()
    }

    /// The packets that were sent through this value, each with what became of it.
    pub closed spec fn sent(&self) -> Seq<(Seq<u8>, PutOutcome)> {
        self.sender.sent()
    }

    /// What came in, each time this value was asked for a packet.
    pub closed spec fn received(&self) -> Seq<Option<Seq<u8>>> {
        self.receiver.received()
    }

    /// What went out through this value is how the queue begins, and so is what came in, unless
    /// others use the queue as well.
    pub open spec fn in_order(&self) -> bool {
        &&& !crate::memory_queue::queue_is_shared(self.out_queue()) ==> crate::memory_queue::went_out(
            self.sent(),
        ).is_prefix_of(crate::memory_queue::queue_packets(self.out_queue()))
        &&& !crate::memory_queue::queue_is_shared(self.in_queue()) ==> crate::memory_queue::came_in(
            self.received(),
        ).is_prefix_of(crate::memory_queue::queue_packets(self.in_queue()))
    }

    /// The two values have the same ends.
    pub open spec fn same_ends(&self, other: &Self) -> bool {
        &&& self.out_queue() == other.out_queue()
        &&& self.in_queue() == other.in_queue()
    }

    /// Each of the two receives what the other sends, and neither what it sends itself.
    pub open spec fn connected_to(&self, other: &Self) -> bool {
        &&& self.out_queue() == other.in_queue()
        &&& other.out_queue() == self.in_queue()
        &&& self.out_queue() != self.in_queue()
        &&& other.out_queue() != other.in_queue()
    }

    /// Generates a pair of connected [`MemorySocketChannels`].
    pub fn channel_pair() -> (r: (MemorySocketChannels, MemorySocketChannels))
        ensures
            r.0.connected_to(&r.1),
            r.0.is_fresh(),
            r.1.is_fresh(),
    {
        MemorySocketChannels::channel_pair_beside(&Vec::new())
    }

    /// Nothing went through this value yet.
    pub open spec fn is_fresh(&self) -> bool {
        &&& self.sent() == Seq::<(Seq<u8>, PutOutcome)>::empty()
        &&& self.received() == Seq::<Option<Seq<u8>>>::empty()
        &&& self.in_order()
    }

    /// Generates a pair of connected [`MemorySocketChannels`] that share nothing with other ones.
    fn channel_pair_beside(others: &Vec<(u16, MemorySocketChannels)>) -> (r: (
        MemorySocketChannels,
        MemorySocketChannels,
    ))
        ensures
            r.0.connected_to(&r.1),
            r.0.is_fresh(),
            r.1.is_fresh(),
            forall|i: int| 0 <= i < others@.len() ==> apart(#[trigger] others@[i].1, r.0),
    {
        let ((sender_a, receiver_a), (sender_b, receiver_b)) = unbounded_queues(others);
        (
            MemorySocketChannels { sender: sender_a, receiver: receiver_b },
            MemorySocketChannels { sender: sender_b, receiver: receiver_a },
        )
    }

    /// Sends a packet to the partner; fails if the partner is gone.
    pub fn send(&mut self, packet: InMemoryPacket) -> (r: Result<(), SocketError>)
        ensures
            final(self).same_ends(old(self)),
            final(self).received() == old(self).received(),
            exists|outcome: PutOutcome|
                final(self).sent() == old(self).sent().push((packet@, outcome)) && #[trigger]
                sending_answer(outcome) == r,
            old(self).in_order() ==> final(self).in_order(),
    {
        let ghost content = packet@;
        let outcome = self.sender.put(packet);
        proof {
            assert(self.sent().drop_last() =~= old(self).sent());
        }
        let r = match outcome {
            PutOutcome::Taken => Ok(()),
            _ => Err(SocketError::ConnectionAborted),
        };
        assert(sending_answer(outcome) == r);
        r
    }

    /// Takes the next packet of the partner, if there is one.
    pub fn try_recv(&mut self) -> (r: Option<InMemoryPacket>)
        ensures
            final(self).same_ends(old(self)),
            final(self).sent() == old(self).sent(),
            final(self).received() == old(self).received().push(
                crate::memory_queue::packet_content(r),
            ),
            old(self).in_order() ==> final(self).in_order(),
    {
        let packet = self.receiver.next();
        proof {
            assert(self.received().drop_last() =~= old(self).received());
        }
        packet
    }
}

/// What is returned for a packet, by what became of it.
pub open spec fn sending_answer(outcome: PutOutcome) -> Result<(), SocketError> {
    if outcome == PutOutcome::Taken {
        Ok(())
    } else {
        Err(SocketError::ConnectionAborted)
    }
}

/// The packets that are sent through one end of a channel come out of the other end: the first one
/// first, none twice and none left out. What came in at one end is how that begins which went out at
/// the other, or the other way round, where the account of that end is older.
pub proof fn packets_arrive_in_order(a: MemorySocketChannels, b: MemorySocketChannels)
    requires
        a.connected_to(&b),
        a.in_order(),
        b.in_order(),
        !crate::memory_queue::queue_is_shared(a.out_queue()),
    ensures
        ({
            let out = crate::memory_queue::went_out(a.sent());
            let arrived = crate::memory_queue::came_in(b.received());
            &&& arrived.len() <= out.len() ==> arrived.is_prefix_of(out)
            &&& out.len() <= arrived.len() ==> out.is_prefix_of(arrived)
        }),
{
    let out = crate::memory_queue::went_out(a.sent());
    let arrived = crate::memory_queue::came_in(b.received());
    let all = crate::memory_queue::queue_packets(a.out_queue());
    assert forall|i: int| 0 <= i < out.len() && i < arrived.len() implies out[i] == arrived[i] by {
        assert(out[i] == all.take(out.len() as int)[i]);
        assert(arrived[i] == all.take(arrived.len() as int)[i]);
    }
    if arrived.len() <= out.len() {
        assert(arrived =~= out.subrange(0, arrived.len() as int));
    }
    if out.len() <= arrived.len() {
        assert(out =~= arrived.subrange(0, out.len() as int));
    }
}

/// The channels send into the queue or receive from it.
pub open spec fn uses_queue(client: (u16, MemorySocketChannels), queue: int) -> bool {
    client.1.out_queue() == queue || client.1.in_queue() == queue
}

/// The two share no queue.
pub open spec fn apart(a: MemorySocketChannels, b: MemorySocketChannels) -> bool {
    &&& a.out_queue() != b.out_queue()
    &&& a.out_queue() != b.in_queue()
    &&& a.in_queue() != b.out_queue()
    &&& a.in_queue() != b.in_queue()
}

/// A socket for a server using in-memory channels.
///
/// In-memory sockets are treated as encrypted and reliable by default for efficiency. Use
/// [`Self::new_with`] to use a different policy.
pub struct MemorySocketServer {
    /// Client identifiers and the channels to the clients.
    pub clients: Vec<(u16, MemorySocketChannels)>,
    /// Whether the channels are treated as if they were encrypted.
    pub encrypted: bool,
    /// Whether the channels are treated as reliable.
    pub reliable: bool,
    /// The first client that may still have packets in this round.
    pub drain_index: usize,
}

/// The client at position `i` is the first one with the identifier.
pub open spec fn is_first_with_id(
    clients: Seq<(u16, MemorySocketChannels)>,
    client_id: u16,
    i: int,
) -> bool {
    &&& 0 <= i < clients.len()
    &&& clients[i].0 == client_id
    &&& forall|k: int| 0 <= k < i ==> (#[trigger] clients[k]).0 != client_id
}

/// No client has the identifier.
pub open spec fn has_no_id(clients: Seq<(u16, MemorySocketChannels)>, client_id: u16) -> bool {
    forall|k: int| 0 <= k < clients.len() ==> (#[trigger] clients[k]).0 != client_id
}

/// Between the two values lies one request for a packet, which gave `content`, and nothing else.
pub open spec fn was_asked(
    before: (u16, MemorySocketChannels),
    after: (u16, MemorySocketChannels),
    content: Option<Seq<u8>>,
) -> bool {
    &&& after.0 == before.0
    &&& after.1.same_ends(&before.1)
    &&& after.1.sent() == before.1.sent()
    &&& after.1.received() == before.1.received().push(content)
    &&& before.1.in_order() ==> after.1.in_order()
}

/// Between the two values lies one packet that was sent, and nothing else.
pub open spec fn was_sent(
    before: (u16, MemorySocketChannels),
    after: (u16, MemorySocketChannels),
    content: Seq<u8>,
    answer: Result<(), SocketError>,
) -> bool {
    &&& after.0 == before.0
    &&& after.1.same_ends(&before.1)
    &&& after.1.received() == before.1.received()
    &&& before.1.in_order() ==> after.1.in_order()
    &&& exists|outcome: PutOutcome|
        after.1.sent() == before.1.sent().push((content, outcome)) && #[trigger] sending_answer(
            outcome,
        ) == answer
}

impl MemorySocketServer {
    /// Makes a new in-memory socket for a server.
    ///
    /// Takes a vector of `(client id, socket channels)`.
    pub fn new(clients: Vec<(u16, MemorySocketChannels)>) -> (r: Self)
        ensures
            r == (MemorySocketServer { clients, encrypted: true, reliable: true, drain_index: 0 }),
    {
        Self::new_with(clients, true, true)
    }

    /// Makes a new in-memory socket for a server with a specific encryption policy.
    ///
    /// Takes a vector of `(client id, socket channels)`.
    ///
    /// If `encrypted` is set to `true` then the memory transport will be treated *as if* it were
    /// encrypted. If `reliable` is set to `true` then the memory transport will downgrade all
    /// channels to unreliable.
    pub fn new_with(
        clients: Vec<(u16, MemorySocketChannels)>,
        encrypted: bool,
        reliable: bool,
    ) -> (r: Self)
        ensures
            r == (MemorySocketServer { clients, encrypted, reliable, drain_index: 0 }),
    {
        MemorySocketServer { clients, encrypted, reliable, drain_index: 0 }
    }

    /// Whether the channels are treated as if they were encrypted.
    pub fn is_encrypted(&self) -> (r: bool)
        ensures
            r == self.encrypted,
    {
        self.encrypted
    }

    /// Whether the channels are treated as reliable.
    pub fn is_reliable(&self) -> (r: bool)
        ensures
            r == self.reliable,
    {
        self.reliable
    }

    /// The address of the server.
    pub fn addr(&self) -> (r: SocketAddr)
        ensures
            r == memory_addr(IN_MEMORY_SERVER_ID),
    {
        in_memory_server_addr()
    }

    /// In-memory sockets never close.
    pub fn is_closed(&mut self) -> (r: bool)
        ensures
            !r,
            *final(self) == *old(self),
    {
        false
    }

    /// Starts a new round of receiving, with the first client.
    pub fn preupdate(&mut self)
        ensures
            *final(self) == (MemorySocketServer { drain_index: 0, ..*old(self) }),
    {
        self.drain_index = 0;
    }

    /// The two sockets differ in nothing but the channels and the position in the round.
    pub open spec fn same_clients(&self, other: &Self) -> bool {
        &&& self.clients@.len() == other.clients@.len()
        &&& self.encrypted == other.encrypted
        &&& self.reliable == other.reliable
    }

    /// What receiving does. The clients are asked in order, from the position in the round on. Those
    /// that are passed over had no packet. The first one that has a packet is its sender.
    pub open spec fn receives(
        &self,
        after: &Self,
        buffer_before: Seq<u8>,
        buffer_after: Seq<u8>,
        answer: Result<(usize, SocketAddr), SocketError>,
    ) -> bool {
        let n = self.clients@.len();
        let k = after.drain_index as int;
        &&& after.same_clients(self)
        &&& after.drain_index >= self.drain_index
        // The clients that were passed over had no packet.
        &&& forall|i: int|
            self.drain_index <= i < k && i < n ==> was_asked(
                self.clients@[i],
                #[trigger] after.clients@[i],
                None,
            )
        // The others were not asked, but for the sender of the packet.
        &&& forall|i: int|
            0 <= i < n && (i < self.drain_index || i > k) ==> #[trigger] after.clients@[i]
                == self.clients@[i]
        &&& match answer {
            Ok((len, addr)) => {
                &&& k < n
                &&& len <= NETCODE_MAX_PACKET_BYTES
                &&& buffer_after.len() == buffer_before.len()
                &&& buffer_after.skip(len as int) == buffer_before.skip(len as int)
                &&& was_asked(
                    self.clients@[k],
                    after.clients@[k],
                    Some(buffer_after.take(len as int)),
                )
                &&& addr == memory_addr(self.clients@[k].0)
            },
            Err(e) => {
                &&& e == SocketError::WouldBlock
                &&& k >= n
                &&& after.drain_index == self.drain_index || k == n
                &&& buffer_after == buffer_before
            },
        }
    }

    /// What sending does: the packet goes to the first client with the identifier.
    pub open spec fn sends(
        &self,
        after: &Self,
        client_id: u16,
        packet: Seq<u8>,
        answer: Result<(), SocketError>,
    ) -> bool {
        &&& after.same_clients(self)
        &&& after.drain_index == self.drain_index
        &&& has_no_id(self.clients@, client_id) ==> answer == Err::<(), SocketError>(
            SocketError::AddrNotAvailable,
        ) && after.clients@ == self.clients@
        &&& forall|i: int| #[trigger]
            is_first_with_id(self.clients@, client_id, i) ==> {
                &&& was_sent(self.clients@[i], after.clients@[i], packet, answer)
                &&& after.clients@ == self.clients@.update(i, after.clients@[i])
            }
    }

    /// Takes the next packet of this round into the buffer, and returns its length and its
    /// sender. Each client is asked until it has no more packets, then the next one.
    pub fn try_recv(&mut self, buffer: &mut [u8]) -> (r: Result<(usize, SocketAddr), SocketError>)
        requires
            old(buffer)@.len() >= NETCODE_MAX_PACKET_BYTES,
        ensures
            old(self).receives(final(self), old(buffer)@, final(buffer)@, r),
    {
        loop
            invariant
                old(buffer)@.len() >= NETCODE_MAX_PACKET_BYTES,
                buffer@ == old(buffer)@,
                self.same_clients(old(self)),
                self.drain_index >= old(self).drain_index,
                self.drain_index <= old(self).clients@.len() || self.drain_index
                    == old(self).drain_index,
                forall|k: int|
                    old(self).drain_index <= k < self.drain_index && k < old(self).clients@.len()
                        ==> was_asked(old(self).clients@[k], #[trigger] self.clients@[k], None),
                forall|k: int|
                    0 <= k < old(self).clients@.len() && (k < old(self).drain_index || k
                        >= self.drain_index) ==> #[trigger] self.clients@[k]
                        == old(self).clients@[k],
            decreases old(self).clients@.len() - self.drain_index,
        {
            if self.drain_index >= self.clients.len() {
                return Err(SocketError::WouldBlock);
            }
            let k = self.drain_index;
            let client = &mut self.clients[k];
            let id = client.0;
            if let Some(packet) = client.1.try_recv() {
                let len = packet.copy_to(buffer);
                assert(buffer@.take(len as int) =~= packet@);
                assert(buffer@.skip(len as int) =~= old(buffer)@.skip(len as int));
                return Ok((len, in_memory_client_addr(id)));
            }
            self.drain_index = self.drain_index + 1;
        }
    }

    /// Where the first client with an identifier stands.
    fn position(&self, client_id: u16) -> (r: Option<usize>)
        ensures
            match r {
                Some(i) => is_first_with_id(self.clients@, client_id, i as int),
                None => has_no_id(self.clients@, client_id),
            },
    {
        for i in 0..self.clients.len()
            invariant
                forall|k: int| 0 <= k < i ==> (#[trigger] self.clients@[k]).0 != client_id,
        {
            if self.clients[i].0 == client_id {
                return Some(i);
            }
        }
        None
    }

    /// Sends a packet to the client whose identifier is the port of the address.
    pub fn send(&mut self, addr: SocketAddr, packet: &[u8]) -> (r: Result<(), SocketError>)
        requires
            packet@.len() <= NETCODE_MAX_PACKET_BYTES,
        ensures
            old(self).sends(final(self), addr.spec_port(), packet@, r),
    {
        let client_id = addr.port();
        let mem_packet = InMemoryPacket::new(packet);
        match self.position(client_id) {
            Some(idx) => {
                let ghost at = idx as int;
                assert forall|i: int| #[trigger]
                    is_first_with_id(old(self).clients@, client_id, i) implies i == at by {
                    if i < at {
                        assert(old(self).clients@[i].0 != client_id);
                    } else if i > at {
                        assert(old(self).clients@[at].0 != client_id);
                    }
                }
                let client = &mut self.clients[idx];
                let r = client.1.send(mem_packet);
                assert(self.clients@ =~= old(self).clients@.update(at, self.clients@[at]));
                r
            },
            None => Err(SocketError::AddrNotAvailable),
        }
    }
}

/// One call of a [`MemorySocketServer`] within a round, with its answer.
pub enum ServerCall {
    /// [`MemorySocketServer::try_recv`].
    Received { answer: Result<(usize, SocketAddr), SocketError> },
    /// [`MemorySocketServer::send`].
    Sent { client_id: u16, packet: Seq<u8>, sent: Result<(), SocketError> },
}

/// The call leads from one socket to the other.
pub open spec fn call_leads(
    before: MemorySocketServer,
    call: ServerCall,
    after: MemorySocketServer,
) -> bool {
    match call {
        ServerCall::Received { answer } => exists|buffer_before: Seq<u8>, buffer_after: Seq<u8>|
            #[trigger] before.receives(&after, buffer_before, buffer_after, answer),
        ServerCall::Sent { client_id, packet, sent } => before.sends(
            &after,
            client_id,
            packet,
            sent,
        ),
    }
}

/// The calls lead from each socket to the next one. There is no
/// [`MemorySocketServer::preupdate`] among them.
pub open spec fn is_round(servers: Seq<MemorySocketServer>, calls: Seq<ServerCall>) -> bool {
    &&& servers.len() == calls.len() + 1
    &&& forall|i: int|
        0 <= i < calls.len() ==> call_leads(servers[i], #[trigger] calls[i], servers[i + 1])
}

/// One call goes on in the round: no client is left out or asked again that was passed over, and
/// what a client gave is at the end of its account.
proof fn lemma_call_goes_on(
    before: MemorySocketServer,
    call: ServerCall,
    after: MemorySocketServer,
    k: int,
)
    requires
        call_leads(before, call, after),
        0 <= k < before.clients@.len(),
    ensures
        after.clients@.len() == before.clients@.len(),
        after.drain_index >= before.drain_index,
        after.clients@[k].0 == before.clients@[k].0,
        after.clients@[k].1.same_ends(&before.clients@[k].1),
        before.clients@[k].1.in_order() ==> after.clients@[k].1.in_order(),
        asked_in_turn(before, after, k),
{
    match call {
        ServerCall::Received { answer } => {
            let (buffer_before, buffer_after) = choose|
                buffer_before: Seq<u8>,
                buffer_after: Seq<u8>,
            | #[trigger] before.receives(&after, buffer_before, buffer_after, answer);
            let old_account = before.clients@[k].1.received();
            let account = after.clients@[k].1.received();
            if before.drain_index <= k <= after.drain_index {
                assert(account.len() == old_account.len() + 1);
            } else {
                assert(after.clients@[k] == before.clients@[k]);
            }
        },
        ServerCall::Sent { client_id, packet, sent } => {
            if !has_no_id(before.clients@, client_id) {
                lemma_first_with_id(before.clients@, client_id);
                let i = choose|i: int| is_first_with_id(before.clients@, client_id, i);
                assert(after.clients@ == before.clients@.update(i, after.clients@[i]));
                assert(was_sent(before.clients@[i], after.clients@[i], packet, sent));
            }
        },
    }
}

/// Where there is a client with the identifier, there is a first one.
proof fn lemma_first_with_id(clients: Seq<(u16, MemorySocketChannels)>, client_id: u16)
    requires
        !has_no_id(clients, client_id),
    ensures
        exists|i: int| is_first_with_id(clients, client_id, i),
    decreases clients.len(),
{
    let k = choose|k: int| 0 <= k < clients.len() && (#[trigger] clients[k]).0 == client_id;
    if exists|j: int| 0 <= j < k && (#[trigger] clients[j]).0 == client_id {
        let j = choose|j: int| 0 <= j < k && (#[trigger] clients[j]).0 == client_id;
        let init = clients.take(k);
        assert(init[j].0 == client_id);
        lemma_first_with_id(init, client_id);
        let i = choose|i: int| is_first_with_id(init, client_id, i);
        assert forall|m: int| 0 <= m < i implies (#[trigger] clients[m]).0 != client_id by {
            assert(init[m] == clients[m]);
        }
        assert(init[i] == clients[i]);
        assert(is_first_with_id(clients, client_id, i));
    } else {
        assert(is_first_with_id(clients, client_id, k));
    }
}

/// What happened to the account of a client between two moments of a round: every time it was asked
/// it gave a packet, until it had none, which ended its turn.
pub open spec fn asked_in_turn(
    before: MemorySocketServer,
    after: MemorySocketServer,
    k: int,
) -> bool {
    let old_account = before.clients@[k].1.received();
    let account = after.clients@[k].1.received();
    &&& old_account.is_prefix_of(account)
    &&& if before.drain_index <= k < after.drain_index {
        // Its turn is over.
        &&& account.len() > old_account.len()
        &&& account.last() is None
        &&& forall|i: int|
            old_account.len() <= i < account.len() - 1 ==> (#[trigger] account[i]) is Some
    } else if before.drain_index <= k && k == after.drain_index {
        // It is its turn.
        forall|i: int| old_account.len() <= i < account.len() ==> (#[trigger] account[i]) is Some
    } else {
        account == old_account
    }
}

/// A round goes through the clients in the order of the list. A client gives all the packets that it
/// has, one by one, and then it is the next one's turn. Nobody is asked before its turn, or after it.
pub proof fn rounds_go_client_by_client(
    servers: Seq<MemorySocketServer>,
    calls: Seq<ServerCall>,
    k: int,
)
    requires
        is_round(servers, calls),
        0 <= k < servers[0].clients@.len(),
    ensures
        servers.last().clients@.len() == servers[0].clients@.len(),
        servers.last().drain_index >= servers[0].drain_index,
        servers.last().clients@[k].0 == servers[0].clients@[k].0,
        servers.last().clients@[k].1.same_ends(&servers[0].clients@[k].1),
        servers[0].clients@[k].1.in_order() ==> servers.last().clients@[k].1.in_order(),
        asked_in_turn(servers[0], servers.last(), k),
        ({
            let first = servers[0].clients@[k].1.received();
            let account = servers.last().clients@[k].1.received();
            &&& first.is_prefix_of(account)
            &&& account.len() > first.len() ==> servers[0].drain_index <= k
                <= servers.last().drain_index
            &&& servers[0].drain_index <= k < servers.last().drain_index ==> account.len()
                > first.len() && account.last() is None
            &&& account.len() > first.len() && account.last() is None ==> k
                < servers.last().drain_index
            &&& forall|i: int|
                first.len() <= i < account.len() - 1 ==> (
                #[trigger] servers.last().clients@[k].1.received()[i]) is Some
        }),
    decreases calls.len(),
{
    let n = calls.len() as int;
    if n == 0 {
        assert(servers.last() == servers[0]);
        let account = servers[0].clients@[k].1.received();
        assert(account =~= account.subrange(0, account.len() as int));
    } else {
        let init = servers.drop_last();
        assert forall|i: int| 0 <= i < n - 1 implies call_leads(
            init[i],
            #[trigger] calls.drop_last()[i],
            init[i + 1],
        ) by {
            assert(calls[i] == calls.drop_last()[i]);
        }
        rounds_go_client_by_client(init, calls.drop_last(), k);
        assert(init.last() == servers[n - 1]);
        assert(call_leads(servers[n - 1], calls[n - 1], servers[n]));
        lemma_call_goes_on(servers[n - 1], calls[n - 1], servers[n], k);
        let first = servers[0].clients@[k].1.received();
        let middle = servers[n - 1].clients@[k].1.received();
        let last = servers[n].clients@[k].1.received();
        assert(first =~= last.subrange(0, first.len() as int)) by {
            assert(first =~= middle.subrange(0, first.len() as int));
            assert(middle =~= last.subrange(0, middle.len() as int));
        }
        assert forall|i: int| 0 <= i < middle.len() implies middle[i] == last[i] by {
            assert(middle =~= last.subrange(0, middle.len() as int));
        }
    }
}

/// The packets of a round come in the order of the list of clients, and once there is nothing more to
/// receive, that is so until the next round, whatever the clients send meanwhile.
pub proof fn rounds_end_once(
    servers: Seq<MemorySocketServer>,
    calls: Seq<ServerCall>,
    i: int,
    j: int,
)
    requires
        is_round(servers, calls),
        0 <= i < j < calls.len(),
        calls[i] is Received,
        calls[j] is Received,
    ensures
        calls[i]->answer is Err ==> {
            &&& calls[j]->answer == Err::<(usize, SocketAddr), SocketError>(
                SocketError::WouldBlock,
            )
            &&& servers[j + 1].clients@ == servers[j].clients@
        },
        calls[j]->answer is Ok ==> {
            &&& calls[i]->answer is Ok
            &&& servers[i + 1].drain_index <= servers[j + 1].drain_index
            &&& calls[j]->answer->Ok_0.1 == memory_addr(
                servers[0].clients@[servers[j + 1].drain_index as int].0,
            )
        },
{
    lemma_round_moves_on(servers, calls, 0, i);
    lemma_round_moves_on(servers, calls, i + 1, j);
    lemma_round_moves_on(servers, calls, 0, j);
    assert(call_leads(servers[i], calls[i], servers[i + 1]));
    assert(call_leads(servers[j], calls[j], servers[j + 1]));
    let answer = calls[j]->answer;
    let (buffer_before, buffer_after) = choose|buffer_before: Seq<u8>, buffer_after: Seq<u8>|
        #[trigger] servers[j].receives(&servers[j + 1], buffer_before, buffer_after, answer);
    assert(servers[j].receives(&servers[j + 1], buffer_before, buffer_after, answer));
    if calls[i]->answer is Err {
        assert(servers[j + 1].clients@ =~= servers[j].clients@);
    }
}

/// The position in the round goes up, and the clients stay who they are.
proof fn lemma_round_moves_on(
    servers: Seq<MemorySocketServer>,
    calls: Seq<ServerCall>,
    i: int,
    j: int,
)
    requires
        is_round(servers, calls),
        0 <= i <= j < servers.len(),
    ensures
        servers[j].drain_index >= servers[i].drain_index,
        servers[j].clients@.len() == servers[i].clients@.len(),
        forall|k: int|
            0 <= k < servers[i].clients@.len() ==> (#[trigger] servers[j].clients@[k]).0
                == servers[i].clients@[k].0,
    decreases j - i,
{
    if i < j {
        lemma_round_moves_on(servers, calls, i, j - 1);
        assert(call_leads(servers[j - 1], calls[j - 1], servers[j]));
        match calls[j - 1] {
            ServerCall::Received { answer } => {},
            ServerCall::Sent { .. } => {},
        }
        assert forall|k: int| 0 <= k < servers[i].clients@.len() implies (
        #[trigger] servers[j].clients@[k]).0 == servers[i].clients@[k].0 by {
            lemma_call_goes_on(servers[j - 1], calls[j - 1], servers[j], k);
            assert(servers[j - 1].clients@[k].0 == servers[i].clients@[k].0);
        }
    }
}

/// A socket for a client using in-memory channels.
pub struct MemorySocketClient {
    /// Identifier of the client.
    pub client_id: u16,
    /// The channels to the server.
    pub channels: MemorySocketChannels,
    /// Whether the channels are treated as if they were encrypted.
    pub encrypted: bool,
}

impl MemorySocketClient {
    /// Makes a new in-memory socket for a client with a specific encryption policy. The identifier
    /// must not be the one that stands for the server.
    pub fn new_with(client_id: u16, channels: MemorySocketChannels, encrypted: bool) -> (r: Self)
        requires
            client_id != IN_MEMORY_SERVER_ID,
        ensures
            r == (MemorySocketClient { client_id, channels, encrypted }),
    {
        MemorySocketClient { client_id, channels, encrypted }
    }

    /// The address of the client.
    pub fn addr(&self) -> (r: SocketAddr)
        ensures
            r == memory_addr(self.client_id),
    {
        in_memory_client_addr(self.client_id)
    }
}

/// The server's channels and the client's socket belong together.
pub open spec fn linked(
    server: (u16, MemorySocketChannels),
    client: MemorySocketClient,
    encrypted: bool,
) -> bool {
    &&& client.client_id == server.0
    &&& client.encrypted == encrypted
    &&& server.1.connected_to(&client.channels)
    &&& server.1.is_fresh()
    &&& client.channels.is_fresh()
}

/// The identifiers of a list in ascending order, each once.
fn sorted_unique(ids: &Vec<u16>) -> (r: Vec<u16>)
    ensures
        forall|i: int, j: int| 0 <= i < j < r@.len() ==> r@[i] < r@[j],
        forall|id: u16| r@.contains(id) <==> ids@.contains(id),
{
    let mut seen: Vec<bool> = Vec::new();
    for i in 0..65536u32
        invariant
            seen@.len() == i,
            forall|k: int| 0 <= k < i ==> !#[trigger] seen@[k],
    {
        seen.push(false);
    }
    for i in 0..ids.len()
        invariant
            seen@.len() == 65536,
            forall|k: int|
                0 <= k < 65536 ==> (#[trigger] seen@[k] <==> exists|j: int|
                    0 <= j < i && #[trigger] ids@[j] == k),
    {
        let ghost before = seen@;
        let id = ids[i];
        seen.set(id as usize, true);
        assert forall|k: int| 0 <= k < 65536 implies (#[trigger] seen@[k] <==> exists|j: int|
            0 <= j < i + 1 && #[trigger] ids@[j] == k) by {
            if k == id {
                assert(ids@[i as int] == k);
            } else {
                assert(seen@[k] == before[k]);
            }
        }
    }
    let mut unique: Vec<u16> = Vec::new();
    let mut id: u32 = 0;
    while id < 65536
        invariant
            id <= 65536,
            seen@.len() == 65536,
            forall|k: int|
                0 <= k < 65536 ==> (#[trigger] seen@[k] <==> exists|j: int|
                    0 <= j < ids@.len() && #[trigger] ids@[j] == k),
            forall|i: int, j: int| 0 <= i < j < unique@.len() ==> unique@[i] < unique@[j],
            forall|i: int| 0 <= i < unique@.len() ==> #[trigger] unique@[i] < id,
            forall|x: u16| unique@.contains(x) <==> x < id && #[trigger] ids@.contains(x),
        decreases 65536 - id,
    {
        let ghost before = unique@;
        let present = seen[id as usize];
        if present {
            unique.push(id as u16);
        }
        assert forall|x: u16| unique@.contains(x) <==> x < id + 1 && #[trigger] ids@.contains(x) by {
            if before.contains(x) {
                let k = choose|k: int| 0 <= k < before.len() && before[k] == x;
                assert(unique@[k] == x);
            }
            if x == id && present {
                assert(unique@[before.len() as int] == x);
            }
            if unique@.contains(x) {
                let k = choose|k: int| 0 <= k < unique@.len() && unique@[k] == x;
                if k < before.len() {
                    assert(before[k] == x);
                }
            }
        }
        id = id + 1;
    }
    unique
}

/// Generates in-memory sockets.
///
/// Set the `encrypted` parameter to `true` if you want to pretend that channels are encrypted.
///
/// Returns `(server socket, client sockets)`. Client addresses are derived from client ids.
///
/// Note that duplicate client ids will be removed. No client id may equal the one that stands for
/// the server.
pub fn new_memory_sockets(client_ids: Vec<u16>, encrypted: bool) -> (r: (
    MemorySocketServer,
    Vec<MemorySocketClient>,
))
    requires
        !client_ids@.contains(IN_MEMORY_SERVER_ID),
    ensures
        r.0.encrypted == encrypted,
        r.0.reliable,
        r.0.drain_index == 0,
        r.0.clients@.len() == r.1@.len(),
        forall|i: int, j: int|
            0 <= i < j < r.1@.len() ==> (#[trigger] r.1@[i]).client_id < (
            #[trigger] r.1@[j]).client_id,
        r.1@.map_values(|client: MemorySocketClient| client.client_id).to_set()
            == client_ids@.to_set(),
        forall|i: int|
            0 <= i < r.1@.len() ==> linked(r.0.clients@[i], #[trigger] r.1@[i], encrypted),
        forall|i: int, j: int|
            0 <= i < j < r.0.clients@.len() ==> apart(
                (#[trigger] r.0.clients@[i]).1,
                (#[trigger] r.0.clients@[j]).1,
            ),
{
    let ids = sorted_unique(&client_ids);
    let mut server_channels: Vec<(u16, MemorySocketChannels)> = Vec::with_capacity(ids.len());
    let mut client_sockets: Vec<MemorySocketClient> = Vec::with_capacity(ids.len());
    for i in 0..ids.len()
        invariant
            forall|id: u16| ids@.contains(id) <==> client_ids@.contains(id),
            !client_ids@.contains(IN_MEMORY_SERVER_ID),
            server_channels@.len() == i,
            client_sockets@.len() == i,
            forall|k: int|
                0 <= k < i ==> #[trigger] client_sockets@[k].client_id == ids@[k] && linked(
                    server_channels@[k],
                    client_sockets@[k],
                    encrypted,
                ),
            forall|k: int, m: int|
                0 <= k < m < i ==> apart(
                    (#[trigger] server_channels@[k]).1,
                    (#[trigger] server_channels@[m]).1,
                ),
    {
        let client_id = ids[i];
        assert(ids@.contains(ids@[i as int]));
        let (server_chans, client_chans) = MemorySocketChannels::channel_pair_beside(&server_channels);
        server_channels.push((client_id, server_chans));
        client_sockets.push(MemorySocketClient::new_with(client_id, client_chans, encrypted));
    }
    let server_socket = MemorySocketServer::new_with(server_channels, encrypted, true);
    proof {
        let made = client_sockets@.map_values(|client: MemorySocketClient| client.client_id);
        assert(made =~= ids@);
        assert(made.to_set() =~= client_ids@.to_set());
    }
    (server_socket, client_sockets)
}

/// The addresses of participants are the unspecified IPv6 address. The port is the identifier, and that
/// of the server is the largest one.
pub proof fn participants_are_known_by_port(client_id: u16, client: SocketAddr, server: SocketAddr)
    requires
        call_ensures(in_memory_client_addr, (client_id,), client),
        call_ensures(in_memory_server_addr, (), server),
    ensures
        client matches SocketAddr::V6(v6) && v6.ip.bits == 0 && v6.port == client_id && v6.flowinfo
            == 0 && v6.scope_id == 0,
        server matches SocketAddr::V6(v6) && v6.ip.bits == 0 && v6.port == 65535 && v6.flowinfo == 0
            && v6.scope_id == 0,
        client == server <==> client_id == 65535,
{
}

/// A packet goes into the channel once and as it is, and the answer is fine exactly if the channel took
/// it.
pub proof fn channels_take_packets(
    before: MemorySocketChannels,
    after: MemorySocketChannels,
    packet: InMemoryPacket,
    answer: Result<(), SocketError>,
)
    requires
        exists|channels: &mut MemorySocketChannels|
            *channels == before && *final(channels) == after && #[trigger] call_ensures(
                MemorySocketChannels::send,
                (channels, packet),
                answer,
            ),
    ensures
        after.sent().len() == before.sent().len() + 1,
        after.sent().drop_last() == before.sent(),
        after.sent().last().0 == packet@,
        answer is Ok <==> after.sent().last().1 == PutOutcome::Taken,
        answer is Err ==> answer == Err::<(), SocketError>(SocketError::ConnectionAborted),
        after.received() == before.received(),
        after.out_queue() == before.out_queue(),
        after.in_queue() == before.in_queue(),
{
    assert(after.sent().drop_last() =~= before.sent());
}

/// What is taken from a channel is what the queue gave, and is noted once.
pub proof fn channels_give_packets(
    before: MemorySocketChannels,
    after: MemorySocketChannels,
    packet: Option<InMemoryPacket>,
)
    requires
        exists|channels: &mut MemorySocketChannels|
            *channels == before && *final(channels) == after && #[trigger] call_ensures(
                MemorySocketChannels::try_recv,
                (channels,),
                packet,
            ),
    ensures
        after.received().len() == before.received().len() + 1,
        after.received().drop_last() == before.received(),
        packet is None <==> after.received().last() is None,
        packet matches Some(given) ==> after.received().last() == Some(given@),
        after.sent() == before.sent(),
        after.out_queue() == before.out_queue(),
        after.in_queue() == before.in_queue(),
{
    assert(after.received().drop_last() =~= before.received());
}

/// A packet goes to the first client whose identifier is the port of the address, and to nobody else.
/// Where there is no such client, the answer says so and nothing is sent.
pub proof fn servers_send_by_port(
    before: MemorySocketServer,
    after: MemorySocketServer,
    addr: SocketAddr,
    port: u16,
    packet: &[u8],
    answer: Result<(), SocketError>,
    k: int,
)
    requires
        packet@.len() <= 1400,
        exists|server: &mut MemorySocketServer|
            *server == before && *final(server) == after && #[trigger] call_ensures(
                MemorySocketServer::send,
                (server, addr, packet),
                answer,
            ),
        call_ensures(SocketAddr::port, (&addr,), port),
        0 <= k < before.clients@.len(),
    ensures
        after.clients@.len() == before.clients@.len(),
        after.drain_index == before.drain_index,
        after.encrypted == before.encrypted,
        after.reliable == before.reliable,
        before.clients@[k].0 == port && (forall|i: int|
            0 <= i < k ==> (#[trigger] before.clients@[i]).0 != port) ==> {
            &&& after.clients@[k].0 == port
            &&& after.clients@[k].1.sent().len() == before.clients@[k].1.sent().len() + 1
            &&& after.clients@[k].1.sent().drop_last() == before.clients@[k].1.sent()
            &&& after.clients@[k].1.sent().last().0 == packet@
            &&& answer is Ok <==> after.clients@[k].1.sent().last().1 == PutOutcome::Taken
            &&& answer is Err ==> answer == Err::<(), SocketError>(SocketError::ConnectionAborted)
            &&& after.clients@[k].1.received() == before.clients@[k].1.received()
        },
        before.clients@[k].0 != port || (exists|i: int|
            0 <= i < k && (#[trigger] before.clients@[i]).0 == port) ==> after.clients@[k]
            == before.clients@[k],
        (forall|i: int| 0 <= i < before.clients@.len() ==> (#[trigger] before.clients@[i]).0 != port)
            ==> answer == Err::<(), SocketError>(SocketError::AddrNotAvailable),
{
    if has_no_id(before.clients@, port) {
    } else {
        lemma_first_with_id(before.clients@, port);
        let i = choose|i: int| is_first_with_id(before.clients@, port, i);
        assert(was_sent(before.clients@[i], after.clients@[i], packet@, answer));
        assert(after.clients@[i].1.sent().drop_last() =~= before.clients@[i].1.sent());
        if before.clients@[k].0 == port && (forall|j: int|
            0 <= j < k ==> (#[trigger] before.clients@[j]).0 != port) {
            assert(k == i) by {
                if i < k {
                    assert(before.clients@[i].0 != port);
                } else if k < i {
                    assert(before.clients@[k].0 != port);
                }
            }
        } else if exists|j: int| 0 <= j < k && (#[trigger] before.clients@[j]).0 == port {
            let j = choose|j: int| 0 <= j < k && (#[trigger] before.clients@[j]).0 == port;
            assert(i <= j);
        }
    }
}

/// Receiving asks the clients from the position in the round on, in the order of the list, until one has
/// a packet. That is the answer, its bytes are the front of the buffer, and its sender is known by the
/// identifier of the client, whose turn it stays. Clients that had nothing are passed over. Where no
/// client has a packet, all of them are passed over, and the buffer stays as it is.
pub proof fn servers_receive_client_by_client(
    before: MemorySocketServer,
    after: MemorySocketServer,
    buffer_before: Seq<u8>,
    buffer_after: Seq<u8>,
    answer: Result<(usize, SocketAddr), SocketError>,
    k: int,
)
    requires
        buffer_before.len() >= 1400,
        exists|server: &mut MemorySocketServer, buffer: &mut [u8]|
            *server == before && *final(server) == after && buffer@ == buffer_before
                && (*final(buffer))@ == buffer_after && #[trigger] call_ensures(
                MemorySocketServer::try_recv,
                (server, buffer),
                answer,
            ),
        0 <= k < before.clients@.len(),
    ensures
        after.clients@.len() == before.clients@.len(),
        after.clients@[k].0 == before.clients@[k].0,
        after.clients@[k].1.sent() == before.clients@[k].1.sent(),
        after.drain_index >= before.drain_index,
        k < before.drain_index || k > after.drain_index ==> after.clients@[k].1.received()
            == before.clients@[k].1.received(),
        before.drain_index <= k < after.drain_index ==> after.clients@[k].1.received()
            == before.clients@[k].1.received().push(None),
        answer is Ok <==> after.drain_index < before.clients@.len(),
        answer is Err ==> answer == Err::<(usize, SocketAddr), SocketError>(SocketError::WouldBlock)
            && buffer_after == buffer_before,
        answer is Ok && k == after.drain_index ==> {
            let n = answer->Ok_0.0 as int;
            &&& 0 <= n <= buffer_before.len() == buffer_after.len()
            &&& after.clients@[k].1.received() == before.clients@[k].1.received().push(
                Some(buffer_after.take(n)),
            )
            &&& buffer_after.skip(n) == buffer_before.skip(n)
            &&& answer->Ok_0.1 matches SocketAddr::V6(v6) && v6.ip.bits == 0 && v6.port
                == before.clients@[k].0
        },
{
    if before.drain_index <= k < after.drain_index {
        assert(was_asked(before.clients@[k], after.clients@[k], None));
    }
}

/// A new round begins with the first client.
pub proof fn rounds_begin_with_the_first(before: MemorySocketServer, after: MemorySocketServer)
    requires
        exists|server: &mut MemorySocketServer|
            *server == before && *final(server) == after && #[trigger] call_ensures(
                MemorySocketServer::preupdate,
                (server,),
                (),
            ),
    ensures
        after.drain_index == 0,
        after.clients@ == before.clients@,
        after.encrypted == before.encrypted,
        after.reliable == before.reliable,
{
}

/// There is one socket for every identifier in the list, however often it stands there, and none for any
/// other, in ascending order. Each is linked with the server's channels at the same place: what one
/// sends, the other receives, and nobody else does.
pub proof fn sockets_come_in_pairs(
    client_ids: Vec<u16>,
    encrypted: bool,
    server: MemorySocketServer,
    clients: Vec<MemorySocketClient>,
    id: u16,
    i: int,
    j: int,
)
    requires
        !client_ids@.contains(65535),
        call_ensures(new_memory_sockets, (client_ids, encrypted), (server, clients)),
        0 <= i < clients@.len(),
        0 <= j < clients@.len(),
    ensures
        server.encrypted == encrypted,
        server.reliable,
        server.drain_index == 0,
        server.clients@.len() == clients@.len(),
        client_ids@.contains(id) <==> exists|n: int|
            0 <= n < clients@.len() && (#[trigger] clients@[n]).client_id == id,
        i < j ==> clients@[i].client_id < clients@[j].client_id,
        clients@[i].client_id == server.clients@[i].0,
        clients@[i].encrypted == encrypted,
        server.clients@[i].1.out_queue() == clients@[j].channels.in_queue() <==> i == j,
        server.clients@[i].1.in_queue() == clients@[j].channels.out_queue() <==> i == j,
        server.clients@[i].1.out_queue() != server.clients@[j].1.in_queue(),
        server.clients@[i].1.sent().len() == 0,
        server.clients@[i].1.received().len() == 0,
        clients@[i].channels.sent().len() == 0,
        clients@[i].channels.received().len() == 0,
{
    let made = clients@.map_values(|client: MemorySocketClient| client.client_id);
    assert(linked(server.clients@[i], clients@[i], encrypted));
    assert(linked(server.clients@[j], clients@[j], encrypted));
    if i < j {
        assert(apart(server.clients@[i].1, server.clients@[j].1));
    } else if j < i {
        assert(apart(server.clients@[j].1, server.clients@[i].1));
    }
    assert(client_ids@.contains(id) <==> client_ids@.to_set().contains(id));
    assert(made.contains(id) <==> made.to_set().contains(id));
    if made.contains(id) {
        let n = choose|n: int| 0 <= n < made.len() && made[n] == id;
        assert(clients@[n].client_id == id);
    }
    if exists|n: int| 0 <= n < clients@.len() && (#[trigger] clients@[n]).client_id == id {
        let n = choose|n: int| 0 <= n < clients@.len() && (#[trigger] clients@[n]).client_id == id;
        assert(made[n] == id);
    }
}

/// The two ends of a pair are connected crosswise: what one sends, the other receives, and not itself.
/// Nothing went through either.
pub proof fn pairs_are_crossed(a: MemorySocketChannels, b: MemorySocketChannels)
    requires
        call_ensures(MemorySocketChannels::channel_pair, (), (a, b)),
    ensures
        a.out_queue() == b.in_queue(),
        b.out_queue() == a.in_queue(),
        a.out_queue() != a.in_queue(),
        b.out_queue() != b.in_queue(),
        a.sent().len() == 0,
        a.received().len() == 0,
        b.sent().len() == 0,
        b.received().len() == 0,
{
}

/// A packet carries the bytes that it was made of: copying it out puts them at the front of the buffer,
/// and leaves the rest of the buffer as it is.
pub proof fn packets_carry_their_bytes(
    content: &[u8],
    packet: InMemoryPacket,
    buffer_before: Seq<u8>,
    buffer_after: Seq<u8>,
    len: usize,
)
    requires
        content@.len() <= 1400,
        call_ensures(InMemoryPacket::new, (content,), packet),
        buffer_before.len() >= 1400,
        exists|buffer: &mut [u8]|
            buffer@ == buffer_before && (*final(buffer))@ == buffer_after && #[trigger] call_ensures(
                InMemoryPacket::copy_to,
                (&packet, buffer),
                len,
            ),
    ensures
        len == content@.len(),
        buffer_after.len() == buffer_before.len(),
        buffer_after.take(len as int) == content@,
        buffer_after.skip(len as int) == buffer_before.skip(len as int),
{
    assert(buffer_after.take(len as int) =~= content@);
    assert(buffer_after.skip(len as int) =~= buffer_before.skip(len as int));
}

/// Sockets tell the addresses of their side, and servers pass on what they were made with.
pub proof fn sockets_know_their_address(
    client: MemorySocketClient,
    client_addr: SocketAddr,
    clients: Vec<(u16, MemorySocketChannels)>,
    encrypted: bool,
    reliable: bool,
    server: MemorySocketServer,
    server_addr: SocketAddr,
)
    requires
        call_ensures(MemorySocketClient::addr, (&client,), client_addr),
        call_ensures(MemorySocketServer::new_with, (clients, encrypted, reliable), server),
        call_ensures(MemorySocketServer::addr, (&server,), server_addr),
    ensures
        client_addr matches SocketAddr::V6(v6) && v6.ip.bits == 0 && v6.port == client.client_id,
        server_addr matches SocketAddr::V6(v6) && v6.ip.bits == 0 && v6.port == 65535,
        server.clients@ == clients@,
        server.encrypted == encrypted,
        server.reliable == reliable,
        server.drain_index == 0,
{
}

/// Packets of up to 1400 bytes can be made and sent, buffers of at least as many can receive, and every
/// identifier but the largest can be that of a client.
pub proof fn packets_have_room(
    content: &[u8],
    server: &mut MemorySocketServer,
    addr: SocketAddr,
    buffer: &mut [u8],
    client_ids: Vec<u16>,
    encrypted: bool,
)
    requires
        content@.len() <= 1400,
        buffer@.len() >= 1400,
        forall|i: int| 0 <= i < client_ids@.len() ==> #[trigger] client_ids@[i] < 65535,
    ensures
        call_requires(InMemoryPacket::new, (content,)),
        call_requires(MemorySocketServer::send, (server, addr, content)),
        call_requires(MemorySocketServer::try_recv, (server, buffer)),
        call_requires(new_memory_sockets, (client_ids, encrypted)),
{
}

/// A clone of channels uses the same queues, with an account of its own.
pub proof fn clones_share_the_queues(channels: MemorySocketChannels, clone: MemorySocketChannels)
    requires
        call_ensures(MemorySocketChannels::clone, (&channels,), clone),
    ensures
        clone.out_queue() == channels.out_queue(),
        clone.in_queue() == channels.in_queue(),
        clone.sent().len() == 0,
        clone.received().len() == 0,
{
}

} // verus!
