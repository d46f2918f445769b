//! The queues of in-memory sockets.
//!
//! A queue has a sending end and a receiving end. Each keeps an account of what went through it.

use crossbeam::channel::{Receiver, Sender};
use vstd::prelude::*;

use crate::channels::PutOutcome;
use crate::memory_socket::{InMemoryPacket, MemorySocketChannels};

verus! {

/// The packets that ever go into a queue, the first one first. A queue is made once in one run of a
/// program, so there is one answer, though it is settled only as the run goes on.
pub uninterp spec fn queue_packets(queue: int) -> Seq<Seq<u8>>;

/// An end of the queue is ever cloned, so that others put packets in or take them out as well.
pub uninterp spec fn queue_is_shared(queue: int) -> bool;

/// The queue that a sending end puts packets into.
pub uninterp spec fn sender_queue(sender: Sender<InMemoryPacket>) -> int;

/// The queue that a receiving end takes packets from.
pub uninterp spec fn receiver_queue(receiver: Receiver<InMemoryPacket>) -> int;

/// The packets in an account that went out.
pub open spec fn went_out(sent: Seq<(Seq<u8>, PutOutcome)>) -> Seq<Seq<u8>>
    decreases sent.len(),
{
    if sent.len() == 0 {
        Seq::empty()
    } else if sent.last().1 == PutOutcome::Taken {
        went_out(sent.drop_last()).push(sent.last().0)
    } else {
        went_out(sent.drop_last())
    }
}

/// The packets in an account that came in.
pub open spec fn came_in(received: Seq<Option<Seq<u8>>>) -> Seq<Seq<u8>>
    decreases received.len(),
{
    if received.len() == 0 {
        Seq::empty()
    } else if received.last() is Some {
        came_in(received.drop_last()).push(received.last()->0)
    } else {
        came_in(received.drop_last())
    }
}

/// The bytes of a packet, if there is one.
pub open spec fn packet_content(packet: Option<InMemoryPacket>) -> Option<Seq<u8>> {
    match packet {
        Some(packet) => Some(packet@),
        None => None,
    }
}

/// The sending end of a queue.
pub struct QueueOut {
    sender: Sender<InMemoryPacket>,
    sent: Ghost<Seq<(Seq<u8>, PutOutcome)>>,
}

/// The receiving end of a queue.
pub struct QueueIn {
    receiver: Receiver<InMemoryPacket>,
    received: Ghost<Seq<Option<Seq<u8>>>>,
}

impl QueueOut {
    /// The end itself.
    pub closed spec fn end(&self) -> Sender<InMemoryPacket> {
        self.sender
    }

    /// The queue that packets go into.
    pub open spec fn queue(&self) -> int {
        sender_queue(self.end())
    }

    /// The packets that were handed over, each with what became of it.
    pub closed spec fn sent(&self) -> Seq<(Seq<u8>, PutOutcome)> {
        self.sent@
    }

    /// Calls `crossbeam::channel::Sender::try_send`, which puts the packet behind those that are in
    /// the queue, unless every receiving end is gone. The packet and what became of it go into the
    /// account, which has been kept since the queue was made. So where this is the only sending end,
    /// a packet that goes out comes after those that went out before. Nothing is said of what becomes
    /// of the packet: it is decided by whoever holds the receiving end.
    #[verifier::external_body]
    pub(crate) fn put(&mut self, packet: InMemoryPacket) -> (r: PutOutcome)
        ensures
            final(self).end() == old(self).end(),
            final(self).sent() == old(self).sent().push((packet@, r)),
            r == PutOutcome::Taken && !queue_is_shared(old(self).queue()) ==> {
                let n = went_out(old(self).sent()).len();
                &&& n < queue_packets(old(self).queue()).len()
                &&& queue_packets(old(self).queue())[n as int] == packet@
            },
    {
        match self.sender.try_send(packet) {
            Ok(_) => PutOutcome::Taken,
            Err(crossbeam::channel::TrySendError::Full(_)) => PutOutcome::Full,
            Err(crossbeam::channel::TrySendError::Disconnected(_)) => PutOutcome::Gone,
        }
    }

    /// Calls `crossbeam::channel::Sender::clone`, which makes another sending end of the same queue.
    #[verifier::external_body]
    pub(crate) fn another(&self) -> (r: QueueOut)
        ensures
            r.queue() == self.queue(),
            r.sent() == Seq::<(Seq<u8>, PutOutcome)>::empty(),
            queue_is_shared(r.queue()),
    {
        QueueOut { sender: self.sender.clone(), sent: Ghost(Seq::empty()) }
    }
}

impl QueueIn {
    /// The end itself.
    pub closed spec fn end(&self) -> Receiver<InMemoryPacket> {
        self.receiver
    }

    /// The queue that packets come from.
    pub open spec fn queue(&self) -> int {
        receiver_queue(self.end())
    }

    /// What came in, each time a packet was asked for.
    pub closed spec fn received(&self) -> Seq<Option<Seq<u8>>> {
        self.received@
    }

    /// Calls `crossbeam::channel::Receiver::try_recv`, which takes out the packet that has been in the
    /// queue longest, if there is one. The answer goes into the account, which has been kept since
    /// the queue was made. So where this is the only receiving end, the packets come in as they went
    /// into the queue, one after the other. Nothing is said of whether there is one: that depends on
    /// how many were put in by then, through another end.
    #[verifier::external_body]
    pub(crate) fn next(&mut self) -> (r: Option<InMemoryPacket>)
        ensures
            final(self).end() == old(self).end(),
            final(self).received() == old(self).received().push(packet_content(r)),
            r is Some && !queue_is_shared(old(self).queue()) ==> {
                let n = came_in(old(self).received()).len();
                &&& n < queue_packets(old(self).queue()).len()
                &&& queue_packets(old(self).queue())[n as int] == r->0@
            },
    {
        self.receiver.try_recv().ok()
    }

    /// Calls `crossbeam::channel::Receiver::clone`, which makes another receiving end of the same
    /// queue.
    #[verifier::external_body]
    pub(crate) fn another(&self) -> (r: QueueIn)
        ensures
            r.queue() == self.queue(),
            r.received() == Seq::<Option<Seq<u8>>>::empty(),
            queue_is_shared(r.queue()),
    {
        QueueIn { receiver: self.receiver.clone(), received: Ghost(Seq::empty()) }
    }
}

/// Calls `crossbeam::channel::unbounded` twice, which makes one new queue without a limit each time.
/// The two ends that it returns belong to that queue. The queues of channels that are held elsewhere
/// are others. The accounts start here.
#[verifier::external_body]
pub(crate) fn unbounded_queues(_others: &Vec<(u16, MemorySocketChannels)>) -> (r: (
    (QueueOut, QueueIn),
    (QueueOut, QueueIn),
))
    ensures
        sender_queue(r.0.0.end()) == receiver_queue(r.0.1.end()),
        sender_queue(r.1.0.end()) == receiver_queue(r.1.1.end()),
        sender_queue(r.0.0.end()) != sender_queue(r.1.0.end()),
        r.0.0.sent() == Seq::<(Seq<u8>, PutOutcome)>::empty(),
        r.1.0.sent() == Seq::<(Seq<u8>, PutOutcome)>::empty(),
        r.0.1.received() == Seq::<Option<Seq<u8>>>::empty(),
        r.1.1.received() == Seq::<Option<Seq<u8>>>::empty(),
        forall|i: int|
            0 <= i < _others@.len() ==> !crate::memory_socket::uses_queue(
                #[trigger] _others@[i],
                r.0.0.queue(),
            ) && !crate::memory_socket::uses_queue(_others@[i], r.1.0.queue()),
{
    let (a_out, a_in) = crossbeam::channel::unbounded();
    let (b_out, b_in) = crossbeam::channel::unbounded();
    let a_out = QueueOut { sender: a_out, sent: Ghost(Seq::empty()) };
    let b_out = QueueOut { sender: b_out, sent: Ghost(Seq::empty()) };
    let a_in = QueueIn { receiver: a_in, received: Ghost(Seq::empty()) };
    let b_in = QueueIn { receiver: b_in, received: Ghost(Seq::empty()) };
    ((a_out, a_in), (b_out, b_in))
}

/// What went out of an account is the packets that the queue took, and what came in is the packets that
/// the queue gave, in order.
pub proof fn accounts_tell_what_went_through(
    sent: Seq<(Seq<u8>, PutOutcome)>,
    received: Seq<Option<Seq<u8>>>,
)
    ensures
        went_out(sent) == sent.filter(
            |entry: (Seq<u8>, PutOutcome)| entry.1 == PutOutcome::Taken,
        ).map_values(|entry: (Seq<u8>, PutOutcome)| entry.0),
        came_in(received) == received.filter(
            |packet: Option<Seq<u8>>| packet is Some,
        ).map_values(|packet: Option<Seq<u8>>| packet->0),
    decreases sent.len() + received.len(),
{
    let taken = |entry: (Seq<u8>, PutOutcome)| entry.1 == PutOutcome::Taken;
    let bytes = |entry: (Seq<u8>, PutOutcome)| entry.0;
    let given = |packet: Option<Seq<u8>>| packet is Some;
    let content = |packet: Option<Seq<u8>>| packet->0;
    reveal(Seq::filter);
    if sent.len() > 0 {
        accounts_tell_what_went_through(sent.drop_last(), received);
        assert(sent.filter(taken).map_values(bytes) =~= went_out(sent));
    } else {
        assert(sent.filter(taken).map_values(bytes) =~= went_out(sent));
        if received.len() > 0 {
            accounts_tell_what_went_through(sent, received.drop_last());
            assert(received.filter(given).map_values(content) =~= came_in(received));
        } else {
            assert(received.filter(given).map_values(content) =~= came_in(received));
        }
    }
}

} // verus!
