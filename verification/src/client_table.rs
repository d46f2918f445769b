//! Book-keeping of the clients of a web socket server.
//!
//! A connection request makes a client *pending*. The layer above accepts or denies it by its
//! address. An accepted client whose session is ready becomes *active*. Clients that are lost stay
//! in the table until the next [`ClientTable::postupdate`].

use std::collections::{BTreeMap, HashMap, HashSet};

use bytes::Bytes;
use crossbeam::channel::Receiver;
use tokio::sync::mpsc::{Sender, UnboundedSender};
use tokio::task::JoinHandle;
use vstd::prelude::*;

use crate::addr::{client_idx_to_addr, SocketAddr};
use crate::collections::{set_members, sorted_map_keys};
use crate::ends::{RunningTask, SignalOutbox, TaskOutbox, ThreadInbox};
use crate::error::SocketError;
use crate::packet_bytes::{bytes_as_slice, bytes_copy_from_slice};
use crate::slices::copy_to_front;

verus! {

broadcast use {
    vstd::std_specs::hash::group_hash_axioms,
    vstd::std_specs::btree::group_btree_axioms,
    vstd::laws_cmp::group_laws_cmp,
};

/// The answer to a connection request.
#[derive(Debug, Clone, Copy, PartialEq, Eq, Structural)]
pub enum ConnectionRequestResult {
    /// The request was accepted for this client id.
    Success { client_id: u64 },
    /// The request was turned down.
    Failure,
}

/// A connection request on its way from the connection handler to the server.
pub struct ConnectionRequest {
    /// Index of the client that makes the request.
    pub client_idx: u64,
    /// The request itself.
    pub packet: Vec<u8>,
    /// Where the answer goes.
    pub result_sender: TaskOutbox<ConnectionRequestResult>,
}

/// A session on its way from the connection handler to the server.
pub enum ClientConnectionResult<S> {
    /// The session is ready.
    Success { client_idx: u64, client_id: u64, session: S },
    /// The session could not be set up after the request had been accepted.
    Failure { client_idx: u64 },
}

/// A client whose connection request waits for its session.
pub struct PendingClient {
    client_idx: u64,
    client_id: Option<u64>,
    result_sender: TaskOutbox<ConnectionRequestResult>,
    buffered_response: Option<Bytes>,
}

/// What a [`PendingClient`] stands for.
#[verifier::ext_equal]
pub struct PendingView {
    /// Index of the client.
    pub client_idx: u64,
    /// The client id that the request was accepted for, if it was.
    pub client_id: Option<u64>,
    /// The packet to forward once the session is ready.
    pub buffered: Option<Seq<u8>>,
    /// Where the answers go.
    pub answer_end: Sender<ConnectionRequestResult>,
    /// The answers that were handed over there so far.
    pub replies: Seq<ConnectionRequestResult>,
}

impl View for PendingClient {
    type V = PendingView;

    closed spec fn view(&self) -> PendingView {
        PendingView {
            client_idx: self.client_idx,
            client_id: self.client_id,
            buffered: packet_content(self.buffered_response),
            answer_end: self.result_sender.end(),
            replies: crate::ends::messages(self.result_sender.handed()),
        }
    }
}

impl PendingView {
    /// A client that was just added.
    pub open spec fn fresh(
        client_idx: u64,
        result_sender: TaskOutbox<ConnectionRequestResult>,
    ) -> PendingView {
        PendingView {
            client_idx,
            client_id: None,
            buffered: None,
            answer_end: result_sender.end(),
            replies: crate::ends::messages(result_sender.handed()),
        }
    }

    /// The client of a connection request.
    pub open spec fn of_request(request: ConnectionRequest) -> PendingView {
        PendingView::fresh(request.client_idx, request.result_sender)
    }

    /// The client after one more answer.
    pub open spec fn answered(self, result: ConnectionRequestResult) -> PendingView {
        PendingView { replies: self.replies.push(result), ..self }
    }

    /// The client after its request was accepted.
    pub open spec fn accepted(self, client_id: u64) -> PendingView {
        PendingView {
            client_id: Some(client_id),
            ..self.answered(ConnectionRequestResult::Success { client_id })
        }
    }

    /// The client after its request was turned down, which it is told or not.
    pub open spec fn turned_down(self, aloud: bool) -> PendingView {
        if aloud {
            self.answered(ConnectionRequestResult::Failure)
        } else {
            self
        }
    }

    /// The client with a packet to forward: the first one stays.
    pub open spec fn with_buffer(self, packet: Seq<u8>) -> PendingView {
        if self.buffered is Some {
            self
        } else {
            PendingView { buffered: Some(packet), ..self }
        }
    }
}

impl PendingClient {
    /// Makes a client that has not been accepted.
    pub fn new(client_idx: u64, result_sender: TaskOutbox<ConnectionRequestResult>) -> (r: Self)
        ensures
            r@ == PendingView::fresh(client_idx, result_sender),
    {
        PendingClient { client_idx, client_id: None, result_sender, buffered_response: None }
    }

    /// Sets the buffered response with the first packet received.
    pub fn set_buffer(&mut self, packet: &[u8])
        ensures
            final(self)@ == old(self)@.with_buffer(packet@),
    {
        if self.buffered_response.is_some() {
            return;
        }
        self.buffered_response = Some(bytes_copy_from_slice(packet));
    }

    /// Answers the request.
    fn reply(&mut self, result: ConnectionRequestResult)
        ensures
            final(self)@ == old(self)@.answered(result),
    {
        let ghost before = self.result_sender.handed();
        let outcome = self.result_sender.put(result);
        proof {
            crate::ends::lemma_messages_push(before, result, outcome);
        }
    }

    /// Records and reports that the request was accepted.
    fn accept(&mut self, client_id: u64)
        ensures
            final(self)@ == old(self)@.accepted(client_id),
    {
        self.reply(ConnectionRequestResult::Success { client_id });
        self.client_id = Some(client_id);
    }

    /// Turns the request down, and reports it if that is to be done aloud.
    fn turn_down(&mut self, aloud: bool)
        ensures
            final(self)@ == old(self)@.turned_down(aloud),
    {
        if aloud {
            self.reply(ConnectionRequestResult::Failure);
        }
    }
}

/// A client with a session.
pub struct ServerClient<S> {
    session: S,
    reader_receiver: ThreadInbox<Bytes>,
    abort_sender: SignalOutbox,
    reader_thread: RunningTask,
    client_id: u64,
}

/// What a [`ServerClient`] stands for.
#[verifier::ext_equal]
pub struct ClientView<S> {
    /// Session with the client.
    pub session: S,
    /// Client id that the session was opened for.
    pub client_id: u64,
    /// Where the packets come from.
    pub packet_end: Receiver<Bytes>,
    /// What the reader gave there, each time it was asked for a packet.
    pub packets: Seq<Option<Seq<u8>>>,
    /// The reader.
    pub reader: JoinHandle<()>,
    /// Whether the reader was over, each time it was asked.
    pub checks: Seq<bool>,
    /// Where the reader is told to stop.
    pub stop_end: UnboundedSender<()>,
    /// How often it was told so.
    pub stops: nat,
}

impl<S> View for ServerClient<S> {
    type V = ClientView<S>;

    closed spec fn view(&self) -> ClientView<S> {
        ClientView {
            session: self.session,
            client_id: self.client_id,
            packet_end: self.reader_receiver.end(),
            packets: self.reader_receiver.given().map_values(
                |packet: Option<Bytes>| packet_content(packet),
            ),
            reader: self.reader_thread.task(),
            checks: self.reader_thread.checks(),
            stop_end: self.abort_sender.end(),
            stops: self.abort_sender.handed().len(),
        }
    }
}

impl<S> ClientView<S> {
    /// The client after its reader was asked for a packet, and gave this.
    pub open spec fn polled(self, packet: Option<Seq<u8>>) -> ClientView<S> {
        ClientView { packets: self.packets.push(packet), ..self }
    }

    /// The client after its reader was asked whether it is over.
    pub open spec fn checked(self, finished: bool) -> ClientView<S> {
        ClientView { checks: self.checks.push(finished), ..self }
    }

    /// The client after its reader was told to stop.
    pub open spec fn stopped(self) -> ClientView<S> {
        ClientView { stops: self.stops + 1, ..self }
    }
}

/// The content of a packet, if there is one.
pub open spec fn packet_content(packet: Option<Bytes>) -> Option<Seq<u8>> {
    match packet {
        Some(bytes) => Some(crate::packet_bytes::bytes_content(bytes)),
        None => None,
    }
}

impl<S> ServerClient<S> {
    /// Makes a client of its session and of what belongs to its reader.
    pub fn new(
        session: S,
        reader_receiver: Receiver<Bytes>,
        abort_sender: UnboundedSender<()>,
        reader_thread: JoinHandle<()>,
        client_id: u64,
    ) -> (r: Self)
        ensures
            r@ == (ClientView {
                session,
                client_id,
                packet_end: reader_receiver,
                packets: Seq::empty(),
                reader: reader_thread,
                checks: Seq::empty(),
                stop_end: abort_sender,
                stops: 0,
            }),
    {
        let r = ServerClient {
            session,
            reader_receiver: ThreadInbox::new(reader_receiver),
            abort_sender: SignalOutbox::new(abort_sender),
            reader_thread: RunningTask::new(reader_thread),
            client_id,
        };
        assert(r@.packets =~= Seq::empty());
        r
    }

    /// The session.
    pub fn session(&self) -> (r: &S)
        ensures
            *r == self@.session,
    {
        &self.session
    }

    /// Takes the next packet of the client, if there is one.
    fn poll(&mut self) -> (r: Option<Bytes>)
        ensures
            final(self)@ == old(self)@.polled(packet_content(r)),
    {
        let packet = self.reader_receiver.next();
        assert(self@.packets =~= old(self)@.packets.push(packet_content(packet)));
        packet
    }

    /// Asks whether the reader is over.
    fn check(&mut self) -> (r: bool)
        ensures
            final(self)@ == old(self)@.checked(r),
    {
        self.reader_thread.is_finished()
    }

    /// Tells the reader to stop.
    fn abort(&mut self)
        ensures
            final(self)@ == old(self)@.stopped(),
    {
        let _ = self.abort_sender.put();
    }
}

/// The clients of a server.
pub struct ClientTable<S> {
    pending_clients: HashMap<u64, PendingClient>,
    clients: BTreeMap<u64, ServerClient<S>>,
    /// Maps client ids to client indices.
    client_id_to_idx: HashMap<u64, u64>,
    lost_clients: HashSet<u64>,
    current_clients: usize,
    recv_index: u64,
    /// The clients of requests that did not fit.
    refused: Vec<PendingClient>,
}

/// What a [`ClientTable`] stands for.
#[verifier::ext_equal]
pub struct TableView<S> {
    /// The pending clients, by index.
    pub pending: Map<u64, PendingView>,
    /// The active clients, by index.
    pub clients: Map<u64, ClientView<S>>,
    /// The index that holds each client id.
    pub slots: Map<u64, u64>,
    /// The clients that are to be removed.
    pub lost: Set<u64>,
    /// The number of pending and active clients, as the connection handler sees it.
    pub count: usize,
    /// The first client that may still have packets in this round.
    pub recv_index: u64,
    /// The clients who were told that their request was turned down because it did not fit, since
    /// lost clients were last removed.
    pub refused: Seq<PendingView>,
}

impl<S> View for ClientTable<S> {
    type V = TableView<S>;

    closed spec fn view(&self) -> TableView<S> {
        TableView {
            pending: self.pending_clients@.map_values(|client: PendingClient| client@),
            clients: self.clients@.map_values(|client: ServerClient<S>| client@),
            slots: self.client_id_to_idx@,
            lost: self.lost_clients@,
            count: self.current_clients,
            recv_index: self.recv_index,
            refused: pending_views(self.refused@),
        }
    }
}

/// What these clients stand for.
pub open spec fn pending_views(clients: Seq<PendingClient>) -> Seq<PendingView> {
    clients.map_values(|client: PendingClient| client@)
}

/// The clients that were removed from a table. Their ends close when this is dropped.
pub struct Departed<S> {
    /// The active clients, by index.
    pub clients: HashMap<u64, ServerClient<S>>,
    /// The pending clients, by index.
    pub pending: HashMap<u64, PendingClient>,
    /// The clients of requests that did not fit.
    pub refused: Vec<PendingClient>,
}

/// What [`Departed`] clients stand for.
#[verifier::ext_equal]
pub struct DepartedView<S> {
    /// The active clients, by index.
    pub clients: Map<u64, ClientView<S>>,
    /// The pending clients, by index.
    pub pending: Map<u64, PendingView>,
    /// The clients of requests that did not fit.
    pub refused: Seq<PendingView>,
}

impl<S> View for Departed<S> {
    type V = DepartedView<S>;

    open spec fn view(&self) -> DepartedView<S> {
        DepartedView {
            clients: self.clients@.map_values(|client: ServerClient<S>| client@),
            pending: self.pending@.map_values(|client: PendingClient| client@),
            refused: pending_views(self.refused@),
        }
    }
}

impl<S> TableView<S> {
    /// The indices in the table.
    pub open spec fn indices(self) -> Set<u64> {
        self.clients.dom() + self.pending.dom()
    }

    /// Nobody is both pending and active, and the count is right.
    pub open spec fn consistent(self) -> bool {
        &&& self.clients.dom().finite()
        &&& self.pending.dom().finite()
        &&& self.lost.finite()
        &&& self.clients.dom().disjoint(self.pending.dom())
        &&& self.count == self.clients.len() + self.pending.len()
    }

    /// Every client that was accepted for a client id holds it, or is to be removed.
    pub open spec fn settled(self) -> bool {
        &&& forall|idx: u64| #[trigger]
            self.clients.contains_key(idx) ==> self.lost.contains(idx) || self.holds(
                self.clients[idx].client_id,
                idx,
            )
        &&& forall|idx: u64| #[trigger]
            self.pending.contains_key(idx) && self.pending[idx].client_id is Some
                ==> self.lost.contains(idx) || self.holds(self.pending[idx].client_id->0, idx)
    }

    /// The table with one more client to remove.
    pub open spec fn losing(self, idx: u64) -> TableView<S> {
        TableView { lost: self.lost.insert(idx), ..self }
    }

    /// A table without clients.
    pub open spec fn empty() -> TableView<S> {
        TableView {
            pending: Map::empty(),
            clients: Map::empty(),
            slots: Map::empty(),
            lost: Set::empty(),
            count: 0,
            recv_index: 0,
            refused: Seq::empty(),
        }
    }

    /// The table with a new pending client.
    pub open spec fn with_pending(self, request: ConnectionRequest) -> TableView<S> {
        TableView {
            pending: self.pending.insert(request.client_idx, PendingView::of_request(request)),
            count: self.count.wrapping_add(1),
            ..self
        }
    }

    /// The table after a request was turned down because it did not fit, which the client is told or
    /// not.
    pub open spec fn refusing(self, aloud: bool, request: ConnectionRequest) -> TableView<S> {
        if aloud {
            TableView {
                refused: self.refused.push(PendingView::of_request(request).turned_down(true)),
                ..self
            }
        } else {
            self
        }
    }

    /// The table after the request of a client was accepted for a client id. Whoever held the
    /// client id before is to be removed. A client that is not pending is ignored.
    pub open spec fn accepting(self, client_id: u64, idx: u64) -> TableView<S> {
        if self.pending.contains_key(idx) {
            TableView {
                pending: self.pending.insert(idx, self.pending[idx].accepted(client_id)),
                slots: self.slots.insert(client_id, idx),
                lost: if self.slots.contains_key(client_id) && self.slots[client_id] != idx {
                    self.lost.insert(self.slots[client_id])
                } else {
                    self.lost
                },
                ..self
            }
        } else {
            self
        }
    }
}

/// What follows from a session.
pub enum SessionStep<S> {
    /// Nothing; go on with the next session.
    Skip,
    /// Nothing, and leave the rest of the sessions for later.
    Stop,
    /// Start a reader for the session, make the client active, and forward the packet.
    Open { client_idx: u64, client_id: u64, session: S, buffered: Option<Bytes> },
}

/// What follows from a packet to send.
pub enum SendStep {
    /// Nothing; the packet was kept or is no longer needed.
    Done,
    /// Transmit the data through the session of the client.
    Transmit { data: Bytes },
}

impl<S> TableView<S> {
    /// The table without a pending client.
    pub open spec fn without_pending(self, idx: u64) -> TableView<S> {
        TableView { pending: self.pending.remove(idx), ..self }
    }

    /// The client id is held by the index.
    pub open spec fn holds(self, client_id: u64, idx: u64) -> bool {
        self.slots.contains_key(client_id) && self.slots[client_id] == idx
    }

    /// What a session does to the table, and what follows from it.
    pub open spec fn session_taken(
        self,
        after: TableView<S>,
        connection: ClientConnectionResult<S>,
        step: SessionStep<S>,
    ) -> bool {
        match connection {
            ClientConnectionResult::Failure { client_idx } => {
                &&& after == self.losing(client_idx)
                &&& step is Skip
            },
            ClientConnectionResult::Success { client_idx, client_id, session } => {
                if !self.pending.contains_key(client_idx) {
                    &&& after == self
                    &&& step is Skip
                } else if !self.holds(client_id, client_idx) {
                    &&& after == (TableView {
                        count: self.count.wrapping_sub(1),
                        ..self.without_pending(client_idx)
                    })
                    &&& step is Stop
                } else {
                    &&& after == self.without_pending(client_idx)
                    &&& step matches SessionStep::Open {
                        client_idx: idx,
                        client_id: id,
                        session: s,
                        buffered,
                    } && idx == client_idx && id == client_id && s == session && packet_content(
                        buffered,
                    ) == self.pending[client_idx].buffered
                }
            },
        }
    }
}

/// The packet is there and fits.
pub open spec fn usable(packet: Option<Seq<u8>>, limit: nat) -> bool {
    packet is Some && packet->0.len() <= limit
}

impl<S> TableView<S> {
    /// The table after a client gave this when it was asked for a packet.
    pub open spec fn after_packet(
        self,
        idx: u64,
        packet: Option<Seq<u8>>,
        limit: nat,
    ) -> TableView<S> {
        TableView {
            lost: if packet is Some && !usable(packet, limit) {
                self.lost.insert(idx)
            } else {
                self.lost
            },
            recv_index: if packet is None {
                (idx + 1) as u64
            } else {
                self.recv_index
            },
            ..self
        }
    }

    /// The table after one client was asked for a packet and gave this.
    pub open spec fn after_poll(
        self,
        idx: u64,
        packet: Option<Seq<u8>>,
        limit: nat,
    ) -> TableView<S> {
        TableView {
            clients: self.clients.insert(idx, self.clients[idx].polled(packet)),
            ..self.after_packet(idx, packet, limit)
        }
    }

    /// The table after the clients were asked for packets in this order and gave these.
    pub open spec fn after_polls(
        self,
        idxs: Seq<u64>,
        packets: Seq<Option<Seq<u8>>>,
        limit: nat,
    ) -> TableView<S>
        decreases idxs.len(),
    {
        if idxs.len() == 0 {
            self
        } else {
            self.after_polls(idxs.drop_last(), packets.drop_last(), limit).after_poll(
                idxs.last(),
                packets.last(),
                limit,
            )
        }
    }

    /// The active clients that are left in this round, in ascending order.
    pub open spec fn is_round(self, end_index: u64, idxs: Seq<u64>) -> bool {
        &&& forall|a: int, b: int| 0 <= a < b < idxs.len() ==> idxs[a] < idxs[b]
        &&& forall|k: u64| #[trigger]
            idxs.contains(k) <==> self.clients.contains_key(k) && self.recv_index <= k < end_index
    }

    /// What asking for a packet does, where `idxs` are the clients left in this round, and
    /// `packets` is what the first of them gave. The first packet that fits is the answer.
    pub open spec fn polled(
        self,
        after: TableView<S>,
        end_index: u64,
        idxs: Seq<u64>,
        packets: Seq<Option<Seq<u8>>>,
        buffer_before: Seq<u8>,
        buffer_after: Seq<u8>,
        answer: Result<(usize, SocketAddr), SocketError>,
    ) -> bool {
        let limit = buffer_before.len();
        let n = packets.len() as int;
        &&& self.is_round(end_index, idxs)
        &&& n <= idxs.len()
        &&& after == self.after_polls(idxs.take(n), packets, limit)
        &&& forall|j: int| 0 <= j < n - 1 ==> !usable(#[trigger] packets[j], limit)
        &&& match answer {
            Ok((len, addr)) => {
                &&& n > 0
                &&& usable(packets[n - 1], limit)
                &&& len == packets[n - 1]->0.len()
                &&& addr == crate::addr::client_addr(idxs[n - 1])
                &&& buffer_after == packets[n - 1]->0 + buffer_before.skip(len as int)
            },
            Err(e) => {
                &&& e == SocketError::WouldBlock
                &&& n == idxs.len()
                &&& n > 0 ==> !usable(packets[n - 1], limit)
                &&& buffer_after == buffer_before
            },
        }
    }
}

/// The client was asked whether its reader is over, and nothing else happened to it.
pub open spec fn reader_checked<S>(before: ClientView<S>, after: ClientView<S>) -> bool {
    ||| after == before.checked(true)
    ||| after == before.checked(false)
}

/// Every client was asked whether its reader is over.
pub open spec fn readers_checked<S>(
    before: Map<u64, ClientView<S>>,
    after: Map<u64, ClientView<S>>,
) -> bool {
    &&& before.dom() == after.dom()
    &&& forall|k: u64| #[trigger]
        before.contains_key(k) ==> reader_checked(before[k], after[k])
}

/// The clients whose reader was over when they were last asked.
pub open spec fn finished<S>(clients: Map<u64, ClientView<S>>) -> Set<u64> {
    Set::new(
        |k: u64|
            clients.contains_key(k) && clients[k].checks.last(),
    )
}

/// Counts down, and around below zero.
pub open spec fn counted_down(count: usize, by: nat) -> usize
    decreases by,
{
    if by == 0 {
        count
    } else {
        counted_down(count, (by - 1) as nat).wrapping_sub(1)
    }
}

impl<S> TableView<S> {
    /// The client id that a client in the table was accepted for, or the largest one where it was
    /// not accepted.
    pub open spec fn id_of(self, idx: u64) -> u64 {
        if self.clients.contains_key(idx) {
            self.clients[idx].client_id
        } else {
            match self.pending[idx].client_id {
                Some(client_id) => client_id,
                None => u64::MAX,
            }
        }
    }

    /// The client ids that become free when these clients go.
    pub open spec fn freed(self, gone: Set<u64>) -> Set<u64> {
        Set::new(
            |id: u64|
                {
                    &&& self.slots.contains_key(id)
                    &&& gone.contains(self.slots[id])
                    &&& self.indices().contains(self.slots[id])
                    &&& self.id_of(self.slots[id]) == id
                },
        )
    }

    /// The table without these clients. Of a client that is both active and pending, the active
    /// one goes.
    pub open spec fn without(self, gone: Set<u64>) -> TableView<S> {
        TableView {
            clients: self.clients.remove_keys(gone),
            pending: self.pending.remove_keys(gone.difference(self.clients.dom())),
            slots: self.slots.remove_keys(self.freed(gone)),
            count: counted_down(self.count, gone.intersect(self.indices()).len()),
            ..self
        }
    }

    /// The clients that go when these indices go: the reader of an active client was told to stop,
    /// and a pending client was turned down, which it was told or not.
    pub open spec fn departing(self, aloud: bool, gone: Set<u64>) -> DepartedView<S> {
        DepartedView {
            clients: Map::new(
                |k: u64| gone.contains(k) && self.clients.contains_key(k),
                |k: u64| self.clients[k].stopped(),
            ),
            pending: Map::new(
                |k: u64|
                    gone.contains(k) && !self.clients.contains_key(k) && self.pending.contains_key(
                        k,
                    ),
                |k: u64| self.pending[k].turned_down(aloud),
            ),
            refused: self.refused,
        }
    }

    /// What the removal of lost clients does, where `checked` are the active clients after they
    /// were asked whether their reader is over, and `departed` are the clients that went.
    pub open spec fn cleaned(
        self,
        aloud: bool,
        checked: Map<u64, ClientView<S>>,
        after: TableView<S>,
        departed: DepartedView<S>,
    ) -> bool {
        let base = TableView { clients: checked, lost: Set::empty(), ..self };
        let gone = self.lost + finished(checked);
        &&& readers_checked(self.clients, checked)
        &&& after == (TableView { refused: Seq::empty(), ..base.without(gone) })
        &&& departed == base.departing(aloud, gone)
    }

    /// The table without one client.
    spec fn dropping(self, idx: u64) -> TableView<S> {
        if self.indices().contains(idx) {
            TableView {
                clients: self.clients.remove(idx),
                pending: if self.clients.contains_key(idx) {
                    self.pending
                } else {
                    self.pending.remove(idx)
                },
                slots: if self.holds(self.id_of(idx), idx) {
                    self.slots.remove(self.id_of(idx))
                } else {
                    self.slots
                },
                count: self.count.wrapping_sub(1),
                ..self
            }
        } else {
            self
        }
    }

    /// Clients can be removed one after the other.
    proof fn lemma_without_one(self, gone: Set<u64>, idx: u64)
        requires
            gone.finite(),
            !gone.contains(idx),
        ensures
            self.without(gone).dropping(idx) == self.without(gone.insert(idx)),
            self.without(gone).clients.contains_key(idx) == self.clients.contains_key(idx),
            self.without(gone).pending.contains_key(idx) == self.pending.contains_key(idx),
            self.clients.contains_key(idx) ==> self.without(gone).clients[idx]
                == self.clients[idx],
            self.pending.contains_key(idx) ==> self.without(gone).pending[idx]
                == self.pending[idx],
    {
        let all = gone.insert(idx);
        let one = self.without(gone);
        let left = one.dropping(idx);
        let right = self.without(all);
        assert(left.clients =~= right.clients);
        assert(left.pending =~= right.pending);
        assert(one.indices().contains(idx) == self.indices().contains(idx));
        if self.indices().contains(idx) {
            assert(all.intersect(self.indices()) =~= gone.intersect(self.indices()).insert(idx));
            assert(one.id_of(idx) == self.id_of(idx));
        } else {
            assert(all.intersect(self.indices()) =~= gone.intersect(self.indices()));
        }
        assert(left.slots =~= right.slots);
    }

    /// Removing clients keeps the table consistent.
    proof fn lemma_without_consistent(self, gone: Set<u64>)
        requires
            self.consistent(),
            gone.finite(),
        ensures
            self.without(gone).consistent(),
        decreases gone.len(),
    {
        if gone.is_empty() {
            assert(gone =~= Set::empty());
            assert(gone.intersect(self.indices()) =~= Set::empty());
            assert(self.without(gone) =~= self);
        } else {
            let idx = gone.choose();
            let rest = gone.remove(idx);
            self.lemma_without_consistent(rest);
            self.lemma_without_one(rest, idx);
            assert(rest.insert(idx) =~= gone);
            let one = self.without(rest);
            if one.indices().contains(idx) {
                if one.clients.contains_key(idx) {
                    assert(one.dropping(idx).clients.dom() =~= one.clients.dom().remove(idx));
                    assert(one.dropping(idx).pending.dom() =~= one.pending.dom());
                } else {
                    assert(one.dropping(idx).clients.dom() =~= one.clients.dom());
                    assert(one.dropping(idx).pending.dom() =~= one.pending.dom().remove(idx));
                }
            }
        }
    }
}

impl<S> ClientTable<S> {
    /// Makes a table without clients.
    pub fn new() -> (r: Self)
        ensures
            r@ == TableView::<S>::empty(),
            r@.consistent(),
    {
        let r = ClientTable {
            pending_clients: HashMap::new(),
            clients: BTreeMap::new(),
            client_id_to_idx: HashMap::new(),
            lost_clients: HashSet::new(),
            current_clients: 0,
            recv_index: 0,
            refused: Vec::new(),
        };
        assert(r@.refused =~= Seq::empty());
        assert(r@.pending =~= Map::empty());
        assert(r@.clients =~= Map::empty());
        r
    }

    /// The number of pending and active clients.
    pub fn current_clients(&self) -> (r: usize)
        ensures
            r == self@.count,
    {
        self.current_clients
    }

    /// The session of an active client.
    pub fn session(&self, client_idx: u64) -> (r: Option<&S>)
        ensures
            match r {
                Some(session) => self@.clients.contains_key(client_idx) && *session
                    == self@.clients[client_idx].session,
                None => !self@.clients.contains_key(client_idx),
            },
    {
        match self.clients.get(&client_idx) {
            Some(client) => Some(client.session()),
            None => None,
        }
    }

    /// Marks a client as lost. It is removed by the next `postupdate`.
    pub fn lose(&mut self, client_idx: u64)
        ensures
            final(self)@ == old(self)@.losing(client_idx),
            old(self)@.consistent() ==> final(self)@.consistent(),
            old(self)@.settled() ==> final(self)@.settled(),
    {
        self.lost_clients.insert(client_idx);
    }

    /// Records that the request of a client was accepted for a client id.
    ///
    /// If the client is not pending, then this is ignored as spurious, which avoids a race
    /// condition between a newer pending client's initial connection request, and secondary
    /// connection requests from accepted connections.
    pub fn connection_accepted(&mut self, client_id: u64, client_idx: u64)
        ensures
            final(self)@ == old(self)@.accepting(client_id, client_idx),
            old(self)@.consistent() ==> final(self)@.consistent(),
            old(self)@.settled() ==> final(self)@.settled(),
    {
        let mut pending_client = match self.pending_clients.remove(&client_idx) {
            Some(pending_client) => pending_client,
            None => {
                assert(self.pending_clients@ =~= old(self).pending_clients@);
                return ;
            },
        };
        // Notify the pending connection of success.
        pending_client.accept(client_id);
        self.pending_clients.insert(client_idx, pending_client);
        assert(self@.pending =~= old(self)@.pending.insert(
            client_idx,
            old(self)@.pending[client_idx].accepted(client_id),
        ));
        // Insert this connection to the client id slot.
        if let Some(prev_client_idx) = self.client_id_to_idx.insert(client_id, client_idx) {
            // Sanity check the prev entry was a different connection.
            if prev_client_idx != client_idx {
                // Disconnect the previous connection that was using this client id slot.
                self.lost_clients.insert(prev_client_idx);
            }
        }
    }

    /// Takes in a connection request. The request is copied to the front of the buffer, and its
    /// length and the address of the new pending client are returned. A request that does not fit
    /// into the buffer is refused. If that is done aloud, the client is told so. If not, its end of the
    /// answers just closes.
    pub fn add_request(&mut self, aloud: bool, request: ConnectionRequest, buffer: &mut [u8]) -> (r:
        Option<(usize, SocketAddr)>)
        ensures
            request.packet@.len() > old(buffer)@.len() ==> {
                &&& r is None
                &&& final(self)@ == old(self)@.refusing(aloud, request)
                &&& final(buffer)@ == old(buffer)@
            },
            request.packet@.len() <= old(buffer)@.len() ==> {
                &&& r == Some(
                    (
                        request.packet@.len() as usize,
                        crate::addr::client_addr(request.client_idx),
                    ),
                )
                &&& final(self)@ == old(self)@.with_pending(request)
                &&& final(buffer)@ == request.packet@ + old(buffer)@.skip(
                    request.packet@.len() as int,
                )
            },
            old(self)@.consistent() && !old(self)@.indices().contains(request.client_idx) && old(
                self,
            )@.count < usize::MAX ==> final(self)@.consistent(),
            old(self)@.settled() ==> final(self)@.settled(),
    {
        let ghost added = PendingView::of_request(request);
        let client_idx = request.client_idx;
        let mut pending_client = PendingClient::new(client_idx, request.result_sender);
        if request.packet.len() > buffer.len() {
            // Discard the new client if it has a bad connection request.
            if aloud {
                pending_client.turn_down(true);
                let ghost refused = pending_client@;
                self.refused.push(pending_client);
                assert(self@.refused =~= old(self)@.refused.push(refused));
            }
            assert(self@.pending == old(self)@.pending && self@.clients == old(self)@.clients);
            return None;
        }
        // Add pending client entry for its client idx.
        self.pending_clients.insert(client_idx, pending_client);
        self.current_clients = self.current_clients.wrapping_add(1);
        assert(self@.pending =~= old(self)@.pending.insert(
            client_idx,
            added,
        ));
        proof {
            if old(self)@.settled() {
                assert forall|idx: u64| #[trigger]
                    self@.pending.contains_key(idx)
                        && self@.pending[idx].client_id is Some implies self@.lost.contains(idx)
                    || self@.holds(self@.pending[idx].client_id->0, idx) by {
                    assert(old(self)@.pending.contains_key(idx));
                }
                assert forall|idx: u64| #[trigger]
                    self@.clients.contains_key(idx) implies self@.lost.contains(idx)
                    || self@.holds(self@.clients[idx].client_id, idx) by {
                    assert(old(self)@.clients.contains_key(idx));
                }
            }
        }
        copy_to_front(buffer, request.packet.as_slice());
        Some((request.packet.len(), client_idx_to_addr(client_idx)))
    }

    /// Takes in a session, or the news that there is none.
    ///
    /// If the client is no longer pending then the session is discarded. This can happen if the
    /// client was disconnected while the accepted connection was in transit, or if another client
    /// usurped its client id.
    pub fn take_session(&mut self, connection: ClientConnectionResult<S>) -> (r: SessionStep<S>)
        ensures
            old(self)@.session_taken(final(self)@, connection, r),
    {
        let (client_idx, client_id, session) = match connection {
            ClientConnectionResult::Success { client_idx, client_id, session } => {
                (client_idx, client_id, session)
            },
            ClientConnectionResult::Failure { client_idx } => {
                self.lost_clients.insert(client_idx);
                return SessionStep::Skip;
            },
        };
        // Remove the pending client.
        let pending_client = match self.pending_clients.remove(&client_idx) {
            Some(pending_client) => pending_client,
            None => {
                assert(self.pending_clients@ =~= old(self).pending_clients@);
                return SessionStep::Skip;
            },
        };
        assert(self@.pending =~= old(self)@.pending.remove(client_idx));
        // Sanity check that this connection is still tied to its client id.
        let holds_slot = match self.client_id_to_idx.get(&client_id) {
            Some(idx) => *idx == client_idx,
            None => false,
        };
        if !holds_slot {
            self.current_clients = self.current_clients.wrapping_sub(1);
            return SessionStep::Stop;
        }
        SessionStep::Open {
            client_idx,
            client_id,
            session,
            buffered: pending_client.buffered_response,
        }
    }

    /// Makes a client active.
    pub fn open_client(&mut self, client_idx: u64, client: ServerClient<S>)
        ensures
            final(self)@ == (TableView {
                clients: old(self)@.clients.insert(client_idx, client@),
                ..old(self)@
            }),
    {
        self.clients.insert(client_idx, client);
        assert(self@.clients =~= old(self)@.clients.insert(client_idx, client@));
    }

    /// Starts a new round of receiving, with the first client.
    pub fn start_round(&mut self)
        ensures
            final(self)@ == (TableView { recv_index: 0, ..old(self)@ }),
    {
        self.recv_index = 0;
    }

    /// Decides what happens to a packet for a client. A packet for an active client is to be
    /// transmitted, one for a pending client is kept if it is the first.
    pub fn send(&mut self, client_idx: u64, packet: &[u8]) -> (r: Result<SendStep, SocketError>)
        ensures
            old(self)@.clients.contains_key(client_idx) ==> {
                &&& final(self)@ == old(self)@
                &&& r matches Ok(SendStep::Transmit { data })
                    && crate::packet_bytes::bytes_content(data) == packet@
            },
            !old(self)@.clients.contains_key(client_idx) && old(self)@.pending.contains_key(
                client_idx,
            ) ==> {
                &&& final(self)@ == (TableView {
                    pending: old(self)@.pending.insert(
                        client_idx,
                        old(self)@.pending[client_idx].with_buffer(packet@),
                    ),
                    ..old(self)@
                })
                &&& r == Ok::<SendStep, SocketError>(SendStep::Done)
            },
            !old(self)@.indices().contains(client_idx) ==> {
                &&& final(self)@ == old(self)@
                &&& r == Err::<SendStep, SocketError>(SocketError::ConnectionAborted)
            },
            old(self)@.consistent() ==> final(self)@.consistent(),
            old(self)@.settled() ==> final(self)@.settled(),
    {
        if self.clients.contains_key(&client_idx) {
            return Ok(SendStep::Transmit { data: bytes_copy_from_slice(packet) });
        }
        // Buffer packet if directed to a pending client.
        match self.pending_clients.remove(&client_idx) {
            Some(mut pending_client) => {
                pending_client.set_buffer(packet);
                self.pending_clients.insert(client_idx, pending_client);
                assert(self@.pending =~= old(self)@.pending.insert(
                    client_idx,
                    old(self)@.pending[client_idx].with_buffer(packet@),
                ));
                Ok(SendStep::Done)
            },
            None => {
                assert(self.pending_clients@ =~= old(self).pending_clients@);
                Err(SocketError::ConnectionAborted)
            },
        }
    }

    /// Takes in what a client gave when it was asked for a packet. A packet that fits is copied to the
    /// front of the buffer, and its length and its sender are returned. A client whose packet does
    /// not fit is lost. A client that had no packet is not asked again in this round.
    pub fn take_packet(&mut self, client_idx: u64, packet: Option<Bytes>, buffer: &mut [u8]) -> (r:
        Option<(usize, SocketAddr)>)
        requires
            client_idx < u64::MAX,
        ensures
            final(self)@ == old(self)@.after_packet(
                client_idx,
                packet_content(packet),
                old(buffer)@.len(),
            ),
            r is Some <==> usable(packet_content(packet), old(buffer)@.len()),
            r is None ==> final(buffer)@ == old(buffer)@,
            r matches Some((len, addr)) ==> {
                &&& len == packet_content(packet)->0.len()
                &&& addr == crate::addr::client_addr(client_idx)
                &&& final(buffer)@ == packet_content(packet)->0 + old(buffer)@.skip(len as int)
            },
    {
        match packet {
            Some(packet) => {
                let bytes = bytes_as_slice(&packet);
                if bytes.len() > buffer.len() {
                    self.lost_clients.insert(client_idx);
                    return None;
                }
                copy_to_front(buffer, bytes);
                Some((bytes.len(), client_idx_to_addr(client_idx)))
            },
            None => {
                // Next time this client will be ignored, since it had nothing.
                self.recv_index = client_idx + 1;
                None
            },
        }
    }

    /// Takes the next packet of this round into the buffer, and returns its length and its sender.
    ///
    /// The active clients below `end_index` are asked in the order of their indices. A client
    /// whose packet does not fit is lost. A client that had no packet is not asked again in this
    /// round.
    pub fn poll_clients(&mut self, end_index: u64, buffer: &mut [u8]) -> (r: Result<
        (usize, SocketAddr),
        SocketError,
    >)
        ensures
            exists|idxs: Seq<u64>, packets: Seq<Option<Seq<u8>>>| #[trigger]
                old(self)@.polled(
                    final(self)@,
                    end_index,
                    idxs,
                    packets,
                    old(buffer)@,
                    final(buffer)@,
                    r,
                ),
    {
        let start_index = self.recv_index;
        let keys = sorted_map_keys(&self.clients);
        let mut idxs: Vec<u64> = Vec::new();
        for i in 0..keys.len()
            invariant
                forall|a: int, b: int| 0 <= a < b < keys@.len() ==> keys@[a] < keys@[b],
                forall|a: int, b: int| 0 <= a < b < idxs@.len() ==> idxs@[a] < idxs@[b],
                forall|a: int|
                    0 <= a < idxs@.len() ==> start_index <= #[trigger] idxs@[a] < end_index,
                forall|a: int|
                    0 <= a < idxs@.len() ==> keys@.take(i as int).contains(#[trigger] idxs@[a]),
                forall|a: int|
                    0 <= a < i && start_index <= #[trigger] keys@[a] < end_index
                        ==> idxs@.contains(keys@[a]),
        {
            let key = keys[i];
            let ghost before = idxs@;
            assert(keys@.take(i + 1) =~= keys@.take(i as int).push(key));
            assert forall|a: int| 0 <= a < before.len() implies before[a] < key by {
                assert(keys@.take(i as int).contains(before[a]));
            }
            if start_index <= key && key < end_index {
                idxs.push(key);
            }
            assert forall|a: int| 0 <= a < idxs@.len() implies keys@.take(i + 1).contains(
                #[trigger] idxs@[a],
            ) by {
                if a < before.len() {
                    assert(keys@.take(i as int).contains(before[a]));
                    let m = choose|m: int| 0 <= m < i && keys@.take(i as int)[m] == before[a];
                    assert(keys@.take(i + 1)[m] == idxs@[a]);
                } else {
                    assert(keys@.take(i + 1)[i as int] == key);
                }
            }
            assert forall|a: int| 0 <= a < i + 1 && start_index <= #[trigger] keys@[a]
                < end_index implies idxs@.contains(keys@[a]) by {
                if a < i {
                    assert(before.contains(keys@[a]));
                    let m = choose|m: int| 0 <= m < before.len() && before[m] == keys@[a];
                    assert(idxs@[m] == keys@[a]);
                } else {
                    assert(idxs@[before.len() as int] == key);
                }
            }
        }
        proof {
            assert(keys@.take(keys@.len() as int) =~= keys@);
            assert(self@.clients.dom() =~= self.clients@.dom());
            assert forall|k: u64| #[trigger] idxs@.contains(k) <==> self@.clients.contains_key(k)
                && start_index <= k < end_index by {
                if idxs@.contains(k) {
                    let a = choose|a: int| 0 <= a < idxs@.len() && idxs@[a] == k;
                    assert(keys@.contains(idxs@[a]));
                    assert(keys@.to_set().contains(k));
                }
                if self@.clients.contains_key(k) && start_index <= k < end_index {
                    assert(keys@.to_set().contains(k));
                    let a = choose|a: int| 0 <= a < keys@.len() && keys@[a] == k;
                    assert(idxs@.contains(keys@[a]));
                }
            }
        }
        let ghost mut packets: Seq<Option<Seq<u8>>> = Seq::empty();
        let ghost limit = buffer@.len();
        assert(idxs@.take(0) =~= Seq::empty());
        for i in 0..idxs.len()
            invariant
                buffer@ == old(buffer)@,
                limit == buffer@.len(),
                packets.len() == i,
                start_index == old(self)@.recv_index,
                old(self)@.is_round(end_index, idxs@),
                self@ == old(self)@.after_polls(idxs@.take(i as int), packets, limit),
                self@.clients.dom() == old(self)@.clients.dom(),
                forall|j: int| 0 <= j < i ==> !usable(#[trigger] packets[j], limit),
        {
            let client_idx = idxs[i];
            let ghost before = self@;
            assert(idxs@.contains(idxs@[i as int]));
            assert(self@.clients.contains_key(client_idx));
            assert(self.clients@.contains_key(client_idx));
            assert(client_idx < end_index);
            assert(idxs@.take(i + 1).drop_last() =~= idxs@.take(i as int));
            match self.clients.remove(&client_idx) {
                Some(mut client) => {
                    // Try to get a message from this client.
                    let received = client.poll();
                    let ghost content = packet_content(received);
                    let ghost view = client@;
                    self.clients.insert(client_idx, client);
                    proof {
                        assert(self@.clients =~= before.clients.insert(client_idx, view));
                        assert(packets.push(content).drop_last() =~= packets);
                    }
                    let taken = self.take_packet(client_idx, received, buffer);
                    proof {
                        packets = packets.push(content);
                        assert(self@ =~= before.after_poll(client_idx, content, limit));
                        assert(self@.clients.dom() =~= old(self)@.clients.dom());
                    }
                    if let Some(answer) = taken {
                        let r: Result<(usize, SocketAddr), SocketError> = Ok(answer);
                        assert(old(self)@.polled(
                            self@,
                            end_index,
                            idxs@,
                            packets,
                            old(buffer)@,
                            buffer@,
                            r,
                        ));
                        return r;
                    }
                },
                None => {},
            }
        }
        // All clients have been drained.
        proof {
            assert(idxs@.take(idxs@.len() as int) =~= idxs@);
            let r: Result<(usize, SocketAddr), SocketError> = Err(SocketError::WouldBlock);
            assert(idxs@.take(packets.len() as int) =~= idxs@);
            assert(old(self)@.polled(
                self@,
                end_index,
                idxs@,
                packets,
                old(buffer)@,
                buffer@,
                r,
            ));
        }
        Err(SocketError::WouldBlock)
    }

    /// Asks every active client whether its reader is over. Those whose reader is over are lost.
    fn detect_terminated(&mut self)
        ensures
            readers_checked(old(self)@.clients, final(self)@.clients),
            final(self)@ == (TableView {
                clients: final(self)@.clients,
                lost: old(self)@.lost + finished(final(self)@.clients),
                ..old(self)@
            }),
    {
        let keys = sorted_map_keys(&self.clients);
        proof {
            assert(self@.clients.dom() =~= self.clients@.dom());
            assert(keys@.to_set() =~= self@.clients.dom());
            assert(self@.lost =~= old(self)@.lost + Set::empty());
        }
        let ghost mut done: Set<u64> = Set::empty();
        for i in 0..keys.len()
            invariant
                forall|a: int, b: int| 0 <= a < b < keys@.len() ==> keys@[a] < keys@[b],
                keys@.to_set() == old(self)@.clients.dom(),
                self@.clients.dom() == old(self)@.clients.dom(),
                forall|k: u64| #[trigger]
                    done.contains(k) <==> exists|a: int| 0 <= a < i && keys@[a] == k,
                forall|k: u64|
                    done.contains(k) ==> #[trigger] reader_checked(
                        old(self)@.clients[k],
                        self@.clients[k],
                    ),
                forall|k: u64|
                    #![trigger self@.clients[k]]
                    self@.clients.contains_key(k) && !done.contains(k) ==> self@.clients[k] == old(
                        self,
                    )@.clients[k],
                self@.lost == old(self)@.lost + finished(self@.clients).intersect(done),
                self@ == (TableView { clients: self@.clients, lost: self@.lost, ..old(self)@ }),
        {
            let client_idx = keys[i];
            let ghost before = self@;
            assert(keys@.to_set().contains(keys@[i as int]));
            assert(self@.clients.contains_key(client_idx));
            assert(self.clients@.contains_key(client_idx));
            assert(!done.contains(client_idx));
            match self.clients.remove(&client_idx) {
                Some(mut client) => {
                    let is_over = client.check();
                    let ghost view = client@;
                    self.clients.insert(client_idx, client);
                    assert(self@.clients =~= before.clients.insert(client_idx, view));
                    assert(before.clients[client_idx] == old(self)@.clients[client_idx]);
                    assert(view == before.clients[client_idx].checked(is_over));
                    assert(reader_checked(old(self)@.clients[client_idx], view));
                    assert(view.checks.last() == is_over);
                    if is_over {
                        self.lost_clients.insert(client_idx);
                    }
                    proof {
                        let ghost_done = done.insert(client_idx);
                        assert(self@.clients.dom() =~= old(self)@.clients.dom());
                        assert(self@.lost =~= old(self)@.lost + finished(self@.clients).intersect(
                            ghost_done,
                        ));
                        done = ghost_done;
                    }
                },
                None => {},
            }
        }
        proof {
            assert forall|k: u64| old(self)@.clients.contains_key(k) implies done.contains(k) by {
                assert(keys@.to_set().contains(k));
            }
            assert(finished(self@.clients).intersect(done) =~= finished(self@.clients));
        }
    }

    /// Removes the clients that are lost or whose reader is over.
    ///
    /// The reader of an active client is told to stop, and a pending client is turned down. If that is
    /// done aloud, the client is told so. The clients are handed back, and are gone when they are
    /// dropped.
    pub fn postupdate(&mut self, aloud: bool) -> (r: Departed<S>)
        ensures
            exists|checked: Map<u64, ClientView<S>>| #[trigger]
                old(self)@.cleaned(aloud, checked, final(self)@, r@),
            old(self)@.consistent() ==> final(self)@.consistent(),
            old(self)@.consistent() && old(self)@.settled() ==> final(self)@.settled(),
    {
        // Detect terminated clients.
        self.detect_terminated();
        let ghost checked = self@.clients;
        // Remove lost clients.
        let ghost start = self@;
        let lost = set_members(&self.lost_clients);
        self.lost_clients.clear();
        let ghost base = self@;
        let mut departed: Departed<S> = Departed {
            clients: HashMap::new(),
            pending: HashMap::new(),
            refused: Vec::new(),
        };
        let ghost mut gone: Set<u64> = Set::empty();
        proof {
            assert(base.lost =~= Set::empty());
            assert(gone.intersect(base.indices()) =~= Set::empty());
            assert(base.without(gone) =~= base);
            assert(departed@.clients =~= base.departing(aloud, gone).clients);
            assert(departed@.pending =~= base.departing(aloud, gone).pending);
        }
        for i in 0..lost.len()
            invariant
                lost@.no_duplicates(),
                gone == lost@.take(i as int).to_set(),
                gone.finite(),
                self@ == base.without(gone),
                departed@.clients == base.departing(aloud, gone).clients,
                departed@.pending == base.departing(aloud, gone).pending,
                departed.refused@.len() == 0,
        {
            let client_idx = lost[i];
            let ghost before = self@;
            let ghost departed_before = departed@;
            let ghost all = gone.insert(client_idx);
            proof {
                assert(lost@.take(i + 1) =~= lost@.take(i as int).push(client_idx));
                lost@.take(i as int).lemma_push_to_set_commute(client_idx);
                assert(!gone.contains(client_idx));
                base.lemma_without_one(gone, client_idx);
            }
            assert(self@.clients.contains_key(client_idx) == self.clients@.contains_key(client_idx));
            assert(self@.pending.contains_key(client_idx) == self.pending_clients@.contains_key(
                client_idx,
            ));
            // Remove the client.
            let removed_client_id: Option<u64> = match self.clients.remove(&client_idx) {
                Some(mut client) => {
                    client.abort();
                    let client_id = client.client_id;
                    let ghost view = client@;
                    assert(view == base.clients[client_idx].stopped());
                    departed.clients.insert(client_idx, client);
                    assert(departed@.clients =~= departed_before.clients.insert(client_idx, view));
                    assert(self@.clients =~= before.clients.remove(client_idx));
                    Some(client_id)
                },
                None => {
                    assert(self@.clients =~= before.clients);
                    match self.pending_clients.remove(&client_idx) {
                        Some(mut pending_client) => {
                            assert(pending_client@ == base.pending[client_idx]);
                            pending_client.turn_down(aloud);
                            let client_id = match pending_client.client_id {
                                Some(client_id) => Some(client_id),
                                None => Some(u64::MAX),
                            };
                            let ghost view = pending_client@;
                            departed.pending.insert(client_idx, pending_client);
                            assert(departed@.pending =~= departed_before.pending.insert(
                                client_idx,
                                view,
                            ));
                            assert(self@.pending =~= before.pending.remove(client_idx));
                            client_id
                        },
                        None => {
                            assert(self@.pending =~= before.pending);
                            None
                        },
                    }
                },
            };
            if let Some(client_id) = removed_client_id {
                // Only remove from count if the client was removed from a map. The same client can
                // be lost again after it was removed.
                self.current_clients = self.current_clients.wrapping_sub(1);
                // Remove the client id entry if it belongs to the removed client.
                let holds_slot = match self.client_id_to_idx.get(&client_id) {
                    Some(idx) => *idx == client_idx,
                    None => false,
                };
                if holds_slot {
                    self.client_id_to_idx.remove(&client_id);
                }
            }
            proof {
                assert(self@ =~= before.dropping(client_idx));
                assert(departed@.clients =~= base.departing(aloud, all).clients);
                assert(departed@.pending =~= base.departing(aloud, all).pending);
                gone = all;
            }
        }
        std::mem::swap(&mut self.refused, &mut departed.refused);
        proof {
            assert(lost@.take(lost@.len() as int) =~= lost@);
            assert(gone =~= start.lost);
            assert(self@.refused =~= Seq::empty());
            assert(departed@ =~= base.departing(aloud, gone));
            assert(old(self)@.cleaned(aloud, checked, self@, departed@));
            if old(self)@.consistent() {
                removals_keep_the_order(aloud, old(self)@, checked, self@, departed@);
            }
        }
        departed
    }
}

/// A session keeps the table in order: the client that becomes active was counted while it was
/// pending, and holds its client id. A client whose session is discarded is no longer counted.
pub proof fn sessions_keep_the_order<S>(
    before: TableView<S>,
    after: TableView<S>,
    connection: ClientConnectionResult<S>,
    step: SessionStep<S>,
    client: ClientView<S>,
)
    requires
        before.consistent(),
        before.session_taken(after, connection, step),
        step matches SessionStep::Open { client_id, .. } ==> client.client_id == client_id,
    ensures
        match step {
            SessionStep::Open { client_idx, .. } => {
                let opened = TableView {
                    clients: after.clients.insert(client_idx, client),
                    ..after
                };
                &&& opened.consistent()
                &&& before.settled() ==> opened.settled()
            },
            _ => {
                &&& after.consistent()
                &&& before.settled() ==> after.settled()
            },
        },
{
    match connection {
        ClientConnectionResult::Success { client_idx, .. } => {
            if before.pending.contains_key(client_idx) {
                assert(after.pending.dom() =~= before.pending.dom().remove(client_idx));
                let opened = after.clients.insert(client_idx, client);
                assert(opened.dom() =~= before.clients.dom().insert(client_idx));
            }
        },
        ClientConnectionResult::Failure { .. } => {},
    }
}

/// A lost client is in the table no longer once the lost clients were removed, and nobody else
/// is removed but those whose reader is over. The reader of an active client is told to stop, and a
/// pending client is told that its request was turned down, where clients are told so.
pub proof fn lost_clients_go<S>(
    aloud: bool,
    before: TableView<S>,
    checked: Map<u64, ClientView<S>>,
    after: TableView<S>,
    departed: DepartedView<S>,
    idx: u64,
)
    requires
        before.consistent(),
        before.cleaned(aloud, checked, after, departed),
    ensures
        after.lost == Set::<u64>::empty(),
        before.lost.contains(idx) || finished(checked).contains(idx) ==> !after.indices().contains(
            idx,
        ),
        !before.lost.contains(idx) && !finished(checked).contains(idx) ==> {
            &&& after.indices().contains(idx) == before.indices().contains(idx)
            &&& before.pending.contains_key(idx) ==> after.pending.contains_key(idx)
                && after.pending[idx] == before.pending[idx]
            &&& before.clients.contains_key(idx) ==> after.clients.contains_key(idx)
                && after.clients[idx] == checked[idx]
        },
        (before.lost.contains(idx) || finished(checked).contains(idx)) && before.clients.contains_key(
            idx,
        ) ==> departed.clients.contains_key(idx) && departed.clients[idx].session
            == before.clients[idx].session && departed.clients[idx].stops
            == before.clients[idx].stops + 1,
        before.lost.contains(idx) && before.pending.contains_key(idx) && aloud ==> departed.pending.contains_key(idx) && departed.pending[idx]
            == before.pending[idx].answered(ConnectionRequestResult::Failure),
{
    assert(checked.dom() == before.clients.dom());
}

/// Once the lost clients are removed, no two clients have the same client id, and a client that was
/// accepted is not turned away when its session comes.
pub proof fn client_ids_are_unique<S>(table: TableView<S>, idx1: u64, idx2: u64)
    requires
        table.settled(),
        table.lost == Set::<u64>::empty(),
        idx1 != idx2,
    ensures
        table.clients.contains_key(idx1) && table.clients.contains_key(idx2)
            ==> table.clients[idx1].client_id != table.clients[idx2].client_id,
        table.clients.contains_key(idx1) && table.pending.contains_key(idx2)
            ==> table.pending[idx2].client_id != Some(table.clients[idx1].client_id),
        table.pending.contains_key(idx1) && table.pending.contains_key(idx2)
            && table.pending[idx1].client_id is Some ==> table.pending[idx1].client_id
            != table.pending[idx2].client_id,
        forall|client_id: u64, session: S, after: TableView<S>, step: SessionStep<S>|
            table.pending.contains_key(idx1) && table.pending[idx1].client_id == Some(client_id)
                && #[trigger] table.session_taken(
                after,
                ClientConnectionResult::Success { client_idx: idx1, client_id, session },
                step,
            ) ==> step is Open,
{
}

/// Removing the lost clients keeps the table in order.
pub proof fn removals_keep_the_order<S>(
    aloud: bool,
    before: TableView<S>,
    checked: Map<u64, ClientView<S>>,
    after: TableView<S>,
    departed: DepartedView<S>,
)
    requires
        before.consistent(),
        before.cleaned(aloud, checked, after, departed),
    ensures
        after.consistent(),
        before.settled() ==> after.settled(),
{
    let base = TableView { clients: checked, lost: Set::empty(), ..before };
    let gone = before.lost + finished(checked);
    assert(finished(checked).subset_of(before.clients.dom()));
    vstd::set_lib::lemma_set_subset_finite(before.clients.dom(), finished(checked));
    assert(base.clients.dom() =~= before.clients.dom());
    base.lemma_without_consistent(gone);
}

/// A client id belongs to whoever was accepted for it last: the client that held it before is
/// lost, and is gone after the next removal, which leaves the client id to the newcomer.
pub proof fn client_ids_are_usurped<S>(
    aloud: bool,
    before: TableView<S>,
    client_id: u64,
    idx: u64,
    checked: Map<u64, ClientView<S>>,
    after: TableView<S>,
    departed: DepartedView<S>,
)
    requires
        before.consistent(),
        before.pending.contains_key(idx),
        before.accepting(client_id, idx).cleaned(aloud, checked, after, departed),
    ensures
        before.accepting(client_id, idx).holds(client_id, idx),
        before.slots.contains_key(client_id) && before.slots[client_id] != idx
            ==> before.accepting(client_id, idx).lost.contains(before.slots[client_id])
            && !after.indices().contains(before.slots[client_id]),
        after.indices().contains(idx) ==> after.holds(client_id, idx),
{
    let accepted = before.accepting(client_id, idx);
    assert(accepted.pending.dom() =~= before.pending.dom());
    if before.slots.contains_key(client_id) && before.slots[client_id] != idx {
        lost_clients_go(aloud, accepted, checked, after, departed, before.slots[client_id]);
    }
    lost_clients_go(aloud, accepted, checked, after, departed, idx);
}

/// Of the packets for a pending client the first one is kept.
pub proof fn first_packet_stays(client: PendingView, first: Seq<u8>, second: Seq<u8>)
    ensures
        client.with_buffer(first).with_buffer(second) == client.with_buffer(first),
        client.buffered is None ==> client.with_buffer(first).buffered == Some(first),
{
}

/// Asking the clients for packets changes nothing about who is in the table.
proof fn lemma_polls_keep_clients<S>(
    before: TableView<S>,
    idxs: Seq<u64>,
    packets: Seq<Option<Seq<u8>>>,
    limit: nat,
)
    requires
        forall|a: int| 0 <= a < idxs.len() ==> before.clients.contains_key(#[trigger] idxs[a]),
    ensures
        before.after_polls(idxs, packets, limit).clients.dom() == before.clients.dom(),
        before.after_polls(idxs, packets, limit).pending == before.pending,
        before.after_polls(idxs, packets, limit).slots == before.slots,
        before.after_polls(idxs, packets, limit).count == before.count,
        before.after_polls(idxs, packets, limit).refused == before.refused,
        before.lost.subset_of(before.after_polls(idxs, packets, limit).lost),
        before.lost.finite() ==> before.after_polls(idxs, packets, limit).lost.finite(),
        forall|k: u64| #[trigger]
            before.clients.contains_key(k) ==> before.after_polls(
                idxs,
                packets,
                limit,
            ).clients[k].client_id == before.clients[k].client_id,
    decreases idxs.len(),
{
    if idxs.len() > 0 {
        let init = idxs.drop_last();
        assert forall|a: int| 0 <= a < init.len() implies before.clients.contains_key(
            #[trigger] init[a],
        ) by {
            assert(init[a] == idxs[a]);
        }
        lemma_polls_keep_clients(before, init, packets.drop_last(), limit);
        assert(before.clients.contains_key(idxs[idxs.len() - 1]));
        assert(before.after_polls(idxs, packets, limit).clients.dom() =~= before.clients.dom());
    }
}

/// Every client that is asked and gives a packet that does not fit is lost.
proof fn lemma_polls_lose<S>(
    before: TableView<S>,
    idxs: Seq<u64>,
    packets: Seq<Option<Seq<u8>>>,
    limit: nat,
    j: int,
)
    requires
        idxs.len() == packets.len(),
        0 <= j < packets.len(),
        packets[j] is Some,
        !usable(packets[j], limit),
    ensures
        before.after_polls(idxs, packets, limit).lost.contains(idxs[j]),
    decreases idxs.len(),
{
    if j < packets.len() - 1 {
        lemma_polls_lose(before, idxs.drop_last(), packets.drop_last(), limit, j);
    }
}

/// A packet that does not fit is not delivered, and its sender is gone after the next removal of lost
/// clients, with its reader told to stop.
pub proof fn oversized_packets_cost_the_connection<S>(
    aloud: bool,
    before: TableView<S>,
    after: TableView<S>,
    end_index: u64,
    idxs: Seq<u64>,
    packets: Seq<Option<Seq<u8>>>,
    buffer_before: Seq<u8>,
    buffer_after: Seq<u8>,
    answer: Result<(usize, SocketAddr), SocketError>,
    j: int,
    checked: Map<u64, ClientView<S>>,
    cleaned: TableView<S>,
    departed: DepartedView<S>,
)
    requires
        before.consistent(),
        before.polled(after, end_index, idxs, packets, buffer_before, buffer_after, answer),
        0 <= j < packets.len(),
        packets[j] is Some,
        packets[j]->0.len() > buffer_before.len(),
        after.cleaned(aloud, checked, cleaned, departed),
    ensures
        answer is Ok ==> j < packets.len() - 1,
        after.lost.contains(idxs[j]),
        !cleaned.indices().contains(idxs[j]),
        departed.clients.contains_key(idxs[j]),
        departed.clients[idxs[j]].stops == after.clients[idxs[j]].stops + 1,
{
    let asked = idxs.take(packets.len() as int);
    assert(asked[j] == idxs[j]);
    lemma_polls_lose(before, asked, packets, buffer_before.len(), j);
    polls_keep_the_clients(
        before,
        after,
        end_index,
        idxs,
        packets,
        buffer_before,
        buffer_after,
        answer,
    );
    assert(idxs.contains(idxs[j]));
    lost_clients_go(aloud, after, checked, cleaned, departed, idxs[j]);
}

/// Receiving keeps the table consistent: nobody joins or leaves, and no client id changes hands.
pub proof fn polls_keep_the_clients<S>(
    before: TableView<S>,
    after: TableView<S>,
    end_index: u64,
    idxs: Seq<u64>,
    packets: Seq<Option<Seq<u8>>>,
    buffer_before: Seq<u8>,
    buffer_after: Seq<u8>,
    answer: Result<(usize, SocketAddr), SocketError>,
)
    requires
        before.polled(after, end_index, idxs, packets, buffer_before, buffer_after, answer),
    ensures
        after.clients.dom() == before.clients.dom(),
        after.pending == before.pending,
        after.slots == before.slots,
        after.count == before.count,
        after.refused == before.refused,
        before.consistent() ==> after.consistent(),
        before.settled() ==> after.settled(),
{
    let asked = idxs.take(packets.len() as int);
    assert forall|a: int| 0 <= a < asked.len() implies before.clients.contains_key(
        #[trigger] asked[a],
    ) by {
        assert(asked[a] == idxs[a]);
        assert(idxs.contains(idxs[a]));
    }
    lemma_polls_keep_clients(before, asked, packets, buffer_before.len());
}

/// A client is passed over for the rest of the round exactly if it gave nothing. What it gave is handed
/// up, as the front of the buffer, exactly if it fits, and costs the client its connection if not.
pub proof fn clients_are_passed_over_once_empty<S>(
    before: ClientTable<S>,
    after: ClientTable<S>,
    client_idx: u64,
    packet: Option<Bytes>,
    buffer_before: Seq<u8>,
    buffer_after: Seq<u8>,
    answer: Option<(usize, SocketAddr)>,
    k: u64,
)
    requires
        exists|table: &mut ClientTable<S>, buffer: &mut [u8]|
            *table == before && *final(table) == after && buffer@ == buffer_before
                && (*final(buffer))@ == buffer_after && #[trigger] call_ensures(
                ClientTable::<S>::take_packet,
                (table, client_idx, packet, buffer),
                answer,
            ),
        client_idx < u64::MAX,
    ensures
        packet is None ==> answer is None && after@.recv_index == client_idx + 1 && after@.lost
            == before@.lost,
        packet is Some ==> after@.recv_index == before@.recv_index,
        packet matches Some(bytes) ==> {
            let content = crate::packet_bytes::bytes_content(bytes);
            let n = content.len() as int;
            &&& answer is Some <==> n <= buffer_before.len()
            &&& answer is Some ==> (answer->0).0 == n && (answer->0).1 == crate::addr::client_addr(
                client_idx,
            ) && buffer_after.take(n) == content && buffer_after.skip(n) == buffer_before.skip(n)
            &&& after@.lost.contains(k) <==> before@.lost.contains(k) || (k == client_idx && n
                > buffer_before.len())
        },
        answer is None ==> buffer_after == buffer_before,
        after@.clients == before@.clients,
        after@.pending == before@.pending,
        after@.slots == before@.slots,
        after@.count == before@.count,
{
    if packet is Some && answer is Some {
        let content = crate::packet_bytes::bytes_content(packet->0);
        let n = content.len() as int;
        assert(buffer_after.take(n) =~= content);
        assert(buffer_after.skip(n) =~= buffer_before.skip(n));
    }
}

/// Of the packets for a pending client the first one is kept as it is, and nothing else about the client
/// changes.
pub proof fn pending_clients_keep_one_packet(
    before: PendingClient,
    after: PendingClient,
    packet: &[u8],
)
    requires
        exists|client: &mut PendingClient|
            *client == before && *final(client) == after && #[trigger] call_ensures(
                PendingClient::set_buffer,
                (client, packet),
                (),
            ),
    ensures
        before@.buffered is None ==> after@.buffered == Some(packet@),
        before@.buffered is Some ==> after@.buffered == before@.buffered,
        after@.client_idx == before@.client_idx,
        after@.client_id == before@.client_id,
        after@.replies == before@.replies,
        after@.answer_end == before@.answer_end,
{
}

} // verus!
