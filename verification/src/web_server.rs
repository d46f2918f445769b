//! What the WebTransport server and the WebSocket server have in common.
//!
//! A task accepts connections and hands their requests over to the server. The server hands each
//! request up to the layer above, which accepts or denies it. The task is told, sets up a session,
//! and hands that over too. From then on the packets of the client come through its reader.

use std::sync::atomic::{AtomicU64, AtomicUsize};
use std::sync::Arc;

use bytes::Bytes;
use tokio::task::AbortHandle;
use vstd::prelude::*;

use crate::addr::{client_idx_from_addr, SocketAddr};
use crate::channels::PutOutcome;
use crate::client_table::{
    ClientConnectionResult, ClientTable, ConnectionRequest, ConnectionRequestResult, Departed,
    DepartedView, SendStep, ServerClient, SessionStep, TableView,
};
use crate::ends::{
    CountBoard, IndexGauge, IndexSource, TaskInbox, TaskOutbox, TaskStopper, ThreadInbox,
    ThreadOutbox,
};
use crate::error::SocketError;

verus! {

/// The most requests that are taken in one go.
pub const REQUEST_LIMIT: u64 = u64::MAX;

/// The number of packets of one client that can wait for the server.
pub const PACKET_BACKLOG: usize = 256;

/// The number of seconds after which a client that sends nothing is dropped.
pub const READER_TIMEOUT_SECS: u64 = 5;

/// Either kind of receiving end.
#[verifier::reject_recursive_types(T)]
pub enum InboxEnd<T> {
    Task(tokio::sync::mpsc::Receiver<T>),
    Thread(crossbeam::channel::Receiver<T>),
}

/// Either kind of sending end.
#[verifier::reject_recursive_types(T)]
pub enum OutboxEnd<T> {
    Task(tokio::sync::mpsc::Sender<T>),
    Thread(crossbeam::channel::Sender<T>),
}

/// The receiving end of a channel, of a tokio task or of a thread.
#[verifier::reject_recursive_types(T)]
pub enum Inbox<T> {
    Task(TaskInbox<T>),
    Thread(ThreadInbox<T>),
}

impl<T> Inbox<T> {
    /// What the channel gave, each time it was asked through this end.
    pub open spec fn given(&self) -> Seq<Option<T>> {
        match self {
            Inbox::Task(inbox) => inbox.given(),
            Inbox::Thread(inbox) => inbox.given(),
        }
    }

    /// The end itself.
    pub open spec fn end(&self) -> InboxEnd<T> {
        match self {
            Inbox::Task(inbox) => InboxEnd::Task(inbox.end()),
            Inbox::Thread(inbox) => InboxEnd::Thread(inbox.end()),
        }
    }

    /// Receives from a tokio task.
    pub fn task(receiver: tokio::sync::mpsc::Receiver<T>) -> (r: Self)
        ensures
            r.end() == InboxEnd::Task(receiver),
            r.given() == Seq::<Option<T>>::empty(),
    {
        Inbox::Task(TaskInbox::new(receiver))
    }

    /// Receives from a thread.
    pub fn thread(receiver: crossbeam::channel::Receiver<T>) -> (r: Self)
        ensures
            r.end() == InboxEnd::Thread(receiver),
            r.given() == Seq::<Option<T>>::empty(),
    {
        Inbox::Thread(ThreadInbox::new(receiver))
    }

    /// Asks the channel for its oldest message, once. The answer is what the channel gave.
    fn next(&mut self) -> (r: Option<T>)
        ensures
            final(self).end() == old(self).end(),
            final(self).given() == old(self).given().push(r),
    {
        match self {
            Inbox::Task(inbox) => inbox.next(),
            Inbox::Thread(inbox) => inbox.next(),
        }
    }
}

/// The ends of the channels that connect a server and the task that accepts connections.
#[verifier::reject_recursive_types(S)]
pub struct ServerEnds<S> {
    /// Gives the connection requests.
    pub requests: Inbox<ConnectionRequest>,
    /// Gives the sessions.
    pub connections: Inbox<ClientConnectionResult<S>>,
    /// Ends the task.
    pub connection_abort_handle: TaskStopper,
    /// Shows the index of the next client.
    pub client_iterator: IndexGauge,
    /// The number of clients, for the task to see.
    pub current_clients: CountBoard,
}

/// A server for clients that connect through the web.
#[verifier::reject_recursive_types(S)]
pub struct WebServer<S> {
    addr: SocketAddr,
    ends: ServerEnds<S>,
    table: ClientTable<S>,
    closed: bool,
}

/// What a [`WebServer`] stands for.
#[verifier::ext_equal]
#[verifier::reject_recursive_types(S)]
pub struct ServerView<S> {
    /// Where the server listens.
    pub addr: SocketAddr,
    /// The clients.
    pub table: TableView<S>,
    /// The server has been closed.
    pub closed: bool,
    /// The task that accepts connections.
    pub acceptor: AbortHandle,
    /// How often it was told to stop.
    pub stops: nat,
    /// Where the task looks for the number of clients.
    pub board: Arc<AtomicUsize>,
    /// The number that was put up there.
    pub announced: usize,
    /// Where the index of the next client is counted.
    pub counter: Arc<AtomicU64>,
    /// The index of the next client, each time it was looked at.
    pub index_reads: Seq<u64>,
    /// Where the requests come from.
    pub request_end: InboxEnd<ConnectionRequest>,
    /// What came from there, each time it was asked.
    pub requests: Seq<Option<ConnectionRequest>>,
    /// Where the sessions come from.
    pub connection_end: InboxEnd<ClientConnectionResult<S>>,
    /// What came from there, each time it was asked.
    pub connections: Seq<Option<ClientConnectionResult<S>>>,
}

impl<S> View for WebServer<S> {
    type V = ServerView<S>;

    closed spec fn view(&self) -> ServerView<S> {
        ServerView {
            addr: self.addr,
            table: self.table@,
            closed: self.closed,
            acceptor: self.ends.connection_abort_handle.task(),
            stops: self.ends.connection_abort_handle.stops(),
            board: self.ends.current_clients.number(),
            announced: self.ends.current_clients.shown(),
            counter: self.ends.client_iterator.counter(),
            index_reads: self.ends.client_iterator.reads(),
            request_end: self.ends.requests.end(),
            requests: self.ends.requests.given(),
            connection_end: self.ends.connections.end(),
            connections: self.ends.connections.given(),
        }
    }
}

/// What follows from looking for a session.
pub enum ConnectionStep<S> {
    /// There is none; a new round of receiving has begun.
    Drained,
    /// Look for the next one.
    Skip,
    /// Leave the rest of the sessions for later.
    Stop,
    /// Start a reader for the session, make the client active, and send it the packet.
    Open { client_idx: u64, client_id: u64, session: S, buffered: Option<Bytes> },
}

/// The request does not fit into a buffer of this size.
pub open spec fn too_large(request: ConnectionRequest, limit: nat) -> bool {
    request.packet@.len() > limit
}

/// The request was there and did not fit.
pub open spec fn must_be_refused(request: Option<ConnectionRequest>, limit: nat) -> bool {
    request is Some && too_large(request->0, limit)
}

/// The requests that are turned down of those that the channel gave: all but the last one, which is
/// turned down too if it was there and did not fit.
pub open spec fn refused_of(requests: Seq<Option<ConnectionRequest>>, limit: nat) -> Seq<
    Option<ConnectionRequest>,
> {
    if must_be_refused(requests.last(), limit) {
        requests
    } else {
        requests.drop_last()
    }
}

impl<S> TableView<S> {
    /// The table after these requests were turned down because they did not fit.
    pub open spec fn refusing_all(
        self,
        aloud: bool,
        requests: Seq<Option<ConnectionRequest>>,
    ) -> TableView<S>
        decreases requests.len(),
    {
        if requests.len() == 0 {
            self
        } else {
            self.refusing_all(aloud, requests.drop_last()).refusing(aloud, requests.last()->0)
        }
    }
}

/// What receiving does with the table and the buffer, where `requests` is what the channel of
/// requests gave in the course of it. Requests that do not fit are turned down. The first request
/// that fits is the answer. Where none does, the active clients below `end_index` are asked.
pub open spec fn received<S>(
    aloud: bool,
    before: TableView<S>,
    after: TableView<S>,
    requests: Seq<Option<ConnectionRequest>>,
    end_index: Option<u64>,
    buffer_before: Seq<u8>,
    buffer_after: Seq<u8>,
    answer: Result<(usize, SocketAddr), SocketError>,
) -> bool {
    let limit = buffer_before.len();
    let n = requests.len() as int;
    let last = requests.last();
    &&& n > 0
    &&& forall|j: int| 0 <= j < n - 1 ==> must_be_refused(#[trigger] requests[j], limit)
    &&& if last is Some && !too_large(last->0, limit) {
        let request = last->0;
        &&& end_index is None
        &&& after == before.refusing_all(aloud, refused_of(requests, limit)).with_pending(request)
        &&& answer == Ok::<(usize, SocketAddr), SocketError>(
            (request.packet@.len() as usize, crate::addr::client_addr(request.client_idx)),
        )
        &&& buffer_after == request.packet@ + buffer_before.skip(request.packet@.len() as int)
    } else {
        &&& last is Some ==> n == REQUEST_LIMIT
        &&& end_index is Some
        &&& exists|idxs: Seq<u64>, packets: Seq<Option<Seq<u8>>>| #[trigger]
            before.refusing_all(aloud, refused_of(requests, limit)).polled(
                after,
                end_index->0,
                idxs,
                packets,
                buffer_before,
                buffer_after,
                answer,
            )
    }
}

impl<S> ServerView<S> {
    /// A server that nobody has connected to.
    pub open spec fn fresh(addr: SocketAddr, ends: ServerEnds<S>) -> ServerView<S> {
        ServerView {
            addr,
            table: TableView::<S>::empty(),
            closed: false,
            acceptor: ends.connection_abort_handle.task(),
            stops: ends.connection_abort_handle.stops(),
            board: ends.current_clients.number(),
            announced: ends.current_clients.shown(),
            counter: ends.client_iterator.counter(),
            index_reads: ends.client_iterator.reads(),
            request_end: ends.requests.end(),
            requests: ends.requests.given(),
            connection_end: ends.connections.end(),
            connections: ends.connections.given(),
        }
    }

    /// The server after it was closed.
    pub open spec fn closing(self) -> ServerView<S> {
        ServerView { closed: true, stops: self.stops + 1, ..self }
    }

    /// The table is in order, and the task knows how many clients there are.
    pub open spec fn orderly(self) -> bool {
        &&& self.table.consistent()
        &&& self.table.settled()
        &&& self.announced == self.table.count
    }

    /// The server with another table.
    pub open spec fn with_table(self, table: TableView<S>) -> ServerView<S> {
        ServerView { table, ..self }
    }

    /// The server with another table, after the task was told how many clients there are.
    pub open spec fn announcing(self, table: TableView<S>) -> ServerView<S> {
        ServerView { table, announced: table.count, ..self }
    }

    /// The server with one more active client.
    pub open spec fn opening(
        self,
        idx: u64,
        client: crate::client_table::ClientView<S>,
    ) -> ServerView<S> {
        self.with_table(
            TableView { clients: self.table.clients.insert(idx, client), ..self.table },
        )
    }

    /// What looking for a session does, where `given` is what the channel of sessions gave.
    pub open spec fn connection_taken(
        self,
        after: ServerView<S>,
        given: Option<ClientConnectionResult<S>>,
        step: ConnectionStep<S>,
    ) -> bool {
        let asked = ServerView { connections: self.connections.push(given), ..self };
        match given {
            None => {
                &&& step is Drained
                &&& after == asked.with_table(TableView { recv_index: 0, ..self.table })
            },
            Some(connection) => {
                &&& after == asked.announcing(after.table)
                &&& match step {
                    ConnectionStep::Drained => false,
                    ConnectionStep::Skip => self.table.session_taken(
                        after.table,
                        connection,
                        SessionStep::Skip,
                    ),
                    ConnectionStep::Stop => self.table.session_taken(
                        after.table,
                        connection,
                        SessionStep::Stop,
                    ),
                    ConnectionStep::Open { client_idx, client_id, session, buffered } => {
                        self.table.session_taken(
                            after.table,
                            connection,
                            SessionStep::Open { client_idx, client_id, session, buffered },
                        )
                    },
                }
            },
        }
    }

    /// What receiving does, where `requests` is what the channel of requests gave in the course of
    /// it, and `end_index` is the index of the next client, if it was looked at.
    pub open spec fn receives(
        self,
        aloud: bool,
        after: ServerView<S>,
        requests: Seq<Option<ConnectionRequest>>,
        end_index: Option<u64>,
        buffer_before: Seq<u8>,
        buffer_after: Seq<u8>,
        answer: Result<(usize, SocketAddr), SocketError>,
    ) -> bool {
        &&& received(
            aloud,
            self.table,
            after.table,
            requests,
            end_index,
            buffer_before,
            buffer_after,
            answer,
        )
        &&& after == ServerView {
            requests: self.requests + requests,
            index_reads: match end_index {
                Some(end_index) => self.index_reads.push(end_index),
                None => self.index_reads,
            },
            ..self.announcing(after.table)
        }
    }

    /// What the removal of lost clients does.
    pub open spec fn cleaned(
        self,
        aloud: bool,
        checked: Map<u64, crate::client_table::ClientView<S>>,
        after: ServerView<S>,
        departed: DepartedView<S>,
    ) -> bool {
        &&& self.table.cleaned(aloud, checked, after.table, departed)
        &&& after == self.announcing(after.table)
    }
}

impl<S> WebServer<S> {
    /// Makes a server that listens on an address.
    pub fn new(addr: SocketAddr, ends: ServerEnds<S>) -> (r: Self)
        ensures
            r@ == ServerView::<S>::fresh(addr, ends),
    {
        WebServer { addr, ends, table: ClientTable::new(), closed: false }
    }

    /// Disconnects the server.
    pub fn close(&mut self)
        ensures
            final(self)@ == old(self)@.closing(),
    {
        self.ends.connection_abort_handle.stop();
        self.closed = true;
    }

    /// Where the server listens.
    pub fn addr(&self) -> (r: SocketAddr)
        ensures
            r == self@.addr,
    {
        self.addr
    }

    /// Whether the server has been closed.
    pub fn is_closed(&self) -> (r: bool)
        ensures
            r == self@.closed,
    {
        self.closed
    }

    /// The session of an active client.
    pub fn session(&self, client_idx: u64) -> (r: Option<&S>)
        ensures
            match r {
                Some(session) => self@.table.clients.contains_key(client_idx) && *session
                    == self@.table.clients[client_idx].session,
                None => !self@.table.clients.contains_key(client_idx),
            },
    {
        self.table.session(client_idx)
    }

    /// Tells the task that accepts connections how many clients there are.
    fn announce(&mut self)
        ensures
            final(self)@ == old(self)@.announcing(old(self)@.table),
    {
        let count = self.table.current_clients();
        self.ends.current_clients.show(count);
    }

    /// Marks the client with this address as lost.
    pub fn disconnect(&mut self, addr: SocketAddr)
        requires
            addr is V6,
        ensures
            final(self)@ == old(self)@.with_table(
                old(self)@.table.losing(crate::addr::client_idx(addr->V6_0.ip)),
            ),
    {
        self.table.lose(client_idx_from_addr(addr));
    }

    /// Records that the request of the client with this address was accepted for a client id.
    pub fn connection_accepted(&mut self, client_id: u64, addr: SocketAddr)
        requires
            addr is V6,
        ensures
            final(self)@ == old(self)@.with_table(
                old(self)@.table.accepting(client_id, crate::addr::client_idx(addr->V6_0.ip)),
            ),
    {
        self.table.connection_accepted(client_id, client_idx_from_addr(addr));
    }

    /// Looks for the next session, and decides what is done about it.
    pub fn next_connection(&mut self) -> (r: ConnectionStep<S>)
        ensures
            exists|given: Option<ClientConnectionResult<S>>| #[trigger]
                old(self)@.connection_taken(final(self)@, given, r),
    {
        let given = self.ends.connections.next();
        let ghost logged = given;
        let step = match given {
            None => {
                // Prep for receiving.
                self.table.start_round();
                ConnectionStep::Drained
            },
            Some(connection) => {
                let step = self.table.take_session(connection);
                self.announce();
                match step {
                    SessionStep::Skip => ConnectionStep::Skip,
                    SessionStep::Stop => ConnectionStep::Stop,
                    SessionStep::Open { client_idx, client_id, session, buffered } => {
                        ConnectionStep::Open { client_idx, client_id, session, buffered }
                    },
                }
            },
        };
        assert(old(self)@.connection_taken(self@, logged, step));
        step
    }

    /// Makes a client active.
    pub fn open_client(&mut self, client_idx: u64, client: ServerClient<S>)
        ensures
            final(self)@ == old(self)@.opening(client_idx, client@),
    {
        self.table.open_client(client_idx, client);
    }

    /// Receives the next connection request, or the next packet of an active client. It is copied
    /// to the front of the buffer, and its length and its sender are returned. Clients whose request
    /// does not fit are told so if that is to be done aloud.
    pub fn try_recv(&mut self, aloud: bool, buffer: &mut [u8]) -> (r: Result<
        (usize, SocketAddr),
        SocketError,
    >)
        ensures
            exists|requests: Seq<Option<ConnectionRequest>>, end_index: Option<u64>| #[trigger]
                old(self)@.receives(
                    aloud,
                    final(self)@,
                    requests,
                    end_index,
                    old(buffer)@,
                    final(buffer)@,
                    r,
                ),
    {
        let ghost mut given: Seq<Option<ConnectionRequest>> = Seq::empty();
        let ghost mut refused: Seq<Option<ConnectionRequest>> = Seq::empty();
        let ghost limit = buffer@.len();
        let mut left: u64 = REQUEST_LIMIT;
        assert(old(self)@.requests + given =~= old(self)@.requests);
        // Try to get the next connection request from pending connections.
        while left > 0
            invariant_except_break
                given == refused,
                given.len() == REQUEST_LIMIT - left,
                forall|j: int| 0 <= j < given.len() ==> must_be_refused(#[trigger] given[j], limit),
            invariant
                limit == buffer@.len(),
                buffer@ == old(buffer)@,
                self@ == (ServerView {
                    requests: old(self)@.requests + given,
                    ..old(self)@.with_table(old(self)@.table.refusing_all(aloud, refused))
                }),
            ensures
                given.len() > 0,
                forall|j: int|
                    0 <= j < given.len() - 1 ==> must_be_refused(#[trigger] given[j], limit),
                given.last() is Some ==> given.len() == REQUEST_LIMIT && must_be_refused(
                    given.last(),
                    limit,
                ),
                refused == refused_of(given, limit),
            decreases left,
        {
            let request = self.ends.requests.next();
            let ghost logged = request;
            let ghost before = given;
            proof {
                given = given.push(logged);
                assert(given.drop_last() =~= before);
                assert(old(self)@.requests + given =~= (old(self)@.requests + before).push(logged));
            }
            match request {
                Some(request) => {
                    match self.table.add_request(aloud, request, buffer) {
                        Some(answer) => {
                            self.announce();
                            let r: Result<(usize, SocketAddr), SocketError> = Ok(answer);
                            assert(old(self)@.receives(
                                aloud,
                                self@,
                                given,
                                None,
                                old(buffer)@,
                                buffer@,
                                r,
                            ));
                            return r;
                        },
                        None => {
                            assert(must_be_refused(logged, limit));
                            proof {
                                refused = given;
                            }
                            left = left - 1;
                        },
                    }
                },
                None => {
                    break ;
                },
            }
        }
        // Search for the next-available message from accepted connections.
        let end_index = self.ends.client_iterator.read();
        let ghost table_before = self@.table;
        let r = self.table.poll_clients(end_index, buffer);
        let ghost table_after = self@.table;
        self.announce();
        assert(received(
            aloud,
            old(self)@.table,
            table_after,
            given,
            Some(end_index),
            old(buffer)@,
            buffer@,
            r,
        )) by {
            let (idxs, packets) = choose|idxs: Seq<u64>, packets: Seq<Option<Seq<u8>>>| #[trigger]
                table_before.polled(
                    table_after,
                    end_index,
                    idxs,
                    packets,
                    old(buffer)@,
                    buffer@,
                    r,
                );
            assert(old(self)@.table.refusing_all(aloud, refused_of(given, limit)).polled(
                table_after,
                Some(end_index)->0,
                idxs,
                packets,
                old(buffer)@,
                buffer@,
                r,
            ));
        }
        assert(old(self)@.receives(aloud, self@, given, Some(end_index), old(buffer)@, buffer@, r));
        r
    }

    /// Removes the clients that are lost or whose reader is over, and hands them back.
    ///
    /// Clients that were lost time out in the layer above, and are disconnected there that way.
    /// Pending clients are told that they are turned down if that is to be done aloud.
    pub fn postupdate(&mut self, aloud: bool) -> (r: Departed<S>)
        ensures
            exists|checked: Map<u64, crate::client_table::ClientView<S>>| #[trigger]
                old(self)@.cleaned(aloud, checked, final(self)@, r@),
    {
        let departed = self.table.postupdate(aloud);
        let ghost checked = choose|checked: Map<u64, crate::client_table::ClientView<S>>|
            #[trigger] old(self)@.table.cleaned(aloud, checked, self@.table, departed@);
        self.announce();
        assert(old(self)@.cleaned(aloud, checked, self@, departed@));
        departed
    }

    /// Decides what happens to a packet for the client with this address.
    pub fn send(&mut self, addr: SocketAddr, packet: &[u8]) -> (r: Result<SendStep, SocketError>)
        requires
            addr is V6,
        ensures
            old(self)@.sends(crate::addr::client_idx(addr->V6_0.ip), packet@, final(self)@, r),
    {
        self.table.send(client_idx_from_addr(addr), packet)
    }
}

impl<S> ServerView<S> {
    /// What becomes of a packet for a client. One for an active client is to be transmitted, one
    /// for a pending client is kept if it is the first, and there are no other clients.
    pub open spec fn sends(
        self,
        idx: u64,
        packet: Seq<u8>,
        after: ServerView<S>,
        answer: Result<SendStep, SocketError>,
    ) -> bool {
        if self.table.clients.contains_key(idx) {
            &&& after == self
            &&& answer matches Ok(SendStep::Transmit { data })
                && crate::packet_bytes::bytes_content(data) == packet
        } else if self.table.pending.contains_key(idx) {
            &&& after == self.with_table(
                TableView {
                    pending: self.table.pending.insert(
                        idx,
                        self.table.pending[idx].with_buffer(packet),
                    ),
                    ..self.table
                },
            )
            &&& answer == Ok::<SendStep, SocketError>(SendStep::Done)
        } else {
            &&& after == self
            &&& answer == Err::<SendStep, SocketError>(SocketError::ConnectionAborted)
        }
    }
}

/// The sending end of a channel, of a tokio task or of a thread.
#[verifier::reject_recursive_types(T)]
pub enum Outbox<T> {
    Task(TaskOutbox<T>),
    Thread(ThreadOutbox<T>),
}

impl<T> Outbox<T> {
    /// The messages that were handed to the channel through this end, each with what became of it.
    pub open spec fn handed(&self) -> Seq<(T, PutOutcome)> {
        match self {
            Outbox::Task(outbox) => outbox.handed(),
            Outbox::Thread(outbox) => outbox.handed(),
        }
    }

    /// The end itself.
    pub open spec fn end(&self) -> OutboxEnd<T> {
        match self {
            Outbox::Task(outbox) => OutboxEnd::Task(outbox.end()),
            Outbox::Thread(outbox) => OutboxEnd::Thread(outbox.end()),
        }
    }

    /// Sends to a tokio task.
    pub fn task(sender: tokio::sync::mpsc::Sender<T>) -> (r: Self)
        ensures
            r.end() == OutboxEnd::Task(sender),
            r.handed() == Seq::<(T, PutOutcome)>::empty(),
    {
        Outbox::Task(TaskOutbox::new(sender))
    }

    /// Sends to a thread.
    pub fn thread(sender: crossbeam::channel::Sender<T>) -> (r: Self)
        ensures
            r.end() == OutboxEnd::Thread(sender),
            r.handed() == Seq::<(T, PutOutcome)>::empty(),
    {
        Outbox::Thread(ThreadOutbox::new(sender))
    }

    /// Hands the message to the channel, once, and tells what became of it.
    fn put(&mut self, message: T) -> (r: PutOutcome)
        ensures
            final(self).end() == old(self).end(),
            final(self).handed() == old(self).handed().push((message, r)),
    {
        match self {
            Outbox::Task(outbox) => outbox.put(message),
            Outbox::Thread(outbox) => outbox.put(message),
        }
    }
}

/// The channel that an end for answers sends into.
pub uninterp spec fn answer_sender_channel(
    sender: tokio::sync::mpsc::Sender<ConnectionRequestResult>,
) -> int;

/// The channel that an end for answers receives from.
pub uninterp spec fn answer_receiver_channel(
    receiver: tokio::sync::mpsc::Receiver<ConnectionRequestResult>,
) -> int;

/// Calls `tokio::sync::mpsc::channel`, which makes one new channel for up to `capacity` messages.
/// The two ends it returns belong to that channel. It panics on a capacity of zero and on one above
/// an eighth of the largest number.
#[verifier::external_body]
fn answer_channel(capacity: usize) -> (r: (
    tokio::sync::mpsc::Sender<ConnectionRequestResult>,
    tokio::sync::mpsc::Receiver<ConnectionRequestResult>,
))
    requires
        0 < capacity <= usize::MAX / 8,
    ensures
        answer_sender_channel(r.0) == answer_receiver_channel(r.1),
{
    tokio::sync::mpsc::channel(capacity)
}

/// The index of the connection that comes after `n` others, where the first one has index `first`.
pub open spec fn nth_index(first: u64, n: nat) -> u64
    decreases n,
{
    if n == 0 {
        first
    } else {
        nth_index(first, (n - 1) as nat).wrapping_add(1)
    }
}

/// The part of the task that accepts connections which hands connection requests to the server. A
/// server has one of it.
pub struct RequestDesk {
    requests: Outbox<ConnectionRequest>,
    client_iterator: IndexSource,
}

impl RequestDesk {
    /// The requests that were handed to the server, each with what became of it.
    pub closed spec fn handed(&self) -> Seq<(ConnectionRequest, PutOutcome)> {
        self.requests.handed()
    }

    /// Where they go.
    pub closed spec fn end(&self) -> OutboxEnd<ConnectionRequest> {
        self.requests.end()
    }

    /// The index of the next connection.
    pub closed spec fn next_index(&self) -> u64 {
        self.client_iterator.next_index()
    }

    /// Where that is counted.
    pub closed spec fn counter(&self) -> Arc<AtomicU64> {
        self.client_iterator.counter()
    }

    /// The connections were numbered in order, from `first` on.
    pub open spec fn numbered_from(&self, first: u64) -> bool {
        &&& self.next_index() == nth_index(first, self.handed().len())
        &&& forall|i: int|
            0 <= i < self.handed().len() ==> (#[trigger] self.handed()[i]).0.client_idx
                == nth_index(first, i as nat)
    }

    /// Makes a desk that hands requests over through the outbox.
    pub fn new(requests: Outbox<ConnectionRequest>, client_iterator: IndexSource) -> (r: Self)
        ensures
            r.handed() == requests.handed(),
            r.end() == requests.end(),
            r.next_index() == client_iterator.next_index(),
            r.counter() == client_iterator.counter(),
            requests.handed().len() == 0 ==> r.numbered_from(client_iterator.next_index()),
    {
        RequestDesk { requests, client_iterator }
    }

    /// The desk has handed over one more request, which holds the packet and the next index. The
    /// answer tells the index, and where the server's decision will come, if the request was taken.
    pub open spec fn hands_over(
        &self,
        after: &RequestDesk,
        request: ConnectionRequest,
        outcome: PutOutcome,
        packet: Seq<u8>,
        answer: Option<(u64, tokio::sync::mpsc::Receiver<ConnectionRequestResult>)>,
    ) -> bool {
        &&& after.handed() == self.handed().push((request, outcome))
        &&& after.end() == self.end()
        &&& request.packet@ == packet
        &&& request.client_idx == self.next_index()
        &&& request.result_sender.handed() == Seq::<
            (ConnectionRequestResult, PutOutcome),
        >::empty()
        &&& after.next_index() == self.next_index().wrapping_add(1)
        &&& after.counter() == self.counter()
        &&& answer is Some <==> outcome == PutOutcome::Taken
        &&& answer matches Some((client_idx, results)) ==> client_idx == request.client_idx
            && answer_receiver_channel(results) == answer_sender_channel(
            request.result_sender.end(),
        )
    }

    /// Hands a connection request to the server, under the next index. Returns the index and where
    /// the server's decision will come, unless the server has no room for the request.
    pub fn begin_connection(&mut self, packet: Vec<u8>) -> (r: Option<
        (u64, tokio::sync::mpsc::Receiver<ConnectionRequestResult>),
    >)
        ensures
            exists|request: ConnectionRequest, outcome: PutOutcome| #[trigger]
                old(self).hands_over(final(self), request, outcome, packet@, r),
            forall|first: u64| #[trigger]
                old(self).numbered_from(first) ==> final(self).numbered_from(first),
    {
        // Assign an identifier to this client.
        let client_idx = self.client_iterator.draw();
        // Send connection request packet to netcode for evaluation.
        let (result_sender, result_receiver) = answer_channel(1);
        let request = ConnectionRequest {
            client_idx,
            packet,
            result_sender: TaskOutbox::new(result_sender),
        };
        let ghost logged = request;
        let outcome = self.requests.put(request);
        let r = match outcome {
            PutOutcome::Taken => Some((client_idx, result_receiver)),
            _ => None,
        };
        assert(old(self).hands_over(&*self, logged, outcome, packet@, r));
        r
    }
}

/// Indices go up by one, and around after the largest one.
proof fn lemma_nth_index(first: u64, n: nat)
    ensures
        nth_index(first, n) == (first + n) % 0x1_0000_0000_0000_0000,
    decreases n,
{
    if n > 0 {
        lemma_nth_index(first, (n - 1) as nat);
        let before = (first + (n - 1)) as int;
        assert((before % 0x1_0000_0000_0000_0000 + 1) % 0x1_0000_0000_0000_0000 == (before + 1)
            % 0x1_0000_0000_0000_0000) by (nonlinear_arith);
    }
}

/// No two connections of a server get the same index, as long as there are no more connections than
/// indices between them.
pub proof fn indices_are_distinct(desk: RequestDesk, first: u64, i: int, j: int)
    requires
        desk.numbered_from(first),
        0 <= i < j < desk.handed().len(),
        j - i < 0x1_0000_0000_0000_0000,
    ensures
        desk.handed()[i].0.client_idx != desk.handed()[j].0.client_idx,
{
    lemma_nth_index(first, i as nat);
    lemma_nth_index(first, j as nat);
    let a = first + i;
    let b = first + j;
    if a % 0x1_0000_0000_0000_0000 == b % 0x1_0000_0000_0000_0000 {
        assert((b - a) % 0x1_0000_0000_0000_0000 == 0) by (nonlinear_arith)
            requires
                a % 0x1_0000_0000_0000_0000 == b % 0x1_0000_0000_0000_0000,
        ;
    }
}

/// Whether the server takes no more connections. A quarter more clients than the maximum are
/// allowed, in case clients want to override their old sessions.
pub fn is_full(current_clients: usize, max_clients: usize) -> (r: bool)
    ensures
        r == (current_clients * 4 >= max_clients * 5),
{
    (current_clients as u128) * 4 >= (max_clients as u128) * 5
}

/// The client id that a connection request was accepted for. There is none if the request was
/// turned down or nobody answered.
pub fn accepted_client_id(answer: Option<ConnectionRequestResult>) -> (r: Option<u64>)
    ensures
        match answer {
            Some(ConnectionRequestResult::Success { client_id }) => r == Some(client_id),
            _ => r is None,
        },
{
    match answer {
        Some(ConnectionRequestResult::Success { client_id }) => Some(client_id),
        _ => None,
    }
}

/// What the server is told of a client whose request it accepted. Where there is no session, the
/// server has to know, because it keeps the client as pending.
pub fn connection_result<S>(
    client_idx: u64,
    client_id: u64,
    session: Option<S>,
) -> (r: ClientConnectionResult<S>)
    ensures
        match session {
            Some(session) => r == (ClientConnectionResult::Success {
                client_idx,
                client_id,
                session,
            }),
            None => r == (ClientConnectionResult::<S>::Failure { client_idx }),
        },
{
    match session {
        Some(session) => ClientConnectionResult::Success { client_idx, client_id, session },
        None => ClientConnectionResult::Failure { client_idx },
    }
}

/// What the reader of a client ran into.
#[derive(Debug, Clone, Copy, PartialEq, Eq, Structural)]
pub enum ReaderEvent {
    /// The server told it to stop.
    Aborted,
    /// A packet came in, and this is what became of it.
    Packet { outcome: PutOutcome },
    /// Something that is not a packet came in.
    Ignored,
    /// The connection failed or is over.
    Failed,
    /// Nothing came in for too long.
    TimedOut,
}

/// What the reader of a client does next.
#[derive(Debug, Clone, Copy, PartialEq, Eq, Structural)]
pub enum ReaderStep {
    /// It stops.
    Stop,
    /// It goes on, and the time runs anew.
    Restart,
    /// It goes on, and the time runs on.
    GoOn,
}

/// Decides what the reader of a client does next. Only a packet restarts the time. A packet that
/// found no room is dropped, and one that nobody can receive ends the reader.
pub fn reader_step(event: ReaderEvent) -> (r: ReaderStep)
    ensures
        r == ReaderStep::Restart <==> event is Packet && event->outcome != PutOutcome::Gone,
        r == ReaderStep::GoOn <==> event is Ignored,
{
    match event {
        ReaderEvent::Packet { outcome: PutOutcome::Gone } => ReaderStep::Stop,
        ReaderEvent::Packet { .. } => ReaderStep::Restart,
        ReaderEvent::Ignored => ReaderStep::GoOn,
        ReaderEvent::Aborted | ReaderEvent::Failed | ReaderEvent::TimedOut => ReaderStep::Stop,
    }
}

/// The end through which the reader of a client hands packets over to the server.
pub type PacketOutlet = ThreadOutbox<Bytes>;

/// Hands a packet of a client over to the server, and decides what the reader does next: it stops
/// if nobody is left to receive the packet, and goes on with the time anew if not, even where the
/// packet found no room.
pub fn forward_packet(outlet: &mut PacketOutlet, packet: Bytes) -> (r: ReaderStep)
    ensures
        final(outlet).end() == old(outlet).end(),
        forwarded(old(outlet).handed(), final(outlet).handed(), packet, r),
{
    let outcome = outlet.put(packet);
    reader_step(ReaderEvent::Packet { outcome })
}

/// Between the two accounts lies one packet that was handed over, and what became of it decides what
/// the reader does next.
pub open spec fn forwarded(
    before: Seq<(Bytes, PutOutcome)>,
    after: Seq<(Bytes, PutOutcome)>,
    packet: Bytes,
    step: ReaderStep,
) -> bool {
    &&& after.len() == before.len() + 1
    &&& after == before.push((packet, after.last().1))
    &&& step == if after.last().1 == PutOutcome::Gone {
        ReaderStep::Stop
    } else {
        ReaderStep::Restart
    }
}

/// A new server is in order, and nothing that is done to the clients of a server disturbs that:
/// closing, denying, accepting, disconnecting, sending to a client, and removing the lost ones.
pub proof fn servers_stay_in_order<S>(
    before: ServerView<S>,
    after: ServerView<S>,
    addr: SocketAddr,
    ends: ServerEnds<S>,
    aloud: bool,
    idx: u64,
    client_id: u64,
    packet: Seq<u8>,
    answer: Result<SendStep, SocketError>,
    checked: Map<u64, crate::client_table::ClientView<S>>,
    departed: DepartedView<S>,
)
    requires
        before.orderly(),
    ensures
        ends.current_clients.shown() == 0 ==> ServerView::<S>::fresh(addr, ends).orderly(),
        before.closing().orderly(),
        before.with_table(before.table.losing(idx)).orderly(),
        before.with_table(before.table.accepting(client_id, idx)).orderly(),
        before.sends(idx, packet, after, answer) ==> after.orderly(),
        before.cleaned(aloud, checked, after, departed) ==> after.orderly(),
{
    let accepted = before.table.accepting(client_id, idx);
    if before.table.pending.contains_key(idx) {
        assert(accepted.pending.dom() =~= before.table.pending.dom());
        let buffered = before.table.pending.insert(
            idx,
            before.table.pending[idx].with_buffer(packet),
        );
        assert(buffered.dom() =~= before.table.pending.dom());
    }
    if before.cleaned(aloud, checked, after, departed) {
        crate::client_table::removals_keep_the_order(
            aloud,
            before.table,
            checked,
            after.table,
            departed,
        );
    }
}

/// Turning requests down changes nothing but the list of those who were told so.
pub(crate) proof fn lemma_refusing_all<S>(
    aloud: bool,
    table: TableView<S>,
    requests: Seq<Option<ConnectionRequest>>,
)
    ensures
        ({
            let after = table.refusing_all(aloud, requests);
            &&& after == (TableView { refused: after.refused, ..table })
            &&& after.refused == if aloud {
                table.refused + requests.map_values(
                    |request: Option<ConnectionRequest>|
                        crate::client_table::PendingView::of_request(request->0).turned_down(true),
                )
            } else {
                table.refused
            }
        }),
    decreases requests.len(),
{
    let refusals = requests.map_values(
        |request: Option<ConnectionRequest>|
            crate::client_table::PendingView::of_request(request->0).turned_down(true),
    );
    if requests.len() == 0 {
        assert(table.refused + refusals =~= table.refused);
    } else {
        lemma_refusing_all(aloud, table, requests.drop_last());
        let init = requests.drop_last().map_values(
            |request: Option<ConnectionRequest>|
                crate::client_table::PendingView::of_request(request->0).turned_down(true),
        );
        assert(table.refused + refusals =~= (table.refused + init).push(refusals.last()));
    }
}

/// A request that does not fit is never delivered and never becomes pending, and is not counted.
/// Where that is done
/// aloud, its own end for answers was handed the refusal.
pub proof fn oversized_requests_are_refused<S>(
    aloud: bool,
    before: ServerView<S>,
    after: ServerView<S>,
    requests: Seq<Option<ConnectionRequest>>,
    end_index: Option<u64>,
    buffer_before: Seq<u8>,
    buffer_after: Seq<u8>,
    answer: Result<(usize, SocketAddr), SocketError>,
    i: int,
)
    requires
        before.receives(aloud, after, requests, end_index, buffer_before, buffer_after, answer),
        0 <= i < requests.len(),
        must_be_refused(requests[i], buffer_before.len()),
    ensures
        aloud ==> after.table.refused.len() > before.table.refused.len() + i
            && after.table.refused[before.table.refused.len() + i]
            == crate::client_table::PendingView::of_request(requests[i]->0).answered(
            ConnectionRequestResult::Failure,
        ),
        end_index is Some ==> after.table.pending == before.table.pending && after.table.count
            == before.table.count,
        end_index is None ==> i < requests.len() - 1 && after.table.pending
            == before.table.pending.insert(
            requests.last()->0.client_idx,
            crate::client_table::PendingView::of_request(requests.last()->0),
        ) && after.table.count == before.table.count.wrapping_add(1),
{
    let refused = refused_of(requests, buffer_before.len());
    lemma_refusing_all(aloud, before.table, refused);
    assert(refused[i] == requests[i]);
    if end_index is Some {
        let (idxs, packets) = choose|idxs: Seq<u64>, packets: Seq<Option<Seq<u8>>>| #[trigger]
            before.table.refusing_all(aloud, refused).polled(
                after.table,
                end_index->0,
                idxs,
                packets,
                buffer_before,
                buffer_after,
                answer,
            );
        crate::client_table::polls_keep_the_clients(
            before.table.refusing_all(aloud, refused),
            after.table,
            end_index->0,
            idxs,
            packets,
            buffer_before,
            buffer_after,
            answer,
        );
    }
}

/// Receiving keeps a server in order, as long as the task gives every client an index of its own.
pub proof fn receiving_keeps_servers_in_order<S>(
    aloud: bool,
    before: ServerView<S>,
    after: ServerView<S>,
    requests: Seq<Option<ConnectionRequest>>,
    end_index: Option<u64>,
    buffer_before: Seq<u8>,
    buffer_after: Seq<u8>,
    answer: Result<(usize, SocketAddr), SocketError>,
)
    requires
        before.orderly(),
        before.table.count < usize::MAX,
        forall|i: int|
            0 <= i < requests.len() && (#[trigger] requests[i]) is Some
                ==> !before.table.indices().contains(requests[i]->0.client_idx),
        before.receives(aloud, after, requests, end_index, buffer_before, buffer_after, answer),
    ensures
        after.orderly(),
{
    let last = requests.last();
    let limit = buffer_before.len();
    let refused = refused_of(requests, limit);
    lemma_refusing_all(aloud, before.table, refused);
    let table = before.table.refusing_all(aloud, refused);
    if last is Some && !too_large(last->0, limit) {
        let idx = last->0.client_idx;
        assert(!before.table.indices().contains(idx));
        assert(after.table.pending.dom() =~= before.table.pending.dom().insert(idx));
    } else {
        let (idxs, packets) = choose|idxs: Seq<u64>, packets: Seq<Option<Seq<u8>>>| #[trigger]
            table.polled(
                after.table,
                end_index->0,
                idxs,
                packets,
                buffer_before,
                buffer_after,
                answer,
            );
        crate::client_table::polls_keep_the_clients(
            table,
            after.table,
            end_index->0,
            idxs,
            packets,
            buffer_before,
            buffer_after,
            answer,
        );
    }
}

/// Looking for a session keeps a server in order, once the client that is to be opened is.
pub proof fn sessions_keep_servers_in_order<S>(
    before: ServerView<S>,
    after: ServerView<S>,
    given: Option<ClientConnectionResult<S>>,
    step: ConnectionStep<S>,
    client: crate::client_table::ClientView<S>,
)
    requires
        before.orderly(),
        before.connection_taken(after, given, step),
        step matches ConnectionStep::Open { client_id, .. } ==> client.client_id == client_id,
    ensures
        match step {
            ConnectionStep::Open { client_idx, .. } => after.opening(client_idx, client).orderly(),
            _ => after.orderly(),
        },
{
    if let Some(connection) = given {
        let taken = match step {
            ConnectionStep::Open { client_idx, client_id, session, buffered } => SessionStep::Open {
                client_idx,
                client_id,
                session,
                buffered,
            },
            ConnectionStep::Stop => SessionStep::Stop,
            _ => SessionStep::Skip,
        };
        crate::client_table::sessions_keep_the_order(
            before.table,
            after.table,
            connection,
            taken,
            client,
        );
    }
}

/// Every request is handed to the server once, under the next index, with an end for answers of its own
/// that nothing went through yet. The other end of that is returned, with the index, exactly if the
/// server took the request.
pub proof fn requests_are_numbered_and_handed_over(
    before: RequestDesk,
    after: RequestDesk,
    packet: Vec<u8>,
    answer: Option<(u64, tokio::sync::mpsc::Receiver<ConnectionRequestResult>)>,
)
    requires
        exists|desk: &mut RequestDesk|
            *desk == before && *final(desk) == after && #[trigger] call_ensures(
                RequestDesk::begin_connection,
                (desk, packet),
                answer,
            ),
    ensures
        after.handed().len() == before.handed().len() + 1,
        after.handed().drop_last() == before.handed(),
        after.handed().last().0.packet@ == packet@,
        after.handed().last().0.client_idx == before.next_index(),
        after.handed().last().0.result_sender.handed().len() == 0,
        after.next_index() as int == (before.next_index() + 1) % 0x1_0000_0000_0000_0000,
        answer is Some <==> after.handed().last().1 == PutOutcome::Taken,
        answer matches Some((client_idx, results)) ==> client_idx == before.next_index()
            && answer_receiver_channel(results) == answer_sender_channel(
            after.handed().last().0.result_sender.end(),
        ),
        after.end() == before.end(),
        after.counter() == before.counter(),
{
    let (request, outcome) = choose|request: ConnectionRequest, outcome: PutOutcome| #[trigger]
        before.hands_over(&after, request, outcome, packet@, answer);
    assert(after.handed().drop_last() =~= before.handed());
}

/// A server that has as many clients as it may have still takes connections, up to a quarter more, and
/// none beyond that. With more clients it is not less full.
pub proof fn a_quarter_more_may_connect(current: usize, max: usize, more: usize, r: bool, s: bool)
    requires
        call_ensures(is_full, (current, max), r),
        call_ensures(is_full, (more, max), s),
        current <= more,
    ensures
        current <= max && max > 0 ==> !r,
        !r ==> current + current + current + current < 5 * max,
        r ==> current + current + current + current >= 5 * max,
        r ==> s,
{
}

/// The reader of a client goes on after a packet, unless nobody is left to receive it, and after what is
/// no packet. It waits anew only after a packet. Whatever else happens ends it.
pub proof fn readers_go_on_after_packets(event: ReaderEvent, step: ReaderStep)
    requires
        call_ensures(reader_step, (event,), step),
    ensures
        event is Packet && (event->outcome == PutOutcome::Taken || event->outcome
            == PutOutcome::Full) ==> step == ReaderStep::Restart,
        event is Packet && event->outcome == PutOutcome::Gone ==> step == ReaderStep::Stop,
        event is Ignored ==> step == ReaderStep::GoOn,
        event is Aborted || event is Failed || event is TimedOut ==> step == ReaderStep::Stop,
{
}

/// A packet of a client is handed over once and as it is. The reader stops exactly if nobody is left to
/// receive it.
pub proof fn readers_hand_packets_over(
    before: PacketOutlet,
    after: PacketOutlet,
    packet: Bytes,
    step: ReaderStep,
)
    requires
        exists|outlet: &mut PacketOutlet|
            *outlet == before && *final(outlet) == after && #[trigger] call_ensures(
                forward_packet,
                (outlet, packet),
                step,
            ),
    ensures
        after.handed().len() == before.handed().len() + 1,
        after.handed().drop_last() == before.handed(),
        after.handed().last().0 == packet,
        step == ReaderStep::Stop <==> after.handed().last().1 == PutOutcome::Gone,
        step == ReaderStep::Restart <==> after.handed().last().1 != PutOutcome::Gone,
        after.end() == before.end(),
{
    assert(after.handed().drop_last() =~= before.handed());
}

/// The client id of an accepted request is the one that it was accepted for, and a session that is ready
/// is passed on with it. Where there is none, the server learns that it failed.
pub proof fn accepted_requests_become_sessions<S>(
    answer: Option<ConnectionRequestResult>,
    client_id: Option<u64>,
    client_idx: u64,
    session: Option<S>,
    result: ClientConnectionResult<S>,
)
    requires
        call_ensures(accepted_client_id, (answer,), client_id),
        client_id is Some ==> call_ensures(
            connection_result::<S>,
            (client_idx, client_id->0, session),
            result,
        ),
    ensures
        client_id is Some <==> answer is Some && answer->0 is Success,
        client_id is Some ==> answer == Some(
            ConnectionRequestResult::Success { client_id: client_id->0 },
        ),
        client_id is Some && session is Some ==> result == (ClientConnectionResult::Success {
            client_idx,
            client_id: client_id->0,
            session: session->0,
        }),
        client_id is Some && session is None ==> result == (ClientConnectionResult::<S>::Failure {
            client_idx,
        }),
{
}

} // verus!
