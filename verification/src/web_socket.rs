//! The WebSocket server.

use tokio::sync::mpsc::Receiver;
use vstd::prelude::*;

use crate::addr::SocketAddr;
use crate::channels::PutOutcome;
use crate::client_table::{
    ClientConnectionResult, ConnectionRequest, ConnectionRequestResult, Departed, SendStep,
    ServerClient,
};
use crate::error::SocketError;
use crate::request::RequestError;
use crate::web_server::{ConnectionStep, RequestDesk, ServerEnds, ServerView, WebServer};

verus! {

/// The query of the address that a text stands for, if it has one.
pub uninterp spec fn uri_query(text: Seq<char>) -> Option<Seq<char>>;

/// The key and the value of the first pair in a query, decoded.
pub uninterp spec fn first_query_pair(query: Seq<char>) -> Option<(Seq<char>, Seq<char>)>;

/// The bytes that a JSON text stands for, if it is an array of numbers that are bytes.
pub uninterp spec fn json_bytes(text: Seq<char>) -> Option<Seq<u8>>;

/// Calls `http::Uri::query` on the address that the text stands for. What it returns depends on the
/// text alone.
#[verifier::external_body]
fn query_of_uri(text: &str) -> (r: Option<String>)
    ensures
        crate::web_url::view_of(r) == uri_query(text@),
{
    text.parse::<http::Uri>().ok()?.query().map(|query| query.to_owned())
}

/// Calls `form_urlencoded::parse`, and takes the first pair that it gives. What that is depends on
/// the query alone.
#[verifier::external_body]
fn first_pair_of_query(query: &str) -> (r: Option<(String, String)>)
    ensures
        match r {
            Some(pair) => first_query_pair(query@) == Some((pair.0@, pair.1@)),
            None => first_query_pair(query@) is None,
        },
{
    let (key, value) = form_urlencoded::parse(query.as_bytes()).next()?;
    Some((key.into_owned(), value.into_owned()))
}

/// Calls `serde_json::from_str` for a vector of bytes. What it returns depends on the text alone.
#[verifier::external_body]
fn bytes_of_json(text: &str) -> (r: Option<Vec<u8>>)
    ensures
        crate::web_url::view_of(r) == json_bytes(text@),
{
    serde_json::from_str::<Vec<u8>>(text).ok()
}

/// The connection request in an address: the value of the first pair in the query, whatever its
/// key, as a JSON array.
pub open spec fn request_in_uri(uri: Seq<char>) -> Result<Seq<u8>, RequestError> {
    match uri_query(uri) {
        None => Err(RequestError::MissingQuery),
        Some(query) => match first_query_pair(query) {
            None => Err(RequestError::MissingRequest),
            Some((_, value)) => match json_bytes(value) {
                None => Err(RequestError::MalformedRequest),
                Some(request) => Ok(request),
            },
        },
    }
}

/// Decides what comes of looking for a connection request, where `has_query` tells whether the
/// address has a query, `has_pair` whether there is a pair in it, and `request` is the value of the
/// pair, if it can be read.
pub fn decide_request(has_query: bool, has_pair: bool, request: Option<Vec<u8>>) -> (r: Result<
    Vec<u8>,
    RequestError,
>)
    ensures
        match r {
            Ok(found) => has_query && has_pair && request == Some(found),
            Err(RequestError::MissingQuery) => !has_query,
            Err(RequestError::MissingRequest) => has_query && !has_pair,
            Err(RequestError::MalformedRequest) => has_query && has_pair && request is None,
        },
{
    if !has_query {
        return Err(RequestError::MissingQuery);
    }
    if !has_pair {
        return Err(RequestError::MissingRequest);
    }
    match request {
        Some(request) => Ok(request),
        None => Err(RequestError::MalformedRequest),
    }
}

/// Extracts the connection request of a client from the address that it connects to, where the
/// request is a JSON array.
pub fn extract_client_connection_req(uri: &str) -> (r: Result<Vec<u8>, RequestError>)
    ensures
        match r {
            Ok(request) => request_in_uri(uri@) == Ok::<Seq<u8>, RequestError>(request@),
            Err(e) => request_in_uri(uri@) == Err::<Seq<u8>, RequestError>(e),
        },
{
    let query = match query_of_uri(uri) {
        Some(query) => query,
        None => {
            return decide_request(false, false, None);
        },
    };
    let value = match first_pair_of_query(query.as_str()) {
        Some(pair) => pair.1,
        None => {
            return decide_request(true, false, None);
        },
    };
    decide_request(true, true, bytes_of_json(value.as_str()))
}

/// Hands the connection request in the address of a client to the server. The answer tells the
/// index of the client, and where the server's decision will come, unless the server has no room
/// for the request.
pub fn begin_connection(desk: &mut RequestDesk, uri: &str) -> (r: Result<
    Option<(u64, Receiver<ConnectionRequestResult>)>,
    RequestError,
>)
    ensures
        forall|first: u64| #[trigger]
            old(desk).numbered_from(first) ==> final(desk).numbered_from(first),
        connection_begun(old(desk), final(desk), uri@, r),
{
    match extract_client_connection_req(uri) {
        Ok(packet) => {
            let ghost content = packet@;
            let begun = desk.begin_connection(packet);
            let r: Result<
                Option<(u64, Receiver<ConnectionRequestResult>)>,
                RequestError,
            > = Ok(begun);
            proof {
                let (request, outcome) = choose|request: ConnectionRequest, outcome: PutOutcome|
                    #[trigger] old(desk).hands_over(&*desk, request, outcome, content, begun);
                let found = request_in_uri(uri@);
                assert(old(desk).hands_over(&*desk, request, outcome, found->Ok_0, r->Ok_0));
                assert(connection_begun(old(desk), &*desk, uri@, r));
            }
            r
        },
        Err(e) => Err(e),
    }
}

/// What beginning a connection does: the request in the address is handed to the server, if there
/// is one.
pub open spec fn connection_begun(
    before: &RequestDesk,
    after: &RequestDesk,
    uri: Seq<char>,
    r: Result<Option<(u64, Receiver<ConnectionRequestResult>)>, RequestError>,
) -> bool {
    match request_in_uri(uri) {
        Ok(packet) => r is Ok && exists|request: ConnectionRequest, outcome: PutOutcome| #[trigger]
            before.hands_over(after, request, outcome, packet, r->Ok_0),
        Err(e) => *after == *before && r == Err::<
            Option<(u64, Receiver<ConnectionRequestResult>)>,
            RequestError,
        >(e),
    }
}

/// A WebSocket server.
#[verifier::reject_recursive_types(S)]
pub struct WebSocketServer<S> {
    server: WebServer<S>,
}

impl<S> View for WebSocketServer<S> {
    type V = ServerView<S>;

    closed spec fn view(&self) -> ServerView<S> {
        self.server@
    }
}

impl<S> WebSocketServer<S> {
    /// Makes a new server that listens on an address.
    pub fn new(addr: SocketAddr, ends: ServerEnds<S>) -> (r: Self)
        ensures
            r@ == ServerView::<S>::fresh(addr, ends),
    {
        WebSocketServer { server: WebServer::new(addr, ends) }
    }

    /// Disconnects the server.
    pub fn close(&mut self)
        ensures
            final(self)@ == old(self)@.closing(),
    {
        self.server.close();
    }

    /// Whether the socket encrypts: it does.
    pub fn is_encrypted(&self) -> (r: bool)
        ensures
            r,
    {
        true
    }

    /// Where the server listens.
    pub fn addr(&self) -> (r: SocketAddr)
        ensures
            r == self@.addr,
    {
        self.server.addr()
    }

    /// Whether the server has been closed.
    pub fn is_closed(&self) -> (r: bool)
        ensures
            r == self@.closed,
    {
        self.server.is_closed()
    }

    /// The session of an active client.
    pub fn session(&self, client_idx: u64) -> (r: Option<&S>)
        ensures
            match r {
                Some(session) => self@.table.clients.contains_key(client_idx) && *session
                    == self@.table.clients[client_idx].session,
                None => !self@.table.clients.contains_key(client_idx),
            },
    {
        self.server.session(client_idx)
    }

    /// Loses the client whose request was denied.
    pub fn connection_denied(&mut self, addr: SocketAddr)
        requires
            addr is V6,
        ensures
            final(self)@ == old(self)@.with_table(
                old(self)@.table.losing(crate::addr::client_idx(addr->V6_0.ip)),
            ),
    {
        self.server.disconnect(addr);
    }

    /// Records that the request of a client was accepted for a client id.
    pub fn connection_accepted(&mut self, client_id: u64, addr: SocketAddr)
        requires
            addr is V6,
        ensures
            final(self)@ == old(self)@.with_table(
                old(self)@.table.accepting(client_id, crate::addr::client_idx(addr->V6_0.ip)),
            ),
    {
        self.server.connection_accepted(client_id, addr);
    }

    /// Loses a client.
    pub fn disconnect(&mut self, addr: SocketAddr)
        requires
            addr is V6,
        ensures
            final(self)@ == old(self)@.with_table(
                old(self)@.table.losing(crate::addr::client_idx(addr->V6_0.ip)),
            ),
    {
        self.server.disconnect(addr);
    }

    /// Looks for the next session, and decides what is done about it.
    pub fn preupdate(&mut self) -> (r: ConnectionStep<S>)
        ensures
            exists|given: Option<ClientConnectionResult<S>>| #[trigger]
                old(self)@.connection_taken(final(self)@, given, r),
    {
        let step = self.server.next_connection();
        proof {
            let given = choose|given: Option<ClientConnectionResult<S>>| #[trigger]
                old(self).server@.connection_taken(self.server@, given, step);
            assert(old(self)@.connection_taken(self@, given, step));
        }
        step
    }

    /// Makes a client active.
    pub fn open_client(&mut self, client_idx: u64, client: ServerClient<S>)
        ensures
            final(self)@ == old(self)@.opening(client_idx, client@),
    {
        self.server.open_client(client_idx, client);
    }

    /// Receives the next connection request, or the next packet of an active client. The end of the
    /// answers just closes for a client whose request does not fit.
    pub fn try_recv(&mut self, buffer: &mut [u8]) -> (r: Result<(usize, SocketAddr), SocketError>)
        ensures
            exists|requests: Seq<Option<ConnectionRequest>>, end_index: Option<u64>| #[trigger]
                old(self)@.receives(
                    false,
                    final(self)@,
                    requests,
                    end_index,
                    old(buffer)@,
                    final(buffer)@,
                    r,
                ),
    {
        let r = self.server.try_recv(false, buffer);
        proof {
            let (requests, end_index) = choose|
                requests: Seq<Option<ConnectionRequest>>,
                end_index: Option<u64>,
            | #[trigger]
                old(self).server@.receives(
                    false,
                    self.server@,
                    requests,
                    end_index,
                    old(buffer)@,
                    buffer@,
                    r,
                );
            assert(old(self)@.receives(false, self@, requests, end_index, old(buffer)@, buffer@, r));
        }
        r
    }

    /// Removes the clients that are lost or whose reader is over, and hands them back. Their ends
    /// close when they are dropped.
    pub fn postupdate(&mut self) -> (r: Departed<S>)
        ensures
            exists|checked: Map<u64, crate::client_table::ClientView<S>>| #[trigger]
                old(self)@.cleaned(false, checked, final(self)@, r@),
    {
        let departed = self.server.postupdate(false);
        proof {
            let checked = choose|checked: Map<u64, crate::client_table::ClientView<S>>| #[trigger]
                old(self).server@.cleaned(false, checked, self.server@, departed@);
            assert(old(self)@.cleaned(false, checked, self@, departed@));
        }
        departed
    }

    /// Decides what happens to a packet for a client.
    pub fn send(&mut self, addr: SocketAddr, packet: &[u8]) -> (r: Result<SendStep, SocketError>)
        requires
            addr is V6,
        ensures
            old(self)@.sends(crate::addr::client_idx(addr->V6_0.ip), packet@, final(self)@, r),
    {
        self.server.send(addr, packet)
    }

    /// Decides what is returned for a packet that was transmitted to a client.
    pub fn message_sent(&self, sent: bool) -> (r: Result<(), SocketError>)
        ensures
            r == if sent {
                Ok::<(), SocketError>(())
            } else {
                Err::<(), SocketError>(SocketError::ConnectionAborted)
            },
    {
        if sent {
            Ok(())
        } else {
            Err(SocketError::ConnectionAborted)
        }
    }
}

/// An accepted client is told so, and holds its client id. Whoever else held that is lost. If the address
/// belongs to nobody who waits, nothing changes.
pub proof fn accepted_clients_hold_their_id<S>(
    before: WebSocketServer<S>,
    after: WebSocketServer<S>,
    client_id: u64,
    addr: SocketAddr,
    idx: u64,
    k: u64,
)
    requires
        addr is V6,
        exists|server: &mut WebSocketServer<S>|
            *server == before && *final(server) == after && #[trigger] call_ensures(
                WebSocketServer::<S>::connection_accepted,
                (server, client_id, addr),
                (),
            ),
        call_ensures(crate::addr::client_idx_from_addr, (addr,), idx),
    ensures
        after@ == (ServerView { table: after@.table, ..before@ }),
        after@.table.clients == before@.table.clients,
        after@.table.recv_index == before@.table.recv_index,
        after@.table.count == before@.table.count,
        after@.table.refused == before@.table.refused,
        after@.table.pending.dom() == before@.table.pending.dom(),
        k != idx && before@.table.pending.contains_key(k) ==> after@.table.pending[k]
            == before@.table.pending[k],
        !before@.table.pending.contains_key(idx) ==> after@.table.pending == before@.table.pending
            && after@.table.slots == before@.table.slots && after@.table.lost == before@.table.lost,
        before@.table.pending.contains_key(idx) ==> {
            &&& after@.table.pending[idx].client_id == Some(client_id)
            &&& after@.table.pending[idx].replies == before@.table.pending[idx].replies.push(
                ConnectionRequestResult::Success { client_id },
            )
            &&& after@.table.pending[idx].answer_end == before@.table.pending[idx].answer_end
            &&& after@.table.pending[idx].buffered == before@.table.pending[idx].buffered
            &&& after@.table.pending[idx].client_idx == before@.table.pending[idx].client_idx
            &&& after@.table.slots.contains_key(client_id)
            &&& after@.table.slots[client_id] == idx
            &&& k != client_id ==> after@.table.slots.contains_key(k)
                == before@.table.slots.contains_key(k)
            &&& k != client_id && before@.table.slots.contains_key(k) ==> after@.table.slots[k]
                == before@.table.slots[k]
            &&& after@.table.lost.contains(k) <==> before@.table.lost.contains(k) || (
            before@.table.slots.contains_key(client_id) && before@.table.slots[client_id] == k && k
                != idx)
        },
{
    assert(after@.table.pending.dom() =~= before@.table.pending.dom());
}

/// A client that is disconnected, or whose request is denied, is lost. Nothing else changes before the
/// lost clients are removed.
pub proof fn disconnected_clients_are_lost<S>(
    before: WebSocketServer<S>,
    after: WebSocketServer<S>,
    addr: SocketAddr,
    idx: u64,
    k: u64,
)
    requires
        addr is V6,
        exists|server: &mut WebSocketServer<S>|
            *server == before && *final(server) == after && (#[trigger] call_ensures(
                WebSocketServer::<S>::disconnect,
                (server, addr),
                (),
            ) || call_ensures(WebSocketServer::<S>::connection_denied, (server, addr), ())),
        call_ensures(crate::addr::client_idx_from_addr, (addr,), idx),
    ensures
        after@ == (ServerView { table: after@.table, ..before@ }),
        after@.table.clients == before@.table.clients,
        after@.table.recv_index == before@.table.recv_index,
        after@.table.count == before@.table.count,
        after@.table.refused == before@.table.refused,
        after@.table.pending == before@.table.pending,
        after@.table.slots == before@.table.slots,
        after@.table.lost.contains(k) <==> before@.table.lost.contains(k) || k == idx,
{
}

/// A packet for an active client is to be transmitted as it is. One for a pending client is kept if it is
/// the first. For anybody else there is no connection.
pub proof fn packets_go_to_known_clients<S>(
    before: WebSocketServer<S>,
    after: WebSocketServer<S>,
    addr: SocketAddr,
    packet: &[u8],
    answer: Result<SendStep, SocketError>,
    idx: u64,
    k: u64,
)
    requires
        addr is V6,
        exists|server: &mut WebSocketServer<S>|
            *server == before && *final(server) == after && #[trigger] call_ensures(
                WebSocketServer::<S>::send,
                (server, addr, packet),
                answer,
            ),
        call_ensures(crate::addr::client_idx_from_addr, (addr,), idx),
    ensures
        after@ == (ServerView { table: after@.table, ..before@ }),
        after@.table.clients == before@.table.clients,
        after@.table.recv_index == before@.table.recv_index,
        after@.table.count == before@.table.count,
        after@.table.refused == before@.table.refused,
        after@.table.slots == before@.table.slots,
        after@.table.lost == before@.table.lost,
        after@.table.pending.dom() == before@.table.pending.dom(),
        k != idx && before@.table.pending.contains_key(k) ==> after@.table.pending[k]
            == before@.table.pending[k],
        before@.table.clients.contains_key(idx) ==> {
            &&& after@ == before@
            &&& answer is Ok
            &&& answer->Ok_0 is Transmit
            &&& crate::packet_bytes::bytes_content(answer->Ok_0->data) == packet@
        },
        !before@.table.clients.contains_key(idx) && before@.table.pending.contains_key(idx) ==> {
            &&& answer is Ok
            &&& answer->Ok_0 is Done
            &&& before@.table.pending[idx].buffered is None ==> after@.table.pending[idx].buffered
                == Some(packet@)
            &&& before@.table.pending[idx].buffered is Some ==> after@.table.pending[idx].buffered
                == before@.table.pending[idx].buffered
            &&& after@.table.pending[idx].client_id == before@.table.pending[idx].client_id
            &&& after@.table.pending[idx].client_idx == before@.table.pending[idx].client_idx
            &&& after@.table.pending[idx].answer_end == before@.table.pending[idx].answer_end
            &&& after@.table.pending[idx].replies == before@.table.pending[idx].replies
        },
        !before@.table.clients.contains_key(idx) && !before@.table.pending.contains_key(idx)
            ==> answer == Err::<SendStep, SocketError>(SocketError::ConnectionAborted) && after@
            == before@,
{
    assert(after@.table.pending.dom() =~= before@.table.pending.dom());
}

/// Receiving answers with the first connection request that fits, or else asks the active clients below
/// the newest one, in the order of their indices. Requests that are too large are passed over,
/// and their clients are not told.
/// A packet that fits is the answer, one that does not costs the client its connection, and
/// a client is passed over for this round only if it had nothing.
pub proof fn requests_and_packets_are_received<S>(
    before: WebSocketServer<S>,
    after: WebSocketServer<S>,
    buffer_before: Seq<u8>,
    buffer_after: Seq<u8>,
    answer: Result<(usize, SocketAddr), SocketError>,
    k: u64,
)
    requires
        exists|server: &mut WebSocketServer<S>, buffer: &mut [u8]|
            *server == before && *final(server) == after && buffer@ == buffer_before
                && (*final(buffer))@ == buffer_after && #[trigger] call_ensures(
                WebSocketServer::<S>::try_recv,
                (server, buffer),
                answer,
            ),
    ensures
        after@.announced == after@.table.count,
        after@ == (ServerView {
            table: after@.table,
            announced: after@.announced,
            requests: after@.requests,
            index_reads: after@.index_reads,
            ..before@
        }),
        after@.table.slots == before@.table.slots,
        after@.requests.len() > before@.requests.len(),
        after@.requests.subrange(0, before@.requests.len() as int) == before@.requests,
        forall|i: int|
            before@.requests.len() <= i < after@.requests.len() - 1 ==> (
            #[trigger] after@.requests[i] matches Some(request) && request.packet@.len()
                > buffer_before.len()),
        after@.requests.last() is Some && after@.requests.last()->0.packet@.len()
            <= buffer_before.len() ==> {
            let request = after@.requests.last()->0;
            &&& answer is Ok
            &&& answer->Ok_0.0 as int == request.packet@.len()
            &&& answer->Ok_0.1 == crate::addr::client_addr(request.client_idx)
            &&& buffer_after == request.packet@ + buffer_before.skip(
                request.packet@.len() as int,
            )
            &&& after@.table.pending.contains_key(request.client_idx)
            &&& after@.table.pending[request.client_idx].client_id is None
            &&& after@.table.pending[request.client_idx].answer_end == request.result_sender.end()
            &&& after@.table.count == before@.table.count.wrapping_add(1)
            &&& after@.table.clients == before@.table.clients
            &&& after@.index_reads == before@.index_reads
        },
        after@.requests.last() is None ==> {
            &&& after@.table.pending == before@.table.pending
            &&& after@.table.count == before@.table.count
            &&& after@.index_reads.len() == before@.index_reads.len() + 1
        },
        after@.table.refused == before@.table.refused,
        after@.table.clients.dom() == before@.table.clients.dom(),
        before@.table.clients.contains_key(k) ==> {
            let old_account = before@.table.clients[k].packets;
            let account = after@.table.clients[k].packets;
            let asked = account.len() == old_account.len() + 1;
            &&& account == old_account || asked && account.drop_last() == old_account
            &&& asked && account.last() is Some && account.last()->0.len() <= buffer_before.len()
                ==> answer is Ok && answer->Ok_0.0 == account.last()->0.len() && answer->Ok_0.1
                == crate::addr::client_addr(k) && buffer_after == account.last()->0
                + buffer_before.skip(account.last()->0.len() as int)
            &&& before@.table.recv_index <= k < after@.table.recv_index ==> asked && (
            after@.table.lost.contains(k) || account.last() is None)
            &&& answer is Err && before@.table.recv_index <= k < after@.index_reads.last() ==> asked
                && (after@.table.lost.contains(k) || account.last() is None)
            &&& !before@.table.lost.contains(k) ==> (after@.table.lost.contains(k) <==> asked
                && account.last() is Some && account.last()->0.len() > buffer_before.len())
        },
        answer is Err ==> answer == Err::<(usize, SocketAddr), SocketError>(SocketError::WouldBlock)
            && buffer_after == buffer_before,
{
    let (requests, end_index) = choose|
        requests: Seq<Option<ConnectionRequest>>,
        end_index: Option<u64>,
    | #[trigger]
        before@.receives(
            false,
            after@,
            requests,
            end_index,
            buffer_before,
            buffer_after,
            answer,
        );
    crate::web_server_laws::requests_are_taken_in_one_by_one(
        false,
        before@,
        after@,
        requests,
        end_index,
        buffer_before,
        buffer_after,
        answer,
    );
    assert(after@.requests.subrange(0, before@.requests.len() as int) =~= before@.requests);
    assert(after@.requests.last() == requests.last());
    assert(requests.last()->0.packet.len() == requests.last()->0.packet@.len());
    assert forall|i: int| before@.requests.len() <= i < after@.requests.len() - 1 implies (
    #[trigger] after@.requests[i] matches Some(request) && request.packet@.len()
        > buffer_before.len()) by {
        assert(after@.requests[i] == requests[i - before@.requests.len()]);
    }
    if before@.table.clients.contains_key(k) {
        crate::web_server_laws::clients_are_asked_in_turn(
            false,
            before@,
            after@,
            requests,
            end_index,
            buffer_before,
            buffer_after,
            answer,
            k,
        );
    }
    crate::web_server_laws::receiving_keeps_everybody(
        false,
        before@,
        after@,
        requests,
        end_index,
        buffer_before,
        buffer_after,
        answer,
    );
}

/// Looking for a session makes the client of it active, exactly if it is pending and holds its client id.
/// Once there is none, a new round begins with the first client.
pub proof fn sessions_are_looked_for<S>(
    before: WebSocketServer<S>,
    after: WebSocketServer<S>,
    step: ConnectionStep<S>,
    k: u64,
)
    requires
        exists|server: &mut WebSocketServer<S>|
            *server == before && *final(server) == after && #[trigger] call_ensures(
                WebSocketServer::<S>::preupdate,
                (server,),
                step,
            ),
    ensures
        after@ == (ServerView {
            table: after@.table,
            announced: after@.announced,
            connections: after@.connections,
            ..before@
        }),
        after@.connections.len() == before@.connections.len() + 1,
        after@.connections.drop_last() == before@.connections,
        after@.table.refused == before@.table.refused,
        after@.table.count == if step is Stop {
            before@.table.count.wrapping_sub(1)
        } else {
            before@.table.count
        },
        after@.table.clients == before@.table.clients,
        after@.table.slots == before@.table.slots,
        after@.connections.last() is None <==> step is Drained,
        step is Drained ==> after@.table.recv_index == 0 && after@.table.pending
            == before@.table.pending && after@.table.lost == before@.table.lost,
        !(step is Drained) ==> after@.announced == after@.table.count,
        after@.connections.last() matches Some(ClientConnectionResult::Failure { client_idx }) ==> {
            &&& step is Skip
            &&& after@.table.pending == before@.table.pending
            &&& after@.table.lost.contains(k) <==> before@.table.lost.contains(k) || k == client_idx
        },
        after@.connections.last() matches Some(
            ClientConnectionResult::Success { client_idx, client_id, session },
        ) ==> {
            let waits = before@.table.pending.contains_key(client_idx);
            let holds = before@.table.slots.contains_key(client_id)
                && before@.table.slots[client_id] == client_idx;
            &&& step is Skip <==> !waits
            &&& step is Stop <==> waits && !holds
            &&& step is Open <==> waits && holds
            &&& after@.table.pending.contains_key(k) <==> before@.table.pending.contains_key(k) && k
                != client_idx
            &&& step matches ConnectionStep::Open {
                client_idx: opened,
                client_id: named,
                session: through,
                ..
            } ==> opened == client_idx && named == client_id && through == session
        },
{
    let given = choose|given: Option<ClientConnectionResult<S>>| #[trigger]
        before@.connection_taken(after@, given, step);
    crate::web_server_laws::sessions_open_accepted_clients(before@, after@, given, step, k);
    assert(after@.connections.drop_last() =~= before@.connections);
}

/// Removing the lost clients keeps an active client exactly if it is not lost and its reader is not over,
/// and a pending client exactly if it is not lost. Those that go are handed back: readers are told to
/// stop, and pending clients are turned down, without being told so.
pub proof fn lost_clients_are_removed<S>(
    before: WebSocketServer<S>,
    after: WebSocketServer<S>,
    departed: Departed<S>,
    k: u64,
)
    requires
        exists|server: &mut WebSocketServer<S>|
            *server == before && *final(server) == after && #[trigger] call_ensures(
                WebSocketServer::<S>::postupdate,
                (server,),
                departed,
            ),
        before@.table.consistent(),
    ensures
        after@.announced == after@.table.clients.len() + after@.table.pending.len(),
        after@ == (ServerView { table: after@.table, announced: after@.announced, ..before@ }),
        after@.table.recv_index == before@.table.recv_index,
        !after@.table.lost.contains(k),
        after@.table.clients.contains_key(k) || departed@.clients.contains_key(k)
            <==> before@.table.clients.contains_key(k),
        after@.table.clients.contains_key(k) ==> !before@.table.lost.contains(k)
            && !departed@.clients.contains_key(k) && after@.table.clients[k].checks
            == before@.table.clients[k].checks.push(false),
        departed@.clients.contains_key(k) ==> (before@.table.lost.contains(k)
            || departed@.clients[k].checks.last()) && departed@.clients[k].stops
            == before@.table.clients[k].stops + 1,
        before@.table.pending.contains_key(k) ==> (after@.table.pending.contains_key(k)
            <==> !before@.table.lost.contains(k)) && (departed@.pending.contains_key(k)
            <==> before@.table.lost.contains(k)),
        after@.table.pending.contains_key(k) ==> before@.table.pending.contains_key(k)
            && after@.table.pending[k] == before@.table.pending[k],
        departed@.pending.contains_key(k) ==> departed@.pending[k].replies
            == before@.table.pending[k].replies,
{
    let checked = choose|checked: Map<u64, crate::client_table::ClientView<S>>| #[trigger]
        before@.cleaned(false, checked, after@, departed@);
    crate::web_server_laws::removal_takes_the_lost_clients(
        false,
        before@,
        checked,
        after@,
        departed@,
        k,
        0,
    );
}

/// A client that is made active has the session and the client id that it was made with, and nobody else
/// is touched.
pub proof fn opened_clients_are_active<S>(
    before: WebSocketServer<S>,
    after: WebSocketServer<S>,
    client_idx: u64,
    client: ServerClient<S>,
    k: u64,
)
    requires
        exists|server: &mut WebSocketServer<S>|
            *server == before && *final(server) == after && #[trigger] call_ensures(
                WebSocketServer::<S>::open_client,
                (server, client_idx, client),
                (),
            ),
    ensures
        after@ == (ServerView { table: after@.table, ..before@ }),
        after@.table.recv_index == before@.table.recv_index,
        after@.table.refused == before@.table.refused,
        after@.table.clients.contains_key(client_idx),
        after@.table.clients[client_idx] == client@,
        k != client_idx ==> after@.table.clients.contains_key(k)
            == before@.table.clients.contains_key(k),
        k != client_idx && before@.table.clients.contains_key(k) ==> after@.table.clients[k]
            == before@.table.clients[k],
        after@.table.pending == before@.table.pending,
        after@.table.slots == before@.table.slots,
        after@.table.lost == before@.table.lost,
        after@.table.count == before@.table.count,
{
}

/// A new server is open and has no clients. Closing it stops the task that accepts connections, and
/// leaves the clients as they are.
pub proof fn servers_open_and_close<S>(
    addr: SocketAddr,
    ends: ServerEnds<S>,
    fresh: WebSocketServer<S>,
    before: WebSocketServer<S>,
    after: WebSocketServer<S>,
    k: u64,
)
    requires
        call_ensures(WebSocketServer::<S>::new, (addr, ends), fresh),
        exists|server: &mut WebSocketServer<S>|
            *server == before && *final(server) == after && #[trigger] call_ensures(
                WebSocketServer::<S>::close,
                (server,),
                (),
            ),
    ensures
        fresh@.addr == addr,
        !fresh@.closed,
        !fresh@.table.clients.contains_key(k),
        !fresh@.table.pending.contains_key(k),
        !fresh@.table.slots.contains_key(k),
        !fresh@.table.lost.contains(k),
        fresh@.table.count == 0,
        fresh@.table.recv_index == 0,
        fresh@.table.refused.len() == 0,
        fresh@.request_end == ends.requests.end(),
        fresh@.connection_end == ends.connections.end(),
        fresh@.acceptor == ends.connection_abort_handle.task(),
        fresh@.board == ends.current_clients.number(),
        fresh@.counter == ends.client_iterator.counter(),
        after@ == (ServerView { closed: true, stops: before@.stops + 1, ..before@ }),
{
}

/// The request is the value of the first pair in the query of the address, whatever its key, read as a
/// list of bytes. It is missing where there is no query, or no pair in it, and malformed where the value
/// cannot be read.
pub proof fn requests_are_the_first_value(uri: &str, r: Result<Vec<u8>, RequestError>)
    requires
        call_ensures(extract_client_connection_req, (uri,), r),
    ensures
        r is Err && r->Err_0 == RequestError::MissingQuery <==> uri_query(uri@) is None,
        r is Err && r->Err_0 == RequestError::MissingRequest <==> uri_query(uri@) is Some
            && first_query_pair(uri_query(uri@)->0) is None,
        uri_query(uri@) is Some && first_query_pair(uri_query(uri@)->0) is Some ==> {
            let value = (first_query_pair(uri_query(uri@)->0)->0).1;
            &&& r is Ok <==> json_bytes(value) is Some
            &&& r is Ok ==> r->Ok_0@ == json_bytes(value)->0
            &&& r is Err ==> r->Err_0 == RequestError::MalformedRequest
        },
{
}

/// The request in an address is handed to the server as it was found there, under the next index. If
/// none is found, the answer says why, and nothing is handed over.
pub proof fn found_requests_are_handed_over(
    before: RequestDesk,
    after: RequestDesk,
    uri: &str,
    found: Result<Vec<u8>, RequestError>,
    answer: Result<Option<(u64, Receiver<ConnectionRequestResult>)>, RequestError>,
)
    requires
        exists|desk: &mut RequestDesk|
            *desk == before && *final(desk) == after && #[trigger] call_ensures(
                begin_connection,
                (desk, uri),
                answer,
            ),
        call_ensures(extract_client_connection_req, (uri,), found),
    ensures
        found matches Err(e) ==> after == before && answer == Err::<
            Option<(u64, Receiver<ConnectionRequestResult>)>,
            RequestError,
        >(e),
        found matches Ok(packet) ==> {
            &&& answer is Ok
            &&& after.handed().len() == before.handed().len() + 1
            &&& after.handed().drop_last() == before.handed()
            &&& after.handed().last().0.packet@ == packet@
            &&& after.handed().last().0.client_idx == before.next_index()
            &&& answer->Ok_0 is Some <==> after.handed().last().1 == PutOutcome::Taken
            &&& answer->Ok_0 is Some ==> (answer->Ok_0->0).0 == before.next_index()
                && crate::web_server::answer_receiver_channel((answer->Ok_0->0).1)
                == crate::web_server::answer_sender_channel(
                after.handed().last().0.result_sender.end(),
            )
        },
{
    if found is Ok {
        let (request, outcome) = choose|request: ConnectionRequest, outcome: PutOutcome| #[trigger]
            before.hands_over(&after, request, outcome, found->Ok_0@, answer->Ok_0);
        assert(after.handed().drop_last() =~= before.handed());
    }
}

/// A call is a step of a round: the server was asked for a packet and answered this, or a request was
/// accepted or denied, or a client was disconnected, or a packet was sent.
proof fn lemma_call_is_step<S>(
    before: WebSocketServer<S>,
    answer: Option<Result<(usize, SocketAddr), SocketError>>,
    after: WebSocketServer<S>,
) -> (step: crate::web_server_laws::RoundStep)
    requires
        match answer {
            Some(answer) => exists|server: &mut WebSocketServer<S>, buffer: &mut [u8]|
                *server == before && *final(server) == after && #[trigger] call_ensures(
                    WebSocketServer::<S>::try_recv,
                    (server, buffer),
                    answer,
                ),
            None => {
                ||| exists|server: &mut WebSocketServer<S>, addr: SocketAddr, client_id: u64|
                    addr is V6 && *server == before && *final(server) == after
                        && #[trigger] call_ensures(WebSocketServer::<S>::connection_accepted, (server, client_id, addr), ())
                ||| exists|server: &mut WebSocketServer<S>, addr: SocketAddr|
                    addr is V6 && *server == before && *final(server) == after
                        && #[trigger] call_ensures(WebSocketServer::<S>::connection_denied, (server, addr), ())
                ||| exists|server: &mut WebSocketServer<S>, addr: SocketAddr|
                    addr is V6 && *server == before && *final(server) == after
                        && #[trigger] call_ensures(WebSocketServer::<S>::disconnect, (server, addr), ())
                ||| exists|server: &mut WebSocketServer<S>, addr: SocketAddr, packet: &[u8], sent: Result<SendStep, SocketError>|
                    addr is V6 && *server == before && *final(server) == after
                        && #[trigger] call_ensures(WebSocketServer::<S>::send, (server, addr, packet), sent)
            },
        },
    ensures
        crate::web_server_laws::step_leads(before@, step, after@),
        answer is Some <==> step is Received,
        answer is Some ==> step->answer == answer->0,
{
    match answer {
        Some(answer) => {
            let (server, buffer) = choose|server: &mut WebSocketServer<S>, buffer: &mut [u8]|
                *server == before && *final(server) == after && #[trigger] call_ensures(
                    WebSocketServer::<S>::try_recv,
                    (server, buffer),
                    answer,
                );
            assert(call_ensures(WebSocketServer::<S>::try_recv, (server, buffer), answer));
            crate::web_server_laws::RoundStep::Received { answer }
        },
        None => {
            crate::web_server_laws::RoundStep::Else
        },
    }
}

/// The calls of a round ask the server for packets, and may accept or deny requests, disconnect clients and
/// send packets meanwhile. A round drains the active clients: as long as a client has packets it keeps its turn, and gives them
/// one by one. The round goes on behind a client only once it was asked and had nothing, unless it is
/// lost, and then it is not asked again. Once a call in the round is answered that there is nothing to
/// receive, every active client up to the newest one was asked in this round and last had nothing, unless
/// it is lost.
pub proof fn clients_are_drained<S>(
    servers: Seq<WebSocketServer<S>>,
    answers: Seq<Option<Result<(usize, SocketAddr), SocketError>>>,
    k: u64,
)
    requires
        servers.len() == answers.len() + 1,
        forall|i: int|
            0 <= i < answers.len() ==> match #[trigger] answers[i] {
                Some(answer) => exists|server: &mut WebSocketServer<S>, buffer: &mut [u8]|
                    *server == servers[i] && *final(server) == servers[i + 1] && #[trigger] call_ensures(
                        WebSocketServer::<S>::try_recv,
                        (server, buffer),
                        answer,
                    ),
                None => {
                    ||| exists|server: &mut WebSocketServer<S>, addr: SocketAddr, client_id: u64|
                        addr is V6 && *server == servers[i] && *final(server) == servers[i + 1]
                            && #[trigger] call_ensures(WebSocketServer::<S>::connection_accepted, (server, client_id, addr), ())
                    ||| exists|server: &mut WebSocketServer<S>, addr: SocketAddr|
                        addr is V6 && *server == servers[i] && *final(server) == servers[i + 1]
                            && #[trigger] call_ensures(WebSocketServer::<S>::connection_denied, (server, addr), ())
                    ||| exists|server: &mut WebSocketServer<S>, addr: SocketAddr|
                        addr is V6 && *server == servers[i] && *final(server) == servers[i + 1]
                            && #[trigger] call_ensures(WebSocketServer::<S>::disconnect, (server, addr), ())
                    ||| exists|server: &mut WebSocketServer<S>, addr: SocketAddr, packet: &[u8], sent: Result<SendStep, SocketError>|
                        addr is V6 && *server == servers[i] && *final(server) == servers[i + 1]
                            && #[trigger] call_ensures(WebSocketServer::<S>::send, (server, addr, packet), sent)
                },
            },
        servers[0]@.table.clients.contains_key(k),
        servers[0]@.table.recv_index <= k,
    ensures
        servers.last()@.table.clients.contains_key(k),
        ({
            let first = servers[0]@.table.clients[k].packets;
            let account = servers.last()@.table.clients[k].packets;
            &&& first.len() <= account.len()
            &&& account.subrange(0, first.len() as int) == first
            &&& forall|i: int|
                first.len() <= i < account.len() - 1 ==> (
                #[trigger] servers.last()@.table.clients[k].packets[i]) is Some
            &&& k < servers.last()@.table.recv_index ==> servers.last()@.table.lost.contains(k) || (
            account.len() > first.len() && account.last() is None)
            &&& answers.len() > 0 && answers.last() is Some && answers.last()->0 is Err ==> {
                &&& answers.last()->0 == Err::<(usize, SocketAddr), SocketError>(
                    SocketError::WouldBlock,
                )
                &&& k < servers.last()@.index_reads.last() ==> servers.last()@.table.lost.contains(k)
                    || (account.len() > first.len() && account.last() is None)
            }
        }),
{
    let views = servers.map_values(|server: WebSocketServer<S>| server@);
    let steps = Seq::new(
        answers.len(),
        |i: int|
            choose|step: crate::web_server_laws::RoundStep|
                crate::web_server_laws::step_leads(views[i], step, views[i + 1]) && (
                answers[i] is Some <==> step is Received) && (answers[i] is Some ==> step->answer
                    == answers[i]->0),
    );
    assert forall|i: int| 0 <= i < answers.len() implies crate::web_server_laws::step_leads(
        views[i],
        #[trigger] steps[i],
        views[i + 1],
    ) && (answers[i] is Some <==> steps[i] is Received) && (answers[i] is Some ==> steps[i]->answer
        == answers[i]->0) by {
        let answer = answers[i];
        let step = lemma_call_is_step(servers[i], answers[i], servers[i + 1]);
        assert(crate::web_server_laws::step_leads(views[i], step, views[i + 1]));
    }
    assert(views[0] == servers[0]@);
    assert(views.last() == servers.last()@);
    if answers.len() > 0 {
        assert(steps.last() == steps[answers.len() - 1]);
    }
    crate::web_server_laws::rounds_drain_every_client(views, steps, k);
}

/// A server tells where it listens, whether it was closed, and the session of every active client and of
/// nobody else. It encrypts.
pub proof fn servers_tell_their_state<S>(
    server: WebSocketServer<S>,
    addr: SocketAddr,
    closed: bool,
    client_idx: u64,
    session: Option<&S>,
    encrypted: bool,
)
    requires
        call_ensures(WebSocketServer::<S>::addr, (&server,), addr),
        call_ensures(WebSocketServer::<S>::is_closed, (&server,), closed),
        call_ensures(WebSocketServer::<S>::session, (&server, client_idx), session),
        call_ensures(WebSocketServer::<S>::is_encrypted, (&server,), encrypted),
    ensures
        addr == server@.addr,
        closed == server@.closed,
        session is Some <==> server@.table.clients.contains_key(client_idx),
        session is Some ==> *session->0 == server@.table.clients[client_idx].session,
        encrypted,
{
}

/// A message that was sent is fine, and one that was not means that the connection is over.
pub proof fn unsent_messages_end_the_connection<S>(
    server: WebSocketServer<S>,
    sent: bool,
    answer: Result<(), SocketError>,
)
    requires
        call_ensures(WebSocketServer::<S>::message_sent, (&server, sent), answer),
    ensures
        sent ==> answer == Ok::<(), SocketError>(()),
        !sent ==> answer == Err::<(), SocketError>(SocketError::ConnectionAborted),
{
}

} // verus!
