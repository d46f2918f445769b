//! The message server: who is connected, what they send and receive, and what happened to them.

use std::collections::{HashMap, VecDeque};

use vstd::prelude::*;

use crate::channel::ChannelConfig;
use crate::collections::{map_keys, small_map_keys};
use crate::connection::{
    ConnectionCall, DisconnectionReason, LocalClient, MessageEndpoint, MessageError,
    RemoteConnection, Transport, TransportCall, TransportError,
};
use crate::control::{ConnectionControl, ConnectionPermission, ControlView};
use crate::{ClientId, Payload};

verus! {

broadcast use vstd::std_specs::hash::group_hash_axioms;

/// Limits of a server.
#[derive(Debug, Clone, Copy, PartialEq, Eq, Structural)]
pub struct ServerConfig {
    /// The server is full with this many clients.
    pub max_clients: usize,
    /// Largest payload, in bytes.
    pub max_payload_size: usize,
}

impl ServerConfig {
    /// Makes a configuration with the given limits.
    pub fn new(max_clients: usize, max_payload_size: usize) -> (r: Self)
        ensures
            r == (ServerConfig { max_clients, max_payload_size }),
    {
        ServerConfig { max_clients, max_payload_size }
    }
}

impl Default for ServerConfig {
    fn default() -> (r: Self)
        ensures
            r == (ServerConfig { max_clients: 16, max_payload_size: 8192 }),
    {
        ServerConfig { max_clients: 16, max_payload_size: 8 * 1024 }
    }
}

/// The channels of both directions of a connection.
pub struct ConnectionConfig {
    /// Channels from the server to its clients.
    pub server_channels_config: Vec<ChannelConfig>,
    /// Channels from a client to the server.
    pub client_channels_config: Vec<ChannelConfig>,
}

impl ConnectionConfig {
    /// Makes a configuration from the channels of both directions.
    pub fn from_channels(
        server_channels_config: Vec<ChannelConfig>,
        client_channels_config: Vec<ChannelConfig>,
    ) -> (r: Self)
        ensures
            r.server_channels_config == server_channels_config,
            r.client_channels_config == client_channels_config,
    {
        ConnectionConfig { server_channels_config, client_channels_config }
    }
}

/// Something that happened to a client.
#[derive(Debug, Clone, Copy, PartialEq, Eq, Structural)]
pub enum ServerEvent<C> {
    /// The client is now connected.
    ClientConnected(C),
    /// The client is no longer connected.
    ClientDisconnected(C),
}

/// One event for each of the clients, in the same order.
pub open spec fn disconnected_events(ids: Seq<ClientId>) -> Seq<ServerEvent<ClientId>> {
    Seq::new(ids.len(), |i: int| ServerEvent::ClientDisconnected(ids[i]))
}

/// The payloads of one client among those received, in the same order.
pub open spec fn payloads_of(received: Seq<(ClientId, Seq<u8>)>, client_id: ClientId) -> Seq<
    Seq<u8>,
>
    decreases received.len(),
{
    if received.len() == 0 {
        Seq::empty()
    } else {
        let before = payloads_of(received.drop_last(), client_id);
        if received.last().0 == client_id {
            before.push(received.last().1)
        } else {
            before
        }
    }
}

/// The most payloads that are taken in one update.
pub const RECV_LIMIT: u64 = u64::MAX;

/// The account of a transport that gave these payloads.
pub open spec fn recv_calls(control: ControlView, received: Seq<(ClientId, Seq<u8>)>) -> Seq<
    TransportCall,
> {
    Seq::new(
        received.len(),
        |i: int| TransportCall::Recv { control, received: Some(received[i]) },
    )
}

/// The account of a transport that gave these payloads and then no more, unless they are as many
/// as are taken in one update.
pub open spec fn drain_calls(control: ControlView, received: Seq<(ClientId, Seq<u8>)>) -> Seq<
    TransportCall,
> {
    if received.len() >= RECV_LIMIT {
        recv_calls(control, received)
    } else {
        recv_calls(control, received).push(TransportCall::Recv { control, received: None })
    }
}

/// What the transport is told of the clients that want to connect: all get in, or, where the
/// server is full, all are turned away.
pub open spec fn admission_calls(connecting: Seq<ClientId>, full: bool) -> Seq<TransportCall> {
    Seq::new(
        connecting.len(),
        |i: int|
            if full {
                TransportCall::Disconnect {
                    client_id: connecting[i],
                    reason: DisconnectionReason::MaxPlayer,
                }
            } else {
                TransportCall::ConfirmConnect { client_id: connecting[i] }
            },
    )
}

/// Between the two accounts lies one call that sent the message.
pub open spec fn message_sent(
    before: Seq<ConnectionCall>,
    after: Seq<ConnectionCall>,
    channel_id: u8,
    message: Seq<u8>,
) -> bool {
    exists|answer: Result<(), MessageError>|
        after == before.push(#[trigger] send_call(channel_id, message, answer))
}

/// A call that sends a message.
pub open spec fn send_call(
    channel_id: u8,
    message: Seq<u8>,
    answer: Result<(), MessageError>,
) -> ConnectionCall {
    ConnectionCall::SendMessage { channel_id, message, answer }
}

/// The connection, as it was, has been told to end.
pub open spec fn told_to_disconnect<L: LocalClient>(before: L) -> bool {
    exists|after: L| #[trigger]
        after.calls() == before.calls().push(ConnectionCall::Disconnect)
}

/// A call that opens a local connection.
pub open spec fn open_call(client_id: ClientId, channels: Seq<u8>) -> ConnectionCall {
    ConnectionCall::Open { client_id, channels }
}

/// Every connection was sent the message once, and nothing else was done to it.
pub open spec fn all_sent<M: MessageEndpoint>(
    before: Map<ClientId, M>,
    after: Map<ClientId, M>,
    channel_id: u8,
    message: Seq<u8>,
) -> bool {
    &&& after.dom() == before.dom()
    &&& forall|id: ClientId| #[trigger]
        before.contains_key(id) ==> message_sent(
            before[id].calls(),
            after[id].calls(),
            channel_id,
            message,
        )
}

/// Between the two accounts lie the calls that processed the payloads, in order.
pub open spec fn payloads_processed(
    before: Seq<ConnectionCall>,
    after: Seq<ConnectionCall>,
    payloads: Seq<Seq<u8>>,
) -> bool {
    &&& after.len() == before.len() + payloads.len()
    &&& after.take(before.len() as int) == before
    &&& forall|i: int|
        0 <= i < payloads.len() ==> (#[trigger] after[before.len() + i] matches
            ConnectionCall::ProcessPayload { payload, .. } && payload == payloads[i])
}

/// Sends a message to every connection of a map.
fn send_to_all<M: MessageEndpoint>(
    connections: &mut HashMap<ClientId, M>,
    channel_id: u8,
    message: &Payload,
)
    ensures
        all_sent(old(connections)@, final(connections)@, channel_id, message@),
{
    let ids = map_keys(connections);
    let ghost before = connections@;
    let mut i: usize = 0;
    while i < ids.len()
        invariant
            ids@.no_duplicates(),
            ids@.to_set() == before.dom(),
            connections@.dom() == before.dom(),
            i <= ids@.len(),
            forall|j: int|
                0 <= j < i ==> message_sent(
                    before[#[trigger] ids@[j]].calls(),
                    connections@[ids@[j]].calls(),
                    channel_id,
                    message@,
                ),
            forall|j: int| i <= j < ids@.len() ==> connections@[#[trigger] ids@[j]] == before[ids@[j]],
        decreases ids.len() - i,
    {
        let id = ids[i];
        assert(ids@.to_set().contains(ids@[i as int]));
        match connections.remove(&id) {
            Some(mut connection) => {
                let ghost calls = connection.calls();
                let answer = connection.send_message(channel_id, message.clone());
                assert(connection.calls() == calls.push(send_call(channel_id, message@, answer)));
                connections.insert(id, connection);
            },
            None => {},
        }
        assert(connections@.dom() =~= before.dom());
        i = i + 1;
    }
    assert forall|id: ClientId| #[trigger] before.contains_key(id) implies message_sent(
        before[id].calls(),
        connections@[id].calls(),
        channel_id,
        message@,
    ) by {
        assert(ids@.to_set().contains(id));
        let j = choose|j: int| 0 <= j < ids@.len() && ids@[j] == id;
        assert(ids@[j] == id);
    }
}

/// The clients whose latest call is an update that found the connection over.
pub open spec fn lost_remote<R: RemoteConnection>(remote: Map<ClientId, R>) -> Set<ClientId> {
    remote.dom().filter(
        |id: ClientId| remote[id].calls().last() == (ConnectionCall::Update { alive: false }),
    )
}

/// The clients whose latest call is a check that found the other end gone.
pub open spec fn lost_local<L: LocalClient>(local: Map<ClientId, L>) -> Set<ClientId> {
    local.dom().filter(
        |id: ClientId|
            local[id].calls().last() == (ConnectionCall::IsConnected { connected: false }),
    )
}

/// Between the two accounts lies one update.
pub open spec fn updated(before: Seq<ConnectionCall>, after: Seq<ConnectionCall>) -> bool {
    ||| after == before.push(ConnectionCall::Update { alive: true })
    ||| after == before.push(ConnectionCall::Update { alive: false })
}

/// Between the two accounts lies one check of the other end.
pub open spec fn checked(before: Seq<ConnectionCall>, after: Seq<ConnectionCall>) -> bool {
    ||| after == before.push(ConnectionCall::IsConnected { connected: true })
    ||| after == before.push(ConnectionCall::IsConnected { connected: false })
}

/// The calls that send the packets of several clients, one client after the other.
pub open spec fn all_packet_calls(
    ids: Seq<ClientId>,
    packets: Seq<Option<Seq<Seq<u8>>>>,
) -> Seq<TransportCall>
    decreases ids.len(),
{
    if ids.len() == 0 {
        Seq::empty()
    } else {
        all_packet_calls(ids.drop_last(), packets.drop_last())
            + crate::connection::packet_calls(ids.last(), packets.last())
    }
}

/// The clients of these connections.
pub open spec fn client_ids<R: RemoteConnection>(
    remote: Map<ClientId, R>,
    ids: Seq<ClientId>,
) -> Seq<ClientId> {
    ids.map_values(|id: ClientId| remote[id].id())
}

/// What came back from the outside during one update of a server.
pub struct UpdateTrace<R, L> {
    /// The payloads that the transport gave.
    pub received: Seq<(ClientId, Seq<u8>)>,
    /// The remote connections after they took in their payloads.
    pub fed: Map<ClientId, R>,
    /// The remote connections after their own update.
    pub remote: Map<ClientId, R>,
    /// The clients among them that are lost, in the order in which they were removed.
    pub lost_remote: Seq<ClientId>,
    /// The local connections after they were checked.
    pub local: Map<ClientId, L>,
    /// The clients among them that are lost, in the order in which they were removed.
    pub lost_local: Seq<ClientId>,
    /// The clients that want to connect.
    pub connecting: Seq<ClientId>,
}

/// The list holds those of the first `n` identifiers that are in the set, each once.
spec fn selected(ids: Seq<ClientId>, n: int, list: Seq<ClientId>, set: Set<ClientId>) -> bool {
    &&& list.no_duplicates()
    &&& list.to_set() == ids.take(n).to_set().intersect(set)
}

/// A list grows by the next identifier if that is in the set, and where nothing changed for the
/// identifiers before, it holds what it should.
proof fn lemma_select_next(
    ids: Seq<ClientId>,
    n: int,
    list: Seq<ClientId>,
    set: Set<ClientId>,
    next_list: Seq<ClientId>,
    next_set: Set<ClientId>,
)
    requires
        ids.no_duplicates(),
        0 <= n < ids.len(),
        selected(ids, n, list, set),
        forall|id: ClientId| id != ids[n] ==> (next_set.contains(id) <==> set.contains(id)),
        next_list == if next_set.contains(ids[n]) {
            list.push(ids[n])
        } else {
            list
        },
    ensures
        selected(ids, n + 1, next_list, next_set),
{
    let id = ids[n];
    assert(ids.take(n + 1) =~= ids.take(n).push(id));
    ids.take(n).lemma_push_to_set_commute(id);
    list.lemma_push_to_set_commute(id);
    assert(!ids.take(n).to_set().contains(id));
    assert(!list.to_set().contains(id));
    assert(!list.contains(id));
    assert(next_list.to_set() =~= ids.take(n + 1).to_set().intersect(next_set));
}

/// Updates every connection, and returns those that are over.
fn update_all<R: RemoteConnection>(connections: &mut HashMap<ClientId, R>) -> (r: Vec<ClientId>)
    ensures
        final(connections)@.dom() == old(connections)@.dom(),
        forall|id: ClientId| #[trigger]
            old(connections)@.contains_key(id) ==> updated(
                old(connections)@[id].calls(),
                final(connections)@[id].calls(),
            ),
        r@.no_duplicates(),
        r@.to_set() == lost_remote(final(connections)@),
{
    let ids = map_keys(connections);
    let mut lost: Vec<ClientId> = Vec::new();
    let ghost before = connections@;
    let mut i: usize = 0;
    assert(lost@.to_set() =~= ids@.take(0).to_set().intersect(lost_remote(before)));
    while i < ids.len()
        invariant
            ids@.no_duplicates(),
            ids@.to_set() == before.dom(),
            connections@.dom() == before.dom(),
            i <= ids@.len(),
            forall|j: int|
                0 <= j < i ==> updated(
                    before[#[trigger] ids@[j]].calls(),
                    connections@[ids@[j]].calls(),
                ),
            forall|j: int| i <= j < ids@.len() ==> connections@[#[trigger] ids@[j]] == before[ids@[j]],
            selected(ids@, i as int, lost@, lost_remote(connections@)),
        decreases ids.len() - i,
    {
        let id = ids[i];
        assert(ids@.to_set().contains(ids@[i as int]));
        let ghost lost_before = lost@;
        let ghost dead_before = lost_remote(connections@);
        match connections.remove(&id) {
            Some(mut connection) => {
                let answer = connection.update();
                if answer.is_err() {
                    lost.push(id);
                }
                connections.insert(id, connection);
            },
            None => {},
        }
        assert(connections@.dom() =~= before.dom());
        proof {
            lemma_select_next(
                ids@,
                i as int,
                lost_before,
                dead_before,
                lost@,
                lost_remote(connections@),
            );
        }
        i = i + 1;
    }
    proof {
        assert forall|id: ClientId| before.contains_key(id) implies exists|j: int|
            0 <= j < ids@.len() && #[trigger] ids@[j] == id by {
            assert(ids@.to_set().contains(id));
        }
        assert(ids@.take(ids@.len() as int) =~= ids@);
        assert(lost@.to_set() =~= lost_remote(connections@));
    }
    lost
}

/// Asks every connection whether its other end is there, and returns those where it is gone.
fn check_all<L: LocalClient>(connections: &mut HashMap<ClientId, L>) -> (r: Vec<ClientId>)
    ensures
        final(connections)@.dom() == old(connections)@.dom(),
        forall|id: ClientId| #[trigger]
            old(connections)@.contains_key(id) ==> checked(
                old(connections)@[id].calls(),
                final(connections)@[id].calls(),
            ),
        r@.no_duplicates(),
        r@.to_set() == lost_local(final(connections)@),
{
    let ids = map_keys(connections);
    let mut lost: Vec<ClientId> = Vec::new();
    let ghost before = connections@;
    let mut i: usize = 0;
    assert(lost@.to_set() =~= ids@.take(0).to_set().intersect(lost_local(before)));
    while i < ids.len()
        invariant
            ids@.no_duplicates(),
            ids@.to_set() == before.dom(),
            connections@.dom() == before.dom(),
            i <= ids@.len(),
            forall|j: int|
                0 <= j < i ==> checked(
                    before[#[trigger] ids@[j]].calls(),
                    connections@[ids@[j]].calls(),
                ),
            forall|j: int| i <= j < ids@.len() ==> connections@[#[trigger] ids@[j]] == before[ids@[j]],
            selected(ids@, i as int, lost@, lost_local(connections@)),
        decreases ids.len() - i,
    {
        let id = ids[i];
        assert(ids@.to_set().contains(ids@[i as int]));
        let ghost lost_before = lost@;
        let ghost dead_before = lost_local(connections@);
        match connections.remove(&id) {
            Some(mut connection) => {
                let connected = connection.is_connected();
                if !connected {
                    lost.push(id);
                }
                connections.insert(id, connection);
            },
            None => {},
        }
        assert(connections@.dom() =~= before.dom());
        proof {
            lemma_select_next(
                ids@,
                i as int,
                lost_before,
                dead_before,
                lost@,
                lost_local(connections@),
            );
        }
        i = i + 1;
    }
    proof {
        assert forall|id: ClientId| before.contains_key(id) implies exists|j: int|
            0 <= j < ids@.len() && #[trigger] ids@[j] == id by {
            assert(ids@.to_set().contains(id));
        }
        assert(ids@.take(ids@.len() as int) =~= ids@);
        assert(lost@.to_set() =~= lost_local(connections@));
    }
    lost
}

/// Removes connections, and records for each that the client is gone.
fn remove_all<M>(
    connections: &mut HashMap<ClientId, M>,
    events: &mut VecDeque<ServerEvent<ClientId>>,
    ids: &Vec<ClientId>,
)
    ensures
        final(connections)@ == old(connections)@.remove_keys(ids@.to_set()),
        final(events)@ == old(events)@ + disconnected_events(ids@),
{
    let ghost before = connections@;
    let ghost past = events@;
    assert(before.remove_keys(ids@.take(0).to_set()) =~= before);
    for i in 0..ids.len()
        invariant
            connections@ == before.remove_keys(ids@.take(i as int).to_set()),
            events@ =~= past + disconnected_events(ids@.take(i as int)),
    {
        let id = ids[i];
        connections.remove(&id);
        events.push_back(ServerEvent::ClientDisconnected(id));
        assert(ids@.take(i + 1) =~= ids@.take(i as int).push(id));
        proof {
            ids@.take(i as int).lemma_push_to_set_commute(id);
        }
        assert(connections@ =~= before.remove_keys(ids@.take(i + 1).to_set()));
        assert(disconnected_events(ids@.take(i + 1)) =~= disconnected_events(
            ids@.take(i as int),
        ).push(ServerEvent::ClientDisconnected(id)));
    }
    assert(ids@.take(ids@.len() as int) =~= ids@);
}

/// A server for clients behind a transport and for clients in the same process.
pub struct Server<T, R, L> {
    /// Limits.
    pub config: ServerConfig,
    /// The layer below the remote clients.
    pub transport: T,
    /// The clients behind the transport.
    pub remote_clients: HashMap<ClientId, R>,
    /// The clients in the same process.
    pub local_clients: HashMap<ClientId, L>,
    /// The channels, by identifier.
    pub channels_config: HashMap<u8, ChannelConfig>,
    /// Events that have not been taken yet, oldest first.
    pub events: VecDeque<ServerEvent<ClientId>>,
    /// Settings of the connections.
    pub connection_config: ConnectionConfig,
    /// Who may connect.
    pub connection_control: ConnectionControl,
}

impl<T: Transport, R: RemoteConnection, L: LocalClient> Server<T, R, L> {
    /// The clients that are connected.
    pub open spec fn connected(&self) -> Set<ClientId> {
        self.remote_clients@.dom() + self.local_clients@.dom()
    }

    /// Whether no further client may connect.
    pub open spec fn is_full(&self) -> bool {
        self.remote_clients@.len() + self.local_clients@.len() >= self.config.max_clients
    }

    /// Everything that only `new` sets is as in `other`.
    pub open spec fn same_settings(&self, other: &Self) -> bool {
        &&& self.config == other.config
        &&& self.channels_config == other.channels_config
        &&& self.connection_config == other.connection_config
    }

    /// The two servers differ in nothing but the connections to their clients.
    pub open spec fn same_but_connections(&self, other: &Self) -> bool {
        &&& self.same_settings(other)
        &&& self.transport == other.transport
        &&& self.events == other.events
        &&& self.connection_control == other.connection_control
    }

    /// The two servers differ in nothing but who may connect.
    pub open spec fn only_control_changed(&self, other: &Self) -> bool {
        &&& self.same_settings(other)
        &&& self.transport == other.transport
        &&& self.remote_clients == other.remote_clients
        &&& self.local_clients == other.local_clients
        &&& self.events == other.events
    }

    /// Makes a server without clients.
    pub fn new(
        transport: T,
        config: ServerConfig,
        connection_config: ConnectionConfig,
        connection_permission: ConnectionPermission,
        channels_config: HashMap<u8, ChannelConfig>,
    ) -> (r: Self)
        ensures
            r.config == config,
            r.transport == transport,
            r.remote_clients@ == Map::<ClientId, R>::empty(),
            r.local_clients@ == Map::<ClientId, L>::empty(),
            r.channels_config == channels_config,
            r.events@ == Seq::<ServerEvent<ClientId>>::empty(),
            r.connection_config == connection_config,
            r.connection_control@ == (ControlView {
                allowed: Set::empty(),
                denied: Set::empty(),
                permission: connection_permission,
            }),
    {
        let connection_control = ConnectionControl::new(connection_permission);
        Server {
            config,
            transport,
            remote_clients: HashMap::new(),
            local_clients: HashMap::new(),
            channels_config,
            events: VecDeque::new(),
            connection_config,
            connection_control,
        }
    }

    /// Whether any client is connected.
    pub fn has_clients(&self) -> (r: bool)
        ensures
            r == (self.connected() != Set::<ClientId>::empty()),
    {
        let r = !self.remote_clients.is_empty() || !self.local_clients.is_empty();
        proof {
            if self.connected() =~= Set::<ClientId>::empty() {
                assert forall|id: ClientId| !self.remote_clients@.contains_key(id)
                    && !self.local_clients@.contains_key(id) by {
                    assert(!self.connected().contains(id));
                }
                assert(self.remote_clients@.dom() =~= Set::empty());
                assert(self.local_clients@.dom() =~= Set::empty());
            }
        }
        r
    }

    /// Takes the oldest event.
    pub fn get_event(&mut self) -> (r: Option<ServerEvent<ClientId>>)
        ensures
            old(self).events@.len() == 0 ==> r is None && final(self).events@ == old(self).events@,
            old(self).events@.len() > 0 ==> r == Some(old(self).events@[0])
                && final(self).events@ == old(self).events@.drop_first(),
            final(self).same_settings(old(self)),
            final(self).transport == old(self).transport,
            final(self).remote_clients == old(self).remote_clients,
            final(self).local_clients == old(self).local_clients,
            final(self).connection_control == old(self).connection_control,
    {
        self.events.pop_front()
    }

    /// Puts a client on the allow list, and takes it off the deny list.
    pub fn allow_client(&mut self, client_id: &ClientId)
        ensures
            final(self).connection_control@ == old(self).connection_control@.allow(*client_id),
            final(self).only_control_changed(old(self)),
    {
        self.connection_control.allow_client(client_id);
    }

    /// Puts every client that is connected on the allow list.
    pub fn allow_connected_clients(&mut self)
        ensures
            final(self).connection_control@ == (ControlView {
                allowed: old(self).connection_control@.allowed + old(self).connected(),
                denied: old(self).connection_control@.denied - old(self).connected(),
                permission: old(self).connection_control@.permission,
            }),
            final(self).only_control_changed(old(self)),
    {
        let ids = self.get_clients_id();
        let ghost before = self.connection_control@;
        for i in 0..ids.len()
            invariant
                self.only_control_changed(old(self)),
                self.connection_control@ =~= (ControlView {
                    allowed: before.allowed + ids@.take(i as int).to_set(),
                    denied: before.denied - ids@.take(i as int).to_set(),
                    permission: before.permission,
                }),
        {
            let id = ids[i];
            self.allow_client(&id);
            proof {
                assert(ids@.take(i + 1) =~= ids@.take(i as int).push(id));
                ids@.take(i as int).lemma_push_to_set_commute(id);
            }
        }
        assert(ids@.take(ids@.len() as int) =~= ids@);
    }

    /// Puts a client on the deny list, and takes it off the allow list.
    pub fn deny_client(&mut self, client_id: &ClientId)
        ensures
            final(self).connection_control@ == old(self).connection_control@.deny(*client_id),
            final(self).only_control_changed(old(self)),
    {
        self.connection_control.deny_client(client_id);
    }

    /// Changes the general rule for new connections; the lists stay.
    pub fn set_connection_permission(&mut self, connection_permission: ConnectionPermission)
        ensures
            final(self).connection_control@ == (ControlView {
                permission: connection_permission,
                ..old(self).connection_control@
            }),
            final(self).only_control_changed(old(self)),
    {
        self.connection_control.set_connection_permission(connection_permission);
    }

    /// The general rule for new connections.
    pub fn connection_permission(&self) -> (r: &ConnectionPermission)
        ensures
            *r == self.connection_control@.permission,
    {
        self.connection_control.connection_permission()
    }

    /// The clients on the allow list, in no particular order.
    pub fn allowed_clients(&self) -> (r: Vec<ClientId>)
        ensures
            r@.no_duplicates(),
            r@.to_set() == self.connection_control@.allowed,
    {
        self.connection_control.allowed_clients()
    }

    /// The clients on the deny list, in no particular order.
    pub fn denied_clients(&self) -> (r: Vec<ClientId>)
        ensures
            r@.no_duplicates(),
            r@.to_set() == self.connection_control@.denied,
    {
        self.connection_control.denied_clients()
    }

    /// Measurements of the connection to a remote client.
    pub fn network_info(&self, client_id: ClientId) -> (r: Option<&R::NetworkInfo>)
        ensures
            match r {
                Some(info) => self.remote_clients@.contains_key(client_id)
                    && *info == self.remote_clients@[client_id].info(),
                None => !self.remote_clients@.contains_key(client_id),
            },
    {
        if let Some(connection) = self.remote_clients.get(&client_id) {
            return Some(connection.network_info());
        }
        None
    }

    /// Connects a client in the same process, and returns its end of the connection. The
    /// connection has all channels of the server.
    pub fn create_local_client(&mut self, client_id: ClientId) -> (r: L::Connected)
        ensures
            final(self).events@ == old(self).events@.push(ServerEvent::ClientConnected(client_id)),
            final(self).local_clients@ == old(self).local_clients@.insert(
                client_id,
                final(self).local_clients@[client_id],
            ),
            L::paired(r, final(self).local_clients@[client_id]),
            exists|channels: Seq<u8>|
                {
                    &&& final(self).local_clients@[client_id].calls() == seq![
                        #[trigger] open_call(client_id, channels),
                    ]
                    &&& channels.no_duplicates()
                    &&& channels.to_set() == old(self).channels_config@.dom()
                },
            final(self).same_settings(old(self)),
            final(self).transport == old(self).transport,
            final(self).remote_clients == old(self).remote_clients,
            final(self).connection_control == old(self).connection_control,
    {
        let channels = small_map_keys(&self.channels_config);
        self.events.push_back(ServerEvent::ClientConnected(client_id));
        let ghost listed = channels@;
        let (local_client_connected, local_client) = L::open(client_id, channels);
        assert(local_client.calls() == seq![open_call(client_id, listed)]);
        self.local_clients.insert(client_id, local_client);
        local_client_connected
    }

    /// The clients that are connected, the remote ones first.
    pub fn get_clients_id(&self) -> (r: Vec<ClientId>)
        ensures
            exists|remote: Seq<ClientId>, local: Seq<ClientId>|
                r@ == remote + local && #[trigger] remote.no_duplicates()
                    && #[trigger] local.no_duplicates() && remote.to_set()
                    == self.remote_clients@.dom() && local.to_set() == self.local_clients@.dom(),
            r@.to_set() == self.connected(),
    {
        let mut ids = map_keys(&self.remote_clients);
        let mut local = map_keys(&self.local_clients);
        let ghost first = ids@;
        let ghost second = local@;
        ids.append(&mut local);
        proof {
            assert(ids@ =~= first + second);
            assert(ids@.to_set() =~= self.connected()) by {
                assert forall|id: ClientId| self.connected().contains(id) implies ids@.contains(
                    id,
                ) by {
                    if first.to_set().contains(id) {
                        let k = choose|k: int| 0 <= k < first.len() && first[k] == id;
                        assert(ids@[k] == id);
                    } else {
                        assert(second.to_set().contains(id));
                        let k = choose|k: int| 0 <= k < second.len() && second[k] == id;
                        assert(ids@[first.len() + k] == id);
                    }
                }
                assert forall|id: ClientId| ids@.contains(id) implies self.connected().contains(
                    id,
                ) by {
                    let k = choose|k: int| 0 <= k < ids@.len() && ids@[k] == id;
                    if k < first.len() {
                        assert(first.to_set().contains(first[k]));
                    } else {
                        assert(second.to_set().contains(second[k - first.len()]));
                    }
                }
            }
        }
        ids
    }

    /// Whether a client is connected.
    pub fn is_client_connected(&self, client_id: &ClientId) -> (r: bool)
        ensures
            r == self.connected().contains(*client_id),
    {
        self.remote_clients.contains_key(client_id) || self.local_clients.contains_key(client_id)
    }

    /// Ends the connection to a client. A remote client is preferred to a local one with the same
    /// identifier; an unknown client is ignored.
    pub fn disconnect(&mut self, client_id: &ClientId)
        ensures
            old(self).remote_clients@.contains_key(*client_id) ==> {
                &&& final(self).remote_clients@ == old(self).remote_clients@.remove(*client_id)
                &&& final(self).local_clients == old(self).local_clients
                &&& final(self).transport.calls() == old(self).transport.calls().push(
                    TransportCall::Disconnect {
                        client_id: old(self).remote_clients@[*client_id].id(),
                        reason: DisconnectionReason::DisconnectedByServer,
                    },
                )
            },
            !old(self).remote_clients@.contains_key(*client_id) ==> {
                &&& final(self).remote_clients@ == old(self).remote_clients@
                &&& final(self).transport == old(self).transport
                &&& final(self).local_clients@ == old(self).local_clients@.remove(*client_id)
                &&& old(self).local_clients@.contains_key(*client_id) ==> told_to_disconnect(
                    old(self).local_clients@[*client_id],
                )
            },
            final(self).events@ == if old(self).connected().contains(*client_id) {
                old(self).events@.push(ServerEvent::ClientDisconnected(*client_id))
            } else {
                old(self).events@
            },
            final(self).same_settings(old(self)),
            final(self).connection_control == old(self).connection_control,
    {
        if let Some(remote_client) = self.remote_clients.remove(client_id) {
            self.events.push_back(ServerEvent::ClientDisconnected(*client_id));
            self.transport.disconnect(
                remote_client.client_id(),
                DisconnectionReason::DisconnectedByServer,
            );
        } else if let Some(mut local_client) = self.local_clients.remove(client_id) {
            local_client.disconnect();
            assert(local_client.calls() == old(self).local_clients@[*client_id].calls().push(
                ConnectionCall::Disconnect,
            ));
            self.events.push_back(ServerEvent::ClientDisconnected(*client_id));
            assert(self.remote_clients@ =~= old(self).remote_clients@);
        } else {
            assert(self.remote_clients@ =~= old(self).remote_clients@);
            assert(self.local_clients@ =~= old(self).local_clients@.remove(*client_id));
        }
    }

    /// What `disconnect_clients` does, where the clients are taken in this order.
    pub open spec fn all_disconnected(
        &self,
        after: &Self,
        remote: Seq<ClientId>,
        local: Seq<ClientId>,
    ) -> bool {
        &&& remote.no_duplicates()
        &&& remote.to_set() == self.remote_clients@.dom()
        &&& local.no_duplicates()
        &&& local.to_set() == self.local_clients@.dom()
        &&& after.events@ == self.events@ + disconnected_events(remote + local)
        &&& after.transport.calls() == self.transport.calls() + Seq::new(
            remote.len(),
            |i: int|
                TransportCall::Disconnect {
                    client_id: self.remote_clients@[remote[i]].id(),
                    reason: DisconnectionReason::DisconnectedByServer,
                },
        )
        &&& forall|id: ClientId| #[trigger]
            self.local_clients@.contains_key(id) ==> told_to_disconnect(self.local_clients@[id])
    }

    /// Ends the connections to all clients.
    pub fn disconnect_clients(&mut self)
        ensures
            final(self).remote_clients@ == Map::<ClientId, R>::empty(),
            final(self).local_clients@ == Map::<ClientId, L>::empty(),
            exists|remote: Seq<ClientId>, local: Seq<ClientId>| #[trigger]
                old(self).all_disconnected(final(self), remote, local),
            final(self).same_settings(old(self)),
            final(self).connection_control == old(self).connection_control,
    {
        let ids = self.get_clients_id();
        let ghost (remote, local) = choose|remote: Seq<ClientId>, local: Seq<ClientId>|
            ids@ == remote + local && #[trigger] remote.no_duplicates()
                && #[trigger] local.no_duplicates() && remote.to_set()
                == self.remote_clients@.dom() && local.to_set() == self.local_clients@.dom();
        let ghost before_remote = self.remote_clients@;
        let ghost before_local = self.local_clients@;
        let ghost told = Seq::new(
            remote.len(),
            |i: int|
                TransportCall::Disconnect {
                    client_id: before_remote[remote[i]].id(),
                    reason: DisconnectionReason::DisconnectedByServer,
                },
        );
        let ghost n = remote.len() as int;
        assert forall|i: int| 0 <= i < n implies before_remote.contains_key(#[trigger] remote[i]) by {
            assert(remote.to_set().contains(remote[i]));
        }
        assert forall|i: int| 0 <= i < local.len() implies before_local.contains_key(
            #[trigger] local[i],
        ) by {
            assert(local.to_set().contains(local[i]));
        }
        assert forall|id: ClientId| before_remote.contains_key(id) implies exists|i: int|
            0 <= i < n && #[trigger] remote[i] == id by {
            assert(remote.to_set().contains(id));
        }
        assert forall|id: ClientId| before_local.contains_key(id) implies exists|i: int|
            0 <= i < local.len() && #[trigger] local[i] == id by {
            assert(local.to_set().contains(id));
        }
        for i in 0..ids.len()
            invariant
                ids@ == remote + local,
                n == remote.len(),
                remote.no_duplicates(),
                local.no_duplicates(),
                forall|k: int| 0 <= k < n ==> before_remote.contains_key(#[trigger] remote[k]),
                forall|k: int|
                    0 <= k < local.len() ==> before_local.contains_key(#[trigger] local[k]),
                forall|id: ClientId|
                    before_remote.contains_key(id) ==> exists|k: int|
                        0 <= k < n && #[trigger] remote[k] == id,
                told.len() == n,
                forall|k: int|
                    0 <= k < n ==> told[k] == (TransportCall::Disconnect {
                        client_id: before_remote[remote[k]].id(),
                        reason: DisconnectionReason::DisconnectedByServer,
                    }),
                self.same_settings(old(self)),
                self.connection_control == old(self).connection_control,
                before_remote == old(self).remote_clients@,
                before_local == old(self).local_clients@,
                forall|id: ClientId| #[trigger]
                    self.remote_clients@.contains_key(id) <==> before_remote.contains_key(id) && (
                    forall|k: int| 0 <= k < i && k < n ==> #[trigger] remote[k] != id),
                forall|id: ClientId| #[trigger]
                    self.remote_clients@.contains_key(id) ==> self.remote_clients@[id]
                        == before_remote[id],
                forall|id: ClientId| #[trigger]
                    self.local_clients@.contains_key(id) <==> before_local.contains_key(id) && (
                    forall|k: int| 0 <= k < i - n ==> #[trigger] local[k] != id),
                forall|id: ClientId| #[trigger]
                    self.local_clients@.contains_key(id) ==> self.local_clients@[id]
                        == before_local[id],
                forall|k: int|
                    0 <= k < i - n ==> told_to_disconnect(before_local[#[trigger] local[k]]),
                self.events@ =~= old(self).events@ + disconnected_events(ids@.take(i as int)),
                self.transport.calls() =~= old(self).transport.calls() + told.take(
                    if i < n {
                        i as int
                    } else {
                        n
                    },
                ),
        {
            let id = ids[i];
            proof {
                assert(ids@.take(i + 1) =~= ids@.take(i as int).push(id));
                if i < n {
                    assert(ids@[i as int] == remote[i as int]);
                } else {
                    assert(ids@[i as int] == local[i - n]);
                }
            }
            self.disconnect(&id);
        }
        proof {
            assert(ids@.take(ids@.len() as int) =~= ids@);
            assert(told.take(n) =~= told);
            assert(self.remote_clients@ =~= Map::empty()) by {
                assert forall|id: ClientId| !self.remote_clients@.contains_key(id) by {
                    if self.remote_clients@.contains_key(id) {
                        let k = choose|k: int| 0 <= k < n && #[trigger] remote[k] == id;
                        assert(remote[k] == id);
                    }
                }
            }
            assert(self.local_clients@ =~= Map::empty()) by {
                assert forall|id: ClientId| !self.local_clients@.contains_key(id) by {
                    if self.local_clients@.contains_key(id) {
                        let k = choose|k: int| 0 <= k < local.len() && #[trigger] local[k] == id;
                        assert(local[k] == id);
                    }
                }
            }
            assert(old(self).all_disconnected(self, remote, local));
        }
    }

    /// Puts a message for a client on a channel.
    pub fn send_message(
        &mut self,
        client_id: ClientId,
        channel_id: u8,
        message: Payload,
    ) -> (r: Result<(), MessageError>)
        ensures
            final(self).same_but_connections(old(self)),
            old(self).remote_clients@.contains_key(client_id) ==> {
                &&& final(self).local_clients == old(self).local_clients
                &&& final(self).remote_clients@ == old(self).remote_clients@.insert(
                    client_id,
                    final(self).remote_clients@[client_id],
                )
                &&& final(self).remote_clients@[client_id].calls()
                    == old(self).remote_clients@[client_id].calls().push(
                    send_call(channel_id, message@, r),
                )
            },
            !old(self).remote_clients@.contains_key(client_id)
                && old(self).local_clients@.contains_key(client_id) ==> {
                &&& final(self).remote_clients@ == old(self).remote_clients@
                &&& final(self).local_clients@ == old(self).local_clients@.insert(
                    client_id,
                    final(self).local_clients@[client_id],
                )
                &&& final(self).local_clients@[client_id].calls()
                    == old(self).local_clients@[client_id].calls().push(
                    send_call(channel_id, message@, r),
                )
            },
            !old(self).connected().contains(client_id) ==> {
                &&& r == Err::<(), MessageError>(MessageError::ClientNotFound)
                &&& final(self).remote_clients@ == old(self).remote_clients@
                &&& final(self).local_clients@ == old(self).local_clients@
            },
    {
        if let Some(mut remote_connection) = self.remote_clients.remove(&client_id) {
            let r = remote_connection.send_message(channel_id, message);
            self.remote_clients.insert(client_id, remote_connection);
            assert(self.remote_clients@ =~= old(self).remote_clients@.insert(
                client_id,
                self.remote_clients@[client_id],
            ));
            r
        } else if let Some(mut local_connection) = self.local_clients.remove(&client_id) {
            let r = local_connection.send_message(channel_id, message);
            self.local_clients.insert(client_id, local_connection);
            assert(self.remote_clients@ =~= old(self).remote_clients@);
            assert(self.local_clients@ =~= old(self).local_clients@.insert(
                client_id,
                self.local_clients@[client_id],
            ));
            r
        } else {
            assert(self.remote_clients@ =~= old(self).remote_clients@);
            assert(self.local_clients@ =~= old(self).local_clients@);
            Err(MessageError::ClientNotFound)
        }
    }

    /// Puts a message for every client on a channel. What goes wrong for one client does not
    /// concern the others.
    pub fn broadcast_message(&mut self, channel_id: u8, message: Payload)
        ensures
            all_sent(
                old(self).remote_clients@,
                final(self).remote_clients@,
                channel_id,
                message@,
            ),
            all_sent(old(self).local_clients@, final(self).local_clients@, channel_id, message@),
            final(self).same_but_connections(old(self)),
    {
        send_to_all(&mut self.remote_clients, channel_id, &message);
        send_to_all(&mut self.local_clients, channel_id, &message);
    }

    /// Puts a message for every remote client on a channel.
    pub fn broadcast_message_remote(&mut self, channel_id: u8, message: Payload)
        ensures
            all_sent(
                old(self).remote_clients@,
                final(self).remote_clients@,
                channel_id,
                message@,
            ),
            final(self).local_clients == old(self).local_clients,
            final(self).same_but_connections(old(self)),
    {
        send_to_all(&mut self.remote_clients, channel_id, &message);
    }

    /// Puts a message for every local client on a channel.
    pub fn broadcast_message_local(&mut self, channel_id: u8, message: Payload)
        ensures
            all_sent(old(self).local_clients@, final(self).local_clients@, channel_id, message@),
            final(self).remote_clients == old(self).remote_clients,
            final(self).same_but_connections(old(self)),
    {
        send_to_all(&mut self.local_clients, channel_id, &message);
    }

    /// Takes the next message of a client from a channel.
    pub fn receive_message(&mut self, client_id: ClientId, channel_id: u8) -> (r: Result<
        Option<Payload>,
        MessageError,
    >)
        ensures
            final(self).same_but_connections(old(self)),
            old(self).remote_clients@.contains_key(client_id) ==> {
                &&& final(self).local_clients == old(self).local_clients
                &&& final(self).remote_clients@ == old(self).remote_clients@.insert(
                    client_id,
                    final(self).remote_clients@[client_id],
                )
                &&& final(self).remote_clients@[client_id].calls()
                    == old(self).remote_clients@[client_id].calls().push(
                    ConnectionCall::ReceiveMessage {
                        channel_id,
                        received: crate::connection::received_message(r),
                    },
                )
            },
            !old(self).remote_clients@.contains_key(client_id)
                && old(self).local_clients@.contains_key(client_id) ==> {
                &&& final(self).remote_clients@ == old(self).remote_clients@
                &&& final(self).local_clients@ == old(self).local_clients@.insert(
                    client_id,
                    final(self).local_clients@[client_id],
                )
                &&& final(self).local_clients@[client_id].calls()
                    == old(self).local_clients@[client_id].calls().push(
                    ConnectionCall::ReceiveMessage {
                        channel_id,
                        received: crate::connection::received_message(r),
                    },
                )
            },
            !old(self).connected().contains(client_id) ==> {
                &&& r == Err::<Option<Payload>, MessageError>(MessageError::ClientNotFound)
                &&& final(self).remote_clients@ == old(self).remote_clients@
                &&& final(self).local_clients@ == old(self).local_clients@
            },
    {
        if let Some(mut remote_client) = self.remote_clients.remove(&client_id) {
            let r = remote_client.receive_message(channel_id);
            self.remote_clients.insert(client_id, remote_client);
            assert(self.remote_clients@ =~= old(self).remote_clients@.insert(
                client_id,
                self.remote_clients@[client_id],
            ));
            r
        } else if let Some(mut local_client) = self.local_clients.remove(&client_id) {
            let r = local_client.receive_message(channel_id);
            self.local_clients.insert(client_id, local_client);
            assert(self.remote_clients@ =~= old(self).remote_clients@);
            assert(self.local_clients@ =~= old(self).local_clients@.insert(
                client_id,
                self.local_clients@[client_id],
            ));
            r
        } else {
            assert(self.remote_clients@ =~= old(self).remote_clients@);
            assert(self.local_clients@ =~= old(self).local_clients@);
            Err(MessageError::ClientNotFound)
        }
    }

    /// Hands a payload to the connection of the client that sent it. The payload of an unknown
    /// client is dropped, and so is the answer of the connection.
    pub fn deliver_payload(&mut self, client_id: ClientId, payload: &[u8])
        ensures
            final(self).same_but_connections(old(self)),
            final(self).local_clients == old(self).local_clients,
            old(self).remote_clients@.contains_key(client_id) ==> {
                &&& final(self).remote_clients@ == old(self).remote_clients@.insert(
                    client_id,
                    final(self).remote_clients@[client_id],
                )
                &&& payloads_processed(
                    old(self).remote_clients@[client_id].calls(),
                    final(self).remote_clients@[client_id].calls(),
                    seq![payload@],
                )
            },
            !old(self).remote_clients@.contains_key(client_id) ==> final(self).remote_clients@
                == old(self).remote_clients@,
    {
        if let Some(mut client) = self.remote_clients.remove(&client_id) {
            let ghost before = client.calls();
            let _ = client.process_payload(payload);
            assert(client.calls().take(before.len() as int) =~= before);
            self.remote_clients.insert(client_id, client);
            assert(self.remote_clients@ =~= old(self).remote_clients@.insert(
                client_id,
                self.remote_clients@[client_id],
            ));
        } else {
            assert(self.remote_clients@ =~= old(self).remote_clients@);
        }
    }

    /// What the server does with the payloads that the transport gives.
    pub open spec fn payloads_delivered(
        &self,
        after: &Self,
        received: Seq<(ClientId, Seq<u8>)>,
    ) -> bool {
        &&& after.same_settings(self)
        &&& after.events == self.events
        &&& after.connection_control == self.connection_control
        &&& after.local_clients == self.local_clients
        &&& after.remote_clients@.dom() == self.remote_clients@.dom()
        &&& forall|id: ClientId| #[trigger]
            self.remote_clients@.contains_key(id) ==> payloads_processed(
                self.remote_clients@[id].calls(),
                after.remote_clients@[id].calls(),
                payloads_of(received, id),
            )
    }

    /// Takes payloads from the transport until it gives no more.
    fn receive_payloads(&mut self) -> (received: Ghost<Seq<(ClientId, Seq<u8>)>>)
        ensures
            old(self).payloads_delivered(final(self), received@),
            final(self).transport.calls() == old(self).transport.calls() + drain_calls(
                old(self).connection_control@,
                received@,
            ),
    {
        let ghost mut received: Seq<(ClientId, Seq<u8>)> = Seq::empty();
        let ghost control = self.connection_control@;
        assert(recv_calls(control, received) =~= Seq::empty());
        assert forall|id: ClientId| #[trigger]
            self.remote_clients@.contains_key(id) implies payloads_processed(
            self.remote_clients@[id].calls(),
            self.remote_clients@[id].calls(),
            payloads_of(received, id),
        ) by {
            let calls = self.remote_clients@[id].calls();
            assert(calls.take(calls.len() as int) =~= calls);
        }
        let mut left: u64 = RECV_LIMIT;
        while left > 0
            invariant_except_break
                control == old(self).connection_control@,
                received.len() == RECV_LIMIT - left,
                self.transport.calls() =~= old(self).transport.calls() + recv_calls(
                    control,
                    received,
                ),
            invariant
                old(self).payloads_delivered(self, received),
            ensures
                self.transport.calls() =~= old(self).transport.calls() + drain_calls(
                    old(self).connection_control@,
                    received,
                ),
            decreases left,
        {
            match self.transport.recv(&self.connection_control) {
                Ok(Some((client_id, payload))) => {
                    let ghost before = self.remote_clients@;
                    self.deliver_payload(client_id, payload.as_slice());
                    proof {
                        let more = received.push((client_id, payload@));
                        assert(more.drop_last() =~= received);
                        assert(recv_calls(control, more) =~= recv_calls(control, received).push(
                            TransportCall::Recv { control, received: Some((client_id, payload@)) },
                        ));
                        assert(self.remote_clients@.dom() =~= old(self).remote_clients@.dom());
                        assert forall|id: ClientId| #[trigger]
                            old(self).remote_clients@.contains_key(id) implies payloads_processed(
                            old(self).remote_clients@[id].calls(),
                            self.remote_clients@[id].calls(),
                            payloads_of(more, id),
                        ) by {
                            assert(before.contains_key(id));
                            if id == client_id {
                                lemma_processed_then(
                                    old(self).remote_clients@[id].calls(),
                                    before[id].calls(),
                                    self.remote_clients@[id].calls(),
                                    payloads_of(received, id),
                                    payload@,
                                );
                            }
                        }
                        received = more;
                    }
                    left = left - 1;
                },
                _ => {
                    break ;
                },
            }
        }
        Ghost(received)
    }

    /// Answers the clients that want to connect.
    pub fn admit_clients(&mut self, connecting: Vec<ClientId>)
        ensures
            final(self).transport.calls() == old(self).transport.calls() + admission_calls(
                connecting@,
                old(self).is_full(),
            ),
            final(self).same_settings(old(self)),
            final(self).remote_clients == old(self).remote_clients,
            final(self).local_clients == old(self).local_clients,
            final(self).events == old(self).events,
            final(self).connection_control == old(self).connection_control,
    {
        let ghost full = self.is_full();
        for i in 0..connecting.len()
            invariant
                full == self.is_full(),
                self.transport.calls() =~= old(self).transport.calls() + admission_calls(
                    connecting@.take(i as int),
                    full,
                ),
                self.same_settings(old(self)),
                self.remote_clients == old(self).remote_clients,
                self.local_clients == old(self).local_clients,
                self.events == old(self).events,
                self.connection_control == old(self).connection_control,
        {
            let client_id = connecting[i];
            let remote = self.remote_clients.len();
            let local = self.local_clients.len();
            if remote >= self.config.max_clients || local >= self.config.max_clients - remote {
                self.transport.disconnect(client_id, DisconnectionReason::MaxPlayer);
            } else {
                self.transport.confirm_connect(client_id);
            }
            assert(connecting@.take(i + 1) =~= connecting@.take(i as int).push(client_id));
        }
        assert(connecting@.take(connecting@.len() as int) =~= connecting@);
    }

    /// What one update does, where this is what came back from the outside.
    pub open spec fn update_traced(&self, after: &Self, trace: UpdateTrace<R, L>) -> bool {
        &&& after.same_settings(self)
        &&& after.connection_control == self.connection_control
        // Every remote client takes in its own payloads, in order, and is then updated.
        &&& trace.fed.dom() == self.remote_clients@.dom()
        &&& trace.remote.dom() == self.remote_clients@.dom()
        &&& forall|id: ClientId| #[trigger]
            self.remote_clients@.contains_key(id) ==> payloads_processed(
                self.remote_clients@[id].calls(),
                trace.fed[id].calls(),
                payloads_of(trace.received, id),
            ) && updated(trace.fed[id].calls(), trace.remote[id].calls())
        // Every local client is checked.
        &&& trace.local.dom() == self.local_clients@.dom()
        &&& forall|id: ClientId| #[trigger]
            self.local_clients@.contains_key(id) ==> checked(
                self.local_clients@[id].calls(),
                trace.local[id].calls(),
            )
        // Those that are lost leave, each with one event.
        &&& trace.lost_remote.no_duplicates()
        &&& trace.lost_remote.to_set() == lost_remote(trace.remote)
        &&& after.remote_clients@ == trace.remote.remove_keys(lost_remote(trace.remote))
        &&& trace.lost_local.no_duplicates()
        &&& trace.lost_local.to_set() == lost_local(trace.local)
        &&& after.local_clients@ == trace.local.remove_keys(lost_local(trace.local))
        &&& after.events@ == self.events@ + disconnected_events(trace.lost_remote)
            + disconnected_events(trace.lost_local)
        // The transport is drained, updated, and told whom to let in.
        &&& after.transport.calls() == self.transport.calls() + drain_calls(
            self.connection_control@,
            trace.received,
        ) + seq![TransportCall::Update { connecting: trace.connecting }] + admission_calls(
            trace.connecting,
            after.is_full(),
        )
    }

    /// Takes in what has arrived, drops the clients that are lost, and answers the clients that
    /// want to connect.
    pub fn update(&mut self) -> (r: Result<(), TransportError>)
        ensures
            r is Ok,
            exists|trace: UpdateTrace<R, L>| #[trigger] old(self).update_traced(final(self), trace),
    {
        let Ghost(received) = self.receive_payloads();
        let ghost fed = self.remote_clients@;

        let lost_remote_clients = update_all(&mut self.remote_clients);
        let ghost remote = self.remote_clients@;
        remove_all(&mut self.remote_clients, &mut self.events, &lost_remote_clients);

        let lost_local_clients = check_all(&mut self.local_clients);
        let ghost local = self.local_clients@;
        remove_all(&mut self.local_clients, &mut self.events, &lost_local_clients);

        let connecting = self.transport.update();
        let ghost wanted = connecting@;
        self.admit_clients(connecting);

        proof {
            let trace = UpdateTrace {
                received,
                fed,
                remote,
                lost_remote: lost_remote_clients@,
                local,
                lost_local: lost_local_clients@,
                connecting: wanted,
            };
            assert(self.transport.calls() =~= old(self).transport.calls() + drain_calls(
                old(self).connection_control@,
                received,
            ) + seq![TransportCall::Update { connecting: wanted }] + admission_calls(
                wanted,
                self.is_full(),
            ));
            assert(old(self).update_traced(self, trace));
        }
        Ok(())
    }

    /// What sending packets does, where the connections are taken in the order `ids`, and each
    /// hands these packets to the transport.
    pub open spec fn sends_packets(
        &self,
        after: &Self,
        ids: Seq<ClientId>,
        packets: Seq<Option<Seq<Seq<u8>>>>,
    ) -> bool {
        &&& ids.no_duplicates()
        &&& ids.to_set() == self.remote_clients@.dom()
        &&& packets.len() == ids.len()
        &&& after.remote_clients@.dom() == self.remote_clients@.dom()
        &&& forall|j: int|
            0 <= j < ids.len() ==> after.remote_clients@[#[trigger] ids[j]].calls()
                == self.remote_clients@[ids[j]].calls().push(
                ConnectionCall::SendPackets { packets: packets[j] },
            )
        &&& after.transport.calls() == self.transport.calls() + all_packet_calls(
            client_ids(self.remote_clients@, ids),
            packets,
        )
    }

    /// Lets every remote connection hand its packets to the transport. What goes wrong for one
    /// client does not concern the others.
    pub fn send_packets(&mut self)
        ensures
            exists|ids: Seq<ClientId>, packets: Seq<Option<Seq<Seq<u8>>>>| #[trigger]
                old(self).sends_packets(final(self), ids, packets),
            final(self).same_settings(old(self)),
            final(self).local_clients == old(self).local_clients,
            final(self).events == old(self).events,
            final(self).connection_control == old(self).connection_control,
    {
        let ids = map_keys(&self.remote_clients);
        let ghost before = self.remote_clients@;
        let ghost order = client_ids(before, ids@);
        let ghost mut packets: Seq<Option<Seq<Seq<u8>>>> = Seq::empty();
        let mut i: usize = 0;
        assert(order.take(0) =~= Seq::empty());
        while i < ids.len()
            invariant
                ids@.no_duplicates(),
                ids@.to_set() == before.dom(),
                before == old(self).remote_clients@,
                order == client_ids(before, ids@),
                self.remote_clients@.dom() == before.dom(),
                i <= ids@.len(),
                packets.len() == i,
                forall|j: int|
                    0 <= j < i ==> self.remote_clients@[#[trigger] ids@[j]].calls()
                        == before[ids@[j]].calls().push(
                        ConnectionCall::SendPackets { packets: packets[j] },
                    ),
                forall|j: int|
                    i <= j < ids@.len() ==> self.remote_clients@[#[trigger] ids@[j]]
                        == before[ids@[j]],
                self.transport.calls() =~= old(self).transport.calls() + all_packet_calls(
                    order.take(i as int),
                    packets,
                ),
                self.same_settings(old(self)),
                self.local_clients == old(self).local_clients,
                self.events == old(self).events,
                self.connection_control == old(self).connection_control,
            decreases ids.len() - i,
        {
            let id = ids[i];
            assert(ids@.to_set().contains(ids@[i as int]));
            match self.remote_clients.remove(&id) {
                Some(mut connection) => {
                    let ghost calls = connection.calls();
                    let ghost client_id = connection.id();
                    let ghost past = self.transport.calls();
                    let _ = connection.send_packets(&mut self.transport);
                    proof {
                        let sent = choose|sent: Option<Seq<Seq<u8>>>|
                            {
                                &&& connection.calls() == calls.push(
                                    ConnectionCall::SendPackets { packets: sent },
                                )
                                &&& self.transport.calls() == past + #[trigger]
                                    crate::connection::packet_calls(client_id, sent)
                            };
                        let more = packets.push(sent);
                        assert(more.drop_last() =~= packets);
                        assert(order.take(i + 1).drop_last() =~= order.take(i as int));
                        assert(order.take(i + 1).last() == client_id);
                        packets = more;
                    }
                    self.remote_clients.insert(id, connection);
                },
                None => {},
            }
            assert(self.remote_clients@.dom() =~= before.dom());
            i = i + 1;
        }
        assert(order.take(ids@.len() as int) =~= order);
        assert(old(self).sends_packets(self, ids@, packets));
    }
}

/// One more payload after others.
proof fn lemma_processed_then(
    first: Seq<ConnectionCall>,
    second: Seq<ConnectionCall>,
    third: Seq<ConnectionCall>,
    payloads: Seq<Seq<u8>>,
    payload: Seq<u8>,
)
    requires
        payloads_processed(first, second, payloads),
        payloads_processed(second, third, seq![payload]),
    ensures
        payloads_processed(first, third, payloads.push(payload)),
{
    assert forall|i: int| 0 <= i < second.len() implies third[i] == second[i] by {
        assert(third.take(second.len() as int)[i] == second[i]);
    }
    assert(third.take(first.len() as int) =~= second.take(first.len() as int));
    let more = payloads.push(payload);
    assert forall|i: int| 0 <= i < more.len() implies (#[trigger] third[first.len() + i] matches
        ConnectionCall::ProcessPayload { payload, .. } && payload == more[i]) by {
        if i < payloads.len() {
            assert(third[first.len() + i] == second[first.len() + i]);
        } else {
            assert(third[second.len() + 0int] == third[first.len() + i]);
        }
    }
}

/// A client that wants to connect gets exactly one answer from an update: it is let in if there is
/// room after the lost clients have left, and turned away as one too many if not.
pub proof fn updates_answer_everybody<T: Transport, R: RemoteConnection, L: LocalClient>(
    before: Server<T, R, L>,
    after: Server<T, R, L>,
    trace: UpdateTrace<R, L>,
    i: int,
)
    requires
        before.update_traced(&after, trace),
        0 <= i < trace.connecting.len(),
    ensures
        ({
            let n = after.transport.calls().len() - trace.connecting.len();
            after.transport.calls()[n + i] == if after.is_full() {
                TransportCall::Disconnect {
                    client_id: trace.connecting[i],
                    reason: DisconnectionReason::MaxPlayer,
                }
            } else {
                TransportCall::ConfirmConnect { client_id: trace.connecting[i] }
            }
        }),
{
}

/// An update lets nobody in by itself, and drops a client exactly if the connection to it is lost.
/// Of every client that it drops it says so, and of no other.
pub proof fn updates_report_who_is_gone<T: Transport, R: RemoteConnection, L: LocalClient>(
    before: Server<T, R, L>,
    after: Server<T, R, L>,
    trace: UpdateTrace<R, L>,
    client_id: ClientId,
)
    requires
        before.update_traced(&after, trace),
    ensures
        after.remote_clients@.contains_key(client_id) <==> before.remote_clients@.contains_key(
            client_id,
        ) && !lost_remote(trace.remote).contains(client_id),
        after.local_clients@.contains_key(client_id) <==> before.local_clients@.contains_key(
            client_id,
        ) && !lost_local(trace.local).contains(client_id),
        before.events@.is_prefix_of(after.events@),
        after.events@.skip(before.events@.len() as int).contains(
            ServerEvent::ClientDisconnected(client_id),
        ) <==> lost_remote(trace.remote).contains(client_id) || lost_local(trace.local).contains(
            client_id,
        ),
        !after.events@.skip(before.events@.len() as int).contains(
            ServerEvent::ClientConnected(client_id),
        ),
{
    let news = disconnected_events(trace.lost_remote) + disconnected_events(trace.lost_local);
    let seen = after.events@.skip(before.events@.len() as int);
    assert(seen =~= news);
    assert(after.events@.take(before.events@.len() as int) =~= before.events@);
    if lost_remote(trace.remote).contains(client_id) {
        assert(trace.lost_remote.to_set().contains(client_id));
        let k = choose|k: int|
            0 <= k < trace.lost_remote.len() && trace.lost_remote[k] == client_id;
        assert(news[k] == ServerEvent::ClientDisconnected(client_id));
    }
    if lost_local(trace.local).contains(client_id) {
        assert(trace.lost_local.to_set().contains(client_id));
        let k = choose|k: int| 0 <= k < trace.lost_local.len() && trace.lost_local[k] == client_id;
        assert(news[trace.lost_remote.len() + k] == ServerEvent::ClientDisconnected(client_id));
    }
    if seen.contains(ServerEvent::ClientDisconnected(client_id)) {
        let k = choose|k: int|
            0 <= k < seen.len() && seen[k] == ServerEvent::ClientDisconnected(client_id);
        if k < trace.lost_remote.len() {
            assert(trace.lost_remote[k] == client_id);
            assert(trace.lost_remote.to_set().contains(client_id));
        } else {
            assert(trace.lost_local[k - trace.lost_remote.len()] == client_id);
            assert(trace.lost_local.to_set().contains(client_id));
        }
    }
}

} // verus!
