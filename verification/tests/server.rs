use std::collections::HashMap;
use std::time::Duration;

use renet2::channel::{ChannelConfig, SendType};
use renet2::connection::{
    ConnectionLost, DisconnectionReason, MessageError, PayloadError, TransportError,
};
use renet2::control::{ConnectionControl, ConnectionPermission};
use renet2::plugin::RenetServerPlugin;
use renet2::recorded::{
    LocalEnd, MessageEnd, RecordedLocal, RecordedRemote, RecordedTransport, RemoteEnd, TransportEnd,
};
use renet2::server::{ConnectionConfig, Server, ServerConfig, ServerEvent};

#[derive(Default)]
struct FakeTransport {
    incoming: Vec<(u64, Vec<u8>)>,
    connecting: Vec<u64>,
    confirmed: Vec<u64>,
    disconnected: Vec<(u64, DisconnectionReason)>,
    sent: Vec<(u64, Vec<u8>)>,
}

impl TransportEnd for FakeTransport {
    fn recv(
        &mut self,
        control: &ConnectionControl,
    ) -> Result<Option<(u64, Vec<u8>)>, TransportError> {
        while !self.incoming.is_empty() {
            let (id, payload) = self.incoming.remove(0);
            if control.is_client_permitted(&id) {
                return Ok(Some((id, payload)));
            }
        }
        Ok(None)
    }
    fn update(&mut self) -> Vec<u64> {
        std::mem::take(&mut self.connecting)
    }
    fn send(&mut self, client_id: u64, payload: &[u8]) {
        self.sent.push((client_id, payload.to_vec()));
    }
    fn confirm_connect(&mut self, client_id: u64) {
        self.confirmed.push(client_id);
    }
    fn disconnect(&mut self, client_id: u64, reason: DisconnectionReason) {
        self.disconnected.push((client_id, reason));
    }
}

/// Echoes the payloads it takes in as messages on channel 0, and sends the messages it is given as
/// packets. A payload of one byte zero ends it.
#[derive(Default)]
struct FakeRemote {
    payloads: Vec<Vec<u8>>,
    packets: Vec<Vec<u8>>,
    over: bool,
    updates: u32,
}

impl MessageEnd for FakeRemote {
    fn send_message(&mut self, channel_id: u8, message: Vec<u8>) -> Result<(), MessageError> {
        if channel_id != 0 {
            return Err(MessageError::InvalidChannel { channel_id });
        }
        self.packets.push(message);
        Ok(())
    }
    fn receive_message(&mut self, channel_id: u8) -> Result<Option<Vec<u8>>, MessageError> {
        if channel_id != 0 {
            return Err(MessageError::InvalidChannel { channel_id });
        }
        if self.payloads.is_empty() {
            return Ok(None);
        }
        Ok(Some(self.payloads.remove(0)))
    }
}

impl RemoteEnd for FakeRemote {
    type NetworkInfo = u32;

    fn network_info(&self) -> u32 {
        self.updates
    }
    fn process_payload(&mut self, payload: &[u8]) -> Result<(), PayloadError> {
        if payload == [0] {
            self.over = true;
            return Err(PayloadError);
        }
        self.payloads.push(payload.to_vec());
        Ok(())
    }
    fn update(&mut self) -> Result<(), ConnectionLost> {
        self.updates += 1;
        if self.over {
            Err(ConnectionLost)
        } else {
            Ok(())
        }
    }
    fn take_packets(&mut self) -> Result<Vec<Vec<u8>>, TransportError> {
        if self.over {
            return Err(TransportError);
        }
        Ok(std::mem::take(&mut self.packets))
    }
}

type Shared = std::rc::Rc<std::cell::RefCell<SharedLocal>>;

#[derive(Default)]
struct SharedLocal {
    to_client: Vec<(u8, Vec<u8>)>,
    to_server: Vec<(u8, Vec<u8>)>,
    channels: Vec<u8>,
    gone: bool,
    ended: bool,
}

struct FakeLocal(Shared);

impl MessageEnd for FakeLocal {
    fn send_message(&mut self, channel_id: u8, message: Vec<u8>) -> Result<(), MessageError> {
        self.0.borrow_mut().to_client.push((channel_id, message));
        Ok(())
    }
    fn receive_message(&mut self, channel_id: u8) -> Result<Option<Vec<u8>>, MessageError> {
        let mut shared = self.0.borrow_mut();
        match shared.to_server.iter().position(|m| m.0 == channel_id) {
            Some(i) => Ok(Some(shared.to_server.remove(i).1)),
            None => Ok(None),
        }
    }
}

impl LocalEnd for FakeLocal {
    type Connected = Shared;

    fn open(_client_id: u64, channels: Vec<u8>) -> (Shared, Self) {
        let shared = Shared::default();
        shared.borrow_mut().channels = channels;
        (shared.clone(), FakeLocal(shared))
    }
    fn is_connected(&self) -> bool {
        !self.0.borrow().gone
    }
    fn disconnect(&mut self) {
        self.0.borrow_mut().ended = true;
    }
}

type TestServer = Server<
    RecordedTransport<FakeTransport>,
    RecordedRemote<FakeRemote>,
    RecordedLocal<FakeLocal>,
>;

fn server(max_clients: usize) -> TestServer {
    let mut channels = HashMap::new();
    for channel_id in [0u8, 7] {
        channels.insert(
            channel_id,
            ChannelConfig {
                channel_id,
                max_memory_usage_bytes: 100,
                send_type: SendType::ReliableOrdered { resend_time: Duration::from_millis(300) },
            },
        );
    }
    Server::new(
        RecordedTransport::new(FakeTransport::default()),
        ServerConfig::new(max_clients, 1000),
        ConnectionConfig::from_channels(Vec::new(), Vec::new()),
        ConnectionPermission::All,
        channels,
    )
}

fn with_remote(server: &mut TestServer, client_id: u64) {
    server
        .remote_clients
        .insert(client_id, RecordedRemote::new(client_id, FakeRemote::default()));
}

fn sorted(mut ids: Vec<u64>) -> Vec<u64> {
    ids.sort();
    ids
}

#[test]
fn default_config() {
    let config = ServerConfig::default();
    assert_eq!(config.max_clients, 16);
    assert_eq!(config.max_payload_size, 8 * 1024);
    assert_eq!(ServerConfig::new(3, 4), ServerConfig { max_clients: 3, max_payload_size: 4 });
    assert_eq!(ConnectionPermission::default(), ConnectionPermission::All);
}

#[test]
fn new_server_is_empty() {
    let mut server = server(2);
    assert!(!server.has_clients());
    assert_eq!(server.get_event(), None);
    assert_eq!(server.get_clients_id(), Vec::<u64>::new());
    assert!(!server.is_client_connected(&1));
    assert_eq!(*server.connection_permission(), ConnectionPermission::All);
    assert!(server.allowed_clients().is_empty());
    assert!(server.denied_clients().is_empty());
}

#[test]
fn local_client_connects_and_talks() {
    let mut server = server(2);
    let client = server.create_local_client(5);
    assert!(server.has_clients());
    assert!(server.is_client_connected(&5));
    assert_eq!(server.get_event(), Some(ServerEvent::ClientConnected(5)));
    assert_eq!(server.get_event(), None);
    let mut channels = client.borrow().channels.clone();
    channels.sort();
    assert_eq!(channels, vec![0, 7]);

    assert_eq!(server.send_message(5, 7, vec![1, 2]), Ok(()));
    assert_eq!(client.borrow().to_client, vec![(7, vec![1, 2])]);
    client.borrow_mut().to_server.push((7, vec![9]));
    assert_eq!(server.receive_message(5, 0), Ok(None));
    assert_eq!(server.receive_message(5, 7), Ok(Some(vec![9])));
}

#[test]
fn unknown_client_is_not_found() {
    let mut server = server(2);
    assert_eq!(server.send_message(1, 0, vec![1]), Err(MessageError::ClientNotFound));
    assert_eq!(server.receive_message(1, 0), Err(MessageError::ClientNotFound));
    assert!(server.network_info(1).is_none());
    server.disconnect(&1);
    assert_eq!(server.get_event(), None);
}

#[test]
fn remote_client_gets_its_payloads_in_order() {
    let mut server = server(4);
    with_remote(&mut server, 1);
    with_remote(&mut server, 2);
    server.transport.end.incoming = vec![
        (1, vec![10]),
        (2, vec![20]),
        (3, vec![30]),
        (1, vec![11]),
    ];
    assert!(server.update().is_ok());
    assert_eq!(server.receive_message(1, 0), Ok(Some(vec![10])));
    assert_eq!(server.receive_message(1, 0), Ok(Some(vec![11])));
    assert_eq!(server.receive_message(1, 0), Ok(None));
    assert_eq!(server.receive_message(2, 0), Ok(Some(vec![20])));
    assert_eq!(
        server.receive_message(2, 3),
        Err(MessageError::InvalidChannel { channel_id: 3 })
    );
    assert_eq!(server.network_info(1), Some(&1));
    assert!(server.transport.end.incoming.is_empty());
}

#[test]
fn denied_client_is_not_heard() {
    let mut server = server(4);
    with_remote(&mut server, 1);
    server.deny_client(&1);
    server.transport.end.incoming = vec![(1, vec![10])];
    assert!(server.update().is_ok());
    assert_eq!(server.receive_message(1, 0), Ok(None));
}

#[test]
fn lost_clients_leave_with_one_event_each() {
    let mut server = server(4);
    with_remote(&mut server, 1);
    with_remote(&mut server, 2);
    let client = server.create_local_client(5);
    assert_eq!(server.get_event(), Some(ServerEvent::ClientConnected(5)));
    server.transport.end.incoming = vec![(1, vec![0])];
    client.borrow_mut().gone = true;
    assert!(server.update().is_ok());
    assert_eq!(server.get_clients_id(), vec![2]);
    assert_eq!(server.get_event(), Some(ServerEvent::ClientDisconnected(1)));
    assert_eq!(server.get_event(), Some(ServerEvent::ClientDisconnected(5)));
    assert_eq!(server.get_event(), None);
    // The transport is not told of connections that are over by themselves.
    assert!(server.transport.end.disconnected.is_empty());
}

#[test]
fn clients_are_let_in_while_there_is_room() {
    let mut server = server(2);
    with_remote(&mut server, 1);
    server.transport.end.connecting = vec![8, 9];
    assert!(server.update().is_ok());
    assert_eq!(server.transport.end.confirmed, vec![8, 9]);
    assert!(server.transport.end.disconnected.is_empty());
}

#[test]
fn full_server_turns_clients_away() {
    let mut server = server(2);
    with_remote(&mut server, 1);
    let _client = server.create_local_client(5);
    server.transport.end.connecting = vec![8, 9];
    assert!(server.update().is_ok());
    assert!(server.transport.end.confirmed.is_empty());
    assert_eq!(
        server.transport.end.disconnected,
        vec![(8, DisconnectionReason::MaxPlayer), (9, DisconnectionReason::MaxPlayer)]
    );
}

#[test]
fn room_is_made_by_clients_that_are_lost() {
    let mut server = server(1);
    with_remote(&mut server, 1);
    server.transport.end.incoming = vec![(1, vec![0])];
    server.transport.end.connecting = vec![8];
    assert!(server.update().is_ok());
    assert_eq!(server.transport.end.confirmed, vec![8]);
}

#[test]
fn disconnect_tells_the_client() {
    let mut server = server(4);
    with_remote(&mut server, 1);
    let client = server.create_local_client(5);
    server.disconnect(&1);
    assert_eq!(
        server.transport.end.disconnected,
        vec![(1, DisconnectionReason::DisconnectedByServer)]
    );
    assert!(!client.borrow().ended);
    server.disconnect(&5);
    assert!(client.borrow().ended);
    assert!(!server.has_clients());
    let events = RenetServerPlugin::emit_server_events_system(&mut server);
    assert_eq!(
        events,
        vec![
            ServerEvent::ClientConnected(5),
            ServerEvent::ClientDisconnected(1),
            ServerEvent::ClientDisconnected(5),
        ]
    );
    assert_eq!(server.get_event(), None);
}

#[test]
fn disconnect_prefers_the_remote_client() {
    let mut server = server(4);
    with_remote(&mut server, 5);
    let client = server.create_local_client(5);
    server.disconnect(&5);
    assert!(!client.borrow().ended);
    assert!(server.is_client_connected(&5));
    server.disconnect(&5);
    assert!(client.borrow().ended);
    assert!(!server.is_client_connected(&5));
}

#[test]
fn disconnect_clients_leaves_nobody() {
    let mut server = server(8);
    with_remote(&mut server, 1);
    with_remote(&mut server, 2);
    let client = server.create_local_client(5);
    let _ = server.get_event();
    server.disconnect_clients();
    assert!(!server.has_clients());
    assert!(client.borrow().ended);
    let told: Vec<u64> = server.transport.end.disconnected.iter().map(|d| d.0).collect();
    assert_eq!(sorted(told), vec![1, 2]);
    let events = RenetServerPlugin::emit_server_events_system(&mut server);
    assert_eq!(events.len(), 3);
    assert_eq!(events[2], ServerEvent::ClientDisconnected(5));
}

#[test]
fn broadcasts_reach_whom_they_should() {
    let mut server = server(8);
    with_remote(&mut server, 1);
    with_remote(&mut server, 2);
    let client = server.create_local_client(5);
    server.broadcast_message(0, vec![1]);
    server.broadcast_message_remote(0, vec![2]);
    server.broadcast_message_local(0, vec![3]);
    // No remote client has this channel, which concerns nobody else.
    server.broadcast_message(7, vec![4]);
    assert_eq!(
        client.borrow().to_client,
        vec![(0, vec![1]), (0, vec![3]), (7, vec![4])]
    );
    server.send_packets();
    let mut sent = server.transport.end.sent.clone();
    sent.sort();
    assert_eq!(
        sent,
        vec![(1, vec![1]), (1, vec![2]), (2, vec![1]), (2, vec![2])]
    );
    assert_eq!(
        server.send_message(1, 9, vec![5]),
        Err(MessageError::InvalidChannel { channel_id: 9 })
    );
}

#[test]
fn packets_that_fail_concern_nobody_else() {
    let mut server = server(8);
    with_remote(&mut server, 1);
    with_remote(&mut server, 2);
    server.broadcast_message(0, vec![1]);
    server.deliver_payload(1, &[0]);
    server.send_packets();
    assert_eq!(server.transport.end.sent, vec![(2, vec![1])]);
    assert!(server.is_client_connected(&1));
}

#[test]
fn connected_clients_are_allowed() {
    let mut server = server(8);
    with_remote(&mut server, 1);
    let _client = server.create_local_client(5);
    server.deny_client(&5);
    server.deny_client(&6);
    assert_eq!(sorted(server.denied_clients()), vec![5, 6]);
    server.allow_connected_clients();
    assert_eq!(sorted(server.allowed_clients()), vec![1, 5]);
    assert_eq!(server.denied_clients(), vec![6]);
    server.set_connection_permission(ConnectionPermission::OnlyAllowed);
    assert_eq!(*server.connection_permission(), ConnectionPermission::OnlyAllowed);
    assert_eq!(sorted(server.allowed_clients()), vec![1, 5]);
    server.allow_client(&6);
    assert!(server.denied_clients().is_empty());
}

#[test]
fn plugin_updates_the_server() {
    let mut server = server(8);
    server.transport.end.connecting = vec![3];
    assert!(RenetServerPlugin::update_system(&mut server).is_ok());
    assert_eq!(server.transport.end.confirmed, vec![3]);
}
