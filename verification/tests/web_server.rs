use std::sync::atomic::{AtomicUsize, Ordering};
use std::sync::Arc;

use bytes::Bytes;
use tokio::runtime::Runtime;
use tokio::sync::mpsc;

use renet2::addr::{client_idx_to_addr, IpAddr, Ipv4Addr, SocketAddr};
use renet2::channels::PutOutcome;
use renet2::client_table::{
    ClientConnectionResult, ClientTable, ConnectionRequest, ConnectionRequestResult, SendStep,
    ServerClient,
};
use renet2::ends::{CountBoard, IndexSource, TaskOutbox, TaskStopper};
use renet2::error::SocketError;
use renet2::request::RequestError;
use renet2::web_server::{
    accepted_client_id, connection_result, forward_packet, is_full, reader_step, ConnectionStep,
    Inbox, Outbox, PacketOutlet, ReaderEvent, ReaderStep, RequestDesk, ServerEnds, PACKET_BACKLOG,
    READER_TIMEOUT_SECS, REQUEST_LIMIT,
};
use renet2::web_socket::{begin_connection, WebSocketServer};
use renet2::web_transport::{begin_session, DatagramOutcome, WebTransportServer};

/// A server, the other ends of its channels, and what its readers need.
struct Rig {
    runtime: Runtime,
    server: WebTransportServer<&'static str>,
    requests: mpsc::Sender<ConnectionRequest>,
    connections: mpsc::Sender<ClientConnectionResult<&'static str>>,
    current_clients: Arc<AtomicUsize>,
    acceptor: tokio::task::JoinHandle<()>,
}

fn listen() -> SocketAddr {
    SocketAddr::new(IpAddr::V4(Ipv4Addr { bits: 0x7f00_0001 }), 4433)
}

fn rig() -> Rig {
    let runtime = Runtime::new().unwrap();
    let (requests, request_receiver) = mpsc::channel(8);
    let (connections, connection_receiver) = mpsc::channel(8);
    let client_iterator = IndexSource::new(1000);
    let board = CountBoard::new();
    let current_clients = board.shared();
    let acceptor = runtime.spawn(std::future::pending::<()>());
    let server = WebTransportServer::new(
        listen(),
        ServerEnds {
            requests: Inbox::task(request_receiver),
            connections: Inbox::task(connection_receiver),
            connection_abort_handle: TaskStopper::new(acceptor.abort_handle()),
            client_iterator: client_iterator.gauge(),
            current_clients: board,
        },
    );
    Rig { runtime, server, requests, connections, current_clients, acceptor }
}

struct Reader {
    packets: crossbeam::channel::Sender<Bytes>,
    aborts: mpsc::UnboundedReceiver<()>,
    stop: Option<tokio::sync::oneshot::Sender<()>>,
}

impl Rig {
    fn request(&self, client_idx: u64, packet: &[u8]) -> mpsc::Receiver<ConnectionRequestResult> {
        let (result_sender, results) = mpsc::channel(1);
        let result_sender = TaskOutbox::new(result_sender);
        let request = ConnectionRequest { client_idx, packet: packet.to_vec(), result_sender };
        assert!(self.requests.try_send(request).is_ok());
        results
    }

    fn client(&self, session: &'static str, client_id: u64) -> (ServerClient<&'static str>, Reader) {
        let (packets, receiver) = crossbeam::channel::bounded(PACKET_BACKLOG);
        let (abort_sender, aborts) = mpsc::unbounded_channel();
        let (stop, stopped) = tokio::sync::oneshot::channel::<()>();
        let thread = self.runtime.spawn(async move {
            let _ = stopped.await;
        });
        let client = ServerClient::new(session, receiver, abort_sender, thread, client_id);
        (client, Reader { packets, aborts, stop: Some(stop) })
    }

    /// Takes a client all the way to an active one.
    fn connect(&mut self, client_idx: u64, client_id: u64, session: &'static str) -> Reader {
        let mut results = self.request(client_idx, &[1]);
        let mut buffer = [0u8; 16];
        let addr = client_idx_to_addr(client_idx);
        assert_eq!(self.server.try_recv(&mut buffer), Ok((1, addr)));
        self.server.connection_accepted(client_id, addr);
        assert_eq!(
            results.try_recv().ok(),
            Some(ConnectionRequestResult::Success { client_id })
        );
        let connection = connection_result(client_idx, client_id, Some(session));
        assert!(self.connections.try_send(connection).is_ok());
        match self.server.preupdate() {
            ConnectionStep::Open { client_idx: idx, client_id: id, session: s, buffered } => {
                assert_eq!((idx, id, s), (client_idx, client_id, session));
                assert!(buffered.is_none());
            }
            _ => panic!("no session"),
        }
        let (client, reader) = self.client(session, client_id);
        self.server.open_client(client_idx, client);
        assert!(matches!(self.server.preupdate(), ConnectionStep::Drained));
        reader
    }

    fn count(&self) -> usize {
        self.current_clients.load(Ordering::Relaxed)
    }
}

#[test]
fn settings_of_a_server() {
    let mut rig = rig();
    assert!(rig.server.is_encrypted());
    assert!(!rig.server.is_reliable());
    assert_eq!(rig.server.addr(), listen());
    assert!(!rig.server.is_closed());
    rig.server.close();
    assert!(rig.server.is_closed());
    let stopped = rig.runtime.block_on(async { (&mut rig.acceptor).await });
    assert!(stopped.unwrap_err().is_cancelled());
    assert_eq!(PACKET_BACKLOG, 256);
    assert_eq!(READER_TIMEOUT_SECS, 5);
    assert_eq!(REQUEST_LIMIT, u64::MAX);
}

#[test]
fn request_reaches_the_layer_above() {
    let mut rig = rig();
    let _results = rig.request(258, &[5, 6]);
    let mut buffer = [9u8; 4];
    assert_eq!(rig.server.try_recv(&mut buffer), Ok((2, client_idx_to_addr(258))));
    assert_eq!(buffer, [5, 6, 9, 9]);
    assert_eq!(rig.count(), 1);
    assert_eq!(rig.server.try_recv(&mut buffer), Err(SocketError::WouldBlock));
}

#[test]
fn request_that_does_not_fit_is_turned_down() {
    let mut rig = rig();
    let mut large = rig.request(0, &[1; 5]);
    let _small = rig.request(1, &[2; 4]);
    let mut buffer = [0u8; 4];
    assert_eq!(rig.server.try_recv(&mut buffer), Ok((4, client_idx_to_addr(1))));
    assert_eq!(large.try_recv().ok(), Some(ConnectionRequestResult::Failure));
    assert_eq!(rig.count(), 1);
    let departed = rig.server.postupdate();
    assert_eq!(departed.refused.len(), 1);
    assert!(departed.pending.is_empty());
    assert_eq!(rig.server.postupdate().refused.len(), 0);
}

#[test]
fn denied_request_is_answered() {
    let mut rig = rig();
    let mut results = rig.request(0, &[1]);
    let mut buffer = [0u8; 4];
    assert!(rig.server.try_recv(&mut buffer).is_ok());
    rig.server.connection_denied(client_idx_to_addr(0));
    assert!(results.try_recv().is_err());
    assert_eq!(rig.count(), 1);
    let departed = rig.server.postupdate();
    assert!(departed.pending.contains_key(&0));
    assert!(departed.clients.is_empty());
    assert_eq!(results.try_recv().ok(), Some(ConnectionRequestResult::Failure));
    assert_eq!(rig.count(), 0);
}

#[test]
fn packets_of_active_clients_come_in_order() {
    let mut rig = rig();
    let a = rig.connect(0, 100, "a");
    let b = rig.connect(1, 101, "b");
    let mut a = PacketOutlet::new(a.packets.clone());
    let mut b = PacketOutlet::new(b.packets.clone());
    assert_eq!(rig.count(), 2);
    assert_eq!(rig.server.session(0), Some(&"a"));
    assert_eq!(rig.server.session(2), None);
    assert_eq!(forward_packet(&mut b, Bytes::from_static(&[20])), ReaderStep::Restart);
    assert_eq!(forward_packet(&mut a, Bytes::from_static(&[10, 11])), ReaderStep::Restart);
    let mut buffer = [0u8; 4];
    assert_eq!(rig.server.try_recv(&mut buffer), Ok((2, client_idx_to_addr(0))));
    assert_eq!(buffer, [10, 11, 0, 0]);
    assert_eq!(rig.server.try_recv(&mut buffer), Ok((1, client_idx_to_addr(1))));
    assert_eq!(buffer, [20, 11, 0, 0]);
    assert_eq!(rig.server.try_recv(&mut buffer), Err(SocketError::WouldBlock));
    // Both have been drained, so neither is asked again before the next round.
    assert_eq!(forward_packet(&mut a, Bytes::from_static(&[12])), ReaderStep::Restart);
    assert_eq!(rig.server.try_recv(&mut buffer), Err(SocketError::WouldBlock));
    assert!(matches!(rig.server.preupdate(), ConnectionStep::Drained));
    assert_eq!(rig.server.try_recv(&mut buffer), Ok((1, client_idx_to_addr(0))));
}

#[test]
fn client_with_a_packet_that_does_not_fit_is_lost() {
    let mut rig = rig();
    let mut a = rig.connect(0, 100, "a");
    let b = rig.connect(1, 101, "b");
    assert!(a.packets.send(Bytes::from_static(&[1; 5])).is_ok());
    assert!(b.packets.send(Bytes::from_static(&[2])).is_ok());
    let mut buffer = [0u8; 4];
    assert_eq!(rig.server.try_recv(&mut buffer), Ok((1, client_idx_to_addr(1))));
    assert!(a.aborts.try_recv().is_err());
    rig.server.postupdate();
    assert!(a.aborts.try_recv().is_ok());
    assert_eq!(rig.server.session(0), None);
    assert_eq!(rig.server.session(1), Some(&"b"));
    assert_eq!(rig.count(), 1);
}

#[test]
fn client_whose_reader_is_over_is_removed() {
    let mut rig = rig();
    let mut a = rig.connect(0, 100, "a");
    let _ = a.stop.take().unwrap().send(());
    for _ in 0..200 {
        rig.server.postupdate();
        if rig.server.session(0).is_none() {
            break;
        }
        let pause = std::time::Duration::from_millis(10);
        rig.runtime.block_on(async { tokio::time::sleep(pause).await });
    }
    assert_eq!(rig.server.session(0), None);
    assert_eq!(rig.count(), 0);
}

#[test]
fn client_id_is_usurped() {
    let mut rig = rig();
    let mut old = rig.connect(0, 100, "old");
    let _new = rig.connect(1, 100, "new");
    assert_eq!(rig.count(), 2);
    rig.server.postupdate();
    assert!(old.aborts.try_recv().is_ok());
    assert_eq!(rig.server.session(0), None);
    assert_eq!(rig.server.session(1), Some(&"new"));
    assert_eq!(rig.count(), 1);
    // The newcomer keeps the client id: removing the old client did not free it.
    rig.server.disconnect(client_idx_to_addr(0));
    rig.server.postupdate();
    assert_eq!(rig.count(), 1);
}

#[test]
fn usurped_pending_client_stops_the_sessions() {
    let mut rig = rig();
    let _first = rig.request(0, &[1]);
    let _second = rig.request(1, &[1]);
    let mut buffer = [0u8; 4];
    assert!(rig.server.try_recv(&mut buffer).is_ok());
    assert!(rig.server.try_recv(&mut buffer).is_ok());
    rig.server.connection_accepted(7, client_idx_to_addr(0));
    rig.server.connection_accepted(7, client_idx_to_addr(1));
    assert_eq!(rig.count(), 2);
    for client_idx in [0, 1] {
        assert!(rig.connections.try_send(connection_result(client_idx, 7, Some("s"))).is_ok());
    }
    assert!(matches!(rig.server.preupdate(), ConnectionStep::Stop));
    assert_eq!(rig.count(), 1);
    assert!(matches!(rig.server.preupdate(), ConnectionStep::Open { client_idx: 1, .. }));
}

#[test]
fn session_without_pending_client_is_skipped() {
    let mut rig = rig();
    assert!(rig.connections.try_send(connection_result(0, 7, Some("s"))).is_ok());
    assert!(matches!(rig.server.preupdate(), ConnectionStep::Skip));
    assert!(matches!(rig.server.preupdate(), ConnectionStep::Drained));
}

#[test]
fn failed_session_loses_the_pending_client() {
    let mut rig = rig();
    let _results = rig.request(0, &[1]);
    let mut buffer = [0u8; 4];
    assert!(rig.server.try_recv(&mut buffer).is_ok());
    rig.server.connection_accepted(7, client_idx_to_addr(0));
    assert!(rig.connections.try_send(connection_result(0, 7, None)).is_ok());
    assert!(matches!(rig.server.preupdate(), ConnectionStep::Skip));
    assert_eq!(rig.count(), 1);
    rig.server.postupdate();
    assert_eq!(rig.count(), 0);
}

#[test]
fn acceptance_of_a_client_that_is_not_pending_is_ignored() {
    let mut rig = rig();
    let _a = rig.connect(0, 100, "a");
    rig.server.connection_accepted(100, client_idx_to_addr(5));
    rig.server.postupdate();
    assert_eq!(rig.server.session(0), Some(&"a"));
}

#[test]
fn first_packet_for_a_pending_client_is_kept() {
    let mut rig = rig();
    let _results = rig.request(0, &[1]);
    let mut buffer = [0u8; 4];
    let addr = client_idx_to_addr(0);
    assert!(rig.server.try_recv(&mut buffer).is_ok());
    rig.server.connection_accepted(7, addr);
    assert!(matches!(rig.server.send(addr, &[1, 2]), Ok(SendStep::Done)));
    assert!(matches!(rig.server.send(addr, &[3]), Ok(SendStep::Done)));
    assert!(rig.connections.try_send(connection_result(0, 7, Some("s"))).is_ok());
    match rig.server.preupdate() {
        ConnectionStep::Open { buffered, .. } => {
            assert_eq!(buffered, Some(Bytes::from_static(&[1, 2])));
        }
        _ => panic!("no session"),
    }
}

#[test]
fn packets_are_transmitted_to_active_clients_only() {
    let mut rig = rig();
    let _a = rig.connect(0, 100, "a");
    let addr = client_idx_to_addr(0);
    match rig.server.send(addr, &[4, 5]) {
        Ok(SendStep::Transmit { data }) => assert_eq!(data, Bytes::from_static(&[4, 5])),
        _ => panic!("not transmitted"),
    }
    assert!(matches!(
        rig.server.send(client_idx_to_addr(1), &[4]),
        Err(SocketError::ConnectionAborted)
    ));
}

#[test]
fn datagram_outcomes() {
    let mut rig = rig();
    let mut a = rig.connect(0, 100, "a");
    let addr = client_idx_to_addr(0);
    assert_eq!(rig.server.datagram_sent(addr, DatagramOutcome::Sent), Ok(()));
    assert_eq!(rig.server.datagram_sent(addr, DatagramOutcome::TooLarge), Ok(()));
    assert_eq!(rig.server.datagram_sent(addr, DatagramOutcome::UnsupportedByPeer), Ok(()));
    rig.server.postupdate();
    assert!(a.aborts.try_recv().is_err());
    assert_eq!(
        rig.server.datagram_sent(addr, DatagramOutcome::NotConnected),
        Err(SocketError::ConnectionAborted)
    );
    rig.server.postupdate();
    assert!(a.aborts.try_recv().is_ok());
    assert_eq!(rig.count(), 0);
}

#[test]
fn capacity_allows_a_quarter_more() {
    assert!(is_full(0, 0));
    assert!(!is_full(1, 1));
    assert!(is_full(2, 1));
    assert!(!is_full(4, 4));
    assert!(is_full(5, 4));
    assert!(!is_full(12, 10));
    assert!(is_full(13, 10));
    assert!(is_full(usize::MAX, 1));
    assert!(!is_full(usize::MAX, usize::MAX));
}

#[test]
fn answers_to_requests() {
    assert_eq!(accepted_client_id(Some(ConnectionRequestResult::Success { client_id: 3 })), Some(3));
    assert_eq!(accepted_client_id(Some(ConnectionRequestResult::Failure)), None);
    assert_eq!(accepted_client_id(None), None);
}

#[test]
fn reader_decisions() {
    let packet = |outcome| ReaderEvent::Packet { outcome };
    assert_eq!(reader_step(packet(PutOutcome::Taken)), ReaderStep::Restart);
    assert_eq!(reader_step(packet(PutOutcome::Full)), ReaderStep::Restart);
    assert_eq!(reader_step(packet(PutOutcome::Gone)), ReaderStep::Stop);
    assert_eq!(reader_step(ReaderEvent::Aborted), ReaderStep::Stop);
    assert_eq!(reader_step(ReaderEvent::Failed), ReaderStep::Stop);
    assert_eq!(reader_step(ReaderEvent::TimedOut), ReaderStep::Stop);
    assert_eq!(reader_step(ReaderEvent::Ignored), ReaderStep::GoOn);
}

#[test]
fn forwarding_stops_when_nobody_is_left() {
    let (sender, receiver) = crossbeam::channel::bounded(1);
    let mut outlet = PacketOutlet::new(sender);
    assert_eq!(forward_packet(&mut outlet, Bytes::from_static(&[1])), ReaderStep::Restart);
    assert_eq!(forward_packet(&mut outlet, Bytes::from_static(&[2])), ReaderStep::Restart);
    assert_eq!(receiver.try_recv().unwrap(), Bytes::from_static(&[1]));
    assert!(receiver.try_recv().is_err());
    drop(receiver);
    assert_eq!(forward_packet(&mut outlet, Bytes::from_static(&[3])), ReaderStep::Stop);
}

#[test]
fn desk_hands_requests_over() {
    let (sender, mut receiver) = mpsc::channel(1);
    let mut desk = RequestDesk::new(Outbox::task(sender), IndexSource::new(5));
    let (client_idx, mut results) = begin_session(&mut desk, "/?creq=%01%02").unwrap().unwrap();
    assert_eq!(client_idx, 5);
    // There is room for one.
    assert!(begin_session(&mut desk, "/?creq=%03").unwrap().is_none());
    let request = receiver.try_recv().unwrap();
    assert_eq!(request.client_idx, 5);
    assert_eq!(request.packet, vec![1, 2]);
    let mut rig = rig();
    assert!(rig.requests.try_send(request).is_ok());
    let mut buffer = [0u8; 4];
    assert_eq!(rig.server.try_recv(&mut buffer), Ok((2, client_idx_to_addr(5))));
    rig.server.connection_accepted(9, client_idx_to_addr(5));
    assert_eq!(results.try_recv().ok(), Some(ConnectionRequestResult::Success { client_id: 9 }));
    assert_eq!(begin_session(&mut desk, "/").err(), Some(RequestError::MissingQuery));
    assert!(receiver.try_recv().is_err());
    // A request that found no room has used up an index, one that is missing has not.
    let (client_idx, _results) = begin_session(&mut desk, "/?creq=%01").unwrap().unwrap();
    assert_eq!(client_idx, 7);
}

#[test]
fn indices_go_around() {
    let (sender, _receiver) = mpsc::channel(4);
    let mut desk = RequestDesk::new(Outbox::task(sender), IndexSource::new(u64::MAX));
    let (first, _results) = desk.begin_connection(vec![1]).unwrap();
    let (second, _results) = desk.begin_connection(vec![1]).unwrap();
    assert_eq!((first, second), (u64::MAX, 0));
}

#[test]
fn only_clients_with_an_index_that_was_given_out_are_asked() {
    let mut rig = rig();
    let a = rig.connect(999, 100, "a");
    let b = rig.connect(1000, 101, "b");
    assert!(b.packets.send(Bytes::from_static(&[2])).is_ok());
    let mut buffer = [0u8; 4];
    assert_eq!(rig.server.try_recv(&mut buffer), Err(SocketError::WouldBlock));
    assert!(matches!(rig.server.preupdate(), ConnectionStep::Drained));
    assert!(a.packets.send(Bytes::from_static(&[1])).is_ok());
    assert_eq!(rig.server.try_recv(&mut buffer), Ok((1, client_idx_to_addr(999))));
}

#[test]
fn packets_that_a_client_gave_are_taken_in() {
    let mut table: ClientTable<u32> = ClientTable::new();
    let mut buffer = [9u8; 3];
    let packet = Some(Bytes::from_static(&[1, 2]));
    assert_eq!(table.take_packet(4, packet, &mut buffer), Some((2, client_idx_to_addr(4))));
    assert_eq!(buffer, [1, 2, 9]);
    let packet = Some(Bytes::from_static(&[1, 2, 3, 4]));
    assert_eq!(table.take_packet(4, packet, &mut buffer), None);
    assert_eq!(table.take_packet(4, None, &mut buffer), None);
    assert_eq!(buffer, [1, 2, 9]);
}

#[test]
fn socket_desk_hands_requests_over() {
    let (sender, receiver) = crossbeam::channel::bounded(1);
    let mut desk = RequestDesk::new(Outbox::thread(sender), IndexSource::new(0));
    let (client_idx, _results) = begin_connection(&mut desk, "/?creq=%5B4%5D").unwrap().unwrap();
    assert_eq!(client_idx, 0);
    assert!(begin_connection(&mut desk, "/?creq=%5B4%5D").unwrap().is_none());
    assert_eq!(receiver.try_recv().unwrap().packet, vec![4]);
    assert_eq!(begin_connection(&mut desk, "/?creq=x").err(), Some(RequestError::MalformedRequest));
}

#[test]
fn socket_server_works_like_the_other() {
    let runtime = Runtime::new().unwrap();
    let (requests, request_receiver) = crossbeam::channel::bounded(4);
    let (connections, connection_receiver) = crossbeam::channel::bounded(4);
    let acceptor = runtime.spawn(std::future::pending::<()>());
    let board = CountBoard::new();
    let current_clients = board.shared();
    let mut server: WebSocketServer<u32> = WebSocketServer::new(
        listen(),
        ServerEnds {
            requests: Inbox::thread(request_receiver),
            connections: Inbox::thread(connection_receiver),
            connection_abort_handle: TaskStopper::new(acceptor.abort_handle()),
            client_iterator: IndexSource::new(1).gauge(),
            current_clients: board,
        },
    );
    assert!(server.is_encrypted());
    assert_eq!(server.addr(), listen());
    let (result_sender, mut results) = mpsc::channel(1);
    let result_sender = TaskOutbox::new(result_sender);
    let request = ConnectionRequest { client_idx: 0, packet: vec![1, 2], result_sender };
    assert!(requests.try_send(request).is_ok());
    let mut buffer = [0u8; 4];
    let addr = client_idx_to_addr(0);
    assert_eq!(server.try_recv(&mut buffer), Ok((2, addr)));
    server.connection_accepted(9, addr);
    assert_eq!(results.try_recv().ok(), Some(ConnectionRequestResult::Success { client_id: 9 }));
    assert!(connections.try_send(connection_result(0, 9, Some(77))).is_ok());
    assert!(matches!(server.preupdate(), ConnectionStep::Open { session: 77, .. }));
    let (packets, receiver) = crossbeam::channel::bounded(4);
    let (abort_sender, mut aborts) = mpsc::unbounded_channel();
    let thread = runtime.spawn(std::future::pending::<()>());
    server.open_client(0, ServerClient::new(77, receiver, abort_sender, thread, 9));
    assert_eq!(server.session(0), Some(&77));
    assert!(packets.send(Bytes::from_static(&[3])).is_ok());
    assert_eq!(server.try_recv(&mut buffer), Ok((1, addr)));
    assert_eq!(buffer, [3, 2, 0, 0]);
    assert!(matches!(server.send(addr, &[1]), Ok(SendStep::Transmit { .. })));
    assert_eq!(server.message_sent(true), Ok(()));
    assert_eq!(server.message_sent(false), Err(SocketError::ConnectionAborted));
    server.connection_denied(client_idx_to_addr(8));
    server.disconnect(addr);
    assert_eq!(current_clients.load(Ordering::Relaxed), 1);
    server.postupdate();
    assert!(aborts.try_recv().is_ok());
    assert_eq!(current_clients.load(Ordering::Relaxed), 0);
    // A request that does not fit is dropped, and its end of the answers closes.
    let (result_sender, mut results) = mpsc::channel(1);
    let result_sender = TaskOutbox::new(result_sender);
    let request = ConnectionRequest { client_idx: 1, packet: vec![1; 5], result_sender };
    assert!(requests.try_send(request).is_ok());
    assert_eq!(server.try_recv(&mut buffer), Err(SocketError::WouldBlock));
    assert_eq!(results.try_recv(), Err(mpsc::error::TryRecvError::Disconnected));
    assert_eq!(current_clients.load(Ordering::Relaxed), 0);
    server.close();
    assert!(server.is_closed());
}
