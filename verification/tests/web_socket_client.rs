use std::sync::atomic::{AtomicBool, Ordering};
use std::sync::Arc;

use async_channel::{Receiver, Sender};

use renet2::addr::{IpAddr, Ipv4Addr, Ipv6Addr, SocketAddr};
use renet2::ends::{AsyncInbox, AsyncOutbox, SharedFlag};
use renet2::error::SocketError;
use renet2::web_socket_client::{
    address_of_parts, connect_url, take_packet, task_step, tls_of_scheme, ClientEnds, PacketKind,
    TaskEvent, TaskStep, WebSocketClient, WebSocketClientConfig, WebSocketClientError,
};
use renet2::web_url::{Host, Url};

/// The other ends of the channels of a client.
struct Task {
    requests: Receiver<Vec<u8>>,
    incoming: Sender<Vec<u8>>,
    outgoing: Receiver<Vec<u8>>,
    closed: Arc<AtomicBool>,
}

fn ends() -> (ClientEnds, Task) {
    let (connect_req_sender, requests) = async_channel::bounded(1);
    let (incoming, incoming_receiver) = async_channel::unbounded();
    let (outgoing_sender, outgoing) = async_channel::unbounded();
    let closed = Arc::new(AtomicBool::new(false));
    let ends = ClientEnds {
        connect_req_sender: AsyncOutbox::new(connect_req_sender),
        incoming_receiver: AsyncInbox::new(incoming_receiver),
        outgoing_sender: AsyncOutbox::new(outgoing_sender),
        closed: SharedFlag::new(closed.clone()),
    };
    (ends, Task { requests, incoming, outgoing, closed })
}

fn config(url: &str) -> WebSocketClientConfig {
    WebSocketClientConfig { server_url: Url::parse(url).unwrap() }
}

fn client() -> (WebSocketClient, Task) {
    let (ends, task) = ends();
    let client = WebSocketClient::new(config("ws://127.0.0.1:5000"), ends).ok().unwrap();
    (client, task)
}

fn server_addr() -> SocketAddr {
    SocketAddr::new(IpAddr::V4(Ipv4Addr { bits: 0x7f00_0001 }), 5000)
}

#[test]
fn server_address_comes_from_the_url() {
    let address = |url| config(url).server_address();
    assert_eq!(address("ws://127.0.0.1:5000").ok(), Some(server_addr()));
    assert_eq!(
        address("wss://[::1]:7").ok(),
        Some(SocketAddr::new(IpAddr::V6(Ipv6Addr { bits: 1 }), 7))
    );
    // The usual port of the scheme counts as none.
    assert_eq!(
        address("ws://127.0.0.1:80").ok(),
        Some(SocketAddr::new(IpAddr::V4(Ipv4Addr { bits: 0x7f00_0001 }), 0))
    );
    assert!(matches!(address("ws://a.example:5000"), Err(WebSocketClientError::DomainHost)));
    assert!(matches!(address("mailto:x"), Err(WebSocketClientError::MissingHost)));
}

#[test]
fn address_is_made_of_host_and_port() {
    let host = Some(Host::Ipv4(Ipv4Addr { bits: 3 }));
    assert_eq!(
        address_of_parts(host, None).ok(),
        Some(SocketAddr::new(IpAddr::V4(Ipv4Addr { bits: 3 }), 0))
    );
    assert!(matches!(address_of_parts(None, Some(1)), Err(WebSocketClientError::MissingHost)));
    assert!(matches!(
        address_of_parts(Some(Host::Domain("x".to_owned())), Some(1)),
        Err(WebSocketClientError::DomainHost)
    ));
}

#[test]
fn scheme_decides_encryption() {
    assert_eq!(tls_of_scheme(&Some("wss".to_owned())), Some(true));
    assert_eq!(tls_of_scheme(&Some("ws".to_owned())), Some(false));
    assert_eq!(tls_of_scheme(&Some("https".to_owned())), None);
    assert_eq!(tls_of_scheme(&None), None);
}

#[test]
fn client_needs_a_socket_url() {
    let text = |url| {
        let (ends, _task) = ends();
        WebSocketClient::new(config(url), ends).err().map(|error| error.text())
    };
    assert_eq!(
        text("https://127.0.0.1:4433/").unwrap(),
        "failed setting up websocket client, server url has 'https' scheme instead of 'ws' or 'wss'"
    );
    assert_eq!(
        text("https://a.example").unwrap(),
        "WebSocketClientConfig url is a domain but a SocketAddr was expected"
    );
    assert_eq!(text("mailto:x").unwrap(), "WebSocketClientConfig url does not have a host");
    assert_eq!(text("ws://127.0.0.1:4433/"), None);
    let (ends, _task) = ends();
    let client = WebSocketClient::new(config("wss://127.0.0.1:5000"), ends).ok().unwrap();
    assert!(client.is_encrypted());
}

#[test]
fn packets_that_the_task_gave_are_taken_in() {
    let mut buffer = [9u8; 3];
    assert_eq!(take_packet(server_addr(), None, &mut buffer), Err(SocketError::WouldBlock));
    assert_eq!(
        take_packet(server_addr(), Some(vec![1; 4]), &mut buffer),
        Err(SocketError::InvalidData)
    );
    assert_eq!(buffer, [9, 9, 9]);
    assert_eq!(
        take_packet(server_addr(), Some(vec![1, 2]), &mut buffer),
        Ok((2, server_addr()))
    );
    assert_eq!(buffer, [1, 2, 9]);
}

#[test]
fn settings_of_a_client() {
    let (mut client, _task) = client();
    assert!(!client.is_encrypted());
    assert!(client.is_reliable());
    assert_eq!(client.addr(), Err(SocketError::AddrNotAvailable));
    assert_eq!(client.server_address(), server_addr());
    assert_eq!(client.server_url().as_str(), "ws://127.0.0.1:5000/");
    assert!(!client.is_disconnected());
    assert!(!client.is_disconnected_if(false));
    assert!(client.is_disconnected_if(true));
    assert!(!client.is_closed());
}

#[test]
fn first_packet_must_be_a_request() {
    let (mut client, task) = client();
    let other = Some(PacketKind::Other);
    let request = Some(PacketKind::ConnectionRequest);
    assert_eq!(client.send(server_addr(), &[1], other), Ok(()));
    assert_eq!(client.send(server_addr(), &[2], None), Err(SocketError::UnknownPacket));
    assert!(task.requests.try_recv().is_err());
    assert_eq!(client.send(server_addr(), &[3, 4], request), Ok(()));
    assert_eq!(task.requests.try_recv().unwrap(), vec![3, 4]);
    assert!(task.outgoing.try_recv().is_err());
    // From now on everything goes out as it is.
    assert_eq!(client.send(server_addr(), &[5], request), Ok(()));
    assert_eq!(client.send(server_addr(), &[6], None), Ok(()));
    assert_eq!(task.outgoing.try_recv().unwrap(), vec![5]);
    assert_eq!(task.outgoing.try_recv().unwrap(), vec![6]);
    assert!(task.requests.try_recv().is_err());
}

#[test]
fn packet_for_somebody_else_ends_the_connection() {
    let (mut client, task) = client();
    let other = SocketAddr::new(IpAddr::V4(Ipv4Addr { bits: 0x7f00_0001 }), 5001);
    assert_eq!(
        client.send(other, &[1], Some(PacketKind::ConnectionRequest)),
        Err(SocketError::AddrNotAvailable)
    );
    assert!(client.is_disconnected());
    assert!(client.is_disconnected_if(false));
    assert!(task.closed.load(Ordering::Relaxed));
    assert_eq!(
        client.send(server_addr(), &[1], Some(PacketKind::ConnectionRequest)),
        Err(SocketError::ConnectionAborted)
    );
    assert!(task.requests.try_recv().is_err());
}

#[test]
fn packets_of_the_server_are_received() {
    let (mut client, task) = client();
    let mut buffer = [9u8; 4];
    assert_eq!(client.try_recv(&mut buffer), Err(SocketError::WouldBlock));
    assert!(task.incoming.try_send(vec![1, 2]).is_ok());
    assert!(task.incoming.try_send(vec![3; 5]).is_ok());
    assert_eq!(client.try_recv(&mut buffer), Ok((2, server_addr())));
    assert_eq!(buffer, [1, 2, 9, 9]);
    assert_eq!(client.try_recv(&mut buffer), Err(SocketError::InvalidData));
    assert_eq!(buffer, [1, 2, 9, 9]);
    assert_eq!(client.try_recv(&mut buffer), Err(SocketError::WouldBlock));
}

#[test]
fn closed_connection_is_noticed() {
    let (mut client, task) = client();
    assert!(task.incoming.try_send(vec![1]).is_ok());
    task.closed.store(true, Ordering::Relaxed);
    let mut buffer = [0u8; 4];
    assert_eq!(client.try_recv(&mut buffer), Err(SocketError::ConnectionAborted));
    assert!(client.is_closed());
    client.preupdate();
    client.postupdate();
    // The client has disconnected for good.
    task.closed.store(false, Ordering::Relaxed);
    assert!(client.is_disconnected());
    client.preupdate();
    assert!(!task.closed.load(Ordering::Relaxed));
}

#[test]
fn open_connection_stays_open() {
    let (mut client, task) = client();
    client.preupdate();
    assert!(!client.is_disconnected());
    assert!(!task.closed.load(Ordering::Relaxed));
}

#[test]
fn lost_task_ends_the_connection() {
    let (mut client, task) = client();
    let request = Some(PacketKind::ConnectionRequest);
    assert_eq!(client.send(server_addr(), &[1], request), Ok(()));
    drop(task);
    assert_eq!(client.send(server_addr(), &[2], None), Err(SocketError::ConnectionAborted));
    assert!(client.is_disconnected());
}

#[test]
fn closing_disconnects() {
    let (mut client, task) = client();
    client.close();
    assert!(client.is_disconnected());
    assert!(task.closed.load(Ordering::Relaxed));
}

#[test]
fn url_carries_the_request() {
    let url = Url::parse("ws://127.0.0.1:5000/x?old=1").unwrap();
    let url = connect_url(&url, &[0, 65, 47]).unwrap();
    assert_eq!(url.as_str(), "ws://127.0.0.1:5000/x?creq=%00A%2F");
}

#[test]
fn task_decisions() {
    let step = |mark_closed, want_close, close_socket, stop| TaskStep {
        mark_closed,
        want_close,
        close_socket,
        stop,
    };
    let go_on = step(false, false, false, false);
    assert_eq!(task_step(TaskEvent::Opened), go_on);
    assert_eq!(task_step(TaskEvent::Incoming { taken: true }), go_on);
    assert_eq!(task_step(TaskEvent::Outgoing { open: true, sent: true }), go_on);
    assert_eq!(task_step(TaskEvent::NoRequest), step(true, false, false, true));
    assert_eq!(task_step(TaskEvent::BadAddress), step(true, false, false, true));
    assert_eq!(task_step(TaskEvent::NotOpened), step(true, true, false, true));
    assert_eq!(task_step(TaskEvent::Incoming { taken: false }), step(true, true, false, false));
    assert_eq!(task_step(TaskEvent::Failed), step(true, true, false, false));
    assert_eq!(task_step(TaskEvent::ClosedByServer), step(true, true, false, false));
    assert_eq!(task_step(TaskEvent::OutgoingOver), step(true, true, false, true));
    let out = |open, sent| TaskEvent::Outgoing { open, sent };
    assert_eq!(task_step(out(false, false)), step(true, true, false, true));
    assert_eq!(task_step(out(true, false)), step(true, true, true, true));
    assert_eq!(task_step(TaskEvent::CloseWanted), step(true, false, true, true));
}
