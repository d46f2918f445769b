use renet2::addr::{IpAddr, Ipv6Addr, SocketAddr};
use renet2::error::SocketError;
use renet2::memory_socket::{
    in_memory_client_addr, in_memory_server_addr, new_memory_sockets, InMemoryPacket,
    MemorySocketChannels, MemorySocketServer, IN_MEMORY_SERVER_ID, NETCODE_MAX_PACKET_BYTES,
};

fn buffer() -> Vec<u8> {
    vec![0; NETCODE_MAX_PACKET_BYTES]
}

#[test]
fn addresses_hold_the_identifier_as_port() {
    let unspecified = IpAddr::V6(Ipv6Addr { bits: 0 });
    assert_eq!(in_memory_client_addr(7), SocketAddr::new(unspecified, 7));
    assert_eq!(in_memory_server_addr(), SocketAddr::new(unspecified, 65535));
    assert_eq!(in_memory_server_addr().port(), IN_MEMORY_SERVER_ID);
    assert_ne!(in_memory_client_addr(7), in_memory_client_addr(8));
}

#[test]
fn channel_pair_is_connected_both_ways() {
    let (mut a, mut b) = MemorySocketChannels::channel_pair();
    assert!(a.send(InMemoryPacket::new(&[1, 2])).is_ok());
    assert!(a.send(InMemoryPacket::new(&[3])).is_ok());
    assert!(b.send(InMemoryPacket::new(&[4])).is_ok());
    assert!(a.try_recv().is_some());
    assert!(a.try_recv().is_none());
    let mut buf = buffer();
    assert_eq!(b.try_recv().map(|p| p.copy_to(&mut buf)), Some(2));
    assert_eq!(buf[..2], [1, 2]);
    assert_eq!(b.try_recv().map(|p| p.copy_to(&mut buf)), Some(1));
    assert_eq!(buf[..2], [3, 2]);
    assert!(b.try_recv().is_none());
}

#[test]
fn packets_wait_in_order() {
    let (mut a, mut b) = MemorySocketChannels::channel_pair();
    for i in 0..200u8 {
        assert!(a.send(InMemoryPacket::new(&[i])).is_ok());
    }
    let mut buf = buffer();
    for i in 0..200u8 {
        assert_eq!(b.try_recv().map(|p| p.copy_to(&mut buf)), Some(1));
        assert_eq!(buf[0], i);
    }
    assert!(b.try_recv().is_none());
    assert!(a.try_recv().is_none());
}

#[test]
fn round_is_over_until_the_next_one() {
    let (mut server, mut clients) = new_memory_sockets(vec![1, 2], true);
    let mut buf = buffer();
    assert_eq!(server.try_recv(&mut buf), Err(SocketError::WouldBlock));
    for client in clients.iter_mut() {
        assert!(client.channels.send(InMemoryPacket::new(&[client.client_id as u8])).is_ok());
    }
    assert_eq!(server.send(in_memory_client_addr(1), &[9]), Ok(()));
    assert_eq!(server.try_recv(&mut buf), Err(SocketError::WouldBlock));
    server.preupdate();
    assert_eq!(server.try_recv(&mut buf), Ok((1, in_memory_client_addr(1))));
    assert_eq!(server.try_recv(&mut buf), Ok((1, in_memory_client_addr(2))));
    assert_eq!(server.try_recv(&mut buf), Err(SocketError::WouldBlock));
}

#[test]
fn clone_shares_the_ends() {
    let (a, mut b) = MemorySocketChannels::channel_pair();
    let mut c = a.clone();
    assert!(c.send(InMemoryPacket::new(&[1])).is_ok());
    assert!(b.try_recv().is_some());
    assert!(b.send(InMemoryPacket::new(&[2])).is_ok());
    assert!(c.try_recv().is_some());
}

#[test]
fn sending_fails_without_partner() {
    let (mut a, b) = MemorySocketChannels::channel_pair();
    drop(b);
    assert_eq!(a.send(InMemoryPacket::new(&[1])), Err(SocketError::ConnectionAborted));
}

#[test]
fn default_packet_is_empty() {
    assert_eq!(InMemoryPacket::default().len(), 0);
    assert_eq!(InMemoryPacket::new(&[5; 1400]).len(), 1400);
}

#[test]
fn sockets_are_made_sorted_and_once() {
    let (server, clients) = new_memory_sockets(vec![5, 2, 5, 9], false);
    let ids: Vec<u16> = clients.iter().map(|c| c.client_id).collect();
    assert_eq!(ids, vec![2, 5, 9]);
    let server_ids: Vec<u16> = server.clients.iter().map(|c| c.0).collect();
    assert_eq!(server_ids, vec![2, 5, 9]);
    assert!(!server.is_encrypted());
    assert!(server.is_reliable());
    assert_eq!(clients[1].addr(), in_memory_client_addr(5));
    assert!(!clients[1].encrypted);
}

#[test]
fn server_defaults_to_encrypted_and_reliable() {
    let mut server = MemorySocketServer::new(Vec::new());
    assert!(server.is_encrypted());
    assert!(server.is_reliable());
    assert!(!server.is_closed());
    assert_eq!(server.addr(), in_memory_server_addr());
    let server = MemorySocketServer::new_with(Vec::new(), false, false);
    assert!(!server.is_encrypted());
    assert!(!server.is_reliable());
}

#[test]
fn server_drains_one_client_after_the_other() {
    let (mut server, mut clients) = new_memory_sockets(vec![1, 2, 3], true);
    for (i, bytes) in [(2, vec![30u8]), (0, vec![10]), (0, vec![11, 12])] {
        assert!(clients[i as usize].channels.send(InMemoryPacket::new(&bytes)).is_ok());
    }
    let mut buf = buffer();
    server.preupdate();
    assert_eq!(server.try_recv(&mut buf), Ok((1, in_memory_client_addr(1))));
    assert_eq!(buf[0], 10);
    assert_eq!(server.try_recv(&mut buf), Ok((2, in_memory_client_addr(1))));
    assert_eq!(buf[..2], [11, 12]);
    assert_eq!(server.try_recv(&mut buf), Ok((1, in_memory_client_addr(3))));
    assert_eq!(buf[..2], [30, 12]);
    assert_eq!(server.try_recv(&mut buf), Err(SocketError::WouldBlock));
    // A client that was drained is not asked again in the same round.
    assert!(clients[0].channels.send(InMemoryPacket::new(&[13])).is_ok());
    assert_eq!(server.try_recv(&mut buf), Err(SocketError::WouldBlock));
    server.preupdate();
    assert_eq!(server.try_recv(&mut buf), Ok((1, in_memory_client_addr(1))));
}

#[test]
fn server_sends_by_port() {
    let (mut server, mut clients) = new_memory_sockets(vec![1, 2], true);
    assert_eq!(server.send(in_memory_client_addr(2), &[7, 8]), Ok(()));
    assert!(clients[0].channels.try_recv().is_none());
    let mut buf = buffer();
    assert_eq!(clients[1].channels.try_recv().map(|p| p.copy_to(&mut buf)), Some(2));
    assert_eq!(buf[..2], [7, 8]);
    assert_eq!(server.send(in_memory_client_addr(3), &[7]), Err(SocketError::AddrNotAvailable));
    clients.remove(0);
    assert_eq!(server.send(in_memory_client_addr(1), &[7]), Err(SocketError::ConnectionAborted));
}
