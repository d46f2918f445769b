use renet2::addr::{
    client_idx_from_addr, client_idx_to_addr, IpAddr, Ipv4Addr, Ipv6Addr, SocketAddr, SocketAddrV4,
    SocketAddrV6,
};

#[test]
fn client_addr_conversion() {
    let addr0 = client_idx_to_addr(0);
    let addr1 = client_idx_to_addr(1);
    let addr16 = client_idx_to_addr(16);
    let addr257 = client_idx_to_addr(257);

    assert_eq!(client_idx_from_addr(addr0), 0);
    assert_eq!(client_idx_from_addr(addr1), 1);
    assert_eq!(client_idx_from_addr(addr16), 16);
    assert_eq!(client_idx_from_addr(addr257), 257);
}

#[test]
fn client_addr_holds_the_digits_of_the_index() {
    let addr = client_idx_to_addr(0x0004_0003_0002_0001);
    let expected = SocketAddr::V6(SocketAddrV6 {
        ip: Ipv6Addr { bits: 0x0001_0002_0003_0004_0000_0000_0000_0000 },
        port: 0,
        flowinfo: 0,
        scope_id: 0,
    });
    assert_eq!(addr, expected);
    assert_eq!(client_idx_from_addr(addr), 0x0004_0003_0002_0001);
    let last = client_idx_to_addr(u64::MAX);
    assert_eq!(client_idx_from_addr(last), u64::MAX);
    assert_ne!(client_idx_to_addr(1), client_idx_to_addr(1 << 16));
}

#[test]
fn addresses_are_made_of_their_parts() {
    let ip = IpAddr::V4(Ipv4Addr { bits: 0x7f00_0001 });
    let addr = SocketAddr::new(ip, 80);
    assert_eq!(addr, SocketAddr::V4(SocketAddrV4 { ip: Ipv4Addr { bits: 0x7f00_0001 }, port: 80 }));
    assert_eq!(addr.ip(), ip);
    assert_eq!(addr.port(), 80);
    let ip = IpAddr::V6(Ipv6Addr::new(1, 2, 3, 4, 5, 6, 7, 8));
    let addr = SocketAddr::new(ip, 81);
    assert_eq!(addr.ip(), ip);
    assert_eq!(addr.port(), 81);
    assert_eq!(
        Ipv6Addr::new(1, 2, 3, 4, 5, 6, 7, 8).bits,
        0x0001_0002_0003_0004_0005_0006_0007_0008
    );
}

#[test]
fn octets_come_most_significant_first() {
    let octets: Vec<u8> = (1..=20).collect();
    let ip = Ipv6Addr::from_octets(&octets);
    assert_eq!(ip.bits, 0x0102_0304_0506_0708_090a_0b0c_0d0e_0f10);
}
