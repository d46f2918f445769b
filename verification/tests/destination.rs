use renet2::addr::{IpAddr, Ipv4Addr, Ipv6Addr, SocketAddr, SocketAddrV6};
use renet2::destination::{
    get_server_cert_hash, socket_addr_from_hash, wt_server_addr_to_url, ServerCertHash,
    WebServerDestination,
};
use renet2::web_url::{Host, Url};

#[test]
fn cert_hash_takes_exactly_its_length() {
    let bytes: Vec<u8> = (0..32).collect();
    let hash = ServerCertHash::try_from(bytes.clone()).unwrap();
    assert_eq!(hash.hash.to_vec(), bytes);
    assert!(ServerCertHash::try_from(vec![0; 31]).is_err());
    assert!(ServerCertHash::try_from(vec![0; 33]).is_err());
    assert!(ServerCertHash::try_from(Vec::new()).is_err());
}

#[test]
fn cert_hash_is_sha256() {
    let expected = [
        186, 120, 22, 191, 143, 1, 207, 234, 65, 65, 64, 222, 93, 174, 34, 35, 176, 3, 97, 163, 150,
        23, 122, 156, 180, 16, 255, 97, 242, 0, 21, 173,
    ];
    assert_eq!(get_server_cert_hash(b"abc").hash, expected);
}

#[test]
fn hash_fills_an_address() {
    let mut hash = [0u8; 32];
    for i in 0..32 {
        hash[i] = i as u8 + 1;
    }
    let expected = SocketAddr::V6(SocketAddrV6 {
        ip: Ipv6Addr { bits: 0x0102_0304_0506_0708_090a_0b0c_0d0e_0f10 },
        port: 0x1211,
        flowinfo: 0x1615_1413,
        scope_id: 0x1a19_1817,
    });
    assert_eq!(socket_addr_from_hash(&hash), expected);
}

#[test]
fn url_destination_is_hashed() {
    let url = Url::parse("https://example.net").unwrap();
    assert_eq!(url.as_str(), "https://example.net/");
    let addr = SocketAddr::from(WebServerDestination::from(url));
    let expected = SocketAddr::V6(SocketAddrV6 {
        ip: Ipv6Addr { bits: 6441575800769629964788800244022267530 },
        port: 10473,
        flowinfo: 3553316884,
        scope_id: 2821782316,
    });
    assert_eq!(addr, expected);
}

#[test]
fn address_destination_stands_for_itself() {
    let addr = SocketAddr::new(IpAddr::V4(Ipv4Addr { bits: 0x0a00_0001 }), 4433);
    assert_eq!(SocketAddr::from(WebServerDestination::from(addr)), addr);
}

#[test]
fn address_becomes_a_url() {
    let addr = SocketAddr::new(IpAddr::V4(Ipv4Addr { bits: 0x0a00_0001 }), 4433);
    assert_eq!(wt_server_addr_to_url(addr).unwrap().as_str(), "https://10.0.0.1:4433/");
    let addr = SocketAddr::new(IpAddr::V6(Ipv6Addr { bits: 1 }), 443);
    let url = Url::try_from(WebServerDestination::from(addr)).unwrap();
    assert_eq!(url.as_str(), "https://[::1]/");
    let url = Url::parse("https://a.example:1/x").unwrap();
    let same = Url::try_from(WebServerDestination::from(url)).unwrap();
    assert_eq!(same.as_str(), "https://a.example:1/x");
}

#[test]
fn urls_have_parts() {
    let url = Url::parse("wss://[::2]:77/a").unwrap();
    assert!(matches!(url.host(), Some(Host::Ipv6(Ipv6Addr { bits: 2 }))));
    assert_eq!(url.port(), Some(77));
    assert_eq!(url.scheme().unwrap(), "wss");
    assert_eq!(url.domain(), None);
    let url = Url::parse("https://a.example:443/").unwrap();
    assert_eq!(url.domain().unwrap(), "a.example");
    assert_eq!(url.port(), None);
    assert!(matches!(url.host(), Some(Host::Domain(d)) if d == "a.example"));
    assert_eq!(url.with_query("k=v").unwrap().as_str(), "https://a.example/?k=v");
    assert!(Url::parse("no url").is_none());
    assert!(Url::parse("mailto:x").unwrap().with_port(3).is_none());
    assert!(Url::parse("mailto:x").unwrap().host().is_none());
}
