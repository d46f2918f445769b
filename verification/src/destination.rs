//! Where a server can be reached.

use vstd::prelude::*;

use crate::addr::{Ipv6Addr, SocketAddr, SocketAddrV6};
use crate::web_url::Url;

verus! {

/// The SHA-256 digest of some bytes.
pub uninterp spec fn sha256(data: Seq<u8>) -> Seq<u8>;

/// Calls `hmac_sha256::Hash::hash`, which computes the SHA-256 digest of some bytes.
#[verifier::external_body]
fn sha256_hash(data: &[u8]) -> (r: [u8; 32])
    ensures
        r@ == sha256(data@),
{
    hmac_sha256::Hash::hash(data)
}

/// SHA-256 hash of a DER-encoded certificate.
///
/// The certificate must be an X.509v3 certificate that has a validity period of less than two
/// weeks, and the current time must be within that validity period. The format of the public key
/// in the certificate depends on the implementation, but must minimally include ECDSA with the
/// secp256r1 (NIST P-256) named group, and must not include RSA keys.
#[derive(Debug, Clone)]
pub struct ServerCertHash {
    pub hash: [u8; 32],
}

impl TryFrom<Vec<u8>> for ServerCertHash {
    type Error = ();

    fn try_from(vec: Vec<u8>) -> (r: Result<Self, ()>)
        ensures
            match r {
                Ok(hash) => vec@.len() == 32 && hash.hash@ == vec@,
                Err(_) => vec@.len() != 32,
            },
    {
        if vec.len() != 32 {
            return Err(());
        }
        let mut hash: [u8; 32] = [0;32];
        for i in 0..32usize
            invariant
                vec@.len() == 32,
                hash@.take(i as int) =~= vec@.take(i as int),
        {
            hash[i] = vec[i];
        }
        assert(hash@.take(32) =~= hash@);
        assert(vec@.take(32) =~= vec@);
        Ok(ServerCertHash { hash })
    }
}

impl vstd::std_specs::convert::TryFromSpecImpl<Vec<u8>> for ServerCertHash {
    open spec fn obeys_try_from_spec() -> bool {
        false
    }

    open spec fn try_from_spec(v: Vec<u8>) -> Result<Self, ()> {
        Err(())
    }
}

/// Gets a [`ServerCertHash`] from a DER-encoded certificate.
pub fn get_server_cert_hash(cert: &[u8]) -> (r: ServerCertHash)
    ensures
        r.hash@ == sha256(cert@),
{
    ServerCertHash { hash: sha256_hash(cert) }
}

/// Represents a WebTransport server destination.
///
/// When setting up WebTransport servers and clients, this destination must be used. It tells a
/// client where to connect. The server stores it as a [`SocketAddr`], by which connect tokens are
/// validated, and by which packets are sent and received.
///
/// The conversion of a web address into a [`SocketAddr`] is *not* reversible. It involves hashing
/// the web address and pasting the hash into the bytes of the socket address.
#[derive(Debug)]
pub enum WebServerDestination {
    Addr(SocketAddr),
    /// The server destination as a web address, which must include the port number explicitly.
    Url(Url),
}

impl Clone for WebServerDestination {
    fn clone(&self) -> (r: Self)
        ensures
            r@ == self@,
    {
        match self {
            WebServerDestination::Addr(addr) => WebServerDestination::Addr(*addr),
            WebServerDestination::Url(url) => WebServerDestination::Url(url.clone()),
        }
    }
}

/// What a [`WebServerDestination`] stands for.
pub enum DestinationView {
    Addr(SocketAddr),
    Url(Seq<char>),
}

impl View for WebServerDestination {
    type V = DestinationView;

    open spec fn view(&self) -> DestinationView {
        match self {
            WebServerDestination::Addr(addr) => DestinationView::Addr(*addr),
            WebServerDestination::Url(url) => DestinationView::Url(url@),
        }
    }
}

impl From<SocketAddr> for WebServerDestination {
    fn from(addr: SocketAddr) -> (r: Self) {
        WebServerDestination::Addr(addr)
    }
}

impl vstd::std_specs::convert::FromSpecImpl<SocketAddr> for WebServerDestination {
    open spec fn obeys_from_spec() -> bool {
        true
    }

    open spec fn from_spec(addr: SocketAddr) -> Self {
        WebServerDestination::Addr(addr)
    }
}

impl From<Url> for WebServerDestination {
    fn from(url: Url) -> (r: Self) {
        WebServerDestination::Url(url)
    }
}

impl vstd::std_specs::convert::FromSpecImpl<Url> for WebServerDestination {
    open spec fn obeys_from_spec() -> bool {
        true
    }

    open spec fn from_spec(url: Url) -> Self {
        WebServerDestination::Url(url)
    }
}

/// The number that two bytes stand for, the least significant first.
pub open spec fn le_u16(bytes: Seq<u8>) -> u16 {
    (bytes[0] + 256 * bytes[1]) as u16
}

/// The number that four bytes stand for, the least significant first.
pub open spec fn le_u32(bytes: Seq<u8>) -> u32 {
    (bytes[0] + 256 * bytes[1] + 65536 * bytes[2] + 16777216 * bytes[3]) as u32
}

/// The socket address that is filled with the first 26 bytes of a digest: 16 for the address, two
/// for the port, four for the flow information and four for the scope.
pub open spec fn addr_of_hash(hash: Seq<u8>) -> SocketAddr {
    SocketAddr::V6(
        SocketAddrV6 {
            ip: Ipv6Addr::of_octets(hash.take(16)),
            port: le_u16(hash.skip(16)),
            flowinfo: le_u32(hash.skip(18)),
            scope_id: le_u32(hash.skip(22)),
        },
    )
}

/// Fills a socket address with the bytes of a digest.
pub fn socket_addr_from_hash(hash: &[u8; 32]) -> (r: SocketAddr)
    ensures
        r == addr_of_hash(hash@),
{
    let ip = Ipv6Addr::from_octets(hash.as_slice());
    let port: u16 = hash[16] as u16 + 256 * (hash[17] as u16);
    let flowinfo: u32 = hash[18] as u32 + 256 * (hash[19] as u32) + 65536 * (hash[20] as u32)
        + 16777216 * (hash[21] as u32);
    let scope_id: u32 = hash[22] as u32 + 256 * (hash[23] as u32) + 65536 * (hash[24] as u32)
        + 16777216 * (hash[25] as u32);
    SocketAddr::V6(SocketAddrV6 { ip, port, flowinfo, scope_id })
}

/// The socket address that a web address is hashed to.
pub open spec fn addr_of_url(url: Seq<char>) -> SocketAddr {
    addr_of_hash(sha256(vstd::utf8::encode_utf8(url)))
}

/// Hashes a web address to a socket address.
pub fn hash_url_to_socket_addr(url: Url) -> (r: SocketAddr)
    ensures
        r == addr_of_url(url@),
{
    let hash = sha256_hash(url.as_str().as_bytes());
    socket_addr_from_hash(&hash)
}

/// The socket address that stands for a destination.
pub open spec fn addr_of_destination(dest: DestinationView) -> SocketAddr {
    match dest {
        DestinationView::Addr(addr) => addr,
        DestinationView::Url(url) => addr_of_url(url),
    }
}

impl From<WebServerDestination> for SocketAddr {
    fn from(dest: WebServerDestination) -> (r: Self) {
        match dest {
            WebServerDestination::Addr(addr) => addr,
            WebServerDestination::Url(url) => hash_url_to_socket_addr(url),
        }
    }
}

impl vstd::std_specs::convert::FromSpecImpl<WebServerDestination> for SocketAddr {
    open spec fn obeys_from_spec() -> bool {
        true
    }

    open spec fn from_spec(dest: WebServerDestination) -> Self {
        addr_of_destination(dest@)
    }
}

/// The web address that stands for a socket address, if there is one.
pub open spec fn url_of_addr(addr: SocketAddr) -> Option<Seq<char>> {
    match crate::web_url::canonical_url("https://example.net"@) {
        None => None,
        Some(base) => match crate::web_url::if_room(
            base,
            crate::web_url::HOST_GROWTH as int,
            crate::web_url::url_with_ip_host(base, addr.spec_ip()),
        ) {
            None => None,
            Some(url) => crate::web_url::if_room(
                url,
                crate::web_url::PORT_GROWTH as int,
                crate::web_url::url_with_port(url, addr.spec_port()),
            ),
        },
    }
}

/// The web address has the host and the port of the address. If there is none, there is nothing to make
/// one of, or no room.
pub open spec fn leads_to(r: Result<Url, ()>, addr: SocketAddr) -> bool {
    match r {
        Ok(url) => {
            &&& crate::web_url::url_scheme(url@) == Some("https"@)
            &&& crate::web_url::url_host(url@) == Some(crate::web_url::host_of_ip(addr.spec_ip()))
            &&& crate::web_url::url_port(url@) == crate::web_url::port_beside_https(
                addr.spec_port(),
            )
        },
        Err(_) => match crate::web_url::canonical_url("https://example.net"@) {
            None => true,
            Some(base) => {
                ||| crate::web_url::url_scheme(base) is None
                ||| !crate::web_url::has_room(base, crate::web_url::HOST_GROWTH as int)
                ||| crate::web_url::url_with_ip_host(base, addr.spec_ip()) matches Some(url)
                    && !crate::web_url::has_room(url, crate::web_url::PORT_GROWTH as int)
            },
        },
    }
}

/// Makes a web address of the address of a WebTransport server.
pub fn wt_server_addr_to_url(addr: SocketAddr) -> (r: Result<Url, ()>)
    ensures
        match r {
            Ok(url) => url_of_addr(addr) == Some(url@),
            Err(_) => url_of_addr(addr) is None,
        },
        leads_to(r, addr),
{
    proof {
        reveal_strlit("https://example.net");
        reveal_strlit("https://");
        assert("https://"@ =~= "https://example.net"@.subrange(0, 8));
    }
    let url = match Url::parse("https://example.net") {
        Some(url) => url,
        None => {
            return Err(());
        },
    };
    let url = match url.with_ip_host(addr.ip()) {
        Some(url) => url,
        None => {
            return Err(());
        },
    };
    match url.with_port(addr.port()) {
        Some(url) => Ok(url),
        None => Err(()),
    }
}

impl TryFrom<WebServerDestination> for Url {
    type Error = ();

    fn try_from(dest: WebServerDestination) -> (r: Result<Self, ()>)
        ensures
            match dest@ {
                DestinationView::Addr(addr) => match r {
                    Ok(url) => url_of_addr(addr) == Some(url@),
                    Err(_) => url_of_addr(addr) is None,
                },
                DestinationView::Url(url) => r is Ok && r->Ok_0@ == url,
            },
    {
        match dest {
            WebServerDestination::Addr(addr) => wt_server_addr_to_url(addr),
            WebServerDestination::Url(url) => Ok(url),
        }
    }
}

impl vstd::std_specs::convert::TryFromSpecImpl<WebServerDestination> for Url {
    open spec fn obeys_try_from_spec() -> bool {
        false
    }

    open spec fn try_from_spec(v: WebServerDestination) -> Result<Self, ()> {
        Err(())
    }
}

/// A destination that is an address stands for that address.
pub proof fn addresses_stand_for_themselves(addr: SocketAddr)
    ensures
        addr_of_destination(DestinationView::Addr(addr)) == addr,
{
}

/// The web address of a socket address leads to that address: its host is the IP address and its port
/// is the port, where a missing one stands for 443. There is one for every socket address, whatever its
/// family, as long as there is a web address to start from that can be read and can grow by that much.
pub proof fn addresses_are_found_again(addr: SocketAddr, r: Result<Url, ()>)
    requires
        call_ensures(wt_server_addr_to_url, (addr,), r),
    ensures
        r matches Ok(url) ==> {
            &&& crate::web_url::url_scheme(url@) == Some("https"@)
            &&& addr matches SocketAddr::V4(v4) ==> crate::web_url::url_host(url@) == Some(
                crate::web_url::HostView::Ipv4(v4.ip),
            )
            &&& addr matches SocketAddr::V6(v6) ==> crate::web_url::url_host(url@) == Some(
                crate::web_url::HostView::Ipv6(v6.ip),
            )
            &&& addr matches SocketAddr::V4(v4) ==> match crate::web_url::url_port(url@) {
                Some(port) => port == v4.port,
                None => v4.port == 443,
            }
            &&& addr matches SocketAddr::V6(v6) ==> match crate::web_url::url_port(url@) {
                Some(port) => port == v6.port,
                None => v6.port == 443,
            }
        },
        r is Err ==> match crate::web_url::canonical_url("https://example.net"@) {
            None => true,
            Some(base) => {
                ||| crate::web_url::url_scheme(base) is None
                ||| crate::web_url::canonical_url(base) matches Some(text)
                    && vstd::utf8::encode_utf8(text).len() + 43 > u32::MAX
                ||| crate::web_url::url_with_ip_host(base, addr.spec_ip()) matches Some(url)
                    && crate::web_url::canonical_url(url) matches Some(text)
                    && vstd::utf8::encode_utf8(text).len() + 6 > u32::MAX
            },
        },
{
}

/// A destination that is a web address is that web address, and one that is a socket address becomes
/// the web address of it.
pub proof fn destinations_become_urls(
    dest: WebServerDestination,
    r: Result<Url, ()>,
    of_addr: Result<Url, ()>,
)
    requires
        call_ensures(Url::try_from, (dest,), r),
        dest matches WebServerDestination::Addr(addr) ==> call_ensures(
            wt_server_addr_to_url,
            (addr,),
            of_addr,
        ),
    ensures
        dest matches WebServerDestination::Url(url) ==> r is Ok && r->Ok_0@ == url@,
        dest is Addr ==> r is Ok == of_addr is Ok,
        dest is Addr && r is Ok ==> r->Ok_0@ == of_addr->Ok_0@,
{
}

/// The socket address that a digest fills holds its bytes one after the other: sixteen in the IP
/// address, and then the port, the flow information and the scope, each with the least significant byte
/// first.
pub proof fn digests_fill_addresses(hash: [u8; 32], addr: SocketAddr)
    requires
        call_ensures(socket_addr_from_hash, (&hash,), addr),
    ensures
        addr matches SocketAddr::V6(v6) && {
            &&& forall|i: int| 0 <= i < 16 ==> #[trigger] v6.ip.octet(i) == hash@[i]
            &&& v6.port as int == hash@[16] + 256 * hash@[17]
            &&& v6.flowinfo as int == hash@[18] + 256 * hash@[19] + 65536 * hash@[20] + 16777216
                * hash@[21]
            &&& v6.scope_id as int == hash@[22] + 256 * hash@[23] + 65536 * hash@[24] + 16777216
                * hash@[25]
        },
{
    crate::addr::octets_are_kept(hash@.take(16));
}

/// A web address stands for the socket address that is filled with the digest of its text, so the same
/// web address always stands for the same socket address.
pub proof fn urls_stand_for_digests(
    dest: WebServerDestination,
    url: Url,
    hash: [u8; 32],
    addr: SocketAddr,
    filled: SocketAddr,
)
    requires
        dest == WebServerDestination::Url(url),
        call_ensures(SocketAddr::from, (dest,), addr),
        hash@ == sha256(vstd::utf8::encode_utf8(url@)),
        call_ensures(socket_addr_from_hash, (&hash,), filled),
    ensures
        addr == filled,
{
}

/// A destination that is a socket address stands for that socket address.
pub proof fn socket_addresses_stay(addr: SocketAddr, dest: WebServerDestination, found: SocketAddr)
    requires
        dest == WebServerDestination::Addr(addr),
        call_ensures(SocketAddr::from, (dest,), found),
    ensures
        found == addr,
{
}

/// The hash of a certificate is its digest, and a list of bytes is a hash exactly if there are 32.
pub proof fn hashes_are_digests(
    cert: &[u8],
    hash: ServerCertHash,
    bytes: Vec<u8>,
    r: Result<ServerCertHash, ()>,
)
    requires
        call_ensures(get_server_cert_hash, (cert,), hash),
        call_ensures(ServerCertHash::try_from, (bytes,), r),
    ensures
        hash.hash@ == sha256(cert@),
        r is Ok <==> bytes@.len() == 32,
        r is Ok ==> r->Ok_0.hash@ == bytes@,
{
}

} // verus!
