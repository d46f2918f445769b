//! Web addresses.

use vstd::prelude::*;

use crate::addr::{IpAddr, Ipv4Addr, Ipv6Addr};

verus! {

/// The most bytes by which another host makes a web address longer: two slashes, and an address of 39
/// bytes in brackets.
pub const HOST_GROWTH: u128 = 43;

/// The most bytes by which another port makes a web address longer: a colon and five digits.
pub const PORT_GROWTH: u128 = 6;

/// The host of a web address.
#[derive(Debug)]
pub enum Host {
    Domain(String),
    Ipv4(Ipv4Addr),
    Ipv6(Ipv6Addr),
}

/// What a [`Host`] stands for.
pub enum HostView {
    Domain(Seq<char>),
    Ipv4(Ipv4Addr),
    Ipv6(Ipv6Addr),
}

impl View for Host {
    type V = HostView;

    open spec fn view(&self) -> HostView {
        match self {
            Host::Domain(domain) => HostView::Domain(domain@),
            Host::Ipv4(ip) => HostView::Ipv4(*ip),
            Host::Ipv6(ip) => HostView::Ipv6(*ip),
        }
    }
}

/// The host that is an address.
pub open spec fn host_of_ip(ip: IpAddr) -> HostView {
    match ip {
        IpAddr::V4(ip) => HostView::Ipv4(ip),
        IpAddr::V6(ip) => HostView::Ipv6(ip),
    }
}

/// How a port is given in a web address with the scheme `https`: the usual one is left out.
pub open spec fn port_beside_https(port: u16) -> Option<u16> {
    if port == 443 {
        None
    } else {
        Some(port)
    }
}

/// The view of a value that may be missing.
pub open spec fn view_of<T: View>(value: Option<T>) -> Option<T::V> {
    match value {
        Some(value) => Some(value@),
        None => None,
    }
}

/// The canonical form of the web address that a text stands for, if it stands for one.
pub uninterp spec fn canonical_url(text: Seq<char>) -> Option<Seq<char>>;

/// The host of the web address that a text stands for.
pub uninterp spec fn url_host(text: Seq<char>) -> Option<HostView>;

/// The port of the web address that a text stands for, if it is not the usual one of the scheme.
pub uninterp spec fn url_port(text: Seq<char>) -> Option<u16>;

/// The scheme of the web address that a text stands for.
pub uninterp spec fn url_scheme(text: Seq<char>) -> Option<Seq<char>>;

/// The web address with another host, if it can have one.
pub uninterp spec fn url_with_ip_host(text: Seq<char>, ip: IpAddr) -> Option<Seq<char>>;

/// The web address with another port, if it can have one.
pub uninterp spec fn url_with_port(text: Seq<char>, port: u16) -> Option<Seq<char>>;

/// The web address with another query.
pub uninterp spec fn url_with_query(text: Seq<char>, query: Seq<char>) -> Option<Seq<char>>;

/// Calls `url::Url::parse`, which reads a web address. What it returns, written out again by
/// `as_str`, depends on the text alone. It keeps a beginning that is `https://`.
#[verifier::external_body]
fn parse_url(text: &str) -> (r: Option<String>)
    ensures
        view_of(r) == canonical_url(text@),
        r is Some && "https://"@.is_prefix_of(text@) ==> "https://"@.is_prefix_of(r->0@),
{
    url::Url::parse(text).ok().map(|url| url.as_str().to_owned())
}

/// Calls `url::Url::host` on the web address that the text stands for. What it returns depends on
/// the text alone.
#[verifier::external_body]
fn host_of_url(text: &str) -> (r: Option<Host>)
    ensures
        view_of(r) == url_host(text@),
{
    match url::Url::parse(text).ok()?.host()? {
        url::Host::Domain(domain) => Some(Host::Domain(domain.to_owned())),
        url::Host::Ipv4(ip) => Some(Host::Ipv4(Ipv4Addr { bits: u32::from(ip) })),
        url::Host::Ipv6(ip) => Some(Host::Ipv6(Ipv6Addr { bits: u128::from(ip) })),
    }
}

/// Calls `url::Url::domain` on the web address that the text stands for, which is the host if that
/// is a domain name.
#[verifier::external_body]
fn domain_of_url(text: &str) -> (r: Option<String>)
    ensures
        view_of(r) == match url_host(text@) {
            Some(HostView::Domain(domain)) => Some(domain),
            _ => None,
        },
{
    url::Url::parse(text).ok()?.domain().map(|domain| domain.to_owned())
}

/// Calls `url::Url::port` on the web address that the text stands for. What it returns depends on
/// the text alone.
#[verifier::external_body]
fn port_of_url(text: &str) -> (r: Option<u16>)
    ensures
        r == url_port(text@),
{
    url::Url::parse(text).ok()?.port()
}

/// Calls `url::Url::scheme` on the web address that the text stands for. What it returns depends on
/// the text alone.
#[verifier::external_body]
fn scheme_of_url(text: &str) -> (r: Option<String>)
    ensures
        view_of(r) == url_scheme(text@),
{
    url::Url::parse(text).ok().map(|url| url.scheme().to_owned())
}

/// The web address that the text stands for can grow by this many bytes: the url crate counts its
/// bytes by 32-bit numbers.
pub open spec fn has_room(text: Seq<char>, growth: int) -> bool {
    canonical_url(text) matches Some(url) ==> vstd::utf8::encode_utf8(url).len() + growth <= u32::MAX
}

/// What becomes of a web address, if it can grow by this many bytes.
pub open spec fn if_room(text: Seq<char>, growth: int, changed: Option<Seq<char>>) -> Option<
    Seq<char>,
> {
    if has_room(text, growth) {
        changed
    } else {
        None
    }
}

/// The most bytes by which another query makes a web address longer: a question mark, and the query
/// with every byte escaped.
pub open spec fn query_growth(query: Seq<char>) -> int {
    (1 + 3 * vstd::utf8::encode_utf8(query).len()) as int
}

/// Calls `url::Url::set_ip_host` on the web address that the text stands for. What becomes of the
/// address depends on the text and the host alone. It panics where the address grows too long.
///
/// An address that begins with `https://` and can be read gets the host, and keeps its scheme and its port.
#[verifier::external_body]
fn set_url_ip_host(text: &str, ip: IpAddr) -> (r: Option<String>)
    requires
        has_room(text@, HOST_GROWTH as int),
    ensures
        view_of(r) == url_with_ip_host(text@, ip),
        "https://"@.is_prefix_of(text@) && url_scheme(text@) is Some ==> r is Some,
        "https://"@.is_prefix_of(text@) && r is Some ==> url_scheme(r->0@) == Some("https"@)
            && url_host(r->0@) == Some(host_of_ip(ip)) && url_port(r->0@) == url_port(text@),
{
    let mut url = url::Url::parse(text).ok()?;
    match ip {
        IpAddr::V4(ip) => url.set_ip_host(ip.bits.to_be_bytes().into()).ok()?,
        IpAddr::V6(ip) => url.set_ip_host(ip.bits.to_be_bytes().into()).ok()?,
    }
    Some(url.as_str().to_owned())
}

/// Calls `url::Url::set_port` on the web address that the text stands for. What becomes of the
/// address depends on the text and the port alone. It panics where the address grows too long.
///
/// Where the scheme is `https` and the host is no domain name, the address gets the port, which is left
/// out if it is 443, and keeps its scheme and its host.
#[verifier::external_body]
fn set_url_port(text: &str, port: u16) -> (r: Option<String>)
    requires
        has_room(text@, PORT_GROWTH as int),
    ensures
        view_of(r) == url_with_port(text@, port),
        url_scheme(text@) == Some("https"@) && url_host(text@) is Some && !(
        url_host(text@)->0 is Domain) ==> r is Some && url_scheme(r->0@) == Some("https"@)
            && url_host(r->0@) == url_host(text@) && url_port(r->0@) == port_beside_https(port),
{
    let mut url = url::Url::parse(text).ok()?;
    url.set_port(Some(port)).ok()?;
    Some(url.as_str().to_owned())
}

/// Calls `url::Url::set_query` on the web address that the text stands for. What becomes of the
/// address depends on the text and the query alone. It panics where the address grows too long.
///
/// An address whose host is no domain name keeps its scheme, its host and its port.
#[verifier::external_body]
fn set_url_query(text: &str, query: &str) -> (r: Option<String>)
    requires
        has_room(text@, query_growth(query@)),
    ensures
        view_of(r) == url_with_query(text@, query@),
        url_host(text@) is Some && !(url_host(text@)->0 is Domain) ==> r is Some && url_scheme(r->0@)
            == url_scheme(text@) && url_host(r->0@) == url_host(text@) && url_port(r->0@) == url_port(
            text@,
        ),
{
    let mut url = url::Url::parse(text).ok()?;
    url.set_query(Some(query));
    Some(url.as_str().to_owned())
}

/// A web address.
#[derive(Debug)]
pub struct Url {
    text: String,
}

impl Clone for Url {
    fn clone(&self) -> (r: Self)
        ensures
            r@ == self@,
    {
        Url { text: self.text.clone() }
    }
}

impl View for Url {
    type V = Seq<char>;

    closed spec fn view(&self) -> Seq<char> {
        self.text@
    }
}

impl Url {
    /// Makes a web address of a text that may be missing.
    fn of_text(text: Option<String>) -> (r: Option<Url>)
        ensures
            view_of(r) == view_of(text),
    {
        match text {
            Some(text) => Some(Url { text }),
            None => None,
        }
    }

    /// Whether the web address can grow by this many bytes.
    fn has_room(&self, growth: u128) -> (r: bool)
        requires
            growth <= u128::MAX - usize::MAX,
        ensures
            r == has_room(self@, growth as int),
    {
        match parse_url(self.text.as_str()) {
            Some(text) => {
                let len: u128 = text.as_str().as_bytes().len() as u128;
                len + growth <= u32::MAX as u128
            },
            None => true,
        }
    }

    /// Reads a web address.
    pub fn parse(text: &str) -> (r: Option<Url>)
        ensures
            view_of(r) == canonical_url(text@),
            r is Some && "https://"@.is_prefix_of(text@) ==> "https://"@.is_prefix_of(r->0@),
    {
        Url::of_text(parse_url(text))
    }

    /// The web address as a text.
    pub fn as_str(&self) -> (r: &str)
        ensures
            r@ == self@,
    {
        self.text.as_str()
    }

    /// The host.
    pub fn host(&self) -> (r: Option<Host>)
        ensures
            view_of(r) == url_host(self@),
    {
        host_of_url(self.text.as_str())
    }

    /// The host, if it is a domain name.
    pub fn domain(&self) -> (r: Option<String>)
        ensures
            view_of(r) == match url_host(self@) {
                Some(HostView::Domain(domain)) => Some(domain),
                _ => None,
            },
    {
        domain_of_url(self.text.as_str())
    }

    /// The port, if it is not the usual one of the scheme.
    pub fn port(&self) -> (r: Option<u16>)
        ensures
            r == url_port(self@),
    {
        port_of_url(self.text.as_str())
    }

    /// The scheme.
    pub fn scheme(&self) -> (r: Option<String>)
        ensures
            view_of(r) == url_scheme(self@),
    {
        scheme_of_url(self.text.as_str())
    }

    /// The web address with another host, if it can have one.
    pub fn with_ip_host(&self, ip: IpAddr) -> (r: Option<Url>)
        ensures
            view_of(r) == if_room(self@, HOST_GROWTH as int, url_with_ip_host(self@, ip)),
            "https://"@.is_prefix_of(self@) && url_scheme(self@) is Some && has_room(
                self@,
                HOST_GROWTH as int,
            ) ==> r is Some,
            "https://"@.is_prefix_of(self@) && r is Some ==> {
                &&& url_scheme(r->0@) == Some("https"@)
                &&& url_host(r->0@) == Some(host_of_ip(ip))
                &&& url_port(r->0@) == url_port(self@)
            },
    {
        if !self.has_room(HOST_GROWTH) {
            return None;
        }
        Url::of_text(set_url_ip_host(self.text.as_str(), ip))
    }

    /// The web address with another port, if it can have one.
    pub fn with_port(&self, port: u16) -> (r: Option<Url>)
        ensures
            view_of(r) == if_room(self@, PORT_GROWTH as int, url_with_port(self@, port)),
            url_scheme(self@) == Some("https"@) && url_host(self@) is Some && !(
            url_host(self@)->0 is Domain) && has_room(self@, PORT_GROWTH as int) ==> {
                &&& r matches Some(url)
                &&& url_scheme(url@) == Some("https"@)
                &&& url_host(url@) == url_host(self@)
                &&& url_port(url@) == port_beside_https(port)
            },
    {
        if !self.has_room(PORT_GROWTH) {
            return None;
        }
        Url::of_text(set_url_port(self.text.as_str(), port))
    }

    /// The web address with another query.
    pub fn with_query(&self, query: &str) -> (r: Option<Url>)
        ensures
            view_of(r) == if_room(self@, query_growth(query@), url_with_query(self@, query@)),
            url_host(self@) is Some && !(url_host(self@)->0 is Domain) && has_room(
                self@,
                query_growth(query@),
            ) ==> {
                &&& r matches Some(url)
                &&& url_scheme(url@) == url_scheme(self@)
                &&& url_host(url@) == url_host(self@)
                &&& url_port(url@) == url_port(self@)
            },
    {
        let growth: u128 = 1 + 3 * (query.as_bytes().len() as u128);
        if !self.has_room(growth) {
            return None;
        }
        Url::of_text(set_url_query(self.text.as_str(), query))
    }
}

} // verus!
