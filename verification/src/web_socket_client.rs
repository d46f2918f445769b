//! The WebSocket client.
//!
//! A task makes the connection once the client has a connection request, and carries packets
//! between the connection and the client.

use std::sync::atomic::AtomicBool;
use std::sync::Arc;

use async_channel::{Receiver, Sender};
use vstd::prelude::*;
use vstd::string::StringExecFns;

use crate::addr::{IpAddr, SocketAddr};
use crate::channels::PutOutcome;
use crate::ends::{AsyncInbox, AsyncOutbox, FlagUse, SharedFlag};
use crate::error::SocketError;
use crate::request::connect_query;
use crate::slices::copy_to_front;
use crate::web_url::{Host, Url};

verus! {

/// Why a client cannot be set up.
#[derive(Debug, Clone)]
pub enum WebSocketClientError {
    /// The web address of the server has no host.
    MissingHost,
    /// The host of the server is a domain name but an address was expected.
    DomainHost,
    /// The scheme is neither `ws` nor `wss`.
    UnsupportedScheme { scheme: String },
}

/// What a [`WebSocketClientError`] stands for.
pub enum ErrorView {
    MissingHost,
    DomainHost,
    UnsupportedScheme { scheme: Seq<char> },
}

impl View for WebSocketClientError {
    type V = ErrorView;

    open spec fn view(&self) -> ErrorView {
        match self {
            WebSocketClientError::MissingHost => ErrorView::MissingHost,
            WebSocketClientError::DomainHost => ErrorView::DomainHost,
            WebSocketClientError::UnsupportedScheme { scheme } => ErrorView::UnsupportedScheme {
                scheme: scheme@,
            },
        }
    }
}

impl ErrorView {
    /// The error in words.
    pub open spec fn text(self) -> Seq<char> {
        match self {
            ErrorView::MissingHost => "WebSocketClientConfig url does not have a host"@,
            ErrorView::DomainHost => {
                "WebSocketClientConfig url is a domain but a SocketAddr was expected"@
            },
            ErrorView::UnsupportedScheme { scheme } => {
                "failed setting up websocket client, server url has '"@ + scheme
                    + "' scheme instead of 'ws' or 'wss'"@
            },
        }
    }
}

impl WebSocketClientError {
    /// The error in words.
    pub fn text(&self) -> (r: String)
        ensures
            r@ == self@.text(),
    {
        match self {
            WebSocketClientError::MissingHost => {
                "WebSocketClientConfig url does not have a host".to_owned()
            },
            WebSocketClientError::DomainHost => {
                "WebSocketClientConfig url is a domain but a SocketAddr was expected".to_owned()
            },
            WebSocketClientError::UnsupportedScheme { scheme } => {
                let mut text = "failed setting up websocket client, server url has '".to_owned();
                text.append(scheme.as_str());
                text.append("' scheme instead of 'ws' or 'wss'");
                text
            },
        }
    }
}

/// Configuration for setting up a [`WebSocketClient`].
#[derive(Debug)]
pub struct WebSocketClientConfig {
    /// The server's web address that receives connections.
    pub server_url: Url,
}

impl Clone for WebSocketClientConfig {
    fn clone(&self) -> (r: Self)
        ensures
            r.server_url@ == self.server_url@,
    {
        WebSocketClientConfig { server_url: self.server_url.clone() }
    }
}

/// The address of a server with this host and this port. A missing port counts as zero.
pub open spec fn address_of(
    host: Option<crate::web_url::HostView>,
    port: Option<u16>,
) -> Result<SocketAddr, ErrorView> {
    let port = match port {
        Some(port) => port,
        None => 0,
    };
    match host {
        None => Err(ErrorView::MissingHost),
        Some(crate::web_url::HostView::Domain(_)) => Err(ErrorView::DomainHost),
        Some(crate::web_url::HostView::Ipv4(ip)) => Ok(SocketAddr::of_parts(IpAddr::V4(ip), port)),
        Some(crate::web_url::HostView::Ipv6(ip)) => Ok(SocketAddr::of_parts(IpAddr::V6(ip), port)),
    }
}

/// A result with what its error stands for.
pub open spec fn error_views<T>(r: Result<T, WebSocketClientError>) -> Result<T, ErrorView> {
    match r {
        Ok(value) => Ok(value),
        Err(e) => Err(e@),
    }
}

/// Makes the address of a server of its host and its port.
pub fn address_of_parts(host: Option<Host>, port: Option<u16>) -> (r: Result<
    SocketAddr,
    WebSocketClientError,
>)
    ensures
        error_views(r) == address_of(crate::web_url::view_of(host), port),
{
    let port: u16 = match port {
        Some(port) => port,
        None => 0,
    };
    match host {
        None => Err(WebSocketClientError::MissingHost),
        Some(Host::Domain(_)) => Err(WebSocketClientError::DomainHost),
        Some(Host::Ipv4(ip)) => Ok(SocketAddr::new(IpAddr::V4(ip), port)),
        Some(Host::Ipv6(ip)) => Ok(SocketAddr::new(IpAddr::V6(ip), port)),
    }
}

impl WebSocketClientConfig {
    /// Extracts the server address from the server's web address.
    pub fn server_address(&self) -> (r: Result<SocketAddr, WebSocketClientError>)
        ensures
            error_views(r) == address_of(
                crate::web_url::url_host(self.server_url@),
                crate::web_url::url_port(self.server_url@),
            ),
    {
        address_of_parts(self.server_url.host(), self.server_url.port())
    }
}

/// Whether a scheme encrypts, if it is a scheme of web sockets.
pub open spec fn tls_of(scheme: Option<Seq<char>>) -> Option<bool> {
    if scheme == Some("wss"@) {
        Some(true)
    } else if scheme == Some("ws"@) {
        Some(false)
    } else {
        None
    }
}

/// Whether a scheme encrypts, if it is a scheme of web sockets.
pub fn tls_of_scheme(scheme: &Option<String>) -> (r: Option<bool>)
    ensures
        r == tls_of(crate::web_url::view_of(*scheme)),
{
    proof {
        reveal_strlit("ws");
        reveal_strlit("wss");
    }
    match scheme {
        Some(scheme) => if *scheme == "wss".to_owned() {
            Some(true)
        } else if *scheme == "ws".to_owned() {
            Some(false)
        } else {
            None
        },
        None => None,
    }
}

/// What kind of packet is to be sent.
#[derive(Debug, Clone, Copy, PartialEq, Eq, Structural)]
pub enum PacketKind {
    ConnectionRequest,
    Other,
}

/// The ends of the channels that connect a client and the task that makes the connection.
pub struct ClientEnds {
    /// Takes the connection request.
    pub connect_req_sender: AsyncOutbox<Vec<u8>>,
    /// Gives the packets of the server.
    pub incoming_receiver: AsyncInbox<Vec<u8>>,
    /// Takes packets for the server.
    pub outgoing_sender: AsyncOutbox<Vec<u8>>,
    /// Whether the connection is closed.
    pub closed: SharedFlag,
}

/// A WebSocket client.
pub struct WebSocketClient {
    server_url: Url,
    server_address: SocketAddr,
    server_has_tls: bool,
    ends: ClientEnds,
    is_disconnected: bool,
    sent_connection_request: bool,
}

/// What a [`WebSocketClient`] stands for.
#[verifier::ext_equal]
pub struct ClientView {
    /// Where the server is.
    pub server_url: Seq<char>,
    /// The address of the server.
    pub server_address: SocketAddr,
    /// The connection is encrypted.
    pub server_has_tls: bool,
    /// The client has disconnected.
    pub is_disconnected: bool,
    /// The connection request has been handed over.
    pub sent_connection_request: bool,
    /// Where the connection request goes.
    pub request_end: Sender<Vec<u8>>,
    /// The connection requests that were handed over there, each with what became of it.
    pub requests: Seq<(Seq<u8>, PutOutcome)>,
    /// Where packets for the server go.
    pub outgoing_end: Sender<Vec<u8>>,
    /// The packets that were handed over there, each with what became of it.
    pub outgoing: Seq<(Seq<u8>, PutOutcome)>,
    /// Where packets of the server come from.
    pub incoming_end: Receiver<Vec<u8>>,
    /// What came from there, each time it was asked for a packet.
    pub incoming: Seq<Option<Seq<u8>>>,
    /// The mark that tells whether the connection is closed.
    pub mark_flag: Arc<AtomicBool>,
    /// What was done with the mark.
    pub mark: Seq<FlagUse>,
}

/// An account of packets, with their bytes.
pub open spec fn handed_bytes(handed: Seq<(Vec<u8>, PutOutcome)>) -> Seq<(Seq<u8>, PutOutcome)> {
    handed.map_values(|entry: (Vec<u8>, PutOutcome)| (entry.0@, entry.1))
}

/// An account of what was given, with the bytes.
pub open spec fn given_bytes(given: Seq<Option<Vec<u8>>>) -> Seq<Option<Seq<u8>>> {
    given.map_values(|packet: Option<Vec<u8>>| crate::web_url::view_of(packet))
}

impl View for WebSocketClient {
    type V = ClientView;

    closed spec fn view(&self) -> ClientView {
        ClientView {
            server_url: self.server_url@,
            server_address: self.server_address,
            server_has_tls: self.server_has_tls,
            is_disconnected: self.is_disconnected,
            sent_connection_request: self.sent_connection_request,
            request_end: self.ends.connect_req_sender.end(),
            requests: handed_bytes(self.ends.connect_req_sender.handed()),
            outgoing_end: self.ends.outgoing_sender.end(),
            outgoing: handed_bytes(self.ends.outgoing_sender.handed()),
            incoming_end: self.ends.incoming_receiver.end(),
            incoming: given_bytes(self.ends.incoming_receiver.given()),
            mark_flag: self.ends.closed.flag(),
            mark: self.ends.closed.uses(),
        }
    }
}

impl ClientView {
    /// The client after it looked whether the connection is closed. A client that has disconnected
    /// does not look.
    pub open spec fn looking(self, closed: bool) -> ClientView {
        if self.is_disconnected {
            self
        } else {
            ClientView { mark: self.mark.push(FlagUse::Read(closed)), ..self }
        }
    }

    /// The client after it disconnected. The connection is marked as closed.
    pub open spec fn disconnecting(self) -> ClientView {
        ClientView {
            is_disconnected: true,
            mark: self.mark.push(FlagUse::Written(true)),
            ..self
        }
    }

    /// What receiving does, where `closed` is whether the connection was closed, and `given` is the
    /// packet that the task gave, if it was asked.
    pub open spec fn receives(
        self,
        after: ClientView,
        closed: bool,
        given: Option<Seq<u8>>,
        buffer_before: Seq<u8>,
        buffer_after: Seq<u8>,
        answer: Result<(usize, SocketAddr), SocketError>,
    ) -> bool {
        if self.is_disconnected || closed {
            &&& after == self.looking(closed)
            &&& buffer_after == buffer_before
            &&& answer == Err::<(usize, SocketAddr), SocketError>(SocketError::ConnectionAborted)
        } else {
            &&& after == ClientView {
                incoming: self.incoming.push(given),
                ..self.looking(closed)
            }
            &&& packet_taken(self.server_address, given, buffer_before, buffer_after, answer)
        }
    }

    /// What sending does, where `closed` is whether the connection was closed, and `outcome` is what
    /// became of the packet, if it was handed over.
    pub open spec fn sends(
        self,
        after: ClientView,
        addr: SocketAddr,
        packet: Seq<u8>,
        kind: Option<PacketKind>,
        closed: bool,
        outcome: PutOutcome,
        answer: Result<(), SocketError>,
    ) -> bool {
        let looked = self.looking(closed);
        if self.is_disconnected || closed {
            &&& after == looked
            &&& answer == Err::<(), SocketError>(SocketError::ConnectionAborted)
        } else if addr != self.server_address {
            &&& after == looked.disconnecting()
            &&& answer == Err::<(), SocketError>(SocketError::AddrNotAvailable)
        } else if !self.sent_connection_request {
            match kind {
                None => {
                    &&& after == looked
                    &&& answer == Err::<(), SocketError>(SocketError::UnknownPacket)
                },
                Some(PacketKind::Other) => {
                    &&& after == looked
                    &&& answer == Ok::<(), SocketError>(())
                },
                Some(PacketKind::ConnectionRequest) => {
                    &&& after == ClientView {
                        sent_connection_request: true,
                        requests: self.requests.push((packet, outcome)),
                        ..looked
                    }
                    &&& answer == Ok::<(), SocketError>(())
                },
            }
        } else {
            let sent = ClientView { outgoing: self.outgoing.push((packet, outcome)), ..looked };
            if outcome == PutOutcome::Taken {
                &&& after == sent
                &&& answer == Ok::<(), SocketError>(())
            } else {
                &&& after == sent.disconnecting()
                &&& answer == Err::<(), SocketError>(SocketError::ConnectionAborted)
            }
        }
    }
}

/// What becomes of a packet that the task gave, if it gave one. It is copied to the front of the
/// buffer, unless it does not fit.
pub open spec fn packet_taken(
    server_address: SocketAddr,
    given: Option<Seq<u8>>,
    buffer_before: Seq<u8>,
    buffer_after: Seq<u8>,
    answer: Result<(usize, SocketAddr), SocketError>,
) -> bool {
    match given {
        None => {
            &&& buffer_after == buffer_before
            &&& answer == Err::<(usize, SocketAddr), SocketError>(SocketError::WouldBlock)
        },
        Some(packet) => if packet.len() > buffer_before.len() {
            &&& buffer_after == buffer_before
            &&& answer == Err::<(usize, SocketAddr), SocketError>(SocketError::InvalidData)
        } else {
            &&& buffer_after == packet + buffer_before.skip(packet.len() as int)
            &&& answer == Ok::<(usize, SocketAddr), SocketError>(
                (packet.len() as usize, server_address),
            )
        },
    }
}

/// Takes in what the task gave when it was asked for a packet.
pub fn take_packet(server_address: SocketAddr, packet: Option<Vec<u8>>, buffer: &mut [u8]) -> (r:
    Result<(usize, SocketAddr), SocketError>)
    ensures
        packet_taken(
            server_address,
            crate::web_url::view_of(packet),
            old(buffer)@,
            final(buffer)@,
            r,
        ),
{
    match packet {
        Some(packet) => {
            if packet.len() > buffer.len() {
                Err(SocketError::InvalidData)
            } else {
                copy_to_front(buffer, packet.as_slice());
                Ok((packet.len(), server_address))
            }
        },
        None => Err(SocketError::WouldBlock),
    }
}

impl WebSocketClient {
    /// Makes a new WebSocket client that will connect to a WebSocket server.
    ///
    /// Fails if a socket address could not be extracted from the server's web address, or if that
    /// is not the address of a web socket.
    pub fn new(config: WebSocketClientConfig, ends: ClientEnds) -> (r: Result<
        Self,
        WebSocketClientError,
    >)
        ensures
            ({
                let url = config.server_url@;
                let address = address_of(
                    crate::web_url::url_host(url),
                    crate::web_url::url_port(url),
                );
                let tls = tls_of(crate::web_url::url_scheme(url));
                match r {
                    Ok(client) => {
                        &&& address is Ok
                        &&& tls is Some
                        &&& client@ == ClientView {
                            server_url: url,
                            server_address: address->Ok_0,
                            server_has_tls: tls->0,
                            is_disconnected: false,
                            sent_connection_request: false,
                            request_end: ends.connect_req_sender.end(),
                            requests: handed_bytes(ends.connect_req_sender.handed()),
                            outgoing_end: ends.outgoing_sender.end(),
                            outgoing: handed_bytes(ends.outgoing_sender.handed()),
                            incoming_end: ends.incoming_receiver.end(),
                            incoming: given_bytes(ends.incoming_receiver.given()),
                            mark_flag: ends.closed.flag(),
                            mark: ends.closed.uses(),
                        }
                    },
                    Err(e) => if address is Err {
                        address == Err::<SocketAddr, ErrorView>(e@)
                    } else {
                        tls is None && e@ == (ErrorView::UnsupportedScheme {
                            scheme: match crate::web_url::url_scheme(url) {
                                Some(scheme) => scheme,
                                None => Seq::empty(),
                            },
                        })
                    },
                }
            }),
    {
        let server_address = match config.server_address() {
            Ok(server_address) => server_address,
            Err(e) => {
                return Err(e);
            },
        };
        let scheme = config.server_url.scheme();
        let server_has_tls = match tls_of_scheme(&scheme) {
            Some(server_has_tls) => server_has_tls,
            None => {
                let scheme = match scheme {
                    Some(scheme) => scheme,
                    None => String::new(),
                };
                assert(crate::web_url::url_scheme(config.server_url@) is None ==> scheme@
                    =~= Seq::empty());
                return Err(WebSocketClientError::UnsupportedScheme { scheme });
            },
        };
        Ok(
            WebSocketClient {
                server_url: config.server_url,
                server_address,
                server_has_tls,
                ends,
                is_disconnected: false,
                sent_connection_request: false,
            },
        )
    }

    /// Whether the client has disconnected, or the connection is closed, where `closed` tells
    /// whether the task has marked the connection as closed.
    pub fn is_disconnected_if(&self, closed: bool) -> (r: bool)
        ensures
            r == (self@.is_disconnected || closed),
    {
        self.is_disconnected || closed
    }

    /// Whether the client has disconnected, or the connection is closed.
    ///
    /// Whether the connection is closed is decided by the task.
    /// [`WebSocketClient::is_disconnected_if`] says what the answer is either way.
    pub fn is_disconnected(&self) -> (r: bool)
        ensures
            exists|closed: bool| #[trigger]
                self.mark_seen(closed) && r == (self@.is_disconnected || closed),
    {
        let closed = self.ends.closed.peek();
        assert(self.mark_seen(closed));
        self.is_disconnected_if(closed)
    }

    /// The mark of the task was looked at, and told whether the connection is closed.
    pub closed spec fn mark_seen(&self, closed: bool) -> bool {
        call_ensures(SharedFlag::peek, (&self.ends.closed,), closed)
    }

    /// Where the server is.
    pub fn server_url(&self) -> (r: &Url)
        ensures
            r@ == self@.server_url,
    {
        &self.server_url
    }

    /// The address of the server.
    pub fn server_address(&self) -> (r: SocketAddr)
        ensures
            r == self@.server_address,
    {
        self.server_address
    }

    /// Disconnects from the server: nothing is sent or received from now on, and the connection is
    /// marked as closed.
    pub fn disconnect(&mut self)
        ensures
            final(self)@ == old(self)@.disconnecting(),
    {
        self.is_disconnected = true;
        self.ends.closed.write(true);
    }

    /// Whether the socket encrypts.
    pub fn is_encrypted(&self) -> (r: bool)
        ensures
            r == self@.server_has_tls,
    {
        self.server_has_tls
    }

    /// Whether packets always arrive: they do.
    pub fn is_reliable(&self) -> (r: bool)
        ensures
            r,
    {
        true
    }

    /// The address of the client: WebSocket clients don't have a meaningful address.
    pub fn addr(&self) -> (r: Result<SocketAddr, SocketError>)
        ensures
            r == Err::<SocketAddr, SocketError>(SocketError::AddrNotAvailable),
    {
        Err(SocketError::AddrNotAvailable)
    }

    /// Whether the client has disconnected, or the connection is closed.
    pub fn is_closed(&mut self) -> (r: bool)
        ensures
            exists|closed: bool| #[trigger]
                old(self)@.looking(closed) == final(self)@ && r == (old(self)@.is_disconnected
                    || closed),
    {
        if self.is_disconnected {
            assert(old(self)@.looking(true) == self@);
            return true;
        }
        let closed = self.ends.closed.read();
        assert(old(self)@.looking(closed) == self@);
        closed
    }

    /// Disconnects from the server.
    pub fn close(&mut self)
        ensures
            final(self)@ == old(self)@.disconnecting(),
    {
        self.disconnect();
    }

    /// Checks for a disconnect: a client whose connection is closed disconnects, unless it has.
    pub fn preupdate(&mut self)
        ensures
            old(self)@.is_disconnected ==> final(self)@ == old(self)@,
            !old(self)@.is_disconnected ==> {
                ||| final(self)@ == old(self)@.looking(false)
                ||| final(self)@ == old(self)@.looking(true).disconnecting()
            },
    {
        if !self.is_disconnected {
            let closed = self.is_closed();
            if closed {
                self.disconnect();
            }
        }
    }

    /// Receives the next packet of the server. It is copied to the front of the buffer, and its
    /// length and the address of the server are returned.
    pub fn try_recv(&mut self, buffer: &mut [u8]) -> (r: Result<(usize, SocketAddr), SocketError>)
        ensures
            exists|closed: bool, given: Option<Seq<u8>>| #[trigger]
                old(self)@.receives(
                    final(self)@,
                    closed,
                    given,
                    old(buffer)@,
                    final(buffer)@,
                    r,
                ),
    {
        let closed = self.is_closed();
        if closed {
            let r: Result<(usize, SocketAddr), SocketError> = Err(SocketError::ConnectionAborted);
            assert(old(self)@.receives(self@, true, None, old(buffer)@, buffer@, r));
            return r;
        }
        let received = self.ends.incoming_receiver.next();
        let ghost given = crate::web_url::view_of(received);
        assert(self@.incoming =~= old(self)@.incoming.push(given));
        let r = take_packet(self.server_address, received, buffer);
        assert(old(self)@.receives(self@, false, given, old(buffer)@, buffer@, r));
        r
    }

    /// Does nothing: all that has to be done after an update is done by the task.
    pub fn postupdate(&mut self)
        ensures
            final(self)@ == old(self)@,
    {
    }

    /// Sends a packet to the server.
    ///
    /// The first packet must be a connection request, which makes the task connect. Before that,
    /// other packets are ignored. A packet to anybody but the server is a mistake that ends the
    /// connection. The kind of the packet is missing if it is none that is known.
    pub fn send(&mut self, addr: SocketAddr, packet: &[u8], kind: Option<PacketKind>) -> (r: Result<
        (),
        SocketError,
    >)
        ensures
            exists|closed: bool, outcome: PutOutcome| #[trigger]
                old(self)@.sends(final(self)@, addr, packet@, kind, closed, outcome, r),
    {
        let closed = self.is_closed();
        if closed {
            let r: Result<(), SocketError> = Err(SocketError::ConnectionAborted);
            assert(old(self)@.sends(self@, addr, packet@, kind, true, PutOutcome::Taken, r));
            return r;
        }
        if addr != self.server_address {
            self.disconnect();
            let r: Result<(), SocketError> = Err(SocketError::AddrNotAvailable);
            assert(old(self)@.sends(self@, addr, packet@, kind, false, PutOutcome::Taken, r));
            return r;
        }
        // If we are just connecting for the first time, then the first message to send must be a
        // connection request.
        if !self.sent_connection_request {
            let mut outcome = PutOutcome::Taken;
            let r: Result<(), SocketError> = match kind {
                None => Err(SocketError::UnknownPacket),
                // Ignore the packet if it is not a connection request.
                Some(PacketKind::Other) => Ok(()),
                Some(PacketKind::ConnectionRequest) => {
                    let data = vstd::slice::slice_to_vec(packet);
                    outcome = self.ends.connect_req_sender.put(data);
                    assert(self@.requests =~= old(self)@.requests.push((packet@, outcome)));
                    self.sent_connection_request = true;
                    Ok(())
                },
            };
            assert(old(self)@.sends(self@, addr, packet@, kind, false, outcome, r));
            return r;
        }
        // Forward packet from the client to the remote server.
        let data = vstd::slice::slice_to_vec(packet);
        let outcome = self.ends.outgoing_sender.put(data);
        assert(self@.outgoing =~= old(self)@.outgoing.push((packet@, outcome)));
        let r: Result<(), SocketError> = match outcome {
            PutOutcome::Taken => Ok(()),
            _ => {
                self.disconnect();
                Err(SocketError::ConnectionAborted)
            },
        };
        assert(old(self)@.sends(self@, addr, packet@, kind, false, outcome, r));
        r
    }
}

/// The web address that a client connects to, which carries its connection request.
pub fn connect_url(server_url: &Url, request: &[u8]) -> (r: Option<Url>)
    ensures
        ({
            let query = crate::percent::ascii_text(
                crate::request::connect_query_bytes(request@),
            );
            crate::web_url::view_of(r) == crate::web_url::if_room(
                server_url@,
                crate::web_url::query_growth(query),
                crate::web_url::url_with_query(server_url@, query),
            )
        }),
        crate::web_url::url_host(server_url@) is Some && !(crate::web_url::url_host(
            server_url@,
        )->0 is Domain) && crate::web_url::has_room(
            server_url@,
            crate::web_url::query_growth(
                crate::percent::ascii_text(crate::request::connect_query_bytes(request@)),
            ),
        ) ==> {
            &&& r is Some
            &&& crate::web_url::url_scheme(r->0@) == crate::web_url::url_scheme(server_url@)
            &&& crate::web_url::url_host(r->0@) == crate::web_url::url_host(server_url@)
            &&& crate::web_url::url_port(r->0@) == crate::web_url::url_port(server_url@)
        },
{
    let query = connect_query(request);
    server_url.with_query(query.as_str())
}

/// What the task that makes the connection of a client ran into.
#[derive(Debug, Clone, Copy, PartialEq, Eq, Structural)]
pub enum TaskEvent {
    /// The client is gone before it had a connection request.
    NoRequest,
    /// The web address cannot be connected to.
    BadAddress,
    /// The connection is there.
    Opened,
    /// The connection could not be made.
    NotOpened,
    /// A packet of the server came in, which the client took or did not take.
    Incoming { taken: bool },
    /// A packet for the server was to go out. The connection was open or not, and the packet went
    /// out or not.
    Outgoing { open: bool, sent: bool },
    /// The client will send nothing more.
    OutgoingOver,
    /// The connection failed.
    Failed,
    /// The connection was closed by the other side.
    ClosedByServer,
    /// The client wants to close the connection.
    CloseWanted,
}

/// What the task does next.
#[derive(Debug, Clone, Copy, PartialEq, Eq, Structural)]
pub struct TaskStep {
    /// It marks the connection as closed.
    pub mark_closed: bool,
    /// It passes on the wish to close the connection.
    pub want_close: bool,
    /// It closes the connection.
    pub close_socket: bool,
    /// It stops waiting for more of the same.
    pub stop: bool,
}

/// The task goes on only with what went well. Whatever went wrong marks the connection as closed.
/// Once there was a connection to be made, the part of the task that closes it is told, and closes
/// it itself where a packet could not be sent.
pub open spec fn next_task_step(event: TaskEvent) -> TaskStep {
    match event {
        TaskEvent::Opened
        | TaskEvent::Incoming { taken: true }
        | TaskEvent::Outgoing { open: true, sent: true } => TaskStep {
            mark_closed: false,
            want_close: false,
            close_socket: false,
            stop: false,
        },
        TaskEvent::NoRequest | TaskEvent::BadAddress => TaskStep {
            mark_closed: true,
            want_close: false,
            close_socket: false,
            stop: true,
        },
        TaskEvent::Incoming { taken: false }
        | TaskEvent::ClosedByServer
        | TaskEvent::Failed => TaskStep {
            mark_closed: true,
            want_close: true,
            close_socket: false,
            stop: false,
        },
        TaskEvent::NotOpened
        | TaskEvent::OutgoingOver
        | TaskEvent::Outgoing { open: false, sent: _ } => TaskStep {
            mark_closed: true,
            want_close: true,
            close_socket: false,
            stop: true,
        },
        TaskEvent::Outgoing { open: true, sent: false } => TaskStep {
            mark_closed: true,
            want_close: true,
            close_socket: true,
            stop: true,
        },
        TaskEvent::CloseWanted => TaskStep {
            mark_closed: true,
            want_close: false,
            close_socket: true,
            stop: true,
        },
    }
}

/// Decides what the task does next.
pub fn task_step(event: TaskEvent) -> (r: TaskStep)
    ensures
        r == next_task_step(event),
{
    let fine = match event {
        TaskEvent::Opened => true,
        TaskEvent::Incoming { taken } => taken,
        TaskEvent::Outgoing { open, sent } => open && sent,
        _ => false,
    };
    let want_close = match event {
        TaskEvent::NoRequest | TaskEvent::BadAddress | TaskEvent::CloseWanted => false,
        _ => !fine,
    };
    let close_socket = match event {
        TaskEvent::Outgoing { open, sent } => open && !sent,
        TaskEvent::CloseWanted => true,
        _ => false,
    };
    let stop = match event {
        TaskEvent::Incoming { .. } | TaskEvent::ClosedByServer | TaskEvent::Failed => false,
        _ => !fine,
    };
    TaskStep { mark_closed: !fine, want_close, close_socket, stop }
}

/// A client that has disconnected sends nothing and receives nothing: every attempt is answered
/// with the same error and changes nothing.
pub proof fn disconnected_clients_are_idle(
    client: ClientView,
    after: ClientView,
    addr: SocketAddr,
    packet: Seq<u8>,
    kind: Option<PacketKind>,
    closed: bool,
    outcome: PutOutcome,
    given: Option<Seq<u8>>,
    buffer_before: Seq<u8>,
    buffer_after: Seq<u8>,
    sent: Result<(), SocketError>,
    received: Result<(usize, SocketAddr), SocketError>,
)
    requires
        client.is_disconnected,
    ensures
        client.sends(after, addr, packet, kind, closed, outcome, sent) ==> after == client && sent
            == Err::<(), SocketError>(SocketError::ConnectionAborted),
        client.receives(after, closed, given, buffer_before, buffer_after, received) ==> after
            == client && buffer_after == buffer_before && received == Err::<
            (usize, SocketAddr),
            SocketError,
        >(SocketError::ConnectionAborted),
{
}

/// Nothing reaches the server before a connection request: a client that has handed over no
/// request hands over a packet only if it is one, and hands it over as the request.
pub proof fn requests_come_first(
    client: ClientView,
    after: ClientView,
    addr: SocketAddr,
    packet: Seq<u8>,
    kind: Option<PacketKind>,
    closed: bool,
    outcome: PutOutcome,
    sent: Result<(), SocketError>,
)
    requires
        !client.sent_connection_request,
        client.sends(after, addr, packet, kind, closed, outcome, sent),
    ensures
        after.sent_connection_request ==> kind == Some(PacketKind::ConnectionRequest)
            && after.requests == client.requests.push((packet, outcome)),
        after.outgoing == client.outgoing,
{
}

/// A client that has disconnected sends nothing. Any other client looks once whether the connection is
/// closed, and sends nothing if it is.
pub proof fn closed_clients_send_nothing(
    before: WebSocketClient,
    after: WebSocketClient,
    addr: SocketAddr,
    packet: &[u8],
    kind: Option<PacketKind>,
    answer: Result<(), SocketError>,
)
    requires
        exists|client: &mut WebSocketClient|
            *client == before && *final(client) == after && #[trigger] call_ensures(
                WebSocketClient::send,
                (client, addr, packet, kind),
                answer,
            ),
    ensures
        after@ == (ClientView {
            is_disconnected: after@.is_disconnected,
            sent_connection_request: after@.sent_connection_request,
            requests: after@.requests,
            outgoing: after@.outgoing,
            mark: after@.mark,
            ..before@
        }),
        before@.is_disconnected ==> after@ == before@ && answer == Err::<(), SocketError>(
            SocketError::ConnectionAborted,
        ),
        !before@.is_disconnected ==> {
            &&& after@.mark.len() == before@.mark.len() + if after@.is_disconnected {
                2int
            } else {
                1int
            }
            &&& forall|i: int|
                0 <= i < before@.mark.len() ==> #[trigger] after@.mark[i] == before@.mark[i]
            &&& after@.mark[before@.mark.len() as int] is Read
        },
        !before@.is_disconnected && after@.mark[before@.mark.len() as int] == FlagUse::Read(true) ==> {
            &&& answer == Err::<(), SocketError>(SocketError::ConnectionAborted)
            &&& after@.requests == before@.requests
            &&& after@.outgoing == before@.outgoing
            &&& after@.sent_connection_request == before@.sent_connection_request
        },
        after@.is_disconnected && !before@.is_disconnected ==> after@.mark.last()
            == FlagUse::Written(true),
{
}

/// A client that has sent its request and is open hands every packet for the server over to be sent,
/// as it is and whatever its kind. The answer is fine exactly if the packet was taken, and the
/// connection is over if not.
pub proof fn open_clients_send_everything(
    before: WebSocketClient,
    after: WebSocketClient,
    addr: SocketAddr,
    packet: &[u8],
    kind: Option<PacketKind>,
    answer: Result<(), SocketError>,
)
    requires
        exists|client: &mut WebSocketClient|
            *client == before && *final(client) == after && #[trigger] call_ensures(
                WebSocketClient::send,
                (client, addr, packet, kind),
                answer,
            ),
        before@.sent_connection_request,
        addr == before@.server_address,
        !before@.is_disconnected,
        after@.mark[before@.mark.len() as int] == FlagUse::Read(false),
    ensures
        after@.outgoing.len() == before@.outgoing.len() + 1,
        after@.outgoing.last().0 == packet@,
        after@.outgoing.drop_last() == before@.outgoing,
        after@.requests == before@.requests,
        after@.sent_connection_request,
        answer is Ok <==> after@.outgoing.last().1 == PutOutcome::Taken,
        answer is Err ==> answer == Err::<(), SocketError>(SocketError::ConnectionAborted),
        after@.is_disconnected <==> after@.outgoing.last().1 != PutOutcome::Taken,
{
}

/// An open client that has not sent its request waits for it: a request is handed over as the request,
/// other packets are left out, and what is no packet is a mistake. What became of the request does not
/// matter here, since the task tells.
pub proof fn open_clients_wait_for_the_request(
    before: WebSocketClient,
    after: WebSocketClient,
    addr: SocketAddr,
    packet: &[u8],
    kind: Option<PacketKind>,
    answer: Result<(), SocketError>,
)
    requires
        exists|client: &mut WebSocketClient|
            *client == before && *final(client) == after && #[trigger] call_ensures(
                WebSocketClient::send,
                (client, addr, packet, kind),
                answer,
            ),
        !before@.sent_connection_request,
        addr == before@.server_address,
        !before@.is_disconnected,
        after@.mark[before@.mark.len() as int] == FlagUse::Read(false),
    ensures
        after@.outgoing == before@.outgoing,
        !after@.is_disconnected,
        answer is Ok <==> kind is Some,
        kind is None ==> answer == Err::<(), SocketError>(SocketError::UnknownPacket),
        after@.sent_connection_request <==> kind == Some(PacketKind::ConnectionRequest),
        kind != Some(PacketKind::ConnectionRequest) ==> after@.requests == before@.requests,
        kind == Some(PacketKind::ConnectionRequest) ==> {
            &&& after@.requests.len() == before@.requests.len() + 1
            &&& after@.requests.last().0 == packet@
            &&& after@.requests.drop_last() == before@.requests
        },
{
    if kind == Some(PacketKind::ConnectionRequest) {
        assert(after@.requests.drop_last() =~= before@.requests);
    }
}

/// A packet for anybody but the server is not sent, and ends the connection of an open client.
pub proof fn clients_send_to_nobody_else(
    before: WebSocketClient,
    after: WebSocketClient,
    addr: SocketAddr,
    packet: &[u8],
    kind: Option<PacketKind>,
    answer: Result<(), SocketError>,
)
    requires
        exists|client: &mut WebSocketClient|
            *client == before && *final(client) == after && #[trigger] call_ensures(
                WebSocketClient::send,
                (client, addr, packet, kind),
                answer,
            ),
        addr != before@.server_address,
    ensures
        answer is Err,
        after@.requests == before@.requests,
        after@.outgoing == before@.outgoing,
        !before@.is_disconnected && after@.mark[before@.mark.len() as int] == FlagUse::Read(false)
            ==> after@.is_disconnected && answer == Err::<(), SocketError>(
            SocketError::AddrNotAvailable,
        ),
{
}

/// An open client asks the task for one packet. A packet that fits is the front of the buffer, comes
/// from the server, and leaves the rest of the buffer as it is. One that does not fit is a mistake, and
/// if there is none the client has to wait. A client that is not open receives nothing.
pub proof fn clients_receive_what_the_task_gives(
    before: WebSocketClient,
    after: WebSocketClient,
    buffer_before: Seq<u8>,
    buffer_after: Seq<u8>,
    answer: Result<(usize, SocketAddr), SocketError>,
)
    requires
        exists|client: &mut WebSocketClient, buffer: &mut [u8]|
            *client == before && *final(client) == after && buffer@ == buffer_before
                && (*final(buffer))@ == buffer_after && #[trigger] call_ensures(
                WebSocketClient::try_recv,
                (client, buffer),
                answer,
            ),
    ensures
        after@ == (ClientView { incoming: after@.incoming, mark: after@.mark, ..before@ }),
        before@.is_disconnected ==> after@ == before@,
        !before@.is_disconnected ==> {
            &&& after@.mark.len() == before@.mark.len() + 1
            &&& after@.mark.last() is Read
            &&& after@.mark.drop_last() == before@.mark
        },
        before@.is_disconnected || after@.mark.last() == FlagUse::Read(true) ==> {
            &&& answer == Err::<(usize, SocketAddr), SocketError>(SocketError::ConnectionAborted)
            &&& after@.incoming == before@.incoming
            &&& buffer_after == buffer_before
        },
        !before@.is_disconnected && after@.mark.last() == FlagUse::Read(false) ==> {
            &&& after@.incoming.len() == before@.incoming.len() + 1
            &&& after@.incoming.drop_last() == before@.incoming
            &&& buffer_after.len() == buffer_before.len()
            &&& answer == Err::<(usize, SocketAddr), SocketError>(SocketError::WouldBlock)
                <==> after@.incoming.last() is None
            &&& answer == Err::<(usize, SocketAddr), SocketError>(SocketError::InvalidData)
                <==> after@.incoming.last() is Some && after@.incoming.last()->0.len()
                > buffer_before.len()
            &&& answer is Err ==> buffer_after == buffer_before
            &&& after@.incoming.last() is Some && after@.incoming.last()->0.len()
                <= buffer_before.len() ==> {
                let n = after@.incoming.last()->0.len() as int;
                &&& answer is Ok
                &&& answer->Ok_0.0 == n
                &&& answer->Ok_0.1 == before@.server_address
                &&& buffer_after.take(n) == after@.incoming.last()->0
                &&& buffer_after.skip(n) == buffer_before.skip(n)
            }
        },
{
    let (client, buffer) = choose|client: &mut WebSocketClient, buffer: &mut [u8]|
        *client == before && *final(client) == after && buffer@ == buffer_before
            && (*final(buffer))@ == buffer_after && #[trigger] call_ensures(
            WebSocketClient::try_recv,
            (client, buffer),
            answer,
        );
    let (closed, given) = choose|closed: bool, given: Option<Seq<u8>>| #[trigger]
        before@.receives(after@, closed, given, buffer_before, buffer_after, answer);
    if !before@.is_disconnected {
        assert(after@.mark.drop_last() =~= before@.mark);
        if !closed {
            assert(after@.incoming.drop_last() =~= before@.incoming);
            if given is Some && given->0.len() <= buffer_before.len() {
                assert(buffer_before.len() == vstd::slice::spec_slice_len(&*buffer));
                let n = given->0.len() as int;
                assert(buffer_after.take(n) =~= given->0);
                assert(buffer_after.skip(n) =~= buffer_before.skip(n));
            }
        }
    }
}

/// A client that learns that its connection is closed has disconnected from then on, and marks that.
/// One whose connection is open stays as it is.
pub proof fn clients_notice_a_closed_connection(before: WebSocketClient, after: WebSocketClient)
    requires
        exists|client: &mut WebSocketClient|
            *client == before && *final(client) == after && #[trigger] call_ensures(
                WebSocketClient::preupdate,
                (client,),
                (),
            ),
    ensures
        before@.is_disconnected ==> after@ == before@,
        !before@.is_disconnected ==> after@.mark.len() > before@.mark.len() && (
        after@.is_disconnected <==> after@.mark[before@.mark.len() as int] == FlagUse::Read(true)),
        after@.is_disconnected && !before@.is_disconnected ==> after@.mark.last()
            == FlagUse::Written(true),
        after@ == (ClientView {
            is_disconnected: after@.is_disconnected,
            mark: after@.mark,
            ..before@
        }),
{
}

/// Closing, or disconnecting, is for good: the connection is marked as closed, and nothing is handed over.
pub proof fn closing_is_final(before: WebSocketClient, after: WebSocketClient)
    requires
        exists|client: &mut WebSocketClient|
            *client == before && *final(client) == after && (#[trigger] call_ensures(
                WebSocketClient::close,
                (client,),
                (),
            ) || call_ensures(WebSocketClient::disconnect, (client,), ())),
    ensures
        after@.is_disconnected,
        after@ == (ClientView {
            is_disconnected: true,
            mark: before@.mark.push(FlagUse::Written(true)),
            ..before@
        }),
{
}

/// A client can be set up exactly if the web address of the server has an IP address for its host and
/// the scheme of a web socket. It talks to that host, on the port of the web address or on port zero,
/// and encrypts exactly if the scheme is `wss`. It starts open, without having sent anything.
pub proof fn clients_follow_the_url(
    config: WebSocketClientConfig,
    ends: ClientEnds,
    r: Result<WebSocketClient, WebSocketClientError>,
)
    requires
        call_ensures(WebSocketClient::new, (config, ends), r),
    ensures
        ({
            let host = crate::web_url::url_host(config.server_url@);
            let port = crate::web_url::url_port(config.server_url@);
            let scheme = crate::web_url::url_scheme(config.server_url@);
            &&& r is Ok <==> host is Some && !(host->0 is Domain) && (scheme == Some("ws"@) || scheme
                == Some("wss"@))
            &&& r is Err && r->Err_0 is MissingHost <==> host is None
            &&& r is Err && r->Err_0 is DomainHost <==> host is Some && host->0 is Domain
            &&& r matches Ok(client) ==> {
                &&& client@.server_url == config.server_url@
                &&& client@.server_has_tls <==> scheme == Some("wss"@)
                &&& !client@.is_disconnected
                &&& !client@.sent_connection_request
                &&& client@.request_end == ends.connect_req_sender.end()
                &&& client@.outgoing_end == ends.outgoing_sender.end()
                &&& client@.incoming_end == ends.incoming_receiver.end()
                &&& client@.mark_flag == ends.closed.flag()
                &&& client@.requests.len() == ends.connect_req_sender.handed().len()
                &&& client@.outgoing.len() == ends.outgoing_sender.handed().len()
                &&& client@.incoming.len() == ends.incoming_receiver.given().len()
                &&& client@.mark == ends.closed.uses()
                &&& host matches Some(crate::web_url::HostView::Ipv4(ip)) ==> (
                client@.server_address matches SocketAddr::V4(v4) && v4.ip == ip && v4.port
                    == if port is Some {
                    port->0
                } else {
                    0
                })
                &&& host matches Some(crate::web_url::HostView::Ipv6(ip)) ==> (
                client@.server_address matches SocketAddr::V6(v6) && v6.ip == ip && v6.port
                    == if port is Some {
                    port->0
                } else {
                    0
                })
            }
        }),
{
    reveal_strlit("ws");
    reveal_strlit("wss");
    assert("ws"@.len() != "wss"@.len());
}

/// A client connects to the host and the port of its server, by the same scheme. Only the query
/// changes. It can do so unless the address would grow beyond what 32 bits can count.
pub proof fn requests_go_to_the_server(
    server_url: Url,
    request: &[u8],
    query: String,
    r: Option<Url>,
)
    requires
        call_ensures(connect_url, (&server_url, request), r),
        call_ensures(connect_query, (request,), query),
        crate::web_url::url_host(server_url@) is Some,
        !(crate::web_url::url_host(server_url@)->0 is Domain),
    ensures
        r matches Some(url) ==> {
            &&& crate::web_url::url_with_query(server_url@, query@) == Some(url@)
            &&& crate::web_url::url_scheme(url@) == crate::web_url::url_scheme(server_url@)
            &&& crate::web_url::url_host(url@) == crate::web_url::url_host(server_url@)
            &&& crate::web_url::url_port(url@) == crate::web_url::url_port(server_url@)
        },
        r is None ==> (crate::web_url::canonical_url(server_url@) matches Some(text)
            && vstd::utf8::encode_utf8(text).len() + 1 + 3 * vstd::utf8::encode_utf8(query@).len()
            > u32::MAX),
{
}

/// The address of a server is that of its host and its port. There is none without a host, and none for a
/// domain name. A missing port counts as zero.
pub proof fn addresses_are_made_of_host_and_port(
    host: Option<Host>,
    port: Option<u16>,
    r: Result<SocketAddr, WebSocketClientError>,
)
    requires
        call_ensures(address_of_parts, (host, port), r),
    ensures
        host is None <==> r is Err && r->Err_0 is MissingHost,
        host is Some && host->0 is Domain <==> r is Err && r->Err_0 is DomainHost,
        r is Err ==> r->Err_0 is MissingHost || r->Err_0 is DomainHost,
        host matches Some(Host::Ipv4(ip)) ==> (r matches Ok(SocketAddr::V4(v4)) && v4.ip == ip
            && v4.port == if port is Some {
            port->0
        } else {
            0
        }),
        host matches Some(Host::Ipv6(ip)) ==> (r matches Ok(SocketAddr::V6(v6)) && v6.ip == ip
            && v6.port == if port is Some {
            port->0
        } else {
            0
        }),
{
}

/// Only `wss` encrypts, and only `ws` and `wss` are schemes of web sockets.
pub proof fn only_one_scheme_encrypts(scheme: Option<String>, r: Option<bool>)
    requires
        call_ensures(tls_of_scheme, (&scheme,), r),
    ensures
        r == Some(true) <==> scheme is Some && scheme->0@ == "wss"@,
        r == Some(false) <==> scheme is Some && scheme->0@ == "ws"@,
{
    reveal_strlit("ws");
    reveal_strlit("wss");
    assert("ws"@.len() != "wss"@.len());
}

/// What the task gave is taken in as it is. A packet that fits is the front of the buffer and comes from
/// the server, one that does not is a mistake, and without one there is nothing to receive.
pub proof fn given_packets_are_taken_in(
    server_address: SocketAddr,
    packet: Option<Vec<u8>>,
    buffer_before: Seq<u8>,
    buffer_after: Seq<u8>,
    r: Result<(usize, SocketAddr), SocketError>,
)
    requires
        exists|buffer: &mut [u8]|
            buffer@ == buffer_before && (*final(buffer))@ == buffer_after && #[trigger] call_ensures(
                take_packet,
                (server_address, packet, buffer),
                r,
            ),
    ensures
        packet is None <==> r == Err::<(usize, SocketAddr), SocketError>(SocketError::WouldBlock),
        packet is Some && packet->0@.len() > buffer_before.len() <==> r == Err::<
            (usize, SocketAddr),
            SocketError,
        >(SocketError::InvalidData),
        r is Err ==> buffer_after == buffer_before,
        packet is Some && packet->0@.len() <= buffer_before.len() ==> {
            let n = packet->0@.len() as int;
            &&& r is Ok
            &&& r->Ok_0.0 == n
            &&& r->Ok_0.1 == server_address
            &&& buffer_after.take(n) == packet->0@
            &&& buffer_after.skip(n) == buffer_before.skip(n)
        },
{
    if packet is Some && packet->0@.len() <= buffer_before.len() {
        let n = packet->0@.len() as int;
        assert(packet->0.len() == packet->0@.len());
        assert(buffer_after.take(n) =~= packet->0@);
        assert(buffer_after.skip(n) =~= buffer_before.skip(n));
    }
}

/// The task goes on as before after what went well, which is all that does not mark the connection as
/// closed. It stops at once where there is nothing more to wait for, and closes the connection itself
/// where the client wants that or an open connection did not take a packet. All that goes wrong with a
/// connection is passed on to where it is closed.
pub proof fn tasks_end_with_the_connection(event: TaskEvent, step: TaskStep)
    requires
        call_ensures(task_step, (event,), step),
    ensures
        !step.mark_closed <==> event is Opened || event == (TaskEvent::Incoming { taken: true })
            || event == (TaskEvent::Outgoing { open: true, sent: true }),
        !step.mark_closed ==> !step.want_close && !step.close_socket && !step.stop,
        step.close_socket <==> event is CloseWanted || event == (TaskEvent::Outgoing {
            open: true,
            sent: false,
        }),
        step.mark_closed && !step.want_close <==> event is NoRequest || event is BadAddress || event
            is CloseWanted,
        step.mark_closed && !step.stop <==> event == (TaskEvent::Incoming { taken: false }) || event
            is Failed || event is ClosedByServer,
{
}

/// Whether a client is disconnected is known to itself once it has disconnected, and is what the mark of
/// the task says until then. Looking at it changes nothing.
pub proof fn disconnection_is_known(client: WebSocketClient, r: bool, closed: bool, if_closed: bool)
    requires
        call_ensures(WebSocketClient::is_disconnected, (&client,), r),
        call_ensures(WebSocketClient::is_disconnected_if, (&client, closed), if_closed),
    ensures
        client@.is_disconnected ==> r && if_closed,
        !client@.is_disconnected ==> if_closed == closed,
        !client@.is_disconnected ==> call_ensures(
            AtomicBool::load,
            (&*client@.mark_flag, std::sync::atomic::Ordering::Relaxed),
            r,
        ),
{
}

/// A scheme that is none of a web socket is named in the error.
pub proof fn other_schemes_are_named(
    config: WebSocketClientConfig,
    ends: ClientEnds,
    r: Result<WebSocketClient, WebSocketClientError>,
)
    requires
        call_ensures(WebSocketClient::new, (config, ends), r),
        crate::web_url::url_host(config.server_url@) is Some,
        !(crate::web_url::url_host(config.server_url@)->0 is Domain),
        crate::web_url::url_scheme(config.server_url@) is Some,
        r is Err,
    ensures
        r->Err_0 matches WebSocketClientError::UnsupportedScheme { scheme } && scheme@
            == crate::web_url::url_scheme(config.server_url@)->0,
{
}

/// A client that has disconnected is closed. Any other client looks once at the mark of the task, and is
/// closed exactly if that says so.
pub proof fn clients_look_whether_they_are_closed(
    before: WebSocketClient,
    after: WebSocketClient,
    closed: bool,
)
    requires
        exists|client: &mut WebSocketClient|
            *client == before && *final(client) == after && #[trigger] call_ensures(
                WebSocketClient::is_closed,
                (client,),
                closed,
            ),
    ensures
        before@.is_disconnected ==> closed && after@ == before@,
        !before@.is_disconnected ==> after@ == (ClientView {
            mark: before@.mark.push(FlagUse::Read(closed)),
            ..before@
        }),
{
}

} // verus!
