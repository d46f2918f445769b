//! The WebTransport server.

use tokio::sync::mpsc::Receiver;
use vstd::prelude::*;

use crate::addr::SocketAddr;
use crate::cert::{
    generate_dated_certificate, CertificateAndKey, CertificateError, HOUR, MINUTE, TWO_WEEKS,
};
use crate::channels::PutOutcome;
use crate::client_table::{
    ClientConnectionResult, ConnectionRequest, ConnectionRequestResult, Departed, SendStep,
    ServerClient,
};
use crate::destination::{get_server_cert_hash, ServerCertHash, WebServerDestination};
use crate::error::SocketError;
use crate::request::{extract_client_connection_req, RequestError};
use crate::web_server::{ConnectionStep, RequestDesk, ServerEnds, ServerView, WebServer};

verus! {

/// How long a certificate for a [`WebTransportServer`] is valid, in nanoseconds: less than two
/// weeks, as clients demand that know the certificate by its hash.
pub const CERT_VALIDITY: i128 = TWO_WEEKS - MINUTE;

/// Configuration for setting up a [`WebTransportServer`].
#[derive(Debug)]
pub struct WebTransportServerConfig {
    /// The certificate for this server, in DER.
    ///
    /// If the certificate expires, then the server will no longer make connections. This is
    /// relevant for clients that use [`ServerCertHash`], which can only connect to certificates
    /// with an expiration under two weeks.
    pub cert: Vec<u8>,
    /// The private key for this server, in PKCS#8.
    pub key: Vec<u8>,
    /// Socket address to listen on.
    ///
    /// It is recommended to use a pre-defined IP and a wildcard port. The pre-defined IP should be
    /// used when obtaining [`Self::cert`] from your certificate authority (CA).
    ///
    /// Using a wildcard port will reduce your chance of competing with other sockets on your
    /// machine (e.g. other WebTransport servers running different game instances).
    pub listen: SocketAddr,
    /// Maximum number of active clients allowed.
    pub max_clients: usize,
}

impl Clone for WebTransportServerConfig {
    fn clone(&self) -> (r: Self)
        ensures
            r.cert@ == self.cert@,
            r.key@ == self.key@,
            r.listen == self.listen,
            r.max_clients == self.max_clients,
    {
        WebTransportServerConfig {
            cert: vstd::slice::slice_to_vec(self.cert.as_slice()),
            key: vstd::slice::slice_to_vec(self.key.as_slice()),
            listen: self.listen,
            max_clients: self.max_clients,
        }
    }
}

impl WebTransportServerConfig {
    /// Makes a new config with a self-signed certificate tied to the `listen` address.
    ///
    /// Returns the [`ServerCertHash`] of the certificate, which can be used to set up clients.
    ///
    /// The certificate produced will be valid for two weeks (minus one hour and one minute).
    ///
    /// Use [`Self::new_selfsigned_with_proxies`] if you want the certificate to bind to a web
    /// address (e.g. domain name).
    pub fn new_selfsigned(listen: SocketAddr, max_clients: usize) -> (r: Result<
        (Self, ServerCertHash),
        CertificateError,
    >)
        ensures
            configured(listen, seq![WebServerDestination::Addr(listen)], max_clients, r),
            r matches Err(e) ==> e != CertificateError::InvalidName,
    {
        let mut proxies: Vec<WebServerDestination> = Vec::new();
        proxies.push(WebServerDestination::Addr(listen));
        assert(proxies@ =~= seq![WebServerDestination::Addr(listen)]);
        assert(crate::cert::are_valid_names(crate::cert::alt_names(proxies@)));
        Self::new_selfsigned_with_proxies(listen, &proxies, max_clients)
    }

    /// Makes a new config with a self-signed certificate tied to the `proxies` destinations.
    ///
    /// Returns the [`ServerCertHash`] of the certificate, which can be used to set up clients.
    ///
    /// The certificate produced will be valid for two weeks (minus one hour and one minute).
    ///
    /// Use [`Self::new_selfsigned`] if you only want the certificate to bind to the `listen`
    /// address.
    pub fn new_selfsigned_with_proxies(
        listen: SocketAddr,
        proxies: &Vec<WebServerDestination>,
        max_clients: usize,
    ) -> (r: Result<(Self, ServerCertHash), CertificateError>)
        ensures
            configured(listen, proxies@, max_clients, r),
    {
        // The certificate is valid from an hour ago, to adjust for variance in the clocks of clients.
        let made = generate_dated_certificate(proxies, HOUR, CERT_VALIDITY);
        assert(crate::cert::made_for(proxies@, HOUR, CERT_VALIDITY, made));
        config_of(made, listen, max_clients)
    }
}

/// Makes a config of a certificate that was made, with the hash of the certificate.
pub fn config_of(
    made: Result<CertificateAndKey, CertificateError>,
    listen: SocketAddr,
    max_clients: usize,
) -> (r: Result<(WebTransportServerConfig, ServerCertHash), CertificateError>)
    ensures
        holds_certificate(made, listen, max_clients, r),
{
    match made {
        Ok(made) => {
            let hash = get_server_cert_hash(made.cert.as_slice());
            let config = WebTransportServerConfig {
                cert: made.cert,
                key: made.key,
                listen,
                max_clients,
            };
            Ok((config, hash))
        },
        Err(e) => Err(e),
    }
}

/// The config holds the certificate that was made and its key, and comes with the hash of the
/// certificate. There is none if no certificate was made.
pub open spec fn holds_certificate(
    made: Result<CertificateAndKey, CertificateError>,
    listen: SocketAddr,
    max_clients: usize,
    r: Result<(WebTransportServerConfig, ServerCertHash), CertificateError>,
) -> bool {
    match made {
        Ok(made) => r matches Ok((config, hash)) && {
            &&& config.cert@ == made.cert@
            &&& config.key@ == made.key@
            &&& config.listen == listen
            &&& config.max_clients == max_clients
            &&& hash.hash@ == crate::destination::sha256(made.cert@)
        },
        Err(e) => r == Err::<(WebTransportServerConfig, ServerCertHash), CertificateError>(e),
    }
}

/// What comes out when a config for some destinations is asked for: it holds the certificate that was
/// made for the destinations.
pub open spec fn configured(
    listen: SocketAddr,
    proxies: Seq<WebServerDestination>,
    max_clients: usize,
    r: Result<(WebTransportServerConfig, ServerCertHash), CertificateError>,
) -> bool {
    exists|made: Result<CertificateAndKey, CertificateError>| #[trigger]
        crate::cert::made_for(proxies, HOUR, CERT_VALIDITY, made) && holds_certificate(
            made,
            listen,
            max_clients,
            r,
        )
}

/// The certificate of a config is made out to the destinations, is valid for less than two weeks, and
/// was valid at the time that the clock showed when it was made. Away from the ends of time it expires
/// two weeks later, minus one hour and one minute, to the whole second.
pub proof fn selfsigned_certificates_are_short_lived(
    listen: SocketAddr,
    proxies: Seq<WebServerDestination>,
    max_clients: usize,
    config: WebTransportServerConfig,
    hash: ServerCertHash,
)
    requires
        configured(listen, proxies, max_clients, Ok((config, hash))),
    ensures
        ({
            let says = crate::cert::certificate_says(config.cert@);
            &&& says.names == crate::cert::alt_names(proxies)
            &&& says.not_after - says.not_before < TWO_WEEKS
            &&& exists|now: i128|
                #[trigger] crate::cert::clock_showed(now) && expires_after(says, now)
            &&& crate::cert::certificate_public_key(config.cert@)
                == crate::cert::document_public_key(config.key@)
            &&& crate::cert::document_is_ecdsa_p256(config.key@)
        }),
{
    let made = choose|made: Result<CertificateAndKey, CertificateError>| #[trigger]
        crate::cert::made_for(proxies, HOUR, CERT_VALIDITY, made) && holds_certificate(
            made,
            listen,
            max_clients,
            Ok((config, hash)),
        );
    let now = choose|now: i128|
        crate::cert::TIME_MIN <= now <= crate::cert::TIME_MAX && #[trigger] crate::cert::clock_showed(
            now,
        ) && crate::cert::made_at(now, proxies, HOUR, CERT_VALIDITY, made);
    crate::cert::certificates_are_valid_now(now, HOUR, CERT_VALIDITY, proxies);
    assert(expires_after(crate::cert::certificate_says(config.cert@), now));
}

/// The certificate is valid at this time. It expires two weeks later, minus one hour and one minute,
/// unless that is near the ends of time.
pub open spec fn expires_after(says: crate::cert::ParamsView, now: i128) -> bool {
    &&& says.not_before <= now
    &&& crate::cert::TIME_MIN + HOUR <= now <= crate::cert::TIME_MAX - TWO_WEEKS ==> {
        &&& now <= says.not_after
        &&& says.not_after == crate::cert::whole_second(now + TWO_WEEKS - HOUR - MINUTE)
    }
}

/// How the connections of a WebTransport server are set up.
#[derive(Debug)]
pub struct TransportSettings {
    /// The protocols that are offered, the preferred one first.
    pub alpn_protocols: Vec<Vec<u8>>,
    /// The number of bytes that are taken before a connection is confirmed.
    pub max_early_data_size: u32,
    /// The number of seconds between signs of life.
    pub keep_alive_secs: u64,
    /// The number of seconds after which a silent connection is over.
    pub idle_timeout_secs: u64,
}

/// The bytes of the protocols that are offered: `h3`, `h3-32`, `h3-31`, `h3-30` and `h3-29`.
pub open spec fn offered_protocols() -> Seq<Seq<u8>> {
    seq![
        seq![104u8, 51],
        seq![104u8, 51, 45, 51, 50],
        seq![104u8, 51, 45, 51, 49],
        seq![104u8, 51, 45, 51, 48],
        seq![104u8, 51, 45, 50, 57],
    ]
}

/// How the connections of a WebTransport server are set up. The newest version of HTTP/3 is
/// preferred, and older drafts are offered to browsers that do not know it.
pub fn transport_settings() -> (r: TransportSettings)
    ensures
        r.alpn_protocols@.map_values(|protocol: Vec<u8>| protocol@) == offered_protocols(),
        r.max_early_data_size == u32::MAX,
        r.keep_alive_secs == 2,
        r.idle_timeout_secs == 15,
{
    let mut alpn_protocols: Vec<Vec<u8>> = Vec::new();
    alpn_protocols.push(vec![104, 51]);
    alpn_protocols.push(vec![104, 51, 45, 51, 50]);
    alpn_protocols.push(vec![104, 51, 45, 51, 49]);
    alpn_protocols.push(vec![104, 51, 45, 51, 48]);
    alpn_protocols.push(vec![104, 51, 45, 50, 57]);
    let r = TransportSettings {
        alpn_protocols,
        max_early_data_size: u32::MAX,
        keep_alive_secs: 2,
        idle_timeout_secs: 15,
    };
    proof {
        let offered = r.alpn_protocols@.map_values(|protocol: Vec<u8>| protocol@);
        assert(offered[0] =~= offered_protocols()[0]);
        assert(offered[1] =~= offered_protocols()[1]);
        assert(offered[2] =~= offered_protocols()[2]);
        assert(offered[3] =~= offered_protocols()[3]);
        assert(offered[4] =~= offered_protocols()[4]);
        assert(offered =~= offered_protocols());
    }
    r
}

/// Hands the connection request in the path of a session request to the server. The answer tells
/// the index of the client, and where the server's decision will come, unless the server has no
/// room for the request.
pub fn begin_session(desk: &mut RequestDesk, path: &str) -> (r: Result<
    Option<(u64, Receiver<ConnectionRequestResult>)>,
    RequestError,
>)
    ensures
        forall|first: u64| #[trigger]
            old(desk).numbered_from(first) ==> final(desk).numbered_from(first),
        session_begun(old(desk), final(desk), vstd::utf8::encode_utf8(path@), r),
{
    match extract_client_connection_req(path) {
        Ok(packet) => {
            let ghost content = packet@;
            let begun = desk.begin_connection(packet);
            let r: Result<
                Option<(u64, Receiver<ConnectionRequestResult>)>,
                RequestError,
            > = Ok(begun);
            proof {
                let (request, outcome) = choose|request: ConnectionRequest, outcome: PutOutcome|
                    #[trigger] old(desk).hands_over(&*desk, request, outcome, content, begun);
                let found = crate::request::request_in_path(vstd::utf8::encode_utf8(path@));
                assert(old(desk).hands_over(&*desk, request, outcome, found->Ok_0, r->Ok_0));
                assert(session_begun(old(desk), &*desk, vstd::utf8::encode_utf8(path@), r));
            }
            r
        },
        Err(e) => Err(e),
    }
}

/// What beginning a session does: the request in the path is handed to the server, if there is one.
pub open spec fn session_begun(
    before: &RequestDesk,
    after: &RequestDesk,
    path: Seq<u8>,
    r: Result<Option<(u64, Receiver<ConnectionRequestResult>)>, RequestError>,
) -> bool {
    match crate::request::request_in_path(path) {
        Ok(packet) => r is Ok && exists|request: ConnectionRequest, outcome: PutOutcome| #[trigger]
            before.hands_over(after, request, outcome, packet, r->Ok_0),
        Err(e) => *after == *before && r == Err::<
            Option<(u64, Receiver<ConnectionRequestResult>)>,
            RequestError,
        >(e),
    }
}

/// What became of a datagram that was sent to a client.
#[derive(Debug, Clone, Copy, PartialEq, Eq, Structural)]
pub enum DatagramOutcome {
    /// It is on its way.
    Sent,
    /// The client is gone.
    NotConnected,
    /// The client takes no datagrams.
    UnsupportedByPeer,
    /// It is too large for the connection.
    TooLarge,
}

/// A WebTransport server.
#[verifier::reject_recursive_types(S)]
pub struct WebTransportServer<S> {
    server: WebServer<S>,
}

impl<S> View for WebTransportServer<S> {
    type V = ServerView<S>;

    closed spec fn view(&self) -> ServerView<S> {
        self.server@
    }
}

impl<S> WebTransportServer<S> {
    /// Makes a new server that listens on an address.
    pub fn new(addr: SocketAddr, ends: ServerEnds<S>) -> (r: Self)
        ensures
            r@ == ServerView::<S>::fresh(addr, ends),
    {
        WebTransportServer { server: WebServer::new(addr, ends) }
    }

    /// Disconnects the server.
    pub fn close(&mut self)
        ensures
            final(self)@ == old(self)@.closing(),
    {
        self.server.close();
    }

    /// Whether the socket encrypts: it does.
    pub fn is_encrypted(&self) -> (r: bool)
        ensures
            r,
    {
        true
    }

    /// Whether packets always arrive: they do not.
    pub fn is_reliable(&self) -> (r: bool)
        ensures
            !r,
    {
        false
    }

    /// Where the server listens.
    pub fn addr(&self) -> (r: SocketAddr)
        ensures
            r == self@.addr,
    {
        self.server.addr()
    }

    /// Whether the server has been closed.
    pub fn is_closed(&self) -> (r: bool)
        ensures
            r == self@.closed,
    {
        self.server.is_closed()
    }

    /// The session of an active client.
    pub fn session(&self, client_idx: u64) -> (r: Option<&S>)
        ensures
            match r {
                Some(session) => self@.table.clients.contains_key(client_idx) && *session
                    == self@.table.clients[client_idx].session,
                None => !self@.table.clients.contains_key(client_idx),
            },
    {
        self.server.session(client_idx)
    }

    /// Loses the client whose request was denied.
    pub fn connection_denied(&mut self, addr: SocketAddr)
        requires
            addr is V6,
        ensures
            final(self)@ == old(self)@.with_table(
                old(self)@.table.losing(crate::addr::client_idx(addr->V6_0.ip)),
            ),
    {
        self.server.disconnect(addr);
    }

    /// Records that the request of a client was accepted for a client id.
    pub fn connection_accepted(&mut self, client_id: u64, addr: SocketAddr)
        requires
            addr is V6,
        ensures
            final(self)@ == old(self)@.with_table(
                old(self)@.table.accepting(client_id, crate::addr::client_idx(addr->V6_0.ip)),
            ),
    {
        self.server.connection_accepted(client_id, addr);
    }

    /// Loses a client.
    pub fn disconnect(&mut self, addr: SocketAddr)
        requires
            addr is V6,
        ensures
            final(self)@ == old(self)@.with_table(
                old(self)@.table.losing(crate::addr::client_idx(addr->V6_0.ip)),
            ),
    {
        self.server.disconnect(addr);
    }

    /// Looks for the next session, and decides what is done about it.
    pub fn preupdate(&mut self) -> (r: ConnectionStep<S>)
        ensures
            exists|given: Option<ClientConnectionResult<S>>| #[trigger]
                old(self)@.connection_taken(final(self)@, given, r),
    {
        let step = self.server.next_connection();
        proof {
            let given = choose|given: Option<ClientConnectionResult<S>>| #[trigger]
                old(self).server@.connection_taken(self.server@, given, step);
            assert(old(self)@.connection_taken(self@, given, step));
        }
        step
    }

    /// Makes a client active.
    pub fn open_client(&mut self, client_idx: u64, client: ServerClient<S>)
        ensures
            final(self)@ == old(self)@.opening(client_idx, client@),
    {
        self.server.open_client(client_idx, client);
    }

    /// Receives the next connection request, or the next packet of an active client. A client whose
    /// request does not fit is told that it was turned down.
    pub fn try_recv(&mut self, buffer: &mut [u8]) -> (r: Result<(usize, SocketAddr), SocketError>)
        ensures
            exists|requests: Seq<Option<ConnectionRequest>>, end_index: Option<u64>| #[trigger]
                old(self)@.receives(
                    true,
                    final(self)@,
                    requests,
                    end_index,
                    old(buffer)@,
                    final(buffer)@,
                    r,
                ),
    {
        let r = self.server.try_recv(true, buffer);
        proof {
            let (requests, end_index) = choose|
                requests: Seq<Option<ConnectionRequest>>,
                end_index: Option<u64>,
            | #[trigger]
                old(self).server@.receives(
                    true,
                    self.server@,
                    requests,
                    end_index,
                    old(buffer)@,
                    buffer@,
                    r,
                );
            assert(old(self)@.receives(true, self@, requests, end_index, old(buffer)@, buffer@, r));
        }
        r
    }

    /// Removes the clients that are lost or whose reader is over, and hands them back. Pending clients
    /// are told that they were turned down. The ends of all close when they are dropped.
    pub fn postupdate(&mut self) -> (r: Departed<S>)
        ensures
            exists|checked: Map<u64, crate::client_table::ClientView<S>>| #[trigger]
                old(self)@.cleaned(true, checked, final(self)@, r@),
    {
        let departed = self.server.postupdate(true);
        proof {
            let checked = choose|checked: Map<u64, crate::client_table::ClientView<S>>| #[trigger]
                old(self).server@.cleaned(true, checked, self.server@, departed@);
            assert(old(self)@.cleaned(true, checked, self@, departed@));
        }
        departed
    }

    /// Decides what happens to a packet for a client.
    pub fn send(&mut self, addr: SocketAddr, packet: &[u8]) -> (r: Result<SendStep, SocketError>)
        requires
            addr is V6,
        ensures
            old(self)@.sends(crate::addr::client_idx(addr->V6_0.ip), packet@, final(self)@, r),
    {
        self.server.send(addr, packet)
    }

    /// Decides what is returned for a packet that was transmitted to a client. A client that is
    /// gone is lost. A datagram that the client cannot take is just not delivered.
    pub fn datagram_sent(&mut self, addr: SocketAddr, outcome: DatagramOutcome) -> (r: Result<
        (),
        SocketError,
    >)
        requires
            addr is V6,
        ensures
            outcome == DatagramOutcome::NotConnected ==> {
                &&& r == Err::<(), SocketError>(SocketError::ConnectionAborted)
                &&& final(self)@ == old(self)@.with_table(
                    old(self)@.table.losing(crate::addr::client_idx(addr->V6_0.ip)),
                )
            },
            outcome != DatagramOutcome::NotConnected ==> r is Ok && final(self)@ == old(self)@,
    {
        match outcome {
            DatagramOutcome::NotConnected => {
                self.disconnect(addr);
                Err(SocketError::ConnectionAborted)
            },
            DatagramOutcome::Sent | DatagramOutcome::UnsupportedByPeer | DatagramOutcome::TooLarge => Ok(
                (),
            ),
        }
    }
}

/// A connection request that does not fit is never delivered and never becomes pending, and is not
/// counted. Its own end for answers was handed the refusal.
pub proof fn oversized_requests_are_answered<S>(
    before: ServerView<S>,
    after: ServerView<S>,
    requests: Seq<Option<ConnectionRequest>>,
    end_index: Option<u64>,
    buffer_before: Seq<u8>,
    buffer_after: Seq<u8>,
    answer: Result<(usize, SocketAddr), SocketError>,
    i: int,
)
    requires
        before.receives(true, after, requests, end_index, buffer_before, buffer_after, answer),
        0 <= i < requests.len(),
        crate::web_server::must_be_refused(requests[i], buffer_before.len()),
    ensures
        after.table.refused.len() > before.table.refused.len() + i,
        after.table.refused[before.table.refused.len() + i]
            == crate::client_table::PendingView::of_request(requests[i]->0).answered(
            ConnectionRequestResult::Failure,
        ),
        answer is Ok && end_index is None ==> answer->Ok_0.1 == crate::addr::client_addr(
            requests.last()->0.client_idx,
        ) && i < requests.len() - 1,
        end_index is Some ==> after.table.pending == before.table.pending && after.table.count
            == before.table.count,
        end_index is None ==> after.table.pending == before.table.pending.insert(
            requests.last()->0.client_idx,
            crate::client_table::PendingView::of_request(requests.last()->0),
        ) && after.table.count == before.table.count.wrapping_add(1),
{
    crate::web_server::oversized_requests_are_refused(
        true,
        before,
        after,
        requests,
        end_index,
        buffer_before,
        buffer_after,
        answer,
        i,
    );
}

/// The clients that are left after a removal are the ones from before without those that were lost or
/// whose reader was over. A pending client that is removed was told that its request was turned down,
/// and the reader of an active one was told to stop. The client id of a removed client is free
/// unless a newer client holds it.
pub proof fn removed_clients_are_told<S>(
    before: ServerView<S>,
    checked: Map<u64, crate::client_table::ClientView<S>>,
    after: ServerView<S>,
    departed: crate::client_table::DepartedView<S>,
    idx: u64,
    client_id: u64,
)
    requires
        before.table.consistent(),
        before.cleaned(true, checked, after, departed),
    ensures
        after.table.consistent(),
        after.announced == after.table.clients.len() + after.table.pending.len(),
        after.table.lost == Set::<u64>::empty(),
        ({
            let gone = before.table.lost.contains(idx) || crate::client_table::finished(
                checked,
            ).contains(idx);
            &&& gone ==> !after.table.indices().contains(idx)
            &&& !gone ==> after.table.indices().contains(idx) == before.table.indices().contains(idx)
            &&& gone && before.table.pending.contains_key(idx) ==> departed.pending.contains_key(idx)
                && departed.pending[idx] == before.table.pending[idx].answered(
                ConnectionRequestResult::Failure,
            )
            &&& gone && before.table.clients.contains_key(idx) ==> departed.clients.contains_key(idx)
                && departed.clients[idx].stops == before.table.clients[idx].stops + 1
            &&& before.table.holds(client_id, idx) && !gone ==> after.table.holds(client_id, idx)
            &&& after.table.slots.contains_key(client_id) ==> before.table.slots.contains_key(
                client_id,
            ) && after.table.slots[client_id] == before.table.slots[client_id]
        }),
{
    crate::client_table::lost_clients_go(
        true,
        before.table,
        checked,
        after.table,
        departed,
        idx,
    );
    crate::client_table::removals_keep_the_order(
        true,
        before.table,
        checked,
        after.table,
        departed,
    );
}

/// An accepted client is told so, and holds its client id. Whoever else held that is lost. If the address
/// belongs to nobody who waits, nothing changes.
pub proof fn accepted_clients_hold_their_id<S>(
    before: WebTransportServer<S>,
    after: WebTransportServer<S>,
    client_id: u64,
    addr: SocketAddr,
    idx: u64,
    k: u64,
)
    requires
        addr is V6,
        exists|server: &mut WebTransportServer<S>|
            *server == before && *final(server) == after && #[trigger] call_ensures(
                WebTransportServer::<S>::connection_accepted,
                (server, client_id, addr),
                (),
            ),
        call_ensures(crate::addr::client_idx_from_addr, (addr,), idx),
    ensures
        after@ == (ServerView { table: after@.table, ..before@ }),
        after@.table.clients == before@.table.clients,
        after@.table.recv_index == before@.table.recv_index,
        after@.table.count == before@.table.count,
        after@.table.refused == before@.table.refused,
        after@.table.pending.dom() == before@.table.pending.dom(),
        k != idx && before@.table.pending.contains_key(k) ==> after@.table.pending[k]
            == before@.table.pending[k],
        !before@.table.pending.contains_key(idx) ==> after@.table.pending == before@.table.pending
            && after@.table.slots == before@.table.slots && after@.table.lost == before@.table.lost,
        before@.table.pending.contains_key(idx) ==> {
            &&& after@.table.pending[idx].client_id == Some(client_id)
            &&& after@.table.pending[idx].replies == before@.table.pending[idx].replies.push(
                ConnectionRequestResult::Success { client_id },
            )
            &&& after@.table.pending[idx].answer_end == before@.table.pending[idx].answer_end
            &&& after@.table.pending[idx].buffered == before@.table.pending[idx].buffered
            &&& after@.table.pending[idx].client_idx == before@.table.pending[idx].client_idx
            &&& after@.table.slots.contains_key(client_id)
            &&& after@.table.slots[client_id] == idx
            &&& k != client_id ==> after@.table.slots.contains_key(k)
                == before@.table.slots.contains_key(k)
            &&& k != client_id && before@.table.slots.contains_key(k) ==> after@.table.slots[k]
                == before@.table.slots[k]
            &&& after@.table.lost.contains(k) <==> before@.table.lost.contains(k) || (
            before@.table.slots.contains_key(client_id) && before@.table.slots[client_id] == k && k
                != idx)
        },
{
    assert(after@.table.pending.dom() =~= before@.table.pending.dom());
}

/// A client that is disconnected, or whose request is denied, is lost. Nothing else changes before the
/// lost clients are removed.
pub proof fn disconnected_clients_are_lost<S>(
    before: WebTransportServer<S>,
    after: WebTransportServer<S>,
    addr: SocketAddr,
    idx: u64,
    k: u64,
)
    requires
        addr is V6,
        exists|server: &mut WebTransportServer<S>|
            *server == before && *final(server) == after && (#[trigger] call_ensures(
                WebTransportServer::<S>::disconnect,
                (server, addr),
                (),
            ) || call_ensures(WebTransportServer::<S>::connection_denied, (server, addr), ())),
        call_ensures(crate::addr::client_idx_from_addr, (addr,), idx),
    ensures
        after@ == (ServerView { table: after@.table, ..before@ }),
        after@.table.clients == before@.table.clients,
        after@.table.recv_index == before@.table.recv_index,
        after@.table.count == before@.table.count,
        after@.table.refused == before@.table.refused,
        after@.table.pending == before@.table.pending,
        after@.table.slots == before@.table.slots,
        after@.table.lost.contains(k) <==> before@.table.lost.contains(k) || k == idx,
{
}

/// A packet for an active client is to be transmitted as it is. One for a pending client is kept if it is
/// the first. For anybody else there is no connection.
pub proof fn packets_go_to_known_clients<S>(
    before: WebTransportServer<S>,
    after: WebTransportServer<S>,
    addr: SocketAddr,
    packet: &[u8],
    answer: Result<SendStep, SocketError>,
    idx: u64,
    k: u64,
)
    requires
        addr is V6,
        exists|server: &mut WebTransportServer<S>|
            *server == before && *final(server) == after && #[trigger] call_ensures(
                WebTransportServer::<S>::send,
                (server, addr, packet),
                answer,
            ),
        call_ensures(crate::addr::client_idx_from_addr, (addr,), idx),
    ensures
        after@ == (ServerView { table: after@.table, ..before@ }),
        after@.table.clients == before@.table.clients,
        after@.table.recv_index == before@.table.recv_index,
        after@.table.count == before@.table.count,
        after@.table.refused == before@.table.refused,
        after@.table.slots == before@.table.slots,
        after@.table.lost == before@.table.lost,
        after@.table.pending.dom() == before@.table.pending.dom(),
        k != idx && before@.table.pending.contains_key(k) ==> after@.table.pending[k]
            == before@.table.pending[k],
        before@.table.clients.contains_key(idx) ==> {
            &&& after@ == before@
            &&& answer is Ok
            &&& answer->Ok_0 is Transmit
            &&& crate::packet_bytes::bytes_content(answer->Ok_0->data) == packet@
        },
        !before@.table.clients.contains_key(idx) && before@.table.pending.contains_key(idx) ==> {
            &&& answer is Ok
            &&& answer->Ok_0 is Done
            &&& before@.table.pending[idx].buffered is None ==> after@.table.pending[idx].buffered
                == Some(packet@)
            &&& before@.table.pending[idx].buffered is Some ==> after@.table.pending[idx].buffered
                == before@.table.pending[idx].buffered
            &&& after@.table.pending[idx].client_id == before@.table.pending[idx].client_id
            &&& after@.table.pending[idx].client_idx == before@.table.pending[idx].client_idx
            &&& after@.table.pending[idx].answer_end == before@.table.pending[idx].answer_end
            &&& after@.table.pending[idx].replies == before@.table.pending[idx].replies
        },
        !before@.table.clients.contains_key(idx) && !before@.table.pending.contains_key(idx)
            ==> answer == Err::<SendStep, SocketError>(SocketError::ConnectionAborted) && after@
            == before@,
{
    assert(after@.table.pending.dom() =~= before@.table.pending.dom());
}

/// Receiving answers with the first connection request that fits, or else asks the active clients below
/// the newest one, in the order of their indices. Requests that are too large are passed over,
/// and their clients are told so.
/// A packet that fits is the answer, one that does not costs the client its connection, and
/// a client is passed over for this round only if it had nothing.
pub proof fn requests_and_packets_are_received<S>(
    before: WebTransportServer<S>,
    after: WebTransportServer<S>,
    buffer_before: Seq<u8>,
    buffer_after: Seq<u8>,
    answer: Result<(usize, SocketAddr), SocketError>,
    k: u64,
)
    requires
        exists|server: &mut WebTransportServer<S>, buffer: &mut [u8]|
            *server == before && *final(server) == after && buffer@ == buffer_before
                && (*final(buffer))@ == buffer_after && #[trigger] call_ensures(
                WebTransportServer::<S>::try_recv,
                (server, buffer),
                answer,
            ),
    ensures
        after@.announced == after@.table.count,
        after@ == (ServerView {
            table: after@.table,
            announced: after@.announced,
            requests: after@.requests,
            index_reads: after@.index_reads,
            ..before@
        }),
        after@.table.slots == before@.table.slots,
        after@.requests.len() > before@.requests.len(),
        after@.requests.subrange(0, before@.requests.len() as int) == before@.requests,
        forall|i: int|
            before@.requests.len() <= i < after@.requests.len() - 1 ==> (
            #[trigger] after@.requests[i] matches Some(request) && request.packet@.len()
                > buffer_before.len()),
        after@.requests.last() is Some && after@.requests.last()->0.packet@.len()
            <= buffer_before.len() ==> {
            let request = after@.requests.last()->0;
            &&& answer is Ok
            &&& answer->Ok_0.0 as int == request.packet@.len()
            &&& answer->Ok_0.1 == crate::addr::client_addr(request.client_idx)
            &&& buffer_after == request.packet@ + buffer_before.skip(
                request.packet@.len() as int,
            )
            &&& after@.table.pending.contains_key(request.client_idx)
            &&& after@.table.pending[request.client_idx].client_id is None
            &&& after@.table.pending[request.client_idx].answer_end == request.result_sender.end()
            &&& after@.table.count == before@.table.count.wrapping_add(1)
            &&& after@.table.clients == before@.table.clients
            &&& after@.index_reads == before@.index_reads
        },
        after@.requests.last() is None ==> {
            &&& after@.table.pending == before@.table.pending
            &&& after@.table.count == before@.table.count
            &&& after@.index_reads.len() == before@.index_reads.len() + 1
        },
        after@.table.refused.len() == before@.table.refused.len() + after@.requests.len()
            - before@.requests.len() - if (after@.requests.last() is Some
            && after@.requests.last()->0.packet@.len() > buffer_before.len()) {
            0int
        } else {
            1int
        },
        after@.table.clients.dom() == before@.table.clients.dom(),
        before@.table.clients.contains_key(k) ==> {
            let old_account = before@.table.clients[k].packets;
            let account = after@.table.clients[k].packets;
            let asked = account.len() == old_account.len() + 1;
            &&& account == old_account || asked && account.drop_last() == old_account
            &&& asked && account.last() is Some && account.last()->0.len() <= buffer_before.len()
                ==> answer is Ok && answer->Ok_0.0 == account.last()->0.len() && answer->Ok_0.1
                == crate::addr::client_addr(k) && buffer_after == account.last()->0
                + buffer_before.skip(account.last()->0.len() as int)
            &&& before@.table.recv_index <= k < after@.table.recv_index ==> asked && (
            after@.table.lost.contains(k) || account.last() is None)
            &&& answer is Err && before@.table.recv_index <= k < after@.index_reads.last() ==> asked
                && (after@.table.lost.contains(k) || account.last() is None)
            &&& !before@.table.lost.contains(k) ==> (after@.table.lost.contains(k) <==> asked
                && account.last() is Some && account.last()->0.len() > buffer_before.len())
        },
        answer is Err ==> answer == Err::<(usize, SocketAddr), SocketError>(SocketError::WouldBlock)
            && buffer_after == buffer_before,
{
    let (requests, end_index) = choose|
        requests: Seq<Option<ConnectionRequest>>,
        end_index: Option<u64>,
    | #[trigger]
        before@.receives(
            true,
            after@,
            requests,
            end_index,
            buffer_before,
            buffer_after,
            answer,
        );
    crate::web_server_laws::requests_are_taken_in_one_by_one(
        true,
        before@,
        after@,
        requests,
        end_index,
        buffer_before,
        buffer_after,
        answer,
    );
    assert(after@.requests.subrange(0, before@.requests.len() as int) =~= before@.requests);
    assert(after@.requests.last() == requests.last());
    assert(requests.last()->0.packet.len() == requests.last()->0.packet@.len());
    assert forall|i: int| before@.requests.len() <= i < after@.requests.len() - 1 implies (
    #[trigger] after@.requests[i] matches Some(request) && request.packet@.len()
        > buffer_before.len()) by {
        assert(after@.requests[i] == requests[i - before@.requests.len()]);
    }
    if before@.table.clients.contains_key(k) {
        crate::web_server_laws::clients_are_asked_in_turn(
            true,
            before@,
            after@,
            requests,
            end_index,
            buffer_before,
            buffer_after,
            answer,
            k,
        );
    }
    crate::web_server_laws::receiving_keeps_everybody(
        true,
        before@,
        after@,
        requests,
        end_index,
        buffer_before,
        buffer_after,
        answer,
    );
}

/// Looking for a session makes the client of it active, exactly if it is pending and holds its client id.
/// Once there is none, a new round begins with the first client.
pub proof fn sessions_are_looked_for<S>(
    before: WebTransportServer<S>,
    after: WebTransportServer<S>,
    step: ConnectionStep<S>,
    k: u64,
)
    requires
        exists|server: &mut WebTransportServer<S>|
            *server == before && *final(server) == after && #[trigger] call_ensures(
                WebTransportServer::<S>::preupdate,
                (server,),
                step,
            ),
    ensures
        after@ == (ServerView {
            table: after@.table,
            announced: after@.announced,
            connections: after@.connections,
            ..before@
        }),
        after@.connections.len() == before@.connections.len() + 1,
        after@.connections.drop_last() == before@.connections,
        after@.table.refused == before@.table.refused,
        after@.table.count == if step is Stop {
            before@.table.count.wrapping_sub(1)
        } else {
            before@.table.count
        },
        after@.table.clients == before@.table.clients,
        after@.table.slots == before@.table.slots,
        after@.connections.last() is None <==> step is Drained,
        step is Drained ==> after@.table.recv_index == 0 && after@.table.pending
            == before@.table.pending && after@.table.lost == before@.table.lost,
        !(step is Drained) ==> after@.announced == after@.table.count,
        after@.connections.last() matches Some(ClientConnectionResult::Failure { client_idx }) ==> {
            &&& step is Skip
            &&& after@.table.pending == before@.table.pending
            &&& after@.table.lost.contains(k) <==> before@.table.lost.contains(k) || k == client_idx
        },
        after@.connections.last() matches Some(
            ClientConnectionResult::Success { client_idx, client_id, session },
        ) ==> {
            let waits = before@.table.pending.contains_key(client_idx);
            let holds = before@.table.slots.contains_key(client_id)
                && before@.table.slots[client_id] == client_idx;
            &&& step is Skip <==> !waits
            &&& step is Stop <==> waits && !holds
            &&& step is Open <==> waits && holds
            &&& after@.table.pending.contains_key(k) <==> before@.table.pending.contains_key(k) && k
                != client_idx
            &&& step matches ConnectionStep::Open {
                client_idx: opened,
                client_id: named,
                session: through,
                ..
            } ==> opened == client_idx && named == client_id && through == session
        },
{
    let given = choose|given: Option<ClientConnectionResult<S>>| #[trigger]
        before@.connection_taken(after@, given, step);
    crate::web_server_laws::sessions_open_accepted_clients(before@, after@, given, step, k);
    assert(after@.connections.drop_last() =~= before@.connections);
}

/// Removing the lost clients keeps an active client exactly if it is not lost and its reader is not over,
/// and a pending client exactly if it is not lost. Those that go are handed back: readers are told to
/// stop, and pending clients are turned down, and are told so.
pub proof fn lost_clients_are_removed<S>(
    before: WebTransportServer<S>,
    after: WebTransportServer<S>,
    departed: Departed<S>,
    k: u64,
)
    requires
        exists|server: &mut WebTransportServer<S>|
            *server == before && *final(server) == after && #[trigger] call_ensures(
                WebTransportServer::<S>::postupdate,
                (server,),
                departed,
            ),
        before@.table.consistent(),
    ensures
        after@.announced == after@.table.clients.len() + after@.table.pending.len(),
        after@ == (ServerView { table: after@.table, announced: after@.announced, ..before@ }),
        after@.table.recv_index == before@.table.recv_index,
        !after@.table.lost.contains(k),
        after@.table.clients.contains_key(k) || departed@.clients.contains_key(k)
            <==> before@.table.clients.contains_key(k),
        after@.table.clients.contains_key(k) ==> !before@.table.lost.contains(k)
            && !departed@.clients.contains_key(k) && after@.table.clients[k].checks
            == before@.table.clients[k].checks.push(false),
        departed@.clients.contains_key(k) ==> (before@.table.lost.contains(k)
            || departed@.clients[k].checks.last()) && departed@.clients[k].stops
            == before@.table.clients[k].stops + 1,
        before@.table.pending.contains_key(k) ==> (after@.table.pending.contains_key(k)
            <==> !before@.table.lost.contains(k)) && (departed@.pending.contains_key(k)
            <==> before@.table.lost.contains(k)),
        after@.table.pending.contains_key(k) ==> before@.table.pending.contains_key(k)
            && after@.table.pending[k] == before@.table.pending[k],
        departed@.pending.contains_key(k) ==> departed@.pending[k].replies
            == before@.table.pending[k].replies.push(ConnectionRequestResult::Failure),
{
    let checked = choose|checked: Map<u64, crate::client_table::ClientView<S>>| #[trigger]
        before@.cleaned(true, checked, after@, departed@);
    crate::web_server_laws::removal_takes_the_lost_clients(
        true,
        before@,
        checked,
        after@,
        departed@,
        k,
        0,
    );
}

/// A client that is made active has the session and the client id that it was made with, and nobody else
/// is touched.
pub proof fn opened_clients_are_active<S>(
    before: WebTransportServer<S>,
    after: WebTransportServer<S>,
    client_idx: u64,
    client: ServerClient<S>,
    k: u64,
)
    requires
        exists|server: &mut WebTransportServer<S>|
            *server == before && *final(server) == after && #[trigger] call_ensures(
                WebTransportServer::<S>::open_client,
                (server, client_idx, client),
                (),
            ),
    ensures
        after@ == (ServerView { table: after@.table, ..before@ }),
        after@.table.recv_index == before@.table.recv_index,
        after@.table.refused == before@.table.refused,
        after@.table.clients.contains_key(client_idx),
        after@.table.clients[client_idx] == client@,
        k != client_idx ==> after@.table.clients.contains_key(k)
            == before@.table.clients.contains_key(k),
        k != client_idx && before@.table.clients.contains_key(k) ==> after@.table.clients[k]
            == before@.table.clients[k],
        after@.table.pending == before@.table.pending,
        after@.table.slots == before@.table.slots,
        after@.table.lost == before@.table.lost,
        after@.table.count == before@.table.count,
{
}

/// A new server is open and has no clients. Closing it stops the task that accepts connections, and
/// leaves the clients as they are.
pub proof fn servers_open_and_close<S>(
    addr: SocketAddr,
    ends: ServerEnds<S>,
    fresh: WebTransportServer<S>,
    before: WebTransportServer<S>,
    after: WebTransportServer<S>,
    k: u64,
)
    requires
        call_ensures(WebTransportServer::<S>::new, (addr, ends), fresh),
        exists|server: &mut WebTransportServer<S>|
            *server == before && *final(server) == after && #[trigger] call_ensures(
                WebTransportServer::<S>::close,
                (server,),
                (),
            ),
    ensures
        fresh@.addr == addr,
        !fresh@.closed,
        !fresh@.table.clients.contains_key(k),
        !fresh@.table.pending.contains_key(k),
        !fresh@.table.slots.contains_key(k),
        !fresh@.table.lost.contains(k),
        fresh@.table.count == 0,
        fresh@.table.recv_index == 0,
        fresh@.table.refused.len() == 0,
        fresh@.request_end == ends.requests.end(),
        fresh@.connection_end == ends.connections.end(),
        fresh@.acceptor == ends.connection_abort_handle.task(),
        fresh@.board == ends.current_clients.number(),
        fresh@.counter == ends.client_iterator.counter(),
        after@ == (ServerView { closed: true, stops: before@.stops + 1, ..before@ }),
{
}

/// The request in a path is handed to the server as it was found there, under the next index. If none is
/// found, the answer says why, and nothing is handed over.
pub proof fn found_requests_are_handed_over(
    before: RequestDesk,
    after: RequestDesk,
    path: &str,
    found: Result<Vec<u8>, RequestError>,
    answer: Result<Option<(u64, Receiver<ConnectionRequestResult>)>, RequestError>,
)
    requires
        exists|desk: &mut RequestDesk|
            *desk == before && *final(desk) == after && #[trigger] call_ensures(
                begin_session,
                (desk, path),
                answer,
            ),
        call_ensures(extract_client_connection_req, (path,), found),
    ensures
        found matches Err(e) ==> after == before && answer == Err::<
            Option<(u64, Receiver<ConnectionRequestResult>)>,
            RequestError,
        >(e),
        found matches Ok(packet) ==> {
            &&& answer is Ok
            &&& after.handed().len() == before.handed().len() + 1
            &&& after.handed().drop_last() == before.handed()
            &&& after.handed().last().0.packet@ == packet@
            &&& after.handed().last().0.client_idx == before.next_index()
            &&& answer->Ok_0 is Some <==> after.handed().last().1 == PutOutcome::Taken
            &&& answer->Ok_0 is Some ==> (answer->Ok_0->0).0 == before.next_index()
                && crate::web_server::answer_receiver_channel((answer->Ok_0->0).1)
                == crate::web_server::answer_sender_channel(
                after.handed().last().0.result_sender.end(),
            )
        },
{
    if found is Ok {
        let (request, outcome) = choose|request: ConnectionRequest, outcome: PutOutcome| #[trigger]
            before.hands_over(&after, request, outcome, found->Ok_0@, answer->Ok_0);
        assert(after.handed().drop_last() =~= before.handed());
    }
}

/// A client that is gone is lost, and the sender is told. Any other outcome of a datagram is fine and
/// changes nothing.
pub proof fn only_gone_clients_are_lost<S>(
    before: WebTransportServer<S>,
    after: WebTransportServer<S>,
    addr: SocketAddr,
    outcome: DatagramOutcome,
    answer: Result<(), SocketError>,
    idx: u64,
    k: u64,
)
    requires
        addr is V6,
        exists|server: &mut WebTransportServer<S>|
            *server == before && *final(server) == after && #[trigger] call_ensures(
                WebTransportServer::<S>::datagram_sent,
                (server, addr, outcome),
                answer,
            ),
        call_ensures(crate::addr::client_idx_from_addr, (addr,), idx),
    ensures
        answer is Err <==> outcome is NotConnected,
        answer is Err ==> answer == Err::<(), SocketError>(SocketError::ConnectionAborted),
        answer is Ok ==> after@ == before@,
        after@.table.lost.contains(k) <==> before@.table.lost.contains(k) || (outcome is NotConnected
            && k == idx),
        after@.table.clients == before@.table.clients,
        after@.table.pending == before@.table.pending,
{
}

/// A config holds the very certificate and key that were made, listens where it should, and comes with
/// the digest of the certificate. Where no certificate was made, there is no config, for the same reason.
pub proof fn configs_hold_the_certificate(
    made: Result<CertificateAndKey, CertificateError>,
    listen: SocketAddr,
    max_clients: usize,
    r: Result<(WebTransportServerConfig, ServerCertHash), CertificateError>,
)
    requires
        call_ensures(config_of, (made, listen, max_clients), r),
    ensures
        r is Ok <==> made is Ok,
        made matches Err(e) ==> r->Err_0 == e,
        made matches Ok(certificate) ==> {
            &&& r->Ok_0.0.cert@ == certificate.cert@
            &&& r->Ok_0.0.key@ == certificate.key@
            &&& r->Ok_0.0.listen == listen
            &&& r->Ok_0.0.max_clients == max_clients
            &&& r->Ok_0.1.hash@ == crate::destination::sha256(certificate.cert@)
        },
{
}

/// A config that signs for itself is made out to the address that it listens on and to nobody else. Its
/// certificate is for its key, is no authority, is valid for two weeks minus a minute at most, became
/// valid an hour before it was made, and comes with its digest. The address never stands in the way.
pub proof fn selfsigned_configs_are_for_their_address(
    listen: SocketAddr,
    max_clients: usize,
    r: Result<(WebTransportServerConfig, ServerCertHash), CertificateError>,
)
    requires
        call_ensures(WebTransportServerConfig::new_selfsigned, (listen, max_clients), r),
    ensures
        r matches Err(e) ==> e != CertificateError::InvalidName,
        r matches Ok((config, hash)) ==> {
            let says = crate::cert::certificate_says(config.cert@);
            &&& config.listen == listen
            &&& config.max_clients == max_clients
            &&& hash.hash@ == crate::destination::sha256(config.cert@)
            &&& says.names.len() == 1
            &&& listen matches SocketAddr::V4(v4) ==> says.names[0]
                == crate::cert::AltNameView::IpAddress(crate::addr::IpAddr::V4(v4.ip))
            &&& listen matches SocketAddr::V6(v6) ==> says.names[0]
                == crate::cert::AltNameView::IpAddress(crate::addr::IpAddr::V6(v6.ip))
            &&& says.common_name == "renet2 self signed cert"@
            &&& !says.is_authority
            &&& says.not_after - says.not_before <= 1_209_540_000_000_000
            &&& exists|now: i128| #[trigger]
                crate::cert::clock_showed(now) && says.not_before <= now && (
                -377_705_113_200_000_000_000 <= now <= 253_401_091_199_999_999_999 ==> {
                    &&& now - 3_600_000_000_000 - 1_000_000_000 < says.not_before <= now
                        - 3_600_000_000_000
                    &&& says.not_after == says.not_before + 1_209_540_000_000_000
                })
            &&& crate::cert::certificate_public_key(config.cert@)
                == crate::cert::document_public_key(config.key@)
            &&& crate::cert::document_is_ecdsa_p256(config.key@)
        },
{
    let proxies = seq![WebServerDestination::Addr(listen)];
    if r is Ok {
        let (config, hash) = r->Ok_0;
        let made = choose|made: Result<CertificateAndKey, CertificateError>| #[trigger]
            crate::cert::made_for(proxies, HOUR, CERT_VALIDITY, made) && holds_certificate(
                made,
                listen,
                max_clients,
                r,
            );
        let now = choose|now: i128|
            crate::cert::TIME_MIN <= now <= crate::cert::TIME_MAX
                && #[trigger] crate::cert::clock_showed(now) && crate::cert::made_at(
                now,
                proxies,
                HOUR,
                CERT_VALIDITY,
                made,
            );
        crate::cert::certificates_are_valid_now(now, HOUR, CERT_VALIDITY, proxies);
        assert(crate::cert::alt_names(proxies)[0] == crate::cert::alt_name(proxies[0]@));
        assert(crate::cert::clock_showed(now));
    }
}

/// A config that signs for itself is made out to its destinations, one after the other: to the IP
/// address of a socket address, to the domain name of a web address that has one, and to the whole web
/// address if not. It listens where it should.
pub proof fn selfsigned_configs_are_for_their_proxies(
    listen: SocketAddr,
    proxies: Vec<WebServerDestination>,
    max_clients: usize,
    r: Result<(WebTransportServerConfig, ServerCertHash), CertificateError>,
    i: int,
)
    requires
        call_ensures(
            WebTransportServerConfig::new_selfsigned_with_proxies,
            (listen, &proxies, max_clients),
            r,
        ),
        0 <= i < proxies@.len(),
    ensures
        r matches Ok((config, hash)) ==> {
            let says = crate::cert::certificate_says(config.cert@);
            &&& config.listen == listen
            &&& config.max_clients == max_clients
            &&& hash.hash@ == crate::destination::sha256(config.cert@)
            &&& says.names.len() == proxies@.len()
            &&& proxies@[i] matches WebServerDestination::Addr(addr) ==> says.names[i]
                == crate::cert::AltNameView::IpAddress(addr.spec_ip())
            &&& proxies@[i] matches WebServerDestination::Url(url) ==> match crate::web_url::url_host(
                url@,
            ) {
                Some(crate::web_url::HostView::Domain(domain)) => says.names[i]
                    == crate::cert::AltNameView::DnsName(domain),
                _ => says.names[i] == crate::cert::AltNameView::Uri(url@),
            }
            &&& !says.is_authority
            &&& says.not_after - says.not_before <= 1_209_540_000_000_000
        },
{
    if r is Ok {
        let (config, hash) = r->Ok_0;
        selfsigned_certificates_are_short_lived(listen, proxies@, max_clients, config, hash);
        let made = choose|made: Result<CertificateAndKey, CertificateError>| #[trigger]
            crate::cert::made_for(proxies@, HOUR, CERT_VALIDITY, made) && holds_certificate(
                made,
                listen,
                max_clients,
                r,
            );
        let now = choose|now: i128|
            crate::cert::TIME_MIN <= now <= crate::cert::TIME_MAX
                && #[trigger] crate::cert::clock_showed(now) && crate::cert::made_at(
                now,
                proxies@,
                HOUR,
                CERT_VALIDITY,
                made,
            );
        crate::cert::certificates_are_valid_now(now, HOUR, CERT_VALIDITY, proxies@);
        assert(crate::cert::alt_names(proxies@)[i] == crate::cert::alt_name(proxies@[i]@));
    }
}

/// Five protocols are offered, the newest version of HTTP/3 first and then its drafts, the newest one
/// first. Early data is taken without limit. A connection gives a sign of life every two seconds, and is
/// over after fifteen seconds of silence.
pub proof fn settings_prefer_the_newest_protocol(settings: TransportSettings)
    requires
        call_ensures(transport_settings, (), settings),
    ensures
        settings.alpn_protocols@.len() == 5,
        settings.alpn_protocols@[0]@ == seq![104u8, 51],
        settings.alpn_protocols@[1]@ == seq![104u8, 51, 45, 51, 50],
        settings.alpn_protocols@[2]@ == seq![104u8, 51, 45, 51, 49],
        settings.alpn_protocols@[3]@ == seq![104u8, 51, 45, 51, 48],
        settings.alpn_protocols@[4]@ == seq![104u8, 51, 45, 50, 57],
        settings.max_early_data_size == u32::MAX,
        settings.keep_alive_secs == 2,
        settings.idle_timeout_secs == 15,
{
    let offered = settings.alpn_protocols@.map_values(|protocol: Vec<u8>| protocol@);
    assert(offered.len() == 5);
    assert(offered[0] == settings.alpn_protocols@[0]@);
    assert(offered[1] == settings.alpn_protocols@[1]@);
    assert(offered[2] == settings.alpn_protocols@[2]@);
    assert(offered[3] == settings.alpn_protocols@[3]@);
    assert(offered[4] == settings.alpn_protocols@[4]@);
}

/// A call is a step of a round: the server was asked for a packet and answered this, or a request was
/// accepted or denied, or a client was disconnected, or a packet was sent.
proof fn lemma_call_is_step<S>(
    before: WebTransportServer<S>,
    answer: Option<Result<(usize, SocketAddr), SocketError>>,
    after: WebTransportServer<S>,
) -> (step: crate::web_server_laws::RoundStep)
    requires
        match answer {
            Some(answer) => exists|server: &mut WebTransportServer<S>, buffer: &mut [u8]|
                *server == before && *final(server) == after && #[trigger] call_ensures(
                    WebTransportServer::<S>::try_recv,
                    (server, buffer),
                    answer,
                ),
            None => {
                ||| exists|server: &mut WebTransportServer<S>, addr: SocketAddr, client_id: u64|
                    addr is V6 && *server == before && *final(server) == after
                        && #[trigger] call_ensures(WebTransportServer::<S>::connection_accepted, (server, client_id, addr), ())
                ||| exists|server: &mut WebTransportServer<S>, addr: SocketAddr|
                    addr is V6 && *server == before && *final(server) == after
                        && #[trigger] call_ensures(WebTransportServer::<S>::connection_denied, (server, addr), ())
                ||| exists|server: &mut WebTransportServer<S>, addr: SocketAddr|
                    addr is V6 && *server == before && *final(server) == after
                        && #[trigger] call_ensures(WebTransportServer::<S>::disconnect, (server, addr), ())
                ||| exists|server: &mut WebTransportServer<S>, addr: SocketAddr, packet: &[u8], sent: Result<SendStep, SocketError>|
                    addr is V6 && *server == before && *final(server) == after
                        && #[trigger] call_ensures(WebTransportServer::<S>::send, (server, addr, packet), sent)
                ||| exists|server: &mut WebTransportServer<S>, addr: SocketAddr, outcome: DatagramOutcome, sent: Result<(), SocketError>|
                    addr is V6 && *server == before && *final(server) == after
                        && #[trigger] call_ensures(WebTransportServer::<S>::datagram_sent, (server, addr, outcome), sent)
            },
        },
    ensures
        crate::web_server_laws::step_leads(before@, step, after@),
        answer is Some <==> step is Received,
        answer is Some ==> step->answer == answer->0,
{
    match answer {
        Some(answer) => {
            let (server, buffer) = choose|server: &mut WebTransportServer<S>, buffer: &mut [u8]|
                *server == before && *final(server) == after && #[trigger] call_ensures(
                    WebTransportServer::<S>::try_recv,
                    (server, buffer),
                    answer,
                );
            assert(call_ensures(WebTransportServer::<S>::try_recv, (server, buffer), answer));
            crate::web_server_laws::RoundStep::Received { answer }
        },
        None => {
            if exists|
                server: &mut WebTransportServer<S>,
                addr: SocketAddr,
                outcome: DatagramOutcome,
                sent: Result<(), SocketError>,
            |
                addr is V6 && *server == before && *final(server) == after
                    && #[trigger] call_ensures(
                    WebTransportServer::<S>::datagram_sent,
                    (server, addr, outcome),
                    sent,
                ) {
                let (server, addr, outcome, sent) = choose|
                    server: &mut WebTransportServer<S>,
                    addr: SocketAddr,
                    outcome: DatagramOutcome,
                    sent: Result<(), SocketError>,
                |
                    addr is V6 && *server == before && *final(server) == after
                        && #[trigger] call_ensures(
                        WebTransportServer::<S>::datagram_sent,
                        (server, addr, outcome),
                        sent,
                    );
                assert(call_ensures(WebTransportServer::<S>::datagram_sent, (server, addr, outcome), sent));
            }
            crate::web_server_laws::RoundStep::Else
        },
    }
}

/// The calls of a round ask the server for packets, and may accept or deny requests, disconnect clients and
/// send packets meanwhile. A round drains the active clients: as long as a client has packets it keeps its turn, and gives them
/// one by one. The round goes on behind a client only once it was asked and had nothing, unless it is
/// lost, and then it is not asked again. Once a call in the round is answered that there is nothing to
/// receive, every active client up to the newest one was asked in this round and last had nothing, unless
/// it is lost.
pub proof fn clients_are_drained<S>(
    servers: Seq<WebTransportServer<S>>,
    answers: Seq<Option<Result<(usize, SocketAddr), SocketError>>>,
    k: u64,
)
    requires
        servers.len() == answers.len() + 1,
        forall|i: int|
            0 <= i < answers.len() ==> match #[trigger] answers[i] {
                Some(answer) => exists|server: &mut WebTransportServer<S>, buffer: &mut [u8]|
                    *server == servers[i] && *final(server) == servers[i + 1] && #[trigger] call_ensures(
                        WebTransportServer::<S>::try_recv,
                        (server, buffer),
                        answer,
                    ),
                None => {
                    ||| exists|server: &mut WebTransportServer<S>, addr: SocketAddr, client_id: u64|
                        addr is V6 && *server == servers[i] && *final(server) == servers[i + 1]
                            && #[trigger] call_ensures(WebTransportServer::<S>::connection_accepted, (server, client_id, addr), ())
                    ||| exists|server: &mut WebTransportServer<S>, addr: SocketAddr|
                        addr is V6 && *server == servers[i] && *final(server) == servers[i + 1]
                            && #[trigger] call_ensures(WebTransportServer::<S>::connection_denied, (server, addr), ())
                    ||| exists|server: &mut WebTransportServer<S>, addr: SocketAddr|
                        addr is V6 && *server == servers[i] && *final(server) == servers[i + 1]
                            && #[trigger] call_ensures(WebTransportServer::<S>::disconnect, (server, addr), ())
                    ||| exists|server: &mut WebTransportServer<S>, addr: SocketAddr, packet: &[u8], sent: Result<SendStep, SocketError>|
                        addr is V6 && *server == servers[i] && *final(server) == servers[i + 1]
                            && #[trigger] call_ensures(WebTransportServer::<S>::send, (server, addr, packet), sent)
                    ||| exists|server: &mut WebTransportServer<S>, addr: SocketAddr, outcome: DatagramOutcome, sent: Result<(), SocketError>|
                        addr is V6 && *server == servers[i] && *final(server) == servers[i + 1]
                            && #[trigger] call_ensures(WebTransportServer::<S>::datagram_sent, (server, addr, outcome), sent)
                },
            },
        servers[0]@.table.clients.contains_key(k),
        servers[0]@.table.recv_index <= k,
    ensures
        servers.last()@.table.clients.contains_key(k),
        ({
            let first = servers[0]@.table.clients[k].packets;
            let account = servers.last()@.table.clients[k].packets;
            &&& first.len() <= account.len()
            &&& account.subrange(0, first.len() as int) == first
            &&& forall|i: int|
                first.len() <= i < account.len() - 1 ==> (
                #[trigger] servers.last()@.table.clients[k].packets[i]) is Some
            &&& k < servers.last()@.table.recv_index ==> servers.last()@.table.lost.contains(k) || (
            account.len() > first.len() && account.last() is None)
            &&& answers.len() > 0 && answers.last() is Some && answers.last()->0 is Err ==> {
                &&& answers.last()->0 == Err::<(usize, SocketAddr), SocketError>(
                    SocketError::WouldBlock,
                )
                &&& k < servers.last()@.index_reads.last() ==> servers.last()@.table.lost.contains(k)
                    || (account.len() > first.len() && account.last() is None)
            }
        }),
{
    let views = servers.map_values(|server: WebTransportServer<S>| server@);
    let steps = Seq::new(
        answers.len(),
        |i: int|
            choose|step: crate::web_server_laws::RoundStep|
                crate::web_server_laws::step_leads(views[i], step, views[i + 1]) && (
                answers[i] is Some <==> step is Received) && (answers[i] is Some ==> step->answer
                    == answers[i]->0),
    );
    assert forall|i: int| 0 <= i < answers.len() implies crate::web_server_laws::step_leads(
        views[i],
        #[trigger] steps[i],
        views[i + 1],
    ) && (answers[i] is Some <==> steps[i] is Received) && (answers[i] is Some ==> steps[i]->answer
        == answers[i]->0) by {
        let answer = answers[i];
        let step = lemma_call_is_step(servers[i], answers[i], servers[i + 1]);
        assert(crate::web_server_laws::step_leads(views[i], step, views[i + 1]));
    }
    assert(views[0] == servers[0]@);
    assert(views.last() == servers.last()@);
    if answers.len() > 0 {
        assert(steps.last() == steps[answers.len() - 1]);
    }
    crate::web_server_laws::rounds_drain_every_client(views, steps, k);
}

/// A server tells where it listens, whether it was closed, and the session of every active client and of
/// nobody else. It encrypts, and packets can get lost.
pub proof fn servers_tell_their_state<S>(
    server: WebTransportServer<S>,
    addr: SocketAddr,
    closed: bool,
    client_idx: u64,
    session: Option<&S>,
    encrypted: bool,
    reliable: bool,
)
    requires
        call_ensures(WebTransportServer::<S>::addr, (&server,), addr),
        call_ensures(WebTransportServer::<S>::is_closed, (&server,), closed),
        call_ensures(WebTransportServer::<S>::session, (&server, client_idx), session),
        call_ensures(WebTransportServer::<S>::is_encrypted, (&server,), encrypted),
        call_ensures(WebTransportServer::<S>::is_reliable, (&server,), reliable),
    ensures
        addr == server@.addr,
        closed == server@.closed,
        session is Some <==> server@.table.clients.contains_key(client_idx),
        session is Some ==> *session->0 == server@.table.clients[client_idx].session,
        encrypted,
        !reliable,
{
}

/// Whoever asks for a config is refused because of the names exactly if one of them cannot stand in a
/// certificate.
pub proof fn configs_fail_for_bad_names(
    listen: SocketAddr,
    proxies: Vec<WebServerDestination>,
    max_clients: usize,
    any_time: i128,
    terms: Result<crate::cert::CertificateTerms, CertificateError>,
    r: Result<(WebTransportServerConfig, ServerCertHash), CertificateError>,
)
    requires
        -377_705_116_800_000_000_000 <= any_time <= 253_402_300_799_999_999_999,
        call_ensures(crate::cert::certificate_params, (any_time, 0, 0, &proxies), terms),
        call_ensures(
            WebTransportServerConfig::new_selfsigned_with_proxies,
            (listen, &proxies, max_clients),
            r,
        ),
    ensures
        terms is Err <==> r is Err && r->Err_0 == CertificateError::InvalidName,
        r is Err && r->Err_0 == CertificateError::InvalidTime ==> exists|now: i128| #[trigger]
            crate::cert::clock_showed(now) && now - 3_600_000_000_000 < -62_167_219_200_000_000_000,
{
    let made = choose|made: Result<CertificateAndKey, CertificateError>| #[trigger]
        crate::cert::made_for(proxies@, HOUR, CERT_VALIDITY, made) && holds_certificate(
            made,
            listen,
            max_clients,
            r,
        );
    let now = choose|now: i128|
        crate::cert::TIME_MIN <= now <= crate::cert::TIME_MAX
            && #[trigger] crate::cert::clock_showed(now) && crate::cert::made_at(
            now,
            proxies@,
            HOUR,
            CERT_VALIDITY,
            made,
        );
    assert(crate::cert::clock_showed(now) && crate::cert::made_at(
        now,
        proxies@,
        HOUR,
        CERT_VALIDITY,
        made,
    ));
    let says = crate::cert::dated_params(now, HOUR, CERT_VALIDITY, proxies@);
    if crate::cert::are_valid_names(crate::cert::alt_names(proxies@)) && says.not_before
        >= crate::cert::YEAR_ZERO {
        let params = choose|params: rcgen::CertificateParams|
            crate::cert::params_say(params) == says.in_seconds()
                && #[trigger] crate::cert::generated(params, made);
        crate::cert::lemma_generation_fails_for_a_reason(params, made);
    }
}

} // verus!
