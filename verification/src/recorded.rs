//! Transports and connections that keep an account of what is done with them.
//!
//! The types here make such a transport or connection of any implementation of [`TransportEnd`],
//! [`RemoteEnd`] or [`LocalEnd`], of which nothing is assumed. Every call is passed on to it: what
//! becomes of the implementation and what is returned are an outcome of the same call there.

use vstd::prelude::*;

use crate::connection::{
    ConnectionCall, ConnectionLost, DisconnectionReason, LocalClient, MessageEndpoint,
    MessageError, PayloadError, RemoteConnection, Transport, TransportCall, TransportError,
};
use crate::control::ConnectionControl;
use crate::{ClientId, Payload};

verus! {

/// A layer that moves payloads between the server and its remote clients.
pub trait TransportEnd: Sized {
    /// Takes the next payload that has arrived from a client that `connection_control` permits.
    fn recv(&mut self, connection_control: &ConnectionControl) -> Result<
        Option<(ClientId, Payload)>,
        TransportError,
    >;

    /// Advances the transport, and returns the clients that want to connect.
    fn update(&mut self) -> Vec<ClientId>;

    /// Sends a payload to a client.
    fn send(&mut self, client_id: ClientId, payload: &[u8]);

    /// Lets a client that wants to connect in.
    fn confirm_connect(&mut self, client_id: ClientId);

    /// Ends the connection to a client.
    fn disconnect(&mut self, client_id: ClientId, reason: DisconnectionReason);
}

/// One end of a connection that carries messages.
pub trait MessageEnd: Sized {
    /// Puts a message on a channel.
    fn send_message(&mut self, channel_id: u8, message: Payload) -> Result<(), MessageError>;

    /// Takes the next message from a channel.
    fn receive_message(&mut self, channel_id: u8) -> Result<Option<Payload>, MessageError>;
}

/// The server's end of a connection to a client behind the transport.
pub trait RemoteEnd: MessageEnd {
    /// Measurements of the connection.
    type NetworkInfo;

    /// The latest measurements.
    fn network_info(&self) -> Self::NetworkInfo;

    /// Takes in a payload that the transport received from the client.
    fn process_payload(&mut self, payload: &[u8]) -> Result<(), PayloadError>;

    /// Advances the connection; an error means that it is over.
    fn update(&mut self) -> Result<(), ConnectionLost>;

    /// The packets that are to be sent to the client.
    fn take_packets(&mut self) -> Result<Vec<Payload>, TransportError>;
}

/// The server's end of a connection to a client in the same process.
pub trait LocalEnd: MessageEnd {
    /// The client's end.
    type Connected;

    /// Opens a connection with the given channels, and returns both ends.
    fn open(client_id: ClientId, channels: Vec<u8>) -> (Self::Connected, Self);

    /// Whether the client's end is still there.
    fn is_connected(&self) -> bool;

    /// Ends the connection.
    fn disconnect(&mut self);
}

/// A transport with its account.
pub struct RecordedTransport<E: TransportEnd> {
    /// The transport itself.
    pub end: E,
    calls: Ghost<Seq<TransportCall>>,
}

impl<E: TransportEnd> RecordedTransport<E> {
    /// The transport itself.
    pub closed spec fn inner(&self) -> E {
        self.end
    }

    /// Makes a transport with an empty account.
    pub fn new(end: E) -> (r: Self)
        ensures
            r.inner() == end,
            r.calls() == Seq::<TransportCall>::empty(),
    {
        RecordedTransport { end, calls: Ghost(Seq::empty()) }
    }
}

impl<E: TransportEnd> Transport for RecordedTransport<E> {
    closed spec fn calls(&self) -> Seq<TransportCall> {
        self.calls@
    }

    fn recv(&mut self, connection_control: &ConnectionControl) -> (r: Result<
        Option<(ClientId, Payload)>,
        TransportError,
    >)
        ensures
            exists|end: &mut E|
                *end == old(self).inner() && *final(end) == final(self).inner() && #[trigger] call_ensures(
                    E::recv,
                    (end, connection_control),
                    r,
                ),
    {
        let answer = self.end.recv(connection_control);
        self.calls = Ghost(
            self.calls@.push(
                TransportCall::Recv {
                    control: connection_control@,
                    received: crate::connection::received_payload(answer),
                },
            ),
        );
        answer
    }

    fn update(&mut self) -> (r: Vec<ClientId>)
        ensures
            exists|end: &mut E|
                *end == old(self).inner() && *final(end) == final(self).inner() && #[trigger] call_ensures(
                    E::update,
                    (end,),
                    r,
                ),
    {
        let connecting = self.end.update();
        self.calls = Ghost(self.calls@.push(TransportCall::Update { connecting: connecting@ }));
        connecting
    }

    fn send(&mut self, client_id: ClientId, payload: &[u8])
        ensures
            exists|end: &mut E|
                *end == old(self).inner() && *final(end) == final(self).inner() && #[trigger] call_ensures(
                    E::send,
                    (end, client_id, payload),
                    (),
                ),
    {
        self.end.send(client_id, payload);
        self.calls = Ghost(
            self.calls@.push(TransportCall::Send { client_id, payload: payload@ }),
        );
    }

    fn confirm_connect(&mut self, client_id: ClientId)
        ensures
            exists|end: &mut E|
                *end == old(self).inner() && *final(end) == final(self).inner() && #[trigger] call_ensures(
                    E::confirm_connect,
                    (end, client_id),
                    (),
                ),
    {
        self.end.confirm_connect(client_id);
        self.calls = Ghost(self.calls@.push(TransportCall::ConfirmConnect { client_id }));
    }

    fn disconnect(&mut self, client_id: ClientId, reason: DisconnectionReason)
        ensures
            exists|end: &mut E|
                *end == old(self).inner() && *final(end) == final(self).inner() && #[trigger] call_ensures(
                    E::disconnect,
                    (end, client_id, reason),
                    (),
                ),
    {
        self.end.disconnect(client_id, reason);
        self.calls = Ghost(self.calls@.push(TransportCall::Disconnect { client_id, reason }));
    }
}

/// A connection to a client behind the transport, with its account.
pub struct RecordedRemote<E: RemoteEnd> {
    end: E,
    client_id: ClientId,
    network_info: E::NetworkInfo,
    calls: Ghost<Seq<ConnectionCall>>,
}

impl<E: RemoteEnd> RecordedRemote<E> {
    /// The connection itself.
    pub closed spec fn inner(&self) -> E {
        self.end
    }

    /// Makes a connection to a client, with an empty account.
    pub fn new(client_id: ClientId, end: E) -> (r: Self)
        ensures
            r.id() == client_id,
            r.inner() == end,
            call_ensures(E::network_info, (&end,), r.info()),
            r.calls() == Seq::<ConnectionCall>::empty(),
    {
        let network_info = end.network_info();
        RecordedRemote { end, client_id, network_info, calls: Ghost(Seq::empty()) }
    }
}

impl<E: RemoteEnd> MessageEndpoint for RecordedRemote<E> {
    closed spec fn calls(&self) -> Seq<ConnectionCall> {
        self.calls@
    }

    fn send_message(&mut self, channel_id: u8, message: Payload) -> (r: Result<(), MessageError>)
        ensures
            exists|end: &mut E|
                *end == old(self).inner() && *final(end) == final(self).inner() && #[trigger] call_ensures(
                    E::send_message,
                    (end, channel_id, message),
                    r,
                ),
    {
        let ghost content = message@;
        let answer = self.end.send_message(channel_id, message);
        self.calls = Ghost(
            self.calls@.push(
                ConnectionCall::SendMessage { channel_id, message: content, answer },
            ),
        );
        answer
    }

    fn receive_message(&mut self, channel_id: u8) -> (r: Result<Option<Payload>, MessageError>)
        ensures
            exists|end: &mut E|
                *end == old(self).inner() && *final(end) == final(self).inner() && #[trigger] call_ensures(
                    E::receive_message,
                    (end, channel_id),
                    r,
                ),
    {
        let answer = self.end.receive_message(channel_id);
        self.calls = Ghost(
            self.calls@.push(
                ConnectionCall::ReceiveMessage {
                    channel_id,
                    received: crate::connection::received_message(answer),
                },
            ),
        );
        answer
    }
}

/// The bytes of packets.
pub open spec fn contents(packets: Seq<Payload>) -> Seq<Seq<u8>> {
    packets.map_values(|packet: Payload| packet@)
}

/// Sends packets to a client, in order.
pub fn send_all<T: Transport>(transport: &mut T, client_id: ClientId, packets: &Vec<Payload>)
    ensures
        final(transport).calls() == old(transport).calls() + crate::connection::packet_calls(
            client_id,
            Some(contents(packets@)),
        ),
{
    for i in 0..packets.len()
        invariant
            transport.calls() =~= old(transport).calls() + crate::connection::packet_calls(
                client_id,
                Some(contents(packets@.take(i as int))),
            ),
    {
        transport.send(client_id, packets[i].as_slice());
        assert(packets@.take(i + 1) =~= packets@.take(i as int).push(packets@[i as int]));
    }
    assert(packets@.take(packets@.len() as int) =~= packets@);
}

impl<E: RemoteEnd> RemoteConnection for RecordedRemote<E> {
    type NetworkInfo = E::NetworkInfo;

    closed spec fn id(&self) -> ClientId {
        self.client_id
    }

    closed spec fn info(&self) -> E::NetworkInfo {
        self.network_info
    }

    fn client_id(&self) -> ClientId {
        self.client_id
    }

    fn network_info(&self) -> &E::NetworkInfo {
        &self.network_info
    }

    fn process_payload(&mut self, payload: &[u8]) -> (r: Result<(), PayloadError>)
        ensures
            exists|end: &mut E|
                *end == old(self).inner() && *final(end) == final(self).inner() && #[trigger] call_ensures(
                    E::process_payload,
                    (end, payload),
                    r,
                ),
    {
        let answer = self.end.process_payload(payload);
        self.calls = Ghost(
            self.calls@.push(
                ConnectionCall::ProcessPayload { payload: payload@, processed: answer is Ok },
            ),
        );
        answer
    }

    fn update(&mut self) -> (r: Result<(), ConnectionLost>)
        ensures
            exists|end: &mut E|
                *end == old(self).inner() && *final(end) == final(self).inner() && #[trigger] call_ensures(
                    E::update,
                    (end,),
                    r,
                ),
            call_ensures(E::network_info, (&final(self).inner(),), final(self).info()),
    {
        let answer = self.end.update();
        self.network_info = self.end.network_info();
        self.calls = Ghost(self.calls@.push(ConnectionCall::Update { alive: answer is Ok }));
        answer
    }

    fn send_packets<T: Transport>(&mut self, transport: &mut T) -> (r: Result<(), TransportError>)
        ensures
            exists|end: &mut E, taken: Result<Vec<Payload>, TransportError>|
                {
                    &&& *end == old(self).inner()
                    &&& *final(end) == final(self).inner()
                    &&& #[trigger] call_ensures(E::take_packets, (end,), taken)
                    &&& final(transport).calls() == old(transport).calls()
                        + crate::connection::packet_calls(
                        old(self).id(),
                        match taken {
                            Ok(packets) => Some(contents(packets@)),
                            Err(_) => None,
                        },
                    )
                },
    {
        let ghost mut packets: Option<Seq<Seq<u8>>> = None;
        let given = self.end.take_packets();
        let ghost logged = given;
        let answer = match given {
            Ok(taken) => {
                send_all(transport, self.client_id, &taken);
                proof {
                    packets = Some(contents(taken@));
                }
                Ok(())
            },
            Err(e) => Err(e),
        };
        self.calls = Ghost(self.calls@.push(ConnectionCall::SendPackets { packets }));
        proof {
            let listed = match logged {
                Ok(taken) => Some(contents(taken@)),
                Err(_) => None,
            };
            assert(packets == listed);
            assert(packets is Some <==> answer is Ok);
            assert(transport.calls() =~= old(transport).calls() + crate::connection::packet_calls(
                old(self).id(),
                packets,
            ));
        }
        answer
    }
}

/// A connection to a client in the same process, with its account.
pub struct RecordedLocal<E: LocalEnd> {
    end: E,
    /// The client's end that came with this one.
    connected: Ghost<E::Connected>,
    calls: Ghost<Seq<ConnectionCall>>,
}

impl<E: LocalEnd> RecordedLocal<E> {
    /// The connection itself.
    pub closed spec fn inner(&self) -> E {
        self.end
    }
}

impl<E: LocalEnd> MessageEndpoint for RecordedLocal<E> {
    closed spec fn calls(&self) -> Seq<ConnectionCall> {
        self.calls@
    }

    fn send_message(&mut self, channel_id: u8, message: Payload) -> (r: Result<(), MessageError>)
        ensures
            exists|end: &mut E|
                *end == old(self).inner() && *final(end) == final(self).inner() && #[trigger] call_ensures(
                    E::send_message,
                    (end, channel_id, message),
                    r,
                ),
    {
        let ghost content = message@;
        let answer = self.end.send_message(channel_id, message);
        self.calls = Ghost(
            self.calls@.push(
                ConnectionCall::SendMessage { channel_id, message: content, answer },
            ),
        );
        answer
    }

    fn receive_message(&mut self, channel_id: u8) -> (r: Result<Option<Payload>, MessageError>)
        ensures
            exists|end: &mut E|
                *end == old(self).inner() && *final(end) == final(self).inner() && #[trigger] call_ensures(
                    E::receive_message,
                    (end, channel_id),
                    r,
                ),
    {
        let answer = self.end.receive_message(channel_id);
        self.calls = Ghost(
            self.calls@.push(
                ConnectionCall::ReceiveMessage {
                    channel_id,
                    received: crate::connection::received_message(answer),
                },
            ),
        );
        answer
    }
}

impl<E: LocalEnd> LocalClient for RecordedLocal<E> {
    type Connected = E::Connected;

    closed spec fn paired(connected: E::Connected, local_client: Self) -> bool {
        local_client.connected@ == connected
    }

    fn open(client_id: ClientId, channels: Vec<u8>) -> (r: (E::Connected, Self))
        ensures
            call_ensures(E::open, (client_id, channels), (r.0, r.1.inner())),
    {
        let ghost listed = channels@;
        let (connected, end) = E::open(client_id, channels);
        let ghost calls = seq![ConnectionCall::Open { client_id, channels: listed }];
        let local_client = RecordedLocal {
            end,
            connected: Ghost(connected),
            calls: Ghost(calls),
        };
        (connected, local_client)
    }

    fn is_connected(&mut self) -> (r: bool)
        ensures
            final(self).inner() == old(self).inner(),
            call_ensures(E::is_connected, (&old(self).inner(),), r),
    {
        let connected = self.end.is_connected();
        self.calls = Ghost(self.calls@.push(ConnectionCall::IsConnected { connected }));
        connected
    }

    fn disconnect(&mut self)
        ensures
            exists|end: &mut E|
                *end == old(self).inner() && *final(end) == final(self).inner() && #[trigger] call_ensures(
                    E::disconnect,
                    (end,),
                    (),
                ),
    {
        self.end.disconnect();
        self.calls = Ghost(self.calls@.push(ConnectionCall::Disconnect));
    }
}

} // verus!
