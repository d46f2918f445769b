//! What the server needs from its transport and from the connections it serves.
//!
//! Every trait here keeps an account of the calls made through it, with their answers. A contract
//! that speaks of the account says which calls were made, with which arguments and in which order,
//! whatever the answers were. The types in [`crate::recorded`] implement the traits.

use vstd::prelude::*;

use crate::control::{ConnectionControl, ControlView};
use crate::{ClientId, Payload};

verus! {

/// Why a client was disconnected.
#[derive(Debug, Clone, Copy, PartialEq, Eq, Structural)]
pub enum DisconnectionReason {
    /// The server ended the connection.
    DisconnectedByServer,
    /// The server has no place left.
    MaxPlayer,
}

/// Why a message could not be sent or received.
#[derive(Debug, Clone, Copy, PartialEq, Eq, Structural)]
pub enum MessageError {
    /// The server knows no client with this identifier.
    ClientNotFound,
    /// The connection has no channel with this identifier.
    InvalidChannel { channel_id: u8 },
}

/// The transport could not receive or send.
#[derive(Debug, Clone, Copy, PartialEq, Eq, Structural)]
pub struct TransportError;

/// A payload could not be processed.
#[derive(Debug, Clone, Copy, PartialEq, Eq, Structural)]
pub struct PayloadError;

/// A connection is over.
#[derive(Debug, Clone, Copy, PartialEq, Eq, Structural)]
pub struct ConnectionLost;

/// One call made through a [`Transport`].
pub enum TransportCall {
    /// [`Transport::recv`], with the payload that it gave, if any.
    Recv { control: ControlView, received: Option<(ClientId, Seq<u8>)> },
    /// [`Transport::update`], with the clients that want to connect.
    Update { connecting: Seq<ClientId> },
    /// [`Transport::send`].
    Send { client_id: ClientId, payload: Seq<u8> },
    /// [`Transport::confirm_connect`].
    ConfirmConnect { client_id: ClientId },
    /// [`Transport::disconnect`].
    Disconnect { client_id: ClientId, reason: DisconnectionReason },
}

/// The payload in an answer of [`Transport::recv`], if there is one.
pub open spec fn received_payload(
    answer: Result<Option<(ClientId, Payload)>, TransportError>,
) -> Option<(ClientId, Seq<u8>)> {
    match answer {
        Ok(Some((client_id, payload))) => Some((client_id, payload@)),
        _ => None,
    }
}

/// The layer that moves payloads between the server and its remote clients.
pub trait Transport: Sized {
    /// The calls made so far.
    spec fn calls(&self) -> Seq<TransportCall>;

    /// Takes the next payload that has arrived from a client that `connection_control` permits.
    fn recv(&mut self, connection_control: &ConnectionControl) -> (r: Result<
        Option<(ClientId, Payload)>,
        TransportError,
    >)
        ensures
            final(self).calls() == old(self).calls().push(
                TransportCall::Recv {
                    control: connection_control@,
                    received: received_payload(r),
                },
            ),
    ;

    /// Advances the transport, and returns the clients that want to connect.
    fn update(&mut self) -> (r: Vec<ClientId>)
        ensures
            final(self).calls() == old(self).calls().push(
                TransportCall::Update { connecting: r@ },
            ),
    ;

    /// Sends a payload to a client.
    fn send(&mut self, client_id: ClientId, payload: &[u8])
        ensures
            final(self).calls() == old(self).calls().push(
                TransportCall::Send { client_id, payload: payload@ },
            ),
    ;

    /// Lets a client that wants to connect in.
    fn confirm_connect(&mut self, client_id: ClientId)
        ensures
            final(self).calls() == old(self).calls().push(
                TransportCall::ConfirmConnect { client_id },
            ),
    ;

    /// Ends the connection to a client.
    fn disconnect(&mut self, client_id: ClientId, reason: DisconnectionReason)
        ensures
            final(self).calls() == old(self).calls().push(
                TransportCall::Disconnect { client_id, reason },
            ),
    ;
}

/// One call made through a connection.
pub enum ConnectionCall {
    /// [`LocalClient::open`].
    Open { client_id: ClientId, channels: Seq<u8> },
    /// [`MessageEndpoint::send_message`].
    SendMessage { channel_id: u8, message: Seq<u8>, answer: Result<(), MessageError> },
    /// [`MessageEndpoint::receive_message`].
    ReceiveMessage { channel_id: u8, received: Result<Option<Seq<u8>>, MessageError> },
    /// [`RemoteConnection::process_payload`].
    ProcessPayload { payload: Seq<u8>, processed: bool },
    /// [`RemoteConnection::update`].
    Update { alive: bool },
    /// [`RemoteConnection::send_packets`], with the packets that were sent, unless it failed.
    SendPackets { packets: Option<Seq<Seq<u8>>> },
    /// [`LocalClient::is_connected`].
    IsConnected { connected: bool },
    /// [`LocalClient::disconnect`].
    Disconnect,
}

/// The calls that send packets to a client, in order. There are none if there are no packets.
pub open spec fn packet_calls(client_id: ClientId, packets: Option<Seq<Seq<u8>>>) -> Seq<
    TransportCall,
> {
    match packets {
        Some(packets) => Seq::new(
            packets.len(),
            |i: int| TransportCall::Send { client_id, payload: packets[i] },
        ),
        None => Seq::empty(),
    }
}

/// An answer of [`MessageEndpoint::receive_message`] with the bytes of the message.
pub open spec fn received_message(answer: Result<Option<Payload>, MessageError>) -> Result<
    Option<Seq<u8>>,
    MessageError,
> {
    match answer {
        Ok(Some(message)) => Ok(Some(message@)),
        Ok(None) => Ok(None),
        Err(e) => Err(e),
    }
}

/// The server's end of a connection that carries messages.
pub trait MessageEndpoint: Sized {
    /// The calls made so far.
    spec fn calls(&self) -> Seq<ConnectionCall>;

    /// Puts a message on a channel.
    fn send_message(&mut self, channel_id: u8, message: Payload) -> (r: Result<(), MessageError>)
        ensures
            final(self).calls() == old(self).calls().push(
                ConnectionCall::SendMessage { channel_id, message: message@, answer: r },
            ),
    ;

    /// Takes the next message from a channel.
    fn receive_message(&mut self, channel_id: u8) -> (r: Result<Option<Payload>, MessageError>)
        ensures
            final(self).calls() == old(self).calls().push(
                ConnectionCall::ReceiveMessage { channel_id, received: received_message(r) },
            ),
    ;
}

/// The server's end of the connection to a client behind the transport.
pub trait RemoteConnection: MessageEndpoint {
    /// Measurements of the connection.
    type NetworkInfo;

    /// The client at the other end.
    spec fn id(&self) -> ClientId;

    /// The latest measurements.
    spec fn info(&self) -> Self::NetworkInfo;

    /// The client at the other end.
    fn client_id(&self) -> (r: ClientId)
        ensures
            r == self.id(),
    ;

    /// The latest measurements.
    fn network_info(&self) -> (r: &Self::NetworkInfo)
        ensures
            *r == self.info(),
    ;

    /// Takes in a payload that the transport received from the client.
    fn process_payload(&mut self, payload: &[u8]) -> (r: Result<(), PayloadError>)
        ensures
            final(self).calls() == old(self).calls().push(
                ConnectionCall::ProcessPayload { payload: payload@, processed: r is Ok },
            ),
    ;

    /// Advances the connection; an error means that it is over.
    fn update(&mut self) -> (r: Result<(), ConnectionLost>)
        ensures
            final(self).calls() == old(self).calls().push(
                ConnectionCall::Update { alive: r is Ok },
            ),
    ;

    /// Hands what is to be sent to the transport.
    fn send_packets<T: Transport>(&mut self, transport: &mut T) -> (r: Result<(), TransportError>)
        ensures
            final(self).id() == old(self).id(),
            exists|packets: Option<Seq<Seq<u8>>>|
                {
                    &&& packets is Some <==> r is Ok
                    &&& final(self).calls() == old(self).calls().push(
                        ConnectionCall::SendPackets { packets },
                    )
                    &&& final(transport).calls() == old(transport).calls() + #[trigger]
                        packet_calls(old(self).id(), packets)
                },
    ;
}

/// The server's end of the connection to a client in the same process.
pub trait LocalClient: MessageEndpoint {
    /// The client's end.
    type Connected;

    /// The two ends came out of one call that opened a connection.
    spec fn paired(connected: Self::Connected, local_client: Self) -> bool;

    /// Opens a connection with the given channels, and returns both ends.
    fn open(client_id: ClientId, channels: Vec<u8>) -> (r: (Self::Connected, Self))
        ensures
            Self::paired(r.0, r.1),
            r.1.calls() == seq![ConnectionCall::Open { client_id, channels: channels@ }],
    ;

    /// Asks whether the client's end is still there.
    fn is_connected(&mut self) -> (r: bool)
        ensures
            final(self).calls() == old(self).calls().push(
                ConnectionCall::IsConnected { connected: r },
            ),
    ;

    /// Ends the connection.
    fn disconnect(&mut self)
        ensures
            final(self).calls() == old(self).calls().push(ConnectionCall::Disconnect),
    ;
}

} // verus!
