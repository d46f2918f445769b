//! Game networking: a message server over pluggable transports, and the sockets it runs on.

pub mod addr;
pub mod cert;
pub mod channel;
pub mod channels;
pub mod client_table;
pub mod collections;
pub mod connection;
pub mod control;
pub mod destination;
pub mod ends;
pub mod error;
pub mod memory_queue;
pub mod memory_socket;
pub mod packet_bytes;
pub mod percent;
pub mod plugin;
pub mod recorded;
pub mod request;
pub mod server;
pub mod server_laws;
pub mod slices;
pub mod web_server;
pub mod web_server_laws;
pub mod web_socket;
pub mod web_socket_client;
pub mod web_transport;
pub mod web_url;

use vstd::prelude::*;

verus! {

/// Unique identifier for clients.
pub type ClientId = u64;

/// The bytes of one message or packet.
pub type Payload = Vec<u8>;

} // verus!
