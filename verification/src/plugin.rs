//! What a server does in every frame of an application.

use vstd::prelude::*;

use crate::connection::{LocalClient, RemoteConnection, Transport, TransportError};
use crate::server::{Server, ServerEvent, UpdateTrace};
use crate::ClientId;

verus! {

/// The part of a server in an application.
pub struct RenetServerPlugin;

impl RenetServerPlugin {
    /// Updates the server.
    pub fn update_system<T: Transport, R: RemoteConnection, L: LocalClient>(
        server: &mut Server<T, R, L>,
    ) -> (r: Result<(), TransportError>)
        ensures
            r is Ok,
            exists|trace: UpdateTrace<R, L>| #[trigger]
                old(server).update_traced(final(server), trace),
    {
        server.update()
    }

    /// Takes all events of the server, oldest first.
    pub fn emit_server_events_system<T: Transport, R: RemoteConnection, L: LocalClient>(
        server: &mut Server<T, R, L>,
    ) -> (r: Vec<ServerEvent<ClientId>>)
        ensures
            r@ == old(server).events@,
            final(server).events@ == Seq::<ServerEvent<ClientId>>::empty(),
            final(server).same_settings(old(server)),
            final(server).transport == old(server).transport,
            final(server).remote_clients == old(server).remote_clients,
            final(server).local_clients == old(server).local_clients,
            final(server).connection_control == old(server).connection_control,
    {
        let mut events: Vec<ServerEvent<ClientId>> = Vec::new();
        assert(events@ + server.events@ =~= old(server).events@);
        loop
            invariant
                events@ + server.events@ =~= old(server).events@,
                server.same_settings(old(server)),
                server.transport == old(server).transport,
                server.remote_clients == old(server).remote_clients,
                server.local_clients == old(server).local_clients,
                server.connection_control == old(server).connection_control,
            ensures
                server.events@.len() == 0,
            decreases server.events@.len(),
        {
            match server.get_event() {
                Some(event) => {
                    events.push(event);
                },
                None => {
                    break ;
                },
            }
        }
        events
    }
}

} // verus!
