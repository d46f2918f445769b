//! What holds of a server, whatever its transport and its clients do.

use vstd::prelude::*;

use crate::connection::{
    ConnectionCall, DisconnectionReason, LocalClient, MessageError, RemoteConnection, Transport,
    TransportCall, TransportError,
};
use crate::server::{Server, ServerEvent, UpdateTrace};
use crate::{ClientId, Payload};

verus! {

broadcast use vstd::std_specs::hash::group_hash_axioms;

/// The transport gave a payload of the client in this call.
pub open spec fn gave_payload_of(call: TransportCall, client_id: ClientId) -> bool {
    call matches TransportCall::Recv { received: Some(given), .. } && given.0 == client_id
}

/// The payloads of a client among some calls, in the order of the calls.
pub open spec fn payloads_given(calls: Seq<TransportCall>, client_id: ClientId) -> Seq<Seq<u8>> {
    calls.filter(|call: TransportCall| gave_payload_of(call, client_id)).map_values(
        |call: TransportCall| (call->received->0).1,
    )
}

/// Among the calls that give some payloads are those of the client.
proof fn lemma_payloads_given(
    control: crate::control::ControlView,
    received: Seq<(ClientId, Seq<u8>)>,
    client_id: ClientId,
)
    ensures
        payloads_given(crate::server::recv_calls(control, received), client_id)
            == crate::server::payloads_of(received, client_id),
    decreases received.len(),
{
    let calls = crate::server::recv_calls(control, received);
    let wanted = |call: TransportCall| gave_payload_of(call, client_id);
    reveal(Seq::filter);
    if received.len() == 0 {
        assert(payloads_given(calls, client_id) =~= Seq::empty());
    } else {
        let init = received.drop_last();
        lemma_payloads_given(control, init, client_id);
        assert(calls.drop_last() =~= crate::server::recv_calls(control, init));
        let before = calls.drop_last().filter(wanted);
        if received.last().0 == client_id {
            assert(calls.filter(wanted) == before.push(calls.last()));
            assert(payloads_given(calls, client_id) =~= payloads_given(
                calls.drop_last(),
                client_id,
            ).push(received.last().1));
        } else {
            assert(calls.filter(wanted) == before);
        }
    }
}

/// The trace of an update.
proof fn update_trace<T: Transport, R: RemoteConnection, L: LocalClient>(
    before: Server<T, R, L>,
    after: Server<T, R, L>,
    answer: Result<(), TransportError>,
) -> (trace: UpdateTrace<R, L>)
    requires
        exists|server: &mut Server<T, R, L>|
            *server == before && *final(server) == after && #[trigger] call_ensures(
                Server::<T, R, L>::update,
                (server,),
                answer,
            ),
    ensures
        answer is Ok,
        before.update_traced(&after, trace),
{
    let server = choose|server: &mut Server<T, R, L>|
        *server == before && *final(server) == after && #[trigger] call_ensures(
            Server::<T, R, L>::update,
            (server,),
            answer,
        );
    assert(exists|trace: UpdateTrace<R, L>| #[trigger] before.update_traced(&after, trace));
    choose|trace: UpdateTrace<R, L>| #[trigger] before.update_traced(&after, trace)
}

/// The calls of an update, one by one.
proof fn lemma_update_calls<T: Transport, R: RemoteConnection, L: LocalClient>(
    before: Server<T, R, L>,
    after: Server<T, R, L>,
    trace: UpdateTrace<R, L>,
) -> (n: int)
    requires
        before.update_traced(&after, trace),
    ensures
        ({
            let first = before.transport.calls().len() as int;
            let calls = after.transport.calls();
            let drained = crate::server::drain_calls(before.connection_control@, trace.received);
            &&& n == first + drained.len()
            &&& first < n < calls.len()
            &&& calls.subrange(0, first) == before.transport.calls()
            &&& calls.subrange(first, n) == drained
            &&& calls[n] == (TransportCall::Update { connecting: trace.connecting })
            &&& calls.len() == n + 1 + trace.connecting.len()
            &&& forall|i: int|
                0 <= i < trace.connecting.len() ==> #[trigger] after.transport.calls()[n + 1 + i]
                    == crate::server::admission_calls(trace.connecting, after.is_full())[i]
        }),
{
    let first = before.transport.calls().len() as int;
    let calls = after.transport.calls();
    let drained = crate::server::drain_calls(before.connection_control@, trace.received);
    let n = first + drained.len();
    assert(calls.subrange(0, first) =~= before.transport.calls());
    assert(calls.subrange(first, n) =~= drained);
    n
}

/// The clients that an update is asked to admit are turned away, each with the reason that there is no
/// place left, exactly if as many clients are left as the server may have, remote and local ones
/// together. In every other case each of them is let in. They are answered in order, once each.
pub proof fn admission_goes_by_the_number_of_clients<
    T: Transport,
    R: RemoteConnection,
    L: LocalClient,
>(before: Server<T, R, L>, after: Server<T, R, L>, connecting: Vec<ClientId>, i: int)
    requires
        exists|server: &mut Server<T, R, L>|
            *server == before && *final(server) == after && #[trigger] call_ensures(
                Server::<T, R, L>::admit_clients,
                (server, connecting),
                (),
            ),
        0 <= i < connecting@.len(),
    ensures
        ({
            let first = before.transport.calls().len();
            let calls = after.transport.calls();
            &&& calls.len() == first + connecting@.len()
            &&& calls.subrange(0, first as int) == before.transport.calls()
            &&& before.remote_clients@.len() + before.local_clients@.len()
                >= before.config.max_clients ==> calls[first + i] == (TransportCall::Disconnect {
                client_id: connecting@[i],
                reason: DisconnectionReason::MaxPlayer,
            })
            &&& before.remote_clients@.len() + before.local_clients@.len()
                < before.config.max_clients ==> calls[first + i] == (TransportCall::ConfirmConnect {
                client_id: connecting@[i],
            })
        }),
        after.remote_clients@ == before.remote_clients@,
        after.local_clients@ == before.local_clients@,
        after.events@ == before.events@,
        after.config == before.config,
        after.channels_config == before.channels_config,
        after.connection_config == before.connection_config,
        after.connection_control == before.connection_control,
{
    let first = before.transport.calls().len() as int;
    assert(after.transport.calls().subrange(0, first) =~= before.transport.calls());
}

/// An update asks the transport for payloads until there is none, by the rules on who may connect, then
/// advances it, and then answers each client that wants to connect, in order: it is turned away, with
/// the reason that there is no place left, exactly if the remote clients that are left and the local
/// clients that are left are together as many as the server may have, and is let in if not. Nothing else
/// is done with the transport. (The number of payloads of one update is bounded by that of the 64-bit
/// numbers.)
pub proof fn updates_ask_the_transport_and_answer_it<
    T: Transport,
    R: RemoteConnection,
    L: LocalClient,
>(before: Server<T, R, L>, after: Server<T, R, L>, answer: Result<(), TransportError>)
    requires
        exists|server: &mut Server<T, R, L>|
            *server == before && *final(server) == after && #[trigger] call_ensures(
                Server::<T, R, L>::update,
                (server,),
                answer,
            ),
    ensures
        answer is Ok,
        after.config == before.config,
        after.connection_control == before.connection_control,
        after.channels_config == before.channels_config,
        exists|n: int|
            {
                let first = before.transport.calls().len() as int;
                &&& first < n < after.transport.calls().len()
                &&& (#[trigger] after.transport.calls()[n]) is Update
                &&& after.transport.calls().subrange(0, first) == before.transport.calls()
                &&& forall|i: int|
                    first <= i < n ==> (#[trigger] after.transport.calls()[i] matches TransportCall::Recv {
                        control,
                        received,
                    } && control == before.connection_control@ && (received is Some || i == n - 1))
                &&& after.transport.calls()[n - 1]->received is Some ==> n - first >= 0xffff_ffff_ffff_ffff
                &&& after.transport.calls().len() == n + 1 + after.transport.calls()[n]->connecting.len()
                &&& forall|i: int|
                    0 <= i < after.transport.calls()[n]->connecting.len() ==> #[trigger] after.transport.calls()[n + 1 + i] == if (
                    after.remote_clients@.len() + after.local_clients@.len()
                        >= before.config.max_clients) {
                        TransportCall::Disconnect {
                            client_id: after.transport.calls()[n]->connecting[i],
                            reason: DisconnectionReason::MaxPlayer,
                        }
                    } else {
                        TransportCall::ConfirmConnect { client_id: after.transport.calls()[n]->connecting[i] }
                    }
            },
        after.connection_config == before.connection_config,
{
    let trace = update_trace(before, after, answer);
    let n = lemma_update_calls(before, after, trace);
    let first = before.transport.calls().len() as int;
    let calls = after.transport.calls();
    assert forall|i: int| first <= i < n implies #[trigger] calls[i] == calls.subrange(first, n)[i
        - first] by {}
    assert(calls[n] is Update);
}

/// In an update every remote client takes in the payloads that the transport gave of it, all of them and
/// in the order in which they were given, and nothing of anybody else. Then it is updated, and stays
/// exactly if its connection is alive.
pub proof fn updates_hand_every_client_its_payloads<
    T: Transport,
    R: RemoteConnection,
    L: LocalClient,
>(
    before: Server<T, R, L>,
    after: Server<T, R, L>,
    answer: Result<(), TransportError>,
    n: int,
    client_id: ClientId,
)
    requires
        exists|server: &mut Server<T, R, L>|
            *server == before && *final(server) == after && #[trigger] call_ensures(
                Server::<T, R, L>::update,
                (server,),
                answer,
            ),
        before.transport.calls().len() <= n < after.transport.calls().len(),
        after.transport.calls()[n] is Update,
        before.remote_clients@.contains_key(client_id),
    ensures
        exists|connection: R|
            {
                let given = payloads_given(
                    after.transport.calls().subrange(before.transport.calls().len() as int, n),
                    client_id,
                );
                let past = before.remote_clients@[client_id].calls();
                &&& (#[trigger] connection.calls()).len() == past.len() + given.len() + 1
                &&& connection.calls().subrange(0, past.len() as int) == past
                &&& forall|i: int|
                    0 <= i < given.len() ==> (#[trigger] connection.calls()[before.remote_clients@[client_id].calls().len()
                        + i] matches
                        ConnectionCall::ProcessPayload { payload, .. } && payload == given[i])
                &&& connection.calls().last() == (ConnectionCall::Update {
                    alive: after.remote_clients@.contains_key(client_id),
                })
                &&& after.remote_clients@.contains_key(client_id)
                    ==> after.remote_clients@[client_id] == connection
            },
        after.config == before.config,
        after.channels_config == before.channels_config,
        after.connection_config == before.connection_config,
        after.connection_control == before.connection_control,
{
    let trace = update_trace(before, after, answer);
    let at = lemma_update_calls(before, after, trace);
    let first = before.transport.calls().len() as int;
    let calls = after.transport.calls();
    let control = before.connection_control@;
    let drained = crate::server::drain_calls(control, trace.received);
    assert(n == at) by {
        if n < at {
            assert(calls[n] == calls.subrange(first, at)[n - first]);
        } else if n > at {
            assert(calls[at + 1 + (n - at - 1)] == calls[n]);
        }
    }
    assert(payloads_given(drained, client_id) == crate::server::payloads_of(
        trace.received,
        client_id,
    )) by {
        lemma_payloads_given(control, trace.received, client_id);
        let given = crate::server::recv_calls(control, trace.received);
        reveal(Seq::filter);
        if trace.received.len() < crate::server::RECV_LIMIT {
            assert(drained.drop_last() =~= given);
        }
    }
    let connection = trace.remote[client_id];
    let past = before.remote_clients@[client_id].calls();
    let fed = trace.fed[client_id].calls();
    assert(crate::server::updated(fed, connection.calls()));
    assert(fed.take(past.len() as int) == past);
    assert(connection.calls().subrange(0, past.len() as int) =~= past) by {
        assert forall|i: int| 0 <= i < past.len() implies connection.calls()[i] == past[i] by {
            assert(fed.take(past.len() as int)[i] == fed[i]);
        }
    }
    let given = payloads_given(calls.subrange(first, n), client_id);
    assert forall|i: int| 0 <= i < given.len() implies (#[trigger] connection.calls()[past.len() + i]
        matches ConnectionCall::ProcessPayload { payload, .. } && payload == given[i]) by {
        assert(connection.calls()[past.len() + i] == fed[past.len() + i]);
    }
}

/// In an update every local client is asked once whether its other end is there, and stays exactly if
/// it is.
pub proof fn updates_check_every_local_client<T: Transport, R: RemoteConnection, L: LocalClient>(
    before: Server<T, R, L>,
    after: Server<T, R, L>,
    answer: Result<(), TransportError>,
    client_id: ClientId,
)
    requires
        exists|server: &mut Server<T, R, L>|
            *server == before && *final(server) == after && #[trigger] call_ensures(
                Server::<T, R, L>::update,
                (server,),
                answer,
            ),
        before.local_clients@.contains_key(client_id),
    ensures
        exists|connection: L|
            {
                &&& #[trigger] connection.calls() == before.local_clients@[client_id].calls().push(
                    ConnectionCall::IsConnected {
                        connected: after.local_clients@.contains_key(client_id),
                    },
                )
                &&& after.local_clients@.contains_key(client_id) ==> after.local_clients@[client_id]
                    == connection
            },
        after.config == before.config,
        after.channels_config == before.channels_config,
        after.connection_config == before.connection_config,
        after.connection_control == before.connection_control,
{
    let trace = update_trace(before, after, answer);
    let connection = trace.local[client_id];
    let past = before.local_clients@[client_id].calls();
    assert(crate::server::checked(past, connection.calls()));
}

/// Removing some of the keys of a map leaves the others.
proof fn lemma_keys_left<V>(map: Map<ClientId, V>, gone: Seq<ClientId>)
    requires
        map.dom().finite(),
        gone.no_duplicates(),
        gone.to_set().subset_of(map.dom()),
    ensures
        map.remove_keys(gone.to_set()).len() + gone.len() == map.len(),
{
    gone.unique_seq_to_set();
    vstd::seq_lib::seq_to_set_is_finite(gone);
    let left = map.remove_keys(gone.to_set());
    assert(left.dom() =~= map.dom().difference(gone.to_set()));
    vstd::set_lib::lemma_set_difference_len(map.dom(), gone.to_set());
    assert(map.dom().intersect(gone.to_set()) =~= gone.to_set());
}

/// An update connects nobody. For every remote client and for every local client that is no longer
/// there, it adds one event that says so, the remote ones first, and it adds no other. Events from before
/// stay in front.
pub proof fn updates_tell_who_has_gone<T: Transport, R: RemoteConnection, L: LocalClient>(
    before: Server<T, R, L>,
    after: Server<T, R, L>,
    answer: Result<(), TransportError>,
    client_id: ClientId,
)
    requires
        exists|server: &mut Server<T, R, L>|
            *server == before && *final(server) == after && #[trigger] call_ensures(
                Server::<T, R, L>::update,
                (server,),
                answer,
            ),
    ensures
        after.remote_clients@.dom().subset_of(before.remote_clients@.dom()),
        after.local_clients@.dom().subset_of(before.local_clients@.dom()),
        before.events@.is_prefix_of(after.events@),
        after.events@.len() + after.remote_clients@.len() + after.local_clients@.len()
            == before.events@.len() + before.remote_clients@.len() + before.local_clients@.len(),
        forall|i: int|
            before.events@.len() <= i < after.events@.len() ==> (
            #[trigger] after.events@[i]) is ClientDisconnected,
        forall|i: int|
            before.events@.len() <= i < before.events@.len() + before.remote_clients@.len()
                - after.remote_clients@.len() ==> {
                let gone = (#[trigger] after.events@[i])->ClientDisconnected_0;
                before.remote_clients@.contains_key(gone) && !after.remote_clients@.contains_key(gone)
            },
        forall|i: int|
            before.events@.len() + before.remote_clients@.len() - after.remote_clients@.len() <= i
                < after.events@.len() ==> {
                let gone = (#[trigger] after.events@[i])->ClientDisconnected_0;
                before.local_clients@.contains_key(gone) && !after.local_clients@.contains_key(gone)
            },
        (before.remote_clients@.contains_key(client_id) && !after.remote_clients@.contains_key(
            client_id,
        )) || (before.local_clients@.contains_key(client_id) && !after.local_clients@.contains_key(
            client_id,
        )) <==> exists|i: int|
            before.events@.len() <= i < after.events@.len() && #[trigger] after.events@[i]
                == ServerEvent::ClientDisconnected(client_id),
        after.config == before.config,
        after.channels_config == before.channels_config,
        after.connection_config == before.connection_config,
        after.connection_control == before.connection_control,
{
    let trace = update_trace(before, after, answer);
    crate::server::updates_report_who_is_gone(before, after, trace, client_id);
    assert(trace.remote.dom() == before.remote_clients@.dom());
    assert(trace.local.dom() == before.local_clients@.dom());
    lemma_keys_left(trace.remote, trace.lost_remote);
    lemma_keys_left(trace.local, trace.lost_local);
    let first = before.events@.len() as int;
    let middle = first + trace.lost_remote.len();
    assert forall|i: int| first <= i < middle implies {
        let gone = (#[trigger] after.events@[i])->ClientDisconnected_0;
        before.remote_clients@.contains_key(gone) && !after.remote_clients@.contains_key(gone)
    } by {
        assert(trace.lost_remote.to_set().contains(trace.lost_remote[i - first]));
    }
    assert forall|i: int| middle <= i < after.events@.len() implies {
        let gone = (#[trigger] after.events@[i])->ClientDisconnected_0;
        before.local_clients@.contains_key(gone) && !after.local_clients@.contains_key(gone)
    } by {
        assert(trace.lost_local.to_set().contains(trace.lost_local[i - middle]));
    }
    let seen = after.events@.skip(before.events@.len() as int);
    let gone = ServerEvent::ClientDisconnected(client_id);
    if seen.contains(gone) {
        let k = choose|k: int| 0 <= k < seen.len() && seen[k] == gone;
        assert(after.events@[before.events@.len() + k] == gone);
    }
    if exists|i: int|
        before.events@.len() <= i < after.events@.len() && #[trigger] after.events@[i] == gone {
        let i = choose|i: int|
            before.events@.len() <= i < after.events@.len() && #[trigger] after.events@[i] == gone;
        assert(seen[i - before.events@.len()] == gone);
    }
}

/// A client that is disconnected is gone, and one event says so. If it is remote, the transport is told
/// to end the connection, because the server did, and a local client of the same name stays. Of
/// anybody else nothing changes, and a client that is not there is left alone.
pub proof fn disconnecting_concerns_one_client<T: Transport, R: RemoteConnection, L: LocalClient>(
    before: Server<T, R, L>,
    after: Server<T, R, L>,
    client_id: ClientId,
    other: ClientId,
)
    requires
        exists|server: &mut Server<T, R, L>|
            *server == before && *final(server) == after && #[trigger] call_ensures(
                Server::<T, R, L>::disconnect,
                (server, &client_id),
                (),
            ),
        other != client_id,
    ensures
        !after.remote_clients@.contains_key(client_id),
        before.remote_clients@.contains_key(client_id) ==> {
            &&& after.transport.calls() == before.transport.calls().push(
                TransportCall::Disconnect {
                    client_id: before.remote_clients@[client_id].id(),
                    reason: DisconnectionReason::DisconnectedByServer,
                },
            )
            &&& after.local_clients@ == before.local_clients@
        },
        !before.remote_clients@.contains_key(client_id) ==> {
            &&& after.transport.calls() == before.transport.calls()
            &&& !after.local_clients@.contains_key(client_id)
            &&& before.local_clients@.contains_key(client_id) ==> exists|connection: L| #[trigger]
                connection.calls() == before.local_clients@[client_id].calls().push(
                    ConnectionCall::Disconnect,
                )
        },
        before.remote_clients@.contains_key(client_id) || before.local_clients@.contains_key(client_id)
            ==> after.events@ == before.events@.push(ServerEvent::ClientDisconnected(client_id)),
        !before.remote_clients@.contains_key(client_id) && !before.local_clients@.contains_key(client_id)
            ==> after.events@ == before.events@,
        after.remote_clients@.contains_key(other) <==> before.remote_clients@.contains_key(other),
        after.local_clients@.contains_key(other) <==> before.local_clients@.contains_key(other),
        before.remote_clients@.contains_key(other) ==> after.remote_clients@[other]
            == before.remote_clients@[other],
        before.local_clients@.contains_key(other) ==> after.local_clients@[other]
            == before.local_clients@[other],
        after.config == before.config,
        after.connection_control == before.connection_control,
        after.channels_config == before.channels_config,
        after.connection_config == before.connection_config,
{
    if !before.remote_clients@.contains_key(client_id) && before.local_clients@.contains_key(
        client_id,
    ) {
        assert(crate::server::told_to_disconnect(before.local_clients@[client_id]));
    }
}

/// Once all clients are disconnected, there is nobody left. There is one event for every remote client
/// and then one for every local client, and the transport is told of every remote client once.
pub proof fn disconnecting_all_leaves_nobody<T: Transport, R: RemoteConnection, L: LocalClient>(
    before: Server<T, R, L>,
    after: Server<T, R, L>,
    has_clients: bool,
    client_id: ClientId,
)
    requires
        exists|server: &mut Server<T, R, L>|
            *server == before && *final(server) == after && #[trigger] call_ensures(
                Server::<T, R, L>::disconnect_clients,
                (server,),
                (),
            ),
        call_ensures(Server::<T, R, L>::has_clients, (&after,), has_clients),
    ensures
        !has_clients,
        after.remote_clients@.len() == 0,
        after.local_clients@.len() == 0,
        before.events@.is_prefix_of(after.events@),
        after.events@.len() == before.events@.len() + before.remote_clients@.len()
            + before.local_clients@.len(),
        after.transport.calls().len() == before.transport.calls().len()
            + before.remote_clients@.len(),
        forall|i: int|
            before.transport.calls().len() <= i < after.transport.calls().len() ==> (
            #[trigger] after.transport.calls()[i] matches TransportCall::Disconnect { reason, .. }
                && reason == DisconnectionReason::DisconnectedByServer),
        before.remote_clients@.contains_key(client_id) ==> exists|i: int|
            before.transport.calls().len() <= i < after.transport.calls().len()
                && #[trigger] after.transport.calls()[i] == (TransportCall::Disconnect {
                client_id: before.remote_clients@[client_id].id(),
                reason: DisconnectionReason::DisconnectedByServer,
            }),
        before.remote_clients@.contains_key(client_id) || before.local_clients@.contains_key(client_id)
            <==> exists|i: int|
            before.events@.len() <= i < after.events@.len() && #[trigger] after.events@[i]
                == ServerEvent::ClientDisconnected(client_id),
        forall|i: int|
            before.events@.len() <= i < before.events@.len() + before.remote_clients@.len() ==> (
            #[trigger] after.events@[i] matches ServerEvent::ClientDisconnected(gone)
                && before.remote_clients@.contains_key(gone)),
        forall|i: int|
            before.events@.len() + before.remote_clients@.len() <= i < after.events@.len() ==> (
            #[trigger] after.events@[i] matches ServerEvent::ClientDisconnected(gone)
                && before.local_clients@.contains_key(gone)),
        before.local_clients@.contains_key(client_id) ==> exists|connection: L| #[trigger]
            connection.calls() == before.local_clients@[client_id].calls().push(
                ConnectionCall::Disconnect,
            ),
        after.config == before.config,
        after.channels_config == before.channels_config,
        after.connection_config == before.connection_config,
        after.connection_control == before.connection_control,
{
    let (remote, local) = choose|remote: Seq<ClientId>, local: Seq<ClientId>| #[trigger]
        before.all_disconnected(&after, remote, local);
    remote.unique_seq_to_set();
    local.unique_seq_to_set();
    let first = before.events@.len() as int;
    let told = before.transport.calls().len() as int;
    assert(after.events@.subrange(0, first) =~= before.events@);
    assert(after.remote_clients@.dom() =~= Set::empty());
    assert(after.local_clients@.dom() =~= Set::empty());
    assert(after.connected() =~= Set::empty());
    assert forall|i: int| first <= i < first + remote.len() implies (
    #[trigger] after.events@[i] matches ServerEvent::ClientDisconnected(gone)
        && before.remote_clients@.contains_key(gone)) by {
        assert((remote + local)[i - first] == remote[i - first]);
        assert(remote.to_set().contains(remote[i - first]));
    }
    assert forall|i: int| first + remote.len() <= i < after.events@.len() implies (
    #[trigger] after.events@[i] matches ServerEvent::ClientDisconnected(gone)
        && before.local_clients@.contains_key(gone)) by {
        assert((remote + local)[i - first] == local[i - first - remote.len()]);
        assert(local.to_set().contains(local[i - first - remote.len()]));
    }
    let gone = ServerEvent::ClientDisconnected(client_id);
    if before.remote_clients@.contains_key(client_id) {
        assert(remote.to_set().contains(client_id));
        let k = choose|k: int| 0 <= k < remote.len() && remote[k] == client_id;
        assert((remote + local)[k] == client_id);
        assert(after.events@[first + k] == gone);
        assert(after.transport.calls()[told + k] == (TransportCall::Disconnect {
            client_id: before.remote_clients@[client_id].id(),
            reason: DisconnectionReason::DisconnectedByServer,
        }));
    }
    if before.local_clients@.contains_key(client_id) {
        assert(local.to_set().contains(client_id));
        let k = choose|k: int| 0 <= k < local.len() && local[k] == client_id;
        assert((remote + local)[remote.len() + k] == client_id);
        assert(after.events@[first + remote.len() + k] == gone);
        assert(crate::server::told_to_disconnect(before.local_clients@[client_id]));
    }
    if exists|i: int|
        first <= i < after.events@.len() && #[trigger] after.events@[i] == gone {
        let i = choose|i: int| first <= i < after.events@.len() && #[trigger] after.events@[i] == gone;
        assert((remote + local)[i - first] == client_id);
        if i - first < remote.len() {
            assert(remote[i - first] == client_id);
            assert(remote.to_set().contains(client_id));
        } else {
            assert(local[i - first - remote.len()] == client_id);
            assert(local.to_set().contains(client_id));
        }
    }
}

/// A message goes to the remote client of that name, or else to the local one, once and as it is, and
/// the answer is that of the connection. If there is no such client, the answer says so. Nobody else is
/// sent anything.
pub proof fn messages_go_to_one_client<T: Transport, R: RemoteConnection, L: LocalClient>(
    before: Server<T, R, L>,
    after: Server<T, R, L>,
    client_id: ClientId,
    channel_id: u8,
    message: Payload,
    answer: Result<(), MessageError>,
    other: ClientId,
)
    requires
        exists|server: &mut Server<T, R, L>|
            *server == before && *final(server) == after && #[trigger] call_ensures(
                Server::<T, R, L>::send_message,
                (server, client_id, channel_id, message),
                answer,
            ),
        other != client_id,
    ensures
        before.remote_clients@.contains_key(client_id) ==> {
            &&& after.remote_clients@[client_id].calls()
                == before.remote_clients@[client_id].calls().push(
                ConnectionCall::SendMessage { channel_id, message: message@, answer },
            )
            &&& after.local_clients@ == before.local_clients@
        },
        !before.remote_clients@.contains_key(client_id) && before.local_clients@.contains_key(client_id)
            ==> after.local_clients@[client_id].calls()
            == before.local_clients@[client_id].calls().push(
            ConnectionCall::SendMessage { channel_id, message: message@, answer },
        ),
        !before.remote_clients@.contains_key(client_id) && !before.local_clients@.contains_key(client_id)
            ==> answer == Err::<(), MessageError>(MessageError::ClientNotFound),
        after.remote_clients@.dom() == before.remote_clients@.dom(),
        after.local_clients@.dom() == before.local_clients@.dom(),
        before.remote_clients@.contains_key(other) ==> after.remote_clients@[other]
            == before.remote_clients@[other],
        before.local_clients@.contains_key(other) ==> after.local_clients@[other]
            == before.local_clients@[other],
        after.transport == before.transport,
        after.events == before.events,
        after.config == before.config,
        after.channels_config == before.channels_config,
        after.connection_config == before.connection_config,
        after.connection_control == before.connection_control,
{
    assert(after.remote_clients@.dom() =~= before.remote_clients@.dom());
    assert(after.local_clients@.dom() =~= before.local_clients@.dom());
}

/// A message is taken from the remote client of that name, or else from the local one, and is what the
/// connection gave. If there is no such client, the answer says so. Nobody else is asked.
pub proof fn messages_come_from_one_client<T: Transport, R: RemoteConnection, L: LocalClient>(
    before: Server<T, R, L>,
    after: Server<T, R, L>,
    client_id: ClientId,
    channel_id: u8,
    answer: Result<Option<Payload>, MessageError>,
    other: ClientId,
)
    requires
        exists|server: &mut Server<T, R, L>|
            *server == before && *final(server) == after && #[trigger] call_ensures(
                Server::<T, R, L>::receive_message,
                (server, client_id, channel_id),
                answer,
            ),
        other != client_id,
    ensures
        before.remote_clients@.contains_key(client_id) ==> {
            &&& after.remote_clients@[client_id].calls().len()
                == before.remote_clients@[client_id].calls().len() + 1
            &&& after.remote_clients@[client_id].calls().drop_last()
                == before.remote_clients@[client_id].calls()
            &&& after.remote_clients@[client_id].calls().last() matches ConnectionCall::ReceiveMessage {
                channel_id: asked,
                received,
            } && asked == channel_id && match answer {
                Ok(Some(message)) => received == Ok::<Option<Seq<u8>>, MessageError>(Some(message@)),
                Ok(None) => received == Ok::<Option<Seq<u8>>, MessageError>(None),
                Err(e) => received == Err::<Option<Seq<u8>>, MessageError>(e),
            }
        },
        !before.remote_clients@.contains_key(client_id) && before.local_clients@.contains_key(client_id)
            ==> {
            &&& after.local_clients@[client_id].calls().len()
                == before.local_clients@[client_id].calls().len() + 1
            &&& after.local_clients@[client_id].calls().drop_last()
                == before.local_clients@[client_id].calls()
            &&& after.local_clients@[client_id].calls().last() matches ConnectionCall::ReceiveMessage {
                channel_id: asked,
                received,
            } && asked == channel_id && match answer {
                Ok(Some(message)) => received == Ok::<Option<Seq<u8>>, MessageError>(Some(message@)),
                Ok(None) => received == Ok::<Option<Seq<u8>>, MessageError>(None),
                Err(e) => received == Err::<Option<Seq<u8>>, MessageError>(e),
            }
        },
        !before.remote_clients@.contains_key(client_id) && !before.local_clients@.contains_key(client_id)
            ==> answer == Err::<Option<Payload>, MessageError>(MessageError::ClientNotFound),
        after.remote_clients@.dom() == before.remote_clients@.dom(),
        after.local_clients@.dom() == before.local_clients@.dom(),
        before.remote_clients@.contains_key(other) ==> after.remote_clients@[other]
            == before.remote_clients@[other],
        before.local_clients@.contains_key(other) ==> after.local_clients@[other]
            == before.local_clients@[other],
        after.transport == before.transport,
        after.events == before.events,
        after.config == before.config,
        after.channels_config == before.channels_config,
        after.connection_config == before.connection_config,
        after.connection_control == before.connection_control,
{
    assert(after.remote_clients@.dom() =~= before.remote_clients@.dom());
    assert(after.local_clients@.dom() =~= before.local_clients@.dom());
    if before.remote_clients@.contains_key(client_id) {
        assert(after.remote_clients@[client_id].calls().drop_last()
            =~= before.remote_clients@[client_id].calls());
    } else if before.local_clients@.contains_key(client_id) {
        assert(after.local_clients@[client_id].calls().drop_last()
            =~= before.local_clients@[client_id].calls());
    }
}

/// A message to all is sent to every remote client and to every local client, once and as it is.
/// Nobody joins or leaves.
pub proof fn broadcasts_reach_every_client<T: Transport, R: RemoteConnection, L: LocalClient>(
    before: Server<T, R, L>,
    after: Server<T, R, L>,
    channel_id: u8,
    message: Payload,
    client_id: ClientId,
)
    requires
        exists|server: &mut Server<T, R, L>|
            *server == before && *final(server) == after && #[trigger] call_ensures(
                Server::<T, R, L>::broadcast_message,
                (server, channel_id, message),
                (),
            ),
    ensures
        after.remote_clients@.dom() == before.remote_clients@.dom(),
        after.local_clients@.dom() == before.local_clients@.dom(),
        before.remote_clients@.contains_key(client_id) ==> {
            &&& after.remote_clients@[client_id].calls().len()
                == before.remote_clients@[client_id].calls().len() + 1
            &&& after.remote_clients@[client_id].calls().drop_last()
                == before.remote_clients@[client_id].calls()
            &&& after.remote_clients@[client_id].calls().last() matches ConnectionCall::SendMessage {
                channel_id: used,
                message: sent,
                ..
            } && used == channel_id && sent == message@
        },
        before.local_clients@.contains_key(client_id) ==> {
            &&& after.local_clients@[client_id].calls().len()
                == before.local_clients@[client_id].calls().len() + 1
            &&& after.local_clients@[client_id].calls().drop_last()
                == before.local_clients@[client_id].calls()
            &&& after.local_clients@[client_id].calls().last() matches ConnectionCall::SendMessage {
                channel_id: used,
                message: sent,
                ..
            } && used == channel_id && sent == message@
        },
        after.transport == before.transport,
        after.events == before.events,
        after.config == before.config,
        after.channels_config == before.channels_config,
        after.connection_config == before.connection_config,
        after.connection_control == before.connection_control,
{
    if before.remote_clients@.contains_key(client_id) {
        assert(after.remote_clients@[client_id].calls().drop_last()
            =~= before.remote_clients@[client_id].calls());
    }
    if before.local_clients@.contains_key(client_id) {
        assert(after.local_clients@[client_id].calls().drop_last()
            =~= before.local_clients@[client_id].calls());
    }
}

/// A message to all remote clients is sent to every one of them, once and as it is, and to no local
/// client.
pub proof fn remote_broadcasts_reach_every_remote_client<T: Transport, R: RemoteConnection, L: LocalClient>(
    before: Server<T, R, L>,
    after: Server<T, R, L>,
    channel_id: u8,
    message: Payload,
    client_id: ClientId,
)
    requires
        exists|server: &mut Server<T, R, L>|
            *server == before && *final(server) == after && #[trigger] call_ensures(
                Server::<T, R, L>::broadcast_message_remote,
                (server, channel_id, message),
                (),
            ),
    ensures
        after.remote_clients@.dom() == before.remote_clients@.dom(),
        after.local_clients@ == before.local_clients@,
        before.remote_clients@.contains_key(client_id) ==> {
            &&& after.remote_clients@[client_id].calls().len()
                == before.remote_clients@[client_id].calls().len() + 1
            &&& after.remote_clients@[client_id].calls().drop_last()
                == before.remote_clients@[client_id].calls()
            &&& after.remote_clients@[client_id].calls().last() matches ConnectionCall::SendMessage {
                channel_id: used,
                message: sent,
                ..
            } && used == channel_id && sent == message@
        },
        after.transport == before.transport,
        after.events == before.events,
        after.config == before.config,
        after.channels_config == before.channels_config,
        after.connection_config == before.connection_config,
        after.connection_control == before.connection_control,
{
    if before.remote_clients@.contains_key(client_id) {
        assert(after.remote_clients@[client_id].calls().drop_last()
            =~= before.remote_clients@[client_id].calls());
    }
}

/// A message to all local clients is sent to every one of them, once and as it is, and to no remote
/// client.
pub proof fn local_broadcasts_reach_every_local_client<T: Transport, R: RemoteConnection, L: LocalClient>(
    before: Server<T, R, L>,
    after: Server<T, R, L>,
    channel_id: u8,
    message: Payload,
    client_id: ClientId,
)
    requires
        exists|server: &mut Server<T, R, L>|
            *server == before && *final(server) == after && #[trigger] call_ensures(
                Server::<T, R, L>::broadcast_message_local,
                (server, channel_id, message),
                (),
            ),
    ensures
        after.local_clients@.dom() == before.local_clients@.dom(),
        after.remote_clients@ == before.remote_clients@,
        before.local_clients@.contains_key(client_id) ==> {
            &&& after.local_clients@[client_id].calls().len()
                == before.local_clients@[client_id].calls().len() + 1
            &&& after.local_clients@[client_id].calls().drop_last()
                == before.local_clients@[client_id].calls()
            &&& after.local_clients@[client_id].calls().last() matches ConnectionCall::SendMessage {
                channel_id: used,
                message: sent,
                ..
            } && used == channel_id && sent == message@
        },
        after.transport == before.transport,
        after.events == before.events,
        after.config == before.config,
        after.channels_config == before.channels_config,
        after.connection_config == before.connection_config,
        after.connection_control == before.connection_control,
{
    if before.local_clients@.contains_key(client_id) {
        assert(after.local_clients@[client_id].calls().drop_last()
            =~= before.local_clients@[client_id].calls());
    }
}

/// A local client that is created is connected from then on, which the newest event says. Its
/// connection was opened with every channel of the server, each once. Whoever held its name as a local
/// client is replaced, and nobody else is touched.
pub proof fn created_clients_are_connected<T: Transport, R: RemoteConnection, L: LocalClient>(
    before: Server<T, R, L>,
    after: Server<T, R, L>,
    client_id: ClientId,
    connected: L::Connected,
    is_connected: bool,
    channel_id: u8,
    other: ClientId,
)
    requires
        exists|server: &mut Server<T, R, L>|
            *server == before && *final(server) == after && #[trigger] call_ensures(
                Server::<T, R, L>::create_local_client,
                (server, client_id),
                connected,
            ),
        call_ensures(
            Server::<T, R, L>::is_client_connected,
            (&after, &client_id),
            is_connected,
        ),
        other != client_id,
    ensures
        is_connected,
        after.local_clients@.contains_key(client_id),
        L::paired(connected, after.local_clients@[client_id]),
        after.events@ == before.events@.push(ServerEvent::ClientConnected(client_id)),
        after.local_clients@[client_id].calls().len() == 1,
        after.local_clients@[client_id].calls()[0] matches ConnectionCall::Open {
            client_id: named,
            channels,
        } && named == client_id && channels.no_duplicates() && (channels.contains(channel_id)
            <==> before.channels_config@.contains_key(channel_id)),
        after.local_clients@.contains_key(other) <==> before.local_clients@.contains_key(other),
        before.local_clients@.contains_key(other) ==> after.local_clients@[other]
            == before.local_clients@[other],
        after.remote_clients@ == before.remote_clients@,
        after.transport == before.transport,
        after.config == before.config,
        after.channels_config == before.channels_config,
        after.connection_config == before.connection_config,
        after.connection_control == before.connection_control,
{
    let channels = choose|channels: Seq<u8>|
        {
            &&& after.local_clients@[client_id].calls() == seq![
                #[trigger] crate::server::open_call(client_id, channels),
            ]
            &&& channels.no_duplicates()
            &&& channels.to_set() == before.channels_config@.dom()
        };
    assert(channels.contains(channel_id) <==> channels.to_set().contains(channel_id));
    assert(before.local_clients@.insert(client_id, after.local_clients@[client_id]).contains_key(
        other,
    ) <==> before.local_clients@.contains_key(other));
}

/// Events are taken oldest first, each once.
pub proof fn events_come_in_order<T: Transport, R: RemoteConnection, L: LocalClient>(
    before: Server<T, R, L>,
    after: Server<T, R, L>,
    event: Option<ServerEvent<ClientId>>,
)
    requires
        exists|server: &mut Server<T, R, L>|
            *server == before && *final(server) == after && #[trigger] call_ensures(
                Server::<T, R, L>::get_event,
                (server,),
                event,
            ),
    ensures
        event is None <==> before.events@.len() == 0,
        event is None ==> after.events@ == before.events@,
        event matches Some(oldest) ==> before.events@ == seq![oldest] + after.events@,
        after.remote_clients@ == before.remote_clients@,
        after.local_clients@ == before.local_clients@,
        after.transport == before.transport,
        after.config == before.config,
        after.channels_config == before.channels_config,
        after.connection_config == before.connection_config,
        after.connection_control == before.connection_control,
{
    if event is Some {
        assert(before.events@ =~= seq![event->0] + after.events@);
    }
}

/// The clients that are listed are the ones that are connected, the remote ones and then the local ones,
/// and there are as many as there are connections.
pub proof fn everybody_is_listed<T: Transport, R: RemoteConnection, L: LocalClient>(
    server: Server<T, R, L>,
    ids: Vec<ClientId>,
    client_id: ClientId,
    is_connected: bool,
    has_clients: bool,
)
    requires
        call_ensures(Server::<T, R, L>::get_clients_id, (&server,), ids),
        call_ensures(
            Server::<T, R, L>::is_client_connected,
            (&server, &client_id),
            is_connected,
        ),
        call_ensures(Server::<T, R, L>::has_clients, (&server,), has_clients),
    ensures
        is_connected == (server.remote_clients@.contains_key(client_id)
            || server.local_clients@.contains_key(client_id)),
        ids@.contains(client_id) == is_connected,
        ids@.len() == server.remote_clients@.len() + server.local_clients@.len(),
        forall|i: int|
            0 <= i < server.remote_clients@.len() ==> server.remote_clients@.contains_key(
                #[trigger] ids@[i],
            ),
        forall|i: int|
            server.remote_clients@.len() <= i < ids@.len() ==> server.local_clients@.contains_key(
                #[trigger] ids@[i],
            ),
        has_clients == (ids@.len() > 0),
{
    let (remote, local) = choose|remote: Seq<ClientId>, local: Seq<ClientId>|
        ids@ == remote + local && #[trigger] remote.no_duplicates()
            && #[trigger] local.no_duplicates() && remote.to_set() == server.remote_clients@.dom()
            && local.to_set() == server.local_clients@.dom();
    remote.unique_seq_to_set();
    local.unique_seq_to_set();
    assert(ids@.contains(client_id) <==> ids@.to_set().contains(client_id));
    assert forall|i: int| 0 <= i < remote.len() implies server.remote_clients@.contains_key(
        #[trigger] ids@[i],
    ) by {
        assert(remote.to_set().contains(remote[i]));
    }
    assert forall|i: int| remote.len() <= i < ids@.len() implies server.local_clients@.contains_key(
        #[trigger] ids@[i],
    ) by {
        assert(local.to_set().contains(local[i - remote.len()]));
    }
    if ids@.len() > 0 {
        assert(ids@.to_set().contains(ids@[0]));
        assert(server.connected().contains(ids@[0]));
    } else {
        assert forall|id: ClientId| !server.connected().contains(id) by {
            assert(!ids@.to_set().contains(id));
        }
        assert(server.connected() =~= Set::empty());
    }
}

/// Everybody who is connected is on the allow list afterwards and not on the deny list. For everybody
/// else the lists stay as they are.
pub proof fn connected_clients_are_allowed<T: Transport, R: RemoteConnection, L: LocalClient>(
    before: Server<T, R, L>,
    after: Server<T, R, L>,
    client_id: ClientId,
)
    requires
        exists|server: &mut Server<T, R, L>|
            *server == before && *final(server) == after && #[trigger] call_ensures(
                Server::<T, R, L>::allow_connected_clients,
                (server,),
                (),
            ),
    ensures
        before.remote_clients@.contains_key(client_id) || before.local_clients@.contains_key(client_id)
            ==> after.connection_control@.allowed.contains(client_id)
            && !after.connection_control@.denied.contains(client_id),
        !before.remote_clients@.contains_key(client_id) && !before.local_clients@.contains_key(client_id)
            ==> after.connection_control@.allowed.contains(client_id)
            == before.connection_control@.allowed.contains(client_id)
            && after.connection_control@.denied.contains(client_id)
            == before.connection_control@.denied.contains(client_id),
        after.connection_control@.permission == before.connection_control@.permission,
        after.remote_clients == before.remote_clients,
        after.local_clients == before.local_clients,
        after.events == before.events,
        after.transport == before.transport,
        after.config == before.config,
        after.channels_config == before.channels_config,
        after.connection_config == before.connection_config,
{
}

/// A client that was allowed or denied at a server is so in the rules that the transport is given.
pub proof fn servers_keep_the_lists<T: Transport, R: RemoteConnection, L: LocalClient>(
    before: Server<T, R, L>,
    allowed: Server<T, R, L>,
    denied: Server<T, R, L>,
    client_id: ClientId,
)
    requires
        exists|server: &mut Server<T, R, L>|
            *server == before && *final(server) == allowed && #[trigger] call_ensures(
                Server::<T, R, L>::allow_client,
                (server, &client_id),
                (),
            ),
        exists|server: &mut Server<T, R, L>|
            *server == before && *final(server) == denied && #[trigger] call_ensures(
                Server::<T, R, L>::deny_client,
                (server, &client_id),
                (),
            ),
    ensures
        allowed.connection_control@.allowed.contains(client_id),
        !allowed.connection_control@.denied.contains(client_id),
        !denied.connection_control@.allowed.contains(client_id),
        denied.connection_control@.denied.contains(client_id),
        allowed.connection_control@.permission == before.connection_control@.permission,
        denied.connection_control@.permission == before.connection_control@.permission,
{
}

/// The packets that a connection handed over in its latest call, if that was to hand them over and did
/// not fail.
pub open spec fn packets_handed<R: RemoteConnection>(connection: R) -> Seq<Seq<u8>> {
    match connection.calls().last() {
        ConnectionCall::SendPackets { packets: Some(packets) } => packets,
        _ => Seq::empty(),
    }
}

/// The calls for the first `j` clients come before all others.
proof fn lemma_packet_calls_split(
    ids: Seq<ClientId>,
    packets: Seq<Option<Seq<Seq<u8>>>>,
    j: int,
)
    requires
        ids.len() == packets.len(),
        0 <= j <= ids.len(),
    ensures
        ({
            let some = crate::server::all_packet_calls(ids.take(j), packets.take(j));
            let all = crate::server::all_packet_calls(ids, packets);
            &&& some.len() <= all.len()
            &&& all.subrange(0, some.len() as int) == some
            &&& j < ids.len() ==> crate::server::all_packet_calls(
                ids.take(j + 1),
                packets.take(j + 1),
            ) == some + crate::connection::packet_calls(ids[j], packets[j])
        }),
    decreases ids.len() - j,
{
    let some = crate::server::all_packet_calls(ids.take(j), packets.take(j));
    let all = crate::server::all_packet_calls(ids, packets);
    if j == ids.len() {
        assert(ids.take(j) =~= ids);
        assert(packets.take(j) =~= packets);
        assert(all.subrange(0, some.len() as int) =~= some);
    } else {
        lemma_packet_calls_split(ids, packets, j + 1);
        assert(ids.take(j + 1).drop_last() =~= ids.take(j));
        assert(packets.take(j + 1).drop_last() =~= packets.take(j));
        let more = crate::server::all_packet_calls(ids.take(j + 1), packets.take(j + 1));
        assert(all.subrange(0, some.len() as int) =~= some) by {
            assert forall|i: int| 0 <= i < some.len() implies all[i] == some[i] by {
                assert(all.subrange(0, more.len() as int)[i] == more[i]);
            }
        }
    }
}

/// The packets of the client at place `j` stand behind those of the clients before it.
proof fn lemma_packet_place(
    ids: Seq<ClientId>,
    packets: Seq<Option<Seq<Seq<u8>>>>,
    j: int,
    k: int,
)
    requires
        ids.len() == packets.len(),
        0 <= j < ids.len(),
        packets[j] is Some,
        0 <= k < packets[j]->0.len(),
    ensures
        ({
            let at = crate::server::all_packet_calls(ids.take(j), packets.take(j)).len() + k;
            let all = crate::server::all_packet_calls(ids, packets);
            &&& at < all.len()
            &&& all[at] == (TransportCall::Send { client_id: ids[j], payload: packets[j]->0[k] })
        }),
{
    lemma_packet_calls_split(ids, packets, j);
    lemma_packet_calls_split(ids, packets, j + 1);
    let some = crate::server::all_packet_calls(ids.take(j), packets.take(j));
    let more = crate::server::all_packet_calls(ids.take(j + 1), packets.take(j + 1));
    let all = crate::server::all_packet_calls(ids, packets);
    let at = some.len() + k;
    assert(more[at] == crate::connection::packet_calls(ids[j], packets[j])[k]);
    assert(all.subrange(0, more.len() as int)[at] == more[at]);
}

/// Every remote client is asked once for its packets. They go to the transport for that client, all of
/// them, in order and without anything between them, one client after the other. Nothing else goes to
/// the transport.
#[verifier::rlimit(50)]
#[verifier::spinoff_prover]
pub proof fn every_packet_is_sent<T: Transport, R: RemoteConnection, L: LocalClient>(
    before: Server<T, R, L>,
    after: Server<T, R, L>,
)
    requires
        exists|server: &mut Server<T, R, L>|
            *server == before && *final(server) == after && #[trigger] call_ensures(
                Server::<T, R, L>::send_packets,
                (server,),
                (),
            ),
    ensures
        after.remote_clients@.dom() == before.remote_clients@.dom(),
        forall|id: ClientId| #[trigger]
            before.remote_clients@.contains_key(id) ==> {
                &&& after.remote_clients@[id].calls().len() == before.remote_clients@[id].calls().len()
                    + 1
                &&& after.remote_clients@[id].calls().drop_last()
                    == before.remote_clients@[id].calls()
                &&& after.remote_clients@[id].calls().last() is SendPackets
            },
        before.transport.calls().is_prefix_of(after.transport.calls()),
        exists|ids: Seq<ClientId>, starts: Seq<int>|
            {
                &&& #[trigger] ids.no_duplicates()
                &&& ids.to_set() == before.remote_clients@.dom()
                &&& #[trigger] starts.len() == ids.len() + 1
                &&& starts[0] == before.transport.calls().len()
                &&& starts.last() == after.transport.calls().len()
                &&& forall|j: int|
                    0 <= j < ids.len() ==> starts[j + 1] == starts[j] + packets_handed(
                        after.remote_clients@[#[trigger] ids[j]],
                    ).len()
                &&& forall|j: int, k: int|
                    0 <= j < ids.len() && 0 <= k < packets_handed(
                        after.remote_clients@[ids[j]],
                    ).len() ==> #[trigger] after.transport.calls()[starts[j] + k] == (
                    TransportCall::Send {
                        client_id: before.remote_clients@[ids[j]].id(),
                        payload: packets_handed(after.remote_clients@[ids[j]])[k],
                    })
            },
        after.local_clients == before.local_clients,
        after.events == before.events,
        after.config == before.config,
        after.channels_config == before.channels_config,
        after.connection_config == before.connection_config,
        after.connection_control == before.connection_control,
{
    let (ids, packets) = choose|ids: Seq<ClientId>, packets: Seq<Option<Seq<Seq<u8>>>>| #[trigger]
        before.sends_packets(&after, ids, packets);
    assert(before.sends_packets(&after, ids, packets));
    let named = crate::server::client_ids(before.remote_clients@, ids);
    let first = before.transport.calls().len() as int;
    let calls = after.transport.calls();
    let sent = crate::server::all_packet_calls(named, packets);
    let starts = Seq::new(
        (ids.len() + 1) as nat,
        |j: int|
            first + crate::server::all_packet_calls(named.take(j), packets.take(j)).len(),
    );
    assert(calls.subrange(0, first) =~= before.transport.calls());
    assert forall|id: ClientId| #[trigger] before.remote_clients@.contains_key(id) implies {
        &&& after.remote_clients@[id].calls().len() == before.remote_clients@[id].calls().len() + 1
        &&& after.remote_clients@[id].calls().drop_last() == before.remote_clients@[id].calls()
        &&& after.remote_clients@[id].calls().last() is SendPackets
    } by {
        assert(ids.to_set().contains(id));
        let j = choose|j: int| 0 <= j < ids.len() && ids[j] == id;
        assert(after.remote_clients@[ids[j]].calls().drop_last()
            =~= before.remote_clients@[id].calls());
    }
    assert(named.take(0) =~= Seq::empty());
    assert(named.take(ids.len() as int) =~= named);
    assert(packets.take(ids.len() as int) =~= packets);
    assert forall|j: int| 0 <= j < ids.len() implies starts[j + 1] == starts[j] + packets_handed(
        after.remote_clients@[#[trigger] ids[j]],
    ).len() by {
        lemma_packet_calls_split(named, packets, j);
        assert(after.remote_clients@[ids[j]].calls().last() == (ConnectionCall::SendPackets {
            packets: packets[j],
        }));
    }
    assert forall|j: int, k: int|
        0 <= j < ids.len() && 0 <= k < packets_handed(
            after.remote_clients@[ids[j]],
        ).len() implies #[trigger] after.transport.calls()[starts[j] + k] == (TransportCall::Send {
        client_id: before.remote_clients@[ids[j]].id(),
        payload: packets_handed(after.remote_clients@[ids[j]])[k],
    }) by {
        assert(after.remote_clients@[ids[j]].calls().last() == (ConnectionCall::SendPackets {
            packets: packets[j],
        }));
        lemma_packet_place(named, packets, j, k);
        let at = crate::server::all_packet_calls(named.take(j), packets.take(j)).len() + k;
        assert(calls[first + at] == sent[at]);
    }
    assert(ids.no_duplicates());
    assert(starts.len() == ids.len() + 1);
}

/// The packets of a client go to the transport in order, each once and as it is, and nothing else does.
pub proof fn packets_are_sent_in_order<T: Transport>(
    before: T,
    after: T,
    client_id: ClientId,
    packets: Vec<Payload>,
    i: int,
)
    requires
        exists|transport: &mut T|
            *transport == before && *final(transport) == after && #[trigger] call_ensures(
                crate::recorded::send_all::<T>,
                (transport, client_id, &packets),
                (),
            ),
        0 <= i < packets@.len(),
    ensures
        after.calls().len() == before.calls().len() + packets@.len(),
        after.calls().subrange(0, before.calls().len() as int) == before.calls(),
        after.calls()[before.calls().len() + i] == (TransportCall::Send {
            client_id,
            payload: packets@[i]@,
        }),
{
    assert(after.calls().subrange(0, before.calls().len() as int) =~= before.calls());
}

/// A payload is processed by the remote client that sent it, once and as it is, and by nobody else.
pub proof fn payloads_go_to_their_client<T: Transport, R: RemoteConnection, L: LocalClient>(
    before: Server<T, R, L>,
    after: Server<T, R, L>,
    client_id: ClientId,
    payload: &[u8],
    other: ClientId,
)
    requires
        exists|server: &mut Server<T, R, L>|
            *server == before && *final(server) == after && #[trigger] call_ensures(
                Server::<T, R, L>::deliver_payload,
                (server, client_id, payload),
                (),
            ),
        other != client_id,
    ensures
        before.remote_clients@.contains_key(client_id) ==> {
            &&& after.remote_clients@[client_id].calls().len()
                == before.remote_clients@[client_id].calls().len() + 1
            &&& after.remote_clients@[client_id].calls().drop_last()
                == before.remote_clients@[client_id].calls()
            &&& after.remote_clients@[client_id].calls().last() matches ConnectionCall::ProcessPayload {
                payload: processed,
                ..
            } && processed == payload@
        },
        after.remote_clients@.dom() == before.remote_clients@.dom(),
        before.remote_clients@.contains_key(other) ==> after.remote_clients@[other]
            == before.remote_clients@[other],
        after.local_clients == before.local_clients,
        after.transport == before.transport,
        after.events == before.events,
        after.config == before.config,
        after.channels_config == before.channels_config,
        after.connection_config == before.connection_config,
        after.connection_control == before.connection_control,
{
    assert(after.remote_clients@.dom() =~= before.remote_clients@.dom());
    if before.remote_clients@.contains_key(client_id) {
        let past = before.remote_clients@[client_id].calls();
        let calls = after.remote_clients@[client_id].calls();
        assert(crate::server::payloads_processed(past, calls, seq![payload@]));
        assert(calls.drop_last() =~= calls.take(past.len() as int));
        assert(calls[past.len() + 0int] == calls.last());
    }
}

/// What a transport gives is noted as it is, with the rules by which it was asked.
pub proof fn payloads_are_noted<T: Transport>(
    before: T,
    after: T,
    control: crate::control::ConnectionControl,
    answer: Result<Option<(ClientId, Payload)>, TransportError>,
)
    requires
        exists|transport: &mut T|
            *transport == before && *final(transport) == after && #[trigger] call_ensures(
                T::recv,
                (transport, &control),
                answer,
            ),
    ensures
        after.calls().len() == before.calls().len() + 1,
        after.calls().drop_last() == before.calls(),
        after.calls().last() matches TransportCall::Recv { control: asked, received } && asked
            == control@ && match answer {
            Ok(Some(given)) => received == Some((given.0, given.1@)),
            _ => received is None,
        },
{
    assert(after.calls().drop_last() =~= before.calls());
}

/// A new server has no clients and no events, nobody is on its lists, and it goes by the settings and the
/// rule that it was given.
pub proof fn new_servers_are_empty<T: Transport, R: RemoteConnection, L: LocalClient>(
    transport: T,
    config: crate::server::ServerConfig,
    connection_config: crate::server::ConnectionConfig,
    permission: crate::control::ConnectionPermission,
    channels_config: std::collections::HashMap<u8, crate::channel::ChannelConfig>,
    server: Server<T, R, L>,
    client_id: ClientId,
)
    requires
        call_ensures(
            Server::<T, R, L>::new,
            (transport, config, connection_config, permission, channels_config),
            server,
        ),
    ensures
        server.remote_clients@.len() == 0,
        server.local_clients@.len() == 0,
        !server.remote_clients@.contains_key(client_id),
        !server.local_clients@.contains_key(client_id),
        server.events@.len() == 0,
        server.config == config,
        server.transport == transport,
        server.channels_config == channels_config,
        server.connection_config == connection_config,
        server.connection_control@.permission == permission,
        !server.connection_control@.allowed.contains(client_id),
        !server.connection_control@.denied.contains(client_id),
{
    assert(server.remote_clients@.dom() =~= Set::empty());
    assert(server.local_clients@.dom() =~= Set::empty());
}

/// Where nothing else is asked for, a server is full with sixteen clients and takes payloads of eight
/// kilobytes, and everybody may connect.
pub proof fn servers_have_room_for_sixteen(
    config: crate::server::ServerConfig,
    permission: crate::control::ConnectionPermission,
)
    requires
        call_ensures(crate::server::ServerConfig::default, (), config),
        call_ensures(crate::control::ConnectionPermission::default, (), permission),
    ensures
        config.max_clients == 16,
        config.max_payload_size == 8 * 1024,
        permission is All,
{
}

/// Another rule leaves both lists and the clients as they are, and is the rule from then on.
pub proof fn rules_can_be_changed<T: Transport, R: RemoteConnection, L: LocalClient>(
    before: Server<T, R, L>,
    after: Server<T, R, L>,
    permission: crate::control::ConnectionPermission,
    shown: &crate::control::ConnectionPermission,
)
    requires
        exists|server: &mut Server<T, R, L>|
            *server == before && *final(server) == after && #[trigger] call_ensures(
                Server::<T, R, L>::set_connection_permission,
                (server, permission),
                (),
            ),
        call_ensures(Server::<T, R, L>::connection_permission, (&after,), shown),
    ensures
        *shown == permission,
        after.connection_control@.permission == permission,
        after.connection_control@.allowed == before.connection_control@.allowed,
        after.connection_control@.denied == before.connection_control@.denied,
        after.remote_clients == before.remote_clients,
        after.local_clients == before.local_clients,
        after.events == before.events,
        after.transport == before.transport,
        after.config == before.config,
{
}

/// The lists of a server hold everybody who is on them, once.
pub proof fn lists_are_complete<T: Transport, R: RemoteConnection, L: LocalClient>(
    server: Server<T, R, L>,
    allowed: Vec<ClientId>,
    denied: Vec<ClientId>,
    client_id: ClientId,
)
    requires
        call_ensures(Server::<T, R, L>::allowed_clients, (&server,), allowed),
        call_ensures(Server::<T, R, L>::denied_clients, (&server,), denied),
    ensures
        allowed@.contains(client_id) == server.connection_control@.allowed.contains(client_id),
        denied@.contains(client_id) == server.connection_control@.denied.contains(client_id),
        allowed@.no_duplicates(),
        denied@.no_duplicates(),
{
    assert(allowed@.contains(client_id) <==> allowed@.to_set().contains(client_id));
    assert(denied@.contains(client_id) <==> denied@.to_set().contains(client_id));
}

/// There are measurements of every remote client, and of nobody else.
pub proof fn remote_clients_are_measured<T: Transport, R: RemoteConnection, L: LocalClient>(
    server: Server<T, R, L>,
    client_id: ClientId,
    info: Option<&R::NetworkInfo>,
)
    requires
        call_ensures(Server::<T, R, L>::network_info, (&server, client_id), info),
    ensures
        info is Some <==> server.remote_clients@.contains_key(client_id),
        info is Some ==> *info->0 == server.remote_clients@[client_id].info(),
{
}

/// All events are taken at once, oldest first, and none is left.
pub proof fn frames_take_all_events<T: Transport, R: RemoteConnection, L: LocalClient>(
    before: Server<T, R, L>,
    after: Server<T, R, L>,
    events: Vec<ServerEvent<ClientId>>,
)
    requires
        exists|server: &mut Server<T, R, L>|
            *server == before && *final(server) == after && #[trigger] call_ensures(
                crate::plugin::RenetServerPlugin::emit_server_events_system::<T, R, L>,
                (server,),
                events,
            ),
    ensures
        events@ + after.events@ == before.events@,
        after.events@.len() == 0,
        after.remote_clients@ == before.remote_clients@,
        after.local_clients@ == before.local_clients@,
        after.transport == before.transport,
        after.connection_control == before.connection_control,
        after.config == before.config,
{
    assert(events@ + after.events@ =~= before.events@);
}

/// The calls that send packets are one for each packet, in order, each with the bytes of the packet and for
/// the client. Where the packets could not be had, there are none.
pub proof fn packets_are_sent_one_by_one(client_id: ClientId, packets: Seq<Payload>, i: int)
    requires
        0 <= i < packets.len(),
    ensures
        ({
            let sent = crate::connection::packet_calls(
                client_id,
                Some(crate::recorded::contents(packets)),
            );
            &&& sent.len() == packets.len()
            &&& sent[i] == (TransportCall::Send { client_id, payload: packets[i]@ })
        }),
        crate::connection::packet_calls(client_id, None).len() == 0,
{
}

/// A frame updates the server: every client that wants to connect is turned away exactly if the remote and
/// the local clients that are left are together as many as the server may have, and is let in if not. The
/// clients that are no longer there are told of by one event each.
pub proof fn frames_update_the_server<T: Transport, R: RemoteConnection, L: LocalClient>(
    before: Server<T, R, L>,
    after: Server<T, R, L>,
    answer: Result<(), TransportError>,
)
    requires
        exists|server: &mut Server<T, R, L>|
            *server == before && *final(server) == after && #[trigger] call_ensures(
                crate::plugin::RenetServerPlugin::update_system::<T, R, L>,
                (server,),
                answer,
            ),
    ensures
        answer is Ok,
        after.config == before.config,
        exists|n: int|
            {
                &&& before.transport.calls().len() < n < after.transport.calls().len()
                &&& (#[trigger] after.transport.calls()[n]) is Update
                &&& after.transport.calls().len() == n + 1
                    + after.transport.calls()[n]->connecting.len()
                &&& forall|i: int|
                    0 <= i < after.transport.calls()[n]->connecting.len()
                        ==> #[trigger] after.transport.calls()[n + 1 + i] == if (
                    after.remote_clients@.len() + after.local_clients@.len()
                        >= before.config.max_clients) {
                        TransportCall::Disconnect {
                            client_id: after.transport.calls()[n]->connecting[i],
                            reason: DisconnectionReason::MaxPlayer,
                        }
                    } else {
                        TransportCall::ConfirmConnect {
                            client_id: after.transport.calls()[n]->connecting[i],
                        }
                    }
            },
        after.events@.len() + after.remote_clients@.len() + after.local_clients@.len()
            == before.events@.len() + before.remote_clients@.len() + before.local_clients@.len(),
{
    let trace = choose|trace: UpdateTrace<R, L>| #[trigger] before.update_traced(&after, trace);
    let n = lemma_update_calls(before, after, trace);
    assert(after.transport.calls()[n] is Update);
    assert(trace.remote.dom() == before.remote_clients@.dom());
    assert(trace.local.dom() == before.local_clients@.dom());
    lemma_keys_left(trace.remote, trace.lost_remote);
    lemma_keys_left(trace.local, trace.lost_local);
}

} // verus!
