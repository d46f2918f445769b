//! What holds of a server for clients that connect through the web.

use vstd::prelude::*;

use crate::addr::SocketAddr;
use crate::client_table::{
    ClientConnectionResult, ClientView, ConnectionRequest, ConnectionRequestResult, DepartedView,
    PendingView, TableView,
};
use crate::error::SocketError;
use crate::web_server::{ConnectionStep, ServerView};

verus! {

/// What asking some clients in turn does to each of them, and to the position in the round.
proof fn lemma_polls<S>(
    before: TableView<S>,
    idxs: Seq<u64>,
    packets: Seq<Option<Seq<u8>>>,
    limit: nat,
)
    requires
        idxs.len() == packets.len(),
        forall|a: int, b: int| 0 <= a < b < idxs.len() ==> idxs[a] < idxs[b],
        forall|a: int|
            0 <= a < idxs.len() ==> before.clients.contains_key(#[trigger] idxs[a])
                && before.recv_index <= idxs[a] < u64::MAX,
    ensures
        ({
            let after = before.after_polls(idxs, packets, limit);
            &&& after.clients.dom() == before.clients.dom()
            &&& after.recv_index >= before.recv_index
            &&& after.recv_index == before.recv_index || exists|j: int|
                0 <= j < idxs.len() && after.recv_index == #[trigger] idxs[j] + 1 && packets[j] is None
        }),
        forall|j: int|
            0 <= j < idxs.len() ==> before.after_polls(
                idxs,
                packets,
                limit,
            ).clients[#[trigger] idxs[j]] == before.clients[idxs[j]].polled(packets[j]),
        forall|k: u64| #[trigger]
            before.clients.contains_key(k) && !idxs.contains(k) ==> before.after_polls(
                idxs,
                packets,
                limit,
            ).clients[k] == before.clients[k],
        before.lost.subset_of(before.after_polls(idxs, packets, limit).lost),
        forall|j: int|
            0 <= j < idxs.len() && packets[j] is None ==> before.after_polls(
                idxs,
                packets,
                limit,
            ).recv_index > #[trigger] idxs[j],
        forall|j: int|
            0 <= j < idxs.len() && packets[j] is Some && packets[j]->0.len() > limit
                ==> before.after_polls(idxs, packets, limit).lost.contains(#[trigger] idxs[j]),
        forall|k: u64| #[trigger]
            before.after_polls(idxs, packets, limit).lost.contains(k) ==> before.lost.contains(k)
                || exists|j: int|
                0 <= j < idxs.len() && #[trigger] idxs[j] == k && packets[j] is Some
                    && packets[j]->0.len() > limit,
    decreases idxs.len(),
{
    if idxs.len() > 0 {
        let n = idxs.len() - 1;
        let init = idxs.drop_last();
        let given = packets.drop_last();
        let idx = idxs[n];
        assert forall|a: int| 0 <= a < init.len() implies before.clients.contains_key(
            #[trigger] init[a],
        ) && before.recv_index <= init[a] < u64::MAX by {
            assert(init[a] == idxs[a]);
        }
        lemma_polls(before, init, given, limit);
        let middle = before.after_polls(init, given, limit);
        let after = before.after_polls(idxs, packets, limit);
        assert(after == middle.after_poll(idx, packets[n], limit));
        assert(before.clients.contains_key(idxs[n]));
        assert(after.clients.dom() =~= before.clients.dom());
        assert(!init.contains(idx));
        assert(middle.clients[idx] == before.clients[idx]);
        assert forall|j: int| 0 <= j < idxs.len() implies after.clients[#[trigger] idxs[j]]
            == before.clients[idxs[j]].polled(packets[j]) by {
            if j < n {
                assert(idxs[j] == init[j]);
                assert(packets[j] == given[j]);
                assert(idxs[j] != idx);
            }
        }
        assert forall|k: u64| #[trigger]
            before.clients.contains_key(k) && !idxs.contains(k) implies after.clients[k]
            == before.clients[k] by {
            assert(k != idx) by {
                assert(idxs[n] == idx);
            }
            assert(!init.contains(k)) by {
                if init.contains(k) {
                    let j = choose|j: int| 0 <= j < init.len() && init[j] == k;
                    assert(idxs[j] == k);
                }
            }
        }
        assert forall|j: int|
            0 <= j < idxs.len() && packets[j] is Some && packets[j]->0.len()
                > limit implies after.lost.contains(#[trigger] idxs[j]) by {
            if j < n {
                assert(idxs[j] == init[j]);
                assert(packets[j] == given[j]);
            }
        }
        assert forall|j: int| 0 <= j < idxs.len() && packets[j] is None implies after.recv_index
            > #[trigger] idxs[j] by {
            if j < n {
                assert(idxs[j] == init[j]);
                assert(packets[j] == given[j]);
                assert(idxs[j] < idxs[n]);
            }
        }
        if packets[n] is Some && middle.recv_index != before.recv_index {
            let j = choose|j: int|
                0 <= j < init.len() && middle.recv_index == #[trigger] init[j] + 1 && given[j] is None;
            assert(idxs[j] == init[j]);
            assert(packets[j] == given[j]);
        } else if packets[n] is None {
            assert(after.recv_index == idxs[n] + 1);
        }
        assert forall|k: u64| #[trigger] after.lost.contains(k) implies before.lost.contains(k)
            || exists|j: int|
            0 <= j < idxs.len() && #[trigger] idxs[j] == k && packets[j] is Some
                && packets[j]->0.len() > limit by {
            if middle.lost.contains(k) {
                if !before.lost.contains(k) {
                    let j = choose|j: int|
                        0 <= j < init.len() && #[trigger] init[j] == k && given[j] is Some
                            && given[j]->0.len() > limit;
                    assert(idxs[j] == init[j]);
                    assert(packets[j] == given[j]);
                }
            } else {
                assert(idxs[n] == k);
            }
        }
    }
}

/// Receiving asks an active client for at most one packet, and only if its turn in the round is not over.
/// A packet that fits is the answer: its bytes are the front of the buffer, and its sender is the client.
/// A packet that does not fit costs the client its connection, and nothing else does. The round goes on
/// behind a client only if it had nothing or is lost, and it is over only if that is so of every client
/// whose turn it was.
pub proof fn clients_are_asked_in_turn<S>(
    aloud: bool,
    before: ServerView<S>,
    after: ServerView<S>,
    requests: Seq<Option<ConnectionRequest>>,
    end_index: Option<u64>,
    buffer_before: Seq<u8>,
    buffer_after: Seq<u8>,
    answer: Result<(usize, SocketAddr), SocketError>,
    k: u64,
)
    requires
        before.receives(aloud, after, requests, end_index, buffer_before, buffer_after, answer),
        before.table.clients.contains_key(k),
    ensures
        after.table.clients.dom() == before.table.clients.dom(),
        before.table.lost.subset_of(after.table.lost),
        after.table.recv_index >= before.table.recv_index,
        // A client is asked at most once.
        ({
            let old_account = before.table.clients[k].packets;
            let account = after.table.clients[k].packets;
            let asked = account.len() == old_account.len() + 1;
            &&& after.table.clients[k] == (ClientView { packets: account, ..before.table.clients[k] })
            &&& account == old_account || asked && account.drop_last() == old_account
            &&& asked ==> end_index is Some && before.table.recv_index <= k < end_index->0
            &&& end_index is None || k < before.table.recv_index ==> account == old_account
            // What it gives is the answer, or costs it the connection.
            &&& asked && account.last() is Some && account.last()->0.len() <= buffer_before.len() ==> {
                let packet = account.last()->0;
                &&& answer is Ok
                &&& answer->Ok_0.0 == packet.len()
                &&& answer->Ok_0.1 == crate::addr::client_addr(k)
                &&& buffer_after == packet + buffer_before.skip(packet.len() as int)
            }
            &&& asked && account.last() is Some && account.last()->0.len() > buffer_before.len()
                ==> after.table.lost.contains(k)
            // The round goes on behind it only if it had nothing, or is lost.
            &&& asked && account.last() is None ==> k < after.table.recv_index
            &&& before.table.recv_index <= k < after.table.recv_index ==> asked && (
            after.table.lost.contains(k) || account.last() is None)
            &&& answer is Err ==> answer == Err::<(usize, SocketAddr), SocketError>(
                SocketError::WouldBlock,
            ) && end_index is Some && buffer_after == buffer_before
            &&& end_index is Some && answer is Err && before.table.recv_index <= k < end_index->0
                ==> asked && (after.table.lost.contains(k) || account.last() is None)
            &&& !before.table.lost.contains(k) && after.table.lost.contains(k) ==> asked
                && account.last() is Some && account.last()->0.len() > buffer_before.len()
        }),
{
    let limit = buffer_before.len();
    let refused = crate::web_server::refused_of(requests, limit);
    crate::web_server::lemma_refusing_all(aloud, before.table, refused);
    let table = before.table.refusing_all(aloud, refused);
    if end_index is Some {
        let (idxs, packets) = choose|idxs: Seq<u64>, packets: Seq<Option<Seq<u8>>>| #[trigger]
            table.polled(
                after.table,
                end_index->0,
                idxs,
                packets,
                buffer_before,
                buffer_after,
                answer,
            );
        let n = packets.len() as int;
        let asked = idxs.take(n);
        assert forall|a: int| 0 <= a < asked.len() implies table.clients.contains_key(
            #[trigger] asked[a],
        ) && table.recv_index <= asked[a] < u64::MAX by {
            assert(asked[a] == idxs[a]);
            assert(idxs.contains(idxs[a]));
        }
        lemma_polls(table, asked, packets, limit);
        let old_account = before.table.clients[k].packets;
        let account = after.table.clients[k].packets;
        if asked.contains(k) {
            let j = choose|j: int| 0 <= j < asked.len() && asked[j] == k;
            assert(after.table.clients[asked[j]] == table.clients[asked[j]].polled(packets[j]));
            assert(account.drop_last() =~= old_account);
            assert(idxs[j] == k);
            assert(idxs.contains(k));
            if j < n - 1 {
                assert(!crate::client_table::usable(packets[j], limit));
            }
        } else {
            assert(after.table.clients[k] == table.clients[k]);
        }
        if before.table.recv_index <= k < after.table.recv_index {
            let j = choose|j: int|
                0 <= j < asked.len() && after.table.recv_index == #[trigger] asked[j] + 1
                    && packets[j] is None;
            assert(asked[j] == idxs[j]);
            assert(idxs.contains(idxs[j]));
            assert(idxs.contains(k));
            let p = choose|p: int| 0 <= p < idxs.len() && idxs[p] == k;
            assert(p <= j) by {
                if p > j {
                    assert(idxs[j] < idxs[p]);
                }
            }
            assert(asked[p] == k);
            assert(asked.contains(k));
            if p < n - 1 {
                assert(!crate::client_table::usable(packets[p], limit));
            }
        }
        if answer is Err && before.table.recv_index <= k < end_index->0 {
            assert(idxs.contains(k));
            let p = choose|p: int| 0 <= p < idxs.len() && idxs[p] == k;
            assert(asked[p] == k);
            assert(asked.contains(k));
            assert(!crate::client_table::usable(packets[p], limit));
        }
        if !before.table.lost.contains(k) && after.table.lost.contains(k) {
            let j = choose|j: int|
                0 <= j < asked.len() && #[trigger] asked[j] == k && packets[j] is Some
                    && packets[j]->0.len() > limit;
            assert(after.table.clients[asked[j]] == table.clients[asked[j]].polled(packets[j]));
        }
    }
}

/// If receiving answers with a packet and took in no request, an active client gave that packet, and
/// every active client before it whose turn it was had nothing that fits.
pub proof fn packets_come_from_clients<S>(
    aloud: bool,
    before: ServerView<S>,
    after: ServerView<S>,
    requests: Seq<Option<ConnectionRequest>>,
    end_index: Option<u64>,
    buffer_before: Seq<u8>,
    buffer_after: Seq<u8>,
    answer: Result<(usize, SocketAddr), SocketError>,
)
    requires
        before.receives(aloud, after, requests, end_index, buffer_before, buffer_after, answer),
        answer is Ok,
        after.table.pending == before.table.pending,
        end_index is Some,
    ensures
        exists|k: u64|
            {
                &&& #[trigger] before.table.clients.contains_key(k)
                &&& answer->Ok_0.1 == crate::addr::client_addr(k)
                &&& before.table.recv_index <= k < end_index->0
                &&& after.table.clients[k].packets == before.table.clients[k].packets.push(
                    Some(buffer_after.take(answer->Ok_0.0 as int)),
                )
                &&& buffer_after.skip(answer->Ok_0.0 as int) == buffer_before.skip(
                    answer->Ok_0.0 as int,
                )
                &&& answer->Ok_0.0 <= buffer_before.len() == buffer_after.len()
                &&& after.table.recv_index <= k
                &&& forall|i: u64| #[trigger]
                    before.table.clients.contains_key(i) && before.table.recv_index <= i < k
                        ==> after.table.clients[i].packets.len()
                        == before.table.clients[i].packets.len() + 1 && (
                    after.table.clients[i].packets.last() is None || after.table.lost.contains(i))
            },
{
    let limit = buffer_before.len();
    let refused = crate::web_server::refused_of(requests, limit);
    crate::web_server::lemma_refusing_all(aloud, before.table, refused);
    let table = before.table.refusing_all(aloud, refused);
    let (idxs, packets) = choose|idxs: Seq<u64>, packets: Seq<Option<Seq<u8>>>| #[trigger]
        table.polled(
            after.table,
            end_index->0,
            idxs,
            packets,
            buffer_before,
            buffer_after,
            answer,
        );
    let n = packets.len() as int;
    let asked = idxs.take(n);
    assert forall|a: int| 0 <= a < asked.len() implies table.clients.contains_key(
        #[trigger] asked[a],
    ) && table.recv_index <= asked[a] < u64::MAX by {
        assert(asked[a] == idxs[a]);
        assert(idxs.contains(idxs[a]));
    }
    lemma_polls(table, asked, packets, limit);
    let k = idxs[n - 1];
    let len = answer->Ok_0.0 as int;
    assert(asked[n - 1] == k);
    assert(idxs.contains(k));
    assert(buffer_after.take(len) =~= packets[n - 1]->0);
    assert(buffer_after.skip(len) =~= buffer_before.skip(len));
    assert(after.table.recv_index <= k) by {
        if after.table.recv_index != table.recv_index {
            let j = choose|j: int|
                0 <= j < asked.len() && after.table.recv_index == #[trigger] asked[j] + 1
                    && packets[j] is None;
            assert(j < n - 1);
            assert(asked[j] < asked[n - 1]);
        }
    }
    assert forall|i: u64| #[trigger]
        before.table.clients.contains_key(i) && before.table.recv_index <= i
            < k implies after.table.clients[i].packets.len() == before.table.clients[i].packets.len()
        + 1 && (after.table.clients[i].packets.last() is None || after.table.lost.contains(i)) by {
        assert(idxs.contains(i));
        let p = choose|p: int| 0 <= p < idxs.len() && idxs[p] == i;
        assert(p < n - 1) by {
            if p > n - 1 {
                assert(idxs[n - 1] < idxs[p]);
            }
        }
        assert(asked[p] == i);
        assert(after.table.clients[asked[p]] == table.clients[asked[p]].polled(packets[p]));
        assert(!crate::client_table::usable(packets[p], limit));
        assert(after.table.clients[i].packets.last() == packets[p]);
    }
}

/// Receiving takes in connection requests one by one. One that is too large for the buffer is passed
/// over. The first one that fits is the answer: its bytes are the front of the buffer, its client is
/// pending from then on, without a client id, and counts. Once there is none, the pending clients stay
/// as they are, and the active clients are asked. Clients whose request was too large are told so
/// exactly if that is done aloud. The task that accepts connections is told the number of clients.
pub proof fn requests_are_taken_in_one_by_one<S>(
    aloud: bool,
    before: ServerView<S>,
    after: ServerView<S>,
    requests: Seq<Option<ConnectionRequest>>,
    end_index: Option<u64>,
    buffer_before: Seq<u8>,
    buffer_after: Seq<u8>,
    answer: Result<(usize, SocketAddr), SocketError>,
)
    requires
        before.receives(aloud, after, requests, end_index, buffer_before, buffer_after, answer),
    ensures
        after == (ServerView {
            table: after.table,
            announced: after.announced,
            requests: before.requests + requests,
            index_reads: after.index_reads,
            ..before
        }),
        requests.len() > 0,
        forall|i: int|
            0 <= i < requests.len() - 1 ==> (#[trigger] requests[i] matches Some(request)
                && request.packet@.len() > buffer_before.len()),
        after.announced == after.table.count,
        after.addr == before.addr,
        after.closed == before.closed,
        after.stops == before.stops,
        after.connections == before.connections,
        after.table.slots == before.table.slots,
        // A request that fits.
        requests.last() is Some && requests.last()->0.packet@.len() <= buffer_before.len() ==> {
            let request = requests.last()->0;
            let n = request.packet@.len() as int;
            &&& answer == Ok::<(usize, SocketAddr), SocketError>(
                (n as usize, crate::addr::client_addr(request.client_idx)),
            )
            &&& buffer_after.take(n) == request.packet@
            &&& buffer_after.skip(n) == buffer_before.skip(n)
            &&& after.table.pending.contains_key(request.client_idx)
            &&& after.table.pending[request.client_idx].client_idx == request.client_idx
            &&& after.table.pending[request.client_idx].client_id is None
            &&& after.table.pending[request.client_idx].buffered is None
            &&& after.table.pending[request.client_idx].answer_end == request.result_sender.end()
            &&& after.table.pending[request.client_idx].replies == crate::ends::messages(
                request.result_sender.handed(),
            )
            &&& forall|k: u64|
                k != request.client_idx ==> #[trigger] after.table.pending.contains_key(k)
                    == before.table.pending.contains_key(k)
            &&& forall|k: u64|
                k != request.client_idx && #[trigger] before.table.pending.contains_key(k)
                    ==> after.table.pending[k] == before.table.pending[k]
            &&& after.table.count == before.table.count.wrapping_add(1)
            &&& after.table.clients == before.table.clients
            &&& after.table.lost == before.table.lost
            &&& after.table.recv_index == before.table.recv_index
            &&& after.index_reads == before.index_reads
        },
        // No request that fits.
        requests.last() is None || requests.last()->0.packet@.len() > buffer_before.len() ==> {
            &&& requests.last() is Some ==> requests.len() == 0xffff_ffff_ffff_ffff
            &&& after.table.pending == before.table.pending
            &&& after.table.count == before.table.count
            &&& end_index is Some
            &&& after.index_reads == before.index_reads.push(end_index->0)
        },
        // Requests that do not fit.
        !aloud ==> after.table.refused == before.table.refused,
        aloud ==> after.table.refused.len() == before.table.refused.len() + requests.len() - if (
        requests.last() is Some && requests.last()->0.packet@.len() > buffer_before.len()) {
            0int
        } else {
            1int
        },
        aloud ==> after.table.refused.subrange(0, before.table.refused.len() as int)
            == before.table.refused,
        aloud ==> forall|i: int|
            0 <= i < after.table.refused.len() - before.table.refused.len() ==> {
                let told = #[trigger] after.table.refused[before.table.refused.len() + i];
                &&& told.client_idx == requests[i]->0.client_idx
                &&& told.client_id is None
                &&& told.buffered is None
                &&& told.answer_end == requests[i]->0.result_sender.end()
                &&& told.replies == crate::ends::messages(
                    requests[i]->0.result_sender.handed(),
                ).push(ConnectionRequestResult::Failure)
            },
{
    let limit = buffer_before.len();
    let refused = crate::web_server::refused_of(requests, limit);
    crate::web_server::lemma_refusing_all(aloud, before.table, refused);
    let table = before.table.refusing_all(aloud, refused);
    assert forall|i: int| 0 <= i < requests.len() - 1 implies (#[trigger] requests[i] matches Some(
        request,
    ) && request.packet@.len() > buffer_before.len()) by {
        assert(crate::web_server::must_be_refused(requests[i], limit));
    }
    if end_index is Some {
        let (idxs, packets) = choose|idxs: Seq<u64>, packets: Seq<Option<Seq<u8>>>| #[trigger]
            table.polled(
                after.table,
                end_index->0,
                idxs,
                packets,
                buffer_before,
                buffer_after,
                answer,
            );
        crate::client_table::polls_keep_the_clients(
            table,
            after.table,
            end_index->0,
            idxs,
            packets,
            buffer_before,
            buffer_after,
            answer,
        );
    } else {
        let request = requests.last()->0;
        let n = request.packet@.len() as int;
        assert(buffer_after.take(n) =~= request.packet@);
        assert(buffer_after.skip(n) =~= buffer_before.skip(n));
    }
    assert(aloud ==> after.table.refused.subrange(0, before.table.refused.len() as int)
        =~= before.table.refused);
}

/// One thing that happens to a server within a round of receiving.
pub enum RoundStep {
    /// It was asked for a packet, and answered this.
    Received { answer: Result<(usize, SocketAddr), SocketError> },
    /// Something else that no active client takes part in: a request was accepted or denied, a client
    /// was lost, or a packet was to be sent.
    Else,
}

/// The step leads from one server to the other.
pub open spec fn step_leads<S>(
    before: ServerView<S>,
    step: RoundStep,
    after: ServerView<S>,
) -> bool {
    match step {
        RoundStep::Received { answer } => exists|
            aloud: bool,
            requests: Seq<Option<ConnectionRequest>>,
            end_index: Option<u64>,
            buffer_before: Seq<u8>,
            buffer_after: Seq<u8>,
        | #[trigger]
            before.receives(
                aloud,
                after,
                requests,
                end_index,
                buffer_before,
                buffer_after,
                answer,
            ),
        RoundStep::Else => {
            &&& after.table.clients == before.table.clients
            &&& after.table.recv_index == before.table.recv_index
            &&& before.table.lost.subset_of(after.table.lost)
            &&& after.index_reads == before.index_reads
        },
    }
}

/// The steps lead from each server to the next one.
pub open spec fn is_round<S>(servers: Seq<ServerView<S>>, steps: Seq<RoundStep>) -> bool {
    &&& servers.len() == steps.len() + 1
    &&& forall|i: int|
        0 <= i < steps.len() ==> step_leads(servers[i], #[trigger] steps[i], servers[i + 1])
}

/// A round drains the active clients. As long as a client has packets it keeps its turn, and gives them
/// one by one. The round goes on behind a client only once it was asked and had nothing, unless it is
/// lost, and then it is not asked again. When there is nothing more to receive, every active client up
/// to the newest one was asked in this round and last had nothing, unless it is lost.
pub proof fn rounds_drain_every_client<S>(
    servers: Seq<ServerView<S>>,
    steps: Seq<RoundStep>,
    k: u64,
)
    requires
        is_round(servers, steps),
        servers[0].table.clients.contains_key(k),
        servers[0].table.recv_index <= k,
    ensures
        servers.last().table.clients.contains_key(k),
        servers.last().table.recv_index >= servers[0].table.recv_index,
        servers[0].table.lost.subset_of(servers.last().table.lost),
        ({
            let first = servers[0].table.clients[k].packets;
            let account = servers.last().table.clients[k].packets;
            &&& first.len() <= account.len()
            &&& account.subrange(0, first.len() as int) == first
            &&& forall|i: int|
                first.len() <= i < account.len() - 1 ==> (
                #[trigger] servers.last().table.clients[k].packets[i]) is Some
            &&& k < servers.last().table.recv_index ==> servers.last().table.lost.contains(k) || (
            account.len() > first.len() && account.last() is None)
            &&& account.len() > first.len() && account.last() is None ==> k
                < servers.last().table.recv_index
            &&& steps.len() > 0 && steps.last() is Received && steps.last()->answer is Err ==> {
                &&& steps.last()->answer == Err::<(usize, SocketAddr), SocketError>(
                    SocketError::WouldBlock,
                )
                &&& k < servers.last().index_reads.last() ==> servers.last().table.lost.contains(k)
                    || (account.len() > first.len() && account.last() is None)
            }
        }),
    decreases steps.len(),
{
    let n = steps.len() as int;
    let first = servers[0].table.clients[k].packets;
    if n == 0 {
        assert(servers.last() == servers[0]);
        assert(first.subrange(0, first.len() as int) =~= first);
    } else {
        let init = servers.drop_last();
        assert forall|i: int| 0 <= i < n - 1 implies step_leads(
            init[i],
            #[trigger] steps.drop_last()[i],
            init[i + 1],
        ) by {
            assert(steps[i] == steps.drop_last()[i]);
        }
        rounds_drain_every_client(init, steps.drop_last(), k);
        let middle = servers[n - 1];
        let last = servers[n];
        assert(init.last() == middle);
        assert(servers.last() == last);
        assert(step_leads(middle, steps[n - 1], last));
        let between = middle.table.clients[k].packets;
        let account = last.table.clients[k].packets;
        match steps[n - 1] {
            RoundStep::Received { answer } => {
                let (aloud, requests, end_index, buffer_before, buffer_after) = choose|
                    aloud: bool,
                    requests: Seq<Option<ConnectionRequest>>,
                    end_index: Option<u64>,
                    buffer_before: Seq<u8>,
                    buffer_after: Seq<u8>,
                | #[trigger]
                    middle.receives(
                        aloud,
                        last,
                        requests,
                        end_index,
                        buffer_before,
                        buffer_after,
                        answer,
                    );
                clients_are_asked_in_turn(
                    aloud,
                    middle,
                    last,
                    requests,
                    end_index,
                    buffer_before,
                    buffer_after,
                    answer,
                    k,
                );
                if account.len() == between.len() + 1 {
                    assert forall|i: int| 0 <= i < between.len() implies account[i] == between[i] by {
                        assert(account.drop_last()[i] == between[i]);
                    }
                }
            },
            RoundStep::Else => {},
        }
        assert(account.subrange(0, first.len() as int) =~= first) by {
            assert(between.subrange(0, first.len() as int) == first);
            assert forall|i: int| 0 <= i < first.len() implies account[i] == first[i] by {
                assert(between.subrange(0, first.len() as int)[i] == between[i]);
            }
        }
        assert forall|i: int| first.len() <= i < account.len() - 1 implies (
        #[trigger] servers.last().table.clients[k].packets[i]) is Some by {
            if account.len() == between.len() + 1 {
                if i < between.len() - 1 {
                    assert(init.last().table.clients[k].packets[i] is Some);
                } else {
                    assert(i == between.len() - 1);
                    assert(between.last() is Some);
                }
            } else {
                assert(init.last().table.clients[k].packets[i] is Some);
            }
        }
    }
}

/// Looking for a session takes in one. The client of it becomes active, with the packet that was kept
/// for it, exactly if it is pending and holds its client id. If it is pending and does not, it is
/// dropped and no longer counts, and the rest of the sessions is left for later. A session that failed
/// loses its client, and one of a client that is not pending is left out. Once there is none, a new
/// round begins with the first client.
pub proof fn sessions_open_accepted_clients<S>(
    before: ServerView<S>,
    after: ServerView<S>,
    given: Option<ClientConnectionResult<S>>,
    step: ConnectionStep<S>,
    k: u64,
)
    requires
        before.connection_taken(after, given, step),
    ensures
        after == (ServerView {
            table: after.table,
            announced: after.announced,
            connections: before.connections.push(given),
            ..before
        }),
        after.table.clients == before.table.clients,
        after.table.slots == before.table.slots,
        after.table.refused == before.table.refused,
        given is None <==> step is Drained,
        given is None ==> {
            &&& after.table.recv_index == 0
            &&& after.table.pending == before.table.pending
            &&& after.table.lost == before.table.lost
            &&& after.table.count == before.table.count
            &&& after.announced == before.announced
        },
        given is Some ==> after.announced == after.table.count && after.table.recv_index
            == before.table.recv_index,
        given matches Some(ClientConnectionResult::Failure { client_idx }) ==> {
            &&& step is Skip
            &&& after.table.pending == before.table.pending
            &&& after.table.count == before.table.count
            &&& after.table.lost.contains(k) <==> before.table.lost.contains(k) || k == client_idx
        },
        given matches Some(
            ClientConnectionResult::Success { client_idx, client_id, session },
        ) ==> {
            let waits = before.table.pending.contains_key(client_idx);
            let holds = before.table.slots.contains_key(client_id) && before.table.slots[client_id]
                == client_idx;
            &&& after.table.lost == before.table.lost
            &&& after.table.pending.contains_key(k) <==> before.table.pending.contains_key(k) && k
                != client_idx
            &&& after.table.pending.contains_key(k) ==> after.table.pending[k]
                == before.table.pending[k]
            &&& step is Skip <==> !waits
            &&& step is Stop <==> waits && !holds
            &&& step is Open <==> waits && holds
            &&& step is Stop ==> after.table.count == before.table.count.wrapping_sub(1)
            &&& !(step is Stop) ==> after.table.count == before.table.count
            &&& step matches ConnectionStep::Open {
                client_idx: opened,
                client_id: named,
                session: through,
                buffered,
            } ==> {
                &&& opened == client_idx
                &&& named == client_id
                &&& through == session
                &&& buffered is Some <==> before.table.pending[client_idx].buffered is Some
                &&& buffered is Some ==> before.table.pending[client_idx].buffered == Some(
                    crate::packet_bytes::bytes_content(buffered->0),
                )
            }
        },
{
}

/// Removing the lost clients asks the reader of every active client whether it is over. An active client
/// stays exactly if it is not lost and its reader is not over; the reader of one that goes is told to
/// stop. A pending client stays exactly if it is not lost; one that goes is turned down, and told so
/// exactly if that is done aloud. A client id stays with a client that stays, and is free once the client
/// that was accepted for it is gone. The task that accepts connections is told how many clients are left.
pub proof fn removal_takes_the_lost_clients<S>(
    aloud: bool,
    before: ServerView<S>,
    checked: Map<u64, ClientView<S>>,
    after: ServerView<S>,
    departed: DepartedView<S>,
    k: u64,
    client_id: u64,
)
    requires
        before.table.consistent(),
        before.cleaned(aloud, checked, after, departed),
    ensures
        !after.table.lost.contains(k),
        after == (ServerView { table: after.table, announced: after.announced, ..before }),
        after.table.recv_index == before.table.recv_index,
        after.table.count == after.table.clients.len() + after.table.pending.len(),
        after.announced == after.table.count,
        after.table.refused.len() == 0,
        departed.refused == before.table.refused,
        // Active clients.
        after.table.clients.contains_key(k) || departed.clients.contains_key(k)
            <==> before.table.clients.contains_key(k),
        !(after.table.clients.contains_key(k) && departed.clients.contains_key(k)),
        after.table.clients.contains_key(k) ==> {
            &&& !before.table.lost.contains(k)
            &&& after.table.clients[k] == (ClientView {
                checks: before.table.clients[k].checks.push(false),
                ..before.table.clients[k]
            })
        },
        departed.clients.contains_key(k) ==> {
            &&& before.table.lost.contains(k) || departed.clients[k].checks.last()
            &&& departed.clients[k].checks.len() == before.table.clients[k].checks.len() + 1
            &&& departed.clients[k] == (ClientView {
                checks: departed.clients[k].checks,
                stops: before.table.clients[k].stops + 1,
                ..before.table.clients[k]
            })
        },
        // Pending clients.
        before.table.pending.contains_key(k) ==> {
            &&& after.table.pending.contains_key(k) <==> !before.table.lost.contains(k)
            &&& departed.pending.contains_key(k) <==> before.table.lost.contains(k)
        },
        !before.table.pending.contains_key(k) ==> !after.table.pending.contains_key(k)
            && !departed.pending.contains_key(k),
        after.table.pending.contains_key(k) ==> after.table.pending[k] == before.table.pending[k],
        departed.pending.contains_key(k) ==> {
            &&& departed.pending[k] == (PendingView {
                replies: departed.pending[k].replies,
                ..before.table.pending[k]
            })
            &&& aloud ==> departed.pending[k].replies == before.table.pending[k].replies.push(
                ConnectionRequestResult::Failure,
            )
            &&& !aloud ==> departed.pending[k].replies == before.table.pending[k].replies
        },
        // Client ids.
        after.table.slots.contains_key(client_id) ==> before.table.slots.contains_key(client_id)
            && after.table.slots[client_id] == before.table.slots[client_id],
        before.table.slots.contains_key(client_id) && before.table.slots[client_id] == k && (
        after.table.clients.contains_key(k) || after.table.pending.contains_key(k))
            ==> after.table.slots.contains_key(client_id),
        before.table.slots.contains_key(client_id) && before.table.slots[client_id] == k
            && departed.clients.contains_key(k) && before.table.clients[k].client_id == client_id
            ==> !after.table.slots.contains_key(client_id),
        before.table.slots.contains_key(client_id) && before.table.slots[client_id] == k
            && departed.pending.contains_key(k) && before.table.pending[k].client_id == Some(
            client_id,
        ) ==> !after.table.slots.contains_key(client_id),
{
    crate::client_table::removals_keep_the_order(
        aloud,
        before.table,
        checked,
        after.table,
        departed,
    );
    assert(checked.dom() == before.table.clients.dom());
    assert(before.table.clients.contains_key(k) ==> crate::client_table::reader_checked(
        before.table.clients[k],
        checked[k],
    ));
    assert(before.table.pending.contains_key(k) ==> !before.table.clients.contains_key(k)) by {
        assert(before.table.clients.dom().disjoint(before.table.pending.dom()));
    }
}

/// Receiving changes nothing about who is active, even where nobody is.
pub proof fn receiving_keeps_everybody<S>(
    aloud: bool,
    before: ServerView<S>,
    after: ServerView<S>,
    requests: Seq<Option<ConnectionRequest>>,
    end_index: Option<u64>,
    buffer_before: Seq<u8>,
    buffer_after: Seq<u8>,
    answer: Result<(usize, SocketAddr), SocketError>,
)
    requires
        before.receives(aloud, after, requests, end_index, buffer_before, buffer_after, answer),
    ensures
        after.table.clients.dom() == before.table.clients.dom(),
        forall|k: u64|
            !before.table.clients.contains_key(k) ==> #[trigger] after.table.lost.contains(k)
                == before.table.lost.contains(k),
        after.table.recv_index != before.table.recv_index ==> {
            let passed = (after.table.recv_index - 1) as u64;
            &&& before.table.clients.contains_key(passed)
            &&& after.table.clients[passed].packets == before.table.clients[passed].packets.push(None)
        },
        answer is Err ==> answer == Err::<(usize, SocketAddr), SocketError>(SocketError::WouldBlock)
            && buffer_after == buffer_before,
{
    let limit = buffer_before.len();
    let refused = crate::web_server::refused_of(requests, limit);
    crate::web_server::lemma_refusing_all(aloud, before.table, refused);
    let table = before.table.refusing_all(aloud, refused);
    if end_index is Some {
        let (idxs, packets) = choose|idxs: Seq<u64>, packets: Seq<Option<Seq<u8>>>| #[trigger]
            table.polled(
                after.table,
                end_index->0,
                idxs,
                packets,
                buffer_before,
                buffer_after,
                answer,
            );
        crate::client_table::polls_keep_the_clients(
            table,
            after.table,
            end_index->0,
            idxs,
            packets,
            buffer_before,
            buffer_after,
            answer,
        );
        let asked = idxs.take(packets.len() as int);
        assert forall|a: int| 0 <= a < asked.len() implies table.clients.contains_key(
            #[trigger] asked[a],
        ) && table.recv_index <= asked[a] < u64::MAX by {
            assert(asked[a] == idxs[a]);
            assert(idxs.contains(idxs[a]));
        }
        lemma_polls(table, asked, packets, limit);
        assert forall|k: u64|
            !before.table.clients.contains_key(k) implies #[trigger] after.table.lost.contains(k)
            == before.table.lost.contains(k) by {
            if after.table.lost.contains(k) && !before.table.lost.contains(k) {
                let j = choose|j: int|
                    0 <= j < asked.len() && #[trigger] asked[j] == k && packets[j] is Some
                        && packets[j]->0.len() > limit;
                assert(table.clients.contains_key(asked[j]));
            }
        }
        if after.table.recv_index != before.table.recv_index {
            let j = choose|j: int|
                0 <= j < asked.len() && after.table.recv_index == #[trigger] asked[j] + 1
                    && packets[j] is None;
            assert(after.table.clients[asked[j]] == table.clients[asked[j]].polled(packets[j]));
        }
    }
}

} // verus!
