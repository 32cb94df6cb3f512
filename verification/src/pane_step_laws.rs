//! What each step does to a node's pane, its writers and its hosts, by what the panes hold: the
//! stages a pane goes through, what the cache lets go of, and who may type.
use vstd::prelude::*;

use crate::cache;
use crate::cache::{PaneEntry, PaneRows};
use crate::display::{
    Attached, HostFacts, PaneAttach, PaneReady, PaneReplayReservationError, PaneWriteHalf,
};
use crate::error::RpcError;
use crate::model::{ConnId, HostId};
use crate::native::PreparedNativeWriter;
use crate::pane_laws;
use crate::panes;
use crate::panes::{LeaseRow, PanesModel};
use crate::table;

verus! {

// -------------------------------------------------------------------------------------------------
// Leases
// -------------------------------------------------------------------------------------------------

/// A lease is taken away exactly where both its connection and its node are meant, and the leases
/// that are taken away are the ones that are named, in order.
pub proof fn law_a_lease_is_taken_from_whom_it_is_meant(
    leases: Seq<LeaseRow>,
    l: LeaseRow,
    conn: Option<ConnId>,
    id: Option<Seq<char>>,
)
    ensures
        ({
            let meant = (conn is None || l.conn == conn->0) && (id is None || l.agent == id->0);
            &&& panes::leases_without(Seq::empty(), conn, id) == Seq::<LeaseRow>::empty()
            &&& panes::leases_of(Seq::empty(), conn, id) == Seq::<LeaseRow>::empty()
            &&& panes::leases_without(leases.push(l), conn, id) == (if meant {
                panes::leases_without(leases, conn, id)
            } else {
                panes::leases_without(leases, conn, id).push(l)
            })
            &&& panes::leases_of(leases.push(l), conn, id) == (if meant {
                panes::leases_of(leases, conn, id).push(l)
            } else {
                panes::leases_of(leases, conn, id)
            })
            &&& panes::lease_holders(leases.push(l)) == panes::lease_holders(leases).push(
                (l.conn, l.host),
            )
            &&& panes::lease_holders(Seq::empty()) == Seq::<(ConnId, HostId)>::empty()
        }),
{
    reveal(Seq::filter);
    assert(leases.push(l).drop_last() =~= leases);
    assert(panes::lease_holders(leases.push(l)) =~= panes::lease_holders(leases).push(
        (l.conn, l.host),
    ));
    assert(panes::lease_holders(Seq::empty()) =~= Seq::<(ConnId, HostId)>::empty());
}

// -------------------------------------------------------------------------------------------------
// Stages
// -------------------------------------------------------------------------------------------------

/// The host of a pane is the one its stage names; a keystroke reaches a live one alone, and a replay
/// every one that is not still taking over.
pub proof fn law_a_stage_says_what_its_host_is_for(e: PaneEntry)
    ensures
        e.host_of() == (match e {
            PaneEntry::Live(h) => h,
            PaneEntry::Closing(h) => h,
            PaneEntry::Replacing(h) => h,
            PaneEntry::Completed { host, .. } => host,
        }),
        e.live_host_of() is Some <==> e is Live,
        e.live_host_of() is Some ==> e.live_host_of()->0 == e.host_of(),
        e.replay_host_of() is Some <==> !(e is Replacing),
        e.replay_host_of() is Some ==> e.replay_host_of()->0 == e.host_of(),
{
}

/// A node's first host is its live pane at once, under the next generation; nobody is cut off.
pub proof fn law_a_first_host_is_live_at_once(m: PanesModel, id: Seq<char>, host: HostId)
    requires
        m.sound(),
        table::distinct(m.generations),
        forall|r: int| 0 <= r < m.hosts.len() ==> (#[trigger] m.hosts[r]).0 != id,
    ensures
        m.registered(id, host).entry(id) == Some(PaneEntry::Live(host)),
        forall|other: Seq<char>|
            other != id ==> #[trigger] m.registered(id, host).entry(other) == m.entry(other),
        m.registered(id, host).leases == m.leases,
        m.next_generation < u64::MAX ==> {
            &&& m.registered(id, host).next_generation == m.next_generation + 1
            &&& table::value(m.registered(id, host).generations, id) == Some(
                (m.next_generation + 1) as u64,
            )
        },
        m.registering(id, host).retire.len() == 0,
        m.registering(id, host).released.len() == 0,
        !m.registering(id, host).revoke_native,
{
    table::law_an_id_holds_what_its_row_says(m.hosts, id);
    table::lemma_put(m.hosts, id, PaneEntry::Live(host));
    if m.next_generation < u64::MAX {
        table::lemma_put(m.generations, id, (m.next_generation + 1) as u64);
    }
}

/// Another host takes over in two steps. First the old one is cut off: it is retired, whoever typed
/// into the node may not any more and their slots are free, a native claim on it is void, and the new
/// host is not yet live. Then the new one is live, under a generation of its own. The same host again
/// changes nothing.
pub proof fn law_a_host_takes_over_once_the_old_one_is_cut_off(
    m: PanesModel,
    id: Seq<char>,
    was: PaneEntry,
    host: HostId,
    row: int,
)
    requires
        m.sound(),
        table::distinct(m.generations),
        0 <= row < m.hosts.len(),
        m.hosts[row] == (id, was),
    ensures
        ({
            let old = match was {
                PaneEntry::Live(h) => h,
                PaneEntry::Closing(h) => h,
                PaneEntry::Replacing(h) => h,
                PaneEntry::Completed { host, .. } => host,
            };
            let cut = m.registered(id, host);
            let asked = m.registering(id, host);
            let done = cut.published(id, host);
            &&& old == host ==> cut == m && asked == panes::no_effects()
            &&& old != host ==> {
                &&& cut.entry(id) == Some(PaneEntry::Replacing(host))
                &&& table::value(cut.generations, id) is None
                &&& forall|c: ConnId| !panes::has_lease(cut.leases, c, id)
                &&& forall|c: ConnId, other: Seq<char>|
                    other != id ==> #[trigger] panes::has_lease(cut.leases, c, other)
                        == panes::has_lease(m.leases, c, other)
                &&& forall|other: Seq<char>|
                    other != id ==> #[trigger] cut.entry(other) == m.entry(other)
                &&& asked.retire == seq![old]
                &&& asked.revoke_native == (m.native is Some)
                &&& asked.released == panes::lease_holders(
                    panes::leases_of(m.leases, None, Some(id)),
                )
                &&& done.entry(id) == Some(PaneEntry::Live(host))
                &&& done.leases == cut.leases
                &&& m.next_generation < u64::MAX ==> table::value(done.generations, id) == Some(
                    (m.next_generation + 1) as u64,
                )
            }
        }),
{
    table::law_an_id_holds_what_its_row_says(m.hosts, id);
    table::lemma_put(m.hosts, id, PaneEntry::Replacing(host));
    table::lemma_without(m.generations, id);
    let cut = m.registered(id, host);
    if was.host_of() != host {
        assert forall|c: ConnId| !panes::has_lease(cut.leases, c, id) by {
            panes::lemma_lease_kept(m.leases, None, Some(id), c, id);
        }
        assert forall|c: ConnId, other: Seq<char>| other != id implies #[trigger] panes::has_lease(
            cut.leases,
            c,
            other,
        ) == panes::has_lease(m.leases, c, other) by {
            panes::lemma_lease_kept(m.leases, None, Some(id), c, other);
        }
        table::lemma_put(cut.hosts, id, PaneEntry::Live(host));
        if m.next_generation < u64::MAX {
            table::lemma_put(cut.generations, id, (m.next_generation + 1) as u64);
        }
    }
}

/// A live host that closes takes no more input: its writers are gone and their slots free, it is
/// sealed, and a native claim on it is void. A host that fails, in whatever stage, and one that is
/// forgotten leave no pane, no writer and no generation behind, and are retired.
pub proof fn law_a_host_that_ends_lets_go_of_everything(
    m: PanesModel,
    id: Seq<char>,
    was: PaneEntry,
    row: int,
    c: ConnId,
)
    requires
        m.sound(),
        table::distinct(m.generations),
        0 <= row < m.hosts.len(),
        m.hosts[row] == (id, was),
    ensures
        ({
            let host = match was {
                PaneEntry::Live(h) => h,
                PaneEntry::Closing(h) => h,
                PaneEntry::Replacing(h) => h,
                PaneEntry::Completed { host, .. } => host,
            };
            let freed = panes::lease_holders(panes::leases_of(m.leases, None, Some(id)));
            &&& was is Live ==> {
                &&& m.closing(id, host).entry(id) == Some(PaneEntry::Closing(host))
                &&& !panes::has_lease(m.closing(id, host).leases, c, id)
                &&& table::value(m.closing(id, host).generations, id) is None
                &&& m.sealing(id, host).seal == Some(host)
                &&& m.sealing(id, host).released == freed
                &&& m.sealing(id, host).revoke_native == (m.native is Some)
                &&& m.sealing(id, host).retire.len() == 0
            }
            &&& !(was is Live) ==> m.closing(id, host) == m && m.sealing(id, host)
                == panes::no_effects()
            &&& m.failed(id, host).entry(id) is None
            &&& !panes::has_lease(m.failed(id, host).leases, c, id)
            &&& table::value(m.failed(id, host).generations, id) is None
            &&& m.failing(id, host).retire == seq![host]
            &&& m.failing(id, host).released == freed
            &&& m.failing(id, host).revoke_native == (m.native is Some)
            &&& m.forgotten(id).entry(id) is None
            &&& !panes::has_lease(m.forgotten(id).leases, c, id)
            &&& table::value(m.forgotten(id).generations, id) is None
            &&& m.forgetting(id).retire == seq![host]
            &&& m.forgetting(id).released == freed
            &&& forall|other: Seq<char>|
                other != id ==> {
                    &&& m.closing(id, host).entry(other) == #[trigger] m.entry(other)
                    &&& m.failed(id, host).entry(other) == m.entry(other)
                    &&& m.forgotten(id).entry(other) == m.entry(other)
                }
        }),
{
    table::law_an_id_holds_what_its_row_says(m.hosts, id);
    table::lemma_put(m.hosts, id, PaneEntry::Closing(was.host_of()));
    table::lemma_without(m.hosts, id);
    table::lemma_without(m.generations, id);
    panes::lemma_lease_kept(m.leases, None, Some(id), c, id);
}

// -------------------------------------------------------------------------------------------------
// The cache
// -------------------------------------------------------------------------------------------------

/// A completed pane is past its deadline from five minutes after it completed; no other pane ever
/// is. A completed pane counts as one and for what it is charged; no other pane counts.
pub proof fn law_a_completed_pane_is_kept_for_five_minutes(
    e: PaneEntry,
    now: u64,
    rows: PaneRows,
    id: Seq<char>,
)
    ensures
        e.expired(now) <==> e is Completed && e->completed_at + 300_000_000_000 <= now,
        cache::completed_count(Seq::empty()) == 0,
        cache::completed_bytes(Seq::empty()) == 0,
        cache::completed_count(rows.push((id, e))) == cache::completed_count(rows) + (if e
            is Completed {
            1int
        } else {
            0
        }),
        cache::completed_bytes(rows.push((id, e))) == cache::completed_bytes(rows) + (if e
            is Completed {
            e->charged_bytes as int
        } else {
            0
        }),
{
    assert(rows.push((id, e)).drop_last() =~= rows);
}

/// Without a completed pane there is nothing to count.
proof fn lemma_nothing_completed(rows: PaneRows)
    requires
        forall|i: int| 0 <= i < rows.len() ==> !((#[trigger] rows[i]).1 is Completed),
    ensures
        cache::completed_count(rows) == 0,
        cache::completed_bytes(rows) == 0,
    decreases rows.len(),
{
    if rows.len() > 0 {
        assert(!(rows[rows.len() - 1].1 is Completed));
        lemma_nothing_completed(rows.drop_last());
    }
}

/// The newest completion outlasts the others, where it fits by itself.
proof fn lemma_newest_stays(rows: PaneRows, limit: usize, next: u64, k: int)
    requires
        table::distinct(rows),
        cache::ordered(rows, next),
        limit >= 1,
        0 <= k < rows.len(),
        rows[k].1 is Completed,
        rows[k].1->charged_bytes <= cache::MAX_COMPLETED_BYTES,
        forall|i: int|
            0 <= i < rows.len() && (#[trigger] rows[i]).1 is Completed ==> rows[i].1->order
                <= rows[k].1->order,
    ensures
        exists|i: int|
            0 <= i < cache::trimmed(rows, limit).len() && #[trigger] cache::trimmed(rows, limit)[i]
                == rows[k],
    decreases rows.len(),
{
    if cache::over_budget(rows, limit) {
        cache::lemma_usage_bounds(rows);
        if cache::completed_count(rows) == 0 {
            assert(!(rows[k].1 is Completed));
        }
        cache::lemma_oldest(rows, next);
        let o = cache::oldest(rows);
        let rest = rows.remove(o);
        cache::lemma_remove_ordered(rows, o, next);
        if o == k {
            assert forall|i: int| 0 <= i < rest.len() implies !((
            #[trigger] rest[i]).1 is Completed) by {
                let x = if i < o {
                    i
                } else {
                    i + 1
                };
                assert(rest[i] == rows[x]);
                if rows[x].1 is Completed {
                    assert(rows[k].1->order <= rows[x].1->order);
                    assert(rows[x].1->order <= rows[k].1->order);
                    if x < k {
                        assert(rows[x].1->order != rows[k].1->order);
                    } else {
                        assert(rows[k].1->order != rows[x].1->order);
                    }
                }
            }
            lemma_nothing_completed(rest);
            assert(false);
        } else {
            let at = if k < o {
                k
            } else {
                k - 1
            };
            assert(rest[at] == rows[k]);
            assert forall|i: int| 0 <= i < rest.len() && (#[trigger] rest[i]).1 is Completed implies
            rest[i].1->order <= rest[at].1->order by {
                let x = if i < o {
                    i
                } else {
                    i + 1
                };
                assert(rest[i] == rows[x]);
            }
            lemma_newest_stays(rest, limit, next, at);
            assert(cache::trimmed(rows, limit) == cache::trimmed(rest, limit));
        }
    } else {
        assert(cache::trimmed(rows, limit)[k] == rows[k]);
    }
}

/// A host that was drained is kept: its pane can be replayed from when it completed, charged what it
/// was charged, unless it is charged more than the cache may hold altogether, there is no place left
/// in the order, or nothing at all is kept. Only the replay of a pane that completed is kept.
pub proof fn law_a_drained_pane_can_be_replayed(
    m: PanesModel,
    id: Seq<char>,
    host: HostId,
    bytes: usize,
    now: u64,
    row: int,
)
    requires
        m.sound(),
        0 <= row < m.hosts.len(),
        m.hosts[row] == (id, PaneEntry::Closing(host)),
        cache::completed_bytes(m.hosts) + bytes <= usize::MAX,
        cache::completed_count(m.hosts) < usize::MAX,
    ensures
        bytes <= 268_435_456 && m.next_order < u64::MAX && m.limit >= 1 ==> {
            &&& m.completed(id, host, bytes, now).entry(id) == Some(
                PaneEntry::Completed {
                    host,
                    charged_bytes: bytes,
                    completed_at: now,
                    order: m.next_order,
                },
            )
            &&& m.completing(id, host, bytes, now).unlisten == Some(host)
        },
        bytes > 268_435_456 || m.next_order == u64::MAX ==> {
            &&& m.completed(id, host, bytes, now).entry(id) is None
            &&& m.completing(id, host, bytes, now).retire.len() > 0
            &&& m.completing(id, host, bytes, now).retire.last() == host
        },
{
    table::law_an_id_holds_what_its_row_says(m.hosts, id);
    if m.admits(bytes) {
        let done = PaneEntry::Completed {
            host,
            charged_bytes: bytes,
            completed_at: now,
            order: m.next_order,
        };
        let c = m.with_completion(id, host, bytes, now);
        table::lemma_put(m.hosts, id, done);
        cache::lemma_put_completed(m.hosts, id, done, m.next_order);
        cache::lemma_unexpired(c.hosts, now, c.next_order);
        let live = cache::unexpired(c.hosts, now);
        assert(table::value(live, id) == Some(done));
        table::law_an_id_holds_what_its_row_says(live, id);
        let k = choose|k: int| 0 <= k < live.len() && #[trigger] live[k] == (id, done);
        assert forall|i: int| 0 <= i < live.len() && (#[trigger] live[i]).1 is Completed implies
        live[i].1->order <= live[k].1->order by {
            assert(live[i].1->order < c.next_order);
        }
        if m.limit >= 1 {
            lemma_newest_stays(live, m.limit, c.next_order, k);
            cache::lemma_trimmed(live, m.limit, c.next_order);
            let kept = cache::trimmed(live, m.limit);
            let i = choose|i: int| 0 <= i < kept.len() && #[trigger] kept[i] == live[k];
            table::law_an_id_holds_what_its_row_says(kept, id);
        }
    } else {
        pane_laws::law_pruning_keeps_the_newest_within_the_caps(m, now);
        table::lemma_without(m.pruned(now).hosts, id);
    }
}

/// Nothing is let go of before it must be: where a pane that was not past its deadline has gone, one
/// of those that went would, beside all that stayed, have been one too many or too heavy.
proof fn lemma_trim_is_needed(rows: PaneRows, limit: usize, next: u64) -> (w: int)
    requires
        table::distinct(rows),
        cache::ordered(rows, next),
    ensures
        cache::trimmed(rows, limit) == rows || {
            let kept = cache::trimmed(rows, limit);
            &&& 0 <= w < rows.len()
            &&& rows[w].1 is Completed
            &&& table::value(kept, rows[w].0) is None
            &&& cache::completed_count(kept) + 1 > limit || cache::completed_bytes(kept)
                + rows[w].1->charged_bytes > cache::MAX_COMPLETED_BYTES
        },
    decreases rows.len(),
{
    if cache::over_budget(rows, limit) {
        cache::lemma_usage_bounds(rows);
        cache::lemma_oldest(rows, next);
        let o = cache::oldest(rows);
        let rest = rows.remove(o);
        cache::lemma_remove_ordered(rows, o, next);
        table::lemma_remove(rows, o);
        cache::lemma_trimmed(rest, limit, next);
        let kept = cache::trimmed(rows, limit);
        assert(kept == cache::trimmed(rest, limit));
        if kept == rest {
            o
        } else {
            let w = lemma_trim_is_needed(rest, limit, next);
            let x = if w < o {
                w
            } else {
                w + 1
            };
            assert(rest[w] == rows[x]);
            x
        }
    } else {
        0
    }
}

/// The cache lets go of nothing before it must: of every pane that is past its deadline, and of
/// others only while there are too many or they weigh too much, so that one of those that went, put
/// back beside all that stayed, would break a cap.
pub proof fn law_the_cache_lets_go_of_no_more_than_it_must(m: PanesModel, now: u64)
    requires
        m.sound(),
    ensures
        ({
            let kept = m.pruned(now);
            let fresh_went = exists|id: Seq<char>|
                m.entry(id) is Some && !m.entry(id)->0.expired(now) && (
                #[trigger] kept.entry(id)) is None;
            fresh_went ==> exists|id: Seq<char>|
                {
                    &&& m.entry(id) is Some
                    &&& m.entry(id)->0 is Completed
                    &&& (#[trigger] kept.entry(id)) is None
                    &&& cache::completed_count(kept.hosts) + 1 > m.limit
                        || cache::completed_bytes(kept.hosts) + m.entry(id)->0->charged_bytes
                        > 268_435_456
                }
        }),
{
    let live = cache::unexpired(m.hosts, now);
    let kept = m.pruned(now);
    cache::lemma_unexpired(m.hosts, now, m.next_order);
    let w = lemma_trim_is_needed(live, m.limit, m.next_order);
    if exists|id: Seq<char>|
        m.entry(id) is Some && !m.entry(id)->0.expired(now) && (
        #[trigger] kept.entry(id)) is None {
        let id = choose|id: Seq<char>|
            m.entry(id) is Some && !m.entry(id)->0.expired(now) && (
            #[trigger] kept.entry(id)) is None;
        assert(table::value(live, id) is Some);
        assert(cache::trimmed(live, m.limit) != live);
        let gone = live[w].0;
        table::law_an_id_holds_what_its_row_says(live, gone);
        assert(table::value(live, gone) == Some(live[w].1));
        assert(m.entry(gone) == Some(live[w].1));
        assert(kept.entry(gone) is None);
    }
}

// -------------------------------------------------------------------------------------------------
// Who may type
// -------------------------------------------------------------------------------------------------

/// Whoever attaches to a live pane gets the keyboard where it is free and nobody was promised it;
/// keeps it where it is theirs; and is told who has it where it is somebody else's. What has ended
/// takes no keyboard.
pub proof fn law_a_free_keyboard_goes_to_whoever_attaches(
    m: PanesModel,
    id: Seq<char>,
    conn: ConnId,
    facts: HostFacts,
    row: int,
    was: PaneEntry,
)
    requires
        m.sound(),
        0 <= row < m.hosts.len(),
        m.hosts[row] == (id, was),
    ensures
        ({
            let (after, half, granted) = m.attached_replay(id, conn, facts);
            let promised = m.native is Some && facts.native_pending;
            let theirs = exists|i: int|
                0 <= i < m.leases.len() && (#[trigger] m.leases[i]).conn == conn
                    && m.leases[i].agent == id;
            &&& !(was is Live) ==> half == PaneWriteHalf::Ended && after == m && !granted
            &&& was is Live && promised ==> half == PaneWriteHalf::Elsewhere(None) && after == m
                && !granted
            &&& was is Live && !promised && theirs ==> half == PaneWriteHalf::Held && after == m
                && !granted
            &&& was is Live && !promised && !theirs && facts.writer is Some ==> half
                == PaneWriteHalf::Elsewhere(Some((facts.writer->0).0)) && after == m && !granted
            &&& was is Live && !promised && !theirs && facts.writer is None ==> {
                &&& half == PaneWriteHalf::Held
                &&& granted
                &&& after == (PanesModel {
                    leases: m.leases.push(LeaseRow { conn, agent: id, host: was->Live_0 }),
                    ..m
                })
            }
            &&& was is Live ==> m.attached_live(id, conn, was->Live_0, facts) == m.attached_replay(
                id,
                conn,
                facts,
            )
        }),
{
    table::law_an_id_holds_what_its_row_says(m.hosts, id);
}

/// What a client is told of a pane is who may type, and nothing else of it: the holder may, nobody
/// may into what has ended, and where another may that one is named; the size is the host's own, or
/// the intended one where it has none.
pub proof fn law_a_client_is_told_who_may_type(pane: PaneAttach, facts: HostFacts)
    ensures
        pane.tells(PaneWriteHalf::Held, facts) ==> pane.writable && pane.held_by is None
            && !pane.ended,
        forall|owner: Option<u64>| #[trigger]
            pane.tells(PaneWriteHalf::Elsewhere(owner), facts) ==> !pane.writable && pane.held_by
                == owner && !pane.ended,
        pane.tells(PaneWriteHalf::Ended, facts) ==> !pane.writable && pane.held_by is None
            && pane.ended,
        forall|half: PaneWriteHalf| #[trigger]
            pane.tells(half, facts) && facts.size is Some ==> pane.cols == (facts.size->0).cols
                && pane.rows == (facts.size->0).rows,
        forall|half: PaneWriteHalf| #[trigger]
            pane.tells(half, facts) && facts.size is None ==> pane.cols == facts.intended_size.cols
                && pane.rows == facts.intended_size.rows,
{
}

/// An attach is committed exactly where the pane is still on the host it was reserved on and that
/// host is not taking over; who may type is then asked again. One that is undone takes the
/// connection's lease on the node along, and no other, where the host is still the node's.
pub proof fn law_a_reservation_holds_while_its_host_does(
    m: PanesModel,
    id: Seq<char>,
    conn: ConnId,
    host: HostId,
    writer: Option<ConnId>,
    row: int,
    was: PaneEntry,
)
    requires
        m.sound(),
        0 <= row < m.hosts.len(),
        m.hosts[row] == (id, was),
    ensures
        ({
            let (same, half) = m.reservation(id, conn, host, writer);
            let theirs = panes::has_lease(m.leases, conn, id);
            let ours = match was {
                PaneEntry::Live(h) => h == host,
                PaneEntry::Closing(h) => h == host,
                PaneEntry::Replacing(h) => h == host,
                PaneEntry::Completed { host: h, .. } => h == host,
            };
            &&& same <==> ours && !(was is Replacing)
            &&& same && was is Live && theirs ==> half == PaneWriteHalf::Held
            &&& same && was is Live && !theirs && writer is Some ==> half
                == PaneWriteHalf::Elsewhere(Some((writer->0).0))
            &&& same && was is Live && !theirs && writer is None ==> half
                == PaneWriteHalf::Elsewhere(None)
            &&& same && !(was is Live) ==> half == PaneWriteHalf::Ended
            &&& ours ==> {
                &&& m.rolled_back(id, conn, host).leases == panes::leases_without(
                    m.leases,
                    Some(conn),
                    Some(id),
                )
                &&& m.freed_by_rollback(id, conn, host) == panes::lease_holders(
                    panes::leases_of(m.leases, Some(conn), Some(id)),
                )
            }
            &&& !ours ==> m.rolled_back(id, conn, host) == m && m.freed_by_rollback(
                id,
                conn,
                host,
            ).len() == 0
            &&& m.rolled_back(id, conn, host).hosts == m.hosts
        }),
{
    table::law_an_id_holds_what_its_row_says(m.hosts, id);
}

/// Input reaches a node's host exactly where the connection holds the node's write lease and the host
/// is live; a replay is started on every host that is not still taking over.
pub proof fn law_input_reaches_the_live_host_of_its_writer(
    m: PanesModel,
    conn: ConnId,
    id: Seq<char>,
    row: int,
    was: PaneEntry,
)
    requires
        m.sound(),
        0 <= row < m.hosts.len(),
        m.hosts[row] == (id, was),
    ensures
        ({
            let theirs = exists|i: int|
                0 <= i < m.leases.len() && (#[trigger] m.leases[i]).conn == conn
                    && m.leases[i].agent == id;
            &&& m.writable_host(conn, id) is Some <==> theirs && was is Live
            &&& theirs && was is Live ==> m.writable_host(conn, id) == Some(was->Live_0)
            &&& was is Replacing ==> m.ready_host(id) is None
            &&& was is Live ==> m.ready_host(id) == Some(was->Live_0)
            &&& was is Closing ==> m.ready_host(id) == Some(was->Closing_0)
            &&& was is Completed ==> m.ready_host(id) == Some(was->host)
        }),
{
    table::law_an_id_holds_what_its_row_says(m.hosts, id);
}

/// A native claim has a target exactly where the node's host is live and has a generation and an
/// authority is installed; a prepared claim is good exactly while its host, its generation, its
/// authority and its writer are the ones it was prepared against.
pub proof fn law_a_native_claim_is_for_one_generation(
    m: PanesModel,
    id: Seq<char>,
    p: PreparedNativeWriter,
    writer: Option<ConnId>,
)
    ensures
        m.native_target(id) is Ok <==> {
            &&& m.entry(id) is Some && m.entry(id)->0 is Live
            &&& table::value(m.generations, id) is Some
            &&& m.native is Some
        },
        m.native_target(id) is Ok ==> {
            &&& m.native_target(id)->Ok_0.host == m.entry(id)->0->Live_0
            &&& Some(m.native_target(id)->Ok_0.generation) == table::value(m.generations, id)
            &&& Some(m.native_target(id)->Ok_0.authority) == m.native
        },
        p.current(m, writer) <==> {
            &&& m.native_target(p.agent_id@) is Ok
            &&& m.native_target(p.agent_id@)->Ok_0 == p.target
            &&& writer == Some(p.conn)
        },
{
}

/// An attach is answered with the node's own live host, and by no other: a node without a live pane
/// is answered with none, and nothing moves. Nothing is reserved by it.
pub proof fn law_an_attach_is_answered_with_the_live_host(
    m: PanesModel,
    id: Seq<char>,
    conn: ConnId,
    facts: HostFacts,
    after: PanesModel,
    r: Option<Attached>,
    row: int,
    was: PaneEntry,
)
    requires
        m.sound(),
        0 <= row < m.hosts.len(),
        m.hosts[row] == (id, was),
        m.attaches(id, conn, facts, after, r),
    ensures
        r is Some <==> was is Live,
        r is Some ==> {
            &&& (r->0).host == was->Live_0
            &&& (r->0).pane.pane_ready is None
            &&& !(r->0).pane.ended
            &&& (r->0).granted <==> after.leases.len() == m.leases.len() + 1
            &&& (r->0).granted ==> (r->0).pane.writable
        },
        r is None ==> after == m,
{
    table::law_an_id_holds_what_its_row_says(m.hosts, id);
}

/// An exact attach is refused while the pane changes hands, and where the replay could not be
/// reserved; then nothing moves. Otherwise it is answered with the pane's host, live or not, and
/// with what was reserved on it.
pub proof fn law_an_exact_attach_is_answered_with_what_was_reserved(
    m: PanesModel,
    id: Seq<char>,
    conn: ConnId,
    facts: HostFacts,
    reserved: Result<PaneReady, PaneReplayReservationError>,
    after: PanesModel,
    r: Result<Option<Attached>, RpcError>,
    row: int,
    was: PaneEntry,
)
    requires
        m.sound(),
        0 <= row < m.hosts.len(),
        m.hosts[row] == (id, was),
        m.attaches_v1(id, conn, facts, reserved, after, r),
    ensures
        r is Err <==> was is Replacing || reserved is Err,
        r is Err ==> after == m,
        r is Ok ==> {
            &&& r->Ok_0 is Some
            &&& (r->Ok_0->0).pane.pane_ready == Some(reserved->Ok_0)
            &&& was is Live ==> (r->Ok_0->0).host == was->Live_0 && !(r->Ok_0->0).pane.ended
            &&& was is Closing ==> (r->Ok_0->0).host == was->Closing_0
            &&& was is Completed ==> (r->Ok_0->0).host == was->Completed_host
            &&& !(was is Live) ==> (r->Ok_0->0).pane.ended && !(r->Ok_0->0).pane.writable
                && !(r->Ok_0->0).granted && after == m
        },
{
    table::law_an_id_holds_what_its_row_says(m.hosts, id);
}

/// A node that has no pane is attached to without one, either way.
pub proof fn law_a_node_without_a_pane_is_attached_to_without_one(
    m: PanesModel,
    id: Seq<char>,
    conn: ConnId,
    facts: HostFacts,
    reserved: Result<PaneReady, PaneReplayReservationError>,
    after: PanesModel,
)
    requires
        m.sound(),
        forall|i: int| 0 <= i < m.hosts.len() ==> (#[trigger] m.hosts[i]).0 != id,
    ensures
        forall|r: Option<Attached>| #[trigger]
            m.attaches(id, conn, facts, after, r) <==> r is None && after == m,
        forall|r: Result<Option<Attached>, RpcError>| #[trigger]
            m.attaches_v1(id, conn, facts, reserved, after, r) <==> r
                == Ok::<Option<Attached>, RpcError>(None) && after == m,
{
    table::law_an_id_holds_what_its_row_says(m.hosts, id);
}

/// A host that is announced while it takes over asks for nothing; one that is no longer taking over
/// is retired, and nothing else is.
pub proof fn law_a_host_that_came_too_late_is_retired(
    m: PanesModel,
    id: Seq<char>,
    host: HostId,
    row: int,
    was: PaneEntry,
)
    requires
        m.sound(),
        0 <= row < m.hosts.len(),
        m.hosts[row] == (id, was),
    ensures
        ({
            let e = m.publishing(id, host);
            let awaited = was is Replacing && was->Replacing_0 == host;
            &&& awaited ==> e.retire.len() == 0
            &&& !awaited ==> e.retire == seq![host]
            &&& !e.revoke_native
            &&& e.released.len() == 0
            &&& e.seal is None
            &&& e.unlisten is None
        }),
{
    table::law_an_id_holds_what_its_row_says(m.hosts, id);
}

} // verus!
