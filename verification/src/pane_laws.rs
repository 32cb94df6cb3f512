//! What every change of the panes keeps: the cache stays within its caps, a pane only moves forward,
//! a write lease is only ever for the live host it was issued for, and a node has one writer.
use vstd::prelude::*;

use crate::cache;
use crate::cache::PaneEntry;
use crate::display::{
    Attached, HostFacts, PaneReady, PaneReplayReservationError, PaneWriteHalf,
};
use crate::error::RpcError;
use crate::model::{ConnId, HostId};
use crate::native::PreparedNativeWriter;
use crate::panes;
use crate::panes::{LeaseRow, PanesModel};
use crate::table;

verus! {

impl PanesModel {
    /// Each node has one pane, and no two completions have one place in the order.
    pub open spec fn sound(self) -> bool {
        &&& table::distinct(self.hosts)
        &&& cache::ordered(self.hosts, self.next_order)
    }

    /// Every lease is for its node's live host.
    pub open spec fn leases_follow_hosts(self) -> bool {
        forall|i: int|
            0 <= i < self.leases.len() ==> self.entry((#[trigger] self.leases[i]).agent) == Some(
                PaneEntry::Live(self.leases[i].host),
            )
    }

    /// No node has two leases.
    pub open spec fn one_writer_each(self) -> bool {
        forall|i: int, j: int|
            0 <= i < j < self.leases.len() ==> (#[trigger] self.leases[i]).agent != (
            #[trigger] self.leases[j]).agent
    }

    /// Nobody may type into `id`.
    pub open spec fn nobody_writes(self, id: Seq<char>) -> bool {
        forall|i: int| 0 <= i < self.leases.len() ==> (#[trigger] self.leases[i]).agent != id
    }
}

/// The cache after pruning: nothing is past its deadline and neither cap is exceeded; what is left
/// is what it was; only completed panes went; and of those that were not past their deadline, one
/// that went completed before any that stayed. Pruning again changes nothing.
pub proof fn law_pruning_keeps_the_newest_within_the_caps(m: PanesModel, now: u64)
    requires
        m.sound(),
    ensures
        m.pruned(now).sound(),
        cache::completed_count(m.pruned(now).hosts) <= m.limit,
        cache::completed_bytes(m.pruned(now).hosts) <= cache::MAX_COMPLETED_BYTES,
        forall|id: Seq<char>|
            (#[trigger] m.pruned(now).entry(id)) matches Some(e) ==> !e.expired(now) && m.entry(id)
                == Some(e),
        forall|id: Seq<char>|
            (#[trigger] m.pruned(now).entry(id)) is None ==> (m.entry(id) matches Some(e) ==> e
                is Completed),
        forall|gone: Seq<char>, kept: Seq<char>|
            (#[trigger] m.pruned(now).entry(gone)) is None && m.entry(gone) is Some
                && !m.entry(gone)->0.expired(now) && (#[trigger] m.pruned(now).entry(kept)
                matches Some(PaneEntry::Completed { .. })) ==> m.entry(gone)->0->order < m.entry(
                kept,
            )->0->order,
        m.pruned(now).pruned(now) == m.pruned(now),
{
    let u = cache::unexpired(m.hosts, now);
    let k = m.pruned(now);
    cache::lemma_unexpired(m.hosts, now, m.next_order);
    cache::lemma_trimmed(u, m.limit, m.next_order);
    assert forall|id: Seq<char>| (#[trigger] k.entry(id)) is Some implies !k.entry(id)->0.expired(
        now,
    ) && m.entry(id) == k.entry(id) by {
        assert(table::value(k.hosts, id) == table::value(u, id));
    }
    assert forall|id: Seq<char>| (#[trigger] k.entry(id)) is None && m.entry(id) is Some implies
    m.entry(id)->0 is Completed by {
        assert(table::value(u, id) == (if m.entry(id)->0.expired(now) {
            None
        } else {
            m.entry(id)
        }));
    }
    assert forall|gone: Seq<char>, kept: Seq<char>|
        (#[trigger] k.entry(gone)) is None && m.entry(gone) is Some && !m.entry(gone)->0.expired(
            now,
        ) && (#[trigger] k.entry(kept) matches Some(PaneEntry::Completed { .. })) implies m.entry(
        gone,
    )->0->order < m.entry(kept)->0->order by {
        assert(table::value(u, gone) == m.entry(gone));
        assert(table::value(u, kept) == m.entry(kept));
    }
    assert forall|i: int| 0 <= i < k.hosts.len() implies !(#[trigger] k.hosts[i]).1.expired(
        now,
    ) by {
        table::lemma_row(k.hosts, i);
        assert(k.entry(k.hosts[i].0) == Some(k.hosts[i].1));
    }
    panes::lemma_none_expired(k.hosts, now);
    assert(k.pruned(now) =~= k);
}

/// A step about a host the node does not have changes nothing.
pub proof fn law_a_stale_host_changes_nothing(
    m: PanesModel,
    id: Seq<char>,
    host: HostId,
    bytes: usize,
    now: u64,
)
    requires
        m.entry(id) matches Some(e) ==> e.host_of() != host,
    ensures
        m.published(id, host) == m,
        m.closing(id, host) == m,
        m.completed(id, host, bytes, now) == m,
        m.failed(id, host) == m,
{
}

/// How far a pane has come.
pub open spec fn stage(e: PaneEntry) -> int {
    match e {
        PaneEntry::Replacing(_) => 0,
        PaneEntry::Live(_) => 1,
        PaneEntry::Closing(_) => 2,
        PaneEntry::Completed { .. } => 3,
    }
}

/// A host never moves back: whatever step names a host, the pane of that same host is afterwards
/// where it was, further on, or gone.
pub proof fn law_a_pane_only_moves_forward(
    m: PanesModel,
    id: Seq<char>,
    host: HostId,
    bytes: usize,
    now: u64,
)
    requires
        m.sound(),
        m.entry(id) is Some,
        m.entry(id)->0.host_of() == host,
    ensures
        m.registered(id, host) == m,
        ({
            let further = |n: PanesModel|
                n.entry(id) matches Some(e) ==> e.host_of() == host && stage(e) >= stage(
                    m.entry(id)->0,
                );
            &&& further(m.published(id, host))
            &&& further(m.closing(id, host))
            &&& further(m.completed(id, host, bytes, now))
            &&& further(m.failed(id, host))
            &&& further(m.pruned(now))
        }),
{
    table::lemma_put(m.hosts, id, PaneEntry::Live(host));
    table::lemma_put(m.hosts, id, PaneEntry::Closing(host));
    table::lemma_without(m.hosts, id);
    law_pruning_keeps_the_newest_within_the_caps(m, now);
    if m.entry(id) == Some(PaneEntry::Closing(host)) && m.admits(bytes) {
        let done = PaneEntry::Completed {
            host,
            charged_bytes: bytes,
            completed_at: now,
            order: m.next_order,
        };
        let c = m.with_completion(id, host, bytes, now);
        table::lemma_put(m.hosts, id, done);
        cache::lemma_put_completed(m.hosts, id, done, m.next_order);
        law_pruning_keeps_the_newest_within_the_caps(c, now);
        assert(c.entry(id) == Some(done));
        assert(m.completed(id, host, bytes, now) == c.pruned(now));
    }
    if m.entry(id) == Some(PaneEntry::Closing(host)) && !m.admits(bytes) {
        table::lemma_without(m.pruned(now).hosts, id);
    }
}

/// What a choice of leases leaves: each one was there and was not named, and they stay in order.
proof fn lemma_left(
    leases: Seq<LeaseRow>,
    conn: Option<ConnId>,
    id: Option<Seq<char>>,
)
    ensures
        forall|i: int|
            0 <= i < panes::leases_without(leases, conn, id).len() ==> leases.contains(
                #[trigger] panes::leases_without(leases, conn, id)[i],
            ) && !panes::names_lease(panes::leases_without(leases, conn, id)[i], conn, id),
        (forall|i: int, j: int|
            0 <= i < j < leases.len() ==> (#[trigger] leases[i]).agent != (
            #[trigger] leases[j]).agent) ==> (forall|i: int, j: int|
            0 <= i < j < panes::leases_without(leases, conn, id).len() ==> (
            #[trigger] panes::leases_without(leases, conn, id)[i]).agent != (
            #[trigger] panes::leases_without(leases, conn, id)[j]).agent),
    decreases leases.len(),
{
    reveal(Seq::filter);
    let kept = panes::leases_without(leases, conn, id);
    if leases.len() > 0 {
        let init = leases.drop_last();
        let last = leases.last();
        let rest = panes::leases_without(init, conn, id);
        lemma_left(init, conn, id);
        assert(kept == if panes::names_lease(last, conn, id) {
            rest
        } else {
            rest.push(last)
        });
        assert forall|i: int| 0 <= i < kept.len() implies leases.contains(#[trigger] kept[i])
            && !panes::names_lease(kept[i], conn, id) by {
            if i < rest.len() {
                assert(kept[i] == rest[i]);
                let j = choose|j: int| 0 <= j < init.len() && init[j] == rest[i];
                assert(leases[j] == kept[i]);
            } else {
                assert(leases[leases.len() - 1] == kept[i]);
            }
        }
        if forall|i: int, j: int|
            0 <= i < j < leases.len() ==> (#[trigger] leases[i]).agent != (
            #[trigger] leases[j]).agent {
            assert forall|i: int, j: int| 0 <= i < j < init.len() implies (
            #[trigger] init[i]).agent != (#[trigger] init[j]).agent by {
                assert(leases[i].agent != leases[j].agent);
            }
            assert forall|i: int, j: int| 0 <= i < j < kept.len() implies (
            #[trigger] kept[i]).agent != (#[trigger] kept[j]).agent by {
                if j < rest.len() {
                    assert(rest[i].agent != rest[j].agent);
                } else {
                    assert(init.contains(rest[i]));
                    let k = choose|k: int| 0 <= k < init.len() && init[k] == rest[i];
                    assert(leases[k].agent != leases[leases.len() - 1].agent);
                }
            }
        }
    }
}

/// Where what is left of the leases was there before, and what was not named keeps its pane, every
/// lease is still for a live host.
proof fn lemma_follow(m: PanesModel, n: PanesModel, conn: Option<ConnId>, id: Option<Seq<char>>)
    requires
        m.leases_follow_hosts(),
        n.leases == panes::leases_without(m.leases, conn, id),
        forall|a: Seq<char>|
            id != Some(a) && (m.entry(a) matches Some(PaneEntry::Live(_))) ==> (
            #[trigger] n.entry(a)) == m.entry(a),
        conn is None || (forall|a: Seq<char>|
            (m.entry(a) matches Some(PaneEntry::Live(_))) ==> (#[trigger] n.entry(a)) == m.entry(
                a,
            )),
    ensures
        n.leases_follow_hosts(),
{
    lemma_left(m.leases, conn, id);
    assert forall|i: int| 0 <= i < n.leases.len() implies n.entry((#[trigger] n.leases[i]).agent)
        == Some(PaneEntry::Live(n.leases[i].host)) by {
        assert(m.leases.contains(n.leases[i]));
        let j = choose|j: int| 0 <= j < m.leases.len() && m.leases[j] == n.leases[i];
        assert(m.entry(m.leases[j].agent) == Some(PaneEntry::Live(m.leases[j].host)));
    }
}

/// Where no lease is let go of, and no live pane is touched that somebody types into, every lease is
/// still for a live host.
proof fn lemma_still(m: PanesModel, n: PanesModel)
    requires
        m.leases_follow_hosts(),
        n.leases == m.leases,
        forall|a: Seq<char>|
            (m.entry(a) matches Some(PaneEntry::Live(_))) ==> (#[trigger] n.entry(a)) == m.entry(a),
    ensures
        n.leases_follow_hosts(),
{
    assert forall|i: int| 0 <= i < n.leases.len() implies n.entry((#[trigger] n.leases[i]).agent)
        == Some(PaneEntry::Live(n.leases[i].host)) by {
        assert(m.entry(m.leases[i].agent) == Some(PaneEntry::Live(m.leases[i].host)));
    }
}

/// A write lease is only ever for the live host it was issued for: no step leaves one on a host that
/// is closing, completed, being replaced or gone.
pub proof fn law_a_lease_goes_with_its_host(
    m: PanesModel,
    id: Seq<char>,
    conn: ConnId,
    host: HostId,
    bytes: usize,
    now: u64,
    facts: HostFacts,
)
    requires
        m.sound(),
        m.leases_follow_hosts(),
    ensures
        m.registered(id, host).leases_follow_hosts(),
        m.published(id, host).leases_follow_hosts(),
        m.closing(id, host).leases_follow_hosts(),
        m.completed(id, host, bytes, now).leases_follow_hosts(),
        m.failed(id, host).leases_follow_hosts(),
        m.forgotten(id).leases_follow_hosts(),
        m.departed(conn).leases_follow_hosts(),
        m.pruned(now).leases_follow_hosts(),
        m.rolled_back(id, conn, host).leases_follow_hosts(),
        m.attached_replay(id, conn, facts).0.leases_follow_hosts(),
        m.native_target(id) matches Ok(t) ==> m.with_lease(id, conn, t.host).leases_follow_hosts(),
{
    table::lemma_put(m.hosts, id, PaneEntry::Live(host));
    table::lemma_put(m.hosts, id, PaneEntry::Replacing(host));
    table::lemma_put(m.hosts, id, PaneEntry::Closing(host));
    table::lemma_without(m.hosts, id);
    law_pruning_keeps_the_newest_within_the_caps(m, now);
    if m.entry(id) is None {
        lemma_still(m, m.registered(id, host));
    } else if m.entry(id)->0.host_of() != host {
        lemma_follow(m, m.registered(id, host), None, Some(id));
    }
    if m.entry(id) == Some(PaneEntry::Replacing(host)) {
        lemma_still(m, m.published(id, host));
    }
    if m.entry(id) == Some(PaneEntry::Live(host)) {
        lemma_follow(m, m.closing(id, host), None, Some(id));
    }
    lemma_still(m, m.pruned(now));
    if m.entry(id) == Some(PaneEntry::Closing(host)) {
        if m.admits(bytes) {
            let done = PaneEntry::Completed {
                host,
                charged_bytes: bytes,
                completed_at: now,
                order: m.next_order,
            };
            let c = m.with_completion(id, host, bytes, now);
            table::lemma_put(m.hosts, id, done);
            cache::lemma_put_completed(m.hosts, id, done, m.next_order);
            lemma_still(m, c);
            law_pruning_keeps_the_newest_within_the_caps(c, now);
            lemma_still(c, c.pruned(now));
        } else {
            table::lemma_without(m.pruned(now).hosts, id);
            lemma_still(m.pruned(now), m.completed(id, host, bytes, now));
        }
    }
    if m.entry(id) is Some && m.entry(id)->0.host_of() == host {
        lemma_follow(m, m.failed(id, host), None, Some(id));
        lemma_follow(m, m.rolled_back(id, conn, host), Some(conn), Some(id));
    }
    lemma_follow(m, m.forgotten(id), None, Some(id));
    lemma_follow(m, m.departed(conn), Some(conn), None);
    if let Some(PaneEntry::Live(h)) = m.entry(id) {
        let n = m.with_lease(id, conn, h);
        assert forall|i: int| 0 <= i < n.leases.len() implies n.entry(
            (#[trigger] n.leases[i]).agent,
        ) == Some(PaneEntry::Live(n.leases[i].host)) by {
            if i < m.leases.len() {
                assert(n.leases[i] == m.leases[i]);
            }
        }
    }
}

/// A node has one writer, whatever happens to the panes. A writer is only ever added where the
/// host's one slot is free, and the slot is held for as long as anybody may type.
pub proof fn law_a_node_has_one_writer(
    m: PanesModel,
    id: Seq<char>,
    conn: ConnId,
    host: HostId,
    bytes: usize,
    now: u64,
    facts: HostFacts,
)
    requires
        m.one_writer_each(),
        facts.writer is None ==> m.nobody_writes(id),
    ensures
        m.registered(id, host).one_writer_each(),
        m.published(id, host).one_writer_each(),
        m.closing(id, host).one_writer_each(),
        m.completed(id, host, bytes, now).one_writer_each(),
        m.failed(id, host).one_writer_each(),
        m.forgotten(id).one_writer_each(),
        m.departed(conn).one_writer_each(),
        m.pruned(now).one_writer_each(),
        m.rolled_back(id, conn, host).one_writer_each(),
        m.attached_live(id, conn, host, facts).0.one_writer_each(),
        m.attached_replay(id, conn, facts).0.one_writer_each(),
        m.nobody_writes(id) ==> m.with_lease(id, conn, host).one_writer_each(),
{
    lemma_left(m.leases, None, Some(id));
    lemma_left(m.leases, Some(conn), None);
    lemma_left(m.leases, Some(conn), Some(id));
}

/// An attach that is undone leaves the panes as it found them, for a connection that was not typing
/// into the node before.
pub proof fn law_an_undone_attach_leaves_nothing_behind(
    m: PanesModel,
    id: Seq<char>,
    conn: ConnId,
    facts: HostFacts,
)
    requires
        m.entry(id) is Some,
        !panes::has_lease(m.leases, conn, id),
    ensures
        m.attached_replay(id, conn, facts).0.rolled_back(id, conn, m.entry(id)->0.host_of()) == m,
{
    let n = m.attached_replay(id, conn, facts).0;
    let host = m.entry(id)->0.host_of();
    assert(n.entry(id) == m.entry(id));
    lemma_none_named(m.leases, conn, id);
    reveal(Seq::filter);
    if n.leases != m.leases {
        assert(n.leases.drop_last() =~= m.leases);
    }
    assert(n.rolled_back(id, conn, host) =~= m);
}

/// Where a connection may not type into a node, there is no lease to let go of.
proof fn lemma_none_named(leases: Seq<LeaseRow>, conn: ConnId, id: Seq<char>)
    requires
        !panes::has_lease(leases, conn, id),
    ensures
        panes::leases_without(leases, Some(conn), Some(id)) == leases,
    decreases leases.len(),
{
    reveal(Seq::filter);
    if leases.len() > 0 {
        let init = leases.drop_last();
        assert(leases =~= init.push(leases.last()));
        panes::lemma_lease_pushed(init, leases.last(), conn, id);
        lemma_none_named(init, conn, id);
    }
}

/// A native launch that is still to be claimed keeps the write half from everybody: an attach of
/// either kind takes no lease and is not told that it may type.
pub proof fn law_a_pending_launch_keeps_the_write_half(
    m: PanesModel,
    id: Seq<char>,
    conn: ConnId,
    host: HostId,
    facts: HostFacts,
)
    requires
        m.native is Some,
        facts.native_pending,
    ensures
        m.attached_live(id, conn, host, facts) == (m, PaneWriteHalf::Elsewhere(None), false),
        m.attached_replay(id, conn, facts).0 == m,
        !m.attached_replay(id, conn, facts).1.fields().0,
        !m.attached_replay(id, conn, facts).2,
{
}

/// A claim that was prepared against one host is good for that host alone: once the host is closing,
/// has failed, is forgotten or has another in its place, the claim is refused, whoever holds the
/// slot.
pub proof fn law_a_prepared_writer_ends_with_its_host(
    p: PreparedNativeWriter,
    m: PanesModel,
    writer: Option<ConnId>,
    later: Option<ConnId>,
    other: HostId,
)
    requires
        m.sound(),
        p.current(m, writer),
        other != p.target.host,
    ensures
        !p.current(m.closing(p.agent_id@, p.target.host), later),
        !p.current(m.failed(p.agent_id@, p.target.host), later),
        !p.current(m.forgotten(p.agent_id@), later),
        !p.current(m.registered(p.agent_id@, other), later),
        !p.current(m.registered(p.agent_id@, other).published(p.agent_id@, other), later),
{
    let id = p.agent_id@;
    let host = p.target.host;
    table::lemma_put(m.hosts, id, PaneEntry::Closing(host));
    table::lemma_put(m.hosts, id, PaneEntry::Replacing(other));
    table::lemma_without(m.hosts, id);
    let replaced = m.registered(id, other);
    assert(replaced.entry(id) == Some(PaneEntry::Replacing(other)));
    table::lemma_put(replaced.hosts, id, PaneEntry::Live(other));
}

/// Only the one writer's input reaches a node: where one connection's does, no other's does, and
/// nobody's reaches a host that is not live.
pub proof fn law_only_the_writer_types(m: PanesModel, id: Seq<char>, writer: ConnId, other: ConnId)
    requires
        m.one_writer_each(),
        m.writable_host(writer, id) is Some,
    ensures
        m.entry(id) == Some(PaneEntry::Live(m.writable_host(writer, id)->0)),
        other != writer ==> m.writable_host(other, id) is None,
{
    if other != writer && panes::has_lease(m.leases, other, id) {
        let i = choose|i: int|
            0 <= i < m.leases.len() && (#[trigger] m.leases[i]).conn == writer && m.leases[i].agent
                == id;
        let j = choose|j: int|
            0 <= j < m.leases.len() && (#[trigger] m.leases[j]).conn == other && m.leases[j].agent
                == id;
        assert(i != j);
        assert(i < j || j < i);
    }
}

/// Taking a pane out takes that pane and its charge, and nothing else: every other pane stays, the
/// usage falls by what the pane was charged, which is nothing unless it was completed, and a node
/// without a pane changes nothing.
pub proof fn law_a_pane_leaves_with_its_charge(m: PanesModel, id: Seq<char>)
    requires
        m.sound(),
    ensures
        m.without_entry(id).sound(),
        m.without_entry(id).entry(id) is None,
        forall|other: Seq<char>|
            other != id ==> #[trigger] m.without_entry(id).entry(other) == m.entry(other),
        match m.entry(id) {
            Some(PaneEntry::Completed { charged_bytes, .. }) => {
                &&& cache::completed_count(m.without_entry(id).hosts) == cache::completed_count(
                    m.hosts,
                ) - 1
                &&& cache::completed_bytes(m.without_entry(id).hosts) == cache::completed_bytes(
                    m.hosts,
                ) - charged_bytes
            },
            Some(_) => {
                &&& cache::completed_count(m.without_entry(id).hosts) == cache::completed_count(
                    m.hosts,
                )
                &&& cache::completed_bytes(m.without_entry(id).hosts) == cache::completed_bytes(
                    m.hosts,
                )
            },
            None => m.without_entry(id) == m,
        },
{
    table::lemma_without(m.hosts, id);
    cache::lemma_without_usage(m.hosts, id, m.next_order);
}

/// A pane that is past its deadline is handed to nobody: an attach of either kind is answered as for
/// a node without a pane.
pub proof fn law_an_expired_pane_is_handed_to_nobody(
    m: PanesModel,
    id: Seq<char>,
    conn: ConnId,
    facts: HostFacts,
    reservation: Result<PaneReady, PaneReplayReservationError>,
    now: u64,
)
    requires
        m.sound(),
        m.entry(id) is Some,
        m.entry(id)->0.expired(now),
    ensures
        forall|after: PanesModel, r: Option<Attached>|
            #[trigger] m.pruned(now).attaches(id, conn, facts, after, r) ==> r is None && after
                == m.pruned(now),
        forall|after: PanesModel, r: Result<Option<Attached>, RpcError>|
            #[trigger] m.pruned(now).attaches_v1(id, conn, facts, reservation, after, r) ==> r
                == Ok::<Option<Attached>, RpcError>(None) && after == m.pruned(now),
{
    law_pruning_keeps_the_newest_within_the_caps(m, now);
    if m.pruned(now).entry(id) is Some {
        let e = m.pruned(now).entry(id)->0;
        assert(!e.expired(now) && m.entry(id) == Some(e));
    }
}

} // verus!
