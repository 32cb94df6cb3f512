//! What the bounded cache of completed panes holds, weighs and gives up.
//!
//! A pane that has ended stays replayable for [`COMPLETED_TTL`], within a cap on how many there are
//! and a cap on what they weigh together. Whatever is past its deadline goes; of what is left the
//! oldest go until both caps hold.
use vstd::prelude::*;

use crate::model::HostId;
use crate::table;

verus! {

/// How many completed panes are kept.
pub const MAX_COMPLETED: usize = 64;

/// Cap on what the kept panes are charged together, in bytes.
pub const MAX_COMPLETED_BYTES: usize = 268_435_456;

/// How long a completed pane is kept, in nanoseconds.
pub const COMPLETED_TTL: u64 = 300_000_000_000;

/// One node's pane, by the stage of its host's life.
#[derive(Debug, Clone, Copy, PartialEq, Eq, Structural)]
pub enum PaneEntry {
    /// The child runs; the pane takes input.
    Live(HostId),
    /// The child has ended and its last output is being drained.
    Closing(HostId),
    /// Everything was drained; the pane can only be replayed.
    Completed {
        host: HostId,
        /// What the cache is charged for keeping it.
        charged_bytes: usize,
        /// When it completed, in nanoseconds of the monotonic clock.
        completed_at: u64,
        /// Its place in the order of completion.
        order: u64,
    },
    /// The host is taking over from an older one that is not cut off yet.
    Replacing(HostId),
}

impl PaneEntry {
    /// The host, whatever stage it is in.
    pub open spec fn host_of(self) -> HostId {
        match self {
            PaneEntry::Live(host) => host,
            PaneEntry::Closing(host) => host,
            PaneEntry::Completed { host, .. } => host,
            PaneEntry::Replacing(host) => host,
        }
    }

    /// The host a keystroke may reach.
    pub open spec fn live_host_of(self) -> Option<HostId> {
        match self {
            PaneEntry::Live(host) => Some(host),
            _ => None,
        }
    }

    /// The host whose output may be replayed.
    pub open spec fn replay_host_of(self) -> Option<HostId> {
        match self {
            PaneEntry::Replacing(_) => None,
            _ => Some(self.host_of()),
        }
    }

    /// The host, whatever stage it is in.
    pub fn host(&self) -> (h: HostId)
        ensures
            h == self.host_of(),
    {
        match *self {
            PaneEntry::Live(host) => host,
            PaneEntry::Closing(host) => host,
            PaneEntry::Completed { host, .. } => host,
            PaneEntry::Replacing(host) => host,
        }
    }

    /// The host, where a keystroke may reach it.
    pub fn live_host(&self) -> (h: Option<HostId>)
        ensures
            h == self.live_host_of(),
    {
        match *self {
            PaneEntry::Live(host) => Some(host),
            _ => None,
        }
    }

    /// The host, where its output may be replayed.
    pub fn replay_host(&self) -> (h: Option<HostId>)
        ensures
            h == self.replay_host_of(),
    {
        match *self {
            PaneEntry::Replacing(_) => None,
            _ => Some(self.host()),
        }
    }

    /// Whether the pane takes input.
    pub fn is_live(&self) -> (r: bool)
        ensures
            r == (*self is Live),
    {
        match *self {
            PaneEntry::Live(_) => true,
            _ => false,
        }
    }

    /// Past its deadline at `now`. The deadline itself is past.
    pub open spec fn expired(self, now: u64) -> bool {
        match self {
            PaneEntry::Completed { completed_at, .. } => completed_at + COMPLETED_TTL <= now,
            _ => false,
        }
    }

    /// [`Self::expired`], as a test.
    pub fn is_expired(&self, now: u64) -> (r: bool)
        ensures
            r == self.expired(now),
    {
        match *self {
            PaneEntry::Completed { completed_at, .. } => {
                now >= completed_at && now - completed_at >= COMPLETED_TTL
            },
            _ => false,
        }
    }

    /// One if the pane is completed.
    pub open spec fn one(self) -> int {
        if self is Completed {
            1
        } else {
            0
        }
    }

    /// What the cache is charged for the pane.
    pub open spec fn charge(self) -> int {
        match self {
            PaneEntry::Completed { charged_bytes, .. } => charged_bytes as int,
            _ => 0,
        }
    }
}

/// The nodes' panes.
pub type PaneRows = Seq<(Seq<char>, PaneEntry)>;

/// The sum of `f` over what the rows hold.
pub open spec fn total(rows: PaneRows, f: spec_fn(PaneEntry) -> int) -> int
    decreases rows.len(),
{
    if rows.len() == 0 {
        0
    } else {
        total(rows.drop_last(), f) + f(rows.last().1)
    }
}

/// How many panes are completed.
pub open spec fn completed_count(rows: PaneRows) -> int {
    total(rows, |e: PaneEntry| e.one())
}

/// What the completed panes are charged together.
pub open spec fn completed_bytes(rows: PaneRows) -> int {
    total(rows, |e: PaneEntry| e.charge())
}

pub proof fn lemma_total_push(rows: PaneRows, r: (Seq<char>, PaneEntry), f: spec_fn(PaneEntry) -> int)
    ensures
        total(rows.push(r), f) == total(rows, f) + f(r.1),
{
    assert(rows.push(r).drop_last() =~= rows);
}

pub proof fn lemma_total_remove(rows: PaneRows, i: int, f: spec_fn(PaneEntry) -> int)
    requires
        0 <= i < rows.len(),
    ensures
        total(rows.remove(i), f) == total(rows, f) - f(rows[i].1),
    decreases rows.len(),
{
    if i == rows.len() - 1 {
        assert(rows.remove(i) =~= rows.drop_last());
    } else {
        lemma_total_remove(rows.drop_last(), i, f);
        assert(rows.remove(i).drop_last() =~= rows.drop_last().remove(i));
        assert(rows.remove(i).last() == rows.last());
    }
}

pub proof fn lemma_total_update(
    rows: PaneRows,
    i: int,
    r: (Seq<char>, PaneEntry),
    f: spec_fn(PaneEntry) -> int,
)
    requires
        0 <= i < rows.len(),
    ensures
        total(rows.update(i, r), f) == total(rows, f) - f(rows[i].1) + f(r.1),
    decreases rows.len(),
{
    let new = rows.update(i, r);
    if i == rows.len() - 1 {
        assert(new.drop_last() =~= rows.drop_last());
    } else {
        lemma_total_update(rows.drop_last(), i, r, f);
        assert(new.drop_last() =~= rows.drop_last().update(i, r));
        assert(new.last() == rows.last());
    }
}

pub proof fn lemma_total_nonnegative(rows: PaneRows, f: spec_fn(PaneEntry) -> int)
    requires
        forall|e: PaneEntry| #[trigger] f(e) >= 0,
    ensures
        total(rows, f) >= 0,
        forall|i: int| 0 <= i < rows.len() ==> f((#[trigger] rows[i]).1) <= total(rows, f),
    decreases rows.len(),
{
    if rows.len() > 0 {
        lemma_total_nonnegative(rows.drop_last(), f);
        assert(f(rows.last().1) >= 0);
        assert forall|i: int| 0 <= i < rows.len() implies f((#[trigger] rows[i]).1) <= total(
            rows,
            f,
        ) by {
            if i < rows.len() - 1 {
                assert(rows.drop_last()[i] == rows[i]);
            }
        }
    }
}

/// Nothing completed weighs nothing, and nothing else does.
pub proof fn lemma_usage_bounds(rows: PaneRows)
    ensures
        0 <= completed_count(rows) <= rows.len(),
        0 <= completed_bytes(rows),
        forall|i: int|
            0 <= i < rows.len() ==> (#[trigger] rows[i]).1.charge() <= completed_bytes(rows),
        completed_count(rows) == 0 ==> completed_bytes(rows) == 0 && forall|i: int|
            0 <= i < rows.len() ==> !((#[trigger] rows[i]).1 is Completed),
        completed_count(rows) > 0 ==> exists|i: int|
            0 <= i < rows.len() && (#[trigger] rows[i]).1 is Completed,
    decreases rows.len(),
{
    if rows.len() > 0 {
        lemma_usage_bounds(rows.drop_last());
        assert forall|i: int| 0 <= i < rows.len() implies (#[trigger] rows[i]).1.charge()
            <= completed_bytes(rows) by {
            if i < rows.len() - 1 {
                assert(rows.drop_last()[i] == rows[i]);
            }
        }
        if completed_count(rows) == 0 {
            assert forall|i: int| 0 <= i < rows.len() implies !((
            #[trigger] rows[i]).1 is Completed) by {
                if i < rows.len() - 1 {
                    assert(rows.drop_last()[i] == rows[i]);
                }
            }
        } else if !(rows.last().1 is Completed) {
            let i = choose|i: int|
                0 <= i < rows.drop_last().len() && (
                #[trigger] rows.drop_last()[i]).1 is Completed;
            assert(rows[i].1 is Completed);
        } else {
            assert(rows[rows.len() - 1].1 is Completed);
        }
    }
}

/// The rows that are not past their deadline at `now`.
pub open spec fn unexpired(rows: PaneRows, now: u64) -> PaneRows {
    rows.filter(|r: (Seq<char>, PaneEntry)| !r.1.expired(now))
}

/// The hosts of the rows that are past their deadline at `now`.
pub open spec fn expired_hosts(rows: PaneRows, now: u64) -> Seq<HostId> {
    rows.filter(|r: (Seq<char>, PaneEntry)| r.1.expired(now)).map_values(
        |r: (Seq<char>, PaneEntry)| r.1.host_of(),
    )
}

/// More is kept than the caps allow.
pub open spec fn over_budget(rows: PaneRows, limit: usize) -> bool {
    completed_count(rows) > limit || completed_bytes(rows) > MAX_COMPLETED_BYTES
}

/// Row `i` completed before every other completed row.
pub open spec fn is_oldest(rows: PaneRows, i: int) -> bool {
    &&& 0 <= i < rows.len()
    &&& rows[i].1 is Completed
    &&& forall|j: int|
        0 <= j < rows.len() && (#[trigger] rows[j]).1 is Completed ==> rows[i].1->order
            <= rows[j].1->order
}

/// The row that completed first.
pub open spec fn oldest(rows: PaneRows) -> int {
    choose|i: int| #[trigger] is_oldest(rows, i)
}

/// What is kept once the oldest have gone, one by one, until both caps hold.
pub open spec fn trimmed(rows: PaneRows, limit: usize) -> PaneRows
    decreases rows.len(),
{
    if over_budget(rows, limit) && 0 <= oldest(rows) < rows.len() {
        trimmed(rows.remove(oldest(rows)), limit)
    } else {
        rows
    }
}

/// The hosts that went on the way to [`trimmed`], oldest first.
pub open spec fn trimmed_hosts(rows: PaneRows, limit: usize) -> Seq<HostId>
    decreases rows.len(),
{
    if over_budget(rows, limit) && 0 <= oldest(rows) < rows.len() {
        seq![rows[oldest(rows)].1.host_of()] + trimmed_hosts(rows.remove(oldest(rows)), limit)
    } else {
        Seq::empty()
    }
}

/// What the cache keeps at `now`.
pub open spec fn kept(rows: PaneRows, now: u64, limit: usize) -> PaneRows {
    trimmed(unexpired(rows, now), limit)
}

/// The hosts that leave the cache at `now`: the expired ones, then the oldest over the caps.
pub open spec fn victims(rows: PaneRows, now: u64, limit: usize) -> Seq<HostId> {
    expired_hosts(rows, now) + trimmed_hosts(unexpired(rows, now), limit)
}

/// No two completions have one place in the order, and every place given out is below `next`.
pub open spec fn ordered(rows: PaneRows, next: u64) -> bool {
    &&& forall|i: int|
        0 <= i < rows.len() && (#[trigger] rows[i]).1 is Completed ==> rows[i].1->order < next
    &&& forall|i: int, j: int|
        0 <= i < j < rows.len() && (#[trigger] rows[i]).1 is Completed && (
        #[trigger] rows[j]).1 is Completed ==> rows[i].1->order != rows[j].1->order
}

/// Where something is completed, one row completed first, and only one.
pub proof fn lemma_oldest(rows: PaneRows, next: u64)
    requires
        ordered(rows, next),
        completed_count(rows) > 0,
    ensures
        is_oldest(rows, oldest(rows)),
        forall|i: int| #[trigger] is_oldest(rows, i) ==> i == oldest(rows),
{
    lemma_usage_bounds(rows);
    let s = choose|i: int| 0 <= i < rows.len() && (#[trigger] rows[i]).1 is Completed;
    let m = least_order(rows, s, 0);
    lemma_least_order(rows, s, 0);
    assert(is_oldest(rows, m));
    let o = oldest(rows);
    assert(is_oldest(rows, o));
    assert forall|i: int| #[trigger] is_oldest(rows, i) implies i == o by {
        if i < o {
            assert(rows[i].1->order != rows[o].1->order);
        } else if o < i {
            assert(rows[o].1->order != rows[i].1->order);
        }
    }
}

/// The row of least order among `best` and the rows from `i` on.
spec fn least_order(rows: PaneRows, best: int, i: int) -> int
    decreases rows.len() - i,
{
    if i < 0 || i >= rows.len() {
        best
    } else if rows[i].1 is Completed && rows[i].1->order < rows[best].1->order {
        least_order(rows, i, i + 1)
    } else {
        least_order(rows, best, i + 1)
    }
}

proof fn lemma_least_order(rows: PaneRows, best: int, i: int)
    requires
        0 <= i <= rows.len(),
        0 <= best < rows.len(),
        rows[best].1 is Completed,
    ensures
        ({
            let m = least_order(rows, best, i);
            &&& 0 <= m < rows.len()
            &&& rows[m].1 is Completed
            &&& rows[m].1->order <= rows[best].1->order
            &&& forall|j: int|
                i <= j < rows.len() && (#[trigger] rows[j]).1 is Completed ==> rows[m].1->order
                    <= rows[j].1->order
        }),
    decreases rows.len() - i,
{
    if i < rows.len() {
        if rows[i].1 is Completed && rows[i].1->order < rows[best].1->order {
            lemma_least_order(rows, i, i + 1);
        } else {
            lemma_least_order(rows, best, i + 1);
        }
    }
}

/// Removing a row keeps ids apart and places in order.
pub proof fn lemma_remove_ordered(rows: PaneRows, i: int, next: u64)
    requires
        table::distinct(rows),
        ordered(rows, next),
        0 <= i < rows.len(),
    ensures
        table::distinct(rows.remove(i)),
        ordered(rows.remove(i), next),
        completed_count(rows.remove(i)) == completed_count(rows) - rows[i].1.one(),
        completed_bytes(rows.remove(i)) == completed_bytes(rows) - rows[i].1.charge(),
{
    table::lemma_remove(rows, i);
    lemma_total_remove(rows, i, |e: PaneEntry| e.one());
    lemma_total_remove(rows, i, |e: PaneEntry| e.charge());
    let new = rows.remove(i);
    assert forall|a: int, b: int|
        0 <= a < b < new.len() && (#[trigger] new[a]).1 is Completed && (
        #[trigger] new[b]).1 is Completed implies new[a].1->order != new[b].1->order by {
        let x = if a < i { a } else { a + 1 };
        let y = if b < i { b } else { b + 1 };
        assert(rows[x].1->order != rows[y].1->order);
    }
}

/// `e` is the first deadline that a completed row reaches, if any does.
pub open spec fn first_deadline(rows: PaneRows, e: Option<u64>) -> bool {
    match e {
        Some(at) => {
            &&& exists|i: int|
                0 <= i < rows.len() && (#[trigger] rows[i]).1 is Completed
                    && rows[i].1->completed_at + COMPLETED_TTL == at
            &&& forall|i: int|
                0 <= i < rows.len() && (#[trigger] rows[i]).1 is Completed ==> at
                    <= rows[i].1->completed_at + COMPLETED_TTL
        },
        None => forall|i: int|
            0 <= i < rows.len() && (#[trigger] rows[i]).1 is Completed
                ==> rows[i].1->completed_at + COMPLETED_TTL > u64::MAX,
    }
}

/// Giving a node an entry that is not completed debits what it replaces.
pub proof fn lemma_put_plain(rows: PaneRows, k: Seq<char>, e: PaneEntry, next: u64)
    requires
        table::distinct(rows),
        ordered(rows, next),
        !(e is Completed),
    ensures
        table::distinct(table::put(rows, k, e)),
        ordered(table::put(rows, k, e), next),
        completed_count(table::put(rows, k, e)) == completed_count(rows) - (match table::value(rows, k) {
            Some(was) => was.one(),
            None => 0,
        }),
        completed_bytes(table::put(rows, k, e)) == completed_bytes(rows) - (match table::value(rows, k) {
            Some(was) => was.charge(),
            None => 0,
        }),
{
    table::lemma_put(rows, k, e);
    lemma_put_totals(rows, k, e);
    lemma_put_ordered(rows, k, e, next);
}

/// What [`put`] does to the totals.
pub proof fn lemma_put_totals(rows: PaneRows, k: Seq<char>, e: PaneEntry)
    requires
        table::distinct(rows),
    ensures
        completed_count(table::put(rows, k, e)) == completed_count(rows) + e.one() - (match table::value(rows, k) {
            Some(was) => was.one(),
            None => 0,
        }),
        completed_bytes(table::put(rows, k, e)) == completed_bytes(rows) + e.charge() - (match table::value(
            rows,
            k,
        ) {
            Some(was) => was.charge(),
            None => 0,
        }),
{
    let one = |x: PaneEntry| x.one();
    let charge = |x: PaneEntry| x.charge();
    if table::has_row(rows, k) {
        let i = table::row_index(rows, k);
        assert(table::row_is(rows, k, i));
        lemma_total_update(rows, i, (k, e), one);
        lemma_total_update(rows, i, (k, e), charge);
    } else {
        lemma_total_push(rows, (k, e), one);
        lemma_total_push(rows, (k, e), charge);
    }
}

proof fn lemma_put_ordered(rows: PaneRows, k: Seq<char>, e: PaneEntry, next: u64)
    requires
        table::distinct(rows),
        ordered(rows, next),
        !(e is Completed),
    ensures
        ordered(table::put(rows, k, e), next),
{
    let new = table::put(rows, k, e);
    if table::has_row(rows, k) {
        assert(table::row_is(rows, k, table::row_index(rows, k)));
    }
    assert forall|i: int| 0 <= i < new.len() && (#[trigger] new[i]).1 is Completed implies new[i].1->order
        < next by {
        assert(new[i] == rows[i]);
    }
    assert forall|i: int, j: int|
        0 <= i < j < new.len() && (#[trigger] new[i]).1 is Completed && (
        #[trigger] new[j]).1 is Completed implies new[i].1->order != new[j].1->order by {
        assert(new[i] == rows[i]);
        assert(new[j] == rows[j]);
    }
}

/// A completion that takes the next place in the order keeps the order.
pub proof fn lemma_put_completed(rows: PaneRows, k: Seq<char>, e: PaneEntry, next: u64)
    requires
        table::distinct(rows),
        ordered(rows, next),
        next < u64::MAX,
        e is Completed,
        e->order == next,
    ensures
        ordered(table::put(rows, k, e), (next + 1) as u64),
{
    let new = table::put(rows, k, e);
    if table::has_row(rows, k) {
        assert(table::row_is(rows, k, table::row_index(rows, k)));
    }
    let at = if table::has_row(rows, k) { table::row_index(rows, k) } else { rows.len() as int };
    assert(new[at] == (k, e));
    assert(forall|i: int| 0 <= i < new.len() && i != at ==> new[i] == rows[i]);
}

/// A row taken out takes its charge with it.
pub proof fn lemma_without_usage(rows: PaneRows, k: Seq<char>, next: u64)
    requires
        table::distinct(rows),
        ordered(rows, next),
    ensures
        table::distinct(table::without(rows, k)),
        ordered(table::without(rows, k), next),
        completed_count(table::without(rows, k)) == completed_count(rows) - (match table::value(rows, k) {
            Some(was) => was.one(),
            None => 0,
        }),
        completed_bytes(table::without(rows, k)) == completed_bytes(rows) - (match table::value(rows, k) {
            Some(was) => was.charge(),
            None => 0,
        }),
{
    if table::has_row(rows, k) {
        let i = table::row_index(rows, k);
        assert(table::row_is(rows, k, i));
        lemma_remove_ordered(rows, i, next);
    }
}

/// A row is in a table exactly when its id holds what it holds.
pub proof fn lemma_contains(rows: PaneRows, k: Seq<char>, e: PaneEntry)
    requires
        table::distinct(rows),
    ensures
        rows.contains((k, e)) <==> table::value(rows, k) == Some(e),
{
    if rows.contains((k, e)) {
        let i = choose|i: int| 0 <= i < rows.len() && rows[i] == (k, e);
        table::lemma_row(rows, i);
    }
    if table::value(rows, k) == Some(e) {
        assert(table::row_is(rows, k, table::row_index(rows, k)));
    }
}

/// Choosing among rows keeps ids apart and chooses by the row alone.
proof fn lemma_filter(rows: PaneRows, p: spec_fn((Seq<char>, PaneEntry)) -> bool)
    requires
        table::distinct(rows),
    ensures
        table::distinct(rows.filter(p)),
        forall|r: (Seq<char>, PaneEntry)| #[trigger]
            rows.filter(p).contains(r) <==> rows.contains(r) && p(r),
    decreases rows.len(),
{
    reveal(Seq::filter);
    if rows.len() > 0 {
        let init = rows.drop_last();
        let last = rows.last();
        lemma_filter(init, p);
        let f = init.filter(p);
        assert(rows =~= init.push(last));
        assert forall|r: (Seq<char>, PaneEntry)| #[trigger]
            rows.filter(p).contains(r) <==> rows.contains(r) && p(r) by {
            if rows.filter(p).contains(r) && !f.contains(r) {
                assert(r == last);
                assert(rows[rows.len() - 1] == last);
            }
            if f.contains(r) {
                assert(init.contains(r));
                let i = choose|i: int| 0 <= i < init.len() && init[i] == r;
                assert(rows[i] == r);
                let j = choose|j: int| 0 <= j < f.len() && f[j] == r;
                if p(last) {
                    assert(f.push(last)[j] == r);
                }
            }
            if rows.contains(r) && p(r) {
                let i = choose|i: int| 0 <= i < rows.len() && rows[i] == r;
                if i == rows.len() - 1 {
                    assert(f.push(last)[f.len() as int] == last);
                } else {
                    assert(init[i] == r);
                    assert(init.contains(r));
                    assert(f.contains(r));
                }
            }
        }
        if p(last) {
            let g = f.push(last);
            assert forall|a: int, b: int| 0 <= a < b < g.len() implies (#[trigger] g[a]).0 != (
            #[trigger] g[b]).0 by {
                if b == f.len() {
                    assert(f.contains(f[a]));
                    assert(init.contains(f[a]));
                    let i = choose|i: int| 0 <= i < init.len() && init[i] == f[a];
                    assert(rows[i].0 != rows[rows.len() - 1].0);
                } else {
                    assert(f[a].0 != f[b].0);
                }
            }
        }
    }
}

/// What expiry leaves: every pane that is not past its deadline, and nothing else.
pub proof fn lemma_unexpired(rows: PaneRows, now: u64, next: u64)
    requires
        table::distinct(rows),
        ordered(rows, next),
    ensures
        table::distinct(unexpired(rows, now)),
        ordered(unexpired(rows, now), next),
        forall|k: Seq<char>| #[trigger]
            table::value(unexpired(rows, now), k) == (match table::value(rows, k) {
                Some(e) => if e.expired(now) {
                    None
                } else {
                    Some(e)
                },
                None => None,
            }),
{
    let p = |r: (Seq<char>, PaneEntry)| !r.1.expired(now);
    lemma_filter(rows, p);
    let f = unexpired(rows, now);
    assert forall|i: int| 0 <= i < f.len() implies exists|a: int|
        0 <= a < rows.len() && rows[a] == #[trigger] f[i] by {
        assert(f.contains(f[i]));
        assert(rows.contains(f[i]));
    }
    assert forall|i: int, j: int|
        0 <= i < j < f.len() && (#[trigger] f[i]).1 is Completed && (
        #[trigger] f[j]).1 is Completed implies f[i].1->order != f[j].1->order by {
        let a = choose|a: int| 0 <= a < rows.len() && rows[a] == f[i];
        let b = choose|b: int| 0 <= b < rows.len() && rows[b] == f[j];
        assert(f[i].0 != f[j].0);
        if a < b {
            assert(rows[a].1->order != rows[b].1->order);
        } else {
            assert(rows[b].1->order != rows[a].1->order);
        }
    }
    assert forall|k: Seq<char>| #[trigger]
        table::value(f, k) == (match table::value(rows, k) {
            Some(e) => if e.expired(now) {
                None
            } else {
                Some(e)
            },
            None => None,
        }) by {
        if table::value(rows, k) is Some {
            let e = table::value(rows, k)->0;
            lemma_contains(rows, k, e);
            lemma_contains(f, k, e);
        }
        if table::value(f, k) is Some {
            let e = table::value(f, k)->0;
            lemma_contains(rows, k, e);
            lemma_contains(f, k, e);
        }
    }
}

/// What the caps leave. Nothing over them; what goes is completed; and what goes completed before
/// anything completed that stays.
pub proof fn lemma_trimmed(rows: PaneRows, limit: usize, next: u64)
    requires
        table::distinct(rows),
        ordered(rows, next),
    ensures
        table::distinct(trimmed(rows, limit)),
        ordered(trimmed(rows, limit), next),
        !over_budget(trimmed(rows, limit), limit),
        forall|k: Seq<char>|
            (#[trigger] table::value(trimmed(rows, limit), k)) == table::value(rows, k) || (
            table::value(trimmed(rows, limit), k) is None && table::value(rows, k)
                matches Some(PaneEntry::Completed { .. })),
        forall|g: Seq<char>, s: Seq<char>|
            table::value(rows, g) is Some && (#[trigger] table::value(
                trimmed(rows, limit),
                g,
            )) is None && (#[trigger] table::value(trimmed(rows, limit), s) matches Some(
                PaneEntry::Completed { .. },
            )) ==> table::value(rows, g)->0->order < table::value(rows, s)->0->order,
    decreases rows.len(),
{
    if over_budget(rows, limit) {
        lemma_usage_bounds(rows);
        lemma_oldest(rows, next);
        let o = oldest(rows);
        let rest = rows.remove(o);
        lemma_remove_ordered(rows, o, next);
        table::lemma_remove(rows, o);
        table::lemma_row(rows, o);
        lemma_trimmed(rest, limit, next);
        let t = trimmed(rows, limit);
        assert forall|g: Seq<char>, s: Seq<char>|
            table::value(rows, g) is Some && (#[trigger] table::value(t, g)) is None && (
            #[trigger] table::value(t, s) matches Some(PaneEntry::Completed { .. })) implies
        table::value(rows, g)->0->order < table::value(rows, s)->0->order by {
            assert(table::value(t, s) == table::value(rest, s));
            assert(s != rows[o].0);
            assert(table::value(rest, s) == table::value(rows, s));
            if g == rows[o].0 {
                let b = table::row_index(rows, s);
                assert(table::row_is(rows, s, b));
                assert(rows[b].1 is Completed);
                if o < b {
                    assert(rows[o].1->order != rows[b].1->order);
                } else {
                    assert(rows[b].1->order != rows[o].1->order);
                }
            } else {
                assert(table::value(rest, g) == table::value(rows, g));
            }
        }
    }
}

/// Whoever is trimmed is among the hosts that went.
proof fn lemma_trimmed_hosts(rows: PaneRows, limit: usize, next: u64, i: int)
    requires
        table::distinct(rows),
        ordered(rows, next),
        0 <= i < rows.len(),
        table::value(trimmed(rows, limit), rows[i].0) is None,
    ensures
        trimmed_hosts(rows, limit).contains(rows[i].1.host_of()),
    decreases rows.len(),
{
    table::law_an_id_holds_what_its_row_says(rows, rows[i].0);
    if over_budget(rows, limit) {
        lemma_usage_bounds(rows);
        lemma_oldest(rows, next);
        let o = oldest(rows);
        let rest = rows.remove(o);
        lemma_remove_ordered(rows, o, next);
        let hosts = trimmed_hosts(rows, limit);
        let later = trimmed_hosts(rest, limit);
        assert(hosts == seq![rows[o].1.host_of()] + later);
        if i == o {
            assert(hosts[0] == rows[i].1.host_of());
        } else {
            let at = if i < o {
                i
            } else {
                i - 1
            };
            assert(rest[at] == rows[i]);
            lemma_trimmed_hosts(rest, limit, next, at);
            let k = choose|k: int| 0 <= k < later.len() && later[k] == rows[i].1.host_of();
            assert(hosts[k + 1] == rows[i].1.host_of());
        }
    }
}

/// Every pane that leaves the cache is handed back to be retired, whether it was past its deadline
/// or over a cap.
pub proof fn law_every_pane_that_leaves_is_retired(
    rows: PaneRows,
    now: u64,
    limit: usize,
    next: u64,
    i: int,
)
    requires
        table::distinct(rows),
        ordered(rows, next),
        0 <= i < rows.len(),
        table::value(kept(rows, now, limit), rows[i].0) is None,
    ensures
        victims(rows, now, limit).contains(
            match rows[i].1 {
                PaneEntry::Live(h) => h,
                PaneEntry::Closing(h) => h,
                PaneEntry::Replacing(h) => h,
                PaneEntry::Completed { host, .. } => host,
            },
        ),
{
    broadcast use vstd::seq_lib::group_filter_ensures;

    let host = rows[i].1.host_of();
    let live = unexpired(rows, now);
    lemma_unexpired(rows, now, next);
    table::law_an_id_holds_what_its_row_says(rows, rows[i].0);
    let all = victims(rows, now, limit);
    let first = expired_hosts(rows, now);
    let later = trimmed_hosts(live, limit);
    if rows[i].1.expired(now) {
        let p = |r: (Seq<char>, PaneEntry)| r.1.expired(now);
        let gone = rows.filter(p);
        assert(p(rows[i]));
        assert(gone.contains(rows[i]));
        let k = choose|k: int| 0 <= k < gone.len() && gone[k] == rows[i];
        assert(first[k] == host);
        assert(all[k] == host);
    } else {
        table::law_an_id_holds_what_its_row_says(live, rows[i].0);
        let k = choose|k: int|
            0 <= k < live.len() && #[trigger] live[k] == (rows[i].0, rows[i].1);
        lemma_trimmed_hosts(live, limit, next, k);
        let x = choose|x: int| 0 <= x < later.len() && later[x] == host;
        assert(all[first.len() + x] == host);
    }
}

} // verus!
