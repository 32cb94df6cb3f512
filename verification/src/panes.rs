//! Every node this supervisor holds a pty for, and who is typing into each.
//!
//! A pane moves forward only: live, closing, completed, gone. Each step names the host it is about,
//! and a step about a host the node no longer has changes nothing. A write lease belongs to one
//! connection and one node; it goes with the connection, and with the host it was issued for.
use vstd::prelude::*;

use crate::cache;
use crate::cache::{PaneEntry, PaneRows, COMPLETED_TTL, MAX_COMPLETED, MAX_COMPLETED_BYTES};
use crate::model::{AgentId, ConnId, HostId};
use crate::table;
use crate::table::Table;

verus! {

/// One connection's permission to type into one node, for one host.
#[derive(Debug)]
pub struct Lease {
    pub conn: ConnId,
    pub agent_id: AgentId,
    pub host: HostId,
}

/// A lease, as contracts speak of it.
pub struct LeaseRow {
    pub conn: ConnId,
    pub agent: Seq<char>,
    pub host: HostId,
}

impl View for Lease {
    type V = LeaseRow;

    open spec fn view(&self) -> LeaseRow {
        LeaseRow { conn: self.conn, agent: self.agent_id@, host: self.host }
    }
}

/// The leases of a list, in order.
pub open spec fn lease_rows(v: Seq<Lease>) -> Seq<LeaseRow> {
    v.map_values(|l: Lease| l@)
}

/// The lease is one of those that `conn` and `id` name; `None` names every connection or node.
pub open spec fn names_lease(l: LeaseRow, conn: Option<ConnId>, id: Option<Seq<char>>) -> bool {
    &&& conn is Some ==> l.conn == conn->0
    &&& id is Some ==> l.agent == id->0
}

/// The leases that `conn` and `id` do not name.
pub open spec fn leases_without(
    leases: Seq<LeaseRow>,
    conn: Option<ConnId>,
    id: Option<Seq<char>>,
) -> Seq<LeaseRow> {
    leases.filter(|l: LeaseRow| !names_lease(l, conn, id))
}

/// The leases that `conn` and `id` name.
pub open spec fn leases_of(
    leases: Seq<LeaseRow>,
    conn: Option<ConnId>,
    id: Option<Seq<char>>,
) -> Seq<LeaseRow> {
    leases.filter(|l: LeaseRow| names_lease(l, conn, id))
}

/// `conn` may type into `id`.
pub open spec fn has_lease(leases: Seq<LeaseRow>, conn: ConnId, id: Seq<char>) -> bool {
    exists|i: int|
        0 <= i < leases.len() && (#[trigger] leases[i]).conn == conn && leases[i].agent == id
}

/// Whoever is not named keeps the permission to type, and nobody is given it.
pub proof fn lemma_lease_kept(
    leases: Seq<LeaseRow>,
    conn: Option<ConnId>,
    id: Option<Seq<char>>,
    c: ConnId,
    a: Seq<char>,
)
    ensures
        has_lease(leases_without(leases, conn, id), c, a) == (has_lease(leases, c, a) && !((conn
            is Some ==> c == conn->0) && (id is Some ==> a == id->0))),
    decreases leases.len(),
{
    reveal(Seq::filter);
    let kept = leases_without(leases, conn, id);
    if leases.len() > 0 {
        let init = leases.drop_last();
        let last = leases.last();
        lemma_lease_kept(init, conn, id, c, a);
        let rest = leases_without(init, conn, id);
        lemma_lease_pushed(init, last, c, a);
        lemma_lease_pushed(rest, last, c, a);
        assert(leases =~= init.push(last));
        assert(kept == if names_lease(last, conn, id) {
            rest
        } else {
            rest.push(last)
        });
    }
}

/// One more lease permits what it says.
pub proof fn lemma_lease_pushed(leases: Seq<LeaseRow>, l: LeaseRow, c: ConnId, a: Seq<char>)
    ensures
        has_lease(leases.push(l), c, a) == (has_lease(leases, c, a) || (l.conn == c && l.agent
            == a)),
{
    let more = leases.push(l);
    if has_lease(leases, c, a) {
        let i = choose|i: int|
            0 <= i < leases.len() && (#[trigger] leases[i]).conn == c && leases[i].agent == a;
        assert(more[i] == leases[i]);
    }
    if l.conn == c && l.agent == a {
        assert(more[leases.len() as int] == l);
    }
    if has_lease(more, c, a) {
        let i = choose|i: int|
            0 <= i < more.len() && (#[trigger] more[i]).conn == c && more[i].agent == a;
        if i < leases.len() {
            assert(leases[i] == more[i]);
        }
    }
}

/// The panes, as contracts speak of them.
#[verifier::ext_equal]
pub struct PanesModel {
    /// What each node's pane is.
    pub hosts: PaneRows,
    /// Who may type.
    pub leases: Seq<LeaseRow>,
    /// The authority that hands native claimants their write half, once it is installed.
    pub native: Option<u64>,
    /// The generation each node's current host was given.
    pub generations: Seq<(Seq<char>, u64)>,
    pub next_generation: u64,
    pub next_order: u64,
    /// How many completed panes are kept.
    pub limit: usize,
}

/// Every node this supervisor holds a pty for.
#[derive(Debug)]
pub struct Panes {
    pub hosts: Table<PaneEntry>,
    pub leases: Vec<Lease>,
    pub native_launches: Option<u64>,
    pub host_generations: Table<u64>,
    pub next_host_generation: u64,
    pub completed_count: usize,
    pub completed_bytes: usize,
    pub next_completed_order: u64,
    pub next_completed_expiry: Option<u64>,
    pub completed_limit: usize,
}

impl View for Panes {
    type V = PanesModel;

    open spec fn view(&self) -> PanesModel {
        PanesModel {
            hosts: self.hosts@,
            leases: lease_rows(self.leases@),
            native: self.native_launches,
            generations: self.host_generations@,
            next_generation: self.next_host_generation,
            next_order: self.next_completed_order,
            limit: self.completed_limit,
        }
    }
}

impl PanesModel {
    /// What `id`'s pane is.
    pub open spec fn entry(self, id: Seq<char>) -> Option<PaneEntry> {
        table::value(self.hosts, id)
    }

    /// The node's host has been given the next generation, where there is one left.
    pub open spec fn with_generation(self, id: Seq<char>) -> PanesModel {
        if self.next_generation < u64::MAX {
            let next = (self.next_generation + 1) as u64;
            PanesModel {
                next_generation: next,
                generations: table::put(self.generations, id, next),
                ..self
            }
        } else {
            self
        }
    }

    /// The node's host has no generation a native claimant could name.
    pub open spec fn without_generation(self, id: Seq<char>) -> PanesModel {
        PanesModel { generations: table::without(self.generations, id), ..self }
    }

    /// `id`'s pane is `e`.
    pub open spec fn with_entry(self, id: Seq<char>, e: PaneEntry) -> PanesModel {
        PanesModel { hosts: table::put(self.hosts, id, e), ..self }
    }

    /// `id` has no pane.
    pub open spec fn without_entry(self, id: Seq<char>) -> PanesModel {
        PanesModel { hosts: table::without(self.hosts, id), ..self }
    }

    /// Nobody may type into `id`.
    pub open spec fn without_writers(self, id: Seq<char>) -> PanesModel {
        PanesModel { leases: leases_without(self.leases, None, Some(id)), ..self }
    }

    /// The completed panes that `now` and the caps leave.
    pub open spec fn pruned(self, now: u64) -> PanesModel {
        PanesModel { hosts: cache::kept(self.hosts, now, self.limit), ..self }
    }

    /// The hosts that [`Self::pruned`] lets go of.
    pub open spec fn pruned_hosts(self, now: u64) -> Seq<HostId> {
        cache::victims(self.hosts, now, self.limit)
    }

    /// A pane charged `bytes` can be kept once it completes.
    pub open spec fn admits(self, bytes: usize) -> bool {
        &&& bytes <= MAX_COMPLETED_BYTES
        &&& cache::completed_bytes(self.hosts) + bytes <= usize::MAX
        &&& cache::completed_count(self.hosts) < usize::MAX
        &&& self.next_order < u64::MAX
    }

    /// `id`'s pane has completed and is kept.
    pub open spec fn with_completion(
        self,
        id: Seq<char>,
        host: HostId,
        bytes: usize,
        now: u64,
    ) -> PanesModel {
        PanesModel {
            hosts: table::put(
                self.hosts,
                id,
                PaneEntry::Completed {
                    host,
                    charged_bytes: bytes,
                    completed_at: now,
                    order: self.next_order,
                },
            ),
            next_order: (self.next_order + 1) as u64,
            ..self
        }
    }
}

impl Panes {
    /// Ids are apart, places in the order of completion are apart, and what the cache is charged is
    /// what its completed panes weigh.
    pub open spec fn counted(&self) -> bool {
        &&& self.hosts.wf()
        &&& self.host_generations.wf()
        &&& cache::ordered(self.hosts@, self.next_completed_order)
        &&& self.completed_count == cache::completed_count(self.hosts@)
        &&& self.completed_bytes == cache::completed_bytes(self.hosts@)
    }

    /// The accounting is exact and the next deadline is the first one.
    pub open spec fn wf(&self) -> bool {
        &&& self.counted()
        &&& cache::first_deadline(self.hosts@, self.next_completed_expiry)
    }

    /// No panes, and the ordinary cap on completed ones.
    pub fn new() -> (p: Self)
        ensures
            p.wf(),
            p@.hosts == PaneRows::empty(),
            p@.leases == Seq::<LeaseRow>::empty(),
            p@.native is None,
            p@.generations == Seq::<(Seq<char>, u64)>::empty(),
            p@.next_generation == 0,
            p@.next_order == 0,
            p@.limit == MAX_COMPLETED,
    {
        Self::with_limits(MAX_COMPLETED, 0)
    }

    /// No panes, at most `completed_limit` completed ones, and `first_order` as the first place in
    /// the order of completion.
    pub fn with_limits(completed_limit: usize, first_order: u64) -> (p: Self)
        ensures
            p.wf(),
            p@.hosts == PaneRows::empty(),
            p@.leases == Seq::<LeaseRow>::empty(),
            p@.native is None,
            p@.generations == Seq::<(Seq<char>, u64)>::empty(),
            p@.next_generation == 0,
            p@.next_order == first_order,
            p@.limit == completed_limit,
    {
        let p = Panes {
            hosts: Table::new(),
            leases: Vec::new(),
            native_launches: None,
            host_generations: Table::new(),
            next_host_generation: 0,
            completed_count: 0,
            completed_bytes: 0,
            next_completed_order: first_order,
            next_completed_expiry: None,
            completed_limit,
        };
        assert(lease_rows(p.leases@) =~= Seq::<LeaseRow>::empty());
        p
    }

    /// How many panes there are.
    pub fn len(&self) -> (n: usize)
        ensures
            n == self@.hosts.len(),
    {
        self.hosts.len()
    }

    /// How many panes are completed, and what the cache is charged for them.
    pub fn completed_usage(&self) -> (r: (usize, usize))
        requires
            self.wf(),
        ensures
            r.0 == cache::completed_count(self@.hosts),
            r.1 == cache::completed_bytes(self@.hosts),
    {
        (self.completed_count, self.completed_bytes)
    }

    /// What `id`'s pane is.
    pub fn entry(&self, id: &AgentId) -> (r: Option<PaneEntry>)
        requires
            self.wf(),
        ensures
            r == self@.entry(id@),
    {
        match self.hosts.get(id) {
            Some(e) => Some(*e),
            None => None,
        }
    }

    /// Whether `id`'s pane takes input.
    pub fn has_live(&self, id: &AgentId) -> (r: bool)
        requires
            self.wf(),
        ensures
            r == (self@.entry(id@) matches Some(PaneEntry::Live(_))),
    {
        match self.hosts.get(id) {
            Some(e) => e.is_live(),
            None => false,
        }
    }

    /// Find the first deadline again.
    fn recompute_next_completed_expiry(&mut self)
        requires
            old(self).counted(),
        ensures
            final(self).wf(),
            final(self)@ == old(self)@,
    {
        let mut next: Option<u64> = None;
        let mut i: usize = 0;
        while i < self.hosts.entries.len()
            invariant
                i <= self.hosts@.len(),
                self.hosts@.len() == self.hosts.entries@.len(),
                cache::first_deadline(self.hosts@.take(i as int), next),
            decreases self.hosts.entries.len() - i,
        {
            let ghost seen = self.hosts@.take(i as int);
            let ghost more = self.hosts@.take(i + 1);
            assert(more =~= seen.push(self.hosts@[i as int]));
            let ghost was = next;
            if let PaneEntry::Completed { completed_at, .. } = self.hosts.entries[i].1 {
                if completed_at <= u64::MAX - COMPLETED_TTL {
                    let deadline: u64 = completed_at + COMPLETED_TTL;
                    next = match next {
                        Some(n) if n <= deadline => Some(n),
                        _ => Some(deadline),
                    };
                    assert(more[i as int].1->completed_at + COMPLETED_TTL == deadline);
                }
            }
            proof {
                if was is Some {
                    let k = choose|k: int|
                        0 <= k < seen.len() && (#[trigger] seen[k]).1 is Completed
                            && seen[k].1->completed_at + COMPLETED_TTL == was->0;
                    assert(more[k] == seen[k]);
                }
                assert forall|k: int|
                    0 <= k < more.len() && (#[trigger] more[k]).1 is Completed implies (match next {
                    Some(at) => at <= more[k].1->completed_at + COMPLETED_TTL,
                    None => more[k].1->completed_at + COMPLETED_TTL > u64::MAX,
                }) by {
                    if k < i {
                        assert(more[k] == seen[k]);
                    }
                }
            }
            i = i + 1;
        }
        assert(self.hosts@.take(i as int) =~= self.hosts@);
        self.next_completed_expiry = next;
    }

    /// Take `id`'s pane out of the map and out of the accounting.
    fn remove_accounted(&mut self, id: &AgentId) -> (r: Option<PaneEntry>)
        requires
            old(self).counted(),
        ensures
            final(self).counted(),
            final(self)@ == old(self)@.without_entry(id@),
            final(self).next_completed_expiry == old(self).next_completed_expiry,
            r == old(self)@.entry(id@),
    {
        proof {
            cache::lemma_without_usage(self.hosts@, id@, self.next_completed_order);
            cache::lemma_usage_bounds(self.hosts@);
            cache::lemma_usage_bounds(table::without(self.hosts@, id@));
        }
        let taken = self.hosts.remove(id);
        if let Some(entry) = taken {
            self.debit_completed(entry);
        }
        taken
    }

    /// Take one entry's charge off the accounting.
    fn debit_completed(&mut self, entry: PaneEntry)
        requires
            entry.one() <= old(self).completed_count,
            entry.charge() <= old(self).completed_bytes,
        ensures
            *final(self) == (Panes {
                completed_count: (old(self).completed_count - entry.one()) as usize,
                completed_bytes: (old(self).completed_bytes - entry.charge()) as usize,
                ..*old(self)
            }),
    {
        if let PaneEntry::Completed { charged_bytes, .. } = entry {
            self.completed_count = self.completed_count - 1;
            self.completed_bytes = self.completed_bytes - charged_bytes;
        }
    }

    /// Take `id`'s pane out, and its charge with it where it was completed.
    pub fn remove(&mut self, id: &AgentId) -> (r: Option<PaneEntry>)
        requires
            old(self).wf(),
        ensures
            final(self).wf(),
            final(self)@ == old(self)@.without_entry(id@),
            r == old(self)@.entry(id@),
            match r {
                Some(was) => {
                    &&& final(self).completed_count == old(self).completed_count - was.one()
                    &&& final(self).completed_bytes == old(self).completed_bytes - was.charge()
                },
                None => {
                    &&& final(self)@ == old(self)@
                    &&& final(self).completed_count == old(self).completed_count
                    &&& final(self).completed_bytes == old(self).completed_bytes
                    &&& final(self).next_completed_expiry == old(self).next_completed_expiry
                },
            },
    {
        proof {
            cache::lemma_without_usage(self.hosts@, id@, self.next_completed_order);
        }
        let taken = self.remove_accounted(id);
        match taken {
            Some(PaneEntry::Completed { .. }) => {
                self.recompute_next_completed_expiry();
            },
            _ => {
                proof {
                    lemma_deadline_without(old(self).hosts@, id@, self.next_completed_expiry);
                }
            },
        }
        taken
    }

    /// Make `id`'s pane an entry that is not completed, and hand back what it was.
    fn replace(&mut self, id: AgentId, entry: PaneEntry) -> (r: Option<PaneEntry>)
        requires
            old(self).wf(),
            !(entry is Completed),
        ensures
            final(self).wf(),
            final(self)@ == old(self)@.with_entry(id@, entry),
            r == old(self)@.entry(id@),
    {
        proof {
            cache::lemma_put_plain(self.hosts@, id@, entry, self.next_completed_order);
            cache::lemma_usage_bounds(self.hosts@);
            cache::lemma_usage_bounds(table::put(self.hosts@, id@, entry));
        }
        let was = self.hosts.insert(id, entry);
        if let Some(e) = was {
            self.debit_completed(e);
        }
        self.recompute_next_completed_expiry();
        was
    }

    /// Give the node's host the next generation, where there is one left.
    fn assign_host_generation(&mut self, id: &AgentId) -> (r: Option<u64>)
        requires
            old(self).wf(),
        ensures
            final(self).wf(),
            final(self)@ == old(self)@.with_generation(id@),
            r == (if old(self)@.next_generation < u64::MAX {
                Some((old(self)@.next_generation + 1) as u64)
            } else {
                None
            }),
    {
        if self.next_host_generation == u64::MAX {
            return None;
        }
        let generation: u64 = self.next_host_generation + 1;
        self.next_host_generation = generation;
        let _ = self.host_generations.insert(id.clone(), generation);
        Some(generation)
    }

    /// Forget the generation a native claimant would name. The answer says whether an authority is
    /// installed, which then has to forget the node too.
    fn revoke_native_launch(&mut self, id: &AgentId) -> (r: bool)
        requires
            old(self).wf(),
        ensures
            final(self).wf(),
            final(self)@ == old(self)@.without_generation(id@),
            r == (old(self)@.native is Some),
    {
        let _ = self.host_generations.remove(id);
        self.native_launches.is_some()
    }
}

/// Where what leaves is not completed, the first deadline stays the first.
proof fn lemma_deadline_without(rows: PaneRows, k: Seq<char>, e: Option<u64>)
    requires
        table::distinct(rows),
        cache::first_deadline(rows, e),
        !(table::value(rows, k) matches Some(PaneEntry::Completed { .. })),
    ensures
        cache::first_deadline(table::without(rows, k), e),
{
    if table::has_row(rows, k) {
        let i = table::row_index(rows, k);
        assert(table::row_is(rows, k, i));
        let new = table::without(rows, k);
        if e is Some {
            let a = choose|a: int|
                0 <= a < rows.len() && (#[trigger] rows[a]).1 is Completed
                    && rows[a].1->completed_at + COMPLETED_TTL == e->0;
            assert(new[if a < i { a } else { a - 1 }] == rows[a]);
        }
        assert forall|b: int| 0 <= b < new.len() && (#[trigger] new[b]).1 is Completed implies (
        match e {
            Some(at) => at <= new[b].1->completed_at + COMPLETED_TTL,
            None => new[b].1->completed_at + COMPLETED_TTL > u64::MAX,
        }) by {
            assert(new[b] == rows[if b < i { b } else { b + 1 }]);
        }
    }
}

impl Panes {
    /// Keep a pane that has completed. The answer is whether it could be kept; where it could not,
    /// nothing has changed.
    fn complete(&mut self, id: &AgentId, host: HostId, charged_bytes: usize, now: u64) -> (r: bool)
        requires
            old(self).wf(),
        ensures
            final(self).wf(),
            r == (old(self)@.entry(id@) == Some(PaneEntry::Closing(host)) && old(self)@.admits(
                charged_bytes,
            )),
            final(self)@ == (if r {
                old(self)@.with_completion(id@, host, charged_bytes, now)
            } else {
                old(self)@
            }),
    {
        let closing = match self.entry(id) {
            Some(PaneEntry::Closing(current)) => current == host,
            _ => false,
        };
        if !closing {
            return false;
        }
        if charged_bytes > MAX_COMPLETED_BYTES {
            return false;
        }
        if self.completed_count == usize::MAX {
            return false;
        }
        if self.completed_bytes > usize::MAX - charged_bytes {
            return false;
        }
        if self.next_completed_order == u64::MAX {
            return false;
        }
        let order: u64 = self.next_completed_order;
        let entry = PaneEntry::Completed { host, charged_bytes, completed_at: now, order };
        let ghost before = self.hosts@;
        proof {
            table::lemma_put(before, id@, entry);
            cache::lemma_put_totals(before, id@, entry);
            cache::lemma_put_completed(before, id@, entry, order);
        }
        self.next_completed_order = order + 1;
        self.completed_count = self.completed_count + 1;
        self.completed_bytes = self.completed_bytes + charged_bytes;
        let _ = self.hosts.insert(id.clone(), entry);
        let ghost was = self.next_completed_expiry;
        if now <= u64::MAX - COMPLETED_TTL {
            let expiry: u64 = now + COMPLETED_TTL;
            let sooner = match self.next_completed_expiry {
                Some(next) => expiry < next,
                None => true,
            };
            if sooner {
                self.next_completed_expiry = Some(expiry);
            }
        }
        proof {
            lemma_deadline_put(before, id@, entry, was, self.next_completed_expiry);
        }
        true
    }

    /// Nothing is past its deadline and nothing is over the caps, so nothing has to go.
    pub fn completed_within_budget(&self, now: u64) -> (r: bool)
        requires
            self.wf(),
        ensures
            r == (self.next_completed_expiry is Some && now < self.next_completed_expiry->0
                && !cache::over_budget(self@.hosts, self@.limit)),
    {
        let before_deadline = match self.next_completed_expiry {
            Some(next) => now < next,
            None => false,
        };
        before_deadline && self.completed_count <= self.completed_limit && self.completed_bytes
            <= MAX_COMPLETED_BYTES
    }

    /// Whether the completed panes have to be looked through at `now`.
    pub fn needs_scan(&self, now: u64) -> (r: bool)
        requires
            self.wf(),
        ensures
            r == (cache::completed_count(self@.hosts) > 0 && !(self.next_completed_expiry is Some
                && now < self.next_completed_expiry->0 && !cache::over_budget(
                self@.hosts,
                self@.limit,
            ))),
            !r ==> self@.pruned(now) == self@ && self@.pruned_hosts(now) == Seq::<HostId>::empty(),
    {
        let r = self.completed_count != 0 && !self.completed_within_budget(now);
        proof {
            if !r {
                lemma_nothing_to_prune(*self, now);
            }
        }
        r
    }

    /// Let go of the completed panes that are past their deadline, then of the oldest until both
    /// caps hold. The hosts are handed back in that order.
    pub fn take_completed_victims(&mut self, now: u64) -> (gone: Vec<HostId>)
        requires
            old(self).wf(),
        ensures
            final(self).wf(),
            final(self)@ == old(self)@.pruned(now),
            gone@ == old(self)@.pruned_hosts(now),
    {
        if !self.needs_scan(now) {
            return Vec::new();
        }
        let mut gone = self.take_expired_completed(now);
        self.take_oldest_completed_over_budget(&mut gone);
        self.recompute_next_completed_expiry();
        gone
    }

    /// Take every completed pane at or past its deadline out of the accounting.
    fn take_expired_completed(&mut self, now: u64) -> (gone: Vec<HostId>)
        requires
            old(self).counted(),
        ensures
            final(self).counted(),
            final(self)@ == (PanesModel {
                hosts: cache::unexpired(old(self)@.hosts, now),
                ..old(self)@
            }),
            gone@ == cache::expired_hosts(old(self)@.hosts, now),
    {
        let ghost rows = self.hosts@;
        let mut gone: Vec<HostId> = Vec::new();
        let mut i: usize = 0;
        let ghost mut seen: int = 0;
        proof {
            reveal(Seq::filter);
            assert(rows.take(0) =~= PaneRows::empty());
            assert(cache::unexpired(rows.take(0), now) =~= PaneRows::empty());
            assert(gone@ =~= cache::expired_hosts(rows.take(0), now));
            assert(self.hosts@ =~= cache::unexpired(rows.take(0), now) + rows.skip(0));
        }
        while i < self.hosts.entries.len()
            invariant
                self.counted(),
                0 <= seen <= rows.len(),
                rows == old(self)@.hosts,
                i == cache::unexpired(rows.take(seen), now).len(),
                self.hosts@ == cache::unexpired(rows.take(seen), now) + rows.skip(seen),
                self.hosts@.len() == self.hosts.entries@.len(),
                gone@ == cache::expired_hosts(rows.take(seen), now),
                self@ == (PanesModel { hosts: self.hosts@, ..old(self)@ }),
            decreases rows.len() - seen,
        {
            let entry = self.hosts.entries[i].1;
            proof {
                assert(self.hosts@[i as int] == rows.skip(seen)[0]);
                assert(rows.skip(seen)[0] == rows[seen]);
                lemma_expiry_step(rows, seen, now);
            }
            if entry.is_expired(now) {
                proof {
                    cache::lemma_remove_ordered(self.hosts@, i as int, self.next_completed_order);
                    cache::lemma_usage_bounds(self.hosts@);
                    cache::lemma_usage_bounds(self.hosts@.remove(i as int));
                    assert(self.hosts@.remove(i as int) =~= cache::unexpired(rows.take(seen), now)
                        + rows.skip(seen + 1));
                }
                let _ = self.hosts.remove_at(i);
                self.debit_completed(entry);
                gone.push(entry.host());
            } else {
                assert(self.hosts@ =~= cache::unexpired(rows.take(seen + 1), now) + rows.skip(
                    seen + 1,
                ));
                i = i + 1;
            }
            proof {
                seen = seen + 1;
            }
        }
        proof {
            assert(rows.skip(seen).len() == 0);
            assert(seen == rows.len());
            assert(rows.take(seen) =~= rows);
            assert(self.hosts@ =~= cache::unexpired(rows, now));
        }
        gone
    }

    /// Take the oldest completed panes out of the accounting until both caps hold.
    fn take_oldest_completed_over_budget(&mut self, gone: &mut Vec<HostId>)
        requires
            old(self).counted(),
        ensures
            final(self).counted(),
            final(self)@ == (PanesModel {
                hosts: cache::trimmed(old(self)@.hosts, old(self)@.limit),
                ..old(self)@
            }),
            final(gone)@ == old(gone)@ + cache::trimmed_hosts(old(self)@.hosts, old(self)@.limit),
    {
        let ghost rows = self.hosts@;
        let ghost limit = self.completed_limit;
        let ghost had = gone@;
        while self.completed_count > self.completed_limit || self.completed_bytes
            > MAX_COMPLETED_BYTES
            invariant
                self.counted(),
                limit == self.completed_limit,
                limit == old(self)@.limit,
                cache::trimmed(self.hosts@, limit) == cache::trimmed(rows, limit),
                gone@ + cache::trimmed_hosts(self.hosts@, limit) == had + cache::trimmed_hosts(
                    rows,
                    limit,
                ),
                self@ == (PanesModel { hosts: self.hosts@, ..old(self)@ }),
            decreases self.hosts@.len(),
        {
            proof {
                cache::lemma_usage_bounds(self.hosts@);
                cache::lemma_oldest(self.hosts@, self.next_completed_order);
            }
            let at = self.oldest_completed();
            let entry = self.hosts.entries[at].1;
            proof {
                assert(self.hosts@[at as int].1 == entry);
                cache::lemma_remove_ordered(self.hosts@, at as int, self.next_completed_order);
                cache::lemma_usage_bounds(self.hosts@.remove(at as int));
                assert(gone@.push(entry.host_of()) + cache::trimmed_hosts(
                    self.hosts@.remove(at as int),
                    limit,
                ) =~= gone@ + cache::trimmed_hosts(self.hosts@, limit));
            }
            let _ = self.hosts.remove_at(at);
            self.debit_completed(entry);
            gone.push(entry.host());
        }
        assert(!cache::over_budget(self.hosts@, limit));
        assert(gone@ + Seq::<HostId>::empty() =~= gone@);
    }

    /// The place of the pane that completed first.
    fn oldest_completed(&self) -> (at: usize)
        requires
            self.counted(),
            cache::completed_count(self.hosts@) > 0,
        ensures
            at < self.hosts@.len(),
            at == cache::oldest(self.hosts@),
    {
        let mut best: Option<usize> = None;
        let mut best_order: u64 = 0;
        let mut i: usize = 0;
        while i < self.hosts.entries.len()
            invariant
                i <= self.hosts@.len(),
                self.hosts@.len() == self.hosts.entries@.len(),
                match best {
                    Some(b) => b < i && self.hosts@[b as int].1 is Completed
                        && self.hosts@[b as int].1->order == best_order && forall|j: int|
                        0 <= j < i && (#[trigger] self.hosts@[j]).1 is Completed ==> best_order
                            <= self.hosts@[j].1->order,
                    None => forall|j: int|
                        0 <= j < i ==> !((#[trigger] self.hosts@[j]).1 is Completed),
                },
            decreases self.hosts.entries.len() - i,
        {
            assert(self.hosts@[i as int].1 == self.hosts.entries@[i as int].1);
            if let PaneEntry::Completed { order, .. } = self.hosts.entries[i].1 {
                let older = match best {
                    Some(_) => order < best_order,
                    None => true,
                };
                if older {
                    best = Some(i);
                    best_order = order;
                }
            }
            i = i + 1;
        }
        proof {
            cache::lemma_usage_bounds(self.hosts@);
            cache::lemma_oldest(self.hosts@, self.next_completed_order);
        }
        match best {
            Some(b) => {
                assert(cache::is_oldest(self.hosts@, b as int));
                b
            },
            None => 0,
        }
    }
}

/// One more row looked at: it is kept where it is not past its deadline, and its host goes where it
/// is.
proof fn lemma_expiry_step(rows: PaneRows, i: int, now: u64)
    requires
        0 <= i < rows.len(),
    ensures
        cache::unexpired(rows.take(i + 1), now) == (if rows[i].1.expired(now) {
            cache::unexpired(rows.take(i), now)
        } else {
            cache::unexpired(rows.take(i), now).push(rows[i])
        }),
        cache::expired_hosts(rows.take(i + 1), now) == (if rows[i].1.expired(now) {
            cache::expired_hosts(rows.take(i), now).push(rows[i].1.host_of())
        } else {
            cache::expired_hosts(rows.take(i), now)
        }),
{
    reveal(Seq::filter);
    assert(rows.take(i + 1).drop_last() =~= rows.take(i));
    assert(rows.take(i + 1).last() == rows[i]);
    assert(cache::expired_hosts(rows.take(i + 1), now) =~= (if rows[i].1.expired(now) {
        cache::expired_hosts(rows.take(i), now).push(rows[i].1.host_of())
    } else {
        cache::expired_hosts(rows.take(i), now)
    }));
}

/// A completion moves the first deadline where its own comes sooner.
proof fn lemma_deadline_put(
    rows: PaneRows,
    k: Seq<char>,
    e: PaneEntry,
    was: Option<u64>,
    now_first: Option<u64>,
)
    requires
        table::distinct(rows),
        cache::first_deadline(rows, was),
        e is Completed,
        !(table::value(rows, k) matches Some(PaneEntry::Completed { .. })),
        now_first == (if e->completed_at + COMPLETED_TTL > u64::MAX {
            was
        } else if was is Some && was->0 <= e->completed_at + COMPLETED_TTL {
            was
        } else {
            Some((e->completed_at + COMPLETED_TTL) as u64)
        }),
    ensures
        cache::first_deadline(table::put(rows, k, e), now_first),
{
    let new = table::put(rows, k, e);
    let at = if table::has_row(rows, k) {
        assert(table::row_is(rows, k, table::row_index(rows, k)));
        table::row_index(rows, k)
    } else {
        rows.len() as int
    };
    assert(new[at] == (k, e));
    assert(forall|i: int| 0 <= i < new.len() && i != at ==> new[i] == rows[i]);
    if was is Some {
        let a = choose|a: int|
            0 <= a < rows.len() && (#[trigger] rows[a]).1 is Completed && rows[a].1->completed_at
                + COMPLETED_TTL == was->0;
        assert(a != at);
        assert(new[a] == rows[a]);
    }
}

/// Before the first deadline and within the caps, pruning takes nothing.
proof fn lemma_nothing_to_prune(p: Panes, now: u64)
    requires
        p.wf(),
        cache::completed_count(p@.hosts) == 0 || (p.next_completed_expiry is Some && now
            < p.next_completed_expiry->0 && !cache::over_budget(p@.hosts, p@.limit)),
    ensures
        p@.pruned(now) == p@,
        p@.pruned_hosts(now) == Seq::<HostId>::empty(),
{
    let rows = p@.hosts;
    cache::lemma_usage_bounds(rows);
    assert forall|i: int| 0 <= i < rows.len() implies !(#[trigger] rows[i]).1.expired(now) by {}
    lemma_none_expired(rows, now);
    assert(p@.pruned_hosts(now) =~= Seq::<HostId>::empty());
}

/// Where no row is past its deadline, every row is kept.
pub proof fn lemma_none_expired(rows: PaneRows, now: u64)
    requires
        forall|i: int| 0 <= i < rows.len() ==> !(#[trigger] rows[i]).1.expired(now),
    ensures
        cache::unexpired(rows, now) == rows,
        cache::expired_hosts(rows, now) == Seq::<HostId>::empty(),
    decreases rows.len(),
{
    reveal(Seq::filter);
    if rows.len() > 0 {
        assert forall|i: int| 0 <= i < rows.drop_last().len() implies !(
        #[trigger] rows.drop_last()[i]).1.expired(now) by {
            assert(rows.drop_last()[i] == rows[i]);
        }
        lemma_none_expired(rows.drop_last(), now);
        assert(rows.drop_last().push(rows.last()) =~= rows);
    }
    assert(cache::expired_hosts(rows, now) =~= Seq::<HostId>::empty());
}

/// The hosts of some leases, each with the connection that held it.
pub open spec fn lease_holders(leases: Seq<LeaseRow>) -> Seq<(ConnId, HostId)> {
    leases.map_values(|l: LeaseRow| (l.conn, l.host))
}

/// What a change of panes asks of the hosts and the native authority, beside the map.
#[derive(Debug)]
pub struct PaneEffects {
    /// The native authority has to forget the node.
    pub revoke_native: bool,
    /// Leases that are no longer held, each by the connection that held it and its host.
    pub released: Vec<(ConnId, HostId)>,
    /// The host that takes no more input.
    pub seal: Option<HostId>,
    /// The host whose legacy listeners are cut off, and nothing else.
    pub unlisten: Option<HostId>,
    /// The hosts whose listeners and replays are cut off, in this order.
    pub retire: Vec<HostId>,
}

/// What a change asks of the hosts, as contracts speak of it.
#[verifier::ext_equal]
pub struct EffectsModel {
    pub revoke_native: bool,
    pub released: Seq<(ConnId, HostId)>,
    pub seal: Option<HostId>,
    pub unlisten: Option<HostId>,
    pub retire: Seq<HostId>,
}

impl View for PaneEffects {
    type V = EffectsModel;

    open spec fn view(&self) -> EffectsModel {
        EffectsModel {
            revoke_native: self.revoke_native,
            released: self.released@,
            seal: self.seal,
            unlisten: self.unlisten,
            retire: self.retire@,
        }
    }
}

/// Nothing is asked.
pub open spec fn no_effects() -> EffectsModel {
    EffectsModel {
        revoke_native: false,
        released: Seq::empty(),
        seal: None,
        unlisten: None,
        retire: Seq::empty(),
    }
}

impl PaneEffects {
    /// Nothing is asked.
    fn nothing() -> (e: Self)
        ensures
            e@ == no_effects(),
    {
        PaneEffects {
            revoke_native: false,
            released: Vec::new(),
            seal: None,
            unlisten: None,
            retire: Vec::new(),
        }
    }
}

impl Panes {
    /// Whether `conn` may type into `id`. The lease is the permission; there is no other.
    pub fn lease(&self, conn: ConnId, id: &AgentId) -> (r: bool)
        ensures
            r == has_lease(self@.leases, conn, id@),
    {
        let mut i: usize = 0;
        while i < self.leases.len()
            invariant
                i <= self.leases.len(),
                forall|j: int|
                    0 <= j < i ==> !((#[trigger] self@.leases[j]).conn == conn
                        && self@.leases[j].agent == id@),
            decreases self.leases.len() - i,
        {
            assert(self@.leases[i as int] == self.leases@[i as int]@);
            if self.leases[i].conn == conn && self.leases[i].agent_id == *id {
                return true;
            }
            i = i + 1;
        }
        false
    }

    /// Release the leases that `conn` and `id` name, and say whose they were.
    pub(crate) fn release(&mut self, conn: Option<ConnId>, id: Option<&AgentId>) -> (r: Vec<(ConnId, HostId)>)
        requires
            old(self).wf(),
        ensures
            final(self).wf(),
            final(self)@ == (PanesModel {
                leases: leases_without(
                    old(self)@.leases,
                    conn,
                    match id {
                        Some(i) => Some(i@),
                        None => None,
                    },
                ),
                ..old(self)@
            }),
            r@ == lease_holders(
                leases_of(
                    old(self)@.leases,
                    conn,
                    match id {
                        Some(i) => Some(i@),
                        None => None,
                    },
                ),
            ),
    {
        let ghost who: Option<Seq<char>> = match id {
            Some(i) => Some(i@),
            None => None,
        };
        let ghost all = self@.leases;
        let mut released: Vec<(ConnId, HostId)> = Vec::new();
        let mut i: usize = 0;
        let ghost mut seen: int = 0;
        proof {
            reveal(Seq::filter);
            assert(all.take(0) =~= Seq::<LeaseRow>::empty());
            assert(released@ =~= lease_holders(leases_of(all.take(0), conn, who)));
            assert(self@.leases =~= leases_without(all.take(0), conn, who) + all.skip(0));
        }
        while i < self.leases.len()
            invariant
                self.wf(),
                who == (match id {
                    Some(i) => Some(i@),
                    None => None::<Seq<char>>,
                }),
                all == old(self)@.leases,
                0 <= seen <= all.len(),
                i == leases_without(all.take(seen), conn, who).len(),
                self@.leases == leases_without(all.take(seen), conn, who) + all.skip(seen),
                self@.leases.len() == self.leases@.len(),
                released@ == lease_holders(leases_of(all.take(seen), conn, who)),
                self@ == (PanesModel { leases: self@.leases, ..old(self)@ }),
            decreases all.len() - seen,
        {
            proof {
                assert(self@.leases[i as int] == all.skip(seen)[0]);
                assert(all.skip(seen)[0] == all[seen]);
                assert(self@.leases[i as int] == self.leases@[i as int]@);
                lemma_release_step(all, seen, conn, who);
            }
            let by_conn = match conn {
                Some(c) => self.leases[i].conn == c,
                None => true,
            };
            let by_id = match id {
                Some(k) => self.leases[i].agent_id == *k,
                None => true,
            };
            if by_conn && by_id {
                let ghost before = self@.leases;
                let was = self.leases.remove(i);
                released.push((was.conn, was.host));
                assert(self@.leases =~= before.remove(i as int));
                assert(self@.leases =~= leases_without(all.take(seen), conn, who) + all.skip(
                    seen + 1,
                ));
            } else {
                assert(self@.leases =~= leases_without(all.take(seen + 1), conn, who) + all.skip(
                    seen + 1,
                ));
                i = i + 1;
            }
            proof {
                seen = seen + 1;
            }
        }
        proof {
            assert(all.skip(seen).len() == 0);
            assert(all.take(seen) =~= all);
            assert(self@.leases =~= leases_without(all, conn, who));
        }
        released
    }
}

/// One more lease looked at: it stays where it is not named, and its holder is told where it is.
proof fn lemma_release_step(
    all: Seq<LeaseRow>,
    i: int,
    conn: Option<ConnId>,
    id: Option<Seq<char>>,
)
    requires
        0 <= i < all.len(),
    ensures
        leases_without(all.take(i + 1), conn, id) == (if names_lease(all[i], conn, id) {
            leases_without(all.take(i), conn, id)
        } else {
            leases_without(all.take(i), conn, id).push(all[i])
        }),
        lease_holders(leases_of(all.take(i + 1), conn, id)) == (if names_lease(all[i], conn, id) {
            lease_holders(leases_of(all.take(i), conn, id)).push((all[i].conn, all[i].host))
        } else {
            lease_holders(leases_of(all.take(i), conn, id))
        }),
{
    reveal(Seq::filter);
    assert(all.take(i + 1).drop_last() =~= all.take(i));
    assert(all.take(i + 1).last() == all[i]);
    assert(lease_holders(leases_of(all.take(i + 1), conn, id)) =~= (if names_lease(
        all[i],
        conn,
        id,
    ) {
        lease_holders(leases_of(all.take(i), conn, id)).push((all[i].conn, all[i].host))
    } else {
        lease_holders(leases_of(all.take(i), conn, id))
    }));
}

impl PanesModel {
    /// `host` has been offered as `id`'s pane. It is the pane at once where `id` had none; where it
    /// had another, that one's writers are gone and `host` is still taking over.
    pub open spec fn registered(self, id: Seq<char>, host: HostId) -> PanesModel {
        match self.entry(id) {
            None => self.with_entry(id, PaneEntry::Live(host)).with_generation(id),
            Some(e) => if e.host_of() == host {
                self
            } else {
                self.without_generation(id).with_entry(
                    id,
                    PaneEntry::Replacing(host),
                ).without_writers(id)
            },
        }
    }

    /// The host that `host` takes over from.
    pub open spec fn superseded(self, id: Seq<char>, host: HostId) -> Option<HostId> {
        match self.entry(id) {
            Some(e) => if e.host_of() == host {
                None
            } else {
                Some(e.host_of())
            },
            None => None,
        }
    }

    /// `host` has finished taking over, where it was still doing so.
    pub open spec fn published(self, id: Seq<char>, host: HostId) -> PanesModel {
        if self.entry(id) == Some(PaneEntry::Replacing(host)) {
            self.with_entry(id, PaneEntry::Live(host)).with_generation(id)
        } else {
            self
        }
    }

    /// `host` takes no more input, where it was `id`'s live pane.
    pub open spec fn closing(self, id: Seq<char>, host: HostId) -> PanesModel {
        if self.entry(id) == Some(PaneEntry::Live(host)) {
            self.without_generation(id).with_entry(id, PaneEntry::Closing(host)).without_writers(id)
        } else {
            self
        }
    }

    /// `host` was drained at `now`, where it was `id`'s closing pane: it is kept where the cache
    /// admits it and gone where it does not, and the cache is pruned.
    pub open spec fn completed(
        self,
        id: Seq<char>,
        host: HostId,
        bytes: usize,
        now: u64,
    ) -> PanesModel {
        if self.entry(id) != Some(PaneEntry::Closing(host)) {
            self
        } else if self.admits(bytes) {
            self.with_completion(id, host, bytes, now).pruned(now)
        } else {
            self.pruned(now).without_entry(id)
        }
    }

    /// `host` failed, where it was `id`'s pane in any stage.
    pub open spec fn failed(self, id: Seq<char>, host: HostId) -> PanesModel {
        if self.entry(id) is Some && self.entry(id)->0.host_of() == host {
            self.without_generation(id).without_writers(id).without_entry(id)
        } else {
            self
        }
    }

    /// `id` has no pane any more.
    pub open spec fn forgotten(self, id: Seq<char>) -> PanesModel {
        self.without_generation(id).without_entry(id).without_writers(id)
    }

    /// Whoever types into `id` stops, and a native claimant of it is turned away.
    pub open spec fn cut_off(self, id: Seq<char>) -> EffectsModel {
        EffectsModel {
            revoke_native: self.native is Some,
            released: lease_holders(leases_of(self.leases, None, Some(id))),
            ..no_effects()
        }
    }

    /// What [`Self::registered`] asks: the host that is taken over from is retired.
    pub open spec fn registering(self, id: Seq<char>, host: HostId) -> EffectsModel {
        match self.superseded(id, host) {
            None => no_effects(),
            Some(was) => EffectsModel { retire: seq![was], ..self.cut_off(id) },
        }
    }

    /// What [`Self::published`] asks: a host that is no longer taking over is retired.
    pub open spec fn publishing(self, id: Seq<char>, host: HostId) -> EffectsModel {
        if self.entry(id) == Some(PaneEntry::Replacing(host)) {
            no_effects()
        } else {
            EffectsModel { retire: seq![host], ..no_effects() }
        }
    }

    /// What [`Self::closing`] asks: the host takes no more input.
    pub open spec fn sealing(self, id: Seq<char>, host: HostId) -> EffectsModel {
        if self.entry(id) == Some(PaneEntry::Live(host)) {
            EffectsModel { seal: Some(host), ..self.cut_off(id) }
        } else {
            no_effects()
        }
    }

    /// What [`Self::completed`] asks: a host that is kept loses its listeners, one that is not is
    /// retired after those the cache lets go of.
    pub open spec fn completing(
        self,
        id: Seq<char>,
        host: HostId,
        bytes: usize,
        now: u64,
    ) -> EffectsModel {
        if self.entry(id) != Some(PaneEntry::Closing(host)) {
            no_effects()
        } else if self.admits(bytes) {
            EffectsModel {
                unlisten: Some(host),
                retire: self.with_completion(id, host, bytes, now).pruned_hosts(now),
                ..no_effects()
            }
        } else {
            EffectsModel { retire: self.pruned_hosts(now).push(host), ..no_effects() }
        }
    }

    /// What [`Self::failed`] asks: the host is retired, whoever's it is.
    pub open spec fn failing(self, id: Seq<char>, host: HostId) -> EffectsModel {
        let ours = self.entry(id) is Some && self.entry(id)->0.host_of() == host;
        EffectsModel {
            retire: seq![host],
            ..(if ours {
                self.cut_off(id)
            } else {
                no_effects()
            })
        }
    }

    /// What [`Self::forgotten`] asks: the host is retired, where there is one.
    pub open spec fn forgetting(self, id: Seq<char>) -> EffectsModel {
        EffectsModel {
            retire: match self.entry(id) {
                Some(entry) => seq![entry.host_of()],
                None => Seq::empty(),
            },
            ..self.cut_off(id)
        }
    }

    /// `conn` has departed.
    pub open spec fn departed(self, conn: ConnId) -> PanesModel {
        PanesModel { leases: leases_without(self.leases, Some(conn), None), ..self }
    }
}

impl Panes {
    /// Offer `host` as `id`'s pane.
    ///
    /// Where it takes over from another host, that one comes back in `retire`: once it is cut off,
    /// [`Self::publish_pane`] makes the new one live. The same host again changes nothing, so no
    /// pane moves backwards through here.
    pub fn register_pane(&mut self, id: &AgentId, host: HostId) -> (e: PaneEffects)
        requires
            old(self).wf(),
        ensures
            final(self).wf(),
            final(self)@ == old(self)@.registered(id@, host),
            e@ == old(self)@.registering(id@, host),
    {
        match self.entry(id) {
            None => {
                let _ = self.replace(id.clone(), PaneEntry::Live(host));
                let _ = self.assign_host_generation(id);
                PaneEffects::nothing()
            },
            Some(existing) => {
                if existing.host() == host {
                    return PaneEffects::nothing();
                }
                let revoke_native = self.revoke_native_launch(id);
                let _ = self.replace(id.clone(), PaneEntry::Replacing(host));
                let released = self.release(None, Some(id));
                let mut retire: Vec<HostId> = Vec::new();
                retire.push(existing.host());
                assert(retire@ =~= seq![existing.host_of()]);
                PaneEffects { revoke_native, released, seal: None, unlisten: None, retire }
            },
        }
    }

    /// Make `host` live once the host it takes over from is cut off. Where it is no longer taking
    /// over, it is retired instead.
    pub fn publish_pane(&mut self, id: &AgentId, host: HostId) -> (e: PaneEffects)
        requires
            old(self).wf(),
        ensures
            final(self).wf(),
            final(self)@ == old(self)@.published(id@, host),
            e@ == old(self)@.publishing(id@, host),
    {
        let taking_over = match self.entry(id) {
            Some(PaneEntry::Replacing(current)) => current == host,
            _ => false,
        };
        let mut e = PaneEffects::nothing();
        if taking_over {
            let _ = self.replace(id.clone(), PaneEntry::Live(host));
            let _ = self.assign_host_generation(id);
        } else {
            e.retire.push(host);
            assert(e.retire@ =~= seq![host]);
        }
        e
    }

    /// Stop admitting input to `host` while it drains. A late callback about another host changes
    /// nothing.
    pub fn closing_pane(&mut self, id: &AgentId, host: HostId) -> (e: PaneEffects)
        requires
            old(self).wf(),
        ensures
            final(self).wf(),
            final(self)@ == old(self)@.closing(id@, host),
            e@ == old(self)@.sealing(id@, host),
    {
        let live = match self.entry(id) {
            Some(PaneEntry::Live(current)) => current == host,
            _ => false,
        };
        let mut e = PaneEffects::nothing();
        if live {
            e.revoke_native = self.revoke_native_launch(id);
            let _ = self.replace(id.clone(), PaneEntry::Closing(host));
            e.released = self.release(None, Some(id));
            e.seal = Some(host);
        }
        e
    }

    /// Publish a drained host as something to replay. Only the host that is closing can complete.
    pub fn completed_pane(
        &mut self,
        id: &AgentId,
        host: HostId,
        charged_bytes: usize,
        now: u64,
    ) -> (e: PaneEffects)
        requires
            old(self).wf(),
        ensures
            final(self).wf(),
            final(self)@ == old(self)@.completed(id@, host, charged_bytes, now),
            e@ == old(self)@.completing(id@, host, charged_bytes, now),
    {
        let closing = match self.entry(id) {
            Some(PaneEntry::Closing(current)) => current == host,
            _ => false,
        };
        let mut e = PaneEffects::nothing();
        if closing {
            let completed = self.complete(id, host, charged_bytes, now);
            let mut gone = self.take_completed_victims(now);
            if completed {
                e.unlisten = Some(host);
            } else {
                proof {
                    lemma_pruning_spares_the_rest(*old(self), now, id@);
                }
                let refused = self.remove(id);
                if let Some(entry) = refused {
                    gone.push(entry.host());
                }
            }
            e.retire = gone;
        }
        e
    }

    /// Cut off one failed host for good, without touching another that now has the same node.
    pub fn failed_pane(&mut self, id: &AgentId, host: HostId) -> (e: PaneEffects)
        requires
            old(self).wf(),
        ensures
            final(self).wf(),
            final(self)@ == old(self)@.failed(id@, host),
            e@ == old(self)@.failing(id@, host),
    {
        let ours = match self.entry(id) {
            Some(entry) => entry.host() == host,
            None => false,
        };
        let mut e = PaneEffects::nothing();
        if ours {
            e.revoke_native = self.revoke_native_launch(id);
            e.released = self.release(None, Some(id));
            let _ = self.remove(id);
        }
        e.retire.push(host);
        assert(e.retire@ =~= seq![host]);
        e
    }

    /// Forget a node's pane.
    pub fn forget_pane(&mut self, id: &AgentId) -> (e: PaneEffects)
        requires
            old(self).wf(),
        ensures
            final(self).wf(),
            final(self)@ == old(self)@.forgotten(id@),
            e@ == old(self)@.forgetting(id@),
    {
        let mut e = PaneEffects::nothing();
        e.revoke_native = self.revoke_native_launch(id);
        let was = self.remove(id);
        e.released = self.release(None, Some(id));
        if let Some(entry) = was {
            e.retire.push(entry.host());
            assert(e.retire@ =~= seq![entry.host_of()]);
        }
        e
    }

    /// A connection is gone: its leases are released, and no pane is touched.
    pub fn gone(&mut self, conn: ConnId) -> (released: Vec<(ConnId, HostId)>)
        requires
            old(self).wf(),
        ensures
            final(self).wf(),
            final(self)@ == old(self)@.departed(conn),
            released@ == lease_holders(leases_of(old(self)@.leases, Some(conn), None)),
    {
        self.release(Some(conn), None)
    }
}

/// Pruning keeps every pane that is not completed.
proof fn lemma_pruning_spares_the_rest(p: Panes, now: u64, id: Seq<char>)
    requires
        p.wf(),
        p@.entry(id) is Some,
        !(p@.entry(id)->0 is Completed),
    ensures
        p@.pruned(now).entry(id) == p@.entry(id),
{
    cache::lemma_unexpired(p@.hosts, now, p@.next_order);
    let rest = cache::unexpired(p@.hosts, now);
    cache::lemma_trimmed(rest, p@.limit, p@.next_order);
    assert(table::value(rest, id) == p@.entry(id));
    assert(table::value(cache::trimmed(rest, p@.limit), id) == table::value(rest, id));
}

/// What the panes say is what they hold, and what a step asks is what it hands back.
pub proof fn law_the_panes_say_what_they_hold(p: Panes, e: PaneEffects, i: int)
    requires
        0 <= i < p.leases@.len(),
    ensures
        p@.hosts == p.hosts@,
        p@.native == p.native_launches,
        p@.generations == p.host_generations@,
        p@.next_generation == p.next_host_generation,
        p@.next_order == p.next_completed_order,
        p@.limit == p.completed_limit,
        p@.leases.len() == p.leases@.len(),
        p@.leases[i].conn == p.leases@[i].conn,
        p@.leases[i].agent == p.leases@[i].agent_id@,
        p@.leases[i].host == p.leases@[i].host,
        e@.revoke_native == e.revoke_native,
        e@.released == e.released@,
        e@.seal == e.seal,
        e@.unlisten == e.unlisten,
        e@.retire == e.retire@,
{
}

} // verus!
