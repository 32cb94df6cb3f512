//! Whether the supervisor may leave, and what holds it.
//!
//! A node holds it until the node has ended, unless marion gave the spawn up before there was
//! anything to give up. A node nobody holds the channel of still holds the supervisor: it is the
//! operator's to resolve, over this socket.
use vstd::prelude::*;

use crate::model;
use crate::model::{AgentId, NodeState, ReapState, Registry, ReplayedNode};

verus! {

/// What holds a supervisor.
#[derive(Debug, Clone, Copy, PartialEq, Eq, Structural)]
pub enum ResidentReason {
    /// The registry stopped following the journal, so what it says may be stale.
    RegistryStopped,
    /// A node was about to be reaped and its death has not been observed.
    UnconfirmedReapIntent,
    BlockedNode,
    SpawnOutstanding,
    NonTerminalNode,
}

/// What a supervisor does once its clients have left.
#[derive(Debug, Clone, Copy, PartialEq, Eq, Structural)]
pub enum SupervisorDisposition {
    Exiting,
    Resident(ResidentReason),
}

impl ReplayedNode {
    /// Marion gave the spawn up before a process existed: no confirmation, no pid, nothing to reap.
    pub open spec fn was_abandoned(self) -> bool {
        &&& self.spawn_aborted
        &&& !self.spawn_confirmed
        &&& self.pid is None
        &&& !self.reap_intent
    }

    /// The node has not ended and marion has not given it up.
    pub open spec fn holds(self) -> bool {
        !self.was_abandoned() && !(self.state is Exited)
    }

    /// The node is somebody's agent still: it has not ended and its channel is held.
    pub open spec fn is_active(self) -> bool {
        !(self.state is Exited) && self.reap_state == ReapState::Live
    }
}

/// Whether a node was given up before there was anything to give up. The abort record alone does
/// not say so: it may have been written over a child that was already running.
pub fn abandoned(n: &ReplayedNode) -> (r: bool)
    ensures
        r == n.was_abandoned(),
{
    n.spawn_aborted && !n.spawn_confirmed && n.pid.is_none() && !n.reap_intent
}

/// Some node that was not given up has this property.
pub open spec fn some_holding(nodes: Seq<ReplayedNode>, p: spec_fn(ReplayedNode) -> bool) -> bool {
    exists|i: int|
        0 <= i < nodes.len() && !(#[trigger] nodes[i]).was_abandoned() && p(nodes[i])
}

/// What holds the supervisor, by the nodes alone: an unobserved death first, then a node that waits
/// for somebody, then a spawn that has not been confirmed, then any node that has not ended.
pub open spec fn held_by(nodes: Seq<ReplayedNode>) -> Option<ResidentReason> {
    if some_holding(nodes, |n: ReplayedNode| n.reap_intent && !(n.state is Exited)) {
        Some(ResidentReason::UnconfirmedReapIntent)
    } else if some_holding(nodes, |n: ReplayedNode| n.state is Blocked) {
        Some(ResidentReason::BlockedNode)
    } else if some_holding(nodes, |n: ReplayedNode| n.state is Spawning) {
        Some(ResidentReason::SpawnOutstanding)
    } else if some_holding(nodes, |n: ReplayedNode| !(n.state is Exited)) {
        Some(ResidentReason::NonTerminalNode)
    } else {
        None
    }
}

/// What holds the supervisor: a registry that stopped following says so before any node is asked.
pub open spec fn residency_of(reg: Registry) -> Option<ResidentReason> {
    if reg.stopped is Some {
        Some(ResidentReason::RegistryStopped)
    } else {
        held_by(reg.nodes@)
    }
}

/// What holds the supervisor, by the nodes alone.
pub fn resident_reason(nodes: &Vec<ReplayedNode>) -> (r: Option<ResidentReason>)
    ensures
        r == held_by(nodes@),
{
    let mut reaping = false;
    let mut blocked = false;
    let mut spawning = false;
    let mut unfinished = false;
    let mut i: usize = 0;
    let ghost p_reap = |n: ReplayedNode| n.reap_intent && !(n.state is Exited);
    let ghost p_block = |n: ReplayedNode| n.state is Blocked;
    let ghost p_spawn = |n: ReplayedNode| n.state is Spawning;
    let ghost p_any = |n: ReplayedNode| !(n.state is Exited);
    while i < nodes.len()
        invariant
            i <= nodes.len(),
            p_reap == (|n: ReplayedNode| n.reap_intent && !(n.state is Exited)),
            p_block == (|n: ReplayedNode| n.state is Blocked),
            p_spawn == (|n: ReplayedNode| n.state is Spawning),
            p_any == (|n: ReplayedNode| !(n.state is Exited)),
            reaping == some_holding(nodes@.take(i as int), p_reap),
            blocked == some_holding(nodes@.take(i as int), p_block),
            spawning == some_holding(nodes@.take(i as int), p_spawn),
            unfinished == some_holding(nodes@.take(i as int), p_any),
        decreases nodes.len() - i,
    {
        proof {
            lemma_some_holding_step(nodes@, i as int, p_reap);
            lemma_some_holding_step(nodes@, i as int, p_block);
            lemma_some_holding_step(nodes@, i as int, p_spawn);
            lemma_some_holding_step(nodes@, i as int, p_any);
        }
        if !abandoned(&nodes[i]) {
            let exited = nodes[i].state.is_exited();
            if nodes[i].reap_intent && !exited {
                reaping = true;
            }
            match nodes[i].state {
                NodeState::Blocked(_) => {
                    blocked = true;
                },
                NodeState::Spawning => {
                    spawning = true;
                },
                _ => {},
            }
            if !exited {
                unfinished = true;
            }
        }
        i = i + 1;
    }
    assert(nodes@.take(i as int) =~= nodes@);
    if reaping {
        Some(ResidentReason::UnconfirmedReapIntent)
    } else if blocked {
        Some(ResidentReason::BlockedNode)
    } else if spawning {
        Some(ResidentReason::SpawnOutstanding)
    } else if unfinished {
        Some(ResidentReason::NonTerminalNode)
    } else {
        None
    }
}

proof fn lemma_some_holding_step(
    nodes: Seq<ReplayedNode>,
    i: int,
    p: spec_fn(ReplayedNode) -> bool,
)
    requires
        0 <= i < nodes.len(),
    ensures
        some_holding(nodes.take(i + 1), p) == (some_holding(nodes.take(i), p) || (
        !nodes[i].was_abandoned() && p(nodes[i]))),
{
    let a = nodes.take(i);
    let b = nodes.take(i + 1);
    assert(b[i] == nodes[i]);
    if some_holding(a, p) {
        let k = choose|k: int|
            0 <= k < a.len() && !(#[trigger] a[k]).was_abandoned() && p(a[k]);
        assert(b[k] == a[k]);
    }
    if some_holding(b, p) {
        let k = choose|k: int|
            0 <= k < b.len() && !(#[trigger] b[k]).was_abandoned() && p(b[k]);
        if k < i {
            assert(a[k] == b[k]);
        }
    }
}

/// What holds the supervisor.
pub fn residency(reg: &Registry) -> (r: Option<ResidentReason>)
    ensures
        r == residency_of(*reg),
{
    if reg.stopped.is_some() {
        return Some(ResidentReason::RegistryStopped);
    }
    resident_reason(&reg.nodes)
}

/// What the supervisor does next, given what holds it.
pub open spec fn disposition_of(held: Option<ResidentReason>) -> SupervisorDisposition {
    match held {
        Some(reason) => SupervisorDisposition::Resident(reason),
        None => SupervisorDisposition::Exiting,
    }
}

/// [`disposition_of`], as a value.
pub fn disposition(held: Option<ResidentReason>) -> (d: SupervisorDisposition)
    ensures
        d == disposition_of(held),
{
    match held {
        Some(reason) => SupervisorDisposition::Resident(reason),
        None => SupervisorDisposition::Exiting,
    }
}

/// The nodes that are somebody's agent still, in journal order.
pub open spec fn active_ids(nodes: Seq<ReplayedNode>) -> Seq<Seq<char>>
    decreases nodes.len(),
{
    if nodes.len() == 0 {
        Seq::empty()
    } else {
        let rest = active_ids(nodes.drop_last());
        if nodes.last().is_active() {
            rest.push(nodes.last().agent_id@)
        } else {
            rest
        }
    }
}

/// [`active_ids`], as ids.
pub fn active(nodes: &Vec<ReplayedNode>) -> (ids: Vec<AgentId>)
    ensures
        model::id_texts(ids@) == active_ids(nodes@),
{
    let mut ids: Vec<AgentId> = Vec::new();
    let mut i: usize = 0;
    assert(nodes@.take(0) =~= Seq::<ReplayedNode>::empty());
    assert(model::id_texts(ids@) =~= active_ids(nodes@.take(0)));
    while i < nodes.len()
        invariant
            i <= nodes.len(),
            model::id_texts(ids@) == active_ids(nodes@.take(i as int)),
        decreases nodes.len() - i,
    {
        assert(nodes@.take(i + 1).drop_last() =~= nodes@.take(i as int));
        if !nodes[i].state.is_exited() && nodes[i].reap_state == ReapState::Live {
            let ghost had = model::id_texts(ids@);
            ids.push(nodes[i].agent_id.clone());
            assert(model::id_texts(ids@) =~= had.push(nodes@[i as int].agent_id@));
        }
        i = i + 1;
    }
    assert(nodes@.take(i as int) =~= nodes@);
    ids
}

/// The node occupies one of `parent`'s places: it is its child, its channel is held, and neither its
/// end nor its abandonment is recorded.
pub open spec fn occupies(n: ReplayedNode, parent: Seq<char>) -> bool {
    &&& n.parent() == Some(parent)
    &&& n.is_active()
    &&& !n.was_abandoned()
}

/// How many nodes occupy one of `parent`'s places.
pub open spec fn live_children(nodes: Seq<ReplayedNode>, parent: Seq<char>) -> nat
    decreases nodes.len(),
{
    if nodes.len() == 0 {
        0
    } else {
        live_children(nodes.drop_last(), parent) + (if occupies(nodes.last(), parent) {
            1nat
        } else {
            0nat
        })
    }
}

/// `n`, or the greatest count that can be told.
pub open spec fn saturated(n: nat) -> nat {
    if n > u32::MAX {
        u32::MAX as nat
    } else {
        n
    }
}

/// How many of `parent`'s places are taken, counted from the intent on: a child whose worktree is
/// still being made occupies its place. The count saturates, because one that wrapped would lift
/// the bound.
pub fn live_children_of(reg: &Registry, parent: &AgentId) -> (n: u32)
    ensures
        n == saturated(live_children(reg.nodes@, parent@)),
{
    let mut n: usize = 0;
    let mut i: usize = 0;
    assert(reg.nodes@.take(0) =~= Seq::<ReplayedNode>::empty());
    while i < reg.nodes.len()
        invariant
            i <= reg.nodes.len(),
            n <= i,
            n == live_children(reg.nodes@.take(i as int), parent@),
        decreases reg.nodes.len() - i,
    {
        assert(reg.nodes@.take(i + 1).drop_last() =~= reg.nodes@.take(i as int));
        let node = &reg.nodes[i];
        if node.has_parent(parent) && !node.state.is_exited() && node.reap_state == ReapState::Live
            && !abandoned(node) {
            n = n + 1;
        }
        i = i + 1;
    }
    assert(reg.nodes@.take(i as int) =~= reg.nodes@);
    if n > u32::MAX as usize {
        u32::MAX
    } else {
        n as u32
    }
}

/// The supervisor may leave exactly where its registry is current and every node that was not given
/// up has ended.
pub proof fn law_nothing_holds_exactly_when_every_node_has_ended(reg: Registry)
    ensures
        residency_of(reg) is None <==> reg.stopped is None && forall|i: int|
            0 <= i < reg.nodes@.len() ==> !(#[trigger] reg.nodes@[i]).holds(),
{
    let nodes = reg.nodes@;
    let p = |n: ReplayedNode| !(n.state is Exited);
    assert(some_holding(nodes, p) <==> exists|i: int|
        0 <= i < nodes.len() && (#[trigger] nodes[i]).holds()) by {
        if some_holding(nodes, p) {
            let i = choose|i: int|
                0 <= i < nodes.len() && !(#[trigger] nodes[i]).was_abandoned() && p(nodes[i]);
            assert(nodes[i].holds());
        }
        if exists|i: int| 0 <= i < nodes.len() && (#[trigger] nodes[i]).holds() {
            let i = choose|i: int| 0 <= i < nodes.len() && (#[trigger] nodes[i]).holds();
            assert(!nodes[i].was_abandoned() && p(nodes[i]));
        }
    }
    if !some_holding(nodes, p) {
        assert forall|i: int| 0 <= i < nodes.len() && !(#[trigger] nodes[i]).was_abandoned() implies
        nodes[i].state is Exited by {
            if !(nodes[i].state is Exited) {
                assert(p(nodes[i]));
            }
        }
    }
}

/// A spawn that was given up never holds the supervisor, and never takes its parent's place.
pub proof fn law_an_abandoned_spawn_holds_nothing(nodes: Seq<ReplayedNode>, n: ReplayedNode)
    requires
        n.was_abandoned(),
    ensures
        held_by(nodes.push(n)) == held_by(nodes),
        forall|parent: Seq<char>| #[trigger]
            live_children(nodes.push(n), parent) == live_children(nodes, parent),
{
    let all = nodes.push(n);
    assert forall|p: spec_fn(ReplayedNode) -> bool|
        some_holding(all, p) == #[trigger] some_holding(nodes, p) by {
        assert(all.take(nodes.len() as int) =~= nodes);
        assert(all.take(nodes.len() as int + 1) =~= all);
        lemma_some_holding_step(all, nodes.len() as int, p);
    }
    assert(all.drop_last() =~= nodes);
}

/// An abort that was written over a process does not give it up: a node that has not ended and has
/// a confirmed spawn, a pid or an unresolved reap holds the supervisor, aborted or not.
pub proof fn law_an_abort_over_a_process_still_holds(reg: Registry, i: int)
    requires
        0 <= i < reg.nodes@.len(),
        !(reg.nodes@[i].state is Exited),
        reg.nodes@[i].spawn_confirmed || reg.nodes@[i].pid is Some || reg.nodes@[i].reap_intent,
    ensures
        residency_of(reg) is Some,
{
    law_nothing_holds_exactly_when_every_node_has_ended(reg);
    assert(reg.nodes@[i].holds());
}

} // verus!
