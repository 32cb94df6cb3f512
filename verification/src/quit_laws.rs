//! What leaving does to each node, by what the journal records of it: who holds the supervisor, who
//! is named, who is ended and who is reaped.
use vstd::prelude::*;

use crate::error::FailureKind;
use crate::model;
use crate::model::{ReapState, Registry, ReplayedNode};
use crate::order;
use crate::quit;
use crate::quit::{QuitOutcome, Reaping};
use crate::records::Fact;
use crate::residency;
use crate::residency::{ResidentReason, SupervisorDisposition};
use crate::sweep;
use crate::sweep::{Aim, Phase, Step, SweepEvent, SweepModel};

verus! {

/// One more element looked at by a filter.
pub proof fn lemma_filter_push<A>(s: Seq<A>, x: A, p: spec_fn(A) -> bool)
    ensures
        s.push(x).filter(p) == (if p(x) {
            s.filter(p).push(x)
        } else {
            s.filter(p)
        }),
{
    reveal(Seq::filter);
    assert(s.push(x).drop_last() =~= s);
}

// -------------------------------------------------------------------------------------------------
// Places and names
// -------------------------------------------------------------------------------------------------

/// A child takes one of its parent's places from its intent on and in whatever state it is, until it
/// ends, its channel is let go of, or its spawn is given up before there was a process; nobody else
/// takes one.
pub proof fn law_each_live_child_takes_one_place(
    nodes: Seq<ReplayedNode>,
    n: ReplayedNode,
    parent: Seq<char>,
)
    ensures
        residency::live_children(Seq::empty(), parent) == 0,
        residency::live_children(nodes.push(n), parent) == residency::live_children(nodes, parent)
            + (if n.intent is Some && n.intent->0.parent_id is Some
            && n.intent->0.parent_id->0@ == parent && !(n.state is Exited) && n.reap_state
            == ReapState::Live && (!n.spawn_aborted || n.spawn_confirmed || n.pid is Some
            || n.reap_intent) {
            1nat
        } else {
            0nat
        }),
{
    assert(nodes.push(n).drop_last() =~= nodes);
}

/// The places taken are as many as there are such children, however they lie among the others.
pub proof fn law_the_places_taken_are_the_live_children(
    nodes: Seq<ReplayedNode>,
    parent: Seq<char>,
)
    ensures
        residency::live_children(nodes, parent) == nodes.filter(
            |n: ReplayedNode|
                {
                    &&& n.intent is Some && n.intent->0.parent_id is Some
                        && n.intent->0.parent_id->0@ == parent
                    &&& !(n.state is Exited)
                    &&& n.reap_state == ReapState::Live
                    &&& !n.spawn_aborted || n.spawn_confirmed || n.pid is Some || n.reap_intent
                },
        ).len(),
    decreases nodes.len(),
{
    let p = |n: ReplayedNode|
        {
            &&& n.intent is Some && n.intent->0.parent_id is Some && n.intent->0.parent_id->0@
                == parent
            &&& !(n.state is Exited)
            &&& n.reap_state == ReapState::Live
            &&& !n.spawn_aborted || n.spawn_confirmed || n.pid is Some || n.reap_intent
        };
    if nodes.len() == 0 {
        assert(nodes.filter(p) =~= Seq::<ReplayedNode>::empty()) by {
            reveal(Seq::filter);
        }
    } else {
        law_the_places_taken_are_the_live_children(nodes.drop_last(), parent);
        lemma_filter_push(nodes.drop_last(), nodes.last(), p);
        assert(nodes.drop_last().push(nodes.last()) =~= nodes);
    }
}

/// A count that can be told is told, and one that cannot is told as the greatest that can.
pub proof fn law_a_count_is_told_as_it_is(n: nat)
    ensures
        n <= 0xffff_ffff ==> residency::saturated(n) == n,
        n > 0xffff_ffff ==> residency::saturated(n) == 0xffff_ffff,
{
}

/// Every node that has not ended and whose channel is held is named, root or child and in whatever
/// state, in journal order; nobody else is.
pub proof fn law_every_live_node_is_named(nodes: Seq<ReplayedNode>)
    ensures
        residency::active_ids(nodes) == nodes.filter(
            |n: ReplayedNode| !(n.state is Exited) && n.reap_state == ReapState::Live,
        ).map_values(|n: ReplayedNode| n.agent_id@),
    decreases nodes.len(),
{
    let p = |n: ReplayedNode| !(n.state is Exited) && n.reap_state == ReapState::Live;
    let f = |n: ReplayedNode| n.agent_id@;
    if nodes.len() == 0 {
        reveal(Seq::filter);
        assert(residency::active_ids(nodes) =~= nodes.filter(p).map_values(f));
    } else {
        let init = nodes.drop_last();
        law_every_live_node_is_named(init);
        lemma_filter_push(init, nodes.last(), p);
        assert(init.push(nodes.last()) =~= nodes);
        assert(residency::active_ids(nodes) =~= nodes.filter(p).map_values(f));
    }
}

/// A quit that leaves everything running names every live node twice over, as left behind and as
/// exposed, and says that the supervisor leaves exactly where its registry is current and every node
/// has ended or was given up before there was a process.
pub proof fn law_a_detach_names_everybody_it_leaves(o: QuitOutcome, reg: Registry)
    requires
        quit::is_detached(o, reg),
    ensures
        o matches QuitOutcome::Detached { detached, gate_exposed, supervisor, .. } && {
            let live = reg.nodes@.filter(
                |n: ReplayedNode| !(n.state is Exited) && n.reap_state == ReapState::Live,
            );
            &&& detached@.len() == live.len()
            &&& gate_exposed@.len() == live.len()
            &&& forall|i: int| 0 <= i < live.len() ==> (#[trigger] detached@[i])@ == live[i].agent_id@
            &&& forall|i: int|
                0 <= i < live.len() ==> (#[trigger] gate_exposed@[i])@ == live[i].agent_id@
            &&& forall|i: int|
                0 <= i < reg.nodes@.len() && !((#[trigger] reg.nodes@[i]).state is Exited)
                    && reg.nodes@[i].reap_state == ReapState::Live ==> exists|k: int|
                    0 <= k < detached@.len() && (#[trigger] detached@[k])@
                        == reg.nodes@[i].agent_id@
            &&& (supervisor == SupervisorDisposition::Exiting) == (reg.stopped is None && forall|
                i: int,
            |
                0 <= i < reg.nodes@.len() ==> {
                    ||| (#[trigger] reg.nodes@[i]).state is Exited
                    ||| reg.nodes@[i].spawn_aborted && !reg.nodes@[i].spawn_confirmed
                        && reg.nodes@[i].pid is None && !reg.nodes@[i].reap_intent
                })
        },
{
    broadcast use vstd::seq_lib::group_filter_ensures;

    let nodes = reg.nodes@;
    let p = |n: ReplayedNode| !(n.state is Exited) && n.reap_state == ReapState::Live;
    let live = nodes.filter(p);
    law_every_live_node_is_named(nodes);
    let ids = residency::active_ids(nodes);
    law_the_supervisor_leaves_over_nobody(reg);
    if let QuitOutcome::Detached { detached, gate_exposed, supervisor, .. } = o {
        assert(model::id_texts(detached@) == ids);
        assert(model::id_texts(gate_exposed@) == ids);
        assert(detached@.len() == ids.len());
        assert(gate_exposed@.len() == ids.len());
        assert forall|i: int| 0 <= i < live.len() implies (#[trigger] detached@[i])@
            == live[i].agent_id@ by {
            assert(model::id_texts(detached@)[i] == ids[i]);
        }
        assert forall|i: int| 0 <= i < live.len() implies (#[trigger] gate_exposed@[i])@
            == live[i].agent_id@ by {
            assert(model::id_texts(gate_exposed@)[i] == ids[i]);
        }
        assert forall|i: int|
            0 <= i < nodes.len() && !((#[trigger] nodes[i]).state is Exited)
                && nodes[i].reap_state == ReapState::Live implies exists|k: int|
            0 <= k < detached@.len() && (#[trigger] detached@[k])@ == nodes[i].agent_id@ by {
            assert(p(nodes[i]));
            assert(live.contains(nodes[i]));
            let k = choose|k: int| 0 <= k < live.len() && live[k] == nodes[i];
            assert(detached@[k]@ == nodes[i].agent_id@);
        }
    }
}

// -------------------------------------------------------------------------------------------------
// What holds the supervisor
// -------------------------------------------------------------------------------------------------

/// Nothing holds the supervisor exactly where its registry follows the journal and every node has
/// ended or was given up before there was a process, a confirmation or a reap to wait for.
pub proof fn law_the_supervisor_leaves_over_nobody(reg: Registry)
    ensures
        residency::residency_of(reg) is None <==> reg.stopped is None && forall|i: int|
            0 <= i < reg.nodes@.len() ==> {
                ||| (#[trigger] reg.nodes@[i]).state is Exited
                ||| reg.nodes@[i].spawn_aborted && !reg.nodes@[i].spawn_confirmed
                    && reg.nodes@[i].pid is None && !reg.nodes@[i].reap_intent
            },
        residency::disposition_of(residency::residency_of(reg)) == SupervisorDisposition::Exiting
            <==> residency::residency_of(reg) is None,
        forall|why: ResidentReason|
            residency::residency_of(reg) == Some(why) <==> #[trigger] residency::disposition_of(
                residency::residency_of(reg),
            ) == SupervisorDisposition::Resident(why),
{
    residency::law_nothing_holds_exactly_when_every_node_has_ended(reg);
    let nodes = reg.nodes@;
    if reg.stopped is None {
        if residency::residency_of(reg) is None {
            assert forall|i: int| 0 <= i < nodes.len() implies {
                ||| (#[trigger] nodes[i]).state is Exited
                ||| nodes[i].spawn_aborted && !nodes[i].spawn_confirmed && nodes[i].pid is None
                    && !nodes[i].reap_intent
            } by {
                assert(!nodes[i].holds());
            }
        }
    }
}

/// The reason that is given is the first that holds: a registry that stopped, a reap that was begun
/// over a node that has not ended, a node that waits for somebody, a spawn that is not confirmed,
/// then any node that has not ended. A spawn that was given up before there was a process gives none.
pub proof fn law_the_gravest_reason_is_given(reg: Registry)
    ensures
        ({
            let nodes = reg.nodes@;
            let held = residency::residency_of(reg);
            let reaping = exists|i: int|
                0 <= i < nodes.len() && (#[trigger] nodes[i]).reap_intent && !(
                nodes[i].state is Exited);
            let blocked = exists|i: int|
                0 <= i < nodes.len() && (#[trigger] nodes[i]).state is Blocked && (
                !nodes[i].spawn_aborted || nodes[i].spawn_confirmed || nodes[i].pid is Some
                    || nodes[i].reap_intent);
            let spawning = exists|i: int|
                0 <= i < nodes.len() && (#[trigger] nodes[i]).state is Spawning && (
                !nodes[i].spawn_aborted || nodes[i].spawn_confirmed || nodes[i].pid is Some
                    || nodes[i].reap_intent);
            &&& (held == Some(ResidentReason::RegistryStopped)) == (reg.stopped is Some)
            &&& (held == Some(ResidentReason::UnconfirmedReapIntent)) == (reg.stopped is None
                && reaping)
            &&& (held == Some(ResidentReason::BlockedNode)) == (reg.stopped is None && !reaping
                && blocked)
            &&& (held == Some(ResidentReason::SpawnOutstanding)) == (reg.stopped is None && !reaping
                && !blocked && spawning)
        }),
{
    let nodes = reg.nodes@;
    let p_reap = |n: ReplayedNode| n.reap_intent && !(n.state is Exited);
    let p_block = |n: ReplayedNode| n.state is Blocked;
    let p_spawn = |n: ReplayedNode| n.state is Spawning;
    let reaping = exists|i: int|
        0 <= i < nodes.len() && (#[trigger] nodes[i]).reap_intent && !(nodes[i].state is Exited);
    let blocked = exists|i: int|
        0 <= i < nodes.len() && (#[trigger] nodes[i]).state is Blocked && (!nodes[i].spawn_aborted
            || nodes[i].spawn_confirmed || nodes[i].pid is Some || nodes[i].reap_intent);
    let spawning = exists|i: int|
        0 <= i < nodes.len() && (#[trigger] nodes[i]).state is Spawning && (!nodes[i].spawn_aborted
            || nodes[i].spawn_confirmed || nodes[i].pid is Some || nodes[i].reap_intent);
    assert(residency::some_holding(nodes, p_reap) == reaping) by {
        if reaping {
            let i = choose|i: int|
                0 <= i < nodes.len() && (#[trigger] nodes[i]).reap_intent && !(
                nodes[i].state is Exited);
            assert(!nodes[i].was_abandoned() && p_reap(nodes[i]));
        }
        if residency::some_holding(nodes, p_reap) {
            let i = choose|i: int|
                0 <= i < nodes.len() && !(#[trigger] nodes[i]).was_abandoned() && p_reap(nodes[i]);
            assert(nodes[i].reap_intent);
        }
    }
    assert(residency::some_holding(nodes, p_block) == blocked) by {
        if blocked {
            let i = choose|i: int|
                0 <= i < nodes.len() && (#[trigger] nodes[i]).state is Blocked && (
                !nodes[i].spawn_aborted || nodes[i].spawn_confirmed || nodes[i].pid is Some
                    || nodes[i].reap_intent);
            assert(!nodes[i].was_abandoned() && p_block(nodes[i]));
        }
        if residency::some_holding(nodes, p_block) {
            let i = choose|i: int|
                0 <= i < nodes.len() && !(#[trigger] nodes[i]).was_abandoned() && p_block(nodes[i]);
            assert(nodes[i].state is Blocked);
        }
    }
    assert(residency::some_holding(nodes, p_spawn) == spawning) by {
        if spawning {
            let i = choose|i: int|
                0 <= i < nodes.len() && (#[trigger] nodes[i]).state is Spawning && (
                !nodes[i].spawn_aborted || nodes[i].spawn_confirmed || nodes[i].pid is Some
                    || nodes[i].reap_intent);
            assert(!nodes[i].was_abandoned() && p_spawn(nodes[i]));
        }
        if residency::some_holding(nodes, p_spawn) {
            let i = choose|i: int|
                0 <= i < nodes.len() && !(#[trigger] nodes[i]).was_abandoned() && p_spawn(nodes[i]);
            assert(nodes[i].state is Spawning);
        }
    }
}

// -------------------------------------------------------------------------------------------------
// Ending the tree
// -------------------------------------------------------------------------------------------------

/// Where the tree is ended, every node that has not ended is, in journal order: one that was not
/// already reaped, held here or not, by a signal to its own recorded process and a confirmation that
/// says so; one that was already reaped by a confirmation that says there was no process.
pub proof fn law_ending_the_tree_ends_every_process(
    nodes: Seq<ReplayedNode>,
    confirmed: Seq<Seq<char>>,
)
    requires
        quit::kill_refusal(nodes, confirmed) is None,
    ensures
        ({
            let left = nodes.filter(|n: ReplayedNode| !(n.state is Exited));
            let aims = quit::kill_aims(nodes);
            &&& aims.len() == left.len()
            &&& forall|i: int|
                0 <= i < left.len() ==> {
                    let n = left[i];
                    let a = #[trigger] aims[i];
                    &&& a.agent == n.agent_id@
                    &&& a.was == n.state
                    &&& a.intent == (Fact::KillIntent { agent: n.agent_id@, was: n.state })
                    &&& a.confirmation is KillConfirmed
                    &&& a.confirmation->KillConfirmed_agent == n.agent_id@
                    &&& a.confirmation->KillConfirmed_code is None
                    &&& n.reap_state != ReapState::ReapedIdle ==> {
                        &&& n.pid is Some
                        &&& a.signal == n.pid
                        &&& a.confirmation->KillConfirmed_signal == Some(9i32)
                    }
                    &&& n.reap_state == ReapState::ReapedIdle ==> {
                        &&& a.signal is None
                        &&& a.confirmation->KillConfirmed_signal is None
                    }
                }
        }),
{
    let p = |n: ReplayedNode| !(n.state is Exited);
    let left = nodes.filter(p);
    assert(quit::unfinished(nodes) == left);
    quit::law_only_the_exact_list_ends_the_tree(nodes, confirmed);
    let aims = quit::kill_aims(nodes);
    assert forall|i: int| 0 <= i < left.len() implies {
        let n = left[i];
        let a = #[trigger] aims[i];
        &&& a == quit::kill_aim(n)
        &&& n.reap_state != ReapState::ReapedIdle ==> n.pid is Some
    } by {
        if left[i].reap_state != ReapState::ReapedIdle {
            assert(quit::has_process(quit::unfinished(nodes)[i]));
        }
    }
}

/// The tree is ended exactly where the confirmed list holds the nodes that have not ended, each as
/// often and in whatever order, and each of them that was not already reaped has a recorded process.
/// Any other list is refused as stale; over the right list a node without a process is a conflict
/// about the first such node.
pub proof fn law_a_tree_is_ended_exactly_where_it_can_be(
    nodes: Seq<ReplayedNode>,
    confirmed: Seq<Seq<char>>,
)
    ensures
        ({
            let left = nodes.filter(|n: ReplayedNode| !(n.state is Exited));
            let same = confirmed.to_multiset() == left.map_values(
                |n: ReplayedNode| n.agent_id@,
            ).to_multiset();
            let refusal = quit::kill_refusal(nodes, confirmed);
            &&& !same ==> refusal is Some && refusal->0.kind == FailureKind::Refused
                && refusal->0.subject == Some("confirmed"@)
            &&& same ==> match refusal {
                None => forall|i: int|
                    0 <= i < left.len() ==> (#[trigger] left[i]).reap_state == ReapState::ReapedIdle
                        || left[i].pid is Some,
                Some(t) => t.kind == FailureKind::Conflict && exists|i: int|
                    {
                        &&& 0 <= i < left.len()
                        &&& (#[trigger] left[i]).reap_state != ReapState::ReapedIdle
                        &&& left[i].pid is None
                        &&& t.subject == Some(left[i].agent_id@)
                        &&& forall|j: int|
                            0 <= j < i ==> (#[trigger] left[j]).reap_state == ReapState::ReapedIdle
                                || left[j].pid is Some
                    },
            }
        }),
{
    let p = |n: ReplayedNode| !(n.state is Exited);
    let f = |n: ReplayedNode| n.agent_id@;
    let left = nodes.filter(p);
    assert(quit::unfinished(nodes) == left);
    let ids = quit::node_ids(left);
    assert(ids == left.map_values(f));
    quit::law_only_the_exact_list_ends_the_tree(nodes, confirmed);
    order::lemma_in_order_identifies_multisets(ids, confirmed);
    let lost = |n: ReplayedNode| quit::unreachable_node(n);
    lemma_first(left, lost, 0);
    if confirmed.to_multiset() == ids.to_multiset() {
        match quit::first_with(left, lost, 0) {
            None => {
                assert forall|i: int| 0 <= i < left.len() implies (
                #[trigger] left[i]).reap_state == ReapState::ReapedIdle || left[i].pid is Some by {
                    assert(!lost(left[i]));
                }
            },
            Some(n) => {
                let i = choose|i: int|
                    0 <= i < left.len() && (#[trigger] left[i]) == n && lost(left[i]) && forall|
                        j: int,
                    |
                        0 <= j < i ==> !lost(#[trigger] left[j]);
                assert(left[i].reap_state != ReapState::ReapedIdle);
                assert forall|j: int| 0 <= j < i implies (#[trigger] left[j]).reap_state
                    == ReapState::ReapedIdle || left[j].pid is Some by {
                    assert(!lost(left[j]));
                }
            },
        }
    }
}

/// The first that is found is the first there is.
proof fn lemma_first(nodes: Seq<ReplayedNode>, p: spec_fn(ReplayedNode) -> bool, i: int)
    requires
        0 <= i <= nodes.len(),
    ensures
        match quit::first_with(nodes, p, i) {
            None => forall|k: int| i <= k < nodes.len() ==> !p(#[trigger] nodes[k]),
            Some(n) => exists|k: int|
                {
                    &&& i <= k < nodes.len()
                    &&& (#[trigger] nodes[k]) == n
                    &&& p(nodes[k])
                    &&& forall|j: int| i <= j < k ==> !p(#[trigger] nodes[j])
                },
        },
    decreases nodes.len() - i,
{
    if i < nodes.len() {
        if p(nodes[i]) {
            assert(nodes[i] == nodes[i]);
        } else {
            lemma_first(nodes, p, i + 1);
            if let Some(n) = quit::first_with(nodes, p, i) {
                let k = choose|k: int|
                    {
                        &&& i + 1 <= k < nodes.len()
                        &&& (#[trigger] nodes[k]) == n
                        &&& p(nodes[k])
                        &&& forall|j: int| i + 1 <= j < k ==> !p(#[trigger] nodes[j])
                    };
                assert forall|j: int| i <= j < k implies !p(#[trigger] nodes[j]) by {}
                assert(nodes[k] == n);
            }
        }
    }
}

// -------------------------------------------------------------------------------------------------
// Reaping what is idle
// -------------------------------------------------------------------------------------------------

/// A reap is of every idle root whose channel is held and that nobody is reaping already, each by a
/// signal to its own process, and of nobody else; every other node that has not ended and whose
/// channel is held is named as left running. It is refused exactly where one of those roots has no
/// recorded process, as a conflict about the first such root.
pub proof fn law_a_reap_is_of_every_idle_root(nodes: Seq<ReplayedNode>, reaping: Reaping)
    ensures
        ({
            let idle = nodes.filter(
                |n: ReplayedNode|
                    {
                        &&& n.state is Idle
                        &&& n.reap_state == ReapState::Live
                        &&& !n.reap_intent
                        &&& n.intent is None || n.intent->0.parent_id is None
                    },
            );
            let busy = nodes.filter(
                |n: ReplayedNode|
                    {
                        &&& !(n.state is Exited)
                        &&& n.reap_state == ReapState::Live
                        &&& !idle.map_values(|m: ReplayedNode| m.agent_id@).contains(n.agent_id@)
                    },
            );
            &&& match quit::reap_refusal(nodes) {
                None => forall|i: int| 0 <= i < idle.len() ==> (#[trigger] idle[i]).pid is Some,
                Some(t) => t.kind == FailureKind::Conflict && exists|i: int|
                    {
                        &&& 0 <= i < idle.len()
                        &&& (#[trigger] idle[i]).pid is None
                        &&& t.subject == Some(idle[i].agent_id@)
                        &&& forall|j: int| 0 <= j < i ==> (#[trigger] idle[j]).pid is Some
                    },
            }
            &&& quit::is_reaping(reaping, nodes) ==> {
                &&& reaping.sweep@.next == 0
                &&& reaping.sweep@.phase == Phase::Intent
                &&& reaping.sweep@.aims.len() == idle.len()
                &&& reaping.reaped@.len() == idle.len()
                &&& reaping.detached@.len() == busy.len()
                &&& forall|i: int|
                    0 <= i < idle.len() ==> {
                        let a = #[trigger] reaping.sweep@.aims[i];
                        &&& a.agent == idle[i].agent_id@
                        &&& a.signal == idle[i].pid
                        &&& a.intent is ReapIntent
                        &&& a.intent->ReapIntent_agent == idle[i].agent_id@
                        &&& a.confirmation == (Fact::ReapConfirmed { agent: idle[i].agent_id@ })
                    }
                &&& forall|i: int|
                    0 <= i < idle.len() ==> (#[trigger] reaping.reaped@[i])@ == idle[i].agent_id@
                &&& forall|i: int|
                    0 <= i < busy.len() ==> (#[trigger] reaping.detached@[i])@ == busy[i].agent_id@
            }
        }),
{
    let p = |n: ReplayedNode|
        {
            &&& n.state is Idle
            &&& n.reap_state == ReapState::Live
            &&& !n.reap_intent
            &&& n.intent is None || n.intent->0.parent_id is None
        };
    assert(p =~= (|n: ReplayedNode| quit::reapable(n)));
    let idle = nodes.filter(p);
    assert(quit::to_reap(nodes) == idle);
    let f = |m: ReplayedNode| m.agent_id@;
    let q = |n: ReplayedNode|
        {
            &&& !(n.state is Exited)
            &&& n.reap_state == ReapState::Live
            &&& !idle.map_values(f).contains(n.agent_id@)
        };
    assert(q =~= (|n: ReplayedNode|
        n.is_active() && !quit::node_ids(quit::to_reap(nodes)).contains(n.agent_id@)));
    let busy = nodes.filter(q);
    assert(quit::left_running(nodes) == busy);
    let lost = |n: ReplayedNode| n.pid is None;
    lemma_first(idle, lost, 0);
    match quit::first_with(idle, lost, 0) {
        None => {
            assert forall|i: int| 0 <= i < idle.len() implies (#[trigger] idle[i]).pid is Some by {
                assert(!lost(idle[i]));
            }
        },
        Some(n) => {
            let i = choose|i: int|
                {
                    &&& 0 <= i < idle.len()
                    &&& (#[trigger] idle[i]) == n
                    &&& lost(idle[i])
                    &&& forall|j: int| 0 <= j < i ==> !lost(#[trigger] idle[j])
                };
            assert(idle[i].pid is None);
            assert forall|j: int| 0 <= j < i implies (#[trigger] idle[j]).pid is Some by {
                assert(!lost(idle[j]));
            }
        },
    }
    if quit::is_reaping(reaping, nodes) {
        assert(model::id_texts(reaping.reaped@).len() == idle.len());
        assert(model::id_texts(reaping.detached@).len() == busy.len());
        assert forall|i: int| 0 <= i < idle.len() implies (#[trigger] reaping.reaped@[i])@
            == idle[i].agent_id@ by {
            assert(model::id_texts(reaping.reaped@)[i] == quit::node_ids(idle)[i]);
        }
        assert forall|i: int| 0 <= i < busy.len() implies (#[trigger] reaping.detached@[i])@
            == busy[i].agent_id@ by {
            assert(model::id_texts(reaping.detached@)[i] == quit::node_ids(busy)[i]);
        }
    }
}

/// What a finished reap answers names whom it reaped and whom it left, exposes exactly those it left,
/// and says that the supervisor leaves exactly where nothing holds it.
pub proof fn law_a_reap_answers_what_it_did(o: QuitOutcome, reaping: Reaping, reg: Registry)
    requires
        quit::is_reaped(o, reaping, reg),
    ensures
        o matches QuitOutcome::ReapedAndDetached {
            reaped,
            detached,
            gate_exposed,
            supervisor,
            ..
        } && {
            &&& reaped == reaping.reaped
            &&& detached == reaping.detached
            &&& gate_exposed@.len() == detached@.len()
            &&& forall|i: int|
                0 <= i < detached@.len() ==> (#[trigger] gate_exposed@[i])@ == detached@[i]@
            &&& (supervisor == SupervisorDisposition::Exiting) == (residency::residency_of(reg)
                is None)
        },
{
    if let QuitOutcome::ReapedAndDetached { detached, gate_exposed, .. } = o {
        assert(model::id_texts(gate_exposed@).len() == model::id_texts(detached@).len());
        assert forall|i: int| 0 <= i < detached@.len() implies (#[trigger] gate_exposed@[i])@
            == detached@[i]@ by {
            assert(model::id_texts(gate_exposed@)[i] == model::id_texts(detached@)[i]);
        }
    }
}

// -------------------------------------------------------------------------------------------------
// A whole sweep
// -------------------------------------------------------------------------------------------------

/// Everything that ending some targets takes, in order.
pub open spec fn everything(aims: Seq<Aim>) -> Seq<Step>
    decreases aims.len(),
{
    if aims.len() == 0 {
        Seq::empty()
    } else {
        seq![Step::Append(aims[0].intent)] + (match aims[0].signal {
            Some(pid) => seq![Step::Kill(pid)],
            None => Seq::empty(),
        }) + seq![Step::Append(aims[0].confirmation)] + everything(aims.skip(1))
    }
}

/// The step was answered by its success.
pub open spec fn done(step: Step, e: SweepEvent) -> bool {
    match step {
        Step::Append(_) => e matches SweepEvent::Appended(Ok(_)),
        Step::Kill(_) => e == SweepEvent::Killed(true),
    }
}

/// A sweep that is finished has asked for everything that every one of its targets takes, in order
/// and once, and each was answered by its success; one that is answered so is finished.
pub proof fn law_a_finished_sweep_has_ended_every_target(aims: Seq<Aim>, events: Seq<SweepEvent>)
    ensures
        (sweep::run(sweep::started(aims), events) matches Some(end) && end.step() is None) <==> (
        events.len() == everything(aims).len() && forall|i: int|
            0 <= i < events.len() ==> done(everything(aims)[i], #[trigger] events[i])),
        (sweep::run(sweep::started(aims), events) matches Some(end) && end.step() is None)
            ==> sweep::asked(sweep::started(aims), events) == everything(aims),
{
    lemma_rest(sweep::started(aims), events);
    assert(aims.skip(0) =~= aims);
}

/// The same of a sweep that stands between two targets.
proof fn lemma_rest(s: SweepModel, events: Seq<SweepEvent>)
    requires
        0 <= s.next <= s.aims.len(),
        s.phase == Phase::Intent,
    ensures
        (sweep::run(s, events) matches Some(end) && end.step() is None) <==> (events.len()
            == everything(s.aims.skip(s.next)).len() && forall|i: int|
            0 <= i < events.len() ==> done(everything(s.aims.skip(s.next))[i], #[trigger] events[i])),
        (sweep::run(s, events) matches Some(end) && end.step() is None) ==> sweep::asked(s, events)
            == everything(s.aims.skip(s.next)),
    decreases s.aims.len() - s.next,
{
    let rest = s.aims.skip(s.next);
    let all = everything(rest);
    reveal_with_fuel(sweep::run, 5);
    reveal_with_fuel(sweep::asked, 5);
    if s.next == s.aims.len() {
        assert(rest.len() == 0);
        if events.len() > 0 {
            assert(!s.expects(events[0]));
        }
    } else {
        let a = s.aims[s.next];
        assert(rest[0] == a);
        assert(rest.skip(1) =~= s.aims.skip(s.next + 1));
        let n = SweepModel { next: s.next + 1, phase: Phase::Intent, ..s };
        let k: int = if a.signal is Some {
            3
        } else {
            2
        };
        assert(all.len() == k + everything(rest.skip(1)).len());
        assert(all[0] == Step::Append(a.intent));
        assert(all[k - 1] == Step::Append(a.confirmation));
        if a.signal is Some {
            assert(all[1] == Step::Kill(a.signal->0));
        }
        assert forall|i: int| k <= i < all.len() implies #[trigger] all[i] == everything(
            rest.skip(1),
        )[i - k] by {}
        if events.len() >= k {
            let later = events.skip(k);
            lemma_rest(n, later);
            let one = events.skip(1);
            let two = one.skip(1);
            assert(one[0] == events[1]);
            if a.signal is Some {
                assert(two[0] == events[2]);
                assert(two.skip(1) =~= later);
            } else {
                assert(two =~= later);
            }
            let good = forall|i: int| 0 <= i < k ==> done(all[i], #[trigger] events[i]);
            if good {
                assert(done(all[0], events[0]));
                assert(done(all[1], events[1]));
                assert(done(all[k - 1], events[k - 1]));
                assert(sweep::run(s, events) == sweep::run(n, later));
                if a.signal is Some {
                    assert(sweep::asked(s, events) =~= seq![
                        Step::Append(a.intent),
                        Step::Kill(a.signal->0),
                        Step::Append(a.confirmation),
                    ] + sweep::asked(n, later));
                } else {
                    assert(sweep::asked(s, events) =~= seq![
                        Step::Append(a.intent),
                        Step::Append(a.confirmation),
                    ] + sweep::asked(n, later));
                }
                if sweep::run(n, later) matches Some(end) && end.step() is None {
                    assert forall|i: int| 0 <= i < events.len() implies done(
                        all[i],
                        #[trigger] events[i],
                    ) by {
                        if i >= k {
                            assert(later[i - k] == events[i]);
                        }
                    }
                    assert(sweep::asked(s, events) =~= all);
                }
                if events.len() == all.len() && forall|i: int|
                    0 <= i < events.len() ==> done(all[i], #[trigger] events[i]) {
                    assert forall|i: int| 0 <= i < later.len() implies done(
                        everything(rest.skip(1))[i],
                        #[trigger] later[i],
                    ) by {
                        assert(later[i] == events[i + k]);
                        assert(all[i + k] == everything(rest.skip(1))[i]);
                    }
                }
            } else {
                assert(sweep::run(s, events) is None);
            }
        } else {
            if events.len() > 0 {
                let one = events.skip(1);
                if one.len() > 0 {
                    assert(one[0] == events[1]);
                }
            }
        }
    }
}

} // verus!
