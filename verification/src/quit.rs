//! Leaving on purpose: end the tree, leave it running, or reap what is idle and leave the rest.
//!
//! Ending the tree ends exactly the nodes the client confirmed it saw. A list that is missing one or
//! names one too many is refused before anything is written or signalled.
use vstd::prelude::*;

use crate::error;
use crate::error::{ErrorText, FailureKind, RpcError};
use crate::model;
use crate::model::{holds_id, AgentId, NodeState, ReapState, Registry, ReplayedNode};
use crate::order;
use crate::order::sorted_texts;
use crate::paths;
use crate::paths::socket_path;
use crate::records::{Fact, ProcessExit, RecordKind};
use crate::residency;
use crate::residency::{active, SupervisorDisposition};
use crate::sweep;
use crate::sweep::{Aim, Sweep, Target};
use crate::text;
use crate::text::{cat3, cat5, debug_list_text, signed_text};

verus! {

/// What a leaving client wants done.
#[derive(Debug)]
pub enum QuitDisposition {
    /// End every node; `confirmed` is the list the client was shown.
    KillTree { confirmed: Vec<AgentId> },
    DetachAll,
    ReapIdleDetachBusy,
}

/// How to come back, and how to stop what was left running.
#[derive(Debug)]
pub struct DetachGuidance {
    pub reattach: String,
    pub stop_fleet: String,
}

/// A node that was ended, and what it was doing.
#[derive(Debug)]
pub struct KilledNode {
    pub agent_id: AgentId,
    pub was: NodeState,
}

/// What a quit did.
#[derive(Debug)]
pub enum QuitOutcome {
    Killed { nodes: Vec<KilledNode>, supervisor: SupervisorDisposition },
    Detached {
        detached: Vec<AgentId>,
        gate_exposed: Vec<AgentId>,
        guidance: DetachGuidance,
        supervisor: SupervisorDisposition,
    },
    ReapedAndDetached {
        reaped: Vec<AgentId>,
        detached: Vec<AgentId>,
        gate_exposed: Vec<AgentId>,
        guidance: DetachGuidance,
        supervisor: SupervisorDisposition,
    },
}

// -------------------------------------------------------------------------------------------------
// Coming back
// -------------------------------------------------------------------------------------------------

/// How to come back, around the socket.
pub const REATTACH: (&'static str, &'static str) = (
    "Reconnect to ",
    " and call tree/subscribe. Until then, any named gate_exposed node that reaches a permission \
    request burns its bound and is denied unattended; the far side receives an is_error:true \
    tool_result (§7.3.2, §11 item 22, S9).",
);

/// How to stop what was left running, around the socket.
pub const STOP_FLEET: (&'static str, &'static str) = (
    "Reconnect to ",
    " and call session/quit with KillTree confirmed against a fresh tree/subscribe render.",
);

/// Said after the way back where idle nodes were reaped.
pub const RESUMABLE: &'static str = " Nodes named in `reaped` are ReapedIdle, retain their \
    transcripts and ownership, and are resumable.";

/// `g` is the way back to the supervisor whose journal is `journal`.
pub open spec fn guides(g: DetachGuidance, journal: Seq<char>) -> bool {
    let socket = paths::socket_beside(journal);
    &&& g.reattach@ == REATTACH.0@ + socket + REATTACH.1@
    &&& g.stop_fleet@ == STOP_FLEET.0@ + socket + STOP_FLEET.1@
}

/// The way back.
pub fn guidance(journal: &str) -> (g: DetachGuidance)
    ensures
        guides(g, journal@),
{
    let socket = socket_path(journal);
    DetachGuidance {
        reattach: cat3(REATTACH.0, socket.as_str(), REATTACH.1),
        stop_fleet: cat3(STOP_FLEET.0, socket.as_str(), STOP_FLEET.1),
    }
}

/// `o` leaves everything of `reg` running: every node that is somebody's agent still is named, and
/// exposed to what it may ask for unattended.
pub open spec fn is_detached(o: QuitOutcome, reg: Registry) -> bool {
    o matches QuitOutcome::Detached { detached, gate_exposed, guidance, supervisor } && {
        &&& model::id_texts(detached@) == residency::active_ids(reg.nodes@)
        &&& model::id_texts(gate_exposed@) == residency::active_ids(reg.nodes@)
        &&& guides(guidance, reg.path@)
        &&& supervisor == residency::disposition_of(residency::residency_of(reg))
    }
}

/// Leave everything running.
pub fn detach_all(reg: &Registry) -> (o: QuitOutcome)
    ensures
        is_detached(o, *reg),
{
    let detached = active(&reg.nodes);
    let gate_exposed = active(&reg.nodes);
    let supervisor = crate::residency::disposition(crate::residency::residency(reg));
    QuitOutcome::Detached {
        detached,
        gate_exposed,
        guidance: guidance(reg.path.as_str()),
        supervisor,
    }
}

// -------------------------------------------------------------------------------------------------
// Ending the tree
// -------------------------------------------------------------------------------------------------

/// The nodes that have not ended, in journal order.
pub open spec fn unfinished(nodes: Seq<ReplayedNode>) -> Seq<ReplayedNode> {
    nodes.filter(|n: ReplayedNode| !(n.state is Exited))
}

/// The ids of some nodes, in order.
pub open spec fn node_ids(nodes: Seq<ReplayedNode>) -> Seq<Seq<char>> {
    nodes.map_values(|n: ReplayedNode| n.agent_id@)
}

/// Said where the confirmed list is not the current one, around the two.
pub const STALE_LIST: (&'static str, &'static str, &'static str) = (
    "the confirmed kill list does not equal the supervisor's current non-terminal set; confirmed ",
    ", current ",
    ". Nothing was signalled. Render the list again and confirm that exact set (§7.3.2).",
);

/// The confirmed list is not the current one. Both are shown in order.
pub open spec fn stale_list(stated: Seq<Seq<char>>, current: Seq<Seq<char>>) -> ErrorText {
    error::refused_text(
        "confirmed"@,
        STALE_LIST.0@ + text::debug_list(order::in_order(stated)) + STALE_LIST.1@
            + text::debug_list(order::in_order(current)) + STALE_LIST.2@,
        "§7.3.2"@,
    )
}

/// Said of a confirmed node whose process is not known.
pub const NO_PID: &'static str = "the confirmed node has no recorded PID yet, so marion cannot prove \
    a signal reaches it. Nothing was signalled; retry after its spawn resolves.";

/// Said of a node that was signalled and not seen dead, around its id.
pub const KILL_UNOBSERVED: (&'static str, &'static str) = (
    "marion journaled the kill intent for `",
    "` and signalled its per-node process tree, but could not observe its PID dead; the intent \
    remains unconfirmed and the supervisor will not exit (§6.7, §5.7)",
);

/// How a node that was signalled is recorded to have ended.
pub const KILLED: &'static str = "marion sent SIGKILL for confirmed session/quit KillTree";

/// How a node without a process is recorded to have ended.
pub const RETIRED: &'static str = "confirmed session/quit retired an already ReapedIdle node; no \
    process existed to signal";

/// A node has a process to signal.
pub open spec fn has_process(n: ReplayedNode) -> bool {
    n.reap_state != ReapState::ReapedIdle
}

/// What ending a node takes: a node that was already reaped is retired without a signal.
pub open spec fn kill_aim(n: ReplayedNode) -> Aim {
    Aim {
        agent: n.agent_id@,
        was: n.state,
        signal: if has_process(n) {
            n.pid
        } else {
            None
        },
        intent: Fact::KillIntent { agent: n.agent_id@, was: n.state },
        confirmation: Fact::KillConfirmed {
            agent: n.agent_id@,
            code: None,
            signal: if has_process(n) {
                Some(9i32)
            } else {
                None
            },
            description: if has_process(n) {
                KILLED@
            } else {
                RETIRED@
            },
        },
        unobserved: KILL_UNOBSERVED.0@ + n.agent_id@ + KILL_UNOBSERVED.1@,
    }
}

/// A node that has a process and no recorded pid.
pub open spec fn unreachable_node(n: ReplayedNode) -> bool {
    has_process(n) && n.pid is None
}

/// The first of `nodes` from `i` on that has `p`.
pub open spec fn first_with(
    nodes: Seq<ReplayedNode>,
    p: spec_fn(ReplayedNode) -> bool,
    i: int,
) -> Option<ReplayedNode>
    decreases nodes.len() - i,
{
    if i < 0 || i >= nodes.len() {
        None
    } else if p(nodes[i]) {
        Some(nodes[i])
    } else {
        first_with(nodes, p, i + 1)
    }
}

/// Why the tree is not ended, where it is not: the list is not the current one, or a node on it
/// cannot be reached by a signal.
pub open spec fn kill_refusal(
    nodes: Seq<ReplayedNode>,
    confirmed: Seq<Seq<char>>,
) -> Option<ErrorText> {
    let targets = unfinished(nodes);
    if order::in_order(node_ids(targets)) != order::in_order(confirmed) {
        Some(stale_list(confirmed, node_ids(targets)))
    } else {
        match first_with(targets, |n: ReplayedNode| unreachable_node(n), 0) {
            Some(n) => Some(
                error::error_text(
                    FailureKind::Conflict,
                    n.agent_id@,
                    NO_PID@,
                    "§6.7, §7.3.2"@,
                ),
            ),
            None => None,
        }
    }
}

/// What ending the tree takes, node by node in journal order.
pub open spec fn kill_aims(nodes: Seq<ReplayedNode>) -> Seq<Aim> {
    unfinished(nodes).map_values(|n: ReplayedNode| kill_aim(n))
}

/// The ids' texts, as strings.
fn id_strings(ids: &Vec<AgentId>) -> (v: Vec<String>)
    ensures
        text::texts(v@) == model::id_texts(ids@),
{
    let mut v: Vec<String> = Vec::new();
    let mut i: usize = 0;
    while i < ids.len()
        invariant
            i <= ids.len(),
            v@.len() == i,
            forall|k: int| 0 <= k < i ==> (#[trigger] v@[k])@ == ids@[k]@,
        decreases ids.len() - i,
    {
        v.push(ids[i].0.clone());
        i = i + 1;
    }
    assert(text::texts(v@) =~= model::id_texts(ids@));
    v
}

/// Whether two lists hold the same texts in the same order.
fn same_texts(a: &Vec<String>, b: &Vec<String>) -> (r: bool)
    ensures
        r == (text::texts(a@) == text::texts(b@)),
{
    if a.len() != b.len() {
        assert(text::texts(a@).len() != text::texts(b@).len());
        return false;
    }
    let mut i: usize = 0;
    while i < a.len()
        invariant
            i <= a.len(),
            a@.len() == b@.len(),
            forall|k: int| 0 <= k < i ==> (#[trigger] a@[k])@ == b@[k]@,
        decreases a.len() - i,
    {
        if a[i] != b[i] {
            proof {
                assert(text::texts(a@)[i as int] != text::texts(b@)[i as int]);
            }
            return false;
        }
        i = i + 1;
    }
    assert(text::texts(a@) =~= text::texts(b@));
    true
}

/// One more node looked at by a filter.
proof fn lemma_filter_step(
    nodes: Seq<ReplayedNode>,
    i: int,
    p: spec_fn(ReplayedNode) -> bool,
)
    requires
        0 <= i < nodes.len(),
    ensures
        nodes.take(i + 1).filter(p) == (if p(nodes[i]) {
            nodes.take(i).filter(p).push(nodes[i])
        } else {
            nodes.take(i).filter(p)
        }),
{
    reveal(Seq::filter);
    assert(nodes.take(i + 1).drop_last() =~= nodes.take(i));
    assert(nodes.take(i + 1).last() == nodes[i]);
}

/// The same search over a longer list finds the same node, or the new last one.
proof fn lemma_first_with_push(
    nodes: Seq<ReplayedNode>,
    n: ReplayedNode,
    p: spec_fn(ReplayedNode) -> bool,
    i: int,
)
    requires
        0 <= i <= nodes.len(),
    ensures
        first_with(nodes.push(n), p, i) == (match first_with(nodes, p, i) {
            Some(x) => Some(x),
            None => if p(n) {
                Some(n)
            } else {
                None
            },
        }),
    decreases nodes.len() - i,
{
    if i < nodes.len() {
        assert(nodes.push(n)[i] == nodes[i]);
        if !p(nodes[i]) {
            lemma_first_with_push(nodes, n, p, i + 1);
        }
    } else {
        assert(nodes.push(n)[i] == n);
        assert(first_with(nodes.push(n), p, i + 1) is None);
    }
}

/// The confirmation of an ended node.
fn killed_record(id: &AgentId, signalled: bool) -> (r: RecordKind)
    ensures
        r@ == (Fact::KillConfirmed {
            agent: id@,
            code: None,
            signal: if signalled {
                Some(9i32)
            } else {
                None
            },
            description: if signalled {
                KILLED@
            } else {
                RETIRED@
            },
        }),
{
    let description = if signalled {
        KILLED.to_string()
    } else {
        RETIRED.to_string()
    };
    RecordKind::KillConfirmed {
        agent_id: id.clone(),
        exit: ProcessExit {
            code: None,
            signal: if signalled {
                Some(9)
            } else {
                None
            },
            description,
        },
    }
}

/// Begin to end the tree. The confirmed list must hold exactly the nodes that have not ended, each
/// once; only then is there a sweep over them, in journal order.
pub fn kill_tree(nodes: &Vec<ReplayedNode>, confirmed: &Vec<AgentId>) -> (r: Result<
    Sweep,
    RpcError,
>)
    ensures
        match kill_refusal(nodes@, model::id_texts(confirmed@)) {
            Some(t) => r matches Err(e) && e@ == t,
            None => {
                &&& r matches Ok(s)
                &&& s.wf()
                &&& s@ == sweep::started(kill_aims(nodes@))
            },
        },
{
    let ghost p = |n: ReplayedNode| !(n.state is Exited);
    let ghost lost = |n: ReplayedNode| unreachable_node(n);
    let mut expected: Vec<String> = Vec::new();
    let mut targets: Vec<Target> = Vec::new();
    let mut stuck: Option<usize> = None;
    let mut i: usize = 0;
    proof {
        reveal(Seq::filter);
        assert(nodes@.take(0) =~= Seq::<ReplayedNode>::empty());
        assert(nodes@.take(0).filter(p) =~= Seq::<ReplayedNode>::empty());
        assert(text::texts(expected@) =~= node_ids(nodes@.take(0).filter(p)));
        assert(sweep::aims(targets@) =~= nodes@.take(0).filter(p).map_values(
            |n: ReplayedNode| kill_aim(n),
        ));
    }
    while i < nodes.len()
        invariant
            i <= nodes.len(),
            p == (|n: ReplayedNode| !(n.state is Exited)),
            lost == (|n: ReplayedNode| unreachable_node(n)),
            text::texts(expected@) == node_ids(nodes@.take(i as int).filter(p)),
            sweep::aims(targets@) == nodes@.take(i as int).filter(p).map_values(
                |n: ReplayedNode| kill_aim(n),
            ),
            match stuck {
                Some(k) => k < i && first_with(nodes@.take(i as int).filter(p), lost, 0) == Some(
                    nodes@[k as int],
                ),
                None => first_with(nodes@.take(i as int).filter(p), lost, 0) is None,
            },
        decreases nodes.len() - i,
    {
        let n = &nodes[i];
        let ghost seen = nodes@.take(i as int).filter(p);
        proof {
            lemma_filter_step(nodes@, i as int, p);
            lemma_first_with_push(seen, *n, lost, 0);
        }
        if !n.state.is_exited() {
            let ghost texts_before = text::texts(expected@);
            let ghost aims_before = sweep::aims(targets@);
            expected.push(n.agent_id.0.clone());
            let signalled = n.reap_state != ReapState::ReapedIdle;
            let signal: Option<i32> = if signalled {
                n.pid
            } else {
                None
            };
            if signalled && n.pid.is_none() && stuck.is_none() {
                stuck = Some(i);
            }
            targets.push(
                Target {
                    agent_id: n.agent_id.clone(),
                    was: n.state,
                    signal,
                    intent: RecordKind::KillIntent { agent_id: n.agent_id.clone(), was: n.state },
                    confirmation: killed_record(&n.agent_id, signalled),
                    unobserved: cat3(
                        KILL_UNOBSERVED.0,
                        n.agent_id.0.as_str(),
                        KILL_UNOBSERVED.1,
                    ),
                },
            );
            proof {
                assert(text::texts(expected@) =~= texts_before.push(n.agent_id@));
                assert(sweep::aims(targets@) =~= aims_before.push(kill_aim(*n)));
                assert(node_ids(seen.push(*n)) =~= node_ids(seen).push(n.agent_id@));
                assert(seen.push(*n).map_values(|n: ReplayedNode| kill_aim(n))
                    =~= seen.map_values(|n: ReplayedNode| kill_aim(n)).push(kill_aim(*n)));
            }
        }
        i = i + 1;
    }
    assert(nodes@.take(i as int) =~= nodes@);
    let expected = sorted_texts(&expected);
    let stated = sorted_texts(&id_strings(confirmed));
    if !same_texts(&expected, &stated) {
        let shown = debug_list_text(&stated);
        let current = debug_list_text(&expected);
        let message = cat5(
            STALE_LIST.0,
            shown.as_str(),
            STALE_LIST.1,
            current.as_str(),
            STALE_LIST.2,
        );
        return Err(RpcError::refused("confirmed", message, "§7.3.2"));
    }
    if let Some(k) = stuck {
        return Err(
            RpcError::conflict(
                nodes[k].agent_id.0.as_str(),
                NO_PID.to_string(),
                "§6.7, §7.3.2",
            ),
        );
    }
    Ok(Sweep::new(targets))
}

/// The nodes a finished sweep ended, and what each was doing.
pub fn killed_outcome(s: &Sweep) -> (o: QuitOutcome)
    requires
        s.wf(),
        s@.step() is None,
    ensures
        o matches QuitOutcome::Killed { nodes, supervisor } && {
            &&& supervisor == SupervisorDisposition::Exiting
            &&& nodes@.len() == s@.aims.len()
            &&& forall|k: int|
                0 <= k < nodes@.len() ==> (#[trigger] nodes@[k]).agent_id@ == s@.aims[k].agent
                    && nodes@[k].was == s@.aims[k].was
        },
{
    let mut nodes: Vec<KilledNode> = Vec::new();
    let mut i: usize = 0;
    while i < s.targets.len()
        invariant
            i <= s.targets.len(),
            nodes@.len() == i,
            forall|k: int|
                0 <= k < i ==> (#[trigger] nodes@[k]).agent_id@ == s@.aims[k].agent && nodes@[k].was
                    == s@.aims[k].was,
        decreases s.targets.len() - i,
    {
        assert(s@.aims[i as int] == s.targets@[i as int]@);
        nodes.push(
            KilledNode { agent_id: s.targets[i].agent_id.clone(), was: s.targets[i].was },
        );
        i = i + 1;
    }
    QuitOutcome::Killed { nodes, supervisor: SupervisorDisposition::Exiting }
}

// -------------------------------------------------------------------------------------------------
// Reaping what is idle
// -------------------------------------------------------------------------------------------------

/// An idle root whose channel is held and which nobody is reaping already. A child is never reaped:
/// its parent waits for what it will say.
pub open spec fn reapable(n: ReplayedNode) -> bool {
    &&& n.state is Idle
    &&& n.reap_state == ReapState::Live
    &&& !n.reap_intent
    &&& n.parent() is None
}

/// Said of an idle node whose process is not known.
pub const IDLE_NO_PID: &'static str = "the idle node has no recorded PID, so marion cannot perform \
    and confirm §7.2's reap without inventing an observation. Nothing was reaped.";

/// Why an idle node is reaped.
pub const REAP_REASON: &'static str = "session/quit reaped an idle node before detaching busy work";

/// Said of a node that was signalled and not seen dead, around its id and its process.
pub const REAP_UNOBSERVED: (&'static str, &'static str, &'static str) = (
    "marion journaled the reap intent for `",
    "` and signalled its per-node process tree, but could not observe PID ",
    " dead; the intent remains unconfirmed and the supervisor will not exit (§7.2, §5.7)",
);

/// What reaping a node takes.
pub open spec fn reap_aim(n: ReplayedNode) -> Aim {
    Aim {
        agent: n.agent_id@,
        was: n.state,
        signal: n.pid,
        intent: Fact::ReapIntent { agent: n.agent_id@, reason: REAP_REASON@ },
        confirmation: Fact::ReapConfirmed { agent: n.agent_id@ },
        unobserved: REAP_UNOBSERVED.0@ + n.agent_id@ + REAP_UNOBSERVED.1@ + text::signed_decimal(
            n.pid->0 as int,
        ) + REAP_UNOBSERVED.2@,
    }
}

/// The nodes to reap, in journal order.
pub open spec fn to_reap(nodes: Seq<ReplayedNode>) -> Seq<ReplayedNode> {
    nodes.filter(|n: ReplayedNode| reapable(n))
}

/// The nodes that are left running, in journal order.
pub open spec fn left_running(nodes: Seq<ReplayedNode>) -> Seq<ReplayedNode> {
    nodes.filter(
        |n: ReplayedNode| n.is_active() && !node_ids(to_reap(nodes)).contains(n.agent_id@),
    )
}

/// A reap that has begun: the sweep, and who is named in the answer.
#[derive(Debug)]
pub struct Reaping {
    pub sweep: Sweep,
    pub reaped: Vec<AgentId>,
    pub detached: Vec<AgentId>,
}

/// Why nothing is reaped, where nothing is: one of the idle roots cannot be reached by a signal.
pub open spec fn reap_refusal(nodes: Seq<ReplayedNode>) -> Option<ErrorText> {
    match first_with(to_reap(nodes), |n: ReplayedNode| n.pid is None, 0) {
        Some(n) => Some(
            error::error_text(FailureKind::Conflict, n.agent_id@, IDLE_NO_PID@, "§7.2"@),
        ),
        None => None,
    }
}

/// `reaping` is the reap of the idle roots of `nodes`, which has not begun.
pub open spec fn is_reaping(reaping: Reaping, nodes: Seq<ReplayedNode>) -> bool {
    &&& reaping.sweep.wf()
    &&& reaping.sweep@ == sweep::started(
        to_reap(nodes).map_values(|n: ReplayedNode| reap_aim(n)),
    )
    &&& model::id_texts(reaping.reaped@) == node_ids(to_reap(nodes))
    &&& model::id_texts(reaping.detached@) == node_ids(left_running(nodes))
}

/// Begin to reap the idle roots. Where one of them cannot be reached by a signal nothing is reaped.
pub fn reap_idle_detach_busy(nodes: &Vec<ReplayedNode>) -> (r: Result<Reaping, RpcError>)
    ensures
        match reap_refusal(nodes@) {
            Some(t) => r matches Err(e) && e@ == t,
            None => r matches Ok(reaping) && is_reaping(reaping, nodes@),
        },
{
    let ghost p = |n: ReplayedNode| reapable(n);
    let ghost lost = |n: ReplayedNode| n.pid is None;
    let mut reaped: Vec<AgentId> = Vec::new();
    let mut targets: Vec<Target> = Vec::new();
    let mut stuck: Option<usize> = None;
    let mut i: usize = 0;
    proof {
        reveal(Seq::filter);
        assert(nodes@.take(0) =~= Seq::<ReplayedNode>::empty());
        assert(nodes@.take(0).filter(p) =~= Seq::<ReplayedNode>::empty());
        assert(model::id_texts(reaped@) =~= node_ids(nodes@.take(0).filter(p)));
        assert(sweep::aims(targets@) =~= nodes@.take(0).filter(p).map_values(
            |n: ReplayedNode| reap_aim(n),
        ));
    }
    while i < nodes.len()
        invariant
            i <= nodes.len(),
            p == (|n: ReplayedNode| reapable(n)),
            lost == (|n: ReplayedNode| n.pid is None),
            model::id_texts(reaped@) == node_ids(nodes@.take(i as int).filter(p)),
            match stuck {
                Some(k) => k < i && first_with(nodes@.take(i as int).filter(p), lost, 0) == Some(
                    nodes@[k as int],
                ),
                None => first_with(nodes@.take(i as int).filter(p), lost, 0) is None
                    && sweep::aims(targets@) == nodes@.take(i as int).filter(p).map_values(
                    |n: ReplayedNode| reap_aim(n),
                ),
            },
        decreases nodes.len() - i,
    {
        let n = &nodes[i];
        let ghost seen = nodes@.take(i as int).filter(p);
        proof {
            lemma_filter_step(nodes@, i as int, p);
            lemma_first_with_push(seen, *n, lost, 0);
        }
        let idle = match n.state {
            NodeState::Idle => true,
            _ => false,
        };
        if idle && n.reap_state == ReapState::Live && !n.reap_intent && n.is_parentless() {
            let ghost ids_before = model::id_texts(reaped@);
            let ghost aims_before = sweep::aims(targets@);
            reaped.push(n.agent_id.clone());
            match n.pid {
                Some(pid) => {
                    let process = signed_text(pid);
                    let unobserved = cat5(
                        REAP_UNOBSERVED.0,
                        n.agent_id.0.as_str(),
                        REAP_UNOBSERVED.1,
                        process.as_str(),
                        REAP_UNOBSERVED.2,
                    );
                    targets.push(
                        Target {
                            agent_id: n.agent_id.clone(),
                            was: n.state,
                            signal: Some(pid),
                            intent: RecordKind::ReapIntent {
                                agent_id: n.agent_id.clone(),
                                reason: REAP_REASON.to_string(),
                            },
                            confirmation: RecordKind::ReapConfirmed { agent_id: n.agent_id.clone() },
                            unobserved,
                        },
                    );
                    assert(sweep::aims(targets@) =~= aims_before.push(reap_aim(*n)));
                },
                None => {
                    if stuck.is_none() {
                        stuck = Some(i);
                    }
                },
            }
            proof {
                assert(model::id_texts(reaped@) =~= ids_before.push(n.agent_id@));
                assert(node_ids(seen.push(*n)) =~= node_ids(seen).push(n.agent_id@));
                assert(seen.push(*n).map_values(|n: ReplayedNode| reap_aim(n))
                    =~= seen.map_values(|n: ReplayedNode| reap_aim(n)).push(reap_aim(*n)));
            }
        }
        i = i + 1;
    }
    assert(nodes@.take(i as int) =~= nodes@);
    if let Some(k) = stuck {
        return Err(
            RpcError::conflict(nodes[k].agent_id.0.as_str(), IDLE_NO_PID.to_string(), "§7.2"),
        );
    }
    let detached = busy(nodes, &reaped);
    Ok(Reaping { sweep: Sweep::new(targets), reaped, detached })
}

/// The nodes that are somebody's agent still and are not being reaped.
fn busy(nodes: &Vec<ReplayedNode>, reaped: &Vec<AgentId>) -> (ids: Vec<AgentId>)
    ensures
        model::id_texts(ids@) == node_ids(
            nodes@.filter(
                |n: ReplayedNode|
                    n.is_active() && !model::id_texts(reaped@).contains(n.agent_id@),
            ),
        ),
{
    let ghost p = |n: ReplayedNode|
        n.is_active() && !model::id_texts(reaped@).contains(n.agent_id@);
    let mut ids: Vec<AgentId> = Vec::new();
    let mut i: usize = 0;
    proof {
        reveal(Seq::filter);
        assert(nodes@.take(0) =~= Seq::<ReplayedNode>::empty());
        assert(nodes@.take(0).filter(p) =~= Seq::<ReplayedNode>::empty());
        assert(model::id_texts(ids@) =~= node_ids(nodes@.take(0).filter(p)));
    }
    while i < nodes.len()
        invariant
            i <= nodes.len(),
            p == (|n: ReplayedNode|
                n.is_active() && !model::id_texts(reaped@).contains(n.agent_id@)),
            model::id_texts(ids@) == node_ids(nodes@.take(i as int).filter(p)),
        decreases nodes.len() - i,
    {
        let n = &nodes[i];
        let ghost seen = nodes@.take(i as int).filter(p);
        proof {
            lemma_filter_step(nodes@, i as int, p);
        }
        if !n.state.is_exited() && n.reap_state == ReapState::Live && !holds_id(
            reaped,
            &n.agent_id,
        ) {
            let ghost before = model::id_texts(ids@);
            ids.push(n.agent_id.clone());
            proof {
                assert(model::id_texts(ids@) =~= before.push(n.agent_id@));
                assert(node_ids(seen.push(*n)) =~= node_ids(seen).push(n.agent_id@));
            }
        }
        i = i + 1;
    }
    assert(nodes@.take(i as int) =~= nodes@);
    ids
}

/// `o` is what a finished reap did, answered from `reg`.
pub open spec fn is_reaped(o: QuitOutcome, reaping: Reaping, reg: Registry) -> bool {
    o matches QuitOutcome::ReapedAndDetached {
        reaped,
        detached,
        gate_exposed,
        guidance,
        supervisor,
    } && {
        let socket = paths::socket_beside(reg.path@);
        &&& reaped == reaping.reaped
        &&& detached == reaping.detached
        &&& model::id_texts(gate_exposed@) == model::id_texts(reaping.detached@)
        &&& guidance.reattach@ == REATTACH.0@ + socket + REATTACH.1@ + RESUMABLE@
        &&& guidance.stop_fleet@ == STOP_FLEET.0@ + socket + STOP_FLEET.1@
        &&& supervisor == residency::disposition_of(residency::residency_of(reg))
    }
}

/// What a finished reap did. `reg` is the registry once it has seen the reaped nodes' records; what
/// holds the supervisor is read from it.
pub fn reaped_outcome(reaping: Reaping, reg: &Registry) -> (o: QuitOutcome)
    requires
        reaping.sweep.wf(),
        reaping.sweep@.step() is None,
    ensures
        is_reaped(o, reaping, *reg),
{
    let supervisor = crate::residency::disposition(crate::residency::residency(reg));
    let mut guidance = guidance(reg.path.as_str());
    guidance.reattach.append(RESUMABLE);
    let mut gate_exposed: Vec<AgentId> = Vec::new();
    let mut i: usize = 0;
    while i < reaping.detached.len()
        invariant
            i <= reaping.detached.len(),
            gate_exposed@.len() == i,
            forall|k: int| 0 <= k < i ==> (#[trigger] gate_exposed@[k])@ == reaping.detached@[k]@,
        decreases reaping.detached.len() - i,
    {
        gate_exposed.push(reaping.detached[i].clone());
        i = i + 1;
    }
    assert(model::id_texts(gate_exposed@) =~= model::id_texts(reaping.detached@));
    QuitOutcome::ReapedAndDetached {
        reaped: reaping.reaped,
        detached: reaping.detached,
        gate_exposed,
        guidance,
        supervisor,
    }
}

/// The tree is ended only over a list that holds exactly the nodes that have not ended, each as
/// often, in whatever order it was confirmed; any other list is refused as stale.
pub proof fn law_only_the_exact_list_ends_the_tree(
    nodes: Seq<ReplayedNode>,
    confirmed: Seq<Seq<char>>,
)
    ensures
        kill_refusal(nodes, confirmed) == Some(
            stale_list(confirmed, node_ids(unfinished(nodes))),
        ) <== confirmed.to_multiset() != node_ids(unfinished(nodes)).to_multiset(),
        kill_refusal(nodes, confirmed) is None ==> {
            &&& confirmed.to_multiset() == node_ids(unfinished(nodes)).to_multiset()
            &&& forall|i: int|
                0 <= i < unfinished(nodes).len() && has_process(#[trigger] unfinished(nodes)[i])
                    ==> unfinished(nodes)[i].pid is Some
        },
{
    order::lemma_in_order_identifies_multisets(node_ids(unfinished(nodes)), confirmed);
    let targets = unfinished(nodes);
    let lost = |n: ReplayedNode| unreachable_node(n);
    lemma_first_with_none(targets, lost, 0);
    if kill_refusal(nodes, confirmed) is None {
        assert forall|i: int| 0 <= i < targets.len() && has_process(#[trigger] targets[i]) implies
        targets[i].pid is Some by {
            assert(!lost(targets[i]));
        }
    }
}

/// Where none is found none has it.
proof fn lemma_first_with_none(
    nodes: Seq<ReplayedNode>,
    p: spec_fn(ReplayedNode) -> bool,
    i: int,
)
    requires
        0 <= i <= nodes.len(),
    ensures
        first_with(nodes, p, i) is None ==> forall|k: int|
            i <= k < nodes.len() ==> !p(#[trigger] nodes[k]),
    decreases nodes.len() - i,
{
    if i < nodes.len() && !p(nodes[i]) {
        lemma_first_with_none(nodes, p, i + 1);
    }
}

/// Only an idle root whose channel is held is ever reaped; a reaped node is not named among those
/// left running; and every node that is somebody's agent still is named in one of the two.
pub proof fn law_a_reap_spares_whoever_is_busy(nodes: Seq<ReplayedNode>)
    ensures
        forall|i: int|
            0 <= i < to_reap(nodes).len() ==> (#[trigger] to_reap(nodes)[i]).state is Idle
                && to_reap(nodes)[i].reap_state == ReapState::Live && to_reap(nodes)[i].parent()
                is None,
        forall|id: Seq<char>|
            (#[trigger] node_ids(to_reap(nodes)).contains(id)) ==> !node_ids(
                left_running(nodes),
            ).contains(id),
        forall|i: int|
            0 <= i < nodes.len() && (#[trigger] nodes[i]).is_active() ==> node_ids(
                to_reap(nodes),
            ).contains(nodes[i].agent_id@) || node_ids(left_running(nodes)).contains(
                nodes[i].agent_id@,
            ),
{
    broadcast use vstd::seq_lib::group_filter_ensures;

    let p = |n: ReplayedNode| reapable(n);
    let reaped = node_ids(to_reap(nodes));
    let q = |n: ReplayedNode| n.is_active() && !reaped.contains(n.agent_id@);
    assert(left_running(nodes) == nodes.filter(q));
    let left = left_running(nodes);
    assert forall|i: int| 0 <= i < to_reap(nodes).len() implies (
    #[trigger] to_reap(nodes)[i]).state is Idle && to_reap(nodes)[i].reap_state == ReapState::Live
        && to_reap(nodes)[i].parent() is None by {
        assert(p(to_reap(nodes)[i]));
    }
    assert forall|id: Seq<char>| (#[trigger] reaped.contains(id)) implies !node_ids(left).contains(
        id,
    ) by {
        if node_ids(left).contains(id) {
            let k = choose|k: int| 0 <= k < node_ids(left).len() && node_ids(left)[k] == id;
            assert(q(left[k]));
        }
    }
    assert forall|i: int| 0 <= i < nodes.len() && (#[trigger] nodes[i]).is_active() implies
    reaped.contains(nodes[i].agent_id@) || node_ids(left).contains(nodes[i].agent_id@) by {
        if !reaped.contains(nodes[i].agent_id@) {
            assert(q(nodes[i]));
            assert(left.contains(nodes[i]));
            let k = choose|k: int| 0 <= k < left.len() && left[k] == nodes[i];
            assert(node_ids(left)[k] == nodes[i].agent_id@);
        }
    }
}

/// Whoever leaves is told the one socket beside the journal, to come back to and to stop what runs;
/// two ways back that say the same lead to one socket.
pub proof fn law_the_way_back_leads_to_the_socket(
    g: DetachGuidance,
    h: DetachGuidance,
    a: Seq<char>,
    b: Seq<char>,
)
    requires
        guides(g, a),
        guides(h, b),
    ensures
        g.reattach@ == h.reattach@ <==> paths::socket_beside(a) == paths::socket_beside(b),
        g.stop_fleet@ == h.stop_fleet@ <==> paths::socket_beside(a) == paths::socket_beside(b),
        g.reattach@ == "Reconnect to "@ + paths::socket_beside(a) + REATTACH.1@,
        g.stop_fleet@ == "Reconnect to "@ + paths::socket_beside(a) + STOP_FLEET.1@,
{
    let x = paths::socket_beside(a);
    let y = paths::socket_beside(b);
    lemma_between(REATTACH.0@, x, y, REATTACH.1@);
    lemma_between(STOP_FLEET.0@, x, y, STOP_FLEET.1@);
}

/// What stands between two texts is read off what they make together.
proof fn lemma_between(p: Seq<char>, x: Seq<char>, y: Seq<char>, q: Seq<char>)
    ensures
        p + x + q == p + y + q ==> x == y,
{
    let s = p + x + q;
    let t = p + y + q;
    assert(s.subrange(p.len() as int, s.len() - q.len()) =~= x);
    assert(t.subrange(p.len() as int, t.len() - q.len()) =~= y);
}

} // verus!
