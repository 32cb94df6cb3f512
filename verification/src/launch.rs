//! Waiting for a node that is being launched.
//!
//! The node's own thread tells the call that started it three things in order: the node has an
//! identity, a process exists, the run has returned. The call waits for the first two and no longer
//! than [`LAUNCH_BOUND_SECS`] for both; giving up says nothing about the node.
use vstd::prelude::*;

use crate::caller;
use crate::caller::spawn_refused_before_the_node_existed;
use crate::error;
use crate::error::{ErrorText, FailureKind, RpcError};
use crate::model;
use crate::model::{AgentId, NodeState, Registry};
use crate::nodes::{NodeOutcome, NodeHandle, NodeRows, Nodes};
use crate::table;
use crate::text;
use crate::text::{cat3, cat4, cat5, decimal_text};

verus! {

/// How long a launch is waited for, in seconds.
pub const LAUNCH_BOUND_SECS: u64 = 60;

/// What a node's thread tells the call that started it.
#[derive(Debug)]
pub enum Progress {
    /// The node has an identity and its intent is durable.
    Identified(AgentId),
    /// A process exists and is journaled.
    Started,
    /// The run has returned, whichever way.
    Finished,
}

/// What a wait brought: a message, or nothing before the bound.
#[derive(Debug)]
pub enum Waited {
    Heard(Progress),
    Expired,
}

/// The two kinds of node that are launched.
#[derive(Debug, Clone, Copy, PartialEq, Eq, Structural)]
pub enum LaunchKind {
    Child,
    Root,
}

/// Said where a thread filed no reason.
pub const NO_REASON: &'static str = "marion's own thread for it filed no reason, which is itself the \
    fault to report";

/// The reason a launch failure is reported with.
pub open spec fn failure_reason(why: Option<Seq<char>>) -> Seq<char> {
    match why {
        Some(w) => w,
        None => NO_REASON@,
    }
}

/// The contents of an optional borrowed text.
pub open spec fn borrowed(why: Option<&str>) -> Option<Seq<char>> {
    match why {
        Some(w) => Some(w@),
        None => None,
    }
}

/// The sentence a launch failure is reported with: the thread's own, or an honest statement that it
/// filed none.
pub fn launch_failed_reason(why: Option<&str>) -> (s: String)
    ensures
        s@ == failure_reason(borrowed(why)),
{
    match why {
        Some(w) => w.to_string(),
        None => NO_REASON.to_string(),
    }
}

/// Said of a child whose launch failed, around its id and the reason.
pub const CHILD_FAILED: (&'static str, &'static str, &'static str) = (
    "node `",
    "` was journaled and its launch failed before any process existed: ",
    ". Its `SpawnIntent` is resolved by a `SpawnAborted` beside it, which after §11 item 28 step 1 \
    is evidence that **no process exists**, not merely consistent with it (§7.2). A worktree may be \
    left behind; a process is not.",
);

/// Said of a root whose launch failed, around its id and before the reason.
pub const ROOT_FAILED: (&'static str, &'static str) = (
    "root `",
    "` was journaled and its launch failed before any process existed: ",
);

/// A node's launch failed between its identity and its process.
pub open spec fn launch_failed(
    kind: LaunchKind,
    id: Seq<char>,
    why: Option<Seq<char>>,
) -> ErrorText {
    error::error_text(
        FailureKind::Internal,
        id,
        match kind {
            LaunchKind::Child => CHILD_FAILED.0@ + id + CHILD_FAILED.1@ + failure_reason(why)
                + CHILD_FAILED.2@,
            LaunchKind::Root => ROOT_FAILED.0@ + id + ROOT_FAILED.1@ + failure_reason(why),
        },
        "§7.2"@,
    )
}

/// A child's launch failed between its intent and its process, and this is why.
pub fn spawn_failed_before_the_process_existed(agent_id: &AgentId, why: Option<&str>) -> (e:
    RpcError)
    ensures
        e@ == launch_failed(LaunchKind::Child, agent_id@, borrowed(why)),
{
    let reason = launch_failed_reason(why);
    let message = cat5(
        CHILD_FAILED.0,
        agent_id.0.as_str(),
        CHILD_FAILED.1,
        reason.as_str(),
        CHILD_FAILED.2,
    );
    RpcError::about(FailureKind::Internal, agent_id.0.as_str(), message, "§7.2")
}

/// A root's launch failed between its intent and its process, and this is why.
pub fn root_launch_failed(agent_id: &AgentId, why: Option<&str>) -> (e: RpcError)
    ensures
        e@ == launch_failed(LaunchKind::Root, agent_id@, borrowed(why)),
{
    let reason = launch_failed_reason(why);
    let message = cat4(ROOT_FAILED.0, agent_id.0.as_str(), ROOT_FAILED.1, reason.as_str());
    RpcError::about(FailureKind::Internal, agent_id.0.as_str(), message, "§7.2")
}

/// Said where the bound passed, around what was started and the bound.
pub const BOUND_EXPIRED: (&'static str, &'static str, &'static str) = (
    "marion started ",
    " and did not observe a process within ",
    "s, so it stopped holding this call. **This is not a statement that the spawn failed**: the \
    node's thread is still running, the supervisor still owns it, and its own wall clock still \
    bounds it. Watch it through `tree/subscribe` and `node/attach`; a `SpawnAborted` or a `Spawned` \
    will say which way it went.",
);

/// The bound passed. Never a verdict on the node.
pub open spec fn bound_expired(id: Option<Seq<char>>) -> ErrorText {
    ErrorText {
        kind: FailureKind::Internal,
        subject: id,
        message: BOUND_EXPIRED.0@ + (match id {
            Some(i) => "node `"@ + i + "`"@,
            None => "this spawn"@,
        }) + BOUND_EXPIRED.1@ + text::decimal(LAUNCH_BOUND_SECS as nat) + BOUND_EXPIRED.2@,
        citation: Some("§6.1"@),
    }
}

/// [`bound_expired`], as an answer.
pub fn launch_bound_expired(agent_id: Option<&AgentId>) -> (e: RpcError)
    ensures
        e@ == bound_expired(
            match agent_id {
                Some(i) => Some(i@),
                None => None,
            },
        ),
{
    let subject = match agent_id {
        Some(id) => cat3("node `", id.0.as_str(), "`"),
        None => "this spawn".to_string(),
    };
    let bound = decimal_text(LAUNCH_BOUND_SECS);
    let message = cat5(
        BOUND_EXPIRED.0,
        subject.as_str(),
        BOUND_EXPIRED.1,
        bound.as_str(),
        BOUND_EXPIRED.2,
    );
    match agent_id {
        Some(id) => RpcError::of(FailureKind::Internal, Some(id.0.as_str()), message, "§6.1"),
        None => RpcError::of(FailureKind::Internal, None, message, "§6.1"),
    }
}

/// A launch's first wait: the node's id, or the refusal that it never had one. Anything but an
/// identity means the launch was refused before it minted one.
pub fn await_identified(w: Waited) -> (r: Result<AgentId, RpcError>)
    ensures
        match w {
            Waited::Heard(Progress::Identified(id)) => r matches Ok(got) && got == id,
            Waited::Heard(_) => r matches Err(e) && e@ == caller::no_node(),
            Waited::Expired => r matches Err(e) && e@ == bound_expired(None),
        },
{
    match w {
        Waited::Heard(Progress::Identified(id)) => Ok(id),
        Waited::Heard(_) => Err(spawn_refused_before_the_node_existed()),
        Waited::Expired => Err(launch_bound_expired(None)),
    }
}

/// Why a node's run failed, as its thread filed it.
pub open spec fn filed_reason(rows: NodeRows, id: Seq<char>) -> Option<Seq<char>> {
    match table::value(rows, id) {
        Some(h) => match h.outcome {
            Some(outcome) => outcome.failure(),
            None => None,
        },
        None => None,
    }
}

impl Nodes {
    /// The launch's identity is known: its thread is parked under it. Nothing is parked where there
    /// is none.
    pub fn launch_identified(&mut self, w: Waited, join: u64) -> (r: Result<AgentId, RpcError>)
        requires
            old(self).wf(),
        ensures
            final(self).wf(),
            match w {
                Waited::Heard(Progress::Identified(id)) => {
                    &&& r matches Ok(got)
                    &&& got == id
                    &&& final(self)@ == (match table::value(old(self)@, id@) {
                        Some(h) => table::put(
                            old(self)@,
                            id@,
                            NodeHandle { join: Some(join), ..h },
                        ),
                        None => old(self)@,
                    })
                },
                Waited::Heard(_) => {
                    &&& r matches Err(e)
                    &&& e@ == caller::no_node()
                    &&& final(self)@ == old(self)@
                },
                Waited::Expired => {
                    &&& r matches Err(e)
                    &&& e@ == bound_expired(None)
                    &&& final(self)@ == old(self)@
                },
            },
    {
        let id = match await_identified(w) {
            Ok(id) => id,
            Err(e) => {
                return Err(e);
            },
        };
        self.file_join(&id, join);
        Ok(id)
    }

    /// A launch's second wait: a process exists, or the reason there is none. A failure quotes the
    /// reason the thread filed before it said it had returned.
    pub fn await_started(&self, kind: LaunchKind, w: Waited, agent_id: &AgentId) -> (r: Result<
        (),
        RpcError,
    >)
        requires
            self.wf(),
        ensures
            match w {
                Waited::Heard(Progress::Started) => r is Ok,
                Waited::Heard(_) => r matches Err(e) && e@ == launch_failed(
                    kind,
                    agent_id@,
                    filed_reason(self@, agent_id@),
                ),
                Waited::Expired => r matches Err(e) && e@ == bound_expired(Some(agent_id@)),
            },
    {
        match w {
            Waited::Heard(Progress::Started) => Ok(()),
            Waited::Heard(_) => {
                let filed = self.owned_failure(agent_id);
                let why: Option<&str> = match &filed {
                    Some(s) => Some(s.as_str()),
                    None => None,
                };
                Err(
                    match kind {
                        LaunchKind::Child => spawn_failed_before_the_process_existed(
                            agent_id,
                            why,
                        ),
                        LaunchKind::Root => root_launch_failed(agent_id, why),
                    },
                )
            },
            Waited::Expired => Err(launch_bound_expired(Some(agent_id))),
        }
    }
}

/// The state a launch answers with.
pub open spec fn answered_state(reg: Registry, id: Seq<char>) -> NodeState {
    match reg.node(id) {
        Some(n) => n.state,
        None => NodeState::Spawning,
    }
}

/// The state a launch answers with, read back off the registry rather than asserted.
pub fn spawned_state(reg: &Registry, agent_id: &AgentId) -> (s: NodeState)
    ensures
        s == answered_state(*reg, agent_id@),
{
    match reg.get(agent_id) {
        Some(n) => n.state,
        None => NodeState::Spawning,
    }
}

/// A launch answers with the state that the journal has of the node, and with `Spawning` where the
/// journal has none of it yet.
pub proof fn law_a_launch_answers_the_journals_state(reg: Registry, id: Seq<char>)
    ensures
        (forall|i: int| 0 <= i < reg.nodes@.len() ==> (#[trigger] reg.nodes@[i]).agent_id@ != id)
            ==> answered_state(reg, id) is Spawning,
        forall|i: int| #[trigger]
            model::is_first_of(reg.nodes@, id, i) ==> answered_state(reg, id)
                == reg.nodes@[i].state,
{
    model::law_a_node_is_found_by_its_id(reg, id);
}

/// The reason a failed launch is reported with is the one its own thread filed, child or root; where
/// none was filed, or the run was clean or is not over, there is none.
pub proof fn law_a_launch_fails_for_its_own_reason(rows: NodeRows, i: int)
    requires
        table::distinct(rows),
        0 <= i < rows.len(),
    ensures
        filed_reason(rows, rows[i].0) == (match rows[i].1.outcome {
            Some(NodeOutcome::Child(Err(why))) => Some(why@),
            Some(NodeOutcome::Root(Err(why))) => Some(why@),
            Some(NodeOutcome::Child(Ok(_))) => None,
            Some(NodeOutcome::Root(Ok(_))) => None,
            None => None,
        }),
        forall|kind: LaunchKind, why: Option<Seq<char>>|
            (#[trigger] launch_failed(kind, rows[i].0, why)).kind == FailureKind::Internal
                && launch_failed(kind, rows[i].0, why).subject == Some(rows[i].0),
{
    table::law_an_id_holds_what_its_row_says(rows, rows[i].0);
}

/// A bound that passed says nothing against the node: it is the supervisor's own word, about the node
/// where it is known and about nobody where it is not.
pub proof fn law_a_bound_that_passed_is_no_verdict(id: Seq<char>)
    ensures
        bound_expired(None).kind == FailureKind::Internal,
        bound_expired(None).subject is None,
        bound_expired(Some(id)).kind == FailureKind::Internal,
        bound_expired(Some(id)).subject == Some(id),
{
}

} // verus!
