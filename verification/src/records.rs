//! What the supervisor writes into the journal.
use vstd::prelude::*;

use crate::model::{AgentId, ExitStatus, NodeState, SpawnIntent};

verus! {

/// How a process ended.
#[derive(Debug, Clone)]
pub struct ProcessExit {
    pub code: Option<i32>,
    pub signal: Option<i32>,
    pub description: String,
}

/// A process that exists.
#[derive(Debug, Clone)]
pub struct Spawned {
    pub agent_id: AgentId,
    pub harness_version: String,
    pub model: Option<String>,
    pub pid: Option<i32>,
    pub start_id: Option<String>,
}

/// One fact, as it is journaled.
#[derive(Debug, Clone)]
pub enum RecordKind {
    SpawnIntent(SpawnIntent),
    Spawned(Spawned),
    StateChanged { agent_id: AgentId, state: NodeState },
    Exited { agent_id: AgentId, status: ExitStatus, exit: ProcessExit },
    KillIntent { agent_id: AgentId, was: NodeState },
    KillConfirmed { agent_id: AgentId, exit: ProcessExit },
    ReapIntent { agent_id: AgentId, reason: String },
    ReapConfirmed { agent_id: AgentId },
    PermissionDenied { agent_id: AgentId, tool: String, reason: String },
    SupervisorExited,
}

/// The facts a quit and a resume write, as contracts speak of them.
pub enum Fact {
    KillIntent { agent: Seq<char>, was: NodeState },
    KillConfirmed {
        agent: Seq<char>,
        code: Option<i32>,
        signal: Option<i32>,
        description: Seq<char>,
    },
    ReapIntent { agent: Seq<char>, reason: Seq<char> },
    ReapConfirmed { agent: Seq<char> },
    StateChanged { agent: Seq<char>, state: NodeState },
    PermissionDenied { agent: Seq<char>, tool: Seq<char>, reason: Seq<char> },
    SupervisorExited,
    /// A fact about a spawn or an exit, which others write.
    Other(RecordKind),
}

impl View for RecordKind {
    type V = Fact;

    open spec fn view(&self) -> Fact {
        match *self {
            RecordKind::KillIntent { agent_id, was } => Fact::KillIntent { agent: agent_id@, was },
            RecordKind::KillConfirmed { agent_id, exit } => Fact::KillConfirmed {
                agent: agent_id@,
                code: exit.code,
                signal: exit.signal,
                description: exit.description@,
            },
            RecordKind::ReapIntent { agent_id, reason } => Fact::ReapIntent {
                agent: agent_id@,
                reason: reason@,
            },
            RecordKind::ReapConfirmed { agent_id } => Fact::ReapConfirmed { agent: agent_id@ },
            RecordKind::StateChanged { agent_id, state } => Fact::StateChanged {
                agent: agent_id@,
                state,
            },
            RecordKind::PermissionDenied { agent_id, tool, reason } => Fact::PermissionDenied {
                agent: agent_id@,
                tool: tool@,
                reason: reason@,
            },
            RecordKind::SupervisorExited => Fact::SupervisorExited,
            other => Fact::Other(other),
        }
    }
}

/// A fact is what the record says in so many words: its kind, whom it is about, and everything it
/// carries.
pub proof fn law_a_fact_is_what_its_record_says(k: RecordKind)
    ensures
        k@ is KillIntent ==> k is KillIntent && k@->KillIntent_agent == k->KillIntent_agent_id@
            && k@->KillIntent_was == k->KillIntent_was,
        k@ is KillConfirmed ==> {
            &&& k is KillConfirmed
            &&& k@->KillConfirmed_agent == k->KillConfirmed_agent_id@
            &&& k@->KillConfirmed_code == k->KillConfirmed_exit.code
            &&& k@->KillConfirmed_signal == k->KillConfirmed_exit.signal
            &&& k@->KillConfirmed_description == k->KillConfirmed_exit.description@
        },
        k@ is ReapIntent ==> k is ReapIntent && k@->ReapIntent_agent == k->ReapIntent_agent_id@
            && k@->ReapIntent_reason == k->ReapIntent_reason@,
        k@ is ReapConfirmed ==> k is ReapConfirmed && k@->ReapConfirmed_agent
            == k->ReapConfirmed_agent_id@,
        k@ is StateChanged ==> k is StateChanged && k@->StateChanged_agent
            == k->StateChanged_agent_id@ && k@->StateChanged_state == k->StateChanged_state,
        k@ is PermissionDenied ==> {
            &&& k is PermissionDenied
            &&& k@->PermissionDenied_agent == k->PermissionDenied_agent_id@
            &&& k@->PermissionDenied_tool == k->PermissionDenied_tool@
            &&& k@->PermissionDenied_reason == k->PermissionDenied_reason@
        },
        k@ is SupervisorExited <==> k is SupervisorExited,
        k@ is Other ==> k@->Other_0 == k,
{
}

} // verus!
