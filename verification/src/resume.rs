//! Bringing a lost node back under its own id.
//!
//! A lost session is relaunched, never reopened, through the same launchers a spawn uses. The node's
//! fate must be decided, its stream must have named a session, and its old process must be provably
//! gone: a second process is never started against a transcript a first may still be writing.
use vstd::prelude::*;

use crate::caller;
use crate::caller::{blocked_bound_secs, recorded_type, spawn_refused_before_the_node_existed};
use crate::error;
use crate::error::{ErrorText, FailureKind, RpcError};
use crate::model;
use crate::model::{
    AgentId, AgentType, AgentTypes, Isolation, NodeState, ReapState, Registry, ReplayedNode, SpawnIntent,
    TaskId, Workspace,
};
use crate::paths;
use crate::paths::resumable_root_cwd;
use crate::quit_laws;
use crate::records::{Fact, ProcessExit, RecordKind};
use crate::residency;
use crate::residency::live_children_of;
use crate::spawn;
use crate::spawn::{
    root_spawn_authorized, Caller, ChildResume, Env, Peer, RootSpec, SpawnRequest,
};
use crate::sweep;
use crate::sweep::{Aim, Step, Sweep, SweepAction, SweepEvent, SweepModel, Target};
use crate::text::{cat3, cat5, cat7};

verus! {

/// What the outside says about a resume before it is decided.
#[derive(Debug)]
pub struct ResumeFacts {
    /// The supervisor is not being dropped.
    pub alive: bool,
    pub peer: Peer,
    pub own_uid: u32,
}

/// Whether a recorded process is still running.
#[derive(Debug, Clone, Copy, PartialEq, Eq, Structural)]
pub enum Resolution {
    /// It is, and it is the node's.
    AliveAndOurs,
    /// A process wears its pid and nothing settles whether it is the same one.
    CannotTell,
    Gone,
}

/// Said where the supervisor is being dropped.
pub const BEING_DROPPED: &'static str = "this supervisor is being dropped and will not relaunch a \
    node it could not own";

/// Said by a handle that has nothing to run nodes in.
pub const DESCRIBES_ONLY: &'static str = "this handle describes nodes and owns none, so there is no \
    environment to relaunch one in. A detached supervisor built by `RegistryHandle::owning` serves \
    this.";

/// Said of a node that is not recorded, around its id.
pub const NOT_RECORDED: (&'static str, &'static str) = (
    "no node `",
    "` is on this project's journal, so there is nothing to resume.",
);

/// Said of a node with no intent, around its id.
pub const NO_INTENT: (&'static str, &'static str) = (
    "`",
    "` has records on this journal but no `SpawnIntent`, so marion cannot say what it was — its \
    type, its harness, or where it sat in the tree. Refused by name rather than relaunched as a \
    guess.",
);

/// Said of a node that is live, around its id and its state.
pub const STILL_LIVE: (&'static str, &'static str, &'static str) = (
    "`",
    "` is still live (",
    "); marion holds its channel, so a new turn is `node/prompt` and reaching it is `node/attach`. \
    Resume relaunches a node whose process is gone, never one that is running.",
);

/// Said of a node that named no session, around its id.
pub const NO_SESSION: (&'static str, &'static str) = (
    "`",
    "` named no harness session — its stream never carried one, or it ran on a harness marion reads \
    no session from — so marion cannot hand a resume back to the harness. Refused by name rather \
    than started fresh under a resumed session's id, which would misdescribe the run.",
);

/// Said where the old process may still be running.
pub const CANNOT_TELL: &'static str = "marion cannot prove `node`'s recorded process is gone — a \
    process wears its PID and no recorded identity settles whether it is the same one — so it will \
    not start a second process that might run against a transcript a first is still writing. Nothing \
    was signalled or launched.";

/// Said where the old process was signalled and not seen dead, around the node's id.
pub const SURVIVOR_UNOBSERVED: (&'static str, &'static str) = (
    "`",
    "` was still running its own process and marion journaled the intent to kill it before resuming, \
    but could not observe its PID dead; the intent remains unconfirmed and marion will not start a \
    second process against one transcript (§6.7, §8)",
);

/// How the old process is recorded to have ended.
pub const SURVIVOR_KILLED: &'static str = "marion sent SIGKILL to the surviving process before \
    resuming its node";

/// Why a node is not brought back, where it is not, before its process is looked at.
pub open spec fn resume_refusal(
    facts: ResumeFacts,
    has_env: bool,
    reg: Registry,
    id: Seq<char>,
) -> Option<ErrorText> {
    if spawn::peer_refusal(facts.peer, facts.own_uid) is Some {
        spawn::peer_refusal(facts.peer, facts.own_uid)
    } else if !facts.alive {
        Some(error::internal_text(BEING_DROPPED@))
    } else if !has_env {
        Some(
            error::error_text(
                FailureKind::Unimplemented,
                "node/resume"@,
                DESCRIBES_ONLY@,
                "§2"@,
            ),
        )
    } else {
        match reg.node(id) {
            None => Some(
                error::refused_text(
                    "agent_id"@,
                    NOT_RECORDED.0@ + id + NOT_RECORDED.1@,
                    "§2, §7.2"@,
                ),
            ),
            Some(node) => if node.intent is None {
                Some(
                    error::refused_text(
                        "agent_id"@,
                        NO_INTENT.0@ + id + NO_INTENT.1@,
                        "§4.3, §7.2"@,
                    ),
                )
            } else if !node.decided() {
                Some(
                    error::refused_text(
                        "agent_id"@,
                        STILL_LIVE.0@ + id + STILL_LIVE.1@ + node.state.name() + STILL_LIVE.2@,
                        "§8, §7.2"@,
                    ),
                )
            } else if node.harness_session is None {
                Some(
                    error::refused_text(
                        "agent_id"@,
                        NO_SESSION.0@ + id + NO_SESSION.1@,
                        "§8"@,
                    ),
                )
            } else {
                None
            },
        }
    }
}

/// Decide whether a node may be brought back, before its process is looked at.
pub fn node_resume<'a>(
    facts: &ResumeFacts,
    has_env: bool,
    reg: &'a Registry,
    id: &AgentId,
) -> (r: Result<&'a ReplayedNode, RpcError>)
    ensures
        match resume_refusal(*facts, has_env, *reg, id@) {
            Some(t) => r matches Err(e) && e@ == t,
            None => r matches Ok(node) && reg.node(id@) == Some(*node),
        },
{
    if let Err(e) = root_spawn_authorized(facts.peer, facts.own_uid) {
        return Err(e);
    }
    if !facts.alive {
        return Err(RpcError::internal(BEING_DROPPED.to_string()));
    }
    if !has_env {
        return Err(RpcError::unimplemented("node/resume", DESCRIBES_ONLY.to_string(), "§2"));
    }
    let node = match reg.get(id) {
        Some(node) => node,
        None => {
            let message = cat3(NOT_RECORDED.0, id.0.as_str(), NOT_RECORDED.1);
            return Err(RpcError::refused("agent_id", message, "§2, §7.2"));
        },
    };
    if node.intent.is_none() {
        let message = cat3(NO_INTENT.0, id.0.as_str(), NO_INTENT.1);
        return Err(RpcError::refused("agent_id", message, "§4.3, §7.2"));
    }
    if !node.is_decided() {
        let message = cat5(
            STILL_LIVE.0,
            id.0.as_str(),
            STILL_LIVE.1,
            node.state.name_text(),
            STILL_LIVE.2,
        );
        return Err(RpcError::refused("agent_id", message, "§8, §7.2"));
    }
    if node.harness_session.is_none() {
        let message = cat3(NO_SESSION.0, id.0.as_str(), NO_SESSION.1);
        return Err(RpcError::refused("agent_id", message, "§8"));
    }
    Ok(node)
}

/// What ending a surviving process takes.
pub open spec fn survivor_aim(n: ReplayedNode, pid: i32) -> Aim {
    Aim {
        agent: n.agent_id@,
        was: n.state,
        signal: Some(pid),
        intent: Fact::KillIntent { agent: n.agent_id@, was: n.state },
        confirmation: Fact::KillConfirmed {
            agent: n.agent_id@,
            code: None,
            signal: Some(9i32),
            description: SURVIVOR_KILLED@,
        },
        unobserved: SURVIVOR_UNOBSERVED.0@ + n.agent_id@ + SURVIVOR_UNOBSERVED.1@,
    }
}

/// The process that has to end before the node is relaunched, where there is one.
pub open spec fn survivor(n: ReplayedNode, probed: Resolution) -> Option<i32> {
    if probed == Resolution::AliveAndOurs {
        n.pid
    } else {
        None
    }
}

/// What ending it takes.
pub open spec fn survivor_aims(n: ReplayedNode, probed: Resolution) -> Seq<Aim> {
    match survivor(n, probed) {
        Some(pid) => seq![survivor_aim(n, pid)],
        None => Seq::empty(),
    }
}

/// Nothing settles whether the recorded process is still the node's.
pub open spec fn undecidable(n: ReplayedNode, probed: Resolution) -> bool {
    n.pid is Some && probed == Resolution::CannotTell
}

/// A node whose process cannot be told apart is not relaunched.
pub open spec fn cannot_tell(id: Seq<char>) -> ErrorText {
    error::error_text(FailureKind::Conflict, id, CANNOT_TELL@, "§6.7, §8"@)
}

/// What has to end before the node is relaunched. `probed` is what was found under the recorded
/// pid; a node with none never had a process. A process that cannot be told apart is a refusal.
pub fn clear_survivor(node: &ReplayedNode, probed: Resolution) -> (r: Result<Sweep, RpcError>)
    ensures
        if undecidable(*node, probed) {
            r matches Err(e) && e@ == cannot_tell(node.agent_id@)
        } else {
            &&& r matches Ok(s)
            &&& s.wf()
            &&& s@ == sweep::started(survivor_aims(*node, probed))
        },
{
    let mut targets: Vec<Target> = Vec::new();
    if let Some(pid) = node.pid {
        match probed {
            Resolution::AliveAndOurs => {
                targets.push(
                    Target {
                        agent_id: node.agent_id.clone(),
                        was: node.state,
                        signal: Some(pid),
                        intent: RecordKind::KillIntent {
                            agent_id: node.agent_id.clone(),
                            was: node.state,
                        },
                        confirmation: RecordKind::KillConfirmed {
                            agent_id: node.agent_id.clone(),
                            exit: ProcessExit {
                                code: None,
                                signal: Some(9),
                                description: SURVIVOR_KILLED.to_string(),
                            },
                        },
                        unobserved: cat3(
                            SURVIVOR_UNOBSERVED.0,
                            node.agent_id.0.as_str(),
                            SURVIVOR_UNOBSERVED.1,
                        ),
                    },
                );
                assert(sweep::aims(targets@) =~= seq![survivor_aim(*node, pid)]);
                return Ok(Sweep::new(targets));
            },
            Resolution::CannotTell => {
                return Err(
                    RpcError::conflict(
                        node.agent_id.0.as_str(),
                        CANNOT_TELL.to_string(),
                        "§6.7, §8",
                    ),
                );
            },
            Resolution::Gone => {},
        }
    }
    assert(sweep::aims(targets@) =~= Seq::<Aim>::empty());
    Ok(Sweep::new(targets))
}

/// The type of a recorded node that has an intent.
pub open spec fn type_of_node(
    node: ReplayedNode,
    types: Result<AgentTypes, String>,
) -> Result<AgentType, ErrorText> {
    match node.intent {
        Some(intent) => caller::type_recorded(types, intent),
        None => Err(caller::no_node()),
    }
}

/// [`type_of_node`], as an answer.
fn node_type(node: &ReplayedNode, types: &Result<AgentTypes, String>) -> (r: Result<
    AgentType,
    RpcError,
>)
    ensures
        match type_of_node(*node, *types) {
            Ok(ty) => r matches Ok(got) && got == ty,
            Err(t) => r matches Err(e) && e@ == t,
        },
{
    match &node.intent {
        Some(intent) => recorded_type(types, intent),
        None => Err(spawn_refused_before_the_node_existed()),
    }
}

/// `spec` is the root `node` was, with its session handed back: its recorded model, shape and bound,
/// and its type's bound only where the journal recorded none.
pub open spec fn is_root_again(
    spec: RootSpec,
    node: ReplayedNode,
    env: Env,
    prompt: Seq<char>,
    repo: Seq<char>,
    ty: AgentType,
) -> bool {
    &&& node.intent is Some
    &&& spec.agent_type@ == node.intent->0.agent_type@
    &&& spec.prompt@ == prompt
    &&& spec.native_launch is None
    &&& spec.repo@ == repo
    &&& spec.state == env.state
    &&& spec.base_url == env.base_url
    &&& spec.bridge == env.bridge
    &&& spec.model == node.model
    &&& !spec.no_change_record
    &&& spec.auth == env.auth
    &&& spec.pane == node.harness_pane
    &&& node.harness_session matches Some(s)
    &&& spec.resume matches Some((id, session))
    &&& id@ == node.agent_id@
    &&& session@ == s@
    &&& spec.bound_secs == caller::root_bound(node.intent->0.timeout_secs, ty.timeout_secs)
}

/// Rebuild a root's launch from its journal.
fn relaunch_root(
    node: &ReplayedNode,
    env: &Env,
    prompt: &str,
    repo: &str,
    types: &Result<AgentTypes, String>,
) -> (r: Result<RootSpec, RpcError>)
    requires
        node.harness_session is Some,
    ensures
        match type_of_node(*node, *types) {
            Err(t) => r matches Err(e) && e@ == t,
            Ok(ty) => r matches Ok(spec) && is_root_again(spec, *node, *env, prompt@, repo@, ty),
        },
{
    let ty = match node_type(node, types) {
        Ok(ty) => ty,
        Err(e) => {
            return Err(e);
        },
    };
    let (agent_type, asked) = match &node.intent {
        Some(intent) => (intent.agent_type.clone(), intent.timeout_secs),
        None => (String::new(), None),
    };
    let session = match &node.harness_session {
        Some(s) => s.clone(),
        None => String::new(),
    };
    Ok(
        RootSpec {
            agent_type,
            prompt: prompt.to_string(),
            native_launch: None,
            repo: repo.to_string(),
            state: env.state.clone(),
            base_url: env.base_url.clone(),
            bridge: env.bridge.clone(),
            model: node.model.clone(),
            no_change_record: false,
            auth: env.auth,
            pane: node.harness_pane,
            resume: Some((node.agent_id.clone(), session)),
            bound_secs: blocked_bound_secs(asked, ty.timeout_secs),
        },
    )
}

/// Said of a child that names no parent, around its id.
pub const NO_PARENT: (&'static str, &'static str) = (
    "`",
    "` records a depth below the root and no parent, so marion cannot say whose child it is or what \
    gates its relaunch. Refused by name.",
);

/// Said of a child whose parent is not recorded, around the two ids.
pub const PARENT_UNRECORDED: (&'static str, &'static str, &'static str) = (
    "`",
    "` names `",
    "` as its parent and no such node is on this journal, so the relaunch would have no place in the \
    tree. Refused by name.",
);

/// Said of a child whose parent is live, around the two ids and the parent's state.
pub const PARENT_LIVE: (&'static str, &'static str, &'static str, &'static str) = (
    "`",
    "`'s parent `",
    "` is still live (",
    "); marion holds its channel and its own `spawn` owns this child, so the child's outcome is owed \
    to a call that is still waiting for it. A second process under one contract is what resume \
    exists not to do. Resume this child once its parent's fate is decided, or reach it through its \
    parent.",
);

/// Said of a child whose directory was not recorded, around its id.
pub const NO_WORKSPACE: (&'static str, &'static str) = (
    "`",
    "` is a child, and this journal does not record which directory it ran in — its session record \
    predates the field, or no frame ever named a session. A harness resumes a conversation only from \
    the tree that created it, so marion refuses by name rather than relaunching it somewhere the \
    session has never been.",
);

/// Said of a child whose directory is gone, around its id and the directory.
pub const WORKSPACE_GONE: (&'static str, &'static str, &'static str) = (
    "`",
    "` ran in ",
    ", and that tree no longer exists — a reap or a cleanup removed it. Its session id outlived its \
    workspace; handing the id back from anywhere else would start a fresh run wearing a resumed \
    node's name, so marion refuses by name instead.",
);

/// Said of a child with no task, around its id.
pub const NO_TASK: (&'static str, &'static str) = (
    "`",
    "` is a child with no task on its intent, so §9's contract for its second life would name \
    nothing. Refused by name.",
);

/// What the outside says about a child's relaunch.
#[derive(Debug)]
pub struct ChildFacts {
    /// The recorded directory is there.
    pub workspace_exists: bool,
    /// The agent types of the tree, as they were read for the parent.
    pub parent_types: Result<AgentTypes, String>,
    /// The agent types of the tree, as they were read for the child.
    pub types: Result<AgentTypes, String>,
}

/// Why a child is not relaunched, where it is not: its place in the tree is settled before anything
/// asks where it would run.
pub open spec fn child_refusal(
    node: ReplayedNode,
    reg: Registry,
    facts: ChildFacts,
) -> Option<ErrorText> {
    let id = node.agent_id@;
    match node.parent() {
        None => Some(
            error::refused_text("agent_id"@, NO_PARENT.0@ + id + NO_PARENT.1@, "§7.5"@),
        ),
        Some(parent_id) => match reg.node(parent_id) {
            None => Some(
                error::refused_text(
                    "agent_id"@,
                    PARENT_UNRECORDED.0@ + id + PARENT_UNRECORDED.1@ + parent_id
                        + PARENT_UNRECORDED.2@,
                    "§7.5"@,
                ),
            ),
            Some(parent) => if !parent.decided() {
                Some(
                    error::refused_text(
                        "agent_id"@,
                        PARENT_LIVE.0@ + id + PARENT_LIVE.1@ + parent_id + PARENT_LIVE.2@
                            + parent.state.name() + PARENT_LIVE.3@,
                        "§8, §7.2"@,
                    ),
                )
            } else {
                match node.launch_workspace {
                    None => Some(
                        error::refused_text(
                            "agent_id"@,
                            NO_WORKSPACE.0@ + id + NO_WORKSPACE.1@,
                            "§6.6, §8"@,
                        ),
                    ),
                    Some(workspace) => if !facts.workspace_exists {
                        Some(
                            error::refused_text(
                                "agent_id"@,
                                WORKSPACE_GONE.0@ + id + WORKSPACE_GONE.1@ + workspace.path_text()
                                    + WORKSPACE_GONE.2@,
                                "§6.6, §8"@,
                            ),
                        )
                    } else {
                        match type_of_node(parent, facts.parent_types) {
                            Err(t) => Some(t),
                            Ok(_) => match type_of_node(node, facts.types) {
                                Err(t) => Some(t),
                                Ok(_) => if node.intent->0.task_id is None {
                                    Some(
                                        error::refused_text(
                                            "agent_id"@,
                                            NO_TASK.0@ + id + NO_TASK.1@,
                                            "§9"@,
                                        ),
                                    )
                                } else {
                                    None
                                },
                            },
                        }
                    },
                }
            },
        },
    }
}

/// A child brought back: what it is launched as, under which contract and for which parent.
#[derive(Debug)]
pub struct ChildRelaunch {
    pub req: SpawnRequest,
    pub task_id: TaskId,
    pub caller: Caller,
}

/// The workspace a recorded one was.
pub open spec fn isolation_of(w: Workspace) -> Isolation {
    match w {
        Workspace::Worktree { .. } => Isolation::Worktree,
        Workspace::SharedCwd { .. } => Isolation::SharedCwd,
    }
}

/// `c` is the child `node` was, in the directory it ran in, under its own task and for its own
/// parent. What its journal does not hold is empty rather than invented.
pub open spec fn is_child_again(
    c: ChildRelaunch,
    node: ReplayedNode,
    reg: Registry,
    facts: ChildFacts,
    prompt: Seq<char>,
    repo: Seq<char>,
) -> bool {
    let parent_id = node.parent()->0;
    let parent = reg.node(parent_id)->0;
    let ty = type_of_node(node, facts.types)->Ok_0;
    let workspace = node.launch_workspace->0;
    &&& c.req.agent_type == ty.name
    &&& c.req.prompt@ == prompt
    &&& c.req.repo@ == repo
    &&& c.req.acceptance_criteria@ == Seq::<String>::empty()
    &&& c.req.verification@ == Seq::<String>::empty()
    &&& c.req.writable_scope@ == Seq::<String>::empty()
    &&& c.req.timeout_secs == ty.timeout_secs
    &&& c.req.model == node.model
    &&& c.req.isolation == isolation_of(workspace)
    &&& !c.req.allow_concurrent_writes
    &&& node.harness_session matches Some(s)
    &&& c.req.resume matches Some(resume)
    &&& resume.agent_id@ == node.agent_id@
    &&& resume.session@ == s@
    &&& resume.workspace == workspace
    &&& c.task_id == node.intent->0.task_id->0
    &&& c.caller.agent_id@ == parent_id
    &&& c.caller.agent_type == type_of_node(parent, facts.parent_types)->Ok_0
    &&& c.caller.depth == parent.intent->0.depth
    &&& c.caller.live_children == residency::saturated(
        residency::live_children(reg.nodes@, parent_id),
    )
}

/// Rebuild a child's launch from its journal.
fn relaunch_child(
    node: &ReplayedNode,
    reg: &Registry,
    prompt: &str,
    repo: &str,
    facts: &ChildFacts,
) -> (r: Result<ChildRelaunch, RpcError>)
    requires
        node.harness_session is Some,
    ensures
        match child_refusal(*node, *reg, *facts) {
            Some(t) => r matches Err(e) && e@ == t,
            None => r matches Ok(c) && is_child_again(c, *node, *reg, *facts, prompt@, repo@),
        },
{
    let id = node.agent_id.0.as_str();
    let parent_id = match &node.intent {
        Some(intent) => match &intent.parent_id {
            Some(p) => p,
            None => {
                let message = cat3(NO_PARENT.0, id, NO_PARENT.1);
                return Err(RpcError::refused("agent_id", message, "§7.5"));
            },
        },
        None => {
            let message = cat3(NO_PARENT.0, id, NO_PARENT.1);
            return Err(RpcError::refused("agent_id", message, "§7.5"));
        },
    };
    let parent = match reg.get(parent_id) {
        Some(parent) => parent,
        None => {
            let message = cat5(
                PARENT_UNRECORDED.0,
                id,
                PARENT_UNRECORDED.1,
                parent_id.0.as_str(),
                PARENT_UNRECORDED.2,
            );
            return Err(RpcError::refused("agent_id", message, "§7.5"));
        },
    };
    if !parent.is_decided() {
        let message = cat7(
            PARENT_LIVE.0,
            id,
            PARENT_LIVE.1,
            parent_id.0.as_str(),
            PARENT_LIVE.2,
            parent.state.name_text(),
            PARENT_LIVE.3,
        );
        return Err(RpcError::refused("agent_id", message, "§8, §7.2"));
    }
    let workspace = match &node.launch_workspace {
        Some(w) => w,
        None => {
            let message = cat3(NO_WORKSPACE.0, id, NO_WORKSPACE.1);
            return Err(RpcError::refused("agent_id", message, "§6.6, §8"));
        },
    };
    if !facts.workspace_exists {
        let message = cat5(
            WORKSPACE_GONE.0,
            id,
            WORKSPACE_GONE.1,
            workspace.path(),
            WORKSPACE_GONE.2,
        );
        return Err(RpcError::refused("agent_id", message, "§6.6, §8"));
    }
    let parent_type = match node_type(parent, &facts.parent_types) {
        Ok(ty) => ty,
        Err(e) => {
            return Err(e);
        },
    };
    let ty = match node_type(node, &facts.types) {
        Ok(ty) => ty,
        Err(e) => {
            return Err(e);
        },
    };
    let task_id: Option<TaskId> = match &node.intent {
        Some(intent) => intent.task_id.clone(),
        None => None,
    };
    let task_id = match task_id {
        Some(t) => t,
        None => {
            let message = cat3(NO_TASK.0, id, NO_TASK.1);
            return Err(RpcError::refused("agent_id", message, "§9"));
        },
    };
    let depth: u32 = match &parent.intent {
        Some(intent) => intent.depth,
        None => 0,
    };
    let session = match &node.harness_session {
        Some(s) => s.clone(),
        None => String::new(),
    };
    let caller = Caller {
        agent_id: parent_id.0.clone(),
        agent_type: parent_type,
        depth,
        live_children: live_children_of(reg, parent_id),
    };
    let isolation = match workspace {
        Workspace::Worktree { .. } => Isolation::Worktree,
        Workspace::SharedCwd { .. } => Isolation::SharedCwd,
    };
    let req = SpawnRequest {
        agent_type: ty.name,
        prompt: prompt.to_string(),
        repo: repo.to_string(),
        acceptance_criteria: Vec::new(),
        verification: Vec::new(),
        writable_scope: Vec::new(),
        timeout_secs: ty.timeout_secs,
        model: node.model.clone(),
        isolation,
        allow_concurrent_writes: false,
        resume: Some(
            ChildResume {
                agent_id: node.agent_id.clone(),
                session,
                workspace: workspace.clone(),
            },
        ),
    };
    Ok(ChildRelaunch { req, task_id, caller })
}

/// What a resume answers with.
#[derive(Debug)]
pub struct NodeResumeResult {
    pub agent_id: AgentId,
    pub state: NodeState,
    /// Which of the node's lives this is.
    pub spawn_generation: u32,
}

/// What a node is brought back as.
#[derive(Debug)]
pub enum Relaunch {
    Root(RootSpec),
    Child(ChildRelaunch),
}

/// Why a node is not relaunched, where it is not.
pub open spec fn relaunch_refusal(
    node: ReplayedNode,
    reg: Registry,
    facts: ChildFacts,
) -> Option<ErrorText> {
    if node.intent->0.depth == 0 {
        match type_of_node(node, facts.types) {
            Err(t) => Some(t),
            Ok(_) => None,
        }
    } else {
        child_refusal(node, reg, facts)
    }
}

/// `l` is what `node` was, in the project's working tree.
pub open spec fn is_again(
    l: Relaunch,
    node: ReplayedNode,
    reg: Registry,
    env: Env,
    prompt: Seq<char>,
    facts: ChildFacts,
) -> bool {
    let repo = paths::working_tree(env.project_root@);
    match l {
        Relaunch::Root(spec) => node.intent->0.depth == 0 && is_root_again(
            spec,
            node,
            env,
            prompt,
            repo,
            type_of_node(node, facts.types)->Ok_0,
        ),
        Relaunch::Child(c) => node.intent->0.depth != 0 && is_child_again(
            c,
            node,
            reg,
            facts,
            prompt,
            repo,
        ),
    }
}

/// A node being brought back: what is left of its old process ends, and only then is it launched.
#[derive(Debug)]
pub struct Resuming<'a> {
    pub node: &'a ReplayedNode,
    /// What was found under the recorded pid.
    pub probed: Resolution,
    /// The end of what was found.
    pub sweep: Sweep,
}

impl<'a> Resuming<'a> {
    /// The sweep is the one for this node and what was found of it, and the node can be relaunched.
    pub open spec fn wf(&self) -> bool {
        &&& self.sweep.wf()
        &&& self.sweep@.aims == survivor_aims(*self.node, self.probed)
        &&& !undecidable(*self.node, self.probed)
        &&& self.node.intent is Some
        &&& self.node.harness_session is Some
    }

    /// Nothing of the old process is left.
    pub open spec fn cleared(&self) -> bool {
        self.sweep@.step() is None
    }

    /// Begin with a node that [`node_resume`] let through. A process that cannot be told apart is a
    /// refusal, and nothing is signalled.
    pub fn begin(node: &'a ReplayedNode, probed: Resolution) -> (r: Result<Self, RpcError>)
        requires
            node.intent is Some,
            node.harness_session is Some,
        ensures
            if undecidable(*node, probed) {
                r matches Err(e) && e@ == cannot_tell(node.agent_id@)
            } else {
                &&& r matches Ok(s)
                &&& s.wf()
                &&& *s.node == *node
                &&& s.probed == probed
                &&& s.sweep@ == sweep::started(survivor_aims(*node, probed))
            },
    {
        match clear_survivor(node, probed) {
            Ok(sweep) => Ok(Resuming { node, probed, sweep }),
            Err(e) => Err(e),
        }
    }

    /// What is waited for before the launch. `None` where nothing is left of the old process.
    pub fn action(&self) -> (a: Option<SweepAction<'_>>)
        requires
            self.wf(),
        ensures
            match self.sweep@.step() {
                None => a is None,
                Some(Step::Append(fact)) => a matches Some(SweepAction::Append(kind)) && kind@
                    == fact,
                Some(Step::Kill(pid)) => a matches Some(SweepAction::Kill(p)) && p == pid,
            },
            (a is None) == self.cleared(),
    {
        self.sweep.action()
    }

    /// Take what came of the action. An error ends the resume, and nothing is launched.
    pub fn step(&mut self, e: SweepEvent) -> (r: Result<(), RpcError>)
        requires
            old(self).wf(),
            old(self).sweep@.expects(e),
        ensures
            final(self).wf(),
            *final(self).node == *old(self).node,
            final(self).probed == old(self).probed,
            match old(self).sweep@.after(e) {
                Ok(after) => r is Ok && final(self).sweep@ == after,
                Err(t) => {
                    &&& r matches Err(x)
                    &&& x@ == t
                    &&& final(self).sweep@ == old(self).sweep@
                },
            },
    {
        self.sweep.step(e)
    }

    /// Rebuild the node's launch from its journal, once nothing is left of its old process: its own
    /// depth says which of the two it is, and both run in the project's working tree.
    pub fn relaunch(&self, reg: &Registry, env: &Env, prompt: &str, facts: &ChildFacts) -> (r:
        Result<Relaunch, RpcError>)
        requires
            self.wf(),
            self.cleared(),
        ensures
            match relaunch_refusal(*self.node, *reg, *facts) {
                Some(t) => r matches Err(e) && e@ == t,
                None => r matches Ok(l) && is_again(l, *self.node, *reg, *env, prompt@, *facts),
            },
    {
        let node = self.node;
        let repo = resumable_root_cwd(env.project_root.as_str());
        let depth: u32 = match &node.intent {
            Some(intent) => intent.depth,
            None => 0,
        };
        if depth == 0 {
            match relaunch_root(node, env, prompt, repo.as_str(), &facts.types) {
                Ok(spec) => Ok(Relaunch::Root(spec)),
                Err(e) => Err(e),
            }
        } else {
            match relaunch_child(node, reg, prompt, repo.as_str(), facts) {
                Ok(c) => Ok(Relaunch::Child(c)),
                Err(e) => Err(e),
            }
        }
    }

    /// The life the launch began: the one after those the journal recorded.
    pub fn resumed(self, agent_id: AgentId, state: NodeState) -> (r: NodeResumeResult)
        requires
            self.wf(),
            self.cleared(),
            self.node.spawn_generation < u32::MAX,
        ensures
            r.agent_id == agent_id,
            r.state == state,
            r.spawn_generation == self.node.spawn_generation + 1,
    {
        NodeResumeResult { agent_id, state, spawn_generation: self.node.spawn_generation + 1 }
    }
}

/// A node is only ever brought back where its fate is decided, its identity is recorded and it named
/// a session.
pub proof fn law_a_live_node_is_never_resumed(
    facts: ResumeFacts,
    has_env: bool,
    reg: Registry,
    id: Seq<char>,
)
    requires
        resume_refusal(facts, has_env, reg, id) is None,
    ensures
        reg.node(id) matches Some(node) && node.decided() && node.intent is Some
            && node.harness_session is Some,
{
}

/// A relaunch keeps what the journal recorded of a root: its type, its model, its shape and the
/// bound it was started with, whatever its type has come to say since.
pub proof fn law_a_resumed_root_keeps_its_own_bound(
    spec: RootSpec,
    node: ReplayedNode,
    env: Env,
    prompt: Seq<char>,
    repo: Seq<char>,
    ty: AgentType,
)
    requires
        is_root_again(spec, node, env, prompt, repo, ty),
        node.intent->0.timeout_secs is Some,
    ensures
        spec.bound_secs == node.intent->0.timeout_secs->0,
        spec.agent_type@ == node.intent->0.agent_type@,
        spec.model == node.model,
        spec.pane == node.harness_pane,
{
}

/// A node is launched again only over nothing: where its recorded process is alive and its own, the
/// intent to end it was durable, then it was signalled and seen dead, then that was durable, each
/// once and in this order, and only then is a launch reached; where there is no such process,
/// nothing is written and nothing signalled.
pub proof fn law_nothing_is_launched_over_a_survivor(
    node: ReplayedNode,
    probed: Resolution,
    events: Seq<SweepEvent>,
    end: SweepModel,
)
    requires
        sweep::run(sweep::started(survivor_aims(node, probed)), events) == Some(end),
        end.step() is None,
    ensures
        match survivor(node, probed) {
            Some(pid) => {
                &&& events.len() == 3
                &&& events[0] matches SweepEvent::Appended(Ok(_))
                &&& events[1] == SweepEvent::Killed(true)
                &&& events[2] matches SweepEvent::Appended(Ok(_))
                &&& sweep::asked(sweep::started(survivor_aims(node, probed)), events) == seq![
                    Step::Append(Fact::KillIntent { agent: node.agent_id@, was: node.state }),
                    Step::Kill(pid),
                    Step::Append(survivor_aim(node, pid).confirmation),
                ]
            },
            None => {
                &&& events.len() == 0
                &&& sweep::asked(sweep::started(survivor_aims(node, probed)), events) == Seq::<
                    Step,
                >::empty()
            },
        },
{
    reveal_with_fuel(sweep::run, 5);
    reveal_with_fuel(sweep::asked, 5);
    let s = sweep::started(survivor_aims(node, probed));
    if survivor(node, probed) is Some {
        assert(s.aims.len() == 1);
        assert(events.len() > 0);
        let one = events.skip(1);
        assert(one.len() > 0);
        assert(one[0] == events[1]);
        let two = one.skip(1);
        assert(two.len() > 0);
        assert(two[0] == events[2]);
        let three = two.skip(1);
        assert(three.len() == 0);
        assert(sweep::asked(s, events) =~= seq![
            Step::Append(survivor_aim(node, survivor(node, probed)->0).intent),
            Step::Kill(survivor(node, probed)->0),
            Step::Append(survivor_aim(node, survivor(node, probed)->0).confirmation),
        ]);
    }
}

/// A node may be brought back exactly where the supervisor's own user asks, there is anything to run
/// it in, and the journal records the node with an intent and a session, and either as ended or as
/// one whose channel nobody holds.
pub proof fn law_a_node_is_brought_back_exactly_where_it_may_be(
    facts: ResumeFacts,
    has_env: bool,
    reg: Registry,
    id: Seq<char>,
)
    ensures
        resume_refusal(facts, has_env, reg, id) is None <==> {
            let nodes = reg.nodes@;
            &&& facts.peer == Peer::Uid(facts.own_uid)
            &&& facts.alive
            &&& has_env
            &&& exists|i: int|
                {
                    &&& #[trigger] model::is_first_of(nodes, id, i)
                    &&& nodes[i].intent is Some
                    &&& nodes[i].harness_session is Some
                    &&& nodes[i].state is Exited || nodes[i].reap_state == ReapState::Orphaned
                        || nodes[i].reap_state == ReapState::ReapedIdle
                }
        },
        facts.peer == Peer::Uid(facts.own_uid) && facts.alive && has_env
            && resume_refusal(facts, has_env, reg, id) is Some ==> resume_refusal(
            facts,
            has_env,
            reg,
            id,
        )->0.kind == FailureKind::Refused && resume_refusal(
            facts,
            has_env,
            reg,
            id,
        )->0.subject == Some("agent_id"@),
{
    model::law_a_node_is_found_by_its_id(reg, id);
    if reg.node(id) is Some {
        let i = choose|i: int| #[trigger] model::is_first_of(reg.nodes@, id, i);
        assert(reg.node(id) == Some(reg.nodes@[i]));
    }
}

/// What has to end before a node is relaunched: its recorded process, where that is found alive and
/// its own, whatever state the node is recorded in; nothing, where there is none or it is gone. A
/// process that cannot be told apart is neither: it is a conflict.
pub proof fn law_a_living_process_is_ended_before_its_node_returns(
    node: ReplayedNode,
    probed: Resolution,
)
    ensures
        node.pid is Some && probed == Resolution::AliveAndOurs ==> {
            let aims = survivor_aims(node, probed);
            &&& aims.len() == 1
            &&& aims[0].signal == node.pid
            &&& aims[0].agent == node.agent_id@
            &&& aims[0].intent == (Fact::KillIntent { agent: node.agent_id@, was: node.state })
            &&& aims[0].confirmation is KillConfirmed
            &&& aims[0].confirmation->KillConfirmed_agent == node.agent_id@
            &&& aims[0].confirmation->KillConfirmed_signal == Some(9i32)
        },
        node.pid is None || probed == Resolution::Gone ==> survivor_aims(
            node,
            probed,
        ).len() == 0,
        undecidable(node, probed) <==> node.pid is Some && probed == Resolution::CannotTell,
        cannot_tell(node.agent_id@).kind == FailureKind::Conflict,
        cannot_tell(node.agent_id@).subject == Some(node.agent_id@),
{
}

/// A launch is reached over a living process only once its end was asked for by its own pid and seen:
/// its intent durable, then the signal answered by its death, then its confirmation durable, and
/// nothing else; where there is no such process it is reached at once.
pub proof fn law_a_launch_is_reached_only_over_a_dead_process(
    node: ReplayedNode,
    probed: Resolution,
    events: Seq<SweepEvent>,
)
    requires
        !(node.pid is Some && probed == Resolution::CannotTell),
    ensures
        ({
            let s = sweep::started(survivor_aims(node, probed));
            let reached = sweep::run(s, events) matches Some(end) && end.step() is None;
            &&& node.pid is Some && probed == Resolution::AliveAndOurs ==> {
                &&& reached <==> {
                    &&& events.len() == 3
                    &&& events[0] matches SweepEvent::Appended(Ok(_))
                    &&& events[1] == SweepEvent::Killed(true)
                    &&& events[2] matches SweepEvent::Appended(Ok(_))
                }
                &&& reached ==> {
                    let asked = sweep::asked(s, events);
                    &&& asked.len() == 3
                    &&& asked[0] == Step::Append(
                        Fact::KillIntent { agent: node.agent_id@, was: node.state },
                    )
                    &&& asked[1] == Step::Kill(node.pid->0)
                    &&& asked[2] is Append
                }
            }
            &&& node.pid is None || probed == Resolution::Gone ==> (reached <==> events.len() == 0)
        }),
{
    let aims = survivor_aims(node, probed);
    quit_laws::law_a_finished_sweep_has_ended_every_target(aims, events);
    reveal_with_fuel(quit_laws::everything, 3);
    let all = quit_laws::everything(aims);
    if node.pid is Some && probed == Resolution::AliveAndOurs {
        let a = survivor_aim(node, node.pid->0);
        assert(aims =~= seq![a]);
        assert(aims.skip(1) =~= Seq::empty());
        assert(all =~= seq![
            Step::Append(a.intent),
            Step::Kill(node.pid->0),
            Step::Append(a.confirmation),
        ]);
        if events.len() == 3 {
            let good = forall|i: int|
                0 <= i < events.len() ==> quit_laws::done(all[i], #[trigger] events[i]);
            if good {
                assert(quit_laws::done(all[0], events[0]));
                assert(quit_laws::done(all[1], events[1]));
                assert(quit_laws::done(all[2], events[2]));
            }
            if (events[0] matches SweepEvent::Appended(Ok(_))) && events[1] == SweepEvent::Killed(
                true,
            ) && (events[2] matches SweepEvent::Appended(Ok(_))) {
                assert forall|i: int| 0 <= i < events.len() implies quit_laws::done(
                    all[i],
                    #[trigger] events[i],
                ) by {
                    assert(i == 0 || i == 1 || i == 2);
                }
            }
        }
    } else {
        assert(aims =~= Seq::empty());
        assert(all =~= Seq::empty());
    }
}

/// A root comes back as itself: under its own id and session, with what the journal recorded of it,
/// and in the project's working tree; its type's bound stands in only where none was recorded.
pub proof fn law_a_root_comes_back_as_itself(
    l: Relaunch,
    node: ReplayedNode,
    reg: Registry,
    env: Env,
    prompt: Seq<char>,
    facts: ChildFacts,
)
    requires
        node.intent is Some,
        node.intent->0.depth == 0,
        relaunch_refusal(node, reg, facts) is None,
        is_again(l, node, reg, env, prompt, facts),
    ensures
        l is Root,
        facts.types is Ok,
        facts.types->Ok_0.named(node.intent->0.agent_type@) is Some,
        ({
            let spec = l->Root_0;
            let ty = facts.types->Ok_0.named(node.intent->0.agent_type@)->0;
            let (who, session) = spec.resume->0;
            &&& ty.harness@ == node.intent->0.harness@
            &&& spec.agent_type@ == node.intent->0.agent_type@
            &&& spec.prompt@ == prompt
            &&& spec.native_launch is None
            &&& spec.repo@ == paths::working_tree(env.project_root@)
            &&& spec.state == env.state
            &&& spec.base_url == env.base_url
            &&& spec.bridge == env.bridge
            &&& spec.auth == env.auth
            &&& spec.model == node.model
            &&& spec.pane == node.harness_pane
            &&& !spec.no_change_record
            &&& spec.resume is Some
            &&& who@ == node.agent_id@
            &&& node.harness_session is Some
            &&& session@ == node.harness_session->0@
            &&& node.intent->0.timeout_secs is Some ==> spec.bound_secs
                == node.intent->0.timeout_secs->0
            &&& node.intent->0.timeout_secs is None ==> spec.bound_secs == ty.timeout_secs
        }),
{
}

/// A child comes back as itself: under its own id, session and task, in the directory it ran in, for
/// the parent it had and counted against that parent; what its journal does not hold is empty.
pub proof fn law_a_child_comes_back_as_itself(
    l: Relaunch,
    node: ReplayedNode,
    reg: Registry,
    env: Env,
    prompt: Seq<char>,
    facts: ChildFacts,
)
    requires
        node.intent is Some,
        node.intent->0.depth > 0,
        relaunch_refusal(node, reg, facts) is None,
        is_again(l, node, reg, env, prompt, facts),
    ensures
        l is Child,
        node.intent->0.parent_id is Some,
        reg.node(node.intent->0.parent_id->0@) is Some,
        ({
            let c = l->Child_0;
            let parent_id = node.intent->0.parent_id->0@;
            let parent = reg.node(parent_id)->0;
            &&& parent.state is Exited || parent.reap_state != ReapState::Live
            &&& parent.intent is Some
            &&& c.task_id == node.intent->0.task_id->0
            &&& c.caller.agent_id@ == parent_id
            &&& c.caller.depth == parent.intent->0.depth
            &&& c.caller.agent_type.name@ == parent.intent->0.agent_type@
            &&& c.caller.live_children == residency::saturated(
                residency::live_children(reg.nodes@, parent_id),
            )
            &&& c.req.agent_type@ == node.intent->0.agent_type@
            &&& c.req.prompt@ == prompt
            &&& c.req.repo@ == paths::working_tree(env.project_root@)
            &&& c.req.model == node.model
            &&& !c.req.allow_concurrent_writes
            &&& c.req.acceptance_criteria@.len() == 0
            &&& c.req.verification@.len() == 0
            &&& c.req.writable_scope@.len() == 0
            &&& node.launch_workspace is Some
            &&& (c.req.isolation == Isolation::Worktree) == (node.launch_workspace->0 is Worktree)
            &&& c.req.resume is Some
            &&& c.req.resume->0.agent_id@ == node.agent_id@
            &&& c.req.resume->0.workspace == node.launch_workspace->0
            &&& node.harness_session is Some
            &&& c.req.resume->0.session@ == node.harness_session->0@
        }),
{
    let parent = reg.node(node.intent->0.parent_id->0@)->0;
    model::law_a_type_is_found_by_its_name(facts.types->Ok_0, node.intent->0.agent_type@);
    model::law_a_type_is_found_by_its_name(facts.parent_types->Ok_0, parent.intent->0.agent_type@);
}

/// A node is relaunched exactly where what it ran as can be made again. A root needs its type, still
/// on the harness it was recorded on. A child needs that too, and a task of its own, a parent that
/// is recorded and whose fate is decided and whose type is known in the same way, and the directory
/// it ran in, recorded and still there.
pub proof fn law_a_node_is_relaunched_exactly_where_it_can_be(
    node: ReplayedNode,
    reg: Registry,
    facts: ChildFacts,
)
    requires
        node.intent is Some,
    ensures
        relaunch_refusal(node, reg, facts) is None <==> {
            let intent = node.intent->0;
            &&& facts.types is Ok
            &&& facts.types->Ok_0.named(intent.agent_type@) is Some
            &&& facts.types->Ok_0.named(intent.agent_type@)->0.harness@ == intent.harness@
            &&& intent.depth > 0 ==> {
                let parent = reg.node(intent.parent_id->0@)->0;
                &&& intent.task_id is Some
                &&& intent.parent_id is Some
                &&& reg.node(intent.parent_id->0@) is Some
                &&& parent.state is Exited || parent.reap_state != ReapState::Live
                &&& parent.intent is Some
                &&& facts.parent_types is Ok
                &&& facts.parent_types->Ok_0.named(parent.intent->0.agent_type@) is Some
                &&& facts.parent_types->Ok_0.named(parent.intent->0.agent_type@)->0.harness@
                    == parent.intent->0.harness@
                &&& node.launch_workspace is Some
                &&& facts.workspace_exists
            }
        },
{
}

/// What bringing a node back is refused for, where several things stand against it: whoever asks, then
/// a supervisor that is going or that runs nothing, then a node nobody recorded, one without an
/// intent, one that is still live, and last one without a session.
pub proof fn law_a_node_is_refused_for_the_first_reason(
    facts: ResumeFacts,
    has_env: bool,
    reg: Registry,
    id: Seq<char>,
)
    ensures
        ({
            let r = resume_refusal(facts, has_env, reg, id);
            let t = r->0;
            let ours = facts.peer == Peer::Uid(facts.own_uid);
            let open = ours && facts.alive && has_env;
            let node = reg.node(id)->0;
            let known = open && reg.node(id) is Some;
            let ended = node.state is Exited || node.reap_state != ReapState::Live;
            &&& !ours ==> r == spawn::peer_refusal(facts.peer, facts.own_uid)
            &&& ours && !facts.alive ==> r is Some && t.kind == FailureKind::Internal && t.message
                == BEING_DROPPED@
            &&& ours && facts.alive && !has_env ==> r is Some && t.kind
                == FailureKind::Unimplemented && t.subject == Some("node/resume"@)
            &&& open && reg.node(id) is None ==> r is Some && t.message == NOT_RECORDED.0@ + id
                + NOT_RECORDED.1@
            &&& known && node.intent is None ==> r is Some && t.message == NO_INTENT.0@ + id
                + NO_INTENT.1@
            &&& known && node.intent is Some && !ended ==> r is Some && t.message == STILL_LIVE.0@
                + id + STILL_LIVE.1@ + node.state.name() + STILL_LIVE.2@
            &&& known && node.intent is Some && ended && node.harness_session is None ==> r is Some
                && t.message == NO_SESSION.0@ + id + NO_SESSION.1@
        }),
{
}

/// What relaunching a child is refused for, where several things stand against it: its place in the
/// tree first, then where it ran, then the types, and last its task.
pub proof fn law_a_child_is_refused_for_the_first_reason(
    node: ReplayedNode,
    reg: Registry,
    facts: ChildFacts,
)
    requires
        node.intent is Some,
        node.intent->0.depth > 0,
    ensures
        ({
            let r = relaunch_refusal(node, reg, facts);
            let t = r->0;
            let id = node.agent_id@;
            let named = node.intent->0.parent_id;
            let parent = reg.node(named->0@);
            let placed = named is Some && parent is Some && ((parent->0).state is Exited || (
            parent->0).reap_state != ReapState::Live);
            let housed = placed && node.launch_workspace is Some && facts.workspace_exists;
            &&& named is None ==> r is Some && t.message == NO_PARENT.0@ + id + NO_PARENT.1@
            &&& named is Some && parent is None ==> r is Some && t.message == PARENT_UNRECORDED.0@
                + id + PARENT_UNRECORDED.1@ + named->0@ + PARENT_UNRECORDED.2@
            &&& named is Some && parent is Some && !placed ==> r is Some && t.message
                == PARENT_LIVE.0@ + id + PARENT_LIVE.1@ + named->0@ + PARENT_LIVE.2@
                + (parent->0).state.name() + PARENT_LIVE.3@
            &&& placed && node.launch_workspace is None ==> r is Some && t.message
                == NO_WORKSPACE.0@ + id + NO_WORKSPACE.1@
            &&& placed && node.launch_workspace is Some && !facts.workspace_exists ==> r is Some
                && t.message == WORKSPACE_GONE.0@ + id + WORKSPACE_GONE.1@
                + node.launch_workspace->0.path_text() + WORKSPACE_GONE.2@
            &&& housed && node.intent->0.task_id is None && type_of_node(
                parent->0,
                facts.parent_types,
            ) is Ok && type_of_node(node, facts.types) is Ok ==> r is Some && t.message
                == NO_TASK.0@ + id + NO_TASK.1@
            &&& !housed && r is Some ==> t.kind == FailureKind::Refused && t.subject == Some(
                "agent_id"@,
            )
        }),
{
}

} // verus!
