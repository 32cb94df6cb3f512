//! Resolving who asks, and deciding what is started.
use vstd::prelude::*;

use crate::error;
use crate::error::{ErrorText, FailureKind, RpcError};
use crate::model;
use crate::model::{
    AgentId, AgentType, AgentTypes, Isolation, ReapState, Registry, ReplayedNode, SpawnIntent,
    TaskId,
};
use crate::nodes::{NodeRows, Nodes};
use crate::project;
use crate::project::{Missing, Unprojectable};
use crate::quit_laws;
use crate::residency;
use crate::residency::live_children_of;
use crate::spawn;
use crate::spawn::{
    check_shape, native_binding_error_into_rpc, root_spawn_authorized,
    validate_native_launch_boundary, AgentSpawnParams, Caller, Env, NativeBindingError,
    NativeLaunchGateError, Peer, RootSpec, SpawnCaller, SpawnRequest, DEFAULT_SPAWN_TIMEOUT_SECS,
};
use crate::table;
use crate::text;
use crate::text::{cat2, cat3, cat5, cat7, decimal_text};
use crate::token::tokens_match;

verus! {

// -------------------------------------------------------------------------------------------------
// Agent types, as the tree defines them
// -------------------------------------------------------------------------------------------------

/// The file that defines a tree's own agent types.
pub const AGENT_TYPES_FILE: &'static str = ".marion/agents.toml";

/// The tree's own table of types cannot be used, in the file's own words.
pub open spec fn types_refused(why: Seq<char>) -> ErrorText {
    error::refused_text("agent_type"@, why, "§3.1"@)
}

/// Said where a type names another harness than the journal does.
pub const HARNESS_MOVED: &'static str = "; marion will not resume a node under a different harness \
    than it recorded";

/// The type of a recorded node has moved to another harness.
pub open spec fn harness_moved(
    agent_type: Seq<char>,
    recorded: Seq<char>,
    now: Seq<char>,
) -> ErrorText {
    error::refused_text(
        "agent_type"@,
        "`"@ + agent_type + "` was journaled as "@ + recorded + " and "@ + AGENT_TYPES_FILE@
            + " now says "@ + now + HARNESS_MOVED@,
        "§3.1, §8"@,
    )
}

/// A recorded node's type, by today's table of the tree it runs in.
pub open spec fn type_recorded(
    types: Result<AgentTypes, String>,
    intent: SpawnIntent,
) -> Result<AgentType, ErrorText> {
    match types {
        Err(why) => Err(types_refused(why@)),
        Ok(table) => match table.named(intent.agent_type@) {
            None => Err(
                project::missing_error(
                    Missing::UnknownAgentType(intent.agent_type@),
                    intent.agent_id@,
                ),
            ),
            Some(ty) => if ty.harness@ == intent.harness@ {
                Ok(ty)
            } else {
                Err(harness_moved(intent.agent_type@, intent.harness@, ty.harness@))
            },
        },
    }
}

/// The tree's table of types, or its refusal.
pub fn tree_types(types: &Result<AgentTypes, String>) -> (r: Result<&AgentTypes, RpcError>)
    ensures
        match *types {
            Ok(t) => r matches Ok(got) && *got == t,
            Err(why) => r matches Err(e) && e@ == types_refused(why@),
        },
{
    match types {
        Ok(t) => Ok(t),
        Err(why) => Err(RpcError::refused("agent_type", why.clone(), "§3.1")),
    }
}

/// A recorded node's type, re-resolved from today's table, and refused if it has moved to another
/// harness: a session handed to a harness that never saw it would be a fresh run under an old name.
pub fn recorded_type(types: &Result<AgentTypes, String>, intent: &SpawnIntent) -> (r: Result<
    AgentType,
    RpcError,
>)
    ensures
        match type_recorded(*types, *intent) {
            Ok(ty) => r matches Ok(got) && got == ty,
            Err(t) => r matches Err(e) && e@ == t,
        },
{
    let table = match tree_types(types) {
        Ok(t) => t,
        Err(e) => {
            return Err(e);
        },
    };
    let ty = match table.resolve(intent.agent_type.as_str()) {
        Some(ty) => ty,
        None => {
            let missing = Unprojectable::UnknownAgentType(intent.agent_type.clone());
            return Err(missing.as_error(&intent.agent_id));
        },
    };
    if ty.harness != intent.harness {
        let mut message = cat5(
            "`",
            intent.agent_type.as_str(),
            "` was journaled as ",
            intent.harness.0.as_str(),
            " and ",
        );
        message.append(AGENT_TYPES_FILE);
        message.append(" now says ");
        message.append(ty.harness.0.as_str());
        message.append(HARNESS_MOVED);
        return Err(RpcError::refused("agent_type", message, "§3.1, §8"));
    }
    Ok(ty.clone())
}

// -------------------------------------------------------------------------------------------------
// Who asks
// -------------------------------------------------------------------------------------------------

/// Said to a caller whose token is not the node's.
pub const NOT_MINTED: &'static str = "this supervisor did not mint that node token, so it cannot \
    tell the caller it claims to be from any other process that can reach this socket. §5.4 binds a \
    capability token to an `AgentId`; the supervisor holds the binding and there is no round trip \
    that could establish one for a node it does not own. A node whose supervisor has restarted is in \
    this case and it is not a mistake the caller made — its parent is `Orphaned` (§7.2) and needs an \
    operator, not a retry.";

/// Said of a node that is owned and not recorded, around its id.
pub const OWNED_UNRECORDED: (&'static str, &'static str) = (
    "this supervisor owns node `",
    "` and its journal has no `SpawnIntent` for it, so §6.1 step 2's gates have no agent type and no \
    depth to read. Refusing rather than assuming a default: an assumed `max_depth` is a constant \
    pretending to be a lookup.",
);

/// The tree of the node that `c` names and proves to be. A node that was given no token cannot be
/// proved to be, by anybody.
pub open spec fn proven_repo(rows: NodeRows, c: SpawnCaller) -> Option<String> {
    match table::value(rows, c.agent_id@) {
        Some(h) => if h.token@.len() > 0 && h.token@ == c.node_token@ {
            Some(h.repo)
        } else {
            None
        },
        None => None,
    }
}

/// The caller, with the facts its gates read; the token is judged before anything else is said.
pub open spec fn caller_resolved(
    rows: NodeRows,
    c: SpawnCaller,
    reg: Registry,
    types: Result<AgentTypes, String>,
) -> Result<(AgentType, u32, u32), ErrorText> {
    if proven_repo(rows, c) is None {
        Err(error::refused_text(c.agent_id@, NOT_MINTED@, "§5.4, §6.1"@))
    } else {
        match reg.node(c.agent_id@) {
            None => Err(
                error::internal_text(
                    OWNED_UNRECORDED.0@ + c.agent_id@ + OWNED_UNRECORDED.1@,
                ),
            ),
            Some(node) => match node.intent {
                None => Err(project::missing_error(Missing::NoIntent, c.agent_id@)),
                Some(intent) => match types {
                    Err(why) => Err(types_refused(why@)),
                    Ok(t) => match t.named(intent.agent_type@) {
                        None => Err(
                            project::missing_error(
                                Missing::UnknownAgentType(intent.agent_type@),
                                c.agent_id@,
                            ),
                        ),
                        Some(ty) => Ok(
                            (
                                ty,
                                intent.depth,
                                residency::saturated(
                                    residency::live_children(reg.nodes@, c.agent_id@),
                                ) as u32,
                            ),
                        ),
                    },
                },
            },
        }
    }
}

impl Nodes {
    /// The tree of the node that `c` names, where `c` proves to be that node. A node this supervisor
    /// does not own is compared too, against a decoy of the same shape, so that "no such node" and
    /// "wrong token" take one path.
    pub fn authenticate(&self, c: &SpawnCaller, decoy: &str) -> (r: Option<String>)
        requires
            self.wf(),
        ensures
            r == proven_repo(self@, *c),
    {
        match self.table.get(&c.agent_id) {
            Some(h) => {
                let same = tokens_match(h.token.as_str(), c.node_token.as_str());
                if same && h.token.as_str().unicode_len() > 0 {
                    Some(h.repo.clone())
                } else {
                    None
                }
            },
            None => {
                let _ = tokens_match(decoy, c.node_token.as_str());
                None
            },
        }
    }

    /// Who is asking, checked rather than believed: the caller states which node it is and proves
    /// it, and every gated fact is read from the registry. `types` are those of the caller's tree.
    pub fn resolve_caller(
        &self,
        c: &SpawnCaller,
        decoy: &str,
        reg: &Registry,
        types: &Result<AgentTypes, String>,
    ) -> (r: Result<Caller, RpcError>)
        requires
            self.wf(),
        ensures
            match caller_resolved(self@, *c, *reg, *types) {
                Ok((ty, depth, live_children)) => {
                    &&& r matches Ok(caller)
                    &&& caller.agent_id@ == c.agent_id@
                    &&& caller.agent_type == ty
                    &&& caller.depth == depth
                    &&& caller.live_children == live_children
                },
                Err(t) => r matches Err(e) && e@ == t,
            },
    {
        if self.authenticate(c, decoy).is_none() {
            return Err(
                RpcError::refused(c.agent_id.0.as_str(), NOT_MINTED.to_string(), "§5.4, §6.1"),
            );
        }
        let node = match reg.get(&c.agent_id) {
            Some(node) => node,
            None => {
                let message = cat3(
                    OWNED_UNRECORDED.0,
                    c.agent_id.0.as_str(),
                    OWNED_UNRECORDED.1,
                );
                return Err(RpcError::internal(message));
            },
        };
        let intent = match &node.intent {
            Some(intent) => intent,
            None => {
                return Err(Unprojectable::NoIntent.as_error(&c.agent_id));
            },
        };
        let table = match tree_types(types) {
            Ok(t) => t,
            Err(e) => {
                return Err(e);
            },
        };
        match table.resolve(intent.agent_type.as_str()) {
            Some(ty) => Ok(
                Caller {
                    agent_id: c.agent_id.0.clone(),
                    agent_type: ty.clone(),
                    depth: intent.depth,
                    live_children: live_children_of(reg, &c.agent_id),
                },
            ),
            None => {
                let missing = Unprojectable::UnknownAgentType(intent.agent_type.clone());
                Err(missing.as_error(&c.agent_id))
            },
        }
    }
}

// -------------------------------------------------------------------------------------------------
// The gates
// -------------------------------------------------------------------------------------------------

/// A bound of the caller's type that a child would break.
#[derive(Debug, Clone, Copy, PartialEq, Eq, Structural)]
pub enum SpawnGateError {
    /// The caller is as deep as its type allows.
    Depth { depth: u32, max_depth: u32 },
    /// The caller has as many children as its type allows.
    Children { live: u32, max_concurrent_children: u32 },
}

impl SpawnGateError {
    /// The bound and the value that broke it.
    pub open spec fn sentence(self) -> Seq<char> {
        match self {
            SpawnGateError::Depth { depth, max_depth } => "the caller is at depth "@
                + text::decimal(depth as nat) + " and its type's max_depth is "@ + text::decimal(
                max_depth as nat,
            ),
            SpawnGateError::Children { live, max_concurrent_children } => "the caller has "@
                + text::decimal(live as nat)
                + " live children and its type's max_concurrent_children is "@ + text::decimal(
                max_concurrent_children as nat,
            ),
        }
    }

    /// [`Self::sentence`], as text.
    pub fn sentence_text(&self) -> (s: String)
        ensures
            s@ == self.sentence(),
    {
        match *self {
            SpawnGateError::Depth { depth, max_depth } => {
                let at = decimal_text(depth as u64);
                let max = decimal_text(max_depth as u64);
                crate::text::cat4(
                    "the caller is at depth ",
                    at.as_str(),
                    " and its type's max_depth is ",
                    max.as_str(),
                )
            },
            SpawnGateError::Children { live, max_concurrent_children } => {
                let at = decimal_text(live as u64);
                let max = decimal_text(max_concurrent_children as u64);
                crate::text::cat4(
                    "the caller has ",
                    at.as_str(),
                    " live children and its type's max_concurrent_children is ",
                    max.as_str(),
                )
            },
        }
    }
}

/// The bound a child of such a caller would break, depth first.
pub open spec fn gate_broken(ty: AgentType, depth: u32, live: u32) -> Option<SpawnGateError> {
    if depth >= ty.max_depth {
        Some(SpawnGateError::Depth { depth, max_depth: ty.max_depth })
    } else if live >= ty.max_concurrent_children {
        Some(
            SpawnGateError::Children {
                live,
                max_concurrent_children: ty.max_concurrent_children,
            },
        )
    } else {
        None
    }
}

/// Whether a caller of this type, this deep and with this many live children may have another.
pub fn check_spawn_gates(ty: &AgentType, depth: u32, live: u32) -> (r: Result<(), SpawnGateError>)
    ensures
        r == (match gate_broken(*ty, depth, live) {
            Some(e) => Err(e),
            None => Ok(()),
        }),
{
    if depth >= ty.max_depth {
        return Err(SpawnGateError::Depth { depth, max_depth: ty.max_depth });
    }
    if live >= ty.max_concurrent_children {
        return Err(
            SpawnGateError::Children {
                live,
                max_concurrent_children: ty.max_concurrent_children,
            },
        );
    }
    Ok(())
}

/// Said after a gate's own sentence.
pub const GATES_READ: &'static str = ". The bound and the value that broke it are read from the \
    **caller's** agent type and the supervisor's own registry, never from the call — §6.1 step 2 \
    says the gates read the caller's type, and a caller that could state its own depth or child \
    count could state one that passes.";

/// A gate's refusal, as a client sees it.
pub open spec fn gate_refused(e: SpawnGateError) -> ErrorText {
    error::refused_text("caller"@, e.sentence() + GATES_READ@, "§6.1, §3.1"@)
}

/// [`gate_refused`], as an answer.
pub fn gate_refusal(e: SpawnGateError) -> (r: RpcError)
    ensures
        r@ == gate_refused(e),
{
    let sentence = e.sentence_text();
    RpcError::refused("caller", cat2(sentence.as_str(), GATES_READ), "§6.1, §3.1")
}

/// Said of a spawn that was refused before a node existed.
pub const NO_NODE: &'static str = "marion refused this spawn before it minted a node: the agent type \
    is not a built-in and not a row of the tree's .marion/agents.toml, or the requested writable \
    scope is outside that type's ceiling. Nothing was journaled and nothing was started, so there is \
    no node to look up. (§3.1, §5.4)";

/// The spawn was refused before a node existed.
pub open spec fn no_node() -> ErrorText {
    error::refused_text("agent_type"@, NO_NODE@, "§3.1"@)
}

/// [`no_node`], as an answer.
pub fn spawn_refused_before_the_node_existed() -> (e: RpcError)
    ensures
        e@ == no_node(),
{
    RpcError::refused("agent_type", NO_NODE.to_string(), "§3.1")
}

// -------------------------------------------------------------------------------------------------
// What is started
// -------------------------------------------------------------------------------------------------

/// The bound a root runs under: what was asked for, or its type's.
pub open spec fn root_bound(asked: Option<u64>, type_secs: u64) -> u64 {
    match asked {
        Some(secs) => secs,
        None => type_secs,
    }
}

/// [`root_bound`], as a value.
pub fn blocked_bound_secs(asked: Option<u64>, type_secs: u64) -> (secs: u64)
    ensures
        secs == root_bound(asked, type_secs),
{
    match asked {
        Some(secs) => secs,
        None => type_secs,
    }
}

/// `spec` is the root that `p` asks for in `repo`: what is stated, the type's own model and bound
/// where nothing is, and neither a declined record nor a pane unless one was asked for.
pub open spec fn is_root_asked_for(
    spec: RootSpec,
    p: AgentSpawnParams,
    repo: Seq<char>,
    env: Env,
    ty: AgentType,
) -> bool {
    &&& spec.agent_type == p.agent_type
    &&& spec.prompt == p.prompt
    &&& spec.native_launch == p.native_launch
    &&& spec.repo@ == repo
    &&& spec.state == env.state
    &&& spec.base_url == env.base_url
    &&& spec.bridge == env.bridge
    &&& spec.model == (if p.model is Some {
        p.model
    } else {
        ty.model
    })
    &&& spec.no_change_record == (p.no_change_record == Some(true))
    &&& spec.auth == env.auth
    &&& spec.pane == (p.pane == Some(true))
    &&& spec.resume is None
    &&& spec.bound_secs == root_bound(p.timeout_secs, ty.timeout_secs)
}

/// Assemble a root from the request and the environment. Nothing is looked up and nothing is
/// changed; a native launch passes through byte for byte.
pub fn root_spec_from_spawn(
    p: AgentSpawnParams,
    repo: String,
    env: &Env,
    agent_type: &AgentType,
) -> (spec: RootSpec)
    ensures
        is_root_asked_for(spec, p, repo@, *env, *agent_type),
{
    RootSpec {
        agent_type: p.agent_type,
        prompt: p.prompt,
        native_launch: p.native_launch,
        repo,
        state: env.state.clone(),
        base_url: env.base_url.clone(),
        bridge: env.bridge.clone(),
        model: match p.model {
            Some(m) => Some(m),
            None => agent_type.model.clone(),
        },
        no_change_record: match p.no_change_record {
            Some(b) => b,
            None => false,
        },
        auth: env.auth,
        pane: match p.pane {
            Some(b) => b,
            None => false,
        },
        resume: None,
        bound_secs: blocked_bound_secs(p.timeout_secs, agent_type.timeout_secs),
    }
}

/// `req` is the child that `p` asks for in its caller's tree. What is not stated is resolved once,
/// here: the ordinary clock, a worktree of its own, and no concurrent writes.
pub open spec fn is_child_asked_for(
    req: SpawnRequest,
    p: AgentSpawnParams,
    repo: Seq<char>,
) -> bool {
    &&& req.agent_type == p.agent_type
    &&& req.prompt == p.prompt
    &&& req.repo@ == repo
    &&& req.acceptance_criteria == p.acceptance_criteria
    &&& req.verification == p.verification
    &&& req.writable_scope == p.writable_scope
    &&& req.timeout_secs == (match p.timeout_secs {
        Some(secs) => secs,
        None => DEFAULT_SPAWN_TIMEOUT_SECS,
    })
    &&& req.model == p.model
    &&& req.isolation == (match p.isolation {
        Some(iso) => iso,
        None => Isolation::Worktree,
    })
    &&& req.allow_concurrent_writes == (p.allow_concurrent_writes == Some(true))
    &&& req.resume is None
}

/// Said where the root's repository is another project's, around the three paths.
pub const OTHER_PROJECT: (&'static str, &'static str, &'static str, &'static str) = (
    "this supervisor serves the project keyed at ",
    ", and ",
    " keys to ",
    ". §2 keys a supervisor and its state on the project root — the git common dir — so one socket \
    serves one repository and every linked worktree of it, and no other. A root created here would \
    be journaled under the project it named while this supervisor kept following its own, so marion \
    would report a node that no `tree/subscribe` on this socket could ever show. Dial the supervisor \
    for that repository instead; refused before the node is claimed, so nothing was written under \
    either project.",
);

/// The repository is another project's.
pub open spec fn other_project(ours: Seq<char>, repo: Seq<char>, named: Seq<char>) -> ErrorText {
    error::refused_text(
        "repo"@,
        OTHER_PROJECT.0@ + ours + OTHER_PROJECT.1@ + repo + OTHER_PROJECT.2@ + named
            + OTHER_PROJECT.3@,
        "§2, §5.4"@,
    )
}

/// Said where a root has no repository although its shape was checked.
pub const ROOT_UNCHECKED: &'static str = "a root spawn reached the launcher with no repository, \
    which the frame-shape check refuses by name";

/// What the outside says about a spawn before it is decided.
#[derive(Debug)]
pub struct SpawnFacts {
    /// The supervisor is not being dropped.
    pub alive: bool,
    pub peer: Peer,
    pub own_uid: u32,
    /// A token of a real one's shape that belongs to no node.
    pub decoy: String,
    /// The agent types of the tree: the caller's own for a child, the named one for a root.
    pub types: Result<AgentTypes, String>,
    /// Why the native launch the request carries cannot be bound.
    pub native: NativeBindingError,
    /// The project that the named repository keys to.
    pub named_project: String,
    /// A fresh contract id, or why there is none.
    pub task_id: Result<TaskId, String>,
}

/// Why a root may not be started, where it may not: the peer is judged before anything it named.
pub open spec fn root_refusal(
    p: AgentSpawnParams,
    env: Env,
    facts: SpawnFacts,
) -> Option<ErrorText> {
    if spawn::peer_refusal(facts.peer, facts.own_uid) is Some {
        spawn::peer_refusal(facts.peer, facts.own_uid)
    } else if p.native_launch is Some {
        Some(spawn::binding_refusal(facts.native))
    } else if p.repo is None {
        Some(error::internal_text(ROOT_UNCHECKED@))
    } else if facts.named_project@ != env.project_dir@ {
        Some(other_project(env.project_dir@, p.repo->0@, facts.named_project@))
    } else {
        match facts.types {
            Err(why) => Some(types_refused(why@)),
            Ok(t) => match t.named(p.agent_type@) {
                None => Some(no_node()),
                Some(_) => None,
            },
        }
    }
}

/// Decide a root. Everything is refused before a node is claimed.
pub fn spawn_root(p: AgentSpawnParams, env: &Env, facts: &SpawnFacts) -> (r: Result<
    RootSpec,
    RpcError,
>)
    ensures
        match root_refusal(p, *env, *facts) {
            Some(t) => r matches Err(e) && e@ == t,
            None => {
                &&& r matches Ok(spec)
                &&& is_root_asked_for(
                    spec,
                    p,
                    p.repo->0@,
                    *env,
                    facts.types->Ok_0.named(p.agent_type@)->0,
                )
            },
        },
{
    if let Err(e) = root_spawn_authorized(facts.peer, facts.own_uid) {
        return Err(e);
    }
    if p.native_launch.is_some() {
        return Err(native_binding_error_into_rpc(&facts.native));
    }
    let repo = match &p.repo {
        Some(repo) => repo.clone(),
        None => {
            return Err(RpcError::internal(ROOT_UNCHECKED.to_string()));
        },
    };
    if facts.named_project != env.project_dir {
        let message = cat7(
            OTHER_PROJECT.0,
            env.project_dir.as_str(),
            OTHER_PROJECT.1,
            repo.as_str(),
            OTHER_PROJECT.2,
            facts.named_project.as_str(),
            OTHER_PROJECT.3,
        );
        return Err(RpcError::refused("repo", message, "§2, §5.4"));
    }
    let table = match tree_types(&facts.types) {
        Ok(t) => t,
        Err(e) => {
            return Err(e);
        },
    };
    match table.resolve(p.agent_type.as_str()) {
        Some(ty) => Ok(root_spec_from_spawn(p, repo, env, ty)),
        None => Err(spawn_refused_before_the_node_existed()),
    }
}

/// What a spawn starts.
#[derive(Debug)]
pub enum SpawnDecision {
    Root(RootSpec),
    Child { req: SpawnRequest, task_id: TaskId, caller: Caller },
}

/// Said where the supervisor is being dropped.
pub const BEING_DROPPED: &'static str = "this supervisor is being dropped and will not start a node \
    it could not then own";

/// Said by a handle that has nothing to run nodes in.
pub const DESCRIBES_ONLY: &'static str = "this handle was built by `RegistryHandle::new`, which \
    describes nodes and owns none, so there is no environment to run one in. A detached supervisor \
    is built by `RegistryHandle::owning` and does serve this method; a handle in this state is a \
    describing fixture. Refused here rather than further in, where the failure would be about a \
    directory instead of about a build.";

/// Said where a node went away between two looks at it.
pub const NOT_OWNED: &'static str = "this supervisor no longer owns that node, so it cannot say \
    which tree a child of it would branch from.";

/// Said where no contract id could be minted, before the reason.
pub const NO_TASK_ID: &'static str = "marion could not mint a task id for this spawn, so nothing was \
    started: ";

/// Why a spawn is refused, where it is. The frame alone is judged first, then the build, then the
/// caller, then the caller's gates; nothing has been written before the last of them.
pub open spec fn spawn_refusal(
    p: AgentSpawnParams,
    env: Option<Env>,
    rows: NodeRows,
    reg: Registry,
    facts: SpawnFacts,
) -> Option<ErrorText> {
    if p.caller is Some && p.native_launch is Some {
        Some(NativeLaunchGateError::ChildMisuse.refusal())
    } else if !facts.alive {
        Some(error::internal_text(BEING_DROPPED@))
    } else if spawn::shape_refusal(p) is Some {
        spawn::shape_refusal(p)
    } else if env is None {
        Some(
            error::error_text(
                FailureKind::Unimplemented,
                "agent/spawn"@,
                DESCRIBES_ONLY@,
                "§2"@,
            ),
        )
    } else if p.caller is None {
        root_refusal(p, env->0, facts)
    } else {
        match caller_resolved(rows, p.caller->0, reg, facts.types) {
            Err(t) => Some(t),
            Ok((ty, depth, live)) => match gate_broken(ty, depth, live) {
                Some(e) => Some(gate_refused(e)),
                None => match facts.task_id {
                    Err(why) => Some(error::internal_text(NO_TASK_ID@ + why@)),
                    Ok(_) => None,
                },
            },
        }
    }
}

/// `d` is what `p` asks for.
pub open spec fn decides(
    d: SpawnDecision,
    p: AgentSpawnParams,
    env: Env,
    rows: NodeRows,
    reg: Registry,
    facts: SpawnFacts,
) -> bool {
    match p.caller {
        None => {
            &&& d matches SpawnDecision::Root(spec)
            &&& is_root_asked_for(
                spec,
                p,
                p.repo->0@,
                env,
                facts.types->Ok_0.named(p.agent_type@)->0,
            )
        },
        Some(c) => {
            let (ty, depth, live) = caller_resolved(rows, c, reg, facts.types)->Ok_0;
            &&& d matches SpawnDecision::Child { req, task_id, caller }
            &&& is_child_asked_for(req, p, proven_repo(rows, c)->0@)
            &&& task_id == facts.task_id->Ok_0
            &&& caller.agent_id@ == c.agent_id@
            &&& caller.agent_type == ty
            &&& caller.depth == depth
            &&& caller.live_children == live
        },
    }
}

impl Nodes {
    /// Decide a spawn: what is started, or why nothing is.
    pub fn agent_spawn(
        &self,
        p: AgentSpawnParams,
        env: &Option<Env>,
        reg: &Registry,
        facts: &SpawnFacts,
    ) -> (r: Result<SpawnDecision, RpcError>)
        requires
            self.wf(),
        ensures
            match spawn_refusal(p, *env, self@, *reg, *facts) {
                Some(t) => r matches Err(e) && e@ == t,
                None => r matches Ok(d) && decides(d, p, env->0, self@, *reg, *facts),
            },
    {
        if p.caller.is_some() {
            let boundary = validate_native_launch_boundary(
                p.caller.as_ref(),
                p.native_launch.as_ref(),
            );
            if let Err(e) = boundary {
                return Err(e.into_rpc());
            }
        }
        if !facts.alive {
            return Err(RpcError::internal(BEING_DROPPED.to_string()));
        }
        if let Err(e) = check_shape(&p) {
            return Err(e);
        }
        let env = match env {
            Some(env) => env,
            None => {
                return Err(
                    RpcError::unimplemented("agent/spawn", DESCRIBES_ONLY.to_string(), "§2"),
                );
            },
        };
        let c = match &p.caller {
            None => {
                return match spawn_root(p, env, facts) {
                    Ok(spec) => Ok(SpawnDecision::Root(spec)),
                    Err(e) => Err(e),
                };
            },
            Some(c) => c,
        };
        let caller = match self.resolve_caller(c, facts.decoy.as_str(), reg, &facts.types) {
            Ok(caller) => caller,
            Err(e) => {
                return Err(e);
            },
        };
        let repo = match self.authenticate(c, facts.decoy.as_str()) {
            Some(repo) => repo,
            None => {
                return Err(
                    RpcError::refused(c.agent_id.0.as_str(), NOT_OWNED.to_string(), "§5.4"),
                );
            },
        };
        if let Err(e) = check_spawn_gates(&caller.agent_type, caller.depth, caller.live_children) {
            return Err(gate_refusal(e));
        }
        let task_id = match &facts.task_id {
            Ok(t) => t.clone(),
            Err(why) => {
                return Err(RpcError::internal(cat2(NO_TASK_ID, why.as_str())));
            },
        };
        let req = SpawnRequest {
            agent_type: p.agent_type,
            prompt: p.prompt,
            repo,
            acceptance_criteria: p.acceptance_criteria,
            verification: p.verification,
            writable_scope: p.writable_scope,
            timeout_secs: match p.timeout_secs {
                Some(secs) => secs,
                None => DEFAULT_SPAWN_TIMEOUT_SECS,
            },
            model: p.model,
            isolation: match p.isolation {
                Some(iso) => iso,
                None => Isolation::Worktree,
            },
            allow_concurrent_writes: match p.allow_concurrent_writes {
                Some(b) => b,
                None => false,
            },
            resume: None,
        };
        Ok(SpawnDecision::Child { req, task_id, caller })
    }
}

/// A caller that does not prove which node it is is told one thing, whether or not there is such a
/// node, whatever the journal and the agent types hold.
pub proof fn law_an_unproven_caller_learns_nothing(
    rows: NodeRows,
    c: SpawnCaller,
    reg: Registry,
    types: Result<AgentTypes, String>,
)
    requires
        table::value(rows, c.agent_id@) matches Some(h) ==> h.token@ != c.node_token@,
    ensures
        caller_resolved(rows, c, reg, types) == Err::<(AgentType, u32, u32), ErrorText>(
            error::refused_text(c.agent_id@, NOT_MINTED@, "§5.4, §6.1"@),
        ),
{
}

/// A node for which there was no entropy can never be a caller: it runs, and it cannot spawn.
pub proof fn law_a_node_without_a_token_cannot_spawn(
    rows: NodeRows,
    c: SpawnCaller,
    reg: Registry,
    types: Result<AgentTypes, String>,
)
    requires
        table::value(rows, c.agent_id@) matches Some(h) && h.token@ == Seq::<char>::empty(),
    ensures
        caller_resolved(rows, c, reg, types) is Err,
{
}

/// The bound on a caller's children holds however many there are: the count that is compared
/// saturates, and a saturated count never stays below a bound that the true one reaches.
pub proof fn law_saturation_never_lifts_the_bound(
    ty: AgentType,
    depth: u32,
    nodes: Seq<ReplayedNode>,
    parent: Seq<char>,
)
    requires
        gate_broken(
            ty,
            depth,
            residency::saturated(residency::live_children(nodes, parent)) as u32,
        ) is None,
    ensures
        depth < ty.max_depth,
        residency::live_children(nodes, parent) < ty.max_concurrent_children,
{
}

/// Only the supervisor's own user starts work here: every other user, and one that cannot be read,
/// is refused.
pub proof fn law_only_the_supervisors_user_starts_work(peer: Peer, own: u32)
    ensures
        spawn::peer_refusal(peer, own) is None <==> peer == Peer::Uid(own),
        spawn::peer_refusal(peer, own) matches Some(t) ==> t.kind == FailureKind::Refused
            && t.subject == Some("caller"@),
{
}

/// A caller is proven exactly where the node it names is owned here under the very token it shows,
/// and that token is one; what is proven is that node's tree.
pub proof fn law_a_caller_is_proven_by_its_token(rows: NodeRows, c: SpawnCaller)
    requires
        table::distinct(rows),
    ensures
        proven_repo(rows, c) is Some <==> exists|i: int|
            {
                &&& 0 <= i < rows.len()
                &&& (#[trigger] rows[i]).0 == c.agent_id@
                &&& rows[i].1.token@ == c.node_token@
                &&& c.node_token@.len() > 0
            },
        forall|i: int|
            0 <= i < rows.len() && (#[trigger] rows[i]).0 == c.agent_id@ && rows[i].1.token@
                == c.node_token@ && c.node_token@.len() > 0 ==> proven_repo(rows, c) == Some(
                rows[i].1.repo,
            ),
{
    table::law_an_id_holds_what_its_row_says(rows, c.agent_id@);
    if proven_repo(rows, c) is Some {
        let h = table::value(rows, c.agent_id@)->0;
        let i = choose|i: int| 0 <= i < rows.len() && #[trigger] rows[i] == (c.agent_id@, h);
        assert(rows[i].0 == c.agent_id@);
    }
}

/// A child is within its caller's bounds exactly where the caller is less deep than its type allows
/// and has fewer live children than its type allows; the depth is what is said first.
pub proof fn law_a_child_is_within_both_bounds(ty: AgentType, depth: u32, live: u32)
    ensures
        gate_broken(ty, depth, live) is None <==> depth < ty.max_depth && live
            < ty.max_concurrent_children,
        gate_broken(ty, depth, live) is Some ==> {
            &&& (gate_broken(ty, depth, live)->0 is Depth) == (depth >= ty.max_depth)
            &&& gate_refused(gate_broken(ty, depth, live)->0).kind
                == FailureKind::Refused
            &&& gate_refused(gate_broken(ty, depth, live)->0).subject == Some(
                "caller"@,
            )
        },
{
}

/// The five pairings of a request: a root names a repository and leaves isolation and concurrent
/// writes alone; a child names none and leaves the change record and the pane alone.
pub proof fn law_a_request_is_a_roots_or_a_childs(p: AgentSpawnParams)
    ensures
        spawn::shape_refusal(p) is None <==> if p.caller is None {
            p.repo is Some && p.isolation is None && p.allow_concurrent_writes is None
        } else {
            p.repo is None && p.no_change_record is None && p.pane is None
        },
        spawn::shape_refusal(p) matches Some(t) ==> t.kind == FailureKind::Refused,
        (p.caller is None) == (p.repo is None) ==> spawn::shape_refusal(p) is Some
            && spawn::shape_refusal(p)->0.subject == Some("repo"@),
{
}

/// A root is started exactly where the supervisor's own user asks for it, in this project's own
/// repository, by a type that the tree or the build has, with nothing stated that only a child or a
/// native launch states, and where there is anything to run it in.
pub proof fn law_a_root_is_started_exactly_where_it_may_be(
    p: AgentSpawnParams,
    env: Option<Env>,
    rows: NodeRows,
    reg: Registry,
    facts: SpawnFacts,
)
    requires
        p.caller is None,
    ensures
        spawn_refusal(p, env, rows, reg, facts) is None <==> {
            &&& facts.alive
            &&& env is Some
            &&& facts.peer == Peer::Uid(facts.own_uid)
            &&& p.repo is Some
            &&& p.isolation is None
            &&& p.allow_concurrent_writes is None
            &&& p.native_launch is None
            &&& facts.named_project@ == env->0.project_dir@
            &&& facts.types is Ok
            &&& exists|i: int|
                0 <= i < facts.types->Ok_0.rows@.len() && (
                #[trigger] facts.types->Ok_0.rows@[i]).name@ == p.agent_type@
        },
{
    if let Ok(t) = facts.types {
        model::law_a_type_is_found_by_its_name(t, p.agent_type@);
    }
}

/// A child is started exactly where its caller is proven, recorded with an intent, of a type that
/// the tree has, less deep than that type allows, and with fewer live children than it allows, each
/// of them counted from the journal itself; with nothing stated that only a root states.
pub proof fn law_a_child_is_started_exactly_where_it_may_be(
    p: AgentSpawnParams,
    env: Option<Env>,
    rows: NodeRows,
    reg: Registry,
    facts: SpawnFacts,
)
    requires
        p.caller is Some,
        table::distinct(rows),
    ensures
        spawn_refusal(p, env, rows, reg, facts) is None <==> {
            let c = p.caller->0;
            let id = c.agent_id@;
            let nodes = reg.nodes@;
            let types = facts.types->Ok_0.rows@;
            let children = nodes.filter(
                |n: ReplayedNode|
                    {
                        &&& n.intent is Some && n.intent->0.parent_id is Some
                            && n.intent->0.parent_id->0@ == id
                        &&& !(n.state is Exited)
                        &&& n.reap_state == ReapState::Live
                        &&& !n.spawn_aborted || n.spawn_confirmed || n.pid is Some || n.reap_intent
                    },
            );
            &&& facts.alive
            &&& env is Some
            &&& p.native_launch is None
            &&& p.repo is None
            &&& p.no_change_record is None
            &&& p.pane is None
            &&& facts.task_id is Ok
            &&& facts.types is Ok
            &&& exists|r: int|
                {
                    &&& 0 <= r < rows.len()
                    &&& (#[trigger] rows[r]).0 == id
                    &&& rows[r].1.token@ == c.node_token@
                    &&& c.node_token@.len() > 0
                }
            &&& exists|i: int, t: int|
                {
                    &&& #[trigger] model::is_first_of(nodes, id, i)
                    &&& nodes[i].intent is Some
                    &&& #[trigger] model::is_first_named(
                        types,
                        nodes[i].intent->0.agent_type@,
                        t,
                    )
                    &&& nodes[i].intent->0.depth < types[t].max_depth
                    &&& children.len() < types[t].max_concurrent_children
                }
        },
{
    let c = p.caller->0;
    let id = c.agent_id@;
    let nodes = reg.nodes@;
    law_a_caller_is_proven_by_its_token(rows, c);
    model::law_a_node_is_found_by_its_id(reg, id);
    quit_laws::law_the_places_taken_are_the_live_children(nodes, id);
    let count = residency::live_children(nodes, id);
    quit_laws::law_a_count_is_told_as_it_is(count);
    let live = residency::saturated(count) as u32;
    if let Some(node) = reg.node(id) {
        let i = choose|i: int| #[trigger] model::is_first_of(nodes, id, i);
        assert(node == nodes[i]);
        if node.intent is Some && facts.types is Ok {
            let table = facts.types->Ok_0;
            let name = node.intent->0.agent_type@;
            model::law_a_type_is_found_by_its_name(table, name);
            if table.named(name) is Some {
                let t = choose|t: int| #[trigger] model::is_first_named(table.rows@, name, t);
                assert(model::is_first_named(table.rows@, nodes[i].intent->0.agent_type@, t));
            }
        }
    }
}

/// What a root is started as: what was asked for, this supervisor's own surroundings, and the type's
/// model and bound where none was stated.
pub proof fn law_a_root_is_what_was_asked_for(
    d: SpawnDecision,
    p: AgentSpawnParams,
    env: Env,
    rows: NodeRows,
    reg: Registry,
    facts: SpawnFacts,
    ty: AgentType,
)
    requires
        p.caller is None,
        facts.types is Ok,
        facts.types->Ok_0.named(p.agent_type@) == Some(ty),
        decides(d, p, env, rows, reg, facts),
    ensures
        d is Root,
        d->Root_0.agent_type == p.agent_type,
        d->Root_0.prompt == p.prompt,
        d->Root_0.native_launch == p.native_launch,
        d->Root_0.repo@ == p.repo->0@,
        d->Root_0.state == env.state,
        d->Root_0.base_url == env.base_url,
        d->Root_0.bridge == env.bridge,
        d->Root_0.auth == env.auth,
        p.model is Some ==> d->Root_0.model == p.model,
        p.model is None ==> d->Root_0.model == ty.model,
        d->Root_0.no_change_record <==> p.no_change_record == Some(true),
        d->Root_0.pane <==> p.pane == Some(true),
        d->Root_0.resume is None,
        p.timeout_secs is Some ==> d->Root_0.bound_secs == p.timeout_secs->0,
        p.timeout_secs is None ==> d->Root_0.bound_secs == ty.timeout_secs,
{
}

/// What a child is started as: what was asked for, in the tree of the caller that was proven and
/// never in one that was named, under the task that was made for it, counted against its caller; a
/// quarter of an hour, a worktree of its own and no concurrent writes where nothing was stated.
pub proof fn law_a_child_is_what_was_asked_for(
    d: SpawnDecision,
    p: AgentSpawnParams,
    env: Env,
    rows: NodeRows,
    reg: Registry,
    facts: SpawnFacts,
    owner: int,
)
    requires
        p.caller is Some,
        table::distinct(rows),
        0 <= owner < rows.len(),
        rows[owner].0 == p.caller->0.agent_id@,
        spawn_refusal(p, Some(env), rows, reg, facts) is None,
        decides(d, p, env, rows, reg, facts),
    ensures
        d is Child,
        d->req.agent_type == p.agent_type,
        d->req.prompt == p.prompt,
        d->req.repo@ == rows[owner].1.repo@,
        d->req.acceptance_criteria == p.acceptance_criteria,
        d->req.verification == p.verification,
        d->req.writable_scope == p.writable_scope,
        d->req.timeout_secs == (if p.timeout_secs is Some {
            p.timeout_secs->0
        } else {
            900
        }),
        d->req.model == p.model,
        d->req.isolation == (if p.isolation is Some {
            p.isolation->0
        } else {
            Isolation::Worktree
        }),
        d->req.allow_concurrent_writes <==> p.allow_concurrent_writes == Some(true),
        d->req.resume is None,
        Ok::<model::TaskId, String>(d->task_id) == facts.task_id,
        d->caller.agent_id@ == p.caller->0.agent_id@,
        reg.node(p.caller->0.agent_id@) is Some,
        d->caller.depth == reg.node(p.caller->0.agent_id@)->0.intent->0.depth,
        d->caller.depth < d->caller.agent_type.max_depth,
        d->caller.live_children < d->caller.agent_type.max_concurrent_children,
        d->caller.live_children == residency::live_children(
            reg.nodes@,
            p.caller->0.agent_id@,
        ),
        d->caller.agent_type.name@ == reg.node(
            p.caller->0.agent_id@,
        )->0.intent->0.agent_type@,
{
    let c = p.caller->0;
    let id = c.agent_id@;
    table::law_an_id_holds_what_its_row_says(rows, id);
    law_a_caller_is_proven_by_its_token(rows, c);
    model::law_a_node_is_found_by_its_id(reg, id);
    let count = residency::live_children(reg.nodes@, id);
    quit_laws::law_a_count_is_told_as_it_is(count);
    model::law_a_type_is_found_by_its_name(
        facts.types->Ok_0,
        reg.node(id)->0.intent->0.agent_type@,
    );
}

/// A caller that is not proven is answered as one whose node is unknown, whatever the journal and
/// the tree hold: two worlds that differ only there give it one answer, about the id it named.
pub proof fn law_who_is_not_proven_learns_nothing(
    p: AgentSpawnParams,
    env: Option<Env>,
    rows: NodeRows,
    one: Registry,
    other: Registry,
    facts: SpawnFacts,
    elsewhere: SpawnFacts,
)
    requires
        p.caller is Some,
        table::distinct(rows),
        facts.alive == elsewhere.alive,
        forall|i: int|
            0 <= i < rows.len() && (#[trigger] rows[i]).0 == p.caller->0.agent_id@
                ==> rows[i].1.token@ != p.caller->0.node_token@ || rows[i].1.token@.len() == 0,
    ensures
        spawn_refusal(p, env, rows, one, facts) is Some,
        spawn_refusal(p, env, rows, one, facts) == spawn_refusal(
            p,
            env,
            rows,
            other,
            elsewhere,
        ),
        facts.alive && env is Some && p.native_launch is None && p.repo is None
            && p.no_change_record is None && p.pane is None ==> {
            let t = spawn_refusal(p, env, rows, one, facts)->0;
            t.kind == FailureKind::Refused && t.subject == Some(p.caller->0.agent_id@)
        },
{
    law_a_caller_is_proven_by_its_token(rows, p.caller->0);
}

/// A recorded type is the tree's first row of that name, as long as it still runs on the harness the
/// node was recorded on; a table that cannot be read, a name nobody has and a harness that moved are
/// each a refusal.
pub proof fn law_a_recorded_type_stays_on_its_harness(
    types: Result<AgentTypes, String>,
    intent: SpawnIntent,
)
    ensures
        match type_recorded(types, intent) {
            Ok(ty) => {
                &&& types is Ok
                &&& types->Ok_0.named(intent.agent_type@) == Some(ty)
                &&& ty.harness@ == intent.harness@
            },
            Err(t) => {
                &&& types is Err ==> t.kind == FailureKind::Refused && t.subject == Some(
                    "agent_type"@,
                )
                &&& types is Ok ==> {
                    ||| types->Ok_0.named(intent.agent_type@) is None && t.kind
                        == FailureKind::NotFound
                    ||| types->Ok_0.named(intent.agent_type@) is Some && types->Ok_0.named(
                        intent.agent_type@,
                    )->0.harness@ != intent.harness@ && t.kind == FailureKind::Refused
                }
            },
        },
{
}

/// A request that breaks several pairings is refused for the first of them, by the field that breaks
/// it: the repository, then a root's isolation and its concurrent writes, or a child's change record
/// and its pane.
pub proof fn law_a_request_is_refused_for_its_first_fault(p: AgentSpawnParams)
    ensures
        ({
            let t = spawn::shape_refusal(p)->0;
            let placed = (p.caller is None) != (p.repo is None);
            &&& placed && p.caller is None && p.isolation is Some ==> t.subject == Some(
                "isolation"@,
            )
            &&& placed && p.caller is None && p.isolation is None && p.allow_concurrent_writes is Some
                ==> t.subject == Some("allow_concurrent_writes"@)
            &&& placed && p.caller is Some && p.no_change_record is Some ==> t.subject == Some(
                "no_change_record"@,
            )
            &&& placed && p.caller is Some && p.no_change_record is None && p.pane is Some
                ==> t.subject == Some("pane"@)
        }),
{
}

/// What a spawn is refused for, where several things stand against it: a child's native launch before
/// all else, then a supervisor that is going, then the request's own shape, then a supervisor that
/// runs nothing; only then is anybody asked who they are.
pub proof fn law_a_spawn_is_refused_for_the_first_reason(
    p: AgentSpawnParams,
    env: Option<Env>,
    rows: NodeRows,
    reg: Registry,
    facts: SpawnFacts,
)
    ensures
        ({
            let r = spawn_refusal(p, env, rows, reg, facts);
            let misuse = p.caller is Some && p.native_launch is Some;
            let shaped = spawn::shape_refusal(p) is None;
            &&& misuse ==> r == Some(NativeLaunchGateError::ChildMisuse.refusal())
            &&& !misuse && !facts.alive ==> r is Some && r->0.kind == FailureKind::Internal
                && r->0.message == BEING_DROPPED@
            &&& !misuse && facts.alive && !shaped ==> r == spawn::shape_refusal(p)
            &&& !misuse && facts.alive && shaped && env is None ==> r is Some && r->0.kind
                == FailureKind::Unimplemented && r->0.subject == Some("agent/spawn"@)
        }),
{
}

/// What a root that is well asked for is refused for: the user who asks before anything they named,
/// then the native launch, then another project's repository, then the tree's own table of types,
/// and last a type nobody has.
pub proof fn law_a_root_is_refused_for_the_first_reason(
    p: AgentSpawnParams,
    env: Env,
    rows: NodeRows,
    reg: Registry,
    facts: SpawnFacts,
)
    requires
        p.caller is None,
        spawn::shape_refusal(p) is None,
        facts.alive,
    ensures
        ({
            let r = spawn_refusal(p, Some(env), rows, reg, facts);
            let ours = facts.peer == Peer::Uid(facts.own_uid);
            let here = facts.named_project@ == env.project_dir@;
            let t = r->0;
            &&& !ours ==> r == spawn::peer_refusal(facts.peer, facts.own_uid)
            &&& ours && p.native_launch is Some ==> r == Some(spawn::binding_refusal(facts.native))
            &&& ours && p.native_launch is None && !here ==> r is Some && t.kind
                == FailureKind::Refused && t.subject == Some("repo"@)
            &&& ours && p.native_launch is None && here && facts.types is Err ==> r is Some && t.kind
                == FailureKind::Refused && t.subject == Some("agent_type"@) && t.message
                == facts.types->Err_0@
            &&& ours && p.native_launch is None && here && facts.types is Ok && r is Some ==> t.kind
                == FailureKind::Refused && t.subject == Some("agent_type"@) && t.message == NO_NODE@
        }),
{
}

/// A gate names the bound that was broken and the value that broke it, as they are.
pub proof fn law_a_gate_names_what_broke_it(ty: AgentType, depth: u32, live: u32)
    ensures
        depth >= ty.max_depth ==> gate_broken(ty, depth, live) == Some(
            (SpawnGateError::Depth { depth, max_depth: ty.max_depth }),
        ),
        depth < ty.max_depth && live >= ty.max_concurrent_children ==> gate_broken(ty, depth, live)
            == Some(
            (SpawnGateError::Children {
                live,
                max_concurrent_children: ty.max_concurrent_children,
            }),
        ),
{
}

} // verus!
