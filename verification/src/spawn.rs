//! Who may start a node, and what it is started as.
//!
//! Every gated fact about a caller is read from what the supervisor minted and recorded, never from
//! what the call asserts. A spawn without a caller creates a root and is authorized by the
//! connection's user; one with a caller proves itself with the node's token.
use vstd::prelude::*;

use crate::error;
use crate::error::{ErrorText, FailureKind, RpcError};
use crate::model::{AgentId, AgentType, Isolation, Workspace};
use crate::text;
use crate::text::{cat2, cat3, cat5, decimal_text};

verus! {

/// The wall clock a spawn gets when the caller states none, in seconds.
pub const DEFAULT_SPAWN_TIMEOUT_SECS: u64 = 900;

/// The user at the other end of a connection.
#[derive(Debug, Clone, Copy, PartialEq, Eq, Structural)]
pub enum Peer {
    Uid(u32),
    /// The credentials could not be read.
    Unknown,
}

/// The node that asks for a child, and its proof.
#[derive(Debug)]
pub struct SpawnCaller {
    pub agent_id: AgentId,
    pub node_token: String,
}

/// One environment variable, byte for byte.
#[derive(Debug)]
pub struct NativeEnvVar {
    pub name: Vec<u8>,
    pub value: Vec<u8>,
}

/// The process a native client was about to start, byte for byte.
#[derive(Debug)]
pub struct NativeProcess {
    pub program: Vec<u8>,
    pub argv: Vec<Vec<u8>>,
    pub cwd: Vec<u8>,
    pub env: Vec<NativeEnvVar>,
    pub cols: u16,
    pub rows: u16,
    pub xpixel: u16,
    pub ypixel: u16,
}

/// A native launch, in the two versions there are.
#[derive(Debug)]
pub enum NativeLaunchContext {
    V1(NativeProcess),
    V2 { selector: String, process: NativeProcess },
}

/// Why a native launch cannot be bound, in the binder's own words.
#[derive(Debug)]
pub enum NativeBindingError {
    UnsupportedPlatform(String),
    Unbound(String),
}

/// What a spawn asks for.
#[derive(Debug)]
pub struct AgentSpawnParams {
    pub agent_type: String,
    pub prompt: String,
    pub native_launch: Option<NativeLaunchContext>,
    pub caller: Option<SpawnCaller>,
    pub no_change_record: Option<bool>,
    pub pane: Option<bool>,
    pub isolation: Option<Isolation>,
    pub allow_concurrent_writes: Option<bool>,
    pub repo: Option<String>,
    pub acceptance_criteria: Vec<String>,
    pub verification: Vec<String>,
    pub writable_scope: Vec<String>,
    pub timeout_secs: Option<u64>,
    pub model: Option<String>,
}

/// How nodes reach their provider.
#[derive(Debug, Clone, Copy, PartialEq, Eq, Structural)]
pub enum Auth {
    Canned,
    Live,
}

/// What nodes are run in.
#[derive(Debug)]
pub struct Env {
    pub project_dir: String,
    pub state: String,
    pub project_root: String,
    pub bridge: String,
    pub base_url: Option<String>,
    pub auth: Auth,
}

/// Everything a root's launch needs.
#[derive(Debug)]
pub struct RootSpec {
    pub agent_type: String,
    pub prompt: String,
    pub native_launch: Option<NativeLaunchContext>,
    pub repo: String,
    pub state: String,
    pub base_url: Option<String>,
    pub bridge: String,
    pub model: Option<String>,
    pub no_change_record: bool,
    pub auth: Auth,
    pub pane: bool,
    /// The node and the session a resume hands back.
    pub resume: Option<(AgentId, String)>,
    /// The bound the launch enforces and the journal records, in seconds.
    pub bound_secs: u64,
}

/// What a resumed child goes back to.
#[derive(Debug)]
pub struct ChildResume {
    pub agent_id: AgentId,
    pub session: String,
    pub workspace: Workspace,
}

/// Everything a child's launch needs.
#[derive(Debug)]
pub struct SpawnRequest {
    pub agent_type: String,
    pub prompt: String,
    pub repo: String,
    pub acceptance_criteria: Vec<String>,
    pub verification: Vec<String>,
    pub writable_scope: Vec<String>,
    pub timeout_secs: u64,
    pub model: Option<String>,
    pub isolation: Isolation,
    pub allow_concurrent_writes: bool,
    pub resume: Option<ChildResume>,
}

/// The node that spawns, with every fact its gates read.
#[derive(Debug)]
pub struct Caller {
    pub agent_id: String,
    pub agent_type: AgentType,
    pub depth: u32,
    pub live_children: u32,
}

// -------------------------------------------------------------------------------------------------
// Who is at the other end
// -------------------------------------------------------------------------------------------------

/// Said to another user's process, around the two uids.
pub const OTHER_USER: (&'static str, &'static str, &'static str) = (
    "this connection's peer runs as uid ",
    " and this supervisor runs as uid ",
    ". A spawn with no `caller` creates a **root**, which is the one call on this socket that starts \
    work rather than describing it, and marion authorizes it by filesystem permission on the socket: \
    §2's path is under `<state>` (or `/tmp/marion-<uid>`), created 0700 with the socket 0600, so \
    another user reaching it means the permissions are not what marion set. There is deliberately no \
    token for this path — §5.4's capability binds to an `AgentId` and a root has none yet, and any \
    secret at rest here would be readable by exactly the processes it would be excluding (§11 item \
    28, open question 3).",
);

/// Said where the peer's user could not be read.
pub const UNKNOWN_USER: &'static str = "marion could not read this connection's peer credentials, so \
    it cannot establish that the caller is this supervisor's own user — and a check that could not \
    be made is not a check that passed. A spawn with no `caller` creates a root, which is authorized \
    by filesystem permission on the socket and by nothing else (§11 item 28, open question 3), so \
    there is no weaker evidence to fall back to.";

/// Why `peer` may not start work here, where it may not.
pub open spec fn peer_refusal(peer: Peer, own: u32) -> Option<ErrorText> {
    match peer {
        Peer::Uid(uid) => if uid == own {
            None
        } else {
            Some(
                error::refused_text(
                    "caller"@,
                    OTHER_USER.0@ + text::decimal(uid as nat) + OTHER_USER.1@ + text::decimal(
                        own as nat,
                    ) + OTHER_USER.2@,
                    "§2, §5.4"@,
                ),
            )
        },
        Peer::Unknown => Some(error::refused_text("caller"@, UNKNOWN_USER@, "§2, §5.4"@)),
    }
}

/// Only the supervisor's own user starts work here, and an unreadable peer is not that user.
pub fn root_spawn_authorized(peer: Peer, own: u32) -> (r: Result<(), RpcError>)
    ensures
        match peer_refusal(peer, own) {
            None => r is Ok,
            Some(t) => r matches Err(e) && e@ == t,
        },
{
    match peer {
        Peer::Uid(uid) => {
            if uid == own {
                return Ok(());
            }
            let theirs = decimal_text(uid as u64);
            let ours = decimal_text(own as u64);
            let message = cat5(
                OTHER_USER.0,
                theirs.as_str(),
                OTHER_USER.1,
                ours.as_str(),
                OTHER_USER.2,
            );
            Err(RpcError::refused("caller", message, "§2, §5.4"))
        },
        Peer::Unknown => Err(RpcError::refused("caller", UNKNOWN_USER.to_string(), "§2, §5.4")),
    }
}

// -------------------------------------------------------------------------------------------------
// The shape of the request
// -------------------------------------------------------------------------------------------------

/// Failures made at the native-launch boundary.
#[derive(Debug, Clone, Copy, PartialEq, Eq, Structural)]
pub enum NativeLaunchGateError {
    /// A child carries a native launch.
    ChildMisuse,
}

/// Said to a child that carries a native launch.
pub const CHILD_MISUSE: &'static str = "native launch context belongs only on a root: a spawn \
    carrying `caller` is a managed child whose launch marion derives from its agent type and \
    contract. Refused rather than dropping the native context or replacing the managed launch.";

impl NativeLaunchGateError {
    /// The refusal a client sees.
    pub open spec fn refusal(self) -> ErrorText {
        error::refused_text("native_launch"@, CHILD_MISUSE@, "§6.1, §9, §11 item 23"@)
    }

    /// [`Self::refusal`], as an answer.
    pub fn into_rpc(self) -> (e: RpcError)
        ensures
            e@ == self.refusal(),
    {
        RpcError::refused("native_launch", CHILD_MISUSE.to_string(), "§6.1, §9, §11 item 23")
    }
}

/// Refuse a child that carries a native launch, before anything is looked up. A root passes: its
/// launch is bound later, after its peer is known.
pub fn validate_native_launch_boundary(
    caller: Option<&SpawnCaller>,
    native_launch: Option<&NativeLaunchContext>,
) -> (r: Result<(), NativeLaunchGateError>)
    ensures
        r == (if caller is Some && native_launch is Some {
            Err(NativeLaunchGateError::ChildMisuse)
        } else {
            Ok(())
        }),
{
    if native_launch.is_none() {
        return Ok(());
    }
    if caller.is_some() {
        return Err(NativeLaunchGateError::ChildMisuse);
    }
    Ok(())
}

/// Said after the binder's own sentence.
pub const NOTHING_CREATED: &'static str = ". Refused before any launch state was created.";

/// Said before the platform's own sentence.
pub const NEEDS_OS_VALUES: &'static str = "this native launch request requires byte-exact \
    operating-system values, but ";

/// The refusal of a native launch that cannot be bound.
pub open spec fn binding_refusal(e: NativeBindingError) -> ErrorText {
    match e {
        NativeBindingError::UnsupportedPlatform(why) => error::error_text(
            FailureKind::Unsupported,
            "native_launch"@,
            NEEDS_OS_VALUES@ + why@ + NOTHING_CREATED@,
            "§9"@,
        ),
        NativeBindingError::Unbound(why) => error::refused_text(
            "native_launch"@,
            why@ + NOTHING_CREATED@,
            "§9, §11 item 23"@,
        ),
    }
}

/// [`binding_refusal`], as an answer.
pub fn native_binding_error_into_rpc(error: &NativeBindingError) -> (e: RpcError)
    ensures
        e@ == binding_refusal(*error),
{
    match error {
        NativeBindingError::UnsupportedPlatform(why) => RpcError::unsupported(
            "native_launch",
            cat3(NEEDS_OS_VALUES, why.as_str(), NOTHING_CREATED),
            "§9",
        ),
        NativeBindingError::Unbound(why) => RpcError::refused(
            "native_launch",
            cat2(why.as_str(), NOTHING_CREATED),
            "§9, §11 item 23",
        ),
    }
}

/// Said to a root that names no repository.
pub const ROOT_WITHOUT_REPO: &'static str = "a spawn with no `caller` is a client creating a root, \
    and only the client knows which tree the root is of. §2 keys this supervisor on `git rev-parse \
    --git-common-dir`, so it serves a repository *and every linked worktree of it* over one socket \
    and one journal — `<state>/<project-hash>` names the project, never the working tree, and no \
    derivation here could recover which of them was meant. A worktree branched from the wrong tree's \
    HEAD is a real branch off real commits with nothing reporting a problem, so the field is \
    required rather than defaulted to the supervisor's own project root.";

/// Said to a child that names a repository.
pub const CHILD_WITH_REPO: &'static str = "a spawn with a `caller` must not state a `repo`: the \
    supervisor already knows which tree that node lives in, and a caller that states it is a caller \
    that can lie about it. This is the same rule that keeps `agent_type` and `depth` off \
    `SpawnCaller` — every gated fact about a caller is derived from what the supervisor minted, \
    never from what the frame asserts. A node that could name its own repository could branch its \
    children off a tree its parent never entitled it to touch.";

/// Said to a root that chooses its workspace, around the choice.
pub const ROOT_ISOLATION: (&'static str, &'static str) = (
    "a spawn without a `caller` creates a **root**, and a root's workspace is not a choice: it is \
    the operator's own checkout at the `repo` this call names, which is what §9's change record \
    measures. `isolation: ",
    "` is therefore either a description of what marion already does or a request to run the \
    operator's own run somewhere else. Refused rather than dropped, because a parameter that is \
    accepted and not acted on tells the caller their choice was honoured (§11 item 23). `isolation` \
    belongs on a child spawn, where the parent really is choosing between §6.6's two workspaces.",
);

/// Said to a root that lifts a guard it does not have.
pub const ROOT_CONCURRENT_WRITES: &'static str = "a spawn without a `caller` creates a root, and \
    §6.6's write-conflict rule is about a *child* sharing a caller's cwd. A root has no parent to \
    share with, so there is no guard here to lift and nothing for this field to permit. Refused \
    rather than dropped (§11 item 23).";

/// Said to a child that declines a record it would not have.
pub const CHILD_CHANGE_RECORD: &'static str = "a spawn with a `caller` must not state \
    `no_change_record`: §9's change record is a root's, because only a root runs in the operator's \
    own checkout. A child runs in a worktree marion made for it (§6.6) and its writes are judged \
    against that worktree's own scope, so there is no snapshot of anybody's tree here to decline. \
    Refused rather than dropped, because a parameter that is accepted and not acted on tells the \
    caller their choice was honoured (§11 item 23).";

/// Said to a child that asks for a pane.
pub const CHILD_PANE: &'static str = "a spawn with a `caller` must not state `pane`: a pane is a \
    terminal an operator attaches to and drives by keystrokes, and a child is defined by the \
    `TaskContract` it must report against inside its wall clock. A TUI takes no turn until somebody \
    presses return, so a contracted child in a pane is a task that can only time out — and the \
    contract would record that as the child's failure. Spawn it without a pane and watch its \
    structured events through `node/attach`, or start it as a root. Refused rather than dropped (§11 \
    item 23).";

impl Isolation {
    /// The choice as it is spelled on the wire, in quotes.
    pub open spec fn quoted(self) -> Seq<char> {
        match self {
            Isolation::Worktree => "\"worktree\""@,
            Isolation::SharedCwd => "\"shared-cwd\""@,
        }
    }

    /// [`Self::quoted`], as text.
    fn quoted_text(&self) -> (s: &'static str)
        ensures
            s@ == self.quoted(),
    {
        match self {
            Isolation::Worktree => "\"worktree\"",
            Isolation::SharedCwd => "\"shared-cwd\"",
        }
    }
}

/// What is wrong with the request whatever the supervisor knows: the first of the five pairings it
/// breaks.
pub open spec fn shape_refusal(p: AgentSpawnParams) -> Option<ErrorText> {
    if p.caller is None && p.repo is None {
        Some(error::refused_text("repo"@, ROOT_WITHOUT_REPO@, "§2, §6.6"@))
    } else if p.caller is Some && p.repo is Some {
        Some(error::refused_text("repo"@, CHILD_WITH_REPO@, "§5.4, §6.1"@))
    } else if p.caller is None && p.isolation is Some {
        Some(
            error::refused_text(
                "isolation"@,
                ROOT_ISOLATION.0@ + p.isolation->0.quoted() + ROOT_ISOLATION.1@,
                "§6.6, §9, §11 item 23"@,
            ),
        )
    } else if p.caller is None && p.allow_concurrent_writes is Some {
        Some(
            error::refused_text(
                "allow_concurrent_writes"@,
                ROOT_CONCURRENT_WRITES@,
                "§6.6, §11 item 23"@,
            ),
        )
    } else if p.caller is Some && p.no_change_record is Some {
        Some(
            error::refused_text("no_change_record"@, CHILD_CHANGE_RECORD@, "§9, §11 item 23"@),
        )
    } else if p.caller is Some && p.pane is Some {
        Some(error::refused_text("pane"@, CHILD_PANE@, "§9 M3, §11 item 23"@))
    } else {
        None
    }
}

/// A root says which tree it is of; a child does not get to.
pub fn check_caller_repo_pairing(p: &AgentSpawnParams) -> (r: Result<(), RpcError>)
    ensures
        r is Ok <==> (p.caller is Some) != (p.repo is Some),
        r matches Err(e) ==> Some(e@) == shape_refusal(*p),
{
    match (&p.caller, &p.repo) {
        (None, None) => Err(RpcError::refused("repo", ROOT_WITHOUT_REPO.to_string(), "§2, §6.6")),
        (Some(_), Some(_)) => Err(
            RpcError::refused("repo", CHILD_WITH_REPO.to_string(), "§5.4, §6.1"),
        ),
        _ => Ok(()),
    }
}

/// A root's workspace is not a choice.
pub fn check_root_isolation(p: &AgentSpawnParams) -> (r: Result<(), RpcError>)
    ensures
        r is Ok <==> !(p.caller is None && p.isolation is Some),
        r matches Err(e) ==> e@ == error::refused_text(
            "isolation"@,
            ROOT_ISOLATION.0@ + p.isolation->0.quoted() + ROOT_ISOLATION.1@,
            "§6.6, §9, §11 item 23"@,
        ),
{
    if p.caller.is_none() {
        if let Some(iso) = p.isolation {
            let message = cat3(ROOT_ISOLATION.0, iso.quoted_text(), ROOT_ISOLATION.1);
            return Err(RpcError::refused("isolation", message, "§6.6, §9, §11 item 23"));
        }
    }
    Ok(())
}

/// A root has no caller's directory to share.
pub fn check_root_allow_concurrent_writes(p: &AgentSpawnParams) -> (r: Result<(), RpcError>)
    ensures
        r is Ok <==> !(p.caller is None && p.allow_concurrent_writes is Some),
        r matches Err(e) ==> e@ == error::refused_text(
            "allow_concurrent_writes"@,
            ROOT_CONCURRENT_WRITES@,
            "§6.6, §11 item 23"@,
        ),
{
    if p.caller.is_none() && p.allow_concurrent_writes.is_some() {
        return Err(
            RpcError::refused(
                "allow_concurrent_writes",
                ROOT_CONCURRENT_WRITES.to_string(),
                "§6.6, §11 item 23",
            ),
        );
    }
    Ok(())
}

/// The change record is a root's.
pub fn check_child_no_change_record(p: &AgentSpawnParams) -> (r: Result<(), RpcError>)
    ensures
        r is Ok <==> !(p.caller is Some && p.no_change_record is Some),
        r matches Err(e) ==> e@ == error::refused_text(
            "no_change_record"@,
            CHILD_CHANGE_RECORD@,
            "§9, §11 item 23"@,
        ),
{
    if p.caller.is_some() && p.no_change_record.is_some() {
        return Err(
            RpcError::refused(
                "no_change_record",
                CHILD_CHANGE_RECORD.to_string(),
                "§9, §11 item 23",
            ),
        );
    }
    Ok(())
}

/// A contracted child in a pane could only time out.
pub fn check_child_pane(p: &AgentSpawnParams) -> (r: Result<(), RpcError>)
    ensures
        r is Ok <==> !(p.caller is Some && p.pane is Some),
        r matches Err(e) ==> e@ == error::refused_text(
            "pane"@,
            CHILD_PANE@,
            "§9 M3, §11 item 23"@,
        ),
{
    if p.caller.is_some() && p.pane.is_some() {
        return Err(RpcError::refused("pane", CHILD_PANE.to_string(), "§9 M3, §11 item 23"));
    }
    Ok(())
}

/// The five pairings, in order.
pub(crate) fn check_shape(p: &AgentSpawnParams) -> (r: Result<(), RpcError>)
    ensures
        match shape_refusal(*p) {
            None => r is Ok,
            Some(t) => r matches Err(e) && e@ == t,
        },
{
    if let Err(e) = check_caller_repo_pairing(p) {
        return Err(e);
    }
    if let Err(e) = check_root_isolation(p) {
        return Err(e);
    }
    if let Err(e) = check_root_allow_concurrent_writes(p) {
        return Err(e);
    }
    if let Err(e) = check_child_no_change_record(p) {
        return Err(e);
    }
    check_child_pane(p)
}

/// A platform that cannot hold a native launch is said to be unsupported; a launch that is bound to
/// nothing, and one that a child asks for, are refused.
pub proof fn law_a_native_launch_that_cannot_be_is_refused(why: String)
    ensures
        binding_refusal(NativeBindingError::UnsupportedPlatform(why)).kind
            == FailureKind::Unsupported,
        binding_refusal(NativeBindingError::Unbound(why)).kind == FailureKind::Refused,
        binding_refusal(NativeBindingError::Unbound(why)).subject == Some("native_launch"@),
        NativeLaunchGateError::ChildMisuse.refusal().kind == FailureKind::Refused,
        NativeLaunchGateError::ChildMisuse.refusal().subject == Some("native_launch"@),
{
}

/// The two choices of isolation are spelled as a client spells them.
pub proof fn law_isolation_is_spelled_as_it_is_asked_for(i: Isolation)
    ensures
        i.quoted() == "\"worktree\""@ <==> i == Isolation::Worktree,
        i.quoted() == "\"shared-cwd\""@ <==> i == Isolation::SharedCwd,
{
    reveal_strlit("\"worktree\"");
    reveal_strlit("\"shared-cwd\"");
    assert("\"worktree\""@.len() != "\"shared-cwd\""@.len());
}

} // verus!
