use marion_supervisor::caller::{
    blocked_bound_secs, check_spawn_gates, recorded_type, root_spec_from_spawn, SpawnDecision,
    SpawnFacts, SpawnGateError,
};
use marion_supervisor::error::{FailureKind, RpcError};
use marion_supervisor::handle::RegistryHandle;
use marion_supervisor::launch::{
    launch_bound_expired, launch_failed_reason, root_launch_failed,
    spawn_failed_before_the_process_existed, spawned_state, LaunchKind, Progress, Waited,
};
use marion_supervisor::model::{
    AgentId, AgentType, AgentTypes, ExitStatus, Harness, Isolation, NodeState, ReapState, Registry,
    ReplayPoint, ReplayedNode, SpawnIntent, TaskId, Workspace,
};
use marion_supervisor::nodes::{caught, panic_text, root_panicked, NodeOutcome, PanicPayload};
use marion_supervisor::paths::resumable_root_cwd;
use marion_supervisor::records::{ProcessExit, RecordKind, Spawned};
use marion_supervisor::residency::live_children_of;
use marion_supervisor::resume::{
    node_resume, ChildFacts, NodeResumeResult, Relaunch, Resolution, ResumeFacts, Resuming,
};
use marion_supervisor::spawn::{
    root_spawn_authorized, validate_native_launch_boundary, AgentSpawnParams, Auth, Env,
    NativeBindingError, NativeEnvVar, NativeLaunchContext, NativeLaunchGateError, NativeProcess,
    Peer, SpawnCaller,
};
use marion_supervisor::sweep::{SweepAction, SweepEvent};
use marion_supervisor::token::decoy_token;

fn id(s: &str) -> AgentId {
    AgentId(s.into())
}

fn harness(ty: &str) -> Harness {
    Harness(if ty == "lead" { "lead-code" } else { "codex" }.into())
}

fn agent_type(name: &str) -> AgentType {
    AgentType {
        name: name.into(),
        harness: harness(name),
        timeout_secs: 900,
        model: None,
        max_depth: 3,
        max_concurrent_children: 4,
    }
}

fn builtins() -> AgentTypes {
    AgentTypes { rows: vec![agent_type("lead"), agent_type("codex-impl")] }
}

fn intent(agent: &str, parent: Option<&str>, ty: &str, depth: u32) -> RecordKind {
    RecordKind::SpawnIntent(SpawnIntent {
        agent_id: id(agent),
        parent_id: parent.map(id),
        agent_type: ty.into(),
        harness: harness(ty),
        depth,
        task_id: None,
        timeout_secs: None,
    })
}

fn spawned(agent: &str, pid: i32) -> RecordKind {
    RecordKind::Spawned(Spawned {
        agent_id: id(agent),
        harness_version: "test".into(),
        model: None,
        pid: Some(pid),
        start_id: None,
    })
}

fn state(agent: &str, state: NodeState) -> RecordKind {
    RecordKind::StateChanged { agent_id: id(agent), state }
}

fn exited(agent: &str) -> RecordKind {
    RecordKind::Exited {
        agent_id: id(agent),
        status: ExitStatus::Clean,
        exit: ProcessExit { code: Some(0), signal: None, description: "already done".into() },
    }
}

fn blank(agent: &AgentId, ts: u64) -> ReplayedNode {
    ReplayedNode {
        agent_id: agent.clone(),
        intent: None,
        harness_version: None,
        model: None,
        state: NodeState::Spawning,
        reap_state: ReapState::Live,
        first_ts: Some(ts),
        state_ts: None,
        spawn_aborted: false,
        spawn_confirmed: false,
        pid: None,
        reap_intent: false,
        harness_session: None,
        harness_pane: false,
        launch_workspace: None,
        spawn_generation: 0,
    }
}

fn empty_registry() -> Registry {
    Registry {
        nodes: vec![],
        read_point: ReplayPoint { records: 0, src_seq: None },
        stopped: None,
        path: "/state/p/journal.jsonl".into(),
        project: Some("/state/p".into()),
    }
}

fn node_mut<'a>(reg: &'a mut Registry, agent: &AgentId, ts: u64) -> &'a mut ReplayedNode {
    let at = match reg.nodes.iter().position(|n| n.agent_id == *agent) {
        Some(at) => at,
        None => {
            reg.nodes.push(blank(agent, ts));
            reg.nodes.len() - 1
        }
    };
    &mut reg.nodes[at]
}

fn apply(reg: &mut Registry, kind: RecordKind, ts: u64) {
    reg.read_point.records += 1;
    match kind {
        RecordKind::SpawnIntent(i) => {
            let agent = i.agent_id.clone();
            node_mut(reg, &agent, ts).intent = Some(i);
        }
        RecordKind::Spawned(s) => {
            let n = node_mut(reg, &s.agent_id, ts);
            n.spawn_confirmed = true;
            n.pid = s.pid;
            n.harness_version = Some(s.harness_version);
            n.model = s.model;
            n.spawn_generation += 1;
        }
        RecordKind::StateChanged { agent_id, state } => {
            let n = node_mut(reg, &agent_id, ts);
            n.state = state;
            n.state_ts = Some(ts);
        }
        RecordKind::Exited { agent_id, status, .. } => {
            let n = node_mut(reg, &agent_id, ts);
            n.state = NodeState::Exited(status);
            n.state_ts = Some(ts);
            n.reap_state = ReapState::Live;
        }
        RecordKind::KillConfirmed { agent_id, .. } => {
            let n = node_mut(reg, &agent_id, ts);
            n.state = NodeState::Exited(ExitStatus::Cancelled);
            n.state_ts = Some(ts);
        }
        RecordKind::ReapIntent { agent_id, .. } => node_mut(reg, &agent_id, ts).reap_intent = true,
        RecordKind::ReapConfirmed { agent_id } => {
            let n = node_mut(reg, &agent_id, ts);
            n.reap_intent = false;
            n.reap_state = ReapState::ReapedIdle;
        }
        _ => {}
    }
}

fn registry_of(records: Vec<RecordKind>) -> Registry {
    let mut reg = empty_registry();
    for (seq, kind) in records.into_iter().enumerate() {
        apply(&mut reg, kind, 1_000 + seq as u64);
    }
    reg
}

fn tag(kind: &RecordKind) -> &'static str {
    match kind {
        RecordKind::SpawnIntent(_) => "SpawnIntent",
        RecordKind::Spawned(_) => "Spawned",
        RecordKind::StateChanged { .. } => "StateChanged",
        RecordKind::Exited { .. } => "Exited",
        RecordKind::KillIntent { .. } => "KillIntent",
        RecordKind::KillConfirmed { .. } => "KillConfirmed",
        RecordKind::ReapIntent { .. } => "ReapIntent",
        RecordKind::ReapConfirmed { .. } => "ReapConfirmed",
        RecordKind::PermissionDenied { .. } => "PermissionDenied",
        RecordKind::SupervisorExited => "SupervisorExited",
    }
}

const REPO: &str = "/work/repo";
const OWN: u32 = 501;

fn env() -> Env {
    Env {
        project_dir: "/state/p".into(),
        state: "/state".into(),
        project_root: "/work/repo/.git".into(),
        bridge: "/bin/marion-supervisor".into(),
        base_url: Some("http://127.0.0.1:8099/v1".into()),
        auth: Auth::Canned,
    }
}

/// A handle that owns what it spawns.
struct Owning {
    handle: RegistryHandle,
    reg: Registry,
    /// How much has been taken from the source of entropy.
    drawn: u8,
}

fn owning(records: Vec<RecordKind>) -> Owning {
    Owning {
        handle: RegistryHandle::owning(builtins(), env()),
        reg: registry_of(records),
        drawn: 0,
    }
}

fn facts() -> SpawnFacts {
    SpawnFacts {
        alive: true,
        peer: Peer::Uid(OWN),
        own_uid: OWN,
        decoy: "0".repeat(64),
        types: Ok(builtins()),
        native: NativeBindingError::Unbound("nothing was asked for".into()),
        named_project: "/state/p".into(),
        task_id: Ok(TaskId("t-new".into())),
    }
}

impl Owning {
    fn claim(&mut self, agent: &str) -> String {
        self.drawn += 1;
        let entropy = Some([self.drawn; 32]);
        self.handle.claim(&id(agent), Some(TaskId("t".into())), REPO.into(), entropy)
    }

    fn spawn_with(&self, p: AgentSpawnParams, f: SpawnFacts) -> Result<SpawnDecision, RpcError> {
        self.handle.nodes.agent_spawn(p, &self.handle.spawn_env, &self.reg, &f)
    }

    fn spawn(&self, p: AgentSpawnParams) -> Result<SpawnDecision, RpcError> {
        self.spawn_with(p, facts())
    }
}

fn params(caller: Option<SpawnCaller>, secs: u64) -> AgentSpawnParams {
    AgentSpawnParams {
        agent_type: "lead".into(),
        prompt: "do the task".into(),
        native_launch: None,
        caller,
        no_change_record: None,
        pane: None,
        isolation: None,
        allow_concurrent_writes: None,
        repo: None,
        acceptance_criteria: vec![],
        verification: vec![],
        writable_scope: vec!["src/**".into()],
        timeout_secs: Some(secs),
        model: None,
    }
}

fn as_node(agent: &str, token: &str) -> Option<SpawnCaller> {
    Some(SpawnCaller { agent_id: id(agent), node_token: token.into() })
}

fn root_params(secs: u64) -> AgentSpawnParams {
    AgentSpawnParams { repo: Some(REPO.into()), ..params(None, secs) }
}

fn native_process() -> NativeProcess {
    NativeProcess {
        program: b"/native/program-\xff".to_vec(),
        argv: vec![b"--opaque=\xfe".to_vec()],
        cwd: REPO.as_bytes().to_vec(),
        env: vec![NativeEnvVar {
            name: b"NATIVE_MARKER".to_vec(),
            value: b"value-\xfd".to_vec(),
        }],
        cols: 137,
        rows: 43,
        xpixel: 9,
        ypixel: 11,
    }
}

// -------------------------------------------------------------------------------------------------
// Who asks
// -------------------------------------------------------------------------------------------------

#[test]
fn a_socket_spawn_with_a_forged_caller_is_refused_and_journals_nothing() {
    let mut fx = owning(vec![intent("root", None, "lead", 0)]);
    let real = fx.claim("root");
    let last_byte_changed = {
        let (head, tail) = real.split_at(real.len() - 1);
        format!("{head}{}", if tail == "0" { '1' } else { '0' })
    };
    assert_ne!(last_byte_changed, real, "a forgery must differ from the real token");
    for (token, why) in [
        ("not-the-token".to_string(), "a guess"),
        (String::new(), "an empty token"),
        (format!("{real}x"), "the real token with a byte appended"),
        (real[..real.len() - 1].to_string(), "a truncated prefix"),
        (last_byte_changed, "the real token with its last byte changed"),
    ] {
        let e = fx.spawn(params(as_node("root", &token), 1)).expect_err(why);
        assert_eq!(e.kind(), Some(FailureKind::Refused), "{why}: {e:?}");
        assert!(e.message.contains("did not mint that node token"), "{why}: {}", e.message);
    }
    assert_eq!(fx.handle.owned_nodes(), 1, "a refused spawn adds no node to the table");
    assert!(fx.spawn(params(as_node("root", &real), 1)).is_ok(), "the control");
}

#[test]
fn a_caller_naming_a_node_this_supervisor_does_not_own_is_refused_the_same_way() {
    let fx = owning(vec![intent("root", None, "lead", 0)]);
    let e = fx.spawn(params(as_node("nobody", "anything"), 1)).expect_err("unowned");
    assert_eq!(e.kind(), Some(FailureKind::Refused));
    assert!(e.message.contains("did not mint that node token"), "{}", e.message);
    let e = fx.spawn(params(as_node("root", "anything"), 1)).expect_err("never claimed");
    assert!(e.message.contains("did not mint that node token"), "{}", e.message);
}

#[test]
fn a_node_that_was_given_no_token_cannot_spawn() {
    let mut fx = owning(vec![intent("root", None, "lead", 0)]);
    let token = fx.handle.claim(&id("root"), None, REPO.into(), None);
    assert_eq!(token, "");
    for presented in ["", "0", &"0".repeat(64)] {
        let e = fx.spawn(params(as_node("root", presented), 1)).expect_err("it has no token");
        assert!(e.message.contains("did not mint that node token"), "{}", e.message);
    }
}

#[test]
fn the_depth_gate_reads_the_callers_depth_from_the_registry() {
    let ty = agent_type("lead");
    let mut deep = owning(vec![intent("deep", None, "lead", ty.max_depth)]);
    let token = deep.claim("deep");
    let e = deep.spawn(params(as_node("deep", &token), 1)).expect_err("at max_depth");
    assert_eq!(e.kind(), Some(FailureKind::Refused));
    assert!(e.message.contains("max_depth"), "the refusal must name the bound: {}", e.message);
    let mut shallow = owning(vec![intent("shallow", None, "lead", ty.max_depth - 1)]);
    let token = shallow.claim("shallow");
    let Ok(SpawnDecision::Child { caller, .. }) =
        shallow.spawn(params(as_node("shallow", &token), 1))
    else {
        panic!("the same call is admitted below the bound")
    };
    assert_eq!(caller.depth, ty.max_depth - 1);
    assert_eq!(
        check_spawn_gates(&ty, ty.max_depth, 0),
        Err(SpawnGateError::Depth { depth: 3, max_depth: 3 })
    );
}

#[test]
fn the_concurrency_gate_counts_the_callers_children_in_the_journal() {
    let max = agent_type("lead").max_concurrent_children;
    let mut records = vec![intent("root", None, "lead", 0)];
    for i in 0..max {
        records.push(intent(&format!("kid{i}"), Some("root"), "lead", 1));
    }
    let mut fx = owning(records);
    let token = fx.claim("root");
    assert_eq!(live_children_of(&fx.reg, &id("root")), max);
    let e = fx.spawn(params(as_node("root", &token), 1)).expect_err("at the bound");
    assert!(e.message.contains("max_concurrent_children"), "{}", e.message);
    apply(&mut fx.reg, exited("kid0"), 9_000);
    assert_eq!(
        live_children_of(&fx.reg, &id("root")),
        max - 1,
        "a terminal child no longer occupies a place"
    );
    let Ok(SpawnDecision::Child { caller, .. }) = fx.spawn(params(as_node("root", &token), 1))
    else {
        panic!("there is room again")
    };
    assert_eq!(caller.live_children, max - 1);
}

#[test]
fn the_early_native_launch_boundary_owns_only_child_pairing() {
    let caller = SpawnCaller { agent_id: id("caller"), node_token: "token".into() };
    let context = NativeLaunchContext::V1(native_process());
    assert_eq!(validate_native_launch_boundary(None, None), Ok(()));
    assert_eq!(validate_native_launch_boundary(Some(&caller), None), Ok(()));
    assert_eq!(
        validate_native_launch_boundary(Some(&caller), Some(&context)),
        Err(NativeLaunchGateError::ChildMisuse)
    );
    assert_eq!(validate_native_launch_boundary(None, Some(&context)), Ok(()));
}

#[test]
fn a_child_request_carrying_native_launch_is_refused_before_every_side_effect() {
    let fx = owning(vec![]);
    let mut p = params(as_node("not-owned", "not-a-token"), 1);
    p.native_launch = Some(NativeLaunchContext::V1(native_process()));
    let e = fx.spawn(p).expect_err("native launch state is root-only");
    assert_eq!(e.kind(), Some(FailureKind::Refused), "{e:?}");
    assert!(
        e.message.contains("native launch context belongs only on a root"),
        "{}",
        e.message
    );
    assert_eq!(fx.handle.owned_nodes(), 0, "the refusal claims no node");
}

#[test]
fn a_v1_root_native_launch_is_refused_because_its_selector_is_missing() {
    let fx = owning(vec![]);
    let mut p = root_params(1);
    p.native_launch = Some(NativeLaunchContext::V1(native_process()));
    let native = NativeBindingError::Unbound("V1 carries no facade selector".into());
    let e = fx.spawn_with(p, SpawnFacts { native, ..facts() }).expect_err("V1 cannot be bound");
    assert_eq!(e.kind(), Some(FailureKind::Refused), "{e:?}");
    assert!(e.message.contains("V1 carries no facade selector"), "{}", e.message);
    assert!(e.message.contains("Refused before any launch state was created"), "{}", e.message);
    assert_eq!(fx.handle.owned_nodes(), 0);
}

#[test]
fn a_v2_root_native_launch_requires_the_native_bootstrap() {
    let fx = owning(vec![]);
    let mut p = root_params(1);
    p.native_launch =
        Some(NativeLaunchContext::V2 { selector: "atlas".into(), process: native_process() });
    let native = NativeBindingError::Unbound(
        "raw V2 native launch requires the native bootstrap".into(),
    );
    let e = fx.spawn_with(p, SpawnFacts { native, ..facts() }).expect_err("no bootstrap");
    assert_eq!(e.kind(), Some(FailureKind::Refused), "{e:?}");
    assert!(
        e.message.contains("raw V2 native launch requires the native bootstrap"),
        "{}",
        e.message
    );
    let mut p = root_params(1);
    p.native_launch = Some(NativeLaunchContext::V1(native_process()));
    let native = NativeBindingError::UnsupportedPlatform("no byte-exact values".into());
    let e = fx.spawn_with(p, SpawnFacts { native, ..facts() }).expect_err("unsupported");
    assert_eq!(e.kind(), Some(FailureKind::Unsupported), "{e:?}");
}

#[test]
fn a_root_spec_carries_the_bound_the_operator_asked_for() {
    let ty = agent_type("lead");
    let asked = root_spec_from_spawn(root_params(300), REPO.into(), &env(), &ty);
    assert_eq!(asked.bound_secs, 300);
    let mut p = root_params(300);
    p.timeout_secs = None;
    let silent = root_spec_from_spawn(p, REPO.into(), &env(), &ty);
    assert_eq!(silent.bound_secs, ty.timeout_secs);
    assert_ne!(asked.bound_secs, silent.bound_secs);
    assert_eq!(blocked_bound_secs(None, 12), 12);
}

#[test]
fn root_spec_construction_preserves_native_launch_byte_for_byte() {
    let mut p = root_params(1);
    p.native_launch = Some(NativeLaunchContext::V1(native_process()));
    let spec = root_spec_from_spawn(p, REPO.into(), &env(), &agent_type("lead"));
    let Some(NativeLaunchContext::V1(carried)) = spec.native_launch else {
        panic!("the root spec carries native context")
    };
    let expected = native_process();
    assert_eq!(carried.program, expected.program);
    assert_eq!(carried.argv, expected.argv);
    assert_eq!(carried.cwd, expected.cwd);
    assert_eq!(carried.env[0].name, expected.env[0].name);
    assert_eq!(carried.env[0].value, expected.env[0].value);
    assert_eq!((carried.cols, carried.rows), (137, 43));
    assert_eq!((carried.xpixel, carried.ypixel), (9, 11));
}

#[test]
fn a_client_creating_a_root_reaches_the_launcher_rather_than_a_step_that_would_serve_it() {
    let fx = owning(vec![]);
    let p = AgentSpawnParams { agent_type: "no-such-agent-type".into(), ..root_params(1) };
    let e = fx.spawn(p).expect_err("no build has that agent type");
    assert!(!e.message.contains("step 6"), "{}", e.message);
    assert_eq!(e.kind(), Some(FailureKind::Refused), "{e:?}");
    assert!(
        e.message.contains("the agent type is not a built-in and not a row"),
        "the frame reached the root launcher: {}",
        e.message
    );
    assert_eq!(fx.handle.owned_nodes(), 0, "and no node was claimed");
}

#[test]
fn a_root_of_another_project_is_sent_to_that_projects_supervisor() {
    let fx = owning(vec![]);
    let f = SpawnFacts { named_project: "/state/q".into(), ..facts() };
    let e = fx.spawn_with(root_params(1), f).expect_err("another project");
    assert_eq!(e.kind(), Some(FailureKind::Refused));
    assert_eq!(e.subject.as_deref(), Some("repo"));
    assert!(
        e.message.starts_with(
            "this supervisor serves the project keyed at /state/p, and /work/repo keys to /state/q."
        ),
        "{}",
        e.message
    );
}

#[test]
fn a_caller_that_states_no_change_record_is_refused_by_name() {
    let mut fx = owning(vec![intent("root", None, "lead", 0)]);
    let token = fx.claim("root");
    let p = AgentSpawnParams {
        no_change_record: Some(false),
        ..params(as_node("root", &token), 1)
    };
    let e = fx.spawn(p).expect_err("a child has no change record to decline");
    assert_eq!(e.kind(), Some(FailureKind::Refused));
    assert!(e.message.contains("must not state `no_change_record`"), "{}", e.message);
}

#[test]
fn each_field_that_belongs_to_the_other_kind_is_refused_by_name() {
    let mut fx = owning(vec![intent("root", None, "lead", 0)]);
    let token = fx.claim("root");
    let child = AgentSpawnParams { pane: Some(false), ..params(as_node("root", &token), 1) };
    let e = fx.spawn(child).expect_err("a child has no pane to ask for");
    assert!(e.message.contains("must not state `pane`"), "{}", e.message);
    assert_eq!(e.subject.as_deref(), Some("pane"));
    let root = AgentSpawnParams { isolation: Some(Isolation::Worktree), ..root_params(1) };
    let e = fx.spawn(root).expect_err("a root runs where it is");
    assert_eq!(e.subject.as_deref(), Some("isolation"));
    let root = AgentSpawnParams { allow_concurrent_writes: Some(true), ..root_params(1) };
    let e = fx.spawn(root).expect_err("a root shares nothing");
    assert_eq!(e.subject.as_deref(), Some("allow_concurrent_writes"));
}

#[test]
fn root_creation_is_refused_to_a_peer_that_is_not_this_supervisors_own_user() {
    assert!(root_spawn_authorized(Peer::Uid(OWN), OWN).is_ok());
    let e = root_spawn_authorized(Peer::Uid(OWN.wrapping_add(1)), OWN)
        .expect_err("another user's process may not start work here");
    assert_eq!(e.kind(), Some(FailureKind::Refused));
    assert!(e.message.contains("filesystem permission on the socket"), "{}", e.message);
    let e = root_spawn_authorized(Peer::Unknown, OWN).expect_err("an unmade check refuses");
    assert_eq!(e.kind(), Some(FailureKind::Refused));
    assert!(
        e.message.contains("could not read this connection's peer credentials"),
        "{}",
        e.message
    );
}

#[test]
fn an_unauthorized_root_native_request_gets_the_credential_refusal_first() {
    let fx = owning(vec![]);
    let mut p = root_params(1);
    p.native_launch = Some(NativeLaunchContext::V1(native_process()));
    let native = NativeBindingError::Unbound("V1 carries no facade selector".into());
    let e = fx
        .spawn_with(p, SpawnFacts { native, peer: Peer::Unknown, ..facts() })
        .expect_err("an unreadable peer may not create a native root");
    assert_eq!(e.kind(), Some(FailureKind::Refused), "{e:?}");
    assert!(
        e.message.contains("could not read this connection's peer credentials"),
        "{}",
        e.message
    );
    assert!(
        !e.message.contains("native facade")
            && !e.message.contains("byte-exact operating-system")
            && !e.message.contains("V1 carries no facade selector"),
        "an unauthorized peer learned native support state: {}",
        e.message
    );
    assert_eq!(fx.handle.owned_nodes(), 0);
}

#[test]
fn the_peer_check_does_not_stand_in_for_a_node_token() {
    let fx = owning(vec![intent("root", None, "lead", 0)]);
    let e = fx.spawn(params(as_node("root", "not-the-token"), 1)).expect_err("no capability");
    assert!(e.message.contains("did not mint that node token"), "{}", e.message);
}

#[test]
fn a_caller_that_states_its_own_repository_is_refused_by_name() {
    let mut fx = owning(vec![intent("root", None, "lead", 0)]);
    let token = fx.claim("root");
    let p = AgentSpawnParams { repo: Some(REPO.into()), ..params(as_node("root", &token), 1) };
    let e = fx.spawn(p).expect_err("a caller may not state its own repository");
    assert_eq!(e.kind(), Some(FailureKind::Refused));
    assert!(e.message.contains("must not state a `repo`"), "{}", e.message);
}

#[test]
fn a_root_spawn_that_states_no_repository_is_refused_by_name() {
    let fx = owning(vec![]);
    let e = fx.spawn(params(None, 1)).expect_err("a root spawn must name its tree");
    assert_eq!(e.kind(), Some(FailureKind::Refused), "{e:?}");
    assert!(e.message.contains("only the client knows which tree"), "{}", e.message);
}

#[test]
fn a_supervisor_that_cannot_spawn_refuses_by_naming_the_build_not_a_missing_directory() {
    let handle = RegistryHandle::new(builtins());
    let reg = registry_of(vec![intent("root", None, "lead", 0)]);
    let p = AgentSpawnParams { repo: Some("/r".into()), ..params(None, 1) };
    let e = handle
        .nodes
        .agent_spawn(p, &handle.spawn_env, &reg, &facts())
        .expect_err("a handle built by `new` owns nothing");
    assert_eq!(e.kind(), Some(FailureKind::Unimplemented));
    assert!(e.message.contains("RegistryHandle::new"), "{}", e.message);
}

#[test]
fn what_a_spawn_does_not_state_is_resolved_once() {
    let mut fx = owning(vec![intent("root", None, "lead", 0)]);
    let token = fx.claim("root");
    let p = AgentSpawnParams { timeout_secs: None, ..params(as_node("root", &token), 1) };
    let Ok(SpawnDecision::Child { req, task_id, caller }) = fx.spawn(p) else {
        panic!("the spawn is admitted")
    };
    assert_eq!(req.timeout_secs, 900);
    assert_eq!(req.isolation, Isolation::Worktree);
    assert!(!req.allow_concurrent_writes);
    assert_eq!(req.repo, REPO, "the caller's own tree");
    assert_eq!(req.writable_scope, ["src/**"]);
    assert_eq!(task_id, TaskId("t-new".into()));
    assert_eq!(caller.agent_id, "root");
    let f = SpawnFacts { task_id: Err("no entropy".into()), ..facts() };
    let e = fx.spawn_with(params(as_node("root", &token), 1), f).expect_err("no task id");
    assert_eq!(
        e.message,
        "marion could not mint a task id for this spawn, so nothing was started: no entropy"
    );
    let f = SpawnFacts { alive: false, ..facts() };
    let e = fx.spawn_with(params(as_node("root", &token), 1), f).expect_err("being dropped");
    assert_eq!(e.kind(), Some(FailureKind::Internal));
}

#[test]
fn two_roots_of_one_supervisor_give_their_children_their_own_trees() {
    let mut fx = owning(vec![intent("a", None, "lead", 0), intent("b", None, "lead", 0)]);
    let a = fx.handle.claim(&id("a"), None, "/work/one".into(), Some([1; 32]));
    let b = fx.handle.claim(&id("b"), None, "/work/two".into(), Some([2; 32]));
    for (agent, token, tree) in [("a", &a, "/work/one"), ("b", &b, "/work/two")] {
        let Ok(SpawnDecision::Child { req, .. }) = fx.spawn(params(as_node(agent, token), 1))
        else {
            panic!("the spawn is admitted")
        };
        assert_eq!(req.repo, tree);
    }
    assert!(fx.spawn(params(as_node("a", &b), 1)).is_err(), "a token is one node's");
}

#[test]
fn every_node_gets_its_own_unguessable_token() {
    let mut fx = owning(vec![]);
    let a = fx.claim("a");
    let b = fx.claim("b");
    assert_ne!(a, b, "a per-node token that is not per-node is a fleet token");
    assert_eq!(a.len(), 64, "32 bytes as hex");
    assert!(a.chars().all(|c| c.is_ascii_hexdigit()), "{a}");
    assert_eq!(a, "01".repeat(32));
    let mut kept = None;
    let decoy = decoy_token(&mut kept, Some([0xab; 32]));
    assert_eq!(decoy, "ab".repeat(32));
    assert_eq!(decoy_token(&mut kept, Some([0xcd; 32])), decoy, "minted once and kept");
}

#[test]
fn a_recorded_type_is_resumed_only_under_the_harness_it_was_journaled_with() {
    let table = |harness: &str| {
        let mut t = builtins();
        t.rows.push(AgentType { harness: Harness(harness.into()), ..agent_type("critic") });
        Ok(t)
    };
    let recorded = SpawnIntent {
        agent_id: id("r"),
        parent_id: None,
        agent_type: "critic".into(),
        harness: Harness("codex".into()),
        depth: 1,
        task_id: None,
        timeout_secs: Some(60),
    };
    assert_eq!(
        recorded_type(&table("codex"), &recorded).unwrap().harness,
        Harness("codex".into())
    );
    let e = recorded_type(&table("gemini"), &recorded).unwrap_err();
    assert!(
        e.message.contains("journaled as codex") && e.message.contains("now says gemini"),
        "{e:?}"
    );
    let e = recorded_type(&Ok(builtins()), &recorded).unwrap_err();
    assert_eq!(e.kind(), Some(FailureKind::NotFound), "{e:?}");
    let builtin = SpawnIntent {
        agent_type: "lead".into(),
        harness: harness("lead"),
        ..recorded
    };
    assert_eq!(recorded_type(&Ok(builtins()), &builtin).unwrap().harness, harness("lead"));
    let e = recorded_type(&Err("agents.toml: line 1".into()), &builtin).unwrap_err();
    assert!(e.message.contains("agents.toml"), "{e:?}");
}

// -------------------------------------------------------------------------------------------------
// Launching
// -------------------------------------------------------------------------------------------------

#[test]
fn a_child_launch_failure_quotes_the_reason_the_thread_filed() {
    let why = "compiling the child's launch: codex: no mapping for marion tool `read`; this \
               harness's adapter provides none";
    let err = spawn_failed_before_the_process_existed(&id("a1"), Some(why));
    assert!(err.message.contains(why), "the sentence survives: {}", err.message);
    assert!(err.message.contains("a1"), "and the node is named: {}", err.message);
    let none = spawn_failed_before_the_process_existed(&id("a1"), None);
    assert!(
        none.message.contains("filed no reason"),
        "a thread that filed nothing is reported as such: {}",
        none.message
    );
    assert_eq!(launch_failed_reason(Some("x")), "x");
    assert_eq!(
        root_launch_failed(&id("r"), Some("no tree")).message,
        "root `r` was journaled and its launch failed before any process existed: no tree"
    );
}

#[test]
fn a_launch_that_is_still_running_at_the_bound_is_not_called_failed() {
    let e = launch_bound_expired(None);
    assert!(e.message.starts_with("marion started this spawn and did not observe"), "{e:?}");
    assert!(e.message.contains("within 60s"), "{e:?}");
    assert_eq!(e.subject, None);
    let e = launch_bound_expired(Some(&id("n")));
    assert!(e.message.starts_with("marion started node `n` and did not"), "{e:?}");
    assert_eq!(e.subject.as_deref(), Some("n"));

    let mut fx = owning(vec![]);
    let e = fx.handle.nodes.launch_identified(Waited::Expired, 1).expect_err("the bound passed");
    assert!(e.message.contains("This is not a statement that the spawn failed"), "{e:?}");
    let e = fx
        .handle
        .nodes
        .launch_identified(Waited::Heard(Progress::Finished), 1)
        .expect_err("it never had an identity");
    assert_eq!(e.kind(), Some(FailureKind::Refused));
    fx.claim("n");
    let got =
        fx.handle.nodes.launch_identified(Waited::Heard(Progress::Identified(id("n"))), 9).unwrap();
    assert_eq!(got, id("n"));
    assert_eq!(fx.handle.nodes.table.entries[0].1.join, Some(9), "the thread is parked");
    assert!(fx
        .handle
        .nodes
        .await_started(LaunchKind::Child, Waited::Expired, &id("n"))
        .is_err());
    assert!(fx
        .handle
        .nodes
        .await_started(LaunchKind::Root, Waited::Heard(Progress::Started), &id("n"))
        .is_ok());
}

#[test]
fn a_node_thread_that_panics_after_its_claim_still_reaches_a_terminal_outcome() {
    let mut fx = owning(vec![]);
    fx.claim("n");
    fx.handle
        .nodes
        .launch_identified(Waited::Heard(Progress::Identified(id("n"))), 5)
        .expect("it was claimed");
    assert_eq!(fx.handle.running_nodes(), 1);
    fx.handle
        .nodes
        .mark_finished(&id("n"), NodeOutcome::Root(Err(root_panicked("lead"))));
    let e = fx
        .handle
        .nodes
        .await_started(LaunchKind::Root, Waited::Heard(Progress::Finished), &id("n"))
        .expect_err("no process ever existed");
    assert!(e.message.contains("panicked"), "{}", e.message);
    assert_eq!(fx.handle.running_nodes(), 0, "a node whose thread panicked is not running");
    let why = fx.handle.owned_failure(&id("n")).expect("a failure to report");
    assert!(why.contains("panicked"), "{why}");
    assert!(fx.handle.idle_exit_eligible(&fx.reg).0);
    assert_eq!(fx.handle.begin_idle_exit(&fx.reg).0, Some(vec![5]), "its thread is joined");
    assert!(fx.handle.idle_exit_journaled(Ok(())).is_ok());
    assert!(fx.handle.exiting());
}

/// A child's panic, in the launcher's own words.
fn spawn_panicked(agent_type: &str) -> String {
    format!("the thread running `{agent_type}` panicked, so there is no contract to answer with")
}

#[test]
fn a_child_threads_panic_is_that_childs_own_terminal_outcome() {
    let mut fx = owning(vec![intent("root", None, "lead", 0)]);
    let token = fx.claim("root");
    let decision = fx
        .spawn_with(params(as_node("root", &token), 1), facts())
        .expect("the caller is proven and may have a child");
    let SpawnDecision::Child { req, task_id, .. } = decision else {
        panic!("a proven caller's spawn is a child")
    };
    let given = fx.handle.identified(&id("child"), Some(task_id), req.repo, Some([9u8; 32]));
    assert!(given.is_some());
    fx.handle
        .nodes
        .launch_identified(Waited::Heard(Progress::Identified(id("child"))), 5)
        .expect("it was claimed");
    let (outcome, notice) = caught(
        "lead",
        Err(PanicPayload::Literal("a node thread panicking after its claim".into())),
        spawn_panicked("lead"),
    );
    assert!(notice.is_some());
    fx.handle.nodes.mark_finished(&id("child"), NodeOutcome::Child(outcome));
    fx.handle
        .nodes
        .await_started(LaunchKind::Child, Waited::Heard(Progress::Finished), &id("child"))
        .expect_err("the child's thread panicked, so no process ever existed");

    assert_eq!(fx.handle.owned_running(&id("child")), Some(false), "**terminal.**");
    let why = fx.handle.owned_failure(&id("child")).expect("a panicked child has a failure");
    assert!(why.contains("panicked") && why.contains("no contract"), "{why}");
    assert_eq!(fx.handle.owned_running(&id("root")), Some(true), "and nobody else's");
}

#[test]
fn a_panic_becomes_each_kind_of_nodes_own_way_of_saying_it_failed() {
    let child = caught(
        "lead",
        Err(PanicPayload::Literal("inside the child's thread".into())),
        spawn_panicked("lead"),
    )
    .0
    .expect_err("a panic is not a success");
    assert_eq!(child, spawn_panicked("lead"));
    assert!(child.contains("no contract"), "{child}");

    let root = caught(
        "codex",
        Err(PanicPayload::Literal("inside the root's thread".into())),
        root_panicked("codex"),
    )
    .0
    .expect_err("a panic is not a success");
    assert!(root.contains("codex") && root.contains("panicked"), "{root}");

    assert_eq!(
        caught("lead", Ok(Ok(())), spawn_panicked("lead")).0,
        Ok(()),
        "and a body that does not panic is passed through untouched"
    );
}

#[test]
fn a_panic_is_quoted_as_far_as_it_can_be_printed() {
    assert_eq!(panic_text(&PanicPayload::Literal("a".into())), "a");
    assert_eq!(panic_text(&PanicPayload::Text("b".into())), "b");
    assert_eq!(panic_text(&PanicPayload::Opaque), "a panic payload of an unprintable type");
    let said = root_panicked("codex");
    assert!(said.contains("codex") && said.contains("panicked"), "{said}");
}

#[test]
fn a_panicked_thread_is_a_failed_run_and_is_said_aloud() {
    let (outcome, notice) = caught(
        "codex",
        Err(PanicPayload::Literal("inside the root's thread".into())),
        root_panicked("codex"),
    );
    assert_eq!(outcome, Err(root_panicked("codex")));
    assert_eq!(
        notice.as_deref(),
        Some(
            "marion-supervisor: the thread running the codex node panicked, which is a defect in \
             marion: inside the root's thread. The node is resolved as a failed run so this \
             supervisor can still exit (§5.7); its journal records end with the abort the unwind \
             wrote."
        )
    );
    assert_eq!(
        caught("lead", Ok(Ok(())), "unused".into()),
        (Ok(()), None),
        "a body that does not panic is passed through untouched"
    );
    assert_eq!(
        caught("lead", Ok(Err("it failed".into())), "unused".into()),
        (Err("it failed".to_string()), None)
    );
}

#[test]
fn a_node_without_entropy_is_claimed_and_given_no_token() {
    let mut fx = owning(vec![intent("root", None, "lead", 0)]);
    let given = fx.handle.identified(&id("a"), None, "/repo".into(), Some([0xabu8; 32]));
    assert_eq!(given, Some("ab".repeat(32)));
    assert_eq!(fx.handle.identified(&id("b"), None, "/repo".into(), None), None);
    assert_eq!(fx.handle.owned_running(&id("a")), Some(true));
    assert_eq!(fx.handle.owned_running(&id("b")), Some(true));
}

#[test]
fn the_spawn_response_names_a_node_whose_spawned_record_is_already_on_disk() {
    let mut fx = owning(vec![intent("root", None, "lead", 0)]);
    fx.claim("root");
    fx.claim("child");
    assert_eq!(
        spawned_state(&fx.reg, &id("child")),
        NodeState::Spawning,
        "nothing is read yet"
    );
    apply(&mut fx.reg, intent("child", Some("root"), "lead", 1), 1);
    apply(&mut fx.reg, spawned("child", 4321), 2);
    fx.handle.nodes.mark_started(&id("child"), 4321, 4321, 77);
    apply(&mut fx.reg, state("child", NodeState::Running), 3);
    assert_eq!(spawned_state(&fx.reg, &id("child")), NodeState::Running);
    assert_eq!(fx.handle.owned_pid(&id("child")), fx.reg.get(&id("child")).unwrap().pid);
    assert_eq!(fx.handle.owned_pgid(&id("child")), Some(4321));
    assert_eq!(fx.handle.owned_started_at(&id("child")), Some(77));
    assert!(fx.handle.owned_task_id(&id("child")).is_some());
    assert_eq!(fx.handle.owned_nodes(), 2, "the caller and its child");
    fx.handle.nodes.mark_started(&id("child"), 4321, -1, 77);
    assert_eq!(fx.handle.owned_pgid(&id("child")), None, "a failed answer is no group");
}

#[test]
fn a_childs_requested_bound_is_what_the_tree_reports() {
    let mut fx = owning(vec![intent("root", None, "lead", 0)]);
    let token = fx.claim("root");
    let Ok(SpawnDecision::Child { req, .. }) = fx.spawn(params(as_node("root", &token), 120))
    else {
        panic!("the spawn is admitted")
    };
    let RecordKind::SpawnIntent(mut i) = intent("child", Some("root"), "lead", 1) else {
        panic!()
    };
    i.timeout_secs = Some(req.timeout_secs);
    apply(&mut fx.reg, RecordKind::SpawnIntent(i), 5);
    let (_, snap) = fx.handle.subscribe(&fx.reg);
    let child = snap.nodes.iter().find(|n| n.agent_id == id("child")).expect("it is in the tree");
    assert_eq!(child.timeout_secs, 120);
    assert_ne!(child.timeout_secs, agent_type("lead").timeout_secs);
}

// -------------------------------------------------------------------------------------------------
// Resuming
// -------------------------------------------------------------------------------------------------

/// A lost root: nothing of its process is left, and its stream named a session.
fn lost_root(session: &str, pid: Option<i32>) -> Registry {
    let mut reg = registry_of(vec![
        intent("root", None, "lead", 0),
        RecordKind::Spawned(Spawned {
            agent_id: id("root"),
            harness_version: "test".into(),
            model: None,
            pid,
            start_id: None,
        }),
    ]);
    reg.nodes[0].harness_session = Some(session.into());
    reg.nodes[0].reap_state = ReapState::Orphaned;
    reg
}

/// A lost root and its lost child.
fn lost_root_and_child(workspace: Option<Workspace>) -> Registry {
    let mut reg = lost_root("sess-root", None);
    apply(
        &mut reg,
        RecordKind::SpawnIntent(SpawnIntent {
            agent_id: id("child"),
            parent_id: Some(id("root")),
            agent_type: "lead".into(),
            harness: harness("lead"),
            depth: 1,
            task_id: Some(TaskId("t-lost-child".into())),
            timeout_secs: None,
        }),
        3,
    );
    let child = node_mut(&mut reg, &id("child"), 3);
    child.spawn_confirmed = true;
    child.spawn_generation = 1;
    child.harness_session = Some("sess-child".into());
    child.launch_workspace = workspace;
    child.reap_state = ReapState::Orphaned;
    reg
}

fn worktree() -> Workspace {
    Workspace::Worktree {
        path: "/state/p/agents/child/worktree".into(),
        branch: "marion/t-lost-child".into(),
    }
}

/// What a resume asked of the outside.
#[derive(Default)]
struct Asked {
    wrote: Vec<&'static str>,
    killed: Vec<i32>,
    launched: Option<Relaunch>,
}

fn resume(
    reg: &Registry,
    agent: &str,
    probed: Resolution,
    workspace_exists: bool,
    asked: &mut Asked,
) -> Result<NodeResumeResult, RpcError> {
    let facts = ResumeFacts { alive: true, peer: Peer::Uid(OWN), own_uid: OWN };
    let node = node_resume(&facts, true, reg, &id(agent))?;
    let mut resuming = Resuming::begin(node, probed)?;
    while let Some(action) = resuming.action() {
        let event = match action {
            SweepAction::Append(kind) => {
                asked.wrote.push(tag(kind));
                SweepEvent::Appended(Ok(()))
            }
            SweepAction::Kill(pid) => {
                asked.killed.push(pid);
                SweepEvent::Killed(true)
            }
        };
        resuming.step(event)?;
    }
    let facts = ChildFacts {
        workspace_exists,
        parent_types: Ok(builtins()),
        types: Ok(builtins()),
    };
    asked.launched = Some(resuming.relaunch(reg, &env(), "carry on from here", &facts)?);
    Ok(resuming.resumed(id(agent), NodeState::Spawning))
}

#[test]
fn resume_relaunches_an_orphan_into_its_own_node_id_through_agent_spawns_path() {
    let reg = lost_root("sess-relaunch", None);
    let mut asked = Asked::default();
    let r = resume(&reg, "root", Resolution::Gone, true, &mut asked).expect("it relaunches");
    assert_eq!(r.agent_id, id("root"), "the node keeps its own id");
    assert_eq!(r.spawn_generation, 2, "the second lifetime of one node");
    let Some(Relaunch::Root(spec)) = asked.launched else {
        panic!("a root is relaunched as one")
    };
    assert_eq!(spec.agent_type, "lead");
    assert_eq!(spec.prompt, "carry on from here");
    assert_eq!(spec.repo, "/work/repo", "the working tree, not the directory it is keyed on");
    assert_eq!(spec.bound_secs, 900);
    let (who, session) = spec.resume.expect("its session is handed back");
    assert_eq!(who, id("root"));
    assert_eq!(session, "sess-relaunch");
    assert!(asked.wrote.is_empty() && asked.killed.is_empty());
    assert_eq!(resumable_root_cwd("/elsewhere/bare"), "/elsewhere/bare");
}

#[test]
fn resume_relaunches_a_lost_child_into_its_own_node_id_under_its_parent() {
    let reg = lost_root_and_child(Some(worktree()));
    let mut asked = Asked::default();
    let r = resume(&reg, "child", Resolution::Gone, true, &mut asked).expect("it relaunches");
    assert_eq!(r.agent_id, id("child"), "the node keeps its own id");
    assert_eq!(r.spawn_generation, 2, "the second lifetime of one node");
    let Some(Relaunch::Child(c)) = asked.launched else {
        panic!("a child is relaunched as one")
    };
    assert_eq!(c.caller.agent_id, "root", "under the same parent");
    assert_eq!(c.caller.depth, 0);
    assert_eq!(c.task_id, TaskId("t-lost-child".into()));
    assert_eq!(c.req.isolation, Isolation::Worktree);
    assert_eq!(c.req.timeout_secs, 900);
    let back = c.req.resume.expect("its session is handed back");
    assert_eq!(back.session, "sess-child");
    assert_eq!(back.workspace.path(), "/state/p/agents/child/worktree");
}

#[test]
fn resume_refuses_a_child_whose_recorded_worktree_is_gone() {
    let reg = lost_root_and_child(Some(worktree()));
    let mut asked = Asked::default();
    let e = resume(&reg, "child", Resolution::Gone, false, &mut asked).expect_err("reaped");
    assert_eq!(e.kind(), Some(FailureKind::Refused), "{e:?}");
    assert!(e.message.contains("no longer exists"), "{}", e.message);
    assert!(asked.launched.is_none() && asked.wrote.is_empty(), "nothing was launched");
    let reg = lost_root_and_child(None);
    let e = resume(&reg, "child", Resolution::Gone, true, &mut asked).expect_err("unrecorded");
    assert_eq!(e.kind(), Some(FailureKind::Refused), "{e:?}");
    assert!(e.message.contains("does not record"), "{}", e.message);
}

#[test]
fn resume_refuses_a_child_whose_parent_is_still_live() {
    let mut reg = lost_root_and_child(None);
    node_mut(&mut reg, &id("root"), 0).reap_state = ReapState::Live;
    let child = node_mut(&mut reg, &id("child"), 0);
    child.reap_state = ReapState::Live;
    child.state = NodeState::Exited(ExitStatus::Failed);
    let mut asked = Asked::default();
    let e = resume(&reg, "child", Resolution::Gone, true, &mut asked).expect_err("live parent");
    assert_eq!(e.kind(), Some(FailureKind::Refused), "{e:?}");
    assert!(e.message.contains("still live"), "{}", e.message);
    assert!(e.message.contains("parent `root` is still live (Spawning)"), "{}", e.message);
    assert!(asked.launched.is_none(), "nothing was launched");
}

#[test]
fn resume_refuses_when_the_orphans_process_cannot_be_identified() {
    let reg = lost_root("sess-cannot", Some(4242));
    let mut asked = Asked::default();
    let e = resume(&reg, "root", Resolution::CannotTell, true, &mut asked).expect_err("unproven");
    assert_eq!(e.kind(), Some(FailureKind::Conflict), "{e:?}");
    assert!(e.message.contains("cannot prove"), "{}", e.message);
    assert!(asked.wrote.is_empty() && asked.killed.is_empty() && asked.launched.is_none());
}

#[test]
fn a_surviving_process_is_ended_before_its_node_is_relaunched() {
    let reg = lost_root("sess", Some(77));
    let mut asked = Asked::default();
    resume(&reg, "root", Resolution::AliveAndOurs, true, &mut asked).expect("it is cleared first");
    assert_eq!(asked.wrote, ["KillIntent", "KillConfirmed"]);
    assert_eq!(asked.killed, [77]);
    let mut resuming = Resuming::begin(&reg.nodes[0], Resolution::AliveAndOurs).unwrap();
    resuming.step(SweepEvent::Appended(Ok(()))).unwrap();
    let e = resuming.step(SweepEvent::Killed(false)).expect_err("it was not seen dead");
    assert!(e.message.contains("will not start a second process"), "{}", e.message);
}

#[test]
fn each_thing_a_resume_needs_is_refused_by_name() {
    let facts = |peer| ResumeFacts { alive: true, peer, own_uid: OWN };
    let own = facts(Peer::Uid(OWN));
    let reg = lost_root("s", None);
    let why = |r: Result<&ReplayedNode, RpcError>| r.expect_err("refused");
    assert!(why(node_resume(&facts(Peer::Unknown), true, &reg, &id("root")))
        .message
        .contains("peer credentials"));
    let e = why(node_resume(&own, false, &reg, &id("root")));
    assert_eq!(e.kind(), Some(FailureKind::Unimplemented));
    let dropped = ResumeFacts { alive: false, ..facts(Peer::Uid(OWN)) };
    assert_eq!(
        why(node_resume(&dropped, true, &reg, &id("root"))).kind(),
        Some(FailureKind::Internal)
    );
    assert!(why(node_resume(&own, true, &reg, &id("x"))).message.contains("nothing to resume"));

    let mut live = lost_root("s", None);
    live.nodes[0].reap_state = ReapState::Live;
    live.nodes[0].state = NodeState::Running;
    let e = why(node_resume(&own, true, &live, &id("root")));
    assert!(e.message.contains("`root` is still live (Running)"), "{}", e.message);

    let mut silent = lost_root("s", None);
    silent.nodes[0].harness_session = None;
    let e = why(node_resume(&own, true, &silent, &id("root")));
    assert!(e.message.contains("named no harness session"), "{}", e.message);

    let mut nameless = lost_root("s", None);
    nameless.nodes[0].intent = None;
    let e = why(node_resume(&own, true, &nameless, &id("root")));
    assert!(e.message.contains("no `SpawnIntent`"), "{}", e.message);
    assert_eq!(e.citation.as_deref(), Some("§4.3, §7.2"));
}

#[test]
fn a_child_whose_place_or_task_is_not_recorded_is_refused_by_name() {
    let mut asked = Asked::default();
    let mut ask = |reg: &Registry| {
        resume(reg, "child", Resolution::Gone, true, &mut asked).expect_err("refused").message
    };
    let intent_of = |reg: &mut Registry, f: &dyn Fn(&mut SpawnIntent)| {
        let n = node_mut(reg, &id("child"), 0);
        f(n.intent.as_mut().unwrap());
    };
    let mut reg = lost_root_and_child(Some(worktree()));
    intent_of(&mut reg, &|i| i.parent_id = None);
    assert!(ask(&reg).contains("no parent"));
    let mut reg = lost_root_and_child(Some(worktree()));
    intent_of(&mut reg, &|i| i.parent_id = Some(id("ghost")));
    assert!(ask(&reg).contains("names `ghost` as its parent"));
    let mut reg = lost_root_and_child(Some(worktree()));
    intent_of(&mut reg, &|i| i.task_id = None);
    assert!(ask(&reg).contains("no task on its intent"));
}
