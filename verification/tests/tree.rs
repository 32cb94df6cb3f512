use marion_supervisor::error::FailureKind;
use marion_supervisor::handle::RegistryHandle;
use marion_supervisor::model::{
    AgentId, AgentType, AgentTypes, ConnId, ExitStatus, Harness, NodeState, ReapState, Registry,
    ReplayPoint, ReplayedNode, SpawnIntent,
};
use marion_supervisor::project::{read_point, summarize, Unprojectable};
use marion_supervisor::records::{ProcessExit, RecordKind, Spawned};
use marion_supervisor::tree::Event;

fn id(s: &str) -> AgentId {
    AgentId(s.into())
}

fn harness(ty: &str) -> Harness {
    Harness(if ty == "lead" { "lead-code" } else { "codex" }.into())
}

fn agent_type(name: &str) -> AgentType {
    AgentType {
        name: name.into(),
        harness: harness(name),
        timeout_secs: 900,
        model: None,
        max_depth: 3,
        max_concurrent_children: 4,
    }
}

fn builtins() -> AgentTypes {
    AgentTypes { rows: vec![agent_type("lead"), agent_type("codex-impl")] }
}

fn intent(agent: &str, parent: Option<&str>, ty: &str, depth: u32) -> RecordKind {
    RecordKind::SpawnIntent(SpawnIntent {
        agent_id: id(agent),
        parent_id: parent.map(id),
        agent_type: ty.into(),
        harness: harness(ty),
        depth,
        task_id: None,
        timeout_secs: None,
    })
}

fn state(agent: &str, state: NodeState) -> RecordKind {
    RecordKind::StateChanged { agent_id: id(agent), state }
}

fn exited(agent: &str) -> RecordKind {
    RecordKind::Exited {
        agent_id: id(agent),
        status: ExitStatus::Clean,
        exit: ProcessExit { code: Some(0), signal: None, description: "already done".into() },
    }
}

fn blank(agent: &AgentId, ts: u64) -> ReplayedNode {
    ReplayedNode {
        agent_id: agent.clone(),
        intent: None,
        harness_version: None,
        model: None,
        state: NodeState::Spawning,
        reap_state: ReapState::Live,
        first_ts: Some(ts),
        state_ts: None,
        spawn_aborted: false,
        spawn_confirmed: false,
        pid: None,
        reap_intent: false,
        harness_session: None,
        harness_pane: false,
        launch_workspace: None,
        spawn_generation: 0,
    }
}

fn empty_registry() -> Registry {
    Registry {
        nodes: vec![],
        read_point: ReplayPoint { records: 0, src_seq: None },
        stopped: None,
        path: "/state/p/journal.jsonl".into(),
        project: Some("/state/p".into()),
    }
}

fn node_mut<'a>(reg: &'a mut Registry, agent: &AgentId, ts: u64) -> &'a mut ReplayedNode {
    let at = match reg.nodes.iter().position(|n| n.agent_id == *agent) {
        Some(at) => at,
        None => {
            reg.nodes.push(blank(agent, ts));
            reg.nodes.len() - 1
        }
    };
    &mut reg.nodes[at]
}

fn apply(reg: &mut Registry, kind: RecordKind, ts: u64) {
    reg.read_point.records += 1;
    match kind {
        RecordKind::SpawnIntent(i) => {
            let agent = i.agent_id.clone();
            node_mut(reg, &agent, ts).intent = Some(i);
        }
        RecordKind::Spawned(s) => {
            let n = node_mut(reg, &s.agent_id, ts);
            n.spawn_confirmed = true;
            n.pid = s.pid;
            n.harness_version = Some(s.harness_version);
            n.model = s.model;
            n.spawn_generation += 1;
        }
        RecordKind::StateChanged { agent_id, state } => {
            let n = node_mut(reg, &agent_id, ts);
            n.state = state;
            n.state_ts = Some(ts);
        }
        RecordKind::Exited { agent_id, status, .. } => {
            let n = node_mut(reg, &agent_id, ts);
            n.state = NodeState::Exited(status);
            n.state_ts = Some(ts);
            n.reap_state = ReapState::Live;
        }
        RecordKind::KillConfirmed { agent_id, .. } => {
            let n = node_mut(reg, &agent_id, ts);
            n.state = NodeState::Exited(ExitStatus::Cancelled);
            n.state_ts = Some(ts);
        }
        RecordKind::ReapIntent { agent_id, .. } => node_mut(reg, &agent_id, ts).reap_intent = true,
        RecordKind::ReapConfirmed { agent_id } => {
            let n = node_mut(reg, &agent_id, ts);
            n.reap_intent = false;
            n.reap_state = ReapState::ReapedIdle;
        }
        _ => {}
    }
}

fn registry_of(records: Vec<RecordKind>) -> Registry {
    let mut reg = empty_registry();
    for (seq, kind) in records.into_iter().enumerate() {
        apply(&mut reg, kind, 1_000 + seq as u64);
    }
    reg
}

fn node_of(records: Vec<RecordKind>, agent: &str) -> ReplayedNode {
    let mut reg = registry_of(records);
    let at = reg.nodes.iter().position(|n| n.agent_id == id(agent)).unwrap();
    reg.nodes.remove(at)
}

fn is_no_intent(r: Result<marion_supervisor::project::NodeSummary, Unprojectable>) -> bool {
    matches!(r, Err(Unprojectable::NoIntent))
}

#[test]
fn a_summary_falls_back_to_the_agent_type_and_names_nothing_it_was_not_told() {
    let n = node_of(vec![intent("child", Some("root"), "codex-impl", 1)], "child");
    let s = summarize(&n, &builtins(), false).expect("a fully described node projects");
    assert_eq!(s.agent_id, id("child"));
    assert_eq!(s.parent_id, Some(id("root")));
    assert_eq!(s.agent_type, "codex-impl");
    assert_eq!(s.harness, Harness("codex".into()));
    assert_eq!(s.depth, 1);
    assert_eq!(s.state, NodeState::Spawning);
    assert_eq!(s.timeout_secs, 900, "the type's own default, not a value invented here");
    assert_eq!(s.name, None, "nothing names a node yet");
    assert!(!s.pane);
}

#[test]
fn a_summary_reports_the_bound_the_launch_resolved() {
    let mut i = match intent("child", Some("root"), "codex-impl", 1) {
        RecordKind::SpawnIntent(i) => i,
        other => panic!("{other:?}"),
    };
    i.timeout_secs = Some(300);
    let n = node_of(vec![RecordKind::SpawnIntent(i)], "child");
    let s = summarize(&n, &builtins(), false).expect("a fully described node projects");
    assert_eq!(s.timeout_secs, 300);
    assert_ne!(s.timeout_secs, agent_type("codex-impl").timeout_secs);
}

#[test]
fn an_undescribable_node_is_named_rather_than_filled_in() {
    let orphan = node_of(
        vec![RecordKind::Spawned(Spawned {
            agent_id: id("no-intent"),
            harness_version: "0.9.0".into(),
            model: None,
            pid: Some(3),
            start_id: None,
        })],
        "no-intent",
    );
    assert!(is_no_intent(summarize(&orphan, &builtins(), false)));
    let e = Unprojectable::NoIntent.as_error(&id("no-intent"));
    assert_eq!(e.kind(), Some(FailureKind::Internal));
    assert!(e.message.contains("SpawnIntent"), "{e:?}");
    assert_eq!(e.subject.as_deref(), Some("no-intent"));
    assert_eq!(e.citation.as_deref(), Some("§4.2"));

    let unknown = node_of(vec![intent("a", None, "codex-turbo", 0)], "a");
    assert!(matches!(
        summarize(&unknown, &builtins(), false),
        Err(Unprojectable::UnknownAgentType(t)) if t == "codex-turbo"
    ));
    let e = Unprojectable::UnknownAgentType("codex-turbo".into()).as_error(&id("a"));
    assert_eq!(e.kind(), Some(FailureKind::NotFound));
    assert!(e.message.contains("codex-turbo"), "{e:?}");

    let deep = node_of(vec![intent("a", None, "codex-impl", 300)], "a");
    assert!(matches!(
        summarize(&deep, &builtins(), false),
        Err(Unprojectable::DepthOutOfRange(300))
    ));
    let e = Unprojectable::DepthOutOfRange(300).as_error(&id("a"));
    assert_eq!(e.kind(), Some(FailureKind::Internal));
    assert!(e.message.contains("depth 300,"), "{e:?}");
    assert!(
        summarize(&node_of(vec![intent("a", None, "codex-impl", 255)], "a"), &builtins(), false)
            .is_ok(),
        "255 fits, so the boundary is the type's and not an arbitrary cap"
    );
}

#[test]
fn an_unknown_type_projects_from_its_recorded_bound_and_not_otherwise() {
    let intent_with = |bound: Option<u64>| {
        RecordKind::SpawnIntent(SpawnIntent {
            agent_id: id("r"),
            parent_id: None,
            agent_type: "critic".into(),
            harness: Harness("codex".into()),
            depth: 1,
            task_id: None,
            timeout_secs: bound,
        })
    };
    let bounded = node_of(vec![intent_with(Some(120))], "r");
    let s = summarize(&bounded, &builtins(), false).expect("the recorded bound is enough");
    assert_eq!(s.agent_type, "critic");
    assert_eq!(s.harness, Harness("codex".into()));
    assert_eq!(s.timeout_secs, 120);
    let unbounded = node_of(vec![intent_with(None)], "r");
    assert!(matches!(
        summarize(&unbounded, &builtins(), false),
        Err(Unprojectable::UnknownAgentType(t)) if t == "critic"
    ));
}

#[test]
fn node_get_answers_from_the_journal_and_refuses_a_node_it_has_no_record_of() {
    let reg = registry_of(vec![intent("root", None, "lead", 0)]);
    let handle = RegistryHandle::new(builtins());
    let got = handle.node_get(&reg, &id("root")).expect("the root is recorded");
    assert_eq!(got.agent_id, id("root"));
    assert_eq!(got.harness, harness("lead"));
    assert_eq!(got.depth, 0);

    let e = handle.node_get(&reg, &id("nobody")).expect_err("nobody is not recorded");
    assert_eq!(e.kind(), Some(FailureKind::NotFound));
    assert!(e.message.contains("records read"), "{e:?}");
    assert!(e.message.contains("as of 1 records read"), "how much was read: {e:?}");
    assert_eq!(read_point(&reg).records, 1);
}

#[test]
fn tree_subscribe_returns_a_snapshot_and_then_narrates_what_the_journal_says_next() {
    let mut reg = registry_of(vec![intent("root", None, "lead", 0)]);
    let mut handle = RegistryHandle::new(builtins());
    let (events, snap) = handle.subscribe(&reg);
    assert_eq!(events.len(), 1, "the others, of whom there are none, would hear of the root");
    handle.deliver(&events, &vec![]);
    handle.subscribed(ConnId(1));
    assert_eq!(snap.nodes.len(), 1, "the root the journal already had");
    assert_eq!(snap.nodes[0].agent_id, id("root"));
    assert_eq!(snap.read_point.records, 1);

    apply(&mut reg, intent("child", Some("root"), "codex-impl", 1), 2_000);
    let events = handle.flush(&reg);
    assert_eq!(events.len(), 1);
    let Event::NodeAdded { node, ts } = &events[0] else {
        panic!("a node that appeared must arrive as an addition")
    };
    assert_eq!(node.agent_id, id("child"));
    assert_eq!(node.parent_id, Some(id("root")));
    assert_eq!(*ts, 2_000, "the journal's time, not the follower's");

    apply(&mut reg, state("child", NodeState::Running), 3_500);
    let events = handle.flush(&reg);
    assert_eq!(events.len(), 1);
    let Event::NodeState { agent_id, state, reap_state, ts } = &events[0] else {
        panic!("expected a change of state")
    };
    assert_eq!(*agent_id, id("child"));
    assert_eq!(*state, NodeState::Running);
    assert_eq!(*reap_state, ReapState::Live);
    assert_eq!(*ts, 3_500);
}

#[test]
fn a_node_the_snapshot_cannot_describe_is_counted_rather_than_dropped_into_silence() {
    let reg = registry_of(vec![
        intent("root", None, "lead", 0),
        RecordKind::Spawned(Spawned {
            agent_id: id("headless"),
            harness_version: "0.9.0".into(),
            model: None,
            pid: Some(9),
            start_id: None,
        }),
    ]);
    let mut handle = RegistryHandle::new(builtins());
    let (events, snap) = handle.subscribe(&reg);
    assert_eq!(snap.nodes.len(), 1, "a node with no identity is not described");
    assert_eq!(snap.nodes[0].agent_id, id("root"));
    assert_eq!(handle.unprojectable(), 1, "and it is not invisible either");
    assert_eq!(events.len(), 1, "nor is it announced");
}

#[test]
fn a_departed_client_stops_being_a_subscriber_and_nothing_else_changes() {
    let reg = registry_of(vec![intent("root", None, "lead", 0)]);
    let mut handle = RegistryHandle::new(builtins());
    handle.connected(ConnId(1));
    let (events, _) = handle.subscribe(&reg);
    handle.deliver(&events, &vec![]);
    handle.subscribed(ConnId(1));
    assert_eq!(handle.subscribers(), 1);
    handle.gone(ConnId(1));
    assert_eq!(handle.subscribers(), 0, "a closed connection is not a subscriber");
    assert_eq!(handle.owned_nodes(), 0);
    assert!(handle.flush(&reg).is_empty(), "what was told stays told");
}

#[test]
fn a_snapshot_and_its_subscription_meet_exactly_with_no_gap_and_no_overlap() {
    let mut reg = registry_of(vec![intent("root", None, "lead", 0)]);
    let mut handle = RegistryHandle::new(builtins());
    let (first, _) = handle.subscribe(&reg);
    handle.deliver(&first, &vec![]);
    handle.subscribed(ConnId(1));

    apply(&mut reg, intent("child", Some("root"), "codex-impl", 1), 2_000);

    // The late subscriber's snapshot already has the child, and the early one hears of it on the
    // way in.
    let (to_early, snap) = handle.subscribe(&reg);
    assert_eq!(snap.nodes.len(), 2, "the snapshot is current, not stale");
    assert_eq!(to_early.len(), 1);
    assert!(matches!(&to_early[0], Event::NodeAdded { node, .. } if node.agent_id == id("child")));
    handle.deliver(&to_early, &vec![true]);
    handle.subscribed(ConnId(2));
    assert_eq!(handle.subscribers(), 2);

    apply(&mut reg, exited("child"), 3_000);
    let both = handle.flush(&reg);
    assert_eq!(both.len(), 1);
    let Event::NodeState { state, ts, .. } = &both[0] else {
        panic!("expected a change of state")
    };
    assert_eq!(*state, NodeState::Exited(ExitStatus::Clean));
    assert_eq!(*ts, 3_000);
    handle.deliver(&both, &vec![true, true]);
    assert_eq!(handle.flush(&reg).len(), 0, "a told transition is not re-told");
}

#[test]
fn a_subscriber_that_stops_taking_events_is_dropped_and_only_where_something_was_sent() {
    let mut reg = registry_of(vec![intent("root", None, "lead", 0)]);
    let mut handle = RegistryHandle::new(builtins());
    for c in [1, 2, 3] {
        let (events, _) = handle.subscribe(&reg);
        let took = vec![true; handle.subscribers()];
        handle.deliver(&events, &took);
        handle.subscribed(ConnId(c));
    }
    handle.deliver(&vec![], &vec![false, false, false]);
    assert_eq!(handle.subscribers(), 3, "nothing was sent, so nothing was refused");
    apply(&mut reg, state("root", NodeState::Running), 9);
    let events = handle.flush(&reg);
    handle.deliver(&events, &vec![true, false, true]);
    assert_eq!(handle.subscribers(), 2);
    handle.gone(ConnId(2));
    assert_eq!(handle.subscribers(), 2, "the one in the middle is the one that went");
}

#[test]
fn a_transition_the_journal_gave_no_time_is_told_at_the_epoch() {
    let mut reg = registry_of(vec![intent("root", None, "lead", 0)]);
    reg.nodes[0].first_ts = None;
    let mut handle = RegistryHandle::new(builtins());
    let events = handle.flush(&reg);
    assert!(matches!(events[0], Event::NodeAdded { ts: 0, .. }));
}

#[test]
fn a_reap_is_news_though_the_state_is_the_same() {
    let mut reg =
        registry_of(vec![intent("root", None, "lead", 0), state("root", NodeState::Idle)]);
    let mut handle = RegistryHandle::new(builtins());
    handle.flush(&reg);
    apply(&mut reg, RecordKind::ReapConfirmed { agent_id: id("root") }, 7);
    let events = handle.flush(&reg);
    assert_eq!(events.len(), 1);
    assert!(matches!(
        events[0],
        Event::NodeState { state: NodeState::Idle, reap_state: ReapState::ReapedIdle, .. }
    ));
}
