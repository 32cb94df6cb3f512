use marion_supervisor::error::{FailureKind, RpcError};
use marion_supervisor::handle::{call, QuitPlan, RegistryHandle, Served};
use marion_supervisor::journal::{
    Appended, Journal, JournalRecord, Journals, Line, WriterId,
};
use marion_supervisor::model::{
    AgentId, AgentType, AgentTypes, BlockReason, ConnId, ExitStatus, Harness, NodeState, ReapState,
    Registry, ReplayPoint, ReplayedNode, SpawnIntent, TaskId,
};
use marion_supervisor::nodes::NodeOutcome;
use marion_supervisor::quit::{killed_outcome, QuitDisposition, QuitOutcome};
use marion_supervisor::records::{ProcessExit, RecordKind, Spawned};
use marion_supervisor::residency::{ResidentReason, SupervisorDisposition};
use marion_supervisor::sweep::{Sweep, SweepAction, SweepEvent};

fn id(s: &str) -> AgentId {
    AgentId(s.into())
}

fn ids(names: &[&str]) -> Vec<AgentId> {
    names.iter().map(|n| id(n)).collect()
}

fn harness(ty: &str) -> Harness {
    Harness(if ty == "lead" { "lead-code" } else { "codex" }.into())
}

fn agent_type(name: &str) -> AgentType {
    AgentType {
        name: name.into(),
        harness: harness(name),
        timeout_secs: 900,
        model: None,
        max_depth: 3,
        max_concurrent_children: 4,
    }
}

fn builtins() -> AgentTypes {
    AgentTypes { rows: vec![agent_type("lead"), agent_type("codex-impl")] }
}

fn intent(agent: &str, parent: Option<&str>, ty: &str, depth: u32) -> RecordKind {
    RecordKind::SpawnIntent(SpawnIntent {
        agent_id: id(agent),
        parent_id: parent.map(id),
        agent_type: ty.into(),
        harness: harness(ty),
        depth,
        task_id: None,
        timeout_secs: None,
    })
}

fn spawned(agent: &str, pid: i32) -> RecordKind {
    RecordKind::Spawned(Spawned {
        agent_id: id(agent),
        harness_version: "test".into(),
        model: None,
        pid: Some(pid),
        start_id: None,
    })
}

fn state(agent: &str, state: NodeState) -> RecordKind {
    RecordKind::StateChanged { agent_id: id(agent), state }
}

fn exited(agent: &str) -> RecordKind {
    RecordKind::Exited {
        agent_id: id(agent),
        status: ExitStatus::Clean,
        exit: ProcessExit { code: Some(0), signal: None, description: "already done".into() },
    }
}

fn blank(agent: &AgentId, ts: u64) -> ReplayedNode {
    ReplayedNode {
        agent_id: agent.clone(),
        intent: None,
        harness_version: None,
        model: None,
        state: NodeState::Spawning,
        reap_state: ReapState::Live,
        first_ts: Some(ts),
        state_ts: None,
        spawn_aborted: false,
        spawn_confirmed: false,
        pid: None,
        reap_intent: false,
        harness_session: None,
        harness_pane: false,
        launch_workspace: None,
        spawn_generation: 0,
    }
}

fn empty_registry() -> Registry {
    Registry {
        nodes: vec![],
        read_point: ReplayPoint { records: 0, src_seq: None },
        stopped: None,
        path: "/state/p/journal.jsonl".into(),
        project: Some("/state/p".into()),
    }
}

fn node_mut<'a>(reg: &'a mut Registry, agent: &AgentId, ts: u64) -> &'a mut ReplayedNode {
    let at = match reg.nodes.iter().position(|n| n.agent_id == *agent) {
        Some(at) => at,
        None => {
            reg.nodes.push(blank(agent, ts));
            reg.nodes.len() - 1
        }
    };
    &mut reg.nodes[at]
}

/// What reading one record back does to the tree.
fn apply(reg: &mut Registry, kind: RecordKind, ts: u64) {
    reg.read_point.records += 1;
    match kind {
        RecordKind::SpawnIntent(i) => {
            let agent = i.agent_id.clone();
            node_mut(reg, &agent, ts).intent = Some(i);
        }
        RecordKind::Spawned(s) => {
            let n = node_mut(reg, &s.agent_id, ts);
            n.spawn_confirmed = true;
            n.pid = s.pid;
            n.harness_version = Some(s.harness_version);
            n.model = s.model;
            n.spawn_generation += 1;
        }
        RecordKind::StateChanged { agent_id, state } => {
            let n = node_mut(reg, &agent_id, ts);
            n.state = state;
            n.state_ts = Some(ts);
        }
        RecordKind::Exited { agent_id, status, .. } => {
            let n = node_mut(reg, &agent_id, ts);
            n.state = NodeState::Exited(status);
            n.state_ts = Some(ts);
            n.reap_state = ReapState::Live;
        }
        RecordKind::KillConfirmed { agent_id, .. } => {
            let n = node_mut(reg, &agent_id, ts);
            n.state = NodeState::Exited(ExitStatus::Cancelled);
            n.state_ts = Some(ts);
        }
        RecordKind::ReapIntent { agent_id, .. } => node_mut(reg, &agent_id, ts).reap_intent = true,
        RecordKind::ReapConfirmed { agent_id } => {
            let n = node_mut(reg, &agent_id, ts);
            n.reap_intent = false;
            n.reap_state = ReapState::ReapedIdle;
        }
        _ => {}
    }
}

fn registry_of(records: Vec<RecordKind>) -> Registry {
    let mut reg = empty_registry();
    for (seq, kind) in records.into_iter().enumerate() {
        apply(&mut reg, kind, 1_000 + seq as u64);
    }
    reg
}

fn tag(kind: &RecordKind) -> &'static str {
    match kind {
        RecordKind::SpawnIntent(_) => "SpawnIntent",
        RecordKind::Spawned(_) => "Spawned",
        RecordKind::StateChanged { .. } => "StateChanged",
        RecordKind::Exited { .. } => "Exited",
        RecordKind::KillIntent { .. } => "KillIntent",
        RecordKind::KillConfirmed { .. } => "KillConfirmed",
        RecordKind::ReapIntent { .. } => "ReapIntent",
        RecordKind::ReapConfirmed { .. } => "ReapConfirmed",
        RecordKind::PermissionDenied { .. } => "PermissionDenied",
        RecordKind::SupervisorExited => "SupervisorExited",
    }
}

/// A supervisor over a journal in memory, and a process table that records what it is asked.
struct Fx {
    reg: Registry,
    handle: RegistryHandle,
    tags: Vec<&'static str>,
    killed: Vec<i32>,
    /// The journal's tags at the moment of each signal.
    at_signal: Vec<Vec<&'static str>>,
    /// Every signalled process is seen dead.
    observable: bool,
    /// The journal can be appended to.
    writable: bool,
    journals: Journals,
    written: Vec<JournalRecord>,
    clock: u64,
    /// How the confirmed kills say the processes ended.
    signals: Vec<(AgentId, Option<i32>)>,
}

fn fx_with(records: Vec<RecordKind>) -> Fx {
    let tags = records.iter().map(tag).collect();
    Fx {
        reg: registry_of(records),
        handle: RegistryHandle::new(builtins()),
        tags,
        killed: vec![],
        at_signal: vec![],
        observable: true,
        writable: true,
        journals: Journals::new(),
        written: vec![],
        clock: 1,
        signals: vec![],
    }
}

fn copy(kind: &RecordKind) -> RecordKind {
    match kind {
        RecordKind::KillIntent { agent_id, was } => {
            RecordKind::KillIntent { agent_id: agent_id.clone(), was: *was }
        }
        RecordKind::KillConfirmed { agent_id, exit } => RecordKind::KillConfirmed {
            agent_id: agent_id.clone(),
            exit: ProcessExit {
                code: exit.code,
                signal: exit.signal,
                description: exit.description.clone(),
            },
        },
        RecordKind::ReapIntent { agent_id, reason } => {
            RecordKind::ReapIntent { agent_id: agent_id.clone(), reason: reason.clone() }
        }
        RecordKind::ReapConfirmed { agent_id } => {
            RecordKind::ReapConfirmed { agent_id: agent_id.clone() }
        }
        RecordKind::SupervisorExited => RecordKind::SupervisorExited,
        other => panic!("a quit does not write {}", tag(other)),
    }
}

impl Fx {
    fn append(&mut self, kind: RecordKind) -> Result<(), String> {
        if !self.writable {
            return Err("journal io: Is a directory".into());
        }
        self.clock += 1;
        let at = self
            .journals
            .entry(&self.reg.path, WriterId(format!("w-{}", self.clock)), Ok(()), self.clock)
            .expect("the journal opens");
        let j: &mut Journal = &mut self.journals.open[at];
        let record = j.draft(copy(&kind), 1_000, self.clock);
        match j.append(record, true, Line::Written { len: 100, took: 100 }, self.clock) {
            Appended::Sync(record) => {
                let record = j.commit(record, Ok(()), self.clock).expect("the disk holds");
                self.written.push(record);
            }
            other => panic!("a barrier is made durable: {other:?}"),
        }
        self.tags.push(tag(&kind));
        if let RecordKind::KillConfirmed { agent_id, exit } = &kind {
            self.signals.push((agent_id.clone(), exit.signal));
        }
        let ts = 2_000 + self.clock;
        apply(&mut self.reg, kind, ts);
        Ok(())
    }

    fn run(&mut self, sweep: &mut Sweep) -> Result<(), RpcError> {
        loop {
            let event = match sweep.action() {
                None => return Ok(()),
                Some(SweepAction::Append(kind)) => {
                    let kind = copy(kind);
                    SweepEvent::Appended(self.append(kind))
                }
                Some(SweepAction::Kill(pid)) => {
                    self.killed.push(pid);
                    self.at_signal.push(self.tags.clone());
                    SweepEvent::Killed(self.observable)
                }
            };
            sweep.step(event)?;
        }
    }

    fn quit(&mut self, d: QuitDisposition) -> Result<QuitOutcome, RpcError> {
        let (plan, _) = self.handle.session_quit(&d, &self.reg);
        let answered = match plan {
            Err(e) => Err(e),
            Ok(QuitPlan::Detach(o)) => Ok(o),
            Ok(QuitPlan::Kill(mut sweep)) => {
                self.run(&mut sweep).map(|()| killed_outcome(&sweep))
            }
            Ok(QuitPlan::Reap(mut reaping)) => match self.run(&mut reaping.sweep) {
                Err(e) => Err(e),
                Ok(()) => Ok(self.handle.reaped(reaping, &self.reg).0),
            },
        };
        self.handle.quit_answered(&answered);
        answered
    }

    fn idle_exit_eligible(&mut self) -> bool {
        self.handle.idle_exit_eligible(&self.reg).0
    }

    fn begin_idle_exit(&mut self) -> bool {
        if self.handle.begin_idle_exit(&self.reg).0.is_none() {
            return false;
        }
        let journaled = self.append(RecordKind::SupervisorExited);
        self.handle.idle_exit_journaled(journaled).is_ok()
    }

    fn detached(&mut self) -> SupervisorDisposition {
        match self.quit(QuitDisposition::DetachAll) {
            Ok(QuitOutcome::Detached { supervisor, .. }) => supervisor,
            other => panic!("a detach answers as one: {other:?}"),
        }
    }

    fn abort(&mut self, agent: &str) {
        self.reg.read_point.records += 1;
        node_mut(&mut self.reg, &id(agent), 1_500).spawn_aborted = true;
    }

    fn node(&self, agent: &str) -> &ReplayedNode {
        self.reg.get(&id(agent)).expect("the node is recorded")
    }
}

#[test]
fn detach_all_leaves_the_journal_and_node_untouched_and_the_supervisor_serving() {
    let mut fx = fx_with(vec![intent("root", None, "lead", 0)]);
    let before = fx.tags.clone();
    let was = fx.node("root").state;
    let Ok(QuitOutcome::Detached { detached, gate_exposed, guidance, supervisor }) =
        fx.quit(QuitDisposition::DetachAll)
    else {
        panic!("detach returned another disposition's outcome")
    };
    assert_eq!(detached, [id("root")]);
    assert_eq!(gate_exposed, [id("root")]);
    assert!(guidance.reattach.contains("tree/subscribe"));
    assert!(guidance.stop_fleet.contains("session/quit"));
    assert!(guidance.reattach.contains("denied unattended"));
    assert!(guidance.reattach.contains("is_error:true"));
    assert!(guidance.reattach.contains("/state/p/supervisor.sock"));
    assert_eq!(supervisor, SupervisorDisposition::Resident(ResidentReason::SpawnOutstanding));
    assert_eq!(fx.tags, before);
    assert_eq!(fx.node("root").state, was);
    assert!(fx.handle.node_get(&fx.reg, &id("root")).is_ok());
    assert!(!fx.handle.exiting());
    assert!(!fx.idle_exit_eligible());
}

#[test]
fn kill_tree_refuses_a_missing_or_stale_confirmed_list_before_signalling_anything() {
    let mut fx = fx_with(vec![
        intent("root", None, "lead", 0),
        spawned("root", 101),
        state("root", NodeState::Running),
    ]);
    let before = fx.tags.clone();
    let error = fx
        .quit(QuitDisposition::KillTree { confirmed: vec![] })
        .expect_err("an empty render did not confirm a live root");
    assert_eq!(error.kind(), Some(FailureKind::Refused));
    assert!(error.message.contains("confirmed"), "{error:?}");
    assert!(
        error.message.contains("confirmed [], current [\"root\"]"),
        "the two sets are quoted: {error:?}"
    );
    assert!(fx.killed.is_empty(), "the mismatch was checked after signalling");
    assert_eq!(fx.tags, before);
    assert!(!fx.handle.idle_exit_grace_waived(), "a refused quit said nothing");
}

#[test]
fn kill_tree_kills_each_non_terminal_node_and_journals_each_pair_before_exit() {
    let mut fx = fx_with(vec![
        intent("root", None, "lead", 0),
        spawned("root", 101),
        state("root", NodeState::Running),
        intent("child", Some("root"), "codex-impl", 1),
        spawned("child", 202),
        state("child", NodeState::Blocked(BlockReason::Permission)),
        intent("done", Some("root"), "codex-impl", 1),
        exited("done"),
    ]);
    fx.handle.connected(ConnId(9));
    let Ok(QuitOutcome::Killed { nodes, supervisor }) =
        fx.quit(QuitDisposition::KillTree { confirmed: ids(&["child", "root"]) })
    else {
        panic!("the exact set was confirmed")
    };
    assert_eq!(nodes.len(), 2);
    assert_eq!(nodes[0].agent_id, id("root"));
    assert_eq!(nodes[0].was, NodeState::Running);
    assert_eq!(nodes[1].agent_id, id("child"));
    assert_eq!(nodes[1].was, NodeState::Blocked(BlockReason::Permission));
    assert_eq!(supervisor, SupervisorDisposition::Exiting);
    assert_eq!(fx.killed, [101, 202], "one operation per live node");
    assert_eq!(
        &fx.tags[8..],
        ["KillIntent", "KillConfirmed", "KillIntent", "KillConfirmed"],
        "one intent/act/confirm pair per node"
    );
    assert!(
        !fx.begin_idle_exit(),
        "the exit record is forbidden while even the quitting client remains"
    );
    fx.handle.gone(ConnId(9));
    assert!(fx.begin_idle_exit(), "zero clients and zero non-terminals permit exit");
    assert_eq!(*fx.tags.last().unwrap(), "SupervisorExited");
    assert!(fx.handle.exiting());
    assert_eq!(fx.node("root").state, NodeState::Exited(ExitStatus::Cancelled));
    assert_eq!(fx.node("child").state, NodeState::Exited(ExitStatus::Cancelled));
    assert_eq!(
        fx.node("done").state,
        NodeState::Exited(ExitStatus::Clean),
        "quitting does not rewrite an existing terminal"
    );
}

#[test]
fn reap_idle_detach_busy_reaps_only_idle_and_detaches_every_refusal_class() {
    let mut fx = fx_with(vec![
        intent("idle", None, "lead", 0),
        spawned("idle", 11),
        state("idle", NodeState::Idle),
        intent("running", Some("idle"), "codex-impl", 1),
        spawned("running", 22),
        state("running", NodeState::Running),
        intent("permission", Some("idle"), "codex-impl", 1),
        spawned("permission", 33),
        state("permission", NodeState::Blocked(BlockReason::Permission)),
        intent("elicitation", Some("idle"), "codex-impl", 1),
        spawned("elicitation", 44),
        state("elicitation", NodeState::Blocked(BlockReason::Elicitation)),
        intent("descendants", Some("idle"), "codex-impl", 1),
        spawned("descendants", 55),
        state("descendants", NodeState::Blocked(BlockReason::Descendants)),
        intent("waiting-parent", None, "lead", 0),
        spawned("waiting-parent", 66),
        state("waiting-parent", NodeState::Blocked(BlockReason::Descendants)),
        intent("idle-spawn-target", Some("waiting-parent"), "codex-impl", 1),
        spawned("idle-spawn-target", 77),
        state("idle-spawn-target", NodeState::Idle),
        intent("spawning", Some("idle"), "codex-impl", 1),
        intent("done", Some("idle"), "codex-impl", 1),
        exited("done"),
    ]);
    let Ok(QuitOutcome::ReapedAndDetached {
        reaped,
        detached,
        gate_exposed,
        guidance,
        supervisor,
    }) = fx.quit(QuitDisposition::ReapIdleDetachBusy)
    else {
        panic!("the default disposition is implemented")
    };
    assert_eq!(reaped, [id("idle")]);
    let left = [
        "running",
        "permission",
        "elicitation",
        "descendants",
        "waiting-parent",
        "idle-spawn-target",
        "spawning",
    ];
    assert_eq!(detached, ids(&left));
    assert_eq!(gate_exposed, detached);
    assert!(guidance.reattach.contains("tree/subscribe"));
    assert!(guidance.reattach.contains("reaped"));
    assert!(guidance.reattach.contains("resumable"));
    assert!(guidance.stop_fleet.contains("session/quit"));
    assert_eq!(supervisor, SupervisorDisposition::Resident(ResidentReason::BlockedNode));
    assert!(!fx.idle_exit_eligible());
    assert_eq!(fx.killed, [11], "the refusal classes were detached");
    assert_eq!(&fx.tags[24..], ["ReapIntent", "ReapConfirmed"]);
    assert_eq!(fx.node("idle").reap_state, ReapState::ReapedIdle);
    for agent in left {
        assert_eq!(fx.node(agent).reap_state, ReapState::Live, "{agent}");
        assert!(!fx.node(agent).reap_intent, "{agent}");
    }
}

#[test]
fn an_aborted_spawn_does_not_keep_the_supervisor_resident_but_an_outstanding_one_does() {
    let mut aborted = fx_with(vec![intent("root", None, "lead", 0)]);
    aborted.abort("root");
    assert_eq!(
        aborted.detached(),
        SupervisorDisposition::Exiting,
        "an abandoned spawn strands nothing"
    );
    assert!(aborted.idle_exit_eligible(), "and the accept loop may act on that");

    let mut outstanding = fx_with(vec![intent("root", None, "lead", 0)]);
    assert_eq!(
        outstanding.detached(),
        SupervisorDisposition::Resident(ResidentReason::SpawnOutstanding),
        "an intent with no resolution beside it is outstanding"
    );
    assert!(!outstanding.idle_exit_eligible());
}

#[test]
fn an_abort_written_after_the_child_was_spawned_still_holds_the_supervisor() {
    let mut fx = fx_with(vec![intent("root", None, "lead", 0), spawned("root", 4242)]);
    fx.abort("root");
    assert_eq!(
        fx.detached(),
        SupervisorDisposition::Resident(ResidentReason::SpawnOutstanding),
        "the journal names pid 4242 and never says it died; exiting here strands it"
    );
    assert!(!fx.idle_exit_eligible());
}

#[test]
fn a_registry_that_stopped_following_is_reported_as_that_and_not_as_a_stale_node() {
    let mut fx =
        fx_with(vec![intent("root", None, "lead", 0), spawned("root", 12), exited("root")]);
    assert_eq!(
        fx.detached(),
        SupervisorDisposition::Exiting,
        "the control: with the journal readable, nothing here holds it"
    );
    fx.reg.stopped = Some("a line that is no record at byte 300".into());
    let (plan, notice) = fx.handle.session_quit(&QuitDisposition::DetachAll, &fx.reg);
    let Ok(QuitPlan::Detach(QuitOutcome::Detached { supervisor, .. })) = plan else {
        panic!("a detach answers as one")
    };
    assert_eq!(
        supervisor,
        SupervisorDisposition::Resident(ResidentReason::RegistryStopped),
        "the tree is frozen, so no clause read off it may be quoted as the reason"
    );
    let said = notice.expect("the fault is reported");
    assert!(said.contains("a line that is no record at byte 300"), "{said}");
    let (may, again) = fx.handle.idle_exit_eligible(&fx.reg);
    assert!(!may, "and the accept loop fails closed on the same reading");
    assert_eq!(again, None, "the fault is reported once");
}

#[test]
fn a_detach_that_found_work_still_arms_the_exit_that_work_later_releases() {
    let mut fx = fx_with(vec![
        intent("root", None, "lead", 0),
        spawned("root", 77),
        state("root", NodeState::Running),
    ]);
    fx.handle.connected(ConnId(9));
    assert_eq!(
        fx.detached(),
        SupervisorDisposition::Resident(ResidentReason::NonTerminalNode)
    );
    fx.handle.gone(ConnId(9));
    assert!(!fx.idle_exit_eligible(), "while the node runs, the node is the answer");
    assert!(fx.handle.idle_exit_grace_waived(), "the client said it was leaving");
    apply(&mut fx.reg, exited("root"), 1_003);
    assert!(fx.idle_exit_eligible(), "nothing holds any more");
}

#[test]
fn a_client_that_vanished_without_quitting_still_leaves_an_empty_supervisor_free_to_exit() {
    let mut fx =
        fx_with(vec![intent("root", None, "lead", 0), spawned("root", 55), exited("root")]);
    fx.handle.connected(ConnId(9));
    assert!(!fx.idle_exit_eligible(), "a client is attached");
    fx.handle.gone(ConnId(9));
    assert!(
        fx.idle_exit_eligible(),
        "zero clients and zero non-terminal nodes is the whole predicate"
    );
    assert_eq!(
        fx.tags,
        ["SpawnIntent", "Spawned", "Exited"],
        "nothing is journaled about a client's death"
    );
}

#[test]
fn a_reaped_idle_node_still_keeps_the_supervisor_resident() {
    let mut fx = fx_with(vec![
        intent("idle", None, "lead", 0),
        spawned("idle", 88),
        state("idle", NodeState::Idle),
    ]);
    let Ok(QuitOutcome::ReapedAndDetached { supervisor, .. }) =
        fx.quit(QuitDisposition::ReapIdleDetachBusy)
    else {
        panic!("wrong disposition outcome")
    };
    assert_eq!(supervisor, SupervisorDisposition::Resident(ResidentReason::NonTerminalNode));
    assert_eq!(fx.killed, [88]);
    assert!(!fx.idle_exit_eligible());
    assert!(fx.tags.iter().all(|tag| *tag != "SupervisorExited"));
}

#[test]
fn an_unconfirmed_reap_intent_forbids_the_supervisor_exit_record() {
    let mut fx = fx_with(vec![
        intent("idle", None, "lead", 0),
        state("idle", NodeState::Idle),
        RecordKind::ReapIntent {
            agent_id: id("idle"),
            reason: "a prior supervisor decided to reap".into(),
        },
    ]);
    assert_eq!(
        fx.detached(),
        SupervisorDisposition::Resident(ResidentReason::UnconfirmedReapIntent)
    );
    assert!(!fx.idle_exit_eligible());
    assert!(fx.tags.iter().all(|tag| *tag != "SupervisorExited"));
}

#[test]
fn an_orphaned_node_holds_the_supervisor_resident_because_it_is_the_operators_to_resolve() {
    let mut fx = fx_with(vec![
        intent("lost", None, "lead", 0),
        spawned("lost", 55),
        state("lost", NodeState::Running),
    ]);
    // A supervisor that boots over a journal marks every node it did not decide the fate of.
    for n in fx.reg.nodes.iter_mut() {
        n.reap_state = ReapState::Orphaned;
    }
    assert_eq!(
        fx.handle.residency(&fx.reg).0,
        Some(ResidentReason::NonTerminalNode),
        "the operator is the one who resolves that"
    );
    assert!(!fx.idle_exit_eligible());
    apply(&mut fx.reg, exited("lost"), 1_003);
    assert_eq!(fx.handle.residency(&fx.reg).0, None);
    assert_eq!(
        fx.node("lost").reap_state,
        ReapState::Live,
        "the marking went with the premise it rested on"
    );
}

#[test]
fn a_reap_intent_stops_holding_the_supervisor_once_the_node_is_observed_dead() {
    let mut fx = fx_with(vec![
        intent("idle", None, "lead", 0),
        spawned("idle", 91),
        state("idle", NodeState::Idle),
        RecordKind::ReapIntent {
            agent_id: id("idle"),
            reason: "session/quit reaped an idle node before detaching busy work".into(),
        },
        RecordKind::KillConfirmed {
            agent_id: id("idle"),
            exit: ProcessExit {
                code: None,
                signal: Some(9),
                description: "confirmed session/quit killed the node's process tree".into(),
            },
        },
    ]);
    assert_eq!(
        fx.handle.residency(&fx.reg).0,
        None,
        "every node's death is on the record; nothing is left for this supervisor to hold"
    );
    assert!(fx.idle_exit_eligible());
}

#[test]
fn a_dropped_socket_is_not_any_quit_disposition_and_does_not_apply_the_default() {
    let mut fx = fx_with(vec![
        intent("idle", None, "lead", 0),
        spawned("idle", 77),
        state("idle", NodeState::Idle),
    ]);
    let before = fx.tags.clone();
    fx.handle.gone(ConnId(44));
    assert!(fx.killed.is_empty());
    assert_eq!(fx.tags, before);
    assert_eq!(fx.node("idle").reap_state, ReapState::Live);
}

#[test]
fn kill_tree_refuses_a_confirmed_node_whose_pid_is_not_recorded_yet() {
    let mut fx = fx_with(vec![intent("root", None, "lead", 0)]);
    let before = fx.tags.clone();
    let error = fx
        .quit(QuitDisposition::KillTree { confirmed: ids(&["root"]) })
        .expect_err("a node with no PID cannot be proven to have been reached");
    assert_eq!(error.kind(), Some(FailureKind::Conflict));
    assert!(error.message.contains("no recorded PID"), "{error:?}");
    assert_eq!(error.subject.as_deref(), Some("root"));
    assert!(fx.killed.is_empty(), "nothing was signalled");
    assert_eq!(fx.tags, before);
}

#[test]
fn every_kill_is_signalled_before_its_confirmation_becomes_durable() {
    let mut fx = fx_with(vec![
        intent("root", None, "lead", 0),
        spawned("root", 301),
        state("root", NodeState::Running),
        intent("child", Some("root"), "codex-impl", 1),
        spawned("child", 302),
        state("child", NodeState::Running),
    ]);
    fx.quit(QuitDisposition::KillTree { confirmed: ids(&["root", "child"]) })
        .expect("the exact set was confirmed");
    assert_eq!(fx.at_signal.len(), 2, "one signal per node");
    for (i, tags) in fx.at_signal.iter().enumerate() {
        assert_eq!(
            tags.last().copied(),
            Some("KillIntent"),
            "node {i}'s intent is durable at the moment it is signalled"
        );
        assert_eq!(
            tags.iter().filter(|t| **t == "KillConfirmed").count(),
            i,
            "node {i} was not confirmed before it was signalled"
        );
    }
}

#[test]
fn kill_tree_retires_an_already_reaped_node_without_signalling_it_again() {
    let mut fx = fx_with(vec![
        intent("reaped", None, "lead", 0),
        spawned("reaped", 501),
        state("reaped", NodeState::Idle),
        RecordKind::ReapIntent {
            agent_id: id("reaped"),
            reason: "an earlier session/quit reaped it".into(),
        },
        RecordKind::ReapConfirmed { agent_id: id("reaped") },
        intent("live", None, "lead", 0),
        spawned("live", 502),
        state("live", NodeState::Running),
    ]);
    fx.quit(QuitDisposition::KillTree { confirmed: ids(&["live", "reaped"]) })
        .expect("both non-terminal nodes were confirmed");
    assert_eq!(fx.killed, [502], "a ReapedIdle node has no process left to signal");
    assert_eq!(
        fx.signals,
        [(id("reaped"), None), (id("live"), Some(9))],
        "the record does not claim a signal marion never sent"
    );
}

#[test]
fn records_written_across_separate_rpcs_share_one_writer_and_one_rising_sequence() {
    let mut fx = fx_with(vec![
        intent("idle", None, "lead", 0),
        spawned("idle", 71),
        state("idle", NodeState::Idle),
        intent("busy", None, "lead", 0),
        spawned("busy", 72),
        state("busy", NodeState::Running),
    ]);
    let seeded = fx.tags.len();
    fx.quit(QuitDisposition::ReapIdleDetachBusy).expect("one idle root is reapable");
    fx.quit(QuitDisposition::KillTree { confirmed: ids(&["idle", "busy"]) })
        .expect("the exact non-terminal set was confirmed");
    assert!(fx.begin_idle_exit());
    assert_eq!(fx.killed, [71, 72], "the reaped root was not re-signalled");
    assert_eq!(
        fx.tags[seeded..],
        [
            "ReapIntent",
            "ReapConfirmed",
            "KillIntent",
            "KillConfirmed",
            "KillIntent",
            "KillConfirmed",
            "SupervisorExited",
        ]
    );
    assert!(fx.written.iter().all(|r| r.writer == fx.written[0].writer));
    assert_eq!(fx.written[0].writer, WriterId("w-2".into()), "the first identity offered is kept");
    assert_eq!(
        fx.written.iter().map(|r| r.seq).collect::<Vec<_>>(),
        [0, 1, 2, 3, 4, 5, 6],
        "`seq` continues across calls"
    );
    assert!(fx.written.windows(2).all(|w| w[0].mono_ns <= w[1].mono_ns));
}

#[test]
fn a_kill_that_cannot_be_observed_dead_leaves_the_intent_unconfirmed_and_no_exit() {
    let mut fx = fx_with(vec![
        intent("root", None, "lead", 0),
        spawned("root", 909),
        state("root", NodeState::Running),
    ]);
    fx.observable = false;
    let error = fx
        .quit(QuitDisposition::KillTree { confirmed: ids(&["root"]) })
        .expect_err("marion did not observe the process dead");
    assert_eq!(error.kind(), Some(FailureKind::Internal));
    assert!(error.message.contains("could not observe its PID dead"), "{error:?}");
    assert_eq!(fx.tags.last().copied(), Some("KillIntent"));
    assert!(!fx.tags.contains(&"KillConfirmed"), "nothing confirmed a death nobody saw");
    assert!(!fx.idle_exit_eligible());
    assert!(!fx.begin_idle_exit());
    assert!(!fx.handle.exiting());
}

#[test]
fn reap_idle_detach_busy_refuses_each_busy_root_on_its_own_state() {
    let mut fx = fx_with(vec![
        intent("idle", None, "lead", 0),
        spawned("idle", 1),
        state("idle", NodeState::Idle),
        intent("running", None, "lead", 0),
        spawned("running", 2),
        state("running", NodeState::Running),
        intent("permission", None, "lead", 0),
        spawned("permission", 3),
        state("permission", NodeState::Blocked(BlockReason::Permission)),
        intent("elicitation", None, "lead", 0),
        spawned("elicitation", 4),
        state("elicitation", NodeState::Blocked(BlockReason::Elicitation)),
        intent("descendants", None, "lead", 0),
        spawned("descendants", 5),
        state("descendants", NodeState::Blocked(BlockReason::Descendants)),
        intent("spawning", None, "lead", 0),
    ]);
    let Ok(QuitOutcome::ReapedAndDetached { reaped, detached, .. }) =
        fx.quit(QuitDisposition::ReapIdleDetachBusy)
    else {
        panic!("no busy root blocks the reap of an idle one")
    };
    assert_eq!(reaped, [id("idle")]);
    assert_eq!(
        detached,
        ids(&["running", "permission", "elicitation", "descendants", "spawning"])
    );
    assert_eq!(fx.killed, [1], "only the idle root was signalled");
}

#[test]
fn reap_idle_detach_busy_skips_an_idle_root_already_under_or_past_a_reap() {
    let reap = |agent: &str, reason: &str| RecordKind::ReapIntent {
        agent_id: id(agent),
        reason: reason.into(),
    };
    let mut fx = fx_with(vec![
        intent("fresh", None, "lead", 0),
        spawned("fresh", 10),
        state("fresh", NodeState::Idle),
        intent("intended", None, "lead", 0),
        spawned("intended", 20),
        state("intended", NodeState::Idle),
        reap("intended", "someone else decided to reap it"),
        intent("already", None, "lead", 0),
        spawned("already", 30),
        state("already", NodeState::Idle),
        reap("already", "an earlier session/quit reaped it"),
        RecordKind::ReapConfirmed { agent_id: id("already") },
    ]);
    let Ok(QuitOutcome::ReapedAndDetached { reaped, detached, .. }) =
        fx.quit(QuitDisposition::ReapIdleDetachBusy)
    else {
        panic!("one idle root was reapable")
    };
    assert_eq!(reaped, [id("fresh")]);
    assert_eq!(fx.killed, [10]);
    assert_eq!(
        detached,
        [id("intended")],
        "a ReapedIdle node is no longer something a client can be detached from"
    );
}

#[test]
fn an_idle_root_without_a_process_stops_the_reap_before_it_begins() {
    let mut fx = fx_with(vec![
        intent("reachable", None, "lead", 0),
        spawned("reachable", 5),
        state("reachable", NodeState::Idle),
        intent("lost", None, "lead", 0),
        state("lost", NodeState::Idle),
    ]);
    let error = fx.quit(QuitDisposition::ReapIdleDetachBusy).expect_err("one has no pid");
    assert_eq!(error.kind(), Some(FailureKind::Conflict));
    assert_eq!(error.subject.as_deref(), Some("lost"));
    assert!(error.message.contains("Nothing was reaped"), "{error:?}");
    assert!(fx.killed.is_empty());
    assert_eq!(fx.tags.len(), 5);
}

#[test]
fn detach_names_only_the_nodes_that_are_still_someones_agent() {
    let mut fx = fx_with(vec![
        intent("live", None, "lead", 0),
        spawned("live", 61),
        state("live", NodeState::Idle),
        intent("done", None, "lead", 0),
        spawned("done", 62),
        exited("done"),
    ]);
    let Ok(QuitOutcome::Detached { detached, gate_exposed, .. }) =
        fx.quit(QuitDisposition::DetachAll)
    else {
        panic!("detach returned another disposition's outcome")
    };
    assert_eq!(detached, [id("live")]);
    assert_eq!(gate_exposed, [id("live")]);
}

#[test]
fn a_departure_decides_nothing_and_does_not_shorten_the_wait() {
    let mut fx =
        fx_with(vec![intent("done", None, "lead", 0), spawned("done", 7), exited("done")]);
    let before = fx.tags.clone();
    fx.handle.connected(ConnId(3));
    fx.handle.gone(ConnId(3));
    assert_eq!(fx.tags, before, "nothing is journaled about a client's death");
    assert!(!fx.handle.exiting(), "a departure never commits to an exit");
    assert!(!fx.handle.idle_exit_grace_waived(), "a close said nothing");
    assert!(fx.idle_exit_eligible(), "both clauses are satisfied");
}

#[test]
fn the_supervisor_does_not_commit_to_exiting_before_its_record_is_durable() {
    let mut fx =
        fx_with(vec![intent("done", None, "lead", 0), spawned("done", 8), exited("done")]);
    assert_eq!(fx.detached(), SupervisorDisposition::Exiting);
    assert!(fx.idle_exit_eligible());
    fx.writable = false;
    assert!(!fx.begin_idle_exit());
    assert!(!fx.handle.exiting(), "an exit that could not be recorded did not happen");
}

#[test]
fn an_intent_that_cannot_be_journaled_stops_the_kill_before_its_signal() {
    let mut fx = fx_with(vec![
        intent("root", None, "lead", 0),
        spawned("root", 17),
        state("root", NodeState::Running),
    ]);
    fx.writable = false;
    let error = fx
        .quit(QuitDisposition::KillTree { confirmed: ids(&["root"]) })
        .expect_err("the intent did not land");
    assert_eq!(
        error.message,
        "session/quit could not durably journal its intent, so it refused before signalling the \
         node: journal io: Is a directory"
    );
    assert!(fx.killed.is_empty());
}

#[test]
fn a_specified_but_unbuilt_method_is_refused_with_the_milestone_named() {
    let e = call("node/cancel").expect_err("not built");
    assert_eq!(e.kind(), Some(FailureKind::Unimplemented));
    assert!(e.message.contains("node/cancel"), "{e:?}");
    assert_eq!(call("node/get").unwrap(), Served::NodeGet);
    assert_eq!(call("tree/subscribe").unwrap(), Served::TreeSubscribe);
    assert_eq!(call("node/attach").unwrap(), Served::NodeAttach);
    assert_eq!(call("agent/spawn").unwrap(), Served::AgentSpawn);
    assert_eq!(call("session/quit").unwrap(), Served::SessionQuit);
    assert_eq!(call("node/resume").unwrap(), Served::NodeResume);
}

#[test]
fn a_departing_client_does_not_touch_a_node_the_supervisor_owns() {
    let mut fx = fx_with(vec![intent("root", None, "lead", 0)]);
    let child = id("child");
    fx.handle.claim(&child, Some(TaskId("t".into())), "/r".into(), Some([3; 32]));
    fx.handle.nodes.mark_started(&child, 4711, 4711, 9_000);
    fx.handle.connected(ConnId(3));
    let owned = |fx: &Fx| {
        (
            fx.handle.owned_pid(&child),
            fx.handle.owned_pgid(&child),
            fx.handle.owned_task_id(&child),
            fx.handle.owned_started_at(&child),
            fx.handle.owned_nodes(),
            fx.handle.running_nodes(),
        )
    };
    let before = owned(&fx);
    assert_eq!(before.0, Some(4711));
    assert_eq!(before.3, Some(9_000));
    fx.handle.gone(ConnId(3));
    assert_eq!(owned(&fx), before, "a departure must not reach the record of a node");
    assert!(fx.killed.is_empty());
    assert!(
        !fx.idle_exit_eligible(),
        "a supervisor whose last client left still owns a running node"
    );
}

#[test]
fn a_node_this_supervisor_still_runs_holds_it_even_when_the_journal_says_nothing() {
    let mut fx = fx_with(vec![]);
    assert!(fx.idle_exit_eligible(), "an empty supervisor with no clients may exit");
    fx.handle.claim(&id("ghost"), Some(TaskId("t".into())), "/r".into(), Some([7; 32]));
    assert!(
        !fx.idle_exit_eligible(),
        "a node this process still owns and has no outcome for must hold the supervisor"
    );
    fx.handle.nodes.mark_finished(&id("ghost"), NodeOutcome::Child(Err("x".into())));
    assert!(
        fx.idle_exit_eligible(),
        "and must stop holding it once its thread has produced an outcome"
    );
}

#[test]
fn leaving_joins_every_finished_thread_and_no_other() {
    let mut fx = fx_with(vec![]);
    for (name, join) in [("a", 1), ("b", 2)] {
        fx.handle.claim(&id(name), None, "/r".into(), Some([1; 32]));
        fx.handle.nodes.file_join(&id(name), join);
    }
    fx.handle.finished_native(&id("b"), Err("it broke".into()));
    assert_eq!(fx.handle.begin_idle_exit(&fx.reg).0, None, "one of the two still runs");
    assert_eq!(fx.handle.owned_failure(&id("b")).as_deref(), Some("it broke"));
    assert_eq!(fx.handle.owned_failure(&id("a")), None);
    fx.handle.finished_native(&id("a"), Ok(()));
    assert_eq!(fx.handle.begin_idle_exit(&fx.reg).0, Some(vec![1, 2]));
    assert_eq!(fx.handle.begin_idle_exit(&fx.reg).0, Some(vec![]), "each is joined once");
}
