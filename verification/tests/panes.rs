use marion_supervisor::attach::{
    attach_mode, deliver_events, node_attach, unencodable_payload, AttachMode, NodeAttachResult,
    NodeEvent, StreamEvent, StreamFacts,
};
use marion_supervisor::cache::{PaneEntry, COMPLETED_TTL};
use marion_supervisor::display::{
    HostFacts, PaneAttach, PaneReady, PaneReplayReservationError, WinSize,
};
use marion_supervisor::error::{FailureKind, RpcError};
use marion_supervisor::handle::RegistryHandle;
use marion_supervisor::input::{Delivery, Input};
use marion_supervisor::model::{
    AgentId, AgentType, AgentTypes, ConnId, ExitStatus, Harness, HostId, NodeState, ReapState,
    Registry, ReplayPoint, ReplayedNode, SpawnIntent,
};
use marion_supervisor::native::{NativeLaunchClaimError, NativeLaunchReservationError};
use marion_supervisor::panes::{PaneEffects, Panes};
use marion_supervisor::records::{ProcessExit, RecordKind};

fn id(s: &str) -> AgentId {
    AgentId(s.into())
}

fn harness(ty: &str) -> Harness {
    Harness(if ty == "lead" { "lead-code" } else { "codex" }.into())
}

fn agent_type(name: &str) -> AgentType {
    AgentType {
        name: name.into(),
        harness: harness(name),
        timeout_secs: 900,
        model: None,
        max_depth: 3,
        max_concurrent_children: 4,
    }
}

fn builtins() -> AgentTypes {
    AgentTypes { rows: vec![agent_type("lead"), agent_type("codex-impl")] }
}

fn intent(agent: &str, parent: Option<&str>, ty: &str, depth: u32) -> RecordKind {
    RecordKind::SpawnIntent(SpawnIntent {
        agent_id: id(agent),
        parent_id: parent.map(id),
        agent_type: ty.into(),
        harness: harness(ty),
        depth,
        task_id: None,
        timeout_secs: None,
    })
}

fn state(agent: &str, state: NodeState) -> RecordKind {
    RecordKind::StateChanged { agent_id: id(agent), state }
}

fn exited(agent: &str) -> RecordKind {
    RecordKind::Exited {
        agent_id: id(agent),
        status: ExitStatus::Clean,
        exit: ProcessExit { code: Some(0), signal: None, description: "already done".into() },
    }
}

fn blank(agent: &AgentId, ts: u64) -> ReplayedNode {
    ReplayedNode {
        agent_id: agent.clone(),
        intent: None,
        harness_version: None,
        model: None,
        state: NodeState::Spawning,
        reap_state: ReapState::Live,
        first_ts: Some(ts),
        state_ts: None,
        spawn_aborted: false,
        spawn_confirmed: false,
        pid: None,
        reap_intent: false,
        harness_session: None,
        harness_pane: false,
        launch_workspace: None,
        spawn_generation: 0,
    }
}

fn empty_registry() -> Registry {
    Registry {
        nodes: vec![],
        read_point: ReplayPoint { records: 0, src_seq: None },
        stopped: None,
        path: "/state/p/journal.jsonl".into(),
        project: Some("/state/p".into()),
    }
}

fn node_mut<'a>(reg: &'a mut Registry, agent: &AgentId, ts: u64) -> &'a mut ReplayedNode {
    let at = match reg.nodes.iter().position(|n| n.agent_id == *agent) {
        Some(at) => at,
        None => {
            reg.nodes.push(blank(agent, ts));
            reg.nodes.len() - 1
        }
    };
    &mut reg.nodes[at]
}

fn apply(reg: &mut Registry, kind: RecordKind, ts: u64) {
    reg.read_point.records += 1;
    match kind {
        RecordKind::SpawnIntent(i) => {
            let agent = i.agent_id.clone();
            node_mut(reg, &agent, ts).intent = Some(i);
        }
        RecordKind::Spawned(s) => {
            let n = node_mut(reg, &s.agent_id, ts);
            n.spawn_confirmed = true;
            n.pid = s.pid;
            n.harness_version = Some(s.harness_version);
            n.model = s.model;
            n.spawn_generation += 1;
        }
        RecordKind::StateChanged { agent_id, state } => {
            let n = node_mut(reg, &agent_id, ts);
            n.state = state;
            n.state_ts = Some(ts);
        }
        RecordKind::Exited { agent_id, status, .. } => {
            let n = node_mut(reg, &agent_id, ts);
            n.state = NodeState::Exited(status);
            n.state_ts = Some(ts);
            n.reap_state = ReapState::Live;
        }
        RecordKind::KillConfirmed { agent_id, .. } => {
            let n = node_mut(reg, &agent_id, ts);
            n.state = NodeState::Exited(ExitStatus::Cancelled);
            n.state_ts = Some(ts);
        }
        RecordKind::ReapIntent { agent_id, .. } => node_mut(reg, &agent_id, ts).reap_intent = true,
        RecordKind::ReapConfirmed { agent_id } => {
            let n = node_mut(reg, &agent_id, ts);
            n.reap_intent = false;
            n.reap_state = ReapState::ReapedIdle;
        }
        _ => {}
    }
}

fn registry_of(records: Vec<RecordKind>) -> Registry {
    let mut reg = empty_registry();
    for (seq, kind) in records.into_iter().enumerate() {
        apply(&mut reg, kind, 1_000 + seq as u64);
    }
    reg
}

const SECOND: u64 = 1_000_000_000;

/// A pty host, as far as the supervisor's decisions reach it.
#[derive(Debug)]
struct Host {
    writer: Option<ConnId>,
    listeners: Vec<ConnId>,
    /// Reserved replays that have not been activated.
    pending: Vec<(ConnId, Vec<u8>, u64)>,
    /// Activated replays.
    active: Vec<ConnId>,
    replayable: bool,
    sealed: bool,
    size: WinSize,
    typed: Vec<u8>,
}

/// A supervisor with the hosts it decides about.
struct World {
    handle: RegistryHandle,
    reg: Registry,
    hosts: Vec<Host>,
    now: u64,
    /// Nodes with a native launch that nobody has claimed.
    native_pending: Vec<AgentId>,
    /// Connections whose pending replay was cut off.
    departed: Vec<ConnId>,
    /// What the root has said.
    said: Vec<&'static str>,
    recorded: bool,
    next_token: u8,
}

impl World {
    fn new() -> World {
        World {
            handle: RegistryHandle::new(builtins()),
            reg: registry_of(vec![intent("root", None, "lead", 0)]),
            hosts: vec![],
            now: 1_000 * SECOND,
            native_pending: vec![],
            departed: vec![],
            said: vec![],
            recorded: false,
            next_token: 0,
        }
    }

    fn say(&mut self, words: &[&'static str]) {
        self.recorded = true;
        self.said.extend_from_slice(words);
    }

    fn host(&mut self) -> HostId {
        self.hosts.push(Host {
            writer: None,
            listeners: vec![],
            pending: vec![],
            active: vec![],
            replayable: true,
            sealed: false,
            size: WinSize { cols: 80, rows: 24 },
            typed: vec![],
        });
        HostId(self.hosts.len() as u64 - 1)
    }

    fn at(&self, h: HostId) -> &Host {
        &self.hosts[h.0 as usize]
    }

    fn at_mut(&mut self, h: HostId) -> &mut Host {
        &mut self.hosts[h.0 as usize]
    }

    fn retire(&mut self, hosts: Vec<HostId>) {
        for h in hosts {
            let host = &mut self.hosts[h.0 as usize];
            host.listeners.clear();
            host.replayable = false;
            host.active.clear();
            for (conn, _, _) in std::mem::take(&mut host.pending) {
                self.departed.push(conn);
            }
        }
    }

    fn free(&mut self, released: Vec<(ConnId, HostId)>) {
        for (conn, h) in released {
            assert_eq!(self.at(h).writer, Some(conn), "a lease holds its host's slot");
            self.at_mut(h).writer = None;
        }
    }

    fn perform(&mut self, agent: &str, e: PaneEffects) {
        if e.revoke_native {
            self.native_pending.retain(|p| *p != id(agent));
        }
        self.free(e.released);
        if let Some(h) = e.seal {
            self.at_mut(h).sealed = true;
        }
        if let Some(h) = e.unlisten {
            self.at_mut(h).listeners.clear();
        }
        self.retire(e.retire);
    }

    fn register(&mut self, agent: &str, h: HostId) {
        let (gone, e) = self.handle.register_pane(&id(agent), h, self.now);
        self.retire(gone);
        let replaces = !e.retire.is_empty();
        self.perform(agent, e);
        if replaces {
            let e = self.handle.publish_pane(&id(agent), h);
            self.perform(agent, e);
        }
    }

    fn pane(&mut self, agent: &str) -> HostId {
        let h = self.host();
        self.register(agent, h);
        h
    }

    fn closing(&mut self, agent: &str, h: HostId) {
        let e = self.handle.closing_pane(&id(agent), h);
        self.perform(agent, e);
    }

    fn completed(&mut self, agent: &str, h: HostId, charge: usize) {
        let e = self.handle.completed_pane(&id(agent), h, charge, self.now);
        self.perform(agent, e);
    }

    fn failed(&mut self, agent: &str, h: HostId) {
        let e = self.handle.failed_pane(&id(agent), h);
        self.perform(agent, e);
    }

    fn forget(&mut self, agent: &str) {
        let e = self.handle.forget_pane(&id(agent));
        self.perform(agent, e);
    }

    fn drained(&mut self, agent: &str) -> HostId {
        let h = self.pane(agent);
        self.closing(agent, h);
        h
    }

    fn gone(&mut self, conn: ConnId) {
        let released = self.handle.gone(conn);
        self.free(released);
        for h in &mut self.hosts {
            h.listeners.retain(|c| *c != conn);
            h.pending.retain(|(c, _, _)| *c != conn);
            h.active.retain(|c| *c != conn);
        }
    }

    fn prune(&mut self) {
        let gone = self.handle.prune_completed_panes(self.now);
        self.retire(gone);
    }

    fn tick(&mut self) {
        let (gone, _) = self.handle.tick(&self.reg, self.now);
        self.retire(gone);
    }

    fn facts(&self, agent: &AgentId, h: HostId) -> HostFacts {
        HostFacts {
            size: Some(self.at(h).size),
            intended_size: WinSize { cols: 80, rows: 24 },
            writer: self.at(h).writer,
            native_pending: self.native_pending.contains(agent),
        }
    }

    fn no_facts(&self) -> HostFacts {
        HostFacts {
            size: None,
            intended_size: WinSize { cols: 80, rows: 24 },
            writer: None,
            native_pending: false,
        }
    }

    fn reserve(&mut self, h: HostId, conn: ConnId) -> Result<PaneReady, PaneReplayReservationError> {
        if !self.at(h).replayable {
            return Err(PaneReplayReservationError::Unavailable("it was invalidated".into()));
        }
        self.next_token += 1;
        let token = vec![self.next_token; 32];
        self.at_mut(h).pending.push((conn, token.clone(), 1));
        Ok(PaneReady { token, cut: 1 })
    }

    /// The live half of an attach, as the legacy stream has it.
    fn attach_pane(&mut self, agent: &str, conn: ConnId) -> Option<PaneAttach> {
        let facts = match self.handle.panes.entry(&id(agent)) {
            Some(PaneEntry::Live(h)) => self.facts(&id(agent), h),
            _ => self.no_facts(),
        };
        let (gone, attached) = self.handle.attach_pane(&id(agent), conn, facts, self.now);
        self.retire(gone);
        let a = attached?;
        self.at_mut(a.host).listeners.retain(|c| *c != conn);
        self.at_mut(a.host).listeners.push(conn);
        if a.granted {
            self.at_mut(a.host).writer = Some(conn);
        }
        Some(a.pane)
    }

    /// An attach, step by step. `seam` runs between the replay and the final selection.
    fn attach_at(
        &mut self,
        agent: &str,
        conn: ConnId,
        v1: bool,
        took: bool,
        seam: impl FnOnce(&mut World),
    ) -> Result<(Vec<NodeEvent>, NodeAttachResult), RpcError> {
        let target = node_attach(&self.reg, &self.handle.builtins, &id(agent))?;
        let path = format!("{}/agents/{agent}/events.jsonl", target.project);
        let records = self.said.len() as u64;
        let stream = StreamFacts {
            reader: conn.0,
            ever_written: self.recorded,
            read_point: ReplayPoint { records, src_seq: None },
        };
        let events: Vec<StreamEvent> = self
            .said
            .iter()
            .enumerate()
            .map(|(seq, word)| StreamEvent {
                agent_seq: seq as u64,
                ts: 5_000 + seq as u64,
                provenance: "protocol".into(),
                src_seq: None,
                payload: Ok((*word).into()),
            })
            .collect();
        let opened = target.opened(&path, Ok((stream, events)))?;
        let mut host = None;
        let mut reservation =
            Err(PaneReplayReservationError::Unavailable("nothing was asked for".into()));
        let mut facts = self.no_facts();
        if v1 {
            let (gone, target) = self.handle.panes.replay_target(&id(agent), self.now);
            self.retire(gone);
            if let Ok(Some(h)) = target {
                host = Some(h);
                reservation = self.reserve(h, conn);
                facts = self.facts(&id(agent), h);
            }
        }
        let (gone, reserved) =
            opened.reserve(&mut self.handle.panes, conn, v1, facts, reservation, self.now);
        self.retire(gone);
        let reserved = reserved?;
        if let Some(a) = &reserved.pane {
            if a.granted {
                self.at_mut(a.host).writer = Some(conn);
            }
        }
        let notes = reserved.replay();
        if took {
            seam(self);
        }
        let (writer, pending) = match (host, &reserved.pane) {
            (Some(h), Some(a)) => {
                let ready = a.pane.pane_ready.as_ref().expect("a reservation is advertised");
                let held = (conn, ready.token.clone(), ready.cut);
                (self.at(h).writer, self.at(h).pending.contains(&held))
            }
            _ => (None, false),
        };
        let (sent, freed) = reserved.sent(&mut self.handle.panes, conn, took, writer, pending);
        self.free(freed);
        let sent = match sent {
            Ok(sent) => sent,
            Err(e) => {
                if let Some(h) = host {
                    self.at_mut(h).pending.retain(|(c, _, _)| *c != conn);
                }
                return Err(e);
            }
        };
        let mut facts = self.no_facts();
        if !v1 {
            if let Some(PaneEntry::Live(h)) = self.handle.panes.entry(&id(agent)) {
                facts = self.facts(&id(agent), h);
                host = Some(h);
            }
        }
        let before = self.handle.panes.lease(conn, &id(agent));
        let (gone, got) =
            sent.finish(&mut self.handle.shared, &mut self.handle.panes, conn, facts, self.now);
        self.retire(gone);
        if !v1 && got.pane.is_some() {
            let h = host.unwrap();
            self.at_mut(h).listeners.retain(|c| *c != conn);
            self.at_mut(h).listeners.push(conn);
            if !before && self.handle.panes.lease(conn, &id(agent)) {
                self.at_mut(h).writer = Some(conn);
            }
        }
        Ok((notes, got))
    }

    fn attach(
        &mut self,
        agent: &str,
        conn: u64,
        v1: bool,
    ) -> Result<(Vec<NodeEvent>, NodeAttachResult), RpcError> {
        self.attach_at(agent, ConnId(conn), v1, true, |_| {})
    }

    fn input(&mut self, conn: ConnId, input: Input) -> Delivery {
        let d = self.handle.panes.deliver_input(conn, &input, self.now);
        match (&d, input) {
            (Delivery::Ready { retire, host }, Input::NodePaneReady { token, cut, .. }) => {
                self.retire(retire.clone());
                if let Some(h) = host {
                    let held = (conn, token, cut);
                    let host = self.at_mut(*h);
                    if host.pending.contains(&held) {
                        host.pending.retain(|p| *p != held);
                        host.active.push(conn);
                    }
                }
            }
            (Delivery::Opaque(Ok(h)), Input::NodePaneWrite { bytes, .. }) => {
                self.at_mut(*h).typed.extend_from_slice(&bytes);
            }
            (Delivery::Leased(Some(h)), Input::NodePtyWrite { text, .. }) => {
                self.at_mut(*h).typed.extend_from_slice(text.as_bytes());
            }
            (Delivery::Leased(Some(h)), Input::NodeResize { cols, rows, .. }) => {
                self.at_mut(*h).size = WinSize { cols, rows };
            }
            _ => {}
        }
        d
    }

    fn usage(&self) -> (usize, usize) {
        self.handle.panes.completed_usage()
    }

    fn entry(&self, agent: &str) -> Option<PaneEntry> {
        self.handle.panes.entry(&id(agent))
    }
}

fn keys(agent: &str, text: &str) -> Input {
    Input::NodePtyWrite { agent_id: id(agent), text: text.into() }
}

fn resize(agent: &str, cols: u16, rows: u16) -> Input {
    Input::NodeResize { agent_id: id(agent), cols, rows }
}

fn ready(agent: &str, r: &PaneReady) -> Input {
    Input::NodePaneReady { agent_id: id(agent), token: r.token.clone(), cut: r.cut }
}

fn heard(events: &[NodeEvent]) -> Vec<(u64, String)> {
    events.iter().map(|e| (e.agent_seq, e.payload.clone())).collect()
}

// -------------------------------------------------------------------------------------------------
// Native launches
// -------------------------------------------------------------------------------------------------

#[test]
fn pending_native_reservation_gates_both_attach_modes_until_atomic_ticket_claim() {
    let mut w = World::new();
    w.handle.panes.install_pending_native_launches(1).expect("the authority installs once");
    assert_eq!(w.handle.panes.install_pending_native_launches(2), Err(2), "and only once");
    assert!(w.handle.panes.reserve_pending_native_launch(&id("root")).is_ok());
    w.native_pending.push(id("root"));
    let host = w.host();
    w.register("root", host);
    let (_, generation) =
        w.handle.panes.publish_pending_native_launch(&id("root")).expect("the pane is live");
    assert_eq!(generation, 1);

    for v1 in [false, true] {
        let conn = 601 + u64::from(v1);
        let (_, got) = w.attach("root", conn, v1).expect("pane exists");
        let pane = got.pane.expect("pane exists");
        assert!(!pane.writable);
        assert!(!pane.ended, "the node runs; its keyboard is promised");
        assert_eq!(pane.held_by, None);
        assert_eq!(w.at(host).writer, None);
    }

    w.native_pending.clear();
    let claim = w
        .handle
        .panes
        .claim_pending_native_writer(&id("root"), ConnId(700), Ok(()))
        .expect("the ticket is good");
    w.at_mut(host).writer = Some(ConnId(700));
    assert_eq!(claim, generation);
    assert!(w.handle.panes.lease(ConnId(700), &id("root")));
    assert_eq!(
        w.handle.panes.claim_pending_native_writer(
            &id("root"),
            ConnId(701),
            Err(NativeLaunchClaimError::UnknownTicket),
        ),
        Err(NativeLaunchClaimError::UnknownTicket)
    );
    assert!(!w.handle.panes.lease(ConnId(701), &id("root")));
    w.gone(ConnId(700));
    assert_eq!(w.at(host).writer, None, "claim lease leaked after claimant departure");
}

#[test]
fn unacknowledged_native_claim_releases_lease_and_preserves_ticket_for_retry() {
    let mut w = World::new();
    w.handle.panes.install_pending_native_launches(1).unwrap();
    w.native_pending.push(id("root"));
    let host = w.pane("root");
    w.handle.panes.publish_pending_native_launch(&id("root")).unwrap();

    let prepared = w
        .handle
        .panes
        .prepare_pending_native_writer(&id("root"), ConnId(710), Ok(()))
        .unwrap();
    assert!(!w.handle.panes.lease(ConnId(710), &id("root")), "nothing is published yet");
    drop(prepared);
    assert!(w.native_pending.contains(&id("root")));

    let prepared = w
        .handle
        .panes
        .prepare_pending_native_writer(&id("root"), ConnId(711), Ok(()))
        .unwrap();
    assert!(prepared.is_current(&w.handle.panes, Some(ConnId(711))));
    let generation =
        prepared.commit(&mut w.handle.panes, Some(ConnId(711)), Ok(())).expect("acknowledged");
    w.at_mut(host).writer = Some(ConnId(711));
    assert_eq!(generation, 1);
    assert!(w.handle.panes.lease(ConnId(711), &id("root")));
    w.gone(ConnId(711));
    assert_eq!(w.at(host).writer, None);
}

#[test]
fn native_ticket_is_revoked_by_replacement_and_terminal_lifecycle() {
    let mut w = World::new();
    w.handle.panes.install_pending_native_launches(1).unwrap();
    w.native_pending.push(id("root"));
    let old = w.pane("root");
    w.handle.panes.publish_pending_native_launch(&id("root")).unwrap();
    let prepared = w
        .handle
        .panes
        .prepare_pending_native_writer(&id("root"), ConnId(799), Ok(()))
        .unwrap();
    let replacement = w.host();
    w.register("root", replacement);
    assert!(w.native_pending.is_empty(), "the authority was told to forget the node");
    assert_eq!(
        prepared.commit(&mut w.handle.panes, Some(ConnId(799)), Ok(())),
        Err(NativeLaunchClaimError::WrongBinding),
        "what was validated for the old host is not published on the new one"
    );
    assert_eq!(w.at(replacement).writer, None);
    assert!(!w.at(old).replayable);

    w.forget("root");
    assert_eq!(
        w.handle.panes.publish_pending_native_launch(&id("root")),
        Err(NativeLaunchReservationError::HostUnavailable)
    );
    w.native_pending.push(id("root"));
    let closing_host = w.pane("root");
    w.handle.panes.publish_pending_native_launch(&id("root")).unwrap();
    assert_eq!(
        w.handle.panes.reserve_pending_native_launch(&id("root")),
        Err(NativeLaunchReservationError::HostAlreadyVisible)
    );
    w.closing("root", closing_host);
    assert_eq!(
        w.handle.panes.claim_pending_native_writer(&id("root"), ConnId(801), Ok(())),
        Err(NativeLaunchClaimError::WrongBinding)
    );
    assert_eq!(w.at(closing_host).writer, None);
}

#[test]
fn without_an_authority_nothing_is_reserved_published_or_claimed() {
    let mut w = World::new();
    assert_eq!(
        w.handle.panes.reserve_pending_native_launch(&id("root")),
        Err(NativeLaunchReservationError::UnknownTicket)
    );
    w.pane("root");
    assert_eq!(
        w.handle.panes.publish_pending_native_launch(&id("root")),
        Err(NativeLaunchReservationError::UnknownTicket)
    );
    assert_eq!(
        w.handle.panes.claim_pending_native_writer(&id("root"), ConnId(1), Ok(())),
        Err(NativeLaunchClaimError::UnknownTicket)
    );
}

// -------------------------------------------------------------------------------------------------
// The lifecycle of a pane, and the cache
// -------------------------------------------------------------------------------------------------

#[test]
fn a_forged_pane_ready_before_advertisement_is_inert() {
    let mut w = World::new();
    let host = w.pane("root");
    assert_eq!(w.handle.panes(), 1);
    w.input(
        ConnId(9),
        Input::NodePaneReady { agent_id: id("root"), token: vec![0x5a; 32], cut: 0 },
    );
    assert!(w.at(host).active.is_empty());
    assert_eq!(w.handle.panes(), 1);
    assert!(w.at(host).listeners.is_empty());
    assert_eq!(w.handle.attachments(), 0);
    assert_eq!(w.handle.subscribers(), 0);
}

#[test]
fn forgetting_a_pane_cancels_pending_replay_on_cloned_hosts() {
    let mut w = World::new();
    let host = w.pane("root");
    let r = w.reserve(host, ConnId(103)).unwrap();
    w.forget("root");
    w.input(ConnId(103), ready("root", &r));
    assert!(w.at(host).active.is_empty(), "a forgotten host activated its old replay");
    assert!(w.reserve(host, ConnId(103)).is_err(), "a forgotten host minted a new replay");
    assert_eq!(w.handle.panes(), 0);
}

#[test]
fn a_fast_exit_keeps_its_tail_and_end_available_for_late_internal_replay() {
    let mut w = World::new();
    let host = w.drained("root");
    assert!(w.at(host).sealed);
    assert!(w.at(host).replayable, "closing keeps the tail");
    w.completed("root", host, 9);
    assert_eq!(w.handle.panes(), 1, "the completed pane stays retained");
    let r = w.reserve(host, ConnId(1_106)).expect("a late replay is available");
    w.input(ConnId(1_106), ready("root", &r));
    assert_eq!(w.at(host).active, [ConnId(1_106)]);
}

#[test]
fn completed_pane_ttl_is_exact_and_never_refreshed_by_replay() {
    let mut w = World::new();
    let completed_at = w.now;
    let host = w.drained("root");
    w.completed("root", host, 77);
    assert_eq!(w.usage(), (1, 77));

    w.now = completed_at + 299 * SECOND;
    w.tick();
    assert!(w.reserve(host, ConnId(1_122)).is_ok(), "replayable before its deadline");
    assert_eq!(w.handle.panes(), 1);

    w.now = completed_at + 300 * SECOND;
    w.tick();
    assert_eq!(w.usage(), (0, 0));
    assert_eq!(w.handle.panes(), 0);
    assert!(w.reserve(host, ConnId(1_123)).is_err(), "the evicted host stayed replayable");
}

#[test]
fn completed_cache_eviction_visibly_departs_pending_replay() {
    let mut w = World::new();
    let host = w.drained("root");
    w.completed("root", host, 10);
    w.reserve(host, ConnId(1_202)).expect("pending completed replay");
    w.now += 300 * SECOND;
    w.prune();
    assert_eq!(w.departed, [ConnId(1_202)]);
}

#[test]
fn pane_ticks_with_no_completed_entries_do_not_scan_the_pane_map() {
    let mut w = World::new();
    w.pane("root");
    for _ in 0..32 {
        assert!(!w.handle.panes.needs_scan(w.now));
        w.tick();
        w.now += 5_000_000;
    }
}

#[test]
fn pane_ticks_scan_once_at_the_cached_completion_expiry() {
    let mut w = World::new();
    let completed_at = w.now;
    let host = w.drained("root");
    w.completed("root", host, 1_024);
    w.now = completed_at + 299 * SECOND;
    for _ in 0..32 {
        assert!(!w.handle.panes.needs_scan(w.now), "pre-expiry heartbeats scanned the cache");
        w.tick();
    }
    w.now = completed_at + 300 * SECOND;
    assert!(w.handle.panes.needs_scan(w.now), "the exact deadline scans");
    w.tick();
    assert!(!w.handle.panes.needs_scan(w.now), "once");
    assert_eq!(w.usage(), (0, 0));
}

#[test]
fn completed_pane_count_cap_evicts_the_oldest_zero_output_entry() {
    let mut w = World::new();
    w.handle.panes = Panes::with_limits(2, 0);
    let mut hosts = vec![];
    for index in 0..3 {
        let agent = format!("completed-{index:02}");
        let host = w.drained(&agent);
        w.completed(&agent, host, 5);
        hosts.push(host);
    }
    assert_eq!(w.usage(), (2, 10));
    assert_eq!(w.entry("completed-00"), None, "the oldest completion survived past the cap");
    assert!(w.entry("completed-02").is_some());
    assert!(!w.at(hosts[0]).replayable, "the victim remained replayable");
    assert!(w.at(hosts[1]).replayable);
}

#[test]
fn individually_oversized_completion_preserves_the_existing_cache() {
    const BYTE_CAP: usize = 256 * 1024 * 1024;
    let mut w = World::new();
    let existing = w.drained("existing");
    w.completed("existing", existing, 1024);
    assert_eq!(w.usage(), (1, 1024));
    let oversized = w.drained("oversized");
    w.completed("oversized", oversized, BYTE_CAP + 1);
    assert_eq!(w.usage(), (1, 1024));
    assert!(matches!(
        w.entry("existing"),
        Some(PaneEntry::Completed { host, .. }) if host == existing
    ));
    assert_eq!(w.entry("oversized"), None);
    assert!(!w.at(oversized).replayable, "the rejected host remained replayable");
    let exact = w.drained("exact");
    w.completed("exact", exact, BYTE_CAP);
    assert_eq!(w.usage(), (1, BYTE_CAP), "the cap itself fits, alone");
}

#[test]
fn completed_byte_cap_evicts_oldest_until_the_exact_sum_fits() {
    const HUNDRED_MIB: usize = 100 * 1024 * 1024;
    let mut w = World::new();
    let oldest = w.drained("bytes-0");
    w.completed("bytes-0", oldest, HUNDRED_MIB);
    let middle = w.drained("bytes-1");
    w.completed("bytes-1", middle, HUNDRED_MIB);
    assert_eq!(w.usage(), (2, 2 * HUNDRED_MIB));
    let newest = w.drained("bytes-2");
    w.completed("bytes-2", newest, HUNDRED_MIB);
    assert_eq!(
        w.usage(),
        (2, 2 * HUNDRED_MIB),
        "one oldest entry is exactly enough to restore the cap"
    );
    assert_eq!(w.entry("bytes-0"), None);
    assert!(w.entry("bytes-1").is_some());
    assert!(w.entry("bytes-2").is_some());
    assert!(!w.at(oldest).replayable);
}

#[test]
fn completed_order_exhaustion_rejects_only_the_new_candidate() {
    let mut w = World::new();
    w.handle.panes = Panes::with_limits(64, u64::MAX - 1);
    let existing = w.drained("order-existing");
    w.completed("order-existing", existing, 1024);
    assert_eq!(w.handle.panes.next_completed_order, u64::MAX);
    let candidate = w.drained("order-candidate");
    w.completed("order-candidate", candidate, 2048);
    assert_eq!(w.usage(), (1, 1024));
    assert_eq!(w.handle.panes.next_completed_order, u64::MAX);
    assert!(matches!(
        w.entry("order-existing"),
        Some(PaneEntry::Completed { host, .. }) if host == existing
    ));
    assert_eq!(w.entry("order-candidate"), None);
    assert!(!w.at(candidate).replayable);
}

#[test]
fn a_stale_failed_close_cannot_remove_a_replacement_pane() {
    let mut w = World::new();
    let old = w.pane("root");
    w.closing("root", old);
    let replacement = w.pane("root");
    w.failed("root", old);
    assert_eq!(w.entry("root"), Some(PaneEntry::Live(replacement)));
    assert!(w.reserve(old, ConnId(1_107)).is_err(), "the failed host remains replayable");
}

#[test]
fn stale_generation_callbacks_cannot_change_completed_accounting_or_replacement() {
    let mut w = World::new();
    let old = w.pane("root");
    w.closing("root", old);
    w.completed("root", old, 12);
    assert_eq!(w.usage(), (1, 12));
    assert_eq!(w.handle.panes.next_completed_order, 1);
    let replacement = w.pane("root");
    assert_eq!(w.usage(), (0, 0));
    let order_after_replacement = w.handle.panes.next_completed_order;
    w.completed("root", old, 12);
    w.failed("root", old);
    assert_eq!(w.usage(), (0, 0));
    assert_eq!(
        w.handle.panes.next_completed_order, order_after_replacement,
        "a stale completion must not consume cache order"
    );
    assert_eq!(w.entry("root"), Some(PaneEntry::Live(replacement)));
}

#[test]
fn only_live_panes_are_visible_on_legacy_projection_and_attach() {
    let mut w = World::new();
    let host = w.pane("root");
    w.say(&["ready"]);
    assert!(w.handle.node_get(&w.reg, &id("root")).unwrap().pane);
    assert!(w.handle.pane_ids().contains(&id("root")));

    w.closing("root", host);
    assert!(!w.handle.node_get(&w.reg, &id("root")).unwrap().pane);
    assert!(!w.handle.pane_ids().contains(&id("root")));
    let (_, closing) = w.attach("root", 1_111, false).unwrap();
    assert!(!closing.node.pane);
    assert!(closing.pane.is_none());
    assert!(w.at(host).listeners.is_empty(), "Closing installed a dead listener");

    let (_, closing_v1) = w.attach("root", 1_204, true).expect("Closing remains replayable");
    assert!(closing_v1.node.pane, "the summary describes this exact pane");
    let pane = closing_v1.pane.expect("Closing advertises only the exact replay");
    assert!(!pane.writable);
    assert_eq!(pane.held_by, None);
    assert!(pane.ended, "read-only because it ended, not because a writer holds it");
    let r = pane.pane_ready.expect("Closing advertises a response-first cursor");

    w.completed("root", host, 3);
    w.input(ConnId(1_204), ready("root", &r));
    assert_eq!(w.at(host).active, [ConnId(1_204)]);
    assert!(!w.handle.node_get(&w.reg, &id("root")).unwrap().pane);
    assert!(!w.handle.pane_ids().contains(&id("root")));
    let (_, completed) = w.attach("root", 1_112, false).unwrap();
    assert!(!completed.node.pane);
    assert!(completed.pane.is_none());
    assert!(w.at(host).listeners.is_empty(), "Completed installed a dead listener");

    let (_, completed_v1) = w.attach("root", 1_205, true).expect("Completed remains replayable");
    assert!(completed_v1.node.pane);
    let pane = completed_v1.pane.expect("Completed advertises only the exact replay");
    assert!(!pane.writable);
    assert_eq!(pane.held_by, None);
    assert!(pane.ended, "a Completed pane is read-only because it ended");
    assert!(pane.pane_ready.is_some());
}

#[test]
fn ready_pane_v1_subscription_survives_same_host_completion() {
    let mut w = World::new();
    let host = w.pane("root");
    w.say(&["before-ready"]);
    let (_, attached) = w.attach("root", 1_206, true).expect("Live v1 attach");
    let r = attached.pane.unwrap().pane_ready.expect("Live v1 descriptor");
    w.input(ConnId(1_206), ready("root", &r));
    assert_eq!(w.at(host).active, [ConnId(1_206)], "replay reaches Ready");
    w.closing("root", host);
    w.completed("root", host, 4);
    assert_eq!(w.at(host).active, [ConnId(1_206)], "the terminal End reaches the same cursor");
    assert!(w.departed.is_empty());
}

#[test]
fn completed_commit_preserves_final_legacy_tail_then_clears_listener() {
    let mut w = World::new();
    let host = w.pane("root");
    w.attach_pane("root", ConnId(1_126)).unwrap();
    w.closing("root", host);
    assert_eq!(
        w.at(host).listeners.len(),
        1,
        "Closing cleared the listener before the reader drained its final tail"
    );
    w.completed("root", host, 10);
    assert!(w.at(host).listeners.is_empty(), "Completed retained a legacy listener");
    assert!(w.at(host).replayable);
}

#[test]
fn replacing_a_pane_revokes_the_old_generation_outside_the_registry_lock() {
    let mut w = World::new();
    let old = w.pane("root");
    let conn = ConnId(1_113);
    assert!(w.attach_pane("root", conn).unwrap().writable);
    let r = w.reserve(old, ConnId(1_114)).expect("old replay is reserved");
    let replacement = w.pane("root");

    w.input(conn, resize("root", 140, 50));
    assert_eq!(
        w.at(replacement).size,
        WinSize { cols: 80, rows: 24 },
        "the old lease resized the replacement"
    );
    assert!(w.at(old).listeners.is_empty(), "old legacy listener survived replacement");
    assert_eq!(w.at(old).writer, None, "old writer lease survived replacement");
    w.input(ConnId(1_114), ready("root", &r));
    assert!(w.at(old).active.is_empty(), "old retained replay activated after replacement");
    assert!(w.reserve(old, ConnId(1_114)).is_err());

    assert!(w.attach_pane("root", conn).unwrap().writable, "no fresh lease was issued");
    assert_eq!(w.at(replacement).writer, Some(conn));
}

#[test]
fn a_replacement_that_is_overtaken_is_retired_and_not_published() {
    let mut w = World::new();
    w.pane("root");
    let slow = w.host();
    let (_, e) = w.handle.register_pane(&id("root"), slow, w.now);
    w.perform("root", e);
    assert_eq!(w.entry("root"), Some(PaneEntry::Replacing(slow)));
    assert!(w.attach("root", 4, true).is_err(), "nothing is attached while it takes over");
    w.forget("root");
    let e = w.handle.publish_pane(&id("root"), slow);
    w.perform("root", e);
    assert_eq!(w.entry("root"), None);
    assert!(!w.at(slow).replayable);
}

// -------------------------------------------------------------------------------------------------
// Attaching to a pane
// -------------------------------------------------------------------------------------------------

#[test]
fn node_attach_summary_matches_the_post_replay_pane_selection() {
    let mut w = World::new();
    let host = w.pane("root");
    w.say(&["before-selection"]);
    let (notes, attached) = w
        .attach_at("root", ConnId(1_117), false, true, |w| w.closing("root", host))
        .expect("node attach succeeds");
    assert_eq!(
        attached.node.pane,
        attached.pane.is_some(),
        "the summary disagrees with the exact pane selection"
    );
    assert!(!attached.node.pane);
    assert_eq!(notes.len(), 1);
    assert!(w.at(host).listeners.is_empty(), "Closing gained a legacy listener");
}

#[test]
fn pane_v1_attach_refuses_a_replaced_generation_at_final_selection() {
    let mut w = World::new();
    let old = w.pane("root");
    w.say(&["before-replacement"]);
    let error = w
        .attach_at("root", ConnId(1_201), true, true, |w| {
            w.pane("root");
        })
        .expect_err("a dead Ready descriptor was returned");
    assert_eq!(error.kind(), Some(FailureKind::Conflict));
    assert!(error.message.contains("retry against the current generation"), "{error:?}");
    assert_eq!(w.handle.attachments(), 0);
    assert_eq!(w.at(old).writer, None);
    assert!(w.at(old).listeners.is_empty());
    assert!(!w.handle.panes.lease(ConnId(1_201), &id("root")));
}

#[test]
fn pane_v1_attach_separates_a_busy_writer_from_a_pane_that_ended() {
    let mut w = World::new();
    w.pane("root");
    w.say(&["running"]);
    let (_, first) = w.attach("root", 1_301, true).expect("takes the write half");
    let first = first.pane.expect("a live pane answers v1");
    assert!(first.writable);
    assert!(!first.ended);
    let (_, second) = w.attach("root", 1_302, true).expect("read-only, not refused");
    let second = second.pane.expect("a live pane answers v1");
    assert!(!second.writable);
    assert_eq!(second.held_by, Some(1_301), "a busy write half names its holder");
    assert!(!second.ended, "the node is still running; only its keyboard is taken");
}

#[test]
fn pane_v1_attach_finalizes_same_host_closing_as_read_only() {
    let mut w = World::new();
    let host = w.pane("root");
    w.say(&["before-closing"]);
    let (_, attached) = w
        .attach_at("root", ConnId(1_203), true, true, |w| w.closing("root", host))
        .expect("same-host Closing keeps replay reachable");
    let pane = attached.pane.expect("Closing remains v1 replayable");
    let r = pane.pane_ready.expect("the reserved descriptor survives");
    assert!(!pane.writable);
    assert_eq!(pane.held_by, None);
    assert!(pane.ended, "a pane that closed between reservation and commit ended");
    assert_eq!(w.at(host).writer, None);
    assert!(w.at(host).pending.contains(&(ConnId(1_203), r.token, r.cut)));
}

#[test]
fn failed_pane_v1_reservation_has_no_attach_side_effects() {
    let mut w = World::new();
    let host = w.pane("root");
    w.say(&["must-not-deliver"]);
    w.retire(vec![host]);
    let error = w.attach("root", 1_207, true).expect_err("invalid replay silently downgraded");
    assert_eq!(error.kind(), Some(FailureKind::Internal));
    assert!(error.message.contains("could not create an exact pane replay"), "{error:?}");
    assert_eq!(w.handle.attachments(), 0);
    assert_eq!(w.at(host).writer, None);
    assert!(w.at(host).listeners.is_empty());
    assert!(!w.handle.panes.lease(ConnId(1_207), &id("root")));
}

#[test]
fn an_attach_whose_connection_closed_is_rolled_back() {
    let mut w = World::new();
    let host = w.pane("root");
    w.say(&["queued"]);
    let error = w
        .attach_at("root", ConnId(5), true, false, |_| {})
        .expect_err("the connection went away");
    assert_eq!(error.kind(), Some(FailureKind::Internal));
    assert!(error.message.contains("were rolled back"), "{error:?}");
    assert_eq!(w.at(host).writer, None);
    assert!(w.at(host).pending.is_empty());
    assert!(!w.handle.panes.lease(ConnId(5), &id("root")));
    assert_eq!(w.handle.attachments(), 0);
    let (_, next) = w.attach("root", 6, true).unwrap();
    assert!(next.pane.unwrap().writable, "and the keyboard is free again");
}

#[test]
fn an_attach_finds_no_pane_past_its_deadline() {
    let mut w = World::new();
    let host = w.drained("root");
    w.completed("root", host, 1);
    let facts = w.no_facts();
    let ready = || Ok(PaneReady { token: vec![1; 32], cut: 1 });
    let deadline = w.now + COMPLETED_TTL;
    let (gone, kept) =
        w.handle.attach_pane_v1(&id("root"), ConnId(1), facts, ready(), deadline - 1);
    assert!(gone.is_empty());
    assert!(kept.unwrap().expect("it is replayable until its deadline").pane.ended);
    let (gone, answer) =
        w.handle.attach_pane_v1(&id("root"), ConnId(1), facts, ready(), deadline);
    assert_eq!(gone, [host], "the host comes back to be retired");
    assert!(answer.unwrap().is_none(), "an expired pane was handed out");
    assert_eq!(w.handle.panes(), 0);
    let (gone, live) = w.handle.attach_pane(&id("root"), ConnId(1), facts, deadline);
    assert!(gone.is_empty() && live.is_none());
}

#[test]
fn a_pane_that_is_taken_out_takes_its_charge_along() {
    let mut w = World::new();
    let host = w.drained("root");
    w.completed("root", host, 7);
    assert_eq!(w.handle.panes.completed_usage(), (1, 7));
    assert!(w.handle.panes.remove(&id("nobody")).is_none());
    assert_eq!(w.handle.panes.completed_usage(), (1, 7));
    assert!(w.handle.panes.remove(&id("root")).is_some());
    assert_eq!(w.handle.panes.completed_usage(), (0, 0));
}

#[test]
fn each_refusal_to_reserve_is_its_own_answer() {
    let mut w = World::new();
    w.pane("root");
    let facts = w.no_facts();
    let mut ask = |e| {
        w.handle
            .panes
            .attach_pane_v1(&id("root"), ConnId(1), facts, Err(e), 0)
            .1
            .expect_err("the host refused")
    };
    let busy = ask(PaneReplayReservationError::Busy("eight are pending".into()));
    assert_eq!(busy.kind(), Some(FailureKind::Refused));
    assert!(busy.message.ends_with("bounded pane replay: eight are pending"), "{busy:?}");
    let entropy = ask(PaneReplayReservationError::Entropy("no entropy".into()));
    assert_eq!(entropy.kind(), Some(FailureKind::Internal));
    assert!(entropy.message.ends_with("exact pane replay: no entropy"), "{entropy:?}");
}

#[test]
fn dark_pane_attach_does_not_consult_internal_replay_state() {
    let mut w = World::new();
    let host = w.pane("root");
    w.retire(vec![host]);
    let (_, attached) = w.attach("root", 104, false).expect("legacy attach ignores replay state");
    let pane = attached.pane.expect("the pty remains attachable");
    assert!(pane.pane_ready.is_none());
    assert_eq!(w.at(host).listeners, [ConnId(104)]);
    assert_eq!(w.at(host).writer, Some(ConnId(104)));
}

#[test]
fn pane_stream_capability_reserves_response_first_replay() {
    let mut w = World::new();
    let host = w.pane("root");
    w.at_mut(host).size = WinSize { cols: 100, rows: 40 };
    let (_, attached) = w.attach("root", 7, true).unwrap();
    let pane = attached.pane.expect("the real pty is attachable");
    let r = pane.pane_ready.expect("explicit v1 advertises the reserved replay");
    assert_eq!((pane.cols, pane.rows), (100, 40));
    assert!(w.at(host).listeners.is_empty(), "opt-in installed a legacy listener");
    assert!(w.at(host).active.is_empty(), "pane frames preceded the attach response");
    w.input(ConnId(7), ready("root", &r));
    assert_eq!(w.at(host).active, [ConnId(7)], "exact Ready activates the replay");
}

#[test]
fn pane_ready_routing_is_exact_and_preserves_the_valid_pending_slot() {
    let mut w = World::new();
    let host = w.pane("root");
    let conn = ConnId(105);
    let r = w.reserve(host, conn).unwrap();
    let held = (conn, r.token.clone(), r.cut);
    let wrong = [
        (conn, "root", vec![0xa5; 32], r.cut),
        (conn, "root", r.token.clone(), r.cut + 1),
        (ConnId(106), "root", r.token.clone(), r.cut),
        (conn, "not-root", r.token.clone(), r.cut),
    ];
    for (from, agent, token, cut) in wrong {
        w.input(from, Input::NodePaneReady { agent_id: id(agent), token, cut });
        assert!(w.at(host).active.is_empty());
        assert!(w.at(host).pending.contains(&held));
    }
    w.input(conn, ready("root", &r));
    assert_eq!(w.at(host).active, [conn], "exact Ready starts replay");
}

#[test]
fn a_ready_token_cannot_revive_a_pane_at_its_deadline() {
    let mut w = World::new();
    let host = w.drained("root");
    w.completed("root", host, 1);
    let r = w.reserve(host, ConnId(3)).unwrap();
    w.now += 300 * SECOND;
    let d = w.input(ConnId(3), ready("root", &r));
    assert!(matches!(d, Delivery::Ready { host: None, .. }));
    assert!(w.at(host).active.is_empty());
    assert_eq!(w.usage(), (0, 0));
}

#[test]
fn an_attached_client_is_given_the_write_half_and_its_keystrokes_reach_the_child() {
    let mut w = World::new();
    let host = w.pane("root");
    let (_, got) = w.attach("root", 1, false).unwrap();
    let p = got.pane.expect("a node with a registered pty answers with a pane");
    assert!(p.writable, "the first attacher gets the write half");
    assert_eq!(p.held_by, None);
    assert!(!p.ended, "a live pane has not ended");
    assert_eq!((p.cols, p.rows), (80, 24));
    w.input(ConnId(1), keys("root", "ping\r"));
    assert_eq!(w.at(host).typed, b"ping\r", "the keystroke never reached the child");
    let (_, again) = w.attach("root", 1, false).unwrap();
    assert!(again.pane.unwrap().writable, "a writer that attaches again keeps its lease");
    assert_eq!(w.handle.panes.leases.len(), 1, "and is not given a second one");
}

#[test]
fn a_second_attacher_is_refused_the_write_half_by_name_and_cannot_type() {
    let mut w = World::new();
    let host = w.pane("root");
    assert!(w.attach("root", 1, false).unwrap().1.pane.unwrap().writable);
    let b = w.attach("root", 2, false).unwrap().1.pane.unwrap();
    assert!(!b.writable, "two writers on one pty interleave into nonsense");
    assert_eq!(b.held_by, Some(1));
    let d = w.input(ConnId(2), keys("root", "sneak\r"));
    assert!(matches!(d, Delivery::Leased(None)), "a read-only client typed into the node anyway");
    w.input(ConnId(1), keys("root", "ping\r"));
    assert_eq!(w.at(host).typed, b"ping\r", "refusing the second client broke the first");
}

#[test]
fn a_resize_reaches_the_pty_and_the_child_is_told() {
    let mut w = World::new();
    let host = w.pane("root");
    assert!(w.attach("root", 1, false).unwrap().1.pane.unwrap().writable);
    w.input(ConnId(1), resize("root", 140, 40));
    assert_eq!(w.at(host).size, WinSize { cols: 140, rows: 40 });
}

#[test]
fn a_read_only_attacher_cannot_resize_the_node() {
    let mut w = World::new();
    let host = w.pane("root");
    w.attach("root", 1, false).unwrap();
    assert!(!w.attach("root", 2, false).unwrap().1.pane.unwrap().writable);
    w.input(ConnId(2), resize("root", 200, 60));
    assert_eq!(
        w.at(host).size,
        WinSize { cols: 80, rows: 24 },
        "a read-only client reflowed the writer's pane"
    );
}

#[test]
fn opaque_input_is_admitted_only_from_the_live_write_lease() {
    let mut w = World::new();
    let host = w.pane("root");
    w.attach("root", 1, true).unwrap();
    let bytes = |agent: &str| Input::NodePaneWrite { agent_id: id(agent), bytes: vec![3, 0xff] };
    assert!(matches!(w.input(ConnId(1), bytes("root")), Delivery::Opaque(Ok(h)) if h == host));
    assert_eq!(w.at(host).typed, [3, 0xff]);
    let Delivery::Opaque(Err(why)) = w.input(ConnId(2), bytes("root")) else {
        panic!("another connection's bytes were admitted")
    };
    assert_eq!(why, "opaque pane input requires this connection's live write lease");
    w.closing("root", host);
    assert!(matches!(w.input(ConnId(1), bytes("root")), Delivery::Opaque(Err(_))));
    assert_eq!(w.at(host).typed, [3, 0xff]);
}

#[test]
fn a_client_departing_leaves_the_node_running_and_releases_its_keyboard() {
    let mut w = World::new();
    let host = w.pane("root");
    assert!(w.attach("root", 1, false).unwrap().1.pane.unwrap().writable);
    w.gone(ConnId(1));
    assert_eq!(w.handle.attachments(), 0, "the supervisor never noticed the departure");
    assert_eq!(w.entry("root"), Some(PaneEntry::Live(host)), "the node was touched");
    let p = w.attach("root", 2, false).unwrap().1.pane.unwrap();
    assert!(p.writable, "the departed client's lease was never released: {:?}", p.held_by);
    w.input(ConnId(2), keys("root", "ping\r"));
    assert_eq!(w.at(host).typed, b"ping\r", "the node survived but nobody can type into it");
}

#[test]
fn a_node_with_no_pty_attaches_with_no_pane() {
    let mut w = World::new();
    w.say(&["one"]);
    let (_, got) = w.attach("root", 1, false).unwrap();
    assert!(got.pane.is_none());
    assert!(!got.node.pane);
    assert_eq!(w.handle.panes(), 0);
    let d = w.input(ConnId(1), keys("root", "x"));
    assert!(matches!(d, Delivery::Leased(None)));
    let (_, v1) = w.attach("root", 2, true).unwrap();
    assert!(v1.pane.is_none());
}

// -------------------------------------------------------------------------------------------------
// Attaching to a stream
// -------------------------------------------------------------------------------------------------

#[test]
fn node_attach_replays_the_detached_window_and_then_follows_the_same_cursor_live() {
    let mut w = World::new();
    w.say(&["before-1", "before-2", "before-3"]);
    let (replay, got) = w.attach("root", 1, false).unwrap();
    assert_eq!(got.node.agent_id, id("root"));
    assert!(got.mode.is_live(), "a node that has not exited is a re-subscribe: {:?}", got.mode);
    assert_eq!(
        heard(&replay),
        vec![(0, "before-1".into()), (1, "before-2".into()), (2, "before-3".into())]
    );
    assert_eq!(got.mode.replay_point().records, 3);
    assert_eq!(w.handle.attachments(), 1);
    assert_eq!(w.handle.pump_attached(&vec![(3, true)]), 3, "per event, not per delivery");
    assert_eq!(w.handle.attachments(), 1);
    assert_eq!(w.handle.pump_attached(&vec![(1, false)]), 1);
    assert_eq!(w.handle.attachments(), 0, "a connection that is finished is not followed");
}

#[test]
fn a_second_client_attaching_later_gets_its_own_replay_from_the_beginning() {
    let mut w = World::new();
    w.say(&["one", "two"]);
    let (first, _) = w.attach("root", 1, false).unwrap();
    assert_eq!(heard(&first).len(), 2);
    w.say(&["three"]);
    let (second, got) = w.attach("root", 2, false).unwrap();
    assert_eq!(
        heard(&second),
        vec![(0, "one".into()), (1, "two".into()), (2, "three".into())],
        "B replays the whole file, not the tail A had not read"
    );
    assert_eq!(got.mode.replay_point().records, 3);
    assert_eq!(w.handle.attachments(), 2);
    let readers: Vec<u64> = w.handle.shared.attached.iter().map(|a| a.reader).collect();
    assert_eq!(readers, [1, 2], "two clients, two cursors");
}

#[test]
fn an_exited_node_with_no_stream_is_refused_as_unrecorded_rather_than_replayed_as_silent() {
    let mut w = World::new();
    apply(&mut w.reg, exited("root"), 9_000);
    let e = w.attach("root", 1, false).expect_err("nothing was replayed");
    assert_eq!(e.kind(), Some(FailureKind::NotFound));
    assert!(e.message.contains("not** an empty transcript"), "{e:?}");
    assert!(e.message.contains("no `/state/p/agents/root/events.jsonl`"), "{e:?}");
    assert_eq!(w.handle.attachments(), 0, "a refused attach leaves no cursor behind");
}

#[test]
fn a_live_node_that_has_not_spoken_yet_is_followed_and_its_first_frame_arrives() {
    let mut w = World::new();
    let (notes, got) = w.attach("root", 1, false).unwrap();
    assert!(notes.is_empty());
    assert!(got.mode.is_live());
    assert_eq!(got.mode.replay_point().records, 0);
    assert_eq!(w.handle.attachments(), 1);
    assert_eq!(w.handle.pump_attached(&vec![(1, true)]), 1);
}

#[test]
fn attaching_to_a_node_the_journal_never_recorded_is_a_refusal_that_says_how_much_was_read() {
    let mut w = World::new();
    let e = w.attach("nobody", 1, false).expect_err("no such node");
    assert_eq!(e.kind(), Some(FailureKind::NotFound));
    assert!(e.message.contains("records read"), "{e:?}");
    assert!(e.message.contains("as of 1 records read"), "{e:?}");
    assert_eq!(w.handle.attachments(), 0);
}

#[test]
fn a_stream_that_cannot_be_found_or_read_is_the_supervisors_own_fault() {
    let w = World::new();
    let target = node_attach(&w.reg, &w.handle.builtins, &id("root")).unwrap();
    let e = target.opened("/s/e.jsonl", Err("permission denied".into())).expect_err("unreadable");
    assert_eq!(e.kind(), Some(FailureKind::Internal));
    assert!(
        e.message.starts_with(
            "node `root`'s event stream at /s/e.jsonl could not be read: permission denied. "
        ),
        "{e:?}"
    );
    let mut lost = registry_of(vec![intent("root", None, "lead", 0)]);
    lost.project = None;
    let e = node_attach(&lost, &w.handle.builtins, &id("root")).expect_err("no project");
    assert!(e.message.contains("misconfigured supervisor"), "{e:?}");
}

#[test]
fn an_orphaned_node_attaches_as_replay_resumable_and_never_as_a_live_channel() {
    let p = ReplayPoint { records: 7, src_seq: None };
    for state in [NodeState::Running, NodeState::Idle, NodeState::Exited(ExitStatus::Clean)] {
        let mode = attach_mode(state, ReapState::Orphaned, p);
        assert!(
            matches!(mode, AttachMode::ReplayResumable(_)),
            "an orphan in state {state:?} answered {mode:?}"
        );
        assert!(!mode.is_live(), "no supervisor holds an orphan's channel");
        assert_eq!(mode.replay_point(), p);
    }
}

#[test]
fn the_attach_mode_is_derived_from_the_nodes_two_state_fields_and_nothing_else() {
    let p = ReplayPoint { records: 4, src_seq: None };
    let done = NodeState::Exited(ExitStatus::Clean);
    assert!(matches!(
        attach_mode(NodeState::Running, ReapState::Live, p),
        AttachMode::ResubscribeFrom(_)
    ));
    assert!(matches!(attach_mode(done, ReapState::Live, p), AttachMode::ReplayOnly(_)));
    assert!(matches!(
        attach_mode(NodeState::Idle, ReapState::ReapedIdle, p),
        AttachMode::ReplayResumable(_)
    ));
    assert!(matches!(
        attach_mode(done, ReapState::ReapedIdle, p),
        AttachMode::ReplayResumable(_)
    ));
    assert_eq!(
        attach_mode(NodeState::Running, ReapState::Live, p).replay_point(),
        p,
        "the point is carried, never recomputed"
    );
}

#[test]
fn a_departed_client_stops_being_followed_and_the_node_keeps_recording() {
    let mut w = World::new();
    w.say(&["one"]);
    let (replay, _) = w.attach("root", 1, false).unwrap();
    assert_eq!(heard(&replay).len(), 1);
    assert_eq!(w.handle.attachments(), 1);
    w.gone(ConnId(1));
    assert_eq!(w.handle.attachments(), 0, "the cursor is dropped when its connection ends");
    w.say(&["two", "three"]);
    let (replay, _) = w.attach("root", 2, false).unwrap();
    assert_eq!(
        heard(&replay),
        vec![(0, "one".into()), (1, "two".into()), (2, "three".into())],
        "everything written across the detached window is there, exactly once"
    );
}

#[test]
fn a_withheld_payload_is_delivered_as_a_withholding_not_omitted_from_the_stream() {
    let payloads = [
        "{\"Raw\":\"one\"}",
        "{\"Withheld\":{\"key\":\"control_response\",\"bytes\":30000,\"reason\":\"§5.2\"}}",
        "{\"Oversized\":{\"was\":\"Vendor\",\"bytes\":1}}",
    ];
    let events: Vec<StreamEvent> = payloads
        .iter()
        .enumerate()
        .map(|(seq, p)| StreamEvent {
            agent_seq: seq as u64,
            ts: 10,
            provenance: "protocol".into(),
            src_seq: Some("7".into()),
            payload: Ok((*p).into()),
        })
        .collect();
    let out = deliver_events(&id("root"), &events);
    let seqs: Vec<u64> = out.iter().map(|e| e.agent_seq).collect();
    assert_eq!(seqs, vec![0, 1, 2], "no ordinal is skipped");
    assert!(out[1].payload.contains("Withheld"), "{}", out[1].payload);
    assert!(out[2].payload.contains("Oversized"), "{}", out[2].payload);
    assert_eq!(out[0].src_seq.as_deref(), Some("7"));
    assert_eq!(out[0].ts, 10);
    assert_eq!(out[0].provenance, "protocol");
}

#[test]
fn a_payload_that_cannot_be_encoded_says_so_in_the_stream() {
    let events = vec![StreamEvent {
        agent_seq: 0,
        ts: 1,
        provenance: "protocol".into(),
        src_seq: None,
        payload: Err("a \"key\" is\nnot a string".into()),
    }];
    let out = deliver_events(&id("root"), &events);
    assert_eq!(
        out[0].payload,
        "{\"marion_unencodable\":\"a \\\"key\\\" is\\nnot a string\"}",
        "the reason is quoted and escaped"
    );
    assert_eq!(unencodable_payload("\"x\""), "{\"marion_unencodable\":\"x\"}");
    let parsed: serde_json::Value = serde_json::from_str(&out[0].payload).expect("it is JSON");
    assert_eq!(parsed["marion_unencodable"], "a \"key\" is\nnot a string");
}
