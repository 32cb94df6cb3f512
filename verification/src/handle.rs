//! The supervisor's own bookkeeping: who is connected, which nodes it owns, which panes it holds,
//! and whether it may leave.
//!
//! Nothing here is keyed by the connection that asked for a node, so a connection that goes takes
//! nothing with it but what it followed and what it was typing into.
use vstd::prelude::*;

use crate::cache::{PaneEntry, MAX_COMPLETED};
use crate::display::{Attached, HostFacts, PaneReady, PaneReplayReservationError};
use crate::error;
use crate::error::{ErrorText, FailureKind, RpcError};
use crate::launch;
use crate::model;
use crate::model::{AgentId, AgentTypes, ConnId, HostId, Registry, TaskId};
use crate::nodes;
use crate::nodes::{NodeHandle, NodeOutcome, NodeRows, Nodes};
use crate::panes;
use crate::panes::{PaneEffects, Panes, PanesModel};
use crate::project;
use crate::project::NodeSummary;
use crate::quit;
use crate::quit::{
    detach_all, kill_tree, reap_idle_detach_busy, reaped_outcome, QuitDisposition, QuitOutcome, Reaping,
};
use crate::quit_laws;
use crate::residency;
use crate::residency::ResidentReason;
use crate::spawn::Env;
use crate::sweep;
use crate::sweep::{journal_failure_after_signal, Sweep};
use crate::table;
use crate::text::cat3;
use crate::token;
use crate::tree;
use crate::tree::{Event, Shared, SharedModel, TreeSubscribeResult};

verus! {

/// The supervisor's bookkeeping, as contracts speak of it.
#[verifier::ext_equal]
pub struct HandleModel {
    pub shared: SharedModel,
    pub nodes: NodeRows,
    pub panes: PanesModel,
    /// A quit was answered, so an exit need not wait.
    pub waived: bool,
    /// It has been said that the registry stopped.
    pub reported: bool,
    /// An exit that was allowed is being journaled.
    pub leaving: bool,
    pub exiting: bool,
}

/// The supervisor's bookkeeping.
#[derive(Debug)]
pub struct RegistryHandle {
    pub shared: Shared,
    pub nodes: Nodes,
    pub panes: Panes,
    /// The agent types this build has.
    pub builtins: AgentTypes,
    /// What a node is run in; `None` where this handle describes nodes and owns none.
    pub spawn_env: Option<Env>,
    pub quit_waived_grace: bool,
    pub stopped_reported: bool,
    /// An exit that was allowed is being journaled.
    pub leaving: bool,
    pub exiting: bool,
}

impl View for RegistryHandle {
    type V = HandleModel;

    open spec fn view(&self) -> HandleModel {
        HandleModel {
            shared: self.shared@,
            nodes: self.nodes@,
            panes: self.panes@,
            waived: self.quit_waived_grace,
            reported: self.stopped_reported,
            leaving: self.leaving,
            exiting: self.exiting,
        }
    }
}

/// The nodes whose pane is live, in the panes' order.
pub open spec fn live_ids(rows: Seq<(Seq<char>, PaneEntry)>) -> Seq<Seq<char>>
    decreases rows.len(),
{
    if rows.len() == 0 {
        Seq::empty()
    } else {
        let rest = live_ids(rows.drop_last());
        if rows.last().1 is Live {
            rest.push(rows.last().0)
        } else {
            rest
        }
    }
}

/// What a quit comes to before anything is written or signalled.
#[derive(Debug)]
pub enum QuitPlan {
    /// These nodes are to be ended.
    Kill(Sweep),
    /// Nothing is to be done: this is the answer.
    Detach(QuitOutcome),
    /// These nodes are to be reaped.
    Reap(Reaping),
}

/// Said once, where the registry stopped following the journal, around the reason.
pub const STOPPED: (&'static str, &'static str) = (
    "marion-supervisor: this project's journal stopped being followable and this supervisor is \
    answering §5.7 from the tree as it stood before that point: ",
    ". It will not exit while that reading holds (§7.4, §11 item 29).",
);

/// The methods this supervisor answers.
#[derive(Debug, Clone, Copy, PartialEq, Eq, Structural)]
pub enum Served {
    NodeGet,
    TreeSubscribe,
    NodeAttach,
    AgentSpawn,
    SessionQuit,
    NodeResume,
}

/// The method of a name, where this supervisor answers it.
pub open spec fn served(method: Seq<char>) -> Option<Served> {
    if method == "node/get"@ {
        Some(Served::NodeGet)
    } else if method == "tree/subscribe"@ {
        Some(Served::TreeSubscribe)
    } else if method == "node/attach"@ {
        Some(Served::NodeAttach)
    } else if method == "agent/spawn"@ {
        Some(Served::AgentSpawn)
    } else if method == "session/quit"@ {
        Some(Served::SessionQuit)
    } else if method == "node/resume"@ {
        Some(Served::NodeResume)
    } else {
        None
    }
}

/// Said of a method that is not built, around its name.
pub const NOT_BUILT: (&'static str, &'static str) = (
    "`",
    "` is specified (§2) and not built. This supervisor answers `node/get`, `tree/subscribe`, \
    `node/attach`, `agent/spawn`, `session/quit` and `node/resume`; the remaining methods land with \
    the milestone that needs them.",
);

/// A method that is specified and not built.
pub open spec fn not_built(method: Seq<char>) -> ErrorText {
    error::error_text(
        FailureKind::Unimplemented,
        method,
        NOT_BUILT.0@ + method + NOT_BUILT.1@,
        "§2"@,
    )
}

/// Which of the answered methods a call is; every other one is specified and not built.
pub fn call(method: &str) -> (r: Result<Served, RpcError>)
    ensures
        match served(method@) {
            Some(s) => r == Ok::<Served, RpcError>(s),
            None => r matches Err(e) && e@ == not_built(method@),
        },
{
    let m = method.to_string();
    if m == "node/get".to_string() {
        Ok(Served::NodeGet)
    } else if m == "tree/subscribe".to_string() {
        Ok(Served::TreeSubscribe)
    } else if m == "node/attach".to_string() {
        Ok(Served::NodeAttach)
    } else if m == "agent/spawn".to_string() {
        Ok(Served::AgentSpawn)
    } else if m == "session/quit".to_string() {
        Ok(Served::SessionQuit)
    } else if m == "node/resume".to_string() {
        Ok(Served::NodeResume)
    } else {
        Err(RpcError::unimplemented(method, cat3(NOT_BUILT.0, method, NOT_BUILT.1), "§2"))
    }
}

impl RegistryHandle {
    /// Each part is well formed.
    pub open spec fn wf(&self) -> bool {
        &&& self.shared.wf()
        &&& self.nodes.wf()
        &&& self.panes.wf()
    }

    /// What a handle is made with stays what it is.
    pub open spec fn same_build(&self, other: &RegistryHandle) -> bool {
        &&& self.builtins == other.builtins
        &&& self.spawn_env == other.spawn_env
    }

    /// Nothing has happened yet.
    pub open spec fn is_fresh(&self) -> bool {
        &&& self@.shared.subs == Seq::<ConnId>::empty()
        &&& self@.shared.attached == Seq::<tree::Following>::empty()
        &&& self@.shared.clients == Set::<ConnId>::empty()
        &&& self@.shared.told == Seq::<(Seq<char>, tree::Told)>::empty()
        &&& self@.shared.unprojectable == 0
        &&& self@.nodes == NodeRows::empty()
        &&& self@.panes.hosts == Seq::<(Seq<char>, PaneEntry)>::empty()
        &&& self@.panes.leases == Seq::<panes::LeaseRow>::empty()
        &&& self@.panes.native is None
        &&& self@.panes.generations == Seq::<(Seq<char>, u64)>::empty()
        &&& self@.panes.next_generation == 0
        &&& self@.panes.next_order == 0
        &&& self@.panes.limit == MAX_COMPLETED
        &&& !self@.waived
        &&& !self@.reported
        &&& !self@.leaving
        &&& !self@.exiting
    }

    /// A handle that describes nodes and owns none.
    pub fn new(builtins: AgentTypes) -> (h: Self)
        ensures
            h.wf(),
            h.is_fresh(),
            h.builtins == builtins,
            h.spawn_env is None,
    {
        Self::build(builtins, None)
    }

    /// A handle that owns the nodes it spawns.
    pub fn owning(builtins: AgentTypes, env: Env) -> (h: Self)
        ensures
            h.wf(),
            h.is_fresh(),
            h.builtins == builtins,
            h.spawn_env == Some(env),
    {
        Self::build(builtins, Some(env))
    }

    fn build(builtins: AgentTypes, spawn_env: Option<Env>) -> (h: Self)
        ensures
            h.wf(),
            h.is_fresh(),
            h.builtins == builtins,
            h.spawn_env == spawn_env,
    {
        RegistryHandle {
            shared: Shared::new(),
            nodes: Nodes::new(),
            panes: Panes::new(),
            builtins,
            spawn_env,
            quit_waived_grace: false,
            stopped_reported: false,
            leaving: false,
            exiting: false,
        }
    }

    /// How many nodes the last snapshot could not describe.
    pub fn unprojectable(&self) -> (n: usize)
        ensures
            n == self@.shared.unprojectable,
    {
        self.shared.unprojectable
    }

    /// How many connections follow the tree.
    pub fn subscribers(&self) -> (n: usize)
        ensures
            n == self@.shared.subs.len(),
    {
        self.shared.subs.len()
    }

    /// How many node streams are followed on behalf of a client.
    pub fn attachments(&self) -> (n: usize)
        ensures
            n == self@.shared.attached.len(),
    {
        self.shared.attached.len()
    }

    /// How many nodes this supervisor holds a pty for.
    pub fn panes(&self) -> (n: usize)
        ensures
            n == self@.panes.hosts.len(),
    {
        self.panes.len()
    }

    /// The nodes whose pane is live.
    pub fn pane_ids(&self) -> (ids: Vec<AgentId>)
        ensures
            model::id_texts(ids@) == live_ids(self@.panes.hosts),
    {
        let ghost rows = self@.panes.hosts;
        let mut ids: Vec<AgentId> = Vec::new();
        let mut i: usize = 0;
        assert(rows.take(0) =~= Seq::<(Seq<char>, PaneEntry)>::empty());
        assert(model::id_texts(ids@) =~= live_ids(rows.take(0)));
        while i < self.panes.hosts.entries.len()
            invariant
                i <= self.panes.hosts.entries.len(),
                rows == self@.panes.hosts,
                rows.len() == self.panes.hosts.entries@.len(),
                model::id_texts(ids@) == live_ids(rows.take(i as int)),
            decreases self.panes.hosts.entries.len() - i,
        {
            proof {
                assert(rows.take(i + 1).drop_last() =~= rows.take(i as int));
                assert(rows.take(i + 1).last().1 == self.panes.hosts.entries@[i as int].1);
                assert(rows.take(i + 1).last().0 == self.panes.hosts.entries@[i as int].0@);
            }
            if self.panes.hosts.entries[i].1.is_live() {
                let ghost had = model::id_texts(ids@);
                ids.push(self.panes.hosts.entries[i].0.clone());
                assert(model::id_texts(ids@) =~= had.push(rows[i as int].0));
            }
            i = i + 1;
        }
        assert(rows.take(i as int) =~= rows);
        ids
    }

    /// One node, described, with whether its pane is live.
    pub fn node_get(&self, reg: &Registry, id: &AgentId) -> (r: Result<NodeSummary, RpcError>)
        requires
            self.wf(),
        ensures
            match reg.node(id@) {
                None => r matches Err(e) && e@ == project::no_such_node(
                    id@,
                    reg.read_point.records,
                ),
                Some(node) => match project::projection(
                    node,
                    self.builtins,
                    self@.panes.entry(id@) matches Some(PaneEntry::Live(_)),
                ) {
                    Ok(s) => r matches Ok(got) && got@ == s,
                    Err(m) => r matches Err(e) && e@ == project::missing_error(m, id@),
                },
            },
    {
        let pane = self.panes.has_live(id);
        project::node_get(reg, id, &self.builtins, pane)
    }

    /// Everything that changed since the last flush, for every subscriber. How many changes there
    /// were says nothing about how many were delivered.
    pub fn flush(&mut self, reg: &Registry) -> (events: Vec<Event>)
        requires
            old(self).wf(),
        ensures
            final(self).wf(),
            final(self).same_build(old(self)),
            tree::news_of(events@) == tree::news(
                reg.nodes@,
                old(self)@.shared.told,
                old(self).builtins,
                live_ids(old(self)@.panes.hosts),
            ),
            final(self)@ == (HandleModel {
                shared: SharedModel {
                    told: tree::told_after(reg.nodes@, old(self)@.shared.told),
                    ..old(self)@.shared
                },
                ..old(self)@
            }),
    {
        let ids = self.pane_ids();
        self.shared.flush(reg, &self.builtins, &ids)
    }

    /// Drop the subscribers that did not take what was sent.
    pub fn deliver(&mut self, events: &Vec<Event>, took: &Vec<bool>)
        requires
            old(self).wf(),
            took@.len() == old(self)@.shared.subs.len(),
        ensures
            final(self).wf(),
            final(self).same_build(old(self)),
            final(self)@ == (HandleModel {
                shared: SharedModel {
                    subs: if events@.len() == 0 {
                        old(self)@.shared.subs
                    } else {
                        tree::still_there(old(self)@.shared.subs, took@)
                    },
                    ..old(self)@.shared
                },
                ..old(self)@
            }),
    {
        self.shared.deliver(events, took);
    }

    /// Begin following the tree: what the others are told first, and this one's snapshot.
    pub fn subscribe(&mut self, reg: &Registry) -> (r: (Vec<Event>, TreeSubscribeResult))
        requires
            old(self).wf(),
        ensures
            final(self).wf(),
            final(self).same_build(old(self)),
            tree::news_of(r.0@) == tree::news(
                reg.nodes@,
                old(self)@.shared.told,
                old(self).builtins,
                live_ids(old(self)@.panes.hosts),
            ),
            tree::summaries_of(r.1.nodes@) == tree::snapshot(
                reg.nodes@,
                old(self).builtins,
                live_ids(old(self)@.panes.hosts),
            ),
            r.1.read_point == reg.read_point,
            final(self)@ == (HandleModel {
                shared: SharedModel {
                    told: tree::told_after(reg.nodes@, old(self)@.shared.told),
                    unprojectable: tree::indescribable(reg.nodes@, old(self).builtins),
                    ..old(self)@.shared
                },
                ..old(self)@
            }),
    {
        let ids = self.pane_ids();
        self.shared.subscribe(reg, &self.builtins, &ids)
    }

    /// Count the new subscriber in, once the others have been told.
    pub fn subscribed(&mut self, conn: ConnId)
        requires
            old(self).wf(),
        ensures
            final(self).wf(),
            final(self).same_build(old(self)),
            final(self)@ == (HandleModel {
                shared: SharedModel {
                    subs: old(self)@.shared.subs.push(conn),
                    ..old(self)@.shared
                },
                ..old(self)@
            }),
    {
        self.shared.subscribed(conn);
    }

    /// Advance every followed stream; see [`Shared::pump_attached`].
    pub fn pump_attached(&mut self, polled: &Vec<(usize, bool)>) -> (read: usize)
        requires
            old(self).wf(),
            polled@.len() == old(self)@.shared.attached.len(),
            tree::events_read(polled@) <= usize::MAX,
        ensures
            final(self).wf(),
            final(self).same_build(old(self)),
            read == tree::events_read(polled@),
            final(self)@ == (HandleModel {
                shared: SharedModel {
                    attached: tree::still_followed(old(self)@.shared.attached, polled@),
                    ..old(self)@.shared
                },
                ..old(self)@
            }),
    {
        self.shared.pump_attached(polled)
    }

    /// Let go of the completed panes that `now` and the caps do not leave. The answer is the hosts
    /// to retire.
    pub fn prune_completed_panes(&mut self, now: u64) -> (retired: Vec<HostId>)
        requires
            old(self).wf(),
        ensures
            final(self).wf(),
            final(self).same_build(old(self)),
            final(self)@ == (HandleModel { panes: old(self)@.panes.pruned(now), ..old(self)@ }),
            retired@ == old(self)@.panes.pruned_hosts(now),
    {
        self.panes.take_completed_victims(now)
    }

    /// Hold a node's pty. Where another host is replaced, the new one is published by
    /// [`Self::publish_pane`] once the old one has let go. The first answer is the hosts to retire
    /// before that.
    pub fn register_pane(&mut self, id: &AgentId, host: HostId, now: u64) -> (r: (
        Vec<HostId>,
        PaneEffects,
    ))
        requires
            old(self).wf(),
        ensures
            final(self).wf(),
            final(self).same_build(old(self)),
            r.0@ == old(self)@.panes.pruned_hosts(now),
            final(self)@ == (HandleModel {
                panes: old(self)@.panes.pruned(now).registered(id@, host),
                ..old(self)@
            }),
            r.1@ == old(self)@.panes.pruned(now).registering(id@, host),
    {
        let retired = self.panes.take_completed_victims(now);
        let effects = self.panes.register_pane(id, host);
        (retired, effects)
    }

    /// The live half of an attach. The first answer is the hosts to retire, which go before the node
    /// is looked at; `facts` are the live host's.
    pub fn attach_pane(&mut self, id: &AgentId, conn: ConnId, facts: HostFacts, now: u64) -> (r: (
        Vec<HostId>,
        Option<Attached>,
    ))
        requires
            old(self).wf(),
        ensures
            final(self).wf(),
            final(self).same_build(old(self)),
            r.0@ == old(self)@.panes.pruned_hosts(now),
            old(self)@.panes.pruned(now).attaches(id@, conn, facts, final(self)@.panes, r.1),
            final(self)@ == (HandleModel { panes: final(self)@.panes, ..old(self)@ }),
    {
        self.panes.attach_pane(id, conn, facts, now)
    }

    /// The exact half of an attach. The first answer is the hosts to retire, which go before the
    /// node is looked at; `facts` and `reservation` are those of the host that is left for it.
    pub fn attach_pane_v1(
        &mut self,
        id: &AgentId,
        conn: ConnId,
        facts: HostFacts,
        reservation: Result<PaneReady, PaneReplayReservationError>,
        now: u64,
    ) -> (r: (Vec<HostId>, Result<Option<Attached>, RpcError>))
        requires
            old(self).wf(),
        ensures
            final(self).wf(),
            final(self).same_build(old(self)),
            r.0@ == old(self)@.panes.pruned_hosts(now),
            old(self)@.panes.pruned(now).attaches_v1(
                id@,
                conn,
                facts,
                reservation,
                final(self)@.panes,
                r.1,
            ),
            final(self)@ == (HandleModel { panes: final(self)@.panes, ..old(self)@ }),
    {
        self.panes.attach_pane_v1(id, conn, facts, reservation, now)
    }

    /// Publish a replacement whose predecessor has let go.
    pub fn publish_pane(&mut self, id: &AgentId, host: HostId) -> (e: PaneEffects)
        requires
            old(self).wf(),
        ensures
            final(self).wf(),
            final(self).same_build(old(self)),
            final(self)@ == (HandleModel {
                panes: old(self)@.panes.published(id@, host),
                ..old(self)@
            }),
            e@ == old(self)@.panes.publishing(id@, host),
    {
        self.panes.publish_pane(id, host)
    }

    /// The node's process has ended and its output is being drained.
    pub fn closing_pane(&mut self, id: &AgentId, host: HostId) -> (e: PaneEffects)
        requires
            old(self).wf(),
        ensures
            final(self).wf(),
            final(self).same_build(old(self)),
            final(self)@ == (HandleModel {
                panes: old(self)@.panes.closing(id@, host),
                ..old(self)@
            }),
            e@ == old(self)@.panes.sealing(id@, host),
    {
        self.panes.closing_pane(id, host)
    }

    /// The node's pane is drained: keep it to be replayed, where the cache admits it.
    pub fn completed_pane(
        &mut self,
        id: &AgentId,
        host: HostId,
        charged_bytes: usize,
        now: u64,
    ) -> (e: PaneEffects)
        requires
            old(self).wf(),
        ensures
            final(self).wf(),
            final(self).same_build(old(self)),
            final(self)@ == (HandleModel {
                panes: old(self)@.panes.completed(id@, host, charged_bytes, now),
                ..old(self)@
            }),
            e@ == old(self)@.panes.completing(id@, host, charged_bytes, now),
    {
        self.panes.completed_pane(id, host, charged_bytes, now)
    }

    /// The node's host failed.
    pub fn failed_pane(&mut self, id: &AgentId, host: HostId) -> (e: PaneEffects)
        requires
            old(self).wf(),
        ensures
            final(self).wf(),
            final(self).same_build(old(self)),
            final(self)@ == (HandleModel {
                panes: old(self)@.panes.failed(id@, host),
                ..old(self)@
            }),
            e@ == old(self)@.panes.failing(id@, host),
    {
        self.panes.failed_pane(id, host)
    }

    /// Forget a node's pty.
    pub fn forget_pane(&mut self, id: &AgentId) -> (e: PaneEffects)
        requires
            old(self).wf(),
        ensures
            final(self).wf(),
            final(self).same_build(old(self)),
            final(self)@ == (HandleModel {
                panes: old(self)@.panes.forgotten(id@),
                ..old(self)@
            }),
            e@ == old(self)@.panes.forgetting(id@),
    {
        self.panes.forget_pane(id)
    }

    /// Take ownership of a node the instant it has an identity; see [`Nodes::claim`].
    pub fn claim(
        &mut self,
        agent_id: &AgentId,
        task_id: Option<TaskId>,
        repo: String,
        entropy: Option<[u8; 32]>,
    ) -> (t: String)
        requires
            old(self).wf(),
        ensures
            final(self).wf(),
            final(self).same_build(old(self)),
            t@ == (match entropy {
                Some(bytes) => token::hex(bytes@),
                None => Seq::empty(),
            }),
            exists|h: NodeHandle|
                nodes::claimed(h, task_id, repo, t@) && #[trigger] table::put(
                    old(self)@.nodes,
                    agent_id@,
                    h,
                ) == final(self)@.nodes,
            final(self)@ == (HandleModel { nodes: final(self)@.nodes, ..old(self)@ }),
    {
        let t = self.nodes.claim(agent_id, task_id, repo, entropy);
        proof {
            let h = choose|h: NodeHandle|
                nodes::claimed(h, task_id, repo, t@) && #[trigger] table::put(
                    old(self)@.nodes,
                    agent_id@,
                    h,
                ) == self@.nodes;
            assert(nodes::claimed(h, task_id, repo, t@));
        }
        t
    }

    /// A launch has given its node an identity: the node is claimed, and its token is handed over
    /// where there is one. A node without a token is one whose bridge can never spawn.
    pub fn identified(
        &mut self,
        agent_id: &AgentId,
        task_id: Option<TaskId>,
        repo: String,
        entropy: Option<[u8; 32]>,
    ) -> (t: Option<String>)
        requires
            old(self).wf(),
        ensures
            final(self).wf(),
            final(self).same_build(old(self)),
            match entropy {
                Some(bytes) => t matches Some(token) && token@ == token::hex(bytes@),
                None => t is None,
            },
            exists|h: NodeHandle|
                nodes::claimed(
                    h,
                    task_id,
                    repo,
                    match t {
                        Some(token) => token@,
                        None => Seq::empty(),
                    },
                ) && #[trigger] table::put(old(self)@.nodes, agent_id@, h) == final(self)@.nodes,
            final(self)@ == (HandleModel { nodes: final(self)@.nodes, ..old(self)@ }),
    {
        let t = self.claim(agent_id, task_id, repo, entropy);
        proof {
            let h = choose|h: NodeHandle|
                nodes::claimed(h, task_id, repo, t@) && #[trigger] table::put(
                    old(self)@.nodes,
                    agent_id@,
                    h,
                ) == self@.nodes;
            assert(nodes::claimed(h, task_id, repo, t@));
            if let Some(bytes) = entropy {
                token::lemma_hex_len(bytes@);
            }
        }
        if t.as_str().is_empty() {
            assert(t@ == Seq::<char>::empty());
            None
        } else {
            Some(t)
        }
    }

    /// A native root has reached its end.
    pub fn finished_native(&mut self, agent_id: &AgentId, outcome: Result<(), String>)
        requires
            old(self).wf(),
        ensures
            final(self).wf(),
            final(self).same_build(old(self)),
            final(self)@ == (HandleModel {
                nodes: match table::value(old(self)@.nodes, agent_id@) {
                    Some(h) => table::put(
                        old(self)@.nodes,
                        agent_id@,
                        NodeHandle { outcome: Some(NodeOutcome::Root(outcome)), ..h },
                    ),
                    None => old(self)@.nodes,
                },
                ..old(self)@
            }),
    {
        self.nodes.finished_native(agent_id, outcome);
    }

    /// Why a node this supervisor owns did not finish cleanly.
    pub fn owned_failure(&self, agent_id: &AgentId) -> (r: Option<String>)
        requires
            self.wf(),
        ensures
            model::opt_text(r) == launch::filed_reason(self@.nodes, agent_id@),
    {
        self.nodes.owned_failure(agent_id)
    }

    /// How many nodes this supervisor owns, finished or not.
    pub fn owned_nodes(&self) -> (n: usize)
        ensures
            n == self@.nodes.len(),
    {
        self.nodes.owned_nodes()
    }

    /// How many of them are still running.
    pub fn running_nodes(&self) -> (n: usize)
        ensures
            n == nodes::running_count(self@.nodes),
    {
        self.nodes.running_nodes()
    }

    /// The process of a node this supervisor owns, once there is one.
    pub fn owned_pid(&self, agent_id: &AgentId) -> (r: Option<i32>)
        requires
            self.wf(),
        ensures
            r == (match table::value(self@.nodes, agent_id@) {
                Some(h) => h.pid,
                None => None,
            }),
    {
        self.nodes.owned_pid(agent_id)
    }

    /// Whether a node is still running. `None` where this supervisor owns no such node.
    pub fn owned_running(&self, agent_id: &AgentId) -> (r: Option<bool>)
        requires
            self.wf(),
        ensures
            r == (match table::value(self@.nodes, agent_id@) {
                Some(h) => Some(h.is_running()),
                None => None,
            }),
    {
        self.nodes.owned_running(agent_id)
    }

    /// The process group of a node this supervisor owns, where it could be read.
    pub fn owned_pgid(&self, agent_id: &AgentId) -> (r: Option<i32>)
        requires
            self.wf(),
        ensures
            r == (match table::value(self@.nodes, agent_id@) {
                Some(h) => h.pgid,
                None => None,
            }),
    {
        self.nodes.owned_pgid(agent_id)
    }

    /// The contract a node runs under.
    pub fn owned_task_id(&self, agent_id: &AgentId) -> (r: Option<TaskId>)
        requires
            self.wf(),
        ensures
            r == (match table::value(self@.nodes, agent_id@) {
                Some(h) => h.task_id,
                None => None,
            }),
    {
        self.nodes.owned_task_id(agent_id)
    }

    /// When a node's process came into existence.
    pub fn owned_started_at(&self, agent_id: &AgentId) -> (r: Option<u64>)
        requires
            self.wf(),
        ensures
            r == (match table::value(self@.nodes, agent_id@) {
                Some(h) => h.started_at,
                None => None,
            }),
    {
        self.nodes.owned_started_at(agent_id)
    }

    /// Decide a quit, before anything is written or signalled. A quit that leaves everything
    /// running is answered at once, and what holds the supervisor is said as [`Self::residency`]
    /// says it.
    pub fn session_quit(&mut self, d: &QuitDisposition, reg: &Registry) -> (r: (
        Result<QuitPlan, RpcError>,
        Option<String>,
    ))
        requires
            old(self).wf(),
        ensures
            final(self).wf(),
            final(self).same_build(old(self)),
            match *d {
                QuitDisposition::KillTree { confirmed } => {
                    &&& final(self)@ == old(self)@
                    &&& r.1 is None
                    &&& match quit::kill_refusal(reg.nodes@, model::id_texts(confirmed@)) {
                        Some(t) => r.0 matches Err(e) && e@ == t,
                        None => {
                            &&& r.0 matches Ok(QuitPlan::Kill(s))
                            &&& s.wf()
                            &&& s@ == sweep::started(quit::kill_aims(reg.nodes@))
                        },
                    }
                },
                QuitDisposition::DetachAll => {
                    &&& final(self)@ == old(self)@.told_of_stop(*reg)
                    &&& model::opt_text(r.1) == old(self)@.stop_notice(*reg)
                    &&& r.0 matches Ok(QuitPlan::Detach(o))
                    &&& quit::is_detached(o, *reg)
                },
                QuitDisposition::ReapIdleDetachBusy => {
                    &&& final(self)@ == old(self)@
                    &&& r.1 is None
                    &&& match quit::reap_refusal(reg.nodes@) {
                        Some(t) => r.0 matches Err(e) && e@ == t,
                        None => {
                            &&& r.0 matches Ok(QuitPlan::Reap(plan))
                            &&& quit::is_reaping(plan, reg.nodes@)
                        },
                    }
                },
            },
    {
        match d {
            QuitDisposition::KillTree { confirmed } => match kill_tree(&reg.nodes, confirmed) {
                Ok(s) => (Ok(QuitPlan::Kill(s)), None),
                Err(e) => (Err(e), None),
            },
            QuitDisposition::DetachAll => {
                let (_, notice) = self.residency(reg);
                (Ok(QuitPlan::Detach(detach_all(reg))), notice)
            },
            QuitDisposition::ReapIdleDetachBusy => match reap_idle_detach_busy(&reg.nodes) {
                Ok(plan) => (Ok(QuitPlan::Reap(plan)), None),
                Err(e) => (Err(e), None),
            },
        }
    }

    /// Answer a reap that is finished, from the registry once it has seen the reaped nodes'
    /// records.
    pub fn reaped(&mut self, reaping: Reaping, reg: &Registry) -> (r: (QuitOutcome, Option<String>))
        requires
            old(self).wf(),
            reaping.sweep.wf(),
            reaping.sweep@.step() is None,
        ensures
            final(self).wf(),
            final(self).same_build(old(self)),
            final(self)@ == old(self)@.told_of_stop(*reg),
            model::opt_text(r.1) == old(self)@.stop_notice(*reg),
            quit::is_reaped(r.0, reaping, *reg),
    {
        let (_, notice) = self.residency(reg);
        (reaped_outcome(reaping, reg), notice)
    }

    /// Take what a quit was answered. One that was answered lets the exit happen without waiting,
    /// whatever it was told; one that was refused changes nothing.
    pub fn quit_answered(&mut self, answered: &Result<QuitOutcome, RpcError>)
        requires
            old(self).wf(),
        ensures
            final(self).wf(),
            final(self).same_build(old(self)),
            final(self)@ == (HandleModel {
                waived: old(self)@.waived || *answered is Ok,
                ..old(self)@
            }),
    {
        if answered.is_ok() {
            self.quit_waived_grace = true;
        }
    }

    /// What holds the supervisor, and what is to be said where that is a registry that stopped: it
    /// is said once.
    pub fn residency(&mut self, reg: &Registry) -> (r: (Option<ResidentReason>, Option<String>))
        requires
            old(self).wf(),
        ensures
            final(self).wf(),
            final(self).same_build(old(self)),
            r.0 == residency::residency_of(*reg),
            model::opt_text(r.1) == old(self)@.stop_notice(*reg),
            final(self)@ == old(self)@.told_of_stop(*reg),
    {
        let mut notice: Option<String> = None;
        if let Some(why) = &reg.stopped {
            if !self.stopped_reported {
                notice = Some(cat3(STOPPED.0, why.as_str(), STOPPED.1));
            }
            self.stopped_reported = true;
        }
        (residency::residency(reg), notice)
    }

    /// A connection is there.
    pub fn connected(&mut self, conn: ConnId)
        requires
            old(self).wf(),
        ensures
            final(self).wf(),
            final(self).same_build(old(self)),
            final(self)@ == (HandleModel {
                shared: SharedModel {
                    clients: old(self)@.shared.clients.insert(conn),
                    ..old(self)@.shared
                },
                ..old(self)@
            }),
    {
        self.shared.connected(conn);
    }

    /// A connection is gone: with it goes what it followed and what it was typing into. The answer
    /// is the writer slots that are free again. Every host stops sending to the connection.
    pub fn gone(&mut self, conn: ConnId) -> (released: Vec<(ConnId, HostId)>)
        requires
            old(self).wf(),
        ensures
            final(self).wf(),
            final(self).same_build(old(self)),
            final(self)@ == old(self)@.departed(conn),
            released@ == panes::lease_holders(
                panes::leases_of(old(self)@.panes.leases, Some(conn), None),
            ),
    {
        self.shared.gone(conn);
        self.panes.gone(conn)
    }

    /// The heartbeat: completed panes are let go of, then everybody is told what the journal said.
    /// What the nodes said follows, by [`Self::pump_attached`].
    pub fn tick(&mut self, reg: &Registry, now: u64) -> (r: (Vec<HostId>, Vec<Event>))
        requires
            old(self).wf(),
        ensures
            final(self).wf(),
            final(self).same_build(old(self)),
            r.0@ == old(self)@.panes.pruned_hosts(now),
            tree::news_of(r.1@) == tree::news(
                reg.nodes@,
                old(self)@.shared.told,
                old(self).builtins,
                live_ids(old(self)@.panes.pruned(now).hosts),
            ),
            final(self)@ == (HandleModel {
                shared: SharedModel {
                    told: tree::told_after(reg.nodes@, old(self)@.shared.told),
                    ..old(self)@.shared
                },
                panes: old(self)@.panes.pruned(now),
                ..old(self)@
            }),
    {
        let retired = self.prune_completed_panes(now);
        let events = self.flush(reg);
        (retired, events)
    }

    /// Whether the supervisor is leaving.
    pub fn exiting(&self) -> (r: bool)
        ensures
            r == self@.exiting,
    {
        self.exiting
    }

    /// Whether an exit need not wait.
    pub fn idle_exit_grace_waived(&self) -> (r: bool)
        ensures
            r == self@.waived,
    {
        self.quit_waived_grace
    }

    /// Whether the supervisor may leave: nobody is connected, no node it owns is running, and
    /// nothing the journal records holds it. The second guard is not the first one again: a run
    /// whose last record was lost is running whatever the journal says.
    pub fn idle_exit_eligible(&mut self, reg: &Registry) -> (r: (bool, Option<String>))
        requires
            old(self).wf(),
        ensures
            final(self).wf(),
            final(self).same_build(old(self)),
            r.0 == old(self)@.may_leave(*reg),
            final(self)@ == old(self)@.asked_to_leave(*reg),
            model::opt_text(r.1) == old(self)@.said_when_asked(*reg),
    {
        if self.shared.has_clients() {
            return (false, None);
        }
        if self.running_nodes() > 0 {
            return (false, None);
        }
        let (held, notice) = self.residency(reg);
        (held.is_none(), notice)
    }

    /// Begin to leave, where that is allowed: the threads of the finished nodes come out to be
    /// joined, and the exit is to be journaled next.
    pub fn begin_idle_exit(&mut self, reg: &Registry) -> (r: (Option<Vec<u64>>, Option<String>))
        requires
            old(self).wf(),
        ensures
            final(self).wf(),
            final(self).same_build(old(self)),
            match r.0 {
                Some(joins) => {
                    &&& old(self)@.may_leave(*reg)
                    &&& joins@ == nodes::finished_joins(old(self)@.nodes)
                    &&& final(self)@ == (HandleModel {
                        nodes: nodes::joined(old(self)@.nodes),
                        leaving: true,
                        ..old(self)@.asked_to_leave(*reg)
                    })
                },
                None => {
                    &&& !old(self)@.may_leave(*reg)
                    &&& final(self)@ == (HandleModel {
                        leaving: false,
                        ..old(self)@.asked_to_leave(*reg)
                    })
                },
            },
            model::opt_text(r.1) == old(self)@.said_when_asked(*reg),
    {
        let (may, notice) = self.idle_exit_eligible(reg);
        self.leaving = may;
        if !may {
            return (None, notice);
        }
        let joins = self.nodes.join_finished_nodes();
        (Some(joins), notice)
    }

    /// Take whether the exit that [`Self::begin_idle_exit`] allowed was journaled: the supervisor
    /// leaves only where it was.
    pub fn idle_exit_journaled(&mut self, journaled: Result<(), String>) -> (r: Result<(), RpcError>)
        requires
            old(self).wf(),
            old(self)@.leaving,
        ensures
            final(self).wf(),
            final(self).same_build(old(self)),
            match journaled {
                Ok(_) => r is Ok && final(self)@ == (HandleModel {
                    leaving: false,
                    exiting: true,
                    ..old(self)@
                }),
                Err(why) => {
                    &&& r matches Err(e)
                    &&& e@ == sweep::after_signal(why@)
                    &&& final(self)@ == (HandleModel { leaving: false, ..old(self)@ })
                },
            },
    {
        self.leaving = false;
        match journaled {
            Ok(_) => {
                self.exiting = true;
                Ok(())
            },
            Err(why) => Err(journal_failure_after_signal(why.as_str())),
        }
    }
}

impl HandleModel {
    /// `conn` has departed: what it followed and what it was typing into is gone, and nothing else.
    pub open spec fn departed(self, conn: ConnId) -> HandleModel {
        HandleModel {
            shared: self.shared.departed(conn),
            panes: self.panes.departed(conn),
            ..self
        }
    }

    /// Nobody is connected and no owned node is running, so the journal is asked.
    pub open spec fn quiet(self) -> bool {
        &&& self.shared.clients == Set::<ConnId>::empty()
        &&& nodes::running_count(self.nodes) == 0
    }

    /// The supervisor may leave.
    pub open spec fn may_leave(self, reg: Registry) -> bool {
        self.quiet() && residency::residency_of(reg) is None
    }

    /// A registry that stopped has been reported.
    pub open spec fn told_of_stop(self, reg: Registry) -> HandleModel {
        HandleModel { reported: self.reported || reg.stopped is Some, ..self }
    }

    /// What is said of a registry that stopped, the first time.
    pub open spec fn stop_notice(self, reg: Registry) -> Option<Seq<char>> {
        match reg.stopped {
            Some(why) if !self.reported => Some(STOPPED.0@ + why@ + STOPPED.1@),
            _ => None,
        }
    }

    /// It was asked whether the supervisor may leave; the journal is asked last.
    pub open spec fn asked_to_leave(self, reg: Registry) -> HandleModel {
        if self.quiet() {
            self.told_of_stop(reg)
        } else {
            self
        }
    }

    /// What is said when that is asked.
    pub open spec fn said_when_asked(self, reg: Registry) -> Option<Seq<char>> {
        if self.quiet() {
            self.stop_notice(reg)
        } else {
            None
        }
    }
}

/// A connection that goes changes no node, no pane, nothing that has been told and nothing about the
/// exit; it leaves no lease, no subscription and no followed stream behind, and those of every other
/// connection stay.
pub proof fn law_a_departure_touches_no_node(h: HandleModel, conn: ConnId)
    ensures
        h.departed(conn).nodes == h.nodes,
        h.departed(conn).panes.hosts == h.panes.hosts,
        h.departed(conn).panes.generations == h.panes.generations,
        h.departed(conn).shared.told == h.shared.told,
        h.departed(conn).waived == h.waived,
        h.departed(conn).leaving == h.leaving,
        h.departed(conn).exiting == h.exiting,
        !h.departed(conn).shared.clients.contains(conn),
        forall|id: Seq<char>| !panes::has_lease(h.departed(conn).panes.leases, conn, id),
        forall|other: ConnId, id: Seq<char>|
            other != conn ==> panes::has_lease(h.departed(conn).panes.leases, other, id)
                == #[trigger] panes::has_lease(h.panes.leases, other, id),
        !h.departed(conn).shared.subs.contains(conn),
        forall|i: int|
            0 <= i < h.departed(conn).shared.attached.len() ==> (
            #[trigger] h.departed(conn).shared.attached[i]).conn != conn,
{
    broadcast use vstd::seq_lib::group_filter_ensures;

    assert forall|c: ConnId, id: Seq<char>| panes::has_lease(
        h.departed(conn).panes.leases,
        c,
        id,
    ) == (#[trigger] panes::has_lease(h.panes.leases, c, id) && c != conn) by {
        panes::lemma_lease_kept(h.panes.leases, Some(conn), None, c, id);
    }
    assert forall|id: Seq<char>| !panes::has_lease(h.departed(conn).panes.leases, conn, id) by {
        panes::lemma_lease_kept(h.panes.leases, Some(conn), None, conn, id);
    }
    let subs = tree::others(h.shared.subs, conn);
    assert(!subs.contains(conn));
    let attached = tree::others_following(h.shared.attached, conn);
    assert forall|i: int| 0 <= i < attached.len() implies (#[trigger] attached[i]).conn != conn by {
    }
}

/// The supervisor never leaves over a node that has not ended and was not given up, nor over one it
/// is still running, nor while anybody is connected, nor from a registry that stopped.
pub proof fn law_leaving_strands_nothing(h: HandleModel, reg: Registry)
    requires
        h.may_leave(reg),
    ensures
        h.shared.clients == Set::<ConnId>::empty(),
        reg.stopped is None,
        forall|i: int|
            0 <= i < h.nodes.len() ==> !(#[trigger] h.nodes[i]).1.is_running(),
        forall|i: int| 0 <= i < reg.nodes@.len() ==> !(#[trigger] reg.nodes@[i]).holds(),
{
    nodes::lemma_running_count(h.nodes);
    residency::law_nothing_holds_exactly_when_every_node_has_ended(reg);
}

/// The supervisor may leave exactly where nobody is connected, every node it owns has an outcome,
/// its registry follows the journal, and every recorded node has ended or was given up before there
/// was a process.
pub proof fn law_the_supervisor_may_leave_exactly_where_nobody_needs_it(
    h: HandleModel,
    reg: Registry,
)
    ensures
        h.may_leave(reg) <==> {
            &&& h.shared.clients == Set::<ConnId>::empty()
            &&& forall|i: int| 0 <= i < h.nodes.len() ==> (#[trigger] h.nodes[i]).1.outcome is Some
            &&& reg.stopped is None
            &&& forall|i: int|
                0 <= i < reg.nodes@.len() ==> {
                    ||| (#[trigger] reg.nodes@[i]).state is Exited
                    ||| reg.nodes@[i].spawn_aborted && !reg.nodes@[i].spawn_confirmed
                        && reg.nodes@[i].pid is None && !reg.nodes@[i].reap_intent
                }
        },
{
    nodes::lemma_running_count(h.nodes);
    quit_laws::law_the_supervisor_leaves_over_nobody(reg);
    if nodes::running_count(h.nodes) == 0 {
        assert forall|i: int| 0 <= i < h.nodes.len() implies (
        #[trigger] h.nodes[i]).1.outcome is Some by {
            assert(!h.nodes[i].1.is_running());
        }
    } else if forall|i: int| 0 <= i < h.nodes.len() ==> (#[trigger] h.nodes[i]).1.outcome is Some {
        assert forall|i: int| 0 <= i < h.nodes.len() implies !(
        #[trigger] h.nodes[i]).1.is_running() by {}
    }
}

/// A node shows a live pane exactly where its pane is live.
pub proof fn law_a_live_pane_is_shown(rows: Seq<(Seq<char>, PaneEntry)>)
    ensures
        live_ids(rows) == rows.filter(|r: (Seq<char>, PaneEntry)| r.1 is Live).map_values(
            |r: (Seq<char>, PaneEntry)| r.0,
        ),
    decreases rows.len(),
{
    let p = |r: (Seq<char>, PaneEntry)| r.1 is Live;
    let f = |r: (Seq<char>, PaneEntry)| r.0;
    if rows.len() == 0 {
        reveal(Seq::filter);
        assert(live_ids(rows) =~= rows.filter(p).map_values(f));
    } else {
        law_a_live_pane_is_shown(rows.drop_last());
        quit_laws::lemma_filter_push(rows.drop_last(), rows.last(), p);
        assert(rows.drop_last().push(rows.last()) =~= rows);
        assert(live_ids(rows) =~= rows.filter(p).map_values(f));
    }
}

/// A registry that stopped is told of the first time anybody asks, and no more after that; one that
/// follows is never told of.
pub proof fn law_a_stopped_registry_is_told_of_once(h: HandleModel, reg: Registry)
    ensures
        h.stop_notice(reg) is Some <==> reg.stopped is Some && !h.reported,
        h.told_of_stop(reg).reported <==> h.reported || reg.stopped is Some,
        h.told_of_stop(reg).stop_notice(reg) is None,
        h.told_of_stop(reg).nodes == h.nodes && h.told_of_stop(reg).shared == h.shared
            && h.told_of_stop(reg).panes == h.panes && h.told_of_stop(reg).exiting == h.exiting
            && h.told_of_stop(reg).waived == h.waived,
{
}

/// Six methods are answered, each by its own name and no other; every other is refused as not built,
/// by the name it was asked under.
pub proof fn law_each_method_is_answered_by_its_name(method: Seq<char>)
    ensures
        served(method) == Some(Served::NodeGet) <==> method == "node/get"@,
        served(method) == Some(Served::TreeSubscribe) <==> method == "tree/subscribe"@,
        served(method) == Some(Served::NodeAttach) <==> method == "node/attach"@,
        served(method) == Some(Served::AgentSpawn) <==> method == "agent/spawn"@,
        served(method) == Some(Served::SessionQuit) <==> method == "session/quit"@,
        served(method) == Some(Served::NodeResume) <==> method == "node/resume"@,
        not_built(method).kind == FailureKind::Unimplemented,
        not_built(method).subject == Some(method),
{
    reveal_strlit("node/get");
    reveal_strlit("tree/subscribe");
    reveal_strlit("node/attach");
    reveal_strlit("agent/spawn");
    reveal_strlit("session/quit");
    reveal_strlit("node/resume");
    assert("node/attach"@[5] != "node/resume"@[5]);
    assert("node/attach"@[0] != "agent/spawn"@[0]);
    assert("node/resume"@[0] != "agent/spawn"@[0]);
}

/// A handle that was just made knows of nobody and of nothing: no connection, no node, no pane and
/// nobody who types; it has told nothing and is not leaving.
pub proof fn law_a_new_handle_knows_nothing(h: RegistryHandle, reg: Registry, id: Seq<char>)
    requires
        h.is_fresh(),
    ensures
        h@.panes.entry(id) is None,
        h@.panes.leases.len() == 0,
        h@.panes.native is None,
        h@.nodes.len() == 0,
        h@.shared.clients == Set::<ConnId>::empty(),
        h@.shared.subs.len() == 0,
        h@.shared.attached.len() == 0,
        h@.shared.told.len() == 0,
        h@.shared.unprojectable == 0,
        reg.stopped is Some ==> h@.stop_notice(reg) is Some,
        !h@.leaving && !h@.exiting && !h@.waived,
        h@.panes.limit == MAX_COMPLETED,
{
}

/// Whether the supervisor may leave is asked of the journal only where nobody is connected and no
/// owned node runs; then a registry that stopped is told of, and otherwise nothing changes.
pub proof fn law_asking_to_leave_tells_of_a_stopped_registry(h: HandleModel, reg: Registry)
    ensures
        ({
            let idle = h.shared.clients == Set::<ConnId>::empty() && (forall|i: int|
                0 <= i < h.nodes.len() ==> (#[trigger] h.nodes[i]).1.outcome is Some);
            &&& idle ==> h.asked_to_leave(reg) == h.told_of_stop(reg) && h.said_when_asked(reg)
                == h.stop_notice(reg)
            &&& !idle ==> h.asked_to_leave(reg) == h && h.said_when_asked(reg) is None
            &&& h.said_when_asked(reg) is Some ==> reg.stopped is Some && !h.reported
                && h.asked_to_leave(reg).reported
        }),
{
    nodes::lemma_running_count(h.nodes);
    if nodes::running_count(h.nodes) == 0 {
        assert forall|i: int| 0 <= i < h.nodes.len() implies (
        #[trigger] h.nodes[i]).1.outcome is Some by {
            assert(!h.nodes[i].1.is_running());
        }
    } else if forall|i: int| 0 <= i < h.nodes.len() ==> (#[trigger] h.nodes[i]).1.outcome is Some {
        assert forall|i: int| 0 <= i < h.nodes.len() implies !(
        #[trigger] h.nodes[i]).1.is_running() by {}
    }
}

/// Two handles of one build have the same types and the same environment.
pub proof fn law_a_build_is_its_types_and_its_environment(a: RegistryHandle, b: RegistryHandle)
    ensures
        a.same_build(&b) ==> a.builtins == b.builtins && a.spawn_env == b.spawn_env,
{
}

} // verus!
