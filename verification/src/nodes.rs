//! The nodes this supervisor owns: what it minted for each, the process each became, and how each
//! ended.
//!
//! An entry outlives its node's run. A node without an outcome is running, whatever the journal
//! says, so a run whose last record was lost still holds the supervisor.
use vstd::prelude::*;

use crate::model;
use crate::model::{AgentId, TaskId};
use crate::table;
use crate::table::Table;
use crate::text::{cat3, cat5};
use crate::token;
use crate::token::mint_token;

verus! {

/// What a node's run produced, in the vocabulary of the kind of node it was.
#[derive(Debug)]
pub enum NodeOutcome {
    /// A contract was written, or this is why none could be.
    Child(Result<(), String>),
    /// A root ran to a terminal reading, or this is why it did not.
    Root(Result<(), String>),
}

impl NodeOutcome {
    /// Why the run did not finish cleanly.
    pub open spec fn failure(self) -> Option<Seq<char>> {
        match self {
            NodeOutcome::Child(Err(why)) => Some(why@),
            NodeOutcome::Root(Err(why)) => Some(why@),
            _ => None,
        }
    }
}

/// One node this supervisor owns.
#[derive(Debug)]
pub struct NodeHandle {
    /// The contract the node runs under. A root has none.
    pub task_id: Option<TaskId>,
    /// The node's capability.
    pub token: String,
    /// The tree the node lives in, which its own children branch from.
    pub repo: String,
    /// `None` until the process exists.
    pub pid: Option<i32>,
    /// The process group, where it could be read.
    pub pgid: Option<i32>,
    /// When the process came into existence, in milliseconds since the epoch.
    pub started_at: Option<u64>,
    /// The thread that runs the node, until it is joined.
    pub join: Option<u64>,
    /// `None` while the node runs.
    pub outcome: Option<NodeOutcome>,
}

impl NodeHandle {
    /// The node is still running, as this table sees it.
    pub open spec fn is_running(self) -> bool {
        self.outcome is None
    }

    /// [`Self::is_running`], as a test.
    pub fn running(&self) -> (r: bool)
        ensures
            r == self.is_running(),
    {
        self.outcome.is_none()
    }
}

/// The nodes' entries.
pub type NodeRows = Seq<(Seq<char>, NodeHandle)>;

/// How many nodes are running.
pub open spec fn running_count(rows: NodeRows) -> nat
    decreases rows.len(),
{
    if rows.len() == 0 {
        0
    } else {
        running_count(rows.drop_last()) + (if rows.last().1.is_running() {
            1nat
        } else {
            0nat
        })
    }
}

/// No node is running exactly where every entry has an outcome.
pub proof fn lemma_running_count(rows: NodeRows)
    ensures
        running_count(rows) <= rows.len(),
        running_count(rows) == 0 <==> forall|i: int|
            0 <= i < rows.len() ==> !(#[trigger] rows[i]).1.is_running(),
    decreases rows.len(),
{
    if rows.len() > 0 {
        lemma_running_count(rows.drop_last());
        if running_count(rows) == 0 {
            assert forall|i: int| 0 <= i < rows.len() implies !(
            #[trigger] rows[i]).1.is_running() by {
                if i < rows.len() - 1 {
                    assert(rows.drop_last()[i] == rows[i]);
                }
            }
        } else if rows.last().1.is_running() {
            assert(rows[rows.len() - 1].1.is_running());
        } else {
            let i = choose|i: int|
                0 <= i < rows.drop_last().len() && (
                #[trigger] rows.drop_last()[i]).1.is_running();
            assert(rows[i].1.is_running());
        }
    }
}

/// The nodes this supervisor owns.
#[derive(Debug)]
pub struct Nodes {
    pub table: Table<NodeHandle>,
}

impl View for Nodes {
    type V = NodeRows;

    open spec fn view(&self) -> NodeRows {
        self.table@
    }
}

/// The entry of a node that has just been claimed.
pub open spec fn claimed(
    h: NodeHandle,
    task_id: Option<TaskId>,
    repo: String,
    token: Seq<char>,
) -> bool {
    &&& h.task_id == task_id
    &&& h.token@ == token
    &&& h.repo == repo
    &&& h.pid is None
    &&& h.pgid is None
    &&& h.started_at is None
    &&& h.join is None
    &&& h.outcome is None
}

impl Nodes {
    /// Each node has one entry.
    pub open spec fn wf(&self) -> bool {
        self.table.wf()
    }

    /// No nodes.
    pub fn new() -> (n: Self)
        ensures
            n.wf(),
            n@ == NodeRows::empty(),
    {
        Nodes { table: Table::new() }
    }

    /// Take ownership of a node the instant it has an identity, and mint it its capability. A node
    /// claimed again begins again: the old entry and its token are gone.
    pub fn claim(
        &mut self,
        agent_id: &AgentId,
        task_id: Option<TaskId>,
        repo: String,
        entropy: Option<[u8; 32]>,
    ) -> (t: String)
        requires
            old(self).wf(),
        ensures
            final(self).wf(),
            t@ == (match entropy {
                Some(bytes) => token::hex(bytes@),
                None => Seq::empty(),
            }),
            exists|h: NodeHandle|
                claimed(h, task_id, repo, t@) && #[trigger] table::put(old(self)@, agent_id@, h)
                    == final(self)@,
    {
        let t = mint_token(entropy);
        let h = NodeHandle {
            task_id,
            token: t.clone(),
            repo,
            pid: None,
            pgid: None,
            started_at: None,
            join: None,
            outcome: None,
        };
        let _ = self.table.insert(agent_id.clone(), h);
        assert(claimed(h, task_id, repo, t@));
        assert(table::put(old(self)@, agent_id@, h) == self@);
        t
    }

    /// A process exists for the node. `pgid` is what the system answered; only a positive answer is
    /// a group.
    pub fn mark_started(&mut self, agent_id: &AgentId, pid: i32, pgid: i32, now: u64)
        requires
            old(self).wf(),
        ensures
            final(self).wf(),
            final(self)@ == (match table::value(old(self)@, agent_id@) {
                Some(h) => table::put(
                    old(self)@,
                    agent_id@,
                    NodeHandle {
                        pid: Some(pid),
                        pgid: if pgid > 0 {
                            Some(pgid)
                        } else {
                            None
                        },
                        started_at: Some(now),
                        ..h
                    },
                ),
                None => old(self)@,
            }),
    {
        if let Some(node) = self.table.get_mut(agent_id) {
            node.pid = Some(pid);
            node.pgid = if pgid > 0 {
                Some(pgid)
            } else {
                None
            };
            node.started_at = Some(now);
        }
        proof {
            lemma_still_apart(old(self)@, agent_id@);
        }
    }

    /// The node's run has returned. The entry stays: it is what tells "finished" from "no such
    /// node".
    pub fn mark_finished(&mut self, agent_id: &AgentId, outcome: NodeOutcome)
        requires
            old(self).wf(),
        ensures
            final(self).wf(),
            final(self)@ == (match table::value(old(self)@, agent_id@) {
                Some(h) => table::put(
                    old(self)@,
                    agent_id@,
                    NodeHandle { outcome: Some(outcome), ..h },
                ),
                None => old(self)@,
            }),
    {
        if let Some(node) = self.table.get_mut(agent_id) {
            node.outcome = Some(outcome);
        }
        proof {
            lemma_still_apart(old(self)@, agent_id@);
        }
    }

    /// A native root has reached its end. It has no thread of its own, so its recorder says so.
    pub fn finished_native(&mut self, agent_id: &AgentId, outcome: Result<(), String>)
        requires
            old(self).wf(),
        ensures
            final(self).wf(),
            final(self)@ == (match table::value(old(self)@, agent_id@) {
                Some(h) => table::put(
                    old(self)@,
                    agent_id@,
                    NodeHandle { outcome: Some(NodeOutcome::Root(outcome)), ..h },
                ),
                None => old(self)@,
            }),
    {
        self.mark_finished(agent_id, NodeOutcome::Root(outcome));
    }

    /// Park the thread that runs a node under the node it has just identified.
    pub fn file_join(&mut self, agent_id: &AgentId, join: u64)
        requires
            old(self).wf(),
        ensures
            final(self).wf(),
            final(self)@ == (match table::value(old(self)@, agent_id@) {
                Some(h) => table::put(
                    old(self)@,
                    agent_id@,
                    NodeHandle { join: Some(join), ..h },
                ),
                None => old(self)@,
            }),
    {
        if let Some(node) = self.table.get_mut(agent_id) {
            node.join = Some(join);
        }
        proof {
            lemma_still_apart(old(self)@, agent_id@);
        }
    }

    /// Why a node this supervisor owns did not finish cleanly. A node that runs, one that finished
    /// cleanly and one it does not own have nothing to report.
    pub fn owned_failure(&self, agent_id: &AgentId) -> (r: Option<String>)
        requires
            self.wf(),
        ensures
            model::opt_text(r) == (match table::value(self@, agent_id@) {
                Some(h) => match h.outcome {
                    Some(outcome) => outcome.failure(),
                    None => None,
                },
                None => None,
            }),
    {
        match self.table.get(agent_id) {
            None => None,
            Some(h) => match &h.outcome {
                Some(NodeOutcome::Child(Err(why))) => Some(why.clone()),
                Some(NodeOutcome::Root(Err(why))) => Some(why.clone()),
                _ => None,
            },
        }
    }

    /// How many nodes this supervisor owns, finished or not.
    pub fn owned_nodes(&self) -> (n: usize)
        ensures
            n == self@.len(),
    {
        self.table.len()
    }

    /// How many of them are still running.
    pub fn running_nodes(&self) -> (n: usize)
        ensures
            n == running_count(self@),
    {
        let mut n: usize = 0;
        let mut i: usize = 0;
        assert(self@.take(0) =~= NodeRows::empty());
        while i < self.table.entries.len()
            invariant
                i <= self.table.entries.len(),
                self@.len() == self.table.entries@.len(),
                n <= i,
                n == running_count(self@.take(i as int)),
            decreases self.table.entries.len() - i,
        {
            proof {
                assert(self@.take(i + 1).drop_last() =~= self@.take(i as int));
                assert(self@.take(i + 1).last().1 == self.table.entries@[i as int].1);
            }
            if self.table.entries[i].1.running() {
                n = n + 1;
            }
            i = i + 1;
        }
        assert(self@.take(i as int) =~= self@);
        n
    }

    /// The process of a node this supervisor owns, once there is one.
    pub fn owned_pid(&self, agent_id: &AgentId) -> (r: Option<i32>)
        requires
            self.wf(),
        ensures
            r == (match table::value(self@, agent_id@) {
                Some(h) => h.pid,
                None => None,
            }),
    {
        match self.table.get(agent_id) {
            Some(h) => h.pid,
            None => None,
        }
    }

    /// Whether a node is still running. `None` where this supervisor owns no such node.
    pub fn owned_running(&self, agent_id: &AgentId) -> (r: Option<bool>)
        requires
            self.wf(),
        ensures
            r == (match table::value(self@, agent_id@) {
                Some(h) => Some(h.is_running()),
                None => None,
            }),
    {
        match self.table.get(agent_id) {
            Some(h) => Some(h.running()),
            None => None,
        }
    }

    /// The process group of a node this supervisor owns, where it could be read.
    pub fn owned_pgid(&self, agent_id: &AgentId) -> (r: Option<i32>)
        requires
            self.wf(),
        ensures
            r == (match table::value(self@, agent_id@) {
                Some(h) => h.pgid,
                None => None,
            }),
    {
        match self.table.get(agent_id) {
            Some(h) => h.pgid,
            None => None,
        }
    }

    /// The contract a node runs under. A root has none, and neither has a node this supervisor does
    /// not own.
    pub fn owned_task_id(&self, agent_id: &AgentId) -> (r: Option<TaskId>)
        requires
            self.wf(),
        ensures
            r == (match table::value(self@, agent_id@) {
                Some(h) => h.task_id,
                None => None,
            }),
    {
        match self.table.get(agent_id) {
            Some(h) => h.task_id.clone(),
            None => None,
        }
    }

    /// When a node's process came into existence.
    pub fn owned_started_at(&self, agent_id: &AgentId) -> (r: Option<u64>)
        requires
            self.wf(),
        ensures
            r == (match table::value(self@, agent_id@) {
                Some(h) => h.started_at,
                None => None,
            }),
    {
        match self.table.get(agent_id) {
            Some(h) => h.started_at,
            None => None,
        }
    }

    /// Take every finished node's thread out, to be joined. The threads come in the entries' order;
    /// a running node keeps its own.
    pub fn join_finished_nodes(&mut self) -> (joins: Vec<u64>)
        requires
            old(self).wf(),
        ensures
            final(self).wf(),
            joins@ == finished_joins(old(self)@),
            final(self)@ == joined(old(self)@),
    {
        let ghost rows = self@;
        let mut joins: Vec<u64> = Vec::new();
        let mut i: usize = 0;
        assert(rows.take(0) =~= NodeRows::empty());
        assert(joins@ =~= finished_joins(rows.take(0)));
        while i < self.table.entries.len()
            invariant
                i <= self.table.entries.len(),
                rows == old(self)@,
                self@.len() == rows.len(),
                self@.len() == self.table.entries@.len(),
                joins@ == finished_joins(rows.take(i as int)),
                forall|k: int| 0 <= k < i ==> #[trigger] self@[k] == joined(rows)[k],
                forall|k: int| i <= k < rows.len() ==> #[trigger] self@[k] == rows[k],
            decreases self.table.entries.len() - i,
        {
            proof {
                assert(rows.take(i + 1).drop_last() =~= rows.take(i as int));
                assert(rows.take(i + 1).last() == rows[i as int]);
                assert(self@[i as int] == rows[i as int]);
                assert(self@[i as int].1 == self.table.entries@[i as int].1);
            }
            let ghost before = self@;
            if !self.table.entries[i].1.running() {
                let join: Option<u64> = self.table.entries[i].1.join;
                if let Some(j) = join {
                    joins.push(j);
                }
                self.table.entries[i].1.join = None;
                assert forall|k: int| 0 <= k < rows.len() && k != i implies #[trigger] self@[k]
                    == before[k] by {}
            }
            assert(self@[i as int] == joined(rows)[i as int]);
            i = i + 1;
        }
        proof {
            assert(rows.take(i as int) =~= rows);
            assert(self@ =~= joined(rows));
            assert forall|a: int, b: int| 0 <= a < b < self@.len() implies (
            #[trigger] self@[a]).0 != (#[trigger] self@[b]).0 by {
                assert(rows[a].0 != rows[b].0);
            }
        }
        joins
    }
}

/// The threads of the nodes that have finished.
pub open spec fn finished_joins(rows: NodeRows) -> Seq<u64>
    decreases rows.len(),
{
    if rows.len() == 0 {
        Seq::empty()
    } else {
        let rest = finished_joins(rows.drop_last());
        let h = rows.last().1;
        if !h.is_running() && h.join is Some {
            rest.push(h.join->0)
        } else {
            rest
        }
    }
}

/// The entries once the finished nodes' threads have been taken out.
pub open spec fn joined(rows: NodeRows) -> NodeRows {
    rows.map_values(
        |r: (Seq<char>, NodeHandle)|
            if r.1.is_running() {
                r
            } else {
                (r.0, NodeHandle { join: None, ..r.1 })
            },
    )
}

/// Changing what one node holds keeps the nodes apart.
proof fn lemma_still_apart(rows: NodeRows, id: Seq<char>)
    requires
        table::distinct(rows),
    ensures
        forall|h: NodeHandle| table::distinct(#[trigger] table::put(rows, id, h)),
{
    assert forall|h: NodeHandle| table::distinct(#[trigger] table::put(rows, id, h)) by {
        table::lemma_put(rows, id, h);
    }
}

/// What a thread left behind when it panicked.
#[derive(Debug)]
pub enum PanicPayload {
    /// A literal sentence.
    Literal(String),
    /// A sentence that was put together.
    Text(String),
    /// Something that cannot be printed.
    Opaque,
}

/// Said of a payload that cannot be printed.
pub const UNPRINTABLE: &'static str = "a panic payload of an unprintable type";

impl PanicPayload {
    /// What the panic said.
    pub open spec fn said(self) -> Seq<char> {
        match self {
            PanicPayload::Literal(t) => t@,
            PanicPayload::Text(t) => t@,
            PanicPayload::Opaque => UNPRINTABLE@,
        }
    }
}

/// The best sentence available for a panic.
pub fn panic_text(payload: &PanicPayload) -> (s: String)
    ensures
        s@ == payload.said(),
{
    match payload {
        PanicPayload::Literal(t) => t.clone(),
        PanicPayload::Text(t) => t.clone(),
        PanicPayload::Opaque => UNPRINTABLE.to_string(),
    }
}

/// Said on the supervisor's own error stream of a node thread that panicked, around the node's type
/// and what the panic said.
pub const THREAD_PANICKED: (&'static str, &'static str, &'static str) = (
    "marion-supervisor: the thread running the ",
    " node panicked, which is a defect in marion: ",
    ". The node is resolved as a failed run so this supervisor can still exit (§5.7); its journal \
    records end with the abort the unwind wrote.",
);

/// What a node's run came to: its own result, or, where its thread panicked, `panicked` and a notice
/// to print.
pub fn caught(
    what: &str,
    ran: Result<Result<(), String>, PanicPayload>,
    panicked: String,
) -> (r: (Result<(), String>, Option<String>))
    ensures
        match ran {
            Ok(outcome) => r.0 == outcome && r.1 is None,
            Err(payload) => {
                &&& r.0 == Err::<(), String>(panicked)
                &&& r.1 matches Some(notice)
                &&& notice@ == THREAD_PANICKED.0@ + what@ + THREAD_PANICKED.1@ + payload.said()
                    + THREAD_PANICKED.2@
            },
        },
{
    match ran {
        Ok(outcome) => (outcome, None),
        Err(payload) => {
            let said = panic_text(&payload);
            let notice = cat5(
                THREAD_PANICKED.0,
                what,
                THREAD_PANICKED.1,
                said.as_str(),
                THREAD_PANICKED.2,
            );
            (Err(panicked), Some(notice))
        },
    }
}

/// Said of a root whose thread panicked, around its type.
pub const ROOT_PANICKED: (&'static str, &'static str) = (
    "marion's own thread running the ",
    " root panicked, so there is no reading of what the root did. This is a defect in marion, not in \
    the request; the root's process may have been left running, and the journal resolves the node \
    with whatever the unwind wrote rather than with a record of what it did.",
);

/// A root's panic, as the sentence its outcome carries.
pub fn root_panicked(agent_type: &str) -> (s: String)
    ensures
        s@ == ROOT_PANICKED.0@ + agent_type@ + ROOT_PANICKED.1@,
{
    cat3(ROOT_PANICKED.0, agent_type, ROOT_PANICKED.1)
}

/// A node that was claimed is counted as running until an outcome is filed for it, clean or not, and
/// no longer; the threads that come out to be joined are those of the nodes that have one, each once
/// and in order, and a running node keeps its thread.
pub proof fn law_a_node_runs_until_its_outcome_is_filed(
    rows: NodeRows,
    id: Seq<char>,
    h: NodeHandle,
    i: int,
)
    requires
        0 <= i < rows.len(),
    ensures
        running_count(Seq::empty()) == 0,
        running_count(rows.push((id, h))) == running_count(rows) + (if h.outcome is None {
            1nat
        } else {
            0nat
        }),
        finished_joins(Seq::empty()) == Seq::<u64>::empty(),
        finished_joins(rows.push((id, h))) == (if h.outcome is Some && h.join is Some {
            finished_joins(rows).push(h.join->0)
        } else {
            finished_joins(rows)
        }),
        joined(rows).len() == rows.len(),
        joined(rows)[i].0 == rows[i].0,
        joined(rows)[i].1 == (NodeHandle {
            join: if rows[i].1.outcome is Some {
                None
            } else {
                rows[i].1.join
            },
            ..rows[i].1
        }),
{
    assert(rows.push((id, h)).drop_last() =~= rows);
}

/// What was claimed is the node's own: its task, its token and its tree, with no process, no time,
/// no thread and no outcome yet.
pub proof fn law_a_claim_begins_with_nothing(
    h: NodeHandle,
    task_id: Option<TaskId>,
    repo: String,
    token: Seq<char>,
)
    ensures
        claimed(h, task_id, repo, token) <==> {
            &&& h.task_id == task_id
            &&& h.token@ == token
            &&& h.repo == repo
            &&& h.pid is None && h.pgid is None && h.started_at is None
            &&& h.join is None && h.outcome is None
        },
{
}

/// A panic is told in its own words wherever it had any, and a run failed exactly where its result
/// says so, for the reason it gives.
pub proof fn law_a_failure_is_told_in_its_own_words(p: PanicPayload, o: NodeOutcome)
    ensures
        p is Literal ==> p.said() == (p->Literal_0)@,
        p is Text ==> p.said() == (p->Text_0)@,
        o is Child ==> (o.failure() is Some <==> o->Child_0 is Err),
        o is Root ==> (o.failure() is Some <==> o->Root_0 is Err),
        o is Child && o->Child_0 is Err ==> o.failure() == Some((o->Child_0)->Err_0@),
        o is Root && o->Root_0 is Err ==> o.failure() == Some((o->Root_0)->Err_0@),
{
}

} // verus!
