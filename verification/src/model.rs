//! What the supervisor knows about nodes, clients and processes, as plain values.
use vstd::prelude::*;

verus! {

/// A node's id, as the journal and every client spell it.
#[derive(Debug)]
pub struct AgentId(pub String);

impl View for AgentId {
    type V = Seq<char>;

    open spec fn view(&self) -> Seq<char> {
        self.0@
    }
}

impl Clone for AgentId {
    fn clone(&self) -> (res: Self)
        ensures
            res == *self,
    {
        AgentId(self.0.clone())
    }
}

impl PartialEq for AgentId {
    fn eq(&self, other: &AgentId) -> (r: bool) {
        self.0 == other.0
    }
}

impl vstd::std_specs::cmp::PartialEqSpecImpl for AgentId {
    open spec fn obeys_eq_spec() -> bool {
        true
    }

    open spec fn eq_spec(&self, other: &AgentId) -> bool {
        self@ == other@
    }
}

/// The ids of a list, in order.
pub open spec fn id_texts(ids: Seq<AgentId>) -> Seq<Seq<char>> {
    ids.map_values(|id: AgentId| id@)
}

/// The contract a child runs under.
#[derive(Debug)]
pub struct TaskId(pub String);

impl View for TaskId {
    type V = Seq<char>;

    open spec fn view(&self) -> Seq<char> {
        self.0@
    }
}

impl Clone for TaskId {
    fn clone(&self) -> (res: Self)
        ensures
            res == *self,
    {
        TaskId(self.0.clone())
    }
}

impl PartialEq for TaskId {
    fn eq(&self, other: &TaskId) -> (r: bool) {
        self.0 == other.0
    }
}

impl vstd::std_specs::cmp::PartialEqSpecImpl for TaskId {
    open spec fn obeys_eq_spec() -> bool {
        true
    }

    open spec fn eq_spec(&self, other: &TaskId) -> bool {
        self@ == other@
    }
}

/// One client connection.
#[derive(Debug, Clone, Copy, PartialEq, Eq, Structural)]
pub struct ConnId(pub u64);

/// One pty host. Two hosts with one id are the same host.
#[derive(Debug, Clone, Copy, PartialEq, Eq, Structural)]
pub struct HostId(pub u64);

/// A harness, by the name it is displayed under.
#[derive(Debug)]
pub struct Harness(pub String);

impl View for Harness {
    type V = Seq<char>;

    open spec fn view(&self) -> Seq<char> {
        self.0@
    }
}

impl Clone for Harness {
    fn clone(&self) -> (res: Self)
        ensures
            res == *self,
    {
        Harness(self.0.clone())
    }
}

impl PartialEq for Harness {
    fn eq(&self, other: &Harness) -> (r: bool) {
        self.0 == other.0
    }
}

impl vstd::std_specs::cmp::PartialEqSpecImpl for Harness {
    open spec fn obeys_eq_spec() -> bool {
        true
    }

    open spec fn eq_spec(&self, other: &Harness) -> bool {
        self@ == other@
    }
}

/// Why a node is waiting for somebody else.
#[derive(Debug, Clone, Copy, PartialEq, Eq, Structural)]
pub enum BlockReason {
    Permission,
    Elicitation,
    Descendants,
}

/// How a finished node ended.
#[derive(Debug, Clone, Copy, PartialEq, Eq, Structural)]
pub enum ExitStatus {
    /// Cleanly, which is written `Ok`.
    Clean,
    Failed,
    Cancelled,
}

/// Where a node is in its life, as the journal has it.
#[derive(Debug, Clone, Copy, PartialEq, Eq, Structural)]
pub enum NodeState {
    Spawning,
    Running,
    Idle,
    Blocked(BlockReason),
    Exited(ExitStatus),
}

impl NodeState {
    /// Whether the node has ended.
    pub fn is_exited(&self) -> (r: bool)
        ensures
            r == (*self is Exited),
    {
        match self {
            NodeState::Exited(_) => true,
            _ => false,
        }
    }

    /// The state by its variant's name, as `Debug` writes it.
    pub open spec fn name(self) -> Seq<char> {
        match self {
            NodeState::Spawning => "Spawning"@,
            NodeState::Running => "Running"@,
            NodeState::Idle => "Idle"@,
            NodeState::Blocked(BlockReason::Permission) => "Blocked(Permission)"@,
            NodeState::Blocked(BlockReason::Elicitation) => "Blocked(Elicitation)"@,
            NodeState::Blocked(BlockReason::Descendants) => "Blocked(Descendants)"@,
            NodeState::Exited(ExitStatus::Clean) => "Exited(Ok)"@,
            NodeState::Exited(ExitStatus::Failed) => "Exited(Failed)"@,
            NodeState::Exited(ExitStatus::Cancelled) => "Exited(Cancelled)"@,
        }
    }

    /// [`Self::name`], as text.
    pub fn name_text(&self) -> (s: &'static str)
        ensures
            s@ == self.name(),
    {
        match self {
            NodeState::Spawning => "Spawning",
            NodeState::Running => "Running",
            NodeState::Idle => "Idle",
            NodeState::Blocked(BlockReason::Permission) => "Blocked(Permission)",
            NodeState::Blocked(BlockReason::Elicitation) => "Blocked(Elicitation)",
            NodeState::Blocked(BlockReason::Descendants) => "Blocked(Descendants)",
            NodeState::Exited(ExitStatus::Clean) => "Exited(Ok)",
            NodeState::Exited(ExitStatus::Failed) => "Exited(Failed)",
            NodeState::Exited(ExitStatus::Cancelled) => "Exited(Cancelled)",
        }
    }
}

/// Who holds a node's channel.
#[derive(Debug, Clone, Copy, PartialEq, Eq, Structural)]
pub enum ReapState {
    /// This supervisor does.
    Live,
    /// Nobody: the idle node was deliberately reaped, and can be brought back.
    ReapedIdle,
    /// Nobody: the record shows no decision about the node's fate.
    Orphaned,
}

/// The record that made a node.
#[derive(Debug, Clone)]
pub struct SpawnIntent {
    pub agent_id: AgentId,
    pub parent_id: Option<AgentId>,
    pub agent_type: String,
    pub harness: Harness,
    pub depth: u32,
    pub task_id: Option<TaskId>,
    pub timeout_secs: Option<u64>,
}

/// The directory a child ran in, and whether it was its own.
#[derive(Debug)]
pub enum Workspace {
    Worktree { path: String, branch: String },
    SharedCwd { path: String },
}

impl Workspace {
    /// The directory.
    pub open spec fn path_text(self) -> Seq<char> {
        match self {
            Workspace::Worktree { path, .. } => path@,
            Workspace::SharedCwd { path } => path@,
        }
    }

    /// [`Self::path_text`], as text.
    pub fn path(&self) -> (p: &str)
        ensures
            p@ == self.path_text(),
    {
        match self {
            Workspace::Worktree { path, .. } => path.as_str(),
            Workspace::SharedCwd { path } => path.as_str(),
        }
    }
}

impl Clone for Workspace {
    fn clone(&self) -> (res: Self)
        ensures
            res == *self,
    {
        match self {
            Workspace::Worktree { path, branch } => Workspace::Worktree {
                path: path.clone(),
                branch: branch.clone(),
            },
            Workspace::SharedCwd { path } => Workspace::SharedCwd { path: path.clone() },
        }
    }
}

/// Which workspace a child is given.
#[derive(Debug, Clone, Copy, PartialEq, Eq, Structural)]
pub enum Isolation {
    Worktree,
    SharedCwd,
}

/// A node, folded from every record the journal holds about it.
#[derive(Debug)]
pub struct ReplayedNode {
    pub agent_id: AgentId,
    /// `None` where the journal has records about the node and no identity for it.
    pub intent: Option<SpawnIntent>,
    pub harness_version: Option<String>,
    pub model: Option<String>,
    pub state: NodeState,
    pub reap_state: ReapState,
    /// When the journal first mentioned the node, in milliseconds since the epoch.
    pub first_ts: Option<u64>,
    /// When the node last changed state, in milliseconds since the epoch.
    pub state_ts: Option<u64>,
    /// A `SpawnAborted` is on the journal.
    pub spawn_aborted: bool,
    /// A `Spawned` is on the journal.
    pub spawn_confirmed: bool,
    pub pid: Option<i32>,
    /// A `ReapIntent` is on the journal that no `ReapConfirmed` has resolved.
    pub reap_intent: bool,
    pub harness_session: Option<String>,
    pub harness_pane: bool,
    pub launch_workspace: Option<Workspace>,
    /// How many times a process has been confirmed for the node.
    pub spawn_generation: u32,
}

impl ReplayedNode {
    /// The node's parent, where the journal names one.
    pub open spec fn parent(self) -> Option<Seq<char>> {
        match self.intent {
            Some(intent) => match intent.parent_id {
                Some(p) => Some(p@),
                None => None,
            },
            None => None,
        }
    }

    /// Whether the node's parent is `id`.
    pub fn has_parent(&self, id: &AgentId) -> (r: bool)
        ensures
            r == (self.parent() == Some(id@)),
    {
        match &self.intent {
            Some(intent) => match &intent.parent_id {
                Some(p) => *p == *id,
                None => false,
            },
            None => false,
        }
    }

    /// Whether the journal names no parent for the node.
    pub fn is_parentless(&self) -> (r: bool)
        ensures
            r == (self.parent() is None),
    {
        match &self.intent {
            Some(intent) => match &intent.parent_id {
                Some(_) => false,
                None => true,
            },
            None => true,
        }
    }

    /// Nobody holds the node's channel, or it has ended: its fate is decided.
    pub open spec fn decided(self) -> bool {
        self.reap_state != ReapState::Live || self.state is Exited
    }

    /// [`Self::decided`], as a test.
    pub fn is_decided(&self) -> (r: bool)
        ensures
            r == self.decided(),
    {
        match self.reap_state {
            ReapState::Live => self.state.is_exited(),
            _ => true,
        }
    }
}

/// How much of a file has been read.
#[derive(Debug, Clone, Copy, PartialEq, Eq, Structural)]
pub struct ReplayPoint {
    pub records: u64,
    pub src_seq: Option<u64>,
}

/// One agent type, as the tables define it.
#[derive(Debug)]
pub struct AgentType {
    pub name: String,
    pub harness: Harness,
    pub timeout_secs: u64,
    pub model: Option<String>,
    pub max_depth: u32,
    pub max_concurrent_children: u32,
}

impl Clone for AgentType {
    fn clone(&self) -> (res: Self)
        ensures
            res == *self,
    {
        AgentType {
            name: self.name.clone(),
            harness: self.harness.clone(),
            timeout_secs: self.timeout_secs,
            model: self.model.clone(),
            max_depth: self.max_depth,
            max_concurrent_children: self.max_concurrent_children,
        }
    }
}

/// A table of agent types. The first row of a name is the one that counts.
#[derive(Debug)]
pub struct AgentTypes {
    pub rows: Vec<AgentType>,
}

/// The first row of `rows` from `i` on that is named `name`.
pub open spec fn type_from(rows: Seq<AgentType>, name: Seq<char>, i: int) -> Option<AgentType>
    decreases rows.len() - i,
{
    if i < 0 || i >= rows.len() {
        None
    } else if rows[i].name@ == name {
        Some(rows[i])
    } else {
        type_from(rows, name, i + 1)
    }
}

impl AgentTypes {
    /// The type named `name`, if the table has one.
    pub open spec fn named(self, name: Seq<char>) -> Option<AgentType> {
        type_from(self.rows@, name, 0)
    }

    /// [`Self::named`], as a lookup.
    pub fn resolve(&self, name: &str) -> (r: Option<&AgentType>)
        ensures
            match r {
                Some(ty) => self.named(name@) == Some(*ty),
                None => self.named(name@) is None,
            },
    {
        let key = name.to_string();
        let mut i: usize = 0;
        while i < self.rows.len()
            invariant
                i <= self.rows.len(),
                key@ == name@,
                self.named(name@) == type_from(self.rows@, name@, i as int),
            decreases self.rows.len() - i,
        {
            if self.rows[i].name == key {
                return Some(&self.rows[i]);
            }
            i = i + 1;
        }
        None
    }
}

/// The registry as it stood at one moment: every node the journal records, and how far it was read.
#[derive(Debug)]
pub struct Registry {
    pub nodes: Vec<ReplayedNode>,
    pub read_point: ReplayPoint,
    /// Why the registry gave up following the journal, where it has.
    pub stopped: Option<String>,
    /// The journal file.
    pub path: String,
    /// The project's state directory, where the journal's place names one.
    pub project: Option<String>,
}

/// The first of `nodes` from `i` on that has the id `id`.
pub open spec fn node_from(nodes: Seq<ReplayedNode>, id: Seq<char>, i: int) -> Option<ReplayedNode>
    decreases nodes.len() - i,
{
    if i < 0 || i >= nodes.len() {
        None
    } else if nodes[i].agent_id@ == id {
        Some(nodes[i])
    } else {
        node_from(nodes, id, i + 1)
    }
}

impl Registry {
    /// The node with the id `id`, if the journal records one.
    pub open spec fn node(self, id: Seq<char>) -> Option<ReplayedNode> {
        node_from(self.nodes@, id, 0)
    }

    /// [`Self::node`], as a lookup.
    pub fn get(&self, id: &AgentId) -> (r: Option<&ReplayedNode>)
        ensures
            match r {
                Some(n) => self.node(id@) == Some(*n) && n.agent_id@ == id@,
                None => self.node(id@) is None,
            },
    {
        let mut i: usize = 0;
        while i < self.nodes.len()
            invariant
                i <= self.nodes.len(),
                self.node(id@) == node_from(self.nodes@, id@, i as int),
            decreases self.nodes.len() - i,
        {
            if self.nodes[i].agent_id == *id {
                return Some(&self.nodes[i]);
            }
            i = i + 1;
        }
        None
    }
}

/// Whether `id` is in `ids`.
pub fn holds_id(ids: &Vec<AgentId>, id: &AgentId) -> (r: bool)
    ensures
        r == id_texts(ids@).contains(id@),
{
    let mut i: usize = 0;
    while i < ids.len()
        invariant
            i <= ids.len(),
            forall|k: int| 0 <= k < i ==> (#[trigger] id_texts(ids@)[k]) != id@,
        decreases ids.len() - i,
    {
        if ids[i] == *id {
            assert(id_texts(ids@)[i as int] == id@);
            return true;
        }
        i = i + 1;
    }
    false
}

/// The contents of an optional text.
pub open spec fn opt_text(o: Option<String>) -> Option<Seq<char>> {
    match o {
        Some(s) => Some(s@),
        None => None,
    }
}

/// The node at `i` is the first that is recorded under `id`.
pub open spec fn is_first_of(nodes: Seq<ReplayedNode>, id: Seq<char>, i: int) -> bool {
    &&& 0 <= i < nodes.len()
    &&& nodes[i].agent_id@ == id
    &&& forall|j: int| 0 <= j < i ==> (#[trigger] nodes[j]).agent_id@ != id
}

/// The row at `i` is the first that is named `name`.
pub open spec fn is_first_named(rows: Seq<AgentType>, name: Seq<char>, i: int) -> bool {
    &&& 0 <= i < rows.len()
    &&& rows[i].name@ == name
    &&& forall|j: int| 0 <= j < i ==> (#[trigger] rows[j]).name@ != name
}

/// A node is found by its id: the first that the journal records under it, and none exactly where
/// the journal records none.
pub proof fn law_a_node_is_found_by_its_id(reg: Registry, id: Seq<char>)
    ensures
        forall|i: int| #[trigger]
            is_first_of(reg.nodes@, id, i) ==> reg.node(id) == Some(reg.nodes@[i]),
        reg.node(id) is Some ==> exists|i: int| #[trigger] is_first_of(reg.nodes@, id, i),
        reg.node(id) is None <==> forall|i: int|
            0 <= i < reg.nodes@.len() ==> (#[trigger] reg.nodes@[i]).agent_id@ != id,
{
    let nodes = reg.nodes@;
    let at = lemma_node_from(nodes, id, 0);
    if reg.node(id) is Some {
        assert(is_first_of(nodes, id, at));
        assert forall|i: int| #[trigger] is_first_of(nodes, id, i) implies i == at by {
            if i < at {
                assert(nodes[i].agent_id@ != id);
            } else if at < i {
                assert(nodes[at].agent_id@ != id);
            }
        }
    } else {
        assert forall|i: int| #[trigger] is_first_of(nodes, id, i) implies false by {
            assert(nodes[i].agent_id@ != id);
        }
    }
}

/// Where the search stops.
proof fn lemma_node_from(nodes: Seq<ReplayedNode>, id: Seq<char>, from: int) -> (at: int)
    requires
        0 <= from <= nodes.len(),
    ensures
        from <= at <= nodes.len(),
        forall|j: int| from <= j < at ==> (#[trigger] nodes[j]).agent_id@ != id,
        at < nodes.len() ==> nodes[at].agent_id@ == id,
        node_from(nodes, id, from) == (if at < nodes.len() {
            Some(nodes[at])
        } else {
            None
        }),
    decreases nodes.len() - from,
{
    if from == nodes.len() || nodes[from].agent_id@ == id {
        from
    } else {
        lemma_node_from(nodes, id, from + 1)
    }
}

/// A type is found by its name: the first row of that name, and none exactly where no row has it.
pub proof fn law_a_type_is_found_by_its_name(types: AgentTypes, name: Seq<char>)
    ensures
        forall|i: int| #[trigger]
            is_first_named(types.rows@, name, i) ==> types.named(name) == Some(types.rows@[i]),
        types.named(name) is Some ==> types.named(name)->0.name@ == name && exists|i: int| #[trigger]
            is_first_named(types.rows@, name, i),
        types.named(name) is None <==> forall|i: int|
            0 <= i < types.rows@.len() ==> (#[trigger] types.rows@[i]).name@ != name,
{
    let rows = types.rows@;
    let at = lemma_type_from(rows, name, 0);
    if types.named(name) is Some {
        assert(is_first_named(rows, name, at));
        assert forall|i: int| #[trigger] is_first_named(rows, name, i) implies i == at by {
            if i < at {
                assert(rows[i].name@ != name);
            } else if at < i {
                assert(rows[at].name@ != name);
            }
        }
    } else {
        assert forall|i: int| #[trigger] is_first_named(rows, name, i) implies false by {
            assert(rows[i].name@ != name);
        }
    }
}

/// Where the search stops.
proof fn lemma_type_from(rows: Seq<AgentType>, name: Seq<char>, from: int) -> (at: int)
    requires
        0 <= from <= rows.len(),
    ensures
        from <= at <= rows.len(),
        forall|j: int| from <= j < at ==> (#[trigger] rows[j]).name@ != name,
        at < rows.len() ==> rows[at].name@ == name,
        type_from(rows, name, from) == (if at < rows.len() {
            Some(rows[at])
        } else {
            None
        }),
    decreases rows.len() - from,
{
    if from == rows.len() || rows[from].name@ == name {
        from
    } else {
        lemma_type_from(rows, name, from + 1)
    }
}

/// A workspace is in its directory, whichever kind it is, and an optional text is there or not.
pub proof fn law_a_workspace_is_in_its_directory(w: Workspace, o: Option<String>)
    ensures
        w is Worktree ==> w.path_text() == w->Worktree_path@,
        w is SharedCwd ==> w.path_text() == w->SharedCwd_path@,
        o is Some ==> opt_text(o) == Some((o->0)@),
        o is None ==> opt_text(o) is None,
{
}

} // verus!
