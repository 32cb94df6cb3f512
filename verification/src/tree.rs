//! The tree as clients follow it: a snapshot, and what changes after it.
//!
//! Everybody is told the same things in the same order, so one record of what has been told is
//! enough: the snapshot a subscriber gets and the point its notifications begin at come from one
//! reading of the registry.
use vstd::prelude::*;

use crate::model;
use crate::model::{
    holds_id, AgentId, AgentTypes, ConnId, NodeState, ReapState, Registry, ReplayPoint,
    ReplayedNode,
};
use crate::project;
use crate::project::{NodeSummary, summarize, SummaryText};
use crate::quit_laws;
use crate::table;
use crate::table::Table;

verus! {

/// What the subscribers have been told about one node.
#[derive(Debug, Clone, Copy, PartialEq, Eq, Structural)]
pub struct Told {
    pub state: NodeState,
    pub reap_state: ReapState,
}

/// One change to the tree.
#[derive(Debug)]
pub enum Event {
    NodeAdded { node: NodeSummary, ts: u64 },
    NodeState { agent_id: AgentId, state: NodeState, reap_state: ReapState, ts: u64 },
}

/// One change to the tree, as contracts speak of it.
pub enum News {
    Added { node: SummaryText, ts: u64 },
    State { agent: Seq<char>, state: NodeState, reap_state: ReapState, ts: u64 },
}

impl View for Event {
    type V = News;

    open spec fn view(&self) -> News {
        match *self {
            Event::NodeAdded { node, ts } => News::Added { node: node@, ts },
            Event::NodeState { agent_id, state, reap_state, ts } => News::State {
                agent: agent_id@,
                state,
                reap_state,
                ts,
            },
        }
    }
}

/// The changes of a list, in order.
pub open spec fn news_of(events: Seq<Event>) -> Seq<News> {
    events.map_values(|e: Event| e@)
}

/// The summaries of a list, in order.
pub open spec fn summaries_of(nodes: Seq<NodeSummary>) -> Seq<SummaryText> {
    nodes.map_values(|s: NodeSummary| s@)
}

/// What there is to tell about a node.
pub open spec fn standing(n: ReplayedNode) -> Told {
    Told { state: n.state, reap_state: n.reap_state }
}

/// The journal's own time for a transition, and the epoch where it recorded none: a time that is
/// visibly wrong rather than one that is wrong and plausible.
pub open spec fn journal_time(ts: Option<u64>) -> u64 {
    match ts {
        Some(t) => t,
        None => 0,
    }
}

/// [`journal_time`], as a value.
fn journal_ts(ts: Option<u64>) -> (t: u64)
    ensures
        t == journal_time(ts),
{
    match ts {
        Some(t) => t,
        None => 0,
    }
}

/// What has been told once every node of `nodes` has been.
pub open spec fn told_after(nodes: Seq<ReplayedNode>, told: Seq<(Seq<char>, Told)>) -> Seq<
    (Seq<char>, Told),
>
    decreases nodes.len(),
{
    if nodes.len() == 0 {
        told
    } else {
        table::put(
            told_after(nodes.drop_last(), told),
            nodes.last().agent_id@,
            standing(nodes.last()),
        )
    }
}

/// What one node is news for, given what has been told about it: its addition where nothing has and
/// it can be described, its state where that has changed.
pub open spec fn node_news(
    n: ReplayedNode,
    before: Option<Told>,
    builtins: AgentTypes,
    panes: Seq<Seq<char>>,
) -> Seq<News> {
    match before {
        None => match project::projection(n, builtins, panes.contains(n.agent_id@)) {
            Ok(node) => seq![News::Added { node, ts: journal_time(n.first_ts) }],
            Err(_) => Seq::empty(),
        },
        Some(t) => if t == standing(n) {
            Seq::empty()
        } else {
            seq![
                News::State {
                    agent: n.agent_id@,
                    state: n.state,
                    reap_state: n.reap_state,
                    ts: journal_time(n.state_ts),
                },
            ]
        },
    }
}

/// What has changed since the last time anybody was told, in journal order.
pub open spec fn news(
    nodes: Seq<ReplayedNode>,
    told: Seq<(Seq<char>, Told)>,
    builtins: AgentTypes,
    panes: Seq<Seq<char>>,
) -> Seq<News>
    decreases nodes.len(),
{
    if nodes.len() == 0 {
        Seq::empty()
    } else {
        news(nodes.drop_last(), told, builtins, panes) + node_news(
            nodes.last(),
            table::value(told_after(nodes.drop_last(), told), nodes.last().agent_id@),
            builtins,
            panes,
        )
    }
}

/// The nodes that can be described, described, in journal order.
pub open spec fn snapshot(
    nodes: Seq<ReplayedNode>,
    builtins: AgentTypes,
    panes: Seq<Seq<char>>,
) -> Seq<SummaryText>
    decreases nodes.len(),
{
    if nodes.len() == 0 {
        Seq::empty()
    } else {
        let rest = snapshot(nodes.drop_last(), builtins, panes);
        match project::projection(nodes.last(), builtins, panes.contains(nodes.last().agent_id@)) {
            Ok(s) => rest.push(s),
            Err(_) => rest,
        }
    }
}

/// How many nodes cannot be described.
pub open spec fn indescribable(nodes: Seq<ReplayedNode>, builtins: AgentTypes) -> nat
    decreases nodes.len(),
{
    if nodes.len() == 0 {
        0
    } else {
        indescribable(nodes.drop_last(), builtins) + (if project::projection(
            nodes.last(),
            builtins,
            false,
        ) is Err {
            1nat
        } else {
            0nat
        })
    }
}

/// One client following one node's events.
#[derive(Debug)]
pub struct Attachment {
    pub conn: ConnId,
    pub agent_id: AgentId,
    /// The reader, which is this client's own: a cursor is per subscription.
    pub reader: u64,
}

/// An attachment, as contracts speak of it.
pub struct Following {
    pub conn: ConnId,
    pub agent: Seq<char>,
    pub reader: u64,
}

impl View for Attachment {
    type V = Following;

    open spec fn view(&self) -> Following {
        Following { conn: self.conn, agent: self.agent_id@, reader: self.reader }
    }
}

/// Who follows what, in the order they began.
pub open spec fn followings(v: Seq<Attachment>) -> Seq<Following> {
    v.map_values(|a: Attachment| a@)
}

/// What the connections share.
#[derive(Debug)]
pub struct Shared {
    /// The connections that follow the tree.
    pub subs: Vec<ConnId>,
    pub attached: Vec<Attachment>,
    /// The connections there are.
    pub clients: Vec<ConnId>,
    pub told: Table<Told>,
    /// How many nodes the last snapshot could not describe.
    pub unprojectable: usize,
}

/// What the connections share, as contracts speak of it.
#[verifier::ext_equal]
pub struct SharedModel {
    pub subs: Seq<ConnId>,
    pub attached: Seq<Following>,
    pub clients: Set<ConnId>,
    pub told: Seq<(Seq<char>, Told)>,
    pub unprojectable: nat,
}

/// The connections other than `conn`, in order.
pub open spec fn others(conns: Seq<ConnId>, conn: ConnId) -> Seq<ConnId> {
    conns.filter(|c: ConnId| c != conn)
}

/// What the connections other than `conn` follow, in order.
pub open spec fn others_following(attached: Seq<Following>, conn: ConnId) -> Seq<Following> {
    attached.filter(|a: Following| a.conn != conn)
}

impl SharedModel {
    /// `conn` is gone, and with it what it followed. What has been told stays told.
    pub open spec fn departed(self, conn: ConnId) -> SharedModel {
        SharedModel {
            subs: others(self.subs, conn),
            attached: others_following(self.attached, conn),
            clients: self.clients.remove(conn),
            ..self
        }
    }
}

impl View for Shared {
    type V = SharedModel;

    open spec fn view(&self) -> SharedModel {
        SharedModel {
            subs: self.subs@,
            attached: followings(self.attached@),
            clients: self.clients@.to_set(),
            told: self.told@,
            unprojectable: self.unprojectable as nat,
        }
    }
}

/// A subscriber's first answer: the tree, and how far the journal was read for it.
#[derive(Debug)]
pub struct TreeSubscribeResult {
    pub nodes: Vec<NodeSummary>,
    pub read_point: ReplayPoint,
}

impl Shared {
    /// Each node has been told about once, and each connection is counted once.
    pub open spec fn wf(&self) -> bool {
        &&& self.told.wf()
        &&& self.clients@.no_duplicates()
    }

    /// Nobody is connected and nothing has been told.
    pub fn new() -> (s: Self)
        ensures
            s.wf(),
            s@.subs == Seq::<ConnId>::empty(),
            s@.attached == Seq::<Following>::empty(),
            s@.clients == Set::<ConnId>::empty(),
            s@.told == Seq::<(Seq<char>, Told)>::empty(),
            s@.unprojectable == 0,
    {
        let s = Shared {
            subs: Vec::new(),
            attached: Vec::new(),
            clients: Vec::new(),
            told: Table::new(),
            unprojectable: 0,
        };
        assert(followings(s.attached@) =~= Seq::<Following>::empty());
        assert(s.clients@.to_set() =~= Set::<ConnId>::empty());
        s
    }

    /// What has changed since the last time anybody was told. Every node is recorded as told, also
    /// one that cannot be described, so it is not looked at again until it changes.
    pub fn collect(
        &mut self,
        reg: &Registry,
        builtins: &AgentTypes,
        panes: &Vec<AgentId>,
    ) -> (events: Vec<Event>)
        requires
            old(self).wf(),
        ensures
            final(self).wf(),
            news_of(events@) == news(
                reg.nodes@,
                old(self)@.told,
                *builtins,
                model::id_texts(panes@),
            ),
            final(self)@ == (SharedModel {
                told: told_after(reg.nodes@, old(self)@.told),
                ..old(self)@
            }),
    {
        let ghost told = self.told@;
        let ghost ids = model::id_texts(panes@);
        let mut events: Vec<Event> = Vec::new();
        let mut i: usize = 0;
        proof {
            assert(reg.nodes@.take(0) =~= Seq::<ReplayedNode>::empty());
            assert(news_of(events@) =~= news(reg.nodes@.take(0), told, *builtins, ids));
        }
        while i < reg.nodes.len()
            invariant
                i <= reg.nodes.len(),
                self.wf(),
                told == old(self)@.told,
                ids == model::id_texts(panes@),
                news_of(events@) == news(reg.nodes@.take(i as int), told, *builtins, ids),
                self.told@ == told_after(reg.nodes@.take(i as int), told),
                self@ == (SharedModel { told: self.told@, ..old(self)@ }),
            decreases reg.nodes.len() - i,
        {
            let n = &reg.nodes[i];
            let ghost heard = news_of(events@);
            proof {
                assert(reg.nodes@.take(i + 1).drop_last() =~= reg.nodes@.take(i as int));
                assert(reg.nodes@.take(i + 1).last() == reg.nodes@[i as int]);
            }
            let now = Told { state: n.state, reap_state: n.reap_state };
            let before: Option<Told> = match self.told.get(&n.agent_id) {
                Some(t) => Some(*t),
                None => None,
            };
            match before {
                None => {
                    let pane = holds_id(panes, &n.agent_id);
                    if let Ok(node) = summarize(n, builtins, pane) {
                        let ts: u64 = journal_ts(n.first_ts);
                        events.push(Event::NodeAdded { node, ts });
                    }
                    let _ = self.told.insert(n.agent_id.clone(), now);
                },
                Some(t) => {
                    if t.state != now.state || t.reap_state != now.reap_state {
                        let ts: u64 = journal_ts(n.state_ts);
                        events.push(
                            Event::NodeState {
                                agent_id: n.agent_id.clone(),
                                state: n.state,
                                reap_state: n.reap_state,
                                ts,
                            },
                        );
                        let _ = self.told.insert(n.agent_id.clone(), now);
                    } else {
                        assert(table::put(self.told@, n.agent_id@, now) =~= self.told@) by {
                            assert(table::row_is(
                                self.told@,
                                n.agent_id@,
                                table::row_index(self.told@, n.agent_id@),
                            ));
                        }
                    }
                },
            }
            assert(news_of(events@) =~= heard + node_news(*n, before, *builtins, ids));
            i = i + 1;
        }
        assert(reg.nodes@.take(i as int) =~= reg.nodes@);
        events
    }

    /// The tree, as summaries, counting what could not be described.
    fn project(&mut self, reg: &Registry, builtins: &AgentTypes, panes: &Vec<AgentId>) -> (out: Vec<
        NodeSummary,
    >)
        requires
            old(self).wf(),
        ensures
            final(self).wf(),
            summaries_of(out@) == snapshot(reg.nodes@, *builtins, model::id_texts(panes@)),
            final(self)@ == (SharedModel {
                unprojectable: indescribable(reg.nodes@, *builtins),
                ..old(self)@
            }),
    {
        let ghost ids = model::id_texts(panes@);
        let mut out: Vec<NodeSummary> = Vec::new();
        let mut lost: usize = 0;
        let mut i: usize = 0;
        proof {
            assert(reg.nodes@.take(0) =~= Seq::<ReplayedNode>::empty());
            assert(summaries_of(out@) =~= snapshot(reg.nodes@.take(0), *builtins, ids));
        }
        while i < reg.nodes.len()
            invariant
                i <= reg.nodes.len(),
                ids == model::id_texts(panes@),
                lost <= i,
                lost == indescribable(reg.nodes@.take(i as int), *builtins),
                summaries_of(out@) == snapshot(reg.nodes@.take(i as int), *builtins, ids),
            decreases reg.nodes.len() - i,
        {
            let ghost seen = summaries_of(out@);
            proof {
                assert(reg.nodes@.take(i + 1).drop_last() =~= reg.nodes@.take(i as int));
                assert(reg.nodes@.take(i + 1).last() == reg.nodes@[i as int]);
            }
            let pane = holds_id(panes, &reg.nodes[i].agent_id);
            match summarize(&reg.nodes[i], builtins, pane) {
                Ok(s) => {
                    out.push(s);
                    assert(summaries_of(out@) =~= seen.push(s@));
                },
                Err(_) => {
                    lost = lost + 1;
                },
            }
            i = i + 1;
        }
        assert(reg.nodes@.take(i as int) =~= reg.nodes@);
        self.unprojectable = lost;
        out
    }

    /// Drop the subscribers that did not take what was sent. `took` says, for each subscriber in
    /// order, whether it took every event; where nothing was sent nobody is dropped.
    pub fn deliver(&mut self, events: &Vec<Event>, took: &Vec<bool>)
        requires
            old(self).wf(),
            took@.len() == old(self)@.subs.len(),
        ensures
            final(self).wf(),
            final(self)@ == (SharedModel {
                subs: if events@.len() == 0 {
                    old(self)@.subs
                } else {
                    still_there(old(self)@.subs, took@)
                },
                ..old(self)@
            }),
    {
        if events.len() == 0 {
            return;
        }
        let mut kept: Vec<ConnId> = Vec::new();
        let mut i: usize = 0;
        proof {
            assert(self.subs@.take(0) =~= Seq::<ConnId>::empty());
            assert(took@.take(0) =~= Seq::<bool>::empty());
            assert(kept@ =~= still_there(self.subs@.take(0), took@.take(0)));
        }
        while i < self.subs.len()
            invariant
                i <= self.subs.len(),
                took@.len() == self.subs@.len(),
                kept@ == still_there(self.subs@.take(i as int), took@.take(i as int)),
            decreases self.subs.len() - i,
        {
            proof {
                assert(self.subs@.take(i + 1).drop_last() =~= self.subs@.take(i as int));
                assert(took@.take(i + 1).drop_last() =~= took@.take(i as int));
            }
            if took[i] {
                kept.push(self.subs[i]);
            }
            i = i + 1;
        }
        proof {
            assert(self.subs@.take(i as int) =~= self.subs@);
            assert(took@.take(i as int) =~= took@);
        }
        self.subs = kept;
    }

    /// Everything that changed since the last flush, for every subscriber.
    pub fn flush(&mut self, reg: &Registry, builtins: &AgentTypes, panes: &Vec<AgentId>) -> (events:
        Vec<Event>)
        requires
            old(self).wf(),
        ensures
            final(self).wf(),
            news_of(events@) == news(
                reg.nodes@,
                old(self)@.told,
                *builtins,
                model::id_texts(panes@),
            ),
            final(self)@ == (SharedModel {
                told: told_after(reg.nodes@, old(self)@.told),
                ..old(self)@
            }),
    {
        self.collect(reg, builtins, panes)
    }

    /// Begin following the tree. The events are for the subscribers there already are; the snapshot
    /// is this one's, and what it is told next begins where the snapshot ends, because all three
    /// come from one reading.
    pub fn subscribe(
        &mut self,
        reg: &Registry,
        builtins: &AgentTypes,
        panes: &Vec<AgentId>,
    ) -> (r: (Vec<Event>, TreeSubscribeResult))
        requires
            old(self).wf(),
        ensures
            final(self).wf(),
            news_of(r.0@) == news(reg.nodes@, old(self)@.told, *builtins, model::id_texts(panes@)),
            summaries_of(r.1.nodes@) == snapshot(reg.nodes@, *builtins, model::id_texts(panes@)),
            r.1.read_point == reg.read_point,
            final(self)@ == (SharedModel {
                told: told_after(reg.nodes@, old(self)@.told),
                unprojectable: indescribable(reg.nodes@, *builtins),
                ..old(self)@
            }),
    {
        let events = self.collect(reg, builtins, panes);
        let nodes = self.project(reg, builtins, panes);
        (events, TreeSubscribeResult { nodes, read_point: reg.read_point })
    }

    /// Count a subscriber in, once the others have been told what it already knows.
    pub fn subscribed(&mut self, conn: ConnId)
        requires
            old(self).wf(),
        ensures
            final(self).wf(),
            final(self)@ == (SharedModel { subs: old(self)@.subs.push(conn), ..old(self)@ }),
    {
        self.subs.push(conn);
    }

    /// Begin following a node's events.
    pub fn attach(&mut self, conn: ConnId, agent_id: AgentId, reader: u64)
        requires
            old(self).wf(),
        ensures
            final(self).wf(),
            final(self)@ == (SharedModel {
                attached: old(self)@.attached.push(
                    Following { conn, agent: agent_id@, reader },
                ),
                ..old(self)@
            }),
    {
        self.attached.push(Attachment { conn, agent_id, reader });
        assert(self@.attached =~= old(self)@.attached.push(
            Following { conn, agent: agent_id@, reader },
        ));
    }

    /// A connection is there.
    pub fn connected(&mut self, conn: ConnId)
        requires
            old(self).wf(),
        ensures
            final(self).wf(),
            final(self)@ == (SharedModel {
                clients: old(self)@.clients.insert(conn),
                ..old(self)@
            }),
    {
        let ghost before = self.clients@;
        if self.has_client(conn) {
            assert(before.to_set().insert(conn) =~= before.to_set());
            return;
        }
        self.clients.push(conn);
        proof {
            assert(self.clients@ =~= before.push(conn));
            assert(self.clients@.to_set() =~= before.to_set().insert(conn)) by {
                assert forall|c: ConnId| self.clients@.contains(c) <==> (before.contains(c) || c
                    == conn) by {
                    if before.contains(c) {
                        let j = choose|j: int| 0 <= j < before.len() && before[j] == c;
                        assert(self.clients@[j] == c);
                    }
                    if c == conn {
                        assert(self.clients@[before.len() as int] == c);
                    }
                }
            }
        }
    }

    /// Whether `conn` is there.
    fn has_client(&self, conn: ConnId) -> (r: bool)
        ensures
            r == self.clients@.contains(conn),
    {
        let mut i: usize = 0;
        while i < self.clients.len()
            invariant
                i <= self.clients.len(),
                forall|j: int| 0 <= j < i ==> self.clients@[j] != conn,
            decreases self.clients.len() - i,
        {
            if self.clients[i] == conn {
                return true;
            }
            i = i + 1;
        }
        false
    }

    /// Whether anybody is there.
    pub fn has_clients(&self) -> (r: bool)
        ensures
            r == (self@.clients != Set::<ConnId>::empty()),
    {
        proof {
            if self.clients@.len() > 0 {
                assert(self.clients@.to_set().contains(self.clients@[0]));
            } else {
                assert(self.clients@.to_set() =~= Set::<ConnId>::empty());
            }
        }
        self.clients.len() > 0
    }

    /// A connection is gone.
    pub fn gone(&mut self, conn: ConnId)
        requires
            old(self).wf(),
        ensures
            final(self).wf(),
            final(self)@ == old(self)@.departed(conn),
    {
        let ghost subs = self.subs@;
        let ghost attached = followings(self.attached@);
        let ghost clients = self.clients@;
        self.subs = other_conns(&self.subs, conn);
        let all = other_conns(&self.clients, conn);
        self.clients = all;
        let mut kept: Vec<Attachment> = Vec::new();
        let mut i: usize = 0;
        proof {
            reveal(Seq::filter);
            assert(attached.take(0) =~= Seq::<Following>::empty());
            assert(followings(kept@) =~= others_following(attached.take(0), conn));
        }
        while i < self.attached.len()
            invariant
                i <= self.attached.len(),
                attached == followings(self.attached@),
                followings(kept@) == others_following(attached.take(i as int), conn),
            decreases self.attached.len() - i,
        {
            proof {
                reveal(Seq::filter);
                assert(attached.take(i + 1).drop_last() =~= attached.take(i as int));
                assert(attached.take(i + 1).last() == self.attached@[i as int]@);
            }
            if self.attached[i].conn != conn {
                let ghost had = followings(kept@);
                let a = &self.attached[i];
                kept.push(
                    Attachment { conn: a.conn, agent_id: a.agent_id.clone(), reader: a.reader },
                );
                assert(followings(kept@) =~= had.push(self.attached@[i as int]@));
            }
            i = i + 1;
        }
        assert(attached.take(i as int) =~= attached);
        self.attached = kept;
        proof {
            lemma_other_conns(clients, conn);
        }
    }

    /// Advance every followed stream. `polled` gives, for each attachment in order, how many events
    /// its reader found and whether its connection took them; the streams of the connections that
    /// did not are dropped. The answer is how many events were read.
    pub fn pump_attached(&mut self, polled: &Vec<(usize, bool)>) -> (read: usize)
        requires
            old(self).wf(),
            polled@.len() == old(self)@.attached.len(),
            events_read(polled@) <= usize::MAX,
        ensures
            final(self).wf(),
            read == events_read(polled@),
            final(self)@ == (SharedModel {
                attached: still_followed(old(self)@.attached, polled@),
                ..old(self)@
            }),
    {
        let ghost attached = followings(self.attached@);
        let mut kept: Vec<Attachment> = Vec::new();
        let mut read: usize = 0;
        let mut i: usize = 0;
        proof {
            assert(attached.take(0) =~= Seq::<Following>::empty());
            assert(polled@.take(0) =~= Seq::<(usize, bool)>::empty());
            assert(followings(kept@) =~= still_followed(attached.take(0), polled@.take(0)));
        }
        while i < self.attached.len()
            invariant
                i <= self.attached.len(),
                polled@.len() == self.attached@.len(),
                attached == followings(self.attached@),
                events_read(polled@) <= usize::MAX,
                read == events_read(polled@.take(i as int)),
                followings(kept@) == still_followed(
                    attached.take(i as int),
                    polled@.take(i as int),
                ),
            decreases self.attached.len() - i,
        {
            proof {
                assert(attached.take(i + 1).drop_last() =~= attached.take(i as int));
                assert(attached.take(i + 1).last() == self.attached@[i as int]@);
                assert(polled@.take(i + 1).drop_last() =~= polled@.take(i as int));
                assert(polled@.take(i + 1).last() == polled@[i as int]);
                lemma_events_read_grows(polled@, i + 1);
            }
            read = read + polled[i].0;
            if polled[i].1 {
                let ghost had = followings(kept@);
                let a = &self.attached[i];
                kept.push(
                    Attachment { conn: a.conn, agent_id: a.agent_id.clone(), reader: a.reader },
                );
                assert(followings(kept@) =~= had.push(self.attached@[i as int]@));
            }
            i = i + 1;
        }
        proof {
            assert(attached.take(i as int) =~= attached);
            assert(polled@.take(i as int) =~= polled@);
        }
        self.attached = kept;
        read
    }
}

/// How many events were read together.
pub open spec fn events_read(polled: Seq<(usize, bool)>) -> nat
    decreases polled.len(),
{
    if polled.len() == 0 {
        0
    } else {
        events_read(polled.drop_last()) + polled.last().0 as nat
    }
}

proof fn lemma_events_read_grows(polled: Seq<(usize, bool)>, n: int)
    requires
        0 <= n <= polled.len(),
    ensures
        events_read(polled.take(n)) <= events_read(polled),
    decreases polled.len() - n,
{
    if n < polled.len() {
        lemma_events_read_grows(polled, n + 1);
        assert(polled.take(n + 1).drop_last() =~= polled.take(n));
    } else {
        assert(polled.take(n) =~= polled);
    }
}

/// The streams whose connections took what was sent.
pub open spec fn still_followed(attached: Seq<Following>, polled: Seq<(usize, bool)>) -> Seq<
    Following,
>
    decreases attached.len(),
{
    if attached.len() == 0 {
        Seq::empty()
    } else {
        let rest = still_followed(attached.drop_last(), polled.drop_last());
        if polled.last().1 {
            rest.push(attached.last())
        } else {
            rest
        }
    }
}

/// The connections other than `conn`, in order.
fn other_conns(all: &Vec<ConnId>, conn: ConnId) -> (kept: Vec<ConnId>)
    ensures
        kept@ == others(all@, conn),
{
    let mut kept: Vec<ConnId> = Vec::new();
    let mut i: usize = 0;
    proof {
        reveal(Seq::filter);
        assert(all@.take(0) =~= Seq::<ConnId>::empty());
        assert(kept@ =~= others(all@.take(0), conn));
    }
    while i < all.len()
        invariant
            i <= all.len(),
            kept@ == others(all@.take(i as int), conn),
        decreases all.len() - i,
    {
        proof {
            reveal(Seq::filter);
            assert(all@.take(i + 1).drop_last() =~= all@.take(i as int));
        }
        if all[i] != conn {
            kept.push(all[i]);
        }
        i = i + 1;
    }
    assert(all@.take(i as int) =~= all@);
    kept
}

/// Leaving a connection out leaves it out of the set, and leaves the others apart.
proof fn lemma_other_conns(all: Seq<ConnId>, conn: ConnId)
    requires
        all.no_duplicates(),
    ensures
        others(all, conn).no_duplicates(),
        others(all, conn).to_set() == all.to_set().remove(conn),
    decreases all.len(),
{
    reveal(Seq::filter);
    if all.len() == 0 {
        assert(others(all, conn).to_set() =~= all.to_set().remove(conn));
    } else {
        let init = all.drop_last();
        let last = all.last();
        assert(init.no_duplicates());
        lemma_other_conns(init, conn);
        let f = others(init, conn);
        assert(all =~= init.push(last));
        assert(!init.contains(last));
        assert(all.to_set() =~= init.to_set().insert(last)) by {
            assert forall|c: ConnId| all.contains(c) <==> (init.contains(c) || c == last) by {
                if init.contains(c) {
                    let j = choose|j: int| 0 <= j < init.len() && init[j] == c;
                    assert(all[j] == c);
                }
                if c == last {
                    assert(all[all.len() - 1] == c);
                }
            }
        }
        if last != conn {
            assert(!f.to_set().contains(last));
            assert(!f.contains(last));
            let g = f.push(last);
            assert(g.to_set() =~= f.to_set().insert(last)) by {
                assert forall|c: ConnId| g.contains(c) <==> (f.contains(c) || c == last) by {
                    if f.contains(c) {
                        let j = choose|j: int| 0 <= j < f.len() && f[j] == c;
                        assert(g[j] == c);
                    }
                    if c == last {
                        assert(g[f.len() as int] == c);
                    }
                }
            }
            assert(g.to_set() =~= all.to_set().remove(conn));
        } else {
            assert(f.to_set() =~= all.to_set().remove(conn));
        }
    }
}

/// The subscribers that took everything.
pub open spec fn still_there(subs: Seq<ConnId>, took: Seq<bool>) -> Seq<ConnId>
    decreases subs.len(),
{
    if subs.len() == 0 {
        Seq::empty()
    } else {
        let rest = still_there(subs.drop_last(), took.drop_last());
        if took.last() {
            rest.push(subs.last())
        } else {
            rest
        }
    }
}

/// No id is recorded twice.
pub open spec fn ids_apart(nodes: Seq<ReplayedNode>) -> bool {
    forall|i: int, j: int|
        0 <= i < j < nodes.len() ==> (#[trigger] nodes[i]).agent_id@ != (
        #[trigger] nodes[j]).agent_id@
}

/// What has been told about every node of `nodes` is how it stands; about every other node, what it
/// was.
proof fn lemma_told_after(nodes: Seq<ReplayedNode>, told: Seq<(Seq<char>, Told)>)
    requires
        table::distinct(told),
        ids_apart(nodes),
    ensures
        table::distinct(told_after(nodes, told)),
        forall|i: int|
            0 <= i < nodes.len() ==> table::value(
                told_after(nodes, told),
                (#[trigger] nodes[i]).agent_id@,
            ) == Some(standing(nodes[i])),
        forall|k: Seq<char>|
            (forall|i: int| 0 <= i < nodes.len() ==> (#[trigger] nodes[i]).agent_id@ != k)
                ==> #[trigger] table::value(told_after(nodes, told), k) == table::value(told, k),
    decreases nodes.len(),
{
    if nodes.len() > 0 {
        let init = nodes.drop_last();
        let last = nodes.last();
        lemma_told_after(init, told);
        let before = told_after(init, told);
        table::lemma_put(before, last.agent_id@, standing(last));
        let after = told_after(nodes, told);
        assert forall|i: int| 0 <= i < nodes.len() implies table::value(
            after,
            (#[trigger] nodes[i]).agent_id@,
        ) == Some(standing(nodes[i])) by {
            if i < init.len() {
                assert(init[i] == nodes[i]);
                assert(nodes[i].agent_id@ != nodes[nodes.len() - 1].agent_id@);
            }
        }
        assert forall|k: Seq<char>|
            (forall|i: int| 0 <= i < nodes.len() ==> (
            #[trigger] nodes[i]).agent_id@ != k) implies #[trigger] table::value(after, k)
            == table::value(told, k) by {
            assert(nodes[nodes.len() - 1].agent_id@ != k);
            assert forall|i: int| 0 <= i < init.len() implies (
            #[trigger] init[i]).agent_id@ != k by {
                assert(init[i] == nodes[i]);
            }
        }
    }
}

/// Nodes that stand as was told are no news.
proof fn lemma_no_news(
    nodes: Seq<ReplayedNode>,
    told: Seq<(Seq<char>, Told)>,
    builtins: AgentTypes,
    ids: Seq<Seq<char>>,
)
    requires
        table::distinct(told),
        ids_apart(nodes),
        forall|i: int|
            0 <= i < nodes.len() ==> table::value(told, (#[trigger] nodes[i]).agent_id@) == Some(
                standing(nodes[i]),
            ),
    ensures
        news(nodes, told, builtins, ids) == Seq::<News>::empty(),
    decreases nodes.len(),
{
    if nodes.len() > 0 {
        let init = nodes.drop_last();
        let last = nodes.last();
        assert forall|i: int| 0 <= i < init.len() implies table::value(
            told,
            (#[trigger] init[i]).agent_id@,
        ) == Some(standing(init[i])) by {
            assert(init[i] == nodes[i]);
        }
        lemma_no_news(init, told, builtins, ids);
        lemma_told_after(init, told);
        assert forall|i: int| 0 <= i < init.len() implies (
        #[trigger] init[i]).agent_id@ != last.agent_id@ by {
            assert(init[i] == nodes[i]);
        }
        assert(nodes[nodes.len() - 1] == last);
        assert(table::value(told_after(init, told), last.agent_id@) == Some(standing(last)));
    }
}

/// What each node is news for by itself, in journal order, given what had been told before.
pub open spec fn each_news(
    nodes: Seq<ReplayedNode>,
    told: Seq<(Seq<char>, Told)>,
    builtins: AgentTypes,
    panes: Seq<Seq<char>>,
) -> Seq<News>
    decreases nodes.len(),
{
    if nodes.len() == 0 {
        Seq::empty()
    } else {
        each_news(nodes.drop_last(), told, builtins, panes) + node_news(
            nodes.last(),
            table::value(told, nodes.last().agent_id@),
            builtins,
            panes,
        )
    }
}

/// Each node is told of at most once, in journal order and by what had been told of it before the
/// reading, whatever the others are; and afterwards each has been told of as it stands.
pub proof fn law_each_node_is_told_of_by_itself(
    nodes: Seq<ReplayedNode>,
    told: Seq<(Seq<char>, Told)>,
    builtins: AgentTypes,
    panes: Seq<Seq<char>>,
)
    requires
        table::distinct(told),
        ids_apart(nodes),
    ensures
        news(nodes, told, builtins, panes) == each_news(nodes, told, builtins, panes),
        news(nodes, told, builtins, panes).len() <= nodes.len(),
        forall|i: int|
            0 <= i < nodes.len() ==> table::value(
                told_after(nodes, told),
                (#[trigger] nodes[i]).agent_id@,
            ) == Some(standing(nodes[i])),
    decreases nodes.len(),
{
    lemma_told_after(nodes, told);
    if nodes.len() > 0 {
        let init = nodes.drop_last();
        let last = nodes.last();
        assert(ids_apart(init));
        law_each_node_is_told_of_by_itself(init, told, builtins, panes);
        lemma_told_after(init, told);
        assert forall|i: int| 0 <= i < init.len() implies (#[trigger] init[i]).agent_id@
            != last.agent_id@ by {
            assert(init[i] == nodes[i]);
            assert(nodes[nodes.len() - 1] == last);
        }
        assert(table::value(told_after(init, told), last.agent_id@) == table::value(
            told,
            last.agent_id@,
        ));
    }
}

/// Nothing is told twice: once a reading has been told, whether by a flush or by a subscription, the
/// same reading is no news, also where somebody's pane has come or gone since.
pub proof fn law_nothing_is_told_twice(
    nodes: Seq<ReplayedNode>,
    told: Seq<(Seq<char>, Told)>,
    builtins: AgentTypes,
    ids: Seq<Seq<char>>,
)
    requires
        table::distinct(told),
        ids_apart(nodes),
    ensures
        news(nodes, told_after(nodes, told), builtins, ids) == Seq::<News>::empty(),
{
    lemma_told_after(nodes, told);
    lemma_no_news(nodes, told_after(nodes, told), builtins, ids);
}

/// A snapshot shows every node that can be described and counts the others, and what follows it
/// begins where it ended: once a subscription has taken a reading, that reading is no news to
/// anybody.
pub proof fn law_a_snapshot_and_what_follows_meet(
    nodes: Seq<ReplayedNode>,
    told: Seq<(Seq<char>, Told)>,
    builtins: AgentTypes,
    panes: Seq<Seq<char>>,
    later: Seq<Seq<char>>,
)
    requires
        table::distinct(told),
        ids_apart(nodes),
    ensures
        snapshot(nodes, builtins, panes).len() + indescribable(nodes, builtins) == nodes.len(),
        forall|i: int|
            0 <= i < nodes.len() ==> match project::projection(
                #[trigger] nodes[i],
                builtins,
                panes.contains(nodes[i].agent_id@),
            ) {
                Ok(s) => snapshot(nodes, builtins, panes).contains(s),
                Err(_) => true,
            },
        news(nodes, told_after(nodes, told), builtins, later) == Seq::<News>::empty(),
{
    lemma_snapshot(nodes, builtins, panes);
    law_nothing_is_told_twice(nodes, told, builtins, later);
}

/// Every node is shown or counted.
proof fn lemma_snapshot(
    nodes: Seq<ReplayedNode>,
    builtins: AgentTypes,
    panes: Seq<Seq<char>>,
)
    ensures
        snapshot(nodes, builtins, panes).len() + indescribable(nodes, builtins) == nodes.len(),
        forall|i: int|
            0 <= i < nodes.len() ==> match project::projection(
                #[trigger] nodes[i],
                builtins,
                panes.contains(nodes[i].agent_id@),
            ) {
                Ok(s) => snapshot(nodes, builtins, panes).contains(s),
                Err(_) => true,
            },
    decreases nodes.len(),
{
    if nodes.len() > 0 {
        let init = nodes.drop_last();
        let last = nodes.last();
        lemma_snapshot(init, builtins, panes);
        let before = snapshot(init, builtins, panes);
        let all = snapshot(nodes, builtins, panes);
        assert forall|i: int| 0 <= i < nodes.len() implies match project::projection(
            #[trigger] nodes[i],
            builtins,
            panes.contains(nodes[i].agent_id@),
        ) {
            Ok(s) => all.contains(s),
            Err(_) => true,
        } by {
            match project::projection(nodes[i], builtins, panes.contains(nodes[i].agent_id@)) {
                Ok(s) => {
                    if i < init.len() {
                        assert(init[i] == nodes[i]);
                        let at = before.index_of(s);
                        assert(all[at] == s);
                    } else {
                        assert(all[all.len() - 1] == s);
                    }
                },
                Err(_) => {},
            }
        }
    }
}

/// A node that changes after a reading was told is news exactly once, in the state it has come to:
/// nothing is lost between a snapshot and what follows it.
pub proof fn law_a_change_is_told(
    nodes: Seq<ReplayedNode>,
    told: Seq<(Seq<char>, Told)>,
    i: int,
    moved: ReplayedNode,
    builtins: AgentTypes,
    ids: Seq<Seq<char>>,
)
    requires
        table::distinct(told),
        ids_apart(nodes),
        0 <= i < nodes.len(),
        moved.agent_id@ == nodes[i].agent_id@,
        standing(moved) != standing(nodes[i]),
    ensures
        news(nodes.update(i, moved), told_after(nodes, told), builtins, ids) == seq![
            News::State {
                agent: moved.agent_id@,
                state: moved.state,
                reap_state: moved.reap_state,
                ts: journal_time(moved.state_ts),
            },
        ],
{
    lemma_told_after(nodes, told);
    let after = told_after(nodes, told);
    let changed = nodes.update(i, moved);
    assert(ids_apart(changed)) by {
        assert forall|a: int, b: int| 0 <= a < b < changed.len() implies (
        #[trigger] changed[a]).agent_id@ != (#[trigger] changed[b]).agent_id@ by {
            assert(nodes[a].agent_id@ != nodes[b].agent_id@);
        }
    }
    lemma_one_change(changed, after, i, builtins, ids);
}

/// Where only the node at `i` stands otherwise than was told, it alone is news.
proof fn lemma_one_change(
    nodes: Seq<ReplayedNode>,
    told: Seq<(Seq<char>, Told)>,
    i: int,
    builtins: AgentTypes,
    ids: Seq<Seq<char>>,
)
    requires
        table::distinct(told),
        ids_apart(nodes),
        0 <= i < nodes.len(),
        table::value(told, nodes[i].agent_id@) is Some,
        table::value(told, nodes[i].agent_id@)->0 != standing(nodes[i]),
        forall|j: int|
            0 <= j < nodes.len() && j != i ==> table::value(
                told,
                (#[trigger] nodes[j]).agent_id@,
            ) == Some(standing(nodes[j])),
    ensures
        news(nodes, told, builtins, ids) == seq![
            News::State {
                agent: nodes[i].agent_id@,
                state: nodes[i].state,
                reap_state: nodes[i].reap_state,
                ts: journal_time(nodes[i].state_ts),
            },
        ],
    decreases nodes.len(),
{
    let init = nodes.drop_last();
    let last = nodes.last();
    lemma_told_after(init, told);
    assert forall|j: int| 0 <= j < init.len() implies (
    #[trigger] init[j]).agent_id@ != last.agent_id@ by {
        assert(init[j] == nodes[j]);
        assert(nodes[j].agent_id@ != nodes[nodes.len() - 1].agent_id@);
    }
    assert(table::value(told_after(init, told), last.agent_id@) == table::value(
        told,
        last.agent_id@,
    ));
    assert(nodes[nodes.len() - 1] == last);
    if i == nodes.len() - 1 {
        assert forall|j: int| 0 <= j < init.len() implies table::value(
            told,
            (#[trigger] init[j]).agent_id@,
        ) == Some(standing(init[j])) by {
            assert(init[j] == nodes[j]);
        }
        lemma_no_news(init, told, builtins, ids);
    } else {
        assert(init[i] == nodes[i]);
        assert forall|j: int| 0 <= j < init.len() && j != i implies table::value(
            told,
            (#[trigger] init[j]).agent_id@,
        ) == Some(standing(init[j])) by {
            assert(init[j] == nodes[j]);
        }
        lemma_one_change(init, told, i, builtins, ids);
    }
    assert(news(nodes, told, builtins, ids) =~= seq![
        News::State {
            agent: nodes[i].agent_id@,
            state: nodes[i].state,
            reap_state: nodes[i].reap_state,
            ts: journal_time(nodes[i].state_ts),
        },
    ]);
}

/// What a node is news for is decided by the node and by what had been told of it alone: one that
/// nobody has been told of is announced, in whatever state it is and at its first record's time,
/// where it can be described; one that has been told of is news where its state or who holds it has
/// changed, at that change's time; a time the journal does not have is the epoch.
pub proof fn law_an_arrival_is_announced(
    nodes: Seq<ReplayedNode>,
    n: ReplayedNode,
    told: Seq<(Seq<char>, Told)>,
    builtins: AgentTypes,
    panes: Seq<Seq<char>>,
)
    requires
        table::distinct(told),
        ids_apart(nodes.push(n)),
    ensures
        news(Seq::empty(), told, builtins, panes) == Seq::<News>::empty(),
        ({
            let before = news(nodes, told, builtins, panes);
            let after = news(nodes.push(n), told, builtins, panes);
            let described = project::projection(n, builtins, panes.contains(n.agent_id@));
            &&& (forall|r: int| 0 <= r < told.len() ==> (#[trigger] told[r]).0 != n.agent_id@) ==> (
            if described is Ok {
                after == before.push(
                    News::Added {
                        node: described->Ok_0,
                        ts: if n.first_ts is Some {
                            n.first_ts->0
                        } else {
                            0
                        },
                    },
                )
            } else {
                after == before
            })
            &&& forall|r: int|
                0 <= r < told.len() && (#[trigger] told[r]).0 == n.agent_id@ ==> (if told[r].1.state
                    == n.state && told[r].1.reap_state == n.reap_state {
                    after == before
                } else {
                    after == before.push(
                        News::State {
                            agent: n.agent_id@,
                            state: n.state,
                            reap_state: n.reap_state,
                            ts: if n.state_ts is Some {
                                n.state_ts->0
                            } else {
                                0
                            },
                        },
                    )
                })
        }),
{
    let all = nodes.push(n);
    let id = n.agent_id@;
    assert(all.drop_last() =~= nodes);
    assert forall|i: int, j: int| 0 <= i < j < nodes.len() implies (
    #[trigger] nodes[i]).agent_id@ != (#[trigger] nodes[j]).agent_id@ by {
        assert(all[i] == nodes[i] && all[j] == nodes[j]);
    }
    assert forall|i: int| 0 <= i < nodes.len() implies (#[trigger] nodes[i]).agent_id@ != id by {
        assert(all[i] == nodes[i]);
        assert(all[nodes.len() as int] == n);
    }
    lemma_told_after(nodes, told);
    table::law_an_id_holds_what_its_row_says(told, id);
    let before = news(nodes, told, builtins, panes);
    let own = node_news(n, table::value(told, id), builtins, panes);
    assert(news(all, told, builtins, panes) == before + own);
    if own.len() == 1 {
        assert(before + own =~= before.push(own[0]));
    } else {
        assert(before + own =~= before);
    }
}

/// Whom a change is about.
pub open spec fn about(e: News) -> Seq<char> {
    match e {
        News::Added { node, .. } => node.agent,
        News::State { agent, .. } => agent,
    }
}

/// Of all that is told of a reading, exactly this is about one of its nodes: its addition, where
/// nobody had been told of it and it can be described; its new state, where that is not what had been
/// told; and otherwise nothing.
pub proof fn law_each_node_yields_exactly_its_own_event(
    nodes: Seq<ReplayedNode>,
    told: Seq<(Seq<char>, Told)>,
    builtins: AgentTypes,
    panes: Seq<Seq<char>>,
    i: int,
)
    requires
        table::distinct(told),
        ids_apart(nodes),
        0 <= i < nodes.len(),
    ensures
        ({
            let n = nodes[i];
            let mine = news(nodes, told, builtins, panes).filter(
                |e: News| about(e) == nodes[i].agent_id@,
            );
            let described = project::projection(n, builtins, panes.contains(n.agent_id@));
            &&& (forall|r: int| 0 <= r < told.len() ==> (#[trigger] told[r]).0 != n.agent_id@)
                && described is Ok ==> mine == seq![
                News::Added {
                    node: described->Ok_0,
                    ts: if n.first_ts is Some {
                        n.first_ts->0
                    } else {
                        0
                    },
                },
            ]
            &&& (forall|r: int| 0 <= r < told.len() ==> (#[trigger] told[r]).0 != n.agent_id@)
                && described is Err ==> mine == Seq::<News>::empty()
            &&& forall|r: int|
                0 <= r < told.len() && (#[trigger] told[r]).0 == n.agent_id@ ==> mine == (
                if told[r].1.state == n.state && told[r].1.reap_state == n.reap_state {
                    Seq::<News>::empty()
                } else {
                    seq![
                        News::State {
                            agent: n.agent_id@,
                            state: n.state,
                            reap_state: n.reap_state,
                            ts: if n.state_ts is Some {
                                n.state_ts->0
                            } else {
                                0
                            },
                        },
                    ]
                })
        }),
{
    let id = nodes[i].agent_id@;
    let mine = |e: News| about(e) == nodes[i].agent_id@;
    law_each_node_is_told_of_by_itself(nodes, told, builtins, panes);
    lemma_mine(nodes, told, builtins, panes, i, mine);
    table::law_an_id_holds_what_its_row_says(told, id);
}

/// What is about a node is what the node is news for by itself.
proof fn lemma_mine(
    nodes: Seq<ReplayedNode>,
    told: Seq<(Seq<char>, Told)>,
    builtins: AgentTypes,
    panes: Seq<Seq<char>>,
    i: int,
    mine: spec_fn(News) -> bool,
)
    requires
        ids_apart(nodes),
        0 <= i < nodes.len(),
        forall|e: News| #[trigger] mine(e) <==> about(e) == nodes[i].agent_id@,
    ensures
        each_news(nodes, told, builtins, panes).filter(mine) == node_news(
            nodes[i],
            table::value(told, nodes[i].agent_id@),
            builtins,
            panes,
        ),
    decreases nodes.len(),
{
    let init = nodes.drop_last();
    let last = nodes.last();
    let before = each_news(init, told, builtins, panes);
    let own = node_news(last, table::value(told, last.agent_id@), builtins, panes);
    assert(nodes[nodes.len() - 1] == last);
    assert(own.len() <= 1);
    assert(own.len() == 1 ==> about(own[0]) == last.agent_id@);
    if own.len() == 1 {
        assert(before + own =~= before.push(own[0]));
        quit_laws::lemma_filter_push(before, own[0], mine);
    } else {
        assert(before + own =~= before);
    }
    if i < init.len() {
        assert(init[i] == nodes[i]);
        assert(nodes[i].agent_id@ != nodes[nodes.len() - 1].agent_id@);
        assert(ids_apart(init));
        lemma_mine(init, told, builtins, panes, i, mine);
    } else {
        assert forall|k: int| 0 <= k < before.len() implies !mine(#[trigger] before[k]) by {
            lemma_about(init, told, builtins, panes, k);
            let j = choose|j: int|
                0 <= j < init.len() && (#[trigger] init[j]).agent_id@ == about(before[k]);
            assert(nodes[j] == init[j]);
        }
        lemma_filter_none(before, mine);
        if own.len() == 1 {
            assert(Seq::<News>::empty().push(own[0]) =~= own);
        } else {
            assert(own =~= Seq::<News>::empty());
        }
    }
}

/// One of `nodes` has the id `id`.
pub open spec fn reads(nodes: Seq<ReplayedNode>, id: Seq<char>) -> bool {
    exists|j: int| 0 <= j < nodes.len() && (#[trigger] nodes[j]).agent_id@ == id
}

/// Every change that is told is about one of the nodes that were read.
proof fn lemma_about(
    nodes: Seq<ReplayedNode>,
    told: Seq<(Seq<char>, Told)>,
    builtins: AgentTypes,
    panes: Seq<Seq<char>>,
    k: int,
)
    requires
        0 <= k < each_news(nodes, told, builtins, panes).len(),
    ensures
        reads(nodes, about(each_news(nodes, told, builtins, panes)[k])),
    decreases nodes.len(),
{
    let init = nodes.drop_last();
    let before = each_news(init, told, builtins, panes);
    let all = each_news(nodes, told, builtins, panes);
    if k < before.len() {
        lemma_about(init, told, builtins, panes, k);
        assert(all[k] == before[k]);
        let j = choose|j: int|
            0 <= j < init.len() && (#[trigger] init[j]).agent_id@ == about(before[k]);
        assert(nodes[j] == init[j]);
    } else {
        assert(nodes[nodes.len() - 1] == nodes.last());
    }
}

/// A filter that nothing passes leaves nothing.
proof fn lemma_filter_none(s: Seq<News>, p: spec_fn(News) -> bool)
    requires
        forall|k: int| 0 <= k < s.len() ==> !p(#[trigger] s[k]),
    ensures
        s.filter(p) == Seq::<News>::empty(),
    decreases s.len(),
{
    reveal(Seq::filter);
    if s.len() > 0 {
        lemma_filter_none(s.drop_last(), p);
        assert(!p(s[s.len() - 1]));
    }
}

/// After a reading each of its nodes has been told of as it stands, and what had been told of any
/// other node stays.
pub proof fn law_what_was_read_has_been_told(
    nodes: Seq<ReplayedNode>,
    told: Seq<(Seq<char>, Told)>,
)
    requires
        table::distinct(told),
        ids_apart(nodes),
    ensures
        forall|i: int|
            0 <= i < nodes.len() ==> {
                let t = table::value(told_after(nodes, told), (#[trigger] nodes[i]).agent_id@);
                &&& t is Some
                &&& t->0.state == nodes[i].state
                &&& t->0.reap_state == nodes[i].reap_state
            },
        forall|r: int|
            0 <= r < told.len() && !reads(nodes, (#[trigger] told[r]).0) ==> table::value(
                told_after(nodes, told),
                told[r].0,
            ) == Some(told[r].1),
{
    lemma_told_after(nodes, told);
    assert forall|r: int| 0 <= r < told.len() && !reads(nodes, (#[trigger] told[r]).0) implies
    table::value(told_after(nodes, told), told[r].0) == Some(told[r].1) by {
        table::law_an_id_holds_what_its_row_says(told, told[r].0);
    }
}

/// A snapshot shows one more node exactly where it can be described, at its end; where it cannot it
/// is counted.
pub proof fn law_a_snapshot_shows_each_node_it_can(
    nodes: Seq<ReplayedNode>,
    n: ReplayedNode,
    builtins: AgentTypes,
    panes: Seq<Seq<char>>,
)
    ensures
        snapshot(Seq::empty(), builtins, panes) == Seq::<SummaryText>::empty(),
        indescribable(Seq::empty(), builtins) == 0,
        match project::projection(n, builtins, panes.contains(n.agent_id@)) {
            Ok(s) => {
                &&& snapshot(nodes.push(n), builtins, panes) == snapshot(
                    nodes,
                    builtins,
                    panes,
                ).push(s)
                &&& indescribable(nodes.push(n), builtins) == indescribable(nodes, builtins)
            },
            Err(_) => {
                &&& snapshot(nodes.push(n), builtins, panes) == snapshot(nodes, builtins, panes)
                &&& indescribable(nodes.push(n), builtins) == indescribable(nodes, builtins) + 1
            },
        },
{
    assert(nodes.push(n).drop_last() =~= nodes);
}

/// A subscriber stays exactly where it took what was sent, and a stream is followed on exactly where
/// its connection took what was read of it; the order stays, and everything read is counted.
pub proof fn law_who_takes_what_is_sent_stays(
    subs: Seq<ConnId>,
    sub: ConnId,
    took: Seq<bool>,
    takes: bool,
    attached: Seq<Following>,
    a: Following,
    polled: Seq<(usize, bool)>,
    poll: (usize, bool),
)
    requires
        subs.len() == took.len(),
        attached.len() == polled.len(),
    ensures
        still_there(Seq::empty(), Seq::empty()) == Seq::<ConnId>::empty(),
        still_there(subs.push(sub), took.push(takes)) == (if takes {
            still_there(subs, took).push(sub)
        } else {
            still_there(subs, took)
        }),
        still_followed(Seq::empty(), Seq::empty()) == Seq::<Following>::empty(),
        still_followed(attached.push(a), polled.push(poll)) == (if poll.1 {
            still_followed(attached, polled).push(a)
        } else {
            still_followed(attached, polled)
        }),
        events_read(Seq::empty()) == 0,
        events_read(polled.push(poll)) == events_read(polled) + poll.0,
{
    assert(subs.push(sub).drop_last() =~= subs);
    assert(took.push(takes).drop_last() =~= took);
    assert(attached.push(a).drop_last() =~= attached);
    assert(polled.push(poll).drop_last() =~= polled);
}

/// A connection that goes takes its own subscriptions and streams along, and only those: everybody
/// else's stay, in their order, and nothing that was told is untold.
pub proof fn law_a_connection_takes_only_its_own_along(
    s: SharedModel,
    conn: ConnId,
    c: ConnId,
    a: Following,
)
    ensures
        s.subs.len() == 0 ==> s.departed(conn).subs.len() == 0,
        s.attached.len() == 0 ==> s.departed(conn).attached.len() == 0,
        (SharedModel { subs: s.subs.push(c), ..s }).departed(conn).subs == (if c == conn {
            s.departed(conn).subs
        } else {
            s.departed(conn).subs.push(c)
        }),
        (SharedModel { attached: s.attached.push(a), ..s }).departed(conn).attached == (if a.conn
            == conn {
            s.departed(conn).attached
        } else {
            s.departed(conn).attached.push(a)
        }),
        s.departed(conn).clients.contains(c) <==> s.clients.contains(c) && c != conn,
        s.departed(conn).told == s.told,
        s.departed(conn).unprojectable == s.unprojectable,
{
    reveal(Seq::filter);
    assert(s.subs.push(c).drop_last() =~= s.subs);
    assert(s.attached.push(a).drop_last() =~= s.attached);
}

/// What is told is the event itself: an addition with the node's summary, a change with the node's
/// states, each at the event's own time; a list of them is told in its order.
pub proof fn law_an_event_says_what_it_holds(events: Seq<Event>, i: int)
    requires
        0 <= i < events.len(),
    ensures
        news_of(events).len() == events.len(),
        match events[i] {
            Event::NodeAdded { node, ts } => news_of(events)[i] == (News::Added {
                node: node@,
                ts,
            }),
            Event::NodeState { agent_id, state, reap_state, ts } => news_of(events)[i] == (
            News::State { agent: agent_id@, state, reap_state, ts }),
        },
{
}

} // verus!
