//! Attaching to a node: its recorded stream from the beginning, what follows it, and its pane.
//!
//! An attach goes through five steps, each of which takes what the outside said to the one before:
//! the node is found, its stream is opened, a versioned pane replay is reserved, the recorded events
//! are sent, and only then is the reader parked and the pane handed over. Where a step before the last
//! refuses, nothing has moved but the panes that had expired.
use vstd::prelude::*;

use crate::cache::PaneEntry;
use crate::display;
use crate::display::{Attached, HostFacts, PaneAttach, PaneReady, PaneReplayReservationError};
use crate::error;
use crate::error::{ErrorText, FailureKind, RpcError};
use crate::model;
use crate::model::{
    AgentId, AgentTypes, ConnId, HostId, NodeState, ReapState, Registry, ReplayPoint,
};
use crate::panes::Panes;
use crate::project;
use crate::project::{summarize, NodeSummary, SummaryText};
use crate::text;
use crate::text::{cat3, cat5, decimal_text};
use crate::tree::{Following, Shared, SharedModel};

verus! {

/// What an attach gets of a node's stream.
#[derive(Debug, Clone, Copy, PartialEq, Eq, Structural)]
pub enum AttachMode {
    /// The node is live: what it says next follows the recorded events.
    ResubscribeFrom(ReplayPoint),
    /// The node has ended: there is only the record.
    ReplayOnly(ReplayPoint),
    /// Nobody holds the node's channel, and it can be brought back.
    ReplayResumable(ReplayPoint),
}

impl AttachMode {
    /// How much of the stream has been sent.
    pub open spec fn point(self) -> ReplayPoint {
        match self {
            AttachMode::ResubscribeFrom(p) => p,
            AttachMode::ReplayOnly(p) => p,
            AttachMode::ReplayResumable(p) => p,
        }
    }

    /// [`Self::point`], as a value.
    pub fn replay_point(&self) -> (p: ReplayPoint)
        ensures
            p == self.point(),
    {
        match self {
            AttachMode::ResubscribeFrom(p) => *p,
            AttachMode::ReplayOnly(p) => *p,
            AttachMode::ReplayResumable(p) => *p,
        }
    }

    /// Whether live events follow.
    pub fn is_live(&self) -> (r: bool)
        ensures
            r == (*self is ResubscribeFrom),
    {
        match self {
            AttachMode::ResubscribeFrom(_) => true,
            _ => false,
        }
    }
}

/// The answer for a node in this state. Who holds the channel is asked before whether the node has
/// ended: a reaped or orphaned node that also shows an exit can still be brought back.
pub open spec fn mode_of(state: NodeState, reap_state: ReapState, point: ReplayPoint) -> AttachMode {
    if reap_state != ReapState::Live {
        AttachMode::ReplayResumable(point)
    } else if state is Exited {
        AttachMode::ReplayOnly(point)
    } else {
        AttachMode::ResubscribeFrom(point)
    }
}

/// [`mode_of`], as a value.
pub fn attach_mode(state: NodeState, reap_state: ReapState, point: ReplayPoint) -> (m: AttachMode)
    ensures
        m == mode_of(state, reap_state, point),
{
    if reap_state != ReapState::Live {
        AttachMode::ReplayResumable(point)
    } else if state.is_exited() {
        AttachMode::ReplayOnly(point)
    } else {
        AttachMode::ResubscribeFrom(point)
    }
}

/// Said of a node the journal does not record, around its id and the number of records read.
pub const NO_STREAM: (&'static str, &'static str, &'static str) = (
    "this project's journal records no node `",
    "`, so there is no stream to attach to. The registry is current as of ",
    " records read; a node spawned by another process appears here once its `SpawnIntent` is on disk \
    (§6.1 step 7).",
);

/// Said where the project's directory is not known, around the node's id.
pub const NO_PROJECT: (&'static str, &'static str) = (
    "the supervisor cannot work out which project directory node `",
    "`'s stream lives under: its registry was booted over a journal path with no `<state>/<hash>/` \
    above it. This is a misconfigured supervisor, not a missing node.",
);

/// Said where a stream could not be read, around the node's id, the file and the reason.
pub const UNREADABLE: (&'static str, &'static str, &'static str, &'static str) = (
    "node `",
    "`'s event stream at ",
    " could not be read: ",
    ". A missing file is not this case — that is a node marion never recorded, and it is reported as \
    such.",
);

/// Said of a node that ended unrecorded, around its id and the file.
pub const UNRECORDED: (&'static str, &'static str, &'static str) = (
    "node `",
    "` has exited and marion has no `",
    "` for it, so there is nothing to replay and nothing more will be written. This is **not** an \
    empty transcript: it is a node whose stream was never recorded — the recorder could not open the \
    file, or this node ran under a build that did not record one (§4.1). Reporting it as a node that \
    said nothing would be a claim marion cannot make.",
);

/// Said where the connection went away during the replay, around the node's id.
pub const CLOSED_DURING_REPLAY: (&'static str, &'static str) = (
    "node `",
    "`'s attach connection closed while its durable event prefix was queued; the pane reservation \
    and write lease were rolled back",
);

/// A stream could not be read.
pub open spec fn stream_unreadable(
    id: Seq<char>,
    path: Seq<char>,
    why: Seq<char>,
) -> ErrorText {
    error::internal_text(
        UNREADABLE.0@ + id + UNREADABLE.1@ + path + UNREADABLE.2@ + why + UNREADABLE.3@,
    )
}

/// A node ended and its stream was never recorded.
pub open spec fn never_recorded(id: Seq<char>, path: Seq<char>) -> ErrorText {
    error::error_text(
        FailureKind::NotFound,
        id,
        UNRECORDED.0@ + id + UNRECORDED.1@ + path + UNRECORDED.2@,
        "§7.3.3"@,
    )
}

/// The connection went away during the replay.
pub open spec fn closed_during_replay(id: Seq<char>) -> ErrorText {
    error::internal_text(CLOSED_DURING_REPLAY.0@ + id + CLOSED_DURING_REPLAY.1@)
}

/// [`stream_unreadable`], as an answer.
pub fn attach_io_failure(id: &AgentId, path: &str, why: &str) -> (e: RpcError)
    ensures
        e@ == stream_unreadable(id@, path@, why@),
{
    let mut message = cat5(UNREADABLE.0, id.0.as_str(), UNREADABLE.1, path, UNREADABLE.2);
    message.append(why);
    message.append(UNREADABLE.3);
    RpcError::internal(message)
}

/// A node that can be attached to.
#[derive(Debug)]
pub struct AttachTarget {
    pub agent_id: AgentId,
    pub summary: NodeSummary,
    pub state: NodeState,
    pub reap_state: ReapState,
    /// The directory its stream is under.
    pub project: String,
}

/// Why there is nothing to attach to, where there is not.
pub open spec fn target_refusal(reg: Registry, builtins: AgentTypes, id: Seq<char>) -> Option<
    ErrorText,
> {
    match reg.node(id) {
        None => Some(
            error::error_text(
                FailureKind::NotFound,
                id,
                NO_STREAM.0@ + id + NO_STREAM.1@ + text::decimal(reg.read_point.records as nat)
                    + NO_STREAM.2@,
                "§3.2"@,
            ),
        ),
        Some(node) => match project::projection(node, builtins, false) {
            Err(m) => Some(project::missing_error(m, id)),
            Ok(_) => match reg.project {
                None => Some(error::internal_text(NO_PROJECT.0@ + id + NO_PROJECT.1@)),
                Some(_) => None,
            },
        },
    }
}

/// Find the node an attach is for.
pub fn node_attach(reg: &Registry, builtins: &AgentTypes, id: &AgentId) -> (r: Result<
    AttachTarget,
    RpcError,
>)
    ensures
        match target_refusal(*reg, *builtins, id@) {
            Some(t) => r matches Err(e) && e@ == t,
            None => {
                let node = reg.node(id@)->0;
                &&& r matches Ok(t)
                &&& t.agent_id@ == id@
                &&& Ok::<SummaryText, project::Missing>(t.summary@) == project::projection(
                    node,
                    *builtins,
                    false,
                )
                &&& t.state == node.state
                &&& t.reap_state == node.reap_state
                &&& Some(t.project) == reg.project
            },
        },
{
    let node = match reg.get(id) {
        Some(node) => node,
        None => {
            let records = decimal_text(reg.read_point.records);
            let message = cat5(
                NO_STREAM.0,
                id.0.as_str(),
                NO_STREAM.1,
                records.as_str(),
                NO_STREAM.2,
            );
            return Err(RpcError::not_found(id.0.as_str(), message, "§3.2"));
        },
    };
    let summary = match summarize(node, builtins, false) {
        Ok(s) => s,
        Err(e) => {
            return Err(e.as_error(id));
        },
    };
    match &reg.project {
        None => Err(RpcError::internal(cat3(NO_PROJECT.0, id.0.as_str(), NO_PROJECT.1))),
        Some(project) => Ok(
            AttachTarget {
                agent_id: id.clone(),
                summary,
                state: node.state,
                reap_state: node.reap_state,
                project: project.clone(),
            },
        ),
    }
}

/// What opening a node's stream said.
#[derive(Debug, Clone, Copy, PartialEq, Eq, Structural)]
pub struct StreamFacts {
    /// The reader, which keeps its own place in the stream.
    pub reader: u64,
    /// The file has been there.
    pub ever_written: bool,
    /// Where the reader stands: everything before it was read with the opening.
    pub read_point: ReplayPoint,
}

/// A node whose stream is open.
#[derive(Debug)]
pub struct Opened {
    pub agent_id: AgentId,
    pub summary: NodeSummary,
    pub mode: AttachMode,
    pub reader: u64,
    /// What the stream held when it was opened, which is what the client is sent.
    pub replayed: Vec<StreamEvent>,
}

impl AttachTarget {
    /// Take what opening the stream at `path` said, and the events it held. A node that ended with no stream is not a node
    /// that said nothing.
    pub fn opened(
        self,
        path: &str,
        stream: Result<(StreamFacts, Vec<StreamEvent>), String>,
    ) -> (r: Result<Opened, RpcError>)
        ensures
            match stream {
                Err(why) => r matches Err(e) && e@ == stream_unreadable(
                    self.agent_id@,
                    path@,
                    why@,
                ),
                Ok((s, events)) => if !s.ever_written && self.state is Exited {
                    r matches Err(e) && e@ == never_recorded(self.agent_id@, path@)
                } else {
                    r == Ok::<Opened, RpcError>(
                        Opened {
                            agent_id: self.agent_id,
                            summary: self.summary,
                            mode: mode_of(self.state, self.reap_state, s.read_point),
                            reader: s.reader,
                            replayed: events,
                        },
                    )
                },
            },
    {
        let (s, replayed) = match stream {
            Ok(read) => read,
            Err(why) => {
                return Err(attach_io_failure(&self.agent_id, path, why.as_str()));
            },
        };
        if !s.ever_written && self.state.is_exited() {
            let message = cat5(
                UNRECORDED.0,
                self.agent_id.0.as_str(),
                UNRECORDED.1,
                path,
                UNRECORDED.2,
            );
            return Err(RpcError::not_found(self.agent_id.0.as_str(), message, "§7.3.3"));
        }
        let mode = attach_mode(self.state, self.reap_state, s.read_point);
        Ok(
            Opened {
                agent_id: self.agent_id,
                summary: self.summary,
                mode,
                reader: s.reader,
                replayed,
            },
        )
    }
}

/// A node whose pane replay is reserved, where it has one and it was asked for.
#[derive(Debug)]
pub struct Reserved {
    pub opened: Opened,
    /// A versioned pane stream was asked for.
    pub pane_stream_v1: bool,
    pub pane: Option<Attached>,
}

impl Opened {
    /// Reserve the pane's exact replay, where a versioned stream was asked for; it is never
    /// replaced by the lossy one. What has expired goes first and comes back to be retired. `facts`
    /// and `reservation` are those of the host that [`Panes::replay_target`] gives.
    pub fn reserve(
        self,
        panes: &mut Panes,
        conn: ConnId,
        pane_stream_v1: bool,
        facts: HostFacts,
        reservation: Result<PaneReady, PaneReplayReservationError>,
        now: u64,
    ) -> (r: (Vec<HostId>, Result<Reserved, RpcError>))
        requires
            old(panes).wf(),
        ensures
            final(panes).wf(),
            r.1 matches Ok(v) ==> v.opened == self && v.pane_stream_v1 == pane_stream_v1,
            !pane_stream_v1 ==> {
                &&& r.0@ == Seq::<HostId>::empty()
                &&& r.1 matches Ok(v)
                &&& v.pane is None
                &&& final(panes)@ == old(panes)@
            },
            pane_stream_v1 ==> {
                &&& r.0@ == old(panes)@.pruned_hosts(now)
                &&& old(panes)@.pruned(now).attaches_v1(
                    self.agent_id@,
                    conn,
                    facts,
                    reservation,
                    final(panes)@,
                    match r.1 {
                        Ok(v) => Ok(v.pane),
                        Err(e) => Err(e),
                    },
                )
            },
    {
        if !pane_stream_v1 {
            return (Vec::new(), Ok(Reserved { opened: self, pane_stream_v1, pane: None }));
        }
        let (retired, attached) = panes.attach_pane_v1(
            &self.agent_id,
            conn,
            facts,
            reservation,
            now,
        );
        match attached {
            Ok(pane) => (retired, Ok(Reserved { opened: self, pane_stream_v1, pane })),
            Err(e) => (retired, Err(e)),
        }
    }
}

/// A node whose recorded events have been sent.
#[derive(Debug)]
pub struct Sent {
    pub opened: Opened,
    pub pane_stream_v1: bool,
    pub pane: Option<PaneAttach>,
}

impl Reserved {
    /// What the client is sent of the recorded stream: all of it, in order.
    pub fn replay(&self) -> (out: Vec<NodeEvent>)
        ensures
            are_sent_as(out@, self.opened.agent_id@, self.opened.replayed@),
    {
        deliver_events(&self.opened.agent_id, &self.opened.replayed)
    }

    /// Take whether the connection took what [`Self::replay`] gives. Where it did not, what was
    /// reserved is undone; where it did, the reservation is committed, or undone and refused because
    /// the pane has changed hands. The writer slots that are free again come back. `writer` and
    /// `pending` are the reserved host's.
    pub fn sent(
        self,
        panes: &mut Panes,
        conn: ConnId,
        took: bool,
        writer: Option<ConnId>,
        pending: bool,
    ) -> (r: (Result<Sent, RpcError>, Vec<(ConnId, HostId)>))
        requires
            old(panes).wf(),
        ensures
            final(panes).wf(),
            ({
                let id = self.opened.agent_id@;
                match self.pane {
                    None => {
                        &&& final(panes)@ == old(panes)@
                        &&& r.1@ == Seq::<(ConnId, HostId)>::empty()
                        &&& if took {
                            r.0 == Ok::<Sent, RpcError>(
                                Sent {
                                    opened: self.opened,
                                    pane_stream_v1: self.pane_stream_v1,
                                    pane: None,
                                },
                            )
                        } else {
                            r.0 matches Err(e) && e@ == closed_during_replay(id)
                        }
                    },
                    Some(a) => {
                        let (same, half) = old(panes)@.reservation(id, conn, a.host, writer);
                        if took && same && pending {
                            &&& final(panes)@ == old(panes)@
                            &&& r.1@ == Seq::<(ConnId, HostId)>::empty()
                            &&& r.0 matches Ok(s)
                            &&& s.opened == self.opened
                            &&& s.pane_stream_v1 == self.pane_stream_v1
                            &&& s.pane matches Some(pane)
                            &&& (pane.writable, pane.held_by, pane.ended) == half.fields()
                            &&& pane.cols == a.pane.cols
                            &&& pane.rows == a.pane.rows
                            &&& pane.pane_ready == a.pane.pane_ready
                        } else {
                            &&& final(panes)@ == old(panes)@.rolled_back(id, conn, a.host)
                            &&& r.1@ == old(panes)@.freed_by_rollback(id, conn, a.host)
                            &&& r.0 matches Err(e)
                            &&& e@ == (if took {
                                display::generation_changed(id)
                            } else {
                                closed_during_replay(id)
                            })
                        }
                    },
                }
            }),
    {
        let id = &self.opened.agent_id;
        if !took {
            let freed = match &self.pane {
                Some(a) => panes.rollback_pane_attach(id, conn, a.host),
                None => Vec::new(),
            };
            let message = cat3(CLOSED_DURING_REPLAY.0, id.0.as_str(), CLOSED_DURING_REPLAY.1);
            return (Err(RpcError::internal(message)), freed);
        }
        let pane = match self.pane {
            None => None,
            Some(a) => {
                let mut pane = a.pane;
                let (committed, freed) = panes.commit_pane_v1_reservation(
                    id,
                    conn,
                    &mut pane,
                    a.host,
                    writer,
                    pending,
                );
                match committed {
                    Ok(_) => {},
                    Err(e) => {
                        return (Err(e), freed);
                    },
                }
                Some(pane)
            },
        };
        (
            Ok(Sent { opened: self.opened, pane_stream_v1: self.pane_stream_v1, pane }),
            Vec::new(),
        )
    }
}

/// What an attach answers with.
#[derive(Debug)]
pub struct NodeAttachResult {
    pub node: NodeSummary,
    pub mode: AttachMode,
    pub pane: Option<PaneAttach>,
}

impl Sent {
    /// Park the reader and hand the pane over: the reserved one, or the live one where no versioned
    /// stream was asked for. Then what has expired goes first and comes back to be retired. The
    /// summary says whether there is a pane. `facts` are the live host's.
    pub fn finish(
        self,
        shared: &mut Shared,
        panes: &mut Panes,
        conn: ConnId,
        facts: HostFacts,
        now: u64,
    ) -> (r: (Vec<HostId>, NodeAttachResult))
        requires
            old(shared).wf(),
            old(panes).wf(),
        ensures
            final(shared).wf(),
            final(panes).wf(),
            final(shared)@ == (SharedModel {
                attached: old(shared)@.attached.push(
                    Following {
                        conn,
                        agent: self.opened.agent_id@,
                        reader: self.opened.reader,
                    },
                ),
                ..old(shared)@
            }),
            r.1.mode == self.opened.mode,
            r.1.node@ == (SummaryText { pane: r.1.pane is Some, ..self.opened.summary@ }),
            self.pane_stream_v1 ==> {
                &&& r.0@ == Seq::<HostId>::empty()
                &&& r.1.pane == self.pane
                &&& final(panes)@ == old(panes)@
            },
            !self.pane_stream_v1 ==> {
                &&& r.0@ == old(panes)@.pruned_hosts(now)
                &&& match old(panes)@.pruned(now).entry(self.opened.agent_id@) {
                    Some(PaneEntry::Live(host)) => {
                        let (after, half, _) = old(panes)@.pruned(now).attached_live(
                            self.opened.agent_id@,
                            conn,
                            host,
                            facts,
                        );
                        &&& final(panes)@ == after
                        &&& r.1.pane matches Some(pane)
                        &&& pane.tells(half, facts)
                        &&& pane.pane_ready is None
                    },
                    _ => r.1.pane is None && final(panes)@ == old(panes)@.pruned(now),
                }
            },
    {
        let id = self.opened.agent_id;
        let mut node = self.opened.summary;
        shared.attach(conn, id.clone(), self.opened.reader);
        let (retired, pane) = if self.pane_stream_v1 {
            (Vec::new(), self.pane)
        } else {
            let (retired, attached) = panes.attach_pane(&id, conn, facts, now);
            let pane = match attached {
                Some(a) => Some(a.pane),
                None => None,
            };
            (retired, pane)
        };
        node.pane = pane.is_some();
        (retired, NodeAttachResult { node, mode: self.opened.mode, pane })
    }
}

/// What `serde_json` writes for a string with this contents.
pub uninterp spec fn json_string(s: Seq<char>) -> Seq<char>;

/// `serde_json::Value::from` and its `Display`: the text as a JSON string, quoted and escaped. What
/// it writes depends on the text alone; how it escapes is left to the crate.
#[verifier::external_body]
fn json_string_text(s: &str) -> (r: String)
    ensures
        r@ == json_string(s@),
{
    serde_json::Value::from(s).to_string()
}

/// Around the reason a payload could not be encoded.
pub const UNENCODABLE: (&'static str, &'static str) = ("{\"marion_unencodable\":", "}");

/// The payload sent in place of one that could not be encoded, from the reason as a JSON string: a
/// client must be able to tell it from a node that said nothing.
pub fn unencodable_payload(reason_json: &str) -> (s: String)
    ensures
        s@ == UNENCODABLE.0@ + reason_json@ + UNENCODABLE.1@,
{
    cat3(UNENCODABLE.0, reason_json, UNENCODABLE.1)
}

/// One event of a node, as its stream has it.
#[derive(Debug)]
pub struct StreamEvent {
    pub agent_seq: u64,
    /// The writer's own time, in milliseconds since the epoch.
    pub ts: u64,
    pub provenance: String,
    pub src_seq: Option<String>,
    /// The payload as JSON, or why it could not be encoded.
    pub payload: Result<String, String>,
}

/// One event of a node, as a client is sent it.
#[derive(Debug)]
pub struct NodeEvent {
    pub agent_id: AgentId,
    pub agent_seq: u64,
    pub ts: u64,
    pub provenance: String,
    pub src_seq: Option<String>,
    pub payload: String,
}

/// `n` is `e` as a client is sent it: everything comes off the event, and nothing from the moment of
/// delivery.
pub open spec fn is_sent_as(n: NodeEvent, id: Seq<char>, e: StreamEvent) -> bool {
    &&& n.agent_id@ == id
    &&& n.agent_seq == e.agent_seq
    &&& n.ts == e.ts
    &&& n.provenance == e.provenance
    &&& n.src_seq == e.src_seq
    &&& n.payload@ == (match e.payload {
        Ok(json) => json@,
        Err(why) => UNENCODABLE.0@ + json_string(why@) + UNENCODABLE.1@,
    })
}

/// `out` is `events` as a client is sent them: each once, in order.
pub open spec fn are_sent_as(out: Seq<NodeEvent>, id: Seq<char>, events: Seq<StreamEvent>) -> bool {
    &&& out.len() == events.len()
    &&& forall|i: int| 0 <= i < events.len() ==> is_sent_as(#[trigger] out[i], id, events[i])
}

/// The notifications a run of a node's events is sent as, in order.
pub fn deliver_events(agent_id: &AgentId, events: &Vec<StreamEvent>) -> (out: Vec<NodeEvent>)
    ensures
        are_sent_as(out@, agent_id@, events@),
{
    let mut out: Vec<NodeEvent> = Vec::new();
    let mut i: usize = 0;
    while i < events.len()
        invariant
            i <= events.len(),
            out@.len() == i,
            forall|j: int|
                0 <= j < i ==> is_sent_as(#[trigger] out@[j], agent_id@, events@[j]),
        decreases events.len() - i,
    {
        let e = &events[i];
        let payload = match &e.payload {
            Ok(json) => json.clone(),
            Err(why) => {
                let reason = json_string_text(why.as_str());
                unencodable_payload(reason.as_str())
            },
        };
        out.push(
            NodeEvent {
                agent_id: agent_id.clone(),
                agent_seq: e.agent_seq,
                ts: e.ts,
                provenance: e.provenance.clone(),
                src_seq: e.src_seq.clone(),
                payload,
            },
        );
        i = i + 1;
    }
    out
}

/// Live events are promised exactly for a node whose channel is held here and that has not ended,
/// and the read point is the stream's own in every answer.
pub proof fn law_live_events_follow_only_for_a_node_held_here(
    state: NodeState,
    reap_state: ReapState,
    point: ReplayPoint,
)
    ensures
        (mode_of(state, reap_state, point) is ResubscribeFrom) == (reap_state == ReapState::Live
            && !(state is Exited)),
        (mode_of(state, reap_state, point) is ReplayResumable) == (reap_state != ReapState::Live),
        mode_of(state, reap_state, point).point() == point,
{
}

/// An attach replays a stream and then follows it, with nothing missing and nothing twice: the read
/// point that is answered counts what has been sent, and what is sent later begins right after it.
/// `stream` is what the node has said so far. The reader's part is that its opening read everything
/// before its point and a later poll everything from there on.
pub proof fn law_an_attach_leaves_no_gap_and_repeats_nothing(
    target: AttachTarget,
    opened: Opened,
    facts: StreamFacts,
    stream: Seq<StreamEvent>,
    sent: Seq<NodeEvent>,
    later: Seq<NodeEvent>,
)
    requires
        facts.read_point.records <= stream.len(),
        opened.replayed@ == stream.take(facts.read_point.records as int),
        opened.mode == mode_of(target.state, target.reap_state, facts.read_point),
        are_sent_as(sent, opened.agent_id@, opened.replayed@),
        are_sent_as(
            later,
            opened.agent_id@,
            stream.skip(facts.read_point.records as int),
        ),
    ensures
        opened.mode.point().records == sent.len(),
        are_sent_as(sent + later, opened.agent_id@, stream),
        forall|i: int|
            0 <= i < stream.len() ==> (#[trigger] (sent + later)[i]).agent_seq
                == stream[i].agent_seq && (sent + later)[i].ts == stream[i].ts,
{
    let k = facts.read_point.records as int;
    let all = sent + later;
    assert forall|i: int| 0 <= i < stream.len() implies is_sent_as(
        #[trigger] all[i],
        opened.agent_id@,
        stream[i],
    ) by {
        if i < k {
            assert(all[i] == sent[i]);
            assert(opened.replayed@[i] == stream[i]);
        } else {
            assert(all[i] == later[i - k]);
            assert(stream.skip(k)[i - k] == stream[i]);
        }
    }
}

/// A node can be attached to exactly where the journal records it, it can be described, and the
/// supervisor knows which project its stream is under; in whatever state it is.
pub proof fn law_a_node_can_be_attached_to_where_it_is_known(
    reg: Registry,
    builtins: AgentTypes,
    id: Seq<char>,
)
    ensures
        (forall|i: int| 0 <= i < reg.nodes@.len() ==> (#[trigger] reg.nodes@[i]).agent_id@ != id)
            ==> target_refusal(reg, builtins, id) is Some && target_refusal(
            reg,
            builtins,
            id,
        )->0.kind == FailureKind::NotFound && target_refusal(reg, builtins, id)->0.subject == Some(
            id,
        ),
        forall|i: int| #[trigger]
            model::is_first_of(reg.nodes@, id, i) ==> {
                let described = project::projection(reg.nodes@[i], builtins, false);
                &&& target_refusal(reg, builtins, id) is None <==> described is Ok
                    && reg.project is Some
                &&& described is Err ==> target_refusal(reg, builtins, id) == Some(
                    project::missing_error(described->Err_0, id),
                )
            },
{
    model::law_a_node_is_found_by_its_id(reg, id);
}

/// What a client is sent of an event is the event: its node, its place, its own time, where it came
/// from, and its payload as it was recorded; only a payload that could not be encoded is replaced, by
/// one that says so.
pub proof fn law_an_event_is_sent_as_it_was_recorded(n: NodeEvent, id: Seq<char>, e: StreamEvent)
    requires
        is_sent_as(n, id, e),
    ensures
        n.agent_id@ == id,
        n.agent_seq == e.agent_seq,
        n.ts == e.ts,
        n.provenance == e.provenance,
        n.src_seq == e.src_seq,
        e.payload is Ok ==> n.payload@ == e.payload->Ok_0@,
        e.payload is Err ==> n.payload@ == "{\"marion_unencodable\":"@ + json_string(
            e.payload->Err_0@,
        ) + "}"@,
{
}

/// A stream that cannot be read and a connection that went are the supervisor's own faults; one that
/// was never recorded is not found, and is about the node that was asked for.
pub proof fn law_each_way_a_replay_fails_is_told_apart(
    id: Seq<char>,
    path: Seq<char>,
    why: Seq<char>,
)
    ensures
        stream_unreadable(id, path, why).kind == FailureKind::Internal,
        closed_during_replay(id).kind == FailureKind::Internal,
        never_recorded(id, path).kind == FailureKind::NotFound,
        never_recorded(id, path).subject == Some(id),
{
}

/// How much of the stream was sent is the same whichever way the node is attached to.
pub proof fn law_an_attach_says_how_much_was_sent(
    state: NodeState,
    reap_state: ReapState,
    point: ReplayPoint,
)
    ensures
        mode_of(state, reap_state, point).point() == point,
        mode_of(state, reap_state, point) is ResubscribeFrom <==> reap_state == ReapState::Live
            && !(state is Exited),
        mode_of(state, reap_state, point) is ReplayOnly <==> reap_state == ReapState::Live
            && state is Exited,
        mode_of(state, reap_state, point) is ReplayResumable <==> reap_state != ReapState::Live,
{
}

} // verus!
