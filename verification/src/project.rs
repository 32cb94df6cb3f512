//! Describing a node to a client, or saying which fact is missing.
//!
//! A summary is only what the journal says and what the node's agent type says. Nothing is filled
//! in: a node the journal has no identity for cannot be described, and that is the answer.
use vstd::prelude::*;

use crate::error;
use crate::error::{ErrorText, FailureKind, RpcError};
use crate::model;
use crate::model::{
    AgentId, AgentTypes, Harness, NodeState, ReapState, Registry, ReplayedNode, ReplayPoint,
};
use crate::text;
use crate::text::{cat3, cat5, decimal_text};

verus! {

/// Why a node the journal knows about cannot be described to a client.
#[derive(Debug)]
pub enum Unprojectable {
    /// The journal has records about this node and no identity for it.
    NoIntent,
    /// The journal names an agent type this build does not have and records no bound, so the
    /// node's timeout cannot be resolved from anywhere.
    UnknownAgentType(String),
    /// A depth a summary cannot hold. A saturated one would place the node somewhere it is not.
    DepthOutOfRange(u32),
}

/// Why a node cannot be described, as contracts speak of it.
pub enum Missing {
    NoIntent,
    UnknownAgentType(Seq<char>),
    DepthOutOfRange(u32),
}

impl View for Unprojectable {
    type V = Missing;

    open spec fn view(&self) -> Missing {
        match *self {
            Unprojectable::NoIntent => Missing::NoIntent,
            Unprojectable::UnknownAgentType(t) => Missing::UnknownAgentType(t@),
            Unprojectable::DepthOutOfRange(d) => Missing::DepthOutOfRange(d),
        }
    }
}

/// Said of a node with no intent.
pub const NO_INTENT: &'static str = "the journal has records about this node but no `SpawnIntent` \
    for it, so marion does not know its agent type, its harness, its parent or its depth. Replay \
    reports that absence rather than filling it in, and this call will not invent one (§4.2, §7.4).";

/// Said of a node of an unknown type, before and after the type.
pub const UNKNOWN_TYPE: (&'static str, &'static str) = (
    "this node is recorded as agent type `",
    "`, which this build of marion does not have. §3.1 makes the agent type the source of its \
    timeout bound and §9 re-resolves that bound from the type rather than from a copy, so marion \
    cannot describe the node without it.",
);

/// Said of a node at an impossible depth, before and after the depth.
pub const BAD_DEPTH: (&'static str, &'static str) = (
    "this node is recorded at depth ",
    ", which is not a depth a tree marion built can reach (§6.1's default max_depth is 3). Reporting \
    a saturated depth would place the node somewhere it is not.",
);

/// The refusal a client sees about the node `agent`.
pub open spec fn missing_error(m: Missing, agent: Seq<char>) -> ErrorText {
    match m {
        Missing::NoIntent => error::error_text(FailureKind::Internal, agent, NO_INTENT@, "§4.2"@),
        Missing::UnknownAgentType(t) => error::error_text(
            FailureKind::NotFound,
            t,
            UNKNOWN_TYPE.0@ + t + UNKNOWN_TYPE.1@,
            "§3.1"@,
        ),
        Missing::DepthOutOfRange(d) => error::error_text(
            FailureKind::Internal,
            agent,
            BAD_DEPTH.0@ + text::decimal(d as nat) + BAD_DEPTH.1@,
            "§6.1"@,
        ),
    }
}

impl Unprojectable {
    /// The refusal a client sees, with the citation for the fact that is missing.
    pub fn as_error(&self, agent: &AgentId) -> (e: RpcError)
        ensures
            e@ == missing_error(self@, agent@),
    {
        match self {
            Unprojectable::NoIntent => RpcError::about(
                FailureKind::Internal,
                agent.0.as_str(),
                NO_INTENT.to_string(),
                "§4.2",
            ),
            Unprojectable::UnknownAgentType(t) => RpcError::not_found(
                t.as_str(),
                cat3(UNKNOWN_TYPE.0, t.as_str(), UNKNOWN_TYPE.1),
                "§3.1",
            ),
            Unprojectable::DepthOutOfRange(d) => {
                let depth = decimal_text(*d as u64);
                RpcError::about(
                    FailureKind::Internal,
                    agent.0.as_str(),
                    cat3(BAD_DEPTH.0, depth.as_str(), BAD_DEPTH.1),
                    "§6.1",
                )
            },
        }
    }
}

/// A node, as a client is told about it.
#[derive(Debug)]
pub struct NodeSummary {
    pub agent_id: AgentId,
    pub parent_id: Option<AgentId>,
    /// Nothing names a node yet.
    pub name: Option<String>,
    pub agent_type: String,
    pub harness: Harness,
    /// `None` until a process exists.
    pub harness_version: Option<String>,
    pub depth: u8,
    pub state: NodeState,
    pub reap_state: ReapState,
    /// The bound the node runs under, in seconds.
    pub timeout_secs: u64,
    /// The node has a live display plane.
    pub pane: bool,
}

/// A summary, as contracts speak of it.
pub struct SummaryText {
    pub agent: Seq<char>,
    pub parent: Option<Seq<char>>,
    pub name: Option<Seq<char>>,
    pub agent_type: Seq<char>,
    pub harness: Seq<char>,
    pub harness_version: Option<Seq<char>>,
    pub depth: int,
    pub state: NodeState,
    pub reap_state: ReapState,
    pub timeout_secs: u64,
    pub pane: bool,
}

impl View for NodeSummary {
    type V = SummaryText;

    open spec fn view(&self) -> SummaryText {
        SummaryText {
            agent: self.agent_id@,
            parent: match self.parent_id {
                Some(p) => Some(p@),
                None => None,
            },
            name: model::opt_text(self.name),
            agent_type: self.agent_type@,
            harness: self.harness@,
            harness_version: model::opt_text(self.harness_version),
            depth: self.depth as int,
            state: self.state,
            reap_state: self.reap_state,
            timeout_secs: self.timeout_secs,
            pane: self.pane,
        }
    }
}

/// A node described: its recorded bound, or its type's where the journal records none.
pub open spec fn projection(node: ReplayedNode, builtins: AgentTypes, pane: bool) -> Result<
    SummaryText,
    Missing,
> {
    match node.intent {
        None => Err(Missing::NoIntent),
        Some(intent) => {
            let ty = builtins.named(intent.agent_type@);
            if ty is None && intent.timeout_secs is None {
                Err(Missing::UnknownAgentType(intent.agent_type@))
            } else if intent.depth > u8::MAX {
                Err(Missing::DepthOutOfRange(intent.depth))
            } else {
                Ok(
                    SummaryText {
                        agent: node.agent_id@,
                        parent: node.parent(),
                        name: None,
                        agent_type: intent.agent_type@,
                        harness: intent.harness@,
                        harness_version: model::opt_text(node.harness_version),
                        depth: intent.depth as int,
                        state: node.state,
                        reap_state: node.reap_state,
                        timeout_secs: match intent.timeout_secs {
                            Some(secs) => secs,
                            None => ty->0.timeout_secs,
                        },
                        pane,
                    },
                )
            }
        },
    }
}

/// A node, projected for a client, or the reason it cannot be. `pane` is not a journal fact, so the
/// caller supplies it.
pub fn summarize(node: &ReplayedNode, builtins: &AgentTypes, pane: bool) -> (r: Result<
    NodeSummary,
    Unprojectable,
>)
    ensures
        match r {
            Ok(s) => projection(*node, *builtins, pane) == Ok::<SummaryText, Missing>(s@),
            Err(e) => projection(*node, *builtins, pane) == Err::<SummaryText, Missing>(e@),
        },
{
    let intent = match &node.intent {
        Some(intent) => intent,
        None => {
            return Err(Unprojectable::NoIntent);
        },
    };
    let timeout_secs: u64 = match (intent.timeout_secs, builtins.resolve(intent.agent_type.as_str())) {
        (Some(secs), _) => secs,
        (None, Some(ty)) => ty.timeout_secs,
        (None, None) => {
            return Err(Unprojectable::UnknownAgentType(intent.agent_type.clone()));
        },
    };
    if intent.depth > u8::MAX as u32 {
        return Err(Unprojectable::DepthOutOfRange(intent.depth));
    }
    Ok(
        NodeSummary {
            agent_id: node.agent_id.clone(),
            parent_id: intent.parent_id.clone(),
            name: None,
            agent_type: intent.agent_type.clone(),
            harness: intent.harness.clone(),
            harness_version: node.harness_version.clone(),
            depth: intent.depth as u8,
            state: node.state,
            reap_state: node.reap_state,
            timeout_secs,
            pane,
        },
    )
}

/// Said where the journal records no such node, around the id and the number of records read.
pub const NO_SUCH_NODE: (&'static str, &'static str, &'static str) = (
    "this project's journal records no node `",
    "`. The registry is current as of ",
    " records read; a node spawned by another process appears here once its `SpawnIntent` is on disk \
    (§6.1 step 7).",
);

/// The journal records no such node, and this is how far it was read.
pub open spec fn no_such_node(id: Seq<char>, records: u64) -> ErrorText {
    error::error_text(
        FailureKind::NotFound,
        id,
        NO_SUCH_NODE.0@ + id + NO_SUCH_NODE.1@ + text::decimal(records as nat) + NO_SUCH_NODE.2@,
        "§3.2"@,
    )
}

/// One node, described. The refusal says how much of the journal was read, because "no such node"
/// and "not yet" are different answers.
pub fn node_get(reg: &Registry, id: &AgentId, builtins: &AgentTypes, pane: bool) -> (r: Result<
    NodeSummary,
    RpcError,
>)
    ensures
        match reg.node(id@) {
            None => r matches Err(e) && e@ == no_such_node(id@, reg.read_point.records),
            Some(node) => match projection(node, *builtins, pane) {
                Ok(s) => r matches Ok(got) && got@ == s,
                Err(m) => r matches Err(e) && e@ == missing_error(m, id@),
            },
        },
{
    match reg.get(id) {
        None => {
            let records = decimal_text(reg.read_point.records);
            let message = cat5(
                NO_SUCH_NODE.0,
                id.0.as_str(),
                NO_SUCH_NODE.1,
                records.as_str(),
                NO_SUCH_NODE.2,
            );
            Err(RpcError::not_found(id.0.as_str(), message, "§3.2"))
        },
        Some(node) => match summarize(node, builtins, pane) {
            Ok(summary) => Ok(summary),
            Err(e) => Err(e.as_error(id)),
        },
    }
}

/// The read point the registry is currently serving.
pub fn read_point(reg: &Registry) -> (p: ReplayPoint)
    ensures
        p == reg.read_point,
{
    reg.read_point
}

/// A node is described exactly where the journal has its intent, its type is known or its own bound
/// is recorded, and its depth is one a summary can hold; what is missing is said, in this order.
pub proof fn law_a_node_is_described_where_it_can_be(
    node: ReplayedNode,
    builtins: AgentTypes,
    pane: bool,
)
    ensures
        ({
            let known = exists|i: int|
                0 <= i < builtins.rows@.len() && (#[trigger] builtins.rows@[i]).name@
                    == node.intent->0.agent_type@;
            let bounded = node.intent->0.timeout_secs is Some;
            match projection(node, builtins, pane) {
                Ok(_) => node.intent is Some && (known || bounded) && node.intent->0.depth <= 255,
                Err(Missing::NoIntent) => node.intent is None,
                Err(Missing::UnknownAgentType(t)) => {
                    &&& node.intent is Some
                    &&& !known && !bounded
                    &&& t == node.intent->0.agent_type@
                },
                Err(Missing::DepthOutOfRange(d)) => {
                    &&& node.intent is Some
                    &&& known || bounded
                    &&& d == node.intent->0.depth
                    &&& d > 255
                },
            }
        }),
        (projection(node, builtins, pane) is Ok) == (projection(node, builtins, !pane) is Ok),
        missing_error(Missing::NoIntent, node.agent_id@).kind == FailureKind::Internal,
        forall|t: Seq<char>|
            (#[trigger] missing_error(Missing::UnknownAgentType(t), node.agent_id@)).kind
                == FailureKind::NotFound && missing_error(
                Missing::UnknownAgentType(t),
                node.agent_id@,
            ).subject == Some(t),
        forall|d: u32|
            (#[trigger] missing_error(Missing::DepthOutOfRange(d), node.agent_id@)).kind
                == FailureKind::Internal,
{
    if node.intent is Some {
        model::law_a_type_is_found_by_its_name(builtins, node.intent->0.agent_type@);
    }
}

/// A description is the journal's own words: the recorded id, parent, type, harness, depth and
/// states, the recorded bound, or the first type of that name's where none is recorded, and whether
/// there is a pane.
pub proof fn law_a_description_is_the_journals(
    node: ReplayedNode,
    builtins: AgentTypes,
    pane: bool,
    ty: int,
)
    requires
        projection(node, builtins, pane) is Ok,
    ensures
        ({
            let s = projection(node, builtins, pane)->Ok_0;
            let intent = node.intent->0;
            &&& s.agent == node.agent_id@
            &&& intent.parent_id is None ==> s.parent is None
            &&& intent.parent_id is Some ==> s.parent == Some(intent.parent_id->0@)
            &&& s.name is None
            &&& s.agent_type == intent.agent_type@
            &&& s.harness == intent.harness@
            &&& node.harness_version is None ==> s.harness_version is None
            &&& node.harness_version is Some ==> s.harness_version == Some(
                node.harness_version->0@,
            )
            &&& s.depth == intent.depth
            &&& s.state == node.state
            &&& s.reap_state == node.reap_state
            &&& s.pane == pane
            &&& intent.timeout_secs is Some ==> s.timeout_secs == intent.timeout_secs->0
            &&& intent.timeout_secs is None && model::is_first_named(
                builtins.rows@,
                intent.agent_type@,
                ty,
            ) ==> s.timeout_secs == builtins.rows@[ty].timeout_secs
        }),
{
    model::law_a_type_is_found_by_its_name(builtins, node.intent->0.agent_type@);
}

/// A summary's text is the summary itself, field by field.
pub proof fn law_a_summary_says_what_it_holds(s: NodeSummary)
    ensures
        s@.agent == s.agent_id@,
        s.parent_id is Some ==> s@.parent == Some(s.parent_id->0@),
        s.parent_id is None ==> s@.parent is None,
        s@.agent_type == s.agent_type@,
        s@.harness == s.harness@,
        s@.depth == s.depth,
        s@.state == s.state,
        s@.reap_state == s.reap_state,
        s@.timeout_secs == s.timeout_secs,
        s@.pane == s.pane,
        s.name is None <==> s@.name is None,
        s.harness_version is Some ==> s@.harness_version == Some(s.harness_version->0@),
        s.harness_version is None ==> s@.harness_version is None,
{
}

/// A node nobody recorded is not found, and the answer is about the node that was asked for.
pub proof fn law_an_unrecorded_node_is_not_found(id: Seq<char>, records: u64)
    ensures
        no_such_node(id, records).kind == FailureKind::NotFound,
        no_such_node(id, records).subject == Some(id),
{
}

} // verus!
