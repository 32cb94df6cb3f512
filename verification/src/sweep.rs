//! Ending processes in an order a crash cannot confuse.
//!
//! For each target in turn the intent is journaled, then the process is signalled and seen dead,
//! then the confirmation is journaled. Each step waits for the one before it: nothing is signalled
//! before its intent is durable, and nothing is confirmed before its death was observed.
use vstd::prelude::*;

use crate::error;
use crate::error::{ErrorText, RpcError};
use crate::model::{AgentId, NodeState};
use crate::records::{Fact, RecordKind};
use crate::text::cat2;

verus! {

/// One process to end, and what is written about it.
#[derive(Debug)]
pub struct Target {
    pub agent_id: AgentId,
    pub was: NodeState,
    /// The process to signal; `None` where there is none.
    pub signal: Option<i32>,
    pub intent: RecordKind,
    pub confirmation: RecordKind,
    /// Said where the death could not be observed.
    pub unobserved: String,
}

/// One target, as contracts speak of it.
pub struct Aim {
    pub agent: Seq<char>,
    pub was: NodeState,
    pub signal: Option<i32>,
    pub intent: Fact,
    pub confirmation: Fact,
    pub unobserved: Seq<char>,
}

impl View for Target {
    type V = Aim;

    open spec fn view(&self) -> Aim {
        Aim {
            agent: self.agent_id@,
            was: self.was,
            signal: self.signal,
            intent: self.intent@,
            confirmation: self.confirmation@,
            unobserved: self.unobserved@,
        }
    }
}

/// The targets of a list, in order.
pub open spec fn aims(targets: Seq<Target>) -> Seq<Aim> {
    targets.map_values(|t: Target| t@)
}

/// What comes next for a target.
#[derive(Debug, Clone, Copy, PartialEq, Eq, Structural)]
pub enum Phase {
    Intent,
    Signal,
    Confirm,
}

/// What the sweep waits for.
#[derive(Debug)]
pub enum SweepAction<'a> {
    Append(&'a RecordKind),
    /// Signal the process and its tree, and wait for its death.
    Kill(i32),
}

/// What the sweep waits for, as contracts speak of it.
pub enum Step {
    Append(Fact),
    Kill(i32),
}

/// What came of it.
#[derive(Debug)]
pub enum SweepEvent {
    /// The record is durable, or this is why it is not.
    Appended(Result<(), String>),
    /// The death was observed, or it was not.
    Killed(bool),
}

/// A sweep, as contracts speak of it.
#[verifier::ext_equal]
pub struct SweepModel {
    pub aims: Seq<Aim>,
    pub next: int,
    pub phase: Phase,
}

impl SweepModel {
    /// What is waited for. `None` where every target is confirmed.
    pub open spec fn step(self) -> Option<Step> {
        if self.next >= self.aims.len() {
            None
        } else {
            Some(
                match self.phase {
                    Phase::Intent => Step::Append(self.aims[self.next].intent),
                    Phase::Signal => Step::Kill(self.aims[self.next].signal->0),
                    Phase::Confirm => Step::Append(self.aims[self.next].confirmation),
                },
            )
        }
    }

    /// The event answers what is waited for.
    pub open spec fn expects(self, e: SweepEvent) -> bool {
        match self.step() {
            None => false,
            Some(Step::Append(_)) => e is Appended,
            Some(Step::Kill(_)) => e is Killed,
        }
    }

    /// Where the event leads: one step further, or to an end of the sweep with this error.
    pub open spec fn after(self, e: SweepEvent) -> Result<SweepModel, ErrorText> {
        match (self.phase, e) {
            (Phase::Intent, SweepEvent::Appended(Err(why))) => Err(before_signal(why@)),
            (Phase::Intent, _) => Ok(
                SweepModel {
                    phase: if self.aims[self.next].signal is Some {
                        Phase::Signal
                    } else {
                        Phase::Confirm
                    },
                    ..self
                },
            ),
            (Phase::Signal, SweepEvent::Killed(false)) => Err(
                error::internal_text(self.aims[self.next].unobserved),
            ),
            (Phase::Signal, _) => Ok(SweepModel { phase: Phase::Confirm, ..self }),
            (Phase::Confirm, SweepEvent::Appended(Err(why))) => Err(after_signal(why@)),
            (Phase::Confirm, _) => Ok(
                SweepModel { next: self.next + 1, phase: Phase::Intent, ..self },
            ),
        }
    }
}

/// A sweep over `aims` that has not begun.
pub open spec fn started(aims: Seq<Aim>) -> SweepModel {
    SweepModel { aims, next: 0, phase: Phase::Intent }
}

/// Said where an intent could not be journaled, before the reason.
pub const BEFORE_SIGNAL: &'static str = "session/quit could not durably journal its intent, so it \
    refused before signalling the node: ";

/// Said where a confirmation could not be journaled, before the reason.
pub const AFTER_SIGNAL: &'static str = "session/quit changed a process but could not durably journal \
    its confirmation; its intent remains for restart recovery and the supervisor will not exit: ";

/// The intent could not be journaled, so nothing was signalled.
pub open spec fn before_signal(why: Seq<char>) -> ErrorText {
    error::internal_text(BEFORE_SIGNAL@ + why)
}

/// The confirmation could not be journaled; the intent stands.
pub open spec fn after_signal(why: Seq<char>) -> ErrorText {
    error::internal_text(AFTER_SIGNAL@ + why)
}

/// [`before_signal`], as an answer.
pub fn journal_failure_before_signal(why: &str) -> (e: RpcError)
    ensures
        e@ == before_signal(why@),
{
    RpcError::internal(cat2(BEFORE_SIGNAL, why))
}

/// [`after_signal`], as an answer.
pub fn journal_failure_after_signal(why: &str) -> (e: RpcError)
    ensures
        e@ == after_signal(why@),
{
    RpcError::internal(cat2(AFTER_SIGNAL, why))
}

/// Processes being ended, one after the other.
#[derive(Debug)]
pub struct Sweep {
    pub targets: Vec<Target>,
    /// How many are confirmed.
    pub next: usize,
    pub phase: Phase,
}

impl View for Sweep {
    type V = SweepModel;

    open spec fn view(&self) -> SweepModel {
        SweepModel { aims: aims(self.targets@), next: self.next as int, phase: self.phase }
    }
}

impl Sweep {
    /// A signal is only ahead of a target that has a process.
    pub open spec fn wf(&self) -> bool {
        &&& self.next <= self.targets.len()
        &&& self.next == self.targets.len() ==> self.phase == Phase::Intent
        &&& self.phase == Phase::Signal ==> self.targets@[self.next as int].signal is Some
    }

    /// Nothing has been written and nothing signalled.
    pub fn new(targets: Vec<Target>) -> (s: Self)
        ensures
            s.wf(),
            s@ == started(aims(targets@)),
    {
        Sweep { targets, next: 0, phase: Phase::Intent }
    }

    /// What is waited for. `None` where every target is confirmed.
    pub fn action(&self) -> (a: Option<SweepAction<'_>>)
        requires
            self.wf(),
        ensures
            match self@.step() {
                None => a is None,
                Some(Step::Append(fact)) => a matches Some(SweepAction::Append(kind)) && kind@
                    == fact,
                Some(Step::Kill(pid)) => a matches Some(SweepAction::Kill(p)) && p == pid,
            },
    {
        if self.next >= self.targets.len() {
            return None;
        }
        let target = &self.targets[self.next];
        assert(self@.aims[self.next as int] == target@);
        match self.phase {
            Phase::Intent => Some(SweepAction::Append(&target.intent)),
            Phase::Signal => match target.signal {
                Some(pid) => Some(SweepAction::Kill(pid)),
                None => None,
            },
            Phase::Confirm => Some(SweepAction::Append(&target.confirmation)),
        }
    }

    /// Take what came of the action. An error ends the sweep where it stands.
    pub fn step(&mut self, e: SweepEvent) -> (r: Result<(), RpcError>)
        requires
            old(self).wf(),
            old(self)@.expects(e),
        ensures
            final(self).wf(),
            match old(self)@.after(e) {
                Ok(after) => r is Ok && final(self)@ == after,
                Err(t) => {
                    &&& r matches Err(x)
                    &&& x@ == t
                    &&& final(self)@ == old(self)@
                },
            },
    {
        assert(self@.aims[self.next as int] == self.targets@[self.next as int]@);
        match self.phase {
            Phase::Intent => {
                if let SweepEvent::Appended(Err(why)) = e {
                    return Err(journal_failure_before_signal(why.as_str()));
                }
                self.phase = if self.targets[self.next].signal.is_some() {
                    Phase::Signal
                } else {
                    Phase::Confirm
                };
            },
            Phase::Signal => {
                if let SweepEvent::Killed(false) = e {
                    return Err(RpcError::internal(self.targets[self.next].unobserved.clone()));
                }
                self.phase = Phase::Confirm;
            },
            Phase::Confirm => {
                if let SweepEvent::Appended(Err(why)) = e {
                    return Err(journal_failure_after_signal(why.as_str()));
                }
                self.next = self.next + 1;
                self.phase = Phase::Intent;
            },
        }
        Ok(())
    }
}

/// Where a run of events leads; `None` where one of them was not waited for, or ended the sweep.
pub open spec fn run(s: SweepModel, events: Seq<SweepEvent>) -> Option<SweepModel>
    decreases events.len(),
{
    if events.len() == 0 {
        Some(s)
    } else if s.expects(events[0]) {
        match s.after(events[0]) {
            Ok(n) => run(n, events.skip(1)),
            Err(_) => None,
        }
    } else {
        None
    }
}

/// What was asked for on the way, in order.
pub open spec fn asked(s: SweepModel, events: Seq<SweepEvent>) -> Seq<Step>
    decreases events.len(),
{
    if events.len() == 0 {
        Seq::empty()
    } else {
        seq![s.step()->0] + asked(s.after(events[0])->Ok_0, events.skip(1))
    }
}

/// A process is signalled only once the intent to end it, and none other, is durable.
pub proof fn law_intent_precedes_signal(s: SweepModel, e: SweepEvent, n: SweepModel)
    requires
        0 <= s.next <= s.aims.len(),
        s.expects(e),
        s.after(e) == Ok::<SweepModel, ErrorText>(n),
        n.step() matches Some(Step::Kill(_)),
    ensures
        s.step() == Some(Step::Append(n.aims[n.next].intent)),
        e matches SweepEvent::Appended(Ok(_)),
        n.step() == Some(Step::Kill(n.aims[n.next].signal->0)),
        s.next == n.next,
        s.aims == n.aims,
{
}

/// A target with a process is confirmed only once its death was observed; one without only once its
/// intent is durable.
pub proof fn law_death_precedes_confirmation(s: SweepModel, e: SweepEvent, n: SweepModel)
    requires
        0 <= s.next <= s.aims.len(),
        s.phase == Phase::Signal ==> s.aims[s.next].signal is Some,
        s.expects(e),
        s.after(e) == Ok::<SweepModel, ErrorText>(n),
        n.phase == Phase::Confirm,
    ensures
        s.next == n.next,
        s.aims == n.aims,
        match n.aims[n.next].signal {
            Some(pid) => s.step() == Some(Step::Kill(pid)) && e == SweepEvent::Killed(true),
            None => s.step() == Some(Step::Append(n.aims[n.next].intent)) && e
                matches SweepEvent::Appended(Ok(_)),
        },
{
}

/// A sweep only ever counts a target as ended by a durable confirmation of that target.
pub proof fn law_only_a_durable_confirmation_counts(s: SweepModel, e: SweepEvent, n: SweepModel)
    requires
        0 <= s.next <= s.aims.len(),
        s.expects(e),
        s.after(e) == Ok::<SweepModel, ErrorText>(n),
        n.next != s.next,
    ensures
        n.next == s.next + 1,
        s.step() == Some(Step::Append(s.aims[s.next].confirmation)),
        e matches SweepEvent::Appended(Ok(_)),
{
}

/// An intent that could not be journaled, a death that was not seen and a confirmation that could not
/// be journaled each end the sweep as the supervisor's own fault, and it goes no further.
pub proof fn law_a_failure_ends_the_sweep(s: SweepModel, e: SweepEvent)
    requires
        s.expects(e),
    ensures
        s.after(e) is Err <==> (e matches SweepEvent::Appended(Err(_))) || e == SweepEvent::Killed(
            false,
        ),
        s.after(e) is Err ==> s.after(e)->Err_0.kind == error::FailureKind::Internal,
{
}

/// What a sweep aims at is its targets themselves, one by one in their order: whom, what it was doing,
/// which process, and what is written before and after.
pub proof fn law_a_sweep_aims_at_its_targets(s: Sweep, i: int)
    requires
        0 <= i < s.targets@.len(),
    ensures
        s@.aims.len() == s.targets@.len(),
        s@.next == s.next,
        s@.phase == s.phase,
        s@.aims[i].agent == s.targets@[i].agent_id@,
        s@.aims[i].was == s.targets@[i].was,
        s@.aims[i].signal == s.targets@[i].signal,
        s@.aims[i].intent == s.targets@[i].intent@,
        s@.aims[i].confirmation == s.targets@[i].confirmation@,
        s@.aims[i].unobserved == s.targets@[i].unobserved@,
{
}

} // verus!
