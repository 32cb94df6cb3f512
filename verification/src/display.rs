//! Attaching to a node's display plane, typing into it, and claiming it natively.
//!
//! A node has one writer. A connection that is refused the write half still sees the node, and is
//! told which of the two reasons holds: somebody else is typing, or the node has ended.
use vstd::prelude::*;

use crate::cache::PaneEntry;
use crate::error;
use crate::error::{ErrorText, FailureKind, RpcError};
use crate::model::{AgentId, ConnId, HostId};
use crate::panes;
use crate::panes::{Lease, LeaseRow, Panes, PanesModel};
use crate::text::{cat3, cat4};

verus! {

/// A terminal's size.
#[derive(Debug, Clone, Copy, PartialEq, Eq, Structural)]
pub struct WinSize {
    pub cols: u16,
    pub rows: u16,
}

/// What activates a reserved replay: the token it was advertised with and the number of frames that
/// come before live output.
#[derive(Debug)]
pub struct PaneReady {
    pub token: Vec<u8>,
    pub cut: u64,
}

/// What a client is told about the pane it attached to.
#[derive(Debug)]
pub struct PaneAttach {
    pub cols: u16,
    pub rows: u16,
    /// This connection may type.
    pub writable: bool,
    /// Who may, where another connection does and the host still knows which.
    pub held_by: Option<u64>,
    /// Nobody may: the pane has ended.
    pub ended: bool,
    pub pane_ready: Option<PaneReady>,
}

/// Why a client may or may not type into the pane it attached to.
#[derive(Debug, Clone, Copy, PartialEq, Eq, Structural)]
pub enum PaneWriteHalf {
    /// This connection holds the write half.
    Held,
    /// The pane is live and its write half belongs to another connection, named where the host
    /// still knows it.
    Elsewhere(Option<u64>),
    /// The pane has ended. Nobody holds its write half and nobody can be given it.
    Ended,
}

impl PaneWriteHalf {
    /// The answer as a client reads it: may type, who may instead, has ended.
    pub open spec fn fields(self) -> (bool, Option<u64>, bool) {
        match self {
            PaneWriteHalf::Held => (true, None, false),
            PaneWriteHalf::Elsewhere(owner) => (false, owner, false),
            PaneWriteHalf::Ended => (false, None, true),
        }
    }

    /// Write the answer onto what the client is told. The size and the reserved replay stay.
    pub fn describe(self, pane: &mut PaneAttach)
        ensures
            (final(pane).writable, final(pane).held_by, final(pane).ended) == self.fields(),
            final(pane).cols == old(pane).cols,
            final(pane).rows == old(pane).rows,
            final(pane).pane_ready == old(pane).pane_ready,
    {
        let (writable, held_by, ended) = match self {
            PaneWriteHalf::Held => (true, None, false),
            PaneWriteHalf::Elsewhere(owner) => (false, owner, false),
            PaneWriteHalf::Ended => (false, None, true),
        };
        pane.writable = writable;
        pane.held_by = held_by;
        pane.ended = ended;
    }
}

/// What a host says about itself at the moment of an attach.
#[derive(Debug, Clone, Copy, PartialEq, Eq, Structural)]
pub struct HostFacts {
    /// The size the terminal really has, where it can be read back.
    pub size: Option<WinSize>,
    /// The size it was asked for.
    pub intended_size: WinSize,
    /// The connection that holds the host's one writer slot.
    pub writer: Option<ConnId>,
    /// The native authority has promised the write half to a claimant that has not arrived.
    pub native_pending: bool,
}

impl HostFacts {
    /// The size a client is told.
    pub open spec fn told_size(self) -> WinSize {
        match self.size {
            Some(s) => s,
            None => self.intended_size,
        }
    }

    /// [`Self::told_size`], as a value.
    fn size_told(&self) -> (s: WinSize)
        ensures
            s == self.told_size(),
    {
        match self.size {
            Some(s) => s,
            None => self.intended_size,
        }
    }
}

impl PaneAttach {
    /// The client is told the host's size and who may type.
    pub open spec fn tells(self, half: PaneWriteHalf, facts: HostFacts) -> bool {
        &&& self.cols == facts.told_size().cols
        &&& self.rows == facts.told_size().rows
        &&& (self.writable, self.held_by, self.ended) == half.fields()
    }
}

/// A pane attached to: the host, what the client is told, and whether the host's writer slot is now
/// the connection's for the first time.
#[derive(Debug)]
pub struct Attached {
    pub host: HostId,
    pub pane: PaneAttach,
    pub granted: bool,
}

/// Why a replay could not be reserved, in the host's own words.
#[derive(Debug)]
pub enum PaneReplayReservationError {
    Busy(String),
    Unavailable(String),
    Entropy(String),
}

impl PanesModel {
    /// `conn` asks for the write half of `id`, whose live host is `host`.
    pub open spec fn asked_to_write(
        self,
        id: Seq<char>,
        conn: ConnId,
        host: HostId,
        writer: Option<ConnId>,
    ) -> (PanesModel, PaneWriteHalf, bool) {
        if panes::has_lease(self.leases, conn, id) {
            (self, PaneWriteHalf::Held, false)
        } else {
            match writer {
                Some(owner) => (self, PaneWriteHalf::Elsewhere(Some(owner.0)), false),
                None => (
                    PanesModel {
                        leases: self.leases.push(LeaseRow { conn, agent: id, host }),
                        ..self
                    },
                    PaneWriteHalf::Held,
                    true,
                ),
            }
        }
    }

    /// `conn` attaches to `id`'s live pane on `host`: the write half is asked for unless a native
    /// claimant has been promised it.
    pub open spec fn attached_live(
        self,
        id: Seq<char>,
        conn: ConnId,
        host: HostId,
        facts: HostFacts,
    ) -> (PanesModel, PaneWriteHalf, bool) {
        if self.native is Some && facts.native_pending {
            (self, PaneWriteHalf::Elsewhere(None), false)
        } else {
            self.asked_to_write(id, conn, host, facts.writer)
        }
    }

    /// `conn` attaches to `id`'s pane for replay: as to a live one, or to one that has ended.
    pub open spec fn attached_replay(
        self,
        id: Seq<char>,
        conn: ConnId,
        facts: HostFacts,
    ) -> (PanesModel, PaneWriteHalf, bool) {
        match self.entry(id) {
            Some(PaneEntry::Live(host)) => self.attached_live(id, conn, host, facts),
            _ => (self, PaneWriteHalf::Ended, false),
        }
    }

    /// The live half of an attach leads to `after` and is answered `r`.
    pub open spec fn attaches(
        self,
        id: Seq<char>,
        conn: ConnId,
        facts: HostFacts,
        after: PanesModel,
        r: Option<Attached>,
    ) -> bool {
        match self.entry(id) {
            Some(PaneEntry::Live(host)) => {
                let (then, half, granted) = self.attached_live(id, conn, host, facts);
                &&& after == then
                &&& r matches Some(a)
                &&& a.host == host
                &&& a.pane.tells(half, facts)
                &&& a.granted == granted
                &&& a.pane.pane_ready is None
            },
            _ => r is None && after == self,
        }
    }

    /// The exact half of an attach leads to `after` and is answered `r`.
    pub open spec fn attaches_v1(
        self,
        id: Seq<char>,
        conn: ConnId,
        facts: HostFacts,
        reservation: Result<PaneReady, PaneReplayReservationError>,
        after: PanesModel,
        r: Result<Option<Attached>, RpcError>,
    ) -> bool {
        match self.entry(id) {
            None => r matches Ok(None) && after == self,
            Some(PaneEntry::Replacing(_)) => {
                &&& after == self
                &&& r matches Err(e)
                &&& e@ == being_replaced(id)
            },
            Some(entry) => match reservation {
                Err(why) => {
                    &&& after == self
                    &&& r matches Err(e)
                    &&& e@ == reservation_refused(id, why)
                },
                Ok(ready) => {
                    let (then, half, granted) = self.attached_replay(id, conn, facts);
                    &&& after == then
                    &&& r matches Ok(Some(a))
                    &&& a.host == entry.host_of()
                    &&& a.pane.tells(half, facts)
                    &&& a.granted == granted
                    &&& a.pane.pane_ready == Some(ready)
                },
            },
        }
    }

    /// What the pane a connection reserved has become: whether it is still the same host's and may
    /// be replayed, and who may type.
    pub open spec fn reservation(
        self,
        id: Seq<char>,
        conn: ConnId,
        host: HostId,
        writer: Option<ConnId>,
    ) -> (bool, PaneWriteHalf) {
        match self.entry(id) {
            Some(PaneEntry::Live(current)) if current == host => (
                true,
                if panes::has_lease(self.leases, conn, id) {
                    PaneWriteHalf::Held
                } else {
                    PaneWriteHalf::Elsewhere(
                        match writer {
                            Some(owner) => Some(owner.0),
                            None => None,
                        },
                    )
                },
            ),
            Some(PaneEntry::Closing(current)) if current == host => (true, PaneWriteHalf::Ended),
            Some(PaneEntry::Completed { host: current, .. }) if current == host => (
                true,
                PaneWriteHalf::Ended,
            ),
            _ => (false, PaneWriteHalf::Ended),
        }
    }

    /// An attach to `host` is undone for `conn`, where `host` is still `id`'s.
    pub open spec fn rolled_back(self, id: Seq<char>, conn: ConnId, host: HostId) -> PanesModel {
        if self.entry(id) is Some && self.entry(id)->0.host_of() == host {
            PanesModel {
                leases: panes::leases_without(self.leases, Some(conn), Some(id)),
                ..self
            }
        } else {
            self
        }
    }

    /// The writer slots that undoing `conn`'s attach frees.
    pub open spec fn freed_by_rollback(self, id: Seq<char>, conn: ConnId, host: HostId) -> Seq<
        (ConnId, HostId),
    > {
        if self.entry(id) is Some && self.entry(id)->0.host_of() == host {
            panes::lease_holders(panes::leases_of(self.leases, Some(conn), Some(id)))
        } else {
            Seq::empty()
        }
    }
}

/// The pane is being replaced: ask again.
pub open spec fn being_replaced(id: Seq<char>) -> ErrorText {
    error::refused_text(
        id,
        "node `"@ + id + "`'s pane generation is being replaced; retry attach"@,
        "§5.3"@,
    )
}

/// The replay could not be reserved.
pub open spec fn reservation_refused(
    id: Seq<char>,
    e: PaneReplayReservationError,
) -> ErrorText {
    match e {
        PaneReplayReservationError::Busy(why) => error::refused_text(
            id,
            "node `"@ + id + "` could not reserve another bounded pane replay: "@ + why@,
            "§5.3"@,
        ),
        PaneReplayReservationError::Unavailable(why) => error::internal_text(
            "node `"@ + id + "` could not create an exact pane replay: "@ + why@,
        ),
        PaneReplayReservationError::Entropy(why) => error::internal_text(
            "node `"@ + id + "` could not create an exact pane replay: "@ + why@,
        ),
    }
}

/// The pane changed hands while the attach was being prepared.
pub open spec fn generation_changed(id: Seq<char>) -> ErrorText {
    error::error_text(
        FailureKind::Conflict,
        id,
        "node `"@ + id
            + "`'s pane generation changed while attach was being prepared; retry against the \
                current generation"@,
        "§5.3"@,
    )
}

impl Panes {
    /// Claim the write half for `conn` on a live host, or say who has it. A connection that already
    /// holds it keeps the lease it had: a second one would open the node when the first is dropped.
    fn take_write_half(
        &mut self,
        id: &AgentId,
        conn: ConnId,
        host: HostId,
        writer: Option<ConnId>,
    ) -> (r: (PaneWriteHalf, bool))
        requires
            old(self).wf(),
        ensures
            final(self).wf(),
            (final(self)@, r.0, r.1) == old(self)@.asked_to_write(id@, conn, host, writer),
    {
        if self.lease(conn, id) {
            return (PaneWriteHalf::Held, false);
        }
        match writer {
            Some(owner) => (PaneWriteHalf::Elsewhere(Some(owner.0)), false),
            None => {
                self.leases.push(Lease { conn, agent_id: id.clone(), host });
                assert(self@.leases =~= old(self)@.leases.push(
                    LeaseRow { conn, agent: id@, host },
                ));
                (PaneWriteHalf::Held, true)
            },
        }
    }

    /// [`PanesModel::attached_live`].
    fn attach_live(
        &mut self,
        id: &AgentId,
        conn: ConnId,
        host: HostId,
        facts: HostFacts,
    ) -> (r: (PaneWriteHalf, bool))
        requires
            old(self).wf(),
        ensures
            final(self).wf(),
            (final(self)@, r.0, r.1) == old(self)@.attached_live(id@, conn, host, facts),
    {
        if self.native_launches.is_some() && facts.native_pending {
            (PaneWriteHalf::Elsewhere(None), false)
        } else {
            self.take_write_half(id, conn, host, facts.writer)
        }
    }

    /// The live half of an attach, or `None` for a node with no live pane. What has expired goes
    /// first and comes back to be retired. `facts` are the live host's.
    pub fn attach_pane(&mut self, id: &AgentId, conn: ConnId, facts: HostFacts, now: u64) -> (r: (
        Vec<HostId>,
        Option<Attached>,
    ))
        requires
            old(self).wf(),
        ensures
            final(self).wf(),
            r.0@ == old(self)@.pruned_hosts(now),
            old(self)@.pruned(now).attaches(id@, conn, facts, final(self)@, r.1),
    {
        let retired = self.take_completed_victims(now);
        let host = match self.entry(id) {
            Some(entry) => match entry.live_host() {
                Some(host) => host,
                None => {
                    return (retired, None);
                },
            },
            None => {
                return (retired, None);
            },
        };
        let (half, granted) = self.attach_live(id, conn, host, facts);
        let size = facts.size_told();
        let mut pane = PaneAttach {
            cols: size.cols,
            rows: size.rows,
            writable: false,
            held_by: None,
            ended: false,
            pane_ready: None,
        };
        half.describe(&mut pane);
        (retired, Some(Attached { host, pane, granted }))
    }

    /// The host whose replay an exact attach reserves, where there is one; a refusal while the pane
    /// is being replaced.
    fn replayed_host(&self, id: &AgentId) -> (r: Result<Option<HostId>, RpcError>)
        requires
            self.wf(),
        ensures
            match self@.entry(id@) {
                None => r == Ok::<Option<HostId>, RpcError>(None),
                Some(entry) => match entry.replay_host_of() {
                    Some(host) => r == Ok::<Option<HostId>, RpcError>(Some(host)),
                    None => r matches Err(e) && e@ == being_replaced(id@),
                },
            },
    {
        match self.entry(id) {
            None => Ok(None),
            Some(entry) => match entry.replay_host() {
                Some(host) => Ok(Some(host)),
                None => {
                    let message = cat3(
                        "node `",
                        id.0.as_str(),
                        "`'s pane generation is being replaced; retry attach",
                    );
                    Err(RpcError::refused(id.0.as_str(), message, "§5.3"))
                },
            },
        }
    }

    /// The host whose replay an exact attach at `now` has to reserve, where there is one; a refusal
    /// while the pane is being replaced. What has expired goes first and comes back to be retired.
    pub fn replay_target(&mut self, id: &AgentId, now: u64) -> (r: (
        Vec<HostId>,
        Result<Option<HostId>, RpcError>,
    ))
        requires
            old(self).wf(),
        ensures
            final(self).wf(),
            final(self)@ == old(self)@.pruned(now),
            r.0@ == old(self)@.pruned_hosts(now),
            match old(self)@.pruned(now).entry(id@) {
                None => r.1 == Ok::<Option<HostId>, RpcError>(None),
                Some(entry) => match entry.replay_host_of() {
                    Some(host) => r.1 == Ok::<Option<HostId>, RpcError>(Some(host)),
                    None => r.1 matches Err(e) && e@ == being_replaced(id@),
                },
            },
    {
        let retired = self.take_completed_victims(now);
        let target = self.replayed_host(id);
        (retired, target)
    }

    /// The exact half of an attach: the replay reserved on the host comes with it, and where it was
    /// not reserved nothing has changed. What has expired goes first and comes back to be retired.
    /// `facts` and `reservation` are those of the host that [`Self::replay_target`] gives.
    pub fn attach_pane_v1(
        &mut self,
        id: &AgentId,
        conn: ConnId,
        facts: HostFacts,
        reservation: Result<PaneReady, PaneReplayReservationError>,
        now: u64,
    ) -> (r: (Vec<HostId>, Result<Option<Attached>, RpcError>))
        requires
            old(self).wf(),
        ensures
            final(self).wf(),
            r.0@ == old(self)@.pruned_hosts(now),
            old(self)@.pruned(now).attaches_v1(
                id@,
                conn,
                facts,
                reservation,
                final(self)@,
                r.1,
            ),
    {
        let retired = self.take_completed_victims(now);
        let host = match self.replayed_host(id) {
            Err(e) => {
                return (retired, Err(e));
            },
            Ok(None) => {
                return (retired, Ok(None));
            },
            Ok(Some(host)) => host,
        };
        let ready = match reservation {
            Ok(ready) => ready,
            Err(PaneReplayReservationError::Busy(why)) => {
                let message = cat4(
                    "node `",
                    id.0.as_str(),
                    "` could not reserve another bounded pane replay: ",
                    why.as_str(),
                );
                return (retired, Err(RpcError::refused(id.0.as_str(), message, "§5.3")));
            },
            Err(PaneReplayReservationError::Unavailable(why)) => {
                let message = cat4(
                    "node `",
                    id.0.as_str(),
                    "` could not create an exact pane replay: ",
                    why.as_str(),
                );
                return (retired, Err(RpcError::internal(message)));
            },
            Err(PaneReplayReservationError::Entropy(why)) => {
                let message = cat4(
                    "node `",
                    id.0.as_str(),
                    "` could not create an exact pane replay: ",
                    why.as_str(),
                );
                return (retired, Err(RpcError::internal(message)));
            },
        };
        let (half, granted) = if self.has_live(id) {
            self.attach_live(id, conn, host, facts)
        } else {
            (PaneWriteHalf::Ended, false)
        };
        let size = facts.size_told();
        let mut pane = PaneAttach {
            cols: size.cols,
            rows: size.rows,
            writable: false,
            held_by: None,
            ended: false,
            pane_ready: Some(ready),
        };
        half.describe(&mut pane);
        (retired, Ok(Some(Attached { host, pane, granted })))
    }

    /// One look at the pane an attach reserved: is it still the same host's and still exactly
    /// pending, and is this connection its writer? `pending` is the host's own answer about the
    /// token.
    pub fn pane_reservation_snapshot(
        &self,
        id: &AgentId,
        conn: ConnId,
        host: HostId,
        writer: Option<ConnId>,
        pending: bool,
    ) -> (r: (bool, PaneWriteHalf))
        requires
            self.wf(),
        ensures
            r.0 == (self@.reservation(id@, conn, host, writer).0 && pending),
            r.1 == self@.reservation(id@, conn, host, writer).1,
    {
        let (same, half) = match self.entry(id) {
            Some(PaneEntry::Live(current)) if current == host => {
                let half = if self.lease(conn, id) {
                    PaneWriteHalf::Held
                } else {
                    PaneWriteHalf::Elsewhere(
                        match writer {
                            Some(owner) => Some(owner.0),
                            None => None,
                        },
                    )
                };
                (true, half)
            },
            Some(PaneEntry::Closing(current)) if current == host => (true, PaneWriteHalf::Ended),
            Some(PaneEntry::Completed { host: current, .. }) if current == host => (
                true,
                PaneWriteHalf::Ended,
            ),
            _ => (false, PaneWriteHalf::Ended),
        };
        (same && pending, half)
    }

    /// The commit of an exact attach: what was reserved is still the node's and still pending, and
    /// the client is told who may type now; or the attach is undone and refused as a conflict, and
    /// the writer slots that are free again come back.
    pub fn commit_pane_v1_reservation(
        &mut self,
        id: &AgentId,
        conn: ConnId,
        pane: &mut PaneAttach,
        host: HostId,
        writer: Option<ConnId>,
        pending: bool,
    ) -> (r: (Result<(), RpcError>, Vec<(ConnId, HostId)>))
        requires
            old(self).wf(),
        ensures
            final(self).wf(),
            final(pane).cols == old(pane).cols,
            final(pane).rows == old(pane).rows,
            final(pane).pane_ready == old(pane).pane_ready,
            ({
                let (same, half) = old(self)@.reservation(id@, conn, host, writer);
                if same && pending {
                    &&& r.0 is Ok
                    &&& r.1@ == Seq::<(ConnId, HostId)>::empty()
                    &&& final(self)@ == old(self)@
                    &&& (final(pane).writable, final(pane).held_by, final(pane).ended)
                        == half.fields()
                } else {
                    &&& r.0 matches Err(e)
                    &&& e@ == generation_changed(id@)
                    &&& final(self)@ == old(self)@.rolled_back(id@, conn, host)
                    &&& r.1@ == old(self)@.freed_by_rollback(id@, conn, host)
                    &&& *final(pane) == *old(pane)
                }
            }),
    {
        let (valid, half) = self.pane_reservation_snapshot(id, conn, host, writer, pending);
        if !valid {
            let freed = self.rollback_pane_attach(id, conn, host);
            let message = cat3(
                "node `",
                id.0.as_str(),
                "`'s pane generation changed while attach was being prepared; retry against the \
                current generation",
            );
            return (Err(RpcError::conflict(id.0.as_str(), message, "§5.3")), freed);
        }
        half.describe(pane);
        (Ok(()), Vec::new())
    }

    /// Undo an attach: the connection's lease on the node goes, where the host is still the node's.
    /// The host stops sending to the connection either way.
    pub fn rollback_pane_attach(&mut self, id: &AgentId, conn: ConnId, host: HostId) -> (released:
        Vec<(ConnId, HostId)>)
        requires
            old(self).wf(),
        ensures
            final(self).wf(),
            final(self)@ == old(self)@.rolled_back(id@, conn, host),
            released@ == old(self)@.freed_by_rollback(id@, conn, host),
    {
        let ours = match self.entry(id) {
            Some(entry) => entry.host() == host,
            None => false,
        };
        if ours {
            self.release(Some(conn), Some(id))
        } else {
            Vec::new()
        }
    }
}

/// A pane that is being replaced and one that cannot replay to another client are refusals about the
/// node; a replay that could not be made is the supervisor's own fault; a pane that changed hands is
/// a conflict about the node.
pub proof fn law_each_way_an_attach_fails_is_told_apart(id: Seq<char>, why: String)
    ensures
        being_replaced(id).kind == FailureKind::Refused,
        being_replaced(id).subject == Some(id),
        reservation_refused(id, PaneReplayReservationError::Busy(why)).kind == FailureKind::Refused,
        reservation_refused(id, PaneReplayReservationError::Busy(why)).subject == Some(id),
        reservation_refused(id, PaneReplayReservationError::Unavailable(why)).kind
            == FailureKind::Internal,
        reservation_refused(id, PaneReplayReservationError::Entropy(why)).kind
            == FailureKind::Internal,
        generation_changed(id).kind == FailureKind::Conflict,
        generation_changed(id).subject == Some(id),
{
}

} // verus!
