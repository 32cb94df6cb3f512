//! Handing a native claimant the write half it was promised.
//!
//! A native launch reserves its node's keyboard before the pane exists. Until the claimant arrives,
//! ordinary attaches are read-only; a host that is replaced or closes takes the promise with it.
use vstd::prelude::*;

use crate::cache::PaneEntry;
use crate::model::{AgentId, ConnId, HostId};
use crate::panes::{Lease, LeaseRow, Panes, PanesModel};
use crate::table;

verus! {

/// Why a native launch could not be reserved or published.
#[derive(Debug, Clone, Copy, PartialEq, Eq, Structural)]
pub enum NativeLaunchReservationError {
    HostAlreadyVisible,
    HostUnavailable,
    UnknownTicket,
}

/// Why a native claim was not served.
#[derive(Debug, Clone, Copy, PartialEq, Eq, Structural)]
pub enum NativeLaunchClaimError {
    WrongBinding,
    UnknownTicket,
    WriterBusy,
}

/// What a native claim is checked against.
#[derive(Debug, Clone, Copy, PartialEq, Eq, Structural)]
pub struct NativeTarget {
    pub host: HostId,
    pub generation: u64,
    pub authority: u64,
}

/// A ticket and a writer slot that were validated together, before the claim is acknowledged.
#[derive(Debug)]
pub struct PreparedNativeWriter {
    pub agent_id: AgentId,
    pub conn: ConnId,
    pub target: NativeTarget,
}

impl PanesModel {
    /// What a native claim on `id` is checked against, where there is anything to claim.
    pub open spec fn native_target(self, id: Seq<char>) -> Result<
        NativeTarget,
        NativeLaunchClaimError,
    > {
        match self.entry(id) {
            Some(PaneEntry::Live(host)) => match table::value(self.generations, id) {
                Some(generation) => match self.native {
                    Some(authority) => Ok(NativeTarget { host, generation, authority }),
                    None => Err(NativeLaunchClaimError::UnknownTicket),
                },
                None => Err(NativeLaunchClaimError::WrongBinding),
            },
            _ => Err(NativeLaunchClaimError::WrongBinding),
        }
    }

    /// `conn` may type into `id` on `host`.
    pub open spec fn with_lease(self, id: Seq<char>, conn: ConnId, host: HostId) -> PanesModel {
        PanesModel { leases: self.leases.push(LeaseRow { conn, agent: id, host }), ..self }
    }
}

impl Panes {
    /// Install the native authority, once.
    pub fn install_pending_native_launches(&mut self, authority: u64) -> (r: Result<(), u64>)
        requires
            old(self).wf(),
        ensures
            final(self).wf(),
            match old(self)@.native {
                Some(_) => r == Err::<(), u64>(authority) && final(self)@ == old(self)@,
                None => r is Ok && final(self)@ == (PanesModel {
                    native: Some(authority),
                    ..old(self)@
                }),
            },
    {
        if self.native_launches.is_some() {
            return Err(authority);
        }
        self.native_launches = Some(authority);
        Ok(())
    }

    /// The authority that may reserve a launch for `id`, whose pane must not exist yet.
    pub fn reserve_pending_native_launch(&self, id: &AgentId) -> (r: Result<
        u64,
        NativeLaunchReservationError,
    >)
        requires
            self.wf(),
        ensures
            r == (if self@.entry(id@) is Some {
                Err(NativeLaunchReservationError::HostAlreadyVisible)
            } else {
                match self@.native {
                    Some(authority) => Ok(authority),
                    None => Err(NativeLaunchReservationError::UnknownTicket),
                }
            }),
    {
        if self.entry(id).is_some() {
            return Err(NativeLaunchReservationError::HostAlreadyVisible);
        }
        match self.native_launches {
            Some(authority) => Ok(authority),
            None => Err(NativeLaunchReservationError::UnknownTicket),
        }
    }

    /// The authority and the generation that a reserved launch is published under, once its pane is
    /// live.
    pub fn publish_pending_native_launch(&self, id: &AgentId) -> (r: Result<
        (u64, u64),
        NativeLaunchReservationError,
    >)
        requires
            self.wf(),
        ensures
            r == (match (self@.entry(id@), table::value(self@.generations, id@)) {
                (Some(PaneEntry::Live(_)), Some(generation)) => match self@.native {
                    Some(authority) => Ok((authority, generation)),
                    None => Err(NativeLaunchReservationError::UnknownTicket),
                },
                _ => Err(NativeLaunchReservationError::HostUnavailable),
            }),
    {
        if !self.has_live(id) {
            return Err(NativeLaunchReservationError::HostUnavailable);
        }
        let generation: u64 = match self.host_generations.get(id) {
            Some(generation) => *generation,
            None => {
                return Err(NativeLaunchReservationError::HostUnavailable);
            },
        };
        match self.native_launches {
            Some(authority) => Ok((authority, generation)),
            None => Err(NativeLaunchReservationError::UnknownTicket),
        }
    }

    /// What a native claim on `id` is checked against.
    pub fn native_claim_target(&self, id: &AgentId) -> (r: Result<
        NativeTarget,
        NativeLaunchClaimError,
    >)
        requires
            self.wf(),
        ensures
            r == self@.native_target(id@),
    {
        let host = match self.entry(id) {
            Some(PaneEntry::Live(host)) => host,
            _ => {
                return Err(NativeLaunchClaimError::WrongBinding);
            },
        };
        let generation: u64 = match self.host_generations.get(id) {
            Some(generation) => *generation,
            None => {
                return Err(NativeLaunchClaimError::WrongBinding);
            },
        };
        match self.native_launches {
            Some(authority) => Ok(NativeTarget { host, generation, authority }),
            None => Err(NativeLaunchClaimError::UnknownTicket),
        }
    }

    /// Serve a native claim in one step. `claim` is what the authority and the host's writer slot
    /// answered for the target; the claimant's lease is published only with it.
    pub fn claim_pending_native_writer(
        &mut self,
        id: &AgentId,
        conn: ConnId,
        claim: Result<(), NativeLaunchClaimError>,
    ) -> (r: Result<u64, NativeLaunchClaimError>)
        requires
            old(self).wf(),
        ensures
            final(self).wf(),
            match (old(self)@.native_target(id@), claim) {
                (Err(e), _) => r == Err::<u64, NativeLaunchClaimError>(e) && final(self)@
                    == old(self)@,
                (Ok(_), Err(e)) => r == Err::<u64, NativeLaunchClaimError>(e) && final(self)@
                    == old(self)@,
                (Ok(target), Ok(_)) => r == Ok::<u64, NativeLaunchClaimError>(target.generation)
                    && final(self)@ == old(self)@.with_lease(id@, conn, target.host),
            },
    {
        let target = match self.native_claim_target(id) {
            Ok(target) => target,
            Err(e) => {
                return Err(e);
            },
        };
        if let Err(e) = claim {
            return Err(e);
        }
        self.publish_lease(id, conn, target.host);
        Ok(target.generation)
    }

    /// Record a lease the host has issued.
    fn publish_lease(&mut self, id: &AgentId, conn: ConnId, host: HostId)
        requires
            old(self).wf(),
        ensures
            final(self).wf(),
            final(self)@ == old(self)@.with_lease(id@, conn, host),
    {
        self.leases.push(Lease { conn, agent_id: id.clone(), host });
        assert(self@.leases =~= old(self)@.leases.push(LeaseRow { conn, agent: id@, host }));
    }

    /// Validate a native claim without consuming its ticket. `prepared` is what the authority and
    /// the host's writer slot answered for the target; no pane has changed.
    pub fn prepare_pending_native_writer(
        &self,
        id: &AgentId,
        conn: ConnId,
        prepared: Result<(), NativeLaunchClaimError>,
    ) -> (r: Result<PreparedNativeWriter, NativeLaunchClaimError>)
        requires
            self.wf(),
        ensures
            match (self@.native_target(id@), prepared) {
                (Err(e), _) => r matches Err(x) && x == e,
                (Ok(_), Err(e)) => r matches Err(x) && x == e,
                (Ok(target), Ok(_)) => {
                    &&& r matches Ok(p)
                    &&& p.agent_id@ == id@
                    &&& p.conn == conn
                    &&& p.target == target
                },
            },
    {
        let target = match self.native_claim_target(id) {
            Ok(target) => target,
            Err(e) => {
                return Err(e);
            },
        };
        if let Err(e) = prepared {
            return Err(e);
        }
        Ok(PreparedNativeWriter { agent_id: id.clone(), conn, target })
    }
}

impl PreparedNativeWriter {
    /// What was validated still holds: the same live host under the same generation, the same
    /// authority, and the host's writer slot is still the claimant's.
    pub open spec fn current(self, m: PanesModel, writer: Option<ConnId>) -> bool {
        &&& m.entry(self.agent_id@) == Some(PaneEntry::Live(self.target.host))
        &&& table::value(m.generations, self.agent_id@) == Some(self.target.generation)
        &&& m.native == Some(self.target.authority)
        &&& writer == Some(self.conn)
    }

    /// [`Self::current`], as a test.
    pub fn is_current(&self, panes: &Panes, writer: Option<ConnId>) -> (r: bool)
        requires
            panes.wf(),
        ensures
            r == self.current(panes@, writer),
    {
        let exact_host = match panes.entry(&self.agent_id) {
            Some(PaneEntry::Live(host)) => host == self.target.host,
            _ => false,
        };
        let exact_generation = match panes.host_generations.get(&self.agent_id) {
            Some(generation) => *generation == self.target.generation,
            None => false,
        };
        let exact_authority = match panes.native_launches {
            Some(authority) => authority == self.target.authority,
            None => false,
        };
        let exact_writer = match writer {
            Some(conn) => conn == self.conn,
            None => false,
        };
        exact_host && exact_generation && exact_authority && exact_writer
    }

    /// Publish the claimant as the node's writer. `claim` is what the authority answered to the
    /// consumed ticket; it is asked only where [`Self::is_current`] holds.
    pub fn commit(
        self,
        panes: &mut Panes,
        writer: Option<ConnId>,
        claim: Result<(), NativeLaunchClaimError>,
    ) -> (r: Result<u64, NativeLaunchClaimError>)
        requires
            old(panes).wf(),
        ensures
            final(panes).wf(),
            !self.current(old(panes)@, writer) ==> {
                &&& r == Err::<u64, NativeLaunchClaimError>(NativeLaunchClaimError::WrongBinding)
                &&& final(panes)@ == old(panes)@
            },
            self.current(old(panes)@, writer) ==> match claim {
                Err(e) => r == Err::<u64, NativeLaunchClaimError>(e) && final(panes)@
                    == old(panes)@,
                Ok(_) => r == Ok::<u64, NativeLaunchClaimError>(self.target.generation)
                    && final(panes)@ == old(panes)@.with_lease(
                    self.agent_id@,
                    self.conn,
                    self.target.host,
                ),
            },
    {
        if !self.is_current(panes, writer) {
            return Err(NativeLaunchClaimError::WrongBinding);
        }
        if let Err(e) = claim {
            return Err(e);
        }
        panes.publish_lease(&self.agent_id, self.conn, self.target.host);
        Ok(self.target.generation)
    }
}

} // verus!
