//! What a client sends to a pane, and which host it reaches.
//!
//! Typing and resizing both need the write lease: a resize is the shared terminal's, so a viewer
//! that could resize would reflow the writer's pane. Completing the replay handshake needs none.
use vstd::prelude::*;

use crate::cache::PaneEntry;
use crate::model::{AgentId, ConnId, HostId};
use crate::panes;
use crate::panes::{Panes, PanesModel};

verus! {

/// One inbound notification about a pane.
#[derive(Debug)]
pub enum Input {
    /// Text typed by a client of the legacy stream.
    NodePtyWrite { agent_id: AgentId, text: String },
    /// Bytes typed by a client of the exact stream.
    NodePaneWrite { agent_id: AgentId, bytes: Vec<u8> },
    NodeResize { agent_id: AgentId, cols: u16, rows: u16 },
    /// The advertised replay may start.
    NodePaneReady { agent_id: AgentId, token: Vec<u8>, cut: u64 },
}

/// Where an input goes.
#[derive(Debug)]
pub enum Delivery {
    /// The handshake is completed on this host, if any, once the expired hosts are retired.
    Ready { retire: Vec<HostId>, host: Option<HostId> },
    /// The bytes are admitted on this host; a refusal fails the connection with this sentence.
    Opaque(Result<HostId, String>),
    /// The text or the size reaches this host, or nobody: a legacy refusal is silent.
    Leased(Option<HostId>),
}

/// Said where the connection does not hold the node's write half.
pub const NO_LEASE: &'static str = "opaque pane input requires this connection's live write lease";

/// Said where the node's pane takes no input.
pub const NOT_LIVE: &'static str = "opaque pane input requires a live pane";

impl PanesModel {
    /// The live host that `conn` may reach.
    pub open spec fn writable_host(self, conn: ConnId, id: Seq<char>) -> Option<HostId> {
        if panes::has_lease(self.leases, conn, id) {
            match self.entry(id) {
                Some(e) => e.live_host_of(),
                None => None,
            }
        } else {
            None
        }
    }

    /// The host whose replay a handshake on `id` may start.
    pub open spec fn ready_host(self, id: Seq<char>) -> Option<HostId> {
        match self.entry(id) {
            Some(e) => e.replay_host_of(),
            None => None,
        }
    }
}

impl Panes {
    /// Complete the replay handshake. Expiry runs first, so a token cannot revive a pane that is at
    /// or past its deadline.
    fn deliver_pane_ready(&mut self, id: &AgentId, now: u64) -> (r: (Vec<HostId>, Option<HostId>))
        requires
            old(self).wf(),
        ensures
            final(self).wf(),
            final(self)@ == old(self)@.pruned(now),
            r.0@ == old(self)@.pruned_hosts(now),
            r.1 == old(self)@.pruned(now).ready_host(id@),
    {
        let retire = self.take_completed_victims(now);
        let host = match self.entry(id) {
            Some(entry) => entry.replay_host(),
            None => None,
        };
        (retire, host)
    }

    /// The host that opaque bytes are admitted on, or why they are not.
    fn deliver_opaque_input(&self, conn: ConnId, id: &AgentId) -> (r: Result<HostId, String>)
        requires
            self.wf(),
        ensures
            match self@.writable_host(conn, id@) {
                Some(host) => r matches Ok(h) && h == host,
                None => r matches Err(why) && why@ == (if panes::has_lease(
                    self@.leases,
                    conn,
                    id@,
                ) {
                    NOT_LIVE@
                } else {
                    NO_LEASE@
                }),
            },
    {
        if !self.lease(conn, id) {
            return Err(NO_LEASE.to_string());
        }
        match self.entry(id) {
            Some(PaneEntry::Live(host)) => Ok(host),
            _ => Err(NOT_LIVE.to_string()),
        }
    }

    /// The host that legacy text or a resize reaches.
    fn deliver_leased_input(&self, conn: ConnId, id: &AgentId) -> (r: Option<HostId>)
        requires
            self.wf(),
        ensures
            r == self@.writable_host(conn, id@),
    {
        if !self.lease(conn, id) {
            return None;
        }
        match self.entry(id) {
            Some(entry) => entry.live_host(),
            None => None,
        }
    }

    /// Decide where an input from `conn` goes. Only the handshake changes anything: it prunes.
    pub fn deliver_input(&mut self, conn: ConnId, input: &Input, now: u64) -> (d: Delivery)
        requires
            old(self).wf(),
        ensures
            final(self).wf(),
            final(self)@ == (if input is NodePaneReady {
                old(self)@.pruned(now)
            } else {
                old(self)@
            }),
            match *input {
                Input::NodePaneReady { agent_id, .. } => {
                    &&& d matches Delivery::Ready { retire, host }
                    &&& retire@ == old(self)@.pruned_hosts(now)
                    &&& host == old(self)@.pruned(now).ready_host(agent_id@)
                },
                Input::NodePaneWrite { agent_id, .. } => {
                    &&& d matches Delivery::Opaque(r)
                    &&& match old(self)@.writable_host(conn, agent_id@) {
                        Some(host) => r matches Ok(h) && h == host,
                        None => r matches Err(why) && why@ == (if panes::has_lease(
                            old(self)@.leases,
                            conn,
                            agent_id@,
                        ) {
                            NOT_LIVE@
                        } else {
                            NO_LEASE@
                        }),
                    }
                },
                Input::NodePtyWrite { agent_id, .. } => d matches Delivery::Leased(host) && host
                    == old(self)@.writable_host(conn, agent_id@),
                Input::NodeResize { agent_id, .. } => d matches Delivery::Leased(host) && host
                    == old(self)@.writable_host(conn, agent_id@),
            },
    {
        match input {
            Input::NodePaneReady { agent_id, .. } => {
                let (retire, host) = self.deliver_pane_ready(agent_id, now);
                Delivery::Ready { retire, host }
            },
            Input::NodePaneWrite { agent_id, .. } => Delivery::Opaque(
                self.deliver_opaque_input(conn, agent_id),
            ),
            Input::NodePtyWrite { agent_id, .. } => Delivery::Leased(
                self.deliver_leased_input(conn, agent_id),
            ),
            Input::NodeResize { agent_id, .. } => Delivery::Leased(
                self.deliver_leased_input(conn, agent_id),
            ),
        }
    }
}

} // verus!
