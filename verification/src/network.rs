//! The session: one logical endpoint and its current remote peer.
//!
//! The transport itself (a bound, non-blocking datagram socket) lives at
//! the unverified edge; `Connection` holds the part of the session that the
//! protocol reasons about — the single mutable "current remote address" —
//! and turns events into addressed frames and inbound datagrams into
//! events.  The address is mutated through `connect` alone, so the
//! re-targeting point stays singular.

use vstd::prelude::*;

use crate::codec::{decode, encode, spec_decode, spec_encode};
use crate::event::{wf_event, NetError, NetworkEvent};

verus! {

/// A frame ready for transmission, addressed to the session's current
/// remote peer at the moment it was produced.
pub struct Outgoing {
    pub remote: String,
    pub port: String,
    pub frame: Vec<u8>,
}

/// The session's replicated-protocol state: where outgoing snapshots go.
pub struct Connection {
    remote: String,
    port: String,
}

impl Connection {
    /// The address outgoing frames are currently sent to.
    pub closed spec fn remote_view(&self) -> Seq<char> {
        self.remote@
    }

    /// The port outgoing frames are currently sent to.
    pub closed spec fn port_view(&self) -> Seq<char> {
        self.port@
    }

    /// A fresh session targets the configured default: loopback on the
    /// well-known port.
    pub fn new() -> (c: Connection)
        ensures
            c.remote_view() == "127.0.0.1"@,
            c.port_view() == "4664"@,
    {
        Connection { remote: String::from_str("127.0.0.1"), port: String::from_str("4664") }
    }

    /// Re-targets the session: every later `send` goes to this address.
    /// Nothing is transmitted and nothing can fail; on an unreliable
    /// transport a wrong target only shows as silence.
    pub fn connect(&mut self, remote: &str, port: &str)
        ensures
            final(self).remote_view() == remote@,
            final(self).port_view() == port@,
    {
        self.remote = String::from_str(remote);
        self.port = String::from_str(port);
    }

    pub fn current_remote(&self) -> (r: &String)
        ensures
            r@ == self.remote_view(),
    {
        &self.remote
    }

    pub fn current_port(&self) -> (r: &String)
        ensures
            r@ == self.port_view(),
    {
        &self.port
    }

    /// Encodes `event` and addresses it to the current remote peer.  The
    /// unverified edge performs the one transmission attempt; a transient
    /// transport failure there is `SendFailure`, reported but never
    /// retried, since the next tick's snapshot supersedes it.
    pub fn send(&self, event: &NetworkEvent) -> (r: Result<Outgoing, NetError>)
        requires
            wf_event(*event),
        ensures
            match r {
                Ok(o) => !(event@ is Idle) && o.frame@ == spec_encode(event@) && o.remote@
                    == self.remote_view() && o.port@ == self.port_view(),
                Err(err) => event@ is Idle && err == NetError::Unsendable,
            },
    {
        match encode(event) {
            Ok(frame) => Ok(
                Outgoing { remote: self.remote.clone(), port: self.port.clone(), frame },
            ),
            Err(err) => Err(err),
        }
    }

    /// One non-blocking receive step.  The unverified edge hands in at
    /// most one datagram (bytes and sender address) per call; `None` means
    /// nothing was queued.  Nothing queued, an undecodable datagram and a
    /// transient receive error all yield the idle event at once — the
    /// caller cannot tell them apart, and need not, since all demand the
    /// same inaction.  The session state itself never changes here.
    pub fn update(&mut self, datagram: Option<(Vec<u8>, String)>) -> (e: NetworkEvent)
        ensures
            *final(self) == *old(self),
            wf_event(e),
            match datagram {
                None => e@ is Idle,
                Some((d, a)) => match spec_decode(d@, a@) {
                    Some(m) => e@ == m,
                    None => e@ is Idle,
                },
            },
    {
        match datagram {
            None => NetworkEvent::Idle,
            Some((d, a)) => match decode(&d, a.as_str()) {
                Ok(e) => e,
                Err(_) => NetworkEvent::Idle,
            },
        }
    }
}

} // verus!
