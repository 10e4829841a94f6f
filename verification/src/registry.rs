//! Single-session registry.
//!
//! At most one session is live per process.  The registry owns the optional
//! session handle; installing a new one first signals closure to the old
//! session's control endpoint — modelled as a one-slot command queue — and
//! hands the displaced handle back so that the runner can act on it.  A
//! control endpoint whose receiving loop is gone swallows the signal
//! without fault.

use vstd::prelude::*;

use crate::codec::{MessageView, ServerMessage};

verus! {

/// Command vocabulary of the control channel into the event loop.
#[derive(Debug, Clone, Copy, PartialEq, Eq, Structural)]
pub enum ControlMessage {
    CloseConnection,
}

/// Sender side of a session's control channel: a one-slot queue for the
/// close command.  `open` says the receiving loop still listens.
#[derive(Debug, Clone, Copy, PartialEq, Eq, Structural)]
pub struct ControlEndpoint {
    pub open: bool,
    pub close_requested: bool,
}

/// Signalling closure fills the slot of an open endpoint and leaves a
/// closed one untouched.
pub open spec fn signal_close_spec(c: ControlEndpoint) -> ControlEndpoint {
    if c.open {
        ControlEndpoint { open: c.open, close_requested: true }
    } else {
        c
    }
}

/// The live connection's client-side handle: a session number, the control
/// endpoint and the outbound-queue endpoint.
#[derive(Debug, Clone, Copy, PartialEq, Eq, Structural)]
pub struct SessionHandle {
    pub session_id: u64,
    pub control: ControlEndpoint,
    pub sink_open: bool,
}

/// What preempting a session leaves of its handle.
pub open spec fn displaced_spec(active: Option<SessionHandle>) -> Option<SessionHandle> {
    match active {
        None => None,
        Some(h) => Some(
            SessionHandle {
                session_id: h.session_id,
                control: signal_close_spec(h.control),
                sink_open: h.sink_open,
            },
        ),
    }
}

/// Owner of the single optional session handle.
#[derive(Debug)]
pub struct SessionRegistry {
    active: Option<SessionHandle>,
}

impl SessionRegistry {
    /// The installed handle, if any.
    pub closed spec fn active_handle(&self) -> Option<SessionHandle> {
        self.active
    }

    /// A registry with no session.
    pub fn new() -> (r: SessionRegistry)
        ensures
            r.active_handle() is None,
    {
        SessionRegistry { active: None }
    }

    /// Whether a session is installed.
    pub fn is_active(&self) -> (r: bool)
        ensures
            r == (self.active_handle() is Some),
    {
        match &self.active {
            Some(_) => true,
            None => false,
        }
    }

    /// The installed session's number, if any.
    pub fn active_session_id(&self) -> (r: Option<u64>)
        ensures
            r == match self.active_handle() {
                Some(h) => Some(h.session_id),
                None => None::<u64>,
            },
    {
        match &self.active {
            Some(h) => Some(h.session_id),
            None => None,
        }
    }

    /// Install a new handle.  Any previous session is signalled to close
    /// first — an already-closed control endpoint counts as already gone,
    /// not as a fault — and its handle comes back displaced.
    pub fn begin(&mut self, handle: SessionHandle) -> (displaced: Option<SessionHandle>)
        ensures
            final(self).active_handle() == Some(handle),
            displaced == displaced_spec(old(self).active_handle()),
    {
        let displaced = match &self.active {
            Some(h) => {
                let mut d = *h;
                if d.control.open {
                    d.control.close_requested = true;
                }
                Some(d)
            },
            None => None,
        };
        self.active = Some(handle);
        displaced
    }

    /// Ask the active session to close gracefully and clear the handle.
    /// The displaced handle comes back for the runner to act on.
    pub fn request_disconnect(&mut self) -> (displaced: Option<SessionHandle>)
        ensures
            final(self).active_handle() is None,
            displaced == displaced_spec(old(self).active_handle()),
    {
        let displaced = match &self.active {
            Some(h) => {
                let mut d = *h;
                if d.control.open {
                    d.control.close_requested = true;
                }
                Some(d)
            },
            None => None,
        };
        self.active = None;
        displaced
    }

    /// The outbound message that a boop request should enqueue: the boop
    /// for the partner when a session with an open queue is installed,
    /// nothing otherwise.
    pub fn queue_boop(&self, partner_key: String) -> (r: Option<ServerMessage>)
        ensures
            match self.active_handle() {
                Some(h) => if h.sink_open {
                    r matches Some(m) && m@ == (MessageView::Boop { partner_key: partner_key@ })
                } else {
                    r is None
                },
                None => r is None,
            },
    {
        match &self.active {
            Some(h) => if h.sink_open {
                Some(ServerMessage::Boop { partner_key })
            } else {
                None
            },
            None => None,
        }
    }
}

/// Exclusivity law: beginning session B while session A is installed
/// displaces exactly A — with the close signal put on its control endpoint
/// unless that endpoint was already closed — and leaves only B queryable as
/// active, as `begin`'s contract then states.
pub proof fn lemma_session_exclusivity(a: SessionHandle)
    ensures
        displaced_spec(Some(a)) matches Some(d) && d.session_id == a.session_id && d.sink_open
            == a.sink_open && (a.control.open ==> d.control.close_requested) && (!a.control.open
            ==> d.control == a.control),
{
}

} // verus!
