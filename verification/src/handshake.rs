//! Transport-adjacent decisions: address splitting, the login exchange and
//! the connection-phase machine.
//!
//! Resolving, connecting and reading are the runner's work; the functions
//! here take the plain values those steps produce and decide what they
//! mean.

use vstd::prelude::*;

use crate::codec::{decode, decode_spec, MessageView, ProtocolErrorKind, ServerMessage};
use crate::errors::{ServerConnectionStatus, SessionError};

verus! {

/// Index of the last colon of the sequence, or -1 when there is none.
pub open spec fn last_colon(s: Seq<char>) -> int
    decreases s.len(),
{
    if s.len() == 0 {
        -1
    } else if s.last() == ':' {
        s.len() - 1
    } else {
        last_colon(s.drop_last())
    }
}

/// The host part of a `host:port` address: everything before the last
/// colon, used for TLS name verification.  An address without a colon
/// carries no port and is refused.
pub fn domain_of_address(address: &str) -> (r: Result<String, SessionError>)
    ensures
        last_colon(address@) >= 0 ==> (r matches Ok(d) && d@ == address@.take(last_colon(address@))),
        last_colon(address@) < 0 ==> r == Err::<String, SessionError>(SessionError::AddressError),
{
    let n = address.unicode_len();
    proof {
        assert(address@.take(n as int) =~= address@);
    }
    let mut i: usize = n;
    while i > 0
        invariant
            i <= n,
            n == address@.len(),
            last_colon(address@) == last_colon(address@.take(i as int)),
        decreases i,
    {
        let c = address.get_char(i - 1);
        if c == ':' {
            proof {
                assert(address@.take(i as int).last() == address@[i - 1]);
                assert(last_colon(address@.take(i as int)) == i - 1);
            }
            let d = address.substring_char(0, i - 1);
            return Ok(String::from_str(d));
        }
        proof {
            assert(address@.take(i as int).last() == address@[i - 1]);
            assert(address@.take(i as int).drop_last() =~= address@.take(i - 1));
        }
        i = i - 1;
    }
    proof {
        assert(address@.take(0).len() == 0);
    }
    Err(SessionError::AddressError)
}

/// Meaning of the one handshake reply line.  `HEY` accepts the login and
/// `NO` rejects it — a rejection is a completed exchange, not an error.
/// End of stream, an unparsable line or any other message is fatal.
pub fn interpret_handshake_reply(reply: Option<&str>) -> (r: Result<bool, SessionError>)
    ensures
        match reply {
            None => r == Err::<bool, SessionError>(SessionError::UnexpectedClose),
            Some(line) => match decode_spec(line@) {
                Ok(m) => if m is Hey {
                    r == Ok::<bool, SessionError>(true)
                } else if m is No {
                    r == Ok::<bool, SessionError>(false)
                } else {
                    r == Err::<bool, SessionError>(
                        SessionError::ProtocolError(ProtocolErrorKind::ProtocolMismatch),
                    )
                },
                Err(k) => r == Err::<bool, SessionError>(SessionError::ProtocolError(k)),
            },
        },
{
    match reply {
        None => Err(SessionError::UnexpectedClose),
        Some(line) => match decode(line) {
            Ok(ServerMessage::Hey) => Ok(true),
            Ok(ServerMessage::No) => Ok(false),
            Ok(_) => Err(SessionError::ProtocolError(ProtocolErrorKind::ProtocolMismatch)),
            Err(k) => Err(SessionError::ProtocolError(k)),
        },
    }
}

/// Phases of one connection attempt, initial to terminal.  A terminated
/// attempt never resumes; a new attempt starts a fresh machine.
#[derive(Debug, Clone, Copy, PartialEq, Eq, Structural)]
pub enum ConnectionPhase {
    Idle,
    Connecting,
    Handshaking,
    Active,
    Closing,
    Closed,
}

/// The phase machine's allowed moves: forward along `Idle → Connecting →
/// Handshaking → Active → Closing → Closed`, and from any phase straight
/// to `Closed` when the attempt fails.
pub open spec fn phase_step_allowed(from: ConnectionPhase, to: ConnectionPhase) -> bool {
    match (from, to) {
        (ConnectionPhase::Idle, ConnectionPhase::Connecting) => true,
        (ConnectionPhase::Connecting, ConnectionPhase::Handshaking) => true,
        (ConnectionPhase::Handshaking, ConnectionPhase::Active) => true,
        (ConnectionPhase::Active, ConnectionPhase::Closing) => true,
        (_, ConnectionPhase::Closed) => true,
        _ => false,
    }
}

/// UI projection of a phase: what the status event for it reports.
pub fn phase_status(phase: ConnectionPhase) -> (r: ServerConnectionStatus)
    ensures
        (phase == ConnectionPhase::Idle || phase == ConnectionPhase::Closed) ==> r
            == ServerConnectionStatus::Disconnected,
        (phase == ConnectionPhase::Connecting || phase == ConnectionPhase::Handshaking) ==> r
            == ServerConnectionStatus::AttemptingConnection,
        (phase == ConnectionPhase::Active || phase == ConnectionPhase::Closing) ==> r
            == ServerConnectionStatus::Connected,
{
    match phase {
        ConnectionPhase::Idle => ServerConnectionStatus::Disconnected,
        ConnectionPhase::Closed => ServerConnectionStatus::Disconnected,
        ConnectionPhase::Connecting => ServerConnectionStatus::AttemptingConnection,
        ConnectionPhase::Handshaking => ServerConnectionStatus::AttemptingConnection,
        ConnectionPhase::Active => ServerConnectionStatus::Connected,
        ConnectionPhase::Closing => ServerConnectionStatus::Connected,
    }
}

} // verus!
