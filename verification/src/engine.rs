//! The multiplexed event loop as a state machine.
//!
//! The running loop races five event sources — two timers, the outbound
//! queue, the control channel and the inbound stream — with no fixed
//! priority.  Each readiness becomes one [`LoopEvent`]; [`engine_step`]
//! takes it together with the watchdog state and the presence tracker and
//! decides everything: what to write, what to report to the UI boundary,
//! and whether the loop goes on.  The runner only performs the effects.

use vstd::prelude::*;

use crate::codec::{decode, decode_spec, MessageView, ProtocolErrorKind, ServerMessage};
use crate::errors::SessionError;
use crate::partners::{PartnerOnlineStatus, PresenceTracker, PresenceView};
use crate::registry::ControlMessage;

verus! {

/// Seconds between liveness pings.
pub const PING_INTERVAL_SECS: u64 = 5;

/// Seconds between presence probe rounds.
pub const PARTNER_CHECK_INTERVAL_SECS: u64 = 15;

/// How many consecutive pings may go unanswered before the next tick
/// fails the session.
pub const ALLOWED_PING_MISSES: u32 = 3;

/// One event source becoming ready.
pub enum LoopEvent {
    /// The liveness timer fired.
    LivenessTick,
    /// The presence timer fired.
    PresenceTick,
    /// The outbound queue handed over an application message.
    Outbound { message: ServerMessage },
    /// The control channel handed over a command.
    Control { message: ControlMessage },
    /// One line arrived from the server.
    InboundLine { line: String },
    /// The inbound stream ended with a zero-length read.
    InboundClosed,
}

/// How the loop goes on after a step.
#[derive(Debug, Clone, Copy, PartialEq, Eq, Structural)]
pub enum LoopOutcome {
    /// Keep racing the event sources.
    Continue,
    /// The server acknowledged the close; the session ends without error.
    Finished,
    /// A fatal condition ends the session.
    Failed(SessionError),
}

/// The loop's phase: `Active` until a graceful close has been requested,
/// then `Closing` while the server's farewell is awaited.
#[derive(Debug, Clone, Copy, PartialEq, Eq, Structural)]
pub enum LoopPhase {
    Active,
    Closing,
}

/// Watchdog and phase state carried between steps.
#[derive(Debug, Clone, Copy, PartialEq, Eq, Structural)]
pub struct EngineState {
    pub phase: LoopPhase,
    pub missed_pongs: u32,
    pub ping_threshold: u32,
}

impl EngineState {
    /// The watchdog counter can always climb once more.
    pub open spec fn wf(&self) -> bool {
        self.ping_threshold < u32::MAX
    }

    /// State for a session that just became active.
    pub fn new() -> (r: EngineState)
        ensures
            r.phase == LoopPhase::Active,
            r.missed_pongs == 0,
            r.ping_threshold == ALLOWED_PING_MISSES,
            r.wf(),
    {
        EngineState {
            phase: LoopPhase::Active,
            missed_pongs: 0,
            ping_threshold: ALLOWED_PING_MISSES,
        }
    }
}

/// What the runner must do after a step.
pub struct StepEffects {
    /// Messages to write to the connection, in this order.
    pub to_send: Vec<ServerMessage>,
    /// Shut the write half down after sending.
    pub shutdown_write: bool,
    /// Report a received boop from this partner to the UI boundary.
    pub boop_from: Option<String>,
    /// Report this partner's new status to the UI boundary.
    pub presence_changed: Option<(String, PartnerOnlineStatus)>,
    /// An error the server reported, for the log.
    pub server_error: Option<ProtocolErrorKind>,
    /// Whether the loop continues, finished, or failed.
    pub outcome: LoopOutcome,
}

/// The messages to send, as message shapes.
pub open spec fn sends_view(fx: StepEffects) -> Seq<MessageView> {
    fx.to_send@.map_values(|m: ServerMessage| m@)
}

/// The boop report, as a key sequence.
pub open spec fn boop_view(fx: StepEffects) -> Option<Seq<char>> {
    match fx.boop_from {
        Some(s) => Some(s@),
        None => None,
    }
}

/// The presence report, as a key sequence and status.
pub open spec fn presence_view(fx: StepEffects) -> Option<(Seq<char>, PartnerOnlineStatus)> {
    match fx.presence_changed {
        Some(p) => Some((p.0@, p.1)),
        None => None,
    }
}

/// No write shutdown and no UI reports.
pub open spec fn quiet(fx: StepEffects) -> bool {
    &&& !fx.shutdown_write
    &&& fx.boop_from is None
    &&& fx.presence_changed is None
    &&& fx.server_error is None
}

/// The watchdog counter does not change, nor does the threshold.
pub open spec fn same_watchdog(s0: EngineState, s1: EngineState) -> bool {
    s1.missed_pongs == s0.missed_pongs && s1.ping_threshold == s0.ping_threshold
}

/// One liveness tick of the watchdog model: a counter past the threshold
/// fails, anything else climbs by one (and a ping goes out).
pub open spec fn spec_liveness_tick(missed: nat, threshold: nat) -> Option<nat> {
    if missed > threshold {
        None
    } else {
        Some((missed + 1) as nat)
    }
}

/// The counter after `k` consecutive ticks with no pong in between,
/// starting from zero; `None` once a tick has failed.
pub open spec fn spec_liveness_run(k: nat, threshold: nat) -> Option<nat>
    decreases k,
{
    if k == 0 {
        Some(0)
    } else {
        match spec_liveness_run((k - 1) as nat, threshold) {
            None => None,
            Some(m) => spec_liveness_tick(m, threshold),
        }
    }
}

/// A liveness tick: failure past the threshold, else a ping and a higher
/// counter.
pub open spec fn tick_effects(s0: EngineState, s1: EngineState, fx: StepEffects) -> bool {
    match spec_liveness_tick(s0.missed_pongs as nat, s0.ping_threshold as nat) {
        None => {
            &&& s1 == s0
            &&& sends_view(fx) == Seq::<MessageView>::empty()
            &&& quiet(fx)
            &&& fx.outcome == LoopOutcome::Failed(SessionError::LivenessFailure)
        },
        Some(m) => {
            &&& s1.missed_pongs as nat == m
            &&& s1.phase == s0.phase
            &&& s1.ping_threshold == s0.ping_threshold
            &&& sends_view(fx) == seq![MessageView::Ping]
            &&& quiet(fx)
            &&& fx.outcome == LoopOutcome::Continue
        },
    }
}

/// A presence round: one probe per tracked key, in the tracker's order.
pub open spec fn probes_view(keys: Seq<Seq<char>>) -> Seq<MessageView> {
    keys.map_values(|k: Seq<char>| MessageView::AreYouThere { partner_key: k })
}

/// A presence report changes exactly the named partner — and only if it is
/// known — and is echoed to the UI boundary exactly when it changed
/// something.
pub open spec fn presence_delta(
    m0: Map<Seq<char>, PresenceView>,
    m1: Map<Seq<char>, PresenceView>,
    key: Seq<char>,
    status: PartnerOnlineStatus,
    fx: StepEffects,
) -> bool {
    if m0.contains_key(key) {
        &&& m1 == m0.insert(key, PresenceView { partner: m0[key].partner, status })
        &&& presence_view(fx) == Some((key, status))
    } else {
        &&& m1 == m0
        &&& fx.presence_changed is None
    }
}

/// What one inbound line does, by its decoded meaning.
pub open spec fn inbound_effects(
    line: Seq<char>,
    s0: EngineState,
    s1: EngineState,
    m0: Map<Seq<char>, PresenceView>,
    m1: Map<Seq<char>, PresenceView>,
    fx: StepEffects,
) -> bool {
    match decode_spec(line) {
        Ok(m) => match m {
            MessageView::Boop { partner_key } => {
                &&& s1 == s0
                &&& m1 == m0
                &&& sends_view(fx) == Seq::<MessageView>::empty()
                &&& !fx.shutdown_write
                &&& boop_view(fx) == Some(partner_key)
                &&& fx.presence_changed is None
                &&& fx.server_error is None
                &&& fx.outcome == LoopOutcome::Continue
            },
            MessageView::Bye => {
                &&& s1 == s0
                &&& m1 == m0
                &&& sends_view(fx) == Seq::<MessageView>::empty()
                &&& quiet(fx)
                &&& fx.outcome == LoopOutcome::Finished
            },
            MessageView::Pong => {
                &&& s1.missed_pongs == 0
                &&& s1.phase == s0.phase
                &&& s1.ping_threshold == s0.ping_threshold
                &&& m1 == m0
                &&& sends_view(fx) == Seq::<MessageView>::empty()
                &&& quiet(fx)
                &&& fx.outcome == LoopOutcome::Continue
            },
            MessageView::Error { kind } => {
                &&& s1 == s0
                &&& m1 == m0
                &&& sends_view(fx) == Seq::<MessageView>::empty()
                &&& !fx.shutdown_write
                &&& fx.boop_from is None
                &&& fx.presence_changed is None
                &&& fx.server_error == Some(kind)
                &&& fx.outcome == LoopOutcome::Continue
            },
            MessageView::Online { partner_key } => {
                &&& s1 == s0
                &&& presence_delta(m0, m1, partner_key, PartnerOnlineStatus::Online, fx)
                &&& sends_view(fx) == Seq::<MessageView>::empty()
                &&& !fx.shutdown_write
                &&& fx.boop_from is None
                &&& fx.server_error is None
                &&& fx.outcome == LoopOutcome::Continue
            },
            MessageView::Afk { partner_key } => {
                &&& s1 == s0
                &&& presence_delta(m0, m1, partner_key, PartnerOnlineStatus::Afk, fx)
                &&& sends_view(fx) == Seq::<MessageView>::empty()
                &&& !fx.shutdown_write
                &&& fx.boop_from is None
                &&& fx.server_error is None
                &&& fx.outcome == LoopOutcome::Continue
            },
            _ => {
                &&& s1 == s0
                &&& m1 == m0
                &&& sends_view(fx) == seq![
                    MessageView::Error { kind: ProtocolErrorKind::ProtocolMismatch },
                ]
                &&& fx.shutdown_write
                &&& fx.boop_from is None
                &&& fx.presence_changed is None
                &&& fx.server_error is None
                &&& fx.outcome == LoopOutcome::Failed(
                    SessionError::ProtocolError(ProtocolErrorKind::ProtocolMismatch),
                )
            },
        },
        Err(k) => {
            &&& s1 == s0
            &&& m1 == m0
            &&& sends_view(fx) == seq![MessageView::Error { kind: k }]
            &&& fx.shutdown_write
            &&& fx.boop_from is None
            &&& fx.presence_changed is None
            &&& fx.server_error is None
            &&& fx.outcome == LoopOutcome::Failed(SessionError::ProtocolError(k))
        },
    }
}

/// Effects that keep nothing but the loop running.
fn continue_effects() -> (fx: StepEffects)
    ensures
        sends_view(fx) == Seq::<MessageView>::empty(),
        fx.to_send@ == Seq::<ServerMessage>::empty(),
        !fx.shutdown_write,
        fx.boop_from is None,
        fx.presence_changed is None,
        fx.server_error is None,
        fx.outcome == LoopOutcome::Continue,
{
    let fx = StepEffects {
        to_send: Vec::new(),
        shutdown_write: false,
        boop_from: None,
        presence_changed: None,
        server_error: None,
        outcome: LoopOutcome::Continue,
    };
    proof {
        assert(sends_view(fx) =~= Seq::<MessageView>::empty());
    }
    fx
}

/// One step of the event loop: take the event that won the race, mutate
/// the watchdog state and the presence tracker as the protocol demands,
/// and hand the runner its marching orders.
pub fn engine_step(state: &mut EngineState, tracker: &mut PresenceTracker, event: LoopEvent) -> (fx:
    StepEffects)
    requires
        old(state).wf(),
        old(tracker).wf(),
    ensures
        final(state).wf(),
        final(tracker).wf(),
        match event {
            LoopEvent::LivenessTick => {
                &&& tick_effects(*old(state), *final(state), fx)
                &&& final(tracker)@ == old(tracker)@
            },
            LoopEvent::PresenceTick => {
                &&& *final(state) == *old(state)
                &&& final(tracker)@ == old(tracker)@
                &&& sends_view(fx) == probes_view(old(tracker).key_seq())
                &&& quiet(fx)
                &&& fx.outcome == LoopOutcome::Continue
            },
            LoopEvent::Outbound { message } => {
                &&& *final(state) == *old(state)
                &&& final(tracker)@ == old(tracker)@
                &&& sends_view(fx) == seq![message@]
                &&& quiet(fx)
                &&& fx.outcome == LoopOutcome::Continue
            },
            LoopEvent::Control { message } => {
                &&& final(state).phase == LoopPhase::Closing
                &&& same_watchdog(*old(state), *final(state))
                &&& final(tracker)@ == old(tracker)@
                &&& sends_view(fx) == seq![MessageView::Disconnect]
                &&& quiet(fx)
                &&& fx.outcome == LoopOutcome::Continue
            },
            LoopEvent::InboundLine { line } => inbound_effects(
                line@,
                *old(state),
                *final(state),
                old(tracker)@,
                final(tracker)@,
                fx,
            ),
            LoopEvent::InboundClosed => {
                &&& *final(state) == *old(state)
                &&& final(tracker)@ == old(tracker)@
                &&& sends_view(fx) == Seq::<MessageView>::empty()
                &&& quiet(fx)
                &&& fx.outcome == LoopOutcome::Failed(SessionError::UnexpectedClose)
            },
        },
{
    match event {
        LoopEvent::LivenessTick => {
            if state.missed_pongs > state.ping_threshold {
                let mut fx = continue_effects();
                fx.outcome = LoopOutcome::Failed(SessionError::LivenessFailure);
                fx
            } else {
                state.missed_pongs = state.missed_pongs + 1;
                let mut fx = continue_effects();
                fx.to_send.push(ServerMessage::Ping);
                proof {
                    assert(sends_view(fx) =~= seq![MessageView::Ping]);
                }
                fx
            }
        },
        LoopEvent::PresenceTick => {
            let keys = tracker.keys();
            let n = keys.len();
            let mut out: Vec<ServerMessage> = Vec::new();
            let mut i: usize = 0;
            while i < n
                invariant
                    n == keys@.len(),
                    i <= n,
                    out@.len() == i,
                    forall|j: int|
                        0 <= j < i ==> (#[trigger] out@[j])@ == (MessageView::AreYouThere {
                            partner_key: keys.deep_view()[j],
                        }),
                decreases n - i,
            {
                out.push(ServerMessage::AreYouThere { partner_key: keys[i].clone() });
                i = i + 1;
            }
            let mut fx = continue_effects();
            fx.to_send = out;
            proof {
                assert(sends_view(fx) =~= probes_view(keys.deep_view()));
            }
            fx
        },
        LoopEvent::Outbound { message } => {
            let mut fx = continue_effects();
            let ghost mv = message@;
            fx.to_send.push(message);
            proof {
                assert(sends_view(fx) =~= seq![mv]);
            }
            fx
        },
        LoopEvent::Control { message } => {
            match message {
                ControlMessage::CloseConnection => {
                    state.phase = LoopPhase::Closing;
                    let mut fx = continue_effects();
                    fx.to_send.push(ServerMessage::Disconnect);
                    proof {
                        assert(sends_view(fx) =~= seq![MessageView::Disconnect]);
                    }
                    fx
                },
            }
        },
        LoopEvent::InboundLine { line } => {
            match decode(line.as_str()) {
                Ok(ServerMessage::Boop { partner_key }) => {
                    let mut fx = continue_effects();
                    fx.boop_from = Some(partner_key);
                    fx
                },
                Ok(ServerMessage::Bye) => {
                    let mut fx = continue_effects();
                    fx.outcome = LoopOutcome::Finished;
                    fx
                },
                Ok(ServerMessage::Pong) => {
                    state.missed_pongs = 0;
                    continue_effects()
                },
                Ok(ServerMessage::Error { kind }) => {
                    let mut fx = continue_effects();
                    fx.server_error = Some(kind);
                    fx
                },
                Ok(ServerMessage::Online { partner_key }) => {
                    let changed = tracker.set_status(
                        partner_key.as_str(),
                        PartnerOnlineStatus::Online,
                    );
                    let mut fx = continue_effects();
                    if changed {
                        fx.presence_changed = Some((partner_key, PartnerOnlineStatus::Online));
                    }
                    fx
                },
                Ok(ServerMessage::Afk { partner_key }) => {
                    let changed = tracker.set_status(
                        partner_key.as_str(),
                        PartnerOnlineStatus::Afk,
                    );
                    let mut fx = continue_effects();
                    if changed {
                        fx.presence_changed = Some((partner_key, PartnerOnlineStatus::Afk));
                    }
                    fx
                },
                Ok(_) => {
                    let mut fx = continue_effects();
                    fx.to_send.push(
                        ServerMessage::Error { kind: ProtocolErrorKind::ProtocolMismatch },
                    );
                    fx.shutdown_write = true;
                    fx.outcome = LoopOutcome::Failed(
                        SessionError::ProtocolError(ProtocolErrorKind::ProtocolMismatch),
                    );
                    proof {
                        assert(sends_view(fx) =~= seq![
                            MessageView::Error { kind: ProtocolErrorKind::ProtocolMismatch },
                        ]);
                    }
                    fx
                },
                Err(kind) => {
                    let mut fx = continue_effects();
                    fx.to_send.push(ServerMessage::Error { kind });
                    fx.shutdown_write = true;
                    fx.outcome = LoopOutcome::Failed(SessionError::ProtocolError(kind));
                    proof {
                        assert(sends_view(fx) =~= seq![MessageView::Error { kind }]);
                    }
                    fx
                },
            }
        },
        LoopEvent::InboundClosed => {
            let mut fx = continue_effects();
            fx.outcome = LoopOutcome::Failed(SessionError::UnexpectedClose);
            fx
        },
    }
}

/// The counter after `k` unanswered ticks reads exactly `k`, as long as
/// the run has not failed yet.
proof fn lemma_liveness_counter(threshold: nat, k: nat)
    requires
        k <= threshold + 1,
    ensures
        spec_liveness_run(k, threshold) == Some(k),
    decreases k,
{
    if k > 0 {
        lemma_liveness_counter(threshold, (k - 1) as nat);
    }
}

/// Liveness law: with threshold `t` and no pong ever arriving, each of the
/// first `t + 1` liveness ticks sends a ping — after `k` of them the
/// counter reads exactly `k` — and the tick after that fails the session.
pub proof fn lemma_liveness_watchdog(threshold: nat)
    ensures
        forall|k: nat| k <= threshold + 1 ==> spec_liveness_run(k, threshold) == Some(k),
        spec_liveness_run(threshold + 2, threshold) == None::<nat>,
{
    assert forall|k: nat| k <= threshold + 1 implies spec_liveness_run(k, threshold) == Some(k) by {
        lemma_liveness_counter(threshold, k);
    }
    lemma_liveness_counter(threshold, threshold + 1);
}

} // verus!
