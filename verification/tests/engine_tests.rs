use boop_client::codec::{ProtocolErrorKind, ServerMessage};
use boop_client::engine::{
    engine_step, EngineState, LoopEvent, LoopOutcome, LoopPhase, StepEffects,
    ALLOWED_PING_MISSES, PARTNER_CHECK_INTERVAL_SECS, PING_INTERVAL_SECS,
};
use boop_client::errors::SessionError;
use boop_client::partners::{BoopPartner, PartnerOnlineStatus, PresenceTracker};

fn tracker_with(partners: &[(&str, &str)]) -> PresenceTracker {
    let mut t = PresenceTracker::new();
    for (nick, key) in partners {
        t.insert_partner(BoopPartner::new(String::from(*nick), String::from(*key)));
    }
    t
}

fn inbound(state: &mut EngineState, tracker: &mut PresenceTracker, line: &str) -> StepEffects {
    engine_step(state, tracker, LoopEvent::InboundLine { line: String::from(line) })
}

#[test]
fn default_intervals_and_threshold() {
    assert_eq!(PING_INTERVAL_SECS, 5);
    assert_eq!(PARTNER_CHECK_INTERVAL_SECS, 15);
    assert_eq!(ALLOWED_PING_MISSES, 3);
    let s = EngineState::new();
    assert_eq!(s.phase, LoopPhase::Active);
    assert_eq!(s.missed_pongs, 0);
    assert_eq!(s.ping_threshold, 3);
}

#[test]
fn silent_server_fails_after_threshold_plus_one_pings() {
    let mut state = EngineState::new();
    let mut tracker = PresenceTracker::new();
    // The first threshold + 1 = 4 ticks each send a ping.
    for round in 1..=4u32 {
        let fx = engine_step(&mut state, &mut tracker, LoopEvent::LivenessTick);
        assert_eq!(fx.outcome, LoopOutcome::Continue, "tick {round}");
        assert_eq!(fx.to_send, vec![ServerMessage::Ping], "tick {round}");
        assert_eq!(state.missed_pongs, round);
    }
    // The fifth tick gives the peer up.
    let fx = engine_step(&mut state, &mut tracker, LoopEvent::LivenessTick);
    assert_eq!(fx.outcome, LoopOutcome::Failed(SessionError::LivenessFailure));
    assert!(fx.to_send.is_empty());
}

#[test]
fn pong_resets_the_watchdog() {
    let mut state = EngineState::new();
    let mut tracker = PresenceTracker::new();
    engine_step(&mut state, &mut tracker, LoopEvent::LivenessTick);
    engine_step(&mut state, &mut tracker, LoopEvent::LivenessTick);
    assert_eq!(state.missed_pongs, 2);
    let fx = inbound(&mut state, &mut tracker, "PONG\n");
    assert_eq!(fx.outcome, LoopOutcome::Continue);
    assert_eq!(state.missed_pongs, 0);
}

#[test]
fn presence_tick_probes_every_partner() {
    let mut state = EngineState::new();
    let mut tracker = tracker_with(&[("Alice", "alice"), ("Bob", "bob")]);
    let fx = engine_step(&mut state, &mut tracker, LoopEvent::PresenceTick);
    assert_eq!(fx.outcome, LoopOutcome::Continue);
    assert_eq!(
        fx.to_send,
        vec![
            ServerMessage::AreYouThere { partner_key: String::from("alice") },
            ServerMessage::AreYouThere { partner_key: String::from("bob") },
        ]
    );
}

#[test]
fn outbound_message_is_forwarded_verbatim() {
    let mut state = EngineState::new();
    let mut tracker = PresenceTracker::new();
    let msg = ServerMessage::Boop { partner_key: String::from("bob") };
    let fx = engine_step(&mut state, &mut tracker, LoopEvent::Outbound { message: msg.clone() });
    assert_eq!(fx.outcome, LoopOutcome::Continue);
    assert_eq!(fx.to_send, vec![msg]);
}

#[test]
fn close_request_sends_disconnect_and_keeps_running() {
    let mut state = EngineState::new();
    let mut tracker = PresenceTracker::new();
    let fx = engine_step(
        &mut state,
        &mut tracker,
        LoopEvent::Control { message: boop_client::registry::ControlMessage::CloseConnection },
    );
    assert_eq!(fx.outcome, LoopOutcome::Continue);
    assert_eq!(fx.to_send, vec![ServerMessage::Disconnect]);
    assert_eq!(state.phase, LoopPhase::Closing);
}

#[test]
fn inbound_boop_is_reported() {
    let mut state = EngineState::new();
    let mut tracker = PresenceTracker::new();
    let fx = inbound(&mut state, &mut tracker, "BOOP bob\n");
    assert_eq!(fx.outcome, LoopOutcome::Continue);
    assert_eq!(fx.boop_from, Some(String::from("bob")));
    assert!(fx.to_send.is_empty());
}

#[test]
fn inbound_bye_finishes_the_loop() {
    let mut state = EngineState::new();
    let mut tracker = PresenceTracker::new();
    let fx = inbound(&mut state, &mut tracker, "BYE\n");
    assert_eq!(fx.outcome, LoopOutcome::Finished);
    assert!(fx.to_send.is_empty());
    assert!(!fx.shutdown_write);
}

#[test]
fn inbound_server_error_is_logged_only() {
    let mut state = EngineState::new();
    let mut tracker = PresenceTracker::new();
    let fx = inbound(&mut state, &mut tracker, "ERROR APPLICATION\n");
    assert_eq!(fx.outcome, LoopOutcome::Continue);
    assert_eq!(fx.server_error, Some(ProtocolErrorKind::ApplicationError));
}

#[test]
fn online_for_known_partner_updates_and_reports_one_delta() {
    let mut state = EngineState::new();
    let mut tracker = tracker_with(&[("Alice", "alice"), ("Bob", "bob")]);
    let fx = inbound(&mut state, &mut tracker, "ONLINE alice\n");
    assert_eq!(fx.outcome, LoopOutcome::Continue);
    assert_eq!(
        fx.presence_changed,
        Some((String::from("alice"), PartnerOnlineStatus::Online))
    );
    let rows = boop_client::partners::get_partners_payload(&tracker);
    assert_eq!(rows[0].online, 1);
    assert_eq!(rows[1].online, 0);
}

#[test]
fn online_for_unknown_partner_changes_and_reports_nothing() {
    let mut state = EngineState::new();
    let mut tracker = tracker_with(&[("Alice", "alice")]);
    let fx = inbound(&mut state, &mut tracker, "ONLINE bob\n");
    assert_eq!(fx.outcome, LoopOutcome::Continue);
    assert_eq!(fx.presence_changed, None);
    let rows = boop_client::partners::get_partners_payload(&tracker);
    assert_eq!(rows.len(), 1);
    assert_eq!(rows[0].online, 0);
}

#[test]
fn afk_for_known_partner_updates_and_reports() {
    let mut state = EngineState::new();
    let mut tracker = tracker_with(&[("Alice", "alice")]);
    let fx = inbound(&mut state, &mut tracker, "AFK alice\n");
    assert_eq!(
        fx.presence_changed,
        Some((String::from("alice"), PartnerOnlineStatus::Afk))
    );
    let rows = boop_client::partners::get_partners_payload(&tracker);
    assert_eq!(rows[0].online, -1);
}

#[test]
fn out_of_phase_message_is_rejected_and_fatal() {
    let mut state = EngineState::new();
    let mut tracker = PresenceTracker::new();
    let fx = inbound(&mut state, &mut tracker, "HEY\n");
    assert_eq!(
        fx.outcome,
        LoopOutcome::Failed(SessionError::ProtocolError(ProtocolErrorKind::ProtocolMismatch))
    );
    assert_eq!(
        fx.to_send,
        vec![ServerMessage::Error { kind: ProtocolErrorKind::ProtocolMismatch }]
    );
    assert!(fx.shutdown_write);
}

#[test]
fn malformed_line_is_answered_and_fatal() {
    let mut state = EngineState::new();
    let mut tracker = PresenceTracker::new();
    let fx = inbound(&mut state, &mut tracker, "GIBBERISH x y\n");
    assert_eq!(
        fx.outcome,
        LoopOutcome::Failed(SessionError::ProtocolError(ProtocolErrorKind::MalformedMessage))
    );
    assert_eq!(
        fx.to_send,
        vec![ServerMessage::Error { kind: ProtocolErrorKind::MalformedMessage }]
    );
    assert!(fx.shutdown_write);
}

#[test]
fn closed_stream_is_an_unexpected_close() {
    let mut state = EngineState::new();
    let mut tracker = PresenceTracker::new();
    let fx = engine_step(&mut state, &mut tracker, LoopEvent::InboundClosed);
    assert_eq!(fx.outcome, LoopOutcome::Failed(SessionError::UnexpectedClose));
    assert!(fx.to_send.is_empty());
}
