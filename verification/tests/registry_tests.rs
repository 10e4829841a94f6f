use boop_client::codec::ServerMessage;
use boop_client::registry::{ControlEndpoint, SessionHandle, SessionRegistry};

fn handle(id: u64, control_open: bool, sink_open: bool) -> SessionHandle {
    SessionHandle {
        session_id: id,
        control: ControlEndpoint { open: control_open, close_requested: false },
        sink_open,
    }
}

#[test]
fn fresh_registry_is_inactive() {
    let r = SessionRegistry::new();
    assert!(!r.is_active());
    assert_eq!(r.active_session_id(), None);
}

#[test]
fn begin_installs_the_handle() {
    let mut r = SessionRegistry::new();
    assert_eq!(r.begin(handle(1, true, true)), None);
    assert!(r.is_active());
    assert_eq!(r.active_session_id(), Some(1));
}

#[test]
fn second_begin_signals_and_displaces_the_first() {
    let mut r = SessionRegistry::new();
    r.begin(handle(1, true, true));
    let displaced = r.begin(handle(2, true, true)).expect("first handle displaced");
    assert_eq!(displaced.session_id, 1);
    assert!(displaced.control.close_requested);
    assert_eq!(r.active_session_id(), Some(2));
}

#[test]
fn closed_control_endpoint_counts_as_gone() {
    let mut r = SessionRegistry::new();
    r.begin(handle(1, false, true));
    let displaced = r.begin(handle(2, true, true)).expect("first handle displaced");
    assert_eq!(displaced.session_id, 1);
    assert!(!displaced.control.close_requested);
    assert_eq!(r.active_session_id(), Some(2));
}

#[test]
fn request_disconnect_signals_and_clears() {
    let mut r = SessionRegistry::new();
    r.begin(handle(7, true, true));
    let displaced = r.request_disconnect().expect("active handle displaced");
    assert_eq!(displaced.session_id, 7);
    assert!(displaced.control.close_requested);
    assert!(!r.is_active());
    assert_eq!(r.request_disconnect(), None);
}

#[test]
fn queue_boop_needs_an_open_sink() {
    let mut r = SessionRegistry::new();
    assert_eq!(r.queue_boop(String::from("bob")), None);

    r.begin(handle(1, true, false));
    assert_eq!(r.queue_boop(String::from("bob")), None);

    r.begin(handle(2, true, true));
    assert_eq!(
        r.queue_boop(String::from("bob")),
        Some(ServerMessage::Boop { partner_key: String::from("bob") })
    );
}
