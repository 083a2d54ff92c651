use ws_server::listener::{Listener, ListenerAction, ListenerEvent, ListenerPhase};
use ws_server::session::{Action, Event, Phase, Session};

fn served(action: ListenerAction) -> Session {
    match action {
        ListenerAction::Serve { session } => session,
        other => panic!("no session: {:?}", other),
    }
}

fn station_of(action: &Action) -> u64 {
    match action {
        Action::Send { text } => {
            let document: serde_json::Value = serde_json::from_str(text).unwrap();
            document.get("stn").unwrap().as_u64().unwrap()
        }
        other => panic!("no message: {:?}", other),
    }
}

#[test]
fn a_new_listener_is_not_bound() {
    assert_eq!(Listener::new().phase(), ListenerPhase::Binding);
}

#[test]
fn a_bound_listener_accepts() {
    let mut listener = Listener::new();
    assert!(matches!(
        listener.advance(ListenerEvent::Bound),
        ListenerAction::Accept
    ));
    assert_eq!(listener.phase(), ListenerPhase::Listening);
}

#[test]
fn a_failed_bind_is_fatal() {
    let mut listener = Listener::new();
    assert!(matches!(
        listener.advance(ListenerEvent::BindFailed),
        ListenerAction::Abort
    ));
    assert_eq!(listener.phase(), ListenerPhase::Failed);
    for event in [
        ListenerEvent::Bound,
        ListenerEvent::BindFailed,
        ListenerEvent::Accepted,
        ListenerEvent::AcceptFailed,
    ] {
        assert!(matches!(listener.advance(event), ListenerAction::Abort));
        assert_eq!(listener.phase(), ListenerPhase::Failed);
    }
}

#[test]
fn nothing_is_accepted_before_the_bind() {
    for event in [ListenerEvent::Accepted, ListenerEvent::AcceptFailed] {
        let mut listener = Listener::new();
        assert!(matches!(listener.advance(event), ListenerAction::Abort));
        assert_eq!(listener.phase(), ListenerPhase::Failed);
    }
}

#[test]
fn each_connection_gets_a_session_of_its_own() {
    let mut listener = Listener::new();
    listener.advance(ListenerEvent::Bound);
    for _ in 0..100 {
        let session = served(listener.advance(ListenerEvent::Accepted));
        assert_eq!(session.phase(), Phase::Handshaking);
        assert_eq!(session.station_id(), 1);
        assert_eq!(listener.phase(), ListenerPhase::Listening);
    }
}

#[test]
fn a_failed_accept_is_passed_over() {
    let mut listener = Listener::new();
    listener.advance(ListenerEvent::Bound);
    for _ in 0..100 {
        assert!(matches!(
            listener.advance(ListenerEvent::AcceptFailed),
            ListenerAction::Accept
        ));
        assert_eq!(listener.phase(), ListenerPhase::Listening);
    }
    let session = served(listener.advance(ListenerEvent::Accepted));
    assert_eq!(session.phase(), Phase::Handshaking);
}

#[test]
fn a_listener_that_listens_keeps_listening() {
    let mut listener = Listener::new();
    listener.advance(ListenerEvent::Bound);
    for event in [ListenerEvent::Bound, ListenerEvent::BindFailed] {
        assert!(matches!(listener.advance(event), ListenerAction::Accept));
        assert_eq!(listener.phase(), ListenerPhase::Listening);
    }
}

#[test]
fn a_client_gets_station_one_first_and_again_after_the_pause() {
    let mut listener = Listener::new();
    listener.advance(ListenerEvent::Bound);
    let mut session = served(listener.advance(ListenerEvent::Accepted));
    let mut action = session.step(Event::HandshakeDone);
    assert_eq!(station_of(&action), 1);
    for received in 1..=10_000u64 {
        assert_eq!(station_of(&action), received);
        action = session.step(Event::Sent);
    }
    assert_eq!(action, Action::Pause { millis: 1_000 });
    action = session.step(Event::PauseElapsed);
    assert_eq!(station_of(&action), 1);
    assert_eq!(station_of(&session.step(Event::Sent)), 2);
}

#[test]
fn a_lost_client_ends_its_session_and_not_the_listener() {
    let mut listener = Listener::new();
    listener.advance(ListenerEvent::Bound);
    let mut first = served(listener.advance(ListenerEvent::Accepted));
    let mut action = first.step(Event::HandshakeDone);
    for _ in 0..25 {
        assert!(matches!(action, Action::Send { .. }));
        action = first.step(Event::Sent);
    }
    assert_eq!(first.step(Event::SendFailed), Action::Close);
    assert!(first.is_closed());
    assert_eq!(listener.phase(), ListenerPhase::Listening);
    let mut second = served(listener.advance(ListenerEvent::Accepted));
    assert_eq!(station_of(&second.step(Event::HandshakeDone)), 1);
    assert_eq!(station_of(&second.step(Event::Sent)), 2);
}

#[test]
fn a_failed_handshake_ends_its_session_and_not_the_listener() {
    let mut listener = Listener::new();
    listener.advance(ListenerEvent::Bound);
    let mut first = served(listener.advance(ListenerEvent::Accepted));
    assert_eq!(first.step(Event::HandshakeFailed), Action::Close);
    assert_eq!(listener.phase(), ListenerPhase::Listening);
    let mut second = served(listener.advance(ListenerEvent::Accepted));
    assert_eq!(station_of(&second.step(Event::HandshakeDone)), 1);
}
