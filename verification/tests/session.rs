use ws_server::session::{
    Action, Directive, Event, Phase, Session, FIRST_STATION, LAST_STATION, PAUSE_MILLIS,
};

fn station_of(action: &Action) -> u64 {
    match action {
        Action::Send { text } => {
            let document: serde_json::Value = serde_json::from_str(text).unwrap();
            document.get("stn").unwrap().as_u64().unwrap()
        }
        other => panic!("no message: {:?}", other),
    }
}

fn streaming() -> Session {
    let mut session = Session::new();
    assert_eq!(
        session.advance(Event::HandshakeDone),
        Directive::Emit { station_id: 1 }
    );
    session
}

#[test]
fn the_cycle_runs_from_one_to_ten_thousand() {
    assert_eq!(FIRST_STATION, 1);
    assert_eq!(LAST_STATION, 10_000);
    assert_eq!(PAUSE_MILLIS, 1_000);
}

#[test]
fn a_new_session_waits_for_its_handshake() {
    let session = Session::new();
    assert_eq!(session.phase(), Phase::Handshaking);
    assert_eq!(session.station_id(), 1);
    assert!(!session.is_closed());
}

#[test]
fn a_handshake_starts_the_stream_at_station_one() {
    let mut session = Session::new();
    let directive = session.advance(Event::HandshakeDone);
    assert_eq!(directive, Directive::Emit { station_id: 1 });
    assert_eq!(session.phase(), Phase::Streaming);
    assert_eq!(session.station_id(), 1);
}

#[test]
fn a_failed_handshake_closes_the_session() {
    let mut session = Session::new();
    assert_eq!(session.advance(Event::HandshakeFailed), Directive::Close);
    assert!(session.is_closed());
    assert_eq!(session.phase(), Phase::Closed);
}

#[test]
fn each_write_moves_to_the_next_station() {
    let mut session = streaming();
    for expected in 2..=10_000u32 {
        assert_eq!(
            session.advance(Event::Sent),
            Directive::Emit {
                station_id: expected
            }
        );
        assert_eq!(session.station_id(), expected);
        assert_eq!(session.phase(), Phase::Streaming);
    }
}

#[test]
fn station_ids_cycle_with_a_pause_after_each_ten_thousand() {
    let mut session = Session::new();
    let mut directive = session.advance(Event::HandshakeDone);
    let mut emitted: Vec<u32> = Vec::new();
    let mut pauses_after: Vec<usize> = Vec::new();
    while emitted.len() < 25_000 {
        directive = match directive {
            Directive::Emit { station_id } => {
                emitted.push(station_id);
                session.advance(Event::Sent)
            }
            Directive::Pause { millis } => {
                assert_eq!(millis, 1_000);
                assert_eq!(emitted.last(), Some(&10_000));
                pauses_after.push(emitted.len());
                session.advance(Event::PauseElapsed)
            }
            Directive::Close => panic!("the session closed"),
        };
    }
    for (i, station_id) in emitted.iter().enumerate() {
        assert_eq!(*station_id as usize, i % 10_000 + 1);
    }
    assert_eq!(pauses_after, [10_000, 20_000]);
}

#[test]
fn the_pause_ends_with_station_one() {
    let mut session = streaming();
    for _ in 1..10_000 {
        session.advance(Event::Sent);
    }
    assert_eq!(session.station_id(), 10_000);
    assert_eq!(
        session.advance(Event::Sent),
        Directive::Pause { millis: 1_000 }
    );
    assert_eq!(session.phase(), Phase::Pausing);
    assert_eq!(session.station_id(), 1);
    assert_eq!(
        session.advance(Event::PauseElapsed),
        Directive::Emit { station_id: 1 }
    );
    assert_eq!(session.phase(), Phase::Streaming);
}

#[test]
fn a_failed_write_closes_the_session() {
    let mut session = streaming();
    session.advance(Event::Sent);
    session.advance(Event::Sent);
    assert_eq!(session.advance(Event::SendFailed), Directive::Close);
    assert!(session.is_closed());
    assert_eq!(session.station_id(), 3);
}

#[test]
fn a_closed_session_stays_closed() {
    let events = [
        Event::HandshakeDone,
        Event::HandshakeFailed,
        Event::Sent,
        Event::SendFailed,
        Event::PauseElapsed,
    ];
    let mut session = streaming();
    session.advance(Event::SendFailed);
    for event in events {
        assert_eq!(session.advance(event), Directive::Close);
        assert!(session.is_closed());
        assert_eq!(session.step(event), Action::Close);
        assert!(session.is_closed());
    }
}

#[test]
fn an_event_out_of_turn_closes_the_session() {
    for event in [Event::Sent, Event::SendFailed, Event::PauseElapsed] {
        let mut session = Session::new();
        assert_eq!(session.advance(event), Directive::Close);
        assert!(session.is_closed());
    }
    for event in [Event::HandshakeDone, Event::HandshakeFailed, Event::PauseElapsed] {
        let mut session = streaming();
        assert_eq!(session.advance(event), Directive::Close);
        assert!(session.is_closed());
    }
    for event in [
        Event::HandshakeDone,
        Event::HandshakeFailed,
        Event::Sent,
        Event::SendFailed,
    ] {
        let mut session = streaming();
        for _ in 0..10_000 {
            session.advance(Event::Sent);
        }
        assert_eq!(session.phase(), Phase::Pausing);
        assert_eq!(session.advance(event), Directive::Close);
        assert!(session.is_closed());
    }
}

#[test]
fn a_step_sends_the_document_of_the_station_due() {
    let mut session = Session::new();
    let mut action = session.step(Event::HandshakeDone);
    for expected in 1..=50u64 {
        assert_eq!(station_of(&action), expected);
        assert_eq!(session.station_id() as u64, expected);
        action = session.step(Event::Sent);
    }
}

#[test]
fn a_step_sends_a_record_inside_its_ranges() {
    let mut session = Session::new();
    let mut action = session.step(Event::HandshakeDone);
    for _ in 0..500 {
        match &action {
            Action::Send { text } => {
                let document: serde_json::Value = serde_json::from_str(text).unwrap();
                let bearing = document.get("bearing").unwrap().as_f64().unwrap();
                let range = document.get("range").unwrap().as_f64().unwrap();
                assert!(0.0 <= bearing && bearing < 360.0);
                assert!(0.0 <= range && range < 1e9);
                assert!(document.get("category").unwrap().as_u64().unwrap() < 10);
                assert!(document.get("general_type").unwrap().as_u64().unwrap() < 5);
            }
            other => panic!("no message: {:?}", other),
        }
        action = session.step(Event::Sent);
    }
}

#[test]
fn a_step_pauses_and_closes_as_the_session_decides() {
    let mut session = streaming();
    for _ in 1..10_000 {
        session.advance(Event::Sent);
    }
    assert_eq!(session.step(Event::Sent), Action::Pause { millis: 1_000 });
    assert_eq!(station_of(&session.step(Event::PauseElapsed)), 1);
    assert_eq!(session.step(Event::SendFailed), Action::Close);
    assert!(session.is_closed());
    let mut refused = Session::new();
    assert_eq!(refused.step(Event::HandshakeFailed), Action::Close);
    assert!(refused.is_closed());
}

#[test]
fn two_sessions_do_not_touch_each_other() {
    let mut one = Session::new();
    let mut other = Session::new();
    let mut from_one = vec![station_of(&one.step(Event::HandshakeDone))];
    for _ in 0..2 {
        from_one.push(station_of(&one.step(Event::Sent)));
    }
    let mut from_other = vec![station_of(&other.step(Event::HandshakeDone))];
    for i in 0..300 {
        from_one.push(station_of(&one.step(Event::Sent)));
        if i % 3 == 0 {
            from_other.push(station_of(&other.step(Event::Sent)));
        }
    }
    assert_eq!(other.step(Event::SendFailed), Action::Close);
    assert!(other.is_closed());
    assert!(!one.is_closed());
    for _ in 0..300 {
        from_one.push(station_of(&one.step(Event::Sent)));
    }
    let alone: Vec<u64> = (1..=603).collect();
    assert_eq!(from_one, alone);
    let alone: Vec<u64> = (1..=101).collect();
    assert_eq!(from_other, alone);
}
