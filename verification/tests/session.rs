use chat_fanout::session::{classify, Inbound, Session, SessionAction, SessionEvent, SessionState};

fn active(id: usize) -> Session {
    let mut session = Session::new(id);
    assert_eq!(session.step(SessionEvent::Started), SessionAction::AnnounceJoin);
    session
}

fn closing(id: usize) -> Session {
    let mut session = active(id);
    assert_eq!(session.step(SessionEvent::CloseRead), SessionAction::TearDown);
    session
}

fn every_event() -> Vec<SessionEvent> {
    vec![
        SessionEvent::Started,
        SessionEvent::TextRead(String::from("text")),
        SessionEvent::MalformedRead,
        SessionEvent::CloseRead,
        SessionEvent::ReadFailed,
        SessionEvent::WriteFailed,
        SessionEvent::TornDown,
    ]
}

#[test]
fn a_new_session_is_connecting() {
    let session = Session::new(4);
    assert_eq!(session.id(), 4);
    assert_eq!(session.state(), SessionState::Connecting);
}

#[test]
fn starting_activates_and_announces_the_join() {
    let mut session = Session::new(4);
    assert_eq!(session.step(SessionEvent::Started), SessionAction::AnnounceJoin);
    assert_eq!(session.state(), SessionState::Active);
    assert_eq!(session.id(), 4);
}

#[test]
fn a_connecting_session_waits_for_its_start() {
    for event in every_event() {
        if event == SessionEvent::Started {
            continue;
        }
        let mut session = Session::new(1);
        assert_eq!(session.step(event), SessionAction::Nothing);
        assert_eq!(session.state(), SessionState::Connecting);
    }
}

#[test]
fn text_is_relayed_and_the_session_stays_active() {
    let mut session = active(1);
    assert_eq!(
        session.step(SessionEvent::TextRead(String::from("hello"))),
        SessionAction::Relay(String::from("hello"))
    );
    assert_eq!(session.state(), SessionState::Active);
}

#[test]
fn malformed_input_is_ignored() {
    let mut session = active(1);
    assert_eq!(session.step(SessionEvent::MalformedRead), SessionAction::Nothing);
    assert_eq!(session.state(), SessionState::Active);
}

#[test]
fn every_fault_closes_an_active_session() {
    for fault in [SessionEvent::CloseRead, SessionEvent::ReadFailed, SessionEvent::WriteFailed] {
        let mut session = active(1);
        assert_eq!(session.step(fault), SessionAction::TearDown);
        assert_eq!(session.state(), SessionState::Closing);
    }
}

#[test]
fn an_active_session_ignores_what_does_not_concern_it() {
    for event in [SessionEvent::Started, SessionEvent::TornDown] {
        let mut session = active(1);
        assert_eq!(session.step(event), SessionAction::Nothing);
        assert_eq!(session.state(), SessionState::Active);
    }
}

#[test]
fn a_closing_session_asks_for_nothing_more() {
    for event in every_event() {
        let torn_down = event == SessionEvent::TornDown;
        let mut session = closing(1);
        assert_eq!(session.step(event), SessionAction::Nothing);
        if torn_down {
            assert_eq!(session.state(), SessionState::Closed);
        } else {
            assert_eq!(session.state(), SessionState::Closing);
        }
    }
}

#[test]
fn a_closed_session_is_never_reused() {
    for event in every_event() {
        let mut session = closing(1);
        session.step(SessionEvent::TornDown);
        assert_eq!(session.state(), SessionState::Closed);
        assert_eq!(session.step(event), SessionAction::Nothing);
        assert_eq!(session.state(), SessionState::Closed);
    }
}

#[test]
fn teardown_is_asked_for_once_in_a_life() {
    let mut session = Session::new(1);
    let life = vec![
        SessionEvent::Started,
        SessionEvent::TextRead(String::from("a")),
        SessionEvent::WriteFailed,
        SessionEvent::ReadFailed,
        SessionEvent::CloseRead,
        SessionEvent::TornDown,
        SessionEvent::CloseRead,
    ];
    let mut teardowns = 0;
    for event in life {
        if session.step(event) == SessionAction::TearDown {
            teardowns += 1;
        }
    }
    assert_eq!(teardowns, 1);
    assert_eq!(session.state(), SessionState::Closed);
}

#[test]
fn reads_are_classified() {
    assert_eq!(classify(Inbound::Ended), SessionEvent::CloseRead);
    assert_eq!(classify(Inbound::Failed), SessionEvent::ReadFailed);
    assert_eq!(
        classify(Inbound::Unit { close: false, text: Some(String::from("hi")) }),
        SessionEvent::TextRead(String::from("hi"))
    );
    assert_eq!(
        classify(Inbound::Unit { close: false, text: Some(String::new()) }),
        SessionEvent::TextRead(String::new())
    );
    assert_eq!(classify(Inbound::Unit { close: false, text: None }), SessionEvent::MalformedRead);
}

#[test]
fn a_close_signal_wins_over_its_content() {
    assert_eq!(classify(Inbound::Unit { close: true, text: None }), SessionEvent::CloseRead);
    assert_eq!(
        classify(Inbound::Unit { close: true, text: Some(String::from("bye")) }),
        SessionEvent::CloseRead
    );
}
