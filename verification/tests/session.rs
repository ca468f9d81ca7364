use tokio::sync::mpsc::unbounded_channel;
use wss::service::registry::ConnectionRegistry;
use wss::service::session::{ConnectionSession, SessionAction, SessionEvent, SessionState};
use wss::service::status::{Method, PresenceState, StatusService, Timestamp};
use wss::service::wss::{EventPlay, Frame, WssMessage, WssService};

fn play(server: i32) -> SessionEvent {
    SessionEvent::Received(Frame::Message(WssMessage {
        kind: "play".to_string(),
        play: Some(EventPlay { server }),
    }))
}

fn stopped() -> SessionEvent {
    SessionEvent::Stopped(Timestamp::from_unix(1431648000, 0).expect("a date in range"))
}

fn open(registry: &mut ConnectionRegistry, user: i32) -> (ConnectionSession, u64) {
    let mut session = ConnectionSession::new(user);
    let (sender, _receiver) = unbounded_channel::<String>();
    WssService::socket_handler(&mut session, registry, SessionEvent::Accepted(sender));
    match session.state() {
        SessionState::Open { token } => (session, token),
        other => panic!("the session is {:?}", other),
    }
}

#[test]
fn a_session_starts_connecting() {
    let session = ConnectionSession::new(9);
    assert_eq!(session.user(), 9);
    assert_eq!(session.state(), SessionState::Connecting);
}

#[test]
fn connect_registers_and_reports_online() {
    let mut registry = ConnectionRegistry::new();
    let (sender, _receiver) = unbounded_channel::<String>();
    let (token, update) = WssService::connect(&mut registry, 9, sender).expect("a token");
    assert_eq!(token, 0);
    assert_eq!(update, StatusService::online(9));
    assert_eq!(registry.count(9), 1);
}

#[test]
fn disconnect_deregisters_and_reports_offline() {
    let mut registry = ConnectionRegistry::new();
    let (a, _ra) = unbounded_channel::<String>();
    let (b, _rb) = unbounded_channel::<String>();
    let (first, _) = WssService::connect(&mut registry, 9, a).expect("a token");
    let (second, _) = WssService::connect(&mut registry, 9, b).expect("a token");
    let at = Timestamp::from_unix(1431648000, 0).expect("a date in range");
    let update = WssService::disconnect(&mut registry, 9, first, &at);
    assert_eq!(update, StatusService::offline(9, &at));
    assert_eq!(registry.count(9), 1);
    assert_eq!(registry.snapshot(9)[0].token(), second);
    let update = WssService::disconnect(&mut registry, 9, first, &at);
    assert_eq!(update, StatusService::offline(9, &at));
    assert_eq!(registry.count(9), 1);
}

#[test]
fn a_handshake_opens_the_session() {
    let mut registry = ConnectionRegistry::new();
    let mut session = ConnectionSession::new(9);
    let (sender, mut receiver) = unbounded_channel::<String>();
    let action =
        WssService::socket_handler(&mut session, &mut registry, SessionEvent::Accepted(sender));
    assert_eq!(action, SessionAction::Update(StatusService::online(9)));
    assert_eq!(session.state(), SessionState::Open { token: 0 });
    assert_eq!(session.user(), 9);
    assert!(registry.contains(9));
    WssService::send(&registry, 9, "hello").expect("a report");
    assert_eq!(receiver.try_recv(), Ok("hello".to_string()));
}

#[test]
fn an_open_session_turns_play_into_presence() {
    let mut registry = ConnectionRegistry::new();
    let (mut session, token) = open(&mut registry, 9);
    let action = WssService::socket_handler(&mut session, &mut registry, play(7));
    match action {
        SessionAction::Update(update) => {
            assert_eq!(update.state, PresenceState::Playing { server: 7 });
            assert_eq!(update.key, "status:9");
            assert_eq!(update.payload, "{\"server\":7,\"status\":\"Online\"}");
            assert_eq!(update.method, Method::Patch);
        }
        other => panic!("the action is {:?}", other),
    }
    assert_eq!(session.state(), SessionState::Open { token });
    assert!(registry.contains(9));
}

#[test]
fn an_open_session_survives_what_it_does_not_understand() {
    let mut registry = ConnectionRegistry::new();
    let (mut session, token) = open(&mut registry, 9);
    let frames = vec![
        Frame::Malformed,
        Frame::Other,
        Frame::Message(WssMessage { kind: "play".to_string(), play: None }),
        Frame::Message(WssMessage { kind: "dance".to_string(), play: Some(EventPlay { server: 1 }) }),
        Frame::Message(WssMessage { kind: "PLAY".to_string(), play: Some(EventPlay { server: 7 }) }),
    ];
    for frame in frames {
        let action =
            WssService::socket_handler(&mut session, &mut registry, SessionEvent::Received(frame));
        assert_eq!(action, SessionAction::Nothing);
        assert_eq!(session.state(), SessionState::Open { token });
    }
    assert!(registry.contains(9));
}

#[test]
fn a_close_frame_closes_the_session() {
    let mut registry = ConnectionRegistry::new();
    let (mut session, token) = open(&mut registry, 9);
    let action = WssService::socket_handler(
        &mut session,
        &mut registry,
        SessionEvent::Received(Frame::Close),
    );
    assert_eq!(action, SessionAction::Stop);
    assert_eq!(session.state(), SessionState::Closing { token });
    assert!(registry.contains(9));
    let action = WssService::socket_handler(&mut session, &mut registry, stopped());
    match action {
        SessionAction::Update(update) => {
            assert_eq!(
                update.state,
                PresenceState::Offline { last_seen: "2015-05-15T00:00:00".to_string() }
            );
            assert_eq!(update.key, "status:9");
            assert_eq!(update.method, Method::Delete);
            assert_eq!(update.path, "/status/9");
        }
        other => panic!("the action is {:?}", other),
    }
    assert_eq!(session.state(), SessionState::Closed);
    assert!(!registry.contains(9));
}

#[test]
fn a_lost_transport_closes_the_session() {
    let mut registry = ConnectionRegistry::new();
    let (mut session, token) = open(&mut registry, 9);
    let action = WssService::socket_handler(&mut session, &mut registry, SessionEvent::Lost);
    assert_eq!(action, SessionAction::Stop);
    assert_eq!(session.state(), SessionState::Closing { token });
    let action = WssService::socket_handler(&mut session, &mut registry, stopped());
    assert!(matches!(action, SessionAction::Update(_)));
    assert_eq!(session.state(), SessionState::Closed);
    assert!(!registry.contains(9));
}

#[test]
fn closing_one_session_leaves_the_other_registered() {
    let mut registry = ConnectionRegistry::new();
    let (mut first, first_token) = open(&mut registry, 9);
    let (second, second_token) = open(&mut registry, 9);
    assert_ne!(first_token, second_token);
    WssService::socket_handler(&mut first, &mut registry, SessionEvent::Lost);
    WssService::socket_handler(&mut first, &mut registry, stopped());
    assert_eq!(first.state(), SessionState::Closed);
    assert_eq!(second.state(), SessionState::Open { token: second_token });
    assert!(registry.contains(9));
    assert_eq!(registry.snapshot(9)[0].token(), second_token);
}

#[test]
fn a_closing_session_hears_no_more_frames() {
    let mut registry = ConnectionRegistry::new();
    let (mut session, token) = open(&mut registry, 9);
    WssService::socket_handler(&mut session, &mut registry, SessionEvent::Lost);
    let action = WssService::socket_handler(&mut session, &mut registry, play(7));
    assert_eq!(action, SessionAction::Nothing);
    assert_eq!(session.state(), SessionState::Closing { token });
    let action = WssService::socket_handler(&mut session, &mut registry, SessionEvent::Lost);
    assert_eq!(action, SessionAction::Nothing);
    assert_eq!(session.state(), SessionState::Closing { token });
    assert!(registry.contains(9));
}

#[test]
fn a_closed_session_stays_closed() {
    let mut registry = ConnectionRegistry::new();
    let (mut session, _token) = open(&mut registry, 9);
    WssService::socket_handler(&mut session, &mut registry, SessionEvent::Lost);
    WssService::socket_handler(&mut session, &mut registry, stopped());
    let (other, _keep) = unbounded_channel::<String>();
    let events = vec![SessionEvent::Accepted(other), play(7), SessionEvent::Lost, stopped()];
    for event in events {
        let action = WssService::socket_handler(&mut session, &mut registry, event);
        assert_eq!(action, SessionAction::Nothing);
        assert_eq!(session.state(), SessionState::Closed);
        assert!(!registry.contains(9));
    }
}

#[test]
fn a_connecting_session_waits_for_the_handshake() {
    let mut registry = ConnectionRegistry::new();
    let mut session = ConnectionSession::new(9);
    let events = vec![play(7), SessionEvent::Lost, stopped()];
    for event in events {
        let action = WssService::socket_handler(&mut session, &mut registry, event);
        assert_eq!(action, SessionAction::Nothing);
        assert_eq!(session.state(), SessionState::Connecting);
        assert!(!registry.contains(9));
    }
}

#[test]
fn an_open_session_takes_no_second_handshake() {
    let mut registry = ConnectionRegistry::new();
    let (mut session, token) = open(&mut registry, 9);
    let (other, _keep) = unbounded_channel::<String>();
    let action =
        WssService::socket_handler(&mut session, &mut registry, SessionEvent::Accepted(other));
    assert_eq!(action, SessionAction::Nothing);
    assert_eq!(session.state(), SessionState::Open { token });
    assert_eq!(registry.count(9), 1);
    let action = WssService::socket_handler(&mut session, &mut registry, stopped());
    assert_eq!(action, SessionAction::Nothing);
    assert_eq!(session.state(), SessionState::Open { token });
}
