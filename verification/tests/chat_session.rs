use rust_labs::chat_server::GetMap;
use rust_labs::chat_session::{
    invalid_request_reply, map_reply_text, SessionAction, WsChatSession, WsEvent, WsRequest,
};

#[test]
fn protocol_error_stops_the_session() {
    let s = WsChatSession::new();
    assert!(matches!(s.handle_event(WsEvent::ProtocolError), SessionAction::Stop));
}

#[test]
fn close_frame_closes_and_stops() {
    let s = WsChatSession::default();
    assert!(matches!(s.handle_event(WsEvent::Close), SessionAction::CloseAndStop));
}

#[test]
fn other_frames_are_ignored() {
    let s = WsChatSession::new();
    assert!(matches!(s.handle_event(WsEvent::Other), SessionAction::Ignore));
}

#[test]
fn valid_request_asks_for_the_map() {
    let s = WsChatSession::new();
    let req = WsRequest { user_id: 3, friend_id: 4 };
    match s.handle_event(WsEvent::Text(Ok(req))) {
        SessionAction::RequestMap(m) => assert_eq!(m, GetMap(3, 4)),
        _ => panic!("expected a map request"),
    }
}

#[test]
fn invalid_request_is_answered_with_the_error() {
    let s = WsChatSession::new();
    let event = WsEvent::Text(Err("expected value at line 1 column 1".to_string()));
    match s.handle_event(event) {
        SessionAction::Reply(text) => {
            assert_eq!(text, "Invalid Request: expected value at line 1 column 1")
        },
        _ => panic!("expected a reply"),
    }
    assert_eq!(invalid_request_reply(""), "Invalid Request: ");
}

#[test]
fn map_reply_is_ok_or_nok() {
    assert_eq!(map_reply_text(true), "OK");
    assert_eq!(map_reply_text(false), "NOK");
}

#[test]
fn session_keeps_the_registered_id() {
    let mut s = WsChatSession::new();
    assert_eq!(s.id, 0);
    s.on_register_reply(None);
    assert_eq!(s.id, 0);
    s.on_register_reply(Some(42));
    assert_eq!(s.id, 42);
    s.on_register_reply(None);
    assert_eq!(s.id, 42);
    assert_eq!(s.unregister_message().0, 42);
}
