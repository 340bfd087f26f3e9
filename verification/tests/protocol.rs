use ruggine::utils::{classify_db_url, sqlite_url_for_path_str, DbLocation};
use ruggine::ws::decode;
use ruggine::{
    Action, Authenticate, DecodeError, Frame, OutboundQueue, Registry, Resolution, SendMessage,
    Session, SessionState, User, WsMessage,
};

fn sample_user() -> User {
    User {
        user_id: "55555555-5555-4555-8555-555555555555".to_string(),
        username: "alice".to_string(),
        created_at: "2025-11-02T10:10:10Z".to_string(),
    }
}

#[test]
fn registry_last_writer_wins_and_guarded_deregister() {
    let mut reg = Registry::new();
    reg.register("alice".to_string(), 1);
    reg.register("alice".to_string(), 2);
    assert_eq!(reg.lookup(&"alice".to_string()), Some(2));

    // the old connection's cleanup must not evict the newer entry
    reg.deregister(&"alice".to_string(), 1);
    assert_eq!(reg.lookup(&"alice".to_string()), Some(2));

    // the owner's own cleanup removes it
    reg.deregister(&"alice".to_string(), 2);
    assert_eq!(reg.lookup(&"alice".to_string()), None);
}

#[test]
fn handshake_with_valid_token_sends_auth_ok_first() {
    let mut session = Session::new(7);
    let acts = session.on_opened(Some("T".to_string()));
    assert!(matches!(acts.as_slice(), [Action::Resolve(t)] if t == "T"));

    let acts = session.on_resolution(Resolution::Identity(sample_user()));
    assert_eq!(acts.len(), 3);
    assert!(matches!(&acts[0], Action::Register(id, 7) if id == &sample_user().user_id));
    assert!(matches!(&acts[1], Action::StartForwarder));
    match &acts[2] {
        Action::Send(WsMessage::AuthOk(u)) => assert_eq!(*u, sample_user()),
        other => panic!("expected the success envelope first, got {:?}", other),
    }
    assert_eq!(session.state(), SessionState::Active);
}

#[test]
fn handshake_invalid_token_sends_one_error_then_closes() {
    let mut session = Session::new(7);
    let _ = session.on_opened(Some("bad".to_string()));
    let acts = session.on_resolution(Resolution::NoMatch);
    assert_eq!(acts.len(), 1);
    match &acts[0] {
        Action::Send(WsMessage::Error(e)) => {
            assert_eq!(e.code, "unauthorized");
            assert_eq!(e.message, "invalid token");
        },
        other => panic!("expected one error envelope, got {:?}", other),
    }
    assert_eq!(session.state(), SessionState::Closed);
}

#[test]
fn handshake_store_failure_is_distinct_from_invalid_token() {
    let mut session = Session::new(7);
    let _ = session.on_opened(Some("T".to_string()));
    let acts = session.on_resolution(Resolution::StoreFailure);
    assert_eq!(acts.len(), 1);
    match &acts[0] {
        Action::Send(WsMessage::Error(e)) => assert_eq!(e.code, "internal_error"),
        other => panic!("expected one error envelope, got {:?}", other),
    }
    assert_eq!(session.state(), SessionState::Closed);
}

#[test]
fn handshake_wrong_first_frame_sends_auth_required() {
    let mut session = Session::new(7);
    let _ = session.on_opened(None);
    assert_eq!(session.state(), SessionState::AwaitingAuth);

    let sm = WsMessage::SendMessage(SendMessage {
        client_msg_id: "c1".to_string(),
        group_id: "g1".to_string(),
        content: "hi".to_string(),
        sent_at: None,
    });
    let acts = session.on_frame(Frame::Text(sm.encode()));
    assert_eq!(acts.len(), 1);
    match &acts[0] {
        Action::Send(WsMessage::Error(e)) => assert_eq!(e.code, "auth_required"),
        other => panic!("expected one error envelope, got {:?}", other),
    }
    assert_eq!(session.state(), SessionState::Closed);
}

#[test]
fn handshake_non_text_first_frame_sends_auth_required() {
    let mut session = Session::new(7);
    let _ = session.on_opened(None);
    let acts = session.on_frame(Frame::NonText);
    assert_eq!(acts.len(), 1);
    assert!(matches!(&acts[0], Action::Send(WsMessage::Error(e)) if e.code == "auth_required"));
    assert_eq!(session.state(), SessionState::Closed);
}

#[test]
fn handshake_socket_close_before_any_frame_is_silent() {
    let mut session = Session::new(7);
    let _ = session.on_opened(None);
    let acts = session.on_frame(Frame::ConnectionClosed);
    assert!(acts.is_empty());
    assert_eq!(session.state(), SessionState::Closed);
}

#[test]
fn active_session_scenario_accepts_intent_without_reply() {
    // authenticate as U with token "T"
    let mut session = Session::new(9);
    let _ = session.on_opened(None);
    let auth = WsMessage::Authenticate(Authenticate { token: "T".to_string() });
    let acts = session.on_frame(Frame::Text(auth.encode()));
    assert!(matches!(acts.as_slice(), [Action::Resolve(t)] if t == "T"));
    let _ = session.on_resolution(Resolution::Identity(sample_user()));
    assert_eq!(session.state(), SessionState::Active);

    // the client intent draws no reply and no state change
    let sm = WsMessage::SendMessage(SendMessage {
        client_msg_id: "c1".to_string(),
        group_id: "g1".to_string(),
        content: "hi".to_string(),
        sent_at: None,
    });
    let acts = session.on_frame(Frame::Text(sm.encode()));
    assert!(acts.is_empty());
    assert_eq!(session.state(), SessionState::Active);
}

#[test]
fn closing_an_active_session_cleans_up_in_order() {
    let mut session = Session::new(9);
    let _ = session.on_opened(Some("T".to_string()));
    let _ = session.on_resolution(Resolution::Identity(sample_user()));

    let mut reg = Registry::new();
    reg.register(sample_user().user_id, 9);

    let acts = session.on_frame(Frame::ConnectionClosed);
    assert_eq!(acts.len(), 3);
    assert!(matches!(&acts[0], Action::Deregister(id, 9) if id == &sample_user().user_id));
    assert!(matches!(&acts[1], Action::CloseQueue));
    assert!(matches!(&acts[2], Action::JoinForwarder));
    assert_eq!(session.state(), SessionState::Closed);

    // performing the guarded deregistration leaves the identity absent
    match &acts[0] {
        Action::Deregister(id, h) => reg.deregister(id, *h),
        _ => unreachable!(),
    }
    assert_eq!(reg.lookup(&sample_user().user_id), None);

    // once closed, nothing more ever happens
    let acts = session.on_frame(Frame::ConnectionClosed);
    assert!(acts.is_empty());
}

#[test]
fn outbound_queue_delivers_in_enqueue_order() {
    let mut q = OutboundQueue::new();
    q.enqueue("frame one".to_string());
    q.enqueue("frame two".to_string());
    q.close();

    let mut written: Vec<String> = Vec::new();
    ruggine::forwarder::forwarder_drain(&mut q, &mut written);
    assert_eq!(written, vec!["frame one".to_string(), "frame two".to_string()]);
    assert!(q.is_closed());
    assert_eq!(q.dequeue(), None);
}

#[test]
fn decode_rejects_unknown_discriminator() {
    let r = decode(r#"{"type":"bogus","payload":{}}"#);
    assert_eq!(r, Err(DecodeError::UnknownType));
}

#[test]
fn decode_rejects_text_that_is_not_json() {
    assert_eq!(decode("not json at all"), Err(DecodeError::Malformed));
    assert_eq!(decode(""), Err(DecodeError::Malformed));
    assert_eq!(decode("{\"type\":\"sendMessage\"}"), Err(DecodeError::Malformed));
}

#[test]
fn decode_rejects_payload_missing_required_fields() {
    let r = decode(r#"{"type":"sendMessage","payload":{"groupId":"g","content":"hi"}}"#);
    assert_eq!(r, Err(DecodeError::Malformed));
}

#[test]
fn decode_reads_escapes_and_unicode() {
    let sm = SendMessage {
        client_msg_id: "c1".to_string(),
        group_id: "g\\1\"x".to_string(),
        content: "line\nbreak \u{1F600} ok".to_string(),
        sent_at: None,
    };
    let msg = WsMessage::SendMessage(sm.clone());
    let s = msg.encode();
    match decode(&s) {
        Ok(WsMessage::SendMessage(back)) => assert_eq!(back, sm),
        other => panic!("expected SendMessage, got {:?}", other),
    }

    // a hex escape decodes to the character it names
    let hex = r#"{"type":"authenticate","payload":{"token":"\u0041\u0042"}}"#;
    match decode(hex) {
        Ok(WsMessage::Authenticate(a)) => assert_eq!(a.token, "AB"),
        other => panic!("expected Authenticate, got {:?}", other),
    }
}

#[test]
fn now_timestamp_has_rfc3339_shape() {
    let t = ruggine::now_timestamp();
    assert!(t.len() >= 20);
    let bytes = t.as_bytes();
    assert_eq!(bytes[4], b'-');
    assert_eq!(bytes[7], b'-');
    assert_eq!(bytes[10], b'T');
    assert_eq!(bytes[13], b':');
    assert_eq!(bytes[16], b':');
    assert_eq!(*bytes.last().unwrap(), b'Z');
}

#[test]
fn new_client_msg_id_is_a_hyphenated_uuid() {
    let a = ruggine::new_client_msg_id();
    let b = ruggine::new_client_msg_id();
    assert_eq!(a.len(), 36);
    assert_eq!(b.len(), 36);
    assert_ne!(a, b);
}

#[test]
fn sqlite_url_helpers() {
    assert_eq!(sqlite_url_for_path_str("C:\\data\\chat.db"), "sqlite:///C:/data/chat.db");
    assert_eq!(sqlite_url_for_path_str("/var/lib/chat.db"), "sqlite:////var/lib/chat.db");

    assert!(matches!(classify_db_url("sqlite::memory:"), DbLocation::InMemory));
    assert!(matches!(
        classify_db_url("sqlite:///tmp/chat.db"),
        DbLocation::FilePath(p) if p == "tmp/chat.db"
    ));
    assert!(matches!(
        classify_db_url("sqlite://chat.db"),
        DbLocation::FilePath(p) if p == "chat.db"
    ));
    assert!(matches!(
        classify_db_url("ruggine.db"),
        DbLocation::FilePath(p) if p == "ruggine.db"
    ));
}
