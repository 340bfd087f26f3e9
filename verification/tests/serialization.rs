use ruggine::json::JsonValue;
use ruggine::ws::decode;
use ruggine::{
    Ack, AckStatus, CreateGroupResponse, Error, Group, ListMessagesResponse, Message,
    RegisterResponse, SendMessage, User, WsMessage,
};
use serde_json::Value;

fn parse(json_str: &str) -> Value {
    serde_json::from_str(json_str).expect("valid json")
}

#[test]
fn ws_send_message_roundtrip() {
    let sm = SendMessage {
        client_msg_id: "11111111-1111-4111-8111-111111111111".to_string(),
        group_id: "22222222-2222-4222-8222-222222222222".to_string(),
        content: "ciao".to_string(),
        sent_at: Some("2025-11-02T10:20:30Z".to_string()),
    };
    let msg = WsMessage::SendMessage(sm.clone());
    let s = msg.encode();
    let v = parse(&s);

    assert_eq!(v["type"], "sendMessage");
    assert_eq!(v["payload"]["clientMsgId"], sm.client_msg_id.as_str());
    assert_eq!(v["payload"]["groupId"], sm.group_id.as_str());
    assert_eq!(v["payload"]["content"], sm.content.as_str());
    assert_eq!(v["payload"]["sentAt"], sm.sent_at.clone().unwrap().as_str());

    let back: WsMessage = decode(&s).expect("deserialize");
    match back {
        WsMessage::SendMessage(sm_back) => assert_eq!(sm_back, sm),
        _ => panic!("expected SendMessage"),
    }
}

#[test]
fn ws_send_message_omits_optional_sent_at() {
    let sm = SendMessage {
        client_msg_id: "11111111-1111-4111-8111-111111111111".to_string(),
        group_id: "22222222-2222-4222-8222-222222222222".to_string(),
        content: "ciao".to_string(),
        sent_at: None,
    };
    let msg = WsMessage::SendMessage(sm.clone());

    let s = msg.encode();
    let v = parse(&s);

    assert!(
        v["payload"]["sentAt"].is_null(),
        "sentAt should be omitted and thus null in Value access"
    );

    let back: WsMessage = decode(&s).expect("deserialize");
    match back {
        WsMessage::SendMessage(sm_back) => assert_eq!(sm_back, sm),
        _ => panic!("expected SendMessage"),
    }
}

#[test]
fn ws_message_roundtrip() {
    let m = Message {
        message_id: "33333333-3333-4333-8333-333333333333".to_string(),
        group_id: "22222222-2222-4222-8222-222222222222".to_string(),
        sender_id: "44444444-4444-4444-8444-444444444444".to_string(),
        content: "hello".to_string(),
        created_at: "2025-11-02T10:20:35Z".to_string(),
    };
    let msg = WsMessage::Message(m.clone());

    let s = msg.encode();
    let v = parse(&s);

    assert_eq!(v["type"], "message");
    assert_eq!(v["payload"]["messageId"], m.message_id.as_str());
    assert_eq!(v["payload"]["createdAt"], m.created_at.as_str());

    let back: WsMessage = decode(&s).expect("deserialize");
    match back {
        WsMessage::Message(m_back) => assert_eq!(m_back, m),
        _ => panic!("expected Message"),
    }
}

#[test]
fn ws_ack_ok_roundtrip() {
    let ack = Ack {
        in_reply_to: "11111111-1111-4111-8111-111111111111".to_string(),
        status: AckStatus::Okay,
        message_id: Some("33333333-3333-4333-8333-333333333333".to_string()),
        created_at: Some("2025-11-02T10:20:35Z".to_string()),
        group_id: Some("22222222-2222-4222-8222-222222222222".to_string()),
        content: Some("hello".to_string()),
        error: None,
    };
    let msg = WsMessage::Ack(ack.clone());

    let s = msg.encode();
    let v = parse(&s);

    assert_eq!(v["type"], "ack");
    assert_eq!(v["payload"]["status"], "ok");
    assert!(v["payload"]["error"].is_null());

    let back: WsMessage = decode(&s).expect("deserialize");
    match back {
        WsMessage::Ack(ack_back) => assert_eq!(ack_back, ack),
        _ => panic!("expected Ack"),
    }
}

#[test]
fn ws_ack_error_roundtrip() {
    let err = Error {
        code: "forbidden".to_string(),
        message: "not a member".to_string(),
        details: None,
    };
    let ack = Ack {
        in_reply_to: "11111111-1111-4111-8111-111111111111".to_string(),
        status: AckStatus::Error,
        message_id: None,
        created_at: None,
        group_id: None,
        content: None,
        error: Some(err.clone()),
    };
    let msg = WsMessage::Ack(ack.clone());

    let s = msg.encode();
    let v = parse(&s);

    assert_eq!(v["payload"]["status"], "error");
    assert_eq!(v["payload"]["error"]["code"], err.code.as_str());

    let back: WsMessage = decode(&s).expect("deserialize");
    match back {
        WsMessage::Ack(ack_back) => assert_eq!(ack_back, ack),
        _ => panic!("expected Ack"),
    }
}

#[test]
fn http_register_response_roundtrip() {
    let user = User {
        user_id: "55555555-5555-4555-8555-555555555555".to_string(),
        username: "alice".to_string(),
        created_at: "2025-11-02T10:10:10Z".to_string(),
    };
    let resp = RegisterResponse { user: user.clone(), token: "token123".to_string() };

    let s = resp.encode();
    let v = parse(&s);

    assert_eq!(v["user"]["userId"], user.user_id.as_str());
    assert_eq!(v["user"]["username"], user.username.as_str());
    assert_eq!(v["user"]["createdAt"], user.created_at.as_str());

    let back = RegisterResponse::decode(&s).expect("deserialize");
    assert_eq!(back.user, user);
    assert_eq!(back.token, "token123");
}

#[test]
fn http_create_group_response_roundtrip() {
    let group = Group {
        group_id: "aaaaaaaa-aaaa-4aaa-8aaa-aaaaaaaaaaaa".to_string(),
        name: "general".to_string(),
        created_at: "2025-11-02T10:00:00Z".to_string(),
    };
    let resp = CreateGroupResponse { group: group.clone() };

    let s = resp.encode();
    let v = parse(&s);

    assert_eq!(v["group"]["groupId"], group.group_id.as_str());
    assert_eq!(v["group"]["name"], group.name.as_str());
    assert_eq!(v["group"]["createdAt"], group.created_at.as_str());

    let back = CreateGroupResponse::decode(&s).expect("deserialize");
    assert_eq!(back.group, group);
}

#[test]
fn http_list_messages_response_roundtrip() {
    let m1 = Message {
        message_id: "bbbbbbbb-bbbb-4bbb-8bbb-bbbbbbbbbbbb".to_string(),
        group_id: "aaaaaaaa-aaaa-4aaa-8aaa-aaaaaaaaaaaa".to_string(),
        sender_id: "cccccccc-cccc-4ccc-8ccc-cccccccccccc".to_string(),
        content: "hi".to_string(),
        created_at: "2025-11-02T10:01:00Z".to_string(),
    };
    let m2 = Message {
        message_id: "dddddddd-dddd-4ddd-8ddd-dddddddddddd".to_string(),
        group_id: m1.group_id.clone(),
        sender_id: "eeeeeeee-eeee-4eee-8eee-eeeeeeeeeeee".to_string(),
        content: "there".to_string(),
        created_at: "2025-11-02T10:02:00Z".to_string(),
    };
    let resp = ListMessagesResponse { messages: vec![m1.clone(), m2.clone()] };

    let s = resp.encode();
    let v = parse(&s);

    assert_eq!(v["messages"][0]["messageId"], m1.message_id.as_str());
    assert_eq!(v["messages"][1]["messageId"], m2.message_id.as_str());

    let back = ListMessagesResponse::decode(&s).expect("deserialize");
    assert_eq!(back.messages, vec![m1, m2]);
}

#[test]
fn ws_error_envelope_roundtrip() {
    let details = JsonValue::Obj(vec![
        ("reason".to_string(), JsonValue::Str("expired".to_string())),
        ("at".to_string(), JsonValue::Str("2025-11-02T11:00:00Z".to_string())),
    ]);
    let err = Error {
        code: "unauthorized".to_string(),
        message: "token expired".to_string(),
        details: Some(details),
    };
    let msg = WsMessage::Error(err.clone());

    let s = msg.encode();
    let v = parse(&s);

    assert_eq!(v["type"], "error");
    assert_eq!(v["payload"]["code"], err.code.as_str());
    assert_eq!(v["payload"]["message"], err.message.as_str());
    assert_eq!(v["payload"]["details"]["reason"], "expired");

    let back: WsMessage = decode(&s).expect("deserialize");
    match back {
        WsMessage::Error(err_back) => assert_eq!(err_back, err),
        _ => panic!("expected Error envelope"),
    }
}
