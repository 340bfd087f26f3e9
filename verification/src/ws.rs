//! The tagged envelope every socket frame carries: `{"type": <discriminator>,
//! "payload": <object>}`, one variant per discriminator. `encode` writes the
//! canonical text; `decode` is total and undoes `encode` (see
//! `lemma_decode_inverts_encode`).

use vstd::prelude::*;
use crate::json::{
    JsonV, JsonValue, jenc, jparse, lookup, req_str, opt_str, opt_val, encode_json, parse_json,
    get_req_str, get_opt_str, get_opt_val, lookup_exec, lemma_lookup_app,
    lemma_parse_inverts_encode, push_member,
};
use crate::models::{User, UserV, Message, MessageV, user_json, message_json};
use crate::error::{Error, ErrorV, error_json};

verus! {

broadcast use {vstd::std_specs::vec::group_vec_axioms, vstd::seq::group_seq_axioms};

/// Client to server: ask to send a message to a group.
#[derive(Debug, Clone, PartialEq, Eq)]
pub struct SendMessage {
    pub client_msg_id: String,
    pub group_id: String,
    pub content: String,
    pub sent_at: Option<String>,
}

pub struct SendMessageV {
    pub client_msg_id: Seq<char>,
    pub group_id: Seq<char>,
    pub content: Seq<char>,
    pub sent_at: Option<Seq<char>>,
}

impl View for SendMessage {
    type V = SendMessageV;

    open spec fn view(&self) -> SendMessageV {
        SendMessageV {
            client_msg_id: self.client_msg_id@,
            group_id: self.group_id@,
            content: self.content@,
            sent_at: match self.sent_at {
                Some(s) => Some(s@),
                None => None,
            },
        }
    }
}

/// Whether an acknowledgement reports success or failure.
#[derive(Debug, Clone, Copy, PartialEq, Eq, Structural)]
pub enum AckStatus {
    Okay,
    Error,
}

/// Server to client: the idempotent answer to one client intent.
#[derive(Debug, Clone, PartialEq)]
pub struct Ack {
    pub in_reply_to: String,
    pub status: AckStatus,
    pub message_id: Option<String>,
    pub created_at: Option<String>,
    pub group_id: Option<String>,
    pub content: Option<String>,
    pub error: Option<Error>,
}

pub struct AckV {
    pub in_reply_to: Seq<char>,
    pub status: AckStatus,
    pub message_id: Option<Seq<char>>,
    pub created_at: Option<Seq<char>>,
    pub group_id: Option<Seq<char>>,
    pub content: Option<Seq<char>>,
    pub error: Option<ErrorV>,
}

impl View for Ack {
    type V = AckV;

    open spec fn view(&self) -> AckV {
        AckV {
            in_reply_to: self.in_reply_to@,
            status: self.status,
            message_id: match self.message_id {
                Some(s) => Some(s@),
                None => None,
            },
            created_at: match self.created_at {
                Some(s) => Some(s@),
                None => None,
            },
            group_id: match self.group_id {
                Some(s) => Some(s@),
                None => None,
            },
            content: match self.content {
                Some(s) => Some(s@),
                None => None,
            },
            error: match self.error {
                Some(e) => Some(e@),
                None => None,
            },
        }
    }
}

/// Client to server: the handshake request carrying a bearer token. The
/// handshake pair's wire shape is fixed here: discriminator `authenticate`
/// with a `token` member, answered by `authOk` carrying the resolved user.
#[derive(Debug, Clone, PartialEq, Eq)]
pub struct Authenticate {
    pub token: String,
}

pub struct AuthenticateV {
    pub token: Seq<char>,
}

impl View for Authenticate {
    type V = AuthenticateV;

    open spec fn view(&self) -> AuthenticateV {
        AuthenticateV { token: self.token@ }
    }
}

/// The closed set of envelopes that travel over the socket.
#[derive(Debug, Clone, PartialEq)]
pub enum WsMessage {
    SendMessage(SendMessage),
    Message(Message),
    Ack(Ack),
    Error(Error),
    Authenticate(Authenticate),
    AuthOk(User),
}

pub enum WsMessageV {
    SendMessage(SendMessageV),
    Message(MessageV),
    Ack(AckV),
    Error(ErrorV),
    Authenticate(AuthenticateV),
    AuthOk(UserV),
}

impl View for WsMessage {
    type V = WsMessageV;

    open spec fn view(&self) -> WsMessageV {
        match self {
            WsMessage::SendMessage(m) => WsMessageV::SendMessage(m@),
            WsMessage::Message(m) => WsMessageV::Message(m@),
            WsMessage::Ack(a) => WsMessageV::Ack(a@),
            WsMessage::Error(e) => WsMessageV::Error(e@),
            WsMessage::Authenticate(a) => WsMessageV::Authenticate(a@),
            WsMessage::AuthOk(u) => WsMessageV::AuthOk(u@),
        }
    }
}

/// Why a frame was refused: a discriminator outside the closed set, or any
/// other ill-formed text or payload.
#[derive(Debug, Clone, Copy, PartialEq, Eq, Structural)]
pub enum DecodeError {
    UnknownType,
    Malformed,
}

/// A member present only when the value is: absent options are wire-omitted.
pub open spec fn opt_str_member(key: Seq<char>, v: Option<Seq<char>>) -> Seq<(Seq<char>, JsonV)> {
    match v {
        Some(s) => seq![(key, JsonV::Str(s))],
        None => Seq::empty(),
    }
}

pub open spec fn send_message_json(m: SendMessageV) -> JsonV {
    JsonV::Obj(
        seq![
            (("clientMsgId")@, JsonV::Str(m.client_msg_id)),
            (("groupId")@, JsonV::Str(m.group_id)),
            (("content")@, JsonV::Str(m.content)),
        ] + opt_str_member(("sentAt")@, m.sent_at),
    )
}

pub open spec fn ack_status_text(s: AckStatus) -> Seq<char> {
    match s {
        AckStatus::Okay => ("ok")@,
        AckStatus::Error => ("error")@,
    }
}

pub open spec fn ack_json(a: AckV) -> JsonV {
    JsonV::Obj(
        seq![
            (("inReplyTo")@, JsonV::Str(a.in_reply_to)),
            (("status")@, JsonV::Str(ack_status_text(a.status))),
        ] + opt_str_member(("messageId")@, a.message_id) + opt_str_member(
            ("createdAt")@,
            a.created_at,
        ) + opt_str_member(("groupId")@, a.group_id) + opt_str_member(("content")@, a.content)
            + match a.error {
            Some(e) => seq![(("error")@, error_json(e))],
            None => Seq::empty(),
        },
    )
}

pub open spec fn authenticate_json(a: AuthenticateV) -> JsonV {
    JsonV::Obj(seq![(("token")@, JsonV::Str(a.token))])
}

/// The wire discriminator of each envelope variant.
pub open spec fn discriminator_of(m: WsMessageV) -> Seq<char> {
    match m {
        WsMessageV::SendMessage(_) => ("sendMessage")@,
        WsMessageV::Message(_) => ("message")@,
        WsMessageV::Ack(_) => ("ack")@,
        WsMessageV::Error(_) => ("error")@,
        WsMessageV::Authenticate(_) => ("authenticate")@,
        WsMessageV::AuthOk(_) => ("authOk")@,
    }
}

pub open spec fn payload_json(m: WsMessageV) -> JsonV {
    match m {
        WsMessageV::SendMessage(p) => send_message_json(p),
        WsMessageV::Message(p) => message_json(p),
        WsMessageV::Ack(p) => ack_json(p),
        WsMessageV::Error(p) => error_json(p),
        WsMessageV::Authenticate(p) => authenticate_json(p),
        WsMessageV::AuthOk(p) => user_json(p),
    }
}

pub open spec fn envelope_json(m: WsMessageV) -> JsonV {
    JsonV::Obj(
        seq![(("type")@, JsonV::Str(discriminator_of(m))), (("payload")@, payload_json(m))],
    )
}

/// What `encode` writes: the canonical text of the envelope object.
pub open spec fn ws_encode(m: WsMessageV) -> Seq<char> {
    jenc(envelope_json(m))
}

/// An optional string field of a payload object, or `Err` if ill-shaped.
pub open spec fn interp_send_message(p: JsonV) -> Result<WsMessageV, DecodeError> {
    match p {
        JsonV::Obj(ms) => {
            match (
                req_str(ms, ("clientMsgId")@),
                req_str(ms, ("groupId")@),
                req_str(ms, ("content")@),
                opt_str(ms, ("sentAt")@),
            ) {
                (Some(c), Some(g), Some(t), Some(s)) => Ok(
                    WsMessageV::SendMessage(
                        SendMessageV { client_msg_id: c, group_id: g, content: t, sent_at: s },
                    ),
                ),
                _ => Err(DecodeError::Malformed),
            }
        },
        _ => Err(DecodeError::Malformed),
    }
}

pub open spec fn interp_message(p: JsonV) -> Result<WsMessageV, DecodeError> {
    match p {
        JsonV::Obj(ms) => {
            match (
                req_str(ms, ("messageId")@),
                req_str(ms, ("groupId")@),
                req_str(ms, ("senderId")@),
                req_str(ms, ("content")@),
                req_str(ms, ("createdAt")@),
            ) {
                (Some(m), Some(g), Some(s), Some(c), Some(t)) => Ok(
                    WsMessageV::Message(
                        MessageV {
                            message_id: m,
                            group_id: g,
                            sender_id: s,
                            content: c,
                            created_at: t,
                        },
                    ),
                ),
                _ => Err(DecodeError::Malformed),
            }
        },
        _ => Err(DecodeError::Malformed),
    }
}

/// The error object both the `error` envelope and a failed ack carry.
pub open spec fn interp_error_obj(p: JsonV) -> Option<ErrorV> {
    match p {
        JsonV::Obj(ms) => {
            match (req_str(ms, ("code")@), req_str(ms, ("message")@)) {
                (Some(c), Some(m)) => Some(
                    ErrorV { code: c, message: m, details: opt_val(ms, ("details")@) },
                ),
                _ => None,
            }
        },
        _ => None,
    }
}

pub open spec fn interp_ack_status(s: Seq<char>) -> Option<AckStatus> {
    if s == ("ok")@ {
        Some(AckStatus::Okay)
    } else if s == ("error")@ {
        Some(AckStatus::Error)
    } else {
        None
    }
}

pub open spec fn interp_ack_error(ms: Seq<(Seq<char>, JsonV)>) -> Option<Option<ErrorV>> {
    match lookup(ms, ("error")@) {
        None => Some(None),
        Some(JsonV::Null) => Some(None),
        Some(v) => match interp_error_obj(v) {
            Some(e) => Some(Some(e)),
            None => None,
        },
    }
}

pub open spec fn interp_ack(p: JsonV) -> Result<WsMessageV, DecodeError> {
    match p {
        JsonV::Obj(ms) => {
            match (
                req_str(ms, ("inReplyTo")@),
                req_str(ms, ("status")@),
                opt_str(ms, ("messageId")@),
                opt_str(ms, ("createdAt")@),
                opt_str(ms, ("groupId")@),
                opt_str(ms, ("content")@),
                interp_ack_error(ms),
            ) {
                (Some(r), Some(st), Some(mi), Some(ca), Some(gi), Some(co), Some(e)) => {
                    match interp_ack_status(st) {
                        Some(status) => Ok(
                            WsMessageV::Ack(
                                AckV {
                                    in_reply_to: r,
                                    status: status,
                                    message_id: mi,
                                    created_at: ca,
                                    group_id: gi,
                                    content: co,
                                    error: e,
                                },
                            ),
                        ),
                        None => Err(DecodeError::Malformed),
                    }
                },
                _ => Err(DecodeError::Malformed),
            }
        },
        _ => Err(DecodeError::Malformed),
    }
}

pub open spec fn interp_error(p: JsonV) -> Result<WsMessageV, DecodeError> {
    match interp_error_obj(p) {
        Some(e) => Ok(WsMessageV::Error(e)),
        None => Err(DecodeError::Malformed),
    }
}

pub open spec fn interp_authenticate(p: JsonV) -> Result<WsMessageV, DecodeError> {
    match p {
        JsonV::Obj(ms) => {
            match req_str(ms, ("token")@) {
                Some(t) => Ok(WsMessageV::Authenticate(AuthenticateV { token: t })),
                None => Err(DecodeError::Malformed),
            }
        },
        _ => Err(DecodeError::Malformed),
    }
}

pub open spec fn interp_auth_ok(p: JsonV) -> Result<WsMessageV, DecodeError> {
    match p {
        JsonV::Obj(ms) => {
            match (
                req_str(ms, ("userId")@),
                req_str(ms, ("username")@),
                req_str(ms, ("createdAt")@),
            ) {
                (Some(u), Some(n), Some(c)) => Ok(
                    WsMessageV::AuthOk(UserV { user_id: u, username: n, created_at: c }),
                ),
                _ => Err(DecodeError::Malformed),
            }
        },
        _ => Err(DecodeError::Malformed),
    }
}

/// Dispatches on the discriminator; a name outside the closed set is
/// `UnknownType`, everything else ill-shaped is `Malformed`.
pub open spec fn interp_payload(t: Seq<char>, p: JsonV) -> Result<WsMessageV, DecodeError> {
    if t == ("sendMessage")@ {
        interp_send_message(p)
    } else if t == ("message")@ {
        interp_message(p)
    } else if t == ("ack")@ {
        interp_ack(p)
    } else if t == ("error")@ {
        interp_error(p)
    } else if t == ("authenticate")@ {
        interp_authenticate(p)
    } else if t == ("authOk")@ {
        interp_auth_ok(p)
    } else {
        Err(DecodeError::UnknownType)
    }
}

pub open spec fn interp_envelope(j: JsonV) -> Result<WsMessageV, DecodeError> {
    match j {
        JsonV::Obj(ms) => match lookup(ms, ("type")@) {
            Some(JsonV::Str(t)) => match lookup(ms, ("payload")@) {
                Some(p) => interp_payload(t, p),
                None => Err(DecodeError::Malformed),
            },
            _ => Err(DecodeError::Malformed),
        },
        _ => Err(DecodeError::Malformed),
    }
}

/// What `decode` returns on any text whatsoever.
pub open spec fn ws_decode(s: Seq<char>) -> Result<WsMessageV, DecodeError> {
    match jparse(s) {
        None => Err(DecodeError::Malformed),
        Some(j) => interp_envelope(j),
    }
}

/// The one shape the wire cannot carry round: an explicit null under an
/// optional details field reads back as an absent field.
pub open spec fn wire_faithful(m: WsMessageV) -> bool {
    match m {
        WsMessageV::Error(e) => e.details != Some(JsonV::Null),
        WsMessageV::Ack(a) => match a.error {
            Some(e) => e.details != Some(JsonV::Null),
            None => true,
        },
        _ => true,
    }
}

/// The member keys and discriminator words of the wire format, pairwise
/// distinct wherever the decoder must tell them apart.
proof fn lemma_keys_distinct()
    ensures
        ("clientMsgId")@ != ("groupId")@,
        ("clientMsgId")@ != ("content")@,
        ("clientMsgId")@ != ("sentAt")@,
        ("groupId")@ != ("content")@,
        ("groupId")@ != ("sentAt")@,
        ("content")@ != ("sentAt")@,
        ("messageId")@ != ("groupId")@,
        ("messageId")@ != ("senderId")@,
        ("messageId")@ != ("content")@,
        ("messageId")@ != ("createdAt")@,
        ("groupId")@ != ("senderId")@,
        ("groupId")@ != ("createdAt")@,
        ("senderId")@ != ("content")@,
        ("senderId")@ != ("createdAt")@,
        ("content")@ != ("createdAt")@,
        ("userId")@ != ("username")@,
        ("userId")@ != ("createdAt")@,
        ("username")@ != ("createdAt")@,
        ("code")@ != ("message")@,
        ("code")@ != ("details")@,
        ("message")@ != ("details")@,
        ("inReplyTo")@ != ("status")@,
        ("inReplyTo")@ != ("messageId")@,
        ("inReplyTo")@ != ("createdAt")@,
        ("inReplyTo")@ != ("groupId")@,
        ("inReplyTo")@ != ("content")@,
        ("inReplyTo")@ != ("error")@,
        ("status")@ != ("messageId")@,
        ("status")@ != ("createdAt")@,
        ("status")@ != ("groupId")@,
        ("status")@ != ("content")@,
        ("status")@ != ("error")@,
        ("messageId")@ != ("error")@,
        ("createdAt")@ != ("groupId")@,
        ("createdAt")@ != ("content")@,
        ("createdAt")@ != ("error")@,
        ("groupId")@ != ("error")@,
        ("content")@ != ("error")@,
        ("type")@ != ("payload")@,
        ("ok")@ != ("error")@,
        ("sendMessage")@ != ("message")@,
        ("sendMessage")@ != ("ack")@,
        ("sendMessage")@ != ("error")@,
        ("sendMessage")@ != ("authenticate")@,
        ("sendMessage")@ != ("authOk")@,
        ("message")@ != ("ack")@,
        ("message")@ != ("error")@,
        ("message")@ != ("authenticate")@,
        ("message")@ != ("authOk")@,
        ("ack")@ != ("error")@,
        ("ack")@ != ("authenticate")@,
        ("ack")@ != ("authOk")@,
        ("error")@ != ("authenticate")@,
        ("error")@ != ("authOk")@,
        ("authenticate")@ != ("authOk")@,
{
    reveal_strlit("clientMsgId");
    reveal_strlit("groupId");
    reveal_strlit("content");
    reveal_strlit("sentAt");
    reveal_strlit("messageId");
    reveal_strlit("senderId");
    reveal_strlit("createdAt");
    reveal_strlit("userId");
    reveal_strlit("username");
    reveal_strlit("code");
    reveal_strlit("message");
    reveal_strlit("details");
    reveal_strlit("inReplyTo");
    reveal_strlit("status");
    reveal_strlit("error");
    reveal_strlit("type");
    reveal_strlit("payload");
    reveal_strlit("ok");
    reveal_strlit("token");
    reveal_strlit("sendMessage");
    reveal_strlit("ack");
    reveal_strlit("authenticate");
    reveal_strlit("authOk");
    assert(("clientMsgId")@.len() == 11 && ("groupId")@.len() == 7 && ("content")@.len() == 7
        && ("sentAt")@.len() == 6 && ("messageId")@.len() == 9 && ("senderId")@.len() == 8
        && ("createdAt")@.len() == 9 && ("userId")@.len() == 6 && ("username")@.len() == 8
        && ("code")@.len() == 4 && ("message")@.len() == 7 && ("details")@.len() == 7
        && ("inReplyTo")@.len() == 9 && ("status")@.len() == 6 && ("error")@.len() == 5
        && ("type")@.len() == 4 && ("payload")@.len() == 7 && ("ok")@.len() == 2
        && ("token")@.len() == 5 && ("sendMessage")@.len() == 11 && ("ack")@.len() == 3
        && ("authenticate")@.len() == 12 && ("authOk")@.len() == 6);
    assert(("groupId")@[0] == 'g' && ("content")@[0] == 'c');
    assert(("messageId")@[0] == 'm' && ("createdAt")@[0] == 'c' && ("inReplyTo")@[0] == 'i');
    assert(("message")@[0] == 'm' && ("details")@[0] == 'd' && ("payload")@[0] == 'p');
}

proof fn lemma_lookup_skip1(ms: Seq<(Seq<char>, JsonV)>, key: Seq<char>)
    requires
        ms.len() > 0,
        ms[0].0 != key,
    ensures
        lookup(ms, key) == lookup(ms.drop_first(), key),
{
}

proof fn lemma_lookup_opt(k: Seq<char>, key: Seq<char>, v: Option<Seq<char>>)
    ensures
        lookup(opt_str_member(k, v), key) == (if k == key {
            match v {
                Some(s) => Some(JsonV::Str(s)),
                None => None::<JsonV>,
            }
        } else {
            None::<JsonV>
        }),
{
    match v {
        Some(s) => {
            let ms = opt_str_member(k, v);
            assert(ms == seq![(k, JsonV::Str(s))]);
            assert(ms[0] == (k, JsonV::Str(s)));
            if k != key {
                assert(ms.drop_first() =~= Seq::<(Seq<char>, JsonV)>::empty());
                assert(lookup(ms.drop_first(), key) is None);
            }
        },
        None => {
            assert(opt_str_member(k, v) =~= Seq::<(Seq<char>, JsonV)>::empty());
        },
    }
}

proof fn lemma_lookup_single(k: Seq<char>, v: JsonV, key: Seq<char>)
    ensures
        lookup(seq![(k, v)], key) == if k == key {
            Some(v)
        } else {
            None::<JsonV>
        },
{
    if k != key {
        assert(seq![(k, v)].drop_first() =~= Seq::<(Seq<char>, JsonV)>::empty());
        assert(lookup(Seq::<(Seq<char>, JsonV)>::empty(), key) is None);
    }
}

/// Walks a lookup through one appended optional member.
proof fn lemma_lookup_through_opt(
    a: Seq<(Seq<char>, JsonV)>,
    k: Seq<char>,
    v: Option<Seq<char>>,
    key: Seq<char>,
)
    requires
        k != key,
    ensures
        lookup(a + opt_str_member(k, v), key) == lookup(a, key),
{
    lemma_lookup_app(a, opt_str_member(k, v), key);
    lemma_lookup_opt(k, key, v);
}

proof fn lemma_rt_send_message(sm: SendMessageV)
    ensures
        interp_send_message(send_message_json(sm)) == Ok::<WsMessageV, DecodeError>(
            WsMessageV::SendMessage(sm),
        ),
{
    lemma_keys_distinct();
    let e0 = ((("clientMsgId"))@, JsonV::Str(sm.client_msg_id));
    let e1 = ((("groupId"))@, JsonV::Str(sm.group_id));
    let e2 = ((("content"))@, JsonV::Str(sm.content));
    let base = seq![e0, e1, e2];
    let opt = opt_str_member(("sentAt")@, sm.sent_at);
    let ms = base + opt;
    assert(base.drop_first() =~= seq![e1, e2]);
    assert(seq![e1, e2].drop_first() =~= seq![e2]);
    assert(seq![e2].drop_first() =~= Seq::<(Seq<char>, JsonV)>::empty());
    lemma_lookup_app(base, opt, ("clientMsgId")@);
    assert(lookup(base, ("clientMsgId")@) == Some(JsonV::Str(sm.client_msg_id)));
    lemma_lookup_app(base, opt, ("groupId")@);
    lemma_lookup_skip1(base, ("groupId")@);
    assert(lookup(seq![e1, e2], ("groupId")@) == Some(JsonV::Str(sm.group_id)));
    lemma_lookup_app(base, opt, ("content")@);
    lemma_lookup_skip1(base, ("content")@);
    lemma_lookup_skip1(seq![e1, e2], ("content")@);
    assert(lookup(seq![e2], ("content")@) == Some(JsonV::Str(sm.content)));
    lemma_lookup_app(base, opt, ("sentAt")@);
    lemma_lookup_skip1(base, ("sentAt")@);
    lemma_lookup_skip1(seq![e1, e2], ("sentAt")@);
    lemma_lookup_skip1(seq![e2], ("sentAt")@);
    assert(lookup(Seq::<(Seq<char>, JsonV)>::empty(), ("sentAt")@) is None);
    lemma_lookup_opt(("sentAt")@, ("sentAt")@, sm.sent_at);
    assert(opt_str(ms, ("sentAt")@) == Some(sm.sent_at));
}

proof fn lemma_rt_message(m: MessageV)
    ensures
        interp_message(message_json(m)) == Ok::<WsMessageV, DecodeError>(WsMessageV::Message(m)),
{
    lemma_keys_distinct();
    let e0 = ((("messageId"))@, JsonV::Str(m.message_id));
    let e1 = ((("groupId"))@, JsonV::Str(m.group_id));
    let e2 = ((("senderId"))@, JsonV::Str(m.sender_id));
    let e3 = ((("content"))@, JsonV::Str(m.content));
    let e4 = ((("createdAt"))@, JsonV::Str(m.created_at));
    let ms = seq![e0, e1, e2, e3, e4];
    assert(ms.drop_first() =~= seq![e1, e2, e3, e4]);
    assert(seq![e1, e2, e3, e4].drop_first() =~= seq![e2, e3, e4]);
    assert(seq![e2, e3, e4].drop_first() =~= seq![e3, e4]);
    assert(seq![e3, e4].drop_first() =~= seq![e4]);
    assert(lookup(ms, ("messageId")@) == Some(JsonV::Str(m.message_id)));
    lemma_lookup_skip1(ms, ("groupId")@);
    assert(lookup(seq![e1, e2, e3, e4], ("groupId")@) == Some(JsonV::Str(m.group_id)));
    lemma_lookup_skip1(ms, ("senderId")@);
    lemma_lookup_skip1(seq![e1, e2, e3, e4], ("senderId")@);
    assert(lookup(seq![e2, e3, e4], ("senderId")@) == Some(JsonV::Str(m.sender_id)));
    lemma_lookup_skip1(ms, ("content")@);
    lemma_lookup_skip1(seq![e1, e2, e3, e4], ("content")@);
    lemma_lookup_skip1(seq![e2, e3, e4], ("content")@);
    assert(lookup(seq![e3, e4], ("content")@) == Some(JsonV::Str(m.content)));
    lemma_lookup_skip1(ms, ("createdAt")@);
    lemma_lookup_skip1(seq![e1, e2, e3, e4], ("createdAt")@);
    lemma_lookup_skip1(seq![e2, e3, e4], ("createdAt")@);
    lemma_lookup_skip1(seq![e3, e4], ("createdAt")@);
    assert(lookup(seq![e4], ("createdAt")@) == Some(JsonV::Str(m.created_at)));
}

proof fn lemma_rt_user(u: UserV)
    ensures
        interp_auth_ok(user_json(u)) == Ok::<WsMessageV, DecodeError>(WsMessageV::AuthOk(u)),
{
    lemma_keys_distinct();
    let e0 = ((("userId"))@, JsonV::Str(u.user_id));
    let e1 = ((("username"))@, JsonV::Str(u.username));
    let e2 = ((("createdAt"))@, JsonV::Str(u.created_at));
    let ms = seq![e0, e1, e2];
    assert(ms.drop_first() =~= seq![e1, e2]);
    assert(seq![e1, e2].drop_first() =~= seq![e2]);
    assert(lookup(ms, ("userId")@) == Some(JsonV::Str(u.user_id)));
    lemma_lookup_skip1(ms, ("username")@);
    assert(lookup(seq![e1, e2], ("username")@) == Some(JsonV::Str(u.username)));
    lemma_lookup_skip1(ms, ("createdAt")@);
    lemma_lookup_skip1(seq![e1, e2], ("createdAt")@);
    assert(lookup(seq![e2], ("createdAt")@) == Some(JsonV::Str(u.created_at)));
}

proof fn lemma_rt_authenticate(a: AuthenticateV)
    ensures
        interp_authenticate(authenticate_json(a)) == Ok::<WsMessageV, DecodeError>(
            WsMessageV::Authenticate(a),
        ),
{
    lemma_keys_distinct();
    let ms = seq![((("token"))@, JsonV::Str(a.token))];
    assert(lookup(ms, ("token")@) == Some(JsonV::Str(a.token)));
}

proof fn lemma_rt_error_obj(e: ErrorV)
    requires
        e.details != Some(JsonV::Null),
    ensures
        interp_error_obj(error_json(e)) == Some(e),
{
    lemma_keys_distinct();
    let e0 = ((("code"))@, JsonV::Str(e.code));
    let e1 = ((("message"))@, JsonV::Str(e.message));
    let base = seq![e0, e1];
    let dopt: Seq<(Seq<char>, JsonV)> = match e.details {
        Some(d) => seq![(("details")@, d)],
        None => Seq::empty(),
    };
    let ms = base + dopt;
    assert(base.drop_first() =~= seq![e1]);
    assert(seq![e1].drop_first() =~= Seq::<(Seq<char>, JsonV)>::empty());
    lemma_lookup_app(base, dopt, ("code")@);
    assert(lookup(base, ("code")@) == Some(JsonV::Str(e.code)));
    lemma_lookup_app(base, dopt, ("message")@);
    lemma_lookup_skip1(base, ("message")@);
    assert(lookup(seq![e1], ("message")@) == Some(JsonV::Str(e.message)));
    lemma_lookup_app(base, dopt, ("details")@);
    lemma_lookup_skip1(base, ("details")@);
    lemma_lookup_skip1(seq![e1], ("details")@);
    match e.details {
        Some(d) => {
            assert(dopt[0] == ((("details"))@, d));
            assert(lookup(dopt, ("details")@) == Some(d));
            assert(opt_val(ms, ("details")@) == Some(d));
        },
        None => {
            assert(dopt =~= Seq::<(Seq<char>, JsonV)>::empty());
            assert(lookup(ms, ("details")@) is None);
        },
    }
    assert(interp_error_obj(error_json(e))->Some_0 =~= e);
}

proof fn lemma_rt_ack(a: AckV)
    requires
        match a.error {
            Some(e) => e.details != Some(JsonV::Null),
            None => true,
        },
    ensures
        interp_ack(ack_json(a)) == Ok::<WsMessageV, DecodeError>(WsMessageV::Ack(a)),
{
    lemma_keys_distinct();
    let e0 = ((("inReplyTo"))@, JsonV::Str(a.in_reply_to));
    let e1 = ((("status"))@, JsonV::Str(ack_status_text(a.status)));
    let base = seq![e0, e1];
    let o1 = opt_str_member(("messageId")@, a.message_id);
    let o2 = opt_str_member(("createdAt")@, a.created_at);
    let o3 = opt_str_member(("groupId")@, a.group_id);
    let o4 = opt_str_member(("content")@, a.content);
    let oe: Seq<(Seq<char>, JsonV)> = match a.error {
        Some(e) => seq![(("error")@, error_json(e))],
        None => Seq::empty(),
    };
    let ms = base + o1 + o2 + o3 + o4 + oe;
    assert(base.drop_first() =~= seq![e1]);
    assert(seq![e1].drop_first() =~= Seq::<(Seq<char>, JsonV)>::empty());
    // what a miss in every earlier member falls through to
    assert(lookup(Seq::<(Seq<char>, JsonV)>::empty(), ("messageId")@) is None);
    assert(lookup(Seq::<(Seq<char>, JsonV)>::empty(), ("createdAt")@) is None);
    assert(lookup(Seq::<(Seq<char>, JsonV)>::empty(), ("groupId")@) is None);
    assert(lookup(Seq::<(Seq<char>, JsonV)>::empty(), ("content")@) is None);
    assert(lookup(Seq::<(Seq<char>, JsonV)>::empty(), ("error")@) is None);
    match a.error {
        Some(e) => {
            lemma_lookup_single(("error")@, error_json(e), ("messageId")@);
            lemma_lookup_single(("error")@, error_json(e), ("createdAt")@);
            lemma_lookup_single(("error")@, error_json(e), ("groupId")@);
            lemma_lookup_single(("error")@, error_json(e), ("content")@);
        },
        None => {
            assert(oe =~= Seq::<(Seq<char>, JsonV)>::empty());
        },
    }
    // inReplyTo: found at once
    lemma_lookup_app(base + o1 + o2 + o3 + o4, oe, ("inReplyTo")@);
    lemma_lookup_through_opt(base + o1 + o2 + o3, ("content")@, a.content, ("inReplyTo")@);
    lemma_lookup_through_opt(base + o1 + o2, ("groupId")@, a.group_id, ("inReplyTo")@);
    lemma_lookup_through_opt(base + o1, ("createdAt")@, a.created_at, ("inReplyTo")@);
    lemma_lookup_through_opt(base, ("messageId")@, a.message_id, ("inReplyTo")@);
    assert(lookup(base, ("inReplyTo")@) == Some(JsonV::Str(a.in_reply_to)));
    assert(req_str(ms, ("inReplyTo")@) == Some(a.in_reply_to));
    // status
    lemma_lookup_app(base + o1 + o2 + o3 + o4, oe, ("status")@);
    lemma_lookup_through_opt(base + o1 + o2 + o3, ("content")@, a.content, ("status")@);
    lemma_lookup_through_opt(base + o1 + o2, ("groupId")@, a.group_id, ("status")@);
    lemma_lookup_through_opt(base + o1, ("createdAt")@, a.created_at, ("status")@);
    lemma_lookup_through_opt(base, ("messageId")@, a.message_id, ("status")@);
    lemma_lookup_skip1(base, ("status")@);
    assert(lookup(seq![e1], ("status")@) == Some(JsonV::Str(ack_status_text(a.status))));
    assert(req_str(ms, ("status")@) == Some(ack_status_text(a.status)));
    assert(interp_ack_status(ack_status_text(a.status)) == Some(a.status));
    // messageId
    lemma_lookup_app(base + o1 + o2 + o3 + o4, oe, ("messageId")@);
    lemma_lookup_through_opt(base + o1 + o2 + o3, ("content")@, a.content, ("messageId")@);
    lemma_lookup_through_opt(base + o1 + o2, ("groupId")@, a.group_id, ("messageId")@);
    lemma_lookup_through_opt(base + o1, ("createdAt")@, a.created_at, ("messageId")@);
    lemma_lookup_app(base, o1, ("messageId")@);
    lemma_lookup_skip1(base, ("messageId")@);
    lemma_lookup_skip1(seq![e1], ("messageId")@);
    lemma_lookup_opt(("messageId")@, ("messageId")@, a.message_id);
    assert(opt_str(ms, ("messageId")@) == Some(a.message_id));
    // createdAt
    lemma_lookup_app(base + o1 + o2 + o3 + o4, oe, ("createdAt")@);
    lemma_lookup_through_opt(base + o1 + o2 + o3, ("content")@, a.content, ("createdAt")@);
    lemma_lookup_through_opt(base + o1 + o2, ("groupId")@, a.group_id, ("createdAt")@);
    lemma_lookup_app(base + o1, o2, ("createdAt")@);
    lemma_lookup_through_opt(base, ("messageId")@, a.message_id, ("createdAt")@);
    lemma_lookup_skip1(base, ("createdAt")@);
    lemma_lookup_skip1(seq![e1], ("createdAt")@);
    lemma_lookup_opt(("createdAt")@, ("createdAt")@, a.created_at);
    assert(opt_str(ms, ("createdAt")@) == Some(a.created_at));
    // groupId
    lemma_lookup_app(base + o1 + o2 + o3 + o4, oe, ("groupId")@);
    lemma_lookup_through_opt(base + o1 + o2 + o3, ("content")@, a.content, ("groupId")@);
    lemma_lookup_app(base + o1 + o2, o3, ("groupId")@);
    lemma_lookup_through_opt(base + o1, ("createdAt")@, a.created_at, ("groupId")@);
    lemma_lookup_through_opt(base, ("messageId")@, a.message_id, ("groupId")@);
    lemma_lookup_skip1(base, ("groupId")@);
    lemma_lookup_skip1(seq![e1], ("groupId")@);
    lemma_lookup_opt(("groupId")@, ("groupId")@, a.group_id);
    assert(opt_str(ms, ("groupId")@) == Some(a.group_id));
    // content
    lemma_lookup_app(base + o1 + o2 + o3 + o4, oe, ("content")@);
    lemma_lookup_app(base + o1 + o2 + o3, o4, ("content")@);
    lemma_lookup_through_opt(base + o1 + o2, ("groupId")@, a.group_id, ("content")@);
    lemma_lookup_through_opt(base + o1, ("createdAt")@, a.created_at, ("content")@);
    lemma_lookup_through_opt(base, ("messageId")@, a.message_id, ("content")@);
    lemma_lookup_skip1(base, ("content")@);
    lemma_lookup_skip1(seq![e1], ("content")@);
    lemma_lookup_opt(("content")@, ("content")@, a.content);
    assert(opt_str(ms, ("content")@) == Some(a.content));
    // error
    lemma_lookup_app(base + o1 + o2 + o3 + o4, oe, ("error")@);
    lemma_lookup_through_opt(base + o1 + o2 + o3, ("content")@, a.content, ("error")@);
    lemma_lookup_through_opt(base + o1 + o2, ("groupId")@, a.group_id, ("error")@);
    lemma_lookup_through_opt(base + o1, ("createdAt")@, a.created_at, ("error")@);
    lemma_lookup_through_opt(base, ("messageId")@, a.message_id, ("error")@);
    lemma_lookup_skip1(base, ("error")@);
    lemma_lookup_skip1(seq![e1], ("error")@);
    match a.error {
        Some(e) => {
            assert(oe[0] == ((("error"))@, error_json(e)));
            assert(lookup(oe, ("error")@) == Some(error_json(e)));
            assert(lookup(ms, ("error")@) == Some(error_json(e)));
            lemma_rt_error_obj(e);
            assert(error_json(e) is Obj);
            assert(interp_ack_error(ms) == Some(Some(e)));
        },
        None => {
            assert(oe =~= Seq::<(Seq<char>, JsonV)>::empty());
            assert(lookup(ms, ("error")@) is None);
            assert(interp_ack_error(ms) == Some(None::<ErrorV>));
        },
    }
    assert(interp_ack(ack_json(a))->Ok_0->Ack_0 =~= a);
}

/// The discriminators of the closed set are pairwise distinct words.
proof fn lemma_discriminators(m: WsMessageV)
    ensures
        interp_payload(discriminator_of(m), payload_json(m)) == interp_variant(m),
{
    lemma_keys_distinct();
}

/// Which payload reader a variant's discriminator selects.
pub open spec fn interp_variant(m: WsMessageV) -> Result<WsMessageV, DecodeError> {
    match m {
        WsMessageV::SendMessage(p) => interp_send_message(send_message_json(p)),
        WsMessageV::Message(p) => interp_message(message_json(p)),
        WsMessageV::Ack(p) => interp_ack(ack_json(p)),
        WsMessageV::Error(p) => interp_error(error_json(p)),
        WsMessageV::Authenticate(p) => interp_authenticate(authenticate_json(p)),
        WsMessageV::AuthOk(p) => interp_auth_ok(user_json(p)),
    }
}

/// Law: decoding inverts encoding, for every constructible envelope and every
/// combination of optional fields the wire can tell apart (an explicit null
/// under `details` reads back as an absent field, so it is left out here).
pub proof fn lemma_decode_inverts_encode(m: WsMessageV)
    requires
        wire_faithful(m),
    ensures
        ws_decode(ws_encode(m)) == Ok::<WsMessageV, DecodeError>(m),
{
    lemma_parse_inverts_encode(envelope_json(m));
    lemma_keys_distinct();
    let ems = envelope_json(m)->Obj_0;
    assert(ems[0] == ((("type"))@, JsonV::Str(discriminator_of(m))));
    assert(lookup(ems, ("type")@) == Some(JsonV::Str(discriminator_of(m))));
    assert(ems.drop_first() =~= seq![((("payload"))@, payload_json(m))]);
    lemma_lookup_skip1(ems, ("payload")@);
    assert(lookup(ems, ("payload")@) == Some(payload_json(m)));
    lemma_discriminators(m);
    match m {
        WsMessageV::SendMessage(p) => lemma_rt_send_message(p),
        WsMessageV::Message(p) => lemma_rt_message(p),
        WsMessageV::Ack(p) => lemma_rt_ack(p),
        WsMessageV::Error(p) => {
            lemma_rt_error_obj(p);
        },
        WsMessageV::Authenticate(p) => lemma_rt_authenticate(p),
        WsMessageV::AuthOk(p) => lemma_rt_user(p),
    }
}

/// Law: the encoded text of an envelope parses to an object whose `type`
/// member is exactly the variant's discriminator word.
pub proof fn lemma_encode_discriminator(m: WsMessageV)
    ensures
        jparse(ws_encode(m)) == Some(envelope_json(m)),
        envelope_json(m) is Obj,
        lookup(envelope_json(m)->Obj_0, ("type")@) == Some(
            JsonV::Str(discriminator_of(m)),
        ),
        m is SendMessage ==> discriminator_of(m) == ("sendMessage")@,
        m is Message ==> discriminator_of(m) == ("message")@,
        m is Ack ==> discriminator_of(m) == ("ack")@,
        m is Error ==> discriminator_of(m) == ("error")@,
        m is Authenticate ==> discriminator_of(m) == ("authenticate")@,
        m is AuthOk ==> discriminator_of(m) == ("authOk")@,
{
    lemma_parse_inverts_encode(envelope_json(m));
    let ems = envelope_json(m)->Obj_0;
    assert(ems[0] == ((("type"))@, JsonV::Str(discriminator_of(m))));
    assert(lookup(ems, ("type")@) == Some(JsonV::Str(discriminator_of(m))));
}

fn send_message_to_json(m: &SendMessage) -> (r: JsonValue)
    ensures
        r@ == send_message_json(m@),
{
    let mut ms: Vec<(String, JsonValue)> = Vec::new();
    proof {
        assert(JsonValue::Obj(ms)@->Obj_0 =~= Seq::<(Seq<char>, JsonV)>::empty());
    }
    push_member(&mut ms, "clientMsgId", JsonValue::Str(m.client_msg_id.clone()));
    push_member(&mut ms, "groupId", JsonValue::Str(m.group_id.clone()));
    push_member(&mut ms, "content", JsonValue::Str(m.content.clone()));
    let ghost base = JsonValue::Obj(ms)@->Obj_0;
    match &m.sent_at {
        Some(s) => {
            push_member(&mut ms, "sentAt", JsonValue::Str(s.clone()));
        },
        None => {},
    }
    proof {
        assert(JsonValue::Obj(ms)@->Obj_0 =~= base + opt_str_member(("sentAt")@, m@.sent_at));
        assert(JsonValue::Obj(ms)@->Obj_0 =~= send_message_json(m@)->Obj_0);
        assert(JsonValue::Obj(ms)@ =~= send_message_json(m@));
    }
    JsonValue::Obj(ms)
}

fn message_to_json(m: &Message) -> (r: JsonValue)
    ensures
        r@ == message_json(m@),
{
    let mut ms: Vec<(String, JsonValue)> = Vec::new();
    proof {
        assert(JsonValue::Obj(ms)@->Obj_0 =~= Seq::<(Seq<char>, JsonV)>::empty());
    }
    push_member(&mut ms, "messageId", JsonValue::Str(m.message_id.clone()));
    push_member(&mut ms, "groupId", JsonValue::Str(m.group_id.clone()));
    push_member(&mut ms, "senderId", JsonValue::Str(m.sender_id.clone()));
    push_member(&mut ms, "content", JsonValue::Str(m.content.clone()));
    push_member(&mut ms, "createdAt", JsonValue::Str(m.created_at.clone()));
    proof {
        assert(JsonValue::Obj(ms)@->Obj_0 =~= message_json(m@)->Obj_0);
        assert(JsonValue::Obj(ms)@ =~= message_json(m@));
    }
    JsonValue::Obj(ms)
}

fn user_to_json(u: &User) -> (r: JsonValue)
    ensures
        r@ == user_json(u@),
{
    let mut ms: Vec<(String, JsonValue)> = Vec::new();
    proof {
        assert(JsonValue::Obj(ms)@->Obj_0 =~= Seq::<(Seq<char>, JsonV)>::empty());
    }
    push_member(&mut ms, "userId", JsonValue::Str(u.user_id.clone()));
    push_member(&mut ms, "username", JsonValue::Str(u.username.clone()));
    push_member(&mut ms, "createdAt", JsonValue::Str(u.created_at.clone()));
    proof {
        assert(JsonValue::Obj(ms)@->Obj_0 =~= user_json(u@)->Obj_0);
        assert(JsonValue::Obj(ms)@ =~= user_json(u@));
    }
    JsonValue::Obj(ms)
}

fn error_to_json(e: &Error) -> (r: JsonValue)
    ensures
        r@ == error_json(e@),
{
    let mut ms: Vec<(String, JsonValue)> = Vec::new();
    proof {
        assert(JsonValue::Obj(ms)@->Obj_0 =~= Seq::<(Seq<char>, JsonV)>::empty());
    }
    push_member(&mut ms, "code", JsonValue::Str(e.code.clone()));
    push_member(&mut ms, "message", JsonValue::Str(e.message.clone()));
    let ghost base = JsonValue::Obj(ms)@->Obj_0;
    match &e.details {
        Some(d) => {
            push_member(&mut ms, "details", d.duplicate());
        },
        None => {},
    }
    proof {
        assert(JsonValue::Obj(ms)@->Obj_0 =~= base + match e@.details {
            Some(d) => seq![(("details")@, d)],
            None => Seq::<(Seq<char>, JsonV)>::empty(),
        });
        assert(JsonValue::Obj(ms)@->Obj_0 =~= error_json(e@)->Obj_0);
        assert(JsonValue::Obj(ms)@ =~= error_json(e@));
    }
    JsonValue::Obj(ms)
}

fn authenticate_to_json(a: &Authenticate) -> (r: JsonValue)
    ensures
        r@ == authenticate_json(a@),
{
    let mut ms: Vec<(String, JsonValue)> = Vec::new();
    proof {
        assert(JsonValue::Obj(ms)@->Obj_0 =~= Seq::<(Seq<char>, JsonV)>::empty());
    }
    push_member(&mut ms, "token", JsonValue::Str(a.token.clone()));
    proof {
        assert(JsonValue::Obj(ms)@->Obj_0 =~= authenticate_json(a@)->Obj_0);
        assert(JsonValue::Obj(ms)@ =~= authenticate_json(a@));
    }
    JsonValue::Obj(ms)
}

fn ack_to_json(a: &Ack) -> (r: JsonValue)
    ensures
        r@ == ack_json(a@),
{
    let mut ms: Vec<(String, JsonValue)> = Vec::new();
    proof {
        assert(JsonValue::Obj(ms)@->Obj_0 =~= Seq::<(Seq<char>, JsonV)>::empty());
    }
    push_member(&mut ms, "inReplyTo", JsonValue::Str(a.in_reply_to.clone()));
    let st = match a.status {
        AckStatus::Okay => String::from_str("ok"),
        AckStatus::Error => String::from_str("error"),
    };
    push_member(&mut ms, "status", JsonValue::Str(st));
    let ghost base = JsonValue::Obj(ms)@->Obj_0;
    match &a.message_id {
        Some(s) => {
            push_member(&mut ms, "messageId", JsonValue::Str(s.clone()));
        },
        None => {},
    }
    let ghost g1 = JsonValue::Obj(ms)@->Obj_0;
    proof {
        assert(g1 =~= base + opt_str_member(("messageId")@, a@.message_id));
    }
    match &a.created_at {
        Some(s) => {
            push_member(&mut ms, "createdAt", JsonValue::Str(s.clone()));
        },
        None => {},
    }
    let ghost g2 = JsonValue::Obj(ms)@->Obj_0;
    proof {
        assert(g2 =~= g1 + opt_str_member(("createdAt")@, a@.created_at));
    }
    match &a.group_id {
        Some(s) => {
            push_member(&mut ms, "groupId", JsonValue::Str(s.clone()));
        },
        None => {},
    }
    let ghost g3 = JsonValue::Obj(ms)@->Obj_0;
    proof {
        assert(g3 =~= g2 + opt_str_member(("groupId")@, a@.group_id));
    }
    match &a.content {
        Some(s) => {
            push_member(&mut ms, "content", JsonValue::Str(s.clone()));
        },
        None => {},
    }
    let ghost g4 = JsonValue::Obj(ms)@->Obj_0;
    proof {
        assert(g4 =~= g3 + opt_str_member(("content")@, a@.content));
    }
    match &a.error {
        Some(e) => {
            push_member(&mut ms, "error", error_to_json(e));
        },
        None => {},
    }
    proof {
        assert(JsonValue::Obj(ms)@->Obj_0 =~= g4 + match a@.error {
            Some(e) => seq![(("error")@, error_json(e))],
            None => Seq::<(Seq<char>, JsonV)>::empty(),
        });
        assert(JsonValue::Obj(ms)@->Obj_0 =~= ack_json(a@)->Obj_0);
        assert(JsonValue::Obj(ms)@ =~= ack_json(a@));
    }
    JsonValue::Obj(ms)
}

impl WsMessage {
    /// The canonical wire text of this envelope.
    pub fn encode(&self) -> (r: String)
        ensures
            r@ == ws_encode(self@),
    {
        let payload = match self {
            WsMessage::SendMessage(p) => send_message_to_json(p),
            WsMessage::Message(p) => message_to_json(p),
            WsMessage::Ack(p) => ack_to_json(p),
            WsMessage::Error(p) => error_to_json(p),
            WsMessage::Authenticate(p) => authenticate_to_json(p),
            WsMessage::AuthOk(p) => user_to_json(p),
        };
        let t = match self {
            WsMessage::SendMessage(_) => "sendMessage",
            WsMessage::Message(_) => "message",
            WsMessage::Ack(_) => "ack",
            WsMessage::Error(_) => "error",
            WsMessage::Authenticate(_) => "authenticate",
            WsMessage::AuthOk(_) => "authOk",
        };
        let mut ms: Vec<(String, JsonValue)> = Vec::new();
        proof {
            assert(JsonValue::Obj(ms)@->Obj_0 =~= Seq::<(Seq<char>, JsonV)>::empty());
        }
        push_member(&mut ms, "type", JsonValue::Str(String::from_str(t)));
        push_member(&mut ms, "payload", payload);
        proof {
            assert(JsonValue::Obj(ms)@->Obj_0 =~= envelope_json(self@)->Obj_0);
            assert(JsonValue::Obj(ms)@ =~= envelope_json(self@));
        }
        let env = JsonValue::Obj(ms);
        encode_json(&env)
    }
}


fn interp_send_message_exec(p: &JsonValue) -> (r: Result<WsMessage, DecodeError>)
    ensures
        match r {
            Ok(m) => interp_send_message(p@) == Ok::<WsMessageV, DecodeError>(m@),
            Err(e) => interp_send_message(p@) == Err::<WsMessageV, DecodeError>(e),
        },
{
    match p {
        JsonValue::Obj(ms) => {
            let c = match get_req_str(ms, &String::from_str("clientMsgId")) {
                Some(x) => x,
                None => {
                    return Err(DecodeError::Malformed);
                },
            };
            let g = match get_req_str(ms, &String::from_str("groupId")) {
                Some(x) => x,
                None => {
                    return Err(DecodeError::Malformed);
                },
            };
            let t = match get_req_str(ms, &String::from_str("content")) {
                Some(x) => x,
                None => {
                    return Err(DecodeError::Malformed);
                },
            };
            let s = match get_opt_str(ms, &String::from_str("sentAt")) {
                Some(x) => x,
                None => {
                    return Err(DecodeError::Malformed);
                },
            };
            Ok(
                WsMessage::SendMessage(
                    SendMessage { client_msg_id: c, group_id: g, content: t, sent_at: s },
                ),
            )
        },
        _ => Err(DecodeError::Malformed),
    }
}

fn interp_message_exec(p: &JsonValue) -> (r: Result<WsMessage, DecodeError>)
    ensures
        match r {
            Ok(m) => interp_message(p@) == Ok::<WsMessageV, DecodeError>(m@),
            Err(e) => interp_message(p@) == Err::<WsMessageV, DecodeError>(e),
        },
{
    match p {
        JsonValue::Obj(ms) => {
            let mi = match get_req_str(ms, &String::from_str("messageId")) {
                Some(x) => x,
                None => {
                    return Err(DecodeError::Malformed);
                },
            };
            let g = match get_req_str(ms, &String::from_str("groupId")) {
                Some(x) => x,
                None => {
                    return Err(DecodeError::Malformed);
                },
            };
            let sid = match get_req_str(ms, &String::from_str("senderId")) {
                Some(x) => x,
                None => {
                    return Err(DecodeError::Malformed);
                },
            };
            let c = match get_req_str(ms, &String::from_str("content")) {
                Some(x) => x,
                None => {
                    return Err(DecodeError::Malformed);
                },
            };
            let ca = match get_req_str(ms, &String::from_str("createdAt")) {
                Some(x) => x,
                None => {
                    return Err(DecodeError::Malformed);
                },
            };
            Ok(
                WsMessage::Message(
                    Message {
                        message_id: mi,
                        group_id: g,
                        sender_id: sid,
                        content: c,
                        created_at: ca,
                    },
                ),
            )
        },
        _ => Err(DecodeError::Malformed),
    }
}

fn interp_error_obj_exec(p: &JsonValue) -> (r: Option<Error>)
    ensures
        match r {
            Some(e) => interp_error_obj(p@) == Some(e@),
            None => interp_error_obj(p@) is None,
        },
{
    match p {
        JsonValue::Obj(ms) => {
            let c = match get_req_str(ms, &String::from_str("code")) {
                Some(x) => x,
                None => {
                    return None;
                },
            };
            let m = match get_req_str(ms, &String::from_str("message")) {
                Some(x) => x,
                None => {
                    return None;
                },
            };
            let d = get_opt_val(ms, &String::from_str("details"));
            Some(Error { code: c, message: m, details: d })
        },
        _ => None,
    }
}

fn interp_ack_exec(p: &JsonValue) -> (r: Result<WsMessage, DecodeError>)
    ensures
        match r {
            Ok(m) => interp_ack(p@) == Ok::<WsMessageV, DecodeError>(m@),
            Err(e) => interp_ack(p@) == Err::<WsMessageV, DecodeError>(e),
        },
{
    match p {
        JsonValue::Obj(ms) => {
            let ir = match get_req_str(ms, &String::from_str("inReplyTo")) {
                Some(x) => x,
                None => {
                    return Err(DecodeError::Malformed);
                },
            };
            let st = match get_req_str(ms, &String::from_str("status")) {
                Some(x) => x,
                None => {
                    return Err(DecodeError::Malformed);
                },
            };
            let mi = match get_opt_str(ms, &String::from_str("messageId")) {
                Some(x) => x,
                None => {
                    return Err(DecodeError::Malformed);
                },
            };
            let ca = match get_opt_str(ms, &String::from_str("createdAt")) {
                Some(x) => x,
                None => {
                    return Err(DecodeError::Malformed);
                },
            };
            let gi = match get_opt_str(ms, &String::from_str("groupId")) {
                Some(x) => x,
                None => {
                    return Err(DecodeError::Malformed);
                },
            };
            let co = match get_opt_str(ms, &String::from_str("content")) {
                Some(x) => x,
                None => {
                    return Err(DecodeError::Malformed);
                },
            };
            let err = match lookup_exec(ms, &String::from_str("error")) {
                None => None,
                Some(idx) => match &ms[idx].1 {
                    JsonValue::Null => None,
                    v => match interp_error_obj_exec(v) {
                        Some(e) => Some(e),
                        None => {
                            return Err(DecodeError::Malformed);
                        },
                    },
                },
            };
            let status = if st == String::from_str("ok") {
                AckStatus::Okay
            } else if st == String::from_str("error") {
                AckStatus::Error
            } else {
                return Err(DecodeError::Malformed);
            };
            Ok(
                WsMessage::Ack(
                    Ack {
                        in_reply_to: ir,
                        status: status,
                        message_id: mi,
                        created_at: ca,
                        group_id: gi,
                        content: co,
                        error: err,
                    },
                ),
            )
        },
        _ => Err(DecodeError::Malformed),
    }
}

fn interp_authenticate_exec(p: &JsonValue) -> (r: Result<WsMessage, DecodeError>)
    ensures
        match r {
            Ok(m) => interp_authenticate(p@) == Ok::<WsMessageV, DecodeError>(m@),
            Err(e) => interp_authenticate(p@) == Err::<WsMessageV, DecodeError>(e),
        },
{
    match p {
        JsonValue::Obj(ms) => {
            match get_req_str(ms, &String::from_str("token")) {
                Some(t) => Ok(WsMessage::Authenticate(Authenticate { token: t })),
                None => Err(DecodeError::Malformed),
            }
        },
        _ => Err(DecodeError::Malformed),
    }
}

fn interp_auth_ok_exec(p: &JsonValue) -> (r: Result<WsMessage, DecodeError>)
    ensures
        match r {
            Ok(m) => interp_auth_ok(p@) == Ok::<WsMessageV, DecodeError>(m@),
            Err(e) => interp_auth_ok(p@) == Err::<WsMessageV, DecodeError>(e),
        },
{
    match p {
        JsonValue::Obj(ms) => {
            let u = match get_req_str(ms, &String::from_str("userId")) {
                Some(x) => x,
                None => {
                    return Err(DecodeError::Malformed);
                },
            };
            let n = match get_req_str(ms, &String::from_str("username")) {
                Some(x) => x,
                None => {
                    return Err(DecodeError::Malformed);
                },
            };
            let c = match get_req_str(ms, &String::from_str("createdAt")) {
                Some(x) => x,
                None => {
                    return Err(DecodeError::Malformed);
                },
            };
            Ok(WsMessage::AuthOk(User { user_id: u, username: n, created_at: c }))
        },
        _ => Err(DecodeError::Malformed),
    }
}

fn interp_payload_exec(t: &String, p: &JsonValue) -> (r: Result<WsMessage, DecodeError>)
    ensures
        match r {
            Ok(m) => interp_payload(t@, p@) == Ok::<WsMessageV, DecodeError>(m@),
            Err(e) => interp_payload(t@, p@) == Err::<WsMessageV, DecodeError>(e),
        },
{
    if *t == String::from_str("sendMessage") {
        interp_send_message_exec(p)
    } else if *t == String::from_str("message") {
        interp_message_exec(p)
    } else if *t == String::from_str("ack") {
        interp_ack_exec(p)
    } else if *t == String::from_str("error") {
        match interp_error_obj_exec(p) {
            Some(e) => Ok(WsMessage::Error(e)),
            None => Err(DecodeError::Malformed),
        }
    } else if *t == String::from_str("authenticate") {
        interp_authenticate_exec(p)
    } else if *t == String::from_str("authOk") {
        interp_auth_ok_exec(p)
    } else {
        Err(DecodeError::UnknownType)
    }
}

fn interp_envelope_exec(j: &JsonValue) -> (r: Result<WsMessage, DecodeError>)
    ensures
        match r {
            Ok(m) => interp_envelope(j@) == Ok::<WsMessageV, DecodeError>(m@),
            Err(e) => interp_envelope(j@) == Err::<WsMessageV, DecodeError>(e),
        },
{
    match j {
        JsonValue::Obj(ms) => {
            match get_req_str(ms, &String::from_str("type")) {
                Some(t) => {
                    match lookup_exec(ms, &String::from_str("payload")) {
                        Some(idx) => interp_payload_exec(&t, &ms[idx].1),
                        None => Err(DecodeError::Malformed),
                    }
                },
                None => Err(DecodeError::Malformed),
            }
        },
        _ => Err(DecodeError::Malformed),
    }
}

/// Reads one envelope from wire text. Total: on any input it returns the
/// envelope, `UnknownType` for a discriminator outside the closed set, or
/// `Malformed` for anything else the grammar or the payload shapes refuse.
pub fn decode(s: &str) -> (r: Result<WsMessage, DecodeError>)
    ensures
        match r {
            Ok(m) => ws_decode(s@) == Ok::<WsMessageV, DecodeError>(m@),
            Err(e) => ws_decode(s@) == Err::<WsMessageV, DecodeError>(e),
        },
{
    match parse_json(s) {
        None => Err(DecodeError::Malformed),
        Some(j) => interp_envelope_exec(&j),
    }
}

} // verus!
