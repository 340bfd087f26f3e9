//! The request and response bodies of the HTTP account endpoints. The bodies
//! are JSON objects with camel-case member names; response types carry their
//! own codec so their wire shape is pinned down like the socket envelopes'.

use vstd::prelude::*;
use crate::json::{
    JsonV, JsonValue, jenc, jparse, lookup, req_str, encode_json, parse_json, get_req_str,
    lookup_exec, push_member,
};
use crate::models::{User, UserV, Group, GroupV, Message, MessageV, user_json, group_json,
    message_json};

verus! {

broadcast use {vstd::std_specs::vec::group_vec_axioms, vstd::seq::group_seq_axioms};

/// Asks to create an account.
#[derive(Debug, Clone, PartialEq, Eq)]
pub struct RegisterRequest {
    pub username: String,
    pub password: String,
}

/// Answers a successful registration with the new user and a bearer token.
#[derive(Debug, Clone, PartialEq, Eq)]
pub struct RegisterResponse {
    pub user: User,
    pub token: String,
}

pub struct RegisterResponseV {
    pub user: UserV,
    pub token: Seq<char>,
}

impl View for RegisterResponse {
    type V = RegisterResponseV;

    open spec fn view(&self) -> RegisterResponseV {
        RegisterResponseV { user: self.user@, token: self.token@ }
    }
}

/// Asks to log in with a username and password.
#[derive(Debug, Clone, PartialEq, Eq)]
pub struct LoginRequest {
    pub username: String,
    pub password: String,
}

/// Answers a successful login with a fresh token and the user.
#[derive(Debug, Clone, PartialEq, Eq)]
pub struct LoginResponse {
    pub token: String,
    pub user: User,
}

/// Lists the groups a user belongs to.
#[derive(Debug, Clone, PartialEq, Eq)]
pub struct ListGroupsResponse {
    pub groups: Vec<Group>,
}

/// Asks to create a group, optionally naming its first members.
#[derive(Debug, Clone, PartialEq, Eq)]
pub struct CreateGroupRequest {
    pub name: String,
    pub members: Option<Vec<String>>,
}

/// Answers a successful group creation.
#[derive(Debug, Clone, PartialEq, Eq)]
pub struct CreateGroupResponse {
    pub group: Group,
}

pub struct CreateGroupResponseV {
    pub group: GroupV,
}

impl View for CreateGroupResponse {
    type V = CreateGroupResponseV;

    open spec fn view(&self) -> CreateGroupResponseV {
        CreateGroupResponseV { group: self.group@ }
    }
}

/// A page of a group's messages.
#[derive(Debug, Clone, PartialEq, Eq)]
pub struct ListMessagesResponse {
    pub messages: Vec<Message>,
}

pub struct ListMessagesResponseV {
    pub messages: Seq<MessageV>,
}

/// The models of a list of messages, in order.
pub open spec fn messages_view(v: Seq<Message>) -> Seq<MessageV> {
    Seq::new(
        v.len(),
        |i: int|
            if 0 <= i < v.len() {
                v[i]@
            } else {
                MessageV {
                    message_id: Seq::empty(),
                    group_id: Seq::empty(),
                    sender_id: Seq::empty(),
                    content: Seq::empty(),
                    created_at: Seq::empty(),
                }
            },
    )
}

impl View for ListMessagesResponse {
    type V = ListMessagesResponseV;

    open spec fn view(&self) -> ListMessagesResponseV {
        ListMessagesResponseV { messages: messages_view(self.messages@) }
    }
}

pub open spec fn register_response_json(r: RegisterResponseV) -> JsonV {
    JsonV::Obj(seq![(("user")@, user_json(r.user)), (("token")@, JsonV::Str(r.token))])
}

pub open spec fn create_group_response_json(r: CreateGroupResponseV) -> JsonV {
    JsonV::Obj(seq![(("group")@, group_json(r.group))])
}

pub open spec fn messages_json(ms: Seq<MessageV>) -> Seq<JsonV> {
    Seq::new(ms.len(), |i: int| if 0 <= i < ms.len() { message_json(ms[i]) } else { JsonV::Null })
}

pub open spec fn list_messages_response_json(r: ListMessagesResponseV) -> JsonV {
    JsonV::Obj(seq![(("messages")@, JsonV::Arr(messages_json(r.messages)))])
}

/// What a user object must hold to be read back.
pub open spec fn interp_user_obj(p: JsonV) -> Option<UserV> {
    match p {
        JsonV::Obj(ms) => match (
            req_str(ms, ("userId")@),
            req_str(ms, ("username")@),
            req_str(ms, ("createdAt")@),
        ) {
            (Some(u), Some(n), Some(c)) => Some(
                UserV { user_id: u, username: n, created_at: c },
            ),
            _ => None,
        },
        _ => None,
    }
}

pub open spec fn interp_group_obj(p: JsonV) -> Option<GroupV> {
    match p {
        JsonV::Obj(ms) => match (
            req_str(ms, ("groupId")@),
            req_str(ms, ("name")@),
            req_str(ms, ("createdAt")@),
        ) {
            (Some(g), Some(n), Some(c)) => Some(GroupV { group_id: g, name: n, created_at: c }),
            _ => None,
        },
        _ => None,
    }
}

pub open spec fn interp_message_obj(p: JsonV) -> Option<MessageV> {
    match p {
        JsonV::Obj(ms) => match (
            req_str(ms, ("messageId")@),
            req_str(ms, ("groupId")@),
            req_str(ms, ("senderId")@),
            req_str(ms, ("content")@),
            req_str(ms, ("createdAt")@),
        ) {
            (Some(m), Some(g), Some(s), Some(c), Some(t)) => Some(
                MessageV { message_id: m, group_id: g, sender_id: s, content: c, created_at: t },
            ),
            _ => None,
        },
        _ => None,
    }
}

/// Reads a whole page back, element by element, in order.
pub open spec fn interp_messages(items: Seq<JsonV>) -> Option<Seq<MessageV>>
    decreases items.len(),
{
    if items.len() == 0 {
        Some(Seq::empty())
    } else {
        match interp_message_obj(items[0]) {
            Some(m) => match interp_messages(items.drop_first()) {
                Some(rest) => Some(seq![m] + rest),
                None => None,
            },
            None => None,
        }
    }
}

pub open spec fn interp_list_messages_response(j: JsonV) -> Option<ListMessagesResponseV> {
    match j {
        JsonV::Obj(ms) => match lookup(ms, ("messages")@) {
            Some(JsonV::Arr(items)) => match interp_messages(items) {
                Some(msv) => Some(ListMessagesResponseV { messages: msv }),
                None => None,
            },
            _ => None,
        },
        _ => None,
    }
}

pub open spec fn interp_register_response(j: JsonV) -> Option<RegisterResponseV> {
    match j {
        JsonV::Obj(ms) => match (lookup(ms, ("user")@), req_str(ms, ("token")@)) {
            (Some(u), Some(t)) => match interp_user_obj(u) {
                Some(uv) => Some(RegisterResponseV { user: uv, token: t }),
                None => None,
            },
            _ => None,
        },
        _ => None,
    }
}

pub open spec fn interp_create_group_response(j: JsonV) -> Option<CreateGroupResponseV> {
    match j {
        JsonV::Obj(ms) => match lookup(ms, ("group")@) {
            Some(g) => match interp_group_obj(g) {
                Some(gv) => Some(CreateGroupResponseV { group: gv }),
                None => None,
            },
            None => None,
        },
        _ => None,
    }
}

fn user_obj_exec(u: &User) -> (r: JsonValue)
    ensures
        r@ == user_json(u@),
{
    let mut ms: Vec<(String, JsonValue)> = Vec::new();
    proof {
        assert(JsonValue::Obj(ms)@->Obj_0 =~= Seq::<(Seq<char>, JsonV)>::empty());
    }
    push_member(&mut ms, "userId", JsonValue::Str(u.user_id.clone()));
    push_member(&mut ms, "username", JsonValue::Str(u.username.clone()));
    push_member(&mut ms, "createdAt", JsonValue::Str(u.created_at.clone()));
    proof {
        assert(JsonValue::Obj(ms)@->Obj_0 =~= user_json(u@)->Obj_0);
        assert(JsonValue::Obj(ms)@ =~= user_json(u@));
    }
    JsonValue::Obj(ms)
}

fn group_obj_exec(g: &Group) -> (r: JsonValue)
    ensures
        r@ == group_json(g@),
{
    let mut ms: Vec<(String, JsonValue)> = Vec::new();
    proof {
        assert(JsonValue::Obj(ms)@->Obj_0 =~= Seq::<(Seq<char>, JsonV)>::empty());
    }
    push_member(&mut ms, "groupId", JsonValue::Str(g.group_id.clone()));
    push_member(&mut ms, "name", JsonValue::Str(g.name.clone()));
    push_member(&mut ms, "createdAt", JsonValue::Str(g.created_at.clone()));
    proof {
        assert(JsonValue::Obj(ms)@->Obj_0 =~= group_json(g@)->Obj_0);
        assert(JsonValue::Obj(ms)@ =~= group_json(g@));
    }
    JsonValue::Obj(ms)
}

fn message_obj_exec(m: &Message) -> (r: JsonValue)
    ensures
        r@ == message_json(m@),
{
    let mut ms: Vec<(String, JsonValue)> = Vec::new();
    proof {
        assert(JsonValue::Obj(ms)@->Obj_0 =~= Seq::<(Seq<char>, JsonV)>::empty());
    }
    push_member(&mut ms, "messageId", JsonValue::Str(m.message_id.clone()));
    push_member(&mut ms, "groupId", JsonValue::Str(m.group_id.clone()));
    push_member(&mut ms, "senderId", JsonValue::Str(m.sender_id.clone()));
    push_member(&mut ms, "content", JsonValue::Str(m.content.clone()));
    push_member(&mut ms, "createdAt", JsonValue::Str(m.created_at.clone()));
    proof {
        assert(JsonValue::Obj(ms)@->Obj_0 =~= message_json(m@)->Obj_0);
        assert(JsonValue::Obj(ms)@ =~= message_json(m@));
    }
    JsonValue::Obj(ms)
}

fn interp_user_obj_exec(p: &JsonValue) -> (r: Option<User>)
    ensures
        match r {
            Some(u) => interp_user_obj(p@) == Some(u@),
            None => interp_user_obj(p@) is None,
        },
{
    match p {
        JsonValue::Obj(ms) => {
            let u = match get_req_str(ms, &String::from_str("userId")) {
                Some(x) => x,
                None => {
                    return None;
                },
            };
            let n = match get_req_str(ms, &String::from_str("username")) {
                Some(x) => x,
                None => {
                    return None;
                },
            };
            let c = match get_req_str(ms, &String::from_str("createdAt")) {
                Some(x) => x,
                None => {
                    return None;
                },
            };
            Some(User { user_id: u, username: n, created_at: c })
        },
        _ => None,
    }
}

fn interp_group_obj_exec(p: &JsonValue) -> (r: Option<Group>)
    ensures
        match r {
            Some(g) => interp_group_obj(p@) == Some(g@),
            None => interp_group_obj(p@) is None,
        },
{
    match p {
        JsonValue::Obj(ms) => {
            let g = match get_req_str(ms, &String::from_str("groupId")) {
                Some(x) => x,
                None => {
                    return None;
                },
            };
            let n = match get_req_str(ms, &String::from_str("name")) {
                Some(x) => x,
                None => {
                    return None;
                },
            };
            let c = match get_req_str(ms, &String::from_str("createdAt")) {
                Some(x) => x,
                None => {
                    return None;
                },
            };
            Some(Group { group_id: g, name: n, created_at: c })
        },
        _ => None,
    }
}

impl RegisterResponse {
    /// The JSON body this response is sent as.
    pub fn encode(&self) -> (r: String)
        ensures
            r@ == jenc(register_response_json(self@)),
    {
        let mut ms: Vec<(String, JsonValue)> = Vec::new();
        proof {
            assert(JsonValue::Obj(ms)@->Obj_0 =~= Seq::<(Seq<char>, JsonV)>::empty());
        }
        push_member(&mut ms, "user", user_obj_exec(&self.user));
        push_member(&mut ms, "token", JsonValue::Str(self.token.clone()));
        let env = JsonValue::Obj(ms);
        proof {
            assert(env@->Obj_0 =~= register_response_json(self@)->Obj_0);
            assert(env@ =~= register_response_json(self@));
        }
        encode_json(&env)
    }

    /// Reads a response body back; `None` on anything ill-shaped.
    pub fn decode(s: &str) -> (r: Option<RegisterResponse>)
        ensures
            match r {
                Some(v) => jparse(s@) is Some && interp_register_response(jparse(s@)->Some_0)
                    == Some(v@),
                None => jparse(s@) is None || interp_register_response(jparse(s@)->Some_0)
                    is None,
            },
    {
        let j = match parse_json(s) {
            Some(j) => j,
            None => {
                return None;
            },
        };
        match &j {
            JsonValue::Obj(ms) => {
                let uidx = match lookup_exec(ms, &String::from_str("user")) {
                    Some(i) => i,
                    None => {
                        return None;
                    },
                };
                let t = match get_req_str(ms, &String::from_str("token")) {
                    Some(x) => x,
                    None => {
                        return None;
                    },
                };
                match interp_user_obj_exec(&ms[uidx].1) {
                    Some(u) => Some(RegisterResponse { user: u, token: t }),
                    None => None,
                }
            },
            _ => None,
        }
    }
}

impl CreateGroupResponse {
    /// The JSON body this response is sent as.
    pub fn encode(&self) -> (r: String)
        ensures
            r@ == jenc(create_group_response_json(self@)),
    {
        let mut ms: Vec<(String, JsonValue)> = Vec::new();
        proof {
            assert(JsonValue::Obj(ms)@->Obj_0 =~= Seq::<(Seq<char>, JsonV)>::empty());
        }
        push_member(&mut ms, "group", group_obj_exec(&self.group));
        let env = JsonValue::Obj(ms);
        proof {
            assert(env@->Obj_0 =~= create_group_response_json(self@)->Obj_0);
            assert(env@ =~= create_group_response_json(self@));
        }
        encode_json(&env)
    }

    /// Reads a response body back; `None` on anything ill-shaped.
    pub fn decode(s: &str) -> (r: Option<CreateGroupResponse>)
        ensures
            match r {
                Some(v) => jparse(s@) is Some && interp_create_group_response(
                    jparse(s@)->Some_0,
                ) == Some(v@),
                None => jparse(s@) is None || interp_create_group_response(jparse(s@)->Some_0)
                    is None,
            },
    {
        let j = match parse_json(s) {
            Some(j) => j,
            None => {
                return None;
            },
        };
        match &j {
            JsonValue::Obj(ms) => {
                let gidx = match lookup_exec(ms, &String::from_str("group")) {
                    Some(i) => i,
                    None => {
                        return None;
                    },
                };
                match interp_group_obj_exec(&ms[gidx].1) {
                    Some(g) => Some(CreateGroupResponse { group: g }),
                    None => None,
                }
            },
            _ => None,
        }
    }
}

fn interp_message_obj_exec(p: &JsonValue) -> (r: Option<Message>)
    ensures
        match r {
            Some(m) => interp_message_obj(p@) == Some(m@),
            None => interp_message_obj(p@) is None,
        },
{
    match p {
        JsonValue::Obj(ms) => {
            let mi = match get_req_str(ms, &String::from_str("messageId")) {
                Some(x) => x,
                None => {
                    return None;
                },
            };
            let g = match get_req_str(ms, &String::from_str("groupId")) {
                Some(x) => x,
                None => {
                    return None;
                },
            };
            let sid = match get_req_str(ms, &String::from_str("senderId")) {
                Some(x) => x,
                None => {
                    return None;
                },
            };
            let c = match get_req_str(ms, &String::from_str("content")) {
                Some(x) => x,
                None => {
                    return None;
                },
            };
            let ca = match get_req_str(ms, &String::from_str("createdAt")) {
                Some(x) => x,
                None => {
                    return None;
                },
            };
            Some(
                Message {
                    message_id: mi,
                    group_id: g,
                    sender_id: sid,
                    content: c,
                    created_at: ca,
                },
            )
        },
        _ => None,
    }
}

fn interp_messages_exec(items: &Vec<JsonValue>, idx: usize) -> (r: Option<Vec<Message>>)
    requires
        idx <= items@.len(),
    ensures
        match r {
            Some(v) => interp_messages(JsonValue::Arr(*items)@->Arr_0.skip(idx as int)) == Some(
                messages_view(v@),
            ),
            None => interp_messages(JsonValue::Arr(*items)@->Arr_0.skip(idx as int)) is None,
        },
    decreases items@.len() - idx,
{
    let ghost whole = JsonValue::Arr(*items)@->Arr_0;
    if idx == items.len() {
        let out: Vec<Message> = Vec::new();
        proof {
            assert(whole.skip(idx as int) =~= Seq::<JsonV>::empty());
            assert(messages_view(out@) =~= Seq::<MessageV>::empty());
        }
        Some(out)
    } else {
        proof {
            assert(whole.skip(idx as int)[0] == whole[idx as int]);
            assert(whole[idx as int] == items@[idx as int]@);
            assert(whole.skip(idx as int).drop_first() =~= whole.skip(idx + 1 as int));
        }
        let first = match interp_message_obj_exec(&items[idx]) {
            Some(m) => m,
            None => {
                return None;
            },
        };
        let mut rest = match interp_messages_exec(items, idx + 1) {
            Some(v) => v,
            None => {
                return None;
            },
        };
        let ghost rest0 = rest;
        rest.insert(0, first);
        proof {
            assert(messages_view(rest@) =~= seq![first@] + messages_view(rest0@));
        }
        Some(rest)
    }
}

impl ListMessagesResponse {
    /// Reads a page back; `None` on anything ill-shaped.
    pub fn decode(s: &str) -> (r: Option<ListMessagesResponse>)
        ensures
            match r {
                Some(v) => jparse(s@) is Some && interp_list_messages_response(
                    jparse(s@)->Some_0,
                ) == Some(v@),
                None => jparse(s@) is None || interp_list_messages_response(jparse(s@)->Some_0)
                    is None,
            },
    {
        let j = match parse_json(s) {
            Some(j) => j,
            None => {
                return None;
            },
        };
        match &j {
            JsonValue::Obj(ms) => {
                let idx = match lookup_exec(ms, &String::from_str("messages")) {
                    Some(i) => i,
                    None => {
                        return None;
                    },
                };
                match &ms[idx].1 {
                    JsonValue::Arr(items) => {
                        proof {
                            assert(JsonValue::Arr(*items)@->Arr_0.skip(0) =~= JsonValue::Arr(
                                *items,
                            )@->Arr_0);
                        }
                        match interp_messages_exec(items, 0) {
                            Some(v) => Some(ListMessagesResponse { messages: v }),
                            None => None,
                        }
                    },
                    _ => None,
                }
            },
            _ => None,
        }
    }
}

impl ListMessagesResponse {
    /// The JSON body this response is sent as.
    pub fn encode(&self) -> (r: String)
        ensures
            r@ == jenc(list_messages_response_json(self@)),
    {
        let mut items: Vec<JsonValue> = Vec::new();
        let mut k: usize = 0;
        while k < self.messages.len()
            invariant
                k <= self.messages@.len(),
                items@.len() == k,
                forall|i: int| 0 <= i < k ==> #[trigger] items@[i]@ == message_json(
                    self.messages@[i]@,
                ),
            decreases self.messages@.len() - k,
        {
            items.push(message_obj_exec(&self.messages[k]));
            k = k + 1;
        }
        let arr = JsonValue::Arr(items);
        proof {
            assert forall|i: int| 0 <= i < self.messages@.len() implies arr@->Arr_0[i]
                == messages_json(self@.messages)[i] by {
                assert(items@[i]@ == message_json(self.messages@[i]@));
            }
            assert(arr@->Arr_0 =~= messages_json(self@.messages));
            assert(arr@ =~= JsonV::Arr(messages_json(self@.messages)));
        }
        let mut ms: Vec<(String, JsonValue)> = Vec::new();
        proof {
            assert(JsonValue::Obj(ms)@->Obj_0 =~= Seq::<(Seq<char>, JsonV)>::empty());
        }
        push_member(&mut ms, "messages", arr);
        let env = JsonValue::Obj(ms);
        proof {
            assert(env@->Obj_0 =~= list_messages_response_json(self@)->Obj_0);
            assert(env@ =~= list_messages_response_json(self@));
        }
        encode_json(&env)
    }
}

} // verus!
