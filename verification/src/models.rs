//! Values exposed on the wire: users, groups and persisted messages. Times
//! are RFC 3339 UTC strings; identifiers are UUID strings.

use vstd::prelude::*;
use crate::json::JsonV;

verus! {

/// A user as shown to clients (not a database row).
#[derive(Debug, Clone, PartialEq, Eq)]
pub struct User {
    pub user_id: String,
    pub username: String,
    pub created_at: String,
}

pub struct UserV {
    pub user_id: Seq<char>,
    pub username: Seq<char>,
    pub created_at: Seq<char>,
}

impl View for User {
    type V = UserV;

    open spec fn view(&self) -> UserV {
        UserV { user_id: self.user_id@, username: self.username@, created_at: self.created_at@ }
    }
}

/// A chat room.
#[derive(Debug, Clone, PartialEq, Eq)]
pub struct Group {
    pub group_id: String,
    pub name: String,
    pub created_at: String,
}

pub struct GroupV {
    pub group_id: Seq<char>,
    pub name: Seq<char>,
    pub created_at: Seq<char>,
}

impl View for Group {
    type V = GroupV;

    open spec fn view(&self) -> GroupV {
        GroupV { group_id: self.group_id@, name: self.name@, created_at: self.created_at@ }
    }
}

/// A message the server has persisted and notifies over the socket.
#[derive(Debug, Clone, PartialEq, Eq)]
pub struct Message {
    pub message_id: String,
    pub group_id: String,
    pub sender_id: String,
    pub content: String,
    pub created_at: String,
}

pub struct MessageV {
    pub message_id: Seq<char>,
    pub group_id: Seq<char>,
    pub sender_id: Seq<char>,
    pub content: Seq<char>,
    pub created_at: Seq<char>,
}

impl View for Message {
    type V = MessageV;

    open spec fn view(&self) -> MessageV {
        MessageV {
            message_id: self.message_id@,
            group_id: self.group_id@,
            sender_id: self.sender_id@,
            content: self.content@,
            created_at: self.created_at@,
        }
    }
}

/// The wire object for a user.
pub open spec fn user_json(u: UserV) -> JsonV {
    JsonV::Obj(
        seq![
            (("userId")@, JsonV::Str(u.user_id)),
            (("username")@, JsonV::Str(u.username)),
            (("createdAt")@, JsonV::Str(u.created_at)),
        ],
    )
}

/// The wire object for a group.
pub open spec fn group_json(g: GroupV) -> JsonV {
    JsonV::Obj(
        seq![
            (("groupId")@, JsonV::Str(g.group_id)),
            (("name")@, JsonV::Str(g.name)),
            (("createdAt")@, JsonV::Str(g.created_at)),
        ],
    )
}

/// The wire object for a persisted message.
pub open spec fn message_json(m: MessageV) -> JsonV {
    JsonV::Obj(
        seq![
            (("messageId")@, JsonV::Str(m.message_id)),
            (("groupId")@, JsonV::Str(m.group_id)),
            (("senderId")@, JsonV::Str(m.sender_id)),
            (("content")@, JsonV::Str(m.content)),
            (("createdAt")@, JsonV::Str(m.created_at)),
        ],
    )
}

} // verus!
