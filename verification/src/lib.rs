//! Core of a group-chat service: the tagged wire envelope and its codec, the
//! registry mapping an authenticated identity to its live delivery handle, the
//! per-connection authentication handshake, and the ordered outbound queue.

pub mod error;
pub mod forwarder;
pub mod http;
pub mod json;
pub mod models;
pub mod registry;
pub mod session;
pub mod utils;
pub mod ws;

pub use error::Error;
pub use forwarder::OutboundQueue;
pub use http::{
    CreateGroupRequest, CreateGroupResponse, ListGroupsResponse, ListMessagesResponse,
    LoginRequest, LoginResponse, RegisterRequest, RegisterResponse,
};
pub use models::{Group, Message, User};
pub use registry::Registry;
pub use session::{Action, Frame, Resolution, Session, SessionState};
pub use utils::{new_client_msg_id, now_timestamp};
pub use ws::{Ack, AckStatus, Authenticate, DecodeError, SendMessage, WsMessage};
