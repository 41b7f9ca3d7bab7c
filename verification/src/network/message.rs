//! The messages that travel between a host and its peers.
//!
//! Every frame is an envelope: one message and, where the sender attaches it,
//! the digest of the room's password. What a peer sends is a [`UserMsg`], what
//! the host says on its own account is a [`ServerMsg`].

use super::{clone_users, users_view, User, UserView};
use crate::schema::{
    clone_opt_string, clone_texts, opt_text, texts_view, PeerAddr, TextMessage, TextMessageView,
};
use vstd::prelude::*;

verus! {

/// What a peer sends.
#[derive(Debug, PartialEq, Eq)]
pub enum UserMsg {
    /// A chat message for the room.
    Normal { msg: TextMessage },
    /// The peer announces itself to the room.
    UserJoined { user: User },
    /// The peer asks for the room's history and its present users.
    SyncReq { user: User },
    /// The peer asks that an address be banned.
    BanReq { addr: PeerAddr },
}

/// What the host says on its own account.
#[derive(Debug, PartialEq, Eq)]
pub enum ServerMsg {
    /// The credential attached to a request was missing or wrong.
    AuthFailure,
    /// The host tells a new connection whether the room wants a password.
    AuthReq { passwd_required: bool },
    /// The answer to a `SyncReq`.
    Sync { user_addr: PeerAddr, room_id: String, messages: Vec<TextMessage>, users: Vec<User> },
    /// A joined peer is gone.
    UserLeft { addr: PeerAddr },
    /// An address has been banned.
    BanConfirm { addr: PeerAddr },
    /// The host is about to close every connection.
    ServerShutdown,
}

/// Either kind of message.
#[derive(Debug, PartialEq, Eq)]
pub enum MessageType {
    User(UserMsg),
    Server(ServerMsg),
}

/// One frame: a message and the credential attached to it.
#[derive(Debug, PartialEq, Eq)]
pub struct Message {
    pub msg_type: MessageType,
    pub passwd: Option<String>,
}

/// A [`UserMsg`] as plain values.
pub enum UserMsgView {
    Normal { msg: TextMessageView },
    UserJoined { user: UserView },
    SyncReq { user: UserView },
    BanReq { addr: PeerAddr },
}

/// A [`ServerMsg`] as plain values.
pub enum ServerMsgView {
    AuthFailure,
    AuthReq { passwd_required: bool },
    Sync {
        user_addr: PeerAddr,
        room_id: Seq<char>,
        messages: Seq<TextMessageView>,
        users: Seq<UserView>,
    },
    UserLeft { addr: PeerAddr },
    BanConfirm { addr: PeerAddr },
    ServerShutdown,
}

/// A [`MessageType`] as plain values.
pub enum MessageTypeView {
    User(UserMsgView),
    Server(ServerMsgView),
}

/// A [`Message`] as plain values.
pub struct MessageView {
    pub msg_type: MessageTypeView,
    pub passwd: Option<Seq<char>>,
}

impl View for UserMsg {
    type V = UserMsgView;

    open spec fn view(&self) -> UserMsgView {
        match *self {
            UserMsg::Normal { msg } => UserMsgView::Normal { msg: msg@ },
            UserMsg::UserJoined { user } => UserMsgView::UserJoined { user: user@ },
            UserMsg::SyncReq { user } => UserMsgView::SyncReq { user: user@ },
            UserMsg::BanReq { addr } => UserMsgView::BanReq { addr },
        }
    }
}

impl View for ServerMsg {
    type V = ServerMsgView;

    open spec fn view(&self) -> ServerMsgView {
        match *self {
            ServerMsg::AuthFailure => ServerMsgView::AuthFailure,
            ServerMsg::AuthReq { passwd_required } => ServerMsgView::AuthReq { passwd_required },
            ServerMsg::Sync { user_addr, room_id, messages, users } => ServerMsgView::Sync {
                user_addr,
                room_id: room_id@,
                messages: texts_view(messages@),
                users: users_view(users@),
            },
            ServerMsg::UserLeft { addr } => ServerMsgView::UserLeft { addr },
            ServerMsg::BanConfirm { addr } => ServerMsgView::BanConfirm { addr },
            ServerMsg::ServerShutdown => ServerMsgView::ServerShutdown,
        }
    }
}

impl View for MessageType {
    type V = MessageTypeView;

    open spec fn view(&self) -> MessageTypeView {
        match *self {
            MessageType::User(m) => MessageTypeView::User(m@),
            MessageType::Server(m) => MessageTypeView::Server(m@),
        }
    }
}

impl View for Message {
    type V = MessageView;

    open spec fn view(&self) -> MessageView {
        MessageView { msg_type: self.msg_type@, passwd: opt_text(self.passwd) }
    }
}

impl Clone for UserMsg {
    fn clone(&self) -> (r: Self)
        ensures
            r@ == self@,
    {
        match self {
            UserMsg::Normal { msg } => UserMsg::Normal { msg: msg.clone() },
            UserMsg::UserJoined { user } => UserMsg::UserJoined { user: user.clone() },
            UserMsg::SyncReq { user } => UserMsg::SyncReq { user: user.clone() },
            UserMsg::BanReq { addr } => UserMsg::BanReq { addr: *addr },
        }
    }
}

impl Clone for ServerMsg {
    fn clone(&self) -> (r: Self)
        ensures
            r@ == self@,
    {
        match self {
            ServerMsg::AuthFailure => ServerMsg::AuthFailure,
            ServerMsg::AuthReq { passwd_required } => ServerMsg::AuthReq {
                passwd_required: *passwd_required,
            },
            ServerMsg::Sync { user_addr, room_id, messages, users } => ServerMsg::Sync {
                user_addr: *user_addr,
                room_id: room_id.clone(),
                messages: clone_texts(messages),
                users: clone_users(users),
            },
            ServerMsg::UserLeft { addr } => ServerMsg::UserLeft { addr: *addr },
            ServerMsg::BanConfirm { addr } => ServerMsg::BanConfirm { addr: *addr },
            ServerMsg::ServerShutdown => ServerMsg::ServerShutdown,
        }
    }
}

impl Clone for MessageType {
    fn clone(&self) -> (r: Self)
        ensures
            r@ == self@,
    {
        match self {
            MessageType::User(m) => MessageType::User(m.clone()),
            MessageType::Server(m) => MessageType::Server(m.clone()),
        }
    }
}

impl Clone for Message {
    fn clone(&self) -> (r: Self)
        ensures
            r@ == self@,
    {
        Message { msg_type: self.msg_type.clone(), passwd: clone_opt_string(&self.passwd) }
    }
}

impl From<(MessageType, Option<String>)> for Message {
    /// The envelope of `value.0` with the credential `value.1`.
    fn from(value: (MessageType, Option<String>)) -> (r: Self) {
        let (msg_type, passwd) = value;
        Message { msg_type, passwd }
    }
}

impl vstd::std_specs::convert::FromSpecImpl<(MessageType, Option<String>)> for Message {
    open spec fn obeys_from_spec() -> bool {
        true
    }

    open spec fn from_spec(value: (MessageType, Option<String>)) -> Self {
        Message { msg_type: value.0, passwd: value.1 }
    }
}

impl From<(UserMsg, Option<String>)> for Message {
    /// The envelope of a peer's message `value.0` with the credential `value.1`.
    fn from(value: (UserMsg, Option<String>)) -> (r: Self) {
        let (user_msg, passwd) = value;
        Message { msg_type: MessageType::User(user_msg), passwd }
    }
}

impl vstd::std_specs::convert::FromSpecImpl<(UserMsg, Option<String>)> for Message {
    open spec fn obeys_from_spec() -> bool {
        true
    }

    open spec fn from_spec(value: (UserMsg, Option<String>)) -> Self {
        Message { msg_type: MessageType::User(value.0), passwd: value.1 }
    }
}

impl From<ServerMsg> for Message {
    /// The envelope of a host's message: it carries no credential.
    fn from(value: ServerMsg) -> (r: Self) {
        Message { msg_type: MessageType::Server(value), passwd: None }
    }
}

impl vstd::std_specs::convert::FromSpecImpl<ServerMsg> for Message {
    open spec fn obeys_from_spec() -> bool {
        true
    }

    open spec fn from_spec(value: ServerMsg) -> Self {
        Message { msg_type: MessageType::Server(value), passwd: None }
    }
}

/// The envelope of a host's message, as plain values.
pub open spec fn server_frame(m: ServerMsgView) -> MessageView {
    MessageView { msg_type: MessageTypeView::Server(m), passwd: None }
}

/// The envelope of a peer's message with a credential, as plain values.
pub open spec fn user_frame(m: UserMsgView, passwd: Option<Seq<char>>) -> MessageView {
    MessageView { msg_type: MessageTypeView::User(m), passwd }
}

} // verus!
