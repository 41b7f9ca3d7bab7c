//! One peer's view of a room.
//!
//! [`ChatClient`] holds what the peer knows of the room and of itself, and
//! where its connection stands. Like the host it does no input or output:
//! whoever drives it opens the transport, hands over each frame that came in,
//! and sends each frame that the client hands back.
//!
//! A client starts `Disconnected`, is `Connecting` while the transport is
//! being opened, and `Connected` once it is. From anywhere it can be
//! cancelled, by [`ChatClient::disconnect`] or by what the host says; a
//! cancelled client is `Disconnected` for good.

use super::message::{
    user_frame, Message, MessageType, MessageTypeView, MessageView, ServerMsg, ServerMsgView,
    UserMsg, UserMsgView,
};
use super::{User, UserView};
use crate::schema::{clone_opt_string, PeerAddr, RoomHeader, RoomHeaderView};
use vstd::prelude::*;
use vstd::string::StringExecFns;

verus! {

/// Where a client's connection stands.
#[derive(Clone, Copy, Debug, PartialEq, Eq, Structural)]
pub enum ConnectionState {
    Disconnected,
    Connecting,
    Connected,
}

/// Why a client could not do what was asked.
#[derive(Clone, Copy, Debug, PartialEq, Eq, Structural)]
pub enum ClientError {
    /// The transport could not be opened.
    ConnectionRefused,
    /// The client was not waiting for a transport to open.
    NotConnecting,
    /// The client had a connection and it is gone: nothing can be sent.
    ChannelClosed,
}

/// A client's state as plain values.
#[verifier::ext_equal]
pub struct ClientView {
    pub room: RoomHeaderView,
    pub user: UserView,
    pub state: ConnectionState,
    pub cancelled: bool,
    pub has_channel: bool,
}

/// What holds of every client: only a client that is not cancelled is
/// connecting or connected, and a connected client has a channel.
pub open spec fn client_wf(c: ClientView) -> bool {
    &&& c.cancelled ==> c.state == ConnectionState::Disconnected
    &&& c.state == ConnectionState::Connected ==> c.has_channel
}

/// The client after it was cancelled.
pub open spec fn spec_disconnect(c: ClientView) -> ClientView {
    ClientView { state: ConnectionState::Disconnected, cancelled: true, ..c }
}

/// Whether a frame from the host ends the connection: a refused credential,
/// a shutdown, or the ban of the client's own address.
pub open spec fn is_fatal(c: ClientView, m: MessageTypeView) -> bool {
    match m {
        MessageTypeView::Server(ServerMsgView::AuthFailure) => true,
        MessageTypeView::Server(ServerMsgView::ServerShutdown) => true,
        MessageTypeView::Server(ServerMsgView::BanConfirm { addr }) => c.user.addr == Some(addr),
        _ => false,
    }
}

/// What the client makes of a frame before handing it on: a fatal one cancels
/// it; a `Sync` tells it its own address and the room's id; any other leaves
/// it as it is.
pub open spec fn spec_absorb(c: ClientView, m: MessageTypeView) -> ClientView {
    if is_fatal(c, m) {
        spec_disconnect(c)
    } else {
        match m {
            MessageTypeView::Server(ServerMsgView::Sync { user_addr, room_id, .. }) => ClientView {
                user: User::spec_at(c.user, user_addr),
                room: RoomHeaderView { id: room_id, ..c.room },
                ..c
            },
            _ => c,
        }
    }
}

/// One poll. A client that is cancelled or has no channel yields nothing and
/// stays as it is, whatever was polled. Otherwise an empty poll yields
/// nothing, and a frame is absorbed and handed on.
pub open spec fn spec_recv_msg(c: ClientView, polled: Option<MessageView>) -> (
    ClientView,
    Option<MessageTypeView>,
) {
    if c.cancelled || !c.has_channel {
        (c, None)
    } else {
        match polled {
            None => (c, None),
            Some(msg) => (spec_absorb(c, msg.msg_type), Some(msg.msg_type)),
        }
    }
}

/// What becomes of a request to send `msg`: without a channel nothing is sent
/// and nothing fails; with a channel that is gone the request fails; otherwise
/// the frame to send is `msg` with the room's credential attached.
pub open spec fn spec_send_msg(c: ClientView, msg: UserMsgView) -> Result<
    Option<MessageView>,
    ClientError,
> {
    if !c.has_channel {
        Ok(None)
    } else if c.cancelled {
        Err(ClientError::ChannelClosed)
    } else {
        Ok(Some(user_frame(msg, c.room.passwd)))
    }
}

/// What becomes of the client when the attempt to open the transport ends:
/// on success it is connected and announces itself; on failure it is back
/// where it started. A client that was not connecting is left alone.
pub open spec fn spec_connect(c: ClientView, established: bool) -> (
    ClientView,
    Result<MessageView, ClientError>,
) {
    if c.state != ConnectionState::Connecting {
        (c, Err(ClientError::NotConnecting))
    } else if established {
        (
            ClientView { state: ConnectionState::Connected, has_channel: true, ..c },
            Ok(user_frame(UserMsgView::UserJoined { user: c.user }, c.room.passwd)),
        )
    } else {
        (
            ClientView { state: ConnectionState::Disconnected, ..c },
            Err(ClientError::ConnectionRefused),
        )
    }
}

/// A peer's side of one room.
#[derive(Debug)]
pub struct ChatClient {
    room: RoomHeader,
    user: User,
    state: ConnectionState,
    cancelled: bool,
    has_channel: bool,
}

impl View for ChatClient {
    type V = ClientView;

    closed spec fn view(&self) -> ClientView {
        ClientView {
            room: self.room@,
            user: self.user@,
            state: self.state,
            cancelled: self.cancelled,
            has_channel: self.has_channel,
        }
    }
}

impl ChatClient {
    /// Whether this client is well formed (see [`client_wf`]).
    pub open spec fn wf(&self) -> bool {
        client_wf(self@)
    }

    /// What the client knows of the room.
    pub fn room(&self) -> (r: &RoomHeader)
        ensures
            r@ == self@.room,
    {
        &self.room
    }

    /// What the client knows of itself.
    pub fn user(&self) -> (r: &User)
        ensures
            r@ == self@.user,
    {
        &self.user
    }

    /// A client for `room` on behalf of `user`, not yet connected.
    pub fn new(room: RoomHeader, user: User) -> (client: Self)
        ensures
            client@ == (ClientView {
                room: room@,
                user: user@,
                state: ConnectionState::Disconnected,
                cancelled: false,
                has_channel: false,
            }),
            client.wf(),
    {
        ChatClient {
            room,
            user,
            state: ConnectionState::Disconnected,
            cancelled: false,
            has_channel: false,
        }
    }

    /// Where the connection stands.
    pub fn state(&self) -> (r: ConnectionState)
        ensures
            r == self@.state,
    {
        self.state
    }

    /// Whether the client has not been cancelled.
    pub fn is_ok(&self) -> (r: bool)
        ensures
            r == !self@.cancelled,
    {
        !self.cancelled
    }

    /// Sets the credential that the client attaches to what it sends.
    pub fn set_passwd(&mut self, passwd: &str)
        ensures
            final(self)@ == (ClientView {
                room: RoomHeaderView { passwd: Some(passwd@), ..old(self)@.room },
                ..old(self)@
            }),
    {
        self.room.passwd = Some(String::from_str(passwd));
    }

    /// The client sets out to connect. Where it is idle and not cancelled it
    /// becomes `Connecting`, and the address to connect to is returned.
    /// Otherwise nothing changes and nothing is returned.
    pub fn start_connect(&mut self) -> (target: Option<PeerAddr>)
        ensures
            old(self)@.state == ConnectionState::Disconnected && !old(self)@.cancelled ==> target
                == Some(old(self)@.room.addr) && final(self)@ == (ClientView {
                state: ConnectionState::Connecting,
                ..old(self)@
            }),
            !(old(self)@.state == ConnectionState::Disconnected && !old(self)@.cancelled)
                ==> target is None && final(self)@ == old(self)@,
            old(self).wf() ==> final(self).wf(),
    {
        if self.state == ConnectionState::Disconnected && !self.cancelled {
            self.state = ConnectionState::Connecting;
            Some(self.room.addr)
        } else {
            None
        }
    }

    /// The attempt to open the transport has ended, with success or without.
    /// On success the frame returned is the first to send.
    pub fn connect(&mut self, established: bool) -> (r: Result<Message, ClientError>)
        ensures
            final(self)@ == spec_connect(old(self)@, established).0,
            match r {
                Ok(frame) => spec_connect(old(self)@, established).1 == Ok::<
                    MessageView,
                    ClientError,
                >(frame@),
                Err(e) => spec_connect(old(self)@, established).1 == Err::<
                    MessageView,
                    ClientError,
                >(e),
            },
            old(self).wf() ==> final(self).wf(),
    {
        if self.state != ConnectionState::Connecting {
            return Err(ClientError::NotConnecting);
        }
        if !established {
            self.state = ConnectionState::Disconnected;
            return Err(ClientError::ConnectionRefused);
        }
        self.state = ConnectionState::Connected;
        self.has_channel = true;
        Ok(
            Message::from(
                (
                    UserMsg::UserJoined { user: self.user.clone() },
                    clone_opt_string(&self.room.passwd),
                ),
            ),
        )
    }

    /// Cancels the client. A second call changes nothing.
    pub fn disconnect(&mut self)
        ensures
            final(self)@ == spec_disconnect(old(self)@),
            final(self).wf(),
    {
        self.cancelled = true;
        self.state = ConnectionState::Disconnected;
    }

    /// The frame to send for `msg`, if one is to be sent.
    pub fn send_msg(&self, msg: UserMsg) -> (r: Result<Option<Message>, ClientError>)
        ensures
            match r {
                Ok(Some(frame)) => spec_send_msg(self@, msg@) == Ok::<
                    Option<MessageView>,
                    ClientError,
                >(Some(frame@)),
                Ok(None) => spec_send_msg(self@, msg@) == Ok::<Option<MessageView>, ClientError>(
                    None,
                ),
                Err(e) => spec_send_msg(self@, msg@) == Err::<Option<MessageView>, ClientError>(e),
            },
    {
        if !self.has_channel {
            Ok(None)
        } else if self.cancelled {
            Err(ClientError::ChannelClosed)
        } else {
            Ok(Some(Message::from((msg, clone_opt_string(&self.room.passwd)))))
        }
    }

    /// The frame to send to ask for the ban of `addr`, if one is to be sent.
    pub fn ban(&self, addr: &PeerAddr) -> (r: Result<Option<Message>, ClientError>)
        ensures
            match r {
                Ok(Some(frame)) => spec_send_msg(self@, UserMsgView::BanReq { addr: *addr })
                    == Ok::<Option<MessageView>, ClientError>(Some(frame@)),
                Ok(None) => spec_send_msg(self@, UserMsgView::BanReq { addr: *addr }) == Ok::<
                    Option<MessageView>,
                    ClientError,
                >(None),
                Err(e) => spec_send_msg(self@, UserMsgView::BanReq { addr: *addr }) == Err::<
                    Option<MessageView>,
                    ClientError,
                >(e),
            },
    {
        self.send_msg(UserMsg::BanReq { addr: *addr })
    }

    /// One poll of what came in: `polled` is the next decoded frame, or `None`
    /// where none is waiting.
    pub fn recv_msg(&mut self, polled: Option<Message>) -> (r: Option<MessageType>)
        ensures
            final(self)@ == spec_recv_msg(
                old(self)@,
                match polled {
                    Some(m) => Some(m@),
                    None => None,
                },
            ).0,
            match r {
                Some(m) => spec_recv_msg(
                    old(self)@,
                    match polled {
                        Some(m) => Some(m@),
                        None => None,
                    },
                ).1 == Some(m@),
                None => spec_recv_msg(
                    old(self)@,
                    match polled {
                        Some(m) => Some(m@),
                        None => None,
                    },
                ).1 is None,
            },
            old(self).wf() ==> final(self).wf(),
    {
        if self.cancelled || !self.has_channel {
            return None;
        }
        match polled {
            None => None,
            Some(msg) => {
                let msg_type = msg.msg_type;
                match &msg_type {
                    MessageType::Server(ServerMsg::AuthFailure) => {
                        self.disconnect();
                    },
                    MessageType::Server(ServerMsg::ServerShutdown) => {
                        self.disconnect();
                    },
                    MessageType::Server(ServerMsg::BanConfirm { addr }) => {
                        let own = match self.user.addr {
                            Some(a) => a == *addr,
                            None => false,
                        };
                        if own {
                            self.disconnect();
                        }
                    },
                    MessageType::Server(ServerMsg::Sync { user_addr, room_id, .. }) => {
                        self.user.addr = Some(*user_addr);
                        self.room._id = room_id.clone();
                    },
                    _ => {},
                }
                Some(msg_type)
            },
        }
    }
}

/// A cancelled client stays cancelled and yields nothing, whatever comes in;
/// and cancelling it again changes nothing.
pub proof fn lemma_cancelled_is_final(c: ClientView, polled: Option<MessageView>)
    requires
        c.cancelled,
        client_wf(c),
    ensures
        spec_recv_msg(c, polled) == (c, None::<MessageTypeView>),
        spec_disconnect(c) == c,
        spec_disconnect(spec_disconnect(c)) == spec_disconnect(c),
{
}

/// A frame that is fatal cancels the client: the poll that takes it still
/// hands it on, and every later poll yields nothing.
pub proof fn lemma_fatal_frame_ends_session(
    c: ClientView,
    msg: MessageView,
    later: Option<MessageView>,
)
    requires
        client_wf(c),
        !c.cancelled,
        c.has_channel,
        is_fatal(c, msg.msg_type),
    ensures
        spec_recv_msg(c, Some(msg)).1 == Some(msg.msg_type),
        spec_recv_msg(c, Some(msg)).0.cancelled,
        spec_recv_msg(c, Some(msg)).0.state == ConnectionState::Disconnected,
        spec_recv_msg(spec_recv_msg(c, Some(msg)).0, later).1 is None,
{
}

} // verus!
