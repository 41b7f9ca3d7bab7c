//! The host of one room.
//!
//! [`ChatServer`] holds the room, the registry of connected peers and the
//! address of the room's owner. It does no input or output: each of its steps
//! takes one event (a connection came in, a frame arrived, a connection
//! ended, the host shuts down) and returns, in order, what is to be done about
//! it: frames to deliver, records to store, connections to close. Whoever
//! drives it performs those actions and reports the next event.
//!
//! A connection is `Unauthenticated` from the moment it is accepted, `Joined`
//! once its `UserJoined` was taken, and `Terminated` when it is refused,
//! banned, disconnected or shut down.

use super::message::{
    server_frame, user_frame, Message, MessageType, MessageTypeView, MessageView, ServerMsg,
    ServerMsgView, UserMsg, UserMsgView,
};
use super::registry::{
    lemma_bind, lemma_enroll, lemma_without, lemma_without_has, recipients, reg_addrs, reg_bind,
    reg_distinct, reg_enroll, reg_has, reg_joined, reg_true, reg_users_except, reg_without,
    PeerEntryView, PeerRegistry,
};
use super::User;
use crate::schema::{
    clone_opt_string, clone_texts, same_opt_string, texts_view, PeerAddr, ServerRoom,
    ServerRoomView, TextMessage, TextMessageView, Timestamp,
};
use vstd::prelude::*;

verus! {

/// How long, in milliseconds, a host that shuts down waits between announcing
/// it and closing the connections.
pub const SHUTDOWN_GRACE_MILLIS: u64 = 500;

/// One thing that a step of the host asks to be done.
#[allow(inconsistent_fields)]
#[derive(Debug, PartialEq, Eq)]
pub enum Action {
    /// Deliver `msg` to the connection from `to`.
    Send { to: PeerAddr, msg: Message },
    /// Append `msg` to the stored history.
    Persist { msg: TextMessage },
    /// Store the room, whose ban list has grown.
    SaveRoom { room: ServerRoom },
    /// Close the connection from `addr`.
    Close { addr: PeerAddr },
    /// Let this many milliseconds pass, so that what was sent can arrive.
    Wait { millis: u64 },
}

/// An [`Action`] as plain values.
#[allow(inconsistent_fields)]
pub enum ActionView {
    Send { to: PeerAddr, msg: MessageView },
    Persist { msg: TextMessageView },
    SaveRoom { room: ServerRoomView },
    Close { addr: PeerAddr },
    Wait { millis: u64 },
}

impl View for Action {
    type V = ActionView;

    open spec fn view(&self) -> ActionView {
        match *self {
            Action::Send { to, msg } => ActionView::Send { to, msg: msg@ },
            Action::Persist { msg } => ActionView::Persist { msg: msg@ },
            Action::SaveRoom { room } => ActionView::SaveRoom { room: room@ },
            Action::Close { addr } => ActionView::Close { addr },
            Action::Wait { millis } => ActionView::Wait { millis },
        }
    }
}

/// The actions of a list, each as plain values.
pub open spec fn actions_view(v: Seq<Action>) -> Seq<ActionView> {
    v.map_values(|a: Action| a@)
}

/// Where a connection stands.
#[derive(Clone, Copy, Debug, PartialEq, Eq, Structural)]
pub enum PeerState {
    /// Accepted; no `UserJoined` taken yet.
    Unauthenticated,
    /// Its `UserJoined` was taken.
    Joined,
    /// Not, or no longer, connected.
    Terminated,
}

/// The host's state as plain values.
#[verifier::ext_equal]
pub struct ServerView {
    pub room: ServerRoomView,
    pub owner_addr: Option<PeerAddr>,
    pub peers: Seq<PeerEntryView>,
    pub stopped: bool,
}

/// The delivery of `msg` to one address.
pub open spec fn send_to(msg: MessageView) -> spec_fn(PeerAddr) -> ActionView {
    |a: PeerAddr| ActionView::Send { to: a, msg }
}

/// The delivery of `msg` to each of `to`, in order.
pub open spec fn sends(to: Seq<PeerAddr>, msg: MessageView) -> Seq<ActionView> {
    to.map_values(send_to(msg))
}

/// The closing of each of `addrs`, in order.
pub open spec fn closes(addrs: Seq<PeerAddr>) -> Seq<ActionView> {
    addrs.map_values(|a: PeerAddr| ActionView::Close { addr: a })
}

/// Whether the credential on `msg` opens `room`: a room without a password
/// is open to all; otherwise the frame must carry the room's digest.
pub open spec fn credential_ok(room: ServerRoomView, msg: MessageView) -> bool {
    room.passwd is None || msg.passwd == room.passwd
}

/// Where the connection from `addr` stands.
pub open spec fn peer_state(s: ServerView, addr: PeerAddr) -> PeerState {
    if reg_joined(s.peers, addr) {
        PeerState::Joined
    } else if reg_has(s.peers, addr) {
        PeerState::Unauthenticated
    } else {
        PeerState::Terminated
    }
}

/// What holds of every host: no two registered peers share an address, every
/// identity carries the address of its own connection, every peer that has
/// joined has an identity, no registered peer is banned, and a stopped host
/// has no peers.
pub open spec fn server_wf(s: ServerView) -> bool {
    &&& reg_distinct(s.peers)
    &&& reg_true(s.peers)
    &&& forall|a: PeerAddr| reg_has(s.peers, a) ==> !s.room.banned_addrs.contains(a)
    &&& s.stopped ==> s.peers.len() == 0
}

/// A connection comes in from `addr`. A stopped host, and every host for a
/// banned address, refuses it. Otherwise it is registered; where the room
/// has a password the peer is told so, and else the host stays silent until
/// it is spoken to.
pub open spec fn spec_accept(s: ServerView, addr: PeerAddr) -> (ServerView, Seq<ActionView>) {
    if s.stopped || s.room.banned_addrs.contains(addr) {
        (s, seq![ActionView::Close { addr }])
    } else {
        (
            ServerView { peers: reg_enroll(s.peers, addr), ..s },
            if s.room.passwd is Some {
                seq![
                    ActionView::Send {
                        to: addr,
                        msg: server_frame(ServerMsgView::AuthReq { passwd_required: true }),
                    },
                ]
            } else {
                Seq::<ActionView>::empty()
            },
        )
    }
}

/// The owner bans `target`: every peer, `target` too, is told; the room with
/// its longer ban list is stored; `target`, if connected, is closed and taken
/// out; and if it had joined, those that remain are told that it left.
pub open spec fn spec_ban(s: ServerView, target: PeerAddr) -> (ServerView, Seq<ActionView>) {
    let room = ServerRoomView { banned_addrs: s.room.banned_addrs.push(target), ..s.room };
    let peers = reg_without(s.peers, target);
    (
        ServerView { room, peers, ..s },
        sends(
            recipients(s.peers, None),
            server_frame(ServerMsgView::BanConfirm { addr: target }),
        ) + seq![ActionView::SaveRoom { room }] + (if reg_has(s.peers, target) {
            seq![ActionView::Close { addr: target }]
        } else {
            Seq::<ActionView>::empty()
        }) + (if reg_joined(s.peers, target) {
            sends(recipients(peers, None), server_frame(ServerMsgView::UserLeft { addr: target }))
        } else {
            Seq::<ActionView>::empty()
        }),
    )
}

/// A peer's request, its credential already found good.
pub open spec fn spec_request(
    s: ServerView,
    addr: PeerAddr,
    req: UserMsgView,
    now: Timestamp,
    history: Seq<TextMessageView>,
) -> (ServerView, Seq<ActionView>) {
    match req {
        UserMsgView::Normal { msg } => {
            let stamped = TextMessage::spec_stamped(msg, now);
            (
                s,
                seq![ActionView::Persist { msg: stamped }] + sends(
                    recipients(s.peers, Some(addr)),
                    user_frame(UserMsgView::Normal { msg: stamped }, None),
                ),
            )
        },
        UserMsgView::UserJoined { user } => {
            let seen = User::spec_at(user, addr);
            (
                ServerView { peers: reg_bind(s.peers, addr, seen, true), ..s },
                sends(
                    recipients(s.peers, Some(addr)),
                    user_frame(UserMsgView::UserJoined { user: seen }, s.room.passwd),
                ),
            )
        },
        UserMsgView::SyncReq { user } => {
            let seen = User::spec_at(user, addr);
            (
                ServerView { peers: reg_bind(s.peers, addr, seen, false), ..s },
                seq![
                    ActionView::Send {
                        to: addr,
                        msg: server_frame(
                            ServerMsgView::Sync {
                                user_addr: addr,
                                room_id: s.room.id,
                                messages: history,
                                users: reg_users_except(s.peers, addr),
                            },
                        ),
                    },
                ],
            )
        },
        UserMsgView::BanReq { addr: target } => {
            if s.owner_addr == Some(addr) {
                spec_ban(s, target)
            } else {
                (s, Seq::<ActionView>::empty())
            }
        },
    }
}

/// A frame from `addr` arrives at the time `now`; `history` is what the store
/// holds of this room. A frame from a connection that is not registered is
/// dropped. So is one that holds a host's message. A frame whose credential
/// does not open the room is answered with `AuthFailure`, and nothing else
/// happens. Any other is a request, and is served.
pub open spec fn spec_handle_message(
    s: ServerView,
    addr: PeerAddr,
    msg: MessageView,
    now: Timestamp,
    history: Seq<TextMessageView>,
) -> (ServerView, Seq<ActionView>) {
    if !reg_has(s.peers, addr) {
        (s, Seq::<ActionView>::empty())
    } else if !credential_ok(s.room, msg) {
        (s, seq![ActionView::Send { to: addr, msg: server_frame(ServerMsgView::AuthFailure) }])
    } else {
        match msg.msg_type {
            MessageTypeView::User(req) => spec_request(s, addr, req, now, history),
            MessageTypeView::Server(_) => (s, Seq::<ActionView>::empty()),
        }
    }
}

/// A frame from `addr` arrives. One that could not be decoded (`None`) is
/// dropped: nothing changes and nothing is done. Any other is handled as
/// [`spec_handle_message`] says.
pub open spec fn spec_handle_frame(
    s: ServerView,
    addr: PeerAddr,
    frame: Option<MessageView>,
    now: Timestamp,
    history: Seq<TextMessageView>,
) -> (ServerView, Seq<ActionView>) {
    match frame {
        Some(msg) => spec_handle_message(s, addr, msg, now, history),
        None => (s, Seq::<ActionView>::empty()),
    }
}

/// The connection from `addr` has ended. Its entry goes; if it had joined,
/// those that remain are told that it left.
pub open spec fn spec_disconnect(s: ServerView, addr: PeerAddr) -> (ServerView, Seq<ActionView>) {
    let peers = reg_without(s.peers, addr);
    (
        ServerView { peers, ..s },
        if reg_joined(s.peers, addr) {
            sends(recipients(peers, None), server_frame(ServerMsgView::UserLeft { addr }))
        } else {
            Seq::<ActionView>::empty()
        },
    )
}

/// The host shuts down: every peer is told, then a grace period passes, then
/// every connection is closed. A host that has stopped already does nothing.
pub open spec fn spec_stop(s: ServerView) -> (ServerView, Seq<ActionView>) {
    if s.stopped {
        (s, Seq::<ActionView>::empty())
    } else {
        (
            ServerView { peers: Seq::<PeerEntryView>::empty(), stopped: true, ..s },
            sends(recipients(s.peers, None), server_frame(ServerMsgView::ServerShutdown)) + seq![
                ActionView::Wait { millis: SHUTDOWN_GRACE_MILLIS },
            ] + closes(reg_addrs(s.peers)),
        )
    }
}

/// Every step of a host leaves it well formed.
pub proof fn lemma_steps_keep_wf(
    s: ServerView,
    addr: PeerAddr,
    msg: MessageView,
    now: Timestamp,
    history: Seq<TextMessageView>,
)
    requires
        server_wf(s),
    ensures
        server_wf(spec_accept(s, addr).0),
        server_wf(spec_handle_message(s, addr, msg, now, history).0),
        server_wf(spec_disconnect(s, addr).0),
        server_wf(spec_stop(s).0),
{
    let a = spec_accept(s, addr).0;
    assert(server_wf(a)) by {
        assert forall|b: PeerAddr| reg_has(a.peers, b) implies !a.room.banned_addrs.contains(b) by {
            lemma_enroll(s.peers, addr, b);
        }
        lemma_enroll(s.peers, addr, addr);
        if s.stopped {
            assert(a == s);
        }
    }
    let d = spec_disconnect(s, addr).0;
    assert(server_wf(d)) by {
        lemma_without(s.peers, addr);
        assert forall|b: PeerAddr| reg_has(d.peers, b) implies !d.room.banned_addrs.contains(b) by {
            lemma_without_has(s.peers, addr, b);
        }
    }
    let h = spec_handle_message(s, addr, msg, now, history).0;
    assert(server_wf(h)) by {
        if reg_has(s.peers, addr) && credential_ok(s.room, msg) {
            match msg.msg_type {
                MessageTypeView::User(UserMsgView::UserJoined { user }) => {
                    lemma_bind(s.peers, addr, User::spec_at(user, addr), true);
                    assert forall|b: PeerAddr| reg_has(h.peers, b) implies
                        !h.room.banned_addrs.contains(b) by {
                        assert(reg_has(s.peers, b));
                    }
                },
                MessageTypeView::User(UserMsgView::SyncReq { user }) => {
                    lemma_bind(s.peers, addr, User::spec_at(user, addr), false);
                    assert forall|b: PeerAddr| reg_has(h.peers, b) implies
                        !h.room.banned_addrs.contains(b) by {
                        assert(reg_has(s.peers, b));
                    }
                },
                MessageTypeView::User(UserMsgView::BanReq { addr: target }) => {
                    if s.owner_addr == Some(addr) {
                        lemma_without(s.peers, target);
                        assert forall|b: PeerAddr| reg_has(h.peers, b) implies
                            !h.room.banned_addrs.contains(b) by {
                            lemma_without_has(s.peers, target, b);
                            if h.room.banned_addrs.contains(b) {
                                let i = choose|i: int|
                                    0 <= i < h.room.banned_addrs.len() && h.room.banned_addrs[i]
                                        == b;
                                if i < s.room.banned_addrs.len() {
                                    assert(s.room.banned_addrs[i] == b);
                                }
                            }
                        }
                    }
                },
                _ => {},
            }
        }
    }
}

/// Appends to `out` the delivery of `msg` to each of `to`.
fn push_sends(out: &mut Vec<Action>, to: &Vec<PeerAddr>, msg: &Message)
    ensures
        actions_view(final(out)@) == actions_view(old(out)@) + sends(to@, msg@),
{
    let ghost before = actions_view(out@);
    let mut i: usize = 0;
    assert(actions_view(out@) =~= before + sends(to@.take(0), msg@));
    while i < to.len()
        invariant
            i <= to.len(),
            actions_view(out@) == before + sends(to@.take(i as int), msg@),
        decreases to.len() - i,
    {
        let a = Action::Send { to: to[i], msg: msg.clone() };
        proof {
            assert(to@.take(i + 1) =~= to@.take(i as int).push(to@[i as int]));
            assert(actions_view(out@.push(a)) =~= actions_view(out@).push(a@));
            assert(sends(to@.take(i + 1), msg@) =~= sends(to@.take(i as int), msg@).push(a@));
        }
        out.push(a);
        i += 1;
    }
    proof {
        assert(to@.take(to.len() as int) =~= to@);
    }
}

/// Appends to `out` the closing of each of `addrs`.
fn push_closes(out: &mut Vec<Action>, addrs: &Vec<PeerAddr>)
    ensures
        actions_view(final(out)@) == actions_view(old(out)@) + closes(addrs@),
{
    let ghost before = actions_view(out@);
    let mut i: usize = 0;
    assert(actions_view(out@) =~= before + closes(addrs@.take(0)));
    while i < addrs.len()
        invariant
            i <= addrs.len(),
            actions_view(out@) == before + closes(addrs@.take(i as int)),
        decreases addrs.len() - i,
    {
        let a = Action::Close { addr: addrs[i] };
        proof {
            assert(addrs@.take(i + 1) =~= addrs@.take(i as int).push(addrs@[i as int]));
            assert(actions_view(out@.push(a)) =~= actions_view(out@).push(a@));
            assert(closes(addrs@.take(i + 1)) =~= closes(addrs@.take(i as int)).push(a@));
        }
        out.push(a);
        i += 1;
    }
    proof {
        assert(addrs@.take(addrs.len() as int) =~= addrs@);
    }
}

/// Appends one action to `out`.
fn push_action(out: &mut Vec<Action>, a: Action)
    ensures
        actions_view(final(out)@) == actions_view(old(out)@).push(a@),
{
    proof {
        assert(actions_view(out@.push(a)) =~= actions_view(out@).push(a@));
    }
    out.push(a);
}

/// The host of one room.
#[derive(Debug)]
pub struct ChatServer {
    room: ServerRoom,
    owner_addr: Option<PeerAddr>,
    peers: PeerRegistry,
    stopped: bool,
}

impl View for ChatServer {
    type V = ServerView;

    closed spec fn view(&self) -> ServerView {
        ServerView {
            room: self.room@,
            owner_addr: self.owner_addr,
            peers: self.peers@,
            stopped: self.stopped,
        }
    }
}

impl ChatServer {
    /// Whether this host is well formed (see [`server_wf`]). Every host that
    /// [`ChatServer::new`] makes is, and every step keeps it so.
    pub open spec fn wf(&self) -> bool {
        server_wf(self@)
    }

    /// The host of `room`, with no peer connected and no owner named.
    pub fn new(room: ServerRoom) -> (server: Self)
        ensures
            server@ == (ServerView {
                room: room@,
                owner_addr: None,
                peers: Seq::<PeerEntryView>::empty(),
                stopped: false,
            }),
            server.wf(),
    {
        ChatServer { room, owner_addr: None, peers: PeerRegistry::new(), stopped: false }
    }

    /// Names the one connection that may ban.
    pub fn set_owner_addr(&mut self, addr: PeerAddr)
        ensures
            final(self)@ == (ServerView { owner_addr: Some(addr), ..old(self)@ }),
    {
        self.owner_addr = Some(addr);
    }

    /// The address of the connection that may ban, if one was named.
    pub fn owner_addr(&self) -> (r: Option<PeerAddr>)
        ensures
            r == self@.owner_addr,
    {
        self.owner_addr
    }

    /// The room as it now stands.
    pub fn room(&self) -> (r: &ServerRoom)
        ensures
            r@ == self@.room,
    {
        &self.room
    }

    /// Whether the host has shut down.
    pub fn is_stopped(&self) -> (r: bool)
        ensures
            r == self@.stopped,
    {
        self.stopped
    }

    /// The number of connections registered.
    pub fn peer_count(&self) -> (n: usize)
        ensures
            n == self@.peers.len(),
    {
        self.peers.len()
    }

    /// Where the connection from `addr` stands.
    pub fn peer_state(&self, addr: PeerAddr) -> (r: PeerState)
        ensures
            r == peer_state(self@, addr),
    {
        if self.peers.is_joined(addr) {
            PeerState::Joined
        } else if self.peers.contains(addr) {
            PeerState::Unauthenticated
        } else {
            PeerState::Terminated
        }
    }

    /// Whether a connection from `addr` would be refused.
    pub fn refuses(&self, addr: PeerAddr) -> (r: bool)
        ensures
            r == (self@.stopped || self@.room.banned_addrs.contains(addr)),
    {
        self.stopped || self.room.is_banned(addr)
    }

    /// A connection comes in from `addr`, before anything is exchanged on it.
    pub fn accept(&mut self, addr: PeerAddr) -> (actions: Vec<Action>)
        requires
            old(self).wf(),
        ensures
            final(self)@ == spec_accept(old(self)@, addr).0,
            actions_view(actions@) == spec_accept(old(self)@, addr).1,
            final(self).wf(),
    {
        proof {
            lemma_steps_keep_wf(
                self@,
                addr,
                arbitrary(),
                arbitrary(),
                arbitrary(),
            );
        }
        let mut out: Vec<Action> = Vec::new();
        assert(actions_view(out@) =~= Seq::<ActionView>::empty());
        if self.refuses(addr) {
            push_action(&mut out, Action::Close { addr });
        } else {
            self.peers.enroll(addr);
            if self.room.passwd.is_some() {
                let msg = Message::from(ServerMsg::AuthReq { passwd_required: true });
                push_action(&mut out, Action::Send { to: addr, msg });
            }
        }
        assert(actions_view(out@) =~= spec_accept(old(self)@, addr).1);
        out
    }

    /// Whether the credential on `msg` opens the room.
    pub fn credential_ok(&self, msg: &Message) -> (r: bool)
        ensures
            r == credential_ok(self@.room, msg@),
    {
        match &self.room.passwd {
            None => true,
            Some(_) => same_opt_string(&msg.passwd, &self.room.passwd),
        }
    }

    /// Carries out a ban of `target`, appending what is to be done to `out`.
    fn ban(&mut self, target: PeerAddr, out: &mut Vec<Action>)
        ensures
            final(self)@ == spec_ban(old(self)@, target).0,
            actions_view(final(out)@) == actions_view(old(out)@) + spec_ban(old(self)@, target).1,
    {
        let ghost before = actions_view(out@);
        let ghost s = self@;
        let to = self.peers.recipients(None);
        let confirm = Message::from(ServerMsg::BanConfirm { addr: target });
        push_sends(out, &to, &confirm);
        self.room.banned_addrs.push(target);
        push_action(out, Action::SaveRoom { room: self.room.clone() });
        let connected = self.peers.contains(target);
        let joined = self.peers.is_joined(target);
        self.peers.remove(target);
        if connected {
            push_action(out, Action::Close { addr: target });
        }
        if joined {
            let rest = self.peers.recipients(None);
            let left = Message::from(ServerMsg::UserLeft { addr: target });
            push_sends(out, &rest, &left);
        }
        assert(actions_view(out@) =~= before + spec_ban(s, target).1);
    }

    /// A frame from `addr` has arrived and was decoded to `msg`. `now` is the
    /// host's clock at its arrival; `history` is what the store holds of this
    /// room, and is read only where `msg` is a `SyncReq`.
    pub fn handle_message(
        &mut self,
        addr: PeerAddr,
        msg: Message,
        now: Timestamp,
        history: &Vec<TextMessage>,
    ) -> (actions: Vec<Action>)
        requires
            old(self).wf(),
        ensures
            final(self)@ == spec_handle_message(
                old(self)@,
                addr,
                msg@,
                now,
                texts_view(history@),
            ).0,
            actions_view(actions@) == spec_handle_message(
                old(self)@,
                addr,
                msg@,
                now,
                texts_view(history@),
            ).1,
            final(self).wf(),
    {
        let ghost s = self@;
        let ghost want = spec_handle_message(s, addr, msg@, now, texts_view(history@));
        proof {
            lemma_steps_keep_wf(s, addr, msg@, now, texts_view(history@));
        }
        let mut out: Vec<Action> = Vec::new();
        assert(actions_view(out@) =~= Seq::<ActionView>::empty());
        if !self.peers.contains(addr) {
            return out;
        }
        if !self.credential_ok(&msg) {
            push_action(
                &mut out,
                Action::Send { to: addr, msg: Message::from(ServerMsg::AuthFailure) },
            );
            assert(actions_view(out@) =~= want.1);
            return out;
        }
        match msg.msg_type {
            MessageType::Server(_) => {},
            MessageType::User(req) => {
                match req {
                    UserMsg::Normal { msg: text } => {
                        let stamped = text.stamped(now);
                        let frame = Message::from((UserMsg::Normal { msg: stamped.clone() }, None));
                        push_action(&mut out, Action::Persist { msg: stamped });
                        let to = self.peers.recipients(Some(addr));
                        push_sends(&mut out, &to, &frame);
                    },
                    UserMsg::UserJoined { user } => {
                        let seen = user.at(addr);
                        let frame = Message::from(
                            (
                                UserMsg::UserJoined { user: seen.clone() },
                                clone_opt_string(&self.room.passwd),
                            ),
                        );
                        let to = self.peers.recipients(Some(addr));
                        push_sends(&mut out, &to, &frame);
                        self.peers.bind(addr, seen, true);
                    },
                    UserMsg::SyncReq { user } => {
                        let seen = user.at(addr);
                        let users = self.peers.users_except(addr);
                        let reply = Message::from(
                            ServerMsg::Sync {
                                user_addr: addr,
                                room_id: self.room._id.clone(),
                                messages: clone_texts(history),
                                users,
                            },
                        );
                        push_action(&mut out, Action::Send { to: addr, msg: reply });
                        self.peers.bind(addr, seen, false);
                    },
                    UserMsg::BanReq { addr: target } => {
                        let by_owner = match self.owner_addr {
                            Some(owner) => owner == addr,
                            None => false,
                        };
                        if by_owner {
                            self.ban(target, &mut out);
                        }
                    },
                }
            },
        }
        assert(actions_view(out@) =~= want.1);
        out
    }

    /// A frame from `addr` has arrived; `frame` is what it decoded to, or
    /// `None` where it did not decode.
    pub fn handle_frame(
        &mut self,
        addr: PeerAddr,
        frame: Option<Message>,
        now: Timestamp,
        history: &Vec<TextMessage>,
    ) -> (actions: Vec<Action>)
        requires
            old(self).wf(),
        ensures
            final(self)@ == spec_handle_frame(
                old(self)@,
                addr,
                match frame {
                    Some(m) => Some(m@),
                    None => None,
                },
                now,
                texts_view(history@),
            ).0,
            actions_view(actions@) == spec_handle_frame(
                old(self)@,
                addr,
                match frame {
                    Some(m) => Some(m@),
                    None => None,
                },
                now,
                texts_view(history@),
            ).1,
            final(self).wf(),
    {
        match frame {
            Some(msg) => self.handle_message(addr, msg, now, history),
            None => {
                let out: Vec<Action> = Vec::new();
                assert(actions_view(out@) =~= Seq::<ActionView>::empty());
                out
            },
        }
    }

    /// The connection from `addr` has ended, however it did.
    pub fn disconnect(&mut self, addr: PeerAddr) -> (actions: Vec<Action>)
        requires
            old(self).wf(),
        ensures
            final(self)@ == spec_disconnect(old(self)@, addr).0,
            actions_view(actions@) == spec_disconnect(old(self)@, addr).1,
            final(self).wf(),
    {
        proof {
            lemma_steps_keep_wf(
                self@,
                addr,
                arbitrary(),
                arbitrary(),
                arbitrary(),
            );
        }
        let mut out: Vec<Action> = Vec::new();
        assert(actions_view(out@) =~= Seq::<ActionView>::empty());
        let joined = self.peers.is_joined(addr);
        self.peers.remove(addr);
        if joined {
            let to = self.peers.recipients(None);
            let msg = Message::from(ServerMsg::UserLeft { addr });
            push_sends(&mut out, &to, &msg);
        }
        assert(actions_view(out@) =~= spec_disconnect(old(self)@, addr).1);
        out
    }

    /// The host shuts down.
    pub fn stop(&mut self) -> (actions: Vec<Action>)
        requires
            old(self).wf(),
        ensures
            final(self)@ == spec_stop(old(self)@).0,
            actions_view(actions@) == spec_stop(old(self)@).1,
            final(self).wf(),
    {
        proof {
            lemma_steps_keep_wf(
                self@,
                arbitrary(),
                arbitrary(),
                arbitrary(),
                arbitrary(),
            );
        }
        let mut out: Vec<Action> = Vec::new();
        assert(actions_view(out@) =~= Seq::<ActionView>::empty());
        if !self.stopped {
            let to = self.peers.recipients(None);
            let msg = Message::from(ServerMsg::ServerShutdown);
            push_sends(&mut out, &to, &msg);
            push_action(&mut out, Action::Wait { millis: SHUTDOWN_GRACE_MILLIS });
            proof {
                lemma_recipients_all(self@.peers);
            }
            push_closes(&mut out, &to);
            self.peers.clear();
            self.stopped = true;
        }
        assert(actions_view(out@) =~= spec_stop(old(self)@).1);
        out
    }
}

/// A broadcast without exception goes to every registered address, in order.
pub proof fn lemma_recipients_all(reg: Seq<PeerEntryView>)
    ensures
        recipients(reg, None) == reg_addrs(reg),
    decreases reg.len(),
{
    let addrs = reg_addrs(reg);
    let pred = super::registry::not_excepted(None);
    if reg.len() == 0 {
        reveal(Seq::filter);
        assert(addrs.filter(pred) =~= addrs);
    } else {
        lemma_recipients_all(reg.drop_last());
        assert(addrs =~= reg_addrs(reg.drop_last()).push(reg.last().addr));
        reg_addrs(reg.drop_last()).lemma_filter_push(reg.last().addr, pred);
    }
}

} // verus!
