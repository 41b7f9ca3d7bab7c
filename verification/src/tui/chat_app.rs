//! The chat screen as a state machine.
//!
//! [`ChatApp`] holds one peer's session: its client, the users it knows of,
//! the lines to show, the popup that is open. Frames that came in and keys
//! that were pressed are handed to it one at a time; it updates itself and
//! says what is to be sent and what is to be done to the text area.

use super::command::{strings_view, Action, Ban, Command, Commander};
use super::ui::{spec_next, spec_previous, PopupState, StatefulList};
use crate::network::client::{
    spec_disconnect, spec_recv_msg, spec_send_msg, ChatClient, ClientView,
};
use crate::network::message::{
    Message, MessageType, MessageTypeView, MessageView, ServerMsg, ServerMsgView, UserMsg,
    UserMsgView,
};
use crate::network::{users_view, User, UserView};
use crate::schema::{texts_view, PeerAddr, TextMessage, TextMessageView};
use vstd::prelude::*;
use vstd::string::StringExecFns;

verus! {

/// One entry of the list of messages on the screen.
#[derive(Debug, PartialEq, Eq)]
pub enum Line {
    /// A chat message, with its author where the author is known.
    Chat { msg: TextMessage, author: Option<User> },
    /// A notice; `failure` marks one that reports something gone wrong.
    Info { text: String, failure: bool },
}

/// A [`Line`] as plain values.
pub enum LineView {
    Chat { msg: TextMessageView, author: Option<UserView> },
    Info { text: Seq<char>, failure: bool },
}

impl View for Line {
    type V = LineView;

    open spec fn view(&self) -> LineView {
        match *self {
            Line::Chat { msg, author } => LineView::Chat {
                msg: msg@,
                author: match author {
                    Some(u) => Some(u@),
                    None => None,
                },
            },
            Line::Info { text, failure } => LineView::Info { text: text@, failure },
        }
    }
}

impl Clone for Line {
    fn clone(&self) -> (r: Self)
        ensures
            r == *self,
    {
        match self {
            Line::Chat { msg, author } => Line::Chat {
                msg: msg.clone(),
                author: match author {
                    Some(u) => Some(u.clone()),
                    None => None,
                },
            },
            Line::Info { text, failure } => Line::Info { text: text.clone(), failure: *failure },
        }
    }
}

/// The lines of a list, each as plain values.
pub open spec fn lines_view(v: Seq<Line>) -> Seq<LineView> {
    v.map_values(|l: Line| l@)
}

/// A notice that reports no failure.
pub open spec fn notice(text: Seq<char>) -> LineView {
    LineView::Info { text, failure: false }
}

/// The users that are not at `addr`.
pub open spec fn not_at(addr: PeerAddr) -> spec_fn(UserView) -> bool {
    |u: UserView| u.addr != Some(addr)
}

/// The roster without the user at `addr`.
pub open spec fn roster_without(roster: Seq<UserView>, addr: PeerAddr) -> Seq<UserView> {
    roster.filter(not_at(addr))
}

/// The roster with `user` in it: whoever was known at the same address is
/// replaced. A user without an address is not taken.
pub open spec fn roster_put(roster: Seq<UserView>, user: UserView) -> Seq<UserView> {
    match user.addr {
        Some(addr) => roster_without(roster, addr).push(user),
        None => roster,
    }
}

/// The roster with each of `users` put into it, in order.
pub open spec fn roster_put_all(roster: Seq<UserView>, users: Seq<UserView>) -> Seq<UserView>
    decreases users.len(),
{
    if users.len() == 0 {
        roster
    } else {
        roster_put(roster_put_all(roster, users.drop_last()), users.last())
    }
}

/// The user known at `addr`, if any; of several, the one put last.
pub open spec fn roster_get(roster: Seq<UserView>, addr: PeerAddr) -> Option<UserView>
    decreases roster.len(),
{
    if roster.len() == 0 {
        None
    } else if roster.last().addr == Some(addr) {
        Some(roster.last())
    } else {
        roster_get(roster.drop_last(), addr)
    }
}

/// The line for a chat message: its author is whoever is known at the
/// sender's address.
pub open spec fn chat_line(roster: Seq<UserView>) -> spec_fn(TextMessageView) -> LineView {
    |m: TextMessageView| LineView::Chat { msg: m, author: roster_get(roster, m.sender_addr) }
}

/// What a frame does to the roster and which lines it adds to the screen.
/// `own` is the peer's own identity.
pub open spec fn spec_show(roster: Seq<UserView>, own: UserView, m: MessageTypeView) -> (
    Seq<UserView>,
    Seq<LineView>,
) {
    match m {
        MessageTypeView::User(UserMsgView::Normal { msg }) => (roster, seq![chat_line(roster)(msg)]),
        MessageTypeView::User(UserMsgView::UserJoined { user }) => if user.addr is Some {
            (roster_put(roster, user), seq![notice(user.id + " has joined"@)])
        } else {
            (roster, Seq::<LineView>::empty())
        },
        MessageTypeView::Server(ServerMsgView::Sync { messages, users, .. }) => {
            let known = roster_put_all(roster, users);
            (known, messages.map_values(chat_line(known)))
        },
        MessageTypeView::Server(ServerMsgView::UserLeft { addr }) => match roster_get(
            roster,
            addr,
        ) {
            Some(u) => (roster_without(roster, addr), seq![notice(u.id + " has left"@)]),
            None => (roster, Seq::<LineView>::empty()),
        },
        MessageTypeView::Server(ServerMsgView::BanConfirm { addr }) => if own.addr == Some(addr) {
            (Seq::<UserView>::empty(), seq![notice("You has been banned from this server"@)])
        } else {
            match roster_get(roster, addr) {
                Some(u) => (roster, seq![notice(u.id + " has been banned"@)]),
                None => (roster, Seq::<LineView>::empty()),
            }
        },
        MessageTypeView::Server(ServerMsgView::ServerShutdown) => (
            roster,
            seq![notice("Server has been shutted down."@)],
        ),
        _ => (roster, Seq::<LineView>::empty()),
    }
}

/// The user of `roster` known at `addr` (see [`roster_get`]).
pub fn get_user(roster: &Vec<User>, addr: PeerAddr) -> (r: Option<User>)
    ensures
        match r {
            Some(u) => roster_get(users_view(roster@), addr) == Some(u@),
            None => roster_get(users_view(roster@), addr) is None,
        },
{
    let ghost rv = users_view(roster@);
    let mut i: usize = roster.len();
    assert(rv.take(i as int) =~= rv);
    while i > 0
        invariant
            i <= roster.len(),
            rv == users_view(roster@),
            roster_get(rv, addr) == roster_get(rv.take(i as int), addr),
        decreases i,
    {
        i -= 1;
        proof {
            assert(rv.take(i + 1).drop_last() =~= rv.take(i as int));
            assert(rv.take(i + 1).last() == roster@[i as int]@);
        }
        let here = match roster[i].addr {
            Some(a) => a == addr,
            None => false,
        };
        if here {
            return Some(roster[i].clone());
        }
    }
    None
}

/// Takes the user at `addr` out of `roster` (see [`roster_without`]).
pub fn remove_user(roster: &mut Vec<User>, addr: PeerAddr)
    ensures
        users_view(final(roster)@) == roster_without(users_view(old(roster)@), addr),
{
    let ghost rv = users_view(roster@);
    let mut kept: Vec<User> = Vec::new();
    let mut i: usize = 0;
    assert(users_view(kept@) =~= roster_without(rv.take(0), addr)) by {
        reveal(Seq::filter);
    }
    while i < roster.len()
        invariant
            i <= roster.len(),
            rv == users_view(roster@),
            users_view(kept@) == roster_without(rv.take(i as int), addr),
        decreases roster.len() - i,
    {
        let u = roster[i].clone();
        proof {
            assert(rv.take(i + 1) =~= rv.take(i as int).push(rv[i as int]));
            rv.take(i as int).lemma_filter_push(rv[i as int], not_at(addr));
            assert(users_view(kept@.push(u)) =~= users_view(kept@).push(u@));
        }
        let here = match u.addr {
            Some(a) => a == addr,
            None => false,
        };
        if !here {
            kept.push(u);
        }
        i += 1;
    }
    proof {
        assert(rv.take(rv.len() as int) =~= rv);
    }
    *roster = kept;
}

/// Puts `user` into `roster` (see [`roster_put`]).
pub fn put_user(roster: &mut Vec<User>, user: User)
    ensures
        users_view(final(roster)@) == roster_put(users_view(old(roster)@), user@),
{
    match user.addr {
        Some(addr) => {
            remove_user(roster, addr);
            proof {
                assert(users_view(roster@.push(user)) =~= users_view(roster@).push(user@));
            }
            roster.push(user);
        },
        None => {},
    }
}

/// Appends a notice with the text `text` to `lines`.
fn push_notice(lines: &mut Vec<Line>, text: String)
    ensures
        lines_view(final(lines)@) == lines_view(old(lines)@).push(notice(text@)),
{
    let line = Line::Info { text, failure: false };
    proof {
        assert(lines_view(lines@.push(line)) =~= lines_view(lines@).push(line@));
    }
    lines.push(line);
}

/// Updates `roster` for the frame `msg` and returns the lines that the frame
/// adds to the screen (see [`spec_show`]).
pub fn show(roster: &mut Vec<User>, own: &User, msg: &MessageType) -> (lines: Vec<Line>)
    ensures
        users_view(final(roster)@) == spec_show(users_view(old(roster)@), own@, msg@).0,
        lines_view(lines@) == spec_show(users_view(old(roster)@), own@, msg@).1,
{
    let ghost rv = users_view(roster@);
    let ghost want = spec_show(rv, own@, msg@);
    let mut lines: Vec<Line> = Vec::new();
    assert(lines_view(lines@) =~= Seq::<LineView>::empty());
    match msg {
        MessageType::User(UserMsg::Normal { msg: text }) => {
            let line = Line::Chat { msg: text.clone(), author: get_user(roster, text.sender_addr) };
            proof {
                assert(lines_view(lines@.push(line)) =~= lines_view(lines@).push(line@));
            }
            lines.push(line);
            assert(lines_view(lines@) =~= want.1);
        },
        MessageType::User(UserMsg::UserJoined { user }) => {
            if user.addr.is_some() {
                put_user(roster, user.clone());
                push_notice(&mut lines, user.id.clone().concat(" has joined"));
                assert(lines_view(lines@) =~= want.1);
            }
        },
        MessageType::Server(ServerMsg::Sync { messages, users, .. }) => {
            let ghost uv = users_view(users@);
            let mut i: usize = 0;
            assert(uv.take(0) =~= Seq::<UserView>::empty());
            while i < users.len()
                invariant
                    i <= users.len(),
                    uv == users_view(users@),
                    users_view(roster@) == roster_put_all(rv, uv.take(i as int)),
                decreases users.len() - i,
            {
                proof {
                    assert(uv.take(i + 1).drop_last() =~= uv.take(i as int));
                    assert(uv.take(i + 1).last() == users@[i as int]@);
                }
                put_user(roster, users[i].clone());
                i += 1;
            }
            proof {
                assert(uv.take(uv.len() as int) =~= uv);
            }
            let ghost known = users_view(roster@);
            let ghost mv = texts_view(messages@);
            let mut k: usize = 0;
            while k < messages.len()
                invariant
                    k <= messages.len(),
                    known == users_view(roster@),
                    mv == texts_view(messages@),
                    lines_view(lines@) == mv.take(k as int).map_values(chat_line(known)),
                decreases messages.len() - k,
            {
                let line = Line::Chat {
                    msg: messages[k].clone(),
                    author: get_user(roster, messages[k].sender_addr),
                };
                proof {
                    assert(line@ == chat_line(known)(mv[k as int]));
                    assert(lines_view(lines@.push(line)) =~= lines_view(lines@).push(line@));
                    assert(mv.take(k + 1).map_values(chat_line(known)) =~= mv.take(
                        k as int,
                    ).map_values(chat_line(known)).push(line@));
                }
                lines.push(line);
                k += 1;
            }
            proof {
                assert(mv.take(mv.len() as int) =~= mv);
            }
        },
        MessageType::Server(ServerMsg::UserLeft { addr }) => {
            match get_user(roster, *addr) {
                Some(u) => {
                    remove_user(roster, *addr);
                    push_notice(&mut lines, u.id.concat(" has left"));
                    assert(lines_view(lines@) =~= want.1);
                },
                None => {},
            }
        },
        MessageType::Server(ServerMsg::BanConfirm { addr }) => {
            let own_ban = match own.addr {
                Some(a) => a == *addr,
                None => false,
            };
            if own_ban {
                let empty: Vec<User> = Vec::new();
                assert(users_view(empty@) =~= Seq::<UserView>::empty());
                *roster = empty;
                push_notice(&mut lines, String::from_str("You has been banned from this server"));
                assert(lines_view(lines@) =~= want.1);
            } else {
                match get_user(roster, *addr) {
                    Some(u) => {
                        push_notice(&mut lines, u.id.concat(" has been banned"));
                        assert(lines_view(lines@) =~= want.1);
                    },
                    None => {},
                }
            }
        },
        MessageType::Server(ServerMsg::ServerShutdown) => {
            push_notice(&mut lines, String::from_str("Server has been shutted down."));
            assert(lines_view(lines@) =~= want.1);
        },
        _ => {},
    }
    lines
}

/// A key of the keyboard, as far as the chat screen tells keys apart.
#[derive(Clone, Copy, Debug, PartialEq, Eq, Structural)]
pub enum Key {
    Left,
    Right,
    Up,
    Down,
    Enter,
    Backspace,
    Char(char),
    Other,
}

/// One key press: the key, and whether Control was held.
#[derive(Clone, Copy, Debug, PartialEq, Eq, Structural)]
pub struct KeyPress {
    pub key: Key,
    pub ctrl: bool,
}

/// What a key press asks of the text area.
#[derive(Clone, Copy, Debug, PartialEq, Eq, Structural)]
pub enum AreaAction {
    /// Move the cursor one character back.
    MoveBack,
    /// Move the cursor one character forward.
    MoveForward,
    /// Move the cursor one line up.
    MoveUp,
    /// Move the cursor one line down.
    MoveDown,
    /// Copy the selection.
    Copy,
    /// Paste what was copied.
    Paste,
    /// Delete the character, or the line break, before the cursor.
    Delete,
    /// Hand the key to the text area as input.
    Insert,
    /// Take the text out of the area and hand it to
    /// [`ChatApp::handle_text_buffer`].
    Submit,
    /// Leave the text area alone.
    Nothing,
}

/// The chat screen's state as plain values.
#[verifier::ext_equal]
pub struct ChatAppView {
    pub running: bool,
    pub client: ClientView,
    pub users: Seq<UserView>,
    pub lines: Seq<LineView>,
    pub selected: Option<usize>,
    pub is_highlighted: bool,
    pub popup: PopupState,
}

/// Whether `m` is the host's refusal of the credential.
pub open spec fn is_auth_failure(m: MessageTypeView) -> bool {
    m == MessageTypeView::Server(ServerMsgView::AuthFailure)
}

/// The cursor after new lines came in: it follows the end of the list
/// unless the user is browsing.
pub open spec fn follow_end(a: ChatAppView) -> ChatAppView {
    if a.is_highlighted {
        a
    } else {
        ChatAppView { selected: Some(a.lines.len() as usize), ..a }
    }
}

/// One poll of the session. The client takes the frame first; what it hands
/// on is shown. A refused credential stops the screen, and the poll says so
/// by returning `false`.
pub open spec fn spec_handle_msgs(a: ChatAppView, polled: Option<MessageView>) -> (
    ChatAppView,
    bool,
) {
    let (client, got) = spec_recv_msg(a.client, polled);
    match got {
        None => (follow_end(ChatAppView { client, ..a }), true),
        Some(m) => if is_auth_failure(m) {
            (ChatAppView { client, running: false, ..a }, false)
        } else {
            let (users, lines) = spec_show(a.users, client.user, m);
            (follow_end(ChatAppView { client, users, lines: a.lines + lines, ..a }), true)
        },
    }
}

/// What a key press does. Any key closes an open popup first. The arrows
/// move the cursor of the text area; Control with `k` or `j` browses the
/// messages; Control with `q` leaves; Enter submits while the session is
/// alive; Control with `l` or `h` opens the list of users or the help;
/// Control with `y` or `p` copies or pastes; Backspace deletes; any other key
/// is input, and ends the browsing.
pub open spec fn spec_handle_input(a: ChatAppView, press: KeyPress) -> (ChatAppView, AreaAction) {
    let a = ChatAppView { popup: PopupState::Closed, ..a };
    match press.key {
        Key::Left => (a, AreaAction::MoveBack),
        Key::Right => (a, AreaAction::MoveForward),
        Key::Up => (a, AreaAction::MoveUp),
        Key::Down => (a, AreaAction::MoveDown),
        Key::Enter => (
            a,
            if a.client.cancelled {
                AreaAction::Nothing
            } else {
                AreaAction::Submit
            },
        ),
        Key::Backspace => (a, AreaAction::Delete),
        Key::Char(c) => if press.ctrl && c == 'k' {
            (
                ChatAppView {
                    is_highlighted: true,
                    selected: spec_previous(a.selected, a.lines.len()),
                    ..a
                },
                AreaAction::Nothing,
            )
        } else if press.ctrl && c == 'j' {
            (
                ChatAppView {
                    is_highlighted: true,
                    selected: spec_next(a.selected, a.lines.len()),
                    ..a
                },
                AreaAction::Nothing,
            )
        } else if press.ctrl && c == 'q' {
            (
                ChatAppView { client: spec_disconnect(a.client), running: false, ..a },
                AreaAction::Nothing,
            )
        } else if press.ctrl && c == 'l' {
            (ChatAppView { popup: PopupState::List, ..a }, AreaAction::Nothing)
        } else if press.ctrl && c == 'h' {
            (ChatAppView { popup: PopupState::Help, ..a }, AreaAction::Nothing)
        } else if press.ctrl && c == 'y' {
            (a, AreaAction::Copy)
        } else if press.ctrl && c == 'p' {
            (a, AreaAction::Paste)
        } else {
            (ChatAppView { is_highlighted: false, ..a }, AreaAction::Insert)
        },
        Key::Other => (ChatAppView { is_highlighted: false, ..a }, AreaAction::Insert),
    }
}

/// The frame that a command asks to send: for a ban, the request to ban
/// whomever the command names, where it names a known user and the client
/// can send.
pub open spec fn spec_run_command(a: ChatAppView, action: Action, args: Seq<Seq<char>>) -> Option<
    MessageView,
> {
    match action {
        Action::Ban => match super::command::spec_ban_target(args, a.users) {
            Some(addr) => match spec_send_msg(a.client, UserMsgView::BanReq { addr }) {
                Ok(frame) => frame,
                Err(_) => None,
            },
            None => None,
        },
    }
}

/// The notice that a message could not be sent.
pub open spec fn send_failure() -> LineView {
    LineView::Info { text: "Failed sending message"@, failure: true }
}

/// What saying `text` in the room does: the message goes out under the
/// peer's own address and the room's id, and is shown as the peer's own. A
/// peer that does not know its address yet, or cannot send, is shown a notice
/// instead.
pub open spec fn spec_say(a: ChatAppView, text: Seq<char>) -> (ChatAppView, Option<MessageView>) {
    match a.client.user.addr {
        None => (ChatAppView { lines: a.lines.push(send_failure()), ..a }, None),
        Some(addr) => {
            let msg = TextMessageView {
                room_id: a.client.room.id,
                sender_addr: addr,
                content: text,
                timestamp: None,
            };
            match spec_send_msg(a.client, UserMsgView::Normal { msg }) {
                Ok(frame) => (
                    ChatAppView {
                        lines: a.lines.push(
                            LineView::Chat { msg, author: Some(a.client.user) },
                        ),
                        ..a
                    },
                    frame,
                ),
                Err(_) => (ChatAppView { lines: a.lines.push(send_failure()), ..a }, None),
            }
        },
    }
}

/// One peer's session on the screen.
#[derive(Debug)]
pub struct ChatApp {
    pub running: bool,
    pub client: ChatClient,
    pub users: Vec<User>,
    pub messages: StatefulList<Line>,
    pub current_popup: PopupState,
    pub commands: Commander,
}

impl View for ChatApp {
    type V = ChatAppView;

    open spec fn view(&self) -> ChatAppView {
        ChatAppView {
            running: self.running,
            client: self.client@,
            users: users_view(self.users@),
            lines: lines_view(self.messages.items@),
            selected: self.messages.selected,
            is_highlighted: self.messages.is_highlighted,
            popup: self.current_popup,
        }
    }
}

impl ChatApp {
    /// The screen of a session that `client` holds: running, with nobody
    /// known, nothing shown, no popup open, and the ban command to hand.
    pub fn new(client: ChatClient) -> (app: Self)
        ensures
            app@ == (ChatAppView {
                running: true,
                client: client@,
                users: Seq::<UserView>::empty(),
                lines: Seq::<LineView>::empty(),
                selected: None,
                is_highlighted: false,
                popup: PopupState::Closed,
            }),
            app.commands.commands@.len() == 1,
            app.commands.commands@[0].pattern@ == super::command::BAN_PATTERN@,
            app.commands.commands@[0].action == Action::Ban,
    {
        let mut commands: Vec<Command> = Vec::new();
        commands.push(Command::ban());
        let app = ChatApp {
            running: true,
            client,
            users: Vec::new(),
            messages: StatefulList::with_items(Vec::new()),
            current_popup: PopupState::Closed,
            commands: Commander::new(commands),
        };
        assert(app@.users =~= Seq::<UserView>::empty());
        assert(app@.lines =~= Seq::<LineView>::empty());
        app
    }

    /// One poll of what came in (see [`spec_handle_msgs`]). The result says
    /// whether the host still accepts the peer's credential.
    pub fn handle_msgs(&mut self, polled: Option<Message>) -> (authorized: bool)
        ensures
            final(self)@ == spec_handle_msgs(
                old(self)@,
                match polled {
                    Some(m) => Some(m@),
                    None => None,
                },
            ).0,
            authorized == spec_handle_msgs(
                old(self)@,
                match polled {
                    Some(m) => Some(m@),
                    None => None,
                },
            ).1,
            final(self).commands == old(self).commands,
    {
        match self.client.recv_msg(polled) {
            Some(msg_type) => {
                if let MessageType::Server(ServerMsg::AuthFailure) = msg_type {
                    self.running = false;
                    return false;
                }
                let mut lines = show(&mut self.users, self.client.user(), &msg_type);
                proof {
                    assert(lines_view(self.messages.items@ + lines@) =~= lines_view(
                        self.messages.items@,
                    ) + lines_view(lines@));
                }
                self.messages.items.append(&mut lines);
            },
            None => {},
        }
        if !self.messages.is_highlighted {
            self.messages.select_last();
        }
        true
    }

    /// What a key press does (see [`spec_handle_input`]).
    pub fn handle_input(&mut self, press: KeyPress) -> (action: AreaAction)
        ensures
            final(self)@ == spec_handle_input(old(self)@, press).0,
            action == spec_handle_input(old(self)@, press).1,
            final(self).commands == old(self).commands,
    {
        self.current_popup = PopupState::Closed;
        match press.key {
            Key::Left => AreaAction::MoveBack,
            Key::Right => AreaAction::MoveForward,
            Key::Up => AreaAction::MoveUp,
            Key::Down => AreaAction::MoveDown,
            Key::Enter => {
                if self.client.is_ok() {
                    AreaAction::Submit
                } else {
                    AreaAction::Nothing
                }
            },
            Key::Backspace => AreaAction::Delete,
            Key::Char(c) => {
                if press.ctrl && c == 'k' {
                    self.messages.is_highlighted = true;
                    self.messages.previous();
                    AreaAction::Nothing
                } else if press.ctrl && c == 'j' {
                    self.messages.is_highlighted = true;
                    self.messages.next();
                    AreaAction::Nothing
                } else if press.ctrl && c == 'q' {
                    self.client.disconnect();
                    self.running = false;
                    AreaAction::Nothing
                } else if press.ctrl && c == 'l' {
                    self.current_popup = PopupState::List;
                    AreaAction::Nothing
                } else if press.ctrl && c == 'h' {
                    self.current_popup = PopupState::Help;
                    AreaAction::Nothing
                } else if press.ctrl && c == 'y' {
                    AreaAction::Copy
                } else if press.ctrl && c == 'p' {
                    AreaAction::Paste
                } else {
                    self.messages.is_highlighted = false;
                    AreaAction::Insert
                }
            },
            Key::Other => {
                self.messages.is_highlighted = false;
                AreaAction::Insert
            },
        }
    }

    /// Looks for a command in `haystack`: the first of the screen's commands
    /// that is found gives its action and its arguments.
    pub fn parse_commands(&self, haystack: &str) -> (r: Option<(Action, Vec<String>)>)
        ensures
            match r {
                Some((action, args)) => {
                    &&& self.commands.spec_first_match(haystack@) matches Some(i)
                    &&& 0 <= i < self.commands.commands@.len()
                    &&& action == self.commands.commands@[i].action
                    &&& self.commands.commands@[i].spec_parse(haystack@) == Some(
                        strings_view(args@),
                    )
                },
                None => self.commands.spec_first_match(haystack@) is None,
            },
    {
        self.commands.parse(haystack)
    }

    /// The frame to send for a command that was found (see
    /// [`spec_run_command`]).
    pub fn run_command(&self, action: Action, args: &Vec<String>) -> (frame: Option<Message>)
        ensures
            match frame {
                Some(f) => spec_run_command(self@, action, strings_view(args@)) == Some(f@),
                None => spec_run_command(self@, action, strings_view(args@)) is None,
            },
    {
        match action {
            Action::Ban => match Ban::target(args, &self.users) {
                Some(addr) => match self.client.ban(&addr) {
                    Ok(frame) => frame,
                    Err(_) => None,
                },
                None => None,
            },
        }
    }

    /// Says `text` in the room (see [`spec_say`]); the frame returned, if
    /// any, is to be sent.
    pub fn say(&mut self, text: &str) -> (frame: Option<Message>)
        ensures
            final(self)@ == spec_say(old(self)@, text@).0,
            match frame {
                Some(f) => spec_say(old(self)@, text@).1 == Some(f@),
                None => spec_say(old(self)@, text@).1 is None,
            },
            final(self).commands == old(self).commands,
    {
        let sent = match self.client.user().addr {
            None => None,
            Some(addr) => {
                let msg = TextMessage::new(&addr, self.client.room()._id.as_str(), text);
                match self.client.send_msg(UserMsg::Normal { msg: msg.clone() }) {
                    Ok(frame) => Some((msg, frame)),
                    Err(_) => None,
                }
            },
        };
        match sent {
            Some((msg, frame)) => {
                let line = Line::Chat { msg, author: Some(self.client.user().clone()) };
                proof {
                    assert(lines_view(self.messages.items@.push(line)) =~= lines_view(
                        self.messages.items@,
                    ).push(line@));
                }
                self.messages.items.push(line);
                frame
            },
            None => {
                self.report_send_failure();
                None
            },
        }
    }

    /// Shows the notice that a message could not be sent.
    pub fn report_send_failure(&mut self)
        ensures
            final(self)@ == (ChatAppView {
                lines: old(self)@.lines.push(send_failure()),
                ..old(self)@
            }),
            final(self).commands == old(self).commands,
    {
        let line = Line::Info { text: String::from_str("Failed sending message"), failure: true };
        proof {
            assert(lines_view(self.messages.items@.push(line)) =~= lines_view(
                self.messages.items@,
            ).push(line@));
        }
        self.messages.items.push(line);
    }

    /// The text area was submitted and held `text`, or nothing but white
    /// space (`None`). Text in which a command is found is carried out as
    /// that command; any other text is said in the room. The frame returned,
    /// if any, is to be sent.
    pub fn handle_text_buffer(&mut self, text: Option<String>) -> (frame: Option<Message>)
        ensures
            match text {
                None => final(self)@ == old(self)@ && frame is None,
                Some(t) => match old(self).commands.spec_first_match(t@) {
                    Some(i) => {
                        &&& final(self)@ == old(self)@
                        &&& 0 <= i < old(self).commands.commands@.len()
                        &&& old(self).commands.commands@[i].spec_parse(t@) is Some
                        &&& match frame {
                            Some(f) => spec_run_command(
                                old(self)@,
                                old(self).commands.commands@[i].action,
                                old(self).commands.commands@[i].spec_parse(t@).unwrap(),
                            ) == Some(f@),
                            None => spec_run_command(
                                old(self)@,
                                old(self).commands.commands@[i].action,
                                old(self).commands.commands@[i].spec_parse(t@).unwrap(),
                            ) is None,
                        }
                    },
                    None => {
                        &&& final(self)@ == spec_say(old(self)@, t@).0
                        &&& match frame {
                            Some(f) => spec_say(old(self)@, t@).1 == Some(f@),
                            None => spec_say(old(self)@, t@).1 is None,
                        }
                    },
                },
            },
            final(self).commands == old(self).commands,
    {
        match text {
            None => None,
            Some(t) => match self.parse_commands(t.as_str()) {
                Some((action, args)) => self.run_command(action, &args),
                None => self.say(t.as_str()),
            },
        }
    }
}

} // verus!
