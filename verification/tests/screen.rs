use nosignal::network::client::ChatClient;
use nosignal::network::message::{Message, ServerMsg, UserMsg};
use nosignal::network::User;
use nosignal::schema::{Color, PeerAddr, RoomHeader, TextMessage, Timestamp};
use nosignal::tui::chat_app::{
    get_user, put_user, remove_user, show, AreaAction, ChatApp, Key, KeyPress, Line,
};
use nosignal::tui::command::Action;
use nosignal::tui::ui::{PopupState, StatefulList, Timer};

fn peer(port: u16) -> PeerAddr {
    PeerAddr::v4(127, 0, 0, 1, port)
}

fn named(id: &str, port: u16) -> User {
    User { id: id.to_string(), addr: Some(peer(port)), color: Color::Yellow }
}

fn info(text: &str) -> Line {
    Line::Info { text: text.to_string(), failure: false }
}

fn session() -> ChatApp {
    let header = RoomHeader { _id: String::new(), addr: peer(12345), passwd: Some("d".to_string()) };
    let me = User { id: "me".to_string(), addr: None, color: Color::White };
    let mut client = ChatClient::new(header, me);
    client.start_connect();
    client.connect(true).unwrap();
    ChatApp::new(client)
}

fn synced() -> ChatApp {
    let mut app = session();
    let sync = ServerMsg::Sync {
        user_addr: peer(1),
        room_id: "r1".to_string(),
        messages: vec![],
        users: vec![named("alice", 2), named("bob", 3)],
    };
    assert!(app.handle_msgs(Some(Message::from(sync))));
    app
}

fn ctrl(c: char) -> KeyPress {
    KeyPress { key: Key::Char(c), ctrl: true }
}

fn plain(key: Key) -> KeyPress {
    KeyPress { key, ctrl: false }
}

#[test]
fn roster_keeps_one_user_per_address() {
    let mut roster = vec![named("alice", 1), named("bob", 2)];
    put_user(&mut roster, named("alicia", 1));
    assert_eq!(roster, vec![named("bob", 2), named("alicia", 1)]);
    assert_eq!(get_user(&roster, peer(1)), Some(named("alicia", 1)));
    assert_eq!(get_user(&roster, peer(9)), None);
    let mut nobody = named("ghost", 0);
    nobody.addr = None;
    put_user(&mut roster, nobody);
    assert_eq!(roster.len(), 2);
    remove_user(&mut roster, peer(2));
    assert_eq!(roster, vec![named("alicia", 1)]);
    remove_user(&mut roster, peer(2));
    assert_eq!(roster, vec![named("alicia", 1)]);
}

#[test]
fn frames_become_lines() {
    let me = named("me", 1);
    let mut roster = vec![named("alice", 2)];
    let joined =
        show(&mut roster, &me, &Message::from((UserMsg::UserJoined { user: named("bob", 3) }, None)).msg_type);
    assert_eq!(joined, vec![info("bob has joined")]);
    assert_eq!(roster, vec![named("alice", 2), named("bob", 3)]);

    let text = TextMessage::new(&peer(3), "r1", "hi").stamped(Timestamp { secs: 1, nanos: 0 });
    let said = show(&mut roster, &me, &Message::from((UserMsg::Normal { msg: text.clone() }, None)).msg_type);
    assert_eq!(said, vec![Line::Chat { msg: text, author: Some(named("bob", 3)) }]);

    let stranger = TextMessage::new(&peer(8), "r1", "psst");
    let said =
        show(&mut roster, &me, &Message::from((UserMsg::Normal { msg: stranger.clone() }, None)).msg_type);
    assert_eq!(said, vec![Line::Chat { msg: stranger, author: None }]);

    let banned = show(&mut roster, &me, &Message::from(ServerMsg::BanConfirm { addr: peer(3) }).msg_type);
    assert_eq!(banned, vec![info("bob has been banned")]);
    assert_eq!(roster.len(), 2);
    let left = show(&mut roster, &me, &Message::from(ServerMsg::UserLeft { addr: peer(3) }).msg_type);
    assert_eq!(left, vec![info("bob has left")]);
    assert_eq!(roster, vec![named("alice", 2)]);
    let left = show(&mut roster, &me, &Message::from(ServerMsg::UserLeft { addr: peer(3) }).msg_type);
    assert_eq!(left, vec![]);

    let down = show(&mut roster, &me, &Message::from(ServerMsg::ServerShutdown).msg_type);
    assert_eq!(down, vec![info("Server has been shutted down.")]);
    let own = show(&mut roster, &me, &Message::from(ServerMsg::BanConfirm { addr: peer(1) }).msg_type);
    assert_eq!(own, vec![info("You has been banned from this server")]);
    assert!(roster.is_empty());
}

#[test]
fn sync_fills_the_roster_before_the_history_is_shown() {
    let mut app = session();
    let old = TextMessage::new(&peer(3), "r1", "earlier").stamped(Timestamp { secs: 5, nanos: 0 });
    let orphan = TextMessage::new(&peer(7), "r1", "gone").stamped(Timestamp { secs: 6, nanos: 0 });
    let sync = ServerMsg::Sync {
        user_addr: peer(1),
        room_id: "r1".to_string(),
        messages: vec![old.clone(), orphan.clone()],
        users: vec![named("alice", 2), named("bob", 3)],
    };
    assert!(app.handle_msgs(Some(Message::from(sync))));
    assert_eq!(app.users, vec![named("alice", 2), named("bob", 3)]);
    assert_eq!(
        app.messages.items,
        vec![
            Line::Chat { msg: old, author: Some(named("bob", 3)) },
            Line::Chat { msg: orphan, author: None },
        ]
    );
    assert_eq!(app.messages.selected, Some(2));
    assert_eq!(app.client.user().addr, Some(peer(1)));
    assert_eq!(app.client.room()._id, "r1");
}

#[test]
fn refused_credential_stops_the_screen() {
    let mut app = synced();
    assert!(app.running);
    assert!(!app.handle_msgs(Some(Message::from(ServerMsg::AuthFailure))));
    assert!(!app.running);
    assert!(!app.client.is_ok());
    assert_eq!(app.messages.items, vec![]);
}

#[test]
fn empty_poll_only_follows_the_end() {
    let mut app = synced();
    app.messages.selected = None;
    assert!(app.handle_msgs(None));
    assert_eq!(app.messages.selected, Some(0));
    app.messages.is_highlighted = true;
    app.messages.selected = None;
    assert!(app.handle_msgs(None));
    assert_eq!(app.messages.selected, None);
}

#[test]
fn keys_drive_the_screen() {
    let mut app = synced();
    assert_eq!(app.handle_input(plain(Key::Left)), AreaAction::MoveBack);
    assert_eq!(app.handle_input(plain(Key::Right)), AreaAction::MoveForward);
    assert_eq!(app.handle_input(plain(Key::Up)), AreaAction::MoveUp);
    assert_eq!(app.handle_input(plain(Key::Down)), AreaAction::MoveDown);
    assert_eq!(app.handle_input(plain(Key::Backspace)), AreaAction::Delete);
    assert_eq!(app.handle_input(ctrl('y')), AreaAction::Copy);
    assert_eq!(app.handle_input(ctrl('p')), AreaAction::Paste);
    assert_eq!(app.handle_input(plain(Key::Enter)), AreaAction::Submit);

    assert_eq!(app.handle_input(ctrl('l')), AreaAction::Nothing);
    assert_eq!(app.current_popup, PopupState::List);
    assert_eq!(app.handle_input(ctrl('l')), AreaAction::Nothing);
    assert_eq!(app.current_popup, PopupState::List);
    assert_eq!(app.handle_input(ctrl('h')), AreaAction::Nothing);
    assert_eq!(app.current_popup, PopupState::Help);
    assert_eq!(app.handle_input(plain(Key::Char('k'))), AreaAction::Insert);
    assert_eq!(app.current_popup, PopupState::Closed);
    assert_eq!(app.handle_input(plain(Key::Other)), AreaAction::Insert);

    app.say("one");
    app.say("two");
    app.messages.selected = Some(1);
    assert_eq!(app.handle_input(ctrl('k')), AreaAction::Nothing);
    assert!(app.messages.is_highlighted);
    assert_eq!(app.messages.selected, Some(0));
    app.handle_input(ctrl('k'));
    assert_eq!(app.messages.selected, Some(0));
    app.handle_input(ctrl('j'));
    app.handle_input(ctrl('j'));
    assert_eq!(app.messages.selected, Some(1));
    app.handle_input(plain(Key::Char('x')));
    assert!(!app.messages.is_highlighted);

    assert_eq!(app.handle_input(ctrl('q')), AreaAction::Nothing);
    assert!(!app.running);
    assert!(!app.client.is_ok());
    assert_eq!(app.handle_input(plain(Key::Enter)), AreaAction::Nothing);
}

#[test]
fn text_is_said_and_commands_are_carried_out() {
    let mut app = synced();
    let frame = app.handle_text_buffer(Some("hello all".to_string())).unwrap();
    let mine = TextMessage::new(&peer(1), "r1", "hello all");
    assert_eq!(frame, Message::from((UserMsg::Normal { msg: mine.clone() }, Some("d".to_string()))));
    let me = User { id: "me".to_string(), addr: Some(peer(1)), color: Color::White };
    assert_eq!(app.messages.items, vec![Line::Chat { msg: mine, author: Some(me) }]);

    assert_eq!(app.parse_commands("/ban bob"), Some((Action::Ban, vec!["/ban bob".to_string(), "bob".to_string()])));
    let frame = app.handle_text_buffer(Some("/ban bob".to_string())).unwrap();
    assert_eq!(frame, Message::from((UserMsg::BanReq { addr: peer(3) }, Some("d".to_string()))));
    assert_eq!(app.messages.items.len(), 1);
    assert_eq!(app.handle_text_buffer(Some("/ban nobody".to_string())), None);
    assert_eq!(app.messages.items.len(), 1);
    assert_eq!(app.handle_text_buffer(None), None);
    assert_eq!(app.messages.items.len(), 1);
}

#[test]
fn saying_without_an_address_or_a_channel_fails_visibly() {
    let failure = Line::Info { text: "Failed sending message".to_string(), failure: true };
    let mut app = session();
    assert_eq!(app.say("too early"), None);
    assert_eq!(app.messages.items, vec![failure.clone()]);

    let mut app = synced();
    app.client.disconnect();
    assert_eq!(app.say("too late"), None);
    assert_eq!(app.messages.items, vec![failure.clone()]);
    app.report_send_failure();
    assert_eq!(app.messages.items, vec![failure.clone(), failure]);
}

#[test]
fn list_cursor_moves_within_the_list() {
    let mut list = StatefulList::with_items(vec!['a', 'b', 'c']);
    assert_eq!(list.selected, None);
    list.next();
    assert_eq!(list.selected, Some(0));
    list.next();
    list.next();
    assert_eq!(list.selected, Some(2));
    list.next();
    assert_eq!(list.selected, Some(2));
    list.previous();
    assert_eq!(list.selected, Some(1));
    list.previous();
    list.previous();
    assert_eq!(list.selected, Some(0));
    list.select_last();
    assert_eq!(list.selected, Some(3));
    list.next();
    assert_eq!(list.selected, Some(3));
    list.previous();
    assert_eq!(list.selected, Some(2));

    let mut empty: StatefulList<char> = StatefulList::default();
    empty.next();
    empty.previous();
    assert_eq!(empty.selected, None);
    empty.select_last();
    assert_eq!(empty.selected, Some(0));
}

#[test]
fn timer_counts_down_while_unlocked() {
    let mut timer = Timer::new(3);
    assert!(timer.has_time_passed());
    timer.dec();
    assert_eq!(timer.counter, 0);
    timer.unlock();
    timer.dec();
    assert_eq!(timer.counter, 2);
    assert!(!timer.has_time_passed());
    timer.dec();
    timer.dec();
    assert!(timer.has_time_passed());
    timer.dec();
    assert_eq!(timer.counter, 2);
    timer.lock();
    timer.dec();
    assert_eq!(timer.counter, 2);
}
