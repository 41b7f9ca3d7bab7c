use nosignal::network::message::{Message, MessageType, ServerMsg, UserMsg};
use nosignal::network::server::{Action, ChatServer, PeerState, SHUTDOWN_GRACE_MILLIS};
use nosignal::network::User;
use nosignal::schema::{Color, PeerAddr, ServerRoom, TextMessage, Timestamp};

fn peer(port: u16) -> PeerAddr {
    PeerAddr::v4(127, 0, 0, 1, port)
}

fn room(id: &str, passwd: Option<&str>) -> ServerRoom {
    ServerRoom {
        _id: id.to_string(),
        addr: peer(12345),
        passwd: passwd.map(|p| p.to_string()),
        banned_addrs: vec![],
    }
}

fn user(id: &str, color: Color) -> User {
    User { id: id.to_string(), addr: None, color }
}

fn at(secs: u64) -> Timestamp {
    Timestamp { secs, nanos: 0 }
}

fn frame(msg: UserMsg, passwd: Option<&str>) -> Message {
    Message::from((msg, passwd.map(|p| p.to_string())))
}

fn say(room_id: &str, from: PeerAddr, text: &str) -> UserMsg {
    UserMsg::Normal { msg: TextMessage::new(&from, room_id, text) }
}

fn send(to: PeerAddr, msg: ServerMsg) -> Action {
    Action::Send { to, msg: Message::from(msg) }
}

fn store(history: &mut Vec<TextMessage>, actions: &[Action]) {
    for a in actions {
        if let Action::Persist { msg } = a {
            history.push(msg.clone());
        }
    }
}

#[test]
fn accept_registers_and_asks_for_credentials() {
    let mut open = ChatServer::new(room("r1", None));
    assert_eq!(open.accept(peer(1)), vec![]);
    assert_eq!(open.peer_state(peer(1)), PeerState::Unauthenticated);
    assert_eq!(open.peer_count(), 1);

    let mut gated = ChatServer::new(room("r2", Some("secret")));
    assert_eq!(
        gated.accept(peer(1)),
        vec![send(peer(1), ServerMsg::AuthReq { passwd_required: true })]
    );
}

#[test]
fn accept_twice_keeps_one_entry() {
    let mut server = ChatServer::new(room("r1", None));
    server.accept(peer(1));
    server.handle_message(
        peer(1),
        frame(UserMsg::UserJoined { user: user("a", Color::Red) }, None),
        at(1),
        &vec![],
    );
    assert_eq!(server.peer_state(peer(1)), PeerState::Joined);
    server.accept(peer(1));
    assert_eq!(server.peer_count(), 1);
    assert_eq!(server.peer_state(peer(1)), PeerState::Unauthenticated);
}

#[test]
fn sync_lists_the_others_not_the_requester() {
    let mut server = ChatServer::new(room("r1", None));
    let (a, b) = (peer(1), peer(2));
    server.accept(a);
    let out = server.handle_message(
        a,
        frame(UserMsg::UserJoined { user: user("alice", Color::LightRed) }, None),
        at(1),
        &vec![],
    );
    assert_eq!(out, vec![]);
    server.accept(b);
    let out = server.handle_message(
        b,
        frame(UserMsg::UserJoined { user: user("bob", Color::LightGreen) }, None),
        at(2),
        &vec![],
    );
    let bob_seen = User { id: "bob".to_string(), addr: Some(b), color: Color::LightGreen };
    assert_eq!(
        out,
        vec![Action::Send {
            to: a,
            msg: Message::from((UserMsg::UserJoined { user: bob_seen }, None)),
        }]
    );
    let out = server.handle_message(
        b,
        frame(UserMsg::SyncReq { user: user("bob", Color::LightGreen) }, None),
        at(3),
        &vec![],
    );
    let alice_seen = User { id: "alice".to_string(), addr: Some(a), color: Color::LightRed };
    assert_eq!(
        out,
        vec![send(
            b,
            ServerMsg::Sync {
                user_addr: b,
                room_id: "r1".to_string(),
                messages: vec![],
                users: vec![alice_seen],
            }
        )]
    );
}

#[test]
fn wrong_password_is_declined_and_nothing_else_happens() {
    let mut server = ChatServer::new(room("r2", Some("secret")));
    let (a, b) = (peer(1), peer(2));
    server.accept(a);
    server.accept(b);
    let out = server.handle_message(a, frame(say("r2", a, "hi"), Some("guess")), at(5), &vec![]);
    assert_eq!(out, vec![send(a, ServerMsg::AuthFailure)]);
    let out = server.handle_message(a, frame(say("r2", a, "hi"), None), at(6), &vec![]);
    assert_eq!(out, vec![send(a, ServerMsg::AuthFailure)]);
    assert_eq!(server.peer_state(a), PeerState::Unauthenticated);
    assert_eq!(server.peer_count(), 2);

    let out = server.handle_message(a, frame(say("r2", a, "hi"), Some("secret")), at(7), &vec![]);
    let stamped = TextMessage {
        room_id: "r2".to_string(),
        sender_addr: a,
        content: "hi".to_string(),
        timestamp: Some(at(7)),
    };
    assert_eq!(
        out,
        vec![
            Action::Persist { msg: stamped.clone() },
            Action::Send { to: b, msg: Message::from((UserMsg::Normal { msg: stamped }, None)) },
        ]
    );
}

#[test]
fn join_in_a_gated_room_carries_the_room_digest() {
    let mut server = ChatServer::new(room("r2", Some("secret")));
    let (a, b) = (peer(1), peer(2));
    server.accept(a);
    server.accept(b);
    let out = server.handle_message(
        b,
        frame(UserMsg::UserJoined { user: user("bob", Color::Blue) }, Some("secret")),
        at(1),
        &vec![],
    );
    let seen = User { id: "bob".to_string(), addr: Some(b), color: Color::Blue };
    assert_eq!(
        out,
        vec![Action::Send {
            to: a,
            msg: Message::from((UserMsg::UserJoined { user: seen }, Some("secret".to_string()))),
        }]
    );
}

#[test]
fn declared_address_is_replaced_by_the_observed_one() {
    let mut server = ChatServer::new(room("r1", None));
    let (a, b) = (peer(1), peer(2));
    server.accept(a);
    server.accept(b);
    let mut liar = user("mallory", Color::Red);
    liar.addr = Some(PeerAddr::v4(10, 0, 0, 9, 9));
    let out = server.handle_message(a, frame(UserMsg::UserJoined { user: liar }, None), at(1), &vec![]);
    match &out[..] {
        [Action::Send { to, msg }] => {
            assert_eq!(*to, b);
            match &msg.msg_type {
                MessageType::User(UserMsg::UserJoined { user }) => assert_eq!(user.addr, Some(a)),
                other => panic!("unexpected frame {:?}", other),
            }
        }
        other => panic!("unexpected actions {:?}", other),
    }
    let out = server.handle_message(
        b,
        frame(UserMsg::SyncReq { user: user("bob", Color::Blue) }, None),
        at(2),
        &vec![],
    );
    match &out[..] {
        [Action::Send { msg, .. }] => match &msg.msg_type {
            MessageType::Server(ServerMsg::Sync { users, user_addr, .. }) => {
                assert_eq!(*user_addr, b);
                assert_eq!(users.len(), 1);
                assert_eq!(users[0].addr, Some(a));
                assert_eq!(users[0].id, "mallory");
            }
            other => panic!("unexpected frame {:?}", other),
        },
        other => panic!("unexpected actions {:?}", other),
    }
}

#[test]
fn history_comes_back_in_receipt_order() {
    let mut server = ChatServer::new(room("r1", None));
    let (a, b, c) = (peer(1), peer(2), peer(3));
    server.accept(a);
    server.accept(b);
    let mut history: Vec<TextMessage> = Vec::new();
    let out = server.handle_message(a, frame(say("r1", a, "one"), None), at(10), &history);
    store(&mut history, &out);
    let out = server.handle_message(b, frame(say("r1", b, "two"), None), at(10), &history);
    store(&mut history, &out);
    let out = server.handle_message(a, frame(say("r1", a, "three"), None), at(12), &history);
    store(&mut history, &out);
    server.accept(c);
    let out = server.handle_message(
        c,
        frame(UserMsg::SyncReq { user: user("carol", Color::Cyan) }, None),
        at(13),
        &history,
    );
    let expect = |from: PeerAddr, text: &str, secs: u64| TextMessage {
        room_id: "r1".to_string(),
        sender_addr: from,
        content: text.to_string(),
        timestamp: Some(at(secs)),
    };
    assert_eq!(
        out,
        vec![send(
            c,
            ServerMsg::Sync {
                user_addr: c,
                room_id: "r1".to_string(),
                messages: vec![expect(a, "one", 10), expect(b, "two", 10), expect(a, "three", 12)],
                users: vec![],
            }
        )]
    );
}

#[test]
fn only_the_owner_bans() {
    let mut server = ChatServer::new(room("r1", None));
    let (a, b, c) = (peer(1), peer(2), peer(3));
    for p in [a, b, c] {
        server.accept(p);
        server.handle_message(
            p,
            frame(UserMsg::UserJoined { user: user("u", Color::White) }, None),
            at(1),
            &vec![],
        );
    }
    // no owner named yet
    assert_eq!(server.handle_message(a, frame(UserMsg::BanReq { addr: b }, None), at(2), &vec![]), vec![]);
    server.set_owner_addr(a);
    assert_eq!(server.owner_addr(), Some(a));
    // not the owner
    assert_eq!(server.handle_message(c, frame(UserMsg::BanReq { addr: b }, None), at(3), &vec![]), vec![]);
    assert_eq!(server.peer_count(), 3);
    assert!(server.room().banned_addrs.is_empty());
    assert!(!server.refuses(b));

    let out = server.handle_message(a, frame(UserMsg::BanReq { addr: b }, None), at(4), &vec![]);
    let mut banned_room = room("r1", None);
    banned_room.banned_addrs.push(b);
    assert_eq!(
        out,
        vec![
            send(a, ServerMsg::BanConfirm { addr: b }),
            send(b, ServerMsg::BanConfirm { addr: b }),
            send(c, ServerMsg::BanConfirm { addr: b }),
            Action::SaveRoom { room: banned_room },
            Action::Close { addr: b },
            send(a, ServerMsg::UserLeft { addr: b }),
            send(c, ServerMsg::UserLeft { addr: b }),
        ]
    );
    assert_eq!(server.peer_state(b), PeerState::Terminated);
    assert_eq!(server.room().banned_addrs, vec![b]);
    // what the banned peer still sends is dropped, and it cannot come back
    assert_eq!(server.handle_message(b, frame(say("r1", b, "hey"), None), at(5), &vec![]), vec![]);
    assert!(server.refuses(b));
    assert_eq!(server.accept(b), vec![Action::Close { addr: b }]);
    assert_eq!(server.peer_state(b), PeerState::Terminated);
    assert_eq!(server.disconnect(b), vec![]);
}

#[test]
fn ban_of_an_absent_address_is_recorded() {
    let mut server = ChatServer::new(room("r1", None));
    let (a, ghost) = (peer(1), peer(9));
    server.accept(a);
    server.set_owner_addr(a);
    let out = server.handle_message(a, frame(UserMsg::BanReq { addr: ghost }, None), at(1), &vec![]);
    let mut banned_room = room("r1", None);
    banned_room.banned_addrs.push(ghost);
    assert_eq!(
        out,
        vec![send(a, ServerMsg::BanConfirm { addr: ghost }), Action::SaveRoom { room: banned_room }]
    );
    assert_eq!(server.accept(ghost), vec![Action::Close { addr: ghost }]);
}

#[test]
fn room_with_bans_refuses_from_the_start() {
    let mut r = room("r1", None);
    r.banned_addrs.push(peer(7));
    let mut server = ChatServer::new(r);
    assert_eq!(server.accept(peer(7)), vec![Action::Close { addr: peer(7) }]);
    assert_eq!(server.peer_count(), 0);
}

#[test]
fn leave_is_announced_only_for_joined_peers() {
    let mut server = ChatServer::new(room("r1", None));
    let (a, b, c) = (peer(1), peer(2), peer(3));
    server.accept(a);
    server.accept(b);
    server.accept(c);
    server.handle_message(
        b,
        frame(UserMsg::UserJoined { user: user("bob", Color::Blue) }, None),
        at(1),
        &vec![],
    );
    // c synced but never joined
    server.handle_message(
        c,
        frame(UserMsg::SyncReq { user: user("carol", Color::Cyan) }, None),
        at(2),
        &vec![],
    );
    assert_eq!(server.peer_state(c), PeerState::Unauthenticated);
    assert_eq!(server.disconnect(c), vec![]);
    assert_eq!(server.disconnect(b), vec![send(a, ServerMsg::UserLeft { addr: b })]);
    assert_eq!(server.disconnect(b), vec![]);
    assert_eq!(server.peer_count(), 1);
}

#[test]
fn frames_of_host_kind_and_of_strangers_are_dropped() {
    let mut server = ChatServer::new(room("r1", None));
    let a = peer(1);
    server.accept(a);
    let forged = Message::from(ServerMsg::ServerShutdown);
    assert_eq!(server.handle_message(a, forged, at(1), &vec![]), vec![]);
    assert_eq!(server.handle_message(peer(5), frame(say("r1", peer(5), "x"), None), at(1), &vec![]), vec![]);
}

#[test]
fn stop_tells_everyone_before_closing() {
    let mut server = ChatServer::new(room("r1", None));
    let (a, b) = (peer(1), peer(2));
    server.accept(a);
    server.accept(b);
    let out = server.stop();
    assert_eq!(
        out,
        vec![
            send(a, ServerMsg::ServerShutdown),
            send(b, ServerMsg::ServerShutdown),
            Action::Wait { millis: 500 },
            Action::Close { addr: a },
            Action::Close { addr: b },
        ]
    );
    assert_eq!(SHUTDOWN_GRACE_MILLIS, 500);
    assert!(server.is_stopped());
    assert_eq!(server.peer_count(), 0);
    assert_eq!(server.stop(), vec![]);
    assert_eq!(server.accept(peer(3)), vec![Action::Close { addr: peer(3) }]);
}

#[test]
fn sync_lists_only_peers_that_joined() {
    let mut server = ChatServer::new(room("r1", None));
    let (a, b, c) = (peer(1), peer(2), peer(3));
    server.accept(a);
    server.accept(b);
    server.accept(c);
    // a has only asked for the history; b has joined
    server.handle_message(
        a,
        frame(UserMsg::SyncReq { user: user("alice", Color::Red) }, None),
        at(1),
        &vec![],
    );
    server.handle_message(
        b,
        frame(UserMsg::UserJoined { user: user("bob", Color::Blue) }, None),
        at(2),
        &vec![],
    );
    let out = server.handle_message(
        c,
        frame(UserMsg::SyncReq { user: user("carol", Color::Cyan) }, None),
        at(3),
        &vec![],
    );
    let bob_seen = User { id: "bob".to_string(), addr: Some(b), color: Color::Blue };
    assert_eq!(
        out,
        vec![send(
            c,
            ServerMsg::Sync {
                user_addr: c,
                room_id: "r1".to_string(),
                messages: vec![],
                users: vec![bob_seen],
            }
        )]
    );
}

#[test]
fn frame_that_does_not_decode_is_dropped() {
    let mut server = ChatServer::new(room("r1", None));
    let (a, b) = (peer(1), peer(2));
    server.accept(a);
    server.accept(b);
    server.handle_message(
        a,
        frame(UserMsg::UserJoined { user: user("alice", Color::Red) }, None),
        at(1),
        &vec![],
    );
    assert_eq!(server.handle_frame(a, None, at(2), &vec![]), vec![]);
    assert_eq!(server.peer_state(a), PeerState::Joined);
    assert_eq!(server.peer_count(), 2);
    let out = server.handle_frame(a, Some(frame(say("r1", a, "still here"), None)), at(3), &vec![]);
    assert_eq!(out.len(), 2);
}
