use nosignal::network::client::{ChatClient, ClientError, ConnectionState};
use nosignal::network::message::{Message, MessageType, ServerMsg, UserMsg};
use nosignal::network::server::{Action, ChatServer};
use nosignal::network::User;
use nosignal::schema::{Color, PeerAddr, RoomHeader, ServerRoom, TextMessage, Timestamp};

fn header(passwd: Option<&str>) -> RoomHeader {
    RoomHeader {
        _id: String::new(),
        addr: PeerAddr::v4(127, 0, 0, 1, 12345),
        passwd: passwd.map(|p| p.to_string()),
    }
}

fn bob() -> User {
    User { id: "bob".to_string(), addr: None, color: Color::Green }
}

fn connected(passwd: Option<&str>) -> ChatClient {
    let mut client = ChatClient::new(header(passwd), bob());
    client.start_connect();
    client.connect(true).unwrap();
    client
}

/// The frames that `actions` deliver to `to`, in order.
fn frames_for(actions: &[Action], to: PeerAddr) -> Vec<Message> {
    let mut out = Vec::new();
    for a in actions {
        if let Action::Send { to: t, msg } = a {
            if *t == to {
                out.push(msg.clone());
            }
        }
    }
    out
}

#[test]
fn connect_walks_through_the_states() {
    let mut client = ChatClient::new(header(Some("digest")), bob());
    assert_eq!(client.state(), ConnectionState::Disconnected);
    assert!(client.is_ok());
    assert_eq!(client.connect(true), Err(ClientError::NotConnecting));
    assert_eq!(client.start_connect(), Some(PeerAddr::v4(127, 0, 0, 1, 12345)));
    assert_eq!(client.state(), ConnectionState::Connecting);
    assert_eq!(client.start_connect(), None);
    let first = client.connect(true).unwrap();
    assert_eq!(
        first,
        Message::from((UserMsg::UserJoined { user: bob() }, Some("digest".to_string())))
    );
    assert_eq!(client.state(), ConnectionState::Connected);
}

#[test]
fn refused_connection_can_be_tried_again() {
    let mut client = ChatClient::new(header(None), bob());
    client.start_connect();
    assert_eq!(client.connect(false), Err(ClientError::ConnectionRefused));
    assert_eq!(client.state(), ConnectionState::Disconnected);
    assert!(client.is_ok());
    assert!(client.start_connect().is_some());
    assert!(client.connect(true).is_ok());
}

#[test]
fn sending_attaches_the_credential() {
    let idle = ChatClient::new(header(Some("digest")), bob());
    assert_eq!(idle.send_msg(UserMsg::SyncReq { user: bob() }), Ok(None));

    let mut client = connected(None);
    client.set_passwd("digest");
    let target = PeerAddr::v4(10, 0, 0, 1, 80);
    assert_eq!(
        client.ban(&target),
        Ok(Some(Message::from((UserMsg::BanReq { addr: target }, Some("digest".to_string())))))
    );
    client.disconnect();
    assert_eq!(client.ban(&target), Err(ClientError::ChannelClosed));
    assert_eq!(client.send_msg(UserMsg::SyncReq { user: bob() }), Err(ClientError::ChannelClosed));
}

#[test]
fn disconnect_is_idempotent_and_final() {
    let mut client = connected(None);
    client.disconnect();
    assert!(!client.is_ok());
    assert_eq!(client.state(), ConnectionState::Disconnected);
    client.disconnect();
    assert!(!client.is_ok());
    assert_eq!(client.start_connect(), None);
    assert_eq!(client.recv_msg(Some(Message::from(ServerMsg::ServerShutdown))), None);
}

#[test]
fn sync_teaches_the_client_its_address_and_room() {
    let mut client = connected(None);
    let me = PeerAddr::v4(127, 0, 0, 1, 4000);
    let sync = ServerMsg::Sync {
        user_addr: me,
        room_id: "r1".to_string(),
        messages: vec![],
        users: vec![],
    };
    let got = client.recv_msg(Some(Message::from(sync.clone())));
    assert_eq!(got, Some(MessageType::Server(sync)));
    assert_eq!(client.user().addr, Some(me));
    assert_eq!(client.room()._id, "r1");
    assert!(client.is_ok());
}

#[test]
fn polling_nothing_yields_nothing() {
    let mut idle = ChatClient::new(header(None), bob());
    assert_eq!(idle.recv_msg(Some(Message::from(ServerMsg::AuthFailure))), None);
    assert!(idle.is_ok());
    let mut client = connected(None);
    assert_eq!(client.recv_msg(None), None);
    assert_eq!(client.state(), ConnectionState::Connected);
}

#[test]
fn fatal_frames_end_the_session() {
    for fatal in [ServerMsg::AuthFailure, ServerMsg::ServerShutdown] {
        let mut client = connected(None);
        let got = client.recv_msg(Some(Message::from(fatal.clone())));
        assert_eq!(got, Some(MessageType::Server(fatal)));
        assert!(!client.is_ok());
        assert_eq!(client.recv_msg(Some(Message::from(ServerMsg::AuthFailure))), None);
    }
}

#[test]
fn ban_of_another_peer_does_not_end_the_session() {
    let mut client = connected(None);
    let me = PeerAddr::v4(127, 0, 0, 1, 4000);
    let other = PeerAddr::v4(127, 0, 0, 1, 4001);
    // before the client knows its own address no ban is its own
    client.recv_msg(Some(Message::from(ServerMsg::BanConfirm { addr: me })));
    assert!(client.is_ok());
    client.recv_msg(Some(Message::from(ServerMsg::Sync {
        user_addr: me,
        room_id: "r1".to_string(),
        messages: vec![],
        users: vec![],
    })));
    client.recv_msg(Some(Message::from(ServerMsg::BanConfirm { addr: other })));
    assert!(client.is_ok());
    client.recv_msg(Some(Message::from(ServerMsg::BanConfirm { addr: me })));
    assert!(!client.is_ok());
}

#[test]
fn banned_peer_sees_the_ban_then_nothing_and_cannot_return() {
    let room = ServerRoom {
        _id: "r1".to_string(),
        addr: PeerAddr::v4(127, 0, 0, 1, 12345),
        passwd: None,
        banned_addrs: vec![],
    };
    let mut server = ChatServer::new(room);
    let (a, b) = (PeerAddr::v4(127, 0, 0, 1, 1), PeerAddr::v4(127, 0, 0, 1, 2));
    let mut bobs = connected(None);
    server.accept(a);
    server.accept(b);
    server.set_owner_addr(a);
    let out = server.handle_message(
        b,
        bobs.send_msg(UserMsg::SyncReq { user: bob() }).unwrap().unwrap(),
        Timestamp { secs: 1, nanos: 0 },
        &vec![],
    );
    for f in frames_for(&out, b) {
        bobs.recv_msg(Some(f));
    }
    assert_eq!(bobs.user().addr, Some(b));
    let out = server.handle_message(
        a,
        Message::from((UserMsg::BanReq { addr: b }, None)),
        Timestamp { secs: 2, nanos: 0 },
        &vec![],
    );
    let for_a = frames_for(&out, a);
    let for_b = frames_for(&out, b);
    assert_eq!(for_a, vec![Message::from(ServerMsg::BanConfirm { addr: b })]);
    assert_eq!(for_b, vec![Message::from(ServerMsg::BanConfirm { addr: b })]);
    assert_eq!(
        bobs.recv_msg(Some(for_b[0].clone())),
        Some(MessageType::Server(ServerMsg::BanConfirm { addr: b }))
    );
    assert!(!bobs.is_ok());
    assert_eq!(bobs.recv_msg(None), None);
    assert_eq!(server.accept(b), vec![Action::Close { addr: b }]);
}

#[test]
fn messages_sending() {
    let passwd = String::from("password");
    let room = ServerRoom {
        _id: "firstroom".into(),
        addr: PeerAddr::v4(127, 0, 0, 1, 12345),
        passwd: Some(passwd),
        banned_addrs: vec![],
    };
    let header = room.room_header();
    let user = User { id: "user1".into(), addr: None, color: Color::LightRed };
    let user2 = User { id: "user2".into(), addr: None, color: Color::LightGreen };
    let (addr1, addr2) = (PeerAddr::v4(127, 0, 0, 1, 50001), PeerAddr::v4(127, 0, 0, 1, 50002));
    let mut history: Vec<TextMessage> = Vec::new();
    let mut clock = 0u64;
    let mut now = || {
        clock += 1;
        Timestamp { secs: clock, nanos: 0 }
    };

    let mut server = ChatServer::new(room);
    let mut client = ChatClient::new(header.clone(), user);
    client.start_connect().unwrap();
    let mut inbox1 = frames_for(&server.accept(addr1), addr1);
    let joined = client.connect(true).unwrap();
    let out = server.handle_message(addr1, joined, now(), &history);
    assert!(out.is_empty());

    let req = client.send_msg(UserMsg::SyncReq { user: client.user().clone() }).unwrap().unwrap();
    inbox1.extend(frames_for(&server.handle_message(addr1, req, now(), &history), addr1));

    assert!(matches!(
        client.recv_msg(Some(inbox1.remove(0))).unwrap(),
        MessageType::Server(ServerMsg::AuthReq { .. })
    ));
    assert!(matches!(
        client.recv_msg(Some(inbox1.remove(0))).unwrap(),
        MessageType::Server(ServerMsg::Sync { .. })
    ));
    assert_eq!(client.user().addr, Some(addr1));
    assert_eq!(client.room()._id, "firstroom");
    server.set_owner_addr(client.user().addr.unwrap());

    let sended_msg =
        TextMessage::new(&client.user().addr.unwrap(), &client.room()._id, "some short message");
    let mut sended_msg2 = sended_msg.clone();
    let f = client.send_msg(UserMsg::Normal { msg: sended_msg.clone() }).unwrap().unwrap();
    let out = server.handle_message(addr1, f, now(), &history);
    for a in &out {
        if let Action::Persist { msg } = a {
            history.push(msg.clone());
        }
    }
    assert_eq!(history.len(), 1);

    let mut client2 = ChatClient::new(header.clone(), user2);
    client2.start_connect().unwrap();
    let mut inbox2 = frames_for(&server.accept(addr2), addr2);
    let joined2 = client2.connect(true).unwrap();
    let req2 = client2.send_msg(UserMsg::SyncReq { user: client2.user().clone() }).unwrap().unwrap();
    inbox2.extend(frames_for(&server.handle_message(addr2, req2, now(), &history), addr2));
    inbox1.extend(frames_for(&server.handle_message(addr2, joined2, now(), &history), addr1));

    assert!(matches!(
        client2.recv_msg(Some(inbox2.remove(0))).unwrap(),
        MessageType::Server(ServerMsg::AuthReq { .. })
    ));
    if let MessageType::Server(ServerMsg::Sync { messages, users, .. }) =
        client2.recv_msg(Some(inbox2.remove(0))).unwrap()
    {
        assert_eq!(messages[0].room_id, sended_msg.room_id);
        assert_eq!(messages[0].sender_addr, sended_msg.sender_addr);
        assert_eq!(messages[0].content, sended_msg.content);
        assert!(users.iter().any(|user| user == client.user()));
    } else {
        assert!(false);
    }
    assert!(matches!(
        client.recv_msg(Some(inbox1.remove(0))).unwrap(),
        MessageType::User(UserMsg::UserJoined { .. })
    ));

    sended_msg2.sender_addr = client2.user().addr.unwrap();
    let f = client2.send_msg(UserMsg::Normal { msg: sended_msg2.clone() }).unwrap().unwrap();
    inbox1.extend(frames_for(&server.handle_message(addr2, f, now(), &history), addr1));
    let received_msg = client.recv_msg(Some(inbox1.remove(0))).unwrap();
    if let MessageType::User(UserMsg::Normal { msg }) = received_msg {
        assert_eq!(msg.room_id, sended_msg2.room_id);
        assert_eq!(msg.sender_addr, sended_msg2.sender_addr);
        assert_eq!(msg.content, sended_msg2.content);
    } else {
        assert!(false);
    }

    let f = client.ban(&client2.user().addr.unwrap()).unwrap().unwrap();
    inbox1.extend(frames_for(&server.handle_message(addr1, f, now(), &history), addr1));
    assert_eq!(
        client.recv_msg(Some(inbox1.remove(0))).unwrap(),
        MessageType::Server(ServerMsg::BanConfirm { addr: client2.user().addr.unwrap() })
    );
    assert_eq!(
        client.recv_msg(Some(inbox1.remove(0))).unwrap(),
        MessageType::Server(ServerMsg::UserLeft { addr: client2.user().addr.unwrap() })
    );

    inbox1.extend(frames_for(&server.stop(), addr1));
    assert_eq!(
        client.recv_msg(Some(inbox1.remove(0))).unwrap(),
        MessageType::Server(ServerMsg::ServerShutdown)
    );

    client.disconnect();
    client2.disconnect();
    assert_eq!(server.room().banned_addrs, vec![addr2]);
}
