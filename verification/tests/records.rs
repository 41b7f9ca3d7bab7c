use nosignal::network::message::{Message, MessageType, ServerMsg, UserMsg};
use nosignal::network::registry::PeerRegistry;
use nosignal::network::User;
use nosignal::schema::{Color, PeerAddr, Room, RoomHeader, ServerRoom, TextMessage, Timestamp};

#[test]
fn color_names_are_lower_case_words() {
    assert_eq!(Color::Black.to_string(), "black");
    assert_eq!(Color::DarkGray.to_string(), "dark gray");
    assert_eq!(Color::LightMagenta.to_string(), "light magenta");
    assert_eq!(Color::White.name(), "white");
}

#[test]
fn color_names_read_back() {
    let all = Color::all();
    assert_eq!(all.len(), 16);
    for c in all {
        assert_eq!(Color::from_name(&c.to_string()), Some(c));
    }
    assert_eq!(Color::from_name("light red"), Some(Color::LightRed));
    assert_eq!(Color::from_name("lightred"), None);
    assert_eq!(Color::from_name("Red"), None);
    assert_eq!(Color::from_name(""), None);
}

#[test]
fn ipv4_addresses_pack_their_octets() {
    assert_eq!(PeerAddr::v4(127, 0, 0, 1, 12345), PeerAddr::V4 { ip: 0x7f00_0001, port: 12345 });
    assert_eq!(PeerAddr::v4(1, 2, 3, 4, 0), PeerAddr::V4 { ip: 0x0102_0304, port: 0 });
    assert_ne!(PeerAddr::v4(127, 0, 0, 1, 1), PeerAddr::v4(127, 0, 0, 1, 2));
}

#[test]
fn timestamps_order_by_seconds_then_nanos() {
    let t = |secs, nanos| Timestamp { secs, nanos };
    assert!(t(1, 5).not_after(&t(1, 5)));
    assert!(t(1, 5).not_after(&t(1, 6)));
    assert!(t(1, 999).not_after(&t(2, 0)));
    assert!(!t(2, 0).not_after(&t(1, 999)));
    assert!(!t(1, 6).not_after(&t(1, 5)));
}

#[test]
fn new_text_message_has_no_timestamp_until_stamped() {
    let from = PeerAddr::v4(127, 0, 0, 1, 7);
    let m = TextMessage::new(&from, "r1", "hello");
    assert_eq!(
        m,
        TextMessage {
            room_id: "r1".to_string(),
            sender_addr: from,
            content: "hello".to_string(),
            timestamp: None,
        }
    );
    let s = m.stamped(Timestamp { secs: 3, nanos: 4 });
    assert_eq!(s.timestamp, Some(Timestamp { secs: 3, nanos: 4 }));
    assert_eq!(s.content, "hello");
}

#[test]
fn room_header_drops_the_ban_list() {
    let room = ServerRoom {
        _id: "r1".to_string(),
        addr: PeerAddr::v4(127, 0, 0, 1, 12345),
        passwd: Some("digest".to_string()),
        banned_addrs: vec![PeerAddr::v4(10, 0, 0, 1, 1)],
    };
    let header = room.room_header();
    assert_eq!(
        header,
        RoomHeader {
            _id: "r1".to_string(),
            addr: PeerAddr::v4(127, 0, 0, 1, 12345),
            passwd: Some("digest".to_string()),
        }
    );
    assert!(room.is_banned(PeerAddr::v4(10, 0, 0, 1, 1)));
    assert!(!room.is_banned(PeerAddr::v4(10, 0, 0, 1, 2)));
    assert_eq!(Room::from(header.clone()), Room::Header(header));
    assert_eq!(Room::from(room.clone()), Room::Server(room));
}

#[test]
fn envelopes_are_built_from_their_parts() {
    let a = PeerAddr::v4(127, 0, 0, 1, 1);
    let m = Message::from(ServerMsg::UserLeft { addr: a });
    assert_eq!(m.msg_type, MessageType::Server(ServerMsg::UserLeft { addr: a }));
    assert_eq!(m.passwd, None);
    let m = Message::from((UserMsg::BanReq { addr: a }, Some("d".to_string())));
    assert_eq!(m.msg_type, MessageType::User(UserMsg::BanReq { addr: a }));
    assert_eq!(m.passwd, Some("d".to_string()));
    let m = Message::from((MessageType::Server(ServerMsg::AuthFailure), None));
    assert_eq!(m, Message { msg_type: MessageType::Server(ServerMsg::AuthFailure), passwd: None });
    assert_eq!(m.clone(), m);
}

#[test]
fn registry_keeps_one_entry_per_address() {
    let (a, b, c) =
        (PeerAddr::v4(127, 0, 0, 1, 1), PeerAddr::v4(127, 0, 0, 1, 2), PeerAddr::v4(127, 0, 0, 1, 3));
    let mut reg = PeerRegistry::new();
    reg.enroll(a);
    reg.enroll(b);
    reg.enroll(c);
    reg.enroll(a);
    assert_eq!(reg.len(), 3);
    assert_eq!(reg.recipients(None), vec![b, c, a]);
    assert_eq!(reg.recipients(Some(c)), vec![b, a]);
    let bob = User { id: "bob".to_string(), addr: Some(b), color: Color::Blue };
    reg.bind(b, bob.clone(), false);
    assert!(!reg.is_joined(b));
    assert_eq!(reg.users_except(a), vec![]);
    reg.bind(b, bob.clone(), true);
    assert!(reg.is_joined(b));
    reg.bind(b, bob.clone(), false);
    assert!(reg.is_joined(b));
    assert_eq!(reg.users_except(a), vec![bob.clone()]);
    assert_eq!(reg.users_except(b), vec![]);
    reg.remove(b);
    assert!(!reg.contains(b));
    assert!(reg.contains(a));
    assert_eq!(reg.recipients(None), vec![c, a]);
    reg.clear();
    assert_eq!(reg.len(), 0);
}
