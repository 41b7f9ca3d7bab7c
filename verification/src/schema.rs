//! The records that rooms, peers and messages are made of.

use vstd::prelude::*;
use vstd::string::StringExecFns;

verus! {

/// The address of one end of a connection: an IP address and a port, held as
/// integers. Two peers are the same peer exactly when their addresses are equal.
#[allow(inconsistent_fields)]
#[derive(Clone, Copy, Debug, PartialEq, Eq, Structural, Hash)]
pub enum PeerAddr {
    V4 { ip: u32, port: u16 },
    V6 { ip: u128, port: u16, flowinfo: u32, scope_id: u32 },
}

impl PeerAddr {
    /// The IPv4 address `a.b.c.d` with the given port.
    pub fn v4(a: u8, b: u8, c: u8, d: u8, port: u16) -> (addr: PeerAddr)
        ensures
            addr == (PeerAddr::V4 { ip: ipv4_bits(a, b, c, d) as u32, port }),
            ipv4_bits(a, b, c, d) <= u32::MAX,
    {
        let ip: u32 = (a as u32) * 16777216 + (b as u32) * 65536 + (c as u32) * 256 + (d as u32);
        PeerAddr::V4 { ip, port }
    }
}

/// The four octets of an IPv4 address read as one number in base 256, first
/// octet highest.
pub open spec fn ipv4_bits(a: u8, b: u8, c: u8, d: u8) -> int {
    a * 16777216 + b * 65536 + c * 256 + d
}

/// A point in time as the host's clock gave it: whole seconds since the Unix
/// epoch and the nanoseconds within that second.
#[derive(Clone, Copy, Debug, PartialEq, Eq, Structural, Hash)]
pub struct Timestamp {
    pub secs: u64,
    pub nanos: u32,
}

impl Timestamp {
    /// `self` is not later than `other`.
    pub open spec fn le(self, other: Timestamp) -> bool {
        self.secs < other.secs || (self.secs == other.secs && self.nanos <= other.nanos)
    }

    /// Whether `self` is not later than `other`.
    pub fn not_after(&self, other: &Timestamp) -> (r: bool)
        ensures
            r == self.le(*other),
    {
        self.secs < other.secs || (self.secs == other.secs && self.nanos <= other.nanos)
    }
}

/// The colour in which a user's name is shown.
#[derive(Clone, Copy, Debug, PartialEq, Eq, Structural, Hash)]
pub enum Color {
    Black,
    Red,
    Green,
    Yellow,
    Blue,
    Magenta,
    Cyan,
    Gray,
    DarkGray,
    LightRed,
    LightGreen,
    LightYellow,
    LightBlue,
    LightMagenta,
    LightCyan,
    White,
}

impl Color {
    /// The colour's name: its words in lower case, separated by one space.
    pub open spec fn spec_name(self) -> Seq<char> {
        match self {
            Color::Black => "black"@,
            Color::Red => "red"@,
            Color::Green => "green"@,
            Color::Yellow => "yellow"@,
            Color::Blue => "blue"@,
            Color::Magenta => "magenta"@,
            Color::Cyan => "cyan"@,
            Color::Gray => "gray"@,
            Color::DarkGray => "dark gray"@,
            Color::LightRed => "light red"@,
            Color::LightGreen => "light green"@,
            Color::LightYellow => "light yellow"@,
            Color::LightBlue => "light blue"@,
            Color::LightMagenta => "light magenta"@,
            Color::LightCyan => "light cyan"@,
            Color::White => "white"@,
        }
    }

    /// The colour that bears the name `s`, if there is one.
    pub open spec fn spec_from_name(s: Seq<char>) -> Option<Color> {
        if exists|c: Color| #[trigger] c.spec_name() == s {
            Some(choose|c: Color| #[trigger] c.spec_name() == s)
        } else {
            None
        }
    }

    /// The colour's name as a string slice.
    pub fn name(&self) -> (r: &'static str)
        ensures
            r@ == self.spec_name(),
    {
        match self {
            Color::Black => "black",
            Color::Red => "red",
            Color::Green => "green",
            Color::Yellow => "yellow",
            Color::Blue => "blue",
            Color::Magenta => "magenta",
            Color::Cyan => "cyan",
            Color::Gray => "gray",
            Color::DarkGray => "dark gray",
            Color::LightRed => "light red",
            Color::LightGreen => "light green",
            Color::LightYellow => "light yellow",
            Color::LightBlue => "light blue",
            Color::LightMagenta => "light magenta",
            Color::LightCyan => "light cyan",
            Color::White => "white",
        }
    }

    /// The colour's name as an owned string.
    pub fn to_string(&self) -> (r: String)
        ensures
            r@ == self.spec_name(),
    {
        String::from_str(self.name())
    }

    /// Every colour once, in declaration order.
    pub open spec fn spec_all() -> Seq<Color> {
        seq![
            Color::Black,
            Color::Red,
            Color::Green,
            Color::Yellow,
            Color::Blue,
            Color::Magenta,
            Color::Cyan,
            Color::Gray,
            Color::DarkGray,
            Color::LightRed,
            Color::LightGreen,
            Color::LightYellow,
            Color::LightBlue,
            Color::LightMagenta,
            Color::LightCyan,
            Color::White,
        ]
    }

    /// Every colour once, in declaration order.
    pub fn all() -> (v: Vec<Color>)
        ensures
            v@ == Color::spec_all(),
            forall|c: Color| v@.contains(c),
    {
        let v = vec![
            Color::Black,
            Color::Red,
            Color::Green,
            Color::Yellow,
            Color::Blue,
            Color::Magenta,
            Color::Cyan,
            Color::Gray,
            Color::DarkGray,
            Color::LightRed,
            Color::LightGreen,
            Color::LightYellow,
            Color::LightBlue,
            Color::LightMagenta,
            Color::LightCyan,
            Color::White,
        ];
        assert forall|c: Color| v@.contains(c) by {
            let i: int = match c {
                Color::Black => 0,
                Color::Red => 1,
                Color::Green => 2,
                Color::Yellow => 3,
                Color::Blue => 4,
                Color::Magenta => 5,
                Color::Cyan => 6,
                Color::Gray => 7,
                Color::DarkGray => 8,
                Color::LightRed => 9,
                Color::LightGreen => 10,
                Color::LightYellow => 11,
                Color::LightBlue => 12,
                Color::LightMagenta => 13,
                Color::LightCyan => 14,
                Color::White => 15,
            };
            assert(v@[i] == c);
        }
        assert(v@ =~= Color::spec_all());
        v
    }

    /// Reads a colour from its name. Any other text gives `None`.
    pub fn from_name(s: &str) -> (r: Option<Color>)
        ensures
            r == Color::spec_from_name(s@),
    {
        let wanted = String::from_str(s);
        let all = Color::all();
        let mut i: usize = 0;
        while i < all.len()
            invariant
                i <= all.len(),
                wanted@ == s@,
                forall|c: Color| all@.contains(c),
                forall|j: int| 0 <= j < i ==> (#[trigger] all@[j]).spec_name() != s@,
            decreases all.len() - i,
        {
            let c = all[i];
            if c.to_string() == wanted {
                proof {
                    lemma_color_names_differ();
                }
                return Some(c);
            }
            i += 1;
        }
        proof {
            assert forall|c: Color| c.spec_name() != s@ by {
                assert(all@.contains(c));
                let j = choose|j: int| 0 <= j < all@.len() && all@[j] == c;
                assert(all@[j].spec_name() != s@);
            }
        }
        None
    }
}

/// No two colours share a name.
pub proof fn lemma_color_names_differ()
    ensures
        forall|a: Color, b: Color| #[trigger] a.spec_name() == #[trigger] b.spec_name() ==> a == b,
{
    reveal_strlit("black");
    reveal_strlit("red");
    reveal_strlit("green");
    reveal_strlit("yellow");
    reveal_strlit("blue");
    reveal_strlit("magenta");
    reveal_strlit("cyan");
    reveal_strlit("gray");
    reveal_strlit("dark gray");
    reveal_strlit("light red");
    reveal_strlit("light green");
    reveal_strlit("light yellow");
    reveal_strlit("light blue");
    reveal_strlit("light magenta");
    reveal_strlit("light cyan");
    reveal_strlit("white");
    assert forall|a: Color, b: Color| #[trigger] a.spec_name() == #[trigger] b.spec_name() implies a == b by {
        let x = a.spec_name();
        let y = b.spec_name();
        if a != b {
            if x.len() == y.len() {
                assert(x[0] != y[0] || x[1] != y[1] || x[6] != y[6] || x[7] != y[7]);
            }
        }
    }
}

/// Reading a colour's name gives the colour back.
pub proof fn lemma_color_name_round_trip(c: Color)
    ensures
        Color::spec_from_name(c.spec_name()) == Some(c),
{
    lemma_color_names_differ();
}

/// What an optional string holds, as a sequence of characters.
pub open spec fn opt_text(o: Option<String>) -> Option<Seq<char>> {
    match o {
        Some(s) => Some(s@),
        None => None,
    }
}

/// A copy of an optional string.
pub fn clone_opt_string(o: &Option<String>) -> (r: Option<String>)
    ensures
        r == *o,
{
    match o {
        Some(s) => Some(s.clone()),
        None => None,
    }
}

/// Whether two optional strings hold the same text, or are both absent.
pub fn same_opt_string(a: &Option<String>, b: &Option<String>) -> (r: bool)
    ensures
        r == (opt_text(*a) == opt_text(*b)),
{
    match (a, b) {
        (Some(x), Some(y)) => *x == *y,
        (None, None) => true,
        _ => false,
    }
}

/// A copy of a list of addresses.
pub fn clone_addrs(v: &Vec<PeerAddr>) -> (r: Vec<PeerAddr>)
    ensures
        r@ == v@,
{
    let mut out: Vec<PeerAddr> = Vec::new();
    let mut i: usize = 0;
    while i < v.len()
        invariant
            i <= v.len(),
            out@ == v@.take(i as int),
        decreases v.len() - i,
    {
        out.push(v[i]);
        i += 1;
    }
    out
}

/// Whether `addr` occurs in `v`.
pub fn contains_addr(v: &Vec<PeerAddr>, addr: PeerAddr) -> (r: bool)
    ensures
        r == v@.contains(addr),
{
    let mut i: usize = 0;
    while i < v.len()
        invariant
            i <= v.len(),
            forall|j: int| 0 <= j < i ==> v@[j] != addr,
        decreases v.len() - i,
    {
        if v[i] == addr {
            return true;
        }
        i += 1;
    }
    false
}

/// One chat message: the room it belongs to, who sent it, what it says, and
/// the time the host received it. A message that no host has received yet has
/// no timestamp.
#[derive(Debug, PartialEq, Eq)]
pub struct TextMessage {
    pub room_id: String,
    pub sender_addr: PeerAddr,
    pub content: String,
    pub timestamp: Option<Timestamp>,
}

/// A [`TextMessage`] as plain values.
pub struct TextMessageView {
    pub room_id: Seq<char>,
    pub sender_addr: PeerAddr,
    pub content: Seq<char>,
    pub timestamp: Option<Timestamp>,
}

impl View for TextMessage {
    type V = TextMessageView;

    open spec fn view(&self) -> TextMessageView {
        TextMessageView {
            room_id: self.room_id@,
            sender_addr: self.sender_addr,
            content: self.content@,
            timestamp: self.timestamp,
        }
    }
}

impl Clone for TextMessage {
    fn clone(&self) -> (r: Self)
        ensures
            r == *self,
    {
        TextMessage {
            room_id: self.room_id.clone(),
            sender_addr: self.sender_addr,
            content: self.content.clone(),
            timestamp: self.timestamp,
        }
    }
}

impl TextMessage {
    /// A message from `user_addr` for the room `room_id`, not yet stamped:
    /// only the host assigns the time.
    pub fn new(user_addr: &PeerAddr, room_id: &str, msg: &str) -> (m: Self)
        ensures
            m@ == (TextMessageView {
                room_id: room_id@,
                sender_addr: *user_addr,
                content: msg@,
                timestamp: None,
            }),
    {
        TextMessage {
            room_id: String::from_str(room_id),
            sender_addr: *user_addr,
            content: String::from_str(msg),
            timestamp: None,
        }
    }

    /// The same message with `now` as its timestamp.
    pub open spec fn spec_stamped(m: TextMessageView, now: Timestamp) -> TextMessageView {
        TextMessageView { timestamp: Some(now), ..m }
    }

    /// Replaces the timestamp by `now`.
    pub fn stamped(self, now: Timestamp) -> (m: Self)
        ensures
            m@ == Self::spec_stamped(self@, now),
    {
        TextMessage {
            room_id: self.room_id,
            sender_addr: self.sender_addr,
            content: self.content,
            timestamp: Some(now),
        }
    }
}

/// The messages of a list, each as plain values.
pub open spec fn texts_view(v: Seq<TextMessage>) -> Seq<TextMessageView> {
    v.map_values(|m: TextMessage| m@)
}

/// A copy of a list of messages.
pub fn clone_texts(v: &Vec<TextMessage>) -> (r: Vec<TextMessage>)
    ensures
        texts_view(r@) == texts_view(v@),
{
    let mut out: Vec<TextMessage> = Vec::new();
    let mut i: usize = 0;
    while i < v.len()
        invariant
            i <= v.len(),
            texts_view(out@) == texts_view(v@.take(i as int)),
        decreases v.len() - i,
    {
        let m = v[i].clone();
        proof {
            assert(v@.take(i + 1) =~= v@.take(i as int).push(v@[i as int]));
            assert(texts_view(out@.push(m)) =~= texts_view(out@).push(m@));
            assert(texts_view(v@.take(i as int).push(v@[i as int])) =~= texts_view(
                v@.take(i as int),
            ).push(v@[i as int]@));
        }
        out.push(m);
        i += 1;
    }
    proof {
        assert(v@.take(v.len() as int) =~= v@);
    }
    out
}

/// A room as its host holds it: its id, the address it listens on, the digest
/// of its password if it has one, and the addresses banned from it.
#[derive(Debug, PartialEq, Eq)]
pub struct ServerRoom {
    pub _id: String,
    pub addr: PeerAddr,
    pub passwd: Option<String>,
    pub banned_addrs: Vec<PeerAddr>,
}

/// A [`ServerRoom`] as plain values.
pub struct ServerRoomView {
    pub id: Seq<char>,
    pub addr: PeerAddr,
    pub passwd: Option<Seq<char>>,
    pub banned_addrs: Seq<PeerAddr>,
}

impl View for ServerRoom {
    type V = ServerRoomView;

    open spec fn view(&self) -> ServerRoomView {
        ServerRoomView {
            id: self._id@,
            addr: self.addr,
            passwd: opt_text(self.passwd),
            banned_addrs: self.banned_addrs@,
        }
    }
}

impl Clone for ServerRoom {
    fn clone(&self) -> (r: Self)
        ensures
            r@ == self@,
    {
        ServerRoom {
            _id: self._id.clone(),
            addr: self.addr,
            passwd: clone_opt_string(&self.passwd),
            banned_addrs: clone_addrs(&self.banned_addrs),
        }
    }
}

impl ServerRoom {
    /// What a peer needs to join this room: everything but the ban list.
    pub fn room_header(&self) -> (h: RoomHeader)
        ensures
            h@ == (RoomHeaderView { id: self@.id, addr: self@.addr, passwd: self@.passwd }),
    {
        RoomHeader {
            _id: self._id.clone(),
            addr: self.addr,
            passwd: clone_opt_string(&self.passwd),
        }
    }

    /// Whether `addr` is banned from this room.
    pub fn is_banned(&self, addr: PeerAddr) -> (r: bool)
        ensures
            r == self@.banned_addrs.contains(addr),
    {
        contains_addr(&self.banned_addrs, addr)
    }
}

/// What a peer holds of a room before it has joined: its id (empty until the
/// host has reported it), its address and the digest of its password.
#[derive(Debug, PartialEq, Eq)]
pub struct RoomHeader {
    pub _id: String,
    pub addr: PeerAddr,
    pub passwd: Option<String>,
}

/// A [`RoomHeader`] as plain values.
pub struct RoomHeaderView {
    pub id: Seq<char>,
    pub addr: PeerAddr,
    pub passwd: Option<Seq<char>>,
}

impl View for RoomHeader {
    type V = RoomHeaderView;

    open spec fn view(&self) -> RoomHeaderView {
        RoomHeaderView { id: self._id@, addr: self.addr, passwd: opt_text(self.passwd) }
    }
}

impl Clone for RoomHeader {
    fn clone(&self) -> (r: Self)
        ensures
            r == *self,
    {
        RoomHeader {
            _id: self._id.clone(),
            addr: self.addr,
            passwd: clone_opt_string(&self.passwd),
        }
    }
}

/// Either side's record of a room.
#[derive(Debug, PartialEq, Eq)]
pub enum Room {
    Server(ServerRoom),
    Header(RoomHeader),
}

impl Clone for Room {
    fn clone(&self) -> (r: Self)
        ensures
            match (*self, r) {
                (Room::Server(a), Room::Server(b)) => a@ == b@,
                (Room::Header(a), Room::Header(b)) => a == b,
                _ => false,
            },
    {
        match self {
            Room::Server(room) => Room::Server(room.clone()),
            Room::Header(header) => Room::Header(header.clone()),
        }
    }
}

impl From<ServerRoom> for Room {
    fn from(val: ServerRoom) -> (r: Self) {
        Room::Server(val)
    }
}

impl vstd::std_specs::convert::FromSpecImpl<ServerRoom> for Room {
    open spec fn obeys_from_spec() -> bool {
        true
    }

    open spec fn from_spec(val: ServerRoom) -> Self {
        Room::Server(val)
    }
}

impl From<RoomHeader> for Room {
    fn from(val: RoomHeader) -> (r: Self) {
        Room::Header(val)
    }
}

impl vstd::std_specs::convert::FromSpecImpl<RoomHeader> for Room {
    open spec fn obeys_from_spec() -> bool {
        true
    }

    open spec fn from_spec(val: RoomHeader) -> Self {
        Room::Header(val)
    }
}

/// What one installation remembers between runs.
#[derive(Debug, PartialEq, Eq)]
pub struct LocalData {
    pub id: usize,
    pub user_id: String,
    pub room_addr: PeerAddr,
    pub color: Color,
    pub light_mode: bool,
}

} // verus!
