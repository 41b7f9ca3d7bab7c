//! What a user can ask of the program, and the decisions that the
//! bookkeeping of rooms and settings comes down to.
//!
//! The store is not touched here: each function takes what the store
//! answered and says what follows from it.

use crate::error::AppError;
use crate::schema::{
    opt_text, Color, PeerAddr, Room, RoomHeader, RoomHeaderView, ServerRoom, ServerRoomView,
};
use vstd::prelude::*;
use vstd::string::StringExecFns;

verus! {

/// A room named by its id, or reached by its address.
#[derive(Debug, PartialEq, Eq)]
pub enum IdOrAddr {
    Id(String),
    Addr(String),
}

/// One command of the user.
#[derive(Debug, PartialEq, Eq)]
pub enum CommandRequest {
    Create { room_id: String, password: bool },
    Join { id_or_address: IdOrAddr },
    Delete { room_id: String },
    SetOption { option: String, value: String },
    List,
    Invalid,
}

impl IdOrAddr {
    /// Reads the argument of `join`: `is_addr` says whether `text` is written
    /// as a socket address.
    pub fn classify(text: String, is_addr: bool) -> (r: IdOrAddr)
        ensures
            r == if is_addr {
                IdOrAddr::Addr(text)
            } else {
                IdOrAddr::Id(text)
            },
    {
        if is_addr {
            IdOrAddr::Addr(text)
        } else {
            IdOrAddr::Id(text)
        }
    }
}

/// One setting with its new value.
#[derive(Debug, PartialEq, Eq)]
pub enum Setting {
    Username(String),
    ListenerAddr(String),
    Color(Color),
    LightMode(bool),
}

/// A [`Setting`] as plain values.
pub enum SettingView {
    Username(Seq<char>),
    ListenerAddr(Seq<char>),
    Color(Color),
    LightMode(bool),
}

impl View for Setting {
    type V = SettingView;

    open spec fn view(&self) -> SettingView {
        match *self {
            Setting::Username(v) => SettingView::Username(v@),
            Setting::ListenerAddr(v) => SettingView::ListenerAddr(v@),
            Setting::Color(c) => SettingView::Color(c),
            Setting::LightMode(b) => SettingView::LightMode(b),
        }
    }
}

/// What `set option value` means: the user name takes any text, the listener
/// address one written as a socket address, the colour a colour's name, the
/// light mode `true` or `false`. There is no other option.
pub open spec fn spec_parse_setting(option: Seq<char>, value: Seq<char>, value_is_addr: bool)
    -> Option<SettingView> {
    if option == "username"@ {
        Some(SettingView::Username(value))
    } else if option == "listener_addr"@ {
        if value_is_addr {
            Some(SettingView::ListenerAddr(value))
        } else {
            None
        }
    } else if option == "color"@ {
        match Color::spec_from_name(value) {
            Some(c) => Some(SettingView::Color(c)),
            None => None,
        }
    } else if option == "light_mode"@ {
        if value == "true"@ {
            Some(SettingView::LightMode(true))
        } else if value == "false"@ {
            Some(SettingView::LightMode(false))
        } else {
            None
        }
    } else {
        None
    }
}

/// Whether `a` and `b` are the same text.
fn same_text(a: &str, b: &str) -> (r: bool)
    ensures
        r == (a@ == b@),
{
    String::from_str(a) == String::from_str(b)
}

/// Reads `set option value`; `value_is_addr` says whether `value` is written
/// as a socket address. What does not make a setting is an invalid argument.
pub fn parse_setting(option: &str, value: &str, value_is_addr: bool) -> (r: Result<
    Setting,
    AppError,
>)
    ensures
        match r {
            Ok(setting) => spec_parse_setting(option@, value@, value_is_addr) == Some(setting@),
            Err(e) => e == AppError::InvalidArgument && spec_parse_setting(
                option@,
                value@,
                value_is_addr,
            ) is None,
        },
{
    if same_text(option, "username") {
        Ok(Setting::Username(String::from_str(value)))
    } else if same_text(option, "listener_addr") {
        if value_is_addr {
            Ok(Setting::ListenerAddr(String::from_str(value)))
        } else {
            Err(AppError::InvalidArgument)
        }
    } else if same_text(option, "color") {
        match Color::from_name(value) {
            Some(c) => Ok(Setting::Color(c)),
            None => Err(AppError::InvalidArgument),
        }
    } else if same_text(option, "light_mode") {
        if same_text(value, "true") {
            Ok(Setting::LightMode(true))
        } else if same_text(value, "false") {
            Ok(Setting::LightMode(false))
        } else {
            Err(AppError::InvalidArgument)
        }
    } else {
        Err(AppError::InvalidArgument)
    }
}

/// The room to create under `room_id`. `taken` says whether the store holds
/// a room of that id already; `listener_addr` is the address from the stored
/// settings, if the store holds any; `passwd` is the digest of the password,
/// if the room is to have one.
pub fn new_room(
    taken: bool,
    listener_addr: Option<PeerAddr>,
    room_id: &str,
    passwd: Option<String>,
) -> (r: Result<ServerRoom, AppError>)
    ensures
        match r {
            Ok(room) => !taken && listener_addr is Some && room@ == (ServerRoomView {
                id: room_id@,
                addr: listener_addr.unwrap(),
                passwd: opt_text(passwd),
                banned_addrs: Seq::<PeerAddr>::empty(),
            }),
            Err(e) => if taken {
                e == AppError::AlreadyExistingId
            } else {
                listener_addr is None && e == AppError::DataNotFound
            },
        },
{
    if taken {
        return Err(AppError::AlreadyExistingId);
    }
    match listener_addr {
        None => Err(AppError::DataNotFound),
        Some(addr) => Ok(
            ServerRoom { _id: String::from_str(room_id), addr, passwd, banned_addrs: Vec::new() },
        ),
    }
}

/// Whether a deletion found anything: a room, or failing that, messages of
/// one. `messages_deleted` counts only where no room was deleted.
pub fn deletion_outcome(rooms_deleted: u64, messages_deleted: u64) -> (r: Result<(), AppError>)
    ensures
        r is Ok <==> (rooms_deleted > 0 || messages_deleted > 0),
        r is Err ==> r == Err::<(), AppError>(AppError::NotExistingId),
{
    if rooms_deleted > 0 || messages_deleted > 0 {
        Ok(())
    } else {
        Err(AppError::NotExistingId)
    }
}

/// The room to join under an id: the one hosted here if there is one, else
/// the one known as a guest, else none.
pub fn find_room(hosted: Option<ServerRoom>, known: Option<RoomHeader>) -> (r: Result<
    Room,
    AppError,
>)
    ensures
        match (hosted, known) {
            (Some(room), _) => r == Ok::<Room, AppError>(Room::Server(room)),
            (None, Some(header)) => r == Ok::<Room, AppError>(Room::Header(header)),
            (None, None) => r == Err::<Room, AppError>(AppError::NotExistingId),
        },
{
    match hosted {
        Some(room) => Ok(Room::Server(room)),
        None => match known {
            Some(header) => Ok(Room::Header(header)),
            None => Err(AppError::NotExistingId),
        },
    }
}

/// The header under which a room reached by its bare address is joined: no
/// id yet, no password yet.
pub fn header_for_addr(addr: PeerAddr) -> (h: RoomHeader)
    ensures
        h@ == (RoomHeaderView {
            id: Seq::<char>::empty(),
            addr,
            passwd: None,
        }),
{
    RoomHeader { _id: String::new(), addr, passwd: None }
}

} // verus!
