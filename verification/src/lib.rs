//! A room-based chat protocol engine.
//!
//! One host serves one room: it admits peers, checks the room credential on
//! what they send, and fans out messages, joins, leaves and bans. A client
//! keeps one peer's view of a room. Both are written as state machines over
//! plain values: each step takes the current state and one event and yields
//! the next state together with the frames to deliver and the records to
//! store. The transport, the store and the terminal live outside.

pub mod error;
pub mod network;
pub mod request;
pub mod schema;
pub mod tui;
pub mod util;
