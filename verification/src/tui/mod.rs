//! What the chat screen decides, apart from drawing it: which text is a
//! command, who is in the room, what to tell the user, which line is
//! selected.

pub mod chat_app;
pub mod command;
pub mod ui;
