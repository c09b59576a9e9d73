//! Connection, liveness and parsing core of a Twitch IRC chat client.

pub mod chat_laws;
pub mod classify;
pub mod clock;
pub mod irc_messages;
pub mod session;
pub mod session_laws;
pub mod supervisor;
pub mod tag_laws;
pub mod tags;
pub mod text;
pub mod text_laws;
