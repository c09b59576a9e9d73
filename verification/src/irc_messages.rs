//! Typed forms of the messages that the server sends.

use vstd::prelude::*;

verus! {

/// The tags that the server attaches to a chat message, each as the text
/// that it came with.
#[derive(Debug, Clone)]
pub struct Privmsg {
    pub turbo: String,
    pub display_name: String,
    pub id: String,
    pub flags: String,
    pub badge_info: String,
    pub emotes: String,
    pub tmi_sent_ts: String,
    pub badges: String,
    pub subscriber: String,
    pub _mod: String,
    pub user_id: String,
    pub user_type: String,
    pub colour: String,
    pub room_id: String,
}

/// A notice from the server.
pub struct Notice;

} // verus!
