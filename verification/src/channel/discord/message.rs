//! What Discord says of a message.

use vstd::prelude::*;

verus! {

/// An account.
#[derive(Debug)]
pub struct Author {
    pub id: u64,
    pub name: String,
    pub global_name: Option<String>,
    pub bot: bool,
}

/// What a message says of its author's membership of the server.
#[derive(Debug)]
pub struct AuthorMember {
    pub nick: Option<String>,
    pub roles: Vec<u64>,
}

/// Somebody whom a message names.
#[derive(Debug)]
pub struct Mention {
    pub id: u64,
    pub name: String,
    pub nick: Option<String>,
}

/// A sticker.
#[derive(Debug)]
pub struct Sticker {
    pub name: String,
    /// Whether it is in the animated format that cannot be viewed.
    pub lottie: bool,
}

/// A message inside a forward, which deliberately excludes its author.
#[derive(Debug)]
pub struct Snapshot {
    pub content: String,
    pub mentions: Vec<Mention>,
}

/// A file on a message.
#[derive(Debug)]
pub struct MessageFile {
    pub id: u64,
    pub filename: String,
    pub content_type: Option<String>,
    pub size: u64,
    /// Whether Discord says how long it plays.
    pub timed: bool,
    /// Whether it carries the waveform a voice recorder produces.
    pub waveform: bool,
    /// Where it can be downloaded for a while.
    pub url: String,
}

/// The message that a message replies to.
#[derive(Debug)]
pub struct Replied {
    pub id: u64,
    pub author: Author,
    pub content: String,
    pub mentions: Vec<Mention>,
    pub guild_id: Option<u64>,
}

/// What kind of message it is.
#[derive(Debug, Clone, Copy, PartialEq, Eq, Structural)]
pub enum MessageType {
    Regular,
    Reply,
    ThreadStarterMessage,
    /// Discord talking rather than a person: joins, pins, boosts and the rest.
    Notice,
}

/// A message.
#[derive(Debug)]
pub struct Message {
    pub id: u64,
    pub channel_id: u64,
    pub guild_id: Option<u64>,
    pub author: Author,
    pub member: Option<AuthorMember>,
    pub kind: MessageType,
    pub content: String,
    pub mentions: Vec<Mention>,
    pub attachments: Vec<MessageFile>,
    pub stickers: Vec<Sticker>,
    pub has_poll: bool,
    pub snapshots: Vec<Snapshot>,
    pub referenced_message: Option<Replied>,
    /// The message replied to, where Discord names one.
    pub reference_id: Option<u64>,
    /// When it was written, in microseconds since 1970.
    pub timestamp: i64,
    /// When it was last edited, in microseconds since 1970.
    pub edited_timestamp: Option<i64>,
    /// Whether a webhook posted it.
    pub via_webhook: bool,
}

} // verus!
