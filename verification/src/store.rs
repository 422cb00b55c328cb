//! What is recorded of a conversation.

use vstd::prelude::*;
use vstd::string::*;

use crate::time::Instant;

verus! {

/// How much of a conversation reaches the agent.
#[derive(Clone, Copy, Debug, PartialEq, Eq, Structural)]
pub enum Policy {
    /// Every message is handed to the agent.
    Active,
    /// Every message is recorded, and those addressed to the agent wake it.
    Mute,
    /// Nothing reaches the agent.
    Block,
}

/// The name a policy goes by.
pub open spec fn policy_name(policy: Policy) -> Seq<char> {
    match policy {
        Policy::Active => "active"@,
        Policy::Mute => "mute"@,
        Policy::Block => "block"@,
    }
}

impl Policy {
    /// The name this policy goes by.
    pub fn as_str(self) -> (name: &'static str)
        ensures
            name@ == policy_name(self),
    {
        match self {
            Policy::Active => "active",
            Policy::Mute => "mute",
            Policy::Block => "block",
        }
    }
}

/// How many messages the queue holds, by what has become of them.
#[derive(Clone, Copy, Debug, PartialEq, Eq, Structural)]
pub struct QueueStats {
    pub pending: u64,
    pub in_flight: u64,
    pub done: u64,
    pub failed: u64,
}

/// A message waiting to be delivered.
#[derive(Debug)]
pub struct PendingMessage {
    pub seq: i64,
    pub conversation_id: String,
    pub attempts: u32,
    pub received_at: Instant,
}

/// A conversation that something was said in.
#[derive(Debug)]
pub struct ConversationRecord {
    pub id: String,
    pub kind: String,
    pub title: Option<String>,
    pub last_inbound_at: Option<Instant>,
}

/// A policy that somebody gave one conversation.
#[derive(Debug)]
pub struct PolicyRecord {
    pub conversation_id: String,
    pub policy: Policy,
    pub until: Option<Instant>,
    /// How many messages a block threw away.
    pub dropped: u64,
    pub reason: Option<String>,
}

/// A recorded message.
#[derive(Debug)]
pub struct HistoryRecord {
    pub timestamp: Instant,
    pub sender_name: String,
    pub text: String,
    pub addressed: bool,
    /// Whether the agent was shown it.
    pub seen: bool,
    /// Whether the agent sent it.
    pub own: bool,
    pub deleted_at: Option<Instant>,
    pub superseded_at: Option<Instant>,
}

} // verus!
