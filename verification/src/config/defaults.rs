//! What a setting is where the file does not say.
//!
//! A table that is left out altogether and a table that is written without its settings come out
//! the same, because both go by the functions here.

use vstd::prelude::*;
use vstd::string::*;

use crate::config::file::{
    FileBridge, FileChannels, FileDefaultPolicy, FileLog, FileMcp,
    FileSession, FileStorage,
};
use crate::config::{LogFormat, McpTransport, Permission, TelegramParseMode};
use crate::store::Policy;
use crate::time::Duration;

verus! {

/// Where `meka serve` listens.
pub fn default_meka_base_url() -> (url: String)
    ensures
        url@ == "http://127.0.0.1:8080"@,
{
    "http://127.0.0.1:8080".to_owned()
}

/// Ten seconds to connect.
pub fn default_connect_timeout() -> (span: Duration)
    ensures
        span.whole() == 10 && span.beyond() == 0,
{
    Duration::from_secs(10)
}

/// Half an hour for one turn.
pub fn default_turn_timeout() -> (span: Duration)
    ensures
        span.whole() == 30 * 60 && span.beyond() == 0,
{
    Duration::from_secs(1800)
}

/// Three attempts against retryable failures.
pub fn default_max_retries() -> (retries: u32)
    ensures
        retries == 3,
{
    3
}

/// The lowest permission level that still works.
pub fn default_permission() -> (permission: Permission)
    ensures
        permission == Permission::Read,
{
    Permission::Read
}

/// Settings that are on unless switched off.
pub fn default_true() -> (on: bool)
    ensures
        on,
{
    true
}

/// How many messages may wait.
pub fn default_max_queue_depth() -> (depth: usize)
    ensures
        depth == 256,
{
    256
}

/// Long enough for the gap between sentences. It only applies where the platform reports typing, so
/// the wait ends when the person stops rather than when this expires.
pub fn default_settle() -> (span: Duration)
    ensures
        span.whole() == 3 && span.beyond() == 0,
{
    Duration::from_secs(3)
}

/// Long enough for a considered paragraph, short enough that a compose box somebody opened and
/// walked away from does not strand a message for a minute.
pub fn default_settle_max() -> (span: Duration)
    ensures
        span.whole() == 30 && span.beyond() == 0,
{
    Duration::from_secs(30)
}

/// How many messages make a batch at most.
pub fn default_batch_max_messages() -> (messages: usize)
    ensures
        messages == 32,
{
    32
}

/// Four attempts in all, spaced 10s, 20s and 40s apart, so a batch survives a little over a minute
/// of an upstream being unavailable.
pub fn default_turn_retries() -> (retries: u32)
    ensures
        retries == 3,
{
    3
}

/// Streamable HTTP.
pub fn default_mcp_transport() -> (transport: McpTransport)
    ensures
        transport == McpTransport::Http,
{
    McpTransport::Http
}

/// Loopback only.
pub fn default_mcp_bind() -> (bind: String)
    ensures
        bind@ == "127.0.0.1:9100"@,
{
    "127.0.0.1:9100".to_owned()
}

/// Where the MCP endpoint is served.
pub fn default_mcp_path() -> (path: String)
    ensures
        path@ == "/mcp"@,
{
    "/mcp".to_owned()
}

/// Twenty mebibytes.
pub fn default_attachment_max_bytes() -> (bytes: u64)
    ensures
        bytes == 20 * 1024 * 1024,
{
    20_971_520
}

/// Thirty days.
pub fn default_attachment_retention() -> (span: Duration)
    ensures
        span.whole() == 30 * 24 * 60 * 60 && span.beyond() == 0,
{
    Duration::from_secs(2_592_000)
}

/// Matches [`default_attachment_retention`], so a message and the picture attached to it fall out
/// of reach together rather than leaving the agent a description of a file it can no longer open.
pub fn default_history_retention() -> (span: Duration)
    ensures
        span.whole() == 30 * 24 * 60 * 60 && span.beyond() == 0,
{
    Duration::from_secs(2_592_000)
}

/// In a one-to-one chat every message is addressed to the agent, so anything but `active` would
/// silence it against the only person talking to it.
pub fn default_direct_policy() -> (policy: Policy)
    ensures
        policy == Policy::Active,
{
    Policy::Active
}

/// Groups and channels default to mention-only, which is how a person configures a busy room on
/// their own phone. The agent still receives and records everything said there; it is woken for
/// what is addressed to it, and can read the rest when it needs to.
pub fn default_group_policy() -> (policy: Policy)
    ensures
        policy == Policy::Mute,
{
    Policy::Mute
}

/// Enough to make sense of "what do you think about that?" without paying a tool round trip for the
/// antecedent, which costs a whole model call.
pub fn default_mute_context() -> (messages: usize)
    ensures
        messages == 5,
{
    5
}

/// Informational messages and above.
pub fn default_log_level() -> (level: String)
    ensures
        level@ == "info"@,
{
    "info".to_owned()
}

/// Lines of text.
pub fn default_log_format() -> (format: LogFormat)
    ensures
        format == LogFormat::Text,
{
    LogFormat::Text
}

/// Off by default. The agent cites links as references far more often than it makes one the subject
/// of a message, and a card on each part of a split answer is noise.
pub fn default_link_preview() -> (on: bool)
    ensures
        !on,
{
    false
}

/// Rendered rather than verbatim.
pub fn default_telegram_parse_mode() -> (mode: TelegramParseMode)
    ensures
        mode == TelegramParseMode::Html,
{
    TelegramParseMode::Html
}

/// Thirty seconds for one long poll.
pub fn default_poll_timeout() -> (span: Duration)
    ensures
        span.whole() == 30 && span.beyond() == 0,
{
    Duration::from_secs(30)
}

impl Default for FileSession {
    fn default() -> (table: Self)
        ensures
            table.cwd is None,
            table.permission == Permission::Read,
            table.recreate_on_missing,
    {
        FileSession {
            cwd: None,
            permission: default_permission(),
            recreate_on_missing: default_true(),
        }
    }
}

impl Default for FileStorage {
    fn default() -> (table: Self)
        ensures
            table.path is None,
            table.attachment_dir is None,
            table.attachment_max_bytes == 20 * 1024 * 1024,
            table.attachment_retention.whole() == 30 * 24 * 60 * 60,
            table.attachment_retention.beyond() == 0,
            table.history_retention.whole() == 30 * 24 * 60 * 60,
            table.history_retention.beyond() == 0,
    {
        FileStorage {
            path: None,
            attachment_dir: None,
            attachment_max_bytes: default_attachment_max_bytes(),
            attachment_retention: default_attachment_retention(),
            history_retention: default_history_retention(),
        }
    }
}

/// The policies of a file that sets none.
pub open spec fn stock_policy() -> FileDefaultPolicy {
    FileDefaultPolicy { direct: Policy::Active, group: Policy::Mute, channel: Policy::Mute }
}

/// Whether a `[bridge]` table is that of a file that sets nothing in it.
pub open spec fn stock_bridge(table: FileBridge) -> bool {
    &&& table.owner_conversation is None
    &&& table.max_queue_depth == 256
    &&& table.batch_max_messages == 32
    &&& table.settle.whole() == 3 && table.settle.beyond() == 0
    &&& table.settle_max.whole() == 30 && table.settle_max.beyond() == 0
    &&& table.turn_retries == 3
    &&& table.notify_failures
    &&& table.typing_indicator
    &&& table.typing_max is None
    &&& table.default_policy == stock_policy()
    &&& table.mute_context == 5
}

impl Default for FileBridge {
    fn default() -> (table: Self)
        ensures
            stock_bridge(table),
    {
        FileBridge {
            owner_conversation: None,
            max_queue_depth: default_max_queue_depth(),
            batch_max_messages: default_batch_max_messages(),
            settle: default_settle(),
            settle_max: default_settle_max(),
            turn_retries: default_turn_retries(),
            notify_failures: default_true(),
            typing_indicator: default_true(),
            typing_max: None,
            default_policy: FileDefaultPolicy::default(),
            mute_context: default_mute_context(),
        }
    }
}

/// A `[bridge]` table that sets nothing is accepted, and nothing is said of it.
pub proof fn the_stock_bridge_is_accepted(table: FileBridge)
    requires
        stock_bridge(table),
    ensures
        crate::config::file::bridge_refusal(table) is None,
        crate::config::file::policy_warnings(table.default_policy).len() == 0,
{
}

impl Default for FileDefaultPolicy {
    fn default() -> (table: Self)
        ensures
            table == stock_policy(),
    {
        FileDefaultPolicy {
            direct: default_direct_policy(),
            group: default_group_policy(),
            channel: default_group_policy(),
        }
    }
}

impl Default for FileMcp {
    fn default() -> (table: Self)
        ensures
            table.transport == McpTransport::Http,
            table.bind@ == "127.0.0.1:9100"@,
            table.path@ == "/mcp"@,
            table.token is None,
            table.token_file is None,
            table.allowed_hosts@.len() == 0,
            table.health,
    {
        FileMcp {
            transport: default_mcp_transport(),
            bind: default_mcp_bind(),
            path: default_mcp_path(),
            token: None,
            token_file: None,
            allowed_hosts: Vec::new(),
            health: default_true(),
        }
    }
}

impl Default for FileLog {
    fn default() -> (table: Self)
        ensures
            table.level@ == "info"@,
            table.format == LogFormat::Text,
    {
        FileLog { level: default_log_level(), format: default_log_format() }
    }
}

impl Default for FileChannels {
    fn default() -> (table: Self)
        ensures
            table.telegram@.len() == 0,
            table.discord@.len() == 0,
    {
        FileChannels { telegram: Vec::new(), discord: Vec::new() }
    }
}

} // verus!
