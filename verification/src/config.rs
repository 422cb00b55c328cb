//! Configuration: the on-disk TOML shape, and the validated form the rest of the program uses.
//!
//! The two are deliberately different types. Everything in [`file`] is the raw table as it was
//! written; the types here are what you get after credentials are resolved, paths are expanded, and
//! cross-field invariants are checked. Downstream code therefore never has to ask "was this
//! validated yet", and validation errors all surface at startup instead of at the first inbound
//! message.

use vstd::prelude::*;
use vstd::string::*;

use crate::channel::ChatKind;
use crate::config::secret::Secret;
use crate::error::{BridgeError, BridgeErrorView, Result};
use crate::paths;
use crate::store::Policy;
use crate::text;
use crate::time::Duration;

pub mod defaults;
pub mod file;
pub mod laws;
pub mod secret;

verus! {

/// Validated configuration.
pub struct Config {
    pub meka: MekaConfig,
    pub session: SessionConfig,
    pub bridge: BridgeConfig,
    pub mcp: McpConfig,
    pub storage: StorageConfig,
    pub log: LogConfig,
    pub channels: Vec<ChannelConfig>,
    /// Advisories collected while resolving. Configuration is parsed before the tracing subscriber
    /// exists, so these are replayed by the caller once logging is up.
    pub warnings: Vec<String>,
}

/// How to reach `meka serve`.
pub struct MekaConfig {
    /// The address as the URL parser writes it.
    pub base_url: String,
    pub token: Secret,
    pub connect_timeout: Duration,
    /// Wall-clock ceiling on a single turn, including the whole SSE stream.
    pub turn_timeout: Duration,
    /// Attempts made against retryable failures (connect errors, 5xx, 429) before giving up.
    pub max_retries: u32,
}

/// The one meka session this bridge instance owns.
#[derive(Debug)]
pub struct SessionConfig {
    pub cwd: Option<String>,
    pub permission: Permission,
    /// Create a replacement session when meka reports the stored id no longer exists.
    pub recreate_on_missing: bool,
}

/// Cross-cutting relay behaviour.
#[derive(Debug)]
pub struct BridgeConfig {
    /// Conversation that receives operator notifications, such as a turn that failed every retry.
    pub owner_conversation: Option<String>,
    pub max_queue_depth: usize,
    pub batch_max_messages: usize,
    /// Quiet period a conversation goes through before its messages are handed to the agent, on
    /// platforms that report when somebody is typing.
    ///
    /// Ignored everywhere else, and that is the point. Without the signal any wait is a guess, and
    /// a guess long enough to catch somebody typing a second sentence is far too long to impose on
    /// somebody who only ever meant to send one. Where the signal exists the conversation is held
    /// while they are still going and for this long after they stop.
    pub settle: Duration,
    /// Shortest a conversation is held before its messages are claimed.
    ///
    /// Deliberately absent from the file format. It exists for the wire rather than for people:
    /// platforms split one thing into several messages, Telegram's multi-photo albums above all,
    /// and without a floor a post arrives as one photo followed by a separate turn carrying the
    /// rest.
    pub coalesce_floor: Duration,
    /// Ceiling on how long [`BridgeConfig::settle`] may defer a message.
    ///
    /// What stops a conversation being held indefinitely by somebody who never finishes.
    pub settle_max: Duration,
    /// Extra attempts for a batch whose turn failed. `0` means a failed batch is never retried.
    pub turn_retries: u32,
    /// How long the first of those attempts waits, doubling thereafter.
    ///
    /// Absent from the file format for the same reason as [`BridgeConfig::coalesce_floor`].
    pub retry_base: Duration,
    /// Whether a chat is told when a message from it could not be delivered to the agent.
    pub notify_failures: bool,
    pub typing_indicator: bool,
    /// Ceiling on how long the typing indicator is held for one turn.
    ///
    /// Defaults to `[meka].turn_timeout`, which is the longest a turn can run, so in practice it
    /// never fires.
    pub typing_max: Duration,
    /// What happens to a conversation nobody has ruled on, decided by its chat kind.
    pub default_policy: DefaultPolicy,
    /// Messages of missed context rendered into the envelope when a muted conversation wakes.
    pub mute_context: usize,
}

/// Policy for a conversation with no explicit decision recorded, by chat kind.
///
/// Split by kind because the honest answer differs: in a one-to-one chat every message is addressed
/// to the agent, so mention-only would silence it entirely, while in a group of five thousand
/// almost nothing is.
#[derive(Debug, Clone, Copy, PartialEq, Eq, Structural)]
pub struct DefaultPolicy {
    pub direct: Policy,
    pub group: Policy,
    pub channel: Policy,
}

impl DefaultPolicy {
    /// The policy a conversation of this shape gets when nobody has ruled on it.
    pub fn for_kind(self, kind: ChatKind) -> (policy: Policy)
        ensures
            policy == (match kind {
                ChatKind::Direct => self.direct,
                ChatKind::Group => self.group,
                ChatKind::Channel => self.channel,
                ChatKind::Unknown => Policy::Active,
            }),
    {
        match kind {
            ChatKind::Direct => self.direct,
            ChatKind::Group => self.group,
            ChatKind::Channel => self.channel,
            // A conversation the agent messaged first, which nothing has ever arrived in. Its shape
            // is unknown, so it is heard in full until something says otherwise.
            ChatKind::Unknown => Policy::Active,
        }
    }
}

/// How meka reaches this bridge's MCP server.
pub struct McpConfig {
    pub transport: McpTransport,
    /// The address and port to listen on.
    pub bind: String,
    pub path: String,
    /// Bearer token meka must present. `None` leaves the endpoint unauthenticated, which is only
    /// reasonable on a loopback bind.
    pub token: Option<Secret>,
    /// `Host` header values the MCP transport accepts.
    pub allowed_hosts: Vec<String>,
    pub health: bool,
}

/// MCP transport the bridge serves on.
#[derive(Debug, Clone, Copy, PartialEq, Eq, Structural)]
pub enum McpTransport {
    /// Streamable HTTP on [`McpConfig::bind`]. meka connects with `transport = "http"`.
    Http,
    /// stdio, for `meka mcp` style child-process launches and MCP Inspector debugging.
    Stdio,
}

/// Where durable state lives.
#[derive(Debug)]
pub struct StorageConfig {
    pub path: String,
    pub attachment_dir: String,
    pub attachment_max_bytes: u64,
    pub attachment_retention: Duration,
    /// How long a recorded message stays readable through the history tools.
    ///
    /// Zero records nothing at all, which is the switch for a deployment that does not want a chat
    /// log on disk.
    pub history_retention: Duration,
}

/// Logging setup.
#[derive(Debug)]
pub struct LogConfig {
    /// Filter directive string, for example `info` or `mekabridge=debug,teloxide=warn`.
    pub level: String,
    pub format: LogFormat,
}

/// Log output shape.
#[derive(Debug, Clone, Copy, PartialEq, Eq, Structural)]
pub enum LogFormat {
    Text,
    Json,
}

/// One configured channel instance.
pub struct ChannelConfig {
    /// Unique instance name. Becomes the first segment of every conversation id this channel
    /// produces, so it may not contain `:`.
    pub id: String,
    pub platform: PlatformConfig,
}

/// Per-platform settings. One variant per supported platform.
pub enum PlatformConfig {
    Telegram(TelegramConfig),
    Discord(DiscordConfig),
}

/// Telegram bot settings.
pub struct TelegramConfig {
    pub token: Secret,
    /// Telegram user ids permitted to reach the agent. Empty means nobody, which is a deliberate
    /// fail-closed default: a bot token is a public entry point.
    pub allowed_users: Vec<i64>,
    /// Additional chat ids (groups, channels) permitted regardless of sender.
    pub allowed_chats: Vec<i64>,
    /// Accept every sender, making both allowlists advisory rather than gates.
    pub allow_all: bool,
    /// Offer the agent the moderation tools.
    pub admin_tools: bool,
    pub parse_mode: TelegramParseMode,
    /// Whether a link in an outgoing message gets a preview card.
    pub link_preview: bool,
    /// `getUpdates` long-poll timeout.
    pub poll_timeout: Duration,
}

/// Discord bot settings.
pub struct DiscordConfig {
    pub token: Secret,
    /// Discord user ids permitted to reach the agent by direct message.
    pub allowed_users: Vec<u64>,
    /// Servers whose members are all permitted. The largest of the four grants by far.
    pub allowed_guilds: Vec<u64>,
    /// Individual channels, including threads, whose participants are permitted.
    pub allowed_channels: Vec<u64>,
    /// Roles whose holders are permitted.
    pub allowed_roles: Vec<u64>,
    /// Accept every sender, making all four allowlists advisory rather than gates.
    pub allow_all: bool,
    /// Offer the agent the moderation tools. See [`TelegramConfig::admin_tools`].
    pub admin_tools: bool,
    /// Request the privileged message content intent.
    pub message_content: bool,
    /// Track who is online, which needs the server presence intent.
    pub presence: bool,
    /// Allow an outgoing message to ping `@everyone` and `@here`.
    pub mention_everyone: bool,
    /// Allow an outgoing message to ping a role.
    pub mention_roles: bool,
    /// Whether a link in an outgoing message gets a preview card.
    pub link_preview: bool,
}

/// How Telegram messages are formatted on the wire.
#[derive(Debug, Clone, Copy, PartialEq, Eq, Structural)]
pub enum TelegramParseMode {
    /// Render agent markdown into the Telegram HTML subset.
    Html,
    /// Send the markdown verbatim as plain text. The escape hatch when rendering misbehaves.
    Verbatim,
}

/// meka permission level a session runs at.
///
/// `write` is no such level any more: meka split it into `workspace` and `unrestricted`.
#[derive(Debug, Clone, Copy, PartialEq, Eq, Structural)]
pub enum Permission {
    NoAccess,
    Read,
    Workspace,
    Ask,
    Unrestricted,
}

/// The name a permission level goes by.
pub open spec fn permission_name(permission: Permission) -> Seq<char> {
    match permission {
        Permission::NoAccess => "none"@,
        Permission::Read => "read"@,
        Permission::Workspace => "workspace"@,
        Permission::Ask => "ask"@,
        Permission::Unrestricted => "unrestricted"@,
    }
}

/// The permission level of a name, where there is one.
pub open spec fn permission_named(name: Seq<char>) -> Option<Permission> {
    if name == "none"@ {
        Some(Permission::NoAccess)
    } else if name == "read"@ {
        Some(Permission::Read)
    } else if name == "workspace"@ {
        Some(Permission::Workspace)
    } else if name == "ask"@ {
        Some(Permission::Ask)
    } else if name == "unrestricted"@ {
        Some(Permission::Unrestricted)
    } else {
        None
    }
}

/// A permission level is read back from its name, so no two of them go by the same one.
pub proof fn a_permission_survives_its_name(permission: Permission, other: Permission)
    ensures
        permission_named(permission_name(permission)) == Some(permission),
        permission_name(permission) == permission_name(other) ==> permission == other,
{
    reveal_strlit("none");
    reveal_strlit("read");
    reveal_strlit("workspace");
    reveal_strlit("ask");
    reveal_strlit("unrestricted");
    assert("none"@[0] == 'n' && "read"@[0] == 'r' && "workspace"@[0] == 'w' && "ask"@[0] == 'a'
        && "unrestricted"@[0] == 'u');
}

/// What is no name of a permission level is read as none, the retired `write` among them.
pub proof fn only_names_are_read(name: Seq<char>)
    ensures
        permission_named(name) matches Some(permission) ==> permission_name(permission) == name,
        permission_named("write"@) is None,
{
    reveal_strlit("none");
    reveal_strlit("read");
    reveal_strlit("workspace");
    reveal_strlit("ask");
    reveal_strlit("unrestricted");
    reveal_strlit("write");
    assert("write"@[0] == 'w' && "workspace"@.len() == 9);
    assert("none"@[0] == 'n' && "read"@[0] == 'r' && "ask"@[0] == 'a' && "unrestricted"@[0] == 'u');
}

impl Permission {
    /// Wire form accepted by meka's session API.
    pub fn as_str(self) -> (name: &'static str)
        ensures
            name@ == permission_name(self),
    {
        match self {
            Permission::NoAccess => "none",
            Permission::Read => "read",
            Permission::Workspace => "workspace",
            Permission::Ask => "ask",
            Permission::Unrestricted => "unrestricted",
        }
    }

    /// The level of a name, as `[session].permission` holds it.
    pub fn parse(name: &str) -> (permission: Option<Permission>)
        ensures
            permission == permission_named(name@),
    {
        if text::same(name, "none") {
            Some(Permission::NoAccess)
        } else if text::same(name, "read") {
            Some(Permission::Read)
        } else if text::same(name, "workspace") {
            Some(Permission::Workspace)
        } else if text::same(name, "ask") {
            Some(Permission::Ask)
        } else if text::same(name, "unrestricted") {
            Some(Permission::Unrestricted)
        } else {
            None
        }
    }
}

impl Default for Permission {
    /// The lowest level that still works.
    ///
    /// `read` lets the agent reply, because the bridge's send tools are annotated read-only; the
    /// levels above it additionally let it modify files. Anyone on the allowlist can drive this agent, so
    /// the default is the one that answers messages without also handing out write access to the
    /// session's `cwd`.
    fn default() -> (permission: Self)
        ensures
            permission == Permission::Read,
    {
        Permission::Read
    }
}

/// The config file under a platform config directory.
pub open spec fn config_file(base: Seq<char>) -> Seq<char> {
    paths::path_joined(paths::path_joined(base, "mekabridge"@), "config.toml"@)
}

/// The config file under the platform config directory `base`, where there is one.
pub fn config_path_under(base: Option<String>) -> (path: Result<String>)
    ensures
        match path {
            Ok(path) => base matches Some(base) && path@ == config_file(base@),
            Err(error) => base is None && error.deep_view() == (BridgeErrorView::Config {
                message: "no platform config directory is available; pass --config"@,
            }),
        },
{
    match base {
        Some(base) => Ok(
            paths::join(paths::join(base.as_str(), "mekabridge").as_str(), "config.toml"),
        ),
        None => Err(
            BridgeError::config("no platform config directory is available; pass --config"),
        ),
    }
}

/// Default config file location, `<config dir>/mekabridge/config.toml`.
///
/// Where the config directory is depends on the environment; it is an error for there to be none.
pub fn default_config_path() -> (path: Result<String>)
    ensures
        match path {
            Ok(path) => exists|base: core::result::Result<Seq<char>, Seq<u8>>|
                path@ == config_file(#[trigger] paths::native::path_text(base)),
            Err(error) => error.deep_view() == (BridgeErrorView::Config {
                message: "no platform config directory is available; pass --config"@,
            }),
        },
{
    config_path_under(paths::platform_config_dir())
}

} // verus!
