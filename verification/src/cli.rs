//! The command-line surface.
//!
//! The daemon is the default subcommand; everything else is an operator tool. Those tools
//! deliberately need no IPC with a running daemon: they read the database and talk to meka directly,
//! so each works whether or not the daemon is up.

use vstd::prelude::*;
use vstd::string::*;

use crate::config::{default_config_path, Config, LogFormat};
use crate::error::{BridgeErrorView, Result};
use crate::store::Policy;
use crate::text;

pub mod commands;
pub mod doctor;
pub mod laws;

verus! {

/// Default row cap for the listing commands.
pub const DEFAULT_LIST_LIMIT: usize = 50;

/// Relay between the meka agent and third-party chat platforms.
#[derive(Debug)]
pub struct Cli {
    /// Path to config.toml. Defaults to the platform config directory.
    pub config: Option<String>,
    /// Increase log verbosity. Repeat for more detail. Overrides `[log].level`.
    pub verbose: u8,
    /// Log output format. Overrides `[log].format`.
    pub log_format: Option<LogFormatArg>,
    pub command: Option<Command>,
}

/// Log format selectable from the command line.
#[derive(Debug, Clone, Copy, PartialEq, Eq, Structural)]
pub enum LogFormatArg {
    Text,
    Json,
}

impl From<LogFormatArg> for LogFormat {
    fn from(value: LogFormatArg) -> (format: LogFormat) {
        match value {
            LogFormatArg::Text => LogFormat::Text,
            LogFormatArg::Json => LogFormat::Json,
        }
    }
}

impl vstd::std_specs::convert::FromSpecImpl<LogFormatArg> for LogFormat {
    open spec fn obeys_from_spec() -> bool {
        true
    }

    open spec fn from_spec(value: LogFormatArg) -> LogFormat {
        match value {
            LogFormatArg::Text => LogFormat::Text,
            LogFormatArg::Json => LogFormat::Json,
        }
    }
}

/// What the bridge is asked to do.
#[derive(Debug)]
pub enum Command {
    /// Run the bridge daemon. This is the default when no subcommand is given.
    Run,
    /// Check configuration, meka, channels, and the MCP endpoint.
    Doctor,
    /// Show the session, queue depth, and known conversations.
    Status,
    /// Inspect the inbound queue.
    Queue { command: QueueCommand },
    /// Inspect the conversations the agent can message.
    Conversations { command: ConversationsCommand },
    /// Inspect or override how much of a conversation reaches the agent.
    Policy { command: PolicyCommand },
    /// Read back what a conversation has said, including what the agent was never woken for.
    History { conversation: String, limit: usize, search: Option<String> },
    /// Report what the agent has not been shown, for use as a scheduled job's gate.
    Unseen { conversation: Option<String> },
    /// Inspect or reset the agent's session.
    Session { command: SessionCommand },
    /// Cancel the turn that is currently running, if any.
    Cancel,
    /// Inspect or create the configuration file.
    Config { command: ConfigCommand },
}

/// What to do with the inbound queue.
#[derive(Debug)]
pub enum QueueCommand {
    /// List messages waiting to be delivered.
    List { limit: usize },
    /// Delete every queued message, including undelivered ones, where confirmed.
    Clear { yes: bool },
}

/// What to do with the known conversations.
#[derive(Debug)]
pub enum ConversationsCommand {
    /// List known conversations, most recently active first.
    List { channel: Option<String>, limit: usize },
}

/// How much of a conversation reaches the agent, selectable from the command line.
#[derive(Debug, Clone, Copy, PartialEq, Eq, Structural)]
pub enum PolicyArg {
    /// Wake the agent for every message.
    Active,
    /// Record everything, but only wake the agent when it is mentioned or replied to.
    Mute,
    /// Deliver nothing and keep nothing.
    Block,
}

impl From<PolicyArg> for Policy {
    fn from(value: PolicyArg) -> (policy: Policy) {
        match value {
            PolicyArg::Active => Policy::Active,
            PolicyArg::Mute => Policy::Mute,
            PolicyArg::Block => Policy::Block,
        }
    }
}

impl vstd::std_specs::convert::FromSpecImpl<PolicyArg> for Policy {
    open spec fn obeys_from_spec() -> bool {
        true
    }

    open spec fn from_spec(value: PolicyArg) -> Policy {
        match value {
            PolicyArg::Active => Policy::Active,
            PolicyArg::Mute => Policy::Mute,
            PolicyArg::Block => Policy::Block,
        }
    }
}

/// Operator control over attention policies.
///
/// The agent sets these itself, so this exists as the way back: a conversation it muted or blocked
/// indefinitely is otherwise unreachable, including the one an operator would use to ask it to undo
/// them.
#[derive(Debug)]
pub enum PolicyCommand {
    /// List the configured defaults and every conversation with a policy of its own.
    List,
    /// Give one conversation a policy, overriding the default for its kind.
    Assign {
        conversation: String,
        policy: PolicyArg,
        duration: Option<String>,
        reason: Option<String>,
    },
    /// Drop a conversation's own policy so it follows the configured default again.
    Clear { conversation: String },
}

/// What to do with the agent's session.
#[derive(Debug)]
pub enum SessionCommand {
    /// Show the bound session.
    Show,
    /// Forget the session binding so the next message starts a fresh one, where confirmed.
    Reset { yes: bool },
}

/// What to do with the configuration file.
#[derive(Debug)]
pub enum ConfigCommand {
    /// Print the path the config would be loaded from.
    Path,
    /// Load and validate the config, reporting the first problem found.
    Validate,
    /// Write a starter config to the default path.
    Init { force: bool },
}

/// What is left to do once a command line has been understood, by what it needs.
#[derive(Debug)]
pub enum Task {
    /// Answered before anything else, because its failures have to be told apart from its answers by
    /// the exit code.
    Unseen { conversation: Option<String> },
    /// Neither a config nor a runtime is needed.
    ConfigPath,
    ConfigInit { force: bool },
    /// Only the config is needed.
    ConfigValidate,
    Daemon,
    /// A tool that reads the database and talks to meka.
    Operator(Command),
}

/// What a command comes to. No command runs the daemon.
pub open spec fn task_of(command: Option<Command>) -> Task {
    match command {
        Some(Command::Unseen { conversation }) => Task::Unseen { conversation },
        Some(Command::Config { command: ConfigCommand::Path }) => Task::ConfigPath,
        Some(Command::Config { command: ConfigCommand::Init { force } }) => Task::ConfigInit {
            force,
        },
        Some(Command::Config { command: ConfigCommand::Validate }) => Task::ConfigValidate,
        Some(Command::Run) => Task::Daemon,
        None => Task::Daemon,
        Some(command) => Task::Operator(command),
    }
}

impl Cli {
    /// What is left to do.
    pub fn run(self) -> (task: Task)
        ensures
            task == task_of(self.command),
    {
        match self.command {
            Some(Command::Unseen { conversation }) => Task::Unseen { conversation },
            Some(Command::Config { command }) => match command {
                ConfigCommand::Path => Task::ConfigPath,
                ConfigCommand::Init { force } => Task::ConfigInit { force },
                ConfigCommand::Validate => Task::ConfigValidate,
            },
            Some(Command::Run) => Task::Daemon,
            None => Task::Daemon,
            Some(command) => Task::Operator(command),
        }
    }
}

/// The path of the config: the one given, or the platform's own.
pub fn resolve_config_path(override_path: Option<&str>) -> (path: Result<String>)
    ensures
        match override_path {
            Some(given) => path matches Ok(path) && path@ == given@,
            None => match path {
                Ok(path) => exists|base: core::result::Result<Seq<char>, Seq<u8>>|
                    path@ == crate::config::config_file(
                        #[trigger] crate::paths::native::path_text(base),
                    ),
                Err(error) => error.deep_view() == (BridgeErrorView::Config {
                    message: "no platform config directory is available; pass --config"@,
                }),
            },
        },
{
    match override_path {
        Some(path) => Ok(path.to_owned()),
        None => default_config_path(),
    }
}

/// What is logged, by the configured level and how often more was asked for.
pub open spec fn directive_of(level: Seq<char>, verbose: u8) -> Seq<char> {
    if verbose == 0 {
        level
    } else if verbose == 1 {
        "mekabridge=debug,info"@
    } else {
        "mekabridge=trace,debug"@
    }
}

/// What is logged, by the configured level and how often more was asked for.
pub fn log_directive(level: &str, verbose: u8) -> (directive: String)
    ensures
        directive@ == directive_of(level@, verbose),
{
    if verbose == 0 {
        level.to_owned()
    } else if verbose == 1 {
        "mekabridge=debug,info".to_owned()
    } else {
        "mekabridge=trace,debug".to_owned()
    }
}

/// How logs are written: as asked for on the command line, or else as configured.
pub fn log_format(configured: LogFormat, asked: Option<LogFormatArg>) -> (format: LogFormat)
    ensures
        format == (match asked {
            Some(LogFormatArg::Text) => LogFormat::Text,
            Some(LogFormatArg::Json) => LogFormat::Json,
            None => configured,
        }),
{
    match asked {
        Some(asked) => LogFormat::from(asked),
        None => configured,
    }
}

/// What a configuration that was found valid is reported as.
pub fn validated(config: &Config) -> (line: String)
    ensures
        line@ == "configuration is valid: "@ + text::decimal(config.channels@.len())
            + " channel(s), meka at "@ + config.meka.base_url@,
{
    "configuration is valid: ".to_owned().concat(
        text::number(config.channels.len() as u64).as_str(),
    ).concat(" channel(s), meka at ").concat(config.meka.base_url.as_str())
}

} // verus!
