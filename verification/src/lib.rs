//! mekabridge relays messages between the meka agent and chat platforms.
//!
//! This library holds what the bridge decides: who is heard and why, what a message means, how a
//! reply is rendered and split, what a configuration allows, and what the operator's commands
//! print. It does no input or output of its own. A connector hands it what a platform announced as
//! plain values, and carries out what it gets back.
//!
//! - [`channel`]: conversations, inbound events and errors, and the Discord and Telegram bots.
//! - [`render`]: Markdown as blocks of styled text, and the splitting of a long reply.
//! - [`config`]: the configuration, its defaults, its rules and its secrets.
//! - [`cli`]: the commands an operator runs, and what they report.
//! - [`text`], [`table`], [`time`], [`paths`]: strings, tables, moments and file paths.
//! - [`error`], [`meka`], [`store`]: errors, and the agent's and the queue's records.

pub mod channel;
pub mod cli;
pub mod config;
pub mod error;
pub mod meka;
pub mod paths;
pub mod render;
pub mod store;
pub mod table;
pub mod text;
pub mod time;
