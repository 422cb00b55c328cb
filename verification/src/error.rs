//! The error union the binary and orchestration layers propagate.
//!
//! Domain modules keep their own narrow error types, so retry decisions can match on a small set of
//! variants without pattern-matching the whole program's failure surface. [`BridgeError`] only
//! aggregates them, each as the text it is reported by.

use vstd::prelude::*;
use vstd::string::*;

use crate::paths::native;

pub mod laws;

verus! {

/// Convenience alias for fallible mekabridge operations.
pub type Result<T> = core::result::Result<T, BridgeError>;

/// Every way mekabridge can fail, as seen by `main` and the orchestration layer.
#[derive(Clone, Debug)]
pub enum BridgeError {
    Config { message: String },
    ConfigRead { path: String, source: String },
    ConfigParse { path: String, source: String },
    Channel(String),
    Meka(String),
    /// A command refused to act, or found something wrong. Distinct from [`Self::Config`] so the
    /// message is not prefixed with "configuration is invalid", which would be misleading for, say,
    /// a `--yes` confirmation that was not given.
    Command { message: String },
    Store(String),
    Io(String),
}

/// What a [`BridgeError`] holds.
pub enum BridgeErrorView {
    Config { message: Seq<char> },
    ConfigRead { path: Seq<char>, source: Seq<char> },
    ConfigParse { path: Seq<char>, source: Seq<char> },
    Channel(Seq<char>),
    Meka(Seq<char>),
    Command { message: Seq<char> },
    Store(Seq<char>),
    Io(Seq<char>),
}

impl DeepView for BridgeError {
    type V = BridgeErrorView;

    open spec fn deep_view(&self) -> BridgeErrorView {
        match self {
            BridgeError::Config { message } => BridgeErrorView::Config { message: message@ },
            BridgeError::ConfigRead { path, source } => BridgeErrorView::ConfigRead {
                path: path@,
                source: source@,
            },
            BridgeError::ConfigParse { path, source } => BridgeErrorView::ConfigParse {
                path: path@,
                source: source@,
            },
            BridgeError::Channel(source) => BridgeErrorView::Channel(source@),
            BridgeError::Meka(source) => BridgeErrorView::Meka(source@),
            BridgeError::Command { message } => BridgeErrorView::Command { message: message@ },
            BridgeError::Store(source) => BridgeErrorView::Store(source@),
            BridgeError::Io(source) => BridgeErrorView::Io(source@),
        }
    }
}

/// The text that an error is reported by.
pub open spec fn reported(error: BridgeErrorView) -> Seq<char> {
    match error {
        BridgeErrorView::Config { message } => "configuration is invalid: "@ + message,
        BridgeErrorView::ConfigRead { path, source } => "could not read config file "@
            + native::shown_path(path) + ": "@ + source,
        BridgeErrorView::ConfigParse { path, source } => "config file "@ + native::shown_path(
            path,
        ) + " is not valid TOML: "@ + source,
        BridgeErrorView::Channel(source) => "channel: "@ + source,
        BridgeErrorView::Meka(source) => "meka: "@ + source,
        BridgeErrorView::Command { message } => message,
        BridgeErrorView::Store(source) => "store: "@ + source,
        BridgeErrorView::Io(source) => source,
    }
}

/// What an error was caused by, where something else failed first. A failure of the system's own is
/// passed on as it is, so nothing stands behind it.
pub open spec fn cause(error: BridgeErrorView) -> Option<Seq<char>> {
    match error {
        BridgeErrorView::ConfigRead { path: _, source } => Some(source),
        BridgeErrorView::ConfigParse { path: _, source } => Some(source),
        BridgeErrorView::Channel(source) => Some(source),
        BridgeErrorView::Meka(source) => Some(source),
        BridgeErrorView::Store(source) => Some(source),
        BridgeErrorView::Config { .. }
        | BridgeErrorView::Command { .. }
        | BridgeErrorView::Io(_) => None,
    }
}

/// An error with a cause ends its own report with it.
pub proof fn a_report_ends_with_the_cause(error: BridgeErrorView)
    ensures
        cause(error) matches Some(source) ==> source.is_suffix_of(reported(error)),
{
    if let Some(source) = cause(error) {
        let whole = reported(error);
        assert(source =~= whole.subrange(whole.len() - source.len(), whole.len() as int));
    }
}

impl BridgeError {
    /// Shorthand for the common "config says something impossible" case.
    pub fn config(message: &str) -> (error: BridgeError)
        ensures
            error.deep_view() == (BridgeErrorView::Config { message: message@ }),
    {
        BridgeError::Config { message: message.to_owned() }
    }

    /// Shorthand for a command that declined to act or found a problem.
    pub fn command(message: &str) -> (error: BridgeError)
        ensures
            error.deep_view() == (BridgeErrorView::Command { message: message@ }),
    {
        BridgeError::Command { message: message.to_owned() }
    }

    /// The text this error is reported by.
    pub fn to_text(&self) -> (text: String)
        ensures
            text@ == reported(self.deep_view()),
    {
        match self {
            BridgeError::Config { message } => "configuration is invalid: ".to_owned().concat(
                message.as_str(),
            ),
            BridgeError::ConfigRead { path, source } => "could not read config file ".to_owned()
                .concat(native::to_shown(path.as_str()).as_str())
                .concat(": ")
                .concat(source.as_str()),
            BridgeError::ConfigParse { path, source } => "config file ".to_owned()
                .concat(native::to_shown(path.as_str()).as_str())
                .concat(" is not valid TOML: ")
                .concat(source.as_str()),
            BridgeError::Channel(source) => "channel: ".to_owned().concat(source.as_str()),
            BridgeError::Meka(source) => "meka: ".to_owned().concat(source.as_str()),
            BridgeError::Command { message } => message.clone(),
            BridgeError::Store(source) => "store: ".to_owned().concat(source.as_str()),
            BridgeError::Io(source) => source.clone(),
        }
    }

    /// What this error was caused by, where something else failed first.
    pub fn cause(&self) -> (source: Option<String>)
        ensures
            source.deep_view() == cause(self.deep_view()),
    {
        match self {
            BridgeError::ConfigRead { path: _, source } => Some(source.clone()),
            BridgeError::ConfigParse { path: _, source } => Some(source.clone()),
            BridgeError::Channel(source) => Some(source.clone()),
            BridgeError::Meka(source) => Some(source.clone()),
            BridgeError::Store(source) => Some(source.clone()),
            BridgeError::Config { .. } | BridgeError::Command { .. } | BridgeError::Io(_) => None,
        }
    }
}

} // verus!
