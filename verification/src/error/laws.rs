//! What a failure says, stated word for word.

use vstd::prelude::*;

use crate::error::{self, BridgeError, BridgeErrorView};
use crate::paths::native;

verus! {

/// A failure says what went wrong and where: in the configuration, in its file, on a channel, with meka
/// or in the database. What an operator asked wrongly and what the system refused stand by themselves.
pub proof fn a_failure_says_where_it_happened(path: Seq<char>, why: Seq<char>)
    ensures
        error::reported(BridgeErrorView::Config { message: why }) == "configuration is invalid: "@
            + why,
        error::reported(BridgeErrorView::ConfigRead { path, source: why })
            == "could not read config file "@ + native::shown_path(path) + ": "@ + why,
        error::reported(BridgeErrorView::ConfigParse { path, source: why }) == "config file "@
            + native::shown_path(path) + " is not valid TOML: "@ + why,
        error::reported(BridgeErrorView::Channel(why)) == "channel: "@ + why,
        error::reported(BridgeErrorView::Meka(why)) == "meka: "@ + why,
        error::reported(BridgeErrorView::Store(why)) == "store: "@ + why,
        error::reported(BridgeErrorView::Command { message: why }) == why,
        error::reported(BridgeErrorView::Io(why)) == why,
{
}

/// A failure has a cause exactly where something else failed first.
pub proof fn a_failure_has_a_cause_where_something_failed_first(failure: BridgeErrorView)
    ensures
        error::cause(failure) is None <==> failure is Config || failure is Command || failure is Io,
        failure matches BridgeErrorView::ConfigRead { source, .. } ==> error::cause(failure) == Some(
            source,
        ),
        failure matches BridgeErrorView::ConfigParse { source, .. } ==> error::cause(failure) == Some(
            source,
        ),
        failure matches BridgeErrorView::Channel(source) ==> error::cause(failure) == Some(source),
        failure matches BridgeErrorView::Meka(source) ==> error::cause(failure) == Some(source),
        failure matches BridgeErrorView::Store(source) ==> error::cause(failure) == Some(source),
{
}

/// What is said of a failure is said of the same kind of failure and its own fields.
pub proof fn a_failure_is_viewed_as_it_is(failure: BridgeError)
    ensures
        failure matches BridgeError::Config { message } ==> failure.deep_view() == (
        BridgeErrorView::Config { message: message@ }),
        failure matches BridgeError::ConfigRead { path, source } ==> failure.deep_view() == (
        BridgeErrorView::ConfigRead { path: path@, source: source@ }),
        failure matches BridgeError::ConfigParse { path, source } ==> failure.deep_view() == (
        BridgeErrorView::ConfigParse { path: path@, source: source@ }),
        failure matches BridgeError::Channel(source) ==> failure.deep_view()
            == BridgeErrorView::Channel(source@),
        failure matches BridgeError::Meka(source) ==> failure.deep_view() == BridgeErrorView::Meka(
            source@,
        ),
        failure matches BridgeError::Command { message } ==> failure.deep_view() == (
        BridgeErrorView::Command { message: message@ }),
        failure matches BridgeError::Store(source) ==> failure.deep_view() == BridgeErrorView::Store(
            source@,
        ),
        failure matches BridgeError::Io(source) ==> failure.deep_view() == BridgeErrorView::Io(
            source@,
        ),
{
}

} // verus!
