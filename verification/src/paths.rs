//! File paths as text, under the rules of the platform the crate is built for. What the text of a path
//! is that is not Unicode, [`native`] says.

pub mod native;

use vstd::prelude::*;
use vstd::string::*;

use crate::error::{BridgeError, BridgeErrorView, Result};
use crate::paths::native::NativePath;

verus! {

/// What `std::path::Path::parent` gives for a path.
pub uninterp spec fn path_parent(path: Seq<char>) -> Option<Seq<char>>;

/// Whether `std::path::Path::is_absolute` holds of a path.
pub uninterp spec fn path_is_absolute(path: Seq<char>) -> bool;

/// What `std::path::Path::join` makes of two paths.
pub uninterp spec fn path_joined(base: Seq<char>, path: Seq<char>) -> Seq<char>;

/// What `std::path::Path::strip_prefix` leaves of a path.
pub uninterp spec fn path_under(path: Seq<char>, base: Seq<char>) -> Option<Seq<char>>;

/// The last component of a path.
pub uninterp spec fn path_file_name(path: Seq<char>) -> Option<Seq<char>>;

/// The extension of a path's last component.
pub uninterp spec fn path_extension(path: Seq<char>) -> Option<Seq<char>>;

/// `std::path::Path::parent`: the path without its last component. What it gives depends on the
/// path alone.
#[verifier::external_body]
pub(crate) fn parent(path: &str) -> (directory: Option<String>)
    ensures
        directory.deep_view() == path_parent(path@),
{
    std::path::Path::new(path).parent().map(|directory| directory.display().to_string())
}

/// `std::path::Path::is_absolute`. What it says depends on the path alone.
#[verifier::external_body]
pub(crate) fn is_absolute(path: &str) -> (absolute: bool)
    ensures
        absolute == path_is_absolute(path@),
{
    std::path::Path::new(path).is_absolute()
}

/// `std::path::Path::join`. What it makes depends on the two paths alone, and an absolute path stands
/// by itself.
#[verifier::external_body]
pub(crate) fn join(base: &str, path: &str) -> (joined: String)
    ensures
        joined@ == path_joined(base@, path@),
        path_is_absolute(path@) ==> joined@ == path@,
{
    std::path::Path::new(base).join(path).display().to_string()
}

/// `std::path::Path::strip_prefix`: what follows `base` in `path`, where `path` starts with it. What
/// it leaves depends on the two paths alone.
#[verifier::external_body]
pub(crate) fn strip_prefix(path: &str, base: &str) -> (rest: Option<String>)
    ensures
        rest.deep_view() == path_under(path@, base@),
{
    std::path::Path::new(path).strip_prefix(base).ok().map(|rest| rest.display().to_string())
}

/// `std::path::Path::file_name`: the last component, where it is a name. What it gives depends on the
/// path alone.
#[verifier::external_body]
pub(crate) fn file_name(path: &str) -> (name: Option<String>)
    ensures
        name.deep_view() == path_file_name(path@),
{
    std::path::Path::new(path).file_name().map(|name| name.to_string_lossy().to_string())
}

/// `std::path::Path::extension`: what follows the last dot of the file name, where there is one past
/// its start. What it gives depends on the path alone.
#[verifier::external_body]
pub(crate) fn extension(path: &str) -> (extension: Option<String>)
    ensures
        extension.deep_view() == path_extension(path@),
{
    std::path::Path::new(path).extension().map(|extension| extension.to_string_lossy().to_string())
}

/// The platform's config directory, as `dirs::config_dir` finds it. Which directory that is depends
/// on the environment, so nothing is promised of it.
#[verifier::external_body]
fn config_dir() -> (directory: Option<NativePath>) {
    dirs::config_dir().map(
        |directory| directory.into_os_string().into_string().map_err(|path| path.into_encoded_bytes()),
    )
}

/// The platform's data directory, as `dirs::data_dir` finds it. Which directory that is depends on
/// the environment, so nothing is promised of it.
#[verifier::external_body]
fn data_dir() -> (directory: Option<NativePath>) {
    dirs::data_dir().map(
        |directory| directory.into_os_string().into_string().map_err(|path| path.into_encoded_bytes()),
    )
}

/// The user's home directory, as `dirs::home_dir` finds it. Which directory that is depends on the
/// environment, so nothing is promised of it.
#[verifier::external_body]
fn home_dir() -> (directory: Option<NativePath>) {
    dirs::home_dir().map(
        |directory| directory.into_os_string().into_string().map_err(|path| path.into_encoded_bytes()),
    )
}

/// The platform's config directory as text, where there is one.
pub(crate) fn platform_config_dir() -> (directory: Option<String>)
    ensures
        directory matches Some(text) ==> exists|path: core::result::Result<Seq<char>, Seq<u8>>|
            text@ == #[trigger] native::path_text(path),
{
    match config_dir() {
        Some(path) => Some(native::to_text(&path)),
        None => None,
    }
}

/// The platform's data directory as text, where there is one.
pub(crate) fn platform_data_dir() -> (directory: Option<String>)
    ensures
        directory matches Some(text) ==> exists|path: core::result::Result<Seq<char>, Seq<u8>>|
            text@ == #[trigger] native::path_text(path),
{
    match data_dir() {
        Some(path) => Some(native::to_text(&path)),
        None => None,
    }
}

/// The user's home directory as text, where there is one.
pub(crate) fn platform_home_dir() -> (directory: Option<String>)
    ensures
        directory matches Some(text) ==> exists|path: core::result::Result<Seq<char>, Seq<u8>>|
            text@ == #[trigger] native::path_text(path),
{
    match home_dir() {
        Some(path) => Some(native::to_text(&path)),
        None => None,
    }
}

/// A path with a leading `~` expanded and made absolute against the config file's directory, or the
/// message of why that cannot be done.
pub open spec fn expanded(
    raw: Seq<char>,
    config_dir: Seq<char>,
    home: Option<Seq<char>>,
) -> core::result::Result<Seq<char>, BridgeErrorView> {
    match path_under(raw, "~"@) {
        Some(rest) => match home {
            Some(home) => Ok(anchored(path_joined(home, rest), config_dir)),
            None => Err(
                BridgeErrorView::Config {
                    message: "`~` used in a path but no home directory is set"@,
                },
            ),
        },
        None => Ok(anchored(raw, config_dir)),
    }
}

/// A path made absolute against a directory, without the `./` that joining may leave in front.
pub open spec fn anchored(path: Seq<char>, directory: Seq<char>) -> Seq<char> {
    if path_is_absolute(path) {
        path
    } else {
        let joined = path_joined(directory, path);
        match path_under(joined, "./"@) {
            Some(rest) => rest,
            None => joined,
        }
    }
}

/// Expands a leading `~` and makes relative paths absolute against the config file's directory.
///
/// Resolving relative to the config file rather than the process working directory means a config
/// keeps working when the daemon is started from somewhere else, which is the normal case under
/// systemd.
pub fn expand_path(raw: &str, config_dir: &str, home: &Option<String>) -> (path: Result<String>)
    ensures
        match path {
            Ok(path) => expanded(raw@, config_dir@, home.deep_view()) == Ok::<
                Seq<char>,
                BridgeErrorView,
            >(path@),
            Err(error) => expanded(raw@, config_dir@, home.deep_view()) == Err::<
                Seq<char>,
                BridgeErrorView,
            >(error.deep_view()),
        },
{
    let path = match strip_prefix(raw, "~") {
        Some(rest) => match home {
            Some(home) => join(home.as_str(), rest.as_str()),
            None => {
                return Err(
                    BridgeError::config("`~` used in a path but no home directory is set"),
                );
            },
        },
        None => raw.to_owned(),
    };
    if is_absolute(path.as_str()) {
        return Ok(path);
    }
    let joined = join(config_dir, path.as_str());
    match strip_prefix(joined.as_str(), "./") {
        Some(rest) => Ok(rest),
        None => Ok(joined),
    }
}

} // verus!
