//! Credential handling.
//!
//! Every secret mekabridge holds (the meka bearer token, bot tokens, the MCP endpoint token) is
//! wrapped in [`Secret`], which is only ever written with its value redacted.

use vstd::prelude::*;
use vstd::string::*;

use crate::error::{BridgeError, BridgeErrorView, Result};
use crate::paths::native;
use crate::text;

verus! {

/// A credential plus a description of where it came from.
///
/// The origin is safe to log and is what diagnostics should print: it tells an operator which
/// environment variable or file to fix without revealing the value.
#[derive(Clone, PartialEq, Eq)]
pub struct Secret {
    value: String,
    origin: String,
}

/// What a [`Secret`] holds.
pub struct SecretView {
    pub value: Seq<char>,
    pub origin: Seq<char>,
}

impl View for Secret {
    type V = SecretView;

    closed spec fn view(&self) -> SecretView {
        SecretView { value: self.value@, origin: self.origin@ }
    }
}

/// A secret as it is written for debugging.
pub open spec fn debugged(secret: SecretView) -> Seq<char> {
    "Secret(<redacted from "@ + secret.origin + ">)"@
}

/// A secret as it is written for people.
pub open spec fn displayed(secret: SecretView) -> Seq<char> {
    "<redacted from "@ + secret.origin + ">"@
}

impl Secret {
    /// Wraps a value that was obtained from `origin`.
    pub fn new(value: &str, origin: &str) -> (secret: Secret)
        ensures
            secret@ == (SecretView { value: value@, origin: origin@ }),
    {
        Secret { value: value.to_owned(), origin: origin.to_owned() }
    }

    /// The raw credential.
    ///
    /// Each call site is somewhere a secret can escape, so they are kept few and greppable.
    pub fn expose(&self) -> (value: &str)
        ensures
            value@ == self@.value,
    {
        self.value.as_str()
    }

    /// Where the credential was read from, safe to print.
    pub fn origin(&self) -> (origin: &str)
        ensures
            origin@ == self@.origin,
    {
        self.origin.as_str()
    }

    /// This secret as it is written for debugging.
    pub fn to_debug(&self) -> (text: String)
        ensures
            text@ == debugged(self@),
    {
        "Secret(<redacted from ".to_owned().concat(self.origin.as_str()).concat(">)")
    }

    /// This secret as it is written for people.
    pub fn to_text(&self) -> (text: String)
        ensures
            text@ == displayed(self@),
    {
        "<redacted from ".to_owned().concat(self.origin.as_str()).concat(">")
    }
}

/// What is written of a secret says nothing about its value: two that came from the same place are
/// written alike, whatever they hold.
pub proof fn redaction_hides_the_value(left: SecretView, right: SecretView)
    requires
        left.origin == right.origin,
    ensures
        debugged(left) == debugged(right),
        displayed(left) == displayed(right),
{
}

/// The value that `variables` give `name`, from the first entry of that name.
pub open spec fn variable(variables: Seq<(Seq<char>, Seq<char>)>, name: Seq<char>) -> Option<
    Seq<char>,
>
    decreases variables.len(),
{
    if variables.len() == 0 {
        None
    } else if variables[0].0 == name {
        Some(variables[0].1)
    } else {
        variable(variables.skip(1), name)
    }
}

/// Looks up the value of an environment variable.
fn look_up(variables: &Vec<(String, String)>, name: &str) -> (value: Option<String>)
    ensures
        value.deep_view() == variable(variables.deep_view(), name@),
{
    let ghost all = variables.deep_view();
    let mut i: usize = 0;
    assert(all.skip(0) =~= all);
    while i < variables.len()
        invariant
            i <= variables.len(),
            all == variables.deep_view(),
            variable(all, name@) == variable(all.skip(i as int), name@),
        decreases variables.len() - i,
    {
        assert(all.skip(i as int)[0] == variables@[i as int].deep_view());
        assert(all.skip(i as int).skip(1) =~= all.skip(i + 1));
        if text::same(variables[i].0.as_str(), name) {
            return Some(variables[i].1.clone());
        }
        i += 1;
    }
    None
}

/// `rest` of the text `raw` with every `${VAR}` in it replaced by the variable's value, or the
/// message of why that cannot be done.
pub open spec fn expansion(
    label: Seq<char>,
    raw: Seq<char>,
    rest: Seq<char>,
    variables: Seq<(Seq<char>, Seq<char>)>,
) -> core::result::Result<Seq<char>, Seq<char>>
    decreases rest.len(),
{
    if rest.len() == 0 {
        Ok(Seq::empty())
    } else if rest.len() >= 2 && rest[0] == '$' && rest[1] == '{' {
        match text::parts_at(rest.skip(2), '}') {
            None => Err(label + " has an unterminated `${` in "@ + text::debug_quoted(raw)),
            Some((name, tail)) => if name.len() == 0 {
                Err(label + " has an empty `${}` placeholder"@)
            } else {
                match variable(variables, name) {
                    None => Err(
                        label + " references environment variable `"@ + name
                            + "`, which is not set"@,
                    ),
                    Some(value) => prepended(value, expansion(label, raw, tail, variables)),
                }
            },
        }
    } else {
        prepended(seq![rest[0]], expansion(label, raw, rest.skip(1), variables))
    }
}

/// `start` followed by what an expansion gave, or its error.
pub open spec fn prepended(
    start: Seq<char>,
    rest: core::result::Result<Seq<char>, Seq<char>>,
) -> core::result::Result<Seq<char>, Seq<char>> {
    match rest {
        Ok(rest) => Ok(start + rest),
        Err(message) => Err(message),
    }
}

/// Text without a `${` is left as it is, whatever the environment holds.
pub proof fn text_without_placeholders_passes_through(
    label: Seq<char>,
    raw: Seq<char>,
    rest: Seq<char>,
    variables: Seq<(Seq<char>, Seq<char>)>,
)
    requires
        !text::contains(rest, "${"@),
    ensures
        expansion(label, raw, rest, variables) == Ok::<Seq<char>, Seq<char>>(rest),
    decreases rest.len(),
{
    reveal_strlit("${");
    if rest.len() > 0 {
        let after = rest.skip(1);
        if rest.len() >= 2 && rest[0] == '$' && rest[1] == '{' {
            assert(rest.subrange(0, 2) =~= "${"@);
            assert(text::stands_at(rest, "${"@, 0));
        }
        assert forall|at: int| !#[trigger] text::stands_at(after, "${"@, at) by {
            if text::stands_at(after, "${"@, at) {
                assert(rest.subrange(at + 1, at + 3) =~= after.subrange(at, at + 2));
                assert(text::stands_at(rest, "${"@, at + 1));
            }
        }
        text_without_placeholders_passes_through(label, raw, after, variables);
        assert(seq![rest[0]] + after =~= rest);
    } else {
        assert(rest =~= Seq::empty());
    }
}

/// Expands every `${VAR}` occurrence in `raw` from `variables`.
pub fn substitute_env(label: &str, raw: &str, variables: &Vec<(String, String)>) -> (expanded:
    Result<String>)
    ensures
        match expanded {
            Ok(text) => expansion(label@, raw@, raw@, variables.deep_view()) == Ok::<
                Seq<char>,
                Seq<char>,
            >(text@),
            Err(error) => {
                &&& expansion(label@, raw@, raw@, variables.deep_view()) is Err
                &&& error.deep_view() == (BridgeErrorView::Config {
                    message: expansion(label@, raw@, raw@, variables.deep_view())->Err_0,
                })
            },
        },
{
    let ghost vars = variables.deep_view();
    let chars = text::chars_of(raw);
    let total: usize = chars.len();
    let mut out = String::new();
    let mut i: usize = 0;
    assert(raw@.skip(0) =~= raw@);
    assert(prepended(out@, expansion(label@, raw@, raw@, vars)) =~= expansion(
        label@,
        raw@,
        raw@,
        vars,
    )) by {
        if let Ok(rest) = expansion(label@, raw@, raw@, vars) {
            assert(out@ + rest =~= rest);
        }
    }
    while i < total
        invariant
            i <= total,
            total == chars@.len(),
            chars@ == raw@,
            vars == variables.deep_view(),
            prepended(out@, expansion(label@, raw@, raw@.skip(i as int), vars)) == expansion(
                label@,
                raw@,
                raw@,
                vars,
            ),
        decreases total - i,
    {
        let ghost rest = raw@.skip(i as int);
        let ghost before = out@;
        assert(rest[0] == chars@[i as int]);
        if total - i >= 2 && chars[i] == '$' && chars[i + 1] == '{' {
            assert(rest[1] == chars@[i + 1]);
            let after = text::slice_of(&chars, i + 2, total);
            assert(after@ =~= rest.skip(2));
            let (name, tail) = match text::split_once(after.as_str(), '}') {
                None => {
                    return Err(
                        BridgeError::config(
                            label.to_owned().concat(" has an unterminated `${` in ").concat(
                                text::quoted(raw).as_str(),
                            ).as_str(),
                        ),
                    );
                },
                Some(parts) => parts,
            };
            let length: usize = text::chars_of(name.as_str()).len();
            if length == 0 {
                return Err(
                    BridgeError::config(
                        label.to_owned().concat(" has an empty `${}` placeholder").as_str(),
                    ),
                );
            }
            let value = match look_up(variables, name.as_str()) {
                None => {
                    return Err(
                        BridgeError::config(
                            label.to_owned().concat(" references environment variable `").concat(
                                name.as_str(),
                            ).concat("`, which is not set").as_str(),
                        ),
                    );
                },
                Some(value) => value,
            };
            out.append(value.as_str());
            proof {
                text::until_is_a_prefix(after@, '}');
                assert(tail@ =~= raw@.skip(i + 2 + length + 1));
                if let Ok(end) = expansion(label@, raw@, tail@, vars) {
                    assert(before + (value@ + end) =~= out@ + end);
                }
            }
            i = i + 2 + length + 1;
        } else {
            out.push(chars[i]);
            proof {
                assert(rest.skip(1) =~= raw@.skip(i + 1));
                if let Ok(end) = expansion(label@, raw@, rest.skip(1), vars) {
                    assert(before + (seq![rest[0]] + end) =~= out@ + end);
                }
            }
            i += 1;
        }
    }
    assert(raw@.skip(i as int) =~= Seq::empty());
    assert(out@ + Seq::<char>::empty() =~= out@);
    Ok(out)
}

/// The name of the variable, where `raw` is exactly one `${VAR}` reference and nothing else.
pub open spec fn reference(raw: Seq<char>) -> Option<Seq<char>> {
    if raw.len() > 3 && raw[0] == '$' && raw[1] == '{' && raw.last() == '}' {
        let inner = raw.subrange(2, raw.len() - 1);
        if inner.contains('$') || inner.contains('{') || inner.contains('}') {
            None
        } else {
            Some(inner)
        }
    } else {
        None
    }
}

/// If `raw` is exactly one `${VAR}` reference and nothing else, returns the variable name.
pub fn env_reference(raw: &str) -> (name: Option<String>)
    ensures
        name.deep_view() == reference(raw@),
{
    let chars = text::chars_of(raw);
    if chars.len() <= 3 || chars[0] != '$' || chars[1] != '{' || chars[chars.len() - 1] != '}' {
        return None;
    }
    let end: usize = chars.len() - 1;
    let ghost inner = raw@.subrange(2, end as int);
    let mut i: usize = 2;
    while i < end
        invariant
            2 <= i <= end,
            end == chars@.len() - 1,
            chars@ == raw@,
            inner == raw@.subrange(2, end as int),
            raw@.len() > 3,
            forall|j: int| 0 <= j < i - 2 ==> inner[j] != '$' && inner[j] != '{' && inner[j] != '}',
        decreases end - i,
    {
        let c = chars[i];
        assert(inner[i - 2] == c);
        if c == '$' || c == '{' || c == '}' {
            assert(inner.contains(c));
            return None;
        }
        i += 1;
    }
    Some(text::slice_of(&chars, 2, end))
}

/// What was read of a token file: its contents, or why it could not be read.
pub type FileRead = core::result::Result<String, String>;

/// The credential that a `token` / `token_file` pair stands for, as value and origin, or the error
/// it is refused with. The file is given by its path and by what was read of it.
pub open spec fn credential(
    label: Seq<char>,
    inline: Option<Seq<char>>,
    file: Option<(Seq<char>, core::result::Result<Seq<char>, Seq<char>>)>,
    variables: Seq<(Seq<char>, Seq<char>)>,
) -> core::result::Result<SecretView, BridgeErrorView> {
    match (inline, file) {
        (Some(_), Some(_)) => Err(
            BridgeErrorView::Config {
                message: label + " sets both `token` and `token_file`; use exactly one"@,
            },
        ),
        (None, None) => Err(
            BridgeErrorView::Config {
                message: label + " is missing a credential; set `token` or `token_file`"@,
            },
        ),
        (Some(raw), None) => match expansion(label, raw, raw, variables) {
            Err(message) => Err(BridgeErrorView::Config { message }),
            Ok(value) => if value.len() == 0 {
                Err(
                    BridgeErrorView::Config {
                        message: label + " resolved `token` to an empty string"@,
                    },
                )
            } else {
                Ok(
                    SecretView {
                        value,
                        origin: match reference(raw) {
                            Some(name) => "${"@ + name + "}"@,
                            None => "inline config"@,
                        },
                    },
                )
            },
        },
        (None, Some((path, read))) => match read {
            Err(source) => Err(BridgeErrorView::ConfigRead { path, source }),
            Ok(contents) => if text::trimmed(contents).len() == 0 {
                Err(
                    BridgeErrorView::Config {
                        message: label + " points `token_file` at "@ + native::shown_path(path) + ", which is empty"@,
                    },
                )
            } else {
                Ok(SecretView { value: text::trimmed(contents), origin: native::shown_path(path) })
            },
        },
    }
}

/// What is said of a credential that was accepted: a token that stands in the config file itself is
/// a real risk (backups, version control, world readable perms), so it is never silent.
pub open spec fn advisories(label: Seq<char>, inline: Option<Seq<char>>) -> Seq<Seq<char>> {
    match inline {
        Some(raw) if reference(raw) is None => seq![
            label + " holds an inline plaintext token; prefer ${ENV_VAR} or `token_file`"@,
        ],
        _ => Seq::empty(),
    }
}

/// What a token file is: its path, and what was read of it.
pub open spec fn file_view(file: Option<(&str, &FileRead)>) -> Option<
    (Seq<char>, core::result::Result<Seq<char>, Seq<char>>),
> {
    match file {
        Some((path, read)) => Some(
            (
                path@,
                match read {
                    Ok(contents) => Ok(contents@),
                    Err(source) => Err(source@),
                },
            ),
        ),
        None => None,
    }
}

/// Resolves the `token` / `token_file` pair that every credential-bearing config table exposes.
///
/// Exactly one of the two must be set. `label` names the table for error messages (for example
/// `[meka]` or `[[channels.telegram]] id = "main"`).
///
/// Advisories are pushed into `warnings` rather than logged, because configuration is resolved
/// before the tracing subscriber exists; the caller replays them once logging is up.
pub fn resolve(
    label: &str,
    inline: Option<&str>,
    file: Option<(&str, &FileRead)>,
    variables: &Vec<(String, String)>,
    warnings: &mut Vec<String>,
) -> (secret: Result<Secret>)
    ensures
        match secret {
            Ok(secret) => {
                &&& credential(
                    label@,
                    inline.deep_view(),
                    file_view(file),
                    variables.deep_view(),
                ) == Ok::<SecretView, BridgeErrorView>(secret@)
                &&& final(warnings).deep_view() == old(warnings).deep_view() + advisories(
                    label@,
                    inline.deep_view(),
                )
            },
            Err(error) => {
                &&& credential(
                    label@,
                    inline.deep_view(),
                    file_view(file),
                    variables.deep_view(),
                ) == Err::<SecretView, BridgeErrorView>(error.deep_view())
                &&& final(warnings).deep_view() == old(warnings).deep_view()
            },
        },
{
    match (inline, file) {
        (Some(_), Some(_)) => Err(
            BridgeError::config(
                label.to_owned().concat(
                    " sets both `token` and `token_file`; use exactly one",
                ).as_str(),
            ),
        ),
        (None, None) => Err(
            BridgeError::config(
                label.to_owned().concat(
                    " is missing a credential; set `token` or `token_file`",
                ).as_str(),
            ),
        ),
        (Some(raw), None) => {
            let value = match substitute_env(label, raw, variables) {
                Ok(value) => value,
                Err(error) => {
                    return Err(error);
                },
            };
            if text::chars_of(value.as_str()).len() == 0 {
                return Err(
                    BridgeError::config(
                        label.to_owned().concat(" resolved `token` to an empty string").as_str(),
                    ),
                );
            }
            let origin = match env_reference(raw) {
                Some(name) => "${".to_owned().concat(name.as_str()).concat("}"),
                None => {
                    text::push(
                        warnings,
                        label.to_owned().concat(
                            " holds an inline plaintext token; prefer ${ENV_VAR} or `token_file`",
                        ),
                    );
                    "inline config".to_owned()
                },
            };
            assert(warnings.deep_view() =~= old(warnings).deep_view() + advisories(
                label@,
                inline.deep_view(),
            ));
            Ok(Secret::new(value.as_str(), origin.as_str()))
        },
        (None, Some((path, read))) => {
            assert(old(warnings).deep_view() + advisories(label@, inline.deep_view()) =~= old(
                warnings,
            ).deep_view());
            match read {
                Err(source) => Err(
                    BridgeError::ConfigRead { path: path.to_owned(), source: source.clone() },
                ),
                Ok(contents) => {
                    // Trailing newlines are what `echo 'token' > file` produces, so trimming them
                    // is the difference between working and a baffling 401.
                    let value = text::trim(contents.as_str());
                    let shown = native::to_shown(path);
                    if text::chars_of(value.as_str()).len() == 0 {
                        return Err(
                            BridgeError::config(
                                label.to_owned().concat(" points `token_file` at ").concat(
                                    shown.as_str(),
                                ).concat(", which is empty").as_str(),
                            ),
                        );
                    }
                    Ok(Secret::new(value.as_str(), shown.as_str()))
                },
            }
        },
    }
}

} // verus!
