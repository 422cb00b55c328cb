//! Credentials: where they come from, and how they are written.

use mekabridge::config::secret::{env_reference, resolve, substitute_env, FileRead, Secret};
use mekabridge::error::BridgeError;

fn variables(entries: &[(&str, &str)]) -> Vec<(String, String)> {
    entries
        .iter()
        .map(|(name, value)| (name.to_string(), value.to_string()))
        .collect()
}

#[test]
fn secret_debug_and_display_redact() {
    let secret = Secret::new("sk_live_abcdef", "${TOKEN}");
    assert_eq!(secret.to_debug(), "Secret(<redacted from ${TOKEN}>)");
    assert_eq!(secret.to_text(), "<redacted from ${TOKEN}>");
    assert!(!secret.to_debug().contains("abcdef"));
    // Two that came from the same place are written alike.
    let other = Secret::new("another", "${TOKEN}");
    assert_eq!(other.to_debug(), secret.to_debug());
    assert_eq!(other.to_text(), secret.to_text());
}

#[test]
fn substitute_env_expands_and_keeps_surrounding_text() {
    let set = variables(&[("MEKABRIDGE_TEST_SUBST", "middle")]);
    let out =
        substitute_env("[test]", "left-${MEKABRIDGE_TEST_SUBST}-right", &set).expect("expands");
    assert_eq!(out, "left-middle-right");
}

#[test]
fn substitute_env_reports_missing_variable() {
    let error = substitute_env("[test]", "${MEKABRIDGE_TEST_DEFINITELY_UNSET}", &Vec::new())
        .expect_err("must fail on unset variable");
    assert!(error
        .to_text()
        .contains("MEKABRIDGE_TEST_DEFINITELY_UNSET"));
}

#[test]
fn substitute_env_rejects_unterminated_placeholder() {
    let error = substitute_env("[test]", "${OPEN", &Vec::new()).expect_err("must fail");
    assert!(error.to_text().contains("unterminated"));
}

#[test]
fn substitute_env_passes_through_plain_strings() {
    assert_eq!(
        substitute_env("[test]", "no placeholders here", &Vec::new()).expect("passes through"),
        "no placeholders here"
    );
}

#[test]
fn substitution_is_not_repeated_on_what_it_put_in() {
    let set = variables(&[("A", "${B}"), ("B", "x")]);
    assert_eq!(
        substitute_env("[test]", "${A}${B}$", &set).expect("expands"),
        "${B}x$"
    );
}

#[test]
fn env_reference_matches_only_whole_string_references() {
    assert_eq!(env_reference("${TOKEN}").as_deref(), Some("TOKEN"));
    assert_eq!(env_reference("prefix-${TOKEN}"), None);
    assert_eq!(env_reference("${}"), None);
    assert_eq!(env_reference("plain"), None);
}

#[test]
fn resolve_rejects_both_sources() {
    let read: FileRead = Ok("y".to_string());
    let error = resolve(
        "[test]",
        Some("x"),
        Some(("/tmp/x", &read)),
        &Vec::new(),
        &mut Vec::new(),
    )
    .map(|_| ())
    .expect_err("both sources must be rejected");
    assert!(error.to_text().contains("exactly one"));
}

#[test]
fn resolve_rejects_neither_source() {
    let error = resolve("[test]", None, None, &Vec::new(), &mut Vec::new())
        .map(|_| ())
    .expect_err("missing credential must be rejected");
    assert!(error.to_text().contains("missing a credential"));
}

#[test]
fn resolve_trims_token_file_contents() {
    let path = "/run/secrets/token";
    let read: FileRead = Ok("sk_from_file\n".to_string());
    let secret = resolve("[test]", None, Some((path, &read)), &Vec::new(), &mut Vec::new())
        .expect("resolves");
    assert_eq!(secret.expose(), "sk_from_file");
    assert_eq!(secret.origin(), path);
}

#[test]
fn resolve_rejects_empty_token_file() {
    let read: FileRead = Ok("   \n".to_string());
    let error = resolve(
        "[test]",
        None,
        Some(("/run/secrets/token", &read)),
        &Vec::new(),
        &mut Vec::new(),
    )
    .map(|_| ())
    .expect_err("empty file must be rejected");
    assert!(error.to_text().contains("empty"));
}

#[test]
fn a_token_file_that_cannot_be_read_is_named() {
    let read: FileRead = Err("permission denied".to_string());
    let error = resolve(
        "[test]",
        None,
        Some(("/run/secrets/token", &read)),
        &Vec::new(),
        &mut Vec::new(),
    )
    .map(|_| ())
    .expect_err("an unreadable file must be rejected");
    assert!(matches!(error, BridgeError::ConfigRead { .. }));
    assert_eq!(
        error.to_text(),
        "could not read config file /run/secrets/token: permission denied"
    );
}

#[test]
fn only_an_inline_token_draws_a_warning() {
    let set = variables(&[("TOKEN", "sk"), ("EMPTY", "")]);
    let mut warnings = Vec::new();
    let secret =
        resolve("[test]", Some("${TOKEN}"), None, &set, &mut warnings).expect("resolves");
    assert_eq!(secret.expose(), "sk");
    assert_eq!(secret.origin(), "${TOKEN}");
    assert!(warnings.is_empty());
    let secret = resolve("[test]", Some("plain"), None, &set, &mut warnings).expect("resolves");
    assert_eq!(secret.origin(), "inline config");
    assert_eq!(
        warnings,
        vec!["[test] holds an inline plaintext token; prefer ${ENV_VAR} or `token_file`"]
    );
    let error = resolve("[test]", Some("${EMPTY}"), None, &set, &mut warnings)
        .map(|_| ())
    .expect_err("an empty token is no token");
    assert!(error.to_text().contains("empty string"));
    assert_eq!(warnings.len(), 1, "a refusal adds nothing");
}
