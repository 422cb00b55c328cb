//! Names, numbers, moments, spans and paths.

use mekabridge::channel::discord::render::{escape, push_quoted, sanitize_language};
use mekabridge::channel::ids::{ChannelId, ConversationId};
use mekabridge::channel::telegram::render::{
    escape_attribute, escape_text, to_html, visible_length,
};
use mekabridge::channel::{ChannelError, ChatKind};
use mekabridge::config::config_path_under;
use mekabridge::error::BridgeError;
use mekabridge::paths::expand_path;
use mekabridge::paths::native::{to_bytes, to_shown, to_text, NativePath};
use mekabridge::render::verbatim::plain;
use mekabridge::store::Policy;
use mekabridge::text::{
    chars_of, join, number, one_line, pad, parse_positive, replace, same_folded, signed_number,
    split_once, strip_prefix, trim, truncate,
};
use mekabridge::time::{
    instant_of_micros, long_time, parse_rfc3339, short_time, whole_seconds, Duration,
};

#[test]
fn a_conversation_reads_back_as_it_was_written() {
    for text in ["discord:1", "telegram:-100:7", "main:@5"] {
        let id = ConversationId::parse(text).expect("an id");
        assert_eq!(id.as_str(), text);
        let again = ConversationId::new(&ChannelId::new(id.channel()), id.chat(), id.thread());
        assert_eq!(again.as_str(), text);
    }
    for text in ["", "x", ":1", "x:", "x:1:", "x::1"] {
        assert!(ConversationId::parse(text).is_none(), "{text:?} is no id");
    }
}

#[test]
fn numbers_read_back_as_they_were_written() {
    for value in [0, 7, 10, 12_345, u64::MAX] {
        assert_eq!(number(value), value.to_string());
        assert_eq!(parse_positive(&number(value)), (value != 0).then_some(value));
    }
    assert_eq!(signed_number(i64::MIN), i64::MIN.to_string());
    assert_eq!(signed_number(-1), "-1");
    assert_eq!(parse_positive("+5"), Some(5));
    assert_eq!(parse_positive("18446744073709551616"), None);
    assert_eq!(parse_positive(""), None);
}

#[test]
fn text_is_taken_apart_as_the_standard_library_does() {
    assert_eq!(trim(" \u{a0}\u{3000}a b\n"), "a b");
    assert_eq!(replace("aaa", "aa", "b"), "ba");
    assert_eq!(strip_prefix("@x", "@").as_deref(), Some("x"));
    assert_eq!(strip_prefix("x", "@"), None);
    assert_eq!(split_once("a/b/c", '/'), Some(("a".to_string(), "b/c".to_string())));
    assert_eq!(split_once("a", '/'), None);
    assert_eq!(join(&vec!["a".to_string(), "b".to_string()], ", "), "a, b");
    assert_eq!(pad("ab", 4), "ab  ");
    assert_eq!(pad("abc", 2), "abc");
    assert_eq!(chars_of("h\u{e9}"), vec!['h', '\u{e9}']);
    assert!(same_folded("Mods", "mODS"));
    assert_eq!(one_line("a\nb"), "a b");
    assert_eq!(truncate("abcd", 3), "abc\u{2026}");
}

#[test]
fn moments_are_written_and_read() {
    let at = parse_rfc3339("2026-08-12T04:34:57.115000+00:00").expect("a moment");
    assert_eq!(at, 1_786_509_297_115_000_000);
    assert_eq!(parse_rfc3339("2026-08-12T06:34:57.115+02:00"), Some(at));
    assert_eq!(parse_rfc3339("yesterday"), None);
    assert_eq!(short_time(at), "2026-08-12T04:34:57Z");
    assert_eq!(long_time(at), "2026-08-12T04:34:57.115+00:00");
    assert_eq!(long_time(-1), "1969-12-31T23:59:59.999999999+00:00");
    assert_eq!(whole_seconds(-1), -1);
    assert_eq!(instant_of_micros(-1), Some(-1_000));
    assert_eq!(instant_of_micros(i64::MAX), None);
}

#[test]
fn spans_are_written_and_read() {
    let span = Duration::from_human("1h 30m").expect("a span");
    assert_eq!(span, Duration::from_secs(5_400));
    assert_eq!(span.to_human(), "1h 30m");
    assert_eq!(Duration::new(1, 500_000_000).to_debug(), "1.5s");
    assert!(Duration::from_human("soon").is_err());
    let units = ["1ns", "1us", "1\u{b5}s", "1ms", "1 millis", "1s", "1.5 min", "2m", "1h", "1d", "1w"];
    for text in units {
        assert!(Duration::from_human(text).is_ok(), "{text}");
    }
    let longest = Duration::from_human("18446744073709551615s 999ms").expect("the last second");
    assert_eq!(longest.as_secs(), u64::MAX);
    let years = Duration::from_human("584542046090y").expect("years");
    assert_eq!(years.as_secs(), 18_446_744_073_689_784_000);
    let too_long = [
        "18446744073709551615s 1000ms",
        "18446744073709551615s 999999000ns 1000.5ns",
        "500ms 18446744073709551615.5s",
        "500ms18446744073709551615.5s 1x",
        "15s 400ms 307445734561825860.01m",
        "18446744073709551616s",
        "600000000000y",
        "1y 600000000000y",
    ];
    for text in too_long {
        let error = Duration::from_human(text).map(|_| ()).expect_err(text);
        assert!(error.starts_with("number is too large"), "{error}");
    }
    // A fraction counts for what it is, even at the very end of what can be held.
    let half_a_year = Duration::from_human("584542046090.5y").expect("years and a half");
    assert_eq!(half_a_year.as_secs(), 18_446_744_073_705_562_800);
    let last = Duration::from_human("500ms 18446744073709551615.4s").expect("the last second");
    assert_eq!((last.as_secs(), last.subsec_nanos()), (u64::MAX, 900_000_000));
    // What is wrong first is what is said.
    for (text, reason) in [
        ("x 99999999999999999999s", "expected number at 0"),
        ("18446744073709551615s, 1000ms", "invalid character at 21"),
        ("18446744073709551615s 1000ms,", "invalid character at 28"),
    ] {
        let error = Duration::from_human(text).map(|_| ()).expect_err(text);
        assert_eq!(error, reason, "of {text:?}");
    }
    assert!(span.is_spannable());
    assert!(!Duration::from_secs(u64::MAX).is_spannable());
    assert!(Duration::from_secs(1).is_shorter(&span));
    assert_eq!(Duration::new(1, 1).after(0), 1_000_000_001);
}

#[test]
fn paths_anchor_to_the_config_file() {
    let home = Some("/home/alice".to_string());
    let expand = |raw: &str| expand_path(raw, "/etc/mb", &home).expect("a path");
    assert_eq!(expand("~/x"), "/home/alice/x");
    assert_eq!(expand("x/y"), "/etc/mb/x/y");
    assert_eq!(expand("/x"), "/x");
    assert_eq!(expand_path("x", ".", &home).expect("a path"), "x");
    let error = expand_path("~/x", "/etc/mb", &None).expect_err("no home");
    assert!(matches!(error, BridgeError::Config { .. }));
}

#[test]
fn errors_say_what_they_are_about() {
    let said = |error: BridgeError| error.to_text();
    let text = || "x".to_string();
    assert_eq!(said(BridgeError::config("x")), "configuration is invalid: x");
    assert_eq!(said(BridgeError::command("x")), "x");
    assert_eq!(said(BridgeError::Channel(text())), "channel: x");
    assert_eq!(said(BridgeError::Meka(text())), "meka: x");
    assert_eq!(said(BridgeError::Store(text())), "store: x");
    assert_eq!(said(BridgeError::Io(text())), "x");
    assert_eq!(
        said(BridgeError::ConfigParse { path: "p".to_string(), source: text() }),
        "config file p is not valid TOML: x"
    );
    assert!(ChannelError::unsupported("c", "pins").to_text().contains("pins"));
    assert_eq!(Policy::Block.as_str(), "block");
    assert_eq!(ChatKind::Group.as_str(), "group");
}

fn escaped(text: &str) -> String {
    let mut out = String::new();
    escape(text, &mut out);
    out
}

#[test]
fn escaping_for_discord_leaves_nothing_to_be_read_as_markup() {
    assert_eq!(escaped("a_b*c"), "a\\_b\\*c");
    assert_eq!(escaped("# x\n- y\n> z - w"), "\\# x\n\\- y\n\\> z - w");
    assert_eq!(escaped("plain, text"), "plain, text");
    let mut out = String::new();
    push_quoted("a\n\nb", true, &mut out);
    assert_eq!(out, "> a\n> \n> b");
    assert_eq!(sanitize_language("c++ (17)"), "c++17");
}

#[test]
fn escaping_for_telegram_can_be_read_back() {
    let mut out = String::new();
    escape_text("a < b & \"c\"", &mut out);
    assert_eq!(out, "a &lt; b &amp; \"c\"");
    let mut out = String::new();
    escape_attribute("a\"b", &mut out);
    assert_eq!(out, "a&quot;b");
    // Tags and escapes cost nothing, and a character past the basic plane costs two.
    assert_eq!(visible_length("<b>a &amp; \u{1f600}</b>"), 6);
}

#[test]
fn only_a_limit_without_room_for_a_character_is_exceeded() {
    for message in to_html(&"\u{1f600}<".repeat(20), 2) {
        assert!(visible_length(&message) <= 2, "{message:?}");
    }
    for message in plain(&"**\u{1f600}** ".repeat(20), 5) {
        assert!(message.encode_utf16().count() <= 5, "{message:?}");
    }
    assert_eq!(plain("**as written**", 100), vec!["**as written**"]);
    assert!(plain(" \n", 100).is_empty());
}

#[test]
fn an_error_names_what_caused_it() {
    let error = BridgeError::ConfigRead {
        path: "/etc/meka.toml".to_string(),
        source: "no such file".to_string(),
    };
    assert_eq!(error.to_text(), "could not read config file /etc/meka.toml: no such file");
    assert_eq!(error.cause().as_deref(), Some("no such file"));
    assert_eq!(BridgeError::Store("locked".to_string()).cause().as_deref(), Some("locked"));
    assert_eq!(BridgeError::config("nothing").cause(), None);
    assert_eq!(BridgeError::command("refused").cause(), None);
    assert_eq!(BridgeError::Io("closed".to_string()).cause(), None);
}

#[test]
fn a_path_that_is_no_unicode_is_kept_and_found_again() {
    let home: NativePath = Err(b"/home/al\xffice\xe2\x82".to_vec());
    let text = to_text(&home);
    assert_eq!(text, "/home/al\0ffice\0e2\082");
    assert_eq!(to_bytes(&text), b"/home/al\xffice\xe2\x82".to_vec());
    assert_eq!(to_shown(&text), "/home/al\u{fffd}ice\u{fffd}");
    // It is joined and taken apart like any other.
    let path = expand_path("~/tokens/meka", "/etc/mb", &Some(text.clone())).expect("a path");
    assert_eq!(to_bytes(&path), b"/home/al\xffice\xe2\x82/tokens/meka".to_vec());
    let config = config_path_under(Some(text)).expect("a path");
    assert_eq!(
        to_bytes(&config),
        b"/home/al\xffice\xe2\x82/mekabridge/config.toml".to_vec()
    );
    let error = BridgeError::ConfigRead { path: config, source: "x".to_string() };
    assert_eq!(
        error.to_text(),
        "could not read config file /home/al\u{fffd}ice\u{fffd}/mekabridge/config.toml: x"
    );
}

#[test]
fn a_path_that_is_unicode_is_its_own_text() {
    let plain: NativePath = Ok("/home/\u{e9}lan/caf\u{e9}".to_string());
    let text = to_text(&plain);
    assert_eq!(text, "/home/\u{e9}lan/caf\u{e9}");
    assert_eq!(to_bytes(&text), text.as_bytes().to_vec());
    assert_eq!(to_shown(&text), text);
    // A null is no part of an escape that the path itself could have written.
    let null: NativePath = Ok("a\0ff".to_string());
    assert_eq!(to_bytes(&to_text(&null)), b"a\0ff".to_vec());
    assert_eq!(to_shown(&to_text(&null)), "a\0ff");
}
