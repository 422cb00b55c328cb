//! Replies as Discord shows them.

use mekabridge::channel::discord::render::{to_markdown, MESSAGE_LIMIT};

fn render(markdown: &str) -> String {
    to_markdown(markdown, MESSAGE_LIMIT).join("\n---\n")
}

#[test]
fn render_plain_text_passes_through() {
    assert_eq!(render("hello world"), "hello world");
}

#[test]
fn inline_styles_map_to_discords_dialect() {
    assert_eq!(render("**bold**"), "**bold**");
    assert_eq!(render("*italic*"), "*italic*");
    assert_eq!(render("~~gone~~"), "~~gone~~");
    assert_eq!(render("`code`"), "`code`");
}

#[test]
fn headings_survive_as_headings() {
    assert_eq!(render("# Title"), "# Title");
    assert_eq!(render("### Smaller"), "### Smaller");
}

#[test]
fn headings_past_the_third_level_become_bold() {
    // Discord has no h4, and bold is what it would have to degrade to anyway.
    assert_eq!(render("#### Deep"), "**Deep**");
}

#[test]
fn a_snake_case_word_does_not_come_out_italicised() {
    // The whole reason this module escapes rather than passing Markdown through.
    assert_eq!(
        render("call send_message_now here"),
        "call send\\_message\\_now here"
    );
}

#[test]
fn literal_asterisks_stay_literal() {
    assert_eq!(render(r"2 \* 3 \* 4"), "2 \\* 3 \\* 4");
}

#[test]
fn a_code_span_is_not_escaped_inside() {
    assert_eq!(render("`send_message(a_b)`"), "`send_message(a_b)`");
}

#[test]
fn a_backtick_inside_a_code_span_widens_the_fence() {
    assert_eq!(render("``a ` b``"), "`` a ` b ``");
}

#[test]
fn a_fenced_block_keeps_its_language() {
    assert_eq!(
        render("```rust\nfn main() {}\n```"),
        "```rust\nfn main() {}\n```"
    );
}

#[test]
fn a_fence_inside_a_code_block_cannot_close_it_early() {
    let rendered = render("````\nsee ``` here\n````");
    assert_eq!(rendered.matches("```\n").count(), 1);
    assert!(rendered.ends_with("\n```"));
}

#[test]
fn a_quote_marks_every_line_it_wraps_onto() {
    let rendered = render("> first\n> second");
    for line in rendered.lines() {
        assert!(
            line.starts_with("> "),
            "unquoted line {line:?} in {rendered:?}"
        );
    }
}

#[test]
fn an_explicit_mention_the_agent_wrote_survives() {
    // The only way the agent can deliberately ping somebody: it is never given a name-to-id
    // path, so escaping the `<` here would leave it no way at all. `allowed_mentions` on the
    // send is what decides whether the ping actually notifies.
    assert_eq!(
        render("ping <@245119312739729408> about it"),
        "ping <@245119312739729408> about it"
    );
    assert_eq!(
        render("see <#1183429847290374144>"),
        "see <#1183429847290374144>"
    );
}

#[test]
fn a_heading_inside_a_quote_stays_inside_the_quote() {
    let rendered = render("> # Title\n>\n> body");
    for line in rendered.lines().filter(|line| !line.trim().is_empty()) {
        assert!(line.starts_with("> "), "escaped the quote: {rendered:?}");
    }
}

#[test]
fn a_link_becomes_an_inline_link() {
    assert_eq!(
        render("[docs](https://example.com/a_b)"),
        "[docs](https://example.com/a_b)"
    );
}

#[test]
fn a_table_degrades_to_a_code_block() {
    // Discord has no tables, and monospace at least keeps the columns lined up.
    let rendered = render("| a | b |\n|---|---|\n| 1 | 2 |");
    assert!(rendered.starts_with("```\n"), "got {rendered:?}");
    assert!(rendered.contains("a | b"), "got {rendered:?}");
}

#[test]
fn a_list_becomes_bulleted_lines() {
    assert_eq!(render("- one\n- two"), "\u{2022} one\n\u{2022} two");
}

#[test]
fn a_long_reply_splits_evenly_rather_than_into_walls_and_stragglers() {
    // Shrinking the budget for only the group that overflowed produced a full message followed
    // by a single word, over and over. Correct by the letter of the limit, unreadable in a
    // chat.
    let chunks = to_markdown(&"snake_case_identifier ".repeat(200), MESSAGE_LIMIT);
    let shortest = chunks.iter().map(|c| c.chars().count()).min().unwrap_or(0);
    let longest = chunks.iter().map(|c| c.chars().count()).max().unwrap_or(0);
    assert!(chunks.len() >= 2, "this should split at all");
    assert!(
        shortest * 4 >= longest,
        "parts are {:?} characters, which reads as a wall and then scraps",
        chunks.iter().map(|c| c.chars().count()).collect::<Vec<_>>()
    );
}

#[test]
fn every_chunk_stays_within_the_limit() {
    // Discord counts the markup, not the text under it, so escapes and fences are charged to
    // the same 2000 characters. Anything over is rejected by the client library before it is
    // sent, which loses the whole reply rather than truncating it.
    for source in [
        "word ".repeat(3000),
        "snake_case_identifier ".repeat(200),
        format!("```\n{}\n```", "x".repeat(1995)),
        "[x] ".repeat(500),
        "*".repeat(2400),
        format!("> {}", "quoted words ".repeat(400)),
        format!("# {}", "heading ".repeat(400)),
    ] {
        for chunk in to_markdown(&source, MESSAGE_LIMIT) {
            assert!(
                chunk.chars().count() <= MESSAGE_LIMIT,
                "a chunk of {} characters would be refused; source began {:?}",
                chunk.chars().count(),
                &source[..40.min(source.len())]
            );
        }
    }
}

#[test]
fn input_that_renders_to_nothing_produces_no_messages() {
    assert!(to_markdown("   \n\n  ", MESSAGE_LIMIT).is_empty());
}

#[test]
fn no_run_of_backticks_closes_a_code_block() {
    for count in 3..=9 {
        let fence = "`".repeat(count + 1);
        let ticks = "`".repeat(count);
        let rendered = render(&format!("{fence}\nsee {ticks} here\n{fence}"));
        assert_eq!(rendered.matches("```").count(), 2, "of {rendered:?}");
        assert!(rendered.starts_with("```\nsee "), "of {rendered:?}");
        assert!(rendered.ends_with(" here\n```"), "of {rendered:?}");
        assert_eq!(rendered.matches('`').count(), count + 6, "of {rendered:?}");
    }
}

#[test]
fn the_fence_of_a_code_span_outruns_every_run_inside() {
    assert_eq!(render("````a ``` b````"), "```` a ``` b ````");
    assert_eq!(render("```a `` b```"), "``` a `` b ```");
    assert_eq!(render("``a ` b``"), "`` a ` b ``");
}

#[test]
fn a_link_longer_than_a_message_is_written_out() {
    let address = format!("https://example.com/{}", "x".repeat(2500));
    let chunks = to_markdown(&format!("[a]({address})"), MESSAGE_LIMIT);
    assert!(chunks.len() >= 2);
    for chunk in &chunks {
        assert!(chunk.chars().count() <= MESSAGE_LIMIT);
    }
    let shown: String = chunks.concat();
    assert!(shown.starts_with("a (https://example.com/"), "{}", &shown[..40]);
    assert_eq!(shown.matches('x').count(), 2501);
    // One that fits is left as the link it is.
    let short = format!("https://example.com/{}", "x".repeat(1500));
    assert_eq!(
        to_markdown(&format!("[a]({short})"), MESSAGE_LIMIT),
        vec![format!("[a]({short})")]
    );
}

#[test]
fn a_reply_just_too_long_is_cut_in_two_of_a_size() {
    let lengths: Vec<usize> = to_markdown(&"x".repeat(MESSAGE_LIMIT + 1), MESSAGE_LIMIT)
        .iter()
        .map(|chunk| chunk.chars().count())
        .collect();
    assert_eq!(lengths.len(), 2);
    assert_eq!(lengths.iter().sum::<usize>(), MESSAGE_LIMIT + 1);
    assert!(lengths.iter().all(|length| *length >= MESSAGE_LIMIT / 2), "{lengths:?}");
}
