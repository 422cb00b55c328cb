//! A reply written as Discord Markdown.
//!
//! Discord speaks Markdown rather than a markup subset, which sounds like it should make this a
//! passthrough and does not. Discord's dialect has no tables, no images, and no horizontal rules,
//! its headings stop at three levels, and, most importantly, text that was never meant as markup is
//! still read as markup: `snake_case_names` come out italicised and `2 * 3 * 4` turns into bold.
//! So agent output is parsed, and written out again with everything that is not deliberate
//! formatting escaped.
//!
//! The limit is 2000 characters against Telegram's 4096, so replies split about twice as often.

use vstd::prelude::*;
use vstd::string::*;

use crate::render::split::{self, Dialect, Home};
use crate::render::verbatim;
use crate::render::{into_messages, push_span, Block, BlockView, Span, SpanView, Style};
use crate::text;

pub mod laws;

verus! {

/// Discord's per-message character limit.
pub const MESSAGE_LIMIT: usize = 2000;

/// Whether Discord reads `c` as markup wherever it stands.
pub open spec fn is_markup(c: char) -> bool {
    c == '*' || c == '_' || c == '~' || c == '`' || c == '|' || c == '\\' || c == '[' || c == ']'
}

/// Whether Discord reads `c` as markup at the start of a line.
pub open spec fn is_line_markup(c: char) -> bool {
    c == '#' || c == '>' || c == '-'
}

/// One character, escaped where Discord would read it as markup.
pub open spec fn escaped_char(c: char, at_line_start: bool) -> Seq<char> {
    if is_markup(c) || (is_line_markup(c) && at_line_start) {
        seq!['\\', c]
    } else {
        seq![c]
    }
}

/// Whether what follows `text` starts a line, given whether `text` itself does.
pub open spec fn then_line_start(text: Seq<char>, at_line_start: bool) -> bool {
    if text.len() == 0 {
        at_line_start
    } else {
        text.last() == '\n'
    }
}

/// `text` with every character that Discord would read as markup escaped.
pub open spec fn escaped(text: Seq<char>, at_line_start: bool) -> Seq<char>
    decreases text.len(),
{
    if text.len() == 0 {
        Seq::empty()
    } else {
        let before = text.drop_last();
        escaped(before, at_line_start) + escaped_char(
            text.last(),
            then_line_start(before, at_line_start),
        )
    }
}

/// How many backticks `text` ends with.
pub open spec fn last_run(text: Seq<char>) -> nat
    decreases text.len(),
{
    if text.len() == 0 || text.last() != '`' {
        0
    } else {
        last_run(text.drop_last()) + 1
    }
}

/// How many backticks stand together in `text` at most.
pub open spec fn longest_run(text: Seq<char>) -> nat
    decreases text.len(),
{
    if text.len() == 0 {
        0
    } else {
        let before = longest_run(text.drop_last());
        if last_run(text) > before {
            last_run(text)
        } else {
            before
        }
    }
}

/// So many backticks.
pub open spec fn ticks(count: nat) -> Seq<char> {
    Seq::new(count, |i: int| '`')
}

/// The run of backticks that fences a code span: one longer than every run inside.
pub open spec fn fence(text: Seq<char>) -> Seq<char> {
    ticks(longest_run(text) + 1)
}

/// What pads a code span inside its fence.
pub open spec fn fence_pad(text: Seq<char>) -> Seq<char> {
    when(longest_run(text) > 0, " "@)
}

/// `mark` where `on`, and nothing otherwise.
pub open spec fn when(on: bool, mark: Seq<char>) -> Seq<char> {
    if on {
        mark
    } else {
        Seq::empty()
    }
}

/// The text of a span in its style, given what its line already holds.
pub open spec fn styled(text: Seq<char>, style: Style, line: Seq<char>) -> Seq<char> {
    if style.code {
        line + fence(text) + fence_pad(text) + text + fence_pad(text) + fence(text)
    } else {
        let opened = line + when(style.strikethrough, "~~"@) + when(style.bold, "**"@) + when(
            style.italic,
            "*"@,
        );
        opened + escaped(text, text::at_line_start(opened)) + when(style.italic, "*"@) + when(
            style.bold,
            "**"@,
        ) + when(style.strikethrough, "~~"@)
    }
}

/// `line` with a span appended to it.
pub open spec fn with_span(line: Seq<char>, span: SpanView) -> Seq<char> {
    match span.link {
        Some(link) => styled(span.text, span.style, line + "["@) + "]("@ + text::replaced(
            link,
            ")"@,
            "%29"@,
        ) + ")"@,
        None => styled(span.text, span.style, line),
    }
}

/// `line` with a run of spans appended to it, none of them bold where `unbolded`.
pub open spec fn with_spans(line: Seq<char>, spans: Seq<SpanView>, unbolded: bool) -> Seq<char>
    decreases spans.len(),
{
    if spans.len() == 0 {
        line
    } else {
        let span = spans.last();
        with_span(
            with_spans(line, spans.drop_last(), unbolded),
            if unbolded {
                SpanView { style: Style { bold: false, ..span.style }, ..span }
            } else {
                span
            },
        )
    }
}

/// `body` with every line of it quoted.
pub open spec fn quoted_lines(body: Seq<char>) -> Seq<char>
    decreases body.len(),
{
    if body.len() == 0 {
        "> "@
    } else if body.last() == '\n' {
        quoted_lines(body.drop_last()) + "\n"@ + "> "@
    } else {
        quoted_lines(body.drop_last()).push(body.last())
    }
}

/// `body`, quoted where it belongs inside a blockquote.
pub open spec fn maybe_quoted(body: Seq<char>, quoted: bool) -> Seq<char> {
    if quoted {
        quoted_lines(body)
    } else {
        body
    }
}

/// Whether `c` may stand in the language tag of a code fence.
pub open spec fn is_tag_char(c: char) -> bool {
    'a' <= c <= 'z' || 'A' <= c <= 'Z' || '0' <= c <= '9' || c == '+' || c == '-'
}

/// The characters of `language` that may stand in a language tag.
pub open spec fn tag_chars(language: Seq<char>) -> Seq<char>
    decreases language.len(),
{
    if language.len() == 0 {
        Seq::empty()
    } else if is_tag_char(language.last()) {
        tag_chars(language.drop_last()).push(language.last())
    } else {
        tag_chars(language.drop_last())
    }
}

/// The language tag that a fence carries for `language`, at most 32 characters long.
pub open spec fn tag(language: Seq<char>) -> Seq<char> {
    let chars = tag_chars(language);
    if chars.len() <= 32 {
        chars
    } else {
        chars.take(32)
    }
}

/// The marker of a heading, where Discord has one of that level.
pub open spec fn hashes(level: u8) -> Seq<char> {
    Seq::new(level as nat, |i: int| '#')
}

/// A block as Discord Markdown.
pub open spec fn block_text(block: BlockView) -> Seq<char> {
    match block {
        BlockView::Text { spans, quoted, .. } => maybe_quoted(
            with_spans(Seq::empty(), spans, false),
            quoted,
        ),
        BlockView::Heading { level, spans, quoted } => maybe_quoted(
            if level <= 3 {
                with_spans(hashes(level) + " "@, spans, false)
            } else {
                with_spans("**"@, spans, true) + "**"@
            },
            quoted,
        ),
        BlockView::Pre { language, text } => {
            let label = match language {
                Some(language) => tag(language),
                None => Seq::empty(),
            };
            "```"@ + label + "\n"@ + fenced_body(text) + "\n```"@
        },
    }
}

/// What stands between two neighbouring blocks: a line break where either is tight, a blank line
/// otherwise.
pub open spec fn between(previous: BlockView, block: BlockView) -> Seq<char> {
    if crate::render::tight(previous) || crate::render::tight(block) {
        "\n"@
    } else {
        "\n\n"@
    }
}

/// A run of blocks as Discord Markdown.
pub open spec fn group_text(blocks: Seq<BlockView>) -> Seq<char>
    decreases blocks.len(),
{
    if blocks.len() == 0 {
        Seq::empty()
    } else if blocks.len() == 1 {
        block_text(blocks[0])
    } else {
        let before = blocks.drop_last();
        group_text(before) + between(before.last(), blocks.last()) + block_text(blocks.last())
    }
}

/// Appends `text` to `out`, escaping every character Discord would otherwise read as markup.
///
/// Line-leading `#`, `>`, and `-` are escaped too, because a span can start a line even when it did
/// not start the block, and an unescaped one turns the rest of the line into a heading, a quote, or
/// a list item.
///
/// `<` is deliberately left alone. `<@id>` is the only way the agent can write a mention it means,
/// and whether that ping notifies is decided by the allowed mentions on the send rather than here.
pub fn escape(text: &str, out: &mut String)
    ensures
        final(out)@ == old(out)@ + escaped(text@, text::at_line_start(old(out)@)),
{
    let start = text::starts_line(out.as_str());
    let ghost before = out@;
    let mut at_line_start = start;
    let chars = text::chars_of(text);
    let mut i: usize = 0;
    while i < chars.len()
        invariant
            i <= chars@.len(),
            chars@ == text@,
            start == text::at_line_start(before),
            at_line_start == then_line_start(text@.take(i as int), start),
            out@ == before + escaped(text@.take(i as int), start),
        decreases chars@.len() - i,
    {
        let c = chars[i];
        assert(text@.take(i + 1).drop_last() == text@.take(i as int));
        let ghost written = escaped(text@.take(i as int), start);
        if c == '*' || c == '_' || c == '~' || c == '`' || c == '|' || c == '\\' || c == '[' || c
            == ']' || ((c == '#' || c == '>' || c == '-') && at_line_start) {
            out.push('\\');
            out.push(c);
            assert(out@ == before + (written + seq!['\\', c]));
        } else {
            out.push(c);
            assert(out@ == before + (written + seq![c]));
        }
        at_line_start = c == '\n';
        i += 1;
    }
    assert(text@.take(i as int) == text@);
}

/// How many backticks stand together in `text` at most.
fn run_of(text: &str) -> (longest: usize)
    ensures
        longest == longest_run(text@),
{
    let chars = text::chars_of(text);
    let mut run: usize = 0;
    let mut longest: usize = 0;
    let mut i: usize = 0;
    assert(text@.take(0) =~= Seq::empty());
    while i < chars.len()
        invariant
            i <= chars@.len(),
            chars@ == text@,
            run <= i,
            run == last_run(text@.take(i as int)),
            longest == longest_run(text@.take(i as int)),
        decreases chars@.len() - i,
    {
        assert(text@.take(i + 1).drop_last() =~= text@.take(i as int));
        if chars[i] == '`' {
            run += 1;
        } else {
            run = 0;
        }
        if run > longest {
            longest = run;
        }
        i += 1;
    }
    assert(text@.take(i as int) =~= text@);
    longest
}

/// A run of backticks that is one longer than `run`.
fn ticks_of(run: usize) -> (fence: String)
    ensures
        fence@ == ticks(run as nat + 1),
{
    let mut fence = String::new();
    let mut i: usize = 0;
    while i < run
        invariant
            i <= run,
            fence@ == ticks(i as nat),
        decreases run - i,
    {
        fence.push('`');
        i += 1;
        assert(fence@ =~= ticks(i as nat));
    }
    fence.push('`');
    assert(fence@ =~= ticks(run as nat + 1));
    fence
}

/// Appends a span to a line.
pub fn render_span(span: &Span, out: &mut String)
    ensures
        final(out)@ == with_span(old(out)@, span.deep_view()),
{
    if span.link.is_some() {
        out.append("[");
    }
    let ghost opened = out@;
    let content = span.text.as_str();
    if span.style.code {
        let run: usize = run_of(content);
        let ticked = run > 0;
        let fence = ticks_of(run);
        out.append(fence.as_str());
        if ticked {
            out.append(" ");
        }
        out.append(content);
        if ticked {
            out.append(" ");
        }
        out.append(fence.as_str());
    } else {
        // A fixed open order means the matching close order is fixed too, so nesting can never
        // interleave incorrectly.
        if span.style.strikethrough {
            out.append("~~");
        }
        if span.style.bold {
            out.append("**");
        }
        if span.style.italic {
            out.append("*");
        }
        assert(out@ == opened + when(span.style.strikethrough, "~~"@) + when(
            span.style.bold,
            "**"@,
        ) + when(span.style.italic, "*"@));
        escape(content, out);
        if span.style.italic {
            out.append("*");
        }
        if span.style.bold {
            out.append("**");
        }
        if span.style.strikethrough {
            out.append("~~");
        }
    }
    assert(out@ == styled(span.text@, span.style, opened));
    if let Some(link) = &span.link {
        out.append("](");
        proof {
            reveal_strlit(")");
        }
        // Only the delimiters need handling: percent-encoding the whole URL would corrupt one that
        // is already encoded, and Discord accepts spaces inside angle brackets.
        out.append(text::replace(link.as_str(), ")", "%29").as_str());
        out.append(")");
    }
}

/// Appends a run of spans to a line, none of them bold where `unbolded`.
fn render_spans(spans: &Vec<Span>, unbolded: bool, out: &mut String)
    ensures
        final(out)@ == with_spans(old(out)@, spans.deep_view(), unbolded),
{
    let ghost line = out@;
    let ghost views = spans.deep_view();
    let mut i: usize = 0;
    while i < spans.len()
        invariant
            i <= spans.len(),
            views == spans.deep_view(),
            out@ == with_spans(line, views.take(i as int), unbolded),
        decreases spans.len() - i,
    {
        assert(views.take(i + 1).drop_last() == views.take(i as int));
        assert(views.take(i + 1).last() == spans@[i as int].deep_view());
        if unbolded {
            let mut span = spans[i].copy();
            span.style = Style { bold: false, ..span.style };
            render_span(&span, out);
        } else {
            render_span(&spans[i], out);
        }
        i += 1;
    }
    assert(views.take(i as int) == views);
}

/// Appends `body`, quoting every line of it when it belongs inside a blockquote.
///
/// Discord's `>` applies to one line, so a wrapped quote needs the marker repeated rather than the
/// `>>>` block form, which would swallow everything after it in the same message.
pub fn push_quoted(body: &str, quoted: bool, out: &mut String)
    ensures
        final(out)@ == old(out)@ + maybe_quoted(body@, quoted),
{
    if !quoted {
        out.append(body);
        return;
    }
    let ghost before = out@;
    out.append("> ");
    let chars = text::chars_of(body);
    let mut i: usize = 0;
    assert(body@.take(0) =~= Seq::empty());
    while i < chars.len()
        invariant
            i <= chars@.len(),
            chars@ == body@,
            out@ == before + quoted_lines(body@.take(i as int)),
        decreases chars@.len() - i,
    {
        assert(body@.take(i + 1).drop_last() == body@.take(i as int));
        let ghost written = quoted_lines(body@.take(i as int));
        if chars[i] == '\n' {
            out.append("\n");
            out.append("> ");
            assert(out@ == before + (written + "\n"@ + "> "@));
        } else {
            out.push(chars[i]);
            assert(out@ == before + written.push(chars@[i as int]));
        }
        i += 1;
    }
    assert(body@.take(i as int) == body@);
}

/// Keeps a code fence's language tag to something Discord will treat as one.
pub fn sanitize_language(language: &str) -> (kept: String)
    ensures
        kept@ == tag(language@),
{
    let chars = text::chars_of(language);
    let mut kept: Vec<char> = Vec::new();
    let mut i: usize = 0;
    assert(language@.take(0) =~= Seq::empty());
    while i < chars.len()
        invariant
            i <= chars@.len(),
            chars@ == language@,
            kept@ == tag_chars(language@.take(i as int)),
        decreases chars@.len() - i,
    {
        let c = chars[i];
        assert(language@.take(i + 1).drop_last() == language@.take(i as int));
        if ('a' <= c && c <= 'z') || ('A' <= c && c <= 'Z') || ('0' <= c && c <= '9') || c == '+'
            || c == '-' {
            kept.push(c);
        }
        i += 1;
    }
    assert(language@.take(i as int) == language@);
    let length: usize = if kept.len() <= 32 {
        kept.len()
    } else {
        32
    };
    let out = text::slice_of(&kept, 0, length);
    assert(out@ == tag(language@));
    out
}

/// The body of a code block, with every run of backticks that could close it broken.
fn break_fences(text: &str) -> (out: String)
    ensures
        out@ == fenced_body(text@),
{
    let chars = text::chars_of(text);
    let mut out = String::new();
    let mut i: usize = 0;
    assert(text@.skip(0) =~= text@);
    assert(out@ + fenced_body(text@) =~= fenced_body(text@));
    while i < chars.len()
        invariant
            i <= chars@.len(),
            chars@ == text@,
            out@ + fenced_body(text@.skip(i as int)) == fenced_body(text@),
        decreases chars@.len() - i,
    {
        let ghost rest = text@.skip(i as int);
        let ghost before = out@;
        assert(rest[0] == chars@[i as int]);
        assert(rest.skip(1) =~= text@.skip(i + 1));
        out.push(chars[i]);
        let left: usize = chars.len() - i;
        if left >= 3 && chars[i] == '`' && chars[i + 1] == '`' && chars[i + 2] == '`' {
            out.push('\u{200b}');
            assert(begins_fence(rest));
            assert(out@ + fenced_body(rest.skip(1)) =~= before + (seq!['`', '\u{200b}']
                + fenced_body(rest.skip(1))));
        } else {
            assert(!begins_fence(rest));
            assert(out@ + fenced_body(rest.skip(1)) =~= before + (seq![rest[0]] + fenced_body(
                rest.skip(1),
            )));
        }
        i += 1;
    }
    assert(text@.skip(i as int) =~= Seq::empty());
    assert(out@ =~= fenced_body(text@));
    out
}

/// Writes one block.
fn render_block(block: &Block) -> (out: String)
    ensures
        out@ == block_text(block.deep_view()),
{
    let mut out = String::new();
    match block {
        Block::Text { spans, quoted, .. } => {
            let mut body = String::new();
            render_spans(spans, false, &mut body);
            push_quoted(body.as_str(), *quoted, &mut out);
        },
        Block::Heading { level, spans, quoted } => {
            let mut body = String::new();
            // Discord stops at three levels. Deeper ones become bold, which is what they would
            // have to degrade to anyway and is still visibly a heading.
            if *level <= 3 {
                let mut i: u8 = 0;
                while i < *level
                    invariant
                        i <= *level,
                        body@ == hashes(i),
                    decreases *level - i,
                {
                    body.push('#');
                    i += 1;
                    assert(body@ =~= hashes(i));
                }
                body.append(" ");
                render_spans(spans, false, &mut body);
            } else {
                body.append("**");
                assert(body@ =~= "**"@);
                render_spans(spans, true, &mut body);
                body.append("**");
            }
            push_quoted(body.as_str(), *quoted, &mut out);
        },
        Block::Pre { language, text } => {
            out.append("```");
            if let Some(language) = language {
                out.append(sanitize_language(language.as_str()).as_str());
            }
            out.append("\n");
            // A fence inside the body would close the block early. Breaking the run with a
            // zero-width space keeps the text readable and the block intact, which beats dropping
            // the content or emitting markup Discord will mis-parse.
            out.append(break_fences(text.as_str()).as_str());
            out.append("\n```");
        },
    }
    assert(out@ =~= block_text(block.deep_view()));
    out
}

/// Writes a run of blocks as one message.
pub fn render_group(blocks: &Vec<Block>) -> (out: String)
    ensures
        out@ == group_text(blocks.deep_view()),
{
    let ghost views = blocks.deep_view();
    let mut out = String::new();
    let mut i: usize = 0;
    while i < blocks.len()
        invariant
            i <= blocks.len(),
            views == blocks.deep_view(),
            out@ == group_text(views.take(i as int)),
        decreases blocks.len() - i,
    {
        let ghost before = views.take(i as int);
        assert(views.take(i + 1).drop_last() == before);
        if i > 0 {
            assert(before.last() == blocks@[i - 1].deep_view());
            out.append(
                if blocks[i - 1].is_tight() || blocks[i].is_tight() {
                    "\n"
                } else {
                    "\n\n"
                },
            );
        }
        out.append(render_block(&blocks[i]).as_str());
        assert(out@ =~= group_text(views.take(i + 1)));
        i += 1;
    }
    assert(views.take(i as int) == views);
    out
}

/// How many characters a single character may need beside its link: its marks, the brackets of the
/// link, and those of its heading or its quote.
pub const LINK_ROOM: usize = 32;

/// Whether no message could carry a link beside a single character.
pub open spec fn is_heavy(link: Seq<char>, limit: usize) -> bool {
    text::replaced(link, ")"@, "%29"@).len() + LINK_ROOM > limit || link.contains('\n')
}

/// A span whose link no message could carry, with the address written out behind its text.
pub open spec fn written_out(span: SpanView, link: Seq<char>) -> Seq<SpanView> {
    seq![
        SpanView { link: None, ..span },
        SpanView { text: " ("@ + link + ")"@, style: crate::render::plain_style(), link: None },
    ]
}

/// A span as it is cut: without a link that no message could carry, and gone where it holds nothing.
pub open spec fn eased_span(span: SpanView, limit: usize) -> Seq<SpanView> {
    if span.text.len() == 0 {
        Seq::empty()
    } else {
        match span.link {
            Some(link) => if is_heavy(link, limit) {
                written_out(span, link)
            } else {
                seq![span]
            },
            None => seq![span],
        }
    }
}

/// A run of spans as it is cut.
pub open spec fn eased_spans(spans: Seq<SpanView>, limit: usize) -> Seq<SpanView>
    decreases spans.len(),
{
    if spans.len() == 0 {
        Seq::empty()
    } else {
        eased_spans(spans.drop_last(), limit) + eased_span(spans.last(), limit)
    }
}

/// A block as it is cut where it is too long: a link that no message could carry is written out behind
/// its text, where it can be cut like any other.
pub open spec fn eased_block(block: BlockView, limit: usize) -> BlockView {
    match block {
        BlockView::Text { spans, quoted, tight } => BlockView::Text {
            spans: eased_spans(spans, limit),
            quoted,
            tight,
        },
        BlockView::Heading { level, spans, quoted } => BlockView::Heading {
            level,
            spans: eased_spans(spans, limit),
            quoted,
        },
        BlockView::Pre { .. } => block,
    }
}

/// Whether every span holds something and has no link that no message could carry.
pub open spec fn light_spans(spans: Seq<SpanView>, limit: usize) -> bool {
    forall|i: int|
        0 <= i < spans.len() ==> (#[trigger] spans[i]).text.len() > 0 && (
        spans[i].link matches Some(link) ==> !is_heavy(link, limit))
}

/// Whether a message can carry every single character of a block with what belongs to it.
pub open spec fn light_block(block: BlockView, limit: usize) -> bool {
    match block {
        BlockView::Text { spans, .. } => light_spans(spans, limit),
        BlockView::Heading { spans, .. } => light_spans(spans, limit),
        BlockView::Pre { .. } => true,
    }
}

fn link_is_heavy(link: &str, limit: usize) -> (heavy: bool)
    ensures
        heavy == is_heavy(link@, limit),
{
    proof {
        reveal_strlit(")");
    }
    let room = text::chars_of(text::replace(link, ")", "%29").as_str()).len();
    if limit < LINK_ROOM || room > limit - LINK_ROOM {
        return true;
    }
    let chars = text::chars_of(link);
    let mut i: usize = 0;
    while i < chars.len()
        invariant
            i <= chars@.len(),
            chars@ == link@,
            forall|j: int| 0 <= j < i ==> link@[j] != '\n',
        decreases chars@.len() - i,
    {
        if chars[i] == '\n' {
            assert(link@[i as int] == '\n');
            return true;
        }
        i += 1;
    }
    false
}

fn ease_spans(spans: &Vec<Span>, limit: usize) -> (eased: Vec<Span>)
    ensures
        eased.deep_view() == eased_spans(spans.deep_view(), limit),
{
    let ghost views = spans.deep_view();
    let mut eased: Vec<Span> = Vec::new();
    let mut i: usize = 0;
    assert(eased.deep_view() =~= Seq::empty());
    while i < spans.len()
        invariant
            i <= spans.len(),
            views == spans.deep_view(),
            eased.deep_view() == eased_spans(views.take(i as int), limit),
        decreases spans.len() - i,
    {
        let ghost before = eased.deep_view();
        let ghost span = views[i as int];
        assert(views.take(i + 1).drop_last() =~= views.take(i as int));
        assert(views.take(i + 1).last() == span);
        assert(span == spans@[i as int].deep_view());
        if text::chars_of(spans[i].text.as_str()).len() > 0 {
            let heavy = match &spans[i].link {
                Some(link) => link_is_heavy(link.as_str(), limit),
                None => false,
            };
            if heavy {
                let mut address = " (".to_owned();
                if let Some(link) = &spans[i].link {
                    address.append(link.as_str());
                }
                address.append(")");
                push_span(
                    &mut eased,
                    Span { text: spans[i].text.clone(), style: spans[i].style, link: None },
                );
                push_span(&mut eased, Span { text: address, style: Style::plain(), link: None });
                assert(eased.deep_view() =~= before + written_out(span, span.link->0));
            } else {
                push_span(&mut eased, spans[i].copy());
                assert(eased.deep_view() =~= before + seq![span]);
            }
        } else {
            assert(eased.deep_view() =~= before + Seq::<SpanView>::empty());
        }
        i += 1;
    }
    assert(views.take(i as int) =~= views);
    eased
}

proof fn easing_spans_lightens(spans: Seq<SpanView>, home: Home, limit: usize)
    ensures
        light_spans(eased_spans(spans, limit), limit),
        split::inked(split::spans_cells(spans), home).len() <= split::inked(
            split::spans_cells(eased_spans(spans, limit)),
            home,
        ).len(),
    decreases spans.len(),
{
    reveal_strlit(" (");
    if spans.len() > 0 {
        let before = spans.drop_last();
        let span = spans.last();
        let eased = eased_span(span, limit);
        let whole = eased_spans(spans, limit);
        let front = eased_spans(before, limit);
        easing_spans_lightens(before, home, limit);
        assert forall|i: int| 0 <= i < whole.len() implies (#[trigger] whole[i]).text.len() > 0 && (
        whole[i].link matches Some(link) ==> !is_heavy(link, limit)) by {
            if i < front.len() {
                assert(whole[i] == front[i]);
            } else {
                assert(whole[i] == eased[i - front.len()]);
            }
        }
        split::cells_of_join(front, eased);
        split::ink_of_parts(split::spans_cells(before), split::span_cells(span), home);
        split::ink_of_parts(split::spans_cells(front), split::spans_cells(eased), home);
        if span.text.len() == 0 {
            assert(split::span_cells(span) =~= Seq::empty());
        } else if eased.len() == 1 {
            split::cells_of_one(span);
        } else {
            let bare = SpanView { link: None, ..span };
            let address = eased[1];
            assert(eased =~= seq![bare] + seq![address]);
            split::cells_of_join(seq![bare], seq![address]);
            split::cells_of_one(bare);
            split::ink_of_parts(split::span_cells(bare), split::spans_cells(seq![address]), home);
            split::ink_is_in_the_letters(
                split::span_cells(span),
                split::span_cells(bare),
                home,
            );
        }
    }
}

proof fn cutting_spans_keeps_light(spans: Seq<SpanView>, at: int, limit: usize)
    requires
        light_spans(spans, limit),
    ensures
        light_spans(split::spans_head(spans, at), limit),
        light_spans(split::spans_tail(spans, at), limit),
    decreases spans.len(),
{
    if spans.len() > 0 && at > 0 {
        let first = spans[0];
        let others = spans.skip(1);
        assert forall|i: int| 0 <= i < others.len() implies (#[trigger] others[i]).text.len() > 0 && (
        others[i].link matches Some(link) ==> !is_heavy(link, limit)) by {
            assert(others[i] == spans[i + 1]);
        }
        cutting_spans_keeps_light(others, at - first.text.len(), limit);
        let start = split::spans_head(spans, at);
        let end = split::spans_tail(spans, at);
        assert forall|i: int| 0 <= i < start.len() implies (#[trigger] start[i]).text.len() > 0 && (
        start[i].link matches Some(link) ==> !is_heavy(link, limit)) by {
            if i > 0 {
                assert(start[i] == split::spans_head(others, at - first.text.len())[i - 1]);
            }
        }
        assert forall|i: int| 0 <= i < end.len() implies (#[trigger] end[i]).text.len() > 0 && (
        end[i].link matches Some(link) ==> !is_heavy(link, limit)) by {
            if first.text.len() > at && i > 0 {
                assert(end[i] == others[i - 1]);
            }
        }
    }
}

/// Discord's dialect of Markdown, every character of which counts: escapes and fences included,
/// since the limit applies to what is sent, not to what it renders as.
pub struct Discord;

proof fn escaping_loses_nothing(text: Seq<char>, at_line_start: bool)
    ensures
        escaped(text, at_line_start).len() >= text.len(),
    decreases text.len(),
{
    if text.len() > 0 {
        escaping_loses_nothing(text.drop_last(), at_line_start);
    }
}

proof fn spans_show_their_text(line: Seq<char>, spans: Seq<SpanView>)
    ensures
        with_spans(line, spans, false).len() >= line.len() + split::spans_cells(
            spans,
        ).len(),
    decreases spans.len(),
{
    if spans.len() > 0 {
        let span = spans.last();
        let before = with_spans(line, spans.drop_last(), false);
        spans_show_their_text(line, spans.drop_last());
        let line = match span.link {
            Some(_) => before + "["@,
            None => before,
        };
        let opened = line + when(span.style.strikethrough, "~~"@) + when(span.style.bold, "**"@)
            + when(span.style.italic, "*"@);
        escaping_loses_nothing(span.text, text::at_line_start(opened));
        assert(styled(span.text, span.style, line).len() >= line.len() + span.text.len());
    }
}

impl Dialect for Discord {
    open spec fn rendered(blocks: Seq<BlockView>) -> Seq<char> {
        group_text(blocks)
    }

    open spec fn length(text: Seq<char>) -> nat {
        text.len()
    }

    fn render(blocks: &Vec<Block>) -> (message: String) {
        render_group(blocks)
    }

    fn fits(message: &str, limit: usize) -> (within: bool) {
        text::chars_of(message).len() <= limit
    }

    proof fn shows(blocks: Seq<BlockView>) {
        reveal_strlit("\n");
        reveal_strlit("\n\n");
        reveal_strlit("> ");
        reveal_strlit(" ");
        reveal_strlit("**");
        reveal_strlit("```");
        if blocks.len() == 1 {
            assert(split::ink(blocks.drop_last()) =~= Seq::empty());
            match blocks[0] {
                BlockView::Text { spans, quoted, .. } => {
                    spans_show_their_text(Seq::empty(), spans);
                    quoting_starts_with_a_marker(with_spans(Seq::empty(), spans, false));
                },
                BlockView::Heading { level, spans, quoted } => {
                    if level <= 3 {
                        spans_show_their_text(hashes(level) + " "@, spans);
                        quoting_starts_with_a_marker(
                            with_spans(hashes(level) + " "@, spans, false),
                        );
                    } else {
                        quoting_starts_with_a_marker(with_spans("**"@, spans, true) + "**"@);
                    }
                },
                BlockView::Pre { .. } => {},
            }
        }
    }

    open spec fn least() -> nat {
        41
    }

    open spec fn eased(block: BlockView, limit: usize) -> BlockView {
        eased_block(block, limit)
    }

    open spec fn light(block: BlockView, limit: usize) -> bool {
        light_block(block, limit)
    }

    fn ease(block: Block, limit: usize) -> (eased: Block) {
        match block {
            Block::Text { spans, quoted, tight } => Block::Text {
                spans: ease_spans(&spans, limit),
                quoted,
                tight,
            },
            Block::Heading { level, spans, quoted } => Block::Heading {
                level,
                spans: ease_spans(&spans, limit),
                quoted,
            },
            Block::Pre { language, text } => Block::Pre { language, text },
        }
    }

    proof fn easing_lightens(block: BlockView, limit: usize) {
        split::ink_of_one(block);
        split::ink_of_one(eased_block(block, limit));
        match block {
            BlockView::Text { spans, .. } => easing_spans_lightens(
                spans,
                split::home(block),
                limit,
            ),
            BlockView::Heading { spans, .. } => easing_spans_lightens(
                spans,
                split::home(block),
                limit,
            ),
            BlockView::Pre { .. } => {},
        }
    }

    proof fn cutting_keeps_light(block: BlockView, at: int, limit: usize) {
        match block {
            BlockView::Text { spans, .. } => cutting_spans_keeps_light(spans, at, limit),
            BlockView::Heading { spans, .. } => cutting_spans_keeps_light(spans, at, limit),
            BlockView::Pre { .. } => {},
        }
    }

    proof fn a_light_character_fits(block: BlockView, limit: usize) {
        split::ink_of_one(block);
        let all = split::cells(block);
        if all.len() == 1 {
            assert(all.drop_last() =~= Seq::empty());
            assert(split::inked(all.drop_last(), split::home(block)) =~= Seq::empty());
            assert(all.last() == all[0]);
            assert(text::white('\n'));
            assert(all[0].0 != '\n');
        }
        reveal_strlit("\n");
        reveal_strlit("```");
        reveal_strlit("\n```");
        reveal_strlit(" ");
        reveal_strlit("**");
        match block {
            BlockView::Text { spans, quoted, .. } => {
                light_spans_are_few(spans, limit);
                one_span_is_short(Seq::empty(), spans, false, limit);
                let body = with_spans(Seq::empty(), spans, false);
                a_quoted_line_is_one_marker_longer(body);
            },
            BlockView::Heading { level, spans, quoted } => {
                light_spans_are_few(spans, limit);
                if level <= 3 {
                    let line = hashes(level) + " "@;
                    one_span_is_short(line, spans, false, limit);
                    a_quoted_line_is_one_marker_longer(with_spans(line, spans, false));
                } else {
                    one_span_is_short("**"@, spans, true, limit);
                    a_quoted_line_is_one_marker_longer(with_spans("**"@, spans, true) + "**"@);
                }
            },
            BlockView::Pre { text, .. } => {
                if text.len() == 1 {
                    assert(fenced_body(text.skip(1)) =~= Seq::empty());
                }
                assert(fenced_body(text).len() <= 1);
            },
        }
    }
}

proof fn light_spans_are_few(spans: Seq<SpanView>, limit: usize)
    requires
        light_spans(spans, limit),
    ensures
        spans.len() <= split::spans_cells(spans).len(),
    decreases spans.len(),
{
    if spans.len() > 0 {
        let before = spans.drop_last();
        assert forall|i: int| 0 <= i < before.len() implies (#[trigger] before[i]).text.len() > 0 && (
        before[i].link matches Some(link) ==> !is_heavy(link, limit)) by {
            assert(before[i] == spans[i]);
        }
        light_spans_are_few(before, limit);
        assert(spans[spans.len() - 1].text.len() > 0);
    }
}

proof fn no_line_is_broken_by_encoding(link: Seq<char>)
    requires
        !link.contains('\n'),
    ensures
        !text::replaced(link, ")"@, "%29"@).contains('\n'),
    decreases link.len(),
{
    reveal_strlit(")");
    reveal_strlit("%29");
    let whole = text::replaced(link, ")"@, "%29"@);
    if link.len() > 0 {
        let rest = link.skip(1);
        assert forall|i: int| 0 <= i < rest.len() implies rest[i] != '\n' by {
            assert(link[i + 1] != '\n');
        }
        no_line_is_broken_by_encoding(rest);
        let tail = text::replaced(rest, ")"@, "%29"@);
        assert forall|i: int| 0 <= i < whole.len() implies whole[i] != '\n' by {
            assert(link[0] != '\n');
            let lead: int = whole.len() - tail.len();
            if i >= lead {
                assert(whole[i] == tail[i - lead]);
            }
        }
    }
}

/// What a run of at most one character comes to in length, on a line that was begun, and that it does
/// not break the line.
proof fn one_span_is_short(line: Seq<char>, spans: Seq<SpanView>, unbolded: bool, limit: usize)
    requires
        light_spans(spans, limit),
        spans.len() <= 1,
        split::spans_cells(spans).len() <= 1,
        forall|i: int|
            0 <= i < split::spans_cells(spans).len() ==> split::spans_cells(spans)[i].0 != '\n',
        !line.contains('\n'),
        line.len() <= 4,
        limit >= 41,
    ensures
        with_spans(line, spans, unbolded).len() + 4 <= limit,
        !with_spans(line, spans, unbolded).contains('\n'),
{
    reveal_with_fuel(with_spans, 2);
    if spans.len() == 1 {
        reveal_strlit("[");
        reveal_strlit("](");
        reveal_strlit(")");
        reveal_strlit("~~");
        reveal_strlit("**");
        reveal_strlit("*");
        reveal_strlit(" ");
        let span = spans[0];
        let style = if unbolded {
            Style { bold: false, ..span.style }
        } else {
            span.style
        };
        assert(spans.drop_last() =~= Seq::empty());
        assert(spans =~= seq![span]);
        split::cells_of_one(span);
        assert(span.text.len() == 1);
        assert(split::spans_cells(spans)[0].0 == span.text[0]);
        let begun = match span.link {
            Some(_) => line + "["@,
            None => line,
        };
        one_character_is_short(span.text, style, begun);
        if let Some(link) = span.link {
            no_line_is_broken_by_encoding(link);
        }
    }
}

proof fn one_character_is_short(text: Seq<char>, style: Style, line: Seq<char>)
    requires
        text.len() == 1,
        text[0] != '\n',
        !line.contains('\n'),
    ensures
        styled(text, style, line).len() <= line.len() + 12,
        !styled(text, style, line).contains('\n'),
{
    reveal_strlit("~~");
    reveal_strlit("**");
    reveal_strlit("*");
    reveal_strlit(" ");
    assert(text.drop_last() =~= Seq::empty());
    reveal_with_fuel(longest_run, 2);
    reveal_with_fuel(last_run, 2);
    reveal_with_fuel(escaped, 2);
    let whole = styled(text, style, line);
    if style.code {
        assert(fence(text).len() <= 2);
        assert(!fence(text).contains('\n'));
        assert forall|i: int| 0 <= i < whole.len() implies whole[i] != '\n' by {
            if i < line.len() {
                assert(whole[i] == line[i]);
            }
        }
    } else {
        assert forall|i: int| 0 <= i < whole.len() implies whole[i] != '\n' by {
            if i < line.len() {
                assert(whole[i] == line[i]);
            }
        }
    }
}

proof fn a_quoted_line_is_one_marker_longer(body: Seq<char>)
    requires
        !body.contains('\n'),
    ensures
        quoted_lines(body).len() == body.len() + 2,
    decreases body.len(),
{
    reveal_strlit("> ");
    if body.len() > 0 {
        let before = body.drop_last();
        assert(body[body.len() - 1] != '\n');
        assert forall|i: int| 0 <= i < before.len() implies before[i] != '\n' by {
            assert(body[i] != '\n');
        }
        a_quoted_line_is_one_marker_longer(before);
    }
}

proof fn quoting_starts_with_a_marker(body: Seq<char>)
    ensures
        quoted_lines(body).len() >= 2,
    decreases body.len(),
{
    reveal_strlit("> ");
    if body.len() > 0 {
        quoting_starts_with_a_marker(body.drop_last());
    }
}

/// Whether Discord reads no markup in `text`, given whether it starts a line: from left to right, a
/// backslash takes the meaning of the character after it, and no other character has one.
pub open spec fn inert(text: Seq<char>, at_line_start: bool) -> bool
    decreases text.len(),
{
    if text.len() == 0 {
        true
    } else if text[0] == '\\' {
        text.len() >= 2 && inert(text.skip(2), false)
    } else {
        &&& !is_markup(text[0])
        &&& !(is_line_markup(text[0]) && at_line_start)
        &&& inert(text.skip(1), text[0] == '\n')
    }
}

/// What Discord shows of a text without markup: each backslash gives way to the character after it.
pub open spec fn shown(text: Seq<char>) -> Seq<char>
    decreases text.len(),
{
    if text.len() == 0 {
        Seq::empty()
    } else if text[0] == '\\' && text.len() >= 2 {
        seq![text[1]] + shown(text.skip(2))
    } else {
        seq![text[0]] + shown(text.skip(1))
    }
}

/// Escaping goes from left to right.
proof fn escaping_starts_at_the_front(text: Seq<char>, at_line_start: bool)
    requires
        text.len() > 0,
    ensures
        escaped(text, at_line_start) == escaped_char(text[0], at_line_start) + escaped(
            text.skip(1),
            text[0] == '\n',
        ),
    decreases text.len(),
{
    let rest = text.skip(1);
    if text.len() == 1 {
        assert(text.drop_last() =~= Seq::empty());
        assert(escaped(text.drop_last(), at_line_start) =~= Seq::empty());
        assert(escaped(rest, text[0] == '\n') =~= Seq::empty());
    } else {
        escaping_starts_at_the_front(text.drop_last(), at_line_start);
        assert(text.drop_last().skip(1) =~= rest.drop_last());
        assert(then_line_start(text.drop_last(), at_line_start) == then_line_start(
            rest.drop_last(),
            text[0] == '\n',
        ));
    }
}

/// Text that was not meant as markup is not read as markup, and is shown as it was written.
pub proof fn escaped_text_is_shown_as_written(text: Seq<char>, at_line_start: bool)
    ensures
        inert(escaped(text, at_line_start), at_line_start),
        shown(escaped(text, at_line_start)) == text,
    decreases text.len(),
{
    if text.len() > 0 {
        let c = text[0];
        let rest = escaped(text.skip(1), c == '\n');
        let whole = escaped(text, at_line_start);
        escaping_starts_at_the_front(text, at_line_start);
        escaped_text_is_shown_as_written(text.skip(1), c == '\n');
        if is_markup(c) || (is_line_markup(c) && at_line_start) {
            assert(whole.skip(2) =~= rest);
        } else {
            assert(whole.skip(1) =~= rest);
        }
        assert(shown(whole) =~= seq![c] + shown(rest));
        assert(seq![c] + text.skip(1) =~= text);
    } else {
        assert(shown(escaped(text, at_line_start)) =~= text);
    }
}

/// Text that holds no markup is left exactly as it is.
pub proof fn text_without_markup_passes_through(text: Seq<char>, at_line_start: bool)
    requires
        forall|i: int| 0 <= i < text.len() ==> !is_markup(#[trigger] text[i]),
        forall|i: int| 0 <= i < text.len() ==> !is_line_markup(#[trigger] text[i]),
    ensures
        escaped(text, at_line_start) == text,
    decreases text.len(),
{
    if text.len() > 0 {
        let before = text.drop_last();
        assert forall|i: int| 0 <= i < before.len() implies !is_markup(#[trigger] before[i]) by {
            assert(before[i] == text[i]);
        }
        assert forall|i: int| 0 <= i < before.len() implies !is_line_markup(
            #[trigger] before[i],
        ) by {
            assert(before[i] == text[i]);
        }
        text_without_markup_passes_through(before, at_line_start);
        assert(!is_markup(text[text.len() - 1]));
        assert(!is_line_markup(text[text.len() - 1]));
        assert(escaped(text, at_line_start) =~= text);
    } else {
        assert(escaped(text, at_line_start) =~= text);
    }
}

/// Every line of a quote carries the marker, not only the first.
pub proof fn every_line_of_a_quote_is_marked(body: Seq<char>, at: int)
    requires
        0 <= at <= quoted_lines(body).len(),
        at == 0 || quoted_lines(body)[at - 1] == '\n',
    ensures
        text::begins(quoted_lines(body).skip(at), "> "@),
    decreases body.len(),
{
    reveal_strlit("> ");
    reveal_strlit("\n");
    let whole = quoted_lines(body);
    if body.len() == 0 {
        assert(at == 0);
        assert(whole.skip(0).take(2) =~= "> "@);
    } else {
        let before = quoted_lines(body.drop_last());
        if at <= before.len() && (at == 0 || before[at - 1] == '\n') {
            every_line_of_a_quote_is_marked(body.drop_last(), at);
            assert(whole.skip(at).take(2) =~= before.skip(at).take(2));
        } else {
            assert(body.last() == '\n');
            assert(at == before.len() + 1);
            assert(whole.skip(at).take(2) =~= "> "@);
        }
    }
}

/// Whether `text` begins with a run of three backticks, which would close a code block.
pub open spec fn begins_fence(text: Seq<char>) -> bool {
    text.len() >= 3 && text[0] == '`' && text[1] == '`' && text[2] == '`'
}

/// The body of a code block as it is sent: a zero-width space follows each backtick that two more
/// stand behind.
pub open spec fn fenced_body(text: Seq<char>) -> Seq<char>
    decreases text.len(),
{
    if text.len() == 0 {
        Seq::empty()
    } else if begins_fence(text) {
        seq!['`', '\u{200b}'] + fenced_body(text.skip(1))
    } else {
        seq![text[0]] + fenced_body(text.skip(1))
    }
}

/// `text` without its zero-width spaces.
pub open spec fn without_zero_width(text: Seq<char>) -> Seq<char>
    decreases text.len(),
{
    if text.len() == 0 {
        Seq::empty()
    } else if text[0] == '\u{200b}' {
        without_zero_width(text.skip(1))
    } else {
        seq![text[0]] + without_zero_width(text.skip(1))
    }
}

proof fn a_broken_fence_opens_no_fence(text: Seq<char>)
    ensures
        fenced_body(text).len() > 0 <==> text.len() > 0,
        text.len() > 0 ==> fenced_body(text)[0] == text[0],
        fenced_body(text).len() > 1 && fenced_body(text)[0] == '`' && fenced_body(text)[1] == '`'
            ==> text.len() > 1 && text[0] == '`' && text[1] == '`',
    decreases text.len(),
{
    if text.len() > 0 {
        a_broken_fence_opens_no_fence(text.skip(1));
    }
}

/// Nothing inside a code block can close it: what is sent holds no run of three backticks, whatever
/// the block holds.
pub proof fn a_fence_inside_a_block_does_not_close_it(text: Seq<char>)
    ensures
        !text::contains(fenced_body(text), "```"@),
    decreases text.len(),
{
    reveal_strlit("```");
    let whole = fenced_body(text);
    if text.len() > 0 {
        let rest = text.skip(1);
        let tail = fenced_body(rest);
        let lead: int = whole.len() - tail.len();
        a_fence_inside_a_block_does_not_close_it(rest);
        a_broken_fence_opens_no_fence(rest);
        assert forall|at: int| !#[trigger] text::stands_at(whole, "```"@, at) by {
            if text::stands_at(whole, "```"@, at) {
                let found = whole.subrange(at, at + 3);
                assert(found[0] == '`' && found[1] == '`' && found[2] == '`');
                assert(whole[at] == '`' && whole[at + 1] == '`' && whole[at + 2] == '`');
                if at >= lead {
                    assert(tail.subrange(at - lead, at - lead + 3) =~= found);
                    assert(text::stands_at(tail, "```"@, at - lead));
                } else if begins_fence(text) {
                    assert(whole[1] == '\u{200b}');
                } else {
                    assert(tail[0] == '`' && tail[1] == '`');
                    assert(rest[0] == '`' && rest[1] == '`');
                }
            }
        }
    }
}

/// Breaking the runs of backticks in a code block adds zero-width spaces and nothing else.
pub proof fn a_code_block_loses_nothing(text: Seq<char>)
    ensures
        without_zero_width(fenced_body(text)) == without_zero_width(text),
    decreases text.len(),
{
    if text.len() > 0 {
        let whole = fenced_body(text);
        let tail = fenced_body(text.skip(1));
        a_code_block_loses_nothing(text.skip(1));
        if begins_fence(text) {
            assert(whole.skip(1) =~= seq!['\u{200b}'] + tail);
            assert(whole.skip(1).skip(1) =~= tail);
            assert(without_zero_width(whole.skip(1)) == without_zero_width(tail));
        } else {
            assert(whole.skip(1) =~= tail);
        }
    } else {
        assert(fenced_body(text) =~= text);
    }
}

proof fn no_run_is_longer(text: Seq<char>, from: int, to: int)
    requires
        0 <= from <= to <= text.len(),
        forall|i: int| from <= i < to ==> text[i] == '`',
    ensures
        to - from <= longest_run(text),
        to == text.len() ==> to - from <= last_run(text),
    decreases text.len(),
{
    if from < to {
        let before = text.drop_last();
        if to == text.len() {
            assert(text[to - 1] == '`');
            assert forall|i: int| from <= i < to - 1 implies before[i] == '`' by {
                assert(text[i] == '`');
            }
            no_run_is_longer(before, from, to - 1);
        } else {
            assert forall|i: int| from <= i < to implies before[i] == '`' by {
                assert(text[i] == '`');
            }
            no_run_is_longer(before, from, to);
        }
    }
}

/// Nothing inside a code span can close it: its fence is a run of backticks longer than every run
/// inside.
pub proof fn a_fence_is_longer_than_every_run_inside(text: Seq<char>, from: int, to: int)
    requires
        0 <= from <= to <= text.len(),
        forall|i: int| from <= i < to ==> text[i] == '`',
    ensures
        fence(text).len() > to - from,
        forall|i: int| 0 <= i < fence(text).len() ==> fence(text)[i] == '`',
{
    no_run_is_longer(text, from, to);
}

/// Whether the characters of `part` stand in `whole`, in the same order.
pub open spec fn is_kept(part: Seq<char>, whole: Seq<char>) -> bool
    decreases whole.len(),
{
    part.len() == 0 || (whole.len() > 0 && ((part.last() == whole.last() && is_kept(
        part.drop_last(),
        whole.drop_last(),
    )) || is_kept(part, whole.drop_last())))
}

proof fn what_is_kept_stays_kept(part: Seq<char>, whole: Seq<char>, more: Seq<char>, both: bool)
    requires
        is_kept(part, whole),
    ensures
        both ==> is_kept(part + more, whole + more),
        !both ==> is_kept(part, whole + more),
    decreases more.len(),
{
    if more.len() == 0 {
        assert(part + more =~= part);
        assert(whole + more =~= whole);
    } else {
        let before = more.drop_last();
        what_is_kept_stays_kept(part, whole, before, both);
        assert((whole + more).drop_last() =~= whole + before);
        assert((part + more).drop_last() =~= part + before);
    }
}

proof fn easing_spans_keeps_their_text(spans: Seq<SpanView>, limit: usize)
    ensures
        is_kept(
            verbatim::characters(split::spans_cells(spans)),
            verbatim::characters(split::spans_cells(eased_spans(spans, limit))),
        ),
    decreases spans.len(),
{
    let part = verbatim::characters(split::spans_cells(spans));
    if spans.len() > 0 {
        let before = spans.drop_last();
        let span = spans.last();
        let front = eased_spans(before, limit);
        let eased = eased_span(span, limit);
        let part_before = verbatim::characters(split::spans_cells(before));
        let whole_before = verbatim::characters(split::spans_cells(front));
        let whole = verbatim::characters(split::spans_cells(eased_spans(spans, limit)));
        easing_spans_keeps_their_text(before, limit);
        split::cells_of_join(front, eased);
        assert(part =~= part_before + span.text);
        what_is_kept_stays_kept(part_before, whole_before, span.text, true);
        if span.text.len() == 0 {
            assert(split::spans_cells(eased) =~= Seq::empty());
            assert(whole =~= whole_before + span.text);
        } else if eased.len() == 1 {
            split::cells_of_one(span);
            assert(whole =~= whole_before + span.text);
        } else {
            let bare = SpanView { link: None, ..span };
            let address = eased[1];
            assert(eased =~= seq![bare] + seq![address]);
            split::cells_of_join(seq![bare], seq![address]);
            split::cells_of_one(bare);
            split::cells_of_one(address);
            assert(whole =~= whole_before + span.text + address.text);
            what_is_kept_stays_kept(part, whole_before + span.text, address.text, false);
        }
    } else {
        assert(part.len() == 0);
    }
}

/// Writing out a link that no message could carry keeps every character of the text, in order.
pub proof fn writing_a_link_out_keeps_the_text(block: BlockView, limit: usize)
    ensures
        is_kept(
            verbatim::characters(split::cells(block)),
            verbatim::characters(split::cells(eased_block(block, limit))),
        ),
{
    match block {
        BlockView::Text { spans, .. } => easing_spans_keeps_their_text(spans, limit),
        BlockView::Heading { spans, .. } => easing_spans_keeps_their_text(spans, limit),
        BlockView::Pre { .. } => {
            let all = verbatim::characters(split::cells(block));
            what_is_kept_stays_kept(Seq::empty(), Seq::empty(), all, true);
            assert(Seq::<char>::empty() + all =~= all);
        },
    }
}

/// A block whose links a message can carry is cut as it is.
pub proof fn a_light_block_is_cut_as_it_is(block: BlockView, limit: usize)
    requires
        light_block(block, limit),
    ensures
        eased_block(block, limit) == block,
{
    match block {
        BlockView::Text { spans, .. } => light_spans_are_cut_as_they_are(spans, limit),
        BlockView::Heading { spans, .. } => light_spans_are_cut_as_they_are(spans, limit),
        BlockView::Pre { .. } => {},
    }
}

proof fn light_spans_are_cut_as_they_are(spans: Seq<SpanView>, limit: usize)
    requires
        light_spans(spans, limit),
    ensures
        eased_spans(spans, limit) == spans,
    decreases spans.len(),
{
    if spans.len() > 0 {
        let before = spans.drop_last();
        assert forall|i: int| 0 <= i < before.len() implies (#[trigger] before[i]).text.len() > 0 && (
        before[i].link matches Some(link) ==> !is_heavy(link, limit)) by {
            assert(before[i] == spans[i]);
        }
        light_spans_are_cut_as_they_are(before, limit);
        assert(spans[spans.len() - 1].text.len() > 0);
        assert(before + seq![spans.last()] =~= spans);
    } else {
        assert(eased_spans(spans, limit) =~= spans);
    }
}

/// Every message that a reply is rendered into stays within the limit, escapes, fences and links
/// included, wherever the limit has room for a single character with its marks.
pub proof fn every_message_stays_within_the_limit(blocks: Seq<BlockView>, limit: usize, i: int)
    requires
        limit >= 41,
        0 <= i < split::messages_of::<Discord>(blocks, limit).len(),
    ensures
        split::messages_of::<Discord>(blocks, limit)[i].len() <= limit,
{
    split::every_message_stays_within_the_limit::<Discord>(blocks, limit, i);
}

/// Whether a run of spans is plain text: no styles and no links.
pub open spec fn unadorned(spans: Seq<SpanView>) -> bool {
    forall|i: int|
        0 <= i < spans.len() ==> (#[trigger] spans[i]).style == crate::render::plain_style()
            && spans[i].link is None
}

proof fn escaping_at_most_doubles(text: Seq<char>, at_line_start: bool)
    ensures
        escaped(text, at_line_start).len() <= 2 * text.len(),
    decreases text.len(),
{
    if text.len() > 0 {
        escaping_at_most_doubles(text.drop_last(), at_line_start);
    }
}

proof fn unadorned_spans_are_short(spans: Seq<SpanView>)
    requires
        unadorned(spans),
    ensures
        with_spans(Seq::empty(), spans, false).len() <= 2 * split::spans_cells(spans).len(),
    decreases spans.len(),
{
    if spans.len() > 0 {
        let before = spans.drop_last();
        assert forall|i: int| 0 <= i < before.len() implies (#[trigger] before[i]).style
            == crate::render::plain_style() && before[i].link is None by {
            assert(before[i] == spans[i]);
        }
        unadorned_spans_are_short(before);
        let line = with_spans(Seq::empty(), before, false);
        let span = spans[spans.len() - 1];
        let opened = line + Seq::empty() + Seq::empty() + Seq::empty();
        escaping_at_most_doubles(span.text, text::at_line_start(opened));
    }
}

proof fn cutting_adorns_nothing(spans: Seq<SpanView>, at: int)
    requires
        unadorned(spans),
    ensures
        unadorned(split::spans_head(spans, at)),
        unadorned(split::spans_tail(spans, at)),
    decreases spans.len(),
{
    if spans.len() > 0 && at > 0 {
        let first = spans[0];
        let others = spans.skip(1);
        assert forall|i: int| 0 <= i < others.len() implies (#[trigger] others[i]).style
            == crate::render::plain_style() && others[i].link is None by {
            assert(others[i] == spans[i + 1]);
        }
        if first.text.len() <= at {
            cutting_adorns_nothing(others, at - first.text.len());
        }
    }
}

proof fn easing_adorns_nothing(spans: Seq<SpanView>, limit: usize)
    requires
        unadorned(spans),
    ensures
        unadorned(eased_spans(spans, limit)),
    decreases spans.len(),
{
    if spans.len() > 0 {
        let before = spans.drop_last();
        assert forall|i: int| 0 <= i < before.len() implies (#[trigger] before[i]).style
            == crate::render::plain_style() && before[i].link is None by {
            assert(before[i] == spans[i]);
        }
        easing_adorns_nothing(before, limit);
        assert(spans[spans.len() - 1].link is None);
    }
}

proof fn plain_text_is_roomy(spans: Seq<SpanView>, tight: bool, limit: usize)
    requires
        unadorned(spans),
    ensures
        split::roomy::<Discord>(
            BlockView::Text { spans, quoted: false, tight },
            limit as int / 2,
            limit,
        ),
{
    let block = BlockView::Text { spans, quoted: false, tight };
    let few = limit as int / 2;
    let all = split::cells(block);
    assert forall|from: int, at: int|
        0 <= from && 0 <= at <= few && from + at <= all.len() implies #[trigger] split::head_fits::<
        Discord,
    >(split::tail(block, from), at, limit) by {
        let rest = split::tail(block, from);
        split::cells_of_tail(block, from);
        split::cells_of_head(rest, at);
        cutting_adorns_nothing(spans, from);
        let left = split::spans_tail(spans, from);
        cutting_adorns_nothing(left, at);
        unadorned_spans_are_short(split::spans_head(left, at));
    }
    assert forall|from: int| 0 <= from <= all.len() && all.len() - from <= few implies split::within::<
        Discord,
    >(seq![#[trigger] split::tail(block, from)], limit) by {
        split::cells_of_tail(block, from);
        cutting_adorns_nothing(spans, from);
        unadorned_spans_are_short(split::spans_tail(spans, from));
    }
}

/// A long paragraph of plain text is split into messages of a size, however much of it is escaped:
/// each but the last, which a cut leaves rather than takes, has an eighth of what a message can carry.
pub proof fn no_message_is_a_scrap(spans: Seq<SpanView>, tight: bool, limit: usize)
    requires
        unadorned(spans),
    ensures
        ({
            let block = BlockView::Text { spans, quoted: false, tight };
            let messages = split::messages_of::<Discord>(seq![block], limit);
            forall|i: int|
                0 <= i < messages.len() - 1 ==> 8 * (#[trigger] messages[i]).len() >= limit - 1
        }),
{
    let block = BlockView::Text { spans, quoted: false, tight };
    let blocks = seq![block];
    let groups = split::groups_of::<Discord>(blocks, limit);
    let messages = split::messages_of::<Discord>(blocks, limit);
    let whole = split::sent::<Discord>(block, limit);
    if !(split::ink(blocks).len() > 0 && split::within::<Discord>(blocks, limit)) {
        let (done, rest) = split::pieces_of::<Discord>(whole, limit);
        easing_adorns_nothing(spans, limit);
        plain_text_is_roomy(spans, tight, limit);
        plain_text_is_roomy(eased_spans(spans, limit), tight, limit);
        split::no_part_is_a_scrap::<Discord>(whole, limit, limit as int / 2);
        assert(blocks.skip(1) =~= Seq::empty());
        assert forall|i: int| 0 <= i < messages.len() - 1 implies 8 * (#[trigger] messages[i]).len()
            >= limit - 1 by {
            if split::visible(block) {
                let next = match rest {
                    Some(rest) => seq![rest],
                    None => Seq::empty(),
                };
                let held = split::packed::<Discord>(blocks.skip(1), next, limit);
                assert(held.len() <= 1);
                assert(groups =~= done + held);
                assert(groups[i] == done[i]);
                let part = split::pieces_of::<Discord>(whole, limit).0[i];
                split::parts_stay_at_home::<Discord>(whole, limit, i);
                assert(messages[i] == block_text(part[0]));
                if let BlockView::Text { spans: kept, .. } = part[0] {
                    spans_show_their_text(Seq::empty(), kept);
                }
            } else {
                assert(split::packed::<Discord>(blocks.skip(1), Seq::empty(), limit).len() == 0);
                assert(groups.len() == 0);
            }
        }
    }
}

/// Renders Markdown into one or more Discord messages, each within `limit` characters.
///
/// Returns an empty vector for input that renders to nothing, so callers do not send blank
/// messages.
pub fn to_markdown(markdown: &str, limit: usize) -> (messages: Vec<String>)
    ensures
        messages.deep_view() == split::messages_of::<Discord>(
            crate::render::blocks::blocks_of(markdown@),
            limit,
        ),
        forall|i: int| 0 <= i < messages@.len() ==> (#[trigger] messages@[i])@.len() > 0,
        messages@.len() == 0 <==> split::ink(
            crate::render::blocks::blocks_of(markdown@),
        ).len() == 0,
        limit >= 41 ==> forall|i: int|
            0 <= i < messages@.len() ==> (#[trigger] messages@[i])@.len() <= limit,
{
    into_messages::<Discord>(markdown, limit)
}

} // verus!
