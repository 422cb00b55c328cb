//! A reply written as Telegram HTML.
//!
//! Telegram accepts a small HTML subset (`b`, `i`, `u`, `s`, `code`, `pre`, `a`, `blockquote`,
//! `tg-spoiler`) and nothing else: no headings, lists, tables, or images. Agent output uses all of
//! those, so they are mapped onto what does exist rather than emitting markup Telegram will reject
//! with a 400.
//!
//! The 4096 limit counts characters after entity parsing, so lengths are measured on visible text
//! and markup overhead is not charged against the budget.

use vstd::prelude::*;
use vstd::string::*;

use crate::render::split::Dialect;
use crate::render::{block_separator, into_messages, Block, BlockView, Span, SpanView};
use crate::text;

pub mod laws;

verus! {

/// Telegram's per-message character limit, counted after entity parsing.
pub const MESSAGE_LIMIT: usize = 4096;

/// Caption limit for photos and documents, which is much smaller than the message limit.
pub const CAPTION_LIMIT: usize = 1024;

/// How many UTF-16 code units a character takes up.
pub open spec fn units(c: char) -> nat {
    if c as u32 >= 0x10000 {
        2
    } else {
        1
    }
}

/// What follows an entity whose `&` has just been read.
pub open spec fn after_entity(html: Seq<char>) -> Seq<char>
    decreases html.len(),
{
    if html.len() == 0 {
        html
    } else if html[0] == ';' {
        html.skip(1)
    } else {
        after_entity(html.skip(1))
    }
}

/// How long Telegram counts `html` as, given whether it starts inside a tag: tags are free, an
/// entity is the one character it renders as, and every other character counts its UTF-16 units.
pub open spec fn visible(html: Seq<char>, in_tag: bool) -> nat
    decreases html.len(),
    via visible_decreases
{
    if html.len() == 0 {
        0
    } else if html[0] == '<' {
        visible(html.skip(1), true)
    } else if html[0] == '>' {
        visible(html.skip(1), false)
    } else if in_tag {
        visible(html.skip(1), true)
    } else if html[0] == '&' {
        1 + visible(after_entity(html.skip(1)), false)
    } else {
        units(html[0]) + visible(html.skip(1), false)
    }
}

#[via_fn]
proof fn visible_decreases(html: Seq<char>, in_tag: bool) {
    if html.len() > 0 {
        entity_is_consumed(html.skip(1));
    }
}

proof fn entity_is_consumed(html: Seq<char>)
    ensures
        after_entity(html).len() <= html.len(),
    decreases html.len(),
{
    if html.len() > 0 && html[0] != ';' {
        entity_is_consumed(html.skip(1));
    }
}

/// A character of text, escaped where HTML would read it as markup.
pub open spec fn escaped_char(c: char) -> Seq<char> {
    if c == '&' {
        "&amp;"@
    } else if c == '<' {
        "&lt;"@
    } else if c == '>' {
        "&gt;"@
    } else {
        seq![c]
    }
}

/// A character of an attribute, escaped where HTML would read it as markup or as its end.
pub open spec fn attribute_char(c: char) -> Seq<char> {
    if c == '"' {
        "&quot;"@
    } else {
        escaped_char(c)
    }
}

/// `text` with every character that HTML would read as markup escaped.
pub open spec fn escaped(text: Seq<char>) -> Seq<char>
    decreases text.len(),
{
    if text.len() == 0 {
        Seq::empty()
    } else {
        escaped(text.drop_last()) + escaped_char(text.last())
    }
}

/// `text` escaped for use inside a quoted attribute.
pub open spec fn attribute(text: Seq<char>) -> Seq<char>
    decreases text.len(),
{
    if text.len() == 0 {
        Seq::empty()
    } else {
        attribute(text.drop_last()) + attribute_char(text.last())
    }
}

/// `mark` where `on`, and nothing otherwise.
pub open spec fn when(on: bool, mark: Seq<char>) -> Seq<char> {
    if on {
        mark
    } else {
        Seq::empty()
    }
}

/// What opens a link, where there is one.
pub open spec fn link_open(link: Option<Seq<char>>) -> Seq<char> {
    match link {
        Some(link) => "<a href=\""@ + attribute(link) + "\">"@,
        None => Seq::empty(),
    }
}

/// A span as HTML, without bold of its own where `bold_already_open`.
pub open spec fn span_text(span: SpanView, bold_already_open: bool) -> Seq<char> {
    let bold = span.style.bold && !bold_already_open;
    link_open(span.link) + when(bold, "<b>"@) + when(span.style.italic, "<i>"@) + when(
        span.style.strikethrough,
        "<s>"@,
    ) + when(span.style.code, "<code>"@) + escaped(span.text) + when(
        span.style.code,
        "</code>"@,
    ) + when(span.style.strikethrough, "</s>"@) + when(span.style.italic, "</i>"@) + when(
        bold,
        "</b>"@,
    ) + when(span.link is Some, "</a>"@)
}

/// A run of spans as HTML.
pub open spec fn spans_text(spans: Seq<SpanView>, bold_already_open: bool) -> Seq<char>
    decreases spans.len(),
{
    if spans.len() == 0 {
        Seq::empty()
    } else {
        spans_text(spans.drop_last(), bold_already_open) + span_text(
            spans.last(),
            bold_already_open,
        )
    }
}

/// A block as HTML. Telegram has no headings, and bold is the closest thing that survives.
pub open spec fn block_text(block: BlockView) -> Seq<char> {
    match block {
        BlockView::Text { spans, quoted, .. } => when(quoted, "<blockquote>"@) + spans_text(
            spans,
            false,
        ) + when(quoted, "</blockquote>"@),
        BlockView::Heading { spans, .. } => "<b>"@ + spans_text(spans, true) + "</b>"@,
        BlockView::Pre { language, text } => match language {
            Some(language) => "<pre><code class=\"language-"@ + attribute(language) + "\">"@
                + escaped(text) + "</code></pre>"@,
            None => "<pre>"@ + escaped(text) + "</pre>"@,
        },
    }
}

/// A run of blocks as HTML.
pub open spec fn group_text(blocks: Seq<BlockView>) -> Seq<char>
    decreases blocks.len(),
{
    if blocks.len() == 0 {
        Seq::empty()
    } else if blocks.len() == 1 {
        block_text(blocks[0])
    } else {
        let before = blocks.drop_last();
        group_text(before) + crate::render::separator(before.last(), blocks.last()) + block_text(
            blocks.last(),
        )
    }
}

/// How many UTF-16 code units a character takes up.
pub fn units_of(c: char) -> (count: u8)
    ensures
        count == units(c),
{
    if c as u32 >= 0x10000 {
        2
    } else {
        1
    }
}

/// How long Telegram counts `html` as, without a bound on the count.
fn visible_units(html: &str) -> (count: u128)
    ensures
        count == visible(html@, false),
{
    let chars = text::chars_of(html);
    let total: usize = chars.len();
    let mut count: u128 = 0;
    let mut in_tag = false;
    let mut i: usize = 0;
    assert(html@.skip(0) =~= html@);
    while i < total
        invariant
            i <= total,
            total == chars@.len(),
            chars@ == html@,
            count <= 2 * i,
            count + visible(html@.skip(i as int), in_tag) == visible(html@, false),
        decreases total - i,
    {
        let c = chars[i];
        let ghost rest = html@.skip(i as int);
        assert(rest[0] == c);
        assert(rest.skip(1) =~= html@.skip(i + 1));
        i += 1;
        if c == '<' {
            in_tag = true;
        } else if c == '>' {
            in_tag = false;
        } else if !in_tag && c == '&' {
            // An entity renders as one character of the basic plane, so one unit.
            let ghost body = html@.skip(i as int);
            let ghost start = i;
            let mut ended = false;
            while i < total && !ended
                invariant
                    start <= i <= total,
                    total == chars@.len(),
                    chars@ == html@,
                    count + 2 <= 2 * i,
                    after_entity(body) == (if ended {
                        html@.skip(i as int)
                    } else {
                        after_entity(html@.skip(i as int))
                    }),
                decreases chars@.len() - i,
            {
                assert(html@.skip(i as int)[0] == chars@[i as int]);
                assert(html@.skip(i as int).skip(1) =~= html@.skip(i + 1));
                ended = chars[i] == ';';
                i += 1;
            }
            assert(after_entity(body) =~= html@.skip(i as int));
            count += 1;
        } else if !in_tag {
            // Telegram measures a message the way it measures entity offsets, in UTF-16 code units,
            // so anything outside the basic plane costs two.
            count += units_of(c) as u128;
        }
    }
    assert(html@.skip(i as int) =~= Seq::empty());
    count
}

/// Visible character count, ignoring markup, which is what Telegram's limit applies to.
///
/// Telegram counts a message after entity parsing, so tags cost nothing against the 4096 and an
/// escaped `&amp;` counts as the one character it renders as. Charging the markup would split
/// replies far shorter than Telegram would actually accept. A count past `usize::MAX` stops there.
pub fn visible_length(html: &str) -> (count: usize)
    ensures
        visible(html@, false) <= usize::MAX ==> count == visible(html@, false),
        visible(html@, false) > usize::MAX ==> count == usize::MAX,
{
    let count: u128 = visible_units(html);
    if count <= usize::MAX as u128 {
        count as usize
    } else {
        usize::MAX
    }
}

/// Appends `text`, escaped.
pub fn escape_text(text: &str, out: &mut String)
    ensures
        final(out)@ == old(out)@ + escaped(text@),
{
    let ghost before = out@;
    let chars = text::chars_of(text);
    let mut i: usize = 0;
    while i < chars.len()
        invariant
            i <= chars@.len(),
            chars@ == text@,
            out@ == before + escaped(text@.take(i as int)),
        decreases chars@.len() - i,
    {
        let c = chars[i];
        assert(text@.take(i + 1).drop_last() == text@.take(i as int));
        let ghost written = escaped(text@.take(i as int));
        if c == '&' {
            out.append("&amp;");
        } else if c == '<' {
            out.append("&lt;");
        } else if c == '>' {
            out.append("&gt;");
        } else {
            out.push(c);
        }
        assert(out@ =~= before + (written + escaped_char(c)));
        i += 1;
    }
    assert(text@.take(i as int) == text@);
}

/// Appends `text`, escaped for use inside a quoted attribute.
pub fn escape_attribute(text: &str, out: &mut String)
    ensures
        final(out)@ == old(out)@ + attribute(text@),
{
    let ghost before = out@;
    let chars = text::chars_of(text);
    let mut i: usize = 0;
    while i < chars.len()
        invariant
            i <= chars@.len(),
            chars@ == text@,
            out@ == before + attribute(text@.take(i as int)),
        decreases chars@.len() - i,
    {
        let c = chars[i];
        assert(text@.take(i + 1).drop_last() == text@.take(i as int));
        let ghost written = attribute(text@.take(i as int));
        if c == '&' {
            out.append("&amp;");
        } else if c == '<' {
            out.append("&lt;");
        } else if c == '>' {
            out.append("&gt;");
        } else if c == '"' {
            out.append("&quot;");
        } else {
            out.push(c);
        }
        assert(out@ =~= before + (written + attribute_char(c)));
        i += 1;
    }
    assert(text@.take(i as int) == text@);
}

/// Appends `mark` where `on`.
fn push_when(on: bool, mark: &str, out: &mut String)
    ensures
        final(out)@ == old(out)@ + when(on, mark@),
{
    if on {
        out.append(mark);
    }
}

/// What opens a link, where there is one.
fn opening(link: &Option<String>) -> (out: String)
    ensures
        out@ == link_open(link.deep_view()),
{
    match link {
        Some(link) => {
            let mut out = "<a href=\"".to_owned();
            escape_attribute(link.as_str(), &mut out);
            out.append("\">");
            out
        },
        None => String::new(),
    }
}

/// Appends one span. `bold_already_open` suppresses this span's own bold, for a caller that has
/// wrapped the whole block in `<b>` already.
pub fn render_span(span: &Span, bold_already_open: bool, out: &mut String)
    ensures
        final(out)@ == old(out)@ + span_text(span.deep_view(), bold_already_open),
{
    let bold = span.style.bold && !bold_already_open;
    let mut piece = opening(&span.link);
    // A fixed open order means the matching close order is fixed too, so nesting can never
    // interleave incorrectly.
    push_when(bold, "<b>", &mut piece);
    push_when(span.style.italic, "<i>", &mut piece);
    push_when(span.style.strikethrough, "<s>", &mut piece);
    push_when(span.style.code, "<code>", &mut piece);
    escape_text(span.text.as_str(), &mut piece);
    push_when(span.style.code, "</code>", &mut piece);
    push_when(span.style.strikethrough, "</s>", &mut piece);
    push_when(span.style.italic, "</i>", &mut piece);
    push_when(bold, "</b>", &mut piece);
    push_when(span.link.is_some(), "</a>", &mut piece);
    out.append(piece.as_str());
}

/// Appends a run of spans.
fn render_spans(spans: &Vec<Span>, bold_already_open: bool, out: &mut String)
    ensures
        final(out)@ == old(out)@ + spans_text(spans.deep_view(), bold_already_open),
{
    let ghost before = out@;
    let ghost views = spans.deep_view();
    let mut i: usize = 0;
    while i < spans.len()
        invariant
            i <= spans.len(),
            views == spans.deep_view(),
            out@ == before + spans_text(views.take(i as int), bold_already_open),
        decreases spans.len() - i,
    {
        assert(views.take(i + 1).drop_last() == views.take(i as int));
        assert(views.take(i + 1).last() == spans@[i as int].deep_view());
        let ghost written = spans_text(views.take(i as int), bold_already_open);
        render_span(&spans[i], bold_already_open, out);
        assert(out@ =~= before + (written + span_text(views[i as int], bold_already_open)));
        i += 1;
    }
    assert(views.take(i as int) == views);
}

/// Writes one block.
fn render_block(block: &Block) -> (out: String)
    ensures
        out@ == block_text(block.deep_view()),
{
    let mut out = String::new();
    match block {
        Block::Text { spans, quoted, .. } => {
            if *quoted {
                out.append("<blockquote>");
            }
            render_spans(spans, false, &mut out);
            if *quoted {
                out.append("</blockquote>");
            }
        },
        // The wrapper already covers the whole line, so bold inside it is suppressed rather than
        // emitted as a nested `<b>` that renders identically and only adds markup.
        Block::Heading { spans, .. } => {
            out.append("<b>");
            render_spans(spans, true, &mut out);
            out.append("</b>");
        },
        Block::Pre { language, text } => match language {
            Some(language) => {
                out.append("<pre><code class=\"language-");
                escape_attribute(language.as_str(), &mut out);
                out.append("\">");
                escape_text(text.as_str(), &mut out);
                out.append("</code></pre>");
            },
            None => {
                out.append("<pre>");
                escape_text(text.as_str(), &mut out);
                out.append("</pre>");
            },
        },
    }
    assert(out@ =~= block_text(block.deep_view()));
    out
}

/// Writes a run of blocks as one message.
pub fn render_group(blocks: &Vec<Block>) -> (out: String)
    ensures
        out@ == group_text(blocks.deep_view()),
{
    let ghost views = blocks.deep_view();
    let mut out = String::new();
    let mut i: usize = 0;
    while i < blocks.len()
        invariant
            i <= blocks.len(),
            views == blocks.deep_view(),
            out@ == group_text(views.take(i as int)),
        decreases blocks.len() - i,
    {
        let ghost before = views.take(i as int);
        assert(views.take(i + 1).drop_last() == before);
        if i > 0 {
            assert(before.last() == blocks@[i - 1].deep_view());
            out.append(block_separator(&blocks[i - 1], &blocks[i]));
        }
        out.append(render_block(&blocks[i]).as_str());
        assert(out@ =~= group_text(views.take(i + 1)));
        i += 1;
    }
    assert(views.take(i as int) == views);
    out
}

/// Telegram's HTML, measured on what is visible.
pub struct Telegram;

proof fn escaping_loses_nothing(text: Seq<char>)
    ensures
        escaped(text).len() >= text.len(),
    decreases text.len(),
{
    if text.len() > 0 {
        reveal_strlit("&amp;");
        reveal_strlit("&lt;");
        reveal_strlit("&gt;");
        escaping_loses_nothing(text.drop_last());
    }
}

proof fn spans_show_their_text(spans: Seq<SpanView>, bold_already_open: bool)
    ensures
        spans_text(spans, bold_already_open).len() >= crate::render::split::spans_cells(
            spans,
        ).len(),
    decreases spans.len(),
{
    if spans.len() > 0 {
        spans_show_their_text(spans.drop_last(), bold_already_open);
        escaping_loses_nothing(spans.last().text);
    }
}

impl Dialect for Telegram {
    open spec fn rendered(blocks: Seq<BlockView>) -> Seq<char> {
        group_text(blocks)
    }

    open spec fn length(text: Seq<char>) -> nat {
        visible(text, false)
    }

    fn render(blocks: &Vec<Block>) -> (message: String) {
        render_group(blocks)
    }

    fn fits(message: &str, limit: usize) -> (within: bool) {
        visible_units(message) <= limit as u128
    }

    proof fn shows(blocks: Seq<BlockView>) {
        reveal_strlit("\n");
        reveal_strlit("\n\n");
        reveal_strlit("<b>");
        reveal_strlit("<pre>");
        reveal_strlit("</code></pre>");
        if blocks.len() == 1 {
            assert(crate::render::split::ink(blocks.drop_last()) =~= Seq::empty());
            match blocks[0] {
                BlockView::Text { spans, .. } => {
                    spans_show_their_text(spans, false);
                },
                BlockView::Heading { .. } => {},
                BlockView::Pre { .. } => {},
            }
        }
    }

    open spec fn least() -> nat {
        2
    }

    open spec fn eased(block: BlockView, limit: usize) -> BlockView {
        block
    }

    open spec fn light(block: BlockView, limit: usize) -> bool {
        true
    }

    fn ease(block: Block, limit: usize) -> (eased: Block) {
        block
    }

    proof fn easing_lightens(block: BlockView, limit: usize) {
    }

    proof fn cutting_keeps_light(block: BlockView, at: int, limit: usize) {
    }

    proof fn a_light_character_fits(block: BlockView, limit: usize) {
        super::markup::a_single_character_is_short(block);
    }
}

/// Renders Markdown into one or more Telegram HTML messages, each within `limit` visible
/// characters.
///
/// Returns an empty vector for input that renders to nothing, so callers do not send blank
/// messages.
pub fn to_html(markdown: &str, limit: usize) -> (messages: Vec<String>)
    ensures
        messages.deep_view() == crate::render::split::messages_of::<Telegram>(
            crate::render::blocks::blocks_of(markdown@),
            limit,
        ),
        forall|i: int| 0 <= i < messages@.len() ==> (#[trigger] messages@[i])@.len() > 0,
        messages@.len() == 0 <==> crate::render::split::ink(
            crate::render::blocks::blocks_of(markdown@),
        ).len() == 0,
        limit >= 2 ==> forall|i: int|
            0 <= i < messages@.len() ==> visible((#[trigger] messages@[i])@, false) <= limit,
{
    into_messages::<Telegram>(markdown, limit)
}

} // verus!
