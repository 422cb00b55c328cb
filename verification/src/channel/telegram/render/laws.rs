//! The marks that Telegram's dialect writes, stated of the blocks that are written.

use vstd::prelude::*;

use crate::channel::telegram::render;
use crate::render::{BlockView, SpanView, Style};
use crate::text;

verus! {

/// A span of a style, without a link.
pub open spec fn bare(said: Seq<char>, style: Style) -> SpanView {
    SpanView { text: said, style, link: None }
}

/// Each style has its own tag around the text: bold, italic, struck through and code. Plain text has
/// none.
pub proof fn each_style_has_its_tag(said: Seq<char>)
    ensures
        ({
            let plain = Style { bold: false, italic: false, strikethrough: false, code: false };
            let shown = render::escaped(said);
            &&& render::span_text(bare(said, plain), false) == shown
            &&& render::span_text(bare(said, Style { bold: true, ..plain }), false) == "<b>"@ + shown
                + "</b>"@
            &&& render::span_text(bare(said, Style { italic: true, ..plain }), false) == "<i>"@ + shown
                + "</i>"@
            &&& render::span_text(bare(said, Style { strikethrough: true, ..plain }), false)
                == "<s>"@ + shown + "</s>"@
            &&& render::span_text(bare(said, Style { code: true, ..plain }), false) == "<code>"@
                + shown + "</code>"@
        }),
{
    let plain = Style { bold: false, italic: false, strikethrough: false, code: false };
    let shown = render::escaped(said);
    assert(render::span_text(bare(said, plain), false) =~= shown);
    assert(render::span_text(bare(said, Style { bold: true, ..plain }), false) =~= "<b>"@ + shown
        + "</b>"@);
    assert(render::span_text(bare(said, Style { italic: true, ..plain }), false) =~= "<i>"@ + shown
        + "</i>"@);
    assert(render::span_text(bare(said, Style { strikethrough: true, ..plain }), false) =~= "<s>"@
        + shown + "</s>"@);
    assert(render::span_text(bare(said, Style { code: true, ..plain }), false) =~= "<code>"@ + shown
        + "</code>"@);
}

proof fn joining_regroups(a: Seq<char>, b: Seq<char>, c: Seq<char>)
    ensures
        a + (b + c) == a + b + c,
        a + Seq::empty() == a,
        Seq::empty() + a == a,
{
    assert(a + (b + c) =~= a + b + c);
    assert(a + Seq::empty() =~= a);
    assert(Seq::empty() + a =~= a);
}

/// What stands in the middle may be put together first.
proof fn the_middle_first(
    start: Seq<char>,
    a: Seq<char>,
    b: Seq<char>,
    c: Seq<char>,
    middle: Seq<char>,
    d: Seq<char>,
    e: Seq<char>,
    f: Seq<char>,
    end: Seq<char>,
)
    ensures
        start + a + b + c + middle + d + e + f + end == start + (a + b + c + middle + d + e + f)
            + end,
{
    joining_regroups(start, a, b);
    joining_regroups(start, a + b, c);
    joining_regroups(start, a + b + c, middle);
    joining_regroups(start, a + b + c + middle, d);
    joining_regroups(start, a + b + c + middle + d, e);
    joining_regroups(start, a + b + c + middle + d + e, f);
}

/// A span without a link, written in the order of its tags.
proof fn a_bare_span_is_between_its_tags(said: Seq<char>, style: Style, open: bool)
    ensures
        ({
            let bold = style.bold && !open;
            render::span_text(bare(said, style), open) == render::when(bold, "<b>"@) + render::when(
                style.italic,
                "<i>"@,
            ) + render::when(style.strikethrough, "<s>"@) + render::when(style.code, "<code>"@)
                + render::escaped(said) + render::when(style.code, "</code>"@) + render::when(
                style.strikethrough,
                "</s>"@,
            ) + render::when(style.italic, "</i>"@) + render::when(bold, "</b>"@)
        }),
{
    let bold = style.bold && !open;
    let first = render::when(bold, "<b>"@);
    joining_regroups(first, first, first);
    let all = first + render::when(style.italic, "<i>"@) + render::when(style.strikethrough, "<s>"@)
        + render::when(style.code, "<code>"@) + render::escaped(said) + render::when(
        style.code,
        "</code>"@,
    ) + render::when(style.strikethrough, "</s>"@) + render::when(style.italic, "</i>"@)
        + render::when(bold, "</b>"@);
    joining_regroups(all, all, all);
}

/// Bold is around every other style of a span. Inside what is bold already no second tag is opened.
pub proof fn bold_is_around_the_other_styles(said: Seq<char>, style: Style, open: bool)
    ensures
        ({
            let rest = Style { bold: false, ..style };
            &&& style.bold && !open ==> render::span_text(bare(said, style), open) == "<b>"@
                + render::span_text(bare(said, rest), false) + "</b>"@
            &&& !style.bold || open ==> render::span_text(bare(said, style), open)
                == render::span_text(bare(said, rest), false)
        }),
{
    let rest = Style { bold: false, ..style };
    let a = render::when(style.italic, "<i>"@);
    let b = render::when(style.strikethrough, "<s>"@);
    let c = render::when(style.code, "<code>"@);
    let shown = render::escaped(said);
    let d = render::when(style.code, "</code>"@);
    let e = render::when(style.strikethrough, "</s>"@);
    let f = render::when(style.italic, "</i>"@);
    a_bare_span_is_between_its_tags(said, style, open);
    a_bare_span_is_between_its_tags(said, rest, false);
    the_middle_first("<b>"@, a, b, c, shown, d, e, f, "</b>"@);
    joining_regroups(a, a, a);
    let inner = a + b + c + shown + d + e + f;
    joining_regroups(inner, inner, inner);
}

/// Inside, italic is around what is struck through, and that around code.
pub proof fn italic_is_around_what_is_struck_through(said: Seq<char>, struck: bool, code: bool)
    ensures
        ({
            let style = Style { bold: false, italic: true, strikethrough: struck, code };
            let upright = Style { italic: false, ..style };
            &&& render::span_text(bare(said, style), false) == "<i>"@ + render::span_text(
                bare(said, upright),
                false,
            ) + "</i>"@
            &&& struck ==> render::span_text(bare(said, upright), false) == "<s>"@
                + render::span_text(bare(said, Style { strikethrough: false, ..upright }), false)
                + "</s>"@
        }),
{
    let style = Style { bold: false, italic: true, strikethrough: struck, code };
    let upright = Style { italic: false, ..style };
    let level = Style { strikethrough: false, ..upright };
    let none = Seq::<char>::empty();
    let b = render::when(struck, "<s>"@);
    let c = render::when(code, "<code>"@);
    let shown = render::escaped(said);
    let d = render::when(code, "</code>"@);
    let e = render::when(struck, "</s>"@);
    a_bare_span_is_between_its_tags(said, style, false);
    a_bare_span_is_between_its_tags(said, upright, false);
    a_bare_span_is_between_its_tags(said, level, false);
    joining_regroups("<i>"@, none, none);
    joining_regroups("<s>"@, none, none);
    joining_regroups(none, none, none);
    joining_regroups(b, none, none);
    joining_regroups(c, none, none);
    the_middle_first("<i>"@, none, b, c, shown, d, e, none, "</i>"@);
    the_middle_first("<s>"@, none, none, c, shown, d, none, none, "</s>"@);
    let whole = "<i>"@ + b + c + shown + d + e + "</i>"@;
    joining_regroups(whole, none, none);
    let inner = b + c + shown + d + e;
    joining_regroups(inner, none, none);
    let core = c + shown + d;
    joining_regroups(core, none, none);
    joining_regroups("<i>"@ + b + c + shown + d + e, none, none);
    joining_regroups("<s>"@ + c + shown + d, none, none);
}

/// A link is around everything else of its span, with its address in quotes.
pub proof fn a_link_is_around_its_span(span: SpanView, link: Seq<char>, open: bool)
    requires
        span.link == Some(link),
    ensures
        render::span_text(span, open) == "<a href=\""@ + render::attribute(link) + "\">"@
            + render::span_text(SpanView { link: None, ..span }, open) + "</a>"@,
{
    let bold = span.style.bold && !open;
    let start = "<a href=\""@ + render::attribute(link) + "\">"@;
    let first = render::when(bold, "<b>"@);
    let a = render::when(span.style.italic, "<i>"@);
    let b = render::when(span.style.strikethrough, "<s>"@);
    let c = render::when(span.style.code, "<code>"@);
    let shown = render::escaped(span.text);
    let d = render::when(span.style.code, "</code>"@);
    let e = render::when(span.style.strikethrough, "</s>"@);
    let f = render::when(span.style.italic, "</i>"@);
    let last = render::when(bold, "</b>"@);
    a_bare_span_is_between_its_tags(span.text, span.style, open);
    assert(bare(span.text, span.style) == SpanView { link: None, ..span });
    joining_regroups(start, first, a);
    joining_regroups(start, first + a, b);
    joining_regroups(start, first + a + b, c);
    joining_regroups(start, first + a + b + c, shown);
    joining_regroups(start, first + a + b + c + shown, d);
    joining_regroups(start, first + a + b + c + shown + d, e);
    joining_regroups(start, first + a + b + c + shown + d + e, f);
    joining_regroups(start, first + a + b + c + shown + d + e + f, last);
}

/// Spans are written one after another.
pub proof fn spans_follow_each_other(left: Seq<SpanView>, right: Seq<SpanView>, open: bool)
    ensures
        render::spans_text(left + right, open) == render::spans_text(left, open) + render::spans_text(
            right,
            open,
        ),
        left.len() == 0 ==> render::spans_text(left, open).len() == 0,
        left.len() == 1 ==> render::spans_text(left, open) == render::span_text(left[0], open),
    decreases right.len(),
{
    if left.len() == 1 {
        assert(left.drop_last() =~= Seq::empty());
        assert(render::spans_text(left.drop_last(), open) =~= Seq::empty());
        assert(render::spans_text(left, open) =~= render::span_text(left[0], open));
    }
    if right.len() == 0 {
        assert(left + right =~= left);
        assert(render::spans_text(left, open) + render::spans_text(right, open)
            =~= render::spans_text(left, open));
    } else {
        spans_follow_each_other(left, right.drop_last(), open);
        assert((left + right).drop_last() =~= left + right.drop_last());
        assert((left + right).last() == right.last());
        assert(render::spans_text(left + right, open) =~= render::spans_text(left, open)
            + render::spans_text(right, open));
    }
}

/// A quote is marked as one, a heading is bold whatever its level, and code keeps its language where
/// it has one.
pub proof fn each_kind_of_block_has_its_tag(
    spans: Seq<SpanView>,
    level: u8,
    quoted: bool,
    tight: bool,
    language: Seq<char>,
    code: Seq<char>,
)
    ensures
        render::block_text(BlockView::Text { spans, quoted: false, tight }) == render::spans_text(
            spans,
            false,
        ),
        render::block_text(BlockView::Text { spans, quoted: true, tight }) == "<blockquote>"@
            + render::spans_text(spans, false) + "</blockquote>"@,
        render::block_text(BlockView::Heading { level, spans, quoted }) == "<b>"@
            + render::spans_text(spans, true) + "</b>"@,
        render::block_text(BlockView::Pre { language: None, text: code }) == "<pre>"@
            + render::escaped(code) + "</pre>"@,
        render::block_text(BlockView::Pre { language: Some(language), text: code })
            == "<pre><code class=\"language-"@ + render::attribute(language) + "\">"@
            + render::escaped(code) + "</code></pre>"@,
{
    assert(render::block_text(BlockView::Text { spans, quoted: false, tight })
        =~= render::spans_text(spans, false));
}

/// Blocks are written one after another. Two items of a list stand on lines of their own, and any other
/// two have an empty line between them.
pub proof fn blocks_are_set_apart(blocks: Seq<BlockView>, block: BlockView)
    requires
        blocks.len() > 0,
    ensures
        ({
            let close = (blocks.last() matches BlockView::Text { tight: true, .. }) && (
            block matches BlockView::Text { tight: true, .. });
            &&& close ==> render::group_text(blocks.push(block)) == render::group_text(blocks)
                + seq!['\n'] + render::block_text(block)
            &&& !close ==> render::group_text(blocks.push(block)) == render::group_text(blocks)
                + seq!['\n', '\n'] + render::block_text(block)
        }),
        render::group_text(seq![block]) == render::block_text(block),
        render::group_text(Seq::empty()).len() == 0,
{
    reveal_strlit("\n");
    reveal_strlit("\n\n");
    assert("\n"@ =~= seq!['\n']);
    assert("\n\n"@ =~= seq!['\n', '\n']);
    assert(blocks.push(block).drop_last() =~= blocks);
    assert(seq![block][0] == block);
}

/// Characters outside the basic plane count twice and every other counts once.
pub proof fn a_character_counts_its_units(c: char)
    ensures
        render::units(c) == 2 <==> c as int >= 65_536,
        render::units(c) == 1 <==> (c as int) < 65_536,
{
}

/// Only what HTML would read as a mark is written by its name, each by its own.
pub proof fn only_marks_are_written_by_name(c: char)
    ensures
        render::escaped_char('&') == "&amp;"@,
        render::escaped_char('<') == "&lt;"@,
        render::escaped_char('>') == "&gt;"@,
        render::attribute_char('"') == "&quot;"@,
        c != '&' && c != '<' && c != '>' ==> render::escaped_char(c) == seq![c],
        c != '"' ==> render::attribute_char(c) == render::escaped_char(c),
{
}

/// Text is escaped one character after another.
pub proof fn text_is_escaped_in_order(left: Seq<char>, right: Seq<char>)
    ensures
        render::escaped(left + right) == render::escaped(left) + render::escaped(right),
        render::attribute(left + right) == render::attribute(left) + render::attribute(right),
        left.len() == 1 ==> render::escaped(left) == render::escaped_char(left[0]),
        left.len() == 1 ==> render::attribute(left) == render::attribute_char(left[0]),
    decreases right.len(),
{
    if left.len() == 1 {
        assert(left.drop_last() =~= Seq::empty());
        assert(render::escaped(left.drop_last()) =~= Seq::empty());
        assert(render::attribute(left.drop_last()) =~= Seq::empty());
        assert(render::escaped(left) =~= render::escaped_char(left[0]));
        assert(render::attribute(left) =~= render::attribute_char(left[0]));
    }
    if right.len() == 0 {
        assert(left + right =~= left);
        assert(render::escaped(left) + render::escaped(right) =~= render::escaped(left));
        assert(render::attribute(left) + render::attribute(right) =~= render::attribute(left));
    } else {
        text_is_escaped_in_order(left, right.drop_last());
        assert((left + right).drop_last() =~= left + right.drop_last());
        assert((left + right).last() == right.last());
        assert(render::escaped(left + right) =~= render::escaped(left) + render::escaped(right));
        assert(render::attribute(left + right) =~= render::attribute(left) + render::attribute(
            right,
        ));
    }
}

/// What is escaped keeps whatever needs no escaping as it is.
pub proof fn text_without_marks_is_kept(said: Seq<char>)
    requires
        forall|i: int|
            0 <= i < said.len() ==> #[trigger] said[i] != '&' && said[i] != '<' && said[i] != '>',
    ensures
        render::escaped(said) == said,
    decreases said.len(),
{
    if said.len() > 0 {
        text_without_marks_is_kept(said.drop_last());
        assert(said.last() == said[said.len() - 1]);
        assert(render::escaped(said) =~= said.drop_last() + seq![said.last()]);
        assert(said.drop_last() + seq![said.last()] =~= said);
    }
}

} // verus!
