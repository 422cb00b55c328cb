//! The marks that Discord's dialect writes, stated of the blocks that are written.

use vstd::prelude::*;

use crate::channel::discord::render;
use crate::render::{BlockView, SpanView, Style};
use crate::text;

verus! {

/// A span of a style, without a link.
pub open spec fn bare(said: Seq<char>, style: Style) -> SpanView {
    SpanView { text: said, style, link: None }
}

/// Each style has its own mark on both sides of the text: bold, italic and struck through. Plain text
/// has none. Behind a mark no line starts, and so nothing that marks a line is escaped there.
pub proof fn each_style_has_its_mark(line: Seq<char>, said: Seq<char>)
    ensures
        ({
            let plain = Style { bold: false, italic: false, strikethrough: false, code: false };
            let start = line.len() == 0 || line.last() == '\n';
            &&& render::with_span(line, bare(said, plain)) == line + render::escaped(said, start)
            &&& render::with_span(line, bare(said, Style { bold: true, ..plain })) == line
                + seq!['*', '*'] + render::escaped(said, false) + seq!['*', '*']
            &&& render::with_span(line, bare(said, Style { italic: true, ..plain })) == line
                + seq!['*'] + render::escaped(said, false) + seq!['*']
            &&& render::with_span(line, bare(said, Style { strikethrough: true, ..plain })) == line
                + seq!['~', '~'] + render::escaped(said, false) + seq!['~', '~']
        }),
{
    reveal_strlit("**");
    reveal_strlit("*");
    reveal_strlit("~~");
    let plain = Style { bold: false, italic: false, strikethrough: false, code: false };
    let start = line.len() == 0 || line.last() == '\n';
    assert("**"@ =~= seq!['*', '*']);
    assert("*"@ =~= seq!['*']);
    assert("~~"@ =~= seq!['~', '~']);
    let none = Seq::<char>::empty();
    assert(line + none + none + none =~= line);
    assert(render::with_span(line, bare(said, plain)) =~= line + render::escaped(said, start));
    assert(line + none + "**"@ + none =~= line + "**"@);
    assert((line + "**"@).last() == '*');
    assert(render::with_span(line, bare(said, Style { bold: true, ..plain })) =~= line
        + seq!['*', '*'] + render::escaped(said, false) + seq!['*', '*']);
    assert(line + none + none + "*"@ =~= line + "*"@);
    assert((line + "*"@).last() == '*');
    assert(render::with_span(line, bare(said, Style { italic: true, ..plain })) =~= line + seq!['*']
        + render::escaped(said, false) + seq!['*']);
    assert(line + "~~"@ + none + none =~= line + "~~"@);
    assert((line + "~~"@).last() == '~');
    assert(render::with_span(line, bare(said, Style { strikethrough: true, ..plain })) =~= line
        + seq!['~', '~'] + render::escaped(said, false) + seq!['~', '~']);
}

/// Styles are nested: struck through around bold around italic.
pub proof fn styles_are_nested(line: Seq<char>, said: Seq<char>)
    ensures
        ({
            let all = Style { bold: true, italic: true, strikethrough: true, code: false };
            render::with_span(line, bare(said, all)) == line + seq!['~', '~', '*', '*', '*']
                + render::escaped(said, false) + seq!['*', '*', '*', '~', '~']
        }),
{
    reveal_strlit("**");
    reveal_strlit("*");
    reveal_strlit("~~");
    let all = Style { bold: true, italic: true, strikethrough: true, code: false };
    let opened = line + "~~"@ + "**"@ + "*"@;
    assert(opened.last() == '*');
    assert(render::with_span(line, bare(said, all)) =~= line + seq!['~', '~', '*', '*', '*']
        + render::escaped(said, false) + seq!['*', '*', '*', '~', '~']);
}

/// Code is written as it is between marks of one length, whatever its other styles. Where it holds no
/// such mark, the marks are single and stand close; where it does, they are longer than any inside and
/// set off by spaces.
pub proof fn code_is_written_as_it_is(line: Seq<char>, said: Seq<char>, style: Style)
    requires
        style.code,
    ensures
        ({
            let written = render::with_span(line, bare(said, style));
            let run = render::longest_run(said);
            let fence = Seq::new(run + 1, |i: int| '`');
            &&& run == 0 ==> written == line + seq!['`'] + said + seq!['`']
            &&& run > 0 ==> written == line + fence + seq![' '] + said + seq![' '] + fence
        }),
{
    reveal_strlit(" ");
    let written = render::with_span(line, bare(said, style));
    let run = render::longest_run(said);
    let fence = Seq::new(run + 1, |i: int| '`');
    assert(render::fence(said) =~= fence);
    assert(" "@ =~= seq![' ']);
    if run == 0 {
        assert(fence =~= seq!['`']);
        assert(written =~= line + seq!['`'] + said + seq!['`']);
    } else {
        assert(written =~= line + fence + seq![' '] + said + seq![' '] + fence);
    }
}

/// The longest run is nothing exactly where there is no such mark.
pub proof fn there_is_a_run_where_there_is_a_mark(said: Seq<char>)
    ensures
        render::longest_run(said) == 0 <==> !said.contains('`'),
    decreases said.len(),
{
    if said.len() > 0 {
        let before = said.drop_last();
        there_is_a_run_where_there_is_a_mark(before);
        if said.last() == '`' {
            assert(said[said.len() - 1] == '`');
            assert(render::last_run(said) > 0);
        }
        if before.contains('`') {
            let i = choose|i: int| 0 <= i < before.len() && before[i] == '`';
            assert(said[i] == '`');
        }
        if said.contains('`') && said.last() != '`' {
            let i = choose|i: int| 0 <= i < said.len() && said[i] == '`';
            assert(before[i] == '`');
        }
    }
}

/// A link has its text in square brackets and its address in round ones, in which no bracket closes.
pub proof fn a_link_has_its_text_and_its_address(line: Seq<char>, span: SpanView, link: Seq<char>)
    requires
        span.link == Some(link),
    ensures
        render::with_span(line, span) == render::with_span(
            line + seq!['['],
            SpanView { link: None, ..span },
        ) + seq![']', '('] + text::replaced(link, seq![')'], seq!['%', '2', '9']) + seq![')'],
{
    reveal_strlit("[");
    reveal_strlit("](");
    reveal_strlit(")");
    reveal_strlit("%29");
    assert("["@ =~= seq!['[']);
    assert("]("@ =~= seq![']', '(']);
    assert(")"@ =~= seq![')']);
    assert("%29"@ =~= seq!['%', '2', '9']);
}

/// Spans are written one after another, each behind what stands already.
pub proof fn spans_follow_each_other(line: Seq<char>, spans: Seq<SpanView>, span: SpanView)
    ensures
        render::with_spans(line, spans.push(span), false) == render::with_span(
            render::with_spans(line, spans, false),
            span,
        ),
        render::with_spans(line, spans.push(span), true) == render::with_span(
            render::with_spans(line, spans, true),
            SpanView { style: Style { bold: false, ..span.style }, ..span },
        ),
        render::with_spans(line, Seq::empty(), false) == line,
{
    assert(spans.push(span).drop_last() =~= spans);
}

/// A heading of the first three levels has as many hashes as its level and a space in front, and a
/// deeper one is bold as a whole.
pub proof fn a_heading_has_its_hashes(level: u8, spans: Seq<SpanView>)
    ensures
        level <= 3 ==> render::block_text(BlockView::Heading { level, spans, quoted: false })
            == render::with_spans(Seq::new(level as nat, |i: int| '#') + seq![' '], spans, false),
        level > 3 ==> render::block_text(BlockView::Heading { level, spans, quoted: false })
            == render::with_spans(seq!['*', '*'], spans, true) + seq!['*', '*'],
{
    reveal_strlit(" ");
    reveal_strlit("**");
    assert(" "@ =~= seq![' ']);
    assert("**"@ =~= seq!['*', '*']);
    assert(render::hashes(level) =~= Seq::new(level as nat, |i: int| '#'));
}

/// Text is written as its spans, and a quote is the same with every line marked.
pub proof fn a_quote_is_its_text_marked(level: u8, spans: Seq<SpanView>, tight: bool)
    ensures
        render::block_text(BlockView::Text { spans, quoted: false, tight }) == render::with_spans(
            Seq::empty(),
            spans,
            false,
        ),
        render::block_text(BlockView::Text { spans, quoted: true, tight }) == render::quoted_lines(
            render::block_text(BlockView::Text { spans, quoted: false, tight }),
        ),
        render::block_text(BlockView::Heading { level, spans, quoted: true }) == render::quoted_lines(
            render::block_text(BlockView::Heading { level, spans, quoted: false }),
        ),
{
}

/// A line is quoted by a bracket and a space in front of it, and the lines stay lines.
pub proof fn each_line_is_quoted(first: Seq<char>, rest: Seq<char>)
    requires
        !first.contains('\n'),
    ensures
        render::quoted_lines(first) == seq!['>', ' '] + first,
        render::quoted_lines(rest + seq!['\n'] + first) == render::quoted_lines(rest) + seq![
            '\n',
            '>',
            ' ',
        ] + first,
    decreases first.len(),
{
    reveal_strlit("> ");
    reveal_strlit("\n");
    assert("> "@ =~= seq!['>', ' ']);
    assert("\n"@ =~= seq!['\n']);
    let whole = rest + seq!['\n'] + first;
    if first.len() == 0 {
        assert(render::quoted_lines(first) =~= seq!['>', ' '] + first);
        assert(whole =~= rest.push('\n'));
        assert(whole.last() == '\n');
        assert(whole.drop_last() =~= rest);
        assert(render::quoted_lines(whole) =~= render::quoted_lines(rest) + seq!['\n', '>', ' ']
            + first);
    } else {
        let before = first.drop_last();
        assert(first[first.len() - 1] != '\n');
        assert forall|i: int| 0 <= i < before.len() implies before[i] != '\n' by {
            assert(first[i] != '\n');
        }
        each_line_is_quoted(before, rest);
        assert(render::quoted_lines(first) =~= seq!['>', ' '] + first);
        assert(whole.last() == first.last());
        assert(whole.drop_last() =~= rest + seq!['\n'] + before);
        assert(render::quoted_lines(whole) =~= render::quoted_lines(rest) + seq!['\n', '>', ' ']
            + first);
    }
}

/// Code stands between fences of three on lines of their own, behind its language where it has one.
pub proof fn code_stands_between_fences(language: Seq<char>, code: Seq<char>)
    ensures
        render::block_text(BlockView::Pre { language: None, text: code }) == seq!['`', '`', '`', '\n']
            + render::fenced_body(code) + seq!['\n', '`', '`', '`'],
        render::block_text(BlockView::Pre { language: Some(language), text: code }) == seq![
            '`',
            '`',
            '`',
        ] + render::tag(language) + seq!['\n'] + render::fenced_body(code) + seq![
            '\n',
            '`',
            '`',
            '`',
        ],
{
    reveal_strlit("```");
    reveal_strlit("\n");
    reveal_strlit("\n```");
    assert(render::block_text(BlockView::Pre { language: None, text: code }) =~= seq![
        '`',
        '`',
        '`',
        '\n',
    ] + render::fenced_body(code) + seq!['\n', '`', '`', '`']);
    assert(render::block_text(BlockView::Pre { language: Some(language), text: code }) =~= seq![
        '`',
        '`',
        '`',
    ] + render::tag(language) + seq!['\n'] + render::fenced_body(code) + seq!['\n', '`', '`', '`']);
}

/// A language keeps its letters, digits, pluses and dashes, the first thirty-two of them.
pub proof fn a_language_keeps_its_letters(language: Seq<char>)
    ensures
        ({
            let kept = language.filter(
                |c: char|
                    'a' <= c <= 'z' || 'A' <= c <= 'Z' || '0' <= c <= '9' || c == '+' || c == '-',
            );
            &&& kept.len() <= 32 ==> render::tag(language) == kept
            &&& kept.len() > 32 ==> render::tag(language) == kept.take(32)
        }),
{
    kept_letters(language);
}

proof fn kept_letters(language: Seq<char>)
    ensures
        render::tag_chars(language) == language.filter(
            |c: char| 'a' <= c <= 'z' || 'A' <= c <= 'Z' || '0' <= c <= '9' || c == '+' || c == '-',
        ),
    decreases language.len(),
{
    reveal(Seq::filter);
    if language.len() > 0 {
        kept_letters(language.drop_last());
    }
}

/// Blocks are written one after another. Next to an item of a list a line ends, and any other two have
/// an empty line between them.
pub proof fn blocks_are_set_apart(blocks: Seq<BlockView>, block: BlockView)
    requires
        blocks.len() > 0,
    ensures
        ({
            let close = (blocks.last() matches BlockView::Text { tight: true, .. }) || (
            block matches BlockView::Text { tight: true, .. });
            &&& close ==> render::group_text(blocks.push(block)) == render::group_text(blocks)
                + seq!['\n'] + render::block_text(block)
            &&& !close ==> render::group_text(blocks.push(block)) == render::group_text(blocks)
                + seq!['\n', '\n'] + render::block_text(block)
        }),
        render::group_text(seq![block]) == render::block_text(block),
        render::group_text(Seq::empty()).len() == 0,
{
    reveal_strlit("\n");
    reveal_strlit("\n\n");
    assert("\n"@ =~= seq!['\n']);
    assert("\n\n"@ =~= seq!['\n', '\n']);
    assert(blocks.push(block).drop_last() =~= blocks);
    assert(seq![block][0] == block);
}

/// A character is escaped by a backslash where it would mark something: everywhere, or at the start of
/// a line alone. Every other is kept.
pub proof fn only_marks_are_escaped(c: char, start: bool)
    ensures
        c == '*' || c == '_' || c == '~' || c == '`' || c == '|' || c == '\\' || c == '[' || c == ']'
            ==> render::escaped_char(c, start) == seq!['\\', c],
        (c == '#' || c == '>' || c == '-') && start ==> render::escaped_char(c, start) == seq!['\\', c],
        (c == '#' || c == '>' || c == '-') && !start ==> render::escaped_char(c, start) == seq![c],
        'a' <= c <= 'z' || 'A' <= c <= 'Z' || '0' <= c <= '9' || c == ' ' || c == '\n' || c == '.' || c
            == '(' || c == ')' ==> render::escaped_char(c, start) == seq![c],
{
}

/// Text is escaped one character after another, and a line starts behind the end of one.
pub proof fn text_is_escaped_in_order(said: Seq<char>, c: char, start: bool)
    ensures
        said.len() == 0 ==> render::escaped(said.push(c), start) == render::escaped_char(c, start),
        said.len() > 0 ==> render::escaped(said.push(c), start) == render::escaped(said, start)
            + render::escaped_char(c, said.last() == '\n'),
        render::escaped(Seq::empty(), start).len() == 0,
{
    assert(said.push(c).drop_last() =~= said);
    if said.len() == 0 {
        assert(render::escaped(said, start) =~= Seq::empty());
        assert(said.push(c).last() == c);
        assert(render::escaped(said.push(c), start) =~= render::escaped_char(c, start));
    }
}

/// A link whose address would take up the message is written out behind its text, in brackets, and any
/// other is kept. A span without text is left out.
pub proof fn a_heavy_link_is_written_out(span: SpanView, limit: usize)
    ensures
        span.text.len() == 0 ==> render::eased_span(span, limit).len() == 0,
        span.text.len() > 0 && span.link is None ==> render::eased_span(span, limit) == seq![span],
        span.text.len() > 0 ==> (span.link matches Some(link) ==> {
            let heavy = text::replaced(link, seq![')'], seq!['%', '2', '9']).len() + 32 > limit
                || link.contains('\n');
            &&& !heavy ==> render::eased_span(span, limit) == seq![span]
            &&& heavy ==> {
                let eased = render::eased_span(span, limit);
                &&& eased.len() == 2
                &&& eased[0].text == span.text && eased[0].style == span.style && eased[0].link is None
                &&& eased[1].text == seq![' ', '('] + link + seq![')'] && eased[1].link is None
            }
        }),
{
    reveal_strlit(")");
    reveal_strlit("%29");
    reveal_strlit(" (");
    assert(")"@ =~= seq![')']);
    assert("%29"@ =~= seq!['%', '2', '9']);
    assert(" ("@ =~= seq![' ', '(']);
}

/// Spans are eased one after another, and a block is eased in its spans alone.
pub proof fn spans_are_eased_in_order(
    spans: Seq<SpanView>,
    span: SpanView,
    level: u8,
    quoted: bool,
    tight: bool,
    limit: usize,
)
    ensures
        render::eased_spans(spans.push(span), limit) == render::eased_spans(spans, limit)
            + render::eased_span(span, limit),
        render::eased_spans(Seq::empty(), limit).len() == 0,
        render::eased_block(BlockView::Text { spans, quoted, tight }, limit) == (BlockView::Text {
            spans: render::eased_spans(spans, limit),
            quoted,
            tight,
        }),
        render::eased_block(BlockView::Heading { level, spans, quoted }, limit) == (
        BlockView::Heading { level, spans: render::eased_spans(spans, limit), quoted }),
{
    assert(spans.push(span).drop_last() =~= spans);
}

} // verus!
