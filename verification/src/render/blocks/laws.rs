//! What each mark of a text does to the blocks that are built from it.

use vstd::prelude::*;

use crate::render::blocks::{DraftView, Mark};
use crate::render::commonmark::{
    BULLETS, CODE, CODE_BLOCK, EMPHASIS, END, HARD_BREAK, HEADING, HTML, HTML_BLOCK, IMAGE,
    INLINE_HTML, ITEM, LINK, NOTHING, NUMBERS, PARAGRAPH, QUOTE, RULE, SOFT_BREAK, STRIKETHROUGH,
    STRONG, TABLE, TABLE_CELL, TABLE_HEAD, TABLE_ROW, TASK, TEXT,
};
use crate::render::{BlockView, SpanView};
use crate::text;

verus! {

/// The draft that a run of marks builds, with one more mark.
pub open spec fn after(marks: Seq<Mark>, code: u8, number: u64, text: Seq<char>) -> DraftView {
    super::drafted(marks.push((code, number, text)))
}

/// Whether `later` is `earlier` with one more span.
pub open spec fn one_span_more(earlier: DraftView, later: DraftView) -> bool {
    &&& later.spans.len() == earlier.spans.len() + 1
    &&& later.spans.drop_last() == earlier.spans
    &&& later.blocks == earlier.blocks
    &&& later.open == earlier.open
    &&& later.marker == earlier.marker
}

/// Whether `later` is `earlier` with one more block, and nothing left over for the next one.
pub open spec fn one_block_more(earlier: DraftView, later: DraftView) -> bool {
    &&& later.blocks.len() == earlier.blocks.len() + 1
    &&& later.blocks.drop_last() == earlier.blocks
    &&& later.spans.len() == 0
}

proof fn one_mark_more(marks: Seq<Mark>, mark: Mark)
    ensures
        super::drafted(marks.push(mark)) == super::marked(super::drafted(marks), mark),
{
    assert(marks.push(mark).drop_last() =~= marks);
}

proof fn one_span_is_its_text(spans: Seq<SpanView>)
    requires
        spans.len() == 1,
    ensures
        super::spans_text(spans) == spans[0].text,
{
    assert(spans.drop_last() =~= Seq::empty());
    assert(super::spans_text(spans.drop_last()) =~= Seq::empty());
    assert(super::spans_text(spans) =~= spans[0].text);
}

/// A task that is done is shown with a checked box, and one that is not with an empty box.
pub proof fn a_task_shows_whether_it_is_done(marks: Seq<Mark>, text: Seq<char>)
    ensures
        ({
            let before = super::drafted(marks);
            let done = after(marks, TASK, 1, text);
            let open = after(marks, TASK, 0, text);
            &&& one_span_more(before, done)
            &&& one_span_more(before, open)
            &&& done.spans.last().text == seq!['\u{2611}', ' ']
            &&& open.spans.last().text == seq!['\u{2610}', ' ']
            &&& !done.spans.last().style.code && !open.spans.last().style.code
        }),
{
    reveal_strlit("\u{2611} ");
    reveal_strlit("\u{2610} ");
    let before = super::drafted(marks);
    one_mark_more(marks, (TASK, 1, text));
    one_mark_more(marks, (TASK, 0, text));
    assert(after(marks, TASK, 1, text).spans.drop_last() =~= before.spans);
    assert(after(marks, TASK, 0, text).spans.drop_last() =~= before.spans);
    assert(after(marks, TASK, 1, text).spans.last().text =~= seq!['\u{2611}', ' ']);
    assert(after(marks, TASK, 0, text).spans.last().text =~= seq!['\u{2610}', ' ']);
}

/// The item of a list that holds a task and its text is a block that shows the item's marker, the
/// task's box and the text, in that order.
pub proof fn a_task_item_is_one_line(marks: Seq<Mark>, number: u64, done: bool, said: Seq<char>)
    requires
        super::drafted(marks).spans.len() == 0,
        super::drafted(marks).lists.len() == 1,
        super::drafted(marks).lists.last() is None,
    ensures
        ({
            let item = marks.push((ITEM, number, Seq::empty())).push(
                (
                    TASK,
                    if done {
                        1
                    } else {
                        0
                    },
                    Seq::empty(),
                ),
            ).push((TEXT, 0, said)).push((END, 0, Seq::empty()));
            let blocks = super::drafted(item).blocks;
            &&& blocks.len() == super::drafted(marks).blocks.len() + 1
            &&& blocks.last() matches BlockView::Text { spans, tight, .. } && tight && spans.len() == 3
                && spans[0].text == seq!['\u{2022}', ' '] && spans[1].text == seq![
                if done {
                    '\u{2611}'
                } else {
                    '\u{2610}'
                },
                ' ',
            ] && spans[2].text == said
        }),
{
    reveal_strlit("\u{2611} ");
    reveal_strlit("\u{2610} ");
    reveal_strlit("\u{2022} ");
    let box_number: u64 = if done {
        1
    } else {
        0
    };
    let one = marks.push((ITEM, number, Seq::empty()));
    let two = one.push((TASK, box_number, Seq::empty()));
    let three = two.push((TEXT, 0, said));
    one_mark_more(marks, (ITEM, number, Seq::empty()));
    one_mark_more(one, (TASK, box_number, Seq::empty()));
    one_mark_more(two, (TEXT, 0, said));
    one_mark_more(three, (END, 0, Seq::empty()));
    let held = super::drafted(three);
    assert(held.marker =~= seq!['\u{2022}', ' ']);
    assert(held.open.last() == ITEM);
    assert(held.spans.len() == 2);
    assert(held.spans[0].text =~= seq![
        if done {
            '\u{2611}'
        } else {
            '\u{2610}'
        },
        ' ',
    ]);
}

/// Text is kept as it is, whatever stands around it, and only code within a line is shown as code.
/// Raw HTML is text too, and a line break stays one.
pub proof fn text_is_kept(marks: Seq<Mark>, number: u64, said: Seq<char>)
    ensures
        ({
            let before = super::drafted(marks);
            let plain = after(marks, TEXT, number, said);
            let block = after(marks, HTML, number, said);
            let inline = after(marks, INLINE_HTML, number, said);
            let code = after(marks, CODE, number, said);
            let soft = after(marks, SOFT_BREAK, number, said);
            let hard = after(marks, HARD_BREAK, number, said);
            &&& one_span_more(before, plain) && plain.spans.last().text == said
                && !plain.spans.last().style.code
            &&& one_span_more(before, block) && block.spans.last().text == said
                && !block.spans.last().style.code
            &&& one_span_more(before, inline) && inline.spans.last().text == said
                && !inline.spans.last().style.code
            &&& one_span_more(before, code) && code.spans.last().text == said
                && code.spans.last().style.code
            &&& one_span_more(before, soft) && soft.spans.last().text == seq!['\n']
                && !soft.spans.last().style.code
            &&& one_span_more(before, hard) && hard.spans.last().text == seq!['\n']
                && !hard.spans.last().style.code
            &&& after(marks, NOTHING, number, said) == before
        }),
{
    reveal_strlit("\n");
    let before = super::drafted(marks);
    one_mark_more(marks, (TEXT, number, said));
    one_mark_more(marks, (HTML, number, said));
    one_mark_more(marks, (INLINE_HTML, number, said));
    one_mark_more(marks, (CODE, number, said));
    one_mark_more(marks, (SOFT_BREAK, number, said));
    one_mark_more(marks, (HARD_BREAK, number, said));
    one_mark_more(marks, (NOTHING, number, said));
    assert(after(marks, TEXT, number, said).spans.drop_last() =~= before.spans);
    assert(after(marks, HTML, number, said).spans.drop_last() =~= before.spans);
    assert(after(marks, INLINE_HTML, number, said).spans.drop_last() =~= before.spans);
    assert(after(marks, CODE, number, said).spans.drop_last() =~= before.spans);
    assert(after(marks, SOFT_BREAK, number, said).spans.drop_last() =~= before.spans);
    assert(after(marks, HARD_BREAK, number, said).spans.drop_last() =~= before.spans);
    assert(after(marks, SOFT_BREAK, number, said).spans.last().text =~= seq!['\n']);
    assert(after(marks, HARD_BREAK, number, said).spans.last().text =~= seq!['\n']);
}

/// Opening something puts it innermost, and an end closes what is innermost.
pub proof fn what_opens_last_closes_first(marks: Seq<Mark>, code: u8, number: u64, said: Seq<char>)
    requires
        code == PARAGRAPH || code == HEADING || code == QUOTE || code == CODE_BLOCK || code
            == HTML_BLOCK || code == BULLETS || code == NUMBERS || code == ITEM || code == TABLE
            || code == TABLE_HEAD || code == TABLE_ROW || code == TABLE_CELL || code == EMPHASIS
            || code == STRONG || code == STRIKETHROUGH || code == LINK || code == IMAGE,
    ensures
        after(marks, code, number, said).open == super::drafted(marks).open.push(code),
        super::drafted(marks).open.len() > 0 ==> after(marks, END, number, said).open
            == super::drafted(marks).open.drop_last(),
{
    one_mark_more(marks, (code, number, said));
    one_mark_more(marks, (END, number, said));
}

/// Text is bold, italic or struck through exactly where strong emphasis, emphasis or a strike is
/// open around it.
pub proof fn text_has_the_styles_around_it(marks: Seq<Mark>, code: u8, said: Seq<char>)
    requires
        code == TEXT || code == CODE || code == HTML || code == INLINE_HTML,
    ensures
        ({
            let open = super::drafted(marks).open;
            let style = after(marks, code, 0, said).spans.last().style;
            &&& style.bold <==> exists|i: int| 0 <= i < open.len() && open[i] == STRONG
            &&& style.italic <==> exists|i: int| 0 <= i < open.len() && open[i] == EMPHASIS
            &&& style.strikethrough <==> exists|i: int|
                0 <= i < open.len() && open[i] == STRIKETHROUGH
        }),
{
    one_mark_more(marks, (code, 0, said));
}

/// Text inside a link goes to that link's address, and text after it does not.
pub proof fn a_link_holds_what_is_inside(
    marks: Seq<Mark>,
    code: u8,
    number: u64,
    address: Seq<char>,
    said: Seq<char>,
)
    requires
        code == LINK || code == IMAGE,
    ensures
        ({
            let inside = marks.push((code, number, address));
            let past = inside.push((END, 0, Seq::empty()));
            &&& after(inside, TEXT, 0, said).spans.last().link == Some(address)
            &&& after(past, TEXT, 0, said).spans.last().link == after(
                marks,
                TEXT,
                0,
                said,
            ).spans.last().link
            &&& super::drafted(marks).links.len() == 0 ==> after(
                marks,
                TEXT,
                0,
                said,
            ).spans.last().link is None
        }),
{
    let inside = marks.push((code, number, address));
    let past = inside.push((END, 0, Seq::empty()));
    one_mark_more(marks, (code, number, address));
    one_mark_more(inside, (END, 0, Seq::empty()));
    one_mark_more(inside, (TEXT, 0, said));
    one_mark_more(past, (TEXT, 0, said));
    one_mark_more(marks, (TEXT, 0, said));
    let links = super::drafted(marks).links;
    assert(links.push(address).drop_last() =~= links);
}

/// The end of a paragraph makes a block of its text, quoted exactly inside a quote, and apart from
/// its neighbours.
pub proof fn a_paragraph_is_a_block(marks: Seq<Mark>)
    requires
        super::drafted(marks).open.len() > 0,
        super::drafted(marks).open.last() == PARAGRAPH,
        super::drafted(marks).spans.len() > 0,
        super::drafted(marks).marker.len() == 0,
    ensures
        ({
            let before = super::drafted(marks);
            let later = after(marks, END, 0, Seq::empty());
            &&& one_block_more(before, later)
            &&& later.blocks.last() matches BlockView::Text { spans, quoted, tight } && spans
                == before.spans && !tight && (quoted <==> exists|i: int|
                0 <= i < before.open.len() && before.open[i] == QUOTE)
        }),
{
    one_mark_more(marks, (END, 0, Seq::empty()));
    assert(after(marks, END, 0, Seq::empty()).blocks.drop_last() =~= super::drafted(marks).blocks);
}

/// The end of a list item makes a block of its marker and its text that packs against its neighbours.
pub proof fn an_item_is_a_tight_block(marks: Seq<Mark>)
    requires
        super::drafted(marks).open.len() > 0,
        super::drafted(marks).open.last() == ITEM,
        super::drafted(marks).marker.len() > 0,
    ensures
        ({
            let before = super::drafted(marks);
            let later = after(marks, END, 0, Seq::empty());
            &&& one_block_more(before, later)
            &&& later.marker.len() == 0
            &&& later.blocks.last() matches BlockView::Text { spans, tight, .. } && tight
                && spans.len() == before.spans.len() + 1 && spans[0].text == before.marker
                && spans[0].link is None && spans.skip(1) == before.spans
        }),
{
    one_mark_more(marks, (END, 0, Seq::empty()));
    let before = super::drafted(marks);
    let later = after(marks, END, 0, Seq::empty());
    assert(later.blocks.drop_last() =~= before.blocks);
    assert((seq![super::bare(before.marker)] + before.spans).skip(1) =~= before.spans);
}

/// An item of a bulleted list starts with a bullet, and one of a numbered list with its number and a
/// full stop, two spaces further in for every list around it. Items are counted up one by one.
pub proof fn an_item_starts_with_its_marker(marks: Seq<Mark>, number: u64, said: Seq<char>)
    requires
        super::drafted(marks).lists.len() > 0,
    ensures
        ({
            let lists = super::drafted(marks).lists;
            let depth = lists.len() - 1;
            let item = after(marks, ITEM, number, said);
            &&& forall|i: int| 0 <= i < 2 * depth ==> item.marker[i] == ' '
            &&& lists.last() is None ==> item.marker.len() == 2 * depth + 2 && item.marker[2 * depth]
                == '\u{2022}' && item.marker[2 * depth + 1] == ' ' && item.lists == lists
            &&& lists.last() matches Some(n) ==> item.marker.skip(2 * depth) == text::decimal(
                n as nat,
            ) + seq!['.', ' '] && item.lists.len() == lists.len() && item.lists.drop_last()
                == lists.drop_last() && (n < u64::MAX ==> item.lists.last() == Some((n + 1) as u64))
                && (n == u64::MAX ==> item.lists.last() == Some(n))
        }),
{
    reveal_strlit("\u{2022} ");
    reveal_strlit(". ");
    one_mark_more(marks, (ITEM, number, said));
    let lists = super::drafted(marks).lists;
    let depth = lists.len() - 1;
    let item = after(marks, ITEM, number, said);
    assert(text::spaces((2 * depth) as nat).len() == 2 * depth);
    if let Some(n) = lists.last() {
        assert(item.marker.skip(2 * depth) =~= text::decimal(n as nat) + seq!['.', ' ']);
        assert(item.lists.drop_last() =~= lists.drop_last());
    }
}

/// A bulleted list has bullets, and a numbered one counts from the number it was given. Its end goes
/// back to the list around it.
pub proof fn a_list_counts_from_its_first_number(marks: Seq<Mark>, first: u64, said: Seq<char>)
    ensures
        ({
            let lists = super::drafted(marks).lists;
            let bullets = after(marks, BULLETS, first, said);
            let numbers = after(marks, NUMBERS, first, said);
            &&& bullets.lists == lists.push(None)
            &&& numbers.lists == lists.push(Some(first))
            &&& after(marks.push((BULLETS, first, said)), END, 0, said).lists == lists
            &&& after(marks.push((NUMBERS, first, said)), END, 0, said).lists == lists
        }),
{
    one_mark_more(marks, (BULLETS, first, said));
    one_mark_more(marks, (NUMBERS, first, said));
    one_mark_more(marks.push((BULLETS, first, said)), (END, 0, said));
    one_mark_more(marks.push((NUMBERS, first, said)), (END, 0, said));
    let lists = super::drafted(marks).lists;
    assert(lists.push(None).drop_last() =~= lists);
    assert(lists.push(Some(first)).drop_last() =~= lists);
}

/// What a heading holds becomes a heading of the level it was opened at, and text before it stays
/// outside.
pub proof fn a_heading_keeps_its_level(marks: Seq<Mark>, level: u64, said: Seq<char>)
    requires
        1 <= level <= 6,
        super::drafted(marks).spans.len() == 0,
        super::drafted(marks).marker.len() == 0,
    ensures
        ({
            let before = super::drafted(marks);
            let inside = marks.push((HEADING, level, Seq::empty())).push((TEXT, 0, said));
            let later = after(inside, END, 0, Seq::empty());
            &&& one_block_more(before, later)
            &&& later.blocks.last() matches BlockView::Heading { level: shown, spans, quoted }
                && shown as u64 == level && spans.len() == 1 && spans[0].text == said && (quoted
                <==> exists|i: int| 0 <= i < before.open.len() && before.open[i] == QUOTE)
        }),
{
    let opened = marks.push((HEADING, level, Seq::empty()));
    let inside = opened.push((TEXT, 0, said));
    let before = super::drafted(marks);
    let later = after(inside, END, 0, Seq::empty());
    one_mark_more(marks, (HEADING, level, Seq::empty()));
    one_mark_more(opened, (TEXT, 0, said));
    one_mark_more(inside, (END, 0, Seq::empty()));
    let open = before.open.push(HEADING);
    assert(super::drafted(inside).open == open);
    if before.open.contains(QUOTE) {
        let i = choose|i: int| 0 <= i < before.open.len() && before.open[i] == QUOTE;
        assert(open[i] == QUOTE);
    }
    assert(later.blocks.drop_last() =~= before.blocks);
}

/// A code block shows its text without the line break at its end, in the language it names.
pub proof fn a_code_block_keeps_its_text(
    marks: Seq<Mark>,
    language: Seq<char>,
    said: Seq<char>,
)
    requires
        super::drafted(marks).spans.len() == 0,
        super::drafted(marks).marker.len() == 0,
    ensures
        ({
            let before = super::drafted(marks);
            let opened = marks.push((CODE_BLOCK, 0, language));
            let later = after(opened.push((TEXT, 0, said.push('\n'))), END, 0, Seq::empty());
            let whole = after(opened.push((TEXT, 0, said)), END, 0, Seq::empty());
            &&& one_block_more(before, later)
            &&& later.blocks.last() matches BlockView::Pre { language: named, text } && text == said
                && (named is None <==> text::blank(language)) && (named matches Some(named)
                ==> named == text::trimmed(language))
            &&& said.len() > 0 && said.last() != '\n' ==> (whole.blocks.last() matches BlockView::Pre {
                text,
                ..
            } && text == said)
        }),
{
    let opened = marks.push((CODE_BLOCK, 0, language));
    let broken = opened.push((TEXT, 0, said.push('\n')));
    let plain = opened.push((TEXT, 0, said));
    one_mark_more(marks, (CODE_BLOCK, 0, language));
    one_mark_more(opened, (TEXT, 0, said.push('\n')));
    one_mark_more(opened, (TEXT, 0, said));
    one_mark_more(broken, (END, 0, Seq::empty()));
    one_mark_more(plain, (END, 0, Seq::empty()));
    text::trimming_blank_text_leaves_nothing(language);
    assert(after(broken, END, 0, Seq::empty()).blocks.drop_last() =~= super::drafted(marks).blocks);
    let held = super::drafted(broken).spans;
    one_span_is_its_text(held);
    assert(said.push('\n').drop_last() =~= said);
    let kept = super::drafted(plain).spans;
    one_span_is_its_text(kept);
}

/// A rule is a paragraph of its own, of three dashes.
pub proof fn a_rule_stands_alone(marks: Seq<Mark>, number: u64, said: Seq<char>)
    requires
        super::drafted(marks).spans.len() == 0,
        super::drafted(marks).marker.len() == 0,
    ensures
        ({
            let later = after(marks, RULE, number, said);
            &&& one_block_more(super::drafted(marks), later)
            &&& later.blocks.last() matches BlockView::Text { spans, tight, .. } && !tight
                && spans.len() == 1 && spans[0].text == seq!['\u{2014}', '\u{2014}', '\u{2014}']
        }),
{
    reveal_strlit("\u{2014}\u{2014}\u{2014}");
    one_mark_more(marks, (RULE, number, said));
    let later = after(marks, RULE, number, said);
    assert(later.blocks.drop_last() =~= super::drafted(marks).blocks);
    if let BlockView::Text { spans, .. } = later.blocks.last() {
        assert(spans[0].text =~= seq!['\u{2014}', '\u{2014}', '\u{2014}']);
    }
}

/// Whatever is left when a text ends becomes its last block.
pub proof fn nothing_is_left_over(draft: DraftView, tight: bool)
    ensures
        ({
            let later = super::flushed(draft, tight);
            &&& draft.spans.len() == 0 && draft.marker.len() == 0 ==> later == draft
            &&& draft.spans.len() > 0 ==> one_block_more(draft, later)
            &&& draft.spans.len() > 0 && draft.marker.len() == 0 ==> (
            later.blocks.last() matches BlockView::Text { spans, tight: packed, .. } && spans
                == draft.spans && packed == tight)
        }),
{
    let later = super::flushed(draft, tight);
    if draft.spans.len() > 0 {
        assert(later.blocks.drop_last() =~= draft.blocks);
    }
}

/// A cell goes to the end of the row that is open, a row starts empty, and a table starts without
/// rows.
pub proof fn cells_go_to_their_row(marks: Seq<Mark>, number: u64, said: Seq<char>)
    requires
        super::drafted(marks).spans.len() == 0,
        super::drafted(marks).marker.len() == 0,
    ensures
        ({
            let before = super::drafted(marks);
            let head = after(marks, TABLE_HEAD, number, said);
            let row = after(marks, TABLE_ROW, number, said);
            let cell = marks.push((TABLE_CELL, 0, Seq::empty())).push((TEXT, 0, said));
            let later = after(cell, END, 0, Seq::empty());
            &&& after(marks, TABLE, number, said).rows.len() == 0
            &&& head.rows.len() == before.rows.len() + 1 && head.rows.last().len() == 0
            &&& row.rows.len() == before.rows.len() + 1 && row.rows.last().len() == 0
            &&& head.rows.drop_last() == before.rows && row.rows.drop_last() == before.rows
            &&& before.rows.len() > 0 ==> later.rows.len() == before.rows.len()
                && later.rows.drop_last() == before.rows.drop_last() && later.rows.last()
                == before.rows.last().push(said) && later.blocks == before.blocks
        }),
{
    let opened = marks.push((TABLE_CELL, 0, Seq::empty()));
    let cell = opened.push((TEXT, 0, said));
    let before = super::drafted(marks);
    one_mark_more(marks, (TABLE, number, said));
    one_mark_more(marks, (TABLE_HEAD, number, said));
    one_mark_more(marks, (TABLE_ROW, number, said));
    one_mark_more(marks, (TABLE_CELL, 0, Seq::empty()));
    one_mark_more(opened, (TEXT, 0, said));
    one_mark_more(cell, (END, 0, Seq::empty()));
    assert(before.rows.push(Seq::empty()).drop_last() =~= before.rows);
    let held = super::drafted(cell).spans;
    one_span_is_its_text(held);
    let later = after(cell, END, 0, Seq::empty());
    if before.rows.len() > 0 {
        assert(later.rows.drop_last() =~= before.rows.drop_last());
    }
}

/// A column is as wide as its widest cell.
pub proof fn a_column_fits_its_cells(rows: Seq<Seq<Seq<char>>>, column: int, i: int)
    requires
        0 <= i < rows.len(),
        0 <= column < rows[i].len(),
    ensures
        rows[i][column].len() <= super::width(rows, column),
        exists|j: int|
            0 <= j < rows.len() && column < rows[j].len() && rows[j][column].len() == super::width(
                rows,
                column,
            ),
    decreases rows.len(),
{
    let before = rows.drop_last();
    let last = rows.len() - 1;
    if i < last {
        a_column_fits_its_cells(before, column, i);
        let j = choose|j: int|
            0 <= j < before.len() && column < before[j].len() && before[j][column].len()
                == super::width(before, column);
        if super::width(rows, column) == super::width(before, column) {
            assert(rows[j][column].len() == super::width(rows, column));
        } else {
            assert(rows[last][column].len() == super::width(rows, column));
        }
    } else {
        a_width_is_a_cells(before, column);
        if super::width(rows, column) == rows[last][column].len() {
            assert(rows[last][column].len() == super::width(rows, column));
        } else {
            let j = choose|j: int|
                0 <= j < before.len() && column < before[j].len() && before[j][column].len()
                    == super::width(before, column);
            assert(rows[j][column].len() == super::width(rows, column));
        }
    }
}

proof fn a_width_is_a_cells(rows: Seq<Seq<Seq<char>>>, column: int)
    requires
        0 <= column,
    ensures
        super::width(rows, column) == 0 || exists|j: int|
            0 <= j < rows.len() && column < rows[j].len() && rows[j][column].len() == super::width(
                rows,
                column,
            ),
    decreases rows.len(),
{
    if rows.len() > 0 {
        let before = rows.drop_last();
        let last = rows.len() - 1;
        a_width_is_a_cells(before, column);
        if column < rows[last].len() && rows[last][column].len() > super::width(before, column) {
            assert(rows[last][column].len() == super::width(rows, column));
        } else if super::width(before, column) != 0 {
            let j = choose|j: int|
                0 <= j < before.len() && column < before[j].len() && before[j][column].len()
                    == super::width(before, column);
            assert(rows[j][column].len() == super::width(rows, column));
        }
    }
}

/// A row of two cells is the first, filled up with spaces to the width of its column, a bar, and the
/// second as it is. A table of two rows is the one line under the other.
pub proof fn a_table_lines_its_columns_up(
    rows: Seq<Seq<Seq<char>>>,
    first: Seq<char>,
    second: Seq<char>,
    filler: Seq<char>,
)
    requires
        first.len() + filler.len() == super::width(rows, 0) || (filler.len() == 0 && first.len()
            >= super::width(rows, 0)),
        forall|i: int| 0 <= i < filler.len() ==> filler[i] == ' ',
    ensures
        super::row_text(rows, seq![first, second]) == first + filler + seq![' ', '|', ' '] + second,
        super::row_text(rows, seq![first]) == first,
        rows.len() == 1 ==> super::table_text(rows) == super::row_text(rows, rows[0]),
        rows.len() == 2 ==> super::table_text(rows) == super::row_text(rows, rows[0]) + seq!['\n']
            + super::row_text(rows, rows[1]),
{
    reveal_strlit(" | ");
    reveal_strlit("\n");
    let row = seq![first, second];
    let padded = text::padded(first, super::width(rows, 0));
    assert(padded =~= first + filler);
    let cells = Seq::new(
        row.len(),
        |i: int|
            if i + 1 < row.len() {
                text::padded(row[i], super::width(rows, i))
            } else {
                row[i]
            },
    );
    assert(cells.drop_last() =~= seq![padded]);
    assert(text::joined(cells.drop_last(), " | "@) == padded);
    assert(" | "@ =~= seq![' ', '|', ' ']);
    let lines = Seq::new(rows.len(), |i: int| super::row_text(rows, rows[i]));
    assert("\n"@ =~= seq!['\n']);
    if rows.len() == 2 {
        assert(lines.drop_last() =~= seq![lines[0]]);
        assert(text::joined(lines.drop_last(), "\n"@) == lines[0]);
    }
    let single = seq![first];
    let alone = Seq::new(
        single.len(),
        |i: int|
            if i + 1 < single.len() {
                text::padded(single[i], super::width(rows, i))
            } else {
                single[i]
            },
    );
    assert(alone =~= seq![first]);
}

/// A finished table is preformatted text without a language.
pub proof fn a_table_is_preformatted(marks: Seq<Mark>)
    requires
        super::drafted(marks).open.len() > 0,
        super::drafted(marks).open.last() == TABLE,
    ensures
        ({
            let before = super::drafted(marks);
            let later = after(marks, END, 0, Seq::empty());
            &&& later.blocks.len() == before.blocks.len() + 1
            &&& later.blocks.drop_last() == before.blocks
            &&& later.rows.len() == 0
            &&& later.blocks.last() matches BlockView::Pre { language, text } && language is None
                && text == super::table_text(before.rows)
        }),
{
    one_mark_more(marks, (END, 0, Seq::empty()));
    assert(after(marks, END, 0, Seq::empty()).blocks.drop_last() =~= super::drafted(marks).blocks);
}

/// What stands before a heading, a quote, a list, a table or a block of code or HTML is a block of its
/// own that packs against it. Nothing else that opens sets it apart.
pub proof fn what_stands_before_is_set_apart(
    marks: Seq<Mark>,
    code: u8,
    number: u64,
    said: Seq<char>,
)
    requires
        super::drafted(marks).spans.len() > 0,
        super::drafted(marks).marker.len() == 0,
    ensures
        ({
            let before = super::drafted(marks);
            let later = after(marks, code, number, said);
            let apart = code == HEADING || code == QUOTE || code == CODE_BLOCK || code == HTML_BLOCK
                || code == BULLETS || code == NUMBERS || code == TABLE;
            let within = code == PARAGRAPH || code == ITEM || code == TABLE_HEAD || code == TABLE_ROW
                || code == TABLE_CELL || code == EMPHASIS || code == STRONG || code == STRIKETHROUGH
                || code == LINK || code == IMAGE;
            &&& apart ==> one_block_more(before, later) && (
            later.blocks.last() matches BlockView::Text { spans, tight, quoted } && spans
                == before.spans && tight && (quoted <==> exists|i: int|
                0 <= i < before.open.len() && before.open[i] == QUOTE))
            &&& within ==> later.blocks == before.blocks && later.spans == before.spans
        }),
{
    one_mark_more(marks, (code, number, said));
    let before = super::drafted(marks);
    let later = after(marks, code, number, said);
    let flushed = super::flushed(before, true);
    assert(flushed.blocks.drop_last() =~= before.blocks);
}

/// The end of a block of HTML makes a block of its text, without the line break at its end.
pub proof fn a_raw_block_drops_its_last_break(marks: Seq<Mark>, said: Seq<char>)
    requires
        super::drafted(marks).open.len() > 0,
        super::drafted(marks).open.last() == HTML_BLOCK,
        super::drafted(marks).spans.len() == 0,
        super::drafted(marks).marker.len() == 0,
    ensures
        ({
            let before = super::drafted(marks);
            let later = after(marks.push((HTML, 0, said.push('\n'))), END, 0, Seq::empty());
            let whole = after(marks.push((HTML, 0, said)), END, 0, Seq::empty());
            &&& one_block_more(before, later)
            &&& later.blocks.last() matches BlockView::Text { spans, tight, .. } && !tight
                && spans.len() == 1 && spans[0].text == said
            &&& said.len() == 0 || said.last() != '\n' ==> (
            whole.blocks.last() matches BlockView::Text { spans, .. } && spans.len() == 1
                && spans[0].text == said)
        }),
{
    let before = super::drafted(marks);
    let broken = marks.push((HTML, 0, said.push('\n')));
    let kept = marks.push((HTML, 0, said));
    one_mark_more(marks, (HTML, 0, said.push('\n')));
    one_mark_more(marks, (HTML, 0, said));
    one_mark_more(broken, (END, 0, Seq::empty()));
    one_mark_more(kept, (END, 0, Seq::empty()));
    let later = after(broken, END, 0, Seq::empty());
    assert(said.push('\n').drop_last() =~= said);
    assert(said.push('\n').last() == '\n');
    assert(super::drafted(broken).open.last() == HTML_BLOCK);
    assert(super::drafted(broken).spans.len() == 1);
    assert(super::spans_unbroken(super::drafted(broken).spans).len() == 1);
    assert(later.blocks.drop_last() =~= before.blocks);
}

/// A paragraph that starts an item carries the marker of the item, and stays apart from its neighbours.
pub proof fn a_paragraph_carries_the_marker(marks: Seq<Mark>)
    requires
        super::drafted(marks).open.len() > 0,
        super::drafted(marks).open.last() == PARAGRAPH,
        super::drafted(marks).marker.len() > 0,
    ensures
        ({
            let before = super::drafted(marks);
            let later = after(marks, END, 0, Seq::empty());
            &&& one_block_more(before, later)
            &&& later.marker.len() == 0
            &&& later.blocks.last() matches BlockView::Text { spans, tight, .. } && !tight
                && spans.len() == before.spans.len() + 1 && spans[0].text == before.marker
                && spans.skip(1) == before.spans
        }),
{
    one_mark_more(marks, (END, 0, Seq::empty()));
    let before = super::drafted(marks);
    let later = after(marks, END, 0, Seq::empty());
    assert(later.blocks.drop_last() =~= before.blocks);
    assert((seq![super::bare(before.marker)] + before.spans).skip(1) =~= before.spans);
}

} // verus!
