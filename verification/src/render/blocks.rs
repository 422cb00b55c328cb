//! Building blocks from the marks of a CommonMark text.
//!
//! Lists become bulleted or numbered lines, tables become preformatted text with aligned columns,
//! images become links, and raw HTML is shown as the text it is.

use vstd::prelude::*;
use vstd::string::*;

use crate::render::commonmark::{
    mark_codes, mark_details, BULLETS, CODE, CODE_BLOCK, EMPHASIS, END, HARD_BREAK, HEADING, HTML,
    HTML_BLOCK, IMAGE, INLINE_HTML, ITEM, LINK, NOTHING, NUMBERS, PARAGRAPH, QUOTE, RULE, SOFT_BREAK,
    STRIKETHROUGH, STRONG, TABLE, TABLE_CELL, TABLE_HEAD, TABLE_ROW, TASK, TEXT,
};
use crate::render::{push_block, push_span, Block, BlockView, Span, SpanView, Style};
use crate::text;

pub mod laws;

verus! {

/// One mark of a text: its code, its number and its text.
pub type Mark = (u8, u64, Seq<char>);

/// A reply that is being built from marks.
pub struct Draft {
    /// What is open, the innermost last.
    pub open: Vec<u8>,
    /// The addresses of the open links and images, the innermost last.
    pub links: Vec<String>,
    /// The open lists, the innermost last: the number of the next item, or nothing for bullets.
    pub lists: Vec<Option<u64>>,
    /// What the next paragraph of a list item starts with.
    pub marker: String,
    /// The text that no block holds yet.
    pub spans: Vec<Span>,
    /// The level of the heading last opened.
    pub level: u64,
    /// The language of the code block last opened.
    pub language: String,
    /// The rows of the table last opened.
    pub rows: Vec<Vec<String>>,
    /// The finished blocks.
    pub blocks: Vec<Block>,
}

/// What a [`Draft`] holds.
#[verifier::ext_equal]
pub struct DraftView {
    pub open: Seq<u8>,
    pub links: Seq<Seq<char>>,
    pub lists: Seq<Option<u64>>,
    pub marker: Seq<char>,
    pub spans: Seq<SpanView>,
    pub level: u64,
    pub language: Seq<char>,
    pub rows: Seq<Seq<Seq<char>>>,
    pub blocks: Seq<BlockView>,
}

impl View for Draft {
    type V = DraftView;

    open spec fn view(&self) -> DraftView {
        DraftView {
            open: self.open@,
            links: self.links.deep_view(),
            lists: self.lists@,
            marker: self.marker@,
            spans: self.spans.deep_view(),
            level: self.level,
            language: self.language@,
            rows: self.rows.deep_view(),
            blocks: self.blocks.deep_view(),
        }
    }
}

/// A draft that holds nothing yet.
pub open spec fn blank_draft() -> DraftView {
    DraftView {
        open: Seq::empty(),
        links: Seq::empty(),
        lists: Seq::empty(),
        marker: Seq::empty(),
        spans: Seq::empty(),
        level: 0,
        language: Seq::empty(),
        rows: Seq::empty(),
        blocks: Seq::empty(),
    }
}

/// A span of text without style or link.
pub open spec fn bare(text: Seq<char>) -> SpanView {
    SpanView { text, style: crate::render::plain_style(), link: None }
}

/// The draft with `text` appended in the style of what is open.
pub open spec fn with_text(draft: DraftView, text: Seq<char>, code: bool) -> DraftView {
    let span = SpanView {
        text,
        style: Style {
            bold: draft.open.contains(STRONG),
            italic: draft.open.contains(EMPHASIS),
            strikethrough: draft.open.contains(STRIKETHROUGH),
            code,
        },
        link: if draft.links.len() > 0 {
            Some(draft.links.last())
        } else {
            None
        },
    };
    DraftView { spans: draft.spans.push(span), ..draft }
}

/// The draft with the text that no block holds yet made into a paragraph, after the marker of its
/// list item where there is one.
pub open spec fn flushed(draft: DraftView, tight: bool) -> DraftView {
    let spans = if draft.marker.len() > 0 {
        seq![bare(draft.marker)] + draft.spans
    } else {
        draft.spans
    };
    if spans.len() == 0 {
        draft
    } else {
        DraftView {
            marker: Seq::empty(),
            spans: Seq::empty(),
            blocks: draft.blocks.push(
                BlockView::Text { spans, quoted: draft.open.contains(QUOTE), tight },
            ),
            ..draft
        }
    }
}

/// The text of a run of spans, without style or links.
pub open spec fn spans_text(spans: Seq<SpanView>) -> Seq<char>
    decreases spans.len(),
{
    if spans.len() == 0 {
        Seq::empty()
    } else {
        spans_text(spans.drop_last()) + spans.last().text
    }
}

/// `text` without the line break it may end in.
pub open spec fn unbroken(text: Seq<char>) -> Seq<char> {
    if text.len() > 0 && text.last() == '\n' {
        text.drop_last()
    } else {
        text
    }
}

/// The spans without the line break that the last of them may end in.
pub open spec fn spans_unbroken(spans: Seq<SpanView>) -> Seq<SpanView> {
    if spans.len() == 0 {
        spans
    } else {
        let last = spans.last();
        spans.drop_last().push(SpanView { text: unbroken(last.text), ..last })
    }
}

/// The width of a column: that of its widest cell.
pub open spec fn width(rows: Seq<Seq<Seq<char>>>, column: int) -> nat
    decreases rows.len(),
{
    if rows.len() == 0 {
        0
    } else {
        let above = width(rows.drop_last(), column);
        let row = rows.last();
        if column < row.len() && row[column].len() > above {
            row[column].len()
        } else {
            above
        }
    }
}

/// One row of a table: its cells side by side, each but the last filled up to its column's width.
pub open spec fn row_text(rows: Seq<Seq<Seq<char>>>, row: Seq<Seq<char>>) -> Seq<char> {
    text::joined(
        Seq::new(
            row.len(),
            |i: int|
                if i + 1 < row.len() {
                    text::padded(row[i], width(rows, i))
                } else {
                    row[i]
                },
        ),
        " | "@,
    )
}

/// A table as lines of text with aligned columns.
pub open spec fn table_text(rows: Seq<Seq<Seq<char>>>) -> Seq<char> {
    text::joined(Seq::new(rows.len(), |i: int| row_text(rows, rows[i])), "\n"@)
}

/// The draft with its text made into a heading.
pub open spec fn with_heading(draft: DraftView) -> DraftView {
    let block = BlockView::Heading {
        level: if draft.level <= 6 {
            draft.level as u8
        } else {
            6
        },
        spans: draft.spans,
        quoted: draft.open.contains(QUOTE),
    };
    DraftView { spans: Seq::empty(), blocks: draft.blocks.push(block), ..draft }
}

/// The draft with its text made into a code block.
pub open spec fn with_code(draft: DraftView) -> DraftView {
    let language = text::trimmed(draft.language);
    let block = BlockView::Pre {
        language: if language.len() > 0 {
            Some(language)
        } else {
            None
        },
        text: unbroken(spans_text(draft.spans)),
    };
    DraftView { spans: Seq::empty(), blocks: draft.blocks.push(block), ..draft }
}

/// The draft with its rows made into a block of preformatted text.
pub open spec fn with_table(draft: DraftView) -> DraftView {
    let block = BlockView::Pre { language: None, text: table_text(draft.rows) };
    DraftView { rows: Seq::empty(), blocks: draft.blocks.push(block), ..draft }
}

/// The draft with its text made into the next cell of the last row.
pub open spec fn with_cell(draft: DraftView) -> DraftView {
    if draft.rows.len() == 0 {
        draft
    } else {
        let row = draft.rows.last().push(spans_text(draft.spans));
        DraftView { spans: Seq::empty(), rows: draft.rows.drop_last().push(row), ..draft }
    }
}

/// What an item of the innermost list starts with.
pub open spec fn item_marker(lists: Seq<Option<u64>>) -> Seq<char> {
    if lists.len() == 0 {
        Seq::empty()
    } else {
        let indent = text::spaces((2 * (lists.len() - 1)) as nat);
        match lists.last() {
            Some(number) => indent + text::decimal(number as nat) + ". "@,
            None => indent + "\u{2022} "@,
        }
    }
}

/// The open lists once an item of the innermost one has started.
pub open spec fn advanced(lists: Seq<Option<u64>>) -> Seq<Option<u64>> {
    if lists.len() > 0 && lists.last() is Some && lists.last()->0 < u64::MAX {
        lists.drop_last().push(Some((lists.last()->0 + 1) as u64))
    } else {
        lists
    }
}

/// The draft once what `code` stands for has been opened.
pub open spec fn opened(draft: DraftView, code: u8, number: u64, text: Seq<char>) -> DraftView {
    let apart = if code == HEADING || code == QUOTE || code == CODE_BLOCK || code == HTML_BLOCK
        || code == BULLETS || code == NUMBERS || code == TABLE {
        flushed(draft, true)
    } else {
        draft
    };
    let inside = DraftView { open: apart.open.push(code), ..apart };
    if code == HEADING {
        DraftView { level: number, ..inside }
    } else if code == CODE_BLOCK {
        DraftView { language: text, ..inside }
    } else if code == BULLETS {
        DraftView { lists: inside.lists.push(None), ..inside }
    } else if code == NUMBERS {
        DraftView { lists: inside.lists.push(Some(number)), ..inside }
    } else if code == ITEM {
        DraftView { marker: item_marker(inside.lists), lists: advanced(inside.lists), ..inside }
    } else if code == TABLE {
        DraftView { rows: Seq::empty(), ..inside }
    } else if code == TABLE_HEAD || code == TABLE_ROW {
        DraftView { rows: inside.rows.push(Seq::empty()), ..inside }
    } else if code == LINK || code == IMAGE {
        DraftView { links: inside.links.push(text), ..inside }
    } else {
        inside
    }
}

/// The draft once what was opened last has been closed.
pub open spec fn closed(draft: DraftView) -> DraftView {
    if draft.open.len() == 0 {
        draft
    } else {
        let code = draft.open.last();
        let inside = if code == PARAGRAPH {
            flushed(draft, false)
        } else if code == HTML_BLOCK {
            flushed(DraftView { spans: spans_unbroken(draft.spans), ..draft }, false)
        } else if code == ITEM {
            flushed(draft, true)
        } else if code == HEADING {
            with_heading(draft)
        } else if code == CODE_BLOCK {
            with_code(draft)
        } else if code == TABLE {
            with_table(draft)
        } else if code == TABLE_CELL {
            with_cell(draft)
        } else if (code == BULLETS || code == NUMBERS) && draft.lists.len() > 0 {
            DraftView { lists: draft.lists.drop_last(), ..draft }
        } else if (code == LINK || code == IMAGE) && draft.links.len() > 0 {
            DraftView { links: draft.links.drop_last(), ..draft }
        } else {
            draft
        };
        DraftView { open: draft.open.drop_last(), ..inside }
    }
}

/// The draft once one more mark has been read.
pub open spec fn marked(draft: DraftView, mark: Mark) -> DraftView {
    let (code, number, text) = mark;
    if code == TEXT || code == HTML || code == INLINE_HTML {
        with_text(draft, text, false)
    } else if code == CODE {
        with_text(draft, text, true)
    } else if code == SOFT_BREAK || code == HARD_BREAK {
        with_text(draft, "\n"@, false)
    } else if code == RULE {
        flushed(with_text(flushed(draft, true), "\u{2014}\u{2014}\u{2014}"@, false), false)
    } else if code == TASK {
        with_text(
            draft,
            if number == 1 {
                "\u{2611} "@
            } else {
                "\u{2610} "@
            },
            false,
        )
    } else if code == END {
        closed(draft)
    } else if code == NOTHING {
        draft
    } else {
        opened(draft, code, number, text)
    }
}

/// The draft that a run of marks builds.
pub open spec fn drafted(marks: Seq<Mark>) -> DraftView
    decreases marks.len(),
{
    if marks.len() == 0 {
        blank_draft()
    } else {
        marked(drafted(marks.drop_last()), marks.last())
    }
}

/// The blocks of a CommonMark text.
pub open spec fn blocks_of(markdown: Seq<char>) -> Seq<BlockView> {
    flushed(drafted(crate::render::commonmark::commonmark(markdown)), false).blocks
}

/// The text of a run of spans, without style or links.
fn text_of(spans: &Vec<Span>) -> (out: String)
    ensures
        out@ == spans_text(spans.deep_view()),
{
    let ghost views = spans.deep_view();
    let mut out = String::new();
    let mut i: usize = 0;
    while i < spans.len()
        invariant
            i <= spans.len(),
            views == spans.deep_view(),
            out@ == spans_text(views.take(i as int)),
        decreases spans.len() - i,
    {
        assert(views.take(i + 1).drop_last() == views.take(i as int));
        assert(views.take(i + 1).last() == spans@[i as int].deep_view());
        out.append(spans[i].text.as_str());
        i += 1;
    }
    assert(views.take(i as int) == views);
    out
}

/// `text` without the line break it may end in.
fn without_break(text: &str) -> (out: String)
    ensures
        out@ == unbroken(text@),
{
    let chars = text::chars_of(text);
    if chars.len() > 0 && chars[chars.len() - 1] == '\n' {
        let out = text::slice_of(&chars, 0, chars.len() - 1);
        assert(out@ =~= text@.drop_last());
        out
    } else {
        text.to_owned()
    }
}

/// The width of a column.
fn column_width(rows: &Vec<Vec<String>>, column: usize) -> (widest: usize)
    ensures
        widest == width(rows.deep_view(), column as int),
{
    let ghost views = rows.deep_view();
    let mut widest: usize = 0;
    let mut i: usize = 0;
    while i < rows.len()
        invariant
            i <= rows.len(),
            views == rows.deep_view(),
            widest == width(views.take(i as int), column as int),
        decreases rows.len() - i,
    {
        assert(views.take(i + 1).drop_last() == views.take(i as int));
        assert(views.take(i + 1).last() == rows@[i as int].deep_view());
        if column < rows[i].len() {
            let length: usize = text::chars_of(rows[i][column].as_str()).len();
            if length > widest {
                widest = length;
            }
        }
        i += 1;
    }
    assert(views.take(i as int) == views);
    widest
}

/// One row of a table.
fn row_line(rows: &Vec<Vec<String>>, row: &Vec<String>) -> (line: String)
    ensures
        line@ == row_text(rows.deep_view(), row.deep_view()),
{
    let ghost cells = Seq::new(
        row.deep_view().len(),
        |i: int|
            if i + 1 < row.deep_view().len() {
                text::padded(row.deep_view()[i], width(rows.deep_view(), i))
            } else {
                row.deep_view()[i]
            },
    );
    let mut parts: Vec<String> = Vec::new();
    let mut i: usize = 0;
    while i < row.len()
        invariant
            i <= row.len(),
            cells == Seq::new(
                row.deep_view().len(),
                |i: int|
                    if i + 1 < row.deep_view().len() {
                        text::padded(row.deep_view()[i], width(rows.deep_view(), i))
                    } else {
                        row.deep_view()[i]
                    },
            ),
            parts.deep_view() == cells.take(i as int),
        decreases row.len() - i,
    {
        let cell = if i == row.len() - 1 {
            row[i].clone()
        } else {
            text::pad(row[i].as_str(), column_width(rows, i))
        };
        assert(cells[i as int] == cell@);
        text::push(&mut parts, cell);
        assert(parts.deep_view() =~= cells.take(i + 1));
        i += 1;
    }
    assert(cells.take(i as int) =~= cells);
    text::join(&parts, " | ")
}

/// A table as lines of text.
fn table_lines(rows: &Vec<Vec<String>>) -> (lines: String)
    ensures
        lines@ == table_text(rows.deep_view()),
{
    let ghost views = rows.deep_view();
    let ghost texts = Seq::new(views.len(), |i: int| row_text(views, views[i]));
    let mut parts: Vec<String> = Vec::new();
    let mut i: usize = 0;
    while i < rows.len()
        invariant
            i <= rows.len(),
            views == rows.deep_view(),
            texts == Seq::new(views.len(), |i: int| row_text(views, views[i])),
            parts.deep_view() == texts.take(i as int),
        decreases rows.len() - i,
    {
        assert(views[i as int] == rows@[i as int].deep_view());
        text::push(&mut parts, row_line(rows, &rows[i]));
        assert(parts.deep_view() =~= texts.take(i + 1));
        i += 1;
    }
    assert(texts.take(i as int) =~= texts);
    text::join(&parts, "\n")
}

/// Whether `codes` holds `code`.
fn has_code(codes: &Vec<u8>, code: u8) -> (found: bool)
    ensures
        found == codes@.contains(code),
{
    let mut i: usize = 0;
    while i < codes.len()
        invariant
            i <= codes.len(),
            forall|j: int| 0 <= j < i ==> codes@[j] != code,
        decreases codes.len() - i,
    {
        if codes[i] == code {
            return true;
        }
        i += 1;
    }
    false
}

impl Draft {
    /// A draft that holds nothing yet.
    pub fn new() -> (draft: Draft)
        ensures
            draft@ == blank_draft(),
    {
        let draft = Draft {
            open: Vec::new(),
            links: Vec::new(),
            lists: Vec::new(),
            marker: String::new(),
            spans: Vec::new(),
            level: 0,
            language: String::new(),
            rows: Vec::new(),
            blocks: Vec::new(),
        };
        assert(draft@ =~= blank_draft());
        draft
    }

    /// Appends text in the style of what is open.
    fn push_text(&mut self, text: &str, code: bool)
        ensures
            final(self)@ == with_text(old(self)@, text@, code),
    {
        let style = Style {
            bold: has_code(&self.open, STRONG),
            italic: has_code(&self.open, EMPHASIS),
            strikethrough: has_code(&self.open, STRIKETHROUGH),
            code,
        };
        let link = if self.links.len() > 0 {
            assert(self@.links.last() == self.links@[self.links@.len() - 1]@);
            Some(self.links[self.links.len() - 1].clone())
        } else {
            None
        };
        push_span(&mut self.spans, Span { text: text.to_owned(), style, link });
        assert(self@ =~= with_text(old(self)@, text@, code));
    }

    /// Makes a paragraph of the text that no block holds yet.
    fn flush(&mut self, tight: bool)
        ensures
            final(self)@ == flushed(old(self)@, tight),
    {
        let ghost before = self@;
        let marked = text::chars_of(self.marker.as_str()).len() > 0;
        if !marked && self.spans.len() == 0 {
            return;
        }
        let mut spans: Vec<Span> = Vec::new();
        if marked {
            push_span(
                &mut spans,
                Span { text: self.marker.clone(), style: Style::plain(), link: None },
            );
        }
        let ghost first = spans.deep_view();
        let mut i: usize = 0;
        while i < self.spans.len()
            invariant
                i <= self.spans.len(),
                self@ == before,
                spans.deep_view() == first + before.spans.take(i as int),
            decreases self.spans.len() - i,
        {
            push_span(&mut spans, self.spans[i].copy());
            assert(spans.deep_view() =~= first + before.spans.take(i + 1));
            i += 1;
        }
        assert(before.spans.take(i as int) =~= before.spans);
        assert(first =~= (if before.marker.len() > 0 {
            seq![bare(before.marker)]
        } else {
            Seq::empty()
        }));
        assert(Seq::<SpanView>::empty() + before.spans =~= before.spans);
        let quoted = has_code(&self.open, QUOTE);
        push_block(&mut self.blocks, Block::Text { spans, quoted, tight });
        self.marker = String::new();
        self.spans = Vec::new();
        assert(self@ =~= flushed(before, tight));
    }

    /// Makes a heading of the text that no block holds yet.
    fn finish_heading(&mut self)
        ensures
            final(self)@ == with_heading(old(self)@),
    {
        let level: u8 = if self.level <= 6 {
            self.level as u8
        } else {
            6
        };
        let quoted = has_code(&self.open, QUOTE);
        let mut spans: Vec<Span> = Vec::new();
        std::mem::swap(&mut spans, &mut self.spans);
        push_block(&mut self.blocks, Block::Heading { level, spans, quoted });
        assert(self@ =~= with_heading(old(self)@));
    }

    /// Makes a code block of the text that no block holds yet.
    fn finish_code(&mut self)
        ensures
            final(self)@ == with_code(old(self)@),
    {
        let language = text::trim(self.language.as_str());
        let named = text::chars_of(language.as_str()).len() > 0;
        let content = text_of(&self.spans);
        let body = without_break(content.as_str());
        push_block(
            &mut self.blocks,
            Block::Pre {
                language: if named {
                    Some(language)
                } else {
                    None
                },
                text: body,
            },
        );
        self.spans = Vec::new();
        assert(self@ =~= with_code(old(self)@));
    }

    /// Makes preformatted text of the table last opened.
    fn finish_table(&mut self)
        ensures
            final(self)@ == with_table(old(self)@),
    {
        let body = table_lines(&self.rows);
        push_block(&mut self.blocks, Block::Pre { language: None, text: body });
        self.rows = Vec::new();
        assert(self@ =~= with_table(old(self)@));
    }

    /// Makes a cell of the text that no block holds yet.
    fn finish_cell(&mut self)
        ensures
            final(self)@ == with_cell(old(self)@),
    {
        let ghost before = self.rows@;
        if self.rows.len() > 0 {
            let cell = text_of(&self.spans);
            let mut row = self.rows.pop().unwrap();
            text::push(&mut row, cell);
            self.rows.push(row);
            self.spans = Vec::new();
            proof {
                let rows = old(self)@.rows;
                assert forall|i: int| 0 <= i < self.rows@.len() implies self.rows.deep_view()[i]
                    == with_cell(old(self)@).rows[i] by {
                    if i < before.len() - 1 {
                        assert(self.rows@[i] == before[i]);
                        assert(rows[i] == before[i].deep_view());
                    }
                }
                assert(self.rows.deep_view() =~= with_cell(old(self)@).rows);
                assert(self@ =~= with_cell(old(self)@));
            }
        }
    }

    /// Starts an item of the innermost list.
    fn start_item(&mut self)
        ensures
            final(self)@ == (DraftView {
                marker: item_marker(old(self)@.lists),
                lists: advanced(old(self)@.lists),
                ..old(self)@
            }),
    {
        let mut marker = String::new();
        if self.lists.len() > 0 {
            let depth: usize = self.lists.len() - 1;
            let mut i: usize = 0;
            assert(marker@ =~= text::spaces(0));
            while i < depth
                invariant
                    i <= depth,
                    marker@ == text::spaces((2 * i) as nat),
                decreases depth - i,
            {
                marker.append("  ");
                proof {
                    reveal_strlit("  ");
                }
                i += 1;
                assert(marker@ =~= text::spaces((2 * i) as nat));
            }
            let next = self.lists[depth];
            match next {
                Some(number) => {
                    marker.append(text::number(number).as_str());
                    marker.append(". ");
                    if number < u64::MAX {
                        self.lists.pop();
                        self.lists.push(Some(number + 1));
                    }
                },
                None => {
                    marker.append("\u{2022} ");
                },
            }
        }
        self.marker = marker;
        assert(self@ =~= (DraftView {
            marker: item_marker(old(self)@.lists),
            lists: advanced(old(self)@.lists),
            ..old(self)@
        }));
    }

    /// Opens what `code` stands for.
    fn start(&mut self, code: u8, number: u64, text: &str)
        ensures
            final(self)@ == opened(old(self)@, code, number, text@),
    {
        if code == HEADING || code == QUOTE || code == CODE_BLOCK || code == HTML_BLOCK || code
            == BULLETS || code == NUMBERS || code == TABLE {
            self.flush(true);
        }
        self.open.push(code);
        if code == HEADING {
            self.level = number;
        } else if code == CODE_BLOCK {
            self.language = text.to_owned();
        } else if code == BULLETS {
            self.lists.push(None);
        } else if code == NUMBERS {
            self.lists.push(Some(number));
        } else if code == ITEM {
            self.start_item();
        } else if code == TABLE {
            self.rows = Vec::new();
        } else if code == TABLE_HEAD || code == TABLE_ROW {
            let ghost before = self.rows@;
            let ghost views = self.rows.deep_view();
            self.rows.push(Vec::new());
            assert forall|i: int| 0 <= i < self.rows@.len() implies self.rows.deep_view()[i]
                == views.push(Seq::empty())[i] by {
                if i < before.len() {
                    assert(self.rows@[i] == before[i]);
                    assert(views[i] == before[i].deep_view());
                } else {
                    assert(self.rows@[i].deep_view() =~= Seq::empty());
                }
            }
            assert(self.rows.deep_view() =~= views.push(Seq::empty()));
        } else if code == LINK || code == IMAGE {
            text::push(&mut self.links, text.to_owned());
        }
        assert(self@ =~= opened(old(self)@, code, number, text@));
    }

    /// Closes what was opened last.
    fn finish(&mut self)
        ensures
            final(self)@ == closed(old(self)@),
    {
        if self.open.len() == 0 {
            return;
        }
        let code: u8 = self.open[self.open.len() - 1];
        if code == PARAGRAPH {
            self.flush(false);
        } else if code == HTML_BLOCK {
            if self.spans.len() > 0 {
                let ghost before = self.spans@;
                let ghost views = self.spans.deep_view();
                let last = self.spans.pop().unwrap();
                let body = without_break(last.text.as_str());
                self.spans.push(Span { text: body, ..last });
                assert(self.spans.deep_view() =~= spans_unbroken(views)) by {
                    assert forall|i: int| 0 <= i < views.len() implies self.spans.deep_view()[i]
                        == spans_unbroken(views)[i] by {
                        assert(views[i] == before[i].deep_view());
                        if i < views.len() - 1 {
                            assert(self.spans@[i] == before[i]);
                        }
                    }
                }
                assert(self@ =~= (DraftView {
                    spans: spans_unbroken(old(self)@.spans),
                    ..old(self)@
                }));
            }
            self.flush(false);
        } else if code == ITEM {
            self.flush(true);
        } else if code == HEADING {
            self.finish_heading();
        } else if code == CODE_BLOCK {
            self.finish_code();
        } else if code == TABLE {
            self.finish_table();
        } else if code == TABLE_CELL {
            self.finish_cell();
        } else if code == BULLETS || code == NUMBERS {
            self.lists.pop();
        } else if code == LINK || code == IMAGE {
            let ghost before = self.links@;
            let ghost views = self.links.deep_view();
            self.links.pop();
            proof {
                if views.len() > 0 {
                    assert(self.links.deep_view() =~= views.drop_last()) by {
                        assert forall|i: int| 0 <= i < views.len() - 1 implies
                            self.links.deep_view()[i] == views[i] by {
                            assert(self.links@[i] == before[i]);
                        }
                    }
                } else {
                    assert(self.links.deep_view() =~= views);
                }
            }
        }
        self.open.pop();
        assert(self@ =~= closed(old(self)@));
    }

    /// Reads one more mark.
    pub fn mark(&mut self, code: u8, number: u64, text: &str)
        ensures
            final(self)@ == marked(old(self)@, (code, number, text@)),
            code == TASK && number == 1 ==> final(self)@.spans.len() == old(self)@.spans.len() + 1
                && final(self)@.spans.last().text == seq!['\u{2611}', ' '],
            code == TASK && number == 0 ==> final(self)@.spans.len() == old(self)@.spans.len() + 1
                && final(self)@.spans.last().text == seq!['\u{2610}', ' '],
            code == TEXT || code == CODE || code == HTML || code == INLINE_HTML
                ==> final(self)@.spans.len() == old(self)@.spans.len() + 1
                && final(self)@.spans.last().text == text@ && final(self)@.spans.last().style.code
                == (code == CODE),
    {
        proof {
            reveal_strlit("\u{2611} ");
            reveal_strlit("\u{2610} ");
            assert("\u{2611} "@ =~= seq!['\u{2611}', ' ']);
            assert("\u{2610} "@ =~= seq!['\u{2610}', ' ']);
        }
        if code == TEXT || code == HTML || code == INLINE_HTML {
            self.push_text(text, false);
        } else if code == CODE {
            self.push_text(text, true);
        } else if code == SOFT_BREAK || code == HARD_BREAK {
            self.push_text("\n", false);
        } else if code == RULE {
            self.flush(true);
            self.push_text("\u{2014}\u{2014}\u{2014}", false);
            self.flush(false);
        } else if code == TASK {
            if number == 1 {
                self.push_text("\u{2611} ", false);
            } else {
                self.push_text("\u{2610} ", false);
            }
        } else if code == END {
            self.finish();
        } else if code != NOTHING {
            self.start(code, number, text);
        }
    }
}

/// Reads a CommonMark text as blocks.
pub fn parse(markdown: &str) -> (blocks: Vec<Block>)
    ensures
        blocks.deep_view() == blocks_of(markdown@),
{
    let ghost marks = crate::render::commonmark::commonmark(markdown@);
    let codes = mark_codes(markdown);
    let details = mark_details(markdown);
    let mut draft = Draft::new();
    let mut i: usize = 0;
    while i < codes.len() && i < details.len()
        invariant
            i <= codes@.len(),
            marks == crate::render::commonmark::commonmark(markdown@),
            codes@ == marks.map_values(|mark: Mark| mark.0),
            details.deep_view() == marks.map_values(|mark: Mark| (mark.1, mark.2)),
            draft@ == drafted(marks.take(i as int)),
        decreases codes@.len() - i,
    {
        proof {
            assert(marks.take(i + 1).drop_last() == marks.take(i as int));
            assert(codes@[i as int] == marks[i as int].0);
            assert(details.deep_view()[i as int] == (marks[i as int].1, marks[i as int].2));
            assert(details.deep_view()[i as int] == details@[i as int].deep_view());
        }
        draft.mark(codes[i], details[i].0, details[i].1.as_str());
        i += 1;
    }
    assert(details.deep_view().len() == details@.len());
    assert(marks.take(i as int) =~= marks);
    draft.flush(false);
    draft.blocks
}

} // verus!
