//! CommonMark as a list of marks: what opens, what closes, and the text between.

use pulldown_cmark::Event::{Code, End, HardBreak, Html, InlineHtml, Rule, SoftBreak, Start};
use pulldown_cmark::Event::{TaskListMarker, Text};
use pulldown_cmark::Tag::{BlockQuote, CodeBlock, Emphasis, Heading, HtmlBlock, Image, Item, Link};
use pulldown_cmark::Tag::{List, Paragraph, Strikethrough, Strong, Table, TableCell, TableHead};
use pulldown_cmark::Tag::TableRow;
use pulldown_cmark::{CodeBlockKind, Options, Parser};
use vstd::prelude::*;

verus! {

/// Something that shows nothing.
pub const NOTHING: u8 = 0;

/// Text.
pub const TEXT: u8 = 1;

/// Code within a line.
pub const CODE: u8 = 2;

/// A line break in the source of a paragraph.
pub const SOFT_BREAK: u8 = 3;

/// A rule across the page.
pub const RULE: u8 = 4;

/// The box of a task.
pub const TASK: u8 = 5;

/// The end of whatever was opened last.
pub const END: u8 = 6;

/// Raw HTML in a block of it.
pub const HTML: u8 = 7;

/// Raw HTML within a line.
pub const INLINE_HTML: u8 = 8;

/// A line break that was asked for.
pub const HARD_BREAK: u8 = 9;

/// Opens a paragraph.
pub const PARAGRAPH: u8 = 10;

/// Opens a heading.
pub const HEADING: u8 = 11;

/// Opens a block quote.
pub const QUOTE: u8 = 12;

/// Opens a code block.
pub const CODE_BLOCK: u8 = 13;

/// Opens a block of raw HTML.
pub const HTML_BLOCK: u8 = 14;

/// Opens a bulleted list.
pub const BULLETS: u8 = 15;

/// Opens an item of a list.
pub const ITEM: u8 = 16;

/// Opens a table.
pub const TABLE: u8 = 17;

/// Opens the first row of a table.
pub const TABLE_HEAD: u8 = 18;

/// Opens a further row of a table.
pub const TABLE_ROW: u8 = 19;

/// Opens a cell of a row.
pub const TABLE_CELL: u8 = 20;

/// Opens emphasis.
pub const EMPHASIS: u8 = 21;

/// Opens strong emphasis.
pub const STRONG: u8 = 22;

/// Opens struck-through text.
pub const STRIKETHROUGH: u8 = 23;

/// Opens a link.
pub const LINK: u8 = 24;

/// Opens an image.
pub const IMAGE: u8 = 25;

/// Opens a numbered list.
pub const NUMBERS: u8 = 26;

/// Opens something else.
pub const OTHER: u8 = 27;

/// The marks that CommonMark reads in a text, with tables, strikethrough and task lists: for each
/// its code, its number and its text, as [`mark_codes`] and [`mark_details`] list them.
pub uninterp spec fn commonmark(markdown: Seq<char>) -> Seq<(u8, u64, Seq<char>)>;

/// The code of each mark in `markdown`, in order.
///
/// `pulldown_cmark::Parser` reads the text, with tables, strikethrough and task lists switched on.
/// What it yields for a text is a function of the text. Each of its events becomes one code, of those
/// that this module names.
#[verifier::external_body]
pub(crate) fn mark_codes(markdown: &str) -> (codes: Vec<u8>)
    ensures
        codes@ == commonmark(markdown@).map_values(|mark: (u8, u64, Seq<char>)| mark.0),
{
    Parser::new_ext(
        markdown, Options::ENABLE_TABLES | Options::ENABLE_STRIKETHROUGH | Options::ENABLE_TASKLISTS,
    ).map(|event| match event {
        Text(_) => TEXT, Html(_) => HTML, InlineHtml(_) => INLINE_HTML, Code(_) => CODE,
        SoftBreak => SOFT_BREAK, HardBreak => HARD_BREAK, Rule => RULE, TaskListMarker(_) => TASK,
        End(_) => END, Start(tag) => match tag {
            Paragraph => PARAGRAPH, Heading { .. } => HEADING, BlockQuote(_) => QUOTE,
            CodeBlock(_) => CODE_BLOCK, HtmlBlock => HTML_BLOCK, List(None) => BULLETS,
            Item => ITEM, Table(_) => TABLE, TableHead => TABLE_HEAD, TableRow => TABLE_ROW,
            TableCell => TABLE_CELL, Emphasis => EMPHASIS, Strong => STRONG, List(_) => NUMBERS,
            Strikethrough => STRIKETHROUGH, Link { .. } => LINK, Image { .. } => IMAGE, _ => OTHER,
        },
        _ => NOTHING,
    }).collect()
}

/// The number and the text of each mark in `markdown`, in order.
///
/// The same reading as [`mark_codes`]. The text is what a text mark holds, the address of a link or
/// an image, and the language of a fenced block. The number is the level of a heading, the first
/// number of an ordered list, and one for a task that is done. Where there is no such thing the
/// number is zero and the text empty.
#[verifier::external_body]
pub(crate) fn mark_details(markdown: &str) -> (details: Vec<(u64, String)>)
    ensures
        details.deep_view() == commonmark(markdown@).map_values(
            |mark: (u8, u64, Seq<char>)| (mark.1, mark.2),
        ),
{
    let options = Options::ENABLE_TABLES | Options::ENABLE_STRIKETHROUGH | Options::ENABLE_TASKLISTS;
    Parser::new_ext(markdown, options).map(|event| match event {
        Text(text) | Html(text) | InlineHtml(text) | Code(text) => (0, text.into_string()),
        TaskListMarker(done) => (done as u64, String::new()),
        Start(Heading { level, .. }) => (level as u64, String::new()),
        Start(List(Some(first))) => (first, String::new()),
        Start(Link { dest_url, .. }) | Start(Image { dest_url, .. }) => (0, dest_url.into_string()),
        Start(CodeBlock(CodeBlockKind::Fenced(info))) => (0, info.into_string()),
        _ => (0, String::new()),
    }).collect()
}

} // verus!
