//! The platform-neutral form of a reply: blocks of styled text, and the splitting of a long reply
//! into several messages.
//!
//! A dialect says how a run of blocks is written and how long the result counts as. Splitting works
//! on the structure rather than on the written text, so a style that spans a cut is closed before
//! it and opened again after it.

use vstd::prelude::*;

use crate::render::blocks::parse;
use crate::render::split::{compose, Dialect};
use crate::text;

pub mod blocks;
pub mod commonmark;
pub mod laws;
pub mod split;
pub mod verbatim;

verus! {

/// How a run of text looks.
#[derive(Clone, Copy, Debug, PartialEq, Eq, Structural)]
pub struct Style {
    pub bold: bool,
    pub italic: bool,
    pub strikethrough: bool,
    pub code: bool,
}

/// The style of text that carries no markup.
pub open spec fn plain_style() -> Style {
    Style { bold: false, italic: false, strikethrough: false, code: false }
}

impl Style {
    /// The style of text that carries no markup.
    pub fn plain() -> (style: Style)
        ensures
            style == plain_style(),
    {
        Style { bold: false, italic: false, strikethrough: false, code: false }
    }
}

/// A run of text in one style, and the address it links to, if any.
#[derive(Clone, Debug)]
pub struct Span {
    pub text: String,
    pub style: Style,
    pub link: Option<String>,
}

/// What a [`Span`] holds.
pub struct SpanView {
    pub text: Seq<char>,
    pub style: Style,
    pub link: Option<Seq<char>>,
}

impl DeepView for Span {
    type V = SpanView;

    open spec fn deep_view(&self) -> SpanView {
        SpanView { text: self.text@, style: self.style, link: self.link.deep_view() }
    }
}

/// One paragraph, heading or preformatted stretch of a reply.
///
/// A `tight` block packs against a neighbour that is tight too, which is how the items of a list
/// written without blank lines stay together.
#[derive(Clone, Debug)]
pub enum Block {
    Text { spans: Vec<Span>, quoted: bool, tight: bool },
    Heading { level: u8, spans: Vec<Span>, quoted: bool },
    Pre { language: Option<String>, text: String },
}

/// What a [`Block`] holds.
pub enum BlockView {
    Text { spans: Seq<SpanView>, quoted: bool, tight: bool },
    Heading { level: u8, spans: Seq<SpanView>, quoted: bool },
    Pre { language: Option<Seq<char>>, text: Seq<char> },
}

impl DeepView for Block {
    type V = BlockView;

    open spec fn deep_view(&self) -> BlockView {
        match self {
            Block::Text { spans, quoted, tight } => BlockView::Text {
                spans: spans.deep_view(),
                quoted: *quoted,
                tight: *tight,
            },
            Block::Heading { level, spans, quoted } => BlockView::Heading {
                level: *level,
                spans: spans.deep_view(),
                quoted: *quoted,
            },
            Block::Pre { language, text } => BlockView::Pre {
                language: language.deep_view(),
                text: text@,
            },
        }
    }
}

/// Whether a block packs against a tight neighbour.
pub open spec fn tight(block: BlockView) -> bool {
    block matches BlockView::Text { tight: true, .. }
}

impl Block {
    /// Whether this block packs against a tight neighbour.
    pub fn is_tight(&self) -> (found: bool)
        ensures
            found == tight(self.deep_view()),
    {
        match self {
            Block::Text { tight, .. } => *tight,
            _ => false,
        }
    }

    /// A copy of this block.
    pub fn copy(&self) -> (copy: Block)
        ensures
            copy.deep_view() == self.deep_view(),
    {
        match self {
            Block::Text { spans, quoted, tight } => Block::Text {
                spans: copy_spans(spans),
                quoted: *quoted,
                tight: *tight,
            },
            Block::Heading { level, spans, quoted } => Block::Heading {
                level: *level,
                spans: copy_spans(spans),
                quoted: *quoted,
            },
            Block::Pre { language, text } => Block::Pre {
                language: text::copied(language),
                text: text.clone(),
            },
        }
    }
}

impl Span {
    /// A copy of this span.
    pub fn copy(&self) -> (copy: Span)
        ensures
            copy.deep_view() == self.deep_view(),
    {
        Span { text: self.text.clone(), style: self.style, link: text::copied(&self.link) }
    }
}

/// Appends a span to a list.
pub fn push_span(spans: &mut Vec<Span>, span: Span)
    ensures
        final(spans).deep_view() == old(spans).deep_view().push(span.deep_view()),
{
    let ghost before = spans.deep_view();
    let ghost items = spans@;
    spans.push(span);
    assert forall|i: int| 0 <= i < spans@.len() implies spans.deep_view()[i] == before.push(
        span.deep_view(),
    )[i] by {
        if i < items.len() {
            assert(spans@[i] == items[i]);
            assert(before[i] == items[i].deep_view());
        }
    }
    assert(spans.deep_view() =~= before.push(span.deep_view()));
}

/// A copy of a list of spans.
pub fn copy_spans(spans: &Vec<Span>) -> (copy: Vec<Span>)
    ensures
        copy.deep_view() == spans.deep_view(),
{
    let mut copy: Vec<Span> = Vec::new();
    let mut i: usize = 0;
    while i < spans.len()
        invariant
            i <= spans.len(),
            copy.deep_view() == spans.deep_view().take(i as int),
        decreases spans.len() - i,
    {
        push_span(&mut copy, spans[i].copy());
        i += 1;
    }
    copy
}

/// Appends a block to a list.
pub fn push_block(blocks: &mut Vec<Block>, block: Block)
    ensures
        final(blocks).deep_view() == old(blocks).deep_view().push(block.deep_view()),
{
    let ghost before = blocks.deep_view();
    let ghost items = blocks@;
    blocks.push(block);
    assert forall|i: int| 0 <= i < blocks@.len() implies blocks.deep_view()[i] == before.push(
        block.deep_view(),
    )[i] by {
        if i < items.len() {
            assert(blocks@[i] == items[i]);
            assert(before[i] == items[i].deep_view());
        }
    }
    assert(blocks.deep_view() =~= before.push(block.deep_view()));
}

/// What stands between two neighbouring blocks: a line break where both are tight, a blank line
/// otherwise.
pub open spec fn separator(previous: BlockView, block: BlockView) -> Seq<char> {
    if tight(previous) && tight(block) {
        "\n"@
    } else {
        "\n\n"@
    }
}

/// What stands between two neighbouring blocks.
///
/// A list packs tightly against itself, not against whatever sits on either side of it, so both
/// sides have to be tight.
pub fn block_separator(previous: &Block, block: &Block) -> (between: &'static str)
    ensures
        between@ == separator(previous.deep_view(), block.deep_view()),
{
    if previous.is_tight() && block.is_tight() {
        "\n"
    } else {
        "\n\n"
    }
}

/// Renders Markdown into one or more messages, each within `limit` as the dialect counts it.
pub fn into_messages<D: Dialect>(markdown: &str, limit: usize) -> (messages: Vec<String>)
    ensures
        messages.deep_view() == split::messages_of::<D>(blocks::blocks_of(markdown@), limit),
        forall|i: int| 0 <= i < messages@.len() ==> (#[trigger] messages@[i])@.len() > 0,
        messages@.len() == 0 <==> split::ink(blocks::blocks_of(markdown@)).len() == 0,
        limit >= D::least() ==> forall|i: int|
            0 <= i < messages@.len() ==> D::length((#[trigger] messages@[i])@) <= limit,
{
    compose::<D>(parse(markdown), limit)
}

} // verus!
