//! What blocks are, stated of their own fields.

use vstd::prelude::*;

use crate::render::verbatim::{self, Verbatim};
use crate::render::{self, split, Block, BlockView, Span};
use crate::text;

verus! {

/// What is said of a span is said of its own text, its style and its link.
pub proof fn a_span_is_viewed_as_it_is(span: Span)
    ensures
        span.deep_view().text == span.text@,
        span.deep_view().style == span.style,
        span.deep_view().link is Some <==> span.link is Some,
        span.link matches Some(link) ==> span.deep_view().link == Some(link@),
{
}

/// What is said of a block is said of the same kind of block and its own fields.
pub proof fn a_block_is_viewed_as_it_is(block: Block)
    ensures
        block matches Block::Text { spans, quoted, tight } ==> block.deep_view() == (BlockView::Text {
            spans: spans.deep_view(),
            quoted,
            tight,
        }),
        block matches Block::Heading { level, spans, quoted } ==> block.deep_view() == (
        BlockView::Heading { level, spans: spans.deep_view(), quoted }),
        block matches Block::Pre { language, text } ==> (block.deep_view() matches BlockView::Pre {
            language: l,
            text: t,
        } && l == language.deep_view() && t == text@),
{
}

/// Plain text is in no style at all.
pub proof fn plain_text_is_in_no_style()
    ensures
        !render::plain_style().bold,
        !render::plain_style().italic,
        !render::plain_style().strikethrough,
        !render::plain_style().code,
{
}

/// Two blocks stand close exactly where both are items of a list.
pub proof fn items_stand_close(previous: BlockView, block: BlockView)
    ensures
        ({
            let close = (previous matches BlockView::Text { tight: true, .. }) && (
            block matches BlockView::Text { tight: true, .. });
            &&& close ==> render::separator(previous, block) == seq!['\n']
            &&& !close ==> render::separator(previous, block) == seq!['\n', '\n']
        }),
{
    reveal_strlit("\n");
    reveal_strlit("\n\n");
    assert("\n"@ =~= seq!['\n']);
    assert("\n\n"@ =~= seq!['\n', '\n']);
}

/// Text that is sent as it is written is one message, and that very text, wherever it fits and is not
/// blank.
pub proof fn short_text_is_sent_as_it_is(said: Seq<char>, limit: usize)
    requires
        verbatim::utf16_units(said) <= limit,
        !text::blank(said),
    ensures
        split::messages_of::<Verbatim>(seq![verbatim::paragraph(said)], limit) == seq![said],
{
    let block = verbatim::paragraph(said);
    let blocks = seq![block];
    let span = block->Text_spans[0];
    assert(block->Text_spans =~= Seq::empty().push(span));
    split::laws::the_characters_of_a_block_are_its_text(Seq::empty(), span, said, None, 0);
    let cells = split::cells(block);
    assert forall|i: int| 0 <= i < said.len() implies cells[i].0 == said[i] by {
        split::laws::the_characters_of_a_block_are_its_text(Seq::empty(), span, said, None, i);
    }
    assert(cells.len() == said.len());
    assert(verbatim::characters(cells) =~= said);
    assert(blocks.drop_last() =~= Seq::empty());
    assert(verbatim::verbatim(blocks.drop_last()) =~= Seq::empty());
    assert(blocks.last() == block);
    assert(verbatim::verbatim(blocks) =~= said);
    split::laws::a_block_shows_what_is_no_blank(block);
    let i = choose|i: int| 0 <= i < said.len() && !text::white(#[trigger] said[i]);
    assert(!text::white(cells[i].0));
    assert(split::visible(block));
    assert(split::groups_of::<Verbatim>(blocks, limit) == seq![blocks]);
    assert(split::messages_of::<Verbatim>(blocks, limit) =~= seq![said]);
}

/// The length of a text counts each of its characters, twice those outside the basic plane.
pub proof fn a_text_counts_its_characters(left: Seq<char>, c: char)
    ensures
        verbatim::utf16_units(Seq::empty()) == 0,
        (c as int) < 65_536 ==> verbatim::utf16_units(left.push(c)) == verbatim::utf16_units(left) + 1,
        c as int >= 65_536 ==> verbatim::utf16_units(left.push(c)) == verbatim::utf16_units(left) + 2,
{
    assert(left.push(c).drop_last() =~= left);
}

} // verus!
