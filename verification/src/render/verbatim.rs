//! A reply sent exactly as it was written.

use vstd::prelude::*;

use crate::render::split::{self, compose, Cell, Dialect};
use crate::render::{push_block, push_span, Block, BlockView, Span, SpanView, Style};
use crate::text;

verus! {

/// The characters of cells, without their styles.
pub open spec fn characters(cells: Seq<Cell>) -> Seq<char> {
    Seq::new(cells.len(), |i: int| cells[i].0)
}

/// The characters of a run of blocks, one after another.
pub open spec fn verbatim(blocks: Seq<BlockView>) -> Seq<char>
    decreases blocks.len(),
{
    if blocks.len() == 0 {
        Seq::empty()
    } else {
        verbatim(blocks.drop_last()) + characters(split::cells(blocks.last()))
    }
}

/// How many UTF-16 code units a text takes up.
pub open spec fn utf16_units(text: Seq<char>) -> nat
    decreases text.len(),
{
    if text.len() == 0 {
        0
    } else {
        utf16_units(text.drop_last()) + crate::channel::telegram::render::units(text.last())
    }
}

/// How many UTF-16 code units a text takes up.
fn count_units(text: &str) -> (units: u128)
    ensures
        units == utf16_units(text@),
{
    let chars = text::chars_of(text);
    let mut units: u128 = 0;
    let mut i: usize = 0;
    assert(chars@.take(0) =~= Seq::empty());
    while i < chars.len()
        invariant
            i <= chars@.len(),
            units <= 2 * i,
            units == utf16_units(chars@.take(i as int)),
        decreases chars@.len() - i,
    {
        assert(chars@.take(i + 1).drop_last() =~= chars@.take(i as int));
        units = units + if chars[i] as u32 >= 0x10000 {
            2
        } else {
            1
        };
        i += 1;
    }
    assert(chars@.take(i as int) =~= chars@);
    units
}

/// Text as it stands, measured in UTF-16 code units.
pub struct Verbatim;

impl Dialect for Verbatim {
    open spec fn rendered(blocks: Seq<BlockView>) -> Seq<char> {
        verbatim(blocks)
    }

    open spec fn length(text: Seq<char>) -> nat {
        utf16_units(text)
    }

    fn render(blocks: &Vec<Block>) -> (message: String) {
        let ghost views = blocks.deep_view();
        let mut chars: Vec<char> = Vec::new();
        let mut i: usize = 0;
        assert(views.take(0) =~= Seq::empty());
        while i < blocks.len()
            invariant
                i <= blocks.len(),
                views == blocks.deep_view(),
                chars@ == verbatim(views.take(i as int)),
            decreases blocks.len() - i,
        {
            assert(views.take(i + 1).drop_last() =~= views.take(i as int));
            assert(views.take(i + 1).last() == blocks@[i as int].deep_view());
            let mut more = split::letters(&blocks[i]);
            assert(more@ =~= characters(split::cells(blocks@[i as int].deep_view())));
            chars.append(&mut more);
            i += 1;
        }
        assert(views.take(i as int) =~= views);
        text::string_of(&chars)
    }

    fn fits(message: &str, limit: usize) -> (within: bool) {
        count_units(message) <= limit as u128
    }

    proof fn shows(blocks: Seq<BlockView>) {
        if verbatim(blocks).len() == 0 {
            nothing_written_shows_nothing(blocks);
        }
    }

    open spec fn least() -> nat {
        2
    }

    open spec fn eased(block: BlockView, limit: usize) -> BlockView {
        block
    }

    open spec fn light(block: BlockView, limit: usize) -> bool {
        true
    }

    fn ease(block: Block, limit: usize) -> (eased: Block) {
        block
    }

    proof fn easing_lightens(block: BlockView, limit: usize) {
    }

    proof fn cutting_keeps_light(block: BlockView, at: int, limit: usize) {
    }

    proof fn a_light_character_fits(block: BlockView, limit: usize) {
        let shown = characters(split::cells(block));
        assert(verbatim(seq![block].drop_last()) =~= Seq::empty());
        assert(verbatim(seq![block]) =~= shown);
        if shown.len() > 0 {
            assert(utf16_units(shown.drop_last()) == 0);
        }
    }
}

proof fn nothing_written_shows_nothing(blocks: Seq<BlockView>)
    requires
        verbatim(blocks).len() == 0,
    ensures
        split::ink(blocks).len() == 0,
    decreases blocks.len(),
{
    if blocks.len() > 0 {
        nothing_written_shows_nothing(blocks.drop_last());
        assert(split::cells(blocks.last()).len() == 0);
    }
}

/// A text as one paragraph that carries no markup.
pub open spec fn paragraph(text: Seq<char>) -> BlockView {
    BlockView::Text {
        spans: seq![SpanView { text, style: crate::render::plain_style(), link: None }],
        quoted: false,
        tight: false,
    }
}

/// Splits a text, markup and all, into messages that each stay within `limit`.
///
/// Text that shows nothing makes no message.
pub fn plain(markdown: &str, limit: usize) -> (messages: Vec<String>)
    ensures
        messages.deep_view() == split::messages_of::<Verbatim>(seq![paragraph(markdown@)], limit),
        forall|i: int| 0 <= i < messages@.len() ==> (#[trigger] messages@[i])@.len() > 0,
        messages@.len() == 0 <==> split::ink(seq![paragraph(markdown@)]).len() == 0,
        limit >= 2 ==> forall|i: int|
            0 <= i < messages@.len() ==> utf16_units((#[trigger] messages@[i])@) <= limit,
{
    let mut spans: Vec<Span> = Vec::new();
    push_span(&mut spans, Span { text: markdown.to_owned(), style: Style::plain(), link: None });
    assert(spans.deep_view() =~= seq![
        SpanView { text: markdown@, style: crate::render::plain_style(), link: None },
    ]);
    let mut blocks: Vec<Block> = Vec::new();
    push_block(&mut blocks, Block::Text { spans, quoted: false, tight: false });
    assert(blocks.deep_view() =~= seq![paragraph(markdown@)]);
    compose::<Verbatim>(blocks, limit)
}

/// Whether every character of a text takes up one UTF-16 code unit.
pub open spec fn single_units(text: Seq<char>) -> bool {
    forall|i: int|
        0 <= i < text.len() ==> crate::channel::telegram::render::units(#[trigger] text[i]) == 1
}

proof fn single_units_add_up(text: Seq<char>)
    requires
        single_units(text),
    ensures
        utf16_units(text) == text.len(),
    decreases text.len(),
{
    if text.len() > 0 {
        assert forall|i: int| 0 <= i < text.drop_last().len() implies
            crate::channel::telegram::render::units(#[trigger] text.drop_last()[i]) == 1 by {
            assert(text.drop_last()[i] == text[i]);
        }
        single_units_add_up(text.drop_last());
    }
}

proof fn a_part_takes_up_its_characters(text: Seq<char>, part: BlockView, from: int)
    requires
        single_units(text),
        0 <= from,
        from + split::cells(part).len() <= text.len(),
        forall|i: int|
            0 <= i < split::cells(part).len() ==> (#[trigger] split::cells(part)[i]).0 == text[from
                + i],
    ensures
        utf16_units(verbatim(seq![part])) == split::cells(part).len(),
{
    let shown = characters(split::cells(part));
    assert(verbatim(seq![part].drop_last()) =~= Seq::empty());
    assert(verbatim(seq![part]) =~= shown);
    assert forall|i: int| 0 <= i < shown.len() implies crate::channel::telegram::render::units(
        #[trigger] shown[i],
    ) == 1 by {
        assert(shown[i] == text[from + i]);
    }
    single_units_add_up(shown);
}

proof fn a_paragraph_is_roomy(text: Seq<char>, limit: usize)
    requires
        single_units(text),
    ensures
        split::roomy::<Verbatim>(paragraph(text), limit as int, limit),
{
    let block = paragraph(text);
    let span = SpanView { text, style: crate::render::plain_style(), link: None };
    split::cells_of_one(span);
    let all = split::cells(block);
    assert(all == split::span_cells(span));
    assert forall|from: int, at: int|
        0 <= from && 0 <= at <= limit && from + at <= all.len() implies #[trigger] split::head_fits::<
        Verbatim,
    >(split::tail(block, from), at, limit) by {
        split::cells_of_tail(block, from);
        split::cells_of_head(split::tail(block, from), at);
        a_part_takes_up_its_characters(text, split::head(split::tail(block, from), at), from);
    }
    assert forall|from: int| 0 <= from <= all.len() && all.len() - from <= limit implies split::within::<
        Verbatim,
    >(seq![#[trigger] split::tail(block, from)], limit) by {
        split::cells_of_tail(block, from);
        a_part_takes_up_its_characters(text, split::tail(block, from), from);
    }
}

/// A long text is split into messages of a size: each but the last, which a cut leaves rather than
/// takes, has at least a quarter of what a message can carry.
pub proof fn no_message_is_a_scrap(text: Seq<char>, limit: usize)
    requires
        single_units(text),
    ensures
        ({
            let messages = split::messages_of::<Verbatim>(seq![paragraph(text)], limit);
            forall|i: int| 0 <= i < messages.len() - 1 ==> 4 * (#[trigger] messages[i]).len() >= limit
        }),
{
    let block = paragraph(text);
    let blocks = seq![block];
    let groups = split::groups_of::<Verbatim>(blocks, limit);
    let messages = split::messages_of::<Verbatim>(blocks, limit);
    if !(split::ink(blocks).len() > 0 && split::within::<Verbatim>(blocks, limit)) {
        let (done, rest) = split::pieces_of::<Verbatim>(block, limit);
        a_paragraph_is_roomy(text, limit);
        split::no_part_is_a_scrap::<Verbatim>(block, limit, limit as int);
        assert(blocks.skip(1) =~= Seq::empty());
        assert forall|i: int| 0 <= i < messages.len() - 1 implies 4 * (#[trigger] messages[i]).len()
            >= limit by {
            if split::visible(block) {
                let next = match rest {
                    Some(rest) => seq![rest],
                    None => Seq::empty(),
                };
                let held = split::packed::<Verbatim>(blocks.skip(1), next, limit);
                assert(held.len() <= 1);
                assert(groups =~= done + held);
                assert(groups[i] == done[i]);
                let part = done[i];
                assert(part =~= seq![part[0]]);
                assert(verbatim(part.drop_last()) =~= Seq::empty());
                assert(messages[i] =~= characters(split::cells(part[0])));
                assert(split::pieces_of::<Verbatim>(block, limit).0[i] == part);
            } else {
                assert(split::packed::<Verbatim>(blocks.skip(1), Seq::empty(), limit).len() == 0);
                assert(groups.len() == 0);
            }
        }
    }
}

} // verus!
