//! What a split keeps and what it drops, stated of the blocks and their parts.

use vstd::prelude::*;

use crate::render::split::{self, Dialect};
use crate::render::{BlockView, SpanView};
use crate::text;

verus! {

/// Both parts of a block that is cut are blocks of its kind: a quote stays one, a list stays close, a
/// heading keeps its level, and code keeps its language.
pub proof fn both_parts_are_of_its_kind(block: BlockView, at: int)
    ensures
        block matches BlockView::Text { quoted, tight, .. } ==> {
            &&& split::head(block, at) matches BlockView::Text { quoted: q, tight: t, .. } && q
                == quoted && t == tight
            &&& split::tail(block, at) matches BlockView::Text { quoted: q, tight: t, .. } && q
                == quoted && t == tight
        },
        block matches BlockView::Heading { level, quoted, .. } ==> {
            &&& split::head(block, at) matches BlockView::Heading { level: l, quoted: q, .. } && l
                == level && q == quoted
            &&& split::tail(block, at) matches BlockView::Heading { level: l, quoted: q, .. } && l
                == level && q == quoted
        },
        block matches BlockView::Pre { language, text } ==> {
            &&& split::head(block, at) == (BlockView::Pre { language, text: text.take(at) })
            &&& split::tail(block, at) == (BlockView::Pre { language, text: text.skip(at) })
        },
{
}

/// A cut takes no character away and changes none: the two parts together are the block, each
/// character in its style and with its link.
pub proof fn a_cut_takes_nothing_away(block: BlockView, at: int)
    requires
        0 <= at <= split::cells(block).len(),
    ensures
        split::cells(split::head(block, at)) + split::cells(split::tail(block, at)) == split::cells(
            block,
        ),
        split::cells(split::head(block, at)).len() == at,
{
    match block {
        BlockView::Text { spans, .. } => {
            cut_spans_are_whole(spans, at);
        },
        BlockView::Heading { spans, .. } => {
            cut_spans_are_whole(spans, at);
        },
        BlockView::Pre { text, .. } => {
            assert(split::cells(split::head(block, at)) + split::cells(split::tail(block, at))
                =~= split::cells(block));
        },
    }
}

proof fn joined_spans_join_their_cells(left: Seq<SpanView>, right: Seq<SpanView>)
    ensures
        split::spans_cells(left + right) == split::spans_cells(left) + split::spans_cells(right),
    decreases right.len(),
{
    if right.len() == 0 {
        assert(left + right =~= left);
        assert(split::spans_cells(left) + split::spans_cells(right) =~= split::spans_cells(left));
    } else {
        joined_spans_join_their_cells(left, right.drop_last());
        assert((left + right).drop_last() =~= left + right.drop_last());
        assert((left + right).last() == right.last());
        assert(split::spans_cells(left + right) =~= split::spans_cells(left) + split::spans_cells(
            right,
        ));
    }
}

proof fn one_span_has_its_cells(span: SpanView)
    ensures
        split::spans_cells(seq![span]) == split::span_cells(span),
{
    assert(seq![span].drop_last() =~= Seq::empty());
    assert(split::spans_cells(seq![span].drop_last()) =~= Seq::empty());
    assert(seq![span].last() == span);
    assert(split::spans_cells(seq![span]) =~= split::span_cells(span));
}

proof fn cut_spans_are_whole(spans: Seq<SpanView>, at: int)
    requires
        0 <= at <= split::spans_cells(spans).len(),
    ensures
        split::spans_cells(split::spans_head(spans, at)) + split::spans_cells(
            split::spans_tail(spans, at),
        ) == split::spans_cells(spans),
        split::spans_cells(split::spans_head(spans, at)).len() == at,
    decreases spans.len(),
{
    let head = split::spans_head(spans, at);
    let tail = split::spans_tail(spans, at);
    if spans.len() == 0 || at <= 0 {
        assert(split::spans_cells(head) =~= Seq::empty());
        assert(split::spans_cells(head) + split::spans_cells(tail) =~= split::spans_cells(spans));
    } else {
        let first = spans[0];
        let rest = spans.skip(1);
        assert(spans =~= seq![first] + rest);
        joined_spans_join_their_cells(seq![first], rest);
        one_span_has_its_cells(first);
        if first.text.len() <= at {
            cut_spans_are_whole(rest, at - first.text.len());
            joined_spans_join_their_cells(
                seq![first],
                split::spans_head(rest, at - first.text.len()),
            );
            assert(split::spans_cells(head) + split::spans_cells(tail) =~= split::spans_cells(
                spans,
            ));
        } else {
            let left = SpanView { text: first.text.take(at), ..first };
            let right = SpanView { text: first.text.skip(at), ..first };
            one_span_has_its_cells(left);
            one_span_has_its_cells(right);
            joined_spans_join_their_cells(seq![right], rest);
            assert(split::span_cells(left) + split::span_cells(right) =~= split::span_cells(first));
            assert(split::spans_cells(head) + split::spans_cells(tail) =~= split::spans_cells(
                spans,
            ));
        }
    }
}

/// Between two parts of prose only blanks are dropped, all of those that stand there. Between two parts
/// of code one end of a line is dropped and nothing else, so that no line loses its indentation.
pub proof fn only_blanks_are_dropped_between_parts(block: BlockView, at: int)
    requires
        0 <= at <= split::cells(block).len(),
    ensures
        ({
            let next = split::resumed(block, at);
            let cells = split::cells(block);
            &&& at <= next <= cells.len()
            &&& forall|i: int| at <= i < next ==> text::white((#[trigger] cells[i]).0)
            &&& !(block is Pre) && next < cells.len() ==> !text::white(cells[next].0)
            &&& block is Pre && at < cells.len() && cells[at].0 == '\n' ==> next == at + 1
            &&& block is Pre && !(at < cells.len() && cells[at].0 == '\n') ==> next == at
        }),
{
    if !(block is Pre) {
        blanks_are_passed(split::cells(block), at);
    }
}

proof fn blanks_are_passed(cells: Seq<split::Cell>, at: int)
    requires
        0 <= at <= cells.len(),
    ensures
        at <= split::past_white(cells, at) <= cells.len(),
        forall|i: int|
            at <= i < split::past_white(cells, at) ==> text::white((#[trigger] cells[i]).0),
        split::past_white(cells, at) < cells.len() ==> !text::white(
            cells[split::past_white(cells, at)].0,
        ),
    decreases cells.len() - at,
{
    if at < cells.len() && text::white(cells[at].0) {
        blanks_are_passed(cells, at + 1);
    }
}

/// Prose may be broken at a blank and code only at the end of a line.
pub proof fn code_is_broken_at_the_ends_of_lines(block: BlockView, at: int)
    requires
        0 <= at < split::cells(block).len(),
    ensures
        block is Pre ==> (split::breakable(block, at) <==> split::cells(block)[at].0 == '\n'),
        !(block is Pre) ==> (split::breakable(block, at) <==> text::white(split::cells(block)[at].0)),
{
}

/// Blocks stay together as long as they fit: where every run of the first blocks fits one message, and
/// each of them does, they are the start of the first message.
pub proof fn blocks_stay_together_while_they_fit<D: Dialect>(
    blocks: Seq<BlockView>,
    count: int,
    limit: usize,
)
    requires
        0 < count <= blocks.len(),
        forall|i: int|
            0 <= i < count ==> split::visible(#[trigger] blocks[i]) && split::within::<D>(
                seq![blocks[i]],
                limit,
            ),
        forall|k: int| 0 < k <= count ==> split::within::<D>(#[trigger] blocks.take(k), limit),
    ensures
        ({
            let groups = split::groups_of::<D>(blocks, limit);
            groups.len() > 0 && groups[0].len() >= count && groups[0].take(count) == blocks.take(
                count,
            )
        }),
{
    if split::ink(blocks).len() > 0 && split::within::<D>(blocks, limit) {
    } else {
        packing_goes_on_while_it_fits::<D>(blocks, 0, count, limit);
        assert(blocks.take(0) =~= Seq::empty());
        assert(blocks.skip(0) =~= blocks);
    }
}

proof fn packing_goes_on_while_it_fits<D: Dialect>(
    blocks: Seq<BlockView>,
    done: int,
    count: int,
    limit: usize,
)
    requires
        0 <= done <= count <= blocks.len(),
        0 < count,
        forall|i: int|
            0 <= i < count ==> split::visible(#[trigger] blocks[i]) && split::within::<D>(
                seq![blocks[i]],
                limit,
            ),
        forall|k: int| 0 < k <= count ==> split::within::<D>(#[trigger] blocks.take(k), limit),
    ensures
        ({
            let groups = split::packed::<D>(blocks.skip(done), blocks.take(done), limit);
            groups.len() > 0 && groups[0].len() >= count && groups[0].take(count) == blocks.take(
                count,
            )
        }),
    decreases count - done,
{
    if done < count {
        let rest = blocks.skip(done);
        assert(rest[0] == blocks[done]);
        assert(rest.skip(1) =~= blocks.skip(done + 1));
        assert(blocks.take(done).push(rest[0]) =~= blocks.take(done + 1));
        packing_goes_on_while_it_fits::<D>(blocks, done + 1, count, limit);
    } else {
        what_is_held_comes_first::<D>(blocks.skip(done), blocks.take(done), limit);
        let groups = split::packed::<D>(blocks.skip(done), blocks.take(done), limit);
        assert(groups[0].take(count) =~= blocks.take(count));
    }
}

proof fn what_is_held_comes_first<D: Dialect>(
    blocks: Seq<BlockView>,
    current: Seq<BlockView>,
    limit: usize,
)
    requires
        current.len() > 0,
    ensures
        ({
            let groups = split::packed::<D>(blocks, current, limit);
            groups.len() > 0 && groups[0].len() >= current.len() && groups[0].take(
                current.len() as int,
            ) == current
        }),
    decreases blocks.len(),
{
    let groups = split::packed::<D>(blocks, current, limit);
    if blocks.len() == 0 {
        assert(groups[0].take(current.len() as int) =~= current);
    } else if !split::visible(blocks[0]) {
        what_is_held_comes_first::<D>(blocks.skip(1), current, limit);
    } else if split::joins::<D>(current, blocks[0], limit) {
        let more = current.push(blocks[0]);
        what_is_held_comes_first::<D>(blocks.skip(1), more, limit);
        assert(groups[0].take(current.len() as int) =~= groups[0].take(more.len() as int).take(
            current.len() as int,
        ));
        assert(more.take(current.len() as int) =~= current);
    } else {
        assert(groups[0] == current);
        assert(groups[0].take(current.len() as int) =~= current);
    }
}

/// A block that shows nothing makes no difference to the messages.
pub proof fn what_shows_nothing_is_passed_over<D: Dialect>(
    block: BlockView,
    blocks: Seq<BlockView>,
    current: Seq<BlockView>,
    limit: usize,
)
    requires
        !split::visible(block),
    ensures
        split::packed::<D>(seq![block] + blocks, current, limit) == split::packed::<D>(
            blocks,
            current,
            limit,
        ),
{
    assert((seq![block] + blocks).skip(1) =~= blocks);
    assert((seq![block] + blocks)[0] == block);
}

/// A message is written from each group, in order.
pub proof fn each_group_is_a_message<D: Dialect>(blocks: Seq<BlockView>, limit: usize, i: int)
    ensures
        split::messages_of::<D>(blocks, limit).len() == split::groups_of::<D>(blocks, limit).len(),
        0 <= i < split::groups_of::<D>(blocks, limit).len() ==> split::messages_of::<D>(blocks, limit)[i]
            == D::rendered(split::groups_of::<D>(blocks, limit)[i]),
{
}

/// A block shows something exactly where one of its characters is no blank.
pub proof fn a_block_shows_what_is_no_blank(block: BlockView)
    ensures
        split::visible(block) <==> exists|i: int|
            0 <= i < split::cells(block).len() && !text::white((#[trigger] split::cells(block)[i]).0),
{
    assert(seq![block].drop_last() =~= Seq::empty());
    assert(split::ink(seq![block].drop_last()) =~= Seq::empty());
    assert(seq![block].last() == block);
    assert(split::ink(seq![block]) =~= split::inked(split::cells(block), split::home(block)));
    only_blanks_have_no_ink(split::cells(block), split::home(block));
}

proof fn only_blanks_have_no_ink(cells: Seq<split::Cell>, home: split::Home)
    ensures
        split::inked(cells, home).len() > 0 <==> exists|i: int|
            0 <= i < cells.len() && !text::white((#[trigger] cells[i]).0),
    decreases cells.len(),
{
    if cells.len() > 0 {
        let before = cells.drop_last();
        only_blanks_have_no_ink(before, home);
        if exists|i: int| 0 <= i < before.len() && !text::white((#[trigger] before[i]).0) {
            let i = choose|i: int| 0 <= i < before.len() && !text::white((#[trigger] before[i]).0);
            assert(!text::white(cells[i].0));
        }
        if !text::white(cells.last().0) {
            assert(!text::white(cells[cells.len() - 1].0));
        } else if exists|i: int| 0 <= i < cells.len() && !text::white((#[trigger] cells[i]).0) {
            let i = choose|i: int| 0 <= i < cells.len() && !text::white((#[trigger] cells[i]).0);
            assert(before[i] == cells[i]);
        }
    }
}

/// The characters of a block are those of its spans, one after another, each with the style and the
/// link of its span; code has none.
pub proof fn the_characters_of_a_block_are_its_text(
    spans: Seq<SpanView>,
    span: SpanView,
    code: Seq<char>,
    language: Option<Seq<char>>,
    i: int,
)
    ensures
        split::spans_cells(spans.push(span)).len() == split::spans_cells(spans).len()
            + span.text.len(),
        split::spans_cells(Seq::empty()).len() == 0,
        0 <= i < span.text.len() ==> split::spans_cells(spans.push(span))[split::spans_cells(
            spans,
        ).len() + i] == (span.text[i], span.style, span.link),
        0 <= i < split::spans_cells(spans).len() ==> split::spans_cells(spans.push(span))[i]
            == split::spans_cells(spans)[i],
        split::cells(BlockView::Pre { language, text: code }).len() == code.len(),
        0 <= i < code.len() ==> split::cells(BlockView::Pre { language, text: code })[i].0 == code[i],
{
    assert(spans.push(span).drop_last() =~= spans);
}

} // verus!
