//! Splitting a run of blocks into messages that each stay within a limit.

use vstd::prelude::*;

use crate::render::{push_block, push_span, Block, BlockView, Span, SpanView, Style};
use crate::text;

pub mod laws;

verus! {

/// One character of a block, with the style and link it is written in.
pub type Cell = (char, Style, Option<Seq<char>>);

/// What surrounds the characters of a block.
pub enum Home {
    Text { quoted: bool },
    Heading { level: u8, quoted: bool },
    Pre { language: Option<Seq<char>> },
}

/// The characters of a span.
pub open spec fn span_cells(span: SpanView) -> Seq<Cell> {
    Seq::new(span.text.len(), |i: int| (span.text[i], span.style, span.link))
}

/// The characters of a run of spans, in order.
pub open spec fn spans_cells(spans: Seq<SpanView>) -> Seq<Cell>
    decreases spans.len(),
{
    if spans.len() == 0 {
        Seq::empty()
    } else {
        spans_cells(spans.drop_last()) + span_cells(spans.last())
    }
}

/// The characters of a block, in order.
pub open spec fn cells(block: BlockView) -> Seq<Cell> {
    match block {
        BlockView::Text { spans, .. } => spans_cells(spans),
        BlockView::Heading { spans, .. } => spans_cells(spans),
        BlockView::Pre { text, .. } => Seq::new(
            text.len(),
            |i: int| (text[i], crate::render::plain_style(), None::<Seq<char>>),
        ),
    }
}

/// What surrounds the characters of `block`.
pub open spec fn home(block: BlockView) -> Home {
    match block {
        BlockView::Text { quoted, .. } => Home::Text { quoted },
        BlockView::Heading { level, quoted, .. } => Home::Heading { level, quoted },
        BlockView::Pre { language, .. } => Home::Pre { language },
    }
}

/// The cells that are not white space, each with what surrounds it.
pub open spec fn inked(cells: Seq<Cell>, home: Home) -> Seq<(Cell, Home)>
    decreases cells.len(),
{
    if cells.len() == 0 {
        Seq::empty()
    } else if text::white(cells.last().0) {
        inked(cells.drop_last(), home)
    } else {
        inked(cells.drop_last(), home).push((cells.last(), home))
    }
}

/// Everything visible in a run of blocks: each character that is not white space, with its style,
/// its link and what surrounds it.
pub open spec fn ink(blocks: Seq<BlockView>) -> Seq<(Cell, Home)>
    decreases blocks.len(),
{
    if blocks.len() == 0 {
        Seq::empty()
    } else {
        ink(blocks.drop_last()) + inked(cells(blocks.last()), home(blocks.last()))
    }
}

/// Everything visible in a run of messages.
pub open spec fn groups_ink(groups: Seq<Seq<BlockView>>) -> Seq<(Cell, Home)>
    decreases groups.len(),
{
    if groups.len() == 0 {
        Seq::empty()
    } else {
        groups_ink(groups.drop_last()) + ink(groups.last())
    }
}

/// Whether a block can be cut no further.
pub open spec fn indivisible(block: BlockView) -> bool {
    cells(block).len() <= 1
}

/// How a platform writes a run of blocks and how long it counts the result as.
pub trait Dialect {
    /// The message that `blocks` are written as.
    spec fn rendered(blocks: Seq<BlockView>) -> Seq<char>;

    /// How much of a message's budget `text` takes up.
    spec fn length(text: Seq<char>) -> nat;

    /// Writes `blocks` as one message.
    fn render(blocks: &Vec<Block>) -> (message: String)
        ensures
            message@ == Self::rendered(blocks.deep_view()),
    ;

    /// Whether `message` stays within `limit`.
    fn fits(message: &str, limit: usize) -> (within: bool)
        ensures
            within == (Self::length(message@) <= limit),
    ;

    /// What is visible in the blocks is not lost in the writing.
    proof fn shows(blocks: Seq<BlockView>)
        requires
            ink(blocks).len() > 0,
        ensures
            Self::rendered(blocks).len() > 0,
    ;

    /// The smallest limit that every message can be kept within.
    spec fn least() -> nat;

    /// A block that is too long for one message, freed of what no message could carry beside a
    /// single character.
    spec fn eased(block: BlockView, limit: usize) -> BlockView;

    /// Whether a message can carry every single character of a block with what belongs to it.
    spec fn light(block: BlockView, limit: usize) -> bool;

    /// Frees a block that is too long of what no message could carry beside a single character.
    fn ease(block: Block, limit: usize) -> (eased: Block)
        ensures
            eased.deep_view() == Self::eased(block.deep_view(), limit),
    ;

    /// Easing a block hides nothing and makes it light.
    proof fn easing_lightens(block: BlockView, limit: usize)
        ensures
            Self::light(Self::eased(block, limit), limit),
            visible(block) ==> visible(Self::eased(block, limit)),
    ;

    /// The two parts of a light block are light.
    proof fn cutting_keeps_light(block: BlockView, at: int, limit: usize)
        requires
            Self::light(block, limit),
            0 <= at <= cells(block).len(),
        ensures
            Self::light(head(block, at), limit),
            Self::light(tail(block, at), limit),
    ;

    /// A single character of a light block makes a message within the limit.
    proof fn a_light_character_fits(block: BlockView, limit: usize)
        requires
            Self::light(block, limit),
            indivisible(block),
            visible(block),
            limit >= Self::least(),
        ensures
            Self::length(Self::rendered(seq![block])) <= limit,
    ;
}

/// Whether `blocks` make one message within `limit`.
pub open spec fn within<D: Dialect>(blocks: Seq<BlockView>, limit: usize) -> bool {
    D::length(D::rendered(blocks)) <= limit
}

/// Whether `group` may be sent as one message: it shows something, and it either stays within the
/// limit or is a single character that no cut can shorten.
pub open spec fn sendable<D: Dialect>(group: Seq<BlockView>, limit: usize) -> bool {
    &&& ink(group).len() > 0
    &&& within::<D>(group, limit) || (group.len() == 1 && indivisible(group[0]))
}

/// A block as it is sent: as it is where it makes a message by itself, and eased where it is too long.
pub open spec fn sent<D: Dialect>(block: BlockView, limit: usize) -> BlockView {
    if !visible(block) || within::<D>(seq![block], limit) {
        block
    } else {
        D::eased(block, limit)
    }
}

/// Blocks as they are sent: as they are where they make one message together.
pub open spec fn all_sent<D: Dialect>(blocks: Seq<BlockView>, limit: usize) -> Seq<BlockView> {
    if ink(blocks).len() > 0 && within::<D>(blocks, limit) {
        blocks
    } else {
        blocks.map_values(|block: BlockView| sent::<D>(block, limit))
    }
}

/// What a split of `blocks` into `groups` promises.
///
/// Every group can be sent, and stays within every limit that the dialect can keep. What is visible
/// in the groups is what is visible in the blocks as they are sent: nothing is lost, invented, moved
/// or restyled. Blocks that fit one message are left as they are.
pub open spec fn split_of<D: Dialect>(
    blocks: Seq<BlockView>,
    groups: Seq<Seq<BlockView>>,
    limit: usize,
) -> bool {
    &&& forall|i: int| 0 <= i < groups.len() ==> sendable::<D>(#[trigger] groups[i], limit)
    &&& limit >= D::least() ==> forall|i: int|
        0 <= i < groups.len() ==> within::<D>(#[trigger] groups[i], limit)
    &&& groups_ink(groups) == ink(all_sent::<D>(blocks, limit))
    &&& ink(blocks).len() > 0 && within::<D>(blocks, limit) ==> groups == seq![blocks]
}

/// The first `at` characters of a run of spans.
pub open spec fn spans_head(spans: Seq<SpanView>, at: int) -> Seq<SpanView>
    decreases spans.len(),
{
    if spans.len() == 0 || at <= 0 {
        Seq::empty()
    } else {
        let first = spans[0];
        if first.text.len() <= at {
            seq![first] + spans_head(spans.skip(1), at - first.text.len())
        } else {
            seq![SpanView { text: first.text.take(at), ..first }]
        }
    }
}

/// What follows the first `at` characters of a run of spans.
pub open spec fn spans_tail(spans: Seq<SpanView>, at: int) -> Seq<SpanView>
    decreases spans.len(),
{
    if spans.len() == 0 || at <= 0 {
        spans
    } else {
        let first = spans[0];
        if first.text.len() <= at {
            spans_tail(spans.skip(1), at - first.text.len())
        } else {
            seq![SpanView { text: first.text.skip(at), ..first }] + spans.skip(1)
        }
    }
}

/// The first `at` characters of a block, as a block of the same kind.
pub open spec fn head(block: BlockView, at: int) -> BlockView {
    match block {
        BlockView::Text { spans, quoted, tight } => BlockView::Text {
            spans: spans_head(spans, at),
            quoted,
            tight,
        },
        BlockView::Heading { level, spans, quoted } => BlockView::Heading {
            level,
            spans: spans_head(spans, at),
            quoted,
        },
        BlockView::Pre { language, text } => BlockView::Pre { language, text: text.take(at) },
    }
}

/// What follows the first `at` characters of a block, as a block of the same kind.
pub open spec fn tail(block: BlockView, at: int) -> BlockView {
    match block {
        BlockView::Text { spans, quoted, tight } => BlockView::Text {
            spans: spans_tail(spans, at),
            quoted,
            tight,
        },
        BlockView::Heading { level, spans, quoted } => BlockView::Heading {
            level,
            spans: spans_tail(spans, at),
            quoted,
        },
        BlockView::Pre { language, text } => BlockView::Pre { language, text: text.skip(at) },
    }
}

/// Whether a block shows anything.
pub open spec fn visible(block: BlockView) -> bool {
    ink(seq![block]).len() > 0
}

/// Whether the first `at` characters of a block make a message within `limit`.
pub open spec fn head_fits<D: Dialect>(block: BlockView, at: int, limit: usize) -> bool {
    within::<D>(seq![head(block, at)], limit)
}

/// How many characters of a block go on a message, between `low` and `high`, by halving.
pub open spec fn longest<D: Dialect>(block: BlockView, low: int, high: int, limit: usize) -> int
    decreases high - low,
{
    if low >= high {
        low
    } else {
        let middle = high - (high - low) / 2;
        if head_fits::<D>(block, middle, limit) {
            longest::<D>(block, middle, high, limit)
        } else {
            longest::<D>(block, low, middle - 1, limit)
        }
    }
}

/// Whether a block may be broken before its character `at`: at the end of a line of preformatted
/// text, and at the end of a word of any other.
pub open spec fn breakable(block: BlockView, at: int) -> bool {
    if block is Pre {
        cells(block)[at].0 == '\n'
    } else {
        text::white(cells(block)[at].0)
    }
}

/// The last place from `at` down to `floor` where a block may be broken and what precedes it fits,
/// or `most` where there is none.
pub open spec fn broken_at<D: Dialect>(
    block: BlockView,
    at: int,
    floor: int,
    most: int,
    limit: usize,
) -> int
    decreases at,
{
    if at <= floor || at <= 1 {
        most
    } else if breakable(block, at) && head_fits::<D>(block, at, limit) {
        at
    } else {
        broken_at::<D>(block, at - 1, floor, most, limit)
    }
}

/// How many characters of a block that is too long its first message has room for. That is never
/// more than half of them, so what follows is never a scrap behind a wall of text.
pub open spec fn room<D: Dialect>(block: BlockView, limit: usize) -> int {
    longest::<D>(block, 1, cells(block).len() as int / 2, limit)
}

/// How many characters of a block that is too long go on its first message: as many as there is room
/// for, moved back to the end of a line or a word where there is one in the second half of them.
pub open spec fn piece_end<D: Dialect>(block: BlockView, limit: usize) -> int {
    let most = room::<D>(block, limit);
    broken_at::<D>(block, most, most / 2, most, limit)
}

/// The first place from `at` on that is not white space.
pub open spec fn past_white(cells: Seq<Cell>, at: int) -> int
    decreases cells.len() - at,
{
    if 0 <= at < cells.len() && text::white(cells[at].0) {
        past_white(cells, at + 1)
    } else {
        at
    }
}

/// Where a block that was cut after `at` characters goes on: past the line break of preformatted
/// text, and past the white space of any other.
pub open spec fn resumed(block: BlockView, at: int) -> int {
    if !(block is Pre) {
        past_white(cells(block), at)
    } else if 0 <= at < cells(block).len() && cells(block)[at].0 == '\n' {
        at + 1
    } else {
        at
    }
}

/// The messages that the pieces of a block make, all but the last, which is left for what follows to
/// join. Nothing is left where the rest shows nothing.
pub open spec fn pieces_of<D: Dialect>(block: BlockView, limit: usize) -> (
    Seq<Seq<BlockView>>,
    Option<BlockView>,
)
    decreases cells(block).len(),
    via pieces_get_shorter::<D>
{
    if !visible(block) {
        (Seq::empty(), None)
    } else if cells(block).len() <= 1 || within::<D>(seq![block], limit) {
        (Seq::empty(), Some(block))
    } else {
        let at = piece_end::<D>(block, limit);
        let (more, rest) = pieces_of::<D>(tail(block, resumed(block, at)), limit);
        if visible(head(block, at)) {
            (seq![seq![head(block, at)]] + more, rest)
        } else {
            (more, rest)
        }
    }
}

#[via_fn]
proof fn pieces_get_shorter<D: Dialect>(block: BlockView, limit: usize) {
    if cells(block).len() > 1 {
        let at = piece_end::<D>(block, limit);
        a_piece_is_part::<D>(block, limit);
        resuming_goes_forward(block, at);
        cells_of_tail(block, resumed(block, at));
    }
}

/// Whether a block joins the blocks of a message: it is not too long by itself, nor with them.
pub open spec fn joins<D: Dialect>(current: Seq<BlockView>, block: BlockView, limit: usize) -> bool {
    within::<D>(seq![block], limit) && within::<D>(current.push(block), limit)
}

/// The messages that blocks make after those of `current`: each block joins the message before it
/// where it fits, and starts a new one where it does not.
pub open spec fn packed<D: Dialect>(
    blocks: Seq<BlockView>,
    current: Seq<BlockView>,
    limit: usize,
) -> Seq<Seq<BlockView>>
    decreases blocks.len(),
{
    let held = if current.len() > 0 {
        seq![current]
    } else {
        Seq::empty()
    };
    if blocks.len() == 0 {
        held
    } else if !visible(blocks[0]) {
        packed::<D>(blocks.skip(1), current, limit)
    } else if joins::<D>(current, blocks[0], limit) {
        packed::<D>(blocks.skip(1), current.push(blocks[0]), limit)
    } else {
        let (done, rest) = pieces_of::<D>(sent::<D>(blocks[0], limit), limit);
        let next = match rest {
            Some(rest) => seq![rest],
            None => Seq::empty(),
        };
        held + done + packed::<D>(blocks.skip(1), next, limit)
    }
}

/// The groups of blocks that each make one message: all of them together where that fits.
pub open spec fn groups_of<D: Dialect>(blocks: Seq<BlockView>, limit: usize) -> Seq<Seq<BlockView>> {
    if ink(blocks).len() > 0 && within::<D>(blocks, limit) {
        seq![blocks]
    } else {
        packed::<D>(blocks, Seq::empty(), limit)
    }
}

pub(crate) proof fn cells_of_join(a: Seq<SpanView>, b: Seq<SpanView>)
    ensures
        spans_cells(a + b) == spans_cells(a) + spans_cells(b),
    decreases b.len(),
{
    if b.len() == 0 {
        assert(a + b =~= a);
        assert(spans_cells(a) + spans_cells(b) =~= spans_cells(a));
    } else {
        assert((a + b).drop_last() =~= a + b.drop_last());
        cells_of_join(a, b.drop_last());
    }
}

pub(crate) proof fn cells_of_one(span: SpanView)
    ensures
        spans_cells(seq![span]) == span_cells(span),
{
    assert(seq![span].drop_last() =~= Seq::empty());
    assert(spans_cells(seq![span].drop_last()) =~= Seq::empty());
    assert(spans_cells(seq![span]) =~= span_cells(span));
}

proof fn cells_of_cut_spans(spans: Seq<SpanView>, at: int)
    requires
        0 <= at <= spans_cells(spans).len(),
    ensures
        spans_cells(spans_head(spans, at)) == spans_cells(spans).take(at),
        spans_cells(spans_tail(spans, at)) == spans_cells(spans).skip(at),
    decreases spans.len(),
{
    let all = spans_cells(spans);
    if spans.len() == 0 || at <= 0 {
        assert(spans_cells(Seq::<SpanView>::empty()) =~= all.take(at));
        assert(all.skip(at) =~= all);
    } else {
        let first = spans[0];
        let others = spans.skip(1);
        let n = first.text.len() as int;
        assert(spans =~= seq![first] + others);
        cells_of_join(seq![first], others);
        cells_of_one(first);
        assert(all == span_cells(first) + spans_cells(others));
        if n <= at {
            cells_of_cut_spans(others, at - n);
            cells_of_join(seq![first], spans_head(others, at - n));
            assert(all.take(at) =~= span_cells(first) + spans_cells(others).take(at - n));
            assert(all.skip(at) =~= spans_cells(others).skip(at - n));
        } else {
            let start = SpanView { text: first.text.take(at), ..first };
            let end = SpanView { text: first.text.skip(at), ..first };
            cells_of_one(start);
            cells_of_one(end);
            cells_of_join(seq![end], others);
            assert(span_cells(start) =~= all.take(at));
            assert(span_cells(end) + spans_cells(others) =~= all.skip(at));
        }
    }
}

pub(crate) proof fn cells_of_head(block: BlockView, at: int)
    requires
        0 <= at <= cells(block).len(),
    ensures
        cells(head(block, at)) == cells(block).take(at),
        home(head(block, at)) == home(block),
{
    match block {
        BlockView::Text { spans, .. } => cells_of_cut_spans(spans, at),
        BlockView::Heading { spans, .. } => cells_of_cut_spans(spans, at),
        BlockView::Pre { .. } => {
            assert(cells(head(block, at)) =~= cells(block).take(at));
        },
    }
}

pub(crate) proof fn cells_of_tail(block: BlockView, at: int)
    requires
        0 <= at <= cells(block).len(),
    ensures
        cells(tail(block, at)) == cells(block).skip(at),
        home(tail(block, at)) == home(block),
{
    match block {
        BlockView::Text { spans, .. } => cells_of_cut_spans(spans, at),
        BlockView::Heading { spans, .. } => cells_of_cut_spans(spans, at),
        BlockView::Pre { .. } => {
            assert(cells(tail(block, at)) =~= cells(block).skip(at));
        },
    }
}

proof fn halving_stays_between<D: Dialect>(block: BlockView, low: int, high: int, limit: usize)
    requires
        low <= high,
    ensures
        low <= longest::<D>(block, low, high, limit) <= high,
    decreases high - low,
{
    if low < high {
        let middle = high - (high - low) / 2;
        if head_fits::<D>(block, middle, limit) {
            halving_stays_between::<D>(block, middle, high, limit);
        } else {
            halving_stays_between::<D>(block, low, middle - 1, limit);
        }
    }
}

proof fn a_break_is_within<D: Dialect>(
    block: BlockView,
    at: int,
    floor: int,
    most: int,
    limit: usize,
)
    requires
        at <= most,
        1 <= most,
    ensures
        1 <= broken_at::<D>(block, at, floor, most, limit) <= most,
    decreases at,
{
    if at > floor && at > 1 {
        a_break_is_within::<D>(block, at - 1, floor, most, limit);
    }
}

proof fn a_piece_is_part<D: Dialect>(block: BlockView, limit: usize)
    requires
        cells(block).len() > 1,
    ensures
        1 <= piece_end::<D>(block, limit) < cells(block).len(),
        2 * piece_end::<D>(block, limit) <= cells(block).len(),
{
    let most = room::<D>(block, limit);
    halving_stays_between::<D>(block, 1, cells(block).len() as int / 2, limit);
    a_break_is_within::<D>(block, most, most / 2, most, limit);
}

proof fn white_is_passed(cells: Seq<Cell>, at: int)
    requires
        0 <= at <= cells.len(),
    ensures
        at <= past_white(cells, at) <= cells.len(),
    decreases cells.len() - at,
{
    if at < cells.len() && text::white(cells[at].0) {
        white_is_passed(cells, at + 1);
    }
}

proof fn resuming_goes_forward(block: BlockView, at: int)
    requires
        0 <= at <= cells(block).len(),
    ensures
        at <= resumed(block, at) <= cells(block).len(),
{
    white_is_passed(cells(block), at);
}

pub(crate) proof fn ink_is_in_the_letters(a: Seq<Cell>, b: Seq<Cell>, home: Home)
    requires
        a.len() == b.len(),
        forall|i: int| 0 <= i < a.len() ==> (#[trigger] a[i]).0 == b[i].0,
    ensures
        inked(a, home).len() == inked(b, home).len(),
    decreases a.len(),
{
    if a.len() > 0 {
        assert(a[a.len() - 1].0 == b[b.len() - 1].0);
        assert forall|i: int| 0 <= i < a.drop_last().len() implies (#[trigger] a.drop_last()[i]).0
            == b.drop_last()[i].0 by {
            assert(a[i].0 == b[i].0);
        }
        ink_is_in_the_letters(a.drop_last(), b.drop_last(), home);
    }
}

pub(crate) proof fn ink_of_parts(a: Seq<Cell>, b: Seq<Cell>, home: Home)
    ensures
        inked(a + b, home) == inked(a, home) + inked(b, home),
    decreases b.len(),
{
    if b.len() == 0 {
        assert(a + b == a);
    } else {
        assert((a + b).drop_last() == a + b.drop_last());
        ink_of_parts(a, b.drop_last(), home);
    }
}

proof fn white_has_no_ink(cells: Seq<Cell>, home: Home)
    requires
        forall|i: int| 0 <= i < cells.len() ==> text::white((#[trigger] cells[i]).0),
    ensures
        inked(cells, home).len() == 0,
    decreases cells.len(),
{
    if cells.len() > 0 {
        assert(text::white(cells[cells.len() - 1].0));
        assert forall|i: int| 0 <= i < cells.drop_last().len() implies text::white(
            (#[trigger] cells.drop_last()[i]).0,
        ) by {
            assert(cells.drop_last()[i] == cells[i]);
        }
        white_has_no_ink(cells.drop_last(), home);
    }
}

proof fn ink_of_push(blocks: Seq<BlockView>, block: BlockView)
    ensures
        ink(blocks.push(block)) == ink(blocks) + inked(cells(block), home(block)),
{
    assert(blocks.push(block).drop_last() == blocks);
}

pub(crate) proof fn ink_of_one(block: BlockView)
    ensures
        ink(seq![block]) == inked(cells(block), home(block)),
{
    assert(seq![block] == Seq::<BlockView>::empty().push(block));
    ink_of_push(Seq::empty(), block);
    assert(ink(Seq::<BlockView>::empty()) =~= Seq::empty());
}

proof fn groups_ink_of_push(groups: Seq<Seq<BlockView>>, group: Seq<BlockView>)
    ensures
        groups_ink(groups.push(group)) == groups_ink(groups) + ink(group),
{
    assert(groups.push(group).drop_last() == groups);
}

proof fn ink_of_join(a: Seq<BlockView>, b: Seq<BlockView>)
    ensures
        ink(a + b) == ink(a) + ink(b),
    decreases b.len(),
{
    if b.len() == 0 {
        assert(a + b =~= a);
        assert(ink(a) + ink(b) =~= ink(a));
    } else {
        assert((a + b).drop_last() =~= a + b.drop_last());
        ink_of_join(a, b.drop_last());
    }
}

proof fn groups_ink_of_join(a: Seq<Seq<BlockView>>, b: Seq<Seq<BlockView>>)
    ensures
        groups_ink(a + b) == groups_ink(a) + groups_ink(b),
    decreases b.len(),
{
    if b.len() == 0 {
        assert(a + b =~= a);
        assert(groups_ink(a) + groups_ink(b) =~= groups_ink(a));
    } else {
        assert((a + b).drop_last() =~= a + b.drop_last());
        groups_ink_of_join(a, b.drop_last());
    }
}

proof fn groups_ink_of_one(group: Seq<BlockView>)
    ensures
        groups_ink(seq![group]) == ink(group),
{
    assert(seq![group] =~= Seq::<Seq<BlockView>>::empty().push(group));
    groups_ink_of_push(Seq::empty(), group);
    assert(groups_ink(Seq::<Seq<BlockView>>::empty()) =~= Seq::empty());
}

proof fn halving_finds_a_fit<D: Dialect>(block: BlockView, low: int, high: int, limit: usize)
    ensures
        longest::<D>(block, low, high, limit) == low || head_fits::<D>(
            block,
            longest::<D>(block, low, high, limit),
            limit,
        ),
    decreases high - low,
{
    if low < high {
        let middle = high - (high - low) / 2;
        if head_fits::<D>(block, middle, limit) {
            halving_finds_a_fit::<D>(block, middle, high, limit);
        } else {
            halving_finds_a_fit::<D>(block, low, middle - 1, limit);
        }
    }
}

proof fn a_break_fits<D: Dialect>(block: BlockView, at: int, floor: int, most: int, limit: usize)
    ensures
        broken_at::<D>(block, at, floor, most, limit) == most || head_fits::<D>(
            block,
            broken_at::<D>(block, at, floor, most, limit),
            limit,
        ),
    decreases at,
{
    if at > floor && at > 1 {
        a_break_fits::<D>(block, at - 1, floor, most, limit);
    }
}

proof fn only_white_is_passed(cells: Seq<Cell>, at: int)
    requires
        0 <= at <= cells.len(),
    ensures
        forall|i: int| at <= i < past_white(cells, at) ==> text::white((#[trigger] cells[i]).0),
    decreases cells.len() - at,
{
    if at < cells.len() && text::white(cells[at].0) {
        only_white_is_passed(cells, at + 1);
    }
}

/// Cutting a block in two loses nothing that is visible.
proof fn ink_of_cut<D: Dialect>(block: BlockView, limit: usize)
    requires
        cells(block).len() > 1,
    ensures
        ({
            let at = piece_end::<D>(block, limit);
            ink(seq![block]) == ink(seq![head(block, at)]) + ink(
                seq![tail(block, resumed(block, at))],
            )
        }),
{
    let at = piece_end::<D>(block, limit);
    let end = resumed(block, at);
    let all = cells(block);
    let around = home(block);
    a_piece_is_part::<D>(block, limit);
    resuming_goes_forward(block, at);
    only_white_is_passed(all, at);
    cells_of_head(block, at);
    cells_of_tail(block, end);
    let dropped = all.subrange(at, end);
    assert(all =~= all.take(at) + dropped + all.skip(end));
    ink_of_parts(all.take(at) + dropped, all.skip(end), around);
    ink_of_parts(all.take(at), dropped, around);
    assert forall|i: int| 0 <= i < dropped.len() implies text::white((#[trigger] dropped[i]).0) by {
        assert(all[at + i] == dropped[i]);
        assert(text::white('\n'));
    }
    white_has_no_ink(dropped, around);
    assert(inked(dropped, around) =~= Seq::empty());
    ink_of_one(block);
    ink_of_one(head(block, at));
    ink_of_one(tail(block, end));
    assert(inked(all.take(at), around) + inked(dropped, around) =~= inked(all.take(at), around));
}

proof fn pieces_are_sendable<D: Dialect>(block: BlockView, limit: usize)
    ensures
        ({
            let (done, rest) = pieces_of::<D>(block, limit);
            let left = match rest {
                Some(rest) => seq![rest],
                None => Seq::empty(),
            };
            &&& forall|i: int| 0 <= i < done.len() ==> sendable::<D>(#[trigger] done[i], limit)
            &&& rest matches Some(rest) ==> sendable::<D>(seq![rest], limit)
            &&& groups_ink(done) + ink(left) == ink(seq![block])
        }),
    decreases cells(block).len(),
{
    let (done, rest) = pieces_of::<D>(block, limit);
    let left = match rest {
        Some(rest) => seq![rest],
        None => Seq::empty(),
    };
    if !visible(block) {
        assert(groups_ink(done) + ink(left) =~= ink(seq![block]));
    } else if cells(block).len() <= 1 || within::<D>(seq![block], limit) {
        assert(groups_ink(done) + ink(left) =~= ink(seq![block]));
    } else {
        let at = piece_end::<D>(block, limit);
        let most = room::<D>(block, limit);
        let piece = head(block, at);
        let after = tail(block, resumed(block, at));
        a_piece_is_part::<D>(block, limit);
        resuming_goes_forward(block, at);
        cells_of_head(block, at);
        cells_of_tail(block, resumed(block, at));
        ink_of_cut::<D>(block, limit);
        pieces_are_sendable::<D>(after, limit);
        halving_finds_a_fit::<D>(block, 1, cells(block).len() as int / 2, limit);
        a_break_fits::<D>(block, most, most / 2, most, limit);
        let more = pieces_of::<D>(after, limit).0;
        if visible(piece) {
            assert(sendable::<D>(seq![piece], limit));
            assert forall|i: int| 0 <= i < done.len() implies sendable::<D>(
                #[trigger] done[i],
                limit,
            ) by {
                if i > 0 {
                    assert(done[i] == more[i - 1]);
                }
            }
            groups_ink_of_join(seq![seq![piece]], more);
            groups_ink_of_one(seq![piece]);
            assert(groups_ink(done) + ink(left) =~= ink(seq![piece]) + (groups_ink(more) + ink(
                left,
            )));
        } else {
            assert(ink(seq![piece]) =~= Seq::empty());
            assert(ink(seq![block]) =~= ink(seq![after]));
        }
    }
}

proof fn light_pieces_fit<D: Dialect>(block: BlockView, limit: usize)
    requires
        D::light(block, limit) || within::<D>(seq![block], limit),
        limit >= D::least(),
    ensures
        ({
            let (done, rest) = pieces_of::<D>(block, limit);
            &&& forall|i: int| 0 <= i < done.len() ==> within::<D>(#[trigger] done[i], limit)
            &&& rest matches Some(rest) ==> within::<D>(seq![rest], limit)
        }),
    decreases cells(block).len(),
{
    let (done, rest) = pieces_of::<D>(block, limit);
    if visible(block) && !within::<D>(seq![block], limit) {
        if cells(block).len() <= 1 {
            D::a_light_character_fits(block, limit);
        } else {
            let at = piece_end::<D>(block, limit);
            let most = room::<D>(block, limit);
            let piece = head(block, at);
            let after = tail(block, resumed(block, at));
            a_piece_is_part::<D>(block, limit);
            resuming_goes_forward(block, at);
            cells_of_head(block, at);
            cells_of_tail(block, resumed(block, at));
            D::cutting_keeps_light(block, at, limit);
            D::cutting_keeps_light(block, resumed(block, at), limit);
            light_pieces_fit::<D>(after, limit);
            halving_finds_a_fit::<D>(block, 1, cells(block).len() as int / 2, limit);
            a_break_fits::<D>(block, most, most / 2, most, limit);
            if at == 1 && visible(piece) {
                D::a_light_character_fits(piece, limit);
            }
            let more = pieces_of::<D>(after, limit).0;
            if visible(piece) {
                assert forall|i: int| 0 <= i < done.len() implies within::<D>(
                    #[trigger] done[i],
                    limit,
                ) by {
                    if i > 0 {
                        assert(done[i] == more[i - 1]);
                    }
                }
            }
        }
    }
}

proof fn packing_fits<D: Dialect>(blocks: Seq<BlockView>, current: Seq<BlockView>, limit: usize)
    requires
        current.len() == 0 || within::<D>(current, limit),
        limit >= D::least(),
    ensures
        forall|i: int|
            0 <= i < packed::<D>(blocks, current, limit).len() ==> within::<D>(
                #[trigger] packed::<D>(blocks, current, limit)[i],
                limit,
            ),
    decreases blocks.len(),
{
    let made = packed::<D>(blocks, current, limit);
    let held = if current.len() > 0 {
        seq![current]
    } else {
        Seq::empty()
    };
    if blocks.len() == 0 {
        assert(made == held);
    } else {
        let block = blocks[0];
        let others = blocks.skip(1);
        if !visible(block) {
            packing_fits::<D>(others, current, limit);
            assert(made == packed::<D>(others, current, limit));
        } else if joins::<D>(current, block, limit) {
            packing_fits::<D>(others, current.push(block), limit);
            assert(made == packed::<D>(others, current.push(block), limit));
        } else {
            let (done, rest) = pieces_of::<D>(sent::<D>(block, limit), limit);
            let next = match rest {
                Some(rest) => seq![rest],
                None => Seq::empty(),
            };
            let more = packed::<D>(others, next, limit);
            D::easing_lightens(block, limit);
            light_pieces_fit::<D>(sent::<D>(block, limit), limit);
            packing_fits::<D>(others, next, limit);
            assert(made == held + done + more);
            assert forall|i: int| 0 <= i < made.len() implies within::<D>(
                #[trigger] made[i],
                limit,
            ) by {
                if i >= held.len() {
                    if i < held.len() + done.len() {
                        assert(made[i] == done[i - held.len()]);
                    } else {
                        assert(made[i] == more[i - held.len() - done.len()]);
                    }
                }
            }
        }
    }
}

proof fn packing_is_sendable<D: Dialect>(
    blocks: Seq<BlockView>,
    current: Seq<BlockView>,
    limit: usize,
)
    requires
        current.len() == 0 || sendable::<D>(current, limit),
    ensures
        forall|i: int|
            0 <= i < packed::<D>(blocks, current, limit).len() ==> sendable::<D>(
                #[trigger] packed::<D>(blocks, current, limit)[i],
                limit,
            ),
        groups_ink(packed::<D>(blocks, current, limit)) == ink(current) + ink(
            blocks.map_values(|block: BlockView| sent::<D>(block, limit)),
        ),
    decreases blocks.len(),
{
    let made = packed::<D>(blocks, current, limit);
    let held = if current.len() > 0 {
        seq![current]
    } else {
        Seq::empty()
    };
    if current.len() > 0 {
        groups_ink_of_one(current);
    } else {
        assert(current =~= Seq::empty());
    }
    assert(groups_ink(held) =~= ink(current));
    let as_sent = blocks.map_values(|block: BlockView| sent::<D>(block, limit));
    if blocks.len() == 0 {
        assert(as_sent =~= Seq::empty());
        assert(ink(current) + ink(as_sent) =~= ink(current));
    } else {
        let block = blocks[0];
        let others = blocks.skip(1);
        let others_sent = others.map_values(|block: BlockView| sent::<D>(block, limit));
        let shown = sent::<D>(block, limit);
        assert(as_sent =~= seq![shown] + others_sent);
        ink_of_join(seq![shown], others_sent);
        if !visible(block) {
            packing_is_sendable::<D>(others, current, limit);
            assert(ink(seq![block]) =~= Seq::empty());
            assert(ink(as_sent) =~= ink(others_sent));
        } else if joins::<D>(current, block, limit) {
            ink_of_push(current, block);
            ink_of_one(block);
            packing_is_sendable::<D>(others, current.push(block), limit);
            assert((ink(current) + ink(seq![block])) + ink(others_sent) =~= ink(current) + (ink(
                seq![block],
            ) + ink(others_sent)));
        } else {
            let (done, rest) = pieces_of::<D>(shown, limit);
            let next = match rest {
                Some(rest) => seq![rest],
                None => Seq::empty(),
            };
            let more = packed::<D>(others, next, limit);
            pieces_are_sendable::<D>(shown, limit);
            packing_is_sendable::<D>(others, next, limit);
            groups_ink_of_join(held + done, more);
            groups_ink_of_join(held, done);
            assert(made == held + done + more);
            assert forall|i: int| 0 <= i < made.len() implies sendable::<D>(
                #[trigger] made[i],
                limit,
            ) by {
                if i >= held.len() {
                    if i < held.len() + done.len() {
                        assert(made[i] == done[i - held.len()]);
                    } else {
                        assert(made[i] == more[i - held.len() - done.len()]);
                    }
                }
            }
            assert(ink(current) + groups_ink(done) + (ink(next) + ink(others_sent)) =~= ink(current)
                + ((groups_ink(done) + ink(next)) + ink(others_sent)));
        }
    }
}

/// What is visible stays visible in what is sent, and what is not stays invisible.
proof fn sending_shows_as_much<D: Dialect>(blocks: Seq<BlockView>, limit: usize)
    ensures
        ink(all_sent::<D>(blocks, limit)).len() == 0 <==> ink(blocks).len() == 0,
    decreases blocks.len(),
{
    let as_sent = blocks.map_values(|block: BlockView| sent::<D>(block, limit));
    blocks_show_as_much::<D>(blocks, limit);
    assert(ink(as_sent).len() == 0 <==> ink(blocks).len() == 0);
}

proof fn blocks_show_as_much<D: Dialect>(blocks: Seq<BlockView>, limit: usize)
    ensures
        ink(blocks.map_values(|block: BlockView| sent::<D>(block, limit))).len() == 0 <==> ink(
            blocks,
        ).len() == 0,
    decreases blocks.len(),
{
    let as_sent = blocks.map_values(|block: BlockView| sent::<D>(block, limit));
    if blocks.len() > 0 {
        let before = blocks.drop_last();
        blocks_show_as_much::<D>(before, limit);
        assert(as_sent.drop_last() =~= before.map_values(
            |block: BlockView| sent::<D>(block, limit),
        ));
        D::easing_lightens(blocks.last(), limit);
        ink_of_one(blocks.last());
        ink_of_one(as_sent.last());
    }
}

/// Every group of a split can be sent and stays within every limit that the dialect can keep, nothing
/// visible is lost, invented, moved or restyled, and blocks that fit one message are left as they are.
pub proof fn groups_are_a_split<D: Dialect>(blocks: Seq<BlockView>, limit: usize)
    ensures
        split_of::<D>(blocks, groups_of::<D>(blocks, limit), limit),
{
    if ink(blocks).len() > 0 && within::<D>(blocks, limit) {
        groups_ink_of_one(blocks);
    } else {
        let as_sent = blocks.map_values(|block: BlockView| sent::<D>(block, limit));
        packing_is_sendable::<D>(blocks, Seq::empty(), limit);
        assert(ink(Seq::<BlockView>::empty()) + ink(as_sent) =~= ink(as_sent));
        if limit >= D::least() {
            packing_fits::<D>(blocks, Seq::empty(), limit);
        }
    }
}

/// The characters of a block, without their styles.
pub(crate) fn letters(block: &Block) -> (chars: Vec<char>)
    ensures
        chars@.len() == cells(block.deep_view()).len(),
        forall|i: int| 0 <= i < chars@.len() ==> chars@[i] == cells(block.deep_view())[i].0,
{
    match block {
        Block::Text { spans, .. } => spans_letters(spans),
        Block::Heading { spans, .. } => spans_letters(spans),
        Block::Pre { text, .. } => text::chars_of(text.as_str()),
    }
}

fn spans_letters(spans: &Vec<Span>) -> (chars: Vec<char>)
    ensures
        chars@.len() == spans_cells(spans.deep_view()).len(),
        forall|i: int| 0 <= i < chars@.len() ==> chars@[i] == spans_cells(spans.deep_view())[i].0,
{
    let ghost views = spans.deep_view();
    let mut chars: Vec<char> = Vec::new();
    let mut i: usize = 0;
    while i < spans.len()
        invariant
            i <= spans.len(),
            views == spans.deep_view(),
            chars@.len() == spans_cells(views.take(i as int)).len(),
            forall|j: int|
                0 <= j < chars@.len() ==> chars@[j] == spans_cells(views.take(i as int))[j].0,
        decreases spans.len() - i,
    {
        assert(views.take(i + 1).drop_last() == views.take(i as int));
        assert(views[i as int] == spans@[i as int].deep_view());
        let mut more = text::chars_of(spans[i].text.as_str());
        chars.append(&mut more);
        i += 1;
    }
    assert(views.take(i as int) == views);
    chars
}

/// Cuts a run of spans in two after `at` characters.
fn cut_spans(spans: &Vec<Span>, at: usize) -> (parts: (Vec<Span>, Vec<Span>))
    ensures
        parts.0.deep_view() == spans_head(spans.deep_view(), at as int),
        parts.1.deep_view() == spans_tail(spans.deep_view(), at as int),
{
    let ghost views = spans.deep_view();
    let mut head: Vec<Span> = Vec::new();
    let mut tail: Vec<Span> = Vec::new();
    let mut left: usize = at;
    let mut i: usize = 0;
    assert(views.skip(0) =~= views);
    assert(head.deep_view() =~= Seq::empty());
    assert(tail.deep_view() =~= Seq::empty());
    assert(head.deep_view() + spans_head(views, at as int) =~= spans_head(views, at as int));
    assert(tail.deep_view() + spans_tail(views, at as int) =~= spans_tail(views, at as int));
    while i < spans.len()
        invariant
            i <= spans.len(),
            views == spans.deep_view(),
            left > 0 ==> tail@.len() == 0,
            head.deep_view() + spans_head(views.skip(i as int), left as int) == spans_head(
                views,
                at as int,
            ),
            tail.deep_view() + spans_tail(views.skip(i as int), left as int) == spans_tail(
                views,
                at as int,
            ),
        decreases spans.len() - i,
    {
        let ghost before = (head.deep_view(), tail.deep_view());
        let ghost rest = views.skip(i as int);
        let ghost view = spans@[i as int].deep_view();
        assert(rest[0] == view);
        assert(rest.skip(1) =~= views.skip(i + 1));
        let chars = text::chars_of(spans[i].text.as_str());
        if left == 0 {
            push_span(&mut tail, spans[i].copy());
            assert(before.1.push(view) + rest.skip(1) =~= before.1 + rest);
        } else if chars.len() <= left {
            push_span(&mut head, spans[i].copy());
            left -= chars.len();
            assert(before.0.push(view) + spans_head(rest.skip(1), left as int) =~= before.0 + (
            seq![view] + spans_head(rest.skip(1), left as int)));
        } else {
            let first = Span {
                text: text::slice_of(&chars, 0, left),
                style: spans[i].style,
                link: text::copied(&spans[i].link),
            };
            let second = Span {
                text: text::slice_of(&chars, left, chars.len()),
                style: spans[i].style,
                link: text::copied(&spans[i].link),
            };
            let ghost start = SpanView { text: view.text.take(left as int), ..view };
            let ghost end = SpanView { text: view.text.skip(left as int), ..view };
            assert(first.deep_view() == start);
            assert(second.text@ =~= end.text);
            assert(second.deep_view() == end);
            push_span(&mut head, first);
            push_span(&mut tail, second);
            left = 0;
            assert(before.0.push(start) + Seq::<SpanView>::empty() =~= before.0 + seq![start]);
            assert(before.1.push(end) + rest.skip(1) =~= before.1 + (seq![end] + rest.skip(1)));
        }
        i += 1;
    }
    assert(views.skip(i as int) =~= Seq::empty());
    assert(head.deep_view() =~= spans_head(views, at as int));
    assert(tail.deep_view() =~= spans_tail(views, at as int));
    (head, tail)
}

/// Cuts a block in two after `at` characters.
fn cut(block: &Block, at: usize) -> (parts: (Block, Block))
    requires
        at <= cells(block.deep_view()).len(),
    ensures
        parts.0.deep_view() == head(block.deep_view(), at as int),
        parts.1.deep_view() == tail(block.deep_view(), at as int),
{
    match block {
        Block::Text { spans, quoted, tight } => {
            let (head, tail) = cut_spans(spans, at);
            (
                Block::Text { spans: head, quoted: *quoted, tight: *tight },
                Block::Text { spans: tail, quoted: *quoted, tight: *tight },
            )
        },
        Block::Heading { level, spans, quoted } => {
            let (head, tail) = cut_spans(spans, at);
            (
                Block::Heading { level: *level, spans: head, quoted: *quoted },
                Block::Heading { level: *level, spans: tail, quoted: *quoted },
            )
        },
        Block::Pre { language, text } => {
            let chars = text::chars_of(text.as_str());
            let head = Block::Pre {
                language: text::copied(language),
                text: text::slice_of(&chars, 0, at),
            };
            let tail = Block::Pre {
                language: text::copied(language),
                text: text::slice_of(&chars, at, chars.len()),
            };
            assert(chars@.subrange(0, at as int) =~= text@.take(at as int));
            assert(chars@.subrange(at as int, chars@.len() as int) =~= text@.skip(at as int));
            (head, tail)
        },
    }
}

/// Whether anything in a block is visible.
fn is_visible(block: &Block) -> (found: bool)
    ensures
        found == (ink(seq![block.deep_view()]).len() > 0),
{
    let chars = letters(block);
    let ghost all = cells(block.deep_view());
    let ghost around = home(block.deep_view());
    proof {
        ink_of_one(block.deep_view());
    }
    let mut i: usize = 0;
    while i < chars.len()
        invariant
            i <= chars@.len(),
            chars@.len() == all.len(),
            forall|j: int| 0 <= j < all.len() ==> chars@[j] == (#[trigger] all[j]).0,
            forall|j: int| 0 <= j < i ==> text::white((#[trigger] all[j]).0),
            ink(seq![block.deep_view()]) == inked(all, around),
        decreases chars@.len() - i,
    {
        if !text::is_white(chars[i]) {
            proof {
                assert(all == all.take(i + 1) + all.skip(i + 1));
                ink_of_parts(all.take(i + 1), all.skip(i + 1), around);
                assert(!text::white(all[i as int].0));
                assert(all.take(i + 1).last() == all[i as int]);
            }
            return true;
        }
        i += 1;
    }
    proof {
        white_has_no_ink(all, around);
    }
    false
}

/// Whether one block alone makes a message within `limit`.
fn fits_alone<D: Dialect>(block: &Block, limit: usize) -> (fits: bool)
    ensures
        fits == within::<D>(seq![block.deep_view()], limit),
{
    let mut alone: Vec<Block> = Vec::new();
    push_block(&mut alone, block.copy());
    assert(alone.deep_view() =~= seq![block.deep_view()]);
    D::fits(D::render(&alone).as_str(), limit)
}

/// Cuts off the start of a block that is too long: as much as the limit allows, moved back to the
/// end of a line or a word where there is one in the second half of what would fit.
fn first_piece<D: Dialect>(block: &Block, chars: &Vec<char>, limit: usize) -> (piece: (usize, Block))
    requires
        chars@.len() == cells(block.deep_view()).len(),
        forall|i: int| 0 <= i < chars@.len() ==> chars@[i] == cells(block.deep_view())[i].0,
        chars@.len() >= 2,
    ensures
        piece.0 == piece_end::<D>(block.deep_view(), limit),
        piece.1.deep_view() == head(block.deep_view(), piece.0 as int),
        1 <= piece.0 < chars@.len(),
        piece.0 == 1 || head_fits::<D>(block.deep_view(), piece.0 as int, limit),
{
    let ghost view = block.deep_view();
    let mut low: usize = 1;
    let (mut kept, _) = cut(block, 1);
    let mut high: usize = chars.len() / 2;
    while low < high
        invariant
            1 <= low <= high < chars@.len(),
            view == block.deep_view(),
            chars@.len() == cells(view).len(),
            longest::<D>(view, low as int, high as int, limit) == room::<D>(view, limit),
            kept.deep_view() == head(view, low as int),
            low == 1 || head_fits::<D>(view, low as int, limit),
        decreases high - low,
    {
        let middle: usize = high - (high - low) / 2;
        let (start, _) = cut(block, middle);
        if fits_alone::<D>(&start, limit) {
            low = middle;
            kept = start;
        } else {
            high = middle - 1;
        }
    }
    let lines = match block {
        Block::Pre { .. } => true,
        _ => false,
    };
    let mut at: usize = low;
    let floor: usize = low / 2;
    while at > floor && at > 1
        invariant
            1 <= at <= low < chars@.len(),
            view == block.deep_view(),
            lines == (view is Pre),
            chars@.len() == cells(view).len(),
            forall|i: int| 0 <= i < chars@.len() ==> chars@[i] == cells(view)[i].0,
            broken_at::<D>(view, at as int, floor as int, low as int, limit) == piece_end::<D>(
                view,
                limit,
            ),
        decreases at,
    {
        let c = chars[at];
        assert(c == cells(view)[at as int].0);
        if (lines && c == '\n') || (!lines && text::is_white(c)) {
            let (start, _) = cut(block, at);
            if fits_alone::<D>(&start, limit) {
                return (at, start);
            }
        }
        at -= 1;
    }
    (low, kept)
}

/// How many characters a cut drops up to: the line break of a preformatted block, the white space of
/// any other.
fn gap(block: &Block, chars: &Vec<char>, at: usize) -> (end: usize)
    requires
        chars@.len() == cells(block.deep_view()).len(),
        forall|i: int| 0 <= i < chars@.len() ==> chars@[i] == cells(block.deep_view())[i].0,
        at <= chars@.len(),
    ensures
        end == resumed(block.deep_view(), at as int),
        at <= end <= chars@.len(),
{
    let ghost view = block.deep_view();
    let lines = match block {
        Block::Pre { .. } => true,
        _ => false,
    };
    if lines {
        if at < chars.len() && chars[at] == '\n' {
            return at + 1;
        }
        return at;
    }
    let mut end: usize = at;
    while end < chars.len() && text::is_white(chars[end])
        invariant
            at <= end <= chars@.len(),
            view == block.deep_view(),
            chars@.len() == cells(view).len(),
            forall|i: int| 0 <= i < chars@.len() ==> chars@[i] == cells(view)[i].0,
            past_white(cells(view), end as int) == past_white(cells(view), at as int),
        decreases chars@.len() - end,
    {
        end += 1;
    }
    end
}

/// The views of the messages in a list.
pub open spec fn views(groups: Seq<Vec<Block>>) -> Seq<Seq<BlockView>> {
    groups.map_values(|group: Vec<Block>| group.deep_view())
}

fn push_group(groups: &mut Vec<Vec<Block>>, group: Vec<Block>)
    ensures
        views(final(groups)@) == views(old(groups)@).push(group.deep_view()),
{
    groups.push(group);
    assert(views(groups@) =~= views(old(groups)@).push(group.deep_view()));
}

/// Appends to `groups` the pieces of a block that is too long, all but the last, which is returned
/// for what follows to join. Nothing is returned where the rest shows nothing.
fn pieces<D: Dialect>(block: Block, limit: usize, groups: &mut Vec<Vec<Block>>) -> (rest: Option<
    Block,
>)
    ensures
        views(final(groups)@) == views(old(groups)@) + pieces_of::<D>(block.deep_view(), limit).0,
        rest.deep_view() == pieces_of::<D>(block.deep_view(), limit).1,
{
    let ghost target = pieces_of::<D>(block.deep_view(), limit);
    let mut rest = block;
    let mut chars = letters(&rest);
    assert(views(groups@) + target.0 =~= views(old(groups)@) + target.0);
    loop
        invariant
            chars@.len() == cells(rest.deep_view()).len(),
            forall|i: int| 0 <= i < chars@.len() ==> chars@[i] == cells(rest.deep_view())[i].0,
            target == pieces_of::<D>(block.deep_view(), limit),
            views(groups@) + pieces_of::<D>(rest.deep_view(), limit).0 == views(old(groups)@)
                + target.0,
            pieces_of::<D>(rest.deep_view(), limit).1 == target.1,
        decreases chars@.len(),
    {
        let ghost view = rest.deep_view();
        if !is_visible(&rest) {
            assert(views(groups@) + Seq::<Seq<BlockView>>::empty() =~= views(groups@));
            return None;
        }
        if chars.len() <= 1 || fits_alone::<D>(&rest, limit) {
            assert(views(groups@) + Seq::<Seq<BlockView>>::empty() =~= views(groups@));
            return Some(rest);
        }
        let (at, piece) = first_piece::<D>(&rest, &chars, limit);
        let end = gap(&rest, &chars, at);
        let (_, after) = cut(&rest, end);
        proof {
            cells_of_tail(view, end as int);
        }
        let ghost more = pieces_of::<D>(tail(view, end as int), limit).0;
        if is_visible(&piece) {
            let ghost before = views(groups@);
            let ghost shown = piece.deep_view();
            let mut group: Vec<Block> = Vec::new();
            push_block(&mut group, piece);
            assert(group.deep_view() =~= seq![shown]);
            push_group(groups, group);
            assert(before.push(seq![shown]) + more =~= before + (seq![seq![shown]] + more));
        }
        rest = after;
        chars = letters(&rest);
    }
}

/// Takes the last block off a list.
fn pop_block(blocks: &mut Vec<Block>) -> (last: Block)
    requires
        old(blocks)@.len() > 0,
    ensures
        final(blocks).deep_view() == old(blocks).deep_view().drop_last(),
        last.deep_view() == old(blocks).deep_view().last(),
{
    let ghost before = blocks@;
    let last = blocks.pop().unwrap();
    assert(blocks.deep_view() =~= old(blocks).deep_view().drop_last()) by {
        assert forall|i: int| 0 <= i < blocks@.len() implies blocks.deep_view()[i] == old(
            blocks,
        ).deep_view()[i] by {
            assert(blocks@[i] == before[i]);
        }
    }
    last
}

proof fn no_groups_without_ink<D: Dialect>(groups: Seq<Seq<BlockView>>, limit: usize)
    requires
        forall|i: int| 0 <= i < groups.len() ==> sendable::<D>(#[trigger] groups[i], limit),
        groups_ink(groups).len() == 0,
    ensures
        groups.len() == 0,
{
    if groups.len() > 0 {
        assert(sendable::<D>(groups[groups.len() - 1], limit));
    }
}

/// Whether any of the blocks shows anything.
fn any_visible(blocks: &Vec<Block>) -> (found: bool)
    ensures
        found == (ink(blocks.deep_view()).len() > 0),
{
    let ghost all = blocks.deep_view();
    let mut found = false;
    let mut i: usize = 0;
    while i < blocks.len()
        invariant
            i <= blocks.len(),
            all == blocks.deep_view(),
            found == (ink(all.take(i as int)).len() > 0),
        decreases blocks.len() - i,
    {
        proof {
            assert(all.take(i + 1) == all.take(i as int).push(all[i as int]));
            ink_of_push(all.take(i as int), all[i as int]);
            ink_of_one(all[i as int]);
        }
        if is_visible(&blocks[i]) {
            found = true;
        }
        i += 1;
    }
    assert(all.take(i as int) == all);
    found
}

/// Splits a run of blocks into groups that each make one message.
pub fn group<D: Dialect>(blocks: Vec<Block>, limit: usize) -> (groups: Vec<Vec<Block>>)
    ensures
        views(groups@) == groups_of::<D>(blocks.deep_view(), limit),
{
    let ghost all = blocks.deep_view();
    let mut groups: Vec<Vec<Block>> = Vec::new();
    assert(views(groups@) =~= Seq::empty());
    let visible = any_visible(&blocks);
    if visible && D::fits(D::render(&blocks).as_str(), limit) {
        push_group(&mut groups, blocks);
        assert(views(groups@) =~= seq![all]);
        return groups;
    }
    let mut current: Vec<Block> = Vec::new();
    let mut i: usize = 0;
    assert(all.skip(0) =~= all);
    assert(current.deep_view() =~= Seq::empty());
    let ghost target = packed::<D>(all, Seq::empty(), limit);
    assert(views(groups@) + target =~= target);
    while i < blocks.len()
        invariant
            i <= blocks.len(),
            all == blocks.deep_view(),
            views(groups@) + packed::<D>(all.skip(i as int), current.deep_view(), limit) == target,
        decreases blocks.len() - i,
    {
        let ghost block = all[i as int];
        let ghost held = current.deep_view();
        let ghost earlier = views(groups@);
        assert(all.skip(i as int)[0] == block);
        assert(all.skip(i as int).skip(1) =~= all.skip(i + 1));
        assert(block == blocks@[i as int].deep_view());
        if is_visible(&blocks[i]) {
            push_block(&mut current, blocks[i].copy());
            assert(current@.len() == held.push(block).len());
            let alone = fits_alone::<D>(&blocks[i], limit);
            if !alone || !D::fits(D::render(&current).as_str(), limit) {
                let last = pop_block(&mut current);
                assert(current.deep_view() =~= held);
                let last = if alone {
                    last
                } else {
                    D::ease(last, limit)
                };
                let ghost flushed = if held.len() > 0 {
                    seq![held]
                } else {
                    Seq::empty()
                };
                if current.len() > 0 {
                    push_group(&mut groups, current);
                    assert(views(groups@) =~= earlier + flushed);
                } else {
                    assert(views(groups@) =~= earlier + flushed);
                }
                let ghost done = pieces_of::<D>(sent::<D>(block, limit), limit).0;
                current = Vec::new();
                match pieces::<D>(last, limit, &mut groups) {
                    Some(rest) => {
                        let ghost rest_view = rest.deep_view();
                        push_block(&mut current, rest);
                        assert(current.deep_view() =~= seq![rest_view]);
                    },
                    None => {
                        assert(current.deep_view() =~= Seq::empty());
                    },
                }
                let ghost others = packed::<D>(all.skip(i + 1), current.deep_view(), limit);
                assert(earlier + flushed + done + others =~= earlier + (flushed + done + others));
            }
        }
        i += 1;
    }
    assert(all.skip(i as int) =~= Seq::empty());
    if current.len() > 0 {
        let ghost earlier = views(groups@);
        let ghost held = current.deep_view();
        push_group(&mut groups, current);
        assert(earlier.push(held) =~= earlier + seq![held]);
    } else {
        assert(views(groups@) + Seq::<Seq<BlockView>>::empty() =~= views(groups@));
    }
    groups
}

/// The messages that a split of blocks is written as.
pub open spec fn written<D: Dialect>(groups: Seq<Seq<BlockView>>) -> Seq<Seq<char>> {
    groups.map_values(|group: Seq<BlockView>| D::rendered(group))
}

/// The messages that blocks are sent as.
pub open spec fn messages_of<D: Dialect>(blocks: Seq<BlockView>, limit: usize) -> Seq<Seq<char>> {
    written::<D>(groups_of::<D>(blocks, limit))
}

/// Every message stays within the limit, wherever the limit is one that the dialect can keep.
pub proof fn every_message_stays_within_the_limit<D: Dialect>(
    blocks: Seq<BlockView>,
    limit: usize,
    i: int,
)
    requires
        limit >= D::least(),
        0 <= i < messages_of::<D>(blocks, limit).len(),
    ensures
        D::length(messages_of::<D>(blocks, limit)[i]) <= limit,
{
    groups_are_a_split::<D>(blocks, limit);
    assert(within::<D>(groups_of::<D>(blocks, limit)[i], limit));
}

/// Nothing that shows is lost: the groups of blocks that the messages are written from together show
/// exactly what the blocks show as they are sent, in the same order and in the same styles.
pub proof fn nothing_visible_is_lost<D: Dialect>(blocks: Seq<BlockView>, limit: usize)
    ensures
        groups_ink(groups_of::<D>(blocks, limit)) == ink(all_sent::<D>(blocks, limit)),
{
    groups_are_a_split::<D>(blocks, limit);
}

/// A block that is too long is not cut into a wall of text and a scrap: what a cut takes is no more
/// than what it leaves, and at least half of what there is room for.
pub proof fn a_cut_leaves_no_scrap<D: Dialect>(block: BlockView, limit: usize)
    requires
        cells(block).len() > 1,
    ensures
        piece_end::<D>(block, limit) <= cells(block).len() - piece_end::<D>(block, limit),
        2 * piece_end::<D>(block, limit) >= room::<D>(block, limit),
{
    let most = room::<D>(block, limit);
    a_piece_is_part::<D>(block, limit);
    a_break_is_past_its_floor::<D>(block, most, most / 2, most, limit);
}

proof fn a_break_is_past_its_floor<D: Dialect>(
    block: BlockView,
    at: int,
    floor: int,
    most: int,
    limit: usize,
)
    ensures
        broken_at::<D>(block, at, floor, most, limit) == most || broken_at::<D>(
            block,
            at,
            floor,
            most,
            limit,
        ) > floor,
    decreases at,
{
    if at > floor && at > 1 {
        a_break_is_past_its_floor::<D>(block, at - 1, floor, most, limit);
    }
}

proof fn halving_goes_as_far_as_it_can<D: Dialect>(
    block: BlockView,
    low: int,
    high: int,
    top: int,
    limit: usize,
)
    requires
        low <= high,
        high == top || !head_fits::<D>(block, high + 1, limit),
    ensures
        ({
            let most = longest::<D>(block, low, high, limit);
            most == top || !head_fits::<D>(block, most + 1, limit)
        }),
    decreases high - low,
{
    if low < high {
        let middle = high - (high - low) / 2;
        if head_fits::<D>(block, middle, limit) {
            halving_goes_as_far_as_it_can::<D>(block, middle, high, top, limit);
        } else {
            halving_goes_as_far_as_it_can::<D>(block, low, middle - 1, top, limit);
        }
    }
}

/// A block that is too long is cut in the middle, or where one character more would not fit, before
/// any moving back to the end of a line or a word.
pub proof fn one_character_more_would_not_fit<D: Dialect>(block: BlockView, limit: usize)
    requires
        cells(block).len() > 1,
    ensures
        ({
            let most = room::<D>(block, limit);
            &&& piece_end::<D>(block, limit) <= most
            &&& most == cells(block).len() as int / 2 || !head_fits::<D>(block, most + 1, limit)
        }),
{
    let most = room::<D>(block, limit);
    let middle = cells(block).len() as int / 2;
    halving_goes_as_far_as_it_can::<D>(block, 1, middle, middle, limit);
    halving_stays_between::<D>(block, 1, middle, limit);
    a_break_is_within::<D>(block, most, most / 2, most, limit);
}

proof fn halving_reaches_what_fits<D: Dialect>(
    block: BlockView,
    low: int,
    high: int,
    limit: usize,
    few: int,
)
    requires
        low <= high,
        few <= high,
        forall|at: int| low < at <= few ==> #[trigger] head_fits::<D>(block, at, limit),
    ensures
        longest::<D>(block, low, high, limit) >= few,
    decreases high - low,
{
    if low < high {
        let middle = high - (high - low) / 2;
        if head_fits::<D>(block, middle, limit) {
            halving_reaches_what_fits::<D>(block, middle, high, limit, few);
        } else {
            halving_reaches_what_fits::<D>(block, low, middle - 1, limit, few);
        }
    }
}

proof fn spans_tail_of_tail(spans: Seq<SpanView>, first: int, second: int)
    requires
        0 <= first,
        0 <= second,
    ensures
        spans_tail(spans_tail(spans, first), second) == spans_tail(spans, first + second),
    decreases spans.len(),
{
    if spans.len() > 0 && first > 0 {
        let start = spans[0];
        let others = spans.skip(1);
        if start.text.len() <= first {
            spans_tail_of_tail(others, first - start.text.len(), second);
        } else {
            let left = SpanView { text: start.text.skip(first), ..start };
            let rest = seq![left] + others;
            assert(spans_tail(spans, first) == rest);
            assert(rest[0] == left);
            assert(rest.skip(1) =~= others);
            if second < left.text.len() {
                assert(left.text.skip(second) =~= start.text.skip(first + second));
            }
        }
    }
}

proof fn tail_of_tail(block: BlockView, first: int, second: int)
    requires
        0 <= first,
        0 <= second,
        first + second <= cells(block).len(),
    ensures
        tail(tail(block, first), second) == tail(block, first + second),
        tail(block, 0) == block,
{
    match block {
        BlockView::Text { spans, .. } => spans_tail_of_tail(spans, first, second),
        BlockView::Heading { spans, .. } => spans_tail_of_tail(spans, first, second),
        BlockView::Pre { text, .. } => {
            assert(text.skip(first).skip(second) =~= text.skip(first + second));
            assert(text.skip(0) =~= text);
        },
    }
}

/// Whether as many characters of a block as `few` make a message wherever in the block they start.
pub open spec fn roomy<D: Dialect>(block: BlockView, few: int, limit: usize) -> bool {
    &&& forall|from: int, at: int|
        0 <= from && 0 <= at <= few && from + at <= cells(block).len() ==> #[trigger] head_fits::<D>(
            tail(block, from),
            at,
            limit,
        )
    &&& forall|from: int|
        0 <= from <= cells(block).len() && cells(block).len() - from <= few ==> within::<D>(
            seq![#[trigger] tail(block, from)],
            limit,
        )
}

pub(crate) proof fn parts_stay_at_home<D: Dialect>(block: BlockView, limit: usize, i: int)
    requires
        0 <= i < pieces_of::<D>(block, limit).0.len(),
    ensures
        home(pieces_of::<D>(block, limit).0[i][0]) == home(block),
    decreases cells(block).len(),
{
    let at = piece_end::<D>(block, limit);
    let next = resumed(block, at);
    a_piece_is_part::<D>(block, limit);
    resuming_goes_forward(block, at);
    cells_of_head(block, at);
    cells_of_tail(block, next);
    if !visible(head(block, at)) {
        parts_stay_at_home::<D>(tail(block, next), limit, i);
    } else if i > 0 {
        parts_stay_at_home::<D>(tail(block, next), limit, i - 1);
    }
}

/// A long block is cut into parts of a size: where as many characters as `few` always make a
/// message, no part that a cut takes off has less than a quarter of that.
pub proof fn no_part_is_a_scrap<D: Dialect>(block: BlockView, limit: usize, few: int)
    requires
        roomy::<D>(block, few, limit),
    ensures
        forall|i: int|
            0 <= i < pieces_of::<D>(block, limit).0.len() ==> {
                let part = #[trigger] pieces_of::<D>(block, limit).0[i];
                part.len() == 1 && 4 * cells(part[0]).len() >= few
            },
    decreases cells(block).len(),
{
    let count = cells(block).len() as int;
    if visible(block) && count > 1 && !within::<D>(seq![block], limit) {
        let at = piece_end::<D>(block, limit);
        let next = resumed(block, at);
        let left = tail(block, next);
        a_piece_is_part::<D>(block, limit);
        resuming_goes_forward(block, at);
        cells_of_head(block, at);
        cells_of_tail(block, next);
        tail_of_tail(block, 0, 0);
        assert(count > few);
        let reached = if few < count / 2 {
            few
        } else {
            count / 2
        };
        assert forall|k: int| 1 < k <= reached implies #[trigger] head_fits::<D>(block, k, limit) by {
            assert(head_fits::<D>(tail(block, 0), k, limit));
        }
        halving_reaches_what_fits::<D>(block, 1, count / 2, limit, reached);
        a_cut_leaves_no_scrap::<D>(block, limit);
        assert(4 * at >= few);
        assert forall|from: int, k: int|
            0 <= from && 0 <= k <= few && from + k <= cells(left).len() implies #[trigger] head_fits::<
            D,
        >(tail(left, from), k, limit) by {
            tail_of_tail(block, next, from);
            assert(head_fits::<D>(tail(block, next + from), k, limit));
        }
        assert forall|from: int|
            0 <= from <= cells(left).len() && cells(left).len() - from <= few implies within::<D>(
            seq![#[trigger] tail(left, from)],
            limit,
        ) by {
            tail_of_tail(block, next, from);
        }
        no_part_is_a_scrap::<D>(left, limit, few);
        let more = pieces_of::<D>(left, limit).0;
        let made = pieces_of::<D>(block, limit).0;
        assert forall|i: int| 0 <= i < made.len() implies {
            let part = #[trigger] made[i];
            part.len() == 1 && 4 * cells(part[0]).len() >= few
        } by {
            if visible(head(block, at)) {
                assert(made == seq![seq![head(block, at)]] + more);
                if i > 0 {
                    assert(made[i] == more[i - 1]);
                }
            }
        }
    }
}

proof fn a_break_is_found<D: Dialect>(
    block: BlockView,
    at: int,
    floor: int,
    most: int,
    limit: usize,
    k: int,
)
    requires
        floor < k <= at,
        k > 1,
        breakable(block, k),
        head_fits::<D>(block, k, limit),
    ensures
        broken_at::<D>(block, at, floor, most, limit) >= k,
        breakable(block, broken_at::<D>(block, at, floor, most, limit)),
    decreases at,
{
    if at > k && !(breakable(block, at) && head_fits::<D>(block, at, limit)) {
        a_break_is_found::<D>(block, at - 1, floor, most, limit, k);
    }
}

/// Splitting prefers the end of a line or a word: where there is one in the second half of what
/// would fit, the block is cut at such a place, and no earlier.
pub proof fn splitting_prefers_a_break<D: Dialect>(block: BlockView, limit: usize, k: int)
    requires
        ({
            let most = room::<D>(block, limit);
            most / 2 < k <= most
        }),
        k > 1,
        breakable(block, k),
        head_fits::<D>(block, k, limit),
    ensures
        piece_end::<D>(block, limit) >= k,
        breakable(block, piece_end::<D>(block, limit)),
{
    let most = room::<D>(block, limit);
    a_break_is_found::<D>(block, most, most / 2, most, limit, k);
}

/// Writes a run of blocks as messages that each stay within `limit`.
///
/// Blocks that show nothing make no message, so a caller never sends a blank one.
pub fn compose<D: Dialect>(blocks: Vec<Block>, limit: usize) -> (messages: Vec<String>)
    ensures
        messages.deep_view() == messages_of::<D>(blocks.deep_view(), limit),
        forall|i: int| 0 <= i < messages@.len() ==> (#[trigger] messages@[i])@.len() > 0,
        messages@.len() == 0 <==> ink(blocks.deep_view()).len() == 0,
        limit >= D::least() ==> forall|i: int|
            0 <= i < messages@.len() ==> D::length((#[trigger] messages@[i])@) <= limit,
{
    let ghost all = blocks.deep_view();
    let groups = group::<D>(blocks, limit);
    let ghost split = views(groups@);
    proof {
        groups_are_a_split::<D>(all, limit);
        sending_shows_as_much::<D>(all, limit);
    }
    let mut messages: Vec<String> = Vec::new();
    let mut i: usize = 0;
    while i < groups.len()
        invariant
            i <= groups.len(),
            split == views(groups@),
            messages.deep_view() == written::<D>(split).take(i as int),
        decreases groups.len() - i,
    {
        assert(written::<D>(split)[i as int] == D::rendered(groups@[i as int].deep_view()));
        text::push(&mut messages, D::render(&groups[i]));
        i += 1;
    }
    assert(messages.deep_view() =~= written::<D>(split));
    assert forall|j: int| 0 <= j < messages@.len() implies (#[trigger] messages@[j])@.len()
        > 0 by {
        assert(messages.deep_view()[j] == D::rendered(split[j]));
        assert(sendable::<D>(split[j], limit));
        D::shows(split[j]);
    }
    proof {
        if ink(all).len() == 0 {
            no_groups_without_ink::<D>(split, limit);
        }
        if limit >= D::least() {
            assert forall|j: int| 0 <= j < messages@.len() implies D::length(
                (#[trigger] messages@[j])@,
            ) <= limit by {
                assert(messages.deep_view()[j] == D::rendered(split[j]));
                assert(within::<D>(split[j], limit));
            }
        }
    }
    messages
}

} // verus!
