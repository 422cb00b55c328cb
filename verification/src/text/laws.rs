//! What the operations on text do to it, stated of the text that goes in and the text that comes out.

use vstd::prelude::*;

use crate::text;

verus! {

/// Trimming takes blanks from both ends and nothing else, and leaves no blank at either end.
pub proof fn trimming_takes_only_the_blanks(said: Seq<char>)
    ensures
        exists|left: Seq<char>, right: Seq<char>|
            {
                &&& #[trigger] text::blank(left)
                &&& #[trigger] text::blank(right)
                &&& said == left + text::trimmed(said) + right
            },
        text::trimmed(said).len() > 0 ==> !text::white(text::trimmed(said)[0]) && !text::white(
            text::trimmed(said).last(),
        ),
{
    let left = trimming_the_start_takes_blanks(said);
    let middle = text::trimmed_start(said);
    let right = trimming_the_end_takes_blanks(middle);
    assert(said =~= left + text::trimmed(said) + right);
    if text::trimmed(said).len() > 0 {
        assert(text::trimmed(said)[0] == middle[0]);
    }
    assert(text::blank(left) && text::blank(right));
}

proof fn trimming_the_start_takes_blanks(said: Seq<char>) -> (left: Seq<char>)
    ensures
        text::blank(left),
        said == left + text::trimmed_start(said),
        text::trimmed_start(said).len() > 0 ==> !text::white(text::trimmed_start(said)[0]),
    decreases said.len(),
{
    if said.len() > 0 && text::white(said[0]) {
        let rest = trimming_the_start_takes_blanks(said.skip(1));
        let left = seq![said[0]] + rest;
        assert(said =~= seq![said[0]] + said.skip(1));
        assert(said =~= left + text::trimmed_start(said.skip(1)));
        left
    } else {
        assert(said =~= Seq::empty() + said);
        Seq::empty()
    }
}

proof fn trimming_the_end_takes_blanks(said: Seq<char>) -> (right: Seq<char>)
    ensures
        text::blank(right),
        said == text::trimmed_end(said) + right,
        text::trimmed_end(said).len() > 0 ==> !text::white(text::trimmed_end(said).last()),
    decreases said.len(),
{
    if said.len() > 0 && text::white(said.last()) {
        let rest = trimming_the_end_takes_blanks(said.drop_last());
        let right = rest.push(said.last());
        assert(said =~= said.drop_last().push(said.last()));
        assert(said =~= text::trimmed_end(said) + right);
        right
    } else {
        assert(said =~= said + Seq::empty());
        Seq::empty()
    }
}

/// The blanks are the space, what ends a line, and the tab; no letter, digit or mark of ASCII is one.
pub proof fn what_is_printed_is_no_blank(c: char)
    ensures
        '!' <= c <= '~' ==> !text::white(c),
        text::white(' ') && text::white('\n') && text::white('\r') && text::white('\t'),
        text::white('\u{a0}') && text::white('\u{2003}') && text::white('\u{3000}'),
        c < '\t' ==> !text::white(c),
        c > '\u{3000}' ==> !text::white(c),
{
}

/// One text begins with another exactly where something completes it, and contains it exactly where
/// something stands before it and after it.
pub proof fn a_part_is_completed_by_the_rest(said: Seq<char>, part: Seq<char>)
    ensures
        text::begins(said, part) <==> exists|rest: Seq<char>| said == #[trigger] (part + rest),
        text::contains(said, part) <==> exists|before: Seq<char>, after: Seq<char>|
            said == #[trigger] (before + part + after),
        text::stripped(said, part) is Some <==> text::begins(said, part),
        text::stripped(said, part) matches Some(rest) ==> said == part + rest,
{
    if text::begins(said, part) {
        assert(said =~= part + said.skip(part.len() as int));
    }
    if exists|rest: Seq<char>| said == #[trigger] (part + rest) {
        assert(said.take(part.len() as int) =~= part);
    }
    if text::contains(said, part) {
        let at = choose|at: int| text::stands_at(said, part, at);
        assert(said =~= said.take(at) + part + said.skip(at + part.len()));
    }
    if exists|before: Seq<char>, after: Seq<char>| said == #[trigger] (before + part + after) {
        let (before, after) = choose|before: Seq<char>, after: Seq<char>|
            said == #[trigger] (before + part + after);
        assert(said.subrange(before.len() as int, (before.len() + part.len()) as int) =~= part);
        assert(text::stands_at(said, part, before.len() as int));
    }
}

/// Two lists joined are joined by the separator, one text alone is itself, and nothing gives nothing.
pub proof fn joined_lists_are_joined(
    left: Seq<Seq<char>>,
    right: Seq<Seq<char>>,
    separator: Seq<char>,
)
    ensures
        left.len() == 0 ==> text::joined(left, separator).len() == 0,
        left.len() == 1 ==> text::joined(left, separator) == left[0],
        left.len() > 0 && right.len() > 0 ==> text::joined(left + right, separator) == text::joined(
            left,
            separator,
        ) + separator + text::joined(right, separator),
    decreases right.len(),
{
    if left.len() > 0 && right.len() > 0 {
        assert((left + right).drop_last() =~= left + right.drop_last());
        assert((left + right).last() == right.last());
        if right.len() == 1 {
            assert(left + right.drop_last() =~= left);
        } else {
            joined_lists_are_joined(left, right.drop_last(), separator);
            assert(text::joined(left + right, separator) =~= text::joined(left, separator)
                + separator + text::joined(right, separator));
        }
    }
}

/// Replacing puts the new text where the old one first stands, keeps what stands before it, and goes
/// on behind it. Where the old text stands nowhere, nothing changes.
pub proof fn replacing_starts_at_the_first(
    said: Seq<char>,
    from: Seq<char>,
    to: Seq<char>,
    at: Option<int>,
)
    requires
        from.len() > 0,
        text::first_at(said, from, 0, at),
    ensures
        at is None ==> text::replaced(said, from, to) == said,
        at matches Some(at) ==> text::replaced(said, from, to) == said.take(at) + to + text::replaced(
            said.skip(at + from.len()),
            from,
            to,
        ),
    decreases said.len(),
{
    if said.len() > 0 {
        let rest = said.skip(1);
        if text::begins(said, from) {
            assert(said.subrange(0, from.len() as int) =~= said.take(from.len() as int));
            assert(text::stands_at(said, from, 0));
            assert(at == Some(0int));
            assert(said.take(0) + to =~= to);
        } else {
            let later = match at {
                Some(at) => Some(at - 1),
                None => None,
            };
            if let Some(at) = at {
                if at == 0 {
                    assert(said.subrange(0, from.len() as int) =~= said.take(from.len() as int));
                }
                assert(rest.subrange(at - 1, at - 1 + from.len()) =~= said.subrange(
                    at,
                    at + from.len(),
                ));
            }
            assert forall|j: int|
                text::stands_at(rest, from, j) implies text::stands_at(said, from, j + 1) by {
                assert(rest.subrange(j, j + from.len()) =~= said.subrange(
                    j + 1,
                    j + 1 + from.len(),
                ));
            }
            assert(text::first_at(rest, from, 0, later));
            replacing_starts_at_the_first(rest, from, to, later);
            match at {
                Some(at) => {
                    assert(rest.skip(at - 1 + from.len()) =~= said.skip(at + from.len()));
                    assert(text::replaced(said, from, to) =~= said.take(at) + to + text::replaced(
                        said.skip(at + from.len()),
                        from,
                        to,
                    ));
                },
                None => {
                    assert(seq![said[0]] + rest =~= said);
                },
            }
        }
    } else if let Some(at) = at {
        assert(text::stands_at(said, from, at));
    }
}

/// What is read as a number is digits, with a sign in front where there is one, and stays in its
/// bounds. Text with anything else in it is no number.
pub proof fn only_digits_are_a_number(said: Seq<char>, min: int, max: int, i: int)
    requires
        max >= 0,
    ensures
        said.len() == 0 ==> text::unsigned_in(said, max as nat) is None && text::signed_in(
            said,
            min,
            max,
        ) is None,
        0 < i < said.len() && !('0' <= said[i] <= '9') ==> text::unsigned_in(said, max as nat) is None
            && text::signed_in(said, min, max) is None,
        said.len() > 0 && !('0' <= said[0] <= '9') && said[0] != '+' ==> text::unsigned_in(
            said,
            max as nat,
        ) is None,
        said.len() > 0 && !('0' <= said[0] <= '9') && said[0] != '+' && said[0] != '-'
            ==> text::signed_in(said, min, max) is None,
        text::unsigned_in(said, max as nat) matches Some(n) ==> n <= max,
        min <= 0 ==> (text::signed_in(said, min, max) matches Some(n) ==> min <= n <= max),
{
    if 0 < i < said.len() && !('0' <= said[i] <= '9') {
        assert(said.skip(1)[i - 1] == said[i]);
        assert(!text::is_digit(said[i]));
        assert(!text::is_digit(said.skip(1)[i - 1]));
    }
    if said.len() > 0 && !('0' <= said[0] <= '9') {
        assert(!text::is_digit(said[0]));
    }
}

/// A digit at the end of a number counts once and moves the others up, and a leading zero counts for
/// nothing.
pub proof fn a_digit_counts_for_its_place(digits: Seq<char>, c: char)
    requires
        text::all_digits(digits),
        '0' <= c <= '9',
    ensures
        text::value_of(digits.push(c)) == 10 * text::value_of(digits) + (c as int - '0' as int),
        text::value_of(seq!['0'] + digits) == text::value_of(digits),
    decreases digits.len(),
{
    assert(digits.push(c).drop_last() =~= digits);
    if digits.len() == 0 {
        assert((seq!['0'] + digits).drop_last() =~= digits);
    } else {
        a_digit_counts_for_its_place(digits.drop_last(), '0');
        assert((seq!['0'] + digits).drop_last() =~= seq!['0'] + digits.drop_last());
    }
}

/// A text is cut at the first of a character: what stands before holds none of it, and what was cut is
/// put together again by it. A text without one is not cut.
pub proof fn a_text_is_cut_at_the_first(said: Seq<char>, c: char)
    ensures
        text::parts_at(said, c) is Some <==> said.contains(c),
        text::parts_at(said, c) matches Some(parts) ==> said == parts.0 + seq![c] + parts.1
            && !parts.0.contains(c) && parts.0 == text::until(said, c),
        !said.contains(c) ==> text::until(said, c) == said,
    decreases said.len(),
{
    if said.len() > 0 {
        let rest = said.skip(1);
        a_text_is_cut_at_the_first(rest, c);
        text::until_is_a_prefix(said, c);
        let first = text::until(said, c);
        if said[0] == c {
            assert(said.contains(c));
            assert(said =~= Seq::empty() + seq![c] + said.skip(1));
        } else {
            assert(seq![said[0]] + rest =~= said);
            if rest.contains(c) {
                let i = choose|i: int| 0 <= i < rest.len() && rest[i] == c;
                assert(said[i + 1] == c);
                let parts = text::parts_at(rest, c)->0;
                assert(said.skip((first.len() + 1) as int) =~= rest.skip(
                    (text::until(rest, c).len() + 1) as int,
                ));
                assert(said =~= first + seq![c] + said.skip((first.len() + 1) as int));
                assert forall|i: int| 0 <= i < first.len() implies first[i] != c by {
                    if i > 0 {
                        assert(first[i] == parts.0[i - 1]);
                    }
                }
            } else {
                if said.contains(c) {
                    let i = choose|i: int| 0 <= i < said.len() && said[i] == c;
                    assert(rest[i - 1] == c);
                }
            }
        }
    } else {
        assert(text::until(said, c) =~= said);
    }
}

/// Letters are folded to their small forms and nothing else is, so texts are alike exactly where they
/// differ in the size of letters alone.
pub proof fn folding_makes_letters_small(c: char)
    ensures
        'A' <= c <= 'Z' ==> text::folded(c) as int == c as int + 32 && 'a' <= text::folded(c) <= 'z',
        !('A' <= c <= 'Z') ==> text::folded(c) == c,
        text::folded(text::folded(c)) == text::folded(c),
{
}

/// The order of texts is decided by the first character in which they differ; a text stands before
/// what continues it, and two that stand before each other are the same.
pub proof fn the_first_difference_decides(
    start: Seq<char>,
    left: Seq<char>,
    right: Seq<char>,
)
    ensures
        text::precedes(start, start + right),
        left.len() > 0 && right.len() > 0 && left[0] < right[0] ==> text::precedes(
            start + left,
            start + right,
        ) && !text::precedes(start + right, start + left),
        right.len() > 0 ==> !text::precedes(start + right, start),
    decreases start.len(),
{
    if start.len() > 0 {
        the_first_difference_decides(start.skip(1), left, right);
        assert((start + left).skip(1) =~= start.skip(1) + left);
        assert((start + right).skip(1) =~= start.skip(1) + right);
    } else {
        assert(start + left =~= left);
        assert(start + right =~= right);
    }
}

/// A text over the limit is cut there and marked by an ellipsis, and any other is kept.
pub proof fn a_long_text_is_cut_and_marked(said: Seq<char>, limit: int)
    requires
        limit >= 0,
    ensures
        said.len() <= limit ==> text::shortened(said, limit) == said,
        said.len() > limit ==> {
            &&& text::shortened(said, limit).len() == limit + 1
            &&& text::shortened(said, limit).last() == '\u{2026}'
            &&& text::shortened(said, limit).take(limit) == said.take(limit)
        },
{
    if said.len() > limit {
        assert(text::shortened(said, limit).take(limit) =~= said.take(limit));
    }
}

/// On one line, each end of a line is a space and every other character is kept.
pub proof fn ends_of_lines_become_spaces(said: Seq<char>, i: int)
    requires
        0 <= i < said.len(),
    ensures
        text::on_one_line(said).len() == said.len(),
        said[i] == '\n' ==> text::on_one_line(said)[i] == ' ',
        said[i] != '\n' ==> text::on_one_line(said)[i] == said[i],
{
}

/// A text is filled up with spaces at its end, to the width and no further.
pub proof fn a_text_is_filled_up_at_its_end(said: Seq<char>, width: nat, i: int)
    ensures
        said.len() >= width ==> text::padded(said, width) == said,
        said.len() < width ==> text::padded(said, width).len() == width,
        text::padded(said, width).take(said.len() as int) == said,
        said.len() <= i < width ==> text::padded(said, width)[i] == ' ',
{
    assert(text::padded(said, width).take(said.len() as int) =~= said);
}

/// What is there is taken, and the other only where it is not.
pub proof fn what_is_there_is_taken(first: Option<Seq<char>>, second: Seq<char>)
    ensures
        first matches Some(there) ==> text::either(first, second) == there,
        first is None ==> text::either(first, second) == second,
{
}

/// An id is a number other than zero.
pub proof fn an_id_is_a_number_other_than_zero(n: u64, raw: Seq<char>)
    ensures
        n != 0 ==> text::positive(text::decimal(n as nat)) == Some(n),
        text::positive(text::decimal(0)) is None,
        text::positive(raw) matches Some(id) ==> id != 0 && text::unsigned_in(raw, u64::MAX as nat)
            == Some(id as nat),
        text::unsigned_in(raw, u64::MAX as nat) is None ==> text::positive(raw) is None,
{
    text::a_number_survives_its_text_form(n as nat, u64::MAX as nat);
    text::a_number_survives_its_text_form(0, u64::MAX as nat);
}

} // verus!
