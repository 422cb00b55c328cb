//! How moments and spans are measured, stated in nanoseconds.

use vstd::prelude::*;

use crate::time::{self, Duration};

verus! {

/// A moment is its seconds and the nanoseconds beyond them.
pub proof fn a_moment_is_its_seconds_and_the_rest(secs: i64, nanos: u32)
    requires
        nanos < 1_000_000_000,
    ensures
        time::moment(secs, nanos) == secs * 1_000_000_000 + nanos,
        time::seconds(time::moment(secs, nanos)) == secs,
{
}

/// The second of a moment is the last one that began before it, also before the first of all.
pub proof fn a_second_holds_its_moment(at: int)
    ensures
        time::seconds(at) * 1_000_000_000 <= at < (time::seconds(at) + 1) * 1_000_000_000,
{
}

/// A count of microseconds is the moment that lies as many behind the first, wherever the calendar
/// reaches it.
pub proof fn microseconds_are_a_thousand_nanoseconds(micros: i64)
    ensures
        time::moment_of_micros(micros) matches Some(at) ==> at == micros * 1_000,
        time::moment_of_micros(micros) is Some <==> time::datable(micros * 1_000),
{
}

/// One span is shorter than another exactly where it lasts less.
pub proof fn shorter_lasts_less(left: Duration, right: Duration)
    requires
        left.beyond() < 1_000_000_000,
        right.beyond() < 1_000_000_000,
    ensures
        left.shorter(right) <==> left.span() < right.span(),
        left.span() == left.whole() * 1_000_000_000 + left.beyond(),
{
}

/// A span that is written down is read as it is understood, unless its parts add up to more than there
/// is room for; then it is refused for that.
pub proof fn a_span_too_long_is_refused(said: Seq<char>)
    ensures
        !time::carries_too_far(said, 0) ==> time::span_reading(said) == time::human_reading(said),
        time::carries_too_far(said, 0) ==> time::span_reading(said) is Err,
{
}

} // verus!
