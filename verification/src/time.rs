//! Spans of time, and how they are written.

use vstd::prelude::*;
use vstd::string::*;

use crate::text;

pub mod laws;

verus! {

/// A moment, in nanoseconds since the start of 1970.
pub type Instant = i128;

/// How many nanoseconds make a second.
pub const NANOS_PER_SEC: u32 = 1_000_000_000;

/// A span of time, in whole seconds and the nanoseconds beyond them.
#[derive(Clone, Copy, Debug, PartialEq, Eq, Structural)]
pub struct Duration {
    secs: u64,
    nanos: u32,
}

/// How `std::time::Duration` is written for debugging, from its seconds and nanoseconds.
pub uninterp spec fn debug_duration(secs: u64, nanos: u32) -> Seq<char>;

/// How `humantime` writes a span of so many seconds and nanoseconds.
pub uninterp spec fn human_duration(secs: u64, nanos: u32) -> Seq<char>;

/// What `humantime` reads a text as: seconds and nanoseconds, or why it cannot.
pub uninterp spec fn human_reading(text: Seq<char>) -> Result<(u64, u32), Seq<char>>;

/// Writes a span of time as the `Debug` impl of `std::time::Duration` does. The text depends on the
/// seconds and nanoseconds alone.
#[verifier::external_body]
fn debug_text(secs: u64, nanos: u32) -> (text: String)
    requires
        nanos < NANOS_PER_SEC,
    ensures
        text@ == debug_duration(secs, nanos),
{
    format!("{:?}", std::time::Duration::new(secs, nanos))
}

/// Writes a span of time as `humantime::format_duration` does. The text depends on the seconds and
/// nanoseconds alone.
#[verifier::external_body]
fn human_text(secs: u64, nanos: u32) -> (text: String)
    requires
        nanos < NANOS_PER_SEC,
    ensures
        text@ == human_duration(secs, nanos),
{
    humantime::format_duration(std::time::Duration::new(secs, nanos)).to_string()
}

/// Reads a span of time as `humantime::parse_duration` does, with its error as text. What it reads
/// depends on the text alone, and the nanoseconds it hands out never make a whole second. It panics
/// where a span completes exactly one second more than a `u64` holds, so texts whose spans come to
/// that much are left out.
#[verifier::external_body]
fn read_human(text: &str) -> (span: Result<(u64, u32), String>)
    requires
        !carries_too_far(text@, 0),
    ensures
        match span {
            Ok(span) => human_reading(text@) == Ok::<(u64, u32), Seq<char>>(span) && span.1
                < NANOS_PER_SEC,
            Err(error) => human_reading(text@) == Err::<(u64, u32), Seq<char>>(error@),
        },
{
    match humantime::parse_duration(text) {
        Ok(span) => Ok((span.as_secs(), span.subsec_nanos())),
        Err(error) => Err(error.to_string()),
    }
}

/// As many nanoseconds as make one second more than a `u64` holds.
pub const TOO_LONG: u128 = 18_446_744_073_709_551_616_000_000_000;

/// As many nanoseconds as make all the seconds that a `u64` holds.
pub const LAST_WHOLE: u128 = 18_446_744_073_709_551_615_000_000_000;

/// What `humantime` says of a span that it cannot hold.
pub open spec fn too_large() -> Seq<char> {
    "number is too large or cannot be represented without a lack of precision (values below 1ns are \
     not supported)"@
}

/// Whether a character may stand in a unit.
pub open spec fn is_unit_char(c: char) -> bool {
    'a' <= c <= 'z' || 'A' <= c <= 'Z' || c == '\u{b5}'
}

/// Where the first span of a text such as `2h 30m` ends, from `at` on: behind its unit.
pub open spec fn span_end(text: Seq<char>, at: int) -> int
    decreases text.len() - at,
{
    if at >= text.len() {
        text.len() as int
    } else if is_unit_char(text[at - 1]) && !is_unit_char(text[at]) {
        at
    } else {
        span_end(text, at + 1)
    }
}

proof fn a_span_ends_ahead(text: Seq<char>, at: int)
    requires
        0 < at <= text.len(),
    ensures
        at <= span_end(text, at) <= text.len(),
        span_end(text.take(span_end(text, at)), at) == span_end(text, at),
    decreases text.len() - at,
{
    let end = span_end(text, at);
    if at < text.len() && end != at {
        a_span_ends_ahead(text, at + 1);
    }
}

/// Whether the spans of a text, added one after another to what went `before`, come to more seconds
/// than a `u64` holds.
///
/// Each span is what `humantime` reads by itself. A unit that is followed by anything but a digit or
/// white space is refused before its span is added. Where a span has a whole part and a fraction that
/// cannot be held, the whole part may still have been added to seconds that are full.
pub open spec fn carries_too_far(text: Seq<char>, before: nat) -> bool
    decreases text.len(),
    via spans_get_fewer
{
    if text.len() == 0 {
        false
    } else {
        let end = span_end(text, 1);
        if end < text.len() && !text::is_digit(text[end]) && !text::white(text[end]) {
            false
        } else {
            match human_reading(text.take(end)) {
                Ok((secs, nanos)) => {
                    let total = (before + secs * 1_000_000_000 + nanos) as nat;
                    (before > 0 && total >= TOO_LONG) || carries_too_far(text.skip(end), total)
                },
                Err(reason) => before >= LAST_WHOLE && reason == too_large(),
            }
        }
    }
}

#[via_fn]
proof fn spans_get_fewer(text: Seq<char>, before: nat) {
    if text.len() > 0 {
        a_span_ends_ahead(text, 1);
    }
}

/// What a text is read as: what `humantime` reads it as, and too large where its spans come to more
/// seconds than a `u64` holds, of which `humantime` says the same unless it panics.
pub open spec fn span_reading(text: Seq<char>) -> Result<(u64, u32), Seq<char>> {
    if carries_too_far(text, 0) {
        Err(too_large())
    } else {
        human_reading(text)
    }
}

proof fn a_single_span_is_no_sum(span: Seq<char>)
    requires
        span.len() > 0,
        span_end(span, 1) == span.len(),
    ensures
        !carries_too_far(span, 0),
{
    reveal_with_fuel(carries_too_far, 2);
    assert(LAST_WHOLE > 0);
}

/// Where the span that starts at `from` ends.
fn find_span_end(chars: &Vec<char>, from: usize) -> (end: usize)
    requires
        from < chars@.len(),
    ensures
        end == from + span_end(chars@.skip(from as int), 1),
        from < end <= chars@.len(),
{
    let ghost rest = chars@.skip(from as int);
    assert(chars@.len() == chars.len());
    let mut end: usize = from + 1;
    while end < chars.len() && !(is_unit_letter(chars[end - 1]) && !is_unit_letter(chars[end]))
        invariant
            from < end <= chars@.len(),
            rest == chars@.skip(from as int),
            span_end(rest, 1) == span_end(rest, end - from),
        decreases chars@.len() - end,
    {
        assert(rest[end - from - 1] == chars@[end - 1]);
        assert(rest[end - from] == chars@[end as int]);
        end += 1;
    }
    if end < chars.len() {
        assert(rest[end - from - 1] == chars@[end - 1]);
        assert(rest[end - from] == chars@[end as int]);
    }
    end
}

fn is_unit_letter(c: char) -> (found: bool)
    ensures
        found == is_unit_char(c),
{
    ('a' <= c && c <= 'z') || ('A' <= c && c <= 'Z') || c == '\u{b5}'
}

/// Whether the spans of a text come to more seconds than a `u64` holds.
fn is_too_long(text: &str) -> (long: bool)
    ensures
        long == carries_too_far(text@, 0),
{
    let chars = text::chars_of(text);
    let mut from: usize = 0;
    let mut total: u128 = 0;
    assert(text@.skip(0) =~= text@);
    while from < chars.len()
        invariant
            from <= chars@.len(),
            chars@ == text@,
            total < TOO_LONG,
            carries_too_far(text@, 0) == carries_too_far(text@.skip(from as int), total as nat),
        decreases chars@.len() - from,
    {
        let ghost rest = text@.skip(from as int);
        let end = find_span_end(&chars, from);
        if end < chars.len() {
            assert(rest[end - from] == chars@[end as int]);
            let next = chars[end];
            if !('0' <= next && next <= '9') && !text::is_white(next) {
                return false;
            }
        }
        let span = text::slice_of(&chars, from, end);
        proof {
            a_span_ends_ahead(rest, 1);
            assert(span@ =~= rest.take(end - from));
            a_single_span_is_no_sum(span@);
        }
        match read_human(span.as_str()) {
            Ok((secs, nanos)) => {
                let more: u128 = secs as u128 * 1_000_000_000 + nanos as u128;
                if total > 0 && total + more >= TOO_LONG {
                    return true;
                }
                total = total + more;
            },
            Err(reason) => {
                return total >= LAST_WHOLE && text::same(
                    reason.as_str(),
                    "number is too large or cannot be represented without a lack of precision \
                     (values below 1ns are not supported)",
                );
            },
        }
        assert(rest.skip(end - from) =~= text@.skip(end as int));
        from = end;
    }
    assert(text@.skip(from as int) =~= Seq::empty());
    false
}

impl Duration {
    #[verifier::type_invariant]
    spec fn in_range(self) -> bool {
        self.nanos < NANOS_PER_SEC
    }

    /// The whole seconds.
    pub closed spec fn whole(self) -> u64 {
        self.secs
    }

    /// The nanoseconds beyond the whole seconds.
    pub closed spec fn beyond(self) -> u32 {
        self.nanos
    }

    /// A span of `secs` seconds and `nanos` nanoseconds.
    pub fn new(secs: u64, nanos: u32) -> (span: Duration)
        requires
            nanos < NANOS_PER_SEC,
        ensures
            span.whole() == secs,
            span.beyond() == nanos,
    {
        Duration { secs, nanos }
    }

    /// A span of `secs` seconds.
    pub fn from_secs(secs: u64) -> (span: Duration)
        ensures
            span.whole() == secs,
            span.beyond() == 0,
    {
        Duration { secs, nanos: 0 }
    }

    /// The whole seconds of this span.
    pub fn as_secs(&self) -> (secs: u64)
        ensures
            secs == self.whole(),
    {
        self.secs
    }

    /// The nanoseconds of this span beyond its whole seconds.
    pub fn subsec_nanos(&self) -> (nanos: u32)
        ensures
            nanos == self.beyond(),
            nanos < NANOS_PER_SEC,
    {
        proof {
            use_type_invariant(&*self);
        }
        self.nanos
    }

    /// Whether this span has no length.
    pub fn is_zero(&self) -> (zero: bool)
        ensures
            zero == (self.whole() == 0 && self.beyond() == 0),
    {
        self.secs == 0 && self.nanos == 0
    }

    /// Whether this span is shorter than `other`.
    pub fn is_shorter(&self, other: &Duration) -> (shorter: bool)
        ensures
            shorter == self.shorter(*other),
    {
        self.secs < other.secs || (self.secs == other.secs && self.nanos < other.nanos)
    }

    /// Whether this span is shorter than `other`.
    pub open spec fn shorter(self, other: Duration) -> bool {
        self.whole() < other.whole() || (self.whole() == other.whole() && self.beyond()
            < other.beyond())
    }

    /// This span as it is written for debugging.
    pub fn to_debug(&self) -> (text: String)
        ensures
            text@ == debug_duration(self.whole(), self.beyond()),
    {
        proof {
            use_type_invariant(&*self);
        }
        debug_text(self.secs, self.nanos)
    }

    /// This span as it is written for people.
    pub fn to_human(&self) -> (text: String)
        ensures
            text@ == human_duration(self.whole(), self.beyond()),
    {
        proof {
            use_type_invariant(&*self);
        }
        human_text(self.secs, self.nanos)
    }

    /// Reads a span written for people, such as `90s` or `2h 30m`.
    pub fn from_human(text: &str) -> (span: Result<Duration, String>)
        ensures
            match span {
                Ok(span) => span_reading(text@) == Ok::<(u64, u32), Seq<char>>(
                    (span.whole(), span.beyond()),
                ),
                Err(error) => span_reading(text@) == Err::<(u64, u32), Seq<char>>(error@),
            },
    {
        if is_too_long(text) {
            return Err(
                "number is too large or cannot be represented without a lack of precision (values \
                 below 1ns are not supported)".to_owned(),
            );
        }
        match read_human(text) {
            Ok((secs, nanos)) => Ok(Duration { secs, nanos }),
            Err(error) => Err(error),
        }
    }
}

/// The text that chrono writes for so many seconds and nanoseconds since 1970.
pub uninterp spec fn chrono_rfc3339(secs: i64, nanos: u32) -> Option<Seq<char>>;

/// The text that chrono writes for so many seconds since 1970, with nothing finer than a second.
pub uninterp spec fn chrono_short_rfc3339(secs: i64) -> Option<Seq<char>>;

/// The moment that chrono reads in a text, as seconds and nanoseconds.
pub uninterp spec fn rfc3339_reading(text: Seq<char>) -> Option<(i64, u32)>;

/// `chrono::DateTime::from_timestamp_micros`: the seconds, rounded down, and the nanoseconds that are
/// left, where the second is one of the years that chrono knows.
#[verifier::external_body]
fn micros_to_utc(micros: i64) -> (at: Option<(i64, u32)>)
    ensures
        at == (if FIRST_SECOND <= micros as int / 1_000_000 <= LAST_SECOND {
            Some(
                ((micros as int / 1_000_000) as i64, (micros as int % 1_000_000 * 1_000) as u32),
            )
        } else {
            None
        }),
{
    chrono::DateTime::from_timestamp_micros(micros)
        .map(|at| (at.timestamp(), at.timestamp_subsec_nanos()))
}

/// `chrono::DateTime::from_timestamp` and `to_rfc3339` of what it gives. The text depends on the
/// numbers alone, and there is one for the moments of the years that chrono knows and no others.
#[verifier::external_body]
pub(crate) fn to_rfc3339(secs: i64, nanos: u32) -> (text: Option<String>)
    ensures
        text.deep_view() == chrono_rfc3339(secs, nanos),
        nanos < NANOS_PER_SEC ==> (text is Some <==> FIRST_SECOND <= secs <= LAST_SECOND),
{
    chrono::DateTime::from_timestamp(secs, nanos).map(|at| at.to_rfc3339())
}

/// `chrono::DateTime::from_timestamp` and `to_rfc3339_opts` of what it gives, to the second and with
/// a `Z` for the offset. The text depends on the number alone, and there is one for the moments of
/// the years that chrono knows and no others.
#[verifier::external_body]
fn to_short_rfc3339(secs: i64) -> (text: Option<String>)
    ensures
        text.deep_view() == chrono_short_rfc3339(secs),
        text is Some <==> FIRST_SECOND <= secs <= LAST_SECOND,
{
    chrono::DateTime::from_timestamp(secs, 0)
        .map(|at| at.to_rfc3339_opts(chrono::SecondsFormat::Secs, true))
}

/// Whether `chrono::Duration::from_std` accepts a span of time: it does up to as many milliseconds as
/// an `i64` holds.
#[verifier::external_body]
fn chrono_accepts(secs: u64, nanos: u32) -> (accepted: bool)
    requires
        nanos < NANOS_PER_SEC,
    ensures
        accepted == (secs * 1_000_000_000 + nanos <= i64::MAX * 1_000_000),
{
    chrono::Duration::from_std(std::time::Duration::new(secs, nanos)).is_ok()
}

/// `chrono::DateTime::parse_from_rfc3339`, as the moment it stands for. What it reads depends on the
/// text alone. The nanoseconds of a leap second go past a whole second, but never past two.
#[verifier::external_body]
fn rfc3339_to_utc(text: &str) -> (at: Option<(i64, u32)>)
    ensures
        at == rfc3339_reading(text@),
        at matches Some((_, nanos)) ==> nanos < 2_000_000_000,
{
    chrono::DateTime::parse_from_rfc3339(text)
        .ok()
        .map(|at| (at.timestamp(), at.timestamp_subsec_nanos()))
}

/// The moment so many seconds and nanoseconds after the start of 1970.
pub open spec fn moment(secs: i64, nanos: u32) -> int {
    secs * 1_000_000_000 + nanos
}

/// The moment so many microseconds after the start of 1970, where a date is kept for it.
pub open spec fn moment_of_micros(micros: i64) -> Option<int> {
    if FIRST_SECOND <= micros as int / 1_000_000 <= LAST_SECOND {
        Some(micros * 1_000)
    } else {
        None
    }
}

/// The moment so many microseconds after the start of 1970, where a date is kept for it.
pub fn instant_of_micros(micros: i64) -> (at: Option<Instant>)
    ensures
        (match at {
            Some(at) => Some(at as int),
            None => None,
        }) == moment_of_micros(micros),
{
    match micros_to_utc(micros) {
        Some((secs, nanos)) => {
            let at: Instant = secs as i128 * 1_000_000_000 + nanos as i128;
            Some(at)
        },
        None => None,
    }
}

/// The moment that a text in the RFC 3339 form stands for.
pub fn parse_rfc3339(text: &str) -> (at: Option<Instant>)
    ensures
        (match at {
            Some(at) => Some(at as int),
            None => None,
        }) == (match rfc3339_reading(text@) {
            Some((secs, nanos)) => Some(moment(secs, nanos)),
            None => None,
        }),
{
    match rfc3339_to_utc(text) {
        Some((secs, nanos)) => {
            let at: Instant = secs as i128 * 1_000_000_000 + nanos as i128;
            Some(at)
        },
        None => None,
    }
}

/// The whole seconds up to a moment since the start of 1970.
pub open spec fn seconds(at: int) -> int {
    at / 1_000_000_000
}

/// The first second of the year -262143, the earliest that a date is kept for.
pub const FIRST_SECOND: i64 = -8_334_601_228_800;

/// The last second of the year 262142, the latest that a date is kept for.
pub const LAST_SECOND: i64 = 8_210_266_876_799;

/// Whether a moment is one that a date is kept for.
pub open spec fn datable(at: int) -> bool {
    FIRST_SECOND * 1_000_000_000 <= at < (LAST_SECOND + 1) * 1_000_000_000
}

/// The whole seconds up to a moment since the start of 1970.
pub fn whole_seconds(at: Instant) -> (secs: i64)
    requires
        datable(at as int),
    ensures
        secs == seconds(at as int),
        FIRST_SECOND <= secs <= LAST_SECOND,
{
    let second: i128 = 1_000_000_000;
    if at >= 0 {
        (at / second) as i64
    } else {
        let up: i128 = -(at + 1);
        (-1 - up / second) as i64
    }
}

/// A moment as text, down to the last of its nanoseconds.
pub open spec fn moment_text(at: int) -> Seq<char> {
    chrono_rfc3339(seconds(at) as i64, (at - seconds(at) * 1_000_000_000) as u32)->0
}

/// A moment as text, down to the last of its nanoseconds.
pub fn long_time(at: Instant) -> (text: String)
    requires
        datable(at as int),
    ensures
        text@ == moment_text(at as int),
{
    let secs: i64 = whole_seconds(at);
    let nanos: u32 = (at - secs as i128 * 1_000_000_000) as u32;
    to_rfc3339(secs, nanos).unwrap()
}

/// A moment as text, to the whole second.
pub open spec fn short_text(at: int) -> Seq<char> {
    chrono_short_rfc3339(seconds(at) as i64)->0
}

/// Trims a moment to whole seconds for display.
///
/// The full form keeps the nanoseconds that the database round-trips, which is right in a payload and
/// wrong in a column: nine extra digits push every field after it out of line.
pub fn short_time(at: Instant) -> (text: String)
    requires
        datable(at as int),
    ensures
        text@ == short_text(at as int),
{
    to_short_rfc3339(whole_seconds(at)).unwrap()
}

impl Duration {
    /// How long this span is, in nanoseconds.
    pub open spec fn span(self) -> int {
        self.whole() * 1_000_000_000 + self.beyond()
    }

    /// Whether a moment may lie this far off: not where the span is longer than chrono takes.
    pub fn is_spannable(&self) -> (spannable: bool)
        ensures
            spannable == (self.span() <= i64::MAX * 1_000_000),
    {
        chrono_accepts(self.as_secs(), self.subsec_nanos())
    }

    /// The moment this long after another.
    pub fn after(&self, at: Instant) -> (later: Instant)
        requires
            datable(at as int),
        ensures
            later == at + self.span(),
    {
        at + self.as_secs() as i128 * 1_000_000_000 + self.subsec_nanos() as i128
    }
}

} // verus!
