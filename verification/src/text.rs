//! Text as sequences of characters: the small operations on strings that the rest of the crate is
//! built from, each stated over the characters that the string holds.

use vstd::prelude::*;
use vstd::string::*;

pub mod laws;

verus! {

/// `String::push` appends one character and changes nothing else.
pub assume_specification[ String::push ](string: &mut String, c: char)
    ensures
        final(string)@ == old(string)@.push(c),
;

/// The characters of `text`, in order.
pub fn chars_of(text: &str) -> (chars: Vec<char>)
    ensures
        chars@ == text@,
{
    let mut chars: Vec<char> = Vec::new();
    for c in it: text.chars()
        invariant
            chars@ == text@.take(it.index() as int),
            it.seq() == text@,
    {
        chars.push(c);
    }
    chars
}

/// The string made of the characters from `from` up to `to`.
pub fn slice_of(chars: &Vec<char>, from: usize, to: usize) -> (text: String)
    requires
        from <= to <= chars@.len(),
    ensures
        text@ == chars@.subrange(from as int, to as int),
{
    let mut text = String::new();
    let mut i: usize = from;
    while i < to
        invariant
            from <= i <= to <= chars@.len(),
            text@ == chars@.subrange(from as int, i as int),
        decreases to - i,
    {
        text.push(chars[i]);
        i += 1;
    }
    text
}

/// The string made of `chars`.
pub fn string_of(chars: &Vec<char>) -> (text: String)
    ensures
        text@ == chars@,
{
    slice_of(chars, 0, chars.len())
}

/// Whether two strings hold the same characters.
pub fn same(left: &str, right: &str) -> (equal: bool)
    ensures
        equal == (left@ == right@),
{
    left.to_owned() == right.to_owned()
}

/// A copy of an optional string.
pub fn copied(text: &Option<String>) -> (copy: Option<String>)
    ensures
        copy.deep_view() == text.deep_view(),
{
    match text {
        Some(text) => Some(text.clone()),
        None => None,
    }
}

/// An owned copy of an optional slice.
pub fn owned(text: Option<&str>) -> (copy: Option<String>)
    ensures
        copy.deep_view() == text.deep_view(),
{
    match text {
        Some(text) => Some(text.to_owned()),
        None => None,
    }
}

/// Appends one string to a list.
pub fn push(texts: &mut Vec<String>, text: String)
    ensures
        final(texts).deep_view() == old(texts).deep_view().push(text@),
{
    let ghost before = texts.deep_view();
    let ghost items = texts@;
    texts.push(text);
    assert forall|i: int| 0 <= i < texts@.len() implies texts.deep_view()[i] == before.push(
        text@,
    )[i] by {
        if i < items.len() {
            assert(texts@[i] == items[i]);
            assert(before[i] == items[i].deep_view());
        }
    }
    assert(texts.deep_view() =~= before.push(text@));
}

/// A copy of a list of strings.
pub fn copied_all(texts: &Vec<String>) -> (copy: Vec<String>)
    ensures
        copy.deep_view() == texts.deep_view(),
{
    let mut copy: Vec<String> = Vec::new();
    let mut i: usize = 0;
    while i < texts.len()
        invariant
            i <= texts.len(),
            copy.deep_view() == texts.deep_view().take(i as int),
        decreases texts.len() - i,
    {
        push(&mut copy, texts[i].clone());
        i += 1;
    }
    copy
}

/// Whether a list of strings holds one with the characters of `wanted`.
pub fn holds(texts: &Vec<String>, wanted: &str) -> (found: bool)
    ensures
        found == texts.deep_view().contains(wanted@),
{
    let mut i: usize = 0;
    while i < texts.len()
        invariant
            i <= texts.len(),
            forall|j: int| 0 <= j < i ==> texts.deep_view()[j] != wanted@,
        decreases texts.len() - i,
    {
        if same(texts[i].as_str(), wanted) {
            assert(texts.deep_view()[i as int] == wanted@);
            return true;
        }
        i += 1;
    }
    false
}

/// Every part in order, with `separator` between each two.
pub open spec fn joined(parts: Seq<Seq<char>>, separator: Seq<char>) -> Seq<char>
    decreases parts.len(),
{
    if parts.len() == 0 {
        Seq::empty()
    } else if parts.len() == 1 {
        parts[0]
    } else {
        joined(parts.drop_last(), separator) + separator + parts.last()
    }
}

/// `parts` joined by `separator`.
pub fn join(parts: &Vec<String>, separator: &str) -> (text: String)
    ensures
        text@ == joined(parts.deep_view(), separator@),
{
    let mut text = String::new();
    let mut i: usize = 0;
    while i < parts.len()
        invariant
            i <= parts.len(),
            text@ == joined(parts.deep_view().take(i as int), separator@),
        decreases parts.len() - i,
    {
        if i > 0 {
            text.append(separator);
        }
        text.append(parts[i].as_str());
        assert(parts.deep_view().take(i + 1).drop_last() == parts.deep_view().take(i as int));
        i += 1;
    }
    assert(parts.deep_view().take(i as int) == parts.deep_view());
    text
}

/// Whether `c` has the Unicode property White_Space.
pub open spec fn white(c: char) -> bool {
    ||| '\t' <= c <= '\r'
    ||| c == ' '
    ||| c == '\u{85}'
    ||| c == '\u{a0}'
    ||| c == '\u{1680}'
    ||| '\u{2000}' <= c <= '\u{200a}'
    ||| c == '\u{2028}'
    ||| c == '\u{2029}'
    ||| c == '\u{202f}'
    ||| c == '\u{205f}'
    ||| c == '\u{3000}'
}

/// Whether `c` is white space.
pub fn is_white(c: char) -> (found: bool)
    ensures
        found == white(c),
{
    ('\t' <= c && c <= '\r') || c == ' ' || c == '\u{85}' || c == '\u{a0}' || c == '\u{1680}' || (
    '\u{2000}' <= c && c <= '\u{200a}') || c == '\u{2028}' || c == '\u{2029}' || c == '\u{202f}'
        || c == '\u{205f}' || c == '\u{3000}'
}

/// What is left of `text` once leading white space is dropped.
pub open spec fn trimmed_start(text: Seq<char>) -> Seq<char>
    decreases text.len(),
{
    if text.len() > 0 && white(text[0]) {
        trimmed_start(text.skip(1))
    } else {
        text
    }
}

/// What is left of `text` once trailing white space is dropped.
pub open spec fn trimmed_end(text: Seq<char>) -> Seq<char>
    decreases text.len(),
{
    if text.len() > 0 && white(text.last()) {
        trimmed_end(text.drop_last())
    } else {
        text
    }
}

/// `text` without the white space at either end.
pub open spec fn trimmed(text: Seq<char>) -> Seq<char> {
    trimmed_end(trimmed_start(text))
}

/// `text` without the white space at either end.
pub fn trim(text: &str) -> (inner: String)
    ensures
        inner@ == trimmed(text@),
{
    let chars = chars_of(text);
    let mut from: usize = 0;
    assert(chars@.skip(0) == chars@);
    while from < chars.len() && is_white(chars[from])
        invariant
            from <= chars@.len(),
            trimmed_start(chars@) == trimmed_start(chars@.skip(from as int)),
        decreases chars@.len() - from,
    {
        assert(chars@.skip(from as int).skip(1) == chars@.skip(from + 1));
        from += 1;
    }
    let mut to: usize = chars.len();
    assert(chars@.skip(from as int) == chars@.subrange(from as int, to as int));
    while from < to && is_white(chars[to - 1])
        invariant
            from <= to <= chars@.len(),
            trimmed_end(chars@.skip(from as int)) == trimmed_end(
                chars@.subrange(from as int, to as int),
            ),
        decreases to,
    {
        assert(chars@.subrange(from as int, to as int).drop_last() == chars@.subrange(
            from as int,
            to - 1,
        ));
        to -= 1;
    }
    slice_of(&chars, from, to)
}

/// Whether `text` holds nothing but white space.
pub open spec fn blank(text: Seq<char>) -> bool {
    forall|i: int| 0 <= i < text.len() ==> white(#[trigger] text[i])
}

/// Trimming leaves nothing exactly where there is nothing but white space.
pub proof fn trimming_blank_text_leaves_nothing(text: Seq<char>)
    ensures
        blank(text) == (trimmed(text).len() == 0),
    decreases text.len(),
{
    if text.len() > 0 && white(text[0]) {
        trimming_blank_text_leaves_nothing(text.skip(1));
        assert(trimmed(text) == trimmed(text.skip(1)));
        if blank(text.skip(1)) {
            assert forall|i: int| 0 <= i < text.len() implies white(#[trigger] text[i]) by {
                if i > 0 {
                    assert(text.skip(1)[i - 1] == text[i]);
                }
            }
        } else {
            let i = choose|i: int| 0 <= i < text.skip(1).len() && !white(#[trigger] text.skip(1)[i]);
            assert(!white(text[i + 1]));
        }
    } else if text.len() > 0 {
        trimming_the_end_keeps_a_solid_start(text);
    }
}

proof fn trimming_the_end_keeps_a_solid_start(text: Seq<char>)
    requires
        text.len() > 0,
        !white(text[0]),
    ensures
        trimmed_end(text).len() > 0,
    decreases text.len(),
{
    if white(text.last()) {
        assert(text.len() > 1);
        trimming_the_end_keeps_a_solid_start(text.drop_last());
    }
}

/// Whether `text` holds nothing but white space.
pub fn is_blank(text: &str) -> (found: bool)
    ensures
        found == blank(text@),
{
    let chars = chars_of(text);
    let mut i: usize = 0;
    while i < chars.len()
        invariant
            i <= chars@.len(),
            chars@ == text@,
            forall|j: int| 0 <= j < i ==> white(#[trigger] chars@[j]),
        decreases chars@.len() - i,
    {
        if !is_white(chars[i]) {
            assert(!white(text@[i as int]));
            return false;
        }
        i += 1;
    }
    true
}

/// Whether `text` begins with `prefix`.
pub open spec fn begins(text: Seq<char>, prefix: Seq<char>) -> bool {
    prefix.len() <= text.len() && text.take(prefix.len() as int) == prefix
}

/// Whether `pattern` stands in `text` at index `at`.
pub open spec fn stands_at(text: Seq<char>, pattern: Seq<char>, at: int) -> bool {
    0 <= at && at + pattern.len() <= text.len() && text.subrange(at, at + pattern.len()) == pattern
}

/// Whether `pattern` stands anywhere in `text`.
pub open spec fn contains(text: Seq<char>, pattern: Seq<char>) -> bool {
    exists|at: int| stands_at(text, pattern, at)
}

/// Whether `pattern` stands in `chars` at index `at`.
pub fn matches_at(chars: &Vec<char>, pattern: &Vec<char>, at: usize) -> (found: bool)
    requires
        at <= chars@.len(),
    ensures
        found == stands_at(chars@, pattern@, at as int),
{
    if chars.len() - at < pattern.len() {
        return false;
    }
    let mut i: usize = 0;
    while i < pattern.len()
        invariant
            i <= pattern@.len(),
            pattern@.len() <= usize::MAX,
            chars@.len() <= usize::MAX,
            at + pattern@.len() <= chars@.len(),
            forall|j: int| 0 <= j < i ==> chars@[at + j] == pattern@[j],
        decreases pattern@.len() - i,
    {
        if chars[at + i] != pattern[i] {
            assert(chars@.subrange(at as int, at + pattern@.len())[i as int] != pattern@[i as int]);
            return false;
        }
        i += 1;
    }
    assert(chars@.subrange(at as int, at + pattern@.len()) == pattern@);
    true
}

/// Whether `text` begins with `prefix`.
pub fn starts_with(text: &str, prefix: &str) -> (found: bool)
    ensures
        found == begins(text@, prefix@),
{
    let chars = chars_of(text);
    let pattern = chars_of(prefix);
    let found = matches_at(&chars, &pattern, 0);
    proof {
        if prefix@.len() <= text@.len() {
            assert(text@.subrange(0, prefix@.len() as int) == text@.take(prefix@.len() as int));
        }
    }
    found
}

/// What follows `prefix` in `text`, where `text` begins with it.
pub open spec fn stripped(text: Seq<char>, prefix: Seq<char>) -> Option<Seq<char>> {
    if begins(text, prefix) {
        Some(text.skip(prefix.len() as int))
    } else {
        None
    }
}

/// What follows `prefix` in `text`, where `text` begins with it.
pub fn strip_prefix(text: &str, prefix: &str) -> (rest: Option<String>)
    ensures
        rest.deep_view() == stripped(text@, prefix@),
{
    if starts_with(text, prefix) {
        let chars = chars_of(text);
        let from: usize = chars_of(prefix).len();
        let rest = slice_of(&chars, from, chars.len());
        assert(rest@ == text@.skip(prefix@.len() as int));
        Some(rest)
    } else {
        None
    }
}

/// The first index of `pattern` in `text` at or after `from`, if there is one.
pub open spec fn first_at(text: Seq<char>, pattern: Seq<char>, from: int, at: Option<int>) -> bool {
    match at {
        Some(at) => {
            &&& from <= at
            &&& stands_at(text, pattern, at)
            &&& forall|j: int| from <= j < at ==> !stands_at(text, pattern, j)
        },
        None => forall|j: int| from <= j ==> !stands_at(text, pattern, j),
    }
}

/// Finds the first index of `pattern` in `chars` at or after `from`.
pub fn find_from(chars: &Vec<char>, pattern: &Vec<char>, from: usize) -> (at: Option<usize>)
    requires
        from <= chars@.len(),
    ensures
        first_at(chars@, pattern@, from as int, match at {
            Some(at) => Some(at as int),
            None => None,
        }),
{
    let mut at: usize = from;
    while at < chars.len()
        invariant
            from <= at <= chars@.len(),
            forall|j: int| from <= j < at ==> !stands_at(chars@, pattern@, j),
        decreases chars@.len() - at,
    {
        if matches_at(chars, pattern, at) {
            return Some(at);
        }
        at += 1;
    }
    if matches_at(chars, pattern, at) {
        return Some(at);
    }
    None
}

/// Whether `pattern` stands anywhere in `text`.
pub fn has(text: &str, pattern: &str) -> (found: bool)
    ensures
        found == contains(text@, pattern@),
{
    let chars = chars_of(text);
    let wanted = chars_of(pattern);
    match find_from(&chars, &wanted, 0) {
        Some(at) => {
            assert(stands_at(text@, pattern@, at as int));
            true
        },
        None => false,
    }
}

/// `text` with every occurrence of `from`, taken from the left and without overlap, replaced by
/// `to`. `from` is not empty.
pub open spec fn replaced(text: Seq<char>, from: Seq<char>, to: Seq<char>) -> Seq<char>
    decreases text.len(),
{
    if text.len() == 0 {
        Seq::empty()
    } else if from.len() > 0 && begins(text, from) {
        to + replaced(text.skip(from.len() as int), from, to)
    } else {
        seq![text[0]] + replaced(text.skip(1), from, to)
    }
}

/// `text` with every occurrence of `from` replaced by `to`.
pub fn replace(text: &str, from: &str, to: &str) -> (out: String)
    requires
        from@.len() > 0,
    ensures
        out@ == replaced(text@, from@, to@),
{
    let chars = chars_of(text);
    let pattern = chars_of(from);
    let mut out = String::new();
    let mut i: usize = 0;
    assert(chars@.skip(0) == chars@);
    while i < chars.len()
        invariant
            i <= chars@.len(),
            pattern@ == from@,
            from@.len() > 0,
            chars@ == text@,
            out@ + replaced(chars@.skip(i as int), from@, to@) == replaced(text@, from@, to@),
        decreases chars@.len() - i,
    {
        let found = matches_at(&chars, &pattern, i);
        let ghost rest = chars@.skip(i as int);
        proof {
            if from@.len() <= rest.len() {
                assert(rest.take(from@.len() as int) == chars@.subrange(i as int, i + from@.len()));
            }
            assert(found == begins(rest, from@));
            assert(rest.skip(1) == chars@.skip(i + 1));
        }
        let ghost before = out@;
        if found {
            assert(rest.skip(from@.len() as int) == chars@.skip(i + from@.len()));
            out.append(to);
            i += pattern.len();
            assert(before + (to@ + replaced(chars@.skip(i as int), from@, to@)) == out@ + replaced(
                chars@.skip(i as int),
                from@,
                to@,
            ));
        } else {
            out.push(chars[i]);
            i += 1;
            assert(before + (seq![rest[0]] + replaced(chars@.skip(i as int), from@, to@)) == out@
                + replaced(chars@.skip(i as int), from@, to@));
        }
    }
    assert(chars@.skip(i as int) == Seq::<char>::empty());
    out
}

/// The digit that stands for `n`, which is below ten.
pub open spec fn digit(n: nat) -> char {
    ('0' as nat + n) as char
}

/// `n` in decimal.
pub open spec fn decimal(n: nat) -> Seq<char>
    decreases n,
{
    if n < 10 {
        seq![digit(n)]
    } else {
        decimal(n / 10).push(digit(n % 10))
    }
}

/// `n` in decimal, with a minus sign below zero.
pub open spec fn signed_decimal(n: int) -> Seq<char> {
    if n < 0 {
        seq!['-'] + decimal((-n) as nat)
    } else {
        decimal(n as nat)
    }
}

/// The digit that stands for `n`.
pub fn digit_of(n: u64) -> (c: char)
    requires
        n < 10,
    ensures
        c == digit(n as nat),
{
    if n == 0 {
        '0'
    } else if n == 1 {
        '1'
    } else if n == 2 {
        '2'
    } else if n == 3 {
        '3'
    } else if n == 4 {
        '4'
    } else if n == 5 {
        '5'
    } else if n == 6 {
        '6'
    } else if n == 7 {
        '7'
    } else if n == 8 {
        '8'
    } else {
        '9'
    }
}

/// `n` in decimal.
pub fn number(n: u64) -> (text: String)
    ensures
        text@ == decimal(n as nat),
    decreases n,
{
    if n < 10 {
        let mut text = String::new();
        text.push(digit_of(n));
        assert(text@ == seq![digit(n as nat)]);
        text
    } else {
        let mut text = number(n / 10);
        text.push(digit_of(n % 10));
        text
    }
}

/// `n` in decimal, with a minus sign below zero.
pub fn signed_number(n: i64) -> (text: String)
    ensures
        text@ == signed_decimal(n as int),
{
    if n < 0 {
        let magnitude: u64 = if n == i64::MIN {
            0x8000_0000_0000_0000
        } else {
            (-n) as u64
        };
        let mut text = String::new();
        text.push('-');
        text.append(number(magnitude).as_str());
        assert(text@ == seq!['-'] + decimal(magnitude as nat));
        text
    } else {
        number(n as u64)
    }
}

/// Whether `c` is one of the ten ASCII digits.
pub open spec fn is_digit(c: char) -> bool {
    '0' <= c <= '9'
}

/// Whether every character is an ASCII digit.
pub open spec fn all_digits(text: Seq<char>) -> bool {
    forall|i: int| 0 <= i < text.len() ==> is_digit(#[trigger] text[i])
}

/// The number that a sequence of digits stands for.
pub open spec fn value_of(text: Seq<char>) -> nat
    decreases text.len(),
{
    if text.len() == 0 {
        0
    } else {
        value_of(text.drop_last()) * 10 + (text.last() as nat - '0' as nat) as nat
    }
}

/// The unsigned number that `text` spells, with an optional plus sign, if it is at most `max`.
pub open spec fn unsigned_in(text: Seq<char>, max: nat) -> Option<nat> {
    let digits = if text.len() > 0 && text[0] == '+' {
        text.skip(1)
    } else {
        text
    };
    if digits.len() > 0 && all_digits(digits) && value_of(digits) <= max {
        Some(value_of(digits))
    } else {
        None
    }
}

/// The signed number that `text` spells, with an optional sign, if it lies from `min` to `max`.
pub open spec fn signed_in(text: Seq<char>, min: int, max: int) -> Option<int> {
    if text.len() > 0 && text[0] == '-' {
        let digits = text.skip(1);
        if digits.len() > 0 && all_digits(digits) && -value_of(digits) >= min {
            Some(-(value_of(digits) as int))
        } else {
            None
        }
    } else {
        match unsigned_in(text, max as nat) {
            Some(value) => Some(value as int),
            None => None,
        }
    }
}

/// A number in decimal is made of digits and reads back as itself.
pub proof fn a_number_survives_its_text_form(n: nat, max: nat)
    requires
        n <= max,
    ensures
        all_digits(decimal(n)),
        decimal(n).len() > 0,
        value_of(decimal(n)) == n,
        unsigned_in(decimal(n), max) == Some(n),
    decreases n,
{
    if n < 10 {
        let text = decimal(n);
        assert(text.drop_last() =~= Seq::empty());
        assert(value_of(text.drop_last()) == 0);
        assert(text.last() == digit(n));
    } else {
        let before = decimal(n / 10);
        a_number_survives_its_text_form(n / 10, max);
        assert(decimal(n).drop_last() =~= before);
        assert(decimal(n).last() == digit(n % 10));
        assert forall|i: int| 0 <= i < decimal(n).len() implies is_digit(
            #[trigger] decimal(n)[i],
        ) by {
            if i < before.len() {
                assert(decimal(n)[i] == before[i]);
            }
        }
    }
    assert(is_digit(decimal(n)[0]));
}

/// A signed number in decimal reads back as itself.
pub proof fn a_signed_number_survives_its_text_form(n: int, min: int, max: int)
    requires
        min <= n <= max,
    ensures
        signed_in(signed_decimal(n), min, max) == Some(n),
{
    if n < 0 {
        a_number_survives_its_text_form((-n) as nat, (-n) as nat);
        assert(signed_decimal(n).skip(1) =~= decimal((-n) as nat));
    } else {
        a_number_survives_its_text_form(n as nat, n as nat);
        assert(is_digit(decimal(n as nat)[0]));
    }
}

/// A number has no white space round it.
pub proof fn a_number_is_trimmed_already(n: int)
    ensures
        trimmed(signed_decimal(n)) == signed_decimal(n),
{
    let text = signed_decimal(n);
    let magnitude: nat = if n < 0 {
        (-n) as nat
    } else {
        n as nat
    };
    a_number_survives_its_text_form(magnitude, magnitude);
    let digits = decimal(magnitude);
    assert(is_digit(digits[0]));
    assert(is_digit(digits[digits.len() - 1]));
    assert(text.last() == digits.last());
    assert(!white(text[0]));
    assert(!white(text.last()));
}

/// Two numbers that differ are written differently.
pub proof fn numbers_are_told_apart(left: int, right: int)
    requires
        left != right,
    ensures
        signed_decimal(left) != signed_decimal(right),
{
    let low = if left < right {
        left
    } else {
        right
    };
    let high = if left < right {
        right
    } else {
        left
    };
    a_signed_number_survives_its_text_form(left, low, high);
    a_signed_number_survives_its_text_form(right, low, high);
}

proof fn more_digits_mean_a_larger_value(text: Seq<char>, upto: int)
    requires
        0 <= upto <= text.len(),
        all_digits(text),
    ensures
        value_of(text.take(upto)) <= value_of(text),
    decreases text.len(),
{
    if upto < text.len() {
        assert(text.drop_last().take(upto) == text.take(upto));
        more_digits_mean_a_larger_value(text.drop_last(), upto);
        assert(is_digit(text[text.len() - 1]));
    } else {
        assert(text.take(upto) == text);
    }
}

/// Reads the digits from `from` to the end, if there are any and their value is at most `max`.
fn digits_from(chars: &Vec<char>, from: usize, max: u64) -> (value: Option<u64>)
    requires
        from <= chars@.len(),
    ensures
        match value {
            Some(value) => {
                &&& from < chars@.len()
                &&& all_digits(chars@.skip(from as int))
                &&& value == value_of(chars@.skip(from as int))
                &&& value <= max
            },
            None => !(from < chars@.len() && all_digits(chars@.skip(from as int)) && value_of(
                chars@.skip(from as int),
            ) <= max),
        },
{
    let ghost digits = chars@.skip(from as int);
    if from == chars.len() {
        return None;
    }
    let mut value: u64 = 0;
    let mut i: usize = from;
    while i < chars.len()
        invariant
            from <= i <= chars@.len(),
            digits == chars@.skip(from as int),
            all_digits(digits.take(i - from)),
            value == value_of(digits.take(i - from)),
            value <= max,
        decreases chars@.len() - i,
    {
        let c = chars[i];
        assert(digits[i - from] == c);
        if !('0' <= c && c <= '9') {
            assert(!is_digit(digits[i - from]));
            return None;
        }
        let next: u64 = (c as u32 - '0' as u32) as u64;
        assert(digits.take(i + 1 - from).drop_last() == digits.take(i - from));
        proof {
            if all_digits(digits) {
                more_digits_mean_a_larger_value(digits, i + 1 - from);
            }
        }
        if value > (u64::MAX - next) / 10 {
            return None;
        }
        let grown: u64 = value * 10 + next;
        if grown > max {
            return None;
        }
        value = grown;
        assert forall|j: int| 0 <= j < i + 1 - from implies is_digit(
            #[trigger] digits.take(i + 1 - from)[j],
        ) by {
            if j < i - from {
                assert(digits.take(i - from)[j] == digits[j]);
            }
        }
        i += 1;
    }
    assert(digits.take(i - from) == digits);
    Some(value)
}

/// The unsigned number that `text` spells, if it is at most `max`.
pub fn parse_unsigned(text: &str, max: u64) -> (value: Option<u64>)
    ensures
        (match value {
            Some(value) => Some(value as nat),
            None => None,
        }) == unsigned_in(text@, max as nat),
{
    let chars = chars_of(text);
    let from: usize = if chars.len() > 0 && chars[0] == '+' {
        1
    } else {
        0
    };
    proof {
        assert(chars@.skip(0) == chars@);
    }
    digits_from(&chars, from, max)
}

/// The `u64` that `text` spells, if it spells one.
pub fn parse_u64(text: &str) -> (value: Option<u64>)
    ensures
        (match value {
            Some(value) => Some(value as nat),
            None => None,
        }) == unsigned_in(text@, u64::MAX as nat),
{
    parse_unsigned(text, u64::MAX)
}

/// The `i64` that `text` spells, if it spells one.
pub fn parse_i64(text: &str) -> (value: Option<i64>)
    ensures
        (match value {
            Some(value) => Some(value as int),
            None => None,
        }) == signed_in(text@, i64::MIN as int, i64::MAX as int),
{
    let chars = chars_of(text);
    if chars.len() > 0 && chars[0] == '-' {
        match digits_from(&chars, 1, 0x8000_0000_0000_0000) {
            Some(magnitude) => if magnitude == 0x8000_0000_0000_0000 {
                Some(i64::MIN)
            } else {
                Some(-(magnitude as i64))
            },
            None => None,
        }
    } else {
        match parse_unsigned(text, 0x7fff_ffff_ffff_ffff) {
            Some(value) => Some(value as i64),
            None => None,
        }
    }
}

/// The `i32` that `text` spells, if it spells one.
pub fn parse_i32(text: &str) -> (value: Option<i32>)
    ensures
        (match value {
            Some(value) => Some(value as int),
            None => None,
        }) == signed_in(text@, i32::MIN as int, i32::MAX as int),
{
    let chars = chars_of(text);
    if chars.len() > 0 && chars[0] == '-' {
        match digits_from(&chars, 1, 0x8000_0000) {
            Some(magnitude) => if magnitude == 0x8000_0000 {
                Some(i32::MIN)
            } else {
                Some(-(magnitude as i32))
            },
            None => None,
        }
    } else {
        match parse_unsigned(text, 0x7fff_ffff) {
            Some(value) => Some(value as i32),
            None => None,
        }
    }
}

/// Whether what is appended to `text` starts a line.
pub open spec fn at_line_start(text: Seq<char>) -> bool {
    text.len() == 0 || text.last() == '\n'
}

/// Whether what is appended to `text` starts a line.
pub fn starts_line(text: &str) -> (found: bool)
    ensures
        found == at_line_start(text@),
{
    let chars = chars_of(text);
    chars.len() == 0 || chars[chars.len() - 1] == '\n'
}

/// What precedes the first `c` in `text`, or all of it where there is none.
pub open spec fn until(text: Seq<char>, c: char) -> Seq<char>
    decreases text.len(),
{
    if text.len() == 0 || text[0] == c {
        Seq::empty()
    } else {
        seq![text[0]] + until(text.skip(1), c)
    }
}

/// What precedes and what follows the first `c` in `text`, where there is one.
pub open spec fn parts_at(text: Seq<char>, c: char) -> Option<(Seq<char>, Seq<char>)> {
    let first = until(text, c);
    if first.len() < text.len() {
        Some((first, text.skip((first.len() + 1) as int)))
    } else {
        None
    }
}

/// What precedes the first `c` is a prefix that does not hold it, and where it is not the whole
/// text, `c` follows.
pub proof fn until_is_a_prefix(text: Seq<char>, c: char)
    ensures
        until(text, c).len() <= text.len(),
        until(text, c) == text.take(until(text, c).len() as int),
        forall|i: int| 0 <= i < until(text, c).len() ==> text[i] != c,
        until(text, c).len() < text.len() ==> text[until(text, c).len() as int] == c,
    decreases text.len(),
{
    if text.len() > 0 && text[0] != c {
        let rest = text.skip(1);
        until_is_a_prefix(rest, c);
        let inner = until(rest, c);
        assert(until(text, c) == seq![text[0]] + inner);
        assert forall|i: int| 0 <= i < until(text, c).len() implies text[i] != c by {
            if i > 0 {
                assert(rest[i - 1] == text[i]);
            }
        }
        assert forall|i: int| 0 <= i < until(text, c).len() implies until(text, c)[i]
            == text[i] by {
            if i > 0 {
                assert(inner[i - 1] == rest.take(inner.len() as int)[i - 1]);
            }
        }
        assert(until(text, c) =~= text.take(until(text, c).len() as int));
    }
}

/// The first index of `c` in `chars`, or their number where it is not there.
pub fn index_of(chars: &Vec<char>, c: char) -> (at: usize)
    ensures
        at == until(chars@, c).len(),
        at <= chars@.len(),
        until(chars@, c) == chars@.take(at as int),
{
    let mut at: usize = 0;
    assert(chars@.skip(0) =~= chars@);
    assert(chars@.take(0) + until(chars@, c) =~= until(chars@, c));
    while at < chars.len() && chars[at] != c
        invariant
            at <= chars@.len(),
            until(chars@, c) == chars@.take(at as int) + until(chars@.skip(at as int), c),
        decreases chars@.len() - at,
    {
        let ghost rest = chars@.skip(at as int);
        assert(rest.skip(1) =~= chars@.skip(at + 1));
        assert(chars@.take(at as int) + (seq![rest[0]] + until(rest.skip(1), c)) =~= chars@.take(
            at + 1,
        ) + until(chars@.skip(at + 1), c));
        at += 1;
    }
    assert(until(chars@.skip(at as int), c) =~= Seq::empty());
    assert(until(chars@, c) =~= chars@.take(at as int));
    at
}

/// What precedes and what follows the first `c` in `text`, where there is one.
pub fn split_once(text: &str, c: char) -> (parts: Option<(String, String)>)
    ensures
        parts.deep_view() == parts_at(text@, c),
{
    let chars = chars_of(text);
    let at = index_of(&chars, c);
    if at < chars.len() {
        let before = slice_of(&chars, 0, at);
        let after = slice_of(&chars, at + 1, chars.len());
        assert(before@ =~= until(text@, c));
        assert(after@ =~= text@.skip(at + 1));
        Some((before, after))
    } else {
        None
    }
}

/// What precedes the first `c` in `text`, or all of it where there is none.
pub fn before(text: &str, c: char) -> (part: String)
    ensures
        part@ == until(text@, c),
{
    let chars = chars_of(text);
    let at = index_of(&chars, c);
    let part = slice_of(&chars, 0, at);
    assert(part@ =~= until(text@, c));
    part
}

/// How the `Debug` impl of `str` writes a text: in double quotes, with escapes.
pub uninterp spec fn debug_quoted(text: Seq<char>) -> Seq<char>;

/// `text` as the `Debug` impl of `str` writes it, which depends on the text alone.
#[verifier::external_body]
pub(crate) fn quoted(text: &str) -> (out: String)
    ensures
        out@ == debug_quoted(text@),
{
    format!("{:?}", text)
}

/// `c` with an ASCII capital made small.
pub open spec fn folded(c: char) -> char {
    if 'A' <= c <= 'Z' {
        (c as u32 + 32) as char
    } else {
        c
    }
}

/// Whether two texts are the same but for the case of ASCII letters.
pub open spec fn alike(left: Seq<char>, right: Seq<char>) -> bool {
    left.len() == right.len() && forall|i: int|
        0 <= i < left.len() ==> folded(#[trigger] left[i]) == folded(right[i])
}

/// `c` with an ASCII capital made small.
pub fn fold(c: char) -> (small: char)
    ensures
        small == folded(c),
{
    if 'A' <= c && c <= 'Z' {
        (c as u8 + 32) as char
    } else {
        c
    }
}

/// Whether two texts are the same but for the case of ASCII letters.
pub fn same_folded(left: &str, right: &str) -> (equal: bool)
    ensures
        equal == alike(left@, right@),
{
    let left_chars = chars_of(left);
    let right_chars = chars_of(right);
    if left_chars.len() != right_chars.len() {
        return false;
    }
    let mut i: usize = 0;
    while i < left_chars.len()
        invariant
            i <= left_chars@.len(),
            left_chars@.len() == right_chars@.len(),
            left_chars@ == left@,
            right_chars@ == right@,
            forall|j: int| 0 <= j < i ==> folded(#[trigger] left@[j]) == folded(right@[j]),
        decreases left_chars@.len() - i,
    {
        if fold(left_chars[i]) != fold(right_chars[i]) {
            assert(folded(left@[i as int]) != folded(right@[i as int]));
            return false;
        }
        i += 1;
    }
    true
}

/// `text` with its ASCII capitals made small.
pub open spec fn lowered(text: Seq<char>) -> Seq<char> {
    text.map_values(|c: char| folded(c))
}

/// A text that is all in small letters is what another is lowered to exactly where the two are alike.
pub proof fn lowering_is_folding(text: Seq<char>, small: Seq<char>)
    requires
        forall|i: int| 0 <= i < small.len() ==> folded(#[trigger] small[i]) == small[i],
    ensures
        lowered(text) == small <==> alike(text, small),
{
    if alike(text, small) {
        assert(lowered(text) =~= small);
    }
    if lowered(text) == small {
        assert forall|i: int| 0 <= i < text.len() implies folded(#[trigger] text[i]) == folded(
            small[i],
        ) by {
            assert(lowered(text)[i] == folded(text[i]));
        }
    }
}

/// `text` with its ASCII capitals made small.
pub fn lower(text: &str) -> (small: String)
    ensures
        small@ == lowered(text@),
{
    let chars = chars_of(text);
    let mut small = String::new();
    let mut i: usize = 0;
    while i < chars.len()
        invariant
            i <= chars@.len(),
            chars@ == text@,
            small@ == lowered(text@.take(i as int)),
        decreases chars@.len() - i,
    {
        small.push(fold(chars[i]));
        i += 1;
        assert(small@ =~= lowered(text@.take(i as int)));
    }
    assert(text@.take(i as int) =~= text@);
    small
}

/// Whether `left` stands no later than `right` in the order of their characters.
pub open spec fn precedes(left: Seq<char>, right: Seq<char>) -> bool
    decreases left.len(),
{
    if left.len() == 0 {
        true
    } else if right.len() == 0 {
        false
    } else {
        left[0] < right[0] || (left[0] == right[0] && precedes(left.skip(1), right.skip(1)))
    }
}

proof fn precedence_is_total(left: Seq<char>, right: Seq<char>)
    ensures
        precedes(left, right) || precedes(right, left),
    decreases left.len(),
{
    if left.len() > 0 && right.len() > 0 {
        precedence_is_total(left.skip(1), right.skip(1));
    }
}

proof fn precedence_is_transitive(a: Seq<char>, b: Seq<char>, c: Seq<char>)
    requires
        precedes(a, b),
        precedes(b, c),
    ensures
        precedes(a, c),
    decreases a.len(),
{
    if a.len() > 0 && b.len() > 0 && c.len() > 0 && a[0] == b[0] && b[0] == c[0] {
        precedence_is_transitive(a.skip(1), b.skip(1), c.skip(1));
    }
}

/// Whether `left` stands no later than `right`.
pub fn not_after(left: &str, right: &str) -> (ordered: bool)
    ensures
        ordered == precedes(left@, right@),
{
    let a = chars_of(left);
    let b = chars_of(right);
    let mut i: usize = 0;
    assert(a@.skip(0) =~= a@);
    assert(b@.skip(0) =~= b@);
    while i < a.len() && i < b.len()
        invariant
            i <= a@.len(),
            i <= b@.len(),
            a@ == left@,
            b@ == right@,
            precedes(left@, right@) == precedes(a@.skip(i as int), b@.skip(i as int)),
        decreases a@.len() - i,
    {
        assert(a@.skip(i as int).skip(1) =~= a@.skip(i + 1));
        assert(b@.skip(i as int).skip(1) =~= b@.skip(i + 1));
        if a[i] < b[i] {
            return true;
        }
        if b[i] < a[i] {
            return false;
        }
        i += 1;
    }
    i == a.len()
}

/// Whether a list of texts stands in order.
pub open spec fn sorted(texts: Seq<Seq<char>>) -> bool {
    forall|i: int, j: int| 0 <= i <= j < texts.len() ==> precedes(texts[i], texts[j])
}

proof fn inserting_adds_one(texts: Seq<Seq<char>>, at: int, text: Seq<char>)
    requires
        0 <= at <= texts.len(),
    ensures
        texts.insert(at, text).to_multiset() == texts.to_multiset().insert(text),
{
    broadcast use vstd::seq_lib::group_to_multiset_ensures;

    let head = texts.take(at);
    let tail = texts.skip(at);
    assert(texts =~= head + tail);
    assert(texts.insert(at, text) =~= head.push(text) + tail);
    vstd::seq_lib::lemma_multiset_commutative(head, tail);
    vstd::seq_lib::lemma_multiset_commutative(head.push(text), tail);
    assert(texts.insert(at, text).to_multiset() =~= texts.to_multiset().insert(text));
}

/// `texts` in order.
pub fn sort(texts: Vec<String>) -> (out: Vec<String>)
    ensures
        sorted(out.deep_view()),
        out.deep_view().to_multiset() == texts.deep_view().to_multiset(),
{
    let mut out: Vec<String> = Vec::new();
    let mut i: usize = 0;
    let ghost all = texts.deep_view();
    assert(all.take(0) =~= Seq::empty());
    assert(out.deep_view() =~= Seq::empty());
    while i < texts.len()
        invariant
            i <= texts.len(),
            all == texts.deep_view(),
            sorted(out.deep_view()),
            out.deep_view().to_multiset() == all.take(i as int).to_multiset(),
        decreases texts.len() - i,
    {
        let ghost before = out.deep_view();
        let ghost text = all[i as int];
        let mut at: usize = 0;
        while at < out.len() && not_after(out[at].as_str(), texts[i].as_str())
            invariant
                at <= out.len(),
                i < texts.len(),
                before == out.deep_view(),
                text == texts@[i as int]@,
                forall|j: int| 0 <= j < at ==> precedes(before[j], text),
            decreases out.len() - at,
        {
            at += 1;
        }
        proof {
            assert forall|j: int| at <= j < before.len() implies precedes(text, before[j]) by {
                precedence_is_total(text, before[at as int]);
                assert(precedes(text, before[at as int]));
                precedence_is_transitive(text, before[at as int], before[j]);
            }
            precedence_is_total(text, text);
        }
        let ghost items = out@;
        out.insert(at, texts[i].clone());
        proof {
            assert forall|j: int| 0 <= j < out@.len() implies out.deep_view()[j] == before.insert(
                at as int,
                text,
            )[j] by {
                if j < at {
                    assert(out@[j] == items[j]);
                    assert(before[j] == items[j].deep_view());
                } else if j > at {
                    assert(out@[j] == items[j - 1]);
                    assert(before[j - 1] == items[j - 1].deep_view());
                }
            }
            assert(out.deep_view() =~= before.insert(at as int, text));
            assert(all.take(i + 1) =~= all.take(i as int).insert(i as int, text));
            inserting_adds_one(before, at as int, text);
            inserting_adds_one(all.take(i as int), i as int, text);
        }
        i += 1;
    }
    assert(all.take(i as int) =~= all);
    out
}

/// `item` where `on`, as a list of one.
pub open spec fn only_if(on: bool, item: Seq<char>) -> Seq<Seq<char>> {
    if on {
        seq![item]
    } else {
        Seq::empty()
    }
}

/// Appends `item` where `on`.
pub fn push_if(on: bool, item: &str, out: &mut Vec<String>)
    ensures
        final(out).deep_view() == old(out).deep_view() + only_if(on, item@),
{
    if on {
        push(out, item.to_owned());
    }
    assert(out.deep_view() =~= old(out).deep_view() + only_if(on, item@));
}

/// At most the first `limit` characters of `text`, with an ellipsis where it was cut.
pub open spec fn shortened(text: Seq<char>, limit: int) -> Seq<char> {
    if text.len() > limit {
        text.take(limit).push('\u{2026}')
    } else {
        text
    }
}

/// Shortens `text` to at most `limit` characters, appending an ellipsis when it was cut.
pub fn truncate(text: &str, limit: usize) -> (short: String)
    ensures
        short@ == shortened(text@, limit as int),
{
    let chars = chars_of(text);
    if chars.len() > limit {
        let mut short = slice_of(&chars, 0, limit);
        short.push('\u{2026}');
        assert(short@ =~= text@.take(limit as int).push('\u{2026}'));
        short
    } else {
        text.to_owned()
    }
}

/// `text` with every line break made a blank.
pub open spec fn on_one_line(text: Seq<char>) -> Seq<char> {
    text.map_values(
        |c: char|
            if c == '\n' {
                ' '
            } else {
                c
            },
    )
}

/// `text` with every line break made a blank.
pub fn one_line(text: &str) -> (line: String)
    ensures
        line@ == on_one_line(text@),
{
    let chars = chars_of(text);
    let mut line = String::new();
    let mut i: usize = 0;
    while i < chars.len()
        invariant
            i <= chars@.len(),
            chars@ == text@,
            line@ == on_one_line(text@.take(i as int)),
        decreases chars@.len() - i,
    {
        line.push(
            if chars[i] == '\n' {
                ' '
            } else {
                chars[i]
            },
        );
        i += 1;
        assert(line@ =~= on_one_line(text@.take(i as int)));
    }
    assert(text@.take(i as int) =~= text@);
    line
}

/// The first of two texts that is there.
pub open spec fn either(first: Option<Seq<char>>, second: Seq<char>) -> Seq<char> {
    match first {
        Some(text) => text,
        None => second,
    }
}

/// The first of two texts that is there.
pub fn or(first: &Option<String>, second: &str) -> (text: String)
    ensures
        text@ == either(first.deep_view(), second@),
{
    match first {
        Some(text) => text.clone(),
        None => second.to_owned(),
    }
}

/// The positive number that a text spells, where it spells one that fits sixty-four bits.
pub open spec fn positive(raw: Seq<char>) -> Option<u64> {
    match unsigned_in(raw, u64::MAX as nat) {
        Some(id) if id != 0 => Some(id as u64),
        _ => None,
    }
}

/// The positive number that a text spells, where it spells one that fits sixty-four bits.
pub fn parse_positive(raw: &str) -> (id: Option<u64>)
    ensures
        id == positive(raw@),
{
    match parse_u64(raw) {
        Some(id) if id != 0 => Some(id),
        _ => None,
    }
}

/// So many spaces.
pub open spec fn spaces(count: nat) -> Seq<char> {
    Seq::new(count, |i: int| ' ')
}

/// `text` with spaces after it to at least `width` characters.
pub open spec fn padded(text: Seq<char>, width: nat) -> Seq<char> {
    if text.len() < width {
        text + spaces((width - text.len()) as nat)
    } else {
        text
    }
}

/// `text` with spaces after it to at least `width` characters.
pub fn pad(text: &str, width: usize) -> (out: String)
    ensures
        out@ == padded(text@, width as nat),
{
    let count = chars_of(text).len();
    let mut out = text.to_owned();
    let mut length: usize = count;
    while length < width
        invariant
            count == text@.len(),
            count <= length,
            length <= width || length == count,
            out@ == text@ + spaces((length - count) as nat),
        decreases width - length,
    {
        out.push(' ');
        assert(out@ =~= text@ + spaces((length + 1 - count) as nat));
        length += 1;
    }
    assert(count >= width ==> out@ =~= text@);
    out
}

} // verus!
