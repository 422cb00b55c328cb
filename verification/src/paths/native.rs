//! Paths of the platform as text.
//!
//! Most paths are Unicode, and such a path is its own text. The bytes of any other are escaped, so
//! that it can be joined and taken apart like any text and still be turned back into the path it was:
//! no escape holds a separator, a dot or a `~`.

use vstd::prelude::*;

use crate::text;

verus! {

/// A path as the platform gives it: its text where it is Unicode, and its bytes otherwise.
pub type NativePath = core::result::Result<String, Vec<u8>>;

/// The hexadecimal digit of a number below sixteen.
pub open spec fn hex_digit(n: u8) -> char {
    if n < 10 {
        ('0' as u8 + n) as char
    } else {
        ('a' as u8 + (n - 10)) as char
    }
}

/// The number of a hexadecimal digit.
pub open spec fn hex_value(c: char) -> Option<u8> {
    if '0' <= c <= '9' {
        Some((c as u8 - '0' as u8) as u8)
    } else if 'a' <= c <= 'f' {
        Some((c as u8 - 'a' as u8 + 10) as u8)
    } else {
        None
    }
}

/// A byte escaped: a null, which no path holds, and two hexadecimal digits.
pub open spec fn escaped(byte: u8) -> Seq<char> {
    seq!['\0', hex_digit(byte / 16), hex_digit(byte % 16)]
}

/// One byte of a path that is not Unicode.
pub open spec fn byte_text(byte: u8) -> Seq<char> {
    if 0 < byte < 0x80 {
        seq![byte as char]
    } else {
        escaped(byte)
    }
}

/// The text of a path that is not Unicode.
pub open spec fn bytes_text(bytes: Seq<u8>) -> Seq<char>
    decreases bytes.len(),
{
    if bytes.len() == 0 {
        Seq::empty()
    } else {
        bytes_text(bytes.drop_last()) + byte_text(bytes.last())
    }
}

/// One character of a path that is Unicode.
pub open spec fn char_text(c: char) -> Seq<char> {
    if c == '\0' {
        escaped(0)
    } else {
        seq![c]
    }
}

/// The text of a path that is Unicode.
pub open spec fn chars_text(path: Seq<char>) -> Seq<char>
    decreases path.len(),
{
    if path.len() == 0 {
        Seq::empty()
    } else {
        chars_text(path.drop_last()) + char_text(path.last())
    }
}

/// The text of a path.
pub open spec fn path_text(path: core::result::Result<Seq<char>, Seq<u8>>) -> Seq<char> {
    match path {
        Ok(path) => chars_text(path),
        Err(bytes) => bytes_text(bytes),
    }
}

/// Whether an escape stands at the front of a text.
pub open spec fn begins_escape(text: Seq<char>) -> bool {
    text.len() >= 3 && text[0] == '\0' && hex_value(text[1]) is Some && hex_value(text[2]) is Some
}

/// The bytes of the path that a text stands for.
pub open spec fn path_bytes(text: Seq<char>) -> Seq<u8>
    decreases text.len(),
{
    if text.len() == 0 {
        Seq::empty()
    } else if begins_escape(text) {
        seq![(hex_value(text[1])->0 * 16 + hex_value(text[2])->0) as u8] + path_bytes(text.skip(3))
    } else {
        vstd::utf8::encode_utf8(text.take(1)) + path_bytes(text.skip(1))
    }
}

/// What a platform's path holds.
pub open spec fn native_view(path: NativePath) -> core::result::Result<Seq<char>, Seq<u8>> {
    match path {
        Ok(path) => Ok(path@),
        Err(bytes) => Err(bytes@),
    }
}

/// What `String::from_utf8_lossy` makes of bytes.
pub uninterp spec fn utf8_lossy(bytes: Seq<u8>) -> Seq<char>;

/// `String::from_utf8_lossy`: the text of bytes, with a replacement character for what is not UTF-8.
/// It depends on the bytes alone, and UTF-8 is the text that it encodes.
#[verifier::external_body]
fn lossy(bytes: &Vec<u8>) -> (text: String)
    ensures
        text@ == utf8_lossy(bytes@),
        vstd::utf8::valid_utf8(bytes@) ==> text@ == vstd::utf8::decode_utf8(bytes@),
{
    String::from_utf8_lossy(bytes).into_owned()
}

/// A path as it is shown to people, given its text.
pub open spec fn shown_path(text: Seq<char>) -> Seq<char> {
    if text.contains('\0') {
        utf8_lossy(path_bytes(text))
    } else {
        text
    }
}

fn push_escaped(text: &mut String, byte: u8)
    ensures
        final(text)@ == old(text)@ + escaped(byte),
{
    text.push('\0');
    text.push(digit(byte / 16));
    text.push(digit(byte % 16));
    assert(text@ =~= old(text)@ + escaped(byte));
}

fn digit(n: u8) -> (c: char)
    requires
        n < 16,
    ensures
        c == hex_digit(n),
{
    if n < 10 {
        ('0' as u8 + n) as char
    } else {
        ('a' as u8 + (n - 10)) as char
    }
}

fn value(c: char) -> (n: Option<u8>)
    ensures
        n == hex_value(c),
        n matches Some(n) ==> n < 16,
{
    if '0' <= c && c <= '9' {
        Some(c as u8 - '0' as u8)
    } else if 'a' <= c && c <= 'f' {
        Some(c as u8 - 'a' as u8 + 10)
    } else {
        None
    }
}

/// The text of a path.
pub fn to_text(path: &NativePath) -> (text: String)
    ensures
        text@ == path_text(native_view(*path)),
{
    let mut text = String::new();
    let mut i: usize = 0;
    match path {
        Ok(path) => {
            let chars = text::chars_of(path.as_str());
            assert(chars@.take(0) =~= Seq::empty());
            while i < chars.len()
                invariant
                    i <= chars@.len(),
                    text@ == chars_text(chars@.take(i as int)),
                decreases chars@.len() - i,
            {
                assert(chars@.take(i + 1).drop_last() =~= chars@.take(i as int));
                if chars[i] == '\0' {
                    push_escaped(&mut text, 0);
                } else {
                    text.push(chars[i]);
                }
                assert(text@ =~= chars_text(chars@.take(i + 1)));
                i += 1;
            }
            assert(chars@.take(i as int) =~= chars@);
        },
        Err(bytes) => {
            assert(bytes@.take(0) =~= Seq::empty());
            while i < bytes.len()
                invariant
                    i <= bytes@.len(),
                    text@ == bytes_text(bytes@.take(i as int)),
                decreases bytes@.len() - i,
            {
                assert(bytes@.take(i + 1).drop_last() =~= bytes@.take(i as int));
                if 0 < bytes[i] && bytes[i] < 0x80 {
                    text.push(bytes[i] as char);
                } else {
                    push_escaped(&mut text, bytes[i]);
                }
                assert(text@ =~= bytes_text(bytes@.take(i + 1)));
                i += 1;
            }
            assert(bytes@.take(i as int) =~= bytes@);
        },
    }
    text
}

/// The bytes of the path that a text stands for.
pub fn to_bytes(text: &str) -> (bytes: Vec<u8>)
    ensures
        bytes@ == path_bytes(text@),
{
    let chars = text::chars_of(text);
    let mut bytes: Vec<u8> = Vec::new();
    let mut i: usize = 0;
    assert(text@.skip(0) =~= text@);
    while i < chars.len()
        invariant
            i <= chars@.len(),
            chars@ == text@,
            bytes@ + path_bytes(text@.skip(i as int)) == path_bytes(text@),
        decreases chars@.len() - i,
    {
        let ghost rest = text@.skip(i as int);
        let ghost before = bytes@;
        assert(rest[0] == chars@[i as int]);
        if chars[i] == '\0' && chars.len() - i >= 3 {
            assert(rest[1] == chars@[i + 1] && rest[2] == chars@[i + 2]);
            if let (Some(high), Some(low)) = (value(chars[i + 1]), value(chars[i + 2])) {
                bytes.push(high * 16 + low);
                assert(rest.skip(3) =~= text@.skip(i + 3));
                assert(bytes@ + path_bytes(rest.skip(3)) =~= before + path_bytes(rest));
                i += 3;
                continue;
            }
        }
        let one = text::slice_of(&chars, i, i + 1);
        assert(one@ =~= rest.take(1));
        push_all(&mut bytes, one.as_str());
        assert(rest.skip(1) =~= text@.skip(i + 1));
        assert(bytes@ + path_bytes(rest.skip(1)) =~= before + path_bytes(rest));
        i += 1;
    }
    assert(bytes@ =~= bytes@ + path_bytes(text@.skip(i as int)));
    bytes
}

fn push_all(bytes: &mut Vec<u8>, text: &str)
    ensures
        final(bytes)@ == old(bytes)@ + vstd::utf8::encode_utf8(text@),
{
    let more = text.as_bytes();
    let mut i: usize = 0;
    while i < more.len()
        invariant
            i <= more@.len(),
            bytes@ == old(bytes)@ + more@.take(i as int),
        decreases more@.len() - i,
    {
        bytes.push(more[i]);
        i += 1;
    }
    assert(more@.take(i as int) =~= more@);
}

/// A path as it is shown to people, given its text.
pub fn to_shown(text: &str) -> (shown: String)
    ensures
        shown@ == shown_path(text@),
{
    if has_null(text) {
        lossy(&to_bytes(text))
    } else {
        text.to_owned()
    }
}

fn has_null(text: &str) -> (found: bool)
    ensures
        found == text@.contains('\0'),
{
    let chars = text::chars_of(text);
    let mut i: usize = 0;
    while i < chars.len()
        invariant
            i <= chars@.len(),
            chars@ == text@,
            forall|j: int| 0 <= j < i ==> chars@[j] != '\0',
        decreases chars@.len() - i,
    {
        if chars[i] == '\0' {
            return true;
        }
        i += 1;
    }
    false
}

proof fn an_escape_is_its_byte(byte: u8, rest: Seq<char>)
    ensures
        path_bytes(escaped(byte) + rest) == seq![byte] + path_bytes(rest),
{
    let text = escaped(byte) + rest;
    assert(text[0] == '\0' && text[1] == hex_digit(byte / 16) && text[2] == hex_digit(byte % 16));
    assert(hex_value(hex_digit((byte / 16) as u8)) == Some((byte / 16) as u8));
    assert(hex_value(hex_digit((byte % 16) as u8)) == Some((byte % 16) as u8));
    assert(text.skip(3) =~= rest);
}

proof fn a_character_is_its_bytes(c: char, rest: Seq<char>)
    requires
        c != '\0',
    ensures
        path_bytes(seq![c] + rest) == vstd::utf8::encode_utf8(seq![c]) + path_bytes(rest),
{
    let text = seq![c] + rest;
    assert(text.take(1) =~= seq![c]);
    assert(text.skip(1) =~= rest);
}

proof fn one_byte_is_read_back(byte: u8, rest: Seq<char>)
    ensures
        path_bytes(byte_text(byte) + rest) == seq![byte] + path_bytes(rest),
{
    if 0 < byte < 0x80 {
        let c = byte as char;
        a_character_is_its_bytes(c, rest);
        assert(vstd::utf8::encode_utf8(seq![c]) =~= seq![byte]) by {
            assert(vstd::utf8::is_ascii_chars(seq![c]));
            vstd::utf8::is_ascii_chars_encode_utf8(seq![c]);
            assert(seq![c][0] as u8 == byte);
        }
    } else {
        an_escape_is_its_byte(byte, rest);
    }
}

proof fn bytes_are_read_back(bytes: Seq<u8>, rest: Seq<char>)
    ensures
        path_bytes(bytes_text(bytes) + rest) == bytes + path_bytes(rest),
    decreases bytes.len(),
{
    if bytes.len() == 0 {
        assert(bytes_text(bytes) + rest =~= rest);
        assert(bytes + path_bytes(rest) =~= path_bytes(rest));
    } else {
        let last = byte_text(bytes.last());
        bytes_are_read_back(bytes.drop_last(), last + rest);
        one_byte_is_read_back(bytes.last(), rest);
        assert(bytes_text(bytes) + rest =~= bytes_text(bytes.drop_last()) + (last + rest));
        assert(bytes.drop_last() + (seq![bytes.last()] + path_bytes(rest)) =~= bytes + path_bytes(
            rest,
        ));
    }
}

proof fn encoding_joins(a: Seq<char>, b: Seq<char>)
    ensures
        vstd::utf8::encode_utf8(a + b) == vstd::utf8::encode_utf8(a) + vstd::utf8::encode_utf8(b),
    decreases a.len(),
{
    if a.len() == 0 {
        assert(a + b =~= b);
        assert(vstd::utf8::encode_utf8(a) + vstd::utf8::encode_utf8(b) =~= vstd::utf8::encode_utf8(
            b,
        ));
    } else {
        encoding_joins(a.drop_first(), b);
        assert((a + b).drop_first() =~= a.drop_first() + b);
        assert(vstd::utf8::encode_utf8(a + b) =~= vstd::utf8::encode_utf8(a)
            + vstd::utf8::encode_utf8(b));
    }
}

proof fn characters_are_read_back(path: Seq<char>, rest: Seq<char>)
    ensures
        path_bytes(chars_text(path) + rest) == vstd::utf8::encode_utf8(path) + path_bytes(rest),
    decreases path.len(),
{
    if path.len() == 0 {
        assert(chars_text(path) + rest =~= rest);
        assert(vstd::utf8::encode_utf8(path) + path_bytes(rest) =~= path_bytes(rest));
    } else {
        let c = path.last();
        let last = char_text(c);
        characters_are_read_back(path.drop_last(), last + rest);
        assert(chars_text(path) + rest =~= chars_text(path.drop_last()) + (last + rest));
        if c == '\0' {
            an_escape_is_its_byte(0, rest);
            assert(vstd::utf8::encode_utf8(seq![c]) =~= seq![0u8]) by {
                assert(vstd::utf8::is_ascii_chars(seq![c]));
                vstd::utf8::is_ascii_chars_encode_utf8(seq![c]);
                assert(seq![c][0] as u8 == 0);
            }
        } else {
            a_character_is_its_bytes(c, rest);
        }
        encoding_joins(path.drop_last(), seq![c]);
        assert(path =~= path.drop_last() + seq![c]);
        assert(vstd::utf8::encode_utf8(path.drop_last()) + (vstd::utf8::encode_utf8(seq![c])
            + path_bytes(rest)) =~= vstd::utf8::encode_utf8(path) + path_bytes(rest));
    }
}

/// A path is read back from its text as it was, whatever it holds.
pub proof fn a_path_survives_as_text(path: core::result::Result<Seq<char>, Seq<u8>>)
    ensures
        path_bytes(path_text(path)) == (match path {
            Ok(path) => vstd::utf8::encode_utf8(path),
            Err(bytes) => bytes,
        }),
{
    match path {
        Ok(path) => {
            characters_are_read_back(path, Seq::empty());
            assert(chars_text(path) + Seq::empty() =~= chars_text(path));
            assert(vstd::utf8::encode_utf8(path) + path_bytes(Seq::empty())
                =~= vstd::utf8::encode_utf8(path));
        },
        Err(bytes) => {
            bytes_are_read_back(bytes, Seq::empty());
            assert(bytes_text(bytes) + Seq::empty() =~= bytes_text(bytes));
            assert(bytes + path_bytes(Seq::empty()) =~= bytes);
        },
    }
}

/// A path that is Unicode is its own text, and is shown as it is.
pub proof fn a_unicode_path_is_its_own_text(path: Seq<char>)
    requires
        !path.contains('\0'),
    ensures
        path_text(Ok(path)) == path,
        shown_path(path) == path,
    decreases path.len(),
{
    if path.len() > 0 {
        assert(path.contains(path.last()));
        assert forall|i: int| 0 <= i < path.drop_last().len() implies path.drop_last()[i]
            != '\0' by {
            assert(path.contains(path[i]));
        }
        a_unicode_path_is_its_own_text(path.drop_last());
        assert(chars_text(path) =~= path);
    } else {
        assert(chars_text(path) =~= path);
    }
}

} // verus!
