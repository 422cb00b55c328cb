//! What Discord's own search gives, stated of what it answered.

use vstd::prelude::*;

use crate::channel::discord::search::{self, Json};
use crate::text;

verus! {

/// What an object holds under a name is its first entry of that name, and other values hold nothing.
pub proof fn an_object_holds_its_entries(entries: Vec<(String, Json)>, name: Seq<char>, i: int)
    ensures
        0 <= i < entries@.len() && entries@[i].0@ == name && (forall|j: int|
            0 <= j < i ==> (#[trigger] entries@[j]).0@ != name) ==> search::member(
            Json::Object(entries),
            name,
        ) == Some(entries@[i].1),
        (forall|j: int| 0 <= j < entries@.len() ==> (#[trigger] entries@[j]).0@ != name)
            ==> search::member(Json::Object(entries), name) is None,
{
    the_first_entry_counts(entries@, name, i);
}

proof fn the_first_entry_counts(entries: Seq<(String, Json)>, name: Seq<char>, i: int)
    ensures
        0 <= i < entries.len() && entries[i].0@ == name && (forall|j: int|
            0 <= j < i ==> (#[trigger] entries[j]).0@ != name) ==> search::entry(entries, name)
            == Some(entries[i].1),
        (forall|j: int| 0 <= j < entries.len() ==> (#[trigger] entries[j]).0@ != name)
            ==> search::entry(entries, name) is None,
    decreases entries.len(),
{
    if entries.len() > 0 {
        let rest = entries.skip(1);
        if forall|j: int| 0 <= j < entries.len() ==> (#[trigger] entries[j]).0@ != name {
            assert forall|j: int| 0 <= j < rest.len() implies (#[trigger] rest[j]).0@ != name by {
                assert(entries[j + 1].0@ != name);
            }
            assert(entries[0].0@ != name);
            the_first_entry_counts(rest, name, -1);
        } else if 0 < i < entries.len() && entries[i].0@ == name && (forall|j: int|
            0 <= j < i ==> (#[trigger] entries[j]).0@ != name) {
            assert forall|j: int| 0 <= j < i - 1 implies (#[trigger] rest[j]).0@ != name by {
                assert(entries[j + 1].0@ != name);
            }
            assert(entries[0].0@ != name);
            the_first_entry_counts(rest, name, i - 1);
        }
    }
}

/// A message is found exactly where it has a sender, a text that is not blank, a time and an id; then
/// it is found with these. The sender goes by their display name, and by their account where they have
/// none.
pub proof fn a_message_is_found_with_what_it_says(value: Json)
    ensures
        ({
            let author = search::member(value, "author"@);
            let shown = match author {
                Some(author) => search::member(author, "global_name"@),
                None => None,
            };
            let account = match author {
                Some(author) => search::member(author, "username"@),
                None => None,
            };
            let said = search::member(value, "content"@);
            let id = search::member(value, "id"@);
            let at = search::member(value, "timestamp"@);
            let found = search::hit(value);
            &&& found is Some <==> (shown matches Some(Json::Text(_)) || (
            account matches Some(Json::Text(_)))) && (said matches Some(Json::Text(said))
                && !text::blank(said@)) && (id matches Some(Json::Text(_))) && (
            at matches Some(Json::Text(at)) && crate::time::rfc3339_reading(at@) is Some)
            &&& found matches Some(found) ==> {
                &&& said matches Some(Json::Text(said)) && found.text == said@
                &&& id matches Some(Json::Text(id)) && found.message_id == id@
                &&& shown matches Some(Json::Text(name)) ==> found.sender_name == name@
                &&& !(shown matches Some(Json::Text(_))) ==> (account matches Some(Json::Text(name))
                    && found.sender_name == name@)
                &&& at matches Some(Json::Text(at)) && (crate::time::rfc3339_reading(
                    at@,
                ) matches Some((secs, nanos)) && found.timestamp == (secs * 1_000_000_000
                    + nanos) as i128)
            }
        }),
{
}

/// Groups are read one after another, each by its first message alone, and what is no message is left
/// out.
pub proof fn groups_are_read_by_their_first(left: Seq<Json>, right: Seq<Json>)
    ensures
        search::hits(left + right) == search::hits(left) + search::hits(right),
        left.len() == 0 ==> search::hits(left).len() == 0,
        left.len() == 1 ==> (left[0] matches Json::Array(inner) ==> inner@.len() > 0 ==> (
        search::hit(inner@[0]) matches Some(found) ==> search::hits(left) == seq![found])),
        left.len() == 1 ==> (left[0] matches Json::Array(inner) ==> inner@.len() > 0 ==> (
        search::hit(inner@[0]) is None ==> search::hits(left).len() == 0)),
        left.len() == 1 ==> (left[0] matches Json::Array(inner) ==> inner@.len() == 0
            ==> search::hits(left).len() == 0),
        left.len() == 1 && !(left[0] is Array) ==> (search::hit(left[0]) matches Some(found)
            ==> search::hits(left) == seq![found]),
        left.len() == 1 && !(left[0] is Array) ==> (search::hit(left[0]) is None ==> search::hits(
            left,
        ).len() == 0),
    decreases right.len(),
{
    if left.len() == 1 {
        assert(left.drop_last() =~= Seq::empty());
        assert(search::hits(left.drop_last()) =~= Seq::empty());
    }
    if right.len() == 0 {
        assert(left + right =~= left);
        assert(search::hits(right) =~= Seq::empty());
    } else {
        groups_are_read_by_their_first(left, right.drop_last());
        assert((left + right).drop_last() =~= left + right.drop_last());
        assert((left + right).last() == right.last());
        assert(search::hits(left + right) =~= search::hits(left) + search::hits(right));
    }
}

/// An answer is read by its messages, and one without any has found nothing.
pub proof fn an_answer_is_read_by_its_messages(body: Json)
    ensures
        search::member(body, "messages"@) matches Some(Json::Array(groups)) ==> search::all_hits(body)
            == search::hits(groups@),
        !(search::member(body, "messages"@) matches Some(Json::Array(_))) ==> search::all_hits(
            body,
        ).len() == 0,
{
}

/// A search asks for as many as were asked for, but at least one and at most twenty-five.
pub proof fn a_search_stays_in_its_bounds(limit: usize)
    ensures
        1 <= search::search_size(limit) <= 25,
        1 <= limit <= 25 ==> search::search_size(limit) == limit,
        limit == 0 ==> search::search_size(limit) == 1,
        limit > 25 ==> search::search_size(limit) == 25,
{
}

/// What a form keeps of a byte tells it apart: letters, digits and four marks are kept, a space is a
/// plus, and every other byte is a percent sign and the two digits of its number to the base sixteen.
pub proof fn a_byte_is_kept_or_numbered(byte: u8)
    ensures
        ({
            let form = search::form_byte(byte);
            let c = byte as char;
            let kept = 'a' <= c <= 'z' || 'A' <= c <= 'Z' || '0' <= c <= '9' || c == '*' || c == '-'
                || c == '.' || c == '_';
            &&& kept ==> form == seq![c]
            &&& c == ' ' ==> form == seq!['+']
            &&& !kept && c != ' ' ==> {
                &&& form.len() == 3
                &&& form[0] == '%'
                &&& sixteenth(form[1]) matches Some(high) && (sixteenth(form[2]) matches Some(low)
                    && high * 16 + low == byte)
            }
        }),
{
}

/// The value of a digit to the base sixteen.
pub open spec fn sixteenth(c: char) -> Option<int> {
    if '0' <= c <= '9' {
        Some(c as int - '0' as int)
    } else if 'A' <= c <= 'F' {
        Some(c as int - 'A' as int + 10)
    } else {
        None
    }
}

/// Bytes are encoded one after another.
pub proof fn bytes_are_encoded_in_order(left: Seq<u8>, right: Seq<u8>, byte: u8)
    ensures
        search::form_encoded(left + right) == search::form_encoded(left) + search::form_encoded(right),
        search::form_encoded(seq![byte]) == search::form_byte(byte),
    decreases right.len(),
{
    assert(seq![byte].drop_last() =~= Seq::empty());
    assert(search::form_encoded(seq![byte].drop_last()) =~= Seq::empty());
    assert(seq![byte].last() == byte);
    assert(search::form_encoded(seq![byte]) =~= search::form_byte(byte));
    if right.len() == 0 {
        assert(left + right =~= left);
        assert(search::form_encoded(left) + search::form_encoded(right) =~= search::form_encoded(
            left,
        ));
    } else {
        bytes_are_encoded_in_order(left, right.drop_last(), byte);
        assert((left + right).drop_last() =~= left + right.drop_last());
        assert((left + right).last() == right.last());
        assert(search::form_encoded(left + right) =~= search::form_encoded(left)
            + search::form_encoded(right));
    }
}

/// A search names the server, the text, the channel and how many, and has the newest sorted by time.
pub proof fn a_search_says_what_is_wanted(
    guild_id: u64,
    channel_id: u64,
    query: Seq<char>,
    limit: usize,
)
    ensures
        1 <= limit <= 25 ==> search::searched_path(guild_id, channel_id, query, limit) == "guilds/"@
            + text::decimal(guild_id as nat) + "/messages/search?content="@ + search::form_encoded(
            vstd::utf8::encode_utf8(query),
        ) + "&channel_id="@ + text::decimal(channel_id as nat) + "&limit="@ + text::decimal(
            limit as nat,
        ) + "&sort_by=timestamp"@,
{
}

} // verus!
