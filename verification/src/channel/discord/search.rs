//! Searching Discord's own record of a channel.

use vstd::prelude::*;
use vstd::string::*;

use crate::channel::discord::DiscordChannel;
use crate::channel::{ChannelError, ChannelErrorView, FoundMessage, FoundView};
use crate::text;
use crate::time::parse_rfc3339;

pub mod laws;

verus! {

/// Most results Discord will return from one search.
pub const MAX_SEARCH_LIMIT: usize = 25;

/// How often a server that is still being indexed is asked.
pub const SEARCH_INDEX_ATTEMPTS: usize = 3;

/// A value of a JSON document. A number is kept as it is written, and an object as its entries.
#[derive(Debug)]
pub enum Json {
    Null,
    Bool(bool),
    Number(String),
    Text(String),
    Array(Vec<Json>),
    Object(Vec<(String, Json)>),
}

/// What a search came to.
#[derive(Debug)]
pub enum SearchStep {
    /// The server has not been indexed yet: ask again after so many seconds.
    Wait(String),
    Found(Vec<FoundMessage>),
}

/// The value of the first entry that goes by a name.
pub open spec fn entry(entries: Seq<(String, Json)>, name: Seq<char>) -> Option<Json>
    decreases entries.len(),
{
    if entries.len() == 0 {
        None
    } else if entries[0].0@ == name {
        Some(entries[0].1)
    } else {
        entry(entries.skip(1), name)
    }
}

/// The value that an object holds under a name. What is no object holds nothing.
pub open spec fn member(value: Json, name: Seq<char>) -> Option<Json> {
    match value {
        Json::Object(entries) => entry(entries@, name),
        _ => None,
    }
}

/// The text that an object holds under a name.
pub open spec fn member_text(value: Json, name: Seq<char>) -> Option<Seq<char>> {
    match member(value, name) {
        Some(Json::Text(found)) => Some(found@),
        _ => None,
    }
}

/// The number that an object holds under a name, as it is written.
pub open spec fn member_number(value: Json, name: Seq<char>) -> Option<Seq<char>> {
    match member(value, name) {
        Some(Json::Number(found)) => Some(found@),
        _ => None,
    }
}

/// The name of whoever wrote a message.
pub open spec fn author_name(value: Json) -> Option<Seq<char>> {
    match member(value, "author"@) {
        Some(author) => match member_text(author, "global_name"@) {
            Some(name) => Some(name),
            None => member_text(author, "username"@),
        },
        None => None,
    }
}

/// When a message was written.
pub open spec fn written_at(value: Json) -> Option<int> {
    match member_text(value, "timestamp"@) {
        Some(raw) => match crate::time::rfc3339_reading(raw) {
            Some((secs, nanos)) => Some(crate::time::moment(secs, nanos)),
            None => None,
        },
        None => None,
    }
}

/// One search hit: there is none without an author, a text that is not blank, a time and an id.
pub open spec fn hit(value: Json) -> Option<FoundView> {
    match (
        author_name(value),
        member_text(value, "content"@),
        written_at(value),
        member_text(value, "id"@),
    ) {
        (Some(sender_name), Some(text), Some(timestamp), Some(message_id)) => if text::blank(text) {
            None
        } else {
            Some(FoundView { message_id, sender_name, text, timestamp: timestamp as i128 })
        },
        _ => None,
    }
}

/// The message that a group of results stands for: the first of them, or the group itself where it
/// is none.
pub open spec fn head_of(group: Json) -> Option<Json> {
    match group {
        Json::Array(inner) => if inner@.len() > 0 {
            Some(inner@[0])
        } else {
            None
        },
        _ => Some(group),
    }
}

/// The hits of a list of groups, in order.
pub open spec fn hits(groups: Seq<Json>) -> Seq<FoundView>
    decreases groups.len(),
{
    if groups.len() == 0 {
        Seq::empty()
    } else {
        let before = hits(groups.drop_last());
        match head_of(groups.last()) {
            Some(value) => match hit(value) {
                Some(found) => before.push(found),
                None => before,
            },
            None => before,
        }
    }
}

/// The hits of a response.
pub open spec fn all_hits(body: Json) -> Seq<FoundView> {
    match member(body, "messages"@) {
        Some(Json::Array(groups)) => hits(groups@),
        _ => Seq::empty(),
    }
}

/// The refusal of a search that the server was never indexed for.
pub open spec fn never_indexed(id: Seq<char>) -> ChannelErrorView {
    ChannelErrorView::Delivery {
        channel: id,
        message: "Discord is still indexing this server, so its own search cannot answer yet. Try \
                  again shortly."@,
    }
}

/// How many results are asked for.
pub open spec fn search_size(limit: usize) -> usize {
    if limit < 1 {
        1
    } else if limit > MAX_SEARCH_LIMIT {
        MAX_SEARCH_LIMIT
    } else {
        limit
    }
}

/// The hexadecimal digit of a number below sixteen.
pub open spec fn hex_digit(n: u8) -> char {
    if n < 10 {
        ('0' as u32 + n as u32) as char
    } else {
        ('A' as u32 + (n - 10)) as char
    }
}

/// What a byte is written as in a query.
pub open spec fn form_byte(byte: u8) -> Seq<char> {
    let c = byte as char;
    if 'a' <= c <= 'z' || 'A' <= c <= 'Z' || '0' <= c <= '9' || c == '*' || c == '-' || c == '.' || c
        == '_' {
        seq![c]
    } else if c == ' ' {
        seq!['+']
    } else {
        seq!['%', hex_digit(byte / 16), hex_digit(byte % 16)]
    }
}

/// What bytes are written as in a query.
pub open spec fn form_encoded(bytes: Seq<u8>) -> Seq<char>
    decreases bytes.len(),
{
    if bytes.len() == 0 {
        Seq::empty()
    } else {
        form_encoded(bytes.drop_last()) + form_byte(bytes.last())
    }
}

/// `url::form_urlencoded::byte_serialize`, collected: letters, digits and `*-._` stand for
/// themselves, a space is a plus sign, and every other byte is a percent sign and its two digits.
#[verifier::external_body]
fn form_encode(bytes: &[u8]) -> (encoded: String)
    ensures
        encoded@ == form_encoded(bytes@),
{
    url::form_urlencoded::byte_serialize(bytes).collect()
}

/// The path and query of one search request.
pub open spec fn searched_path(
    guild_id: u64,
    channel_id: u64,
    query: Seq<char>,
    limit: usize,
) -> Seq<char> {
    "guilds/"@ + text::decimal(guild_id as nat) + "/messages/search?content="@ + form_encoded(
        vstd::utf8::encode_utf8(query),
    ) + "&channel_id="@ + text::decimal(channel_id as nat) + "&limit="@ + text::decimal(
        search_size(limit) as nat,
    ) + "&sort_by=timestamp"@
}

fn get<'a>(value: &'a Json, name: &str) -> (found: Option<&'a Json>)
    ensures
        match found {
            Some(found) => member(*value, name@) == Some(*found),
            None => member(*value, name@) is None,
        },
{
    match value {
        Json::Object(entries) => {
            let mut i: usize = 0;
            assert(entries@.skip(0) =~= entries@);
            while i < entries.len()
                invariant
                    i <= entries.len(),
                    *value == Json::Object(*entries),
                    entry(entries@, name@) == entry(entries@.skip(i as int), name@),
                decreases entries.len() - i,
            {
                assert(entries@.skip(i as int)[0] == entries@[i as int]);
                assert(entries@.skip(i as int).skip(1) =~= entries@.skip(i + 1));
                if text::same(entries[i].0.as_str(), name) {
                    return Some(&entries[i].1);
                }
                i += 1;
            }
            None
        },
        _ => None,
    }
}

fn get_text(value: &Json, name: &str) -> (found: Option<String>)
    ensures
        found.deep_view() == member_text(*value, name@),
{
    match get(value, name) {
        Some(Json::Text(found)) => Some(found.as_str().to_owned()),
        _ => None,
    }
}

fn sender_of(value: &Json) -> (name: Option<String>)
    ensures
        name.deep_view() == author_name(*value),
{
    match get(value, "author") {
        Some(author) => match get_text(author, "global_name") {
            Some(name) => Some(name),
            None => get_text(author, "username"),
        },
        None => None,
    }
}

/// One search hit, from the JSON Discord returned.
///
/// Anything without an author, text, and a time is skipped rather than filled in with placeholders:
/// a result the agent cannot attribute is worse than one fewer result.
pub fn found_message(value: &Json) -> (found: Option<FoundMessage>)
    ensures
        found.deep_view() == hit(*value),
{
    let sender_name = match sender_of(value) {
        Some(name) => name,
        None => return None,
    };
    let content = match get_text(value, "content") {
        Some(content) => content,
        None => return None,
    };
    if text::is_blank(content.as_str()) {
        return None;
    }
    let raw = match get_text(value, "timestamp") {
        Some(raw) => raw,
        None => return None,
    };
    let timestamp: i128 = match parse_rfc3339(raw.as_str()) {
        Some(timestamp) => timestamp,
        None => return None,
    };
    match get_text(value, "id") {
        Some(message_id) => Some(FoundMessage { message_id, sender_name, text: content, timestamp }),
        None => None,
    }
}

fn collect(groups: &Vec<Json>) -> (found: Vec<FoundMessage>)
    ensures
        found.deep_view() == hits(groups@),
{
    let mut found: Vec<FoundMessage> = Vec::new();
    let mut i: usize = 0;
    assert(groups@.take(0) =~= Seq::empty());
    assert(found.deep_view() =~= Seq::empty());
    while i < groups.len()
        invariant
            i <= groups.len(),
            found.deep_view() == hits(groups@.take(i as int)),
        decreases groups.len() - i,
    {
        let ghost taken = found.deep_view();
        assert(groups@.take(i + 1).drop_last() =~= groups@.take(i as int));
        assert(groups@.take(i + 1).last() == groups@[i as int]);
        let head = match &groups[i] {
            Json::Array(inner) => if inner.len() > 0 {
                Some(&inner[0])
            } else {
                None
            },
            _ => Some(&groups[i]),
        };
        match head {
            Some(value) => match found_message(value) {
                Some(message) => {
                    found.push(message);
                    assert(found.deep_view() =~= taken.push(message.deep_view()));
                },
                None => {},
            },
            None => {},
        }
        i += 1;
    }
    assert(groups@.take(i as int) =~= groups@);
    found
}

impl DiscordChannel {
    /// The path and query of one search request.
    pub fn search_path(&self, guild_id: u64, channel_id: u64, query: &str, limit: usize) -> (path:
        String)
        ensures
            path@ == searched_path(guild_id, channel_id, query@, limit),
    {
        let limit: usize = if limit < 1 {
            1
        } else if limit > MAX_SEARCH_LIMIT {
            MAX_SEARCH_LIMIT
        } else {
            limit
        };
        let encoded = form_encode(query.as_bytes());
        "guilds/".to_owned().concat(text::number(guild_id).as_str()).concat(
            "/messages/search?content=",
        ).concat(encoded.as_str()).concat("&channel_id=").concat(
            text::number(channel_id).as_str(),
        ).concat("&limit=").concat(text::number(limit as u64).as_str()).concat("&sort_by=timestamp")
    }

    /// Whether this channel can search at all.
    pub fn search_messages(&self) -> (able: Result<(), ChannelError>)
        ensures
            match able {
                Ok(_) => self.message_content,
                Err(error) => !self.message_content && error.deep_view() == (
                ChannelErrorView::Unsupported {
                    channel: self.id@,
                    feature: "searching Discord's own history without the message content intent"@,
                }),
            },
    {
        if self.message_content {
            Ok(())
        } else {
            Err(
                ChannelError::unsupported(
                    self.id.as_str(),
                    "searching Discord's own history without the message content intent",
                ),
            )
        }
    }

    /// What the answer to one search request comes to.
    ///
    /// A server that has not been indexed yet answers 200-shaped but with an error code and a time
    /// to retry after rather than results. Reporting "nothing found" then would be a lie.
    pub fn search_guild(&self, body: &Json, attempt: usize) -> (step: Result<SearchStep, ChannelError>)
        requires
            attempt < SEARCH_INDEX_ATTEMPTS,
        ensures
            match step {
                Ok(SearchStep::Wait(after)) => {
                    &&& member_number(*body, "retry_after"@) == Some(after@)
                    &&& attempt + 1 < SEARCH_INDEX_ATTEMPTS
                },
                Ok(SearchStep::Found(found)) => {
                    &&& member_number(*body, "retry_after"@) is None
                    &&& found.deep_view() == all_hits(*body)
                },
                Err(error) => {
                    &&& member_number(*body, "retry_after"@) is Some
                    &&& attempt + 1 == SEARCH_INDEX_ATTEMPTS
                    &&& error.deep_view() == never_indexed(self.id@)
                },
            },
    {
        match get(body, "retry_after") {
            Some(Json::Number(after)) => {
                if attempt + 1 == SEARCH_INDEX_ATTEMPTS {
                    return Err(
                        ChannelError::delivery(
                            self.id.as_str(),
                            "Discord is still indexing this server, so its own search cannot answer \
                             yet. Try again shortly.",
                        ),
                    );
                }
                return Ok(SearchStep::Wait(after.as_str().to_owned()));
            },
            _ => {},
        }
        // The messages are an array of arrays: the inner one used to carry surrounding context and
        // now holds the single match.
        match get(body, "messages") {
            Some(Json::Array(groups)) => Ok(SearchStep::Found(collect(groups))),
            _ => {
                let found: Vec<FoundMessage> = Vec::new();
                assert(found.deep_view() =~= Seq::empty());
                Ok(SearchStep::Found(found))
            },
        }
    }
}

} // verus!
