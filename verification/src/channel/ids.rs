//! The names of channels and conversations.

use vstd::prelude::*;
use vstd::string::*;

use crate::text;

verus! {

/// The name of a configured channel instance.
#[derive(Debug, PartialEq, Eq)]
pub struct ChannelId {
    name: String,
}

impl View for ChannelId {
    type V = Seq<char>;

    closed spec fn view(&self) -> Seq<char> {
        self.name@
    }
}

impl Clone for ChannelId {
    fn clone(&self) -> (copy: Self)
        ensures
            copy@ == self@,
    {
        ChannelId { name: self.name.clone() }
    }
}

impl ChannelId {
    /// The channel called `name`.
    pub fn new(name: &str) -> (id: ChannelId)
        ensures
            id@ == name@,
    {
        ChannelId { name: name.to_owned() }
    }

    /// The name of this channel.
    pub fn as_str(&self) -> (name: &str)
        ensures
            name@ == self@,
    {
        self.name.as_str()
    }
}

/// Where a message is said: a chat of a channel, or a thread of that chat.
#[derive(Debug, PartialEq, Eq)]
pub struct ConversationId {
    channel: String,
    chat: String,
    thread: Option<String>,
    text: String,
}

/// What a [`ConversationId`] names.
#[verifier::ext_equal]
pub struct ConversationView {
    pub channel: Seq<char>,
    pub chat: Seq<char>,
    pub thread: Option<Seq<char>>,
}

impl View for ConversationId {
    type V = ConversationView;

    closed spec fn view(&self) -> ConversationView {
        ConversationView {
            channel: self.channel@,
            chat: self.chat@,
            thread: self.thread.deep_view(),
        }
    }
}

/// A conversation in the `<channel>:<chat>` or `<channel>:<chat>:<thread>` form.
pub open spec fn conversation_text(id: ConversationView) -> Seq<char> {
    match id.thread {
        Some(thread) => id.channel + ":"@ + id.chat + ":"@ + thread,
        None => id.channel + ":"@ + id.chat,
    }
}

/// The conversation that a text names, where every one of its parts is there.
pub open spec fn conversation_named(text: Seq<char>) -> Option<ConversationView> {
    match text::parts_at(text, ':') {
        None => None,
        Some((channel, rest)) => if channel.len() == 0 || rest.len() == 0 {
            None
        } else {
            match text::parts_at(rest, ':') {
                None => Some(ConversationView { channel, chat: rest, thread: None }),
                Some((chat, thread)) => if chat.len() == 0 || thread.len() == 0 {
                    None
                } else {
                    Some(ConversationView { channel, chat, thread: Some(thread) })
                },
            }
        },
    }
}

impl Clone for ConversationId {
    fn clone(&self) -> (copy: Self)
        ensures
            copy@ == self@,
    {
        proof {
            use_type_invariant(&*self);
        }
        ConversationId {
            channel: self.channel.clone(),
            chat: self.chat.clone(),
            thread: text::copied(&self.thread),
            text: self.text.clone(),
        }
    }
}

impl ConversationId {
    #[verifier::type_invariant]
    spec fn spelled(self) -> bool {
        self.text@ == conversation_text(self@)
    }

    /// The conversation in `chat` of `channel`, or in a thread of it.
    pub fn new(channel: &ChannelId, chat: &str, thread: Option<&str>) -> (id: ConversationId)
        ensures
            id@ == (ConversationView {
                channel: channel@,
                chat: chat@,
                thread: thread.deep_view(),
            }),
    {
        let start = channel.name.clone().concat(":").concat(chat);
        let text = match thread {
            Some(thread) => start.concat(":").concat(thread),
            None => start,
        };
        ConversationId {
            channel: channel.name.clone(),
            chat: chat.to_owned(),
            thread: text::owned(thread),
            text,
        }
    }

    /// Reads the `<channel>:<chat>` or `<channel>:<chat>:<thread>` form.
    pub fn parse(text: &str) -> (id: Option<ConversationId>)
        ensures
            match id {
                Some(id) => conversation_named(text@) == Some(id@),
                None => conversation_named(text@) is None,
            },
    {
        let (channel, rest) = match text::split_once(text, ':') {
            Some(parts) => parts,
            None => {
                return None;
            },
        };
        if is_empty(channel.as_str()) || is_empty(rest.as_str()) {
            return None;
        }
        match text::split_once(rest.as_str(), ':') {
            None => Some(
                ConversationId::new(&ChannelId { name: channel }, rest.as_str(), None),
            ),
            Some((chat, thread)) => if is_empty(chat.as_str()) || is_empty(thread.as_str()) {
                None
            } else {
                Some(
                    ConversationId::new(
                        &ChannelId { name: channel },
                        chat.as_str(),
                        Some(thread.as_str()),
                    ),
                )
            },
        }
    }

    /// This conversation in the form that [`ConversationId::parse`] reads.
    pub fn as_str(&self) -> (text: &str)
        ensures
            text@ == conversation_text(self@),
    {
        proof {
            use_type_invariant(&*self);
        }
        self.text.as_str()
    }

    /// The channel of this conversation.
    pub fn channel(&self) -> (channel: &str)
        ensures
            channel@ == self@.channel,
    {
        self.channel.as_str()
    }

    /// The chat of this conversation.
    pub fn chat(&self) -> (chat: &str)
        ensures
            chat@ == self@.chat,
    {
        self.chat.as_str()
    }

    /// The thread of this conversation, where it is in one.
    pub fn thread(&self) -> (thread: Option<&str>)
        ensures
            thread.deep_view() == self@.thread,
    {
        match &self.thread {
            Some(thread) => Some(thread.as_str()),
            None => None,
        }
    }
}

fn is_empty(text: &str) -> (empty: bool)
    ensures
        empty == (text@.len() == 0),
{
    text::chars_of(text).len() == 0
}

/// Whether the parts of a conversation can be told apart again in its text form.
pub open spec fn separable(id: ConversationView) -> bool {
    &&& id.channel.len() > 0 && !id.channel.contains(':')
    &&& id.chat.len() > 0 && !id.chat.contains(':')
    &&& id.thread matches Some(thread) ==> thread.len() > 0
}

proof fn splitting_undoes_joining(before: Seq<char>, after: Seq<char>)
    requires
        !before.contains(':'),
    ensures
        text::parts_at(before + ":"@ + after, ':') == Some((before, after)),
{
    reveal_strlit(":");
    let whole = before + ":"@ + after;
    text::until_is_a_prefix(whole, ':');
    let at = text::until(whole, ':').len() as int;
    assert(whole[before.len() as int] == ':');
    if at > before.len() {
        assert(whole[before.len() as int] != ':');
    }
    if at < before.len() {
        assert(whole[at] == before[at]);
        assert(before.contains(':'));
    }
    assert(text::until(whole, ':') =~= before);
    assert(whole.skip((before.len() + 1) as int) =~= after);
}

/// Reading a conversation's text form gives the conversation back, for every one whose channel and
/// chat hold no separator and whose parts are not empty.
pub proof fn a_conversation_survives_its_text_form(id: ConversationView)
    requires
        separable(id),
    ensures
        conversation_named(conversation_text(id)) == Some(id),
{
    reveal_strlit(":");
    match id.thread {
        Some(thread) => {
            let rest = id.chat + ":"@ + thread;
            splitting_undoes_joining(id.channel, rest);
            splitting_undoes_joining(id.chat, thread);
            assert(conversation_text(id) =~= id.channel + ":"@ + rest);
        },
        None => {
            splitting_undoes_joining(id.channel, id.chat);
            text::until_is_a_prefix(id.chat, ':');
            let at = text::until(id.chat, ':').len() as int;
            if at < id.chat.len() {
                assert(id.chat[at] == ':');
            }
        },
    }
}

} // verus!
