//! What chats, people and failures are called, stated word for word.

use vstd::prelude::*;

use crate::channel::ids;
use crate::channel::{
    Admission, Attachment, ChannelError, ChannelErrorView, ChatKind, EventView, ForwardOrigin,
    ForwardView, FoundMessage, InboundEvent, InboundMessage, MemberAction, MemberInfo, ReplyContext,
    Sender,
};
use crate::text;

verus! {

/// Each shape of chat has its own word.
pub proof fn each_shape_has_its_word()
    ensures
        super::kind_name(ChatKind::Direct) == "direct"@,
        super::kind_name(ChatKind::Group) == "group"@,
        super::kind_name(ChatKind::Channel) == "channel"@,
        super::kind_name(ChatKind::Unknown) == "unknown"@,
{
}

/// Why somebody is let in is told apart, and an open channel says that nobody vetted them.
pub proof fn each_reason_is_said()
    ensures
        super::admission_text(Admission::User) == "user allowlist"@,
        super::admission_text(Admission::Role) == "holds a role you allow"@,
        super::admission_text(Admission::Chat) == "chat allowlist"@,
        super::admission_text(Admission::Server) == "server allowlist"@,
        super::admission_text(Admission::Open) == "open channel, nobody vetted them"@,
{
}

/// Only a restriction and a ban may come to an end by themselves.
pub proof fn only_a_restriction_and_a_ban_end(action: MemberAction)
    ensures
        super::can_expire(action) <==> action is Restrict || action is Ban,
        super::can_expire(action) <==> !(action is Unrestrict || action is Unban || action is Kick),
{
}

/// A failure names its channel, what went wrong and the reason, each kind in its own words.
pub proof fn a_failure_says_what_went_wrong(name: Seq<char>, why: Seq<char>)
    ensures
        super::channel_reported(ChannelErrorView::Setup { channel: name, message: why })
            == "channel "@ + name + " could not be set up: "@ + why,
        super::channel_reported(ChannelErrorView::Auth { channel: name, message: why })
            == "channel "@ + name + " could not authenticate: "@ + why,
        super::channel_reported(ChannelErrorView::Delivery { channel: name, message: why })
            == "channel "@ + name + " could not deliver: "@ + why,
        super::channel_reported(ChannelErrorView::Transport { channel: name, message: why })
            == "channel "@ + name + " lost its connection: "@ + why,
        super::channel_reported(ChannelErrorView::InvalidConversation { id: name, reason: why })
            == "conversation "@ + name + " is not valid: "@ + why,
        super::channel_reported(ChannelErrorView::Unsupported { channel: name, feature: why })
            == "channel "@ + name + " does not support "@ + why,
{
}

/// What is read as a conversation is written back as it was read, and none of its parts is empty. Text
/// without a separator is no conversation.
pub proof fn a_conversation_is_written_as_it_was_read(said: Seq<char>)
    ensures
        ids::conversation_named(said) matches Some(id) ==> {
            &&& ids::conversation_text(id) == said
            &&& id.channel.len() > 0 && id.chat.len() > 0
            &&& !id.channel.contains(':') && !id.chat.contains(':')
            &&& id.thread matches Some(thread) ==> thread.len() > 0
        },
        !said.contains(':') ==> ids::conversation_named(said) is None,
{
    reveal_strlit(":");
    assert(":"@ =~= seq![':']);
    text::laws::a_text_is_cut_at_the_first(said, ':');
    if let Some((channel, rest)) = text::parts_at(said, ':') {
        text::laws::a_text_is_cut_at_the_first(rest, ':');
        if let Some((chat, thread)) = text::parts_at(rest, ':') {
            assert(said =~= channel + ":"@ + chat + ":"@ + thread);
        }
    }
}

/// A conversation is written as its channel, its chat and its thread, with colons between them.
pub proof fn a_conversation_is_written_with_colons(id: ids::ConversationView)
    ensures
        id.thread is None ==> ids::conversation_text(id) == id.channel + seq![':'] + id.chat,
        id.thread matches Some(thread) ==> ids::conversation_text(id) == id.channel + seq![':']
            + id.chat + seq![':'] + thread,
{
    reveal_strlit(":");
    assert(":"@ =~= seq![':']);
}

/// The limits of the platforms: how long a message, a caption and an excerpt may be, how many files go
/// at once, how many members and hits a page has, and how long a channel may be slowed down.
pub proof fn the_platforms_have_these_limits()
    ensures
        crate::channel::discord::render::MESSAGE_LIMIT == 2000,
        crate::channel::telegram::render::MESSAGE_LIMIT == 4096,
        crate::channel::telegram::render::CAPTION_LIMIT == 1024,
        crate::channel::discord::REPLY_EXCERPT_CHARS == 160,
        crate::channel::telegram::REPLY_EXCERPT_CHARS == 160,
        crate::channel::discord::outgoing::MAX_ATTACHMENTS == 10,
        crate::channel::telegram::outgoing::MAX_ALBUM_ITEMS == 10,
        crate::channel::discord::members::MAX_MEMBER_PAGE == 1000,
        crate::channel::discord::search::MAX_SEARCH_LIMIT == 25,
        crate::channel::discord::search::SEARCH_INDEX_ATTEMPTS == 3,
        crate::channel::discord::outgoing::MAX_SLOWMODE_SECONDS == 6 * 60 * 60,
        crate::channel::discord::members::MAX_BAN_DELETE_SECONDS == 7 * 24 * 60 * 60,
        crate::channel::discord::members::MAX_TIMEOUT == 28 * 24 * 60 * 60 * 1_000_000_000,
        crate::channel::telegram::members::MIN_RESTRICTION == 30 * 1_000_000_000,
        crate::channel::telegram::members::MAX_RESTRICTION == 366 * 24 * 60 * 60 * 1_000_000_000,
        crate::channel::telegram::POLL_RESPONSE_MARGIN_SECS == 15,
{
}

/// What is said of a message is said of its own fields, one for one.
pub proof fn a_message_is_viewed_as_it_is(message: InboundMessage)
    ensures
        ({
            let view = message.deep_view();
            &&& view.channel == message.channel@
            &&& view.platform == message.platform
            &&& view.conversation == message.conversation@
            &&& view.external_id == message.external_id@
            &&& view.message_id == message.message_id@
            &&& view.chat_kind == message.chat_kind
            &&& view.chat_title is Some <==> message.chat_title is Some
            &&& message.chat_title matches Some(title) ==> view.chat_title == Some(title@)
            &&& view.sender == message.sender.deep_view()
            &&& view.admission == message.admission
            &&& view.sender_allowlisted == message.sender_allowlisted
            &&& view.addressed == message.addressed
            &&& view.sender_roles == message.sender_roles.deep_view()
            &&& view.text == message.text@
            &&& view.reply_to is Some <==> message.reply_to is Some
            &&& message.reply_to matches Some(reply) ==> view.reply_to == Some(reply.deep_view())
            &&& view.edited_at == message.edited_at
            &&& view.forwarded_from is Some <==> message.forwarded_from is Some
            &&& message.forwarded_from matches Some(origin) ==> view.forwarded_from == Some(
                origin.deep_view(),
            )
            &&& view.group_id is Some <==> message.group_id is Some
            &&& message.group_id matches Some(group) ==> view.group_id == Some(group@)
            &&& view.attachments.len() == message.attachments@.len()
            &&& forall|i: int|
                0 <= i < message.attachments@.len() ==> #[trigger] view.attachments[i]
                    == message.attachments@[i].deep_view()
            &&& view.notes == message.notes.deep_view()
            &&& view.arrived_mid_turn == message.arrived_mid_turn
            &&& view.timestamp == message.timestamp
        }),
{
}

/// What is said of a file is said of its own fields, one for one.
pub proof fn a_file_is_viewed_as_it_is(file: Attachment)
    ensures
        ({
            let view = file.deep_view();
            &&& view.kind == file.kind
            &&& view.file_name is Some <==> file.file_name is Some
            &&& file.file_name matches Some(name) ==> view.file_name == Some(name@)
            &&& view.media_type is Some <==> file.media_type is Some
            &&& file.media_type matches Some(media) ==> view.media_type == Some(media@)
            &&& view.bytes == file.bytes
            &&& view.width == file.width
            &&& view.height == file.height
            &&& view.duration_secs == file.duration_secs
            &&& view.file_ref == file.file_ref@
            &&& view.thumb_ref is Some <==> file.thumb_ref is Some
            &&& file.thumb_ref matches Some(thumb) ==> view.thumb_ref == Some(thumb@)
            &&& view.handle is Some <==> file.handle is Some
            &&& file.handle matches Some(handle) ==> view.handle == Some(handle@)
        }),
{
}

/// What is said of a sender is said of their own fields, one for one.
pub proof fn a_sender_is_viewed_as_they_are(sender: Sender, reply: ReplyContext)
    ensures
        sender.deep_view().id == sender.id@,
        sender.deep_view().display_name == sender.display_name@,
        sender.deep_view().username is Some <==> sender.username is Some,
        sender.username matches Some(name) ==> sender.deep_view().username == Some(name@),
        sender.deep_view().is_bot == sender.is_bot,
        sender.deep_view().on_behalf_of_chat == sender.on_behalf_of_chat,
        reply.deep_view().message_id == reply.message_id@,
        reply.deep_view().sender_name is Some <==> reply.sender_name is Some,
        reply.sender_name matches Some(name) ==> reply.deep_view().sender_name == Some(name@),
        reply.deep_view().excerpt is Some <==> reply.excerpt is Some,
        reply.excerpt matches Some(excerpt) ==> reply.deep_view().excerpt == Some(excerpt@),
{
}

/// What is said of an origin is said of the same kind of origin and its own fields.
pub proof fn an_origin_is_viewed_as_it_is(origin: ForwardOrigin)
    ensures
        origin matches ForwardOrigin::User { name, id, username } ==> (
        origin.deep_view() matches ForwardView::User { name: n, id: i, username: u } && n == name@ && i
            == id.deep_view() && u == username.deep_view()),
        origin matches ForwardOrigin::HiddenUser { name } ==> origin.deep_view() == (
        ForwardView::HiddenUser { name: name@ }),
        origin matches ForwardOrigin::Chat { title } ==> origin.deep_view() == (ForwardView::Chat {
            title: title@,
        }),
        origin matches ForwardOrigin::Channel { title, message_id } ==> (
        origin.deep_view() matches ForwardView::Channel { title: t, message_id: m } && t == title@ && m
            == message_id.deep_view()),
{
}

/// What is said of an event is said of the same kind of event and its own fields.
pub proof fn an_event_is_viewed_as_it_is(event: InboundEvent)
    ensures
        event matches InboundEvent::Message(message) ==> event.deep_view() == EventView::Message(
            message.deep_view(),
        ),
        event matches InboundEvent::Typing { conversation, author, timestamp } ==> event.deep_view()
            == (EventView::Typing { conversation: conversation@, author: author@, timestamp }),
        event matches InboundEvent::Retraction { conversation, message_id, timestamp }
            ==> event.deep_view() == (EventView::Retraction {
            conversation: conversation@,
            message_id: message_id@,
            timestamp,
        }),
{
}

/// What is said of a member or of a message found is said of their own fields, one for one.
pub proof fn a_member_is_viewed_as_they_are(member: MemberInfo, found: FoundMessage)
    ensures
        member.deep_view().user_id == member.user_id@,
        member.deep_view().display_name is Some <==> member.display_name is Some,
        member.display_name matches Some(name) ==> member.deep_view().display_name == Some(name@),
        member.deep_view().status == member.status,
        member.deep_view().rights == member.rights@,
        member.deep_view().roles == member.roles.deep_view(),
        member.deep_view().restricted_until == member.restricted_until,
        member.deep_view().presence == member.presence,
        found.deep_view().message_id == found.message_id@,
        found.deep_view().sender_name == found.sender_name@,
        found.deep_view().text == found.text@,
        found.deep_view().timestamp == found.timestamp,
{
}

/// What is said of a failure is said of the same kind of failure and its own fields.
pub proof fn a_failure_is_viewed_as_it_is(error: ChannelError)
    ensures
        error matches ChannelError::Setup { channel, message } ==> error.deep_view() == (
        ChannelErrorView::Setup { channel: channel@, message: message@ }),
        error matches ChannelError::Auth { channel, message } ==> error.deep_view() == (
        ChannelErrorView::Auth { channel: channel@, message: message@ }),
        error matches ChannelError::Delivery { channel, message } ==> error.deep_view() == (
        ChannelErrorView::Delivery { channel: channel@, message: message@ }),
        error matches ChannelError::Transport { channel, message } ==> error.deep_view() == (
        ChannelErrorView::Transport { channel: channel@, message: message@ }),
        error matches ChannelError::InvalidConversation { id, reason } ==> error.deep_view() == (
        ChannelErrorView::InvalidConversation { id: id@, reason: reason@ }),
        error matches ChannelError::Unsupported { channel, feature } ==> error.deep_view() == (
        ChannelErrorView::Unsupported { channel: channel@, feature: feature@ }),
{
}

} // verus!
