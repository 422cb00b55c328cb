//! Telegram: who is heard, what was aimed at the bot, and what becomes of a message.

use vstd::prelude::*;
use vstd::string::*;

use crate::channel::ids::{ChannelId, ConversationId, ConversationView};
use crate::channel::telegram::message::{
    describe_content, display_name, forward_origin, Chat, ChatShape, Entity, EntityKind, Message,
    Replied, User,
};
use crate::channel::{
    Admission, ChannelCapabilities, ChannelError, ChannelErrorView, ChannelIdentity, ChatKind,
    EventView, InboundEvent, InboundMessage, InboundView, Platform, ReplyContext, ReplyView, Sender,
    SenderView, SentMessage,
};
use crate::config::{TelegramConfig, TelegramParseMode};
use crate::render::verbatim;
use crate::text;
use crate::time::{whole_seconds, Duration, Instant};

pub mod laws;
pub mod markup;
pub mod members;
pub mod message;
pub mod outgoing;
pub mod render;

verus! {

/// Longest excerpt kept from a replied-to message, enough for the agent to know what is being
/// referenced without pasting an entire prior message into the turn.
pub const REPLY_EXCERPT_CHARS: usize = 160;

/// How many seconds longer the HTTP client waits than the long poll it is carrying.
///
/// Asking for updates holds the connection open until an update arrives or the poll's own timeout
/// elapses, so the client's timeout has to outlast it. The margin covers writing the empty response
/// back over a slow link, not a retry.
pub const POLL_RESPONSE_MARGIN_SECS: u64 = 15;

/// Who the bot is, as far as deciding whether a message was aimed at it.
///
/// Resolved once at startup rather than per message. Telegram identifies a bot in message text by
/// username and offers no id form there.
#[derive(Debug)]
pub struct BotIdentity {
    pub id: u64,
    pub username: Option<String>,
}

/// A Telegram bot, and what it knows.
pub struct TelegramChannel {
    pub id: ChannelId,
    pub allowed_users: Vec<i64>,
    pub allowed_chats: Vec<i64>,
    pub allow_all: bool,
    pub admin_tools: bool,
    pub parse_mode: TelegramParseMode,
    pub poll_timeout: Duration,
    /// Filled before the first update is read.
    pub identity: Option<BotIdentity>,
}

/// Something that Telegram announced.
#[derive(Debug)]
pub enum Update {
    Message(Message),
    EditedMessage(Message),
    /// The bot was added to a chat or removed from it.
    MyChatMember { chat_id: i64, title: Option<String>, present: bool },
    Other,
}

/// Why a message is let through, if it is.
///
/// The lists are checked in descending order of how much they say about the sender, so somebody who
/// qualifies under more than one is reported at the strongest. That ordering is why being open comes
/// last: an open channel can still name the people it knows.
pub open spec fn admitted(
    channel: TelegramChannel,
    user_id: Option<i64>,
    chat_id: i64,
    direct: bool,
) -> Option<Admission> {
    if direct && recognised(channel, user_id) {
        Some(Admission::User)
    } else if channel.allowed_chats@.contains(chat_id) {
        Some(Admission::Chat)
    } else if channel.allow_all {
        Some(Admission::Open)
    } else {
        None
    }
}

/// Whether somebody is allowlisted, wherever they wrote.
pub open spec fn recognised(channel: TelegramChannel, user_id: Option<i64>) -> bool {
    match user_id {
        Some(user_id) => channel.allowed_users@.contains(user_id),
        None => false,
    }
}

/// Whether the characters `from` to `to` of a text are the code units that an entity marks.
pub open spec fn marks(text: Seq<char>, entity: Entity, from: int, to: int) -> bool {
    &&& 0 <= from <= to <= text.len()
    &&& verbatim::utf16_units(text.take(from)) == entity.offset
    &&& verbatim::utf16_units(text.take(to)) == entity.offset + entity.length
}

/// Whether an entity marks whole characters of a text.
pub open spec fn well_placed(text: Seq<char>, entity: Entity) -> bool {
    exists|from: int, to: int| marks(text, entity, from, to)
}

/// The stretch of a text that an entity marks.
pub open spec fn marked_text(text: Seq<char>, entity: Entity) -> Seq<char> {
    let (from, to) = choose|from: int, to: int| marks(text, entity, from, to);
    text.subrange(from, to)
}

/// Whether a message's entities mark whole characters of its text or caption.
pub open spec fn entities_fit(message: Message) -> bool {
    &&& message.text matches Some(text) ==> forall|i: int|
        0 <= i < message.entities@.len() ==> well_placed(text@, #[trigger] message.entities@[i])
    &&& message.caption matches Some(caption) ==> forall|i: int|
        0 <= i < message.caption_entities@.len() ==> well_placed(
            caption@,
            #[trigger] message.caption_entities@[i],
        )
}

/// `text` without the at signs it starts with.
pub open spec fn without_at(text: Seq<char>) -> Seq<char>
    decreases text.len(),
{
    if text.len() > 0 && text[0] == '@' {
        without_at(text.skip(1))
    } else {
        text
    }
}

/// Whether a name is the bot's. Telegram usernames are case insensitive, and clients preserve
/// whatever the sender typed.
pub open spec fn called(me: BotIdentity, name: Seq<char>) -> bool {
    match me.username {
        Some(username) => text::alike(name, username@),
        None => false,
    }
}

/// Whether an entity names the bot.
///
/// A bare command is not counted: in a group with several bots it is ambiguous.
pub open spec fn names_bot(me: BotIdentity, text: Seq<char>, entity: Entity) -> bool {
    match entity.kind {
        EntityKind::TextMention { user } => user == me.id,
        EntityKind::Mention => called(me, without_at(marked_text(text, entity))),
        EntityKind::BotCommand => match text::parts_at(marked_text(text, entity), '@') {
            Some((_, target)) => called(me, target),
            None => false,
        },
        EntityKind::Other => false,
    }
}

/// Whether any entity of a text names the bot.
pub open spec fn any_names_bot(me: BotIdentity, text: Option<String>, entities: Seq<Entity>) -> bool {
    match text {
        Some(text) => exists|i: int|
            0 <= i < entities.len() && names_bot(me, text@, #[trigger] entities[i]),
        None => false,
    }
}

/// Whether a message replies to something the bot said.
pub open spec fn replies_to_bot(me: BotIdentity, message: Message) -> bool {
    match message.reply_to {
        Some(replied) => match replied.from {
            Some(user) => user.id == me.id,
            None => false,
        },
        None => false,
    }
}

/// Whether a message was aimed at the bot rather than merely said in front of it.
pub open spec fn aimed(channel: TelegramChannel, message: Message) -> bool {
    message.chat.shape == ChatShape::Private || match channel.identity {
        Some(me) => {
            ||| replies_to_bot(me, message)
            ||| message.via_bot == Some(me.id)
            ||| any_names_bot(me, message.text, message.entities@)
            ||| any_names_bot(me, message.caption, message.caption_entities@)
        },
        None => false,
    }
}

/// Who wrote a message, by the id that admission goes by.
pub open spec fn author_id(message: Message) -> Option<i64> {
    match message.from {
        Some(user) => Some(user.id as i64),
        None => None,
    }
}

/// The conversation that a message belongs to. Only a message of a forum topic is in a thread.
pub open spec fn conversation_of(channel: Seq<char>, message: Message) -> ConversationView {
    ConversationView {
        channel,
        chat: text::signed_decimal(message.chat.id as int),
        thread: match message.thread_id {
            Some(thread) => if message.is_topic_message {
                Some(text::signed_decimal(thread as int))
            } else {
                None
            },
            None => None,
        },
    }
}

/// The shape of a chat.
pub open spec fn shape_of(chat: Chat) -> ChatKind {
    match chat.shape {
        ChatShape::Private => ChatKind::Direct,
        ChatShape::Channel => ChatKind::Channel,
        ChatShape::Group | ChatShape::Supergroup => ChatKind::Group,
    }
}

/// Who sent a message. One with no author was posted as the chat itself: by an anonymous group
/// admin, or as a channel post forwarded into its discussion group.
pub open spec fn sender_of(message: Message) -> SenderView {
    match message.from {
        Some(user) => SenderView {
            id: text::signed_decimal((user.id as i64) as int),
            display_name: message::user_name(user),
            username: user.username.deep_view(),
            is_bot: user.is_bot,
            on_behalf_of_chat: false,
        },
        None => SenderView {
            id: Seq::empty(),
            display_name: text::either(
                message.sender_chat.deep_view(),
                text::either(message.chat.title.deep_view(), "unknown sender"@),
            ),
            username: None,
            is_bot: false,
            on_behalf_of_chat: true,
        },
    }
}

/// A text or, where there is none, a caption.
pub open spec fn words(text: Option<String>, caption: Option<String>) -> Option<Seq<char>> {
    match text {
        Some(text) => Some(text@),
        None => caption.deep_view(),
    }
}

/// What a message replies to.
pub open spec fn reply_of(reply: Option<Replied>) -> Option<ReplyView> {
    match reply {
        Some(replied) => Some(
            ReplyView {
                message_id: text::signed_decimal(replied.id as int),
                sender_name: match replied.from {
                    Some(user) => Some(message::user_name(user)),
                    None => None,
                },
                excerpt: match words(replied.text, replied.caption) {
                    Some(text) => Some(text::shortened(text, REPLY_EXCERPT_CHARS as int)),
                    None => None,
                },
            },
        ),
        None => None,
    }
}

/// What tells a message or an edit of it apart from every other.
///
/// An edit reuses the id of the message it revises, so keying the queue on the bare id would let the
/// dedupe constraint swallow it.
pub open spec fn external_id_of(id: i32, edited_at: Option<Instant>) -> Seq<char> {
    match edited_at {
        Some(at) => text::signed_decimal(id as int) + ":e"@ + text::signed_decimal(
            crate::time::seconds(at as int),
        ),
        None => text::signed_decimal(id as int),
    }
}

/// What becomes of a message: nothing, where its sender is not admitted or it carries nothing for
/// the agent to act on.
pub open spec fn event_of(channel: TelegramChannel, message: Message) -> Option<EventView> {
    let text = text::either(words(message.text, message.caption), Seq::empty());
    let attachments = message::files_of(message.kind);
    let notes = message::notes_of(message.kind);
    match admitted(
        channel,
        author_id(message),
        message.chat.id,
        message.chat.shape == ChatShape::Private,
    ) {
        None => None,
        Some(admission) => if text::blank(text) && attachments.len() == 0 && notes.len() == 0 {
            None
        } else {
            Some(
                EventView::Message(
                    InboundView {
                        channel: channel.id@,
                        platform: Platform::Telegram,
                        conversation: conversation_of(channel.id@, message),
                        external_id: external_id_of(message.id, message.edit_date),
                        message_id: text::signed_decimal(message.id as int),
                        chat_kind: shape_of(message.chat),
                        chat_title: message.chat.title.deep_view(),
                        sender: sender_of(message),
                        admission,
                        sender_allowlisted: recognised(channel, author_id(message)),
                        addressed: aimed(channel, message),
                        sender_roles: Seq::empty(),
                        text,
                        reply_to: reply_of(message.reply_to),
                        edited_at: message.edit_date,
                        forwarded_from: match message.forward_origin {
                            Some(origin) => Some(message::forwarded(origin)),
                            None => None,
                        },
                        group_id: message.media_group_id.deep_view(),
                        attachments,
                        notes,
                        arrived_mid_turn: false,
                        timestamp: message.date,
                    },
                ),
            )
        },
    }
}

/// Whether it takes a message's entities to say whether it was aimed at the bot. In a one-to-one chat
/// it does not, nor where the message answers the bot or came out of its inline mode.
pub open spec fn entities_decide(channel: TelegramChannel, message: Message) -> bool {
    message.chat.shape != ChatShape::Private && match channel.identity {
        Some(me) => !replies_to_bot(me, message) && message.via_bot != Some(me.id),
        None => false,
    }
}

/// Whether a message is one that Telegram can send, as far as that is looked at: its entities mark
/// whole characters where they decide something, and the time it was edited at is a date.
pub open spec fn proper(channel: TelegramChannel, message: Message) -> bool {
    admitted(
        channel,
        author_id(message),
        message.chat.id,
        message.chat.shape == ChatShape::Private,
    ) is Some ==> {
        &&& entities_decide(channel, message) ==> entities_fit(message)
        &&& message.edit_date matches Some(at) ==> crate::time::datable(at as int)
    }
}

/// Where a conversation's messages go, or why they cannot.
pub open spec fn targeted(conversation: ConversationView) -> Result<
    (i64, Option<i32>),
    ChannelErrorView,
> {
    let id = crate::channel::ids::conversation_text(conversation);
    match text::signed_in(conversation.chat, i64::MIN as int, i64::MAX as int) {
        None => Err(
            ChannelErrorView::InvalidConversation {
                id,
                reason: "the chat segment must be a Telegram chat id"@,
            },
        ),
        Some(chat) => match conversation.thread {
            None => Ok((chat as i64, None)),
            Some(raw) => match text::signed_in(raw, i32::MIN as int, i32::MAX as int) {
                Some(thread) => Ok((chat as i64, Some(thread as i32))),
                None => Err(
                    ChannelErrorView::InvalidConversation {
                        id,
                        reason: "the thread segment must be a Telegram topic id"@,
                    },
                ),
            },
        },
    }
}

/// The refusal of a text that is no message id.
pub open spec fn not_a_message(raw: Seq<char>) -> ChannelErrorView {
    ChannelErrorView::InvalidConversation {
        id: raw,
        reason: "a Telegram message id is a number, from the `message:` line of a header"@,
    }
}

/// The refusal of a text that is no user id.
pub open spec fn not_a_user(raw: Seq<char>) -> ChannelErrorView {
    ChannelErrorView::InvalidConversation {
        id: raw,
        reason: "a Telegram user id is a positive number, from the `from:` line of a message \
                 header. Anonymous admins and channel posts have no user id, so they cannot be \
                 moderated this way"@,
    }
}

/// The message id that a text holds.
pub open spec fn message_in(raw: Seq<char>) -> Option<int> {
    text::signed_in(text::trimmed(raw), i32::MIN as int, i32::MAX as int)
}

/// The user id that a text holds.
pub open spec fn user_in(raw: Seq<char>) -> Option<nat> {
    text::unsigned_in(text::trimmed(raw), u64::MAX as nat)
}

/// What is said of the bot being added to a chat or removed from it, and whether an operator should
/// be warned.
///
/// Being added to a chat that is not allowlisted is a warning, because from the outside it looks
/// like the bot is simply ignoring everyone there.
pub open spec fn membership_note(
    channel: TelegramChannel,
    chat_id: i64,
    title: Option<Seq<char>>,
    present: bool,
) -> (bool, Seq<char>) {
    let name = text::debug_quoted(text::either(title, "a private chat"@));
    if !present {
        (false, "removed from "@ + name)
    } else if channel.allowed_chats@.contains(chat_id) {
        (false, "added to "@ + name + ", which is allowlisted"@)
    } else {
        (
            true,
            "added to "@ + name
                + ", which is NOT allowlisted, so everything said there is ignored. Add "@
                + text::signed_decimal(chat_id as int)
                + " to [[channels.telegram]].allowed_chats to let the agent see it."@,
        )
    }
}

/// What becomes of an update. An edit is a message too, and the bot's own membership is an
/// operational fact rather than a message from anybody.
pub open spec fn update_event(channel: TelegramChannel, update: Update) -> Option<EventView> {
    match update {
        Update::Message(message) => event_of(channel, message),
        Update::EditedMessage(message) => event_of(channel, message),
        Update::MyChatMember { .. } => None,
        Update::Other => None,
    }
}

/// Whether an update is one that Telegram can send, as far as that is looked at.
pub open spec fn proper_update(channel: TelegramChannel, update: Update) -> bool {
    match update {
        Update::Message(message) => proper(channel, message),
        Update::EditedMessage(message) => proper(channel, message),
        _ => true,
    }
}

/// A channel that nobody was let into hears nobody.
pub proof fn an_empty_allowlist_admits_nobody(
    channel: TelegramChannel,
    user_id: Option<i64>,
    chat_id: i64,
    direct: bool,
)
    requires
        channel.allowed_users@.len() == 0,
        channel.allowed_chats@.len() == 0,
        !channel.allow_all,
    ensures
        admitted(channel, user_id, chat_id, direct) is None,
{
}

/// Naming a person lets them reach the bot in a direct message and nowhere else: whether they are
/// heard in a group has nothing to do with the list of users.
pub proof fn naming_a_person_reaches_no_group(
    channel: TelegramChannel,
    other: TelegramChannel,
    user_id: Option<i64>,
    chat_id: i64,
)
    requires
        other.allowed_chats == channel.allowed_chats,
        other.allow_all == channel.allow_all,
    ensures
        admitted(channel, user_id, chat_id, false) == admitted(other, user_id, chat_id, false),
{
}

/// Opening a channel only admits more: whoever was admitted still is, and for the same reason.
pub proof fn opening_a_channel_keeps_every_reason(
    channel: TelegramChannel,
    opened: TelegramChannel,
    user_id: Option<i64>,
    chat_id: i64,
    direct: bool,
)
    requires
        opened.allowed_users == channel.allowed_users,
        opened.allowed_chats == channel.allowed_chats,
        opened.allow_all,
        admitted(channel, user_id, chat_id, direct) is Some,
    ensures
        admitted(opened, user_id, chat_id, direct) == admitted(channel, user_id, chat_id, direct),
{
}

/// Nothing from outside the allowlist becomes an event, whatever it holds.
pub proof fn nobody_unadmitted_is_heard(channel: TelegramChannel, message: Message)
    requires
        admitted(
            channel,
            author_id(message),
            message.chat.id,
            message.chat.shape == ChatShape::Private,
        ) is None,
    ensures
        event_of(channel, message) is None,
{
}

/// An edit never has the id of the message it revises, nor that of an edit made in another second.
pub proof fn an_edit_is_no_duplicate(id: i32, at: Instant, other: Option<Instant>)
    requires
        match other {
            Some(other) => crate::time::seconds(at as int) != crate::time::seconds(other as int),
            None => true,
        },
    ensures
        external_id_of(id, Some(at)) != external_id_of(id, other),
{
    reveal_strlit(":e");
    let base = text::signed_decimal(id as int);
    let mine = text::signed_decimal(crate::time::seconds(at as int));
    assert(external_id_of(id, Some(at)).len() == base.len() + 2 + mine.len());
    match other {
        Some(other) => {
            let theirs = text::signed_decimal(crate::time::seconds(other as int));
            if external_id_of(id, Some(at)) == external_id_of(id, Some(other)) {
                assert((base + ":e"@ + mine).skip((base.len() + 2) as int) =~= mine);
                assert((base + ":e"@ + theirs).skip((base.len() + 2) as int) =~= theirs);
                text::numbers_are_told_apart(
                    crate::time::seconds(at as int),
                    crate::time::seconds(other as int),
                );
            }
        },
        None => {},
    }
}

/// Telegram's own parsing of entities: the stretch of `text` that an entity marks, as
/// `teloxide::types::MessageEntityRef::parse` finds it and its `text` hands it out. The offsets count
/// UTF-16 code units, and they have to fall between characters of the text.
#[verifier::external_body]
fn entity_text(text: &str, entity: &Entity) -> (part: String)
    requires
        well_placed(text@, *entity),
    ensures
        forall|from: int, to: int| #[trigger]
            marks(text@, *entity, from, to) ==> part@ == text@.subrange(from, to),
{
    let entities = [teloxide::types::MessageEntity::new(
        teloxide::types::MessageEntityKind::Bold,
        entity.offset,
        entity.length,
    )];
    teloxide::types::MessageEntityRef::parse(text, &entities)[0].text().to_string()
}

fn has_id(ids: &Vec<i64>, id: i64) -> (found: bool)
    ensures
        found == ids@.contains(id),
{
    let mut i: usize = 0;
    while i < ids.len()
        invariant
            i <= ids.len(),
            forall|j: int| 0 <= j < i ==> ids@[j] != id,
        decreases ids.len() - i,
    {
        if ids[i] == id {
            return true;
        }
        i += 1;
    }
    false
}

fn copy_ids(ids: &Vec<i64>) -> (copy: Vec<i64>)
    ensures
        copy@ == ids@,
{
    let mut copy: Vec<i64> = Vec::new();
    let mut i: usize = 0;
    while i < ids.len()
        invariant
            i <= ids.len(),
            copy@ == ids@.take(i as int),
        decreases ids.len() - i,
    {
        copy.push(ids[i]);
        assert(copy@ =~= ids@.take(i + 1));
        i += 1;
    }
    assert(ids@.take(i as int) =~= ids@);
    copy
}

fn strip_at(name: &str) -> (rest: String)
    ensures
        rest@ == without_at(name@),
{
    let chars = text::chars_of(name);
    let mut i: usize = 0;
    assert(chars@.skip(0) =~= chars@);
    while i < chars.len() && chars[i] == '@'
        invariant
            i <= chars@.len(),
            without_at(chars@) == without_at(chars@.skip(i as int)),
        decreases chars@.len() - i,
    {
        assert(chars@.skip(i as int)[0] == chars@[i as int]);
        assert(chars@.skip(i as int).skip(1) =~= chars@.skip(i + 1));
        i += 1;
    }
    let rest = text::slice_of(&chars, i, chars.len());
    assert(chars@.skip(i as int) =~= chars@.subrange(i as int, chars@.len() as int));
    rest
}

impl BotIdentity {
    fn is_called(&self, name: &str) -> (found: bool)
        ensures
            found == called(*self, name@),
    {
        match &self.username {
            Some(username) => text::same_folded(name, username.as_str()),
            None => false,
        }
    }

    fn is_named(&self, text: &str, entity: &Entity) -> (found: bool)
        requires
            well_placed(text@, *entity),
        ensures
            found == names_bot(*self, text@, *entity),
    {
        match entity.kind {
            // Carries a whole account, so this one is an id comparison.
            EntityKind::TextMention { user } => user == self.id,
            EntityKind::Mention => {
                let part = entity_text(text, entity);
                assert(part@ == marked_text(text@, *entity));
                self.is_called(strip_at(part.as_str()).as_str())
            },
            EntityKind::BotCommand => {
                let part = entity_text(text, entity);
                assert(part@ == marked_text(text@, *entity));
                match text::split_once(part.as_str(), '@') {
                    Some((_, target)) => self.is_called(target.as_str()),
                    None => false,
                }
            },
            EntityKind::Other => false,
        }
    }

    fn is_named_in(&self, text: &Option<String>, entities: &Vec<Entity>) -> (found: bool)
        requires
            text matches Some(text) ==> forall|i: int|
                0 <= i < entities@.len() ==> well_placed(text@, #[trigger] entities@[i]),
        ensures
            found == any_names_bot(*self, *text, entities@),
    {
        match text {
            Some(body) => {
                let mut i: usize = 0;
                while i < entities.len()
                    invariant
                        i <= entities.len(),
                        *text == Some(*body),
                        forall|j: int|
                            0 <= j < entities@.len() ==> well_placed(
                                body@,
                                #[trigger] entities@[j],
                            ),
                        forall|j: int|
                            0 <= j < i ==> !names_bot(*self, body@, #[trigger] entities@[j]),
                    decreases entities.len() - i,
                {
                    if self.is_named(body.as_str(), &entities[i]) {
                        assert(names_bot(*self, body@, entities@[i as int]));
                        return true;
                    }
                    i += 1;
                }
                false
            },
            None => false,
        }
    }
}

/// How long the HTTP client waits, given how long a poll may take.
pub fn client_timeout(poll_timeout: &Duration) -> (timeout: Duration)
    requires
        poll_timeout.whole() + POLL_RESPONSE_MARGIN_SECS <= u64::MAX,
    ensures
        timeout.whole() == poll_timeout.whole() + POLL_RESPONSE_MARGIN_SECS,
        timeout.beyond() == poll_timeout.beyond(),
{
    Duration::new(poll_timeout.as_secs() + POLL_RESPONSE_MARGIN_SECS, poll_timeout.subsec_nanos())
}

fn spoken(text: &Option<String>, caption: &Option<String>) -> (said: Option<String>)
    ensures
        said.deep_view() == words(*text, *caption),
{
    match text {
        Some(text) => Some(text.clone()),
        None => text::copied(caption),
    }
}

fn describe_sender(message: &Message) -> (sender: Sender)
    ensures
        sender.deep_view() == sender_of(*message),
{
    match &message.from {
        Some(user) => Sender {
            id: text::signed_number(user.id as i64),
            display_name: display_name(user),
            username: text::copied(&user.username),
            is_bot: user.is_bot,
            on_behalf_of_chat: false,
        },
        None => {
            let name = text::or(&message.chat.title, "unknown sender");
            let sender = Sender {
                id: String::new(),
                display_name: text::or(&message.sender_chat, name.as_str()),
                username: None,
                is_bot: false,
                on_behalf_of_chat: true,
            };
            assert(sender.id@ =~= Seq::empty());
            sender
        },
    }
}

fn describe_reply(reply: &Option<Replied>) -> (context: Option<ReplyContext>)
    ensures
        context.deep_view() == reply_of(*reply),
{
    match reply {
        Some(replied) => {
            let sender_name = match &replied.from {
                Some(user) => Some(display_name(user)),
                None => None,
            };
            let excerpt = match spoken(&replied.text, &replied.caption) {
                Some(said) => Some(text::truncate(said.as_str(), REPLY_EXCERPT_CHARS)),
                None => None,
            };
            Some(
                ReplyContext {
                    message_id: text::signed_number(replied.id as i64),
                    sender_name,
                    excerpt,
                },
            )
        },
        None => None,
    }
}

/// The shape of a chat.
pub fn chat_kind(chat: &Chat) -> (kind: ChatKind)
    ensures
        kind == shape_of(*chat),
{
    match chat.shape {
        ChatShape::Private => ChatKind::Direct,
        ChatShape::Channel => ChatKind::Channel,
        ChatShape::Group | ChatShape::Supergroup => ChatKind::Group,
    }
}

/// Who a sent message is by. A send by the bot itself always carries its account, so only a message
/// posted as the chat has none, which is what a channel post is.
pub open spec fn sent_by(message: Message) -> SenderView {
    match message.from {
        Some(user) => SenderView {
            id: text::decimal(user.id as nat),
            display_name: message::user_name(user),
            username: user.username.deep_view(),
            is_bot: user.is_bot,
            on_behalf_of_chat: false,
        },
        None => SenderView {
            id: Seq::empty(),
            display_name: text::either(message.chat.title.deep_view(), "unknown sender"@),
            username: None,
            is_bot: false,
            on_behalf_of_chat: true,
        },
    }
}

/// Describes a message Telegram just made, as the record of something the bridge sent.
///
/// Read off the response rather than off what was submitted. HTML is only how a body is handed to
/// Telegram, which parses the markup away and stores the text with entities beside it, and that
/// stored form is what every received message is recorded in.
pub fn sent_message(message: &Message) -> (sent: SentMessage)
    ensures
        sent.message_id@ == text::signed_decimal(message.id as int),
        sent.text@ == text::either(words(message.text, message.caption), Seq::empty()),
        sent.sender.deep_view() == sent_by(*message),
        sent.attachments.deep_view() == message::files_of(message.kind),
        sent.notes.deep_view() == message::notes_of(message.kind),
        sent.timestamp == message.date,
{
    let (attachments, notes) = describe_content(&message.kind);
    let sender = match &message.from {
        Some(user) => Sender {
            id: text::number(user.id),
            display_name: display_name(user),
            username: text::copied(&user.username),
            is_bot: user.is_bot,
            on_behalf_of_chat: false,
        },
        None => {
            let sender = Sender {
                id: String::new(),
                display_name: text::or(&message.chat.title, "unknown sender"),
                username: None,
                is_bot: false,
                on_behalf_of_chat: true,
            };
            assert(sender.id@ =~= Seq::empty());
            sender
        },
    };
    SentMessage {
        message_id: text::signed_number(message.id as i64),
        text: said_or_nothing(message),
        sender,
        attachments,
        notes,
        timestamp: message.date,
    }
}

fn said_or_nothing(message: &Message) -> (said: String)
    ensures
        said@ == text::either(words(message.text, message.caption), Seq::empty()),
{
    match spoken(&message.text, &message.caption) {
        Some(said) => said,
        None => {
            let nothing = String::new();
            assert(nothing@ =~= Seq::empty());
            nothing
        },
    }
}

impl TelegramChannel {
    /// A bot that does not know itself yet.
    pub fn new(id: ChannelId, config: &TelegramConfig) -> (channel: TelegramChannel)
        ensures
            channel.id == id,
            channel.allowed_users@ == config.allowed_users@,
            channel.allowed_chats@ == config.allowed_chats@,
            channel.allow_all == config.allow_all,
            channel.admin_tools == config.admin_tools,
            channel.parse_mode == config.parse_mode,
            channel.poll_timeout == config.poll_timeout,
            channel.identity is None,
    {
        TelegramChannel {
            id,
            allowed_users: copy_ids(&config.allowed_users),
            allowed_chats: copy_ids(&config.allowed_chats),
            allow_all: config.allow_all,
            admin_tools: config.admin_tools,
            parse_mode: config.parse_mode,
            poll_timeout: config.poll_timeout,
            identity: None,
        }
    }

    /// Records who the bot is, unless that is known already.
    pub fn identify(&mut self, identity: BotIdentity)
        ensures
            old(self).identity is Some ==> *final(self) == *old(self),
            old(self).identity is None ==> *final(self) == (TelegramChannel {
                identity: Some(identity),
                ..*old(self)
            }),
    {
        if self.identity.is_none() {
            self.identity = Some(identity);
        }
    }

    /// What this channel can do.
    pub fn capabilities(&self) -> (capabilities: ChannelCapabilities)
        ensures
            capabilities == (ChannelCapabilities {
                typing_indicator: true,
                files: true,
                photos: true,
                reactions: true,
                edit: true,
                admin: self.admin_tools,
                presence: false,
                typing_status: false,
                member_rights: self.admin_tools,
                member_roles: false,
            }),
    {
        ChannelCapabilities {
            typing_indicator: true,
            files: true,
            photos: true,
            reactions: true,
            edit: true,
            admin: self.admin_tools,
            // No presence of any kind in the Bot API, so this is not a switch an operator can flip.
            presence: false,
            // Nor any typing status: a bot can send a chat action and never receive one. A Telegram
            // chat is therefore never held waiting for somebody to finish.
            typing_status: false,
            // Telegram grants privileges to a person directly, and has no roles to hand out.
            member_rights: self.admin_tools,
            member_roles: false,
        }
    }

    /// Whether this message was aimed at the bot rather than merely said in front of it.
    ///
    /// Deliberately narrow: this is what wakes a conversation the agent is only half listening to,
    /// so counting the bot's name appearing as ordinary words would turn a mention-only chat back
    /// into every message.
    pub fn addressed(&self, message: &Message) -> (found: bool)
        requires
            entities_decide(*self, *message) ==> entities_fit(*message),
        ensures
            found == aimed(*self, *message),
    {
        // In a one-to-one chat there is nobody else it could be for. Checked before the identity so
        // a direct message still reads as addressed even where the bot never learned who it is.
        if message.chat.shape == ChatShape::Private {
            return true;
        }
        let me = match &self.identity {
            Some(me) => me,
            None => return false,
        };
        // Replying to something the agent said is addressing it, and needs no mention.
        if let Some(replied) = &message.reply_to {
            if let Some(user) = &replied.from {
                if user.id == me.id {
                    return true;
                }
            }
        }
        // Somebody used this bot's inline mode to produce the message.
        if let Some(via) = message.via_bot {
            if via == me.id {
                return true;
            }
        }
        // A message carries text entities or caption entities, never both, so both are consulted and
        // the empty one costs nothing.
        me.is_named_in(&message.text, &message.entities) || me.is_named_in(
            &message.caption,
            &message.caption_entities,
        )
    }

    fn recognises(&self, user_id: Option<i64>) -> (found: bool)
        ensures
            found == recognised(*self, user_id),
    {
        match user_id {
            Some(user_id) => has_id(&self.allowed_users, user_id),
            None => false,
        }
    }

    /// Whether a message may reach the agent, and on what basis.
    ///
    /// A bot token is a public entry point: anyone who learns the bot's name can message it. An
    /// update from outside the allowlist is dropped without a reply, because replying would confirm
    /// to a stranger that the bot is live.
    pub fn admission(&self, user_id: Option<i64>, chat_id: i64, direct: bool) -> (reason: Option<
        Admission,
    >)
        ensures
            reason == admitted(*self, user_id, chat_id, direct),
    {
        // Direct messages only. Somebody allowlisted so they can message the bot privately should
        // not thereby be heard in a group nobody named.
        if direct && self.recognises(user_id) {
            return Some(Admission::User);
        }
        if has_id(&self.allowed_chats, chat_id) {
            return Some(Admission::Chat);
        }
        if self.allow_all {
            return Some(Admission::Open);
        }
        None
    }

    /// What is said of the bot being added to a chat or removed from it, and whether an operator
    /// should be warned.
    pub fn note_membership_change(
        &self,
        chat_id: i64,
        title: &Option<String>,
        present: bool,
    ) -> (note: (bool, String))
        ensures
            (note.0, note.1@) == membership_note(*self, chat_id, title.deep_view(), present),
    {
        let name = text::quoted(text::or(title, "a private chat").as_str());
        if !present {
            return (false, "removed from ".to_owned().concat(name.as_str()));
        }
        let added = "added to ".to_owned().concat(name.as_str());
        if has_id(&self.allowed_chats, chat_id) {
            (false, added.concat(", which is allowlisted"))
        } else {
            (
                true,
                added.concat(
                    ", which is NOT allowlisted, so everything said there is ignored. Add ",
                ).concat(text::signed_number(chat_id).as_str()).concat(
                    " to [[channels.telegram]].allowed_chats to let the agent see it.",
                ),
            )
        }
    }

    /// A failure that Telegram reported.
    pub fn delivery_error(&self, error: &str) -> (refusal: ChannelError)
        ensures
            refusal.deep_view() == (ChannelErrorView::Delivery {
                channel: self.id@,
                message: error@,
            }),
    {
        ChannelError::delivery(self.id.as_str(), error)
    }

    /// A failure to prove who the bot is.
    pub fn auth_error(&self, error: &str) -> (refusal: ChannelError)
        ensures
            refusal.deep_view() == (ChannelErrorView::Auth { channel: self.id@, message: error@ }),
    {
        ChannelError::auth(self.id.as_str(), error)
    }

    /// The updates ended without anybody having asked for it.
    pub fn stream_ended(&self) -> (refusal: ChannelError)
        ensures
            refusal.deep_view() == (ChannelErrorView::Transport {
                channel: self.id@,
                message: "the update stream ended unexpectedly"@,
            }),
    {
        ChannelError::transport(self.id.as_str(), "the update stream ended unexpectedly")
    }

    /// Resolves a conversation id into the chat and optional forum topic it names.
    pub fn target(&self, conversation: &ConversationId) -> (target: Result<
        (i64, Option<i32>),
        ChannelError,
    >)
        ensures
            match target {
                Ok(target) => targeted(conversation@) == Ok::<
                    (i64, Option<i32>),
                    ChannelErrorView,
                >(target),
                Err(error) => targeted(conversation@) == Err::<
                    (i64, Option<i32>),
                    ChannelErrorView,
                >(error.deep_view()),
            },
    {
        let chat: i64 = match text::parse_i64(conversation.chat()) {
            Some(chat) => chat,
            None => {
                return Err(
                    ChannelError::invalid(
                        conversation.as_str(),
                        "the chat segment must be a Telegram chat id",
                    ),
                );
            },
        };
        match conversation.thread() {
            None => Ok((chat, None)),
            Some(raw) => match text::parse_i32(raw) {
                Some(thread) => Ok((chat, Some(thread))),
                None => Err(
                    ChannelError::invalid(
                        conversation.as_str(),
                        "the thread segment must be a Telegram topic id",
                    ),
                ),
            },
        }
    }

    /// Reads a message id that the agent supplied.
    pub fn message_id(&self, raw: &str) -> (message: Result<i32, ChannelError>)
        ensures
            match message {
                Ok(message) => message_in(raw@) == Some(message as int),
                Err(error) => message_in(raw@) is None && error.deep_view() == not_a_message(raw@),
            },
    {
        match text::parse_i32(text::trim(raw).as_str()) {
            Some(message) => Ok(message),
            None => Err(
                ChannelError::invalid(
                    raw,
                    "a Telegram message id is a number, from the `message:` line of a header",
                ),
            ),
        }
    }

    /// Reads a user id that the agent supplied.
    pub fn user_id(&self, raw: &str) -> (user: Result<u64, ChannelError>)
        ensures
            match user {
                Ok(user) => user_in(raw@) == Some(user as nat),
                Err(error) => user_in(raw@) is None && error.deep_view() == not_a_user(raw@),
            },
    {
        match text::parse_u64(text::trim(raw).as_str()) {
            Some(user) => Ok(user),
            None => Err(
                ChannelError::invalid(
                    raw,
                    "a Telegram user id is a positive number, from the `from:` line of a message \
                     header. Anonymous admins and channel posts have no user id, so they cannot be \
                     moderated this way",
                ),
            ),
        }
    }

    fn conversation(&self, message: &Message) -> (conversation: ConversationId)
        ensures
            conversation@ == conversation_of(self.id@, *message),
    {
        let chat = text::signed_number(message.chat.id);
        let thread: Option<i32> = if message.is_topic_message {
            message.thread_id
        } else {
            None
        };
        match thread {
            Some(thread) => {
                let thread = text::signed_number(thread as i64);
                ConversationId::new(&self.id, chat.as_str(), Some(thread.as_str()))
            },
            None => ConversationId::new(&self.id, chat.as_str(), None),
        }
    }

    /// Converts one Telegram message into a bridge event.
    pub fn to_event(&self, message: &Message) -> (event: Option<InboundEvent>)
        requires
            proper(*self, *message),
        ensures
            event.deep_view() == event_of(*self, *message),
            event matches Some(event) ==> (event matches InboundEvent::Message(inbound) && {
                &&& message.text matches Some(text) ==> inbound.text@ == text@
                &&& message.text is None ==> (message.caption matches Some(caption)
                    ==> inbound.text@ == caption@)
                &&& message.text is None && message.caption is None ==> inbound.text@.len() == 0
                &&& inbound.message_id@ == text::signed_decimal(message.id as int)
                &&& inbound.edited_at == message.edit_date
                &&& inbound.timestamp == message.date
                &&& inbound.platform == Platform::Telegram
                &&& inbound.attachments@.len() == message::files_of(message.kind).len()
                &&& inbound.notes@.len() == message::notes_of(message.kind).len()
            }),
    {
        let user_id: Option<i64> = match &message.from {
            Some(user) => Some(user.id as i64),
            None => None,
        };
        // Recognition is independent of where they wrote, unlike admission.
        let sender_allowlisted = self.recognises(user_id);
        let direct = message.chat.shape == ChatShape::Private;
        let admission = match self.admission(user_id, message.chat.id, direct) {
            Some(admission) => admission,
            None => return None,
        };
        let said = said_or_nothing(message);
        let (attachments, notes) = describe_content(&message.kind);
        assert(attachments@.len() == attachments.deep_view().len());
        assert(notes@.len() == notes.deep_view().len());
        if text::is_blank(said.as_str()) && attachments.len() == 0 && notes.len() == 0 {
            // Joins, pins, and other service messages carry nothing for the agent to act on.
            return None;
        }
        let id = text::signed_number(message.id as i64);
        let external_id = match message.edit_date {
            Some(at) => id.clone().concat(":e").concat(
                text::signed_number(whole_seconds(at)).as_str(),
            ),
            None => id.clone(),
        };
        let forwarded_from = match &message.forward_origin {
            Some(origin) => Some(forward_origin(origin)),
            None => None,
        };
        let inbound = InboundMessage {
            channel: self.id.clone(),
            platform: Platform::Telegram,
            conversation: self.conversation(message),
            external_id,
            message_id: id,
            chat_kind: chat_kind(&message.chat),
            chat_title: text::copied(&message.chat.title),
            sender: describe_sender(message),
            admission,
            sender_allowlisted,
            addressed: self.addressed(message),
            sender_roles: Vec::new(),
            text: said,
            reply_to: describe_reply(&message.reply_to),
            edited_at: message.edit_date,
            forwarded_from,
            group_id: text::copied(&message.media_group_id),
            attachments,
            notes,
            arrived_mid_turn: false,
            timestamp: message.date,
        };
        assert(inbound.deep_view().sender_roles =~= Seq::empty());
        assert(inbound.attachments.deep_view().len() == inbound.attachments@.len());
        assert(inbound.notes.deep_view().len() == inbound.notes@.len());
        Some(InboundEvent::Message(Box::new(inbound)))
    }

    /// What becomes of an update.
    pub fn handle(&self, update: &Update) -> (event: Option<InboundEvent>)
        requires
            proper_update(*self, *update),
        ensures
            event.deep_view() == update_event(*self, *update),
    {
        match update {
            Update::Message(message) => self.to_event(message),
            Update::EditedMessage(message) => self.to_event(message),
            Update::MyChatMember { .. } => None,
            Update::Other => None,
        }
    }

    /// The account that a token belongs to.
    pub fn identity_of(&self, me: &User, reads_all_group_messages: bool) -> (identity:
        ChannelIdentity)
        ensures
            identity.id@ == text::decimal(me.id as nat),
            identity.display_name@ == me.first_name@,
            identity.username.deep_view() == me.username.deep_view(),
            identity.reads_all_group_messages == reads_all_group_messages,
    {
        ChannelIdentity {
            id: text::number(me.id),
            display_name: me.first_name.clone(),
            username: text::copied(&me.username),
            reads_all_group_messages,
        }
    }
}

} // verus!
