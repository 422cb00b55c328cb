//! What reaches the agent of a Telegram message, and what is sent to Telegram, stated of the message
//! and the answer themselves.

use vstd::prelude::*;

use crate::channel::ids::ConversationView;
use crate::channel::telegram::members::{
    self, ChatMember, ChatMemberKind, Moderation, MAX_RESTRICTION, MIN_RESTRICTION,
};
use crate::channel::telegram::message::{
    self, ChatShape, DiceEmoji, Entity, EntityKind, FileMeta, MediaKind, Message, MessageKind,
    MessageOrigin, PhotoSize, StickerFormat, User,
};
use crate::channel::telegram::outgoing::{self, FileItem, ParseMode, Post};
use crate::channel::telegram::{BotIdentity, TelegramChannel, Update};
use crate::channel::{
    Admission, AttachmentKind, AttachmentView, ChannelErrorView, ChatKind, EventView, ForwardView,
    InboundView, MemberAction, MemberRight, MemberStatus, Platform, SendOptions,
};
use crate::config::TelegramParseMode;
use crate::text;
use crate::time::Instant;

verus! {

/// Whether a message becomes an event that holds `inbound`.
pub open spec fn becomes(channel: TelegramChannel, message: Message, inbound: InboundView) -> bool {
    super::event_of(channel, message) == Some(EventView::Message(inbound))
}

/// The event of a message says what its sender wrote: its text, its caption where it has no text, and
/// nothing where it has neither.
pub proof fn an_event_says_what_was_written(
    channel: TelegramChannel,
    message: Message,
    inbound: InboundView,
)
    requires
        becomes(channel, message, inbound),
    ensures
        message.text matches Some(text) ==> inbound.text == text@,
        message.text is None ==> (message.caption matches Some(caption) ==> inbound.text == caption@),
        message.text is None && message.caption is None ==> inbound.text.len() == 0,
{
}

/// A message becomes an event exactly where it is admitted and carries anything: a text or caption
/// that is not blank, a file or a note. An event of a message is a message.
pub proof fn whatever_carries_anything_is_heard(channel: TelegramChannel, message: Message)
    ensures
        ({
            let listed_user = message.chat.shape == ChatShape::Private && (
            message.from matches Some(user) && channel.allowed_users@.contains(user.id as i64));
            let listed_chat = channel.allowed_chats@.contains(message.chat.id);
            let admitted = listed_user || listed_chat || channel.allow_all;
            let written = match message.text {
                Some(text) => !text::blank(text@),
                None => message.caption matches Some(caption) && !text::blank(caption@),
            };
            let event = super::event_of(channel, message);
            &&& event is Some <==> admitted && (written || message::files_of(message.kind).len() > 0
                || message::notes_of(message.kind).len() > 0)
            &&& event matches Some(event) ==> event is Message
        }),
{
}

/// The event of a message names the channel, the chat and the message as Telegram does, and carries
/// its times, its album and its title unchanged.
pub proof fn an_event_says_where_and_when(
    channel: TelegramChannel,
    message: Message,
    inbound: InboundView,
)
    requires
        becomes(channel, message, inbound),
    ensures
        inbound.channel == channel.id@,
        inbound.platform == Platform::Telegram,
        inbound.conversation.channel == channel.id@,
        text::signed_in(inbound.conversation.chat, i64::MIN as int, i64::MAX as int) == Some(
            message.chat.id as int,
        ),
        inbound.conversation.thread is Some <==> message.is_topic_message && message.thread_id is Some,
        inbound.conversation.thread matches Some(thread) ==> text::signed_in(
            thread,
            i32::MIN as int,
            i32::MAX as int,
        ) == Some(message.thread_id->0 as int),
        text::signed_in(inbound.message_id, i32::MIN as int, i32::MAX as int) == Some(
            message.id as int,
        ),
        message.edit_date is None ==> inbound.external_id == inbound.message_id,
        message.edit_date matches Some(at) ==> inbound.external_id == inbound.message_id + seq![
            ':',
            'e',
        ] + text::signed_decimal(at as int / 1_000_000_000),
        inbound.edited_at == message.edit_date,
        inbound.timestamp == message.date,
        !inbound.arrived_mid_turn,
        inbound.sender_roles.len() == 0,
        message.chat.title is None <==> inbound.chat_title is None,
        message.chat.title matches Some(title) ==> inbound.chat_title == Some(title@),
        message.media_group_id is None <==> inbound.group_id is None,
        message.media_group_id matches Some(group) ==> inbound.group_id == Some(group@),
        inbound.chat_kind == ChatKind::Direct <==> message.chat.shape == ChatShape::Private,
        inbound.chat_kind == ChatKind::Channel <==> message.chat.shape == ChatShape::Channel,
        inbound.chat_kind == ChatKind::Group <==> (message.chat.shape == ChatShape::Group
            || message.chat.shape == ChatShape::Supergroup),
{
    reveal_strlit(":e");
    assert(":e"@ =~= seq![':', 'e']);
    text::a_signed_number_survives_its_text_form(
        message.chat.id as int,
        i64::MIN as int,
        i64::MAX as int,
    );
    text::a_signed_number_survives_its_text_form(
        message.id as int,
        i32::MIN as int,
        i32::MAX as int,
    );
    if let Some(thread) = message.thread_id {
        text::a_signed_number_survives_its_text_form(
            thread as int,
            i32::MIN as int,
            i32::MAX as int,
        );
    }
}

/// Whether `name` is the name of a user: the first name, and the last name behind it where there is
/// one.
pub open spec fn names(name: Seq<char>, user: User) -> bool {
    match user.last_name {
        Some(last) => if last@.len() == 0 {
            name == user.first_name@
        } else {
            name == user.first_name@ + seq![' '] + last@
        },
        None => name == user.first_name@,
    }
}

proof fn a_user_goes_by_both_names(user: User)
    ensures
        names(message::user_name(user), user),
{
    reveal_strlit(" ");
    assert(" "@ =~= seq![' ']);
}

/// The event of a message names its sender: the account that wrote it, or the chat where nobody did.
pub proof fn an_event_says_who(channel: TelegramChannel, message: Message, inbound: InboundView)
    requires
        becomes(channel, message, inbound),
    ensures
        inbound.sender.on_behalf_of_chat <==> message.from is None,
        message.from matches Some(user) ==> {
            &&& text::signed_in(inbound.sender.id, i64::MIN as int, i64::MAX as int) == Some(
                (user.id as i64) as int,
            )
            &&& names(inbound.sender.display_name, user)
            &&& inbound.sender.is_bot == user.is_bot
            &&& user.username is None <==> inbound.sender.username is None
            &&& user.username matches Some(username) ==> inbound.sender.username == Some(username@)
            &&& inbound.sender_allowlisted <==> channel.allowed_users@.contains(user.id as i64)
        },
        message.from is None ==> {
            &&& inbound.sender.id.len() == 0
            &&& !inbound.sender.is_bot
            &&& inbound.sender.username is None
            &&& !inbound.sender_allowlisted
            &&& message.sender_chat matches Some(title) ==> inbound.sender.display_name == title@
            &&& message.sender_chat is None ==> (message.chat.title matches Some(title)
                ==> inbound.sender.display_name == title@)
            &&& message.sender_chat is None && message.chat.title is None
                ==> inbound.sender.display_name == "unknown sender"@
        },
{
    if let Some(user) = message.from {
        a_user_goes_by_both_names(user);
        text::a_signed_number_survives_its_text_form(
            (user.id as i64) as int,
            i64::MIN as int,
            i64::MAX as int,
        );
    }
}

/// Why somebody is heard: by name in a direct message, else by their chat, else because the channel
/// is open.
pub proof fn an_event_says_why(channel: TelegramChannel, message: Message, inbound: InboundView)
    requires
        becomes(channel, message, inbound),
    ensures
        ({
            let named = message.chat.shape == ChatShape::Private && (message.from matches Some(user)
                && channel.allowed_users@.contains(user.id as i64));
            let placed = channel.allowed_chats@.contains(message.chat.id);
            &&& inbound.admission == Admission::User <==> named
            &&& inbound.admission == Admission::Chat <==> !named && placed
            &&& inbound.admission == Admission::Open <==> !named && !placed
            &&& !named && !placed ==> channel.allow_all
        }),
{
}

/// What makes a message one that was aimed at the bot. In a one-to-one chat every message is. Where
/// the bot does not know itself, no other is. Elsewhere an answer to the bot is, and so is what came
/// out of its inline mode, and what names it by its id.
pub proof fn an_event_says_whether_it_was_aimed(
    channel: TelegramChannel,
    message: Message,
    inbound: InboundView,
)
    requires
        becomes(channel, message, inbound),
    ensures
        message.chat.shape == ChatShape::Private ==> inbound.addressed,
        message.chat.shape != ChatShape::Private && channel.identity is None ==> !inbound.addressed,
        channel.identity matches Some(me) ==> {
            &&& message.reply_to matches Some(replied) ==> (replied.from matches Some(author) ==> (
            author.id == me.id ==> inbound.addressed))
            &&& message.via_bot == Some(me.id) ==> inbound.addressed
            &&& message.text is Some ==> forall|i: int|
                0 <= i < message.entities@.len() && (#[trigger] message.entities@[i]).kind == (
                EntityKind::TextMention { user: me.id }) ==> inbound.addressed
            &&& message.caption is Some ==> forall|i: int|
                0 <= i < message.caption_entities@.len() && (
                #[trigger] message.caption_entities@[i]).kind == (EntityKind::TextMention {
                    user: me.id,
                }) ==> inbound.addressed
        },
{
    if let Some(me) = channel.identity {
        if let Some(text) = message.text {
            assert forall|i: int|
                0 <= i < message.entities@.len() && (#[trigger] message.entities@[i]).kind == (
                EntityKind::TextMention { user: me.id }) implies inbound.addressed by {
                assert(super::names_bot(me, text@, message.entities@[i]));
            }
        }
        if let Some(text) = message.caption {
            assert forall|i: int|
                0 <= i < message.caption_entities@.len() && (
                #[trigger] message.caption_entities@[i]).kind == (EntityKind::TextMention {
                    user: me.id,
                }) implies inbound.addressed by {
                assert(super::names_bot(me, text@, message.caption_entities@[i]));
            }
        }
    }
}

/// A message in a group that neither answers the bot, nor came out of its inline mode, nor carries an
/// entity of a kind that can name somebody is not aimed at it, whatever words it holds.
pub proof fn words_alone_are_not_aimed(
    channel: TelegramChannel,
    message: Message,
    inbound: InboundView,
)
    requires
        becomes(channel, message, inbound),
        message.chat.shape != ChatShape::Private,
        channel.identity matches Some(me) ==> {
            &&& message.via_bot != Some(me.id)
            &&& message.reply_to matches Some(replied) ==> (replied.from matches Some(author)
                ==> author.id != me.id)
        },
        forall|i: int|
            0 <= i < message.entities@.len() ==> (#[trigger] message.entities@[i]).kind
                == EntityKind::Other,
        forall|i: int|
            0 <= i < message.caption_entities@.len() ==> (
            #[trigger] message.caption_entities@[i]).kind == EntityKind::Other,
    ensures
        !inbound.addressed,
{
}

/// A mention names exactly the bot that goes by the name behind its at sign, and a text mention
/// exactly the account it links to. A command names the bot only by what stands behind its at sign.
pub proof fn a_name_is_the_bots_whatever_its_case(
    me: BotIdentity,
    text: Seq<char>,
    entity: Entity,
    from: int,
    to: int,
    spelled: Seq<char>,
)
    requires
        super::marks(text, entity, from, to),
        forall|a: int, b: int|
            super::marks(text, entity, a, b) ==> text.subrange(a, b) == text.subrange(from, to),
        spelled.len() > 0,
        spelled[0] != '@',
    ensures
        entity.kind == EntityKind::Mention && text.subrange(from, to) == seq!['@'] + spelled ==> (
        super::names_bot(me, text, entity) <==> (me.username matches Some(username)
            && username@.len() == spelled.len() && forall|i: int|
            0 <= i < spelled.len() ==> text::folded(#[trigger] spelled[i]) == text::folded(
                username@[i],
            ))),
        entity.kind matches EntityKind::TextMention { user } ==> (super::names_bot(me, text, entity)
            <==> user == me.id),
        entity.kind == EntityKind::Other ==> !super::names_bot(me, text, entity),
        me.username is None && (entity.kind == EntityKind::Mention || entity.kind
            == EntityKind::BotCommand) ==> !super::names_bot(me, text, entity),
        entity.kind == EntityKind::BotCommand && !text.subrange(from, to).contains('@')
            ==> !super::names_bot(me, text, entity),
{
    let part = super::marked_text(text, entity);
    assert(part == text.subrange(from, to));
    if part == seq!['@'] + spelled {
        assert(part.skip(1) =~= spelled);
        assert(super::without_at(spelled) == spelled);
        assert(super::without_at(part) == spelled);
    }
    text::until_is_a_prefix(part, '@');
    if !part.contains('@') {
        if text::until(part, '@').len() < part.len() {
            assert(part[text::until(part, '@').len() as int] == '@');
        }
    }
}

/// A command that ends in an at sign and a name is for the bot of that name.
pub proof fn a_command_is_for_the_bot_behind_its_at_sign(
    me: BotIdentity,
    text: Seq<char>,
    entity: Entity,
    command: Seq<char>,
    target: Seq<char>,
)
    requires
        entity.kind == EntityKind::BotCommand,
        super::marked_text(text, entity) == command + seq!['@'] + target,
        !command.contains('@'),
    ensures
        super::names_bot(me, text, entity) <==> (me.username matches Some(username)
            && username@.len() == target.len() && forall|i: int|
            0 <= i < target.len() ==> text::folded(#[trigger] target[i]) == text::folded(
                username@[i],
            )),
{
    let part = command + seq!['@'] + target;
    text::until_is_a_prefix(part, '@');
    let first = text::until(part, '@');
    assert(part[command.len() as int] == '@');
    if first.len() < command.len() {
        assert(part[first.len() as int] == command[first.len() as int]);
        assert(command.contains(command[first.len() as int]));
    }
    assert(first.len() == command.len());
    assert(part.skip((first.len() + 1) as int) =~= target);
}

/// An answer carries what it answers: the id, who wrote it, and its text or caption, cut off behind
/// the first hundred and sixty characters.
pub proof fn an_event_says_what_it_answers(
    channel: TelegramChannel,
    message: Message,
    inbound: InboundView,
)
    requires
        becomes(channel, message, inbound),
    ensures
        message.reply_to is Some <==> inbound.reply_to is Some,
        message.reply_to matches Some(replied) ==> {
            let reply = inbound.reply_to->0;
            let said = match replied.text {
                Some(text) => Some(text@),
                None => match replied.caption {
                    Some(caption) => Some(caption@),
                    None => None,
                },
            };
            &&& text::signed_in(reply.message_id, i32::MIN as int, i32::MAX as int) == Some(
                replied.id as int,
            )
            &&& replied.from is Some <==> reply.sender_name is Some
            &&& replied.from matches Some(author) ==> names(reply.sender_name->0, author)
            &&& said is Some <==> reply.excerpt is Some
            &&& said matches Some(said) ==> {
                let excerpt = reply.excerpt->0;
                &&& said.len() <= 160 ==> excerpt == said
                &&& said.len() > 160 ==> excerpt.len() == 161 && excerpt.take(160) == said.take(160)
                    && excerpt[160] == '\u{2026}'
            }
        },
{
    if let Some(replied) = message.reply_to {
        text::a_signed_number_survives_its_text_form(
            replied.id as int,
            i32::MIN as int,
            i32::MAX as int,
        );
        if let Some(author) = replied.from {
            a_user_goes_by_both_names(author);
        }
        if let Some(excerpt) = inbound.reply_to->0.excerpt {
            if excerpt.len() == 161 {
                let said = match replied.text {
                    Some(text) => text@,
                    None => replied.caption->0@,
                };
                if said.len() > 160 {
                    assert(excerpt.take(160) =~= said.take(160));
                }
            }
        }
    }
}

/// A forwarded message says who it came from, as far as Telegram tells.
pub proof fn an_event_says_where_it_was_forwarded_from(
    channel: TelegramChannel,
    message: Message,
    inbound: InboundView,
)
    requires
        becomes(channel, message, inbound),
    ensures
        message.forward_origin is Some <==> inbound.forwarded_from is Some,
        message.forward_origin matches Some(origin) ==> match origin {
            MessageOrigin::User { sender } => inbound.forwarded_from->0 matches ForwardView::User {
                name,
                id,
                username,
            } && names(name, sender) && (id matches Some(id) && text::unsigned_in(
                id,
                u64::MAX as nat,
            ) == Some(sender.id as nat)) && (username is Some <==> sender.username is Some) && (
            sender.username matches Some(known) ==> username == Some(known@)),
            MessageOrigin::HiddenUser { name } => inbound.forwarded_from == Some(
                ForwardView::HiddenUser { name: name@ },
            ),
            MessageOrigin::Chat { title } => inbound.forwarded_from->0 matches ForwardView::Chat {
                title: shown,
            } && (title matches Some(title) ==> shown == title@) && (title is None ==> shown
                == "a group"@),
            MessageOrigin::Channel { title, message_id } =>
            inbound.forwarded_from->0 matches ForwardView::Channel { title: shown, message_id: id }
                && (title matches Some(title) ==> shown == title@) && (title is None ==> shown
                == "a channel"@) && (id matches Some(id) && text::signed_in(
                id,
                i32::MIN as int,
                i32::MAX as int,
            ) == Some(message_id as int)),
        },
{
    if let Some(origin) = message.forward_origin {
        match origin {
            MessageOrigin::User { sender } => {
                a_user_goes_by_both_names(sender);
                text::a_number_survives_its_text_form(sender.id as nat, u64::MAX as nat);
            },
            MessageOrigin::Channel { message_id, .. } => {
                text::a_signed_number_survives_its_text_form(
                    message_id as int,
                    i32::MIN as int,
                    i32::MAX as int,
                );
            },
            _ => {},
        }
    }
}

/// Whether an attachment is fetched by `file` and has its size.
pub open spec fn fetches(attachment: AttachmentView, kind: AttachmentKind, file: FileMeta) -> bool {
    &&& attachment.kind == kind
    &&& attachment.file_ref == file.id@
    &&& attachment.bytes == Some(file.size as u64)
    &&& attachment.handle is None
}

/// Whether an attachment has the name and the type that Telegram gives it.
pub open spec fn labelled(
    attachment: AttachmentView,
    file_name: Option<String>,
    mime_type: Option<String>,
) -> bool {
    &&& attachment.file_name is Some <==> file_name is Some
    &&& file_name matches Some(name) ==> attachment.file_name == Some(name@)
    &&& attachment.media_type is Some <==> mime_type is Some
    &&& mime_type matches Some(mime) ==> attachment.media_type == Some(mime@)
}

/// Whether an attachment shows the still image that Telegram gives it.
pub open spec fn pictured(attachment: AttachmentView, thumbnail: Option<PhotoSize>) -> bool {
    &&& attachment.thumb_ref is Some <==> thumbnail is Some
    &&& thumbnail matches Some(still) ==> attachment.thumb_ref == Some(still.file.id@)
}

/// Whether an attachment has this size and length.
pub open spec fn measures(
    attachment: AttachmentView,
    width: Option<u32>,
    height: Option<u32>,
    seconds: Option<u32>,
) -> bool {
    attachment.width == width && attachment.height == height && attachment.duration_secs == seconds
}

/// Every file that a message carries is attached to its event, once, as what it is: by what Telegram
/// fetches it by, with its name, type, size, length and still image. Nothing else is.
pub proof fn an_event_carries_the_file(media: MediaKind)
    ensures
        ({
            let files = message::files_of(MessageKind::Common(media));
            match media {
                MediaKind::Photo { sizes } => if sizes@.len() == 0 {
                    files.len() == 0
                } else {
                    let best = sizes@[sizes@.len() - 1];
                    &&& files.len() == 1
                    &&& fetches(files[0], AttachmentKind::Photo, best.file)
                    &&& files[0].file_name is None
                    &&& files[0].media_type == Some("image/jpeg"@)
                    &&& measures(files[0], Some(best.width), Some(best.height), None)
                    &&& files[0].thumb_ref is None
                },
                MediaKind::Document { file, file_name, mime_type, thumbnail } => {
                    &&& files.len() == 1
                    &&& fetches(files[0], AttachmentKind::Document, file)
                    &&& labelled(files[0], file_name, mime_type)
                    &&& measures(files[0], None, None, None)
                    &&& pictured(files[0], thumbnail)
                },
                MediaKind::Animation {
                    file,
                    file_name,
                    mime_type,
                    width,
                    height,
                    duration,
                    thumbnail,
                } => {
                    &&& files.len() == 1
                    &&& fetches(files[0], AttachmentKind::Animation, file)
                    &&& labelled(files[0], file_name, mime_type)
                    &&& measures(files[0], Some(width), Some(height), Some(duration))
                    &&& pictured(files[0], thumbnail)
                },
                MediaKind::Voice { file, mime_type, duration } => {
                    &&& files.len() == 1
                    &&& fetches(files[0], AttachmentKind::Voice, file)
                    &&& labelled(files[0], None, mime_type)
                    &&& measures(files[0], None, None, Some(duration))
                    &&& files[0].thumb_ref is None
                },
                MediaKind::Audio { file, file_name, mime_type, duration, thumbnail } => {
                    &&& files.len() == 1
                    &&& fetches(files[0], AttachmentKind::Audio, file)
                    &&& labelled(files[0], file_name, mime_type)
                    &&& measures(files[0], None, None, Some(duration))
                    &&& pictured(files[0], thumbnail)
                },
                MediaKind::Video { file, file_name, mime_type, width, height, duration, thumbnail } => {
                    &&& files.len() == 1
                    &&& fetches(files[0], AttachmentKind::Video, file)
                    &&& labelled(files[0], file_name, mime_type)
                    &&& measures(files[0], Some(width), Some(height), Some(duration))
                    &&& pictured(files[0], thumbnail)
                },
                MediaKind::VideoNote { file, side, duration, thumbnail } => {
                    &&& files.len() == 1
                    &&& fetches(files[0], AttachmentKind::VideoNote, file)
                    &&& labelled(files[0], None, None)
                    &&& measures(files[0], Some(side), Some(side), Some(duration))
                    &&& pictured(files[0], thumbnail)
                },
                MediaKind::Sticker { file, width, height, format, thumbnail, .. } => {
                    &&& files.len() == 1
                    &&& fetches(files[0], AttachmentKind::Sticker, file)
                    &&& files[0].file_name is None
                    &&& measures(files[0], Some(width as u32), Some(height as u32), None)
                    &&& format == StickerFormat::Raster ==> files[0].media_type == Some(
                        "image/webp"@,
                    ) && files[0].thumb_ref is None
                    &&& format != StickerFormat::Raster ==> files[0].media_type is None && pictured(
                        files[0],
                        thumbnail,
                    )
                },
                _ => files.len() == 0,
            }
        }),
        message::files_of(MessageKind::Service).len() == 0,
{
}

/// What the agent reads of content that is no file: a place, a card, a poll, a roll of the dice. Text
/// and plain files say nothing beyond themselves.
pub proof fn an_event_notes_the_rest(media: MediaKind, emoji: DiceEmoji, value: u8)
    ensures
        ({
            let notes = message::notes_of(MessageKind::Common(media));
            match media {
                MediaKind::Photo { sizes } => if sizes@.len() == 0 {
                    notes == seq!["a photo arrived with no usable resolution"@]
                } else {
                    notes.len() == 0
                },
                MediaKind::Sticker { emoji, .. } => match emoji {
                    Some(emoji) => notes == seq!["sticker "@ + emoji@],
                    None => notes == seq!["sticker"@],
                },
                MediaKind::Location { latitude, longitude, live } => {
                    let place = "location: "@ + latitude@ + ", "@ + longitude@;
                    &&& live ==> notes == seq![place + " (live, updating)"@]
                    &&& !live ==> notes == seq![place]
                },
                MediaKind::Venue { title, address, latitude, longitude } => notes == seq![
                    "venue: "@ + text::debug_quoted(title@) + " at "@ + text::debug_quoted(address@)
                        + " ("@ + latitude@ + ", "@ + longitude@ + ")"@,
                ],
                MediaKind::Contact { phone_number, first_name, last_name } => match last_name {
                    Some(last) => notes == seq![
                        "contact card: "@ + (first_name@ + " "@ + last@) + ", phone "@
                            + phone_number@,
                    ],
                    None => notes == seq![
                        "contact card: "@ + first_name@ + ", phone "@ + phone_number@,
                    ],
                },
                MediaKind::Poll { question, options } => notes == seq![
                    "poll: "@ + text::debug_quoted(question@) + " with options "@ + text::joined(
                        options.deep_view(),
                        ", "@,
                    ),
                ],
                MediaKind::Story => notes == seq!["a story, which bots cannot read"@],
                MediaKind::PaidMedia => notes == seq!["paid media, which this bridge cannot open"@],
                MediaKind::Game => notes == seq!["a game"@],
                MediaKind::Checklist => notes == seq!["a checklist"@],
                _ => notes.len() == 0,
            }
        }),
        ({
            let named = if emoji == DiceEmoji::Dice {
                "Dice"@
            } else if emoji == DiceEmoji::Darts {
                "Darts"@
            } else if emoji == DiceEmoji::Bowling {
                "Bowling"@
            } else if emoji == DiceEmoji::Basketball {
                "Basketball"@
            } else if emoji == DiceEmoji::Football {
                "Football"@
            } else {
                "SlotMachine"@
            };
            message::notes_of(MessageKind::Dice { emoji, value }) == seq![
                "dice roll: "@ + named + " showing "@ + text::decimal(value as nat),
            ]
        }),
        message::files_of(MessageKind::Dice { emoji, value }).len() == 0,
        message::notes_of(MessageKind::Service).len() == 0,
{
}

/// The files and notes of an event are those of its message's content.
pub proof fn an_event_carries_its_content(
    channel: TelegramChannel,
    message: Message,
    inbound: InboundView,
)
    requires
        becomes(channel, message, inbound),
    ensures
        inbound.attachments == message::files_of(message.kind),
        inbound.notes == message::notes_of(message.kind),
{
}

/// A new message and an edited one both become events, and nothing else does.
pub proof fn messages_and_edits_are_heard(
    channel: TelegramChannel,
    message: Message,
    chat_id: i64,
    title: Option<String>,
    present: bool,
)
    ensures
        super::update_event(channel, Update::Message(message)) == super::event_of(channel, message),
        super::update_event(channel, Update::EditedMessage(message)) == super::event_of(
            channel,
            message,
        ),
        super::update_event(channel, Update::MyChatMember { chat_id, title, present }) is None,
        super::update_event(channel, Update::Other) is None,
{
}

/// A message goes to the chat and the topic that its conversation names, and a conversation that names
/// none is refused.
pub proof fn a_conversation_is_where_its_messages_go(
    conversation: ConversationView,
    chat: i64,
    thread: i32,
)
    ensures
        conversation.chat == text::signed_decimal(chat as int) && conversation.thread is None ==> (
        super::targeted(conversation) matches Ok(target) && target == (chat, None::<i32>)),
        conversation.chat == text::signed_decimal(chat as int) && conversation.thread == Some(
            text::signed_decimal(thread as int),
        ) ==> (super::targeted(conversation) matches Ok(target) && target == (chat, Some(thread))),
        super::targeted(conversation) matches Ok(target) ==> text::signed_in(
            conversation.chat,
            i64::MIN as int,
            i64::MAX as int,
        ) == Some(target.0 as int) && (target.1 is Some <==> conversation.thread is Some),
        super::targeted(conversation) matches Err(error) ==> error is InvalidConversation,
{
    text::a_signed_number_survives_its_text_form(chat as int, i64::MIN as int, i64::MAX as int);
    text::a_signed_number_survives_its_text_form(thread as int, i32::MIN as int, i32::MAX as int);
}

/// An id that the agent hands back, with white space round it or not, is the one it was given.
pub proof fn an_id_is_read_back(message: i32, user: u64)
    ensures
        super::message_in(text::signed_decimal(message as int)) == Some(message as int),
        super::user_in(text::decimal(user as nat)) == Some(user as nat),
{
    text::a_signed_number_survives_its_text_form(message as int, i32::MIN as int, i32::MAX as int);
    text::a_number_survives_its_text_form(user as nat, u64::MAX as nat);
    text::a_number_is_trimmed_already(message as int);
    text::a_number_is_trimmed_already(user as int);
}

/// The bot being added to a chat that nobody listed is a warning that names the chat's id; being added
/// to one that is listed, or being removed, is none.
pub proof fn being_added_where_nobody_is_heard_is_a_warning(
    channel: TelegramChannel,
    chat_id: i64,
    title: Option<Seq<char>>,
    present: bool,
)
    ensures
        ({
            let note = super::membership_note(channel, chat_id, title, present);
            let listed = channel.allowed_chats@.contains(chat_id);
            &&& note.0 <==> present && !listed
            &&& !present ==> text::begins(note.1, "removed from "@)
            &&& present ==> text::begins(note.1, "added to "@)
            &&& note.0 ==> text::contains(note.1, text::signed_decimal(chat_id as int))
        }),
{
    let note = super::membership_note(channel, chat_id, title, present).1;
    let name = text::debug_quoted(text::either(title, "a private chat"@));
    assert(note.take("removed from "@.len() as int) =~= "removed from "@ || present);
    assert(note.take("added to "@.len() as int) =~= "added to "@ || !present);
    if present && !channel.allowed_chats@.contains(chat_id) {
        let id = text::signed_decimal(chat_id as int);
        let before = "added to "@ + name
            + ", which is NOT allowlisted, so everything said there is ignored. Add "@;
        let at = before.len() as int;
        assert(note.subrange(at, at + id.len()) =~= id);
        assert(text::stands_at(note, id, at));
    }
}

/// What somebody is called in a chat, and what they hold there: an owner holds every right, an
/// administrator exactly the rights granted, and nobody else any.
pub proof fn a_standing_is_reported_as_it_is(kind: ChatMemberKind, right: MemberRight)
    ensures
        members::status_of(kind) == MemberStatus::Owner <==> kind is Owner,
        members::status_of(kind) == MemberStatus::Administrator <==> kind is Administrator,
        members::status_of(kind) == MemberStatus::Member <==> kind is Member,
        members::status_of(kind) == MemberStatus::Restricted <==> kind is Restricted,
        members::status_of(kind) == MemberStatus::Left <==> kind is Left,
        members::status_of(kind) == MemberStatus::Banned <==> kind is Banned,
        kind is Owner ==> members::rights_of(kind).contains(right),
        kind matches ChatMemberKind::Administrator(flags) ==> {
            let granted = (right == MemberRight::ManageChat && flags.can_manage_chat) || (right
                == MemberRight::DeleteMessages && flags.can_delete_messages) || (right
                == MemberRight::RestrictMembers && flags.can_restrict_members) || (right
                == MemberRight::PromoteMembers && flags.can_promote_members) || (right
                == MemberRight::PinMessages && flags.can_pin_messages) || (right
                == MemberRight::ChangeInfo && flags.can_change_info) || (right
                == MemberRight::InviteUsers && flags.can_invite_users) || (right
                == MemberRight::ManageTopics && flags.can_manage_topics) || (right
                == MemberRight::ManageVideoChats && flags.can_manage_video_chats);
            members::rights_of(kind).contains(right) <==> granted
        },
        !(kind is Owner) && !(kind is Administrator) ==> !members::rights_of(kind).contains(right),
{
    members::reported_rights_are_held_rights(kind, right);
}

/// A member is reported under the id asked about, by name, with no role and no presence, and with the
/// end of a restriction only while it lasts.
pub proof fn a_member_is_reported_as_they_are(user_id: u64, member: ChatMember, now: Instant)
    ensures
        ({
            let ends = members::restricted_until(member.kind, now);
            let info = members::member_info(user_id, member, ends);
            &&& text::unsigned_in(info.user_id, u64::MAX as nat) == Some(user_id as nat)
            &&& info.display_name is Some && names(info.display_name->0, member.user)
            &&& info.roles.len() == 0
            &&& info.presence is None
            &&& info.restricted_until == ends
            &&& ends matches Some(end) ==> end > now && member.kind == (
            ChatMemberKind::Restricted { until: Some(end) })
            &&& member.kind matches ChatMemberKind::Restricted { until: Some(until) } ==> (ends
                == Some(until) <==> until > now)
            &&& info.status == members::status_of(member.kind)
            &&& info.rights == members::rights_of(member.kind)
        }),
{
    a_user_goes_by_both_names(member.user);
    text::a_number_survives_its_text_form(user_id as nat, u64::MAX as nat);
}

/// What is asked for is what is done: a restriction stays one, a ban a ban, and each ends when it was
/// asked to end. Messages go only where that was asked for.
pub proof fn a_moderation_is_what_was_asked_for(
    action: MemberAction,
    until: Option<Instant>,
    revoke_messages: bool,
)
    ensures
        ({
            let done = members::moderated(action, until, revoke_messages);
            &&& done is Restrict <==> action == MemberAction::Restrict
            &&& done is Unrestrict <==> action == MemberAction::Unrestrict
            &&& done is Ban <==> action == MemberAction::Ban
            &&& done is Unban <==> action == MemberAction::Unban
            &&& done is Kick <==> action == MemberAction::Kick
            &&& done matches Moderation::Restrict { until: end } ==> end == until
            &&& done matches Moderation::Ban { until: end, revoke_messages: revoked } ==> end == until
                && revoked == revoke_messages
            &&& done matches Moderation::Kick { revoke_messages: revoked } ==> revoked
                == revoke_messages
        }),
{
}

/// An end that Telegram would take for no end at all is refused: one nearer than thirty seconds or
/// further than three hundred and sixty-six days. No other is.
pub proof fn only_an_end_that_holds_is_accepted(channel: Seq<char>, until: Instant, now: Instant)
    ensures
        members::until_refused(channel, until, now) is None <==> 30_000_000_000 <= until - now
            <= 366 * 86_400 * 1_000_000_000,
        members::until_refused(channel, until, now) matches Some(error) ==> error is Delivery,
        MIN_RESTRICTION == 30 * 1_000_000_000,
        MAX_RESTRICTION == 366 * 86_400 * 1_000_000_000,
{
}

/// Members can be listed only whole: neither searched for nor paged through.
pub proof fn members_are_listed_whole(id: Seq<char>, searching: bool, paging: bool)
    ensures
        members::listing_refused(id, searching, paging) is None <==> !searching && !paging,
        members::listing_refused(id, searching, paging) matches Some(error) ==> error is Unsupported,
        members::partial_listing(id) is Unsupported,
{
}

/// A chat goes by its title, else by whoever is on the other end, else by their name behind an at
/// sign.
pub proof fn a_chat_goes_by_its_title(
    title: Option<Seq<char>>,
    first_name: Option<Seq<char>>,
    username: Option<Seq<char>>,
)
    ensures
        title is Some ==> members::title_of(title, first_name, username) == title,
        title is None && first_name is Some ==> members::title_of(title, first_name, username)
            == first_name,
        title is None && first_name is None ==> (username matches Some(name) ==> members::title_of(
            title,
            first_name,
            username,
        ) == Some(seq!['@'] + name)),
        title is None && first_name is None && username is None ==> members::title_of(
            title,
            first_name,
            username,
        ) is None,
{
    reveal_strlit("@");
    assert("@"@ =~= seq!['@']);
}

/// A text is sent as all of its parts, in order and whole. Each is announced, previewed and read as
/// asked for, and only the first answers a message.
pub proof fn every_part_is_sent_as_asked(
    bodies: Seq<Seq<char>>,
    parse_mode: Option<ParseMode>,
    options: SendOptions,
    posts: Seq<Post>,
    answered: i32,
    i: int,
)
    requires
        outgoing::posted(bodies, parse_mode, options, posts),
        0 <= i < bodies.len(),
    ensures
        posts.len() == bodies.len(),
        posts[i].body@ == bodies[i],
        posts[i].parse_mode == parse_mode,
        posts[i].silent <==> options.silent,
        posts[i].link_preview.is_disabled <==> !options.link_preview,
        i > 0 ==> posts[i].reply_to is None,
        options.reply_to is None ==> posts[i].reply_to is None,
        i == 0 && (options.reply_to matches Some(raw) && raw@ == text::signed_decimal(
            answered as int,
        )) ==> posts[0].reply_to == Some(answered),
{
    text::a_signed_number_survives_its_text_form(answered as int, i32::MIN as int, i32::MAX as int);
    assert(posts[i].body@ == bodies[i]);
}

/// Files are sent in order, as photos or as files as asked for, and the caption stands on the first.
pub proof fn every_file_is_sent_as_asked(
    paths: Seq<Seq<char>>,
    caption: Option<Seq<char>>,
    as_photo: bool,
    parse_mode: Option<ParseMode>,
    items: Seq<FileItem>,
    i: int,
)
    requires
        outgoing::itemised(paths, caption, as_photo, parse_mode, items),
        0 <= i < paths.len(),
    ensures
        items.len() == paths.len(),
        items[i].path@ == paths[i],
        items[i].as_photo <==> as_photo,
        i == 0 ==> items[i].caption.deep_view() == caption,
        i == 0 && caption is Some ==> items[i].parse_mode == parse_mode,
        i > 0 ==> items[i].caption is None && items[i].parse_mode is None,
        caption is None ==> items[i].caption is None && items[i].parse_mode is None,
{
    assert(items[i].path@ == paths[i]);
}

/// A caption or an edit is one body, as it was rendered. An edit to nothing or to several parts is
/// refused, and so is a caption of several; no caption is none.
pub proof fn one_body_is_sent_whole(id: Seq<char>, bodies: Seq<Seq<char>>)
    ensures
        bodies.len() == 1 ==> (outgoing::captioned(id, bodies) matches Ok(body) && body == Some(
            bodies[0],
        )) && (outgoing::edited(id, bodies) matches Ok(body) && body == bodies[0]),
        bodies.len() == 0 ==> (outgoing::captioned(id, bodies) matches Ok(body) && body is None)
            && outgoing::edited(id, bodies) is Err,
        bodies.len() > 1 ==> outgoing::captioned(id, bodies) is Err && outgoing::edited(id, bodies)
            is Err,
        outgoing::captioned(id, bodies) matches Err(error) ==> error is Delivery,
        bodies.len() == 0 ==> outgoing::edited(id, bodies) == Err::<Seq<char>, ChannelErrorView>(
            ChannelErrorView::Delivery {
                channel: id,
                message: "the replacement text renders to nothing, so there is no message to leave \
                          behind. Use delete_message to remove it instead."@,
            },
        ),
        bodies.len() > 1 ==> outgoing::edited(id, bodies) == Err::<Seq<char>, ChannelErrorView>(
            ChannelErrorView::Delivery {
                channel: id,
                message: "the replacement text is too long for one message ("@ + text::decimal(
                    bodies.len(),
                ) + " parts); an edit cannot span several"@,
            },
        ),
{
}

/// A message being answered is the one whose id was handed back, and what is no id is refused.
pub proof fn an_answer_goes_to_its_message(message: i32)
    ensures
        outgoing::answered(None) matches Ok(id) && id is None,
        outgoing::answered(Some(text::signed_decimal(message as int))) matches Ok(id) && id == Some(
            message,
        ),
        outgoing::answered(Some(Seq::empty())) is Err,
        outgoing::quoted(None) is None,
{
    an_id_is_read_back(message, 0);
    assert(text::trimmed(Seq::empty()) =~= Seq::empty());
}

/// A channel that writes HTML says so, and one that sends text as it stands says nothing of how it is
/// to be read.
pub proof fn html_is_announced(parse_mode: TelegramParseMode)
    ensures
        outgoing::mode_of(parse_mode) == Some(ParseMode::Html) <==> parse_mode
            == TelegramParseMode::Html,
        outgoing::mode_of(parse_mode) is None <==> parse_mode == TelegramParseMode::Verbatim,
{
}

/// The pictures that an agent can be shown are told by their extension, whatever its case.
pub proof fn a_picture_is_told_by_its_extension(extension: Seq<char>)
    ensures
        text::alike(extension, "jpg"@) || text::alike(extension, "jpeg"@)
            ==> outgoing::media_type_of(extension) == Some("image/jpeg"@),
        text::alike(extension, "png"@) ==> outgoing::media_type_of(extension) == Some("image/png"@),
        text::alike(extension, "gif"@) ==> outgoing::media_type_of(extension) == Some("image/gif"@),
        text::alike(extension, "webp"@) ==> outgoing::media_type_of(extension) == Some(
            "image/webp"@,
        ),
        outgoing::media_type_of(extension) is Some ==> text::alike(extension, "jpg"@)
            || text::alike(extension, "jpeg"@) || text::alike(extension, "png"@) || text::alike(
            extension,
            "gif"@,
        ) || text::alike(extension, "webp"@),
{
    reveal_strlit("jpg");
    reveal_strlit("jpeg");
    reveal_strlit("png");
    reveal_strlit("gif");
    reveal_strlit("webp");
    let small = text::lowered(extension);
    text::lowering_is_folding(extension, "jpg"@);
    text::lowering_is_folding(extension, "jpeg"@);
    text::lowering_is_folding(extension, "png"@);
    text::lowering_is_folding(extension, "gif"@);
    text::lowering_is_folding(extension, "webp"@);
    if small == "gif"@ {
        assert(small[0] == 'g');
    }
    if small == "png"@ {
        assert(small[0] == 'p');
    }
    if small == "webp"@ {
        assert(small[0] == 'w');
    }
}

/// Who a sent message is by is told of it as of a received one: the account, or the chat where there
/// is none.
pub proof fn a_sent_message_names_its_sender(message: Message)
    ensures
        ({
            let sender = super::sent_by(message);
            &&& sender.on_behalf_of_chat <==> message.from is None
            &&& message.from matches Some(user) ==> {
                &&& text::unsigned_in(sender.id, u64::MAX as nat) == Some(user.id as nat)
                &&& names(sender.display_name, user)
                &&& sender.is_bot == user.is_bot
                &&& user.username is Some <==> sender.username is Some
                &&& user.username matches Some(username) ==> sender.username == Some(username@)
            }
            &&& message.from is None ==> {
                &&& sender.id.len() == 0
                &&& sender.username is None
                &&& !sender.is_bot
                &&& message.chat.title matches Some(title) ==> sender.display_name == title@
                &&& message.chat.title is None ==> sender.display_name == "unknown sender"@
            }
        }),
{
    if let Some(user) = message.from {
        a_user_goes_by_both_names(user);
        text::a_number_survives_its_text_form(user.id as nat, u64::MAX as nat);
    }
}

} // verus!
