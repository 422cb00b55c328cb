//! The Discord connector: who is heard, what a message means, and what is sent.

use std::collections::{HashMap, HashSet};

use vstd::prelude::*;
use vstd::string::*;

use crate::channel::discord::cache::{Channel, ChannelType, Guild, NameCache, NamesView, Role};
use crate::channel::discord::message::{Mention, Message, MessageFile, MessageType, Snapshot, Sticker};
use crate::channel::discord::presence::{GuildPresenceView, PresenceCache, Status};
use crate::channel::ids::{ChannelId, ConversationId, ConversationView};
use crate::channel::{
    Admission, Attachment, AttachmentKind, AttachmentView, ChannelCapabilities, ChannelError,
    ChannelErrorView, ChatKind, EventView, ForwardOrigin, ForwardView, InboundEvent, InboundMessage,
    InboundView, Platform, ReplyContext, ReplyView, Sender, SenderView,
};
use crate::config::DiscordConfig;
use crate::table;
use crate::text;
use crate::time::{instant_of_micros, to_rfc3339, Instant};

pub mod cache;
pub mod laws;
pub mod members;
pub mod message;
pub mod outgoing;
pub mod presence;
pub mod render;
pub mod search;

verus! {

broadcast use vstd::std_specs::hash::group_hash_axioms;

/// Longest excerpt kept from a replied-to message.
pub const REPLY_EXCERPT_CHARS: usize = 160;

/// One configured Discord bot: its grants, its switches, and what it has learned from the gateway.
pub struct DiscordChannel {
    pub id: ChannelId,
    pub allowed_users: HashSet<u64>,
    pub allowed_guilds: HashSet<u64>,
    pub allowed_channels: HashSet<u64>,
    pub allowed_roles: HashSet<u64>,
    pub allow_all: bool,
    pub admin_tools: bool,
    pub message_content: bool,
    pub presence: bool,
    pub mention_everyone: bool,
    pub mention_roles: bool,
    pub names: NameCache,
    /// Who is online, accumulated from the gateway. Empty and unused unless `presence` is set.
    pub presences: PresenceCache,
    /// The bot's own account id, once it is known. It is what `addressed` compares against, and
    /// what keeps the bot from answering itself.
    pub identity: Option<u64>,
    /// Direct-message channels already opened, so dialling the same person twice costs one call.
    pub dm_channels: HashMap<u64, u64>,
}

/// Which gateway intents to identify with.
///
/// The member list is deliberately absent. The partial member object, roles included, rides along
/// on every server message, and the member lookup works without it, so requesting a second
/// privileged intent would buy nothing this connector uses.
#[derive(Debug, Clone, Copy, PartialEq, Eq, Structural)]
pub struct Intents {
    pub guilds: bool,
    pub guild_messages: bool,
    pub direct_messages: bool,
    pub guild_message_typing: bool,
    pub direct_message_typing: bool,
    pub guild_members: bool,
    /// Privileged: closes the gateway where the portal does not grant it.
    pub message_content: bool,
    /// Privileged: closes the gateway where the portal does not grant it.
    pub guild_presences: bool,
}

/// Who an outgoing message may ping.
#[derive(Debug, Clone, Copy, PartialEq, Eq, Structural)]
pub enum MentionType {
    Users,
    Roles,
    Everyone,
}

/// Who an outgoing message may ping, and whether answering somebody pings them.
#[derive(Debug)]
pub struct AllowedMentions {
    pub parse: Vec<MentionType>,
    pub replied_user: bool,
}

/// What an outgoing message suppresses.
#[derive(Debug, Clone, Copy, PartialEq, Eq, Structural)]
pub struct MessageFlags {
    pub suppress_embeds: bool,
    pub suppress_notifications: bool,
}

/// Why a message is let through, if it is.
///
/// Ordered from the most specific grant to the least, so the reason is the narrowest true one.
pub open spec fn admitted(
    channel: DiscordChannel,
    user_id: u64,
    channel_id: u64,
    guild_id: Option<u64>,
    roles: Seq<u64>,
    direct: bool,
) -> Option<Admission> {
    if direct && channel.allowed_users@.contains(user_id) {
        Some(Admission::User)
    } else if exists|i: int|
        0 <= i < roles.len() && channel.allowed_roles@.contains(#[trigger] roles[i]) {
        Some(Admission::Role)
    } else if channel.allowed_channels@.contains(channel_id) || (cache::parent_of(
        channel.names@,
        channel_id,
    ) matches Some(parent) && channel.allowed_channels@.contains(parent)) {
        Some(Admission::Chat)
    } else if guild_id matches Some(guild) && channel.allowed_guilds@.contains(guild) {
        Some(Admission::Server)
    } else if channel.allow_all {
        Some(Admission::Open)
    } else {
        None
    }
}

/// Whether a message is aimed at the bot: said where nobody else could be meant, naming the bot, or
/// answering it.
pub open spec fn aimed(
    identity: Option<u64>,
    message: Message,
    channel_kind: Option<ChannelType>,
) -> bool {
    ||| channel_kind == Some(ChannelType::Private)
    ||| message.guild_id is None
    ||| identity matches Some(me) && ((exists|i: int|
        0 <= i < message.mentions@.len() && (#[trigger] message.mentions@[i]).id == me) || (
    message.referenced_message matches Some(replied) && replied.author.id == me))
}

/// Discord's channel type, as the bridge's notion of a chat's shape.
pub open spec fn shape(kind: Option<ChannelType>) -> ChatKind {
    match kind {
        Some(ChannelType::Private) => ChatKind::Direct,
        Some(ChannelType::GuildAnnouncement | ChannelType::AnnouncementThread) => ChatKind::Channel,
        Some(
            ChannelType::GuildText
            | ChannelType::GuildVoice
            | ChannelType::GuildStageVoice
            | ChannelType::PublicThread
            | ChannelType::PrivateThread
            | ChannelType::Group,
        ) => ChatKind::Group,
        _ => ChatKind::Unknown,
    }
}

/// The name that a message gives somebody, by nickname where they have one.
pub open spec fn mention_name(mentions: Seq<Mention>, id: nat) -> Option<Seq<char>>
    decreases mentions.len(),
{
    if mentions.len() == 0 {
        None
    } else if mentions[0].id == id {
        Some(text::either(mentions[0].nick.deep_view(), mentions[0].name@))
    } else {
        mention_name(mentions.skip(1), id)
    }
}

/// `text` with an `@` in front, or `otherwise` where there is none.
pub open spec fn at_name(name: Option<Seq<char>>, otherwise: Seq<char>) -> Seq<char> {
    match name {
        Some(name) => "@"@ + name,
        None => otherwise,
    }
}

/// A token as it was written.
pub open spec fn bracketed(token: Seq<char>) -> Seq<char> {
    "<"@ + token + ">"@
}

/// What a role token reads as.
pub open spec fn role_token(names: NamesView, raw: Seq<char>, guild_id: Option<u64>) -> Seq<char> {
    at_name(
        match (text::positive(raw), guild_id) {
            (Some(role), Some(guild)) => cache::role_name(names, guild, role),
            _ => None,
        },
        "@a role"@,
    )
}

/// What a user token reads as.
pub open spec fn user_token(raw: Seq<char>, mentions: Seq<Mention>) -> Seq<char> {
    let digits = match text::stripped(raw, "!"@) {
        Some(rest) => rest,
        None => raw,
    };
    at_name(
        match text::unsigned_in(digits, u64::MAX as nat) {
            Some(id) => mention_name(mentions, id),
            None => None,
        },
        "@someone"@,
    )
}

/// What a channel token reads as.
pub open spec fn channel_token(names: NamesView, raw: Seq<char>) -> Seq<char> {
    match text::positive(raw) {
        Some(id) => text::either(cache::channel_name(names, id), "#a channel"@),
        None => "#a channel"@,
    }
}

/// What a time token reads as.
pub open spec fn time_token(token: Seq<char>, rest: Seq<char>) -> Seq<char> {
    match text::signed_in(text::until(rest, ':'), i64::MIN as int, i64::MAX as int) {
        Some(seconds) => text::either(crate::time::chrono_rfc3339(seconds as i64, 0), bracketed(token)),
        None => bracketed(token),
    }
}

/// What an emoji token reads as, or the token itself where it is no emoji.
pub open spec fn emoji_token(token: Seq<char>) -> Seq<char> {
    let emoji = match text::stripped(token, "a"@) {
        Some(rest) => rest,
        None => token,
    };
    match text::stripped(emoji, ":"@) {
        Some(rest) => match text::parts_at(rest, ':') {
            Some((name, _)) => ":"@ + name + ":"@,
            None => bracketed(token),
        },
        None => bracketed(token),
    }
}

/// What one `<...>` token reads as.
pub open spec fn token_text(
    names: NamesView,
    token: Seq<char>,
    mentions: Seq<Mention>,
    guild_id: Option<u64>,
) -> Seq<char> {
    match text::stripped(token, "@&"@) {
        Some(raw) => role_token(names, raw, guild_id),
        None => match text::stripped(token, "@"@) {
            Some(raw) => user_token(raw, mentions),
            None => match text::stripped(token, "#"@) {
                Some(raw) => channel_token(names, raw),
                None => match text::stripped(token, "t:"@) {
                    Some(rest) => time_token(token, rest),
                    None => emoji_token(token),
                },
            },
        },
    }
}

/// `content` with Discord's id markup made into names.
pub open spec fn dementioned(
    names: NamesView,
    content: Seq<char>,
    mentions: Seq<Mention>,
    guild_id: Option<u64>,
) -> Seq<char>
    decreases content.len(),
{
    if content.len() == 0 {
        Seq::empty()
    } else if content[0] == '<' {
        match text::parts_at(content.skip(1), '>') {
            None => content,
            Some((token, rest)) => token_text(names, token, mentions, guild_id) + dementioned(
                names,
                rest,
                mentions,
                guild_id,
            ),
        }
    } else {
        seq![content[0]] + dementioned(names, content.skip(1), mentions, guild_id)
    }
}

/// The excerpt kept of a replied-to message, where it says anything.
pub open spec fn excerpted(content: Seq<char>) -> Option<Seq<char>> {
    let trimmed = text::trimmed(content);
    if trimmed.len() == 0 {
        None
    } else {
        Some(text::on_one_line(text::shortened(trimmed, REPLY_EXCERPT_CHARS as int)))
    }
}

/// What a sticker is announced as.
pub open spec fn sticker_note(sticker: Sticker) -> Seq<char> {
    if sticker.lottie {
        "sticker "@ + text::debug_quoted(sticker.name@) + " (animated, not viewable)"@
    } else {
        "sticker "@ + text::debug_quoted(sticker.name@)
    }
}

/// What a message carries that has neither text nor a file.
pub open spec fn notes_of(channel: DiscordChannel, message: Message) -> Seq<Seq<char>> {
    text::only_if(
        !channel.message_content && message.content@.len() == 0 && message.attachments@.len() == 0,
        "this message's text is hidden because the bot does not hold Discord's message content \
         intent"@,
    ) + message.stickers@.map_values(|sticker: Sticker| sticker_note(sticker)) + text::only_if(
        message.has_poll,
        "a poll, which the bridge cannot read the options of"@,
    )
}

/// `body` with the text of a run of forwarded messages appended, but for those that say nothing.
pub open spec fn with_snapshots(
    names: NamesView,
    body: Seq<char>,
    snapshots: Seq<Snapshot>,
    guild_id: Option<u64>,
) -> Seq<char>
    decreases snapshots.len(),
{
    if snapshots.len() == 0 {
        body
    } else {
        let before = with_snapshots(names, body, snapshots.drop_last(), guild_id);
        let snapshot = snapshots.last();
        let quoted = dementioned(names, snapshot.content@, snapshot.mentions@, guild_id);
        if text::blank(quoted) {
            before
        } else if before.len() == 0 {
            quoted
        } else {
            before + "\n\n"@ + quoted
        }
    }
}

/// What a message replies to.
pub open spec fn reply_of(names: NamesView, message: Message) -> Option<ReplyView> {
    match message.referenced_message {
        Some(replied) => Some(
            ReplyView {
                message_id: text::decimal(replied.id as nat),
                sender_name: Some(
                    text::either(replied.author.global_name.deep_view(), replied.author.name@),
                ),
                excerpt: excerpted(
                    dementioned(
                        names,
                        replied.content@,
                        replied.mentions@,
                        match replied.guild_id {
                            Some(guild) => Some(guild),
                            None => message.guild_id,
                        },
                    ),
                ),
            },
        ),
        None => match message.reference_id {
            Some(id) => Some(
                ReplyView {
                    message_id: text::decimal(id as nat),
                    sender_name: None,
                    excerpt: None,
                },
            ),
            None => None,
        },
    }
}

/// What kind of file Discord says a file is.
pub open spec fn file_kind(media_type: Option<Seq<char>>, voice: bool) -> AttachmentKind {
    match media_type {
        None => AttachmentKind::Document,
        Some(media_type) => if media_type == "image/gif"@ {
            AttachmentKind::Animation
        } else if text::begins(media_type, "image/"@) {
            AttachmentKind::Photo
        } else if text::begins(media_type, "video/"@) {
            AttachmentKind::Video
        } else if text::begins(media_type, "audio/"@) {
            if voice {
                AttachmentKind::Voice
            } else {
                AttachmentKind::Audio
            }
        } else {
            AttachmentKind::Document
        },
    }
}

/// A file on a message, as a handle.
pub open spec fn file_handle(message: Message, file: MessageFile) -> AttachmentView {
    AttachmentView {
        kind: file_kind(file.content_type.deep_view(), file.timed && file.waveform),
        file_name: Some(file.filename@),
        media_type: file.content_type.deep_view(),
        bytes: Some(file.size),
        width: None,
        height: None,
        duration_secs: None,
        file_ref: text::decimal(message.channel_id as nat) + "/"@ + text::decimal(
            message.id as nat,
        ) + "/"@ + text::decimal(file.id as nat),
        thumb_ref: None,
        handle: None,
    }
}

/// The conversation in a channel.
pub open spec fn conversation_in(id: Seq<char>, channel_id: u64) -> ConversationView {
    ConversationView { channel: id, chat: text::decimal(channel_id as nat), thread: None }
}

/// The roles that a message says its author holds.
pub open spec fn author_roles(message: Message) -> Seq<u64> {
    match message.member {
        Some(member) => member.roles@,
        None => Seq::empty(),
    }
}

/// The shape of the chat a message was said in. A direct message is recognised by belonging to no
/// server, since its channel is never announced.
pub open spec fn chat_of(message: Message, channel_kind: Option<ChannelType>) -> ChatKind {
    match channel_kind {
        Some(kind) => shape(Some(kind)),
        None => if message.guild_id is None {
            ChatKind::Direct
        } else {
            ChatKind::Unknown
        },
    }
}

/// The name that a message gives its author.
pub open spec fn author_name(message: Message) -> Seq<char> {
    let account = text::either(message.author.global_name.deep_view(), message.author.name@);
    match message.member {
        Some(member) => text::either(member.nick.deep_view(), account),
        None => account,
    }
}

/// What tells an event apart: an edit is a new event rather than a replacement, so it has an id of
/// its own or it would be taken for a redelivery of the original.
pub open spec fn external_id(message: Message) -> Seq<char> {
    match message.edited_timestamp {
        Some(edited) => text::decimal(message.id as nat) + ":e"@ + text::signed_decimal(
            edited as int / 1_000,
        ),
        None => text::decimal(message.id as nat),
    }
}

/// When a message was edited, where it was.
pub open spec fn edited_at(message: Message) -> Option<Instant> {
    match message.edited_timestamp {
        Some(edited) => Some((edited * 1_000) as Instant),
        None => None,
    }
}

/// Whether a message is from somebody other than the bot, rather than from Discord itself.
pub open spec fn spoken(channel: DiscordChannel, message: Message) -> bool {
    channel.identity != Some(message.author.id) && message.kind != MessageType::Notice
}

/// The reason a message is let through, if it is.
pub open spec fn message_admission(
    channel: DiscordChannel,
    message: Message,
    channel_kind: Option<ChannelType>,
) -> Option<Admission> {
    admitted(
        channel,
        message.author.id,
        message.channel_id,
        message.guild_id,
        author_roles(message),
        chat_of(message, channel_kind) == ChatKind::Direct,
    )
}

/// The event that a message makes, if it makes one.
pub open spec fn event_of(
    channel: DiscordChannel,
    message: Message,
    channel_kind: Option<ChannelType>,
    now: Instant,
) -> Option<InboundView> {
    let names = channel.names@;
    match message_admission(channel, message, channel_kind) {
        Some(admission) if spoken(channel, message) => Some(
            InboundView {
                channel: channel.id@,
                platform: Platform::Discord,
                conversation: conversation_in(channel.id@, message.channel_id),
                external_id: external_id(message),
                message_id: text::decimal(message.id as nat),
                chat_kind: chat_of(message, channel_kind),
                chat_title: cache::described(names, message.channel_id),
                sender: SenderView {
                    id: text::decimal(message.author.id as nat),
                    display_name: author_name(message),
                    username: Some(message.author.name@),
                    is_bot: message.author.bot,
                    on_behalf_of_chat: message.via_webhook,
                },
                admission,
                sender_allowlisted: channel.allowed_users@.contains(message.author.id),
                addressed: aimed(channel.identity, message, channel_kind),
                sender_roles: match message.guild_id {
                    Some(guild) => cache::role_names(names, guild, author_roles(message)),
                    None => Seq::empty(),
                },
                text: with_snapshots(
                    names,
                    dementioned(names, message.content@, message.mentions@, message.guild_id),
                    message.snapshots@,
                    message.guild_id,
                ),
                reply_to: reply_of(names, message),
                edited_at: edited_at(message),
                forwarded_from: if message.snapshots@.len() > 0 {
                    Some(
                        ForwardView::HiddenUser {
                            name: "someone else (Discord does not name the author of a forward)"@,
                        },
                    )
                } else {
                    None
                },
                group_id: None,
                attachments: message.attachments@.map_values(
                    |file: MessageFile| file_handle(message, file),
                ),
                notes: notes_of(channel, message),
                arrived_mid_turn: false,
                timestamp: match crate::time::moment_of_micros(message.timestamp) {
                    Some(at) => at as Instant,
                    None => now,
                },
            },
        ),
        _ => None,
    }
}

/// Discord's channel type, as the bridge's notion of a chat's shape.
pub fn chat_kind(kind: Option<ChannelType>) -> (chat: ChatKind)
    ensures
        chat == shape(kind),
{
    match kind {
        Some(ChannelType::Private) => ChatKind::Direct,
        // Announcement channels are broadcast-shaped, which is the distinction `Channel` draws.
        Some(ChannelType::GuildAnnouncement | ChannelType::AnnouncementThread) => ChatKind::Channel,
        Some(
            ChannelType::GuildText
            | ChannelType::GuildVoice
            | ChannelType::GuildStageVoice
            | ChannelType::PublicThread
            | ChannelType::PrivateThread
            | ChannelType::Group,
        ) => ChatKind::Group,
        // A message arrived, so it is some kind of room; which one the gateway did not say.
        _ => ChatKind::Unknown,
    }
}

/// Classifies an attachment from what Discord says it is.
pub fn attachment_kind(media_type: Option<&str>, voice: bool) -> (kind: AttachmentKind)
    ensures
        kind == file_kind(media_type.deep_view(), voice),
{
    match media_type {
        None => AttachmentKind::Document,
        Some(media_type) => {
            if text::same(media_type, "image/gif") {
                AttachmentKind::Animation
            } else if text::starts_with(media_type, "image/") {
                AttachmentKind::Photo
            } else if text::starts_with(media_type, "video/") {
                AttachmentKind::Video
            } else if text::starts_with(media_type, "audio/") {
                if voice {
                    AttachmentKind::Voice
                } else {
                    AttachmentKind::Audio
                }
            } else {
                AttachmentKind::Document
            }
        },
    }
}

/// The excerpt kept of a replied-to message.
pub fn excerpt(content: &str) -> (kept: Option<String>)
    ensures
        kept.deep_view() == excerpted(content@),
{
    let trimmed = text::trim(content);
    if text::chars_of(trimmed.as_str()).len() == 0 {
        return None;
    }
    let short = text::truncate(trimmed.as_str(), REPLY_EXCERPT_CHARS);
    Some(text::one_line(short.as_str()))
}

/// The name that a message gives somebody.
fn find_mention(mentions: &Vec<Mention>, id: u64) -> (name: Option<String>)
    ensures
        name.deep_view() == mention_name(mentions@, id as nat),
{
    let mut i: usize = 0;
    assert(mentions@.skip(0) =~= mentions@);
    while i < mentions.len()
        invariant
            i <= mentions.len(),
            mention_name(mentions@, id as nat) == mention_name(mentions@.skip(i as int), id as nat),
        decreases mentions.len() - i,
    {
        assert(mentions@.skip(i as int)[0] == mentions@[i as int]);
        assert(mentions@.skip(i as int).skip(1) =~= mentions@.skip(i + 1));
        if mentions[i].id == id {
            return Some(text::or(&mentions[i].nick, mentions[i].name.as_str()));
        }
        i += 1;
    }
    None
}

/// A token as it was written.
fn bracket(token: &str) -> (text: String)
    ensures
        text@ == bracketed(token@),
{
    "<".to_owned().concat(token).concat(">")
}

impl DiscordChannel {
    /// A bot that has learned nothing yet.
    pub fn new(id: ChannelId, config: &DiscordConfig) -> (channel: DiscordChannel)
        ensures
            channel.id == id,
            channel.allowed_users@ == config.allowed_users@.to_set(),
            channel.allowed_guilds@ == config.allowed_guilds@.to_set(),
            channel.allowed_channels@ == config.allowed_channels@.to_set(),
            channel.allowed_roles@ == config.allowed_roles@.to_set(),
            channel.allow_all == config.allow_all,
            channel.admin_tools == config.admin_tools,
            channel.message_content == config.message_content,
            channel.presence == config.presence,
            channel.mention_everyone == config.mention_everyone,
            channel.mention_roles == config.mention_roles,
            channel.names@ == (NamesView { guilds: Map::empty(), channels: Map::empty() }),
            channel.presences@ == Map::<u64, GuildPresenceView>::empty(),
            channel.identity is None,
            channel.dm_channels@ == Map::<u64, u64>::empty(),
    {
        DiscordChannel {
            id,
            allowed_users: table::set_of(&config.allowed_users),
            allowed_guilds: table::set_of(&config.allowed_guilds),
            allowed_channels: table::set_of(&config.allowed_channels),
            allowed_roles: table::set_of(&config.allowed_roles),
            allow_all: config.allow_all,
            admin_tools: config.admin_tools,
            message_content: config.message_content,
            presence: config.presence,
            mention_everyone: config.mention_everyone,
            mention_roles: config.mention_roles,
            names: NameCache::new(),
            presences: PresenceCache::new(),
            identity: None,
            dm_channels: HashMap::new(),
        }
    }

    /// The names learned from the gateway.
    pub fn names(&self) -> (names: &NameCache)
        ensures
            *names == self.names,
    {
        &self.names
    }

    /// Which gateway intents to identify with.
    ///
    /// The two typing intents are unprivileged, so unlike the message content and presence intents
    /// they need no portal toggle and cannot close the gateway. They are what lets a conversation
    /// be held until somebody stops composing rather than until a guessed timer expires.
    pub fn intents(&self) -> (intents: Intents)
        ensures
            intents == (Intents {
                guilds: true,
                guild_messages: true,
                direct_messages: true,
                guild_message_typing: true,
                direct_message_typing: true,
                guild_members: false,
                message_content: self.message_content,
                guild_presences: self.presence,
            }),
    {
        Intents {
            guilds: true,
            guild_messages: true,
            direct_messages: true,
            guild_message_typing: true,
            direct_message_typing: true,
            guild_members: false,
            message_content: self.message_content,
            guild_presences: self.presence,
        }
    }

    /// Why a message is allowed through, or `None` to drop it.
    ///
    /// Ordered from the most specific grant to the least so the agent is told the narrowest true
    /// reason: somebody individually allowlisted reads as `user allowlist` even when the server
    /// they spoke in would also have admitted them.
    pub fn admission(
        &self,
        user_id: u64,
        channel_id: u64,
        guild_id: Option<u64>,
        roles: &Vec<u64>,
        direct: bool,
    ) -> (admission: Option<Admission>)
        ensures
            admission == admitted(*self, user_id, channel_id, guild_id, roles@, direct),
    {
        // Direct messages only. `allowed_users` names people the bot should be reachable by, which
        // is not the same as a pass into every room it can see. A group direct message is not one:
        // up to ten people can be in it.
        if direct && self.allowed_users.contains(&user_id) {
            return Some(Admission::User);
        }
        let mut i: usize = 0;
        while i < roles.len()
            invariant
                i <= roles.len(),
                !(direct && self.allowed_users@.contains(user_id)),
                forall|j: int|
                    0 <= j < i ==> !self.allowed_roles@.contains(#[trigger] roles@[j]),
            decreases roles.len() - i,
        {
            // Not `User`: nobody looked at this account. Somebody with the run of the server can
            // hand the role to anyone, and the agent should be told which of the two it is.
            if self.allowed_roles.contains(&roles[i]) {
                assert(self.allowed_roles@.contains(roles@[i as int]));
                return Some(Admission::Role);
            }
            i += 1;
        }
        if self.allowed_channels.contains(&channel_id) {
            return Some(Admission::Chat);
        }
        // A thread inherits the standing of the channel it hangs off. Allowlisting `#support` and
        // then being deaf inside every thread started in it would be a surprise, and the thread is
        // visible to exactly the people the parent already admits.
        if let Some(parent) = self.names.parent_of(channel_id) {
            if self.allowed_channels.contains(&parent) {
                return Some(Admission::Chat);
            }
        }
        if let Some(guild) = guild_id {
            if self.allowed_guilds.contains(&guild) {
                return Some(Admission::Server);
            }
        }
        if self.allow_all {
            return Some(Admission::Open);
        }
        None
    }

    /// Whether this message was aimed at the bot rather than merely said in front of it.
    ///
    /// Discord answers this natively. The message names the people it mentions, and replying with
    /// the ping left on puts the person being replied to among them, so one id comparison covers
    /// both being named and being answered. No text is searched and no username is compared.
    ///
    /// Role pings and `@everyone` deliberately do not count. Both are broadcasts rather than
    /// address, and counting them would make one `@everyone` in a large server the cheapest
    /// possible way for anyone to force a turn.
    pub fn addressed(&self, message: &Message, channel_kind: Option<ChannelType>) -> (aimed_at: bool)
        ensures
            aimed_at == aimed(self.identity, *message, channel_kind),
    {
        // In a direct message there is nobody else it could be for.
        if let Some(ChannelType::Private) = channel_kind {
            return true;
        }
        if message.guild_id.is_none() {
            return true;
        }
        let me = match self.identity {
            Some(me) => me,
            None => {
                return false;
            },
        };
        let mut i: usize = 0;
        while i < message.mentions.len()
            invariant
                i <= message.mentions.len(),
                channel_kind != Some(ChannelType::Private),
                message.guild_id is Some,
                self.identity == Some(me),
                forall|j: int| 0 <= j < i ==> (#[trigger] message.mentions@[j]).id != me,
            decreases message.mentions.len() - i,
        {
            if message.mentions[i].id == me {
                assert(message.mentions@[i as int].id == me);
                return true;
            }
            i += 1;
        }
        // A reply with the ping turned off mentions nobody, but answering the agent is still
        // addressing it.
        match &message.referenced_message {
            Some(replied) => replied.author.id == me,
            None => false,
        }
    }

    /// One `<...>` token, resolved to a name or left as it was.
    pub fn resolve_token(&self, token: &str, mentions: &Vec<Mention>, guild_id: Option<u64>) -> (out:
        String)
        ensures
            out@ == token_text(self.names@, token@, mentions@, guild_id),
    {
        if let Some(raw) = text::strip_prefix(token, "@&") {
            let name = match (text::parse_positive(raw.as_str()), guild_id) {
                (Some(role), Some(guild)) => self.names.role_name(guild, role),
                _ => None,
            };
            return match name {
                Some(name) => "@".to_owned().concat(name.as_str()),
                None => "@a role".to_owned(),
            };
        }
        if let Some(raw) = text::strip_prefix(token, "@") {
            // `<@!123>` is the old nickname form and still turns up in older messages.
            let digits = match text::strip_prefix(raw.as_str(), "!") {
                Some(rest) => rest,
                None => raw,
            };
            let name = match text::parse_u64(digits.as_str()) {
                Some(id) => find_mention(mentions, id),
                None => None,
            };
            return match name {
                Some(name) => "@".to_owned().concat(name.as_str()),
                None => "@someone".to_owned(),
            };
        }
        if let Some(raw) = text::strip_prefix(token, "#") {
            return match text::parse_positive(raw.as_str()) {
                Some(id) => text::or(&self.names.channel_name(id), "#a channel"),
                None => "#a channel".to_owned(),
            };
        }
        if let Some(rest) = text::strip_prefix(token, "t:") {
            // `<t:1712345678:R>` renders as a relative time in the client. The agent cannot
            // evaluate that, so it becomes the absolute instant it stands for.
            let seconds = text::before(rest.as_str(), ':');
            return match text::parse_i64(seconds.as_str()) {
                Some(seconds) => match to_rfc3339(seconds, 0) {
                    Some(at) => at,
                    None => bracket(token),
                },
                None => bracket(token),
            };
        }
        // `<:name:id>` and `<a:name:id>` are custom emoji.
        let emoji = match text::strip_prefix(token, "a") {
            Some(rest) => rest,
            None => token.to_owned(),
        };
        if let Some(rest) = text::strip_prefix(emoji.as_str(), ":") {
            if let Some((name, _)) = text::split_once(rest.as_str(), ':') {
                return ":".to_owned().concat(name.as_str()).concat(":");
            }
        }
        bracket(token)
    }

    /// Rewrites Discord's id markup into names.
    ///
    /// Raw content is full of `<@123>`, `<@&456>`, `<#789>`, `<:shrug:111>` and `<t:1712:R>`. Left
    /// alone the agent reads opaque numbers, so they are resolved from the people the message names
    /// and from what the gateway announced.
    ///
    /// This does change what the sender literally typed, inside text the envelope fences as
    /// verbatim. The alternative is worse: an agent that cannot tell who was named.
    pub fn demention(&self, content: &str, mentions: &Vec<Mention>, guild_id: Option<u64>) -> (out:
        String)
        ensures
            out@ == dementioned(self.names@, content@, mentions@, guild_id),
    {
        let chars = text::chars_of(content);
        let total: usize = chars.len();
        let mut out = String::new();
        let mut i: usize = 0;
        let ghost whole = dementioned(self.names@, content@, mentions@, guild_id);
        assert(content@.skip(0) =~= content@);
        assert(out@ + whole =~= whole);
        while i < total
            invariant
                i <= total,
                total == chars@.len(),
                chars@ == content@,
                whole == dementioned(self.names@, content@, mentions@, guild_id),
                out@ + dementioned(self.names@, content@.skip(i as int), mentions@, guild_id)
                    == whole,
            decreases total - i,
        {
            let ghost rest = content@.skip(i as int);
            let ghost before = out@;
            assert(rest[0] == chars@[i as int]);
            if chars[i] == '<' {
                let after = text::slice_of(&chars, i + 1, total);
                assert(after@ =~= rest.skip(1));
                match text::split_once(after.as_str(), '>') {
                    None => {
                        out.append(text::slice_of(&chars, i, total).as_str());
                        assert(chars@.subrange(i as int, total as int) =~= rest);
                        return out;
                    },
                    Some((token, tail)) => {
                        let length: usize = text::chars_of(token.as_str()).len();
                        proof {
                            text::until_is_a_prefix(after@, '>');
                            assert(tail@ =~= content@.skip(i + 1 + length + 1));
                        }
                        out.append(self.resolve_token(token.as_str(), mentions, guild_id).as_str());
                        i = i + 1 + length + 1;
                        proof {
                            let read = token_text(self.names@, token@, mentions@, guild_id);
                            let more = dementioned(self.names@, tail@, mentions@, guild_id);
                            assert(before + (read + more) =~= out@ + more);
                        }
                    },
                }
            } else {
                out.push(chars[i]);
                proof {
                    assert(rest.skip(1) =~= content@.skip(i + 1));
                    let more = dementioned(self.names@, rest.skip(1), mentions@, guild_id);
                    assert(before + (seq![rest[0]] + more) =~= out@ + more);
                }
                i += 1;
            }
        }
        assert(content@.skip(i as int) =~= Seq::empty());
        assert(out@ =~= whole);
        out
    }

    /// Files attached to a message, as handles rather than bytes.
    ///
    /// The reference is `<channel>/<message>/<attachment>` rather than the URL Discord supplied,
    /// because a Discord CDN URL is signed and expires. Re-requesting the message when the agent
    /// finally asks costs one call and is always correct, where storing the URL would leave a
    /// handle that works for a while and then silently does not.
    pub fn attachments(&self, message: &Message) -> (files: Vec<Attachment>)
        ensures
            files.deep_view() == message.attachments@.map_values(
                |file: MessageFile| file_handle(*message, file),
            ),
    {
        let mut files: Vec<Attachment> = Vec::new();
        let mut i: usize = 0;
        while i < message.attachments.len()
            invariant
                i <= message.attachments.len(),
                files@.len() == i,
                forall|j: int|
                    0 <= j < i ==> (#[trigger] files@[j]).deep_view() == file_handle(
                        *message,
                        message.attachments@[j],
                    ),
            decreases message.attachments.len() - i,
        {
            let file = &message.attachments[i];
            // Discord models a voice note as an ordinary audio attachment carrying the waveform its
            // recorder produced, which is the only thing distinguishing it.
            let voice = file.timed && file.waveform;
            let kind = match &file.content_type {
                Some(media_type) => attachment_kind(Some(media_type.as_str()), voice),
                None => attachment_kind(None, voice),
            };
            files.push(
                Attachment {
                    kind,
                    file_name: Some(file.filename.clone()),
                    media_type: text::copied(&file.content_type),
                    bytes: Some(file.size),
                    width: None,
                    height: None,
                    duration_secs: None,
                    file_ref: text::number(message.channel_id).concat("/").concat(
                        text::number(message.id).as_str(),
                    ).concat("/").concat(text::number(file.id).as_str()),
                    // Discord exposes no still frame for a video to a bot, so there is nothing to
                    // fall back to. Saying nothing is better than a handle that fetches the video.
                    thumb_ref: None,
                    handle: None,
                },
            );
            i += 1;
        }
        assert(files.deep_view() =~= message.attachments@.map_values(
            |file: MessageFile| file_handle(*message, file),
        ));
        files
    }
}

/// Something the gateway announced.
#[derive(Debug)]
pub enum GatewayEvent {
    /// A server came within reach, with who is online in it.
    GuildCreate { guild: Guild, presences: Vec<(u64, Status)> },
    GuildUpdate { guild_id: u64, name: String },
    GuildDelete { guild_id: u64 },
    /// A channel or thread was created or changed.
    ChannelChange { channel: Channel },
    /// A channel or thread was deleted.
    ChannelDelete { channel_id: u64 },
    /// A role was created or changed.
    RoleChange { guild_id: u64, role: Role },
    RoleDelete { guild_id: u64, role_id: u64 },
    PresenceUpdate { guild_id: u64, user_id: u64, status: Status },
    TypingStart { channel_id: u64, user_id: u64 },
    MessageCreate { message: Message },
    MessageUpdate { message: Message },
    MessageDelete { channel_id: u64, message_id: u64 },
    MessageDeleteBulk { channel_id: u64, message_ids: Vec<u64> },
    /// Anything that this connector does not act on.
    Other,
}

/// The names that are known after an event.
pub open spec fn learned(names: NamesView, event: GatewayEvent) -> NamesView {
    match event {
        GatewayEvent::GuildCreate { guild, .. } => cache::with_guild(names, guild),
        GatewayEvent::GuildUpdate { guild_id, name } => cache::renamed(names, guild_id, name@),
        GatewayEvent::GuildDelete { guild_id } => cache::without_guild(names, guild_id),
        GatewayEvent::ChannelChange { channel } => cache::with_channel(names, channel),
        GatewayEvent::ChannelDelete { channel_id } => NamesView {
            channels: names.channels.remove(channel_id),
            ..names
        },
        GatewayEvent::RoleChange { guild_id, role } => cache::with_role(
            names,
            guild_id,
            role.id,
            role.name@,
        ),
        GatewayEvent::RoleDelete { guild_id, role_id } => cache::without_role(
            names,
            guild_id,
            role_id,
        ),
        _ => names,
    }
}

/// Who is online after an event. Servers are only seeded where presence is watched.
pub open spec fn noticed(
    watching: bool,
    presences: Map<u64, GuildPresenceView>,
    event: GatewayEvent,
    now: Instant,
) -> Map<u64, GuildPresenceView> {
    match event {
        GatewayEvent::GuildCreate { guild, presences: online } => if watching {
            presence::seeded(presences, guild.id, online@, now)
        } else {
            presences
        },
        GatewayEvent::GuildDelete { guild_id } => presences.remove(guild_id),
        GatewayEvent::PresenceUpdate { guild_id, user_id, status } => presence::updated(
            presences,
            guild_id,
            user_id,
            status,
            now,
        ),
        _ => presences,
    }
}

/// The retraction of one message.
pub open spec fn retraction(id: Seq<char>, channel_id: u64, message_id: u64, now: Instant) -> EventView {
    EventView::Retraction {
        conversation: conversation_in(id, channel_id),
        message_id: text::decimal(message_id as nat),
        timestamp: now,
    }
}

/// The event that a message makes, as a list of one, if it makes one.
pub open spec fn message_events(
    channel: DiscordChannel,
    message: Message,
    now: Instant,
) -> Seq<EventView> {
    match event_of(channel, message, cache::kind_of(channel.names@, message.channel_id), now) {
        Some(event) => seq![EventView::Message(event)],
        None => Seq::empty(),
    }
}

/// What the bridge is told of an event.
pub open spec fn told(channel: DiscordChannel, event: GatewayEvent, now: Instant) -> Seq<EventView> {
    match event {
        GatewayEvent::TypingStart { channel_id, user_id } => if channel.identity == Some(user_id) {
            Seq::empty()
        } else {
            seq![
                EventView::Typing {
                    conversation: conversation_in(channel.id@, channel_id),
                    author: text::decimal(user_id as nat),
                    timestamp: now,
                },
            ]
        },
        GatewayEvent::MessageCreate { message } => message_events(channel, message, now),
        GatewayEvent::MessageUpdate { message } => if message.edited_timestamp is None {
            Seq::empty()
        } else {
            message_events(channel, message, now)
        },
        GatewayEvent::MessageDelete { channel_id, message_id } => seq![
            retraction(channel.id@, channel_id, message_id, now),
        ],
        GatewayEvent::MessageDeleteBulk { channel_id, message_ids } => message_ids@.map_values(
            |message_id: u64| retraction(channel.id@, channel_id, message_id, now),
        ),
        _ => Seq::empty(),
    }
}

/// Whether two states of a bot differ at most in what the gateway has announced.
pub open spec fn same_bot(before: DiscordChannel, after: DiscordChannel) -> bool {
    &&& after.id == before.id
    &&& after.allowed_users == before.allowed_users
    &&& after.allowed_guilds == before.allowed_guilds
    &&& after.allowed_channels == before.allowed_channels
    &&& after.allowed_roles == before.allowed_roles
    &&& after.allow_all == before.allow_all
    &&& after.admin_tools == before.admin_tools
    &&& after.message_content == before.message_content
    &&& after.presence == before.presence
    &&& after.mention_everyone == before.mention_everyone
    &&& after.mention_roles == before.mention_roles
    &&& after.identity == before.identity
}

/// Where a conversation's messages go.
#[derive(Debug, Clone, Copy, PartialEq, Eq, Structural)]
pub enum Target {
    /// To this channel.
    Channel(u64),
    /// To the direct-message channel with this person, which has to be opened first.
    Dial(u64),
}

/// Where a conversation's messages go, or why they cannot.
pub open spec fn targeted(
    dm_channels: Map<u64, u64>,
    conversation: ConversationView,
) -> Result<Target, ChannelErrorView> {
    match text::stripped(conversation.chat, "@"@) {
        Some(raw) => match text::positive(text::trimmed(raw)) {
            Some(user) => if dm_channels.contains_key(user) {
                Ok(Target::Channel(dm_channels[user]))
            } else {
                Ok(Target::Dial(user))
            },
            None => Err(not_a_user(raw)),
        },
        None => match text::positive(conversation.chat) {
            Some(channel) => Ok(Target::Channel(channel)),
            None => Err(
                ChannelErrorView::InvalidConversation {
                    id: crate::channel::ids::conversation_text(conversation),
                    reason: "a Discord conversation is `discord:<channel id>`, or `discord:@<user \
                             id>` to open a direct message with somebody who has not written \
                             first"@,
                },
            ),
        },
    }
}

/// The refusal of a text that is no user id.
pub open spec fn not_a_user(raw: Seq<char>) -> ChannelErrorView {
    ChannelErrorView::InvalidConversation {
        id: raw,
        reason: "a Discord user id is a number, from the `from:` line of a message header"@,
    }
}

/// The refusal of a text that is no message id.
pub open spec fn not_a_message(raw: Seq<char>) -> ChannelErrorView {
    ChannelErrorView::InvalidConversation {
        id: raw,
        reason: "a Discord message id is a number, from the `message:` line of a message header"@,
    }
}

/// How a sticker is announced.
fn describe_sticker(sticker: &Sticker) -> (note: String)
    ensures
        note@ == sticker_note(*sticker),
{
    let named = "sticker ".to_owned().concat(text::quoted(sticker.name.as_str()).as_str());
    if sticker.lottie {
        named.concat(" (animated, not viewable)")
    } else {
        named
    }
}

/// `n` divided by `by`, rounded down.
fn rounded_down(n: i64, by: i64) -> (quotient: i64)
    requires
        by > 1,
    ensures
        quotient == n as int / by as int,
{
    if n >= 0 {
        n / by
    } else {
        let up: i64 = -(n + 1);
        let quotient: i64 = -1 - up / by;
        proof {
            let q = quotient as int;
            let r = n - q * by;
            let m = up as int;
            assert(m / (by as int) * by + m % (by as int) == m) by (nonlinear_arith)
                requires
                    by > 1,
            ;
            assert(r == by - 1 - m % (by as int)) by (nonlinear_arith)
                requires
                    q == -1 - m / (by as int),
                    m == -(n + 1),
                    r == n - q * by,
                    m / (by as int) * by + m % (by as int) == m,
            ;
            vstd::arithmetic::div_mod::lemma_fundamental_div_mod_converse(
                n as int,
                by as int,
                q,
                r,
            );
        }
        quotient
    }
}

impl DiscordChannel {
    /// What a message carries that has neither text nor a file.
    fn notes(&self, message: &Message) -> (notes: Vec<String>)
        ensures
            notes.deep_view() == notes_of(*self, *message),
    {
        let mut notes: Vec<String> = Vec::new();
        assert(notes.deep_view() =~= Seq::empty());
        let empty = text::chars_of(message.content.as_str()).len() == 0;
        text::push_if(
            !self.message_content && empty && message.attachments.len() == 0,
            "this message's text is hidden because the bot does not hold Discord's message content \
             intent",
            &mut notes,
        );
        let ghost first = notes.deep_view();
        let ghost stickers = message.stickers@.map_values(|sticker: Sticker| sticker_note(sticker));
        let mut i: usize = 0;
        assert(first + stickers.take(0) =~= first);
        while i < message.stickers.len()
            invariant
                i <= message.stickers.len(),
                stickers == message.stickers@.map_values(|sticker: Sticker| sticker_note(sticker)),
                notes.deep_view() == first + stickers.take(i as int),
            decreases message.stickers.len() - i,
        {
            text::push(&mut notes, describe_sticker(&message.stickers[i]));
            assert(notes.deep_view() =~= first + stickers.take(i + 1));
            i += 1;
        }
        assert(stickers.take(i as int) =~= stickers);
        text::push_if(
            message.has_poll,
            "a poll, which the bridge cannot read the options of",
            &mut notes,
        );
        assert(notes.deep_view() =~= notes_of(*self, *message));
        notes
    }

    /// The text of a message, and of what it forwards.
    fn body(&self, message: &Message) -> (body: String)
        ensures
            body@ == with_snapshots(
                self.names@,
                dementioned(self.names@, message.content@, message.mentions@, message.guild_id),
                message.snapshots@,
                message.guild_id,
            ),
    {
        let mut body = self.demention(message.content.as_str(), &message.mentions, message.guild_id);
        let ghost own = body@;
        let mut i: usize = 0;
        assert(message.snapshots@.take(0) =~= Seq::empty());
        while i < message.snapshots.len()
            invariant
                i <= message.snapshots.len(),
                body@ == with_snapshots(
                    self.names@,
                    own,
                    message.snapshots@.take(i as int),
                    message.guild_id,
                ),
            decreases message.snapshots.len() - i,
        {
            assert(message.snapshots@.take(i + 1).drop_last() =~= message.snapshots@.take(i as int));
            // Against the snapshot's own resolved mentions, not the outer message's: a name that
            // appears only in the forwarded text is not among the outer ones and would come out as
            // "@someone".
            let quoted = self.demention(
                message.snapshots[i].content.as_str(),
                &message.snapshots[i].mentions,
                message.guild_id,
            );
            if !text::is_blank(quoted.as_str()) {
                let started = text::chars_of(body.as_str()).len() > 0;
                if started {
                    body.append("\n\n");
                    body.append(quoted.as_str());
                } else {
                    body = quoted;
                }
            }
            i += 1;
        }
        assert(message.snapshots@.take(i as int) =~= message.snapshots@);
        body
    }

    /// What a message replies to.
    fn reply(&self, message: &Message) -> (reply: Option<ReplyContext>)
        ensures
            reply.deep_view() == reply_of(self.names@, *message),
    {
        match &message.referenced_message {
            Some(replied) => {
                let guild_id = match replied.guild_id {
                    Some(guild) => Some(guild),
                    None => message.guild_id,
                };
                // Likewise resolved against the replied-to message, which names the people that
                // appear in it.
                let quoted = self.demention(replied.content.as_str(), &replied.mentions, guild_id);
                Some(
                    ReplyContext {
                        message_id: text::number(replied.id),
                        sender_name: Some(
                            text::or(&replied.author.global_name, replied.author.name.as_str()),
                        ),
                        excerpt: excerpt(quoted.as_str()),
                    },
                )
            },
            // Discord not fetching the target and the target having been deleted look the same.
            // Saying the reply exists and its target is unavailable beats printing no reply at all.
            None => match message.reference_id {
                Some(id) => Some(
                    ReplyContext {
                        message_id: text::number(id),
                        sender_name: None,
                        excerpt: None,
                    },
                ),
                None => None,
            },
        }
    }

    /// Turns one gateway message into a bridge event, or `None` to ignore it.
    pub fn to_event(
        &self,
        message: &Message,
        channel_kind: Option<ChannelType>,
        now: Instant,
    ) -> (event: Option<InboundEvent>)
        ensures
            event.deep_view() == (match event_of(*self, *message, channel_kind, now) {
                Some(event) => Some(EventView::Message(event)),
                None => None,
            }),
    {
        // The bot's own messages come back over the gateway. Feeding them to the agent would have
        // it answering itself.
        if let Some(me) = self.identity {
            if me == message.author.id {
                return None;
            }
        }
        // Join notices, pin notices, boost announcements and the rest are Discord talking, not a
        // person. A forwarded message arrives as a regular one with snapshots, so this does not
        // lose it.
        if message.kind == MessageType::Notice {
            return None;
        }
        let no_roles: Vec<u64> = Vec::new();
        assert(no_roles@ =~= Seq::empty());
        let roles = match &message.member {
            Some(member) => &member.roles,
            None => &no_roles,
        };
        // Discord announces server channels over the gateway but not direct-message channels, so
        // nothing is known of a direct message. The absent server is the reliable signal, and
        // without this a direct message would be filed as an unknown room.
        let chat = match channel_kind {
            Some(kind) => chat_kind(Some(kind)),
            None => if message.guild_id.is_none() {
                ChatKind::Direct
            } else {
                ChatKind::Unknown
            },
        };
        let admission = match self.admission(
            message.author.id,
            message.channel_id,
            message.guild_id,
            roles,
            chat == ChatKind::Direct,
        ) {
            Some(admission) => admission,
            None => {
                return None;
            },
        };
        let account = text::or(&message.author.global_name, message.author.name.as_str());
        let display_name = match &message.member {
            Some(member) => text::or(&member.nick, account.as_str()),
            None => account,
        };
        let channel_text = text::number(message.channel_id);
        let conversation = ConversationId::new(&self.id, channel_text.as_str(), None);
        let mut external_id = text::number(message.id);
        let mut edited_at: Option<Instant> = None;
        if let Some(edited) = message.edited_timestamp {
            edited_at = Some(edited as i128 * 1_000);
            // An edit is a new event rather than a replacement, so it needs an id of its own or the
            // queue would take it for a redelivery of the original.
            external_id.append(":e");
            external_id.append(text::signed_number(rounded_down(edited, 1_000)).as_str());
        }
        let sender_roles = match message.guild_id {
            Some(guild) => self.names.role_names(guild, roles),
            None => Vec::new(),
        };
        // A snapshot deliberately excludes its author, so the honest answer is that this text was
        // written somewhere else by somebody the bridge was not told the name of.
        let forwarded_from = if message.snapshots.len() > 0 {
            Some(
                ForwardOrigin::HiddenUser {
                    name: "someone else (Discord does not name the author of a forward)".to_owned(),
                },
            )
        } else {
            None
        };
        let timestamp: Instant = match instant_of_micros(message.timestamp) {
            Some(at) => at,
            None => now,
        };
        let inbound = InboundMessage {
            channel: self.id.clone(),
            platform: Platform::Discord,
            conversation,
            external_id,
            message_id: text::number(message.id),
            chat_kind: chat,
            chat_title: self.names.describe(message.channel_id),
            sender: Sender {
                id: text::number(message.author.id),
                display_name,
                username: Some(message.author.name.clone()),
                is_bot: message.author.bot,
                on_behalf_of_chat: message.via_webhook,
            },
            admission,
            sender_allowlisted: self.allowed_users.contains(&message.author.id),
            addressed: self.addressed(message, channel_kind),
            sender_roles,
            text: self.body(message),
            reply_to: self.reply(message),
            edited_at,
            forwarded_from,
            group_id: None,
            attachments: self.attachments(message),
            notes: self.notes(message),
            arrived_mid_turn: false,
            timestamp,
        };
        proof {
            let expected = event_of(*self, *message, channel_kind, now)->0;
            assert(inbound.deep_view().conversation =~= expected.conversation);
            assert(inbound.deep_view().sender_roles =~= expected.sender_roles);
            assert(inbound.deep_view() =~= expected);
        }
        Some(InboundEvent::Message(Box::new(inbound)))
    }
}

/// The views of a list of events.
pub open spec fn event_views(events: Seq<InboundEvent>) -> Seq<EventView> {
    events.map_values(|event: InboundEvent| event.deep_view())
}

/// Whether a close code is one that Discord documents.
pub open spec fn is_close_code(code: u16) -> bool {
    4000 <= code <= 4014 && code != 4006
}

/// Whether the gateway may be connected again after it closed with a code.
pub open spec fn reconnectable(code: u16) -> bool {
    code <= 4003 || code == 4005 || 4007 <= code <= 4009
}

/// Whether a connection may be made again after the gateway closed with `code`: what
/// `twilight_model::gateway::CloseCode` reads the number as, and whether `can_reconnect` holds of it.
/// The codes it knows are 4000 to 4014 but for 4006, and those that end the connection for good are
/// 4004 and everything from 4010.
#[verifier::external_body]
fn close_reconnects(code: u16) -> (reconnects: Option<bool>)
    ensures
        reconnects == (if is_close_code(code) {
            Some(reconnectable(code))
        } else {
            None
        }),
{
    twilight_model::gateway::CloseCode::try_from(code).ok().map(|known| known.can_reconnect())
}

/// The code that ends the connection for good, if `code` is one.
pub fn fatal_close(code: u16) -> (fatal: Option<u16>)
    ensures
        fatal == (if is_close_code(code) && !reconnectable(code) {
            Some(code)
        } else {
            None
        }),
{
    match close_reconnects(code) {
        Some(false) => Some(code),
        _ => None,
    }
}

/// How a run that ended with a fatal close code, or without one, is reported.
pub open spec fn run_outcome(
    id: Seq<char>,
    message_content: bool,
    fatal: Option<u16>,
) -> Result<(), ChannelErrorView> {
    match fatal {
        None => Ok(()),
        Some(code) => if code == 4014 {
            Err(
                ChannelErrorView::Auth {
                    channel: id,
                    message: if message_content {
                        "Discord refused the message content intent. Enable it under Privileged \
                         Gateway Intents on the Bot page of the Developer Portal, or set \
                         `message_content = false` to run without it"@
                    } else {
                        "Discord refused an intent this bot asked for, none of which are \
                         privileged. Check the Bot page of the Developer Portal"@
                    },
                },
            )
        } else if code == 4004 {
            Err(
                ChannelErrorView::Auth { channel: id, message: "Discord rejected the bot token"@ },
            )
        } else {
            Err(
                ChannelErrorView::Transport {
                    channel: id,
                    message: "the Discord gateway closed with code "@ + text::decimal(code as nat)
                        + ", which cannot be reconnected"@,
                },
            )
        },
    }
}

fn push_event(events: &mut Vec<InboundEvent>, event: InboundEvent)
    ensures
        event_views(final(events)@) == event_views(old(events)@).push(event.deep_view()),
{
    events.push(event);
    assert(event_views(events@) =~= event_views(old(events)@).push(event.deep_view()));
}

impl DiscordChannel {
    /// Tells the bridge that messages are gone, so its record does not outlive Discord's.
    ///
    /// Telegram sends nothing when a message is deleted, so its archive cannot do this. Discord
    /// does, and an archive that keeps replaying something its author removed is a promise the
    /// bridge should not make when it does not have to.
    pub fn retract(&self, channel_id: u64, message_ids: &Vec<u64>, now: Instant) -> (events: Vec<
        InboundEvent,
    >)
        ensures
            event_views(events@) == message_ids@.map_values(
                |message_id: u64| retraction(self.id@, channel_id, message_id, now),
            ),
    {
        let ghost expected = message_ids@.map_values(
            |message_id: u64| retraction(self.id@, channel_id, message_id, now),
        );
        let mut events: Vec<InboundEvent> = Vec::new();
        let mut i: usize = 0;
        assert(event_views(events@) =~= expected.take(0));
        while i < message_ids.len()
            invariant
                i <= message_ids.len(),
                expected == message_ids@.map_values(
                    |message_id: u64| retraction(self.id@, channel_id, message_id, now),
                ),
                event_views(events@) == expected.take(i as int),
            decreases message_ids.len() - i,
        {
            let chat = text::number(channel_id);
            let conversation = ConversationId::new(&self.id, chat.as_str(), None);
            assert(conversation@ =~= conversation_in(self.id@, channel_id));
            push_event(
                &mut events,
                InboundEvent::Retraction {
                    conversation,
                    message_id: text::number(message_ids[i]),
                    timestamp: now,
                },
            );
            assert(event_views(events@) =~= expected.take(i + 1));
            i += 1;
        }
        assert(expected.take(i as int) =~= expected);
        events
    }

    /// Handles one gateway event: what it says is remembered, and what the bridge is to be told is
    /// handed out.
    ///
    /// A typing notice is advisory, so it may be dropped when the writer is behind. That costs a
    /// slightly early release, where blocking behind the durable writer would cost real messages.
    pub fn handle(&mut self, event: &GatewayEvent, now: Instant) -> (events: Vec<InboundEvent>)
        ensures
            same_bot(*old(self), *final(self)),
            final(self).dm_channels == old(self).dm_channels,
            final(self).names@ == learned(old(self).names@, *event),
            final(self).presences@ == noticed(
                old(self).presence,
                old(self).presences@,
                *event,
                now,
            ),
            event_views(events@) == told(*old(self), *event, now),
    {
        let mut events: Vec<InboundEvent> = Vec::new();
        assert(event_views(events@) =~= Seq::empty());
        match event {
            GatewayEvent::GuildCreate { guild, presences } => {
                self.names.insert_guild(guild);
                // Skipped entirely when presence is off, because nothing reads the tally in that
                // case. Seeding anyway would hold a table of every member of every server for no
                // reader.
                if self.presence {
                    self.presences.seed(guild.id, presences, now);
                }
            },
            GatewayEvent::GuildUpdate { guild_id, name } => {
                self.names.rename_guild(*guild_id, name.as_str());
            },
            GatewayEvent::GuildDelete { guild_id } => {
                self.names.remove_guild(*guild_id);
                self.presences.forget(*guild_id);
            },
            GatewayEvent::ChannelChange { channel } => {
                self.names.insert_channel(channel);
            },
            GatewayEvent::ChannelDelete { channel_id } => {
                self.names.remove_channel(*channel_id);
            },
            GatewayEvent::RoleChange { guild_id, role } => {
                self.names.insert_role(*guild_id, role);
            },
            GatewayEvent::RoleDelete { guild_id, role_id } => {
                self.names.remove_role(*guild_id, *role_id);
            },
            GatewayEvent::PresenceUpdate { guild_id, user_id, status } => {
                self.presences.update(*guild_id, *user_id, *status, now);
            },
            GatewayEvent::TypingStart { channel_id, user_id } => {
                // The bot's own indicator comes back over the gateway like anybody else's. Left
                // unfiltered it would hold a conversation open for as long as the bridge kept
                // showing that the agent was working.
                let own = match self.identity {
                    Some(me) => me == *user_id,
                    None => false,
                };
                if !own {
                    let chat = text::number(*channel_id);
                    let conversation = ConversationId::new(&self.id, chat.as_str(), None);
                    assert(conversation@ =~= conversation_in(self.id@, *channel_id));
                    push_event(
                        &mut events,
                        InboundEvent::Typing {
                            conversation,
                            author: text::number(*user_id),
                            timestamp: now,
                        },
                    );
                }
            },
            GatewayEvent::MessageCreate { message } => {
                let kind = self.names.kind_of(message.channel_id);
                if let Some(event) = self.to_event(message, kind, now) {
                    push_event(&mut events, event);
                }
            },
            GatewayEvent::MessageUpdate { message } => {
                // Discord fires this when it resolves a link into an embed, with nothing the sender
                // did. Without this guard every posted link would arrive as an edit.
                if message.edited_timestamp.is_some() {
                    let kind = self.names.kind_of(message.channel_id);
                    if let Some(event) = self.to_event(message, kind, now) {
                        push_event(&mut events, event);
                    }
                }
            },
            GatewayEvent::MessageDelete { channel_id, message_id } => {
                let mut ids: Vec<u64> = Vec::new();
                ids.push(*message_id);
                events = self.retract(*channel_id, &ids, now);
            },
            GatewayEvent::MessageDeleteBulk { channel_id, message_ids } => {
                events = self.retract(*channel_id, message_ids, now);
            },
            GatewayEvent::Other => {},
        }
        assert(event_views(events@) =~= told(*old(self), *event, now));
        events
    }

    /// Learns the bot's own account id from what Discord calls it. An id that is known already stays.
    pub fn identify(&mut self, id: &str) -> (known: Result<u64, ChannelError>)
        ensures
            final(self).names == old(self).names,
            final(self).presences == old(self).presences,
            final(self).dm_channels == old(self).dm_channels,
            match known {
                Ok(me) => {
                    &&& text::positive(id@) == Some(me)
                    &&& final(self).identity == (if old(self).identity is Some {
                        old(self).identity
                    } else {
                        Some(me)
                    })
                    &&& same_bot(
                        DiscordChannel { identity: final(self).identity, ..*old(self) },
                        *final(self),
                    )
                },
                Err(error) => {
                    &&& text::positive(id@) is None
                    &&& same_bot(*old(self), *final(self))
                    &&& error.deep_view() == (ChannelErrorView::Auth {
                        channel: old(self).id@,
                        message: "Discord returned a user id that is not a snowflake"@,
                    })
                },
            },
    {
        match text::parse_positive(id) {
            Some(me) => {
                if self.identity.is_none() {
                    self.identity = Some(me);
                }
                Ok(me)
            },
            None => Err(
                ChannelError::auth(
                    self.id.as_str(),
                    "Discord returned a user id that is not a snowflake",
                ),
            ),
        }
    }

    /// What it means that the gateway stream ended, given the fatal close code it ended with.
    ///
    /// With the message content intent asked for, a refused intent is that one. With it off, a
    /// refusal means something else entirely, and telling the operator to turn off a setting
    /// already off sends them in a circle.
    pub fn run_ended(&self, fatal: Option<u16>) -> (outcome: Result<(), ChannelError>)
        ensures
            match outcome {
                Ok(_) => run_outcome(self.id@, self.message_content, fatal) is Ok,
                Err(error) => run_outcome(self.id@, self.message_content, fatal) == Err::<
                    (),
                    ChannelErrorView,
                >(error.deep_view()),
            },
    {
        let code: u16 = match fatal {
            None => {
                return Ok(());
            },
            Some(code) => code,
        };
        if code == 4014 {
            if self.message_content {
                return Err(
                    ChannelError::auth(
                        self.id.as_str(),
                        "Discord refused the message content intent. Enable it under Privileged \
                         Gateway Intents on the Bot page of the Developer Portal, or set \
                         `message_content = false` to run without it",
                    ),
                );
            }
            return Err(
                ChannelError::auth(
                    self.id.as_str(),
                    "Discord refused an intent this bot asked for, none of which are privileged. \
                     Check the Bot page of the Developer Portal",
                ),
            );
        }
        if code == 4004 {
            return Err(ChannelError::auth(self.id.as_str(), "Discord rejected the bot token"));
        }
        let message = "the Discord gateway closed with code ".to_owned().concat(
            text::number(code as u64).as_str(),
        ).concat(", which cannot be reconnected");
        Err(ChannelError::transport(self.id.as_str(), message.as_str()))
    }

    /// Reads a user id that the agent supplied.
    pub fn parse_user(&self, raw: &str) -> (user: Result<u64, ChannelError>)
        ensures
            match user {
                Ok(user) => text::positive(text::trimmed(raw@)) == Some(user),
                Err(error) => text::positive(text::trimmed(raw@)) is None && error.deep_view()
                    == not_a_user(raw@),
            },
    {
        let trimmed = text::trim(raw);
        match text::parse_positive(trimmed.as_str()) {
            Some(user) => Ok(user),
            None => Err(
                ChannelError::invalid(
                    raw,
                    "a Discord user id is a number, from the `from:` line of a message header",
                ),
            ),
        }
    }

    /// Reads a message id that the agent supplied.
    pub fn parse_message(&self, raw: &str) -> (message: Result<u64, ChannelError>)
        ensures
            match message {
                Ok(message) => text::positive(text::trimmed(raw@)) == Some(message),
                Err(error) => text::positive(text::trimmed(raw@)) is None && error.deep_view()
                    == not_a_message(raw@),
            },
    {
        let trimmed = text::trim(raw);
        match text::parse_positive(trimmed.as_str()) {
            Some(message) => Ok(message),
            None => Err(
                ChannelError::invalid(
                    raw,
                    "a Discord message id is a number, from the `message:` line of a message header",
                ),
            ),
        }
    }

    /// Resolves a conversation id to the channel a message would go to.
    ///
    /// `discord:@<user_id>` opens (or reuses) the direct-message channel with that person, which is
    /// the one case where the id the agent holds is not already a channel.
    pub fn target(&self, conversation: &ConversationId) -> (target: Result<Target, ChannelError>)
        ensures
            match target {
                Ok(target) => targeted(self.dm_channels@, conversation@) == Ok::<
                    Target,
                    ChannelErrorView,
                >(target),
                Err(error) => targeted(self.dm_channels@, conversation@) == Err::<
                    Target,
                    ChannelErrorView,
                >(error.deep_view()),
            },
    {
        if let Some(raw) = text::strip_prefix(conversation.chat(), "@") {
            let user = match self.parse_user(raw.as_str()) {
                Ok(user) => user,
                Err(error) => {
                    return Err(error);
                },
            };
            return match self.dm_channels.get(&user) {
                Some(channel) => Ok(Target::Channel(*channel)),
                None => Ok(Target::Dial(user)),
            };
        }
        match text::parse_positive(conversation.chat()) {
            Some(channel) => Ok(Target::Channel(channel)),
            None => Err(
                ChannelError::invalid(
                    conversation.as_str(),
                    "a Discord conversation is `discord:<channel id>`, or `discord:@<user id>` to \
                     open a direct message with somebody who has not written first",
                ),
            ),
        }
    }

    /// Remembers the direct-message channel that was opened with somebody.
    pub fn dialled(&mut self, user_id: u64, channel: &Channel)
        ensures
            same_bot(*old(self), *final(self)),
            final(self).presences == old(self).presences,
            final(self).dm_channels@ == old(self).dm_channels@.insert(user_id, channel.id),
            final(self).names@ == cache::with_channel(old(self).names@, *channel),
    {
        self.dm_channels.insert(user_id, channel.id);
        self.names.insert_channel(channel);
    }

    /// The server of a channel that had to be looked up, which every moderation call needs and a
    /// direct message has none of. What was looked up is remembered.
    pub fn located(&mut self, conversation: &ConversationId, channel: &Channel) -> (guild: Result<
        u64,
        ChannelError,
    >)
        ensures
            same_bot(*old(self), *final(self)),
            final(self).presences == old(self).presences,
            final(self).dm_channels == old(self).dm_channels,
            final(self).names@ == cache::with_channel(old(self).names@, *channel),
            match guild {
                Ok(guild) => channel.guild_id == Some(guild),
                Err(error) => channel.guild_id is None && error.deep_view() == (
                ChannelErrorView::InvalidConversation {
                    id: crate::channel::ids::conversation_text(conversation@),
                    reason: "this is a direct message, which has no server, so there is nothing to \
                             moderate here"@,
                }),
            },
    {
        self.names.insert_channel(channel);
        match channel.guild_id {
            Some(guild) => Ok(guild),
            None => Err(
                ChannelError::invalid(
                    conversation.as_str(),
                    "this is a direct message, which has no server, so there is nothing to \
                     moderate here",
                ),
            ),
        }
    }

    /// Whether a conversation id names somebody to dial rather than a channel, and so has a final
    /// form of its own.
    pub fn is_dialling(conversation: &ConversationId) -> (dialling: bool)
        ensures
            dialling == text::begins(conversation@.chat, "@"@),
    {
        text::starts_with(conversation.chat(), "@")
    }

    /// The final form of a conversation, given the channel its messages go to.
    pub fn canonical_conversation(&self, conversation: &ConversationId, channel_id: u64) -> (id:
        ConversationId)
        ensures
            id@ == (if text::begins(conversation@.chat, "@"@) {
                conversation_in(self.id@, channel_id)
            } else {
                conversation@
            }),
    {
        if !DiscordChannel::is_dialling(conversation) {
            return conversation.clone();
        }
        let chat = text::number(channel_id);
        let id = ConversationId::new(&self.id, chat.as_str(), None);
        assert(id@ =~= conversation_in(self.id@, channel_id));
        id
    }

    /// What this channel can do.
    pub fn capabilities(&self) -> (capabilities: ChannelCapabilities)
        ensures
            capabilities == (ChannelCapabilities {
                typing_indicator: true,
                files: true,
                photos: true,
                reactions: true,
                edit: true,
                admin: self.admin_tools,
                presence: self.presence,
                typing_status: true,
                member_rights: false,
                member_roles: self.admin_tools,
            }),
    {
        ChannelCapabilities {
            typing_indicator: true,
            files: true,
            photos: true,
            reactions: true,
            edit: true,
            admin: self.admin_tools,
            presence: self.presence,
            typing_status: true,
            // Discord grants privileges through roles only. There is no per-member permission set
            // to hand a named list of rights to.
            member_rights: false,
            member_roles: self.admin_tools,
        }
    }

    /// A call that Discord refused.
    pub fn delivery_error(&self, doing: &str, error: &str) -> (refusal: ChannelError)
        ensures
            refusal.deep_view() == (ChannelErrorView::Delivery {
                channel: self.id@,
                message: doing@ + ": "@ + error@,
            }),
    {
        let message = doing.to_owned().concat(": ").concat(error);
        ChannelError::delivery(self.id.as_str(), message.as_str())
    }

    /// A response that could not be read.
    pub fn decode_error(&self, what: &str, error: &str) -> (refusal: ChannelError)
        ensures
            refusal.deep_view() == (ChannelErrorView::Transport {
                channel: self.id@,
                message: "Discord's response for "@ + what@ + " could not be read: "@ + error@,
            }),
    {
        let message = "Discord's response for ".to_owned().concat(what).concat(
            " could not be read: ",
        ).concat(error);
        ChannelError::transport(self.id.as_str(), message.as_str())
    }
}

/// Nobody is heard on a channel that names nobody and was not opened to everybody.
pub proof fn a_channel_without_grants_hears_nobody(
    channel: DiscordChannel,
    user_id: u64,
    channel_id: u64,
    guild_id: Option<u64>,
    roles: Seq<u64>,
    direct: bool,
)
    requires
        channel.allowed_users@.is_empty(),
        channel.allowed_guilds@.is_empty(),
        channel.allowed_channels@.is_empty(),
        channel.allowed_roles@.is_empty(),
        !channel.allow_all,
    ensures
        admitted(channel, user_id, channel_id, guild_id, roles, direct) is None,
{
}

/// Naming a person lets them in by direct message alone: anywhere else, whether somebody is let in
/// does not depend on who is named.
pub proof fn naming_a_person_reaches_direct_messages_alone(
    channel: DiscordChannel,
    other: DiscordChannel,
    user_id: u64,
    channel_id: u64,
    guild_id: Option<u64>,
    roles: Seq<u64>,
)
    requires
        same_bot(DiscordChannel { allowed_users: other.allowed_users, ..channel }, other),
        other.names@ == channel.names@,
    ensures
        admitted(channel, user_id, channel_id, guild_id, roles, false) == admitted(
            other,
            user_id,
            channel_id,
            guild_id,
            roles,
            false,
        ),
        admitted(channel, user_id, channel_id, guild_id, roles, false) != Some(Admission::User),
        channel.allowed_users@.contains(user_id) ==> admitted(
            channel,
            user_id,
            channel_id,
            guild_id,
            roles,
            true,
        ) == Some(Admission::User),
{
}

/// Opening a channel only admits more: whoever was admitted still is, and for the same reason.
pub proof fn opening_a_channel_keeps_every_reason(
    channel: DiscordChannel,
    opened: DiscordChannel,
    user_id: u64,
    channel_id: u64,
    guild_id: Option<u64>,
    roles: Seq<u64>,
    direct: bool,
)
    requires
        same_bot(DiscordChannel { allow_all: true, ..channel }, opened),
        opened.names@ == channel.names@,
    ensures
        admitted(opened, user_id, channel_id, guild_id, roles, direct) == (match admitted(
            channel,
            user_id,
            channel_id,
            guild_id,
            roles,
            direct,
        ) {
            Some(reason) => Some(reason),
            None => Some(Admission::Open),
        }),
{
}

/// A thread is heard wherever the channel it hangs off is.
pub proof fn a_thread_inherits_its_channel(
    channel: DiscordChannel,
    user_id: u64,
    thread_id: u64,
    parent_id: u64,
    guild_id: Option<u64>,
    roles: Seq<u64>,
    direct: bool,
)
    requires
        cache::parent_of(channel.names@, thread_id) == Some(parent_id),
        channel.allowed_channels@.contains(parent_id),
    ensures
        admitted(channel, user_id, thread_id, guild_id, roles, direct) is Some,
{
}

/// The agent never hears its own messages, nor Discord's own notices, nor anybody who is not let in.
pub proof fn the_agent_does_not_hear_itself(
    channel: DiscordChannel,
    message: Message,
    channel_kind: Option<ChannelType>,
    now: Instant,
)
    ensures
        channel.identity == Some(message.author.id) ==> event_of(
            channel,
            message,
            channel_kind,
            now,
        ) is None,
        message.kind == MessageType::Notice ==> event_of(channel, message, channel_kind, now)
            is None,
        message_admission(channel, message, channel_kind) is None ==> event_of(
            channel,
            message,
            channel_kind,
            now,
        ) is None,
{
}

/// Text without markup is left exactly alone.
pub proof fn plain_text_is_left_alone(
    names: NamesView,
    content: Seq<char>,
    mentions: Seq<Mention>,
    guild_id: Option<u64>,
)
    requires
        !content.contains('<'),
    ensures
        dementioned(names, content, mentions, guild_id) == content,
    decreases content.len(),
{
    if content.len() > 0 {
        assert(content[0] != '<') by {
            if content[0] == '<' {
                assert(content.contains('<'));
            }
        }
        let rest = content.skip(1);
        assert(!rest.contains('<')) by {
            if rest.contains('<') {
                let i = choose|i: int| 0 <= i < rest.len() && rest[i] == '<';
                assert(content[i + 1] == '<');
            }
        }
        plain_text_is_left_alone(names, rest, mentions, guild_id);
        assert(seq![content[0]] + rest =~= content);
    }
}

/// Once somebody has been dialled, their conversation goes to the channel that was opened, and no
/// other conversation goes anywhere else than before.
pub proof fn dialling_twice_reuses_the_channel(
    dm_channels: Map<u64, u64>,
    user_id: u64,
    channel_id: u64,
    conversation: ConversationView,
    raw: Seq<char>,
)
    requires
        text::stripped(conversation.chat, "@"@) == Some(raw),
        text::positive(text::trimmed(raw)) is Some,
    ensures
        text::positive(text::trimmed(raw)) == Some(user_id) ==> targeted(
            dm_channels.insert(user_id, channel_id),
            conversation,
        ) == Ok::<Target, ChannelErrorView>(Target::Channel(channel_id)),
        text::positive(text::trimmed(raw)) != Some(user_id) ==> targeted(
            dm_channels.insert(user_id, channel_id),
            conversation,
        ) == targeted(dm_channels, conversation),
{
}

/// An edit never has the id of the message it revises, nor that of an edit made in another
/// millisecond.
pub proof fn an_edit_is_no_duplicate(message: Message, other: Message)
    requires
        message.id == other.id,
        message.edited_timestamp is Some,
        match other.edited_timestamp {
            Some(edited) => edited as int / 1_000 != message.edited_timestamp->0 as int / 1_000,
            None => true,
        },
    ensures
        external_id(message) != external_id(other),
        edited_at(message) is Some,
{
    reveal_strlit(":e");
    let base = text::decimal(message.id as nat);
    let mine = text::signed_decimal(message.edited_timestamp->0 as int / 1_000);
    assert(external_id(message).len() == base.len() + 2 + mine.len());
    if let Some(edited) = other.edited_timestamp {
        let theirs = text::signed_decimal(edited as int / 1_000);
        text::numbers_are_told_apart(
            message.edited_timestamp->0 as int / 1_000,
            edited as int / 1_000,
        );
        if external_id(message) == external_id(other) {
            assert((base + ":e"@ + mine).skip((base.len() + 2) as int) =~= mine);
            assert((base + ":e"@ + theirs).skip((base.len() + 2) as int) =~= theirs);
        }
    }
}

} // verus!
