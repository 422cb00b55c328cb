//! What the bridge knows of a chat platform, whichever platform it is.

use vstd::prelude::*;
use vstd::string::*;

use crate::channel::ids::{ChannelId, ConversationId, ConversationView};
use crate::time::{Duration, Instant};

pub mod discord;
pub mod ids;
pub mod laws;
pub mod telegram;

verus! {

/// The shape of a chat.
#[derive(Debug, Clone, Copy, PartialEq, Eq, Structural)]
pub enum ChatKind {
    /// One person and the agent.
    Direct,
    /// A room of several people.
    Group,
    /// A broadcast.
    Channel,
    /// Nothing has ever arrived from it.
    Unknown,
}

/// The name a shape of chat goes by.
pub open spec fn kind_name(kind: ChatKind) -> Seq<char> {
    match kind {
        ChatKind::Direct => "direct"@,
        ChatKind::Group => "group"@,
        ChatKind::Channel => "channel"@,
        ChatKind::Unknown => "unknown"@,
    }
}

impl ChatKind {
    /// The name this shape goes by.
    pub fn as_str(self) -> (name: &'static str)
        ensures
            name@ == kind_name(self),
    {
        match self {
            ChatKind::Direct => "direct",
            ChatKind::Group => "group",
            ChatKind::Channel => "channel",
            ChatKind::Unknown => "unknown",
        }
    }
}

/// A supported chat platform.
#[derive(Debug, Clone, Copy, PartialEq, Eq, Structural)]
pub enum Platform {
    Telegram,
    Discord,
}

/// Why a message was let through.
#[derive(Debug, Clone, Copy, PartialEq, Eq, Structural)]
pub enum Admission {
    /// Its sender is allowlisted.
    User,
    /// Its sender holds an allowlisted role.
    Role,
    /// The chat it was said in is allowlisted.
    Chat,
    /// The server it was said in is allowlisted.
    Server,
    /// The channel admits everybody.
    Open,
}

/// A reason to let a message through, as the agent is told it.
pub open spec fn admission_text(admission: Admission) -> Seq<char> {
    match admission {
        Admission::User => "user allowlist"@,
        Admission::Role => "holds a role you allow"@,
        Admission::Chat => "chat allowlist"@,
        Admission::Server => "server allowlist"@,
        Admission::Open => "open channel, nobody vetted them"@,
    }
}

impl Admission {
    /// This reason as the agent is told it.
    pub fn describe(self) -> (text: &'static str)
        ensures
            text@ == admission_text(self),
    {
        match self {
            Admission::User => "user allowlist",
            Admission::Role => "holds a role you allow",
            Admission::Chat => "chat allowlist",
            Admission::Server => "server allowlist",
            Admission::Open => "open channel, nobody vetted them",
        }
    }
}

/// What kind of file is attached.
#[derive(Debug, Clone, Copy, PartialEq, Eq, Structural)]
pub enum AttachmentKind {
    Photo,
    Document,
    Animation,
    Voice,
    Audio,
    Video,
    VideoNote,
    Sticker,
}

/// A file attached to a message, as a handle rather than bytes.
#[derive(Debug)]
pub struct Attachment {
    pub kind: AttachmentKind,
    pub file_name: Option<String>,
    pub media_type: Option<String>,
    pub bytes: Option<u64>,
    pub width: Option<u32>,
    pub height: Option<u32>,
    pub duration_secs: Option<u32>,
    /// What the platform fetches the file by.
    pub file_ref: String,
    /// What the platform fetches a still image of the file by.
    pub thumb_ref: Option<String>,
    /// The name the bridge gave the file, once it has.
    pub handle: Option<String>,
}

/// What an [`Attachment`] holds.
pub struct AttachmentView {
    pub kind: AttachmentKind,
    pub file_name: Option<Seq<char>>,
    pub media_type: Option<Seq<char>>,
    pub bytes: Option<u64>,
    pub width: Option<u32>,
    pub height: Option<u32>,
    pub duration_secs: Option<u32>,
    pub file_ref: Seq<char>,
    pub thumb_ref: Option<Seq<char>>,
    pub handle: Option<Seq<char>>,
}

impl DeepView for Attachment {
    type V = AttachmentView;

    open spec fn deep_view(&self) -> AttachmentView {
        AttachmentView {
            kind: self.kind,
            file_name: self.file_name.deep_view(),
            media_type: self.media_type.deep_view(),
            bytes: self.bytes,
            width: self.width,
            height: self.height,
            duration_secs: self.duration_secs,
            file_ref: self.file_ref@,
            thumb_ref: self.thumb_ref.deep_view(),
            handle: self.handle.deep_view(),
        }
    }
}

/// Who sent a message.
#[derive(Debug)]
pub struct Sender {
    pub id: String,
    pub display_name: String,
    pub username: Option<String>,
    pub is_bot: bool,
    /// Whether the message was posted as the chat itself rather than by a person.
    pub on_behalf_of_chat: bool,
}

/// What a [`Sender`] holds.
pub struct SenderView {
    pub id: Seq<char>,
    pub display_name: Seq<char>,
    pub username: Option<Seq<char>>,
    pub is_bot: bool,
    pub on_behalf_of_chat: bool,
}

impl DeepView for Sender {
    type V = SenderView;

    open spec fn deep_view(&self) -> SenderView {
        SenderView {
            id: self.id@,
            display_name: self.display_name@,
            username: self.username.deep_view(),
            is_bot: self.is_bot,
            on_behalf_of_chat: self.on_behalf_of_chat,
        }
    }
}

/// What a message replies to.
#[derive(Debug)]
pub struct ReplyContext {
    pub message_id: String,
    pub sender_name: Option<String>,
    pub excerpt: Option<String>,
}

/// What a [`ReplyContext`] holds.
pub struct ReplyView {
    pub message_id: Seq<char>,
    pub sender_name: Option<Seq<char>>,
    pub excerpt: Option<Seq<char>>,
}

impl DeepView for ReplyContext {
    type V = ReplyView;

    open spec fn deep_view(&self) -> ReplyView {
        ReplyView {
            message_id: self.message_id@,
            sender_name: self.sender_name.deep_view(),
            excerpt: self.excerpt.deep_view(),
        }
    }
}

/// Where a forwarded message came from.
#[derive(Debug)]
pub enum ForwardOrigin {
    User { name: String, id: Option<String>, username: Option<String> },
    HiddenUser { name: String },
    Chat { title: String },
    Channel { title: String, message_id: Option<String> },
}

/// What a [`ForwardOrigin`] holds.
pub enum ForwardView {
    User { name: Seq<char>, id: Option<Seq<char>>, username: Option<Seq<char>> },
    HiddenUser { name: Seq<char> },
    Chat { title: Seq<char> },
    Channel { title: Seq<char>, message_id: Option<Seq<char>> },
}

impl DeepView for ForwardOrigin {
    type V = ForwardView;

    open spec fn deep_view(&self) -> ForwardView {
        match self {
            ForwardOrigin::User { name, id, username } => ForwardView::User {
                name: name@,
                id: id.deep_view(),
                username: username.deep_view(),
            },
            ForwardOrigin::HiddenUser { name } => ForwardView::HiddenUser { name: name@ },
            ForwardOrigin::Chat { title } => ForwardView::Chat { title: title@ },
            ForwardOrigin::Channel { title, message_id } => ForwardView::Channel {
                title: title@,
                message_id: message_id.deep_view(),
            },
        }
    }
}

/// A message that arrived.
pub struct InboundMessage {
    pub channel: ChannelId,
    pub platform: Platform,
    pub conversation: ConversationId,
    /// What tells this event apart from every other, an edit included.
    pub external_id: String,
    /// What the platform addresses the message by.
    pub message_id: String,
    pub chat_kind: ChatKind,
    pub chat_title: Option<String>,
    pub sender: Sender,
    pub admission: Admission,
    /// Whether the sender is allowlisted, wherever they wrote.
    pub sender_allowlisted: bool,
    /// Whether the message was aimed at the agent.
    pub addressed: bool,
    pub sender_roles: Vec<String>,
    pub text: String,
    pub reply_to: Option<ReplyContext>,
    pub edited_at: Option<Instant>,
    pub forwarded_from: Option<ForwardOrigin>,
    pub group_id: Option<String>,
    pub attachments: Vec<Attachment>,
    pub notes: Vec<String>,
    pub arrived_mid_turn: bool,
    pub timestamp: Instant,
}

/// What an [`InboundMessage`] holds.
#[verifier::ext_equal]
pub struct InboundView {
    pub channel: Seq<char>,
    pub platform: Platform,
    pub conversation: ConversationView,
    pub external_id: Seq<char>,
    pub message_id: Seq<char>,
    pub chat_kind: ChatKind,
    pub chat_title: Option<Seq<char>>,
    pub sender: SenderView,
    pub admission: Admission,
    pub sender_allowlisted: bool,
    pub addressed: bool,
    pub sender_roles: Seq<Seq<char>>,
    pub text: Seq<char>,
    pub reply_to: Option<ReplyView>,
    pub edited_at: Option<Instant>,
    pub forwarded_from: Option<ForwardView>,
    pub group_id: Option<Seq<char>>,
    pub attachments: Seq<AttachmentView>,
    pub notes: Seq<Seq<char>>,
    pub arrived_mid_turn: bool,
    pub timestamp: Instant,
}

impl DeepView for InboundMessage {
    type V = InboundView;

    open spec fn deep_view(&self) -> InboundView {
        InboundView {
            channel: self.channel@,
            platform: self.platform,
            conversation: self.conversation@,
            external_id: self.external_id@,
            message_id: self.message_id@,
            chat_kind: self.chat_kind,
            chat_title: self.chat_title.deep_view(),
            sender: self.sender.deep_view(),
            admission: self.admission,
            sender_allowlisted: self.sender_allowlisted,
            addressed: self.addressed,
            sender_roles: self.sender_roles.deep_view(),
            text: self.text@,
            reply_to: self.reply_to.deep_view(),
            edited_at: self.edited_at,
            forwarded_from: self.forwarded_from.deep_view(),
            group_id: self.group_id.deep_view(),
            attachments: self.attachments.deep_view(),
            notes: self.notes.deep_view(),
            arrived_mid_turn: self.arrived_mid_turn,
            timestamp: self.timestamp,
        }
    }
}

/// Something that happened on a platform.
pub enum InboundEvent {
    Message(Box<InboundMessage>),
    Typing { conversation: ConversationId, author: String, timestamp: Instant },
    Retraction { conversation: ConversationId, message_id: String, timestamp: Instant },
}

/// What an [`InboundEvent`] holds.
pub enum EventView {
    Message(InboundView),
    Typing { conversation: ConversationView, author: Seq<char>, timestamp: Instant },
    Retraction { conversation: ConversationView, message_id: Seq<char>, timestamp: Instant },
}

impl DeepView for InboundEvent {
    type V = EventView;

    open spec fn deep_view(&self) -> EventView {
        match self {
            InboundEvent::Message(message) => EventView::Message(message.deep_view()),
            InboundEvent::Typing { conversation, author, timestamp } => EventView::Typing {
                conversation: conversation@,
                author: author@,
                timestamp: *timestamp,
            },
            InboundEvent::Retraction { conversation, message_id, timestamp } =>
            EventView::Retraction {
                conversation: conversation@,
                message_id: message_id@,
                timestamp: *timestamp,
            },
        }
    }
}

/// Whether somebody is around.
#[derive(Debug, Clone, Copy, PartialEq, Eq, Structural)]
pub enum PresenceStatus {
    Online,
    Idle,
    DoNotDisturb,
    Offline,
    /// The bridge cannot say.
    Unknown,
}

/// Whether somebody is around, and as of when.
#[derive(Debug, Clone, Copy, PartialEq, Eq, Structural)]
pub struct Presence {
    pub status: PresenceStatus,
    pub as_of: Option<Instant>,
}

/// The presence of somebody nothing is known about.
pub open spec fn unknown_presence() -> Presence {
    Presence { status: PresenceStatus::Unknown, as_of: None }
}

impl Presence {
    /// The presence of somebody nothing is known about.
    pub fn unknown() -> (presence: Presence)
        ensures
            presence == unknown_presence(),
    {
        Presence { status: PresenceStatus::Unknown, as_of: None }
    }
}

/// What somebody is in a chat.
#[derive(Debug, Clone, Copy, PartialEq, Eq, Structural)]
pub enum MemberStatus {
    Owner,
    Administrator,
    Member,
    Restricted,
    Left,
    Banned,
}

/// A privilege that a platform grants to a person directly.
#[derive(Debug, Clone, Copy, PartialEq, Eq, Structural)]
pub enum MemberRight {
    ManageChat,
    DeleteMessages,
    RestrictMembers,
    PromoteMembers,
    PinMessages,
    ChangeInfo,
    InviteUsers,
    ManageTopics,
    ManageVideoChats,
}

/// A member of a chat.
#[derive(Debug)]
pub struct MemberInfo {
    pub user_id: String,
    pub display_name: Option<String>,
    pub status: MemberStatus,
    pub rights: Vec<MemberRight>,
    pub roles: Vec<String>,
    pub restricted_until: Option<Instant>,
    pub presence: Option<Presence>,
}

/// What a [`MemberInfo`] holds.
pub struct MemberView {
    pub user_id: Seq<char>,
    pub display_name: Option<Seq<char>>,
    pub status: MemberStatus,
    pub rights: Seq<MemberRight>,
    pub roles: Seq<Seq<char>>,
    pub restricted_until: Option<Instant>,
    pub presence: Option<Presence>,
}

impl DeepView for MemberInfo {
    type V = MemberView;

    open spec fn deep_view(&self) -> MemberView {
        MemberView {
            user_id: self.user_id@,
            display_name: self.display_name.deep_view(),
            status: self.status,
            rights: self.rights@,
            roles: self.roles.deep_view(),
            restricted_until: self.restricted_until,
            presence: self.presence,
        }
    }
}

/// Which members a listing is of.
#[derive(Debug, Clone, Copy, PartialEq, Eq, Structural)]
pub enum MemberCoverage {
    Everyone,
    Matching,
    Administrators,
}

/// A page of members.
#[derive(Debug)]
pub struct MemberListing {
    pub coverage: MemberCoverage,
    pub members: Vec<MemberInfo>,
    pub total: Option<u64>,
    /// Where the next page starts, where there is one.
    pub next_after: Option<String>,
}

/// What may be done to a member.
#[derive(Debug, Clone, Copy, PartialEq, Eq, Structural)]
pub enum MemberAction {
    Restrict,
    Unrestrict,
    Ban,
    Unban,
    Kick,
}

/// Whether a duration means something for an action: only what can expire can be given one.
pub open spec fn can_expire(action: MemberAction) -> bool {
    action == MemberAction::Restrict || action == MemberAction::Ban
}

impl MemberAction {
    /// Whether this action can be given a duration.
    pub fn accepts_duration(self) -> (accepts: bool)
        ensures
            accepts == can_expire(self),
    {
        match self {
            MemberAction::Restrict | MemberAction::Ban => true,
            MemberAction::Unrestrict | MemberAction::Unban | MemberAction::Kick => false,
        }
    }
}

/// What the agent is shown to be doing.
#[derive(Debug, Clone, Copy, PartialEq, Eq, Structural)]
pub enum Activity {
    Typing,
    SendingPhoto,
    SendingFile,
}

/// How a message is to be sent.
#[derive(Debug)]
pub struct SendOptions {
    /// The message being replied to, as the platform addresses it.
    pub reply_to: Option<String>,
    pub silent: bool,
    pub link_preview: bool,
}

/// How files are to be sent.
#[derive(Debug)]
pub struct FileOptions {
    pub as_photo: bool,
    pub send: SendOptions,
}

impl Default for SendOptions {
    /// A message by itself, announced, and without a preview card.
    fn default() -> (options: SendOptions)
        ensures
            options == (SendOptions { reply_to: None, silent: false, link_preview: false }),
    {
        SendOptions { reply_to: None, silent: false, link_preview: false }
    }
}

impl Default for FileOptions {
    /// Files as files, sent like any other message.
    fn default() -> (options: FileOptions)
        ensures
            options == (FileOptions {
                as_photo: false,
                send: SendOptions { reply_to: None, silent: false, link_preview: false },
            }),
    {
        FileOptions {
            as_photo: false,
            send: SendOptions { reply_to: None, silent: false, link_preview: false },
        }
    }
}

/// What is to be changed about a chat.
#[derive(Debug)]
pub struct ChatSettings {
    pub title: Option<String>,
    pub description: Option<String>,
    pub slowmode: Option<Duration>,
}

/// A message that a search turned up.
#[derive(Debug)]
pub struct FoundMessage {
    pub message_id: String,
    pub sender_name: String,
    pub text: String,
    pub timestamp: Instant,
}

/// What a [`FoundMessage`] holds.
pub struct FoundView {
    pub message_id: Seq<char>,
    pub sender_name: Seq<char>,
    pub text: Seq<char>,
    pub timestamp: Instant,
}

impl DeepView for FoundMessage {
    type V = FoundView;

    open spec fn deep_view(&self) -> FoundView {
        FoundView {
            message_id: self.message_id@,
            sender_name: self.sender_name@,
            text: self.text@,
            timestamp: self.timestamp,
        }
    }
}

/// The record of a message the bridge sent.
#[derive(Debug)]
pub struct SentMessage {
    pub message_id: String,
    pub text: String,
    pub sender: Sender,
    pub attachments: Vec<Attachment>,
    pub notes: Vec<String>,
    pub timestamp: Instant,
}

/// Where a conversation is, as its platform describes it.
pub struct ConversationInfo {
    pub id: ConversationId,
    pub kind: ChatKind,
    pub title: Option<String>,
}

/// Who the bot is on its platform.
#[derive(Debug)]
pub struct ChannelIdentity {
    pub id: String,
    pub display_name: String,
    pub username: Option<String>,
    pub reads_all_group_messages: bool,
}

/// What a channel can do.
#[derive(Debug, Clone, Copy, PartialEq, Eq, Structural)]
pub struct ChannelCapabilities {
    pub typing_indicator: bool,
    pub files: bool,
    pub photos: bool,
    pub reactions: bool,
    pub edit: bool,
    pub admin: bool,
    pub presence: bool,
    pub typing_status: bool,
    pub member_rights: bool,
    pub member_roles: bool,
}

/// Why a channel could not do what was asked.
#[derive(Debug)]
pub enum ChannelError {
    Setup { channel: String, message: String },
    Auth { channel: String, message: String },
    Delivery { channel: String, message: String },
    Transport { channel: String, message: String },
    InvalidConversation { id: String, reason: String },
    Unsupported { channel: String, feature: String },
}

/// What a [`ChannelError`] holds.
pub enum ChannelErrorView {
    Setup { channel: Seq<char>, message: Seq<char> },
    Auth { channel: Seq<char>, message: Seq<char> },
    Delivery { channel: Seq<char>, message: Seq<char> },
    Transport { channel: Seq<char>, message: Seq<char> },
    InvalidConversation { id: Seq<char>, reason: Seq<char> },
    Unsupported { channel: Seq<char>, feature: Seq<char> },
}

impl DeepView for ChannelError {
    type V = ChannelErrorView;

    open spec fn deep_view(&self) -> ChannelErrorView {
        match self {
            ChannelError::Setup { channel, message } => ChannelErrorView::Setup {
                channel: channel@,
                message: message@,
            },
            ChannelError::Auth { channel, message } => ChannelErrorView::Auth {
                channel: channel@,
                message: message@,
            },
            ChannelError::Delivery { channel, message } => ChannelErrorView::Delivery {
                channel: channel@,
                message: message@,
            },
            ChannelError::Transport { channel, message } => ChannelErrorView::Transport {
                channel: channel@,
                message: message@,
            },
            ChannelError::InvalidConversation { id, reason } =>
            ChannelErrorView::InvalidConversation { id: id@, reason: reason@ },
            ChannelError::Unsupported { channel, feature } => ChannelErrorView::Unsupported {
                channel: channel@,
                feature: feature@,
            },
        }
    }
}

/// The text that a channel error is reported by.
pub open spec fn channel_reported(error: ChannelErrorView) -> Seq<char> {
    match error {
        ChannelErrorView::Setup { channel, message } => "channel "@ + channel
            + " could not be set up: "@ + message,
        ChannelErrorView::Auth { channel, message } => "channel "@ + channel
            + " could not authenticate: "@ + message,
        ChannelErrorView::Delivery { channel, message } => "channel "@ + channel
            + " could not deliver: "@ + message,
        ChannelErrorView::Transport { channel, message } => "channel "@ + channel
            + " lost its connection: "@ + message,
        ChannelErrorView::InvalidConversation { id, reason } => "conversation "@ + id
            + " is not valid: "@ + reason,
        ChannelErrorView::Unsupported { channel, feature } => "channel "@ + channel
            + " does not support "@ + feature,
    }
}

impl ChannelError {
    /// A refusal to deliver.
    pub fn delivery(channel: &str, message: &str) -> (error: ChannelError)
        ensures
            error.deep_view() == (ChannelErrorView::Delivery {
                channel: channel@,
                message: message@,
            }),
    {
        ChannelError::Delivery { channel: channel.to_owned(), message: message.to_owned() }
    }

    /// A feature that the platform does not have.
    pub fn unsupported(channel: &str, feature: &str) -> (error: ChannelError)
        ensures
            error.deep_view() == (ChannelErrorView::Unsupported {
                channel: channel@,
                feature: feature@,
            }),
    {
        ChannelError::Unsupported { channel: channel.to_owned(), feature: feature.to_owned() }
    }

    /// An id that names nothing.
    pub fn invalid(id: &str, reason: &str) -> (error: ChannelError)
        ensures
            error.deep_view() == (ChannelErrorView::InvalidConversation {
                id: id@,
                reason: reason@,
            }),
    {
        ChannelError::InvalidConversation { id: id.to_owned(), reason: reason.to_owned() }
    }

    /// A failure to prove who the bot is.
    pub fn auth(channel: &str, message: &str) -> (error: ChannelError)
        ensures
            error.deep_view() == (ChannelErrorView::Auth {
                channel: channel@,
                message: message@,
            }),
    {
        ChannelError::Auth { channel: channel.to_owned(), message: message.to_owned() }
    }

    /// A failure of the connection.
    pub fn transport(channel: &str, message: &str) -> (error: ChannelError)
        ensures
            error.deep_view() == (ChannelErrorView::Transport {
                channel: channel@,
                message: message@,
            }),
    {
        ChannelError::Transport { channel: channel.to_owned(), message: message.to_owned() }
    }

    /// The text this error is reported by.
    pub fn to_text(&self) -> (text: String)
        ensures
            text@ == channel_reported(self.deep_view()),
    {
        match self {
            ChannelError::Setup { channel, message } => "channel ".to_owned().concat(
                channel.as_str(),
            ).concat(" could not be set up: ").concat(message.as_str()),
            ChannelError::Auth { channel, message } => "channel ".to_owned().concat(
                channel.as_str(),
            ).concat(" could not authenticate: ").concat(message.as_str()),
            ChannelError::Delivery { channel, message } => "channel ".to_owned().concat(
                channel.as_str(),
            ).concat(" could not deliver: ").concat(message.as_str()),
            ChannelError::Transport { channel, message } => "channel ".to_owned().concat(
                channel.as_str(),
            ).concat(" lost its connection: ").concat(message.as_str()),
            ChannelError::InvalidConversation { id, reason } => "conversation ".to_owned().concat(
                id.as_str(),
            ).concat(" is not valid: ").concat(reason.as_str()),
            ChannelError::Unsupported { channel, feature } => "channel ".to_owned().concat(
                channel.as_str(),
            ).concat(" does not support ").concat(feature.as_str()),
        }
    }
}

} // verus!
