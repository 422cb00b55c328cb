//! A Telegram message, and what it carries beyond its text.

use vstd::prelude::*;
use vstd::string::*;

use crate::channel::{Attachment, AttachmentKind, AttachmentView, ForwardOrigin, ForwardView};
use crate::text;
use crate::time::Instant;

verus! {

/// An account.
#[derive(Debug)]
pub struct User {
    pub id: u64,
    pub first_name: String,
    pub last_name: Option<String>,
    pub username: Option<String>,
    pub is_bot: bool,
}

/// What kind of chat a message was said in.
#[derive(Debug, Clone, Copy, PartialEq, Eq, Structural)]
pub enum ChatShape {
    Private,
    Group,
    Supergroup,
    Channel,
}

/// A chat. One between two people has no title.
#[derive(Debug)]
pub struct Chat {
    pub id: i64,
    pub shape: ChatShape,
    pub title: Option<String>,
}

/// What a stretch of a message's text was marked as.
#[derive(Debug, Clone, Copy, PartialEq, Eq, Structural)]
pub enum EntityKind {
    /// `@name`.
    Mention,
    /// Somebody with no name to mention, by their id.
    TextMention { user: u64 },
    /// `/command` or `/command@name`.
    BotCommand,
    /// Formatting, links and the like.
    Other,
}

/// A marked stretch of a message's text, in UTF-16 code units.
#[derive(Debug, Clone, Copy, PartialEq, Eq, Structural)]
pub struct Entity {
    pub kind: EntityKind,
    pub offset: usize,
    pub length: usize,
}

/// A file, as Telegram hands it out.
#[derive(Debug)]
pub struct FileMeta {
    pub id: String,
    pub size: u32,
}

/// One resolution of a picture.
#[derive(Debug)]
pub struct PhotoSize {
    pub file: FileMeta,
    pub width: u32,
    pub height: u32,
}

/// How a sticker is drawn.
#[derive(Debug, Clone, Copy, PartialEq, Eq, Structural)]
pub enum StickerFormat {
    Raster,
    Animated,
    Video,
}

/// Which dice was rolled.
#[derive(Debug, Clone, Copy, PartialEq, Eq, Structural)]
pub enum DiceEmoji {
    Dice,
    Darts,
    Bowling,
    Basketball,
    Football,
    SlotMachine,
}

/// What a message that somebody wrote holds. Coordinates are kept as they are written.
#[derive(Debug)]
pub enum MediaKind {
    Text,
    Photo { sizes: Vec<PhotoSize> },
    Document {
        file: FileMeta,
        file_name: Option<String>,
        mime_type: Option<String>,
        thumbnail: Option<PhotoSize>,
    },
    Animation {
        file: FileMeta,
        file_name: Option<String>,
        mime_type: Option<String>,
        width: u32,
        height: u32,
        duration: u32,
        thumbnail: Option<PhotoSize>,
    },
    Voice { file: FileMeta, mime_type: Option<String>, duration: u32 },
    Audio {
        file: FileMeta,
        file_name: Option<String>,
        mime_type: Option<String>,
        duration: u32,
        thumbnail: Option<PhotoSize>,
    },
    Video {
        file: FileMeta,
        file_name: Option<String>,
        mime_type: Option<String>,
        width: u32,
        height: u32,
        duration: u32,
        thumbnail: Option<PhotoSize>,
    },
    VideoNote { file: FileMeta, side: u32, duration: u32, thumbnail: Option<PhotoSize> },
    Sticker {
        file: FileMeta,
        width: u16,
        height: u16,
        format: StickerFormat,
        emoji: Option<String>,
        thumbnail: Option<PhotoSize>,
    },
    Location { latitude: String, longitude: String, live: bool },
    Venue { title: String, address: String, latitude: String, longitude: String },
    Contact { phone_number: String, first_name: String, last_name: Option<String> },
    Poll { question: String, options: Vec<String> },
    Story,
    PaidMedia,
    Game,
    Checklist,
    Migration,
}

/// What a message is.
#[derive(Debug)]
pub enum MessageKind {
    Common(MediaKind),
    Dice { emoji: DiceEmoji, value: u8 },
    /// Joins, pins, and other notices that Telegram writes.
    Service,
}

/// Where a forwarded message came from.
#[derive(Debug)]
pub enum MessageOrigin {
    User { sender: User },
    HiddenUser { name: String },
    Chat { title: Option<String> },
    Channel { title: Option<String>, message_id: i32 },
}

/// The message that a message replies to.
#[derive(Debug)]
pub struct Replied {
    pub id: i32,
    pub from: Option<User>,
    pub text: Option<String>,
    pub caption: Option<String>,
}

/// A message.
#[derive(Debug)]
pub struct Message {
    pub id: i32,
    pub chat: Chat,
    pub thread_id: Option<i32>,
    pub is_topic_message: bool,
    /// Who wrote it. Nobody, where it was posted as the chat itself.
    pub from: Option<User>,
    /// The title of the chat it was posted as.
    pub sender_chat: Option<String>,
    /// The bot whose inline mode produced it.
    pub via_bot: Option<u64>,
    pub reply_to: Option<Replied>,
    pub text: Option<String>,
    pub entities: Vec<Entity>,
    pub caption: Option<String>,
    pub caption_entities: Vec<Entity>,
    pub forward_origin: Option<MessageOrigin>,
    pub media_group_id: Option<String>,
    pub kind: MessageKind,
    pub date: Instant,
    pub edit_date: Option<Instant>,
}

/// Pixel size and running time, as far as one media kind has them.
#[derive(Debug, Clone, Copy, PartialEq, Eq, Structural)]
pub struct Shape {
    pub width: Option<u32>,
    pub height: Option<u32>,
    pub duration_secs: Option<u32>,
}

/// The shape of a file that the platform reports neither size nor length of.
pub open spec fn shapeless() -> Shape {
    Shape { width: None, height: None, duration_secs: None }
}

/// The shape of a picture.
pub open spec fn sized(width: u32, height: u32) -> Shape {
    Shape { width: Some(width), height: Some(height), duration_secs: None }
}

/// The shape of a moving picture.
pub open spec fn clip(width: u32, height: u32, duration_secs: u32) -> Shape {
    Shape { width: Some(width), height: Some(height), duration_secs: Some(duration_secs) }
}

/// The shape of a sound.
pub open spec fn sound(duration_secs: u32) -> Shape {
    Shape { width: None, height: None, duration_secs: Some(duration_secs) }
}

impl Shape {
    /// A document or a voice-less file: the platform reports neither size nor length.
    pub fn unknown() -> (shape: Shape)
        ensures
            shape == shapeless(),
    {
        Shape { width: None, height: None, duration_secs: None }
    }

    /// A picture.
    pub fn sized(width: u32, height: u32) -> (shape: Shape)
        ensures
            shape == sized(width, height),
    {
        Shape { width: Some(width), height: Some(height), duration_secs: None }
    }

    /// A moving picture.
    pub fn clip(width: u32, height: u32, duration_secs: u32) -> (shape: Shape)
        ensures
            shape == clip(width, height, duration_secs),
    {
        Shape { width: Some(width), height: Some(height), duration_secs: Some(duration_secs) }
    }

    /// A sound.
    pub fn sound(duration_secs: u32) -> (shape: Shape)
        ensures
            shape == sound(duration_secs),
    {
        Shape { width: None, height: None, duration_secs: Some(duration_secs) }
    }
}

/// The best human name for a user.
pub open spec fn user_name(user: User) -> Seq<char> {
    match user.last_name {
        Some(last) => if last@.len() > 0 {
            user.first_name@ + " "@ + last@
        } else {
            user.first_name@
        },
        None => user.first_name@,
    }
}

/// The best human name for a user.
pub fn display_name(user: &User) -> (name: String)
    ensures
        name@ == user_name(*user),
{
    match &user.last_name {
        Some(last) => if text::chars_of(last.as_str()).len() > 0 {
            user.first_name.clone().concat(" ").concat(last.as_str())
        } else {
            user.first_name.clone()
        },
        None => user.first_name.clone(),
    }
}

/// Where a forwarded message came from, in the platform-neutral shape.
pub open spec fn forwarded(origin: MessageOrigin) -> ForwardView {
    match origin {
        MessageOrigin::User { sender } => ForwardView::User {
            name: user_name(sender),
            id: Some(text::decimal(sender.id as nat)),
            username: sender.username.deep_view(),
        },
        MessageOrigin::HiddenUser { name } => ForwardView::HiddenUser { name: name@ },
        MessageOrigin::Chat { title } => ForwardView::Chat {
            title: text::either(title.deep_view(), "a group"@),
        },
        MessageOrigin::Channel { title, message_id } => ForwardView::Channel {
            title: text::either(title.deep_view(), "a channel"@),
            message_id: Some(text::signed_decimal(message_id as int)),
        },
    }
}

/// Translates Telegram's forward metadata into the platform-neutral shape.
pub fn forward_origin(origin: &MessageOrigin) -> (forward: ForwardOrigin)
    ensures
        forward.deep_view() == forwarded(*origin),
{
    match origin {
        MessageOrigin::User { sender } => ForwardOrigin::User {
            name: display_name(sender),
            id: Some(text::number(sender.id)),
            username: text::copied(&sender.username),
        },
        MessageOrigin::HiddenUser { name } => ForwardOrigin::HiddenUser { name: name.clone() },
        MessageOrigin::Chat { title } => ForwardOrigin::Chat { title: text::or(title, "a group") },
        MessageOrigin::Channel { title, message_id } => ForwardOrigin::Channel {
            title: text::or(title, "a channel"),
            message_id: Some(text::signed_number(*message_id as i64)),
        },
    }
}

/// What Telegram fetches a still image by.
pub open spec fn thumb_of(thumbnail: Option<PhotoSize>) -> Option<Seq<char>> {
    match thumbnail {
        Some(thumbnail) => Some(thumbnail.file.id@),
        None => None,
    }
}

/// The handle of a file.
pub open spec fn file_handle(
    kind: AttachmentKind,
    file: FileMeta,
    file_name: Option<Seq<char>>,
    media_type: Option<Seq<char>>,
    shape: Shape,
    thumb: Option<Seq<char>>,
) -> AttachmentView {
    AttachmentView {
        kind,
        file_name,
        media_type,
        bytes: Some(file.size as u64),
        width: shape.width,
        height: shape.height,
        duration_secs: shape.duration_secs,
        file_ref: file.id@,
        thumb_ref: thumb,
        handle: None,
    }
}

/// The file that a message carries, where it carries one.
pub open spec fn file_of(media: MediaKind) -> Option<AttachmentView> {
    match media {
        // Telegram sends several resolutions of the same photo; the last is the largest.
        MediaKind::Photo { sizes } => if sizes@.len() > 0 {
            let largest = sizes@.last();
            Some(
                file_handle(
                    AttachmentKind::Photo,
                    largest.file,
                    None,
                    Some("image/jpeg"@),
                    sized(largest.width, largest.height),
                    None,
                ),
            )
        } else {
            None
        },
        MediaKind::Document { file, file_name, mime_type, thumbnail } => Some(
            file_handle(
                AttachmentKind::Document,
                file,
                file_name.deep_view(),
                mime_type.deep_view(),
                shapeless(),
                thumb_of(thumbnail),
            ),
        ),
        MediaKind::Animation { file, file_name, mime_type, width, height, duration, thumbnail } =>
        Some(
            file_handle(
                AttachmentKind::Animation,
                file,
                file_name.deep_view(),
                mime_type.deep_view(),
                clip(width, height, duration),
                thumb_of(thumbnail),
            ),
        ),
        MediaKind::Voice { file, mime_type, duration } => Some(
            file_handle(
                AttachmentKind::Voice,
                file,
                None,
                mime_type.deep_view(),
                sound(duration),
                None,
            ),
        ),
        MediaKind::Audio { file, file_name, mime_type, duration, thumbnail } => Some(
            file_handle(
                AttachmentKind::Audio,
                file,
                file_name.deep_view(),
                mime_type.deep_view(),
                sound(duration),
                thumb_of(thumbnail),
            ),
        ),
        MediaKind::Video { file, file_name, mime_type, width, height, duration, thumbnail } => Some(
            file_handle(
                AttachmentKind::Video,
                file,
                file_name.deep_view(),
                mime_type.deep_view(),
                clip(width, height, duration),
                thumb_of(thumbnail),
            ),
        ),
        // A video note is square, so Telegram reports one side rather than two.
        MediaKind::VideoNote { file, side, duration, thumbnail } => Some(
            file_handle(
                AttachmentKind::VideoNote,
                file,
                None,
                None,
                clip(side, side, duration),
                thumb_of(thumbnail),
            ),
        ),
        // An animated or video sticker is not a viewable image, but its thumbnail is.
        MediaKind::Sticker { file, width, height, format, thumbnail, .. } => Some(
            file_handle(
                AttachmentKind::Sticker,
                file,
                None,
                if format == StickerFormat::Raster {
                    Some("image/webp"@)
                } else {
                    None
                },
                sized(width as u32, height as u32),
                if format == StickerFormat::Raster {
                    None
                } else {
                    thumb_of(thumbnail)
                },
            ),
        ),
        _ => None,
    }
}

/// What is said of content that has no file, or not only a file.
pub open spec fn note_of(media: MediaKind) -> Option<Seq<char>> {
    match media {
        MediaKind::Photo { sizes } => if sizes@.len() > 0 {
            None
        } else {
            Some("a photo arrived with no usable resolution"@)
        },
        MediaKind::Sticker { emoji, .. } => Some(
            match emoji {
                Some(emoji) => "sticker "@ + emoji@,
                None => "sticker"@,
            },
        ),
        MediaKind::Location { latitude, longitude, live } => {
            let place = "location: "@ + latitude@ + ", "@ + longitude@;
            Some(
                if live {
                    place + " (live, updating)"@
                } else {
                    place
                },
            )
        },
        MediaKind::Venue { title, address, latitude, longitude } => Some(
            "venue: "@ + text::debug_quoted(title@) + " at "@ + text::debug_quoted(address@)
                + " ("@ + latitude@ + ", "@ + longitude@ + ")"@,
        ),
        MediaKind::Contact { phone_number, first_name, last_name } => {
            let name = match last_name {
                Some(last) => first_name@ + " "@ + last@,
                None => first_name@,
            };
            Some("contact card: "@ + name + ", phone "@ + phone_number@)
        },
        MediaKind::Poll { question, options } => Some(
            "poll: "@ + text::debug_quoted(question@) + " with options "@ + text::joined(
                options.deep_view(),
                ", "@,
            ),
        ),
        MediaKind::Story => Some("a story, which bots cannot read"@),
        MediaKind::PaidMedia => Some("paid media, which this bridge cannot open"@),
        MediaKind::Game => Some("a game"@),
        MediaKind::Checklist => Some("a checklist"@),
        _ => None,
    }
}

/// The name of a dice.
pub open spec fn dice_name(emoji: DiceEmoji) -> Seq<char> {
    match emoji {
        DiceEmoji::Dice => "Dice"@,
        DiceEmoji::Darts => "Darts"@,
        DiceEmoji::Bowling => "Bowling"@,
        DiceEmoji::Basketball => "Basketball"@,
        DiceEmoji::Football => "Football"@,
        DiceEmoji::SlotMachine => "SlotMachine"@,
    }
}

/// An optional value as a list.
pub open spec fn listed<T>(item: Option<T>) -> Seq<T> {
    match item {
        Some(item) => seq![item],
        None => Seq::empty(),
    }
}

/// The files that a message carries.
pub open spec fn files_of(kind: MessageKind) -> Seq<AttachmentView> {
    match kind {
        MessageKind::Common(media) => listed(file_of(media)),
        _ => Seq::empty(),
    }
}

/// What is said of the content of a message.
pub open spec fn notes_of(kind: MessageKind) -> Seq<Seq<char>> {
    match kind {
        MessageKind::Dice { emoji, value } => seq![
            "dice roll: "@ + dice_name(emoji) + " showing "@ + text::decimal(value as nat),
        ],
        MessageKind::Common(media) => listed(note_of(media)),
        MessageKind::Service => Seq::empty(),
    }
}

fn thumb_ref(thumbnail: &Option<PhotoSize>) -> (thumb: Option<String>)
    ensures
        thumb.deep_view() == thumb_of(*thumbnail),
{
    match thumbnail {
        Some(thumbnail) => Some(thumbnail.file.id.clone()),
        None => None,
    }
}

fn attachment(
    kind: AttachmentKind,
    file: &FileMeta,
    file_name: Option<String>,
    media_type: Option<String>,
    shape: Shape,
    thumb_ref: Option<String>,
) -> (attachment: Attachment)
    ensures
        attachment.deep_view() == file_handle(
            kind,
            *file,
            file_name.deep_view(),
            media_type.deep_view(),
            shape,
            thumb_ref.deep_view(),
        ),
{
    Attachment {
        kind,
        file_name,
        media_type,
        bytes: Some(file.size as u64),
        width: shape.width,
        height: shape.height,
        duration_secs: shape.duration_secs,
        file_ref: file.id.clone(),
        thumb_ref,
        handle: None,
    }
}

fn describe_file(media: &MediaKind) -> (file: Option<Attachment>)
    ensures
        file.deep_view() == file_of(*media),
{
    match media {
        MediaKind::Photo { sizes } => {
            if sizes.len() == 0 {
                return None;
            }
            let largest = &sizes[sizes.len() - 1];
            Some(
                attachment(
                    AttachmentKind::Photo,
                    &largest.file,
                    None,
                    Some("image/jpeg".to_owned()),
                    Shape::sized(largest.width, largest.height),
                    None,
                ),
            )
        },
        MediaKind::Document { file, file_name, mime_type, thumbnail } => Some(
            attachment(
                AttachmentKind::Document,
                file,
                text::copied(file_name),
                text::copied(mime_type),
                Shape::unknown(),
                thumb_ref(thumbnail),
            ),
        ),
        MediaKind::Animation { file, file_name, mime_type, width, height, duration, thumbnail } =>
        Some(
            attachment(
                AttachmentKind::Animation,
                file,
                text::copied(file_name),
                text::copied(mime_type),
                Shape::clip(*width, *height, *duration),
                thumb_ref(thumbnail),
            ),
        ),
        MediaKind::Voice { file, mime_type, duration } => Some(
            attachment(
                AttachmentKind::Voice,
                file,
                None,
                text::copied(mime_type),
                Shape::sound(*duration),
                None,
            ),
        ),
        MediaKind::Audio { file, file_name, mime_type, duration, thumbnail } => Some(
            attachment(
                AttachmentKind::Audio,
                file,
                text::copied(file_name),
                text::copied(mime_type),
                Shape::sound(*duration),
                thumb_ref(thumbnail),
            ),
        ),
        MediaKind::Video { file, file_name, mime_type, width, height, duration, thumbnail } => Some(
            attachment(
                AttachmentKind::Video,
                file,
                text::copied(file_name),
                text::copied(mime_type),
                Shape::clip(*width, *height, *duration),
                thumb_ref(thumbnail),
            ),
        ),
        MediaKind::VideoNote { file, side, duration, thumbnail } => Some(
            attachment(
                AttachmentKind::VideoNote,
                file,
                None,
                None,
                Shape::clip(*side, *side, *duration),
                thumb_ref(thumbnail),
            ),
        ),
        MediaKind::Sticker { file, width, height, format, thumbnail, .. } => {
            let still = *format == StickerFormat::Raster;
            let media_type = if still {
                Some("image/webp".to_owned())
            } else {
                None
            };
            let thumb = if still {
                None
            } else {
                thumb_ref(thumbnail)
            };
            Some(
                attachment(
                    AttachmentKind::Sticker,
                    file,
                    None,
                    media_type,
                    Shape::sized(*width as u32, *height as u32),
                    thumb,
                ),
            )
        },
        _ => None,
    }
}

fn describe_note(media: &MediaKind) -> (note: Option<String>)
    ensures
        note.deep_view() == note_of(*media),
{
    match media {
        MediaKind::Photo { sizes } => if sizes.len() > 0 {
            None
        } else {
            Some("a photo arrived with no usable resolution".to_owned())
        },
        MediaKind::Sticker { emoji, .. } => match emoji {
            Some(emoji) => Some("sticker ".to_owned().concat(emoji.as_str())),
            None => Some("sticker".to_owned()),
        },
        MediaKind::Location { latitude, longitude, live } => {
            let place = "location: ".to_owned().concat(latitude.as_str()).concat(", ").concat(
                longitude.as_str(),
            );
            if *live {
                Some(place.concat(" (live, updating)"))
            } else {
                Some(place)
            }
        },
        MediaKind::Venue { title, address, latitude, longitude } => Some(
            "venue: ".to_owned().concat(text::quoted(title.as_str()).as_str()).concat(
                " at ",
            ).concat(text::quoted(address.as_str()).as_str()).concat(" (").concat(
                latitude.as_str(),
            ).concat(", ").concat(longitude.as_str()).concat(")"),
        ),
        MediaKind::Contact { phone_number, first_name, last_name } => {
            let name = match last_name {
                Some(last) => first_name.clone().concat(" ").concat(last.as_str()),
                None => first_name.clone(),
            };
            Some(
                "contact card: ".to_owned().concat(name.as_str()).concat(", phone ").concat(
                    phone_number.as_str(),
                ),
            )
        },
        MediaKind::Poll { question, options } => Some(
            "poll: ".to_owned().concat(text::quoted(question.as_str()).as_str()).concat(
                " with options ",
            ).concat(text::join(options, ", ").as_str()),
        ),
        MediaKind::Story => Some("a story, which bots cannot read".to_owned()),
        // Content this bridge has no way to render. Announced rather than dropped, so the agent can
        // at least say "somebody sent me something I cannot open" instead of appearing to ignore it.
        MediaKind::PaidMedia => Some("paid media, which this bridge cannot open".to_owned()),
        MediaKind::Game => Some("a game".to_owned()),
        MediaKind::Checklist => Some("a checklist".to_owned()),
        _ => None,
    }
}

fn name_of_dice(emoji: DiceEmoji) -> (name: &'static str)
    ensures
        name@ == dice_name(emoji),
{
    match emoji {
        DiceEmoji::Dice => "Dice",
        DiceEmoji::Darts => "Darts",
        DiceEmoji::Bowling => "Bowling",
        DiceEmoji::Basketball => "Basketball",
        DiceEmoji::Football => "Football",
        DiceEmoji::SlotMachine => "SlotMachine",
    }
}

/// Everything a message carries beyond its text: files to fetch on demand, and descriptions of
/// content that has no file at all.
///
/// Exhaustive over the kinds of media on purpose, so that nothing anybody sends silently disappears.
pub fn describe_content(kind: &MessageKind) -> (content: (Vec<Attachment>, Vec<String>))
    ensures
        content.0.deep_view() == files_of(*kind),
        content.1.deep_view() == notes_of(*kind),
{
    let mut files: Vec<Attachment> = Vec::new();
    let mut notes: Vec<String> = Vec::new();
    match kind {
        MessageKind::Dice { emoji, value } => {
            text::push(
                &mut notes,
                "dice roll: ".to_owned().concat(name_of_dice(*emoji)).concat(" showing ").concat(
                    text::number(*value as u64).as_str(),
                ),
            );
        },
        MessageKind::Common(media) => {
            if let Some(file) = describe_file(media) {
                files.push(file);
            }
            if let Some(note) = describe_note(media) {
                text::push(&mut notes, note);
            }
        },
        // Joins, pins, forum topic changes, video chat events. Real service messages carry nothing
        // for the agent to act on, and waking it for them would spend a provider turn on noise.
        MessageKind::Service => {},
    }
    assert(files.deep_view() =~= files_of(*kind));
    assert(notes.deep_view() =~= notes_of(*kind));
    (files, notes)
}

/// Whether anything can be said of what a media kind holds. Only a text says it itself, and a chat
/// turning into another kind of chat is nothing that anybody said.
pub proof fn no_media_disappears(media: MediaKind)
    requires
        media !is Text,
        media !is Migration,
    ensures
        files_of(MessageKind::Common(media)).len() + notes_of(MessageKind::Common(media)).len() > 0,
{
}

} // verus!
