//! What is sent to Telegram, and what is refused before it is.

use vstd::prelude::*;
use vstd::string::*;

use crate::channel::telegram::render::{to_html, CAPTION_LIMIT, MESSAGE_LIMIT};
use crate::channel::telegram::TelegramChannel;
use crate::channel::{
    Activity, ChannelError, ChannelErrorView, ChatSettings, FileOptions, SendOptions,
};
use crate::config::TelegramParseMode;
use crate::paths;
use crate::render::verbatim::{self, plain};
use crate::render::{blocks, split};
use crate::text;

verus! {

/// Most files Telegram will take in one album.
///
/// Enforced here rather than left to Telegram so an over-long list costs no upload, and so the agent
/// is told the number rather than reading a generic rejection.
pub const MAX_ALBUM_ITEMS: usize = 10;

/// How Telegram is to read the text of a message.
#[derive(Debug, Clone, Copy, PartialEq, Eq, Structural)]
pub enum ParseMode {
    Html,
}

/// What an indicator says that somebody is about to receive.
#[derive(Debug, Clone, Copy, PartialEq, Eq, Structural)]
pub enum ChatAction {
    Typing,
    UploadPhoto,
    UploadDocument,
}

/// Whether a link in a message gets a preview card.
#[derive(Debug, Clone, Copy, PartialEq, Eq, Structural)]
pub struct LinkPreviewOptions {
    pub is_disabled: bool,
}

/// One message to be sent.
#[derive(Debug)]
pub struct Post {
    pub body: String,
    pub parse_mode: Option<ParseMode>,
    pub silent: bool,
    pub link_preview: LinkPreviewOptions,
    /// The message it answers.
    pub reply_to: Option<i32>,
}

/// One message to be changed.
#[derive(Debug)]
pub struct Edit {
    pub body: String,
    pub parse_mode: Option<ParseMode>,
    pub link_preview: LinkPreviewOptions,
}

/// One file to be sent, with the caption it carries, if any.
#[derive(Debug)]
pub struct FileItem {
    pub path: String,
    pub as_photo: bool,
    pub caption: Option<String>,
    /// How the caption is to be read. There is nothing to read without one.
    pub parse_mode: Option<ParseMode>,
}

/// Files to be sent: one by itself, or several as an album.
#[derive(Debug)]
pub struct Upload {
    pub items: Vec<FileItem>,
    pub album: bool,
    pub silent: bool,
    pub reply_to: Option<i32>,
}

/// How text is to be read, by how the channel is configured.
pub open spec fn mode_of(parse_mode: TelegramParseMode) -> Option<ParseMode> {
    match parse_mode {
        TelegramParseMode::Html => Some(ParseMode::Html),
        TelegramParseMode::Verbatim => None,
    }
}

/// The messages that a markdown text is sent as: written as HTML, or split as it stands.
pub open spec fn rendered(
    parse_mode: TelegramParseMode,
    markdown: Seq<char>,
    limit: usize,
) -> Seq<Seq<char>> {
    match parse_mode {
        TelegramParseMode::Html => split::messages_of::<super::render::Telegram>(
            blocks::blocks_of(markdown),
            limit,
        ),
        TelegramParseMode::Verbatim => split::messages_of::<verbatim::Verbatim>(
            seq![verbatim::paragraph(markdown)],
            limit,
        ),
    }
}

/// The message that a reply quotes. What is no message id quotes nothing.
pub open spec fn quoted(reply_to: Option<Seq<char>>) -> Option<i32> {
    match reply_to {
        Some(raw) => match text::signed_in(raw, i32::MIN as int, i32::MAX as int) {
            Some(id) => Some(id as i32),
            None => None,
        },
        None => None,
    }
}

/// Whether these are the messages that carry `bodies`, in order: all alike but that only the first
/// quotes what is being replied to. Each states whether it wants a preview.
pub open spec fn posted(
    bodies: Seq<Seq<char>>,
    parse_mode: Option<ParseMode>,
    options: SendOptions,
    posts: Seq<Post>,
) -> bool {
    &&& posts.len() == bodies.len()
    &&& forall|i: int|
        0 <= i < posts.len() ==> {
            let post = #[trigger] posts[i];
            &&& post.body@ == bodies[i]
            &&& post.parse_mode == parse_mode
            &&& post.silent == options.silent
            &&& post.link_preview.is_disabled == !options.link_preview
            &&& post.reply_to == (if i == 0 {
                quoted(options.reply_to.deep_view())
            } else {
                None
            })
        }
}

/// The refusal of more files than an album takes.
pub open spec fn too_many_files(id: Seq<char>, count: nat) -> ChannelErrorView {
    ChannelErrorView::Delivery {
        channel: id,
        message: "Telegram takes at most 10 files in one album, and "@ + text::decimal(count)
            + " were given. Send them in several batches."@,
    }
}

/// The refusal of a caption that does not fit.
pub open spec fn long_caption(id: Seq<char>) -> ChannelErrorView {
    ChannelErrorView::Delivery {
        channel: id,
        message: "the caption is longer than the 1024 characters Telegram allows on a file. Shorten \
                  it, or send the file with a short caption and the rest as a message."@,
    }
}

/// What a caption that renders to `bodies` comes to: one body, or none.
pub open spec fn captioned(id: Seq<char>, bodies: Seq<Seq<char>>) -> Result<
    Option<Seq<char>>,
    ChannelErrorView,
> {
    if bodies.len() > 1 {
        Err(long_caption(id))
    } else if bodies.len() == 1 {
        Ok(Some(bodies[0]))
    } else {
        Ok(None)
    }
}

/// What a caption renders to. No caption renders to nothing.
pub open spec fn rendered_caption(
    parse_mode: TelegramParseMode,
    caption: Option<&str>,
) -> Seq<Seq<char>> {
    match caption {
        Some(caption) => rendered(parse_mode, caption@, CAPTION_LIMIT),
        None => Seq::empty(),
    }
}

/// The id of the message being answered, or why it is none.
pub open spec fn answered(reply_to: Option<Seq<char>>) -> Result<Option<i32>, ChannelErrorView> {
    match reply_to {
        None => Ok(None),
        Some(raw) => match super::message_in(raw) {
            Some(id) => Ok(Some(id as i32)),
            None => Err(super::not_a_message(raw)),
        },
    }
}

/// Whether these are the items that files are sent as, with the caption on exactly the first.
pub open spec fn itemised(
    paths: Seq<Seq<char>>,
    caption: Option<Seq<char>>,
    as_photo: bool,
    parse_mode: Option<ParseMode>,
    items: Seq<FileItem>,
) -> bool {
    &&& items.len() == paths.len()
    &&& forall|i: int|
        0 <= i < items.len() ==> {
            let item = #[trigger] items[i];
            &&& item.path@ == paths[i]
            &&& item.as_photo == as_photo
            &&& item.caption.deep_view() == (if i == 0 {
                caption
            } else {
                None
            })
            &&& item.parse_mode == (if item.caption is Some {
                parse_mode
            } else {
                None
            })
        }
}

/// What an edit to a text that renders to `bodies` comes to: it has to be one message.
pub open spec fn edited(id: Seq<char>, bodies: Seq<Seq<char>>) -> Result<
    Seq<char>,
    ChannelErrorView,
> {
    if bodies.len() == 1 {
        Ok(bodies[0])
    } else if bodies.len() == 0 {
        Err(
            ChannelErrorView::Delivery {
                channel: id,
                message: "the replacement text renders to nothing, so there is no message to leave \
                          behind. Use delete_message to remove it instead."@,
            },
        )
    } else {
        Err(
            ChannelErrorView::Delivery {
                channel: id,
                message: "the replacement text is too long for one message ("@ + text::decimal(
                    bodies.len(),
                ) + " parts); an edit cannot span several"@,
            },
        )
    }
}

/// The media type of a file with an extension, where it is a picture.
///
/// Only the types that matter for viewing an image are mapped. Anything else keeps whatever the
/// message advertised, which is the sender's claim but the best available.
pub open spec fn media_type_of(extension: Seq<char>) -> Option<Seq<char>> {
    let small = text::lowered(extension);
    if small == "jpg"@ || small == "jpeg"@ {
        Some("image/jpeg"@)
    } else if small == "png"@ {
        Some("image/png"@)
    } else if small == "gif"@ {
        Some("image/gif"@)
    } else if small == "webp"@ {
        Some("image/webp"@)
    } else {
        None
    }
}

/// The album's caption stands on exactly one item: the first, and on no other.
///
/// Telegram has no group caption. What renders under an album is what clients do when a single item
/// carries one; with every item captioned they render none at all.
pub proof fn exactly_one_item_carries_the_caption(
    paths: Seq<Seq<char>>,
    caption: Seq<char>,
    as_photo: bool,
    parse_mode: Option<ParseMode>,
    items: Seq<FileItem>,
    i: int,
)
    requires
        itemised(paths, Some(caption), as_photo, parse_mode, items),
        0 <= i < items.len(),
    ensures
        items[i].caption is Some <==> i == 0,
{
    assert(items[i].caption.deep_view() is Some <==> i == 0);
}

/// Whether Telegram should attach a preview card to a link in a message.
///
/// Stated in both directions rather than omitted when a preview is wanted, which matters on an edit:
/// an absent field leaves Telegram to decide, and "the default" and "what the message already had"
/// are indistinguishable from here.
pub fn link_preview(enabled: bool) -> (options: LinkPreviewOptions)
    ensures
        options.is_disabled == !enabled,
{
    LinkPreviewOptions { is_disabled: !enabled }
}

/// Whether this many files go out as an album rather than by themselves.
///
/// The boundary is Telegram's, not a preference: an album requires at least two items, so one file
/// through it is an error.
pub fn groups_into_an_album(paths: &Vec<String>) -> (album: bool)
    ensures
        album == (paths@.len() > 1),
{
    paths.len() > 1
}

/// Telegram's chat action for a bridge activity.
pub fn chat_action(activity: Activity) -> (action: ChatAction)
    ensures
        action == (match activity {
            Activity::Typing => ChatAction::Typing,
            Activity::SendingPhoto => ChatAction::UploadPhoto,
            Activity::SendingFile => ChatAction::UploadDocument,
        }),
{
    match activity {
        Activity::Typing => ChatAction::Typing,
        Activity::SendingPhoto => ChatAction::UploadPhoto,
        Activity::SendingFile => ChatAction::UploadDocument,
    }
}

/// What is declared before an upload starts: what the user is about to receive.
pub fn upload_activity(as_photo: bool) -> (activity: Activity)
    ensures
        activity == (if as_photo {
            Activity::SendingPhoto
        } else {
            Activity::SendingFile
        }),
{
    if as_photo {
        Activity::SendingPhoto
    } else {
        Activity::SendingFile
    }
}

/// The media type for the extension Telegram's own file path carries.
pub fn media_type_for_extension(extension: &str) -> (media_type: Option<String>)
    ensures
        media_type.deep_view() == media_type_of(extension@),
{
    let small = text::lower(extension);
    let small = small.as_str();
    if text::same(small, "jpg") || text::same(small, "jpeg") {
        Some("image/jpeg".to_owned())
    } else if text::same(small, "png") {
        Some("image/png".to_owned())
    } else if text::same(small, "gif") {
        Some("image/gif".to_owned())
    } else if text::same(small, "webp") {
        Some("image/webp".to_owned())
    } else {
        None
    }
}

/// The extension of a file and the media type it stands for. Telegram's own path carries the real
/// extension, which is a better signal than anything the sender named the file.
pub fn file_type(path: &str) -> (found: (Option<String>, Option<String>))
    ensures
        found.0.deep_view() == paths::path_extension(path@),
        found.1.deep_view() == (match paths::path_extension(path@) {
            Some(extension) => media_type_of(extension),
            None => None,
        }),
{
    let extension = paths::extension(path);
    let media_type = match &extension {
        Some(extension) => media_type_for_extension(extension.as_str()),
        None => None,
    };
    (extension, media_type)
}

/// The items that files are sent as, with the caption on exactly the first.
///
/// One choice between photos and documents for all of them, because Telegram refuses an album that
/// mixes the two.
pub fn album_items(
    paths: &Vec<String>,
    caption: &Option<String>,
    as_photo: bool,
    parse_mode: Option<ParseMode>,
) -> (items: Vec<FileItem>)
    ensures
        itemised(paths.deep_view(), caption.deep_view(), as_photo, parse_mode, items@),
{
    let mut items: Vec<FileItem> = Vec::new();
    let mut i: usize = 0;
    while i < paths.len()
        invariant
            i <= paths.len(),
            itemised(
                paths.deep_view().take(i as int),
                caption.deep_view(),
                as_photo,
                parse_mode,
                items@,
            ),
        decreases paths.len() - i,
    {
        let ghost taken = items@;
        let mine = if i == 0 {
            text::copied(caption)
        } else {
            None
        };
        let mode: Option<ParseMode> = if mine.is_some() {
            parse_mode
        } else {
            None
        };
        items.push(FileItem { path: paths[i].clone(), as_photo, caption: mine, parse_mode: mode });
        assert forall|j: int| 0 <= j < items@.len() implies {
            let item = #[trigger] items@[j];
            &&& item.path@ == paths.deep_view().take(i + 1)[j]
            &&& item.as_photo == as_photo
            &&& item.caption.deep_view() == (if j == 0 {
                caption.deep_view()
            } else {
                None
            })
            &&& item.parse_mode == (if item.caption is Some {
                parse_mode
            } else {
                None
            })
        } by {
            if j < i {
                assert(items@[j] == taken[j]);
                assert(paths.deep_view().take(i as int)[j] == paths.deep_view()[j]);
            }
        }
        i += 1;
    }
    assert(paths.deep_view().take(i as int) =~= paths.deep_view());
    items
}

/// The messages that carry `bodies`.
///
/// Each part states whether it wants a preview, unlike the reply quote: a part is a whole message to
/// Telegram, so suppressing all but one would need to know which one holds the link the agent meant.
pub fn post_parts(
    bodies: &Vec<String>,
    parse_mode: Option<ParseMode>,
    options: &SendOptions,
) -> (posts: Vec<Post>)
    ensures
        posted(bodies.deep_view(), parse_mode, *options, posts@),
{
    let reply_to: Option<i32> = match &options.reply_to {
        Some(raw) => text::parse_i32(raw.as_str()),
        None => None,
    };
    assert(reply_to == quoted(options.reply_to.deep_view()));
    let mut posts: Vec<Post> = Vec::new();
    let mut i: usize = 0;
    while i < bodies.len()
        invariant
            i <= bodies.len(),
            reply_to == quoted(options.reply_to.deep_view()),
            posted(bodies.deep_view().take(i as int), parse_mode, *options, posts@),
        decreases bodies.len() - i,
    {
        let ghost taken = posts@;
        // Only the first part quotes the message being replied to; repeating the quote on every part
        // of a long answer is noise.
        let mine: Option<i32> = if i == 0 {
            reply_to
        } else {
            None
        };
        posts.push(
            Post {
                body: bodies[i].clone(),
                parse_mode,
                silent: options.silent,
                link_preview: link_preview(options.link_preview),
                reply_to: mine,
            },
        );
        assert forall|j: int| 0 <= j < posts@.len() implies {
            let post = #[trigger] posts@[j];
            &&& post.body@ == bodies.deep_view().take(i + 1)[j]
            &&& post.parse_mode == parse_mode
            &&& post.silent == options.silent
            &&& post.link_preview.is_disabled == !options.link_preview
            &&& post.reply_to == (if j == 0 {
                quoted(options.reply_to.deep_view())
            } else {
                None
            })
        } by {
            if j < i {
                assert(posts@[j] == taken[j]);
                assert(bodies.deep_view().take(i as int)[j] == bodies.deep_view()[j]);
            }
        }
        i += 1;
    }
    assert(bodies.deep_view().take(i as int) =~= bodies.deep_view());
    posts
}

impl TelegramChannel {
    /// The parse mode a caption is rendered with, or nothing when the channel sends Markdown as it
    /// is.
    pub fn caption_parse_mode(&self) -> (mode: Option<ParseMode>)
        ensures
            mode == mode_of(self.parse_mode),
    {
        match self.parse_mode {
            TelegramParseMode::Html => Some(ParseMode::Html),
            TelegramParseMode::Verbatim => None,
        }
    }

    /// Splits agent Markdown into wire-ready message bodies.
    pub fn render(&self, markdown: &str, limit: usize) -> (bodies: (
        Vec<String>,
        Option<ParseMode>,
    ))
        ensures
            bodies.0.deep_view() == rendered(self.parse_mode, markdown@, limit),
            bodies.1 == mode_of(self.parse_mode),
    {
        match self.parse_mode {
            TelegramParseMode::Html => (to_html(markdown, limit), Some(ParseMode::Html)),
            TelegramParseMode::Verbatim => (plain(markdown, limit), None),
        }
    }

    /// The messages that a markdown text is sent as.
    pub fn send_text(&self, markdown: &str, options: &SendOptions) -> (posts: Vec<Post>)
        ensures
            posted(
                rendered(self.parse_mode, markdown@, MESSAGE_LIMIT),
                mode_of(self.parse_mode),
                *options,
                posts@,
            ),
    {
        let (bodies, parse_mode) = self.render(markdown, MESSAGE_LIMIT);
        post_parts(&bodies, parse_mode, options)
    }

    /// The failure of one part of several.
    pub fn part_failed(&self, index: usize, count: usize, error: &str) -> (failure: ChannelError)
        requires
            index < count,
        ensures
            failure.deep_view() == (ChannelErrorView::Delivery {
                channel: self.id@,
                message: "part "@ + text::decimal((index + 1) as nat) + " of "@ + text::decimal(
                    count as nat,
                ) + " failed: "@ + error@,
            }),
    {
        let message = "part ".to_owned().concat(text::number((index + 1) as u64).as_str()).concat(
            " of ",
        ).concat(text::number(count as u64).as_str()).concat(" failed: ").concat(error);
        ChannelError::delivery(self.id.as_str(), message.as_str())
    }

    /// Whether an album takes so many files.
    pub fn check_files(&self, count: usize) -> (checked: Result<(), ChannelError>)
        ensures
            match checked {
                Ok(_) => count <= MAX_ALBUM_ITEMS,
                Err(error) => count > MAX_ALBUM_ITEMS && error.deep_view() == too_many_files(
                    self.id@,
                    count as nat,
                ),
            },
    {
        if count > MAX_ALBUM_ITEMS {
            let message = "Telegram takes at most 10 files in one album, and ".to_owned().concat(
                text::number(count as u64).as_str(),
            ).concat(" were given. Send them in several batches.");
            return Err(ChannelError::delivery(self.id.as_str(), message.as_str()));
        }
        Ok(())
    }

    /// What a caption that renders to `bodies` comes to.
    ///
    /// A caption cannot be continued: it belongs to the file. Taking the first part and dropping the
    /// rest would lose the difference silently and still report success.
    pub fn caption_body(&self, bodies: Vec<String>) -> (body: Result<Option<String>, ChannelError>)
        ensures
            match body {
                Ok(body) => captioned(self.id@, bodies.deep_view()) == Ok::<
                    Option<Seq<char>>,
                    ChannelErrorView,
                >(body.deep_view()),
                Err(error) => captioned(self.id@, bodies.deep_view()) == Err::<
                    Option<Seq<char>>,
                    ChannelErrorView,
                >(error.deep_view()),
            },
    {
        if bodies.len() > 1 {
            return Err(
                ChannelError::delivery(
                    self.id.as_str(),
                    "the caption is longer than the 1024 characters Telegram allows on a file. \
                     Shorten it, or send the file with a short caption and the rest as a message.",
                ),
            );
        }
        let mut rest = bodies;
        if rest.len() == 1 {
            assert(bodies.deep_view()[0] == bodies@[0]@);
            Ok(Some(rest.remove(0)))
        } else {
            Ok(None)
        }
    }

    /// The files to be sent, or why they cannot be.
    ///
    /// Whether a preview is wanted has no effect here: nothing that carries a file carries one, so a
    /// link in a caption never expands into a card whatever is asked for.
    pub fn send_files(
        &self,
        paths: &Vec<String>,
        caption: Option<&str>,
        options: &FileOptions,
    ) -> (upload: Result<Upload, ChannelError>)
        ensures
            paths@.len() > MAX_ALBUM_ITEMS ==> (upload matches Err(error) && error.deep_view()
                == too_many_files(self.id@, paths@.len())),
            paths@.len() <= MAX_ALBUM_ITEMS ==> match captioned(
                self.id@,
                rendered_caption(self.parse_mode, caption),
            ) {
                Err(refusal) => upload matches Err(error) && error.deep_view() == refusal,
                Ok(body) => match answered(options.send.reply_to.deep_view()) {
                    Err(refusal) => upload matches Err(error) && error.deep_view() == refusal,
                    Ok(reply_to) => match upload {
                        Ok(upload) => {
                            &&& paths@.len() > 0
                            &&& itemised(
                                paths.deep_view(),
                                body,
                                options.as_photo,
                                mode_of(self.parse_mode),
                                upload.items@,
                            )
                            &&& upload.album == (paths@.len() > 1)
                            &&& upload.silent == options.send.silent
                            &&& upload.reply_to == reply_to
                        },
                        Err(error) => {
                            &&& paths@.len() == 0
                            &&& error.deep_view() == (ChannelErrorView::Delivery {
                                channel: self.id@,
                                message: "no files were given to send"@,
                            })
                        },
                    },
                },
            },
    {
        match self.check_files(paths.len()) {
            Ok(_) => {},
            Err(error) => return Err(error),
        }
        let bodies: Vec<String> = match caption {
            None => Vec::new(),
            Some(caption) => {
                let (bodies, _) = self.render(caption, CAPTION_LIMIT);
                bodies
            },
        };
        assert(bodies.deep_view() =~= rendered_caption(self.parse_mode, caption));
        let body = match self.caption_body(bodies) {
            Ok(body) => body,
            Err(error) => return Err(error),
        };
        let reply_to: Option<i32> = match &options.send.reply_to {
            None => None,
            Some(raw) => match self.message_id(raw.as_str()) {
                Ok(id) => Some(id),
                Err(error) => return Err(error),
            },
        };
        if paths.len() == 0 {
            return Err(ChannelError::delivery(self.id.as_str(), "no files were given to send"));
        }
        Ok(
            Upload {
                items: album_items(paths, &body, options.as_photo, self.caption_parse_mode()),
                album: groups_into_an_album(paths),
                silent: options.send.silent,
                reply_to,
            },
        )
    }

    /// Whether a file is small enough to fetch. Checked before transferring anything, so an oversized
    /// file costs one metadata call rather than a partial download.
    pub fn check_size(&self, size: u64, max_bytes: u64) -> (checked: Result<(), ChannelError>)
        ensures
            match checked {
                Ok(_) => size <= max_bytes,
                Err(error) => size > max_bytes && error.deep_view() == (ChannelErrorView::Delivery {
                    channel: self.id@,
                    message: "the file is "@ + text::decimal(size as nat)
                        + " bytes, over the configured limit of "@ + text::decimal(max_bytes as nat)
                        + " bytes"@,
                }),
            },
    {
        if size > max_bytes {
            let message = "the file is ".to_owned().concat(text::number(size).as_str()).concat(
                " bytes, over the configured limit of ",
            ).concat(text::number(max_bytes).as_str()).concat(" bytes");
            return Err(ChannelError::delivery(self.id.as_str(), message.as_str()));
        }
        Ok(())
    }

    /// What an edit to a text that renders to `bodies` comes to.
    ///
    /// An edit replaces one message, so text that would have been split on the way out has nowhere
    /// to go. Refusing beats silently publishing the first part as the whole revision.
    pub fn edit_body(&self, bodies: Vec<String>) -> (body: Result<String, ChannelError>)
        ensures
            match body {
                Ok(body) => edited(self.id@, bodies.deep_view()) == Ok::<
                    Seq<char>,
                    ChannelErrorView,
                >(body@),
                Err(error) => edited(self.id@, bodies.deep_view()) == Err::<
                    Seq<char>,
                    ChannelErrorView,
                >(error.deep_view()),
            },
    {
        if bodies.len() == 0 {
            return Err(
                ChannelError::delivery(
                    self.id.as_str(),
                    "the replacement text renders to nothing, so there is no message to leave \
                     behind. Use delete_message to remove it instead.",
                ),
            );
        }
        if bodies.len() > 1 {
            let message = "the replacement text is too long for one message (".to_owned().concat(
                text::number(bodies.len() as u64).as_str(),
            ).concat(" parts); an edit cannot span several");
            return Err(ChannelError::delivery(self.id.as_str(), message.as_str()));
        }
        let mut rest = bodies;
        assert(bodies.deep_view()[0] == bodies@[0]@);
        Ok(rest.remove(0))
    }

    /// What a message is changed to, or why it cannot be.
    pub fn edit_text(&self, markdown: &str, link_preview: bool) -> (edit: Result<
        Edit,
        ChannelError,
    >)
        ensures
            match edit {
                Ok(edit) => {
                    &&& edited(self.id@, rendered(self.parse_mode, markdown@, MESSAGE_LIMIT)) == Ok::<
                        Seq<char>,
                        ChannelErrorView,
                    >(edit.body@)
                    &&& edit.parse_mode == mode_of(self.parse_mode)
                    &&& edit.link_preview.is_disabled == !link_preview
                },
                Err(error) => edited(self.id@, rendered(self.parse_mode, markdown@, MESSAGE_LIMIT))
                    == Err::<Seq<char>, ChannelErrorView>(error.deep_view()),
            },
    {
        let (bodies, parse_mode) = self.render(markdown, MESSAGE_LIMIT);
        match self.edit_body(bodies) {
            Ok(body) => Ok(
                Edit { body, parse_mode, link_preview: self::link_preview(link_preview) },
            ),
            Err(error) => Err(error),
        }
    }

    /// Whether a chat can be changed as asked for.
    ///
    /// Telegram has no slowmode a bot can set. Accepting the argument and doing nothing would have
    /// the agent report a change that never happened.
    pub fn set_chat(&self, settings: &ChatSettings) -> (accepted: Result<(), ChannelError>)
        ensures
            match accepted {
                Ok(_) => settings.slowmode is None,
                Err(error) => settings.slowmode is Some && error.deep_view() == (
                ChannelErrorView::Unsupported {
                    channel: self.id@,
                    feature: "slowmode, which Telegram does not expose to bots"@,
                }),
            },
    {
        if settings.slowmode.is_some() {
            return Err(
                ChannelError::unsupported(
                    self.id.as_str(),
                    "slowmode, which Telegram does not expose to bots",
                ),
            );
        }
        Ok(())
    }

    /// A description that could not be changed, given whether the title just was.
    ///
    /// Telegram has no way to change both at once, so a failure on the second leaves the first
    /// standing. Saying which landed stops the agent retrying the whole thing or telling somebody
    /// nothing changed.
    pub fn description_failed(&self, title_changed: bool, error: &str) -> (failure: ChannelError)
        ensures
            failure.deep_view() == (ChannelErrorView::Delivery {
                channel: self.id@,
                message: if title_changed {
                    "the title was changed, but the description was not ("@ + error@ + ")"@
                } else {
                    error@
                },
            }),
    {
        if title_changed {
            let message =
                "the title was changed, but the description was not (".to_owned().concat(
                error,
            ).concat(")");
            ChannelError::delivery(self.id.as_str(), message.as_str())
        } else {
            ChannelError::delivery(self.id.as_str(), error)
        }
    }
}

} // verus!
