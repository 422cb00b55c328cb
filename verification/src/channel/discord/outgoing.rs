//! What is sent to Discord, and what is refused before it is.

use vstd::prelude::*;
use vstd::string::*;

use crate::channel::discord::message::{Message, MessageFile};
use crate::channel::discord::render::{to_markdown, Discord, MESSAGE_LIMIT};
use crate::channel::discord::{
    AllowedMentions, DiscordChannel, MentionType, MessageFlags,
};
use crate::channel::{
    Activity, ChannelError, ChannelErrorView, ChannelIdentity, ChatSettings, FileOptions,
    SendOptions,
};
use crate::paths;
use crate::render::{blocks, split};
use crate::text;

pub mod laws;

verus! {

/// Discord's cap on attachments on one message.
pub const MAX_ATTACHMENTS: usize = 10;

/// Longest slowmode a channel may have, in seconds.
pub const MAX_SLOWMODE_SECONDS: u16 = 21_600;

/// One message to be sent.
#[derive(Debug)]
pub struct Post {
    pub content: Option<String>,
    pub mentions: AllowedMentions,
    /// The flags to set, or nothing where none is to be.
    pub flags: Option<MessageFlags>,
    /// The message it answers.
    pub reply_to: Option<u64>,
}

/// One message to be changed.
#[derive(Debug)]
pub struct Edit {
    pub content: String,
    pub mentions: AllowedMentions,
    pub flags: MessageFlags,
}

/// What is to be changed about a channel.
#[derive(Debug)]
pub struct ChannelUpdate {
    pub name: Option<String>,
    pub topic: Option<String>,
    pub rate_limit_per_user: Option<u16>,
}

/// What somebody reacted with.
#[derive(Debug)]
pub enum Emoji {
    Unicode { name: String },
    Custom { id: u64, name: Option<String> },
}

/// A reaction to a message, and whether the bot is among those who left it.
#[derive(Debug)]
pub struct Reaction {
    pub me: bool,
    pub emoji: Emoji,
}

/// Which file a reference names: the channel, the message, and the attachment of it.
#[derive(Debug)]
pub struct FileReference {
    pub channel: u64,
    pub message: u64,
    pub attachment: String,
}

/// Who a message may ping.
pub open spec fn pinged(channel: DiscordChannel) -> Seq<MentionType> {
    seq![MentionType::Users] + (if channel.mention_roles {
        seq![MentionType::Roles]
    } else {
        Seq::empty()
    }) + (if channel.mention_everyone {
        seq![MentionType::Everyone]
    } else {
        Seq::empty()
    })
}

/// Whether these are the mentions that a channel's messages carry.
pub open spec fn mentions_of(channel: DiscordChannel, mentions: AllowedMentions) -> bool {
    mentions.parse@ == pinged(channel) && !mentions.replied_user
}

/// The flags to set on a new message: none at all where there is nothing to suppress.
pub open spec fn sending_flags(link_preview: bool, silent: bool) -> Option<MessageFlags> {
    if link_preview && !silent {
        None
    } else {
        Some(MessageFlags { suppress_embeds: !link_preview, suppress_notifications: silent })
    }
}

/// The id of the message being answered, or why it is none.
pub open spec fn answered(reply_to: Option<Seq<char>>) -> Result<Option<u64>, ChannelErrorView> {
    match reply_to {
        None => Ok(None),
        Some(raw) => match text::positive(text::trimmed(raw)) {
            Some(id) => Ok(Some(id)),
            None => Err(super::not_a_message(raw)),
        },
    }
}

/// Whether these are the messages that carry `bodies`, in order: all alike but that only the first
/// quotes what is being replied to.
pub open spec fn posted(
    channel: DiscordChannel,
    bodies: Seq<Seq<char>>,
    reply_to: Option<u64>,
    flags: Option<MessageFlags>,
    posts: Seq<Post>,
) -> bool {
    &&& posts.len() == bodies.len()
    &&& forall|i: int|
        0 <= i < posts.len() ==> {
            let post = #[trigger] posts[i];
            &&& post.content.deep_view() == Some(bodies[i])
            &&& mentions_of(channel, post.mentions)
            &&& post.flags == flags
            &&& post.reply_to == (if i == 0 {
                reply_to
            } else {
                None
            })
        }
}

/// The refusal of more files than one message takes.
pub open spec fn too_many_files(id: Seq<char>, count: nat) -> ChannelErrorView {
    ChannelErrorView::Delivery {
        channel: id,
        message: "Discord takes at most 10 attachments on one message, and "@ + text::decimal(count)
            + " were given. Send them in several batches."@,
    }
}

/// Why a number of files cannot be sent, where they cannot.
pub open spec fn files_refused(id: Seq<char>, count: nat) -> Option<ChannelErrorView> {
    if count == 0 {
        Some(
            ChannelErrorView::Delivery { channel: id, message: "no files were given to send"@ },
        )
    } else if count > MAX_ATTACHMENTS {
        Some(too_many_files(id, count))
    } else {
        None
    }
}

/// The refusal of a caption that one message does not hold.
pub open spec fn long_caption(id: Seq<char>) -> ChannelErrorView {
    ChannelErrorView::Delivery {
        channel: id,
        message: "the caption is longer than the 2000 characters Discord allows on a message. \
                  Shorten it, or send the file with a short caption and the rest as a message."@,
    }
}

/// The messages that a markdown text is sent as.
pub open spec fn rendered(markdown: Seq<char>) -> Seq<Seq<char>> {
    split::messages_of::<Discord>(blocks::blocks_of(markdown), MESSAGE_LIMIT)
}

/// What a caption renders to. No caption renders to nothing.
pub open spec fn rendered_caption(caption: Option<&str>) -> Seq<Seq<char>> {
    match caption {
        Some(caption) => rendered(caption@),
        None => Seq::empty(),
    }
}

/// What a caption that renders to `bodies` comes to: one body, or none.
pub open spec fn captioned(id: Seq<char>, bodies: Seq<Seq<char>>) -> Result<
    Option<Seq<char>>,
    ChannelErrorView,
> {
    if bodies.len() > 1 {
        Err(long_caption(id))
    } else if bodies.len() == 1 {
        Ok(Some(bodies[0]))
    } else {
        Ok(None)
    }
}

/// What an edit to a text that renders to `bodies` comes to: it has to be one message.
pub open spec fn edited(id: Seq<char>, bodies: Seq<Seq<char>>) -> Result<
    Seq<char>,
    ChannelErrorView,
> {
    if bodies.len() == 1 {
        Ok(bodies[0])
    } else if bodies.len() == 0 {
        Err(
            ChannelErrorView::Delivery {
                channel: id,
                message: "that text renders to nothing, so there would be no message left"@,
            },
        )
    } else {
        Err(
            ChannelErrorView::Delivery {
                channel: id,
                message: "that text is too long to be one Discord message ("@ + text::decimal(
                    bodies.len(),
                ) + " parts at 2000 characters each), and an edit cannot be split"@,
            },
        )
    }
}

/// The three parts of a file reference: whatever follows a third slash is not looked at.
pub open spec fn reference_parts(raw: Seq<char>) -> Option<(Seq<char>, Seq<char>, Seq<char>)> {
    match text::parts_at(raw, '/') {
        None => None,
        Some((channel, rest)) => match text::parts_at(rest, '/') {
            None => None,
            Some((message, rest)) => Some((channel, message, text::until(rest, '/'))),
        },
    }
}

/// Which file a reference names, or why it names none.
pub open spec fn referenced(raw: Seq<char>) -> Result<(u64, u64, Seq<char>), ChannelErrorView> {
    match reference_parts(raw) {
        None => Err(
            ChannelErrorView::InvalidConversation {
                id: raw,
                reason: "a Discord file reference is `<channel>/<message>/<attachment>`"@,
            },
        ),
        Some((channel, message, attachment)) => match text::positive(channel) {
            None => Err(
                ChannelErrorView::InvalidConversation {
                    id: raw,
                    reason: "the channel part is not a Discord id"@,
                },
            ),
            Some(channel) => match text::positive(text::trimmed(message)) {
                None => Err(super::not_a_message(message)),
                Some(message) => Ok((channel, message, attachment)),
            },
        },
    }
}

/// Whether `at` is the first file that goes by an id, or nothing where there is none.
pub open spec fn file_at(files: Seq<MessageFile>, attachment: Seq<char>, at: Option<int>) -> bool {
    match at {
        Some(at) => {
            &&& 0 <= at < files.len()
            &&& text::decimal(files[at].id as nat) == attachment
            &&& forall|i: int|
                0 <= i < at ==> text::decimal((#[trigger] files[i]).id as nat) != attachment
        },
        None => forall|i: int|
            0 <= i < files.len() ==> text::decimal((#[trigger] files[i]).id as nat) != attachment,
    }
}

/// The refusal of a file that is no longer there.
pub open spec fn file_gone(id: Seq<char>) -> ChannelErrorView {
    ChannelErrorView::Delivery {
        channel: id,
        message: "that file is no longer attached to its message"@,
    }
}

/// The refusal of a file that is too large.
pub open spec fn file_too_large(id: Seq<char>, size: u64, max_bytes: u64) -> ChannelErrorView {
    ChannelErrorView::Delivery {
        channel: id,
        message: "this file is "@ + text::decimal(size as nat) + " bytes, over the "@
            + text::decimal(max_bytes as nat) + " byte limit"@,
    }
}

/// The refusal of a slowmode that is too long.
pub open spec fn slow_refusal(id: Seq<char>) -> ChannelErrorView {
    ChannelErrorView::Delivery {
        channel: id,
        message: "Discord's slowmode tops out at 6 hours"@,
    }
}

fn send_flags(link_preview: bool, silent: bool) -> (flags: Option<MessageFlags>)
    ensures
        flags == sending_flags(link_preview, silent),
{
    match DiscordChannel::outbound_flags(link_preview) {
        Some(flags) => Some(MessageFlags { suppress_notifications: silent, ..flags }),
        None => if silent {
            Some(MessageFlags { suppress_embeds: false, suppress_notifications: true })
        } else {
            None
        },
    }
}

/// Which indicator is shown while files upload. Discord renders an image inline from the attachment
/// itself, so there is no separate photo send to choose.
pub fn upload_activity(as_photo: bool) -> (activity: Activity)
    ensures
        activity == (if as_photo {
            Activity::SendingPhoto
        } else {
            Activity::SendingFile
        }),
{
    if as_photo {
        Activity::SendingPhoto
    } else {
        Activity::SendingFile
    }
}

/// The name a file is uploaded under.
pub open spec fn upload_name(path: Seq<char>) -> Seq<char> {
    text::either(paths::path_file_name(path), "file"@)
}

/// The name a file is uploaded under.
pub fn attachment_name(path: &str) -> (name: String)
    ensures
        name@ == upload_name(path@),
{
    text::or(&paths::file_name(path), "file")
}

/// The extension of a file that was fetched, from the name its sender gave it.
pub fn fetched_extension(filename: &str) -> (extension: Option<String>)
    ensures
        extension.deep_view() == paths::path_extension(filename@),
{
    paths::extension(filename)
}

/// The reactions that the bot left.
///
/// Discord has no "clear whatever I put here", so the bot's own reactions are read back and removed
/// one at a time.
pub open spec fn reactions_left(reactions: Seq<Reaction>) -> Seq<Emoji>
    decreases reactions.len(),
{
    if reactions.len() == 0 {
        Seq::empty()
    } else if reactions[0].me {
        seq![reactions[0].emoji] + reactions_left(reactions.skip(1))
    } else {
        reactions_left(reactions.skip(1))
    }
}

/// The reactions that the bot left.
pub fn own_reactions(reactions: Vec<Reaction>) -> (own: Vec<Emoji>)
    ensures
        own@ == reactions_left(reactions@),
{
    let mut rest = reactions;
    let mut own: Vec<Emoji> = Vec::new();
    while rest.len() > 0
        invariant
            own@ + reactions_left(rest@) == reactions_left(reactions@),
        decreases rest.len(),
    {
        let ghost before = rest@;
        let ghost taken = own@;
        let reaction = rest.remove(0);
        assert(rest@ =~= before.skip(1));
        if reaction.me {
            own.push(reaction.emoji);
            assert(own@ + reactions_left(rest@) =~= taken + reactions_left(before));
        }
    }
    assert(own@ + Seq::<Emoji>::empty() =~= own@);
    own
}

impl DiscordChannel {
    /// Flags for an edit, which unlike a send must state the choice in both directions.
    ///
    /// Leaving flags off an edit keeps whatever the original send chose, so an edit asking for a preview
    /// on a message sent without one would silently do nothing. Suppressing embeds is the only flag an
    /// edit accepts, so writing the whole set cannot clobber anything else.
    pub fn edit_flags(link_preview: bool) -> (flags: MessageFlags)
        ensures
            flags.suppress_embeds == !link_preview,
            !flags.suppress_notifications,
    {
        MessageFlags { suppress_embeds: !link_preview, suppress_notifications: false }
    }

    /// Flags for a new message: none need setting where a preview is wanted.
    pub fn outbound_flags(link_preview: bool) -> (flags: Option<MessageFlags>)
        ensures
            flags == sending_flags(link_preview, false),
    {
        if link_preview {
            None
        } else {
            Some(MessageFlags { suppress_embeds: true, suppress_notifications: false })
        }
    }

    /// Who a message may ping.
    pub fn allowed_mentions(&self) -> (mentions: AllowedMentions)
        ensures
            mentions_of(*self, mentions),
    {
        let mut parse: Vec<MentionType> = vec![MentionType::Users];
        if self.mention_roles {
            parse.push(MentionType::Roles);
        }
        if self.mention_everyone {
            parse.push(MentionType::Everyone);
        }
        assert(parse@ =~= pinged(*self));
        // A reply pings the person being replied to unless this is off. Answering somebody is not a
        // reason to notify them twice.
        AllowedMentions { parse, replied_user: false }
    }

    fn parse_reply(&self, reply_to: &Option<String>) -> (reply: Result<Option<u64>, ChannelError>)
        ensures
            match reply {
                Ok(reply) => answered(reply_to.deep_view()) == Ok::<
                    Option<u64>,
                    ChannelErrorView,
                >(reply),
                Err(error) => answered(reply_to.deep_view()) == Err::<
                    Option<u64>,
                    ChannelErrorView,
                >(error.deep_view()),
            },
    {
        match reply_to {
            None => Ok(None),
            Some(raw) => match self.parse_message(raw.as_str()) {
                Ok(message) => Ok(Some(message)),
                Err(error) => Err(error),
            },
        }
    }

    /// The messages that carry `bodies`, or why what they answer is no message.
    ///
    /// Nothing to send is nothing to answer, so what is being replied to is not even read then.
    pub fn post_parts(&self, bodies: Vec<String>, options: &SendOptions) -> (posts: Result<
        Vec<Post>,
        ChannelError,
    >)
        ensures
            bodies@.len() == 0 ==> (posts matches Ok(posts) && posts@.len() == 0),
            bodies@.len() > 0 ==> match posts {
                Ok(posts) => {
                    &&& answered(options.reply_to.deep_view()) is Ok
                    &&& posted(
                        *self,
                        bodies.deep_view(),
                        answered(options.reply_to.deep_view())->Ok_0,
                        sending_flags(options.link_preview, options.silent),
                        posts@,
                    )
                },
                Err(error) => answered(options.reply_to.deep_view()) == Err::<
                    Option<u64>,
                    ChannelErrorView,
                >(error.deep_view()),
            },
    {
        if bodies.len() == 0 {
            return Ok(Vec::new());
        }
        let reply_to: Option<u64> = match self.parse_reply(&options.reply_to) {
            Ok(reply_to) => reply_to,
            Err(error) => return Err(error),
        };
        let flags = send_flags(options.link_preview, options.silent);
        let mut posts: Vec<Post> = Vec::new();
        let mut i: usize = 0;
        while i < bodies.len()
            invariant
                i <= bodies.len(),
                posted(
                    *self,
                    bodies.deep_view().take(i as int),
                    reply_to,
                    flags,
                    posts@,
                ),
            decreases bodies.len() - i,
        {
            let ghost taken = posts@;
            // Only the first part quotes what is being replied to; repeating the quote on every part
            // of a long answer is noise.
            let quoted: Option<u64> = if i == 0 {
                reply_to
            } else {
                None
            };
            posts.push(
                Post {
                    content: Some(bodies[i].as_str().to_owned()),
                    mentions: self.allowed_mentions(),
                    flags,
                    reply_to: quoted,
                },
            );
            assert forall|j: int| 0 <= j < posts@.len() implies {
                let post = #[trigger] posts@[j];
                &&& post.content.deep_view() == Some(bodies.deep_view().take(i + 1)[j])
                &&& mentions_of(*self, post.mentions)
                &&& post.flags == flags
                &&& post.reply_to == (if j == 0 {
                    reply_to
                } else {
                    None
                })
            } by {
                if j < i {
                    assert(posts@[j] == taken[j]);
                    assert(bodies.deep_view().take(i as int)[j] == bodies.deep_view()[j]);
                }
            }
            i += 1;
        }
        assert(bodies.deep_view().take(i as int) =~= bodies.deep_view());
        Ok(posts)
    }

    /// The messages that a markdown text is sent as.
    pub fn send_text(&self, markdown: &str, options: &SendOptions) -> (posts: Result<
        Vec<Post>,
        ChannelError,
    >)
        ensures
            match posts {
                Ok(posts) => if rendered(markdown@).len() == 0 {
                    posts@.len() == 0
                } else {
                    &&& answered(options.reply_to.deep_view()) is Ok
                    &&& posted(
                        *self,
                        rendered(markdown@),
                        answered(options.reply_to.deep_view())->Ok_0,
                        sending_flags(options.link_preview, options.silent),
                        posts@,
                    )
                },
                Err(error) => rendered(markdown@).len() > 0 && answered(
                    options.reply_to.deep_view(),
                ) == Err::<Option<u64>, ChannelErrorView>(error.deep_view()),
            },
    {
        let bodies = to_markdown(markdown, MESSAGE_LIMIT);
        self.post_parts(bodies, options)
    }

    /// The failure of one part of several.
    ///
    /// A partial send is worth surfacing precisely: the agent needs to know some of its message did
    /// land, so it does not resend the whole thing.
    pub fn part_failed(&self, index: usize, count: usize, error: &str) -> (failure: ChannelError)
        requires
            index < count,
        ensures
            failure.deep_view() == (ChannelErrorView::Delivery {
                channel: self.id@,
                message: "part "@ + text::decimal((index + 1) as nat) + " of "@ + text::decimal(
                    count as nat,
                ) + " failed: "@ + error@,
            }),
    {
        let message = "part ".to_owned().concat(text::number((index + 1) as u64).as_str()).concat(
            " of ",
        ).concat(text::number(count as u64).as_str()).concat(" failed: ").concat(error);
        ChannelError::delivery(self.id.as_str(), message.as_str())
    }

    /// Whether so many files can go on one message.
    ///
    /// None is refused rather than sent as a caption-only message, and too many are refused before
    /// every file has been read into memory and uploaded for Discord to answer a generic rejection.
    pub fn check_files(&self, count: usize) -> (checked: Result<(), ChannelError>)
        ensures
            match checked {
                Ok(_) => files_refused(self.id@, count as nat) is None,
                Err(error) => files_refused(self.id@, count as nat) == Some(error.deep_view()),
            },
    {
        if count == 0 {
            return Err(ChannelError::delivery(self.id.as_str(), "no files were given to send"));
        }
        if count > MAX_ATTACHMENTS {
            let message = "Discord takes at most 10 attachments on one message, and ".to_owned().concat(
                text::number(count as u64).as_str(),
            ).concat(" were given. Send them in several batches.");
            return Err(ChannelError::delivery(self.id.as_str(), message.as_str()));
        }
        Ok(())
    }

    /// A file that could not be read.
    pub fn file_unreadable(&self, path: &str, error: &str) -> (failure: ChannelError)
        ensures
            failure.deep_view() == (ChannelErrorView::Delivery {
                channel: self.id@,
                message: "could not read "@ + path@ + ": "@ + error@,
            }),
    {
        let message = "could not read ".to_owned().concat(path).concat(": ").concat(error);
        ChannelError::delivery(self.id.as_str(), message.as_str())
    }

    /// What a caption that renders to `bodies` comes to.
    ///
    /// Refused rather than truncated: the caption belongs to the file and cannot be continued, so
    /// dropping everything past the first part loses it silently while still reporting success.
    pub fn caption_body(&self, bodies: Vec<String>) -> (body: Result<Option<String>, ChannelError>)
        ensures
            match body {
                Ok(body) => captioned(self.id@, bodies.deep_view()) == Ok::<
                    Option<Seq<char>>,
                    ChannelErrorView,
                >(body.deep_view()),
                Err(error) => captioned(self.id@, bodies.deep_view()) == Err::<
                    Option<Seq<char>>,
                    ChannelErrorView,
                >(error.deep_view()),
            },
    {
        if bodies.len() > 1 {
            return Err(
                ChannelError::delivery(
                    self.id.as_str(),
                    "the caption is longer than the 2000 characters Discord allows on a message. \
                     Shorten it, or send the file with a short caption and the rest as a message.",
                ),
            );
        }
        let mut rest = bodies;
        if rest.len() == 1 {
            assert(bodies.deep_view()[0] == bodies@[0]@);
            Ok(Some(rest.remove(0)))
        } else {
            Ok(None)
        }
    }

    /// The message that carries files, with its caption, or why it cannot be sent.
    ///
    /// A caption is a message body, so a link in one answers to the same switch a link in a message
    /// does.
    pub fn send_files(
        &self,
        paths: &Vec<String>,
        caption: Option<&str>,
        options: &FileOptions,
    ) -> (post: Result<Post, ChannelError>)
        ensures
            match files_refused(self.id@, paths@.len()) {
                Some(refusal) => post matches Err(error) && error.deep_view() == refusal,
                None => match answered(options.send.reply_to.deep_view()) {
                    Err(refusal) => post matches Err(error) && error.deep_view() == refusal,
                    Ok(reply_to) => match post {
                        Ok(post) => {
                            &&& captioned(self.id@, rendered_caption(caption)) == Ok::<
                                Option<Seq<char>>,
                                ChannelErrorView,
                            >(post.content.deep_view())
                            &&& mentions_of(*self, post.mentions)
                            &&& post.flags == sending_flags(
                                options.send.link_preview,
                                options.send.silent,
                            )
                            &&& post.reply_to == reply_to
                        },
                        Err(error) => captioned(self.id@, rendered_caption(caption)) == Err::<
                            Option<Seq<char>>,
                            ChannelErrorView,
                        >(error.deep_view()),
                    },
                },
            },
    {
        match self.check_files(paths.len()) {
            Ok(_) => {},
            Err(error) => return Err(error),
        }
        let mentions = self.allowed_mentions();
        let reply_to: Option<u64> = match self.parse_reply(&options.send.reply_to) {
            Ok(reply_to) => reply_to,
            Err(error) => return Err(error),
        };
        let flags = send_flags(options.send.link_preview, options.send.silent);
        let bodies: Vec<String> = match caption {
            None => Vec::new(),
            Some(caption) => to_markdown(caption, MESSAGE_LIMIT),
        };
        assert(bodies.deep_view() =~= rendered_caption(caption));
        let body = match self.caption_body(bodies) {
            Ok(body) => body,
            Err(error) => return Err(error),
        };
        Ok(Post { content: body, mentions, flags, reply_to })
    }

    /// Which file a reference names.
    pub fn file_reference(&self, file_ref: &str) -> (named: Result<FileReference, ChannelError>)
        ensures
            match named {
                Ok(named) => referenced(file_ref@) == Ok::<
                    (u64, u64, Seq<char>),
                    ChannelErrorView,
                >((named.channel, named.message, named.attachment@)),
                Err(error) => referenced(file_ref@) == Err::<
                    (u64, u64, Seq<char>),
                    ChannelErrorView,
                >(error.deep_view()),
            },
    {
        let (channel, rest) = match text::split_once(file_ref, '/') {
            Some(parts) => parts,
            None => {
                return Err(
                    ChannelError::invalid(
                        file_ref,
                        "a Discord file reference is `<channel>/<message>/<attachment>`",
                    ),
                );
            },
        };
        let (message, rest) = match text::split_once(rest.as_str(), '/') {
            Some(parts) => parts,
            None => {
                return Err(
                    ChannelError::invalid(
                        file_ref,
                        "a Discord file reference is `<channel>/<message>/<attachment>`",
                    ),
                );
            },
        };
        let channel: u64 = match text::parse_positive(channel.as_str()) {
            Some(channel) => channel,
            None => {
                return Err(
                    ChannelError::invalid(file_ref, "the channel part is not a Discord id"),
                );
            },
        };
        let message: u64 = match self.parse_message(message.as_str()) {
            Ok(message) => message,
            Err(error) => return Err(error),
        };
        Ok(FileReference { channel, message, attachment: text::before(rest.as_str(), '/') })
    }

    /// The message holding a file could not be read again, which is needed because the link that
    /// came with it is signed and has since expired.
    pub fn file_lost(&self, error: &str) -> (failure: ChannelError)
        ensures
            failure.deep_view() == (ChannelErrorView::Delivery {
                channel: self.id@,
                message: "could not re-read the message holding this file, which is what Discord \
                          requires to refresh its expiring link: "@ + error@,
            }),
    {
        let message =
            "could not re-read the message holding this file, which is what Discord requires to \
             refresh its expiring link: ".to_owned().concat(error);
        ChannelError::delivery(self.id.as_str(), message.as_str())
    }

    /// Which of a message's files is wanted, where it is still there and not too large.
    pub fn pick_file(&self, files: &Vec<MessageFile>, attachment: &str, max_bytes: u64) -> (at:
        Result<usize, ChannelError>)
        ensures
            match at {
                Ok(at) => file_at(files@, attachment@, Some(at as int)) && files@[at as int].size
                    <= max_bytes,
                Err(error) => (file_at(files@, attachment@, None) && error.deep_view() == file_gone(
                    self.id@,
                )) || exists|at: int| #[trigger]
                    file_at(files@, attachment@, Some(at)) && files@[at].size > max_bytes
                        && error.deep_view() == file_too_large(
                        self.id@,
                        files@[at].size,
                        max_bytes,
                    ),
            },
    {
        let mut i: usize = 0;
        while i < files.len()
            invariant
                i <= files.len(),
                forall|j: int|
                    0 <= j < i ==> text::decimal((#[trigger] files@[j]).id as nat) != attachment@,
            decreases files.len() - i,
        {
            let id = text::number(files[i].id);
            if text::same(id.as_str(), attachment) {
                assert(file_at(files@, attachment@, Some(i as int)));
                if files[i].size > max_bytes {
                    let message = "this file is ".to_owned().concat(
                        text::number(files[i].size).as_str(),
                    ).concat(" bytes, over the ").concat(text::number(max_bytes).as_str()).concat(
                        " byte limit",
                    );
                    return Err(ChannelError::delivery(self.id.as_str(), message.as_str()));
                }
                return Ok(i);
            }
            i += 1;
        }
        Err(
            ChannelError::delivery(
                self.id.as_str(),
                "that file is no longer attached to its message",
            ),
        )
    }

    /// What an edit to a text that renders to `bodies` comes to.
    pub fn edit_body(&self, bodies: Vec<String>) -> (body: Result<String, ChannelError>)
        ensures
            match body {
                Ok(body) => edited(self.id@, bodies.deep_view()) == Ok::<
                    Seq<char>,
                    ChannelErrorView,
                >(body@),
                Err(error) => edited(self.id@, bodies.deep_view()) == Err::<
                    Seq<char>,
                    ChannelErrorView,
                >(error.deep_view()),
            },
    {
        if bodies.len() == 0 {
            return Err(
                ChannelError::delivery(
                    self.id.as_str(),
                    "that text renders to nothing, so there would be no message left",
                ),
            );
        }
        if bodies.len() > 1 {
            let message = "that text is too long to be one Discord message (".to_owned().concat(
                text::number(bodies.len() as u64).as_str(),
            ).concat(" parts at 2000 characters each), and an edit cannot be split");
            return Err(ChannelError::delivery(self.id.as_str(), message.as_str()));
        }
        let mut rest = bodies;
        assert(bodies.deep_view()[0] == bodies@[0]@);
        Ok(rest.remove(0))
    }

    /// What a message is changed to, or why it cannot be.
    pub fn edit_text(&self, markdown: &str, link_preview: bool) -> (edit: Result<
        Edit,
        ChannelError,
    >)
        ensures
            match edit {
                Ok(edit) => {
                    &&& edited(self.id@, rendered(markdown@)) == Ok::<Seq<char>, ChannelErrorView>(
                        edit.content@,
                    )
                    &&& mentions_of(*self, edit.mentions)
                    &&& edit.flags == (MessageFlags {
                        suppress_embeds: !link_preview,
                        suppress_notifications: false,
                    })
                },
                Err(error) => edited(self.id@, rendered(markdown@)) == Err::<
                    Seq<char>,
                    ChannelErrorView,
                >(error.deep_view()),
            },
    {
        let bodies = to_markdown(markdown, MESSAGE_LIMIT);
        match self.edit_body(bodies) {
            Ok(content) => Ok(
                Edit { content, mentions: self.allowed_mentions(), flags: Self::edit_flags(link_preview) },
            ),
            Err(error) => Err(error),
        }
    }

    /// Whether a message can be pinned as asked for.
    ///
    /// Discord always announces a pin in the channel and offers no way not to. Saying so beats
    /// accepting the argument and quietly ignoring it.
    pub fn pin_message(&self, silent: bool) -> (accepted: Result<(), ChannelError>)
        ensures
            match accepted {
                Ok(_) => !silent,
                Err(error) => silent && error.deep_view() == (ChannelErrorView::Unsupported {
                    channel: self.id@,
                    feature: "pinning without announcing it"@,
                }),
            },
    {
        if silent {
            Err(ChannelError::unsupported(self.id.as_str(), "pinning without announcing it"))
        } else {
            Ok(())
        }
    }

    /// What is changed about a channel, or why it cannot be.
    pub fn set_chat(&self, settings: &ChatSettings) -> (update: Result<ChannelUpdate, ChannelError>)
        ensures
            match update {
                Ok(update) => {
                    &&& update.name.deep_view() == settings.title.deep_view()
                    &&& update.topic.deep_view() == settings.description.deep_view()
                    &&& match settings.slowmode {
                        Some(slowmode) => update.rate_limit_per_user == Some(
                            slowmode.whole() as u16,
                        ) && slowmode.whole() <= MAX_SLOWMODE_SECONDS,
                        None => update.rate_limit_per_user is None,
                    }
                },
                Err(error) => {
                    &&& settings.slowmode is Some
                    &&& settings.slowmode->0.whole() > MAX_SLOWMODE_SECONDS
                    &&& error.deep_view() == slow_refusal(self.id@)
                },
            },
    {
        let rate_limit_per_user: Option<u16> = match &settings.slowmode {
            None => None,
            Some(slowmode) => {
                if slowmode.as_secs() > MAX_SLOWMODE_SECONDS as u64 {
                    return Err(
                        ChannelError::delivery(
                            self.id.as_str(),
                            "Discord's slowmode tops out at 6 hours",
                        ),
                    );
                }
                Some(slowmode.as_secs() as u16)
            },
        };
        Ok(
            ChannelUpdate {
                name: text::copied(&settings.title),
                topic: text::copied(&settings.description),
                rate_limit_per_user,
            },
        )
    }

    /// The account that a token belongs to. Whether Discord actually granted the message content
    /// intent is only knowable from the gateway, so this reports what was asked for.
    pub fn identity_of(&self, id: u64, name: &str, global_name: &Option<String>) -> (identity:
        ChannelIdentity)
        ensures
            identity.id@ == text::decimal(id as nat),
            identity.display_name@ == text::either(global_name.deep_view(), name@),
            identity.username.deep_view() == Some(name@),
            identity.reads_all_group_messages == self.message_content,
    {
        ChannelIdentity {
            id: text::number(id),
            display_name: text::or(global_name, name),
            username: Some(name.to_owned()),
            reads_all_group_messages: self.message_content,
        }
    }

    /// A token that Discord refused.
    pub fn token_rejected(&self, error: &str) -> (refusal: ChannelError)
        ensures
            refusal.deep_view() == (ChannelErrorView::Auth {
                channel: self.id@,
                message: "Discord rejected the bot token: "@ + error@,
            }),
    {
        let message = "Discord rejected the bot token: ".to_owned().concat(error);
        ChannelError::auth(self.id.as_str(), message.as_str())
    }
}

proof fn a_part_ends_at_its_slash(number: nat, rest: Seq<char>)
    ensures
        text::parts_at(text::decimal(number) + "/"@ + rest, '/') == Some(
            (text::decimal(number), rest),
        ),
{
    reveal_strlit("/");
    let digits = text::decimal(number);
    let whole = digits + "/"@ + rest;
    text::a_number_survives_its_text_form(number, number);
    text::until_is_a_prefix(whole, '/');
    let first = text::until(whole, '/');
    if first.len() < digits.len() {
        assert(text::is_digit(digits[first.len() as int]));
        assert(whole[first.len() as int] == digits[first.len() as int]);
    } else if first.len() > digits.len() {
        assert(whole[digits.len() as int] == '/');
    }
    assert(first =~= digits);
    assert(whole.skip((digits.len() + 1) as int) =~= rest);
}

proof fn digits_are_left_by_trimming(number: nat)
    ensures
        text::trimmed(text::decimal(number)) == text::decimal(number),
{
    let digits = text::decimal(number);
    text::a_number_survives_its_text_form(number, number);
    assert(text::is_digit(digits[0]));
    assert(text::is_digit(digits[digits.len() - 1]));
}

/// A file can be found again: the handle that a message hands out for a file reads back as that
/// channel, that message and that file.
pub proof fn a_file_handle_names_its_file(message: Message, file: MessageFile)
    requires
        message.channel_id != 0,
        message.id != 0,
    ensures
        referenced(super::file_handle(message, file).file_ref) == Ok::<
            (u64, u64, Seq<char>),
            ChannelErrorView,
        >((message.channel_id, message.id, text::decimal(file.id as nat))),
{
    let channel = message.channel_id as nat;
    let id = message.id as nat;
    let last = text::decimal(file.id as nat);
    let raw = super::file_handle(message, file).file_ref;
    reveal_strlit("/");
    assert(raw =~= text::decimal(channel) + "/"@ + (text::decimal(id) + "/"@ + last));
    a_part_ends_at_its_slash(channel, text::decimal(id) + "/"@ + last);
    a_part_ends_at_its_slash(id, last);
    text::a_number_survives_its_text_form(channel, u64::MAX as nat);
    text::a_number_survives_its_text_form(id, u64::MAX as nat);
    text::a_number_survives_its_text_form(file.id as nat, u64::MAX as nat);
    digits_are_left_by_trimming(id);
    text::until_is_a_prefix(last, '/');
    if text::until(last, '/').len() < last.len() {
        assert(text::is_digit(last[text::until(last, '/').len() as int]));
    }
    assert(text::until(last, '/') =~= last);
}

} // verus!
