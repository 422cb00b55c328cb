//! What is sent to Discord, stated of what was asked for.

use vstd::prelude::*;

use crate::channel::discord::message::MessageFile;
use crate::channel::discord::outgoing::{self, Emoji, Post, Reaction};
use crate::channel::discord::{DiscordChannel, MentionType, MessageFlags};
use crate::channel::ChannelErrorView;
use crate::text;

verus! {

/// People may always be pinged, roles and everyone exactly where the operator allows it, and whoever
/// is answered never.
pub proof fn only_what_is_allowed_is_pinged(
    channel: DiscordChannel,
    mentions: crate::channel::discord::AllowedMentions,
)
    ensures
        outgoing::pinged(channel).contains(MentionType::Users),
        outgoing::pinged(channel).contains(MentionType::Roles) <==> channel.mention_roles,
        outgoing::pinged(channel).contains(MentionType::Everyone) <==> channel.mention_everyone,
        outgoing::pinged(channel).no_duplicates(),
        outgoing::mentions_of(channel, mentions) ==> mentions.parse@ == outgoing::pinged(channel)
            && !mentions.replied_user,
{
    let pinged = outgoing::pinged(channel);
    assert(pinged[0] == MentionType::Users);
    if channel.mention_roles {
        assert(pinged[1] == MentionType::Roles);
        if channel.mention_everyone {
            assert(pinged[2] == MentionType::Everyone);
        }
    } else if channel.mention_everyone {
        assert(pinged[1] == MentionType::Everyone);
    }
}

/// A message has flags exactly where it is to show no preview or to make no sound, and each flag says
/// which.
pub proof fn each_flag_says_what_is_off(link_preview: bool, silent: bool)
    ensures
        outgoing::sending_flags(link_preview, silent) is None <==> link_preview && !silent,
        outgoing::sending_flags(link_preview, silent) matches Some(flags) ==> flags.suppress_embeds
            == !link_preview && flags.suppress_notifications == silent,
{
}

/// A message answers the one that was named, none where none was, and a name that is no id is refused
/// by that name.
pub proof fn an_answer_names_its_message(n: u64, raw: Seq<char>)
    ensures
        outgoing::answered(None) == Ok::<Option<u64>, ChannelErrorView>(None),
        n != 0 ==> outgoing::answered(Some(text::decimal(n as nat))) == Ok::<
            Option<u64>,
            ChannelErrorView,
        >(Some(n)),
        text::unsigned_in(text::trimmed(raw), u64::MAX as nat) is None ==> (outgoing::answered(
            Some(raw),
        ) matches Err(ChannelErrorView::InvalidConversation { id, .. }) && id == raw),
        outgoing::answered(Some(raw)) matches Ok(answer) ==> (answer matches Some(id) && id != 0
            && text::unsigned_in(text::trimmed(raw), u64::MAX as nat) == Some(id as nat)),
{
    text::a_number_survives_its_text_form(n as nat, u64::MAX as nat);
    text::a_number_is_trimmed_already(n as int);
}

/// Each part is a message of its own, in order and with the same flags. Only the first answers.
pub proof fn only_the_first_part_answers(
    channel: DiscordChannel,
    bodies: Seq<Seq<char>>,
    reply_to: Option<u64>,
    flags: Option<MessageFlags>,
    posts: Seq<Post>,
    i: int,
)
    requires
        outgoing::posted(channel, bodies, reply_to, flags, posts),
        0 <= i < bodies.len(),
    ensures
        posts.len() == bodies.len(),
        posts[i].content matches Some(content) && content@ == bodies[i],
        posts[i].flags == flags,
        posts[0].reply_to == reply_to,
        i > 0 ==> posts[i].reply_to is None,
        posts[i].mentions.parse@.contains(MentionType::Everyone) <==> channel.mention_everyone,
        posts[i].mentions.parse@.contains(MentionType::Roles) <==> channel.mention_roles,
        !posts[i].mentions.replied_user,
{
    assert(posts[0].reply_to == reply_to);
    assert(posts[i].content.deep_view() == Some(bodies[i]));
    only_what_is_allowed_is_pinged(channel, posts[i].mentions);
}

/// Between one and ten files are sent at once, and any other number is refused.
pub proof fn ten_files_go_at_once(id: Seq<char>, count: nat)
    ensures
        outgoing::files_refused(id, count) is None <==> 1 <= count <= 10,
        count > 10 ==> outgoing::files_refused(id, count) == Some(
            ChannelErrorView::Delivery {
                channel: id,
                message: "Discord takes at most 10 attachments on one message, and "@
                    + text::decimal(count) + " were given. Send them in several batches."@,
            },
        ),
        count == 0 ==> outgoing::files_refused(id, count) == Some(
            ChannelErrorView::Delivery { channel: id, message: "no files were given to send"@ },
        ),
{
}

/// A caption is one message or none, and a longer one is refused.
pub proof fn a_caption_is_one_message(id: Seq<char>, bodies: Seq<Seq<char>>)
    ensures
        outgoing::captioned(id, bodies) is Ok <==> bodies.len() <= 1,
        bodies.len() == 0 ==> outgoing::captioned(id, bodies) == Ok::<
            Option<Seq<char>>,
            ChannelErrorView,
        >(None),
        bodies.len() == 1 ==> outgoing::captioned(id, bodies) == Ok::<
            Option<Seq<char>>,
            ChannelErrorView,
        >(Some(bodies[0])),
        bodies.len() > 1 ==> (outgoing::captioned(id, bodies) matches Err(
            ChannelErrorView::Delivery { channel, .. },
        ) && channel == id),
{
}

/// An edit is exactly one message. One that says nothing, or would take several, is refused.
pub proof fn an_edit_is_one_message(id: Seq<char>, bodies: Seq<Seq<char>>)
    ensures
        outgoing::edited(id, bodies) is Ok <==> bodies.len() == 1,
        bodies.len() == 1 ==> outgoing::edited(id, bodies) == Ok::<Seq<char>, ChannelErrorView>(
            bodies[0],
        ),
        bodies.len() == 0 ==> outgoing::edited(id, bodies) == Err::<Seq<char>, ChannelErrorView>(
            ChannelErrorView::Delivery {
                channel: id,
                message: "that text renders to nothing, so there would be no message left"@,
            },
        ),
        bodies.len() > 1 ==> outgoing::edited(id, bodies) == Err::<Seq<char>, ChannelErrorView>(
            ChannelErrorView::Delivery {
                channel: id,
                message: "that text is too long to be one Discord message ("@ + text::decimal(
                    bodies.len(),
                ) + " parts at 2000 characters each), and an edit cannot be split"@,
            },
        ),
{
}

/// A reference to a file without its two slashes, with a channel that is no id, or with a message that
/// is no id, is refused by what is wrong with it.
pub proof fn a_broken_reference_is_refused(
    channel: Seq<char>,
    message: Seq<char>,
    attachment: Seq<char>,
)
    requires
        !channel.contains('/'),
        !message.contains('/'),
        !attachment.contains('/'),
    ensures
        ({
            let raw = channel + seq!['/'] + message + seq!['/'] + attachment;
            let read = outgoing::referenced(raw);
            &&& text::positive(channel) is None ==> (read matches Err(
                ChannelErrorView::InvalidConversation { id, .. },
            ) && id == raw)
            &&& text::positive(channel) is Some && text::positive(text::trimmed(message)) is None ==> (
            read matches Err(ChannelErrorView::InvalidConversation { id, .. }) && id == message)
            &&& text::positive(channel) matches Some(place) ==> (text::positive(
                text::trimmed(message),
            ) matches Some(sent) ==> read == Ok::<(u64, u64, Seq<char>), ChannelErrorView>(
                (place, sent, attachment),
            ))
        }),
        outgoing::referenced(channel) is Err,
        outgoing::referenced(channel + seq!['/'] + message) is Err,
{
    let tail = message + seq!['/'] + attachment;
    let raw = channel + seq!['/'] + message + seq!['/'] + attachment;
    cut_at_the_slash(channel, tail);
    assert(raw =~= channel + seq!['/'] + tail);
    cut_at_the_slash(message, attachment);
    assert(tail =~= message + seq!['/'] + attachment);
    text::laws::a_text_is_cut_at_the_first(attachment, '/');
    text::laws::a_text_is_cut_at_the_first(channel, '/');
    cut_at_the_slash(channel, message);
    text::laws::a_text_is_cut_at_the_first(message, '/');
}

proof fn cut_at_the_slash(first: Seq<char>, rest: Seq<char>)
    requires
        !first.contains('/'),
    ensures
        text::parts_at(first + seq!['/'] + rest, '/') == Some((first, rest)),
{
    let whole = first + seq!['/'] + rest;
    text::laws::a_text_is_cut_at_the_first(whole, '/');
    assert(whole[first.len() as int] == '/');
    assert(whole.contains('/'));
    let parts = text::parts_at(whole, '/')->0;
    if parts.0.len() < first.len() {
        assert(whole[parts.0.len() as int] == '/');
        assert(first[parts.0.len() as int] == '/');
        assert(first.contains('/'));
    } else if parts.0.len() > first.len() {
        assert(parts.0[first.len() as int] == whole[first.len() as int]);
        assert(parts.0.contains('/'));
    }
    assert(parts.0 =~= whole.take(first.len() as int));
    assert(first =~= whole.take(first.len() as int));
    assert(parts.1 =~= whole.skip((first.len() + 1) as int));
    assert(rest =~= whole.skip((first.len() + 1) as int));
}

/// A file is found by its id, the first that has it, and not found exactly where none has.
pub proof fn a_file_is_found_by_its_id(files: Seq<MessageFile>, wanted: u64, at: Option<int>)
    requires
        outgoing::file_at(files, text::decimal(wanted as nat), at),
    ensures
        at matches Some(at) ==> 0 <= at < files.len() && files[at].id == wanted && forall|i: int|
            0 <= i < at ==> (#[trigger] files[i]).id != wanted,
        at is None ==> forall|i: int| 0 <= i < files.len() ==> (#[trigger] files[i]).id != wanted,
{
    text::a_number_survives_its_text_form(wanted as nat, u64::MAX as nat);
    if let Some(at) = at {
        text::a_number_survives_its_text_form(files[at].id as nat, u64::MAX as nat);
    }
}

/// The reactions that are the bot's own are those it is among, in order.
pub proof fn own_reactions_are_those_it_is_among(reactions: Seq<Reaction>)
    ensures
        outgoing::reactions_left(reactions) == reactions.filter(
            |reaction: Reaction| reaction.me,
        ).map_values(|reaction: Reaction| reaction.emoji),
    decreases reactions.len(),
{
    let own = |reaction: Reaction| reaction.me;
    let emoji = |reaction: Reaction| reaction.emoji;
    if reactions.len() > 0 {
        let rest = reactions.skip(1);
        own_reactions_are_those_it_is_among(rest);
        let first = seq![reactions[0]];
        assert(reactions =~= first + rest);
        Seq::filter_distributes_over_add(first, rest, own);
        reveal(Seq::filter);
        assert(first.drop_last() =~= Seq::empty());
        assert(first.drop_last().filter(own) =~= Seq::empty());
        assert(first.filter(own) =~= (if reactions[0].me {
            first
        } else {
            Seq::empty()
        }));
        assert(reactions.filter(own).map_values(emoji) =~= first.filter(own).map_values(emoji)
            + rest.filter(own).map_values(emoji));
        assert(outgoing::reactions_left(reactions) =~= reactions.filter(own).map_values(emoji));
    } else {
        reveal(Seq::filter);
        assert(reactions.filter(own).map_values(emoji) =~= Seq::<Emoji>::empty());
    }
}

/// A file too large says how large it is and how large it may be.
pub proof fn a_large_file_says_how_large(id: Seq<char>, size: u64, max_bytes: u64)
    ensures
        outgoing::file_too_large(id, size, max_bytes) == (ChannelErrorView::Delivery {
            channel: id,
            message: "this file is "@ + text::decimal(size as nat) + " bytes, over the "@
                + text::decimal(max_bytes as nat) + " byte limit"@,
        }),
{
}

/// A file goes by the last part of its path, and by a plain word where it has none.
pub proof fn a_file_goes_by_the_end_of_its_path(path: Seq<char>)
    ensures
        crate::paths::path_file_name(path) matches Some(name) ==> outgoing::upload_name(path) == name,
        crate::paths::path_file_name(path) is None ==> outgoing::upload_name(path) == "file"@,
{
}

} // verus!
