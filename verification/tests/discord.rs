//! Discord: who is heard, what was aimed at the bot, what becomes of an event, and what is sent.

use mekabridge::channel::discord::cache::{Channel, ChannelType, Guild, Role};
use mekabridge::channel::discord::members::{
    applicable_overwrites, permissions_in, Member, Moderation, Overwrite, Overwrites, RoleGrant,
    ServerStanding, ADMINISTRATOR, FIRST_TIMESTAMP, LAST_TIMESTAMP, MAX_MEMBER_PAGE,
};
use mekabridge::channel::discord::message::{
    Author, AuthorMember, Mention, Message, MessageFile, MessageType, Replied, Snapshot, Sticker,
};
use mekabridge::channel::discord::outgoing::{
    attachment_name, fetched_extension, own_reactions, upload_activity, Emoji, Reaction, MAX_ATTACHMENTS,
};
use mekabridge::channel::discord::presence::Status;
use mekabridge::channel::discord::search::{found_message, Json, SearchStep};
use mekabridge::channel::discord::{
    attachment_kind, chat_kind, fatal_close, DiscordChannel, GatewayEvent, Intents, MentionType,
    MessageFlags, Target,
};
use mekabridge::channel::ids::{ChannelId, ConversationId};
use mekabridge::channel::{
    Activity, Admission, AttachmentKind, ChannelError, ChatKind, ChatSettings, FileOptions,
    InboundEvent, InboundMessage, MemberAction, MemberCoverage, MemberStatus, PresenceStatus,
    SendOptions,
};
use mekabridge::config::secret::Secret;
use mekabridge::config::DiscordConfig;
use mekabridge::time::Duration;

const SECOND: i128 = 1_000_000_000;
const NOW: i128 = 1_786_543_600 * SECOND;

#[test]
fn more_attachments_than_discord_takes_are_refused_before_any_read() {
    // Without this check Discord answers a generic rejection only after every file has been read
    // into memory and uploaded.
    let channel = channel_with(vec![1], vec![], vec![], vec![], false);
    let paths: Vec<String> = (0..=MAX_ATTACHMENTS)
        .map(|index| format!("/tmp/{index}.png"))
        .collect();
    let error = channel
        .send_files(&paths, None, &FileOptions::default())
        .expect_err("an over-long attachment list must be refused");
    let message = error.to_text();
    assert!(message.contains("10"), "{message}");
    assert!(channel.check_files(paths.len()).is_err());
    assert!(channel.check_files(MAX_ATTACHMENTS).is_ok());
    let error = channel
        .send_files(&Vec::new(), None, &FileOptions::default())
        .expect_err("nothing to send");
    assert!(error.to_text().contains("no files were given"), "{}", error.to_text());
}

const SUPPRESS_EMBEDS: MessageFlags = MessageFlags {
    suppress_embeds: true,
    suppress_notifications: false,
};

const NO_FLAGS: MessageFlags = MessageFlags {
    suppress_embeds: false,
    suppress_notifications: false,
};

#[test]
fn an_edit_states_the_preview_choice_in_both_directions() {
    // Discord keeps a message's flags across an edit, so an edit that leaves them alone cannot lift
    // a suppression the original send applied.
    assert_eq!(
        DiscordChannel::edit_flags(false),
        SUPPRESS_EMBEDS,
        "an edit without a preview must say so rather than leave the flag alone"
    );
    assert_eq!(
        DiscordChannel::edit_flags(true),
        NO_FLAGS,
        "an edit asking for a preview must clear the suppression, not skip the field"
    );
}

#[test]
fn a_send_only_states_suppression_when_it_wants_it() {
    // A create has no prior flags to lift, so the absent case is already "no suppression".
    assert_eq!(DiscordChannel::outbound_flags(false), Some(SUPPRESS_EMBEDS));
    assert_eq!(DiscordChannel::outbound_flags(true), None);
}

fn channel_with(
    allowed_users: Vec<u64>,
    allowed_guilds: Vec<u64>,
    allowed_channels: Vec<u64>,
    allowed_roles: Vec<u64>,
    allow_all: bool,
) -> DiscordChannel {
    let config = DiscordConfig {
        token: Secret::new("fake.token", "test"),
        allowed_users,
        allowed_guilds,
        allowed_channels,
        allowed_roles,
        allow_all,
        admin_tools: true,
        message_content: true,
        presence: false,
        mention_everyone: false,
        mention_roles: false,
        link_preview: false,
    };
    DiscordChannel::new(ChannelId::new("discord"), &config)
}

/// A channel that knows who it is, which is what `addressed` needs.
fn identified() -> DiscordChannel {
    // Granted the server as well as the person: the user list admits nobody in a server channel, and
    // these fixtures are server messages.
    let mut channel = channel_with(vec![1], vec![900], vec![], vec![], false);
    channel.identify("99").expect("a snowflake");
    channel
}

fn author(id: u64, name: &str, bot: bool) -> Author {
    Author {
        id,
        name: name.to_string(),
        global_name: None,
        bot,
    }
}

fn message(content: &str) -> Message {
    Message {
        id: 1000,
        channel_id: 2000,
        guild_id: Some(900),
        author: author(1, "alice", false),
        member: None,
        kind: MessageType::Regular,
        content: content.to_string(),
        mentions: Vec::new(),
        attachments: Vec::new(),
        stickers: Vec::new(),
        has_poll: false,
        snapshots: Vec::new(),
        referenced_message: None,
        reference_id: None,
        timestamp: 1_786_543_391_427_000,
        edited_timestamp: None,
        via_webhook: false,
    }
}

fn hello() -> Message {
    message("hello")
}

fn mention(id: u64, name: &str) -> Mention {
    Mention {
        id,
        name: name.to_string(),
        nick: None,
    }
}

fn inbound(event: Option<InboundEvent>) -> InboundMessage {
    let Some(InboundEvent::Message(message)) = event else {
        panic!("expected a message");
    };
    *message
}

#[test]
fn an_allowlisted_person_is_admitted_as_themselves_in_a_direct_message() {
    let channel = channel_with(vec![1], vec![900], vec![], vec![], false);
    assert_eq!(
        channel.admission(1, 2000, None, &vec![], true),
        Some(Admission::User)
    );
}

#[test]
fn an_allowlisted_person_is_not_thereby_admitted_in_a_server() {
    // Letting the individual grant carry into every channel of every server the bot can see would
    // make one entry far wider than it reads.
    let channel = channel_with(vec![1], vec![], vec![], vec![], false);
    assert_eq!(
        channel.admission(1, 2000, Some(900), &vec![], false),
        None,
        "an individual grant must not reach into an unlisted server"
    );
}

#[test]
fn a_listed_person_in_a_listed_server_is_admitted_by_the_server() {
    // Both name them, but only the server grant reaches a server channel.
    let channel = channel_with(vec![1], vec![900], vec![], vec![], false);
    assert_eq!(
        channel.admission(1, 2000, Some(900), &vec![], false),
        Some(Admission::Server)
    );
}

#[test]
fn a_server_grant_is_reported_as_a_server_grant() {
    let channel = channel_with(vec![], vec![900], vec![], vec![], false);
    assert_eq!(
        channel.admission(7, 2000, Some(900), &vec![], false),
        Some(Admission::Server)
    );
}

#[test]
fn a_role_holder_is_admitted_but_not_as_a_vetted_account() {
    // All that was checked is a role anybody who administers the server can hand out.
    let channel = channel_with(vec![], vec![], vec![], vec![555], false);
    let admission = channel.admission(7, 2000, Some(900), &vec![555], false);
    assert_eq!(admission, Some(Admission::Role));
    assert!(
        Admission::Role.describe().contains("role you allow"),
        "the grant has to name what was actually checked"
    );
}

#[test]
fn a_group_dm_is_not_a_direct_message() {
    // A group DM carries no server id, so a rule written as "no guild" would admit it.
    let channel = channel_with(vec![1], vec![], vec![], vec![], false);
    assert_eq!(
        channel.admission(1, 2000, None, &vec![], false),
        None,
        "a group DM must not ride in on the individual grant"
    );
    assert_eq!(
        channel.admission(1, 2000, None, &vec![], true),
        Some(Admission::User),
        "a real direct message still works"
    );
}

#[test]
fn a_stranger_in_an_unlisted_server_is_dropped() {
    let channel = channel_with(vec![1], vec![], vec![], vec![], false);
    assert_eq!(channel.admission(7, 2000, Some(900), &vec![], false), None);
}

#[test]
fn a_direct_message_from_a_stranger_is_dropped_too() {
    // Anyone sharing a server with the bot can open a DM, so this is not a small set.
    let channel = channel_with(vec![1], vec![900], vec![], vec![], false);
    assert_eq!(channel.admission(7, 3000, None, &vec![], true), None);
}

#[test]
fn allow_all_admits_a_stranger_as_unvetted() {
    let channel = channel_with(vec![], vec![], vec![], vec![], true);
    assert_eq!(
        channel.admission(7, 2000, Some(900), &vec![], false),
        Some(Admission::Open)
    );
}

#[test]
fn being_named_wakes_the_agent() {
    let channel = identified();
    let message = Message {
        mentions: vec![mention(99, "mekabot")],
        ..hello()
    };
    assert!(channel.addressed(&message, Some(ChannelType::GuildText)));
}

#[test]
fn a_reply_to_the_agent_wakes_it_without_a_mention() {
    let channel = identified();
    let message = Message {
        kind: MessageType::Reply,
        referenced_message: Some(Replied {
            id: 999,
            author: author(99, "mekabot", true),
            content: "earlier".to_string(),
            mentions: Vec::new(),
            guild_id: None,
        }),
        ..hello()
    };
    assert!(channel.addressed(&message, Some(ChannelType::GuildText)));
}

#[test]
fn a_broadcast_does_not_wake_the_agent() {
    // A broadcast and a role ping name nobody, so the message mentions no account.
    let channel = identified();
    let message = message("@everyone <@&555>");
    assert!(!channel.addressed(&message, Some(ChannelType::GuildText)));
}

#[test]
fn ordinary_chatter_does_not_wake_the_agent() {
    let channel = identified();
    assert!(!channel.addressed(&hello(), Some(ChannelType::GuildText)));
}

#[test]
fn a_direct_message_is_always_addressed() {
    let channel = identified();
    let message = Message {
        guild_id: None,
        ..hello()
    };
    assert!(channel.addressed(&message, Some(ChannelType::Private)));
}

fn typing_start(user_id: u64) -> GatewayEvent {
    GatewayEvent::TypingStart {
        channel_id: 555,
        user_id,
    }
}

#[test]
fn somebody_typing_is_reported_so_the_chat_can_wait_for_them() {
    let mut channel = identified();
    let mut events = channel.handle(&typing_start(1), NOW);
    let Some(InboundEvent::Typing { conversation, .. }) = events.pop() else {
        panic!("expected a typing notice");
    };
    assert_eq!(conversation.as_str(), "discord:555");
}

#[test]
fn the_bots_own_typing_is_not_reported_back_to_itself() {
    // Unfiltered, a chat would be held open for as long as the agent was working on it and then held
    // again by the next turn.
    let mut channel = identified();
    assert!(
        channel.handle(&typing_start(99), NOW).is_empty(),
        "the bot's own typing must not hold a conversation open"
    );
}

#[test]
fn the_typing_intents_are_requested_and_are_not_privileged() {
    // The fixture asks for the message content and nothing else privileged, so that is the whole of
    // what may appear here.
    let channel = channel_with(vec![1], vec![], vec![], vec![], false);
    assert_eq!(
        channel.intents(),
        Intents {
            guilds: true,
            guild_messages: true,
            direct_messages: true,
            guild_message_typing: true,
            direct_message_typing: true,
            guild_members: false,
            message_content: true,
            guild_presences: false,
        },
        "the typing intents must not drag a privileged one along with them"
    );
}

fn plain(channel: &DiscordChannel, message: &Message) -> String {
    channel.demention(&message.content, &message.mentions, message.guild_id)
}

#[test]
fn mentions_are_rewritten_into_names() {
    let channel = identified();
    let message = Message {
        mentions: vec![mention(1, "alice"), mention(2, "bob")],
        ..message("<@1> and <@!2> should look")
    };
    assert_eq!(plain(&channel, &message), "@alice and @bob should look");
}

#[test]
fn an_unresolvable_mention_says_someone_rather_than_a_number() {
    let channel = identified();
    assert_eq!(plain(&channel, &message("ask <@404>")), "ask @someone");
}

fn room(id: u64, name: &str, kind: ChannelType) -> Channel {
    Channel {
        id,
        name: Some(name.to_string()),
        guild_id: Some(900),
        parent_id: None,
        kind,
    }
}

#[test]
fn roles_and_channels_are_resolved_from_the_cache() {
    let mut channel = identified();
    channel
        .names
        .insert_channel(&room(2000, "deploys", ChannelType::GuildText));
    channel.names.insert_role(
        900,
        &Role {
            id: 555,
            name: "Release Team".to_string(),
        },
    );
    let message = message("<@&555> see <#2000>");
    assert_eq!(plain(&channel, &message), "@Release Team see #deploys");
}

#[test]
fn a_custom_emoji_keeps_its_name_and_loses_its_id() {
    let channel = identified();
    assert_eq!(
        plain(&channel, &message("nice <:shrug:12345> work")),
        "nice :shrug: work"
    );
}

#[test]
fn a_relative_timestamp_becomes_an_absolute_one() {
    // The client renders it as "in 3 hours", which the agent cannot evaluate.
    let channel = identified();
    let rendered = plain(&channel, &message("at <t:1760000000:R>"));
    assert!(rendered.starts_with("at 2025-10-09T"), "got {rendered:?}");
}

#[test]
fn text_with_no_markup_is_left_exactly_alone() {
    let channel = identified();
    assert_eq!(plain(&channel, &message("plain text")), "plain text");
}

fn text(value: &str) -> Json {
    Json::Text(value.to_string())
}

fn object(entries: Vec<(&str, Json)>) -> Json {
    Json::Object(
        entries
            .into_iter()
            .map(|(name, value)| (name.to_string(), value))
            .collect(),
    )
}

fn search_hit() -> Json {
    object(vec![
        ("id", text("3000")),
        ("channel_id", text("2000")),
        ("type", Json::Number("0".to_string())),
        ("content", text("operations check: an attached file")),
        ("timestamp", text("2026-08-12T04:34:57.115000+00:00")),
        ("edited_timestamp", Json::Null),
        (
            "author",
            object(vec![
                ("id", text("99")),
                ("username", text("mekabot")),
                ("discriminator", text("2982")),
                ("global_name", Json::Null),
                ("bot", Json::Bool(true)),
            ]),
        ),
    ])
}

#[test]
fn a_real_search_response_is_parsed() {
    // The messages are an array of arrays, a bot author has no global name, and the timestamp
    // carries six fractional digits.
    let body = object(vec![
        ("analytics_id", text("d275be96")),
        ("doing_deep_historical_index", Json::Bool(false)),
        ("total_results", Json::Number("1".to_string())),
        ("messages", Json::Array(vec![Json::Array(vec![search_hit()])])),
    ]);
    let channel = identified();
    let Ok(SearchStep::Found(found)) = channel.search_guild(&body, 0) else {
        panic!("the real response shape must parse");
    };
    assert_eq!(found.len(), 1, "the real response shape must parse");
    assert_eq!(found[0].sender_name, "mekabot");
    assert_eq!(found[0].text, "operations check: an attached file");
    assert_eq!(found[0].message_id, "3000");
    assert_eq!(found[0].timestamp, 1_786_509_297_115_000_000);
}

#[test]
fn a_result_that_cannot_be_attributed_is_skipped() {
    assert!(found_message(&search_hit()).is_some());
    assert!(found_message(&object(vec![("content", text("hi"))])).is_none());
    assert!(found_message(&Json::Null).is_none());
}

#[test]
fn a_server_still_being_indexed_is_not_reported_as_empty() {
    let channel = identified();
    let body = object(vec![("retry_after", Json::Number("2.5".to_string()))]);
    assert!(matches!(
        channel.search_guild(&body, 0),
        Ok(SearchStep::Wait(after)) if after == "2.5"
    ));
    let error = channel.search_guild(&body, 2).expect_err("asked often enough");
    assert!(error.to_text().contains("still indexing"), "{}", error.to_text());
    // Nothing found is an answer.
    assert!(matches!(
        channel.search_guild(&object(vec![]), 0),
        Ok(SearchStep::Found(found)) if found.is_empty()
    ));
}

#[test]
fn searching_needs_the_message_content() {
    let mut channel = identified();
    assert!(channel.search_messages().is_ok());
    channel.message_content = false;
    assert!(matches!(
        channel.search_messages(),
        Err(ChannelError::Unsupported { .. })
    ));
}

#[test]
fn the_search_path_is_a_legal_uri() {
    // A space is not a legal URI character, so every search would fail to build a request.
    let channel = identified();
    let path = channel.search_path(900, 2000, "deploy find me", 25);
    assert!(
        !path.contains(' '),
        "a space in the path makes the request unbuildable: {path:?}"
    );
    assert!(
        path.starts_with("guilds/900/messages/search?"),
        "got {path:?}"
    );
    assert!(path.contains("channel_id=2000"), "got {path:?}");
    assert!(path.contains("limit=25"), "got {path:?}");
    // The query is percent-encoded rather than pasted in.
    assert!(path.contains("content=deploy+find+me"), "got {path:?}");
    assert_eq!(
        channel.search_path(900, 2000, "caf\u{e9} & 100%", 0),
        "guilds/900/messages/search?content=caf%C3%A9+%26+100%25&channel_id=2000&limit=1\
         &sort_by=timestamp"
    );
}

#[test]
fn demention_survives_arbitrary_unicode() {
    // Message content is whatever anybody typed. The assertion is that it returns at all.
    let channel = identified();
    for content in [
        "日本語 <@1> テキスト",
        "\u{1f600}\u{1f601}<#2000>\u{1f602}",
        "café <@&555> naïve",
        "\u{1f1ef}\u{1f1f5}<:shrug:1>\u{200d}",
        "a\u{0301}<@!404>e\u{0301}",
        "<\u{1f600}>",
        "\u{1f600}<",
        "<",
        ">",
        "<>",
        "\u{1f600}>\u{1f600}<\u{1f600}",
    ] {
        let rendered = plain(&channel, &message(content));
        assert!(rendered.is_char_boundary(0) || rendered.is_empty());
    }
}

#[test]
fn an_unterminated_bracket_does_not_swallow_the_rest() {
    let channel = identified();
    assert_eq!(plain(&channel, &message("a < b and c")), "a < b and c");
}

#[test]
fn the_agent_does_not_hear_its_own_messages() {
    let channel = identified();
    let message = Message {
        author: author(99, "mekabot", true),
        ..hello()
    };
    assert!(channel
        .to_event(&message, Some(ChannelType::GuildText), NOW)
        .is_none());
}

#[test]
fn a_join_notice_is_not_a_message_from_a_person() {
    let channel = identified();
    let message = Message {
        kind: MessageType::Notice,
        ..hello()
    };
    assert!(channel
        .to_event(&message, Some(ChannelType::GuildText), NOW)
        .is_none());
}

#[test]
fn an_edit_gets_an_id_of_its_own_so_it_is_not_taken_for_a_redelivery() {
    let channel = identified();
    let original = inbound(channel.to_event(&hello(), Some(ChannelType::GuildText), NOW));
    let edited = Message {
        edited_timestamp: Some(1_786_543_500_000_000),
        ..hello()
    };
    let edited = inbound(channel.to_event(&edited, Some(ChannelType::GuildText), NOW));
    assert_eq!(original.message_id, edited.message_id);
    assert_ne!(original.external_id, edited.external_id);
    assert!(edited.edited_at.is_some());
}

#[test]
fn an_edit_is_told_apart_whenever_it_was_made() {
    let channel = identified();
    let original = inbound(channel.to_event(&hello(), Some(ChannelType::GuildText), NOW));
    for micros in [i64::MIN, -1, 0, 1, i64::MAX] {
        let edited = Message {
            edited_timestamp: Some(micros),
            ..hello()
        };
        let edited = inbound(channel.to_event(&edited, Some(ChannelType::GuildText), NOW));
        assert_ne!(original.external_id, edited.external_id);
        assert!(edited.edited_at.is_some());
    }
}

#[test]
fn the_bot_stays_who_it_was_first_known_to_be() {
    let mut channel = identified();
    assert_eq!(channel.identify("100").expect("a snowflake"), 100);
    assert_eq!(channel.identity, Some(99));
    let error = channel.identify("0").expect_err("no account has this id");
    assert!(error.to_text().contains("not a snowflake"), "{}", error.to_text());
    assert_eq!(channel.identity, Some(99));
}

#[test]
fn a_direct_message_is_recognised_without_the_cache_knowing_the_channel() {
    // Discord sends no channel event for a DM, so the absent server id is the only signal there is.
    let channel = identified();
    let message = Message {
        guild_id: None,
        ..hello()
    };
    let event = inbound(channel.to_event(&message, None, NOW));
    assert_eq!(event.chat_kind, ChatKind::Direct);
}

#[test]
fn a_server_channel_defaults_to_mentions_only_and_a_direct_message_does_not() {
    assert_eq!(chat_kind(Some(ChannelType::GuildText)), ChatKind::Group);
    assert_eq!(chat_kind(Some(ChannelType::PublicThread)), ChatKind::Group);
    assert_eq!(chat_kind(Some(ChannelType::GuildVoice)), ChatKind::Group);
    assert_eq!(
        chat_kind(Some(ChannelType::GuildAnnouncement)),
        ChatKind::Channel
    );
    assert_eq!(chat_kind(Some(ChannelType::Private)), ChatKind::Direct);
    assert_eq!(chat_kind(None), ChatKind::Unknown);
}

#[test]
fn attachments_are_classified_from_what_discord_says_they_are() {
    assert_eq!(
        attachment_kind(Some("image/gif"), false),
        AttachmentKind::Animation
    );
    assert_eq!(
        attachment_kind(Some("image/png"), false),
        AttachmentKind::Photo
    );
    assert_eq!(
        attachment_kind(Some("video/mp4"), false),
        AttachmentKind::Video
    );
    assert_eq!(
        attachment_kind(Some("audio/ogg"), true),
        AttachmentKind::Voice
    );
    assert_eq!(
        attachment_kind(Some("audio/ogg"), false),
        AttachmentKind::Audio
    );
    assert_eq!(attachment_kind(None, false), AttachmentKind::Document);
}

fn crash() -> MessageFile {
    MessageFile {
        id: 3000,
        filename: "crash.png".to_string(),
        content_type: Some("image/png".to_string()),
        size: 412,
        timed: false,
        waveform: false,
        url: "https://cdn.discordapp.com/attachments/2000/1000/crash.png?ex=deadbeef".to_string(),
    }
}

#[test]
fn an_attachment_handle_points_at_the_message_rather_than_the_signed_url() {
    // Discord's CDN links expire, so a stored URL would be a handle that works for a while.
    let channel = identified();
    let message = Message {
        attachments: vec![crash()],
        ..hello()
    };
    let attachments = channel.attachments(&message);
    let [attachment] = attachments.as_slice() else {
        panic!("one attachment");
    };
    assert_eq!(attachment.file_ref, "2000/1000/3000");
    assert!(!attachment.file_ref.contains("ex="));
    assert_eq!(attachment.kind, AttachmentKind::Photo);
}

#[test]
fn a_dialling_address_is_a_valid_conversation_id() {
    // It is how the agent reaches somebody who has never written.
    let id = ConversationId::parse("discord:@245119312739729408").expect("parses");
    assert_eq!(id.chat(), "@245119312739729408");
}

#[test]
fn an_ordinary_conversation_id_is_already_its_own_final_form() {
    // Only a dialling address needs resolving.
    let channel = identified();
    let id = ConversationId::parse("discord:1183429847290374144").expect("parses");
    assert!(!DiscordChannel::is_dialling(&id));
    assert_eq!(
        channel.canonical_conversation(&id, 1).as_str(),
        "discord:1183429847290374144"
    );
    let dialled = ConversationId::parse("discord:@5").expect("parses");
    assert!(DiscordChannel::is_dialling(&dialled));
    assert_eq!(channel.canonical_conversation(&dialled, 77).as_str(), "discord:77");
}

#[test]
fn dialling_twice_opens_one_channel() {
    let mut channel = identified();
    let id = ConversationId::parse("discord:@5").expect("parses");
    assert_eq!(channel.target(&id).expect("resolves"), Target::Dial(5));
    channel.dialled(
        5,
        &Channel {
            id: 77,
            name: None,
            guild_id: None,
            parent_id: None,
            kind: ChannelType::Private,
        },
    );
    assert_eq!(channel.target(&id).expect("resolves"), Target::Channel(77));
    let bad = ConversationId::parse("discord:@nobody").expect("parses");
    assert!(channel.target(&bad).is_err());
    let bad = ConversationId::parse("discord:general").expect("parses");
    assert!(channel.target(&bad).is_err());
}

#[test]
fn a_direct_message_has_no_server_to_moderate() {
    let mut channel = identified();
    let id = ConversationId::parse("discord:2000").expect("parses");
    let here = room(2000, "deploys", ChannelType::GuildText);
    assert_eq!(channel.located(&id, &here).expect("in a server"), 900);
    assert_eq!(channel.names.guild_of(2000), Some(900));
    let direct = Channel {
        guild_id: None,
        ..room(3000, "x", ChannelType::Private)
    };
    let error = channel.located(&id, &direct).expect_err("no server");
    assert!(error.to_text().contains("direct message"), "{}", error.to_text());
}

#[test]
fn events_teach_the_channel_names_and_presences() {
    let mut channel = identified();
    channel.presence = true;
    let guild = Guild {
        id: 900,
        name: "Acme Corp".to_string(),
        roles: Vec::new(),
        channels: vec![room(2000, "deploys", ChannelType::GuildText)],
        threads: Vec::new(),
    };
    let created = GatewayEvent::GuildCreate {
        guild,
        presences: vec![(1, Status::Online)],
    };
    assert!(channel.handle(&created, NOW).is_empty());
    assert_eq!(channel.names.describe(2000).as_deref(), Some("#deploys in Acme Corp"));
    let presence = channel.presence_of(900, 1).expect("switched on");
    assert_eq!(presence.status, PresenceStatus::Online);
    channel.presence = false;
    assert!(channel.presence_of(900, 1).is_none());
    let events = channel.handle(&GatewayEvent::MessageCreate { message: hello() }, NOW);
    assert_eq!(events.len(), 1);
    let gone = GatewayEvent::MessageDeleteBulk {
        channel_id: 2000,
        message_ids: vec![1, 2],
    };
    assert_eq!(channel.handle(&gone, NOW).len(), 2);
    assert!(channel.handle(&GatewayEvent::GuildDelete { guild_id: 900 }, NOW).is_empty());
    assert_eq!(channel.names.describe(2000), None);
}

#[test]
fn a_close_that_cannot_be_mended_stops_the_channel() {
    // 4014 is a privileged intent that the portal does not grant; 4000 is an unknown error.
    assert_eq!(fatal_close(4014), Some(4014));
    assert_eq!(fatal_close(4000), None);
    let channel = identified();
    assert!(channel.run_ended(None).is_ok());
    assert!(channel.run_ended(Some(4014)).is_err());
}

#[test]
fn what_has_no_text_is_described() {
    let channel = identified();
    let event = inbound(channel.to_event(
        &Message {
            stickers: vec![Sticker { name: "wave".to_string(), lottie: false }],
            has_poll: true,
            snapshots: vec![Snapshot {
                content: "forwarded words".to_string(),
                mentions: Vec::new(),
            }],
            ..message("")
        },
        Some(ChannelType::GuildText),
        NOW,
    ));
    assert!(event.notes.iter().any(|note| note.contains("wave")), "{:?}", event.notes);
    assert!(event.text.contains("forwarded words"), "{:?}", event.text);
    assert!(event.forwarded_from.is_some());
}

#[test]
fn a_member_goes_by_the_name_of_the_server() {
    let channel = identified();
    let event = inbound(channel.to_event(
        &Message {
            member: Some(AuthorMember {
                nick: Some("Ali".to_string()),
                roles: Vec::new(),
            }),
            ..hello()
        },
        Some(ChannelType::GuildText),
        NOW,
    ));
    assert_eq!(event.sender.display_name, "Ali");
    assert_eq!(event.admission, Admission::Server);
}

fn options(reply_to: Option<&str>) -> SendOptions {
    SendOptions {
        reply_to: reply_to.map(str::to_string),
        silent: false,
        link_preview: true,
    }
}

#[test]
fn only_the_first_part_of_a_long_answer_replies() {
    let mut channel = identified();
    channel.mention_roles = true;
    let posts = channel
        .send_text(&"word ".repeat(1000), &options(Some("1000")))
        .expect("sent");
    assert!(posts.len() > 1);
    assert_eq!(posts[0].reply_to, Some(1000));
    assert!(posts[1..].iter().all(|post| post.reply_to.is_none()));
    for post in &posts {
        assert_eq!(post.flags, None, "nothing is suppressed");
        assert_eq!(post.mentions.parse, vec![MentionType::Users, MentionType::Roles]);
        assert!(!post.mentions.replied_user);
    }
    assert!(channel.send_text("hi", &options(Some("x"))).is_err());
    // Nothing to send is nothing to answer.
    assert!(channel.send_text(" ", &options(Some("x"))).expect("nothing").is_empty());
    let silent = SendOptions { silent: true, ..options(None) };
    let posts = channel.send_text("hi", &silent).expect("sent");
    assert_eq!(
        posts[0].flags,
        Some(MessageFlags { suppress_embeds: false, suppress_notifications: true })
    );
    assert_eq!(posts[0].content.as_deref(), Some("hi"));
    assert!(channel.part_failed(0, 2, "nope").to_text().contains("part 1 of 2 failed: nope"));
}

#[test]
fn a_caption_cannot_be_continued() {
    let channel = identified();
    let with = FileOptions { as_photo: true, send: options(Some("5")) };
    let paths = vec!["/tmp/a.png".to_string()];
    let post = channel.send_files(&paths, Some("**hi**"), &with).expect("fits");
    assert_eq!(post.content.as_deref(), Some("**hi**"));
    assert_eq!(post.reply_to, Some(5));
    assert_eq!(channel.send_files(&paths, None, &with).expect("no caption").content, None);
    let error = channel
        .send_files(&paths, Some(&"word ".repeat(1000)), &with)
        .expect_err("too long");
    assert!(error.to_text().contains("2000"), "{}", error.to_text());
    assert_eq!(attachment_name("/tmp/report.pdf"), "report.pdf");
    assert_eq!(attachment_name("/"), "file");
    assert_eq!(upload_activity(true), Activity::SendingPhoto);
    assert_eq!(upload_activity(false), Activity::SendingFile);
    assert!(channel.file_unreadable("/x", "gone").to_text().contains("could not read /x: gone"));
}

#[test]
fn an_edit_has_to_be_one_message() {
    let channel = identified();
    let edit = channel.edit_text("**new**", false).expect("one message");
    assert_eq!(edit.content, "**new**");
    assert_eq!(edit.flags, SUPPRESS_EMBEDS);
    let error = channel.edit_text("  ", true).expect_err("nothing left");
    assert!(error.to_text().contains("renders to nothing"), "{}", error.to_text());
    let error = channel.edit_text(&"word ".repeat(1000), true).expect_err("too long");
    assert!(error.to_text().contains("an edit cannot be split"), "{}", error.to_text());
}

#[test]
fn a_file_is_found_again_by_its_message() {
    let channel = identified();
    let named = channel.file_reference("2000/1000/3000").expect("a reference");
    assert_eq!((named.channel, named.message), (2000, 1000));
    let files = vec![crash()];
    assert_eq!(channel.pick_file(&files, &named.attachment, 412).expect("found"), 0);
    let error = channel.pick_file(&files, "3000", 411).expect_err("too large");
    assert!(error.to_text().contains("412 bytes, over the 411"), "{}", error.to_text());
    let error = channel.pick_file(&files, "3001", 412).expect_err("gone");
    assert!(error.to_text().contains("no longer attached"), "{}", error.to_text());
    assert!(channel.file_reference("2000/1000").is_err());
    assert!(channel.file_reference("x/1000/3000").is_err());
    assert!(channel.file_reference("2000/0/3000").is_err());
    assert!(channel.file_lost("gone").to_text().contains("expiring link: gone"));
}

#[test]
fn only_the_bots_own_reactions_are_cleared() {
    let reaction = |me: bool, name: &str| Reaction {
        me,
        emoji: Emoji::Unicode { name: name.to_string() },
    };
    let own = own_reactions(vec![
        reaction(true, "a"),
        reaction(false, "b"),
        Reaction { me: true, emoji: Emoji::Custom { id: 7, name: None } },
    ]);
    assert_eq!(own.len(), 2);
    assert!(matches!(&own[0], Emoji::Unicode { name } if name == "a"));
    assert!(matches!(&own[1], Emoji::Custom { id: 7, name: None }));
}

#[test]
fn a_channel_is_changed_as_far_as_discord_allows() {
    let channel = identified();
    let settings = |slowmode: u64| ChatSettings {
        title: Some("ops".to_string()),
        description: None,
        slowmode: Some(Duration::from_secs(slowmode)),
    };
    let update = channel.set_chat(&settings(21_600)).expect("six hours");
    assert_eq!(update.rate_limit_per_user, Some(21_600));
    assert_eq!(update.name.as_deref(), Some("ops"));
    assert!(channel.set_chat(&settings(21_601)).is_err());
    assert!(channel.set_chat(&settings(u64::MAX)).is_err());
    assert!(channel.pin_message(false).is_ok());
    assert!(matches!(
        channel.pin_message(true),
        Err(ChannelError::Unsupported { .. })
    ));
}

#[test]
fn a_timeout_always_ends_and_a_ban_never_does() {
    let channel = identified();
    let moderate = |action: MemberAction, until: Option<i128>| {
        channel.moderate_member(action, until, true, NOW)
    };
    let month = 28 * 86_400 * SECOND;
    assert_eq!(
        moderate(MemberAction::Restrict, Some(NOW + month)).expect("28 days"),
        Moderation::Restrict { until: 1_786_543_600 + 28 * 86_400 }
    );
    assert!(moderate(MemberAction::Restrict, Some(NOW + month + 1)).is_err());
    assert!(moderate(MemberAction::Restrict, None).is_err());
    assert_eq!(
        moderate(MemberAction::Ban, None).expect("a ban"),
        Moderation::Ban { delete_seconds: Some(604_800) }
    );
    assert!(moderate(MemberAction::Ban, Some(NOW + month)).is_err());
    assert_eq!(moderate(MemberAction::Kick, None).expect("a kick"), Moderation::Kick);
    // A date far past what Discord's timestamps hold is refused by them.
    let now = 8_000_000_000_000 * SECOND;
    let error = channel
        .moderate_member(MemberAction::Restrict, Some(now), false, now)
        .expect_err("no such date");
    assert!(
        error.to_text().contains(
            "not a time Discord accepts: value of a field is not in an acceptable range"
        ),
        "{}",
        error.to_text()
    );
    for (secs, held) in [
        (FIRST_TIMESTAMP - 1, false),
        (FIRST_TIMESTAMP, true),
        (LAST_TIMESTAMP, true),
        (LAST_TIMESTAMP + 1, false),
    ] {
        let at = i128::from(secs) * SECOND;
        let held_at = channel.moderate_member(MemberAction::Restrict, Some(at), false, at);
        assert_eq!(held_at.is_ok(), held, "{secs}");
    }
}

#[test]
fn roles_are_found_by_name_or_refused_by_name() {
    let mut channel = identified();
    let role = |id: u64, name: &str| Role { id, name: name.to_string() };
    channel.names.insert_role(900, &role(555, "Mods"));
    channel.names.insert_role(900, &role(556, "Admins"));
    let names = vec!["admins".to_string(), "Mods".to_string()];
    assert_eq!(channel.set_member_roles(900, &names).expect("both"), vec![556, 555]);
    let error = channel
        .set_member_roles(900, &vec!["Nobody".to_string()])
        .expect_err("no such role");
    assert!(
        error.to_text().contains("no role called \"Nobody\"; it has Admins, Mods"),
        "{}",
        error.to_text()
    );
}

fn member(id: u64, roles: Vec<u64>, until: Option<i64>) -> Member {
    Member {
        user_id: id,
        user_name: format!("user{id}"),
        global_name: None,
        nick: None,
        roles,
        communication_disabled_until: until,
    }
}

#[test]
fn a_page_of_members_says_where_the_next_one_starts() {
    let channel = identified();
    let roles = vec![
        RoleGrant { id: 555, permissions: ADMINISTRATOR },
        RoleGrant { id: 556, permissions: 1 },
    ];
    let standing = ServerStanding::new(10, Some(40), &roles);
    let later = (NOW / 1_000 + 1) as i64;
    let members = vec![
        member(10, vec![], None),
        member(30, vec![555], None),
        member(20, vec![556], Some(later)),
    ];
    let listing = channel.list_members(900, &members, &standing, false, 3, NOW);
    assert_eq!(listing.coverage, MemberCoverage::Everyone);
    assert_eq!(listing.next_after.as_deref(), Some("30"));
    assert_eq!(listing.total, Some(40));
    let statuses: Vec<MemberStatus> = listing.members.iter().map(|info| info.status).collect();
    assert_eq!(
        statuses,
        vec![MemberStatus::Owner, MemberStatus::Administrator, MemberStatus::Restricted]
    );
    // A short page means the end.
    let listing = channel.list_members(900, &members, &standing, false, 4, NOW);
    assert_eq!(listing.next_after, None);
    let listing = channel.list_members(900, &members, &standing, true, 3, NOW);
    assert_eq!(listing.coverage, MemberCoverage::Matching);
    assert_eq!(listing.total, None);
}

#[test]
fn a_listing_is_refused_for_what_stands_in_its_way() {
    let mut channel = identified();
    channel.names.insert_channel(&Channel {
        guild_id: None,
        ..room(3000, "x", ChannelType::Private)
    });
    assert!(channel.member_page(3000, 50).is_err());
    assert_eq!(channel.member_page(2000, 0).expect("a page"), 1);
    assert_eq!(
        channel.member_page(2000, 5000).expect("a page"),
        MAX_MEMBER_PAGE as u16
    );
    let refusal = channel.listing_refused(Some(403), "Missing Access");
    assert!(matches!(refusal, ChannelError::Unsupported { .. }));
    let refusal = channel.listing_refused(Some(500), "oops");
    assert!(refusal.to_text().contains("listing this server's members: oops"));
}

#[test]
fn somebody_who_is_gone_either_left_or_was_banned() {
    assert_eq!(DiscordChannel::absent(7, true).status, MemberStatus::Banned);
    assert_eq!(DiscordChannel::absent(7, false).status, MemberStatus::Left);
    let channel = identified();
    let info = channel.member(900, &member(7, vec![], None), 10, ADMINISTRATOR, NOW);
    assert_eq!(info.status, MemberStatus::Administrator);
    assert_eq!(info.display_name.as_deref(), Some("user7"));
}

#[test]
fn permissions_are_worked_out_from_roles_and_overwrites() {
    // 1 << 10 is seeing a channel, and 1 << 11 is sending messages in it.
    let roles = vec![
        RoleGrant { id: 900, permissions: 1 << 10 },
        RoleGrant { id: 555, permissions: 1 << 11 },
    ];
    let text_channel = ChannelType::GuildText;
    let held = permissions_in(900, 7, &roles, &vec![555], text_channel, &vec![]);
    assert_eq!(held & (1 << 10), 1 << 10);
    assert_eq!(held & (1 << 11), 1 << 11);
    let muted = Overwrite { id: 555, kind: 0, allow: 0, deny: 1 << 11 };
    let held = permissions_in(900, 7, &roles, &vec![555], text_channel, &vec![muted]);
    assert_eq!(held & (1 << 11), 0, "an overwrite takes away what a role gives");
    let held = permissions_in(900, 7, &roles, &vec![], text_channel, &vec![]);
    assert_eq!(held & (1 << 11), 0, "a role that is not held gives nothing");
}

#[test]
fn a_thread_is_ruled_by_the_channel_it_hangs_off() {
    assert!(matches!(applicable_overwrites(None, Some(5)), Overwrites::Of(5)));
    assert!(matches!(
        applicable_overwrites(Some(Vec::new()), Some(5)),
        Overwrites::Known(own) if own.is_empty()
    ));
    assert!(matches!(
        applicable_overwrites(None, None),
        Overwrites::Known(own) if own.is_empty()
    ));
}

#[test]
fn the_bot_is_reported_as_its_token_says() {
    let channel = identified();
    let identity = channel.identity_of(99, "mekabot", &Some("Mica".to_string()));
    assert_eq!(identity.id, "99");
    assert_eq!(identity.display_name, "Mica");
    assert_eq!(identity.username.as_deref(), Some("mekabot"));
    assert!(identity.reads_all_group_messages);
    assert!(channel.token_rejected("401").to_text().contains("rejected the bot token: 401"));
}

#[test]
fn a_fetched_file_keeps_the_extension_it_was_sent_under() {
    assert_eq!(fetched_extension("report.final.pdf").as_deref(), Some("pdf"));
    assert_eq!(fetched_extension("README"), None);
    assert_eq!(fetched_extension(".profile"), None);
}
