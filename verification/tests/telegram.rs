//! Telegram: who is heard, what was aimed at the bot, what becomes of a message, and what is sent.

use mekabridge::channel::ids::{ChannelId, ConversationId};
use mekabridge::channel::telegram::members::{
    clamp_until, lifted_permissions, member_rights, member_status, set_member_rights, Administrator, ChatMember,
    ChatMemberKind, Moderation,
};
use mekabridge::channel::telegram::message::{
    Chat, ChatShape, DiceEmoji, Entity, EntityKind, FileMeta, MediaKind, Message, MessageKind,
    MessageOrigin, PhotoSize, Replied, StickerFormat, User,
};
use mekabridge::channel::telegram::outgoing::{
    album_items, chat_action, file_type, groups_into_an_album, link_preview,
    media_type_for_extension, ChatAction, ParseMode, MAX_ALBUM_ITEMS,
};
use mekabridge::channel::telegram::render::MESSAGE_LIMIT;
use mekabridge::channel::telegram::{
    client_timeout, sent_message, BotIdentity, TelegramChannel, Update, POLL_RESPONSE_MARGIN_SECS,
};
use mekabridge::channel::{
    Activity, Admission, AttachmentKind, ChannelError, ChatKind, ChatSettings, FileOptions,
    ForwardOrigin, InboundEvent, InboundMessage, MemberAction, MemberCoverage, MemberRight,
    MemberStatus, SendOptions,
};
use mekabridge::config::defaults::default_poll_timeout;
use mekabridge::config::secret::Secret;
use mekabridge::config::{TelegramConfig, TelegramParseMode};
use mekabridge::text::truncate;
use mekabridge::time::Duration;

const SECOND: i128 = 1_000_000_000;
const NOW: i128 = 1_754_400_000 * SECOND;

fn channel(allowed_users: Vec<i64>, allowed_chats: Vec<i64>) -> TelegramChannel {
    configured(allowed_users, allowed_chats, false)
}

fn configured(
    allowed_users: Vec<i64>,
    allowed_chats: Vec<i64>,
    allow_all: bool,
) -> TelegramChannel {
    let config = TelegramConfig {
        token: Secret::new("123:fake", "test"),
        allowed_users,
        allowed_chats,
        allow_all,
        admin_tools: true,
        parse_mode: TelegramParseMode::Html,
        link_preview: false,
        poll_timeout: Duration::from_secs(1),
    };
    TelegramChannel::new(ChannelId::new("telegram"), &config)
}

fn paths(names: &[&str]) -> Vec<String> {
    names.iter().map(|name| (*name).to_string()).collect()
}

fn plain_options() -> SendOptions {
    SendOptions {
        reply_to: None,
        silent: false,
        link_preview: false,
    }
}

#[test]
fn one_file_does_not_go_through_the_album_endpoint() {
    // An album requires at least two items. The boundary is the platform's, so it is pinned.
    assert!(!groups_into_an_album(&paths(&["/tmp/a.png"])));
    assert!(groups_into_an_album(&paths(&["/tmp/a.png", "/tmp/b.png"])));
}

#[test]
fn exactly_one_album_item_carries_the_caption() {
    // Caption every item and the official clients render *no* group caption at all.
    let files = paths(&["/tmp/a.png", "/tmp/b.png", "/tmp/c.png"]);
    let items = album_items(
        &files,
        &Some("the caption".to_string()),
        true,
        Some(ParseMode::Html),
    );
    assert_eq!(items.len(), 3);
    let captioned: Vec<&str> = items.iter().filter_map(|item| item.caption.as_deref()).collect();
    assert_eq!(
        captioned,
        ["the caption"],
        "an album must carry its caption on exactly one item"
    );
    assert_eq!(items[0].parse_mode, Some(ParseMode::Html));
    assert_eq!(items[1].parse_mode, None, "there is nothing to read without a caption");
}

#[test]
fn an_album_without_a_caption_carries_none_at_all() {
    let files = paths(&["/tmp/a.pdf", "/tmp/b.pdf"]);
    let items = album_items(&files, &None, false, None);
    assert!(items.iter().all(|item| item.caption.is_none()));
}

#[test]
fn as_photo_decides_the_whole_album() {
    // Telegram refuses an album mixing documents with photos, so one flag governs every item.
    let files = paths(&["/tmp/a", "/tmp/b"]);
    assert!(album_items(&files, &None, true, None).iter().all(|item| item.as_photo));
    assert!(album_items(&files, &None, false, None).iter().all(|item| !item.as_photo));
}

#[test]
fn more_files_than_telegram_takes_are_refused_before_any_upload() {
    let channel = channel(vec![1], vec![]);
    let files: Vec<String> = (0..=MAX_ALBUM_ITEMS)
        .map(|index| format!("/tmp/{index}.png"))
        .collect();
    let error = channel
        .send_files(&files, None, &FileOptions::default())
        .expect_err("an over-long album must be refused");
    let message = error.to_text();
    // The number has to be in the message: "too many" leaves the agent guessing how many to drop.
    assert!(message.contains("10"), "{message}");
    let most = files[..MAX_ALBUM_ITEMS].to_vec();
    let upload = channel
        .send_files(&most, None, &FileOptions::default())
        .expect("as many as an album takes");
    assert_eq!(upload.items.len(), MAX_ALBUM_ITEMS);
    assert!(channel.check_files(files.len()).is_err());
    assert!(channel.check_files(MAX_ALBUM_ITEMS).is_ok());
}

#[test]
fn an_album_states_its_reply_and_silence_on_the_wire() {
    let channel = channel(vec![1], vec![]);
    let options = FileOptions {
        as_photo: true,
        send: SendOptions {
            reply_to: Some("4471".to_string()),
            silent: true,
            link_preview: false,
        },
    };
    let upload = channel
        .send_files(&paths(&["/tmp/a.png", "/tmp/b.png"]), None, &options)
        .expect("an album");
    assert!(upload.album);
    assert!(upload.silent);
    assert_eq!(upload.reply_to, Some(4471), "the reply target never reached the request");
}

#[test]
fn an_edit_states_the_preview_choice_on_the_wire() {
    let channel = channel(vec![1], vec![]);
    for wanted in [true, false] {
        let edit = channel
            .edit_text("see https://example.com", wanted)
            .expect("one message");
        assert_eq!(
            edit.link_preview.is_disabled, !wanted,
            "an edit asking for link_preview={wanted} did not say so"
        );
        assert_eq!(edit.parse_mode, Some(ParseMode::Html));
    }
}

#[test]
fn the_preview_choice_is_stated_in_both_directions() {
    // The enabled form has to be the empty object, which Telegram reads as its default options.
    let wanted = link_preview(true);
    assert!(!wanted.is_disabled);
    assert_eq!(
        on_the_wire(wanted.is_disabled),
        "{}",
        "the enabled form must be the empty object Telegram reads as default options"
    );

    let refused = link_preview(false);
    assert!(refused.is_disabled);
    assert!(
        on_the_wire(refused.is_disabled).contains("is_disabled"),
        "the disabled form has to actually say so on the wire"
    );
}

/// The options as the Bot API receives them.
fn on_the_wire(is_disabled: bool) -> String {
    let options = teloxide::types::LinkPreviewOptions {
        is_disabled,
        url: None,
        prefer_small_media: false,
        prefer_large_media: false,
        show_above_text: false,
    };
    serde_json::to_string(&options).expect("serialises")
}

#[test]
fn searching_members_by_name_is_refused_with_the_reason() {
    let channel = channel(vec![1], Vec::new());
    let error = channel
        .list_members(Some("dana"), None, &Vec::new(), None, 50)
        .expect_err("Telegram cannot do this");
    let message = error.to_text();
    assert!(message.contains("Bot API has no method"), "got: {message}");
    assert!(
        message.contains("administrators"),
        "the refusal has to name what does work: {message}"
    );
}

#[test]
fn paging_members_is_refused_rather_than_faked() {
    // Accepting a cursor and ignoring it would replay the same first page forever.
    let channel = channel(vec![1], Vec::new());
    let error = channel
        .list_members(None, Some("12345"), &Vec::new(), None, 50)
        .expect_err("Telegram cannot do this");
    assert!(error.to_text().contains("whole"), "got: {}", error.to_text());
    assert!(channel.check_listing(None, None).is_ok());
}

#[test]
fn slowmode_is_refused_rather_than_ignored() {
    let channel = channel(vec![1], Vec::new());
    let error = channel
        .set_chat(&ChatSettings {
            title: None,
            description: None,
            slowmode: Some(Duration::from_secs(30)),
        })
        .expect_err("Telegram cannot do this");
    assert!(
        matches!(error, ChannelError::Unsupported { .. }),
        "got {error:?}"
    );
}

#[test]
fn allowlist_admits_listed_users_in_their_own_chat() {
    let channel = channel(vec![111], vec![]);
    assert_eq!(
        channel.admission(Some(111), 111, true),
        Some(Admission::User)
    );
    assert_eq!(channel.admission(Some(222), 222, true), None);
}

#[test]
fn an_allowlisted_user_is_not_thereby_admitted_in_a_group() {
    let channel = channel(vec![111], vec![]);
    assert_eq!(
        channel.admission(Some(111), -1001234, false),
        None,
        "an individual grant must not reach into an unlisted group"
    );
}

#[test]
fn allowlist_admits_listed_chats_regardless_of_sender() {
    // A group is allowlisted as a whole so every member can talk to the agent in it.
    let channel = channel(vec![], vec![-1001234]);
    assert_eq!(
        channel.admission(Some(999), -1001234, false),
        Some(Admission::Chat)
    );
    assert_eq!(channel.admission(Some(999), -1009999, false), None);
}

#[test]
fn a_listed_user_in_a_listed_group_is_admitted_by_the_group() {
    // Both lists name them, but only one of the two grants reaches a group.
    let channel = channel(vec![111], vec![-1001234]);
    assert_eq!(
        channel.admission(Some(111), -1001234, false),
        Some(Admission::Chat)
    );
    assert_eq!(
        channel.admission(Some(111), 111, true),
        Some(Admission::User),
        "their own chat is still theirs"
    );
}

#[test]
fn allowlist_rejects_anonymous_senders_outside_allowed_chats() {
    let channel = channel(vec![111], vec![]);
    assert_eq!(channel.admission(None, 111, true), None);
}

#[test]
fn empty_allowlist_admits_nobody() {
    // Config rejects this combination, but the channel must fail closed regardless.
    let channel = channel(vec![], vec![]);
    assert_eq!(channel.admission(Some(1), 1, true), None);
    assert_eq!(channel.admission(None, 1, true), None);
}

#[test]
fn an_open_channel_admits_anyone() {
    let channel = configured(vec![], vec![], true);
    assert_eq!(
        channel.admission(Some(999), 999, true),
        Some(Admission::Open)
    );
    assert_eq!(
        channel.admission(None, -100123, false),
        Some(Admission::Open)
    );
}

#[test]
fn an_open_channel_still_names_the_people_it_knows() {
    // Someone on the user list is still reported as vetted.
    let channel = configured(vec![111], vec![-1001234], true);
    assert_eq!(
        channel.admission(Some(111), 111, true),
        Some(Admission::User)
    );
    assert_eq!(
        channel.admission(Some(222), -1001234, false),
        Some(Admission::Chat)
    );
    assert_eq!(
        channel.admission(Some(222), 222, true),
        Some(Admission::Open)
    );
    // Open is what carries them in a group now, not the user list, and the agent is told so.
    assert_eq!(
        channel.admission(Some(111), -1009999, false),
        Some(Admission::Open)
    );
}

#[test]
fn the_client_outlasts_the_long_poll_it_carries() {
    // The HTTP client's own default stops at 17 seconds and does not extend itself for the poll
    // timeout, so anything at or above that would abort every quiet poll.
    assert!(
        POLL_RESPONSE_MARGIN_SECS > 0,
        "the client timeout must exceed the poll timeout, not merely equal it"
    );
    let shipped = default_poll_timeout();
    let timeout = client_timeout(&shipped);
    assert!(
        timeout.as_secs() > 17,
        "the shipped poll timeout of {} plus the margin must clear 17 s",
        shipped.to_debug()
    );
    assert_eq!(timeout.as_secs(), shipped.as_secs() + POLL_RESPONSE_MARGIN_SECS);
}

#[test]
fn conversation_targets_parse_chat_and_thread() {
    let channel = channel(vec![1], vec![]);
    let conversation = ConversationId::parse("telegram:-1001234:77").expect("valid");
    let (chat, thread) = channel.target(&conversation).expect("resolves");
    assert_eq!(chat, -1001234);
    assert_eq!(thread, Some(77));
}

#[test]
fn conversation_targets_without_a_thread_resolve_to_the_chat() {
    let channel = channel(vec![1], vec![]);
    let conversation = ConversationId::parse("telegram:42").expect("valid");
    let (chat, thread) = channel.target(&conversation).expect("resolves");
    assert_eq!(chat, 42);
    assert_eq!(thread, None);
}

#[test]
fn non_numeric_chat_segments_are_rejected() {
    let channel = channel(vec![1], vec![]);
    let conversation = ConversationId::parse("telegram:not-a-number").expect("parses");
    let error = channel.target(&conversation).expect_err("must be rejected");
    assert!(error.to_text().contains("Telegram chat id"));
    let conversation = ConversationId::parse("telegram:42:general").expect("parses");
    let error = channel.target(&conversation).expect_err("must be rejected");
    assert!(error.to_text().contains("Telegram topic id"));
}

/// A channel that knows who it is, which is what `addressed` needs.
fn identified() -> TelegramChannel {
    let mut channel = channel(vec![], vec![-1001234]);
    channel.identify(BotIdentity {
        id: 4242,
        username: Some("mekabot".to_string()),
    });
    channel
}

#[test]
fn who_the_bot_is_stays_once_it_is_known() {
    let mut channel = identified();
    channel.identify(BotIdentity {
        id: 1,
        username: Some("somebodyelse".to_string()),
    });
    let aimed = |text: &str, length: usize| {
        group_message(text, vec![entity(EntityKind::Mention, 0, length)])
    };
    assert!(channel.addressed(&aimed("@mekabot hello", 8)));
    assert!(!channel.addressed(&aimed("@somebodyelse hello", 13)));
}

#[test]
fn entities_that_decide_nothing_need_not_fit_their_text() {
    // A direct message is aimed at the bot whatever it says, so nothing is read out of its text.
    let message = Message {
        entities: vec![entity(EntityKind::Mention, 3, 900)],
        ..private_message("hello")
    };
    let mut open = channel(vec![111], vec![]);
    open.identify(BotIdentity { id: 4242, username: Some("mekabot".to_string()) });
    let event = open.to_event(&message).expect("an admitted message");
    let InboundEvent::Message(event) = event else {
        panic!("a message becomes a message");
    };
    assert!(event.addressed);
    assert_eq!(event.text, "hello");
}

fn user(id: u64, is_bot: bool, first_name: &str) -> User {
    User {
        id,
        first_name: first_name.to_string(),
        last_name: None,
        username: None,
        is_bot,
    }
}

fn message(chat: Chat, from: Option<User>) -> Message {
    Message {
        id: 42,
        chat,
        thread_id: None,
        is_topic_message: false,
        from,
        sender_chat: None,
        via_bot: None,
        reply_to: None,
        text: None,
        entities: Vec::new(),
        caption: None,
        caption_entities: Vec::new(),
        forward_origin: None,
        media_group_id: None,
        kind: MessageKind::Common(MediaKind::Text),
        date: 1_754_899_200 * SECOND,
        edit_date: None,
    }
}

fn group_message(text: &str, entities: Vec<Entity>) -> Message {
    Message {
        text: Some(text.to_string()),
        entities,
        ..message(
            Chat {
                id: -1001234,
                shape: ChatShape::Supergroup,
                title: Some("Ops".to_string()),
            },
            Some(user(111, false, "Alice")),
        )
    }
}

fn entity(kind: EntityKind, offset: usize, length: usize) -> Entity {
    Entity { kind, offset, length }
}

#[test]
fn a_username_mention_addresses_the_bot() {
    let channel = identified();
    let message = group_message(
        "@mekabot what do you think?",
        vec![entity(EntityKind::Mention, 0, 8)],
    );
    assert!(channel.addressed(&message));
}

#[test]
fn a_username_mention_is_matched_case_insensitively() {
    let channel = identified();
    let message = group_message("@MekaBot ping", vec![entity(EntityKind::Mention, 0, 8)]);
    assert!(channel.addressed(&message));
}

#[test]
fn somebody_elses_mention_does_not_address_the_bot() {
    let channel = identified();
    let message = group_message(
        "@otherbot are you there?",
        vec![entity(EntityKind::Mention, 0, 9)],
    );
    assert!(!channel.addressed(&message));
}

#[test]
fn the_bots_name_as_ordinary_words_does_not_address_it() {
    // Only spans Telegram itself marked as a mention are read, so this has no entities at all.
    let channel = identified();
    let message = group_message("mekabot keeps answering things nobody asked it", Vec::new());
    assert!(!channel.addressed(&message));
}

#[test]
fn a_text_mention_addresses_the_bot_by_id() {
    let channel = identified();
    let message = group_message(
        "look at this",
        vec![entity(EntityKind::TextMention { user: 4242 }, 0, 4)],
    );
    assert!(channel.addressed(&message));

    let someone_else = group_message(
        "look at this",
        vec![entity(EntityKind::TextMention { user: 999 }, 0, 4)],
    );
    assert!(!channel.addressed(&someone_else));
}

fn replied(from: User, text: &str) -> Option<Replied> {
    Some(Replied {
        id: 41,
        from: Some(from),
        text: Some(text.to_string()),
        caption: None,
    })
}

#[test]
fn replying_to_the_bot_addresses_it() {
    let channel = identified();
    let message = Message {
        reply_to: replied(user(4242, true, "Mica"), "here you go"),
        ..group_message("no, the other one", Vec::new())
    };
    assert!(channel.addressed(&message));
}

#[test]
fn replying_to_somebody_else_does_not_address_the_bot() {
    let channel = identified();
    let message = Message {
        reply_to: replied(user(999, false, "Bob"), "we should ship it"),
        ..group_message("agreed", Vec::new())
    };
    assert!(!channel.addressed(&message));
}

#[test]
fn a_command_aimed_at_the_bot_addresses_it_but_a_bare_one_does_not() {
    let channel = identified();
    let targeted = group_message(
        "/status@mekabot",
        vec![entity(EntityKind::BotCommand, 0, 15)],
    );
    assert!(channel.addressed(&targeted));

    // Ambiguous in a group with several bots.
    let bare = group_message("/status", vec![entity(EntityKind::BotCommand, 0, 7)]);
    assert!(!channel.addressed(&bare));
}

#[test]
fn a_mention_in_a_caption_addresses_the_bot() {
    // A media message carries caption entities rather than text entities.
    let channel = identified();
    let message = Message {
        text: None,
        caption: Some("@mekabot what is this?".to_string()),
        caption_entities: vec![entity(EntityKind::Mention, 0, 8)],
        kind: MessageKind::Common(MediaKind::Photo {
            sizes: vec![photo("AgACAgEAAx", 2048, 90, 60)],
        }),
        ..group_message("", Vec::new())
    };
    assert!(channel.addressed(&message));
}

#[test]
fn every_message_in_a_private_chat_addresses_the_bot() {
    // Nobody else is there, so requiring a mention would silence the agent against the only person
    // talking to it.
    let channel = identified();
    assert!(channel.addressed(&private_message("are you around?")));
}

#[test]
fn a_group_message_is_not_addressed_when_the_identity_is_unknown() {
    // Failing closed keeps a muted group quiet rather than waking the agent for everything.
    let channel = channel(vec![], vec![-1001234]);
    let message = group_message("@mekabot hello", vec![entity(EntityKind::Mention, 0, 8)]);
    assert!(!channel.addressed(&message));
}

#[test]
fn entity_offsets_count_utf16_code_units() {
    // The emoji takes up two code units and one character.
    let channel = identified();
    let message = group_message(
        "\u{1f600} @mekabot",
        vec![entity(EntityKind::Mention, 3, 8)],
    );
    assert!(channel.addressed(&message));
    let message = group_message(
        "\u{1f600} @mekabots",
        vec![entity(EntityKind::Mention, 3, 9)],
    );
    assert!(!channel.addressed(&message));
}

#[test]
fn using_the_bots_inline_mode_addresses_it() {
    let channel = identified();
    let message = Message {
        via_bot: Some(4242),
        ..group_message("picked", Vec::new())
    };
    assert!(channel.addressed(&message));
}

#[test]
fn a_restriction_telegram_would_make_permanent_is_rejected() {
    // Telegram accepts an out-of-range end and silently treats it as forever.
    let too_short = clamp_until("telegram", NOW + 10 * SECOND, NOW)
        .expect_err("under the floor must be rejected");
    assert!(too_short.to_text().contains("permanent"), "{}", too_short.to_text());

    let too_long = clamp_until("telegram", NOW + 400 * 86_400 * SECOND, NOW)
        .expect_err("over the ceiling must be rejected");
    assert!(too_long.to_text().contains("permanent"), "{}", too_long.to_text());
}

#[test]
fn a_restriction_inside_telegrams_window_is_accepted() {
    let until = NOW + 3600 * SECOND;
    assert_eq!(
        clamp_until("telegram", until, NOW).expect("an hour is in range"),
        until
    );
    // Both ends of the window belong to it.
    assert!(clamp_until("telegram", NOW + 30 * SECOND, NOW).is_ok());
    assert!(clamp_until("telegram", NOW + 366 * 86_400 * SECOND, NOW).is_ok());
}

#[test]
fn an_edit_that_renders_to_nothing_says_so_rather_than_blaming_length() {
    let channel = channel(vec![1], vec![]);
    let error = channel
        .edit_text("   ", false)
        .expect_err("an empty revision must be refused");
    let message = error.to_text();
    assert!(message.contains("renders to nothing"), "{message}");
    assert!(message.contains("delete_message"), "{message}");
    let error = channel
        .edit_text(&"word ".repeat(3000), false)
        .expect_err("a long revision must be refused");
    assert!(error.to_text().contains("too long for one message"), "{}", error.to_text());
}

#[test]
fn a_duration_only_applies_where_it_means_something() {
    assert!(MemberAction::Restrict.accepts_duration());
    assert!(MemberAction::Ban.accepts_duration());
    // Telegram takes an end on neither of these, so accepting one would be a promise the platform
    // never made.
    assert!(!MemberAction::Unban.accepts_duration());
    assert!(!MemberAction::Unrestrict.accepts_duration());
    assert!(!MemberAction::Kick.accepts_duration());
}

#[test]
fn an_owner_holds_every_right_without_them_being_listed() {
    let kind = ChatMemberKind::Owner;
    let rights = member_rights(&kind);
    assert_eq!(member_status(&kind), MemberStatus::Owner);
    for right in [
        MemberRight::DeleteMessages,
        MemberRight::RestrictMembers,
        MemberRight::PinMessages,
        MemberRight::ChangeInfo,
        MemberRight::InviteUsers,
    ] {
        assert!(rights.contains(&right), "an owner must hold {right:?}");
    }
}

const GIVEN: Administrator = Administrator {
    can_manage_chat: true,
    can_delete_messages: true,
    can_restrict_members: true,
    can_promote_members: false,
    can_pin_messages: false,
    can_change_info: false,
    can_invite_users: true,
    can_manage_topics: false,
    can_manage_video_chats: false,
};

#[test]
fn an_administrator_reports_only_the_rights_it_was_given() {
    let kind = ChatMemberKind::Administrator(GIVEN);
    let rights = member_rights(&kind);
    assert_eq!(member_status(&kind), MemberStatus::Administrator);
    assert!(rights.contains(&MemberRight::RestrictMembers));
    assert!(rights.contains(&MemberRight::InviteUsers));
    assert!(!rights.contains(&MemberRight::PinMessages));
    assert!(!rights.contains(&MemberRight::PromoteMembers));
}

#[test]
fn an_ordinary_member_holds_nothing() {
    assert_eq!(member_status(&ChatMemberKind::Member), MemberStatus::Member);
    assert!(member_rights(&ChatMemberKind::Member).is_empty());
}

#[test]
fn rights_survive_being_set_and_read_back() {
    let rights = member_rights(&ChatMemberKind::Administrator(GIVEN));
    assert_eq!(set_member_rights(&rights), GIVEN);
    let nothing = set_member_rights(&Vec::new());
    assert!(member_rights(&ChatMemberKind::Administrator(nothing)).is_empty());
}

#[test]
fn an_anonymous_sender_cannot_be_moderated() {
    // Anonymous admins and channel posts arrive with an empty sender id.
    let channel = channel(vec![1], vec![]);
    let error = channel.user_id("").expect_err("must be rejected");
    assert!(error.to_text().contains("Anonymous"), "{}", error.to_text());
    assert_eq!(channel.user_id(" 42 ").expect("a number"), 42);
}

#[test]
fn a_message_id_is_a_number() {
    let channel = channel(vec![1], vec![]);
    assert_eq!(channel.message_id(" 4471\n").expect("a number"), 4471);
    let error = channel.message_id("latest").expect_err("must be rejected");
    assert!(error.to_text().contains("`message:` line"), "{}", error.to_text());
}

#[test]
fn truncate_appends_an_ellipsis_only_when_cutting() {
    assert_eq!(truncate("short", 10), "short");
    assert_eq!(truncate("abcdefghij", 5), "abcde…");
    // Character-based, so multibyte text is not cut mid-codepoint.
    assert_eq!(truncate("日本語テキスト", 3), "日本語…");
}

fn private_chat() -> Chat {
    Chat {
        id: 111,
        shape: ChatShape::Private,
        title: None,
    }
}

fn alice() -> User {
    User {
        username: Some("alice".to_string()),
        ..user(111, false, "Alice")
    }
}

fn private_message(text: &str) -> Message {
    Message {
        id: 4471,
        date: NOW,
        text: Some(text.to_string()),
        ..message(private_chat(), Some(alice()))
    }
}

fn private_media(media: MediaKind) -> Message {
    Message {
        text: None,
        kind: MessageKind::Common(media),
        ..private_message("")
    }
}

fn photo(id: &str, size: u32, width: u32, height: u32) -> PhotoSize {
    PhotoSize {
        file: file(id, size),
        width,
        height,
    }
}

fn file(id: &str, size: u32) -> FileMeta {
    FileMeta {
        id: id.to_string(),
        size,
    }
}

fn inbound(event: InboundEvent) -> InboundMessage {
    let InboundEvent::Message(message) = event else {
        panic!("a Telegram message never produces a retraction");
    };
    *message
}

#[test]
fn a_plain_message_carries_its_own_id() {
    let channel = channel(vec![111], vec![]);
    let event = channel
        .to_event(&private_message("hello"))
        .expect("allowlisted message becomes an event");
    let message = inbound(event);
    assert_eq!(message.message_id, "4471");
    assert_eq!(message.external_id, "4471");
    assert_eq!(message.admission, Admission::User);
    assert!(!message.sender.is_bot);
    assert!(!message.sender.on_behalf_of_chat);
    assert_eq!(message.chat_kind, ChatKind::Direct);
    assert_eq!(message.conversation.as_str(), "telegram:111");
    assert_eq!(message.text, "hello");
}

fn edited(text: &str, at: i128) -> Message {
    Message {
        edit_date: Some(at * SECOND),
        ..private_message(text)
    }
}

#[test]
fn an_edit_gets_a_distinct_queue_key_but_keeps_its_message_id() {
    // An edit reuses the original's message id, so keying the queue on it would send every edit into
    // the duplicate check.
    let channel = channel(vec![111], vec![]);
    let event = channel
        .to_event(&edited("meet at 6", 1_754_400_600))
        .expect("edits reach the agent");
    let message = inbound(event);
    assert_eq!(message.message_id, "4471");
    assert_eq!(message.external_id, "4471:e1754400600");
    assert!(message.edited_at.is_some());
}

#[test]
fn a_second_edit_of_one_message_is_not_deduplicated_against_the_first() {
    let channel = channel(vec![111], vec![]);
    let first = inbound(
        channel
            .to_event(&edited("meet at 6", 1_754_400_600))
            .expect("first edit"),
    );
    let second = inbound(
        channel
            .to_event(&edited("meet at 7", 1_754_400_900))
            .expect("second edit"),
    );
    assert_ne!(first.external_id, second.external_id);
}

#[test]
fn a_forwarded_message_names_its_original_author() {
    let channel = channel(vec![111], vec![]);
    let event = channel
        .to_event(&Message {
            forward_origin: Some(MessageOrigin::User {
                sender: User {
                    username: Some("bob".to_string()),
                    ..user(999, false, "Bob")
                },
            }),
            ..private_message("run this script")
        })
        .expect("event");
    let Some(ForwardOrigin::User { name, id, username }) = inbound(event).forwarded_from else {
        panic!("the author is known");
    };
    assert_eq!(name, "Bob");
    assert_eq!(id.as_deref(), Some("999"));
    assert_eq!(username.as_deref(), Some("bob"));
}

#[test]
fn a_hidden_forward_origin_is_preserved_rather_than_dropped() {
    let channel = channel(vec![111], vec![]);
    let event = channel
        .to_event(&Message {
            forward_origin: Some(MessageOrigin::HiddenUser {
                name: "Carol".to_string(),
            }),
            ..private_message("see this")
        })
        .expect("event");
    let Some(ForwardOrigin::HiddenUser { name }) = inbound(event).forwarded_from else {
        panic!("the author is hidden");
    };
    assert_eq!(name, "Carol");
}

fn crew() -> Chat {
    Chat {
        id: -1001234,
        shape: ChatShape::Supergroup,
        title: Some("Deploy Crew".to_string()),
    }
}

#[test]
fn an_anonymous_admin_is_marked_as_posting_for_the_chat() {
    // No author, so the display name falls back to the chat title. Without the flag that reads as an
    // ordinary person called "Deploy Crew".
    let channel = channel(vec![], vec![-1001234]);
    let event = channel
        .to_event(&Message {
            id: 12,
            sender_chat: Some("Deploy Crew".to_string()),
            text: Some("ship it".to_string()),
            ..message(crew(), None)
        })
        .expect("event");
    let message = inbound(event);
    assert!(message.sender.on_behalf_of_chat);
    assert_eq!(message.sender.display_name, "Deploy Crew");
    assert!(message.sender.id.is_empty());
    assert_eq!(message.admission, Admission::Chat);
}

#[test]
fn a_bot_sender_is_flagged() {
    let channel = channel(vec![], vec![-1001234]);
    let event = channel
        .to_event(&Message {
            id: 13,
            text: Some("it is raining".to_string()),
            ..message(
                crew(),
                Some(User {
                    username: Some("weatherbot".to_string()),
                    ..user(555, true, "WeatherBot")
                }),
            )
        })
        .expect("event");
    assert!(inbound(event).sender.is_bot);
}

#[test]
fn a_caption_less_gif_still_reaches_the_agent() {
    let channel = channel(vec![111], vec![]);
    let event = channel
        .to_event(&private_media(MediaKind::Animation {
            file: file("CgACgif", 51200),
            file_name: None,
            mime_type: Some("video/mp4".to_string()),
            width: 320,
            height: 240,
            duration: 3,
            thumbnail: Some(photo("AAMCthumb", 900, 90, 68)),
        }))
        .expect("a GIF must produce an event");
    let message = inbound(event);
    assert_eq!(message.attachments.len(), 1);
    assert_eq!(message.attachments[0].kind, AttachmentKind::Animation);
    assert_eq!(message.attachments[0].file_ref, "CgACgif");
    assert_eq!(
        message.attachments[0].thumb_ref.as_deref(),
        Some("AAMCthumb"),
        "the still frame is what makes an animation viewable without transcoding"
    );
}

#[test]
fn a_video_note_is_recognised_rather_than_dropped() {
    let channel = channel(vec![111], vec![]);
    let event = channel
        .to_event(&private_media(MediaKind::VideoNote {
            file: file("DQACnote", 40960),
            side: 240,
            duration: 5,
            thumbnail: None,
        }))
        .expect("a video note must produce an event");
    let message = inbound(event);
    assert_eq!(message.attachments[0].kind, AttachmentKind::VideoNote);
    assert_eq!(message.attachments[0].width, Some(240));
    assert_eq!(message.attachments[0].height, Some(240));
}

#[test]
fn a_video_carries_the_still_telegram_already_generated() {
    let channel = channel(vec![111], vec![]);
    let event = channel
        .to_event(&private_media(MediaKind::Video {
            file: file("BAACvideo", 88_000_000),
            file_name: None,
            mime_type: Some("video/mp4".to_string()),
            width: 1920,
            height: 1080,
            duration: 30,
            thumbnail: Some(photo("AAMCvthumb", 1200, 320, 180)),
        }))
        .expect("event");
    let message = inbound(event);
    assert_eq!(message.attachments[0].kind, AttachmentKind::Video);
    // For a phone video the thumbnail is often the only thing that can be retrieved at all.
    assert_eq!(
        message.attachments[0].thumb_ref.as_deref(),
        Some("AAMCvthumb")
    );
    assert_eq!(message.attachments[0].width, Some(1920));
    assert_eq!(message.attachments[0].height, Some(1080));
    assert_eq!(message.attachments[0].duration_secs, Some(30));
}

#[test]
fn a_voice_note_says_how_long_it_is() {
    // A nine-second note and a nine-minute one are answered differently.
    let channel = channel(vec![111], vec![]);
    let event = channel
        .to_event(&private_media(MediaKind::Voice {
            file: file("AWADvoice", 4200),
            mime_type: Some("audio/ogg".to_string()),
            duration: 9,
        }))
        .expect("event");
    let message = inbound(event);
    assert_eq!(message.attachments[0].kind, AttachmentKind::Voice);
    assert_eq!(message.attachments[0].duration_secs, Some(9));
    assert_eq!(message.attachments[0].width, None);
    assert_eq!(message.attachments[0].height, None);
}

#[test]
fn a_shared_location_becomes_a_note_instead_of_disappearing() {
    let channel = channel(vec![111], vec![]);
    let event = channel
        .to_event(&private_media(MediaKind::Location {
            latitude: 51.5074_f64.to_string(),
            longitude: (-0.1278_f64).to_string(),
            live: false,
        }))
        .expect("a location must produce an event");
    let message = inbound(event);
    assert!(message.attachments.is_empty());
    assert_eq!(message.notes, vec!["location: 51.5074, -0.1278"]);
}

#[test]
fn a_contact_card_becomes_a_note() {
    let channel = channel(vec![111], vec![]);
    let event = channel
        .to_event(&private_media(MediaKind::Contact {
            phone_number: "+15551234567".to_string(),
            first_name: "Bob".to_string(),
            last_name: Some("Smith".to_string()),
        }))
        .expect("event");
    let message = inbound(event);
    assert_eq!(
        message.notes,
        vec!["contact card: Bob Smith, phone +15551234567"]
    );
}

#[test]
fn a_photo_takes_the_largest_resolution_offered() {
    let channel = channel(vec![111], vec![]);
    let event = channel
        .to_event(&private_media(MediaKind::Photo {
            sizes: vec![photo("small", 1000, 90, 60), photo("large", 90000, 1280, 853)],
        }))
        .expect("event");
    let message = inbound(event);
    assert_eq!(message.attachments[0].file_ref, "large");
    assert_eq!(
        message.attachments[0].media_type.as_deref(),
        Some("image/jpeg")
    );
}

#[test]
fn album_members_carry_the_group_they_belong_to() {
    let channel = channel(vec![111], vec![]);
    let event = channel
        .to_event(&Message {
            media_group_id: Some("13294839284".to_string()),
            ..private_media(MediaKind::Photo {
                sizes: vec![photo("one", 9000, 800, 600)],
            })
        })
        .expect("event");
    assert_eq!(inbound(event).group_id.as_deref(), Some("13294839284"));
}

#[test]
fn a_media_type_this_build_cannot_render_is_announced_rather_than_dropped() {
    // A game carries no file and no caption.
    let channel = channel(vec![111], vec![]);
    let event = channel
        .to_event(&private_media(MediaKind::Game))
        .expect("unrenderable content must still reach the agent");
    let message = inbound(event);
    assert!(message.attachments.is_empty());
    assert_eq!(message.notes, vec!["a game"]);
}

#[test]
fn a_service_message_with_nothing_to_act_on_is_still_ignored() {
    // Joins and pins genuinely carry nothing.
    let channel = channel(vec![], vec![-1001234]);
    assert!(channel
        .to_event(&Message {
            id: 20,
            kind: MessageKind::Service,
            ..message(crew(), Some(user(111, false, "Alice")))
        })
        .is_none());
}

#[test]
fn messages_from_outside_the_allowlist_produce_no_event() {
    let channel = channel(vec![222], vec![]);
    assert!(channel.to_event(&private_message("let me in")).is_none());
}

#[test]
fn activities_map_to_the_action_for_what_is_arriving() {
    // A file upload showing "typing" would describe the wrong thing entirely.
    assert_eq!(chat_action(Activity::Typing), ChatAction::Typing);
    assert_eq!(chat_action(Activity::SendingPhoto), ChatAction::UploadPhoto);
    assert_eq!(
        chat_action(Activity::SendingFile),
        ChatAction::UploadDocument
    );
}

#[test]
fn plain_parse_mode_sends_markdown_verbatim() {
    let mut channel = channel(vec![1], vec![]);
    channel.parse_mode = TelegramParseMode::Verbatim;
    let (bodies, parse_mode) = channel.render("**bold**", MESSAGE_LIMIT);
    assert_eq!(bodies, vec!["**bold**"]);
    assert!(parse_mode.is_none());
}

#[test]
fn html_parse_mode_renders_and_declares_html() {
    let channel = channel(vec![1], vec![]);
    let (bodies, parse_mode) = channel.render("**bold**", MESSAGE_LIMIT);
    assert_eq!(bodies, vec!["<b>bold</b>"]);
    assert_eq!(parse_mode, Some(ParseMode::Html));
}

#[test]
fn verbatim_text_splits_within_the_limit() {
    let mut channel = channel(vec![1], vec![]);
    channel.parse_mode = TelegramParseMode::Verbatim;
    let (bodies, _) = channel.render(&"**word** ".repeat(2000), MESSAGE_LIMIT);
    assert!(bodies.len() > 1);
    for body in &bodies {
        assert!(body.chars().map(char::len_utf16).sum::<usize>() <= MESSAGE_LIMIT);
    }
    let (bodies, _) = channel.render(" \n ", MESSAGE_LIMIT);
    assert!(bodies.is_empty());
}

#[test]
fn only_the_first_part_of_a_long_answer_quotes() {
    let channel = channel(vec![1], vec![]);
    let options = SendOptions {
        reply_to: Some("7".to_string()),
        silent: true,
        link_preview: true,
    };
    let posts = channel.send_text(&"word ".repeat(3000), &options);
    assert!(posts.len() > 1);
    assert_eq!(posts[0].reply_to, Some(7));
    assert!(posts[1..].iter().all(|post| post.reply_to.is_none()));
    assert!(posts.iter().all(|post| post.silent && !post.link_preview.is_disabled));
    // What is no message id quotes nothing.
    let options = SendOptions {
        reply_to: Some("latest".to_string()),
        ..plain_options()
    };
    assert_eq!(channel.send_text("hi", &options)[0].reply_to, None);
    assert!(channel.send_text("", &plain_options()).is_empty());
}

#[test]
fn files_are_refused_for_what_is_wrong_with_them() {
    let channel = channel(vec![1], vec![]);
    let options = FileOptions {
        as_photo: false,
        send: plain_options(),
    };
    let one = paths(&["/tmp/a.txt"]);
    let upload = channel.send_files(&one, Some("**hi**"), &options).expect("one file");
    assert!(!upload.album);
    assert_eq!(upload.items[0].caption.as_deref(), Some("<b>hi</b>"));
    let error = channel
        .send_files(&one, Some(&"word ".repeat(500)), &options)
        .expect_err("the caption does not fit");
    assert!(error.to_text().contains("1024"), "{}", error.to_text());
    let error = channel.send_files(&Vec::new(), None, &options).expect_err("nothing to send");
    assert!(error.to_text().contains("no files were given"), "{}", error.to_text());
    let misquoted = FileOptions {
        as_photo: false,
        send: SendOptions {
            reply_to: Some("x".to_string()),
            ..plain_options()
        },
    };
    let error = channel.send_files(&one, None, &misquoted).expect_err("no message id");
    assert!(error.to_text().contains("message id"), "{}", error.to_text());
}

#[test]
fn a_partial_send_says_which_part_was_refused() {
    let channel = channel(vec![1], vec![]);
    let failure = channel.part_failed(1, 3, "Too Many Requests");
    assert!(
        failure.to_text().contains("part 2 of 3 failed: Too Many Requests"),
        "{}",
        failure.to_text()
    );
}

#[test]
fn a_file_is_typed_by_its_extension() {
    assert_eq!(media_type_for_extension("JPG").as_deref(), Some("image/jpeg"));
    assert_eq!(media_type_for_extension("webp").as_deref(), Some("image/webp"));
    assert_eq!(media_type_for_extension("pdf"), None);
    let (extension, media_type) = file_type("photos/file_7.png");
    assert_eq!(extension.as_deref(), Some("png"));
    assert_eq!(media_type.as_deref(), Some("image/png"));
    assert_eq!(file_type("photos/file"), (None, None));
    let channel = channel(vec![1], vec![]);
    assert!(channel.check_size(10, 10).is_ok());
    let error = channel.check_size(11, 10).expect_err("too large");
    assert!(error.to_text().contains("11 bytes"), "{}", error.to_text());
}

#[test]
fn a_kick_is_told_apart_from_a_ban() {
    let channel = channel(vec![1], vec![]);
    assert_eq!(
        channel.moderate_member(MemberAction::Kick, None, true, NOW).expect("accepted"),
        Moderation::Kick { revoke_messages: true }
    );
    let until = NOW + 3600 * SECOND;
    assert_eq!(
        channel.moderate_member(MemberAction::Ban, Some(until), false, NOW).expect("accepted"),
        Moderation::Ban { until: Some(until), revoke_messages: false }
    );
    assert!(channel
        .moderate_member(MemberAction::Restrict, Some(NOW), false, NOW)
        .is_err());
    assert!(channel.kick_unfinished("nope").to_text().contains("`unban` action"));
}

#[test]
fn administrators_are_listed_whole_or_not_at_all() {
    let channel = channel(vec![1], vec![]);
    let administrators = vec![
        ChatMember { user: alice(), kind: ChatMemberKind::Owner },
        ChatMember { user: user(7, true, "Mica"), kind: ChatMemberKind::Administrator(GIVEN) },
    ];
    let listing =
        channel.list_members(None, None, &administrators, Some(40), 2).expect("both fit");
    assert_eq!(listing.coverage, MemberCoverage::Administrators);
    assert_eq!(listing.members[1].user_id, "7");
    assert_eq!(listing.total, Some(40));
    assert!(channel.list_members(None, None, &administrators, None, 1).is_err());
}

#[test]
fn a_restriction_that_has_ended_is_not_reported() {
    let channel = channel(vec![1], vec![]);
    let member = |until: Option<i128>| ChatMember {
        user: alice(),
        kind: ChatMemberKind::Restricted { until },
    };
    let info = channel.member(111, &member(Some(NOW + 1)), NOW);
    assert_eq!(info.restricted_until, Some(NOW + 1));
    assert_eq!(info.status, MemberStatus::Restricted);
    assert_eq!(channel.member(111, &member(Some(NOW)), NOW).restricted_until, None);
    assert_eq!(channel.member(111, &member(None), NOW).restricted_until, None);
}

#[test]
fn a_conversation_is_named_by_whatever_names_it() {
    let channel = channel(vec![1], vec![]);
    let conversation = ConversationId::parse("telegram:111:5").expect("valid");
    let chat = private_chat();
    let username = Some("alice".to_string());
    let info = channel.describe_conversation(&conversation, &chat, &None, &username);
    assert_eq!(info.title.as_deref(), Some("@alice"));
    assert_eq!(info.kind, ChatKind::Direct);
    assert_eq!(info.id.as_str(), "telegram:111:5");
    let first = Some("Alice".to_string());
    let info = channel.describe_conversation(&conversation, &chat, &first, &username);
    assert_eq!(info.title.as_deref(), Some("Alice"));
    let info = channel.describe_conversation(&conversation, &crew(), &None, &None);
    assert_eq!(info.title.as_deref(), Some("Deploy Crew"));
}

#[test]
fn a_sent_message_is_recorded_as_telegram_stored_it() {
    let sent = sent_message(&Message {
        text: None,
        caption: Some("a caption".to_string()),
        ..private_media(MediaKind::Sticker {
            file: file("CAACsticker", 900),
            width: 512,
            height: 512,
            format: StickerFormat::Video,
            emoji: Some("\u{1f389}".to_string()),
            thumbnail: Some(photo("AAMCstill", 90, 128, 128)),
        })
    });
    assert_eq!(sent.text, "a caption");
    assert_eq!(sent.attachments[0].thumb_ref.as_deref(), Some("AAMCstill"));
    assert_eq!(sent.attachments[0].media_type, None);
    assert_eq!(sent.notes, vec!["sticker \u{1f389}"]);
    assert_eq!(sent.sender.id, "111");
}

#[test]
fn content_without_a_file_is_described() {
    let channel = channel(vec![111], vec![]);
    let notes = |kind: MessageKind| {
        inbound(
            channel
                .to_event(&Message { text: None, kind, ..private_message("") })
                .expect("event"),
        )
        .notes
    };
    assert_eq!(
        notes(MessageKind::Dice { emoji: DiceEmoji::SlotMachine, value: 64 }),
        vec!["dice roll: SlotMachine showing 64"]
    );
    assert_eq!(
        notes(MessageKind::Common(MediaKind::Venue {
            title: "The \"Bell\"".to_string(),
            address: "High St".to_string(),
            latitude: "1.5".to_string(),
            longitude: "2".to_string(),
        })),
        vec!["venue: \"The \\\"Bell\\\"\" at \"High St\" (1.5, 2)"]
    );
    assert_eq!(
        notes(MessageKind::Common(MediaKind::Poll {
            question: "Tea?".to_string(),
            options: vec!["yes".to_string(), "no".to_string()],
        })),
        vec!["poll: \"Tea?\" with options yes, no"]
    );
}

#[test]
fn an_edit_is_handled_like_a_message_and_a_membership_change_is_not() {
    let channel = channel(vec![111], vec![-5]);
    assert!(channel.handle(&Update::Message(private_message("hi"))).is_some());
    assert!(channel
        .handle(&Update::EditedMessage(edited("hi", 1_754_400_600)))
        .is_some());
    let joined = Update::MyChatMember { chat_id: -7, title: None, present: true };
    assert!(channel.handle(&joined).is_none());
    assert!(channel.handle(&Update::Other).is_none());
    let (warned, note) = channel.note_membership_change(-7, &None, true);
    assert!(warned);
    assert!(note.contains("Add -7 to"), "{note}");
    let (warned, _) = channel.note_membership_change(-5, &None, true);
    assert!(!warned);
    let (warned, note) = channel.note_membership_change(-5, &Some("Ops".to_string()), false);
    assert!(!warned);
    assert_eq!(note, "removed from \"Ops\"");
}

#[test]
fn a_forum_topic_is_a_thread_of_its_chat() {
    let channel = channel(vec![], vec![-1001234]);
    let topic = |is_topic_message: bool| {
        inbound(
            channel
                .to_event(&Message {
                    thread_id: Some(9),
                    is_topic_message,
                    ..group_message("hi", Vec::new())
                })
                .expect("event"),
        )
        .conversation
    };
    assert_eq!(topic(true).as_str(), "telegram:-1001234:9");
    assert_eq!(topic(false).as_str(), "telegram:-1001234");
}

#[test]
fn a_reply_quotes_at_most_an_excerpt() {
    let channel = channel(vec![111], vec![]);
    let event = channel
        .to_event(&Message {
            reply_to: replied(user(9, false, "Bob"), &"x".repeat(200)),
            ..private_message("yes")
        })
        .expect("event");
    let reply = inbound(event).reply_to.expect("a reply");
    assert_eq!(reply.message_id, "41");
    assert_eq!(reply.sender_name.as_deref(), Some("Bob"));
    assert_eq!(reply.excerpt.expect("an excerpt").chars().count(), 161);
}

#[test]
fn what_telegram_cannot_do_is_not_offered() {
    let capabilities = channel(vec![1], vec![]).capabilities();
    assert!(capabilities.admin && capabilities.member_rights);
    assert!(!capabilities.presence && !capabilities.typing_status && !capabilities.member_roles);
}

#[test]
fn lifting_a_restriction_leaves_what_the_chat_allows() {
    assert_eq!(lifted_permissions(Some(5), 1023), 5);
    assert_eq!(lifted_permissions(None, 1023), 1023);
}
