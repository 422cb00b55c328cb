//! What the operator subcommands decide and print.

use mekabridge::channel::ids::ConversationId;
use mekabridge::channel::{ChannelError, ChatKind, ConversationInfo, Platform};
use mekabridge::cli::commands::{
    assess_owner_conversation, assess_readiness, cancel, config_init, conversations_list,
    describe_age, history_show, level_meka_will_not_create, moderation_reach, owner_question,
    permission_problem, policy_clear, policy_list, policy_set, policy_set_line, policy_span,
    queue_clear, queue_list, session_reset, session_reset_lines, session_show, unseen_exit,
    unseen_note, unseen_target, verdict, Check,
};
use mekabridge::config::DefaultPolicy;
use mekabridge::meka::{ReadyStatus, SessionInfo};
use mekabridge::store::{
    ConversationRecord, HistoryRecord, PendingMessage, Policy, PolicyRecord, QueueStats,
};
use mekabridge::time::Duration;

const SECOND: i128 = 1_000_000_000;

/// 2025-08-05T13:20:00Z.
const NOW: i128 = 1_754_400_000 * SECOND;

/// What the platform under test says when asked about a conversation.
enum Answer {
    Reaches(ConversationInfo),
    /// The id names nothing the bot can post to, which is what a Discord user id does.
    Refuses,
    /// The platform offers no way to look a conversation up.
    CannotSay,
}

fn owner_checks(platform: Platform, answer: Answer, owner: &str) -> Vec<Check> {
    owner_checks_with(platform, answer, owner, true)
}

fn owner_checks_with(
    platform: Platform,
    answer: Answer,
    owner: &str,
    authenticated: bool,
) -> Vec<Check> {
    let name = match platform {
        Platform::Telegram => "telegram",
        Platform::Discord => "discord",
    };
    let channels = vec![(name.to_string(), platform)];
    let logged_in = if authenticated {
        vec![name.to_string()]
    } else {
        Vec::new()
    };
    let Some((conversation, platform)) = owner_question(owner, &channels, &logged_in) else {
        return Vec::new();
    };
    let answer = match answer {
        Answer::Reaches(info) => Ok(info),
        Answer::Refuses => Err(ChannelError::Delivery {
            channel: name.to_string(),
            message: "reading the channel: Unknown Channel".to_string(),
        }),
        Answer::CannotSay => Err(ChannelError::Unsupported {
            channel: name.to_string(),
            feature: "looking a conversation up".to_string(),
        }),
    };
    vec![assess_owner_conversation(owner, &conversation, platform, &answer)]
}

#[test]
fn an_owner_conversation_that_goes_nowhere_is_found_before_it_is_needed() {
    // A Discord user id where a channel id belongs. It parses, it names a configured channel, and
    // every operator notice sent to it would be silently lost.
    let checks = owner_checks(
        Platform::Discord,
        Answer::Refuses,
        "discord:1354919639859335428",
    );
    assert_eq!(verdict(&checks), (0, 1), "unreachable, but the bridge runs");
    let Some(Check::Warn(line)) = checks.first() else {
        panic!("expected one warning, got {checks:?}");
    };
    assert!(
        line.contains("discord:@<user id>"),
        "the warning has to name the form that works: {line}"
    );
}

#[test]
fn a_dialling_address_is_not_told_to_become_a_dialling_address() {
    // Already in the `@` form, so the failure is something else and the hint would misdirect.
    let checks = owner_checks(
        Platform::Discord,
        Answer::Refuses,
        "discord:@1354919639859335428",
    );
    let Some(Check::Warn(line)) = checks.first() else {
        panic!("expected one warning, got {checks:?}");
    };
    assert!(
        !line.contains("discord:@<user id>"),
        "misdirecting hint: {line}"
    );
}

#[test]
fn a_telegram_failure_is_not_given_discord_advice() {
    // Telegram chat ids and user ids are not interchangeable, so the whole confusion the hint
    // explains does not exist there.
    let checks = owner_checks(Platform::Telegram, Answer::Refuses, "telegram:123");
    let Some(Check::Warn(line)) = checks.first() else {
        panic!("expected one warning, got {checks:?}");
    };
    assert!(
        !line.contains("discord:@<user id>"),
        "advice for the wrong platform: {line}"
    );
}

#[test]
fn an_id_that_resolved_to_itself_is_not_reported_as_having_moved() {
    let checks = owner_checks(
        Platform::Telegram,
        Answer::Reaches(ConversationInfo {
            id: ConversationId::parse("telegram:-1001234567890").expect("valid"),
            kind: ChatKind::Group,
            title: Some("Acme".to_string()),
        }),
        "telegram:-1001234567890",
    );
    let Some(Check::Pass(line)) = checks.first() else {
        panic!("expected one pass, got {checks:?}");
    };
    assert!(!line.contains("which is"), "nothing moved: {line}");
}

#[test]
fn a_resolved_owner_conversation_reports_the_id_it_resolved_to() {
    // The dialling address is not the id anything else will show.
    let checks = owner_checks(
        Platform::Discord,
        Answer::Reaches(ConversationInfo {
            id: ConversationId::parse("discord:1537199580129525881").expect("valid"),
            kind: ChatKind::Direct,
            title: Some("Kay".to_string()),
        }),
        "discord:@1354919639859335428",
    );
    assert_eq!(verdict(&checks), (0, 0));
    let Some(Check::Pass(line)) = checks.first() else {
        panic!("expected one pass, got {checks:?}");
    };
    assert!(line.contains("direct"), "{line}");
    assert!(line.contains("Kay"), "{line}");
    assert!(line.contains("discord:1537199580129525881"), "{line}");
}

#[test]
fn a_platform_that_cannot_look_up_says_so_rather_than_claiming_a_pass() {
    let checks = owner_checks(Platform::Telegram, Answer::CannotSay, "telegram:123");
    assert_eq!(verdict(&checks), (0, 0), "no lookup is not a fault");
    let Some(Check::Pass(line)) = checks.first() else {
        panic!("expected one pass, got {checks:?}");
    };
    assert!(line.contains("taken on trust"), "{line}");
}

#[test]
fn a_channel_that_is_not_logged_in_is_not_blamed_on_the_owner_conversation() {
    // A rejected token refuses this lookup exactly as a wrong id does, so asking would report the
    // token problem a second time and attach advice about ids to it.
    assert!(owner_checks_with(
        Platform::Discord,
        Answer::Refuses,
        "discord:1354919639859335428",
        false,
    )
    .is_empty());
}

#[test]
fn an_owner_conversation_config_validation_already_rejected_is_not_reported_twice() {
    // Startup fails on a channel that is not configured and warns on an id that will not parse.
    assert!(owner_checks(Platform::Telegram, Answer::Refuses, "slack:123").is_empty());
    assert!(owner_checks(Platform::Telegram, Answer::Refuses, "telegram").is_empty());
}

fn readiness(status: &str, session_db: bool, provider: bool, mcp: bool) -> ReadyStatus {
    ReadyStatus {
        status: status.to_string(),
        session_db,
        provider_configured: provider,
        mcp_servers_healthy: mcp,
    }
}

#[test]
fn a_meka_that_cannot_serve_a_turn_fails_rather_than_warns() {
    // Both of these mean no turn can run and neither clears on its own.
    assert!(
        assess_readiness(&readiness("degraded", false, true, true))
            .iter()
            .any(|check| matches!(check, Check::Fail(_))),
        "an unreachable session database was not a failure"
    );
    assert!(
        assess_readiness(&readiness("degraded", true, false, true))
            .iter()
            .any(|check| matches!(check, Check::Fail(_))),
        "no configured provider was not a failure"
    );
    // An unhealthy MCP server is the one that does clear on its own, so it stays a warning.
    let mcp_down = assess_readiness(&readiness("degraded", true, true, false));
    assert!(mcp_down
        .iter()
        .all(|check| !matches!(check, Check::Fail(_))));
    assert!(mcp_down.iter().any(|check| matches!(check, Check::Warn(_))),);
}

#[test]
fn a_failing_check_is_what_makes_doctor_exit_non_zero() {
    let checks = assess_readiness(&readiness("degraded", false, false, false));
    let failures = checks
        .iter()
        .filter(|check| matches!(check, Check::Fail(_)))
        .count();
    assert!(failures >= 2, "got {checks:?}");
    assert_eq!(
        verdict(&checks),
        (failures, 2),
        "the counts `doctor` adds up must match the checks it was handed"
    );
    // A healthy answer contributes to neither, so nothing else in `doctor` can be nudged into
    // failing by a readiness that is fine.
    assert_eq!(
        verdict(&assess_readiness(&readiness("ok", true, true, true))),
        (0, 0)
    );
}

#[test]
fn a_healthy_readiness_counts_against_nothing() {
    assert_eq!(
        assess_readiness(&readiness("ok", true, true, true)),
        vec![Check::Pass("readiness: ok".to_string())]
    );
    // A status meka itself never sends still has to register.
    assert!(
        assess_readiness(&readiness("degraded", true, true, true))
            .iter()
            .any(|check| matches!(check, Check::Warn(_))),
        "a degraded readiness was reported as ok"
    );
}

#[test]
fn every_level_that_can_reply_is_accepted() {
    // The send tools are annotated read-only, so `read` is a supported posture.
    assert!(permission_problem("read").is_none());
    assert!(permission_problem("workspace").is_none());
    assert!(permission_problem("unrestricted").is_none());
}

#[test]
fn ask_and_none_are_reported_as_unworkable() {
    // `ask` is the subtle one: meka prompts on the session level, so even a read-only call is
    // gated, and this bridge denies every prompt.
    let ask = permission_problem("ask").expect("ask must be rejected");
    assert!(ask.contains("send_message"), "{ask}");
    assert!(permission_problem("none").is_some());
}

#[test]
fn the_retired_write_level_is_named_rather_than_lumped_in_with_a_typo() {
    // The one an operator upgrading meka actually hits.
    let problem = permission_problem("write").expect("write must be rejected");
    assert!(problem.contains("0.42"), "{problem}");
    assert!(problem.contains("unrestricted"), "{problem}");
}

#[test]
fn moderation_is_only_within_reach_at_unrestricted() {
    // `workspace` is the trap: the level looks sufficient, and a second gate refuses the call.
    assert!(moderation_reach("unrestricted", true).is_none());
    for level in ["read", "workspace"] {
        let reach = moderation_reach(level, true)
            .unwrap_or_else(|| panic!("{level} cannot reach the moderation tools"));
        assert!(reach.contains("tool_permissions"), "{reach}");
    }
}

#[test]
fn a_level_meka_does_not_enable_is_caught_before_the_first_message() {
    // meka's own default set. `ask` is opt-in and absent from it, which is the case worth catching.
    let enabled: Vec<String> = ["none", "read", "workspace", "unrestricted"]
        .iter()
        .map(|level| (*level).to_string())
        .collect();
    assert!(level_meka_will_not_create("read", &enabled).is_none());
    assert!(level_meka_will_not_create("unrestricted", &enabled).is_none());
    let refused = level_meka_will_not_create("ask", &enabled).expect("ask is not enabled");
    assert!(refused.contains("ask"), "{refused}");
    // The way out has to name what meka would accept.
    assert!(refused.contains("workspace"), "{refused}");
    assert_eq!(
        refused,
        "meka will not create a session at \"ask\"; it enables none, read, workspace, \
         unrestricted. Add it to meka's [permissions].enabled, or set [session].permission to one \
         of those."
    );
}

#[test]
fn a_meka_with_no_opinion_draws_no_verdict() {
    // A meka too old to report the field, and one that could not be reached at all.
    for level in ["read", "ask", "unrestricted", "nonsense"] {
        assert!(level_meka_will_not_create(level, &Vec::new()).is_none());
    }
}

#[test]
fn moderation_reach_is_silent_when_the_tools_are_not_registered() {
    // Nothing is out of reach if it was never offered.
    for level in ["read", "workspace", "unrestricted"] {
        assert!(moderation_reach(level, false).is_none());
    }
}

#[test]
fn age_is_described_in_the_largest_useful_unit() {
    assert!(describe_age(NOW, NOW).ends_with("s ago"));
    assert_eq!(describe_age(NOW - 5 * 60 * SECOND, NOW), "5m ago");
    assert_eq!(describe_age(NOW - 3 * 3600 * SECOND, NOW), "3h ago");
    assert_eq!(describe_age(NOW - 2 * 86_400 * SECOND, NOW), "2d ago");
}

#[test]
fn a_future_timestamp_does_not_produce_nonsense() {
    // Clock skew between the daemon host and the operator's shell is real.
    let future = NOW + 3600 * SECOND;
    assert_eq!(describe_age(future, NOW), "in the future");
}

#[test]
fn less_than_a_second_ahead_is_now() {
    assert_eq!(describe_age(NOW + SECOND / 2, NOW), "0s ago");
    assert_eq!(describe_age(NOW + SECOND, NOW), "in the future");
}

#[test]
fn config_init_refuses_to_clobber_without_force() {
    let error = config_init("/etc/mekabridge/config.toml", true, false).expect_err("must refuse");
    assert!(error.to_text().contains("--force"));
}

#[test]
fn config_init_creates_missing_directories() {
    let parent = config_init("/srv/nested/config.toml", false, false).expect("writes");
    assert_eq!(parent.as_deref(), Some("/srv/nested"));
    // A bare name lies in the current directory, which there is nothing to create for.
    assert_eq!(config_init("config.toml", false, false).expect("writes"), None);
    // Overwriting has to be asked for.
    assert!(config_init("/srv/nested/config.toml", true, true).is_ok());
}

#[test]
fn the_verdict_counts_each_kind_of_check() {
    let checks = vec![
        Check::Pass("a".to_string()),
        Check::Warn("b".to_string()),
        Check::Fail("c".to_string()),
        Check::Warn("d".to_string()),
    ];
    assert_eq!(verdict(&checks), (1, 2));
    assert_eq!(verdict(&checks[1..3]), (1, 1));
}

#[test]
fn destructive_commands_are_refused_unconfirmed() {
    assert!(queue_clear(true).is_ok());
    let error = queue_clear(false).expect_err("unconfirmed");
    assert!(error.to_text().contains("--yes"), "{}", error.to_text());
    assert!(session_reset(true).is_ok());
    let error = session_reset(false).expect_err("unconfirmed");
    assert!(error.to_text().contains("--yes"), "{}", error.to_text());
}

#[test]
fn the_queue_is_listed_without_being_touched() {
    let stats = QueueStats {
        pending: 1,
        in_flight: 0,
        done: 7,
        failed: 2,
    };
    assert_eq!(
        queue_list(&stats, &Vec::new()),
        vec![
            "1 pending, 0 in flight, 7 delivered, 2 failed".to_string(),
            "nothing waiting".to_string()
        ]
    );
    let pending = vec![PendingMessage {
        seq: 42,
        conversation_id: "telegram:1".to_string(),
        attempts: 3,
        received_at: NOW,
    }];
    let lines = queue_list(&stats, &pending);
    assert_eq!(lines.len(), 3);
    assert_eq!(
        lines[2],
        format!(
            "  #{:<6} {:<28} attempts {}  received {}",
            42, "telegram:1", 3, "2025-08-05T13:20:00+00:00"
        )
    );
}

#[test]
fn conversations_are_listed_in_columns() {
    assert_eq!(
        conversations_list(&Vec::new()),
        vec!["no conversations yet".to_string()]
    );
    let conversations = vec![
        ConversationRecord {
            id: "telegram:1".to_string(),
            kind: "direct".to_string(),
            title: None,
            last_inbound_at: Some(NOW + 5),
        },
        ConversationRecord {
            id: "discord:2".to_string(),
            kind: "group".to_string(),
            title: Some("Ops".to_string()),
            last_inbound_at: None,
        },
    ];
    let lines = conversations_list(&conversations);
    assert_eq!(
        lines[0],
        format!(
            "  {:<28} {:<8} {:<20} last inbound {}",
            "telegram:1", "direct", "-", "2025-08-05T13:20:00.000000005+00:00"
        )
    );
    assert_eq!(
        lines[1],
        format!(
            "  {:<28} {:<8} {:<20} last inbound {}",
            "discord:2", "group", "Ops", "never"
        )
    );
}

const DEFAULTS: DefaultPolicy = DefaultPolicy {
    direct: Policy::Active,
    group: Policy::Mute,
    channel: Policy::Mute,
};

#[test]
fn a_policy_that_has_run_out_is_told_apart_from_one_in_force() {
    assert_eq!(
        policy_list(&DEFAULTS, &Vec::new(), &Vec::new(), NOW),
        vec![
            "default: direct active, group mute, channel mute".to_string(),
            "no conversation has a policy of its own".to_string()
        ]
    );
    let record = |policy: Policy, until: Option<i128>| PolicyRecord {
        conversation_id: "telegram:-100".to_string(),
        policy,
        until,
        dropped: 9,
        reason: None,
    };
    let policies = vec![
        record(Policy::Block, Some(NOW)),
        record(Policy::Mute, Some(NOW + SECOND)),
        record(Policy::Active, None),
    ];
    let unseen = vec![("telegram:-100".to_string(), 4)];
    let lines = policy_list(&DEFAULTS, &policies, &unseen, NOW);
    assert!(lines[1].contains("expired 2025-08-05T13:20:00Z"), "{}", lines[1]);
    assert!(lines[1].contains("9 discarded"), "{}", lines[1]);
    assert!(lines[2].contains("until 2025-08-05T13:20:01Z"), "{}", lines[2]);
    assert!(lines[2].contains("4 unseen"), "{}", lines[2]);
    assert!(lines[3].contains("indefinite"), "{}", lines[3]);
    let nothing_unseen = policy_list(&DEFAULTS, &policies, &Vec::new(), NOW);
    assert!(nothing_unseen[2].contains("0 unseen"), "{}", nothing_unseen[2]);
}

#[test]
fn a_policy_is_set_for_as_long_as_was_asked() {
    let span = policy_span("30m").expect("a duration");
    assert_eq!(span.as_secs(), 1800);
    let change = policy_set("telegram:-100", Policy::Mute, Some(span), &None, NOW).expect("valid");
    assert_eq!(change.until, Some(NOW + 1800 * SECOND));
    assert_eq!(
        policy_set_line(&change),
        "telegram:-100 set to mute until 2025-08-05T13:50:00Z"
    );
    let change = policy_set("telegram:-100", Policy::Block, None, &None, NOW).expect("valid");
    assert_eq!(policy_set_line(&change), "telegram:-100 set to block");
}

#[test]
fn a_mistyped_policy_is_refused_rather_than_stored() {
    let error = policy_span("soon").expect_err("no duration");
    assert!(
        error.to_text().contains("\"soon\" is not a duration: "),
        "{}",
        error.to_text()
    );
    // One that can only just be read is too long, not unreadable.
    let error = policy_span("584542046090.5y").expect_err("too long");
    assert!(error.to_text().ends_with("\"584542046090.5y\" is too long"), "{}", error.to_text());
    let error = policy_span("500000000y").expect_err("too long");
    assert!(error.to_text().contains("is too long"), "{}", error.to_text());
    let error = policy_set("telegram", Policy::Mute, None, &None, NOW).err().expect("no id");
    assert!(
        error.to_text().contains("mekabridge conversations list"),
        "{}",
        error.to_text()
    );
}

#[test]
fn clearing_a_policy_says_whether_there_was_one() {
    assert_eq!(
        policy_clear("telegram:1", true),
        "telegram:1 now follows the configured default"
    );
    assert_eq!(policy_clear("telegram:1", false), "telegram:1 had no policy of its own");
}

#[test]
fn a_gate_can_tell_a_failure_from_an_empty_room() {
    assert_eq!(unseen_exit(Some(3)), 0);
    assert_eq!(unseen_exit(Some(0)), 1);
    assert_eq!(unseen_exit(None), 2);
    assert!(unseen_target(None).expect("every chat").is_none());
    assert!(unseen_target(Some("telegram:5")).expect("valid").is_some());
    let error = unseen_target(Some("telegram")).err().expect("no id");
    assert!(error.to_text().contains("is not a conversation id"), "{}", error.to_text());
    assert!(unseen_note(Some("telegram:5"), 0, false).is_some());
    assert!(unseen_note(Some("telegram:5"), 0, true).is_none());
    assert!(unseen_note(Some("telegram:5"), 1, false).is_none());
    assert!(unseen_note(None, 0, false).is_none());
}

#[test]
fn history_marks_what_no_longer_stands() {
    assert_eq!(history_show(&Vec::new()), vec!["nothing recorded".to_string()]);
    let record = |deleted: bool, superseded: bool| HistoryRecord {
        timestamp: NOW,
        sender_name: "Alice".to_string(),
        text: "two\nlines".to_string(),
        addressed: true,
        seen: false,
        own: false,
        deleted_at: deleted.then_some(NOW),
        superseded_at: superseded.then_some(NOW),
    };
    let lines = history_show(&vec![record(true, true), record(false, true), record(false, false)]);
    let row = format!("*@  2025-08-05T13:20:00Z  {:<20} two lines", "Alice");
    assert_eq!(lines[0], format!("{row}  [deleted]"));
    assert_eq!(lines[1], format!("{row}  [superseded by a later edit]"));
    assert_eq!(lines[2], row);
    assert_eq!(lines.len(), 5);
}

#[test]
fn a_session_is_reported_with_what_meka_says_of_it() {
    let info = SessionInfo {
        title: "chats".to_string(),
        permission: "read".to_string(),
        cwd: None,
        turn_in_flight: true,
    };
    let lines = session_show(&Some("abc".to_string()), &Ok(info));
    assert_eq!(
        lines,
        vec![
            "session: abc",
            "title:      chats",
            "permission: read",
            "cwd:        -",
            "turn:       running now"
        ]
    );
    let lines = session_show(&Some("abc".to_string()), &Err("down".to_string()));
    assert_eq!(lines[1], "meka:       could not read it (down)");
    assert_eq!(session_show(&None, &Err(String::new())).len(), 1);
    assert_eq!(session_reset_lines(&Some("abc".to_string())).len(), 2);
    assert_eq!(session_reset_lines(&None), vec!["no session was bound"]);
    assert_eq!(
        cancel(&Some("abc".to_string())),
        "cancellation sent for session abc"
    );
    assert_eq!(cancel(&None), "no session is bound, so no turn can be running");
}

#[test]
fn a_span_of_time_reads_as_it_was_written() {
    assert_eq!(Duration::from_secs(90).to_human(), "1m 30s");
    assert_eq!(Duration::from_secs(90).to_debug(), "90s");
}
