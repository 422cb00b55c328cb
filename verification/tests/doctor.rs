//! The command line, and what `doctor` reports.

use mekabridge::channel::{ChannelCapabilities, ChannelIdentity, Platform};
use mekabridge::cli::commands::{platform_name, status, unseen_reachable, unseen_target, Check};
use mekabridge::cli::doctor::{
    conclude, doctor, opening, tally, ChannelProbe, Examination, Line, MekaProbe, SessionProbe,
    StorageProbe,
};
use mekabridge::cli::{
    log_directive, log_format, resolve_config_path, validated, Cli, Command, ConfigCommand,
    LogFormatArg, PolicyArg, QueueCommand, Task,
};
use mekabridge::config::defaults::{
    default_connect_timeout, default_max_retries, default_meka_base_url, default_poll_timeout,
    default_telegram_parse_mode, default_turn_timeout,
};
use mekabridge::config::file::{
    FileBridge, FileChannels, FileConfig, FileLog, FileMcp, FileMeka, FileSession, FileStorage,
    FileTelegram, Surroundings,
};
use mekabridge::config::{Config, LogFormat};
use mekabridge::meka::{MekaInfo, ProviderProfile, ReadyStatus, SessionInfo};
use mekabridge::store::{Policy, QueueStats};
use mekabridge::time::Duration;

fn config() -> Config {
    let file = FileConfig {
        meka: FileMeka {
            base_url: default_meka_base_url(),
            token: Some("${TOKEN}".to_string()),
            token_file: None,
            connect_timeout: default_connect_timeout(),
            turn_timeout: default_turn_timeout(),
            max_retries: default_max_retries(),
        },
        session: FileSession::default(),
        bridge: FileBridge::default(),
        mcp: FileMcp::default(),
        storage: FileStorage::default(),
        log: FileLog::default(),
        channels: FileChannels {
            telegram: vec![FileTelegram {
                id: "main".to_string(),
                token: Some("${TOKEN}".to_string()),
                token_file: None,
                allowed_users: vec![1],
                allowed_chats: vec![-5],
                allow_all: false,
                admin_tools: true,
                parse_mode: default_telegram_parse_mode(),
                link_preview: false,
                poll_timeout: default_poll_timeout(),
            }],
            discord: Vec::new(),
        },
    };
    let around = Surroundings {
        home_dir: None,
        data_dir: Some("/var/lib".to_string()),
        variables: vec![("TOKEN".to_string(), "sk".to_string())],
        files: Vec::new(),
    };
    match file.resolve("/etc/mekabridge/config.toml", &around) {
        Ok(config) => config,
        Err(error) => panic!("must be valid: {}", error.to_text()),
    }
}

const NOTHING: ChannelCapabilities = ChannelCapabilities {
    typing_indicator: false,
    files: false,
    photos: false,
    reactions: false,
    edit: false,
    admin: false,
    presence: false,
    typing_status: false,
    member_rights: false,
    member_roles: false,
};

fn healthy() -> Examination {
    Examination {
        storage: Ok(StorageProbe {
            stats: Ok(QueueStats {
                pending: 1,
                in_flight: 2,
                done: 3,
                failed: 4,
            }),
            policies: Ok(0),
            messages: Ok(9),
        }),
        meka: Ok(MekaProbe {
            info: MekaInfo {
                version: "1.2.3".to_string(),
                vision: true,
                enabled_permissions: vec!["read".to_string()],
            },
            providers: Ok(vec![ProviderProfile {
                name: "main".to_string(),
                backend: "local".to_string(),
                model: None,
                active: true,
            }]),
        }),
        ready: Ok(ReadyStatus {
            status: "ok".to_string(),
            session_db: true,
            provider_configured: true,
            mcp_servers_healthy: true,
        }),
        session: SessionProbe::Unbound,
        channels: Ok(vec![ChannelProbe {
            id: "main".to_string(),
            platform: Platform::Telegram,
            identity: Ok(ChannelIdentity {
                id: "1".to_string(),
                display_name: "Meka".to_string(),
                username: Some("mekabot".to_string()),
                reads_all_group_messages: true,
            }),
            capabilities: NOTHING,
        }]),
        owner: None,
        bound: Ok(()),
        loopback: true,
    }
}

fn texts(lines: &[Line]) -> Vec<String> {
    lines.iter().map(Line::to_text).collect()
}

#[test]
fn a_healthy_bridge_is_reported_in_order() {
    let lines = doctor(&config(), &healthy());
    let report = texts(&lines);
    let headings: Vec<&str> = report
        .iter()
        .filter(|line| !line.starts_with(' '))
        .map(String::as_str)
        .collect();
    assert_eq!(
        headings,
        vec![
            "config",
            "attention",
            "storage",
            "meka at http://127.0.0.1:8080/",
            "session",
            "channels",
            "mcp"
        ]
    );
    assert!(report.contains(&"  ok     queue: 1 pending, 2 in flight, 4 failed".to_string()));
    assert!(report.contains(&"  ok     main authenticated as @mekabot".to_string()));
    assert!(report
        .contains(&"  ok     sessions run on profile main (local), model (none configured)".to_string()));
    assert_eq!(tally(&lines), (0, 0), "{report:?}");
    let (line, outcome) = conclude(&lines);
    assert_eq!(line, "no failures, 0 warning(s)");
    assert!(outcome.is_ok());
}

#[test]
fn a_failure_anywhere_makes_the_exit_code() {
    let mut found = healthy();
    found.storage = Err("locked".to_string());
    found.bound = Err("in use".to_string());
    found.loopback = false;
    let lines = doctor(&config(), &found);
    assert_eq!(tally(&lines), (2, 1));
    let (line, outcome) = conclude(&lines);
    assert_eq!(line, "2 failure(s), 1 warning(s)");
    let error = outcome.expect_err("failures are an error");
    assert_eq!(error.to_text(), "doctor found 2 failure(s)");
}

#[test]
fn warnings_alone_are_no_error() {
    let mut found = healthy();
    found.ready = Err("timed out".to_string());
    found.session = SessionProbe::Missing { id: "abc".to_string() };
    let lines = doctor(&config(), &found);
    assert_eq!(tally(&lines), (0, 2));
    assert!(conclude(&lines).1.is_ok());
    assert!(texts(&lines).contains(&"  warn   readiness probe failed: timed out".to_string()));
}

#[test]
fn what_a_channel_withholds_is_warned_about_in_its_own_words() {
    let mut found = healthy();
    let identity = |reads: bool| {
        Ok(ChannelIdentity {
            id: "1".to_string(),
            display_name: "Meka".to_string(),
            username: None,
            reads_all_group_messages: reads,
        })
    };
    found.channels = Ok(vec![
        ChannelProbe {
            id: "tg".to_string(),
            platform: Platform::Telegram,
            identity: identity(false),
            capabilities: NOTHING,
        },
        ChannelProbe {
            id: "dc".to_string(),
            platform: Platform::Discord,
            identity: identity(true),
            capabilities: ChannelCapabilities { admin: true, member_roles: true, ..NOTHING },
        },
        ChannelProbe {
            id: "off".to_string(),
            platform: Platform::Discord,
            identity: Err("401".to_string()),
            capabilities: NOTHING,
        },
    ]);
    found.owner = Some(Check::Fail("nobody home".to_string()));
    let report = texts(&doctor(&config(), &found));
    assert!(report.iter().any(|line| line.starts_with("  warn   tg has privacy mode on")));
    assert!(report
        .iter()
        .any(|line| line.starts_with("  note   dc asks Discord") && line.contains("MESSAGE_CONTENT")));
    assert!(report.iter().any(|line| line.contains("privileges granted through roles")));
    assert!(report.contains(&"  fail   off: 401".to_string()));
    assert!(report.contains(&"  fail   nobody home".to_string()));
}

#[test]
fn a_session_that_cannot_reply_is_a_failure() {
    let mut found = healthy();
    found.session = SessionProbe::Found {
        id: "abc".to_string(),
        info: SessionInfo {
            title: "chat".to_string(),
            permission: "none".to_string(),
            cwd: None,
            turn_in_flight: true,
        },
    };
    let report = texts(&doctor(&config(), &found));
    assert!(report.contains(&"  ok     bound to abc (permission none)".to_string()));
    assert!(report.contains(&"  ok     a turn is running on it right now".to_string()));
    assert!(report
        .iter()
        .any(|line| line.starts_with("  fail   the session is at permission \"none\". ")));
}

#[test]
fn the_status_names_the_channels() {
    let config = config();
    assert_eq!(platform_name(&config.channels[0]), "telegram");
    assert!(validated(&config).contains("1 channel(s), meka at http://127.0.0.1:8080/"));
    let stats = QueueStats { pending: 7, in_flight: 0, done: 0, failed: 0 };
    let now: i128 = 1_754_400_000_000_000_000;
    let lines = status(&config, &None, Some(now), &stats, 3, now);
    assert!(lines.iter().any(|line| line.contains("main")), "{lines:?}");
    assert!(lines.iter().any(|line| line.contains('7')), "{lines:?}");
}

#[test]
fn a_gate_is_only_asked_about_a_configured_channel() {
    let config = config();
    let Ok(Some(known)) = unseen_target(Some("main:1")) else {
        panic!("a conversation id");
    };
    assert!(unseen_reachable(&config, &known).is_ok());
    let Ok(Some(unknown)) = unseen_target(Some("other:1")) else {
        panic!("a conversation id");
    };
    assert!(unseen_reachable(&config, &unknown).is_err());
    assert!(matches!(unseen_target(None), Ok(None)));
    assert!(unseen_target(Some("nothing")).is_err());
}

fn cli(command: Option<Command>) -> Cli {
    Cli { config: None, verbose: 0, log_format: None, command }
}

#[test]
fn no_command_is_the_daemon() {
    assert!(matches!(cli(None).run(), Task::Daemon));
    assert!(matches!(cli(Some(Command::Run)).run(), Task::Daemon));
}

#[test]
fn a_command_asks_for_no_more_than_it_needs() {
    let asked = Command::Unseen { conversation: Some("main:1".to_string()) };
    assert!(matches!(
        cli(Some(asked)).run(),
        Task::Unseen { conversation: Some(id) } if id == "main:1"
    ));
    let config = |command: ConfigCommand| cli(Some(Command::Config { command })).run();
    assert!(matches!(config(ConfigCommand::Path), Task::ConfigPath));
    assert!(matches!(config(ConfigCommand::Validate), Task::ConfigValidate));
    assert!(matches!(
        config(ConfigCommand::Init { force: true }),
        Task::ConfigInit { force: true }
    ));
    let queue = Command::Queue { command: QueueCommand::Clear { yes: false } };
    assert!(matches!(
        cli(Some(queue)).run(),
        Task::Operator(Command::Queue { command: QueueCommand::Clear { yes: false } })
    ));
}

#[test]
fn flags_override_what_is_configured() {
    assert_eq!(log_directive("warn", 0), "warn");
    assert_eq!(log_directive("warn", 1), "mekabridge=debug,info");
    assert_eq!(log_directive("warn", 2), "mekabridge=trace,debug");
    assert_eq!(log_directive("warn", 255), "mekabridge=trace,debug");
    assert_eq!(log_format(LogFormat::Text, Some(LogFormatArg::Json)), LogFormat::Json);
    assert_eq!(log_format(LogFormat::Json, Some(LogFormatArg::Text)), LogFormat::Text);
    assert_eq!(log_format(LogFormat::Json, None), LogFormat::Json);
    assert_eq!(Policy::from(PolicyArg::Mute), Policy::Mute);
    assert_eq!(Policy::from(PolicyArg::Active), Policy::Active);
    assert_eq!(Policy::from(PolicyArg::Block), Policy::Block);
    let path = resolve_config_path(Some("/tmp/x.toml")).expect("given");
    assert_eq!(path, "/tmp/x.toml");
}

#[test]
fn history_that_is_off_is_warned_about() {
    let mut config = config();
    config.storage.history_retention = Duration::from_secs(0);
    let report = texts(&doctor(&config, &healthy()));
    assert!(report.iter().any(|line| line.starts_with("  warn   history is off")));
    config.storage.history_retention = Duration::from_secs(3600);
    let report = texts(&doctor(&config, &healthy()));
    assert!(report.contains(&"  ok     history: 9 message(s) recorded, kept for 1h".to_string()));
}

#[test]
fn a_report_begins_the_same_whether_or_not_meka_can_be_asked() {
    let found = healthy();
    let begun = texts(&opening(&config(), &found.storage));
    let whole = texts(&doctor(&config(), &found));
    assert!(whole.starts_with(&begun));
    assert!(begun[begun.len() - 1].starts_with("meka at "), "{:?}", begun[begun.len() - 1]);
    assert!(whole.len() > begun.len());
}
