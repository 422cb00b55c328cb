//! Configuration: what a file stands for, and what is refused.

use mekabridge::channel::ChatKind;
use mekabridge::config::defaults::{
    default_connect_timeout, default_link_preview, default_max_retries, default_meka_base_url,
    default_poll_timeout, default_telegram_parse_mode, default_true, default_turn_timeout,
};
use mekabridge::config::file::{
    parse_snowflakes, validate_channel_id, FileBridge, FileChannels, FileConfig,
    FileDefaultPolicy, FileDiscord, FileLog, FileMcp, FileMeka, FileSession, FileStorage,
    FileTelegram, Surroundings,
};
use mekabridge::config::{
    config_path_under, default_config_path, Config, McpTransport, Permission, PlatformConfig,
    TelegramParseMode,
};
use mekabridge::error::{BridgeError, Result};
use mekabridge::store::Policy;
use mekabridge::time::Duration;

fn text(table: &toml::Table, key: &str) -> Option<String> {
    table.get(key).map(|value| value.as_str().expect("a text").to_string())
}

fn flag(table: &toml::Table, key: &str, default: bool) -> bool {
    table.get(key).map_or(default, |value| value.as_bool().expect("a flag"))
}

fn number(table: &toml::Table, key: &str, default: usize) -> usize {
    table.get(key).map_or(default, |value| value.as_integer().expect("a number") as usize)
}

fn span(table: &toml::Table, key: &str, default: Duration) -> Duration {
    match text(table, key) {
        Some(raw) => Duration::from_human(&raw).expect("a span"),
        None => default,
    }
}

fn numbers(table: &toml::Table, key: &str) -> Vec<i64> {
    let Some(values) = table.get(key) else {
        return Vec::new();
    };
    let values = values.as_array().expect("a list");
    values.iter().map(|value| value.as_integer().expect("a number")).collect()
}

fn texts(table: &toml::Table, key: &str) -> Vec<String> {
    let Some(values) = table.get(key) else {
        return Vec::new();
    };
    let values = values.as_array().expect("a list");
    values.iter().map(|value| value.as_str().expect("a text").to_string()).collect()
}

fn policy(table: &toml::Table, key: &str, default: Policy) -> Policy {
    match text(table, key).as_deref() {
        Some("active") => Policy::Active,
        Some("mute") => Policy::Mute,
        Some("block") => Policy::Block,
        Some(other) => panic!("no such policy: {other}"),
        None => default,
    }
}

fn section(table: &toml::Table, key: &str) -> toml::Table {
    table
        .get(key)
        .map_or_else(toml::Table::new, |value| value.as_table().expect("a table").clone())
}

fn instances(channels: &toml::Table, platform: &str) -> Vec<toml::Table> {
    let Some(tables) = channels.get(platform) else {
        return Vec::new();
    };
    let tables = tables.as_array().expect("an array of tables");
    tables.iter().map(|value| value.as_table().expect("a table").clone()).collect()
}

fn telegram(table: &toml::Table) -> FileTelegram {
    FileTelegram {
        id: text(table, "id").expect("an id"),
        token: text(table, "token"),
        token_file: text(table, "token_file"),
        allowed_users: numbers(table, "allowed_users"),
        allowed_chats: numbers(table, "allowed_chats"),
        allow_all: flag(table, "allow_all", false),
        admin_tools: flag(table, "admin_tools", default_true()),
        parse_mode: default_telegram_parse_mode(),
        link_preview: flag(table, "link_preview", default_link_preview()),
        poll_timeout: span(table, "poll_timeout", default_poll_timeout()),
    }
}

fn discord(table: &toml::Table) -> FileDiscord {
    FileDiscord {
        id: text(table, "id").expect("an id"),
        token: text(table, "token"),
        token_file: text(table, "token_file"),
        allowed_users: texts(table, "allowed_users"),
        allowed_guilds: texts(table, "allowed_guilds"),
        allowed_channels: texts(table, "allowed_channels"),
        allowed_roles: texts(table, "allowed_roles"),
        allow_all: flag(table, "allow_all", false),
        admin_tools: flag(table, "admin_tools", default_true()),
        message_content: flag(table, "message_content", default_true()),
        presence: flag(table, "presence", false),
        mention_everyone: flag(table, "mention_everyone", false),
        mention_roles: flag(table, "mention_roles", false),
        link_preview: flag(table, "link_preview", default_link_preview()),
    }
}

/// The file that a text holds: the table is read by the `toml` crate.
fn file(raw: &str) -> FileConfig {
    let table: toml::Table = raw.parse().expect("valid TOML");
    let meka = section(&table, "meka");
    let session = section(&table, "session");
    let bridge = section(&table, "bridge");
    let policies = section(&bridge, "default_policy");
    let mcp = section(&table, "mcp");
    let storage = section(&table, "storage");
    let channels = section(&table, "channels");
    let stock = FileBridge::default();
    let kinds = FileDefaultPolicy::default();
    FileConfig {
        meka: FileMeka {
            base_url: text(&meka, "base_url").unwrap_or_else(default_meka_base_url),
            token: text(&meka, "token"),
            token_file: text(&meka, "token_file"),
            connect_timeout: span(&meka, "connect_timeout", default_connect_timeout()),
            turn_timeout: span(&meka, "turn_timeout", default_turn_timeout()),
            max_retries: number(&meka, "max_retries", default_max_retries() as usize) as u32,
        },
        session: FileSession {
            cwd: text(&session, "cwd"),
            ..FileSession::default()
        },
        bridge: FileBridge {
            owner_conversation: text(&bridge, "owner_conversation"),
            max_queue_depth: number(&bridge, "max_queue_depth", stock.max_queue_depth),
            batch_max_messages: number(&bridge, "batch_max_messages", stock.batch_max_messages),
            settle: span(&bridge, "settle", stock.settle),
            settle_max: span(&bridge, "settle_max", stock.settle_max),
            notify_failures: flag(&bridge, "notify_failures", stock.notify_failures),
            typing_indicator: flag(&bridge, "typing_indicator", stock.typing_indicator),
            typing_max: text(&bridge, "typing_max")
                .map(|raw| Duration::from_human(&raw).expect("a span")),
            default_policy: FileDefaultPolicy {
                direct: policy(&policies, "direct", kinds.direct),
                group: policy(&policies, "group", kinds.group),
                channel: policy(&policies, "channel", kinds.channel),
            },
            mute_context: number(&bridge, "mute_context", stock.mute_context),
            turn_retries: stock.turn_retries,
        },
        mcp: FileMcp {
            path: text(&mcp, "path").unwrap_or_else(|| FileMcp::default().path),
            token: text(&mcp, "token"),
            token_file: text(&mcp, "token_file"),
            ..FileMcp::default()
        },
        storage: FileStorage {
            path: text(&storage, "path"),
            attachment_dir: text(&storage, "attachment_dir"),
            history_retention: span(
                &storage,
                "history_retention",
                FileStorage::default().history_retention,
            ),
            ..FileStorage::default()
        },
        log: FileLog::default(),
        channels: FileChannels {
            telegram: instances(&channels, "telegram").iter().map(telegram).collect(),
            discord: instances(&channels, "discord").iter().map(discord).collect(),
        },
    }
}

fn around() -> Surroundings {
    Surroundings {
        home_dir: Some("/home/alice".to_string()),
        data_dir: Some("/home/alice/.local/share".to_string()),
        variables: Vec::new(),
        files: Vec::new(),
    }
}

fn parse(raw: &str) -> Result<Config> {
    file(raw).resolve("/etc/mekabridge/config.toml", &around())
}

fn refused(raw: &str, why: &str) -> String {
    match parse(raw) {
        Ok(_) => panic!("{why}"),
        Err(error) => error.to_text(),
    }
}

fn accepted(raw: &str) -> Config {
    match parse(raw) {
        Ok(config) => config,
        Err(error) => panic!("must be valid: {}", error.to_text()),
    }
}

const MINIMAL: &str = r#"
[meka]
token = "meka-token"

[[channels.telegram]]
id = "telegram"
token = "bot-token"
allowed_users = [123]
"#;

const MINIMAL_DISCORD: &str = r#"
[meka]
token = "meka-token"

[[channels.discord]]
id = "discord"
token = "bot-token"
allowed_users = ["245119312739729408"]
"#;

#[test]
fn a_discord_channel_parses_its_snowflakes() {
    let config = accepted(MINIMAL_DISCORD);
    let PlatformConfig::Discord(discord) = &config.channels[0].platform else {
        panic!("the config under test declares one Discord channel");
    };
    assert_eq!(discord.allowed_users, vec![245_119_312_739_729_408]);
    assert!(
        discord.message_content,
        "the intent is requested by default"
    );
    assert!(!discord.mention_everyone);
}

#[test]
fn a_snowflake_that_is_not_a_number_is_rejected_at_load() {
    let raw = MINIMAL_DISCORD.replace("245119312739729408", "not-an-id");
    let error = refused(&raw, "a typo is a config error");
    assert!(error.contains("allowed_users"), "got: {error}");
}

#[test]
fn a_zero_snowflake_is_rejected_rather_than_panicking_later() {
    // No Discord id is ever zero, so letting it through here would turn a typo into a crash at
    // startup.
    let raw = MINIMAL_DISCORD.replace("245119312739729408", "0");
    let error = refused(&raw, "zero is not an id");
    assert!(error.contains("allowed_users"), "got: {error}");
}

#[test]
fn a_discord_channel_with_no_allowlist_at_all_is_refused() {
    let raw = MINIMAL_DISCORD.replace(r#"allowed_users = ["245119312739729408"]"#, "");
    let error = refused(&raw, "an open bot must be a decision");
    assert!(error.contains("allowlist"), "got: {error}");
}

#[test]
fn allowlisting_a_whole_server_warns_every_startup() {
    let raw = MINIMAL_DISCORD.replace(
        r#"allowed_users = ["245119312739729408"]"#,
        r#"allowed_guilds = ["987654321098765432"]"#,
    );
    let config = accepted(&raw);
    assert!(
        config
            .warnings
            .iter()
            .any(|warning| warning.contains("allowed_guilds")),
        "admitting a whole server is the largest grant there is: {:?}",
        config.warnings
    );
}

#[test]
fn two_platforms_may_not_share_a_channel_id() {
    let raw = format!(
        "{MINIMAL}\n{}",
        MINIMAL_DISCORD
            .replace("\n[meka]\ntoken = \"meka-token\"\n", "")
            .replace("id = \"discord\"", "id = \"telegram\"")
    );
    let error = refused(&raw, "ids are unique across platforms");
    assert!(error.contains("duplicate"), "got: {error}");
}

#[test]
fn the_typing_ceiling_follows_the_turn_budget_by_default() {
    // A ceiling shorter than a turn is the failure this defaults away from: the indicator stops
    // while the agent is still working, and the chat reads as a dead bot rather than a busy one.
    let config = accepted(MINIMAL);
    assert_eq!(
        config.bridge.typing_max, config.meka.turn_timeout,
        "unpinned, the indicator lasts exactly as long as a turn can"
    );

    let raw = MINIMAL.replace(
        "token = \"meka-token\"",
        "token = \"meka-token\"\nturn_timeout = \"5m\"",
    );
    let config = accepted(&raw);
    assert_eq!(config.bridge.typing_max, Duration::from_secs(300));
}

#[test]
fn allowlisting_only_people_says_the_bot_is_reachable_by_dm_alone() {
    // A bot that had been answering in a group goes quiet there with nothing on the wire to explain
    // it. This warning is the only thing that does.
    let telegram = accepted(MINIMAL);
    assert!(
        telegram
            .warnings
            .iter()
            .any(|warning| warning.contains("direct message only")),
        "got: {:?}",
        telegram.warnings
    );

    let discord = accepted(MINIMAL_DISCORD);
    assert!(
        discord
            .warnings
            .iter()
            .any(|warning| warning.contains("direct message only")),
        "got: {:?}",
        discord.warnings
    );
}

#[test]
fn naming_a_room_as_well_draws_no_warning() {
    let raw = format!("{MINIMAL}allowed_chats = [-1001234567890]\n");
    let config = accepted(&raw);
    assert!(
        !config
            .warnings
            .iter()
            .any(|warning| warning.contains("direct message only")),
        "a config that names a room is not DM-only: {:?}",
        config.warnings
    );
}

#[test]
fn a_zero_turn_budget_is_refused() {
    // It is also the ceiling on waiting out a turn meka is running for itself. At zero that wait
    // ends before it begins.
    let raw = MINIMAL.replace(
        "token = \"meka-token\"",
        "token = \"meka-token\"\nturn_timeout = \"0s\"",
    );
    let error = refused(&raw, "a zero turn budget cannot be honoured");
    assert!(error.contains("turn_timeout"), "got: {error}");
}

#[test]
fn the_typing_ceiling_can_be_pinned() {
    let raw = format!("{MINIMAL}\n[bridge]\ntyping_max = \"45s\"\n");
    let config = accepted(&raw);
    assert_eq!(config.bridge.typing_max, Duration::from_secs(45));
}

#[test]
fn minimal_config_fills_in_defaults() {
    let config = accepted(MINIMAL);
    assert_eq!(config.meka.base_url.as_str(), "http://127.0.0.1:8080/");
    assert_eq!(config.meka.token.expose(), "meka-token");
    assert_eq!(
        config.session.permission,
        Permission::Read,
        "the default must match the shipped template, and be the lowest level that can reply"
    );
    assert_eq!(config.bridge.batch_max_messages, 32);
    assert_eq!(config.mcp.transport, McpTransport::Http);
    assert_eq!(config.mcp.path, "/mcp");
    assert!(config.mcp.token.is_none());
    assert_eq!(config.channels.len(), 1);
    assert_eq!(config.channels[0].id, "telegram");

    let PlatformConfig::Telegram(telegram) = &config.channels[0].platform else {
        panic!("the config under test declares one Telegram channel");
    };
    assert_eq!(telegram.parse_mode, TelegramParseMode::Html);
    assert!(
        !telegram.link_preview,
        "link previews default off; the template and the docs both say so"
    );
}

#[test]
fn groups_default_to_mentions_only_and_direct_chats_to_everything() {
    // A one-to-one chat has nobody else in it, so mention-only there would silence the agent
    // entirely.
    let config = accepted(MINIMAL);
    assert_eq!(config.bridge.default_policy.direct, Policy::Active);
    assert_eq!(config.bridge.default_policy.group, Policy::Mute);
    assert_eq!(config.bridge.default_policy.channel, Policy::Mute);
    assert_eq!(
        config.bridge.default_policy.for_kind(ChatKind::Unknown),
        Policy::Active,
        "a chat the agent messaged first has an unknown shape, so it is heard in full"
    );
    assert_eq!(config.bridge.default_policy.for_kind(ChatKind::Group), Policy::Mute);
}

#[test]
fn an_existing_bridge_section_still_gets_the_new_defaults() {
    // `[bridge]` is present and populated, and `default_policy` is not mentioned at all.
    let raw = format!(
        "{MINIMAL}\n[bridge]\nbatch_max_messages = 32\nsettle = \"2s\"\ntyping_indicator = true\n"
    );
    let config = accepted(&raw);
    assert_eq!(config.bridge.default_policy.group, Policy::Mute);
    assert_eq!(config.bridge.default_policy.channel, Policy::Mute);
    assert_eq!(config.bridge.default_policy.direct, Policy::Active);
    assert_eq!(config.bridge.mute_context, 5);
}

#[test]
fn the_default_policy_can_be_set_per_chat_kind() {
    let raw = format!("{MINIMAL}\n[bridge.default_policy]\ngroup = \"active\"\n");
    let config = accepted(&raw);
    assert_eq!(config.bridge.default_policy.group, Policy::Active);
    assert_eq!(
        config.bridge.default_policy.channel,
        Policy::Mute,
        "the kinds are independent; setting one must not move another"
    );
}

#[test]
fn blocking_by_default_is_allowed_but_said_out_loud() {
    // A bridge that answers nobody is indistinguishable from a broken one.
    let raw = format!("{MINIMAL}\n[bridge.default_policy]\ngroup = \"block\"\n");
    let config = accepted(&raw);
    assert!(
        config
            .warnings
            .iter()
            .any(|warning| warning.contains("default_policy.group")),
        "got: {:?}",
        config.warnings
    );
}

#[test]
fn an_oversized_mute_context_is_rejected() {
    // The lookback is charged to every turn a muted chat wakes, so a generous setting quietly turns
    // mention-only back into every message.
    let raw = format!("{MINIMAL}\n[bridge]\nmute_context = 500\n");
    let error = refused(&raw, "must be rejected");
    assert!(error.contains("mute_context"), "got: {error}");
}

#[test]
fn history_can_be_turned_off_entirely() {
    // Zero has to be a valid setting rather than a rejected one.
    let raw = format!("{MINIMAL}\n[storage]\nhistory_retention = \"0s\"\n");
    let config = accepted(&raw);
    assert!(config.storage.history_retention.is_zero());
}

#[test]
fn the_settle_defaults_are_sized_for_somebody_composing() {
    // Both only apply where the platform reports typing, so neither is latency anybody pays on a
    // message they finished writing before sending.
    let config = accepted(MINIMAL);
    assert_eq!(config.bridge.settle, Duration::from_secs(3));
    assert_eq!(config.bridge.settle_max, Duration::from_secs(30));
    assert_eq!(
        config.bridge.coalesce_floor,
        Duration::from_secs(1),
        "the floor is the whole of the wait where typing cannot be seen, so it stays small"
    );
}

#[test]
fn waiting_for_somebody_to_finish_can_be_turned_off() {
    // Zero removes the whole typing-gated wait and nothing else: the floor is not reachable from
    // the file format, because it exists for the wire rather than as a preference.
    let raw = format!("{MINIMAL}\n[bridge]\nsettle = \"0s\"\n");
    let config = accepted(&raw);
    assert!(config.bridge.settle.is_zero());
    assert!(!config.bridge.coalesce_floor.is_zero());
}

#[test]
fn a_ceiling_below_the_quiet_period_is_rejected() {
    // It would fire before the quiet period could ever elapse, making `settle` dead config.
    let raw = format!("{MINIMAL}\n[bridge]\nsettle = \"5s\"\nsettle_max = \"1s\"\n");
    let error = refused(&raw, "must be rejected");
    assert!(error.contains("settle_max"), "got: {error}");
}

#[test]
fn link_previews_can_be_turned_back_on() {
    let raw = format!("{MINIMAL}link_preview = true\n");
    let config = accepted(&raw);
    let PlatformConfig::Telegram(telegram) = &config.channels[0].platform else {
        panic!("the config under test declares one Telegram channel");
    };
    assert!(telegram.link_preview);
}

const NOBODY: &str = r#"
[meka]
token = "meka-token"

[[channels.telegram]]
id = "telegram"
token = "bot-token"
"#;

#[test]
fn empty_allowlist_is_rejected() {
    let error = refused(NOBODY, "an open bot must be rejected");
    assert!(error.contains("empty allowlist"));
}

#[test]
fn allow_all_replaces_the_allowlist_and_warns() {
    let config = accepted(&format!("{NOBODY}allow_all = true\n"));
    let PlatformConfig::Telegram(telegram) = &config.channels[0].platform else {
        panic!("the config under test declares one Telegram channel");
    };
    assert!(telegram.allow_all);
    assert!(
        config
            .warnings
            .iter()
            .any(|warning| warning.contains("allow_all")),
        "opening a bot to everyone must be said out loud on every startup: {:?}",
        config.warnings
    );
}

#[test]
fn the_empty_allowlist_error_points_at_the_way_out() {
    let error = refused(NOBODY, "an accidentally open bot must be rejected");
    assert!(error.contains("allow_all"), "got: {error}");
}

#[test]
fn missing_channels_are_rejected() {
    let raw = "[meka]\ntoken = \"meka-token\"\n";
    let error = refused(raw, "a bridge with no channels is useless");
    assert!(error.contains("no channels"));
}

#[test]
fn duplicate_channel_ids_are_rejected() {
    let raw = r#"
[meka]
token = "meka-token"

[[channels.telegram]]
id = "same"
token = "a"
allowed_users = [1]

[[channels.telegram]]
id = "same"
token = "b"
allowed_users = [2]
"#;
    let error = refused(raw, "duplicate ids must be rejected");
    assert!(error.contains("duplicate channel id"));
}

#[test]
fn channel_id_with_separator_is_rejected() {
    let raw = r#"
[meka]
token = "meka-token"

[[channels.telegram]]
id = "tele:gram"
token = "a"
allowed_users = [1]
"#;
    let error = refused(raw, "':' would corrupt conversation ids");
    assert!(error.contains("may only contain"));
}

#[test]
fn owner_conversation_must_name_a_configured_channel() {
    let raw = format!("{MINIMAL}\n[bridge]\nowner_conversation = \"discord:1\"\n");
    let error = refused(&raw, "unknown channel must be rejected");
    assert!(error.contains("not configured"));
}

#[test]
fn owner_conversation_accepts_a_configured_channel() {
    let raw = format!("{MINIMAL}\n[bridge]\nowner_conversation = \"telegram:123\"\n");
    let config = accepted(&raw);
    assert_eq!(
        config.bridge.owner_conversation.as_deref(),
        Some("telegram:123")
    );
}

#[test]
fn queue_depth_below_batch_size_is_rejected() {
    let raw = format!("{MINIMAL}\n[bridge]\nmax_queue_depth = 4\nbatch_max_messages = 8\n");
    let error = refused(&raw, "a queue smaller than a batch is a misconfiguration");
    assert!(error.contains("at least batch_max_messages"));
}

#[test]
fn relative_cwd_is_rejected() {
    let raw = format!("{MINIMAL}\n[session]\ncwd = \"relative/path\"\n");
    let error = refused(&raw, "meka requires an absolute cwd");
    assert!(error.contains("absolute path"));
}

#[test]
fn mcp_path_must_be_rooted() {
    let raw = format!("{MINIMAL}\n[mcp]\npath = \"mcp\"\n");
    let error = refused(&raw, "a path without a leading slash must be rejected");
    assert!(error.contains("must start with '/'"));
}

#[test]
fn durations_accept_humantime_strings() {
    let raw = r#"
[meka]
token = "meka-token"
turn_timeout = "90s"
connect_timeout = "2s"

[[channels.telegram]]
id = "telegram"
token = "bot-token"
allowed_users = [123]
"#;
    let config = accepted(raw);
    assert_eq!(config.meka.turn_timeout, Duration::from_secs(90));
    assert_eq!(config.meka.connect_timeout, Duration::from_secs(2));
}

#[test]
fn omitted_tables_use_the_same_defaults_as_omitted_fields() {
    let without_tables = accepted(MINIMAL);
    let with_empty_tables = accepted(&format!(
        "{MINIMAL}\n[session]\n[storage]\n[bridge]\n[mcp]\n"
    ));
    assert_eq!(
        without_tables.session.recreate_on_missing,
        with_empty_tables.session.recreate_on_missing
    );
    assert!(without_tables.session.recreate_on_missing);
    assert_eq!(
        without_tables.storage.attachment_max_bytes,
        with_empty_tables.storage.attachment_max_bytes
    );
    assert_eq!(
        without_tables.storage.attachment_max_bytes,
        20 * 1024 * 1024
    );
    assert_eq!(
        without_tables.storage.attachment_retention,
        with_empty_tables.storage.attachment_retention
    );
}

#[test]
fn storage_paths_default_under_the_data_directory() {
    let config = accepted(MINIMAL);
    assert!(config.storage.path.ends_with("mekabridge/mekabridge.db"));
    assert!(config
        .storage
        .attachment_dir
        .ends_with("mekabridge/attachments"));
}

#[test]
fn relative_storage_paths_resolve_against_the_config_directory() {
    let raw = format!("{MINIMAL}\n[storage]\npath = \"state.db\"\n");
    let config = accepted(&raw);
    assert_eq!(
        config.storage.path, "/etc/mekabridge/state.db",
        "relative paths must anchor to the config file, not the process cwd"
    );
}

#[test]
fn a_path_under_the_home_directory_is_expanded() {
    let raw = format!("{MINIMAL}\n[storage]\npath = \"~/state.db\"\n");
    assert_eq!(accepted(&raw).storage.path, "/home/alice/state.db");
}

#[test]
fn an_address_that_is_none_is_rejected() {
    let raw = MINIMAL.replace(
        "token = \"meka-token\"",
        "token = \"meka-token\"\nbase_url = \"not an address\"",
    );
    let error = refused(&raw, "must be rejected");
    assert!(error.contains("base_url"), "got: {error}");
    let raw = MINIMAL.replace(
        "token = \"meka-token\"",
        "token = \"meka-token\"\nbase_url = \"HTTP://Meka.example:80/api\"",
    );
    assert_eq!(accepted(&raw).meka.base_url, "http://meka.example/api");
}

#[test]
fn token_files_are_named_before_they_are_read() {
    let raw = r#"
[meka]
token_file = "meka.token"

[[channels.telegram]]
id = "telegram"
token_file = "~/bot.token"
allowed_users = [123]
"#;
    let path = "/etc/mekabridge/config.toml";
    let mut around = around();
    let files = file(raw).token_paths(path, &around.home_dir);
    assert_eq!(files, vec!["/etc/mekabridge/meka.token", "/home/alice/bot.token"]);
    for (index, name) in files.iter().enumerate() {
        around.files.push((name.clone(), Ok(format!("token{index}\n"))));
    }
    let Ok(config) = file(raw).resolve(path, &around) else {
        panic!("every token file was read");
    };
    assert_eq!(config.meka.token.expose(), "token0");
    let PlatformConfig::Telegram(telegram) = &config.channels[0].platform else {
        panic!("the config under test declares one Telegram channel");
    };
    assert_eq!(telegram.token.expose(), "token1");
    assert_eq!(telegram.token.origin(), "/home/alice/bot.token");
}

#[test]
fn channel_ids_are_short_and_plain() {
    assert!(validate_channel_id("main-bot_2").is_ok());
    assert!(validate_channel_id("").is_err());
    assert!(validate_channel_id("a b").is_err());
}

#[test]
fn snowflakes_are_positive_numbers() {
    let ids = |raw: &str| parse_snowflakes("[x]", "allowed_users", &vec![raw.to_string()]);
    assert!(ids(" 7").is_err());
    assert!(matches!(ids("7"), Ok(found) if found == vec![7]));
    assert!(matches!(ids("18446744073709551616"), Err(BridgeError::Config { .. })));
    assert!(ids("-1").is_err());
}

#[test]
fn the_config_file_is_under_the_config_directory() {
    let path = config_path_under(Some("/home/alice/.config".to_string())).expect("a directory");
    assert_eq!(path, "/home/alice/.config/mekabridge/config.toml");
    let error = config_path_under(None).expect_err("no directory");
    assert!(error.to_text().contains("pass --config"));
    if let Ok(path) = default_config_path() {
        assert!(path.ends_with("mekabridge/config.toml"));
    }
}

#[test]
fn the_surroundings_start_with_no_file_read() {
    let around = Surroundings::gather(vec![("A".to_string(), "b".to_string())]);
    assert!(around.files.is_empty());
    assert_eq!(around.variables.len(), 1);
}

#[test]
fn a_permission_is_read_back_from_its_name() {
    for permission in [
        Permission::NoAccess,
        Permission::Read,
        Permission::Workspace,
        Permission::Ask,
        Permission::Unrestricted,
    ] {
        assert_eq!(Permission::parse(permission.as_str()), Some(permission));
    }
    assert_eq!(Permission::NoAccess.as_str(), "none");
    assert_eq!(Permission::Unrestricted.as_str(), "unrestricted");
    for name in ["write", "Read", "noaccess", ""] {
        assert_eq!(Permission::parse(name), None, "{name:?} names no level");
    }
}
