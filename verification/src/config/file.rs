//! The tables of the config file, and the checks that make a [`Config`] of them.

use vstd::prelude::*;
use vstd::string::*;

use crate::channel::ids::ConversationId;
use crate::config::secret::{self, FileRead, Secret, SecretView};
use crate::config::{
    BridgeConfig, ChannelConfig, Config, DefaultPolicy, DiscordConfig, LogConfig, LogFormat,
    McpConfig, McpTransport, MekaConfig, Permission, PlatformConfig, SessionConfig, StorageConfig,
    TelegramConfig, TelegramParseMode,
};
use crate::error::{BridgeError, BridgeErrorView, Result};
use crate::paths;
use crate::store::Policy;
use crate::text;
use crate::time::Duration;

verus! {

/// Ceiling on `[bridge].mute_context`. The lookback is charged to every turn a muted conversation
/// wakes, so a generous setting quietly turns "only wake me for mentions" back into "send me the
/// whole chat".
pub const MAX_MUTE_CONTEXT: usize = 50;

/// The whole file.
pub struct FileConfig {
    pub meka: FileMeka,
    pub session: FileSession,
    pub bridge: FileBridge,
    pub mcp: FileMcp,
    pub storage: FileStorage,
    pub log: FileLog,
    pub channels: FileChannels,
}

/// The `[meka]` table.
pub struct FileMeka {
    pub base_url: String,
    pub token: Option<String>,
    pub token_file: Option<String>,
    pub connect_timeout: Duration,
    pub turn_timeout: Duration,
    pub max_retries: u32,
}

/// The `[session]` table.
pub struct FileSession {
    pub cwd: Option<String>,
    pub permission: Permission,
    pub recreate_on_missing: bool,
}

/// The `[bridge]` table.
pub struct FileBridge {
    pub owner_conversation: Option<String>,
    pub max_queue_depth: usize,
    pub batch_max_messages: usize,
    pub settle: Duration,
    pub settle_max: Duration,
    pub turn_retries: u32,
    pub notify_failures: bool,
    pub typing_indicator: bool,
    /// Unset follows `[meka].turn_timeout`, which is resolved once both are known.
    pub typing_max: Option<Duration>,
    pub default_policy: FileDefaultPolicy,
    pub mute_context: usize,
}

/// The `[bridge.default_policy]` table.
#[derive(Clone, Copy, Debug)]
pub struct FileDefaultPolicy {
    pub direct: Policy,
    pub group: Policy,
    pub channel: Policy,
}

/// The `[mcp]` table.
pub struct FileMcp {
    pub transport: McpTransport,
    pub bind: String,
    pub path: String,
    pub token: Option<String>,
    pub token_file: Option<String>,
    pub allowed_hosts: Vec<String>,
    pub health: bool,
}

/// The `[storage]` table.
pub struct FileStorage {
    pub path: Option<String>,
    pub attachment_dir: Option<String>,
    pub attachment_max_bytes: u64,
    pub attachment_retention: Duration,
    pub history_retention: Duration,
}

/// The `[log]` table.
pub struct FileLog {
    pub level: String,
    pub format: LogFormat,
}

/// The `[[channels.*]]` tables.
pub struct FileChannels {
    pub telegram: Vec<FileTelegram>,
    pub discord: Vec<FileDiscord>,
}

/// One `[[channels.telegram]]` table.
pub struct FileTelegram {
    pub id: String,
    pub token: Option<String>,
    pub token_file: Option<String>,
    pub allowed_users: Vec<i64>,
    pub allowed_chats: Vec<i64>,
    pub allow_all: bool,
    pub admin_tools: bool,
    pub parse_mode: TelegramParseMode,
    pub link_preview: bool,
    pub poll_timeout: Duration,
}

/// One `[[channels.discord]]` table.
///
/// Ids are strings rather than the integers Telegram uses. Snowflakes are strings everywhere in
/// Discord's own API, a string is what you get when you copy one out of the client, and they are
/// validated at load time so a typo is a startup error rather than a chat that silently never
/// matches.
pub struct FileDiscord {
    pub id: String,
    pub token: Option<String>,
    pub token_file: Option<String>,
    pub allowed_users: Vec<String>,
    pub allowed_guilds: Vec<String>,
    pub allowed_channels: Vec<String>,
    pub allowed_roles: Vec<String>,
    pub allow_all: bool,
    pub admin_tools: bool,
    pub message_content: bool,
    pub presence: bool,
    pub mention_everyone: bool,
    pub mention_roles: bool,
    pub link_preview: bool,
}

/// What configuration depends on besides the file itself.
pub struct Surroundings {
    pub home_dir: Option<String>,
    pub data_dir: Option<String>,
    /// The environment variables that are set, by name.
    pub variables: Vec<(String, String)>,
    /// What was read of each token file, by its expanded path.
    pub files: Vec<(String, FileRead)>,
}

impl Surroundings {
    /// The surroundings of this process, given its environment variables and before any token file
    /// has been read. Where the home and data directories are depends on the environment.
    pub fn gather(variables: Vec<(String, String)>) -> (around: Surroundings)
        ensures
            around.variables == variables,
            around.files@.len() == 0,
    {
        Surroundings {
            home_dir: paths::platform_home_dir(),
            data_dir: paths::platform_data_dir(),
            variables,
            files: Vec::new(),
        }
    }
}

/// What `url::Url::parse` makes of a text: the address as it writes it, or its error.
pub uninterp spec fn url_reading(text: Seq<char>) -> core::result::Result<Seq<char>, Seq<char>>;

/// Reads an address with `url::Url::parse`. What it makes of a text depends on the text alone.
#[verifier::external_body]
fn parse_url(address: &str) -> (url: core::result::Result<String, String>)
    ensures
        match url {
            Ok(url) => url_reading(address@) == Ok::<Seq<char>, Seq<char>>(url@),
            Err(error) => url_reading(address@) == Err::<Seq<char>, Seq<char>>(error@),
        },
{
    match url::Url::parse(address) {
        Ok(url) => Ok(url.as_str().to_string()),
        Err(error) => Err(error.to_string()),
    }
}

/// A refusal with a message about the configuration.
pub open spec fn refused(message: Seq<char>) -> Option<BridgeErrorView> {
    Some(BridgeErrorView::Config { message })
}

/// The first refusal of two.
pub open spec fn or_else(
    first: Option<BridgeErrorView>,
    second: Option<BridgeErrorView>,
) -> Option<BridgeErrorView> {
    match first {
        Some(error) => Some(error),
        None => second,
    }
}

/// `text` where `on`, as a list of one.
pub open spec fn when(on: bool, text: Seq<char>) -> Seq<Seq<char>> {
    if on {
        seq![text]
    } else {
        Seq::empty()
    }
}

/// What was read of the file at `path`, from the first entry of that path.
pub open spec fn read_of(files: Seq<(String, FileRead)>, path: Seq<char>) -> core::result::Result<
    Seq<char>,
    Seq<char>,
>
    decreases files.len(),
{
    if files.len() == 0 {
        Err("the file was not read"@)
    } else if files[0].0@ == path {
        match files[0].1 {
            Ok(contents) => Ok(contents@),
            Err(source) => Err(source@),
        }
    } else {
        read_of(files.skip(1), path)
    }
}

fn find_read(files: &Vec<(String, FileRead)>, path: &str) -> (read: FileRead)
    ensures
        match read {
            Ok(contents) => read_of(files@, path@) == Ok::<Seq<char>, Seq<char>>(contents@),
            Err(source) => read_of(files@, path@) == Err::<Seq<char>, Seq<char>>(source@),
        },
{
    let mut i: usize = 0;
    assert(files@.skip(0) =~= files@);
    while i < files.len()
        invariant
            i <= files.len(),
            read_of(files@, path@) == read_of(files@.skip(i as int), path@),
        decreases files.len() - i,
    {
        assert(files@.skip(i as int)[0] == files@[i as int]);
        assert(files@.skip(i as int).skip(1) =~= files@.skip(i + 1));
        if text::same(files[i].0.as_str(), path) {
            return match &files[i].1 {
                Ok(contents) => Ok(contents.clone()),
                Err(source) => Err(source.clone()),
            };
        }
        i += 1;
    }
    Err("the file was not read".to_owned())
}

/// The credential of one table, or the error it is refused with.
pub open spec fn table_credential(
    label: Seq<char>,
    token: Option<String>,
    token_file: Option<String>,
    dir: Seq<char>,
    around: Surroundings,
) -> core::result::Result<SecretView, BridgeErrorView> {
    let inline = token.deep_view();
    let variables = around.variables.deep_view();
    match token_file {
        None => secret::credential(label, inline, None, variables),
        Some(raw) => match paths::expanded(raw@, dir, around.home_dir.deep_view()) {
            Err(error) => Err(error),
            Ok(path) => secret::credential(
                label,
                inline,
                Some((path, read_of(around.files@, path))),
                variables,
            ),
        },
    }
}

/// The error that the credential of one table is refused with, if it is.
pub open spec fn credential_refusal(
    label: Seq<char>,
    token: Option<String>,
    token_file: Option<String>,
    dir: Seq<char>,
    around: Surroundings,
) -> Option<BridgeErrorView> {
    match table_credential(label, token, token_file, dir, around) {
        Ok(_) => None,
        Err(error) => Some(error),
    }
}

fn table_secret(
    label: &str,
    token: &Option<String>,
    token_file: &Option<String>,
    dir: &str,
    around: &Surroundings,
    warnings: &mut Vec<String>,
) -> (secret: Result<Secret>)
    ensures
        match secret {
            Ok(secret) => {
                &&& table_credential(label@, *token, *token_file, dir@, *around) == Ok::<
                    SecretView,
                    BridgeErrorView,
                >(secret@)
                &&& final(warnings).deep_view() == old(warnings).deep_view() + secret::advisories(
                    label@,
                    token.deep_view(),
                )
            },
            Err(error) => table_credential(label@, *token, *token_file, dir@, *around) == Err::<
                SecretView,
                BridgeErrorView,
            >(error.deep_view()),
        },
{
    let inline = match token {
        Some(token) => Some(token.as_str()),
        None => None,
    };
    match token_file {
        None => secret::resolve(label, inline, None, &around.variables, warnings),
        Some(raw) => match paths::expand_path(raw.as_str(), dir, &around.home_dir) {
            Err(error) => Err(error),
            Ok(path) => {
                let read = find_read(&around.files, path.as_str());
                secret::resolve(
                    label,
                    inline,
                    Some((path.as_str(), &read)),
                    &around.variables,
                    warnings,
                )
            },
        },
    }
}

/// Whether `c` may stand in the id of a channel.
pub open spec fn is_id_char(c: char) -> bool {
    'a' <= c <= 'z' || 'A' <= c <= 'Z' || '0' <= c <= '9' || c == '-' || c == '_'
}

/// Why `id` cannot be the id of a channel, if it cannot.
pub open spec fn id_refusal(id: Seq<char>) -> Option<BridgeErrorView> {
    if id.len() == 0 {
        refused("channel id must not be empty"@)
    } else if exists|i: int| 0 <= i < id.len() && !is_id_char(#[trigger] id[i]) {
        refused(
            "channel id "@ + text::debug_quoted(id)
                + " may only contain ASCII letters, digits, '-' and '_'"@,
        )
    } else {
        None
    }
}

/// Channel ids end up as the first segment of `<channel>:<chat>` conversation ids, so they must not
/// contain the separator or whitespace.
pub fn validate_channel_id(id: &str) -> (valid: Result<()>)
    ensures
        match valid {
            Ok(_) => id_refusal(id@) is None,
            Err(error) => id_refusal(id@) == Some(error.deep_view()),
        },
{
    let chars = text::chars_of(id);
    if chars.len() == 0 {
        return Err(BridgeError::config("channel id must not be empty"));
    }
    let mut i: usize = 0;
    while i < chars.len()
        invariant
            i <= chars@.len(),
            chars@ == id@,
            id@.len() > 0,
            forall|j: int| 0 <= j < i ==> is_id_char(#[trigger] id@[j]),
        decreases chars@.len() - i,
    {
        let c = chars[i];
        if !(('a' <= c && c <= 'z') || ('A' <= c && c <= 'Z') || ('0' <= c && c <= '9') || c == '-'
            || c == '_') {
            assert(!is_id_char(id@[i as int]));
            return Err(
                BridgeError::config(
                    "channel id ".to_owned().concat(text::quoted(id).as_str()).concat(
                        " may only contain ASCII letters, digits, '-' and '_'",
                    ).as_str(),
                ),
            );
        }
        i += 1;
    }
    Ok(())
}

/// A channel id that is accepted holds no separator, so every conversation of the channel can be
/// told apart again in its text form.
pub proof fn an_accepted_id_holds_no_separator(id: Seq<char>)
    requires
        id_refusal(id) is None,
    ensures
        id.len() > 0,
        !id.contains(':'),
{
    if id.contains(':') {
        let i = choose|i: int| 0 <= i < id.len() && id[i] == ':';
        assert(!is_id_char(id[i]));
    }
}

/// The id that a text spells, where it spells a positive one.
pub open spec fn snowflake(raw: Seq<char>) -> Option<nat> {
    match text::unsigned_in(raw, u64::MAX as nat) {
        Some(id) if id != 0 => Some(id),
        _ => None,
    }
}

/// Why a list of ids is refused, if it is: for the first that is not one.
pub open spec fn snowflakes_refusal(
    label: Seq<char>,
    field: Seq<char>,
    raw: Seq<String>,
) -> Option<BridgeErrorView>
    decreases raw.len(),
{
    if raw.len() == 0 {
        None
    } else {
        or_else(
            snowflakes_refusal(label, field, raw.drop_last()),
            if snowflake(raw.last()@) is None {
                refused(
                    label + ": "@ + field + " contains "@ + text::debug_quoted(raw.last()@)
                        + ", which is not a Discord id; ids are positive decimal numbers, copied \
                           with Developer Mode on"@,
                )
            } else {
                None
            },
        )
    }
}

/// Whether `ids` are what the texts `raw` spell.
pub open spec fn spelled(raw: Seq<String>, ids: Seq<u64>) -> bool {
    &&& ids.len() == raw.len()
    &&& forall|i: int| 0 <= i < ids.len() ==> snowflake(raw[i]@) == Some(#[trigger] ids[i] as nat)
}

proof fn a_refused_part_refuses_the_whole(
    label: Seq<char>,
    field: Seq<char>,
    raw: Seq<String>,
    upto: int,
)
    requires
        0 <= upto <= raw.len(),
        snowflakes_refusal(label, field, raw.take(upto)) is Some,
    ensures
        snowflakes_refusal(label, field, raw) == snowflakes_refusal(label, field, raw.take(upto)),
    decreases raw.len(),
{
    if upto < raw.len() {
        assert(raw.drop_last().take(upto) =~= raw.take(upto));
        a_refused_part_refuses_the_whole(label, field, raw.drop_last(), upto);
    } else {
        assert(raw.take(upto) =~= raw);
    }
}

/// Parses a list of Discord snowflakes, naming the field and the offending value on failure.
///
/// Zero is rejected along with anything unparseable. No snowflake is ever zero, and the id type the
/// connector builds these into panics on one, so letting it through here would turn a config typo
/// into a crash at startup rather than the error it is.
pub fn parse_snowflakes(label: &str, field: &str, raw: &Vec<String>) -> (ids: Result<Vec<u64>>)
    ensures
        match ids {
            Ok(ids) => snowflakes_refusal(label@, field@, raw@) is None && spelled(raw@, ids@),
            Err(error) => snowflakes_refusal(label@, field@, raw@) == Some(error.deep_view()),
        },
{
    let mut ids: Vec<u64> = Vec::new();
    let mut i: usize = 0;
    while i < raw.len()
        invariant
            i <= raw.len(),
            snowflakes_refusal(label@, field@, raw@.take(i as int)) is None,
            spelled(raw@.take(i as int), ids@),
        decreases raw.len() - i,
    {
        assert(raw@.take(i + 1).drop_last() =~= raw@.take(i as int));
        assert(raw@.take(i + 1).last() == raw@[i as int]);
        let parsed = text::parse_u64(raw[i].as_str());
        match parsed {
            Some(id) if id != 0 => {
                ids.push(id);
            },
            _ => {
                proof {
                    a_refused_part_refuses_the_whole(label@, field@, raw@, i + 1);
                }
                return Err(
                    BridgeError::config(
                        label.to_owned().concat(": ").concat(field).concat(" contains ").concat(
                            text::quoted(raw[i].as_str()).as_str(),
                        ).concat(
                            ", which is not a Discord id; ids are positive decimal numbers, copied \
                             with Developer Mode on",
                        ).as_str(),
                    ),
                );
            },
        }
        assert forall|j: int| 0 <= j < ids@.len() implies snowflake(raw@.take(i + 1)[j]@) == Some(
            #[trigger] ids@[j] as nat,
        ) by {
            if j < i {
                assert(raw@.take(i as int)[j] == raw@[j]);
            }
        }
        i += 1;
    }
    assert(raw@.take(i as int) =~= raw@);
    Ok(ids)
}

/// How a Telegram channel is named in messages.
pub open spec fn telegram_label(id: Seq<char>) -> Seq<char> {
    "[[channels.telegram]] id = "@ + text::debug_quoted(id)
}

/// How a Discord channel is named in messages.
pub open spec fn discord_label(id: Seq<char>) -> Seq<char> {
    "[[channels.discord]] id = "@ + text::debug_quoted(id)
}

/// Why an id is refused that another channel has already, if it is.
pub open spec fn duplicate_refusal(id: Seq<char>, seen: Seq<Seq<char>>) -> Option<BridgeErrorView> {
    if seen.contains(id) {
        refused(
            "duplicate channel id "@ + text::debug_quoted(id)
                + "; ids must be unique across all platforms"@,
        )
    } else {
        None
    }
}

/// Why a Telegram channel is refused, if it is, given the ids of the channels before it.
pub open spec fn telegram_refusal(
    table: FileTelegram,
    seen: Seq<Seq<char>>,
    dir: Seq<char>,
    around: Surroundings,
) -> Option<BridgeErrorView> {
    let label = telegram_label(table.id@);
    or_else(
        id_refusal(table.id@),
        or_else(
            duplicate_refusal(table.id@, seen),
            or_else(
                if !table.allow_all && table.allowed_users@.len() == 0 && table.allowed_chats@.len()
                    == 0 {
                    refused(
                        label
                            + " has an empty allowlist; set `allowed_users` or `allowed_chats`, or \
                               `allow_all` if the bot really should accept messages from anyone \
                               who finds it"@,
                    )
                } else {
                    None
                },
                credential_refusal(label, table.token, table.token_file, dir, around),
            ),
        ),
    )
}

/// What is said of a Telegram channel that was accepted.
pub open spec fn telegram_warnings(table: FileTelegram) -> Seq<Seq<char>> {
    let label = telegram_label(table.id@);
    when(
        table.allow_all,
        label
            + " sets `allow_all`, so anyone who finds the bot can reach the agent. On Telegram a \
               private chat id is the user's own id, so this admits individuals as well as \
               groups."@,
    ) + when(
        table.allowed_users@.len() > 0 && table.allowed_chats@.len() == 0 && !table.allow_all,
        label
            + " allowlists people but no chats, so the agent is reachable by direct message only. \
               Add the group's id to `allowed_chats` to be heard in it; `allowed_users` no longer \
               admits anybody outside their own chat."@,
    ) + secret::advisories(label, table.token.deep_view())
}

/// Whether `channel` is what a Telegram table stands for.
pub open spec fn telegram_made(
    table: FileTelegram,
    channel: ChannelConfig,
    dir: Seq<char>,
    around: Surroundings,
) -> bool {
    &&& channel.id == table.id
    &&& channel.platform matches PlatformConfig::Telegram(made)
    &&& table_credential(
        telegram_label(table.id@),
        table.token,
        table.token_file,
        dir,
        around,
    ) == Ok::<SecretView, BridgeErrorView>(made.token@)
    &&& made.allowed_users == table.allowed_users
    &&& made.allowed_chats == table.allowed_chats
    &&& made.allow_all == table.allow_all
    &&& made.admin_tools == table.admin_tools
    &&& made.parse_mode == table.parse_mode
    &&& made.link_preview == table.link_preview
    &&& made.poll_timeout == table.poll_timeout
}

/// Checks one Telegram table.
fn resolve_telegram(
    table: FileTelegram,
    seen: &Vec<String>,
    dir: &str,
    around: &Surroundings,
    warnings: &mut Vec<String>,
) -> (channel: Result<ChannelConfig>)
    ensures
        match channel {
            Ok(channel) => {
                &&& telegram_refusal(table, seen.deep_view(), dir@, *around) is None
                &&& telegram_made(table, channel, dir@, *around)
                &&& final(warnings).deep_view() == old(warnings).deep_view() + telegram_warnings(
                    table,
                )
            },
            Err(error) => telegram_refusal(table, seen.deep_view(), dir@, *around) == Some(
                error.deep_view(),
            ),
        },
{
    if let Err(error) = validate_channel_id(table.id.as_str()) {
        return Err(error);
    }
    if text::holds(seen, table.id.as_str()) {
        return Err(
            BridgeError::config(
                "duplicate channel id ".to_owned().concat(
                    text::quoted(table.id.as_str()).as_str(),
                ).concat("; ids must be unique across all platforms").as_str(),
            ),
        );
    }
    let ghost before = warnings.deep_view();
    let label = "[[channels.telegram]] id = ".to_owned().concat(
        text::quoted(table.id.as_str()).as_str(),
    );
    if table.allow_all {
        // Repeated at every startup rather than logged once at the point of change, because the
        // risk is ongoing and the config that set it may have been written long ago by somebody
        // else.
        text::push(
            warnings,
            label.clone().concat(
                " sets `allow_all`, so anyone who finds the bot can reach the agent. On Telegram a \
                 private chat id is the user's own id, so this admits individuals as well as \
                 groups.",
            ),
        );
    } else if table.allowed_users.len() == 0 && table.allowed_chats.len() == 0 {
        return Err(
            BridgeError::config(
                label.concat(
                    " has an empty allowlist; set `allowed_users` or `allowed_chats`, or \
                     `allow_all` if the bot really should accept messages from anyone who finds it",
                ).as_str(),
            ),
        );
    }
    // `allowed_users` reaches direct messages alone, and a bot that had been answering in a group
    // would go quiet there with nothing to explain it.
    if table.allowed_users.len() > 0 && table.allowed_chats.len() == 0 && !table.allow_all {
        text::push(
            warnings,
            label.clone().concat(
                " allowlists people but no chats, so the agent is reachable by direct message \
                 only. Add the group's id to `allowed_chats` to be heard in it; `allowed_users` no \
                 longer admits anybody outside their own chat.",
            ),
        );
    }
    let token = match table_secret(
        label.as_str(),
        &table.token,
        &table.token_file,
        dir,
        around,
        warnings,
    ) {
        Ok(token) => token,
        Err(error) => {
            return Err(error);
        },
    };
    assert(warnings.deep_view() =~= before + telegram_warnings(table));
    Ok(
        ChannelConfig {
            id: table.id,
            platform: PlatformConfig::Telegram(
                TelegramConfig {
                    token,
                    allowed_users: table.allowed_users,
                    allowed_chats: table.allowed_chats,
                    allow_all: table.allow_all,
                    admin_tools: table.admin_tools,
                    parse_mode: table.parse_mode,
                    link_preview: table.link_preview,
                    poll_timeout: table.poll_timeout,
                },
            ),
        },
    )
}

/// Why the id lists of a Discord channel are refused, if they are.
pub open spec fn lists_refusal(table: FileDiscord) -> Option<BridgeErrorView> {
    let label = discord_label(table.id@);
    or_else(
        snowflakes_refusal(label, "allowed_users"@, table.allowed_users@),
        or_else(
            snowflakes_refusal(label, "allowed_guilds"@, table.allowed_guilds@),
            or_else(
                snowflakes_refusal(label, "allowed_channels"@, table.allowed_channels@),
                snowflakes_refusal(label, "allowed_roles"@, table.allowed_roles@),
            ),
        ),
    )
}

/// Whether a Discord channel admits anybody in a server.
pub open spec fn admits_servers(table: FileDiscord) -> bool {
    table.allowed_guilds@.len() > 0 || table.allowed_channels@.len() > 0
        || table.allowed_roles@.len() > 0
}

/// Why a Discord channel is refused, if it is, given the ids of the channels before it.
pub open spec fn discord_refusal(
    table: FileDiscord,
    seen: Seq<Seq<char>>,
    dir: Seq<char>,
    around: Surroundings,
) -> Option<BridgeErrorView> {
    let label = discord_label(table.id@);
    or_else(
        id_refusal(table.id@),
        or_else(
            duplicate_refusal(table.id@, seen),
            or_else(
                lists_refusal(table),
                or_else(
                    if !table.allow_all && table.allowed_users@.len() == 0 && !admits_servers(
                        table,
                    ) {
                        refused(
                            label
                                + " has an empty allowlist; set `allowed_users`, `allowed_guilds`, \
                                   `allowed_channels`, or `allowed_roles`, or `allow_all` if the \
                                   bot really should accept messages from anyone who finds it"@,
                        )
                    } else {
                        None
                    },
                    credential_refusal(label, table.token, table.token_file, dir, around),
                ),
            ),
        ),
    )
}

/// What is said of a Discord channel that was accepted.
pub open spec fn discord_warnings(table: FileDiscord) -> Seq<Seq<char>> {
    let label = discord_label(table.id@);
    when(
        table.allow_all,
        label
            + " sets `allow_all`, so anyone who finds the bot can reach the agent, including by \
               direct message."@,
    ) + when(
        table.allowed_users@.len() > 0 && !admits_servers(table) && !table.allow_all,
        label
            + " allowlists people but no channels, servers, or roles, so the agent is reachable by \
               direct message only. Add ids to `allowed_channels`, `allowed_roles`, or \
               `allowed_guilds` to be heard in a server; `allowed_users` no longer admits anybody \
               outside a direct message."@,
    ) + when(
        table.allowed_guilds@.len() > 0,
        label + " sets `allowed_guilds`, which admits every member of "@ + text::decimal(
            table.allowed_guilds@.len(),
        ) + " server(s), not just the people already in a shared channel."@,
    ) + when(
        table.presence,
        label
            + " sets `presence = true`, so this bot asks Discord for the Presence Intent. Enable \
               it under Privileged Gateway Intents in the Developer Portal first, or the gateway \
               closes with a 4014 at startup. The bridge will track the availability of everyone \
               in every server it is in; it keeps only online or idle or busy, never what they are \
               doing, and writes none of it to disk."@,
    ) + when(
        !table.message_content,
        label
            + " sets `message_content = false`, so Discord blanks the text of every server message \
               except those mentioning the bot. The agent can still be woken by name but will have \
               no record of what led up to it."@,
    ) + secret::advisories(label, table.token.deep_view())
}

/// Whether `channel` is what a Discord table stands for.
pub open spec fn discord_made(
    table: FileDiscord,
    channel: ChannelConfig,
    dir: Seq<char>,
    around: Surroundings,
) -> bool {
    &&& channel.id == table.id
    &&& channel.platform matches PlatformConfig::Discord(made)
    &&& table_credential(
        discord_label(table.id@),
        table.token,
        table.token_file,
        dir,
        around,
    ) == Ok::<SecretView, BridgeErrorView>(made.token@)
    &&& spelled(table.allowed_users@, made.allowed_users@)
    &&& spelled(table.allowed_guilds@, made.allowed_guilds@)
    &&& spelled(table.allowed_channels@, made.allowed_channels@)
    &&& spelled(table.allowed_roles@, made.allowed_roles@)
    &&& made.allow_all == table.allow_all
    &&& made.admin_tools == table.admin_tools
    &&& made.message_content == table.message_content
    &&& made.presence == table.presence
    &&& made.mention_everyone == table.mention_everyone
    &&& made.mention_roles == table.mention_roles
    &&& made.link_preview == table.link_preview
}

/// Appends `label` followed by `rest` where `on`.
fn warn_when(on: bool, label: &str, rest: &str, warnings: &mut Vec<String>)
    ensures
        final(warnings).deep_view() == old(warnings).deep_view() + when(on, label@ + rest@),
{
    if on {
        text::push(warnings, label.to_owned().concat(rest));
    }
    assert(warnings.deep_view() =~= old(warnings).deep_view() + when(on, label@ + rest@));
}

/// Says what there is to say of a Discord channel, but for its credential.
fn warn_discord(table: &FileDiscord, label: &str, warnings: &mut Vec<String>)
    requires
        label@ == discord_label(table.id@),
    ensures
        final(warnings).deep_view() + secret::advisories(label@, table.token.deep_view()) == old(
            warnings,
        ).deep_view() + discord_warnings(*table),
{
    let guilds: usize = table.allowed_guilds.len();
    let reaches_servers = guilds > 0 || table.allowed_channels.len() > 0
        || table.allowed_roles.len() > 0;
    warn_when(
        table.allow_all,
        label,
        " sets `allow_all`, so anyone who finds the bot can reach the agent, including by direct \
         message.",
        warnings,
    );
    warn_when(
        table.allowed_users.len() > 0 && !reaches_servers && !table.allow_all,
        label,
        " allowlists people but no channels, servers, or roles, so the agent is reachable by \
         direct message only. Add ids to `allowed_channels`, `allowed_roles`, or `allowed_guilds` \
         to be heard in a server; `allowed_users` no longer admits anybody outside a direct \
         message.",
        warnings,
    );
    // A Telegram chat allowlist admits a room. This admits everybody in a server, which in a large
    // one is thousands of people who can each wake the agent by name.
    let grant = " sets `allowed_guilds`, which admits every member of ".to_owned().concat(
        text::number(guilds as u64).as_str(),
    ).concat(" server(s), not just the people already in a shared channel.");
    warn_when(guilds > 0, label, grant.as_str(), warnings);
    warn_when(
        table.presence,
        label,
        " sets `presence = true`, so this bot asks Discord for the Presence Intent. Enable it \
         under Privileged Gateway Intents in the Developer Portal first, or the gateway closes \
         with a 4014 at startup. The bridge will track the availability of everyone in every \
         server it is in; it keeps only online or idle or busy, never what they are doing, and \
         writes none of it to disk.",
        warnings,
    );
    warn_when(
        !table.message_content,
        label,
        " sets `message_content = false`, so Discord blanks the text of every server message \
         except those mentioning the bot. The agent can still be woken by name but will have no \
         record of what led up to it.",
        warnings,
    );
    proof {
        assert(label@ + grant@ =~= label@ + " sets `allowed_guilds`, which admits every member of "@
            + text::decimal(guilds as nat)
            + " server(s), not just the people already in a shared channel."@);
        assert(warnings.deep_view() + secret::advisories(label@, table.token.deep_view()) =~= old(
            warnings,
        ).deep_view() + discord_warnings(*table));
    }
}

/// Checks one Discord table.
fn resolve_discord(
    table: FileDiscord,
    seen: &Vec<String>,
    dir: &str,
    around: &Surroundings,
    warnings: &mut Vec<String>,
) -> (channel: Result<ChannelConfig>)
    ensures
        match channel {
            Ok(channel) => {
                &&& discord_refusal(table, seen.deep_view(), dir@, *around) is None
                &&& discord_made(table, channel, dir@, *around)
                &&& final(warnings).deep_view() == old(warnings).deep_view() + discord_warnings(
                    table,
                )
            },
            Err(error) => discord_refusal(table, seen.deep_view(), dir@, *around) == Some(
                error.deep_view(),
            ),
        },
{
    if let Err(error) = validate_channel_id(table.id.as_str()) {
        return Err(error);
    }
    if text::holds(seen, table.id.as_str()) {
        return Err(
            BridgeError::config(
                "duplicate channel id ".to_owned().concat(
                    text::quoted(table.id.as_str()).as_str(),
                ).concat("; ids must be unique across all platforms").as_str(),
            ),
        );
    }
    let label = "[[channels.discord]] id = ".to_owned().concat(
        text::quoted(table.id.as_str()).as_str(),
    );
    let allowed_users = match parse_snowflakes(
        label.as_str(),
        "allowed_users",
        &table.allowed_users,
    ) {
        Ok(ids) => ids,
        Err(error) => {
            return Err(error);
        },
    };
    let allowed_guilds = match parse_snowflakes(
        label.as_str(),
        "allowed_guilds",
        &table.allowed_guilds,
    ) {
        Ok(ids) => ids,
        Err(error) => {
            return Err(error);
        },
    };
    let allowed_channels = match parse_snowflakes(
        label.as_str(),
        "allowed_channels",
        &table.allowed_channels,
    ) {
        Ok(ids) => ids,
        Err(error) => {
            return Err(error);
        },
    };
    let allowed_roles = match parse_snowflakes(
        label.as_str(),
        "allowed_roles",
        &table.allowed_roles,
    ) {
        Ok(ids) => ids,
        Err(error) => {
            return Err(error);
        },
    };
    if !table.allow_all && allowed_users.len() == 0 && allowed_guilds.len() == 0
        && allowed_channels.len() == 0 && allowed_roles.len() == 0 {
        return Err(
            BridgeError::config(
                label.concat(
                    " has an empty allowlist; set `allowed_users`, `allowed_guilds`, \
                     `allowed_channels`, or `allowed_roles`, or `allow_all` if the bot really \
                     should accept messages from anyone who finds it",
                ).as_str(),
            ),
        );
    }
    warn_discord(&table, label.as_str(), warnings);
    let token = match table_secret(
        label.as_str(),
        &table.token,
        &table.token_file,
        dir,
        around,
        warnings,
    ) {
        Ok(token) => token,
        Err(error) => {
            return Err(error);
        },
    };
    Ok(
        ChannelConfig {
            id: table.id,
            platform: PlatformConfig::Discord(
                DiscordConfig {
                    token,
                    allowed_users,
                    allowed_guilds,
                    allowed_channels,
                    allowed_roles,
                    allow_all: table.allow_all,
                    admin_tools: table.admin_tools,
                    message_content: table.message_content,
                    presence: table.presence,
                    mention_everyone: table.mention_everyone,
                    mention_roles: table.mention_roles,
                    link_preview: table.link_preview,
                },
            ),
        },
    )
}

/// The ids of a run of Telegram tables.
pub open spec fn telegram_ids(tables: Seq<FileTelegram>) -> Seq<Seq<char>> {
    tables.map_values(|table: FileTelegram| table.id@)
}

/// The ids of a run of Discord tables.
pub open spec fn discord_ids(tables: Seq<FileDiscord>) -> Seq<Seq<char>> {
    tables.map_values(|table: FileDiscord| table.id@)
}

/// Why a run of Telegram tables is refused, if it is: for the first table that is.
pub open spec fn telegrams_refusal(
    tables: Seq<FileTelegram>,
    dir: Seq<char>,
    around: Surroundings,
) -> Option<BridgeErrorView>
    decreases tables.len(),
{
    if tables.len() == 0 {
        None
    } else {
        let before = tables.drop_last();
        or_else(
            telegrams_refusal(before, dir, around),
            telegram_refusal(tables.last(), telegram_ids(before), dir, around),
        )
    }
}

/// Why a run of Discord tables is refused, if it is, given the ids of the channels before it.
pub open spec fn discords_refusal(
    tables: Seq<FileDiscord>,
    seen: Seq<Seq<char>>,
    dir: Seq<char>,
    around: Surroundings,
) -> Option<BridgeErrorView>
    decreases tables.len(),
{
    if tables.len() == 0 {
        None
    } else {
        let before = tables.drop_last();
        or_else(
            discords_refusal(before, seen, dir, around),
            discord_refusal(tables.last(), seen + discord_ids(before), dir, around),
        )
    }
}

/// What is said of a run of Telegram tables.
pub open spec fn telegrams_warnings(tables: Seq<FileTelegram>) -> Seq<Seq<char>>
    decreases tables.len(),
{
    if tables.len() == 0 {
        Seq::empty()
    } else {
        telegrams_warnings(tables.drop_last()) + telegram_warnings(tables.last())
    }
}

/// What is said of a run of Discord tables.
pub open spec fn discords_warnings(tables: Seq<FileDiscord>) -> Seq<Seq<char>>
    decreases tables.len(),
{
    if tables.len() == 0 {
        Seq::empty()
    } else {
        discords_warnings(tables.drop_last()) + discord_warnings(tables.last())
    }
}

proof fn telegrams_refused_early(
    tables: Seq<FileTelegram>,
    upto: int,
    dir: Seq<char>,
    around: Surroundings,
)
    requires
        0 <= upto <= tables.len(),
        telegrams_refusal(tables.take(upto), dir, around) is Some,
    ensures
        telegrams_refusal(tables, dir, around) == telegrams_refusal(
            tables.take(upto),
            dir,
            around,
        ),
    decreases tables.len(),
{
    if upto < tables.len() {
        assert(tables.drop_last().take(upto) =~= tables.take(upto));
        telegrams_refused_early(tables.drop_last(), upto, dir, around);
    } else {
        assert(tables.take(upto) =~= tables);
    }
}

proof fn discords_refused_early(
    tables: Seq<FileDiscord>,
    upto: int,
    seen: Seq<Seq<char>>,
    dir: Seq<char>,
    around: Surroundings,
)
    requires
        0 <= upto <= tables.len(),
        discords_refusal(tables.take(upto), seen, dir, around) is Some,
    ensures
        discords_refusal(tables, seen, dir, around) == discords_refusal(
            tables.take(upto),
            seen,
            dir,
            around,
        ),
    decreases tables.len(),
{
    if upto < tables.len() {
        assert(tables.drop_last().take(upto) =~= tables.take(upto));
        discords_refused_early(tables.drop_last(), upto, seen, dir, around);
    } else {
        assert(tables.take(upto) =~= tables);
    }
}

/// Checks every Telegram table, appending the channels and their ids.
fn resolve_telegrams(
    tables: Vec<FileTelegram>,
    dir: &str,
    around: &Surroundings,
    seen: &mut Vec<String>,
    channels: &mut Vec<ChannelConfig>,
    warnings: &mut Vec<String>,
) -> (checked: Result<()>)
    requires
        old(seen)@.len() == 0,
        old(channels)@.len() == 0,
    ensures
        match checked {
            Ok(_) => {
                &&& telegrams_refusal(tables@, dir@, *around) is None
                &&& final(seen).deep_view() == telegram_ids(tables@)
                &&& final(channels)@.len() == tables@.len()
                &&& forall|i: int|
                    0 <= i < tables@.len() ==> telegram_made(
                        tables@[i],
                        #[trigger] final(channels)@[i],
                        dir@,
                        *around,
                    )
                &&& final(warnings).deep_view() == old(warnings).deep_view() + telegrams_warnings(
                    tables@,
                )
            },
            Err(error) => telegrams_refusal(tables@, dir@, *around) == Some(error.deep_view()),
        },
{
    let ghost all = tables@;
    let ghost said = warnings.deep_view();
    let ghost mut done: int = 0;
    let mut rest = tables;
    assert(all.skip(0) =~= all);
    assert(all.take(0) =~= Seq::empty());
    assert(seen.deep_view() =~= telegram_ids(all.take(0)));
    assert(said + telegrams_warnings(all.take(0)) =~= said);
    while rest.len() > 0
        invariant
            0 <= done <= all.len(),
            all == tables@,
            rest@ == all.skip(done),
            telegrams_refusal(all.take(done), dir@, *around) is None,
            seen.deep_view() == telegram_ids(all.take(done)),
            channels@.len() == done,
            forall|i: int|
                0 <= i < done ==> telegram_made(all[i], #[trigger] channels@[i], dir@, *around),
            warnings.deep_view() == said + telegrams_warnings(all.take(done)),
        decreases rest@.len(),
    {
        proof {
            assert(all.skip(done)[0] == all[done]);
            assert(all.skip(done).remove(0) =~= all.skip(done + 1));
            assert(all.take(done + 1).drop_last() =~= all.take(done));
            assert(all.take(done + 1).last() == all[done]);
        }
        let table = rest.remove(0);
        let id = table.id.clone();
        match resolve_telegram(table, seen, dir, around, warnings) {
            Ok(channel) => {
                text::push(seen, id);
                channels.push(channel);
            },
            Err(error) => {
                proof {
                    telegrams_refused_early(all, done + 1, dir@, *around);
                }
                return Err(error);
            },
        }
        proof {
            assert(seen.deep_view() =~= telegram_ids(all.take(done + 1)));
            assert(warnings.deep_view() =~= said + telegrams_warnings(all.take(done + 1)));
            done = done + 1;
        }
    }
    assert(all.take(done) =~= all);
    Ok(())
}

/// Checks every Discord table, appending the channels and their ids.
fn resolve_discords(
    tables: Vec<FileDiscord>,
    dir: &str,
    around: &Surroundings,
    seen: &mut Vec<String>,
    channels: &mut Vec<ChannelConfig>,
    warnings: &mut Vec<String>,
) -> (checked: Result<()>)
    ensures
        match checked {
            Ok(_) => {
                &&& discords_refusal(tables@, old(seen).deep_view(), dir@, *around) is None
                &&& final(seen).deep_view() == old(seen).deep_view() + discord_ids(tables@)
                &&& final(channels)@.len() == old(channels)@.len() + tables@.len()
                &&& forall|i: int|
                    0 <= i < old(channels)@.len() ==> #[trigger] final(channels)@[i] == old(
                        channels,
                    )@[i]
                &&& forall|i: int|
                    old(channels)@.len() <= i < final(channels)@.len() ==> discord_made(
                        tables@[i - old(channels)@.len()],
                        #[trigger] final(channels)@[i],
                        dir@,
                        *around,
                    )
                &&& final(warnings).deep_view() == old(warnings).deep_view() + discords_warnings(
                    tables@,
                )
            },
            Err(error) => discords_refusal(tables@, old(seen).deep_view(), dir@, *around) == Some(
                error.deep_view(),
            ),
        },
{
    let ghost all = tables@;
    let ghost said = warnings.deep_view();
    let ghost known = seen.deep_view();
    let ghost earlier = channels@;
    let ghost mut done: int = 0;
    let mut rest = tables;
    assert(all.skip(0) =~= all);
    assert(all.take(0) =~= Seq::empty());
    assert(seen.deep_view() =~= known + discord_ids(all.take(0)));
    assert(said + discords_warnings(all.take(0)) =~= said);
    while rest.len() > 0
        invariant
            0 <= done <= all.len(),
            all == tables@,
            rest@ == all.skip(done),
            discords_refusal(all.take(done), known, dir@, *around) is None,
            seen.deep_view() == known + discord_ids(all.take(done)),
            channels@.len() == earlier.len() + done,
            forall|i: int| 0 <= i < earlier.len() ==> #[trigger] channels@[i] == earlier[i],
            forall|i: int|
                earlier.len() <= i < channels@.len() ==> discord_made(
                    all[i - earlier.len()],
                    #[trigger] channels@[i],
                    dir@,
                    *around,
                ),
            warnings.deep_view() == said + discords_warnings(all.take(done)),
            known == old(seen).deep_view(),
            earlier == old(channels)@,
        decreases rest@.len(),
    {
        proof {
            assert(all.skip(done)[0] == all[done]);
            assert(all.skip(done).remove(0) =~= all.skip(done + 1));
            assert(all.take(done + 1).drop_last() =~= all.take(done));
            assert(all.take(done + 1).last() == all[done]);
        }
        let table = rest.remove(0);
        let id = table.id.clone();
        match resolve_discord(table, seen, dir, around, warnings) {
            Ok(channel) => {
                text::push(seen, id);
                channels.push(channel);
            },
            Err(error) => {
                proof {
                    discords_refused_early(all, done + 1, known, dir@, *around);
                }
                return Err(error);
            },
        }
        proof {
            assert(seen.deep_view() =~= known + discord_ids(all.take(done + 1)));
            assert(warnings.deep_view() =~= said + discords_warnings(all.take(done + 1)));
            done = done + 1;
        }
    }
    assert(all.take(done) =~= all);
    Ok(())
}

/// The directory that relative paths in the config file at `path` are anchored to.
pub open spec fn anchor(path: Seq<char>) -> Seq<char> {
    match paths::path_parent(path) {
        Some(parent) => parent,
        None => "."@,
    }
}

/// Why the `[meka]` table is refused, if it is.
pub open spec fn meka_refusal(
    table: FileMeka,
    dir: Seq<char>,
    around: Surroundings,
) -> Option<BridgeErrorView> {
    or_else(
        match url_reading(table.base_url@) {
            Ok(_) => None,
            Err(source) => refused(
                "[meka].base_url "@ + text::debug_quoted(table.base_url@)
                    + " is not a valid URL: "@ + source,
            ),
        },
        or_else(
            if table.turn_timeout.whole() == 0 && table.turn_timeout.beyond() == 0 {
                refused("[meka].turn_timeout must be greater than zero"@)
            } else {
                None
            },
            credential_refusal("[meka]"@, table.token, table.token_file, dir, around),
        ),
    )
}

/// Why the `[session]` table is refused, if it is.
pub open spec fn session_refusal(table: FileSession) -> Option<BridgeErrorView> {
    match table.cwd {
        Some(cwd) if !paths::path_is_absolute(cwd@) => refused(
            "[session].cwd must be an absolute path, got "@ + paths::native::shown_path(cwd@),
        ),
        _ => None,
    }
}

/// Why the `[bridge]` table is refused by itself, if it is.
pub open spec fn bridge_refusal(table: FileBridge) -> Option<BridgeErrorView> {
    if table.batch_max_messages == 0 {
        refused("[bridge].batch_max_messages must be at least 1"@)
    } else if table.settle_max.shorter(table.settle) {
        refused(
            "[bridge].settle_max ("@ + crate::time::debug_duration(
                table.settle_max.whole(),
                table.settle_max.beyond(),
            ) + ") must be at least settle ("@ + crate::time::debug_duration(
                table.settle.whole(),
                table.settle.beyond(),
            ) + "), or the ceiling would fire before the quiet period ever could"@,
        )
    } else if table.max_queue_depth < table.batch_max_messages {
        refused(
            "[bridge].max_queue_depth ("@ + text::decimal(table.max_queue_depth as nat)
                + ") must be at least batch_max_messages ("@ + text::decimal(
                table.batch_max_messages as nat,
            ) + ")"@,
        )
    } else if table.mute_context > MAX_MUTE_CONTEXT {
        refused(
            "[bridge].mute_context is "@ + text::decimal(table.mute_context as nat)
                + " but may be at most "@ + text::decimal(MAX_MUTE_CONTEXT as nat)
                + "; a larger lookback would put more of a chat into every turn than the mention \
                   that woke it"@,
        )
    } else {
        None
    }
}

/// What is said of blocking a kind of conversation by default.
pub open spec fn block_warning(kind: Seq<char>, policy: Policy) -> Seq<Seq<char>> {
    when(
        policy == Policy::Block,
        "[bridge].default_policy."@ + kind + " is `block`, so nothing from a "@ + kind
            + " conversation reaches the agent unless that conversation has been given a policy of \
               its own"@,
    )
}

/// What is said of the default policies.
pub open spec fn policy_warnings(policy: FileDefaultPolicy) -> Seq<Seq<char>> {
    block_warning("direct"@, policy.direct) + block_warning("group"@, policy.group)
        + block_warning("channel"@, policy.channel)
}

/// Whether the `[mcp]` table names a credential at all.
pub open spec fn mcp_guarded(table: FileMcp) -> bool {
    table.token is Some || table.token_file is Some
}

/// Why the `[mcp]` table is refused, if it is.
pub open spec fn mcp_refusal(
    table: FileMcp,
    dir: Seq<char>,
    around: Surroundings,
) -> Option<BridgeErrorView> {
    or_else(
        if mcp_guarded(table) {
            credential_refusal("[mcp]"@, table.token, table.token_file, dir, around)
        } else {
            None
        },
        if !text::begins(table.path@, "/"@) {
            refused("[mcp].path must start with '/', got "@ + text::debug_quoted(table.path@))
        } else {
            None
        },
    )
}

/// Where a stored thing lives: where the file says, or under the data directory.
pub open spec fn stored_at(
    path: Option<String>,
    name: Seq<char>,
    dir: Seq<char>,
    around: Surroundings,
) -> core::result::Result<Seq<char>, BridgeErrorView> {
    match path {
        Some(path) => paths::expanded(path@, dir, around.home_dir.deep_view()),
        None => match around.data_dir {
            Some(base) => Ok(
                paths::path_joined(paths::path_joined(base@, "mekabridge"@), name),
            ),
            None => Err(
                BridgeErrorView::Config {
                    message: "no platform data directory is available; set [storage].path"@,
                },
            ),
        },
    }
}

/// Why the `[storage]` table is refused, if it is.
pub open spec fn storage_refusal(
    table: FileStorage,
    dir: Seq<char>,
    around: Surroundings,
) -> Option<BridgeErrorView> {
    or_else(
        if (table.path is None || table.attachment_dir is None) && around.data_dir is None {
            refused("no platform data directory is available; set [storage].path"@)
        } else {
            None
        },
        or_else(
            match stored_at(table.path, "mekabridge.db"@, dir, around) {
                Ok(_) => None,
                Err(error) => Some(error),
            },
            match stored_at(table.attachment_dir, "attachments"@, dir, around) {
                Ok(_) => None,
                Err(error) => Some(error),
            },
        ),
    )
}

/// The ids of every channel.
pub open spec fn channel_ids(tables: FileChannels) -> Seq<Seq<char>> {
    telegram_ids(tables.telegram@) + discord_ids(tables.discord@)
}

/// Why the channels are refused, if they are.
pub open spec fn channels_refusal(
    tables: FileChannels,
    dir: Seq<char>,
    around: Surroundings,
) -> Option<BridgeErrorView> {
    or_else(
        telegrams_refusal(tables.telegram@, dir, around),
        or_else(
            discords_refusal(tables.discord@, telegram_ids(tables.telegram@), dir, around),
            if tables.telegram@.len() == 0 && tables.discord@.len() == 0 {
                refused(
                    "no channels are configured; add at least one [[channels.telegram]] or \
                     [[channels.discord]] entry"@,
                )
            } else {
                None
            },
        ),
    )
}

/// Why the owner conversation is refused, if it is.
pub open spec fn owner_refusal(owner: Option<String>, ids: Seq<Seq<char>>) -> Option<
    BridgeErrorView,
> {
    match owner {
        Some(owner) if !ids.contains(text::until(owner@, ':')) => refused(
            "[bridge].owner_conversation "@ + text::debug_quoted(owner@) + " names channel "@
                + text::debug_quoted(text::until(owner@, ':')) + ", which is not configured"@,
        ),
        _ => None,
    }
}

/// What is said of where operator notices go.
pub open spec fn owner_warnings(table: FileBridge) -> Seq<Seq<char>> {
    match table.owner_conversation {
        Some(owner) => when(
            crate::channel::ids::conversation_named(owner@) is None,
            "[bridge].owner_conversation "@ + text::debug_quoted(owner@)
                + " is not a conversation id, so operator notices cannot be delivered; it wants \
                   the <channel>:<chat> form"@,
        ),
        None => when(
            !table.notify_failures,
            "[bridge].notify_failures is off and no [bridge].owner_conversation is set, so a \
             message the agent never receives is reported only in the logs"@,
        ),
    }
}

/// What is said of keeping no history.
pub open spec fn history_warnings(retention: Duration) -> Seq<Seq<char>> {
    when(
        retention.whole() == 0 && retention.beyond() == 0,
        "[storage].history_retention is zero, so a message the agent never receives cannot be \
         recovered afterwards; only the platform's own scrollback will still have it"@,
    )
}

/// Why a configuration is refused, if it is: for the first thing wrong with it.
pub open spec fn refusal(
    file: FileConfig,
    path: Seq<char>,
    around: Surroundings,
) -> Option<BridgeErrorView> {
    let dir = anchor(path);
    or_else(
        meka_refusal(file.meka, dir, around),
        or_else(
            session_refusal(file.session),
            or_else(
                bridge_refusal(file.bridge),
                or_else(
                    mcp_refusal(file.mcp, dir, around),
                    or_else(
                        storage_refusal(file.storage, dir, around),
                        or_else(
                            channels_refusal(file.channels, dir, around),
                            owner_refusal(
                                file.bridge.owner_conversation,
                                channel_ids(file.channels),
                            ),
                        ),
                    ),
                ),
            ),
        ),
    )
}

/// Everything that is said of a configuration that was accepted, in order.
pub open spec fn warnings_of(file: FileConfig) -> Seq<Seq<char>> {
    secret::advisories("[meka]"@, file.meka.token.deep_view()) + policy_warnings(
        file.bridge.default_policy,
    ) + (if mcp_guarded(file.mcp) {
        secret::advisories("[mcp]"@, file.mcp.token.deep_view())
    } else {
        Seq::empty()
    }) + telegrams_warnings(file.channels.telegram@) + discords_warnings(file.channels.discord@)
        + owner_warnings(file.bridge) + history_warnings(file.storage.history_retention)
}

/// Whether `made` is what the `[meka]` table stands for.
pub open spec fn meka_made(
    table: FileMeka,
    made: MekaConfig,
    dir: Seq<char>,
    around: Surroundings,
) -> bool {
    &&& url_reading(table.base_url@) == Ok::<Seq<char>, Seq<char>>(made.base_url@)
    &&& table_credential("[meka]"@, table.token, table.token_file, dir, around) == Ok::<
        SecretView,
        BridgeErrorView,
    >(made.token@)
    &&& made.connect_timeout == table.connect_timeout
    &&& made.turn_timeout == table.turn_timeout
    &&& made.max_retries == table.max_retries
}

/// Whether `made` is what the `[bridge]` table stands for, given the turn budget.
pub open spec fn bridge_made(table: FileBridge, made: BridgeConfig, turn_timeout: Duration) -> bool {
    &&& made.owner_conversation == table.owner_conversation
    &&& made.max_queue_depth == table.max_queue_depth
    &&& made.batch_max_messages == table.batch_max_messages
    &&& made.coalesce_floor.whole() == 1 && made.coalesce_floor.beyond() == 0
    &&& made.retry_base.whole() == 10 && made.retry_base.beyond() == 0
    &&& made.settle == table.settle
    &&& made.settle_max == table.settle_max
    &&& made.turn_retries == table.turn_retries
    &&& made.notify_failures == table.notify_failures
    &&& made.typing_indicator == table.typing_indicator
    &&& made.typing_max == (match table.typing_max {
        Some(typing_max) => typing_max,
        None => turn_timeout,
    })
    &&& made.default_policy.direct == table.default_policy.direct
    &&& made.default_policy.group == table.default_policy.group
    &&& made.default_policy.channel == table.default_policy.channel
    &&& made.mute_context == table.mute_context
}

/// Whether `made` is what the `[mcp]` table stands for.
pub open spec fn mcp_made(
    table: FileMcp,
    made: McpConfig,
    dir: Seq<char>,
    around: Surroundings,
) -> bool {
    &&& made.transport == table.transport
    &&& made.bind == table.bind
    &&& made.path == table.path
    &&& match made.token {
        Some(token) => mcp_guarded(table) && table_credential(
            "[mcp]"@,
            table.token,
            table.token_file,
            dir,
            around,
        ) == Ok::<SecretView, BridgeErrorView>(token@),
        None => !mcp_guarded(table),
    }
    &&& made.allowed_hosts == table.allowed_hosts
    &&& made.health == table.health
}

/// Whether `made` is what the `[storage]` table stands for.
pub open spec fn storage_made(
    table: FileStorage,
    made: StorageConfig,
    dir: Seq<char>,
    around: Surroundings,
) -> bool {
    &&& stored_at(table.path, "mekabridge.db"@, dir, around) == Ok::<Seq<char>, BridgeErrorView>(
        made.path@,
    )
    &&& stored_at(table.attachment_dir, "attachments"@, dir, around) == Ok::<
        Seq<char>,
        BridgeErrorView,
    >(made.attachment_dir@)
    &&& made.attachment_max_bytes == table.attachment_max_bytes
    &&& made.attachment_retention == table.attachment_retention
    &&& made.history_retention == table.history_retention
}

/// Whether `made` are the channels that the tables stand for: every Telegram channel, then every
/// Discord channel, each in the order it is written.
pub open spec fn channels_made(
    tables: FileChannels,
    made: Seq<ChannelConfig>,
    dir: Seq<char>,
    around: Surroundings,
) -> bool {
    let telegram = tables.telegram@;
    let discord = tables.discord@;
    &&& made.len() == telegram.len() + discord.len()
    &&& forall|i: int|
        0 <= i < telegram.len() ==> telegram_made(telegram[i], #[trigger] made[i], dir, around)
    &&& forall|i: int|
        telegram.len() <= i < made.len() ==> discord_made(
            discord[i - telegram.len()],
            #[trigger] made[i],
            dir,
            around,
        )
}

/// Whether `config` is what `file` stands for.
pub open spec fn made(
    file: FileConfig,
    path: Seq<char>,
    around: Surroundings,
    config: Config,
) -> bool {
    let dir = anchor(path);
    &&& meka_made(file.meka, config.meka, dir, around)
    &&& config.session.cwd == file.session.cwd
    &&& config.session.permission == file.session.permission
    &&& config.session.recreate_on_missing == file.session.recreate_on_missing
    &&& bridge_made(file.bridge, config.bridge, file.meka.turn_timeout)
    &&& mcp_made(file.mcp, config.mcp, dir, around)
    &&& storage_made(file.storage, config.storage, dir, around)
    &&& config.log.level == file.log.level
    &&& config.log.format == file.log.format
    &&& channels_made(file.channels, config.channels@, dir, around)
    &&& config.warnings.deep_view() == warnings_of(file)
}

fn resolve_meka(
    table: FileMeka,
    dir: &str,
    around: &Surroundings,
    warnings: &mut Vec<String>,
) -> (config: Result<MekaConfig>)
    ensures
        match config {
            Ok(config) => {
                &&& meka_refusal(table, dir@, *around) is None
                &&& meka_made(table, config, dir@, *around)
                &&& final(warnings).deep_view() == old(warnings).deep_view() + secret::advisories(
                    "[meka]"@,
                    table.token.deep_view(),
                )
            },
            Err(error) => meka_refusal(table, dir@, *around) == Some(error.deep_view()),
        },
{
    let base_url = match parse_url(table.base_url.as_str()) {
        Ok(base_url) => base_url,
        Err(source) => {
            return Err(
                BridgeError::config(
                    "[meka].base_url ".to_owned().concat(
                        text::quoted(table.base_url.as_str()).as_str(),
                    ).concat(" is not a valid URL: ").concat(source.as_str()).as_str(),
                ),
            );
        },
    };
    if table.turn_timeout.is_zero() {
        // Every turn would time out on the spot, and worse, the budget doubles as the ceiling on
        // how long a batch may wait out a turn meka is running for itself.
        return Err(BridgeError::config("[meka].turn_timeout must be greater than zero"));
    }
    match table_secret("[meka]", &table.token, &table.token_file, dir, around, warnings) {
        Ok(token) => Ok(
            MekaConfig {
                base_url,
                token,
                connect_timeout: table.connect_timeout,
                turn_timeout: table.turn_timeout,
                max_retries: table.max_retries,
            },
        ),
        Err(error) => Err(error),
    }
}

fn check_bridge(table: &FileBridge) -> (checked: Result<()>)
    ensures
        match checked {
            Ok(_) => bridge_refusal(*table) is None,
            Err(error) => bridge_refusal(*table) == Some(error.deep_view()),
        },
{
    if table.batch_max_messages == 0 {
        return Err(BridgeError::config("[bridge].batch_max_messages must be at least 1"));
    }
    if table.settle_max.is_shorter(&table.settle) {
        return Err(
            BridgeError::config(
                "[bridge].settle_max (".to_owned().concat(
                    table.settle_max.to_debug().as_str(),
                ).concat(") must be at least settle (").concat(
                    table.settle.to_debug().as_str(),
                ).concat(
                    "), or the ceiling would fire before the quiet period ever could",
                ).as_str(),
            ),
        );
    }
    if table.max_queue_depth < table.batch_max_messages {
        return Err(
            BridgeError::config(
                "[bridge].max_queue_depth (".to_owned().concat(
                    text::number(table.max_queue_depth as u64).as_str(),
                ).concat(") must be at least batch_max_messages (").concat(
                    text::number(table.batch_max_messages as u64).as_str(),
                ).concat(")").as_str(),
            ),
        );
    }
    if table.mute_context > MAX_MUTE_CONTEXT {
        return Err(
            BridgeError::config(
                "[bridge].mute_context is ".to_owned().concat(
                    text::number(table.mute_context as u64).as_str(),
                ).concat(" but may be at most ").concat(
                    text::number(MAX_MUTE_CONTEXT as u64).as_str(),
                ).concat(
                    "; a larger lookback would put more of a chat into every turn than the mention \
                     that woke it",
                ).as_str(),
            ),
        );
    }
    Ok(())
}

/// Says out loud that a kind of conversation is blocked by default: a bridge that answers nobody is
/// indistinguishable from one that is broken.
fn warn_blocked(kind: &str, policy: Policy, warnings: &mut Vec<String>)
    ensures
        final(warnings).deep_view() == old(warnings).deep_view() + block_warning(kind@, policy),
{
    let start = "[bridge].default_policy.".to_owned().concat(kind).concat(
        " is `block`, so nothing from a ",
    ).concat(kind);
    warn_when(
        policy == Policy::Block,
        start.as_str(),
        " conversation reaches the agent unless that conversation has been given a policy of its \
         own",
        warnings,
    );
}

fn warn_policies(policy: &FileDefaultPolicy, warnings: &mut Vec<String>)
    ensures
        final(warnings).deep_view() == old(warnings).deep_view() + policy_warnings(*policy),
{
    warn_blocked("direct", policy.direct, warnings);
    warn_blocked("group", policy.group, warnings);
    warn_blocked("channel", policy.channel, warnings);
    assert(warnings.deep_view() =~= old(warnings).deep_view() + policy_warnings(*policy));
}

/// Says what keeping no history means.
fn warn_history(retention: &Duration, warnings: &mut Vec<String>)
    ensures
        final(warnings).deep_view() == old(warnings).deep_view() + history_warnings(*retention),
{
    if retention.is_zero() {
        text::push(
            warnings,
            "[storage].history_retention is zero, so a message the agent never receives cannot be \
             recovered afterwards; only the platform's own scrollback will still have it".to_owned(),
        );
    }
    assert(warnings.deep_view() =~= old(warnings).deep_view() + history_warnings(*retention));
}

fn resolve_mcp(
    table: FileMcp,
    dir: &str,
    around: &Surroundings,
    warnings: &mut Vec<String>,
) -> (config: Result<McpConfig>)
    ensures
        match config {
            Ok(config) => {
                &&& mcp_refusal(table, dir@, *around) is None
                &&& mcp_made(table, config, dir@, *around)
                &&& final(warnings).deep_view() == old(warnings).deep_view() + (if mcp_guarded(
                    table,
                ) {
                    secret::advisories("[mcp]"@, table.token.deep_view())
                } else {
                    Seq::empty()
                })
            },
            Err(error) => mcp_refusal(table, dir@, *around) == Some(error.deep_view()),
        },
{
    let token = if table.token.is_some() || table.token_file.is_some() {
        match table_secret("[mcp]", &table.token, &table.token_file, dir, around, warnings) {
            Ok(token) => Some(token),
            Err(error) => {
                return Err(error);
            },
        }
    } else {
        assert(old(warnings).deep_view() + Seq::<Seq<char>>::empty() =~= old(
            warnings,
        ).deep_view());
        None
    };
    if !text::starts_with(table.path.as_str(), "/") {
        return Err(
            BridgeError::config(
                "[mcp].path must start with '/', got ".to_owned().concat(
                    text::quoted(table.path.as_str()).as_str(),
                ).as_str(),
            ),
        );
    }
    Ok(
        McpConfig {
            transport: table.transport,
            bind: table.bind,
            path: table.path,
            token,
            allowed_hosts: table.allowed_hosts,
            health: table.health,
        },
    )
}

/// Where a stored thing lives.
fn store_path(path: &Option<String>, name: &str, dir: &str, around: &Surroundings) -> (at: Result<
    String,
>)
    ensures
        match at {
            Ok(at) => stored_at(*path, name@, dir@, *around) == Ok::<Seq<char>, BridgeErrorView>(
                at@,
            ),
            Err(error) => stored_at(*path, name@, dir@, *around) == Err::<
                Seq<char>,
                BridgeErrorView,
            >(error.deep_view()),
        },
{
    match path {
        Some(path) => paths::expand_path(path.as_str(), dir, &around.home_dir),
        None => match &around.data_dir {
            Some(base) => Ok(
                paths::join(paths::join(base.as_str(), "mekabridge").as_str(), name),
            ),
            None => Err(
                BridgeError::config(
                    "no platform data directory is available; set [storage].path",
                ),
            ),
        },
    }
}

fn resolve_storage(table: FileStorage, dir: &str, around: &Surroundings) -> (config: Result<
    StorageConfig,
>)
    ensures
        match config {
            Ok(config) => {
                &&& storage_refusal(table, dir@, *around) is None
                &&& storage_made(table, config, dir@, *around)
            },
            Err(error) => storage_refusal(table, dir@, *around) == Some(error.deep_view()),
        },
{
    if (table.path.is_none() || table.attachment_dir.is_none()) && around.data_dir.is_none() {
        return Err(
            BridgeError::config("no platform data directory is available; set [storage].path"),
        );
    }
    let path = match store_path(&table.path, "mekabridge.db", dir, around) {
        Ok(path) => path,
        Err(error) => {
            return Err(error);
        },
    };
    match store_path(&table.attachment_dir, "attachments", dir, around) {
        Ok(attachment_dir) => Ok(
            StorageConfig {
                path,
                attachment_dir,
                attachment_max_bytes: table.attachment_max_bytes,
                attachment_retention: table.attachment_retention,
                history_retention: table.history_retention,
            },
        ),
        Err(error) => Err(error),
    }
}

/// Checks every channel, handing out their ids too.
fn resolve_channels(
    tables: FileChannels,
    dir: &str,
    around: &Surroundings,
    warnings: &mut Vec<String>,
) -> (checked: Result<(Vec<ChannelConfig>, Vec<String>)>)
    ensures
        match checked {
            Ok(checked) => {
                &&& channels_refusal(tables, dir@, *around) is None
                &&& channels_made(tables, checked.0@, dir@, *around)
                &&& checked.1.deep_view() == channel_ids(tables)
                &&& final(warnings).deep_view() == old(warnings).deep_view() + telegrams_warnings(
                    tables.telegram@,
                ) + discords_warnings(tables.discord@)
            },
            Err(error) => channels_refusal(tables, dir@, *around) == Some(error.deep_view()),
        },
{
    let mut channels: Vec<ChannelConfig> = Vec::new();
    let mut seen: Vec<String> = Vec::new();
    let ghost telegram = tables.telegram@;
    let ghost discord = tables.discord@;
    if let Err(error) = resolve_telegrams(
        tables.telegram,
        dir,
        around,
        &mut seen,
        &mut channels,
        warnings,
    ) {
        return Err(error);
    }
    let ghost first = channels@;
    if let Err(error) = resolve_discords(
        tables.discord,
        dir,
        around,
        &mut seen,
        &mut channels,
        warnings,
    ) {
        return Err(error);
    }
    if channels.len() == 0 {
        return Err(
            BridgeError::config(
                "no channels are configured; add at least one [[channels.telegram]] or \
                 [[channels.discord]] entry",
            ),
        );
    }
    assert forall|i: int| 0 <= i < telegram.len() implies telegram_made(
        telegram[i],
        #[trigger] channels@[i],
        dir@,
        *around,
    ) by {
        assert(channels@[i] == first[i]);
    }
    Ok((channels, seen))
}

/// Checks where operator notices go.
fn check_owner(table: &FileBridge, ids: &Vec<String>, warnings: &mut Vec<String>) -> (checked:
    Result<()>)
    ensures
        match checked {
            Ok(_) => {
                &&& owner_refusal(table.owner_conversation, ids.deep_view()) is None
                &&& final(warnings).deep_view() == old(warnings).deep_view() + owner_warnings(
                    *table,
                )
            },
            Err(error) => owner_refusal(table.owner_conversation, ids.deep_view()) == Some(
                error.deep_view(),
            ),
        },
{
    match &table.owner_conversation {
        Some(owner) => {
            let channel = text::before(owner.as_str(), ':');
            if !text::holds(ids, channel.as_str()) {
                return Err(
                    BridgeError::config(
                        "[bridge].owner_conversation ".to_owned().concat(
                            text::quoted(owner.as_str()).as_str(),
                        ).concat(" names channel ").concat(
                            text::quoted(channel.as_str()).as_str(),
                        ).concat(", which is not configured").as_str(),
                    ),
                );
            }
            // Not rejected outright, only because the id could name a conversation this build's
            // parser is stricter about than the platform is. It is still worth saying: every
            // operator notice the bridge tries to send goes nowhere.
            let start = "[bridge].owner_conversation ".to_owned().concat(
                text::quoted(owner.as_str()).as_str(),
            );
            let unnamed = ConversationId::parse(owner.as_str()).is_none();
            warn_when(
                unnamed,
                start.as_str(),
                " is not a conversation id, so operator notices cannot be delivered; it wants the \
                 <channel>:<chat> form",
                warnings,
            );
        },
        None => {
            if !table.notify_failures {
                text::push(
                    warnings,
                    "[bridge].notify_failures is off and no [bridge].owner_conversation is set, so \
                     a message the agent never receives is reported only in the logs".to_owned(),
                );
            }
            assert(warnings.deep_view() =~= old(warnings).deep_view() + owner_warnings(*table));
        },
    }
    Ok(())
}

impl FileConfig {
    /// Checks the file and makes the configuration that it stands for.
    ///
    /// `config_path` is where the file was read from: paths in it are relative to the directory
    /// that it is in.
    pub fn resolve(self, config_path: &str, around: &Surroundings) -> (config: Result<Config>)
        ensures
            match config {
                Ok(config) => {
                    &&& refusal(self, config_path@, *around) is None
                    &&& made(self, config_path@, *around, config)
                },
                Err(error) => refusal(self, config_path@, *around) == Some(error.deep_view()),
            },
    {
        let ghost file = self;
        let dir = match paths::parent(config_path) {
            Some(parent) => parent,
            None => ".".to_owned(),
        };
        let mut warnings: Vec<String> = Vec::new();
        assert(warnings.deep_view() =~= Seq::empty());
        let ghost advice = secret::advisories("[meka]"@, self.meka.token.deep_view());
        assert(warnings.deep_view() + advice =~= advice);
        let turn_timeout = self.meka.turn_timeout;
        let meka = match resolve_meka(self.meka, dir.as_str(), around, &mut warnings) {
            Ok(meka) => meka,
            Err(error) => {
                return Err(error);
            },
        };
        if let Some(cwd) = &self.session.cwd {
            if !paths::is_absolute(cwd.as_str()) {
                return Err(
                    BridgeError::config(
                        "[session].cwd must be an absolute path, got ".to_owned().concat(
                            paths::native::to_shown(cwd.as_str()).as_str(),
                        ).as_str(),
                    ),
                );
            }
        }
        let session = SessionConfig {
            cwd: self.session.cwd,
            permission: self.session.permission,
            recreate_on_missing: self.session.recreate_on_missing,
        };
        if let Err(error) = check_bridge(&self.bridge) {
            return Err(error);
        }
        warn_policies(&self.bridge.default_policy, &mut warnings);
        let mcp = match resolve_mcp(self.mcp, dir.as_str(), around, &mut warnings) {
            Ok(mcp) => mcp,
            Err(error) => {
                return Err(error);
            },
        };
        let storage = match resolve_storage(self.storage, dir.as_str(), around) {
            Ok(storage) => storage,
            Err(error) => {
                return Err(error);
            },
        };
        let (channels, ids) = match resolve_channels(
            self.channels,
            dir.as_str(),
            around,
            &mut warnings,
        ) {
            Ok(checked) => checked,
            Err(error) => {
                return Err(error);
            },
        };
        if let Err(error) = check_owner(&self.bridge, &ids, &mut warnings) {
            return Err(error);
        }
        // The recovery path for an undeliverable message is to put it back among what the agent has
        // not seen, and that needs a history row to exist. With retention off there is none, so a
        // message that runs out of attempts is gone for good rather than merely late.
        warn_history(&storage.history_retention, &mut warnings);
        Ok(
            Config {
                meka,
                session,
                bridge: BridgeConfig {
                    owner_conversation: self.bridge.owner_conversation,
                    max_queue_depth: self.bridge.max_queue_depth,
                    batch_max_messages: self.bridge.batch_max_messages,
                    // Sized against network delay and reconnects rather than against how fast
                    // anybody types: the parts of a split post land milliseconds apart.
                    coalesce_floor: Duration::from_secs(1),
                    // Long enough to be past a burst at an upstream out of quota, and short enough
                    // that somebody waiting on a reply is not left wondering.
                    retry_base: Duration::from_secs(10),
                    settle: self.bridge.settle,
                    settle_max: self.bridge.settle_max,
                    turn_retries: self.bridge.turn_retries,
                    notify_failures: self.bridge.notify_failures,
                    typing_indicator: self.bridge.typing_indicator,
                    // Follows the turn budget unless pinned, so the indicator lasts exactly as long
                    // as the work does rather than lapsing partway through a long turn.
                    typing_max: match self.bridge.typing_max {
                        Some(typing_max) => typing_max,
                        None => turn_timeout,
                    },
                    default_policy: DefaultPolicy {
                        direct: self.bridge.default_policy.direct,
                        group: self.bridge.default_policy.group,
                        channel: self.bridge.default_policy.channel,
                    },
                    mute_context: self.bridge.mute_context,
                },
                mcp,
                storage,
                log: LogConfig { level: self.log.level, format: self.log.format },
                channels,
                warnings,
            },
        )
    }
}

/// The expanded path of a token file, as a list of one, where there is one that can be expanded.
pub open spec fn token_path(
    token_file: Option<String>,
    dir: Seq<char>,
    home: Option<Seq<char>>,
) -> Seq<Seq<char>> {
    match token_file {
        Some(raw) => match paths::expanded(raw@, dir, home) {
            Ok(path) => seq![path],
            Err(_) => Seq::empty(),
        },
        None => Seq::empty(),
    }
}

/// The expanded paths of the token files of a run of Telegram tables.
pub open spec fn telegram_paths(
    tables: Seq<FileTelegram>,
    dir: Seq<char>,
    home: Option<Seq<char>>,
) -> Seq<Seq<char>>
    decreases tables.len(),
{
    if tables.len() == 0 {
        Seq::empty()
    } else {
        telegram_paths(tables.drop_last(), dir, home) + token_path(
            tables.last().token_file,
            dir,
            home,
        )
    }
}

/// The expanded paths of the token files of a run of Discord tables.
pub open spec fn discord_paths(
    tables: Seq<FileDiscord>,
    dir: Seq<char>,
    home: Option<Seq<char>>,
) -> Seq<Seq<char>>
    decreases tables.len(),
{
    if tables.len() == 0 {
        Seq::empty()
    } else {
        discord_paths(tables.drop_last(), dir, home) + token_path(
            tables.last().token_file,
            dir,
            home,
        )
    }
}

/// The expanded paths of every token file that a configuration names.
pub open spec fn token_paths_of(
    file: FileConfig,
    path: Seq<char>,
    home: Option<Seq<char>>,
) -> Seq<Seq<char>> {
    let dir = anchor(path);
    token_path(file.meka.token_file, dir, home) + token_path(file.mcp.token_file, dir, home)
        + telegram_paths(file.channels.telegram@, dir, home) + discord_paths(
        file.channels.discord@,
        dir,
        home,
    )
}

fn push_token_path(
    token_file: &Option<String>,
    dir: &str,
    home: &Option<String>,
    out: &mut Vec<String>,
)
    ensures
        final(out).deep_view() == old(out).deep_view() + token_path(
            *token_file,
            dir@,
            home.deep_view(),
        ),
{
    if let Some(raw) = token_file {
        if let Ok(path) = paths::expand_path(raw.as_str(), dir, home) {
            text::push(out, path);
        }
    }
    assert(out.deep_view() =~= old(out).deep_view() + token_path(
        *token_file,
        dir@,
        home.deep_view(),
    ));
}

impl FileConfig {
    /// The token files to read before this file can be resolved.
    pub fn token_paths(&self, config_path: &str, home: &Option<String>) -> (files: Vec<String>)
        ensures
            files.deep_view() == token_paths_of(*self, config_path@, home.deep_view()),
    {
        let dir = match paths::parent(config_path) {
            Some(parent) => parent,
            None => ".".to_owned(),
        };
        let mut files: Vec<String> = Vec::new();
        assert(files.deep_view() =~= Seq::empty());
        push_token_path(&self.meka.token_file, dir.as_str(), home, &mut files);
        push_token_path(&self.mcp.token_file, dir.as_str(), home, &mut files);
        let ghost first = files.deep_view();
        let ghost telegram = self.channels.telegram@;
        let mut i: usize = 0;
        assert(first + telegram_paths(telegram.take(0), dir@, home.deep_view()) =~= first);
        while i < self.channels.telegram.len()
            invariant
                i <= telegram.len(),
                telegram == self.channels.telegram@,
                files.deep_view() == first + telegram_paths(
                    telegram.take(i as int),
                    dir@,
                    home.deep_view(),
                ),
            decreases telegram.len() - i,
        {
            assert(telegram.take(i + 1).drop_last() =~= telegram.take(i as int));
            push_token_path(
                &self.channels.telegram[i].token_file,
                dir.as_str(),
                home,
                &mut files,
            );
            assert(files.deep_view() =~= first + telegram_paths(
                telegram.take(i + 1),
                dir@,
                home.deep_view(),
            ));
            i += 1;
        }
        assert(telegram.take(i as int) =~= telegram);
        let ghost second = files.deep_view();
        let ghost discord = self.channels.discord@;
        let mut j: usize = 0;
        assert(second + discord_paths(discord.take(0), dir@, home.deep_view()) =~= second);
        while j < self.channels.discord.len()
            invariant
                j <= discord.len(),
                discord == self.channels.discord@,
                files.deep_view() == second + discord_paths(
                    discord.take(j as int),
                    dir@,
                    home.deep_view(),
                ),
            decreases discord.len() - j,
        {
            assert(discord.take(j + 1).drop_last() =~= discord.take(j as int));
            push_token_path(&self.channels.discord[j].token_file, dir.as_str(), home, &mut files);
            assert(files.deep_view() =~= second + discord_paths(
                discord.take(j + 1),
                dir@,
                home.deep_view(),
            ));
            j += 1;
        }
        assert(discord.take(j as int) =~= discord);
        assert(files.deep_view() =~= token_paths_of(*self, config_path@, home.deep_view()));
        files
    }
}

/// An accepted configuration can be honoured: turns have time to run, a batch holds at least one
/// message and fits the queue, the quiet period fits its ceiling, the lookback stays small, and
/// there is at least one channel.
pub proof fn an_accepted_configuration_can_be_honoured(
    file: FileConfig,
    path: Seq<char>,
    around: Surroundings,
    config: Config,
)
    requires
        refusal(file, path, around) is None,
        made(file, path, around, config),
    ensures
        config.meka.turn_timeout.whole() > 0 || config.meka.turn_timeout.beyond() > 0,
        1 <= config.bridge.batch_max_messages <= config.bridge.max_queue_depth,
        !config.bridge.settle_max.shorter(config.bridge.settle),
        config.bridge.mute_context <= MAX_MUTE_CONTEXT,
        config.channels@.len() > 0,
        text::begins(config.mcp.path@, "/"@),
        config.session.cwd matches Some(cwd) ==> paths::path_is_absolute(cwd@),
{
}

/// Whether a channel admits somebody, or was opened to everybody on purpose.
pub open spec fn guarded(channel: ChannelConfig) -> bool {
    match channel.platform {
        PlatformConfig::Telegram(config) => config.allow_all || config.allowed_users@.len() > 0
            || config.allowed_chats@.len() > 0,
        PlatformConfig::Discord(config) => config.allow_all || config.allowed_users@.len() > 0
            || config.allowed_guilds@.len() > 0 || config.allowed_channels@.len() > 0
            || config.allowed_roles@.len() > 0,
    }
}

proof fn telegrams_accepted(
    tables: Seq<FileTelegram>,
    dir: Seq<char>,
    around: Surroundings,
    i: int,
)
    requires
        telegrams_refusal(tables, dir, around) is None,
        0 <= i < tables.len(),
    ensures
        telegram_refusal(tables[i], telegram_ids(tables.take(i)), dir, around) is None,
    decreases tables.len(),
{
    if i < tables.len() - 1 {
        telegrams_accepted(tables.drop_last(), dir, around, i);
        assert(tables.drop_last().take(i) =~= tables.take(i));
    } else {
        assert(tables.take(i) =~= tables.drop_last());
    }
}

proof fn discords_accepted(
    tables: Seq<FileDiscord>,
    seen: Seq<Seq<char>>,
    dir: Seq<char>,
    around: Surroundings,
    i: int,
)
    requires
        discords_refusal(tables, seen, dir, around) is None,
        0 <= i < tables.len(),
    ensures
        discord_refusal(tables[i], seen + discord_ids(tables.take(i)), dir, around) is None,
    decreases tables.len(),
{
    if i < tables.len() - 1 {
        discords_accepted(tables.drop_last(), seen, dir, around, i);
        assert(tables.drop_last().take(i) =~= tables.take(i));
    } else {
        assert(tables.take(i) =~= tables.drop_last());
    }
}

/// No accepted channel is open by accident: each one either admits somebody by name or was opened
/// to everybody on purpose.
pub proof fn no_channel_is_open_by_accident(
    file: FileConfig,
    path: Seq<char>,
    around: Surroundings,
    config: Config,
    i: int,
)
    requires
        refusal(file, path, around) is None,
        made(file, path, around, config),
        0 <= i < config.channels@.len(),
    ensures
        guarded(config.channels@[i]),
{
    let dir = anchor(path);
    let telegram = file.channels.telegram@;
    let discord = file.channels.discord@;
    let channel = config.channels@[i];
    if i < telegram.len() {
        telegrams_accepted(telegram, dir, around, i);
        assert(telegram_made(telegram[i], channel, dir, around));
    } else {
        discords_accepted(discord, telegram_ids(telegram), dir, around, i - telegram.len());
        assert(discord_made(discord[i - telegram.len()], channel, dir, around));
    }
}

/// No two accepted channels share an id, whatever their platforms, and no id holds the separator of
/// a conversation id.
pub proof fn accepted_ids_are_distinct(
    file: FileConfig,
    path: Seq<char>,
    around: Surroundings,
    config: Config,
    i: int,
    j: int,
)
    requires
        refusal(file, path, around) is None,
        made(file, path, around, config),
        0 <= i < j < config.channels@.len(),
    ensures
        config.channels@[i].id@ != config.channels@[j].id@,
        !config.channels@[i].id@.contains(':'),
        !config.channels@[j].id@.contains(':'),
{
    let dir = anchor(path);
    let telegram = file.channels.telegram@;
    let discord = file.channels.discord@;
    let n = telegram.len() as int;
    let ids = telegram_ids(telegram);
    if i < n {
        telegrams_accepted(telegram, dir, around, i);
        assert(telegram_made(telegram[i], config.channels@[i], dir, around));
        an_accepted_id_holds_no_separator(telegram[i].id@);
    } else {
        discords_accepted(discord, ids, dir, around, i - n);
        assert(discord_made(discord[i - n], config.channels@[i], dir, around));
        an_accepted_id_holds_no_separator(discord[i - n].id@);
    }
    if j < n {
        telegrams_accepted(telegram, dir, around, j);
        assert(telegram_made(telegram[j], config.channels@[j], dir, around));
        an_accepted_id_holds_no_separator(telegram[j].id@);
        let seen = telegram_ids(telegram.take(j));
        assert(seen[i] == telegram[i].id@);
        assert(seen.contains(telegram[i].id@));
    } else {
        discords_accepted(discord, ids, dir, around, j - n);
        assert(discord_made(discord[j - n], config.channels@[j], dir, around));
        an_accepted_id_holds_no_separator(discord[j - n].id@);
        let seen = ids + discord_ids(discord.take(j - n));
        if i < n {
            assert(ids[i] == telegram[i].id@);
            assert(seen[i] == telegram[i].id@);
            assert(seen.contains(telegram[i].id@));
        } else {
            assert(discord_ids(discord.take(j - n))[i - n] == discord[i - n].id@);
            assert(seen[i] == discord[i - n].id@);
            assert(seen.contains(discord[i - n].id@));
        }
    }
}

/// Operator notices always name a channel that is configured.
pub proof fn the_owner_is_on_a_configured_channel(
    file: FileConfig,
    path: Seq<char>,
    around: Surroundings,
    config: Config,
)
    requires
        refusal(file, path, around) is None,
        made(file, path, around, config),
        config.bridge.owner_conversation is Some,
    ensures
        exists|i: int|
            0 <= i < config.channels@.len() && (#[trigger] config.channels@[i]).id@ == text::until(
                config.bridge.owner_conversation->0@,
                ':',
            ),
{
    let dir = anchor(path);
    let telegram = file.channels.telegram@;
    let discord = file.channels.discord@;
    let ids = channel_ids(file.channels);
    let channel = text::until(file.bridge.owner_conversation->0@, ':');
    assert(ids.contains(channel));
    let i = choose|i: int| 0 <= i < ids.len() && ids[i] == channel;
    if i < telegram.len() {
        assert(telegram_made(telegram[i], config.channels@[i], dir, around));
    } else {
        assert(discord_made(discord[i - telegram.len()], config.channels@[i], dir, around));
    }
    assert(config.channels@[i].id@ == channel);
}

} // verus!
