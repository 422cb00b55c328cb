//! `doctor`: what was found of every moving part, in the order a failure would bite.

use vstd::prelude::*;
use vstd::string::*;

use crate::channel::{ChannelCapabilities, ChannelIdentity, Platform};
use crate::cli::commands::{
    assess_readiness, describe_default, level_meka_will_not_create, moderation_reach,
    permission_problem, Check, CheckView,
};
use crate::config::{ChannelConfig, Config, McpTransport, PlatformConfig};
use crate::error::{BridgeError, BridgeErrorView};
use crate::meka::{MekaInfo, ProviderProfile, ReadyStatus, SessionInfo};
use crate::paths::native;
use crate::store::QueueStats;
use crate::text;

verus! {

/// One line of a report.
#[derive(Debug)]
pub enum Line {
    /// The start of a section.
    Heading(String),
    Check(Check),
    /// Something worth knowing that counts neither way.
    Note(String),
}

/// What a [`Line`] holds.
pub enum LineView {
    Heading(Seq<char>),
    Check(CheckView),
    Note(Seq<char>),
}

impl DeepView for Line {
    type V = LineView;

    open spec fn deep_view(&self) -> LineView {
        match self {
            Line::Heading(text) => LineView::Heading(text@),
            Line::Check(check) => LineView::Check(check.deep_view()),
            Line::Note(text) => LineView::Note(text@),
        }
    }
}

/// A line as it is printed.
pub open spec fn printed(line: LineView) -> Seq<char> {
    match line {
        LineView::Heading(text) => text,
        LineView::Check(CheckView::Pass(text)) => "  ok     "@ + text,
        LineView::Check(CheckView::Warn(text)) => "  warn   "@ + text,
        LineView::Check(CheckView::Fail(text)) => "  fail   "@ + text,
        LineView::Note(text) => "  note   "@ + text,
    }
}

impl Line {
    /// This line as it is printed.
    pub fn to_text(&self) -> (text: String)
        ensures
            text@ == printed(self.deep_view()),
    {
        match self {
            Line::Heading(text) => text.clone(),
            Line::Check(Check::Pass(text)) => "  ok     ".to_owned().concat(text.as_str()),
            Line::Check(Check::Warn(text)) => "  warn   ".to_owned().concat(text.as_str()),
            Line::Check(Check::Fail(text)) => "  fail   ".to_owned().concat(text.as_str()),
            Line::Note(text) => "  note   ".to_owned().concat(text.as_str()),
        }
    }
}

/// What the database answered.
#[derive(Debug)]
pub struct StorageProbe {
    pub stats: Result<QueueStats, String>,
    /// How many conversations have a policy of their own.
    pub policies: Result<usize, String>,
    /// How many messages are recorded.
    pub messages: Result<u64, String>,
}

/// What meka answered.
#[derive(Debug)]
pub struct MekaProbe {
    pub info: MekaInfo,
    pub providers: Result<Vec<ProviderProfile>, String>,
}

/// What became of the session that is bound.
#[derive(Debug)]
pub enum SessionProbe {
    Unbound,
    Found { id: String, info: SessionInfo },
    Missing { id: String },
    Unreadable { id: String, error: String },
}

/// What a channel answered.
#[derive(Debug)]
pub struct ChannelProbe {
    pub id: String,
    pub platform: Platform,
    pub identity: Result<ChannelIdentity, String>,
    pub capabilities: ChannelCapabilities,
}

/// Everything that was asked, and what came back.
#[derive(Debug)]
pub struct Examination {
    pub storage: Result<StorageProbe, String>,
    pub meka: Result<MekaProbe, String>,
    pub ready: Result<ReadyStatus, String>,
    pub session: SessionProbe,
    pub channels: Result<Vec<ChannelProbe>, String>,
    /// What the conversation that operator notices go to was found to be, where it was asked about.
    pub owner: Option<Check>,
    /// Whether the MCP endpoint's address could be bound.
    pub bound: Result<(), String>,
    /// Whether that address is reachable from this host alone.
    pub loopback: bool,
}

/// A check that passed.
pub open spec fn pass(text: Seq<char>) -> LineView {
    LineView::Check(CheckView::Pass(text))
}

/// A check that is a warning.
pub open spec fn warn(text: Seq<char>) -> LineView {
    LineView::Check(CheckView::Warn(text))
}

/// A check that failed.
pub open spec fn fail(text: Seq<char>) -> LineView {
    LineView::Check(CheckView::Fail(text))
}

/// One line where a condition holds, and none otherwise.
pub open spec fn line_if(on: bool, line: LineView) -> Seq<LineView> {
    if on {
        seq![line]
    } else {
        Seq::empty()
    }
}

/// A failed check where there is a problem, and nothing otherwise.
pub open spec fn fail_if(problem: Option<Seq<char>>) -> Seq<LineView> {
    match problem {
        Some(problem) => seq![fail(problem)],
        None => Seq::empty(),
    }
}

/// What is found of the configuration.
pub open spec fn config_lines(config: Config) -> Seq<LineView> {
    seq![LineView::Heading("config"@), pass("parsed and validated"@)]
        + config.warnings.deep_view().map_values(|warning: Seq<char>| warn(warning))
}

/// What is found of the attention policies.
pub open spec fn attention_lines(config: Config) -> Seq<LineView> {
    seq![
        LineView::Heading("attention"@),
        pass(
            "default policy: "@ + super::commands::default_text(config.bridge.default_policy),
        ),
    ]
}

/// What is found of the queue.
pub open spec fn stats_line(stats: Result<QueueStats, String>) -> LineView {
    match stats {
        Ok(stats) => pass(
            "queue: "@ + text::decimal(stats.pending as nat) + " pending, "@ + text::decimal(
                stats.in_flight as nat,
            ) + " in flight, "@ + text::decimal(stats.failed as nat) + " failed"@,
        ),
        Err(error) => fail("could not read queue stats: "@ + error@),
    }
}

/// What is found of the policies that conversations have of their own.
pub open spec fn overrides_line(policies: Result<usize, String>) -> LineView {
    match policies {
        Ok(count) => if count == 0 {
            pass("no conversation overrides the default"@)
        } else {
            pass(
                text::decimal(count as nat) + " conversation(s) have a policy of their own; \
                                               `mekabridge policy list` shows them"@,
            )
        },
        Err(error) => fail("could not read conversation policies: "@ + error@),
    }
}

/// What is found of the history. Keeping none is no failure, but it changes what a muted conversation
/// can offer the agent.
pub open spec fn recorded_line(config: Config, messages: Result<u64, String>) -> LineView {
    let retention = config.storage.history_retention;
    if retention.whole() == 0 && retention.beyond() == 0 {
        warn(
            "history is off, so nothing a muted conversation withholds can be read back later. Set \
             [storage].history_retention to record it."@,
        )
    } else {
        match messages {
            Ok(count) => pass(
                "history: "@ + text::decimal(count as nat) + " message(s) recorded, kept for "@
                    + crate::time::human_duration(retention.whole(), retention.beyond()),
            ),
            Err(error) => fail("could not read the message history: "@ + error@),
        }
    }
}

/// What is found of the database.
pub open spec fn storage_lines(config: Config, storage: Result<StorageProbe, String>) -> Seq<
    LineView,
> {
    seq![LineView::Heading("storage"@)] + (match storage {
        Ok(probe) => seq![
            pass("database at "@ + native::shown_path(config.storage.path@)),
            stats_line(probe.stats),
            overrides_line(probe.policies),
            recorded_line(config, probe.messages),
        ],
        Err(error) => seq![fail(error@)],
    })
}

/// The first profile that is active.
pub open spec fn active_profile(profiles: Seq<ProviderProfile>) -> Option<ProviderProfile>
    decreases profiles.len(),
{
    if profiles.len() == 0 {
        None
    } else if profiles[0].active {
        Some(profiles[0])
    } else {
        active_profile(profiles.skip(1))
    }
}

/// What is found of the providers. The bridge creates its session without naming a profile, so meka
/// has to have one to fall back on.
pub open spec fn provider_line(providers: Result<Vec<ProviderProfile>, String>) -> LineView {
    match providers {
        Ok(profiles) => match active_profile(profiles@) {
            Some(profile) => pass(
                "sessions run on profile "@ + profile.name@ + " ("@ + profile.backend@
                    + "), model "@ + text::either(profile.model.deep_view(), "(none configured)"@),
            ),
            None => fail(
                "meka has no default provider profile, so creating the bridge's session will fail; \
                 run `meka provider use <name>`"@,
            ),
        },
        Err(error) => warn("could not read the provider profiles: "@ + error@),
    }
}

/// What is found of whether the agent can see pictures.
pub open spec fn vision_line(vision: bool) -> LineView {
    if vision {
        pass("vision is on, so view_attachment hands the agent the picture itself"@)
    } else {
        warn(
            "the active profile has vision off, so view_attachment returns a description rather \
             than the image and the agent can only reach a file through download_attachment. Set \
             `vision = true` under [providers.<name>]."@,
        )
    }
}

/// What is found of whether meka can serve a turn.
pub open spec fn ready_lines(ready: Result<ReadyStatus, String>) -> Seq<LineView> {
    match ready {
        Ok(ready) => super::commands::readiness_checks(ready).map_values(
            |check: CheckView| LineView::Check(check),
        ),
        Err(error) => seq![warn("readiness probe failed: "@ + error@)],
    }
}

/// What is found of meka.
pub open spec fn meka_lines(
    config: Config,
    meka: Result<MekaProbe, String>,
    ready: Result<ReadyStatus, String>,
) -> Seq<LineView> {
    seq![LineView::Heading("meka at "@ + config.meka.base_url@)] + (match meka {
        Ok(probe) => seq![
            pass("reachable, version "@ + probe.info.version@),
            provider_line(probe.providers),
            vision_line(probe.info.vision),
        ],
        Err(error) => seq![fail(error@)],
    }) + ready_lines(ready)
}

/// The levels that meka enables, as far as it said.
pub open spec fn enabled_levels(meka: Result<MekaProbe, String>) -> Seq<Seq<char>> {
    match meka {
        Ok(probe) => probe.info.enabled_permissions.deep_view(),
        Err(_) => Seq::empty(),
    }
}

/// What is found of the bound session.
pub open spec fn bound_lines(session: SessionProbe) -> Seq<LineView> {
    match session {
        SessionProbe::Unbound => seq![
            pass("no session yet; one is created on the first message"@),
        ],
        SessionProbe::Found { id, info } => seq![
            pass("bound to "@ + id@ + " (permission "@ + info.permission@ + ")"@),
        ] + line_if(info.turn_in_flight, pass("a turn is running on it right now"@)) + (
        match super::commands::level_problem(info.permission@) {
            Some(problem) => seq![
                fail(
                    "the session is at permission "@ + text::debug_quoted(info.permission@) + ". "@
                        + problem,
                ),
            ],
            None => Seq::empty(),
        }),
        SessionProbe::Missing { id } => seq![
            warn("meka no longer knows session "@ + id@ + "; a replacement will be created"@),
        ],
        SessionProbe::Unreadable { id, error } => seq![
            warn("could not read session "@ + id@ + ": "@ + error@),
        ],
    }
}

/// Whether a channel registers the moderation tools.
pub open spec fn offers_admin(channel: ChannelConfig) -> bool {
    match channel.platform {
        PlatformConfig::Telegram(telegram) => telegram.admin_tools,
        PlatformConfig::Discord(discord) => discord.admin_tools,
    }
}

/// Whether any channel registers the moderation tools.
pub open spec fn any_admin(channels: Seq<ChannelConfig>) -> bool {
    exists|i: int| 0 <= i < channels.len() && offers_admin(#[trigger] channels[i])
}

/// What is found of the session and the level it is to have.
pub open spec fn session_lines(
    config: Config,
    session: SessionProbe,
    enabled: Seq<Seq<char>>,
) -> Seq<LineView> {
    let level = crate::config::permission_name(config.session.permission);
    seq![LineView::Heading("session"@)] + bound_lines(session) + (
    match super::commands::level_problem(level) {
        Some(problem) => seq![
            fail("[session].permission is "@ + text::debug_quoted(level) + ". "@ + problem),
        ],
        None => Seq::empty(),
    }) + fail_if(super::commands::level_refused(level, enabled)) + (
    match super::commands::moderation_out_of_reach(level, any_admin(config.channels@)) {
        Some(reach) => seq![pass(reach)],
        None => Seq::empty(),
    })
}

/// The name a bot goes by.
pub open spec fn bot_label(identity: ChannelIdentity) -> Seq<char> {
    match identity.username {
        Some(username) => "@"@ + username@,
        None => identity.display_name@,
    }
}

/// What is said of a channel that does not see everything said in a group.
///
/// Both platforms have a switch that withholds everything not aimed at the bot. Leaving it on does
/// not save a turn, it only empties the history the agent would otherwise read. The fix differs, so
/// the advice does.
pub open spec fn withholding_line(id: Seq<char>, platform: Platform) -> LineView {
    match platform {
        Platform::Telegram => warn(
            id + " has privacy mode on, so Telegram withholds group messages that do not mention \
                  it. The `mute` policy already limits what wakes the agent, and privacy mode on top \
                  of it means read_history has nothing to show. Turn it off with /setprivacy in \
                  @BotFather, then remove and re-add the bot to each group."@,
        ),
        Platform::Discord => warn(
            id + " runs with `message_content = false`, so Discord blanks the text of every server \
                  message except those mentioning the bot. Mentions still wake the agent, but \
                  read_history and search_history will have nothing to show it about what led up to \
                  one."@,
        ),
    }
}

/// What a token that authenticates does not show of the gateway.
pub open spec fn intents_line(id: Seq<char>, content: bool) -> LineView {
    LineView::Note(
        id + " asks Discord for the GUILDS, GUILD_MESSAGES and DIRECT_MESSAGES intents"@ + (
        if content {
            ", plus the privileged MESSAGE_CONTENT intent"@
        } else {
            Seq::empty()
        })
            + ". A privileged intent that is not enabled on the Bot page of the Developer Portal \
               closes the gateway with a 4014 at startup, which this check cannot see."@,
    )
}

/// What is found of one channel.
pub open spec fn channel_lines(probe: ChannelProbe) -> Seq<LineView> {
    match probe.identity {
        Err(error) => seq![fail(probe.id@ + ": "@ + error@)],
        Ok(identity) => seq![
            pass(probe.id@ + " authenticated as "@ + bot_label(identity)),
        ] + line_if(
            !identity.reads_all_group_messages,
            withholding_line(probe.id@, probe.platform),
        ) + line_if(
            probe.platform == Platform::Discord,
            intents_line(probe.id@, identity.reads_all_group_messages),
        ) + line_if(
            probe.capabilities.presence,
            pass(
                probe.id@ + " tracks who is online; availability is built up from the gateway, so \
                             it is empty for a moment after every restart and reads as unknown until \
                             it fills"@,
            ),
        ) + line_if(
            probe.capabilities.admin,
            pass(
                probe.id@ + " offers the moderation tools ("@ + (
                if probe.capabilities.member_roles {
                    "privileges granted through roles"@
                } else {
                    "privileges granted to a person directly"@
                }) + "); each call still needs the matching right in the chat it targets"@,
            ),
        ),
    }
}

/// What is found of a run of channels.
pub open spec fn all_channel_lines(probes: Seq<ChannelProbe>) -> Seq<LineView>
    decreases probes.len(),
{
    if probes.len() == 0 {
        Seq::empty()
    } else {
        all_channel_lines(probes.drop_last()) + channel_lines(probes.last())
    }
}

/// What is found of the channels, and of the conversation that operator notices go to.
pub open spec fn channels_lines(
    channels: Result<Vec<ChannelProbe>, String>,
    owner: Option<Check>,
) -> Seq<LineView> {
    seq![LineView::Heading("channels"@)] + (match channels {
        Ok(probes) => all_channel_lines(probes@) + (match owner {
            Some(check) => seq![LineView::Check(check.deep_view())],
            None => Seq::empty(),
        }),
        Err(error) => seq![fail(error@)],
    })
}

/// What is found of the endpoint that meka reaches the bridge by.
pub open spec fn mcp_lines(config: Config, bound: Result<(), String>, loopback: bool) -> Seq<
    LineView,
> {
    let address = config.mcp.bind@ + config.mcp.path@;
    seq![
        LineView::Heading("mcp"@),
        match config.mcp.transport {
            McpTransport::Stdio => pass("stdio transport; nothing to bind"@),
            McpTransport::Http => match bound {
                Ok(_) => pass(
                    address + " is free (meka should use transport = \"http\", url = \"http://"@
                        + address + "\")"@,
                ),
                Err(error) => warn(
                    "could not bind "@ + config.mcp.bind@ + ": "@ + error@
                        + ". This is expected if mekabridge is already running."@,
                ),
            },
        },
    ] + line_if(
        config.mcp.token is None && !loopback,
        fail(
            "the MCP endpoint is on a non-loopback address with no [mcp].token; anyone who can \
             reach it can send messages as the agent"@,
        ),
    )
}

/// What is found of every moving part.
pub open spec fn all_lines(config: Config, found: Examination) -> Seq<LineView> {
    config_lines(config) + attention_lines(config) + storage_lines(config, found.storage)
        + meka_lines(config, found.meka, found.ready) + session_lines(
        config,
        found.session,
        enabled_levels(found.meka),
    ) + channels_lines(found.channels, found.owner) + mcp_lines(
        config,
        found.bound,
        found.loopback,
    )
}

/// The checks among the lines of a report, in order.
pub open spec fn checks_of(lines: Seq<LineView>) -> Seq<CheckView>
    decreases lines.len(),
{
    if lines.len() == 0 {
        Seq::empty()
    } else {
        match lines.last() {
            LineView::Check(check) => checks_of(lines.drop_last()).push(check),
            _ => checks_of(lines.drop_last()),
        }
    }
}

fn push_line(lines: &mut Vec<Line>, line: Line)
    ensures
        final(lines).deep_view() == old(lines).deep_view().push(line.deep_view()),
{
    let ghost before = lines.deep_view();
    let ghost items = lines@;
    lines.push(line);
    assert forall|i: int| 0 <= i < lines@.len() implies lines.deep_view()[i] == before.push(
        line.deep_view(),
    )[i] by {
        if i < items.len() {
            assert(lines@[i] == items[i]);
            assert(before[i] == items[i].deep_view());
        }
    }
    assert(lines.deep_view() =~= before.push(line.deep_view()));
}

fn push_pass(lines: &mut Vec<Line>, text: String)
    ensures
        final(lines).deep_view() == old(lines).deep_view().push(pass(text@)),
{
    push_line(lines, Line::Check(Check::Pass(text)));
}

fn push_warn(lines: &mut Vec<Line>, text: String)
    ensures
        final(lines).deep_view() == old(lines).deep_view().push(warn(text@)),
{
    push_line(lines, Line::Check(Check::Warn(text)));
}

fn push_fail(lines: &mut Vec<Line>, text: String)
    ensures
        final(lines).deep_view() == old(lines).deep_view().push(fail(text@)),
{
    push_line(lines, Line::Check(Check::Fail(text)));
}

fn add_config(config: &Config, lines: &mut Vec<Line>)
    ensures
        final(lines).deep_view() == old(lines).deep_view() + config_lines(*config),
{
    let ghost before = lines.deep_view();
    push_line(lines, Line::Heading("config".to_owned()));
    push_pass(lines, "parsed and validated".to_owned());
    let ghost head = lines.deep_view();
    let ghost tail = config.warnings.deep_view().map_values(|warning: Seq<char>| warn(warning));
    let mut i: usize = 0;
    assert(head + tail.take(0) =~= head);
    while i < config.warnings.len()
        invariant
            i <= config.warnings.len(),
            tail == config.warnings.deep_view().map_values(|warning: Seq<char>| warn(warning)),
            lines.deep_view() == head + tail.take(i as int),
        decreases config.warnings.len() - i,
    {
        push_warn(lines, config.warnings[i].clone());
        assert(tail[i as int] == warn(config.warnings@[i as int]@));
        assert(lines.deep_view() =~= head + tail.take(i + 1));
        i += 1;
    }
    assert(tail.take(i as int) =~= tail);
    assert(lines.deep_view() =~= before + config_lines(*config));
}

fn add_attention(config: &Config, lines: &mut Vec<Line>)
    ensures
        final(lines).deep_view() == old(lines).deep_view() + attention_lines(*config),
{
    let ghost before = lines.deep_view();
    push_line(lines, Line::Heading("attention".to_owned()));
    push_pass(
        lines,
        "default policy: ".to_owned().concat(
            describe_default(&config.bridge.default_policy).as_str(),
        ),
    );
    assert(lines.deep_view() =~= before + attention_lines(*config));
}

fn describe_stats(stats: &Result<QueueStats, String>) -> (line: Line)
    ensures
        line.deep_view() == stats_line(*stats),
{
    match stats {
        Ok(stats) => Line::Check(
            Check::Pass(
                "queue: ".to_owned().concat(text::number(stats.pending).as_str()).concat(
                    " pending, ",
                ).concat(text::number(stats.in_flight).as_str()).concat(" in flight, ").concat(
                    text::number(stats.failed).as_str(),
                ).concat(" failed"),
            ),
        ),
        Err(error) => Line::Check(
            Check::Fail("could not read queue stats: ".to_owned().concat(error.as_str())),
        ),
    }
}

fn describe_overrides(policies: &Result<usize, String>) -> (line: Line)
    ensures
        line.deep_view() == overrides_line(*policies),
{
    match policies {
        Ok(count) => if *count == 0 {
            Line::Check(Check::Pass("no conversation overrides the default".to_owned()))
        } else {
            Line::Check(
                Check::Pass(
                    text::number(*count as u64).concat(
                        " conversation(s) have a policy of their own; `mekabridge policy list` \
                         shows them",
                    ),
                ),
            )
        },
        Err(error) => Line::Check(
            Check::Fail(
                "could not read conversation policies: ".to_owned().concat(error.as_str()),
            ),
        ),
    }
}

fn describe_recorded(config: &Config, messages: &Result<u64, String>) -> (line: Line)
    ensures
        line.deep_view() == recorded_line(*config, *messages),
{
    if config.storage.history_retention.is_zero() {
        return Line::Check(
            Check::Warn(
                "history is off, so nothing a muted conversation withholds can be read back later. \
                 Set [storage].history_retention to record it.".to_owned(),
            ),
        );
    }
    match messages {
        Ok(count) => Line::Check(
            Check::Pass(
                "history: ".to_owned().concat(text::number(*count).as_str()).concat(
                    " message(s) recorded, kept for ",
                ).concat(config.storage.history_retention.to_human().as_str()),
            ),
        ),
        Err(error) => Line::Check(
            Check::Fail("could not read the message history: ".to_owned().concat(error.as_str())),
        ),
    }
}

fn add_storage(config: &Config, storage: &Result<StorageProbe, String>, lines: &mut Vec<Line>)
    ensures
        final(lines).deep_view() == old(lines).deep_view() + storage_lines(*config, *storage),
{
    let ghost before = lines.deep_view();
    push_line(lines, Line::Heading("storage".to_owned()));
    match storage {
        Ok(probe) => {
            push_pass(lines, "database at ".to_owned().concat(native::to_shown(config.storage.path.as_str()).as_str()));
            push_line(lines, describe_stats(&probe.stats));
            push_line(lines, describe_overrides(&probe.policies));
            push_line(lines, describe_recorded(config, &probe.messages));
        },
        Err(error) => {
            push_fail(lines, error.clone());
        },
    }
    assert(lines.deep_view() =~= before + storage_lines(*config, *storage));
}

fn find_active(profiles: &Vec<ProviderProfile>) -> (active: Option<&ProviderProfile>)
    ensures
        match active {
            Some(active) => active_profile(profiles@) == Some(*active),
            None => active_profile(profiles@) is None,
        },
{
    let mut i: usize = 0;
    assert(profiles@.skip(0) =~= profiles@);
    while i < profiles.len()
        invariant
            i <= profiles.len(),
            active_profile(profiles@) == active_profile(profiles@.skip(i as int)),
        decreases profiles.len() - i,
    {
        assert(profiles@.skip(i as int)[0] == profiles@[i as int]);
        assert(profiles@.skip(i as int).skip(1) =~= profiles@.skip(i + 1));
        if profiles[i].active {
            return Some(&profiles[i]);
        }
        i += 1;
    }
    None
}

fn describe_provider(providers: &Result<Vec<ProviderProfile>, String>) -> (line: Line)
    ensures
        line.deep_view() == provider_line(*providers),
{
    match providers {
        Ok(profiles) => match find_active(profiles) {
            Some(profile) => Line::Check(
                Check::Pass(
                    "sessions run on profile ".to_owned().concat(profile.name.as_str()).concat(
                        " (",
                    ).concat(profile.backend.as_str()).concat("), model ").concat(
                        text::or(&profile.model, "(none configured)").as_str(),
                    ),
                ),
            ),
            None => Line::Check(
                Check::Fail(
                    "meka has no default provider profile, so creating the bridge's session will \
                     fail; run `meka provider use <name>`".to_owned(),
                ),
            ),
        },
        Err(error) => Line::Check(
            Check::Warn("could not read the provider profiles: ".to_owned().concat(error.as_str())),
        ),
    }
}

fn describe_vision(vision: bool) -> (line: Line)
    ensures
        line.deep_view() == vision_line(vision),
{
    if vision {
        Line::Check(
            Check::Pass(
                "vision is on, so view_attachment hands the agent the picture itself".to_owned(),
            ),
        )
    } else {
        Line::Check(
            Check::Warn(
                "the active profile has vision off, so view_attachment returns a description rather \
                 than the image and the agent can only reach a file through download_attachment. \
                 Set `vision = true` under [providers.<name>].".to_owned(),
            ),
        )
    }
}

fn add_readiness(ready: &ReadyStatus, lines: &mut Vec<Line>)
    ensures
        final(lines).deep_view() == old(lines).deep_view()
            + super::commands::readiness_checks(*ready).map_values(
            |check: CheckView| LineView::Check(check),
        ),
{
    let ghost before = lines.deep_view();
    let checks = assess_readiness(ready);
    let ghost all = super::commands::readiness_checks(*ready).map_values(
        |check: CheckView| LineView::Check(check),
    );
    let mut i: usize = 0;
    assert(before + all.take(0) =~= before);
    while i < checks.len()
        invariant
            i <= checks.len(),
            checks.deep_view() == super::commands::readiness_checks(*ready),
            all == super::commands::readiness_checks(*ready).map_values(
                |check: CheckView| LineView::Check(check),
            ),
            lines.deep_view() == before + all.take(i as int),
        decreases checks.len() - i,
    {
        assert(checks.deep_view()[i as int] == checks@[i as int].deep_view());
        push_line(lines, Line::Check(copy_check(&checks[i])));
        assert(lines.deep_view() =~= before + all.take(i + 1));
        i += 1;
    }
    assert(all.take(i as int) =~= all);
}

fn add_meka(
    config: &Config,
    meka: &Result<MekaProbe, String>,
    ready: &Result<ReadyStatus, String>,
    lines: &mut Vec<Line>,
)
    ensures
        final(lines).deep_view() == old(lines).deep_view() + meka_lines(*config, *meka, *ready),
{
    let ghost before = lines.deep_view();
    push_line(lines, Line::Heading("meka at ".to_owned().concat(config.meka.base_url.as_str())));
    match meka {
        Ok(probe) => {
            push_pass(
                lines,
                "reachable, version ".to_owned().concat(probe.info.version.as_str()),
            );
            push_line(lines, describe_provider(&probe.providers));
            push_line(lines, describe_vision(probe.info.vision));
        },
        Err(error) => {
            push_fail(lines, error.clone());
        },
    }
    match ready {
        Ok(ready) => {
            add_readiness(ready, lines);
        },
        Err(error) => {
            push_warn(lines, "readiness probe failed: ".to_owned().concat(error.as_str()));
        },
    }
    assert(lines.deep_view() =~= before + meka_lines(*config, *meka, *ready));
}

fn add_bound(session: &SessionProbe, lines: &mut Vec<Line>)
    ensures
        final(lines).deep_view() == old(lines).deep_view() + bound_lines(*session),
{
    let ghost before = lines.deep_view();
    match session {
        SessionProbe::Unbound => {
            push_pass(lines, "no session yet; one is created on the first message".to_owned());
        },
        SessionProbe::Found { id, info } => {
            push_pass(
                lines,
                "bound to ".to_owned().concat(id.as_str()).concat(" (permission ").concat(
                    info.permission.as_str(),
                ).concat(")"),
            );
            if info.turn_in_flight {
                push_pass(lines, "a turn is running on it right now".to_owned());
            }
            if let Some(problem) = permission_problem(info.permission.as_str()) {
                push_fail(
                    lines,
                    "the session is at permission ".to_owned().concat(
                        text::quoted(info.permission.as_str()).as_str(),
                    ).concat(". ").concat(problem),
                );
            }
        },
        SessionProbe::Missing { id } => {
            push_warn(
                lines,
                "meka no longer knows session ".to_owned().concat(id.as_str()).concat(
                    "; a replacement will be created",
                ),
            );
        },
        SessionProbe::Unreadable { id, error } => {
            push_warn(
                lines,
                "could not read session ".to_owned().concat(id.as_str()).concat(": ").concat(
                    error.as_str(),
                ),
            );
        },
    }
    assert(lines.deep_view() =~= before + bound_lines(*session));
}

fn has_admin(channels: &Vec<ChannelConfig>) -> (found: bool)
    ensures
        found == any_admin(channels@),
{
    let mut i: usize = 0;
    while i < channels.len()
        invariant
            i <= channels.len(),
            forall|j: int| 0 <= j < i ==> !offers_admin(#[trigger] channels@[j]),
        decreases channels.len() - i,
    {
        let offers = match &channels[i].platform {
            PlatformConfig::Telegram(telegram) => telegram.admin_tools,
            PlatformConfig::Discord(discord) => discord.admin_tools,
        };
        if offers {
            assert(offers_admin(channels@[i as int]));
            return true;
        }
        i += 1;
    }
    false
}

fn add_session(
    config: &Config,
    session: &SessionProbe,
    enabled: &Vec<String>,
    lines: &mut Vec<Line>,
)
    ensures
        final(lines).deep_view() == old(lines).deep_view() + session_lines(
            *config,
            *session,
            enabled.deep_view(),
        ),
{
    let ghost before = lines.deep_view();
    push_line(lines, Line::Heading("session".to_owned()));
    add_bound(session, lines);
    let level = config.session.permission.as_str();
    if let Some(problem) = permission_problem(level) {
        push_fail(
            lines,
            "[session].permission is ".to_owned().concat(text::quoted(level).as_str()).concat(
                ". ",
            ).concat(problem),
        );
    }
    if let Some(problem) = level_meka_will_not_create(level, enabled) {
        push_fail(lines, problem);
    }
    if let Some(reach) = moderation_reach(level, has_admin(&config.channels)) {
        push_pass(lines, reach);
    }
    assert(lines.deep_view() =~= before + session_lines(*config, *session, enabled.deep_view()));
}

fn describe_withholding(id: &str, platform: Platform) -> (line: Line)
    ensures
        line.deep_view() == withholding_line(id@, platform),
{
    match platform {
        Platform::Telegram => Line::Check(
            Check::Warn(
                id.to_owned().concat(
                    " has privacy mode on, so Telegram withholds group messages that do not mention \
                     it. The `mute` policy already limits what wakes the agent, and privacy mode on \
                     top of it means read_history has nothing to show. Turn it off with /setprivacy \
                     in @BotFather, then remove and re-add the bot to each group.",
                ),
            ),
        ),
        Platform::Discord => Line::Check(
            Check::Warn(
                id.to_owned().concat(
                    " runs with `message_content = false`, so Discord blanks the text of every \
                     server message except those mentioning the bot. Mentions still wake the agent, \
                     but read_history and search_history will have nothing to show it about what \
                     led up to one.",
                ),
            ),
        ),
    }
}

fn describe_intents(id: &str, content: bool) -> (line: Line)
    ensures
        line.deep_view() == intents_line(id@, content),
{
    let asked = id.to_owned().concat(
        " asks Discord for the GUILDS, GUILD_MESSAGES and DIRECT_MESSAGES intents",
    );
    let ghost so_far = asked@;
    let asked = if content {
        asked.concat(", plus the privileged MESSAGE_CONTENT intent")
    } else {
        asked
    };
    assert(asked@ =~= so_far + (if content {
        ", plus the privileged MESSAGE_CONTENT intent"@
    } else {
        Seq::empty()
    }));
    Line::Note(
        asked.concat(
            ". A privileged intent that is not enabled on the Bot page of the Developer Portal \
             closes the gateway with a 4014 at startup, which this check cannot see.",
        ),
    )
}

fn add_channel(probe: &ChannelProbe, lines: &mut Vec<Line>)
    ensures
        final(lines).deep_view() == old(lines).deep_view() + channel_lines(*probe),
{
    let ghost before = lines.deep_view();
    let id = probe.id.as_str();
    match &probe.identity {
        Err(error) => {
            push_fail(lines, id.to_owned().concat(": ").concat(error.as_str()));
        },
        Ok(identity) => {
            let label = match &identity.username {
                Some(username) => "@".to_owned().concat(username.as_str()),
                None => identity.display_name.clone(),
            };
            push_pass(lines, id.to_owned().concat(" authenticated as ").concat(label.as_str()));
            if !identity.reads_all_group_messages {
                push_line(lines, describe_withholding(id, probe.platform));
            }
            if probe.platform == Platform::Discord {
                push_line(lines, describe_intents(id, identity.reads_all_group_messages));
            }
            if probe.capabilities.presence {
                push_pass(
                    lines,
                    id.to_owned().concat(
                        " tracks who is online; availability is built up from the gateway, so it is \
                         empty for a moment after every restart and reads as unknown until it fills",
                    ),
                );
            }
            if probe.capabilities.admin {
                let granted = if probe.capabilities.member_roles {
                    "privileges granted through roles"
                } else {
                    "privileges granted to a person directly"
                };
                push_pass(
                    lines,
                    id.to_owned().concat(" offers the moderation tools (").concat(granted).concat(
                        "); each call still needs the matching right in the chat it targets",
                    ),
                );
            }
        },
    }
    assert(lines.deep_view() =~= before + channel_lines(*probe));
}

fn copy_check(check: &Check) -> (copy: Check)
    ensures
        copy.deep_view() == check.deep_view(),
{
    match check {
        Check::Pass(line) => Check::Pass(line.clone()),
        Check::Warn(line) => Check::Warn(line.clone()),
        Check::Fail(line) => Check::Fail(line.clone()),
    }
}

fn add_channels(
    channels: &Result<Vec<ChannelProbe>, String>,
    owner: &Option<Check>,
    lines: &mut Vec<Line>,
)
    ensures
        final(lines).deep_view() == old(lines).deep_view() + channels_lines(*channels, *owner),
{
    let ghost before = lines.deep_view();
    push_line(lines, Line::Heading("channels".to_owned()));
    let ghost head = lines.deep_view();
    match channels {
        Ok(probes) => {
            let mut i: usize = 0;
            assert(probes@.take(0) =~= Seq::empty());
            assert(head + all_channel_lines(probes@.take(0)) =~= head);
            while i < probes.len()
                invariant
                    i <= probes.len(),
                    lines.deep_view() == head + all_channel_lines(probes@.take(i as int)),
                decreases probes.len() - i,
            {
                assert(probes@.take(i + 1).drop_last() =~= probes@.take(i as int));
                add_channel(&probes[i], lines);
                assert(lines.deep_view() =~= head + all_channel_lines(probes@.take(i + 1)));
                i += 1;
            }
            assert(probes@.take(i as int) =~= probes@);
            if let Some(check) = owner {
                push_line(lines, Line::Check(copy_check(check)));
            }
        },
        Err(error) => {
            push_fail(lines, error.clone());
        },
    }
    assert(lines.deep_view() =~= before + channels_lines(*channels, *owner));
}

fn add_mcp(config: &Config, bound: &Result<(), String>, loopback: bool, lines: &mut Vec<Line>)
    ensures
        final(lines).deep_view() == old(lines).deep_view() + mcp_lines(*config, *bound, loopback),
{
    let ghost before = lines.deep_view();
    push_line(lines, Line::Heading("mcp".to_owned()));
    let address = config.mcp.bind.clone().concat(config.mcp.path.as_str());
    match config.mcp.transport {
        McpTransport::Stdio => {
            push_pass(lines, "stdio transport; nothing to bind".to_owned());
        },
        McpTransport::Http => match bound {
            Ok(_) => {
                push_pass(
                    lines,
                    address.clone().concat(
                        " is free (meka should use transport = \"http\", url = \"http://",
                    ).concat(address.as_str()).concat("\")"),
                );
            },
            // A daemon already holding the port is the common case and is fine.
            Err(error) => {
                push_warn(
                    lines,
                    "could not bind ".to_owned().concat(config.mcp.bind.as_str()).concat(
                        ": ",
                    ).concat(error.as_str()).concat(
                        ". This is expected if mekabridge is already running.",
                    ),
                );
            },
        },
    }
    if config.mcp.token.is_none() && !loopback {
        push_fail(
            lines,
            "the MCP endpoint is on a non-loopback address with no [mcp].token; anyone who can \
             reach it can send messages as the agent".to_owned(),
        );
    }
    assert(lines.deep_view() =~= before + mcp_lines(*config, *bound, loopback));
}

/// What is found of every moving part, in the order a failure would bite.
pub fn doctor(config: &Config, found: &Examination) -> (lines: Vec<Line>)
    ensures
        lines.deep_view() == all_lines(*config, *found),
{
    let mut lines: Vec<Line> = Vec::new();
    assert(lines.deep_view() =~= Seq::empty());
    add_config(config, &mut lines);
    add_attention(config, &mut lines);
    add_storage(config, &found.storage, &mut lines);
    add_meka(config, &found.meka, &found.ready, &mut lines);
    let enabled: Vec<String> = match &found.meka {
        Ok(probe) => text::copied_all(&probe.info.enabled_permissions),
        Err(_) => Vec::new(),
    };
    assert(enabled.deep_view() =~= enabled_levels(found.meka));
    add_session(config, &found.session, &enabled, &mut lines);
    add_channels(&found.channels, &found.owner, &mut lines);
    add_mcp(config, &found.bound, found.loopback, &mut lines);
    assert(lines.deep_view() =~= all_lines(*config, *found));
    lines
}

/// What a report begins with: everything that can be said before meka is asked anything.
pub open spec fn opening_lines(config: Config, storage: Result<StorageProbe, String>) -> Seq<
    LineView,
> {
    config_lines(config) + attention_lines(config) + storage_lines(config, storage) + seq![
        LineView::Heading("meka at "@ + config.meka.base_url@),
    ]
}

/// What a report begins with, for when there is no client that meka could be asked with.
pub fn opening(config: &Config, storage: &Result<StorageProbe, String>) -> (lines: Vec<Line>)
    ensures
        lines.deep_view() == opening_lines(*config, *storage),
{
    let mut lines: Vec<Line> = Vec::new();
    assert(lines.deep_view() =~= Seq::empty());
    add_config(config, &mut lines);
    add_attention(config, &mut lines);
    add_storage(config, storage, &mut lines);
    push_line(
        &mut lines,
        Line::Heading("meka at ".to_owned().concat(config.meka.base_url.as_str())),
    );
    assert(lines.deep_view() =~= opening_lines(*config, *storage));
    lines
}

/// Every report begins the same way, whatever is found of meka and of what comes after it.
pub proof fn a_report_begins_with_its_opening(config: Config, found: Examination)
    ensures
        opening_lines(config, found.storage).is_prefix_of(all_lines(config, found)),
{
    let opening = opening_lines(config, found.storage);
    let all = all_lines(config, found);
    assert(opening =~= all.subrange(0, opening.len() as int));
}

/// How many failures and warnings a report holds.
pub fn tally(lines: &Vec<Line>) -> (counts: (usize, usize))
    ensures
        counts.0 == super::commands::failures(checks_of(lines.deep_view())),
        counts.1 == super::commands::warnings(checks_of(lines.deep_view())),
{
    let ghost all = lines.deep_view();
    let mut failed: usize = 0;
    let mut warned: usize = 0;
    let mut i: usize = 0;
    assert(all.take(0) =~= Seq::empty());
    while i < lines.len()
        invariant
            i <= lines.len(),
            all == lines.deep_view(),
            failed <= i,
            warned <= i,
            failed == super::commands::failures(checks_of(all.take(i as int))),
            warned == super::commands::warnings(checks_of(all.take(i as int))),
        decreases lines.len() - i,
    {
        assert(all.take(i + 1).drop_last() =~= all.take(i as int));
        assert(all.take(i + 1).last() == lines@[i as int].deep_view());
        let ghost before = checks_of(all.take(i as int));
        match &lines[i] {
            Line::Check(check) => {
                assert(checks_of(all.take(i + 1)) == before.push(check.deep_view()));
                assert(before.push(check.deep_view()).drop_last() =~= before);
                match check {
                    Check::Fail(_) => {
                        failed += 1;
                    },
                    Check::Warn(_) => {
                        warned += 1;
                    },
                    Check::Pass(_) => {},
                }
            },
            _ => {},
        }
        i += 1;
    }
    assert(all.take(i as int) =~= all);
    (failed, warned)
}

/// What a report comes to: a closing line, and an error where anything failed, so this doubles as a
/// health check in a deployment script. Warnings alone are no error.
pub fn conclude(lines: &Vec<Line>) -> (conclusion: (String, crate::error::Result<()>))
    ensures
        ({
            let failed = super::commands::failures(checks_of(lines.deep_view()));
            let warned = super::commands::warnings(checks_of(lines.deep_view()));
            if failed > 0 {
                &&& conclusion.0@ == text::decimal(failed) + " failure(s), "@ + text::decimal(
                    warned,
                ) + " warning(s)"@
                &&& conclusion.1 matches Err(error)
                &&& error.deep_view() == (BridgeErrorView::Command {
                    message: "doctor found "@ + text::decimal(failed) + " failure(s)"@,
                })
            } else {
                &&& conclusion.0@ == "no failures, "@ + text::decimal(warned) + " warning(s)"@
                &&& conclusion.1 is Ok
            }
        }),
{
    let (failed, warned) = tally(lines);
    if failed > 0 {
        let failures = text::number(failed as u64);
        let line = failures.clone().concat(" failure(s), ").concat(
            text::number(warned as u64).as_str(),
        ).concat(" warning(s)");
        let message = "doctor found ".to_owned().concat(failures.as_str()).concat(" failure(s)");
        (line, Err(BridgeError::command(message.as_str())))
    } else {
        (
            "no failures, ".to_owned().concat(text::number(warned as u64).as_str()).concat(
                " warning(s)",
            ),
            Ok(()),
        )
    }
}

} // verus!
