//! The operator subcommands, but for the reading and writing they do.
//!
//! None of these talk to a running daemon, which is what lets a wedged one still be inspected.

use vstd::prelude::*;
use vstd::string::*;

use crate::channel::ids::{ConversationId, ConversationView};
use crate::channel::{ChannelError, ConversationInfo, Platform};
use crate::config::{ChannelConfig, Config, DefaultPolicy, PlatformConfig};
use crate::error::{BridgeError, BridgeErrorView, Result};
use crate::meka::{ReadyStatus, SessionInfo};
use crate::paths::{self, native};
use crate::store::{
    ConversationRecord, HistoryRecord, PendingMessage, Policy, PolicyRecord, QueueStats,
};
use crate::text;
use crate::time::{long_time, short_time, Duration, Instant};

verus! {

/// One line `doctor` prints, and whether it counts against the run.
#[derive(Debug, PartialEq, Eq)]
pub enum Check {
    Pass(String),
    Warn(String),
    Fail(String),
}

/// What a [`Check`] holds.
pub enum CheckView {
    Pass(Seq<char>),
    Warn(Seq<char>),
    Fail(Seq<char>),
}

impl DeepView for Check {
    type V = CheckView;

    open spec fn deep_view(&self) -> CheckView {
        match self {
            Check::Pass(line) => CheckView::Pass(line@),
            Check::Warn(line) => CheckView::Warn(line@),
            Check::Fail(line) => CheckView::Fail(line@),
        }
    }
}

/// How many of the checks failed.
pub open spec fn failures(checks: Seq<CheckView>) -> nat
    decreases checks.len(),
{
    if checks.len() == 0 {
        0
    } else if checks.last() is Fail {
        failures(checks.drop_last()) + 1
    } else {
        failures(checks.drop_last())
    }
}

/// How many of the checks are warnings.
pub open spec fn warnings(checks: Seq<CheckView>) -> nat
    decreases checks.len(),
{
    if checks.len() == 0 {
        0
    } else if checks.last() is Warn {
        warnings(checks.drop_last()) + 1
    } else {
        warnings(checks.drop_last())
    }
}

/// The counts of two sets of checks taken together are the sums of their counts, so it makes no
/// difference whether a run is judged as a whole or section by section.
pub proof fn verdicts_add_up(left: Seq<CheckView>, right: Seq<CheckView>)
    ensures
        failures(left + right) == failures(left) + failures(right),
        warnings(left + right) == warnings(left) + warnings(right),
    decreases right.len(),
{
    if right.len() == 0 {
        assert(left + right =~= left);
    } else {
        assert((left + right).drop_last() =~= left + right.drop_last());
        assert((left + right).last() == right.last());
        verdicts_add_up(left, right.drop_last());
    }
}

/// How many failures and warnings a set of checks contributes.
pub fn verdict(checks: &[Check]) -> (counts: (usize, usize))
    ensures
        counts.0 == failures(checks@.map_values(|check: Check| check.deep_view())),
        counts.1 == warnings(checks@.map_values(|check: Check| check.deep_view())),
{
    let ghost all = checks@.map_values(|check: Check| check.deep_view());
    let mut failed: usize = 0;
    let mut warned: usize = 0;
    let mut i: usize = 0;
    assert(all.take(0) =~= Seq::empty());
    while i < checks.len()
        invariant
            i <= checks@.len(),
            all == checks@.map_values(|check: Check| check.deep_view()),
            failed == failures(all.take(i as int)),
            warned == warnings(all.take(i as int)),
            failed <= i,
            warned <= i,
        decreases checks@.len() - i,
    {
        assert(all.take(i + 1).drop_last() =~= all.take(i as int));
        assert(all.take(i + 1).last() == checks@[i as int].deep_view());
        match &checks[i] {
            Check::Fail(_) => {
                failed += 1;
            },
            Check::Warn(_) => {
                warned += 1;
            },
            Check::Pass(_) => {},
        }
        i += 1;
    }
    assert(all.take(i as int) =~= all);
    (failed, warned)
}

/// Appends a check to a list.
pub fn push_check(checks: &mut Vec<Check>, check: Check)
    ensures
        final(checks).deep_view() == old(checks).deep_view().push(check.deep_view()),
{
    let ghost before = checks.deep_view();
    let ghost items = checks@;
    checks.push(check);
    assert forall|i: int| 0 <= i < checks@.len() implies checks.deep_view()[i] == before.push(
        check.deep_view(),
    )[i] by {
        if i < items.len() {
            assert(checks@[i] == items[i]);
            assert(before[i] == items[i].deep_view());
        }
    }
    assert(checks.deep_view() =~= before.push(check.deep_view()));
}

/// One check where a condition holds, and none otherwise.
pub open spec fn check_if(on: bool, check: CheckView) -> Seq<CheckView> {
    if on {
        seq![check]
    } else {
        Seq::empty()
    }
}

/// What meka's readiness answer means.
pub open spec fn readiness_checks(ready: ReadyStatus) -> Seq<CheckView> {
    let line = "readiness: "@ + ready.status@;
    seq![
        if ready.status@ == "ok"@ {
            CheckView::Pass(line)
        } else {
            CheckView::Warn(line)
        },
    ] + check_if(
        !ready.session_db,
        CheckView::Fail("meka cannot reach its session database; no turn can run"@),
    ) + check_if(
        !ready.provider_configured,
        CheckView::Fail("meka reports no provider is configured; no turn can run"@),
    ) + check_if(
        !ready.mcp_servers_healthy,
        CheckView::Warn(
            "meka reports an unhealthy required MCP server. If that is this bridge, it should \
             reconnect on its own within a few minutes; turns are refused until it does."@,
        ),
    )
}

/// Decides what meka's readiness answer means.
pub fn assess_readiness(ready: &ReadyStatus) -> (checks: Vec<Check>)
    ensures
        checks.deep_view() == readiness_checks(*ready),
{
    let mut checks: Vec<Check> = Vec::new();
    assert(checks.deep_view() =~= Seq::empty());
    let line = "readiness: ".to_owned().concat(ready.status.as_str());
    // meka names which subsystem is the blocker in this same body, so a readiness that is not `ok`
    // has to count against the run.
    if text::same(ready.status.as_str(), "ok") {
        push_check(&mut checks, Check::Pass(line));
    } else {
        push_check(&mut checks, Check::Warn(line));
    }
    if !ready.session_db {
        // meka could not read its own session store, so no turn can run and nothing here recovers
        // on its own.
        push_check(
            &mut checks,
            Check::Fail("meka cannot reach its session database; no turn can run".to_owned()),
        );
    }
    if !ready.provider_configured {
        // Likewise terminal: without a provider meka cannot serve a single turn.
        push_check(
            &mut checks,
            Check::Fail("meka reports no provider is configured; no turn can run".to_owned()),
        );
    }
    if !ready.mcp_servers_healthy {
        // Usually meka having started before this bridge was listening, which it retries out of on
        // its own, so a warning.
        push_check(
            &mut checks,
            Check::Warn(
                "meka reports an unhealthy required MCP server. If that is this bridge, it should \
                 reconnect on its own within a few minutes; turns are refused until it does."
                    .to_owned(),
            ),
        );
    }
    assert(checks.deep_view() =~= readiness_checks(*ready));
    checks
}

/// A readiness fails the run exactly where no turn can run: an unreachable session database and a
/// missing provider each fail it, and nothing else does. A readiness that is fine throughout counts
/// against nothing.
pub proof fn only_what_stops_a_turn_fails(ready: ReadyStatus)
    ensures
        failures(readiness_checks(ready)) == (if ready.session_db {
            0nat
        } else {
            1
        }) + (if ready.provider_configured {
            0nat
        } else {
            1
        }),
        warnings(readiness_checks(ready)) == (if ready.status@ == "ok"@ {
            0nat
        } else {
            1
        }) + (if ready.mcp_servers_healthy {
            0nat
        } else {
            1
        }),
{
    let line = "readiness: "@ + ready.status@;
    let first = if ready.status@ == "ok"@ {
        CheckView::Pass(line)
    } else {
        CheckView::Warn(line)
    };
    let database = CheckView::Fail("meka cannot reach its session database; no turn can run"@);
    let provider = CheckView::Fail("meka reports no provider is configured; no turn can run"@);
    let server = CheckView::Warn(
        "meka reports an unhealthy required MCP server. If that is this bridge, it should \
         reconnect on its own within a few minutes; turns are refused until it does."@,
    );
    one_check_counts_once(true, first);
    one_check_counts_once(!ready.session_db, database);
    one_check_counts_once(!ready.provider_configured, provider);
    one_check_counts_once(!ready.mcp_servers_healthy, server);
    verdicts_add_up(seq![first], check_if(!ready.session_db, database));
    verdicts_add_up(
        seq![first] + check_if(!ready.session_db, database),
        check_if(!ready.provider_configured, provider),
    );
    verdicts_add_up(
        seq![first] + check_if(!ready.session_db, database) + check_if(
            !ready.provider_configured,
            provider,
        ),
        check_if(!ready.mcp_servers_healthy, server),
    );
}

proof fn one_check_counts_once(on: bool, check: CheckView)
    ensures
        failures(check_if(on, check)) == (if on && check is Fail {
            1nat
        } else {
            0
        }),
        warnings(check_if(on, check)) == (if on && check is Warn {
            1nat
        } else {
            0
        }),
{
    if on {
        assert(seq![check].drop_last() =~= Seq::empty());
        assert(failures(Seq::<CheckView>::empty()) == 0);
        assert(warnings(Seq::<CheckView>::empty()) == 0);
    }
}

/// Why a permission level will not work for this bridge, where it will not.
pub open spec fn level_problem(level: Seq<char>) -> Option<Seq<char>> {
    if level == "read"@ || level == "workspace"@ || level == "unrestricted"@ {
        None
    } else if level == "ask"@ {
        Some(
            "meka prompts for every tool call at `ask`, including read-only ones, and this bridge \
             cannot answer a prompt, so each is denied at once. That includes send_message, so the \
             agent can never reply. Use \"read\", \"workspace\" or \"unrestricted\"."@,
        )
    } else if level == "write"@ {
        Some(
            "meka 0.42 retired `write` and split it into `workspace` and `unrestricted`, so a \
             session cannot be created at this level at all. Use \"read\" to answer messages, or \
             \"unrestricted\" to also moderate."@,
        )
    } else {
        Some(
            "no tools are executable at this level, so the agent cannot reply. Use \"read\" to let \
             it answer messages."@,
        )
    }
}

/// Why a permission level will not work for this bridge, or nothing if it will.
///
/// The send tools are annotated read-only, so replying sits at meka's `read` level and every rung
/// above it allows what `read` allows. `ask` does not work because meka prompts for every call at it,
/// and this bridge cannot answer a prompt. `write` can still be the level of a session that an old
/// meka created.
pub fn permission_problem(level: &str) -> (problem: Option<&'static str>)
    ensures
        problem.deep_view() == level_problem(level@),
{
    if text::same(level, "read") || text::same(level, "workspace") || text::same(
        level,
        "unrestricted",
    ) {
        None
    } else if text::same(level, "ask") {
        Some(
            "meka prompts for every tool call at `ask`, including read-only ones, and this bridge \
             cannot answer a prompt, so each is denied at once. That includes send_message, so the \
             agent can never reply. Use \"read\", \"workspace\" or \"unrestricted\".",
        )
    } else if text::same(level, "write") {
        Some(
            "meka 0.42 retired `write` and split it into `workspace` and `unrestricted`, so a \
             session cannot be created at this level at all. Use \"read\" to answer messages, or \
             \"unrestricted\" to also moderate.",
        )
    } else {
        Some(
            "no tools are executable at this level, so the agent cannot reply. Use \"read\" to let \
             it answer messages.",
        )
    }
}

/// Why meka will refuse to create a session at a level, where it will. Nothing enabled means that
/// meka has no opinion, and draws no verdict.
pub open spec fn level_refused(level: Seq<char>, enabled: Seq<Seq<char>>) -> Option<Seq<char>> {
    if enabled.len() == 0 || enabled.contains(level) {
        None
    } else {
        Some(
            "meka will not create a session at "@ + text::debug_quoted(level) + "; it enables "@
                + text::joined(enabled, ", "@) + ". Add it to meka's [permissions].enabled, or set \
                                                  [session].permission to one of those."@,
        )
    }
}

/// Why meka will refuse to create a session at a level, or nothing if it will accept one.
///
/// This asks whether the level exists on the other side at all, and it is the earlier failure: a
/// level outside meka's enabled set is refused on the first message.
pub fn level_meka_will_not_create(level: &str, enabled: &Vec<String>) -> (refusal: Option<String>)
    ensures
        refusal.deep_view() == level_refused(level@, enabled.deep_view()),
{
    if enabled.len() == 0 || text::holds(enabled, level) {
        return None;
    }
    Some(
        "meka will not create a session at ".to_owned().concat(text::quoted(level).as_str()).concat(
            "; it enables ",
        ).concat(text::join(enabled, ", ").as_str()).concat(
            ". Add it to meka's [permissions].enabled, or set [session].permission to one of those.",
        ),
    )
}

/// That the moderation tools are registered and cannot be dispatched at a level, where that is so.
pub open spec fn moderation_out_of_reach(level: Seq<char>, admin_tools: bool) -> Option<Seq<char>> {
    if !admin_tools || level == "unrestricted"@ {
        None
    } else {
        Some(
            "the moderation tools are registered but do not run at "@ + text::debug_quoted(level)
                + ": meka resolves them to `unrestricted` and refuses them below it. Raise \
                   [session].permission, or grant them individually with meka's \
                   [mcp.servers.*].tool_permissions"@,
        )
    }
}

/// That the moderation tools are registered and cannot be dispatched at a level, if so.
///
/// Stated rather than warned about, because it is the shipped posture. Worth stating at all because
/// the failure is otherwise silent from both ends.
pub fn moderation_reach(level: &str, admin_tools: bool) -> (reach: Option<String>)
    ensures
        reach.deep_view() == moderation_out_of_reach(level@, admin_tools),
{
    if !admin_tools || text::same(level, "unrestricted") {
        return None;
    }
    Some(
        "the moderation tools are registered but do not run at ".to_owned().concat(
            text::quoted(level).as_str(),
        ).concat(
            ": meka resolves them to `unrestricted` and refuses them below it. Raise \
             [session].permission, or grant them individually with meka's \
             [mcp.servers.*].tool_permissions",
        ),
    )
}

/// The platform of the channel that goes by a name, where one does.
pub open spec fn platform_of(channels: Seq<(Seq<char>, Platform)>, id: Seq<char>) -> Option<Platform>
    decreases channels.len(),
{
    if channels.len() == 0 {
        None
    } else if channels[0].0 == id {
        Some(channels[0].1)
    } else {
        platform_of(channels.skip(1), id)
    }
}

/// What a list of named platforms holds.
pub open spec fn named(channels: Seq<(String, Platform)>) -> Seq<(Seq<char>, Platform)> {
    channels.map_values(|channel: (String, Platform)| (channel.0@, channel.1))
}

/// Which conversation a platform is to be asked about, and which platform, given who is logged in.
///
/// Nobody is asked where the id is malformed or names no channel, which config validation reports
/// already, nor where the channel is not logged in, which refuses every question the same way.
pub open spec fn owner_asked(
    owner: Seq<char>,
    channels: Seq<(Seq<char>, Platform)>,
    authenticated: Seq<Seq<char>>,
) -> Option<(ConversationView, Platform)> {
    match crate::channel::ids::conversation_named(owner) {
        None => None,
        Some(conversation) => match platform_of(channels, conversation.channel) {
            None => None,
            Some(platform) => if authenticated.contains(conversation.channel) {
                Some((conversation, platform))
            } else {
                None
            },
        },
    }
}

fn find_platform(channels: &Vec<(String, Platform)>, id: &str) -> (platform: Option<Platform>)
    ensures
        platform == platform_of(named(channels@), id@),
{
    let ghost all = named(channels@);
    let mut i: usize = 0;
    assert(all.skip(0) =~= all);
    while i < channels.len()
        invariant
            i <= channels.len(),
            all == named(channels@),
            platform_of(all, id@) == platform_of(all.skip(i as int), id@),
        decreases channels.len() - i,
    {
        assert(all.skip(i as int)[0] == (channels@[i as int].0@, channels@[i as int].1));
        assert(all.skip(i as int).skip(1) =~= all.skip(i + 1));
        if text::same(channels[i].0.as_str(), id) {
            return Some(channels[i].1);
        }
        i += 1;
    }
    None
}

/// Which conversation a platform is to be asked about, and which platform.
pub fn owner_question(
    owner: &str,
    channels: &Vec<(String, Platform)>,
    authenticated: &Vec<String>,
) -> (question: Option<(ConversationId, Platform)>)
    ensures
        match question {
            Some((conversation, platform)) => owner_asked(
                owner@,
                named(channels@),
                authenticated.deep_view(),
            ) == Some((conversation@, platform)),
            None => owner_asked(owner@, named(channels@), authenticated.deep_view()) is None,
        },
{
    let conversation = match ConversationId::parse(owner) {
        Some(conversation) => conversation,
        None => return None,
    };
    let platform = match find_platform(channels, conversation.channel()) {
        Some(platform) => platform,
        None => return None,
    };
    if text::holds(authenticated, conversation.channel()) {
        Some((conversation, platform))
    } else {
        None
    }
}

/// What a platform's answer about the conversation that operator notices go to means.
pub open spec fn owner_check(
    owner: Seq<char>,
    conversation: ConversationView,
    platform: Platform,
    answer: core::result::Result<ConversationInfo, ChannelError>,
) -> CheckView {
    match answer {
        Ok(info) => CheckView::Pass(
            "[bridge].owner_conversation reaches a "@ + crate::channel::kind_name(info.kind)
                + " chat"@ + (match info.title {
                Some(title) => " ("@ + title@ + ")"@,
                None => Seq::empty(),
            }) + (if crate::channel::ids::conversation_text(info.id@) == owner {
                Seq::empty()
            } else {
                ", which is "@ + crate::channel::ids::conversation_text(info.id@)
            }),
        ),
        Err(ChannelError::Unsupported { .. }) => CheckView::Pass(
            conversation.channel + " cannot look a conversation id up, so \
                                    [bridge].owner_conversation is taken on trust"@,
        ),
        Err(error) => {
            let line = "[bridge].owner_conversation "@ + text::debug_quoted(owner)
                + " cannot be reached, so an operator notice goes nowhere: "@
                + crate::channel::channel_reported(error.deep_view());
            CheckView::Warn(
                if platform == Platform::Discord && !text::begins(conversation.chat, "@"@) {
                    line + ". A Discord user id and a channel id look alike, and only a channel id \
                            can be posted to. To reach a person, dial them as `discord:@<user id>` \
                            and the bridge opens the direct message itself"@
                } else {
                    line
                },
            )
        },
    }
}

/// What a platform's answer about the conversation that operator notices go to means.
///
/// Startup validation can only judge the shape of the id, and on Discord the shape says nothing: a
/// user id and a channel id look alike, so the wrong one sits in the config looking correct until a
/// notice fails to send. Warns rather than fails, because nothing about the bridge stops working.
pub fn assess_owner_conversation(
    owner: &str,
    conversation: &ConversationId,
    platform: Platform,
    answer: &core::result::Result<ConversationInfo, ChannelError>,
) -> (check: Check)
    ensures
        check.deep_view() == owner_check(owner@, conversation@, platform, *answer),
{
    match answer {
        Ok(info) => {
            let reaches = "[bridge].owner_conversation reaches a ".to_owned().concat(
                info.kind.as_str(),
            ).concat(" chat");
            let ghost named = reaches@;
            let titled = match &info.title {
                Some(title) => reaches.concat(" (").concat(title.as_str()).concat(")"),
                None => reaches,
            };
            assert(titled@ =~= named + (match info.title {
                Some(title) => " ("@ + title@ + ")"@,
                None => Seq::empty(),
            }));
            let ghost so_far = titled@;
            // Seeing the resolved id is how an operator matches this against the list of known
            // conversations.
            let line = if text::same(info.id.as_str(), owner) {
                titled
            } else {
                titled.concat(", which is ").concat(info.id.as_str())
            };
            assert(line@ =~= so_far + (if crate::channel::ids::conversation_text(info.id@) == owner@ {
                Seq::empty()
            } else {
                ", which is "@ + crate::channel::ids::conversation_text(info.id@)
            }));
            Check::Pass(line)
        },
        Err(ChannelError::Unsupported { .. }) => Check::Pass(
            conversation.channel().to_owned().concat(
                " cannot look a conversation id up, so [bridge].owner_conversation is taken on \
                 trust",
            ),
        ),
        Err(error) => {
            let line = "[bridge].owner_conversation ".to_owned().concat(
                text::quoted(owner).as_str(),
            ).concat(" cannot be reached, so an operator notice goes nowhere: ").concat(
                error.to_text().as_str(),
            );
            if platform == Platform::Discord && !text::starts_with(conversation.chat(), "@") {
                Check::Warn(
                    line.concat(
                        ". A Discord user id and a channel id look alike, and only a channel id can \
                         be posted to. To reach a person, dial them as `discord:@<user id>` and the \
                         bridge opens the direct message itself",
                    ),
                )
            } else {
                Check::Warn(line)
            }
        },
    }
}

/// The name of a channel's platform.
pub open spec fn platform_label(channel: ChannelConfig) -> Seq<char> {
    match channel.platform {
        PlatformConfig::Telegram(_) => "telegram"@,
        PlatformConfig::Discord(_) => "discord"@,
    }
}

/// The name of a channel's platform.
pub fn platform_name(channel: &ChannelConfig) -> (name: &'static str)
    ensures
        name@ == platform_label(*channel),
{
    match channel.platform {
        PlatformConfig::Telegram(_) => "telegram",
        PlatformConfig::Discord(_) => "discord",
    }
}

/// The whole seconds of a span of nanoseconds, rounded towards zero.
pub open spec fn elapsed_seconds(span: int) -> int {
    if span >= 0 {
        span / 1_000_000_000
    } else {
        -((-span) / 1_000_000_000)
    }
}

/// How long ago a moment was, in the largest useful unit.
pub open spec fn age(at: Instant, now: Instant) -> Seq<char> {
    let seconds = elapsed_seconds(now - at);
    if seconds < 0 {
        "in the future"@
    } else if seconds < 60 {
        text::decimal(seconds as nat) + "s ago"@
    } else if seconds < 3600 {
        text::decimal((seconds / 60) as nat) + "m ago"@
    } else if seconds < 86_400 {
        text::decimal((seconds / 3600) as nat) + "h ago"@
    } else {
        text::decimal((seconds / 86_400) as nat) + "d ago"@
    }
}

/// Human-readable age, so a status reads without arithmetic. Clock skew between the daemon's host and
/// the operator's shell is real, so a moment may lie ahead.
pub fn describe_age(at: Instant, now: Instant) -> (described: String)
    requires
        crate::time::datable(at as int),
        crate::time::datable(now as int),
    ensures
        described@ == age(at, now),
{
    let second: i128 = 1_000_000_000;
    let span: i128 = now - at;
    if span < 0 && (-span) / second > 0 {
        return "in the future".to_owned();
    }
    let seconds: u64 = if span < 0 {
        0
    } else {
        (span / second) as u64
    };
    if seconds < 60 {
        text::number(seconds).concat("s ago")
    } else if seconds < 3600 {
        text::number(seconds / 60).concat("m ago")
    } else if seconds < 86_400 {
        text::number(seconds / 3600).concat("h ago")
    } else {
        text::number(seconds / 86_400).concat("d ago")
    }
}

/// What becomes of a queue's messages, in words.
pub open spec fn queue_text(stats: QueueStats) -> Seq<char> {
    text::decimal(stats.pending as nat) + " pending, "@ + text::decimal(stats.in_flight as nat)
        + " in flight, "@ + text::decimal(stats.done as nat) + " delivered, "@ + text::decimal(
        stats.failed as nat,
    ) + " failed"@
}

fn describe_queue(stats: &QueueStats) -> (line: String)
    ensures
        line@ == queue_text(*stats),
{
    text::number(stats.pending).concat(" pending, ").concat(
        text::number(stats.in_flight).as_str(),
    ).concat(" in flight, ").concat(text::number(stats.done).as_str()).concat(
        " delivered, ",
    ).concat(text::number(stats.failed).as_str()).concat(" failed")
}

/// What `status` prints of a session.
pub open spec fn session_line(session: Option<Seq<char>>) -> Seq<char> {
    match session {
        Some(session) => "session:       "@ + session,
        None => "session:       none yet"@,
    }
}

/// What `status` prints of the last turn.
pub open spec fn last_turn_line(last_turn: Option<Instant>, now: Instant) -> Seq<char> {
    match last_turn {
        Some(at) => "last turn:     "@ + crate::time::moment_text(at as int) + " ("@ + age(at, now)
            + ")"@,
        None => "last turn:     never"@,
    }
}

/// What `status` prints of a channel.
pub open spec fn channel_line(channel: ChannelConfig) -> Seq<char> {
    "  "@ + channel.id@ + " ("@ + platform_label(channel) + ")"@
}

/// What the bridge is currently holding, line by line.
pub open spec fn status_lines(
    config: Config,
    session: Option<Seq<char>>,
    last_turn: Option<Instant>,
    stats: QueueStats,
    conversations: usize,
    now: Instant,
) -> Seq<Seq<char>> {
    seq![
        "database:      "@ + native::shown_path(config.storage.path@),
        session_line(session),
        last_turn_line(last_turn, now),
        "queue:         "@ + queue_text(stats),
        "conversations: "@ + text::decimal(conversations as nat),
        "channels:      "@ + text::decimal(config.channels@.len()),
    ] + config.channels@.map_values(|channel: ChannelConfig| channel_line(channel))
}

/// What the bridge is currently holding, line by line.
pub fn status(
    config: &Config,
    session: &Option<String>,
    last_turn: Option<Instant>,
    stats: &QueueStats,
    conversations: usize,
    now: Instant,
) -> (lines: Vec<String>)
    requires
        crate::time::datable(now as int),
        last_turn matches Some(at) ==> crate::time::datable(at as int),
    ensures
        lines.deep_view() == status_lines(
            *config,
            session.deep_view(),
            last_turn,
            *stats,
            conversations,
            now,
        ),
{
    let mut lines: Vec<String> = Vec::new();
    assert(lines.deep_view() =~= Seq::empty());
    text::push(&mut lines, "database:      ".to_owned().concat(native::to_shown(config.storage.path.as_str()).as_str()));
    text::push(
        &mut lines,
        match session {
            Some(session) => "session:       ".to_owned().concat(session.as_str()),
            None => "session:       none yet".to_owned(),
        },
    );
    text::push(
        &mut lines,
        match last_turn {
            Some(at) => "last turn:     ".to_owned().concat(long_time(at).as_str()).concat(
                " (",
            ).concat(describe_age(at, now).as_str()).concat(")"),
            None => "last turn:     never".to_owned(),
        },
    );
    text::push(&mut lines, "queue:         ".to_owned().concat(describe_queue(stats).as_str()));
    text::push(
        &mut lines,
        "conversations: ".to_owned().concat(text::number(conversations as u64).as_str()),
    );
    text::push(
        &mut lines,
        "channels:      ".to_owned().concat(text::number(config.channels.len() as u64).as_str()),
    );
    let ghost head = lines.deep_view();
    let ghost tail = config.channels@.map_values(|channel: ChannelConfig| channel_line(channel));
    let mut i: usize = 0;
    assert(head + tail.take(0) =~= head);
    while i < config.channels.len()
        invariant
            i <= config.channels.len(),
            tail == config.channels@.map_values(|channel: ChannelConfig| channel_line(channel)),
            lines.deep_view() == head + tail.take(i as int),
        decreases config.channels.len() - i,
    {
        let channel = &config.channels[i];
        text::push(
            &mut lines,
            "  ".to_owned().concat(channel.id.as_str()).concat(" (").concat(
                platform_name(channel),
            ).concat(")"),
        );
        assert(lines.deep_view() =~= head + tail.take(i + 1));
        i += 1;
    }
    assert(tail.take(i as int) =~= tail);
    assert(lines.deep_view() =~= status_lines(
        *config,
        session.deep_view(),
        last_turn,
        *stats,
        conversations,
        now,
    ));
    lines
}

/// What is printed of a waiting message.
pub open spec fn pending_line(message: PendingMessage) -> Seq<char> {
    "  #"@ + text::padded(text::signed_decimal(message.seq as int), 6) + " "@ + text::padded(
        message.conversation_id@,
        28,
    ) + " attempts "@ + text::decimal(message.attempts as nat) + "  received "@
        + crate::time::moment_text(message.received_at as int)
}

/// The queue, line by line.
pub open spec fn queue_lines(stats: QueueStats, pending: Seq<PendingMessage>) -> Seq<Seq<char>> {
    seq![queue_text(stats)] + (if pending.len() == 0 {
        seq!["nothing waiting"@]
    } else {
        seq![Seq::empty()] + pending.map_values(|message: PendingMessage| pending_line(message))
    })
}

/// The queue, line by line.
pub fn queue_list(stats: &QueueStats, pending: &Vec<PendingMessage>) -> (lines: Vec<String>)
    requires
        forall|i: int|
            0 <= i < pending@.len() ==> crate::time::datable(
                (#[trigger] pending@[i]).received_at as int,
            ),
    ensures
        lines.deep_view() == queue_lines(*stats, pending@),
{
    let mut lines: Vec<String> = Vec::new();
    assert(lines.deep_view() =~= Seq::empty());
    text::push(&mut lines, describe_queue(stats));
    if pending.len() == 0 {
        text::push(&mut lines, "nothing waiting".to_owned());
        assert(lines.deep_view() =~= queue_lines(*stats, pending@));
        return lines;
    }
    let blank = String::new();
    assert(blank@ =~= Seq::empty());
    text::push(&mut lines, blank);
    let ghost head = lines.deep_view();
    let ghost tail = pending@.map_values(|message: PendingMessage| pending_line(message));
    let mut i: usize = 0;
    assert(head + tail.take(0) =~= head);
    while i < pending.len()
        invariant
            i <= pending.len(),
            forall|j: int|
                0 <= j < pending@.len() ==> crate::time::datable(
                    (#[trigger] pending@[j]).received_at as int,
                ),
            tail == pending@.map_values(|message: PendingMessage| pending_line(message)),
            lines.deep_view() == head + tail.take(i as int),
        decreases pending.len() - i,
    {
        let message = &pending[i];
        assert(crate::time::datable(pending@[i as int].received_at as int));
        text::push(
            &mut lines,
            "  #".to_owned().concat(
                text::pad(text::signed_number(message.seq).as_str(), 6).as_str(),
            ).concat(" ").concat(text::pad(message.conversation_id.as_str(), 28).as_str()).concat(
                " attempts ",
            ).concat(text::number(message.attempts as u64).as_str()).concat("  received ").concat(
                long_time(message.received_at).as_str(),
            ),
        );
        assert(lines.deep_view() =~= head + tail.take(i + 1));
        i += 1;
    }
    assert(tail.take(i as int) =~= tail);
    assert(lines.deep_view() =~= queue_lines(*stats, pending@));
    lines
}

/// Whether every queued message may be deleted.
pub fn queue_clear(confirmed: bool) -> (cleared: Result<()>)
    ensures
        match cleared {
            Ok(_) => confirmed,
            Err(error) => !confirmed && error.deep_view() == (BridgeErrorView::Command {
                message: "this deletes every queued message, including undelivered ones; pass --yes \
                          to confirm"@,
            }),
        },
{
    if confirmed {
        Ok(())
    } else {
        Err(
            BridgeError::command(
                "this deletes every queued message, including undelivered ones; pass --yes to \
                 confirm",
            ),
        )
    }
}

/// What is printed of a known conversation.
pub open spec fn conversation_line(conversation: ConversationRecord) -> Seq<char> {
    "  "@ + text::padded(conversation.id@, 28) + " "@ + text::padded(conversation.kind@, 8) + " "@
        + text::padded(text::either(conversation.title.deep_view(), "-"@), 20) + " last inbound "@
        + (match conversation.last_inbound_at {
        Some(at) => crate::time::moment_text(at as int),
        None => "never"@,
    })
}

/// The known conversations, line by line.
pub open spec fn conversation_lines(conversations: Seq<ConversationRecord>) -> Seq<Seq<char>> {
    if conversations.len() == 0 {
        seq!["no conversations yet"@]
    } else {
        conversations.map_values(
            |conversation: ConversationRecord| conversation_line(conversation),
        )
    }
}

/// The known conversations, line by line.
pub fn conversations_list(conversations: &Vec<ConversationRecord>) -> (lines: Vec<String>)
    requires
        forall|i: int|
            0 <= i < conversations@.len() ==> ((
            #[trigger] conversations@[i]).last_inbound_at matches Some(at)
                ==> crate::time::datable(at as int)),
    ensures
        lines.deep_view() == conversation_lines(conversations@),
{
    let mut lines: Vec<String> = Vec::new();
    assert(lines.deep_view() =~= Seq::empty());
    if conversations.len() == 0 {
        text::push(&mut lines, "no conversations yet".to_owned());
        assert(lines.deep_view() =~= conversation_lines(conversations@));
        return lines;
    }
    let ghost all = conversation_lines(conversations@);
    let mut i: usize = 0;
    while i < conversations.len()
        invariant
            i <= conversations.len(),
            conversations@.len() > 0,
            forall|j: int|
                0 <= j < conversations@.len() ==> ((
                #[trigger] conversations@[j]).last_inbound_at matches Some(at)
                    ==> crate::time::datable(at as int)),
            all == conversation_lines(conversations@),
            lines.deep_view() == all.take(i as int),
        decreases conversations.len() - i,
    {
        let conversation = &conversations[i];
        let row = "  ".to_owned().concat(text::pad(conversation.id.as_str(), 28).as_str()).concat(
            " ",
        ).concat(text::pad(conversation.kind.as_str(), 8).as_str()).concat(" ").concat(
            text::pad(text::or(&conversation.title, "-").as_str(), 20).as_str(),
        ).concat(" last inbound ");
        let row = match conversation.last_inbound_at {
            Some(at) => row.concat(long_time(at).as_str()),
            None => row.concat("never"),
        };
        assert(all[i as int] == row@);
        text::push(&mut lines, row);
        assert(lines.deep_view() =~= all.take(i + 1));
        i += 1;
    }
    assert(all.take(i as int) =~= all);
    lines
}

/// The configured defaults, in words.
pub open spec fn default_text(policy: DefaultPolicy) -> Seq<char> {
    "direct "@ + crate::store::policy_name(policy.direct) + ", group "@ + crate::store::policy_name(
        policy.group,
    ) + ", channel "@ + crate::store::policy_name(policy.channel)
}

/// The configured defaults, in words.
pub fn describe_default(policy: &DefaultPolicy) -> (line: String)
    ensures
        line@ == default_text(*policy),
{
    "direct ".to_owned().concat(policy.direct.as_str()).concat(", group ").concat(
        policy.group.as_str(),
    ).concat(", channel ").concat(policy.channel.as_str())
}

/// The count recorded for a conversation, or nothing.
pub open spec fn count_of(counts: Seq<(String, u64)>, id: Seq<char>) -> u64
    decreases counts.len(),
{
    if counts.len() == 0 {
        0
    } else if counts[0].0@ == id {
        counts[0].1
    } else {
        count_of(counts.skip(1), id)
    }
}

fn find_count(counts: &Vec<(String, u64)>, id: &str) -> (count: u64)
    ensures
        count == count_of(counts@, id@),
{
    let mut i: usize = 0;
    assert(counts@.skip(0) =~= counts@);
    while i < counts.len()
        invariant
            i <= counts.len(),
            count_of(counts@, id@) == count_of(counts@.skip(i as int), id@),
        decreases counts.len() - i,
    {
        assert(counts@.skip(i as int)[0] == counts@[i as int]);
        assert(counts@.skip(i as int).skip(1) =~= counts@.skip(i + 1));
        if text::same(counts[i].0.as_str(), id) {
            return counts[i].1;
        }
        i += 1;
    }
    0
}

/// How long a policy holds. One that has run out can still be recorded, and is told apart.
pub open spec fn policy_term(until: Option<Instant>, now: Instant) -> Seq<char> {
    match until {
        Some(until) => if until <= now {
            "expired "@ + crate::time::short_text(until as int)
        } else {
            "until "@ + crate::time::short_text(until as int)
        },
        None => "indefinite"@,
    }
}

/// What a policy kept from the agent. What a block threw away is gone, and what a mute withheld is
/// still readable, so the two tallies are told apart.
pub open spec fn withheld(record: PolicyRecord, unseen: Seq<(String, u64)>) -> Seq<char> {
    match record.policy {
        Policy::Block => text::decimal(record.dropped as nat) + " discarded"@,
        Policy::Mute => text::decimal(count_of(unseen, record.conversation_id@) as nat)
            + " unseen"@,
        Policy::Active => "-"@,
    }
}

/// What is printed of a conversation's own policy.
pub open spec fn policy_line(record: PolicyRecord, unseen: Seq<(String, u64)>, now: Instant) -> Seq<
    char,
> {
    "  "@ + text::padded(record.conversation_id@, 28) + " "@ + text::padded(
        crate::store::policy_name(record.policy),
        8,
    ) + " "@ + text::padded(policy_term(record.until, now), 34) + " "@ + text::padded(
        withheld(record, unseen),
        14,
    ) + " "@ + text::either(record.reason.deep_view(), "-"@)
}

/// The configured defaults and every conversation with a policy of its own, line by line.
pub open spec fn policy_lines(
    default: DefaultPolicy,
    policies: Seq<PolicyRecord>,
    unseen: Seq<(String, u64)>,
    now: Instant,
) -> Seq<Seq<char>> {
    seq!["default: "@ + default_text(default)] + (if policies.len() == 0 {
        seq!["no conversation has a policy of its own"@]
    } else {
        policies.map_values(|record: PolicyRecord| policy_line(record, unseen, now))
    })
}

fn describe_policy(record: &PolicyRecord, unseen: &Vec<(String, u64)>, now: Instant) -> (line:
    String)
    requires
        record.until matches Some(until) ==> crate::time::datable(until as int),
    ensures
        line@ == policy_line(*record, unseen@, now),
{
    let term = match record.until {
        Some(until) => if until <= now {
            "expired ".to_owned().concat(short_time(until).as_str())
        } else {
            "until ".to_owned().concat(short_time(until).as_str())
        },
        None => "indefinite".to_owned(),
    };
    let kept = match record.policy {
        Policy::Block => text::number(record.dropped).concat(" discarded"),
        Policy::Mute => text::number(find_count(unseen, record.conversation_id.as_str())).concat(
            " unseen",
        ),
        Policy::Active => "-".to_owned(),
    };
    "  ".to_owned().concat(text::pad(record.conversation_id.as_str(), 28).as_str()).concat(
        " ",
    ).concat(text::pad(record.policy.as_str(), 8).as_str()).concat(" ").concat(
        text::pad(term.as_str(), 34).as_str(),
    ).concat(" ").concat(text::pad(kept.as_str(), 14).as_str()).concat(" ").concat(
        text::or(&record.reason, "-").as_str(),
    )
}

/// The configured defaults and every conversation with a policy of its own, line by line.
pub fn policy_list(
    default: &DefaultPolicy,
    policies: &Vec<PolicyRecord>,
    unseen: &Vec<(String, u64)>,
    now: Instant,
) -> (lines: Vec<String>)
    requires
        forall|i: int|
            0 <= i < policies@.len() ==> ((#[trigger] policies@[i]).until matches Some(until)
                ==> crate::time::datable(until as int)),
    ensures
        lines.deep_view() == policy_lines(*default, policies@, unseen@, now),
{
    let mut lines: Vec<String> = Vec::new();
    assert(lines.deep_view() =~= Seq::empty());
    text::push(&mut lines, "default: ".to_owned().concat(describe_default(default).as_str()));
    if policies.len() == 0 {
        text::push(&mut lines, "no conversation has a policy of its own".to_owned());
        assert(lines.deep_view() =~= policy_lines(*default, policies@, unseen@, now));
        return lines;
    }
    let ghost head = lines.deep_view();
    let ghost tail = policies@.map_values(
        |record: PolicyRecord| policy_line(record, unseen@, now),
    );
    let mut i: usize = 0;
    assert(head + tail.take(0) =~= head);
    while i < policies.len()
        invariant
            i <= policies.len(),
            forall|j: int|
                0 <= j < policies@.len() ==> ((#[trigger] policies@[j]).until matches Some(until)
                    ==> crate::time::datable(until as int)),
            tail == policies@.map_values(
                |record: PolicyRecord| policy_line(record, unseen@, now),
            ),
            lines.deep_view() == head + tail.take(i as int),
        decreases policies.len() - i,
    {
        let record = &policies[i];
        assert(policies@[i as int].until matches Some(until) ==> crate::time::datable(
            until as int,
        ));
        text::push(&mut lines, describe_policy(record, unseen, now));
        assert(lines.deep_view() =~= head + tail.take(i + 1));
        i += 1;
    }
    assert(tail.take(i as int) =~= tail);
    assert(lines.deep_view() =~= policy_lines(*default, policies@, unseen@, now));
    lines
}

/// A policy to be recorded.
pub struct PolicyChange {
    pub conversation: ConversationId,
    pub policy: Policy,
    pub until: Option<Instant>,
    pub reason: Option<String>,
}

/// How long a policy is to hold, as it was typed.
pub fn policy_span(duration: &str) -> (span: Result<Duration>)
    ensures
        match (span, crate::time::span_reading(duration@)) {
            (Ok(span), Ok((secs, nanos))) => {
                &&& span.whole() == secs
                &&& span.beyond() == nanos
                &&& span.span() <= i64::MAX * 1_000_000
            },
            (Err(error), Ok((secs, nanos))) => {
                &&& secs * 1_000_000_000 + nanos > i64::MAX * 1_000_000
                &&& error.deep_view() == (BridgeErrorView::Config {
                    message: text::debug_quoted(duration@) + " is too long"@,
                })
            },
            (Err(error), Err(reason)) => error.deep_view() == (BridgeErrorView::Config {
                message: text::debug_quoted(duration@) + " is not a duration: "@ + reason,
            }),
            (Ok(_), Err(_)) => false,
        },
{
    let span = match Duration::from_human(duration) {
        Ok(span) => span,
        Err(reason) => {
            let message = text::quoted(duration).concat(" is not a duration: ").concat(
                reason.as_str(),
            );
            return Err(BridgeError::config(message.as_str()));
        },
    };
    if span.is_spannable() {
        Ok(span)
    } else {
        let message = text::quoted(duration).concat(" is too long");
        Err(BridgeError::config(message.as_str()))
    }
}

/// The refusal of a text that is no conversation id.
pub open spec fn not_a_conversation(raw: Seq<char>) -> BridgeErrorView {
    BridgeErrorView::Config {
        message: text::debug_quoted(raw) + " is not a conversation id; the form is \
                                            <channel>:<chat>, as printed by `mekabridge \
                                            conversations list`"@,
    }
}

/// The policy that a conversation is to be given.
///
/// The id is validated rather than stored as typed. A policy is keyed by exact id, so a mistyped one
/// would insert a row that governs nothing and report success.
pub fn policy_set(
    conversation: &str,
    policy: Policy,
    span: Option<Duration>,
    reason: &Option<String>,
    now: Instant,
) -> (change: Result<PolicyChange>)
    requires
        crate::time::datable(now as int),
        span matches Some(span) ==> crate::time::datable(now + span.span()),
    ensures
        match change {
            Ok(change) => {
                &&& crate::channel::ids::conversation_named(conversation@) == Some(
                    change.conversation@,
                )
                &&& change.policy == policy
                &&& change.reason.deep_view() == reason.deep_view()
                &&& match span {
                    Some(span) => change.until == Some((now + span.span()) as Instant),
                    None => change.until is None,
                }
            },
            Err(error) => {
                &&& crate::channel::ids::conversation_named(conversation@) is None
                &&& error.deep_view() == not_a_conversation(conversation@)
            },
        },
{
    let until: Option<Instant> = match span {
        Some(span) => Some(span.after(now)),
        None => None,
    };
    match ConversationId::parse(conversation) {
        Some(conversation) => Ok(
            PolicyChange { conversation, policy, until, reason: text::copied(reason) },
        ),
        None => {
            let message = text::quoted(conversation).concat(
                " is not a conversation id; the form is <channel>:<chat>, as printed by `mekabridge \
                 conversations list`",
            );
            Err(BridgeError::config(message.as_str()))
        },
    }
}

/// What is printed once a policy has been recorded.
pub fn policy_set_line(change: &PolicyChange) -> (line: String)
    requires
        change.until matches Some(until) ==> crate::time::datable(until as int),
    ensures
        line@ == crate::channel::ids::conversation_text(change.conversation@) + " set to "@
            + crate::store::policy_name(change.policy) + (match change.until {
            Some(until) => " until "@ + crate::time::short_text(until as int),
            None => Seq::empty(),
        }),
{
    let line = change.conversation.as_str().to_owned().concat(" set to ").concat(
        change.policy.as_str(),
    );
    let ghost so_far = line@;
    let line = match change.until {
        Some(until) => line.concat(" until ").concat(short_time(until).as_str()),
        None => line,
    };
    assert(line@ =~= so_far + (match change.until {
        Some(until) => " until "@ + crate::time::short_text(until as int),
        None => Seq::empty(),
    }));
    line
}

/// What is printed once a conversation's own policy has been looked for and removed.
pub fn policy_clear(conversation: &str, existed: bool) -> (line: String)
    ensures
        line@ == conversation@ + (if existed {
            " now follows the configured default"@
        } else {
            " had no policy of its own"@
        }),
{
    if existed {
        conversation.to_owned().concat(" now follows the configured default")
    } else {
        conversation.to_owned().concat(" had no policy of its own")
    }
}

/// What the bridge exits with where something is waiting, where nothing is, and where the question
/// could not be answered. The three are distinct on purpose: a watcher that treats a failure as
/// "nothing new" goes quiet exactly like a room that has, and stays quiet until somebody notices.
pub fn unseen_exit(answer: Option<u64>) -> (code: u8)
    ensures
        code == (match answer {
            Some(count) => if count > 0 {
                0u8
            } else {
                1u8
            },
            None => 2u8,
        }),
{
    match answer {
        Some(count) => if count > 0 {
            0
        } else {
            1
        },
        None => 2,
    }
}

/// Which conversation is asked about. One that the store simply does not match reads as an empty
/// room, so a gate built around a typo would decline to fire for as long as anybody left it running.
pub fn unseen_target(conversation: Option<&str>) -> (target: Result<Option<ConversationId>>)
    ensures
        match (target, conversation) {
            (Ok(Some(target)), Some(raw)) =>
            crate::channel::ids::conversation_named(raw@) == Some(target@),
            (Ok(None), None) => true,
            (Err(error), Some(raw)) => {
                &&& crate::channel::ids::conversation_named(raw@) is None
                &&& error.deep_view() == (BridgeErrorView::Command {
                    message: text::debug_quoted(raw@) + " is not a conversation id; expected \
                                                         something like `telegram:-1001234567890`"@,
                })
            },
            _ => false,
        },
{
    match conversation {
        None => Ok(None),
        Some(raw) => match ConversationId::parse(raw) {
            Some(target) => Ok(Some(target)),
            None => {
                let message = text::quoted(raw).concat(
                    " is not a conversation id; expected something like `telegram:-1001234567890`",
                );
                Err(BridgeError::command(message.as_str()))
            },
        },
    }
}

/// Whether a channel goes by a name.
pub open spec fn is_configured(channels: Seq<ChannelConfig>, id: Seq<char>) -> bool {
    exists|i: int| 0 <= i < channels.len() && (#[trigger] channels[i]).id@ == id
}

/// Whether a conversation is on a configured channel. One that is not can never match a row.
pub fn unseen_reachable(config: &Config, target: &ConversationId) -> (checked: Result<()>)
    ensures
        match checked {
            Ok(_) => is_configured(config.channels@, target@.channel),
            Err(error) => {
                &&& !is_configured(config.channels@, target@.channel)
                &&& error.deep_view() == (BridgeErrorView::Command {
                    message: "no channel named "@ + text::debug_quoted(target@.channel)
                        + " is configured, so "@ + crate::channel::ids::conversation_text(target@)
                        + " can never match anything"@,
                })
            },
        },
{
    let mut i: usize = 0;
    while i < config.channels.len()
        invariant
            i <= config.channels.len(),
            forall|j: int| 0 <= j < i ==> (#[trigger] config.channels@[j]).id@ != target@.channel,
        decreases config.channels.len() - i,
    {
        if text::same(config.channels[i].id.as_str(), target.channel()) {
            assert(config.channels@[i as int].id@ == target@.channel);
            return Ok(());
        }
        i += 1;
    }
    let message = "no channel named ".to_owned().concat(
        text::quoted(target.channel()).as_str(),
    ).concat(" is configured, so ").concat(target.as_str()).concat(" can never match anything");
    Err(BridgeError::command(message.as_str()))
}

/// What is added where nothing has ever arrived from the conversation asked about. Watching a room
/// before it has said anything is no error, but it is also what a mistyped id looks like.
pub fn unseen_note(conversation: Option<&str>, count: u64, known: bool) -> (note: Option<String>)
    ensures
        note.deep_view() == (match conversation {
            Some(conversation) => if count == 0 && !known {
                Some(
                    "mekabridge: nothing has ever been recorded from "@ + conversation@
                        + ", so this will report nothing until something is"@,
                )
            } else {
                None
            },
            None => None,
        }),
{
    match conversation {
        Some(conversation) => if count == 0 && !known {
            Some(
                "mekabridge: nothing has ever been recorded from ".to_owned().concat(
                    conversation,
                ).concat(", so this will report nothing until something is"),
            )
        } else {
            None
        },
        None => None,
    }
}

/// What is printed of a recorded message: whether the agent was shown it, whether it was addressed
/// and whether the agent sent it, then when, by whom and what, and whether it still stands.
pub open spec fn history_line(record: HistoryRecord) -> Seq<char> {
    (if record.seen {
        " "@
    } else {
        "*"@
    }) + (if record.addressed {
        "@"@
    } else {
        " "@
    }) + (if record.own {
        ">"@
    } else {
        " "@
    }) + " "@ + crate::time::short_text(record.timestamp as int) + "  "@ + text::padded(
        record.sender_name@,
        20,
    ) + " "@ + text::on_one_line(record.text@) + (if record.deleted_at is Some {
        "  [deleted]"@
    } else if record.superseded_at is Some {
        "  [superseded by a later edit]"@
    } else {
        Seq::empty()
    })
}

/// What a conversation has said, line by line.
pub open spec fn history_lines(messages: Seq<HistoryRecord>) -> Seq<Seq<char>> {
    if messages.len() == 0 {
        seq!["nothing recorded"@]
    } else {
        messages.map_values(|record: HistoryRecord| history_line(record)) + seq![
            Seq::empty(),
            "* not yet shown to the agent, @ addressed to it, > sent by the agent"@,
        ]
    }
}

fn describe_record(record: &HistoryRecord) -> (line: String)
    requires
        crate::time::datable(record.timestamp as int),
    ensures
        line@ == history_line(*record),
        line@.len() > 3,
        line@[0] == (if record.seen {
            ' '
        } else {
            '*'
        }),
        line@[1] == (if record.addressed {
            '@'
        } else {
            ' '
        }),
        line@[2] == (if record.own {
            '>'
        } else {
            ' '
        }),
        line@[3] == ' ',
{
    proof {
        reveal_strlit(" ");
        reveal_strlit("*");
        reveal_strlit("@");
        reveal_strlit(">");
    }
    let seen = if record.seen {
        " "
    } else {
        "*"
    };
    let marker = if record.addressed {
        "@"
    } else {
        " "
    };
    // The bridge's own messages read as an ordinary participant otherwise.
    let side = if record.own {
        ">"
    } else {
        " "
    };
    let line = seen.to_owned().concat(marker).concat(side).concat(" ").concat(
        short_time(record.timestamp).as_str(),
    ).concat("  ").concat(text::pad(record.sender_name.as_str(), 20).as_str()).concat(" ").concat(
        text::one_line(record.text.as_str()).as_str(),
    );
    let ghost so_far = line@;
    // A retracted or rewritten message must not read as though it still stands.
    let line = if record.deleted_at.is_some() {
        line.concat("  [deleted]")
    } else if record.superseded_at.is_some() {
        line.concat("  [superseded by a later edit]")
    } else {
        line
    };
    assert(line@ =~= so_far + (if record.deleted_at is Some {
        "  [deleted]"@
    } else if record.superseded_at is Some {
        "  [superseded by a later edit]"@
    } else {
        Seq::empty()
    }));
    line
}

/// What a conversation has said, line by line.
pub fn history_show(messages: &Vec<HistoryRecord>) -> (lines: Vec<String>)
    requires
        forall|i: int|
            0 <= i < messages@.len() ==> crate::time::datable(
                (#[trigger] messages@[i]).timestamp as int,
            ),
    ensures
        lines.deep_view() == history_lines(messages@),
        messages@.len() == 0 ==> lines@.len() == 1,
        messages@.len() > 0 ==> lines@.len() == messages@.len() + 2,
        forall|i: int|
            0 <= i < messages@.len() ==> {
                &&& (#[trigger] lines@[i])@.len() > 3
                &&& lines@[i]@[0] == '*' <==> !messages@[i].seen
                &&& lines@[i]@[0] == ' ' <==> messages@[i].seen
                &&& lines@[i]@[1] == '@' <==> messages@[i].addressed
                &&& lines@[i]@[1] == ' ' <==> !messages@[i].addressed
                &&& lines@[i]@[2] == '>' <==> messages@[i].own
                &&& lines@[i]@[2] == ' ' <==> !messages@[i].own
                &&& lines@[i]@[3] == ' '
            },
{
    let mut lines: Vec<String> = Vec::new();
    assert(lines.deep_view() =~= Seq::empty());
    if messages.len() == 0 {
        text::push(&mut lines, "nothing recorded".to_owned());
        assert(lines.deep_view() =~= history_lines(messages@));
        return lines;
    }
    let ghost rows = messages@.map_values(|record: HistoryRecord| history_line(record));
    let mut i: usize = 0;
    while i < messages.len()
        invariant
            i <= messages.len(),
            forall|j: int|
                0 <= j < messages@.len() ==> crate::time::datable(
                    (#[trigger] messages@[j]).timestamp as int,
                ),
            rows == messages@.map_values(|record: HistoryRecord| history_line(record)),
            lines.deep_view() == rows.take(i as int),
        decreases messages.len() - i,
    {
        assert(crate::time::datable(messages@[i as int].timestamp as int));
        text::push(&mut lines, describe_record(&messages[i]));
        assert(lines.deep_view() =~= rows.take(i + 1));
        i += 1;
    }
    assert(rows.take(i as int) =~= rows);
    let blank = String::new();
    assert(blank@ =~= Seq::empty());
    text::push(&mut lines, blank);
    text::push(
        &mut lines,
        "* not yet shown to the agent, @ addressed to it, > sent by the agent".to_owned(),
    );
    assert(lines.deep_view() =~= history_lines(messages@));
    proof {
        assert forall|i: int| 0 <= i < messages@.len() implies (#[trigger] lines@[i])@
            == history_line(messages@[i]) by {
            assert(lines.deep_view()[i] == lines@[i]@);
            assert(history_lines(messages@)[i] == history_line(messages@[i]));
        }
        assert forall|i: int| 0 <= i < messages@.len() implies {
            let line = (#[trigger] lines@[i])@;
            &&& line.len() > 3
            &&& line[0] == '*' <==> !messages@[i].seen
            &&& line[0] == ' ' <==> messages@[i].seen
            &&& line[1] == '@' <==> messages@[i].addressed
            &&& line[1] == ' ' <==> !messages@[i].addressed
            &&& line[2] == '>' <==> messages@[i].own
            &&& line[2] == ' ' <==> !messages@[i].own
            &&& line[3] == ' '
        } by {
            reveal_strlit(" ");
            reveal_strlit("*");
            reveal_strlit("@");
            reveal_strlit(">");
            let line = lines@[i]@;
            assert(line == history_line(messages@[i]));
        }
    }
    lines
}

/// What a bound session is reported as, line by line.
pub open spec fn session_lines(
    session: Option<Seq<char>>,
    answer: core::result::Result<SessionInfo, String>,
) -> Seq<Seq<char>> {
    match session {
        None => seq!["no session is bound yet; one is created on the first message"@],
        Some(session) => seq!["session: "@ + session] + (match answer {
            Ok(info) => seq![
                "title:      "@ + info.title@,
                "permission: "@ + info.permission@,
                "cwd:        "@ + text::either(info.cwd.deep_view(), "-"@),
                "turn:       "@ + (if info.turn_in_flight {
                    "running now"@
                } else {
                    "idle"@
                }),
            ],
            Err(error) => seq!["meka:       could not read it ("@ + error@ + ")"@],
        }),
    }
}

/// What a bound session is reported as, line by line.
pub fn session_show(
    session: &Option<String>,
    answer: &core::result::Result<SessionInfo, String>,
) -> (lines: Vec<String>)
    ensures
        lines.deep_view() == session_lines(session.deep_view(), *answer),
{
    let mut lines: Vec<String> = Vec::new();
    assert(lines.deep_view() =~= Seq::empty());
    let session_id = match session {
        Some(session_id) => session_id,
        None => {
            text::push(
                &mut lines,
                "no session is bound yet; one is created on the first message".to_owned(),
            );
            assert(lines.deep_view() =~= session_lines(session.deep_view(), *answer));
            return lines;
        },
    };
    text::push(&mut lines, "session: ".to_owned().concat(session_id.as_str()));
    match answer {
        Ok(info) => {
            text::push(&mut lines, "title:      ".to_owned().concat(info.title.as_str()));
            text::push(&mut lines, "permission: ".to_owned().concat(info.permission.as_str()));
            text::push(
                &mut lines,
                "cwd:        ".to_owned().concat(text::or(&info.cwd, "-").as_str()),
            );
            let turn = if info.turn_in_flight {
                "running now"
            } else {
                "idle"
            };
            text::push(&mut lines, "turn:       ".to_owned().concat(turn));
        },
        Err(error) => {
            text::push(
                &mut lines,
                "meka:       could not read it (".to_owned().concat(error.as_str()).concat(")"),
            );
        },
    }
    assert(lines.deep_view() =~= session_lines(session.deep_view(), *answer));
    lines
}

/// Whether the session binding may be forgotten.
pub fn session_reset(confirmed: bool) -> (reset: Result<()>)
    ensures
        match reset {
            Ok(_) => confirmed,
            Err(error) => !confirmed && error.deep_view() == (BridgeErrorView::Command {
                message: "this discards the agent's memory of every conversation it has had; pass \
                          --yes to confirm"@,
            }),
        },
{
    if confirmed {
        Ok(())
    } else {
        Err(
            BridgeError::command(
                "this discards the agent's memory of every conversation it has had; pass --yes to \
                 confirm",
            ),
        )
    }
}

/// What is printed once a session binding has been forgotten.
pub fn session_reset_lines(session: &Option<String>) -> (lines: Vec<String>)
    ensures
        lines.deep_view() == (match session.deep_view() {
            Some(session) => seq![
                "unbound session "@ + session + "; the next message starts a new one"@,
                "note: the session still exists in meka. Delete it there if you want the history \
                 gone."@,
            ],
            None => seq!["no session was bound"@],
        }),
{
    let mut lines: Vec<String> = Vec::new();
    assert(lines.deep_view() =~= Seq::empty());
    match session {
        Some(session) => {
            text::push(
                &mut lines,
                "unbound session ".to_owned().concat(session.as_str()).concat(
                    "; the next message starts a new one",
                ),
            );
            text::push(
                &mut lines,
                "note: the session still exists in meka. Delete it there if you want the history \
                 gone.".to_owned(),
            );
        },
        None => {
            text::push(&mut lines, "no session was bound".to_owned());
        },
    }
    assert(lines.deep_view() =~= (match session.deep_view() {
        Some(session) => seq![
            "unbound session "@ + session + "; the next message starts a new one"@,
            "note: the session still exists in meka. Delete it there if you want the history gone."@,
        ],
        None => seq!["no session was bound"@],
    }));
    lines
}

/// What is printed once a turn has been cancelled. Cancelling succeeds whether or not a turn was in
/// flight, so there is nothing more definite to report.
pub fn cancel(session: &Option<String>) -> (line: String)
    ensures
        line@ == (match session.deep_view() {
            Some(session) => "cancellation sent for session "@ + session,
            None => "no session is bound, so no turn can be running"@,
        }),
{
    match session {
        Some(session) => "cancellation sent for session ".to_owned().concat(session.as_str()),
        None => "no session is bound, so no turn can be running".to_owned(),
    }
}

/// Whether a starter config may be written, and which directory it needs.
pub fn config_init(path: &str, present: bool, force: bool) -> (parent: Result<Option<String>>)
    ensures
        match parent {
            Ok(parent) => {
                &&& !present || force
                &&& parent.deep_view() == (match paths::path_parent(path@) {
                    Some(parent) => if parent.len() == 0 {
                        None
                    } else {
                        Some(parent)
                    },
                    None => None,
                })
            },
            Err(error) => {
                &&& present && !force
                &&& error.deep_view() == (BridgeErrorView::Command {
                    message: native::shown_path(path@) + " already exists; pass --force to overwrite it"@,
                })
            },
        },
{
    if present && !force {
        let message = native::to_shown(path).concat(" already exists; pass --force to overwrite it");
        return Err(BridgeError::command(message.as_str()));
    }
    let parent: Option<String> = match paths::parent(path) {
        Some(parent) => if text::chars_of(parent.as_str()).len() == 0 {
            None
        } else {
            Some(parent)
        },
        None => None,
    };
    Ok(parent)
}

} // verus!
