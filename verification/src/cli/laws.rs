//! What the operator is shown, stated of what the bridge holds and the lines themselves.

use vstd::prelude::*;

use crate::channel::ids::ConversationView;
use crate::channel::{ChannelError, ChatKind, ConversationInfo, Platform};
use crate::cli::commands::{self, CheckView};
use crate::cli::doctor::{self, ChannelProbe, Examination, LineView, SessionProbe, StorageProbe};
use crate::config::{ChannelConfig, Config, DefaultPolicy, McpTransport, PlatformConfig};
use crate::meka::{ProviderProfile, ReadyStatus, SessionInfo};
use crate::paths::native;
use crate::store::{
    ConversationRecord, HistoryRecord, PendingMessage, Policy, PolicyRecord, QueueStats,
};
use crate::text;
use crate::time::Instant;

verus! {

/// Whether `column` is a text filled up with spaces to a width.
pub open spec fn fills(column: Seq<char>, said: Seq<char>, width: nat) -> bool {
    &&& column.len() == (if said.len() < width {
        width
    } else {
        said.len()
    })
    &&& column.take(said.len() as int) == said
    &&& forall|i: int| said.len() <= i < column.len() ==> column[i] == ' '
}

proof fn padding_fills(said: Seq<char>, width: nat)
    ensures
        fills(text::padded(said, width), said, width),
{
    assert(text::padded(said, width).take(said.len() as int) =~= said);
}

/// Whether `row` shows a recorded message: its marks, its time, its sender in a column, its text on one
/// line, and whether it still stands.
pub open spec fn shows_record(
    row: Seq<char>,
    record: HistoryRecord,
    column: Seq<char>,
    said: Seq<char>,
    fate: Seq<char>,
) -> bool {
    &&& fills(column, record.sender_name@, 20)
    &&& said.len() == record.text@.len()
    &&& forall|i: int|
        0 <= i < said.len() ==> #[trigger] said[i] == (if record.text@[i] == '\n' {
            ' '
        } else {
            record.text@[i]
        })
    &&& row.skip(4) == crate::time::short_text(record.timestamp as int) + seq![' ', ' '] + column
        + seq![' '] + said + fate
}

/// Each recorded message has a row of its own, in order. Its first character is a star exactly where
/// the agent has not been shown it, its second an at sign exactly where it was addressed to the agent,
/// and its third an arrow exactly where the agent sent it. What was deleted or rewritten says so. A
/// legend stands under the rows.
pub proof fn a_row_marks_what_became_of_a_message(messages: Seq<HistoryRecord>, i: int)
    requires
        0 <= i < messages.len(),
    ensures
        ({
            let lines = commands::history_lines(messages);
            let row = lines[i];
            let record = messages[i];
            let column = text::padded(record.sender_name@, 20);
            let said = text::on_one_line(record.text@);
            &&& lines.len() == messages.len() + 2
            &&& lines[lines.len() - 2].len() == 0
            &&& lines[lines.len() - 1]
                == "* not yet shown to the agent, @ addressed to it, > sent by the agent"@
            &&& row.len() > 3
            &&& row[0] == '*' <==> !record.seen
            &&& row[0] == ' ' <==> record.seen
            &&& row[1] == '@' <==> record.addressed
            &&& row[1] == ' ' <==> !record.addressed
            &&& row[2] == '>' <==> record.own
            &&& row[2] == ' ' <==> !record.own
            &&& row[3] == ' '
            &&& record.deleted_at is Some ==> shows_record(
                row,
                record,
                column,
                said,
                "  [deleted]"@,
            )
            &&& record.deleted_at is None && record.superseded_at is Some ==> shows_record(
                row,
                record,
                column,
                said,
                "  [superseded by a later edit]"@,
            )
            &&& record.deleted_at is None && record.superseded_at is None ==> shows_record(
                row,
                record,
                column,
                said,
                Seq::empty(),
            )
        }),
        commands::history_lines(Seq::empty()) == seq!["nothing recorded"@],
{
    reveal_strlit(" ");
    reveal_strlit("  ");
    reveal_strlit("*");
    reveal_strlit("@");
    reveal_strlit(">");
    let record = messages[i];
    let row = commands::history_lines(messages)[i];
    assert(row == commands::history_line(record));
    padding_fills(record.sender_name@, 20);
    let column = text::padded(record.sender_name@, 20);
    let said = text::on_one_line(record.text@);
    let fate = if record.deleted_at is Some {
        "  [deleted]"@
    } else if record.superseded_at is Some {
        "  [superseded by a later edit]"@
    } else {
        Seq::empty()
    };
    assert(row.skip(4) =~= crate::time::short_text(record.timestamp as int) + seq![' ', ' '] + column
        + seq![' '] + said + fate);
}

/// How long ago something was, in the largest unit that it fills: seconds below a minute, minutes below
/// an hour, hours below a day, and days. What lies a second or more ahead is in the future.
pub proof fn an_age_is_in_its_largest_unit(at: Instant, now: Instant, n: nat)
    ensures
        now - at <= -1_000_000_000 ==> commands::age(at, now) == "in the future"@,
        -1_000_000_000 < now - at < 0 ==> commands::age(at, now) == text::decimal(0) + "s ago"@,
        n < 60 && n * 1_000_000_000 <= now - at < (n + 1) * 1_000_000_000 ==> commands::age(at, now)
            == text::decimal(n) + "s ago"@,
        1 <= n < 60 && n * 60_000_000_000 <= now - at < (n + 1) * 60_000_000_000 ==> commands::age(
            at,
            now,
        ) == text::decimal(n) + "m ago"@,
        1 <= n < 24 && n * 3_600_000_000_000 <= now - at < (n + 1) * 3_600_000_000_000
            ==> commands::age(at, now) == text::decimal(n) + "h ago"@,
        1 <= n && n * 86_400_000_000_000 <= now - at < (n + 1) * 86_400_000_000_000
            ==> commands::age(at, now) == text::decimal(n) + "d ago"@,
{
    let span = now - at;
    if span >= 0 {
        let seconds = span / 1_000_000_000;
        assert(seconds * 1_000_000_000 <= span < (seconds + 1) * 1_000_000_000);
    }
}

/// A queue is counted out: what waits, what is on its way, what was delivered and what failed.
pub proof fn a_queue_is_counted_out(stats: QueueStats)
    ensures
        commands::queue_text(stats) == text::decimal(stats.pending as nat) + " pending, "@
            + text::decimal(stats.in_flight as nat) + " in flight, "@ + text::decimal(
            stats.done as nat,
        ) + " delivered, "@ + text::decimal(stats.failed as nat) + " failed"@,
{
}

/// The name of a platform.
pub open spec fn platform_word(channel: ChannelConfig) -> Seq<char> {
    if channel.platform is Telegram {
        "telegram"@
    } else {
        "discord"@
    }
}

/// A status says where the database is, which session is bound, when the last turn was, what the queue
/// holds, how many conversations and channels there are, and which channels.
pub proof fn a_status_says_what_is_held(
    config: Config,
    session: Option<Seq<char>>,
    last_turn: Option<Instant>,
    stats: QueueStats,
    conversations: usize,
    now: Instant,
    i: int,
)
    ensures
        ({
            let lines = commands::status_lines(config, session, last_turn, stats, conversations, now);
            &&& lines.len() == 6 + config.channels@.len()
            &&& lines[0] == "database:      "@ + native::shown_path(config.storage.path@)
            &&& session matches Some(id) ==> lines[1] == "session:       "@ + id
            &&& session is None ==> lines[1] == "session:       none yet"@
            &&& last_turn matches Some(at) ==> lines[2] == "last turn:     "@
                + crate::time::moment_text(at as int) + " ("@ + commands::age(at, now) + ")"@
            &&& last_turn is None ==> lines[2] == "last turn:     never"@
            &&& lines[3] == "queue:         "@ + commands::queue_text(stats)
            &&& lines[4] == "conversations: "@ + text::decimal(conversations as nat)
            &&& lines[5] == "channels:      "@ + text::decimal(config.channels@.len())
            &&& 0 <= i < config.channels@.len() ==> lines[6 + i] == "  "@ + config.channels@[i].id@
                + " ("@ + platform_word(config.channels@[i]) + ")"@
        }),
{
}

/// Each waiting message has a row of its own: its number and its conversation in columns, how often it
/// was tried, and when it came.
pub proof fn a_queue_lists_what_waits(stats: QueueStats, pending: Seq<PendingMessage>, i: int)
    ensures
        ({
            let lines = commands::queue_lines(stats, pending);
            &&& lines[0] == commands::queue_text(stats)
            &&& pending.len() == 0 ==> lines == seq![commands::queue_text(stats), "nothing waiting"@]
            &&& pending.len() > 0 ==> lines.len() == pending.len() + 2 && lines[1].len() == 0
            &&& 0 <= i < pending.len() ==> {
                let number = text::padded(text::signed_decimal(pending[i].seq as int), 6);
                let column = text::padded(pending[i].conversation_id@, 28);
                &&& fills(number, text::signed_decimal(pending[i].seq as int), 6)
                &&& fills(column, pending[i].conversation_id@, 28)
                &&& lines[i + 2] == "  #"@ + number + " "@ + column + " attempts "@ + text::decimal(
                    pending[i].attempts as nat,
                ) + "  received "@ + crate::time::moment_text(pending[i].received_at as int)
            }
        }),
{
    if 0 <= i < pending.len() {
        padding_fills(text::signed_decimal(pending[i].seq as int), 6);
        padding_fills(pending[i].conversation_id@, 28);
    }
}

/// Each known conversation has a row of its own: its id, its shape and its title in columns, and when
/// something last came from it.
pub proof fn conversations_are_listed(conversations: Seq<ConversationRecord>, i: int)
    ensures
        conversations.len() == 0 ==> commands::conversation_lines(conversations) == seq![
            "no conversations yet"@,
        ],
        conversations.len() > 0 ==> commands::conversation_lines(conversations).len()
            == conversations.len(),
        0 <= i < conversations.len() ==> {
            let known = conversations[i];
            let id = text::padded(known.id@, 28);
            let kind = text::padded(known.kind@, 8);
            let shown = match known.title {
                Some(title) => title@,
                None => "-"@,
            };
            let title = text::padded(shown, 20);
            let row = commands::conversation_lines(conversations)[i];
            let start = "  "@ + id + " "@ + kind + " "@ + title + " last inbound "@;
            &&& fills(id, known.id@, 28) && fills(kind, known.kind@, 8) && fills(title, shown, 20)
            &&& known.last_inbound_at matches Some(at) ==> row == start + crate::time::moment_text(
                at as int,
            )
            &&& known.last_inbound_at is None ==> row == start + "never"@
        },
{
    if 0 <= i < conversations.len() {
        padding_fills(conversations[i].id@, 28);
        padding_fills(conversations[i].kind@, 8);
        padding_fills(
            match conversations[i].title {
                Some(title) => title@,
                None => "-"@,
            },
            20,
        );
    }
}

/// The word for a policy.
pub open spec fn policy_word(policy: Policy) -> Seq<char> {
    if policy == Policy::Active {
        "active"@
    } else if policy == Policy::Mute {
        "mute"@
    } else {
        "block"@
    }
}

/// The configured defaults are named for each shape of chat.
pub proof fn defaults_are_named(policy: DefaultPolicy)
    ensures
        commands::default_text(policy) == "direct "@ + policy_word(policy.direct) + ", group "@
            + policy_word(policy.group) + ", channel "@ + policy_word(policy.channel),
{
}

/// The count that a list gives for a conversation is that of its first entry, and none where it has
/// no entry.
pub proof fn a_count_is_that_of_its_entry(counts: Seq<(String, u64)>, id: Seq<char>, i: int)
    ensures
        (forall|j: int| 0 <= j < counts.len() ==> (#[trigger] counts[j]).0@ != id)
            ==> commands::count_of(counts, id) == 0,
        0 <= i < counts.len() && counts[i].0@ == id && (forall|j: int|
            0 <= j < i ==> (#[trigger] counts[j]).0@ != id) ==> commands::count_of(counts, id)
            == counts[i].1,
    decreases counts.len(),
{
    if counts.len() > 0 {
        let rest = counts.skip(1);
        if forall|j: int| 0 <= j < counts.len() ==> (#[trigger] counts[j]).0@ != id {
            assert forall|j: int| 0 <= j < rest.len() implies (#[trigger] rest[j]).0@ != id by {
                assert(counts[j + 1].0@ != id);
            }
            assert(counts[0].0@ != id);
            a_count_is_that_of_its_entry(rest, id, -1);
        } else if 0 < i < counts.len() && counts[i].0@ == id && (forall|j: int|
            0 <= j < i ==> (#[trigger] counts[j]).0@ != id) {
            assert forall|j: int| 0 <= j < i - 1 implies (#[trigger] rest[j]).0@ != id by {
                assert(counts[j + 1].0@ != id);
            }
            assert(counts[0].0@ != id);
            a_count_is_that_of_its_entry(rest, id, i - 1);
        }
    }
}

/// Each policy has a row of its own: the conversation, the policy, how long it holds, what it kept from
/// the agent, and why. What a block threw away and what a mute held back are told apart, and so is a
/// policy that has run out.
pub proof fn a_policy_says_what_it_keeps_back(
    default: DefaultPolicy,
    policies: Seq<PolicyRecord>,
    unseen: Seq<(String, u64)>,
    now: Instant,
    i: int,
)
    ensures
        ({
            let lines = commands::policy_lines(default, policies, unseen, now);
            &&& lines[0] == "default: "@ + commands::default_text(default)
            &&& policies.len() == 0 ==> lines.len() == 2 && lines[1]
                == "no conversation has a policy of its own"@
            &&& policies.len() > 0 ==> lines.len() == policies.len() + 1
            &&& 0 <= i < policies.len() ==> {
                let record = policies[i];
                let id = text::padded(record.conversation_id@, 28);
                let word = text::padded(policy_word(record.policy), 8);
                let said = match record.until {
                    None => "indefinite"@,
                    Some(until) => (if until > now {
                        "until "@
                    } else {
                        "expired "@
                    }) + crate::time::short_text(until as int),
                };
                let term = text::padded(said, 34);
                let kept = if record.policy == Policy::Block {
                    text::decimal(record.dropped as nat) + " discarded"@
                } else if record.policy == Policy::Mute {
                    text::decimal(commands::count_of(unseen, record.conversation_id@) as nat)
                        + " unseen"@
                } else {
                    "-"@
                };
                let tally = text::padded(kept, 14);
                let why = match record.reason {
                    Some(reason) => reason@,
                    None => "-"@,
                };
                &&& fills(id, record.conversation_id@, 28)
                &&& fills(word, policy_word(record.policy), 8)
                &&& fills(term, said, 34)
                &&& fills(tally, kept, 14)
                &&& lines[i + 1] == "  "@ + id + " "@ + word + " "@ + term + " "@ + tally + " "@
                    + why
            }
        }),
{
    if 0 <= i < policies.len() {
        let record = policies[i];
        padding_fills(record.conversation_id@, 28);
        padding_fills(policy_word(record.policy), 8);
        padding_fills(commands::policy_term(record.until, now), 34);
        padding_fills(commands::withheld(record, unseen), 14);
    }
}

/// A bound session is reported with its title, its level, its directory and whether a turn runs, or
/// with why it could not be read.
pub proof fn a_session_is_reported(
    session: Option<Seq<char>>,
    answer: core::result::Result<SessionInfo, String>,
)
    ensures
        ({
            let lines = commands::session_lines(session, answer);
            &&& session is None ==> lines == seq![
                "no session is bound yet; one is created on the first message"@,
            ]
            &&& session matches Some(id) ==> {
                &&& lines[0] == "session: "@ + id
                &&& answer matches Ok(info) ==> {
                    &&& lines.len() == 5
                    &&& lines[1] == "title:      "@ + info.title@
                    &&& lines[2] == "permission: "@ + info.permission@
                    &&& info.cwd matches Some(cwd) ==> lines[3] == "cwd:        "@ + cwd@
                    &&& info.cwd is None ==> lines[3] == "cwd:        "@ + "-"@
                    &&& info.turn_in_flight ==> lines[4] == "turn:       "@ + "running now"@
                    &&& !info.turn_in_flight ==> lines[4] == "turn:       "@ + "idle"@
                }
                &&& answer matches Err(error) ==> lines.len() == 2 && lines[1]
                    == "meka:       could not read it ("@ + error@ + ")"@
            }
        }),
{
}

/// The levels that let the agent answer are the three that do, and each other has a problem that names
/// what is wrong with it.
pub proof fn only_a_level_that_replies_is_fine(level: Seq<char>)
    ensures
        commands::level_problem(level) is None <==> level == "read"@ || level == "workspace"@ || level
            == "unrestricted"@,
        commands::level_problem("ask"@) matches Some(problem) && text::begins(
            problem,
            "meka prompts for every tool call at `ask`"@,
        ),
        commands::level_problem("write"@) matches Some(problem) && text::begins(
            problem,
            "meka 0.42 retired `write`"@,
        ),
        commands::level_problem("none"@) matches Some(problem) && text::begins(
            problem,
            "no tools are executable at this level"@,
        ),
{
    reveal_strlit("read");
    reveal_strlit("workspace");
    reveal_strlit("unrestricted");
    reveal_strlit("ask");
    reveal_strlit("write");
    reveal_strlit("none");
    reveal_strlit("meka prompts for every tool call at `ask`");
    reveal_strlit("meka 0.42 retired `write`");
    reveal_strlit("no tools are executable at this level");
    let asked =
        "meka prompts for every tool call at `ask`, including read-only ones, and this bridge cannot \
         answer a prompt, so each is denied at once. That includes send_message, so the agent can \
         never reply. Use \"read\", \"workspace\" or \"unrestricted\"."@;
    let wrote =
        "meka 0.42 retired `write` and split it into `workspace` and `unrestricted`, so a session \
         cannot be created at this level at all. Use \"read\" to answer messages, or \
         \"unrestricted\" to also moderate."@;
    let other =
        "no tools are executable at this level, so the agent cannot reply. Use \"read\" to let it \
         answer messages."@;
    reveal_strlit(
        "meka prompts for every tool call at `ask`, including read-only ones, and this bridge cannot \
         answer a prompt, so each is denied at once. That includes send_message, so the agent can \
         never reply. Use \"read\", \"workspace\" or \"unrestricted\".",
    );
    reveal_strlit(
        "meka 0.42 retired `write` and split it into `workspace` and `unrestricted`, so a session \
         cannot be created at this level at all. Use \"read\" to answer messages, or \
         \"unrestricted\" to also moderate.",
    );
    reveal_strlit(
        "no tools are executable at this level, so the agent cannot reply. Use \"read\" to let it \
         answer messages.",
    );
    assert("ask"@[0] == 'a' && "write"@[0] == 'w' && "none"@[0] == 'n');
    assert("read"@[0] == 'r' && "workspace"@[0] == 'w' && "unrestricted"@[0] == 'u');
    assert("write"@.len() != "workspace"@.len());
    assert(asked.take(41) =~= "meka prompts for every tool call at `ask`"@);
    assert(wrote.take(25) =~= "meka 0.42 retired `write`"@);
    assert(other.take(37) =~= "no tools are executable at this level"@);
}

/// meka refuses a level exactly where it lists levels and not that one, and the refusal names the
/// level and those it lists.
pub proof fn a_level_is_refused_where_it_is_not_listed(level: Seq<char>, enabled: Seq<Seq<char>>)
    ensures
        commands::level_refused(level, enabled) is Some <==> enabled.len() > 0 && !enabled.contains(
            level,
        ),
        commands::level_refused(level, enabled) matches Some(refusal) ==> text::contains(
            refusal,
            text::debug_quoted(level),
        ) && text::contains(refusal, text::joined(enabled, ", "@)),
{
    if let Some(refusal) = commands::level_refused(level, enabled) {
        let start = "meka will not create a session at "@;
        let named = text::debug_quoted(level);
        let middle = "; it enables "@;
        let list = text::joined(enabled, ", "@);
        let a = start.len() as int;
        let b = (start.len() + named.len() + middle.len()) as int;
        assert(refusal.subrange(a, a + named.len()) =~= named);
        assert(text::stands_at(refusal, named, a));
        assert(refusal.subrange(b, b + list.len()) =~= list);
        assert(text::stands_at(refusal, list, b));
    }
}

/// The moderation tools are out of reach exactly where a channel offers them and the level is below
/// unrestricted.
pub proof fn moderation_needs_the_highest_level(level: Seq<char>, admin_tools: bool)
    ensures
        commands::moderation_out_of_reach(level, admin_tools) is Some <==> admin_tools && level
            != "unrestricted"@,
        commands::moderation_out_of_reach(level, admin_tools) matches Some(reach) ==> text::contains(
            reach,
            text::debug_quoted(level),
        ),
{
    if let Some(reach) = commands::moderation_out_of_reach(level, admin_tools) {
        let start = "the moderation tools are registered but do not run at "@;
        let named = text::debug_quoted(level);
        let a = start.len() as int;
        assert(reach.subrange(a, a + named.len()) =~= named);
        assert(text::stands_at(reach, named, a));
    }
}

/// A conversation for notices is asked about exactly where it is an id, its channel is configured and
/// that channel is logged in; then on the platform of that channel.
pub proof fn an_owner_is_asked_about_where_somebody_can_answer(
    owner: Seq<char>,
    channels: Seq<(Seq<char>, Platform)>,
    authenticated: Seq<Seq<char>>,
    i: int,
)
    ensures
        ({
            let asked = commands::owner_asked(owner, channels, authenticated);
            let named = crate::channel::ids::conversation_named(owner);
            &&& asked is Some <==> (named matches Some(conversation) && authenticated.contains(
                conversation.channel,
            ) && exists|j: int|
                0 <= j < channels.len() && (#[trigger] channels[j]).0 == conversation.channel)
            &&& asked matches Some(question) ==> named == Some(question.0)
            &&& asked is Some && 0 <= i < channels.len() && channels[i].0 == named->0.channel && (
            forall|j: int| 0 <= j < i ==> (#[trigger] channels[j]).0 != named->0.channel) ==> asked
                == Some((named->0, channels[i].1))
        }),
{
    if let Some(conversation) = crate::channel::ids::conversation_named(owner) {
        a_platform_is_that_of_its_channel(channels, conversation.channel, i);
    }
}

proof fn a_platform_is_that_of_its_channel(
    channels: Seq<(Seq<char>, Platform)>,
    id: Seq<char>,
    i: int,
)
    ensures
        commands::platform_of(channels, id) is Some <==> exists|j: int|
            0 <= j < channels.len() && (#[trigger] channels[j]).0 == id,
        0 <= i < channels.len() && channels[i].0 == id && (forall|j: int|
            0 <= j < i ==> (#[trigger] channels[j]).0 != id) ==> commands::platform_of(channels, id)
            == Some(channels[i].1),
    decreases channels.len(),
{
    if channels.len() > 0 {
        let rest = channels.skip(1);
        let chosen = 0 < i < channels.len() && channels[i].0 == id && (forall|j: int|
            0 <= j < i ==> (#[trigger] channels[j]).0 != id);
        if chosen {
            assert forall|j: int| 0 <= j < i - 1 implies (#[trigger] rest[j]).0 != id by {
                assert(channels[j + 1].0 != id);
            }
            assert(channels[0].0 != id);
            a_platform_is_that_of_its_channel(rest, id, i - 1);
        } else {
            a_platform_is_that_of_its_channel(rest, id, -1);
        }
        if exists|j: int| 0 <= j < rest.len() && (#[trigger] rest[j]).0 == id {
            let j = choose|j: int| 0 <= j < rest.len() && (#[trigger] rest[j]).0 == id;
            assert(channels[j + 1].0 == id);
        }
        if exists|j: int| 0 <= j < channels.len() && (#[trigger] channels[j]).0 == id {
            let j = choose|j: int| 0 <= j < channels.len() && (#[trigger] channels[j]).0 == id;
            if j > 0 {
                assert(rest[j - 1].0 == id);
            }
        }
    }
}

/// A conversation for notices that is reached passes, with the shape of its chat and its final id where
/// that differs. One that cannot be looked up passes on trust. One that cannot be reached warns, with
/// the reason, and never fails.
pub proof fn an_unreachable_owner_is_a_warning(
    owner: Seq<char>,
    conversation: ConversationView,
    platform: Platform,
    answer: core::result::Result<ConversationInfo, ChannelError>,
)
    ensures
        ({
            let check = commands::owner_check(owner, conversation, platform, answer);
            &&& check is Warn <==> (answer matches Err(error) && !(error is Unsupported))
            &&& check is Pass <==> answer is Ok || (answer matches Err(error) && error
                is Unsupported)
            &&& !(check is Fail)
            &&& answer matches Err(error) ==> (!(error is Unsupported) ==> (
            check matches CheckView::Warn(line) && text::contains(
                line,
                crate::channel::channel_reported(error.deep_view()),
            ) && text::contains(line, text::debug_quoted(owner))))
            &&& answer matches Ok(info) ==> (check matches CheckView::Pass(line) && {
                let word = if info.kind == ChatKind::Direct {
                    "direct"@
                } else if info.kind == ChatKind::Group {
                    "group"@
                } else if info.kind == ChatKind::Channel {
                    "channel"@
                } else {
                    "unknown"@
                };
                let shown = match info.title {
                    Some(title) => " ("@ + title@ + ")"@,
                    None => Seq::empty(),
                };
                let id = crate::channel::ids::conversation_text(info.id@);
                let start = "[bridge].owner_conversation reaches a "@ + word + " chat"@ + shown;
                &&& id == owner ==> line == start
                &&& id != owner ==> line == start + (", which is "@ + id)
            })
        }),
{
    let check = commands::owner_check(owner, conversation, platform, answer);
    match answer {
        Ok(info) => {
            let shown = match info.title {
                Some(title) => " ("@ + title@ + ")"@,
                None => Seq::empty(),
            };
            let start = "[bridge].owner_conversation reaches a "@ + crate::channel::kind_name(
                info.kind,
            ) + " chat"@ + shown;
            assert(start + Seq::empty() =~= start);
        },
        Err(ChannelError::Unsupported { .. }) => {},
        Err(error) => {
            if let CheckView::Warn(line) = check {
                let first = "[bridge].owner_conversation "@;
                let named = text::debug_quoted(owner);
                let middle = " cannot be reached, so an operator notice goes nowhere: "@;
                let reason = crate::channel::channel_reported(error.deep_view());
                let a = first.len() as int;
                let b = (first.len() + named.len() + middle.len()) as int;
                assert(line.subrange(a, a + named.len()) =~= named);
                assert(text::stands_at(line, named, a));
                assert(line.subrange(b, b + reason.len()) =~= reason);
                assert(text::stands_at(line, reason, b));
            }
        },
    }
}

/// An unreachable conversation on Discord says how to name a person, exactly where none was named.
pub proof fn a_person_on_discord_is_named_by_an_at_sign(
    owner: Seq<char>,
    conversation: ConversationView,
    platform: Platform,
    error: ChannelError,
)
    requires
        !(error is Unsupported),
    ensures
        ({
            let answer = Err::<ConversationInfo, ChannelError>(error);
            let reason = crate::channel::channel_reported(error.deep_view());
            let line = "[bridge].owner_conversation "@ + text::debug_quoted(owner)
                + " cannot be reached, so an operator notice goes nowhere: "@ + reason;
            let advised = platform == Platform::Discord && !(conversation.chat.len() > 0
                && conversation.chat[0] == '@');
            &&& !advised ==> commands::owner_check(owner, conversation, platform, answer)
                == CheckView::Warn(line)
            &&& advised ==> (commands::owner_check(
                owner,
                conversation,
                platform,
                answer,
            ) matches CheckView::Warn(said) && said.len() > line.len() && text::begins(said, line))
        }),
{
    reveal_strlit("@");
    reveal_strlit(
        ". A Discord user id and a channel id look alike, and only a channel id can be posted to. To \
         reach a person, dial them as `discord:@<user id>` and the bridge opens the direct message \
         itself",
    );
    let chat = conversation.chat;
    assert("@"@ =~= seq!['@']);
    if chat.len() > 0 {
        assert(chat.take(1) =~= seq![chat[0]]);
        if chat[0] != '@' {
            assert(chat.take(1)[0] != "@"@[0]);
        }
    }
    let reason = crate::channel::channel_reported(error.deep_view());
    let line = "[bridge].owner_conversation "@ + text::debug_quoted(owner)
        + " cannot be reached, so an operator notice goes nowhere: "@ + reason;
    let advice =
        ". A Discord user id and a channel id look alike, and only a channel id can be posted to. To \
         reach a person, dial them as `discord:@<user id>` and the bridge opens the direct message \
         itself"@;
    assert((line + advice).take(line.len() as int) =~= line);
}

/// What a bot asks Discord for is noted, the privileged intent exactly where it asks for it.
pub proof fn the_privileged_intent_is_noted_where_it_is_asked_for(id: Seq<char>, content: bool)
    ensures
        ({
            let asked = id
                + " asks Discord for the GUILDS, GUILD_MESSAGES and DIRECT_MESSAGES intents"@;
            let privileged = asked + ", plus the privileged MESSAGE_CONTENT intent"@;
            let rest =
                ". A privileged intent that is not enabled on the Bot page of the Developer Portal \
                 closes the gateway with a 4014 at startup, which this check cannot see."@;
            &&& content ==> doctor::intents_line(id, content) == LineView::Note(privileged + rest)
            &&& !content ==> doctor::intents_line(id, content) == LineView::Note(asked + rest)
        }),
{
    let asked = id + " asks Discord for the GUILDS, GUILD_MESSAGES and DIRECT_MESSAGES intents"@;
    assert(asked + Seq::empty() =~= asked);
}

/// A channel is configured exactly where a configured one has its id.
pub proof fn a_channel_is_configured_by_its_id(channels: Seq<ChannelConfig>, id: Seq<char>, i: int)
    ensures
        0 <= i < channels.len() && channels[i].id@ == id ==> commands::is_configured(channels, id),
        commands::is_configured(channels, id) ==> channels.len() > 0,
        (forall|j: int| 0 <= j < channels.len() ==> (#[trigger] channels[j]).id@ != id)
            ==> !commands::is_configured(channels, id),
{
}

/// A configured level is logged as it is, and asking for more logs more: once for the bridge's own
/// details, twice or more for everything.
pub proof fn asking_for_more_logs_more(level: Seq<char>, verbose: u8)
    ensures
        crate::cli::directive_of(level, 0) == level,
        crate::cli::directive_of(level, 1) == "mekabridge=debug,info"@,
        verbose >= 2 ==> crate::cli::directive_of(level, verbose) == "mekabridge=trace,debug"@,
{
}

/// A line is printed with its verdict in front, and a heading as it is.
pub proof fn a_line_shows_its_verdict(said: Seq<char>)
    ensures
        doctor::printed(LineView::Heading(said)) == said,
        doctor::printed(LineView::Check(CheckView::Pass(said))) == "  ok     "@ + said,
        doctor::printed(LineView::Check(CheckView::Warn(said))) == "  warn   "@ + said,
        doctor::printed(LineView::Check(CheckView::Fail(said))) == "  fail   "@ + said,
        doctor::printed(LineView::Note(said)) == "  note   "@ + said,
{
}

/// How many lines of a report are failures.
pub open spec fn failing(lines: Seq<LineView>) -> nat
    decreases lines.len(),
{
    if lines.len() == 0 {
        0
    } else if lines[0] matches LineView::Check(CheckView::Fail(_)) {
        1 + failing(lines.skip(1))
    } else {
        failing(lines.skip(1))
    }
}

/// How many lines of a report are warnings.
pub open spec fn warning(lines: Seq<LineView>) -> nat
    decreases lines.len(),
{
    if lines.len() == 0 {
        0
    } else if lines[0] matches LineView::Check(CheckView::Warn(_)) {
        1 + warning(lines.skip(1))
    } else {
        warning(lines.skip(1))
    }
}

proof fn counts_add_up(left: Seq<LineView>, right: Seq<LineView>)
    ensures
        failing(left + right) == failing(left) + failing(right),
        warning(left + right) == warning(left) + warning(right),
    decreases left.len(),
{
    if left.len() == 0 {
        assert(left + right =~= right);
    } else {
        assert((left + right).skip(1) =~= left.skip(1) + right);
        assert((left + right)[0] == left[0]);
        counts_add_up(left.skip(1), right);
    }
}

proof fn one_line_counts_once(line: LineView)
    ensures
        failing(seq![line]) == (if line matches LineView::Check(CheckView::Fail(_)) {
            1nat
        } else {
            0
        }),
        warning(seq![line]) == (if line matches LineView::Check(CheckView::Warn(_)) {
            1nat
        } else {
            0
        }),
{
    assert(seq![line].skip(1) =~= Seq::empty());
    assert(failing(Seq::<LineView>::empty()) == 0);
    assert(warning(Seq::<LineView>::empty()) == 0);
}

proof fn a_line_counts_where_it_is_wanted(on: bool, line: LineView)
    ensures
        doctor::line_if(on, line).len() == (if on {
            1nat
        } else {
            0
        }),
        failing(doctor::line_if(on, line)) == (if on && (line matches LineView::Check(
            CheckView::Fail(_),
        )) {
            1nat
        } else {
            0
        }),
        warning(doctor::line_if(on, line)) == (if on && (line matches LineView::Check(
            CheckView::Warn(_),
        )) {
            1nat
        } else {
            0
        }),
{
    one_line_counts_once(line);
}

/// What a report is concluded by counts every failing line and every warning line once.
pub proof fn every_verdict_counts_once(lines: Seq<LineView>)
    ensures
        commands::failures(doctor::checks_of(lines)) == failing(lines),
        commands::warnings(doctor::checks_of(lines)) == warning(lines),
    decreases lines.len(),
{
    if lines.len() > 0 {
        let before = lines.drop_last();
        let last = lines.last();
        every_verdict_counts_once(before);
        counts_add_up(before, seq![last]);
        one_line_counts_once(last);
        assert(before + seq![last] =~= lines);
        if let LineView::Check(check) = last {
            let checks = doctor::checks_of(before);
            assert(checks.push(check).drop_last() =~= checks);
            assert(checks.push(check).last() == check);
        }
    } else {
        assert(doctor::checks_of(lines).len() == 0);
    }
}

/// Whether a line passes, warns or fails with a text in it.
pub open spec fn passes(line: LineView, part: Seq<char>) -> bool {
    line matches LineView::Check(CheckView::Pass(said)) && text::contains(said, part)
}

/// Whether a line warns with a text in it.
pub open spec fn warns(line: LineView, part: Seq<char>) -> bool {
    line matches LineView::Check(CheckView::Warn(said)) && text::contains(said, part)
}

/// Whether a line fails with a text in it.
pub open spec fn fails(line: LineView, part: Seq<char>) -> bool {
    line matches LineView::Check(CheckView::Fail(said)) && text::contains(said, part)
}

proof fn a_part_is_contained(before: Seq<char>, part: Seq<char>, after: Seq<char>)
    ensures
        text::contains(before + part + after, part),
        text::contains(before + part, part),
        text::contains(part + after, part),
        text::contains(part, part),
{
    let whole = before + part + after;
    assert(whole.subrange(before.len() as int, (before.len() + part.len()) as int) =~= part);
    assert(text::stands_at(whole, part, before.len() as int));
    let end = before + part;
    assert(end.subrange(before.len() as int, end.len() as int) =~= part);
    assert(text::stands_at(end, part, before.len() as int));
    let start = part + after;
    assert(start.subrange(0, part.len() as int) =~= part);
    assert(text::stands_at(start, part, 0));
    assert(part.subrange(0, part.len() as int) =~= part);
    assert(text::stands_at(part, part, 0));
}

/// What waits is counted out, and a queue that cannot be read fails.
pub proof fn a_queue_that_cannot_be_read_fails(stats: Result<QueueStats, String>)
    ensures
        stats matches Err(error) ==> fails(doctor::stats_line(stats), error@),
        stats matches Ok(stats) ==> doctor::stats_line(Ok(stats)) == LineView::Check(
            CheckView::Pass(
                "queue: "@ + text::decimal(stats.pending as nat) + " pending, "@ + text::decimal(
                    stats.in_flight as nat,
                ) + " in flight, "@ + text::decimal(stats.failed as nat) + " failed"@,
            ),
        ),
{
    if let Err(error) = stats {
        a_part_is_contained("could not read queue stats: "@, error@, Seq::empty());
    }
}

/// The conversations with a policy of their own are counted, and policies that cannot be read fail.
pub proof fn policies_that_cannot_be_read_fail(policies: Result<usize, String>)
    ensures
        policies matches Err(error) ==> fails(doctor::overrides_line(policies), error@),
        policies matches Ok(count) ==> (count == 0 ==> doctor::overrides_line(policies)
            == LineView::Check(CheckView::Pass("no conversation overrides the default"@))) && (count
            > 0 ==> passes(doctor::overrides_line(policies), text::decimal(count as nat))),
{
    match policies {
        Err(error) => a_part_is_contained(
            "could not read conversation policies: "@,
            error@,
            Seq::empty(),
        ),
        Ok(count) => a_part_is_contained(
            Seq::empty(),
            text::decimal(count as nat),
            " conversation(s) have a policy of their own; `mekabridge policy list` shows them"@,
        ),
    }
}

/// A history that is off is a warning, whatever else is found. One that is on is counted, and one that
/// cannot be read fails.
pub proof fn a_history_that_is_off_is_a_warning(config: Config, messages: Result<u64, String>)
    ensures
        ({
            let off = config.storage.history_retention.whole() == 0
                && config.storage.history_retention.beyond() == 0;
            let line = doctor::recorded_line(config, messages);
            &&& off ==> (line matches LineView::Check(CheckView::Warn(_)))
            &&& !off ==> (messages matches Err(error) ==> fails(line, error@))
            &&& !off ==> (messages matches Ok(count) ==> passes(line, text::decimal(count as nat)))
        }),
{
    match messages {
        Err(error) => a_part_is_contained(
            "could not read the message history: "@,
            error@,
            Seq::empty(),
        ),
        Ok(count) => {
            let span = crate::time::human_duration(
                config.storage.history_retention.whole(),
                config.storage.history_retention.beyond(),
            );
            let kept = " message(s) recorded, kept for "@;
            a_part_is_contained("history: "@, text::decimal(count as nat), kept + span);
            assert("history: "@ + text::decimal(count as nat) + (kept + span) =~= "history: "@
                + text::decimal(count as nat) + kept + span);
        },
    }
}

/// The section on the database: it fails with the error where the database cannot be opened, and
/// otherwise says where it is and what was found of its queue, its policies and its history.
pub proof fn the_database_section_fails_where_it_cannot_be_opened(
    config: Config,
    storage: Result<StorageProbe, String>,
)
    ensures
        ({
            let lines = doctor::storage_lines(config, storage);
            &&& lines[0] == LineView::Heading("storage"@)
            &&& storage matches Err(error) ==> lines.len() == 2 && lines[1] == LineView::Check(
                CheckView::Fail(error@),
            )
            &&& storage matches Ok(probe) ==> {
                &&& lines.len() == 5
                &&& lines[1] == LineView::Check(
                    CheckView::Pass("database at "@ + native::shown_path(config.storage.path@)),
                )
                &&& lines[2] == doctor::stats_line(probe.stats)
                &&& lines[3] == doctor::overrides_line(probe.policies)
                &&& lines[4] == doctor::recorded_line(config, probe.messages)
            }
        }),
{
}

/// The section on meka: unreachable, it fails with the error; reachable, it says its version. No active
/// profile is a failure, and the first active one is named. Vision that is off is a warning.
pub proof fn the_meka_section_fails_where_no_turn_could_run(
    config: Config,
    meka: Result<doctor::MekaProbe, String>,
    ready: Result<ReadyStatus, String>,
)
    ensures
        ({
            let lines = doctor::meka_lines(config, meka, ready);
            &&& lines[0] == LineView::Heading("meka at "@ + config.meka.base_url@)
            &&& meka matches Err(error) ==> fails(lines[1], error@)
            &&& meka matches Ok(probe) ==> {
                &&& passes(lines[1], probe.info.version@)
                &&& probe.providers matches Err(error) ==> warns(lines[2], error@)
                &&& probe.providers matches Ok(profiles) ==> {
                    let active = exists|i: int|
                        0 <= i < profiles@.len() && (#[trigger] profiles@[i]).active;
                    &&& active ==> (lines[2] matches LineView::Check(CheckView::Pass(_)))
                    &&& !active ==> fails(lines[2], "meka has no default provider profile"@)
                }
                &&& probe.info.vision ==> passes(lines[3], "vision is on"@)
                &&& !probe.info.vision ==> warns(lines[3], "the active profile has vision off"@)
            }
            &&& ready matches Err(error) ==> warns(lines[lines.len() - 1], error@)
        }),
{
    let nothing = Seq::<char>::empty();
    match meka {
        Err(error) => a_part_is_contained(nothing, error@, nothing),
        Ok(probe) => {
            a_part_is_contained("reachable, version "@, probe.info.version@, nothing);
            match probe.providers {
                Err(error) => a_part_is_contained(
                    "could not read the provider profiles: "@,
                    error@,
                    nothing,
                ),
                Ok(profiles) => {
                    an_active_profile_is_found(profiles@, -1);
                },
            }
            reveal_strlit("meka has no default provider profile");
            reveal_strlit("vision is on");
            reveal_strlit("the active profile has vision off");
            reveal_strlit(
                "meka has no default provider profile, so creating the bridge's session will fail; \
                 run `meka provider use <name>`",
            );
            reveal_strlit("vision is on, so view_attachment hands the agent the picture itself");
            reveal_strlit(
                "the active profile has vision off, so view_attachment returns a description rather \
                 than the image and the agent can only reach a file through download_attachment. \
                 Set `vision = true` under [providers.<name>].",
            );
            let a =
                "meka has no default provider profile, so creating the bridge's session will fail; \
                 run `meka provider use <name>`"@;
            let b = "vision is on, so view_attachment hands the agent the picture itself"@;
            let c =
                "the active profile has vision off, so view_attachment returns a description rather \
                 than the image and the agent can only reach a file through download_attachment. \
                 Set `vision = true` under [providers.<name>]."@;
            assert(a.subrange(0, 36) =~= "meka has no default provider profile"@);
            assert(text::stands_at(a, "meka has no default provider profile"@, 0));
            assert(b.subrange(0, 12) =~= "vision is on"@);
            assert(text::stands_at(b, "vision is on"@, 0));
            assert(c.subrange(0, 33) =~= "the active profile has vision off"@);
            assert(text::stands_at(c, "the active profile has vision off"@, 0));
        },
    }
    if let Err(error) = ready {
        a_part_is_contained("readiness probe failed: "@, error@, nothing);
    }
}

/// The profile that sessions run on is the first active one, and it is named with its backend and its
/// model.
pub proof fn an_active_profile_is_found(profiles: Seq<ProviderProfile>, i: int)
    ensures
        doctor::active_profile(profiles) is Some <==> exists|j: int|
            0 <= j < profiles.len() && (#[trigger] profiles[j]).active,
        0 <= i < profiles.len() && profiles[i].active && (forall|j: int|
            0 <= j < i ==> !(#[trigger] profiles[j]).active) ==> doctor::active_profile(profiles)
            == Some(profiles[i]),
    decreases profiles.len(),
{
    if profiles.len() > 0 {
        let rest = profiles.skip(1);
        if 0 < i < profiles.len() && profiles[i].active && (forall|j: int|
            0 <= j < i ==> !(#[trigger] profiles[j]).active) {
            assert forall|j: int| 0 <= j < i - 1 implies !(#[trigger] rest[j]).active by {
                assert(!profiles[j + 1].active);
            }
            assert(!profiles[0].active);
            an_active_profile_is_found(rest, i - 1);
        } else {
            an_active_profile_is_found(rest, -1);
        }
        if exists|j: int| 0 <= j < rest.len() && (#[trigger] rest[j]).active {
            let j = choose|j: int| 0 <= j < rest.len() && (#[trigger] rest[j]).active;
            assert(profiles[j + 1].active);
        }
        if exists|j: int| 0 <= j < profiles.len() && (#[trigger] profiles[j]).active {
            let j = choose|j: int| 0 <= j < profiles.len() && (#[trigger] profiles[j]).active;
            if j > 0 {
                assert(rest[j - 1].active);
            }
        }
    }
}

/// The profile that is named is the active one.
pub proof fn the_active_profile_is_named(profiles: Vec<ProviderProfile>, profile: ProviderProfile)
    requires
        doctor::active_profile(profiles@) == Some(profile),
    ensures
        doctor::provider_line(Ok(profiles)) == LineView::Check(
            CheckView::Pass(
                "sessions run on profile "@ + profile.name@ + " ("@ + profile.backend@
                    + "), model "@ + (match profile.model {
                    Some(model) => model@,
                    None => "(none configured)"@,
                }),
            ),
        ),
{
}

/// The section on the session: a session at a level that cannot reply fails, a lost one warns, and a
/// turn that runs is said. A configured level that cannot reply fails, and so does one that meka does
/// not list.
pub proof fn the_session_section_fails_where_nobody_could_reply(
    config: Config,
    session: SessionProbe,
    enabled: Seq<Seq<char>>,
)
    ensures
        ({
            let bound = doctor::bound_lines(session);
            match session {
                SessionProbe::Unbound => bound.len() == 1 && (
                bound[0] matches LineView::Check(CheckView::Pass(_))),
                SessionProbe::Found { id, info } => {
                    let stuck = !(info.permission@ == "read"@ || info.permission@ == "workspace"@
                        || info.permission@ == "unrestricted"@);
                    let running: int = if info.turn_in_flight {
                        1
                    } else {
                        0
                    };
                    &&& passes(bound[0], id@) && passes(bound[0], info.permission@)
                    &&& info.turn_in_flight ==> passes(bound[1], "a turn is running"@)
                    &&& stuck ==> bound.len() == running + 2 && fails(
                        bound[running + 1],
                        text::debug_quoted(info.permission@),
                    )
                    &&& !stuck ==> bound.len() == running + 1
                },
                SessionProbe::Missing { id } => bound.len() == 1 && warns(bound[0], id@),
                SessionProbe::Unreadable { id, error } => bound.len() == 1 && warns(bound[0], id@)
                    && warns(bound[0], error@),
            }
        }),
        ({
            let level = crate::config::permission_name(config.session.permission);
            let lines = doctor::session_lines(config, session, enabled);
            let replies = level == "read"@ || level == "workspace"@ || level == "unrestricted"@;
            let listed = enabled.len() == 0 || enabled.contains(level);
            &&& lines[0] == LineView::Heading("session"@)
            &&& failing(lines) == failing(doctor::bound_lines(session)) + (if replies {
                0nat
            } else {
                1
            }) + (if listed {
                0nat
            } else {
                1
            })
            &&& warning(lines) == warning(doctor::bound_lines(session))
        }),
{
    let nothing = Seq::<char>::empty();
    match session {
        SessionProbe::Unbound => {},
        SessionProbe::Found { id, info } => {
            let said = "bound to "@ + id@ + " (permission "@ + info.permission@ + ")"@;
            a_part_is_contained(
                "bound to "@,
                id@,
                " (permission "@ + info.permission@ + ")"@,
            );
            assert("bound to "@ + id@ + (" (permission "@ + info.permission@ + ")"@) =~= said);
            a_part_is_contained("bound to "@ + id@ + " (permission "@, info.permission@, ")"@);
            reveal_strlit("a turn is running");
            reveal_strlit("a turn is running on it right now");
            let turn = "a turn is running on it right now"@;
            assert(turn.subrange(0, 17) =~= "a turn is running"@);
            assert(text::stands_at(turn, "a turn is running"@, 0));
            if let Some(problem) = commands::level_problem(info.permission@) {
                let quoted = text::debug_quoted(info.permission@);
                a_part_is_contained(
                    "the session is at permission "@,
                    quoted,
                    ". "@ + problem,
                );
                assert("the session is at permission "@ + quoted + (". "@ + problem)
                    =~= "the session is at permission "@ + quoted + ". "@ + problem);
            }
        },
        SessionProbe::Missing { id } => {
            a_part_is_contained(
                "meka no longer knows session "@,
                id@,
                "; a replacement will be created"@,
            );
        },
        SessionProbe::Unreadable { id, error } => {
            a_part_is_contained("could not read session "@, id@, ": "@ + error@);
            assert("could not read session "@ + id@ + (": "@ + error@)
                =~= "could not read session "@ + id@ + ": "@ + error@);
            a_part_is_contained("could not read session "@ + id@ + ": "@, error@, nothing);
        },
    }
    let level = crate::config::permission_name(config.session.permission);
    let head = seq![LineView::Heading("session"@)];
    let bound = doctor::bound_lines(session);
    let wrong = match commands::level_problem(level) {
        Some(problem) => seq![
            doctor::fail("[session].permission is "@ + text::debug_quoted(level) + ". "@ + problem),
        ],
        None => Seq::empty(),
    };
    let refused = doctor::fail_if(commands::level_refused(level, enabled));
    let reach = match commands::moderation_out_of_reach(
        level,
        doctor::any_admin(config.channels@),
    ) {
        Some(reach) => seq![doctor::pass(reach)],
        None => Seq::empty(),
    };
    counts_add_up(head, bound);
    counts_add_up(head + bound, wrong);
    counts_add_up(head + bound + wrong, refused);
    counts_add_up(head + bound + wrong + refused, reach);
    one_line_counts_once(head[0]);
    if wrong.len() > 0 {
        one_line_counts_once(wrong[0]);
    }
    if refused.len() > 0 {
        one_line_counts_once(refused[0]);
    }
    if reach.len() > 0 {
        one_line_counts_once(reach[0]);
    }
}

/// Whether a channel offers the moderation tools is what its own table says, and one channel that does
/// is enough.
pub proof fn moderation_is_offered_by_any_channel(channels: Seq<ChannelConfig>)
    ensures
        doctor::any_admin(channels) <==> exists|i: int|
            0 <= i < channels.len() && match (#[trigger] channels[i]).platform {
                PlatformConfig::Telegram(telegram) => telegram.admin_tools,
                PlatformConfig::Discord(discord) => discord.admin_tools,
            },
{
    if doctor::any_admin(channels) {
        let i = choose|i: int| 0 <= i < channels.len() && doctor::offers_admin(#[trigger] channels[i]);
        assert(match channels[i].platform {
            PlatformConfig::Telegram(telegram) => telegram.admin_tools,
            PlatformConfig::Discord(discord) => discord.admin_tools,
        });
    }
    if exists|i: int|
        0 <= i < channels.len() && match (#[trigger] channels[i]).platform {
            PlatformConfig::Telegram(telegram) => telegram.admin_tools,
            PlatformConfig::Discord(discord) => discord.admin_tools,
        } {
        let i = choose|i: int|
            0 <= i < channels.len() && match (#[trigger] channels[i]).platform {
                PlatformConfig::Telegram(telegram) => telegram.admin_tools,
                PlatformConfig::Discord(discord) => discord.admin_tools,
            };
        assert(doctor::offers_admin(channels[i]));
    }
}

/// A channel that cannot log in fails, with its name and the error, and nothing else is said of it.
pub proof fn a_channel_fails_where_it_cannot_log_in(probe: ChannelProbe)
    requires
        probe.identity is Err,
    ensures
        doctor::channel_lines(probe) == seq![
            LineView::Check(CheckView::Fail(probe.id@ + ": "@ + probe.identity->Err_0@)),
        ],
{
}

proof fn five_parts_add_up(
    a: Seq<LineView>,
    b: Seq<LineView>,
    c: Seq<LineView>,
    d: Seq<LineView>,
    e: Seq<LineView>,
)
    requires
        a.len() == 1,
    ensures
        (a + b + c + d + e).len() == 1 + b.len() + c.len() + d.len() + e.len(),
        (a + b + c + d + e)[0] == a[0],
        failing(a + b + c + d + e) == failing(a) + failing(b) + failing(c) + failing(d) + failing(e),
        warning(a + b + c + d + e) == warning(a) + warning(b) + warning(c) + warning(d) + warning(e),
{
    counts_add_up(a, b);
    counts_add_up(a + b, c);
    counts_add_up(a + b + c, d);
    counts_add_up(a + b + c + d, e);
}

/// A channel that logs in is named by its bot, with an at sign where it has a user name. It fails
/// nothing and warns exactly where it does not hear everything said in a group; one more line notes what
/// it asks Discord for, one that it follows who is online, and one that it offers to moderate.
pub proof fn a_channel_that_logs_in_is_named(probe: ChannelProbe)
    requires
        probe.identity is Ok,
    ensures
        ({
            let lines = doctor::channel_lines(probe);
            let identity = probe.identity->Ok_0;
            let shown = match identity.username {
                Some(username) => seq!['@'] + username@,
                None => identity.display_name@,
            };
            &&& lines.len() == 1 + counted(!identity.reads_all_group_messages) + counted(
                probe.platform == Platform::Discord,
            ) + counted(probe.capabilities.presence) + counted(probe.capabilities.admin)
            &&& lines[0] == LineView::Check(
                CheckView::Pass(probe.id@ + " authenticated as "@ + shown),
            )
            &&& failing(lines) == 0
            &&& warning(lines) == counted(!identity.reads_all_group_messages)
        }),
{
    reveal_strlit("@");
    assert("@"@ =~= seq!['@']);
    let identity = probe.identity->Ok_0;
    let first = doctor::pass(probe.id@ + " authenticated as "@ + doctor::bot_label(identity));
    let deaf = doctor::withholding_line(probe.id@, probe.platform);
    let noted = doctor::intents_line(probe.id@, identity.reads_all_group_messages);
    let online = doctor::pass(
        probe.id@ + " tracks who is online; availability is built up from the gateway, so it is \
                     empty for a moment after every restart and reads as unknown until it fills"@,
    );
    let admin = doctor::pass(
        probe.id@ + " offers the moderation tools ("@ + (if probe.capabilities.member_roles {
            "privileges granted through roles"@
        } else {
            "privileges granted to a person directly"@
        }) + "); each call still needs the matching right in the chat it targets"@,
    );
    one_line_counts_once(first);
    a_line_counts_where_it_is_wanted(!identity.reads_all_group_messages, deaf);
    a_line_counts_where_it_is_wanted(probe.platform == Platform::Discord, noted);
    a_line_counts_where_it_is_wanted(probe.capabilities.presence, online);
    a_line_counts_where_it_is_wanted(probe.capabilities.admin, admin);
    five_parts_add_up(
        seq![first],
        doctor::line_if(!identity.reads_all_group_messages, deaf),
        doctor::line_if(probe.platform == Platform::Discord, noted),
        doctor::line_if(probe.capabilities.presence, online),
        doctor::line_if(probe.capabilities.admin, admin),
    );
}

/// One where something holds, and nothing where it does not.
pub open spec fn counted(holds: bool) -> nat {
    if holds {
        1
    } else {
        0
    }
}

/// The section on the channels fails once for every channel that cannot log in, and once where there
/// are none to be had. What was found of the conversation for notices stands at its end.
pub proof fn the_channel_section_fails_for_each_that_cannot_log_in(
    channels: Result<Vec<ChannelProbe>, String>,
    owner: Option<crate::cli::commands::Check>,
)
    ensures
        ({
            let lines = doctor::channels_lines(channels, owner);
            &&& lines[0] == LineView::Heading("channels"@)
            &&& channels matches Err(error) ==> lines.len() == 2 && fails(lines[1], error@)
            &&& channels is Ok ==> (owner matches Some(check) ==> lines[lines.len() - 1]
                == LineView::Check(check.deep_view()))
            &&& channels matches Ok(probes) ==> (owner is None ==> failing(lines) == refused_logins(
                probes@,
            ))
        }),
{
    let nothing = Seq::<char>::empty();
    match channels {
        Err(error) => a_part_is_contained(nothing, error@, nothing),
        Ok(probes) => {
            let head = seq![LineView::Heading("channels"@)];
            let all = doctor::all_channel_lines(probes@);
            counts_add_up(head, all);
            one_line_counts_once(head[0]);
            each_refused_login_fails(probes@);
            if owner is None {
                assert(doctor::channels_lines(channels, owner) =~= head + all);
            }
        },
    }
}

/// How many channels could not log in.
pub open spec fn refused_logins(probes: Seq<ChannelProbe>) -> nat
    decreases probes.len(),
{
    if probes.len() == 0 {
        0
    } else {
        refused_logins(probes.drop_last()) + (if probes.last().identity is Err {
            1nat
        } else {
            0
        })
    }
}

proof fn each_refused_login_fails(probes: Seq<ChannelProbe>)
    ensures
        failing(doctor::all_channel_lines(probes)) == refused_logins(probes),
    decreases probes.len(),
{
    if probes.len() > 0 {
        let before = probes.drop_last();
        let last = probes.last();
        each_refused_login_fails(before);
        counts_add_up(doctor::all_channel_lines(before), doctor::channel_lines(last));
        if last.identity is Ok {
            a_channel_that_logs_in_is_named(last);
        } else {
            a_channel_fails_where_it_cannot_log_in(last);
            let lines = doctor::channel_lines(last);
            assert(lines =~= seq![lines[0]]);
            one_line_counts_once(lines[0]);
        }
    }
}

/// The section on the endpoint: one that can be bound passes with its address, one that cannot warns
/// with why, and one that is open to other hosts without a token fails.
pub proof fn an_open_endpoint_without_a_token_fails(
    config: Config,
    bound: Result<(), String>,
    loopback: bool,
)
    ensures
        ({
            let lines = doctor::mcp_lines(config, bound, loopback);
            let open = config.mcp.token is None && !loopback;
            &&& lines[0] == LineView::Heading("mcp"@)
            &&& lines.len() == (if open {
                3int
            } else {
                2
            })
            &&& open ==> fails(lines[2], "no [mcp].token"@)
            &&& config.mcp.transport == McpTransport::Stdio ==> passes(lines[1], "stdio transport"@)
            &&& config.mcp.transport == McpTransport::Http && bound is Ok ==> passes(
                lines[1],
                config.mcp.bind@ + config.mcp.path@,
            )
            &&& config.mcp.transport == McpTransport::Http ==> (bound matches Err(error) ==> warns(
                lines[1],
                error@,
            ))
        }),
{
    let nothing = Seq::<char>::empty();
    reveal_strlit("no [mcp].token");
    reveal_strlit(
        "the MCP endpoint is on a non-loopback address with no [mcp].token; anyone who can reach it \
         can send messages as the agent",
    );
    let said =
        "the MCP endpoint is on a non-loopback address with no [mcp].token; anyone who can reach it \
         can send messages as the agent"@;
    assert(said.subrange(51, 65) =~= "no [mcp].token"@);
    assert(text::stands_at(said, "no [mcp].token"@, 51));
    reveal_strlit("stdio transport");
    reveal_strlit("stdio transport; nothing to bind");
    let stdio = "stdio transport; nothing to bind"@;
    assert(stdio.subrange(0, 15) =~= "stdio transport"@);
    assert(text::stands_at(stdio, "stdio transport"@, 0));
    let address = config.mcp.bind@ + config.mcp.path@;
    let tail = " is free (meka should use transport = \"http\", url = \"http://"@ + address
        + "\")"@;
    a_part_is_contained(nothing, address, tail);
    assert(address + tail =~= address
        + " is free (meka should use transport = \"http\", url = \"http://"@ + address + "\")"@);
    if let Err(error) = bound {
        a_part_is_contained(
            "could not bind "@ + config.mcp.bind@ + ": "@,
            error@,
            ". This is expected if mekabridge is already running."@,
        );
    }
}

/// A report holds its sections in order, none left out, so its failures and warnings are theirs.
pub proof fn a_report_is_the_sum_of_its_sections(config: Config, found: Examination)
    ensures
        ({
            let lines = doctor::all_lines(config, found);
            let sections = seq![
                doctor::config_lines(config),
                doctor::attention_lines(config),
                doctor::storage_lines(config, found.storage),
                doctor::meka_lines(config, found.meka, found.ready),
                doctor::session_lines(
                    config,
                    found.session,
                    match found.meka {
                        Ok(probe) => probe.info.enabled_permissions.deep_view(),
                        Err(_) => Seq::empty(),
                    },
                ),
                doctor::channels_lines(found.channels, found.owner),
                doctor::mcp_lines(config, found.bound, found.loopback),
            ];
            &&& lines == sections[0] + sections[1] + sections[2] + sections[3] + sections[4]
                + sections[5] + sections[6]
            &&& failing(lines) == failing(sections[0]) + failing(sections[1]) + failing(sections[2])
                + failing(sections[3]) + failing(sections[4]) + failing(sections[5]) + failing(
                sections[6],
            )
            &&& warning(lines) == warning(sections[0]) + warning(sections[1]) + warning(sections[2])
                + warning(sections[3]) + warning(sections[4]) + warning(sections[5]) + warning(
                sections[6],
            )
        }),
{
    let a = doctor::config_lines(config);
    let b = doctor::attention_lines(config);
    let c = doctor::storage_lines(config, found.storage);
    let d = doctor::meka_lines(config, found.meka, found.ready);
    let e = doctor::session_lines(config, found.session, doctor::enabled_levels(found.meka));
    let f = doctor::channels_lines(found.channels, found.owner);
    let g = doctor::mcp_lines(config, found.bound, found.loopback);
    counts_add_up(a, b);
    counts_add_up(a + b, c);
    counts_add_up(a + b + c, d);
    counts_add_up(a + b + c + d, e);
    counts_add_up(a + b + c + d + e, f);
    counts_add_up(a + b + c + d + e + f, g);
}

/// The section on the configuration repeats every warning it was read with, as a warning, and fails
/// nothing. The section on attention names the defaults.
pub proof fn every_configuration_warning_is_repeated(config: Config, i: int)
    ensures
        ({
            let lines = doctor::config_lines(config);
            &&& lines.len() == config.warnings@.len() + 2
            &&& lines[0] == LineView::Heading("config"@)
            &&& lines[1] == LineView::Check(CheckView::Pass("parsed and validated"@))
            &&& 0 <= i < config.warnings@.len() ==> lines[i + 2] == LineView::Check(
                CheckView::Warn(config.warnings@[i]@),
            )
        }),
        doctor::attention_lines(config) == seq![
            LineView::Heading("attention"@),
            LineView::Check(
                CheckView::Pass(
                    "default policy: "@ + commands::default_text(config.bridge.default_policy),
                ),
            ),
        ],
{
    assert(config.warnings.deep_view().len() == config.warnings@.len());
    if 0 <= i < config.warnings@.len() {
        assert(config.warnings.deep_view()[i] == config.warnings@[i]@);
    }
}

/// Whether meka can serve a turn: it passes exactly where all is well, fails once for a database it
/// cannot reach and once for a provider it does not have, and warns of anything else.
pub proof fn readiness_fails_where_no_turn_can_run(ready: ReadyStatus)
    ensures
        ({
            let lines = doctor::ready_lines(Ok(ready));
            let lost: nat = if ready.session_db {
                0
            } else {
                1
            };
            let bare: nat = if ready.provider_configured {
                0
            } else {
                1
            };
            let poor: nat = if ready.status@ == "ok"@ {
                0
            } else {
                1
            };
            let sick: nat = if ready.mcp_servers_healthy {
                0
            } else {
                1
            };
            &&& lines.len() == 1 + lost + bare + sick
            &&& failing(lines) == lost + bare
            &&& warning(lines) == poor + sick
            &&& ready.status@ == "ok"@ ==> lines[0] == LineView::Check(
                CheckView::Pass("readiness: "@ + ready.status@),
            )
            &&& ready.status@ != "ok"@ ==> lines[0] == LineView::Check(
                CheckView::Warn("readiness: "@ + ready.status@),
            )
        }),
{
    let lines = doctor::ready_lines(Ok(ready));
    let checks = commands::readiness_checks(ready);
    let a: int = if ready.session_db {
        0
    } else {
        1
    };
    let b: int = a + (if ready.provider_configured {
        0int
    } else {
        1
    });
    assert(lines.len() == checks.len());
    assert forall|i: int| 0 <= i < lines.len() implies lines[i] == LineView::Check(checks[i]) by {}
    let first = lines.take(1);
    let second = lines.subrange(1, 1 + a);
    let third = lines.subrange(1 + a, 1 + b);
    let fourth = lines.skip(1 + b);
    assert(lines =~= first + second + third + fourth);
    counts_add_up(first, second);
    counts_add_up(first + second, third);
    counts_add_up(first + second + third, fourth);
    assert(first =~= seq![lines[0]]);
    one_line_counts_once(lines[0]);
    if second.len() > 0 {
        assert(second =~= seq![lines[1]]);
        one_line_counts_once(lines[1]);
    }
    if third.len() > 0 {
        assert(third =~= seq![lines[1 + a]]);
        one_line_counts_once(lines[1 + a]);
    }
    if fourth.len() > 0 {
        assert(fourth =~= seq![lines[1 + b]]);
        one_line_counts_once(lines[1 + b]);
    }
}

/// What is asked for is what is done: nothing asked runs the daemon, what is only about the
/// configuration needs nothing else, and everything else is a tool's.
pub proof fn what_is_asked_for_is_done(command: crate::cli::Command)
    ensures
        crate::cli::task_of(None) == crate::cli::Task::Daemon,
        command is Run ==> crate::cli::task_of(Some(command)) == crate::cli::Task::Daemon,
        command matches crate::cli::Command::Unseen { conversation } ==> crate::cli::task_of(
            Some(command),
        ) == (crate::cli::Task::Unseen { conversation }),
        command matches crate::cli::Command::Config { command: asked } ==> {
            &&& asked is Path ==> crate::cli::task_of(Some(command)) == crate::cli::Task::ConfigPath
            &&& asked is Validate ==> crate::cli::task_of(Some(command))
                == crate::cli::Task::ConfigValidate
            &&& asked matches crate::cli::ConfigCommand::Init { force } ==> crate::cli::task_of(
                Some(command),
            ) == (crate::cli::Task::ConfigInit { force })
        },
        !(command is Run) && !(command is Unseen) && !(command is Config) ==> crate::cli::task_of(
            Some(command),
        ) == crate::cli::Task::Operator(command),
{
}

/// What is said of a line of a report is said of the same verdict and the same words.
pub proof fn a_line_is_viewed_as_it_is(check: commands::Check, line: doctor::Line)
    ensures
        check matches commands::Check::Pass(said) ==> check.deep_view() == CheckView::Pass(said@),
        check matches commands::Check::Warn(said) ==> check.deep_view() == CheckView::Warn(said@),
        check matches commands::Check::Fail(said) ==> check.deep_view() == CheckView::Fail(said@),
        line matches doctor::Line::Heading(said) ==> line.deep_view() == LineView::Heading(said@),
        line matches doctor::Line::Check(check) ==> line.deep_view() == LineView::Check(
            check.deep_view(),
        ),
        line matches doctor::Line::Note(said) ==> line.deep_view() == LineView::Note(said@),
{
}

} // verus!
