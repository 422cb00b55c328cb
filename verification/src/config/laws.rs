//! Which configurations are accepted and what is made of them, stated of what stands in the file.

use vstd::prelude::*;

use crate::channel::ids;
use crate::config::file::{
    self, FileBridge, FileConfig, FileDiscord, FileMeka, FileTelegram, Surroundings,
};
use crate::config::secret::{self, SecretView};
use crate::config::{Config, Permission, PlatformConfig};
use crate::error::BridgeErrorView;
use crate::paths;
use crate::store::Policy;
use crate::text;

verus! {

/// One where something holds, and nothing where it does not.
pub open spec fn one(holds: bool) -> nat {
    if holds {
        1
    } else {
        0
    }
}

/// A credential can be had exactly where one of the two fields is set and not the other: a token whose
/// placeholders are all known and that says something, or a file that was read and is not blank.
pub proof fn a_credential_is_given_once(
    label: Seq<char>,
    token: Option<String>,
    token_file: Option<String>,
    dir: Seq<char>,
    around: Surroundings,
)
    ensures
        ({
            let had = file::table_credential(label, token, token_file, dir, around);
            &&& token is Some && token_file is Some ==> had is Err
            &&& token is None && token_file is None ==> had is Err
            &&& token_file is None ==> (token matches Some(raw) ==> {
                let read = secret::expansion(label, raw@, raw@, around.variables.deep_view());
                &&& had is Ok <==> (read matches Ok(value) && value.len() > 0)
                &&& had matches Ok(given) ==> read == Ok::<Seq<char>, Seq<char>>(given.value)
            })
            &&& token is None ==> (token_file matches Some(raw) ==> {
                let path = paths::expanded(raw@, dir, around.home_dir.deep_view());
                &&& had is Ok <==> (path matches Ok(path) && (file::read_of(
                    around.files@,
                    path,
                ) matches Ok(contents) && text::trimmed(contents).len() > 0))
                &&& had matches Ok(given) ==> (path matches Ok(path) && (file::read_of(
                    around.files@,
                    path,
                ) matches Ok(contents) && given.value == text::trimmed(contents) && given.origin
                    == paths::native::shown_path(path)))
            })
        }),
{
}

/// Where a credential comes from is said without saying what it is: by the variable that held it, by
/// the file, or as standing in the configuration.
pub proof fn where_a_credential_comes_from(
    label: Seq<char>,
    raw: Seq<char>,
    variables: Seq<(Seq<char>, Seq<char>)>,
)
    ensures
        secret::credential(label, Some(raw), None, variables) matches Ok(given) ==> {
            &&& secret::reference(raw) matches Some(name) ==> given.origin == "${"@ + name + "}"@
            &&& secret::reference(raw) is None ==> given.origin == "inline config"@
        },
        secret::advisories(label, Some(raw)).len() == one(secret::reference(raw) is None),
        secret::advisories(label, None).len() == 0,
        secret::advisories(label, Some(raw)).len() == 1 ==> text::begins(
            secret::advisories(label, Some(raw))[0],
            label,
        ),
{
    if secret::reference(raw) is None {
        let said = secret::advisories(label, Some(raw))[0];
        assert(said.take(label.len() as int) =~= label);
    }
}

/// A text is a reference exactly where it is one placeholder and nothing else: a name in braces behind
/// a dollar sign, with none of these three in the name.
pub proof fn a_reference_is_one_placeholder(raw: Seq<char>, name: Seq<char>)
    ensures
        secret::reference(raw) == Some(name) <==> raw == seq!['$', '{'] + name + seq!['}']
            && name.len() > 0 && !name.contains('$') && !name.contains('{') && !name.contains('}'),
{
    if secret::reference(raw) == Some(name) {
        assert(raw =~= seq!['$', '{'] + name + seq!['}']);
    }
    if raw == seq!['$', '{'] + name + seq!['}'] {
        assert(raw.subrange(2, raw.len() - 1) =~= name);
        assert(raw.last() == '}');
    }
}

/// A placeholder is replaced by the value of its variable and the rest goes on behind it. A variable
/// that is not set, a placeholder without a name and one that does not end are refused.
pub proof fn a_placeholder_takes_its_value(
    label: Seq<char>,
    raw: Seq<char>,
    name: Seq<char>,
    tail: Seq<char>,
    variables: Seq<(Seq<char>, Seq<char>)>,
)
    requires
        !name.contains('}'),
    ensures
        ({
            let rest = seq!['$', '{'] + name + seq!['}'] + tail;
            let read = secret::expansion(label, raw, rest, variables);
            let behind = secret::expansion(label, raw, tail, variables);
            &&& name.len() == 0 ==> read is Err
            &&& name.len() > 0 && secret::variable(variables, name) is None ==> (
            read matches Err(message) && text::contains(message, name))
            &&& name.len() > 0 ==> (secret::variable(variables, name) matches Some(value) ==> match behind {
                Ok(after) => read == Ok::<Seq<char>, Seq<char>>(value + after),
                Err(message) => read == Err::<Seq<char>, Seq<char>>(message),
            })
        }),
        secret::expansion(label, raw, seq!['$', '{'] + name, variables) is Err,
{
    let rest = seq!['$', '{'] + name + seq!['}'] + tail;
    assert(rest.skip(2) =~= name + seq!['}'] + tail);
    cut_at_the_brace(name, tail);
    if name.len() > 0 && secret::variable(variables, name) is None {
        let message = label + " references environment variable `"@ + name + "`, which is not set"@;
        let at = (label + " references environment variable `"@).len() as int;
        assert(message.subrange(at, at + name.len()) =~= name);
        assert(text::stands_at(message, name, at));
    }
    let open = seq!['$', '{'] + name;
    assert(open.skip(2) =~= name);
    text::laws::a_text_is_cut_at_the_first(name, '}');
}

proof fn cut_at_the_brace(first: Seq<char>, rest: Seq<char>)
    requires
        !first.contains('}'),
    ensures
        text::parts_at(first + seq!['}'] + rest, '}') == Some((first, rest)),
{
    let whole = first + seq!['}'] + rest;
    text::laws::a_text_is_cut_at_the_first(whole, '}');
    assert(whole[first.len() as int] == '}');
    assert(whole.contains('}'));
    let parts = text::parts_at(whole, '}')->0;
    if parts.0.len() < first.len() {
        assert(whole[parts.0.len() as int] == '}');
        assert(first[parts.0.len() as int] == '}');
        assert(first.contains('}'));
    } else if parts.0.len() > first.len() {
        assert(parts.0[first.len() as int] == whole[first.len() as int]);
        assert(parts.0.contains('}'));
    }
    assert(parts.0 =~= whole.take(first.len() as int));
    assert(first =~= whole.take(first.len() as int));
    assert(parts.1 =~= whole.skip((first.len() + 1) as int));
    assert(rest =~= whole.skip((first.len() + 1) as int));
}

/// What is no placeholder is kept as it is, one character after another.
pub proof fn other_text_is_kept(
    label: Seq<char>,
    raw: Seq<char>,
    c: char,
    tail: Seq<char>,
    variables: Seq<(Seq<char>, Seq<char>)>,
)
    requires
        c != '$' || tail.len() == 0 || tail[0] != '{',
    ensures
        match secret::expansion(label, raw, tail, variables) {
            Ok(after) => secret::expansion(label, raw, seq![c] + tail, variables) == Ok::<
                Seq<char>,
                Seq<char>,
            >(seq![c] + after),
            Err(message) => secret::expansion(label, raw, seq![c] + tail, variables) == Err::<
                Seq<char>,
                Seq<char>,
            >(message),
        },
        secret::expansion(label, raw, Seq::empty(), variables) == Ok::<Seq<char>, Seq<char>>(
            Seq::empty(),
        ),
{
    assert((seq![c] + tail).skip(1) =~= tail);
}

/// A variable has the value of its first entry, and is not set where it has none.
pub proof fn a_variable_has_its_first_value(
    variables: Seq<(Seq<char>, Seq<char>)>,
    name: Seq<char>,
    i: int,
)
    ensures
        0 <= i < variables.len() && variables[i].0 == name && (forall|j: int|
            0 <= j < i ==> (#[trigger] variables[j]).0 != name) ==> secret::variable(variables, name)
            == Some(variables[i].1),
        (forall|j: int| 0 <= j < variables.len() ==> (#[trigger] variables[j]).0 != name)
            ==> secret::variable(variables, name) is None,
    decreases variables.len(),
{
    if variables.len() > 0 {
        let rest = variables.skip(1);
        if forall|j: int| 0 <= j < variables.len() ==> (#[trigger] variables[j]).0 != name {
            assert forall|j: int| 0 <= j < rest.len() implies (#[trigger] rest[j]).0 != name by {
                assert(variables[j + 1].0 != name);
            }
            assert(variables[0].0 != name);
            a_variable_has_its_first_value(rest, name, -1);
        } else if 0 < i < variables.len() && variables[i].0 == name && (forall|j: int|
            0 <= j < i ==> (#[trigger] variables[j]).0 != name) {
            assert forall|j: int| 0 <= j < i - 1 implies (#[trigger] rest[j]).0 != name by {
                assert(variables[j + 1].0 != name);
            }
            assert(variables[0].0 != name);
            a_variable_has_its_first_value(rest, name, i - 1);
        }
    }
}

/// What was read of a file is what its first entry says.
pub proof fn a_file_was_read_as_its_entry_says(
    files: Seq<(String, secret::FileRead)>,
    path: Seq<char>,
    i: int,
)
    requires
        0 <= i < files.len(),
        files[i].0@ == path,
        forall|j: int| 0 <= j < i ==> (#[trigger] files[j]).0@ != path,
    ensures
        files[i].1 matches Ok(contents) ==> file::read_of(files, path) == Ok::<Seq<char>, Seq<char>>(
            contents@,
        ),
        files[i].1 matches Err(source) ==> file::read_of(files, path) == Err::<Seq<char>, Seq<char>>(
            source@,
        ),
    decreases files.len(),
{
    if i > 0 {
        let rest = files.skip(1);
        assert(files[0].0@ != path);
        assert forall|j: int| 0 <= j < i - 1 implies (#[trigger] rest[j]).0@ != path by {
            assert(files[j + 1].0@ != path);
        }
        a_file_was_read_as_its_entry_says(rest, path, i - 1);
    }
}

/// What hides a credential names where it came from.
pub proof fn a_hidden_credential_names_its_origin(given: SecretView)
    ensures
        secret::displayed(given) == "<redacted from "@ + given.origin + ">"@,
        secret::debugged(given) == "Secret("@ + secret::displayed(given) + ")"@,
{
    reveal_strlit("Secret(<redacted from ");
    reveal_strlit("Secret(");
    reveal_strlit("<redacted from ");
    reveal_strlit(">)");
    reveal_strlit(">");
    reveal_strlit(")");
    assert(secret::debugged(given) =~= "Secret("@ + secret::displayed(given) + ")"@);
}

/// An id is accepted exactly where it says something and holds letters, digits, dashes and underscores
/// alone.
pub proof fn an_id_is_letters_digits_and_two_marks(id: Seq<char>)
    ensures
        file::id_refusal(id) is None <==> id.len() > 0 && forall|i: int|
            0 <= i < id.len() ==> {
                let c = #[trigger] id[i];
                'a' <= c <= 'z' || 'A' <= c <= 'Z' || '0' <= c <= '9' || c == '-' || c == '_'
            },
{
}

/// A list of Discord ids is accepted exactly where every one is a number other than zero.
pub proof fn discord_ids_are_numbers(label: Seq<char>, field: Seq<char>, raw: Seq<String>)
    ensures
        file::snowflakes_refusal(label, field, raw) is None <==> forall|i: int|
            0 <= i < raw.len() ==> (text::unsigned_in(
                (#[trigger] raw[i])@,
                u64::MAX as nat,
            ) matches Some(id) && id != 0),
    decreases raw.len(),
{
    if raw.len() > 0 {
        let before = raw.drop_last();
        discord_ids_are_numbers(label, field, before);
        if file::snowflakes_refusal(label, field, raw) is None {
            assert forall|i: int| 0 <= i < raw.len() implies (text::unsigned_in(
                (#[trigger] raw[i])@,
                u64::MAX as nat,
            ) matches Some(id) && id != 0) by {
                if i < before.len() {
                    assert(before[i] == raw[i]);
                }
            }
        }
        if forall|i: int|
            0 <= i < raw.len() ==> (text::unsigned_in(
                (#[trigger] raw[i])@,
                u64::MAX as nat,
            ) matches Some(id) && id != 0) {
            assert forall|i: int| 0 <= i < before.len() implies (text::unsigned_in(
                (#[trigger] before[i])@,
                u64::MAX as nat,
            ) matches Some(id) && id != 0) by {
                assert(raw[i] == before[i]);
            }
            assert(raw.last() == raw[raw.len() - 1]);
        }
    }
}

/// Whether every id of a list is a number other than zero.
pub open spec fn numbers(raw: Seq<String>) -> bool {
    forall|i: int|
        0 <= i < raw.len() ==> (text::unsigned_in((#[trigger] raw[i])@, u64::MAX as nat) matches Some(
            id,
        ) && id != 0)
}

/// A Telegram channel is accepted exactly where its id is one and not taken, somebody is admitted, and
/// its credential can be had.
pub proof fn a_telegram_channel_is_accepted_where_somebody_is_admitted(
    table: FileTelegram,
    seen: Seq<Seq<char>>,
    dir: Seq<char>,
    around: Surroundings,
)
    ensures
        file::telegram_refusal(table, seen, dir, around) is None <==> file::id_refusal(table.id@)
            is None && !seen.contains(table.id@) && (table.allow_all || table.allowed_users@.len() > 0
            || table.allowed_chats@.len() > 0) && file::table_credential(
            "[[channels.telegram]] id = "@ + text::debug_quoted(table.id@),
            table.token,
            table.token_file,
            dir,
            around,
        ) is Ok,
{
}

/// A Discord channel is accepted exactly where its id is one and not taken, all its lists hold ids,
/// somebody is admitted, and its credential can be had.
pub proof fn a_discord_channel_is_accepted_where_somebody_is_admitted(
    table: FileDiscord,
    seen: Seq<Seq<char>>,
    dir: Seq<char>,
    around: Surroundings,
)
    ensures
        file::discord_refusal(table, seen, dir, around) is None <==> file::id_refusal(table.id@)
            is None && !seen.contains(table.id@) && numbers(table.allowed_users@) && numbers(
            table.allowed_guilds@,
        ) && numbers(table.allowed_channels@) && numbers(table.allowed_roles@) && (table.allow_all
            || table.allowed_users@.len() > 0 || table.allowed_guilds@.len() > 0
            || table.allowed_channels@.len() > 0 || table.allowed_roles@.len() > 0)
            && file::table_credential(
            "[[channels.discord]] id = "@ + text::debug_quoted(table.id@),
            table.token,
            table.token_file,
            dir,
            around,
        ) is Ok,
{
    let label = file::discord_label(table.id@);
    discord_ids_are_numbers(label, "allowed_users"@, table.allowed_users@);
    discord_ids_are_numbers(label, "allowed_guilds"@, table.allowed_guilds@);
    discord_ids_are_numbers(label, "allowed_channels"@, table.allowed_channels@);
    discord_ids_are_numbers(label, "allowed_roles"@, table.allowed_roles@);
}

/// Each Telegram channel is held to those before it, and each Discord channel to every Telegram channel
/// and those before it. One that is refused refuses them all.
pub proof fn every_channel_is_held_to_those_before(
    telegram: Seq<FileTelegram>,
    discord: Seq<FileDiscord>,
    seen: Seq<Seq<char>>,
    dir: Seq<char>,
    around: Surroundings,
)
    ensures
        file::telegrams_refusal(telegram, dir, around) is None <==> forall|i: int|
            0 <= i < telegram.len() ==> file::telegram_refusal(
                #[trigger] telegram[i],
                telegram.take(i).map_values(|table: FileTelegram| table.id@),
                dir,
                around,
            ) is None,
        file::discords_refusal(discord, seen, dir, around) is None <==> forall|i: int|
            0 <= i < discord.len() ==> file::discord_refusal(
                #[trigger] discord[i],
                seen + discord.take(i).map_values(|table: FileDiscord| table.id@),
                dir,
                around,
            ) is None,
    decreases telegram.len() + discord.len(),
{
    let telegram_id = |table: FileTelegram| table.id@;
    let discord_id = |table: FileDiscord| table.id@;
    if telegram.len() > 0 {
        let before = telegram.drop_last();
        every_channel_is_held_to_those_before(before, discord, seen, dir, around);
        assert(telegram.take(telegram.len() - 1) =~= before);
        assert forall|i: int| 0 <= i < before.len() implies #[trigger] before[i] == telegram[i]
            && before.take(i) == telegram.take(i) by {
            assert(before.take(i) =~= telegram.take(i));
        }
        if file::telegrams_refusal(telegram, dir, around) is None {
            assert forall|i: int| 0 <= i < telegram.len() implies file::telegram_refusal(
                #[trigger] telegram[i],
                telegram.take(i).map_values(telegram_id),
                dir,
                around,
            ) is None by {
                if i < before.len() {
                    assert(before[i] == telegram[i]);
                }
            }
        } else if file::telegrams_refusal(before, dir, around) is Some {
            let i = choose|i: int|
                0 <= i < before.len() && file::telegram_refusal(
                    #[trigger] before[i],
                    before.take(i).map_values(telegram_id),
                    dir,
                    around,
                ) is Some;
            assert(before[i] == telegram[i]);
        } else {
            assert(telegram[telegram.len() - 1] == telegram.last());
        }
    }
    if discord.len() > 0 {
        let before = discord.drop_last();
        every_channel_is_held_to_those_before(telegram, before, seen, dir, around);
        assert(discord.take(discord.len() - 1) =~= before);
        assert forall|i: int| 0 <= i < before.len() implies #[trigger] before[i] == discord[i]
            && before.take(i) == discord.take(i) by {
            assert(before.take(i) =~= discord.take(i));
        }
        if file::discords_refusal(discord, seen, dir, around) is None {
            assert forall|i: int| 0 <= i < discord.len() implies file::discord_refusal(
                #[trigger] discord[i],
                seen + discord.take(i).map_values(discord_id),
                dir,
                around,
            ) is None by {
                if i < before.len() {
                    assert(before[i] == discord[i]);
                }
            }
        } else if file::discords_refusal(before, seen, dir, around) is Some {
            let i = choose|i: int|
                0 <= i < before.len() && file::discord_refusal(
                    #[trigger] before[i],
                    seen + before.take(i).map_values(discord_id),
                    dir,
                    around,
                ) is Some;
            assert(before[i] == discord[i]);
        } else {
            assert(discord[discord.len() - 1] == discord.last());
        }
    }
}

/// How meka is reached is accepted exactly where the address is one, a turn may take some time, and the
/// credential can be had.
pub proof fn meka_is_accepted_where_it_can_be_reached(
    table: FileMeka,
    dir: Seq<char>,
    around: Surroundings,
)
    ensures
        file::meka_refusal(table, dir, around) is None <==> file::url_reading(table.base_url@) is Ok
            && (table.turn_timeout.whole() > 0 || table.turn_timeout.beyond() > 0)
            && file::table_credential("[meka]"@, table.token, table.token_file, dir, around) is Ok,
{
}

/// The queue is accepted exactly where a batch holds a message, fits into the queue, the quiet period
/// ends before its ceiling, and at most fifty messages are looked back on.
pub proof fn a_queue_is_accepted_where_it_can_move(table: FileBridge)
    ensures
        file::bridge_refusal(table) is None <==> {
            &&& table.batch_max_messages >= 1
            &&& table.max_queue_depth >= table.batch_max_messages
            &&& table.settle.whole() < table.settle_max.whole() || (table.settle.whole()
                == table.settle_max.whole() && table.settle.beyond() <= table.settle_max.beyond())
            &&& table.mute_context <= 50
        },
{
}

/// Where things are kept is what the file says, taken from the directory of the file, and otherwise
/// the platform's directory for data, which has to be there.
pub proof fn things_are_kept_where_the_file_says(
    path: Option<String>,
    name: Seq<char>,
    dir: Seq<char>,
    around: Surroundings,
)
    ensures
        path matches Some(path) ==> file::stored_at(Some(path), name, dir, around) == paths::expanded(
            path@,
            dir,
            around.home_dir.deep_view(),
        ),
        path is None ==> (around.data_dir matches Some(base) ==> file::stored_at(
            path,
            name,
            dir,
            around,
        ) == Ok::<Seq<char>, BridgeErrorView>(
            paths::path_joined(paths::path_joined(base@, "mekabridge"@), name),
        )),
        path is None && around.data_dir is None ==> file::stored_at(path, name, dir, around) is Err,
{
}

/// A configuration is accepted exactly where every part of it is: meka can be reached, the directory of
/// a session is absolute, the queue can move, the endpoint has a path and a credential that can be had
/// where it has one, there is a place for the database and the files, there is a channel and every
/// channel is accepted, and notices go to a channel that is there.
pub proof fn a_configuration_is_accepted_where_all_of_it_is(
    file: FileConfig,
    path: Seq<char>,
    around: Surroundings,
)
    ensures
        file::refusal(file, path, around) is None <==> ({
            let dir = match paths::path_parent(path) {
                Some(parent) => parent,
                None => "."@,
            };
            let telegram = file.channels.telegram@.map_values(|table: FileTelegram| table.id@);
            let discord = file.channels.discord@.map_values(|table: FileDiscord| table.id@);
            &&& file::meka_refusal(file.meka, dir, around) is None
            &&& file.session.cwd matches Some(cwd) ==> paths::path_is_absolute(cwd@)
            &&& file::bridge_refusal(file.bridge) is None
            &&& file.mcp.token is Some || file.mcp.token_file is Some ==> file::table_credential(
                "[mcp]"@,
                file.mcp.token,
                file.mcp.token_file,
                dir,
                around,
            ) is Ok
            &&& file.mcp.path@.len() > 0 && file.mcp.path@[0] == '/'
            &&& file::stored_at(file.storage.path, "mekabridge.db"@, dir, around) is Ok
            &&& file::stored_at(file.storage.attachment_dir, "attachments"@, dir, around) is Ok
            &&& file.channels.telegram@.len() + file.channels.discord@.len() > 0
            &&& file::telegrams_refusal(file.channels.telegram@, dir, around) is None
            &&& file::discords_refusal(file.channels.discord@, telegram, dir, around) is None
            &&& file.bridge.owner_conversation matches Some(owner) ==> telegram.contains(
                text::until(owner@, ':'),
            ) || discord.contains(text::until(owner@, ':'))
        }),
{
    reveal_strlit("/");
    let said = file.mcp.path@;
    if said.len() > 0 {
        assert(said.take(1) =~= seq![said[0]]);
        assert("/"@ =~= seq!['/']);
        if said[0] != '/' {
            assert(said.take(1)[0] != "/"@[0]);
        }
    }
    let telegram = file.channels.telegram@.map_values(|table: FileTelegram| table.id@);
    let discord = file.channels.discord@.map_values(|table: FileDiscord| table.id@);
    if let Some(owner) = file.bridge.owner_conversation {
        let named = text::until(owner@, ':');
        let all = telegram + discord;
        if all.contains(named) {
            let i = choose|i: int| 0 <= i < all.len() && all[i] == named;
            if i < telegram.len() {
                assert(telegram[i] == named);
            } else {
                assert(discord[i - telegram.len()] == named);
            }
        }
        if telegram.contains(named) {
            let i = choose|i: int| 0 <= i < telegram.len() && telegram[i] == named;
            assert(all[i] == named);
        }
        if discord.contains(named) {
            let i = choose|i: int| 0 <= i < discord.len() && discord[i] == named;
            assert(all[i + telegram.len()] == named);
        }
    }
}

/// What is refused in an earlier part is what is reported, in the order of the file.
pub proof fn the_earliest_refusal_is_reported(
    file: FileConfig,
    path: Seq<char>,
    around: Surroundings,
)
    ensures
        ({
            let dir = file::anchor(path);
            let reported = file::refusal(file, path, around);
            let meka = file::meka_refusal(file.meka, dir, around);
            let session = file::session_refusal(file.session);
            let bridge = file::bridge_refusal(file.bridge);
            let mcp = file::mcp_refusal(file.mcp, dir, around);
            let storage = file::storage_refusal(file.storage, dir, around);
            let channels = file::channels_refusal(file.channels, dir, around);
            let early = meka is None && session is None;
            &&& meka is Some ==> reported == meka
            &&& meka is None && session is Some ==> reported == session
            &&& early && bridge is Some ==> reported == bridge
            &&& early && bridge is None && mcp is Some ==> reported == mcp
            &&& early && bridge is None && mcp is None && storage is Some ==> reported == storage
            &&& early && bridge is None && mcp is None && storage is None && channels is Some
                ==> reported == channels
        }),
{
}

/// What is accepted is made field for field of what stands in the file. What the file leaves open is
/// filled in: showing that somebody types lasts as long as a turn may.
pub proof fn a_configuration_is_made_of_its_file(
    file: FileConfig,
    path: Seq<char>,
    around: Surroundings,
    config: Config,
)
    requires
        file::made(file, path, around, config),
    ensures
        ({
            let dir = match paths::path_parent(path) {
                Some(parent) => parent,
                None => "."@,
            };
            &&& file::url_reading(file.meka.base_url@) == Ok::<Seq<char>, Seq<char>>(
                config.meka.base_url@,
            )
            &&& file::table_credential(
                "[meka]"@,
                file.meka.token,
                file.meka.token_file,
                dir,
                around,
            ) == Ok::<SecretView, BridgeErrorView>(config.meka.token@)
            &&& file::stored_at(file.storage.path, "mekabridge.db"@, dir, around) == Ok::<
                Seq<char>,
                BridgeErrorView,
            >(config.storage.path@)
            &&& file::stored_at(file.storage.attachment_dir, "attachments"@, dir, around) == Ok::<
                Seq<char>,
                BridgeErrorView,
            >(config.storage.attachment_dir@)
        }),
        config.meka.connect_timeout == file.meka.connect_timeout,
        config.meka.turn_timeout == file.meka.turn_timeout,
        config.meka.max_retries == file.meka.max_retries,
        config.session.cwd == file.session.cwd,
        config.session.permission == file.session.permission,
        config.session.recreate_on_missing == file.session.recreate_on_missing,
        config.bridge.owner_conversation == file.bridge.owner_conversation,
        config.bridge.max_queue_depth == file.bridge.max_queue_depth,
        config.bridge.batch_max_messages == file.bridge.batch_max_messages,
        config.bridge.settle == file.bridge.settle,
        config.bridge.settle_max == file.bridge.settle_max,
        config.bridge.turn_retries == file.bridge.turn_retries,
        config.bridge.notify_failures == file.bridge.notify_failures,
        config.bridge.typing_indicator == file.bridge.typing_indicator,
        config.bridge.mute_context == file.bridge.mute_context,
        file.bridge.typing_max matches Some(typing_max) ==> config.bridge.typing_max == typing_max,
        file.bridge.typing_max is None ==> config.bridge.typing_max == file.meka.turn_timeout,
        config.bridge.default_policy.direct == file.bridge.default_policy.direct,
        config.bridge.default_policy.group == file.bridge.default_policy.group,
        config.bridge.default_policy.channel == file.bridge.default_policy.channel,
        config.bridge.coalesce_floor.whole() == 1 && config.bridge.coalesce_floor.beyond() == 0,
        config.bridge.retry_base.whole() == 10 && config.bridge.retry_base.beyond() == 0,
        config.mcp.transport == file.mcp.transport,
        config.mcp.bind == file.mcp.bind,
        config.mcp.path == file.mcp.path,
        config.mcp.allowed_hosts == file.mcp.allowed_hosts,
        config.mcp.health == file.mcp.health,
        config.mcp.token is Some <==> file.mcp.token is Some || file.mcp.token_file is Some,
        config.storage.attachment_max_bytes == file.storage.attachment_max_bytes,
        config.storage.attachment_retention == file.storage.attachment_retention,
        config.storage.history_retention == file.storage.history_retention,
        config.log.level == file.log.level,
        config.log.format == file.log.format,
        config.channels@.len() == file.channels.telegram@.len() + file.channels.discord@.len(),
{
}

/// Each Telegram channel is made of its table, in the order of the file.
pub proof fn a_telegram_channel_is_made_of_its_table(
    file: FileConfig,
    path: Seq<char>,
    around: Surroundings,
    config: Config,
    i: int,
)
    requires
        file::made(file, path, around, config),
        0 <= i < file.channels.telegram@.len(),
    ensures
        ({
            let table = file.channels.telegram@[i];
            let channel = config.channels@[i];
            &&& channel.id == table.id
            &&& channel.platform matches PlatformConfig::Telegram(made) && {
                &&& made.allowed_users == table.allowed_users
                &&& made.allowed_chats == table.allowed_chats
                &&& made.allow_all == table.allow_all
                &&& made.admin_tools == table.admin_tools
                &&& made.parse_mode == table.parse_mode
                &&& made.link_preview == table.link_preview
                &&& made.poll_timeout == table.poll_timeout
            }
        }),
{
    assert(file::telegram_made(
        file.channels.telegram@[i],
        config.channels@[i],
        file::anchor(path),
        around,
    ));
}

/// Each Discord channel is made of its table, in the order of the file and behind those of Telegram.
/// Every id in its lists is the number that the table spells.
pub proof fn a_discord_channel_is_made_of_its_table(
    file: FileConfig,
    path: Seq<char>,
    around: Surroundings,
    config: Config,
    i: int,
)
    requires
        file::made(file, path, around, config),
        0 <= i < file.channels.discord@.len(),
    ensures
        ({
            let table = file.channels.discord@[i];
            let channel = config.channels@[file.channels.telegram@.len() + i];
            &&& channel.id == table.id
            &&& channel.platform matches PlatformConfig::Discord(made) && {
                &&& read_as(table.allowed_users@, made.allowed_users@)
                &&& read_as(table.allowed_guilds@, made.allowed_guilds@)
                &&& read_as(table.allowed_channels@, made.allowed_channels@)
                &&& read_as(table.allowed_roles@, made.allowed_roles@)
                &&& made.allow_all == table.allow_all
                &&& made.admin_tools == table.admin_tools
                &&& made.message_content == table.message_content
                &&& made.presence == table.presence
                &&& made.mention_everyone == table.mention_everyone
                &&& made.mention_roles == table.mention_roles
                &&& made.link_preview == table.link_preview
            }
        }),
{
    let at = file.channels.telegram@.len() + i;
    assert(file::discord_made(
        file.channels.discord@[at - file.channels.telegram@.len()],
        config.channels@[at],
        file::anchor(path),
        around,
    ));
}

/// Whether numbers are those that a list spells, one for one.
pub open spec fn read_as(raw: Seq<String>, ids: Seq<u64>) -> bool {
    &&& ids.len() == raw.len()
    &&& forall|i: int|
        0 <= i < ids.len() ==> text::unsigned_in(raw[i]@, u64::MAX as nat) == Some(
            #[trigger] ids[i] as nat,
        )
}

/// A Telegram channel is warned of once for being open to anyone, once for reaching people alone, and
/// once for a token in the open; and each warning names it.
pub proof fn a_telegram_channel_is_warned_of(table: FileTelegram, i: int)
    ensures
        ({
            let warned = file::telegram_warnings(table);
            let label = "[[channels.telegram]] id = "@ + text::debug_quoted(table.id@);
            &&& warned.len() == one(table.allow_all) + one(
                !table.allow_all && table.allowed_users@.len() > 0 && table.allowed_chats@.len() == 0,
            ) + one(table.token matches Some(raw) && secret::reference(raw@) is None)
            &&& 0 <= i < warned.len() ==> text::begins(warned[i], label)
        }),
{
    let label = file::telegram_label(table.id@);
    let warned = file::telegram_warnings(table);
    assert forall|rest: Seq<char>| text::begins(#[trigger] (label + rest), label) by {
        assert((label + rest).take(label.len() as int) =~= label);
    }
}

/// A Discord channel is warned of once for being open to anyone, once for reaching people alone, once
/// for admitting whole servers, once for following who is online, once for not seeing what is said, and
/// once for a token in the open; and each warning names it.
pub proof fn a_discord_channel_is_warned_of(table: FileDiscord, i: int)
    ensures
        ({
            let warned = file::discord_warnings(table);
            let label = "[[channels.discord]] id = "@ + text::debug_quoted(table.id@);
            &&& warned.len() == one(table.allow_all) + one(
                !table.allow_all && table.allowed_users@.len() > 0 && table.allowed_guilds@.len() == 0
                    && table.allowed_channels@.len() == 0 && table.allowed_roles@.len() == 0,
            ) + one(table.allowed_guilds@.len() > 0) + one(table.presence) + one(
                !table.message_content,
            ) + one(table.token matches Some(raw) && secret::reference(raw@) is None)
        }),
{
}

/// A kind of conversation that is blocked by default is warned of, a history that is off, notices that
/// cannot be delivered, and failures that nobody is told of.
pub proof fn what_is_withheld_is_warned_of(file: FileConfig)
    ensures
        file::policy_warnings(file.bridge.default_policy).len() == one(
            file.bridge.default_policy.direct == Policy::Block,
        ) + one(file.bridge.default_policy.group == Policy::Block) + one(
            file.bridge.default_policy.channel == Policy::Block,
        ),
        file::history_warnings(file.storage.history_retention).len() == one(
            file.storage.history_retention.whole() == 0 && file.storage.history_retention.beyond()
                == 0,
        ),
        file::owner_warnings(file.bridge).len() == (match file.bridge.owner_conversation {
            Some(owner) => one(ids::conversation_named(owner@) is None),
            None => one(!file.bridge.notify_failures),
        }),
{
}

/// What a configuration is warned of is what its parts are, all of it.
pub proof fn all_warnings_are_given(file: FileConfig)
    ensures
        file::warnings_of(file).len() == one(
            file.meka.token matches Some(raw) && secret::reference(raw@) is None,
        ) + file::policy_warnings(file.bridge.default_policy).len() + one(
            file.mcp.token matches Some(raw) && secret::reference(raw@) is None,
        ) + file::telegrams_warnings(file.channels.telegram@).len() + file::discords_warnings(
            file.channels.discord@,
        ).len() + file::owner_warnings(file.bridge).len() + file::history_warnings(
            file.storage.history_retention,
        ).len(),
{
}

/// The warnings of a run of channels are those of each, in order.
pub proof fn warnings_of_channels_add_up(
    telegram: Seq<FileTelegram>,
    discord: Seq<FileDiscord>,
    one_telegram: FileTelegram,
    one_discord: FileDiscord,
)
    ensures
        file::telegrams_warnings(telegram.push(one_telegram)) == file::telegrams_warnings(telegram)
            + file::telegram_warnings(one_telegram),
        file::discords_warnings(discord.push(one_discord)) == file::discords_warnings(discord)
            + file::discord_warnings(one_discord),
        file::telegrams_warnings(Seq::empty()).len() == 0,
        file::discords_warnings(Seq::empty()).len() == 0,
{
    assert(telegram.push(one_telegram).drop_last() =~= telegram);
    assert(discord.push(one_discord).drop_last() =~= discord);
}

/// The files that hold tokens are found for every table that names one, and only for those.
pub proof fn every_token_file_is_found(
    token_file: Option<String>,
    dir: Seq<char>,
    home: Option<Seq<char>>,
)
    ensures
        token_file is None ==> file::token_path(token_file, dir, home).len() == 0,
        token_file matches Some(raw) ==> (paths::expanded(raw@, dir, home) matches Ok(path)
            ==> file::token_path(token_file, dir, home) == seq![path]),
        token_file matches Some(raw) ==> (paths::expanded(raw@, dir, home) is Err
            ==> file::token_path(token_file, dir, home).len() == 0),
{
}

/// The token files of a configuration are those of meka, of the endpoint and of every channel.
pub proof fn every_table_is_asked_for_its_token_file(
    file: FileConfig,
    path: Seq<char>,
    home: Option<Seq<char>>,
    i: int,
)
    ensures
        ({
            let all = file::token_paths_of(file, path, home);
            let dir = file::anchor(path);
            let telegram = file.channels.telegram@;
            let discord = file.channels.discord@;
            &&& among(file::token_path(file.meka.token_file, dir, home), all)
            &&& among(file::token_path(file.mcp.token_file, dir, home), all)
            &&& 0 <= i < telegram.len() ==> among(
                file::token_path(telegram[i].token_file, dir, home),
                all,
            )
            &&& 0 <= i < discord.len() ==> among(
                file::token_path(discord[i].token_file, dir, home),
                all,
            )
        }),
{
    let dir = file::anchor(path);
    let a = file::token_path(file.meka.token_file, dir, home);
    let b = file::token_path(file.mcp.token_file, dir, home);
    let c = file::telegram_paths(file.channels.telegram@, dir, home);
    let d = file::discord_paths(file.channels.discord@, dir, home);
    either_part_is_among(a, b);
    either_part_is_among(a + b, c);
    either_part_is_among(a + b + c, d);
    among_is_handed_on(a, a + b, a + b + c);
    among_is_handed_on(a, a + b + c, a + b + c + d);
    among_is_handed_on(b, a + b, a + b + c);
    among_is_handed_on(b, a + b + c, a + b + c + d);
    among_is_handed_on(c, a + b + c, a + b + c + d);
    if 0 <= i < file.channels.telegram@.len() {
        let own = file::token_path(file.channels.telegram@[i].token_file, dir, home);
        telegram_files_are_among(file.channels.telegram@, dir, home, i);
        among_is_handed_on(own, c, a + b + c + d);
    }
    if 0 <= i < file.channels.discord@.len() {
        let own = file::token_path(file.channels.discord@[i].token_file, dir, home);
        discord_files_are_among(file.channels.discord@, dir, home, i);
        among_is_handed_on(own, d, a + b + c + d);
    }
}

/// Whether every text of one list is in another.
pub open spec fn among(some: Seq<Seq<char>>, all: Seq<Seq<char>>) -> bool {
    forall|j: int| 0 <= j < some.len() ==> all.contains(#[trigger] some[j])
}

proof fn either_part_is_among(left: Seq<Seq<char>>, right: Seq<Seq<char>>)
    ensures
        among(left, left + right),
        among(right, left + right),
{
    assert forall|j: int| 0 <= j < left.len() implies (left + right).contains(
        #[trigger] left[j],
    ) by {
        assert((left + right)[j] == left[j]);
    }
    assert forall|j: int| 0 <= j < right.len() implies (left + right).contains(
        #[trigger] right[j],
    ) by {
        assert((left + right)[left.len() + j] == right[j]);
    }
}

proof fn among_is_handed_on(few: Seq<Seq<char>>, some: Seq<Seq<char>>, all: Seq<Seq<char>>)
    requires
        among(few, some),
        among(some, all),
    ensures
        among(few, all),
{
    assert forall|j: int| 0 <= j < few.len() implies all.contains(#[trigger] few[j]) by {
        let k = choose|k: int| 0 <= k < some.len() && some[k] == few[j];
        assert(all.contains(some[k]));
    }
}

proof fn telegram_files_are_among(
    tables: Seq<FileTelegram>,
    dir: Seq<char>,
    home: Option<Seq<char>>,
    i: int,
)
    requires
        0 <= i < tables.len(),
    ensures
        among(
            file::token_path(tables[i].token_file, dir, home),
            file::telegram_paths(tables, dir, home),
        ),
    decreases tables.len(),
{
    let before = file::telegram_paths(tables.drop_last(), dir, home);
    let last = file::token_path(tables.last().token_file, dir, home);
    either_part_is_among(before, last);
    if i < tables.len() - 1 {
        telegram_files_are_among(tables.drop_last(), dir, home, i);
        among_is_handed_on(
            file::token_path(tables[i].token_file, dir, home),
            before,
            before + last,
        );
    }
}

proof fn discord_files_are_among(
    tables: Seq<FileDiscord>,
    dir: Seq<char>,
    home: Option<Seq<char>>,
    i: int,
)
    requires
        0 <= i < tables.len(),
    ensures
        among(
            file::token_path(tables[i].token_file, dir, home),
            file::discord_paths(tables, dir, home),
        ),
    decreases tables.len(),
{
    let before = file::discord_paths(tables.drop_last(), dir, home);
    let last = file::token_path(tables.last().token_file, dir, home);
    either_part_is_among(before, last);
    if i < tables.len() - 1 {
        discord_files_are_among(tables.drop_last(), dir, home, i);
        among_is_handed_on(
            file::token_path(tables[i].token_file, dir, home),
            before,
            before + last,
        );
    }
}

/// The levels go by the words that meka knows them by.
pub proof fn levels_go_by_their_words()
    ensures
        crate::config::permission_name(Permission::NoAccess) == "none"@,
        crate::config::permission_name(Permission::Read) == "read"@,
        crate::config::permission_name(Permission::Workspace) == "workspace"@,
        crate::config::permission_name(Permission::Ask) == "ask"@,
        crate::config::permission_name(Permission::Unrestricted) == "unrestricted"@,
{
}

/// A path from the file is kept where it is absolute. One that starts at home is taken from there, and
/// any other from the directory of the file.
pub proof fn a_path_starts_where_the_file_stands(
    raw: Seq<char>,
    dir: Seq<char>,
    home: Option<Seq<char>>,
)
    ensures
        ({
            let found = paths::expanded(raw, dir, home);
            let tilde = paths::path_under(raw, "~"@);
            &&& tilde is None && paths::path_is_absolute(raw) ==> found == Ok::<
                Seq<char>,
                BridgeErrorView,
            >(raw)
            &&& tilde is None && !paths::path_is_absolute(raw) && paths::path_under(
                paths::path_joined(dir, raw),
                "./"@,
            ) is None ==> found == Ok::<Seq<char>, BridgeErrorView>(paths::path_joined(dir, raw))
            &&& tilde is Some && home is None ==> found is Err
            &&& tilde matches Some(rest) ==> (home matches Some(home) ==> (paths::path_is_absolute(
                paths::path_joined(home, rest),
            ) ==> found == Ok::<Seq<char>, BridgeErrorView>(paths::path_joined(home, rest))))
            &&& found is Err <==> tilde is Some && home is None
        }),
{
}

/// A table that sets nothing has these values: a queue of two hundred and fifty-six, batches of
/// thirty-two, a quiet period of three seconds with a ceiling of thirty, three retries, notices and
/// typing on, five messages looked back on; people are heard, and groups and channels are muted.
pub proof fn an_empty_table_has_these_values(table: FileBridge)
    requires
        crate::config::defaults::stock_bridge(table),
    ensures
        table.owner_conversation is None,
        table.max_queue_depth == 256,
        table.batch_max_messages == 32,
        table.settle.whole() == 3 && table.settle.beyond() == 0,
        table.settle_max.whole() == 30 && table.settle_max.beyond() == 0,
        table.turn_retries == 3,
        table.notify_failures,
        table.typing_indicator,
        table.typing_max is None,
        table.mute_context == 5,
        table.default_policy.direct == Policy::Active,
        table.default_policy.group == Policy::Mute,
        table.default_policy.channel == Policy::Mute,
{
}

/// The configuration stands in a directory of the bridge's own under that of the platform.
pub proof fn the_file_stands_in_its_own_directory(base: Seq<char>)
    ensures
        crate::config::config_file(base) == paths::path_joined(
            paths::path_joined(base, "mekabridge"@),
            "config.toml"@,
        ),
{
}

} // verus!
