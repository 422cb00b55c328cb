//! What is said of the members of a server and done to them, stated of what Discord says of them.

use vstd::prelude::*;

use crate::channel::discord::cache::{self, ChannelType};
use crate::channel::discord::members::{self, Member, Moderation, Overwrite, RoleGrant};
use crate::channel::discord::DiscordChannel;
use crate::channel::{ChannelErrorView, MemberAction, MemberStatus};
use crate::text;
use crate::time::Instant;

verus! {

/// Permissions carry every other exactly where their fourth bit is set.
pub proof fn an_administrator_has_the_fourth_bit(permissions: u64)
    ensures
        members::administers(permissions) <==> (permissions / 8) % 2 == 1,
{
    assert(permissions & 8 != 0 <==> (permissions / 8) % 2 == 1) by (bit_vector);
}

/// The roles that make an administrator are those with the bit, in the order of the list.
pub proof fn the_administering_roles_have_the_bit(roles: Seq<RoleGrant>)
    ensures
        members::admin_roles_of(roles) == roles.filter(
            |role: RoleGrant| (role.permissions / 8) % 2 == 1,
        ).map_values(|role: RoleGrant| role.id),
    decreases roles.len(),
{
    reveal(Seq::filter);
    let has_bit = |role: RoleGrant| (role.permissions / 8) % 2 == 1;
    let id = |role: RoleGrant| role.id;
    if roles.len() > 0 {
        the_administering_roles_have_the_bit(roles.drop_last());
        an_administrator_has_the_fourth_bit(roles.last().permissions);
        assert(roles.filter(has_bit).map_values(id) =~= members::admin_roles_of(roles));
    } else {
        assert(roles.filter(has_bit).map_values(id) =~= members::admin_roles_of(roles));
    }
}

/// A timeout restricts exactly as long as it lies ahead, to its very microsecond.
pub proof fn a_timeout_restricts_while_it_lies_ahead(ends: Option<i64>, now: Instant)
    requires
        ends matches Some(micros) ==> crate::time::FIRST_SECOND <= micros as int / 1_000_000
            <= crate::time::LAST_SECOND,
    ensures
        ends is None ==> members::restricted_until(ends, now) is None,
        ends matches Some(micros) ==> (micros * 1_000 <= now ==> members::restricted_until(ends, now)
            is None) && (micros * 1_000 > now ==> (members::restricted_until(
            ends,
            now,
        ) matches Some(until) && until == micros * 1_000)),
{
}

/// A member is the owner by their id alone, otherwise an administrator where they are one, otherwise
/// restricted while a timeout runs, and otherwise a member.
pub proof fn the_highest_standing_is_said(
    channel: DiscordChannel,
    guild_id: u64,
    member: Member,
    owner_id: u64,
    administrator: bool,
    now: Instant,
)
    ensures
        ({
            let info = members::member_info(
                channel,
                guild_id,
                member,
                owner_id,
                administrator,
                now,
            );
            let restricted = members::restricted_until(member.communication_disabled_until, now);
            &&& text::unsigned_in(info.user_id, u64::MAX as nat) == Some(member.user_id as nat)
            &&& (info.status == MemberStatus::Owner) <==> member.user_id == owner_id
            &&& (info.status == MemberStatus::Administrator) <==> member.user_id != owner_id
                && administrator
            &&& (info.status == MemberStatus::Restricted) <==> member.user_id != owner_id
                && !administrator && restricted is Some
            &&& (info.status == MemberStatus::Member) <==> member.user_id != owner_id
                && !administrator && restricted is None
            &&& info.restricted_until == restricted
            &&& info.rights.len() == 0
            &&& info.roles == cache::role_names(channel.names@, guild_id, member.roles@)
            &&& info.presence is Some <==> channel.presence
            &&& member.nick matches Some(nick) ==> info.display_name == Some(nick@)
            &&& member.nick is None ==> (member.global_name matches Some(name) ==> info.display_name
                == Some(name@))
            &&& member.nick is None && member.global_name is None ==> info.display_name == Some(
                member.user_name@,
            )
        }),
{
    text::a_number_survives_its_text_form(member.user_id as nat, u64::MAX as nat);
}

/// Somebody who is not there was banned or left, and nothing else is known of them.
pub proof fn whoever_is_gone_was_banned_or_left(user_id: u64, banned: bool)
    ensures
        ({
            let info = members::absent_member(user_id, banned);
            &&& text::unsigned_in(info.user_id, u64::MAX as nat) == Some(user_id as nat)
            &&& (info.status == MemberStatus::Banned) <==> banned
            &&& (info.status == MemberStatus::Left) <==> !banned
            &&& info.display_name is None && info.restricted_until is None && info.presence is None
            &&& info.rights.len() == 0 && info.roles.len() == 0
        }),
{
    text::a_number_survives_its_text_form(user_id as nat, u64::MAX as nat);
}

/// What everybody may do is what the role with the server's own id permits, and nothing where there is
/// no such role.
pub proof fn everybody_holds_the_role_of_the_server(guild_id: u64, roles: Seq<RoleGrant>, i: int)
    ensures
        (forall|j: int| 0 <= j < roles.len() ==> (#[trigger] roles[j]).id != guild_id)
            ==> members::everyone_permissions(guild_id, roles) == 0,
        0 <= i < roles.len() && roles[i].id == guild_id && (forall|j: int|
            0 <= j < i ==> (#[trigger] roles[j]).id != guild_id) ==> members::everyone_permissions(
            guild_id,
            roles,
        ) == roles[i].permissions,
    decreases roles.len(),
{
    if roles.len() > 0 {
        let rest = roles.skip(1);
        if forall|j: int| 0 <= j < roles.len() ==> (#[trigger] roles[j]).id != guild_id {
            assert forall|j: int| 0 <= j < rest.len() implies (#[trigger] rest[j]).id != guild_id by {
                assert(roles[j + 1].id != guild_id);
            }
            assert(roles[0].id != guild_id);
            everybody_holds_the_role_of_the_server(guild_id, rest, -1);
        } else if 0 < i < roles.len() && roles[i].id == guild_id && (forall|j: int|
            0 <= j < i ==> (#[trigger] roles[j]).id != guild_id) {
            assert forall|j: int| 0 <= j < i - 1 implies (#[trigger] rest[j]).id != guild_id by {
                assert(roles[j + 1].id != guild_id);
            }
            assert(roles[0].id != guild_id);
            everybody_holds_the_role_of_the_server(guild_id, rest, i - 1);
        }
    }
}

/// The roles that count for a member are those of the server that they hold, each with what it
/// permits, in the order of the server's list.
pub proof fn only_held_roles_count(roles: Seq<RoleGrant>, held: Seq<u64>)
    ensures
        members::held_roles(roles, held) == roles.filter(
            |role: RoleGrant| held.contains(role.id),
        ).map_values(|role: RoleGrant| (role.id, role.permissions)),
    decreases roles.len(),
{
    reveal(Seq::filter);
    let holds = |role: RoleGrant| held.contains(role.id);
    let grant = |role: RoleGrant| (role.id, role.permissions);
    if roles.len() > 0 {
        only_held_roles_count(roles.drop_last(), held);
    }
    assert(roles.filter(holds).map_values(grant) =~= members::held_roles(roles, held));
}

/// Two lists of ids have one in common exactly where one id is in both.
pub proof fn sharing_is_mutual(left: Seq<u64>, right: Seq<u64>)
    ensures
        members::share_one(left, right) <==> exists|id: u64|
            #![trigger left.contains(id)]
            left.contains(id) && right.contains(id),
        members::share_one(left, right) == members::share_one(right, left),
{
    if members::share_one(left, right) {
        let i = choose|i: int| 0 <= i < left.len() && right.contains(#[trigger] left[i]);
        assert(left.contains(left[i]));
        let j = choose|j: int| 0 <= j < right.len() && right[j] == left[i];
        assert(left.contains(right[j]));
    }
    if members::share_one(right, left) {
        let i = choose|i: int| 0 <= i < right.len() && left.contains(#[trigger] right[i]);
        let j = choose|j: int| 0 <= j < left.len() && left[j] == right[i];
        assert(right.contains(left[j]));
    }
    if exists|id: u64| #![trigger left.contains(id)] left.contains(id) && right.contains(id) {
        let id = choose|id: u64| #![trigger left.contains(id)] left.contains(id) && right.contains(id);
        let i = choose|i: int| 0 <= i < left.len() && left[i] == id;
        assert(right.contains(left[i]));
    }
}

/// The overwrites of a channel are handed on number for number.
pub proof fn overwrites_are_handed_on(overwrites: Seq<Overwrite>, i: int)
    requires
        0 <= i < overwrites.len(),
    ensures
        members::overwrite_numbers(overwrites).len() == overwrites.len(),
        members::overwrite_numbers(overwrites)[i].0 == overwrites[i].id,
        members::overwrite_numbers(overwrites)[i].1 == overwrites[i].kind,
        members::overwrite_numbers(overwrites)[i].2 == overwrites[i].allow,
        members::overwrite_numbers(overwrites)[i].3 == overwrites[i].deny,
{
}

/// Every known type of channel has a number of its own, and one that is not known keeps the number it
/// came with.
pub proof fn types_of_channels_are_told_apart(left: ChannelType, right: ChannelType, number: u8)
    ensures
        members::kind_number(ChannelType::Other(number)) == number,
        !(left is Other) && !(right is Other) && left != right ==> members::kind_number(left)
            != members::kind_number(right),
        members::kind_number(ChannelType::GuildText) == 0,
        members::kind_number(ChannelType::Private) == 1,
        cache::threaded(left) && !(left is Other) <==> 10 <= members::kind_number(left) <= 12
            && !(left is Other),
{
}

/// A restriction is put on with the second at which it ends, for at most twenty-eight days, and only
/// with an end. Nothing but a restriction is restricted.
pub proof fn a_restriction_ends_when_it_was_asked_to(
    id: Seq<char>,
    action: MemberAction,
    until: Option<Instant>,
    revoke: bool,
    now: Instant,
)
    requires
        until matches Some(until) ==> crate::time::datable(until as int),
    ensures
        ({
            let done = members::moderated(id, action, until, revoke, now);
            &&& (action == MemberAction::Restrict && until is None) ==> done is Err
            &&& action == MemberAction::Restrict ==> (until matches Some(until) ==> {
                let lasts = until - now <= 28 * 24 * 60 * 60 * 1_000_000_000;
                let dated = -377_705_116_800 <= until as int / 1_000_000_000 <= 253_402_300_799;
                &&& done is Ok <==> lasts && dated
                &&& lasts && dated ==> (done matches Ok(Moderation::Restrict { until: second })
                    && second * 1_000_000_000 <= until < (second + 1) * 1_000_000_000)
            })
            &&& done matches Ok(Moderation::Restrict { .. }) ==> action == MemberAction::Restrict
        }),
{
}

/// A ban never ends, so one that is to end is refused; it takes the messages of the last seven days
/// with it exactly where that was asked for.
pub proof fn a_ban_takes_messages_where_it_was_asked_to(
    id: Seq<char>,
    until: Option<Instant>,
    revoke: bool,
    now: Instant,
)
    ensures
        ({
            let done = members::moderated(id, MemberAction::Ban, until, revoke, now);
            &&& until is Some ==> (done matches Err(ChannelErrorView::Delivery { channel, .. })
                && channel == id)
            &&& until is None && revoke ==> done == Ok::<Moderation, ChannelErrorView>(
                Moderation::Ban { delete_seconds: Some((7 * 24 * 60 * 60) as u32) },
            )
            &&& until is None && !revoke ==> done == Ok::<Moderation, ChannelErrorView>(
                Moderation::Ban { delete_seconds: None },
            )
        }),
{
}

/// Lifting a restriction, lifting a ban and throwing somebody out are done whatever else was given.
pub proof fn what_needs_nothing_is_done(
    id: Seq<char>,
    until: Option<Instant>,
    revoke: bool,
    now: Instant,
)
    ensures
        members::moderated(id, MemberAction::Unrestrict, until, revoke, now) == Ok::<
            Moderation,
            ChannelErrorView,
        >(Moderation::Unrestrict),
        members::moderated(id, MemberAction::Unban, until, revoke, now) == Ok::<
            Moderation,
            ChannelErrorView,
        >(Moderation::Unban),
        members::moderated(id, MemberAction::Kick, until, revoke, now) == Ok::<
            Moderation,
            ChannelErrorView,
        >(Moderation::Kick),
{
}

/// Each role that was asked for by name is given by an id that goes by that name, whatever the size of
/// its letters, at the same place in the list.
pub proof fn roles_are_given_by_their_names(
    known: cache::NamesView,
    guild_id: u64,
    names: Seq<Seq<char>>,
    ids: Seq<u64>,
    i: int,
)
    requires
        members::roles_resolved(known, guild_id, names, ids),
        0 <= i < names.len(),
    ensures
        ids.len() == names.len(),
        known.guilds.contains_key(guild_id),
        known.guilds[guild_id].roles.contains_key(ids[i]),
        known.guilds[guild_id].roles[ids[i]].len() == names[i].len(),
        forall|k: int|
            0 <= k < names[i].len() ==> text::folded(#[trigger] names[i][k]) == text::folded(
                known.guilds[guild_id].roles[ids[i]][k],
            ),
{
    assert(cache::goes_by(known, guild_id, ids[i], names[i]));
}

/// A role that is not there is named in the refusal, with those that are.
pub proof fn a_missing_role_is_named(id: Seq<char>, name: Seq<char>, catalogue: Seq<Seq<char>>)
    ensures
        ({
            let missing = "this server has no role called "@ + text::debug_quoted(name);
            members::role_refusal(id, name, catalogue) matches ChannelErrorView::Delivery {
                channel,
                message,
            } && channel == id && (catalogue.len() == 0 ==> message == missing) && (catalogue.len()
                > 0 ==> message == missing + "; it has "@ + text::joined(catalogue, ", "@))
        }),
{
}

/// A page has as many members as were asked for, but at least one and at most a thousand.
pub proof fn a_page_stays_in_its_bounds(limit: usize)
    ensures
        1 <= members::page_size(limit) <= 1000,
        1 <= limit <= 1000 ==> members::page_size(limit) == limit,
        limit == 0 ==> members::page_size(limit) == 1,
        limit > 1000 ==> members::page_size(limit) == 1000,
{
}

/// A full page goes on behind the highest id on it, and one that is not full is the last.
pub proof fn a_full_page_goes_on_behind_its_highest(page: Seq<Member>, limit: u16, i: int)
    ensures
        page.len() == 0 || page.len() != limit ==> members::next_page(page, limit) is None,
        page.len() > 0 && page.len() == limit ==> (members::next_page(page, limit) matches Some(next)
            && exists|j: int|
            0 <= j < page.len() && text::unsigned_in(next, u64::MAX as nat) == Some(
                (#[trigger] page[j]).user_id as nat,
            )),
        page.len() > 0 && page.len() == limit && 0 <= i < page.len() ==> (members::next_page(
            page,
            limit,
        ) matches Some(next) && (text::unsigned_in(next, u64::MAX as nat) matches Some(last)
            && page[i].user_id <= last)),
{
    if page.len() > 0 && page.len() == limit {
        the_highest_is_one_of_them(page);
        text::a_number_survives_its_text_form(members::highest(page) as nat, u64::MAX as nat);
        let j = choose|j: int|
            0 <= j < page.len() && (#[trigger] page[j]).user_id == members::highest(page);
        assert(page[j].user_id == members::highest(page));
        if 0 <= i < page.len() {
            assert(page[i].user_id <= members::highest(page));
        }
    }
}

proof fn the_highest_is_one_of_them(page: Seq<Member>)
    ensures
        page.len() > 0 ==> exists|j: int|
            0 <= j < page.len() && (#[trigger] page[j]).user_id == members::highest(page),
        forall|j: int| 0 <= j < page.len() ==> (#[trigger] page[j]).user_id <= members::highest(page),
    decreases page.len(),
{
    if page.len() > 0 {
        let before = page.drop_last();
        the_highest_is_one_of_them(before);
        assert forall|j: int| 0 <= j < page.len() implies (#[trigger] page[j]).user_id
            <= members::highest(page) by {
            if j < before.len() {
                assert(before[j] == page[j]);
            }
        }
        if page.last().user_id > members::highest(before) || before.len() == 0 {
            assert(page[page.len() - 1].user_id == members::highest(page));
        } else {
            let j = choose|j: int|
                0 <= j < before.len() && (#[trigger] before[j]).user_id == members::highest(before);
            assert(page[j].user_id == members::highest(page));
        }
    }
}

} // verus!
