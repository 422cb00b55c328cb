//! Who is in a server, and what may be done to them.

use vstd::prelude::*;
use vstd::string::*;

use crate::channel::discord::cache::{self, ChannelType};
use crate::channel::discord::DiscordChannel;
use crate::channel::{
    ChannelError, ChannelErrorView, ChatKind, MemberAction, MemberCoverage, MemberInfo,
    MemberListing, MemberStatus, MemberView, Presence,
};
use crate::text;
use crate::time::{instant_of_micros, Instant};

pub mod laws;

verus! {

/// Most members Discord will return from one listing or search call.
pub const MAX_MEMBER_PAGE: usize = 1000;

/// Discord's ceiling on a timeout, which it enforces and will not round for you: 28 days, in
/// nanoseconds.
pub const MAX_TIMEOUT: i128 = 2_419_200_000_000_000;

/// Longest history a ban may delete, in seconds.
pub const MAX_BAN_DELETE_SECONDS: u32 = 604_800;

/// The permission that carries every other.
pub const ADMINISTRATOR: u64 = 8;

/// A member of a server, as Discord describes them.
#[derive(Debug)]
pub struct Member {
    pub user_id: u64,
    pub user_name: String,
    pub global_name: Option<String>,
    pub nick: Option<String>,
    pub roles: Vec<u64>,
    /// When a timeout ends, in microseconds since 1970.
    pub communication_disabled_until: Option<i64>,
}

/// A role, and what it permits.
#[derive(Debug, Clone, Copy)]
pub struct RoleGrant {
    pub id: u64,
    pub permissions: u64,
}

/// What a channel permits or forbids beyond the roles.
#[derive(Debug, Clone, Copy)]
pub struct Overwrite {
    pub id: u64,
    /// Whether it is about a role (0) or a member (1).
    pub kind: u8,
    pub allow: u64,
    pub deny: u64,
}

/// Server-wide facts needed to place every member of a page, fetched once per listing.
#[derive(Debug)]
pub struct ServerStanding {
    pub owner_id: u64,
    /// Discord's own estimate of the server's size, which it will give even where it will not give
    /// the roster.
    pub total: Option<u64>,
    pub admin_roles: Vec<u64>,
}

/// Whether a set of permissions carries every other.
pub open spec fn administers(permissions: u64) -> bool {
    permissions & ADMINISTRATOR != 0
}

/// Whether a set of permissions carries every other.
pub fn is_administrator(permissions: u64) -> (found: bool)
    ensures
        found == administers(permissions),
{
    permissions & ADMINISTRATOR != 0
}

/// The roles that carry every permission, in order.
pub open spec fn admin_roles_of(roles: Seq<RoleGrant>) -> Seq<u64>
    decreases roles.len(),
{
    if roles.len() == 0 {
        Seq::empty()
    } else {
        let before = admin_roles_of(roles.drop_last());
        if administers(roles.last().permissions) {
            before.push(roles.last().id)
        } else {
            before
        }
    }
}

impl ServerStanding {
    /// The standing of a server, from its owner, its size and its roles.
    ///
    /// Deriving status per member from a full permission calculation would be a round trip each,
    /// which for a thousand-member page is not worth doing to fill in one field. The owner and the
    /// roles that carry every permission answer it from two calls for the whole page.
    pub fn new(owner_id: u64, total: Option<u64>, roles: &Vec<RoleGrant>) -> (standing:
        ServerStanding)
        ensures
            standing.owner_id == owner_id,
            standing.total == total,
            standing.admin_roles@ == admin_roles_of(roles@),
    {
        let mut admin_roles: Vec<u64> = Vec::new();
        let mut i: usize = 0;
        assert(roles@.take(0) =~= Seq::empty());
        while i < roles.len()
            invariant
                i <= roles.len(),
                admin_roles@ == admin_roles_of(roles@.take(i as int)),
            decreases roles.len() - i,
        {
            assert(roles@.take(i + 1).drop_last() =~= roles@.take(i as int));
            if is_administrator(roles[i].permissions) {
                admin_roles.push(roles[i].id);
            }
            i += 1;
        }
        assert(roles@.take(i as int) =~= roles@);
        ServerStanding { owner_id, total, admin_roles }
    }
}

/// When a timeout ends, where it has not ended yet.
pub open spec fn restricted_until(ends: Option<i64>, now: Instant) -> Option<Instant> {
    match ends {
        Some(micros) => match crate::time::moment_of_micros(micros) {
            Some(at) if at > now => Some(at as Instant),
            _ => None,
        },
        None => None,
    }
}

fn still_restricted(ends: Option<i64>, now: Instant) -> (until: Option<Instant>)
    ensures
        until == restricted_until(ends, now),
{
    match ends {
        Some(micros) => match instant_of_micros(micros) {
            Some(at) if at > now => Some(at),
            _ => None,
        },
        None => None,
    }
}

/// Whether two lists of ids have one in common.
pub open spec fn share_one(left: Seq<u64>, right: Seq<u64>) -> bool {
    exists|i: int| 0 <= i < left.len() && right.contains(#[trigger] left[i])
}

/// What somebody is in a server.
pub open spec fn standing_of(
    user_id: u64,
    owner_id: u64,
    administrator: bool,
    restricted: bool,
) -> MemberStatus {
    if user_id == owner_id {
        MemberStatus::Owner
    } else if administrator {
        MemberStatus::Administrator
    } else if restricted {
        MemberStatus::Restricted
    } else {
        MemberStatus::Member
    }
}

/// What somebody is in a server.
fn status_of(user_id: u64, owner_id: u64, administrator: bool, restricted: bool) -> (status:
    MemberStatus)
    ensures
        status == standing_of(user_id, owner_id, administrator, restricted),
{
    if user_id == owner_id {
        MemberStatus::Owner
    } else if administrator {
        MemberStatus::Administrator
    } else if restricted {
        MemberStatus::Restricted
    } else {
        MemberStatus::Member
    }
}

fn has_id(ids: &Vec<u64>, id: u64) -> (found: bool)
    ensures
        found == ids@.contains(id),
{
    let mut i: usize = 0;
    while i < ids.len()
        invariant
            i <= ids.len(),
            forall|j: int| 0 <= j < i ==> ids@[j] != id,
        decreases ids.len() - i,
    {
        if ids[i] == id {
            return true;
        }
        i += 1;
    }
    false
}

fn share_any(left: &Vec<u64>, right: &Vec<u64>) -> (found: bool)
    ensures
        found == share_one(left@, right@),
{
    let mut i: usize = 0;
    while i < left.len()
        invariant
            i <= left.len(),
            forall|j: int| 0 <= j < i ==> !right@.contains(#[trigger] left@[j]),
        decreases left.len() - i,
    {
        if has_id(right, left[i]) {
            assert(right@.contains(left@[i as int]));
            return true;
        }
        i += 1;
    }
    false
}

/// The name a member goes by in a server.
pub open spec fn member_name(member: Member) -> Seq<char> {
    text::either(
        member.nick.deep_view(),
        text::either(member.global_name.deep_view(), member.user_name@),
    )
}

/// Somebody's availability, or nothing at all when the operator has not switched presence on.
pub open spec fn availability(channel: DiscordChannel, guild_id: u64, user: u64) -> Option<
    Presence,
> {
    if channel.presence {
        Some(crate::channel::discord::presence::known(channel.presences@, guild_id, user))
    } else {
        None
    }
}

/// A member, in the platform-neutral shape.
pub open spec fn member_info(
    channel: DiscordChannel,
    guild_id: u64,
    member: Member,
    owner_id: u64,
    administrator: bool,
    now: Instant,
) -> MemberView {
    let until = restricted_until(member.communication_disabled_until, now);
    MemberView {
        user_id: text::decimal(member.user_id as nat),
        display_name: Some(member_name(member)),
        status: standing_of(member.user_id, owner_id, administrator, until is Some),
        rights: Seq::empty(),
        roles: cache::role_names(channel.names@, guild_id, member.roles@),
        restricted_until: until,
        presence: availability(channel, guild_id, member.user_id),
    }
}

/// Somebody who is not in the server: whether they were thrown out or simply left.
pub open spec fn absent_member(user_id: u64, banned: bool) -> MemberView {
    MemberView {
        user_id: text::decimal(user_id as nat),
        display_name: None,
        status: if banned {
            MemberStatus::Banned
        } else {
            MemberStatus::Left
        },
        rights: Seq::empty(),
        roles: Seq::empty(),
        restricted_until: None,
        presence: None,
    }
}

/// The permissions of the role that everybody holds, which has the server's own id.
pub open spec fn everyone_permissions(guild_id: u64, roles: Seq<RoleGrant>) -> u64
    decreases roles.len(),
{
    if roles.len() == 0 {
        0
    } else if roles[0].id == guild_id {
        roles[0].permissions
    } else {
        everyone_permissions(guild_id, roles.skip(1))
    }
}

/// The roles that a member holds, with what each permits, in the order of the server's list.
pub open spec fn held_roles(roles: Seq<RoleGrant>, member_roles: Seq<u64>) -> Seq<(u64, u64)>
    decreases roles.len(),
{
    if roles.len() == 0 {
        Seq::empty()
    } else {
        let before = held_roles(roles.drop_last(), member_roles);
        if member_roles.contains(roles.last().id) {
            before.push((roles.last().id, roles.last().permissions))
        } else {
            before
        }
    }
}

/// What `twilight_util`'s `PermissionCalculator` allows a member in a channel: of the server, the
/// member, the permissions of everybody, the roles held, the type of the channel, and its
/// overwrites as id, kind, allowed and denied permissions.
pub uninterp spec fn calculated_permissions(
    guild_id: u64,
    user_id: u64,
    everyone: u64,
    held: Seq<(u64, u64)>,
    channel_kind: u8,
    overwrites: Seq<(u64, u8, u64, u64)>,
) -> u64;

/// `twilight_util`'s `PermissionCalculator`: the permissions of `new` with these roles, taken by
/// `in_channel` to a channel of this type with these overwrites. The result depends on the arguments
/// alone. An id of zero is no id, so there is none among them.
#[verifier::external_body]
fn calculate(
    guild_id: u64,
    user_id: u64,
    everyone: u64,
    held: &Vec<(u64, u64)>,
    channel_kind: u8,
    overwrites: &Vec<(u64, u8, u64, u64)>,
) -> (permissions: u64)
    requires
        guild_id != 0,
        user_id != 0,
        forall|i: int| 0 <= i < held@.len() ==> (#[trigger] held@[i]).0 != 0,
        forall|i: int| 0 <= i < overwrites@.len() ==> (#[trigger] overwrites@[i]).0 != 0,
    ensures
        permissions == calculated_permissions(
            guild_id,
            user_id,
            everyone,
            held@,
            channel_kind,
            overwrites@,
        ),
{
    let bits = twilight_model::guild::Permissions::from_bits_retain;
    let held: Vec<_> =
        held.iter().map(|held| (twilight_model::id::Id::new(held.0), bits(held.1))).collect();
    let overwrites: Vec<_> = overwrites.iter().map(|overwrite|
        twilight_model::channel::permission_overwrite::PermissionOverwrite {
            id: twilight_model::id::Id::new(overwrite.0), kind: overwrite.1.into(),
            allow: bits(overwrite.2), deny: bits(overwrite.3),
        }).collect();
    twilight_util::permission_calculator::PermissionCalculator::new(
        twilight_model::id::Id::new(guild_id), twilight_model::id::Id::new(user_id),
        bits(everyone), &held,
    ).in_channel(channel_kind.into(), &overwrites).bits()
}

/// The number that Discord gives a type of channel.
pub open spec fn kind_number(kind: ChannelType) -> u8 {
    match kind {
        ChannelType::GuildText => 0,
        ChannelType::Private => 1,
        ChannelType::GuildVoice => 2,
        ChannelType::Group => 3,
        ChannelType::GuildCategory => 4,
        ChannelType::GuildAnnouncement => 5,
        ChannelType::AnnouncementThread => 10,
        ChannelType::PublicThread => 11,
        ChannelType::PrivateThread => 12,
        ChannelType::GuildStageVoice => 13,
        ChannelType::GuildDirectory => 14,
        ChannelType::GuildForum => 15,
        ChannelType::GuildMedia => 16,
        ChannelType::Other(number) => number,
    }
}

/// The number that Discord gives a type of channel.
pub fn number_of_kind(kind: ChannelType) -> (number: u8)
    ensures
        number == kind_number(kind),
{
    match kind {
        ChannelType::GuildText => 0,
        ChannelType::Private => 1,
        ChannelType::GuildVoice => 2,
        ChannelType::Group => 3,
        ChannelType::GuildCategory => 4,
        ChannelType::GuildAnnouncement => 5,
        ChannelType::AnnouncementThread => 10,
        ChannelType::PublicThread => 11,
        ChannelType::PrivateThread => 12,
        ChannelType::GuildStageVoice => 13,
        ChannelType::GuildDirectory => 14,
        ChannelType::GuildForum => 15,
        ChannelType::GuildMedia => 16,
        ChannelType::Other(number) => number,
    }
}

/// The overwrites of a channel as plain numbers.
pub open spec fn overwrite_numbers(overwrites: Seq<Overwrite>) -> Seq<(u64, u8, u64, u64)> {
    overwrites.map_values(
        |overwrite: Overwrite| (overwrite.id, overwrite.kind, overwrite.allow, overwrite.deny),
    )
}

/// Whether no id is zero, which no id that Discord hands out is.
pub open spec fn real_ids(roles: Seq<RoleGrant>, overwrites: Seq<Overwrite>) -> bool {
    &&& forall|i: int| 0 <= i < roles.len() ==> (#[trigger] roles[i]).id != 0
    &&& forall|i: int| 0 <= i < overwrites.len() ==> (#[trigger] overwrites[i]).id != 0
}

/// Where the overwrites that apply in a channel are found.
#[derive(Debug)]
pub enum Overwrites {
    Known(Vec<Overwrite>),
    /// Those of another channel apply.
    Of(u64),
}

/// Where the overwrites that apply in a channel are found.
///
/// A thread carries no overwrites of its own and inherits the channel it hangs off, so asking about
/// a thread means asking about its parent. Without this the permissions would be worked out from no
/// overwrites at all, and come out as ones that nobody has there.
pub fn applicable_overwrites(own: Option<Vec<Overwrite>>, parent: Option<u64>) -> (found: Overwrites)
    ensures
        match (own, parent) {
            (Some(own), _) => found == Overwrites::Known(own),
            (None, Some(parent)) => found == Overwrites::Of(parent),
            (None, None) => found matches Overwrites::Known(none) && none@.len() == 0,
        },
{
    match own {
        Some(own) => Overwrites::Known(own),
        None => match parent {
            Some(parent) => Overwrites::Of(parent),
            None => Overwrites::Known(Vec::new()),
        },
    }
}

/// What somebody may do in one channel.
///
/// Computed rather than guessed, because Discord applies role permissions and then per-channel
/// overwrites, so holding a permission in a server says nothing about holding it in a given room.
pub fn permissions_in(
    guild_id: u64,
    user_id: u64,
    roles: &Vec<RoleGrant>,
    member_roles: &Vec<u64>,
    kind: ChannelType,
    overwrites: &Vec<Overwrite>,
) -> (permissions: u64)
    requires
        guild_id != 0,
        user_id != 0,
        real_ids(roles@, overwrites@),
    ensures
        permissions == calculated_permissions(
            guild_id,
            user_id,
            everyone_permissions(guild_id, roles@),
            held_roles(roles@, member_roles@),
            kind_number(kind),
            overwrite_numbers(overwrites@),
        ),
{
    let everyone = find_everyone(guild_id, roles);
    let held = find_held(roles, member_roles);
    let mut numbers: Vec<(u64, u8, u64, u64)> = Vec::new();
    let mut i: usize = 0;
    while i < overwrites.len()
        invariant
            i <= overwrites.len(),
            real_ids(roles@, overwrites@),
            numbers@ == overwrite_numbers(overwrites@).take(i as int),
        decreases overwrites.len() - i,
    {
        let overwrite = overwrites[i];
        numbers.push((overwrite.id, overwrite.kind, overwrite.allow, overwrite.deny));
        assert(numbers@ =~= overwrite_numbers(overwrites@).take(i + 1));
        i += 1;
    }
    assert(numbers@ =~= overwrite_numbers(overwrites@));
    assert forall|j: int| 0 <= j < numbers@.len() implies (#[trigger] numbers@[j]).0 != 0 by {
        assert(overwrites@[j].id != 0);
    }
    calculate(guild_id, user_id, everyone, &held, number_of_kind(kind), &numbers)
}

fn find_everyone(guild_id: u64, roles: &Vec<RoleGrant>) -> (permissions: u64)
    ensures
        permissions == everyone_permissions(guild_id, roles@),
{
    let mut i: usize = 0;
    assert(roles@.skip(0) =~= roles@);
    while i < roles.len()
        invariant
            i <= roles.len(),
            everyone_permissions(guild_id, roles@) == everyone_permissions(
                guild_id,
                roles@.skip(i as int),
            ),
        decreases roles.len() - i,
    {
        assert(roles@.skip(i as int)[0] == roles@[i as int]);
        assert(roles@.skip(i as int).skip(1) =~= roles@.skip(i + 1));
        if roles[i].id == guild_id {
            return roles[i].permissions;
        }
        i += 1;
    }
    0
}

fn find_held(roles: &Vec<RoleGrant>, member_roles: &Vec<u64>) -> (held: Vec<(u64, u64)>)
    requires
        forall|i: int| 0 <= i < roles@.len() ==> (#[trigger] roles@[i]).id != 0,
    ensures
        held@ == held_roles(roles@, member_roles@),
        forall|i: int| 0 <= i < held@.len() ==> (#[trigger] held@[i]).0 != 0,
{
    let mut held: Vec<(u64, u64)> = Vec::new();
    let mut i: usize = 0;
    assert(roles@.take(0) =~= Seq::empty());
    while i < roles.len()
        invariant
            i <= roles.len(),
            forall|j: int| 0 <= j < roles@.len() ==> (#[trigger] roles@[j]).id != 0,
            held@ == held_roles(roles@.take(i as int), member_roles@),
            forall|j: int| 0 <= j < held@.len() ==> (#[trigger] held@[j]).0 != 0,
        decreases roles.len() - i,
    {
        assert(roles@.take(i + 1).drop_last() =~= roles@.take(i as int));
        let role = roles[i];
        assert(roles@[i as int].id != 0);
        if has_id(member_roles, role.id) {
            held.push((role.id, role.permissions));
        }
        i += 1;
    }
    assert(roles@.take(i as int) =~= roles@);
    held
}

/// What is to be done to a member.
#[derive(Debug, Clone, Copy, PartialEq, Eq, Structural)]
pub enum Moderation {
    /// A timeout until so many seconds after 1970.
    Restrict { until: i64 },
    Unrestrict,
    /// A ban, deleting so many seconds of history where asked for.
    Ban { delete_seconds: Option<u32> },
    Unban,
    Kick,
}

/// The first second of the year -9999, the earliest that Discord's timestamps hold.
pub const FIRST_TIMESTAMP: i64 = -377_705_116_800;

/// The last second of the year 9999, the latest that Discord's timestamps hold.
pub const LAST_TIMESTAMP: i64 = 253_402_300_799;

/// Why Discord's timestamps cannot hold a number of seconds since 1970, where they cannot.
pub open spec fn timestamp_refusal(secs: i64) -> Option<Seq<char>> {
    if FIRST_TIMESTAMP <= secs <= LAST_TIMESTAMP {
        None
    } else {
        Some("value of a field is not in an acceptable range"@)
    }
}

/// The error of `twilight_model::util::Timestamp::from_secs`, where it gives one: it does outside of
/// the years -9999 to 9999, and always the same.
#[verifier::external_body]
fn refuse_timestamp(secs: i64) -> (error: Option<String>)
    ensures
        error.deep_view() == timestamp_refusal(secs),
{
    twilight_model::util::Timestamp::from_secs(secs).err().map(|error| error.to_string())
}

/// What moderating a member comes to, or why it cannot be done.
///
/// A timeout is always bounded, so there is no "until further notice" to fall back on, and a ban
/// never expires. Refusing beats silently choosing something nobody asked for.
pub open spec fn moderated(
    id: Seq<char>,
    action: MemberAction,
    until: Option<Instant>,
    revoke_messages: bool,
    now: Instant,
) -> Result<Moderation, ChannelErrorView> {
    match action {
        MemberAction::Restrict => match until {
            None => Err(
                ChannelErrorView::Delivery {
                    channel: id,
                    message: "Discord restrictions always expire, so this one needs a duration, up \
                              to 28 days"@,
                },
            ),
            Some(until) => if until - now > MAX_TIMEOUT {
                Err(
                    ChannelErrorView::Delivery {
                        channel: id,
                        message: "Discord restrictions last at most 28 days; for longer, ban them"@,
                    },
                )
            } else {
                let secs = crate::time::seconds(until as int) as i64;
                match timestamp_refusal(secs) {
                    Some(error) => Err(
                        ChannelErrorView::Delivery {
                            channel: id,
                            message: "that is not a time Discord accepts: "@ + error,
                        },
                    ),
                    None => Ok(Moderation::Restrict { until: secs }),
                }
            },
        },
        MemberAction::Unrestrict => Ok(Moderation::Unrestrict),
        MemberAction::Ban => if until is Some {
            Err(
                ChannelErrorView::Delivery {
                    channel: id,
                    message: "Discord bans never expire, so a duration cannot be honoured; ban \
                              without one, or restrict them for a while instead"@,
                },
            )
        } else {
            Ok(
                Moderation::Ban {
                    delete_seconds: if revoke_messages {
                        Some(MAX_BAN_DELETE_SECONDS)
                    } else {
                        None
                    },
                },
            )
        },
        MemberAction::Unban => Ok(Moderation::Unban),
        MemberAction::Kick => Ok(Moderation::Kick),
    }
}

/// Whether `ids` are roles that go by `names`, one for each in order.
pub open spec fn roles_resolved(
    known: cache::NamesView,
    guild_id: u64,
    names: Seq<Seq<char>>,
    ids: Seq<u64>,
) -> bool {
    &&& ids.len() == names.len()
    &&& forall|i: int|
        0 <= i < ids.len() ==> cache::goes_by(known, guild_id, #[trigger] ids[i], names[i])
}

/// Whether no role of a server goes by a name.
pub open spec fn no_such_role(known: cache::NamesView, guild_id: u64, name: Seq<char>) -> bool {
    forall|id: u64| !cache::goes_by(known, guild_id, id, name)
}

/// The refusal of a role that a server does not have, naming those it has.
pub open spec fn role_refusal(id: Seq<char>, name: Seq<char>, catalogue: Seq<Seq<char>>) ->
    ChannelErrorView {
    let missing = "this server has no role called "@ + text::debug_quoted(name);
    ChannelErrorView::Delivery {
        channel: id,
        message: if catalogue.len() == 0 {
            missing
        } else {
            missing + "; it has "@ + text::joined(catalogue, ", "@)
        },
    }
}

/// How many members a page may hold.
pub open spec fn page_size(limit: usize) -> usize {
    if limit < 1 {
        1
    } else if limit > MAX_MEMBER_PAGE {
        MAX_MEMBER_PAGE
    } else {
        limit
    }
}

/// The highest user id of a page.
pub open spec fn highest(members: Seq<Member>) -> u64
    decreases members.len(),
{
    if members.len() == 0 {
        0
    } else {
        let before = highest(members.drop_last());
        if members.last().user_id > before {
            members.last().user_id
        } else {
            before
        }
    }
}

/// Where the next page starts: after the highest user id seen so far, where the page is full.
pub open spec fn next_page(members: Seq<Member>, limit: u16) -> Option<Seq<char>> {
    if members.len() == limit && members.len() > 0 {
        Some(text::decimal(highest(members) as nat))
    } else {
        None
    }
}

/// The highest id of a page is one of its members' and none is higher, so asking for what follows it
/// repeats nobody.
pub proof fn the_next_page_repeats_nobody(members: Seq<Member>, i: int)
    requires
        0 <= i < members.len(),
    ensures
        members[i].user_id <= highest(members),
        exists|j: int| 0 <= j < members.len() && members[j].user_id == highest(members),
    decreases members.len(),
{
    let before = members.drop_last();
    let last = members.len() - 1;
    if i < last {
        the_next_page_repeats_nobody(before, i);
    } else if last > 0 {
        the_next_page_repeats_nobody(before, 0);
    }
    if members[last].user_id > highest(before) || last == 0 {
        assert(members[last].user_id == highest(members));
    } else {
        let j = choose|j: int| 0 <= j < before.len() && before[j].user_id == highest(before);
        assert(members[j].user_id == highest(members));
    }
}

impl DiscordChannel {
    /// Somebody's availability, or nothing at all when the operator has not switched presence on.
    ///
    /// Nothing and [`crate::channel::PresenceStatus::Unknown`] both mean "cannot say", and the
    /// difference is worth keeping: nothing is a bridge that was never asked to watch this, which no
    /// amount of waiting will change, while unknown is one that has not caught up yet.
    pub fn presence_of(&self, guild_id: u64, user: u64) -> (presence: Option<Presence>)
        ensures
            presence == availability(*self, guild_id, user),
    {
        if self.presence {
            Some(self.presences.get(guild_id, user))
        } else {
            None
        }
    }

    /// A member, in the platform-neutral shape. Discord has no per-member rights, only roles.
    fn describe_member(
        &self,
        guild_id: u64,
        member: &Member,
        owner_id: u64,
        administrator: bool,
        now: Instant,
    ) -> (info: MemberInfo)
        ensures
            info.deep_view() == member_info(
                *self,
                guild_id,
                *member,
                owner_id,
                administrator,
                now,
            ),
    {
        let until = still_restricted(member.communication_disabled_until, now);
        let account = text::or(&member.global_name, member.user_name.as_str());
        let rights: Vec<crate::channel::MemberRight> = Vec::new();
        assert(rights@ =~= Seq::empty());
        MemberInfo {
            user_id: text::number(member.user_id),
            display_name: Some(text::or(&member.nick, account.as_str())),
            status: status_of(member.user_id, owner_id, administrator, until.is_some()),
            rights,
            roles: self.names.role_names(guild_id, &member.roles),
            restricted_until: until,
            presence: self.presence_of(guild_id, member.user_id),
        }
    }

    /// Turns one member of a listing into the platform-neutral shape.
    pub fn summarise_member(
        &self,
        guild_id: u64,
        member: &Member,
        standing: &ServerStanding,
        now: Instant,
    ) -> (info: MemberInfo)
        ensures
            info.deep_view() == member_info(
                *self,
                guild_id,
                *member,
                standing.owner_id,
                share_one(member.roles@, standing.admin_roles@),
                now,
            ),
    {
        let administrator = share_any(&member.roles, &standing.admin_roles);
        self.describe_member(guild_id, member, standing.owner_id, administrator, now)
    }

    /// One member asked about by themselves, given what they may do in the channel.
    pub fn member(
        &self,
        guild_id: u64,
        member: &Member,
        owner_id: u64,
        permissions: u64,
        now: Instant,
    ) -> (info: MemberInfo)
        ensures
            info.deep_view() == member_info(
                *self,
                guild_id,
                *member,
                owner_id,
                administers(permissions),
                now,
            ),
    {
        self.describe_member(guild_id, member, owner_id, is_administrator(permissions), now)
    }

    /// Somebody who is not in the server. Whether they were thrown out or simply left is a different
    /// question, and one call answers it, which beats reporting "not found" for both.
    pub fn absent(user_id: u64, banned: bool) -> (info: MemberInfo)
        ensures
            info.deep_view() == absent_member(user_id, banned),
    {
        let info = MemberInfo {
            user_id: text::number(user_id),
            display_name: None,
            status: if banned {
                MemberStatus::Banned
            } else {
                MemberStatus::Left
            },
            rights: Vec::new(),
            roles: Vec::new(),
            restricted_until: None,
            // Not in the server, so there is nothing to be present for.
            presence: None,
        };
        assert(info.deep_view().rights =~= Seq::empty());
        assert(info.deep_view().roles =~= Seq::empty());
        info
    }

    /// What moderating a member comes to, or why it cannot be done.
    pub fn moderate_member(
        &self,
        action: MemberAction,
        until: Option<Instant>,
        revoke_messages: bool,
        now: Instant,
    ) -> (moderation: Result<Moderation, ChannelError>)
        requires
            crate::time::datable(now as int),
            until matches Some(until) ==> crate::time::datable(until as int),
        ensures
            match moderation {
                Ok(moderation) => moderated(self.id@, action, until, revoke_messages, now) == Ok::<
                    Moderation,
                    ChannelErrorView,
                >(moderation),
                Err(error) => moderated(self.id@, action, until, revoke_messages, now) == Err::<
                    Moderation,
                    ChannelErrorView,
                >(error.deep_view()),
            },
    {
        match action {
            MemberAction::Restrict => {
                let until: Instant = match until {
                    None => {
                        return Err(
                            ChannelError::delivery(
                                self.id.as_str(),
                                "Discord restrictions always expire, so this one needs a duration, \
                                 up to 28 days",
                            ),
                        );
                    },
                    Some(until) => until,
                };
                if until - now > MAX_TIMEOUT {
                    return Err(
                        ChannelError::delivery(
                            self.id.as_str(),
                            "Discord restrictions last at most 28 days; for longer, ban them",
                        ),
                    );
                }
                let secs: i64 = crate::time::whole_seconds(until);
                match refuse_timestamp(secs) {
                    Some(error) => {
                        let message = "that is not a time Discord accepts: ".to_owned().concat(
                            error.as_str(),
                        );
                        Err(ChannelError::delivery(self.id.as_str(), message.as_str()))
                    },
                    None => Ok(Moderation::Restrict { until: secs }),
                }
            },
            // Simpler than Telegram, where lifting a restriction means reading the chat's own
            // defaults back. Discord's timeout is a single field, and clearing it returns them to
            // exactly their roles.
            MemberAction::Unrestrict => Ok(Moderation::Unrestrict),
            MemberAction::Ban => {
                if until.is_some() {
                    return Err(
                        ChannelError::delivery(
                            self.id.as_str(),
                            "Discord bans never expire, so a duration cannot be honoured; ban \
                             without one, or restrict them for a while instead",
                        ),
                    );
                }
                // Telegram deletes all of their history; Discord's ceiling is seven days, so this
                // is as close as the same request gets.
                Ok(
                    Moderation::Ban {
                        delete_seconds: if revoke_messages {
                            Some(MAX_BAN_DELETE_SECONDS)
                        } else {
                            None
                        },
                    },
                )
            },
            MemberAction::Unban => Ok(Moderation::Unban),
            MemberAction::Kick => Ok(Moderation::Kick),
        }
    }

    /// The roles that go by the names the agent gave, or the refusal of the first that none does.
    pub fn set_member_roles(&self, guild_id: u64, roles: &Vec<String>) -> (resolved: Result<
        Vec<u64>,
        ChannelError,
    >)
        ensures
            match resolved {
                Ok(ids) => roles_resolved(self.names@, guild_id, roles.deep_view(), ids@),
                Err(error) => exists|i: int, catalogue: Seq<Seq<char>>|
                    #![trigger roles.deep_view()[i], cache::catalogued(self.names@, guild_id, catalogue)]
                    {
                        &&& 0 <= i < roles@.len()
                        &&& no_such_role(self.names@, guild_id, roles.deep_view()[i])
                        &&& cache::catalogued(self.names@, guild_id, catalogue)
                        &&& error.deep_view() == role_refusal(
                            self.id@,
                            roles.deep_view()[i],
                            catalogue,
                        )
                        &&& forall|j: int|
                            0 <= j < i ==> !no_such_role(
                                self.names@,
                                guild_id,
                                #[trigger] roles.deep_view()[j],
                            )
                    },
            },
    {
        let ghost names = roles.deep_view();
        let mut ids: Vec<u64> = Vec::new();
        let mut i: usize = 0;
        while i < roles.len()
            invariant
                i <= roles.len(),
                names == roles.deep_view(),
                roles_resolved(self.names@, guild_id, names.take(i as int), ids@),
                forall|j: int|
                    0 <= j < i ==> !no_such_role(self.names@, guild_id, #[trigger] names[j]),
            decreases roles.len() - i,
        {
            let name = roles[i].as_str();
            assert(names[i as int] == name@);
            match self.names.role_by_name(guild_id, name) {
                Some(id) => {
                    ids.push(id);
                    assert(cache::goes_by(self.names@, guild_id, id, names[i as int]));
                    assert forall|j: int| 0 <= j < ids@.len() implies cache::goes_by(
                        self.names@,
                        guild_id,
                        #[trigger] ids@[j],
                        names.take(i + 1)[j],
                    ) by {
                        if j < i {
                            assert(names.take(i as int)[j] == names[j]);
                        }
                    }
                },
                None => {
                    let catalogue = self.names.role_catalogue(guild_id);
                    let missing = "this server has no role called ".to_owned().concat(
                        text::quoted(name).as_str(),
                    );
                    let message = if catalogue.len() == 0 {
                        missing
                    } else {
                        missing.concat("; it has ").concat(text::join(&catalogue, ", ").as_str())
                    };
                    let error = ChannelError::delivery(self.id.as_str(), message.as_str());
                    proof {
                        assert(no_such_role(self.names@, guild_id, names[i as int]));
                        assert(cache::catalogued(self.names@, guild_id, catalogue.deep_view()));
                        assert(error.deep_view() == role_refusal(
                            self.id@,
                            names[i as int],
                            catalogue.deep_view(),
                        ));
                    }
                    return Err(error);
                },
            }
            i += 1;
        }
        assert(names.take(i as int) =~= names);
        Ok(ids)
    }

    /// Whether members can be listed in a channel, and how many at a time.
    ///
    /// A direct message belongs to no server, so there is no roster to ask for. Caught here because
    /// it would otherwise be reported as a malformed conversation, which sends whoever reads the
    /// error looking for a typo that is not there.
    pub fn member_page(&self, channel_id: u64, limit: usize) -> (page: Result<u16, ChannelError>)
        ensures
            match page {
                Ok(size) => {
                    &&& super::shape(cache::kind_of(self.names@, channel_id)) != ChatKind::Direct
                    &&& size == page_size(limit)
                },
                Err(error) => {
                    &&& super::shape(cache::kind_of(self.names@, channel_id)) == ChatKind::Direct
                    &&& error.deep_view() == (ChannelErrorView::Unsupported {
                        channel: self.id@,
                        feature: "listing the members of a direct message, which is just the two of \
                                  you"@,
                    })
                },
            },
    {
        let chat = super::chat_kind(self.names.kind_of(channel_id));
        if chat == ChatKind::Direct {
            return Err(
                ChannelError::unsupported(
                    self.id.as_str(),
                    "listing the members of a direct message, which is just the two of you",
                ),
            );
        }
        if limit < 1 {
            Ok(1)
        } else if limit > MAX_MEMBER_PAGE {
            Ok(MAX_MEMBER_PAGE as u16)
        } else {
            Ok(limit as u16)
        }
    }

    /// The refusal of a listing, given the status that Discord answered with.
    ///
    /// A privileged-intent refusal arrives as a plain 403 rather than anything more specific, so
    /// this is what stands between "you have not switched the intent on" and a transport error the
    /// operator would go looking in the wrong place for.
    pub fn listing_refused(&self, status: Option<u16>, error: &str) -> (refusal: ChannelError)
        ensures
            refusal.deep_view() == (if status == Some(403u16) {
                ChannelErrorView::Unsupported {
                    channel: self.id@,
                    feature: "listing everyone in a Discord server without the server members \
                              intent, which is switched on under Privileged Gateway Intents on the \
                              bot's page in the Discord Developer Portal. Searching members by \
                              name works without it"@,
                }
            } else {
                ChannelErrorView::Delivery {
                    channel: self.id@,
                    message: "listing this server's members"@ + ": "@ + error@,
                }
            }),
    {
        let forbidden = match status {
            Some(status) => status == 403,
            None => false,
        };
        if forbidden {
            ChannelError::unsupported(
                self.id.as_str(),
                "listing everyone in a Discord server without the server members intent, which is \
                 switched on under Privileged Gateway Intents on the bot's page in the Discord \
                 Developer Portal. Searching members by name works without it",
            )
        } else {
            self.delivery_error("listing this server's members", error)
        }
    }

    fn summarise_all(
        &self,
        guild_id: u64,
        members: &Vec<Member>,
        standing: &ServerStanding,
        now: Instant,
    ) -> (infos: Vec<MemberInfo>)
        ensures
            infos.deep_view() == members@.map_values(
                |member: Member|
                    member_info(
                        *self,
                        guild_id,
                        member,
                        standing.owner_id,
                        share_one(member.roles@, standing.admin_roles@),
                        now,
                    ),
            ),
    {
        let mut infos: Vec<MemberInfo> = Vec::new();
        let mut i: usize = 0;
        while i < members.len()
            invariant
                i <= members.len(),
                infos@.len() == i,
                forall|j: int|
                    0 <= j < i ==> (#[trigger] infos@[j]).deep_view() == member_info(
                        *self,
                        guild_id,
                        members@[j],
                        standing.owner_id,
                        share_one(members@[j].roles@, standing.admin_roles@),
                        now,
                    ),
            decreases members.len() - i,
        {
            infos.push(self.summarise_member(guild_id, &members[i], standing, now));
            i += 1;
        }
        assert(infos.deep_view() =~= members@.map_values(
            |member: Member|
                member_info(
                    *self,
                    guild_id,
                    member,
                    standing.owner_id,
                    share_one(member.roles@, standing.admin_roles@),
                    now,
                ),
        ));
        infos
    }

    /// A page of a server's members, or the members that a search by name turned up.
    ///
    /// The two halves have very different requirements, which is the whole reason both are offered.
    /// Enumerating everyone needs a privileged intent; searching by name does not. So a bot whose
    /// operator has not enabled it can still answer "is there someone called Dana here", just not
    /// "who is here".
    pub fn list_members(
        &self,
        guild_id: u64,
        members: &Vec<Member>,
        standing: &ServerStanding,
        searched: bool,
        limit: u16,
        now: Instant,
    ) -> (listing: MemberListing)
        ensures
            listing.members.deep_view() == members@.map_values(
                |member: Member|
                    member_info(
                        *self,
                        guild_id,
                        member,
                        standing.owner_id,
                        share_one(member.roles@, standing.admin_roles@),
                        now,
                    ),
            ),
            searched ==> listing.coverage == MemberCoverage::Matching && listing.total is None
                && listing.next_after is None,
            !searched ==> listing.coverage == MemberCoverage::Everyone && listing.total
                == standing.total && listing.next_after.deep_view() == next_page(members@, limit),
    {
        let infos = self.summarise_all(guild_id, members, standing, now);
        if searched {
            return MemberListing {
                coverage: MemberCoverage::Matching,
                members: infos,
                // Deliberately absent: the server's size reported against a search reads as the
                // number of matches, which is a different and much smaller number.
                total: None,
                next_after: None,
            };
        }
        // Discord pages by "the highest user id seen so far", and a short page means the end.
        let mut top: u64 = 0;
        let mut i: usize = 0;
        assert(members@.take(0) =~= Seq::empty());
        while i < members.len()
            invariant
                i <= members.len(),
                top == highest(members@.take(i as int)),
            decreases members.len() - i,
        {
            assert(members@.take(i + 1).drop_last() =~= members@.take(i as int));
            if members[i].user_id > top {
                top = members[i].user_id;
            }
            i += 1;
        }
        assert(members@.take(i as int) =~= members@);
        let full = members.len() > 0 && members.len() == limit as usize;
        MemberListing {
            coverage: MemberCoverage::Everyone,
            members: infos,
            total: standing.total,
            next_after: if full {
                Some(text::number(top))
            } else {
                None
            },
        }
    }
}

} // verus!
