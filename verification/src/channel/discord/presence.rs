//! Who is online, accumulated from the gateway.
//!
//! Presence is the one thing Discord will not answer over HTTP: there is no endpoint to ask whether
//! somebody is around, only a stream of updates to keep up with. So this is a running tally rather
//! than a lookup, and everything awkward about it follows from that.
//!
//! **Only status is kept.** Discord sends what somebody is playing, listening to, and their custom
//! status alongside it. None of that is stored, logged, or exposed. The bridge ingests presence for
//! every member of every server it is in, involuntarily on their part, and the narrowest thing that
//! answers "can I give this person work" is the status alone.
//!
//! **Absence is not offline.** A member of a server the tally has never heard of reads as
//! [`PresenceStatus::Unknown`], never as offline. In the seconds after startup that is every
//! member, and reporting a server full of offline people would be a confident lie at exactly the
//! moment the bridge knows least.
//!
//! **A reconnect replaces a server's entry rather than merging into it.** Updates missed while the
//! gateway was away are unrecoverable, so anything still in the tally afterwards is a claim nobody
//! checked. Merging would leave whoever went offline during the gap looking permanently available.

use std::collections::HashMap;

use vstd::prelude::*;

use crate::channel::{Presence, PresenceStatus};
use crate::time::Instant;

verus! {

broadcast use vstd::std_specs::hash::group_hash_axioms;

/// A status as Discord sends it.
#[derive(Debug, Clone, Copy, PartialEq, Eq, Structural)]
pub enum Status {
    Online,
    Idle,
    DoNotDisturb,
    Invisible,
    Offline,
}

/// Discord's status, narrowed to what the bridge reports.
///
/// `Invisible` is deliberately reported as offline. It is what the person chose to appear as, and
/// the bridge relaying "actually they are around" would defeat a privacy setting on somebody who
/// never agreed to be watched by a bot.
pub open spec fn narrowed(status: Status) -> PresenceStatus {
    match status {
        Status::Online => PresenceStatus::Online,
        Status::Idle => PresenceStatus::Idle,
        Status::DoNotDisturb => PresenceStatus::DoNotDisturb,
        Status::Offline | Status::Invisible => PresenceStatus::Offline,
    }
}

/// Discord's status, narrowed to what the bridge reports.
pub fn translate(status: Status) -> (reported: PresenceStatus)
    ensures
        reported == narrowed(status),
{
    match status {
        Status::Online => PresenceStatus::Online,
        Status::Idle => PresenceStatus::Idle,
        Status::DoNotDisturb => PresenceStatus::DoNotDisturb,
        Status::Offline | Status::Invisible => PresenceStatus::Offline,
    }
}

/// One server's members, replaced wholesale whenever the server is seeded again.
pub struct GuildPresence {
    members: HashMap<u64, PresenceStatus>,
    /// When this server was last seeded or updated, which is what makes a stale answer legible as
    /// stale rather than passing for current.
    as_of: Instant,
}

/// What is known of one server.
pub struct GuildPresenceView {
    pub members: Map<u64, PresenceStatus>,
    pub as_of: Instant,
}

impl View for GuildPresence {
    type V = GuildPresenceView;

    closed spec fn view(&self) -> GuildPresenceView {
        GuildPresenceView { members: self.members@, as_of: self.as_of }
    }
}

/// Online status by server and member.
pub struct PresenceCache {
    guilds: HashMap<u64, GuildPresence>,
}

impl View for PresenceCache {
    type V = Map<u64, GuildPresenceView>;

    closed spec fn view(&self) -> Map<u64, GuildPresenceView> {
        self.guilds@.map_values(|guild: GuildPresence| guild@)
    }
}

/// The statuses that a list of members and statuses gives, where a later entry replaces an earlier
/// one for the same member.
pub open spec fn tallied(presences: Seq<(u64, Status)>) -> Map<u64, PresenceStatus>
    decreases presences.len(),
{
    if presences.len() == 0 {
        Map::empty()
    } else {
        let (user, status) = presences.last();
        tallied(presences.drop_last()).insert(user, narrowed(status))
    }
}

/// The tally once a server has been seeded.
pub open spec fn seeded(
    guilds: Map<u64, GuildPresenceView>,
    guild_id: u64,
    presences: Seq<(u64, Status)>,
    now: Instant,
) -> Map<u64, GuildPresenceView> {
    guilds.insert(guild_id, GuildPresenceView { members: tallied(presences), as_of: now })
}

/// The tally once a member's status has been updated.
pub open spec fn updated(
    guilds: Map<u64, GuildPresenceView>,
    guild_id: u64,
    user: u64,
    status: Status,
    now: Instant,
) -> Map<u64, GuildPresenceView> {
    if guilds.contains_key(guild_id) {
        guilds.insert(
            guild_id,
            GuildPresenceView {
                members: guilds[guild_id].members.insert(user, narrowed(status)),
                as_of: now,
            },
        )
    } else {
        guilds
    }
}

/// What a tally says of one member.
pub open spec fn known(
    guilds: Map<u64, GuildPresenceView>,
    guild_id: u64,
    user: u64,
) -> Presence {
    if guilds.contains_key(guild_id) {
        let guild = guilds[guild_id];
        Presence {
            status: if guild.members.contains_key(user) {
                guild.members[user]
            } else {
                PresenceStatus::Offline
            },
            as_of: Some(guild.as_of),
        }
    } else {
        crate::channel::unknown_presence()
    }
}

impl PresenceCache {
    /// A tally of no servers.
    pub fn new() -> (cache: PresenceCache)
        ensures
            cache@ == Map::<u64, GuildPresenceView>::empty(),
    {
        let cache = PresenceCache { guilds: HashMap::new() };
        assert(cache@ =~= Map::empty());
        cache
    }

    /// Replaces everything known about one server.
    ///
    /// A server's whole state arrives both on first connect and again after a resume that could not
    /// be continued. Replacing rather than merging is the point: see the module note.
    pub fn seed(&mut self, guild_id: u64, presences: &Vec<(u64, Status)>, now: Instant)
        ensures
            final(self)@ == seeded(old(self)@, guild_id, presences@, now),
    {
        let mut members: HashMap<u64, PresenceStatus> = HashMap::new();
        let mut i: usize = 0;
        assert(presences@.take(0) =~= Seq::empty());
        while i < presences.len()
            invariant
                i <= presences.len(),
                members@ == tallied(presences@.take(i as int)),
            decreases presences.len() - i,
        {
            assert(presences@.take(i + 1).drop_last() =~= presences@.take(i as int));
            members.insert(presences[i].0, translate(presences[i].1));
            i += 1;
        }
        assert(presences@.take(i as int) =~= presences@);
        self.guilds.insert(guild_id, GuildPresence { members, as_of: now });
        assert(self@ =~= seeded(old(self)@, guild_id, presences@, now));
    }

    /// Applies one update.
    ///
    /// Ignored for a server that has not been seeded. An update on its own says nothing about the
    /// rest of the server, and a tally holding one person would otherwise report everybody else as
    /// offline while looking, from `as_of`, freshly populated.
    pub fn update(&mut self, guild_id: u64, user: u64, status: Status, now: Instant)
        ensures
            final(self)@ == updated(old(self)@, guild_id, user, status, now),
    {
        match self.guilds.remove(&guild_id) {
            Some(guild) => {
                let mut members = guild.members;
                members.insert(user, translate(status));
                self.guilds.insert(guild_id, GuildPresence { members, as_of: now });
                assert(self@ =~= updated(old(self)@, guild_id, user, status, now));
            },
            None => {
                assert(self@ =~= old(self)@);
            },
        }
    }

    /// Forgets a server the bot is no longer in.
    pub fn forget(&mut self, guild_id: u64)
        ensures
            final(self)@ == old(self)@.remove(guild_id),
    {
        self.guilds.remove(&guild_id);
        assert(self@ =~= old(self)@.remove(guild_id));
    }

    /// What is known about one member, which may be that nothing is.
    pub fn get(&self, guild_id: u64, user: u64) -> (presence: Presence)
        ensures
            presence == known(self@, guild_id, user),
    {
        match self.guilds.get(&guild_id) {
            None => Presence::unknown(),
            Some(guild) => Presence {
                // A seeded server omits anyone offline, so a member who is present in the server
                // but absent from the tally is offline rather than unknown. The distinction only
                // holds because the server itself has been seen.
                status: match guild.members.get(&user) {
                    Some(status) => *status,
                    None => PresenceStatus::Offline,
                },
                as_of: Some(guild.as_of),
            },
        }
    }

    /// Whether a server has been seeded at all.
    ///
    /// This is the line between "nothing is known" and "nobody is online", and the two are reported
    /// differently, so it is worth being able to ask for directly.
    pub fn is_primed(&self, guild_id: u64) -> (primed: bool)
        ensures
            primed == self@.contains_key(guild_id),
    {
        self.guilds.contains_key(&guild_id)
    }
}

/// Nobody in a server that has not been seeded reads as offline: nothing is known of them, whatever
/// updates have arrived.
pub proof fn an_unseeded_server_is_unknown(
    guilds: Map<u64, GuildPresenceView>,
    guild_id: u64,
    user: u64,
    other: u64,
    status: Status,
    now: Instant,
)
    requires
        !guilds.contains_key(guild_id),
    ensures
        known(guilds, guild_id, user) == crate::channel::unknown_presence(),
        known(updated(guilds, guild_id, other, status, now), guild_id, user)
            == crate::channel::unknown_presence(),
{
}

/// Seeding a server again leaves nothing of what was known before: what is known of its members
/// depends on the last seed alone.
pub proof fn reseeding_replaces(
    before: Map<u64, GuildPresenceView>,
    guild_id: u64,
    presences: Seq<(u64, Status)>,
    now: Instant,
    user: u64,
)
    ensures
        known(seeded(before, guild_id, presences, now), guild_id, user) == known(
            seeded(Map::empty(), guild_id, presences, now),
            guild_id,
            user,
        ),
        known(seeded(before, guild_id, presences, now), guild_id, user).status
            != PresenceStatus::Unknown,
{
    tallies_are_never_unknown(presences, user);
}

proof fn tallies_are_never_unknown(presences: Seq<(u64, Status)>, user: u64)
    ensures
        tallied(presences).contains_key(user) ==> tallied(presences)[user]
            != PresenceStatus::Unknown,
    decreases presences.len(),
{
    if presences.len() > 0 {
        tallies_are_never_unknown(presences.drop_last(), user);
    }
}

/// A server that is forgotten goes back to unknown, and no other server is affected.
pub proof fn forgetting_returns_to_unknown(
    guilds: Map<u64, GuildPresenceView>,
    guild_id: u64,
    other: u64,
    user: u64,
)
    requires
        other != guild_id,
    ensures
        known(guilds.remove(guild_id), guild_id, user) == crate::channel::unknown_presence(),
        known(guilds.remove(guild_id), other, user) == known(guilds, other, user),
{
}

/// Somebody who set themselves invisible reads as offline, by seed and by update alike.
pub proof fn invisible_reads_as_offline(
    guilds: Map<u64, GuildPresenceView>,
    guild_id: u64,
    presences: Seq<(u64, Status)>,
    user: u64,
    now: Instant,
)
    requires
        guilds.contains_key(guild_id),
    ensures
        known(updated(guilds, guild_id, user, Status::Invisible, now), guild_id, user).status
            == PresenceStatus::Offline,
        known(
            seeded(guilds, guild_id, presences.push((user, Status::Invisible)), now),
            guild_id,
            user,
        ).status == PresenceStatus::Offline,
{
    assert(presences.push((user, Status::Invisible)).drop_last() =~= presences);
}

} // verus!
