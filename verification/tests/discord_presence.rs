//! Who is online, as far as Discord's gateway said.

use mekabridge::channel::discord::presence::{PresenceCache, Status};
use mekabridge::channel::PresenceStatus;

const GUILD: u64 = 1;
const NOW: i128 = 1_754_400_000_000_000_000;

#[test]
fn an_unseeded_guild_reports_unknown_rather_than_offline() {
    // Moments after startup nothing has been seeded, and "everybody is offline" would be wrong.
    let cache = PresenceCache::new();
    let presence = cache.get(GUILD, 7);
    assert_eq!(presence.status, PresenceStatus::Unknown);
    assert!(presence.as_of.is_none());
    assert!(!cache.is_primed(GUILD));
}

#[test]
fn a_seeded_guild_reports_a_missing_member_as_offline() {
    // Discord omits offline members from the seed, so absence within a known server is real
    // information, unlike absence of the server itself.
    let mut cache = PresenceCache::new();
    cache.seed(GUILD, &vec![(1, Status::Online)], NOW);
    assert_eq!(cache.get(GUILD, 1).status, PresenceStatus::Online);
    assert_eq!(cache.get(GUILD, 2).status, PresenceStatus::Offline);
    assert!(cache.is_primed(GUILD));
}

#[test]
fn reseeding_replaces_rather_than_merges() {
    // A reconnect loses whatever happened while the gateway was away.
    let mut cache = PresenceCache::new();
    cache.seed(GUILD, &vec![(1, Status::Online), (2, Status::Online)], NOW);
    cache.seed(GUILD, &vec![(1, Status::Idle)], NOW);

    assert_eq!(cache.get(GUILD, 1).status, PresenceStatus::Idle);
    assert_eq!(
        cache.get(GUILD, 2).status,
        PresenceStatus::Offline,
        "a member dropped by the reseed must not survive from the previous one"
    );
}

#[test]
fn an_update_before_the_seed_is_ignored() {
    // One person's update says nothing about the rest of the server.
    let mut cache = PresenceCache::new();
    cache.update(GUILD, 1, Status::Online, NOW);
    assert_eq!(cache.get(GUILD, 1).status, PresenceStatus::Unknown);
    assert!(!cache.is_primed(GUILD));
}

#[test]
fn going_offline_is_recorded_rather_than_dropped() {
    let mut cache = PresenceCache::new();
    cache.seed(GUILD, &vec![(1, Status::Online)], NOW);
    cache.update(GUILD, 1, Status::Offline, NOW);
    assert_eq!(cache.get(GUILD, 1).status, PresenceStatus::Offline);
}

#[test]
fn invisible_is_honoured_as_offline() {
    // Somebody who set themselves invisible chose that.
    let mut cache = PresenceCache::new();
    cache.seed(GUILD, &vec![(1, Status::Invisible)], NOW);
    assert_eq!(cache.get(GUILD, 1).status, PresenceStatus::Offline);
}

#[test]
fn a_forgotten_guild_goes_back_to_unknown() {
    let mut cache = PresenceCache::new();
    cache.seed(GUILD, &vec![(1, Status::Online)], NOW);
    cache.forget(GUILD);
    assert_eq!(cache.get(GUILD, 1).status, PresenceStatus::Unknown);
}
