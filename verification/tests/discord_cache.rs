//! The names that Discord's gateway taught the bridge.

use mekabridge::channel::discord::cache::{Channel, ChannelType, NameCache, Role};

fn channel(id: u64, name: &str, kind: ChannelType) -> Channel {
    Channel {
        id,
        name: Some(name.to_string()),
        guild_id: Some(900),
        parent_id: None,
        kind,
    }
}

fn role(id: u64, name: &str) -> Role {
    Role {
        id,
        name: name.to_string(),
    }
}

fn cache_with_guild() -> NameCache {
    let mut cache = NameCache::new();
    cache.rename_guild(900, "Acme Corp");
    cache
}

#[test]
fn a_channel_is_described_with_its_server() {
    let mut cache = cache_with_guild();
    cache.insert_channel(&channel(1, "deploys", ChannelType::GuildText));
    assert_eq!(cache.describe(1).as_deref(), Some("#deploys in Acme Corp"));
}

#[test]
fn a_thread_names_the_channel_it_hangs_off() {
    let mut cache = cache_with_guild();
    cache.insert_channel(&channel(1, "deploys", ChannelType::GuildText));
    let mut thread = channel(2, "rollback tonight", ChannelType::PublicThread);
    thread.parent_id = Some(1);
    cache.insert_channel(&thread);
    assert_eq!(
        cache.describe(2).as_deref(),
        Some("#deploys \u{203a} rollback tonight in Acme Corp")
    );
}

#[test]
fn an_unknown_channel_is_described_as_nothing_rather_than_guessed() {
    let cache = cache_with_guild();
    assert_eq!(cache.describe(7), None);
}

#[test]
fn leaving_a_server_forgets_its_channels_too() {
    let mut cache = cache_with_guild();
    cache.insert_channel(&channel(1, "deploys", ChannelType::GuildText));
    cache.remove_guild(900);
    assert_eq!(cache.describe(1), None);
    assert_eq!(cache.size(), (0, 0));
}

#[test]
fn a_role_the_cache_has_never_seen_is_skipped_rather_than_shown_as_an_id() {
    let mut cache = cache_with_guild();
    cache.insert_role(900, &role(555, "Moderators"));
    let names = cache.role_names(900, &vec![555, 556]);
    assert_eq!(names, vec!["Moderators".to_string()]);
}

#[test]
fn a_role_can_be_found_back_from_the_name_the_agent_was_shown() {
    let mut cache = cache_with_guild();
    cache.insert_role(900, &role(555, "Release Team"));
    assert_eq!(cache.role_by_name(900, "release team"), Some(555));
    assert_eq!(cache.role_by_name(900, "Nobody"), None);
}

#[test]
fn a_role_that_was_removed_is_no_longer_known() {
    let mut cache = cache_with_guild();
    cache.insert_role(900, &role(555, "Release Team"));
    cache.insert_role(900, &role(556, "Cooks"));
    assert_eq!(cache.role_catalogue(900), vec!["Cooks", "Release Team"]);
    cache.remove_role(900, 555);
    assert_eq!(cache.role_name(900, 555), None);
    assert_eq!(cache.role_catalogue(900), vec!["Cooks"]);
}
