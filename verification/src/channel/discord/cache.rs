//! Server, channel, and role names, kept from the gateway's own events.
//!
//! A Discord conversation id is a bare channel snowflake, which tells the agent nothing about where
//! it is, and raw message content refers to people, roles, and channels by id. Both need names, and
//! fetching them over REST per message would be several round trips for every line of chat.
//!
//! The gateway supplies them free. Connecting delivers one event per server carrying its name,
//! every channel, and every role, and the create/update/delete events keep that current afterwards.
//! So this is not a cache in the sense of something that can be stale and needs invalidating: it is
//! the gateway's own state, mirrored.
//!
//! Deliberately holds nothing about people. Member names come from the message that mentions them,
//! which is always present, and keeping a member list would need a second privileged intent for
//! data the bridge already has.

use std::collections::HashMap;

use vstd::prelude::*;
use vstd::string::*;

use crate::table;
use crate::text;

verus! {

broadcast use vstd::std_specs::hash::group_hash_axioms;

/// The type of a channel, as Discord has it.
#[derive(Debug, Clone, Copy, PartialEq, Eq, Structural)]
pub enum ChannelType {
    GuildText,
    Private,
    GuildVoice,
    Group,
    GuildCategory,
    GuildAnnouncement,
    AnnouncementThread,
    PublicThread,
    PrivateThread,
    GuildStageVoice,
    GuildDirectory,
    GuildForum,
    GuildMedia,
    /// A type that this build has no name for.
    Other(u8),
}

/// A channel, thread, or forum post, as the gateway announces it.
#[derive(Debug)]
pub struct Channel {
    pub id: u64,
    /// Absent for direct messages, which have no name of their own.
    pub name: Option<String>,
    pub guild_id: Option<u64>,
    /// The channel a thread hangs off, so a forum post can name the forum it is in.
    pub parent_id: Option<u64>,
    pub kind: ChannelType,
}

/// A role, as the gateway announces it.
#[derive(Debug)]
pub struct Role {
    pub id: u64,
    pub name: String,
}

/// A server, as the gateway announces it.
#[derive(Debug)]
pub struct Guild {
    pub id: u64,
    pub name: String,
    pub roles: Vec<Role>,
    pub channels: Vec<Channel>,
    pub threads: Vec<Channel>,
}

/// What is known about one server.
pub struct GuildEntry {
    name: String,
    roles: HashMap<u64, String>,
}

/// What is known about one channel.
pub struct ChannelEntry {
    name: Option<String>,
    guild: Option<u64>,
    parent: Option<u64>,
    kind: ChannelType,
}

/// What is known of a server.
pub struct GuildView {
    pub name: Seq<char>,
    pub roles: Map<u64, Seq<char>>,
}

/// What is known of a channel.
pub struct ChannelView {
    pub name: Option<Seq<char>>,
    pub guild: Option<u64>,
    pub parent: Option<u64>,
    pub kind: ChannelType,
}

/// Everything that is known.
#[verifier::ext_equal]
pub struct NamesView {
    pub guilds: Map<u64, GuildView>,
    pub channels: Map<u64, ChannelView>,
}

impl View for GuildEntry {
    type V = GuildView;

    closed spec fn view(&self) -> GuildView {
        GuildView { name: self.name@, roles: self.roles@.map_values(|name: String| name@) }
    }
}

impl View for ChannelEntry {
    type V = ChannelView;

    closed spec fn view(&self) -> ChannelView {
        ChannelView {
            name: self.name.deep_view(),
            guild: self.guild,
            parent: self.parent,
            kind: self.kind,
        }
    }
}

/// The gateway's view of every server the bot is in.
pub struct NameCache {
    guilds: HashMap<u64, GuildEntry>,
    channels: HashMap<u64, ChannelEntry>,
}

impl View for NameCache {
    type V = NamesView;

    closed spec fn view(&self) -> NamesView {
        NamesView {
            guilds: self.guilds@.map_values(|guild: GuildEntry| guild@),
            channels: self.channels@.map_values(|channel: ChannelEntry| channel@),
        }
    }
}

/// What is known once a channel has been announced.
pub open spec fn with_channel(names: NamesView, channel: Channel) -> NamesView {
    NamesView {
        channels: names.channels.insert(
            channel.id,
            ChannelView {
                name: channel.name.deep_view(),
                guild: channel.guild_id,
                parent: channel.parent_id,
                kind: channel.kind,
            },
        ),
        ..names
    }
}

/// What is known once a run of channels has been announced.
pub open spec fn with_channels(names: NamesView, channels: Seq<Channel>) -> NamesView
    decreases channels.len(),
{
    if channels.len() == 0 {
        names
    } else {
        with_channel(with_channels(names, channels.drop_last()), channels.last())
    }
}

/// The role names that a list of roles gives, a later one replacing an earlier one of the same id.
pub open spec fn roles_named(roles: Seq<Role>) -> Map<u64, Seq<char>>
    decreases roles.len(),
{
    if roles.len() == 0 {
        Map::empty()
    } else {
        roles_named(roles.drop_last()).insert(roles.last().id, roles.last().name@)
    }
}

/// What is known once a server has been announced.
pub open spec fn with_guild(names: NamesView, guild: Guild) -> NamesView {
    let named = NamesView {
        guilds: names.guilds.insert(
            guild.id,
            GuildView { name: guild.name@, roles: roles_named(guild.roles@) },
        ),
        ..names
    };
    with_channels(with_channels(named, guild.channels@), guild.threads@)
}

/// What is known once a server has been left: neither the server nor any of its channels.
pub open spec fn without_guild(names: NamesView, guild_id: u64) -> NamesView {
    NamesView {
        guilds: names.guilds.remove(guild_id),
        channels: names.channels.restrict(
            Set::new(
                |id: u64|
                    names.channels.contains_key(id) && names.channels[id].guild != Some(guild_id),
            ),
        ),
    }
}

/// What is known of a server, which is an empty name and no roles where nothing is.
pub open spec fn guild_or_blank(names: NamesView, guild_id: u64) -> GuildView {
    if names.guilds.contains_key(guild_id) {
        names.guilds[guild_id]
    } else {
        GuildView { name: Seq::empty(), roles: Map::empty() }
    }
}

/// What is known once a server has been renamed, its roles kept.
pub open spec fn renamed(names: NamesView, guild_id: u64, name: Seq<char>) -> NamesView {
    NamesView {
        guilds: names.guilds.insert(
            guild_id,
            GuildView { name, ..guild_or_blank(names, guild_id) },
        ),
        ..names
    }
}

/// What is known once a role has been announced.
pub open spec fn with_role(names: NamesView, guild_id: u64, id: u64, name: Seq<char>) -> NamesView {
    let guild = guild_or_blank(names, guild_id);
    NamesView {
        guilds: names.guilds.insert(
            guild_id,
            GuildView { roles: guild.roles.insert(id, name), ..guild },
        ),
        ..names
    }
}

/// What is known once a role has been removed.
pub open spec fn without_role(names: NamesView, guild_id: u64, role_id: u64) -> NamesView {
    if names.guilds.contains_key(guild_id) {
        let guild = names.guilds[guild_id];
        NamesView {
            guilds: names.guilds.insert(
                guild_id,
                GuildView { roles: guild.roles.remove(role_id), ..guild },
            ),
            ..names
        }
    } else {
        names
    }
}

/// Whether a channel of this type is a thread.
pub open spec fn threaded(kind: ChannelType) -> bool {
    kind == ChannelType::AnnouncementThread || kind == ChannelType::PublicThread || kind
        == ChannelType::PrivateThread
}

/// The server that a channel belongs to.
pub open spec fn guild_of(names: NamesView, channel_id: u64) -> Option<u64> {
    if names.channels.contains_key(channel_id) {
        names.channels[channel_id].guild
    } else {
        None
    }
}

/// The type of a channel, where it is known.
pub open spec fn kind_of(names: NamesView, channel_id: u64) -> Option<ChannelType> {
    if names.channels.contains_key(channel_id) {
        Some(names.channels[channel_id].kind)
    } else {
        None
    }
}

/// The channel that a thread hangs off.
pub open spec fn parent_of(names: NamesView, channel_id: u64) -> Option<u64> {
    if names.channels.contains_key(channel_id) && threaded(names.channels[channel_id].kind) {
        names.channels[channel_id].parent
    } else {
        None
    }
}

/// The name of a server, where it is known.
pub open spec fn guild_name(names: NamesView, guild_id: u64) -> Option<Seq<char>> {
    if names.guilds.contains_key(guild_id) {
        Some(names.guilds[guild_id].name)
    } else {
        None
    }
}

/// The name of a role, where it is known.
pub open spec fn role_name(names: NamesView, guild_id: u64, role_id: u64) -> Option<Seq<char>> {
    if names.guilds.contains_key(guild_id) && names.guilds[guild_id].roles.contains_key(role_id) {
        Some(names.guilds[guild_id].roles[role_id])
    } else {
        None
    }
}

/// The names of a run of roles, in order, without those that are not known.
pub open spec fn role_names(names: NamesView, guild_id: u64, roles: Seq<u64>) -> Seq<Seq<char>>
    decreases roles.len(),
{
    if roles.len() == 0 {
        Seq::empty()
    } else {
        let before = role_names(names, guild_id, roles.drop_last());
        match role_name(names, guild_id, roles.last()) {
            Some(name) => before.push(name),
            None => before,
        }
    }
}

/// A channel's own name with its `#`.
pub open spec fn channel_name(names: NamesView, channel_id: u64) -> Option<Seq<char>> {
    if names.channels.contains_key(channel_id) {
        match names.channels[channel_id].name {
            Some(name) => Some("#"@ + name),
            None => None,
        }
    } else {
        None
    }
}

/// The name of a channel that a channel hangs off, where both are known and it is a thread.
pub open spec fn parent_name(names: NamesView, channel_id: u64) -> Option<Seq<char>> {
    match parent_of(names, channel_id) {
        Some(parent) => if names.channels.contains_key(parent) {
            names.channels[parent].name
        } else {
            None
        },
        None => None,
    }
}

/// Where a channel is, as a person would say it.
pub open spec fn described(names: NamesView, channel_id: u64) -> Option<Seq<char>> {
    if names.channels.contains_key(channel_id) {
        match names.channels[channel_id].name {
            None => None,
            Some(name) => {
                let located = match parent_name(names, channel_id) {
                    Some(parent) => "#"@ + parent + " \u{203a} "@ + name,
                    None => "#"@ + name,
                };
                match guild_of(names, channel_id) {
                    Some(guild) => match guild_name(names, guild) {
                        Some(guild) => Some(located + " in "@ + guild),
                        None => Some(located),
                    },
                    None => Some(located),
                }
            },
        }
    } else {
        None
    }
}

/// Whether `id` is a role of the server that goes by `name`, but for the case of its letters.
pub open spec fn goes_by(names: NamesView, guild_id: u64, id: u64, name: Seq<char>) -> bool {
    role_name(names, guild_id, id) matches Some(known) && text::alike(known, name)
}

/// Whether a channel of this type is a thread.
pub fn is_thread(kind: ChannelType) -> (found: bool)
    ensures
        found == threaded(kind),
{
    match kind {
        ChannelType::AnnouncementThread
        | ChannelType::PublicThread
        | ChannelType::PrivateThread => true,
        _ => false,
    }
}

impl GuildEntry {
    /// A server of which nothing is known.
    fn blank() -> (entry: GuildEntry)
        ensures
            entry@.name == Seq::<char>::empty(),
            entry@.roles == Map::<u64, Seq<char>>::empty(),
    {
        let entry = GuildEntry { name: String::new(), roles: HashMap::new() };
        assert(entry@.roles =~= Map::empty());
        entry
    }
}

impl NameCache {
    /// A mirror of nothing.
    pub fn new() -> (cache: NameCache)
        ensures
            cache@ == (NamesView { guilds: Map::empty(), channels: Map::empty() }),
    {
        let cache = NameCache { guilds: HashMap::new(), channels: HashMap::new() };
        assert(cache@ =~= (NamesView { guilds: Map::empty(), channels: Map::empty() }));
        cache
    }

    /// Takes everything the announcement of a server carries.
    pub fn insert_guild(&mut self, guild: &Guild)
        ensures
            final(self)@ == with_guild(old(self)@, *guild),
    {
        let mut roles: HashMap<u64, String> = HashMap::new();
        let mut i: usize = 0;
        assert(roles@.map_values(|name: String| name@) =~= roles_named(guild.roles@.take(0)));
        while i < guild.roles.len()
            invariant
                i <= guild.roles.len(),
                roles@.map_values(|name: String| name@) == roles_named(guild.roles@.take(i as int)),
            decreases guild.roles.len() - i,
        {
            assert(guild.roles@.take(i + 1).drop_last() =~= guild.roles@.take(i as int));
            roles.insert(guild.roles[i].id, guild.roles[i].name.clone());
            assert(roles@.map_values(|name: String| name@) =~= roles_named(
                guild.roles@.take(i + 1),
            ));
            i += 1;
        }
        assert(guild.roles@.take(i as int) =~= guild.roles@);
        let ghost before = self@;
        self.guilds.insert(guild.id, GuildEntry { name: guild.name.clone(), roles });
        let ghost named = NamesView {
            guilds: before.guilds.insert(
                guild.id,
                GuildView { name: guild.name@, roles: roles_named(guild.roles@) },
            ),
            ..before
        };
        assert(self@ =~= named);
        self.insert_channels(&guild.channels);
        self.insert_channels(&guild.threads);
    }

    fn insert_channels(&mut self, channels: &Vec<Channel>)
        ensures
            final(self)@ == with_channels(old(self)@, channels@),
    {
        let ghost before = self@;
        let mut i: usize = 0;
        assert(channels@.take(0) =~= Seq::empty());
        while i < channels.len()
            invariant
                i <= channels.len(),
                self@ == with_channels(before, channels@.take(i as int)),
            decreases channels.len() - i,
        {
            assert(channels@.take(i + 1).drop_last() =~= channels@.take(i as int));
            self.insert_channel(&channels[i]);
            i += 1;
        }
        assert(channels@.take(i as int) =~= channels@);
    }

    /// Forgets a server the bot was removed from, and every channel that belonged to it.
    pub fn remove_guild(&mut self, guild_id: u64)
        ensures
            final(self)@ == without_guild(old(self)@, guild_id),
    {
        self.guilds.remove(&guild_id);
        let ids = table::ids_of(&self.channels);
        let ghost all = self.channels@;
        let mut i: usize = 0;
        while i < ids.len()
            invariant
                i <= ids.len(),
                ids@.no_duplicates(),
                forall|id: u64| ids@.contains(id) <==> #[trigger] all.contains_key(id),
                forall|j: int| i <= j < ids@.len() ==> self.channels@.contains_key(ids@[j]),
                forall|id: u64| #[trigger]
                    self.channels@.contains_key(id) ==> all.contains_key(id)
                        && self.channels@[id] == all[id],
                forall|j: int|
                    0 <= j < i ==> (self.channels@.contains_key(#[trigger] ids@[j]) <==> all[ids@[j]].guild
                        != Some(guild_id)),
                self.guilds@ == old(self).guilds@.remove(guild_id),
                all == old(self).channels@,
            decreases ids.len() - i,
        {
            let id = ids[i];
            assert(ids@.contains(id));
            let gone = match self.channels.get(&id) {
                Some(entry) => match entry.guild {
                    Some(guild) => guild == guild_id,
                    None => false,
                },
                None => false,
            };
            if gone {
                self.channels.remove(&id);
            }
            i += 1;
        }
        proof {
            let kept = without_guild(old(self)@, guild_id);
            assert(self@.guilds =~= kept.guilds);
            assert forall|id: u64| self@.channels.contains_key(id) == #[trigger] kept.channels.contains_key(
                id,
            ) by {
                if all.contains_key(id) {
                    assert(ids@.contains(id));
                    let j = choose|j: int| 0 <= j < ids@.len() && ids@[j] == id;
                    assert(old(self)@.channels[id] == all[id]@);
                }
            }
            assert(self@.channels =~= kept.channels);
            assert(self@ =~= kept);
        }
    }

    /// Renames a server, keeping its roles.
    pub fn rename_guild(&mut self, guild_id: u64, name: &str)
        ensures
            final(self)@ == renamed(old(self)@, guild_id, name@),
    {
        let entry = match self.guilds.remove(&guild_id) {
            Some(entry) => entry,
            None => GuildEntry::blank(),
        };
        self.guilds.insert(guild_id, GuildEntry { name: name.to_owned(), roles: entry.roles });
        assert(self@ =~= renamed(old(self)@, guild_id, name@));
    }

    /// Takes the announcement of a role.
    pub fn insert_role(&mut self, guild_id: u64, role: &Role)
        ensures
            final(self)@ == with_role(old(self)@, guild_id, role.id, role.name@),
    {
        let entry = match self.guilds.remove(&guild_id) {
            Some(entry) => entry,
            None => GuildEntry::blank(),
        };
        let ghost before = entry@;
        let mut roles = entry.roles;
        roles.insert(role.id, role.name.clone());
        let grown = GuildEntry { name: entry.name, roles };
        assert(grown@.roles =~= before.roles.insert(role.id, role.name@));
        self.guilds.insert(guild_id, grown);
        assert(self@ =~= with_role(old(self)@, guild_id, role.id, role.name@));
    }

    /// Forgets a role.
    pub fn remove_role(&mut self, guild_id: u64, role_id: u64)
        ensures
            final(self)@ == without_role(old(self)@, guild_id, role_id),
    {
        match self.guilds.remove(&guild_id) {
            Some(entry) => {
                let ghost before = entry@;
                let mut roles = entry.roles;
                roles.remove(&role_id);
                let shrunk = GuildEntry { name: entry.name, roles };
                assert(shrunk@.roles =~= before.roles.remove(role_id));
                self.guilds.insert(guild_id, shrunk);
            },
            None => {},
        }
        assert(self@ =~= without_role(old(self)@, guild_id, role_id));
    }

    /// Takes the announcement of a channel.
    pub fn insert_channel(&mut self, channel: &Channel)
        ensures
            final(self)@ == with_channel(old(self)@, *channel),
    {
        self.channels.insert(
            channel.id,
            ChannelEntry {
                name: text::copied(&channel.name),
                guild: channel.guild_id,
                parent: channel.parent_id,
                kind: channel.kind,
            },
        );
        assert(self@ =~= with_channel(old(self)@, *channel));
    }

    /// Forgets a channel.
    pub fn remove_channel(&mut self, channel_id: u64)
        ensures
            final(self)@ == (NamesView {
                channels: old(self)@.channels.remove(channel_id),
                ..old(self)@
            }),
    {
        self.channels.remove(&channel_id);
        assert(self@ =~= (NamesView {
            channels: old(self)@.channels.remove(channel_id),
            ..old(self)@
        }));
    }

    /// Which server a channel belongs to, or `None` for a direct message.
    pub fn guild_of(&self, channel_id: u64) -> (guild: Option<u64>)
        ensures
            guild == guild_of(self@, channel_id),
    {
        match self.channels.get(&channel_id) {
            Some(entry) => entry.guild,
            None => None,
        }
    }

    /// What shape of room a channel is.
    ///
    /// The gateway does not carry the channel's type on a message, so this is where a direct
    /// message is told apart from a server channel.
    pub fn kind_of(&self, channel_id: u64) -> (kind: Option<ChannelType>)
        ensures
            kind == kind_of(self@, channel_id),
    {
        match self.channels.get(&channel_id) {
            Some(entry) => Some(entry.kind),
            None => None,
        }
    }

    /// The channel a thread hangs off, so a thread can inherit its parent's allowlist standing.
    pub fn parent_of(&self, channel_id: u64) -> (parent: Option<u64>)
        ensures
            parent == parent_of(self@, channel_id),
    {
        match self.channels.get(&channel_id) {
            Some(entry) => if is_thread(entry.kind) {
                entry.parent
            } else {
                None
            },
            None => None,
        }
    }

    /// The name of a server.
    pub fn guild_name(&self, guild_id: u64) -> (name: Option<String>)
        ensures
            name.deep_view() == guild_name(self@, guild_id),
    {
        match self.guilds.get(&guild_id) {
            Some(entry) => Some(entry.name.clone()),
            None => None,
        }
    }

    /// The name of a role.
    pub fn role_name(&self, guild_id: u64, role_id: u64) -> (name: Option<String>)
        ensures
            name.deep_view() == role_name(self@, guild_id, role_id),
    {
        match self.guilds.get(&guild_id) {
            Some(entry) => match entry.roles.get(&role_id) {
                Some(name) => Some(name.clone()),
                None => None,
            },
            None => None,
        }
    }

    /// Names for a member's roles, in the order the member object listed them.
    ///
    /// A role that was never announced is skipped rather than rendered as its id: an id in a list
    /// of names reads as though somebody is called `847362…`.
    pub fn role_names(&self, guild_id: u64, roles: &Vec<u64>) -> (names: Vec<String>)
        ensures
            names.deep_view() == role_names(self@, guild_id, roles@),
    {
        let mut names: Vec<String> = Vec::new();
        let mut i: usize = 0;
        assert(roles@.take(0) =~= Seq::empty());
        assert(names.deep_view() =~= Seq::empty());
        while i < roles.len()
            invariant
                i <= roles.len(),
                names.deep_view() == role_names(self@, guild_id, roles@.take(i as int)),
            decreases roles.len() - i,
        {
            assert(roles@.take(i + 1).drop_last() =~= roles@.take(i as int));
            if let Some(name) = self.role_name(guild_id, roles[i]) {
                text::push(&mut names, name);
            }
            i += 1;
        }
        assert(roles@.take(i as int) =~= roles@);
        names
    }

    /// A role looked up by name, case insensitively. Where several go by the name, which of them is
    /// found is left open.
    ///
    /// The reverse direction, for changing a member's roles, which takes the names the agent was
    /// shown rather than ids it was never given.
    pub fn role_by_name(&self, guild_id: u64, name: &str) -> (role: Option<u64>)
        ensures
            match role {
                Some(id) => goes_by(self@, guild_id, id, name@),
                None => forall|id: u64| !goes_by(self@, guild_id, id, name@),
            },
    {
        match self.guilds.get(&guild_id) {
            None => None,
            Some(entry) => {
                let ids = table::ids_of(&entry.roles);
                let mut i: usize = 0;
                while i < ids.len()
                    invariant
                        i <= ids.len(),
                        self.guilds@.contains_key(guild_id),
                        *entry == self.guilds@[guild_id],
                        forall|id: u64|
                            ids@.contains(id) <==> #[trigger] entry.roles@.contains_key(id),
                        forall|j: int|
                            0 <= j < i ==> !goes_by(self@, guild_id, #[trigger] ids@[j], name@),
                    decreases ids.len() - i,
                {
                    let id = ids[i];
                    assert(ids@.contains(id));
                    match entry.roles.get(&id) {
                        Some(known) => if text::same_folded(known.as_str(), name) {
                            assert(goes_by(self@, guild_id, id, name@));
                            return Some(id);
                        },
                        None => {},
                    }
                    i += 1;
                }
                assert forall|id: u64| !goes_by(self@, guild_id, id, name@) by {
                    if entry.roles@.contains_key(id) {
                        assert(ids@.contains(id));
                        let j = choose|j: int| 0 <= j < ids@.len() && ids@[j] == id;
                        assert(!goes_by(self@, guild_id, ids@[j], name@));
                    }
                }
                None
            },
        }
    }

    /// Every role name in a server, in order, for telling the agent what it could have asked for.
    pub fn role_catalogue(&self, guild_id: u64) -> (names: Vec<String>)
        ensures
            catalogued(self@, guild_id, names.deep_view()),
    {
        match self.guilds.get(&guild_id) {
            None => {
                let names: Vec<String> = Vec::new();
                assert(names.deep_view() =~= Seq::empty());
                names
            },
            Some(entry) => {
                let ids = table::ids_of(&entry.roles);
                let ghost roles = self@.guilds[guild_id].roles;
                let mut names: Vec<String> = Vec::new();
                let mut i: usize = 0;
                assert(names.deep_view() =~= Seq::empty());
                while i < ids.len()
                    invariant
                        i <= ids.len(),
                        roles == entry@.roles,
                        forall|id: u64|
                            ids@.contains(id) <==> #[trigger] entry.roles@.contains_key(id),
                        names.deep_view() == ids@.take(i as int).map_values(|id: u64| roles[id]),
                    decreases ids.len() - i,
                {
                    let id = ids[i];
                    assert(ids@.contains(id));
                    if let Some(name) = entry.roles.get(&id) {
                        text::push(&mut names, name.clone());
                    }
                    assert(names.deep_view() =~= ids@.take(i + 1).map_values(|id: u64| roles[id]));
                    i += 1;
                }
                assert(ids@.take(i as int) =~= ids@);
                let sorted = text::sort(names);
                assert(listed(roles, ids@));
                sorted
            },
        }
    }

    /// A channel's own name with its `#`, or `None` for a direct message.
    pub fn channel_name(&self, channel_id: u64) -> (name: Option<String>)
        ensures
            name.deep_view() == channel_name(self@, channel_id),
    {
        match self.channels.get(&channel_id) {
            Some(entry) => match &entry.name {
                Some(name) => Some("#".to_owned().concat(name.as_str())),
                None => None,
            },
            None => None,
        }
    }

    /// Where a conversation is, as a person would say it.
    ///
    /// `#deploys in Acme Corp` for a channel, `#deploys › rollback tonight in Acme Corp` for a
    /// thread, and `None` for a direct message or anything that was never announced, so the caller
    /// can say nothing rather than something wrong.
    pub fn describe(&self, channel_id: u64) -> (place: Option<String>)
        ensures
            place.deep_view() == described(self@, channel_id),
    {
        let entry = match self.channels.get(&channel_id) {
            Some(entry) => entry,
            None => {
                return None;
            },
        };
        let name = match &entry.name {
            Some(name) => name,
            None => {
                return None;
            },
        };
        // A thread's own name is the topic; the parent names the room it was started in.
        let parent = match self.parent_of(channel_id) {
            Some(parent) => match self.channels.get(&parent) {
                Some(parent) => text::copied(&parent.name),
                None => None,
            },
            None => None,
        };
        let located = match parent {
            Some(parent) => "#".to_owned().concat(parent.as_str()).concat(" \u{203a} ").concat(
                name.as_str(),
            ),
            None => "#".to_owned().concat(name.as_str()),
        };
        match entry.guild {
            Some(guild) => match self.guild_name(guild) {
                Some(guild) => Some(located.concat(" in ").concat(guild.as_str())),
                None => Some(located),
            },
            None => Some(located),
        }
    }

    /// How many servers and channels are known.
    pub fn size(&self) -> (sizes: (usize, usize))
        ensures
            sizes.0 == self@.guilds.len(),
            sizes.1 == self@.channels.len(),
    {
        assert(self@.guilds.dom() =~= self.guilds@.dom());
        assert(self@.channels.dom() =~= self.channels@.dom());
        (self.guilds.len(), self.channels.len())
    }
}

/// Whether `ids` lists every role once.
pub open spec fn listed(roles: Map<u64, Seq<char>>, ids: Seq<u64>) -> bool {
    ids.no_duplicates() && forall|id: u64| ids.contains(id) <==> #[trigger] roles.contains_key(id)
}

/// Whether `names` are the names of every role of a server, in order.
pub open spec fn catalogued(names: NamesView, guild_id: u64, catalogue: Seq<Seq<char>>) -> bool {
    if names.guilds.contains_key(guild_id) {
        let roles = names.guilds[guild_id].roles;
        &&& text::sorted(catalogue)
        &&& exists|ids: Seq<u64>| #[trigger]
            listed(roles, ids) && catalogue.to_multiset() == ids.map_values(
                |id: u64| roles[id],
            ).to_multiset()
    } else {
        catalogue.len() == 0
    }
}

/// Leaving a server forgets its channels too, and nothing of any other server.
pub proof fn leaving_a_server_forgets_its_channels(
    names: NamesView,
    guild_id: u64,
    channel_id: u64,
    other: u64,
    role_id: u64,
)
    ensures
        guild_of(names, channel_id) == Some(guild_id) ==> described(
            without_guild(names, guild_id),
            channel_id,
        ) is None && kind_of(without_guild(names, guild_id), channel_id) is None,
        guild_of(names, channel_id) != Some(guild_id) ==> kind_of(
            without_guild(names, guild_id),
            channel_id,
        ) == kind_of(names, channel_id) && channel_name(without_guild(names, guild_id), channel_id)
            == channel_name(names, channel_id) && parent_of(
            without_guild(names, guild_id),
            channel_id,
        ) == parent_of(names, channel_id),
        guild_of(names, channel_id) != Some(guild_id) ==> guild_of(
            without_guild(names, guild_id),
            channel_id,
        ) == guild_of(names, channel_id),
        guild_name(without_guild(names, guild_id), guild_id) is None,
        role_name(without_guild(names, guild_id), guild_id, role_id) is None,
        other != guild_id ==> guild_name(without_guild(names, guild_id), other) == guild_name(
            names,
            other,
        ) && role_name(without_guild(names, guild_id), other, role_id) == role_name(
            names,
            other,
            role_id,
        ),
{
}

/// What is announced of a channel is what is known of it, until something else is announced of the
/// same channel.
pub proof fn an_announced_channel_is_known(names: NamesView, channel: Channel, other: u64)
    requires
        other != channel.id,
    ensures
        kind_of(with_channel(names, channel), channel.id) == Some(channel.kind),
        guild_of(with_channel(names, channel), channel.id) == channel.guild_id,
        kind_of(with_channel(names, channel), other) == kind_of(names, other),
        guild_of(with_channel(names, channel), other) == guild_of(names, other),
{
}

/// A role can be found back from the name it was shown under, until it is removed.
pub proof fn a_role_is_found_by_its_name(
    names: NamesView,
    guild_id: u64,
    id: u64,
    name: Seq<char>,
)
    ensures
        goes_by(with_role(names, guild_id, id, name), guild_id, id, name),
        role_name(without_role(with_role(names, guild_id, id, name), guild_id, id), guild_id, id)
            is None,
{
}

/// Renaming a server keeps its roles.
pub proof fn renaming_keeps_the_roles(
    names: NamesView,
    guild_id: u64,
    name: Seq<char>,
    role_id: u64,
)
    ensures
        role_name(renamed(names, guild_id, name), guild_id, role_id) == role_name(
            names,
            guild_id,
            role_id,
        ),
        guild_name(renamed(names, guild_id, name), guild_id) == Some(name),
{
}

} // verus!
