//! What reaches the agent of what Discord announces, stated of the announcement and the event
//! themselves.

use vstd::prelude::*;

use crate::channel::discord::cache::{self, Channel, ChannelType, Guild, NamesView, Role};
use crate::channel::discord::message::{Mention, Message, MessageType, Snapshot, Sticker};
use crate::channel::discord::presence::{self, GuildPresenceView, Status};
use crate::channel::discord::{DiscordChannel, GatewayEvent, Target};
use crate::channel::ids::ConversationView;
use crate::channel::{
    Admission, AttachmentKind, ChannelErrorView, ChatKind, EventView, ForwardView, InboundView,
    Platform, PresenceStatus,
};
use crate::text;
use crate::time::Instant;

verus! {

/// Whether a message was said where nobody but the bot could be meant: in a channel known to be a
/// direct message, or in an unknown one that belongs to no server.
pub open spec fn alone(message: Message, kind: Option<ChannelType>) -> bool {
    kind == Some(ChannelType::Private) || (kind is None && message.guild_id is None)
}

/// Whether a channel is known to be a thread of a channel that is let in.
pub open spec fn hangs_off_a_listed_channel(channel: DiscordChannel, channel_id: u64) -> bool {
    let known = channel.names@.channels;
    known.contains_key(channel_id) && (known[channel_id].kind == ChannelType::PublicThread
        || known[channel_id].kind == ChannelType::PrivateThread || known[channel_id].kind
        == ChannelType::AnnouncementThread) && (known[channel_id].parent matches Some(parent)
        && channel.allowed_channels@.contains(parent))
}

/// Whether the author of a message holds a role that is let in.
pub open spec fn holds_a_listed_role(channel: DiscordChannel, message: Message) -> bool {
    message.member matches Some(member) && exists|i: int|
        0 <= i < member.roles@.len() && channel.allowed_roles@.contains(#[trigger] member.roles@[i])
}

/// Whether a message is from somebody other than the bot, and not one of Discord's notices.
pub open spec fn said_by_somebody(channel: DiscordChannel, message: Message) -> bool {
    message.kind != MessageType::Notice && (channel.identity matches Some(me) ==> me
        != message.author.id)
}

/// Whether a message is let in by anything at all.
pub open spec fn let_in(
    channel: DiscordChannel,
    message: Message,
    kind: Option<ChannelType>,
) -> bool {
    ||| alone(message, kind) && channel.allowed_users@.contains(message.author.id)
    ||| holds_a_listed_role(channel, message)
    ||| channel.allowed_channels@.contains(message.channel_id)
    ||| hangs_off_a_listed_channel(channel, message.channel_id)
    ||| (message.guild_id matches Some(guild) && channel.allowed_guilds@.contains(guild))
    ||| channel.allow_all
}

/// The type of the channel that a message was said in, where it is known.
pub open spec fn kind_known(channel: DiscordChannel, message: Message) -> Option<ChannelType> {
    if channel.names@.channels.contains_key(message.channel_id) {
        Some(channel.names@.channels[message.channel_id].kind)
    } else {
        None
    }
}

/// A message is heard exactly where it is somebody's and let in.
pub proof fn whoever_is_let_in_is_heard(
    channel: DiscordChannel,
    message: Message,
    kind: Option<ChannelType>,
    now: Instant,
)
    ensures
        super::event_of(channel, message, kind, now) is Some <==> said_by_somebody(channel, message)
            && let_in(channel, message, kind),
{
}

/// An edit is told of once, as the message it leaves: with the message's id and the time of the edit.
/// An update that nobody made by editing is not told of at all.
pub proof fn an_edit_is_told_of_once(channel: DiscordChannel, message: Message, now: Instant)
    ensures
        ({
            let told = super::told(channel, GatewayEvent::MessageUpdate { message }, now);
            &&& message.edited_timestamp is None ==> told.len() == 0
            &&& message.edited_timestamp matches Some(micros) ==> {
                &&& said_by_somebody(channel, message) && let_in(
                    channel,
                    message,
                    kind_known(channel, message),
                ) ==> told.len() == 1 && (told[0] matches EventView::Message(inbound)
                    && text::unsigned_in(inbound.message_id, u64::MAX as nat) == Some(
                    message.id as nat,
                ) && inbound.edited_at == Some((micros * 1_000) as Instant))
                &&& !(said_by_somebody(channel, message) && let_in(
                    channel,
                    message,
                    kind_known(channel, message),
                )) ==> told.len() == 0
            }
        }),
{
    text::a_number_survives_its_text_form(message.id as nat, u64::MAX as nat);
}

/// A new message is told of once, edited or not, where it is heard.
pub proof fn a_message_is_told_of_once(channel: DiscordChannel, message: Message, now: Instant)
    ensures
        ({
            let told = super::told(channel, GatewayEvent::MessageCreate { message }, now);
            let heard = said_by_somebody(channel, message) && let_in(
                channel,
                message,
                kind_known(channel, message),
            );
            &&& heard ==> told.len() == 1 && (told[0] matches EventView::Message(inbound)
                && text::unsigned_in(inbound.message_id, u64::MAX as nat) == Some(
                message.id as nat,
            ) && (inbound.edited_at is Some <==> message.edited_timestamp is Some))
            &&& !heard ==> told.len() == 0
        }),
{
    text::a_number_survives_its_text_form(message.id as nat, u64::MAX as nat);
}

/// Whether an event retracts a message of a channel.
pub open spec fn retracts(
    event: EventView,
    id: Seq<char>,
    channel_id: u64,
    message_id: u64,
    now: Instant,
) -> bool {
    event matches EventView::Retraction { conversation, message_id: shown, timestamp } && {
        &&& conversation.channel == id
        &&& text::unsigned_in(conversation.chat, u64::MAX as nat) == Some(channel_id as nat)
        &&& conversation.thread is None
        &&& text::unsigned_in(shown, u64::MAX as nat) == Some(message_id as nat)
        &&& timestamp == now
    }
}

/// A deletion retracts exactly the messages that were deleted, each once and in order.
pub proof fn what_is_deleted_is_retracted(
    channel: DiscordChannel,
    channel_id: u64,
    message_id: u64,
    message_ids: Vec<u64>,
    now: Instant,
    i: int,
)
    ensures
        ({
            let one = super::told(
                channel,
                GatewayEvent::MessageDelete { channel_id, message_id },
                now,
            );
            let all = super::told(
                channel,
                GatewayEvent::MessageDeleteBulk { channel_id, message_ids },
                now,
            );
            &&& one.len() == 1 && retracts(one[0], channel.id@, channel_id, message_id, now)
            &&& all.len() == message_ids@.len()
            &&& 0 <= i < message_ids@.len() ==> retracts(
                all[i],
                channel.id@,
                channel_id,
                message_ids@[i],
                now,
            )
        }),
{
    text::a_number_survives_its_text_form(channel_id as nat, u64::MAX as nat);
    text::a_number_survives_its_text_form(message_id as nat, u64::MAX as nat);
    if 0 <= i < message_ids@.len() {
        text::a_number_survives_its_text_form(message_ids@[i] as nat, u64::MAX as nat);
    }
}

/// Somebody typing is told of, with who and where, unless it is the bot.
pub proof fn somebody_typing_is_told_of(
    channel: DiscordChannel,
    channel_id: u64,
    user_id: u64,
    now: Instant,
)
    ensures
        ({
            let told = super::told(
                channel,
                GatewayEvent::TypingStart { channel_id, user_id },
                now,
            );
            &&& channel.identity == Some(user_id) ==> told.len() == 0
            &&& channel.identity != Some(user_id) ==> told.len() == 1 && (
            told[0] matches EventView::Typing { conversation, author, timestamp } && {
                &&& conversation.channel == channel.id@
                &&& text::unsigned_in(conversation.chat, u64::MAX as nat) == Some(channel_id as nat)
                &&& conversation.thread is None
                &&& text::unsigned_in(author, u64::MAX as nat) == Some(user_id as nat)
                &&& timestamp == now
            })
        }),
{
    text::a_number_survives_its_text_form(channel_id as nat, u64::MAX as nat);
    text::a_number_survives_its_text_form(user_id as nat, u64::MAX as nat);
}

/// What only changes names or presence is not told of.
pub proof fn bookkeeping_is_not_told_of(
    channel: DiscordChannel,
    guild: Guild,
    online: Vec<(u64, Status)>,
    name: String,
    room: Channel,
    role: Role,
    status: Status,
    a: u64,
    b: u64,
    now: Instant,
)
    ensures
        super::told(channel, GatewayEvent::GuildCreate { guild, presences: online }, now).len() == 0,
        super::told(channel, GatewayEvent::GuildUpdate { guild_id: a, name }, now).len() == 0,
        super::told(channel, GatewayEvent::GuildDelete { guild_id: a }, now).len() == 0,
        super::told(channel, GatewayEvent::ChannelChange { channel: room }, now).len() == 0,
        super::told(channel, GatewayEvent::ChannelDelete { channel_id: a }, now).len() == 0,
        super::told(channel, GatewayEvent::RoleChange { guild_id: a, role }, now).len() == 0,
        super::told(channel, GatewayEvent::RoleDelete { guild_id: a, role_id: b }, now).len() == 0,
        super::told(
            channel,
            GatewayEvent::PresenceUpdate { guild_id: a, user_id: b, status },
            now,
        ).len() == 0,
        super::told(channel, GatewayEvent::Other, now).len() == 0,
{
}

/// What the gateway says of channels, roles and servers is what is known of them afterwards, and
/// nothing else changes.
pub proof fn what_is_announced_is_learned(
    names: NamesView,
    room: Channel,
    role: Role,
    guild_id: u64,
    name: String,
    other: u64,
)
    ensures
        ({
            let changed = super::learned(names, GatewayEvent::ChannelChange { channel: room });
            let gone = super::learned(names, GatewayEvent::ChannelDelete { channel_id: room.id });
            &&& changed.channels.contains_key(room.id)
            &&& changed.channels[room.id].kind == room.kind
            &&& changed.channels[room.id].guild == room.guild_id
            &&& changed.channels[room.id].parent == room.parent_id
            &&& room.name matches Some(shown) ==> changed.channels[room.id].name == Some(shown@)
            &&& room.name is None ==> changed.channels[room.id].name is None
            &&& changed.guilds == names.guilds
            &&& other != room.id ==> (changed.channels.contains_key(other)
                <==> names.channels.contains_key(other)) && changed.channels[other]
                == names.channels[other]
            &&& !gone.channels.contains_key(room.id)
            &&& gone.guilds == names.guilds
            &&& other != room.id ==> (gone.channels.contains_key(other)
                <==> names.channels.contains_key(other)) && (names.channels.contains_key(other)
                ==> gone.channels[other] == names.channels[other])
        }),
        ({
            let renamed = super::learned(names, GatewayEvent::GuildUpdate { guild_id, name });
            &&& renamed.guilds.contains_key(guild_id)
            &&& renamed.guilds[guild_id].name == name@
            &&& names.guilds.contains_key(guild_id) ==> renamed.guilds[guild_id].roles
                == names.guilds[guild_id].roles
            &&& other != guild_id && names.guilds.contains_key(other) ==> renamed.guilds[other]
                == names.guilds[other]
            &&& renamed.channels == names.channels
        }),
        ({
            let given = super::learned(names, GatewayEvent::RoleChange { guild_id, role });
            let taken = super::learned(
                names,
                GatewayEvent::RoleDelete { guild_id, role_id: role.id },
            );
            &&& given.guilds.contains_key(guild_id)
            &&& given.guilds[guild_id].roles.contains_key(role.id)
            &&& given.guilds[guild_id].roles[role.id] == role.name@
            &&& names.guilds.contains_key(guild_id) ==> given.guilds[guild_id].name
                == names.guilds[guild_id].name
            &&& names.guilds.contains_key(guild_id) && other != role.id
                && names.guilds[guild_id].roles.contains_key(other)
                ==> given.guilds[guild_id].roles.contains_key(other)
                && given.guilds[guild_id].roles[other] == names.guilds[guild_id].roles[other]
                && taken.guilds[guild_id].roles.contains_key(other)
                && taken.guilds[guild_id].roles[other] == names.guilds[guild_id].roles[other]
            &&& names.guilds.contains_key(guild_id)
                ==> !taken.guilds[guild_id].roles.contains_key(role.id) && taken.guilds[guild_id].name
                == names.guilds[guild_id].name
            &&& given.channels == names.channels && taken.channels == names.channels
        }),
{
}

proof fn channels_are_learned(names: NamesView, rooms: Seq<Channel>, i: int)
    requires
        0 <= i < rooms.len(),
        forall|j: int| i < j < rooms.len() ==> (#[trigger] rooms[j]).id != rooms[i].id,
    ensures
        ({
            let known = cache::with_channels(names, rooms);
            &&& known.guilds == names.guilds
            &&& known.channels.contains_key(rooms[i].id)
            &&& known.channels[rooms[i].id].kind == rooms[i].kind
            &&& known.channels[rooms[i].id].guild == rooms[i].guild_id
            &&& known.channels[rooms[i].id].parent == rooms[i].parent_id
            &&& known.channels[rooms[i].id].name == rooms[i].name.deep_view()
        }),
    decreases rooms.len(),
{
    let before = rooms.drop_last();
    if i < rooms.len() - 1 {
        assert forall|j: int| i < j < before.len() implies (#[trigger] before[j]).id
            != before[i].id by {
            assert(rooms[j].id != rooms[i].id);
        }
        channels_are_learned(names, before, i);
        assert(rooms[rooms.len() - 1].id != rooms[i].id);
    } else {
        guilds_are_left_alone(names, before);
    }
}

proof fn guilds_are_left_alone(names: NamesView, rooms: Seq<Channel>)
    ensures
        cache::with_channels(names, rooms).guilds == names.guilds,
    decreases rooms.len(),
{
    if rooms.len() > 0 {
        guilds_are_left_alone(names, rooms.drop_last());
    }
}

proof fn other_channels_are_left_alone(names: NamesView, rooms: Seq<Channel>, id: u64)
    requires
        forall|j: int| 0 <= j < rooms.len() ==> (#[trigger] rooms[j]).id != id,
    ensures
        cache::with_channels(names, rooms).channels.contains_key(id)
            <==> names.channels.contains_key(id),
        cache::with_channels(names, rooms).channels[id] == names.channels[id],
    decreases rooms.len(),
{
    if rooms.len() > 0 {
        let before = rooms.drop_last();
        assert forall|j: int| 0 <= j < before.len() implies (#[trigger] before[j]).id != id by {
            assert(rooms[j].id != id);
        }
        other_channels_are_left_alone(names, before, id);
        assert(rooms[rooms.len() - 1].id != id);
    }
}

/// A server that comes within reach brings its name, its roles, its channels and its threads.
pub proof fn a_server_brings_everything_it_has(names: NamesView, guild: Guild, i: int)
    ensures
        ({
            let known = cache::with_guild(names, guild);
            let rooms = guild.channels@;
            let threads = guild.threads@;
            &&& known.guilds.contains_key(guild.id)
            &&& known.guilds[guild.id].name == guild.name@
            &&& known.guilds[guild.id].roles == cache::roles_named(guild.roles@)
            &&& 0 <= i < rooms.len() && (forall|j: int|
                i < j < rooms.len() ==> (#[trigger] rooms[j]).id != rooms[i].id) && (forall|j: int|
                0 <= j < threads.len() ==> (#[trigger] threads[j]).id != rooms[i].id)
                ==> known.channels.contains_key(rooms[i].id) && known.channels[rooms[i].id].kind
                == rooms[i].kind && known.channels[rooms[i].id].guild == rooms[i].guild_id
                && known.channels[rooms[i].id].name == rooms[i].name.deep_view()
            &&& 0 <= i < threads.len() && (forall|j: int|
                i < j < threads.len() ==> (#[trigger] threads[j]).id != threads[i].id)
                ==> known.channels.contains_key(threads[i].id) && known.channels[threads[i].id].kind
                == threads[i].kind && known.channels[threads[i].id].parent == threads[i].parent_id
                && known.channels[threads[i].id].name == threads[i].name.deep_view()
        }),
{
    let named = NamesView {
        guilds: names.guilds.insert(
            guild.id,
            cache::GuildView { name: guild.name@, roles: cache::roles_named(guild.roles@) },
        ),
        ..names
    };
    let rooms = guild.channels@;
    let threads = guild.threads@;
    let half = cache::with_channels(named, rooms);
    guilds_are_left_alone(named, rooms);
    guilds_are_left_alone(half, threads);
    if 0 <= i < rooms.len() && (forall|j: int|
        i < j < rooms.len() ==> (#[trigger] rooms[j]).id != rooms[i].id) && (forall|j: int|
        0 <= j < threads.len() ==> (#[trigger] threads[j]).id != rooms[i].id) {
        channels_are_learned(named, rooms, i);
        other_channels_are_left_alone(half, threads, rooms[i].id);
    }
    if 0 <= i < threads.len() && (forall|j: int|
        i < j < threads.len() ==> (#[trigger] threads[j]).id != threads[i].id) {
        channels_are_learned(half, threads, i);
    }
}

/// A role is known by the last name it was listed under.
pub proof fn a_listed_role_is_named(roles: Seq<Role>, i: int, id: u64)
    ensures
        0 <= i < roles.len() && (forall|j: int|
            i < j < roles.len() ==> (#[trigger] roles[j]).id != roles[i].id) ==> cache::roles_named(
            roles,
        ).contains_key(roles[i].id) && cache::roles_named(roles)[roles[i].id] == roles[i].name@,
        cache::roles_named(roles).contains_key(id) <==> exists|j: int|
            0 <= j < roles.len() && (#[trigger] roles[j]).id == id,
    decreases roles.len(),
{
    if roles.len() > 0 {
        let before = roles.drop_last();
        let last = roles.len() - 1;
        if 0 <= i < last && (forall|j: int|
            i < j < roles.len() ==> (#[trigger] roles[j]).id != roles[i].id) {
            assert forall|j: int| i < j < before.len() implies (#[trigger] before[j]).id
                != before[i].id by {
                assert(roles[j].id != roles[i].id);
            }
            a_listed_role_is_named(before, i, id);
            assert(roles[last].id != roles[i].id);
        } else {
            a_listed_role_is_named(before, -1, id);
        }
        if exists|j: int| 0 <= j < before.len() && (#[trigger] before[j]).id == id {
            let j = choose|j: int| 0 <= j < before.len() && (#[trigger] before[j]).id == id;
            assert(roles[j].id == id);
        }
        if exists|j: int| 0 <= j < roles.len() && (#[trigger] roles[j]).id == id {
            let j = choose|j: int| 0 <= j < roles.len() && (#[trigger] roles[j]).id == id;
            if j < last {
                assert(before[j].id == id);
            }
        }
        assert(roles[last].id == roles.last().id);
    }
}

/// Where a channel is said to be: its name behind a hash, the channel it hangs off before it where it
/// is a thread, and its server behind it, each as far as it is known. Where it has no name, nowhere.
pub proof fn a_place_is_described_by_its_names(names: NamesView, channel_id: u64)
    ensures
        ({
            let place = cache::described(names, channel_id);
            let known = names.channels.contains_key(channel_id);
            let entry = names.channels[channel_id];
            let thread = entry.kind == ChannelType::PublicThread || entry.kind
                == ChannelType::PrivateThread || entry.kind == ChannelType::AnnouncementThread;
            let under = thread && (entry.parent matches Some(parent) && names.channels.contains_key(
                parent,
            ) && names.channels[parent].name is Some);
            let served = entry.guild matches Some(guild) && names.guilds.contains_key(guild);
            &&& place is Some <==> known && entry.name is Some
            &&& place matches Some(place) ==> {
                let own = entry.name->0;
                let room = if under {
                    seq!['#'] + names.channels[entry.parent->0].name->0 + seq![
                        ' ',
                        '\u{203a}',
                        ' ',
                    ] + own
                } else {
                    seq!['#'] + own
                };
                &&& served ==> place == room + seq![' ', 'i', 'n', ' ']
                    + names.guilds[entry.guild->0].name
                &&& !served ==> place == room
            }
            &&& cache::channel_name(names, channel_id) is Some <==> known && entry.name is Some
            &&& known ==> (entry.name matches Some(own) ==> cache::channel_name(names, channel_id)
                == Some(seq!['#'] + own))
        }),
{
    reveal_strlit("#");
    reveal_strlit(" \u{203a} ");
    reveal_strlit(" in ");
    assert("#"@ =~= seq!['#']);
    assert(" \u{203a} "@ =~= seq![' ', '\u{203a}', ' ']);
    assert(" in "@ =~= seq![' ', 'i', 'n', ' ']);
}

/// Who is online is what Discord last said, as of when it said it. Nobody else is touched, and nothing
/// is said of a server that is not watched.
pub proof fn a_status_is_what_was_last_said(
    guilds: Map<u64, GuildPresenceView>,
    guild_id: u64,
    user: u64,
    status: Status,
    now: Instant,
    other: u64,
)
    requires
        guilds.contains_key(guild_id),
    ensures
        ({
            let later = super::noticed(
                true,
                guilds,
                GatewayEvent::PresenceUpdate { guild_id, user_id: user, status },
                now,
            );
            let mine = presence::known(later, guild_id, user);
            &&& mine.as_of == Some(now)
            &&& mine.status == PresenceStatus::Online <==> status == Status::Online
            &&& mine.status == PresenceStatus::Idle <==> status == Status::Idle
            &&& mine.status == PresenceStatus::DoNotDisturb <==> status == Status::DoNotDisturb
            &&& mine.status == PresenceStatus::Offline <==> (status == Status::Offline || status
                == Status::Invisible)
            &&& other != user ==> presence::known(later, guild_id, other).status == presence::known(
                guilds,
                guild_id,
                other,
            ).status
            &&& other != guild_id ==> presence::known(later, other, user) == presence::known(
                guilds,
                other,
                user,
            )
        }),
{
}

/// Seeding a server says of everybody listed what the list says last, and of everybody else that they
/// are offline, as of now. It is done only where presence is watched.
pub proof fn a_seed_says_it_of_everybody(
    guilds: Map<u64, GuildPresenceView>,
    guild: Guild,
    online: Vec<(u64, Status)>,
    user: u64,
    status: Status,
    now: Instant,
    other: u64,
)
    ensures
        super::noticed(
            false,
            guilds,
            GatewayEvent::GuildCreate { guild, presences: online },
            now,
        ) == guilds,
        ({
            let later = super::noticed(
                true,
                guilds,
                GatewayEvent::GuildCreate { guild, presences: online },
                now,
            );
            let mine = presence::known(later, guild.id, user);
            &&& mine.as_of == Some(now)
            &&& online@.len() > 0 && online@.last() == (user, Status::Online) ==> mine.status
                == PresenceStatus::Online
            &&& online@.len() > 0 && online@.last() == (user, Status::Idle) ==> mine.status
                == PresenceStatus::Idle
            &&& online@.len() > 0 && online@.last() == (user, Status::DoNotDisturb) ==> mine.status
                == PresenceStatus::DoNotDisturb
            &&& (forall|j: int| 0 <= j < online@.len() ==> (#[trigger] online@[j]).0 != user)
                ==> mine.status == PresenceStatus::Offline
            &&& other != guild.id ==> presence::known(later, other, user) == presence::known(
                guilds,
                other,
                user,
            )
        }),
        super::noticed(true, guilds, GatewayEvent::GuildDelete { guild_id: guild.id }, now)
            == guilds.remove(guild.id),
        super::noticed(true, guilds, GatewayEvent::Other, now) == guilds,
{
    if forall|j: int| 0 <= j < online@.len() ==> (#[trigger] online@[j]).0 != user {
        nobody_unlisted_is_tallied(online@, user);
    }
}

proof fn nobody_unlisted_is_tallied(online: Seq<(u64, Status)>, user: u64)
    requires
        forall|j: int| 0 <= j < online.len() ==> (#[trigger] online[j]).0 != user,
    ensures
        !presence::tallied(online).contains_key(user),
    decreases online.len(),
{
    if online.len() > 0 {
        let before = online.drop_last();
        assert forall|j: int| 0 <= j < before.len() implies (#[trigger] before[j]).0 != user by {
            assert(online[j].0 != user);
        }
        nobody_unlisted_is_tallied(before, user);
        assert(online[online.len() - 1].0 != user);
    }
}

/// Why somebody is let in is the narrowest true reason: by name in a direct message, by role, by
/// channel, by server, or because the channel is open.
pub proof fn the_reason_is_the_narrowest(
    channel: DiscordChannel,
    message: Message,
    kind: Option<ChannelType>,
    now: Instant,
    inbound: InboundView,
)
    requires
        super::event_of(channel, message, kind, now) == Some(inbound),
    ensures
        ({
            let named = alone(message, kind) && channel.allowed_users@.contains(message.author.id);
            let roled = holds_a_listed_role(channel, message);
            let placed = channel.allowed_channels@.contains(message.channel_id)
                || hangs_off_a_listed_channel(channel, message.channel_id);
            let served = message.guild_id matches Some(guild) && channel.allowed_guilds@.contains(
                guild,
            );
            &&& inbound.admission == Admission::User <==> named
            &&& inbound.admission == Admission::Role <==> !named && roled
            &&& inbound.admission == Admission::Chat <==> !named && !roled && placed
            &&& inbound.admission == Admission::Server <==> !named && !roled && !placed && served
            &&& inbound.admission == Admission::Open <==> !named && !roled && !placed && !served
        }),
{
}

/// The event of a message names the channel, the message and its times as Discord does.
pub proof fn an_event_says_where_and_when(
    channel: DiscordChannel,
    message: Message,
    kind: Option<ChannelType>,
    now: Instant,
    inbound: InboundView,
)
    requires
        super::event_of(channel, message, kind, now) == Some(inbound),
    ensures
        inbound.channel == channel.id@,
        inbound.platform == Platform::Discord,
        inbound.conversation.channel == channel.id@,
        text::unsigned_in(inbound.conversation.chat, u64::MAX as nat) == Some(
            message.channel_id as nat,
        ),
        inbound.conversation.thread is None,
        text::unsigned_in(inbound.message_id, u64::MAX as nat) == Some(message.id as nat),
        message.edited_timestamp is None ==> inbound.external_id == inbound.message_id
            && inbound.edited_at is None,
        message.edited_timestamp matches Some(micros) ==> inbound.external_id == inbound.message_id
            + seq![':', 'e'] + text::signed_decimal(micros as int / 1_000) && inbound.edited_at
            == Some((micros * 1_000) as Instant),
        -62_135_596_800_000_000 <= message.timestamp <= 253_402_300_799_999_999
            ==> inbound.timestamp == message.timestamp * 1_000,
        inbound.timestamp == message.timestamp * 1_000 || inbound.timestamp == now,
        !inbound.arrived_mid_turn,
        inbound.group_id is None,
        inbound.chat_title == cache::described(channel.names@, message.channel_id),
        inbound.chat_kind == ChatKind::Direct <==> alone(message, kind),
        inbound.chat_kind == ChatKind::Channel <==> kind == Some(ChannelType::GuildAnnouncement)
            || kind == Some(ChannelType::AnnouncementThread),
        inbound.chat_kind == ChatKind::Group <==> kind == Some(ChannelType::GuildText) || kind == Some(
            ChannelType::GuildVoice,
        ) || kind == Some(ChannelType::GuildStageVoice) || kind == Some(ChannelType::PublicThread)
            || kind == Some(ChannelType::PrivateThread) || kind == Some(ChannelType::Group),
{
    reveal_strlit(":e");
    assert(":e"@ =~= seq![':', 'e']);
    text::a_number_survives_its_text_form(message.channel_id as nat, u64::MAX as nat);
    text::a_number_survives_its_text_form(message.id as nat, u64::MAX as nat);
}

/// The event of a message names its author: by nickname, else by display name, else by account name.
/// A webhook speaks for the chat.
pub proof fn an_event_says_who(
    channel: DiscordChannel,
    message: Message,
    kind: Option<ChannelType>,
    now: Instant,
    inbound: InboundView,
)
    requires
        super::event_of(channel, message, kind, now) == Some(inbound),
    ensures
        text::unsigned_in(inbound.sender.id, u64::MAX as nat) == Some(message.author.id as nat),
        inbound.sender.username == Some(message.author.name@),
        inbound.sender.is_bot == message.author.bot,
        inbound.sender.on_behalf_of_chat == message.via_webhook,
        inbound.sender_allowlisted <==> channel.allowed_users@.contains(message.author.id),
        ({
            let nick = match message.member {
                Some(member) => member.nick,
                None => None,
            };
            &&& nick matches Some(nick) ==> inbound.sender.display_name == nick@
            &&& nick is None ==> (message.author.global_name matches Some(shown)
                ==> inbound.sender.display_name == shown@)
            &&& nick is None && message.author.global_name is None ==> inbound.sender.display_name
                == message.author.name@
        }),
        message.guild_id is None || message.member is None ==> inbound.sender_roles.len() == 0,
{
    text::a_number_survives_its_text_form(message.author.id as nat, u64::MAX as nat);
}

/// The roles of a sender are named in order, each that is known and no other.
pub proof fn known_roles_are_named(names: NamesView, guild_id: u64, roles: Seq<u64>, role: u64)
    ensures
        ({
            let before = cache::role_names(names, guild_id, roles);
            let after = cache::role_names(names, guild_id, roles.push(role));
            let known = names.guilds.contains_key(guild_id)
                && names.guilds[guild_id].roles.contains_key(role);
            &&& cache::role_names(names, guild_id, Seq::empty()).len() == 0
            &&& known ==> after == before.push(names.guilds[guild_id].roles[role])
            &&& !known ==> after == before
        }),
{
    assert(roles.push(role).drop_last() =~= roles);
}

/// The roles of an event are those that its message lists, in the message's server.
pub proof fn an_event_names_the_roles_listed(
    channel: DiscordChannel,
    message: Message,
    kind: Option<ChannelType>,
    now: Instant,
    inbound: InboundView,
)
    requires
        super::event_of(channel, message, kind, now) == Some(inbound),
        message.guild_id is Some,
        message.member is Some,
    ensures
        inbound.sender_roles == cache::role_names(
            channel.names@,
            message.guild_id->0,
            message.member->0.roles@,
        ),
{
}

/// A message is aimed at the bot in a direct message, where it names the bot, and where it answers the
/// bot; nowhere else. A bot that does not know itself is named by nothing.
pub proof fn an_event_says_whether_it_was_aimed(
    channel: DiscordChannel,
    message: Message,
    kind: Option<ChannelType>,
    now: Instant,
    inbound: InboundView,
)
    requires
        super::event_of(channel, message, kind, now) == Some(inbound),
    ensures
        inbound.addressed <==> {
            ||| kind == Some(ChannelType::Private)
            ||| message.guild_id is None
            ||| (channel.identity matches Some(me) && exists|i: int|
                0 <= i < message.mentions@.len() && (#[trigger] message.mentions@[i]).id == me)
            ||| (channel.identity matches Some(me) && (
            message.referenced_message matches Some(replied) && replied.author.id == me))
        },
{
}

/// A message that holds no markup and forwards nothing says exactly what was written.
pub proof fn an_event_says_what_was_written(
    channel: DiscordChannel,
    message: Message,
    kind: Option<ChannelType>,
    now: Instant,
    inbound: InboundView,
)
    requires
        super::event_of(channel, message, kind, now) == Some(inbound),
        message.snapshots@.len() == 0,
        !message.content@.contains('<'),
    ensures
        inbound.text == message.content@,
        inbound.forwarded_from is None,
{
    super::plain_text_is_left_alone(
        channel.names@,
        message.content@,
        message.mentions@,
        message.guild_id,
    );
}

/// What is forwarded stands under what was written about it, a blank line between, and by itself where
/// nothing was written. Forwards that show nothing are left out.
pub proof fn a_forward_stands_under_the_text(
    names: NamesView,
    body: Seq<char>,
    snapshots: Seq<Snapshot>,
    snapshot: Snapshot,
    guild_id: Option<u64>,
)
    requires
        !snapshot.content@.contains('<'),
    ensures
        ({
            let before = super::with_snapshots(names, body, snapshots, guild_id);
            let after = super::with_snapshots(names, body, snapshots.push(snapshot), guild_id);
            &&& super::with_snapshots(names, body, Seq::empty(), guild_id) == body
            &&& text::blank(snapshot.content@) ==> after == before
            &&& !text::blank(snapshot.content@) && before.len() == 0 ==> after == snapshot.content@
            &&& !text::blank(snapshot.content@) && before.len() > 0 ==> after == before + seq![
                '\n',
                '\n',
            ] + snapshot.content@
        }),
{
    reveal_strlit("\n\n");
    assert("\n\n"@ =~= seq!['\n', '\n']);
    assert(snapshots.push(snapshot).drop_last() =~= snapshots);
    super::plain_text_is_left_alone(names, snapshot.content@, snapshot.mentions@, guild_id);
}

/// A message that forwards something says so, without naming whom it is from.
pub proof fn a_forward_is_said_to_be_one(
    channel: DiscordChannel,
    message: Message,
    kind: Option<ChannelType>,
    now: Instant,
    inbound: InboundView,
)
    requires
        super::event_of(channel, message, kind, now) == Some(inbound),
    ensures
        inbound.forwarded_from is Some <==> message.snapshots@.len() > 0,
        inbound.forwarded_from matches Some(origin) ==> origin == (ForwardView::HiddenUser {
            name: "someone else (Discord does not name the author of a forward)"@,
        }),
        inbound.text == super::with_snapshots(
            channel.names@,
            super::dementioned(
                channel.names@,
                message.content@,
                message.mentions@,
                message.guild_id,
            ),
            message.snapshots@,
            message.guild_id,
        ),
{
}

/// Text around a token stays as it is, and the token is read by itself.
pub proof fn only_tokens_are_read(
    names: NamesView,
    before: Seq<char>,
    token: Seq<char>,
    after: Seq<char>,
    mentions: Seq<Mention>,
    guild_id: Option<u64>,
)
    requires
        !before.contains('<'),
        !token.contains('>'),
    ensures
        super::dementioned(
            names,
            before + seq!['<'] + token + seq!['>'] + after,
            mentions,
            guild_id,
        ) == before + super::token_text(names, token, mentions, guild_id) + super::dementioned(
            names,
            after,
            mentions,
            guild_id,
        ),
    decreases before.len(),
{
    let whole = before + seq!['<'] + token + seq!['>'] + after;
    let read = super::token_text(names, token, mentions, guild_id);
    let rest = super::dementioned(names, after, mentions, guild_id);
    if before.len() == 0 {
        let inner = whole.skip(1);
        assert(inner =~= token + seq!['>'] + after);
        text::until_is_a_prefix(inner, '>');
        let first = text::until(inner, '>');
        assert(inner[token.len() as int] == '>');
        if first.len() < token.len() {
            assert(inner[first.len() as int] == token[first.len() as int]);
            assert(token.contains(token[first.len() as int]));
        }
        assert(first.len() == token.len());
        assert(first =~= token);
        assert(inner.skip((first.len() + 1) as int) =~= after);
        assert(before + read + rest =~= read + rest);
    } else {
        let less = before.skip(1);
        assert(before[0] != '<') by {
            assert(before.contains(before[0]));
        }
        assert(!less.contains('<')) by {
            if less.contains('<') {
                let i = choose|i: int| 0 <= i < less.len() && less[i] == '<';
                assert(before[i + 1] == '<');
            }
        }
        only_tokens_are_read(names, less, token, after, mentions, guild_id);
        assert(whole.skip(1) =~= less + seq!['<'] + token + seq!['>'] + after);
        assert(seq![before[0]] + (less + read + rest) =~= before + read + rest);
    }
}

/// A person is read by the name the message gives them, their nickname first, and as somebody where it
/// gives none. The old form with an exclamation mark reads the same.
pub proof fn a_person_is_read_by_name(
    names: NamesView,
    id: u64,
    mentions: Seq<Mention>,
    guild_id: Option<u64>,
    i: int,
)
    ensures
        ({
            let token = seq!['@'] + text::decimal(id as nat);
            let old = seq!['@', '!'] + text::decimal(id as nat);
            let read = super::token_text(names, token, mentions, guild_id);
            &&& super::token_text(names, old, mentions, guild_id) == read
            &&& (forall|j: int| 0 <= j < mentions.len() ==> (#[trigger] mentions[j]).id != id) ==> read
                == "@someone"@
            &&& 0 <= i < mentions.len() && mentions[i].id == id && (forall|j: int|
                0 <= j < i ==> (#[trigger] mentions[j]).id != id) ==> {
                &&& mentions[i].nick matches Some(nick) ==> read == seq!['@'] + nick@
                &&& mentions[i].nick is None ==> read == seq!['@'] + mentions[i].name@
            }
        }),
{
    reveal_strlit("@&");
    reveal_strlit("@");
    reveal_strlit("!");
    let digits = text::decimal(id as nat);
    let token = seq!['@'] + digits;
    let old = seq!['@', '!'] + digits;
    text::a_number_survives_its_text_form(id as nat, u64::MAX as nat);
    assert(text::is_digit(digits[0]));
    assert("@"@ =~= seq!['@']);
    assert("!"@ =~= seq!['!']);
    assert(!text::begins(token, "@&"@)) by {
        assert("@&"@[1] == '&');
        if text::begins(token, "@&"@) {
            assert(token.take(2)[1] == '&');
        }
    }
    assert(!text::begins(old, "@&"@)) by {
        if text::begins(old, "@&"@) {
            assert(old.take(2)[1] == '&');
        }
    }
    assert(token.take(1) =~= seq!['@']);
    assert(old.take(1) =~= seq!['@']);
    assert(token.skip(1) =~= digits);
    let marked = old.skip(1);
    assert(marked =~= seq!['!'] + digits);
    assert(marked.take(1) =~= seq!['!']);
    assert(marked.skip(1) =~= digits);
    assert(!text::begins(digits, "!"@)) by {
        if text::begins(digits, "!"@) {
            assert(digits.take(1)[0] == '!');
        }
    }
    if forall|j: int| 0 <= j < mentions.len() ==> (#[trigger] mentions[j]).id != id {
        nobody_mentioned_has_no_name(mentions, id);
    }
    if 0 <= i < mentions.len() && mentions[i].id == id && (forall|j: int|
        0 <= j < i ==> (#[trigger] mentions[j]).id != id) {
        the_first_mention_names(mentions, id, i);
    }
}

proof fn nobody_mentioned_has_no_name(mentions: Seq<Mention>, id: u64)
    requires
        forall|j: int| 0 <= j < mentions.len() ==> (#[trigger] mentions[j]).id != id,
    ensures
        super::mention_name(mentions, id as nat) is None,
    decreases mentions.len(),
{
    if mentions.len() > 0 {
        let rest = mentions.skip(1);
        assert(mentions[0].id != id);
        assert forall|j: int| 0 <= j < rest.len() implies (#[trigger] rest[j]).id != id by {
            assert(mentions[j + 1].id != id);
        }
        nobody_mentioned_has_no_name(rest, id);
    }
}

proof fn the_first_mention_names(mentions: Seq<Mention>, id: u64, i: int)
    requires
        0 <= i < mentions.len(),
        mentions[i].id == id,
        forall|j: int| 0 <= j < i ==> (#[trigger] mentions[j]).id != id,
    ensures
        mentions[i].nick matches Some(nick) ==> super::mention_name(mentions, id as nat) == Some(
            nick@,
        ),
        mentions[i].nick is None ==> super::mention_name(mentions, id as nat) == Some(
            mentions[i].name@,
        ),
    decreases i,
{
    if i > 0 {
        let rest = mentions.skip(1);
        assert(mentions[0].id != id);
        assert forall|j: int| 0 <= j < i - 1 implies (#[trigger] rest[j]).id != id by {
            assert(mentions[j + 1].id != id);
        }
        the_first_mention_names(rest, id, i - 1);
    }
}

/// A role and a channel are read by the names they are known under, and as a role or a channel where
/// they are not known.
pub proof fn a_role_and_a_channel_are_read_by_name(
    names: NamesView,
    id: u64,
    mentions: Seq<Mention>,
    guild_id: u64,
)
    requires
        id > 0,
    ensures
        ({
            let token = seq!['@', '&'] + text::decimal(id as nat);
            let read = super::token_text(names, token, mentions, Some(guild_id));
            let known = names.guilds.contains_key(guild_id)
                && names.guilds[guild_id].roles.contains_key(id);
            &&& known ==> read == seq!['@'] + names.guilds[guild_id].roles[id]
            &&& !known ==> read == "@a role"@
            &&& super::token_text(names, token, mentions, None) == "@a role"@
        }),
        ({
            let token = seq!['#'] + text::decimal(id as nat);
            let read = super::token_text(names, token, mentions, Some(guild_id));
            let known = names.channels.contains_key(id) && names.channels[id].name is Some;
            &&& known ==> read == seq!['#'] + names.channels[id].name->0
            &&& !known ==> read == "#a channel"@
        }),
{
    reveal_strlit("@&");
    reveal_strlit("@");
    reveal_strlit("#");
    let digits = text::decimal(id as nat);
    text::a_number_survives_its_text_form(id as nat, u64::MAX as nat);
    let role = seq!['@', '&'] + digits;
    let room = seq!['#'] + digits;
    assert("@&"@ =~= seq!['@', '&']);
    assert("@"@ =~= seq!['@']);
    assert("#"@ =~= seq!['#']);
    assert(role.take(2) =~= seq!['@', '&']);
    assert(role.skip(2) =~= digits);
    assert(!text::begins(room, "@&"@)) by {
        if text::begins(room, "@&"@) {
            assert(room.take(2)[0] == '@');
        }
    }
    assert(!text::begins(room, "@"@)) by {
        if text::begins(room, "@"@) {
            assert(room.take(1)[0] == '@');
        }
    }
    assert(room.take(1) =~= seq!['#']);
    assert(room.skip(1) =~= digits);
}

/// A custom emoji is read as its name between colons, moving or not, and a token that is nothing known
/// stays as it was written.
pub proof fn an_emoji_is_read_by_name(
    names: NamesView,
    name: Seq<char>,
    id: Seq<char>,
    other: Seq<char>,
    mentions: Seq<Mention>,
    guild_id: Option<u64>,
)
    requires
        !name.contains(':'),
    ensures
        super::token_text(names, seq![':'] + name + seq![':'] + id, mentions, guild_id) == seq![':']
            + name + seq![':'],
        super::token_text(names, seq!['a', ':'] + name + seq![':'] + id, mentions, guild_id)
            == seq![':'] + name + seq![':'],
        other.len() > 0 && other[0] != '@' && other[0] != '#' && other[0] != 't' && other[0] != 'a'
            && other[0] != ':' ==> super::token_text(names, other, mentions, guild_id) == seq!['<']
            + other + seq!['>'],
{
    reveal_strlit("@&");
    reveal_strlit("@");
    reveal_strlit("#");
    reveal_strlit("t:");
    reveal_strlit("a");
    reveal_strlit(":");
    reveal_strlit("<");
    reveal_strlit(">");
    let still = seq![':'] + name + seq![':'] + id;
    let moving = seq!['a', ':'] + name + seq![':'] + id;
    assert(":"@ =~= seq![':']);
    assert("a"@ =~= seq!['a']);
    assert("<"@ =~= seq!['<']);
    assert(">"@ =~= seq!['>']);
    no_token_of_a_kind(still);
    no_token_of_a_kind(moving);
    assert(!text::begins(still, "a"@)) by {
        if text::begins(still, "a"@) {
            assert(still.take(1)[0] == 'a');
        }
    }
    assert(moving.take(1) =~= seq!['a']);
    assert(moving.skip(1) =~= still);
    assert(still.take(1) =~= seq![':']);
    let inner = still.skip(1);
    assert(inner =~= name + seq![':'] + id);
    text::until_is_a_prefix(inner, ':');
    let first = text::until(inner, ':');
    assert(inner[name.len() as int] == ':');
    if first.len() < name.len() {
        assert(inner[first.len() as int] == name[first.len() as int]);
        assert(name.contains(name[first.len() as int]));
    }
    assert(first =~= name);
    if other.len() > 0 && other[0] != '@' && other[0] != '#' && other[0] != 't' && other[0] != 'a'
        && other[0] != ':' {
        no_token_of_a_kind(other);
        assert(!text::begins(other, "a"@)) by {
            if text::begins(other, "a"@) {
                assert(other.take(1)[0] == 'a');
            }
        }
        assert(!text::begins(other, ":"@)) by {
            if text::begins(other, ":"@) {
                assert(other.take(1)[0] == ':');
            }
        }
    }
}

proof fn no_token_of_a_kind(token: Seq<char>)
    requires
        token.len() > 0,
        token[0] != '@',
        token[0] != '#',
        token[0] != 't',
    ensures
        !text::begins(token, "@&"@),
        !text::begins(token, "@"@),
        !text::begins(token, "#"@),
        !text::begins(token, "t:"@),
{
    reveal_strlit("@&");
    reveal_strlit("@");
    reveal_strlit("#");
    reveal_strlit("t:");
    if text::begins(token, "@&"@) {
        assert(token.take(2)[0] == '@');
    }
    if text::begins(token, "@"@) {
        assert(token.take(1)[0] == '@');
    }
    if text::begins(token, "#"@) {
        assert(token.take(1)[0] == '#');
    }
    if text::begins(token, "t:"@) {
        assert(token.take(2)[0] == 't');
    }
}

/// An answer carries what it answers: the id, the name of its author, and its text, trimmed, on one
/// line and cut off behind its first characters. Where Discord does not hand the message over, the id
/// alone.
pub proof fn an_event_says_what_it_answers(
    channel: DiscordChannel,
    message: Message,
    kind: Option<ChannelType>,
    now: Instant,
    inbound: InboundView,
)
    requires
        super::event_of(channel, message, kind, now) == Some(inbound),
    ensures
        inbound.reply_to is Some <==> message.referenced_message is Some || message.reference_id
            is Some,
        message.referenced_message matches Some(replied) ==> {
            let reply = inbound.reply_to->0;
            &&& text::unsigned_in(reply.message_id, u64::MAX as nat) == Some(replied.id as nat)
            &&& replied.author.global_name matches Some(shown) ==> reply.sender_name == Some(shown@)
            &&& replied.author.global_name is None ==> reply.sender_name == Some(
                replied.author.name@,
            )
            &&& !replied.content@.contains('<') ==> {
                let said = text::trimmed(replied.content@);
                &&& reply.excerpt is None <==> text::blank(replied.content@)
                &&& reply.excerpt matches Some(excerpt) ==> {
                    &&& said.len() <= 160 ==> excerpt.len() == said.len()
                    &&& said.len() > 160 ==> excerpt.len()
                        == 161
                    &&& forall|i: int|
                        0 <= i < excerpt.len() && i < 160
                            ==> #[trigger] excerpt[i] == (if said[i] == '\n' {
                            ' '
                        } else {
                            said[i]
                        })
                }
            }
        },
        message.referenced_message is None ==> (message.reference_id matches Some(id) ==> {
            let reply = inbound.reply_to->0;
            &&& text::unsigned_in(reply.message_id, u64::MAX as nat) == Some(id as nat)
            &&& reply.sender_name is None
            &&& reply.excerpt is None
        }),
{
    if let Some(replied) = message.referenced_message {
        text::a_number_survives_its_text_form(replied.id as nat, u64::MAX as nat);
        let guild = match replied.guild_id {
            Some(guild) => Some(guild),
            None => message.guild_id,
        };
        if !replied.content@.contains('<') {
            super::plain_text_is_left_alone(
                channel.names@,
                replied.content@,
                replied.mentions@,
                guild,
            );
            text::trimming_blank_text_leaves_nothing(replied.content@);
        }
    }
    if let Some(id) = message.reference_id {
        text::a_number_survives_its_text_form(id as nat, u64::MAX as nat);
    }
}

/// Every file on a message is attached to its event, in order: by its channel, message and own id, with
/// its name, type and size. Its type says what it is, and a sound with a waveform is a voice message.
pub proof fn an_event_carries_the_files(
    channel: DiscordChannel,
    message: Message,
    kind: Option<ChannelType>,
    now: Instant,
    inbound: InboundView,
    i: int,
)
    requires
        super::event_of(channel, message, kind, now) == Some(inbound),
        0 <= i < message.attachments@.len(),
    ensures
        inbound.attachments.len() == message.attachments@.len(),
        ({
            let file = message.attachments@[i];
            let shown = inbound.attachments[i];
            &&& shown.file_ref == text::decimal(message.channel_id as nat) + seq!['/']
                + text::decimal(message.id as nat) + seq!['/'] + text::decimal(file.id as nat)
            &&& shown.file_name == Some(file.filename@)
            &&& shown.bytes == Some(file.size)
            &&& file.content_type is None ==> shown.media_type is None && shown.kind
                == AttachmentKind::Document
            &&& file.content_type matches Some(mime) ==> shown.media_type == Some(mime@)
            &&& file.content_type matches Some(mime) ==> (text::begins(mime@, "audio/"@) ==> {
                &&& file.timed && file.waveform ==> shown.kind == AttachmentKind::Voice
                &&& !file.timed || !file.waveform ==> shown.kind == AttachmentKind::Audio
            })
            &&& file.content_type matches Some(mime) ==> (text::begins(mime@, "video/"@) ==> shown.kind
                == AttachmentKind::Video)
            &&& file.content_type matches Some(mime) ==> (text::begins(mime@, "image/"@) ==> (shown.kind
                == AttachmentKind::Animation <==> mime@ == "image/gif"@) && (shown.kind
                == AttachmentKind::Photo <==> mime@ != "image/gif"@))
            &&& shown.thumb_ref is None && shown.handle is None
            &&& shown.width is None && shown.height is None && shown.duration_secs is None
        }),
{
    reveal_strlit("/");
    reveal_strlit("image/gif");
    reveal_strlit("image/");
    reveal_strlit("video/");
    reveal_strlit("audio/");
    assert("/"@ =~= seq!['/']);
    if let Some(mime) = message.attachments@[i].content_type {
        if text::begins(mime@, "audio/"@) {
            assert(mime@.take(6)[0] == 'a');
            assert(mime@[0] == 'a');
        }
        if text::begins(mime@, "video/"@) {
            assert(mime@.take(6)[0] == 'v');
            assert(mime@[0] == 'v');
        }
        if text::begins(mime@, "image/"@) {
            assert(mime@.take(6)[0] == 'i');
            assert(mime@[0] == 'i');
        }
    }
}

/// A file is what its media type says: a GIF is an animation, any other image a photo, a video a video,
/// a sound a voice message or a piece of audio, and anything else a document.
pub proof fn a_file_is_what_its_type_says(media_type: Seq<char>, rest: Seq<char>, voice: bool)
    ensures
        super::file_kind(Some("image/gif"@), voice) == AttachmentKind::Animation,
        media_type == "image/"@ + rest && media_type != "image/gif"@ ==> super::file_kind(
            Some(media_type),
            voice,
        ) == AttachmentKind::Photo,
        media_type == "video/"@ + rest ==> super::file_kind(Some(media_type), voice)
            == AttachmentKind::Video,
        media_type == "audio/"@ + rest && voice ==> super::file_kind(Some(media_type), voice)
            == AttachmentKind::Voice,
        media_type == "audio/"@ + rest && !voice ==> super::file_kind(Some(media_type), voice)
            == AttachmentKind::Audio,
        media_type.len() == 0 || (media_type[0] != 'i' && media_type[0] != 'v' && media_type[0]
            != 'a') ==> super::file_kind(Some(media_type), voice) == AttachmentKind::Document,
        super::file_kind(None, voice) == AttachmentKind::Document,
{
    reveal_strlit("image/gif");
    reveal_strlit("image/");
    reveal_strlit("video/");
    reveal_strlit("audio/");
    let image = media_type == "image/"@ + rest;
    let video = media_type == "video/"@ + rest;
    let audio = media_type == "audio/"@ + rest;
    if image {
        assert(media_type.take(6) =~= "image/"@);
    }
    if video {
        assert(media_type.take(6) =~= "video/"@);
        assert(media_type[0] == 'v');
    }
    if audio {
        assert(media_type.take(6) =~= "audio/"@);
        assert(media_type[0] == 'a');
    }
    if text::begins(media_type, "image/"@) {
        assert(media_type.take(6)[0] == 'i');
    }
    if text::begins(media_type, "video/"@) {
        assert(media_type.take(6)[0] == 'v');
    }
    if text::begins(media_type, "audio/"@) {
        assert(media_type.take(6)[0] == 'a');
    }
    if media_type == "image/gif"@ {
        assert(media_type[0] == 'i');
    }
}

/// The notes of a message: that its text is hidden, where the bot may not read it and it shows nothing
/// else, each sticker by name, and a poll. Nothing else is noted.
pub proof fn an_event_notes_the_rest(
    channel: DiscordChannel,
    message: Message,
    kind: Option<ChannelType>,
    now: Instant,
    inbound: InboundView,
    i: int,
)
    requires
        super::event_of(channel, message, kind, now) == Some(inbound),
    ensures
        ({
            let hidden = !channel.message_content && message.content@.len() == 0
                && message.attachments@.len() == 0;
            let first: int = if hidden {
                1
            } else {
                0
            };
            let last: int = if message.has_poll {
                1
            } else {
                0
            };
            &&& inbound.notes.len() == first + message.stickers@.len() + last
            &&& hidden ==> inbound.notes[0]
                == "this message's text is hidden because the bot does not hold Discord's message \
                    content intent"@
            &&& message.has_poll ==> inbound.notes[inbound.notes.len() - 1]
                == "a poll, which the bridge cannot read the options of"@
            &&& 0 <= i < message.stickers@.len() ==> {
                let sticker = message.stickers@[i];
                &&& sticker.lottie ==> inbound.notes[first + i] == "sticker "@ + text::debug_quoted(
                    sticker.name@,
                ) + " (animated, not viewable)"@
                &&& !sticker.lottie ==> inbound.notes[first + i] == "sticker "@ + text::debug_quoted(
                    sticker.name@,
                )
            }
        }),
{
    let stickers = message.stickers@.map_values(|sticker: Sticker| super::sticker_note(sticker));
    assert(stickers.len() == message.stickers@.len());
}

/// A conversation goes to the channel it names. One that names a person goes to the direct message that
/// is open with them, and asks for one where there is none.
pub proof fn a_conversation_is_where_its_messages_go(
    dm_channels: Map<u64, u64>,
    conversation: ConversationView,
    id: u64,
)
    requires
        id > 0,
    ensures
        conversation.chat == text::decimal(id as nat) ==> (super::targeted(
            dm_channels,
            conversation,
        ) matches Ok(target) && target == Target::Channel(id)),
        conversation.chat == seq!['@'] + text::decimal(id as nat) && dm_channels.contains_key(id) ==> (
        super::targeted(dm_channels, conversation) matches Ok(target) && target == Target::Channel(
            dm_channels[id],
        )),
        conversation.chat == seq!['@'] + text::decimal(id as nat) && !dm_channels.contains_key(id)
            ==> (super::targeted(dm_channels, conversation) matches Ok(target) && target
            == Target::Dial(id)),
        conversation.chat.len() == 0 ==> super::targeted(dm_channels, conversation) is Err,
        super::targeted(dm_channels, conversation) matches Err(error) ==> error
            is InvalidConversation,
{
    reveal_strlit("@");
    assert("@"@ =~= seq!['@']);
    let digits = text::decimal(id as nat);
    text::a_number_survives_its_text_form(id as nat, u64::MAX as nat);
    text::a_number_is_trimmed_already(id as int);
    assert(text::is_digit(digits[0]));
    assert(!text::begins(digits, "@"@)) by {
        if text::begins(digits, "@"@) {
            assert(digits.take(1)[0] == '@');
        }
    }
    let dialled = seq!['@'] + digits;
    assert(dialled.take(1) =~= seq!['@']);
    assert(dialled.skip(1) =~= digits);
}

/// A gateway that closes for good is reported for what it refused: the token, or an intent, and which
/// where that is known. One that closed without a code ended well.
pub proof fn a_fatal_close_says_what_was_refused(id: Seq<char>, content: bool, code: u16)
    ensures
        super::run_outcome(id, content, None) is Ok,
        super::run_outcome(id, content, Some(code)) is Err,
        code == 4004 || code == 4014 ==> (super::run_outcome(id, content, Some(code)) matches Err(
            error,
        ) && error is Auth),
        code != 4004 && code != 4014 ==> (super::run_outcome(id, content, Some(code)) matches Err(
            error,
        ) && (error matches ChannelErrorView::Transport { channel, message } && channel == id
            && text::contains(message, text::decimal(code as nat)))),
        super::run_outcome(id, content, Some(4004)) matches Err(error) && error == (
        ChannelErrorView::Auth { channel: id, message: "Discord rejected the bot token"@ }),
        super::run_outcome(id, true, Some(4014)) matches Err(error) && (
        error matches ChannelErrorView::Auth { channel, message } && channel == id && text::begins(
            message,
            "Discord refused the message content intent."@,
        )),
        super::run_outcome(id, false, Some(4014)) matches Err(error) && (
        error matches ChannelErrorView::Auth { channel, message } && channel == id && text::begins(
            message,
            "Discord refused an intent this bot asked for"@,
        )),
{
    reveal_strlit("Discord refused the message content intent.");
    reveal_strlit("Discord refused an intent this bot asked for");
    reveal_strlit(
        "Discord refused the message content intent. Enable it under Privileged Gateway Intents on \
         the Bot page of the Developer Portal, or set `message_content = false` to run without it",
    );
    reveal_strlit(
        "Discord refused an intent this bot asked for, none of which are privileged. Check the Bot \
         page of the Developer Portal",
    );
    assert("Discord refused the message content intent. Enable it under Privileged Gateway Intents \
            on the Bot page of the Developer Portal, or set `message_content = false` to run \
            without it"@.take(43) =~= "Discord refused the message content intent."@);
    assert("Discord refused an intent this bot asked for, none of which are privileged. Check the \
            Bot page of the Developer Portal"@.take(44)
        =~= "Discord refused an intent this bot asked for"@);
    let shown = text::decimal(code as nat);
    let start = "the Discord gateway closed with code "@;
    let message = start + shown + ", which cannot be reconnected"@;
    assert(message.subrange(start.len() as int, (start.len() + shown.len()) as int) =~= shown);
    assert(text::stands_at(message, shown, start.len() as int));
}

/// The codes after which there is no use in connecting again: a refused token, a refused intent, and
/// every other from the refusal of a shard on.
pub proof fn these_closes_are_final(code: u16)
    ensures
        super::is_close_code(code) && !super::reconnectable(code) <==> code == 4004 || code == 4010
            || code == 4011 || code == 4012 || code == 4013 || code == 4014,
{
}

/// A time is read as the moment it names, with or without a way to show it. One that names no moment
/// stays as it is.
pub proof fn a_time_is_read_as_its_moment(
    names: NamesView,
    seconds: Seq<char>,
    way: Seq<char>,
    mentions: Seq<Mention>,
    guild_id: Option<u64>,
)
    requires
        !seconds.contains(':'),
    ensures
        ({
            let bare = seq!['t', ':'] + seconds;
            let shown = bare + seq![':'] + way;
            let moment = match text::signed_in(seconds, i64::MIN as int, i64::MAX as int) {
                Some(at) => crate::time::chrono_rfc3339(at as i64, 0),
                None => None,
            };
            &&& moment matches Some(said) ==> super::token_text(names, bare, mentions, guild_id)
                == said && super::token_text(names, shown, mentions, guild_id) == said
            &&& moment is None ==> super::token_text(names, bare, mentions, guild_id) == seq!['<']
                + bare + seq!['>'] && super::token_text(names, shown, mentions, guild_id) == seq!['<']
                + shown + seq!['>']
        }),
{
    reveal_strlit("@&");
    reveal_strlit("@");
    reveal_strlit("#");
    reveal_strlit("t:");
    reveal_strlit("<");
    reveal_strlit(">");
    let bare = seq!['t', ':'] + seconds;
    let shown = bare + seq![':'] + way;
    assert("t:"@ =~= seq!['t', ':']);
    assert("<"@ =~= seq!['<']);
    assert(">"@ =~= seq!['>']);
    a_time_is_no_name(bare);
    a_time_is_no_name(shown);
    assert(bare.take(2) =~= seq!['t', ':']);
    assert(shown.take(2) =~= seq!['t', ':']);
    assert(bare.skip(2) =~= seconds);
    assert(shown.skip(2) =~= seconds + seq![':'] + way);
    text::laws::a_text_is_cut_at_the_first(seconds, ':');
    let rest = seconds + seq![':'] + way;
    text::laws::a_text_is_cut_at_the_first(rest, ':');
    text::until_is_a_prefix(rest, ':');
    let first = text::until(rest, ':');
    assert(rest[seconds.len() as int] == ':');
    if first.len() < seconds.len() {
        assert(rest[first.len() as int] == seconds[first.len() as int]);
        assert(seconds.contains(seconds[first.len() as int]));
    }
    assert(first =~= seconds);
}

proof fn a_time_is_no_name(token: Seq<char>)
    requires
        token.len() > 0,
        token[0] == 't',
    ensures
        !text::begins(token, "@&"@),
        !text::begins(token, "@"@),
        !text::begins(token, "#"@),
{
    reveal_strlit("@&");
    reveal_strlit("@");
    reveal_strlit("#");
    if text::begins(token, "@&"@) {
        assert(token.take(2)[0] == '@');
    }
    if text::begins(token, "@"@) {
        assert(token.take(1)[0] == '@');
    }
    if text::begins(token, "#"@) {
        assert(token.take(1)[0] == '#');
    }
}

/// Text without a token stays as it is, and so does a bracket that nothing closes with what follows it.
pub proof fn text_without_tokens_stays(
    names: NamesView,
    said: Seq<char>,
    open: Seq<char>,
    mentions: Seq<Mention>,
    guild_id: Option<u64>,
)
    requires
        !said.contains('<'),
        !open.contains('>'),
    ensures
        super::dementioned(names, said, mentions, guild_id) == said,
        super::dementioned(names, said + seq!['<'] + open, mentions, guild_id) == said + seq!['<']
            + open,
    decreases said.len(),
{
    let whole = said + seq!['<'] + open;
    if said.len() == 0 {
        assert(whole.skip(1) =~= open);
        text::laws::a_text_is_cut_at_the_first(open, '>');
        assert(super::dementioned(names, said, mentions, guild_id) =~= said);
    } else {
        let less = said.skip(1);
        assert(said[0] != '<') by {
            assert(said.contains(said[0]));
        }
        assert(!less.contains('<')) by {
            if less.contains('<') {
                let i = choose|i: int| 0 <= i < less.len() && less[i] == '<';
                assert(said[i + 1] == '<');
            }
        }
        text_without_tokens_stays(names, less, open, mentions, guild_id);
        assert(whole.skip(1) =~= less + seq!['<'] + open);
        assert(seq![said[0]] + less =~= said);
        assert(seq![said[0]] + (less + seq!['<'] + open) =~= whole);
    }
}

/// Roles are named in the order they are held, each that is known once for each time it is held, and
/// those that are not known are left out.
pub proof fn roles_are_named_in_order(
    names: NamesView,
    guild_id: u64,
    left: Seq<u64>,
    right: Seq<u64>,
    role: u64,
)
    ensures
        cache::role_names(names, guild_id, left + right) == cache::role_names(names, guild_id, left)
            + cache::role_names(names, guild_id, right),
        names.guilds.contains_key(guild_id) && names.guilds[guild_id].roles.contains_key(role)
            ==> cache::role_names(names, guild_id, seq![role]) == seq![
            names.guilds[guild_id].roles[role],
        ],
        !(names.guilds.contains_key(guild_id) && names.guilds[guild_id].roles.contains_key(role))
            ==> cache::role_names(names, guild_id, seq![role]).len() == 0,
    decreases right.len(),
{
    assert(seq![role].drop_last() =~= Seq::empty());
    assert(cache::role_names(names, guild_id, seq![role].drop_last()) =~= Seq::empty());
    assert(seq![role].last() == role);
    if right.len() == 0 {
        assert(left + right =~= left);
        assert(cache::role_names(names, guild_id, left) + cache::role_names(names, guild_id, right)
            =~= cache::role_names(names, guild_id, left));
    } else {
        roles_are_named_in_order(names, guild_id, left, right.drop_last(), role);
        assert((left + right).drop_last() =~= left + right.drop_last());
        assert((left + right).last() == right.last());
        assert(cache::role_names(names, guild_id, left + right) =~= cache::role_names(
            names,
            guild_id,
            left,
        ) + cache::role_names(names, guild_id, right));
    }
}

} // verus!
