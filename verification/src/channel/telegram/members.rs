//! Who is in a chat, and what may be done to them.

use vstd::prelude::*;
use vstd::string::*;

use crate::channel::ids::ConversationId;
use crate::channel::telegram::message::{display_name, Chat, User};
use crate::channel::telegram::TelegramChannel;
use crate::channel::{
    ChannelError, ChannelErrorView, ConversationInfo, MemberAction, MemberCoverage, MemberInfo,
    MemberListing, MemberRight, MemberStatus, MemberView,
};
use crate::text;
use crate::time::Instant;

verus! {

/// Telegram's floor on how long a restriction or ban may last, in nanoseconds: thirty seconds.
///
/// Anything outside the window that this and [`MAX_RESTRICTION`] span is treated by Telegram as
/// *forever*, silently. A ten-second mute becoming permanent is the worst failure this surface has,
/// so the bounds are enforced here and reported rather than left to be discovered.
pub const MIN_RESTRICTION: i128 = 30_000_000_000;

/// Telegram's ceiling on how long a restriction or ban may last, in nanoseconds: 366 days.
pub const MAX_RESTRICTION: i128 = 31_622_400_000_000_000;

/// What an administrator may do.
#[derive(Debug, Clone, Copy, PartialEq, Eq, Structural)]
pub struct Administrator {
    pub can_manage_chat: bool,
    pub can_delete_messages: bool,
    pub can_restrict_members: bool,
    pub can_promote_members: bool,
    pub can_pin_messages: bool,
    pub can_change_info: bool,
    pub can_invite_users: bool,
    pub can_manage_topics: bool,
    pub can_manage_video_chats: bool,
}

/// What somebody is in a chat. A restriction that never ends has no end.
#[derive(Debug, Clone, Copy, PartialEq, Eq, Structural)]
pub enum ChatMemberKind {
    Owner,
    Administrator(Administrator),
    Member,
    Restricted { until: Option<Instant> },
    Left,
    Banned,
}

/// Somebody in a chat.
#[derive(Debug)]
pub struct ChatMember {
    pub user: User,
    pub kind: ChatMemberKind,
}

/// What is to be done to a member.
#[derive(Debug, Clone, Copy, PartialEq, Eq, Structural)]
pub enum Moderation {
    /// Take every permission away, until a time or for good.
    Restrict { until: Option<Instant> },
    /// Give back what the chat allows everybody.
    Unrestrict,
    Ban { until: Option<Instant>, revoke_messages: bool },
    Unban,
    /// A ban lifted straight away, which removes the person while leaving them free to rejoin.
    Kick { revoke_messages: bool },
}

/// What somebody is, in the platform-neutral shape.
pub open spec fn status_of(kind: ChatMemberKind) -> MemberStatus {
    match kind {
        ChatMemberKind::Owner => MemberStatus::Owner,
        ChatMemberKind::Administrator(_) => MemberStatus::Administrator,
        ChatMemberKind::Member => MemberStatus::Member,
        ChatMemberKind::Restricted { .. } => MemberStatus::Restricted,
        ChatMemberKind::Left => MemberStatus::Left,
        ChatMemberKind::Banned => MemberStatus::Banned,
    }
}

/// Whether somebody holds a right. An owner holds every one without them being listed.
pub open spec fn holds(kind: ChatMemberKind, right: MemberRight) -> bool {
    match kind {
        ChatMemberKind::Owner => true,
        ChatMemberKind::Administrator(administrator) => match right {
            MemberRight::ManageChat => administrator.can_manage_chat,
            MemberRight::DeleteMessages => administrator.can_delete_messages,
            MemberRight::RestrictMembers => administrator.can_restrict_members,
            MemberRight::PromoteMembers => administrator.can_promote_members,
            MemberRight::PinMessages => administrator.can_pin_messages,
            MemberRight::ChangeInfo => administrator.can_change_info,
            MemberRight::InviteUsers => administrator.can_invite_users,
            MemberRight::ManageTopics => administrator.can_manage_topics,
            MemberRight::ManageVideoChats => administrator.can_manage_video_chats,
        },
        _ => false,
    }
}

/// Every right there is, in the order they are reported.
pub open spec fn every_right() -> Seq<MemberRight> {
    seq![
        MemberRight::ManageChat,
        MemberRight::DeleteMessages,
        MemberRight::RestrictMembers,
        MemberRight::PromoteMembers,
        MemberRight::PinMessages,
        MemberRight::ChangeInfo,
        MemberRight::InviteUsers,
        MemberRight::ManageTopics,
        MemberRight::ManageVideoChats,
    ]
}

/// The rights among `rights` that somebody holds, in order.
pub open spec fn held_among(kind: ChatMemberKind, rights: Seq<MemberRight>) -> Seq<MemberRight>
    decreases rights.len(),
{
    if rights.len() == 0 {
        Seq::empty()
    } else if holds(kind, rights.last()) {
        held_among(kind, rights.drop_last()).push(rights.last())
    } else {
        held_among(kind, rights.drop_last())
    }
}

/// The rights that somebody holds.
pub open spec fn rights_of(kind: ChatMemberKind) -> Seq<MemberRight> {
    held_among(kind, every_right())
}

proof fn holding_is_being_among(kind: ChatMemberKind, rights: Seq<MemberRight>, right: MemberRight)
    ensures
        held_among(kind, rights).contains(right) <==> rights.contains(right) && holds(kind, right),
    decreases rights.len(),
{
    if rights.len() > 0 {
        let before = rights.drop_last();
        holding_is_being_among(kind, before, right);
        assert(rights =~= before.push(rights.last()));
        let held = held_among(kind, before);
        if holds(kind, rights.last()) {
            let all = held.push(rights.last());
            assert(held_among(kind, rights) == all);
            if held.contains(right) {
                let i = choose|i: int| 0 <= i < held.len() && held[i] == right;
                assert(all[i] == right);
            }
            if rights.last() == right {
                assert(all[all.len() - 1] == right);
            }
            if all.contains(right) {
                let i = choose|i: int| 0 <= i < all.len() && all[i] == right;
                if i < held.len() {
                    assert(held[i] == right);
                }
            }
        }
        if before.contains(right) {
            let i = choose|i: int| 0 <= i < before.len() && before[i] == right;
            assert(rights[i] == right);
        }
        if rights.last() == right {
            assert(rights[rights.len() - 1] == right);
        }
        if rights.contains(right) {
            let i = choose|i: int| 0 <= i < rights.len() && rights[i] == right;
            if i < before.len() {
                assert(before[i] == right);
            }
        }
    }
}

/// A right is reported exactly where it is held: an owner reports every right, and an ordinary
/// member none.
pub proof fn reported_rights_are_held_rights(kind: ChatMemberKind, right: MemberRight)
    ensures
        rights_of(kind).contains(right) <==> holds(kind, right),
{
    holding_is_being_among(kind, every_right(), right);
    let all = every_right();
    match right {
        MemberRight::ManageChat => assert(all[0] == right),
        MemberRight::DeleteMessages => assert(all[1] == right),
        MemberRight::RestrictMembers => assert(all[2] == right),
        MemberRight::PromoteMembers => assert(all[3] == right),
        MemberRight::PinMessages => assert(all[4] == right),
        MemberRight::ChangeInfo => assert(all[5] == right),
        MemberRight::InviteUsers => assert(all[6] == right),
        MemberRight::ManageTopics => assert(all[7] == right),
        MemberRight::ManageVideoChats => assert(all[8] == right),
    }
}

/// Translates Telegram's membership model into the platform-neutral one.
pub fn member_status(kind: &ChatMemberKind) -> (status: MemberStatus)
    ensures
        status == status_of(*kind),
{
    match kind {
        ChatMemberKind::Owner => MemberStatus::Owner,
        ChatMemberKind::Administrator(_) => MemberStatus::Administrator,
        ChatMemberKind::Member => MemberStatus::Member,
        ChatMemberKind::Restricted { .. } => MemberStatus::Restricted,
        ChatMemberKind::Left => MemberStatus::Left,
        ChatMemberKind::Banned => MemberStatus::Banned,
    }
}

fn is_held(kind: &ChatMemberKind, right: MemberRight) -> (held: bool)
    ensures
        held == holds(*kind, right),
{
    match kind {
        ChatMemberKind::Owner => true,
        ChatMemberKind::Administrator(administrator) => match right {
            MemberRight::ManageChat => administrator.can_manage_chat,
            MemberRight::DeleteMessages => administrator.can_delete_messages,
            MemberRight::RestrictMembers => administrator.can_restrict_members,
            MemberRight::PromoteMembers => administrator.can_promote_members,
            MemberRight::PinMessages => administrator.can_pin_messages,
            MemberRight::ChangeInfo => administrator.can_change_info,
            MemberRight::InviteUsers => administrator.can_invite_users,
            MemberRight::ManageTopics => administrator.can_manage_topics,
            MemberRight::ManageVideoChats => administrator.can_manage_video_chats,
        },
        _ => false,
    }
}

/// The privileges a member holds, which is what tells the agent what it may do in a chat.
pub fn member_rights(kind: &ChatMemberKind) -> (rights: Vec<MemberRight>)
    ensures
        rights@ == rights_of(*kind),
{
    let all: Vec<MemberRight> = vec![
        MemberRight::ManageChat,
        MemberRight::DeleteMessages,
        MemberRight::RestrictMembers,
        MemberRight::PromoteMembers,
        MemberRight::PinMessages,
        MemberRight::ChangeInfo,
        MemberRight::InviteUsers,
        MemberRight::ManageTopics,
        MemberRight::ManageVideoChats,
    ];
    assert(all@ =~= every_right());
    let mut rights: Vec<MemberRight> = Vec::new();
    let mut i: usize = 0;
    assert(all@.take(0) =~= Seq::empty());
    while i < all.len()
        invariant
            i <= all.len(),
            rights@ == held_among(*kind, all@.take(i as int)),
        decreases all.len() - i,
    {
        assert(all@.take(i + 1).drop_last() =~= all@.take(i as int));
        if is_held(kind, all[i]) {
            rights.push(all[i]);
        }
        i += 1;
    }
    assert(all@.take(i as int) =~= all@);
    rights
}

/// The refusal of a restriction that Telegram would make permanent because it is so short.
pub open spec fn too_short(channel: Seq<char>) -> ChannelErrorView {
    ChannelErrorView::Delivery {
        channel,
        message: "Telegram treats anything under 30 seconds as permanent, so this would not expire. \
                  Use a longer duration, or omit it if you meant it to be permanent."@,
    }
}

/// The refusal of a restriction that Telegram would make permanent because it is so long.
pub open spec fn too_long() -> ChannelErrorView {
    ChannelErrorView::Delivery {
        channel: "telegram"@,
        message: "Telegram treats anything over 366 days as permanent, so this would not expire. Use \
                  a shorter duration, or omit it if you meant it to be permanent."@,
    }
}

/// Why a restriction cannot last until a time, where it cannot.
pub open spec fn until_refused(channel: Seq<char>, until: Instant, now: Instant) -> Option<
    ChannelErrorView,
> {
    if until - now < MIN_RESTRICTION {
        Some(too_short(channel))
    } else if until - now > MAX_RESTRICTION {
        Some(too_long())
    } else {
        None
    }
}

/// Rejects a duration Telegram would quietly turn into a permanent one.
pub fn clamp_until(channel: &str, until: Instant, now: Instant) -> (checked: Result<
    Instant,
    ChannelError,
>)
    requires
        crate::time::datable(until as int),
        crate::time::datable(now as int),
    ensures
        match checked {
            Ok(checked) => until_refused(channel@, until, now) is None && checked == until,
            Err(error) => until_refused(channel@, until, now) == Some(error.deep_view()),
        },
{
    let remaining: i128 = until - now;
    if remaining < MIN_RESTRICTION {
        return Err(
            ChannelError::delivery(
                channel,
                "Telegram treats anything under 30 seconds as permanent, so this would not expire. \
                 Use a longer duration, or omit it if you meant it to be permanent.",
            ),
        );
    }
    if remaining > MAX_RESTRICTION {
        return Err(
            ChannelError::delivery(
                "telegram",
                "Telegram treats anything over 366 days as permanent, so this would not expire. Use \
                 a shorter duration, or omit it if you meant it to be permanent.",
            ),
        );
    }
    Ok(until)
}

/// What moderating a member comes to, where the time it lasts until is accepted.
pub open spec fn moderated(
    action: MemberAction,
    until: Option<Instant>,
    revoke_messages: bool,
) -> Moderation {
    match action {
        MemberAction::Restrict => Moderation::Restrict { until },
        MemberAction::Unrestrict => Moderation::Unrestrict,
        MemberAction::Ban => Moderation::Ban { until, revoke_messages },
        MemberAction::Unban => Moderation::Unban,
        MemberAction::Kick => Moderation::Kick { revoke_messages },
    }
}

/// When a restriction ends, where it ends and has not ended yet.
pub open spec fn restricted_until(kind: ChatMemberKind, now: Instant) -> Option<Instant> {
    match kind {
        ChatMemberKind::Restricted { until: Some(until) } => if until > now {
            Some(until)
        } else {
            None
        },
        _ => None,
    }
}

/// A member, in the platform-neutral shape. Telegram has no roles, and reports no presence.
pub open spec fn member_info(
    user_id: u64,
    member: ChatMember,
    restricted_until: Option<Instant>,
) -> MemberView {
    MemberView {
        user_id: text::decimal(user_id as nat),
        display_name: Some(super::message::user_name(member.user)),
        status: status_of(member.kind),
        rights: rights_of(member.kind),
        roles: Seq::empty(),
        restricted_until,
        presence: None,
    }
}

fn describe(user_id: u64, member: &ChatMember, restricted_until: Option<Instant>) -> (info:
    MemberInfo)
    ensures
        info.deep_view() == member_info(user_id, *member, restricted_until),
{
    let info = MemberInfo {
        user_id: text::number(user_id),
        display_name: Some(display_name(&member.user)),
        status: member_status(&member.kind),
        rights: member_rights(&member.kind),
        roles: Vec::new(),
        restricted_until,
        presence: None,
    };
    assert(info.deep_view().roles =~= Seq::empty());
    info
}

/// Why members cannot be listed as asked for, where they cannot: there is no search and no paging.
pub open spec fn listing_refused(id: Seq<char>, searching: bool, paging: bool) -> Option<
    ChannelErrorView,
> {
    if searching {
        Some(
            ChannelErrorView::Unsupported {
                channel: id,
                feature: "searching members by name on Telegram, which the Bot API has no method \
                          for. Omit the query to get the administrators, or use member with a user \
                          id you already have"@,
            },
        )
    } else if paging {
        Some(
            ChannelErrorView::Unsupported {
                channel: id,
                feature: "paging through members on Telegram, which returns its administrators \
                          whole"@,
            },
        )
    } else {
        None
    }
}

/// The refusal of part of a list that cannot be continued.
pub open spec fn partial_listing(id: Seq<char>) -> ChannelErrorView {
    ChannelErrorView::Unsupported {
        channel: id,
        feature: "listing part of a Telegram chat's administrators, which arrive whole and cannot be \
                  paged. Raise the limit past their number"@,
    }
}

/// The title of a chat: a private one has none, and is named by whoever is on the other end.
pub open spec fn title_of(
    title: Option<Seq<char>>,
    first_name: Option<Seq<char>>,
    username: Option<Seq<char>>,
) -> Option<Seq<char>> {
    match (title, first_name, username) {
        (Some(title), _, _) => Some(title),
        (None, Some(first_name), _) => Some(first_name),
        (None, None, Some(username)) => Some("@"@ + username),
        (None, None, None) => None,
    }
}

/// The flags of an administrator who holds exactly the rights given.
///
/// Every flag is set or cleared: Telegram treats an omitted flag as "leave alone", so sending only
/// the granted ones would add rights and never remove them, and an empty list would silently do
/// nothing instead of demoting.
pub fn set_member_rights(rights: &Vec<MemberRight>) -> (administrator: Administrator)
    ensures
        forall|right: MemberRight| #[trigger]
            holds(ChatMemberKind::Administrator(administrator), right) == rights@.contains(right),
{
    Administrator {
        can_manage_chat: grants(rights, MemberRight::ManageChat),
        can_delete_messages: grants(rights, MemberRight::DeleteMessages),
        can_restrict_members: grants(rights, MemberRight::RestrictMembers),
        can_promote_members: grants(rights, MemberRight::PromoteMembers),
        can_pin_messages: grants(rights, MemberRight::PinMessages),
        can_change_info: grants(rights, MemberRight::ChangeInfo),
        can_invite_users: grants(rights, MemberRight::InviteUsers),
        can_manage_topics: grants(rights, MemberRight::ManageTopics),
        can_manage_video_chats: grants(rights, MemberRight::ManageVideoChats),
    }
}

fn grants(rights: &Vec<MemberRight>, right: MemberRight) -> (found: bool)
    ensures
        found == rights@.contains(right),
{
    let mut i: usize = 0;
    while i < rights.len()
        invariant
            i <= rights.len(),
            forall|j: int| 0 <= j < i ==> rights@[j] != right,
        decreases rights.len() - i,
    {
        if rights[i] == right {
            return true;
        }
        i += 1;
    }
    false
}

/// The permissions, as Telegram's bits, that lifting a restriction leaves a member with: the chat's
/// own, and every one where the chat states none.
///
/// Lifting a restriction is not "grant everything", which would leave the person with more than the
/// chat allows anybody else.
pub fn lifted_permissions(own: Option<u16>, every: u16) -> (permissions: u16)
    ensures
        permissions == (match own {
            Some(own) => own,
            None => every,
        }),
{
    match own {
        Some(own) => own,
        None => every,
    }
}

impl TelegramChannel {
    /// What moderating a member comes to, or why it cannot be done.
    pub fn moderate_member(
        &self,
        action: MemberAction,
        until: Option<Instant>,
        revoke_messages: bool,
        now: Instant,
    ) -> (moderation: Result<Moderation, ChannelError>)
        requires
            crate::time::datable(now as int),
            until matches Some(until) ==> crate::time::datable(until as int),
        ensures
            match moderation {
                Ok(moderation) => {
                    &&& until matches Some(until) ==> until_refused(self.id@, until, now) is None
                    &&& moderation == moderated(action, until, revoke_messages)
                    &&& moderation is Restrict <==> action == MemberAction::Restrict
                    &&& moderation is Unrestrict <==> action == MemberAction::Unrestrict
                    &&& moderation is Ban <==> action == MemberAction::Ban
                    &&& moderation is Unban <==> action == MemberAction::Unban
                    &&& moderation is Kick <==> action == MemberAction::Kick
                    &&& moderation matches Moderation::Restrict { until: end } ==> end == until
                    &&& moderation matches Moderation::Ban { until: end, revoke_messages: revoked }
                        ==> end == until && revoked == revoke_messages
                    &&& moderation matches Moderation::Kick { revoke_messages: revoked } ==> revoked
                        == revoke_messages
                },
                Err(error) => {
                    &&& until is Some
                    &&& until_refused(self.id@, until->0, now) == Some(error.deep_view())
                },
            },
    {
        if let Some(until) = until {
            match clamp_until(self.id.as_str(), until, now) {
                Ok(_) => {},
                Err(error) => return Err(error),
            }
        }
        Ok(
            match action {
                MemberAction::Restrict => Moderation::Restrict { until },
                MemberAction::Unrestrict => Moderation::Unrestrict,
                MemberAction::Ban => Moderation::Ban { until, revoke_messages },
                MemberAction::Unban => Moderation::Unban,
                MemberAction::Kick => Moderation::Kick { revoke_messages },
            },
        )
    }

    /// A kick that went only half the way.
    ///
    /// A bare failure reads as "the kick did not happen", when in fact the person is removed and
    /// still banned, and the fix is an explicit unban rather than a retry.
    pub fn kick_unfinished(&self, error: &str) -> (failure: ChannelError)
        ensures
            failure.deep_view() == (ChannelErrorView::Delivery {
                channel: self.id@,
                message: "the user was removed, but lifting the ban afterwards failed ("@ + error@
                    + "), so they are banned rather than kicked. Use the `unban` action to let them \
                       rejoin."@,
            }),
    {
        let message =
            "the user was removed, but lifting the ban afterwards failed (".to_owned().concat(
            error,
        ).concat(
            "), so they are banned rather than kicked. Use the `unban` action to let them rejoin.",
        );
        ChannelError::delivery(self.id.as_str(), message.as_str())
    }

    /// One member asked about by themselves. A restriction can be unbounded, which has no end to
    /// report.
    pub fn member(&self, user_id: u64, member: &ChatMember, now: Instant) -> (info: MemberInfo)
        ensures
            info.deep_view() == member_info(
                user_id,
                *member,
                restricted_until(member.kind, now),
            ),
    {
        let until: Option<Instant> = match member.kind {
            ChatMemberKind::Restricted { until: Some(until) } => if until > now {
                Some(until)
            } else {
                None
            },
            _ => None,
        };
        describe(user_id, member, until)
    }

    /// What a conversation is, as Telegram describes its chat.
    ///
    /// Telegram's ids are final, so the id asked about is the answer. A thread segment rides along
    /// unchecked: nothing says whether a topic of a chat still exists.
    pub fn describe_conversation(
        &self,
        conversation: &ConversationId,
        chat: &Chat,
        first_name: &Option<String>,
        username: &Option<String>,
    ) -> (info: ConversationInfo)
        ensures
            info.id@ == conversation@,
            info.kind == super::shape_of(*chat),
            info.title.deep_view() == title_of(
                chat.title.deep_view(),
                first_name.deep_view(),
                username.deep_view(),
            ),
    {
        let title = match &chat.title {
            Some(title) => Some(title.clone()),
            None => match first_name {
                Some(first_name) => Some(first_name.clone()),
                None => match username {
                    Some(username) => Some("@".to_owned().concat(username.as_str())),
                    None => None,
                },
            },
        };
        ConversationInfo { id: conversation.clone(), kind: super::chat_kind(chat), title }
    }

    /// Whether members can be listed as asked for.
    ///
    /// Telegram has no method for listing ordinary members and no way to search them, by design.
    /// Paging an administrator list would be inventing a limit Telegram does not have: it returns
    /// every administrator in one call.
    pub fn check_listing(&self, query: Option<&str>, after: Option<&str>) -> (checked: Result<
        (),
        ChannelError,
    >)
        ensures
            match checked {
                Ok(_) => listing_refused(self.id@, query is Some, after is Some) is None,
                Err(error) => listing_refused(self.id@, query is Some, after is Some) == Some(
                    error.deep_view(),
                ),
            },
    {
        if query.is_some() {
            return Err(
                ChannelError::unsupported(
                    self.id.as_str(),
                    "searching members by name on Telegram, which the Bot API has no method for. \
                     Omit the query to get the administrators, or use member with a user id you \
                     already have",
                ),
            );
        }
        if after.is_some() {
            return Err(
                ChannelError::unsupported(
                    self.id.as_str(),
                    "paging through members on Telegram, which returns its administrators whole",
                ),
            );
        }
        Ok(())
    }

    /// A chat's administrators, which is the whole of what Telegram will enumerate.
    ///
    /// Truncating would hand back a short list with no cursor to continue from, which is
    /// indistinguishable from a chat that simply has few administrators.
    pub fn list_members(
        &self,
        query: Option<&str>,
        after: Option<&str>,
        administrators: &Vec<ChatMember>,
        total: Option<u64>,
        limit: usize,
    ) -> (listing: Result<MemberListing, ChannelError>)
        ensures
            match listing {
                Ok(listing) => {
                    &&& listing_refused(self.id@, query is Some, after is Some) is None
                    &&& administrators@.len() <= limit
                    &&& listing.coverage == MemberCoverage::Administrators
                    &&& listing.members.deep_view() == administrators@.map_values(
                        |member: ChatMember| member_info(member.user.id, member, None),
                    )
                    &&& listing.total == total
                    &&& listing.next_after is None
                },
                Err(error) => match listing_refused(self.id@, query is Some, after is Some) {
                    Some(refusal) => error.deep_view() == refusal,
                    None => {
                        &&& administrators@.len() > limit
                        &&& error.deep_view() == partial_listing(self.id@)
                    },
                },
            },
    {
        match self.check_listing(query, after) {
            Ok(_) => {},
            Err(error) => return Err(error),
        }
        if administrators.len() > limit {
            return Err(
                ChannelError::unsupported(
                    self.id.as_str(),
                    "listing part of a Telegram chat's administrators, which arrive whole and \
                     cannot be paged. Raise the limit past their number",
                ),
            );
        }
        let mut members: Vec<MemberInfo> = Vec::new();
        let mut i: usize = 0;
        while i < administrators.len()
            invariant
                i <= administrators.len(),
                members@.len() == i,
                forall|j: int|
                    0 <= j < i ==> (#[trigger] members@[j]).deep_view() == member_info(
                        administrators@[j].user.id,
                        administrators@[j],
                        None,
                    ),
            decreases administrators.len() - i,
        {
            members.push(describe(administrators[i].user.id, &administrators[i], None));
            i += 1;
        }
        assert(members.deep_view() =~= administrators@.map_values(
            |member: ChatMember| member_info(member.user.id, member, None),
        ));
        Ok(
            MemberListing {
                coverage: MemberCoverage::Administrators,
                members,
                total,
                next_after: None,
            },
        )
    }
}

} // verus!
