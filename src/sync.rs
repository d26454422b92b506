use crate::binding::ReturnRoleId;
use crate::emoji::ReactionEmoji;
use crate::store::{roles_of, BindingStore};
use vstd::prelude::*;

verus! {

/// Whether a reaction was placed or taken away.
#[derive(Clone, Copy, Debug, PartialEq, Eq, Structural)]
pub enum ReactionChange {
    Added,
    Removed,
}

/// A reaction event as the platform delivers it. A reaction in a direct
/// message carries no guild, and may carry no user.
#[derive(Debug)]
pub struct ReactionEvent {
    pub change: ReactionChange,
    pub message_link: String,
    pub emoji: ReactionEmoji,
    pub guild_id: Option<u64>,
    pub user_id: Option<u64>,
}

/// One role grant (or revocation) on a guild member.
#[derive(Clone, Copy, Debug, PartialEq, Eq, Structural)]
pub struct RoleCall {
    pub guild_id: u64,
    pub user_id: u64,
    pub role_id: u64,
    pub grant: bool,
}

/// A direct message to the reacting user, sent on a best-effort basis.
#[derive(Debug)]
pub struct Notice {
    pub user_id: u64,
    pub text: String,
}

/// What the platform is asked to do for one reaction event: the role calls,
/// in order, then the notice.
#[derive(Debug)]
pub struct SyncPlan {
    pub role_calls: Vec<RoleCall>,
    pub notice: Option<Notice>,
}

/// The role calls for granting (or revoking) each role to the user.
pub open spec fn calls_for(roles: Seq<u64>, guild_id: u64, user_id: u64, grant: bool) -> Seq<
    RoleCall,
> {
    roles.map_values(|role_id: u64| RoleCall { guild_id, user_id, role_id, grant })
}

/// The confirmation that the user receives.
pub open spec fn notice_text(change: ReactionChange) -> Seq<char> {
    match change {
        ReactionChange::Added => "Added role successfully :)"@,
        ReactionChange::Removed => "Removed role successfully :)"@,
    }
}

impl SyncPlan {
    /// Whether the plan asks nothing of the platform.
    pub open spec fn is_noop(&self) -> bool {
        self.role_calls@.len() == 0 && self.notice is None
    }

    /// Whether the notice goes out once the role calls have run: not when
    /// any of them failed, since the event is then dropped.
    pub fn notify_after(&self, failed_calls: usize) -> (r: bool)
        ensures
            r == (failed_calls == 0 && self.notice is Some),
    {
        failed_calls == 0 && self.notice.is_some()
    }
}

/// Resolves a reaction event against the bindings of its message and emoji.
/// Every binding found has its role granted (for an added reaction) or
/// revoked (for a removed one) to the reacting member, one call each, and
/// the member is then told. Nothing is asked when no binding matches or
/// when the event names no guild or no user.
pub fn handle_reaction(store: &BindingStore, event: &ReactionEvent) -> (r: SyncPlan)
    ensures
        ({
            let roles = roles_of(store@.with_emoji(event.message_link@, event.emoji@.name()));
            &&& roles.len() == 0 ==> r.is_noop()
            &&& match (event.guild_id, event.user_id) {
                (Some(g), Some(u)) => {
                    &&& r.role_calls@ == calls_for(roles, g, u, event.change == ReactionChange::Added)
                    &&& roles.len() == 0 ==> r.notice is None
                    &&& roles.len() > 0 ==> r.notice is Some && r.notice->Some_0.user_id == u
                        && r.notice->Some_0.text@ == notice_text(event.change)
                },
                _ => r.is_noop(),
            }
        }),
{
    let found = store.find_by_message_and_emoji_name(&event.message_link, event.emoji.name());
    let ghost roles = roles_of(store@.with_emoji(event.message_link@, event.emoji@.name()));
    let (guild_id, user_id) = match (event.guild_id, event.user_id) {
        (Some(g), Some(u)) => (g, u),
        _ => return SyncPlan { role_calls: Vec::new(), notice: None },
    };
    let grant = event.change == ReactionChange::Added;
    let mut role_calls: Vec<RoleCall> = Vec::new();
    let mut i: usize = 0;
    while i < found.len()
        invariant
            i <= found.len(),
            found@.map_values(|x: ReturnRoleId| x.role_id) == roles,
            role_calls@ == calls_for(roles.subrange(0, i as int), guild_id, user_id, grant),
        decreases found.len() - i,
    {
        role_calls.push(RoleCall { guild_id, user_id, role_id: found[i].role_id, grant });
        proof {
            assert(roles[i as int] == found@[i as int].role_id);
            assert(roles.subrange(0, i as int + 1) =~= roles.subrange(0, i as int).push(
                roles[i as int],
            ));
            assert(role_calls@ =~= calls_for(roles.subrange(0, i as int + 1), guild_id, user_id, grant));
        }
        i = i + 1;
    }
    assert(roles.subrange(0, found.len() as int) =~= roles);
    if found.len() == 0 {
        return SyncPlan { role_calls, notice: None };
    }
    let text = match event.change {
        ReactionChange::Added => String::from_str("Added role successfully :)"),
        ReactionChange::Removed => String::from_str("Removed role successfully :)"),
    };
    SyncPlan { role_calls, notice: Some(Notice { user_id, text }) }
}

} // verus!
