use reaction_roles::binding::{ReactionRole, ReturnReactionId};
use reaction_roles::commands::{
    add_classified, add_reaction_role, change_reaction_role_emoji, list_reaction_role,
    remove_reaction_role, PlatformAction,
};
use reaction_roles::emoji::{CustomEmoji, EmojiType, ReactionEmoji};
use reaction_roles::error::BindingError;
use reaction_roles::store::BindingStore;

const LINK: &str = "https://discord.com/channels/1/2/3";
const OTHER: &str = "https://discord.com/channels/1/2/4";

fn s(t: &str) -> String {
    String::from(t)
}

fn unicode(t: &str) -> ReactionEmoji {
    ReactionEmoji::Unicode { name: s(t) }
}

#[test]
fn add_then_find_returns_binding() {
    let mut store = BindingStore::new();
    let effect = add_reaction_role(&mut store, &s(LINK), 10, &s("🔥"), None).unwrap();
    assert_eq!(effect.binding.id, 1);
    match &effect.action {
        PlatformAction::React { message_link, emoji } => {
            assert_eq!(message_link, LINK);
            assert_eq!(emoji.name(), "🔥");
        }
        other => panic!("unexpected {:?}", other),
    }
    let found = store.find_by_message_role(&s(LINK), 10).unwrap();
    assert_eq!(found.id, 1);
    assert_eq!(found.role_id, 10);
    assert_eq!(found.message_link, LINK);
    assert_eq!(found.emoji_type(), EmojiType::Unicode);
    assert_eq!(found.reaction_emoji_name(), "🔥");
    assert_eq!(found.reaction_emoji_id(), None);
}

#[test]
fn add_custom_then_find_returns_binding() {
    let mut store = BindingStore::new();
    let custom = Some(CustomEmoji { id: 777, name: s("parrot") });
    add_reaction_role(&mut store, &s(LINK), 10, &s("parrot"), custom).unwrap();
    let found = store.find_by_message_role(&s(LINK), 10).unwrap();
    assert_eq!(found.emoji_type(), EmojiType::Emote);
    assert_eq!(found.reaction_emoji_name(), "parrot");
    assert_eq!(found.reaction_emoji_id(), Some(777));
}

#[test]
fn add_existing_pair_conflicts() {
    let mut store = BindingStore::new();
    add_reaction_role(&mut store, &s(LINK), 10, &s("🔥"), None).unwrap();
    let r = add_reaction_role(&mut store, &s(LINK), 10, &s("🎉"), None);
    assert!(matches!(r, Err(BindingError::Conflict)));
    assert_eq!(store.len(), 1);
    let found = store.find_by_message_role(&s(LINK), 10).unwrap();
    assert_eq!(found.reaction_emoji_name(), "🔥");
}

#[test]
fn add_invalid_emoji_leaves_store() {
    let mut store = BindingStore::new();
    let r = add_reaction_role(&mut store, &s(LINK), 10, &s("not-an-emoji"), None);
    assert!(matches!(r, Err(BindingError::InvalidEmoji)));
    assert_eq!(store.len(), 0);
}

#[test]
fn same_role_on_other_message_is_separate() {
    let mut store = BindingStore::new();
    add_reaction_role(&mut store, &s(LINK), 10, &s("🔥"), None).unwrap();
    add_reaction_role(&mut store, &s(OTHER), 10, &s("🔥"), None).unwrap();
    assert_eq!(store.len(), 2);
}

#[test]
fn racing_adds_keep_one_binding() {
    let mut store = BindingStore::new();
    let first = add_classified(&mut store, &s(LINK), 10, unicode("🔥"));
    let second = add_classified(&mut store, &s(LINK), 10, unicode("🎉"));
    assert!(first.is_ok());
    assert!(matches!(second, Err(BindingError::Conflict)));
    assert_eq!(store.list_by_message(&s(LINK)).len(), 1);
}

#[test]
fn store_insert_refuses_duplicate_pair() {
    let mut store = BindingStore::new();
    assert_eq!(store.insert(&s(LINK), 1, unicode("🔥")), Ok(ReturnReactionId { id: 1 }));
    assert_eq!(store.insert(&s(LINK), 1, unicode("🎉")), Err(BindingError::Conflict));
    assert_eq!(store.insert(&s(LINK), 2, unicode("🎉")), Ok(ReturnReactionId { id: 2 }));
}

#[test]
fn change_missing_pair_is_not_found() {
    let mut store = BindingStore::new();
    add_reaction_role(&mut store, &s(LINK), 10, &s("🔥"), None).unwrap();
    let r = change_reaction_role_emoji(&mut store, &s(LINK), 11, &s("🎉"), None);
    assert!(matches!(r, Err(BindingError::NotFound)));
    let kept = store.find_by_message_role(&s(LINK), 10).unwrap();
    assert_eq!(kept.reaction_emoji_name(), "🔥");
    assert!(store.find_by_message_role(&s(LINK), 11).is_none());
}

#[test]
fn change_replaces_emoji_and_keeps_id() {
    let mut store = BindingStore::new();
    let custom = Some(CustomEmoji { id: 5, name: s("parrot") });
    add_reaction_role(&mut store, &s(LINK), 10, &s("parrot"), custom).unwrap();
    let effect = change_reaction_role_emoji(&mut store, &s(LINK), 10, &s("🎉"), None).unwrap();
    assert_eq!(effect.binding.id, 1);
    assert!(matches!(effect.action, PlatformAction::React { .. }));
    let found = store.find_by_message_role(&s(LINK), 10).unwrap();
    assert_eq!(found.id, 1);
    assert_eq!(found.emoji_type(), EmojiType::Unicode);
    assert_eq!(found.reaction_emoji_name(), "🎉");
    assert_eq!(found.reaction_emoji_id(), None);
}

#[test]
fn remove_then_find_is_absent() {
    let mut store = BindingStore::new();
    add_reaction_role(&mut store, &s(LINK), 10, &s("🔥"), None).unwrap();
    add_reaction_role(&mut store, &s(LINK), 11, &s("🎉"), None).unwrap();
    let effect = remove_reaction_role(&mut store, &s(LINK), 10).unwrap();
    assert_eq!(effect.binding.role_id, 10);
    match &effect.action {
        PlatformAction::StripReaction { message_link, emoji } => {
            assert_eq!(message_link, LINK);
            assert_eq!(emoji.name(), "🔥");
        }
        other => panic!("unexpected {:?}", other),
    }
    assert!(store.find_by_message_role(&s(LINK), 10).is_none());
    assert!(store.find_by_message_role(&s(LINK), 11).is_some());
}

#[test]
fn remove_missing_pair_is_not_found() {
    let mut store = BindingStore::new();
    let r = remove_reaction_role(&mut store, &s(LINK), 10);
    assert!(matches!(r, Err(BindingError::NotFound)));
}

#[test]
fn ids_are_not_reused() {
    let mut store = BindingStore::new();
    add_reaction_role(&mut store, &s(LINK), 10, &s("🔥"), None).unwrap();
    remove_reaction_role(&mut store, &s(LINK), 10).unwrap();
    let effect = add_reaction_role(&mut store, &s(LINK), 10, &s("🔥"), None).unwrap();
    assert_eq!(effect.binding.id, 2);
}

#[test]
fn list_renders_in_insertion_order() {
    let mut store = BindingStore::new();
    add_reaction_role(&mut store, &s(LINK), 111, &s("🔥"), None).unwrap();
    add_reaction_role(&mut store, &s(OTHER), 333, &s("🔥"), None).unwrap();
    add_reaction_role(&mut store, &s(LINK), 222, &s("🎉"), None).unwrap();
    assert_eq!(
        list_reaction_role(&store, &s(LINK)),
        "- reaction 🔥 for <@&111>\n- reaction 🎉 for <@&222>"
    );
}

#[test]
fn list_without_bindings_renders_sentinel() {
    let mut store = BindingStore::new();
    add_reaction_role(&mut store, &s(OTHER), 333, &s("🔥"), None).unwrap();
    assert_eq!(list_reaction_role(&store, &s(LINK)), "Message has no reaction roles");
}

#[test]
fn restore_keeps_row_ids() {
    let mut store = BindingStore::new();
    let row = ReactionRole::from_columns(
        41,
        &s("10"),
        s(LINK),
        Some(EmojiType::Unicode),
        s("🔥"),
        None,
    )
    .unwrap();
    assert_eq!(store.restore(row), Ok(()));
    let again = ReactionRole::from_columns(
        41,
        &s("11"),
        s(LINK),
        Some(EmojiType::Unicode),
        s("🎉"),
        None,
    )
    .unwrap();
    assert_eq!(store.restore(again), Err(BindingError::Conflict));
    assert_eq!(store.insert(&s(LINK), 12, unicode("🎉")), Ok(ReturnReactionId { id: 42 }));
}

#[test]
fn exhausted_ids_fail_upstream() {
    let mut store = BindingStore::new();
    let last = ReactionRole::from_columns(
        i32::MAX - 1,
        &s("10"),
        s(LINK),
        Some(EmojiType::Unicode),
        s("🔥"),
        None,
    )
    .unwrap();
    assert_eq!(store.restore(last), Ok(()));
    let r = add_reaction_role(&mut store, &s(LINK), 11, &s("🎉"), None);
    assert!(matches!(r, Err(BindingError::UpstreamFailure)));
    assert_eq!(store.len(), 1);
}

#[test]
fn update_and_delete_on_store() {
    let mut store = BindingStore::new();
    store.insert(&s(LINK), 10, unicode("🔥")).unwrap();
    assert_eq!(store.update(&s(LINK), 11, unicode("🎉")), Err(BindingError::NotFound));
    assert_eq!(store.update(&s(LINK), 10, unicode("🎉")), Ok(ReturnReactionId { id: 1 }));
    let gone = store.delete(&s(LINK), 10).unwrap();
    assert_eq!(gone.reaction_emoji_name(), "🎉");
    assert!(matches!(store.delete(&s(LINK), 10), Err(BindingError::NotFound)));
}
