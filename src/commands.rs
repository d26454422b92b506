use crate::binding::{BindingModel, ReactionRole};
use crate::emoji::{
    classified, classify_emoji, custom_view, is_catalog_emoji, CustomEmoji, EmojiModel,
    ReactionEmoji,
};
use crate::error::BindingError;
use crate::store::{BindingStore, StoreModel};
use crate::text::{append_decimal, decimal_text};
use vstd::prelude::*;

verus! {

/// A change that a command asks of the reactions shown on a message.
#[derive(Debug)]
pub enum PlatformAction {
    /// Place the emoji as a reaction on the message.
    React { message_link: String, emoji: ReactionEmoji },
    /// Remove the emoji's reactions on the message, those of every user.
    StripReaction { message_link: String, emoji: ReactionEmoji },
}

/// The mathematical value of a `PlatformAction`.
pub enum ActionModel {
    React { message_link: Seq<char>, emoji: EmojiModel },
    StripReaction { message_link: Seq<char>, emoji: EmojiModel },
}

impl View for PlatformAction {
    type V = ActionModel;

    open spec fn view(&self) -> ActionModel {
        match self {
            PlatformAction::React { message_link, emoji } => ActionModel::React {
                message_link: message_link@,
                emoji: emoji@,
            },
            PlatformAction::StripReaction { message_link, emoji } => ActionModel::StripReaction {
                message_link: message_link@,
                emoji: emoji@,
            },
        }
    }
}

/// What a command that succeeded did: the binding it created, changed or
/// deleted, and the one reaction change it asks of the platform.
#[derive(Debug)]
pub struct CommandEffect {
    pub binding: ReactionRole,
    pub action: PlatformAction,
}

/// The outcome of adding a binding of `role_id` with `emoji` on the message
/// `link` to the store `old`: `new` is the store afterwards.
pub open spec fn add_outcome(
    old: StoreModel,
    new: StoreModel,
    link: Seq<char>,
    role_id: u64,
    emoji: EmojiModel,
    r: Result<CommandEffect, BindingError>,
) -> bool {
    if old.has_key(link, role_id) {
        r is Err && r->Err_0 == BindingError::Conflict && new == old
    } else if !old.can_allocate() {
        r is Err && r->Err_0 == BindingError::UpstreamFailure && new == old
    } else {
        &&& r is Ok
        &&& new == old.inserted(link, role_id, emoji)
        &&& r->Ok_0.binding@ == BindingModel {
            id: old.next_id,
            role_id,
            message_link: link,
            emoji,
        }
        &&& r->Ok_0.action@ == ActionModel::React { message_link: link, emoji }
    }
}

/// The outcome of giving the binding of `role_id` on the message `link` the
/// emoji `emoji`.
pub open spec fn change_outcome(
    old: StoreModel,
    new: StoreModel,
    link: Seq<char>,
    role_id: u64,
    emoji: EmojiModel,
    r: Result<CommandEffect, BindingError>,
) -> bool {
    if !old.has_key(link, role_id) {
        r is Err && r->Err_0 == BindingError::NotFound && new == old
    } else {
        &&& r is Ok
        &&& new == old.updated(link, role_id, emoji)
        &&& r->Ok_0.binding@ == BindingModel { emoji, ..old.find_role(link, role_id)->Some_0 }
        &&& r->Ok_0.action@ == ActionModel::React { message_link: link, emoji }
    }
}

/// The outcome of deleting the binding of `role_id` on the message `link`.
pub open spec fn remove_outcome(
    old: StoreModel,
    new: StoreModel,
    link: Seq<char>,
    role_id: u64,
    r: Result<CommandEffect, BindingError>,
) -> bool {
    if !old.has_key(link, role_id) {
        r is Err && r->Err_0 == BindingError::NotFound && new == old
    } else {
        &&& r is Ok
        &&& new == old.removed(link, role_id)
        &&& Some(r->Ok_0.binding@) == old.find_role(link, role_id)
        &&& r->Ok_0.action@ == ActionModel::StripReaction {
            message_link: link,
            emoji: old.find_role(link, role_id)->Some_0.emoji,
        }
    }
}

/// The outcome of a command that first classifies its emoji token: an
/// invalid token fails before the store is looked at.
pub open spec fn classified_outcome(
    old: StoreModel,
    new: StoreModel,
    emoji: Option<EmojiModel>,
    r: Result<CommandEffect, BindingError>,
    then: spec_fn(EmojiModel) -> bool,
) -> bool {
    match emoji {
        None => r is Err && r->Err_0 == BindingError::InvalidEmoji && new == old,
        Some(e) => then(e),
    }
}

/// Binds `role_id` to an already classified emoji on the message `link`,
/// unless the role already has a binding there.
pub fn add_classified(
    store: &mut BindingStore,
    link: &String,
    role_id: u64,
    emoji: ReactionEmoji,
) -> (r: Result<CommandEffect, BindingError>)
    requires
        old(store).well_formed(),
    ensures
        final(store).well_formed(),
        add_outcome(old(store)@, final(store)@, link@, role_id, emoji@, r),
{
    if store.find_by_message_role(link, role_id).is_some() {
        return Err(BindingError::Conflict);
    }
    let reaction = emoji.duplicate();
    let created = store.insert(link, role_id, emoji)?;
    let binding = ReactionRole {
        id: created.id,
        role_id,
        message_link: link.clone(),
        emoji: reaction.duplicate(),
    };
    let action = PlatformAction::React { message_link: link.clone(), emoji: reaction };
    Ok(CommandEffect { binding, action })
}

/// Adds a binding of `role_id` on the message `link` for the emoji that
/// `token` names; `custom` is what the guild's emoji directory resolved the
/// token to, consulted only when it is not a standard emoji.
pub fn add_reaction_role(
    store: &mut BindingStore,
    link: &String,
    role_id: u64,
    token: &String,
    custom: Option<CustomEmoji>,
) -> (r: Result<CommandEffect, BindingError>)
    requires
        old(store).well_formed(),
    ensures
        final(store).well_formed(),
        classified_outcome(
            old(store)@,
            final(store)@,
            classified(token@, is_catalog_emoji(token@), custom_view(custom)),
            r,
            |e: EmojiModel| add_outcome(old(store)@, final(store)@, link@, role_id, e, r),
        ),
{
    let emoji = classify_emoji(token, custom)?;
    add_classified(store, link, role_id, emoji)
}

/// Gives the binding of `role_id` on the message `link` an already
/// classified emoji, keeping its id.
pub fn change_classified(
    store: &mut BindingStore,
    link: &String,
    role_id: u64,
    emoji: ReactionEmoji,
) -> (r: Result<CommandEffect, BindingError>)
    requires
        old(store).well_formed(),
    ensures
        final(store).well_formed(),
        change_outcome(old(store)@, final(store)@, link@, role_id, emoji@, r),
{
    let reaction = emoji.duplicate();
    let ghost before = store@;
    let updated = store.update(link, role_id, emoji)?;
    proof {
        let k = before.key_index(link@, role_id);
        assert(before.rows[k].has_key(link@, role_id));
    }
    let binding = ReactionRole {
        id: updated.id,
        role_id,
        message_link: link.clone(),
        emoji: reaction.duplicate(),
    };
    let action = PlatformAction::React { message_link: link.clone(), emoji: reaction };
    Ok(CommandEffect { binding, action })
}

/// Gives the binding of `role_id` on the message `link` the emoji that
/// `token` names; the previous reaction stays on the message.
pub fn change_reaction_role_emoji(
    store: &mut BindingStore,
    link: &String,
    role_id: u64,
    token: &String,
    custom: Option<CustomEmoji>,
) -> (r: Result<CommandEffect, BindingError>)
    requires
        old(store).well_formed(),
    ensures
        final(store).well_formed(),
        classified_outcome(
            old(store)@,
            final(store)@,
            classified(token@, is_catalog_emoji(token@), custom_view(custom)),
            r,
            |e: EmojiModel| change_outcome(old(store)@, final(store)@, link@, role_id, e, r),
        ),
{
    let emoji = classify_emoji(token, custom)?;
    change_classified(store, link, role_id, emoji)
}

/// Deletes the binding of `role_id` on the message `link`; its emoji is then
/// stripped from the message for every user.
pub fn remove_reaction_role(store: &mut BindingStore, link: &String, role_id: u64) -> (r: Result<
    CommandEffect,
    BindingError,
>)
    requires
        old(store).well_formed(),
    ensures
        final(store).well_formed(),
        remove_outcome(old(store)@, final(store)@, link@, role_id, r),
{
    let binding = store.delete(link, role_id)?;
    let action = PlatformAction::StripReaction {
        message_link: link.clone(),
        emoji: binding.emoji.duplicate(),
    };
    Ok(CommandEffect { binding, action })
}

/// How one binding is listed: its emoji and a mention of its role.
pub open spec fn binding_line(b: BindingModel) -> Seq<char> {
    "- reaction "@ + b.emoji.name() + " for <@&"@ + decimal_text(b.role_id as nat) + ">"@
}

/// The lines of the bindings, in order, one per binding, separated by line
/// breaks.
pub open spec fn joined_lines(bindings: Seq<BindingModel>) -> Seq<char>
    decreases bindings.len(),
{
    if bindings.len() == 0 {
        Seq::empty()
    } else if bindings.len() == 1 {
        binding_line(bindings[0])
    } else {
        joined_lines(bindings.drop_last()) + "\n"@ + binding_line(bindings.last())
    }
}

/// The listing of a message's bindings; a message without any gets a notice
/// instead of an empty text.
pub open spec fn listing(bindings: Seq<BindingModel>) -> Seq<char> {
    if bindings.len() == 0 {
        "Message has no reaction roles"@
    } else {
        joined_lines(bindings)
    }
}

/// Renders the bindings on the message `link`, in insertion order.
pub fn list_reaction_role(store: &BindingStore, link: &String) -> (r: String)
    ensures
        r@ == listing(store@.on_message(link@)),
{
    let rows = store.list_by_message(link);
    let ghost bindings = rows@.map_values(|b: ReactionRole| b@);
    if rows.len() == 0 {
        return String::from_str("Message has no reaction roles");
    }
    let mut out = String::new();
    let mut i: usize = 0;
    while i < rows.len()
        invariant
            i <= rows.len(),
            bindings == rows@.map_values(|b: ReactionRole| b@),
            out@ == joined_lines(bindings.subrange(0, i as int)),
        decreases rows.len() - i,
    {
        let ghost before = out@;
        let ghost b = bindings[i as int];
        assert(b == rows@[i as int]@);
        if i > 0 {
            out.append("\n");
        }
        out.append("- reaction ");
        out.append(rows[i].emoji.name().as_str());
        out.append(" for <@&");
        append_decimal(&mut out, rows[i].role_id);
        out.append(">");
        proof {
            let next = bindings.subrange(0, i as int + 1);
            assert(next.drop_last() =~= bindings.subrange(0, i as int));
            assert(next.last() == b);
            if i == 0 {
                assert(before =~= Seq::<char>::empty());
                assert(out@ =~= binding_line(b));
            } else {
                assert(out@ =~= before + "\n"@ + binding_line(b));
            }
        }
        i = i + 1;
    }
    assert(bindings.subrange(0, rows.len() as int) =~= bindings);
    out
}

} // verus!
