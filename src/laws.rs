use crate::binding::BindingModel;
use crate::commands::{add_outcome, change_outcome, remove_outcome, CommandEffect};
use crate::emoji::EmojiModel;
use crate::error::BindingError;
use crate::store::{key_pred, roles_of, with_emoji_pred, StoreModel};
use crate::sync::calls_for;
use vstd::prelude::*;

verus! {

/// No two of the rows share a (message, role) pair.
pub open spec fn rows_keys_unique(rows: Seq<BindingModel>) -> bool {
    forall|i: int, j: int|
        0 <= i < rows.len() && 0 <= j < rows.len() && #[trigger] rows[i].has_key(
            rows[j].message_link,
            rows[j].role_id,
        ) ==> i == j
}

proof fn lemma_prefix_keys_unique(rows: Seq<BindingModel>)
    requires
        rows.len() > 0,
        rows_keys_unique(rows),
    ensures
        rows_keys_unique(rows.drop_last()),
{
    let init = rows.drop_last();
    assert forall|i: int, j: int|
        0 <= i < init.len() && 0 <= j < init.len() && #[trigger] init[i].has_key(
            init[j].message_link,
            init[j].role_id,
        ) implies i == j by {
        assert(rows[i].has_key(rows[j].message_link, rows[j].role_id));
    }
}

proof fn lemma_rows_key_count(rows: Seq<BindingModel>, link: Seq<char>, role_id: u64)
    requires
        rows_keys_unique(rows),
    ensures
        rows.filter(key_pred(link, role_id)).len() <= 1,
    decreases rows.len(),
{
    reveal(Seq::filter);
    if rows.len() > 0 {
        let init = rows.drop_last();
        let last = rows.last();
        let p = key_pred(link, role_id);
        lemma_prefix_keys_unique(rows);
        lemma_rows_key_count(init, link, role_id);
        if p(last) {
            assert forall|i: int| 0 <= i < init.len() implies !p(#[trigger] init[i]) by {
                if p(init[i]) {
                    assert(rows[i].has_key(last.message_link, last.role_id));
                    assert(rows[rows.len() - 1].has_key(last.message_link, last.role_id));
                }
            }
            assert(init.all(|x: BindingModel| !p(x)));
            init.lemma_all_neg_filter_empty(p);
        }
    }
}

proof fn lemma_rows_matched_roles_distinct(rows: Seq<BindingModel>, link: Seq<char>, name: Seq<char>)
    requires
        rows_keys_unique(rows),
    ensures
        roles_of(rows.filter(with_emoji_pred(link, name))).no_duplicates(),
    decreases rows.len(),
{
    reveal(Seq::filter);
    if rows.len() > 0 {
        let init = rows.drop_last();
        let last = rows.last();
        let p = with_emoji_pred(link, name);
        let f0 = init.filter(p);
        lemma_prefix_keys_unique(rows);
        lemma_rows_matched_roles_distinct(init, link, name);
        if p(last) {
            assert forall|j: int| 0 <= j < f0.len() implies #[trigger] f0[j].role_id != last.role_id by {
                init.lemma_filter_pred(p, j);
                assert(f0.contains(f0[j]));
                init.lemma_filter_contains_rev(p, f0[j]);
                let k = choose|k: int| 0 <= k < init.len() && init[k] == f0[j];
                if f0[j].role_id == last.role_id {
                    assert(rows[k].has_key(last.message_link, last.role_id));
                    assert(rows[rows.len() - 1].has_key(last.message_link, last.role_id));
                }
            }
            let rs = roles_of(f0.push(last));
            assert(rs =~= roles_of(f0).push(last.role_id));
            assert forall|i: int, j: int|
                0 <= i < rs.len() && 0 <= j < rs.len() && i != j implies rs[i] != rs[j] by {
                if i == f0.len() as int {
                    assert(rs[j] == f0[j].role_id);
                } else if j == f0.len() as int {
                    assert(rs[i] == f0[i].role_id);
                } else {
                    assert(rs[i] == roles_of(f0)[i]);
                    assert(rs[j] == roles_of(f0)[j]);
                }
            }
        }
    }
}

proof fn lemma_find_unique(m: StoreModel, link: Seq<char>, role_id: u64, i: int)
    requires
        m.well_formed(),
        0 <= i < m.rows.len(),
        m.rows[i].has_key(link, role_id),
    ensures
        m.find_role(link, role_id) == Some(m.rows[i]),
{
    let k = m.key_index(link, role_id);
    assert(m.rows[k].has_key(link, role_id));
    assert(m.rows[k].has_key(m.rows[i].message_link, m.rows[i].role_id));
}

/// Under a valid store there is at most one binding for each (message, role)
/// pair.
pub proof fn lemma_key_at_most_once(m: StoreModel, link: Seq<char>, role_id: u64)
    requires
        m.well_formed(),
    ensures
        m.key_count(link, role_id) <= 1,
{
    lemma_rows_key_count(m.rows, link, role_id);
}

/// Adding a binding and then looking up its (message, role) pair finds a
/// binding with the given role, message and emoji (the emoji as classified),
/// under the id that the add handed out.
pub proof fn lemma_add_then_find(
    m: StoreModel,
    m1: StoreModel,
    link: Seq<char>,
    role_id: u64,
    emoji: EmojiModel,
    r: Result<CommandEffect, BindingError>,
)
    requires
        m.well_formed(),
        m1.well_formed(),
        add_outcome(m, m1, link, role_id, emoji, r),
        r is Ok,
    ensures
        m1.find_role(link, role_id) == Some(
            BindingModel { id: m.next_id, role_id, message_link: link, emoji },
        ),
        m1.find_role(link, role_id) == Some(r->Ok_0.binding@),
{
    let n = m.rows.len() as int;
    assert(m1.rows[n] == BindingModel { id: m.next_id, role_id, message_link: link, emoji });
    lemma_find_unique(m1, link, role_id, n);
}

/// After a binding is removed (or its removal fails for want of one), looking
/// up its (message, role) pair finds nothing.
pub proof fn lemma_remove_then_find(
    m: StoreModel,
    m1: StoreModel,
    link: Seq<char>,
    role_id: u64,
    r: Result<CommandEffect, BindingError>,
)
    requires
        m.well_formed(),
        remove_outcome(m, m1, link, role_id, r),
    ensures
        m1.find_role(link, role_id) is None,
{
    if m.has_key(link, role_id) {
        let k = m.key_index(link, role_id);
        assert(m.rows[k].has_key(link, role_id));
        if m1.has_key(link, role_id) {
            let i = choose|i: int| 0 <= i < m1.rows.len() && #[trigger] m1.rows[i].has_key(link, role_id);
            let i0 = if i < k { i } else { i + 1 };
            assert(m1.rows[i] == m.rows[i0]);
            assert(m.rows[i0].has_key(m.rows[k].message_link, m.rows[k].role_id));
        }
    }
}

/// Two adds for the same (message, role) pair, one after the other (as two
/// racing requests reach the store): the second fails with `Conflict` when
/// the first succeeded, not both succeed, and at most one binding for the
/// pair remains.
pub proof fn lemma_racing_adds(
    m: StoreModel,
    m1: StoreModel,
    m2: StoreModel,
    link: Seq<char>,
    role_id: u64,
    e1: EmojiModel,
    e2: EmojiModel,
    r1: Result<CommandEffect, BindingError>,
    r2: Result<CommandEffect, BindingError>,
)
    requires
        m.well_formed(),
        m1.well_formed(),
        m2.well_formed(),
        add_outcome(m, m1, link, role_id, e1, r1),
        add_outcome(m1, m2, link, role_id, e2, r2),
    ensures
        r1 is Ok ==> r2 is Err && r2->Err_0 == BindingError::Conflict,
        !(r1 is Ok && r2 is Ok),
        m2.key_count(link, role_id) <= 1,
{
    if r1 is Ok {
        let n = m.rows.len() as int;
        assert(m1.rows[n].has_key(link, role_id));
    }
    lemma_key_at_most_once(m2, link, role_id);
}

/// Changing the emoji of a binding keeps a single binding for its
/// (message, role) pair, now with the new emoji and the same id.
pub proof fn lemma_change_then_find(
    m: StoreModel,
    m1: StoreModel,
    link: Seq<char>,
    role_id: u64,
    emoji: EmojiModel,
    r: Result<CommandEffect, BindingError>,
)
    requires
        m.well_formed(),
        m1.well_formed(),
        change_outcome(m, m1, link, role_id, emoji, r),
        r is Ok,
    ensures
        m1.find_role(link, role_id) == Some(r->Ok_0.binding@),
        r->Ok_0.binding@.emoji == emoji,
        r->Ok_0.binding@.id == m.find_role(link, role_id)->Some_0.id,
{
    let k = m.key_index(link, role_id);
    assert(m.rows[k].has_key(link, role_id));
    assert(m1.rows[k].has_key(link, role_id));
    lemma_find_unique(m1, link, role_id, k);
}

/// For one reaction event, the role calls follow the matched bindings one
/// for one, and no role is called twice: each bound role is granted (or
/// revoked) exactly once.
pub proof fn lemma_one_call_per_role(
    m: StoreModel,
    link: Seq<char>,
    name: Seq<char>,
    guild_id: u64,
    user_id: u64,
    grant: bool,
)
    requires
        m.well_formed(),
    ensures
        ({
            let matched = m.with_emoji(link, name);
            let calls = calls_for(roles_of(matched), guild_id, user_id, grant);
            &&& calls.len() == matched.len()
            &&& forall|k: int| 0 <= k < matched.len() ==> #[trigger] calls[k].role_id == matched[k].role_id
            &&& forall|i: int, j: int|
                0 <= i < calls.len() && 0 <= j < calls.len() && #[trigger] calls[i].role_id
                    == #[trigger] calls[j].role_id ==> i == j
        }),
{
    let matched = m.with_emoji(link, name);
    let roles = roles_of(matched);
    let calls = calls_for(roles, guild_id, user_id, grant);
    assert(rows_keys_unique(m.rows));
    lemma_rows_matched_roles_distinct(m.rows, link, name);
    assert forall|i: int, j: int|
        0 <= i < calls.len() && 0 <= j < calls.len() && #[trigger] calls[i].role_id
            == #[trigger] calls[j].role_id implies i == j by {
        assert(calls[i].role_id == roles[i]);
        assert(calls[j].role_id == roles[j]);
    }
}

} // verus!
