use crate::binding::{BindingModel, ReactionRole, ReturnReactionId, ReturnRoleId};
use crate::emoji::{EmojiModel, ReactionEmoji};
use crate::error::BindingError;
use vstd::prelude::*;

verus! {

/// The mathematical value of a `BindingStore`: its rows in insertion order
/// and the id that the next insertion receives.
pub struct StoreModel {
    pub rows: Seq<BindingModel>,
    pub next_id: int,
}

impl StoreModel {
    /// No two rows share a (message, role) pair.
    pub open spec fn keys_unique(self) -> bool {
        forall|i: int, j: int|
            0 <= i < self.rows.len() && 0 <= j < self.rows.len() && #[trigger] self.rows[i].has_key(
                self.rows[j].message_link,
                self.rows[j].role_id,
            ) ==> i == j
    }

    /// No two rows share an id, and every id lies below the next one.
    pub open spec fn ids_fresh(self) -> bool {
        &&& forall|i: int, j: int|
            0 <= i < self.rows.len() && 0 <= j < self.rows.len() && #[trigger] self.rows[i].id
                == #[trigger] self.rows[j].id ==> i == j
        &&& forall|i: int| 0 <= i < self.rows.len() ==> #[trigger] self.rows[i].id < self.next_id
    }

    pub open spec fn well_formed(self) -> bool {
        &&& self.keys_unique()
        &&& self.ids_fresh()
        &&& 1 <= self.next_id <= i32::MAX
    }

    pub open spec fn has_key(self, link: Seq<char>, role_id: u64) -> bool {
        exists|i: int| 0 <= i < self.rows.len() && #[trigger] self.rows[i].has_key(link, role_id)
    }

    /// The position of the row of (`link`, `role_id`), when there is one.
    pub open spec fn key_index(self, link: Seq<char>, role_id: u64) -> int {
        choose|i: int| 0 <= i < self.rows.len() && #[trigger] self.rows[i].has_key(link, role_id)
    }

    /// The binding of `role_id` on the message `link`.
    pub open spec fn find_role(self, link: Seq<char>, role_id: u64) -> Option<BindingModel> {
        if self.has_key(link, role_id) {
            Some(self.rows[self.key_index(link, role_id)])
        } else {
            None
        }
    }

    /// Whether another id can be handed out.
    pub open spec fn can_allocate(self) -> bool {
        self.next_id < i32::MAX
    }

    /// The store after a new binding is appended under the next id.
    pub open spec fn inserted(self, link: Seq<char>, role_id: u64, emoji: EmojiModel) -> StoreModel {
        StoreModel {
            rows: self.rows.push(
                BindingModel { id: self.next_id, role_id, message_link: link, emoji },
            ),
            next_id: self.next_id + 1,
        }
    }

    /// The store after the emoji of the binding of (`link`, `role_id`) is replaced.
    pub open spec fn updated(self, link: Seq<char>, role_id: u64, emoji: EmojiModel) -> StoreModel {
        let i = self.key_index(link, role_id);
        StoreModel {
            rows: self.rows.update(i, BindingModel { emoji, ..self.rows[i] }),
            next_id: self.next_id,
        }
    }

    /// The store after the binding of (`link`, `role_id`) is deleted.
    pub open spec fn removed(self, link: Seq<char>, role_id: u64) -> StoreModel {
        StoreModel { rows: self.rows.remove(self.key_index(link, role_id)), next_id: self.next_id }
    }

    /// The store after a stored row is taken back in, keeping its id.
    pub open spec fn restored(self, row: BindingModel) -> StoreModel {
        StoreModel {
            rows: self.rows.push(row),
            next_id: if row.id >= self.next_id {
                row.id + 1
            } else {
                self.next_id
            },
        }
    }

    pub open spec fn id_used(self, id: int) -> bool {
        exists|j: int| 0 <= j < self.rows.len() && #[trigger] self.rows[j].id == id
    }

    /// The bindings on the message `link`, in insertion order.
    pub open spec fn on_message(self, link: Seq<char>) -> Seq<BindingModel> {
        self.rows.filter(on_message_pred(link))
    }

    /// The bindings on the message `link` whose emoji is named `name`, in
    /// insertion order.
    pub open spec fn with_emoji(self, link: Seq<char>, name: Seq<char>) -> Seq<BindingModel> {
        self.rows.filter(with_emoji_pred(link, name))
    }

    /// The number of bindings of `role_id` on the message `link`.
    pub open spec fn key_count(self, link: Seq<char>, role_id: u64) -> nat {
        self.rows.filter(key_pred(link, role_id)).len()
    }
}

pub open spec fn on_message_pred(link: Seq<char>) -> spec_fn(BindingModel) -> bool {
    |b: BindingModel| b.message_link == link
}

pub open spec fn with_emoji_pred(link: Seq<char>, name: Seq<char>) -> spec_fn(BindingModel) -> bool {
    |b: BindingModel| b.message_link == link && b.emoji.name() == name
}

pub open spec fn key_pred(link: Seq<char>, role_id: u64) -> spec_fn(BindingModel) -> bool {
    |b: BindingModel| b.has_key(link, role_id)
}

/// The role of each binding, in order.
pub open spec fn roles_of(bindings: Seq<BindingModel>) -> Seq<u64> {
    bindings.map_values(|b: BindingModel| b.role_id)
}

/// The bindings, held in memory; each operation is one atomic step.
pub struct BindingStore {
    rows: Vec<ReactionRole>,
    next_id: i32,
}

impl View for BindingStore {
    type V = StoreModel;

    closed spec fn view(&self) -> StoreModel {
        StoreModel { rows: self.rows@.map_values(|r: ReactionRole| r@), next_id: self.next_id as int }
    }
}

impl BindingStore {
    pub open spec fn well_formed(&self) -> bool {
        self@.well_formed()
    }

    /// An empty store whose first id is 1.
    pub fn new() -> (r: BindingStore)
        ensures
            r.well_formed(),
            r@.rows.len() == 0,
            r@.next_id == 1,
    {
        BindingStore { rows: Vec::new(), next_id: 1 }
    }

    /// The number of bindings.
    pub fn len(&self) -> (r: usize)
        ensures
            r == self@.rows.len(),
    {
        self.rows.len()
    }

    /// The position of the binding of (`link`, `role_id`).
    fn position(&self, link: &String, role_id: u64) -> (r: Option<usize>)
        requires
            self.well_formed(),
        ensures
            match r {
                Some(i) => i < self@.rows.len() && self@.has_key(link@, role_id) && i == self@.key_index(
                    link@,
                    role_id,
                ),
                None => !self@.has_key(link@, role_id),
            },
    {
        let mut i: usize = 0;
        while i < self.rows.len()
            invariant
                self.well_formed(),
                i <= self.rows.len(),
                forall|j: int| 0 <= j < i ==> !(#[trigger] self@.rows[j]).has_key(link@, role_id),
            decreases self.rows.len() - i,
        {
            if self.rows[i].role_id == role_id && self.rows[i].message_link == *link {
                assert(self@.rows[i as int] == self.rows@[i as int]@);
                assert(self@.rows[i as int].has_key(link@, role_id));
                assert(self@.has_key(link@, role_id));
                let ghost k = self@.key_index(link@, role_id);
                assert(self@.rows[k].has_key(link@, role_id));
                assert(self@.rows[k].has_key(self@.rows[i as int].message_link, self@.rows[i as int].role_id));
                return Some(i);
            }
            i = i + 1;
        }
        None
    }

    /// Whether a row already holds the id.
    fn id_in_use(&self, id: i32) -> (r: bool)
        ensures
            r == exists|j: int| 0 <= j < self@.rows.len() && #[trigger] self@.rows[j].id == id as int,
    {
        let mut i: usize = 0;
        while i < self.rows.len()
            invariant
                i <= self.rows.len(),
                forall|j: int| 0 <= j < i ==> (#[trigger] self@.rows[j]).id != id as int,
            decreases self.rows.len() - i,
        {
            if self.rows[i].id == id {
                assert(self@.rows[i as int].id == id as int);
                return true;
            }
            i = i + 1;
        }
        false
    }

    /// The binding of `role_id` on the message `link`.
    pub fn find_by_message_role(&self, link: &String, role_id: u64) -> (r: Option<ReactionRole>)
        requires
            self.well_formed(),
        ensures
            match r {
                Some(b) => self@.find_role(link@, role_id) == Some(b@),
                None => self@.find_role(link@, role_id) is None,
            },
    {
        match self.position(link, role_id) {
            Some(i) => Some(self.rows[i].duplicate()),
            None => None,
        }
    }
}

impl BindingStore {
    /// Stores a new binding of `role_id` on the message `link` under the next
    /// id; a second binding for the same pair is refused.
    pub fn insert(&mut self, link: &String, role_id: u64, emoji: ReactionEmoji) -> (r: Result<
        ReturnReactionId,
        BindingError,
    >)
        requires
            old(self).well_formed(),
        ensures
            final(self).well_formed(),
            old(self)@.has_key(link@, role_id) ==> r == Err::<ReturnReactionId, BindingError>(
                BindingError::Conflict,
            ) && final(self)@ == old(self)@,
            !old(self)@.has_key(link@, role_id) && !old(self)@.can_allocate() ==> r == Err::<
                ReturnReactionId,
                BindingError,
            >(BindingError::UpstreamFailure) && final(self)@ == old(self)@,
            !old(self)@.has_key(link@, role_id) && old(self)@.can_allocate() ==> r == Ok::<
                ReturnReactionId,
                BindingError,
            >(ReturnReactionId { id: old(self)@.next_id as i32 }) && final(self)@ == old(
                self,
            )@.inserted(link@, role_id, emoji@),
    {
        if self.position(link, role_id).is_some() {
            return Err(BindingError::Conflict);
        }
        if self.next_id == i32::MAX {
            return Err(BindingError::UpstreamFailure);
        }
        let id = self.next_id;
        let row = ReactionRole { id, role_id, message_link: link.clone(), emoji };
        let ghost before = self@;
        self.rows.push(row);
        self.next_id = id + 1;
        proof {
            let after = before.inserted(link@, role_id, row.emoji@);
            assert(self@.rows =~= after.rows);
            let n = before.rows.len() as int;
            assert forall|i: int, j: int|
                0 <= i < after.rows.len() && 0 <= j < after.rows.len() && #[trigger] after.rows[i].has_key(
                    after.rows[j].message_link,
                    after.rows[j].role_id,
                ) implies i == j by {
                if i == n && j < n {
                    assert(before.rows[j].has_key(link@, role_id));
                } else if j == n && i < n {
                    assert(before.rows[i].has_key(link@, role_id));
                } else if i < n && j < n {
                    assert(before.rows[i].has_key(before.rows[j].message_link, before.rows[j].role_id));
                }
            }
            assert forall|i: int, j: int|
                0 <= i < after.rows.len() && 0 <= j < after.rows.len() && #[trigger] after.rows[i].id
                    == #[trigger] after.rows[j].id implies i == j by {
                if i < n && j < n {
                    assert(before.rows[i].id == before.rows[j].id);
                } else if i < n {
                    assert(before.rows[i].id < before.next_id);
                } else if j < n {
                    assert(before.rows[j].id < before.next_id);
                }
            }
            assert forall|i: int| 0 <= i < after.rows.len() implies #[trigger] after.rows[i].id
                < after.next_id by {
                if i < n {
                    assert(before.rows[i].id < before.next_id);
                }
            }
        }
        Ok(ReturnReactionId { id })
    }

    /// Replaces the emoji of the binding of `role_id` on the message `link`,
    /// keeping its id and its place.
    pub fn update(&mut self, link: &String, role_id: u64, emoji: ReactionEmoji) -> (r: Result<
        ReturnReactionId,
        BindingError,
    >)
        requires
            old(self).well_formed(),
        ensures
            final(self).well_formed(),
            !old(self)@.has_key(link@, role_id) ==> r == Err::<ReturnReactionId, BindingError>(
                BindingError::NotFound,
            ) && final(self)@ == old(self)@,
            old(self)@.has_key(link@, role_id) ==> r is Ok && r->Ok_0.id as int == old(
                self,
            )@.find_role(link@, role_id)->Some_0.id && final(self)@ == old(self)@.updated(
                link@,
                role_id,
                emoji@,
            ),
    {
        let i = match self.position(link, role_id) {
            Some(i) => i,
            None => return Err(BindingError::NotFound),
        };
        let ghost before = self@;
        let id = self.rows[i].id;
        let row = ReactionRole { id, role_id, message_link: link.clone(), emoji };
        self.rows[i] = row;
        proof {
            let after = before.updated(link@, role_id, row.emoji@);
            assert(self@.rows =~= after.rows);
            assert forall|a: int, b: int|
                0 <= a < after.rows.len() && 0 <= b < after.rows.len() && #[trigger] after.rows[a].has_key(
                    after.rows[b].message_link,
                    after.rows[b].role_id,
                ) implies a == b by {
                assert(before.rows[a].has_key(before.rows[b].message_link, before.rows[b].role_id));
            }
            assert forall|a: int, b: int|
                0 <= a < after.rows.len() && 0 <= b < after.rows.len() && #[trigger] after.rows[a].id
                    == #[trigger] after.rows[b].id implies a == b by {
                assert(before.rows[a].id == before.rows[b].id);
            }
            assert forall|a: int| 0 <= a < after.rows.len() implies #[trigger] after.rows[a].id
                < after.next_id by {
                assert(before.rows[a].id < before.next_id);
            }
        }
        Ok(ReturnReactionId { id })
    }

    /// Deletes the binding of `role_id` on the message `link` and returns it.
    pub fn delete(&mut self, link: &String, role_id: u64) -> (r: Result<ReactionRole, BindingError>)
        requires
            old(self).well_formed(),
        ensures
            final(self).well_formed(),
            !old(self)@.has_key(link@, role_id) ==> r is Err && r->Err_0 == BindingError::NotFound
                && final(self)@ == old(self)@,
            old(self)@.has_key(link@, role_id) ==> r is Ok && old(self)@.find_role(link@, role_id)
                == Some(r->Ok_0@) && final(self)@ == old(self)@.removed(link@, role_id),
    {
        let i = match self.position(link, role_id) {
            Some(i) => i,
            None => return Err(BindingError::NotFound),
        };
        let ghost before = self@;
        let row = self.rows.remove(i);
        proof {
            let after = before.removed(link@, role_id);
            assert(self@.rows =~= after.rows);
            let k = i as int;
            assert forall|a: int, b: int|
                0 <= a < after.rows.len() && 0 <= b < after.rows.len() && #[trigger] after.rows[a].has_key(
                    after.rows[b].message_link,
                    after.rows[b].role_id,
                ) implies a == b by {
                let a0 = if a < k { a } else { a + 1 };
                let b0 = if b < k { b } else { b + 1 };
                assert(after.rows[a] == before.rows[a0]);
                assert(after.rows[b] == before.rows[b0]);
                assert(before.rows[a0].has_key(before.rows[b0].message_link, before.rows[b0].role_id));
            }
            assert forall|a: int, b: int|
                0 <= a < after.rows.len() && 0 <= b < after.rows.len() && #[trigger] after.rows[a].id
                    == #[trigger] after.rows[b].id implies a == b by {
                let a0 = if a < k { a } else { a + 1 };
                let b0 = if b < k { b } else { b + 1 };
                assert(after.rows[a] == before.rows[a0]);
                assert(after.rows[b] == before.rows[b0]);
                assert(before.rows[a0].id == before.rows[b0].id);
            }
            assert forall|a: int| 0 <= a < after.rows.len() implies #[trigger] after.rows[a].id
                < after.next_id by {
                let a0 = if a < k { a } else { a + 1 };
                assert(after.rows[a] == before.rows[a0]);
                assert(before.rows[a0].id < before.next_id);
            }
        }
        Ok(row)
    }
}

impl BindingStore {
    /// Takes a stored row back in under its own id: refused when its
    /// (message, role) pair or its id is already present, or when no id
    /// would be left after it.
    pub fn restore(&mut self, row: ReactionRole) -> (r: Result<(), BindingError>)
        requires
            old(self).well_formed(),
        ensures
            final(self).well_formed(),
            r is Ok <==> !old(self)@.has_key(row@.message_link, row@.role_id) && !old(
                self,
            )@.id_used(row@.id) && (row@.id < old(self)@.next_id || row@.id < i32::MAX),
            r is Ok ==> final(self)@ == old(self)@.restored(row@),
            r is Err ==> final(self)@ == old(self)@,
            r is Err && (old(self)@.has_key(row@.message_link, row@.role_id) || old(self)@.id_used(
                row@.id,
            )) ==> r->Err_0 == BindingError::Conflict,
            r is Err && !old(self)@.has_key(row@.message_link, row@.role_id) && !old(
                self,
            )@.id_used(row@.id) ==> r->Err_0 == BindingError::UpstreamFailure,
    {
        if self.position(&row.message_link, row.role_id).is_some() || self.id_in_use(row.id) {
            return Err(BindingError::Conflict);
        }
        if row.id >= self.next_id && row.id == i32::MAX {
            return Err(BindingError::UpstreamFailure);
        }
        let ghost before = self@;
        let ghost rv = row@;
        let next = if row.id >= self.next_id {
            row.id + 1
        } else {
            self.next_id
        };
        self.rows.push(row);
        self.next_id = next;
        proof {
            let after = before.restored(rv);
            assert(self@.rows =~= after.rows);
            let n = before.rows.len() as int;
            assert forall|i: int, j: int|
                0 <= i < after.rows.len() && 0 <= j < after.rows.len() && #[trigger] after.rows[i].has_key(
                    after.rows[j].message_link,
                    after.rows[j].role_id,
                ) implies i == j by {
                if i == n && j < n {
                    assert(before.rows[j].has_key(rv.message_link, rv.role_id));
                } else if j == n && i < n {
                    assert(before.rows[i].has_key(rv.message_link, rv.role_id));
                } else if i < n && j < n {
                    assert(before.rows[i].has_key(before.rows[j].message_link, before.rows[j].role_id));
                }
            }
            assert forall|i: int, j: int|
                0 <= i < after.rows.len() && 0 <= j < after.rows.len() && #[trigger] after.rows[i].id
                    == #[trigger] after.rows[j].id implies i == j by {
                if i < n && j < n {
                    assert(before.rows[i].id == before.rows[j].id);
                } else if i < n {
                    assert(before.rows[i].id == rv.id);
                } else if j < n {
                    assert(before.rows[j].id == rv.id);
                }
            }
            assert forall|i: int| 0 <= i < after.rows.len() implies #[trigger] after.rows[i].id
                < after.next_id by {
                if i < n {
                    assert(before.rows[i].id < before.next_id);
                }
            }
        }
        Ok(())
    }

    /// The bindings on the message `link`, in insertion order.
    pub fn list_by_message(&self, link: &String) -> (r: Vec<ReactionRole>)
        ensures
            r@.map_values(|b: ReactionRole| b@) == self@.on_message(link@),
    {
        let mut out: Vec<ReactionRole> = Vec::new();
        let mut i: usize = 0;
        while i < self.rows.len()
            invariant
                i <= self.rows.len(),
                out@.map_values(|b: ReactionRole| b@) == self@.rows.subrange(0, i as int).filter(
                    on_message_pred(link@),
                ),
            decreases self.rows.len() - i,
        {
            let ghost prefix = self@.rows.subrange(0, i as int);
            let ghost row = self@.rows[i as int];
            proof {
                assert(self@.rows.subrange(0, i as int + 1) =~= prefix.push(row));
                prefix.lemma_filter_push(row, on_message_pred(link@));
            }
            if self.rows[i].message_link == *link {
                let b = self.rows[i].duplicate();
                out.push(b);
                assert(out@.map_values(|b: ReactionRole| b@) =~= prefix.filter(
                    on_message_pred(link@),
                ).push(row));
            }
            i = i + 1;
        }
        assert(self@.rows.subrange(0, self.rows.len() as int) =~= self@.rows);
        out
    }

    /// The roles of the bindings on the message `link` whose emoji is named
    /// `name`, in insertion order.
    pub fn find_by_message_and_emoji_name(&self, link: &String, name: &String) -> (r: Vec<
        ReturnRoleId,
    >)
        ensures
            r@.map_values(|x: ReturnRoleId| x.role_id) == roles_of(self@.with_emoji(link@, name@)),
    {
        let mut out: Vec<ReturnRoleId> = Vec::new();
        let mut i: usize = 0;
        while i < self.rows.len()
            invariant
                i <= self.rows.len(),
                out@.map_values(|x: ReturnRoleId| x.role_id) == roles_of(
                    self@.rows.subrange(0, i as int).filter(with_emoji_pred(link@, name@)),
                ),
            decreases self.rows.len() - i,
        {
            let ghost prefix = self@.rows.subrange(0, i as int);
            let ghost row = self@.rows[i as int];
            proof {
                assert(self@.rows.subrange(0, i as int + 1) =~= prefix.push(row));
                prefix.lemma_filter_push(row, with_emoji_pred(link@, name@));
            }
            if self.rows[i].message_link == *link && *self.rows[i].emoji.name() == *name {
                out.push(ReturnRoleId { role_id: self.rows[i].role_id });
                let ghost f = prefix.filter(with_emoji_pred(link@, name@));
                assert(row == self.rows@[i as int]@);
                assert(roles_of(f.push(row)) =~= roles_of(f).push(row.role_id));
                assert(out@.map_values(|x: ReturnRoleId| x.role_id) =~= roles_of(
                    prefix.filter(with_emoji_pred(link@, name@)).push(row),
                ));
            } else {
                assert(out@.map_values(|x: ReturnRoleId| x.role_id) =~= roles_of(
                    prefix.filter(with_emoji_pred(link@, name@)),
                ));
            }
            i = i + 1;
        }
        assert(self@.rows.subrange(0, self.rows.len() as int) =~= self@.rows);
        out
    }
}

} // verus!
