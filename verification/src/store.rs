//! The resource store: the sole owner of the task records, a mapping from
//! identifier to record with a lifetime-unique identifier policy.
//!
//! The store is meant to sit behind one exclusive-access guard (the caller
//! wraps it in a mutex); each method below is then one atomic operation, and
//! the operations are linearizable in the order the guard grants access.

use vstd::prelude::*;
use crate::todo::{apply_patch, Todo, TodoView, UpdateTodoRequest};

verus! {

/// Why a store operation failed.
#[derive(Clone, Copy, Debug, PartialEq, Eq, Structural)]
pub enum StoreError {
    /// The requested identifier is absent from the store.
    NotFound,
    /// No identifier above every one ever issued is left; an unrecoverable
    /// infrastructure condition.
    IdSpaceExhausted,
}

/// No two positions of the sequence hold records with the same identifier.
spec fn ids_distinct(s: Seq<Todo>) -> bool {
    forall|i: int, j: int|
        0 <= i < j < s.len() ==> (#[trigger] s[i])@.id != (#[trigger] s[j])@.id
}

/// Some position of the sequence holds a record with identifier `k`.
spec fn has_id(s: Seq<Todo>, k: u128) -> bool {
    exists|i: int| 0 <= i < s.len() && (#[trigger] s[i])@.id == k
}

/// The mapping from identifier to record that a sequence of records denotes.
spec fn map_of(s: Seq<Todo>) -> Map<u128, TodoView>
    decreases s.len(),
{
    if s.len() == 0 {
        Map::empty()
    } else {
        map_of(s.drop_last()).insert(s.last()@.id, s.last()@)
    }
}

proof fn lemma_ids_distinct_drop_last(s: Seq<Todo>)
    requires
        ids_distinct(s),
        s.len() > 0,
    ensures
        ids_distinct(s.drop_last()),
{
    let dl = s.drop_last();
    assert forall|i: int, j: int|
        0 <= i < j < dl.len() implies (#[trigger] dl[i])@.id != (#[trigger] dl[j])@.id by {
        assert(dl[i] == s[i]);
        assert(dl[j] == s[j]);
    }
}

proof fn lemma_map_of_dom(s: Seq<Todo>)
    ensures
        forall|k: u128| #[trigger] map_of(s).contains_key(k) <==> has_id(s, k),
    decreases s.len(),
{
    if s.len() > 0 {
        let dl = s.drop_last();
        lemma_map_of_dom(dl);
        assert forall|k: u128| #[trigger] map_of(s).contains_key(k) implies has_id(s, k) by {
            if k == s.last()@.id {
                assert((#[trigger] s[s.len() - 1])@.id == k);
            } else {
                assert(map_of(dl).contains_key(k));
                assert(has_id(dl, k));
                let i = choose|i: int| 0 <= i < dl.len() && (#[trigger] dl[i])@.id == k;
                assert(dl[i] == s[i]);
                assert((#[trigger] s[i])@.id == k);
            }
        }
        assert forall|k: u128| has_id(s, k) implies #[trigger] map_of(s).contains_key(k) by {
            let i = choose|i: int| 0 <= i < s.len() && (#[trigger] s[i])@.id == k;
            if i < s.len() - 1 {
                assert(dl[i] == s[i]);
                assert((#[trigger] dl[i])@.id == k);
                assert(has_id(dl, k));
                assert(map_of(dl).contains_key(k));
            } else {
                assert(k == s.last()@.id);
            }
        }
    }
}

proof fn lemma_map_of_get(s: Seq<Todo>, i: int)
    requires
        ids_distinct(s),
        0 <= i < s.len(),
    ensures
        map_of(s).contains_key(s[i]@.id),
        map_of(s)[s[i]@.id] == s[i]@,
    decreases s.len(),
{
    let dl = s.drop_last();
    if i == s.len() - 1 {
    } else {
        lemma_ids_distinct_drop_last(s);
        assert(dl[i] == s[i]);
        lemma_map_of_get(dl, i);
        assert(s[i]@.id != s.last()@.id);
    }
}

proof fn lemma_map_of_len(s: Seq<Todo>)
    requires
        ids_distinct(s),
    ensures
        map_of(s).dom().finite(),
        map_of(s).dom().len() == s.len(),
    decreases s.len(),
{
    if s.len() == 0 {
        assert(map_of(s).dom() =~= Set::<u128>::empty());
    } else {
        let dl = s.drop_last();
        lemma_ids_distinct_drop_last(s);
        lemma_map_of_len(dl);
        lemma_map_of_dom(dl);
        let k = s.last()@.id;
        if map_of(dl).contains_key(k) {
            let i = choose|i: int| 0 <= i < dl.len() && (#[trigger] dl[i])@.id == k;
            assert((#[trigger] s[i])@.id == k);
            assert(s[s.len() - 1]@.id == k);
            assert(false);
        }
        assert(map_of(s).dom() =~= map_of(dl).dom().insert(k));
        vstd::set::axiom_set_insert_len(map_of(dl).dom(), k);
    }
}

proof fn lemma_map_of_push(s: Seq<Todo>, t: Todo)
    ensures
        map_of(s.push(t)) == map_of(s).insert(t@.id, t@),
{
    assert(s.push(t).drop_last() =~= s);
    assert(s.push(t).last() == t);
}

proof fn lemma_map_of_update(s: Seq<Todo>, i: int, t: Todo)
    requires
        ids_distinct(s),
        0 <= i < s.len(),
        t@.id == s[i]@.id,
    ensures
        map_of(s.update(i, t)) == map_of(s).insert(t@.id, t@),
    decreases s.len(),
{
    let dl = s.drop_last();
    let u = s.update(i, t);
    if i == s.len() - 1 {
        assert(u.drop_last() =~= dl);
        assert(u.last() == t);
        assert(map_of(dl).insert(s.last()@.id, s.last()@).insert(t@.id, t@)
            =~= map_of(dl).insert(t@.id, t@));
    } else {
        lemma_ids_distinct_drop_last(s);
        assert(dl[i] == s[i]);
        lemma_map_of_update(dl, i, t);
        assert(u.drop_last() =~= dl.update(i, t));
        assert(u.last() == s.last());
        assert(s[i]@.id != s.last()@.id);
        assert(map_of(dl).insert(t@.id, t@).insert(s.last()@.id, s.last()@)
            =~= map_of(dl).insert(s.last()@.id, s.last()@).insert(t@.id, t@));
    }
}

proof fn lemma_map_of_remove(s: Seq<Todo>, i: int)
    requires
        ids_distinct(s),
        0 <= i < s.len(),
    ensures
        map_of(s.remove(i)) == map_of(s).remove(s[i]@.id),
    decreases s.len(),
{
    let dl = s.drop_last();
    let r = s.remove(i);
    lemma_ids_distinct_drop_last(s);
    if i == s.len() - 1 {
        assert(r =~= dl);
        lemma_map_of_dom(dl);
        if map_of(dl).contains_key(s.last()@.id) {
            let j = choose|j: int| 0 <= j < dl.len() && (#[trigger] dl[j])@.id == s.last()@.id;
            assert((#[trigger] s[j])@.id == s.last()@.id);
            assert(s[s.len() - 1]@.id == s.last()@.id);
            assert(false);
        }
        assert(map_of(dl).insert(s.last()@.id, s.last()@).remove(s.last()@.id)
            =~= map_of(dl));
    } else {
        assert(dl[i] == s[i]);
        lemma_map_of_remove(dl, i);
        assert(r.drop_last() =~= dl.remove(i));
        assert(r.last() == s.last());
        assert(s[i]@.id != s.last()@.id);
        assert(map_of(dl).remove(s[i]@.id).insert(s.last()@.id, s.last()@)
            =~= map_of(dl).insert(s.last()@.id, s.last()@).remove(s[i]@.id));
    }
}

/// The authoritative set of task records. The `issued` set tracks every
/// identifier the store has ever handed out, so that an identifier is never
/// reused, not even after the record under it was deleted; `next_floor` is
/// strictly above every issued identifier.
pub struct TodoStore {
    records: Vec<Todo>,
    next_floor: u128,
    issued: Ghost<Set<u128>>,
}

impl TodoStore {
    /// The store as a mapping from identifier to record.
    pub closed spec fn view(&self) -> Map<u128, TodoView> {
        map_of(self.records@)
    }

    /// Every identifier ever issued, kept even after deletion.
    pub closed spec fn issued_ids(&self) -> Set<u128> {
        self.issued@
    }

    /// An exclusive upper bound on every identifier issued so far. The store
    /// can issue a fresh identifier exactly while this bound is below
    /// `u128::MAX`.
    pub closed spec fn id_bound(&self) -> u128 {
        self.next_floor
    }

    pub closed spec fn wf(&self) -> bool {
        &&& ids_distinct(self.records@)
        &&& (forall|i: int|
            0 <= i < self.records@.len() ==> self.issued@.contains(
                (#[trigger] self.records@[i])@.id,
            ))
        &&& (forall|id: u128| #[trigger] self.issued@.contains(id) ==> id < self.next_floor)
    }

    /// A well-formed store holds finitely many records, every one of them
    /// under an identifier that was issued.
    pub proof fn lemma_wf_view(&self)
        requires
            self.wf(),
        ensures
            self@.dom().finite(),
            forall|k: u128| #[trigger] self@.contains_key(k) ==> self.issued_ids().contains(k),
            forall|k: u128| #[trigger] self@.contains_key(k) ==> k < self.id_bound(),
    {
        lemma_map_of_len(self.records@);
        lemma_map_of_dom(self.records@);
        assert forall|k: u128| #[trigger] self@.contains_key(k) implies self.issued_ids().contains(
            k,
        ) by {
            let i = choose|i: int|
                0 <= i < self.records@.len() && (#[trigger] self.records@[i])@.id == k;
            assert(self.issued@.contains(self.records@[i]@.id));
        }
    }

    /// An empty store; no identifier has been issued yet.
    pub fn new() -> (s: TodoStore)
        ensures
            s.wf(),
            s@ == Map::<u128, TodoView>::empty(),
            s.issued_ids() == Set::<u128>::empty(),
            s.id_bound() == 0,
    {
        TodoStore { records: Vec::new(), next_floor: 0, issued: Ghost(Set::empty()) }
    }
}

/// What a successful create did: the new record carries the given fields with
/// `done` false, its identifier was never issued before (so never held by any
/// record, live or deleted) and is above every earlier one, and the store
/// gained exactly that record.
pub open spec fn create_post(
    pre: TodoStore,
    post: TodoStore,
    t: TodoView,
    title: Seq<char>,
    description: Seq<char>,
) -> bool {
    &&& t.title == title
    &&& t.description == description
    &&& !t.done
    &&& !pre.issued_ids().contains(t.id)
    &&& !pre@.contains_key(t.id)
    &&& (forall|j: u128| pre.issued_ids().contains(j) ==> j < t.id)
    &&& post@ == pre@.insert(t.id, t)
    &&& post.issued_ids() == pre.issued_ids().insert(t.id)
}

impl TodoStore {
    /// The identifier create issues for a candidate: the candidate itself
    /// (capped below `u128::MAX`) when it clears every identifier issued so
    /// far, else the lowest value that does.
    pub open spec fn chosen_id(&self, candidate: u128) -> u128 {
        let c: u128 = if candidate < u128::MAX {
            candidate
        } else {
            (u128::MAX - 1) as u128
        };
        if c >= self.id_bound() {
            c
        } else {
            self.id_bound()
        }
    }

    /// Adds a fresh record with the given fields, `done` false, under an
    /// identifier never issued before. The caller passes a time-ordered
    /// candidate identifier; the store keeps it whenever it is fresh, so the
    /// issued identifiers stay ordered by creation time. Fails only when the
    /// identifier space is exhausted.
    pub fn create(&mut self, candidate: u128, title: String, description: String) -> (r: Result<
        Todo,
        StoreError,
    >)
        requires
            old(self).wf(),
        ensures
            final(self).wf(),
            r is Ok <==> old(self).id_bound() < u128::MAX,
            match r {
                Ok(t) => {
                    &&& t@.id == old(self).chosen_id(candidate)
                    &&& create_post(*old(self), *final(self), t@, title@, description@)
                    &&& final(self).id_bound() == t@.id + 1
                },
                Err(e) => {
                    &&& e == StoreError::IdSpaceExhausted
                    &&& *final(self) == *old(self)
                },
            },
    {
        let c: u128 = if candidate < u128::MAX {
            candidate
        } else {
            u128::MAX - 1
        };
        let id: u128 = if c >= self.next_floor {
            c
        } else {
            self.next_floor
        };
        if id == u128::MAX {
            return Err(StoreError::IdSpaceExhausted);
        }
        proof {
            self.lemma_wf_view();
        }
        self.next_floor = id + 1;
        let t = Todo::new(id, title, description);
        let out = t.clone();
        proof {
            self.issued@ = self.issued@.insert(id);
            lemma_map_of_push(self.records@, t);
        }
        self.records.push(t);
        proof {
            assert forall|i: int, j: int|
                0 <= i < j < self.records@.len() implies (#[trigger] self.records@[i])@.id != (
            #[trigger] self.records@[j])@.id by {
                if j == self.records@.len() - 1 {
                    assert(old(self).issued@.contains(old(self).records@[i]@.id));
                }
            }
        }
        Ok(out)
    }

    /// Looks the identifier up and returns a copy of the record under it, or
    /// `NotFound` exactly when no record is under it.
    pub fn get(&self, id: u128) -> (r: Result<Todo, StoreError>)
        requires
            self.wf(),
        ensures
            r is Ok <==> self@.contains_key(id),
            match r {
                Ok(t) => self@.contains_key(id) && t@ == self@[id],
                Err(e) => e == StoreError::NotFound,
            },
    {
        let n = self.records.len();
        let mut i: usize = 0;
        while i < n
            invariant
                self.wf(),
                n == self.records@.len(),
                i <= n,
                forall|j: int| 0 <= j < i ==> (#[trigger] self.records@[j])@.id != id,
            decreases n - i,
        {
            if self.records[i].id == id {
                let t = self.records[i].clone();
                proof {
                    lemma_map_of_get(self.records@, i as int);
                }
                return Ok(t);
            }
            i += 1;
        }
        proof {
            self.lemma_absent(id);
        }
        Err(StoreError::NotFound)
    }

    /// When no position holds the identifier, the view has no key for it.
    proof fn lemma_absent(&self, id: u128)
        requires
            forall|j: int| 0 <= j < self.records@.len() ==> (#[trigger] self.records@[j])@.id
                != id,
        ensures
            !self@.contains_key(id),
    {
        lemma_map_of_dom(self.records@);
        if self@.contains_key(id) {
            assert(has_id(self.records@, id));
            let j = choose|j: int|
                0 <= j < self.records@.len() && (#[trigger] self.records@[j])@.id == id;
            assert(false);
        }
    }

    /// A snapshot of every current record, one per identifier in the store,
    /// each equal to the stored record. The order carries no meaning.
    pub fn get_all(&self) -> (r: Vec<Todo>)
        requires
            self.wf(),
        ensures
            r@.len() == self@.dom().len(),
            forall|i: int|
                0 <= i < r@.len() ==> self@.contains_key((#[trigger] r@[i])@.id) && self@[r@[i]@.id]
                    == r@[i]@,
            forall|k: u128|
                #[trigger] self@.contains_key(k) ==> exists|i: int|
                    0 <= i < r@.len() && (#[trigger] r@[i])@.id == k,
            forall|i: int, j: int|
                0 <= i < j < r@.len() ==> (#[trigger] r@[i])@.id != (#[trigger] r@[j])@.id,
    {
        let n = self.records.len();
        let mut out: Vec<Todo> = Vec::new();
        let mut i: usize = 0;
        while i < n
            invariant
                self.wf(),
                n == self.records@.len(),
                i <= n,
                out@.len() == i,
                forall|j: int| 0 <= j < i ==> (#[trigger] out@[j])@ == self.records@[j]@,
            decreases n - i,
        {
            out.push(self.records[i].clone());
            i += 1;
        }
        proof {
            lemma_map_of_len(self.records@);
            lemma_map_of_dom(self.records@);
            assert forall|i: int|
                0 <= i < out@.len() implies self@.contains_key((#[trigger] out@[i])@.id)
                && self@[out@[i]@.id] == out@[i]@ by {
                lemma_map_of_get(self.records@, i);
            }
            assert forall|k: u128| #[trigger] self@.contains_key(k) implies exists|i: int|
                0 <= i < out@.len() && (#[trigger] out@[i])@.id == k by {
                assert(has_id(self.records@, k));
                let j = choose|j: int|
                    0 <= j < self.records@.len() && (#[trigger] self.records@[j])@.id == k;
                assert((#[trigger] out@[j])@.id == k);
            }
        }
        out
    }

    /// Applies a partial update to the record under the identifier: only the
    /// fields present in the request change, the identifier stays, and the
    /// updated copy is returned. `NotFound` exactly when the identifier is
    /// absent, and then nothing changes.
    pub fn update(&mut self, id: u128, patch: UpdateTodoRequest) -> (r: Result<Todo, StoreError>)
        requires
            old(self).wf(),
        ensures
            final(self).wf(),
            r is Ok <==> old(self)@.contains_key(id),
            final(self).issued_ids() == old(self).issued_ids(),
            final(self).id_bound() == old(self).id_bound(),
            match r {
                Ok(t) => {
                    &&& t@ == apply_patch(old(self)@[id], patch@)
                    &&& t@.id == id
                    &&& final(self)@ == old(self)@.insert(id, t@)
                },
                Err(e) => {
                    &&& e == StoreError::NotFound
                    &&& *final(self) == *old(self)
                },
            },
    {
        let ghost pre = *self;
        let n = self.records.len();
        let mut i: usize = 0;
        while i < n
            invariant
                self.wf(),
                *self == pre,
                pre == *old(self),
                n == self.records@.len(),
                i <= n,
                forall|j: int| 0 <= j < i ==> (#[trigger] self.records@[j])@.id != id,
            decreases n - i,
        {
            if self.records[i].id == id {
                proof {
                    lemma_map_of_get(self.records@, i as int);
                }
                let mut t = self.records.remove(i);
                proof {
                    pre.records@.remove_ensures(i as int);
                }
                t.apply(patch);
                let out = t.clone();
                let ghost t_snap = t;
                self.records.insert(i, t);
                proof {
                    assert(self.records@ =~= pre.records@.update(i as int, t_snap));
                    lemma_map_of_update(pre.records@, i as int, t_snap);
                    let s = self.records@;
                    assert forall|a: int, b: int|
                        0 <= a < b < s.len() implies (#[trigger] s[a])@.id != (
                    #[trigger] s[b])@.id by {
                        assert(pre.records@[a]@.id != pre.records@[b]@.id);
                    }
                    assert forall|a: int|
                        0 <= a < s.len() implies self.issued@.contains(
                            (#[trigger] s[a])@.id,
                        ) by {
                        assert(pre.issued@.contains(pre.records@[a]@.id));
                    }
                }
                return Ok(out);
            }
            i += 1;
        }
        proof {
            self.lemma_absent(id);
        }
        Err(StoreError::NotFound)
    }

    /// Removes the record under the identifier permanently and returns it;
    /// the identifier stays issued, so it is never handed out again.
    /// `NotFound` exactly when the identifier is absent, and then nothing
    /// changes.
    pub fn delete(&mut self, id: u128) -> (r: Result<Todo, StoreError>)
        requires
            old(self).wf(),
        ensures
            final(self).wf(),
            r is Ok <==> old(self)@.contains_key(id),
            final(self).issued_ids() == old(self).issued_ids(),
            final(self).id_bound() == old(self).id_bound(),
            match r {
                Ok(t) => {
                    &&& t@ == old(self)@[id]
                    &&& final(self)@ == old(self)@.remove(id)
                },
                Err(e) => {
                    &&& e == StoreError::NotFound
                    &&& *final(self) == *old(self)
                },
            },
    {
        let ghost pre = *self;
        let n = self.records.len();
        let mut i: usize = 0;
        while i < n
            invariant
                self.wf(),
                *self == pre,
                pre == *old(self),
                n == self.records@.len(),
                i <= n,
                forall|j: int| 0 <= j < i ==> (#[trigger] self.records@[j])@.id != id,
            decreases n - i,
        {
            if self.records[i].id == id {
                proof {
                    lemma_map_of_get(self.records@, i as int);
                    lemma_map_of_remove(self.records@, i as int);
                }
                let t = self.records.remove(i);
                proof {
                    pre.records@.remove_ensures(i as int);
                    let s = self.records@;
                    assert forall|a: int, b: int|
                        0 <= a < b < s.len() implies (#[trigger] s[a])@.id != (
                    #[trigger] s[b])@.id by {
                        let a0: int = if a < i { a } else { a + 1 };
                        let b0: int = if b < i { b } else { b + 1 };
                        assert(s[a] == pre.records@[a0]);
                        assert(s[b] == pre.records@[b0]);
                        assert(pre.records@[a0]@.id != pre.records@[b0]@.id);
                    }
                    assert forall|a: int|
                        0 <= a < s.len() implies self.issued@.contains(
                            (#[trigger] s[a])@.id,
                        ) by {
                        let a0: int = if a < i { a } else { a + 1 };
                        assert(s[a] == pre.records@[a0]);
                        assert(pre.issued@.contains(pre.records@[a0]@.id));
                    }
                }
                return Ok(t);
            }
            i += 1;
        }
        proof {
            self.lemma_absent(id);
        }
        Err(StoreError::NotFound)
    }
}

/// Identifier uniqueness across the store's lifetime: two creates never
/// return the same identifier, however many operations ran between them.
/// The set of issued identifiers never shrinks (every operation keeps or
/// grows it), so the second create's precondition set covers the first
/// create's identifier, and a create's identifier is outside that set.
pub proof fn law_identifier_uniqueness(
    pre1: TodoStore,
    post1: TodoStore,
    t1: TodoView,
    title1: Seq<char>,
    desc1: Seq<char>,
    pre2: TodoStore,
    post2: TodoStore,
    t2: TodoView,
    title2: Seq<char>,
    desc2: Seq<char>,
)
    requires
        create_post(pre1, post1, t1, title1, desc1),
        post1.issued_ids().subset_of(pre2.issued_ids()),
        create_post(pre2, post2, t2, title2, desc2),
    ensures
        t1.id != t2.id,
{
    assert(post1.issued_ids().contains(t1.id));
}

/// Create then read, round trip: right after a create the store holds, under
/// the identifier it returned, exactly the record it handed back — the given
/// title and description, with `done` false.
pub proof fn law_create_read_round_trip(
    pre: TodoStore,
    post: TodoStore,
    t: TodoView,
    title: Seq<char>,
    description: Seq<char>,
)
    requires
        create_post(pre, post, t, title, description),
    ensures
        post@.contains_key(t.id),
        post@[t.id] == t,
        post@[t.id].title == title,
        post@[t.id].description == description,
        !post@[t.id].done,
{
}

/// Delete removes and is terminal: after a delete the identifier is absent
/// from the store — so get, update and delete all report `NotFound` for it —
/// and no later create brings it back, because the identifier stays issued
/// and a create's identifier is never one that was issued before.
pub proof fn law_delete_terminal(
    pre: TodoStore,
    post: TodoStore,
    id: u128,
    cpre: TodoStore,
    cpost: TodoStore,
    t: TodoView,
    title: Seq<char>,
    description: Seq<char>,
)
    requires
        post@ == pre@.remove(id),
        post.issued_ids() == pre.issued_ids(),
        pre.issued_ids().contains(id),
        post.issued_ids().subset_of(cpre.issued_ids()),
        create_post(cpre, cpost, t, title, description),
    ensures
        !post@.contains_key(id),
        t.id != id,
{
    assert(cpre.issued_ids().contains(id));
}

/// A create grows the store by exactly one record.
pub proof fn law_create_count(
    pre: TodoStore,
    post: TodoStore,
    t: TodoView,
    title: Seq<char>,
    description: Seq<char>,
)
    requires
        pre@.dom().finite(),
        create_post(pre, post, t, title, description),
    ensures
        post@.dom().finite(),
        post@.dom().len() == pre@.dom().len() + 1,
{
    assert(post@.dom() =~= pre@.dom().insert(t.id));
    vstd::set::axiom_set_insert_len(pre@.dom(), t.id);
}

/// A delete of a present identifier shrinks the store by exactly one record;
/// with `law_create_count` this is what the listing reflects: after N creates
/// and M deletes of present identifiers the store holds N - M records, and
/// `get_all` returns exactly those.
pub proof fn law_delete_count(pre: TodoStore, post: TodoStore, id: u128)
    requires
        pre@.dom().finite(),
        pre@.contains_key(id),
        post@ == pre@.remove(id),
    ensures
        post@.dom().finite(),
        post@.dom().len() == pre@.dom().len() - 1,
{
    assert(post@.dom() =~= pre@.dom().remove(id));
    vstd::set::axiom_set_remove_len(pre@.dom(), id);
}

} // verus!

