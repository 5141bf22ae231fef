//! The task record: the CRUD domain entity, and the partial-update request
//! applied to it.

use vstd::prelude::*;

verus! {

/// A task record. The identifier is held as its 128-bit value; it is assigned
/// once at creation and never changes afterwards.
#[derive(Debug)]
pub struct Todo {
    pub id: u128,
    pub title: String,
    pub done: bool,
    pub description: String,
}

/// The mathematical model of a task record: the identifier and the text
/// fields as character sequences.
#[verifier::ext_equal]
pub ghost struct TodoView {
    pub id: u128,
    pub title: Seq<char>,
    pub done: bool,
    pub description: Seq<char>,
}

impl View for Todo {
    type V = TodoView;

    open spec fn view(&self) -> TodoView {
        TodoView {
            id: self.id,
            title: self.title@,
            done: self.done,
            description: self.description@,
        }
    }
}

impl Clone for Todo {
    fn clone(&self) -> (r: Self)
        ensures
            r@ == self@,
    {
        Todo {
            id: self.id,
            title: self.title.clone(),
            done: self.done,
            description: self.description.clone(),
        }
    }
}

impl Todo {
    /// A fresh record: `done` is false at creation.
    pub fn new(id: u128, title: String, description: String) -> (t: Todo)
        ensures
            t@ == (TodoView { id, title: title@, done: false, description: description@ }),
    {
        Todo { id, title, done: false, description }
    }

    /// Applies a partial update in place: only the fields present in the
    /// request change, and the identifier never does.
    pub fn apply(&mut self, p: UpdateTodoRequest)
        ensures
            final(self)@ == apply_patch(old(self)@, p@),
    {
        if let Some(title) = p.title {
            self.title = title;
        }
        if let Some(description) = p.description {
            self.description = description;
        }
        if let Some(done) = p.done {
            self.done = done;
        }
    }
}

/// A partial-update request: each field is independently absent or present;
/// only present fields are applied.
pub struct UpdateTodoRequest {
    pub title: Option<String>,
    pub done: Option<bool>,
    pub description: Option<String>,
}

/// The model of a partial-update request.
#[verifier::ext_equal]
pub ghost struct PatchView {
    pub title: Option<Seq<char>>,
    pub done: Option<bool>,
    pub description: Option<Seq<char>>,
}

impl View for UpdateTodoRequest {
    type V = PatchView;

    open spec fn view(&self) -> PatchView {
        PatchView {
            title: match self.title {
                Some(s) => Some(s@),
                None => None,
            },
            done: self.done,
            description: match self.description {
                Some(s) => Some(s@),
                None => None,
            },
        }
    }
}

/// What a partial update does to a record: a present field replaces the
/// stored one, an absent field leaves it untouched, and the identifier is
/// kept.
pub open spec fn apply_patch(t: TodoView, p: PatchView) -> TodoView {
    TodoView {
        id: t.id,
        title: match p.title {
            Some(s) => s,
            None => t.title,
        },
        done: match p.done {
            Some(d) => d,
            None => t.done,
        },
        description: match p.description {
            Some(s) => s,
            None => t.description,
        },
    }
}

/// Partial-update independence: a request that does not mention a field
/// leaves that field exactly as it was, whatever else it changes.
pub proof fn law_patch_independence(t: TodoView, p: PatchView)
    ensures
        p.title is None ==> apply_patch(t, p).title == t.title,
        p.done is None ==> apply_patch(t, p).done == t.done,
        p.description is None ==> apply_patch(t, p).description == t.description,
        apply_patch(t, p).id == t.id,
{
}

/// No lost update: two partial updates that touch disjoint fields commute,
/// and the record after both carries both changes, whichever was applied
/// first. Under the store's exclusive access each update is atomic, so two
/// concurrent updates are applied in one of these two orders.
pub proof fn law_disjoint_patches_commute(t: TodoView, p1: PatchView, p2: PatchView)
    requires
        p1.title is Some ==> p2.title is None,
        p1.done is Some ==> p2.done is None,
        p1.description is Some ==> p2.description is None,
        p2.title is Some ==> p1.title is None,
        p2.done is Some ==> p1.done is None,
        p2.description is Some ==> p1.description is None,
    ensures
        apply_patch(apply_patch(t, p1), p2) == apply_patch(apply_patch(t, p2), p1),
        p1.title is Some ==> apply_patch(apply_patch(t, p1), p2).title == p1.title->0,
        p2.title is Some ==> apply_patch(apply_patch(t, p1), p2).title == p2.title->0,
        p1.done is Some ==> apply_patch(apply_patch(t, p1), p2).done == p1.done->0,
        p2.done is Some ==> apply_patch(apply_patch(t, p1), p2).done == p2.done->0,
        p1.description is Some ==> apply_patch(apply_patch(t, p1), p2).description
            == p1.description->0,
        p2.description is Some ==> apply_patch(apply_patch(t, p1), p2).description
            == p2.description->0,
{
}

} // verus!
