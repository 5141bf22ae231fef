//! The CRUD service: request/response pairs over the resource store, the
//! greeting and echo texts, and the mapping from service failures to HTTP
//! status codes. One service value sits behind one exclusive-access guard;
//! each method is then one atomic operation.

use vstd::prelude::*;
use vstd::string::StringExecFns;
use crate::gateway::Stage;
use crate::ident::{location_text, todo_location};
use crate::store::{create_post, TodoStore};
use crate::todo::{apply_patch, Todo, TodoView, UpdateTodoRequest};

verus! {

/// A service-level failure, as surfaced to the transport layer.
#[derive(Clone, Copy, Debug, PartialEq, Eq, Structural)]
pub enum ServiceError {
    /// The requested identifier is absent from the store.
    NotFound,
    /// The external routing engine failed at the given stage.
    Upstream(Stage),
    /// An unrecoverable fault of the service's own infrastructure.
    Infrastructure,
}

/// The HTTP status a service failure maps to: an absent identifier is the
/// client's 404, an upstream or infrastructure failure an internal 500.
pub open spec fn spec_status(e: ServiceError) -> u16 {
    match e {
        ServiceError::NotFound => 404,
        ServiceError::Upstream(_) => 500,
        ServiceError::Infrastructure => 500,
    }
}

/// The HTTP status for a failure, exactly `spec_status`.
pub fn http_status(e: ServiceError) -> (s: u16)
    ensures
        s == spec_status(e),
{
    match e {
        ServiceError::NotFound => 404,
        ServiceError::Upstream(_) => 500,
        ServiceError::Infrastructure => 500,
    }
}

/// What a successful create reports: the new identifier and the location
/// path under which the record is reached.
pub struct CreatedTodo {
    pub id: u128,
    pub location: String,
}

/// Relies on uuid::Uuid::now_v7 and uuid::Uuid::as_u128: a fresh version-7
/// identifier drawn from the current time, as its 128-bit value. The value
/// depends on the clock and on randomness, so nothing is assumed of it; the
/// store makes the identifier it issues fresh whatever comes back.
#[verifier::external_body]
fn fresh_candidate_id() -> u128 {
    uuid::Uuid::now_v7().as_u128()
}

/// The CRUD service: the application name used by the greeting, and the
/// resource store.
pub struct TodoService {
    pub name: String,
    pub store: TodoStore,
}

impl TodoService {
    /// The application name, as the greeting shows it.
    pub open spec fn app_name(&self) -> Seq<char> {
        self.name@
    }

    pub open spec fn wf(&self) -> bool {
        self.store.wf()
    }

    /// A service over an empty store, greeting under the given name.
    pub fn new(name: String) -> (s: TodoService)
        ensures
            s.wf(),
            s.app_name() == name@,
            s.store@ == Map::<u128, TodoView>::empty(),
            s.store.issued_ids() == Set::<u128>::empty(),
            s.store.id_bound() == 0,
    {
        TodoService { name, store: TodoStore::new() }
    }

    /// The greeting text for the front door's root path.
    pub fn hello(&self) -> (r: String)
        ensures
            r@ == "Hello "@ + self.app_name() + "!"@,
    {
        let mut r = String::from_str("Hello ");
        r.append(self.name.as_str());
        r.append("!");
        proof {
            assert(r@ =~= "Hello "@ + self.app_name() + "!"@);
        }
        r
    }

    /// Creates a record with the given title and description, `done` false,
    /// under a fresh time-ordered identifier, and reports the identifier
    /// with its location path. The only failure is an exhausted identifier
    /// space, an unrecoverable infrastructure condition.
    pub fn create_todo(&mut self, title: String, description: String) -> (r: Result<
        CreatedTodo,
        ServiceError,
    >)
        requires
            old(self).wf(),
        ensures
            final(self).wf(),
            final(self).app_name() == old(self).app_name(),
            r is Ok <==> old(self).store.id_bound() < u128::MAX,
            match r {
                Ok(c) => {
                    &&& final(self).store@.contains_key(c.id)
                    &&& create_post(
                        old(self).store,
                        final(self).store,
                        final(self).store@[c.id],
                        title@,
                        description@,
                    )
                    &&& c.location@ == location_text(c.id)
                },
                Err(e) => {
                    &&& e == ServiceError::Infrastructure
                    &&& final(self).store == old(self).store
                },
            },
    {
        let candidate = fresh_candidate_id();
        match self.store.create(candidate, title, description) {
            Ok(t) => {
                proof {
                    assert(self.store@[t@.id] == t@);
                }
                let location = todo_location(t.id);
                Ok(CreatedTodo { id: t.id, location })
            },
            Err(_) => Err(ServiceError::Infrastructure),
        }
    }

    /// All current records as a sequence: one per identifier in the store,
    /// each equal to the stored record; an empty store yields an empty
    /// sequence. The order carries no meaning.
    pub fn list_todos(&self) -> (r: Vec<Todo>)
        requires
            self.wf(),
        ensures
            r@.len() == self.store@.dom().len(),
            forall|i: int|
                0 <= i < r@.len() ==> self.store@.contains_key((#[trigger] r@[i])@.id)
                    && self.store@[r@[i]@.id] == r@[i]@,
            forall|k: u128|
                #[trigger] self.store@.contains_key(k) ==> exists|i: int|
                    0 <= i < r@.len() && (#[trigger] r@[i])@.id == k,
            forall|i: int, j: int|
                0 <= i < j < r@.len() ==> (#[trigger] r@[i])@.id != (#[trigger] r@[j])@.id,
    {
        self.store.get_all()
    }

    /// The record under the identifier, or `NotFound` exactly when there is
    /// none.
    pub fn get_todo(&self, id: u128) -> (r: Result<Todo, ServiceError>)
        requires
            self.wf(),
        ensures
            r is Ok <==> self.store@.contains_key(id),
            match r {
                Ok(t) => self.store@.contains_key(id) && t@ == self.store@[id],
                Err(e) => e == ServiceError::NotFound,
            },
    {
        match self.store.get(id) {
            Ok(t) => Ok(t),
            Err(_) => Err(ServiceError::NotFound),
        }
    }

    /// Applies a partial update to the record under the identifier: only the
    /// fields present in the request change, and the post-update record is
    /// returned. `NotFound` exactly when the identifier is absent, and then
    /// nothing changes.
    pub fn patch_todo(&mut self, id: u128, patch: UpdateTodoRequest) -> (r: Result<
        Todo,
        ServiceError,
    >)
        requires
            old(self).wf(),
        ensures
            final(self).wf(),
            final(self).app_name() == old(self).app_name(),
            final(self).store.issued_ids() == old(self).store.issued_ids(),
            final(self).store.id_bound() == old(self).store.id_bound(),
            r is Ok <==> old(self).store@.contains_key(id),
            match r {
                Ok(t) => {
                    &&& t@ == apply_patch(old(self).store@[id], patch@)
                    &&& t@.id == id
                    &&& final(self).store@ == old(self).store@.insert(id, t@)
                },
                Err(e) => {
                    &&& e == ServiceError::NotFound
                    &&& final(self).store == old(self).store
                },
            },
    {
        match self.store.update(id, patch) {
            Ok(t) => Ok(t),
            Err(_) => Err(ServiceError::NotFound),
        }
    }

    /// Removes the record under the identifier permanently and returns it as
    /// it stood. `NotFound` exactly when the identifier is absent, and then
    /// nothing changes; the identifier is never issued again either way.
    pub fn delete_todo(&mut self, id: u128) -> (r: Result<Todo, ServiceError>)
        requires
            old(self).wf(),
        ensures
            final(self).wf(),
            final(self).app_name() == old(self).app_name(),
            final(self).store.issued_ids() == old(self).store.issued_ids(),
            final(self).store.id_bound() == old(self).store.id_bound(),
            r is Ok <==> old(self).store@.contains_key(id),
            match r {
                Ok(t) => {
                    &&& t@ == old(self).store@[id]
                    &&& final(self).store@ == old(self).store@.remove(id)
                },
                Err(e) => {
                    &&& e == ServiceError::NotFound
                    &&& final(self).store == old(self).store
                },
            },
    {
        match self.store.delete(id) {
            Ok(t) => Ok(t),
            Err(_) => Err(ServiceError::NotFound),
        }
    }
}

impl Default for TodoService {
    /// The service as deployed: the stock application name over an empty
    /// store.
    fn default() -> (s: TodoService)
        ensures
            s.wf(),
            s.app_name() == "Streamlet Routing Server"@,
            s.store@ == Map::<u128, TodoView>::empty(),
            s.store.issued_ids() == Set::<u128>::empty(),
            s.store.id_bound() == 0,
    {
        TodoService::new(String::from_str("Streamlet Routing Server"))
    }
}

/// The echo reply: the request body behind the echo prefix.
pub fn echo(body: &str) -> (r: String)
    ensures
        r@ == "Echo: "@ + body@,
{
    let mut r = String::from_str("Echo: ");
    r.append(body);
    proof {
        assert(r@ =~= "Echo: "@ + body@);
    }
    r
}

} // verus!
