use streamlet::store::{StoreError, TodoStore};
use streamlet::todo::UpdateTodoRequest;

#[test]
fn create_assigns_distinct_monotonic_ids() {
    let mut s = TodoStore::new();
    let a = s
        .create(10, String::from("first"), String::from(""))
        .unwrap();
    let b = s
        .create(3, String::from("second"), String::from(""))
        .unwrap();
    let c = s
        .create(50, String::from("third"), String::from(""))
        .unwrap();
    assert_eq!(a.id, 10);
    assert_eq!(b.id, 11);
    assert_eq!(c.id, 50);
    assert!(a.id != b.id && b.id != c.id && a.id != c.id);
    assert!(a.id < b.id && b.id < c.id);
}

#[test]
fn create_read_round_trip() {
    let mut s = TodoStore::new();
    let t = s.create(1, String::from("T"), String::from("D")).unwrap();
    let got = s.get(t.id).unwrap();
    assert_eq!(got.id, t.id);
    assert_eq!(got.title, "T");
    assert_eq!(got.description, "D");
    assert!(!got.done);
}

#[test]
fn patch_done_leaves_title_and_description() {
    let mut s = TodoStore::new();
    let t = s
        .create(1, String::from("title"), String::from("desc"))
        .unwrap();
    let patch = UpdateTodoRequest { title: None, done: Some(true), description: None };
    let u = s.update(t.id, patch).unwrap();
    assert_eq!(u.title, "title");
    assert_eq!(u.description, "desc");
    assert!(u.done);
}

#[test]
fn patch_title_leaves_done_and_description() {
    let mut s = TodoStore::new();
    let t = s
        .create(1, String::from("title"), String::from("desc"))
        .unwrap();
    let patch = UpdateTodoRequest {
        title: Some(String::from("renamed")),
        done: None,
        description: None,
    };
    let u = s.update(t.id, patch).unwrap();
    assert_eq!(u.title, "renamed");
    assert_eq!(u.description, "desc");
    assert!(!u.done);
}

#[test]
fn delete_returns_record_and_is_terminal() {
    let mut s = TodoStore::new();
    let t = s.create(9, String::from("gone"), String::from("soon")).unwrap();
    let d = s.delete(t.id).unwrap();
    assert_eq!(d.id, t.id);
    assert_eq!(d.title, "gone");
    assert_eq!(d.description, "soon");
    assert_eq!(s.get(t.id).unwrap_err(), StoreError::NotFound);
    let patch = UpdateTodoRequest { title: None, done: Some(true), description: None };
    assert_eq!(s.update(t.id, patch).unwrap_err(), StoreError::NotFound);
    assert_eq!(s.delete(t.id).unwrap_err(), StoreError::NotFound);
}

#[test]
fn deleted_identifier_is_never_reissued() {
    let mut s = TodoStore::new();
    let t = s.create(7, String::from("a"), String::from("")).unwrap();
    s.delete(t.id).unwrap();
    let u = s.create(1, String::from("b"), String::from("")).unwrap();
    assert_eq!(u.id, 8);
    assert!(u.id != t.id);
}

#[test]
fn list_reflects_creates_and_deletes() {
    let mut s = TodoStore::new();
    let a = s.create(1, String::from("a"), String::from("")).unwrap();
    let b = s.create(2, String::from("b"), String::from("")).unwrap();
    let c = s.create(3, String::from("c"), String::from("")).unwrap();
    assert_eq!(s.get_all().len(), 3);
    s.delete(b.id).unwrap();
    let all = s.get_all();
    assert_eq!(all.len(), 2);
    let mut ids: Vec<u128> = all.iter().map(|t| t.id).collect();
    ids.sort();
    assert_eq!(ids, vec![a.id, c.id]);
}

#[test]
fn empty_store_lists_nothing() {
    let s = TodoStore::new();
    assert!(s.get_all().is_empty());
}

#[test]
fn identifier_space_exhaustion_is_reported() {
    let mut s = TodoStore::new();
    let t = s
        .create(u128::MAX, String::from("last"), String::from(""))
        .unwrap();
    assert_eq!(t.id, u128::MAX - 1);
    let r = s.create(0, String::from("none"), String::from(""));
    assert_eq!(r.unwrap_err(), StoreError::IdSpaceExhausted);
}
