use streamlet::gateway::Stage;
use streamlet::service::{echo, http_status, ServiceError, TodoService};
use streamlet::todo::UpdateTodoRequest;

#[test]
fn end_to_end_scenario() {
    let mut svc = TodoService::default();
    let created = svc
        .create_todo(String::from("Buy milk"), String::from("2%"))
        .unwrap();
    let expected_location = format!("/todos/{}", uuid::Uuid::from_u128(created.id));
    assert_eq!(created.location, expected_location);

    let got = svc.get_todo(created.id).unwrap();
    assert_eq!(got.id, created.id);
    assert_eq!(got.title, "Buy milk");
    assert!(!got.done);
    assert_eq!(got.description, "2%");

    let patch = UpdateTodoRequest { title: None, done: Some(true), description: None };
    let patched = svc.patch_todo(created.id, patch).unwrap();
    assert!(patched.done);
    assert_eq!(patched.title, "Buy milk");
    assert_eq!(patched.description, "2%");

    let deleted = svc.delete_todo(created.id).unwrap();
    assert_eq!(deleted.id, created.id);
    assert_eq!(deleted.title, "Buy milk");
    assert!(deleted.done);
    assert_eq!(deleted.description, "2%");

    let err = svc.get_todo(created.id).unwrap_err();
    assert_eq!(err, ServiceError::NotFound);
    assert_eq!(http_status(err), 404);
}

#[test]
fn unknown_id_is_not_found() {
    let svc = TodoService::default();
    let err = svc.get_todo(0xdead_beef_dead_beef_dead_beef_dead_beef).unwrap_err();
    assert_eq!(err, ServiceError::NotFound);
    assert_eq!(http_status(err), 404);
}

#[test]
fn service_creates_distinct_ids() {
    let mut svc = TodoService::default();
    let a = svc.create_todo(String::from("a"), String::new()).unwrap();
    let b = svc.create_todo(String::from("b"), String::new()).unwrap();
    let c = svc.create_todo(String::from("c"), String::new()).unwrap();
    assert!(a.id != b.id && b.id != c.id && a.id != c.id);
}

#[test]
fn serialized_updates_lose_nothing() {
    let mut svc = TodoService::default();
    let first = svc
        .create_todo(String::from("orig"), String::from("orig"))
        .unwrap();
    let title_patch = UpdateTodoRequest {
        title: Some(String::from("A")),
        done: None,
        description: None,
    };
    let desc_patch = UpdateTodoRequest {
        title: None,
        done: None,
        description: Some(String::from("B")),
    };
    svc.patch_todo(first.id, title_patch).unwrap();
    let after = svc.patch_todo(first.id, desc_patch).unwrap();
    assert_eq!(after.title, "A");
    assert_eq!(after.description, "B");
    assert!(!after.done);

    let second = svc
        .create_todo(String::from("orig"), String::from("orig"))
        .unwrap();
    let desc_patch = UpdateTodoRequest {
        title: None,
        done: None,
        description: Some(String::from("B")),
    };
    let title_patch = UpdateTodoRequest {
        title: Some(String::from("A")),
        done: None,
        description: None,
    };
    svc.patch_todo(second.id, desc_patch).unwrap();
    let after = svc.patch_todo(second.id, title_patch).unwrap();
    assert_eq!(after.title, "A");
    assert_eq!(after.description, "B");
    assert!(!after.done);
}

#[test]
fn list_counts_survivors() {
    let mut svc = TodoService::default();
    let mut ids = Vec::new();
    for i in 0..5u32 {
        let c = svc
            .create_todo(format!("todo {}", i), String::new())
            .unwrap();
        ids.push(c.id);
    }
    svc.delete_todo(ids[1]).unwrap();
    svc.delete_todo(ids[3]).unwrap();
    let all = svc.list_todos();
    assert_eq!(all.len(), 3);
    let mut got: Vec<u128> = all.iter().map(|t| t.id).collect();
    got.sort();
    let mut want = vec![ids[0], ids[2], ids[4]];
    want.sort();
    assert_eq!(got, want);
}

#[test]
fn hello_greets_with_app_name() {
    let svc = TodoService::default();
    assert_eq!(svc.hello(), "Hello Streamlet Routing Server!");
    let named = TodoService::new(String::from("X"));
    assert_eq!(named.hello(), "Hello X!");
}

#[test]
fn echo_prefixes_body() {
    assert_eq!(echo("hello there"), "Echo: hello there");
    assert_eq!(echo(""), "Echo: ");
}

#[test]
fn failure_status_mapping() {
    assert_eq!(http_status(ServiceError::NotFound), 404);
    assert_eq!(http_status(ServiceError::Infrastructure), 500);
    assert_eq!(http_status(ServiceError::Upstream(Stage::ConfigLoad)), 500);
    assert_eq!(http_status(ServiceError::Upstream(Stage::EngineInit)), 500);
    assert_eq!(http_status(ServiceError::Upstream(Stage::RouteSubmission)), 500);
    assert_eq!(http_status(ServiceError::Upstream(Stage::MatrixSubmission)), 500);
}
