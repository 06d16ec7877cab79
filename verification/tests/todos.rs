use todos::errors::ApiError;
use todos::todos::{clear_completed, create_todo, delete_todo, edit_todo, get_todos, toggle_todo, TodoStore};

#[test]
fn test_get_todos() {
    let store = TodoStore::seed();

    let body = get_todos(&store);

    assert!(body.starts_with("<ul id=\"todo-list\">"));
    assert_eq!(body.contains("Learn React"), true);
    assert_eq!(body.contains("Learn Vim"), true);
}

#[test]
fn seeded_list_shows_one_remaining() {
    let store = TodoStore::seed();

    assert_eq!(store.len(), 2);
    assert_eq!(store.remaining(), 1);

    let body = get_todos(&store);
    assert!(body.contains("class=\"pending\">Learn React</li>"));
    assert!(body.contains("class=\"completed\">Learn Vim</li>"));
    assert!(body.contains("<strong>1</strong> item(s) left"));
}

#[test]
fn create_appends_new_todo() {
    let mut store = TodoStore::seed();

    let fragment = create_todo(&mut store, "Buy milk".to_string());

    assert!(fragment.contains("Buy milk"));
    assert_eq!(store.len(), 3);
    assert!(get_todos(&store).contains("Buy milk"));
    let new = store.get(2);
    assert_eq!(new.text, "Buy milk");
    assert_eq!(new.done, false);
}

#[test]
fn created_id_has_canonical_length() {
    let mut store = TodoStore::new();
    let t = store.create("x".to_string());
    assert_eq!(t.id.len(), 36);
    assert_eq!(store.get(0).id, t.id);
}

#[test]
fn toggle_is_its_own_inverse() {
    let mut store = TodoStore::new();
    let t = store.create("Buy milk".to_string());
    assert_eq!(t.done, false);

    let once = toggle_todo(&mut store, &t.id).expect("toggle of an existing todo succeeds");
    assert!(once.contains("class=\"completed\">Buy milk</li>"));
    assert_eq!(store.get(0).done, true);

    let twice = toggle_todo(&mut store, &t.id).expect("toggle of an existing todo succeeds");
    assert!(twice.contains("class=\"pending\">Buy milk</li>"));
    assert_eq!(store.get(0).done, false);
    assert_eq!(store.get(0).id, t.id);
    assert_eq!(store.get(0).text, t.text);
}

#[test]
fn delete_missing_id_is_not_found() {
    let mut store = TodoStore::seed();

    let r = delete_todo(&mut store, "no-such-id");

    let err = r.err().expect("deleting a nonexistent id fails");
    let (status, body) = err.into_response();
    assert_eq!(status, 404);
    assert_eq!(body, "Todo with id no-such-id not found");
    assert_eq!(store.len(), 2);
}

#[test]
fn delete_existing_id_returns_count_fragment() {
    let mut store = TodoStore::seed();
    let id = store.get(0).id.clone();

    let body = delete_todo(&mut store, &id).expect("deleting an existing id succeeds");

    assert_eq!(body, "<span id=\"todo-count\"><strong>0</strong> item(s) left</span>");
    assert_eq!(store.len(), 1);
    assert_eq!(store.get(0).text, "Learn Vim");
}

#[test]
fn edit_missing_id_is_not_found() {
    let mut store = TodoStore::seed();

    let r = edit_todo(&mut store, "no-such-id", "changed".to_string());

    let err = r.err().expect("editing a nonexistent id fails");
    assert_eq!(err.missing_id(), "no-such-id");
    let (status, _) = err.into_response();
    assert_eq!(status, 404);
    assert_eq!(store.len(), 2);
    assert_eq!(store.get(0).text, "Learn React");
    assert_eq!(store.get(0).done, false);
    assert_eq!(store.get(1).text, "Learn Vim");
    assert_eq!(store.get(1).done, true);
}

#[test]
fn edit_replaces_only_the_text() {
    let mut store = TodoStore::seed();
    let before_id = store.get(0).id.clone();
    let before_done = store.get(0).done;

    let body = edit_todo(&mut store, &before_id, "Learn Rust".to_string())
        .expect("editing an existing id succeeds");

    assert!(body.contains("Learn Rust"));
    assert_eq!(store.get(0).text, "Learn Rust");
    assert_eq!(store.get(0).id, before_id);
    assert_eq!(store.get(0).done, before_done);
    assert_eq!(store.get(1).text, "Learn Vim");
    assert_eq!(store.get(1).done, true);
}

#[test]
fn remaining_tracks_active_entries() {
    let mut store = TodoStore::seed();
    assert_eq!(store.remaining(), 1);

    create_todo(&mut store, "a".to_string());
    assert_eq!(store.remaining(), 2);

    let id = store.get(2).id.clone();
    toggle_todo(&mut store, &id).expect("toggle succeeds");
    assert_eq!(store.remaining(), 1);

    edit_todo(&mut store, &id, "b".to_string()).expect("edit succeeds");
    assert_eq!(store.remaining(), 1);

    delete_todo(&mut store, &id).expect("delete succeeds");
    assert_eq!(store.remaining(), 1);

    clear_completed(&mut store);
    assert_eq!(store.remaining(), 1);
    assert_eq!(store.len(), 1);
}

#[test]
fn clear_removes_exactly_the_completed_entries() {
    let mut store = TodoStore::new();
    store.create("a".to_string());
    let b = store.create("b".to_string());
    store.create("c".to_string());
    let d = store.create("d".to_string());
    toggle_todo(&mut store, &b.id).expect("toggle succeeds");
    toggle_todo(&mut store, &d.id).expect("toggle succeeds");

    let body = clear_completed(&mut store);

    assert_eq!(store.len(), 2);
    assert_eq!(store.get(0).text, "a");
    assert_eq!(store.get(1).text, "c");
    assert!(!body.contains(">b<"));
    assert!(!body.contains(">d<"));

    let again = clear_completed(&mut store);
    assert_eq!(store.len(), 2);
    assert_eq!(again, body);
}

#[test]
fn two_creates_get_distinct_ids() {
    let mut store = TodoStore::seed();

    let first = create_todo(&mut store, "first".to_string());
    let second = create_todo(&mut store, "second".to_string());

    assert!(first.contains("first"));
    assert!(second.contains("second"));
    assert_eq!(store.len(), 4);
    assert_ne!(store.get(2).id, store.get(3).id);

    let listed = get_todos(&store);
    assert!(listed.contains("first"));
    assert!(listed.contains("second"));
}

#[test]
fn not_found_error_names_the_id() {
    let err = ApiError::TodoNotFound("abc-123".to_string());
    let (status, body) = err.into_response();
    assert_eq!(status, 404);
    assert_eq!(body, "Todo with id abc-123 not found");
}
