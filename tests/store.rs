use todo_app::store::{StoreError, TodoStore};

fn ids(store: &TodoStore) -> Vec<u64> {
    store.list().iter().map(|t| t.id).collect()
}

#[test]
fn end_to_end_session() {
    let mut store = TodoStore::new();
    let a = store.create("Buy milk".to_string());
    assert_eq!(a.id, 1);
    assert!(!a.completed);
    assert_eq!(a.text, "Buy milk");
    let b = store.create("Walk dog".to_string());
    assert_eq!(b.id, 2);
    let u = store
        .update(1, Some("Buy oat milk".to_string()), todo_app::input::parse_completed_flag("y"))
        .unwrap();
    assert_eq!(u.id, 1);
    assert_eq!(u.text, "Buy oat milk");
    assert!(u.completed);
    assert_eq!(store.delete(2), Ok(()));
    assert_eq!(ids(&store), vec![1]);
    let blocks: Vec<String> = store.list().iter().map(|t| t.display()).collect();
    assert_eq!(blocks, vec!["\nID: 1\nTodo: Buy oat milk\nIs Completed: true\n".to_string()]);
}

#[test]
fn create_is_never_completed() {
    let mut store = TodoStore::new();
    let a = store.create(String::new());
    assert!(!a.completed);
    assert_eq!(a.text, "");
    let b = store.create("  spaced  ".to_string());
    assert!(!b.completed);
    assert_eq!(b.text, "  spaced  ");
}

#[test]
fn create_ids_strictly_increase() {
    let mut store = TodoStore::new();
    let mut last = 0u64;
    for k in 0..20 {
        let t = store.create(format!("task {}", k));
        assert!(t.id > last);
        last = t.id;
        if k % 3 == 0 {
            assert_eq!(store.delete(t.id), Ok(()));
        }
    }
    assert_eq!(store.next_id(), 21);
}

#[test]
fn deleted_id_is_not_found_and_not_reused() {
    let mut store = TodoStore::new();
    let a = store.create("x".to_string());
    assert_eq!(store.delete(a.id), Ok(()));
    assert_eq!(store.find_index_by_id(a.id), None);
    let b = store.create("y".to_string());
    assert_ne!(b.id, a.id);
    assert_eq!(b.id, 2);
}

#[test]
fn update_missing_id_changes_nothing() {
    let mut store = TodoStore::new();
    store.create("one".to_string());
    let r = store.update(7, Some("other".to_string()), Some(true));
    assert!(matches!(r, Err(StoreError::NotFound(7))));
    assert_eq!(store.len(), 1);
    assert_eq!(store.list()[0].text, "one");
    assert!(!store.list()[0].completed);
}

#[test]
fn update_flag_only() {
    let mut store = TodoStore::new();
    store.create("keep me".to_string());
    let flag = todo_app::input::parse_completed_flag("y");
    let u = store.update(1, None, flag).unwrap();
    assert_eq!(u.text, "keep me");
    assert!(u.completed);
    let flag = todo_app::input::parse_completed_flag("x");
    assert_eq!(flag, None);
    let u = store.update(1, None, flag).unwrap();
    assert!(u.completed);
    assert_eq!(u.text, "keep me");
    let u = store.update(1, None, todo_app::input::parse_completed_flag("n")).unwrap();
    assert!(!u.completed);
}

#[test]
fn delete_middle_keeps_order() {
    let mut store = TodoStore::new();
    store.create("a".to_string());
    store.create("b".to_string());
    store.create("c".to_string());
    assert_eq!(store.delete(2), Ok(()));
    assert_eq!(ids(&store), vec![1, 3]);
    let texts: Vec<&str> = store.list().iter().map(|t| t.text.as_str()).collect();
    assert_eq!(texts, vec!["a", "c"]);
}

#[test]
fn delete_missing_id_reports_not_found() {
    let mut store = TodoStore::new();
    store.create("a".to_string());
    assert_eq!(store.delete(5), Err(StoreError::NotFound(5)));
    assert_eq!(ids(&store), vec![1]);
}

#[test]
fn find_index_by_id_positions() {
    let mut store = TodoStore::new();
    assert_eq!(store.find_index_by_id(1), None);
    store.create("a".to_string());
    store.create("b".to_string());
    store.create("c".to_string());
    assert_eq!(store.find_index_by_id(1), Some(0));
    assert_eq!(store.find_index_by_id(3), Some(2));
    store.delete(1).unwrap();
    assert_eq!(store.find_index_by_id(3), Some(1));
    assert_eq!(store.find_index_by_id(1), None);
}

#[test]
fn empty_store_lists_nothing() {
    let store = TodoStore::new();
    assert!(store.list().is_empty());
    assert_eq!(store.len(), 0);
    assert_eq!(store.next_id(), 1);
}
