use todo_app::ids::IdGenerator;
use todo_app::todo::{create_todo, decimal_string, render_block, update_todo, Todo};

#[test]
fn generator_counts_from_one() {
    let mut g = IdGenerator::new();
    assert_eq!(g.upcoming(), 1);
    assert_eq!(g.next_id(), 1);
    assert_eq!(g.next_id(), 2);
    assert_eq!(g.next_id(), 3);
    assert_eq!(g.upcoming(), 4);
}

#[test]
fn create_todo_takes_fresh_id() {
    let mut g = IdGenerator::new();
    let a = create_todo(&mut g, "first".to_string());
    let b = create_todo(&mut g, "second".to_string());
    assert_eq!((a.id, a.text.as_str(), a.completed), (1, "first", false));
    assert_eq!((b.id, b.text.as_str(), b.completed), (2, "second", false));
}

#[test]
fn update_todo_replaces_supplied_fields() {
    let t = Todo { id: 4, text: "old".to_string(), completed: true };
    let u = update_todo(&t, Some("new".to_string()), None);
    assert_eq!((u.id, u.text.as_str(), u.completed), (4, "new", true));
    let u = update_todo(&t, None, Some(false));
    assert_eq!((u.id, u.text.as_str(), u.completed), (4, "old", false));
    let u = update_todo(&t, None, None);
    assert_eq!((u.id, u.text.as_str(), u.completed), (4, "old", true));
}

#[test]
fn decimal_digits() {
    assert_eq!(decimal_string(0), "0");
    assert_eq!(decimal_string(7), "7");
    assert_eq!(decimal_string(10), "10");
    assert_eq!(decimal_string(1234567890), "1234567890");
    assert_eq!(decimal_string(u64::MAX), u64::MAX.to_string());
}

#[test]
fn render_block_layout() {
    assert_eq!(render_block(12, "Read", false), "\nID: 12\nTodo: Read\nIs Completed: false\n");
}

#[test]
fn display_trims_text() {
    let t = Todo { id: 3, text: "  Walk dog \n".to_string(), completed: true };
    assert_eq!(t.display(), "\nID: 3\nTodo: Walk dog\nIs Completed: true\n");
}

#[test]
fn clone_keeps_fields() {
    let t = Todo { id: 9, text: "x".to_string(), completed: true };
    let c = t.clone();
    assert_eq!((c.id, c.text.as_str(), c.completed), (9, "x", true));
}
