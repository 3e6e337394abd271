use todo_core::state::AppState;

#[test]
fn new_store_is_empty() {
    let s = AppState::new();
    assert_eq!(s.list_todos().len(), 0);
    assert_eq!(s.next_id(), 0);
}

#[test]
fn add_assigns_increasing_unique_ids_in_call_order() {
    let mut s = AppState::new();
    s.add_todo("A");
    s.add_todo("B");
    s.add_todo("C");
    let todos = s.list_todos();
    assert_eq!(todos.len(), 3);
    assert_eq!(todos[0].id, 0);
    assert_eq!(todos[1].id, 1);
    assert_eq!(todos[2].id, 2);
    assert_eq!(todos[0].text.as_str(), "A");
    assert_eq!(todos[1].text.as_str(), "B");
    assert_eq!(todos[2].text.as_str(), "C");
    assert!(!todos[0].completed);
    assert!(!todos[1].completed);
    assert!(!todos[2].completed);
    assert_eq!(s.next_id(), 3);
}

#[test]
fn add_stores_trimmed_text() {
    let mut s = AppState::new();
    s.add_todo("  Buy milk \t\n");
    let todos = s.list_todos();
    assert_eq!(todos.len(), 1);
    assert_eq!(todos[0].text.as_str(), "Buy milk");
}

#[test]
fn add_blank_changes_neither_length_nor_counter() {
    let mut s = AppState::new();
    s.add_todo("A");
    s.add_todo("");
    assert_eq!(s.list_todos().len(), 1);
    assert_eq!(s.next_id(), 1);
    s.add_todo("   ");
    assert_eq!(s.list_todos().len(), 1);
    assert_eq!(s.next_id(), 1);
    s.add_todo(" \t\r\n ");
    assert_eq!(s.list_todos().len(), 1);
    assert_eq!(s.next_id(), 1);
}

#[test]
fn toggle_sets_and_restores_completed() {
    let mut s = AppState::new();
    s.add_todo("A");
    assert!(!s.list_todos()[0].completed);
    s.toggle_todo(0, true);
    assert!(s.list_todos()[0].completed);
    s.toggle_todo(0, false);
    assert!(!s.list_todos()[0].completed);
}

#[test]
fn toggle_absent_id_is_a_no_op() {
    let mut s = AppState::new();
    s.add_todo("A");
    s.add_todo("B");
    s.toggle_todo(1, true);
    s.toggle_todo(7, true);
    let todos = s.list_todos();
    assert_eq!(todos.len(), 2);
    assert_eq!(todos[0].id, 0);
    assert!(!todos[0].completed);
    assert_eq!(todos[1].id, 1);
    assert!(todos[1].completed);
    assert_eq!(s.next_id(), 2);
}

#[test]
fn toggle_affects_only_the_matching_item() {
    let mut s = AppState::new();
    s.add_todo("A");
    s.add_todo("B");
    s.add_todo("C");
    s.toggle_todo(1, true);
    let todos = s.list_todos();
    assert!(!todos[0].completed);
    assert!(todos[1].completed);
    assert_eq!(todos[1].text.as_str(), "B");
    assert!(!todos[2].completed);
}
