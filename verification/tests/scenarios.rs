use todo_core::events::{submit_event, toggle_event};
use todo_core::render::render_plan;
use todo_core::state::AppState;

#[test]
fn empty_state_indicator_after_initial_render() {
    let s = AppState::new();
    let plan = render_plan(&s);
    assert!(plan.show_empty);
    assert_eq!(plan.items.len(), 0);
}

#[test]
fn render_mirrors_state_after_each_mutation() {
    let mut s = AppState::new();
    s.add_todo("one");
    s.add_todo("two");
    s.toggle_todo(1, true);
    let plan = render_plan(&s);
    assert!(!plan.show_empty);
    let todos = s.list_todos();
    assert_eq!(plan.items.len(), todos.len());
    for (item, todo) in plan.items.iter().zip(todos.iter()) {
        assert_eq!(item.id_attr.as_str(), todo.id.to_string().as_str());
        assert_eq!(item.checked, todo.completed);
        assert_eq!(item.label.as_str(), todo.text.as_str());
        assert_eq!(item.completed_marker, todo.completed);
    }
}

#[test]
fn submit_buy_milk_then_toggle_then_blank_submit() {
    let mut s = AppState::new();

    let changed = submit_event(&mut s, "Buy milk");
    assert!(changed);
    let plan = render_plan(&s);
    assert_eq!(plan.items.len(), 1);
    assert!(!plan.items[0].checked);
    assert_eq!(plan.items[0].label.as_str(), "Buy milk");
    assert!(!plan.items[0].completed_marker);
    assert!(!plan.show_empty);

    let attr = plan.items[0].id_attr.clone();
    let changed = toggle_event(&mut s, Some(attr.as_str()), true);
    assert!(changed);
    let plan = render_plan(&s);
    assert_eq!(plan.items.len(), 1);
    assert!(plan.items[0].checked);
    assert!(plan.items[0].completed_marker);

    let changed = submit_event(&mut s, "   ");
    assert!(!changed);
    assert_eq!(s.list_todos().len(), 1);
}

#[test]
fn three_items_get_ids_in_display_order_and_toggle_hits_only_b() {
    let mut s = AppState::new();
    submit_event(&mut s, "A");
    submit_event(&mut s, "B");
    submit_event(&mut s, "C");
    let plan = render_plan(&s);
    assert_eq!(plan.items.len(), 3);
    assert_eq!(plan.items[0].id_attr.as_str(), "0");
    assert_eq!(plan.items[1].id_attr.as_str(), "1");
    assert_eq!(plan.items[2].id_attr.as_str(), "2");

    let changed = toggle_event(&mut s, Some("1"), true);
    assert!(changed);
    let plan = render_plan(&s);
    assert!(!plan.items[0].checked);
    assert!(plan.items[1].checked);
    assert_eq!(plan.items[1].label.as_str(), "B");
    assert!(!plan.items[2].checked);
}

#[test]
fn toggle_event_ignores_missing_or_malformed_attribute() {
    let mut s = AppState::new();
    submit_event(&mut s, "A");
    assert!(!toggle_event(&mut s, None, true));
    assert!(!toggle_event(&mut s, Some(""), true));
    assert!(!toggle_event(&mut s, Some("not a number"), true));
    assert!(!s.list_todos()[0].completed);
    assert_eq!(s.list_todos().len(), 1);
}

#[test]
fn toggle_event_with_stale_id_rerenders_unchanged_list() {
    let mut s = AppState::new();
    submit_event(&mut s, "A");
    let changed = toggle_event(&mut s, Some("5"), true);
    assert!(changed);
    assert!(!s.list_todos()[0].completed);
    assert_eq!(s.list_todos().len(), 1);
}
