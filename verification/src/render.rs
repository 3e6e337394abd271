//! The renderer's pure half: from the current state it computes exactly what
//! the visible list must show — one item per entry, in display order, and
//! whether the empty-state indicator is visible. Applying the plan to the
//! document is left to the unverified shell around the library.

use vstd::prelude::*;
use crate::ids::{decimal_of, format_id};
use crate::state::{views_of, AppState};

verus! {

/// What one displayed list item must carry: the entry's id as the decimal
/// string for the checkbox's id attribute, the checkbox state, the label
/// text, and whether the completed marker class is applied.
pub struct RenderItem {
    pub id_attr: String,
    pub checked: bool,
    pub label: String,
    pub completed_marker: bool,
}

/// Everything a render pass displays: the items in display order, and
/// whether the empty-state indicator is visible.
pub struct RenderPlan {
    pub items: Vec<RenderItem>,
    pub show_empty: bool,
}

/// Computes the render plan for the current state: exactly one item per
/// entry, in the same order, the checkbox checked iff the entry is
/// completed, the completed marker present iff it is completed, the label
/// showing the entry's text, the id attribute its decimal id — and the
/// empty-state indicator visible iff the list is empty.
pub fn render_plan(state: &AppState) -> (p: RenderPlan)
    ensures
        p.show_empty == (state@.todos.len() == 0),
        p.items@.len() == state@.todos.len(),
        forall|i: int|
            0 <= i < state@.todos.len() ==> {
                let item = #[trigger] p.items@[i];
                let todo = state@.todos[i];
                &&& item.id_attr@ == decimal_of(todo.id as nat)
                &&& item.checked == todo.completed
                &&& item.label@ == todo.text
                &&& item.completed_marker == todo.completed
            },
{
    let todos = state.list_todos();
    let n = todos.len();
    let mut items: Vec<RenderItem> = Vec::new();
    let mut i: usize = 0;
    while i < n
        invariant
            0 <= i <= n,
            n == todos@.len(),
            views_of(todos@) == state@.todos,
            items@.len() == i,
            forall|k: int|
                0 <= k < i ==> {
                    let item = #[trigger] items@[k];
                    let todo = state@.todos[k];
                    &&& item.id_attr@ == decimal_of(todo.id as nat)
                    &&& item.checked == todo.completed
                    &&& item.label@ == todo.text
                    &&& item.completed_marker == todo.completed
                },
        decreases n - i,
    {
        proof {
            assert(state@.todos[i as int] == todos@[i as int]@);
        }
        let id_attr = format_id(todos[i].id);
        let label = todos[i].text.clone();
        let checked = todos[i].completed;
        items.push(RenderItem { id_attr, checked, label, completed_marker: checked });
        i = i + 1;
    }
    RenderPlan { items, show_empty: n == 0 }
}

} // verus!
