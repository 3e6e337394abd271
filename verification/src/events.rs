//! The decision half of the two event bindings. The unverified shell reads
//! the raw values out of the document (the input's text; a checkbox's id
//! attribute and checked state) and hands them in; these functions decide
//! how the state changes and whether a re-render is due.

use vstd::prelude::*;
use crate::ids::{parse_decimal, parse_id};
use crate::state::{spec_add, spec_toggle, AppState};
use crate::text::{trim, trim_spec};

verus! {

/// The add binding's decision on a form submission: trim the input's text;
/// when nothing remains, change nothing and report that no re-render is due;
/// otherwise add the entry and report that the input is to be cleared and
/// the list re-rendered.
pub fn submit_event(state: &mut AppState, raw: &str) -> (changed: bool)
    requires
        old(state)@.next_id < usize::MAX as int,
    ensures
        changed == (trim_spec(raw@).len() > 0),
        final(state)@ == spec_add(old(state)@, raw@),
{
    let t = trim(raw);
    if t.as_str().is_empty() {
        return false;
    }
    state.add_todo(raw);
    true
}

/// The toggle binding's decision on a change event from the list: read the
/// decimal id out of the checkbox's id attribute (absent attributes count as
/// empty); when it does not parse, ignore the event entirely; otherwise set
/// that entry's completed flag to the checkbox's state and report that a
/// re-render is due.
pub fn toggle_event(state: &mut AppState, id_attr: Option<&str>, checked: bool) -> (changed: bool)
    ensures
        ({
            let parsed = match id_attr {
                Some(a) => parse_decimal(a@),
                None => None,
            };
            match parsed {
                Some(id) => changed && final(state)@ == spec_toggle(
                    old(state)@,
                    id as int,
                    checked,
                ),
                None => !changed && final(state)@ == old(state)@,
            }
        }),
{
    let id = match id_attr {
        Some(a) => parse_id(a),
        None => None,
    };
    match id {
        Some(id) => {
            state.toggle_todo(id, checked);
            true
        },
        None => false,
    }
}

} // verus!
