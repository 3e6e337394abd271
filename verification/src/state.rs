//! The state store: the ordered list of to-do items and the id counter,
//! together with the two mutations the user interface performs on it —
//! adding an item from input text and toggling an item's completed flag.

use vstd::prelude::*;
use crate::text::{trim, trim_spec, valid_text, lemma_trim_valid};

verus! {

/// One to-do entry: a unique id, a non-empty trimmed text, a completed flag.
pub struct Todo {
    pub id: usize,
    pub text: String,
    pub completed: bool,
}

/// The mathematical image of a [`Todo`].
#[verifier::ext_equal]
pub ghost struct TodoView {
    pub id: int,
    pub text: Seq<char>,
    pub completed: bool,
}

impl View for Todo {
    type V = TodoView;

    open spec fn view(&self) -> TodoView {
        TodoView { id: self.id as int, text: self.text@, completed: self.completed }
    }
}

/// The images of a sequence of entries.
pub open spec fn views_of(todos: Seq<Todo>) -> Seq<TodoView> {
    todos.map_values(|t: Todo| t@)
}

/// The mathematical image of the whole store: the entry sequence in display
/// order and the next id to assign.
#[verifier::ext_equal]
pub ghost struct StateView {
    pub todos: Seq<TodoView>,
    pub next_id: int,
}

impl StateView {
    /// Well-formedness of the store: every assigned id lies below the
    /// counter, ids strictly increase in display order (so no two entries
    /// share an id), and every stored text is non-empty and trimmed.
    pub open spec fn wf(self) -> bool {
        &&& forall|i: int| 0 <= i < self.todos.len() ==> (#[trigger] self.todos[i]).id < self.next_id
        &&& forall|i: int, j: int|
            0 <= i < j < self.todos.len() ==> (#[trigger] self.todos[i]).id < (
            #[trigger] self.todos[j]).id
        &&& forall|i: int| 0 <= i < self.todos.len() ==> valid_text((#[trigger] self.todos[i]).text)
    }
}

/// What adding input text does to the store: a no-op when the text trims to
/// nothing, else the trimmed text is appended as a fresh, uncompleted entry
/// under the current counter value, and the counter advances.
pub open spec fn spec_add(s: StateView, text: Seq<char>) -> StateView {
    let t = trim_spec(text);
    if t.len() == 0 {
        s
    } else {
        StateView {
            todos: s.todos.push(TodoView { id: s.next_id, text: t, completed: false }),
            next_id: s.next_id + 1,
        }
    }
}

/// What toggling does to the store: every entry carrying the id gets its
/// completed flag set to `checked`; everything else, and the counter, is
/// untouched. (In a well-formed store at most one entry carries the id.)
pub open spec fn spec_toggle(s: StateView, id: int, checked: bool) -> StateView {
    StateView {
        todos: s.todos.map_values(
            |t: TodoView|
                if t.id == id {
                    TodoView { id: t.id, text: t.text, completed: checked }
                } else {
                    t
                },
        ),
        next_id: s.next_id,
    }
}

/// The state store. Created once, empty, at startup; mutated only by
/// [`AppState::add_todo`] and [`AppState::toggle_todo`].
pub struct AppState {
    todos: Vec<Todo>,
    next_id: usize,
}

impl View for AppState {
    type V = StateView;

    closed spec fn view(&self) -> StateView {
        StateView { todos: views_of(self.todos@), next_id: self.next_id as int }
    }
}

impl AppState {
    #[verifier::type_invariant]
    spec fn inv(self) -> bool {
        self@.wf()
    }

    /// The empty store with the counter at zero.
    pub fn new() -> (s: AppState)
        ensures
            s@.todos == Seq::<TodoView>::empty(),
            s@.next_id == 0,
    {
        let todos: Vec<Todo> = Vec::new();
        proof {
            assert(views_of(todos@) =~= Seq::<TodoView>::empty());
        }
        AppState { todos, next_id: 0 }
    }

    /// The entries, in display order, read-only.
    pub fn list_todos(&self) -> (r: &Vec<Todo>)
        ensures
            views_of(r@) == self@.todos,
    {
        &self.todos
    }

    /// The id the next added entry will get.
    pub fn next_id(&self) -> (r: usize)
        ensures
            r as int == self@.next_id,
    {
        self.next_id
    }

    /// Adds an entry from input text, trimming it first; a no-op when the
    /// text is empty or whitespace-only.
    pub fn add_todo(&mut self, text: &str)
        requires
            old(self)@.next_id < usize::MAX as int,
        ensures
            final(self)@ == spec_add(old(self)@, text@),
    {
        proof {
            use_type_invariant(&*self);
        }
        let t = trim(text);
        if t.as_str().is_empty() {
            proof {
                assert(self@ =~= spec_add(old(self)@, text@));
            }
            return;
        }
        let id = self.next_id;
        proof {
            assert(forall|i: int|
                0 <= i < self@.todos.len() ==> (#[trigger] self@.todos[i]).id < id as int + 1);
        }
        self.next_id = id + 1;
        let mut todos: Vec<Todo> = Vec::new();
        proof {
            assert(views_of(todos@) =~= Seq::<TodoView>::empty());
        }
        std::mem::swap(&mut todos, &mut self.todos);
        todos.push(Todo { id, text: t, completed: false });
        proof {
            lemma_trim_valid(text@);
            assert(views_of(todos@) =~= old(self)@.todos.push(
                TodoView { id: id as int, text: trim_spec(text@), completed: false },
            ));
        }
        self.todos = todos;
        proof {
            assert(self@ =~= spec_add(old(self)@, text@));
        }
    }

    /// Sets the completed flag of the entry carrying `id` to `checked`; a
    /// no-op when no entry carries it.
    pub fn toggle_todo(&mut self, id: usize, checked: bool)
        ensures
            final(self)@ == spec_toggle(old(self)@, id as int, checked),
    {
        proof {
            use_type_invariant(&*self);
        }
        let mut todos: Vec<Todo> = Vec::new();
        proof {
            assert(views_of(todos@) =~= Seq::<TodoView>::empty());
        }
        std::mem::swap(&mut todos, &mut self.todos);
        let ghost orig = old(self)@.todos;
        let n = todos.len();
        let mut i: usize = 0;
        while i < n
            invariant
                0 <= i <= n,
                n == todos@.len(),
                views_of(todos@) == orig,
                old(self)@.wf(),
                old(self)@.todos == orig,
                self@.next_id == old(self)@.next_id,
                self@.todos == Seq::<TodoView>::empty(),
                forall|m: int| 0 <= m < i ==> (#[trigger] orig[m]).id != id as int,
            decreases n - i,
        {
            if todos[i].id == id {
                let ghost before = todos@;
                let mut t = todos.remove(i);
                t.completed = checked;
                todos.insert(i, t);
                proof {
                    assert(orig[i as int] == before[i as int]@);
                    assert(orig[i as int].id == id as int);
                    assert forall|k: int|
                        0 <= k < orig.len() && k != i implies (#[trigger] orig[k]).id
                        != id as int by {
                        if k < i {
                            assert(orig[k].id < orig[i as int].id);
                        } else {
                            assert(orig[i as int].id < orig[k].id);
                        }
                    }
                    assert(todos@ =~= before.update(i as int, t));
                    assert(views_of(todos@) =~= spec_toggle(
                        old(self)@,
                        id as int,
                        checked,
                    ).todos);
                }
                self.todos = todos;
                proof {
                    assert(self@ =~= spec_toggle(old(self)@, id as int, checked));
                }
                return;
            }
            i = i + 1;
        }
        proof {
            assert(views_of(todos@) =~= spec_toggle(old(self)@, id as int, checked).todos);
        }
        self.todos = todos;
        proof {
            assert(self@ =~= spec_toggle(old(self)@, id as int, checked));
        }
    }
}

/// Adding preserves well-formedness.
pub proof fn lemma_add_preserves_wf(s: StateView, text: Seq<char>)
    requires
        s.wf(),
    ensures
        spec_add(s, text).wf(),
{
    lemma_trim_valid(text);
}

/// Toggling preserves well-formedness.
pub proof fn lemma_toggle_preserves_wf(s: StateView, id: int, checked: bool)
    requires
        s.wf(),
    ensures
        spec_toggle(s, id, checked).wf(),
{
}

/// The result of a whole sequence of additions, in call order.
pub open spec fn spec_add_all(s: StateView, texts: Seq<Seq<char>>) -> StateView
    decreases texts.len(),
{
    if texts.len() == 0 {
        s
    } else {
        spec_add_all(spec_add(s, texts[0]), texts.subrange(1, texts.len() as int))
    }
}

/// For every sequence of additions whose texts trim to something non-empty,
/// the list grows by exactly one entry per call, the new entries appear at
/// the end in call order carrying the trimmed texts, uncompleted, and their
/// ids are consecutive counter values — so all ids are unique and strictly
/// increasing in display order (part of well-formedness, which is preserved).
pub proof fn lemma_add_all_grows(s: StateView, texts: Seq<Seq<char>>)
    requires
        s.wf(),
        forall|k: int| 0 <= k < texts.len() ==> trim_spec(#[trigger] texts[k]).len() > 0,
    ensures
        spec_add_all(s, texts).wf(),
        spec_add_all(s, texts).todos.len() == s.todos.len() + texts.len(),
        spec_add_all(s, texts).next_id == s.next_id + texts.len(),
        forall|k: int|
            0 <= k < s.todos.len() ==> spec_add_all(s, texts).todos[k] == (#[trigger] s.todos[k]),
        forall|k: int|
            0 <= k < texts.len() ==> spec_add_all(s, texts).todos[s.todos.len() + k] == (TodoView {
                id: s.next_id + k,
                text: trim_spec(#[trigger] texts[k]),
                completed: false,
            }),
    decreases texts.len(),
{
    if texts.len() > 0 {
        lemma_add_preserves_wf(s, texts[0]);
        let s1 = spec_add(s, texts[0]);
        let rest = texts.subrange(1, texts.len() as int);
        assert(forall|k: int| 0 <= k < rest.len() ==> rest[k] == (#[trigger] texts[k + 1]));
        lemma_add_all_grows(s1, rest);
        let r = spec_add_all(s, texts);
        assert(r == spec_add_all(s1, rest));
        assert(s1.todos == s.todos.push(
            TodoView { id: s.next_id, text: trim_spec(texts[0]), completed: false },
        ));
        assert forall|k: int| 0 <= k < s.todos.len() implies r.todos[k] == (
        #[trigger] s.todos[k]) by {
            assert(s1.todos[k] == s.todos[k]);
            assert(r.todos[k] == s1.todos[k]);
        }
        assert forall|k: int| 0 <= k < texts.len() implies r.todos[s.todos.len() + k] == (TodoView {
            id: s.next_id + k,
            text: trim_spec(#[trigger] texts[k]),
            completed: false,
        }) by {
            if k == 0 {
                assert(r.todos[s1.todos.len() - 1] == s1.todos[s1.todos.len() - 1]);
            } else {
                assert(rest[k - 1] == texts[k]);
                assert(r.todos[s1.todos.len() + (k - 1)] == (TodoView {
                    id: s1.next_id + (k - 1),
                    text: trim_spec(rest[k - 1]),
                    completed: false,
                }));
            }
        }
    }
}

/// Adding empty or whitespace-only text never changes the store: neither the
/// list (so not its length) nor the id counter.
pub proof fn lemma_add_blank_is_noop(s: StateView, text: Seq<char>)
    requires
        trim_spec(text).len() == 0,
    ensures
        spec_add(s, text) == s,
{
}

/// Toggling an id that no entry carries leaves the store unchanged.
pub proof fn lemma_toggle_absent_is_noop(s: StateView, id: int, checked: bool)
    requires
        forall|k: int| 0 <= k < s.todos.len() ==> (#[trigger] s.todos[k]).id != id,
    ensures
        spec_toggle(s, id, checked) == s,
{
    assert(spec_toggle(s, id, checked) =~= s);
}

/// Toggling an entry and then toggling it back to its original completed
/// value restores the store exactly; in particular, on an entry not yet
/// completed, toggling it on and then off restores the original state.
pub proof fn lemma_toggle_restores(s: StateView, id: int, j: int, b: bool)
    requires
        s.wf(),
        0 <= j < s.todos.len(),
        s.todos[j].id == id,
    ensures
        spec_toggle(spec_toggle(s, id, b), id, s.todos[j].completed) == s,
{
    assert(forall|k: int| 0 <= k < s.todos.len() && k != j ==> (#[trigger] s.todos[k]).id != id)
        by {
        assert(forall|k: int| j < k < s.todos.len() ==> s.todos[j].id < (#[trigger] s.todos[k]).id);
        assert(forall|k: int| 0 <= k < j ==> (#[trigger] s.todos[k]).id < s.todos[j].id);
    }
    assert(spec_toggle(spec_toggle(s, id, b), id, s.todos[j].completed) =~= s);
}

} // verus!
