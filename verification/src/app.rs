//! The todo-list application core: its state, the edits on it, and the
//! keyboard-driven state machine that the interactive shell runs.

use crate::calendar::{spec_format_date, format_date, ReferenceInstant};
use crate::errors::spec_message;
use crate::guard::{is_overdue, spec_is_overdue};
use crate::parser::{parse_due_date, spec_parse_due_date};
use crate::text::{
    contains_chars, contains_sub, is_blank, lower_chars, lower_seq, pop_char, push_char,
    str_is_blank, str_to_chars,
};
use crate::todo::Todo;
use vstd::prelude::*;
use vstd::string::*;

verus! {

/// Which part of the interface currently receives keystrokes.
#[derive(Clone, Copy, Debug, PartialEq, Eq, Structural)]
pub enum InputMode {
    Normal,
    EditingDescription,
    EditingDueDate,
    Searching,
}

impl Default for InputMode {
    /// The interface starts in normal mode.
    fn default() -> (r: Self)
        ensures
            r == InputMode::Normal,
    {
        InputMode::Normal
    }
}

/// A key event handed to the state machine by the interactive shell.
#[derive(Clone, Copy, Debug, PartialEq, Eq, Structural)]
pub enum KeyInput {
    Char(char),
    Enter,
    Esc,
    Backspace,
    Up,
    Down,
    Other,
}

/// The todo-list application state.
#[derive(Debug)]
pub struct App {
    pub todos: Vec<Todo>,
    pub input_mode: InputMode,
    pub input_description: String,
    pub input_due_date: String,
    pub selected: usize,
    pub error_message: Option<String>,
    pub search_query: String,
}

impl Default for App {
    /// A fresh application state.
    fn default() -> (r: Self)
        ensures
            r.todos@.len() == 0,
            r.input_mode == InputMode::Normal,
            r.input_description@.len() == 0,
            r.input_due_date@.len() == 0,
            r.selected == 0,
            r.error_message is None,
            r.search_query@.len() == 0,
    {
        App::new()
    }
}

/// A request to add one todo, as a command shell hands it over: a
/// description and an optional free-text due-date phrase.
#[derive(Debug, Clone, PartialEq, Eq)]
pub struct AddTodoArgs {
    pub description: String,
    pub due_date: Option<String>,
}

/// Adds a todo from an [`AddTodoArgs`] request: the description must not
/// be blank, and a given due-date phrase must parse against the
/// reference instant. On failure nothing changes and the rejection
/// message is returned.
pub fn add_todo(app: &mut App, args: &AddTodoArgs, now: &ReferenceInstant) -> (r: Result<
    (),
    String,
>)
    requires
        now.valid(),
    ensures
        match r {
            Ok(()) => {
                &&& !is_blank(args.description@)
                &&& final(app).todos@ == old(app).todos@.push(final(app).todos@.last())
                &&& {
                    let t = final(app).todos@.last();
                    &&& t.description@ == args.description@
                    &&& t.done == false
                    &&& t.created_at@ == spec_format_date(now.date)
                    &&& match args.due_date {
                        Option::None => t.due_date is None,
                        Option::Some(p) => t.due_date is Some && spec_parse_due_date(p@, *now)
                            == Ok::<Seq<char>, crate::errors::ErrView>(t.due_date.unwrap()@),
                    }
                }
            },
            Err(m) => {
                &&& *final(app) == *old(app)
                &&& if is_blank(args.description@) {
                    m@ == "Description cannot be empty."@
                } else {
                    &&& args.due_date is Some
                    &&& spec_parse_due_date(args.due_date.unwrap()@, *now) is Err
                    &&& m@ == spec_message(
                        spec_parse_due_date(args.due_date.unwrap()@, *now)->Err_0,
                    )
                }
            },
        },
{
    if str_is_blank(args.description.as_str()) {
        return Err(String::from_str("Description cannot be empty."));
    }
    let due_date = match &args.due_date {
        Option::None => None,
        Option::Some(p) => {
            match parse_due_date(p.as_str(), now) {
                Ok(s) => Some(s),
                Err(e) => {
                    return Err(e.message());
                },
            }
        },
    };
    let id: u32 = if app.todos.len() < 0xffff_ffffusize {
        app.todos.len() as u32
    } else {
        0xffff_ffffu32
    };
    let todo = Todo {
        id,
        description: args.description.clone(),
        done: false,
        created_at: format_date(&now.date),
        due_date,
    };
    app.todos.push(todo);
    Ok(())
}

/// Whether a todo matches a lowercased search query, by substring on its
/// lowercased description or due date.
pub open spec fn todo_matches(t: Todo, q: Seq<char>) -> bool {
    contains_sub(lower_seq(t.description@), q) || (t.due_date is Some && contains_sub(
        lower_seq(t.due_date.unwrap()@),
        q,
    ))
}

/// The subsequence of todos matching a lowercased query, in order. An
/// empty query matches every todo.
pub open spec fn spec_filtered(todos: Seq<Todo>, q: Seq<char>) -> Seq<Todo>
    decreases todos.len(),
{
    if todos.len() == 0 {
        Seq::empty()
    } else {
        let pre = spec_filtered(todos.drop_last(), q);
        if todo_matches(todos.last(), q) {
            pre.push(todos.last())
        } else {
            pre
        }
    }
}

/// Whether a todo matches the lowercased query.
fn todo_matches_exec(t: &Todo, q: &Vec<char>) -> (r: bool)
    ensures
        r == todo_matches(*t, q@),
{
    let desc = lower_chars(&str_to_chars(t.description.as_str()));
    if contains_chars(&desc, q) {
        return true;
    }
    match &t.due_date {
        Option::Some(dd) => {
            let ddl = lower_chars(&str_to_chars(dd.as_str()));
            contains_chars(&ddl, q)
        },
        Option::None => false,
    }
}

/// The todos visible under the current search query, in order.
pub fn filtered_todos<'a>(app: &'a App) -> (r: Vec<&'a Todo>)
    ensures
        r@.map_values(|t: &Todo| *t) == spec_filtered(app.todos@, lower_seq(app.search_query@)),
{
    let q = lower_chars(&str_to_chars(app.search_query.as_str()));
    let mut r: Vec<&Todo> = Vec::new();
    let mut i: usize = 0;
    while i < app.todos.len()
        invariant
            i <= app.todos@.len(),
            q@ == lower_seq(app.search_query@),
            r@.map_values(|t: &Todo| *t) == spec_filtered(app.todos@.subrange(0, i as int), q@),
        decreases app.todos@.len() - i,
    {
        let ghost pre = app.todos@.subrange(0, i as int);
        proof {
            assert(app.todos@.subrange(0, i + 1).drop_last() =~= pre);
            assert(app.todos@.subrange(0, i + 1).last() == app.todos@[i as int]);
        }
        let t = &app.todos[i];
        if todo_matches_exec(t, &q) {
            let ghost oldr = r@;
            r.push(t);
            proof {
                assert(r@.map_values(|t: &Todo| *t) =~= oldr.map_values(|t: &Todo| *t).push(
                    app.todos@[i as int],
                ));
            }
        }
        i = i + 1;
    }
    proof {
        assert(app.todos@.subrange(0, app.todos@.len() as int) =~= app.todos@);
    }
    r
}

impl App {
    /// A fresh application state: no todos, empty inputs, normal mode.
    pub fn new() -> (app: App)
        ensures
            app.todos@.len() == 0,
            app.input_mode == InputMode::Normal,
            app.input_description@.len() == 0,
            app.input_due_date@.len() == 0,
            app.selected == 0,
            app.error_message is None,
            app.search_query@.len() == 0,
    {
        App {
            todos: Vec::new(),
            input_mode: InputMode::Normal,
            input_description: String::new(),
            input_due_date: String::new(),
            selected: 0,
            error_message: None,
            search_query: String::new(),
        }
    }

    /// Adds a todo built from the two input fields: the description must
    /// not be blank, and a non-blank due-date field must parse against
    /// the reference instant. On success the inputs are cleared; on
    /// failure nothing changes and the rejection message is returned.
    pub fn add_todo(&mut self, now: &ReferenceInstant) -> (r: Result<(), String>)
        requires
            now.valid(),
        ensures
            match r {
                Ok(()) => {
                    &&& !is_blank(old(self).input_description@)
                    &&& final(self).todos@ == old(self).todos@.push(final(self).todos@.last())
                    &&& {
                        let t = final(self).todos@.last();
                        &&& t.description@ == old(self).input_description@
                        &&& t.done == false
                        &&& t.created_at@ == spec_format_date(now.date)
                        &&& t.id == if old(self).todos@.len() < u32::MAX {
                            old(self).todos@.len() as u32
                        } else {
                            u32::MAX
                        }
                        &&& if is_blank(old(self).input_due_date@) {
                            t.due_date is None
                        } else {
                            t.due_date is Some && spec_parse_due_date(
                                old(self).input_due_date@,
                                *now,
                            ) == Ok::<Seq<char>, crate::errors::ErrView>(t.due_date.unwrap()@)
                        }
                    }
                    &&& final(self).input_description@.len() == 0
                    &&& final(self).input_due_date@.len() == 0
                    &&& final(self).error_message is None
                    &&& final(self).input_mode == old(self).input_mode
                    &&& final(self).selected == old(self).selected
                    &&& final(self).search_query == old(self).search_query
                },
                Err(m) => {
                    &&& *final(self) == *old(self)
                    &&& if is_blank(old(self).input_description@) {
                        m@ == "Description cannot be empty."@
                    } else {
                        &&& !is_blank(old(self).input_due_date@)
                        &&& spec_parse_due_date(old(self).input_due_date@, *now) is Err
                        &&& m@ == spec_message(
                            spec_parse_due_date(old(self).input_due_date@, *now)->Err_0,
                        )
                    }
                },
            },
    {
        if str_is_blank(self.input_description.as_str()) {
            return Err(String::from_str("Description cannot be empty."));
        }
        let due_date = if str_is_blank(self.input_due_date.as_str()) {
            None
        } else {
            match parse_due_date(self.input_due_date.as_str(), now) {
                Ok(s) => Some(s),
                Err(e) => {
                    return Err(e.message());
                },
            }
        };
        let id: u32 = if self.todos.len() < 0xffff_ffffusize {
            self.todos.len() as u32
        } else {
            0xffff_ffffu32
        };
        let todo = Todo {
            id,
            description: self.input_description.clone(),
            done: false,
            created_at: format_date(&now.date),
            due_date,
        };
        self.todos.push(todo);
        self.input_description = String::new();
        self.input_due_date = String::new();
        self.error_message = None;
        Ok(())
    }

    /// Removes the selected todo, when the selection is in range, and
    /// moves the selection one up.
    pub fn delete_todo(&mut self)
        ensures
            if old(self).todos@.len() > 0 && old(self).selected < old(self).todos@.len() {
                &&& final(self).todos@ == old(self).todos@.remove(old(self).selected as int)
                &&& final(self).selected == if old(self).selected > 0 {
                    (old(self).selected - 1) as usize
                } else {
                    0usize
                }
            } else {
                &&& final(self).todos == old(self).todos
                &&& final(self).selected == old(self).selected
            },
            final(self).input_mode == old(self).input_mode,
            final(self).input_description == old(self).input_description,
            final(self).input_due_date == old(self).input_due_date,
            final(self).error_message == old(self).error_message,
            final(self).search_query == old(self).search_query,
    {
        if self.todos.len() > 0 && self.selected < self.todos.len() {
            self.todos.remove(self.selected);
            if self.selected > 0 {
                self.selected = self.selected - 1;
            }
        }
    }

    /// Removes the todo at `index`, when it is in range.
    pub fn delete_todo_at(&mut self, index: usize)
        ensures
            if index < old(self).todos@.len() {
                final(self).todos@ == old(self).todos@.remove(index as int)
            } else {
                final(self).todos == old(self).todos
            },
            final(self).input_mode == old(self).input_mode,
            final(self).input_description == old(self).input_description,
            final(self).input_due_date == old(self).input_due_date,
            final(self).selected == old(self).selected,
            final(self).error_message == old(self).error_message,
            final(self).search_query == old(self).search_query,
    {
        if index < self.todos.len() {
            self.todos.remove(index);
        }
    }

    /// Toggles the completion flag of the todo at `index`, when it is in
    /// range.
    pub fn toggle_done(&mut self, index: usize)
        ensures
            if index < old(self).todos@.len() {
                final(self).todos@ == old(self).todos@.update(
                    index as int,
                    Todo {
                        done: !old(self).todos@[index as int].done,
                        ..old(self).todos@[index as int]
                    },
                )
            } else {
                final(self).todos == old(self).todos
            },
            final(self).input_mode == old(self).input_mode,
            final(self).input_description == old(self).input_description,
            final(self).input_due_date == old(self).input_due_date,
            final(self).selected == old(self).selected,
            final(self).error_message == old(self).error_message,
            final(self).search_query == old(self).search_query,
    {
        if index < self.todos.len() {
            let was_done = self.todos[index].done;
            let old_todo = self.todos.remove(index);
            let new_todo = Todo { done: !was_done, ..old_todo };
            self.todos.insert(index, new_todo);
            proof {
                assert(final(self).todos@ =~= old(self).todos@.update(
                    index as int,
                    Todo {
                        done: !old(self).todos@[index as int].done,
                        ..old(self).todos@[index as int]
                    },
                ));
            }
        }
    }

    /// Toggles the completion flag of the selected todo, when the
    /// selection is in range.
    pub fn mark_done(&mut self)
        ensures
            if old(self).selected < old(self).todos@.len() {
                final(self).todos@ == old(self).todos@.update(
                    old(self).selected as int,
                    Todo {
                        done: !old(self).todos@[old(self).selected as int].done,
                        ..old(self).todos@[old(self).selected as int]
                    },
                )
            } else {
                final(self).todos == old(self).todos
            },
            final(self).input_mode == old(self).input_mode,
            final(self).input_description == old(self).input_description,
            final(self).input_due_date == old(self).input_due_date,
            final(self).selected == old(self).selected,
            final(self).error_message == old(self).error_message,
            final(self).search_query == old(self).search_query,
    {
        let index = self.selected;
        self.toggle_done(index);
    }
}

/// The fields the search and list views share are unchanged from `a` to
/// `b`.
pub open spec fn same_inputs(a: App, b: App) -> bool {
    &&& b.input_description == a.input_description
    &&& b.input_due_date == a.input_due_date
}

/// Outcome of deleting the selected todo.
pub open spec fn spec_delete_outcome(a: App, b: App) -> bool {
    &&& if a.todos@.len() > 0 && a.selected < a.todos@.len() {
        &&& b.todos@ == a.todos@.remove(a.selected as int)
        &&& b.selected == if a.selected > 0 {
            (a.selected - 1) as usize
        } else {
            0usize
        }
    } else {
        &&& b.todos == a.todos
        &&& b.selected == a.selected
    }
    &&& b.input_mode == a.input_mode
    &&& same_inputs(a, b)
    &&& b.error_message == a.error_message
    &&& b.search_query == a.search_query
}

/// Outcome of toggling the selected todo's completion flag.
pub open spec fn spec_toggle_outcome(a: App, b: App) -> bool {
    &&& if a.selected < a.todos@.len() {
        b.todos@ == a.todos@.update(
            a.selected as int,
            Todo { done: !a.todos@[a.selected as int].done, ..a.todos@[a.selected as int] },
        )
    } else {
        b.todos == a.todos
    }
    &&& b.input_mode == a.input_mode
    &&& b.selected == a.selected
    &&& same_inputs(a, b)
    &&& b.error_message == a.error_message
    &&& b.search_query == a.search_query
}

/// Outcome of moving the selection down within the filtered view, or up.
pub open spec fn spec_move_outcome(a: App, b: App, down: bool) -> bool {
    &&& {
        let visible = spec_filtered(a.todos@, lower_seq(a.search_query@)).len();
        b.selected == if down {
            if visible > 0 && a.selected < visible - 1 {
                (a.selected + 1) as usize
            } else {
                a.selected
            }
        } else {
            if a.selected > 0 {
                (a.selected - 1) as usize
            } else {
                a.selected
            }
        }
    }
    &&& b.todos == a.todos
    &&& b.input_mode == a.input_mode
    &&& same_inputs(a, b)
    &&& b.error_message == a.error_message
    &&& b.search_query == a.search_query
}

/// Transition of one key in normal mode.
pub open spec fn spec_normal_step(a: App, key: KeyInput, b: App) -> bool {
    match key {
        KeyInput::Char(c) => if c == 'q' {
            b == a
        } else if c == 'a' {
            &&& b.input_mode == InputMode::EditingDescription
            &&& b.input_description@.len() == 0
            &&& b.input_due_date@.len() == 0
            &&& b.error_message is None
            &&& b.todos == a.todos
            &&& b.selected == a.selected
            &&& b.search_query == a.search_query
        } else if c == 'd' {
            spec_delete_outcome(a, b)
        } else if c == 'm' {
            spec_toggle_outcome(a, b)
        } else if c == '/' {
            &&& b.input_mode == InputMode::Searching
            &&& b.search_query@.len() == 0
            &&& b.todos == a.todos
            &&& b.selected == a.selected
            &&& same_inputs(a, b)
            &&& b.error_message == a.error_message
        } else {
            b == a
        },
        KeyInput::Down => spec_move_outcome(a, b, true),
        KeyInput::Up => spec_move_outcome(a, b, false),
        _ => b == a,
    }
}

/// Transition of one key while editing the description.
pub open spec fn spec_editing_description_step(a: App, key: KeyInput, b: App) -> bool {
    &&& match key {
        KeyInput::Enter => b.input_mode == InputMode::EditingDueDate && same_inputs(a, b),
        KeyInput::Esc => b.input_mode == InputMode::Normal && same_inputs(a, b),
        KeyInput::Char(c) => {
            &&& b.input_mode == a.input_mode
            &&& b.input_description@ == a.input_description@.push(c)
            &&& b.input_due_date == a.input_due_date
        },
        KeyInput::Backspace => {
            &&& b.input_mode == a.input_mode
            &&& b.input_description@ == if a.input_description@.len() == 0 {
                a.input_description@
            } else {
                a.input_description@.drop_last()
            }
            &&& b.input_due_date == a.input_due_date
        },
        _ => b.input_mode == a.input_mode && same_inputs(a, b),
    }
    &&& b.todos == a.todos
    &&& b.selected == a.selected
    &&& b.error_message == a.error_message
    &&& b.search_query == a.search_query
}

/// Transition of one key while editing the due date: `Enter` attempts to
/// add the todo, staying in the editor with the rejection message on
/// failure.
pub open spec fn spec_editing_due_date_step(
    a: App,
    key: KeyInput,
    b: App,
    now: ReferenceInstant,
) -> bool {
    match key {
        KeyInput::Enter => if !is_blank(a.input_description@) && (is_blank(a.input_due_date@)
            || spec_parse_due_date(a.input_due_date@, now) is Ok) {
            &&& b.input_mode == InputMode::Normal
            &&& b.todos@.len() == a.todos@.len() + 1
            &&& b.todos@ == a.todos@.push(b.todos@.last())
            &&& b.todos@.last().description@ == a.input_description@
            &&& b.todos@.last().done == false
            &&& b.todos@.last().created_at@ == spec_format_date(now.date)
            &&& if is_blank(a.input_due_date@) {
                b.todos@.last().due_date is None
            } else {
                b.todos@.last().due_date is Some && spec_parse_due_date(a.input_due_date@, now)
                    == Ok::<Seq<char>, crate::errors::ErrView>(b.todos@.last().due_date.unwrap()@)
            }
            &&& b.input_description@.len() == 0
            &&& b.input_due_date@.len() == 0
            &&& b.error_message is None
            &&& b.selected == a.selected
            &&& b.search_query == a.search_query
        } else {
            &&& b.input_mode == a.input_mode
            &&& b.todos == a.todos
            &&& same_inputs(a, b)
            &&& b.selected == a.selected
            &&& b.search_query == a.search_query
            &&& b.error_message is Some
            &&& if is_blank(a.input_description@) {
                b.error_message.unwrap()@ == "Description cannot be empty."@
            } else {
                b.error_message.unwrap()@ == spec_message(
                    spec_parse_due_date(a.input_due_date@, now)->Err_0,
                )
            }
        },
        KeyInput::Esc => {
            &&& b.input_mode == InputMode::Normal
            &&& b.todos == a.todos
            &&& same_inputs(a, b)
            &&& b.selected == a.selected
            &&& b.search_query == a.search_query
            &&& b.error_message == a.error_message
        },
        KeyInput::Char(c) => {
            &&& b.input_mode == a.input_mode
            &&& b.todos == a.todos
            &&& b.input_description == a.input_description
            &&& b.input_due_date@ == a.input_due_date@.push(c)
            &&& b.selected == a.selected
            &&& b.search_query == a.search_query
            &&& b.error_message == a.error_message
        },
        KeyInput::Backspace => {
            &&& b.input_mode == a.input_mode
            &&& b.todos == a.todos
            &&& b.input_description == a.input_description
            &&& b.input_due_date@ == if a.input_due_date@.len() == 0 {
                a.input_due_date@
            } else {
                a.input_due_date@.drop_last()
            }
            &&& b.selected == a.selected
            &&& b.search_query == a.search_query
            &&& b.error_message == a.error_message
        },
        _ => {
            &&& b.input_mode == a.input_mode
            &&& b.todos == a.todos
            &&& same_inputs(a, b)
            &&& b.selected == a.selected
            &&& b.search_query == a.search_query
            &&& b.error_message == a.error_message
        },
    }
}

/// Transition of one key while searching.
pub open spec fn spec_searching_step(a: App, key: KeyInput, b: App) -> bool {
    &&& match key {
        KeyInput::Esc => {
            &&& b.input_mode == InputMode::Normal
            &&& b.search_query@.len() == 0
            &&& b.selected == a.selected
        },
        KeyInput::Char(c) => {
            &&& b.input_mode == a.input_mode
            &&& b.search_query@ == a.search_query@.push(c)
            &&& b.selected == 0
        },
        KeyInput::Backspace => {
            &&& b.input_mode == a.input_mode
            &&& b.search_query@ == if a.search_query@.len() == 0 {
                a.search_query@
            } else {
                a.search_query@.drop_last()
            }
            &&& b.selected == 0
        },
        KeyInput::Down => {
            &&& b.input_mode == a.input_mode
            &&& b.search_query == a.search_query
            &&& {
                let visible = spec_filtered(a.todos@, lower_seq(a.search_query@)).len();
                b.selected == if visible > 0 && a.selected < visible - 1 {
                    (a.selected + 1) as usize
                } else {
                    a.selected
                }
            }
        },
        KeyInput::Up => {
            &&& b.input_mode == a.input_mode
            &&& b.search_query == a.search_query
            &&& b.selected == if a.selected > 0 {
                (a.selected - 1) as usize
            } else {
                a.selected
            }
        },
        _ => {
            &&& b.input_mode == a.input_mode
            &&& b.search_query == a.search_query
            &&& b.selected == a.selected
        },
    }
    &&& b.todos == a.todos
    &&& same_inputs(a, b)
    &&& b.error_message == a.error_message
}

impl App {
    /// Applies one key event to the application state, mirroring the
    /// interactive loop's transitions mode by mode; the result says
    /// whether the shell should quit.
    pub fn handle_key(&mut self, key: KeyInput, now: &ReferenceInstant) -> (quit: bool)
        requires
            now.valid(),
        ensures
            quit == (old(self).input_mode == InputMode::Normal && key == KeyInput::Char('q')),
            match old(self).input_mode {
                InputMode::Normal => spec_normal_step(*old(self), key, *final(self)),
                InputMode::EditingDescription => spec_editing_description_step(
                    *old(self),
                    key,
                    *final(self),
                ),
                InputMode::EditingDueDate => spec_editing_due_date_step(
                    *old(self),
                    key,
                    *final(self),
                    *now,
                ),
                InputMode::Searching => spec_searching_step(*old(self), key, *final(self)),
            },
    {
        match self.input_mode {
            InputMode::Normal => {
                match key {
                    KeyInput::Char(c) => {
                        if c == 'q' {
                            return true;
                        } else if c == 'a' {
                            self.input_mode = InputMode::EditingDescription;
                            self.input_description = String::new();
                            self.input_due_date = String::new();
                            self.error_message = None;
                        } else if c == 'd' {
                            self.delete_todo();
                        } else if c == 'm' {
                            self.mark_done();
                        } else if c == '/' {
                            self.input_mode = InputMode::Searching;
                            self.search_query = String::new();
                        }
                    },
                    KeyInput::Down => {
                        let visible = filtered_todos(self).len();
                        proof {
                            assert(spec_filtered(
                                self.todos@,
                                lower_seq(self.search_query@),
                            ).len() == visible);
                        }
                        if visible > 0 && self.selected < visible - 1 {
                            self.selected = self.selected + 1;
                        }
                    },
                    KeyInput::Up => {
                        if self.selected > 0 {
                            self.selected = self.selected - 1;
                        }
                    },
                    _ => {},
                }
            },
            InputMode::EditingDescription => {
                match key {
                    KeyInput::Enter => {
                        self.input_mode = InputMode::EditingDueDate;
                    },
                    KeyInput::Esc => {
                        self.input_mode = InputMode::Normal;
                    },
                    KeyInput::Char(c) => {
                        push_char(&mut self.input_description, c);
                    },
                    KeyInput::Backspace => {
                        pop_char(&mut self.input_description);
                    },
                    _ => {},
                }
            },
            InputMode::EditingDueDate => {
                match key {
                    KeyInput::Enter => {
                        match self.add_todo(now) {
                            Ok(()) => {
                                self.input_mode = InputMode::Normal;
                            },
                            Err(m) => {
                                self.error_message = Some(m);
                            },
                        }
                    },
                    KeyInput::Esc => {
                        self.input_mode = InputMode::Normal;
                    },
                    KeyInput::Char(c) => {
                        push_char(&mut self.input_due_date, c);
                    },
                    KeyInput::Backspace => {
                        pop_char(&mut self.input_due_date);
                    },
                    _ => {},
                }
            },
            InputMode::Searching => {
                match key {
                    KeyInput::Esc => {
                        self.input_mode = InputMode::Normal;
                        self.search_query = String::new();
                    },
                    KeyInput::Char(c) => {
                        push_char(&mut self.search_query, c);
                        self.selected = 0;
                    },
                    KeyInput::Backspace => {
                        pop_char(&mut self.search_query);
                        self.selected = 0;
                    },
                    KeyInput::Down => {
                        let visible = filtered_todos(self).len();
                        proof {
                            assert(spec_filtered(
                                self.todos@,
                                lower_seq(self.search_query@),
                            ).len() == visible);
                        }
                        if visible > 0 && self.selected < visible - 1 {
                            self.selected = self.selected + 1;
                        }
                    },
                    KeyInput::Up => {
                        if self.selected > 0 {
                            self.selected = self.selected - 1;
                        }
                    },
                    _ => {},
                }
            },
        }
        false
    }

    /// Whether the todo at `index` is overdue at the reference instant.
    pub fn todo_overdue(&self, index: usize, now: &ReferenceInstant) -> (r: bool)
        requires
            now.valid(),
        ensures
            r == if index < self.todos@.len() {
                match self.todos@[index as int].due_date {
                    Option::Some(d) => spec_is_overdue(d@, *now),
                    Option::None => false,
                }
            } else {
                false
            },
    {
        if index >= self.todos.len() {
            return false;
        }
        match &self.todos[index].due_date {
            Option::Some(d) => is_overdue(d.as_str(), now),
            Option::None => false,
        }
    }
}

} // verus!
