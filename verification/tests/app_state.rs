use rusty_todos::app::{add_todo, filtered_todos, AddTodoArgs, App, InputMode, KeyInput};
use rusty_todos::calendar::{Date, ReferenceInstant};
use rusty_todos::guard::{is_overdue, validate_not_past};
use rusty_todos::errors::ParseError;
use rusty_todos::todo::Todo;

fn at(year: u64, month: u64, day: u64, hour: u64, minute: u64, second: u64) -> ReferenceInstant {
    ReferenceInstant { date: Date { year, month, day }, hour, minute, second }
}

fn now() -> ReferenceInstant {
    at(2026, 10, 12, 15, 30, 0)
}

fn type_str(app: &mut App, text: &str, now_ref: &ReferenceInstant) {
    for c in text.chars() {
        app.handle_key(KeyInput::Char(c), now_ref);
    }
}

#[test]
fn new_app_is_empty() {
    let app = App::new();
    assert!(app.todos.is_empty());
    assert_eq!(app.input_mode, InputMode::Normal);
    assert_eq!(app.selected, 0);
    assert!(app.error_message.is_none());
}

#[test]
fn add_todo_requires_description() {
    let mut app = App::new();
    let r = app.add_todo(&now());
    assert_eq!(r, Err("Description cannot be empty.".to_string()));
    assert!(app.todos.is_empty());
}

#[test]
fn add_todo_without_due_date() {
    let mut app = App::new();
    app.input_description = "water the plants".to_string();
    assert_eq!(app.add_todo(&now()), Ok(()));
    assert_eq!(app.todos.len(), 1);
    assert_eq!(app.todos[0].description, "water the plants");
    assert_eq!(app.todos[0].due_date, None);
    assert_eq!(app.todos[0].created_at, "2026-10-12");
    assert!(!app.todos[0].done);
    assert!(app.input_description.is_empty());
}

#[test]
fn add_todo_normalizes_due_date() {
    let mut app = App::new();
    app.input_description = "file the report".to_string();
    app.input_due_date = "next friday 15:30".to_string();
    assert_eq!(app.add_todo(&now()), Ok(()));
    assert_eq!(app.todos[0].due_date, Some("2026-10-23 15:30".to_string()));
}

#[test]
fn add_todo_surfaces_parse_rejections() {
    let mut app = App::new();
    app.input_description = "call the dentist".to_string();
    app.input_due_date = "yesterday".to_string();
    assert_eq!(app.add_todo(&now()), Err("Due date cannot be in the past".to_string()));
    assert!(app.todos.is_empty());
    assert_eq!(app.input_due_date, "yesterday");
}

#[test]
fn delete_todo_moves_selection_up() {
    let mut app = App::new();
    for name in ["one", "two", "three"] {
        app.input_description = name.to_string();
        app.add_todo(&now()).unwrap();
    }
    app.selected = 2;
    app.delete_todo();
    assert_eq!(app.todos.len(), 2);
    assert_eq!(app.selected, 1);
    assert_eq!(app.todos[1].description, "two");
    app.selected = 0;
    app.delete_todo();
    assert_eq!(app.todos.len(), 1);
    assert_eq!(app.selected, 0);
    assert_eq!(app.todos[0].description, "two");
}

#[test]
fn delete_todo_out_of_range_is_a_no_op() {
    let mut app = App::new();
    app.input_description = "solo".to_string();
    app.add_todo(&now()).unwrap();
    app.selected = 5;
    app.delete_todo();
    assert_eq!(app.todos.len(), 1);
}

#[test]
fn delete_todo_at_index() {
    let mut app = App::new();
    for name in ["a", "b", "c"] {
        app.input_description = name.to_string();
        app.add_todo(&now()).unwrap();
    }
    app.delete_todo_at(1);
    assert_eq!(app.todos.len(), 2);
    assert_eq!(app.todos[1].description, "c");
    app.delete_todo_at(9);
    assert_eq!(app.todos.len(), 2);
}

#[test]
fn toggle_done_flips_one_flag() {
    let mut app = App::new();
    for name in ["a", "b"] {
        app.input_description = name.to_string();
        app.add_todo(&now()).unwrap();
    }
    app.toggle_done(1);
    assert!(!app.todos[0].done);
    assert!(app.todos[1].done);
    app.toggle_done(1);
    assert!(!app.todos[1].done);
}

#[test]
fn mark_done_uses_selection() {
    let mut app = App::new();
    app.input_description = "a".to_string();
    app.add_todo(&now()).unwrap();
    app.selected = 0;
    app.mark_done();
    assert!(app.todos[0].done);
}

#[test]
fn filtered_todos_matches_description_and_due_date() {
    let mut app = App::new();
    app.input_description = "Buy Milk".to_string();
    app.add_todo(&now()).unwrap();
    app.input_description = "write essay".to_string();
    app.input_due_date = "2026-12-25".to_string();
    app.add_todo(&now()).unwrap();

    app.search_query = String::new();
    assert_eq!(filtered_todos(&app).len(), 2);

    app.search_query = "milk".to_string();
    let hits = filtered_todos(&app);
    assert_eq!(hits.len(), 1);
    assert_eq!(hits[0].description, "Buy Milk");

    app.search_query = "12-25".to_string();
    let hits = filtered_todos(&app);
    assert_eq!(hits.len(), 1);
    assert_eq!(hits[0].description, "write essay");

    app.search_query = "nothing".to_string();
    assert!(filtered_todos(&app).is_empty());
}

#[test]
fn key_flow_adds_a_todo() {
    let mut app = App::new();
    let n = now();
    assert!(!app.handle_key(KeyInput::Char('a'), &n));
    assert_eq!(app.input_mode, InputMode::EditingDescription);
    type_str(&mut app, "pay rent", &n);
    app.handle_key(KeyInput::Enter, &n);
    assert_eq!(app.input_mode, InputMode::EditingDueDate);
    type_str(&mut app, "tomorrow", &n);
    app.handle_key(KeyInput::Enter, &n);
    assert_eq!(app.input_mode, InputMode::Normal);
    assert_eq!(app.todos.len(), 1);
    assert_eq!(app.todos[0].description, "pay rent");
    assert_eq!(app.todos[0].due_date, Some("2026-10-13".to_string()));
}

#[test]
fn key_flow_reports_bad_due_date() {
    let mut app = App::new();
    let n = now();
    app.handle_key(KeyInput::Char('a'), &n);
    type_str(&mut app, "x", &n);
    app.handle_key(KeyInput::Enter, &n);
    type_str(&mut app, "5 fortnights", &n);
    app.handle_key(KeyInput::Enter, &n);
    assert_eq!(app.input_mode, InputMode::EditingDueDate);
    assert_eq!(app.error_message, Some("Unsupported time unit 'fortnights'".to_string()));
    assert!(app.todos.is_empty());
}

#[test]
fn backspace_edits_inputs() {
    let mut app = App::new();
    let n = now();
    app.handle_key(KeyInput::Char('a'), &n);
    type_str(&mut app, "abc", &n);
    app.handle_key(KeyInput::Backspace, &n);
    assert_eq!(app.input_description, "ab");
    app.handle_key(KeyInput::Backspace, &n);
    app.handle_key(KeyInput::Backspace, &n);
    app.handle_key(KeyInput::Backspace, &n);
    assert_eq!(app.input_description, "");
}

#[test]
fn quit_only_from_normal_mode() {
    let mut app = App::new();
    let n = now();
    assert!(app.handle_key(KeyInput::Char('q'), &n));
    app.handle_key(KeyInput::Char('a'), &n);
    assert!(!app.handle_key(KeyInput::Char('q'), &n));
    assert_eq!(app.input_description, "q");
}

#[test]
fn search_flow_filters_and_resets_selection() {
    let mut app = App::new();
    let n = now();
    for name in ["alpha", "beta"] {
        app.input_description = name.to_string();
        app.add_todo(&n).unwrap();
    }
    app.selected = 1;
    app.handle_key(KeyInput::Char('/'), &n);
    assert_eq!(app.input_mode, InputMode::Searching);
    type_str(&mut app, "alp", &n);
    assert_eq!(app.search_query, "alp");
    assert_eq!(app.selected, 0);
    assert_eq!(filtered_todos(&app).len(), 1);
    app.handle_key(KeyInput::Esc, &n);
    assert_eq!(app.input_mode, InputMode::Normal);
    assert_eq!(app.search_query, "");
}

#[test]
fn selection_moves_within_visible_todos() {
    let mut app = App::new();
    let n = now();
    for name in ["a", "b", "c"] {
        app.input_description = name.to_string();
        app.add_todo(&n).unwrap();
    }
    app.handle_key(KeyInput::Down, &n);
    app.handle_key(KeyInput::Down, &n);
    assert_eq!(app.selected, 2);
    app.handle_key(KeyInput::Down, &n);
    assert_eq!(app.selected, 2);
    app.handle_key(KeyInput::Up, &n);
    assert_eq!(app.selected, 1);
}

#[test]
fn add_todo_from_request_args() {
    let mut app = App::new();
    let n = now();
    let r = add_todo(
        &mut app,
        &AddTodoArgs {
            description: "ship the release".to_string(),
            due_date: Some("in 2 days".to_string()),
        },
        &n,
    );
    assert_eq!(r, Ok(()));
    assert_eq!(app.todos[0].due_date, Some("2026-10-14 15:30".to_string()));

    let r = add_todo(
        &mut app,
        &AddTodoArgs { description: "  ".to_string(), due_date: None },
        &n,
    );
    assert_eq!(r, Err("Description cannot be empty.".to_string()));

    let r = add_todo(
        &mut app,
        &AddTodoArgs {
            description: "x".to_string(),
            due_date: Some("yesterday".to_string()),
        },
        &n,
    );
    assert_eq!(r, Err("Due date cannot be in the past".to_string()));
    assert_eq!(app.todos.len(), 1);
}

#[test]
fn overdue_checks_on_stored_strings() {
    let n = now();
    assert!(is_overdue("2020-01-01", &n));
    assert!(!is_overdue("2199-01-01", &n));
    assert!(is_overdue("2026-10-12 15:29", &n));
    assert!(!is_overdue("2026-10-12 15:30", &n));
    assert!(!is_overdue("No due date", &n));
    assert!(!is_overdue("gibberish", &n));
}

#[test]
fn todo_overdue_reads_the_record() {
    let mut app = App::new();
    let n = now();
    app.todos.push(Todo {
        id: 0,
        description: "late".to_string(),
        done: false,
        created_at: "2020-01-01".to_string(),
        due_date: Some("2020-06-01".to_string()),
    });
    assert!(app.todo_overdue(0, &n));
    assert!(!app.todo_overdue(1, &n));
}

#[test]
fn guard_accepts_future_and_rejects_malformed() {
    let n = now();
    assert_eq!(validate_not_past("2199-01-01", &n), Ok("2199-01-01".to_string()));
    assert_eq!(
        validate_not_past("2026-10-12 15:30", &n),
        Ok("2026-10-12 15:30".to_string())
    );
    assert_eq!(validate_not_past("2020-01-01", &n), Err(ParseError::PastDueDate));
    assert_eq!(validate_not_past("bogus", &n), Err(ParseError::MalformedCandidate));
    assert_eq!(validate_not_past("a b c", &n), Err(ParseError::MalformedCandidate));
}
