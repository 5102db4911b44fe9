use todo_tui::keys::{Key, KeyCode};
use todo_tui::tui::{App, Note, Request, Switched, Todo};
use todo_tui::tui_model::{InputTarget, Mode, Pane};

fn ch(c: char) -> Key {
    Key { code: KeyCode::Char(c), ctrl: false, other_modifiers: false }
}

fn code(k: KeyCode) -> Key {
    Key { code: k, ctrl: false, other_modifiers: false }
}

fn todo(slug: &str, title: &str, body: &str) -> Todo {
    Todo {
        slug: slug.to_string(),
        title: title.to_string(),
        description: String::new(),
        body: body.to_string(),
        done: false,
        created_at: "2026-04-25T10:00:00+00:00".to_string(),
        deleted_at: None,
    }
}

fn note(slug: &str, title: &str, body: &str) -> Note {
    Note {
        slug: slug.to_string(),
        title: title.to_string(),
        description: String::new(),
        body: body.to_string(),
        created_at: "2026-04-25T10:00:00+00:00".to_string(),
        deleted_at: None,
    }
}

fn sample() -> App {
    App::bootstrap(
        "inbox".to_string(),
        vec!["inbox".to_string(), "work".to_string()],
        vec![todo("buy_milk", "Buy milk", ""), todo("call_mum", "Call Mum", "Sunday"), todo("fix_bike", "Fix bike", "")],
        vec![note("ideas", "Ideas", "milk shake")],
        0,
    )
}

fn typed(app: &mut App, text: &str) -> Request {
    let mut last = Request::Nothing;
    for c in text.chars() {
        last = app.handle_key(ch(c));
    }
    last
}

#[test]
fn bootstrap_status_and_selection() {
    let app = sample();
    assert_eq!(app.status, "welcome — [inbox]  :help for commands, :q to quit");
    assert_eq!(app.context_index, 0);
    assert_eq!(app.mode, Mode::Normal);
    let app = App::bootstrap("work".into(), vec!["inbox".into(), "work".into()], vec![], vec![], 2);
    assert_eq!(app.status, "2 item(s) could not be loaded — check CONTENT.md files in [work]");
    assert_eq!(app.context_index, 1);
}

#[test]
fn filter_matches_title_description_and_body_case_insensitively() {
    let mut app = sample();
    app.handle_key(ch('/'));
    typed(&mut app, "MILK");
    assert_eq!(app.visible_todo_indices(), vec![0]);
    assert_eq!(app.visible_note_indices(), vec![0]);
    app.filter = "sunday".into();
    assert_eq!(app.visible_todo_indices(), vec![1]);
}

#[test]
fn search_escape_restores_previous_filter() {
    let mut app = sample();
    app.handle_key(ch('/'));
    typed(&mut app, "bike");
    app.handle_key(code(KeyCode::Enter));
    assert_eq!(app.status, "filter: bike");
    assert_eq!(app.todo_index, 2);
    app.handle_key(ch('/'));
    typed(&mut app, "zzz");
    app.handle_key(code(KeyCode::Esc));
    assert_eq!(app.filter, "bike");
    assert_eq!(app.status, "search cancelled");
    assert_eq!(app.mode, Mode::Normal);
}

#[test]
fn j_k_g_move_through_shown_items() {
    let mut app = sample();
    app.handle_key(ch('j'));
    assert_eq!(app.todo_index, 1);
    app.handle_key(ch('j'));
    app.handle_key(ch('j'));
    assert_eq!(app.todo_index, 2);
    app.handle_key(ch('g'));
    app.handle_key(ch('g'));
    assert_eq!(app.todo_index, 0);
    app.handle_key(ch('G'));
    assert_eq!(app.todo_index, 2);
    app.handle_key(ch('k'));
    assert_eq!(app.todo_index, 1);
}

#[test]
fn dd_asks_to_delete_and_outcome_removes() {
    let mut app = sample();
    app.handle_key(ch('j'));
    assert!(matches!(app.handle_key(ch('d')), Request::Nothing));
    match app.handle_key(ch('d')) {
        Request::DeleteTodo { index, slug } => {
            assert_eq!(index, 1);
            assert_eq!(slug, "call_mum");
            app.todo_deleted(index, Ok(()));
        }
        _ => panic!("expected a delete request"),
    }
    assert_eq!(app.todos.len(), 2);
    assert_eq!(app.status, "todo deleted");
    assert_eq!(app.todos[1].slug, "fix_bike");
}

#[test]
fn toggle_asks_store_and_applies_result() {
    let mut app = sample();
    match app.handle_key(ch('x')) {
        Request::SetTodoDone { index, slug, done } => {
            assert_eq!((index, slug.as_str(), done), (0, "buy_milk", true));
            let mut t = todo("buy_milk", "Buy milk", "");
            t.done = true;
            app.todo_done_set(index, Ok(t));
        }
        _ => panic!("expected a toggle request"),
    }
    assert!(app.todos[0].done);
    match app.handle_key(ch('x')) {
        Request::SetTodoDone { index, .. } => app.todo_done_set(index, Err("disk full".into())),
        _ => panic!("expected a toggle request"),
    }
    assert_eq!(app.status, "error: disk full");
}

#[test]
fn new_todo_through_input_box() {
    let mut app = sample();
    app.handle_key(ch('i'));
    assert_eq!(app.mode, Mode::Input);
    assert_eq!(app.input_target, Some(InputTarget::NewTodo));
    typed(&mut app, "  Write tests ");
    match app.handle_key(code(KeyCode::Enter)) {
        Request::CreateTodo { title } => {
            assert_eq!(title, "Write tests");
            app.todo_created(Ok(todo("write_tests", "Write tests", "")));
        }
        _ => panic!("expected a create request"),
    }
    assert_eq!(app.todos.len(), 4);
    assert_eq!(app.todo_index, 3);
    assert_eq!(app.status, "todo added");
}

#[test]
fn blank_input_is_cancelled() {
    let mut app = sample();
    app.handle_key(ch('a'));
    typed(&mut app, "   ");
    assert!(matches!(app.handle_key(code(KeyCode::Enter)), Request::Nothing));
    assert_eq!(app.status, "cancelled (empty)");
}

#[test]
fn rename_prefills_title() {
    let mut app = sample();
    app.handle_key(ch('r'));
    assert_eq!(app.input_buffer, "Buy milk");
    assert_eq!(app.input_target, Some(InputTarget::RenameTodo));
    typed(&mut app, "!");
    match app.handle_key(code(KeyCode::Enter)) {
        Request::RenameTodo { index, slug, title } => {
            assert_eq!((index, slug.as_str(), title.as_str()), (0, "buy_milk", "Buy milk!"));
        }
        _ => panic!("expected a rename request"),
    }
}

#[test]
fn command_line_runs_commands() {
    let mut app = sample();
    app.handle_key(ch(':'));
    typed(&mut app, "notes");
    app.handle_key(code(KeyCode::Enter));
    assert_eq!(app.focus, Pane::Notes);
    assert_eq!(app.status, "focus: notes");
    app.handle_key(ch(':'));
    typed(&mut app, "bogus arg");
    app.handle_key(code(KeyCode::Enter));
    assert_eq!(app.status, "unknown command: bogus");
    app.handle_key(ch(':'));
    typed(&mut app, "ctx new Side Project");
    match app.handle_key(code(KeyCode::Enter)) {
        Request::CreateContext { name } => assert_eq!(name, "Side Project"),
        _ => panic!("expected a context request"),
    }
    app.handle_key(ch(':'));
    typed(&mut app, "reload");
    assert!(matches!(app.handle_key(code(KeyCode::Enter)), Request::Reload));
    app.handle_key(ch(':'));
    typed(&mut app, "q");
    app.handle_key(code(KeyCode::Enter));
    assert!(app.should_quit);
}

#[test]
fn completion_suggestions_shortest_first() {
    let mut app = sample();
    app.handle_key(ch(':'));
    typed(&mut app, "no");
    assert_eq!(app.suggestions, vec!["noh", "note", "notes", "nofilter", "nohlsearch"]);
    app.handle_key(code(KeyCode::Down));
    assert_eq!(app.suggestion_index, 1);
    app.handle_key(code(KeyCode::Tab));
    assert_eq!(app.command_buffer, "note");
    assert_eq!(app.suggestions, vec!["notes"]);
    app.handle_key(code(KeyCode::Esc));
    assert!(app.suggestions.is_empty());
    app.handle_key(ch(':'));
    typed(&mut app, "CTX W");
    assert_eq!(app.suggestions, vec!["ctx work"]);
}

#[test]
fn cycle_and_switch_context() {
    let mut app = sample();
    app.handle_key(ch('c'));
    match app.handle_key(ch('c')) {
        Request::SwitchContext { slug } => {
            assert_eq!(slug, "work");
            app.context_switched(Ok(Switched {
                context: "work".into(),
                todos: vec![],
                notes: vec![],
                skipped: 1,
            }));
        }
        _ => panic!("expected a switch request"),
    }
    assert_eq!(app.context, "work");
    assert_eq!(app.context_index, 1);
    assert_eq!(app.status, "switched to [work] — 1 item(s) could not be loaded");
    app.context_switched(Ok(Switched { context: "alpha".into(), todos: vec![], notes: vec![], skipped: 0 }));
    assert_eq!(app.contexts, vec!["alpha", "inbox", "work"]);
    assert_eq!(app.context_index, 0);
    assert_eq!(app.status, "switched to [alpha]");
}

#[test]
fn context_browser_navigation() {
    let mut app = sample();
    app.handle_key(ch('C'));
    assert_eq!(app.mode, Mode::ContextBrowser);
    app.handle_key(ch('j'));
    app.handle_key(ch('j'));
    assert_eq!(app.context_index, 1);
    match app.handle_key(code(KeyCode::Enter)) {
        Request::SwitchContext { slug } => assert_eq!(slug, "work"),
        _ => panic!("expected a switch request"),
    }
    assert_eq!(app.mode, Mode::Normal);
}

#[test]
fn editing_a_note_body_saves_only_changes() {
    let mut app = sample();
    app.handle_key(ch('l'));
    app.handle_key(ch('e'));
    assert_eq!(app.mode, Mode::NoteEdit);
    typed(&mut app, ":w");
    assert!(matches!(app.handle_key(code(KeyCode::Enter)), Request::Nothing));
    assert_eq!(app.status, "note unchanged");
    assert_eq!(app.mode, Mode::Normal);
    app.handle_key(ch('e'));
    typed(&mut app, "A!");
    app.handle_key(code(KeyCode::Esc));
    typed(&mut app, ":wq");
    match app.handle_key(code(KeyCode::Enter)) {
        Request::SaveNoteBody { index, slug, body } => {
            assert_eq!((index, slug.as_str(), body.as_str()), (0, "ideas", "milk shake!"));
            app.note_body_saved(index, Ok(note("ideas", "Ideas", "milk shake!")));
        }
        _ => panic!("expected a save request"),
    }
    assert_eq!(app.status, "note saved");
    assert_eq!(app.notes[0].body, "milk shake!");
}

#[test]
fn reload_outcomes() {
    let mut app = sample();
    app.reloaded(Err("no dir".into()), Ok((vec![], 0)), Ok((vec![], 0)));
    assert_eq!(app.status, "reload error: no dir");
    app.reloaded(Ok(vec!["inbox".into()]), Ok((vec![todo("a", "A", "")], 1)), Ok((vec![], 2)));
    assert_eq!(app.status, "reloaded — 3 item(s) could not be parsed");
    assert_eq!(app.todos.len(), 1);
    app.reloaded(Ok(vec!["inbox".into()]), Ok((vec![], 0)), Ok((vec![], 0)));
    assert_eq!(app.status, "reloaded");
}

#[test]
fn tab_twice_returns_focus_and_jumps_respect_filter() {
    let mut app = sample();
    assert_eq!(app.focus, Pane::Todos);
    assert!(matches!(app.handle_key(code(KeyCode::Tab)), Request::Nothing));
    assert_eq!(app.focus, Pane::Notes);
    app.handle_key(code(KeyCode::Tab));
    assert_eq!(app.focus, Pane::Todos);
    typed(&mut app, "/b");
    app.handle_key(code(KeyCode::Enter));
    assert_eq!(app.visible_todo_indices(), vec![0, 2]);
    app.handle_key(ch('G'));
    assert_eq!(app.todo_index, 2);
    typed(&mut app, "gg");
    assert_eq!(app.todo_index, 0);
}
