use todo_tui::journal::{help_hint, input_title, render_event_kind, App, EventColor, EventKind, Note, Store, Todo};
use todo_tui::journal_model::{Fresh, Stamp, InputTarget, Mode, Pane, SaveRequest};
use todo_tui::keys::{Key, KeyCode};

fn ch(c: char) -> Key {
    Key { code: KeyCode::Char(c), ctrl: false, other_modifiers: false }
}

fn code(k: KeyCode) -> Key {
    Key { code: k, ctrl: false, other_modifiers: false }
}

const T0: Stamp = Stamp { secs: 0, nanos: 0 };
const NOW: Stamp = Stamp { secs: 1_000, nanos: 123_456_789 };
const F: Fresh = Fresh { id: 7, now: NOW };

fn sample() -> App {
    let todos = vec![
        Todo { id: 1, title: "Buy milk".into(), done: false, created_at: T0, deleted_at: None },
        Todo { id: 2, title: "Fix bike".into(), done: true, created_at: T0, deleted_at: None },
    ];
    let notes = vec![Note { id: 3, title: "Ideas".into(), body: "milk shake".into(), created_at: T0, updated_at: T0, deleted_at: None }];
    App::new(Store { todos, notes })
}

fn typed(app: &mut App, text: &str) {
    for c in text.chars() {
        app.step(ch(c), F);
    }
}

#[test]
fn opens_with_welcome() {
    let app = sample();
    assert_eq!(app.status, "welcome — :help for commands, :q to quit");
    assert_eq!(app.mode, Mode::Normal);
}

#[test]
fn add_todo_creates_and_asks_to_save() {
    let mut app = sample();
    app.step(ch('i'), F);
    assert_eq!(app.input_target, Some(InputTarget::NewTodo));
    typed(&mut app, " Call mum ");
    let r = app.step(code(KeyCode::Enter), F);
    assert_eq!(r, SaveRequest::Save { report_failure: false });
    assert_eq!(app.store.todos.len(), 3);
    assert_eq!(app.store.todos[2].title, "Call mum");
    assert_eq!(app.store.todos[2].id, 7);
    assert_eq!(app.store.todos[2].created_at, NOW);
    assert_eq!(app.todo_index, 2);
    assert_eq!(app.status, "todo added");
}

#[test]
fn toggle_reports_failed_write() {
    let mut app = sample();
    let r = app.step(ch('x'), F);
    assert_eq!(r, SaveRequest::Save { report_failure: true });
    assert!(app.store.todos[0].done);
    app.save_outcome(true, Err("disk full".into()));
    assert_eq!(app.status, "save failed: disk full");
    app.step(ch('x'), F);
    assert!(!app.store.todos[0].done);
}

#[test]
fn delete_with_dd() {
    let mut app = sample();
    assert_eq!(app.step(ch('d'), F), SaveRequest::NoSave);
    assert_eq!(app.step(ch('d'), F), SaveRequest::Save { report_failure: false });
    assert_eq!(app.store.todos.len(), 1);
    assert_eq!(app.status, "todo deleted");
}

#[test]
fn filter_by_title_for_todos_and_body_for_notes() {
    let mut app = sample();
    app.step(ch('/'), F);
    typed(&mut app, "MILK");
    assert_eq!(app.visible_todo_indices(), vec![0]);
    assert_eq!(app.visible_note_indices(), vec![0]);
    app.step(code(KeyCode::Esc), F);
    assert_eq!(app.filter, "");
    assert_eq!(app.visible_todo_indices(), vec![0, 1]);
}

#[test]
fn edit_note_and_save_with_escape() {
    let mut app = sample();
    app.step(ch('l'), F);
    assert_eq!(app.focus, Pane::Notes);
    app.step(ch('e'), F);
    assert_eq!(app.mode, Mode::NoteEdit);
    assert_eq!(app.status, "editing note — Esc to save");
    typed(&mut app, "!");
    app.step(code(KeyCode::Enter), F);
    app.step(code(KeyCode::Tab), F);
    let r = app.step(code(KeyCode::Esc), F);
    assert_eq!(r, SaveRequest::Save { report_failure: false });
    assert_eq!(app.store.notes[0].body, "milk shake!\n    ");
    assert_eq!(app.store.notes[0].updated_at, NOW);
    assert_eq!(app.status, "note saved");
}

#[test]
fn commands() {
    let mut app = sample();
    app.step(ch(':'), F);
    typed(&mut app, "w");
    assert_eq!(app.step(code(KeyCode::Enter), F), SaveRequest::Save { report_failure: false });
    assert_eq!(app.status, "saved");
    app.step(ch(':'), F);
    typed(&mut app, "new Read book");
    app.step(code(KeyCode::Enter), F);
    assert_eq!(app.store.todos.len(), 3);
    app.step(ch(':'), F);
    typed(&mut app, "help");
    app.step(code(KeyCode::Enter), F);
    assert_eq!(app.status, "keys: hjkl move/switch | i add | dd delete | x toggle | / filter | : cmd | e edit note");
    app.step(ch(':'), F);
    typed(&mut app, "quit");
    app.step(code(KeyCode::Enter), F);
    assert!(app.should_quit);
}

#[test]
fn event_lines() {
    let (l, c, d) = render_event_kind(&EventKind::TodoCreated { id: 1, title: "x".into() });
    assert_eq!((l.as_str(), c, d.as_str()), ("TODO CREATED", EventColor::Green, "\"x\""));
    let (l, c, d) = render_event_kind(&EventKind::TodoToggled { id: 1, done: true });
    assert_eq!((l.as_str(), c, d.as_str()), ("TODO TOGGLED", EventColor::Blue, "done=true"));
    let (_, _, d) = render_event_kind(&EventKind::NoteEdited { id: 1, body: "héllo".into() });
    assert_eq!(d, "5 chars");
    let (l, c, d) = render_event_kind(&EventKind::NoteDeleted { id: 1 });
    assert_eq!((l.as_str(), c, d.as_str()), ("NOTE DELETED", EventColor::Red, ""));
}

#[test]
fn key_presses_draw_fresh_identities() {
    let mut app = sample();
    app.handle_key(ch('i'));
    for c in "Water plants".chars() {
        app.handle_key(ch(c));
    }
    let r = app.handle_key(code(KeyCode::Enter));
    assert_eq!(r, SaveRequest::Save { report_failure: false });
    assert_eq!(app.store.todos.len(), 3);
    assert_eq!(app.store.todos[2].title, "Water plants");
    assert!(!app.store.todos[2].done);
    assert!(app.store.todos[2].created_at.secs > 1_600_000_000);
    // a version-4 UUID carries the version in bits 76..80
    assert_eq!((app.store.todos[2].id >> 76) & 0xf, 4);
}

#[test]
fn new_items_start_empty_and_distinct() {
    let a = Todo::new("one".to_string());
    let b = Todo::new("two".to_string());
    assert_ne!(a.id, b.id);
    assert!(!a.done);
    assert_eq!(a.deleted_at, None);
    let n = Note::new("idea".to_string());
    assert_eq!(n.body, "");
    assert_eq!(n.created_at, n.updated_at);
}

#[test]
fn input_titles_and_hints() {
    assert_eq!(input_title(Some(InputTarget::RenameNote)), "Rename note");
    assert_eq!(input_title(None), "Input");
    assert_eq!(help_hint(Mode::Input), "Enter confirm  Esc cancel");
}

#[test]
fn drawn_ids_are_version_4_uuids() {
    let f = Fresh::draw();
    assert_eq!((f.id >> 76) & 0xf, 4);
    assert_eq!((f.id >> 62) & 0x3, 2);
}
