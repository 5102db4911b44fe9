//! The single-file todo and notes browser (items kept in one JSON store,
//! changes logged as events) as a state machine: what each key press does
//! to its state, and when the store must be written.
use vstd::prelude::*;

use crate::keys::{Key, KeyCode};
use crate::text::{lowercase, trim};
use crate::tui_model::{contains_text, head_word, position_of, rest_words, decimal};

verus! {

/// The list that has the focus.
#[derive(Clone, Copy, PartialEq, Eq, Debug, Structural)]
pub enum Pane {
    Todos,
    Notes,
}

/// What the keyboard is driving.
#[derive(Clone, Copy, PartialEq, Eq, Debug, Structural)]
pub enum Mode {
    Normal,
    Command,
    Search,
    Input,
    NoteView,
    NoteEdit,
}

/// What the one-line input box will be used for.
#[derive(Clone, Copy, PartialEq, Eq, Debug, Structural)]
pub enum InputTarget {
    NewTodo,
    NewNote,
    RenameTodo,
    RenameNote,
}

/// A point in time: whole seconds since the Unix epoch and the
/// nanoseconds past them.
#[derive(Clone, Copy, PartialEq, Eq, Debug, Structural)]
pub struct Stamp {
    pub secs: i64,
    pub nanos: u32,
}

/// A todo of the store.
pub struct JTodoView {
    pub id: u128,
    pub title: Seq<char>,
    pub done: bool,
    pub created_at: Stamp,
    pub deleted_at: Option<Stamp>,
}

/// A note of the store.
pub struct JNoteView {
    pub id: u128,
    pub title: Seq<char>,
    pub body: Seq<char>,
    pub created_at: Stamp,
    pub updated_at: Stamp,
    pub deleted_at: Option<Stamp>,
}

/// The browser's whole state.
pub struct JAppView {
    pub todos: Seq<JTodoView>,
    pub notes: Seq<JNoteView>,
    pub focus: Pane,
    pub mode: Mode,
    pub todo_index: usize,
    pub note_index: usize,
    pub status: Seq<char>,
    pub command_buffer: Seq<char>,
    pub input_buffer: Seq<char>,
    pub input_target: Option<InputTarget>,
    pub filter: Seq<char>,
    pub filter_backup: Seq<char>,
    pub note_buffer: Seq<char>,
    pub editing_note_index: Option<usize>,
    pub should_quit: bool,
    pub pending_d: bool,
    pub pending_g: bool,
}

/// Whether a step changed the store, so that it must be written; and
/// whether a failed write should then be reported on the status line (no
/// later message of the step replaced it).
#[derive(Clone, Copy, PartialEq, Eq, Debug, Structural)]
pub enum SaveRequest {
    NoSave,
    Save { report_failure: bool },
}

/// The identity and time a new item gets, when a step creates one.
#[derive(Clone, Copy, PartialEq, Eq, Debug, Structural)]
pub struct Fresh {
    pub id: u128,
    pub now: Stamp,
}

pub open spec fn keep(s: JAppView) -> (JAppView, SaveRequest) {
    (s, SaveRequest::NoSave)
}

pub open spec fn saved(s: JAppView) -> (JAppView, SaveRequest) {
    (s, SaveRequest::Save { report_failure: false })
}

// ---------------------------------------------------------------------------
// Which items the filter shows
// ---------------------------------------------------------------------------

pub open spec fn todo_shown(s: JAppView, i: int) -> bool {
    s.filter.len() == 0 || contains_text(lowercase(s.todos[i].title), lowercase(s.filter))
}

pub open spec fn note_shown(s: JAppView, i: int) -> bool {
    ||| s.filter.len() == 0
    ||| contains_text(lowercase(s.notes[i].title), lowercase(s.filter))
    ||| contains_text(lowercase(s.notes[i].body), lowercase(s.filter))
}

pub open spec fn visible_todos_below(s: JAppView, n: int) -> Seq<usize>
    decreases n,
{
    if n <= 0 {
        seq![]
    } else if todo_shown(s, n - 1) {
        visible_todos_below(s, n - 1).push((n - 1) as usize)
    } else {
        visible_todos_below(s, n - 1)
    }
}

pub open spec fn visible_notes_below(s: JAppView, n: int) -> Seq<usize>
    decreases n,
{
    if n <= 0 {
        seq![]
    } else if note_shown(s, n - 1) {
        visible_notes_below(s, n - 1).push((n - 1) as usize)
    } else {
        visible_notes_below(s, n - 1)
    }
}

pub open spec fn visible_todos(s: JAppView) -> Seq<usize> {
    visible_todos_below(s, s.todos.len() as int)
}

pub open spec fn visible_notes(s: JAppView) -> Seq<usize> {
    visible_notes_below(s, s.notes.len() as int)
}

pub open spec fn visible_of(s: JAppView, p: Pane) -> Seq<usize> {
    match p {
        Pane::Todos => visible_todos(s),
        Pane::Notes => visible_notes(s),
    }
}

pub open spec fn snap(s: JAppView) -> JAppView {
    let tv = visible_todos(s);
    let nv = visible_notes(s);
    JAppView {
        todo_index: if tv.contains(s.todo_index) {
            s.todo_index
        } else if tv.len() > 0 {
            tv[0]
        } else {
            0
        },
        note_index: if nv.contains(s.note_index) {
            s.note_index
        } else if nv.len() > 0 {
            nv[0]
        } else {
            0
        },
        ..s
    }
}

pub open spec fn current_index(s: JAppView) -> usize {
    match s.focus {
        Pane::Todos => s.todo_index,
        Pane::Notes => s.note_index,
    }
}

pub open spec fn set_index(s: JAppView, i: usize) -> JAppView {
    match s.focus {
        Pane::Todos => JAppView { todo_index: i, ..s },
        Pane::Notes => JAppView { note_index: i, ..s },
    }
}

pub open spec fn move_selection(s: JAppView, down: bool) -> JAppView {
    let v = visible_of(s, s.focus);
    if v.len() == 0 {
        s
    } else {
        let pos = match position_of(v, current_index(s)) {
            Some(p) => p,
            None => 0,
        };
        let np = if down {
            if pos + 1 < v.len() {
                pos + 1
            } else {
                v.len() - 1
            }
        } else if pos > 0 {
            pos - 1
        } else {
            0
        };
        set_index(s, v[np])
    }
}

// ---------------------------------------------------------------------------
// Actions
// ---------------------------------------------------------------------------

pub open spec fn start_input(s: JAppView, t: InputTarget) -> JAppView {
    JAppView { input_buffer: seq![], input_target: Some(t), mode: Mode::Input, ..s }
}

pub open spec fn new_item_target(p: Pane) -> InputTarget {
    match p {
        Pane::Todos => InputTarget::NewTodo,
        Pane::Notes => InputTarget::NewNote,
    }
}

pub open spec fn new_todo(title: Seq<char>, f: Fresh) -> JTodoView {
    JTodoView { id: f.id, title, done: false, created_at: f.now, deleted_at: None }
}

pub open spec fn new_note(title: Seq<char>, f: Fresh) -> JNoteView {
    JNoteView { id: f.id, title, body: seq![], created_at: f.now, updated_at: f.now, deleted_at: None }
}

pub open spec fn commit_input(s: JAppView, t: InputTarget, value: Seq<char>, f: Fresh) -> (JAppView, SaveRequest) {
    let v = trim(value);
    if v.len() == 0 {
        keep(JAppView { status: "cancelled (empty)"@, ..s })
    } else {
        match t {
            InputTarget::NewTodo => saved(
                JAppView {
                    todos: s.todos.push(new_todo(v, f)),
                    todo_index: s.todos.len() as usize,
                    focus: Pane::Todos,
                    status: "todo added"@,
                    ..s
                },
            ),
            InputTarget::NewNote => saved(
                JAppView {
                    notes: s.notes.push(new_note(v, f)),
                    note_index: s.notes.len() as usize,
                    focus: Pane::Notes,
                    status: "note added"@,
                    ..s
                },
            ),
            InputTarget::RenameTodo => if s.todo_index < s.todos.len() {
                let t = s.todos[s.todo_index as int];
                saved(
                    JAppView {
                        todos: s.todos.update(s.todo_index as int, JTodoView { title: v, ..t }),
                        status: "todo renamed"@,
                        ..s
                    },
                )
            } else {
                keep(s)
            },
            InputTarget::RenameNote => if s.note_index < s.notes.len() {
                let n = s.notes[s.note_index as int];
                saved(
                    JAppView {
                        notes: s.notes.update(s.note_index as int, JNoteView { title: v, updated_at: f.now, ..n }),
                        status: "note renamed"@,
                        ..s
                    },
                )
            } else {
                keep(s)
            },
        }
    }
}

pub open spec fn delete_current(s: JAppView) -> (JAppView, SaveRequest) {
    match s.focus {
        Pane::Todos => if s.todo_index < s.todos.len() {
            saved(
                JAppView { status: "todo deleted"@, ..snap(JAppView { todos: s.todos.remove(s.todo_index as int), ..s }) },
            )
        } else {
            keep(s)
        },
        Pane::Notes => if s.note_index < s.notes.len() {
            saved(
                JAppView { status: "note deleted"@, ..snap(JAppView { notes: s.notes.remove(s.note_index as int), ..s }) },
            )
        } else {
            keep(s)
        },
    }
}

/// Toggling a todo writes the store and shows a failed write.
pub open spec fn toggle_done(s: JAppView) -> (JAppView, SaveRequest) {
    if s.todo_index < s.todos.len() {
        let t = s.todos[s.todo_index as int];
        (
            JAppView { todos: s.todos.update(s.todo_index as int, JTodoView { done: !t.done, ..t }), ..s },
            SaveRequest::Save { report_failure: true },
        )
    } else {
        keep(s)
    }
}

pub open spec fn open_note_view(s: JAppView) -> JAppView {
    if s.note_index < s.notes.len() {
        JAppView { mode: Mode::NoteView, ..s }
    } else {
        s
    }
}

pub open spec fn open_note_edit(s: JAppView) -> JAppView {
    if s.note_index < s.notes.len() {
        JAppView {
            note_buffer: s.notes[s.note_index as int].body,
            editing_note_index: Some(s.note_index),
            mode: Mode::NoteEdit,
            status: "editing note — Esc to save"@,
            ..s
        }
    } else {
        s
    }
}

pub open spec fn help_text() -> Seq<char> {
    "keys: hjkl move/switch | i add | dd delete | x toggle | / filter | : cmd | e edit note"@
}

pub open spec fn run_command(s: JAppView, cmd: Seq<char>, f: Fresh) -> (JAppView, SaveRequest) {
    if cmd.len() == 0 {
        keep(s)
    } else {
        let head = head_word(cmd);
        let rest = rest_words(cmd);
        if head == "q"@ || head == "quit"@ || head == "wq"@ || head == "x"@ {
            keep(JAppView { should_quit: true, ..s })
        } else if head == "w"@ || head == "write"@ {
            saved(JAppView { status: "saved"@, ..s })
        } else if head == "todo"@ || head == "todos"@ {
            keep(JAppView { focus: Pane::Todos, status: "focus: todos"@, ..s })
        } else if head == "note"@ || head == "notes"@ {
            keep(JAppView { focus: Pane::Notes, status: "focus: notes"@, ..s })
        } else if head == "new"@ {
            if rest.len() == 0 {
                keep(start_input(s, new_item_target(s.focus)))
            } else {
                commit_input(s, new_item_target(s.focus), rest, f)
            }
        } else if head == "delete"@ || head == "rm"@ {
            delete_current(s)
        } else if head == "toggle"@ {
            toggle_done(s)
        } else if head == "clear"@ || head == "nofilter"@ || head == "noh"@ || head == "nohlsearch"@ {
            keep(JAppView { status: "filter cleared"@, ..snap(JAppView { filter: seq![], ..s }) })
        } else if head == "help"@ || head == "h"@ {
            keep(JAppView { status: help_text(), ..s })
        } else {
            keep(JAppView { status: "unknown command: "@ + head, ..s })
        }
    }
}

// ---------------------------------------------------------------------------
// Key handlers
// ---------------------------------------------------------------------------

pub open spec fn handle_normal(s0: JAppView, k: Key) -> (JAppView, SaveRequest) {
    let pd = s0.pending_d;
    let pg = s0.pending_g;
    let s = JAppView { pending_d: false, pending_g: false, ..s0 };
    match k.code {
        KeyCode::Char('q') if k.spec_plain() => keep(JAppView { should_quit: true, ..s }),
        KeyCode::Char('c') if k.spec_ctrl_only() => keep(JAppView { should_quit: true, ..s }),
        KeyCode::Esc => if s.filter.len() > 0 {
            keep(JAppView { status: "filter cleared"@, ..snap(JAppView { filter: seq![], ..s }) })
        } else {
            keep(s)
        },
        KeyCode::Char(':') => keep(JAppView { mode: Mode::Command, command_buffer: seq![], ..s }),
        KeyCode::Char('/') => keep(snap(JAppView { filter_backup: s.filter, filter: seq![], mode: Mode::Search, ..s })),
        KeyCode::Char('h') | KeyCode::Left => keep(JAppView { focus: Pane::Todos, ..s }),
        KeyCode::Char('l') | KeyCode::Right => keep(JAppView { focus: Pane::Notes, ..s }),
        KeyCode::Char('j') | KeyCode::Down => keep(move_selection(s, true)),
        KeyCode::Char('k') | KeyCode::Up => keep(move_selection(s, false)),
        KeyCode::Char('g') => if pg {
            let v = visible_of(s, s.focus);
            if v.len() > 0 {
                keep(set_index(s, v[0]))
            } else {
                keep(s)
            }
        } else {
            keep(JAppView { pending_g: true, ..s })
        },
        KeyCode::Char('G') => {
            let v = visible_of(s, s.focus);
            if v.len() > 0 {
                keep(set_index(s, v.last()))
            } else {
                keep(s)
            }
        },
        KeyCode::Char('i') | KeyCode::Char('a') | KeyCode::Char('o') => keep(start_input(s, new_item_target(s.focus))),
        KeyCode::Char('r') => match s.focus {
            Pane::Todos => if s.todo_index < s.todos.len() {
                keep(
                    JAppView {
                        input_buffer: s.todos[s.todo_index as int].title,
                        input_target: Some(InputTarget::RenameTodo),
                        mode: Mode::Input,
                        ..s
                    },
                )
            } else {
                keep(s)
            },
            Pane::Notes => if s.note_index < s.notes.len() {
                keep(
                    JAppView {
                        input_buffer: s.notes[s.note_index as int].title,
                        input_target: Some(InputTarget::RenameNote),
                        mode: Mode::Input,
                        ..s
                    },
                )
            } else {
                keep(s)
            },
        },
        KeyCode::Char('d') => if pd {
            delete_current(s)
        } else {
            keep(JAppView { pending_d: true, ..s })
        },
        KeyCode::Char('x') | KeyCode::Char(' ') => if s.focus == Pane::Todos {
            toggle_done(s)
        } else {
            keep(s)
        },
        KeyCode::Enter => match s.focus {
            Pane::Todos => toggle_done(s),
            Pane::Notes => keep(open_note_view(s)),
        },
        KeyCode::Char('e') => if s.focus == Pane::Notes {
            keep(open_note_edit(s))
        } else {
            keep(s)
        },
        KeyCode::Tab => keep(
            JAppView {
                focus: match s.focus {
                    Pane::Todos => Pane::Notes,
                    Pane::Notes => Pane::Todos,
                },
                ..s
            },
        ),
        _ => keep(s),
    }
}

pub open spec fn drop_last_char(s: Seq<char>) -> Seq<char> {
    if s.len() > 0 {
        s.drop_last()
    } else {
        s
    }
}

pub open spec fn handle_command(s: JAppView, k: Key, f: Fresh) -> (JAppView, SaveRequest) {
    match k.code {
        KeyCode::Esc => keep(JAppView { mode: Mode::Normal, command_buffer: seq![], ..s }),
        KeyCode::Enter => run_command(JAppView { command_buffer: seq![], mode: Mode::Normal, ..s }, trim(s.command_buffer), f),
        KeyCode::Backspace => keep(JAppView { command_buffer: drop_last_char(s.command_buffer), ..s }),
        KeyCode::Char(c) if !k.ctrl => keep(JAppView { command_buffer: s.command_buffer.push(c), ..s }),
        _ => keep(s),
    }
}

pub open spec fn handle_search(s: JAppView, k: Key) -> JAppView {
    match k.code {
        KeyCode::Esc => JAppView {
            mode: Mode::Normal,
            status: "search cancelled"@,
            ..snap(JAppView { filter: s.filter_backup, filter_backup: seq![], ..s })
        },
        KeyCode::Enter => JAppView {
            filter_backup: seq![],
            mode: Mode::Normal,
            status: if s.filter.len() == 0 {
                "filter cleared"@
            } else {
                "filter: "@ + s.filter
            },
            ..s
        },
        KeyCode::Backspace => snap(JAppView { filter: drop_last_char(s.filter), ..s }),
        KeyCode::Char(c) if !k.ctrl => snap(JAppView { filter: s.filter.push(c), ..s }),
        _ => s,
    }
}

pub open spec fn handle_input(s: JAppView, k: Key, f: Fresh) -> (JAppView, SaveRequest) {
    match k.code {
        KeyCode::Esc => keep(JAppView { mode: Mode::Normal, input_buffer: seq![], input_target: None, ..s }),
        KeyCode::Enter => {
            let s1 = JAppView { input_buffer: seq![], input_target: None, mode: Mode::Normal, ..s };
            match s.input_target {
                Some(t) => commit_input(s1, t, s.input_buffer, f),
                None => keep(s1),
            }
        },
        KeyCode::Backspace => keep(JAppView { input_buffer: drop_last_char(s.input_buffer), ..s }),
        KeyCode::Char(c) if !k.ctrl => keep(JAppView { input_buffer: s.input_buffer.push(c), ..s }),
        _ => keep(s),
    }
}

pub open spec fn handle_note_view(s: JAppView, k: Key) -> JAppView {
    match k.code {
        KeyCode::Esc | KeyCode::Char('q') | KeyCode::Enter => JAppView { mode: Mode::Normal, ..s },
        KeyCode::Char('e') => open_note_edit(s),
        _ => s,
    }
}

/// The note editor: Esc stores the buffer into the note being edited
/// (stamping its update time) and writes the store.
pub open spec fn handle_note_edit(s: JAppView, k: Key, f: Fresh) -> (JAppView, SaveRequest) {
    match k.code {
        KeyCode::Esc => {
            let s1 = match s.editing_note_index {
                None => s,
                Some(idx) => {
                    let s2 = JAppView { editing_note_index: None, ..s };
                    if idx < s.notes.len() {
                        let n = s.notes[idx as int];
                        JAppView {
                            notes: s.notes.update(idx as int, JNoteView { body: s.note_buffer, updated_at: f.now, ..n }),
                            note_buffer: seq![],
                            ..s2
                        }
                    } else {
                        s2
                    }
                },
            };
            saved(JAppView { mode: Mode::Normal, status: "note saved"@, ..s1 })
        },
        KeyCode::Enter => keep(JAppView { note_buffer: s.note_buffer.push('\n'), ..s }),
        KeyCode::Tab => keep(JAppView { note_buffer: s.note_buffer + "    "@, ..s }),
        KeyCode::Backspace => keep(JAppView { note_buffer: drop_last_char(s.note_buffer), ..s }),
        KeyCode::Char(c) if !k.ctrl => keep(JAppView { note_buffer: s.note_buffer.push(c), ..s }),
        _ => keep(s),
    }
}

/// One key press, given the identity and time a created item would get.
pub open spec fn handle_key(s: JAppView, k: Key, f: Fresh) -> (JAppView, SaveRequest) {
    match s.mode {
        Mode::Normal => handle_normal(s, k),
        Mode::Command => handle_command(s, k, f),
        Mode::Search => keep(handle_search(s, k)),
        Mode::Input => handle_input(s, k, f),
        Mode::NoteView => keep(handle_note_view(s, k)),
        Mode::NoteEdit => handle_note_edit(s, k, f),
    }
}

/// A failed write, when the step's own message did not replace it.
pub open spec fn save_outcome(s: JAppView, report_failure: bool, r: Result<(), Seq<char>>) -> JAppView {
    match r {
        Err(e) => if report_failure {
            JAppView { status: "save failed: "@ + e, ..s }
        } else {
            s
        },
        Ok(_) => s,
    }
}

/// The browser as it opens on a store.
pub open spec fn initial(todos: Seq<JTodoView>, notes: Seq<JNoteView>) -> JAppView {
    JAppView {
        todos,
        notes,
        focus: Pane::Todos,
        mode: Mode::Normal,
        todo_index: 0,
        note_index: 0,
        status: "welcome — :help for commands, :q to quit"@,
        command_buffer: seq![],
        input_buffer: seq![],
        input_target: None,
        filter: seq![],
        filter_backup: seq![],
        note_buffer: seq![],
        editing_note_index: None,
        should_quit: false,
        pending_d: false,
        pending_g: false,
    }
}

// ---------------------------------------------------------------------------
// Laws
// ---------------------------------------------------------------------------

/// Adding a todo through the input box appends exactly that todo (trimmed
/// title, not done, with the given identity and time), selects it, and
/// writes the store.
pub proof fn lemma_add_todo(s: JAppView, enter: Key, f: Fresh)
    requires
        s.mode == Mode::Input,
        s.input_target == Some(InputTarget::NewTodo),
        trim(s.input_buffer).len() > 0,
        s.todos.len() < usize::MAX,
        enter.code == KeyCode::Enter,
    ensures
        handle_key(s, enter, f).0.todos == s.todos.push(new_todo(trim(s.input_buffer), f)),
        handle_key(s, enter, f).0.todo_index == s.todos.len(),
        handle_key(s, enter, f).1 == (SaveRequest::Save { report_failure: false }),
{
}

/// `d` then `d` on the todo list removes the selected todo, keeps every
/// note, and writes the store.
pub proof fn lemma_dd_removes_todo(s: JAppView, d1: Key, d2: Key, f: Fresh)
    requires
        s.mode == Mode::Normal,
        !s.pending_d,
        s.focus == Pane::Todos,
        s.todo_index < s.todos.len(),
        d1.code == KeyCode::Char('d'),
        d2.code == KeyCode::Char('d'),
    ensures
        handle_key(s, d1, f).1 == SaveRequest::NoSave,
        handle_key(handle_key(s, d1, f).0, d2, f).0.todos == s.todos.remove(s.todo_index as int),
        handle_key(handle_key(s, d1, f).0, d2, f).0.notes == s.notes,
        handle_key(handle_key(s, d1, f).0, d2, f).0.status == "todo deleted"@,
        handle_key(handle_key(s, d1, f).0, d2, f).1 == (SaveRequest::Save { report_failure: false }),
{
}

/// `d` then `d` on the note list removes the selected note, keeps every
/// todo, and writes the store.
pub proof fn lemma_dd_removes_note(s: JAppView, d1: Key, d2: Key, f: Fresh)
    requires
        s.mode == Mode::Normal,
        !s.pending_d,
        s.focus == Pane::Notes,
        s.note_index < s.notes.len(),
        d1.code == KeyCode::Char('d'),
        d2.code == KeyCode::Char('d'),
    ensures
        handle_key(s, d1, f).1 == SaveRequest::NoSave,
        handle_key(handle_key(s, d1, f).0, d2, f).0.notes == s.notes.remove(s.note_index as int),
        handle_key(handle_key(s, d1, f).0, d2, f).0.todos == s.todos,
        handle_key(handle_key(s, d1, f).0, d2, f).0.status == "note deleted"@,
        handle_key(handle_key(s, d1, f).0, d2, f).1 == (SaveRequest::Save { report_failure: false }),
{
}

/// `x` on the todo list flips the done flag of the selected todo alone,
/// and writes the store, showing a failed write.
pub proof fn lemma_x_flips_selected(s: JAppView, x: Key, f: Fresh)
    requires
        s.mode == Mode::Normal,
        s.focus == Pane::Todos,
        s.todo_index < s.todos.len(),
        x.code == KeyCode::Char('x'),
    ensures
        handle_key(s, x, f).0.todos.len() == s.todos.len(),
        handle_key(s, x, f).0.todos[s.todo_index as int].done == !s.todos[s.todo_index as int].done,
        handle_key(s, x, f).0.todos[s.todo_index as int].title == s.todos[s.todo_index as int].title,
        forall|i: int| 0 <= i < s.todos.len() && i != s.todo_index ==> #[trigger] handle_key(s, x, f).0.todos[i]
            == s.todos[i],
        handle_key(s, x, f).1 == (SaveRequest::Save { report_failure: true }),
{
}

/// Toggling a todo twice gives back its done flag, and writes the store
/// each time.
pub proof fn lemma_toggle_twice(s: JAppView)
    requires
        s.todo_index < s.todos.len(),
    ensures
        toggle_done(toggle_done(s).0).0.todos == s.todos,
        toggle_done(s).1 == (SaveRequest::Save { report_failure: true }),
{
    let t = s.todos[s.todo_index as int];
    assert(toggle_done(toggle_done(s).0).0.todos =~= s.todos.update(
        s.todo_index as int,
        JTodoView { done: !!t.done, ..t },
    ));
    assert(JTodoView { done: !!t.done, ..t } == t);
    assert(s.todos.update(s.todo_index as int, t) =~= s.todos);
}

/// Leaving the note editor stores what was typed into the note that was
/// opened, and writes the store.
pub proof fn lemma_edit_note_saves_buffer(s: JAppView, esc: Key, f: Fresh, idx: usize)
    requires
        s.mode == Mode::NoteEdit,
        s.editing_note_index == Some(idx),
        idx < s.notes.len(),
        esc.code == KeyCode::Esc,
    ensures
        handle_key(s, esc, f).0.notes[idx as int].body == s.note_buffer,
        handle_key(s, esc, f).0.notes.len() == s.notes.len(),
        handle_key(s, esc, f).0.mode == Mode::Normal,
        handle_key(s, esc, f).1 == (SaveRequest::Save { report_failure: false }),
{
}

/// Committing a rename of the selected todo gives it the trimmed text as
/// its title, keeps everything else of every todo, and writes the store.
pub proof fn lemma_rename_todo(s: JAppView, enter: Key, f: Fresh)
    requires
        s.mode == Mode::Input,
        s.input_target == Some(InputTarget::RenameTodo),
        trim(s.input_buffer).len() > 0,
        s.todo_index < s.todos.len(),
        enter.code == KeyCode::Enter,
    ensures
        handle_key(s, enter, f).0.todos.len() == s.todos.len(),
        handle_key(s, enter, f).0.todos[s.todo_index as int].title == trim(s.input_buffer),
        handle_key(s, enter, f).0.todos[s.todo_index as int].id == s.todos[s.todo_index as int].id,
        handle_key(s, enter, f).0.todos[s.todo_index as int].done == s.todos[s.todo_index as int].done,
        handle_key(s, enter, f).0.todos[s.todo_index as int].created_at == s.todos[s.todo_index as int].created_at,
        forall|i: int| 0 <= i < s.todos.len() && i != s.todo_index ==> #[trigger] handle_key(s, enter, f).0.todos[i]
            == s.todos[i],
        handle_key(s, enter, f).0.notes == s.notes,
        handle_key(s, enter, f).0.status == "todo renamed"@,
        handle_key(s, enter, f).1 == (SaveRequest::Save { report_failure: false }),
{
}

/// Committing a rename of the selected note gives it the trimmed text as
/// its title and the step's time as its change time, keeps everything
/// else, and writes the store.
pub proof fn lemma_rename_note(s: JAppView, enter: Key, f: Fresh)
    requires
        s.mode == Mode::Input,
        s.input_target == Some(InputTarget::RenameNote),
        trim(s.input_buffer).len() > 0,
        s.note_index < s.notes.len(),
        enter.code == KeyCode::Enter,
    ensures
        handle_key(s, enter, f).0.notes.len() == s.notes.len(),
        handle_key(s, enter, f).0.notes[s.note_index as int].title == trim(s.input_buffer),
        handle_key(s, enter, f).0.notes[s.note_index as int].body == s.notes[s.note_index as int].body,
        handle_key(s, enter, f).0.notes[s.note_index as int].updated_at == f.now,
        forall|i: int| 0 <= i < s.notes.len() && i != s.note_index ==> #[trigger] handle_key(s, enter, f).0.notes[i]
            == s.notes[i],
        handle_key(s, enter, f).0.todos == s.todos,
        handle_key(s, enter, f).0.status == "note renamed"@,
        handle_key(s, enter, f).1 == (SaveRequest::Save { report_failure: false }),
{
}

} // verus!
