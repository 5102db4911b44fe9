//! The todo and notes browser as a state machine over plain values: what
//! each key press does to the browser's state, and which piece of outside
//! work (a store call) it asks for.
use vstd::prelude::*;

use crate::editor::initial_view;
use crate::editor_model::{self as em, EditorExit, EditorView};
use crate::keys::{Key, KeyCode};
use crate::text::{is_ws, join_with, lowercase, trim, trim_start};

verus! {

// ---------------------------------------------------------------------------
// Types
// ---------------------------------------------------------------------------

/// The list that has the focus.
#[derive(Clone, Copy, PartialEq, Eq, Debug, Structural)]
pub enum Pane {
    Todos,
    Notes,
}

/// What the keyboard is driving.
#[derive(Clone, Copy, PartialEq, Eq, Debug, Structural)]
pub enum Mode {
    Normal,
    Command,
    Search,
    Input,
    TodoView,
    TodoEdit,
    NoteView,
    NoteEdit,
    ContextBrowser,
}

/// What the one-line input box will be used for.
#[derive(Clone, Copy, PartialEq, Eq, Debug, Structural)]
pub enum InputTarget {
    NewTodo,
    NewNote,
    RenameTodo,
    RenameNote,
    NewContext,
}

/// What the browser reads of a todo.
pub struct TodoView {
    pub slug: Seq<char>,
    pub title: Seq<char>,
    pub description: Seq<char>,
    pub body: Seq<char>,
    pub done: bool,
    pub created_at: Seq<char>,
    pub deleted_at: Option<Seq<char>>,
}

/// What the browser reads of a note.
pub struct NoteView {
    pub slug: Seq<char>,
    pub title: Seq<char>,
    pub description: Seq<char>,
    pub body: Seq<char>,
    pub created_at: Seq<char>,
    pub deleted_at: Option<Seq<char>>,
}

/// The browser's whole state.
pub struct AppView {
    pub context: Seq<char>,
    pub contexts: Seq<Seq<char>>,
    pub todos: Seq<TodoView>,
    pub notes: Seq<NoteView>,
    pub focus: Pane,
    pub mode: Mode,
    pub todo_index: usize,
    pub note_index: usize,
    pub context_index: usize,
    pub status: Seq<char>,
    pub command_buffer: Seq<char>,
    pub input_buffer: Seq<char>,
    pub input_target: Option<InputTarget>,
    pub filter: Seq<char>,
    pub filter_backup: Seq<char>,
    pub note_editor: Option<EditorView>,
    pub editing_note_slug: Option<Seq<char>>,
    pub todo_editor: Option<EditorView>,
    pub editing_todo_slug: Option<Seq<char>>,
    pub should_quit: bool,
    pub pending_d: bool,
    pub pending_g: bool,
    pub pending_c: bool,
    pub suggestions: Seq<Seq<char>>,
    pub suggestion_index: usize,
}

/// Outside work a step asks for: a call into the store, whose outcome is
/// handed back to the browser.
pub enum RequestView {
    Nothing,
    CreateTodo { title: Seq<char> },
    CreateNote { title: Seq<char> },
    RenameTodo { index: usize, slug: Seq<char>, title: Seq<char> },
    RenameNote { index: usize, slug: Seq<char>, title: Seq<char> },
    DeleteTodo { index: usize, slug: Seq<char> },
    DeleteNote { index: usize, slug: Seq<char> },
    SetTodoDone { index: usize, slug: Seq<char>, done: bool },
    SaveTodoBody { index: usize, slug: Seq<char>, body: Seq<char> },
    SaveNoteBody { index: usize, slug: Seq<char>, body: Seq<char> },
    CreateContext { name: Seq<char> },
    SwitchContext { slug: Seq<char> },
    Reload,
}

/// The invariant the browser keeps: a chosen suggestion exists and the
/// open editors are well formed.
pub open spec fn wf(s: AppView) -> bool {
    &&& (s.suggestions.len() == 0 || s.suggestion_index < s.suggestions.len())
    &&& (s.note_editor matches Some(e) ==> em::wf(e))
    &&& (s.todo_editor matches Some(e) ==> em::wf(e))
}

// ---------------------------------------------------------------------------
// Text helpers
// ---------------------------------------------------------------------------

/// `needle` occurs in `hay`.
pub open spec fn contains_text(hay: Seq<char>, needle: Seq<char>) -> bool {
    exists|i: int| 0 <= i && i + needle.len() <= hay.len() && #[trigger] hay.subrange(i, i + needle.len()) == needle
}

/// `hay` starts with `prefix`.
pub open spec fn starts_with(hay: Seq<char>, prefix: Seq<char>) -> bool {
    prefix.len() <= hay.len() && hay.subrange(0, prefix.len() as int) == prefix
}

/// Index of the first whitespace character of `s` at or after `from`.
pub open spec fn first_ws_from(s: Seq<char>, from: int) -> Option<int>
    decreases s.len() - from,
{
    if from < 0 || from >= s.len() {
        None
    } else if is_ws(s[from]) {
        Some(from)
    } else {
        first_ws_from(s, from + 1)
    }
}

/// The first word of `s` (what `splitn(2, char::is_whitespace)` yields first).
pub open spec fn head_word(s: Seq<char>) -> Seq<char> {
    match first_ws_from(s, 0) {
        None => s,
        Some(i) => s.subrange(0, i),
    }
}

/// What follows the first word and its one separating whitespace, trimmed.
pub open spec fn rest_words(s: Seq<char>) -> Seq<char> {
    match first_ws_from(s, 0) {
        None => seq![],
        Some(i) => trim(s.subrange(i + 1, s.len() as int)),
    }
}

/// Number of bytes `c` takes in UTF-8.
pub open spec fn utf8_width(c: char) -> int {
    if (c as u32) < 0x80 {
        1
    } else if (c as u32) < 0x800 {
        2
    } else if (c as u32) < 0x10000 {
        3
    } else {
        4
    }
}

/// Number of bytes `s` takes in UTF-8 (what `String::len` answers).
pub open spec fn utf8_len(s: Seq<char>) -> int
    decreases s.len(),
{
    if s.len() == 0 {
        0
    } else {
        utf8_len(s.drop_last()) + utf8_width(s.last())
    }
}

/// The decimal digits of `n`.
pub open spec fn decimal(n: nat) -> Seq<char>
    decreases n,
{
    if n < 10 {
        seq![digit_char(n)]
    } else {
        decimal(n / 10).push(digit_char(n % 10))
    }
}

pub open spec fn digit_char(d: nat) -> char {
    if d == 0 {
        '0'
    } else if d == 1 {
        '1'
    } else if d == 2 {
        '2'
    } else if d == 3 {
        '3'
    } else if d == 4 {
        '4'
    } else if d == 5 {
        '5'
    } else if d == 6 {
        '6'
    } else if d == 7 {
        '7'
    } else if d == 8 {
        '8'
    } else {
        '9'
    }
}

/// Where a stable insertion by byte length puts `x` into `s`: after every
/// trailing element that is not longer.
pub open spec fn len_slot(s: Seq<Seq<char>>, x: Seq<char>) -> int
    decreases s.len(),
{
    if s.len() == 0 {
        0
    } else if utf8_len(s.last()) <= utf8_len(x) {
        s.len() as int
    } else {
        len_slot(s.drop_last(), x)
    }
}

/// `s` stably sorted by byte length (`sort_by_key(|s| s.len())`).
pub open spec fn sort_by_len(s: Seq<Seq<char>>) -> Seq<Seq<char>>
    decreases s.len(),
{
    if s.len() == 0 {
        s
    } else {
        let r = sort_by_len(s.drop_last());
        r.insert(len_slot(r, s.last()), s.last())
    }
}

/// Lexicographic order on character sequences (that of `str`).
pub open spec fn text_le(a: Seq<char>, b: Seq<char>) -> bool
    decreases a.len(),
{
    if a.len() == 0 {
        true
    } else if b.len() == 0 {
        false
    } else if a[0] != b[0] {
        a[0] < b[0]
    } else {
        text_le(a.drop_first(), b.drop_first())
    }
}

/// Where an insertion in text order puts `x` into `s`.
pub open spec fn text_slot(s: Seq<Seq<char>>, x: Seq<char>) -> int
    decreases s.len(),
{
    if s.len() == 0 {
        0
    } else if text_le(s.last(), x) {
        s.len() as int
    } else {
        text_slot(s.drop_last(), x)
    }
}

/// `s` sorted in text order (`Vec::sort` on strings).
pub open spec fn sort_texts(s: Seq<Seq<char>>) -> Seq<Seq<char>>
    decreases s.len(),
{
    if s.len() == 0 {
        s
    } else {
        let r = sort_texts(s.drop_last());
        r.insert(text_slot(r, s.last()), s.last())
    }
}

/// Index of the first element of `s` equal to `x`.
pub open spec fn position_of<T>(s: Seq<T>, x: T) -> Option<int>
    decreases s.len(),
{
    if s.len() == 0 {
        None
    } else if s[0] == x {
        Some(0)
    } else {
        match position_of(s.drop_first(), x) {
            Some(i) => Some(i + 1),
            None => None,
        }
    }
}

/// A found position lies in `s` and holds `x`; none is found only when `x`
/// does not occur.
pub proof fn lemma_position_of<T>(s: Seq<T>, x: T)
    ensures
        match position_of(s, x) {
            Some(i) => 0 <= i < s.len() && s[i] == x && forall|j: int| 0 <= j < i ==> s[j] != x,
            None => !s.contains(x),
        },
    decreases s.len(),
{
    if s.len() > 0 && s[0] != x {
        lemma_position_of(s.drop_first(), x);
        if s.contains(x) {
            let k = choose|k: int| 0 <= k < s.len() && s[k] == x;
            assert(s.drop_first()[k - 1] == x);
        }
        match position_of(s.drop_first(), x) {
            Some(i) => {
                assert forall|j: int| 0 <= j < i + 1 implies s[j] != x by {
                    if j > 0 {
                        assert(s[j] == s.drop_first()[j - 1]);
                    }
                }
            },
            None => {},
        }
    }
}

// ---------------------------------------------------------------------------
// Which items the filter shows
// ---------------------------------------------------------------------------

/// The filter (lower-cased) occurs in one of the three texts (lower-cased),
/// or is empty.
pub open spec fn shown(f: Seq<char>, title: Seq<char>, description: Seq<char>, body: Seq<char>) -> bool {
    ||| f.len() == 0
    ||| contains_text(lowercase(title), f)
    ||| contains_text(lowercase(description), f)
    ||| contains_text(lowercase(body), f)
}

pub open spec fn todo_shown(s: AppView, i: int) -> bool {
    shown(lowercase(s.filter), s.todos[i].title, s.todos[i].description, s.todos[i].body)
}

pub open spec fn note_shown(s: AppView, i: int) -> bool {
    shown(lowercase(s.filter), s.notes[i].title, s.notes[i].description, s.notes[i].body)
}

/// The indices below `n` of the todos the filter shows, in order.
pub open spec fn visible_todos_below(s: AppView, n: int) -> Seq<usize>
    decreases n,
{
    if n <= 0 {
        seq![]
    } else if todo_shown(s, n - 1) {
        visible_todos_below(s, n - 1).push((n - 1) as usize)
    } else {
        visible_todos_below(s, n - 1)
    }
}

pub open spec fn visible_notes_below(s: AppView, n: int) -> Seq<usize>
    decreases n,
{
    if n <= 0 {
        seq![]
    } else if note_shown(s, n - 1) {
        visible_notes_below(s, n - 1).push((n - 1) as usize)
    } else {
        visible_notes_below(s, n - 1)
    }
}

/// Indices of the todos the filter shows.
pub open spec fn visible_todos(s: AppView) -> Seq<usize> {
    visible_todos_below(s, s.todos.len() as int)
}

/// Indices of the notes the filter shows.
pub open spec fn visible_notes(s: AppView) -> Seq<usize> {
    visible_notes_below(s, s.notes.len() as int)
}

pub open spec fn visible_of(s: AppView, p: Pane) -> Seq<usize> {
    match p {
        Pane::Todos => visible_todos(s),
        Pane::Notes => visible_notes(s),
    }
}

/// The selection moved to a shown item when the shown items changed.
pub open spec fn snap(s: AppView) -> AppView {
    let tv = visible_todos(s);
    let nv = visible_notes(s);
    AppView {
        todo_index: if tv.contains(s.todo_index) {
            s.todo_index
        } else if tv.len() > 0 {
            tv[0]
        } else {
            0
        },
        note_index: if nv.contains(s.note_index) {
            s.note_index
        } else if nv.len() > 0 {
            nv[0]
        } else {
            0
        },
        ..s
    }
}

pub open spec fn current_index(s: AppView) -> usize {
    match s.focus {
        Pane::Todos => s.todo_index,
        Pane::Notes => s.note_index,
    }
}

pub open spec fn set_index(s: AppView, i: usize) -> AppView {
    match s.focus {
        Pane::Todos => AppView { todo_index: i, ..s },
        Pane::Notes => AppView { note_index: i, ..s },
    }
}

/// One step down (`down`) or up through the shown items of the focused
/// list, stopping at its ends.
pub open spec fn move_selection(s: AppView, down: bool) -> AppView {
    let v = visible_of(s, s.focus);
    if v.len() == 0 {
        s
    } else {
        let pos = match position_of(v, current_index(s)) {
            Some(p) => p,
            None => 0,
        };
        let np = if down {
            if pos + 1 < v.len() {
                pos + 1
            } else {
                v.len() - 1
            }
        } else if pos > 0 {
            pos - 1
        } else {
            0
        };
        set_index(s, v[np])
    }
}

// ---------------------------------------------------------------------------
// Command-line suggestions
// ---------------------------------------------------------------------------

/// The commands offered as completions.
pub open spec fn base_commands() -> Seq<Seq<char>> {
    seq![
        "clear"@, "ctx"@, "ctx new"@, "delete"@, "h"@, "help"@, "noh"@, "nofilter"@, "nohlsearch"@,
        "note"@, "notes"@, "q"@, "quit"@, "reload"@, "rm"@, "todo"@, "todos"@, "toggle"@, "wq"@, "x"@,
    ]
}

/// Every completion candidate: the commands, then `ctx <name>` for each
/// known context.
pub open spec fn candidates(contexts: Seq<Seq<char>>) -> Seq<Seq<char>> {
    base_commands() + contexts.map_values(|c: Seq<char>| "ctx "@ + c)
}

/// The completions for the command line: candidates that extend the typed
/// text (lower-cased, leading whitespace dropped), shortest first.
pub open spec fn suggestions_for(buffer: Seq<char>, contexts: Seq<Seq<char>>) -> Seq<Seq<char>> {
    let buf = trim_start(buffer);
    if buf.len() == 0 {
        seq![]
    } else {
        sort_by_len(candidates(contexts).filter(completes(lowercase(buf))))
    }
}

/// A candidate completes `b` when it extends it.
pub open spec fn completes(b: Seq<char>) -> spec_fn(Seq<char>) -> bool {
    |c: Seq<char>| starts_with(c, b) && c != b
}

pub open spec fn update_suggestions(s: AppView) -> AppView {
    let sg = suggestions_for(s.command_buffer, s.contexts);
    AppView {
        suggestions: sg,
        suggestion_index: if s.suggestion_index >= sg.len() {
            0
        } else {
            s.suggestion_index
        },
        ..s
    }
}

// ---------------------------------------------------------------------------
// Small actions
// ---------------------------------------------------------------------------

pub open spec fn no_request(s: AppView) -> (AppView, RequestView) {
    (s, RequestView::Nothing)
}

pub open spec fn start_input(s: AppView, t: InputTarget) -> AppView {
    AppView { input_buffer: seq![], input_target: Some(t), mode: Mode::Input, ..s }
}

pub open spec fn start_input_keep_buffer(s: AppView, t: InputTarget) -> AppView {
    AppView { input_target: Some(t), mode: Mode::Input, ..s }
}

pub open spec fn new_item_target(p: Pane) -> InputTarget {
    match p {
        Pane::Todos => InputTarget::NewTodo,
        Pane::Notes => InputTarget::NewNote,
    }
}

pub open spec fn delete_current(s: AppView) -> (AppView, RequestView) {
    match s.focus {
        Pane::Todos => if s.todo_index < s.todos.len() {
            (s, RequestView::DeleteTodo { index: s.todo_index, slug: s.todos[s.todo_index as int].slug })
        } else {
            no_request(s)
        },
        Pane::Notes => if s.note_index < s.notes.len() {
            (s, RequestView::DeleteNote { index: s.note_index, slug: s.notes[s.note_index as int].slug })
        } else {
            no_request(s)
        },
    }
}

pub open spec fn toggle_done(s: AppView) -> (AppView, RequestView) {
    if s.todo_index < s.todos.len() {
        let t = s.todos[s.todo_index as int];
        (s, RequestView::SetTodoDone { index: s.todo_index, slug: t.slug, done: !t.done })
    } else {
        no_request(s)
    }
}

pub open spec fn open_note_view(s: AppView) -> AppView {
    if s.note_index < s.notes.len() {
        AppView { mode: Mode::NoteView, ..s }
    } else {
        s
    }
}

pub open spec fn open_todo_view(s: AppView) -> AppView {
    if s.todo_index < s.todos.len() {
        AppView { mode: Mode::TodoView, ..s }
    } else {
        s
    }
}

pub open spec fn open_note_edit(s: AppView) -> AppView {
    if s.note_index < s.notes.len() {
        let n = s.notes[s.note_index as int];
        AppView {
            note_editor: Some(initial_view(n.body)),
            editing_note_slug: Some(n.slug),
            mode: Mode::NoteEdit,
            status: "editing note — :w save  :q cancel  i insert  Esc normal"@,
            ..s
        }
    } else {
        s
    }
}

pub open spec fn open_todo_edit(s: AppView) -> AppView {
    if s.todo_index < s.todos.len() {
        let t = s.todos[s.todo_index as int];
        AppView {
            todo_editor: Some(initial_view(t.body)),
            editing_todo_slug: Some(t.slug),
            mode: Mode::TodoEdit,
            status: "editing todo — :w save  :q cancel  i insert  Esc normal"@,
            ..s
        }
    } else {
        s
    }
}

/// The position of the active context in the list, or 0.
pub open spec fn active_context_index(s: AppView) -> usize {
    match position_of(s.contexts, s.context) {
        Some(i) => i as usize,
        None => 0,
    }
}

pub open spec fn open_context_browser(s: AppView) -> AppView {
    AppView { context_index: active_context_index(s), mode: Mode::ContextBrowser, ..s }
}

pub open spec fn cycle_context(s: AppView) -> (AppView, RequestView) {
    if s.contexts.len() < 2 {
        no_request(AppView { status: "only one context"@, ..s })
    } else {
        let cur = active_context_index(s);
        (s, RequestView::SwitchContext { slug: s.contexts[(cur + 1) % (s.contexts.len() as int)] })
    }
}

/// Acting on the text typed into the input box.
pub open spec fn commit_input(s: AppView, t: InputTarget, value: Seq<char>) -> (AppView, RequestView) {
    let v = trim(value);
    if v.len() == 0 {
        no_request(AppView { status: "cancelled (empty)"@, ..s })
    } else {
        match t {
            InputTarget::NewTodo => (s, RequestView::CreateTodo { title: v }),
            InputTarget::NewNote => (s, RequestView::CreateNote { title: v }),
            InputTarget::RenameTodo => if s.todo_index < s.todos.len() {
                (s, RequestView::RenameTodo { index: s.todo_index, slug: s.todos[s.todo_index as int].slug, title: v })
            } else {
                no_request(s)
            },
            InputTarget::RenameNote => if s.note_index < s.notes.len() {
                (s, RequestView::RenameNote { index: s.note_index, slug: s.notes[s.note_index as int].slug, title: v })
            } else {
                no_request(s)
            },
            InputTarget::NewContext => (s, RequestView::CreateContext { name: v }),
        }
    }
}

// ---------------------------------------------------------------------------
// The ex command line
// ---------------------------------------------------------------------------

pub open spec fn help_text() -> Seq<char> {
    "keys: hjkl move/switch | i add | r rename | dd del | x done | e edit | / filter | cc cycle | C browser | :ctx new <name> | :q"@
}

/// `:ctx ...`: open the browser, create a context, or switch to one.
pub open spec fn run_ctx(s: AppView, arg: Seq<char>) -> (AppView, RequestView) {
    if arg.len() == 0 {
        no_request(open_context_browser(s))
    } else {
        let first = head_word(arg);
        if first == "new"@ {
            let name = trim(rest_words(arg));
            if name.len() == 0 {
                no_request(start_input(s, InputTarget::NewContext))
            } else {
                (s, RequestView::CreateContext { name })
            }
        } else {
            (s, RequestView::SwitchContext { slug: first })
        }
    }
}

/// Running one (trimmed) command line.
pub open spec fn run_command(s: AppView, cmd: Seq<char>) -> (AppView, RequestView) {
    if cmd.len() == 0 {
        no_request(s)
    } else {
        let head = head_word(cmd);
        let rest = rest_words(cmd);
        if head == "q"@ || head == "quit"@ || head == "wq"@ || head == "x"@ {
            no_request(AppView { should_quit: true, ..s })
        } else if head == "todo"@ || head == "todos"@ {
            no_request(AppView { focus: Pane::Todos, status: "focus: todos"@, ..s })
        } else if head == "note"@ || head == "notes"@ {
            no_request(AppView { focus: Pane::Notes, status: "focus: notes"@, ..s })
        } else if head == "new"@ {
            if rest.len() == 0 {
                no_request(start_input(s, new_item_target(s.focus)))
            } else {
                commit_input(s, new_item_target(s.focus), rest)
            }
        } else if head == "delete"@ || head == "rm"@ {
            delete_current(s)
        } else if head == "toggle"@ {
            toggle_done(s)
        } else if head == "reload"@ || head == "sync"@ {
            (s, RequestView::Reload)
        } else if head == "ctx"@ || head == "context"@ {
            run_ctx(s, rest)
        } else if head == "clear"@ || head == "nofilter"@ || head == "noh"@ || head == "nohlsearch"@ {
            no_request(AppView { status: "filter cleared"@, ..snap(AppView { filter: seq![], ..s }) })
        } else if head == "help"@ || head == "h"@ {
            no_request(AppView { status: help_text(), ..s })
        } else {
            no_request(AppView { status: "unknown command: "@ + head, ..s })
        }
    }
}

// ---------------------------------------------------------------------------
// Key handlers, one per mode
// ---------------------------------------------------------------------------

/// The normal mode: moving, opening, and the one- and two-key commands.
pub open spec fn handle_normal(s0: AppView, k: Key) -> (AppView, RequestView) {
    let pd = s0.pending_d;
    let pg = s0.pending_g;
    let pc = s0.pending_c;
    let s = AppView { pending_d: false, pending_g: false, pending_c: false, ..s0 };
    match k.code {
        KeyCode::Char('q') if k.spec_plain() => no_request(AppView { should_quit: true, ..s }),
        KeyCode::Char('c') if k.spec_ctrl_only() => no_request(AppView { should_quit: true, ..s }),
        KeyCode::Esc => if s.filter.len() > 0 {
            no_request(AppView { status: "filter cleared"@, ..snap(AppView { filter: seq![], ..s }) })
        } else {
            no_request(s)
        },
        KeyCode::Char(':') => no_request(AppView { mode: Mode::Command, command_buffer: seq![], ..s }),
        KeyCode::Char('/') => no_request(
            snap(AppView { filter_backup: s.filter, filter: seq![], mode: Mode::Search, ..s }),
        ),
        KeyCode::Char('h') | KeyCode::Left => no_request(AppView { focus: Pane::Todos, ..s }),
        KeyCode::Char('l') | KeyCode::Right => no_request(AppView { focus: Pane::Notes, ..s }),
        KeyCode::Char('j') | KeyCode::Down => no_request(move_selection(s, true)),
        KeyCode::Char('k') | KeyCode::Up => no_request(move_selection(s, false)),
        KeyCode::Char('g') => if pg {
            let v = visible_of(s, s.focus);
            if v.len() > 0 {
                no_request(set_index(s, v[0]))
            } else {
                no_request(s)
            }
        } else {
            no_request(AppView { pending_g: true, ..s })
        },
        KeyCode::Char('G') => {
            let v = visible_of(s, s.focus);
            if v.len() > 0 {
                no_request(set_index(s, v.last()))
            } else {
                no_request(s)
            }
        },
        KeyCode::Char('i') | KeyCode::Char('a') | KeyCode::Char('o') => no_request(
            start_input(s, new_item_target(s.focus)),
        ),
        KeyCode::Char('r') => match s.focus {
            Pane::Todos => if s.todo_index < s.todos.len() {
                no_request(
                    start_input_keep_buffer(
                        AppView { input_buffer: s.todos[s.todo_index as int].title, ..s },
                        InputTarget::RenameTodo,
                    ),
                )
            } else {
                no_request(s)
            },
            Pane::Notes => if s.note_index < s.notes.len() {
                no_request(
                    start_input_keep_buffer(
                        AppView { input_buffer: s.notes[s.note_index as int].title, ..s },
                        InputTarget::RenameNote,
                    ),
                )
            } else {
                no_request(s)
            },
        },
        KeyCode::Char('d') => if pd {
            delete_current(s)
        } else {
            no_request(AppView { pending_d: true, ..s })
        },
        KeyCode::Char('x') | KeyCode::Char(' ') => if s.focus == Pane::Todos {
            toggle_done(s)
        } else {
            no_request(s)
        },
        KeyCode::Enter => match s.focus {
            Pane::Todos => toggle_done(s),
            Pane::Notes => no_request(open_note_view(s)),
        },
        KeyCode::Char('v') => if s.focus == Pane::Todos {
            no_request(open_todo_view(s))
        } else {
            no_request(s)
        },
        KeyCode::Char('e') => match s.focus {
            Pane::Todos => no_request(open_todo_edit(s)),
            Pane::Notes => no_request(open_note_edit(s)),
        },
        KeyCode::Tab => no_request(
            AppView {
                focus: match s.focus {
                    Pane::Todos => Pane::Notes,
                    Pane::Notes => Pane::Todos,
                },
                ..s
            },
        ),
        KeyCode::Char('c') if k.spec_plain() => if pc {
            cycle_context(s)
        } else {
            no_request(AppView { pending_c: true, ..s })
        },
        KeyCode::Char('C') => no_request(open_context_browser(s)),
        _ => no_request(s),
    }
}

/// The `:` command line, with completion.
pub open spec fn handle_command(s: AppView, k: Key) -> (AppView, RequestView) {
    match k.code {
        KeyCode::Esc => no_request(
            AppView { mode: Mode::Normal, command_buffer: seq![], suggestions: seq![], suggestion_index: 0, ..s },
        ),
        KeyCode::Enter => run_command(
            AppView { command_buffer: seq![], mode: Mode::Normal, suggestions: seq![], suggestion_index: 0, ..s },
            trim(s.command_buffer),
        ),
        KeyCode::Tab => if s.suggestions.len() > 0 {
            no_request(
                update_suggestions(AppView { command_buffer: s.suggestions[s.suggestion_index as int], ..s }),
            )
        } else {
            no_request(s)
        },
        KeyCode::Up => if s.suggestions.len() > 0 {
            no_request(
                AppView {
                    suggestion_index: if s.suggestion_index == 0 {
                        (s.suggestions.len() - 1) as usize
                    } else {
                        (s.suggestion_index - 1) as usize
                    },
                    ..s
                },
            )
        } else {
            no_request(s)
        },
        KeyCode::Down => if s.suggestions.len() > 0 {
            no_request(
                AppView {
                    suggestion_index: ((s.suggestion_index + 1) % (s.suggestions.len() as int)) as usize,
                    ..s
                },
            )
        } else {
            no_request(s)
        },
        KeyCode::Backspace => no_request(
            update_suggestions(
                AppView {
                    command_buffer: if s.command_buffer.len() > 0 {
                        s.command_buffer.drop_last()
                    } else {
                        s.command_buffer
                    },
                    ..s
                },
            ),
        ),
        KeyCode::Char(c) if !k.ctrl => no_request(
            update_suggestions(AppView { command_buffer: s.command_buffer.push(c), ..s }),
        ),
        _ => no_request(s),
    }
}

/// The `/` filter line: the list narrows as the filter is typed.
pub open spec fn handle_search(s: AppView, k: Key) -> AppView {
    match k.code {
        KeyCode::Esc => AppView {
            mode: Mode::Normal,
            status: "search cancelled"@,
            ..snap(AppView { filter: s.filter_backup, filter_backup: seq![], ..s })
        },
        KeyCode::Enter => AppView {
            filter_backup: seq![],
            mode: Mode::Normal,
            status: if s.filter.len() == 0 {
                "filter cleared"@
            } else {
                "filter: "@ + s.filter
            },
            ..s
        },
        KeyCode::Backspace => snap(
            AppView {
                filter: if s.filter.len() > 0 {
                    s.filter.drop_last()
                } else {
                    s.filter
                },
                ..s
            },
        ),
        KeyCode::Char(c) if !k.ctrl => snap(AppView { filter: s.filter.push(c), ..s }),
        _ => s,
    }
}

/// The one-line input box.
pub open spec fn handle_input(s: AppView, k: Key) -> (AppView, RequestView) {
    match k.code {
        KeyCode::Esc => no_request(AppView { mode: Mode::Normal, input_buffer: seq![], input_target: None, ..s }),
        KeyCode::Enter => {
            let s1 = AppView { input_buffer: seq![], input_target: None, mode: Mode::Normal, ..s };
            match s.input_target {
                Some(t) => commit_input(s1, t, s.input_buffer),
                None => no_request(s1),
            }
        },
        KeyCode::Backspace => no_request(
            AppView {
                input_buffer: if s.input_buffer.len() > 0 {
                    s.input_buffer.drop_last()
                } else {
                    s.input_buffer
                },
                ..s
            },
        ),
        KeyCode::Char(c) if !k.ctrl => no_request(AppView { input_buffer: s.input_buffer.push(c), ..s }),
        _ => no_request(s),
    }
}

/// Reading a todo or a note.
pub open spec fn handle_view(s: AppView, k: Key, note: bool) -> AppView {
    match k.code {
        KeyCode::Esc | KeyCode::Char('q') | KeyCode::Enter => AppView { mode: Mode::Normal, ..s },
        KeyCode::Char('e') => if note {
            open_note_edit(s)
        } else {
            open_todo_edit(s)
        },
        _ => s,
    }
}

/// A key for an embedded editor; a key that could push the editor past the
/// machine's limits is dropped.
pub open spec fn edit_step(e: EditorView, k: Key) -> EditorView {
    if em::size_ok(e) {
        em::handle_key(e, k)
    } else {
        e
    }
}

/// The slug of each note.
pub open spec fn note_slugs(s: AppView) -> Seq<Seq<char>> {
    s.notes.map_values(|n: NoteView| n.slug)
}

/// The slug of each todo.
pub open spec fn todo_slugs(s: AppView) -> Seq<Seq<char>> {
    s.todos.map_values(|t: TodoView| t.slug)
}

/// Closing the note editor: save a changed body, or drop the edit.
pub open spec fn finish_note_edit(s: AppView, e: EditorView, exit: EditorExit) -> (AppView, RequestView) {
    let s1 = AppView { note_editor: None, editing_note_slug: None, mode: Mode::Normal, ..s };
    match exit {
        EditorExit::Save => {
            let body = join_with(e.lines, '\n');
            match s.editing_note_slug {
                None => no_request(s1),
                Some(slug) => match position_of(note_slugs(s), slug) {
                    None => no_request(s1),
                    Some(idx) => if s.notes[idx].body == body {
                        no_request(AppView { status: "note unchanged"@, ..s1 })
                    } else {
                        (s1, RequestView::SaveNoteBody { index: idx as usize, slug, body })
                    },
                },
            }
        },
        EditorExit::Cancel => no_request(AppView { status: "edit cancelled"@, ..s1 }),
    }
}

/// Closing the todo editor: save a changed body, or drop the edit.
pub open spec fn finish_todo_edit(s: AppView, e: EditorView, exit: EditorExit) -> (AppView, RequestView) {
    let s1 = AppView { todo_editor: None, editing_todo_slug: None, mode: Mode::Normal, ..s };
    match exit {
        EditorExit::Save => {
            let body = join_with(e.lines, '\n');
            match s.editing_todo_slug {
                None => no_request(s1),
                Some(slug) => match position_of(todo_slugs(s), slug) {
                    None => no_request(s1),
                    Some(idx) => if s.todos[idx].body == body {
                        no_request(AppView { status: "todo body unchanged"@, ..s1 })
                    } else {
                        (s1, RequestView::SaveTodoBody { index: idx as usize, slug, body })
                    },
                },
            }
        },
        EditorExit::Cancel => no_request(AppView { status: "edit cancelled"@, ..s1 }),
    }
}

pub open spec fn handle_note_edit(s: AppView, k: Key) -> (AppView, RequestView) {
    match s.note_editor {
        None => no_request(AppView { mode: Mode::Normal, ..s }),
        Some(e) => {
            let e2 = edit_step(e, k);
            let s2 = AppView { note_editor: Some(e2), ..s };
            match e2.exit {
                Some(x) => finish_note_edit(s2, e2, x),
                None => no_request(s2),
            }
        },
    }
}

pub open spec fn handle_todo_edit(s: AppView, k: Key) -> (AppView, RequestView) {
    match s.todo_editor {
        None => no_request(AppView { mode: Mode::Normal, ..s }),
        Some(e) => {
            let e2 = edit_step(e, k);
            let s2 = AppView { todo_editor: Some(e2), ..s };
            match e2.exit {
                Some(x) => finish_todo_edit(s2, e2, x),
                None => no_request(s2),
            }
        },
    }
}

/// The context list.
pub open spec fn handle_context_browser(s: AppView, k: Key) -> (AppView, RequestView) {
    match k.code {
        KeyCode::Esc | KeyCode::Char('q') => no_request(AppView { mode: Mode::Normal, ..s }),
        KeyCode::Char('j') | KeyCode::Down => if s.context_index + 1 < s.contexts.len() {
            no_request(AppView { context_index: (s.context_index + 1) as usize, ..s })
        } else {
            no_request(s)
        },
        KeyCode::Char('k') | KeyCode::Up => no_request(
            AppView { context_index: em::sat_sub(s.context_index, 1), ..s },
        ),
        KeyCode::Enter => if s.context_index < s.contexts.len() {
            (
                AppView { mode: Mode::Normal, ..s },
                RequestView::SwitchContext { slug: s.contexts[s.context_index as int] },
            )
        } else {
            no_request(s)
        },
        KeyCode::Char('n') => no_request(
            AppView { mode: Mode::Input, input_buffer: seq![], input_target: Some(InputTarget::NewContext), ..s },
        ),
        _ => no_request(s),
    }
}

/// One key press: the next state and the outside work it asks for.
pub open spec fn handle_key(s: AppView, k: Key) -> (AppView, RequestView) {
    match s.mode {
        Mode::Normal => handle_normal(s, k),
        Mode::Command => handle_command(s, k),
        Mode::Search => no_request(handle_search(s, k)),
        Mode::Input => handle_input(s, k),
        Mode::TodoView => no_request(handle_view(s, k, false)),
        Mode::TodoEdit => handle_todo_edit(s, k),
        Mode::NoteView => no_request(handle_view(s, k, true)),
        Mode::NoteEdit => handle_note_edit(s, k),
        Mode::ContextBrowser => handle_context_browser(s, k),
    }
}

// ---------------------------------------------------------------------------
// Outcomes of the outside work
// ---------------------------------------------------------------------------

pub open spec fn error_status(s: AppView, e: Seq<char>) -> AppView {
    AppView { status: "error: "@ + e, ..s }
}

pub open spec fn todo_created(s: AppView, r: Result<TodoView, Seq<char>>) -> AppView {
    match r {
        Ok(t) => AppView {
            todos: s.todos.push(t),
            todo_index: s.todos.len() as usize,
            focus: Pane::Todos,
            status: "todo added"@,
            ..s
        },
        Err(e) => error_status(s, e),
    }
}

pub open spec fn note_created(s: AppView, r: Result<NoteView, Seq<char>>) -> AppView {
    match r {
        Ok(n) => AppView {
            notes: s.notes.push(n),
            note_index: s.notes.len() as usize,
            focus: Pane::Notes,
            status: "note added"@,
            ..s
        },
        Err(e) => error_status(s, e),
    }
}

/// A todo replaced by the store's updated copy, with a status line.
pub open spec fn todo_replaced(s: AppView, index: usize, r: Result<TodoView, Seq<char>>, ok_status: Option<Seq<char>>) -> AppView {
    match r {
        Ok(t) => {
            let s1 = AppView { todos: s.todos.update(index as int, t), ..s };
            match ok_status {
                Some(m) => AppView { status: m, ..s1 },
                None => s1,
            }
        },
        Err(e) => error_status(s, e),
    }
}

pub open spec fn note_replaced(s: AppView, index: usize, r: Result<NoteView, Seq<char>>, ok_status: Seq<char>) -> AppView {
    match r {
        Ok(n) => AppView { notes: s.notes.update(index as int, n), status: ok_status, ..s },
        Err(e) => error_status(s, e),
    }
}

pub open spec fn todo_deleted(s: AppView, index: usize, r: Result<(), Seq<char>>) -> AppView {
    match r {
        Ok(_) => AppView { status: "todo deleted"@, ..snap(AppView { todos: s.todos.remove(index as int), ..s }) },
        Err(e) => error_status(s, e),
    }
}

pub open spec fn note_deleted(s: AppView, index: usize, r: Result<(), Seq<char>>) -> AppView {
    match r {
        Ok(_) => AppView { status: "note deleted"@, ..snap(AppView { notes: s.notes.remove(index as int), ..s }) },
        Err(e) => error_status(s, e),
    }
}

/// A created context is switched to next.
pub open spec fn context_created(s: AppView, name: Seq<char>, r: Result<(), Seq<char>>) -> (AppView, RequestView) {
    match r {
        Ok(_) => (s, RequestView::SwitchContext { slug: name }),
        Err(e) => no_request(error_status(s, e)),
    }
}

/// What the store hands back on a context switch: the canonical slug, the
/// context's todos and notes, and how many items it could not load.
pub struct SwitchedView {
    pub context: Seq<char>,
    pub todos: Seq<TodoView>,
    pub notes: Seq<NoteView>,
    pub skipped: nat,
}

pub open spec fn context_switched(s: AppView, r: Result<SwitchedView, Seq<char>>) -> AppView {
    match r {
        Ok(w) => {
            let cs = if s.contexts.contains(w.context) {
                s.contexts
            } else {
                sort_texts(s.contexts.push(w.context))
            };
            AppView {
                todos: w.todos,
                notes: w.notes,
                todo_index: 0,
                note_index: 0,
                filter: seq![],
                context: w.context,
                contexts: cs,
                context_index: match position_of(cs, w.context) {
                    Some(i) => i as usize,
                    None => 0,
                },
                status: if w.skipped == 0 {
                    "switched to ["@ + w.context + "]"@
                } else {
                    "switched to ["@ + w.context + "] — "@ + decimal(w.skipped) + " item(s) could not be loaded"@
                },
                ..s
            }
        },
        Err(e) => error_status(s, e),
    }
}

/// The outcome of reloading the contexts, then the todos and the notes
/// (each with how many items could not be parsed).
pub open spec fn reloaded(
    s: AppView,
    contexts: Result<Seq<Seq<char>>, Seq<char>>,
    todos: Result<(Seq<TodoView>, nat), Seq<char>>,
    notes: Result<(Seq<NoteView>, nat), Seq<char>>,
) -> AppView {
    match contexts {
        Err(e) => AppView { status: "reload error: "@ + e, ..s },
        Ok(cs) => {
            let s1 = AppView { contexts: cs, ..s };
            match (todos, notes) {
                (Ok((ts, tw)), Ok((ns, nw))) => AppView {
                    status: if tw + nw == 0 {
                        "reloaded"@
                    } else {
                        "reloaded — "@ + decimal(tw + nw) + " item(s) could not be parsed"@
                    },
                    ..snap(AppView { todos: ts, notes: ns, ..s1 })
                },
                (Err(e), _) => AppView { status: "reload error: "@ + e, ..s1 },
                (Ok(_), Err(e)) => AppView { status: "reload error: "@ + e, ..s1 },
            }
        },
    }
}

/// The browser as it opens on a context.
pub open spec fn bootstrap(
    context: Seq<char>,
    contexts: Seq<Seq<char>>,
    todos: Seq<TodoView>,
    notes: Seq<NoteView>,
    skipped: nat,
) -> AppView {
    snap(
        AppView {
            context,
            contexts,
            todos,
            notes,
            focus: Pane::Todos,
            mode: Mode::Normal,
            todo_index: 0,
            note_index: 0,
            context_index: match position_of(contexts, context) {
                Some(i) => i as usize,
                None => 0,
            },
            status: if skipped == 0 {
                "welcome — ["@ + context + "]  :help for commands, :q to quit"@
            } else {
                decimal(skipped) + " item(s) could not be loaded — check CONTENT.md files in ["@ + context
                    + "]"@
            },
            command_buffer: seq![],
            input_buffer: seq![],
            input_target: None,
            filter: seq![],
            filter_backup: seq![],
            note_editor: None,
            editing_note_slug: None,
            todo_editor: None,
            editing_todo_slug: None,
            should_quit: false,
            pending_d: false,
            pending_g: false,
            pending_c: false,
            suggestions: seq![],
            suggestion_index: 0,
        },
    )
}

// ---------------------------------------------------------------------------
// Laws
// ---------------------------------------------------------------------------

proof fn lemma_visible_todos_below(s: AppView, n: int)
    requires
        n <= s.todos.len() <= usize::MAX,
    ensures
        forall|k: int| 0 <= k < visible_todos_below(s, n).len() ==> #[trigger] visible_todos_below(s, n)[k] < n,
        forall|a: int, b: int|
            0 <= a < b < visible_todos_below(s, n).len() ==> visible_todos_below(s, n)[a] < visible_todos_below(s, n)[b],
        forall|i: int|
            0 <= i < n ==> (todo_shown(s, i) <==> exists|k: int|
                0 <= k < visible_todos_below(s, n).len() && #[trigger] visible_todos_below(s, n)[k] == i),
    decreases n,
{
    if n > 0 {
        lemma_visible_todos_below(s, n - 1);
        let p = visible_todos_below(s, n - 1);
        let v = visible_todos_below(s, n);
        if todo_shown(s, n - 1) {
            assert(v == p.push((n - 1) as usize));
            assert forall|i: int| 0 <= i < n implies (todo_shown(s, i) <==> exists|k: int|
                0 <= k < v.len() && #[trigger] v[k] == i) by {
                if i < n - 1 {
                    if exists|k: int| 0 <= k < v.len() && #[trigger] v[k] == i {
                        let k = choose|k: int| 0 <= k < v.len() && #[trigger] v[k] == i;
                        assert(k < p.len());
                        assert(p[k] == i);
                    }
                    if exists|k: int| 0 <= k < p.len() && #[trigger] p[k] == i {
                        let k = choose|k: int| 0 <= k < p.len() && #[trigger] p[k] == i;
                        assert(v[k] == i);
                    }
                } else {
                    assert(v[p.len() as int] == i);
                }
            }
        } else {
            assert(v == p);
        }
    }
}

/// The shown todos are listed in increasing order, each one an index of a
/// todo, and an index is listed exactly when the filter shows that todo.
pub proof fn lemma_visible_todos(s: AppView)
    requires
        s.todos.len() <= usize::MAX,
    ensures
        forall|k: int| 0 <= k < visible_todos(s).len() ==> #[trigger] visible_todos(s)[k] < s.todos.len(),
        forall|a: int, b: int| 0 <= a < b < visible_todos(s).len() ==> visible_todos(s)[a] < visible_todos(s)[b],
        forall|i: int|
            0 <= i < s.todos.len() ==> (todo_shown(s, i) <==> exists|k: int|
                0 <= k < visible_todos(s).len() && #[trigger] visible_todos(s)[k] == i),
{
    let n = s.todos.len() as int;
    lemma_visible_todos_below(s, n);
    let v = visible_todos(s);
    assert(v == visible_todos_below(s, n));
    assert forall|i: int| 0 <= i < n implies (todo_shown(s, i) <==> exists|k: int|
        0 <= k < v.len() && #[trigger] v[k] == i) by {
        if todo_shown(s, i) {
            let k = choose|k: int| 0 <= k < visible_todos_below(s, n).len() && #[trigger] visible_todos_below(s, n)[k] == i;
            assert(v[k] == i);
        }
    }
}

/// With an empty filter every todo is shown.
pub proof fn lemma_empty_filter_shows_all(s: AppView, i: int)
    requires
        s.todos.len() <= usize::MAX,
        lowercase(s.filter).len() == 0,
        0 <= i < s.todos.len(),
    ensures
        exists|k: int| 0 <= k < visible_todos(s).len() && #[trigger] visible_todos(s)[k] == i,
{
    lemma_visible_todos(s);
    assert(todo_shown(s, i));
}

/// Snapping the selection keeps the items and the filter; in each list it
/// keeps a shown selection, moves any other to the first shown item, and
/// to 0 when nothing is shown.
pub proof fn lemma_snap_selects_shown(s: AppView)
    ensures
        snap(s).todos == s.todos,
        snap(s).notes == s.notes,
        snap(s).filter == s.filter,
        visible_todos(snap(s)) == visible_todos(s),
        visible_notes(snap(s)) == visible_notes(s),
        visible_todos(s).contains(snap(s).todo_index) || (visible_todos(s).len() == 0 && snap(s).todo_index == 0),
        visible_notes(s).contains(snap(s).note_index) || (visible_notes(s).len() == 0 && snap(s).note_index == 0),
        visible_todos(s).contains(s.todo_index) ==> snap(s).todo_index == s.todo_index,
        visible_notes(s).contains(s.note_index) ==> snap(s).note_index == s.note_index,
        !visible_todos(s).contains(s.todo_index) && visible_todos(s).len() > 0 ==> snap(s).todo_index
            == visible_todos(s)[0],
        !visible_notes(s).contains(s.note_index) && visible_notes(s).len() > 0 ==> snap(s).note_index
            == visible_notes(s)[0],
{
    lemma_same_todos_shown(snap(s), s, s.todos.len() as int);
    lemma_same_notes_shown(snap(s), s, s.notes.len() as int);
    let v = visible_todos(s);
    if v.len() > 0 && !v.contains(s.todo_index) {
        assert(v.contains(v[0]));
    }
    let w = visible_notes(s);
    if w.len() > 0 && !w.contains(s.note_index) {
        assert(w.contains(w[0]));
    }
}

proof fn lemma_same_todos_shown(a: AppView, b: AppView, n: int)
    requires
        a.filter == b.filter,
        a.todos == b.todos,
    ensures
        visible_todos_below(a, n) == visible_todos_below(b, n),
    decreases n,
{
    if n > 0 {
        lemma_same_todos_shown(a, b, n - 1);
    }
}

proof fn lemma_same_notes_shown(a: AppView, b: AppView, n: int)
    requires
        a.filter == b.filter,
        a.notes == b.notes,
    ensures
        visible_notes_below(a, n) == visible_notes_below(b, n),
    decreases n,
{
    if n > 0 {
        lemma_same_notes_shown(a, b, n - 1);
    }
}

/// States that differ only outside the items and the filter show the same
/// items.
proof fn lemma_same_shown(a: AppView, b: AppView)
    requires
        a.filter == b.filter,
        a.todos == b.todos,
        a.notes == b.notes,
    ensures
        visible_of(a, Pane::Todos) == visible_of(b, Pane::Todos),
        visible_of(a, Pane::Notes) == visible_of(b, Pane::Notes),
{
    lemma_same_todos_shown(a, b, a.todos.len() as int);
    lemma_same_notes_shown(a, b, a.notes.len() as int);
}

/// `G` selects the last item the filter shows in the focused list, and
/// `g` `g` the first; neither asks the store for anything.
pub proof fn lemma_jump_to_ends(s: AppView, g: Key, big_g: Key)
    requires
        s.mode == Mode::Normal,
        !s.pending_g,
        g.code == KeyCode::Char('g'),
        big_g.code == KeyCode::Char('G'),
        visible_of(s, s.focus).len() > 0,
    ensures
        current_index(handle_key(s, big_g).0) == visible_of(s, s.focus).last(),
        handle_key(s, big_g).1 == RequestView::Nothing,
        current_index(handle_key(handle_key(s, g).0, g).0) == visible_of(s, s.focus)[0],
        handle_key(handle_key(s, g).0, g).1 == RequestView::Nothing,
{
    let cleared = AppView { pending_d: false, pending_g: false, pending_c: false, ..s };
    lemma_same_shown(cleared, s);
    let s1 = handle_key(s, g).0;
    assert(s1 == AppView { pending_g: true, ..cleared });
    let cleared1 = AppView { pending_d: false, pending_g: false, pending_c: false, ..s1 };
    lemma_same_shown(cleared1, s);
}

/// Tab moves the focus to the other list, and a second Tab moves it back.
pub proof fn lemma_tab_twice(s: AppView, tab: Key)
    requires
        s.mode == Mode::Normal,
        tab.code == KeyCode::Tab,
    ensures
        handle_key(s, tab).0.focus != s.focus,
        handle_key(handle_key(s, tab).0, tab).0.focus == s.focus,
        handle_key(s, tab).1 == RequestView::Nothing,
{
}

/// `x` on a selected todo asks the store to flip that todo's done flag.
pub proof fn lemma_x_toggles_selected_todo(s: AppView, x: Key)
    requires
        s.mode == Mode::Normal,
        s.focus == Pane::Todos,
        s.todo_index < s.todos.len(),
        x.code == KeyCode::Char('x'),
    ensures
        handle_key(s, x).1 == (RequestView::SetTodoDone {
            index: s.todo_index,
            slug: s.todos[s.todo_index as int].slug,
            done: !s.todos[s.todo_index as int].done,
        }),
{
}

/// Starting a search with `/` and cancelling it with Esc gives back the
/// filter that was in place, in normal mode.
pub proof fn lemma_search_cancel_restores_filter(s: AppView, slash: Key, esc: Key)
    requires
        s.mode == Mode::Normal,
        slash.code == KeyCode::Char('/'),
        esc.code == KeyCode::Esc,
    ensures
        handle_key(handle_key(s, slash).0, esc).0.filter == s.filter,
        handle_key(handle_key(s, slash).0, esc).0.mode == Mode::Normal,
        handle_key(s, slash).1 == RequestView::Nothing,
        handle_key(handle_key(s, slash).0, esc).1 == RequestView::Nothing,
{
}

/// The browser after each of `keys` in turn.
pub open spec fn press_all(s: AppView, keys: Seq<Key>) -> AppView
    decreases keys.len(),
{
    if keys.len() == 0 {
        s
    } else {
        press_all(handle_key(s, keys[0]).0, keys.drop_first())
    }
}

/// A key that edits the search text: a character or Backspace.
pub open spec fn is_typing(k: Key) -> bool {
    k.code is Char || k.code == KeyCode::Backspace
}

/// Typing in the search line keeps the search mode and the saved filter.
proof fn lemma_typing_keeps_backup(t: AppView, keys: Seq<Key>)
    requires
        t.mode == Mode::Search,
        forall|i: int| 0 <= i < keys.len() ==> is_typing(#[trigger] keys[i]),
    ensures
        press_all(t, keys).mode == Mode::Search,
        press_all(t, keys).filter_backup == t.filter_backup,
    decreases keys.len(),
{
    if keys.len() > 0 {
        let k = keys[0];
        assert(is_typing(k));
        let u = handle_key(t, k).0;
        assert(u.mode == Mode::Search && u.filter_backup == t.filter_backup);
        let rest = keys.drop_first();
        assert forall|i: int| 0 <= i < rest.len() implies is_typing(#[trigger] rest[i]) by {
            assert(rest[i] == keys[i + 1]);
        }
        lemma_typing_keeps_backup(u, rest);
    }
}

/// A search session: `/`, any characters and Backspaces, then Esc gives
/// back the filter that was in place, with no saved filter left, in
/// normal mode; Enter instead keeps the typed filter.
pub proof fn lemma_search_session(s: AppView, slash: Key, keys: Seq<Key>, esc: Key, enter: Key)
    requires
        s.mode == Mode::Normal,
        slash.code == KeyCode::Char('/'),
        forall|i: int| 0 <= i < keys.len() ==> is_typing(#[trigger] keys[i]),
        esc.code == KeyCode::Esc,
        enter.code == KeyCode::Enter,
    ensures
        handle_key(press_all(handle_key(s, slash).0, keys), esc).0.filter == s.filter,
        handle_key(press_all(handle_key(s, slash).0, keys), esc).0.filter_backup.len() == 0,
        handle_key(press_all(handle_key(s, slash).0, keys), esc).0.mode == Mode::Normal,
        handle_key(press_all(handle_key(s, slash).0, keys), enter).0.filter == press_all(
            handle_key(s, slash).0,
            keys,
        ).filter,
        handle_key(press_all(handle_key(s, slash).0, keys), enter).0.filter_backup.len() == 0,
        handle_key(press_all(handle_key(s, slash).0, keys), enter).0.mode == Mode::Normal,
{
    let t = handle_key(s, slash).0;
    assert(t.mode == Mode::Search && t.filter_backup == s.filter);
    lemma_typing_keeps_backup(t, keys);
}

/// `c` `c` switches to the next context, after the last back to the first,
/// when there is more than one.
pub proof fn lemma_cc_cycles(s: AppView, c: Key)
    requires
        s.mode == Mode::Normal,
        !s.pending_c,
        c == (Key { code: KeyCode::Char('c'), ctrl: false, other_modifiers: false }),
        s.contexts.len() >= 2,
    ensures
        handle_key(s, c).1 == RequestView::Nothing,
        handle_key(handle_key(s, c).0, c).1 == (RequestView::SwitchContext {
            slug: s.contexts[(active_context_index(s) + 1) % (s.contexts.len() as int)],
        }),
{
    let s1 = handle_key(s, c).0;
    assert(s1.contexts == s.contexts && s1.context == s.context && s1.pending_c && s1.mode == Mode::Normal);
}

/// An unknown command only says so on the status line.
pub proof fn lemma_unknown_command(s: AppView, cmd: Seq<char>)
    requires
        cmd.len() > 0,
        !(seq!["q"@, "quit"@, "wq"@, "x"@, "todo"@, "todos"@, "note"@, "notes"@, "new"@, "delete"@, "rm"@,
            "toggle"@, "reload"@, "sync"@, "ctx"@, "context"@, "clear"@, "nofilter"@, "noh"@, "nohlsearch"@,
            "help"@, "h"@].contains(head_word(cmd))),
    ensures
        run_command(s, cmd) == no_request(AppView { status: "unknown command: "@ + head_word(cmd), ..s }),
{
    let known = seq!["q"@, "quit"@, "wq"@, "x"@, "todo"@, "todos"@, "note"@, "notes"@, "new"@, "delete"@, "rm"@,
        "toggle"@, "reload"@, "sync"@, "ctx"@, "context"@, "clear"@, "nofilter"@, "noh"@, "nohlsearch"@, "help"@,
        "h"@];
    let h = head_word(cmd);
    assert forall|i: int| 0 <= i < known.len() implies h != #[trigger] known[i] by {
        if h == known[i] {
            assert(known.contains(h));
        }
    }
    assert(h != known[0] && h != known[1] && h != known[2] && h != known[3] && h != known[4] && h != known[5]);
    assert(h != known[6] && h != known[7] && h != known[8] && h != known[9] && h != known[10] && h != known[11]);
    assert(h != known[12] && h != known[13] && h != known[14] && h != known[15] && h != known[16]);
    assert(h != known[17] && h != known[18] && h != known[19] && h != known[20] && h != known[21]);
}

/// Opening the command line with `:` and leaving it with Esc returns to
/// normal mode with an empty command line and no suggestions.
pub proof fn lemma_command_escape(s: AppView, colon: Key, esc: Key)
    requires
        s.mode == Mode::Normal,
        colon.code == KeyCode::Char(':'),
        esc.code == KeyCode::Esc,
    ensures
        handle_key(handle_key(s, colon).0, esc).0.mode == Mode::Normal,
        handle_key(handle_key(s, colon).0, esc).0.command_buffer.len() == 0,
        handle_key(handle_key(s, colon).0, esc).0.suggestions.len() == 0,
        handle_key(handle_key(s, colon).0, esc).1 == RequestView::Nothing,
{
}

/// `dd` on a selected todo asks the store to delete exactly that todo.
pub proof fn lemma_dd_deletes_selected_todo(s: AppView, d1: Key, d2: Key)
    requires
        s.mode == Mode::Normal,
        !s.pending_d,
        s.focus == Pane::Todos,
        s.todo_index < s.todos.len(),
        d1.code == KeyCode::Char('d'),
        d2.code == KeyCode::Char('d'),
    ensures
        handle_key(s, d1).1 == RequestView::Nothing,
        handle_key(handle_key(s, d1).0, d2).1 == (RequestView::DeleteTodo {
            index: s.todo_index,
            slug: s.todos[s.todo_index as int].slug,
        }),
{
}

/// `dd` on a selected note asks the store to delete exactly that note.
pub proof fn lemma_dd_deletes_selected_note(s: AppView, d1: Key, d2: Key)
    requires
        s.mode == Mode::Normal,
        !s.pending_d,
        s.focus == Pane::Notes,
        s.note_index < s.notes.len(),
        d1.code == KeyCode::Char('d'),
        d2.code == KeyCode::Char('d'),
    ensures
        handle_key(s, d1).1 == RequestView::Nothing,
        handle_key(handle_key(s, d1).0, d2).1 == (RequestView::DeleteNote {
            index: s.note_index,
            slug: s.notes[s.note_index as int].slug,
        }),
{
}

/// Enter in the input box with text that is not blank asks the store for
/// what the box was opened for, with the trimmed text: a new todo, a new
/// note, a new context, or the new title of the selected todo or note.
pub proof fn lemma_input_enter_requests(s: AppView, enter: Key)
    requires
        s.mode == Mode::Input,
        s.input_target is Some,
        trim(s.input_buffer).len() > 0,
        enter.code == KeyCode::Enter,
    ensures
        handle_key(s, enter).0.mode == Mode::Normal,
        handle_key(s, enter).0.input_buffer == Seq::<char>::empty(),
        s.input_target == Some(InputTarget::NewTodo) ==> handle_key(s, enter).1
            == (RequestView::CreateTodo { title: trim(s.input_buffer) }),
        s.input_target == Some(InputTarget::NewNote) ==> handle_key(s, enter).1
            == (RequestView::CreateNote { title: trim(s.input_buffer) }),
        s.input_target == Some(InputTarget::NewContext) ==> handle_key(s, enter).1
            == (RequestView::CreateContext { name: trim(s.input_buffer) }),
        s.input_target == Some(InputTarget::RenameTodo) && s.todo_index < s.todos.len()
            ==> handle_key(s, enter).1 == (RequestView::RenameTodo {
                index: s.todo_index,
                slug: s.todos[s.todo_index as int].slug,
                title: trim(s.input_buffer),
            }),
        s.input_target == Some(InputTarget::RenameNote) && s.note_index < s.notes.len()
            ==> handle_key(s, enter).1 == (RequestView::RenameNote {
                index: s.note_index,
                slug: s.notes[s.note_index as int].slug,
                title: trim(s.input_buffer),
            }),
{
}

/// Esc in the input box drops the typed text and asks for nothing.
pub proof fn lemma_input_escape_cancels(s: AppView, esc: Key)
    requires
        s.mode == Mode::Input,
        esc.code == KeyCode::Esc,
    ensures
        handle_key(s, esc) == no_request(
            AppView { mode: Mode::Normal, input_buffer: seq![], input_target: None, ..s },
        ),
{
}

/// Submitting only whitespace asks for nothing and says so.
pub proof fn lemma_blank_input_is_cancelled(s: AppView, t: InputTarget, value: Seq<char>)
    requires
        trim(value).len() == 0,
    ensures
        commit_input(s, t, value) == no_request(AppView { status: "cancelled (empty)"@, ..s }),
{
}

/// Ordered by byte length, shortest first.
pub open spec fn by_len_sorted(r: Seq<Seq<char>>) -> bool {
    forall|a: int, b: int| 0 <= a < b < r.len() ==> utf8_len(r[a]) <= utf8_len(r[b])
}

proof fn lemma_len_slot(r: Seq<Seq<char>>, x: Seq<char>)
    requires
        by_len_sorted(r),
    ensures
        0 <= len_slot(r, x) <= r.len(),
        forall|k: int| 0 <= k < len_slot(r, x) ==> utf8_len(#[trigger] r[k]) <= utf8_len(x),
        forall|k: int| len_slot(r, x) <= k < r.len() ==> utf8_len(#[trigger] r[k]) > utf8_len(x),
    decreases r.len(),
{
    if r.len() > 0 {
        if utf8_len(r.last()) <= utf8_len(x) {
            assert forall|k: int| 0 <= k < r.len() implies utf8_len(#[trigger] r[k]) <= utf8_len(x) by {
                if k < r.len() - 1 {
                    assert(utf8_len(r[k]) <= utf8_len(r[r.len() - 1]));
                }
            }
        } else {
            let d = r.drop_last();
            assert forall|a: int, b: int| 0 <= a < b < d.len() implies utf8_len(d[a]) <= utf8_len(d[b]) by {
                assert(d[a] == r[a] && d[b] == r[b]);
            }
            lemma_len_slot(d, x);
            assert forall|k: int| 0 <= k < len_slot(r, x) implies utf8_len(#[trigger] r[k]) <= utf8_len(x) by {
                assert(r[k] == d[k]);
            }
            assert forall|k: int| len_slot(r, x) <= k < r.len() implies utf8_len(#[trigger] r[k]) > utf8_len(x) by {
                if k < r.len() - 1 {
                    assert(r[k] == d[k]);
                }
            }
        }
    }
}

/// Sorting by length keeps exactly the same texts, the same number of
/// them, and orders them shortest first.
pub proof fn lemma_sort_by_len(s: Seq<Seq<char>>)
    ensures
        sort_by_len(s).len() == s.len(),
        forall|y: Seq<char>| sort_by_len(s).contains(y) <==> s.contains(y),
        by_len_sorted(sort_by_len(s)),
    decreases s.len(),
{
    if s.len() > 0 {
        let d = s.drop_last();
        let x = s.last();
        lemma_sort_by_len(d);
        let r = sort_by_len(d);
        lemma_len_slot(r, x);
        let p = len_slot(r, x);
        let q = r.insert(p, x);
        assert(sort_by_len(s) == q);
        assert forall|y: Seq<char>| q.contains(y) <==> s.contains(y) by {
            if q.contains(y) {
                let k = choose|k: int| 0 <= k < q.len() && q[k] == y;
                if k < p {
                    assert(r[k] == y);
                    assert(r.contains(y));
                    assert(d.contains(y));
                    let j = choose|j: int| 0 <= j < d.len() && d[j] == y;
                    assert(d[j] == s[j]);
                } else if k > p {
                    assert(r[k - 1] == y);
                    assert(r.contains(y));
                    assert(d.contains(y));
                    let j = choose|j: int| 0 <= j < d.len() && d[j] == y;
                    assert(d[j] == s[j]);
                } else {
                    assert(s[s.len() - 1] == y);
                }
            }
            if s.contains(y) {
                let j = choose|j: int| 0 <= j < s.len() && s[j] == y;
                if j < s.len() - 1 {
                    assert(d[j] == y);
                    assert(d.contains(y));
                    let k = choose|k: int| 0 <= k < r.len() && r[k] == y;
                    if k < p {
                        assert(q[k] == y);
                    } else {
                        assert(q[k + 1] == y);
                    }
                } else {
                    assert(q[p] == y);
                }
            }
        }
        assert forall|a: int, b: int| 0 <= a < b < q.len() implies utf8_len(q[a]) <= utf8_len(q[b]) by {
            if b < p {
                assert(q[a] == r[a] && q[b] == r[b]);
            } else if b == p {
                assert(q[a] == r[a]);
            } else if a < p {
                assert(q[a] == r[a] && q[b] == r[b - 1]);
            } else if a == p {
                assert(q[b] == r[b - 1]);
            } else {
                assert(q[a] == r[a - 1] && q[b] == r[b - 1]);
            }
        }
    }
}

/// The completions offered for a command line all extend what was typed
/// (lower-cased, without leading whitespace) without equalling it, come
/// shortest first, and are exactly the candidates that do so.
pub proof fn lemma_suggestions(buffer: Seq<char>, contexts: Seq<Seq<char>>)
    ensures
        by_len_sorted(suggestions_for(buffer, contexts)),
        trim_start(buffer).len() > 0 ==> forall|y: Seq<char>|
            #[trigger] suggestions_for(buffer, contexts).contains(y) <==> (candidates(contexts).contains(y)
                && starts_with(y, lowercase(trim_start(buffer))) && y != lowercase(trim_start(buffer))),
{
    let buf = trim_start(buffer);
    if buf.len() > 0 {
        let b = lowercase(buf);
        let f = candidates(contexts).filter(completes(b));
        lemma_sort_by_len(f);
        assert forall|y: Seq<char>| #[trigger] suggestions_for(buffer, contexts).contains(y) <==> (candidates(
            contexts,
        ).contains(y) && starts_with(y, b) && y != b) by {
            let c = candidates(contexts);
            if f.contains(y) {
                c.lemma_filter_contains_rev(completes(b), y);
                let k = choose|k: int| 0 <= k < f.len() && f[k] == y;
                c.lemma_filter_pred(completes(b), k);
            }
            if c.contains(y) && completes(b)(y) {
                let j = choose|j: int| 0 <= j < c.len() && c[j] == y;
                c.lemma_filter_contains(completes(b), j);
            }
        }
    }
}

} // verus!
