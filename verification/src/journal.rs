//! The single-file todo and notes browser: its items, its state, and a
//! step for each key press. Writing the store is left to the caller, which
//! the step tells when to do it.
use vstd::prelude::*;

use crate::journal_model::{
    self as jm, Fresh, InputTarget, Stamp, JAppView, JNoteView, JTodoView, Mode, Pane, SaveRequest,
};
use crate::keys::{Key, KeyCode};
use crate::text::{eq_str, to_lowercase, trim_ws};
use crate::tui::{
    cat, contains_index, contains_text, decimal_text, position_index, split_first_word, with_char, without_last,
};

verus! {

/// A todo of the store.
pub struct Todo {
    pub id: u128,
    pub title: String,
    pub done: bool,
    pub created_at: Stamp,
    pub deleted_at: Option<Stamp>,
}

/// A note of the store.
pub struct Note {
    pub id: u128,
    pub title: String,
    pub body: String,
    pub created_at: Stamp,
    pub updated_at: Stamp,
    pub deleted_at: Option<Stamp>,
}

/// Everything the browser keeps: its todos and notes.
pub struct Store {
    pub todos: Vec<Todo>,
    pub notes: Vec<Note>,
}

impl View for Todo {
    type V = JTodoView;

    open spec fn view(&self) -> JTodoView {
        JTodoView {
            id: self.id,
            title: self.title@,
            done: self.done,
            created_at: self.created_at,
            deleted_at: self.deleted_at,
        }
    }
}

impl View for Note {
    type V = JNoteView;

    open spec fn view(&self) -> JNoteView {
        JNoteView {
            id: self.id,
            title: self.title@,
            body: self.body@,
            created_at: self.created_at,
            updated_at: self.updated_at,
            deleted_at: self.deleted_at,
        }
    }
}

/// A random version-4 UUID, as its 128-bit value: calls
/// `uuid::Uuid::new_v4` and `as_u128`. The contract claims what `new_v4`
/// sets on the random bits: the version field (bits 76 to 79) is 4 and the
/// variant field (bits 62 and 63) is the RFC 4122 one, `0b10`. The other
/// bits are random and nothing is claimed of them.
#[verifier::external_body]
fn random_uuid() -> (id: u128)
    ensures
        is_v4_uuid(id),
{
    uuid::Uuid::new_v4().as_u128()
}

/// The current time: calls `chrono::Utc::now` and reads its
/// `timestamp` and `timestamp_subsec_nanos`. Nothing is claimed of the
/// value.
#[verifier::external_body]
fn now_stamp() -> Stamp {
    let t = chrono::Utc::now();
    Stamp { secs: t.timestamp(), nanos: t.timestamp_subsec_nanos() }
}

/// A version-4 UUID of the RFC 4122 variant, as a 128-bit value.
pub open spec fn is_v4_uuid(id: u128) -> bool {
    (id >> 76u128) & 0xfu128 == 4u128 && (id >> 62u128) & 0x3u128 == 2u128
}

impl Fresh {
    /// A new random identity, a version-4 UUID, and the current time (of
    /// which nothing is known).
    pub fn draw() -> (f: Fresh)
        ensures
            is_v4_uuid(f.id),
    {
        let id = random_uuid();
        let now = now_stamp();
        Fresh { id, now }
    }
}

impl Todo {
    /// A new, open todo with a random identity, created now.
    pub fn new(title: String) -> (t: Todo)
        ensures
            t@ == jm::new_todo(title@, Fresh { id: t.id, now: t.created_at }),
    {
        Todo::new_with(title, Fresh::draw())
    }

    /// A new, open todo with the given identity and creation time.
    pub fn new_with(title: String, fresh: Fresh) -> (t: Todo)
        ensures
            t@ == jm::new_todo(title@, fresh),
    {
        Todo { id: fresh.id, title, done: false, created_at: fresh.now, deleted_at: None }
    }
}

impl Note {
    /// A new, empty note with a random identity, created now.
    pub fn new(title: String) -> (n: Note)
        ensures
            n@ == jm::new_note(title@, Fresh { id: n.id, now: n.created_at }),
    {
        Note::new_with(title, Fresh::draw())
    }

    /// A new, empty note with the given identity and creation time.
    pub fn new_with(title: String, fresh: Fresh) -> (n: Note)
        ensures
            n@ == jm::new_note(title@, fresh),
    {
        Note { id: fresh.id, title, body: String::new(), created_at: fresh.now, updated_at: fresh.now, deleted_at: None }
    }
}

pub open spec fn todos_view(v: Seq<Todo>) -> Seq<JTodoView> {
    v.map_values(|t: Todo| t@)
}

pub open spec fn notes_view(v: Seq<Note>) -> Seq<JNoteView> {
    v.map_values(|n: Note| n@)
}

/// The browser's state.
pub struct App {
    pub store: Store,
    pub focus: Pane,
    pub mode: Mode,
    pub todo_index: usize,
    pub note_index: usize,
    pub status: String,
    pub command_buffer: String,
    pub input_buffer: String,
    pub input_target: Option<InputTarget>,
    pub filter: String,
    pub filter_backup: String,
    pub note_buffer: String,
    pub editing_note_index: Option<usize>,
    pub should_quit: bool,
    pub pending_d: bool,
    pub pending_g: bool,
}

impl View for App {
    type V = JAppView;

    open spec fn view(&self) -> JAppView {
        JAppView {
            todos: todos_view(self.store.todos@),
            notes: notes_view(self.store.notes@),
            focus: self.focus,
            mode: self.mode,
            todo_index: self.todo_index,
            note_index: self.note_index,
            status: self.status@,
            command_buffer: self.command_buffer@,
            input_buffer: self.input_buffer@,
            input_target: self.input_target,
            filter: self.filter@,
            filter_backup: self.filter_backup@,
            note_buffer: self.note_buffer@,
            editing_note_index: self.editing_note_index,
            should_quit: self.should_quit,
            pending_d: self.pending_d,
            pending_g: self.pending_g,
        }
    }
}

proof fn lemma_same_notes_shown(a: JAppView, b: JAppView, n: int)
    requires
        a.filter == b.filter,
        a.notes == b.notes,
    ensures
        jm::visible_notes_below(a, n) == jm::visible_notes_below(b, n),
    decreases n,
{
    if n > 0 {
        lemma_same_notes_shown(a, b, n - 1);
    }
}

impl App {
    /// The browser as it opens on a store.
    pub fn new(store: Store) -> (app: App)
        ensures
            app@ == jm::initial(todos_view(store.todos@), notes_view(store.notes@)),
    {
        App {
            store,
            focus: Pane::Todos,
            mode: Mode::Normal,
            todo_index: 0,
            note_index: 0,
            status: String::from_str("welcome — :help for commands, :q to quit"),
            command_buffer: String::new(),
            input_buffer: String::new(),
            input_target: None,
            filter: String::new(),
            filter_backup: String::new(),
            note_buffer: String::new(),
            editing_note_index: None,
            should_quit: false,
            pending_d: false,
            pending_g: false,
        }
    }

    /// Indices of the todos the filter shows, in order.
    pub fn visible_todo_indices(&self) -> (r: Vec<usize>)
        ensures
            r@ == jm::visible_todos(self@),
    {
        let empty = self.filter.as_str().unicode_len() == 0;
        let f = to_lowercase(self.filter.as_str());
        let mut r: Vec<usize> = Vec::new();
        let mut i: usize = 0;
        while i < self.store.todos.len()
            invariant
                i <= self.store.todos@.len(),
                empty == (self.filter@.len() == 0),
                f@ == crate::text::lowercase(self.filter@),
                r@ == jm::visible_todos_below(self@, i as int),
            decreases self.store.todos.len() - i,
        {
            let shown = empty || contains_text(&to_lowercase(self.store.todos[i].title.as_str()), &f);
            if shown {
                r.push(i);
            }
            i = i + 1;
        }
        r
    }

    /// Indices of the notes the filter shows, in order.
    pub fn visible_note_indices(&self) -> (r: Vec<usize>)
        ensures
            r@ == jm::visible_notes(self@),
    {
        let empty = self.filter.as_str().unicode_len() == 0;
        let f = to_lowercase(self.filter.as_str());
        let mut r: Vec<usize> = Vec::new();
        let mut i: usize = 0;
        while i < self.store.notes.len()
            invariant
                i <= self.store.notes@.len(),
                empty == (self.filter@.len() == 0),
                f@ == crate::text::lowercase(self.filter@),
                r@ == jm::visible_notes_below(self@, i as int),
            decreases self.store.notes.len() - i,
        {
            let n = &self.store.notes[i];
            let shown = empty || contains_text(&to_lowercase(n.title.as_str()), &f) || contains_text(
                &to_lowercase(n.body.as_str()),
                &f,
            );
            if shown {
                r.push(i);
            }
            i = i + 1;
        }
        r
    }

    fn visible_indices(&self, pane: Pane) -> (r: Vec<usize>)
        ensures
            r@ == jm::visible_of(self@, pane),
    {
        match pane {
            Pane::Todos => self.visible_todo_indices(),
            Pane::Notes => self.visible_note_indices(),
        }
    }

    fn snap_selection(&mut self)
        ensures
            final(self)@ == jm::snap(old(self)@),
    {
        let tv = self.visible_todo_indices();
        if !contains_index(&tv, self.todo_index) {
            self.todo_index = if tv.len() > 0 {
                tv[0]
            } else {
                0
            };
        }
        let nv = self.visible_note_indices();
        proof {
            lemma_same_notes_shown(self@, old(self)@, self@.notes.len() as int);
        }
        if !contains_index(&nv, self.note_index) {
            self.note_index = if nv.len() > 0 {
                nv[0]
            } else {
                0
            };
        }
    }

    fn set_index(&mut self, i: usize)
        ensures
            final(self)@ == jm::set_index(old(self)@, i),
    {
        match self.focus {
            Pane::Todos => self.todo_index = i,
            Pane::Notes => self.note_index = i,
        }
    }

    fn move_selection(&mut self, down: bool)
        ensures
            final(self)@ == jm::move_selection(old(self)@, down),
    {
        let v = self.visible_indices(self.focus);
        if v.len() == 0 {
            return;
        }
        let cur = match self.focus {
            Pane::Todos => self.todo_index,
            Pane::Notes => self.note_index,
        };
        let pos = match position_index(&v, cur) {
            Some(p) => p,
            None => 0,
        };
        proof {
            crate::tui_model::lemma_position_of(v@, cur);
        }
        let np = if down {
            if pos + 1 < v.len() {
                pos + 1
            } else {
                v.len() - 1
            }
        } else if pos > 0 {
            pos - 1
        } else {
            0
        };
        self.set_index(v[np]);
    }

    fn start_input(&mut self, t: InputTarget)
        ensures
            final(self)@ == jm::start_input(old(self)@, t),
    {
        self.input_buffer = String::new();
        self.input_target = Some(t);
        self.mode = Mode::Input;
    }

    fn commit_input(&mut self, t: InputTarget, value: &String, fresh: Fresh) -> (r: SaveRequest)
        ensures
            jm::commit_input(old(self)@, t, value@, fresh) == (final(self)@, r),
    {
        let v = trim_ws(value);
        if v.as_str().unicode_len() == 0 {
            self.status = String::from_str("cancelled (empty)");
            return SaveRequest::NoSave;
        }
        match t {
            InputTarget::NewTodo => {
                let ghost before = todos_view(self.store.todos@);
                let todo = Todo::new_with(v, fresh);
                self.store.todos.push(todo);
                assert(todos_view(self.store.todos@) =~= before.push(todo@));
                self.todo_index = self.store.todos.len() - 1;
                self.focus = Pane::Todos;
                self.status = String::from_str("todo added");
                SaveRequest::Save { report_failure: false }
            },
            InputTarget::NewNote => {
                let ghost before = notes_view(self.store.notes@);
                let note = Note::new_with(v, fresh);
                self.store.notes.push(note);
                assert(notes_view(self.store.notes@) =~= before.push(note@));
                self.note_index = self.store.notes.len() - 1;
                self.focus = Pane::Notes;
                self.status = String::from_str("note added");
                SaveRequest::Save { report_failure: false }
            },
            InputTarget::RenameTodo => {
                if self.todo_index < self.store.todos.len() {
                    let i = self.todo_index;
                    let old_t = &self.store.todos[i];
                    let t2 = Todo {
                        id: old_t.id,
                        title: v,
                        done: old_t.done,
                        created_at: old_t.created_at,
                        deleted_at: old_t.deleted_at,
                    };
                    let ghost before = todos_view(self.store.todos@);
                    self.store.todos.set(i, t2);
                    assert(todos_view(self.store.todos@) =~= before.update(i as int, t2@));
                    self.status = String::from_str("todo renamed");
                    SaveRequest::Save { report_failure: false }
                } else {
                    SaveRequest::NoSave
                }
            },
            InputTarget::RenameNote => {
                if self.note_index < self.store.notes.len() {
                    let i = self.note_index;
                    let old_n = &self.store.notes[i];
                    let n2 = Note {
                        id: old_n.id,
                        title: v,
                        body: old_n.body.clone(),
                        created_at: old_n.created_at,
                        updated_at: fresh.now,
                        deleted_at: old_n.deleted_at,
                    };
                    let ghost before = notes_view(self.store.notes@);
                    self.store.notes.set(i, n2);
                    assert(notes_view(self.store.notes@) =~= before.update(i as int, n2@));
                    self.status = String::from_str("note renamed");
                    SaveRequest::Save { report_failure: false }
                } else {
                    SaveRequest::NoSave
                }
            },
        }
    }

    fn delete_current(&mut self) -> (r: SaveRequest)
        ensures
            jm::delete_current(old(self)@) == (final(self)@, r),
    {
        match self.focus {
            Pane::Todos => {
                if self.todo_index < self.store.todos.len() {
                    let ghost before = todos_view(self.store.todos@);
                    let _ = self.store.todos.remove(self.todo_index);
                    assert(todos_view(self.store.todos@) =~= before.remove(self.todo_index as int));
                    self.snap_selection();
                    self.status = String::from_str("todo deleted");
                    SaveRequest::Save { report_failure: false }
                } else {
                    SaveRequest::NoSave
                }
            },
            Pane::Notes => {
                if self.note_index < self.store.notes.len() {
                    let ghost before = notes_view(self.store.notes@);
                    let _ = self.store.notes.remove(self.note_index);
                    assert(notes_view(self.store.notes@) =~= before.remove(self.note_index as int));
                    self.snap_selection();
                    self.status = String::from_str("note deleted");
                    SaveRequest::Save { report_failure: false }
                } else {
                    SaveRequest::NoSave
                }
            },
        }
    }

    fn toggle_done(&mut self) -> (r: SaveRequest)
        ensures
            jm::toggle_done(old(self)@) == (final(self)@, r),
    {
        if self.todo_index < self.store.todos.len() {
            let i = self.todo_index;
            let old_t = &self.store.todos[i];
            let t2 = Todo {
                id: old_t.id,
                title: old_t.title.clone(),
                done: !old_t.done,
                created_at: old_t.created_at,
                deleted_at: old_t.deleted_at,
            };
            let ghost before = todos_view(self.store.todos@);
            self.store.todos.set(i, t2);
            assert(todos_view(self.store.todos@) =~= before.update(i as int, t2@));
            SaveRequest::Save { report_failure: true }
        } else {
            SaveRequest::NoSave
        }
    }

    fn open_note_view(&mut self)
        ensures
            final(self)@ == jm::open_note_view(old(self)@),
    {
        if self.note_index < self.store.notes.len() {
            self.mode = Mode::NoteView;
        }
    }

    fn open_note_edit(&mut self)
        ensures
            final(self)@ == jm::open_note_edit(old(self)@),
    {
        if self.note_index < self.store.notes.len() {
            self.note_buffer = self.store.notes[self.note_index].body.clone();
            self.editing_note_index = Some(self.note_index);
            self.mode = Mode::NoteEdit;
            self.status = String::from_str("editing note — Esc to save");
        }
    }

    fn clear_filter(&mut self)
        ensures
            final(self)@ == (JAppView { status: "filter cleared"@, ..jm::snap(JAppView { filter: seq![], ..old(self)@ }) }),
    {
        self.filter = String::new();
        self.snap_selection();
        self.status = String::from_str("filter cleared");
    }

    fn run_command(&mut self, cmd: &String, fresh: Fresh) -> (r: SaveRequest)
        ensures
            jm::run_command(old(self)@, cmd@, fresh) == (final(self)@, r),
    {
        if cmd.as_str().unicode_len() == 0 {
            return SaveRequest::NoSave;
        }
        let (head, rest) = split_first_word(cmd);
        if eq_str(&head, "q") || eq_str(&head, "quit") || eq_str(&head, "wq") || eq_str(&head, "x") {
            self.should_quit = true;
            SaveRequest::NoSave
        } else if eq_str(&head, "w") || eq_str(&head, "write") {
            self.status = String::from_str("saved");
            SaveRequest::Save { report_failure: false }
        } else if eq_str(&head, "todo") || eq_str(&head, "todos") {
            self.focus = Pane::Todos;
            self.status = String::from_str("focus: todos");
            SaveRequest::NoSave
        } else if eq_str(&head, "note") || eq_str(&head, "notes") {
            self.focus = Pane::Notes;
            self.status = String::from_str("focus: notes");
            SaveRequest::NoSave
        } else if eq_str(&head, "new") {
            let t = match self.focus {
                Pane::Todos => InputTarget::NewTodo,
                Pane::Notes => InputTarget::NewNote,
            };
            if rest.as_str().unicode_len() == 0 {
                self.start_input(t);
                SaveRequest::NoSave
            } else {
                self.commit_input(t, &rest, fresh)
            }
        } else if eq_str(&head, "delete") || eq_str(&head, "rm") {
            self.delete_current()
        } else if eq_str(&head, "toggle") {
            self.toggle_done()
        } else if eq_str(&head, "clear") || eq_str(&head, "nofilter") || eq_str(&head, "noh") || eq_str(
            &head,
            "nohlsearch",
        ) {
            self.clear_filter();
            SaveRequest::NoSave
        } else if eq_str(&head, "help") || eq_str(&head, "h") {
            self.status = String::from_str(
                "keys: hjkl move/switch | i add | dd delete | x toggle | / filter | : cmd | e edit note",
            );
            SaveRequest::NoSave
        } else {
            self.status = cat("unknown command: ", head.as_str());
            SaveRequest::NoSave
        }
    }

    #[verifier::rlimit(40)]
    fn handle_normal(&mut self, key: Key) -> (r: SaveRequest)
        ensures
            jm::handle_normal(old(self)@, key) == (final(self)@, r),
    {
        let pd = self.pending_d;
        let pg = self.pending_g;
        self.pending_d = false;
        self.pending_g = false;
        match key.code {
            KeyCode::Char('q') if key.plain() => {
                self.should_quit = true;
                SaveRequest::NoSave
            },
            KeyCode::Char('c') if key.ctrl_only() => {
                self.should_quit = true;
                SaveRequest::NoSave
            },
            KeyCode::Esc => {
                if self.filter.as_str().unicode_len() > 0 {
                    self.clear_filter();
                }
                SaveRequest::NoSave
            },
            KeyCode::Char(':') => {
                self.mode = Mode::Command;
                self.command_buffer = String::new();
                SaveRequest::NoSave
            },
            KeyCode::Char('/') => {
                self.filter_backup = self.filter.clone();
                self.filter = String::new();
                self.mode = Mode::Search;
                self.snap_selection();
                SaveRequest::NoSave
            },
            KeyCode::Char('h') | KeyCode::Left => {
                self.focus = Pane::Todos;
                SaveRequest::NoSave
            },
            KeyCode::Char('l') | KeyCode::Right => {
                self.focus = Pane::Notes;
                SaveRequest::NoSave
            },
            KeyCode::Char('j') | KeyCode::Down => {
                self.move_selection(true);
                SaveRequest::NoSave
            },
            KeyCode::Char('k') | KeyCode::Up => {
                self.move_selection(false);
                SaveRequest::NoSave
            },
            KeyCode::Char('g') => {
                if pg {
                    let v = self.visible_indices(self.focus);
                    if v.len() > 0 {
                        self.set_index(v[0]);
                    }
                } else {
                    self.pending_g = true;
                }
                SaveRequest::NoSave
            },
            KeyCode::Char('G') => {
                let v = self.visible_indices(self.focus);
                if v.len() > 0 {
                    self.set_index(v[v.len() - 1]);
                }
                SaveRequest::NoSave
            },
            KeyCode::Char('i') | KeyCode::Char('a') | KeyCode::Char('o') => {
                let t = match self.focus {
                    Pane::Todos => InputTarget::NewTodo,
                    Pane::Notes => InputTarget::NewNote,
                };
                self.start_input(t);
                SaveRequest::NoSave
            },
            KeyCode::Char('r') => {
                match self.focus {
                    Pane::Todos => {
                        if self.todo_index < self.store.todos.len() {
                            self.input_buffer = self.store.todos[self.todo_index].title.clone();
                            self.input_target = Some(InputTarget::RenameTodo);
                            self.mode = Mode::Input;
                        }
                    },
                    Pane::Notes => {
                        if self.note_index < self.store.notes.len() {
                            self.input_buffer = self.store.notes[self.note_index].title.clone();
                            self.input_target = Some(InputTarget::RenameNote);
                            self.mode = Mode::Input;
                        }
                    },
                }
                SaveRequest::NoSave
            },
            KeyCode::Char('d') => {
                if pd {
                    self.delete_current()
                } else {
                    self.pending_d = true;
                    SaveRequest::NoSave
                }
            },
            KeyCode::Char('x') | KeyCode::Char(' ') => {
                if self.focus == Pane::Todos {
                    self.toggle_done()
                } else {
                    SaveRequest::NoSave
                }
            },
            KeyCode::Enter => {
                match self.focus {
                    Pane::Todos => self.toggle_done(),
                    Pane::Notes => {
                        self.open_note_view();
                        SaveRequest::NoSave
                    },
                }
            },
            KeyCode::Char('e') => {
                if self.focus == Pane::Notes {
                    self.open_note_edit();
                }
                SaveRequest::NoSave
            },
            KeyCode::Tab => {
                self.focus = match self.focus {
                    Pane::Todos => Pane::Notes,
                    Pane::Notes => Pane::Todos,
                };
                SaveRequest::NoSave
            },
            _ => SaveRequest::NoSave,
        }
    }

    fn handle_command(&mut self, key: Key, fresh: Fresh) -> (r: SaveRequest)
        ensures
            jm::handle_command(old(self)@, key, fresh) == (final(self)@, r),
    {
        match key.code {
            KeyCode::Esc => {
                self.mode = Mode::Normal;
                self.command_buffer = String::new();
                SaveRequest::NoSave
            },
            KeyCode::Enter => {
                let cmd = trim_ws(&self.command_buffer);
                self.command_buffer = String::new();
                self.mode = Mode::Normal;
                self.run_command(&cmd, fresh)
            },
            KeyCode::Backspace => {
                self.command_buffer = without_last(&self.command_buffer);
                SaveRequest::NoSave
            },
            KeyCode::Char(c) => {
                if !key.ctrl {
                    self.command_buffer = with_char(&self.command_buffer, c);
                }
                SaveRequest::NoSave
            },
            _ => SaveRequest::NoSave,
        }
    }

    fn handle_search(&mut self, key: Key)
        ensures
            final(self)@ == jm::handle_search(old(self)@, key),
    {
        match key.code {
            KeyCode::Esc => {
                let mut b = String::new();
                std::mem::swap(&mut b, &mut self.filter_backup);
                self.filter = b;
                self.snap_selection();
                self.mode = Mode::Normal;
                self.status = String::from_str("search cancelled");
            },
            KeyCode::Enter => {
                self.filter_backup = String::new();
                self.mode = Mode::Normal;
                self.status = if self.filter.as_str().unicode_len() == 0 {
                    String::from_str("filter cleared")
                } else {
                    cat("filter: ", self.filter.as_str())
                };
            },
            KeyCode::Backspace => {
                self.filter = without_last(&self.filter);
                self.snap_selection();
            },
            KeyCode::Char(c) => {
                if !key.ctrl {
                    self.filter = with_char(&self.filter, c);
                    self.snap_selection();
                }
            },
            _ => {},
        }
    }

    fn handle_input(&mut self, key: Key, fresh: Fresh) -> (r: SaveRequest)
        ensures
            jm::handle_input(old(self)@, key, fresh) == (final(self)@, r),
    {
        match key.code {
            KeyCode::Esc => {
                self.mode = Mode::Normal;
                self.input_buffer = String::new();
                self.input_target = None;
                SaveRequest::NoSave
            },
            KeyCode::Enter => {
                let mut value = String::new();
                std::mem::swap(&mut value, &mut self.input_buffer);
                let target = self.input_target;
                self.input_target = None;
                self.mode = Mode::Normal;
                match target {
                    Some(t) => self.commit_input(t, &value, fresh),
                    None => SaveRequest::NoSave,
                }
            },
            KeyCode::Backspace => {
                self.input_buffer = without_last(&self.input_buffer);
                SaveRequest::NoSave
            },
            KeyCode::Char(c) => {
                if !key.ctrl {
                    self.input_buffer = with_char(&self.input_buffer, c);
                }
                SaveRequest::NoSave
            },
            _ => SaveRequest::NoSave,
        }
    }

    fn handle_note_view(&mut self, key: Key)
        ensures
            final(self)@ == jm::handle_note_view(old(self)@, key),
    {
        match key.code {
            KeyCode::Esc | KeyCode::Char('q') | KeyCode::Enter => {
                self.mode = Mode::Normal;
            },
            KeyCode::Char('e') => self.open_note_edit(),
            _ => {},
        }
    }

    fn handle_note_edit(&mut self, key: Key, fresh: Fresh) -> (r: SaveRequest)
        ensures
            jm::handle_note_edit(old(self)@, key, fresh) == (final(self)@, r),
    {
        match key.code {
            KeyCode::Esc => {
                match self.editing_note_index {
                    None => {},
                    Some(idx) => {
                        self.editing_note_index = None;
                        if idx < self.store.notes.len() {
                            let mut body = String::new();
                            std::mem::swap(&mut body, &mut self.note_buffer);
                            let old_n = &self.store.notes[idx];
                            let n2 = Note {
                                id: old_n.id,
                                title: old_n.title.clone(),
                                body,
                                created_at: old_n.created_at,
                                updated_at: fresh.now,
                                deleted_at: old_n.deleted_at,
                            };
                            let ghost before = notes_view(self.store.notes@);
                            self.store.notes.set(idx, n2);
                            assert(notes_view(self.store.notes@) =~= before.update(idx as int, n2@));
                        }
                    },
                }
                self.mode = Mode::Normal;
                self.status = String::from_str("note saved");
                SaveRequest::Save { report_failure: false }
            },
            KeyCode::Enter => {
                self.note_buffer = with_char(&self.note_buffer, '\n');
                SaveRequest::NoSave
            },
            KeyCode::Tab => {
                self.note_buffer = cat(self.note_buffer.as_str(), "    ");
                SaveRequest::NoSave
            },
            KeyCode::Backspace => {
                self.note_buffer = without_last(&self.note_buffer);
                SaveRequest::NoSave
            },
            KeyCode::Char(c) => {
                if !key.ctrl {
                    self.note_buffer = with_char(&self.note_buffer, c);
                }
                SaveRequest::NoSave
            },
            _ => SaveRequest::NoSave,
        }
    }

    /// One key press: updates the browser and says whether the store must
    /// be written. An item this key creates gets a random identity and the
    /// current time; the step is otherwise that of `step`.
    pub fn handle_key(&mut self, key: Key) -> (r: SaveRequest)
        ensures
            exists|f: Fresh| jm::handle_key(old(self)@, key, f) == (final(self)@, r),
    {
        let fresh = Fresh::draw();
        self.step(key, fresh)
    }

    /// One key press: updates the browser and says whether the store must
    /// be written. `fresh` is the identity and time an item created by
    /// this key would get.
    pub fn step(&mut self, key: Key, fresh: Fresh) -> (r: SaveRequest)
        ensures
            jm::handle_key(old(self)@, key, fresh) == (final(self)@, r),
    {
        match self.mode {
            Mode::Normal => self.handle_normal(key),
            Mode::Command => self.handle_command(key, fresh),
            Mode::Search => {
                self.handle_search(key);
                SaveRequest::NoSave
            },
            Mode::Input => self.handle_input(key, fresh),
            Mode::NoteView => {
                self.handle_note_view(key);
                SaveRequest::NoSave
            },
            Mode::NoteEdit => self.handle_note_edit(key, fresh),
        }
    }

    /// The outcome of writing the store after a step.
    pub fn save_outcome(&mut self, report_failure: bool, r: Result<(), String>)
        ensures
            final(self)@ == jm::save_outcome(
                old(self)@,
                report_failure,
                match r {
                    Ok(_) => Ok(()),
                    Err(e) => Err(e@),
                },
            ),
    {
        match r {
            Err(e) => {
                if report_failure {
                    self.status = cat("save failed: ", e.as_str());
                }
            },
            Ok(_) => {},
        }
    }
}

// ---------------------------------------------------------------------------
// What the screen says
// ---------------------------------------------------------------------------

pub open spec fn input_title_spec(t: Option<InputTarget>) -> Seq<char> {
    match t {
        Some(InputTarget::NewTodo) => "New todo"@,
        Some(InputTarget::NewNote) => "New note"@,
        Some(InputTarget::RenameTodo) => "Rename todo"@,
        Some(InputTarget::RenameNote) => "Rename note"@,
        None => "Input"@,
    }
}

/// The title of the input box.
pub fn input_title(t: Option<InputTarget>) -> (s: String)
    ensures
        s@ == input_title_spec(t),
{
    match t {
        Some(InputTarget::NewTodo) => String::from_str("New todo"),
        Some(InputTarget::NewNote) => String::from_str("New note"),
        Some(InputTarget::RenameTodo) => String::from_str("Rename todo"),
        Some(InputTarget::RenameNote) => String::from_str("Rename note"),
        None => String::from_str("Input"),
    }
}

pub open spec fn help_hint_spec(m: Mode) -> Seq<char> {
    match m {
        Mode::Normal => "hjkl move/switch  i add  dd del  x done  / filter  Esc clear filter  : cmd  e edit-note  q quit"@,
        Mode::Command => "Enter run  Esc cancel   commands: :todo :notes :new :delete :clear :w :q :help"@,
        Mode::Search => "type to filter both panes  Enter keep  Esc revert"@,
        Mode::Input => "Enter confirm  Esc cancel"@,
        Mode::NoteView => "Esc/Enter close  e edit"@,
        Mode::NoteEdit => "type to edit  Enter new line  Backspace delete  Esc save and close"@,
    }
}

/// The key hints shown at the bottom in each mode.
pub fn help_hint(m: Mode) -> (s: String)
    ensures
        s@ == help_hint_spec(m),
{
    match m {
        Mode::Normal => String::from_str(
            "hjkl move/switch  i add  dd del  x done  / filter  Esc clear filter  : cmd  e edit-note  q quit",
        ),
        Mode::Command => String::from_str(
            "Enter run  Esc cancel   commands: :todo :notes :new :delete :clear :w :q :help",
        ),
        Mode::Search => String::from_str("type to filter both panes  Enter keep  Esc revert"),
        Mode::Input => String::from_str("Enter confirm  Esc cancel"),
        Mode::NoteView => String::from_str("Esc/Enter close  e edit"),
        Mode::NoteEdit => String::from_str("type to edit  Enter new line  Backspace delete  Esc save and close"),
    }
}

// ---------------------------------------------------------------------------
// The event log
// ---------------------------------------------------------------------------

/// What changed in the store.
pub enum EventKind {
    TodoCreated { id: u128, title: String },
    TodoRenamed { id: u128, title: String },
    TodoToggled { id: u128, done: bool },
    TodoDeleted { id: u128 },
    NoteCreated { id: u128, title: String },
    NoteRenamed { id: u128, title: String },
    NoteEdited { id: u128, body: String },
    NoteDeleted { id: u128 },
}

/// A change and when it happened.
pub struct Event {
    pub ts: Stamp,
    pub kind: EventKind,
}

/// The colour an event's label is shown in.
#[derive(Clone, Copy, PartialEq, Eq, Debug, Structural)]
pub enum EventColor {
    Green,
    Yellow,
    Blue,
    Red,
}

/// How an event is listed: its label, its colour and a detail.
pub open spec fn event_line_spec(kind: EventKind) -> (Seq<char>, EventColor, Seq<char>) {
    match kind {
        EventKind::TodoCreated { title, .. } => ("TODO CREATED"@, EventColor::Green, seq!['"'] + title@ + seq!['"']),
        EventKind::TodoRenamed { title, .. } => ("TODO RENAMED"@, EventColor::Yellow, seq!['"'] + title@ + seq!['"']),
        EventKind::TodoToggled { done, .. } => (
            "TODO TOGGLED"@,
            EventColor::Blue,
            "done="@ + if done {
                "true"@
            } else {
                "false"@
            },
        ),
        EventKind::TodoDeleted { .. } => ("TODO DELETED"@, EventColor::Red, seq![]),
        EventKind::NoteCreated { title, .. } => ("NOTE CREATED"@, EventColor::Green, seq!['"'] + title@ + seq!['"']),
        EventKind::NoteRenamed { title, .. } => ("NOTE RENAMED"@, EventColor::Yellow, seq!['"'] + title@ + seq!['"']),
        EventKind::NoteEdited { body, .. } => (
            "NOTE EDITED"@,
            EventColor::Blue,
            crate::tui_model::decimal(body@.len()) + " chars"@,
        ),
        EventKind::NoteDeleted { .. } => ("NOTE DELETED"@, EventColor::Red, seq![]),
    }
}

fn quoted(s: &String) -> (q: String)
    ensures
        q@ == seq!['"'] + s@ + seq!['"'],
{
    let mut q = String::new();
    crate::text::push_char(&mut q, '"');
    q.append(s.as_str());
    crate::text::push_char(&mut q, '"');
    assert(q@ =~= seq!['"'] + s@ + seq!['"']);
    q
}

/// How an event is listed in the history.
pub fn render_event_kind(kind: &EventKind) -> (r: (String, EventColor, String))
    ensures
        (r.0@, r.1, r.2@) == event_line_spec(*kind),
{
    match kind {
        EventKind::TodoCreated { title, .. } => (String::from_str("TODO CREATED"), EventColor::Green, quoted(title)),
        EventKind::TodoRenamed { title, .. } => (String::from_str("TODO RENAMED"), EventColor::Yellow, quoted(title)),
        EventKind::TodoToggled { done, .. } => {
            let d = if *done {
                cat("done=", "true")
            } else {
                cat("done=", "false")
            };
            (String::from_str("TODO TOGGLED"), EventColor::Blue, d)
        },
        EventKind::TodoDeleted { .. } => (String::from_str("TODO DELETED"), EventColor::Red, String::new()),
        EventKind::NoteCreated { title, .. } => (String::from_str("NOTE CREATED"), EventColor::Green, quoted(title)),
        EventKind::NoteRenamed { title, .. } => (String::from_str("NOTE RENAMED"), EventColor::Yellow, quoted(title)),
        EventKind::NoteEdited { body, .. } => {
            let mut d = decimal_text(body.as_str().unicode_len());
            d.append(" chars");
            (String::from_str("NOTE EDITED"), EventColor::Blue, d)
        },
        EventKind::NoteDeleted { .. } => (String::from_str("NOTE DELETED"), EventColor::Red, String::new()),
    }
}

} // verus!
