//! The todo and notes browser: its state, and a step for each key press and
//! for each outcome of the store calls it asks for.
use vstd::prelude::*;

use crate::editor::VimEditor;
use crate::editor_model::{self as em, EditorExit};
use crate::keys::{Key, KeyCode};
use crate::text::{
    lowercase, trim, append, eq_str, is_whitespace, same_text, str_chars, string_from_chars, to_lowercase, trim_start_ws, trim_ws,
};
use crate::tui_model::{
    self as tm, AppView, InputTarget, Mode, NoteView, Pane, RequestView, SwitchedView, TodoView,
};

verus! {

// ---------------------------------------------------------------------------
// Items and requests
// ---------------------------------------------------------------------------

/// A todo as the browser holds it (dates as RFC 3339 text).
pub struct Todo {
    pub slug: String,
    pub title: String,
    pub description: String,
    pub body: String,
    pub done: bool,
    pub created_at: String,
    pub deleted_at: Option<String>,
}

/// A note as the browser holds it (dates as RFC 3339 text).
pub struct Note {
    pub slug: String,
    pub title: String,
    pub description: String,
    pub body: String,
    pub created_at: String,
    pub deleted_at: Option<String>,
}

pub open spec fn opt_text(o: Option<String>) -> Option<Seq<char>> {
    match o {
        Some(s) => Some(s@),
        None => None,
    }
}

impl View for Todo {
    type V = TodoView;

    open spec fn view(&self) -> TodoView {
        TodoView {
            slug: self.slug@,
            title: self.title@,
            description: self.description@,
            body: self.body@,
            done: self.done,
            created_at: self.created_at@,
            deleted_at: opt_text(self.deleted_at),
        }
    }
}

impl View for Note {
    type V = NoteView;

    open spec fn view(&self) -> NoteView {
        NoteView {
            slug: self.slug@,
            title: self.title@,
            description: self.description@,
            body: self.body@,
            created_at: self.created_at@,
            deleted_at: opt_text(self.deleted_at),
        }
    }
}

fn copy_opt(o: &Option<String>) -> (r: Option<String>)
    ensures
        opt_text(r) == opt_text(*o),
{
    match o {
        Some(s) => Some(s.clone()),
        None => None,
    }
}

impl Todo {
    /// A copy holding the same values.
    pub fn copy(&self) -> (r: Todo)
        ensures
            r@ == self@,
    {
        Todo {
            slug: self.slug.clone(),
            title: self.title.clone(),
            description: self.description.clone(),
            body: self.body.clone(),
            done: self.done,
            created_at: self.created_at.clone(),
            deleted_at: copy_opt(&self.deleted_at),
        }
    }
}

impl Note {
    /// A copy holding the same values.
    pub fn copy(&self) -> (r: Note)
        ensures
            r@ == self@,
    {
        Note {
            slug: self.slug.clone(),
            title: self.title.clone(),
            description: self.description.clone(),
            body: self.body.clone(),
            created_at: self.created_at.clone(),
            deleted_at: copy_opt(&self.deleted_at),
        }
    }
}

/// A store call the browser asks for; its outcome is handed back through
/// the matching `App` method.
pub enum Request {
    Nothing,
    CreateTodo { title: String },
    CreateNote { title: String },
    RenameTodo { index: usize, slug: String, title: String },
    RenameNote { index: usize, slug: String, title: String },
    DeleteTodo { index: usize, slug: String },
    DeleteNote { index: usize, slug: String },
    SetTodoDone { index: usize, slug: String, done: bool },
    SaveTodoBody { index: usize, slug: String, body: String },
    SaveNoteBody { index: usize, slug: String, body: String },
    CreateContext { name: String },
    SwitchContext { slug: String },
    Reload,
}

impl View for Request {
    type V = RequestView;

    open spec fn view(&self) -> RequestView {
        match self {
            Request::Nothing => RequestView::Nothing,
            Request::CreateTodo { title } => RequestView::CreateTodo { title: title@ },
            Request::CreateNote { title } => RequestView::CreateNote { title: title@ },
            Request::RenameTodo { index, slug, title } => RequestView::RenameTodo {
                index: *index,
                slug: slug@,
                title: title@,
            },
            Request::RenameNote { index, slug, title } => RequestView::RenameNote {
                index: *index,
                slug: slug@,
                title: title@,
            },
            Request::DeleteTodo { index, slug } => RequestView::DeleteTodo { index: *index, slug: slug@ },
            Request::DeleteNote { index, slug } => RequestView::DeleteNote { index: *index, slug: slug@ },
            Request::SetTodoDone { index, slug, done } => RequestView::SetTodoDone {
                index: *index,
                slug: slug@,
                done: *done,
            },
            Request::SaveTodoBody { index, slug, body } => RequestView::SaveTodoBody {
                index: *index,
                slug: slug@,
                body: body@,
            },
            Request::SaveNoteBody { index, slug, body } => RequestView::SaveNoteBody {
                index: *index,
                slug: slug@,
                body: body@,
            },
            Request::CreateContext { name } => RequestView::CreateContext { name: name@ },
            Request::SwitchContext { slug } => RequestView::SwitchContext { slug: slug@ },
            Request::Reload => RequestView::Reload,
        }
    }
}

// ---------------------------------------------------------------------------
// The browser
// ---------------------------------------------------------------------------

/// The browser's state; `context` is the store's active context.
pub struct App {
    pub context: String,
    pub contexts: Vec<String>,
    pub todos: Vec<Todo>,
    pub notes: Vec<Note>,
    pub focus: Pane,
    pub mode: Mode,
    pub todo_index: usize,
    pub note_index: usize,
    pub context_index: usize,
    pub status: String,
    pub command_buffer: String,
    pub input_buffer: String,
    pub input_target: Option<InputTarget>,
    pub filter: String,
    pub filter_backup: String,
    pub note_editor: Option<VimEditor>,
    pub editing_note_slug: Option<String>,
    pub todo_editor: Option<VimEditor>,
    pub editing_todo_slug: Option<String>,
    pub should_quit: bool,
    pub pending_d: bool,
    pub pending_g: bool,
    pub pending_c: bool,
    pub suggestions: Vec<String>,
    pub suggestion_index: usize,
}

pub open spec fn texts(v: Seq<String>) -> Seq<Seq<char>> {
    v.map_values(|s: String| s@)
}

pub open spec fn todos_view(v: Seq<Todo>) -> Seq<TodoView> {
    v.map_values(|t: Todo| t@)
}

pub open spec fn notes_view(v: Seq<Note>) -> Seq<NoteView> {
    v.map_values(|n: Note| n@)
}

pub open spec fn editor_view(e: Option<VimEditor>) -> Option<em::EditorView> {
    match e {
        Some(ed) => Some(ed@),
        None => None,
    }
}

impl View for App {
    type V = AppView;

    open spec fn view(&self) -> AppView {
        AppView {
            context: self.context@,
            contexts: texts(self.contexts@),
            todos: todos_view(self.todos@),
            notes: notes_view(self.notes@),
            focus: self.focus,
            mode: self.mode,
            todo_index: self.todo_index,
            note_index: self.note_index,
            context_index: self.context_index,
            status: self.status@,
            command_buffer: self.command_buffer@,
            input_buffer: self.input_buffer@,
            input_target: self.input_target,
            filter: self.filter@,
            filter_backup: self.filter_backup@,
            note_editor: editor_view(self.note_editor),
            editing_note_slug: opt_text(self.editing_note_slug),
            todo_editor: editor_view(self.todo_editor),
            editing_todo_slug: opt_text(self.editing_todo_slug),
            should_quit: self.should_quit,
            pending_d: self.pending_d,
            pending_g: self.pending_g,
            pending_c: self.pending_c,
            suggestions: texts(self.suggestions@),
            suggestion_index: self.suggestion_index,
        }
    }
}

// ---------------------------------------------------------------------------
// Text helpers
// ---------------------------------------------------------------------------

/// Whether `needle` occurs in `hay`.
pub fn contains_text(hay: &String, needle: &String) -> (r: bool)
    ensures
        r == tm::contains_text(hay@, needle@),
{
    let h = str_chars(hay.as_str());
    let n = str_chars(needle.as_str());
    if n.len() > h.len() {
        proof {
            assert forall|i: int| !(0 <= i && i + n@.len() <= h@.len() && #[trigger] h@.subrange(i, i + n@.len()) == n@) by {}
        }
        return false;
    }
    let mut i: usize = 0;
    while i <= h.len() - n.len()
        invariant
            n@.len() <= h@.len(),
            h@ == hay@,
            n@ == needle@,
            forall|k: int| 0 <= k < i ==> #[trigger] h@.subrange(k, k + n@.len()) != n@,
        decreases h.len() - i,
    {
        let mut j: usize = 0;
        let mut same = true;
        while j < n.len()
            invariant
                n@.len() <= h@.len() <= usize::MAX,
                i <= h@.len() - n@.len(),
                j <= n@.len(),
                same == (forall|q: int| 0 <= q < j ==> h@[i + q] == n@[q]),
            decreases n.len() - j,
        {
            if h[i + j] != n[j] {
                same = false;
            }
            j = j + 1;
        }
        if same {
            assert(h@.subrange(i as int, i + n@.len()) =~= n@);
            return true;
        }
        proof {
            if h@.subrange(i as int, i + n@.len()) == n@ {
                assert forall|q: int| 0 <= q < n@.len() implies h@[i + q] == n@[q] by {
                    assert(h@.subrange(i as int, i + n@.len())[q] == h@[i + q]);
                }
            }
        }
        i = i + 1;
    }
    proof {
        assert forall|k: int| !(0 <= k && k + n@.len() <= h@.len() && #[trigger] h@.subrange(k, k + n@.len()) == n@) by {
            if 0 <= k && k + n@.len() <= h@.len() {
                assert(k < i);
            }
        }
    }
    false
}

/// Whether the lower-cased filter `f` shows an item with these texts.
fn shown(f: &String, title: &String, description: &String, body: &String) -> (r: bool)
    ensures
        r == tm::shown(f@, title@, description@, body@),
{
    if f.as_str().unicode_len() == 0 {
        return true;
    }
    let t = to_lowercase(title.as_str());
    if contains_text(&t, f) {
        return true;
    }
    let d = to_lowercase(description.as_str());
    if contains_text(&d, f) {
        return true;
    }
    let b = to_lowercase(body.as_str());
    contains_text(&b, f)
}

/// Index of the first string in `v` with the characters of `x`.
fn position_text(v: &Vec<String>, x: &String) -> (r: Option<usize>)
    ensures
        match r {
            Some(i) => tm::position_of(texts(v@), x@) == Some(i as int),
            None => tm::position_of(texts(v@), x@) is None,
        },
{
    let ghost t = texts(v@);
    let mut i: usize = 0;
    assert(t.subrange(0, t.len() as int) =~= t);
    while i < v.len()
        invariant
            i <= v@.len(),
            t == texts(v@),
            match tm::position_of(t.subrange(i as int, t.len() as int), x@) {
                Some(k) => tm::position_of(t, x@) == Some(k + i),
                None => tm::position_of(t, x@) is None,
            },
        decreases v.len() - i,
    {
        let ghost rest = t.subrange(i as int, t.len() as int);
        assert(rest[0] == v@[i as int]@);
        assert(rest.drop_first() =~= t.subrange(i + 1, t.len() as int));
        if same_text(&v[i], x) {
            return Some(i);
        }
        i = i + 1;
    }
    None
}

/// Index of the first occurrence of `x` in `v`.
pub(crate) fn position_index(v: &Vec<usize>, x: usize) -> (r: Option<usize>)
    ensures
        match r {
            Some(i) => tm::position_of(v@, x) == Some(i as int),
            None => tm::position_of(v@, x) is None,
        },
{
    let mut i: usize = 0;
    assert(v@.subrange(0, v@.len() as int) =~= v@);
    while i < v.len()
        invariant
            i <= v@.len(),
            match tm::position_of(v@.subrange(i as int, v@.len() as int), x) {
                Some(k) => tm::position_of(v@, x) == Some(k + i),
                None => tm::position_of(v@, x) is None,
            },
        decreases v.len() - i,
    {
        let ghost rest = v@.subrange(i as int, v@.len() as int);
        assert(rest[0] == v@[i as int]);
        assert(rest.drop_first() =~= v@.subrange(i + 1, v@.len() as int));
        if v[i] == x {
            return Some(i);
        }
        i = i + 1;
    }
    None
}

/// Whether `x` occurs in `v`.
pub(crate) fn contains_index(v: &Vec<usize>, x: usize) -> (r: bool)
    ensures
        r == v@.contains(x),
{
    let p = position_index(v, x);
    proof {
        tm::lemma_position_of(v@, x);
    }
    p.is_some()
}

impl App {
    /// Indices of the todos the filter shows, in order.
    pub fn visible_todo_indices(&self) -> (r: Vec<usize>)
        ensures
            r@ == tm::visible_todos(self@),
    {
        let f = to_lowercase(self.filter.as_str());
        let mut r: Vec<usize> = Vec::new();
        let mut i: usize = 0;
        while i < self.todos.len()
            invariant
                i <= self.todos@.len(),
                f@ == lowercase(self.filter@),
                r@ == tm::visible_todos_below(self@, i as int),
            decreases self.todos.len() - i,
        {
            let t = &self.todos[i];
            if shown(&f, &t.title, &t.description, &t.body) {
                r.push(i);
            }
            i = i + 1;
        }
        r
    }

    /// Indices of the notes the filter shows, in order.
    pub fn visible_note_indices(&self) -> (r: Vec<usize>)
        ensures
            r@ == tm::visible_notes(self@),
    {
        let f = to_lowercase(self.filter.as_str());
        let mut r: Vec<usize> = Vec::new();
        let mut i: usize = 0;
        while i < self.notes.len()
            invariant
                i <= self.notes@.len(),
                f@ == lowercase(self.filter@),
                r@ == tm::visible_notes_below(self@, i as int),
            decreases self.notes.len() - i,
        {
            let n = &self.notes[i];
            if shown(&f, &n.title, &n.description, &n.body) {
                r.push(i);
            }
            i = i + 1;
        }
        r
    }

    fn visible_indices(&self, pane: Pane) -> (r: Vec<usize>)
        ensures
            r@ == tm::visible_of(self@, pane),
    {
        match pane {
            Pane::Todos => self.visible_todo_indices(),
            Pane::Notes => self.visible_note_indices(),
        }
    }

    fn snap_selection(&mut self)
        ensures
            final(self)@ == tm::snap(old(self)@),
    {
        let tv = self.visible_todo_indices();
        if !contains_index(&tv, self.todo_index) {
            self.todo_index = if tv.len() > 0 {
                tv[0]
            } else {
                0
            };
        }
        let nv = self.visible_note_indices();
        proof {
            assert(tm::visible_notes(self@) == tm::visible_notes(old(self)@)) by {
                lemma_visible_notes_same(self@, old(self)@, self@.notes.len() as int);
            }
        }
        if !contains_index(&nv, self.note_index) {
            self.note_index = if nv.len() > 0 {
                nv[0]
            } else {
                0
            };
        }
    }

    fn current_index(&self) -> (i: usize)
        ensures
            i == tm::current_index(self@),
    {
        match self.focus {
            Pane::Todos => self.todo_index,
            Pane::Notes => self.note_index,
        }
    }

    fn set_index(&mut self, i: usize)
        ensures
            final(self)@ == tm::set_index(old(self)@, i),
    {
        match self.focus {
            Pane::Todos => self.todo_index = i,
            Pane::Notes => self.note_index = i,
        }
    }

    fn move_selection(&mut self, down: bool)
        ensures
            final(self)@ == tm::move_selection(old(self)@, down),
    {
        let v = self.visible_indices(self.focus);
        if v.len() == 0 {
            return;
        }
        let cur = self.current_index();
        let pos = match position_index(&v, cur) {
            Some(p) => p,
            None => 0,
        };
        proof {
            tm::lemma_position_of(v@, cur);
        }
        let np = if down {
            if pos + 1 < v.len() {
                pos + 1
            } else {
                v.len() - 1
            }
        } else if pos > 0 {
            pos - 1
        } else {
            0
        };
        self.set_index(v[np]);
    }
}

/// Which notes are shown depends only on the filter and the notes.
proof fn lemma_visible_notes_same(a: AppView, b: AppView, n: int)
    requires
        a.filter == b.filter,
        a.notes == b.notes,
    ensures
        tm::visible_notes_below(a, n) == tm::visible_notes_below(b, n),
    decreases n,
{
    if n > 0 {
        lemma_visible_notes_same(a, b, n - 1);
    }
}

/// Which todos are shown depends only on the filter and the todos.
proof fn lemma_visible_todos_same(a: AppView, b: AppView, n: int)
    requires
        a.filter == b.filter,
        a.todos == b.todos,
    ensures
        tm::visible_todos_below(a, n) == tm::visible_todos_below(b, n),
    decreases n,
{
    if n > 0 {
        lemma_visible_todos_same(a, b, n - 1);
    }
}

// ---------------------------------------------------------------------------
// Command-line completion
// ---------------------------------------------------------------------------

fn utf8_width(c: char) -> (w: u128)
    ensures
        w == tm::utf8_width(c),
{
    if (c as u32) < 0x80 {
        1
    } else if (c as u32) < 0x800 {
        2
    } else if (c as u32) < 0x10000 {
        3
    } else {
        4
    }
}

/// The number of bytes of `s` in UTF-8.
fn byte_len(s: &String) -> (n: u128)
    ensures
        n == tm::utf8_len(s@),
{
    let v = str_chars(s.as_str());
    let mut n: u128 = 0;
    let mut i: usize = 0;
    while i < v.len()
        invariant
            i <= v@.len(),
            v@ == s@,
            n == tm::utf8_len(v@.take(i as int)),
            n <= 4 * i,
        decreases v.len() - i,
    {
        assert(v@.take(i + 1).drop_last() =~= v@.take(i as int));
        n = n + utf8_width(v[i]);
        i = i + 1;
    }
    assert(v@.take(i as int) =~= v@);
    n
}

/// `v` stably sorted by byte length.
fn sort_by_byte_len(v: Vec<String>) -> (r: Vec<String>)
    ensures
        texts(r@) == tm::sort_by_len(texts(v@)),
{
    let ghost t = texts(v@);
    let mut r: Vec<String> = Vec::new();
    let mut lens: Vec<u128> = Vec::new();
    let mut i: usize = 0;
    while i < v.len()
        invariant
            i <= v@.len(),
            t == texts(v@),
            texts(r@) == tm::sort_by_len(t.take(i as int)),
            lens@.len() == r@.len(),
            forall|k: int| 0 <= k < r@.len() ==> lens@[k] == tm::utf8_len(#[trigger] r@[k]@),
        decreases v.len() - i,
    {
        let x = v[i].clone();
        let xl = byte_len(&x);
        let ghost sr = texts(r@);
        assert(t.take(i + 1).drop_last() =~= t.take(i as int));
        assert(t.take(i + 1).last() == x@);
        let mut j = r.len();
        assert(sr.take(j as int) =~= sr);
        while j > 0 && lens[j - 1] > xl
            invariant
                j <= r@.len(),
                sr == texts(r@),
                lens@.len() == r@.len(),
                forall|k: int| 0 <= k < r@.len() ==> lens@[k] == tm::utf8_len(#[trigger] r@[k]@),
                xl == tm::utf8_len(x@),
                tm::len_slot(sr, x@) == tm::len_slot(sr.take(j as int), x@),
            decreases j,
        {
            assert(sr.take(j as int).last() == r@[j - 1]@);
            assert(sr.take(j as int).drop_last() =~= sr.take(j - 1));
            j = j - 1;
        }
        proof {
            if j > 0 {
                assert(sr.take(j as int).last() == r@[j - 1]@);
            }
        }
        let ghost rb = r@;
        let ghost lb = lens@;
        r.insert(j, x);
        lens.insert(j, xl);
        assert(texts(r@) =~= sr.insert(j as int, x@));
        assert forall|k: int| 0 <= k < r@.len() implies lens@[k] == tm::utf8_len(#[trigger] r@[k]@) by {
            if k < j {
                assert(r@[k] == rb[k] && lens@[k] == lb[k]);
            } else if k > j {
                assert(r@[k] == rb[k - 1] && lens@[k] == lb[k - 1]);
            }
        }
        i = i + 1;
    }
    assert(t.take(i as int) =~= t);
    r
}

/// Whether `hay` starts with `prefix`.
pub fn text_starts_with(hay: &String, prefix: &String) -> (r: bool)
    ensures
        r == tm::starts_with(hay@, prefix@),
{
    let h = str_chars(hay.as_str());
    let p = str_chars(prefix.as_str());
    if p.len() > h.len() {
        return false;
    }
    let mut j: usize = 0;
    while j < p.len()
        invariant
            p@.len() <= h@.len(),
            j <= p@.len(),
            h@ == hay@,
            p@ == prefix@,
            forall|q: int| 0 <= q < j ==> h@[q] == p@[q],
        decreases p.len() - j,
    {
        if h[j] != p[j] {
            proof {
                if h@.subrange(0, p@.len() as int) == p@ {
                    assert(h@.subrange(0, p@.len() as int)[j as int] == h@[j as int]);
                }
            }
            return false;
        }
        j = j + 1;
    }
    assert(h@.subrange(0, p@.len() as int) =~= p@);
    true
}

/// The candidate completions: the commands, then `ctx <name>` per context.
fn candidates(contexts: &Vec<String>) -> (r: Vec<String>)
    ensures
        texts(r@) == tm::candidates(texts(contexts@)),
{
    let mut r: Vec<String> = Vec::new();
    r.push(String::from_str("clear"));
    r.push(String::from_str("ctx"));
    r.push(String::from_str("ctx new"));
    r.push(String::from_str("delete"));
    r.push(String::from_str("h"));
    r.push(String::from_str("help"));
    r.push(String::from_str("noh"));
    r.push(String::from_str("nofilter"));
    r.push(String::from_str("nohlsearch"));
    r.push(String::from_str("note"));
    r.push(String::from_str("notes"));
    r.push(String::from_str("q"));
    r.push(String::from_str("quit"));
    r.push(String::from_str("reload"));
    r.push(String::from_str("rm"));
    r.push(String::from_str("todo"));
    r.push(String::from_str("todos"));
    r.push(String::from_str("toggle"));
    r.push(String::from_str("wq"));
    r.push(String::from_str("x"));
    assert(texts(r@) =~= tm::base_commands());
    let ghost cs = texts(contexts@);
    let mut i: usize = 0;
    while i < contexts.len()
        invariant
            i <= contexts@.len(),
            cs == texts(contexts@),
            texts(r@) == tm::base_commands() + cs.take(i as int).map_values(|c: Seq<char>| "ctx "@ + c),
        decreases contexts.len() - i,
    {
        let mut e = String::from_str("ctx ");
        e.append(contexts[i].as_str());
        let ghost before = texts(r@);
        r.push(e);
        assert(texts(r@) =~= before.push(e@));
        assert(cs.take(i + 1).map_values(|c: Seq<char>| "ctx "@ + c) =~= cs.take(i as int).map_values(
            |c: Seq<char>| "ctx "@ + c,
        ).push("ctx "@ + cs[i as int]));
        assert(texts(r@) =~= tm::base_commands() + cs.take(i + 1).map_values(|c: Seq<char>| "ctx "@ + c));
        i = i + 1;
    }
    assert(cs.take(i as int) =~= cs);
    assert(texts(r@) =~= tm::candidates(cs));
    r
}

/// The completions for a command line.
fn suggestions_for(buffer: &String, contexts: &Vec<String>) -> (r: Vec<String>)
    ensures
        texts(r@) == tm::suggestions_for(buffer@, texts(contexts@)),
{
    let buf = trim_start_ws(buffer);
    if buf.as_str().unicode_len() == 0 {
        let r: Vec<String> = Vec::new();
        assert(texts(r@) =~= seq![]);
        return r;
    }
    let b = to_lowercase(buf.as_str());
    let all = candidates(contexts);
    let ghost ca = texts(all@);
    let ghost pred = tm::completes(b@);
    let mut kept: Vec<String> = Vec::new();
    let mut j: usize = 0;
    while j < all.len()
        invariant
            j <= all@.len(),
            ca == texts(all@),
            pred == tm::completes(b@),
            texts(kept@) == ca.take(j as int).filter(pred),
        decreases all.len() - j,
    {
        reveal(Seq::filter);
        assert(ca.take(j + 1).drop_last() =~= ca.take(j as int));
        assert(ca.take(j + 1).last() == all@[j as int]@);
        let keep = text_starts_with(&all[j], &b) && !same_text(&all[j], &b);
        if keep {
            kept.push(all[j].clone());
            assert(texts(kept@) =~= ca.take(j as int).filter(pred).push(ca[j as int]));
        }
        j = j + 1;
    }
    assert(ca.take(j as int) =~= ca);
    sort_by_byte_len(kept)
}

// ---------------------------------------------------------------------------
// Numbers, words and ordering
// ---------------------------------------------------------------------------

fn digit(d: usize) -> (c: char)
    requires
        d < 10,
    ensures
        c == tm::digit_char(d as nat),
{
    if d == 0 {
        '0'
    } else if d == 1 {
        '1'
    } else if d == 2 {
        '2'
    } else if d == 3 {
        '3'
    } else if d == 4 {
        '4'
    } else if d == 5 {
        '5'
    } else if d == 6 {
        '6'
    } else if d == 7 {
        '7'
    } else if d == 8 {
        '8'
    } else {
        '9'
    }
}

/// `n` in decimal.
pub fn decimal_text(n: usize) -> (s: String)
    ensures
        s@ == tm::decimal(n as nat),
    decreases n,
{
    if n < 10 {
        let mut s = String::new();
        crate::text::push_char(&mut s, digit(n));
        assert(s@ =~= seq![tm::digit_char(n as nat)]);
        s
    } else {
        let mut s = decimal_text(n / 10);
        crate::text::push_char(&mut s, digit(n % 10));
        s
    }
}

/// Index of the first whitespace character of `v`.
fn first_ws(v: &Vec<char>) -> (r: Option<usize>)
    ensures
        match r {
            Some(i) => tm::first_ws_from(v@, 0) == Some(i as int) && i < v@.len(),
            None => tm::first_ws_from(v@, 0) is None,
        },
{
    let mut i: usize = 0;
    while i < v.len()
        invariant
            i <= v@.len(),
            tm::first_ws_from(v@, 0) == tm::first_ws_from(v@, i as int),
        decreases v.len() - i,
    {
        if is_whitespace(v[i]) {
            return Some(i);
        }
        i = i + 1;
    }
    None
}

/// The first word of `s` and the rest after it, trimmed.
pub(crate) fn split_first_word(s: &String) -> (r: (String, String))
    ensures
        r.0@ == tm::head_word(s@),
        r.1@ == tm::rest_words(s@),
{
    let v = str_chars(s.as_str());
    match first_ws(&v) {
        None => {
            assert(v@.subrange(0, v@.len() as int) =~= v@);
            (string_from_chars(&v, 0, v.len()), String::new())
        },
        Some(i) => {
            let head = string_from_chars(&v, 0, i);
            let tail = string_from_chars(&v, i + 1, v.len());
            (head, trim_ws(&tail))
        },
    }
}

/// Whether `a` comes before `b` or equals it, in text order.
pub fn chars_le(a: &Vec<char>, b: &Vec<char>) -> (r: bool)
    ensures
        r == tm::text_le(a@, b@),
{
    let mut i: usize = 0;
    assert(a@.subrange(0, a@.len() as int) =~= a@);
    assert(b@.subrange(0, b@.len() as int) =~= b@);
    while i < a.len() && i < b.len() && a[i] == b[i]
        invariant
            i <= a@.len(),
            i <= b@.len(),
            tm::text_le(a@, b@) == tm::text_le(
                a@.subrange(i as int, a@.len() as int),
                b@.subrange(i as int, b@.len() as int),
            ),
        decreases a.len() - i,
    {
        assert(a@.subrange(i as int, a@.len() as int).drop_first() =~= a@.subrange(i + 1, a@.len() as int));
        assert(b@.subrange(i as int, b@.len() as int).drop_first() =~= b@.subrange(i + 1, b@.len() as int));
        i = i + 1;
    }
    if i == a.len() {
        true
    } else if i == b.len() {
        false
    } else {
        a[i] < b[i]
    }
}

/// `v` sorted in text order.
fn sort_texts(v: Vec<String>) -> (r: Vec<String>)
    ensures
        texts(r@) == tm::sort_texts(texts(v@)),
{
    let ghost t = texts(v@);
    let mut r: Vec<String> = Vec::new();
    let mut keys: Vec<Vec<char>> = Vec::new();
    let mut i: usize = 0;
    while i < v.len()
        invariant
            i <= v@.len(),
            t == texts(v@),
            texts(r@) == tm::sort_texts(t.take(i as int)),
            keys@.len() == r@.len(),
            forall|k: int| 0 <= k < r@.len() ==> (#[trigger] keys@[k])@ == r@[k]@,
        decreases v.len() - i,
    {
        let x = v[i].clone();
        let xk = str_chars(x.as_str());
        let ghost sr = texts(r@);
        assert(t.take(i + 1).drop_last() =~= t.take(i as int));
        assert(t.take(i + 1).last() == x@);
        let mut j = r.len();
        assert(sr.take(j as int) =~= sr);
        while j > 0 && !chars_le(&keys[j - 1], &xk)
            invariant
                j <= r@.len(),
                sr == texts(r@),
                keys@.len() == r@.len(),
                forall|k: int| 0 <= k < r@.len() ==> (#[trigger] keys@[k])@ == r@[k]@,
                xk@ == x@,
                tm::text_slot(sr, x@) == tm::text_slot(sr.take(j as int), x@),
            decreases j,
        {
            assert(sr.take(j as int).last() == r@[j - 1]@);
            assert(sr.take(j as int).drop_last() =~= sr.take(j - 1));
            j = j - 1;
        }
        proof {
            if j > 0 {
                assert(sr.take(j as int).last() == r@[j - 1]@);
            }
        }
        let ghost rb = r@;
        let ghost kb = keys@;
        r.insert(j, x);
        keys.insert(j, xk);
        assert(texts(r@) =~= sr.insert(j as int, x@));
        assert forall|k: int| 0 <= k < r@.len() implies (#[trigger] keys@[k])@ == r@[k]@ by {
            if k < j {
                assert(r@[k] == rb[k] && keys@[k] == kb[k]);
            } else if k > j {
                assert(r@[k] == rb[k - 1] && keys@[k] == kb[k - 1]);
            }
        }
        i = i + 1;
    }
    assert(t.take(i as int) =~= t);
    r
}

/// `s` without its last character, if it has one.
pub(crate) fn without_last(s: &String) -> (r: String)
    ensures
        r@ == if s@.len() > 0 {
            s@.drop_last()
        } else {
            s@
        },
{
    let n = crate::text::char_len(s);
    if n > 0 {
        let r = crate::text::substring(s, 0, n - 1);
        assert(r@ =~= s@.drop_last());
        r
    } else {
        s.clone()
    }
}

/// `s` with `c` appended.
pub(crate) fn with_char(s: &String, c: char) -> (r: String)
    ensures
        r@ == s@.push(c),
{
    let mut r = s.clone();
    crate::text::push_char(&mut r, c);
    r
}

/// A new string `a` followed by `b`.
pub(crate) fn cat(a: &str, b: &str) -> (s: String)
    ensures
        s@ == a@ + b@,
{
    let mut s = String::from_str(a);
    s.append(b);
    s
}

impl App {
    fn start_input(&mut self, t: InputTarget)
        ensures
            final(self)@ == tm::start_input(old(self)@, t),
    {
        self.input_buffer = String::new();
        self.input_target = Some(t);
        self.mode = Mode::Input;
    }

    fn start_input_keep_buffer(&mut self, t: InputTarget)
        ensures
            final(self)@ == tm::start_input_keep_buffer(old(self)@, t),
    {
        self.input_target = Some(t);
        self.mode = Mode::Input;
    }

    fn delete_current(&self) -> (r: Request)
        ensures
            tm::delete_current(self@) == (self@, r@),
    {
        match self.focus {
            Pane::Todos => {
                if self.todo_index < self.todos.len() {
                    Request::DeleteTodo { index: self.todo_index, slug: self.todos[self.todo_index].slug.clone() }
                } else {
                    Request::Nothing
                }
            },
            Pane::Notes => {
                if self.note_index < self.notes.len() {
                    Request::DeleteNote { index: self.note_index, slug: self.notes[self.note_index].slug.clone() }
                } else {
                    Request::Nothing
                }
            },
        }
    }

    fn toggle_done(&self) -> (r: Request)
        ensures
            tm::toggle_done(self@) == (self@, r@),
    {
        if self.todo_index < self.todos.len() {
            let t = &self.todos[self.todo_index];
            Request::SetTodoDone { index: self.todo_index, slug: t.slug.clone(), done: !t.done }
        } else {
            Request::Nothing
        }
    }

    fn open_note_view(&mut self)
        ensures
            final(self)@ == tm::open_note_view(old(self)@),
    {
        if self.note_index < self.notes.len() {
            self.mode = Mode::NoteView;
        }
    }

    fn open_todo_view(&mut self)
        ensures
            final(self)@ == tm::open_todo_view(old(self)@),
    {
        if self.todo_index < self.todos.len() {
            self.mode = Mode::TodoView;
        }
    }

    fn open_note_edit(&mut self)
        requires
            tm::wf(old(self)@),
        ensures
            final(self)@ == tm::open_note_edit(old(self)@),
            tm::wf(final(self)@),
    {
        if self.note_index < self.notes.len() {
            let ed = VimEditor::new(self.notes[self.note_index].body.as_str());
            let slug = self.notes[self.note_index].slug.clone();
            self.note_editor = Some(ed);
            self.editing_note_slug = Some(slug);
            self.mode = Mode::NoteEdit;
            self.status = String::from_str("editing note — :w save  :q cancel  i insert  Esc normal");
        }
    }

    fn open_todo_edit(&mut self)
        requires
            tm::wf(old(self)@),
        ensures
            final(self)@ == tm::open_todo_edit(old(self)@),
            tm::wf(final(self)@),
    {
        if self.todo_index < self.todos.len() {
            let ed = VimEditor::new(self.todos[self.todo_index].body.as_str());
            let slug = self.todos[self.todo_index].slug.clone();
            self.todo_editor = Some(ed);
            self.editing_todo_slug = Some(slug);
            self.mode = Mode::TodoEdit;
            self.status = String::from_str("editing todo — :w save  :q cancel  i insert  Esc normal");
        }
    }

    fn active_context_index(&self) -> (i: usize)
        ensures
            i == tm::active_context_index(self@),
    {
        let p = position_text(&self.contexts, &self.context);
        proof {
            tm::lemma_position_of(texts(self.contexts@), self.context@);
        }
        match p {
            Some(i) => i,
            None => 0,
        }
    }

    fn open_context_browser(&mut self)
        ensures
            final(self)@ == tm::open_context_browser(old(self)@),
    {
        self.context_index = self.active_context_index();
        self.mode = Mode::ContextBrowser;
    }

    fn cycle_context(&mut self) -> (r: Request)
        ensures
            tm::cycle_context(old(self)@) == (final(self)@, r@),
    {
        if self.contexts.len() < 2 {
            self.status = String::from_str("only one context");
            return Request::Nothing;
        }
        let cur = self.active_context_index();
        proof {
            tm::lemma_position_of(texts(self.contexts@), self.context@);
        }
        let next = (cur + 1) % self.contexts.len();
        Request::SwitchContext { slug: self.contexts[next].clone() }
    }

    fn commit_input(&mut self, t: InputTarget, value: &String) -> (r: Request)
        ensures
            tm::commit_input(old(self)@, t, value@) == (final(self)@, r@),
    {
        let v = trim_ws(value);
        if v.as_str().unicode_len() == 0 {
            self.status = String::from_str("cancelled (empty)");
            return Request::Nothing;
        }
        match t {
            InputTarget::NewTodo => Request::CreateTodo { title: v },
            InputTarget::NewNote => Request::CreateNote { title: v },
            InputTarget::RenameTodo => {
                if self.todo_index < self.todos.len() {
                    Request::RenameTodo {
                        index: self.todo_index,
                        slug: self.todos[self.todo_index].slug.clone(),
                        title: v,
                    }
                } else {
                    Request::Nothing
                }
            },
            InputTarget::RenameNote => {
                if self.note_index < self.notes.len() {
                    Request::RenameNote {
                        index: self.note_index,
                        slug: self.notes[self.note_index].slug.clone(),
                        title: v,
                    }
                } else {
                    Request::Nothing
                }
            },
            InputTarget::NewContext => Request::CreateContext { name: v },
        }
    }

    fn update_suggestions(&mut self)
        ensures
            final(self)@ == tm::update_suggestions(old(self)@),
            tm::wf(old(self)@) ==> tm::wf(final(self)@),
    {
        self.suggestions = suggestions_for(&self.command_buffer, &self.contexts);
        if self.suggestion_index >= self.suggestions.len() {
            self.suggestion_index = 0;
        }
    }
}

impl App {
    fn run_ctx(&mut self, arg: &String) -> (r: Request)
        ensures
            tm::run_ctx(old(self)@, arg@) == (final(self)@, r@),
    {
        if arg.as_str().unicode_len() == 0 {
            self.open_context_browser();
            return Request::Nothing;
        }
        let (first, rest) = split_first_word(arg);
        if eq_str(&first, "new") {
            let name = trim_ws(&rest);
            if name.as_str().unicode_len() == 0 {
                self.start_input(InputTarget::NewContext);
                Request::Nothing
            } else {
                Request::CreateContext { name }
            }
        } else {
            Request::SwitchContext { slug: first }
        }
    }

    fn clear_filter(&mut self)
        ensures
            final(self)@ == (AppView { status: "filter cleared"@, ..tm::snap(AppView { filter: seq![], ..old(self)@ }) }),
    {
        self.filter = String::new();
        self.snap_selection();
        self.status = String::from_str("filter cleared");
    }

    fn run_command(&mut self, cmd: &String) -> (r: Request)
        ensures
            tm::run_command(old(self)@, cmd@) == (final(self)@, r@),
    {
        if cmd.as_str().unicode_len() == 0 {
            return Request::Nothing;
        }
        let (head, rest) = split_first_word(cmd);
        if eq_str(&head, "q") || eq_str(&head, "quit") || eq_str(&head, "wq") || eq_str(&head, "x") {
            self.should_quit = true;
            Request::Nothing
        } else if eq_str(&head, "todo") || eq_str(&head, "todos") {
            self.focus = Pane::Todos;
            self.status = String::from_str("focus: todos");
            Request::Nothing
        } else if eq_str(&head, "note") || eq_str(&head, "notes") {
            self.focus = Pane::Notes;
            self.status = String::from_str("focus: notes");
            Request::Nothing
        } else if eq_str(&head, "new") {
            let t = match self.focus {
                Pane::Todos => InputTarget::NewTodo,
                Pane::Notes => InputTarget::NewNote,
            };
            if rest.as_str().unicode_len() == 0 {
                self.start_input(t);
                Request::Nothing
            } else {
                self.commit_input(t, &rest)
            }
        } else if eq_str(&head, "delete") || eq_str(&head, "rm") {
            self.delete_current()
        } else if eq_str(&head, "toggle") {
            self.toggle_done()
        } else if eq_str(&head, "reload") || eq_str(&head, "sync") {
            Request::Reload
        } else if eq_str(&head, "ctx") || eq_str(&head, "context") {
            self.run_ctx(&rest)
        } else if eq_str(&head, "clear") || eq_str(&head, "nofilter") || eq_str(&head, "noh") || eq_str(
            &head,
            "nohlsearch",
        ) {
            self.clear_filter();
            Request::Nothing
        } else if eq_str(&head, "help") || eq_str(&head, "h") {
            self.status = String::from_str(
                "keys: hjkl move/switch | i add | r rename | dd del | x done | e edit | / filter | cc cycle | C browser | :ctx new <name> | :q",
            );
            Request::Nothing
        } else {
            self.status = cat("unknown command: ", head.as_str());
            Request::Nothing
        }
    }
}

impl App {
    #[verifier::rlimit(40)]
    fn handle_normal(&mut self, key: Key) -> (r: Request)
        requires
            tm::wf(old(self)@),
        ensures
            tm::handle_normal(old(self)@, key) == (final(self)@, r@),
            tm::wf(final(self)@),
    {
        let pd = self.pending_d;
        let pg = self.pending_g;
        let pc = self.pending_c;
        self.pending_d = false;
        self.pending_g = false;
        self.pending_c = false;
        match key.code {
            KeyCode::Char('q') if key.plain() => {
                self.should_quit = true;
                Request::Nothing
            },
            KeyCode::Char('c') if key.ctrl_only() => {
                self.should_quit = true;
                Request::Nothing
            },
            KeyCode::Esc => {
                if self.filter.as_str().unicode_len() > 0 {
                    self.clear_filter();
                }
                Request::Nothing
            },
            KeyCode::Char(':') => {
                self.mode = Mode::Command;
                self.command_buffer = String::new();
                Request::Nothing
            },
            KeyCode::Char('/') => {
                self.filter_backup = self.filter.clone();
                self.filter = String::new();
                self.mode = Mode::Search;
                self.snap_selection();
                Request::Nothing
            },
            KeyCode::Char('h') | KeyCode::Left => {
                self.focus = Pane::Todos;
                Request::Nothing
            },
            KeyCode::Char('l') | KeyCode::Right => {
                self.focus = Pane::Notes;
                Request::Nothing
            },
            KeyCode::Char('j') | KeyCode::Down => {
                self.move_selection(true);
                Request::Nothing
            },
            KeyCode::Char('k') | KeyCode::Up => {
                self.move_selection(false);
                Request::Nothing
            },
            KeyCode::Char('g') => {
                if pg {
                    let v = self.visible_indices(self.focus);
                    if v.len() > 0 {
                        self.set_index(v[0]);
                    }
                } else {
                    self.pending_g = true;
                }
                Request::Nothing
            },
            KeyCode::Char('G') => {
                let v = self.visible_indices(self.focus);
                if v.len() > 0 {
                    self.set_index(v[v.len() - 1]);
                }
                Request::Nothing
            },
            KeyCode::Char('i') | KeyCode::Char('a') | KeyCode::Char('o') => {
                let t = match self.focus {
                    Pane::Todos => InputTarget::NewTodo,
                    Pane::Notes => InputTarget::NewNote,
                };
                self.start_input(t);
                Request::Nothing
            },
            KeyCode::Char('r') => {
                match self.focus {
                    Pane::Todos => {
                        if self.todo_index < self.todos.len() {
                            self.input_buffer = self.todos[self.todo_index].title.clone();
                            self.start_input_keep_buffer(InputTarget::RenameTodo);
                        }
                    },
                    Pane::Notes => {
                        if self.note_index < self.notes.len() {
                            self.input_buffer = self.notes[self.note_index].title.clone();
                            self.start_input_keep_buffer(InputTarget::RenameNote);
                        }
                    },
                }
                Request::Nothing
            },
            KeyCode::Char('d') => {
                if pd {
                    self.delete_current()
                } else {
                    self.pending_d = true;
                    Request::Nothing
                }
            },
            KeyCode::Char('x') | KeyCode::Char(' ') => {
                if self.focus == Pane::Todos {
                    self.toggle_done()
                } else {
                    Request::Nothing
                }
            },
            KeyCode::Enter => {
                match self.focus {
                    Pane::Todos => self.toggle_done(),
                    Pane::Notes => {
                        self.open_note_view();
                        Request::Nothing
                    },
                }
            },
            KeyCode::Char('v') => {
                if self.focus == Pane::Todos {
                    self.open_todo_view();
                }
                Request::Nothing
            },
            KeyCode::Char('e') => {
                match self.focus {
                    Pane::Todos => self.open_todo_edit(),
                    Pane::Notes => self.open_note_edit(),
                }
                Request::Nothing
            },
            KeyCode::Tab => {
                self.focus = match self.focus {
                    Pane::Todos => Pane::Notes,
                    Pane::Notes => Pane::Todos,
                };
                Request::Nothing
            },
            KeyCode::Char('c') if key.plain() => {
                if pc {
                    self.cycle_context()
                } else {
                    self.pending_c = true;
                    Request::Nothing
                }
            },
            KeyCode::Char('C') => {
                self.open_context_browser();
                Request::Nothing
            },
            _ => Request::Nothing,
        }
    }
}

impl App {
    fn command_enter(&mut self) -> (r: Request)
        requires
            tm::wf(old(self)@),
        ensures
            tm::run_command(
                AppView {
                    command_buffer: seq![],
                    mode: Mode::Normal,
                    suggestions: seq![],
                    suggestion_index: 0,
                    ..old(self)@
                },
                trim(old(self)@.command_buffer),
            ) == (final(self)@, r@),
            tm::wf(final(self)@),
    {
        let cmd = trim_ws(&self.command_buffer);
        self.command_buffer = String::new();
        self.mode = Mode::Normal;
        self.suggestions = Vec::new();
        self.suggestion_index = 0;
        assert(texts(self.suggestions@) =~= seq![]);
        self.run_command(&cmd)
    }

    #[verifier::rlimit(40)]
    fn handle_command(&mut self, key: Key) -> (r: Request)
        requires
            tm::wf(old(self)@),
        ensures
            tm::handle_command(old(self)@, key) == (final(self)@, r@),
            tm::wf(final(self)@),
    {
        match key.code {
            KeyCode::Esc => {
                self.mode = Mode::Normal;
                self.command_buffer = String::new();
                self.suggestions = Vec::new();
                self.suggestion_index = 0;
                assert(texts(self.suggestions@) =~= seq![]);
                Request::Nothing
            },
            KeyCode::Enter => self.command_enter(),
            KeyCode::Tab => {
                if self.suggestions.len() > 0 {
                    self.command_buffer = self.suggestions[self.suggestion_index].clone();
                    self.update_suggestions();
                }
                Request::Nothing
            },
            KeyCode::Up => {
                if self.suggestions.len() > 0 {
                    self.suggestion_index = if self.suggestion_index == 0 {
                        self.suggestions.len() - 1
                    } else {
                        self.suggestion_index - 1
                    };
                }
                Request::Nothing
            },
            KeyCode::Down => {
                if self.suggestions.len() > 0 {
                    self.suggestion_index = (self.suggestion_index + 1) % self.suggestions.len();
                }
                Request::Nothing
            },
            KeyCode::Backspace => {
                self.command_buffer = without_last(&self.command_buffer);
                self.update_suggestions();
                Request::Nothing
            },
            KeyCode::Char(c) => {
                if !key.ctrl {
                    self.command_buffer = with_char(&self.command_buffer, c);
                    self.update_suggestions();
                }
                Request::Nothing
            },
            _ => Request::Nothing,
        }
    }

    fn handle_search(&mut self, key: Key)
        ensures
            final(self)@ == tm::handle_search(old(self)@, key),
    {
        match key.code {
            KeyCode::Esc => {
                let mut b = String::new();
                std::mem::swap(&mut b, &mut self.filter_backup);
                self.filter = b;
                self.snap_selection();
                self.mode = Mode::Normal;
                self.status = String::from_str("search cancelled");
            },
            KeyCode::Enter => {
                self.filter_backup = String::new();
                self.mode = Mode::Normal;
                self.status = if self.filter.as_str().unicode_len() == 0 {
                    String::from_str("filter cleared")
                } else {
                    cat("filter: ", self.filter.as_str())
                };
            },
            KeyCode::Backspace => {
                self.filter = without_last(&self.filter);
                self.snap_selection();
            },
            KeyCode::Char(c) => {
                if !key.ctrl {
                    self.filter = with_char(&self.filter, c);
                    self.snap_selection();
                }
            },
            _ => {},
        }
    }

    fn handle_input(&mut self, key: Key) -> (r: Request)
        ensures
            tm::handle_input(old(self)@, key) == (final(self)@, r@),
    {
        match key.code {
            KeyCode::Esc => {
                self.mode = Mode::Normal;
                self.input_buffer = String::new();
                self.input_target = None;
                Request::Nothing
            },
            KeyCode::Enter => {
                let mut value = String::new();
                std::mem::swap(&mut value, &mut self.input_buffer);
                let target = self.input_target;
                self.input_target = None;
                self.mode = Mode::Normal;
                match target {
                    Some(t) => self.commit_input(t, &value),
                    None => Request::Nothing,
                }
            },
            KeyCode::Backspace => {
                self.input_buffer = without_last(&self.input_buffer);
                Request::Nothing
            },
            KeyCode::Char(c) => {
                if !key.ctrl {
                    self.input_buffer = with_char(&self.input_buffer, c);
                }
                Request::Nothing
            },
            _ => Request::Nothing,
        }
    }

    fn handle_view(&mut self, key: Key, note: bool)
        requires
            tm::wf(old(self)@),
        ensures
            final(self)@ == tm::handle_view(old(self)@, key, note),
            tm::wf(final(self)@),
    {
        match key.code {
            KeyCode::Esc | KeyCode::Char('q') | KeyCode::Enter => {
                self.mode = Mode::Normal;
            },
            KeyCode::Char('e') => {
                if note {
                    self.open_note_edit();
                } else {
                    self.open_todo_edit();
                }
            },
            _ => {},
        }
    }

    fn handle_context_browser(&mut self, key: Key) -> (r: Request)
        ensures
            tm::handle_context_browser(old(self)@, key) == (final(self)@, r@),
    {
        match key.code {
            KeyCode::Esc | KeyCode::Char('q') => {
                self.mode = Mode::Normal;
                Request::Nothing
            },
            KeyCode::Char('j') | KeyCode::Down => {
                if self.contexts.len() > 0 && self.context_index < self.contexts.len() - 1 {
                    self.context_index = self.context_index + 1;
                }
                Request::Nothing
            },
            KeyCode::Char('k') | KeyCode::Up => {
                self.context_index = if self.context_index >= 1 {
                    self.context_index - 1
                } else {
                    0
                };
                Request::Nothing
            },
            KeyCode::Enter => {
                if self.context_index < self.contexts.len() {
                    let slug = self.contexts[self.context_index].clone();
                    self.mode = Mode::Normal;
                    Request::SwitchContext { slug }
                } else {
                    Request::Nothing
                }
            },
            KeyCode::Char('n') => {
                self.mode = Mode::Input;
                self.input_buffer = String::new();
                self.input_target = Some(InputTarget::NewContext);
                Request::Nothing
            },
            _ => Request::Nothing,
        }
    }
}

impl App {
    /// Index of the first note with slug `slug`.
    fn note_position(&self, slug: &String) -> (r: Option<usize>)
        ensures
            match r {
                Some(i) => tm::position_of(tm::note_slugs(self@), slug@) == Some(i as int) && i < self.notes@.len(),
                None => tm::position_of(tm::note_slugs(self@), slug@) is None,
            },
    {
        let ghost t = tm::note_slugs(self@);
        let mut i: usize = 0;
        assert(t.subrange(0, t.len() as int) =~= t);
        while i < self.notes.len()
            invariant
                i <= self.notes@.len(),
                t == tm::note_slugs(self@),
                match tm::position_of(t.subrange(i as int, t.len() as int), slug@) {
                    Some(k) => tm::position_of(t, slug@) == Some(k + i),
                    None => tm::position_of(t, slug@) is None,
                },
            decreases self.notes.len() - i,
        {
            let ghost rest = t.subrange(i as int, t.len() as int);
            assert(rest[0] == self.notes@[i as int].slug@);
            assert(rest.drop_first() =~= t.subrange(i + 1, t.len() as int));
            if same_text(&self.notes[i].slug, slug) {
                return Some(i);
            }
            i = i + 1;
        }
        None
    }

    /// Index of the first todo with slug `slug`.
    fn todo_position(&self, slug: &String) -> (r: Option<usize>)
        ensures
            match r {
                Some(i) => tm::position_of(tm::todo_slugs(self@), slug@) == Some(i as int) && i < self.todos@.len(),
                None => tm::position_of(tm::todo_slugs(self@), slug@) is None,
            },
    {
        let ghost t = tm::todo_slugs(self@);
        let mut i: usize = 0;
        assert(t.subrange(0, t.len() as int) =~= t);
        while i < self.todos.len()
            invariant
                i <= self.todos@.len(),
                t == tm::todo_slugs(self@),
                match tm::position_of(t.subrange(i as int, t.len() as int), slug@) {
                    Some(k) => tm::position_of(t, slug@) == Some(k + i),
                    None => tm::position_of(t, slug@) is None,
                },
            decreases self.todos.len() - i,
        {
            let ghost rest = t.subrange(i as int, t.len() as int);
            assert(rest[0] == self.todos@[i as int].slug@);
            assert(rest.drop_first() =~= t.subrange(i + 1, t.len() as int));
            if same_text(&self.todos[i].slug, slug) {
                return Some(i);
            }
            i = i + 1;
        }
        None
    }

    fn finish_note_edit(&mut self, ed: &VimEditor, exit: EditorExit) -> (r: Request)
        requires
            tm::wf(old(self)@),
        ensures
            tm::finish_note_edit(AppView { note_editor: Some(ed@), ..old(self)@ }, ed@, exit) == (final(self)@, r@),
            tm::wf(final(self)@),
    {
        let mut slug: Option<String> = None;
        std::mem::swap(&mut slug, &mut self.editing_note_slug);
        self.note_editor = None;
        self.mode = Mode::Normal;
        match exit {
            EditorExit::Save => {
                let body = ed.body();
                match slug {
                    None => Request::Nothing,
                    Some(sl) => {
                        match self.note_position(&sl) {
                            None => Request::Nothing,
                            Some(idx) => {
                                if same_text(&self.notes[idx].body, &body) {
                                    self.status = String::from_str("note unchanged");
                                    Request::Nothing
                                } else {
                                    Request::SaveNoteBody { index: idx, slug: sl, body }
                                }
                            },
                        }
                    },
                }
            },
            EditorExit::Cancel => {
                self.status = String::from_str("edit cancelled");
                Request::Nothing
            },
        }
    }

    fn finish_todo_edit(&mut self, ed: &VimEditor, exit: EditorExit) -> (r: Request)
        requires
            tm::wf(old(self)@),
        ensures
            tm::finish_todo_edit(AppView { todo_editor: Some(ed@), ..old(self)@ }, ed@, exit) == (final(self)@, r@),
            tm::wf(final(self)@),
    {
        let mut slug: Option<String> = None;
        std::mem::swap(&mut slug, &mut self.editing_todo_slug);
        self.todo_editor = None;
        self.mode = Mode::Normal;
        match exit {
            EditorExit::Save => {
                let body = ed.body();
                match slug {
                    None => Request::Nothing,
                    Some(sl) => {
                        match self.todo_position(&sl) {
                            None => Request::Nothing,
                            Some(idx) => {
                                if same_text(&self.todos[idx].body, &body) {
                                    self.status = String::from_str("todo body unchanged");
                                    Request::Nothing
                                } else {
                                    Request::SaveTodoBody { index: idx, slug: sl, body }
                                }
                            },
                        }
                    },
                }
            },
            EditorExit::Cancel => {
                self.status = String::from_str("edit cancelled");
                Request::Nothing
            },
        }
    }

    fn handle_note_edit(&mut self, key: Key) -> (r: Request)
        requires
            tm::wf(old(self)@),
        ensures
            tm::handle_note_edit(old(self)@, key) == (final(self)@, r@),
            tm::wf(final(self)@),
    {
        let mut taken: Option<VimEditor> = None;
        std::mem::swap(&mut taken, &mut self.note_editor);
        match taken {
            None => {
                self.mode = Mode::Normal;
                Request::Nothing
            },
            Some(mut ed) => {
                if ed.within_limits() {
                    ed.handle_key(key);
                }
                match ed.exit_state() {
                    Some(x) => self.finish_note_edit(&ed, x),
                    None => {
                        self.note_editor = Some(ed);
                        Request::Nothing
                    },
                }
            },
        }
    }

    fn handle_todo_edit(&mut self, key: Key) -> (r: Request)
        requires
            tm::wf(old(self)@),
        ensures
            tm::handle_todo_edit(old(self)@, key) == (final(self)@, r@),
            tm::wf(final(self)@),
    {
        let mut taken: Option<VimEditor> = None;
        std::mem::swap(&mut taken, &mut self.todo_editor);
        match taken {
            None => {
                self.mode = Mode::Normal;
                Request::Nothing
            },
            Some(mut ed) => {
                if ed.within_limits() {
                    ed.handle_key(key);
                }
                match ed.exit_state() {
                    Some(x) => self.finish_todo_edit(&ed, x),
                    None => {
                        self.todo_editor = Some(ed);
                        Request::Nothing
                    },
                }
            },
        }
    }

    /// One key press: updates the browser and says which store call, if
    /// any, to make next.
    pub fn handle_key(&mut self, key: Key) -> (r: Request)
        requires
            tm::wf(old(self)@),
        ensures
            tm::handle_key(old(self)@, key) == (final(self)@, r@),
            tm::wf(final(self)@),
    {
        match self.mode {
            Mode::Normal => self.handle_normal(key),
            Mode::Command => self.handle_command(key),
            Mode::Search => {
                self.handle_search(key);
                Request::Nothing
            },
            Mode::Input => self.handle_input(key),
            Mode::TodoView => {
                self.handle_view(key, false);
                Request::Nothing
            },
            Mode::TodoEdit => self.handle_todo_edit(key),
            Mode::NoteView => {
                self.handle_view(key, true);
                Request::Nothing
            },
            Mode::NoteEdit => self.handle_note_edit(key),
            Mode::ContextBrowser => self.handle_context_browser(key),
        }
    }
}

// ---------------------------------------------------------------------------
// Outcomes of the store calls
// ---------------------------------------------------------------------------

pub open spec fn todo_result(r: Result<Todo, String>) -> Result<TodoView, Seq<char>> {
    match r {
        Ok(t) => Ok(t@),
        Err(e) => Err(e@),
    }
}

pub open spec fn note_result(r: Result<Note, String>) -> Result<NoteView, Seq<char>> {
    match r {
        Ok(n) => Ok(n@),
        Err(e) => Err(e@),
    }
}

pub open spec fn unit_result(r: Result<(), String>) -> Result<(), Seq<char>> {
    match r {
        Ok(_) => Ok(()),
        Err(e) => Err(e@),
    }
}

/// What the store hands back on a context switch.
pub struct Switched {
    /// The context's canonical slug.
    pub context: String,
    pub todos: Vec<Todo>,
    pub notes: Vec<Note>,
    /// How many items could not be loaded.
    pub skipped: usize,
}

pub open spec fn switched_result(r: Result<Switched, String>) -> Result<SwitchedView, Seq<char>> {
    match r {
        Ok(w) => Ok(
            SwitchedView {
                context: w.context@,
                todos: todos_view(w.todos@),
                notes: notes_view(w.notes@),
                skipped: w.skipped as nat,
            },
        ),
        Err(e) => Err(e@),
    }
}

pub open spec fn texts_result(r: Result<Vec<String>, String>) -> Result<Seq<Seq<char>>, Seq<char>> {
    match r {
        Ok(v) => Ok(texts(v@)),
        Err(e) => Err(e@),
    }
}

pub open spec fn todos_result(r: Result<(Vec<Todo>, usize), String>) -> Result<(Seq<TodoView>, nat), Seq<char>> {
    match r {
        Ok((v, n)) => Ok((todos_view(v@), n as nat)),
        Err(e) => Err(e@),
    }
}

pub open spec fn notes_result(r: Result<(Vec<Note>, usize), String>) -> Result<(Seq<NoteView>, nat), Seq<char>> {
    match r {
        Ok((v, n)) => Ok((notes_view(v@), n as nat)),
        Err(e) => Err(e@),
    }
}

fn push_todo(v: &mut Vec<Todo>, t: Todo)
    ensures
        todos_view(final(v)@) == todos_view(old(v)@).push(t@),
        final(v)@.len() == old(v)@.len() + 1,
{
    v.push(t);
    assert(todos_view(v@) =~= todos_view(old(v)@).push(t@));
}

fn push_note(v: &mut Vec<Note>, n: Note)
    ensures
        notes_view(final(v)@) == notes_view(old(v)@).push(n@),
        final(v)@.len() == old(v)@.len() + 1,
{
    v.push(n);
    assert(notes_view(v@) =~= notes_view(old(v)@).push(n@));
}

impl App {
    fn set_error(&mut self, e: &String)
        ensures
            final(self)@ == tm::error_status(old(self)@, e@),
    {
        self.status = cat("error: ", e.as_str());
    }

    /// The outcome of creating a todo.
    pub fn todo_created(&mut self, r: Result<Todo, String>)
        requires
            tm::wf(old(self)@),
        ensures
            final(self)@ == tm::todo_created(old(self)@, todo_result(r)),
            tm::wf(final(self)@),
    {
        match r {
            Ok(t) => {
                push_todo(&mut self.todos, t);
                self.todo_index = self.todos.len() - 1;
                self.focus = Pane::Todos;
                self.status = String::from_str("todo added");
            },
            Err(e) => self.set_error(&e),
        }
    }

    /// The outcome of creating a note.
    pub fn note_created(&mut self, r: Result<Note, String>)
        requires
            tm::wf(old(self)@),
        ensures
            final(self)@ == tm::note_created(old(self)@, note_result(r)),
            tm::wf(final(self)@),
    {
        match r {
            Ok(n) => {
                push_note(&mut self.notes, n);
                self.note_index = self.notes.len() - 1;
                self.focus = Pane::Notes;
                self.status = String::from_str("note added");
            },
            Err(e) => self.set_error(&e),
        }
    }

    fn replace_todo(&mut self, index: usize, r: Result<Todo, String>, ok_status: Option<&str>)
        requires
            tm::wf(old(self)@),
            index < old(self)@.todos.len(),
        ensures
            final(self)@ == tm::todo_replaced(
                old(self)@,
                index,
                todo_result(r),
                match ok_status {
                    Some(m) => Some(m@),
                    None => None,
                },
            ),
            tm::wf(final(self)@),
    {
        match r {
            Ok(t) => {
                self.todos.set(index, t);
                assert(todos_view(self.todos@) =~= todos_view(old(self).todos@).update(index as int, t@));
                match ok_status {
                    Some(m) => self.status = String::from_str(m),
                    None => {},
                }
            },
            Err(e) => self.set_error(&e),
        }
    }

    fn replace_note(&mut self, index: usize, r: Result<Note, String>, ok_status: &str)
        requires
            tm::wf(old(self)@),
            index < old(self)@.notes.len(),
        ensures
            final(self)@ == tm::note_replaced(old(self)@, index, note_result(r), ok_status@),
            tm::wf(final(self)@),
    {
        match r {
            Ok(n) => {
                self.notes.set(index, n);
                assert(notes_view(self.notes@) =~= notes_view(old(self).notes@).update(index as int, n@));
                self.status = String::from_str(ok_status);
            },
            Err(e) => self.set_error(&e),
        }
    }

    /// The outcome of renaming the todo at `index`.
    pub fn todo_renamed(&mut self, index: usize, r: Result<Todo, String>)
        requires
            tm::wf(old(self)@),
            index < old(self)@.todos.len(),
        ensures
            final(self)@ == tm::todo_replaced(old(self)@, index, todo_result(r), Some("todo renamed"@)),
            tm::wf(final(self)@),
    {
        self.replace_todo(index, r, Some("todo renamed"));
    }

    /// The outcome of marking the todo at `index` done or not done.
    pub fn todo_done_set(&mut self, index: usize, r: Result<Todo, String>)
        requires
            tm::wf(old(self)@),
            index < old(self)@.todos.len(),
        ensures
            final(self)@ == tm::todo_replaced(old(self)@, index, todo_result(r), None),
            tm::wf(final(self)@),
    {
        self.replace_todo(index, r, None);
    }

    /// The outcome of saving the body of the todo at `index`.
    pub fn todo_body_saved(&mut self, index: usize, r: Result<Todo, String>)
        requires
            tm::wf(old(self)@),
            index < old(self)@.todos.len(),
        ensures
            final(self)@ == tm::todo_replaced(old(self)@, index, todo_result(r), Some("todo saved"@)),
            tm::wf(final(self)@),
    {
        self.replace_todo(index, r, Some("todo saved"));
    }

    /// The outcome of renaming the note at `index`.
    pub fn note_renamed(&mut self, index: usize, r: Result<Note, String>)
        requires
            tm::wf(old(self)@),
            index < old(self)@.notes.len(),
        ensures
            final(self)@ == tm::note_replaced(old(self)@, index, note_result(r), "note renamed"@),
            tm::wf(final(self)@),
    {
        self.replace_note(index, r, "note renamed");
    }

    /// The outcome of saving the body of the note at `index`.
    pub fn note_body_saved(&mut self, index: usize, r: Result<Note, String>)
        requires
            tm::wf(old(self)@),
            index < old(self)@.notes.len(),
        ensures
            final(self)@ == tm::note_replaced(old(self)@, index, note_result(r), "note saved"@),
            tm::wf(final(self)@),
    {
        self.replace_note(index, r, "note saved");
    }

    /// The outcome of deleting the todo at `index`.
    pub fn todo_deleted(&mut self, index: usize, r: Result<(), String>)
        requires
            tm::wf(old(self)@),
            index < old(self)@.todos.len(),
        ensures
            final(self)@ == tm::todo_deleted(old(self)@, index, unit_result(r)),
            tm::wf(final(self)@),
    {
        match r {
            Ok(_) => {
                let _ = self.todos.remove(index);
                assert(todos_view(self.todos@) =~= todos_view(old(self).todos@).remove(index as int));
                self.snap_selection();
                self.status = String::from_str("todo deleted");
            },
            Err(e) => self.set_error(&e),
        }
    }

    /// The outcome of deleting the note at `index`.
    pub fn note_deleted(&mut self, index: usize, r: Result<(), String>)
        requires
            tm::wf(old(self)@),
            index < old(self)@.notes.len(),
        ensures
            final(self)@ == tm::note_deleted(old(self)@, index, unit_result(r)),
            tm::wf(final(self)@),
    {
        match r {
            Ok(_) => {
                let _ = self.notes.remove(index);
                assert(notes_view(self.notes@) =~= notes_view(old(self).notes@).remove(index as int));
                self.snap_selection();
                self.status = String::from_str("note deleted");
            },
            Err(e) => self.set_error(&e),
        }
    }

    /// The outcome of creating the context `name`: on success, switching to
    /// it is the next store call.
    pub fn context_created(&mut self, name: String, r: Result<(), String>) -> (req: Request)
        requires
            tm::wf(old(self)@),
        ensures
            tm::context_created(old(self)@, name@, unit_result(r)) == (final(self)@, req@),
            tm::wf(final(self)@),
    {
        match r {
            Ok(_) => Request::SwitchContext { slug: name },
            Err(e) => {
                self.set_error(&e);
                Request::Nothing
            },
        }
    }
}

fn contains_text_item(v: &Vec<String>, x: &String) -> (r: bool)
    ensures
        r == texts(v@).contains(x@),
{
    let p = position_text(v, x);
    proof {
        tm::lemma_position_of(texts(v@), x@);
    }
    p.is_some()
}

impl App {
    /// The outcome of switching the store to another context.
    pub fn context_switched(&mut self, r: Result<Switched, String>)
        requires
            tm::wf(old(self)@),
        ensures
            final(self)@ == tm::context_switched(old(self)@, switched_result(r)),
            tm::wf(final(self)@),
    {
        match r {
            Ok(w) => {
                let Switched { context, todos, notes, skipped } = w;
                self.todos = todos;
                self.notes = notes;
                self.todo_index = 0;
                self.note_index = 0;
                self.filter = String::new();
                if !contains_text_item(&self.contexts, &context) {
                    let mut cs: Vec<String> = Vec::new();
                    std::mem::swap(&mut cs, &mut self.contexts);
                    let ghost before = texts(cs@);
                    cs.push(context.clone());
                    assert(texts(cs@) =~= before.push(context@));
                    self.contexts = sort_texts(cs);
                }
                let p = position_text(&self.contexts, &context);
                proof {
                    tm::lemma_position_of(texts(self.contexts@), context@);
                }
                self.context_index = match p {
                    Some(i) => i,
                    None => 0,
                };
                self.status = if skipped == 0 {
                    let mut m = cat("switched to [", context.as_str());
                    m.append("]");
                    m
                } else {
                    let mut m = cat("switched to [", context.as_str());
                    m.append("] — ");
                    let n = decimal_text(skipped);
                    m.append(n.as_str());
                    m.append(" item(s) could not be loaded");
                    m
                };
                self.context = context;
            },
            Err(e) => self.set_error(&e),
        }
    }

    /// The outcome of reloading: the contexts, then (when they loaded) the
    /// todos and the notes, each with how many items could not be parsed.
    pub fn reloaded(
        &mut self,
        contexts: Result<Vec<String>, String>,
        todos: Result<(Vec<Todo>, usize), String>,
        notes: Result<(Vec<Note>, usize), String>,
    )
        requires
            tm::wf(old(self)@),
            todos matches Ok((_, tw)) ==> notes matches Ok((_, nw)) ==> tw + nw <= usize::MAX,
        ensures
            final(self)@ == tm::reloaded(old(self)@, texts_result(contexts), todos_result(todos), notes_result(notes)),
            tm::wf(final(self)@),
    {
        match contexts {
            Err(e) => {
                self.status = cat("reload error: ", e.as_str());
            },
            Ok(cs) => {
                self.contexts = cs;
                match (todos, notes) {
                    (Ok((ts, tw)), Ok((ns, nw))) => {
                        self.todos = ts;
                        self.notes = ns;
                        self.snap_selection();
                        let total = tw + nw;
                        self.status = if total == 0 {
                            String::from_str("reloaded")
                        } else {
                            let mut m = String::from_str("reloaded — ");
                            let n = decimal_text(total);
                            m.append(n.as_str());
                            m.append(" item(s) could not be parsed");
                            m
                        };
                    },
                    (Err(e), _) => {
                        self.status = cat("reload error: ", e.as_str());
                    },
                    (Ok(_), Err(e)) => {
                        self.status = cat("reload error: ", e.as_str());
                    },
                }
            },
        }
    }

    /// The browser as it opens on `context`, given the known contexts, the
    /// context's todos and notes, and how many items could not be loaded.
    pub fn bootstrap(context: String, contexts: Vec<String>, todos: Vec<Todo>, notes: Vec<Note>, skipped: usize) -> (app: App)
        ensures
            app@ == tm::bootstrap(context@, texts(contexts@), todos_view(todos@), notes_view(notes@), skipped as nat),
            tm::wf(app@),
    {
        let p = position_text(&contexts, &context);
        proof {
            tm::lemma_position_of(texts(contexts@), context@);
        }
        let context_index = match p {
            Some(i) => i,
            None => 0,
        };
        let status = if skipped == 0 {
            let mut m = cat("welcome — [", context.as_str());
            m.append("]  :help for commands, :q to quit");
            m
        } else {
            let mut m = decimal_text(skipped);
            m.append(" item(s) could not be loaded — check CONTENT.md files in [");
            m.append(context.as_str());
            m.append("]");
            m
        };
        let mut app = App {
            context,
            contexts,
            todos,
            notes,
            focus: Pane::Todos,
            mode: Mode::Normal,
            todo_index: 0,
            note_index: 0,
            context_index,
            status,
            command_buffer: String::new(),
            input_buffer: String::new(),
            input_target: None,
            filter: String::new(),
            filter_backup: String::new(),
            note_editor: None,
            editing_note_slug: None,
            todo_editor: None,
            editing_todo_slug: None,
            should_quit: false,
            pending_d: false,
            pending_g: false,
            pending_c: false,
            suggestions: Vec::new(),
            suggestion_index: 0,
        };
        assert(texts(app.suggestions@) =~= seq![]);
        app.snap_selection();
        app
    }
}

} // verus!
