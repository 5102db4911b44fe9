//! A small vim-like text editor used for todo and note bodies.
use vstd::prelude::*;

use crate::editor_model::{self as model, EditorExit, EditorMode, EditorView, SnapView};
use crate::keys::{Key, KeyCode};
use crate::text::{
    append, char_at, char_len, is_alphanumeric, is_whitespace, is_ws, join_strings, join_with,
    eq_str, lemma_split_join, lemma_split_len, push_char, split_chars, split_on, str_chars,
    string_from_chars, substring, trim_ws,
};

verus! {

/// The characters of each string.
pub open spec fn lines_view(v: Seq<String>) -> Seq<Seq<char>> {
    v.map_values(|l: String| l@)
}

struct Snap {
    lines: Vec<String>,
    row: usize,
    col: usize,
}

impl Snap {
    closed spec fn view(&self) -> SnapView {
        SnapView { lines: lines_view(self.lines@), row: self.row, col: self.col }
    }
}

spec fn snaps_view(v: Seq<Snap>) -> Seq<SnapView> {
    v.map_values(|sn: Snap| sn.view())
}

pub struct VimEditor {
    lines: Vec<String>,
    row: usize,
    col: usize,
    mode: EditorMode,
    command_buffer: String,
    status: String,
    exit: Option<EditorExit>,
    visual_anchor: Option<(usize, usize)>,
    pending: Option<char>,
    /// First line shown by the viewport.
    scroll: usize,
    /// Number of text lines the viewport shows.
    viewport_height: usize,
    register: String,
    register_linewise: bool,
    undo: Vec<Snap>,
    redo: Vec<Snap>,
}

impl View for VimEditor {
    type V = EditorView;

    closed spec fn view(&self) -> EditorView {
        EditorView {
            lines: lines_view(self.lines@),
            row: self.row,
            col: self.col,
            mode: self.mode,
            command_buffer: self.command_buffer@,
            status: self.status@,
            exit: self.exit,
            visual_anchor: self.visual_anchor,
            pending: self.pending,
            scroll: self.scroll,
            viewport_height: self.viewport_height,
            register: self.register@,
            register_linewise: self.register_linewise,
            undo: snaps_view(self.undo@),
            redo: snaps_view(self.redo@),
        }
    }
}

/// A copy of every line.
fn clone_lines(v: &Vec<String>) -> (r: Vec<String>)
    ensures
        lines_view(r@) == lines_view(v@),
{
    let mut r: Vec<String> = Vec::new();
    let mut i: usize = 0;
    while i < v.len()
        invariant
            i <= v.len(),
            r@.len() == i,
            lines_view(r@) == lines_view(v@).take(i as int),
        decreases v.len() - i,
    {
        let c = String::from_str(v[i].as_str());
        let ghost old_r = r@;
        r.push(c);
        assert forall|j: int| 0 <= j < i + 1 implies lines_view(r@)[j] == lines_view(v@).take(i + 1)[j] by {
            if j < i {
                assert(r@[j] == old_r[j]);
                assert(lines_view(old_r)[j] == lines_view(v@).take(i as int)[j]);
            }
        }
        assert(lines_view(r@) =~= lines_view(v@).take(i + 1));
        i = i + 1;
    }
    assert(lines_view(v@).take(v.len() as int) =~= lines_view(v@));
    r
}

/// The editor state a fresh editor on `body` starts in.
pub open spec fn initial_view(body: Seq<char>) -> EditorView {
    EditorView {
        lines: split_on(body, '\n'),
        row: 0,
        col: 0,
        mode: EditorMode::Normal,
        command_buffer: seq![],
        status: seq![],
        exit: None,
        visual_anchor: None,
        pending: None,
        scroll: 0,
        viewport_height: 20,
        register: seq![],
        register_linewise: false,
        undo: seq![],
        redo: seq![],
    }
}

impl VimEditor {
    /// An editor on `body`, one line per `\n`-separated piece, cursor at the
    /// start, in normal mode.
    pub fn new(body: &str) -> (ed: Self)
        ensures
            ed@ == initial_view(body@),
            model::wf(ed@),
    {
        let chars = str_chars(body);
        let lines = split_chars(&chars, '\n');
        proof {
            lemma_split_join(body@, '\n');
        }
        let ed = VimEditor {
            lines,
            row: 0,
            col: 0,
            mode: EditorMode::Normal,
            command_buffer: String::new(),
            status: String::new(),
            exit: None,
            visual_anchor: None,
            pending: None,
            scroll: 0,
            viewport_height: 20,
            register: String::new(),
            register_linewise: false,
            undo: Vec::new(),
            redo: Vec::new(),
        };
        assert(ed@.undo =~= seq![]);
        assert(ed@.redo =~= seq![]);
        ed
    }

    /// The number of lines.
    pub fn line_count(&self) -> (n: usize)
        ensures
            n == self@.lines.len(),
    {
        self.lines.len()
    }

    /// The characters of line `r`.
    pub fn line_chars(&self, r: usize) -> (v: Vec<char>)
        requires
            r < self@.lines.len(),
        ensures
            v@ == self@.lines[r as int],
    {
        assert(self@.lines[r as int] == self.lines@[r as int]@);
        str_chars(self.lines[r].as_str())
    }

    /// The cursor's line and column.
    pub fn cursor(&self) -> (rc: (usize, usize))
        ensures
            rc == (self@.row, self@.col),
    {
        (self.row, self.col)
    }

    /// The editing mode.
    pub fn current_mode(&self) -> (m: EditorMode)
        ensures
            m == self@.mode,
    {
        self.mode
    }

    /// The first line the viewport shows.
    pub fn scroll_top(&self) -> (s: usize)
        ensures
            s == self@.scroll,
    {
        self.scroll
    }

    /// Makes line `top` the first one the viewport shows.
    pub fn set_scroll(&mut self, top: usize)
        ensures
            final(self)@ == (EditorView { scroll: top, ..old(self)@ }),
    {
        self.scroll = top;
    }

    /// Tells the editor how many text lines the viewport shows.
    pub fn set_viewport_height(&mut self, h: usize)
        ensures
            final(self)@ == (EditorView { viewport_height: h, ..old(self)@ }),
    {
        self.viewport_height = h;
    }

    /// The command line being typed.
    pub fn command_text(&self) -> (s: String)
        ensures
            s@ == self@.command_buffer,
    {
        self.command_buffer.clone()
    }

    /// The last status message.
    pub fn status_text(&self) -> (s: String)
        ensures
            s@ == self@.status,
    {
        self.status.clone()
    }

    /// How the editing session ended, once it has.
    pub fn exit_state(&self) -> (r: Option<EditorExit>)
        ensures
            r == self@.exit,
    {
        self.exit
    }

    /// Whether every count a key press may compute stays within the
    /// machine's word size.
    pub fn within_limits(&self) -> (r: bool)
        ensures
            r == model::size_ok(self@),
    {
        let reg = char_len(&self.register);
        let n = self.lines.len();
        if reg > usize::MAX - 8 || n >= usize::MAX - 8 - reg {
            return false;
        }
        if n >= usize::MAX - 8 - self.viewport_height / 2 {
            return false;
        }
        let mut i: usize = 0;
        while i < n
            invariant
                i <= n == self.lines@.len(),
                reg == self@.register.len(),
                reg <= usize::MAX - 8,
                forall|j: int| 0 <= j < i ==> #[trigger] self@.lines[j].len() + reg + 8 < usize::MAX,
            decreases n - i,
        {
            let l = char_len(&self.lines[i]);
            assert(self@.lines[i as int] == self.lines@[i as int]@);
            if l >= usize::MAX - 8 - reg {
                assert(self@.lines[i as int].len() + reg + 8 >= usize::MAX);
                return false;
            }
            i = i + 1;
        }
        true
    }


    /// The text: the lines joined with `\n`.
    pub fn body(&self) -> (s: String)
        ensures
            s@ == join_with(self@.lines, '\n'),
    {
        join_strings(&self.lines, '\n')
    }

    /// The selection between the visual anchor and the cursor, in text order.
    pub fn visual_range(&self) -> (r: Option<((usize, usize), (usize, usize))>)
        ensures
            r == model::visual_range(self@),
    {
        match self.visual_anchor {
            None => None,
            Some((ar, ac)) => {
                if ar < self.row || (ar == self.row && ac <= self.col) {
                    Some(((ar, ac), (self.row, self.col)))
                } else {
                    Some(((self.row, self.col), (ar, ac)))
                }
            },
        }
    }

    fn snap(&self) -> (sn: Snap)
        ensures
            sn.view() == model::snap(self@),
    {
        Snap { lines: clone_lines(&self.lines), row: self.row, col: self.col }
    }

    fn push_undo(&mut self)
        ensures
            final(self)@.visual_anchor == old(self)@.visual_anchor,
            final(self)@ == model::push_undo(old(self)@),
    {
        let sn = self.snap();
        self.undo.push(sn);
        self.redo.clear();
        if self.undo.len() > 500 {
            self.undo.remove(0);
        }
        assert(self@.undo =~= model::push_undo(old(self)@).undo);
        assert(self@.redo =~= model::push_undo(old(self)@).redo);
    }

    fn line_char_len(&self, r: usize) -> (n: usize)
        ensures
            n == model::line_len(self@.lines, r as int),
    {
        if r < self.lines.len() {
            char_len(&self.lines[r])
        } else {
            0
        }
    }

    fn clamp_col(&mut self)
        ensures
            final(self)@.visual_anchor == old(self)@.visual_anchor,
            final(self)@ == model::clamp_col(old(self)@),
    {
        if self.lines.len() == 0 {
            self.lines.push(String::new());
            assert(lines_view(self.lines@) =~= seq![Seq::<char>::empty()]);
        }
        if self.row >= self.lines.len() {
            self.row = self.lines.len() - 1;
        }
        let len = self.line_char_len(self.row);
        let max = match self.mode {
            EditorMode::Insert => len,
            _ => if len == 0 {
                0
            } else {
                len - 1
            },
        };
        if self.col > max {
            self.col = max;
        }
    }

    fn restore(&mut self, sn: Snap)
        ensures
            final(self)@.visual_anchor == old(self)@.visual_anchor,
            final(self)@ == model::restore(old(self)@, sn.view()),
    {
        self.lines = sn.lines;
        self.row = sn.row;
        self.col = sn.col;
    }

    fn do_undo(&mut self)
        ensures
            final(self)@.visual_anchor == old(self)@.visual_anchor,
            final(self)@ == model::do_undo(old(self)@),
    {
        if self.undo.len() > 0 {
            let cur = self.snap();
            let sn = self.undo.pop().unwrap();
            self.redo.push(cur);
            assert(self@.undo =~= old(self)@.undo.drop_last());
            assert(self@.redo =~= old(self)@.redo.push(model::snap(old(self)@)));
            self.restore(sn);
            self.clamp_col();
        }
    }

    fn do_redo(&mut self)
        ensures
            final(self)@.visual_anchor == old(self)@.visual_anchor,
            final(self)@ == model::do_redo(old(self)@),
    {
        if self.redo.len() > 0 {
            let cur = self.snap();
            let sn = self.redo.pop().unwrap();
            self.undo.push(cur);
            assert(self@.redo =~= old(self)@.redo.drop_last());
            assert(self@.undo =~= old(self)@.undo.push(model::snap(old(self)@)));
            self.restore(sn);
            self.clamp_col();
        }
    }

    fn set_line(&mut self, r: usize, l: String)
        requires
            r < old(self).lines.len(),
        ensures
            final(self)@.visual_anchor == old(self)@.visual_anchor,
            final(self)@ == model::set_line(old(self)@, r as int, l@),
    {
        self.lines.set(r, l);
        assert(self@.lines =~= old(self)@.lines.update(r as int, l@));
    }

    fn first_nonblank(&self, r: usize) -> (n: usize)
        requires
            self@.lines.len() < usize::MAX,
            forall|i: int| 0 <= i < self@.lines.len() ==> #[trigger] self@.lines[i].len() < usize::MAX,
        ensures
            n == model::first_nonblank(self@, r as int),
    {
        if r >= self.lines.len() {
            return 0;
        }
        let v = self.line_chars(r);
        let mut i: usize = 0;
        while i < v.len() && is_whitespace(v[i])
            invariant
                i <= v.len(),
                v@ == self@.lines[r as int],
                forall|j: int| 0 <= j < i ==> is_ws(#[trigger] v@[j]),
            decreases v.len() - i,
        {
            i = i + 1;
        }
        proof {
            lemma_leading_ws(v@, i as int);
        }
        i
    }

    fn char_at(&self, r: usize, c: usize) -> (o: Option<char>)
        ensures
            o == model::char_at(self@.lines, r as int, c as int),
    {
        if r < self.lines.len() {
            if c < char_len(&self.lines[r]) {
                return Some(char_at(&self.lines[r], c));
            }
        }
        None
    }

    fn next_pos(&self, p: (usize, usize)) -> (q: (usize, usize))
        requires
            p.1 < usize::MAX,
            p.0 + 1 < usize::MAX,
        ensures
            q == model::next_pos(self@, p),
    {
        let (r, c) = p;
        let len = self.line_char_len(r);
        if c < len {
            (r, c + 1)
        } else if r + 1 < self.lines.len() {
            (r + 1, 0)
        } else {
            (r, c)
        }
    }

    /// Position after (r, c), as `advance` gives it.
    fn advance(&self, r: usize, c: usize) -> (q: Option<(usize, usize)>)
        requires
            r < self@.lines.len(),
            self@.lines.len() < usize::MAX,
            c < usize::MAX,
        ensures
            q matches Some(p) ==> model::advance(self@.lines, r as int, c as int) == Some((p.0 as int, p.1 as int)),
            q is None ==> model::advance(self@.lines, r as int, c as int) is None,
    {
        let len = self.line_char_len(r);
        if c + 1 >= len {
            if r + 1 >= self.lines.len() {
                None
            } else {
                Some((r + 1, 0))
            }
        } else {
            Some((r, c + 1))
        }
    }

    fn skip_blanks(&self, r0: usize, c0: usize) -> (p: (usize, usize))
        requires
            r0 < self@.lines.len(),
            c0 <= model::line_len(self@.lines, r0 as int),
            self@.lines.len() < usize::MAX,
            forall|i: int| 0 <= i < self@.lines.len() ==> #[trigger] self@.lines[i].len() < usize::MAX,
        ensures
            (p.0 as int, p.1 as int) == model::skip_blanks(self@.lines, r0 as int, c0 as int),
            p.0 < self@.lines.len(),
            p.1 <= model::line_len(self@.lines, p.0 as int),
            p.0 > r0 || (p.0 == r0 && p.1 >= c0),
    {
        let mut r = r0;
        let mut c = c0;
        loop
            invariant
                r < self@.lines.len(),
                c <= model::line_len(self@.lines, r as int),
                self@.lines.len() < usize::MAX,
                forall|i: int| 0 <= i < self@.lines.len() ==> #[trigger] self@.lines[i].len() < usize::MAX,
                model::skip_blanks(self@.lines, r0 as int, c0 as int) == model::skip_blanks(self@.lines, r as int, c as int),
                r > r0 || (r == r0 && c >= c0),
            decreases self@.lines.len() - r, model::line_len(self@.lines, r as int) - c,
        {
            assert(self@.lines[r as int].len() < usize::MAX);
            match self.char_at(r, c) {
                None => return (r, c),
                Some(ch) => {
                    if !is_whitespace(ch) {
                        return (r, c);
                    }
                    match self.advance(r, c) {
                        None => return (r, c),
                        Some((r2, c2)) => {
                            r = r2;
                            c = c2;
                        },
                    }
                },
            }
        }
    }

    fn word_forward_target(&self, r0: usize, c0: usize, word: bool) -> (p: (usize, usize))
        requires
            r0 < self@.lines.len(),
            c0 <= model::line_len(self@.lines, r0 as int),
            self@.lines.len() < usize::MAX,
            forall|i: int| 0 <= i < self@.lines.len() ==> #[trigger] self@.lines[i].len() < usize::MAX,
        ensures
            (p.0 as int, p.1 as int) == model::word_forward_target(self@.lines, r0 as int, c0 as int, word),
            p.0 < self@.lines.len(),
            p.1 <= model::line_len(self@.lines, p.0 as int),
            p.0 > r0 || (p.0 == r0 && p.1 >= c0),
    {
        let start_class = match self.char_at(r0, c0) {
            Some(ch) => klass(word, ch),
            None => 0,
        };
        let mut r = r0;
        let mut c = c0;
        loop
            invariant
                r < self@.lines.len(),
                c <= model::line_len(self@.lines, r as int),
                self@.lines.len() < usize::MAX,
                forall|i: int| 0 <= i < self@.lines.len() ==> #[trigger] self@.lines[i].len() < usize::MAX,
                model::word_forward_target(self@.lines, r0 as int, c0 as int, word)
                    == model::word_scan(self@.lines, r as int, c as int, word, start_class),
                r > r0 || (r == r0 && c >= c0),
            decreases self@.lines.len() - r, model::line_len(self@.lines, r as int) - c,
        {
            assert(self@.lines[r as int].len() < usize::MAX);
            match self.advance(r, c) {
                None => {
                    let len = self.line_char_len(r);
                    return (r, len);
                },
                Some((r2, c2)) => {
                    match self.char_at(r2, c2) {
                        None => return (r2, c2),
                        Some(ch) => {
                            let k = klass(word, ch);
                            if k != 0 && k != start_class {
                                return (r2, c2);
                            }
                            if start_class != 0 && k == 0 {
                                return self.skip_blanks(r2, c2);
                            }
                            r = r2;
                            c = c2;
                        },
                    }
                },
            }
        }
    }

    fn run_start(&self, r: usize, c0: usize, word: bool, k: u8) -> (c: usize)
        ensures
            c as int == model::run_start(self@.lines, r as int, c0 as int, word, k),
            c <= c0,
    {
        let mut c = c0;
        while c > 0
            invariant
                c <= c0,
                model::run_start(self@.lines, r as int, c0 as int, word, k) == model::run_start(self@.lines, r as int, c as int, word, k),
            decreases c,
        {
            match self.char_at(r, c - 1) {
                None => return c,
                Some(p) => {
                    if klass(word, p) == k {
                        c = c - 1;
                    } else {
                        return c;
                    }
                },
            }
        }
        c
    }

    fn word_back_target(&self, r0: usize, c0: usize, word: bool) -> (p: (usize, usize))
        requires
            r0 < self@.lines.len(),
        ensures
            (p.0 as int, p.1 as int) == model::back_scan(self@.lines, r0 as int, c0 as int, word),
    {
        let mut r = r0;
        let mut c = c0;
        loop
            invariant
                r < self@.lines.len(),
                model::back_scan(self@.lines, r0 as int, c0 as int, word) == model::back_scan(self@.lines, r as int, c as int, word),
            decreases r, c,
        {
            if c == 0 {
                if r == 0 {
                    return (r, c);
                }
                let l = self.line_char_len(r - 1);
                if l > 0 {
                    r = r - 1;
                    c = l - 1;
                } else {
                    r = r - 1;
                    c = 0;
                    continue;
                }
            } else {
                c = c - 1;
            }
            assert(model::back_scan(self@.lines, r0 as int, c0 as int, word) == model::back_step(self@.lines, r as int, c as int, word));
            match self.char_at(r, c) {
                None => {},
                Some(ch) => {
                    let k = klass(word, ch);
                    if k != 0 {
                        let s = self.run_start(r, c, word, k);
                        return (r, s);
                    }
                },
            }
        }
    }

    fn run_end(&self, r: usize, c0: usize, word: bool, k: u8) -> (c: usize)
        requires
            r < self@.lines.len(),
            self@.lines[r as int].len() < usize::MAX,
            c0 <= self@.lines[r as int].len(),
        ensures
            c as int == model::run_end(self@.lines, r as int, c0 as int, word, k),
    {
        let mut c = c0;
        loop
            invariant
                r < self@.lines.len(),
                self@.lines[r as int].len() < usize::MAX,
                c <= self@.lines[r as int].len(),
                model::run_end(self@.lines, r as int, c0 as int, word, k) == model::run_end(self@.lines, r as int, c as int, word, k),
            decreases model::line_len(self@.lines, r as int) - c,
        {
            let len = self.line_char_len(r);
            if c + 1 >= len {
                return c;
            }
            match self.char_at(r, c + 1) {
                None => return c,
                Some(n) => {
                    if klass(word, n) != k {
                        return c;
                    }
                    c = c + 1;
                },
            }
        }
    }

    fn word_end_target(&self, r0: usize, c0: usize, word: bool) -> (p: (usize, usize))
        requires
            r0 < self@.lines.len(),
            c0 <= model::line_len(self@.lines, r0 as int),
            self@.lines.len() < usize::MAX,
            forall|i: int| 0 <= i < self@.lines.len() ==> #[trigger] self@.lines[i].len() < usize::MAX,
        ensures
            (p.0 as int, p.1 as int) == model::word_end_target(self@.lines, r0 as int, c0 as int, word),
    {
        let len = self.line_char_len(r0);
        assert(self@.lines[r0 as int].len() < usize::MAX);
        let (r1, c1) = if c0 + 1 < len {
            (r0, c0 + 1)
        } else if r0 + 1 < self.lines.len() {
            (r0 + 1, 0)
        } else {
            (r0, c0)
        };
        let (r2, c2) = self.skip_blanks(r1, c1);
        match self.char_at(r2, c2) {
            None => (r2, c2),
            Some(ch) => {
                if is_whitespace(ch) {
                    (r2, c2)
                } else {
                    assert(self@.lines[r2 as int].len() < usize::MAX);
                    (r2, self.run_end(r2, c2, word, klass(word, ch)))
                }
            },
        }
    }

    fn enter_insert(&mut self)
        ensures
            final(self)@.visual_anchor == old(self)@.visual_anchor,
            final(self)@ == model::enter_insert(old(self)@),
    {
        self.mode = EditorMode::Insert;
        self.status = String::from_str("-- INSERT --");
    }

    /// Deletes the character under the cursor into the register.
    fn delete_char_under(&mut self)
        requires
            model::wf(old(self)@),
            model::size_ok(old(self)@),
        ensures
            final(self)@.visual_anchor == old(self)@.visual_anchor,
            final(self)@ == model::delete_char_under(old(self)@),
    {
        let len = self.line_char_len(self.row);
        if len == 0 {
            return;
        }
        self.push_undo();
        let row = self.row;
        let col = self.col;
        assert(old(self)@.lines[row as int].len() + 8 < usize::MAX);
        let removed = slice_line(&self.lines[row], col, col + 1);
        let nl = remove_span(&self.lines[row], col, col + 1);
        self.set_line(row, nl);
        self.register = removed;
        self.register_linewise = false;
        let nlen = self.line_char_len(row);
        if self.col >= nlen && nlen > 0 {
            self.col = nlen - 1;
        }
    }

    fn delete_to_end_of_line(&mut self)
        requires
            model::wf(old(self)@),
            model::size_ok(old(self)@),
        ensures
            final(self)@.visual_anchor == old(self)@.visual_anchor,
            final(self)@ == model::delete_to_end_of_line(old(self)@),
    {
        self.push_undo();
        let row = self.row;
        let len = self.line_char_len(row);
        let removed = slice_line(&self.lines[row], self.col, len);
        let nl = slice_line(&self.lines[row], 0, self.col);
        self.set_line(row, nl);
        self.register = removed;
        self.register_linewise = false;
        let nlen = self.line_char_len(row);
        if self.col > 0 && self.col >= nlen {
            self.col = if nlen >= 1 {
                nlen - 1
            } else {
                0
            };
        }
    }

    fn delete_line(&mut self)
        requires
            model::wf(old(self)@),
            model::size_ok(old(self)@),
        ensures
            final(self)@.visual_anchor == old(self)@.visual_anchor,
            final(self)@ == model::delete_line(old(self)@),
    {
        self.push_undo();
        let removed = self.lines.remove(self.row);
        let mut reg = removed;
        push_char(&mut reg, '\n');
        assert(reg@ =~= old(self)@.lines[old(self)@.row as int] + seq!['\n']);
        self.register = reg;
        self.register_linewise = true;
        assert(lines_view(self.lines@) =~= old(self)@.lines.remove(old(self)@.row as int));
        if self.lines.len() == 0 {
            self.lines.push(String::new());
            assert(lines_view(self.lines@) =~= seq![Seq::<char>::empty()]);
        }
        if self.row >= self.lines.len() {
            self.row = self.lines.len() - 1;
        }
        proof {
            assert forall|i: int| 0 <= i < self@.lines.len() implies #[trigger] self@.lines[i].len() < usize::MAX by {
                if old(self)@.lines.len() > 1 {
                    if i < old(self)@.row {
                        assert(self@.lines[i] == old(self)@.lines[i]);
                    } else {
                        assert(self@.lines[i] == old(self)@.lines[i + 1]);
                    }
                }
            }
        }
        self.col = self.first_nonblank(self.row);
    }

    fn yank_line(&mut self)
        ensures
            final(self)@.visual_anchor == old(self)@.visual_anchor,
            final(self)@ == model::yank_line(old(self)@),
    {
        let mut reg = if self.row < self.lines.len() {
            String::from_str(self.lines[self.row].as_str())
        } else {
            String::new()
        };
        push_char(&mut reg, '\n');
        assert(reg@ =~= model::yank_line(old(self)@).register);
        self.register = reg;
        self.register_linewise = true;
    }

    fn replace_char(&mut self, c: char)
        requires
            model::wf(old(self)@),
            model::size_ok(old(self)@),
        ensures
            final(self)@.visual_anchor == old(self)@.visual_anchor,
            final(self)@ == model::replace_char(old(self)@, c),
    {
        let len = self.line_char_len(self.row);
        if len == 0 {
            return;
        }
        let row = self.row;
        assert(old(self)@.lines[row as int].len() + 8 < usize::MAX);
        let mut nl = slice_line(&self.lines[row], 0, self.col);
        push_char(&mut nl, c);
        let rest = slice_line(&self.lines[row], self.col + 1, len);
        append(&mut nl, &rest);
        assert(nl@ =~= model::replace_char(old(self)@, c).lines[row as int]);
        self.set_line(row, nl);
        assert(self@.lines =~= model::replace_char(old(self)@, c).lines);
    }

    /// The text between two positions, as `range_text` describes it.
    fn range_text(&self, start: (usize, usize), end: (usize, usize)) -> (t: String)
        requires
            model::range_ok(self@.lines, start, end),
        ensures
            t@ == model::range_text(self@.lines, start, end),
    {
        let (sr, sc) = start;
        let (er, ec) = end;
        if sr == er {
            slice_line(&self.lines[sr], sc, ec)
        } else {
            let first = &self.lines[sr];
            let last = &self.lines[er];
            let mut pieces: Vec<String> = Vec::new();
            pieces.push(slice_line(first, sc, char_len(first)));
            let mut i = sr + 1;
            while i < er
                invariant
                    sr < i <= er < self@.lines.len(),
                    first@ == self@.lines[sr as int],
                    pieces@.len() == i - sr,
                    lines_view(pieces@) == seq![first@.subrange(model::cut(first@, sc as int), first@.len() as int)]
                        + self@.lines.subrange(sr + 1, i as int),
                decreases er - i,
            {
                let ghost before = pieces@;
                pieces.push(String::from_str(self.lines[i].as_str()));
                assert(lines_view(pieces@) =~= lines_view(before).push(self@.lines[i as int]));
                assert(self@.lines.subrange(sr + 1, i + 1) =~= self@.lines.subrange(sr + 1, i as int).push(self@.lines[i as int]));
                i = i + 1;
            }
            let ghost before = pieces@;
            pieces.push(slice_line(last, 0, ec));
            assert(lines_view(pieces@) =~= lines_view(before).push(last@.subrange(0, model::cut(last@, ec as int))));
            assert(lines_view(pieces@) =~= seq![first@.subrange(model::cut(first@, sc as int), first@.len() as int)]
                + self@.lines.subrange(sr + 1, er as int) + seq![last@.subrange(0, model::cut(last@, ec as int))]);
            join_strings(&pieces, '\n')
        }
    }

    fn delete_range(&mut self, start: (usize, usize), end: (usize, usize))
        requires
            model::range_ok(old(self)@.lines, start, end),
            old(self)@.lines.len() < usize::MAX,
        ensures
            final(self)@.visual_anchor == old(self)@.visual_anchor,
            final(self)@ == model::delete_range(old(self)@, start, end),
    {
        let (sr, sc) = start;
        let (er, ec) = end;
        if sr == er && sc == ec {
            return;
        }
        let removed = self.range_text(start, end);
        if sr == er {
            let nl = remove_span(&self.lines[sr], sc, ec);
            self.lines.set(sr, nl);
        } else {
            let first = &self.lines[sr];
            let last = &self.lines[er];
            let mut merged = slice_line(first, 0, sc);
            let tail = slice_line(last, ec, char_len(last));
            append(&mut merged, &tail);
            let mut lines: Vec<String> = Vec::new();
            std::mem::swap(&mut lines, &mut self.lines);
            lines.set(sr, merged);
            let mut k = sr + 1;
            while k <= er
                invariant
                    sr < k <= er + 1,
                    er < old(self)@.lines.len(),
                    old(self)@.lines.len() < usize::MAX,
                    lines@.len() == old(self)@.lines.len() - (k - sr - 1),
                    lines_view(lines@) == old(self)@.lines.subrange(0, sr as int) + seq![
                        old(self)@.lines[sr as int].subrange(0, model::cut(old(self)@.lines[sr as int], sc as int))
                            + old(self)@.lines[er as int].subrange(model::cut(old(self)@.lines[er as int], ec as int), old(self)@.lines[er as int].len() as int),
                    ] + old(self)@.lines.subrange(k as int, old(self)@.lines.len() as int),
                decreases er + 1 - k,
            {
                let ghost before = lines_view(lines@);
                lines.remove(sr + 1);
                assert(lines_view(lines@) =~= before.remove(sr + 1));
                assert(old(self)@.lines.subrange(k + 1, old(self)@.lines.len() as int) =~= old(self)@.lines.subrange(k as int, old(self)@.lines.len() as int).drop_first());
                k = k + 1;
            }
            self.lines = lines;
        }
        assert(sr == er ==> lines_view(self.lines@) =~= old(self)@.lines.update(sr as int, model::remove_span(old(self)@.lines[sr as int], sc as int, ec as int)));
        self.register = removed;
        self.register_linewise = false;
        self.row = sr;
        self.col = sc;
        if self.lines.len() == 0 {
            self.lines.push(String::new());
            assert(lines_view(self.lines@) =~= seq![Seq::<char>::empty()]);
        }
        assert(self@.lines =~= model::delete_range(old(self)@, start, end).lines);
    }

    fn yank_range(&mut self, start: (usize, usize), end: (usize, usize))
        requires
            model::range_ok(old(self)@.lines, start, end),
        ensures
            final(self)@.visual_anchor == old(self)@.visual_anchor,
            final(self)@ == model::yank_range(old(self)@, start, end),
    {
        let (sr, sc) = start;
        let (er, ec) = end;
        if sr == er && sc == ec {
            return;
        }
        self.register = self.range_text(start, end);
        self.register_linewise = false;
    }

    #[verifier::rlimit(60)]
    fn paste(&mut self, after: bool)
        requires
            model::wf(old(self)@),
            model::size_ok(old(self)@),
        ensures
            final(self)@.visual_anchor == old(self)@.visual_anchor,
            final(self)@ == model::paste(old(self)@, after),
    {
        if char_len(&self.register) == 0 {
            return;
        }
        self.push_undo();
        let ghost s0 = old(self)@;
        let ghost s1 = self@;
        let row = self.row;
        if self.register_linewise {
            let text = trim_end_newlines(&self.register);
            let chars = str_chars(text.as_str());
            let new_lines = split_chars(&chars, '\n');
            proof {
                lemma_trim_end_newlines_len(s0.register);
                lemma_split_len(text@, '\n');
            }
            let at = if after {
                row + 1
            } else {
                row
            };
            let mut lines: Vec<String> = Vec::new();
            std::mem::swap(&mut lines, &mut self.lines);
            let mut i: usize = 0;
            while i < new_lines.len()
                invariant
                    at <= s0.lines.len(),
                    new_lines@.len() <= s0.register.len() + 1,
                    s0.lines.len() + s0.register.len() + 8 < usize::MAX,
                    i <= new_lines@.len(),
                    lines@.len() == s0.lines.len() + i,
                    lines_view(lines@) == s0.lines.subrange(0, at as int) + lines_view(new_lines@).take(i as int)
                        + s0.lines.subrange(at as int, s0.lines.len() as int),
                decreases new_lines@.len() - i,
            {
                let ghost before = lines_view(lines@);
                let piece = String::from_str(new_lines[i].as_str());
                lines.insert(at + i, piece);
                assert(lines_view(lines@) =~= before.insert(at + i, lines_view(new_lines@)[i as int]));
                assert(lines_view(new_lines@).take(i + 1) =~= lines_view(new_lines@).take(i as int).push(lines_view(new_lines@)[i as int]));
                assert(lines_view(lines@) =~= s0.lines.subrange(0, at as int) + lines_view(new_lines@).take(i + 1)
                        + s0.lines.subrange(at as int, s0.lines.len() as int));
                i = i + 1;
            }
            assert(lines_view(new_lines@).take(new_lines@.len() as int) =~= lines_view(new_lines@));
            self.lines = lines;
            self.row = at;
            proof {
                lemma_split_len(text@, '\n');
                assert forall|k: int| 0 <= k < self@.lines.len() implies #[trigger] self@.lines[k].len() < usize::MAX by {
                    if k < at {
                        assert(self@.lines[k] == s0.lines[k]);
                    } else if k < at + new_lines@.len() {
                        assert(self@.lines[k] == split_on(text@, '\n')[k - at]);
                    } else {
                        assert(self@.lines[k] == s0.lines[k - new_lines@.len()]);
                    }
                }
            }
            self.col = self.first_nonblank(at);
        } else {
            let len = self.line_char_len(row);
            let ic = if after && len > 0 {
                self.col + 1
            } else {
                self.col
            };
            let chars = str_chars(self.register.as_str());
            let pieces = split_chars(&chars, '\n');
            proof {
                lemma_split_len(s0.register, '\n');
                lemma_split_join(s0.register, '\n');
            }
            let n = pieces.len();
            if n == 1 {
                let nl = insert_at(&self.lines[row], ic, &pieces[0]);
                self.set_line(row, nl);
                let p0 = char_len(&pieces[0]);
                self.col = ic + if p0 >= 1 {
                    p0 - 1
                } else {
                    0
                };
            } else {
                let b = if ic <= len {
                    ic
                } else {
                    len
                };
                let mut left = substring(&self.lines[row], 0, b);
                append(&mut left, &pieces[0]);
                let right = substring(&self.lines[row], b, len);
                let mut last = String::from_str(pieces[n - 1].as_str());
                append(&mut last, &right);
                let mut lines: Vec<String> = Vec::new();
                std::mem::swap(&mut lines, &mut self.lines);
                lines.set(row, left);
                let ghost pv = lines_view(pieces@);
                let ghost line = s0.lines[row as int];
                let mut i: usize = 1;
                assert(pv.subrange(1, 1) =~= Seq::<Seq<char>>::empty());
                assert(lines_view(lines@) =~= s0.lines.subrange(0, row as int) + seq![line.subrange(0, b as int) + pv[0]]
                    + pv.subrange(1, 1) + s0.lines.subrange(row + 1, s0.lines.len() as int));
                while i < n - 1
                    invariant
                        1 <= i <= n - 1,
                        n == pieces@.len(),
                        pv == lines_view(pieces@),
                        row < s0.lines.len(),
                        n <= s0.register.len() + 1,
                        s0.lines.len() + s0.register.len() + 8 < usize::MAX,
                        lines@.len() == s0.lines.len() + i - 1,
                        lines_view(lines@) == s0.lines.subrange(0, row as int) + seq![line.subrange(0, b as int) + pv[0]]
                            + pv.subrange(1, i as int) + s0.lines.subrange(row + 1, s0.lines.len() as int),
                    decreases n - 1 - i,
                {
                    let ghost before = lines_view(lines@);
                    let piece = String::from_str(pieces[i].as_str());
                    lines.insert(row + i, piece);
                    assert(lines_view(lines@) =~= before.insert(row + i, pv[i as int]));
                    assert(pv.subrange(1, i + 1) =~= pv.subrange(1, i as int).push(pv[i as int]));
                    assert(lines_view(lines@) =~= s0.lines.subrange(0, row as int) + seq![line.subrange(0, b as int) + pv[0]]
                        + pv.subrange(1, i + 1) + s0.lines.subrange(row + 1, s0.lines.len() as int));
                    i = i + 1;
                }
                let ghost before = lines_view(lines@);
                lines.insert(row + n - 1, last);
                assert(lines_view(lines@) =~= before.insert(row + n - 1, pv[n - 1] + line.subrange(b as int, line.len() as int)));
                assert(lines_view(lines@) =~= model::paste(s0, after).lines);
                self.lines = lines;
                self.row = row + n - 1;
                self.col = char_len(&pieces[n - 1]);
            }
        }
    }

    fn scroll_half(&self) -> (h: usize)
        ensures
            h == model::scroll_half(self@),
    {
        let h = if self.viewport_height >= 1 {
            self.viewport_height
        } else {
            1
        };
        if h / 2 >= 1 {
            h / 2
        } else {
            1
        }
    }

    fn scroll_half_down(&mut self)
        requires
            model::wf(old(self)@),
            model::size_ok(old(self)@),
        ensures
            final(self)@.lines == old(self)@.lines,
            final(self)@.mode == old(self)@.mode,
            final(self)@.visual_anchor == old(self)@.visual_anchor,
            final(self)@ == model::scroll_half_down(old(self)@),
    {
        let half = self.scroll_half();
        let last = self.lines.len() - 1;
        let target = self.row + half;
        self.row = if target <= last {
            target
        } else {
            last
        };
    }

    fn scroll_half_up(&mut self)
        ensures
            final(self)@.lines == old(self)@.lines,
            final(self)@.mode == old(self)@.mode,
            final(self)@.visual_anchor == old(self)@.visual_anchor,
            final(self)@ == model::scroll_half_up(old(self)@),
    {
        let half = self.scroll_half();
        self.row = if self.row >= half {
            self.row - half
        } else {
            0
        };
    }

    fn move_left(&mut self)
        ensures
            final(self)@.lines == old(self)@.lines,
            final(self)@.mode == old(self)@.mode,
            final(self)@.visual_anchor == old(self)@.visual_anchor,
            final(self)@ == model::move_left(old(self)@),
    {
        if self.col >= 1 {
            self.col = self.col - 1;
        } else {
            self.col = 0;
        }
    }

    fn move_right(&mut self)
        ensures
            final(self)@.lines == old(self)@.lines,
            final(self)@.mode == old(self)@.mode,
            final(self)@.visual_anchor == old(self)@.visual_anchor,
            final(self)@ == model::move_right(old(self)@),
    {
        let len = self.line_char_len(self.row);
        let max = if len == 0 {
            0
        } else {
            len - 1
        };
        if self.col < max {
            self.col = self.col + 1;
        }
    }

    fn move_up(&mut self)
        ensures
            final(self)@.lines == old(self)@.lines,
            final(self)@.mode == old(self)@.mode,
            final(self)@.visual_anchor == old(self)@.visual_anchor,
            final(self)@ == model::move_up(old(self)@),
    {
        if self.row > 0 {
            self.row = self.row - 1;
        }
    }

    fn move_down(&mut self)
        requires
            model::wf(old(self)@),
            model::size_ok(old(self)@),
        ensures
            final(self)@.lines == old(self)@.lines,
            final(self)@.mode == old(self)@.mode,
            final(self)@.visual_anchor == old(self)@.visual_anchor,
            final(self)@ == model::move_down(old(self)@),
    {
        if self.row + 1 < self.lines.len() {
            self.row = self.row + 1;
        }
    }

    fn run_ex(&mut self, cmd: &String)
        ensures
            final(self)@.visual_anchor == old(self)@.visual_anchor,
            final(self)@ == model::run_ex(old(self)@, cmd@),
    {
        if eq_str(cmd, "w") || eq_str(cmd, "write") || eq_str(cmd, "wq") || eq_str(cmd, "x") || eq_str(cmd, "wq!") {
            self.exit = Some(EditorExit::Save);
        } else if eq_str(cmd, "q") || eq_str(cmd, "quit") || eq_str(cmd, "q!") {
            self.exit = Some(EditorExit::Cancel);
        } else if char_len(cmd) == 0 {
        } else {
            let mut st = String::from_str("unknown command: ");
            append(&mut st, cmd);
            self.status = st;
        }
    }

    fn apply_pending(&mut self, p: char, code: KeyCode)
        requires
            model::wf(old(self)@),
            model::size_ok(old(self)@),
        ensures
            final(self)@.visual_anchor == old(self)@.visual_anchor,
            final(self)@ == model::apply_pending(old(self)@, p, code),
    {
        match (p, code) {
            ('g', KeyCode::Char('g')) => {
                self.row = 0;
                self.col = 0;
            },
            ('d', KeyCode::Char('d')) => self.delete_line(),
            ('y', KeyCode::Char('y')) => self.yank_line(),
            ('c', KeyCode::Char('c')) => {
                self.push_undo();
                self.set_line(self.row, String::new());
                self.col = 0;
                self.enter_insert();
            },
            ('d', KeyCode::Char('w')) => {
                let t = self.word_forward_target(self.row, self.col, true);
                self.push_undo();
                self.delete_range((self.row, self.col), t);
            },
            ('c', KeyCode::Char('w')) => {
                let t = self.word_forward_target(self.row, self.col, true);
                self.push_undo();
                self.delete_range((self.row, self.col), t);
                self.enter_insert();
            },
            ('y', KeyCode::Char('w')) => {
                let t = self.word_forward_target(self.row, self.col, true);
                self.yank_range((self.row, self.col), t);
            },
            ('d', KeyCode::Char('$')) => self.delete_to_end_of_line(),
            ('c', KeyCode::Char('$')) => {
                self.delete_to_end_of_line();
                self.enter_insert();
            },
            ('d', KeyCode::Char('0')) => {
                self.push_undo();
                self.delete_range((self.row, 0), (self.row, self.col));
                self.col = 0;
            },
            ('r', KeyCode::Char(c)) => {
                self.push_undo();
                self.replace_char(c);
            },
            _ => {},
        }
    }

    fn normal_key(&mut self, key: Key)
        requires
            model::wf(old(self)@),
            old(self)@.mode == EditorMode::Normal,
            model::size_ok(old(self)@),
        ensures
            final(self)@ == model::normal_key(old(self)@, key),
            model::anchor_ok(final(self)@),
    {
        let len = self.line_char_len(self.row);
        match (key.code, key.ctrl) {
            (KeyCode::Esc, _) => {
                self.pending = None;
                self.status = String::new();
            },
            (KeyCode::Char('h'), false) | (KeyCode::Left, _) => self.move_left(),
            (KeyCode::Char('l'), false) | (KeyCode::Right, _) => self.move_right(),
            (KeyCode::Char('j'), false) | (KeyCode::Down, _) => self.move_down(),
            (KeyCode::Char('k'), false) | (KeyCode::Up, _) => self.move_up(),
            (KeyCode::Char('0'), false) | (KeyCode::Home, _) => self.col = 0,
            (KeyCode::Char('$'), false) | (KeyCode::End, _) => {
                self.col = if len >= 1 {
                    len - 1
                } else {
                    0
                };
            },
            (KeyCode::Char('^'), false) => self.col = self.first_nonblank(self.row),
            (KeyCode::Char('w'), false) => {
                let (r, c) = self.word_forward_target(self.row, self.col, true);
                self.row = r;
                self.col = c;
            },
            (KeyCode::Char('W'), false) => {
                let (r, c) = self.word_forward_target(self.row, self.col, false);
                self.row = r;
                self.col = c;
            },
            (KeyCode::Char('b'), false) => {
                let (r, c) = self.word_back_target(self.row, self.col, true);
                self.row = r;
                self.col = c;
            },
            (KeyCode::Char('B'), false) => {
                let (r, c) = self.word_back_target(self.row, self.col, false);
                self.row = r;
                self.col = c;
            },
            (KeyCode::Char('e'), false) => {
                let (r, c) = self.word_end_target(self.row, self.col, true);
                self.row = r;
                self.col = c;
            },
            (KeyCode::Char('E'), false) => {
                let (r, c) = self.word_end_target(self.row, self.col, false);
                self.row = r;
                self.col = c;
            },
            (KeyCode::Char('G'), false) => {
                self.row = self.lines.len() - 1;
                self.col = 0;
            },
            (KeyCode::Char('g'), false) => self.pending = Some('g'),
            (KeyCode::Char('d'), false) => self.pending = Some('d'),
            (KeyCode::Char('y'), false) => self.pending = Some('y'),
            (KeyCode::Char('c'), false) => self.pending = Some('c'),
            (KeyCode::Char('r'), false) => self.pending = Some('r'),
            (KeyCode::Char('u'), false) => self.do_undo(),
            (KeyCode::Char('r'), true) => self.do_redo(),
            (KeyCode::Char('d'), true) => self.scroll_half_down(),
            (KeyCode::Char('u'), true) => self.scroll_half_up(),
            (KeyCode::Char('i'), false) => self.enter_insert(),
            (KeyCode::Char('I'), false) => {
                self.col = self.first_nonblank(self.row);
                self.enter_insert();
            },
            (KeyCode::Char('a'), false) => {
                if len > 0 {
                    self.col = self.col + 1;
                }
                self.enter_insert();
            },
            (KeyCode::Char('A'), false) => {
                self.col = len;
                self.enter_insert();
            },
            (KeyCode::Char('o'), false) => {
                self.push_undo();
                self.row = self.row + 1;
                self.lines.insert(self.row, String::new());
                assert(self@.lines =~= old(self)@.lines.insert(old(self)@.row + 1, seq![]));
                self.col = 0;
                self.enter_insert();
            },
            (KeyCode::Char('O'), false) => {
                self.push_undo();
                self.lines.insert(self.row, String::new());
                assert(self@.lines =~= old(self)@.lines.insert(old(self)@.row as int, seq![]));
                self.col = 0;
                self.enter_insert();
            },
            (KeyCode::Char('x'), false) => self.delete_char_under(),
            (KeyCode::Char('X'), false) => {
                if self.col > 0 {
                    self.col = self.col - 1;
                    self.delete_char_under();
                }
            },
            (KeyCode::Char('D'), false) => self.delete_to_end_of_line(),
            (KeyCode::Char('C'), false) => {
                self.delete_to_end_of_line();
                self.enter_insert();
            },
            (KeyCode::Char('p'), false) => self.paste(true),
            (KeyCode::Char('P'), false) => self.paste(false),
            (KeyCode::Char('v'), false) => {
                self.mode = EditorMode::Visual;
                self.visual_anchor = Some((self.row, self.col));
                self.status = String::from_str("-- VISUAL --");
            },
            (KeyCode::Char(':'), false) => {
                self.mode = EditorMode::Command;
                self.command_buffer = String::new();
            },
            _ => {},
        }
    }

    fn handle_normal(&mut self, key: Key)
        requires
            model::wf(old(self)@),
            old(self)@.mode == EditorMode::Normal,
            model::size_ok(old(self)@),
        ensures
            final(self)@ == model::handle_normal(old(self)@, key),
            model::anchor_ok(final(self)@),
    {
        let pending = self.pending;
        self.pending = None;
        if let Some(p) = pending {
            if pending_completes(p, key.code) {
                self.apply_pending(p, key.code);
                return;
            }
        }
        self.normal_key(key);
    }

    #[verifier::rlimit(60)]
    fn handle_insert(&mut self, key: Key)
        requires
            model::wf(old(self)@),
            old(self)@.mode == EditorMode::Insert,
            model::size_ok(old(self)@),
        ensures
            final(self)@ == model::handle_insert(old(self)@, key),
            model::anchor_ok(final(self)@),
    {
        let row = self.row;
        let len = self.line_char_len(row);
        proof {
            assert(old(self)@.lines[row as int].len() + 8 < usize::MAX);
        }
        match key.code {
            KeyCode::Esc => {
                self.mode = EditorMode::Normal;
                if self.col > 0 && self.col >= len {
                    self.col = if len >= 1 {
                        len - 1
                    } else {
                        0
                    };
                }
                self.status = String::new();
            },
            KeyCode::Enter => {
                self.push_undo();
                let b = if self.col <= len {
                    self.col
                } else {
                    len
                };
                let left = substring(&self.lines[row], 0, b);
                let right = substring(&self.lines[row], b, len);
                self.lines.set(row, left);
                self.lines.insert(row + 1, right);
                assert(self@.lines =~= model::handle_insert(old(self)@, key).lines);
                self.row = row + 1;
                self.col = 0;
            },
            KeyCode::Backspace => {
                if self.col > 0 {
                    self.push_undo();
                    let nl = remove_span(&self.lines[row], self.col - 1, self.col);
                    self.set_line(row, nl);
                    self.col = self.col - 1;
                } else if row > 0 {
                    self.push_undo();
                    let cur = self.lines.remove(row);
                    let mut prev = String::from_str(self.lines[row - 1].as_str());
                    let plen = char_len(&prev);
                    append(&mut prev, &cur);
                    self.lines.set(row - 1, prev);
                    assert(self@.lines =~= model::handle_insert(old(self)@, key).lines);
                    self.row = row - 1;
                    self.col = plen;
                }
            },
            KeyCode::Tab => {
                self.push_undo();
                let spaces = String::from_str("    ");
                let nl = insert_at(&self.lines[row], self.col, &spaces);
                self.set_line(row, nl);
                self.col = self.col + 4;
            },
            KeyCode::Delete => self.delete_char_under(),
            KeyCode::Left => self.move_left(),
            KeyCode::Right => {
                if self.col < len {
                    self.col = self.col + 1;
                }
            },
            KeyCode::Up => self.move_up(),
            KeyCode::Down => self.move_down(),
            KeyCode::Home => self.col = 0,
            KeyCode::End => self.col = len,
            KeyCode::Char(c) => {
                if !key.ctrl {
                    self.push_undo();
                    let mut x = String::new();
                    push_char(&mut x, c);
                    let nl = insert_at(&self.lines[row], self.col, &x);
                    self.set_line(row, nl);
                    self.col = self.col + 1;
                }
            },
            _ => {},
        }
    }

    fn end_visual(&mut self)
        ensures
            final(self)@ == model::end_visual(old(self)@),
    {
        self.mode = EditorMode::Normal;
        self.visual_anchor = None;
    }

    /// The visual selection as a range that delete and yank accept.
    fn visual_span(&self) -> (r: Option<((usize, usize), (usize, usize))>)
        requires
            model::wf(self@),
            model::size_ok(self@),
        ensures
            match model::visual_range(self@) {
                None => r is None,
                Some((a, e)) => r == Some((a, model::next_pos(self@, e))) && model::range_ok(self@.lines, a, model::next_pos(self@, e)),
            },
    {
        match self.visual_range() {
            None => None,
            Some((a, e)) => {
                proof {
                    assert(self@.lines[e.0 as int].len() + 8 < usize::MAX);
                }
                let np = self.next_pos(e);
                Some((a, np))
            },
        }
    }

    fn handle_visual(&mut self, key: Key)
        requires
            model::wf(old(self)@),
            old(self)@.mode == EditorMode::Visual,
            model::size_ok(old(self)@),
        ensures
            final(self)@ == model::handle_visual(old(self)@, key),
            model::anchor_ok(final(self)@),
    {
        let len = self.line_char_len(self.row);
        match (key.code, key.ctrl) {
            (KeyCode::Esc, _) | (KeyCode::Char('v'), false) => {
                self.end_visual();
                self.status = String::new();
            },
            (KeyCode::Char('h'), false) | (KeyCode::Left, _) => self.move_left(),
            (KeyCode::Char('l'), false) | (KeyCode::Right, _) => self.move_right(),
            (KeyCode::Char('j'), false) | (KeyCode::Down, _) => self.move_down(),
            (KeyCode::Char('k'), false) | (KeyCode::Up, _) => self.move_up(),
            (KeyCode::Char('0'), false) => self.col = 0,
            (KeyCode::Char('$'), false) => {
                self.col = if len >= 1 {
                    len - 1
                } else {
                    0
                };
            },
            (KeyCode::Char('^'), false) => self.col = self.first_nonblank(self.row),
            (KeyCode::Char('w'), false) => {
                let (r, c) = self.word_forward_target(self.row, self.col, true);
                self.row = r;
                self.col = c;
            },
            (KeyCode::Char('b'), false) => {
                let (r, c) = self.word_back_target(self.row, self.col, true);
                self.row = r;
                self.col = c;
            },
            (KeyCode::Char('e'), false) => {
                let (r, c) = self.word_end_target(self.row, self.col, true);
                self.row = r;
                self.col = c;
            },
            (KeyCode::Char('g'), false) => self.pending = Some('g'),
            (KeyCode::Char('G'), false) => {
                self.row = self.lines.len() - 1;
                self.col = 0;
            },
            (KeyCode::Char('y'), false) => {
                if let Some((a, np)) = self.visual_span() {
                    self.yank_range(a, np);
                }
                self.end_visual();
            },
            (KeyCode::Char('d'), false) | (KeyCode::Char('x'), false) => {
                if let Some((a, np)) = self.visual_span() {
                    self.push_undo();
                    self.delete_range(a, np);
                }
                self.end_visual();
            },
            (KeyCode::Char('c'), false) => {
                if let Some((a, np)) = self.visual_span() {
                    self.push_undo();
                    self.delete_range(a, np);
                }
                self.visual_anchor = None;
                self.enter_insert();
            },
            _ => {
                let p = self.pending;
                self.pending = None;
                if let Some(p) = p {
                    if p == 'g' && key.code == KeyCode::Char('g') {
                        self.row = 0;
                        self.col = 0;
                    }
                }
            },
        }
    }

    fn handle_command(&mut self, key: Key)
        requires
            model::wf(old(self)@),
            old(self)@.mode == EditorMode::Command,
        ensures
            final(self)@ == model::handle_command(old(self)@, key),
            model::anchor_ok(final(self)@),
    {
        match key.code {
            KeyCode::Esc => {
                self.mode = EditorMode::Normal;
                self.command_buffer = String::new();
            },
            KeyCode::Enter => {
                let mut cmd = String::new();
                std::mem::swap(&mut cmd, &mut self.command_buffer);
                self.mode = EditorMode::Normal;
                let t = trim_ws(&cmd);
                self.run_ex(&t);
            },
            KeyCode::Backspace => {
                let n = char_len(&self.command_buffer);
                if n == 0 {
                    self.mode = EditorMode::Normal;
                } else {
                    self.command_buffer = substring(&self.command_buffer, 0, n - 1);
                }
            },
            KeyCode::Char(c) => {
                if !key.ctrl {
                    push_char(&mut self.command_buffer, c);
                }
            },
            _ => {},
        }
    }

    /// Reacts to one key press.
    pub fn handle_key(&mut self, key: Key)
        requires
            model::wf(old(self)@),
            model::size_ok(old(self)@),
        ensures
            final(self)@ == model::handle_key(old(self)@, key),
            model::wf(final(self)@),
    {
        match self.mode {
            EditorMode::Normal => self.handle_normal(key),
            EditorMode::Insert => self.handle_insert(key),
            EditorMode::Visual => self.handle_visual(key),
            EditorMode::Command => self.handle_command(key),
        }
        let ghost mid = self@;
        self.clamp_col();
        proof {
            model::lemma_clamp_wf(mid);
        }
    }
}

/// Whether a pending operator `p` completes with key code `code`.
fn pending_completes(p: char, code: KeyCode) -> (b: bool)
    ensures
        b == model::pending_completes(p, code),
{
    match (p, code) {
        ('g', KeyCode::Char('g')) => true,
        ('d', KeyCode::Char('d')) => true,
        ('y', KeyCode::Char('y')) => true,
        ('c', KeyCode::Char('c')) => true,
        ('d', KeyCode::Char('w')) => true,
        ('c', KeyCode::Char('w')) => true,
        ('y', KeyCode::Char('w')) => true,
        ('d', KeyCode::Char('$')) => true,
        ('c', KeyCode::Char('$')) => true,
        ('d', KeyCode::Char('0')) => true,
        ('r', KeyCode::Char(_)) => true,
        _ => false,
    }
}


/// `s` without its trailing newlines.
fn trim_end_newlines(s: &String) -> (r: String)
    ensures
        r@ == model::trim_end_newlines(s@),
{
    let v = str_chars(s.as_str());
    let mut k = v.len();
    assert(v@.subrange(0, k as int) =~= v@);
    while k > 0 && v[k - 1] == '\n'
        invariant
            k <= v@.len(),
            model::trim_end_newlines(v@) == model::trim_end_newlines(v@.subrange(0, k as int)),
        decreases k,
    {
        assert(v@.subrange(0, k as int).drop_last() =~= v@.subrange(0, k - 1));
        k = k - 1;
    }
    string_from_chars(&v, 0, k)
}

proof fn lemma_trim_end_newlines_len(s: Seq<char>)
    ensures
        model::trim_end_newlines(s).len() <= s.len(),
    decreases s.len(),
{
    if s.len() > 0 && s.last() == '\n' {
        lemma_trim_end_newlines_len(s.drop_last());
    }
}


/// `leading_ws` is the length of the blank prefix.
proof fn lemma_leading_ws(l: Seq<char>, i: int)
    requires
        0 <= i <= l.len(),
        forall|j: int| 0 <= j < i ==> is_ws(#[trigger] l[j]),
        i == l.len() || !is_ws(l[i]),
    ensures
        model::leading_ws(l) == i,
    decreases i,
{
    if i > 0 {
        let t = l.drop_first();
        assert forall|j: int| 0 <= j < i - 1 implies is_ws(#[trigger] t[j]) by {
            assert(t[j] == l[j + 1]);
        }
        if i - 1 < t.len() {
            assert(t[i - 1] == l[i]);
        }
        lemma_leading_ws(t, i - 1);
    }
}

fn char_class_word(c: char) -> (k: u8)
    ensures
        k == model::class_word(c),
{
    if is_whitespace(c) {
        0
    } else if is_alphanumeric(c) || c == '_' {
        1
    } else {
        2
    }
}

fn char_class_ws(c: char) -> (k: u8)
    ensures
        k == model::class_ws(c),
{
    if is_whitespace(c) {
        0
    } else {
        1
    }
}

fn klass(word: bool, c: char) -> (k: u8)
    ensures
        k == model::klass(word, c),
{
    if word {
        char_class_word(c)
    } else {
        char_class_ws(c)
    }
}


/// The characters of `l` from index `a` up to `b`, both clipped to its end.
fn slice_line(l: &String, a: usize, b: usize) -> (r: String)
    requires
        model::cut(l@, a as int) <= model::cut(l@, b as int),
    ensures
        r@ == l@.subrange(model::cut(l@, a as int), model::cut(l@, b as int)),
{
    let len = char_len(l);
    let a2 = if a <= len {
        a
    } else {
        len
    };
    let b2 = if b <= len {
        b
    } else {
        len
    };
    substring(l, a2, b2)
}

/// `l` without the characters from index `a` up to `b` (both clipped).
fn remove_span(l: &String, a: usize, b: usize) -> (r: String)
    ensures
        r@ == model::remove_span(l@, a as int, b as int),
{
    let len = char_len(l);
    let a2 = if a <= len {
        a
    } else {
        len
    };
    let b2 = if b <= len {
        b
    } else {
        len
    };
    let mut r = substring(l, 0, a2);
    let t = substring(l, b2, len);
    append(&mut r, &t);
    r
}

/// `x` inserted into `l` at character index `c` (clipped to its end).
fn insert_at(l: &String, c: usize, x: &String) -> (r: String)
    ensures
        r@ == model::insert_at(l@, c as int, x@),
{
    let len = char_len(l);
    let c2 = if c <= len {
        c
    } else {
        len
    };
    let mut r = substring(l, 0, c2);
    append(&mut r, x);
    let t = substring(l, c2, len);
    append(&mut r, &t);
    r
}

/// An editor opened on a text gives that text back unchanged.
pub proof fn lemma_new_body_round_trip(body: Seq<char>)
    ensures
        join_with(initial_view(body).lines, '\n') == body,
{
    lemma_split_join(body, '\n');
}

} // verus!
