//! The mathematical model of the vim-like editor: its state as sequences of
//! characters, and every key's effect as a function on that state.
use vstd::prelude::*;

use crate::keys::{Key, KeyCode};
use crate::text::{char_is_alphanumeric, free_of, is_ws, join_with, split_on, trim};

verus! {

/// Editing mode of the editor.
#[derive(Clone, Copy, PartialEq, Eq, Debug, Structural)]
pub enum EditorMode {
    Normal,
    Insert,
    Visual,
    Command,
}

/// How an editing session ended.
#[derive(Clone, Copy, PartialEq, Eq, Debug, Structural)]
pub enum EditorExit {
    Save,
    Cancel,
}

/// An undo/redo snapshot.
pub struct SnapView {
    pub lines: Seq<Seq<char>>,
    pub row: usize,
    pub col: usize,
}

/// The whole editor state.
pub struct EditorView {
    pub lines: Seq<Seq<char>>,
    pub row: usize,
    pub col: usize,
    pub mode: EditorMode,
    pub command_buffer: Seq<char>,
    pub status: Seq<char>,
    pub exit: Option<EditorExit>,
    pub visual_anchor: Option<(usize, usize)>,
    pub pending: Option<char>,
    pub scroll: usize,
    pub viewport_height: usize,
    pub register: Seq<char>,
    pub register_linewise: bool,
    pub undo: Seq<SnapView>,
    pub redo: Seq<SnapView>,
}

/// Largest number of undo snapshots kept.
pub open spec fn undo_limit() -> nat {
    500
}

// ---------------------------------------------------------------------------
// Well-formedness and machine limits
// ---------------------------------------------------------------------------

/// Length of line `r`, or 0 past the last line.
pub open spec fn line_len(lines: Seq<Seq<char>>, r: int) -> nat {
    if 0 <= r < lines.len() {
        lines[r].len()
    } else {
        0
    }
}

/// The shape every editor keeps between key presses: at least one line, the
/// cursor on a line and at most one past its end, and a visual anchor only
/// in visual mode and on a line.
pub open spec fn wf(s: EditorView) -> bool {
    &&& s.lines.len() >= 1
    &&& s.row < s.lines.len()
    &&& s.col <= line_len(s.lines, s.row as int)
    &&& anchor_ok(s)
}

/// A visual anchor exists only in visual mode, and lies on the text.
pub open spec fn anchor_ok(s: EditorView) -> bool {
    match s.visual_anchor {
        Some((ar, ac)) => s.mode == EditorMode::Visual && ar < s.lines.len() && ac <= line_len(
            s.lines,
            ar as int,
        ),
        None => true,
    }
}

/// Sizes leave room for the cursor and line arithmetic in `usize`.
pub open spec fn size_ok(s: EditorView) -> bool {
    &&& s.lines.len() + s.register.len() + 8 < usize::MAX
    &&& s.lines.len() + s.viewport_height / 2 + 8 < usize::MAX
    &&& forall|i: int| 0 <= i < s.lines.len() ==> #[trigger] s.lines[i].len() + s.register.len() + 8
        < usize::MAX
}

// ---------------------------------------------------------------------------
// Small helpers
// ---------------------------------------------------------------------------

pub open spec fn sat_sub(a: usize, b: usize) -> usize {
    if a >= b {
        (a - b) as usize
    } else {
        0
    }
}

/// Char index `c` clipped to the end of line `line`.
pub open spec fn cut(line: Seq<char>, c: int) -> int {
    if c <= line.len() {
        c
    } else {
        line.len() as int
    }
}

/// `x` inserted into `line` at char index `c` (clipped to its end).
pub open spec fn insert_at(line: Seq<char>, c: int, x: Seq<char>) -> Seq<char> {
    let b = cut(line, c);
    line.subrange(0, b) + x + line.subrange(b, line.len() as int)
}

/// `line` without the chars from index `a` up to `b` (both clipped).
pub open spec fn remove_span(line: Seq<char>, a: int, b: int) -> Seq<char> {
    line.subrange(0, cut(line, a)) + line.subrange(cut(line, b), line.len() as int)
}

pub open spec fn set_line(s: EditorView, r: int, l: Seq<char>) -> EditorView {
    EditorView { lines: s.lines.update(r, l), ..s }
}

pub open spec fn snap(s: EditorView) -> SnapView {
    SnapView { lines: s.lines, row: s.row, col: s.col }
}

pub open spec fn text_insert_mode() -> Seq<char> {
    "-- INSERT --"@
}

pub open spec fn text_visual_mode() -> Seq<char> {
    "-- VISUAL --"@
}

pub open spec fn text_unknown_command() -> Seq<char> {
    "unknown command: "@
}

/// Number of leading whitespace characters of `l`.
pub open spec fn leading_ws(l: Seq<char>) -> nat
    decreases l.len(),
{
    if l.len() > 0 && is_ws(l[0]) {
        1 + leading_ws(l.drop_first())
    } else {
        0
    }
}

/// First non-blank column of line `r` (0 past the last line).
pub open spec fn first_nonblank(s: EditorView, r: int) -> usize {
    if 0 <= r < s.lines.len() {
        leading_ws(s.lines[r]) as usize
    } else {
        0
    }
}

/// Character class for word motions: 0 blank, 1 word char, 2 punctuation.
pub open spec fn class_word(c: char) -> u8 {
    if is_ws(c) {
        0
    } else if char_is_alphanumeric(c) || c == '_' {
        1
    } else {
        2
    }
}

/// Character class for WORD motions: 0 blank, 1 anything else.
pub open spec fn class_ws(c: char) -> u8 {
    if is_ws(c) {
        0
    } else {
        1
    }
}

pub open spec fn klass(word: bool, c: char) -> u8 {
    if word {
        class_word(c)
    } else {
        class_ws(c)
    }
}

/// The character at (r, c), if there is one.
pub open spec fn char_at(lines: Seq<Seq<char>>, r: int, c: int) -> Option<char> {
    if 0 <= r < lines.len() && 0 <= c < lines[r].len() {
        Some(lines[r][c])
    } else {
        None
    }
}

// ---------------------------------------------------------------------------
// Undo and redo
// ---------------------------------------------------------------------------

/// Records a snapshot before an edit; clears the redo history.
pub open spec fn push_undo(s: EditorView) -> EditorView {
    let u = s.undo.push(snap(s));
    EditorView {
        undo: if u.len() > undo_limit() {
            u.drop_first()
        } else {
            u
        },
        redo: seq![],
        ..s
    }
}

/// Brings the cursor back onto the text after a jump or a mode change.
pub open spec fn clamp_col(s: EditorView) -> EditorView {
    let lines = if s.lines.len() == 0 {
        seq![Seq::<char>::empty()]
    } else {
        s.lines
    };
    let row = if s.row >= lines.len() {
        (lines.len() - 1) as usize
    } else {
        s.row
    };
    let len = line_len(lines, row as int);
    let max = if s.mode == EditorMode::Insert {
        len
    } else if len == 0 {
        0
    } else {
        (len - 1) as nat
    };
    EditorView { lines, row, col: if s.col > max { max as usize } else { s.col }, ..s }
}

pub open spec fn restore(s: EditorView, sn: SnapView) -> EditorView {
    EditorView { lines: sn.lines, row: sn.row, col: sn.col, ..s }
}

pub open spec fn do_undo(s: EditorView) -> EditorView {
    if s.undo.len() > 0 {
        let sn = s.undo.last();
        clamp_col(
            restore(EditorView { undo: s.undo.drop_last(), redo: s.redo.push(snap(s)), ..s }, sn),
        )
    } else {
        s
    }
}

pub open spec fn do_redo(s: EditorView) -> EditorView {
    if s.redo.len() > 0 {
        let sn = s.redo.last();
        clamp_col(
            restore(EditorView { redo: s.redo.drop_last(), undo: s.undo.push(snap(s)), ..s }, sn),
        )
    } else {
        s
    }
}

// ---------------------------------------------------------------------------
// Cursor motions
// ---------------------------------------------------------------------------

pub open spec fn enter_insert(s: EditorView) -> EditorView {
    EditorView { mode: EditorMode::Insert, status: text_insert_mode(), ..s }
}

pub open spec fn move_left(s: EditorView) -> EditorView {
    EditorView { col: sat_sub(s.col, 1), ..s }
}

/// Right, stopping on the last character.
pub open spec fn move_right(s: EditorView) -> EditorView {
    let len = line_len(s.lines, s.row as int);
    let max = if len == 0 {
        0
    } else {
        len - 1
    };
    if s.col < max {
        EditorView { col: (s.col + 1) as usize, ..s }
    } else {
        s
    }
}

pub open spec fn move_up(s: EditorView) -> EditorView {
    if s.row > 0 {
        EditorView { row: (s.row - 1) as usize, ..s }
    } else {
        s
    }
}

pub open spec fn move_down(s: EditorView) -> EditorView {
    if s.row + 1 < s.lines.len() {
        EditorView { row: (s.row + 1) as usize, ..s }
    } else {
        s
    }
}

/// The position after (r, c) in reading order, if any: the next character
/// of the line, else the start of the next line.
pub open spec fn advance(lines: Seq<Seq<char>>, r: int, c: int) -> Option<(int, int)> {
    if c + 1 >= line_len(lines, r) {
        if r + 1 >= lines.len() {
            None
        } else {
            Some((r + 1, 0))
        }
    } else {
        Some((r, c + 1))
    }
}

/// From (r, c), skip blanks; stop on a non-blank, on a position without a
/// character, or on the last position of the text.
pub open spec fn skip_blanks(lines: Seq<Seq<char>>, r: int, c: int) -> (int, int)
    decreases lines.len() - r, line_len(lines, r) - c,
{
    match char_at(lines, r, c) {
        None => (r, c),
        Some(ch) => if !is_ws(ch) {
            (r, c)
        } else {
            match advance(lines, r, c) {
                None => (r, c),
                Some((r2, c2)) => if 0 <= r2 < lines.len() && (r2 > r || (r2 == r && c2 > c)) {
                    skip_blanks(lines, r2, c2)
                } else {
                    (r, c)
                },
            }
        },
    }
}

/// The scan of `w`/`W` from (r, c): the first later position whose
/// character starts a run of another class, or holds no character; a blank
/// after a non-blank start is skipped over to the next non-blank.
pub open spec fn word_scan(lines: Seq<Seq<char>>, r: int, c: int, word: bool, start_class: u8) -> (
    int,
    int,
)
    decreases lines.len() - r, line_len(lines, r) - c,
{
    match advance(lines, r, c) {
        None => (r, line_len(lines, r) as int),
        Some((r2, c2)) => if 0 <= r2 < lines.len() && (r2 > r || (r2 == r && c2 > c)) {
            match char_at(lines, r2, c2) {
                None => (r2, c2),
                Some(ch) => {
                    let k = klass(word, ch);
                    if k != 0 && k != start_class {
                        (r2, c2)
                    } else if start_class != 0 && k == 0 {
                        skip_blanks(lines, r2, c2)
                    } else {
                        word_scan(lines, r2, c2, word, start_class)
                    }
                },
            }
        } else {
            (r2, c2)
        },
    }
}

/// Target of `w` (word) or `W` (WORD) from (r, c).
pub open spec fn word_forward_target(lines: Seq<Seq<char>>, r: int, c: int, word: bool) -> (
    int,
    int,
) {
    let start_class = match char_at(lines, r, c) {
        Some(ch) => klass(word, ch),
        None => 0,
    };
    word_scan(lines, r, c, word, start_class)
}

/// Leftmost column of the run of class `k` that ends at column c of line r.
pub open spec fn run_start(lines: Seq<Seq<char>>, r: int, c: int, word: bool, k: u8) -> int
    decreases c,
{
    if c <= 0 {
        c
    } else {
        match char_at(lines, r, c - 1) {
            None => c,
            Some(p) => if klass(word, p) == k {
                run_start(lines, r, c - 1, word, k)
            } else {
                c
            },
        }
    }
}

/// The scan of `b`/`B` from (r, c): step back (over line ends) to the first
/// non-blank, then to the start of its run.
pub open spec fn back_scan(lines: Seq<Seq<char>>, r: int, c: int, word: bool) -> (int, int)
    decreases r, c, 1int,
{
    if r < 0 || c < 0 {
        (r, c)
    } else if c == 0 {
        if r == 0 {
            (r, c)
        } else {
            let l = line_len(lines, r - 1);
            if l > 0 {
                back_step(lines, r - 1, l - 1, word)
            } else {
                back_scan(lines, r - 1, 0, word)
            }
        }
    } else {
        back_step(lines, r, c - 1, word)
    }
}

/// One probe of the backward scan at (r, c).
pub open spec fn back_step(lines: Seq<Seq<char>>, r: int, c: int, word: bool) -> (int, int)
    decreases r, c + 1, 0int,
{
    if r < 0 || c < 0 {
        (r, c)
    } else {
        match char_at(lines, r, c) {
            None => back_scan(lines, r, c, word),
            Some(ch) => if klass(word, ch) != 0 {
                (r, run_start(lines, r, c, word, klass(word, ch)))
            } else {
                back_scan(lines, r, c, word)
            },
        }
    }
}

/// Rightmost column of the run of class `k` starting at column c of line r.
pub open spec fn run_end(lines: Seq<Seq<char>>, r: int, c: int, word: bool, k: u8) -> int
    decreases line_len(lines, r) - c,
{
    if c + 1 >= line_len(lines, r) {
        c
    } else {
        match char_at(lines, r, c + 1) {
            None => c,
            Some(n) => if klass(word, n) != k {
                c
            } else {
                run_end(lines, r, c + 1, word, k)
            },
        }
    }
}

/// Target of `e`/`E` from (r, c): one step on, skip blanks, then to the end
/// of the run there.
pub open spec fn word_end_target(lines: Seq<Seq<char>>, r: int, c: int, word: bool) -> (int, int) {
    let (r1, c1) = if c + 1 < line_len(lines, r) {
        (r, c + 1)
    } else if r + 1 < lines.len() {
        (r + 1, 0)
    } else {
        (r, c)
    };
    let (r2, c2) = skip_blanks(lines, r1, c1);
    match char_at(lines, r2, c2) {
        None => (r2, c2),
        Some(ch) => match char_at(lines, r2, c2) {
            Some(ch2) => if is_ws(ch2) {
                (r2, c2)
            } else {
                (r2, run_end(lines, r2, c2, word, klass(word, ch)))
            },
            None => (r2, c2),
        },
    }
}

pub open spec fn move_to(s: EditorView, p: (int, int)) -> EditorView {
    EditorView { row: p.0 as usize, col: p.1 as usize, ..s }
}

/// The position after p: the next column, else the start of the next line.
pub open spec fn next_pos(s: EditorView, p: (usize, usize)) -> (usize, usize) {
    let (r, c) = p;
    if c < line_len(s.lines, r as int) {
        (r, (c + 1) as usize)
    } else if r + 1 < s.lines.len() {
        ((r + 1) as usize, 0)
    } else {
        (r, c)
    }
}

/// The selection between the visual anchor and the cursor, in text order.
pub open spec fn visual_range(s: EditorView) -> Option<((usize, usize), (usize, usize))> {
    match s.visual_anchor {
        None => None,
        Some((ar, ac)) => if ar < s.row || (ar == s.row && ac <= s.col) {
            Some(((ar, ac), (s.row, s.col)))
        } else {
            Some(((s.row, s.col), (ar, ac)))
        },
    }
}

pub open spec fn scroll_half(s: EditorView) -> usize {
    let h = if s.viewport_height >= 1 {
        s.viewport_height
    } else {
        1
    };
    if h / 2 >= 1 {
        (h / 2) as usize
    } else {
        1
    }
}

pub open spec fn scroll_half_down(s: EditorView) -> EditorView {
    let last = sat_sub(s.lines.len() as usize, 1);
    let target = s.row + scroll_half(s);
    EditorView {
        row: if target <= last {
            target as usize
        } else {
            last
        },
        ..s
    }
}

pub open spec fn scroll_half_up(s: EditorView) -> EditorView {
    EditorView { row: sat_sub(s.row, scroll_half(s)), ..s }
}

// ---------------------------------------------------------------------------
// Edits
// ---------------------------------------------------------------------------

pub open spec fn delete_char_under(s: EditorView) -> EditorView {
    if line_len(s.lines, s.row as int) == 0 {
        s
    } else {
        let s1 = push_undo(s);
        let line = s.lines[s.row as int];
        let b = cut(line, s.col as int);
        let bn = cut(line, s.col + 1);
        let nl = remove_span(line, s.col as int, s.col + 1);
        let s2 = EditorView {
            register: line.subrange(b, bn),
            register_linewise: false,
            ..set_line(s1, s.row as int, nl)
        };
        if s.col >= nl.len() && nl.len() > 0 {
            EditorView { col: (nl.len() - 1) as usize, ..s2 }
        } else {
            s2
        }
    }
}

pub open spec fn delete_to_end_of_line(s: EditorView) -> EditorView {
    let s1 = push_undo(s);
    let line = s.lines[s.row as int];
    let b = cut(line, s.col as int);
    let nl = line.subrange(0, b);
    let s2 = EditorView {
        register: line.subrange(b, line.len() as int),
        register_linewise: false,
        ..set_line(s1, s.row as int, nl)
    };
    if s.col > 0 && s.col >= nl.len() {
        EditorView { col: sat_sub(nl.len() as usize, 1), ..s2 }
    } else {
        s2
    }
}

pub open spec fn delete_line(s: EditorView) -> EditorView {
    let s1 = push_undo(s);
    let removed = s.lines[s.row as int];
    let rest = s.lines.remove(s.row as int);
    let lines = if rest.len() == 0 {
        seq![Seq::<char>::empty()]
    } else {
        rest
    };
    let row = if s.row >= lines.len() {
        (lines.len() - 1) as usize
    } else {
        s.row
    };
    let s2 = EditorView {
        lines,
        row,
        register: removed + seq!['\n'],
        register_linewise: true,
        ..s1
    };
    EditorView { col: first_nonblank(s2, row as int), ..s2 }
}

pub open spec fn yank_line(s: EditorView) -> EditorView {
    let line = if s.row < s.lines.len() {
        s.lines[s.row as int]
    } else {
        Seq::<char>::empty()
    };
    EditorView { register: line + seq!['\n'], register_linewise: true, ..s }
}

pub open spec fn replace_char(s: EditorView, c: char) -> EditorView {
    if line_len(s.lines, s.row as int) == 0 {
        s
    } else {
        let line = s.lines[s.row as int];
        set_line(
            s,
            s.row as int,
            line.subrange(0, cut(line, s.col as int)) + seq![c] + line.subrange(
                cut(line, s.col + 1),
                line.len() as int,
            ),
        )
    }
}

/// The text between `start` and `end` (end exclusive), lines separated by
/// newlines.
pub open spec fn range_text(lines: Seq<Seq<char>>, start: (usize, usize), end: (usize, usize)) -> Seq<
    char,
> {
    let (sr, sc) = start;
    let (er, ec) = end;
    if sr == er {
        let line = lines[sr as int];
        line.subrange(cut(line, sc as int), cut(line, ec as int))
    } else {
        let first = lines[sr as int];
        let last = lines[er as int];
        join_with(
            seq![first.subrange(cut(first, sc as int), first.len() as int)] + lines.subrange(
                sr + 1,
                er as int,
            ) + seq![last.subrange(0, cut(last, ec as int))],
            '\n',
        )
    }
}

/// A range the delete and yank operations accept: on lines, in order.
pub open spec fn range_ok(lines: Seq<Seq<char>>, start: (usize, usize), end: (usize, usize)) -> bool {
    let (sr, sc) = start;
    let (er, ec) = end;
    &&& sr <= er < lines.len()
    &&& sr == er ==> cut(lines[sr as int], sc as int) <= cut(lines[sr as int], ec as int)
}

pub open spec fn delete_range(s: EditorView, start: (usize, usize), end: (usize, usize)) -> EditorView {
    let (sr, sc) = start;
    let (er, ec) = end;
    if sr == er && sc == ec {
        s
    } else {
        let lines = if sr == er {
            let line = s.lines[sr as int];
            s.lines.update(sr as int, remove_span(line, sc as int, ec as int))
        } else {
            let first = s.lines[sr as int];
            let last = s.lines[er as int];
            s.lines.subrange(0, sr as int) + seq![
                first.subrange(0, cut(first, sc as int)) + last.subrange(
                    cut(last, ec as int),
                    last.len() as int,
                ),
            ] + s.lines.subrange(er + 1, s.lines.len() as int)
        };
        EditorView {
            lines: if lines.len() == 0 {
                seq![Seq::<char>::empty()]
            } else {
                lines
            },
            register: range_text(s.lines, start, end),
            register_linewise: false,
            row: sr,
            col: sc,
            ..s
        }
    }
}

pub open spec fn yank_range(s: EditorView, start: (usize, usize), end: (usize, usize)) -> EditorView {
    let (sr, sc) = start;
    let (er, ec) = end;
    if sr == er && sc == ec {
        s
    } else {
        EditorView {
            register: range_text(s.lines, start, end),
            register_linewise: false,
            ..s
        }
    }
}

/// `s` without its trailing newlines.
pub open spec fn trim_end_newlines(s: Seq<char>) -> Seq<char>
    decreases s.len(),
{
    if s.len() > 0 && s.last() == '\n' {
        trim_end_newlines(s.drop_last())
    } else {
        s
    }
}

pub open spec fn paste(s: EditorView, after: bool) -> EditorView {
    if s.register.len() == 0 {
        s
    } else {
        let s1 = push_undo(s);
        if s.register_linewise {
            let new_lines = split_on(trim_end_newlines(s.register), '\n');
            let at = if after {
                s.row + 1
            } else {
                s.row as int
            };
            let s2 = EditorView {
                lines: s.lines.subrange(0, at) + new_lines + s.lines.subrange(at, s.lines.len() as int),
                row: at as usize,
                ..s1
            };
            EditorView { col: first_nonblank(s2, at), ..s2 }
        } else {
            let line = s.lines[s.row as int];
            let ic = if after && line.len() > 0 {
                s.col + 1
            } else {
                s.col as int
            };
            let pieces = split_on(s.register, '\n');
            let n = pieces.len();
            if n == 1 {
                EditorView {
                    col: (ic + sat_sub(pieces[0].len() as usize, 1)) as usize,
                    ..set_line(s1, s.row as int, insert_at(line, ic, pieces[0]))
                }
            } else {
                let b = cut(line, ic);
                let left = line.subrange(0, b);
                let right = line.subrange(b, line.len() as int);
                EditorView {
                    lines: s.lines.subrange(0, s.row as int) + seq![left + pieces[0]]
                        + pieces.subrange(1, n - 1) + seq![pieces[n - 1] + right] + s.lines.subrange(
                        s.row + 1,
                        s.lines.len() as int,
                    ),
                    row: (s.row + n - 1) as usize,
                    col: pieces[n - 1].len() as usize,
                    ..s1
                }
            }
        }
    }
}

// ---------------------------------------------------------------------------
// Ex commands
// ---------------------------------------------------------------------------

pub open spec fn run_ex(s: EditorView, cmd: Seq<char>) -> EditorView {
    if cmd == "w"@ || cmd == "write"@ || cmd == "wq"@ || cmd == "x"@ || cmd == "wq!"@ {
        EditorView { exit: Some(EditorExit::Save), ..s }
    } else if cmd == "q"@ || cmd == "quit"@ || cmd == "q!"@ {
        EditorView { exit: Some(EditorExit::Cancel), ..s }
    } else if cmd.len() == 0 {
        s
    } else {
        EditorView { status: text_unknown_command() + cmd, ..s }
    }
}

// ---------------------------------------------------------------------------
// Key handling per mode
// ---------------------------------------------------------------------------

/// Whether a pending operator `p` completes with key code `code`.
pub open spec fn pending_completes(p: char, code: KeyCode) -> bool {
    match (p, code) {
        ('g', KeyCode::Char('g')) => true,
        ('d', KeyCode::Char('d')) => true,
        ('y', KeyCode::Char('y')) => true,
        ('c', KeyCode::Char('c')) => true,
        ('d', KeyCode::Char('w')) => true,
        ('c', KeyCode::Char('w')) => true,
        ('y', KeyCode::Char('w')) => true,
        ('d', KeyCode::Char('$')) => true,
        ('c', KeyCode::Char('$')) => true,
        ('d', KeyCode::Char('0')) => true,
        ('r', KeyCode::Char(_)) => true,
        _ => false,
    }
}

pub open spec fn word_target_from_cursor(s: EditorView) -> (usize, usize) {
    let t = word_forward_target(s.lines, s.row as int, s.col as int, true);
    (t.0 as usize, t.1 as usize)
}

/// Effect of the completing key of a pending operator.
pub open spec fn apply_pending(s: EditorView, p: char, code: KeyCode) -> EditorView {
    match (p, code) {
        ('g', KeyCode::Char('g')) => EditorView { row: 0, col: 0, ..s },
        ('d', KeyCode::Char('d')) => delete_line(s),
        ('y', KeyCode::Char('y')) => yank_line(s),
        ('c', KeyCode::Char('c')) => {
            let s1 = push_undo(s);
            enter_insert(EditorView { col: 0, ..set_line(s1, s.row as int, seq![]) })
        },
        ('d', KeyCode::Char('w')) => delete_range(
            push_undo(s),
            (s.row, s.col),
            word_target_from_cursor(s),
        ),
        ('c', KeyCode::Char('w')) => enter_insert(
            delete_range(push_undo(s), (s.row, s.col), word_target_from_cursor(s)),
        ),
        ('y', KeyCode::Char('w')) => yank_range(s, (s.row, s.col), word_target_from_cursor(s)),
        ('d', KeyCode::Char('$')) => delete_to_end_of_line(s),
        ('c', KeyCode::Char('$')) => enter_insert(delete_to_end_of_line(s)),
        ('d', KeyCode::Char('0')) => EditorView {
            col: 0,
            ..delete_range(push_undo(s), (s.row, 0), (s.row, s.col))
        },
        ('r', KeyCode::Char(c)) => replace_char(push_undo(s), c),
        _ => s,
    }
}

/// Normal mode, after any pending operator has been dealt with.
pub open spec fn normal_key(s: EditorView, key: Key) -> EditorView {
    let len = line_len(s.lines, s.row as int);
    match (key.code, key.ctrl) {
        (KeyCode::Esc, _) => EditorView { pending: None, status: seq![], ..s },
        (KeyCode::Char('h'), false) | (KeyCode::Left, _) => move_left(s),
        (KeyCode::Char('l'), false) | (KeyCode::Right, _) => move_right(s),
        (KeyCode::Char('j'), false) | (KeyCode::Down, _) => move_down(s),
        (KeyCode::Char('k'), false) | (KeyCode::Up, _) => move_up(s),
        (KeyCode::Char('0'), false) | (KeyCode::Home, _) => EditorView { col: 0, ..s },
        (KeyCode::Char('$'), false) | (KeyCode::End, _) => EditorView {
            col: sat_sub(len as usize, 1),
            ..s
        },
        (KeyCode::Char('^'), false) => EditorView { col: first_nonblank(s, s.row as int), ..s },
        (KeyCode::Char('w'), false) => move_to(s, word_forward_target(s.lines, s.row as int, s.col as int, true)),
        (KeyCode::Char('W'), false) => move_to(s, word_forward_target(s.lines, s.row as int, s.col as int, false)),
        (KeyCode::Char('b'), false) => move_to(s, back_scan(s.lines, s.row as int, s.col as int, true)),
        (KeyCode::Char('B'), false) => move_to(s, back_scan(s.lines, s.row as int, s.col as int, false)),
        (KeyCode::Char('e'), false) => move_to(s, word_end_target(s.lines, s.row as int, s.col as int, true)),
        (KeyCode::Char('E'), false) => move_to(s, word_end_target(s.lines, s.row as int, s.col as int, false)),
        (KeyCode::Char('G'), false) => EditorView { row: sat_sub(s.lines.len() as usize, 1), col: 0, ..s },
        (KeyCode::Char('g'), false) => EditorView { pending: Some('g'), ..s },
        (KeyCode::Char('d'), false) => EditorView { pending: Some('d'), ..s },
        (KeyCode::Char('y'), false) => EditorView { pending: Some('y'), ..s },
        (KeyCode::Char('c'), false) => EditorView { pending: Some('c'), ..s },
        (KeyCode::Char('r'), false) => EditorView { pending: Some('r'), ..s },
        (KeyCode::Char('u'), false) => do_undo(s),
        (KeyCode::Char('r'), true) => do_redo(s),
        (KeyCode::Char('d'), true) => scroll_half_down(s),
        (KeyCode::Char('u'), true) => scroll_half_up(s),
        (KeyCode::Char('i'), false) => enter_insert(s),
        (KeyCode::Char('I'), false) => enter_insert(EditorView { col: first_nonblank(s, s.row as int), ..s }),
        (KeyCode::Char('a'), false) => enter_insert(
            if len > 0 {
                EditorView { col: (s.col + 1) as usize, ..s }
            } else {
                s
            },
        ),
        (KeyCode::Char('A'), false) => enter_insert(EditorView { col: len as usize, ..s }),
        (KeyCode::Char('o'), false) => {
            let s1 = push_undo(s);
            enter_insert(
                EditorView {
                    row: (s.row + 1) as usize,
                    lines: s.lines.insert(s.row + 1, seq![]),
                    col: 0,
                    ..s1
                },
            )
        },
        (KeyCode::Char('O'), false) => {
            let s1 = push_undo(s);
            enter_insert(EditorView { lines: s.lines.insert(s.row as int, seq![]), col: 0, ..s1 })
        },
        (KeyCode::Char('x'), false) => delete_char_under(s),
        (KeyCode::Char('X'), false) => if s.col > 0 {
            delete_char_under(EditorView { col: (s.col - 1) as usize, ..s })
        } else {
            s
        },
        (KeyCode::Char('D'), false) => delete_to_end_of_line(s),
        (KeyCode::Char('C'), false) => enter_insert(delete_to_end_of_line(s)),
        (KeyCode::Char('p'), false) => paste(s, true),
        (KeyCode::Char('P'), false) => paste(s, false),
        (KeyCode::Char('v'), false) => EditorView {
            mode: EditorMode::Visual,
            visual_anchor: Some((s.row, s.col)),
            status: text_visual_mode(),
            ..s
        },
        (KeyCode::Char(':'), false) => EditorView {
            mode: EditorMode::Command,
            command_buffer: seq![],
            ..s
        },
        _ => s,
    }
}

pub open spec fn handle_normal(s: EditorView, key: Key) -> EditorView {
    let s0 = EditorView { pending: None, ..s };
    match s.pending {
        Some(p) => if pending_completes(p, key.code) {
            apply_pending(s0, p, key.code)
        } else {
            normal_key(s0, key)
        },
        None => normal_key(s0, key),
    }
}

pub open spec fn handle_insert(s: EditorView, key: Key) -> EditorView {
    let len = line_len(s.lines, s.row as int);
    match key.code {
        KeyCode::Esc => EditorView {
            mode: EditorMode::Normal,
            col: if s.col > 0 && s.col >= len {
                sat_sub(len as usize, 1)
            } else {
                s.col
            },
            status: seq![],
            ..s
        },
        KeyCode::Enter => {
            let s1 = push_undo(s);
            let line = s.lines[s.row as int];
            let b = cut(line, s.col as int);
            EditorView {
                lines: s.lines.update(s.row as int, line.subrange(0, b)).insert(
                    s.row + 1,
                    line.subrange(b, line.len() as int),
                ),
                row: (s.row + 1) as usize,
                col: 0,
                ..s1
            }
        },
        KeyCode::Backspace => if s.col > 0 {
            let s1 = push_undo(s);
            let line = s.lines[s.row as int];
            EditorView {
                col: (s.col - 1) as usize,
                ..set_line(s1, s.row as int, remove_span(line, s.col - 1, s.col as int))
            }
        } else if s.row > 0 {
            let s1 = push_undo(s);
            let cur = s.lines[s.row as int];
            let rest = s.lines.remove(s.row as int);
            let prev = rest[s.row - 1];
            EditorView {
                lines: rest.update(s.row - 1, prev + cur),
                row: (s.row - 1) as usize,
                col: prev.len() as usize,
                ..s1
            }
        } else {
            s
        },
        KeyCode::Tab => {
            let s1 = push_undo(s);
            let line = s.lines[s.row as int];
            EditorView {
                col: (s.col + 4) as usize,
                ..set_line(s1, s.row as int, insert_at(line, s.col as int, "    "@))
            }
        },
        KeyCode::Delete => delete_char_under(s),
        KeyCode::Left => move_left(s),
        KeyCode::Right => if s.col < len {
            EditorView { col: (s.col + 1) as usize, ..s }
        } else {
            s
        },
        KeyCode::Up => move_up(s),
        KeyCode::Down => move_down(s),
        KeyCode::Home => EditorView { col: 0, ..s },
        KeyCode::End => EditorView { col: len as usize, ..s },
        KeyCode::Char(c) => if !key.ctrl {
            let s1 = push_undo(s);
            let line = s.lines[s.row as int];
            EditorView {
                col: (s.col + 1) as usize,
                ..set_line(s1, s.row as int, insert_at(line, s.col as int, seq![c]))
            }
        } else {
            s
        },
        _ => s,
    }
}

/// Leaves visual mode.
pub open spec fn end_visual(s: EditorView) -> EditorView {
    EditorView { mode: EditorMode::Normal, visual_anchor: None, ..s }
}

pub open spec fn handle_visual(s: EditorView, key: Key) -> EditorView {
    let len = line_len(s.lines, s.row as int);
    match (key.code, key.ctrl) {
        (KeyCode::Esc, _) | (KeyCode::Char('v'), false) => EditorView {
            status: seq![],
            ..end_visual(s)
        },
        (KeyCode::Char('h'), false) | (KeyCode::Left, _) => move_left(s),
        (KeyCode::Char('l'), false) | (KeyCode::Right, _) => move_right(s),
        (KeyCode::Char('j'), false) | (KeyCode::Down, _) => move_down(s),
        (KeyCode::Char('k'), false) | (KeyCode::Up, _) => move_up(s),
        (KeyCode::Char('0'), false) => EditorView { col: 0, ..s },
        (KeyCode::Char('$'), false) => EditorView { col: sat_sub(len as usize, 1), ..s },
        (KeyCode::Char('^'), false) => EditorView { col: first_nonblank(s, s.row as int), ..s },
        (KeyCode::Char('w'), false) => move_to(s, word_forward_target(s.lines, s.row as int, s.col as int, true)),
        (KeyCode::Char('b'), false) => move_to(s, back_scan(s.lines, s.row as int, s.col as int, true)),
        (KeyCode::Char('e'), false) => move_to(s, word_end_target(s.lines, s.row as int, s.col as int, true)),
        (KeyCode::Char('g'), false) => EditorView { pending: Some('g'), ..s },
        (KeyCode::Char('G'), false) => EditorView { row: sat_sub(s.lines.len() as usize, 1), col: 0, ..s },
        (KeyCode::Char('y'), false) => end_visual(
            match visual_range(s) {
                Some((a, e)) => yank_range(s, a, next_pos(s, e)),
                None => s,
            },
        ),
        (KeyCode::Char('d'), false) | (KeyCode::Char('x'), false) => end_visual(
            match visual_range(s) {
                Some((a, e)) => delete_range(push_undo(s), a, next_pos(s, e)),
                None => s,
            },
        ),
        (KeyCode::Char('c'), false) => enter_insert(
            EditorView {
                visual_anchor: None,
                ..match visual_range(s) {
                    Some((a, e)) => delete_range(push_undo(s), a, next_pos(s, e)),
                    None => s,
                }
            },
        ),
        _ => match s.pending {
            Some(p) => if p == 'g' && key.code == KeyCode::Char('g') {
                EditorView { pending: None, row: 0, col: 0, ..s }
            } else {
                EditorView { pending: None, ..s }
            },
            None => s,
        },
    }
}

pub open spec fn handle_command(s: EditorView, key: Key) -> EditorView {
    match key.code {
        KeyCode::Esc => EditorView { mode: EditorMode::Normal, command_buffer: seq![], ..s },
        KeyCode::Enter => run_ex(
            EditorView { mode: EditorMode::Normal, command_buffer: seq![], ..s },
            trim(s.command_buffer),
        ),
        KeyCode::Backspace => if s.command_buffer.len() == 0 {
            EditorView { mode: EditorMode::Normal, ..s }
        } else {
            EditorView { command_buffer: s.command_buffer.drop_last(), ..s }
        },
        KeyCode::Char(c) => if !key.ctrl {
            EditorView { command_buffer: s.command_buffer.push(c), ..s }
        } else {
            s
        },
        _ => s,
    }
}

/// The editor's response to one key press.
pub open spec fn handle_key(s: EditorView, key: Key) -> EditorView {
    clamp_col(
        match s.mode {
            EditorMode::Normal => handle_normal(s, key),
            EditorMode::Insert => handle_insert(s, key),
            EditorMode::Visual => handle_visual(s, key),
            EditorMode::Command => handle_command(s, key),
        },
    )
}

/// Clamping the cursor makes any state with a sound visual anchor well formed.
pub proof fn lemma_clamp_wf(s: EditorView)
    requires
        anchor_ok(s),
    ensures
        wf(clamp_col(s)),
{
}

// ---------------------------------------------------------------------------
// Laws
// ---------------------------------------------------------------------------

/// The plain key for character `c`.
pub open spec fn char_key(c: char) -> Key {
    Key { code: KeyCode::Char(c), ctrl: false, other_modifiers: false }
}

/// `c` with Control held.
pub open spec fn ctrl_key(c: char) -> Key {
    Key { code: KeyCode::Char(c), ctrl: true, other_modifiers: false }
}

/// A state waiting for a fresh normal-mode command.
pub open spec fn idle_normal(s: EditorView) -> bool {
    wf(s) && s.mode == EditorMode::Normal && s.pending is None && clamp_col(s) == s
}

/// One normal-mode key press, without a pending operator.
pub proof fn lemma_normal_step(t: EditorView, key: Key)
    requires
        idle_normal(t),
    ensures
        handle_key(t, key) == clamp_col(normal_key(t, key)),
{
    assert(EditorView { pending: None, ..t } == t);
}

/// `u` in normal mode.
pub proof fn lemma_u_step(t: EditorView)
    requires
        idle_normal(t),
    ensures
        handle_key(t, char_key('u')) == clamp_col(do_undo(t)),
{
    lemma_normal_step(t, char_key('u'));
}

/// Control-`r` in normal mode.
pub proof fn lemma_redo_step(t: EditorView)
    requires
        idle_normal(t),
    ensures
        handle_key(t, ctrl_key('r')) == clamp_col(do_redo(t)),
{
    lemma_normal_step(t, ctrl_key('r'));
}

/// Undo brings back the text and cursor of the last snapshot, and keeps the
/// state it left for redo.
#[verifier::spinoff_prover]
#[verifier::rlimit(40)]
pub proof fn lemma_undo_restores(t: EditorView)
    requires
        idle_normal(t),
        t.undo.len() > 0,
        t.undo.last().lines.len() >= 1,
        t.undo.last().row < t.undo.last().lines.len(),
    ensures
        handle_key(t, char_key('u')).lines == t.undo.last().lines,
        handle_key(t, char_key('u')).row == t.undo.last().row,
        handle_key(t, char_key('u')).redo == t.redo.push(snap(t)),
        handle_key(t, char_key('u')).undo == t.undo.drop_last(),
{
    lemma_u_step(t);
}

/// Redo right after undo gives back the text that was undone.
#[verifier::spinoff_prover]
#[verifier::rlimit(40)]
pub proof fn lemma_undo_then_redo(t: EditorView)
    requires
        idle_normal(t),
        t.undo.len() > 0,
    ensures
        handle_key(handle_key(t, char_key('u')), ctrl_key('r')).lines == t.lines,
        handle_key(handle_key(t, char_key('u')), ctrl_key('r')).row == t.row,
{
    lemma_u_step(t);
    let u = handle_key(t, char_key('u'));
    assert(u.redo.last() == snap(t));
    lemma_redo_step(u);
}

/// Deleting the character under the cursor and undoing gives back the text.
#[verifier::spinoff_prover]
#[verifier::rlimit(40)]
pub proof fn lemma_delete_char_undo(s: EditorView)
    requires
        idle_normal(s),
        line_len(s.lines, s.row as int) > 0,
    ensures
        handle_key(handle_key(s, char_key('x')), char_key('u')).lines == s.lines,
        handle_key(handle_key(s, char_key('x')), char_key('u')).row == s.row,
{
    lemma_normal_step(s, char_key('x'));
    let t = handle_key(s, char_key('x'));
    assert(t.undo.last() == snap(s));
    lemma_u_step(t);
}

/// One insert-mode key press.
pub proof fn lemma_insert_step(t: EditorView, key: Key)
    requires
        t.mode == EditorMode::Insert,
    ensures
        handle_key(t, key) == clamp_col(handle_insert(t, key)),
{
}

/// Typing a character in insert mode.
pub proof fn lemma_insert_char(s: EditorView, c: char)
    requires
        wf(s),
        size_ok(s),
        s.mode == EditorMode::Insert,
    ensures
        handle_insert(s, char_key(c)).lines == s.lines.update(
            s.row as int,
            insert_at(s.lines[s.row as int], s.col as int, seq![c]),
        ),
        handle_insert(s, char_key(c)).col == s.col + 1,
        handle_insert(s, char_key(c)).row == s.row,
        handle_insert(s, char_key(c)).mode == EditorMode::Insert,
{
}

/// Backspace in insert mode after the first column.
pub proof fn lemma_backspace(t: EditorView)
    requires
        t.mode == EditorMode::Insert,
        t.col > 0,
        t.row < t.lines.len(),
    ensures
        handle_insert(t, Key { code: KeyCode::Backspace, ctrl: false, other_modifiers: false }).lines
            == t.lines.update(
            t.row as int,
            remove_span(t.lines[t.row as int], t.col - 1, t.col as int),
        ),
        handle_insert(t, Key { code: KeyCode::Backspace, ctrl: false, other_modifiers: false }).col
            == t.col - 1,
{
}

/// In insert mode, typing a character and then Backspace gives back the line.
#[verifier::spinoff_prover]
#[verifier::rlimit(40)]
pub proof fn lemma_insert_backspace(s: EditorView, c: char)
    requires
        wf(s),
        size_ok(s),
        s.mode == EditorMode::Insert,
    ensures
        handle_key(
            handle_key(s, char_key(c)),
            Key { code: KeyCode::Backspace, ctrl: false, other_modifiers: false },
        ).lines == s.lines,
        handle_key(
            handle_key(s, char_key(c)),
            Key { code: KeyCode::Backspace, ctrl: false, other_modifiers: false },
        ).col == s.col,
{
    let bs = Key { code: KeyCode::Backspace, ctrl: false, other_modifiers: false };
    let line = s.lines[s.row as int];
    let nl = insert_at(line, s.col as int, seq![c]);
    assert(line.len() + s.register.len() + 8 < usize::MAX);
    lemma_insert_step(s, char_key(c));
    lemma_insert_char(s, c);
    let t0 = handle_insert(s, char_key(c));
    assert(nl.len() == line.len() + 1);
    let t = handle_key(s, char_key(c));
    assert(t.lines == t0.lines);
    assert(t.col == t0.col);
    assert(t.row == s.row);
    lemma_insert_step(t, bs);
    lemma_backspace(t);
    assert(remove_span(nl, s.col as int, s.col + 1) =~= line);
    let u0 = handle_insert(t, bs);
    assert(u0.lines =~= s.lines);
}

/// `dd` in normal mode deletes the cursor line into a line-wise register.
#[verifier::spinoff_prover]
#[verifier::rlimit(40)]
pub proof fn lemma_dd(s: EditorView)
    requires
        idle_normal(s),
        s.row + 1 < s.lines.len(),
    ensures
        handle_key(handle_key(s, char_key('d')), char_key('d')).lines == s.lines.remove(s.row as int),
        handle_key(handle_key(s, char_key('d')), char_key('d')).row == s.row,
        handle_key(handle_key(s, char_key('d')), char_key('d')).register == s.lines[s.row as int]
            + seq!['\n'],
        handle_key(handle_key(s, char_key('d')), char_key('d')).register_linewise,
        idle_normal(handle_key(handle_key(s, char_key('d')), char_key('d'))),
{
    lemma_normal_step(s, char_key('d'));
    let s1 = handle_key(s, char_key('d'));
    assert(s1 == EditorView { pending: Some('d'), ..s });
    assert(EditorView { pending: None, ..s1 } == s);
    let s2 = handle_key(s1, char_key('d'));
    assert(s2 == clamp_col(delete_line(s)));
}

/// `P` with a line-wise register holding one line puts that line above the cursor.
#[verifier::spinoff_prover]
#[verifier::rlimit(40)]
pub proof fn lemma_put_line_above(s: EditorView, line: Seq<char>)
    requires
        idle_normal(s),
        s.register == line + seq!['\n'],
        s.register_linewise,
        free_of(line, '\n'),
    ensures
        handle_key(s, char_key('P')).lines == s.lines.subrange(0, s.row as int) + seq![line]
            + s.lines.subrange(s.row as int, s.lines.len() as int),
{
    lemma_normal_step(s, char_key('P'));
    let reg = line + seq!['\n'];
    assert(reg.drop_last() =~= line);
    assert(trim_end_newlines(reg) == trim_end_newlines(line));
    if line.len() > 0 {
        assert(line.last() != '\n');
    }
    assert(trim_end_newlines(line) == line);
    crate::text::lemma_find_from(line, '\n', 0);
    assert(split_on(line, '\n') == seq![line]);
    assert(handle_key(s, char_key('P')).lines == paste(s, false).lines);
}

/// Deleting a line (`dd`) and putting it back above (`P`) gives back the
/// text, for any line but the last.
#[verifier::spinoff_prover]
#[verifier::rlimit(40)]
pub proof fn lemma_delete_line_put_back(s: EditorView)
    requires
        idle_normal(s),
        s.row + 1 < s.lines.len(),
        free_of(s.lines[s.row as int], '\n'),
    ensures
        handle_key(handle_key(handle_key(s, char_key('d')), char_key('d')), char_key('P')).lines
            == s.lines,
{
    lemma_dd(s);
    let s2 = handle_key(handle_key(s, char_key('d')), char_key('d'));
    lemma_put_line_above(s2, s.lines[s.row as int]);
    assert(s2.lines.subrange(0, s.row as int) + seq![s.lines[s.row as int]] + s2.lines.subrange(
        s.row as int,
        s2.lines.len() as int,
    ) =~= s.lines);
}

/// `p` with a line-wise register holding one line puts that line below the cursor.
#[verifier::spinoff_prover]
#[verifier::rlimit(40)]
pub proof fn lemma_put_line_below(s: EditorView, line: Seq<char>)
    requires
        idle_normal(s),
        s.register == line + seq!['\n'],
        s.register_linewise,
        free_of(line, '\n'),
    ensures
        handle_key(s, char_key('p')).lines == s.lines.subrange(0, s.row + 1) + seq![line]
            + s.lines.subrange(s.row + 1, s.lines.len() as int),
{
    lemma_normal_step(s, char_key('p'));
    let reg = line + seq!['\n'];
    assert(reg.drop_last() =~= line);
    assert(trim_end_newlines(reg) == trim_end_newlines(line));
    if line.len() > 0 {
        assert(line.last() != '\n');
    }
    assert(trim_end_newlines(line) == line);
    crate::text::lemma_find_from(line, '\n', 0);
    assert(split_on(line, '\n') == seq![line]);
    assert(handle_key(s, char_key('p')).lines == paste(s, true).lines);
}

/// `yy` then `p` puts a copy of the cursor line below it.
#[verifier::spinoff_prover]
#[verifier::rlimit(40)]
pub proof fn lemma_yank_put_below(s: EditorView)
    requires
        idle_normal(s),
        free_of(s.lines[s.row as int], '\n'),
    ensures
        handle_key(handle_key(handle_key(s, char_key('y')), char_key('y')), char_key('p')).lines
            == s.lines.subrange(0, s.row + 1) + seq![s.lines[s.row as int]] + s.lines.subrange(
            s.row + 1,
            s.lines.len() as int,
        ),
{
    lemma_normal_step(s, char_key('y'));
    let s1 = handle_key(s, char_key('y'));
    assert(s1 == EditorView { pending: Some('y'), ..s });
    assert(EditorView { pending: None, ..s1 } == s);
    let s2 = handle_key(s1, char_key('y'));
    assert(s2 == clamp_col(yank_line(s)));
    assert(s2 == yank_line(s));
    lemma_put_line_below(s2, s.lines[s.row as int]);
}

/// The Enter key.
pub open spec fn enter_key() -> Key {
    Key { code: KeyCode::Enter, ctrl: false, other_modifiers: false }
}

/// The editor after `:`, `c` and Enter in normal mode.
#[verifier::opaque]
pub open spec fn after_ex(s: EditorView, c: char) -> EditorView {
    handle_key(handle_key(handle_key(s, char_key(':')), char_key(c)), enter_key())
}

/// `:` in normal mode opens an empty command line.
#[verifier::spinoff_prover]
proof fn lemma_colon(s: EditorView)
    requires
        idle_normal(s),
    ensures
        handle_key(s, char_key(':')) == (EditorView { mode: EditorMode::Command, command_buffer: seq![], ..s }),
{
    lemma_normal_step(s, char_key(':'));
}

/// A character typed on the command line is appended to it.
#[verifier::spinoff_prover]
proof fn lemma_command_char(t: EditorView, c: char)
    requires
        t.mode == EditorMode::Command,
        clamp_col(t) == t,
    ensures
        handle_key(t, char_key(c)) == (EditorView { command_buffer: t.command_buffer.push(c), ..t }),
{
}

/// Enter on the command line runs the trimmed command in normal mode.
#[verifier::spinoff_prover]
proof fn lemma_command_enter(t: EditorView)
    requires
        t.mode == EditorMode::Command,
    ensures
        handle_key(t, enter_key()) == clamp_col(
            run_ex(EditorView { mode: EditorMode::Normal, command_buffer: seq![], ..t }, trim(t.command_buffer)),
        ),
{
}

/// Typing a one-letter ex command and Enter runs it on the text as it was.
proof fn lemma_one_letter_ex(s: EditorView, c: char)
    requires
        idle_normal(s),
        !is_ws(c),
    ensures
        after_ex(s, c) == clamp_col(run_ex(EditorView { mode: EditorMode::Normal, command_buffer: seq![], ..s }, seq![c])),
{
    reveal(after_ex);
    lemma_colon(s);
    let c1 = EditorView { mode: EditorMode::Command, command_buffer: seq![], ..s };
    assert(clamp_col(c1) == c1);
    lemma_command_char(c1, c);
    assert(seq![].push(c) =~= seq![c]);
    let c2 = EditorView { command_buffer: seq![c], ..c1 };
    lemma_command_enter(c2);
    assert(trim(seq![c]) == seq![c]) by {
        reveal_with_fuel(crate::text::trim_end, 2);
        reveal_with_fuel(crate::text::trim_start, 2);
        assert(seq![c].drop_last() =~= Seq::<char>::empty());
    }
    assert(EditorView { mode: EditorMode::Normal, command_buffer: seq![], ..c2 } == EditorView {
        mode: EditorMode::Normal,
        command_buffer: seq![],
        ..s
    });
}

/// `:w` and Enter close the editor asking to save, with the text as it was.
pub proof fn lemma_write_saves(s: EditorView)
    requires
        idle_normal(s),
    ensures
        after_ex(s, 'w').exit == Some(EditorExit::Save),
        after_ex(s, 'w').lines == s.lines,
{
    lemma_one_letter_ex(s, 'w');
    reveal_strlit("w");
    assert(seq!['w'] =~= "w"@);
}

/// `:q` and Enter close the editor discarding the changes.
pub proof fn lemma_quit_discards(s: EditorView)
    requires
        idle_normal(s),
    ensures
        after_ex(s, 'q').exit == Some(EditorExit::Cancel),
        after_ex(s, 'q').lines == s.lines,
{
    lemma_one_letter_ex(s, 'q');
    reveal_strlit("w");
    reveal_strlit("write");
    reveal_strlit("wq");
    reveal_strlit("x");
    reveal_strlit("wq!");
    reveal_strlit("q");
    assert(seq!['q'] =~= "q"@);
    assert(seq!['q'] != "w"@ && seq!['q'] != "x"@) by {
        assert(seq!['q'][0] != "w"@[0]);
        assert(seq!['q'][0] != "x"@[0]);
    }
}

/// In insert mode, Enter splits the line at the cursor and Backspace at the
/// start of the new line joins it back: the text, row and column are as
/// before, still in insert mode.
#[verifier::spinoff_prover]
#[verifier::rlimit(40)]
pub proof fn lemma_enter_backspace(s: EditorView)
    requires
        wf(s),
        size_ok(s),
        s.mode == EditorMode::Insert,
    ensures
        handle_key(handle_key(s, enter_key()), Key { code: KeyCode::Backspace, ctrl: false, other_modifiers: false }).lines
            == s.lines,
        handle_key(handle_key(s, enter_key()), Key { code: KeyCode::Backspace, ctrl: false, other_modifiers: false }).row
            == s.row,
        handle_key(handle_key(s, enter_key()), Key { code: KeyCode::Backspace, ctrl: false, other_modifiers: false }).col
            == s.col,
        handle_key(handle_key(s, enter_key()), Key { code: KeyCode::Backspace, ctrl: false, other_modifiers: false }).mode
            == EditorMode::Insert,
{
    let bs = Key { code: KeyCode::Backspace, ctrl: false, other_modifiers: false };
    let line = s.lines[s.row as int];
    let c = s.col as int;
    assert(c <= line.len());
    let left = line.subrange(0, c);
    let right = line.subrange(c, line.len() as int);
    lemma_insert_step(s, enter_key());
    let t0 = handle_insert(s, enter_key());
    assert(t0.lines == s.lines.update(s.row as int, left).insert(s.row + 1, right));
    let t = handle_key(s, enter_key());
    assert(t0.lines.len() == s.lines.len() + 1);
    assert(t == t0);
    assert(t.col == 0);
    assert(t.row == s.row + 1);
    assert(t.mode == EditorMode::Insert);
    assert(t.lines[s.row + 1] == right);
    lemma_insert_step(t, bs);
    let u0 = handle_insert(t, bs);
    let rest = t.lines.remove(s.row + 1);
    assert(rest =~= s.lines.update(s.row as int, left));
    assert(rest[s.row as int] == left);
    assert(u0.lines == rest.update(s.row as int, left + right));
    assert(u0.col == left.len());
    assert(left + right =~= line);
    assert(u0.lines =~= s.lines);
    assert(u0.col == s.col);
    assert(u0.row == s.row);
}

/// `dd` on the last line deletes it into a line-wise register and leaves
/// the cursor on the new last line.
#[verifier::spinoff_prover]
#[verifier::rlimit(40)]
pub proof fn lemma_dd_last(s: EditorView)
    requires
        idle_normal(s),
        s.lines.len() >= 2,
        s.row + 1 == s.lines.len(),
    ensures
        handle_key(handle_key(s, char_key('d')), char_key('d')).lines == s.lines.remove(s.row as int),
        handle_key(handle_key(s, char_key('d')), char_key('d')).row + 1 == s.row,
        handle_key(handle_key(s, char_key('d')), char_key('d')).register == s.lines[s.row as int]
            + seq!['\n'],
        handle_key(handle_key(s, char_key('d')), char_key('d')).register_linewise,
        idle_normal(handle_key(handle_key(s, char_key('d')), char_key('d'))),
{
    lemma_normal_step(s, char_key('d'));
    let s1 = handle_key(s, char_key('d'));
    assert(s1 == EditorView { pending: Some('d'), ..s });
    assert(EditorView { pending: None, ..s1 } == s);
    let s2 = handle_key(s1, char_key('d'));
    assert(s2 == clamp_col(delete_line(s)));
}

/// Deleting the last line (`dd`) and putting it back below (`p`) gives
/// back the text.
#[verifier::spinoff_prover]
#[verifier::rlimit(40)]
pub proof fn lemma_delete_last_line_put_back(s: EditorView)
    requires
        idle_normal(s),
        s.lines.len() >= 2,
        s.row + 1 == s.lines.len(),
        free_of(s.lines[s.row as int], '\n'),
    ensures
        handle_key(handle_key(handle_key(s, char_key('d')), char_key('d')), char_key('p')).lines
            == s.lines,
{
    lemma_dd_last(s);
    let s2 = handle_key(handle_key(s, char_key('d')), char_key('d'));
    let rest = s.lines.remove(s.row as int);
    lemma_put_line_below(s2, s.lines[s.row as int]);
    assert(rest.subrange(0, s2.row + 1) + seq![s.lines[s.row as int]] + rest.subrange(
        s2.row + 1,
        rest.len() as int,
    ) =~= s.lines);
}

/// After any key the text has a line, the cursor is on a line, and its
/// column is within the line: at most its length in insert mode, on one of
/// its characters (or 0 on an empty line) in every other mode.
pub proof fn lemma_key_keeps_cursor_on_text(s: EditorView, key: Key)
    ensures
        handle_key(s, key).lines.len() >= 1,
        handle_key(s, key).row < handle_key(s, key).lines.len(),
        handle_key(s, key).mode == EditorMode::Insert ==> handle_key(s, key).col <= line_len(
            handle_key(s, key).lines,
            handle_key(s, key).row as int,
        ),
        handle_key(s, key).mode != EditorMode::Insert ==> handle_key(s, key).col == 0 || handle_key(s, key).col
            < line_len(handle_key(s, key).lines, handle_key(s, key).row as int),
{
}

/// The ex commands: `w`, `write`, `wq`, `x` and `wq!` close asking to
/// save; `q`, `quit` and `q!` close discarding; an empty command does
/// nothing; any other says it is unknown. None touches the text, the
/// cursor or the mode.
pub proof fn lemma_run_ex(s: EditorView, cmd: Seq<char>)
    ensures
        run_ex(s, cmd).lines == s.lines,
        run_ex(s, cmd).row == s.row,
        run_ex(s, cmd).col == s.col,
        run_ex(s, cmd).mode == s.mode,
        (cmd == "w"@ || cmd == "write"@ || cmd == "wq"@ || cmd == "x"@ || cmd == "wq!"@) ==> run_ex(s, cmd).exit
            == Some(EditorExit::Save),
        !(cmd == "w"@ || cmd == "write"@ || cmd == "wq"@ || cmd == "x"@ || cmd == "wq!"@) && (cmd == "q"@ || cmd
            == "quit"@ || cmd == "q!"@) ==> run_ex(s, cmd).exit == Some(EditorExit::Cancel),
        cmd.len() == 0 ==> run_ex(s, cmd) == s,
        !(cmd == "w"@ || cmd == "write"@ || cmd == "wq"@ || cmd == "x"@ || cmd == "wq!"@ || cmd == "q"@ || cmd
            == "quit"@ || cmd == "q!"@) && cmd.len() > 0 ==> run_ex(s, cmd) == (EditorView {
            status: text_unknown_command() + cmd,
            ..s
        }),
{
    if cmd.len() == 0 {
        reveal_strlit("w");
        reveal_strlit("write");
        reveal_strlit("wq");
        reveal_strlit("x");
        reveal_strlit("wq!");
        reveal_strlit("q");
        reveal_strlit("quit");
        reveal_strlit("q!");
    }
}

// ---------------------------------------------------------------------------
// The text as one string
// ---------------------------------------------------------------------------

/// Every line followed by a newline, one after another.
pub open spec fn flat(ls: Seq<Seq<char>>) -> Seq<char>
    decreases ls.len(),
{
    if ls.len() == 0 {
        seq![]
    } else {
        flat(ls.drop_last()) + ls.last() + seq!['\n']
    }
}

/// The text of the editor: its lines joined with newlines.
pub open spec fn text_of(lines: Seq<Seq<char>>) -> Seq<char> {
    join_with(lines, '\n')
}

/// The index in the text of position `p` (row, column).
pub open spec fn offset(lines: Seq<Seq<char>>, p: (usize, usize)) -> int {
    flat(lines.take(p.0 as int)).len() + p.1
}

proof fn lemma_flat_append(a: Seq<Seq<char>>, b: Seq<Seq<char>>)
    ensures
        flat(a + b) == flat(a) + flat(b),
    decreases b.len(),
{
    if b.len() == 0 {
        assert(a + b =~= a);
        assert(flat(b) =~= Seq::<char>::empty());
        assert(flat(a) + flat(b) =~= flat(a));
    } else {
        lemma_flat_append(a, b.drop_last());
        assert((a + b).drop_last() =~= a + b.drop_last());
        assert((a + b).last() == b.last());
        assert(flat(a + b) =~= flat(a) + flat(b));
    }
}

proof fn lemma_flat_single(x: Seq<char>)
    ensures
        flat(seq![x]) == x + seq!['\n'],
{
    assert(seq![x].drop_last() =~= Seq::<Seq<char>>::empty());
    assert(flat(Seq::<Seq<char>>::empty()) =~= Seq::<char>::empty());
    assert(flat(seq![x]) =~= x + seq!['\n']);
}

/// The text is the flat form without its final newline.
proof fn lemma_join_flat(ls: Seq<Seq<char>>)
    requires
        ls.len() >= 1,
    ensures
        text_of(ls) + seq!['\n'] == flat(ls),
    decreases ls.len(),
{
    if ls.len() == 1 {
        lemma_flat_single(ls[0]);
        assert(seq![ls[0]] =~= ls);
    } else {
        let rest = ls.drop_first();
        lemma_join_flat(rest);
        assert(seq![ls[0]] + rest =~= ls);
        lemma_flat_append(seq![ls[0]], rest);
        lemma_flat_single(ls[0]);
        assert(text_of(ls) == ls[0] + seq!['\n'] + text_of(rest));
        assert(text_of(ls) + seq!['\n'] =~= flat(ls));
    }
}

/// Cutting columns `sc..ec` out of line `sr`, in terms of the text.
#[verifier::spinoff_prover]
#[verifier::rlimit(40)]
proof fn lemma_cut_in_line(l: Seq<Seq<char>>, sr: int, sc: int, ec: int)
    requires
        0 <= sr < l.len(),
        0 <= sc <= ec <= l[sr].len(),
    ensures
        flat(l.take(sr)).len() + ec <= text_of(l).len(),
        text_of(l.update(sr, l[sr].subrange(0, sc) + l[sr].subrange(ec, l[sr].len() as int))) == text_of(
            l,
        ).subrange(0, flat(l.take(sr)).len() + sc) + text_of(l).subrange(
            flat(l.take(sr)).len() + ec,
            text_of(l).len() as int,
        ),
        text_of(l).subrange(flat(l.take(sr)).len() + sc, flat(l.take(sr)).len() + ec) == l[sr].subrange(sc, ec),
{
    let n = l.len() as int;
    let p = l.take(sr);
    let q = l.subrange(sr + 1, n);
    let line = l[sr];
    let f = flat(l);
    let fp = flat(p);
    lemma_join_flat(l);
    let j = text_of(l);
    assert(j =~= f.subrange(0, f.len() - 1));
    assert(l =~= p + seq![line] + q);
    lemma_flat_append(p + seq![line], q);
    lemma_flat_append(p, seq![line]);
    lemma_flat_single(line);
    assert(f =~= fp + line + seq!['\n'] + flat(q));
    let kept = line.subrange(0, sc) + line.subrange(ec, line.len() as int);
    let dl = p + seq![kept] + q;
    assert(l.update(sr, kept) =~= dl);
    lemma_flat_append(p + seq![kept], q);
    lemma_flat_append(p, seq![kept]);
    lemma_flat_single(kept);
    lemma_join_flat(dl);
    let oa = fp.len() + sc;
    let ob = fp.len() + ec;
    assert(flat(dl) =~= fp + kept + seq!['\n'] + flat(q));
    assert(f.subrange(0, oa) + f.subrange(ob, f.len() as int) =~= flat(dl));
    assert(text_of(dl) =~= flat(dl).subrange(0, flat(dl).len() - 1));
    assert(j.subrange(0, oa) + j.subrange(ob, j.len() as int) =~= text_of(dl));
    assert(j.subrange(oa, ob) =~= line.subrange(sc, ec));
}

/// Cutting from column `sc` of line `sr` to column `ec` of a later line
/// `er`, in terms of the text.
#[verifier::spinoff_prover]
#[verifier::rlimit(60)]
proof fn lemma_cut_across_lines(l: Seq<Seq<char>>, sr: int, sc: int, er: int, ec: int)
    requires
        0 <= sr < er < l.len(),
        0 <= sc <= l[sr].len(),
        0 <= ec <= l[er].len(),
    ensures
        flat(l.take(sr)).len() + sc <= flat(l.take(er)).len() + ec <= text_of(l).len(),
        text_of(
            l.subrange(0, sr) + seq![l[sr].subrange(0, sc) + l[er].subrange(ec, l[er].len() as int)] + l.subrange(
                er + 1,
                l.len() as int,
            ),
        ) == text_of(l).subrange(0, flat(l.take(sr)).len() + sc) + text_of(l).subrange(
            flat(l.take(er)).len() + ec,
            text_of(l).len() as int,
        ),
        text_of(
            seq![l[sr].subrange(sc, l[sr].len() as int)] + l.subrange(sr + 1, er) + seq![l[er].subrange(0, ec)],
        ) == text_of(l).subrange(flat(l.take(sr)).len() + sc, flat(l.take(er)).len() + ec),
{
    let n = l.len() as int;
    let p = l.take(sr);
    let q = l.subrange(er + 1, n);
    let first = l[sr];
    let last = l[er];
    let m = l.subrange(sr + 1, er);
    let f = flat(l);
    let fp = flat(p);
    let fm = flat(m);
    lemma_join_flat(l);
    let j = text_of(l);
    assert(j =~= f.subrange(0, f.len() - 1));
    assert(l =~= p + seq![first] + m + seq![last] + q);
    lemma_flat_append(p + seq![first] + m + seq![last], q);
    lemma_flat_append(p + seq![first] + m, seq![last]);
    lemma_flat_append(p + seq![first], m);
    lemma_flat_append(p, seq![first]);
    lemma_flat_single(first);
    lemma_flat_single(last);
    assert(f =~= fp + first + seq!['\n'] + fm + last + seq!['\n'] + flat(q));
    assert(l.take(er) =~= p + seq![first] + m);
    assert(flat(l.take(er)) =~= fp + first + seq!['\n'] + fm);
    let joined = first.subrange(0, sc) + last.subrange(ec, last.len() as int);
    let dl = p + seq![joined] + q;
    assert(l.subrange(0, sr) == p);
    lemma_flat_append(p + seq![joined], q);
    lemma_flat_append(p, seq![joined]);
    lemma_flat_single(joined);
    lemma_join_flat(dl);
    let oa = fp.len() + sc;
    let ob = fp.len() + first.len() + 1 + fm.len() + ec;
    assert(flat(dl) =~= fp + joined + seq!['\n'] + flat(q));
    assert(f.subrange(0, oa) + f.subrange(ob, f.len() as int) =~= flat(dl));
    assert(text_of(dl) =~= flat(dl).subrange(0, flat(dl).len() - 1));
    assert(j.subrange(0, oa) + j.subrange(ob, j.len() as int) =~= text_of(dl));
    let head = first.subrange(sc, first.len() as int);
    let tail = last.subrange(0, ec);
    let r = seq![head] + m + seq![tail];
    lemma_join_flat(r);
    lemma_flat_append(seq![head] + m, seq![tail]);
    lemma_flat_append(seq![head], m);
    lemma_flat_single(head);
    lemma_flat_single(tail);
    assert(flat(r) =~= head + seq!['\n'] + fm + tail + seq!['\n']);
    assert(text_of(r) =~= flat(r).subrange(0, flat(r).len() - 1));
    assert(j.subrange(oa, ob) =~= text_of(r));
}

/// Deleting from `a` up to `b` (`b` after `a`, both on the text) leaves
/// the text with those characters cut out, puts exactly them in the
/// register character-wise, and leaves the cursor at `a`.
pub proof fn lemma_delete_range_text(s: EditorView, a: (usize, usize), b: (usize, usize))
    requires
        a.0 <= b.0 < s.lines.len(),
        a.1 <= s.lines[a.0 as int].len(),
        b.1 <= s.lines[b.0 as int].len(),
        a.0 < b.0 || a.1 < b.1,
    ensures
        0 <= offset(s.lines, a) <= offset(s.lines, b) <= text_of(s.lines).len(),
        text_of(delete_range(s, a, b).lines) == text_of(s.lines).subrange(0, offset(s.lines, a)) + text_of(
            s.lines,
        ).subrange(offset(s.lines, b), text_of(s.lines).len() as int),
        delete_range(s, a, b).register == text_of(s.lines).subrange(offset(s.lines, a), offset(s.lines, b)),
        !delete_range(s, a, b).register_linewise,
        delete_range(s, a, b).row == a.0,
        delete_range(s, a, b).col == a.1,
        delete_range(s, a, b).lines.len() >= 1,
{
    let l = s.lines;
    let sr = a.0 as int;
    let sc = a.1 as int;
    let er = b.0 as int;
    let ec = b.1 as int;
    if sr == er {
        lemma_cut_in_line(l, sr, sc, ec);
        assert(l.take(er) == l.take(sr));
    } else {
        lemma_cut_across_lines(l, sr, sc, er, ec);
    }
}

} // verus!
