//! What the terminal screens show, as text and cell styles: the editor's
//! viewport, gutter and status line, and the list headings. Drawing it is
//! left to the terminal layer.
use vstd::prelude::*;

use crate::editor::VimEditor;
use crate::editor_model::{self as em, EditorMode, EditorView};
use crate::tui::{contains_text, decimal_text, text_starts_with};
use crate::tui_model::{self as tm, decimal};
use crate::validate::ItemKind;

verus! {

// ---------------------------------------------------------------------------
// Viewport
// ---------------------------------------------------------------------------

/// The first line to show so that the cursor's line `row` lies in a
/// viewport of `height` lines that started at `scroll`.
pub open spec fn scroll_for(scroll: usize, row: usize, height: usize) -> usize {
    if height == 0 {
        scroll
    } else if row < scroll {
        row
    } else if row >= scroll + height {
        (row + 1 - height) as usize
    } else {
        scroll
    }
}

/// Scrolls the editor so that the cursor's line is in a viewport of
/// `height` lines, moving as little as possible.
pub fn update_scroll(editor: &mut VimEditor, height: usize)
    ensures
        final(editor)@ == (EditorView {
            scroll: scroll_for(old(editor)@.scroll, old(editor)@.row, height),
            ..old(editor)@
        }),
{
    if height == 0 {
        proof {
            assert(old(editor)@ == (EditorView { scroll: old(editor)@.scroll, ..old(editor)@ }));
        }
        return;
    }
    let scroll = editor.scroll_top();
    let (row, _) = editor.cursor();
    let next = if row < scroll {
        row
    } else if row - scroll >= height {
        row - height + 1
    } else {
        scroll
    };
    editor.set_scroll(next);
}

/// A cursor that scrolled into view lies in the viewport.
pub proof fn lemma_scroll_shows_cursor(scroll: usize, row: usize, height: usize)
    requires
        height > 0,
        row + 1 <= usize::MAX,
    ensures
        scroll_for(scroll, row, height) <= row < scroll_for(scroll, row, height) + height,
{
}

/// The number of decimal digits of `n`.
pub open spec fn digits(n: nat) -> nat {
    decimal(n).len()
}

/// Width of the line-number gutter for `n_lines` lines: the digits of the
/// largest number (at least three) and a space.
pub open spec fn gutter_width_spec(n_lines: usize) -> int {
    let d = digits(if n_lines >= 1 {
        n_lines as nat
    } else {
        1
    });
    (if d >= 3 {
        d as int
    } else {
        3
    }) + 1
}

/// Ten to the power `k`.
pub open spec fn pow10(k: nat) -> nat
    decreases k,
{
    if k == 0 {
        1
    } else {
        10 * pow10((k - 1) as nat)
    }
}

/// A number below `10^k` has at most `k` digits.
proof fn lemma_decimal_len(n: nat, k: nat)
    requires
        k >= 1,
        n < pow10(k),
    ensures
        1 <= decimal(n).len() <= k,
    decreases k,
{
    if n >= 10 {
        let p = pow10((k - 1) as nat);
        assert(pow10(k) == 10 * p);
        assert(k >= 2) by {
            if k == 1 {
                assert(pow10(0) == 1);
            }
        }
        assert(n / 10 < p) by (nonlinear_arith)
            requires
                n < 10 * p,
        ;
        lemma_decimal_len(n / 10, (k - 1) as nat);
    }
}

/// Width of the line-number gutter.
pub fn gutter_width(n_lines: usize) -> (w: u16)
    ensures
        w == gutter_width_spec(n_lines),
{
    let n = if n_lines >= 1 {
        n_lines
    } else {
        1
    };
    let text = decimal_text(n);
    proof {
        reveal_with_fuel(pow10, 21);
        assert(pow10(20) == 100000000000000000000nat);
        lemma_decimal_len(n as nat, 20);
    }
    let d = text.as_str().unicode_len();
    let m = if d >= 3 {
        d
    } else {
        3
    };
    (m + 1) as u16
}

/// The text shown for a todo's title in a list (kept as it is).
pub fn highlight_match(text: &str, filter: &str) -> (s: String)
    ensures
        s@ == text@,
{
    String::from_str(text)
}

// ---------------------------------------------------------------------------
// Gutter
// ---------------------------------------------------------------------------

/// `n` spaces.
pub open spec fn spaces(n: nat) -> Seq<char> {
    Seq::new(n, |i: int| ' ')
}

/// `s` right-aligned in `w` columns (never cut).
pub open spec fn pad_left(s: Seq<char>, w: nat) -> Seq<char> {
    if s.len() >= w {
        s
    } else {
        spaces((w - s.len()) as nat) + s
    }
}

/// The gutter label of screen line `i`: blank past the text; the line's
/// number on the cursor's line; elsewhere the distance to the cursor.
pub open spec fn gutter_label(n_lines: usize, row: usize, scroll: usize, width: usize, i: int) -> Seq<char> {
    let r = scroll + i;
    if r >= n_lines {
        spaces(width as nat)
    } else {
        let num = if r == row {
            r + 1
        } else if r > row {
            r - row
        } else {
            row - r
        };
        pad_left(decimal(num as nat), (width - 1) as nat).push(' ')
    }
}

fn spaces_text(n: usize) -> (s: String)
    ensures
        s@ == spaces(n as nat),
{
    let mut s = String::new();
    let mut i: usize = 0;
    while i < n
        invariant
            i <= n,
            s@ == spaces(i as nat),
        decreases n - i,
    {
        crate::text::push_char(&mut s, ' ');
        assert(s@ =~= spaces((i + 1) as nat));
        i = i + 1;
    }
    s
}

fn pad_left_text(s: &String, w: usize) -> (r: String)
    ensures
        r@ == pad_left(s@, w as nat),
{
    let n = s.as_str().unicode_len();
    if n >= w {
        s.clone()
    } else {
        let mut r = spaces_text(w - n);
        r.append(s.as_str());
        r
    }
}

/// The gutter labels of the `height` screen lines from line `scroll` on.
pub fn render_gutter(editor: &VimEditor, scroll: usize, height: usize, width: usize) -> (out: Vec<String>)
    requires
        width >= 1,
        scroll + height <= usize::MAX,
    ensures
        out@.len() == height,
        forall|i: int|
            0 <= i < height ==> (#[trigger] out@[i])@ == gutter_label(
                editor@.lines.len() as usize,
                editor@.row,
                scroll,
                width,
                i,
            ),
{
    let n_lines = editor.line_count();
    let (row, _) = editor.cursor();
    let mut out: Vec<String> = Vec::new();
    let mut i: usize = 0;
    while i < height
        invariant
            i <= height,
            scroll + height <= usize::MAX,
            width >= 1,
            n_lines == editor@.lines.len(),
            row == editor@.row,
            out@.len() == i,
            forall|k: int| 0 <= k < i ==> (#[trigger] out@[k])@ == gutter_label(n_lines, row, scroll, width, k),
        decreases height - i,
    {
        let r = scroll + i;
        let label = if r >= n_lines {
            spaces_text(width)
        } else {
            let num = if r == row {
                r + 1
            } else if r > row {
                r - row
            } else {
                row - r
            };
            let mut l = pad_left_text(&decimal_text(num), width - 1);
            crate::text::push_char(&mut l, ' ');
            l
        };
        out.push(label);
        i = i + 1;
    }
    out
}

// ---------------------------------------------------------------------------
// Text lines
// ---------------------------------------------------------------------------

/// How one character cell is shown.
#[derive(Clone, Copy, PartialEq, Eq, Debug, Structural)]
pub enum CellStyle {
    Plain,
    Selected,
    Cursor,
}

/// One character cell of the editor's viewport.
#[derive(Clone, Copy, PartialEq, Eq, Debug, Structural)]
pub struct Glyph {
    pub ch: char,
    pub style: CellStyle,
}

/// A screen line of the viewport: a text line's cells, or `~` past the
/// end of the text.
pub enum ScreenLine {
    Tilde,
    Text(Vec<Glyph>),
}

pub enum ScreenLineView {
    Tilde,
    Text(Seq<Glyph>),
}

impl View for ScreenLine {
    type V = ScreenLineView;

    open spec fn view(&self) -> ScreenLineView {
        match self {
            ScreenLine::Tilde => ScreenLineView::Tilde,
            ScreenLine::Text(v) => ScreenLineView::Text(v@),
        }
    }
}

/// Whether position (`r`, `c`) lies in the visual selection.
pub open spec fn in_selection(vr: Option<((usize, usize), (usize, usize))>, r: int, c: int) -> bool {
    match vr {
        None => false,
        Some(((sr, sc), (er, ec))) => (r > sr || (r == sr && c >= sc)) && (r < er || (r == er && c <= ec)),
    }
}

/// The style of cell `c` of text line `r`.
pub open spec fn cell_style(s: EditorView, r: int, c: int) -> CellStyle {
    if r == s.row && s.mode != EditorMode::Insert && c == s.col {
        CellStyle::Cursor
    } else if in_selection(em::visual_range(s), r, c) {
        CellStyle::Selected
    } else {
        CellStyle::Plain
    }
}

/// The cells of text line `r` in a viewport `width` columns wide: its
/// characters up to the width, then a cursor block when the cursor (not
/// inserting) stands past the line's end.
pub open spec fn line_cells(s: EditorView, r: int, width: usize) -> Seq<Glyph> {
    let chars = s.lines[r];
    let n = if chars.len() <= (if width >= 1 { width as int } else { 1 }) {
        chars.len() as int
    } else if width >= 1 {
        width as int
    } else {
        1
    };
    let base = glyphs(s, r, n);
    if r == s.row && s.mode != EditorMode::Insert && s.col >= chars.len() {
        base.push(Glyph { ch: ' ', style: CellStyle::Cursor })
    } else {
        base
    }
}

/// The first `n` cells of text line `r`.
pub open spec fn glyphs(s: EditorView, r: int, n: int) -> Seq<Glyph>
    decreases n,
{
    if n <= 0 {
        seq![]
    } else {
        glyphs(s, r, n - 1).push(Glyph { ch: s.lines[r][n - 1], style: cell_style(s, r, n - 1) })
    }
}

/// Position `a` comes no later than `b` in the text (row, then column).
pub open spec fn pos_le(a: (int, int), b: (int, int)) -> bool {
    a.0 < b.0 || (a.0 == b.0 && a.1 <= b.1)
}

/// Position `p` lies from `a` to `b` in text order, both included.
pub open spec fn between(a: (int, int), b: (int, int), p: (int, int)) -> bool {
    pos_le(a, p) && pos_le(p, b)
}

/// How a cell is drawn: the cursor cell (outside insert mode) as the
/// cursor; in visual mode every other cell from the anchor to the cursor
/// in text order, whichever comes first, as selected, whole lines between
/// them included; every other cell plain.
pub proof fn lemma_cell_styles(s: EditorView, r: int, c: int)
    requires
        s.visual_anchor is Some ==> s.mode == EditorMode::Visual,
    ensures
        r == s.row && s.mode != EditorMode::Insert && c == s.col ==> cell_style(s, r, c) == CellStyle::Cursor,
        !(r == s.row && s.mode != EditorMode::Insert && c == s.col) ==> match s.visual_anchor {
            None => cell_style(s, r, c) == CellStyle::Plain,
            Some((ar, ac)) => (cell_style(s, r, c) == CellStyle::Selected <==> (between(
                (ar as int, ac as int),
                (s.row as int, s.col as int),
                (r, c),
            ) || between((s.row as int, s.col as int), (ar as int, ac as int), (r, c)))) && (cell_style(s, r, c)
                == CellStyle::Selected || cell_style(s, r, c) == CellStyle::Plain),
        },
{
}

/// Screen line `i` of a viewport that starts at text line `scroll`.
pub open spec fn screen_line(s: EditorView, scroll: usize, width: usize, i: int) -> ScreenLineView {
    if scroll + i >= s.lines.len() {
        ScreenLineView::Tilde
    } else {
        ScreenLineView::Text(line_cells(s, scroll + i, width))
    }
}

fn glyph_at(editor: &VimEditor, r: usize, c: usize, ch: char, vr: Option<((usize, usize), (usize, usize))>) -> (g: Glyph)
    requires
        vr == em::visual_range(editor@),
    ensures
        g == (Glyph { ch: ch, style: cell_style(editor@, r as int, c as int) }),
{
    let (row, col) = editor.cursor();
    let cursor_here = r == row && editor.current_mode() != EditorMode::Insert;
    let selected = match vr {
        None => false,
        Some(((sr, sc), (er, ec))) => (r > sr || (r == sr && c >= sc)) && (r < er || (r == er && c <= ec)),
    };
    let style = if cursor_here && c == col {
        CellStyle::Cursor
    } else if selected {
        CellStyle::Selected
    } else {
        CellStyle::Plain
    };
    Glyph { ch, style }
}

fn text_cells(editor: &VimEditor, r: usize, width: usize, vr: Option<((usize, usize), (usize, usize))>) -> (out: Vec<Glyph>)
    requires
        r < editor@.lines.len(),
        vr == em::visual_range(editor@),
    ensures
        out@ == line_cells(editor@, r as int, width),
{
    let chars = editor.line_chars(r);
    let (row, col) = editor.cursor();
    let cursor_here = r == row && editor.current_mode() != EditorMode::Insert;
    let limit = if width >= 1 {
        width
    } else {
        1
    };
    let n = if chars.len() <= limit {
        chars.len()
    } else {
        limit
    };
    let mut cells: Vec<Glyph> = Vec::new();
    let mut c: usize = 0;
    while c < n
        invariant
            c <= n <= chars@.len(),
            chars@ == editor@.lines[r as int],
            row == editor@.row,
            col == editor@.col,
            cursor_here == (r == row && editor@.mode != EditorMode::Insert),
            vr == em::visual_range(editor@),
            cells@ == glyphs(editor@, r as int, c as int),
        decreases n - c,
    {
        let g = glyph_at(editor, r, c, chars[c], vr);
        cells.push(g);
        c = c + 1;
    }
    if cursor_here && col >= chars.len() {
        cells.push(Glyph { ch: ' ', style: CellStyle::Cursor });
    }
    cells
}

/// The `height` screen lines of the viewport from text line `scroll` on,
/// each cut to `width` columns.
pub fn render_editor_lines(editor: &VimEditor, scroll: usize, height: usize, width: usize) -> (out: Vec<ScreenLine>)
    requires
        scroll + height <= usize::MAX,
    ensures
        out@.len() == height,
        forall|i: int| 0 <= i < height ==> (#[trigger] out@[i])@ == screen_line(editor@, scroll, width, i),
{
    let vr = editor.visual_range();
    let n_lines = editor.line_count();
    let mut out: Vec<ScreenLine> = Vec::new();
    let mut i: usize = 0;
    while i < height
        invariant
            i <= height,
            scroll + height <= usize::MAX,
            n_lines == editor@.lines.len(),
            vr == em::visual_range(editor@),
            out@.len() == i,
            forall|k: int| 0 <= k < i ==> (#[trigger] out@[k])@ == screen_line(editor@, scroll, width, k),
        decreases height - i,
    {
        let r = scroll + i;
        if r >= n_lines {
            out.push(ScreenLine::Tilde);
        } else {
            out.push(ScreenLine::Text(text_cells(editor, r, width, vr)));
        }
        i = i + 1;
    }
    out
}

// ---------------------------------------------------------------------------
// Status line and headings
// ---------------------------------------------------------------------------

/// The hint shown in each editor mode.
pub open spec fn mode_hint(m: EditorMode) -> Seq<char> {
    match m {
        EditorMode::Normal => "i insert  v visual  :w save  :q cancel  u undo  dd yy p"@,
        EditorMode::Insert => "Esc normal"@,
        EditorMode::Visual => "d cut  y yank  c change  Esc normal"@,
        EditorMode::Command => seq![],
    }
}

/// The editor's status line: the command being typed (with `:` and a
/// `_` cursor), else the last status message, else the mode's hint.
pub open spec fn status_line_spec(s: EditorView) -> Seq<char> {
    if s.mode == EditorMode::Command {
        seq![':'] + s.command_buffer + seq!['_']
    } else if s.status.len() == 0 {
        mode_hint(s.mode)
    } else {
        s.status
    }
}

/// The editor's status line text.
pub fn build_status_line(editor: &VimEditor) -> (t: String)
    ensures
        t@ == status_line_spec(editor@),
{
    let m = editor.current_mode();
    match m {
        EditorMode::Command => {
            let mut t = String::from_str(":");
            t.append(editor.command_text().as_str());
            t.append("_");
            proof {
                reveal_strlit(":");
                reveal_strlit("_");
            }
            t
        },
        _ => {
            let st = editor.status_text();
            if st.as_str().unicode_len() == 0 {
                match m {
                    EditorMode::Normal => String::from_str("i insert  v visual  :w save  :q cancel  u undo  dd yy p"),
                    EditorMode::Insert => String::from_str("Esc normal"),
                    EditorMode::Visual => String::from_str("d cut  y yank  c change  Esc normal"),
                    EditorMode::Command => String::new(),
                }
            } else {
                st
            }
        },
    }
}

/// A list's heading: its title and count, or `shown/total` when filtered.
pub open spec fn pane_label_spec(title: Seq<char>, count: nat, total: nat) -> Seq<char> {
    if count == total {
        " "@ + title + " ["@ + decimal(total) + "] "@
    } else {
        " "@ + title + " ["@ + decimal(count) + "/"@ + decimal(total) + "] "@
    }
}

/// A list's heading.
pub fn pane_label(title: &str, count: usize, total: usize) -> (s: String)
    ensures
        s@ == pane_label_spec(title@, count as nat, total as nat),
{
    let mut s = String::from_str(" ");
    s.append(title);
    s.append(" [");
    if count == total {
        s.append(decimal_text(total).as_str());
    } else {
        s.append(decimal_text(count).as_str());
        s.append("/");
        s.append(decimal_text(total).as_str());
    }
    s.append("] ");
    s
}

/// Whether a status message reports a failure: it mentions `failed` or
/// starts with `error`. Such messages are shown in the error colour.
pub fn status_is_error(status: &String) -> (r: bool)
    ensures
        r == (tm::contains_text(status@, "failed"@) || tm::starts_with(status@, "error"@)),
{
    contains_text(status, &String::from_str("failed")) || text_starts_with(status, &String::from_str("error"))
}

/// What an empty list says: how to add the first item when there are
/// none, or that the filter matches nothing.
pub fn empty_list_message(kind: ItemKind, total: usize) -> (m: String)
    ensures
        m@ == if total > 0 {
            "no matches"@
        } else {
            match kind {
                ItemKind::Todo => "no todos — press i to add"@,
                ItemKind::Note => "no notes — press i to add"@,
            }
        },
{
    if total > 0 {
        String::from_str("no matches")
    } else {
        match kind {
            ItemKind::Todo => String::from_str("no todos — press i to add"),
            ItemKind::Note => String::from_str("no notes — press i to add"),
        }
    }
}

} // verus!
