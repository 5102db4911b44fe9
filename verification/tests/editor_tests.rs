use todo_tui::editor::VimEditor;
use todo_tui::editor_model::{EditorExit, EditorMode};
use todo_tui::keys::{Key, KeyCode};

fn ch(c: char) -> Key {
    Key { code: KeyCode::Char(c), ctrl: false, other_modifiers: false }
}

fn code(k: KeyCode) -> Key {
    Key { code: k, ctrl: false, other_modifiers: false }
}

fn feed(ed: &mut VimEditor, keys: &str) {
    for c in keys.chars() {
        ed.handle_key(ch(c));
    }
}

#[test]
fn new_and_body_round_trip() {
    for text in ["", "one", "one\ntwo", "a\n\nb\n"] {
        assert_eq!(VimEditor::new(text).body(), text);
    }
}

#[test]
fn dd_deletes_line_and_u_restores_it() {
    let mut ed = VimEditor::new("one\ntwo\nthree");
    feed(&mut ed, "dd");
    assert_eq!(ed.body(), "two\nthree");
    feed(&mut ed, "u");
    assert_eq!(ed.body(), "one\ntwo\nthree");
    ed.handle_key(Key { code: KeyCode::Char('r'), ctrl: true, other_modifiers: false });
    assert_eq!(ed.body(), "two\nthree");
}

#[test]
fn x_deletes_character_under_cursor() {
    let mut ed = VimEditor::new("abc");
    feed(&mut ed, "x");
    assert_eq!(ed.body(), "bc");
}

#[test]
fn insert_then_escape() {
    let mut ed = VimEditor::new("one");
    feed(&mut ed, "iX");
    assert_eq!(ed.current_mode(), EditorMode::Insert);
    ed.handle_key(code(KeyCode::Esc));
    assert_eq!(ed.current_mode(), EditorMode::Normal);
    assert_eq!(ed.body(), "Xone");
}

#[test]
fn insert_backspace_cancels_typed_char() {
    let mut ed = VimEditor::new("one");
    feed(&mut ed, "iZ");
    ed.handle_key(code(KeyCode::Backspace));
    assert_eq!(ed.body(), "one");
}

#[test]
fn yank_and_put_line() {
    let mut ed = VimEditor::new("one\ntwo");
    feed(&mut ed, "yyp");
    assert_eq!(ed.body(), "one\none\ntwo");
}

#[test]
fn ex_commands_end_the_session() {
    let mut ed = VimEditor::new("x");
    feed(&mut ed, ":w");
    ed.handle_key(code(KeyCode::Enter));
    assert_eq!(ed.exit_state(), Some(EditorExit::Save));
    let mut ed = VimEditor::new("x");
    feed(&mut ed, ":q");
    ed.handle_key(code(KeyCode::Enter));
    assert_eq!(ed.exit_state(), Some(EditorExit::Cancel));
}

#[test]
fn visual_selection_range() {
    let mut ed = VimEditor::new("hello\nworld");
    assert_eq!(ed.visual_range(), None);
    feed(&mut ed, "vll");
    assert_eq!(ed.visual_range(), Some(((0, 0), (0, 2))));
    feed(&mut ed, "d");
    assert_eq!(ed.body(), "lo\nworld");
}

#[test]
fn word_motions() {
    let mut ed = VimEditor::new("foo bar baz");
    feed(&mut ed, "w");
    assert_eq!(ed.cursor(), (0, 4));
    feed(&mut ed, "e");
    assert_eq!(ed.cursor(), (0, 6));
    feed(&mut ed, "b");
    assert_eq!(ed.cursor(), (0, 4));
}

#[test]
fn within_limits_for_ordinary_text() {
    assert!(VimEditor::new("a\nb").within_limits());
}

#[test]
fn write_keeps_text_and_yank_put_copies_middle_line() {
    let mut ed = VimEditor::new("a\nb\nc");
    feed(&mut ed, "jyyp");
    assert_eq!(ed.body(), "a\nb\nb\nc");
    feed(&mut ed, ":w");
    ed.handle_key(code(KeyCode::Enter));
    assert_eq!(ed.exit_state(), Some(EditorExit::Save));
    assert_eq!(ed.body(), "a\nb\nb\nc");
}

#[test]
fn enter_then_backspace_rejoins_the_line() {
    let mut ed = VimEditor::new("hello\nworld");
    feed(&mut ed, "lli");
    ed.handle_key(code(KeyCode::Enter));
    assert_eq!(ed.body(), "he\nllo\nworld");
    ed.handle_key(code(KeyCode::Backspace));
    assert_eq!(ed.body(), "hello\nworld");
    assert_eq!(ed.cursor(), (0, 2));
}

#[test]
fn dd_then_p_on_the_last_line_restores() {
    let mut ed = VimEditor::new("a\nb\nc");
    feed(&mut ed, "Gddp");
    assert_eq!(ed.body(), "a\nb\nc");
}
