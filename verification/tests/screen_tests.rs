use todo_tui::validate::ItemKind;
use todo_tui::editor::VimEditor;
use todo_tui::keys::{Key, KeyCode};
use todo_tui::screen::{
    build_status_line, empty_list_message, gutter_width, highlight_match, pane_label, render_editor_lines, render_gutter, status_is_error, update_scroll,
    CellStyle, ScreenLine,
};

fn ch(c: char) -> Key {
    Key { code: KeyCode::Char(c), ctrl: false, other_modifiers: false }
}

#[test]
fn gutter_widths() {
    assert_eq!(gutter_width(0), 4);
    assert_eq!(gutter_width(999), 4);
    assert_eq!(gutter_width(1000), 5);
    assert_eq!(gutter_width(123456), 7);
}

#[test]
fn gutter_labels_are_relative() {
    let mut ed = VimEditor::new("a\nb\nc");
    ed.handle_key(ch('j'));
    let g = render_gutter(&ed, 0, 4, 4);
    assert_eq!(g, vec!["  1 ", "  2 ", "  1 ", "    "]);
}

#[test]
fn scrolling_keeps_cursor_visible() {
    let text = (0..30).map(|i| i.to_string()).collect::<Vec<_>>().join("\n");
    let mut ed = VimEditor::new(&text);
    for _ in 0..12 {
        ed.handle_key(ch('j'));
    }
    update_scroll(&mut ed, 5);
    assert_eq!(ed.scroll_top(), 8);
    for _ in 0..10 {
        ed.handle_key(ch('k'));
    }
    update_scroll(&mut ed, 5);
    assert_eq!(ed.scroll_top(), 2);
    update_scroll(&mut ed, 0);
    assert_eq!(ed.scroll_top(), 2);
}

#[test]
fn editor_cells_show_cursor_and_selection() {
    let mut ed = VimEditor::new("abc\n");
    ed.handle_key(ch('v'));
    ed.handle_key(ch('l'));
    let lines = render_editor_lines(&ed, 0, 3, 10);
    match &lines[0] {
        ScreenLine::Text(cells) => {
            let styles: Vec<CellStyle> = cells.iter().map(|c| c.style).collect();
            assert_eq!(styles, vec![CellStyle::Selected, CellStyle::Cursor, CellStyle::Plain]);
        }
        ScreenLine::Tilde => panic!("expected text"),
    }
    match &lines[1] {
        ScreenLine::Text(cells) => assert!(cells.is_empty()),
        ScreenLine::Tilde => panic!("expected text"),
    }
    assert!(matches!(lines[2], ScreenLine::Tilde));
}

#[test]
fn cursor_past_end_gets_a_block() {
    let ed = VimEditor::new("");
    let lines = render_editor_lines(&ed, 0, 1, 10);
    match &lines[0] {
        ScreenLine::Text(cells) => {
            assert_eq!(cells.len(), 1);
            assert_eq!(cells[0].ch, ' ');
            assert_eq!(cells[0].style, CellStyle::Cursor);
        }
        ScreenLine::Tilde => panic!("expected text"),
    }
}

#[test]
fn status_line_texts() {
    let mut ed = VimEditor::new("x");
    assert_eq!(build_status_line(&ed), "i insert  v visual  :w save  :q cancel  u undo  dd yy p");
    ed.handle_key(ch(':'));
    ed.handle_key(ch('w'));
    assert_eq!(build_status_line(&ed), ":w_");
}

#[test]
fn pane_labels() {
    assert_eq!(pane_label("Todos", 3, 3), " Todos [3] ");
    assert_eq!(pane_label("Notes", 1, 4), " Notes [1/4] ");
    assert_eq!(highlight_match("Title", "t"), "Title");
}

#[test]
fn failure_statuses_are_errors() {
    assert!(status_is_error(&"save failed: disk full".to_string()));
    assert!(status_is_error(&"error: nope".to_string()));
    assert!(!status_is_error(&"todo added".to_string()));
    assert!(!status_is_error(&"an error".to_string()));
}

#[test]
fn empty_lists_say_what_to_do() {
    assert_eq!(empty_list_message(ItemKind::Todo, 0), "no todos — press i to add");
    assert_eq!(empty_list_message(ItemKind::Note, 0), "no notes — press i to add");
    assert_eq!(empty_list_message(ItemKind::Note, 3), "no matches");
}
