use hecto::Document;
use hecto::Editor;
use hecto::KeyIntent;
use hecto::Position;
use hecto::Terminal;

fn editor_over(text: &str, width: u16, raw_height: u16) -> Editor {
    let doc = Document::from_text(text, None);
    let term = Terminal::new(width, raw_height);
    Editor::new(doc, term, String::from("HELP: Ctrl-Q to quit"), 0)
}

#[test]
fn terminal_reserves_two_lines() {
    let t = Terminal::new(80, 24);
    assert_eq!(t.size().width, 80);
    assert_eq!(t.size().height, 22);
    let tiny = Terminal::new(10, 1);
    assert_eq!(tiny.size().height, 0);
}

#[test]
fn right_at_end_of_row_wraps_to_next_row() {
    let mut e = editor_over("hello\nworld", 80, 24);
    e.cursor_pos = Position { x: 5, y: 0 };
    e.process_key(KeyIntent::Right);
    assert_eq!(e.cursor_pos, Position { x: 0, y: 1 });
}

#[test]
fn left_at_column_zero_wraps_to_previous_row_end() {
    let mut e = editor_over("hello\nworld", 80, 24);
    e.cursor_pos = Position { x: 0, y: 1 };
    e.process_key(KeyIntent::Left);
    assert_eq!(e.cursor_pos, Position { x: 5, y: 0 });
}

#[test]
fn left_then_right_is_identity_at_line_wrap() {
    let mut e = editor_over("hello\nworld", 80, 24);
    e.cursor_pos = Position { x: 0, y: 1 };
    e.process_key(KeyIntent::Left);
    e.process_key(KeyIntent::Right);
    assert_eq!(e.cursor_pos, Position { x: 0, y: 1 });
}

#[test]
fn right_then_left_is_identity_at_line_wrap() {
    let mut e = editor_over("hello\nworld", 80, 24);
    e.cursor_pos = Position { x: 5, y: 0 };
    e.process_key(KeyIntent::Right);
    e.process_key(KeyIntent::Left);
    assert_eq!(e.cursor_pos, Position { x: 5, y: 0 });
}

#[test]
fn left_at_origin_stays() {
    let mut e = editor_over("hello", 80, 24);
    e.process_key(KeyIntent::Left);
    assert_eq!(e.cursor_pos, Position { x: 0, y: 0 });
}

#[test]
fn down_allows_virtual_row_and_stops_there() {
    let mut e = editor_over("hello", 80, 24);
    e.process_key(KeyIntent::Down);
    assert_eq!(e.cursor_pos, Position { x: 0, y: 1 });
    e.process_key(KeyIntent::Down);
    assert_eq!(e.cursor_pos, Position { x: 0, y: 1 });
}

#[test]
fn up_clamps_column_to_shorter_row() {
    let mut e = editor_over("ab\nlonger", 80, 24);
    e.cursor_pos = Position { x: 6, y: 1 };
    e.process_key(KeyIntent::Up);
    assert_eq!(e.cursor_pos, Position { x: 2, y: 0 });
}

#[test]
fn home_lands_on_first_non_whitespace_column() {
    let mut e = editor_over("   abc", 80, 24);
    e.cursor_pos = Position { x: 5, y: 0 };
    e.process_key(KeyIntent::Home);
    assert_eq!(e.cursor_pos, Position { x: 3, y: 0 });
}

#[test]
fn end_lands_past_last_cluster() {
    let mut e = editor_over("   abc", 80, 24);
    e.process_key(KeyIntent::End);
    assert_eq!(e.cursor_pos, Position { x: 6, y: 0 });
}

#[test]
fn page_down_jumps_viewport_height_and_clamps() {
    let text = vec!["x"; 100].join("\n");
    let mut e = editor_over(&text, 80, 24);
    e.process_key(KeyIntent::PageDown);
    assert_eq!(e.cursor_pos.y, 22);
    for _ in 0..10 {
        e.process_key(KeyIntent::PageDown);
    }
    assert_eq!(e.cursor_pos.y, 100);
    e.process_key(KeyIntent::PageUp);
    assert_eq!(e.cursor_pos.y, 78);
}

#[test]
fn quit_sets_flag_and_nothing_else_does() {
    let mut e = editor_over("hello", 80, 24);
    e.process_key(KeyIntent::Right);
    e.process_key(KeyIntent::Noop);
    assert!(!e.should_quit);
    e.process_key(KeyIntent::Quit);
    assert!(e.should_quit);
}

#[test]
fn char_intent_inserts_at_cursor() {
    let mut e = editor_over("hello", 80, 24);
    e.cursor_pos = Position { x: 5, y: 0 };
    e.process_key(KeyIntent::Char('!'));
    assert_eq!(e.document.row(0).unwrap().render(0, 6), "hello!");
}

#[test]
fn delete_intent_deletes_at_cursor() {
    let mut e = editor_over("hello", 80, 24);
    e.process_key(KeyIntent::Delete);
    assert_eq!(e.document.row(0).unwrap().render(0, 4), "ello");
}

#[test]
fn scroll_keeps_cursor_inside_viewport() {
    let text = vec!["0123456789012345678901234567890123456789"; 60].join("\n");
    let mut e = editor_over(&text, 10, 12);
    e.cursor_pos = Position { x: 35, y: 50 };
    e.scroll();
    let (w, h) = (10usize, 10usize);
    assert!(e.offset.y <= 50 && 50 < e.offset.y + h);
    assert!(e.offset.x <= 35 && 35 < e.offset.x + w);
    assert_eq!(e.offset.y, 41);
    assert_eq!(e.offset.x, 26);
    e.cursor_pos = Position { x: 0, y: 0 };
    e.scroll();
    assert_eq!(e.offset, Position { x: 0, y: 0 });
}

#[test]
fn scroll_is_minimal_when_cursor_visible() {
    let text = vec!["abcdef"; 30].join("\n");
    let mut e = editor_over(&text, 80, 24);
    e.offset = Position { x: 0, y: 3 };
    e.cursor_pos = Position { x: 2, y: 10 };
    e.scroll();
    assert_eq!(e.offset, Position { x: 0, y: 3 });
}

#[test]
fn movement_always_ends_inside_viewport() {
    let text = vec!["0123456789"; 40].join("\n");
    let mut e = editor_over(&text, 5, 6);
    let keys = [
        KeyIntent::PageDown,
        KeyIntent::End,
        KeyIntent::Down,
        KeyIntent::Right,
        KeyIntent::Right,
        KeyIntent::PageDown,
        KeyIntent::Home,
        KeyIntent::Up,
        KeyIntent::PageUp,
        KeyIntent::Left,
        KeyIntent::End,
        KeyIntent::Down,
    ];
    for k in keys {
        e.process_key(k);
        let (w, h) = (5usize, 4usize);
        assert!(e.offset.y <= e.cursor_pos.y && e.cursor_pos.y < e.offset.y + h);
        assert!(e.offset.x <= e.cursor_pos.x && e.cursor_pos.x < e.offset.x + w);
    }
}

#[test]
fn screen_cursor_is_relative_to_offset() {
    let mut e = editor_over("hello", 80, 24);
    e.cursor_pos = Position { x: 7, y: 9 };
    e.offset = Position { x: 2, y: 4 };
    let p = e.screen_cursor();
    assert_eq!(p, Position { x: 5, y: 5 });
}

#[test]
fn screen_cursor_floors_at_origin() {
    let mut e = editor_over("hello", 80, 24);
    e.cursor_pos = Position { x: 1, y: 2 };
    e.offset = Position { x: 4, y: 7 };
    let p = e.screen_cursor();
    assert_eq!(p, Position { x: 0, y: 0 });
}

#[test]
fn status_indicator_saturates_at_machine_limit() {
    let mut e = editor_over("hello", 200, 24);
    e.cursor_pos = Position { x: usize::MAX, y: 0 };
    let s = e.status_line();
    let expected_tail = format!("1:{}", usize::MAX);
    assert!(s.trim_end().ends_with(&expected_tail));
}
