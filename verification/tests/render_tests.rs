use hecto::Document;
use hecto::Editor;
use hecto::Position;
use hecto::Terminal;

fn editor_with(doc: Document, width: u16, raw_height: u16, status: &str, now: u64) -> Editor {
    Editor::new(doc, Terminal::new(width, raw_height), String::from(status), now)
}

#[test]
fn empty_document_screen_shows_tildes_and_banner() {
    let e = editor_with(Document::default(), 80, 24, "HELP: Ctrl-Q to quit", 0);
    let lines = e.render_rows();
    assert_eq!(lines.len(), 22);
    let banner_at = 22 / 3;
    assert_eq!(banner_at, 7);
    for (i, line) in lines.iter().enumerate() {
        if i == banner_at {
            let expected = format!("~{}{}", " ".repeat(25), "Hecto editor -- version 0.1.0");
            assert_eq!(*line, expected);
        } else {
            assert_eq!(*line, "~");
        }
    }
}

#[test]
fn banner_is_cut_to_narrow_screen() {
    let e = editor_with(Document::default(), 10, 24, "", 0);
    let lines = e.render_rows();
    assert_eq!(lines[7], "~Hecto edit");
}

#[test]
fn non_empty_document_has_no_banner() {
    let d = Document::from_text("hello", None);
    let e = editor_with(d, 80, 24, "", 0);
    let lines = e.render_rows();
    assert_eq!(lines[0], "hello");
    for line in lines.iter().skip(1) {
        assert_eq!(*line, "~");
    }
}

#[test]
fn rows_are_sliced_by_the_viewport() {
    let d = Document::from_text("abcdefgh\nijklmnop\nqrstuvwx", None);
    let mut e = editor_with(d, 4, 4, "", 0);
    e.offset = Position { x: 2, y: 1 };
    let lines = e.render_rows();
    assert_eq!(lines.len(), 2);
    assert_eq!(lines[0], "klmn");
    assert_eq!(lines[1], "stuv");
}

#[test]
fn status_line_shows_counts_and_right_aligned_indicator() {
    let d = Document::from_text("hello\nworld", None);
    let e = editor_with(d, 20, 24, "", 0);
    let s = e.status_line();
    assert_eq!(s.chars().count(), 20);
    assert_eq!(s, " - 2 lines       1:1");
}

#[test]
fn status_line_shows_truncated_file_name_and_cursor() {
    let d = Document::from_text("hello", Some(String::from("a_rather_long_file_name.txt")));
    let mut e = editor_with(d, 40, 24, "", 0);
    e.cursor_pos = Position { x: 3, y: 0 };
    let s = e.status_line();
    assert_eq!(s.chars().count(), 40);
    assert_eq!(s, "a_rather_long_file_n - 1 lines       1:4");
}

#[test]
fn status_line_is_cut_when_narrow() {
    let d = Document::from_text("hello", None);
    let e = editor_with(d, 8, 24, "", 0);
    let s = e.status_line();
    assert_eq!(s, " - 1 lin");
}

#[test]
fn message_line_expires_after_five_seconds() {
    let d = Document::default();
    let e = editor_with(d, 80, 24, "HELP: Ctrl-Q to quit", 1000);
    assert_eq!(e.message_line(1000), "HELP: Ctrl-Q to quit");
    assert_eq!(e.message_line(5999), "HELP: Ctrl-Q to quit");
    assert_eq!(e.message_line(6000), "");
    assert_eq!(e.message_line(500), "");
}

#[test]
fn message_line_is_cut_to_width() {
    let d = Document::default();
    let e = editor_with(d, 4, 24, "HELP: Ctrl-Q to quit", 0);
    assert_eq!(e.message_line(0), "HELP");
}

#[test]
fn frame_is_text_area_plus_status_and_message() {
    let d = Document::from_text("hello", None);
    let e = editor_with(d, 80, 24, "hi", 0);
    let frame = e.render_frame(0);
    assert_eq!(frame.len(), 24);
    assert_eq!(frame[0], "hello");
    assert_eq!(frame[22].chars().count(), 80);
    assert!(frame[22].starts_with(" - 1 lines"));
    assert_eq!(frame[23], "hi");
}

#[test]
fn tab_expands_only_in_rendering() {
    let d = Document::from_text("a\tb", None);
    let e = editor_with(d, 80, 24, "", 0);
    let lines = e.render_rows();
    assert_eq!(lines[0], "a    b");
    assert_eq!(e.document.row(0).unwrap().len(), 3);
}
