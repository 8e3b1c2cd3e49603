use hecto::Document;
use hecto::Position;

#[test]
fn from_text_splits_lines() {
    let d = Document::from_text("hello\nworld", None);
    assert_eq!(d.len(), 2);
    assert!(!d.is_empty());
    assert_eq!(d.row(0).unwrap().render(0, 5), "hello");
    assert_eq!(d.row(1).unwrap().render(0, 5), "world");
    assert!(d.row(2).is_none());
}

#[test]
fn from_text_no_row_for_trailing_newline() {
    let d = Document::from_text("a\n", None);
    assert_eq!(d.len(), 1);
    assert_eq!(d.row(0).unwrap().render(0, 1), "a");
}

#[test]
fn from_text_keeps_empty_lines_between_newlines() {
    let d = Document::from_text("a\n\nb", None);
    assert_eq!(d.len(), 3);
    assert_eq!(d.row(1).unwrap().len(), 0);
}

#[test]
fn from_text_strips_carriage_return_before_newline() {
    let d = Document::from_text("a\r\nb", None);
    assert_eq!(d.len(), 2);
    assert_eq!(d.row(0).unwrap().len(), 1);
    assert_eq!(d.row(0).unwrap().render(0, 1), "a");
}

#[test]
fn from_text_keeps_bare_carriage_return() {
    let d = Document::from_text("a\rb", None);
    assert_eq!(d.len(), 1);
    assert_eq!(d.row(0).unwrap().len(), 3);
}

#[test]
fn from_text_empty_is_empty_document() {
    let d = Document::from_text("", None);
    assert_eq!(d.len(), 0);
    assert!(d.is_empty());
}

#[test]
fn from_text_keeps_file_name() {
    let d = Document::from_text("x", Some(String::from("notes.txt")));
    assert_eq!(d.file_name().as_deref(), Some("notes.txt"));
    let unnamed = Document::default();
    assert!(unnamed.file_name().is_none());
}

#[test]
fn insert_into_existing_row() {
    let mut d = Document::from_text("hello", None);
    let r = d.insert(&Position { x: 5, y: 0 }, '!');
    assert!(r.is_ok());
    assert_eq!(d.len(), 1);
    assert_eq!(d.row(0).unwrap().render(0, 6), "hello!");
}

#[test]
fn insert_at_virtual_row_appends_new_row() {
    let mut d = Document::from_text("hello", None);
    let r = d.insert(&Position { x: 0, y: 1 }, 'w');
    assert!(r.is_ok());
    assert_eq!(d.len(), 2);
    assert_eq!(d.row(1).unwrap().render(0, 1), "w");
}

#[test]
fn insert_past_virtual_row_is_range_error() {
    let mut d = Document::from_text("hello", None);
    let r = d.insert(&Position { x: 0, y: 2 }, 'w');
    assert!(r.is_err());
    assert_eq!(d.len(), 1);
    assert_eq!(d.row(0).unwrap().render(0, 5), "hello");
}

#[test]
fn delete_removes_cluster_from_row() {
    let mut d = Document::from_text("hello\nworld", None);
    d.delete(&Position { x: 0, y: 1 });
    assert_eq!(d.len(), 2);
    assert_eq!(d.row(1).unwrap().render(0, 4), "orld");
}

#[test]
fn delete_out_of_range_is_noop() {
    let mut d = Document::from_text("hello", None);
    d.delete(&Position { x: 0, y: 5 });
    d.delete(&Position { x: 99, y: 0 });
    assert_eq!(d.len(), 1);
    assert_eq!(d.row(0).unwrap().render(0, 5), "hello");
}
