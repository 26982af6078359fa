use zettelkasten::identity::{parse_picker_line, Timestamp};
use zettelkasten::zettel::{first_line, MetaData};
use zettelkasten::Zettel;

fn meta(id: u128, title: &str) -> MetaData {
    MetaData {
        id,
        title: title.to_string(),
        creation_date: Timestamp { seconds: 1_600_000_000, nanos: 5 },
    }
}

#[test]
fn first_line_takes_text_before_line_feed() {
    assert_eq!(first_line("Hello\nWorld"), "Hello");
    assert_eq!(first_line("single"), "single");
    assert_eq!(first_line(""), "");
    assert_eq!(first_line("\nsecond"), "");
    assert_eq!(first_line("crlf\r\nnext"), "crlf");
    assert_eq!(first_line("lone\r"), "lone\r");
    assert_eq!(first_line("ünïcode\nx"), "ünïcode");
}

#[test]
fn new_zettel_is_titled_by_first_line_and_dirty() {
    let z = Zettel::new("Title line\nbody text".to_string());
    assert_eq!(z.meta_data.title, "Title line");
    assert_eq!(z.body, "Title line\nbody text");
    assert!(z.dirty);
}

#[test]
fn new_zettel_with_empty_body_has_empty_title() {
    let z = Zettel::new(String::new());
    assert_eq!(z.meta_data.title, "");
    assert!(z.dirty);
}

#[test]
fn new_zettels_get_distinct_identifiers() {
    let a = Zettel::new("a".to_string());
    let b = Zettel::new("b".to_string());
    assert_ne!(a.meta_data.id, b.meta_data.id);
}

#[test]
fn update_body_retitles_and_marks_dirty() {
    let mut z = Zettel::from_parts(meta(7, "old"), "old".to_string());
    assert!(!z.dirty);
    z.update_body("new title\nrest".to_string());
    assert!(z.dirty);
    assert_eq!(z.meta_data.title, "new title");
    assert_eq!(z.body, "new title\nrest");
    assert_eq!(z.meta_data.id, 7);
    assert_eq!(z.meta_data.creation_date, Timestamp { seconds: 1_600_000_000, nanos: 5 });
    z.update_body(String::new());
    assert_eq!(z.meta_data.title, "");
    assert!(z.dirty);
}

#[test]
fn from_parts_keeps_stored_fields_and_is_clean() {
    let z = Zettel::from_parts(meta(42, "stored title"), "stored title\nbody".to_string());
    assert_eq!(z.meta_data.id, 42);
    assert_eq!(z.meta_data.title, "stored title");
    assert_eq!(z.body, "stored title\nbody");
    assert_eq!(z.meta_data.creation_date.seconds, 1_600_000_000);
    assert!(!z.dirty);
}

#[test]
fn body_preview_shortens_long_bodies() {
    let short = Zettel::from_parts(meta(1, "x"), "0123456789".to_string());
    assert_eq!(short.body_preview(), "0123456789");
    let long = Zettel::from_parts(meta(1, "x"), "0123456789abc".to_string());
    assert_eq!(long.body_preview(), "01234...89abc");
}

#[test]
fn picker_text_holds_title_and_hyphenated_id() {
    let m = meta(0x0123_4567_89ab_cdef_0011_2233_4455_6677, "My note");
    assert_eq!(m.text(), "My note - \u{2063}01234567-89ab-cdef-0011-223344556677");
}

#[test]
fn picker_line_round_trip() {
    let id = 0xfedc_ba98_7654_3210_0f1e_2d3c_4b5a_6978;
    let m = meta(id, "title with - dashes \u{2063} and a separator");
    assert_eq!(parse_picker_line(&m.text()), Some(id));
}

#[test]
fn picker_line_without_identifier_is_rejected() {
    assert_eq!(parse_picker_line("no separator here"), None);
    assert_eq!(parse_picker_line("title - \u{2063}not-a-uuid"), None);
}

#[test]
fn new_zettel_is_dated_now() {
    let z = Zettel::new("dated".to_string());
    // 2020-09-13, well before any run of this test.
    assert!(z.meta_data.creation_date.seconds > 1_600_000_000);
    assert!(z.meta_data.creation_date.nanos < 2_000_000_000);
}
