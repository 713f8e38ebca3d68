use agenda::error::{BuildError, Field, HeaderError};
use agenda::header::{parse_header, FieldMapping, HeaderValue};

fn one<'a>(fields: &FieldMapping<'a>, key: &str) -> Option<&'a str> {
    fields.get(key).and_then(|value| value.one())
}

fn many<'a>(fields: &FieldMapping<'a>, key: &str) -> Option<Vec<&'a str>> {
    fields.get(key).and_then(|value| value.many().cloned())
}

#[test]
fn header_value_one_and_many() {
    let single = HeaderValue::One("x");
    assert_eq!(single.one(), Some("x"));
    assert!(single.many().is_none());
    let list = HeaderValue::Many(vec!["a", "b"]);
    assert_eq!(list.one(), None);
    assert_eq!(list.many(), Some(&vec!["a", "b"]));
}

#[test]
fn scalar_fields_are_read() {
    let text = "---\ntitle: Standup\ndate: 2024-06-03\n---\nbody: ignored\n";
    let fields = parse_header(text).unwrap();
    assert_eq!(one(&fields, "title"), Some("Standup"));
    assert_eq!(one(&fields, "date"), Some("2024-06-03"));
    assert!(fields.get("body").is_none());
}

#[test]
fn text_before_the_header_is_passed_over() {
    let text = "note: early\nno colon here\n---\ntitle: T\n---\n";
    let fields = parse_header(text).unwrap();
    assert!(fields.get("note").is_none());
    assert_eq!(one(&fields, "title"), Some("T"));
}

#[test]
fn document_without_header_has_no_fields() {
    let fields = parse_header("title: Standup\ndate: 2024-06-03\n").unwrap();
    assert!(fields.get("title").is_none());
    let fields = parse_header("").unwrap();
    assert!(fields.get("title").is_none());
}

#[test]
fn header_without_closing_line_runs_to_the_end() {
    let fields = parse_header("---\ntitle: Open end").unwrap();
    assert_eq!(one(&fields, "title"), Some("Open end"));
}

#[test]
fn key_is_split_at_the_first_colon() {
    let fields = parse_header("---\nstartTime: 09:00\n---\n").unwrap();
    assert_eq!(one(&fields, "startTime"), Some("09:00"));
}

#[test]
fn leading_white_space_of_a_value_is_trimmed_and_trailing_kept() {
    let fields = parse_header("---\ntitle:   \t spaced out  \nendRecur: \"\"\nbare:\n---\n").unwrap();
    assert_eq!(one(&fields, "title"), Some("spaced out  "));
    assert_eq!(one(&fields, "endRecur"), Some("\"\""));
    assert_eq!(one(&fields, "bare"), Some(""));
}

#[test]
fn keys_are_not_trimmed() {
    let fields = parse_header("---\n title: T\n---\n").unwrap();
    assert!(fields.get("title").is_none());
    assert_eq!(one(&fields, " title"), Some("T"));
}

#[test]
fn line_ends_with_carriage_return_are_stripped() {
    let fields = parse_header("---\r\ntitle: T\r\ndate: 2024-06-03\r\n---\r\n").unwrap();
    assert_eq!(one(&fields, "title"), Some("T"));
    assert_eq!(one(&fields, "date"), Some("2024-06-03"));
}

#[test]
fn later_entry_with_the_same_key_counts() {
    let fields = parse_header("---\ntitle: first\ntitle: second\n---\n").unwrap();
    assert_eq!(one(&fields, "title"), Some("second"));
}

#[test]
fn inline_list_is_read_in_order() {
    let fields = parse_header("---\ndaysOfWeek: [M, W, F]\n---\n").unwrap();
    assert_eq!(many(&fields, "daysOfWeek"), Some(vec!["M", "W", "F"]));
}

#[test]
fn inline_list_items_keep_trailing_white_space() {
    let fields = parse_header("---\ndaysOfWeek: [M ,  W,F]\n---\n").unwrap();
    assert_eq!(many(&fields, "daysOfWeek"), Some(vec!["M ", "W", "F"]));
}

#[test]
fn inline_list_without_items_holds_one_empty_item() {
    let fields = parse_header("---\ndaysOfWeek: []\n---\n").unwrap();
    assert_eq!(many(&fields, "daysOfWeek"), Some(vec![""]));
}

#[test]
fn inline_list_ends_at_the_first_closing_bracket_after_the_opening_one() {
    let fields = parse_header("---\ndaysOfWeek: ] [M, T] W]\n---\n").unwrap();
    assert_eq!(many(&fields, "daysOfWeek"), Some(vec!["M", "T"]));
}

#[test]
fn inline_list_without_opening_bracket_fails() {
    let r = parse_header("---\ndaysOfWeek: M, W, F\n---\n");
    assert_eq!(r.err(), Some(HeaderError::NoOpeningBracket));
}

#[test]
fn inline_list_without_closing_bracket_fails() {
    let r = parse_header("---\ndaysOfWeek: [M, W, F\n---\n");
    assert_eq!(r.err(), Some(HeaderError::NoClosingBracket));
    let r = parse_header("---\ndaysOfWeek: ] [M, W, F\n---\n");
    assert_eq!(r.err(), Some(HeaderError::NoClosingBracket));
}

#[test]
fn white_space_alone_beside_the_list_key_is_no_block() {
    let r = parse_header("---\ndaysOfWeek: \n  - T\n---\n");
    assert_eq!(r.err(), Some(HeaderError::NoOpeningBracket));
}

#[test]
fn block_list_is_read_in_order() {
    let fields = parse_header("---\ndaysOfWeek:\n  - T\n  - R\ntitle: Gym\n---\n").unwrap();
    assert_eq!(many(&fields, "daysOfWeek"), Some(vec!["T", "R"]));
    assert_eq!(one(&fields, "title"), Some("Gym"));
}

#[test]
fn block_list_items_lose_leading_dashes_and_white_space() {
    let fields = parse_header("---\ndaysOfWeek:\n-M\n\t- -  W x\ntitle: Gym\n---\n").unwrap();
    assert_eq!(many(&fields, "daysOfWeek"), Some(vec!["M", "W x"]));
}

#[test]
fn block_list_without_items_is_read_as_an_empty_list() {
    let fields = parse_header("---\ndaysOfWeek:\ntitle: Gym\n---\n").unwrap();
    assert_eq!(many(&fields, "daysOfWeek"), Some(vec![]));
    assert_eq!(one(&fields, "title"), Some("Gym"));
}

#[test]
fn block_list_takes_a_closing_line_that_follows_it() {
    let fields = parse_header("---\ndaysOfWeek:\n  - T\n---\ntitle: after\n").unwrap();
    assert_eq!(many(&fields, "daysOfWeek"), Some(vec!["T", ""]));
    assert_eq!(one(&fields, "title"), Some("after"));
}

#[test]
fn other_keys_keep_brackets_as_text() {
    let fields = parse_header("---\ntags: [a, b]\n---\n").unwrap();
    assert_eq!(one(&fields, "tags"), Some("[a, b]"));
}

#[test]
fn header_line_without_colon_fails() {
    let r = parse_header("---\ntitle Standup\n---\n");
    assert_eq!(r.err(), Some(HeaderError::NoColon));
    let r = parse_header("---\ntitle: T\n\ndate: 2024-06-03\n---\n");
    assert_eq!(r.err(), Some(HeaderError::NoColon));
}

#[test]
fn delimiter_must_be_exactly_three_dashes() {
    let fields = parse_header("----\n--- \n---\ntitle: T\n---\n").unwrap();
    assert_eq!(one(&fields, "title"), Some("T"));
    let r = parse_header("---\n----\n");
    assert_eq!(r.err(), Some(HeaderError::NoColon));
}

#[test]
fn characters_beyond_ascii_are_counted_one_by_one() {
    let fields = parse_header("---\ntitle: \u{00a0}Caf\u{00e9} \u{2014} d\u{00e9}j\u{00e0}\nna\u{00ef}ve: \u{3000}x\n---\n").unwrap();
    assert_eq!(one(&fields, "title"), Some("Caf\u{00e9} \u{2014} d\u{00e9}j\u{00e0}"));
    assert_eq!(one(&fields, "na\u{00ef}ve"), Some("x"));
}

#[test]
fn mapping_insert_and_get() {
    let mut fields = FieldMapping::new();
    assert!(fields.get("title").is_none());
    fields.insert("title", HeaderValue::One("a"));
    fields.insert("daysOfWeek", HeaderValue::Many(vec!["M"]));
    fields.insert("title", HeaderValue::One("b"));
    assert_eq!(one(&fields, "title"), Some("b"));
    assert_eq!(many(&fields, "daysOfWeek"), Some(vec!["M"]));
}

#[test]
fn scalar_and_list_access() {
    let mut fields = FieldMapping::new();
    fields.insert("title", HeaderValue::One("a"));
    fields.insert("daysOfWeek", HeaderValue::Many(vec!["M"]));
    assert_eq!(fields.scalar(Field::Title), Ok("a"));
    assert_eq!(fields.scalar(Field::Date), Err(BuildError::Missing(Field::Date)));
    assert_eq!(fields.scalar(Field::DaysOfWeek), Err(BuildError::IsList(Field::DaysOfWeek)));
    assert_eq!(fields.list(Field::DaysOfWeek), Ok(&vec!["M"]));
    assert_eq!(fields.list(Field::Title), Err(BuildError::NotList(Field::Title)));
    assert_eq!(fields.list(Field::EndRecur), Err(BuildError::Missing(Field::EndRecur)));
}
