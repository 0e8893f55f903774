use markdown_query::date::{parse_decimal, Date};
use markdown_query::document::{derive_identifier, Document, IngestError, SerializationType, VecString, XqDocument};

fn doc(text: &str) -> Result<Document, IngestError> {
    Document::parse(text, "note.md", "/notes/note.md")
}

#[test]
fn scalar_tags_become_a_list_and_survive_disk_rendering() {
    let mut d = doc("---\ntitle: T\ndate: 1624380496\ntags: a\n---\nbody\n").unwrap();
    assert_eq!(d.tags, vec!["a".to_string()]);
    d.serialization_type = SerializationType::Disk;
    let text = d.render();
    let again = doc(&text).unwrap();
    assert_eq!(again.tags, vec!["a".to_string()]);
    assert_eq!(again.title, "T");
    assert_eq!(again.date, Date::new(1624380496));
    assert_eq!(again.body, "body\n");
}

#[test]
fn dates_in_three_forms_agree() {
    let a = Date::parse("2021-06-22T12:48:16-0400").unwrap();
    let b = Date::parse("2021-06-22T12:48:16-04:00").unwrap();
    let c = Date::parse("1624380496").unwrap();
    assert_eq!(a, Date::new(1624380496));
    assert_eq!(b, a);
    assert_eq!(c, a);
    let d = doc("---\ntitle: T\ndate: 2021-06-22T12:48:16-0400\n---\n").unwrap();
    assert_eq!(d.date, a);
    let e = doc("---\ntitle: T\ndate: 1624380496\n---\n").unwrap();
    assert_eq!(e.date, a);
}

#[test]
fn identifier_keeps_only_safe_characters() {
    assert_eq!(derive_identifier("Hello, World! 2024"), "HelloWorld2024");
    assert_eq!(derive_identifier("a-b_c d"), "a-b_cd");
    assert_eq!(derive_identifier("!!!"), "");
    let d = doc("---\ntitle: \"Hello, World! 2024\"\ndate: 0\n---\n").unwrap();
    assert_eq!(d.id, "HelloWorld2024");
}

#[test]
fn fields_and_defaults() {
    let d = doc("---\ntitle: T\nsubtitle: S\nauthor: Bob\ntag: [x, y, x]\nweight: -3\nwrites: 7\nviews: 9\ndate: 5\n---\nthe body").unwrap();
    assert_eq!(d.title, "T");
    assert_eq!(d.subtitle, "S");
    assert_eq!(d.authors.0, vec!["Bob".to_string()]);
    assert_eq!(d.tags, vec!["x".to_string(), "y".to_string(), "x".to_string()]);
    assert_eq!(d.weight, -3);
    assert_eq!(d.writes, 7);
    assert_eq!(d.views, 9);
    assert_eq!(d.date, Date::new(5));
    assert_eq!(d.filename, "note.md");
    assert_eq!(d.full_path, "/notes/note.md");
    assert_eq!(d.body, "the body");
    let e = doc("---\ntitle: T\ndate: 5\nfilename: other.md\n---\n").unwrap();
    assert_eq!(e.filename, "other.md");
    assert_eq!(e.subtitle, "");
    assert!(e.tags.is_empty());
    assert_eq!(e.weight, 0);
}

#[test]
fn no_front_matter() {
    assert_eq!(doc("just text").unwrap_err(), IngestError::NoFrontMatter);
    assert_eq!(doc("---\nnever closed").unwrap_err(), IngestError::NoFrontMatter);
}

#[test]
fn malformed_front_matter() {
    assert!(matches!(doc("---\ndate: 5\n---\n"), Err(IngestError::MalformedFrontMatter(_))));
    assert!(matches!(doc("---\ntitle: T\n---\n"), Err(IngestError::MalformedFrontMatter(_))));
    assert!(matches!(doc("---\ntitle: T\ndate: 5\ntags: {a: b}\n---\n"), Err(IngestError::MalformedFrontMatter(_))));
    assert!(matches!(doc("---\ntitle: T\ndate: 5\nwrites: -1\n---\n"), Err(IngestError::MalformedFrontMatter(_))));
    assert!(matches!(doc("---\n- a\n- b\n---\n"), Err(IngestError::MalformedFrontMatter(_))));
    assert!(matches!(doc("---\ntitle: [unclosed\n---\n"), Err(IngestError::MalformedFrontMatter(_))));
}

#[test]
fn unreadable_date() {
    assert_eq!(
        doc("---\ntitle: T\ndate: yesterday\n---\n").unwrap_err(),
        IngestError::DateParseError("yesterday".to_string())
    );
}

#[test]
fn human_rendering_is_the_body() {
    let mut d = doc("---\ntitle: T\ndate: 5\n---\nhello\n").unwrap();
    d.serialization_type = SerializationType::Human;
    assert_eq!(d.render(), "hello\n");
}

#[test]
fn storage_rendering_reads_back() {
    let d = doc("---\ntitle: T\nsubtitle: S\nauthors: [a, b]\ntags: [x]\nweight: 2\nwrites: 3\nviews: 4\ndate: 77\n---\nB\n").unwrap();
    assert_eq!(d.serialization_type, SerializationType::Storage);
    let text = d.render();
    assert!(text.ends_with("\n---\nB\n"));
    let e = Document::parse(&text, "x", "y").unwrap();
    assert_eq!(e.title, d.title);
    assert_eq!(e.subtitle, d.subtitle);
    assert_eq!(e.authors.0, d.authors.0);
    assert_eq!(e.tags, d.tags);
    assert_eq!(e.weight, 2);
    assert_eq!(e.writes, 3);
    assert_eq!(e.views, 4);
    assert_eq!(e.date, Date::new(77));
    assert_eq!(e.filename, "note.md");
    assert_eq!(e.full_path, "/notes/note.md");
    assert_eq!(e.id, d.id);
    assert_eq!(e.body, "B\n");
}

#[test]
fn disk_rendering_omits_counters_and_zero_width_subtitle() {
    let mut d = doc("---\ntitle: T\nsubtitle: \"\u{200b}\"\nwrites: 3\nviews: 4\ndate: 0\n---\n").unwrap();
    d.serialization_type = SerializationType::Disk;
    let text = d.render();
    assert!(!text.contains("subtitle"));
    assert!(!text.contains("writes"));
    assert!(!text.contains("views"));
    assert!(text.contains("1970-01-01T00:00:00+00:00"));
    let names = d.front_matter_of(SerializationType::Disk);
    let keys: Vec<&str> = names.iter().map(|(k, _)| k.as_str()).collect();
    assert_eq!(keys, vec!["title", "date", "tags", "authors", "weight"]);
}

#[test]
fn date_text_in_utc() {
    assert_eq!(Date::new(0).to_rfc3339(), Some("1970-01-01T00:00:00+00:00".to_string()));
    assert_eq!(Date::new(i64::MAX).to_rfc3339(), None);
}

#[test]
fn decimal_reading() {
    assert_eq!(parse_decimal("42"), Some(42));
    assert_eq!(parse_decimal("+42"), Some(42));
    assert_eq!(parse_decimal("-9223372036854775808"), Some(i64::MIN));
    assert_eq!(parse_decimal("9223372036854775807"), Some(i64::MAX));
    assert_eq!(parse_decimal("9223372036854775808"), None);
    assert_eq!(parse_decimal("-"), None);
    assert_eq!(parse_decimal(""), None);
    assert_eq!(parse_decimal("4x"), None);
    assert_eq!(Date::parse("not a date"), None);
}

#[test]
fn xq_document_dates() {
    let mut x = XqDocument::new();
    assert_eq!(x.date_str(), None);
    x.date = "2021-06-22T12:48:16-0400".to_string();
    assert_eq!(x.date_str(), Some("2021-06-22T16:48:16+00:00".to_string()));
}

#[test]
fn vec_string_holds_its_items() {
    let v = VecString::new(vec!["a".to_string(), "b".to_string()]);
    assert_eq!(v.0.len(), 2);
    let d = Document::new();
    assert_eq!(d.title, "");
    assert_eq!(d.serialization_type, SerializationType::Storage);
}

#[test]
fn index_entries_and_unique_term() {
    let d = doc("---\ntitle: T\nsubtitle: S\nauthors: [Ann, Bo]\ntags: [x, y]\ndate: 0\n---\nbody").unwrap();
    let entries = d.index_entries();
    let expected: Vec<(&str, String)> = vec![
        ("A", "Ann,Bo".to_string()),
        ("D", "1970-01-01T00:00:00+00:00".to_string()),
        ("F", "note.md".to_string()),
        ("F", "/notes/note.md".to_string()),
        ("S", "T".to_string()),
        ("XS", "S".to_string()),
        ("K", "x".to_string()),
        ("K", "y".to_string()),
    ];
    assert_eq!(entries, expected);
    assert_eq!(d.unique_term(), "Qnote.md");
}

#[test]
fn joined_strings() {
    assert_eq!(VecString::new(vec![]).joined(), "");
    assert_eq!(VecString::new(vec!["a".to_string()]).joined(), "a");
    assert_eq!(VecString::new(vec!["a".to_string(), "b".to_string(), "c".to_string()]).joined(), "a,b,c");
}

#[test]
fn date_readings_are_chosen_in_order() {
    assert_eq!(Date::pick(Some(1), Some(2), "3"), Some(Date::new(1)));
    assert_eq!(Date::pick(None, Some(2), "3"), Some(Date::new(2)));
    assert_eq!(Date::pick(None, None, "3"), Some(Date::new(3)));
    assert_eq!(Date::pick(None, None, "x"), None);
}

#[test]
fn xq_document_from_text() {
    let x = XqDocument::parse("---\ntitle: \"Hello, World! 2024\"\ndate: 2021-06-22T12:48:16-0400\nauthor: Steve\ntags: tika\n---\nnote\n").unwrap();
    assert_eq!(x.id, "HelloWorld2024");
    assert_eq!(x.author, "Steve");
    assert_eq!(x.tags, vec!["tika".to_string()]);
    assert_eq!(x.date, "2021-06-22T12:48:16-0400");
    assert_eq!(x.body, "note\n");
    assert!(matches!(XqDocument::parse("---\ntitle: T\ndate: D\n---\n"), Err(IngestError::MalformedFrontMatter(_))));
    assert_eq!(XqDocument::parse("plain").unwrap_err(), IngestError::NoFrontMatter);
}

#[test]
fn xq_document_as_document() {
    let mut x = XqDocument::new();
    x.title = "Rust (language)".to_string();
    x.author = "alice".to_string();
    x.date = "2021-06-22T12:48:16-04:00".to_string();
    x.tags = vec!["wikipedia".to_string()];
    x.body = "text".to_string();
    let d = x.to_document();
    assert_eq!(d.filename, "Rust (language)");
    assert_eq!(d.id, "Rustlanguage");
    assert_eq!(d.authors.0, vec!["alice".to_string()]);
    assert_eq!(d.date, Date::new(1624380496));
    assert_eq!(d.tags, vec!["wikipedia".to_string()]);
    assert_eq!(d.body, "text");
    x.author = String::new();
    x.date = "someday".to_string();
    let e = x.to_document();
    assert!(e.authors.0.is_empty());
    assert_eq!(e.date, Date::new(0));
}

#[test]
fn storage_keeps_a_zero_width_subtitle() {
    let d = doc("---\ntitle: T\nsubtitle: \"\u{200b}\"\ndate: 0\n---\n").unwrap();
    assert_eq!(d.subtitle, "\u{200b}");
    let e = Document::parse(&d.render(), "x", "y").unwrap();
    assert_eq!(e.subtitle, "\u{200b}");
}
