use scroll_dump::errors::ExportError;
use scroll_dump::parse::parse_page;

fn b(s: &str) -> Vec<u8> {
    s.as_bytes().to_vec()
}

fn sample_body() -> String {
    String::from(
        "{\"_scroll_id\":\"cursor-abc\",\"hits\":{\"total\":{\"value\":2},\"hits\":[\
         {\"_index\":\"logs\",\"_id\":\"d1\",\"_source\":{\"@timestamp\":\"t1\",\"n\":1}},\
         {\"_index\":\"logs\",\"_id\":\"d2\",\"_source\":{\"@timestamp\":\"t2\",\"n\":2}}\
         ]}}",
    )
}

#[test]
fn parses_total_cursor_and_hits() {
    let p = parse_page(&sample_body()).unwrap();
    assert_eq!(p.total, 2);
    // The cursor is the token's raw content, not its quoted JSON form.
    assert_eq!(p.cursor, Some(b("cursor-abc")));
    assert_eq!(p.hits.len(), 2);
    assert_eq!(p.hits[0].index, b("logs"));
    assert_eq!(p.hits[0].id, b("d1"));
    let src0 = String::from_utf8(p.hits[0].source.clone()).unwrap();
    assert!(src0.contains("@timestamp"));
    assert!(!src0.contains('\n'));
    assert_eq!(p.hits[1].id, b("d2"));
}

#[test]
fn pretty_printed_source_is_reserialized_onto_one_line() {
    let body = String::from(
        "{\"_scroll_id\":\"c\",\"hits\":{\"total\":{\"value\":1},\"hits\":[\
         {\"_index\":\"logs\",\"_id\":\"d\",\"_source\":{\n  \"a\": 1,\n  \"b\": 2\n}}]}}",
    );
    let p = parse_page(&body).unwrap();
    assert_eq!(p.hits.len(), 1);
    let src = String::from_utf8(p.hits[0].source.clone()).unwrap();
    assert_eq!(src, "{\"a\":1,\"b\":2}");
}

#[test]
fn malformed_body_is_rejected() {
    assert_eq!(parse_page("not json at all {").err(), Some(ExportError::Protocol));
}

#[test]
fn missing_counts_read_as_zero() {
    let p = parse_page("{}").unwrap();
    assert_eq!(p.total, 0);
    assert_eq!(p.cursor, None);
    assert_eq!(p.hits.len(), 0);
}

#[test]
fn string_fields_survive_escaping() {
    let body = String::from(
        "{\"_scroll_id\":\"x\",\"hits\":{\"total\":{\"value\":1},\"hits\":[\
         {\"_index\":\"lo\\\"gs\",\"_id\":\"a\\nb\",\"_source\":{}}]}}",
    );
    let p = parse_page(&body).unwrap();
    assert_eq!(p.hits[0].index, b("lo\"gs"));
    assert_eq!(p.hits[0].id, b("a\nb"));
}
