use scroll_dump::record::{meta_line, Hit};

fn b(s: &str) -> Vec<u8> {
    s.as_bytes().to_vec()
}

fn hit(index: &str, id: &str, source: &str) -> Hit {
    Hit { index: b(index), id: b(id), source: b(source) }
}

#[test]
fn meta_line_exact() {
    let h = hit("logs", "a1", "{}");
    assert_eq!(meta_line(&h), b("{\"index\":{\"_index\":\"logs\",\"_id\":\"a1\"}}"));
}

#[test]
fn meta_line_escapes_fields() {
    let h = hit("lo\"gs", "a\n1", "{}");
    assert_eq!(
        meta_line(&h),
        b("{\"index\":{\"_index\":\"lo\\\"gs\",\"_id\":\"a\\n1\"}}")
    );
}

#[test]
fn meta_line_holds_no_newline() {
    let h = hit("a\nb", "c\rd", "{}");
    assert!(!meta_line(&h).contains(&b'\n'));
}
