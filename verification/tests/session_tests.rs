use scroll_dump::record::Hit;
use scroll_dump::session::{Page, PartitionTask, ScrollSession, SessionPhase};

fn b(s: &str) -> Vec<u8> {
    s.as_bytes().to_vec()
}

fn session(id: u64, max: u64) -> ScrollSession {
    ScrollSession::new(PartitionTask { slice_id: id, max_slices: max })
}

fn hits(n: usize) -> Vec<Hit> {
    (0..n)
        .map(|k| Hit {
            index: b("logs"),
            id: b(&format!("doc-{}", k)),
            source: b("{\"@timestamp\":\"now\"}"),
        })
        .collect()
}

#[test]
fn initial_request_exact() {
    let s = session(0, 3);
    let (path, body) = s.initial_request(&b("logs"));
    assert_eq!(path, b("/logs/_search?scroll=1m&size=1000"));
    assert_eq!(body, b("{\"slice\":{\"id\":0,\"max\":3},\"sort\":[\"_doc\"]}"));
}

#[test]
fn next_request_quotes_cursor_raw() {
    let mut s = session(1, 3);
    let page = Page { hits: hits(2), total: 10, cursor: Some(b("cur\"sor-1")) };
    s.absorb_page(&page);
    assert_eq!(s.phase, SessionPhase::Paging);
    let (path, body) = s.next_request();
    assert_eq!(path, b("/_search/scroll"));
    // The cursor's raw bytes are JSON-quoted, not its quoted debug form.
    assert_eq!(body, b("{\"scroll\":\"1m\",\"scroll_id\":\"cur\\\"sor-1\"}"));
}

#[test]
fn release_request_exact() {
    let mut s = session(1, 3);
    let page = Page { hits: hits(1), total: 1, cursor: Some(b("abc")) };
    s.absorb_page(&page);
    let empty = Page { hits: Vec::new(), total: 1, cursor: Some(b("abc")) };
    s.absorb_page(&empty);
    assert_eq!(s.phase, SessionPhase::Done);
    let (path, body) = s.release_request();
    assert_eq!(path, b("/_search/scroll"));
    assert_eq!(body, b("{\"scroll_id\":\"abc\"}"));
    s.on_released();
    assert_eq!(s.phase, SessionPhase::Cleared);
    assert!(s.cursor.is_none());
}

#[test]
fn zero_total_page_ends_pagination() {
    let mut s = session(0, 3);
    let page = Page { hits: hits(3), total: 9, cursor: Some(b("c1")) };
    s.absorb_page(&page);
    assert_eq!(s.phase, SessionPhase::Paging);
    // The cluster now reports a zero running total: pagination stops even
    // though hits came along and the declared total was nonzero before.
    let last = Page { hits: hits(2), total: 0, cursor: Some(b("c2")) };
    s.absorb_page(&last);
    assert_eq!(s.phase, SessionPhase::Done);
    assert_eq!(s.records, 5);
}

#[test]
fn empty_page_ends_pagination_despite_total() {
    let mut s = session(0, 3);
    let page = Page { hits: hits(3), total: 500, cursor: Some(b("c1")) };
    s.absorb_page(&page);
    // An empty page terminates even when the declared total is still 500.
    let empty = Page { hits: Vec::new(), total: 500, cursor: Some(b("c2")) };
    s.absorb_page(&empty);
    assert_eq!(s.phase, SessionPhase::Done);
}

#[test]
fn missing_cursor_fails_session() {
    let mut s = session(0, 3);
    let page = Page { hits: hits(3), total: 9, cursor: None };
    s.absorb_page(&page);
    assert_eq!(s.phase, SessionPhase::Failed);
}

#[test]
fn lines_are_two_per_record() {
    let mut s = session(0, 3);
    let page = Page { hits: hits(4), total: 8, cursor: Some(b("c")) };
    s.absorb_page(&page);
    assert_eq!(s.lines.len(), 8);
    assert_eq!(s.records, 4);
}

#[test]
fn shard_bytes_newline_terminated() {
    let mut s = session(0, 1);
    let one = vec![Hit { index: b("logs"), id: b("x"), source: b("{\"a\":1}") }];
    let page = Page { hits: one, total: 0, cursor: Some(b("c")) };
    s.absorb_page(&page);
    assert_eq!(s.phase, SessionPhase::Done);
    let bytes = s.shard_bytes();
    let text = String::from_utf8(bytes).unwrap();
    assert_eq!(text, "{\"index\":{\"_index\":\"logs\",\"_id\":\"x\"}}\n{\"a\":1}\n");
}
