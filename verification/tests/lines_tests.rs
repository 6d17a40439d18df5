use scroll_dump::lines::{join_lines, merge_lines, split_lines};

fn b(s: &str) -> Vec<u8> {
    s.as_bytes().to_vec()
}

#[test]
fn join_then_split_round_trip() {
    let lines = vec![b("alpha"), b("beta"), b("")];
    let joined = join_lines(&lines);
    assert_eq!(joined, b("alpha\nbeta\n\n"));
    assert_eq!(split_lines(&joined), lines);
}

#[test]
fn split_without_trailing_newline() {
    let data = b("alpha\nbeta");
    assert_eq!(split_lines(&data), vec![b("alpha"), b("beta")]);
}

#[test]
fn split_empty() {
    assert_eq!(split_lines(&Vec::new()), Vec::<Vec<u8>>::new());
}

#[test]
fn merge_keeps_every_line() {
    let shards = vec![
        vec![b("a1"), b("a2")],
        vec![],
        vec![b("c1")],
    ];
    let merged = merge_lines(&shards);
    assert_eq!(merged, vec![b("a1"), b("a2"), b("c1")]);
}
