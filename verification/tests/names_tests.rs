use scroll_dump::names::{combined_name, compressed_name, is_shard_candidate, shard_name};

fn b(s: &str) -> Vec<u8> {
    s.as_bytes().to_vec()
}

#[test]
fn artifact_names() {
    assert_eq!(combined_name(&b("logs")), b("logs.json"));
    assert_eq!(compressed_name(&b("logs")), b("logs.gz"));
    assert_eq!(shard_name(&b("logs"), 0), b("logs-0.json"));
    assert_eq!(shard_name(&b("logs"), 12), b("logs-12.json"));
}

#[test]
fn shard_names_are_discovered() {
    let c = b("logs");
    for i in 0..5u64 {
        assert!(is_shard_candidate(&shard_name(&c, i), &c));
    }
}

#[test]
fn combined_name_is_never_a_candidate() {
    let c = b("logs");
    assert!(!is_shard_candidate(&combined_name(&c), &c));
}

#[test]
fn unrelated_names_are_not_candidates() {
    let c = b("logs");
    assert!(!is_shard_candidate(&b("metrics-0.json"), &c));
    assert!(!is_shard_candidate(&b("lo-0.json"), &c));
}

#[test]
fn digit_collection_shards_are_discovered() {
    // Only the exact combined name is excluded: for collection `1` the
    // shard `1-1.json` contains the text `1.json` and is still a shard.
    let c = b("1");
    assert!(is_shard_candidate(&shard_name(&c, 0), &c));
    assert!(is_shard_candidate(&shard_name(&c, 1), &c));
    assert!(!is_shard_candidate(&combined_name(&c), &c));
}
