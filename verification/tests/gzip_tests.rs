use scroll_dump::gzip::{compress, decompress};

#[test]
fn compression_round_trip() {
    let data: Vec<u8> = (0..10000u32).map(|i| (i % 251) as u8).collect();
    let z = compress(&data);
    // A compressed artifact is a real gzip stream, not the input handed back.
    assert_ne!(z, data);
    assert_eq!(decompress(&z).unwrap(), data);
}

#[test]
fn compression_round_trip_empty() {
    let data: Vec<u8> = Vec::new();
    let z = compress(&data);
    assert_eq!(decompress(&z).unwrap(), data);
}

#[test]
fn decompress_rejects_garbage() {
    let garbage = b"this is not a gzip stream".to_vec();
    assert!(decompress(&garbage).is_err());
}
