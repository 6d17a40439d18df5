use scroll_dump::Credentials;

#[test]
fn credentials_round_trip() {
    let c = Credentials::new(String::from("elastic"), String::from("NOSECRETS"));
    assert_eq!(c.username(), "elastic");
    assert_eq!(c.password(), "NOSECRETS");
    let d = c.clone();
    assert_eq!(d.username(), "elastic");
}
