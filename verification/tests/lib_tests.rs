use pure2p::Error;

#[test]
fn test_library_init() {
    let e = Error::Queue("q".to_string());
    assert!(matches!(e, Error::Queue(_)));
}
