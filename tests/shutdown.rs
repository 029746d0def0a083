use yes::shutdown::ShutdownToken;

#[test]
fn token_starts_clear_and_stays_set() {
    let t = ShutdownToken::new();
    assert!(!t.is_stopped());
    t.request_stop();
    assert!(t.is_stopped());
    t.request_stop();
    assert!(t.is_stopped());
}
