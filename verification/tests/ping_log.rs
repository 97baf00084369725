use tuxscale::ping_log::PingLog;

#[test]
fn read_after_write() {
    let mut log = PingLog::new();
    assert_eq!(log.get("100.1.1.1"), None);
    log.insert("100.1.1.1".to_string(), "23ms".to_string());
    log.insert("100.2.2.2".to_string(), "Error: timeout".to_string());
    assert_eq!(log.get("100.1.1.1").map(|s| s.as_str()), Some("23ms"));
    assert_eq!(log.get("100.2.2.2").map(|s| s.as_str()), Some("Error: timeout"));
    assert_eq!(log.get("100.3.3.3"), None);
}

#[test]
fn a_new_result_replaces_the_old() {
    let mut log = PingLog::new();
    log.insert("a".to_string(), "first".to_string());
    log.insert("b".to_string(), "other".to_string());
    log.insert("a".to_string(), "second".to_string());
    assert_eq!(log.get("a").map(|s| s.as_str()), Some("second"));
    assert_eq!(log.get("b").map(|s| s.as_str()), Some("other"));
}
