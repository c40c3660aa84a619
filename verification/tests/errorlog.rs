use tickstream::errorlog::{ErrorLog, ERROR_LOG_CAP};

#[test]
fn keeps_only_the_last_ten_entries() {
    let mut log = ErrorLog::new();
    for n in 0..12 {
        log.push(format!("entry {}", n));
    }
    assert_eq!(ERROR_LOG_CAP, 10);
    assert_eq!(log.entries.len(), 10);
    assert_eq!(log.entries[0], "entry 2");
    assert_eq!(log.entries[9], "entry 11");
}

#[test]
fn fills_in_order_up_to_capacity() {
    let mut log = ErrorLog::new();
    assert!(log.entries.is_empty());
    log.push("first".to_string());
    log.push("second".to_string());
    assert_eq!(log.entries, vec!["first".to_string(), "second".to_string()]);
}
