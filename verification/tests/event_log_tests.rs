use hazelnut::event_log::{EventLog, LogLevel};

#[test]
fn new_log_is_empty() {
    let log = EventLog::new(3);
    assert_eq!(log.len(), 0);
    assert!(log.is_empty());
    assert_eq!(log.capacity(), 3);
    assert!(log.snapshot().is_empty());
}

#[test]
fn ring_keeps_the_newest_entries_in_order() {
    let retention = 5usize;
    let k = 7u64;
    let mut log = EventLog::new(retention);
    for i in 0..(retention as u64 + k) {
        let id = log.append(100 + i, LogLevel::Info, format!("entry {}", i));
        assert_eq!(id, Some(i));
    }
    let entries = log.snapshot();
    assert_eq!(entries.len(), retention);
    for (n, entry) in entries.iter().enumerate() {
        assert_eq!(entry.id, k + n as u64);
        assert_eq!(entry.timestamp, 100 + k + n as u64);
        assert_eq!(entry.message, format!("entry {}", k + n as u64));
        assert_eq!(entry.level, LogLevel::Info);
    }
}

#[test]
fn log_below_its_retention_keeps_everything() {
    let mut log = EventLog::new(10);
    log.append(1, LogLevel::Success, "a".to_string());
    log.append(2, LogLevel::Error, "b".to_string());
    let entries = log.snapshot();
    assert_eq!(entries.len(), 2);
    assert_eq!(entries[0].message, "a");
    assert_eq!(entries[0].level, LogLevel::Success);
    assert_eq!(entries[1].message, "b");
    assert_eq!(entries[1].level, LogLevel::Error);
    assert!(!log.is_empty());
}

#[test]
fn log_without_room_keeps_nothing_but_counts_on() {
    let mut log = EventLog::new(0);
    assert_eq!(log.append(1, LogLevel::Info, "a".to_string()), Some(0));
    assert_eq!(log.append(2, LogLevel::Info, "b".to_string()), Some(1));
    assert_eq!(log.len(), 0);
}

#[test]
fn since_returns_what_a_reader_has_not_seen() {
    let mut log = EventLog::new(4);
    for i in 0..6u64 {
        log.append(i, LogLevel::Info, format!("{}", i));
    }
    let ids: Vec<u64> = log.since(3).iter().map(|e| e.id).collect();
    assert_eq!(ids, vec![4, 5]);
    let ids: Vec<u64> = log.since(0).iter().map(|e| e.id).collect();
    assert_eq!(ids, vec![2, 3, 4, 5]);
    assert!(log.since(5).is_empty());
    assert!(log.since(u64::MAX).is_empty());
}

#[test]
fn clear_empties_the_log_and_keeps_the_numbering() {
    let mut log = EventLog::new(4);
    log.append(1, LogLevel::Info, "a".to_string());
    log.append(2, LogLevel::Info, "b".to_string());
    log.clear();
    assert!(log.is_empty());
    assert_eq!(log.append(3, LogLevel::Warning, "c".to_string()), Some(2));
    assert_eq!(log.snapshot()[0].id, 2);
}

#[test]
fn smaller_retention_drops_the_oldest() {
    let mut log = EventLog::new(5);
    for i in 0..5u64 {
        log.append(i, LogLevel::Info, format!("{}", i));
    }
    log.set_retention(2);
    let ids: Vec<u64> = log.snapshot().iter().map(|e| e.id).collect();
    assert_eq!(ids, vec![3, 4]);
    assert_eq!(log.capacity(), 2);
    log.set_retention(10);
    assert_eq!(log.len(), 2);
    log.append(9, LogLevel::Info, "x".to_string());
    let ids: Vec<u64> = log.snapshot().iter().map(|e| e.id).collect();
    assert_eq!(ids, vec![3, 4, 5]);
}

#[test]
fn entry_clones_are_equal() {
    let mut log = EventLog::new(1);
    log.append(7, LogLevel::Warning, "w".to_string());
    let a = log.snapshot();
    let b = a[0].clone();
    assert_eq!(b.id, 0);
    assert_eq!(b.timestamp, 7);
    assert_eq!(b.level, LogLevel::Warning);
    assert_eq!(b.message, "w");
}
