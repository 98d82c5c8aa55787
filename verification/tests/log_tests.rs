use lolraft::log::LaneLog;
use lolraft::types::{Clock, Entry};

fn entry(term: u64, index: u64, payload: u8) -> Entry {
    Entry {
        prev_clock: Clock { term, index: index - 1 },
        this_clock: Clock { term, index },
        command: vec![payload],
    }
}

#[test]
fn empty_log_reports_zero_bounds() {
    let log = LaneLog::new();
    assert_eq!(log.get_head_index(), 0);
    assert_eq!(log.get_last_index(), 0);
    assert!(log.get_entry(1).is_none());
    assert_eq!(log.tail_clock(), Clock { term: 0, index: 0 });
}

#[test]
fn inserts_form_contiguous_range() {
    let mut log = LaneLog::new();
    for i in 1..=5u64 {
        log.insert_entry(i, entry(1, i, i as u8));
    }
    assert_eq!(log.get_head_index(), 1);
    assert_eq!(log.get_last_index(), 5);
    for i in 1..=5u64 {
        assert!(log.get_entry(i).is_some(), "index {i} must be stored");
    }
    assert!(log.get_entry(0).is_none());
    assert!(log.get_entry(6).is_none());
}

#[test]
fn range_stays_contiguous_after_compaction() {
    let mut log = LaneLog::new();
    for i in 1..=5u64 {
        log.insert_entry(i, entry(1, i, i as u8));
    }
    log.delete_entries_before(3);
    assert_eq!(log.get_head_index(), 3);
    assert_eq!(log.get_last_index(), 5);
    assert!(log.get_entry(2).is_none());
    for i in 3..=5u64 {
        assert!(log.get_entry(i).is_some(), "index {i} must survive compaction");
    }
    // compacting below the head is a no-op
    log.delete_entries_before(1);
    assert_eq!(log.get_head_index(), 3);
    assert_eq!(log.get_last_index(), 5);
}

#[test]
fn upsert_takes_second_value() {
    let mut log = LaneLog::new();
    log.insert_entry(1, entry(1, 1, 10));
    log.insert_entry(2, entry(1, 2, 20));
    log.insert_entry(2, entry(2, 2, 21));
    let e = log.get_entry(2).expect("index 2 stored");
    assert_eq!(e.this_clock.term, 2);
    assert_eq!(e.command, vec![21]);
    assert_eq!(log.get_last_index(), 2);
}

#[test]
fn upsert_identical_content_is_noop() {
    let mut log = LaneLog::new();
    log.insert_entry(1, entry(1, 1, 10));
    log.insert_entry(2, entry(1, 2, 20));
    log.insert_entry(2, entry(1, 2, 20));
    assert_eq!(log.get_head_index(), 1);
    assert_eq!(log.get_last_index(), 2);
    let e = log.get_entry(2).expect("index 2 stored");
    assert_eq!(e.this_clock.term, 1);
    assert_eq!(e.command, vec![20]);
}

#[test]
fn truncate_from_discards_suffix() {
    let mut log = LaneLog::new();
    for i in 1..=5u64 {
        log.insert_entry(i, entry(1, i, i as u8));
    }
    log.truncate_from(3);
    assert_eq!(log.get_last_index(), 2);
    assert!(log.get_entry(3).is_none());
    assert!(log.get_entry(2).is_some());
}

#[test]
fn insert_into_empty_log_can_start_anywhere() {
    let mut log = LaneLog::new();
    log.insert_entry(100, entry(7, 100, 1));
    assert_eq!(log.get_head_index(), 100);
    assert_eq!(log.get_last_index(), 100);
    assert_eq!(log.tail_clock(), Clock { term: 7, index: 100 });
}

#[test]
fn large_indices_are_supported() {
    let mut log = LaneLog::new();
    let big = u64::MAX - 1;
    log.insert_entry(big, entry(3, big, 1));
    log.insert_entry(big + 1, entry(3, big + 1, 2));
    assert_eq!(log.get_head_index(), big);
    assert_eq!(log.get_last_index(), u64::MAX);
    assert!(log.get_entry(u64::MAX).is_some());
}
