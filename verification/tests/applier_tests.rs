use lolraft::applier::{apply_request, DedupMap};

#[test]
fn duplicate_request_applies_once() {
    let mut dedup = DedupMap::new();
    let rid = "req-1".to_string();

    let (resp1, executed1) = apply_request(&mut dedup, &rid, vec![11]);
    assert!(executed1);
    assert_eq!(resp1, vec![11]);

    // the retry would have produced different bytes if it executed
    let (resp2, executed2) = apply_request(&mut dedup, &rid, vec![99]);
    assert!(!executed2, "the command must not run a second time");
    assert_eq!(resp2, resp1, "the second response equals the first");
}

#[test]
fn distinct_requests_each_execute() {
    let mut dedup = DedupMap::new();
    let (ra, ea) = apply_request(&mut dedup, &"a".to_string(), vec![1]);
    let (rb, eb) = apply_request(&mut dedup, &"b".to_string(), vec![2]);
    assert!(ea && eb);
    assert_eq!(ra, vec![1]);
    assert_eq!(rb, vec![2]);
}

#[test]
fn lookup_reports_recorded_response() {
    let mut dedup = DedupMap::new();
    assert!(dedup.lookup(&"x".to_string()).is_none());
    apply_request(&mut dedup, &"x".to_string(), vec![7, 8]);
    assert_eq!(dedup.lookup(&"x".to_string()), Some(&vec![7u8, 8]));
    assert!(dedup.lookup(&"y".to_string()).is_none());
}

#[test]
fn clear_prunes_all_records() {
    let mut dedup = DedupMap::new();
    apply_request(&mut dedup, &"x".to_string(), vec![1]);
    apply_request(&mut dedup, &"y".to_string(), vec![2]);
    dedup.clear();
    assert!(dedup.lookup(&"x".to_string()).is_none());
    assert!(dedup.lookup(&"y".to_string()).is_none());
    // a request seen again after pruning executes afresh
    let (r, executed) = apply_request(&mut dedup, &"x".to_string(), vec![3]);
    assert!(executed);
    assert_eq!(r, vec![3]);
}
