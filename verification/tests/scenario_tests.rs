use lolraft::advance_kern;
use lolraft::applier::DedupMap;
use lolraft::command_log::CommandLog;
use lolraft::event::{CommitEvent, EventConsumer, EventProducer};
use lolraft::heartbeat::{receive_commit_state, LeaderCommitState};
use lolraft::replication::{collect_frames, compute_commit_index, ingest_frames, plan_resume, ResumePlan};
use lolraft::types::Ballot;
use lolraft::voter::Voter;

/// Ship everything from `from` on, in batches of `batch`, and return the
/// follower's reported last index.
fn ship(leader: &CommandLog, follower: &mut CommandLog, mut from: u64, batch: usize) -> u64 {
    loop {
        let (prev, frames) = collect_frames(leader, from, batch);
        let n = frames.len() as u64;
        let resp = ingest_frames(follower, prev, frames).expect("stream accepted");
        if n == 0 {
            return resp.log_last_index;
        }
        from += n;
    }
}

#[test]
fn restarted_follower_converges() {
    // a three-node lane: one leader, two followers
    let mut leader = CommandLog::new();
    for i in 1..=10u64 {
        leader.append(1, vec![i as u8]);
    }

    let mut f1 = CommandLog::new();
    ship(&leader, &mut f1, 1, 4);

    // the second follower dies mid-stream: only the first four entries
    // reached its log before the crash
    let mut f2 = CommandLog::new();
    let (prev, frames) = collect_frames(&leader, 1, 4);
    ingest_frames(&mut f2, prev, frames).unwrap();
    assert_eq!(f2.log.get_last_index(), 4);

    // restart: the follower rebuilds from its own persisted entries alone
    let mut f2 = CommandLog::restore(f2.log);
    assert_eq!(f2.commit_index, 0);

    // the leader resumes from what the follower reports
    let reported = f2.log.get_last_index();
    match plan_resume(&leader, reported) {
        ResumePlan::SendFrom(from) => {
            ship(&leader, &mut f2, from, 4);
        }
        ResumePlan::Snapshot => panic!("nothing was compacted; a stream must suffice"),
    }
    assert_eq!(f2.log.get_last_index(), 10);

    // the lane commits what a strict majority stored, and heartbeats
    // propagate that commit index to both followers
    let matches = vec![
        leader.log.get_last_index(),
        f1.log.get_last_index(),
        f2.log.get_last_index(),
    ];
    let commit = compute_commit_index(&matches, leader.commit_index);
    assert_eq!(commit, 10);
    leader.advance_commit(commit);
    let hb = LeaderCommitState { leader_term: 1, leader_commit_index: commit };
    receive_commit_state(&mut f1, 1, hb);
    receive_commit_state(&mut f2, 1, hb);
    assert_eq!(leader.commit_index, 10);
    assert_eq!(f1.commit_index, 10);
    assert_eq!(f2.commit_index, 10, "the restarted follower reaches its peers' committed index");
}

#[test]
fn racing_writes_with_one_request_id_apply_once() {
    // two clients race the same request id to the leader; both writes get
    // a log entry, both commit
    let mut leader = CommandLog::new();
    leader.append(1, vec![42]);
    leader.append(1, vec![42]);
    leader.advance_commit(2);

    let voter = Voter::new("n0".to_string(), Ballot::genesis());
    let consumer: EventConsumer<CommitEvent> = EventConsumer::new();
    let producer = EventProducer::new();
    let mut thread = advance_kern::new(leader, voter, consumer, producer);
    let mut dedup = DedupMap::new();

    // the applier drains both entries; each drain step hands in what a
    // fresh execution would produce, with a marker showing which call ran
    let rid = "req-42".to_string();
    let first = advance_kern::drain_step(&mut thread, &mut dedup, &rid, vec![1])
        .expect("first committed entry applies");
    let second = advance_kern::drain_step(&mut thread, &mut dedup, &rid, vec![2])
        .expect("second committed entry applies");
    let drained = advance_kern::drain_step(&mut thread, &mut dedup, &rid, vec![3]);
    assert!(drained.is_none(), "nothing further is committed");

    assert!(first.1, "the first write executes");
    assert!(!second.1, "the second write must not execute again");
    assert_eq!(first.0, vec![1]);
    assert_eq!(second.0, first.0, "both callers observe the same response");
}

#[test]
fn snapshot_catches_up_compacted_follower() {
    // the leader has applied and compacted its prefix: entries 1..=5 are
    // gone behind a snapshot at 5, the log resumes at 5 (the marker)
    let mut leader = CommandLog::new();
    for i in 1..=8u64 {
        leader.append(1, vec![i as u8]);
    }
    leader.advance_commit(8);
    while leader.advance_kern_process().is_some() {}
    leader.delete_entries_before(5);
    assert_eq!(leader.log.get_head_index(), 5);

    // a follower far behind cannot be streamed to: its continuity point
    // was compacted away
    let follower_last = 2u64;
    assert_eq!(plan_resume(&leader, follower_last), ResumePlan::Snapshot);

    // the follower installs the snapshot taken at index 5
    let mut follower = CommandLog::new();
    let snapshot_index = 5u64;
    follower.install_snapshot(snapshot_index, 1);
    assert_eq!(follower.log.get_head_index(), snapshot_index);
    assert_eq!(follower.log.get_last_index(), snapshot_index);
    assert_eq!(follower.commit_index, snapshot_index);

    // replication resumes at 6 and continues without a gap
    match plan_resume(&leader, follower.log.get_last_index()) {
        ResumePlan::SendFrom(from) => {
            assert_eq!(from, snapshot_index + 1);
            ship(&leader, &mut follower, from, 2);
        }
        ResumePlan::Snapshot => panic!("the marker at 5 lets the stream resume"),
    }
    assert_eq!(follower.log.get_last_index(), 8);
    for i in snapshot_index..=8 {
        assert!(follower.log.get_entry(i).is_some(), "index {i} present, no gap");
    }
}

#[test]
fn installed_marker_is_never_streamed() {
    // the first leader commits 1..=10 and compacts through 8 behind a
    // snapshot; its retained entries 8..=10 are all real
    let mut a = CommandLog::new();
    for i in 1..=10u64 {
        a.append(1, vec![i as u8]);
    }
    a.advance_commit(10);
    while a.advance_kern_process().is_some() {}
    a.delete_entries_before(8);

    // a new node catches up by installing the snapshot at 8 — its log
    // holds a fabricated marker there — and then streams 9..=10
    let mut c = CommandLog::new();
    c.install_snapshot(8, 1);
    match plan_resume(&a, c.log.get_last_index()) {
        ResumePlan::SendFrom(from) => {
            ship(&a, &mut c, from, 4);
        }
        ResumePlan::Snapshot => panic!("the first leader retains 8..=10; the stream resumes"),
    }
    assert_eq!(c.log.get_last_index(), 10);

    // the first leader fails; the caught-up node leads. A crashed peer
    // holding only 1..=7 must not be sent the fabricated marker as if it
    // were the real entry at 8: it gets a snapshot instead
    let peer_last = 7u64;
    assert_eq!(
        plan_resume(&c, peer_last),
        ResumePlan::Snapshot,
        "a position at or below the snapshot base is never streamed"
    );

    // once the peer installs the snapshot at 8, the stream resumes at 9
    // and ships only real entries
    let mut b = CommandLog::new();
    b.install_snapshot(8, 1);
    match plan_resume(&c, b.log.get_last_index()) {
        ResumePlan::SendFrom(from) => {
            assert_eq!(from, 9);
            ship(&c, &mut b, from, 4);
        }
        ResumePlan::Snapshot => panic!("above the base the stream resumes"),
    }
    assert_eq!(b.log.get_last_index(), 10);
    assert_eq!(b.log.get_entry(9).unwrap().command, vec![9]);
    assert_eq!(b.log.get_entry(10).unwrap().command, vec![10]);
}
