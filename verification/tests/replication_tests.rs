use lolraft::command_log::CommandLog;
use lolraft::replication::{
    begin_stream, collect_frames, compute_commit_index, ingest_frames, leader_advance_commit,
    plan_resume, HeaderCheck, IngestError, ResumePlan,
};
use lolraft::types::{Clock, Entry};

fn entry(term: u64, index: u64, payload: u8) -> Entry {
    Entry {
        prev_clock: Clock { term, index: index - 1 },
        this_clock: Clock { term, index },
        command: vec![payload],
    }
}

fn leader_with(n: u64) -> CommandLog {
    let mut cl = CommandLog::new();
    for i in 1..=n {
        cl.append(1, vec![i as u8]);
    }
    cl
}

#[test]
fn header_beyond_log_asks_rewind_to_last() {
    let mut follower = CommandLog::new();
    for i in 1..=3u64 {
        follower.accept_entry(entry(1, i, i as u8));
    }
    let check = begin_stream(&follower, Clock { term: 1, index: 7 });
    assert_eq!(check, HeaderCheck::Mismatch(3));
}

#[test]
fn header_term_conflict_asks_rewind_below() {
    let mut follower = CommandLog::new();
    for i in 1..=3u64 {
        follower.accept_entry(entry(1, i, i as u8));
    }
    // the leader claims term 2 at position 3; the follower stored term 1
    let check = begin_stream(&follower, Clock { term: 2, index: 3 });
    assert_eq!(check, HeaderCheck::Mismatch(2));
}

#[test]
fn header_conflict_on_committed_entry_is_rejected() {
    let mut follower = CommandLog::new();
    for i in 1..=3u64 {
        follower.accept_entry(entry(1, i, i as u8));
    }
    follower.advance_commit(3);
    let check = begin_stream(&follower, Clock { term: 2, index: 3 });
    assert_eq!(check, HeaderCheck::Rejected);
    let r = ingest_frames(&mut follower, Clock { term: 2, index: 3 }, vec![]);
    assert_eq!(r, Err(IngestError::ConflictsCommitted));
}

#[test]
fn ingest_appends_fresh_entries() {
    let mut follower = CommandLog::new();
    let frames = vec![entry(1, 1, 1), entry(1, 2, 2), entry(1, 3, 3)];
    let resp = ingest_frames(&mut follower, Clock { term: 0, index: 0 }, frames).unwrap();
    assert_eq!(resp.n_inserted, 3);
    assert_eq!(resp.log_last_index, 3);
    assert_eq!(follower.log.get_last_index(), 3);
}

#[test]
fn ingest_skips_what_is_already_stored() {
    let mut follower = CommandLog::new();
    let frames = vec![entry(1, 1, 1), entry(1, 2, 2)];
    ingest_frames(&mut follower, Clock { term: 0, index: 0 }, frames).unwrap();
    // the same stream again: nothing new
    let frames = vec![entry(1, 1, 1), entry(1, 2, 2)];
    let resp = ingest_frames(&mut follower, Clock { term: 0, index: 0 }, frames).unwrap();
    assert_eq!(resp.n_inserted, 0);
    assert_eq!(resp.log_last_index, 2);
}

#[test]
fn ingest_truncates_conflicting_suffix() {
    let mut follower = CommandLog::new();
    for i in 1..=4u64 {
        follower.accept_entry(entry(1, i, i as u8));
    }
    follower.advance_commit(1);
    // a new leader in term 2 overwrites positions 2..=3
    let frames = vec![entry(2, 2, 22), entry(2, 3, 23)];
    let resp = ingest_frames(&mut follower, Clock { term: 1, index: 1 }, frames).unwrap();
    assert_eq!(resp.n_inserted, 2);
    // the old entry at 4 is gone with the conflicting suffix
    assert_eq!(resp.log_last_index, 3);
    assert_eq!(follower.log.get_entry(2).unwrap().this_clock.term, 2);
    assert_eq!(follower.log.get_entry(2).unwrap().command, vec![22]);
    assert!(follower.log.get_entry(4).is_none());
}

#[test]
fn malformed_stream_is_refused() {
    let mut follower = CommandLog::new();
    // frames skip an index
    let frames = vec![entry(1, 1, 1), entry(1, 3, 3)];
    let r = ingest_frames(&mut follower, Clock { term: 0, index: 0 }, frames);
    assert_eq!(r, Err(IngestError::MalformedStream));
}

#[test]
fn commit_index_needs_strict_majority() {
    // leader last = 5, followers at 3 and 5: majority of three holds 5
    let matches = vec![5u64, 3, 5];
    assert_eq!(compute_commit_index(&matches, 0), 5);
    // followers lag: only the leader holds 5, majority holds 3
    let matches = vec![5u64, 3, 3];
    assert_eq!(compute_commit_index(&matches, 0), 3);
    // nobody beyond the current commit: stays
    let matches = vec![2u64, 1, 2];
    assert_eq!(compute_commit_index(&matches, 4), 4);
    // two nodes: both must hold the index
    let matches = vec![7u64, 6];
    assert_eq!(compute_commit_index(&matches, 0), 6);
}

#[test]
fn resume_plan_prefers_stream_over_snapshot() {
    let mut leader = leader_with(6);
    assert_eq!(plan_resume(&leader, 4), ResumePlan::SendFrom(5));
    assert_eq!(plan_resume(&leader, 0), ResumePlan::SendFrom(1));
    // compact away 1..=3 (kernel cursor must cover them first)
    leader.advance_commit(6);
    while leader.advance_kern_process().is_some() {}
    leader.delete_entries_before(4);
    // a follower that still needs position 2 cannot be streamed to
    assert_eq!(plan_resume(&leader, 1), ResumePlan::Snapshot);
    // a follower at 3 can resume: the head entry remembers position 3
    assert_eq!(plan_resume(&leader, 3), ResumePlan::SendFrom(4));
}

#[test]
fn collected_frames_replay_the_log() {
    let leader = leader_with(5);
    let (prev, frames) = collect_frames(&leader, 3, 10);
    assert_eq!(prev, Clock { term: 1, index: 2 });
    assert_eq!(frames.len(), 3);
    assert_eq!(frames[0].this_clock.index, 3);
    assert_eq!(frames[2].this_clock.index, 5);
    // a bounded batch stops early
    let (_, frames) = collect_frames(&leader, 1, 2);
    assert_eq!(frames.len(), 2);
}

#[test]
fn leader_commit_includes_its_own_log() {
    let mut leader = leader_with(5);
    // two followers acknowledged 5 and 2: with the leader's own 5, a
    // majority of the three holds 5
    let r = leader_advance_commit(&mut leader, &vec![5, 2]);
    assert_eq!(r, 5);
    assert_eq!(leader.commit_index, 5);
    // lagging reports never move the commit index back
    let r = leader_advance_commit(&mut leader, &vec![2, 2]);
    assert_eq!(r, 5);
}

#[test]
fn n_inserted_counts_only_fresh_entries() {
    let mut follower = CommandLog::new();
    for i in 1..=3u64 {
        follower.accept_entry(entry(1, i, i as u8));
    }
    // a stream replaying 1..=5: the stored prefix is skipped, two are new
    let frames = vec![entry(1, 1, 1), entry(1, 2, 2), entry(1, 3, 3), entry(1, 4, 4), entry(1, 5, 5)];
    let resp = ingest_frames(&mut follower, Clock { term: 0, index: 0 }, frames).unwrap();
    assert_eq!(resp.n_inserted, 2);
    assert_eq!(resp.log_last_index, 5);
}
