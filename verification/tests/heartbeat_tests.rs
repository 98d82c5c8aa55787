use lolraft::command_log::CommandLog;
use lolraft::heartbeat::{receive_commit_state, Heartbeat, LeaderCommitState};
use lolraft::types::{Clock, Entry};

fn entry(term: u64, index: u64, payload: u8) -> Entry {
    Entry {
        prev_clock: Clock { term, index: index - 1 },
        this_clock: Clock { term, index },
        command: vec![payload],
    }
}

fn follower_with(n: u64) -> CommandLog {
    let mut cl = CommandLog::new();
    for i in 1..=n {
        cl.accept_entry(entry(1, i, i as u8));
    }
    cl
}

#[test]
fn stale_term_heartbeat_is_ignored() {
    let mut cl = follower_with(5);
    cl.advance_commit(2);
    let applied = receive_commit_state(
        &mut cl,
        3,
        LeaderCommitState { leader_term: 2, leader_commit_index: 5 },
    );
    assert!(!applied);
    assert_eq!(cl.commit_index, 2, "a stale leader's commit index must be discarded");
}

#[test]
fn current_term_heartbeat_advances_commit() {
    let mut cl = follower_with(5);
    let applied = receive_commit_state(
        &mut cl,
        3,
        LeaderCommitState { leader_term: 3, leader_commit_index: 4 },
    );
    assert!(applied);
    assert_eq!(cl.commit_index, 4);
}

#[test]
fn commit_index_never_decreases() {
    let mut cl = follower_with(5);
    cl.advance_commit(4);
    let applied = receive_commit_state(
        &mut cl,
        3,
        LeaderCommitState { leader_term: 5, leader_commit_index: 2 },
    );
    assert!(applied);
    assert_eq!(cl.commit_index, 4, "an applied heartbeat may not move the commit index back");
}

#[test]
fn commit_is_clamped_to_stored_entries() {
    let mut cl = follower_with(3);
    receive_commit_state(&mut cl, 1, LeaderCommitState { leader_term: 1, leader_commit_index: 9 });
    assert_eq!(cl.commit_index, 3);
}

#[test]
fn batch_carries_one_state_per_lane() {
    let mut hb = Heartbeat::new("leader-0".to_string());
    hb.push_state(1, LeaderCommitState { leader_term: 2, leader_commit_index: 10 });
    hb.push_state(7, LeaderCommitState { leader_term: 3, leader_commit_index: 4 });
    assert_eq!(
        hb.find_state(1),
        Some(LeaderCommitState { leader_term: 2, leader_commit_index: 10 })
    );
    assert_eq!(
        hb.find_state(7),
        Some(LeaderCommitState { leader_term: 3, leader_commit_index: 4 })
    );
    assert_eq!(hb.find_state(2), None);
    // a newer state for the same lane wins
    hb.push_state(1, LeaderCommitState { leader_term: 2, leader_commit_index: 12 });
    assert_eq!(
        hb.find_state(1),
        Some(LeaderCommitState { leader_term: 2, leader_commit_index: 12 })
    );
}
