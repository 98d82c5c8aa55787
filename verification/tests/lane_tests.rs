use lolraft::event::{CommitEvent, EventSlot};
use lolraft::lane::{ReadAction, WriteAction};
use lolraft::lane::Lane;
use lolraft::types::{Ballot, Clock};
use lolraft::voter::{VoteRequest, Voter, VoterState};

fn lane() -> Lane {
    Lane::new(3, Voter::new("n0".to_string(), Ballot::genesis()))
}

#[test]
fn vote_request_is_checked_against_the_lane_log() {
    let mut lane = lane();
    lane.command_log.append(2, vec![1]);
    lane.command_log.append(2, vec![2]);

    // a candidate whose tail is behind this lane's log is refused
    let req = VoteRequest {
        lane_id: 3,
        vote_term: 3,
        candidate_id: "cand".to_string(),
        candidate_clock: Clock { term: 1, index: 9 },
        force_vote: false,
        pre_vote: false,
    };
    let (resp, _) = lane.handle_vote_request(&req);
    assert!(!resp.vote_granted);

    // a candidate at least as current is granted, and the grant changes
    // the ballot, which must be persisted before answering
    let req = VoteRequest {
        lane_id: 3,
        vote_term: 4,
        candidate_id: "cand".to_string(),
        candidate_clock: Clock { term: 2, index: 2 },
        force_vote: false,
        pre_vote: false,
    };
    let (resp, ballot_changed) = lane.handle_vote_request(&req);
    assert!(resp.vote_granted);
    assert!(ballot_changed);
    assert_eq!(lane.voter.ballot.cur_term, 4);
}

#[test]
fn timeout_now_starts_an_election_round() {
    let mut lane = lane();
    assert!(lane.handle_timeout_now());
    assert_eq!(lane.voter.state, VoterState::PreCandidate);
    // a leader ignores the signal
    lane.voter.finish_prevote(1, 1);
    lane.voter.finish_election(1, 1);
    assert!(!lane.handle_timeout_now());
    assert_eq!(lane.voter.state, VoterState::Leader);
}

#[test]
fn event_slot_coalesces_signals() {
    let mut slot: EventSlot<CommitEvent> = EventSlot::new();
    assert!(slot.consume_event().is_none());
    slot.push_event(CommitEvent);
    slot.push_event(CommitEvent);
    slot.push_event(CommitEvent);
    // many raises collapse into one pending event
    assert!(slot.consume_event().is_some());
    assert!(slot.consume_event().is_none());
}

#[test]
fn writes_are_refused_off_leader() {
    let mut lane = lane();
    assert_eq!(lane.handle_write(vec![1]), WriteAction::NotLeader);
    // become the leader of a one-node lane
    lane.voter.begin_prevote();
    lane.voter.finish_prevote(1, 1);
    lane.voter.finish_election(1, 1);
    assert_eq!(lane.handle_write(vec![1]), WriteAction::Appended(1));
    assert_eq!(lane.handle_write(vec![2]), WriteAction::Appended(2));
    assert_eq!(lane.command_log.log.get_last_index(), 2);
    let e = lane.command_log.log.get_entry(1).unwrap();
    assert_eq!(e.this_clock.term, lane.voter.ballot.cur_term);
}

#[test]
fn reads_are_sequenced_against_the_commit_index() {
    let mut lane = lane();
    assert_eq!(lane.handle_read(), ReadAction::NotLeader);
    lane.voter.begin_prevote();
    lane.voter.finish_prevote(1, 1);
    lane.voter.finish_election(1, 1);
    lane.handle_write(vec![1]);
    lane.handle_write(vec![2]);
    lane.command_log.advance_commit(2);
    assert_eq!(lane.handle_read(), ReadAction::ServeAfter(2));
}
