use lolraft::types::{Ballot, Clock};
use lolraft::voter::{Voter, VoterState};

fn fresh(id: &str) -> Voter {
    Voter::new(id.to_string(), Ballot::genesis())
}

#[test]
fn one_binding_vote_per_term() {
    let mut v = fresh("n0");
    let tail = Clock { term: 0, index: 0 };
    let (granted, changed) =
        v.request_vote(&"cand-a".to_string(), Clock { term: 1, index: 4 }, 1, false, false, tail);
    assert!(granted);
    assert!(changed);
    assert_eq!(v.ballot.cur_term, 1);
    assert_eq!(v.ballot.voted_for.as_deref(), Some("cand-a"));

    // a different candidate in the same term is refused
    let (granted2, changed2) =
        v.request_vote(&"cand-b".to_string(), Clock { term: 1, index: 9 }, 1, false, false, tail);
    assert!(!granted2);
    assert!(!changed2);
    assert_eq!(v.ballot.voted_for.as_deref(), Some("cand-a"));

    // the same candidate asking again is granted without a ballot change
    let (granted3, changed3) =
        v.request_vote(&"cand-a".to_string(), Clock { term: 1, index: 4 }, 1, false, false, tail);
    assert!(granted3);
    assert!(!changed3);
}

#[test]
fn stale_term_vote_is_refused() {
    let mut v = fresh("n0");
    v.observe_term(5);
    let (granted, changed) = v.request_vote(
        &"cand".to_string(),
        Clock { term: 3, index: 10 },
        3,
        false,
        false,
        Clock { term: 0, index: 0 },
    );
    assert!(!granted);
    assert!(!changed);
    assert_eq!(v.ballot.cur_term, 5);
}

#[test]
fn behind_log_is_refused_unless_forced() {
    let mut v = fresh("n0");
    let own_tail = Clock { term: 2, index: 8 };
    // candidate's tail is older: refuse
    let (granted, _) = v.request_vote(
        &"cand".to_string(),
        Clock { term: 2, index: 5 },
        3,
        false,
        false,
        own_tail,
    );
    assert!(!granted);
    // the term was still adopted (higher-term rule)
    assert_eq!(v.ballot.cur_term, 3);
    assert_eq!(v.state, VoterState::Follower);
    assert!(v.ballot.voted_for.is_none());

    // a forced vote (leadership transfer) bypasses the recency check
    let (granted2, changed2) = v.request_vote(
        &"cand".to_string(),
        Clock { term: 2, index: 5 },
        4,
        true,
        false,
        own_tail,
    );
    assert!(granted2);
    assert!(changed2);
    assert_eq!(v.ballot.cur_term, 4);
}

#[test]
fn pre_vote_changes_nothing() {
    let mut v = fresh("n0");
    let (granted, changed) = v.request_vote(
        &"cand".to_string(),
        Clock { term: 9, index: 9 },
        9,
        false,
        true,
        Clock { term: 0, index: 0 },
    );
    assert!(granted);
    assert!(!changed);
    assert_eq!(v.ballot.cur_term, 0);
    assert!(v.ballot.voted_for.is_none());
}

#[test]
fn prevote_majority_promotes_and_votes_for_self() {
    let mut v = fresh("n0");
    v.begin_prevote();
    assert_eq!(v.state, VoterState::PreCandidate);
    // 1 of 3 is no majority
    assert!(!v.finish_prevote(1, 3));
    assert_eq!(v.state, VoterState::PreCandidate);
    v.begin_prevote();
    // 2 of 3 is a strict majority
    assert!(v.finish_prevote(2, 3));
    assert_eq!(v.state, VoterState::Candidate);
    assert_eq!(v.ballot.cur_term, 1);
    assert_eq!(v.ballot.voted_for.as_deref(), Some("n0"));

    assert!(v.finish_election(2, 3));
    assert_eq!(v.state, VoterState::Leader);
}

#[test]
fn higher_term_demotes_leader() {
    let mut v = fresh("n0");
    v.begin_prevote();
    v.finish_prevote(2, 3);
    v.finish_election(2, 3);
    assert_eq!(v.state, VoterState::Leader);
    let changed = v.observe_term(2);
    assert!(changed);
    assert_eq!(v.state, VoterState::Follower);
    assert_eq!(v.ballot.cur_term, 2);
    assert!(v.ballot.voted_for.is_none());
}
