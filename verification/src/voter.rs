//! The per-lane election state machine.
//!
//! A voter owns the lane's current term and vote record (the [`Ballot`]) and
//! cycles between follower, pre-candidate, candidate and leader. Whenever a
//! call here changes the ballot, it reports that to the caller, which must
//! persist the new ballot before answering the peer: durability precedes
//! acknowledgment.

use vstd::prelude::*;

use crate::types::Ballot;
use crate::types::Clock;
use crate::types::voted_for_view;

verus! {

/// The four states of a lane's election machine.
#[derive(Clone, Copy, PartialEq, Eq, Structural, Debug)]
pub enum VoterState {
    Follower,
    PreCandidate,
    Candidate,
    Leader,
}

/// A request for this lane's vote, as carried on the wire.
#[derive(Debug)]
pub struct VoteRequest {
    pub lane_id: u32,
    pub vote_term: u64,
    pub candidate_id: String,
    pub candidate_clock: Clock,
    pub force_vote: bool,
    pub pre_vote: bool,
}

/// A candidate's log tail is recent enough to get a vote: it must not be
/// behind the voter's own tail, compared first by term and then by index.
pub open spec fn log_up_to_date(candidate: Clock, own: Clock) -> bool {
    candidate.term > own.term || (candidate.term == own.term && candidate.index >= own.index)
}

/// When a binding (non-pre) vote in `vote_term` is owed to `candidate`,
/// given the voter's ballot and the two log tails: the term is not older
/// than the voter's, no different candidate already holds this term's vote,
/// and the candidate's log is recent enough unless the vote is forced by a
/// leadership transfer.
pub open spec fn grant_ok(
    b: Ballot,
    candidate: Seq<char>,
    vote_term: u64,
    force_vote: bool,
    candidate_clock: Clock,
    own_tail: Clock,
) -> bool {
    &&& vote_term >= b.cur_term
    &&& (vote_term == b.cur_term ==> match voted_for_view(b) {
        None => true,
        Some(v) => v == candidate,
    })
    &&& (force_vote || log_up_to_date(candidate_clock, own_tail))
}

/// The ballot after a call differs from the ballot before it, so the caller
/// must persist it before acknowledging the peer.
pub open spec fn ballot_changed(before: Ballot, after: Ballot) -> bool {
    after.cur_term != before.cur_term || voted_for_view(after) != voted_for_view(before)
}

/// A vote once recorded for a term is never redirected within that term.
pub open spec fn vote_retained(before: Ballot, after: Ballot) -> bool {
    (after.cur_term == before.cur_term && voted_for_view(before) is Some) ==> voted_for_view(after)
        == voted_for_view(before)
}

/// How a binding vote request moves the voter from `v_old` to `v_new` when
/// the grant decision was `granted`: a grant lands in `vote_term` with the
/// vote recorded for the candidate; a refused newer term is still adopted,
/// reverting to follower with a cleared vote; a refused older-or-equal term
/// changes nothing.
pub open spec fn binding_vote_post(
    v_old: Voter,
    v_new: Voter,
    candidate: Seq<char>,
    vote_term: u64,
    granted: bool,
) -> bool {
    &&& (granted ==> v_new.ballot.cur_term == vote_term && voted_for_view(v_new.ballot) == Some(
        candidate,
    ))
    &&& (!granted && vote_term > v_old.ballot.cur_term ==> v_new.state == VoterState::Follower
        && v_new.ballot.cur_term == vote_term && v_new.ballot.voted_for is None)
    &&& (!granted && vote_term <= v_old.ballot.cur_term ==> v_new == v_old)
    &&& (vote_term > v_old.ballot.cur_term ==> v_new.state == VoterState::Follower)
    &&& (vote_term <= v_old.ballot.cur_term ==> v_new.state == v_old.state)
}

/// The election state machine of one lane.
pub struct Voter {
    /// Where in the election cycle this lane stands.
    pub state: VoterState,
    /// The durable election record; every change must reach the ballot
    /// store before it is acknowledged to any peer.
    pub ballot: Ballot,
    /// This node's own identity, the value it votes for when it runs.
    pub id: String,
}

impl Voter {
    /// A fresh voter: follower in the given ballot's term. Restoring from
    /// the persisted ballot, or from [`Ballot::genesis`] when none was ever
    /// persisted, is the caller's choice.
    pub fn new(id: String, ballot: Ballot) -> (r: Voter)
        ensures
            r.state == VoterState::Follower,
            r.ballot == ballot,
            r.id == id,
    {
        Voter { state: VoterState::Follower, ballot, id }
    }

    /// A message carried a term newer than ours: revert to follower, adopt
    /// the term and clear the vote. Returns whether the ballot changed and
    /// so must be persisted before the message is answered.
    pub fn observe_term(&mut self, term: u64) -> (changed: bool)
        ensures
            term > old(self).ballot.cur_term ==> {
                &&& final(self).state == VoterState::Follower
                &&& final(self).ballot.cur_term == term
                &&& final(self).ballot.voted_for is None
                &&& changed
            },
            term <= old(self).ballot.cur_term ==> *final(self) == *old(self) && !changed,
            final(self).ballot.cur_term >= old(self).ballot.cur_term,
            final(self).id == old(self).id,
    {
        if term > self.ballot.cur_term {
            self.state = VoterState::Follower;
            self.ballot = Ballot { cur_term: term, voted_for: None };
            true
        } else {
            false
        }
    }

    /// Decide a vote request. `own_tail` is the clock of this lane's newest
    /// log entry. Returns whether the vote is granted and whether the ballot
    /// changed (and so must be persisted before responding).
    ///
    /// A pre-vote only reports whether a binding vote would be feasible and
    /// never changes any state. A binding request first adopts a newer term
    /// (reverting to follower), then grants exactly when [`grant_ok`] holds
    /// of the original ballot; a grant records the vote in the ballot.
    pub fn request_vote(
        &mut self,
        candidate_id: &String,
        candidate_clock: Clock,
        vote_term: u64,
        force_vote: bool,
        pre_vote: bool,
        own_tail: Clock,
    ) -> (r: (bool, bool))
        ensures
            r.0 == grant_ok(
                old(self).ballot,
                candidate_id@,
                vote_term,
                force_vote,
                candidate_clock,
                own_tail,
            ),
            pre_vote ==> *final(self) == *old(self) && !r.1,
            !pre_vote ==> binding_vote_post(*old(self), *final(self), candidate_id@, vote_term, r.0),
            // a term never moves backwards, and a vote once recorded for a
            // term is never redirected within that term
            final(self).ballot.cur_term >= old(self).ballot.cur_term,
            vote_retained(old(self).ballot, final(self).ballot),
            r.1 == ballot_changed(old(self).ballot, final(self).ballot),
            final(self).id == old(self).id,
    {
        let term_ok = vote_term >= self.ballot.cur_term;
        let not_committed_elsewhere = vote_term != self.ballot.cur_term || match &self
            .ballot
            .voted_for {
            None => true,
            Some(v) => v.eq(candidate_id),
        };
        let recency_ok = force_vote || candidate_clock.term > own_tail.term
            || (candidate_clock.term == own_tail.term && candidate_clock.index >= own_tail.index);
        let granted = term_ok && not_committed_elsewhere && recency_ok;

        if pre_vote {
            return (granted, false);
        }

        let mut changed = false;
        if vote_term > self.ballot.cur_term {
            self.state = VoterState::Follower;
            self.ballot = Ballot { cur_term: vote_term, voted_for: None };
            changed = true;
        }
        if granted {
            let already_recorded = match &self.ballot.voted_for {
                None => false,
                Some(v) => v.eq(candidate_id),
            };
            if !already_recorded {
                self.ballot = Ballot {
                    cur_term: self.ballot.cur_term,
                    voted_for: Some(candidate_id.clone()),
                };
                changed = true;
            }
        }
        (granted, changed)
    }

    /// An election timeout (or a timeout-now signal) fired while not
    /// leading: open a pre-vote round. No term or vote state changes; the
    /// round merely tests electability.
    pub fn begin_prevote(&mut self)
        requires
            old(self).state != VoterState::Leader,
        ensures
            final(self).state == VoterState::PreCandidate,
            final(self).ballot == old(self).ballot,
            final(self).id == old(self).id,
    {
        self.state = VoterState::PreCandidate;
    }

    /// The pre-vote round ended with `granted` of `members` feasible votes.
    /// Only a strict majority promotes to candidate; the candidate then
    /// starts a real election: it raises its term and votes for itself, and
    /// the caller must persist the returned ballot before requesting votes.
    pub fn finish_prevote(&mut self, granted: u64, members: u64) -> (promoted: bool)
        requires
            old(self).state == VoterState::PreCandidate,
            old(self).ballot.cur_term < u64::MAX,
        ensures
            promoted == (2 * granted > members),
            promoted ==> {
                &&& final(self).state == VoterState::Candidate
                &&& final(self).ballot.cur_term == old(self).ballot.cur_term + 1
                &&& voted_for_view(final(self).ballot) == Some(old(self).id@)
            },
            !promoted ==> *final(self) == *old(self),
            final(self).id == old(self).id,
    {
        if granted > members / 2 {
            self.state = VoterState::Candidate;
            self.ballot = Ballot {
                cur_term: self.ballot.cur_term + 1,
                voted_for: Some(self.id.clone()),
            };
            true
        } else {
            false
        }
    }

    /// The binding vote round ended with `granted` of `members` votes for
    /// us. A strict majority makes this lane's leader; anything less sends
    /// the candidate back to follower for the next timeout.
    pub fn finish_election(&mut self, granted: u64, members: u64) -> (won: bool)
        requires
            old(self).state == VoterState::Candidate,
        ensures
            won == (2 * granted > members),
            won ==> final(self).state == VoterState::Leader,
            !won ==> final(self).state == VoterState::Follower,
            final(self).ballot == old(self).ballot,
            final(self).id == old(self).id,
    {
        if granted > members / 2 {
            self.state = VoterState::Leader;
            true
        } else {
            self.state = VoterState::Follower;
            false
        }
    }

    /// Leadership is lost without a term change (a vote grant to another
    /// candidate was observed): step back to follower.
    pub fn demote(&mut self)
        ensures
            final(self).state == VoterState::Follower,
            final(self).ballot == old(self).ballot,
            final(self).id == old(self).id,
    {
        self.state = VoterState::Follower;
    }

    /// Whether this lane currently believes it is the leader.
    pub fn is_leader(&self) -> (r: bool)
        ensures
            r == (self.state == VoterState::Leader),
    {
        match self.state {
            VoterState::Leader => true,
            _ => false,
        }
    }
}

} // verus!
