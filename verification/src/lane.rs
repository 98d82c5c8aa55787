//! One lane wired together: its election state, replicated log and
//! membership, with the message-level handlers the server exposes.
//!
//! The hosting runtime owns transport and persistence; it hands each
//! incoming message to the handler here and carries the answer — and any
//! changed ballot, which must be persisted before the answer leaves — back
//! out.

use vstd::prelude::*;

use crate::command_log::CommandLog;
use crate::heartbeat::LeaderCommitState;
use crate::heartbeat::receive_commit_state;
use crate::membership::Membership;
use crate::types::Clock;
use crate::voter::VoteRequest;
use crate::voter::Voter;
use crate::voter::VoterState;
use crate::voter::ballot_changed;
use crate::voter::grant_ok;

verus! {

/// The answer to a vote request, as carried on the wire.
#[derive(Clone, Copy, PartialEq, Eq, Structural, Debug)]
pub struct VoteResponse {
    pub vote_granted: bool,
}

/// One lane's consensus state. The dedup table of the lane's apply stage
/// travels with that stage (see [`crate::advance_kern`]).
pub struct Lane {
    pub lane_id: u32,
    pub voter: Voter,
    pub command_log: CommandLog,
    pub membership: Membership,
}

impl Lane {
    /// The structural invariants of every part.
    pub open spec fn wf(self) -> bool {
        &&& self.command_log.wf()
        &&& self.membership.wf()
    }

    /// A fresh lane for this node, restored from the persisted ballot (or
    /// [`crate::types::Ballot::genesis`] when none was ever stored).
    pub fn new(lane_id: u32, voter: Voter) -> (r: Lane)
        ensures
            r.wf(),
            r.lane_id == lane_id,
            r.voter == voter,
            r.command_log.log.spec_len() == 0,
            r.command_log.commit_index == 0,
            r.command_log.kern_index == 0,
            r.membership.spec_voters().len() == 0,
            r.membership.spec_learners().len() == 0,
            !r.membership.spec_pending(),
    {
        Lane {
            lane_id,
            voter,
            command_log: CommandLog::new(),
            membership: Membership::new(),
        }
    }

    /// Answer a vote request. The returned flag says whether the ballot
    /// changed: the caller must persist it before the response leaves this
    /// node — durability precedes acknowledgment.
    pub fn handle_vote_request(&mut self, req: &VoteRequest) -> (r: (VoteResponse, bool))
        requires
            old(self).wf(),
        ensures
            final(self).wf(),
            r.0.vote_granted == grant_ok(
                old(self).voter.ballot,
                req.candidate_id@,
                req.vote_term,
                req.force_vote,
                req.candidate_clock,
                old(self).command_log.log.tail_clock_spec(),
            ),
            r.1 == ballot_changed(old(self).voter.ballot, final(self).voter.ballot),
            req.pre_vote ==> final(self).voter == old(self).voter,
            final(self).command_log == old(self).command_log,
            final(self).membership == old(self).membership,
            final(self).voter.ballot.cur_term >= old(self).voter.ballot.cur_term,
    {
        let own_tail = self.command_log.log.tail_clock();
        let (granted, changed) = self.voter.request_vote(
            &req.candidate_id,
            req.candidate_clock,
            req.vote_term,
            req.force_vote,
            req.pre_vote,
            own_tail,
        );
        (VoteResponse { vote_granted: granted }, changed)
    }

    /// A timeout-now signal: start an election round at once, disregarding
    /// the election timer, unless this lane already leads. Used to
    /// rebalance leaders without disruption.
    pub fn handle_timeout_now(&mut self) -> (started: bool)
        ensures
            final(self).voter.ballot == old(self).voter.ballot,
            final(self).command_log == old(self).command_log,
            final(self).membership == old(self).membership,
            started == (old(self).voter.state != VoterState::Leader),
            started ==> final(self).voter.state == VoterState::PreCandidate,
            !started ==> *final(self) == *old(self),
    {
        if self.voter.is_leader() {
            false
        } else {
            self.voter.begin_prevote();
            true
        }
    }

    /// Apply one lane's commit state from a received heartbeat: stale
    /// terms are ignored, a current term raises this lane's commit index
    /// toward the leader's.
    pub fn handle_heartbeat_state(&mut self, state: LeaderCommitState) -> (applied: bool)
        requires
            old(self).wf(),
        ensures
            final(self).wf(),
            final(self).voter == old(self).voter,
            final(self).membership == old(self).membership,
            applied == (state.leader_term >= old(self).voter.ballot.cur_term),
            !applied ==> *final(self) == *old(self),
            final(self).command_log.commit_index >= old(self).command_log.commit_index,
            final(self).command_log.log == old(self).command_log.log,
            final(self).command_log.kern_index == old(self).command_log.kern_index,
            final(self).command_log.snapshot_base == old(self).command_log.snapshot_base,
    {
        let term = self.voter.ballot.cur_term;
        receive_commit_state(&mut self.command_log, term, state)
    }

    /// The clock of this lane's newest entry.
    pub fn tail_clock(&self) -> (r: Clock)
        requires
            self.wf(),
        ensures
            r == self.command_log.log.tail_clock_spec(),
    {
        self.command_log.log.tail_clock()
    }

    /// Accept a client write: only the leader appends; anyone else answers
    /// with a redirect-worthy refusal and the client rediscovers the
    /// leader. An accepted write is appended under the current term and
    /// still has to replicate, commit and apply before the client hears
    /// back.
    pub fn handle_write(&mut self, command: Vec<u8>) -> (r: WriteAction)
        requires
            old(self).wf(),
            old(self).command_log.log.spec_last_index() < u64::MAX,
        ensures
            final(self).wf(),
            final(self).voter == old(self).voter,
            final(self).membership == old(self).membership,
            old(self).voter.state != VoterState::Leader ==> r == WriteAction::NotLeader
                && *final(self) == *old(self),
            old(self).voter.state == VoterState::Leader ==> {
                let idx = (old(self).command_log.log.spec_last_index() + 1) as u64;
                &&& r == WriteAction::Appended(idx)
                &&& final(self).command_log.log.spec_last_index() == idx
                &&& (match final(self).command_log.log.spec_get(idx) {
                    Some(e) => e.this_clock == (Clock {
                        term: old(self).voter.ballot.cur_term,
                        index: idx,
                    }) && e.command == command@,
                    None => false,
                })
                &&& final(self).command_log.commit_index == old(self).command_log.commit_index
                &&& final(self).command_log.snapshot_base == old(self).command_log.snapshot_base
            },
    {
        if !self.voter.is_leader() {
            return WriteAction::NotLeader;
        }
        let term = self.voter.ballot.cur_term;
        let idx = self.command_log.append(term, command);
        WriteAction::Appended(idx)
    }

    /// Accept an optimized read, which bypasses the log. Only the leader
    /// serves it; the caller must hold the answer until the lane's applier
    /// has reached the returned position (the commit index as of arrival),
    /// which is what makes the read linearizable against every write this
    /// leader acknowledged before it.
    pub fn handle_read(&self) -> (r: ReadAction)
        requires
            self.wf(),
        ensures
            self.voter.state != VoterState::Leader ==> r == ReadAction::NotLeader,
            self.voter.state == VoterState::Leader ==> r == ReadAction::ServeAfter(
                self.command_log.commit_index,
            ),
    {
        if self.voter.is_leader() {
            ReadAction::ServeAfter(self.command_log.commit_index)
        } else {
            ReadAction::NotLeader
        }
    }
}

/// What becomes of a client write.
#[derive(Clone, Copy, PartialEq, Eq, Structural, Debug)]
pub enum WriteAction {
    /// This node does not lead the lane; the client should rediscover the
    /// leader and retry there.
    NotLeader,
    /// The write was appended at this index and now awaits replication,
    /// commit and apply.
    Appended(u64),
}

/// What becomes of an optimized read.
#[derive(Clone, Copy, PartialEq, Eq, Structural, Debug)]
pub enum ReadAction {
    /// This node does not lead the lane.
    NotLeader,
    /// Serve the read once the applier has reached this position.
    ServeAfter(u64),
}

} // verus!
