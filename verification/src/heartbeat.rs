//! Leader heartbeats: periodic commit-index propagation.
//!
//! A leader batches the commit state of every lane it leads toward one
//! peer into a single message. A follower applies a carried commit index
//! to a lane only when the accompanying term is not older than the lane's
//! own current term; a stale leader's word is discarded.

use vstd::prelude::*;

use crate::command_log::CommandLog;

verus! {

/// One lane's entry in a heartbeat: the sender's term for the lane and how
/// far that lane has committed.
#[derive(Clone, Copy, PartialEq, Eq, Structural, Debug)]
pub struct LeaderCommitState {
    pub leader_term: u64,
    pub leader_commit_index: u64,
}

/// Which commit state a heartbeat batch carries for `lane_id`; the newest
/// entry for a lane wins.
pub open spec fn spec_batch_find(
    states: Seq<(u32, LeaderCommitState)>,
    lane_id: u32,
) -> Option<LeaderCommitState>
    decreases states.len(),
{
    if states.len() == 0 {
        None
    } else if states.last().0 == lane_id {
        Some(states.last().1)
    } else {
        spec_batch_find(states.drop_last(), lane_id)
    }
}

/// A heartbeat message: who leads, and the commit state of every lane the
/// sender leads, batched so that one message per peer covers all lanes.
#[derive(Debug)]
pub struct Heartbeat {
    pub leader_id: String,
    pub leader_commit_states: Vec<(u32, LeaderCommitState)>,
}

impl Heartbeat {
    /// An empty batch from the named leader.
    pub fn new(leader_id: String) -> (r: Heartbeat)
        ensures
            r.leader_id == leader_id,
            r.leader_commit_states@.len() == 0,
    {
        Heartbeat { leader_id, leader_commit_states: Vec::new() }
    }

    /// Add one lane's commit state to the batch.
    pub fn push_state(&mut self, lane_id: u32, state: LeaderCommitState)
        ensures
            final(self).leader_id == old(self).leader_id,
            final(self).leader_commit_states@ == old(self).leader_commit_states@.push(
                (lane_id, state),
            ),
            spec_batch_find(final(self).leader_commit_states@, lane_id) == Some(state),
            forall|l: u32|
                l != lane_id ==> spec_batch_find(final(self).leader_commit_states@, l)
                    == spec_batch_find(old(self).leader_commit_states@, l),
    {
        let ghost before = self.leader_commit_states@;
        self.leader_commit_states.push((lane_id, state));
        proof {
            assert(self.leader_commit_states@.drop_last() =~= before);
        }
    }

    /// Look up the commit state this batch carries for one lane.
    pub fn find_state(&self, lane_id: u32) -> (r: Option<LeaderCommitState>)
        ensures
            r == spec_batch_find(self.leader_commit_states@, lane_id),
    {
        let n = self.leader_commit_states.len();
        proof {
            assert(self.leader_commit_states@.take(n as int) =~= self.leader_commit_states@);
        }
        let mut t: usize = n;
        while t > 0
            invariant
                0 <= t <= n,
                n == self.leader_commit_states@.len(),
                spec_batch_find(self.leader_commit_states@, lane_id) == spec_batch_find(
                    self.leader_commit_states@.take(t as int),
                    lane_id,
                ),
            decreases t,
        {
            proof {
                assert(self.leader_commit_states@.take(t as int).drop_last()
                    =~= self.leader_commit_states@.take(t as int - 1));
                assert(self.leader_commit_states@.take(t as int).last()
                    == self.leader_commit_states@[t as int - 1]);
            }
            let pair = self.leader_commit_states[t - 1];
            if pair.0 == lane_id {
                return Some(pair.1);
            }
            t = t - 1;
        }
        proof {
            assert(self.leader_commit_states@.take(0) =~= Seq::<(
                u32,
                LeaderCommitState,
            )>::empty());
        }
        None
    }
}

/// Follower side: apply one lane's commit state from a heartbeat. A state
/// whose term is older than the lane's current term is stale — its word on
/// the commit index is ignored outright. A current state raises the commit
/// index toward the leader's, clamped to what this lane has stored, and
/// the commit index never moves backwards.
pub fn receive_commit_state(
    cl: &mut CommandLog,
    cur_term: u64,
    state: LeaderCommitState,
) -> (applied: bool)
    requires
        old(cl).wf(),
    ensures
        final(cl).wf(),
        applied == (state.leader_term >= cur_term),
        !applied ==> *final(cl) == *old(cl),
        final(cl).log == old(cl).log,
        final(cl).kern_index == old(cl).kern_index,
        final(cl).snapshot_base == old(cl).snapshot_base,
        final(cl).commit_index >= old(cl).commit_index,
        applied ==> final(cl).commit_index == if state.leader_commit_index <= old(
            cl,
        ).commit_index {
            old(cl).commit_index
        } else if state.leader_commit_index <= old(cl).log.spec_last_index() {
            state.leader_commit_index
        } else {
            old(cl).log.spec_last_index()
        },
{
    if state.leader_term < cur_term {
        false
    } else {
        cl.advance_commit(state.leader_commit_index);
        true
    }
}

} // verus!
