//! The per-lane replicated command log: the entry store plus the lane's
//! commit index (highest index durable on a majority), kernel index
//! (highest index already applied to application state), and snapshot
//! base (highest index ever installed from a snapshot).
//!
//! The commit index never moves backwards, and the kernel cursor walks the
//! committed range one entry at a time, which is what gives the applier its
//! strict index order.

use vstd::prelude::*;

use crate::log::LaneLog;
use crate::types::Clock;
use crate::types::Entry;

verus! {

/// A lane's replicated log together with its cursors. `kern_index` trails
/// `commit_index`, which trails the newest stored entry; everything at or
/// below `kern_index` has reached application state (by apply or by
/// snapshot install), so compaction may only cut up to there.
///
/// `snapshot_base` is the highest position this node ever covered by an
/// installed snapshot (0 when none). At such a position the log may hold a
/// fabricated marker rather than the real replicated entry, so positions
/// at or below the base are served to peers only by snapshot transfer,
/// never as stream frames (see [`crate::replication::plan_resume`] and
/// [`crate::replication::collect_frames`]).
pub struct CommandLog {
    pub log: LaneLog,
    pub commit_index: u64,
    pub kern_index: u64,
    pub snapshot_base: u64,
}

impl CommandLog {
    /// Structural invariant tying the cursors to the stored range; the
    /// snapshot base, being installed application state, is never ahead of
    /// the apply cursor by more than the one position a restart reopens.
    pub open spec fn wf(self) -> bool {
        &&& self.log.wf()
        &&& self.kern_index <= self.commit_index
        &&& self.commit_index <= self.log.spec_last_index()
        &&& self.log.spec_head_index() <= self.kern_index + 1
        &&& self.snapshot_base <= self.kern_index + 1
    }

    /// A fresh, empty lane.
    pub fn new() -> (r: CommandLog)
        ensures
            r.wf(),
            r.log.spec_len() == 0,
            r.commit_index == 0,
            r.kern_index == 0,
            r.snapshot_base == 0,
    {
        CommandLog { log: LaneLog::new(), commit_index: 0, kern_index: 0, snapshot_base: 0 }
    }

    /// Rebuild a lane from its persisted entries after a restart. The
    /// commit and kernel cursors restart at the position just before the
    /// retained range — the entries below the head were covered by a
    /// snapshot — and are re-advanced by the leader's heartbeats and by
    /// the applier. The head entry of a restored log may be the marker an
    /// earlier snapshot install left, so the snapshot base restarts at the
    /// head: this node never ships its head entry to a peer, it answers
    /// with a snapshot instead.
    pub fn restore(log: LaneLog) -> (r: CommandLog)
        requires
            log.wf(),
        ensures
            r.wf(),
            r.log == log,
            r.snapshot_base == log.spec_head_index(),
            log.spec_len() == 0 ==> r.commit_index == 0 && r.kern_index == 0,
            log.spec_len() > 0 ==> r.commit_index == log.spec_head_index() - 1 && r.kern_index
                == r.commit_index,
    {
        let head = log.get_head_index();
        let base: u64 = if head == 0 {
            0
        } else {
            head - 1
        };
        proof {
            if log.spec_len() == 0 {
                assert(base == 0);
            }
        }
        CommandLog { log, commit_index: base, kern_index: base, snapshot_base: head }
    }

    /// Leader-side append: allocate the next index in this lane, chain the
    /// entry to the current tail, and store it. The entry still has to be
    /// replicated and majority-stored before it may commit.
    pub fn append(&mut self, term: u64, command: Vec<u8>) -> (idx: u64)
        requires
            old(self).wf(),
            old(self).log.spec_last_index() < u64::MAX,
        ensures
            final(self).wf(),
            idx == old(self).log.spec_last_index() + 1,
            final(self).log.spec_last_index() == idx,
            match final(self).log.spec_get(idx) {
                Some(e) => e.this_clock == (Clock { term, index: idx }) && e.command
                    == command@ && e.prev_clock == old(self).log.tail_clock_spec(),
                None => false,
            },
            forall|j: u64| j != idx ==> final(self).log.spec_get(j) == old(self).log.spec_get(j),
            final(self).commit_index == old(self).commit_index,
            final(self).kern_index == old(self).kern_index,
            final(self).snapshot_base == old(self).snapshot_base,
    {
        let prev = self.log.tail_clock();
        let idx = self.log.get_last_index() + 1;
        let e = Entry {
            prev_clock: prev,
            this_clock: Clock { term, index: idx },
            command,
        };
        self.log.insert_entry(idx, e);
        idx
    }

    /// Raise the commit index toward `new_commit`, clamped to what this
    /// lane has actually stored; the commit index never moves backwards.
    pub fn advance_commit(&mut self, new_commit: u64)
        requires
            old(self).wf(),
        ensures
            final(self).wf(),
            final(self).log == old(self).log,
            final(self).kern_index == old(self).kern_index,
            final(self).snapshot_base == old(self).snapshot_base,
            final(self).commit_index == if new_commit <= old(self).commit_index {
                old(self).commit_index
            } else if new_commit <= old(self).log.spec_last_index() {
                new_commit
            } else {
                old(self).log.spec_last_index()
            },
            final(self).commit_index >= old(self).commit_index,
    {
        let last = self.log.get_last_index();
        let capped: u64 = if new_commit <= last {
            new_commit
        } else {
            last
        };
        if capped > self.commit_index {
            self.commit_index = capped;
        }
    }

    /// One step of the kernel pipeline: take the next committed-but-not-yet
    /// applied entry, advancing the kernel cursor onto it. Returns `None` —
    /// with no side effect — when there is nothing new to apply, which is
    /// the applier loop's termination signal rather than an error.
    pub fn advance_kern_process(&mut self) -> (r: Option<Entry>)
        requires
            old(self).wf(),
        ensures
            final(self).wf(),
            final(self).log == old(self).log,
            final(self).commit_index == old(self).commit_index,
            final(self).snapshot_base == old(self).snapshot_base,
            old(self).kern_index == old(self).commit_index ==> r is None && *final(self) == *old(
                self,
            ),
            old(self).kern_index < old(self).commit_index ==> {
                &&& final(self).kern_index == old(self).kern_index + 1
                &&& (match r {
                    Some(e) => old(self).log.spec_get((old(self).kern_index + 1) as u64) == Some(
                        e@,
                    ),
                    None => false,
                })
            },
    {
        if self.kern_index < self.commit_index {
            let next = self.kern_index + 1;
            let e = self.log.get_entry(next);
            match e {
                Some(e) => {
                    self.kern_index = next;
                    Some(e)
                },
                None => {
                    // unreachable: wf keeps [kern + 1, commit] stored
                    proof {
                        assert(false);
                    }
                    None
                },
            }
        } else {
            None
        }
    }

    /// Compaction: drop entries below `cutoff`. Only positions already
    /// covered by application state (at or below the kernel cursor, i.e. by
    /// a snapshot at or beyond `cutoff - 1`) and not past the stored range
    /// may be cut, so the committed-but-unapplied suffix stays intact.
    pub fn delete_entries_before(&mut self, cutoff: u64)
        requires
            old(self).wf(),
            cutoff <= old(self).kern_index + 1,
            cutoff <= old(self).log.spec_last_index(),
        ensures
            final(self).wf(),
            final(self).commit_index == old(self).commit_index,
            final(self).kern_index == old(self).kern_index,
            final(self).snapshot_base == old(self).snapshot_base,
            forall|j: u64| j >= cutoff ==> final(self).log.spec_get(j) == old(self).log.spec_get(j),
            forall|j: u64| j < cutoff ==> final(self).log.spec_get(j) is None,
            final(self).log.spec_last_index() == old(self).log.spec_last_index(),
            final(self).log.spec_head_index() == if cutoff >= old(self).log.spec_head_index() {
                cutoff
            } else {
                old(self).log.spec_head_index()
            },
    {
        self.log.delete_entries_before(cutoff);
    }

    /// Install a snapshot taken at `index`: the log restarts at a single
    /// marker entry there — carrying the snapshot position's clock and no
    /// command; its `prev_clock` is fabricated from the snapshot's term
    /// and serves only as local bookkeeping below the base — and both
    /// cursors land on `index`, since the snapshot is application state as
    /// of that position. The snapshot base records
    /// the install, so the marker is never shipped to a peer as a stream
    /// frame; replication resumes at `index + 1`. A snapshot is only ever
    /// installed when this lane's committed state ends at or before it.
    pub fn install_snapshot(&mut self, index: u64, term: u64)
        requires
            old(self).wf(),
            index >= 1,
            old(self).commit_index <= index,
        ensures
            final(self).wf(),
            final(self).log.spec_head_index() == index,
            final(self).log.spec_last_index() == index,
            final(self).commit_index == index,
            final(self).kern_index == index,
            final(self).snapshot_base == index,
            final(self).commit_index >= old(self).commit_index,
            match final(self).log.spec_get(index) {
                Some(e) => e.this_clock == (Clock { term, index }),
                None => false,
            },
    {
        let marker = Entry {
            prev_clock: Clock { term, index: index - 1 },
            this_clock: Clock { term, index },
            command: Vec::new(),
        };
        self.log.truncate_from(0);
        self.log.insert_entry(index, marker);
        self.commit_index = index;
        self.kern_index = index;
        self.snapshot_base = index;
    }
}

} // verus!
