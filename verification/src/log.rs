//! The per-lane entry store: an ordered, contiguous run of log entries.
//!
//! This is the model the consensus core maintains of its durable log store.
//! Entries occupy the contiguous index range `[head_index, last_index]`;
//! `insert_entry` is an idempotent upsert, `delete_entries_before` is
//! compaction, and `truncate_from` is the follower-side conflict resolution.

use vstd::prelude::*;

use crate::types::Clock;
use crate::types::Entry;
use crate::types::EntryModel;
use crate::types::entry_model_wf;

verus! {

/// The entries one lane has stored, kept contiguous: the entry at vector
/// slot `j` has log index `head_index + j`. An empty log has `head_index`
/// 0, the sentinel index.
pub struct LaneLog {
    head_index: u64,
    entries: Vec<Entry>,
}

/// The mathematical value of a [`LaneLog`]: the first stored index and the
/// stored entries in index order.
pub struct LaneLogModel {
    pub head_index: u64,
    pub entries: Seq<EntryModel>,
}

impl View for LaneLog {
    type V = LaneLogModel;

    closed spec fn view(&self) -> LaneLogModel {
        LaneLogModel {
            head_index: self.head_index,
            entries: self.entries@.map_values(|e: Entry| e@),
        }
    }
}

impl LaneLog {
    /// Structural invariant: indices are contiguous from `head_index`, every
    /// stored entry is well formed, and the greatest index fits in `u64`.
    pub open spec fn wf(self) -> bool {
        &&& (self@.entries.len() == 0 ==> self@.head_index == 0)
        &&& (self@.entries.len() > 0 ==> self@.head_index >= 1)
        &&& self@.head_index + self@.entries.len() <= u64::MAX as int + 1
        &&& forall|j: int|
            0 <= j < self@.entries.len() ==> entry_model_wf(#[trigger] self@.entries[j])
                && self@.entries[j].this_clock.index == self@.head_index + j
    }

    /// How many entries are stored.
    pub open spec fn spec_len(self) -> nat {
        self@.entries.len()
    }

    /// The smallest stored index; 0 when the log is empty.
    pub open spec fn spec_head_index(self) -> u64 {
        self@.head_index
    }

    /// The greatest stored index; 0 when the log is empty.
    pub open spec fn spec_last_index(self) -> u64 {
        if self@.entries.len() == 0 {
            0
        } else {
            (self@.head_index + self@.entries.len() - 1) as u64
        }
    }

    /// The entry stored at index `i`, if any.
    pub open spec fn spec_get(self, i: u64) -> Option<EntryModel> {
        if self@.entries.len() > 0 && self@.head_index <= i <= self.spec_last_index() {
            Some(self@.entries[i - self@.head_index])
        } else {
            None
        }
    }

    /// A fresh, empty lane log.
    pub fn new() -> (r: LaneLog)
        ensures
            r.wf(),
            r.spec_len() == 0,
            r.spec_head_index() == 0,
            r.spec_last_index() == 0,
            forall|i: u64| r.spec_get(i) is None,
    {
        LaneLog { head_index: 0, entries: Vec::new() }
    }

    /// The smallest stored index; 0 when the log is empty.
    pub fn get_head_index(&self) -> (r: u64)
        requires
            self.wf(),
        ensures
            r == self.spec_head_index(),
    {
        self.head_index
    }

    /// The greatest stored index; 0 when the log is empty.
    pub fn get_last_index(&self) -> (r: u64)
        requires
            self.wf(),
        ensures
            r == self.spec_last_index(),
    {
        if self.entries.len() == 0 {
            0
        } else {
            self.head_index + (self.entries.len() as u64 - 1)
        }
    }

    /// Whether index `i` is currently stored.
    pub fn contains_index(&self, i: u64) -> (r: bool)
        requires
            self.wf(),
        ensures
            r == (self.spec_get(i) is Some),
    {
        self.entries.len() > 0 && self.head_index <= i && i <= self.get_last_index()
    }

    /// A copy of the entry stored at index `i`, if any.
    pub fn get_entry(&self, i: u64) -> (r: Option<Entry>)
        requires
            self.wf(),
        ensures
            match r {
                Some(e) => self.spec_get(i) == Some(e@),
                None => self.spec_get(i) is None,
            },
    {
        if self.contains_index(i) {
            let n: usize = self.entries.len();
            proof {
                assert(self@.entries.len() == self.entries@.len());
                assert(i - self@.head_index < n as int);
            }
            let slot: usize = (i - self.head_index) as usize;
            proof {
                assert(self@.entries[slot as int] == self.entries@[slot as int]@);
            }
            Some(self.entries[slot].duplicate())
        } else {
            None
        }
    }

    /// Borrow the entry stored at index `i`.
    pub fn entry_at(&self, i: u64) -> (r: &Entry)
        requires
            self.wf(),
            self.spec_get(i) is Some,
        ensures
            Some(r@) == self.spec_get(i),
    {
        let n: usize = self.entries.len();
        proof {
            assert(self@.entries.len() == self.entries@.len());
            assert(i - self@.head_index < n as int);
        }
        let slot: usize = (i - self.head_index) as usize;
        proof {
            assert(self@.entries[slot as int] == self.entries@[slot as int]@);
        }
        &self.entries[slot]
    }

    /// Idempotent upsert at index `i`: a repeated index takes the newer
    /// value, a fresh index may only extend the range by one, and an insert
    /// into an empty log may start the range anywhere. Keeps the stored
    /// range contiguous. The whole effect is pinned by [`upsert_effect`].
    pub fn insert_entry(&mut self, i: u64, e: Entry)
        requires
            old(self).wf(),
            entry_model_wf(e@),
            e@.this_clock.index == i,
            old(self).spec_len() > 0 ==> old(self).spec_head_index() <= i
                && i <= old(self).spec_last_index() + 1,
        ensures
            upsert_effect(*old(self), *final(self), i, e@),
    {
        proof {
            assert(self@.entries.len() == self.entries@.len());
        }
        if self.entries.len() == 0 {
            self.head_index = i;
            self.entries.push(e);
            proof {
                assert(self@.entries =~= old(self)@.entries.push(e@));
            }
        } else if i > self.get_last_index() {
            self.entries.push(e);
            proof {
                assert(self@.entries =~= old(self)@.entries.push(e@));
            }
        } else {
            let slot: usize = (i - self.head_index) as usize;
            self.entries[slot] = e;
            proof {
                assert(self@.entries =~= old(self)@.entries.update(slot as int, e@));
            }
        }
    }

    /// Conflict resolution: discard every entry with index `i` or greater.
    /// Removing the whole range leaves an empty log.
    pub fn truncate_from(&mut self, i: u64)
        requires
            old(self).wf(),
        ensures
            final(self).wf(),
            forall|j: u64| j < i ==> final(self).spec_get(j) == old(self).spec_get(j),
            forall|j: u64| j >= i ==> final(self).spec_get(j) is None,
            final(self).spec_len() > 0 <==> old(self).spec_len() > 0 && i > old(
                self,
            ).spec_head_index(),
            final(self).spec_len() > 0 ==> final(self).spec_head_index() == old(
                self,
            ).spec_head_index() && final(self).spec_last_index() == if i <= old(
                self,
            ).spec_last_index() {
                (i - 1) as u64
            } else {
                old(self).spec_last_index()
            },
    {
        proof {
            assert(self@.entries.len() == self.entries@.len());
        }
        if self.entries.len() == 0 {
            // nothing stored
        } else if i <= self.head_index {
            self.entries.truncate(0);
            self.head_index = 0;
            proof {
                assert(self@.entries =~= Seq::<EntryModel>::empty());
            }
        } else if i <= self.get_last_index() {
            let keep: usize = (i - self.head_index) as usize;
            self.entries.truncate(keep);
            proof {
                assert(self@.entries =~= old(self)@.entries.subrange(0, keep as int));
            }
        }
    }

    /// Compaction: discard every entry with index below `cutoff`. Cutting
    /// past the last entry leaves an empty log.
    pub fn delete_entries_before(&mut self, cutoff: u64)
        requires
            old(self).wf(),
        ensures
            final(self).wf(),
            forall|j: u64| j >= cutoff ==> final(self).spec_get(j) == old(self).spec_get(j),
            forall|j: u64| j < cutoff ==> final(self).spec_get(j) is None,
            final(self).spec_len() > 0 <==> old(self).spec_len() > 0 && cutoff <= old(
                self,
            ).spec_last_index(),
            final(self).spec_len() > 0 ==> final(self).spec_last_index() == old(
                self,
            ).spec_last_index() && final(self).spec_head_index() == if cutoff >= old(
                self,
            ).spec_head_index() {
                cutoff
            } else {
                old(self).spec_head_index()
            },
    {
        proof {
            assert(self@.entries.len() == self.entries@.len());
        }
        if self.entries.len() == 0 || cutoff <= self.head_index {
            // nothing to remove
        } else if cutoff > self.get_last_index() {
            self.entries.truncate(0);
            self.head_index = 0;
            proof {
                assert(self@.entries =~= Seq::<EntryModel>::empty());
            }
        } else {
            let drop: usize = (cutoff - self.head_index) as usize;
            let tail = self.entries.split_off(drop);
            self.entries = tail;
            self.head_index = cutoff;
            proof {
                assert(self@.entries =~= old(self)@.entries.subrange(
                    drop as int,
                    old(self)@.entries.len() as int,
                ));
            }
        }
    }

    /// The clock of the newest stored entry; the zero clock when the log
    /// is empty.
    pub open spec fn tail_clock_spec(self) -> Clock {
        if self.spec_len() == 0 {
            Clock { term: 0, index: 0 }
        } else {
            self.spec_get(self.spec_last_index()).unwrap().this_clock
        }
    }

    /// The clock of the newest stored entry; the zero clock when the log is
    /// empty.
    pub fn tail_clock(&self) -> (r: Clock)
        requires
            self.wf(),
        ensures
            r == self.tail_clock_spec(),
    {
        if self.entries.len() == 0 {
            Clock { term: 0, index: 0 }
        } else {
            let last: usize = self.entries.len() - 1;
            self.entries[last].this_clock
        }
    }
}

/// Everything an upsert of entry `e` at index `i` does to a lane log:
/// index `i` now holds `e`, every other index is untouched, and the stored
/// range has grown by at most the one position.
pub open spec fn upsert_effect(pre: LaneLog, post: LaneLog, i: u64, e: EntryModel) -> bool {
    &&& post.wf()
    &&& post.spec_get(i) == Some(e)
    &&& (forall|j: u64| j != i ==> post.spec_get(j) == pre.spec_get(j))
    &&& post.spec_head_index() == if pre.spec_len() == 0 {
        i
    } else {
        pre.spec_head_index()
    }
    &&& post.spec_last_index() == if pre.spec_len() == 0 || i > pre.spec_last_index() {
        i
    } else {
        pre.spec_last_index()
    }
}

/// Upsert semantics in one law: inserting at an index twice leaves the
/// second value there, deterministically; and when the second insert
/// carries the same content as the first, it is observably a no-op — every
/// index reads the same afterwards, and the stored range is unchanged.
pub proof fn lemma_upsert_idempotent(
    l0: LaneLog,
    l1: LaneLog,
    l2: LaneLog,
    i: u64,
    e1: EntryModel,
    e2: EntryModel,
)
    requires
        upsert_effect(l0, l1, i, e1),
        upsert_effect(l1, l2, i, e2),
    ensures
        l2.spec_get(i) == Some(e2),
        e1 == e2 ==> (forall|j: u64| l2.spec_get(j) == l1.spec_get(j))
            && l2.spec_head_index() == l1.spec_head_index() && l2.spec_last_index()
            == l1.spec_last_index(),
{
}

/// The stored indices of a well-formed lane log form the contiguous range
/// `[head, last]`: an index holds an entry exactly when it lies within that
/// range, whatever sequence of inserts, truncations and compactions built
/// the log.
pub proof fn lemma_contiguous_range(log: LaneLog)
    requires
        log.wf(),
    ensures
        forall|i: u64|
            log.spec_get(i) is Some <==> (log.spec_len() > 0 && log.spec_head_index() <= i
                && i <= log.spec_last_index()),
{
}

} // verus!
