//! Shared vocabulary of the consensus core: log positions, entries, and the
//! durable election record of a lane.

use vstd::prelude::*;

verus! {

/// A log position: `index` orders entries within a lane, `term` records the
/// leadership epoch that produced the entry at that position.
#[derive(Clone, Copy, PartialEq, Eq, Structural, Debug)]
pub struct Clock {
    pub term: u64,
    pub index: u64,
}

/// One replicated log entry. `prev_clock` names the position immediately
/// before this entry, which replication uses to validate continuity;
/// `command` is opaque application data.
#[derive(Debug)]
pub struct Entry {
    pub prev_clock: Clock,
    pub this_clock: Clock,
    pub command: Vec<u8>,
}

/// The mathematical value of an [`Entry`]: the two clocks and the command
/// bytes as a sequence.
pub struct EntryModel {
    pub prev_clock: Clock,
    pub this_clock: Clock,
    pub command: Seq<u8>,
}

impl View for Entry {
    type V = EntryModel;

    open spec fn view(&self) -> EntryModel {
        EntryModel {
            prev_clock: self.prev_clock,
            this_clock: self.this_clock,
            command: self.command@,
        }
    }
}

/// Structural invariant of an entry: it sits directly after its predecessor.
/// In particular a well-formed entry never has index 0, which is the
/// sentinel for "no entry".
pub open spec fn entry_model_wf(e: EntryModel) -> bool {
    e.this_clock.index == e.prev_clock.index + 1
}

impl Entry {
    /// An explicit deep copy; the clocks are plain values and the command
    /// bytes are duplicated.
    pub fn duplicate(&self) -> (r: Entry)
        ensures
            r@ == self@,
    {
        Entry {
            prev_clock: self.prev_clock,
            this_clock: self.this_clock,
            command: self.command.clone(),
        }
    }
}

/// The durable election record of one lane: the current term and which
/// candidate, if any, received this node's binding vote in that term.
#[derive(Debug)]
pub struct Ballot {
    pub cur_term: u64,
    pub voted_for: Option<String>,
}

impl Ballot {
    /// An explicit deep copy.
    pub fn duplicate(&self) -> (r: Ballot)
        ensures
            r == *self,
    {
        Ballot {
            cur_term: self.cur_term,
            voted_for: match &self.voted_for {
                Some(v) => Some(v.clone()),
                None => None,
            },
        }
    }

    /// The state of a lane that has never voted: term 0, no vote.
    pub fn genesis() -> (r: Ballot)
        ensures
            r.cur_term == 0,
            r.voted_for is None,
    {
        Ballot { cur_term: 0, voted_for: None }
    }
}

/// The vote a ballot records, as a sequence of characters; `None` when the
/// node has not voted in its current term.
pub open spec fn voted_for_view(b: Ballot) -> Option<Seq<char>> {
    match b.voted_for {
        Some(s) => Some(s@),
        None => None,
    }
}

} // verus!
