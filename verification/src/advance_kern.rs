//! The kernel-apply stage of one lane.
//!
//! A long-running per-lane task waits (bounded) on the commit signal, then
//! drains: while there is a committed entry that has not reached
//! application state, it applies the next one and raises the apply signal,
//! yielding between iterations so one busy lane cannot starve the others.
//! The decision logic of each drain step lives here, verified; the hosting
//! runtime owns the outer loop, the bounded wait and the yield.

use vstd::prelude::*;

use crate::applier::DedupMap;
use crate::applier::spec_apply_outcome;
use crate::command_log::CommandLog;
use crate::event::CommitEvent;
use crate::event::EventConsumer;
use crate::event::EventProducer;
use crate::event::KernEvent;
use crate::types::Entry;
use crate::voter::Voter;

verus! {

/// The kernel-apply stage of one lane: the lane's log and cursors, its
/// election state, the commit signal it drains, and the apply signal it
/// raises.
pub struct Thread {
    pub command_log: CommandLog,
    pub voter: Voter,
    pub consumer: EventConsumer<CommitEvent>,
    pub producer: EventProducer<KernEvent>,
}

impl Thread {
    /// One unit of drain work: take the next committed-but-unapplied entry
    /// off the log, advancing the kernel cursor onto it. `None` — with no
    /// side effect — means nothing new is committed: the drain loop's
    /// termination signal, not an error.
    pub fn advance_once(&mut self) -> (r: Option<Entry>)
        requires
            old(self).command_log.wf(),
        ensures
            final(self).command_log.wf(),
            final(self).voter == old(self).voter,
            final(self).command_log.log == old(self).command_log.log,
            final(self).command_log.commit_index == old(self).command_log.commit_index,
            final(self).command_log.snapshot_base == old(self).command_log.snapshot_base,
            old(self).command_log.kern_index == old(self).command_log.commit_index ==> r is None
                && final(self).command_log == old(self).command_log,
            old(self).command_log.kern_index < old(self).command_log.commit_index ==> {
                &&& final(self).command_log.kern_index == old(self).command_log.kern_index + 1
                &&& (match r {
                    Some(e) => old(self).command_log.log.spec_get(
                        (old(self).command_log.kern_index + 1) as u64,
                    ) == Some(e@),
                    None => false,
                })
            },
    {
        self.command_log.advance_kern_process()
    }
}

/// Build the kernel-apply stage for one lane. The hosting runtime then
/// drives it: wait (bounded) on `consumer`, and while [`Thread::advance_once`]
/// yields an entry, execute its command through the lane's dedup table
/// (see [`crate::applier::apply_request`]) and raise `producer`.
pub fn new(
    command_log: CommandLog,
    voter: Voter,
    consumer: EventConsumer<CommitEvent>,
    producer: EventProducer<KernEvent>,
) -> (r: Thread)
    requires
        command_log.wf(),
    ensures
        r.command_log == command_log,
        r.voter == voter,
        r.consumer == consumer,
        r.producer == producer,
        r.command_log.wf(),
{
    Thread { command_log, voter, consumer, producer }
}

/// One fully applied drain step: take the next committed entry and answer
/// its request through the dedup table. `request_id` is the id carried by
/// the entry's command envelope and `fresh_response` a response for it;
/// when the table already holds a response for the id, `fresh_response` is
/// discarded and the recorded response answers instead. A runtime that
/// must not execute a duplicate's command at all consults
/// [`DedupMap::lookup`] first and executes only on a miss, as the hosting
/// driver does; this step then only records what was freshly produced.
/// Returns the response the waiting client gets, or `None` when nothing
/// new was committed.
pub fn drain_step(
    thread: &mut Thread,
    dedup: &mut DedupMap,
    request_id: &String,
    fresh_response: Vec<u8>,
) -> (r: Option<(Vec<u8>, bool)>)
    requires
        old(thread).command_log.wf(),
        old(dedup).wf(),
    ensures
        final(thread).command_log.wf(),
        final(dedup).wf(),
        old(thread).command_log.kern_index == old(thread).command_log.commit_index ==> r is None
            && final(thread).command_log == old(thread).command_log && *final(dedup) == *old(
            dedup,
        ),
        old(thread).command_log.kern_index < old(thread).command_log.commit_index ==> (match r {
            Some(out) => (out.0@, out.1) == spec_apply_outcome(
                *old(dedup),
                request_id@,
                fresh_response@,
            ),
            None => false,
        }),
{
    match thread.advance_once() {
        Some(_entry) => {
            let out = crate::applier::apply_request(dedup, request_id, fresh_response);
            thread.producer.push_event(KernEvent);
            Some(out)
        },
        None => None,
    }
}

} // verus!
