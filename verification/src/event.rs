//! Coalesced wake signals between pipeline stages.
//!
//! A producer raises a signal when new work exists; a consumer drains all
//! available work per wake. The slot is single-valued: any number of
//! signals raised before the consumer looks collapse into one pending
//! event, and consuming takes whatever is pending and leaves the slot
//! empty. This is a scheduling contract, not just an optimization — a
//! consumer that drains everything available per wake can never skip work,
//! however many producer signals coalesced.

use vstd::prelude::*;

verus! {

/// The commit index of a lane moved: the applier has work.
#[derive(Clone, Copy, PartialEq, Eq, Structural, Debug)]
pub struct CommitEvent;

/// The applier produced a result: a waiting write may complete.
#[derive(Clone, Copy, PartialEq, Eq, Structural, Debug)]
pub struct KernEvent;

/// A single-slot, coalescing event channel. The producing stage holds
/// [`EventProducer`], the consuming stage [`EventConsumer`]; both are thin
/// handles onto a slot like this one, which the hosting runtime shares
/// between them.
pub struct EventSlot<E> {
    pub pending: Option<E>,
}

impl<E> EventSlot<E> {
    /// Whether a signal is pending.
    pub open spec fn spec_pending(self) -> bool {
        self.pending is Some
    }

    /// An empty slot: no signal pending.
    pub fn new() -> (r: EventSlot<E>)
        ensures
            !r.spec_pending(),
    {
        EventSlot { pending: None }
    }

    /// Raise the signal. Raising it again before the consumer wakes
    /// coalesces: one pending event remains pending.
    pub fn push_event(&mut self, event: E)
        ensures
            final(self).spec_pending(),
    {
        self.pending = Some(event);
    }

    /// Take the pending signal, if any, leaving the slot empty. The
    /// consumer must then drain all currently available work, since any
    /// number of raises may stand behind this one event.
    pub fn consume_event(&mut self) -> (r: Option<E>)
        ensures
            !final(self).spec_pending(),
            r is Some <==> old(self).spec_pending(),
    {
        self.pending.take()
    }
}

/// The producing half of an event channel.
pub struct EventProducer<E> {
    pub slot: EventSlot<E>,
}

impl<E> EventProducer<E> {
    /// A producer over an empty slot.
    pub fn new() -> (r: EventProducer<E>)
        ensures
            !r.slot.spec_pending(),
    {
        EventProducer { slot: EventSlot::new() }
    }

    /// Raise the signal toward the consumer.
    pub fn push_event(&mut self, event: E)
        ensures
            final(self).slot.spec_pending(),
    {
        self.slot.push_event(event);
    }
}

/// The consuming half of an event channel.
pub struct EventConsumer<E> {
    pub slot: EventSlot<E>,
}

impl<E> EventConsumer<E> {
    /// A consumer over an empty slot.
    pub fn new() -> (r: EventConsumer<E>)
        ensures
            !r.slot.spec_pending(),
    {
        EventConsumer { slot: EventSlot::new() }
    }

    /// Take the pending signal, if any. The caller drains all available
    /// work afterwards, whatever this returns: the slot may have coalesced
    /// many raises, and a bounded wait that timed out consumes nothing yet
    /// work may still exist.
    pub fn consume_events(&mut self) -> (r: Option<E>)
        ensures
            !final(self).slot.spec_pending(),
            r is Some <==> old(self).slot.spec_pending(),
    {
        self.slot.consume_event()
    }
}

} // verus!
