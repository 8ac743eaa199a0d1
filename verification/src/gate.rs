//! Counting admission gate bounding how many fetches may be in flight at once.
//!
//! It stands for the admission control that the whole running service shares: a fixed
//! capacity is chosen once, `try_acquire` admits a caller only while the count
//! of holders is below that capacity, and `release` returns one slot. The
//! bound `in_flight <= capacity` is an invariant of the type, and
//! `lemma_gate_bounded` extends it to every prefix of any well-formed
//! acquire/release trace.

use vstd::prelude::*;

verus! {

/// One step of a gate's history: a grant of a slot or the return of one.
#[derive(Clone, Copy, PartialEq, Eq, Structural, Debug)]
pub enum GateEvent {
    Acquire,
    Release,
}

/// Number of slots held after replaying `events` from an idle gate.
pub open spec fn in_flight_after(events: Seq<GateEvent>) -> int
    decreases events.len(),
{
    if events.len() == 0 {
        0
    } else {
        in_flight_after(events.drop_last()) + match events.last() {
            GateEvent::Acquire => 1int,
            GateEvent::Release => -1int,
        }
    }
}

/// A trace is admissible for capacity `cap` when every grant happened while a
/// slot was free and every return happened while a slot was held.
pub open spec fn admissible_trace(events: Seq<GateEvent>, cap: int) -> bool {
    forall|k: int|
        0 <= k < events.len() ==> match #[trigger] events[k] {
            GateEvent::Acquire => in_flight_after(events.subrange(0, k)) < cap,
            GateEvent::Release => in_flight_after(events.subrange(0, k)) > 0,
        }
}

/// At no instant of an admissible trace does the number of held slots leave
/// the band `[0, cap]`: the concurrency bound holds at every prefix.
pub proof fn lemma_gate_bounded(events: Seq<GateEvent>, cap: int, k: int)
    requires
        cap >= 0,
        admissible_trace(events, cap),
        0 <= k <= events.len(),
    ensures
        0 <= in_flight_after(events.subrange(0, k)) <= cap,
    decreases k,
{
    if k == 0 {
        assert(events.subrange(0, 0) =~= Seq::<GateEvent>::empty());
    } else {
        let pre = events.subrange(0, k - 1);
        let cur = events.subrange(0, k);
        assert(cur.drop_last() =~= pre);
        assert(cur.last() == events[k - 1]);
        lemma_gate_bounded(events, cap, k - 1);
        assert(match events[k - 1] {
            GateEvent::Acquire => in_flight_after(pre) < cap,
            GateEvent::Release => in_flight_after(pre) > 0,
        });
    }
}

/// The admission gate itself: a capacity fixed at construction and the count
/// of currently granted, not yet returned, slots.
pub struct Gate {
    capacity: usize,
    in_flight: usize,
}

impl Gate {
    /// No more slots are held at once than the capacity allows.
    pub closed spec fn wf(self) -> bool {
        self.in_flight <= self.capacity
    }

    pub closed spec fn spec_capacity(self) -> usize {
        self.capacity
    }

    pub closed spec fn spec_in_flight(self) -> usize {
        self.in_flight
    }

    /// A fresh gate with the given capacity and no slot held.
    pub fn new(capacity: usize) -> (g: Gate)
        ensures
            g.wf(),
            g.spec_capacity() == capacity,
            g.spec_in_flight() == 0,
    {
        Gate { capacity, in_flight: 0 }
    }

    pub fn capacity(&self) -> (c: usize)
        ensures
            c == self.spec_capacity(),
    {
        self.capacity
    }

    pub fn in_flight(&self) -> (n: usize)
        ensures
            n == self.spec_in_flight(),
    {
        self.in_flight
    }

    /// Admit one caller if a slot is free. Grants exactly when the count of
    /// holders was below capacity, and never pushes the count above it.
    pub fn try_acquire(&mut self) -> (granted: bool)
        requires
            old(self).wf(),
        ensures
            final(self).wf(),
            final(self).spec_capacity() == old(self).spec_capacity(),
            granted == (old(self).spec_in_flight() < old(self).spec_capacity()),
            granted ==> final(self).spec_in_flight() == old(self).spec_in_flight() + 1,
            !granted ==> final(self).spec_in_flight() == old(self).spec_in_flight(),
    {
        if self.in_flight < self.capacity {
            self.in_flight = self.in_flight + 1;
            true
        } else {
            false
        }
    }

    /// Return one slot. Callers pair each release with exactly one earlier
    /// grant, so a slot is held when this is called.
    pub fn release(&mut self)
        requires
            old(self).wf(),
            old(self).spec_in_flight() > 0,
        ensures
            final(self).wf(),
            final(self).spec_capacity() == old(self).spec_capacity(),
            final(self).spec_in_flight() == old(self).spec_in_flight() - 1,
    {
        self.in_flight = self.in_flight - 1;
    }
}

} // verus!
