//! The bound on how many compilers run at once, as a law.
//!
//! Compilers run under permits, of which there is a fixed number. The
//! permits themselves are a semaphore in the hands of the caller, who does
//! the waiting. What is stated here is what the bound rests on: the
//! accounting of any gate that hands out a permit only while one is free
//! and lets the others wait in line. Whatever is asked of such a gate, in
//! whatever order, it never has more permits out than it has.

use vstd::prelude::*;

verus! {

/// A gate as a value: how many permits there are, how many are held, and
/// the tickets of the callers waiting, longest wait first.
pub struct GateModel {
    pub capacity: nat,
    pub running: nat,
    pub waiting: Seq<u64>,
}

/// What is done to a gate.
pub enum GateEvent {
    /// The caller with this ticket asks for a permit.
    Request(u64),
    /// A holder gives its permit back.
    Release,
    /// The caller with this ticket stops waiting.
    Cancel(u64),
}

/// The index of the first `ticket` in the line, or the length of the line
/// where it is not in it.
pub open spec fn place_of(line: Seq<u64>, ticket: u64) -> int
    decreases line.len(),
{
    if line.len() == 0 {
        0
    } else if line[0] == ticket {
        0
    } else {
        1 + place_of(line.drop_first(), ticket)
    }
}

impl GateModel {
    /// No more permits are held than there are, and nobody waits while a
    /// permit is free.
    pub open spec fn wf(self) -> bool {
        &&& self.running <= self.capacity
        &&& self.waiting.len() > 0 ==> self.running == self.capacity
    }

    pub open spec fn fresh(capacity: nat) -> GateModel {
        GateModel { capacity, running: 0, waiting: Seq::empty() }
    }

    pub open spec fn requested(self, ticket: u64) -> GateModel {
        if self.running < self.capacity {
            GateModel { running: self.running + 1, ..self }
        } else {
            GateModel { waiting: self.waiting.push(ticket), ..self }
        }
    }

    /// A release with no permit held changes nothing.
    pub open spec fn released(self) -> GateModel {
        if self.running == 0 {
            self
        } else if self.waiting.len() > 0 {
            GateModel { waiting: self.waiting.drop_first(), ..self }
        } else {
            GateModel { running: (self.running - 1) as nat, ..self }
        }
    }

    pub open spec fn cancelled(self, ticket: u64) -> GateModel {
        let place = place_of(self.waiting, ticket);
        if place < self.waiting.len() {
            GateModel { waiting: self.waiting.remove(place), ..self }
        } else {
            self
        }
    }

    pub open spec fn after(self, event: GateEvent) -> GateModel {
        match event {
            GateEvent::Request(ticket) => self.requested(ticket),
            GateEvent::Release => self.released(),
            GateEvent::Cancel(ticket) => self.cancelled(ticket),
        }
    }

    /// A gate after a series of events, taken in their order.
    pub open spec fn after_all(self, events: Seq<GateEvent>) -> GateModel
        decreases events.len(),
    {
        if events.len() == 0 {
            self
        } else {
            self.after_all(events.drop_last()).after(events.last())
        }
    }
}

/// The place of a ticket is within the line or just behind it.
pub proof fn lemma_place_in_line(line: Seq<u64>, ticket: u64)
    ensures
        0 <= place_of(line, ticket) <= line.len(),
    decreases line.len(),
{
    if line.len() > 0 && line[0] != ticket {
        lemma_place_in_line(line.drop_first(), ticket);
    }
}

/// No event lets a gate hold more permits than it has, or lets a caller
/// wait while a permit is free.
pub proof fn lemma_event_keeps_bound(gate: GateModel, event: GateEvent)
    requires
        gate.wf(),
    ensures
        gate.after(event).wf(),
        gate.after(event).capacity == gate.capacity,
{
    match event {
        GateEvent::Cancel(ticket) => {
            lemma_place_in_line(gate.waiting, ticket);
        },
        _ => {},
    }
}

/// Whatever is asked of a gate with `capacity` permits, in whatever order,
/// never more than `capacity` permits are held at once.
pub proof fn lemma_never_over_capacity(capacity: nat, events: Seq<GateEvent>)
    ensures
        GateModel::fresh(capacity).after_all(events).wf(),
        GateModel::fresh(capacity).after_all(events).capacity == capacity,
        GateModel::fresh(capacity).after_all(events).running <= capacity,
    decreases events.len(),
{
    if events.len() > 0 {
        lemma_never_over_capacity(capacity, events.drop_last());
        lemma_event_keeps_bound(
            GateModel::fresh(capacity).after_all(events.drop_last()),
            events.last(),
        );
    }
}

/// A permit that is given back while callers wait is not set free: it is
/// held on by the caller at the head of the line.
pub proof fn lemma_release_hands_over(gate: GateModel)
    requires
        gate.wf(),
        gate.running > 0,
        gate.waiting.len() > 0,
    ensures
        gate.released().running == gate.running,
        gate.released().waiting == gate.waiting.drop_first(),
{
}

} // verus!
