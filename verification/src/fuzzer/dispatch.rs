//! The dispatcher's rule: which request is issued when, so that no more
//! than the limit are in flight at once.

use crate::fuzzer::fuzzy::RequestView;
use vstd::prelude::*;

verus! {

/// What the dispatcher does next.
#[derive(Clone, Copy, Debug, PartialEq, Eq, Structural)]
pub enum Step {
    /// Issue the queued request at this index now.
    Issue(usize),
    /// Every permit is out, or nothing is left to issue while requests are
    /// still in flight: wait for one of them to complete.
    Wait,
    /// Nothing is in flight and nothing can be issued.
    Finished,
}

/// What a dispatcher holds.
pub struct FuzzerView {
    pub limit: nat,
    pub queue: Seq<RequestView>,
    pub issued: nat,
    pub completed: nat,
}

impl FuzzerView {
    /// How many requests were issued and have not completed.
    pub open spec fn in_flight(self) -> int {
        self.issued - self.completed
    }

    /// What holds of a dispatcher at every moment: requests are issued in
    /// queue order, only issued ones complete, and never more are in flight
    /// than the limit allows.
    pub open spec fn well_formed(self) -> bool {
        &&& self.completed <= self.issued <= self.queue.len()
        &&& self.in_flight() <= self.limit
    }

    /// What `next_step` decides.
    pub open spec fn decision(self) -> Step {
        if self.issued < self.queue.len() && self.in_flight() < self.limit {
            Step::Issue(self.issued as usize)
        } else if self.in_flight() > 0 {
            Step::Wait
        } else {
            Step::Finished
        }
    }

    /// The dispatcher after `next_step`: one more request is issued where
    /// that was decided, nothing changes otherwise.
    pub open spec fn stepped(self) -> FuzzerView {
        if self.decision() is Issue {
            FuzzerView { issued: self.issued + 1, ..self }
        } else {
            self
        }
    }
}

/// What happens to a dispatcher: it is asked for its next step, or it is told
/// that a request has completed.
pub enum Event {
    Step,
    Completion,
}

impl FuzzerView {
    /// The dispatcher after `complete`: one request fewer is in flight, if
    /// one was.
    pub open spec fn completed_one(self) -> FuzzerView {
        if self.in_flight() > 0 {
            FuzzerView { completed: self.completed + 1, ..self }
        } else {
            self
        }
    }

    /// The dispatcher after the events, in their order.
    pub open spec fn after(self, events: Seq<Event>) -> FuzzerView
        decreases events.len(),
    {
        if events.len() == 0 {
            self
        } else {
            let before = self.after(events.drop_last());
            match events.last() {
                Event::Step => before.stepped(),
                Event::Completion => before.completed_one(),
            }
        }
    }

    /// The indices that were handed out for issuing during the events, in
    /// the order in which they were handed out.
    pub open spec fn issued_during(self, events: Seq<Event>) -> Seq<usize>
        decreases events.len(),
    {
        if events.len() == 0 {
            Seq::empty()
        } else {
            let before = self.after(events.drop_last());
            let earlier = self.issued_during(events.drop_last());
            match (events.last(), before.decision()) {
                (Event::Step, Step::Issue(index)) => earlier.push(index),
                _ => earlier,
            }
        }
    }
}

/// Whatever happens to a dispatcher, in whatever order, there are never more
/// requests in flight than its limit, and limit and queue stay as they are.
pub proof fn lemma_never_over_the_limit(start: FuzzerView, events: Seq<Event>)
    requires
        start.well_formed(),
    ensures
        start.after(events).well_formed(),
        start.after(events).in_flight() <= start.limit,
        start.after(events).limit == start.limit,
        start.after(events).queue == start.queue,
    decreases events.len(),
{
    if events.len() > 0 {
        lemma_never_over_the_limit(start, events.drop_last());
    }
}

/// The queued requests are handed out for issuing one by one in queue order:
/// none twice, and none is passed over.
pub proof fn lemma_issued_in_queue_order(start: FuzzerView, events: Seq<Event>)
    requires
        start.well_formed(),
        start.queue.len() <= usize::MAX,
    ensures
        start.issued <= start.after(events).issued <= start.queue.len(),
        start.issued_during(events) == Seq::new(
            (start.after(events).issued - start.issued) as nat,
            |i: int| (start.issued + i) as usize,
        ),
    decreases events.len(),
{
    if events.len() > 0 {
        let earlier = events.drop_last();
        lemma_issued_in_queue_order(start, earlier);
        lemma_never_over_the_limit(start, earlier);
        let before = start.after(earlier);
        assert(start.issued_during(events) =~= Seq::new(
            (start.after(events).issued - start.issued) as nat,
            |i: int| (start.issued + i) as usize,
        ));
    } else {
        assert(start.issued_during(events) =~= Seq::new(0, |i: int| (start.issued + i) as usize));
    }
}

/// Where a dispatcher that lets at least one request through says that it
/// has finished, every queued request was issued and has completed.
pub proof fn lemma_finished_means_all_done(state: FuzzerView)
    requires
        state.well_formed(),
        state.limit >= 1,
        state.decision() is Finished,
    ensures
        state.issued == state.queue.len(),
        state.completed == state.queue.len(),
        state.in_flight() == 0,
{
}

/// While requests are queued or in flight, a dispatcher that lets at least
/// one request through has something to do: it issues or it waits.
pub proof fn lemma_unfinished_goes_on(state: FuzzerView)
    requires
        state.well_formed(),
        state.limit >= 1,
        state.completed < state.queue.len(),
    ensures
        !(state.decision() is Finished),
        state.decision() is Wait ==> state.in_flight() > 0,
{
}

} // verus!
