//! The shared values as a state, and what the events of a run do to it.
//!
//! The counter and the run flag are atomic, so every run is some sequence of
//! single events: a worker has finished a duplication and counted it (one
//! round of `worker::processor_rounds`), or the interrupt handler was invoked
//! (one call of `worker::request_stop`). The laws below hold of every such
//! sequence, whatever the number of workers and however their steps
//! interleave.

use vstd::prelude::*;

verus! {

/// The counter and the run flag at one moment.
pub struct SharedState {
    pub operations: nat,
    pub running: bool,
}

/// One atomic step of a run.
pub enum Event {
    /// A worker has finished one duplication and added one to the counter.
    Duplicated,
    /// The interrupt handler was invoked.
    Interrupted,
}

/// The state at startup: nothing counted, the run flag up.
pub open spec fn initial() -> SharedState {
    SharedState { operations: 0, running: true }
}

/// The state after one event.
pub open spec fn after(state: SharedState, event: Event) -> SharedState {
    match event {
        Event::Duplicated => SharedState { operations: state.operations + 1, ..state },
        Event::Interrupted => SharedState { running: false, ..state },
    }
}

/// The state after a sequence of events, the first of them first.
pub open spec fn after_all(state: SharedState, events: Seq<Event>) -> SharedState
    decreases events.len(),
{
    if events.len() == 0 {
        state
    } else {
        after(after_all(state, events.drop_last()), events.last())
    }
}

/// The number of duplications among `events`.
pub open spec fn duplications(events: Seq<Event>) -> nat
    decreases events.len(),
{
    if events.len() == 0 {
        0
    } else if events.last() is Duplicated {
        duplications(events.drop_last()) + 1
    } else {
        duplications(events.drop_last())
    }
}

/// Whether the interrupt handler is invoked among `events`.
pub open spec fn interrupted(events: Seq<Event>) -> bool {
    exists|i: int| 0 <= i < events.len() && events[i] is Interrupted
}

/// Every finished duplication raises the counter by exactly one, and nothing
/// else moves it: after any events it has grown by the number of duplications
/// among them.
pub proof fn lemma_counter_counts_duplications(state: SharedState, events: Seq<Event>)
    ensures
        after_all(state, events).operations == state.operations + duplications(events),
    decreases events.len(),
{
    if events.len() > 0 {
        lemma_counter_counts_duplications(state, events.drop_last());
    }
}

/// The counter never decreases: whatever happens after `earlier`, it is at
/// least what it was, and it is greater once one more duplication is done.
pub proof fn lemma_counter_is_monotonic(state: SharedState, earlier: Seq<Event>, later: Seq<Event>)
    ensures
        after_all(state, earlier).operations <= after_all(state, earlier + later).operations,
        duplications(later) > 0 ==> after_all(state, earlier).operations < after_all(
            state,
            earlier + later,
        ).operations,
    decreases later.len(),
{
    if later.len() == 0 {
        assert(earlier + later =~= earlier);
    } else {
        lemma_counter_is_monotonic(state, earlier, later.drop_last());
        assert((earlier + later).drop_last() =~= earlier + later.drop_last());
    }
}

/// Invoking the interrupt handler again changes nothing: the run flag stays
/// down and the counter is untouched.
pub proof fn lemma_interrupt_is_idempotent(state: SharedState)
    ensures
        !after(state, Event::Interrupted).running,
        after(state, Event::Interrupted).operations == state.operations,
        after(after(state, Event::Interrupted), Event::Interrupted) == after(
            state,
            Event::Interrupted,
        ),
{
}

/// Once the run flag is down it stays down, whatever follows.
pub proof fn lemma_stopped_stays_stopped(state: SharedState, events: Seq<Event>)
    requires
        !state.running,
    ensures
        !after_all(state, events).running,
    decreases events.len(),
{
    if events.len() > 0 {
        lemma_stopped_stays_stopped(state, events.drop_last());
    }
}

/// The run flag is lowered by the interrupt handler and by nothing else:
/// after any events it is up exactly if it was up and no interrupt came.
pub proof fn lemma_only_interrupt_stops(state: SharedState, events: Seq<Event>)
    ensures
        after_all(state, events).running <==> state.running && !interrupted(events),
    decreases events.len(),
{
    if events.len() > 0 {
        let front = events.drop_last();
        lemma_only_interrupt_stops(state, front);
        if interrupted(events) {
            let i = choose|i: int| 0 <= i < events.len() && events[i] is Interrupted;
            if i < front.len() {
                assert(front[i] is Interrupted);
            }
        }
        if interrupted(front) {
            let i = choose|i: int| 0 <= i < front.len() && front[i] is Interrupted;
            assert(events[i] is Interrupted);
        }
    }
}

} // verus!
