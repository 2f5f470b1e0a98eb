//! The transition request protocol: the values producers queue to ask for a
//! state change.

use vstd::prelude::*;

verus! {

/// How a state change is requested.
#[derive(Debug, Clone)]
pub enum DoubleStateTransition<S> {
    /// Advance to the linear successor of the current state.
    Linear,
    /// Advance to the given state.
    Arbitrary(S),
}

/// The moment of a state's life cycle at which a system runs.
pub enum DoubleStateSchedule<S> {
    /// When the state is entered.
    OnEnter(S),
    /// When the state is left.
    OnExit(S),
}

/// Pairs a life-cycle moment with the transition to request at that moment.
pub struct DoubleStateSystemConfig<S> {
    pub schedule: DoubleStateSchedule<S>,
    pub transition: DoubleStateTransition<S>,
}

/// A queued transition request.
#[derive(Debug, Clone)]
pub struct DoubleStateEvent<S>(pub DoubleStateTransition<S>);

/// The requests that a queue of events carries, in arrival order.
pub open spec fn requests_of<S>(events: Seq<DoubleStateEvent<S>>) -> Seq<DoubleStateTransition<S>> {
    Seq::new(events.len(), |i: int| events[i].0)
}

} // verus!
