//! The resolution dispatcher: one scheduling pass over the queued requests.
//!
//! All requests of a pass are resolved against the state that is current when
//! the pass begins. The host's pending slot holds one state, so of several
//! requests the last one decides.

use crate::topology::{ResolveError, Topology};
use crate::transition::{requests_of, DoubleStateEvent, DoubleStateTransition};
use vstd::prelude::*;

verus! {

/// What a pass over `requests`, processed in arrival order, makes of the
/// pending slot: every request overwrites the slot with the state it resolves
/// to; the first request that does not resolve ends the pass with its fault.
pub open spec fn pass_result(
    topology: Topology,
    current: usize,
    requests: Seq<DoubleStateTransition<usize>>,
    pending: Option<usize>,
) -> Result<Option<usize>, ResolveError>
    decreases requests.len(),
{
    if requests.len() == 0 {
        Ok(pending)
    } else {
        match pass_result(topology, current, requests.drop_last(), pending) {
            Err(fault) => Err(fault),
            Ok(_) => match topology.spec_resolve(current, requests.last()) {
                Ok(next) => Ok(Some(next)),
                Err(fault) => Err(fault),
            },
        }
    }
}

/// The request at `first` is the first of `requests` that does not resolve.
pub open spec fn first_fault_at(
    topology: Topology,
    current: usize,
    requests: Seq<DoubleStateTransition<usize>>,
    first: int,
) -> bool {
    &&& 0 <= first < requests.len()
    &&& topology.spec_resolve(current, requests[first]) is Err
    &&& forall|i: int|
        0 <= i < first ==> (#[trigger] topology.spec_resolve(current, requests[i])) is Ok
}

/// A fault ends the pass: whatever is queued behind the faulting request does
/// not change the result.
pub proof fn lemma_fault_ends_pass(
    topology: Topology,
    current: usize,
    requests: Seq<DoubleStateTransition<usize>>,
    pending: Option<usize>,
    processed: int,
)
    requires
        0 <= processed <= requests.len(),
        pass_result(topology, current, requests.take(processed), pending) is Err,
    ensures
        pass_result(topology, current, requests, pending) == pass_result(
            topology,
            current,
            requests.take(processed),
            pending,
        ),
    decreases requests.len(),
{
    if processed == requests.len() {
        assert(requests.take(processed) =~= requests);
    } else {
        assert(requests.drop_last().take(processed) =~= requests.take(processed));
        lemma_fault_ends_pass(topology, current, requests.drop_last(), pending, processed);
    }
}

/// Runs one pass of the dispatcher.
///
/// `state_event` holds the requests queued since the last pass, in arrival
/// order, `state` the state that is current as the pass begins and
/// `next_state` the host's pending slot. Every request is resolved against
/// `state`. When all resolve, the slot is written once, with the state the
/// last request resolved to; an empty queue leaves the slot alone. When a
/// request does not resolve, the pass stops at the first such request, returns
/// its fault and leaves the slot alone.
pub fn watch_state_event(
    topology: &Topology,
    state_event: &Vec<DoubleStateEvent<usize>>,
    next_state: &mut Option<usize>,
    state: usize,
) -> (r: Result<(), ResolveError>)
    ensures
        pass_result(*topology, state, requests_of(state_event@), *old(next_state)) matches Ok(
            pending,
        ) ==> r is Ok && *final(next_state) == pending,
        pass_result(*topology, state, requests_of(state_event@), *old(next_state)) matches Err(
            fault,
        ) ==> r == Err::<(), ResolveError>(fault) && *final(next_state) == *old(next_state),
        r is Ok <==> forall|i: int|
            0 <= i < state_event@.len() ==> (#[trigger] topology.spec_resolve(
                state,
                state_event@[i].0,
            )) is Ok,
        r is Ok && state_event@.len() > 0 ==> *final(next_state) == Some(
            topology.spec_resolve(state, state_event@.last().0)->Ok_0,
        ) && topology.is_variant(final(next_state)->Some_0),
        r matches Err(fault) ==> exists|first: int|
            #[trigger] first_fault_at(*topology, state, requests_of(state_event@), first)
                && topology.spec_resolve(state, state_event@[first].0) == Err::<
                usize,
                ResolveError,
            >(fault),
        state_event@.len() == 0 ==> r is Ok && *final(next_state) == *old(next_state),
{
    let ghost requests = requests_of(state_event@);
    let ghost before = *next_state;
    let mut pending: Option<usize> = *next_state;
    let mut processed: usize = 0;
    while processed < state_event.len()
        invariant
            processed <= state_event@.len(),
            requests == requests_of(state_event@),
            *next_state == before,
            before == *old(next_state),
            pass_result(*topology, state, requests.take(processed as int), before) == Ok::<
                Option<usize>,
                ResolveError,
            >(pending),
            processed > 0 ==> (pending matches Some(next) && topology.is_variant(next)),
            forall|i: int|
                0 <= i < processed ==> (#[trigger] topology.spec_resolve(
                    state,
                    state_event@[i].0,
                )) is Ok,
        decreases state_event@.len() - processed,
    {
        let ghost seen = requests.take(processed as int + 1);
        assert(seen.drop_last() =~= requests.take(processed as int));
        assert(seen.last() == state_event@[processed as int].0);
        match topology.resolve(state, &state_event[processed].0) {
            Ok(next) => {
                pending = Some(next);
            },
            Err(fault) => {
                proof {
                    lemma_fault_ends_pass(*topology, state, requests, before, processed as int + 1);
                    assert forall|i: int| 0 <= i < processed implies (
                    #[trigger] topology.spec_resolve(state, requests[i])) is Ok by {
                        assert(requests[i] == state_event@[i].0);
                    }
                    assert(first_fault_at(*topology, state, requests, processed as int));
                }
                return Err(fault);
            },
        }
        processed += 1;
    }
    assert(requests.take(processed as int) =~= requests);
    if processed > 0 {
        *next_state = pending;
    }
    Ok(())
}

} // verus!
