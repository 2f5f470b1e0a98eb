//! What holds of every topology and of every pass, stated over the
//! mathematical models and proved once and for all.

use crate::dispatch::{first_fault_at, lemma_fault_ends_pass, pass_result};
use crate::topology::{
    defect, first_undefined, is_unique_default, lemma_defect_at_first_undefined,
    lemma_first_undefined_exists, lemma_first_undefined_unique,
    lemma_several_defaults_none_unique, linear_defined, no_default, several_defaults,
    successors_defined, variant_defined, well_formed, ResolveError, Topology, TopologyError,
    VariantSpec,
};
use crate::transition::DoubleStateTransition;
use vstd::prelude::*;

verus! {

/// Linear resolution is total on the non-terminal variants: from a variant
/// that declares a linear successor, a linear transition resolves, and it
/// resolves to a variant of the same state type.
pub proof fn law_linear_total(topology: Topology, current: usize)
    requires
        topology.wf(),
        topology.is_variant(current),
        topology@[current as int].linear_successor is Some,
    ensures
        topology.spec_resolve_linear(current) matches Ok(next) && topology.is_variant(next),
{
    assert(variant_defined(topology@, current as int));
}

/// Exactly one variant is the default, and it is the variant in which a fresh
/// state machine starts.
pub proof fn law_default_unique(topology: Topology)
    requires
        topology.wf(),
    ensures
        topology.is_variant(topology.spec_default_state()),
        topology@[topology.spec_default_state() as int].is_default,
        forall|v: usize|
            topology.is_variant(v) && (#[trigger] topology@[v as int]).is_default ==> v
                == topology.spec_default_state(),
{
}

/// Exactly the well-formed declaration lists are without defect, and every
/// other list has exactly one of four defects: a first variant with an
/// undefined linear successor, a first variant with an undefined arbitrary
/// successor, no default, several defaults.
pub proof fn law_one_defect(variants: Seq<VariantSpec>)
    ensures
        defect(variants) is None <==> well_formed(variants),
        successors_defined(variants) <==> !exists|v: usize| first_undefined(variants, v as int),
        forall|v: usize|
            defect(variants) == Some(TopologyError::UndefinedLinearSuccessor(v)) <==> (
            #[trigger] first_undefined(variants, v as int)) && !linear_defined(
                variants[v as int].linear_successor,
                variants.len(),
            ),
        forall|v: usize|
            defect(variants) == Some(TopologyError::UndefinedArbitrarySuccessor(v)) <==> (
            #[trigger] first_undefined(variants, v as int)) && linear_defined(
                variants[v as int].linear_successor,
                variants.len(),
            ),
        defect(variants) == Some(TopologyError::NoDefault) <==> successors_defined(variants)
            && no_default(variants),
        defect(variants) == Some(TopologyError::MultipleDefaults) <==> successors_defined(
            variants,
        ) && several_defaults(variants),
{
    if exists|v: usize| first_undefined(variants, v as int) {
        let first = choose|v: usize| first_undefined(variants, v as int);
        lemma_defect_at_first_undefined(variants, first);
        assert forall|v: usize| first_undefined(variants, v as int) implies v == first by {
            lemma_first_undefined_unique(variants, v as int, first as int);
        }
    }
    if !successors_defined(variants) {
        let bad = choose|v: int| 0 <= v < variants.len() && !variant_defined(variants, v);
        lemma_first_undefined_exists(variants, bad);
        let first = choose|v: int| 0 <= v <= bad && first_undefined(variants, v);
        assert(first_undefined(variants, first as usize as int));
    }
    if several_defaults(variants) {
        lemma_several_defaults_none_unique(variants);
        let (d, e) = choose|d: int, e: int|
            0 <= d < e < variants.len() && (#[trigger] variants[d]).is_default
                && (#[trigger] variants[e]).is_default;
        assert(variants[d].is_default);
    }
    if successors_defined(variants) && !no_default(variants) && !several_defaults(variants) {
        let d = choose|v: int| 0 <= v < variants.len() && (#[trigger] variants[v]).is_default;
        assert forall|v: int|
            0 <= v < variants.len() && (#[trigger] variants[v]).is_default implies v == d by {
            if v < d {
                assert(variants[v].is_default && variants[d].is_default);
            } else if d < v {
                assert(variants[d].is_default && variants[v].is_default);
            }
        }
        assert(is_unique_default(variants, d));
    }
    if well_formed(variants) {
        let d = choose|d: int| is_unique_default(variants, d);
        assert(variants[d].is_default);
    }
}

/// Linear resolution has no hidden state: however often a linear transition
/// is requested within a pass, every request resolves to the one linear
/// successor of the current state, and so does the pass.
pub proof fn law_linear_deterministic(
    topology: Topology,
    current: usize,
    requests: Seq<DoubleStateTransition<usize>>,
    pending: Option<usize>,
)
    requires
        requests.len() > 0,
        forall|i: int| 0 <= i < requests.len() ==> requests[i] is Linear,
    ensures
        forall|i: int|
            0 <= i < requests.len() ==> #[trigger] topology.spec_resolve(current, requests[i])
                == topology.spec_resolve_linear(current),
        topology.spec_resolve_linear(current) matches Ok(next) ==> pass_result(
            topology,
            current,
            requests,
            pending,
        ) == Ok::<Option<usize>, ResolveError>(Some(next)),
        topology.spec_resolve_linear(current) matches Err(fault) ==> pass_result(
            topology,
            current,
            requests,
            pending,
        ) == Err::<Option<usize>, ResolveError>(fault),
    decreases requests.len(),
{
    let front = requests.drop_last();
    assert(requests.last() is Linear);
    if front.len() > 0 {
        law_linear_deterministic(topology, current, front, pending);
    } else {
        assert(pass_result(topology, current, front, pending) is Ok);
    }
}

/// An arbitrary transition between two variants resolves to the requested
/// variant, whether the current state declares it as a successor or not.
pub proof fn law_arbitrary_accepts_any_variant(
    topology: Topology,
    current: usize,
    requested: usize,
)
    requires
        topology.is_variant(current),
        topology.is_variant(requested),
    ensures
        topology.declares_arbitrary(current, requested) ==> topology.spec_resolve_arbitrary(
            current,
            requested,
        ) == Ok::<usize, ResolveError>(requested),
        !topology.declares_arbitrary(current, requested) ==> topology.spec_resolve_arbitrary(
            current,
            requested,
        ) == Ok::<usize, ResolveError>(requested),
{
}

/// A pass succeeds exactly when every queued request resolves.
pub proof fn law_pass_succeeds_iff_all_resolve(
    topology: Topology,
    current: usize,
    requests: Seq<DoubleStateTransition<usize>>,
    pending: Option<usize>,
)
    ensures
        pass_result(topology, current, requests, pending) is Ok <==> forall|i: int|
            0 <= i < requests.len() ==> (#[trigger] topology.spec_resolve(
                current,
                requests[i],
            )) is Ok,
    decreases requests.len(),
{
    if requests.len() > 0 {
        let front = requests.drop_last();
        law_pass_succeeds_iff_all_resolve(topology, current, front, pending);
        if pass_result(topology, current, requests, pending) is Ok {
            assert forall|i: int| 0 <= i < requests.len() implies (#[trigger] topology.spec_resolve(
                current,
                requests[i],
            )) is Ok by {
                if i < front.len() {
                    assert(front[i] == requests[i]);
                }
            }
        }
        if forall|i: int|
            0 <= i < requests.len() ==> (#[trigger] topology.spec_resolve(
                current,
                requests[i],
            )) is Ok {
            assert forall|i: int| 0 <= i < front.len() implies (#[trigger] topology.spec_resolve(
                current,
                front[i],
            )) is Ok by {
                assert(front[i] == requests[i]);
            }
            assert(topology.spec_resolve(current, requests[requests.len() - 1]) is Ok);
        }
    }
}

/// A pass that fails reports the fault of the first request that does not
/// resolve.
pub proof fn law_first_fault_is_reported(
    topology: Topology,
    current: usize,
    requests: Seq<DoubleStateTransition<usize>>,
    pending: Option<usize>,
    first: int,
)
    requires
        first_fault_at(topology, current, requests, first),
    ensures
        pass_result(topology, current, requests, pending) == Err::<Option<usize>, ResolveError>(
            topology.spec_resolve(current, requests[first])->Err_0,
        ),
{
    let upto = requests.take(first + 1);
    let before = requests.take(first);
    assert(upto.drop_last() =~= before);
    assert(upto.last() == requests[first]);
    assert forall|i: int| 0 <= i < before.len() implies (#[trigger] topology.spec_resolve(
        current,
        before[i],
    )) is Ok by {
        assert(before[i] == requests[i]);
    }
    law_pass_succeeds_iff_all_resolve(topology, current, before, pending);
    lemma_fault_ends_pass(topology, current, requests, pending, first + 1);
}

/// An empty pass is a no-op: with nothing queued the pending slot keeps what
/// it held.
pub proof fn law_empty_pass_is_noop(topology: Topology, current: usize, pending: Option<usize>)
    ensures
        pass_result(topology, current, Seq::empty(), pending) == Ok::<
            Option<usize>,
            ResolveError,
        >(pending),
{
}

/// The last write wins: after a pass that succeeds on a non-empty queue the
/// pending slot holds what the last request resolved to, whatever came before
/// it and whatever the slot held.
pub proof fn law_last_write_wins(
    topology: Topology,
    current: usize,
    requests: Seq<DoubleStateTransition<usize>>,
    pending: Option<usize>,
)
    requires
        requests.len() > 0,
        pass_result(topology, current, requests, pending) is Ok,
    ensures
        topology.spec_resolve(current, requests.last()) matches Ok(next) && pass_result(
            topology,
            current,
            requests,
            pending,
        ) == Ok::<Option<usize>, ResolveError>(Some(next)),
{
}

/// The last of three wins: an arbitrary request, a linear one and a second
/// arbitrary one, queued in this order while a state with a linear successor
/// is current, leave in the pending slot what the second arbitrary request
/// resolves to. The first two are resolved and overwritten.
pub proof fn law_last_of_three_wins(
    topology: Topology,
    current: usize,
    first: usize,
    last: usize,
    pending: Option<usize>,
)
    requires
        topology.spec_resolve_linear(current) is Ok,
        topology.is_variant(first),
        topology.is_variant(last),
    ensures
        topology.spec_resolve_arbitrary(current, last) matches Ok(next) && pass_result(
            topology,
            current,
            seq![
                DoubleStateTransition::Arbitrary(first),
                DoubleStateTransition::Linear,
                DoubleStateTransition::Arbitrary(last),
            ],
            pending,
        ) == Ok::<Option<usize>, ResolveError>(Some(next)),
{
    let requests = seq![
        DoubleStateTransition::Arbitrary(first),
        DoubleStateTransition::Linear,
        DoubleStateTransition::Arbitrary(last),
    ];
    assert(requests[0] == DoubleStateTransition::Arbitrary(first));
    assert(requests[1] == DoubleStateTransition::<usize>::Linear);
    assert(requests[2] == DoubleStateTransition::Arbitrary(last));
    law_pass_succeeds_iff_all_resolve(topology, current, requests, pending);
    law_last_write_wins(topology, current, requests, pending);
}

} // verus!
