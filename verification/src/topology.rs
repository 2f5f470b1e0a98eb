//! The transition topology of one state type: for every variant its linear
//! successor, its arbitrary successors and whether it is the default.
//!
//! A topology is validated once, when it is built, and never changes afterwards.

use crate::transition::DoubleStateTransition;
use vstd::prelude::*;

verus! {

/// What the author of a state type declares for one variant. Successors are
/// named by their position in the declaration list.
#[derive(Debug, Clone)]
pub struct VariantDecl {
    /// The variant a linear transition leads to; `None` makes the variant
    /// terminal for linear transitions.
    pub linear_successor: Option<usize>,
    /// The variants declared reachable by an arbitrary transition.
    pub arbitrary_successors: Vec<usize>,
    /// Whether a fresh state machine starts in this variant.
    pub is_default: bool,
}

/// The mathematical content of a [`VariantDecl`]: the arbitrary successors
/// form a set, their order and repetitions in the declaration do not matter.
pub struct VariantSpec {
    pub linear_successor: Option<usize>,
    pub arbitrary_successors: Set<usize>,
    pub is_default: bool,
}

impl View for VariantDecl {
    type V = VariantSpec;

    open spec fn view(&self) -> VariantSpec {
        VariantSpec {
            linear_successor: self.linear_successor,
            arbitrary_successors: self.arbitrary_successors@.to_set(),
            is_default: self.is_default,
        }
    }
}

/// The mathematical content of a declaration list.
pub open spec fn decl_views(decls: Seq<VariantDecl>) -> Seq<VariantSpec> {
    Seq::new(decls.len(), |v: int| decls[v]@)
}

/// Why a declaration list is not a topology.
#[derive(Debug, Clone, Copy, PartialEq, Eq)]
pub enum TopologyError {
    /// The variant at this position names a linear successor that is no
    /// variant of the type.
    UndefinedLinearSuccessor(usize),
    /// The variant at this position names an arbitrary successor that is no
    /// variant of the type.
    UndefinedArbitrarySuccessor(usize),
    /// No variant is marked default.
    NoDefault,
    /// More than one variant is marked default.
    MultipleDefaults,
}

/// Why a transition request has no next state.
#[derive(Debug, Clone, Copy, PartialEq, Eq)]
pub enum ResolveError {
    /// The value is no variant of the state type.
    UndefinedVariant(usize),
    /// A linear transition was requested from this state, which has no linear
    /// successor.
    TerminalState(usize),
}

/// The linear successor, if there is one, is one of `count` variants.
pub open spec fn linear_defined(successor: Option<usize>, count: nat) -> bool {
    successor matches Some(next) ==> next < count
}

/// Every arbitrary successor is one of `count` variants.
pub open spec fn arbitrary_defined(successors: Set<usize>, count: nat) -> bool {
    forall|target: usize| successors.contains(target) ==> target < count
}

/// Every successor that the variant at `v` names is a variant.
pub open spec fn variant_defined(variants: Seq<VariantSpec>, v: int) -> bool {
    &&& linear_defined(variants[v].linear_successor, variants.len())
    &&& arbitrary_defined(variants[v].arbitrary_successors, variants.len())
}

/// Every successor of every variant is a variant.
pub open spec fn successors_defined(variants: Seq<VariantSpec>) -> bool {
    forall|v: int| 0 <= v < variants.len() ==> variant_defined(variants, v)
}

/// `v` is the first variant that names a successor which is no variant.
pub open spec fn first_undefined(variants: Seq<VariantSpec>, v: int) -> bool {
    &&& 0 <= v < variants.len()
    &&& !variant_defined(variants, v)
    &&& forall|u: int| 0 <= u < v ==> variant_defined(variants, u)
}

/// `d` is marked default and no other variant is.
pub open spec fn is_unique_default(variants: Seq<VariantSpec>, d: int) -> bool {
    &&& 0 <= d < variants.len()
    &&& variants[d].is_default
    &&& forall|v: int| 0 <= v < variants.len() && (#[trigger] variants[v]).is_default ==> v == d
}

/// No variant is marked default.
pub open spec fn no_default(variants: Seq<VariantSpec>) -> bool {
    forall|v: int| 0 <= v < variants.len() ==> !(#[trigger] variants[v]).is_default
}

/// At least two variants are marked default.
pub open spec fn several_defaults(variants: Seq<VariantSpec>) -> bool {
    exists|d: int, e: int|
        0 <= d < e < variants.len() && (#[trigger] variants[d]).is_default
            && (#[trigger] variants[e]).is_default
}

/// A declaration list is a topology when every named successor is a variant
/// and exactly one variant is the default.
pub open spec fn well_formed(variants: Seq<VariantSpec>) -> bool {
    &&& successors_defined(variants)
    &&& exists|d: int| is_unique_default(variants, d)
}

/// What keeps a declaration list from being a topology: `None` where it is
/// one, else the reason why it is not.
///
/// The first variant that names an undefined successor is reported, its
/// linear successor before its arbitrary ones. A list whose successors are
/// all defined is rejected for having no default, or for having several.
pub open spec fn defect(variants: Seq<VariantSpec>) -> Option<TopologyError> {
    if exists|v: usize| first_undefined(variants, v as int) {
        let v = choose|v: usize| first_undefined(variants, v as int);
        if linear_defined(variants[v as int].linear_successor, variants.len()) {
            Some(TopologyError::UndefinedArbitrarySuccessor(v))
        } else {
            Some(TopologyError::UndefinedLinearSuccessor(v))
        }
    } else if no_default(variants) {
        Some(TopologyError::NoDefault)
    } else if several_defaults(variants) {
        Some(TopologyError::MultipleDefaults)
    } else {
        None
    }
}

/// At most one variant is the first with an undefined successor.
pub proof fn lemma_first_undefined_unique(variants: Seq<VariantSpec>, v: int, w: int)
    requires
        first_undefined(variants, v),
        first_undefined(variants, w),
    ensures
        v == w,
{
    if v < w {
        assert(variant_defined(variants, v));
    } else if w < v {
        assert(variant_defined(variants, w));
    }
}

/// At or below a variant with an undefined successor there is a first such
/// variant.
pub proof fn lemma_first_undefined_exists(variants: Seq<VariantSpec>, bad: int)
    requires
        0 <= bad < variants.len(),
        !variant_defined(variants, bad),
    ensures
        exists|v: int| 0 <= v <= bad && first_undefined(variants, v),
    decreases bad,
{
    if forall|u: int| 0 <= u < bad ==> variant_defined(variants, u) {
        assert(first_undefined(variants, bad));
    } else {
        let lower = choose|u: int| 0 <= u < bad && !variant_defined(variants, u);
        lemma_first_undefined_exists(variants, lower);
    }
}

/// Several defaults leave no unique one.
pub proof fn lemma_several_defaults_none_unique(variants: Seq<VariantSpec>)
    requires
        several_defaults(variants),
    ensures
        forall|d: int| !is_unique_default(variants, d),
{
    let (d, e) = choose|d: int, e: int|
        0 <= d < e < variants.len() && (#[trigger] variants[d]).is_default
            && (#[trigger] variants[e]).is_default;
    assert(variants[d].is_default && variants[e].is_default);
}

/// Where `v` is the first variant with an undefined successor, the defect
/// names `v`, and the kind of successor that is undefined.
pub proof fn lemma_defect_at_first_undefined(variants: Seq<VariantSpec>, v: usize)
    requires
        first_undefined(variants, v as int),
    ensures
        !successors_defined(variants),
        linear_defined(variants[v as int].linear_successor, variants.len()) ==> defect(variants)
            == Some(TopologyError::UndefinedArbitrarySuccessor(v)),
        !linear_defined(variants[v as int].linear_successor, variants.len()) ==> defect(variants)
            == Some(TopologyError::UndefinedLinearSuccessor(v)),
{
    let w = choose|w: usize| first_undefined(variants, w as int);
    lemma_first_undefined_unique(variants, v as int, w as int);
}

/// A validated transition topology.
#[derive(Debug)]
pub struct Topology {
    variants: Vec<VariantDecl>,
    default_variant: usize,
}

impl View for Topology {
    type V = Seq<VariantSpec>;

    /// The declarations of the variants, in declaration order.
    closed spec fn view(&self) -> Seq<VariantSpec> {
        decl_views(self.variants@)
    }
}

impl Topology {
    /// The position of the default variant.
    pub closed spec fn spec_default_state(&self) -> usize {
        self.default_variant
    }

    /// The invariant of a topology: what [`Topology::new`] has established.
    pub open spec fn wf(&self) -> bool {
        &&& successors_defined(self@)
        &&& is_unique_default(self@, self.spec_default_state() as int)
    }

    #[verifier::type_invariant]
    closed spec fn validated(&self) -> bool {
        self.wf()
    }

    /// `state` is a variant of the state type.
    pub open spec fn is_variant(&self, state: usize) -> bool {
        state < self@.len()
    }

    /// `target` is among the arbitrary successors declared for `state`.
    pub open spec fn declares_arbitrary(&self, state: usize, target: usize) -> bool {
        self.is_variant(state) && self@[state as int].arbitrary_successors.contains(target)
    }

    /// The state a linear transition from `current` leads to.
    pub open spec fn spec_resolve_linear(&self, current: usize) -> Result<usize, ResolveError> {
        if !self.is_variant(current) {
            Err(ResolveError::UndefinedVariant(current))
        } else {
            match self@[current as int].linear_successor {
                Some(next) => Ok(next),
                None => Err(ResolveError::TerminalState(current)),
            }
        }
    }

    /// The state an arbitrary transition from `current` to `requested` leads
    /// to: `requested` itself, declared for `current` or not.
    pub open spec fn spec_resolve_arbitrary(&self, current: usize, requested: usize) -> Result<
        usize,
        ResolveError,
    > {
        if !self.is_variant(current) {
            Err(ResolveError::UndefinedVariant(current))
        } else if !self.is_variant(requested) {
            Err(ResolveError::UndefinedVariant(requested))
        } else {
            Ok(requested)
        }
    }

    /// The state that `request`, made while `current` is the current state,
    /// leads to.
    pub open spec fn spec_resolve(
        &self,
        current: usize,
        request: DoubleStateTransition<usize>,
    ) -> Result<usize, ResolveError> {
        match request {
            DoubleStateTransition::Linear => self.spec_resolve_linear(current),
            DoubleStateTransition::Arbitrary(requested) => self.spec_resolve_arbitrary(
                current,
                requested,
            ),
        }
    }

    /// Validates a declaration list and turns it into a topology.
    ///
    /// The list is accepted exactly when it is well formed, and is then the
    /// content of the topology. Otherwise the error is its [`defect`].
    pub fn new(variants: Vec<VariantDecl>) -> (r: Result<Topology, TopologyError>)
        ensures
            r is Ok <==> well_formed(decl_views(variants@)),
            r is Ok <==> defect(decl_views(variants@)) is None,
            r matches Ok(topology) ==> topology.wf() && topology@ == decl_views(variants@),
            r matches Err(error) ==> defect(decl_views(variants@)) == Some(error),
    {
        let ghost specs = decl_views(variants@);
        let count: usize = variants.len();
        let mut default_variant: Option<usize> = None;
        let mut several: bool = false;
        let mut v: usize = 0;
        while v < count
            invariant
                v <= count,
                count == variants@.len(),
                specs == decl_views(variants@),
                forall|u: int| 0 <= u < v ==> variant_defined(specs, u),
                default_variant is None ==> !several && forall|u: int|
                    0 <= u < v ==> !(#[trigger] specs[u]).is_default,
                default_variant matches Some(d) ==> {
                    &&& d < v
                    &&& specs[d as int].is_default
                    &&& !several ==> forall|u: int|
                        0 <= u < v && (#[trigger] specs[u]).is_default ==> u == d
                    &&& several ==> exists|e: int|
                        d < e < v && (#[trigger] specs[e]).is_default
                },
            decreases count - v,
        {
            let decl = &variants[v];
            assert(specs[v as int] == decl@);
            if let Some(next) = decl.linear_successor {
                if next >= count {
                    proof {
                        lemma_defect_at_first_undefined(specs, v);
                    }
                    return Err(TopologyError::UndefinedLinearSuccessor(v));
                }
            }
            if !all_below(&decl.arbitrary_successors, count) {
                proof {
                    lemma_defect_at_first_undefined(specs, v);
                }
                return Err(TopologyError::UndefinedArbitrarySuccessor(v));
            }
            assert(variant_defined(specs, v as int));
            if decl.is_default {
                match default_variant {
                    None => {
                        default_variant = Some(v);
                    },
                    Some(_) => {
                        several = true;
                    },
                }
            }
            v += 1;
        }
        assert(successors_defined(specs));
        assert(!exists|u: usize| first_undefined(specs, u as int));
        match default_variant {
            None => {
                assert(no_default(specs));
                Err(TopologyError::NoDefault)
            },
            Some(d) => {
                if several {
                    assert(several_defaults(specs));
                    proof {
                        lemma_several_defaults_none_unique(specs);
                    }
                    Err(TopologyError::MultipleDefaults)
                } else {
                    assert(is_unique_default(specs, d as int));
                    assert(!several_defaults(specs)) by {
                        if several_defaults(specs) {
                            lemma_several_defaults_none_unique(specs);
                        }
                    }
                    Ok(Topology { variants, default_variant: d })
                }
            },
        }
    }
}

impl Topology {
    /// The number of variants of the state type.
    pub fn variant_count(&self) -> (count: usize)
        ensures
            count == self@.len(),
    {
        self.variants.len()
    }

    /// The variant in which a fresh state machine starts: the one variant
    /// that is marked default.
    pub fn default_state(&self) -> (state: usize)
        ensures
            state == self.spec_default_state(),
            is_unique_default(self@, state as int),
    {
        proof {
            use_type_invariant(self);
        }
        self.default_variant
    }

    /// Resolves a linear transition: the declared linear successor of
    /// `current`, which is a variant of the state type.
    ///
    /// A state without linear successor is terminal: the request is a fault
    /// of the caller and is reported as `TerminalState`, never answered with
    /// a state.
    pub fn resolve_linear(&self, current: usize) -> (r: Result<usize, ResolveError>)
        ensures
            r == self.spec_resolve_linear(current),
            r matches Ok(next) ==> self.is_variant(next),
    {
        proof {
            use_type_invariant(self);
        }
        if current >= self.variants.len() {
            return Err(ResolveError::UndefinedVariant(current));
        }
        assert(self@[current as int] == self.variants@[current as int]@);
        assert(variant_defined(self@, current as int));
        match self.variants[current].linear_successor {
            Some(next) => Ok(next),
            None => Err(ResolveError::TerminalState(current)),
        }
    }

    /// Resolves an arbitrary transition: any variant of the state type is
    /// accepted as target, whether `current` declares it as an arbitrary
    /// successor or not. Only a value that is no variant is refused.
    pub fn resolve_arbitrary(&self, current: usize, requested: usize) -> (r: Result<
        usize,
        ResolveError,
    >)
        ensures
            r == self.spec_resolve_arbitrary(current, requested),
            r matches Ok(next) ==> next == requested && self.is_variant(next),
    {
        let count: usize = self.variants.len();
        if current >= count {
            Err(ResolveError::UndefinedVariant(current))
        } else if requested >= count {
            Err(ResolveError::UndefinedVariant(requested))
        } else {
            Ok(requested)
        }
    }

    /// Resolves one transition request against the state that is current.
    pub fn resolve(&self, current: usize, request: &DoubleStateTransition<usize>) -> (r: Result<
        usize,
        ResolveError,
    >)
        ensures
            r == self.spec_resolve(current, *request),
            r matches Ok(next) ==> self.is_variant(next),
    {
        match request {
            DoubleStateTransition::Linear => self.resolve_linear(current),
            DoubleStateTransition::Arbitrary(requested) => self.resolve_arbitrary(
                current,
                *requested,
            ),
        }
    }

    /// Whether `state` declares `target` as one of its arbitrary successors.
    pub fn is_arbitrary_successor(&self, state: usize, target: usize) -> (r: bool)
        ensures
            r == self.declares_arbitrary(state, target),
    {
        if state >= self.variants.len() {
            return false;
        }
        assert(self@[state as int] == self.variants@[state as int]@);
        is_listed(&self.variants[state].arbitrary_successors, target)
    }
}

/// Whether `target` is an entry of `targets`.
fn is_listed(targets: &Vec<usize>, target: usize) -> (r: bool)
    ensures
        r == targets@.to_set().contains(target),
{
    let mut k: usize = 0;
    while k < targets.len()
        invariant
            k <= targets@.len(),
            forall|j: int| 0 <= j < k ==> targets@[j] != target,
        decreases targets@.len() - k,
    {
        if targets[k] == target {
            assert(targets@.to_set().contains(targets@[k as int]));
            return true;
        }
        k += 1;
    }
    assert(!targets@.contains(target));
    false
}

/// Whether every entry of `targets` is below `count`.
fn all_below(targets: &Vec<usize>, count: usize) -> (r: bool)
    ensures
        r == arbitrary_defined(targets@.to_set(), count as nat),
{
    let mut k: usize = 0;
    while k < targets.len()
        invariant
            k <= targets@.len(),
            forall|j: int| 0 <= j < k ==> targets@[j] < count,
        decreases targets@.len() - k,
    {
        if targets[k] >= count {
            assert(targets@.to_set().contains(targets@[k as int]));
            return false;
        }
        k += 1;
    }
    true
}

} // verus!
