//! Registration of a state type with the host application.
//!
//! A state type is registered once, at start-up. Registration validates the
//! declared topology and fixes the state in which the type's state machine
//! starts; the host then sets up its state container, the request queue and
//! the dispatcher. Both a malformed topology and a second registration are
//! configuration errors: they are refused here, before the host sets up
//! anything.

use crate::topology::{
    decl_views, defect, is_unique_default, well_formed, Topology, TopologyError, VariantDecl,
    VariantSpec,
};
use vstd::prelude::*;

verus! {

/// Why a state type is not registered.
#[derive(Debug, Clone, Copy, PartialEq, Eq)]
pub enum RegistrationError {
    /// The state type is registered already.
    AlreadyRegistered,
    /// The declarations of the state type are no topology.
    MalformedTopology(TopologyError),
}

/// What the host sets up for a state type: its state container, starting in
/// `initial_state`, and its request queue and dispatcher, which work on
/// `topology`.
#[derive(Debug)]
pub struct Registration {
    pub topology: Topology,
    pub initial_state: usize,
}

/// Why a state type with these declarations is not registered, `None` where
/// it is. A second registration is refused whatever is declared.
pub open spec fn registration_error(registered: bool, variants: Seq<VariantSpec>) -> Option<
    RegistrationError,
> {
    if registered {
        Some(RegistrationError::AlreadyRegistered)
    } else {
        match defect(variants) {
            Some(found) => Some(RegistrationError::MalformedTopology(found)),
            None => None,
        }
    }
}

/// Decides the registration of a state type.
///
/// `registered` says whether the host holds the type already, `variants` is
/// what the type declares. A type that is new to the host and declares a
/// well-formed topology is registered: its state machine starts in the one
/// variant that is marked default.
pub fn add_double_state(registered: bool, variants: Vec<VariantDecl>) -> (r: Result<
    Registration,
    RegistrationError,
>)
    ensures
        r is Ok <==> !registered && well_formed(decl_views(variants@)),
        r is Ok <==> registration_error(registered, decl_views(variants@)) is None,
        r matches Ok(registration) ==> registration.topology.wf() && registration.topology@
            == decl_views(variants@) && is_unique_default(
            registration.topology@,
            registration.initial_state as int,
        ),
        r matches Err(error) ==> registration_error(registered, decl_views(variants@)) == Some(
            error,
        ),
{
    if registered {
        return Err(RegistrationError::AlreadyRegistered);
    }
    match Topology::new(variants) {
        Ok(topology) => {
            let initial_state: usize = topology.default_state();
            Ok(Registration { topology, initial_state })
        },
        Err(found) => Err(RegistrationError::MalformedTopology(found)),
    }
}

} // verus!
