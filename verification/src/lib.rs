//! Typed, declarative state transitions on top of a host's single-slot state
//! machinery.
//!
//! A state type declares, for each of its variants, one *linear* successor
//! and a set of *arbitrary* successors. Producers queue transition requests;
//! once per scheduling pass the dispatcher resolves the queued requests
//! against the declared topology and the state that is current at the start
//! of the pass, and proposes the resolved state to the host.
//!
//! Variants are identified by their position in the declaration list.
//!
//! - [`topology`]: the validated transition topology of a state type and the
//!   resolution of a single request against it;
//! - [`transition`]: the requests that producers queue;
//! - [`dispatch`]: one scheduling pass over the queued requests;
//! - [`registration`]: what is decided when a state type is registered;
//! - [`laws`]: what holds of every topology and of every pass.

pub mod dispatch;
pub mod laws;
pub mod prelude;
pub mod registration;
pub mod topology;
pub mod transition;

pub use dispatch::watch_state_event;
pub use registration::{add_double_state, Registration, RegistrationError};
pub use topology::{ResolveError, Topology, TopologyError, VariantDecl};
pub use transition::{
    DoubleStateEvent, DoubleStateSchedule, DoubleStateSystemConfig, DoubleStateTransition,
};
