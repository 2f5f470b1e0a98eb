//! The items most callers need, under one path.

pub use crate::dispatch::watch_state_event;
pub use crate::registration::{add_double_state, Registration, RegistrationError};
pub use crate::topology::{ResolveError, Topology, TopologyError, VariantDecl};
pub use crate::transition::{
    DoubleStateEvent, DoubleStateSchedule, DoubleStateSystemConfig, DoubleStateTransition,
};
