//! State of the manager and of the applications that it supervises.
pub mod compatibility;
pub mod lifecycle;
pub mod model;
pub mod transitions;

pub use model::{
    AppInstance, AppInstanceState, AppToken, DomainState, ManagerState, StateModelError,
    SupervisorState, SystemDomainState, Transition, TransitionError,
};
