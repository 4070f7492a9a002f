//! Stable building blocks for native applications.
//!
//! This part owns the platform boundary: managed launch environment, lifecycle
//! fencing, the QTFB v1 compatibility surface, and safe RGB565 drawing. Product
//! behaviour belongs to the applications.
pub mod environment;
pub mod frame;
pub mod lifecycle;
pub mod qtfb;
pub mod surface;
pub mod sync;

pub use environment::{ManagedEnvironment, ManagedEnvironmentError, ManagedVariables};
pub use lifecycle::{LifecycleError, LifecycleFence};
pub use qtfb::{InputEvent, QtfbError, TouchPhase, REFRESH_FAST, REFRESH_UI};
pub use surface::{Rgb565, Surface, BLACK, WHITE};
