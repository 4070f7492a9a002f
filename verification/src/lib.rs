//! Shared model of the ReMagic platform.
use vstd::prelude::*;

pub mod agent;
pub mod backlight;
pub mod device;
pub mod first;
pub mod home;
pub mod json;
pub mod manifest;
pub mod ordered;
pub mod path;
pub mod power;
pub mod power_policy;
pub mod runtime;
pub mod sdk;
pub mod session;
pub mod state;
pub mod system_release;
pub mod text;

pub use device::{
    DeviceDisplayProfile, DeviceProduct, DeviceProfile, DeviceProfileError, SurfacePixelFormat,
    DEVICE_PROFILE_ENV, DEVICE_PROFILE_SCHEMA_V1,
};
pub use manifest::{
    AppId, AppKind, AppManifest, BackgroundRestartPolicy, BackgroundService, DataSchema,
    ManifestStore, ParkStrategy, ReadinessMode, ReadinessPolicy, ShutdownPolicy, UninstallPolicy,
    MANIFEST_SCHEMA_V1, MANIFEST_SCHEMA_V2, MAX_SHUTDOWN_KILL_TIMEOUT_MS, REMAGIC_APP_API_VERSION,
};
pub use runtime::{
    is_platform_reserved_environment, qtfb_key_for_app, validate_environment_pair,
    BackgroundExecution, Capability, CertificatePolicy, FontPolicy, LaunchEnvironment,
    LocalePolicy, NetworkMode, NetworkPolicy, PreflightCheck, PreflightReport, PreflightStatus,
    RuntimeDirectories, RuntimeProfile, RuntimeRequirements, RuntimeValidationError,
    TimezonePolicy, REMAGIC_HOME_QTFB_KEY,
};
pub use session::{AppSession, SessionStatus, SessionStore};
pub use state::{
    AppInstance, AppInstanceState, AppToken, DomainState, ManagerState, StateModelError,
    SupervisorState, SystemDomainState, Transition, TransitionError,
};

verus! {

pub const SYSTEM_APP_ID: &'static str = "system";

pub const HOME_APP_ID: &'static str = "remagic-home";

pub const SCHEMA_PREPARED_FILE: &'static str = "schema-prepared";

pub const SCHEMA_COMPLETE_FILE: &'static str = "schema-complete";

pub const SCHEMA_READY_FILE: &'static str = "schema-ready";

pub const SCHEMA_COMMIT_GRACE_MS: u64 = 10_000;

} // verus!
