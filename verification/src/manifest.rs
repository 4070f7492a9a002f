//! Application manifests.
use vstd::prelude::*;
use crate::device::DeviceProduct;
use crate::ordered::OrderedMap;
use crate::path::FilePath;
use crate::runtime::{Capability, RuntimeRequirements};
use crate::text::text_eq;
use crate::SCHEMA_COMMIT_GRACE_MS;

pub mod error;
pub mod id;
pub mod store;
pub mod validation;

pub use error::ManifestError;
pub use id::AppId;
pub use store::ManifestStore;

verus! {

/// What happens to an application that leaves the foreground.
#[derive(Clone, Copy, Debug, PartialEq, Eq, Structural)]
pub enum ParkStrategy {
    /// Persist UI state and exit. Recall starts a fresh UI process.
    Restart,
    /// Keep a process alive after it has acknowledged display/input release.
    Resident,
}

impl Default for ParkStrategy {
    fn default() -> (r: ParkStrategy)
        ensures
            r == ParkStrategy::Restart,
    {
        ParkStrategy::Restart
    }
}

/// Who an application belongs to.
#[derive(Clone, Copy, Debug, PartialEq, Eq, Structural)]
pub enum AppKind {
    User,
    System,
}

impl Default for AppKind {
    fn default() -> (r: AppKind)
        ensures
            r == AppKind::User,
    {
        AppKind::User
    }
}

/// What becomes of an application's data when it is removed.
#[derive(Clone, Copy, Debug, PartialEq, Eq, Structural)]
pub enum UninstallPolicy {
    KeepData,
    Purge,
}

impl Default for UninstallPolicy {
    fn default() -> (r: UninstallPolicy)
        ensures
            r == UninstallPolicy::KeepData,
    {
        UninstallPolicy::KeepData
    }
}

pub const MANIFEST_SCHEMA_V1: u32 = 1;

pub const MANIFEST_SCHEMA_V2: u32 = 2;

pub const REMAGIC_APP_API_VERSION: u32 = 2;

pub const MAX_STARTUP_TIMEOUT_MS: u64 = 1_450_000;

/// What counts as the readiness of an application.
#[derive(Clone, Copy, Debug, PartialEq, Eq, Structural)]
pub enum ReadinessMode {
    /// The process remaining alive is sufficient. Primarily a v1 fallback.
    Process,
    /// Wait for an explicit lifecycle `ready` event.
    Lifecycle,
    /// Wait for lifecycle readiness and the first stable surface commit.
    FirstFrame,
    /// Legacy file-based readiness, retained only for compatibility adapters.
    File,
}

impl Default for ReadinessMode {
    fn default() -> (r: ReadinessMode)
        ensures
            r == ReadinessMode::Process,
    {
        ReadinessMode::Process
    }
}

/// How and for how long readiness is awaited.
#[derive(Clone, Debug, PartialEq, Eq)]
pub struct ReadinessPolicy {
    pub mode: ReadinessMode,
    pub timeout_ms: u64,
    pub path: Option<FilePath>,
}

impl Default for ReadinessPolicy {
    fn default() -> (r: ReadinessPolicy)
        ensures
            r.mode == ReadinessMode::Process,
            r.timeout_ms == 15_000,
            r.path is None,
    {
        ReadinessPolicy { mode: ReadinessMode::Process, timeout_ms: 15_000, path: None }
    }
}

/// Maximum absolute application shutdown deadline supported by the platform
/// service fence. The remaining 2.5 seconds cover runner drain, the bounded
/// exit callback, and scheduling before `TimeoutStopSec=8` is the backstop.
pub const MAX_SHUTDOWN_KILL_TIMEOUT_MS: u64 = 5_500;

/// Absolute deadlines from the beginning of a shutdown request.
#[derive(Clone, Copy, Debug, PartialEq, Eq, Structural)]
pub struct ShutdownPolicy {
    pub graceful_timeout_ms: u64,
    pub term_timeout_ms: u64,
    pub kill_timeout_ms: u64,
}

impl Default for ShutdownPolicy {
    fn default() -> (r: ShutdownPolicy)
        ensures
            r.graceful_timeout_ms == 3_500,
            r.term_timeout_ms == 4_500,
            r.kill_timeout_ms == 5_500,
    {
        ShutdownPolicy {
            graceful_timeout_ms: 3_500,
            term_timeout_ms: 4_500,
            kill_timeout_ms: 5_500,
        }
    }
}

/// When a background service is started again.
#[derive(Clone, Copy, Debug, PartialEq, Eq, Structural)]
pub enum BackgroundRestartPolicy {
    Never,
    OnFailure,
    Always,
}

impl Default for BackgroundRestartPolicy {
    fn default() -> (r: BackgroundRestartPolicy)
        ensures
            r == BackgroundRestartPolicy::Never,
    {
        BackgroundRestartPolicy::Never
    }
}

/// A service that runs beside the application.
#[derive(Debug, PartialEq, Eq)]
pub enum BackgroundService {
    /// A platform-supervised headless child process.
    Managed {
        executable: FilePath,
        args: Vec<String>,
        working_dir: FilePath,
        restart: BackgroundRestartPolicy,
    },
    /// Transitional support for an already-installed systemd unit.
    Systemd { unit: String },
}

/// Two descriptions of the same service.
pub open spec fn same_service(a: BackgroundService, b: BackgroundService) -> bool {
    match (a, b) {
        (
            BackgroundService::Managed { executable: e1, args: a1, working_dir: w1, restart: r1 },
            BackgroundService::Managed { executable: e2, args: a2, working_dir: w2, restart: r2 },
        ) => e1 == e2 && a1@ == a2@ && w1 == w2 && r1 == r2,
        (BackgroundService::Systemd { unit: u1 }, BackgroundService::Systemd { unit: u2 }) => u1
            == u2,
        _ => false,
    }
}

impl Clone for BackgroundService {
    fn clone(&self) -> (r: BackgroundService)
        ensures
            same_service(r, *self),
    {
        match self {
            BackgroundService::Managed { executable, args, working_dir, restart } => {
                BackgroundService::Managed {
                    executable: executable.clone(),
                    args: args.clone(),
                    working_dir: working_dir.clone(),
                    restart: *restart,
                }
            },
            BackgroundService::Systemd { unit } => {
                BackgroundService::Systemd { unit: unit.clone() }
            },
        }
    }
}

/// The version of an application's data and how it is brought up to date.
#[derive(Clone, Debug, PartialEq, Eq)]
pub struct DataSchema {
    pub version: u32,
    pub migrator: Option<FilePath>,
    pub backup_paths: Vec<FilePath>,
    /// Cold-start allowance for pending recovery and the durable pre-change
    /// snapshot. This is separate from the migrator's own execution budget.
    pub backup_timeout_ms: u64,
    pub migration_timeout_ms: u64,
}

/// What the platform is told about an application.
#[derive(Clone, Debug, PartialEq, Eq)]
pub struct AppManifest {
    pub schema: u32,
    pub id: AppId,
    pub name: String,
    pub kind: AppKind,
    pub description: String,
    pub version: String,
    pub icon: Option<FilePath>,
    pub package: Option<String>,
    /// Empty means compatibility is inherited from the installed platform.
    /// Store-delivered packages declare every supported product.
    pub supported_devices: Vec<DeviceProduct>,
    /// Exact OS build identifiers. Empty inherits the system package's
    /// stricter OS compatibility gate.
    pub supported_os: Vec<String>,
    pub required_remagic_api: u32,
    pub uninstall_policy: UninstallPolicy,
    pub executable: FilePath,
    pub args: Vec<String>,
    pub working_dir: FilePath,
    pub display: String,
    pub park_strategy: ParkStrategy,
    /// Schema v2 lifecycle policy. In schema v1 `park_strategy` remains the
    /// source of truth.
    pub resident: bool,
    /// Platform capabilities required before this application may launch.
    pub capabilities: Vec<Capability>,
    pub readiness: ReadinessPolicy,
    pub shutdown: ShutdownPolicy,
    pub background_service: Option<BackgroundService>,
    pub data_schema: Option<DataSchema>,
    pub runtime: RuntimeRequirements,
    /// Legacy schema v1 systemd background unit.
    pub background_unit: Option<String>,
    pub supports_open_path: bool,
    pub allowed_open_roots: Vec<FilePath>,
    pub environment: OrderedMap<String, String>,
}

/// The smaller of two numbers.
pub open spec fn smaller(a: int, b: int) -> int {
    if a <= b {
        a
    } else {
        b
    }
}

impl AppManifest {
    /// The time that a data schema adds to a cold launch.
    pub open spec fn schema_allowance(&self) -> int {
        match self.data_schema {
            Some(schema) => schema.backup_timeout_ms + schema.migration_timeout_ms
                + SCHEMA_COMMIT_GRACE_MS,
            None => 0,
        }
    }

    /// The time that an application is given to become ready: once, and once
    /// more for the display bridge of a QTFB application.
    pub open spec fn readiness_allowance(&self) -> int {
        if self.display@ == "qtfb"@ {
            2 * self.readiness.timeout_ms
        } else {
            self.readiness.timeout_ms as int
        }
    }

    /// Maximum cold-launch interval before the application can publish its
    /// readiness signal. Backup/recovery, migration, and readiness are
    /// sequential phases with independent allowances.
    pub fn startup_timeout_ms(&self) -> (r: u64)
        ensures
            r == smaller(
                self.schema_allowance() + self.readiness_allowance(),
                MAX_STARTUP_TIMEOUT_MS as int,
            ),
    {
        let (backup, migration, commit): (u64, u64, u64) = match &self.data_schema {
            Some(schema) => (
                schema.backup_timeout_ms,
                schema.migration_timeout_ms,
                SCHEMA_COMMIT_GRACE_MS,
            ),
            None => (0, 0, 0),
        };
        let bridge: u64 = if text_eq(self.display.as_str(), "qtfb") {
            self.readiness.timeout_ms
        } else {
            0
        };
        let total: u64 = backup.saturating_add(migration).saturating_add(commit).saturating_add(
            self.readiness.timeout_ms,
        ).saturating_add(bridge);
        if total < MAX_STARTUP_TIMEOUT_MS {
            total
        } else {
            MAX_STARTUP_TIMEOUT_MS
        }
    }
}

/// A start is given the time that the data need for their backup, their migration and the commit,
/// and the time for readiness, which counts twice on the compatibility display; never more than
/// the limit.
pub proof fn starts_are_given_their_time(manifest: AppManifest)
    ensures
        manifest.data_schema is None ==> manifest.schema_allowance() == 0,
        manifest.data_schema is Some ==> manifest.schema_allowance()
            == manifest.data_schema->0.backup_timeout_ms
            + manifest.data_schema->0.migration_timeout_ms + SCHEMA_COMMIT_GRACE_MS,
        manifest.display@ == "qtfb"@ ==> manifest.readiness_allowance()
            == manifest.readiness.timeout_ms + manifest.readiness.timeout_ms,
        manifest.display@ != "qtfb"@ ==> manifest.readiness_allowance()
            == manifest.readiness.timeout_ms,
        smaller(
            manifest.schema_allowance() + manifest.readiness_allowance(),
            MAX_STARTUP_TIMEOUT_MS as int,
        ) <= 1_450_000,
{
}

/// Two background services are the same exactly where they are of one kind and agree in each of
/// their parts; every service is the same as itself.
pub proof fn same_services_agree_in_every_part(a: BackgroundService, b: BackgroundService)
    ensures
        same_service(a, a),
        same_service(a, b) == same_service(b, a),
        a is Systemd && b is Systemd ==> (same_service(a, b) <==> a->unit == b->unit),
        a is Managed && b is Managed ==> (same_service(a, b) <==> a->executable == b->executable
            && a->args@ == b->args@ && a->working_dir == b->working_dir && a->restart
            == b->restart),
        a is Systemd != b is Systemd ==> !same_service(a, b),
{
}

} // verus!
