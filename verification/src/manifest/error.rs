//! Reasons why a manifest is refused.
use vstd::prelude::*;
use crate::device::DeviceProduct;
use crate::path::FilePath;
use crate::runtime::error::RuntimeFault;
use crate::runtime::{NetworkMode, RuntimeProfile, RuntimeValidationError};
use crate::text::{debug_quoted, decimal_text};
use crate::text::{debug_text, decimal};

verus! {

/// Why a manifest, or a request to an application, is refused.
#[derive(Debug, PartialEq, Eq)]
pub enum ManifestError {
    InvalidId(String),
    UnsupportedSchema(u32),
    EmptyName(String),
    UnsafePath(&'static str, FilePath),
    UnsupportedDisplay(String),
    UnsafeEnvironment(String),
    InvalidArgument,
    DuplicateCapability(String),
    DuplicateSupportedDevice(DeviceProduct),
    InvalidSupportedOs(String),
    UnsupportedRemagicApi(u32),
    InvalidReadinessTimeout(u64),
    MissingReadinessPath,
    UnexpectedReadinessPath,
    InvalidShutdownPolicy {
        graceful_timeout_ms: u64,
        term_timeout_ms: u64,
        kill_timeout_ms: u64,
    },
    InvalidSystemdUnit(String),
    ConflictingResidentPolicy,
    FreezeRequiresV2,
    FreezeRequiresResident,
    FreezeRequiresLifecycleV2,
    LegacyFieldInV2(&'static str),
    RuntimeDisplayMismatch { profile: RuntimeProfile, expected: &'static str, actual: String },
    MissingRuntimeCapability { profile: RuntimeProfile, capability: &'static str },
    HeadlessDisplayCapability,
    NetworkCapabilityMismatch { mode: NetworkMode, expected: &'static str },
    InvalidDataSchemaVersion,
    DataSchemaRequiresV2,
    InvalidBackupTimeout(u64),
    InvalidMigrationTimeout(u64),
    DuplicateBackupPath(FilePath),
    OverlappingBackupPaths(FilePath, FilePath),
    Runtime(RuntimeValidationError),
    OpenPathUnsupported(String),
    OpenPathDenied(FilePath),
    Canonicalize(FilePath, String),
    ReadDir(FilePath, String),
    Read(FilePath, String),
    Parse(FilePath, String),
    DuplicateId(FilePath),
}

/// The same reasons over texts.
pub enum ManifestFault {
    InvalidId(Seq<char>),
    UnsupportedSchema(u32),
    EmptyName(Seq<char>),
    UnsafePath(Seq<char>, Seq<char>),
    UnsupportedDisplay(Seq<char>),
    UnsafeEnvironment(Seq<char>),
    InvalidArgument,
    DuplicateCapability(Seq<char>),
    DuplicateSupportedDevice(DeviceProduct),
    InvalidSupportedOs(Seq<char>),
    UnsupportedRemagicApi(u32),
    InvalidReadinessTimeout(u64),
    MissingReadinessPath,
    UnexpectedReadinessPath,
    InvalidShutdownPolicy(u64, u64, u64),
    InvalidSystemdUnit(Seq<char>),
    ConflictingResidentPolicy,
    FreezeRequiresV2,
    FreezeRequiresResident,
    FreezeRequiresLifecycleV2,
    LegacyFieldInV2(Seq<char>),
    RuntimeDisplayMismatch(RuntimeProfile, Seq<char>, Seq<char>),
    MissingRuntimeCapability(RuntimeProfile, Seq<char>),
    HeadlessDisplayCapability,
    NetworkCapabilityMismatch(NetworkMode, Seq<char>),
    InvalidDataSchemaVersion,
    DataSchemaRequiresV2,
    InvalidBackupTimeout(u64),
    InvalidMigrationTimeout(u64),
    DuplicateBackupPath(Seq<char>),
    OverlappingBackupPaths(Seq<char>, Seq<char>),
    Runtime(RuntimeFault),
    OpenPathUnsupported(Seq<char>),
    OpenPathDenied(Seq<char>),
    Canonicalize(Seq<char>, Seq<char>),
    ReadDir(Seq<char>, Seq<char>),
    Read(Seq<char>, Seq<char>),
    Parse(Seq<char>, Seq<char>),
    DuplicateId(Seq<char>),
}

impl View for ManifestError {
    type V = ManifestFault;

    open spec fn view(&self) -> ManifestFault {
        match self {
            ManifestError::InvalidId(a) => ManifestFault::InvalidId(a@),
            ManifestError::UnsupportedSchema(a) => ManifestFault::UnsupportedSchema(*a),
            ManifestError::EmptyName(a) => ManifestFault::EmptyName(a@),
            ManifestError::UnsafePath(a, b) => ManifestFault::UnsafePath(a@, b@),
            ManifestError::UnsupportedDisplay(a) => ManifestFault::UnsupportedDisplay(a@),
            ManifestError::UnsafeEnvironment(a) => ManifestFault::UnsafeEnvironment(a@),
            ManifestError::InvalidArgument => ManifestFault::InvalidArgument,
            ManifestError::DuplicateCapability(a) => ManifestFault::DuplicateCapability(a@),
            ManifestError::DuplicateSupportedDevice(a) => {
                ManifestFault::DuplicateSupportedDevice(*a)
            },
            ManifestError::InvalidSupportedOs(a) => ManifestFault::InvalidSupportedOs(a@),
            ManifestError::UnsupportedRemagicApi(a) => ManifestFault::UnsupportedRemagicApi(*a),
            ManifestError::InvalidReadinessTimeout(a) => ManifestFault::InvalidReadinessTimeout(*a),
            ManifestError::MissingReadinessPath => ManifestFault::MissingReadinessPath,
            ManifestError::UnexpectedReadinessPath => ManifestFault::UnexpectedReadinessPath,
            ManifestError::InvalidShutdownPolicy {
                graceful_timeout_ms,
                term_timeout_ms,
                kill_timeout_ms,
            } => ManifestFault::InvalidShutdownPolicy(
                *graceful_timeout_ms,
                *term_timeout_ms,
                *kill_timeout_ms,
            ),
            ManifestError::InvalidSystemdUnit(a) => ManifestFault::InvalidSystemdUnit(a@),
            ManifestError::ConflictingResidentPolicy => ManifestFault::ConflictingResidentPolicy,
            ManifestError::FreezeRequiresV2 => ManifestFault::FreezeRequiresV2,
            ManifestError::FreezeRequiresResident => ManifestFault::FreezeRequiresResident,
            ManifestError::FreezeRequiresLifecycleV2 => ManifestFault::FreezeRequiresLifecycleV2,
            ManifestError::LegacyFieldInV2(a) => ManifestFault::LegacyFieldInV2(a@),
            ManifestError::RuntimeDisplayMismatch { profile, expected, actual } => {
                ManifestFault::RuntimeDisplayMismatch(*profile, expected@, actual@)
            },
            ManifestError::MissingRuntimeCapability { profile, capability } => {
                ManifestFault::MissingRuntimeCapability(*profile, capability@)
            },
            ManifestError::HeadlessDisplayCapability => ManifestFault::HeadlessDisplayCapability,
            ManifestError::NetworkCapabilityMismatch { mode, expected } => {
                ManifestFault::NetworkCapabilityMismatch(*mode, expected@)
            },
            ManifestError::InvalidDataSchemaVersion => ManifestFault::InvalidDataSchemaVersion,
            ManifestError::DataSchemaRequiresV2 => ManifestFault::DataSchemaRequiresV2,
            ManifestError::InvalidBackupTimeout(a) => ManifestFault::InvalidBackupTimeout(*a),
            ManifestError::InvalidMigrationTimeout(a) => ManifestFault::InvalidMigrationTimeout(*a),
            ManifestError::DuplicateBackupPath(a) => ManifestFault::DuplicateBackupPath(a@),
            ManifestError::OverlappingBackupPaths(a, b) => {
                ManifestFault::OverlappingBackupPaths(a@, b@)
            },
            ManifestError::Runtime(a) => ManifestFault::Runtime(a@),
            ManifestError::OpenPathUnsupported(a) => ManifestFault::OpenPathUnsupported(a@),
            ManifestError::OpenPathDenied(a) => ManifestFault::OpenPathDenied(a@),
            ManifestError::Canonicalize(a, b) => ManifestFault::Canonicalize(a@, b@),
            ManifestError::ReadDir(a, b) => ManifestFault::ReadDir(a@, b@),
            ManifestError::Read(a, b) => ManifestFault::Read(a@, b@),
            ManifestError::Parse(a, b) => ManifestFault::Parse(a@, b@),
            ManifestError::DuplicateId(a) => ManifestFault::DuplicateId(a@),
        }
    }
}

/// What a check reports: nothing, or its fault.
pub open spec fn reports(r: Result<(), ManifestError>, fault: Option<ManifestFault>) -> bool {
    match r {
        Ok(_) => fault is None,
        Err(e) => fault == Some(e@),
    }
}

impl ManifestFault {
    /// The reason in words.
    pub open spec fn text(self) -> Seq<char> {
        match self {
            ManifestFault::InvalidId(a) => "invalid application id: "@ + a,
            ManifestFault::UnsupportedSchema(a) => "unsupported manifest schema "@ + decimal(a as nat),
            ManifestFault::EmptyName(a) => "application "@ + a + " has an empty name"@,
            ManifestFault::UnsafePath(a, b) => "unsafe "@ + a + " path: "@ + b,
            ManifestFault::UnsupportedDisplay(a) => "unsupported display backend: "@ + a,
            ManifestFault::UnsafeEnvironment(a) => "unsafe environment key: "@ + a,
            ManifestFault::InvalidArgument => "application argument contains NUL"@,
            ManifestFault::DuplicateCapability(a) => "duplicate platform capability: "@ + a,
            ManifestFault::DuplicateSupportedDevice(a) => "duplicate supported device: "@ + a.debug_name(),
            ManifestFault::InvalidSupportedOs(a) => "duplicate or empty supported OS build: "@ + debug_text(a),
            ManifestFault::UnsupportedRemagicApi(a) => "application requires unsupported ReMagic API "@ + decimal(a as nat),
            ManifestFault::InvalidReadinessTimeout(a) => "readiness timeout must be between 100 and 120000 ms, got "@ + decimal(a as nat),
            ManifestFault::MissingReadinessPath => "file readiness requires an absolute readiness.path"@,
            ManifestFault::UnexpectedReadinessPath => "readiness.path is only valid for file readiness"@,
            ManifestFault::InvalidShutdownPolicy(graceful_timeout_ms, term_timeout_ms, kill_timeout_ms) => "invalid shutdown deadlines: graceful="@ + decimal(graceful_timeout_ms as nat) + ", term="@ + decimal(term_timeout_ms as nat) + ", kill="@ + decimal(kill_timeout_ms as nat),
            ManifestFault::InvalidSystemdUnit(a) => "invalid background systemd unit: "@ + a,
            ManifestFault::ConflictingResidentPolicy => "schema v2 resident conflicts with legacy park_strategy"@,
            ManifestFault::FreezeRequiresV2 => "runtime.background_execution=freeze requires manifest schema v2"@,
            ManifestFault::FreezeRequiresResident => "runtime.background_execution=freeze requires resident=true"@,
            ManifestFault::FreezeRequiresLifecycleV2 => "runtime.background_execution=freeze requires capability lifecycle:v2"@,
            ManifestFault::LegacyFieldInV2(a) => "legacy field "@ + a + " is not valid in a schema v2 manifest"@,
            ManifestFault::RuntimeDisplayMismatch(profile, expected, actual) => "runtime profile "@ + profile.debug_name() + " requires display="@ + expected + ", but manifest declares "@ + actual,
            ManifestFault::MissingRuntimeCapability(profile, capability) => "runtime profile "@ + profile.debug_name() + " requires capability "@ + capability,
            ManifestFault::HeadlessDisplayCapability => "headless runtime may not request a display capability"@,
            ManifestFault::NetworkCapabilityMismatch(mode, expected) => "network mode "@ + mode.debug_name() + " requires "@ + expected,
            ManifestFault::InvalidDataSchemaVersion => "data schema version must be greater than zero"@,
            ManifestFault::DataSchemaRequiresV2 => "data_schema requires manifest schema v2"@,
            ManifestFault::InvalidBackupTimeout(a) => "backup/recovery timeout must be between 100 and 600000 ms, got "@ + decimal(a as nat),
            ManifestFault::InvalidMigrationTimeout(a) => "migration timeout must be between 100 and 600000 ms, got "@ + decimal(a as nat),
            ManifestFault::DuplicateBackupPath(a) => "duplicate data backup path: "@ + a,
            ManifestFault::OverlappingBackupPaths(a, b) => "data backup paths overlap: "@ + a + " and "@ + b,
            ManifestFault::Runtime(a) => "invalid runtime policy: "@ + a.text(),
            ManifestFault::OpenPathUnsupported(a) => "application "@ + a + " does not support open-path"@,
            ManifestFault::OpenPathDenied(a) => "open path is outside the application's allowed roots: "@ + a,
            ManifestFault::Canonicalize(a, b) => "cannot canonicalize "@ + a + ": "@ + b,
            ManifestFault::ReadDir(a, b) => "cannot list manifest directory "@ + a + ": "@ + b,
            ManifestFault::Read(a, b) => "cannot read manifest "@ + a + ": "@ + b,
            ManifestFault::Parse(a, b) => "cannot parse manifest "@ + a + ": "@ + b,
            ManifestFault::DuplicateId(a) => "duplicate application id in "@ + a,
        }
    }
}

impl ManifestError {
    /// The reason in words.
    pub fn message(&self) -> (r: String)
        ensures
            r@ == self@.text(),
    {
        match self {
            ManifestError::InvalidId(a) => {
                let mut message = "invalid application id: ".to_owned();
                message.append(a.as_str());
                message
            },
            ManifestError::UnsupportedSchema(a) => {
                let mut message = "unsupported manifest schema ".to_owned();
                message.append(decimal_text(*a as u64).as_str());
                message
            },
            ManifestError::EmptyName(a) => {
                let mut message = "application ".to_owned();
                message.append(a.as_str());
                message.append(" has an empty name");
                message
            },
            ManifestError::UnsafePath(a, b) => {
                let mut message = "unsafe ".to_owned();
                message.append(a);
                message.append(" path: ");
                message.append(b.as_str());
                message
            },
            ManifestError::UnsupportedDisplay(a) => {
                let mut message = "unsupported display backend: ".to_owned();
                message.append(a.as_str());
                message
            },
            ManifestError::UnsafeEnvironment(a) => {
                let mut message = "unsafe environment key: ".to_owned();
                message.append(a.as_str());
                message
            },
            ManifestError::InvalidArgument => "application argument contains NUL".to_owned(),
            ManifestError::DuplicateCapability(a) => {
                let mut message = "duplicate platform capability: ".to_owned();
                message.append(a.as_str());
                message
            },
            ManifestError::DuplicateSupportedDevice(a) => {
                let mut message = "duplicate supported device: ".to_owned();
                message.append(a.debug_str());
                message
            },
            ManifestError::InvalidSupportedOs(a) => {
                let mut message = "duplicate or empty supported OS build: ".to_owned();
                message.append(debug_quoted(a.as_str()).as_str());
                message
            },
            ManifestError::UnsupportedRemagicApi(a) => {
                let mut message = "application requires unsupported ReMagic API ".to_owned();
                message.append(decimal_text(*a as u64).as_str());
                message
            },
            ManifestError::InvalidReadinessTimeout(a) => {
                let mut message = "readiness timeout must be between 100 and 120000 ms, got ".to_owned();
                message.append(decimal_text(*a as u64).as_str());
                message
            },
            ManifestError::MissingReadinessPath => "file readiness requires an absolute readiness.path".to_owned(),
            ManifestError::UnexpectedReadinessPath => "readiness.path is only valid for file readiness".to_owned(),
            ManifestError::InvalidShutdownPolicy { graceful_timeout_ms, term_timeout_ms, kill_timeout_ms } => {
                let mut message = "invalid shutdown deadlines: graceful=".to_owned();
                message.append(decimal_text(*graceful_timeout_ms as u64).as_str());
                message.append(", term=");
                message.append(decimal_text(*term_timeout_ms as u64).as_str());
                message.append(", kill=");
                message.append(decimal_text(*kill_timeout_ms as u64).as_str());
                message
            },
            ManifestError::InvalidSystemdUnit(a) => {
                let mut message = "invalid background systemd unit: ".to_owned();
                message.append(a.as_str());
                message
            },
            ManifestError::ConflictingResidentPolicy => "schema v2 resident conflicts with legacy park_strategy".to_owned(),
            ManifestError::FreezeRequiresV2 => "runtime.background_execution=freeze requires manifest schema v2".to_owned(),
            ManifestError::FreezeRequiresResident => "runtime.background_execution=freeze requires resident=true".to_owned(),
            ManifestError::FreezeRequiresLifecycleV2 => "runtime.background_execution=freeze requires capability lifecycle:v2".to_owned(),
            ManifestError::LegacyFieldInV2(a) => {
                let mut message = "legacy field ".to_owned();
                message.append(a);
                message.append(" is not valid in a schema v2 manifest");
                message
            },
            ManifestError::RuntimeDisplayMismatch { profile, expected, actual } => {
                let mut message = "runtime profile ".to_owned();
                message.append(profile.debug_str());
                message.append(" requires display=");
                message.append(expected);
                message.append(", but manifest declares ");
                message.append(actual.as_str());
                message
            },
            ManifestError::MissingRuntimeCapability { profile, capability } => {
                let mut message = "runtime profile ".to_owned();
                message.append(profile.debug_str());
                message.append(" requires capability ");
                message.append(capability);
                message
            },
            ManifestError::HeadlessDisplayCapability => "headless runtime may not request a display capability".to_owned(),
            ManifestError::NetworkCapabilityMismatch { mode, expected } => {
                let mut message = "network mode ".to_owned();
                message.append(mode.debug_str());
                message.append(" requires ");
                message.append(expected);
                message
            },
            ManifestError::InvalidDataSchemaVersion => "data schema version must be greater than zero".to_owned(),
            ManifestError::DataSchemaRequiresV2 => "data_schema requires manifest schema v2".to_owned(),
            ManifestError::InvalidBackupTimeout(a) => {
                let mut message = "backup/recovery timeout must be between 100 and 600000 ms, got ".to_owned();
                message.append(decimal_text(*a as u64).as_str());
                message
            },
            ManifestError::InvalidMigrationTimeout(a) => {
                let mut message = "migration timeout must be between 100 and 600000 ms, got ".to_owned();
                message.append(decimal_text(*a as u64).as_str());
                message
            },
            ManifestError::DuplicateBackupPath(a) => {
                let mut message = "duplicate data backup path: ".to_owned();
                message.append(a.as_str());
                message
            },
            ManifestError::OverlappingBackupPaths(a, b) => {
                let mut message = "data backup paths overlap: ".to_owned();
                message.append(a.as_str());
                message.append(" and ");
                message.append(b.as_str());
                message
            },
            ManifestError::Runtime(a) => {
                let mut message = "invalid runtime policy: ".to_owned();
                message.append(a.message().as_str());
                message
            },
            ManifestError::OpenPathUnsupported(a) => {
                let mut message = "application ".to_owned();
                message.append(a.as_str());
                message.append(" does not support open-path");
                message
            },
            ManifestError::OpenPathDenied(a) => {
                let mut message = "open path is outside the application's allowed roots: ".to_owned();
                message.append(a.as_str());
                message
            },
            ManifestError::Canonicalize(a, b) => {
                let mut message = "cannot canonicalize ".to_owned();
                message.append(a.as_str());
                message.append(": ");
                message.append(b.as_str());
                message
            },
            ManifestError::ReadDir(a, b) => {
                let mut message = "cannot list manifest directory ".to_owned();
                message.append(a.as_str());
                message.append(": ");
                message.append(b.as_str());
                message
            },
            ManifestError::Read(a, b) => {
                let mut message = "cannot read manifest ".to_owned();
                message.append(a.as_str());
                message.append(": ");
                message.append(b.as_str());
                message
            },
            ManifestError::Parse(a, b) => {
                let mut message = "cannot parse manifest ".to_owned();
                message.append(a.as_str());
                message.append(": ");
                message.append(b.as_str());
                message
            },
            ManifestError::DuplicateId(a) => {
                let mut message = "duplicate application id in ".to_owned();
                message.append(a.as_str());
                message
            },
        }
    }
}

/// A check passes exactly where there is no fault, and otherwise its error is the fault.
pub proof fn checks_report_their_fault(r: Result<(), ManifestError>, fault: Option<ManifestFault>)
    requires
        reports(r, fault),
    ensures
        r is Ok <==> fault is None,
        r is Err <==> fault is Some,
        r is Err ==> r->Err_0@ == fault->0,
{
}

} // verus!
