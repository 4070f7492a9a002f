//! Reasons why a runtime policy or a launch environment is refused.
use vstd::prelude::*;
use crate::path::FilePath;
use crate::text::decimal_text;
use crate::text::decimal;

verus! {

/// Why a runtime policy, a launch environment or a preflight report is refused.
#[derive(Clone, Debug, PartialEq, Eq)]
pub enum RuntimeValidationError {
    InvalidCapability(String),
    MissingDirectories,
    UnsafePath(&'static str, FilePath),
    InvalidLibrary(String),
    DuplicateLibrary(String),
    DuplicatePath(&'static str, FilePath),
    DirectoryOutsideHome(&'static str, FilePath, FilePath),
    PersistentRuntimeDirectory(FilePath),
    InvalidPolicyValue(&'static str, String),
    MissingCertificateSource,
    HostsWithDeniedNetwork,
    MissingListenPort,
    UnexpectedListenPort(u16),
    RequiredNetworkEnforcementUnavailable,
    InvalidHost(String),
    InvalidPathList(String),
    InvalidEnvironment(String),
    ReservedApplicationEnvironment(String),
    UnresolvedLibrary(String),
    MissingLaunchVariable(&'static str),
    MismatchedLaunchVariable(&'static str, FilePath, String),
    PolicyVariableMismatch(&'static str),
    InvalidCheckId(String),
    DuplicateCheckId(String),
    IncoherentPreflight,
    MissingLaunchEnvironment,
    PreflightEnvironmentMismatch,
}

/// The same reasons over texts.
pub enum RuntimeFault {
    InvalidCapability(Seq<char>),
    MissingDirectories,
    UnsafePath(Seq<char>, Seq<char>),
    InvalidLibrary(Seq<char>),
    DuplicateLibrary(Seq<char>),
    DuplicatePath(Seq<char>, Seq<char>),
    DirectoryOutsideHome(Seq<char>, Seq<char>, Seq<char>),
    PersistentRuntimeDirectory(Seq<char>),
    InvalidPolicyValue(Seq<char>, Seq<char>),
    MissingCertificateSource,
    HostsWithDeniedNetwork,
    MissingListenPort,
    UnexpectedListenPort(u16),
    RequiredNetworkEnforcementUnavailable,
    InvalidHost(Seq<char>),
    InvalidPathList(Seq<char>),
    InvalidEnvironment(Seq<char>),
    ReservedApplicationEnvironment(Seq<char>),
    UnresolvedLibrary(Seq<char>),
    MissingLaunchVariable(Seq<char>),
    MismatchedLaunchVariable(Seq<char>, Seq<char>, Seq<char>),
    PolicyVariableMismatch(Seq<char>),
    InvalidCheckId(Seq<char>),
    DuplicateCheckId(Seq<char>),
    IncoherentPreflight,
    MissingLaunchEnvironment,
    PreflightEnvironmentMismatch,
}

impl View for RuntimeValidationError {
    type V = RuntimeFault;

    open spec fn view(&self) -> RuntimeFault {
        match self {
            RuntimeValidationError::InvalidCapability(a) => RuntimeFault::InvalidCapability(a@),
            RuntimeValidationError::MissingDirectories => RuntimeFault::MissingDirectories,
            RuntimeValidationError::UnsafePath(a, b) => RuntimeFault::UnsafePath(a@, b@),
            RuntimeValidationError::InvalidLibrary(a) => RuntimeFault::InvalidLibrary(a@),
            RuntimeValidationError::DuplicateLibrary(a) => RuntimeFault::DuplicateLibrary(a@),
            RuntimeValidationError::DuplicatePath(a, b) => RuntimeFault::DuplicatePath(a@, b@),
            RuntimeValidationError::DirectoryOutsideHome(a, b, c) => {
                RuntimeFault::DirectoryOutsideHome(a@, b@, c@)
            },
            RuntimeValidationError::PersistentRuntimeDirectory(a) => {
                RuntimeFault::PersistentRuntimeDirectory(a@)
            },
            RuntimeValidationError::InvalidPolicyValue(a, b) => {
                RuntimeFault::InvalidPolicyValue(a@, b@)
            },
            RuntimeValidationError::MissingCertificateSource => {
                RuntimeFault::MissingCertificateSource
            },
            RuntimeValidationError::HostsWithDeniedNetwork => RuntimeFault::HostsWithDeniedNetwork,
            RuntimeValidationError::MissingListenPort => RuntimeFault::MissingListenPort,
            RuntimeValidationError::UnexpectedListenPort(a) => {
                RuntimeFault::UnexpectedListenPort(*a)
            },
            RuntimeValidationError::RequiredNetworkEnforcementUnavailable => {
                RuntimeFault::RequiredNetworkEnforcementUnavailable
            },
            RuntimeValidationError::InvalidHost(a) => RuntimeFault::InvalidHost(a@),
            RuntimeValidationError::InvalidPathList(a) => RuntimeFault::InvalidPathList(a@),
            RuntimeValidationError::InvalidEnvironment(a) => RuntimeFault::InvalidEnvironment(a@),
            RuntimeValidationError::ReservedApplicationEnvironment(a) => {
                RuntimeFault::ReservedApplicationEnvironment(a@)
            },
            RuntimeValidationError::UnresolvedLibrary(a) => RuntimeFault::UnresolvedLibrary(a@),
            RuntimeValidationError::MissingLaunchVariable(a) => {
                RuntimeFault::MissingLaunchVariable(a@)
            },
            RuntimeValidationError::MismatchedLaunchVariable(a, b, c) => {
                RuntimeFault::MismatchedLaunchVariable(a@, b@, c@)
            },
            RuntimeValidationError::PolicyVariableMismatch(a) => {
                RuntimeFault::PolicyVariableMismatch(a@)
            },
            RuntimeValidationError::InvalidCheckId(a) => RuntimeFault::InvalidCheckId(a@),
            RuntimeValidationError::DuplicateCheckId(a) => RuntimeFault::DuplicateCheckId(a@),
            RuntimeValidationError::IncoherentPreflight => RuntimeFault::IncoherentPreflight,
            RuntimeValidationError::MissingLaunchEnvironment => {
                RuntimeFault::MissingLaunchEnvironment
            },
            RuntimeValidationError::PreflightEnvironmentMismatch => {
                RuntimeFault::PreflightEnvironmentMismatch
            },
        }
    }
}

/// What a check reports: nothing, or its fault.
pub open spec fn reports(r: Result<(), RuntimeValidationError>, fault: Option<RuntimeFault>) -> bool {
    match r {
        Ok(_) => fault is None,
        Err(e) => fault == Some(e@),
    }
}

impl RuntimeFault {
    /// The reason in words.
    pub open spec fn text(self) -> Seq<char> {
        match self {
            RuntimeFault::InvalidCapability(a) => "invalid platform capability: "@ + a,
            RuntimeFault::MissingDirectories => "runtime directories are required"@,
            RuntimeFault::UnsafePath(a, b) => "unsafe "@ + a + " path: "@ + b,
            RuntimeFault::InvalidLibrary(a) => "invalid required library: "@ + a,
            RuntimeFault::DuplicateLibrary(a) => "duplicate required library: "@ + a,
            RuntimeFault::DuplicatePath(a, b) => "duplicate "@ + a + " path: "@ + b,
            RuntimeFault::DirectoryOutsideHome(a, b, c) => a + " path "@ + b + " must be a strict descendant of HOME "@ + c,
            RuntimeFault::PersistentRuntimeDirectory(a) => "XDG_RUNTIME_DIR must be ephemeral and outside HOME: "@ + a,
            RuntimeFault::InvalidPolicyValue(a, b) => "invalid "@ + a + " value: "@ + b,
            RuntimeFault::MissingCertificateSource => "a required certificate policy has no CA bundle or directory"@,
            RuntimeFault::HostsWithDeniedNetwork => "network hosts cannot be declared when network mode is deny or inbound"@,
            RuntimeFault::MissingListenPort => "inbound network mode requires a non-privileged listen_port"@,
            RuntimeFault::UnexpectedListenPort(a) => "listen_port "@ + decimal(a as nat) + " is only valid for inbound network mode"@,
            RuntimeFault::RequiredNetworkEnforcementUnavailable => "network policy requires OS enforcement, but only policy metadata is available"@,
            RuntimeFault::InvalidHost(a) => "invalid allowed network host: "@ + a,
            RuntimeFault::InvalidPathList(a) => "runtime path list cannot be represented in the process environment: "@ + a,
            RuntimeFault::InvalidEnvironment(a) => "invalid environment variable: "@ + a,
            RuntimeFault::ReservedApplicationEnvironment(a) => "application environment may not override platform variable "@ + a,
            RuntimeFault::UnresolvedLibrary(a) => "required library was not resolved: "@ + a,
            RuntimeFault::MissingLaunchVariable(a) => "launch environment is missing "@ + a,
            RuntimeFault::MismatchedLaunchVariable(a, b, c) => "launch variable "@ + a + " must be "@ + b + ", got "@ + c,
            RuntimeFault::PolicyVariableMismatch(a) => "launch variable "@ + a + " disagrees with its policy"@,
            RuntimeFault::InvalidCheckId(a) => "invalid preflight check id: "@ + a,
            RuntimeFault::DuplicateCheckId(a) => "duplicate preflight check id: "@ + a,
            RuntimeFault::IncoherentPreflight => "preflight compatible flag disagrees with its results"@,
            RuntimeFault::MissingLaunchEnvironment => "a compatible preflight report must contain a launch environment"@,
            RuntimeFault::PreflightEnvironmentMismatch => "preflight app/profile disagrees with its launch environment"@,
        }
    }
}

impl RuntimeValidationError {
    /// The reason in words.
    pub fn message(&self) -> (r: String)
        ensures
            r@ == self@.text(),
    {
        match self {
            RuntimeValidationError::InvalidCapability(a) => {
                let mut message = "invalid platform capability: ".to_owned();
                message.append(a.as_str());
                message
            },
            RuntimeValidationError::MissingDirectories => "runtime directories are required".to_owned(),
            RuntimeValidationError::UnsafePath(a, b) => {
                let mut message = "unsafe ".to_owned();
                message.append(a);
                message.append(" path: ");
                message.append(b.as_str());
                message
            },
            RuntimeValidationError::InvalidLibrary(a) => {
                let mut message = "invalid required library: ".to_owned();
                message.append(a.as_str());
                message
            },
            RuntimeValidationError::DuplicateLibrary(a) => {
                let mut message = "duplicate required library: ".to_owned();
                message.append(a.as_str());
                message
            },
            RuntimeValidationError::DuplicatePath(a, b) => {
                let mut message = "duplicate ".to_owned();
                message.append(a);
                message.append(" path: ");
                message.append(b.as_str());
                message
            },
            RuntimeValidationError::DirectoryOutsideHome(a, b, c) => {
                let mut message = String::new();
                message.append(a);
                message.append(" path ");
                message.append(b.as_str());
                message.append(" must be a strict descendant of HOME ");
                message.append(c.as_str());
                message
            },
            RuntimeValidationError::PersistentRuntimeDirectory(a) => {
                let mut message = "XDG_RUNTIME_DIR must be ephemeral and outside HOME: ".to_owned();
                message.append(a.as_str());
                message
            },
            RuntimeValidationError::InvalidPolicyValue(a, b) => {
                let mut message = "invalid ".to_owned();
                message.append(a);
                message.append(" value: ");
                message.append(b.as_str());
                message
            },
            RuntimeValidationError::MissingCertificateSource => "a required certificate policy has no CA bundle or directory".to_owned(),
            RuntimeValidationError::HostsWithDeniedNetwork => "network hosts cannot be declared when network mode is deny or inbound".to_owned(),
            RuntimeValidationError::MissingListenPort => "inbound network mode requires a non-privileged listen_port".to_owned(),
            RuntimeValidationError::UnexpectedListenPort(a) => {
                let mut message = "listen_port ".to_owned();
                message.append(decimal_text(*a as u64).as_str());
                message.append(" is only valid for inbound network mode");
                message
            },
            RuntimeValidationError::RequiredNetworkEnforcementUnavailable => "network policy requires OS enforcement, but only policy metadata is available".to_owned(),
            RuntimeValidationError::InvalidHost(a) => {
                let mut message = "invalid allowed network host: ".to_owned();
                message.append(a.as_str());
                message
            },
            RuntimeValidationError::InvalidPathList(a) => {
                let mut message = "runtime path list cannot be represented in the process environment: ".to_owned();
                message.append(a.as_str());
                message
            },
            RuntimeValidationError::InvalidEnvironment(a) => {
                let mut message = "invalid environment variable: ".to_owned();
                message.append(a.as_str());
                message
            },
            RuntimeValidationError::ReservedApplicationEnvironment(a) => {
                let mut message = "application environment may not override platform variable ".to_owned();
                message.append(a.as_str());
                message
            },
            RuntimeValidationError::UnresolvedLibrary(a) => {
                let mut message = "required library was not resolved: ".to_owned();
                message.append(a.as_str());
                message
            },
            RuntimeValidationError::MissingLaunchVariable(a) => {
                let mut message = "launch environment is missing ".to_owned();
                message.append(a);
                message
            },
            RuntimeValidationError::MismatchedLaunchVariable(a, b, c) => {
                let mut message = "launch variable ".to_owned();
                message.append(a);
                message.append(" must be ");
                message.append(b.as_str());
                message.append(", got ");
                message.append(c.as_str());
                message
            },
            RuntimeValidationError::PolicyVariableMismatch(a) => {
                let mut message = "launch variable ".to_owned();
                message.append(a);
                message.append(" disagrees with its policy");
                message
            },
            RuntimeValidationError::InvalidCheckId(a) => {
                let mut message = "invalid preflight check id: ".to_owned();
                message.append(a.as_str());
                message
            },
            RuntimeValidationError::DuplicateCheckId(a) => {
                let mut message = "duplicate preflight check id: ".to_owned();
                message.append(a.as_str());
                message
            },
            RuntimeValidationError::IncoherentPreflight => "preflight compatible flag disagrees with its results".to_owned(),
            RuntimeValidationError::MissingLaunchEnvironment => "a compatible preflight report must contain a launch environment".to_owned(),
            RuntimeValidationError::PreflightEnvironmentMismatch => "preflight app/profile disagrees with its launch environment".to_owned(),
        }
    }
}

/// A check passes exactly where there is no fault, and otherwise its error is the fault.
pub proof fn checks_report_their_fault(r: Result<(), RuntimeValidationError>, fault: Option<RuntimeFault>)
    requires
        reports(r, fault),
    ensures
        r is Ok <==> fault is None,
        r is Err <==> fault is Some,
        r is Err ==> r->Err_0@ == fault->0,
{
}

} // verus!
