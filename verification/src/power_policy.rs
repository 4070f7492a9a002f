//! System-wide power policy and observable state.
//!
//! These types describe policy rather than Linux mechanisms. Applications may
//! request bounded work through the runtime protocol, but only the supervisor
//! is allowed to translate that request into a wake lock, an RTC alarm, or a
//! process-freezer transition.
use vstd::prelude::*;
use crate::manifest::AppId;
use crate::text::decimal_text;
use crate::text::decimal;

verus! {

pub const DEFAULT_IDLE_SUSPEND_SECS: u64 = 120;

pub const MIN_IDLE_SUSPEND_SECS: u64 = 60;

pub const MAX_IDLE_SUSPEND_SECS: u64 = 30 * 60;

/// Where the device is on the way to or from suspension.
#[derive(Clone, Copy, Debug, PartialEq, Eq, Structural)]
pub enum PowerPhase {
    Awake,
    Quiescing,
    Suspended,
    Resuming,
    ExternallyBlocked,
}

impl Default for PowerPhase {
    fn default() -> (r: PowerPhase)
        ensures
            r == PowerPhase::Awake,
    {
        PowerPhase::Awake
    }
}

/// What the display shows.
#[derive(Clone, Debug, PartialEq, Eq)]
pub enum PresentationState {
    Blank,
    Home,
    Foreground(AppId),
    Lock,
}

impl Default for PresentationState {
    fn default() -> (r: PresentationState)
        ensures
            r == PresentationState::Blank,
    {
        PresentationState::Blank
    }
}

/// What the device is doing.
#[derive(Clone, Copy, Debug, PartialEq, Eq, Structural)]
pub enum WorkloadState {
    Idle,
    Interactive,
    ScheduledJob,
    Maintenance,
}

impl Default for WorkloadState {
    fn default() -> (r: WorkloadState)
        ensures
            r == WorkloadState::Idle,
    {
        WorkloadState::Idle
    }
}

/// Work that may keep the device awake.
#[derive(Clone, Copy, Debug, PartialEq, Eq, Structural)]
pub enum WorkClass {
    AgentTurn,
    Ocr,
    FileTransfer,
    PackageTransaction,
    StorageCommit,
    DisplayCommit,
}

impl WorkClass {
    /// The longest lease of a class of work, in milliseconds.
    pub open spec fn limit_ms(self) -> u64 {
        match self {
            WorkClass::AgentTurn => 180_000,
            WorkClass::Ocr => 180_000,
            WorkClass::FileTransfer => 30_000,
            WorkClass::PackageTransaction => 900_000,
            WorkClass::StorageCommit => 10_000,
            WorkClass::DisplayCommit => 10_000,
        }
    }

    /// The longest lease of this class of work, in milliseconds. Every class
    /// has one, of at most a quarter of an hour.
    pub fn maximum_lease_ms(self) -> (r: u64)
        ensures
            r == self.limit_ms(),
            0 < r <= 15 * 60_000,
    {
        match self {
            WorkClass::AgentTurn => 180_000,
            WorkClass::Ocr => 180_000,
            WorkClass::FileTransfer => 30_000,
            WorkClass::PackageTransaction => 15 * 60_000,
            WorkClass::StorageCommit => 10_000,
            WorkClass::DisplayCommit => 10_000,
        }
    }
}

/// The owner's choices on power.
#[derive(Clone, Copy, Debug, PartialEq, Eq, Structural)]
pub struct PowerSettings {
    pub schema: u32,
    /// Zero explicitly disables automatic suspension. The settings UI keeps
    /// this choice visible because it allows the managed wakelock to remain
    /// held indefinitely.
    pub idle_suspend_secs: u64,
}

impl Default for PowerSettings {
    fn default() -> (r: PowerSettings)
        ensures
            r.schema == 1,
            r.idle_suspend_secs == DEFAULT_IDLE_SUSPEND_SECS,
    {
        PowerSettings { schema: 1, idle_suspend_secs: DEFAULT_IDLE_SUSPEND_SECS }
    }
}

/// A time after which an idle device may be suspended, or zero for never.
pub open spec fn supported_idle_time(secs: u64) -> bool {
    secs == 0 || MIN_IDLE_SUSPEND_SECS <= secs <= MAX_IDLE_SUSPEND_SECS
}

impl PowerSettings {
    /// Checks the schema and the idle time.
    pub fn validate(&self) -> (r: Result<(), String>)
        ensures
            match r {
                Ok(_) => self.schema == 1 && supported_idle_time(self.idle_suspend_secs),
                Err(message) => if self.schema != 1 {
                    message@ == "unsupported power settings schema "@ + decimal(self.schema as nat)
                } else {
                    !supported_idle_time(self.idle_suspend_secs) && message@
                        == "idle suspension must be disabled or between 60 and 1800 seconds"@
                },
            },
    {
        if self.schema != 1 {
            let mut message = "unsupported power settings schema ".to_owned();
            message.append(decimal_text(self.schema as u64).as_str());
            return Err(message);
        }
        if self.idle_suspend_secs != 0 && (self.idle_suspend_secs < MIN_IDLE_SUSPEND_SECS
            || self.idle_suspend_secs > MAX_IDLE_SUSPEND_SECS) {
            return Err(
                "idle suspension must be disabled or between 60 and 1800 seconds".to_owned(),
            );
        }
        Ok(())
    }
}

/// A claim of an application on the device's attention.
#[derive(Clone, Debug, PartialEq, Eq)]
pub struct ResourceLease {
    pub id: u64,
    pub owner: AppId,
    pub class: WorkClass,
    pub reason: String,
    pub expires_at_unix_ms: u64,
}

/// All that can be observed of the power state.
#[derive(Clone, Debug, PartialEq, Eq)]
pub struct PowerSnapshot {
    pub phase: PowerPhase,
    pub presentation: PresentationState,
    pub workload: WorkloadState,
    pub idle_suspend_secs: u64,
    pub idle_deadline_unix_ms: Option<u64>,
    pub wake_lock_owners: Vec<String>,
    pub active_leases: Vec<ResourceLease>,
    pub next_wake_unix_ms: Option<u64>,
    pub suspend_successes: u64,
    pub last_wake_reason: Option<String>,
    pub external_blocker: Option<String>,
}

/// Work may keep the device awake for a while that depends on its kind: packages longest, the
/// assistant and reading for three minutes, transfers for half a minute, and commits shortest.
pub proof fn leases_are_bounded_by_their_kind(class: WorkClass)
    ensures
        class.limit_ms() == 900_000 <==> class == WorkClass::PackageTransaction,
        class.limit_ms() == 180_000 <==> class == WorkClass::AgentTurn || class == WorkClass::Ocr,
        class.limit_ms() == 30_000 <==> class == WorkClass::FileTransfer,
        class.limit_ms() == 10_000 <==> class == WorkClass::StorageCommit || class
            == WorkClass::DisplayCommit,
        class.limit_ms() <= WorkClass::PackageTransaction.limit_ms(),
        WorkClass::DisplayCommit.limit_ms() <= class.limit_ms(),
{
}

/// Automatic suspension is off, or it comes after one minute at the earliest and after thirty
/// minutes at the latest; the default is one of these.
pub proof fn idle_times_are_off_or_between_one_and_thirty_minutes(secs: u64)
    ensures
        supported_idle_time(secs) <==> secs == 0 || 60 <= secs <= 1800,
        supported_idle_time(DEFAULT_IDLE_SUSPEND_SECS),
        DEFAULT_IDLE_SUSPEND_SECS != 0,
{
}

} // verus!
