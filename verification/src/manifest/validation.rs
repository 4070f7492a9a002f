//! Checks on a manifest.
use vstd::prelude::*;
use crate::first::{either, first_some};
use crate::first::{lemma_first_at, lemma_first_none, no_first_finding_means_none};
use crate::manifest::error::{reports, ManifestFault};
use crate::manifest::{
    AppManifest, BackgroundService, DataSchema, ManifestError, ParkStrategy, ReadinessMode,
    MANIFEST_SCHEMA_V1, MANIFEST_SCHEMA_V2, MAX_SHUTDOWN_KILL_TIMEOUT_MS, REMAGIC_APP_API_VERSION,
};
use crate::manifest::same_service;
use crate::ordered::{
    is_least, least, lemma_least_is, listed_keys_have_a_first, lists_keys, value_texts,
};
use crate::path::FilePath;
use crate::path::{
    components, entries_lie_below_their_directory, joined, lying_below_is_transitive, path_texts,
    safe_absolute, within,
};
use crate::runtime::environment::validation::{reserved_variable, valid_pair};
use crate::runtime::policy::{path_repeats_earlier, repeats_earlier};
use crate::runtime::policy::{path_repeats, text_repeats};
use crate::runtime::{
    is_platform_reserved_environment, validate_environment_pair, BackgroundExecution, NetworkMode,
    RuntimeProfile,
};
use crate::text::{
    byte_count, contains_char, has_prefix, has_suffix, text_admitted, text_eq, text_is_blank,
    CharClass,
};
use crate::text::{all_admitted, byte_len, is_blank, text_less, texts};

verus! {

/// The fault of a path that has to be absolute and free of upward steps.
pub open spec fn path_fault(field: Seq<char>, path: Seq<char>) -> Option<ManifestFault> {
    if safe_absolute(path) {
        None
    } else {
        Some(ManifestFault::UnsafePath(field, path))
    }
}

fn validate_absolute(field: &'static str, path: &FilePath) -> (r: Result<(), ManifestError>)
    ensures
        reports(r, path_fault(field@, path@)),
{
    if path.is_safe_absolute() {
        Ok(())
    } else {
        Err(ManifestError::UnsafePath(field, path.clone()))
    }
}

/// The first fault of a list of paths.
pub open spec fn paths_fault(field: Seq<char>, paths: Seq<Seq<char>>) -> Option<ManifestFault> {
    first_some(Seq::new(paths.len(), |i: int| path_fault(field, paths[i])))
}

fn validate_all_absolute(field: &'static str, paths: &[FilePath]) -> (r: Result<(), ManifestError>)
    ensures
        reports(r, paths_fault(field@, path_texts(paths@))),
{
    let ghost list = path_texts(paths@);
    let ghost faults = Seq::new(list.len(), |i: int| path_fault(field@, list[i]));
    let mut i: usize = 0;
    while i < paths.len()
        invariant
            i <= paths.len(),
            list == path_texts(paths@),
            faults == Seq::new(list.len(), |i: int| path_fault(field@, list[i])),
            forall|j: int| 0 <= j < i ==> faults[j] is None,
        decreases paths.len() - i,
    {
        assert(list[i as int] == paths@[i as int]@);
        if let Err(e) = validate_absolute(field, &paths[i]) {
            proof {
                lemma_first_at(faults, i as int);
            }
            return Err(e);
        }
        i = i + 1;
    }
    proof {
        lemma_first_none(faults);
    }
    Ok(())
}

/// A name that the launcher itself sets.
pub open spec fn launcher_variable(key: Seq<char>) -> bool {
    key == "PATH"@ || key == "REMAGIC_SOCKET"@ || key == "REMAGIC_APP_ID"@ || key
        == "REMAGIC_LAUNCH_ID"@
}

/// A variable that a manifest may not declare.
pub open spec fn unsafe_variable(schema: u32, key: Seq<char>, value: Seq<char>) -> bool {
    ||| key.len() == 0
    ||| key.contains('=')
    ||| key.contains('\0')
    ||| launcher_variable(key)
    ||| value.contains('\0')
    ||| schema == MANIFEST_SCHEMA_V2 && (reserved_variable(key) || !valid_pair(key, value))
}

fn is_unsafe_variable(schema: u32, key: &str, value: &str) -> (r: bool)
    ensures
        r == unsafe_variable(schema, key@, value@),
{
    key.is_empty() || contains_char(key, '=') || contains_char(key, '\0') || text_eq(key, "PATH")
        || text_eq(key, "REMAGIC_SOCKET") || text_eq(key, "REMAGIC_APP_ID") || text_eq(
        key,
        "REMAGIC_LAUNCH_ID",
    ) || contains_char(value, '\0') || (schema == MANIFEST_SCHEMA_V2 && (
    is_platform_reserved_environment(key) || validate_environment_pair(key, value).is_err()))
}

/// Whether one of a list of strings holds the NUL character.
pub open spec fn any_nul(list: Seq<Seq<char>>) -> bool {
    exists|i: int| 0 <= i < list.len() && (#[trigger] list[i]).contains('\0')
}

fn holds_nul(list: &[String]) -> (r: bool)
    ensures
        r == any_nul(texts(list@)),
{
    let ghost all = texts(list@);
    let mut i: usize = 0;
    while i < list.len()
        invariant
            i <= list.len(),
            all == texts(list@),
            forall|j: int| 0 <= j < i ==> !(#[trigger] all[j]).contains('\0'),
        decreases list.len() - i,
    {
        assert(all[i as int] == list@[i as int]@);
        if contains_char(list[i].as_str(), '\0') {
            assert(all[i as int].contains('\0'));
            return true;
        }
        i = i + 1;
    }
    false
}

/// The name of a systemd service unit.
pub open spec fn valid_unit(s: Seq<char>) -> bool {
    &&& byte_len(s) <= 128
    &&& ".service"@.is_suffix_of(s)
    &&& all_admitted(CharClass::Unit, s)
}

/// The fault of a background service.
pub open spec fn service_fault(service: BackgroundService) -> Option<ManifestFault> {
    match service {
        BackgroundService::Managed { executable, args, working_dir, restart: _ } => either(
            path_fault("background_service.exec"@, executable@),
            either(
                path_fault("background_service.working_dir"@, working_dir@),
                if any_nul(texts(args@)) {
                    Some(ManifestFault::InvalidArgument)
                } else {
                    None
                },
            ),
        ),
        BackgroundService::Systemd { unit } => if valid_unit(unit@) {
            None
        } else {
            Some(ManifestFault::InvalidSystemdUnit(unit@))
        },
    }
}

fn validate_service(service: &BackgroundService) -> (r: Result<(), ManifestError>)
    ensures
        reports(r, service_fault(*service)),
{
    match service {
        BackgroundService::Managed { executable, args, working_dir, restart: _ } => {
            if let Err(e) = validate_absolute("background_service.exec", executable) {
                return Err(e);
            }
            if let Err(e) = validate_absolute("background_service.working_dir", working_dir) {
                return Err(e);
            }
            if holds_nul(args) {
                return Err(ManifestError::InvalidArgument);
            }
            Ok(())
        },
        BackgroundService::Systemd { unit } => {
            if byte_count(unit.as_str()) <= 128 && has_suffix(unit.as_str(), ".service")
                && text_admitted(CharClass::Unit, unit.as_str()) {
                Ok(())
            } else {
                Err(ManifestError::InvalidSystemdUnit(unit.clone()))
            }
        },
    }
}

/// A time allowance of a data schema.
pub open spec fn valid_allowance(ms: u64) -> bool {
    100 <= ms <= 600_000
}

/// The fault of one backup path by itself or against the earlier ones.
pub open spec fn backup_path_fault(paths: Seq<Seq<char>>, i: int) -> Option<ManifestFault> {
    if !safe_absolute(paths[i]) {
        Some(ManifestFault::UnsafePath("data_schema.backup_paths"@, paths[i]))
    } else if path_repeats(paths, i) {
        Some(ManifestFault::DuplicateBackupPath(paths[i]))
    } else {
        None
    }
}

/// The fault of two backup paths of which one lies within the other.
pub open spec fn overlap_fault(paths: Seq<Seq<char>>, i: int, j: int) -> Option<ManifestFault> {
    if within(paths[i], paths[j]) || within(paths[j], paths[i]) {
        Some(ManifestFault::OverlappingBackupPaths(paths[i], paths[j]))
    } else {
        None
    }
}

/// The first overlap of a backup path with a later one.
pub open spec fn later_overlap(paths: Seq<Seq<char>>, i: int) -> Option<ManifestFault> {
    first_some(
        Seq::new((paths.len() - i - 1) as nat, |d: int| overlap_fault(paths, i, i + 1 + d)),
    )
}

/// The first fault of the backup paths.
pub open spec fn backup_paths_fault(paths: Seq<Seq<char>>) -> Option<ManifestFault> {
    either(
        first_some(Seq::new(paths.len(), |i: int| backup_path_fault(paths, i))),
        first_some(Seq::new(paths.len(), |i: int| later_overlap(paths, i))),
    )
}

fn validate_each_backup_path(paths: &[FilePath]) -> (r: Result<(), ManifestError>)
    ensures
        reports(
            r,
            first_some(
                Seq::new(path_texts(paths@).len(), |i: int| backup_path_fault(path_texts(paths@), i)),
            ),
        ),
{
    let ghost list = path_texts(paths@);
    let ghost faults = Seq::new(list.len(), |i: int| backup_path_fault(list, i));
    let mut i: usize = 0;
    while i < paths.len()
        invariant
            i <= paths.len(),
            list == path_texts(paths@),
            faults == Seq::new(list.len(), |i: int| backup_path_fault(list, i)),
            forall|j: int| 0 <= j < i ==> faults[j] is None,
        decreases paths.len() - i,
    {
        assert(list[i as int] == paths@[i as int]@);
        if let Err(e) = validate_absolute("data_schema.backup_paths", &paths[i]) {
            proof {
                lemma_first_at(faults, i as int);
            }
            return Err(e);
        }
        if path_repeats_earlier(paths, i) {
            proof {
                lemma_first_at(faults, i as int);
            }
            return Err(ManifestError::DuplicateBackupPath(paths[i].clone()));
        }
        i = i + 1;
    }
    proof {
        lemma_first_none(faults);
    }
    Ok(())
}

fn validate_no_later_overlap(paths: &[FilePath], i: usize) -> (r: Result<(), ManifestError>)
    requires
        i < paths@.len(),
    ensures
        reports(r, later_overlap(path_texts(paths@), i as int)),
{
    let ghost list = path_texts(paths@);
    let ghost faults = Seq::new(
        (list.len() - i - 1) as nat,
        |d: int| overlap_fault(list, i as int, i + 1 + d),
    );
    let n: usize = paths.len();
    let mut k: usize = i + 1;
    while k < n
        invariant
            i < k <= n,
            n == paths@.len(),
            list == path_texts(paths@),
            faults == Seq::new(
                (list.len() - i - 1) as nat,
                |d: int| overlap_fault(list, i as int, i + 1 + d),
            ),
            forall|d: int| 0 <= d < k - i - 1 ==> faults[d] is None,
        decreases n - k,
    {
        assert(list[i as int] == paths@[i as int]@);
        assert(list[k as int] == paths@[k as int]@);
        if paths[i].starts_with(&paths[k]) || paths[k].starts_with(&paths[i]) {
            proof {
                lemma_first_at(faults, k - i - 1);
            }
            return Err(ManifestError::OverlappingBackupPaths(paths[i].clone(), paths[k].clone()));
        }
        k = k + 1;
    }
    proof {
        lemma_first_none(faults);
    }
    Ok(())
}

fn validate_backup_paths(paths: &[FilePath]) -> (r: Result<(), ManifestError>)
    ensures
        reports(r, backup_paths_fault(path_texts(paths@))),
{
    if let Err(e) = validate_each_backup_path(paths) {
        return Err(e);
    }
    let ghost list = path_texts(paths@);
    let ghost faults = Seq::new(list.len(), |i: int| later_overlap(list, i));
    let mut i: usize = 0;
    while i < paths.len()
        invariant
            i <= paths.len(),
            list == path_texts(paths@),
            first_some(Seq::new(list.len(), |i: int| backup_path_fault(list, i))) is None,
            faults == Seq::new(list.len(), |i: int| later_overlap(list, i)),
            forall|j: int| 0 <= j < i ==> faults[j] is None,
        decreases paths.len() - i,
    {
        if let Err(e) = validate_no_later_overlap(paths, i) {
            proof {
                lemma_first_at(faults, i as int);
            }
            return Err(e);
        }
        i = i + 1;
    }
    proof {
        lemma_first_none(faults);
    }
    Ok(())
}

/// The first fault of a data schema.
pub open spec fn data_fault(schema: DataSchema) -> Option<ManifestFault> {
    if schema.version == 0 {
        Some(ManifestFault::InvalidDataSchemaVersion)
    } else if !valid_allowance(schema.backup_timeout_ms) {
        Some(ManifestFault::InvalidBackupTimeout(schema.backup_timeout_ms))
    } else if !valid_allowance(schema.migration_timeout_ms) {
        Some(ManifestFault::InvalidMigrationTimeout(schema.migration_timeout_ms))
    } else {
        either(
            match schema.migrator {
                Some(migrator) => path_fault("data_schema.migrator"@, migrator@),
                None => None,
            },
            backup_paths_fault(path_texts(schema.backup_paths@)),
        )
    }
}

impl AppManifest {
    /// The names of the required capabilities.
    pub open spec fn capability_names(&self) -> Seq<Seq<char>> {
        self.capabilities@.map_values(|c: crate::runtime::Capability| c@)
    }

    /// The first fault of the identity and the paths.
    pub open spec fn identity_fault(&self) -> Option<ManifestFault> {
        if self.schema != MANIFEST_SCHEMA_V1 && self.schema != MANIFEST_SCHEMA_V2 {
            Some(ManifestFault::UnsupportedSchema(self.schema))
        } else if is_blank(self.name@) {
            Some(ManifestFault::EmptyName(self.id@))
        } else {
            either(
                path_fault("exec"@, self.executable@),
                either(
                    path_fault("working_dir"@, self.working_dir@),
                    either(
                        match self.icon {
                            Some(icon) => path_fault("icon"@, icon@),
                            None => None,
                        },
                        either(
                            paths_fault("allowed_open_roots"@, path_texts(self.allowed_open_roots@)),
                            if self.display@ == "qtfb"@ || self.display@ == "quill"@
                                || self.display@ == "einkface"@ || self.display@ == "none"@ {
                                None
                            } else {
                                Some(ManifestFault::UnsupportedDisplay(self.display@))
                            },
                        ),
                    ),
                ),
            )
        }
    }

    /// The declared variables that are not safe.
    pub open spec fn unsafe_keys(&self) -> Set<Seq<char>> {
        Set::new(
            |k: Seq<char>|
                self.environment@.contains_key(k) && unsafe_variable(
                    self.schema,
                    k,
                    self.environment@[k]@,
                ),
        )
    }

    /// The fault of the first declared variable that is not safe.
    pub open spec fn environment_fault(&self) -> Option<ManifestFault> {
        match least(self.unsafe_keys()) {
            Some(key) => Some(ManifestFault::UnsafeEnvironment(key)),
            None => None,
        }
    }

    /// The first fault of the arguments and capabilities.
    pub open spec fn arguments_fault(&self) -> Option<ManifestFault> {
        let names = self.capability_names();
        if any_nul(texts(self.args@)) {
            Some(ManifestFault::InvalidArgument)
        } else {
            first_some(
                Seq::new(
                    names.len(),
                    |i: int|
                        if text_repeats(names, i) {
                            Some(ManifestFault::DuplicateCapability(names[i]))
                        } else {
                            None
                        },
                ),
            )
        }
    }

    /// The fault of one supported device that stood before.
    pub open spec fn device_fault(&self, i: int) -> Option<ManifestFault> {
        if exists|j: int|
            0 <= j < i && #[trigger] self.supported_devices@[j] == self.supported_devices@[i] {
            Some(ManifestFault::DuplicateSupportedDevice(self.supported_devices@[i]))
        } else {
            None
        }
    }

    /// The fault of one supported OS build: empty, or one that stood before.
    pub open spec fn os_fault(&self, i: int) -> Option<ManifestFault> {
        let list = texts(self.supported_os@);
        if is_blank(list[i]) || text_repeats(list, i) {
            Some(ManifestFault::InvalidSupportedOs(list[i]))
        } else {
            None
        }
    }

    /// The first fault of the declared compatibility.
    pub open spec fn compatibility_fault(&self) -> Option<ManifestFault> {
        if !(1 <= self.required_remagic_api <= REMAGIC_APP_API_VERSION) {
            Some(ManifestFault::UnsupportedRemagicApi(self.required_remagic_api))
        } else {
            either(
                first_some(
                    Seq::new(self.supported_devices@.len(), |i: int| self.device_fault(i)),
                ),
                first_some(Seq::new(self.supported_os@.len(), |i: int| self.os_fault(i))),
            )
        }
    }

    /// The fault of the readiness policy.
    pub open spec fn readiness_fault(&self) -> Option<ManifestFault> {
        if !(100 <= self.readiness.timeout_ms <= 120_000) {
            Some(ManifestFault::InvalidReadinessTimeout(self.readiness.timeout_ms))
        } else {
            match (self.readiness.mode, self.readiness.path) {
                (ReadinessMode::File, Some(path)) => path_fault("readiness.path"@, path@),
                (ReadinessMode::File, None) => Some(ManifestFault::MissingReadinessPath),
                (_, Some(_)) => Some(ManifestFault::UnexpectedReadinessPath),
                (_, None) => None,
            }
        }
    }

    /// Shutdown deadlines in increasing order within the platform's limits.
    pub open spec fn shutdown_in_order(&self) -> bool {
        100 <= self.shutdown.graceful_timeout_ms <= self.shutdown.term_timeout_ms
            <= self.shutdown.kill_timeout_ms <= MAX_SHUTDOWN_KILL_TIMEOUT_MS
    }

    /// The fault of the shutdown policy.
    pub open spec fn shutdown_fault(&self) -> Option<ManifestFault> {
        if self.shutdown_in_order() {
            None
        } else {
            Some(
                ManifestFault::InvalidShutdownPolicy(
                    self.shutdown.graceful_timeout_ms,
                    self.shutdown.term_timeout_ms,
                    self.shutdown.kill_timeout_ms,
                ),
            )
        }
    }

    /// The fault of the background service.
    pub open spec fn background_fault(&self) -> Option<ManifestFault> {
        match self.background_service {
            Some(service) => service_fault(service),
            None => None,
        }
    }

    /// The fault of the data schema.
    pub open spec fn data_schema_fault(&self) -> Option<ManifestFault> {
        match self.data_schema {
            Some(schema) => if self.schema != MANIFEST_SCHEMA_V2 {
                Some(ManifestFault::DataSchemaRequiresV2)
            } else {
                data_fault(schema)
            },
            None => None,
        }
    }

    /// The fault of the runtime requirements.
    pub open spec fn runtime_fault(&self) -> Option<ManifestFault> {
        match self.runtime.fault(self.schema == MANIFEST_SCHEMA_V2) {
            Some(fault) => Some(ManifestFault::Runtime(fault)),
            None => None,
        }
    }

    /// Whether a capability is required.
    pub open spec fn requires_capability(&self, name: Seq<char>) -> bool {
        self.capability_names().contains(name)
    }

    /// The fault of an application that wants to be frozen.
    pub open spec fn freeze_fault(&self) -> Option<ManifestFault> {
        if self.runtime.background_execution != BackgroundExecution::Freeze {
            None
        } else if self.schema != MANIFEST_SCHEMA_V2 {
            Some(ManifestFault::FreezeRequiresV2)
        } else if !self.resident {
            Some(ManifestFault::FreezeRequiresResident)
        } else if !self.requires_capability("lifecycle:v2"@) {
            Some(ManifestFault::FreezeRequiresLifecycleV2)
        } else {
            None
        }
    }

    /// The display backend of a runtime profile.
    pub open spec fn profile_display(profile: RuntimeProfile) -> Seq<char> {
        match profile {
            RuntimeProfile::QtfbCompat => "qtfb"@,
            RuntimeProfile::NativeV2 => "quill"@,
            RuntimeProfile::Headless => "none"@,
        }
    }

    /// The fault of the display of a runtime profile.
    pub open spec fn display_fault(&self) -> Option<ManifestFault> {
        let profile = self.runtime.profile;
        let needed = match profile {
            RuntimeProfile::QtfbCompat => Some("display:qtfb-v1"@),
            RuntimeProfile::NativeV2 => Some("display:surface-v2"@),
            RuntimeProfile::Headless => None,
        };
        if self.display@ != Self::profile_display(profile) {
            Some(
                ManifestFault::RuntimeDisplayMismatch(
                    profile,
                    Self::profile_display(profile),
                    self.display@,
                ),
            )
        } else {
            match needed {
                Some(capability) => if self.requires_capability(capability) {
                    None
                } else {
                    Some(ManifestFault::MissingRuntimeCapability(profile, capability))
                },
                None => if exists|i: int|
                    0 <= i < self.capabilities@.len() && "display:"@.is_prefix_of(
                        (#[trigger] self.capabilities@[i])@,
                    ) {
                    Some(ManifestFault::HeadlessDisplayCapability)
                } else {
                    None
                },
            }
        }
    }

    /// The fault of a network mode that the capabilities contradict.
    pub open spec fn network_fault(&self) -> Option<ManifestFault> {
        let mode = self.runtime.network.mode;
        let outbound = self.requires_capability("network:outbound-v1"@);
        if mode == NetworkMode::Deny && outbound {
            Some(
                ManifestFault::NetworkCapabilityMismatch(mode, "no network:outbound-v1 capability"@),
            )
        } else if mode != NetworkMode::Deny && !outbound {
            Some(ManifestFault::NetworkCapabilityMismatch(mode, "network:outbound-v1"@))
        } else {
            None
        }
    }

    /// The first fault of what only a schema v2 manifest is held to.
    pub open spec fn v2_fault(&self) -> Option<ManifestFault> {
        if self.schema != MANIFEST_SCHEMA_V2 {
            None
        } else if self.park_strategy == ParkStrategy::Resident && !self.resident {
            Some(ManifestFault::ConflictingResidentPolicy)
        } else if self.background_unit is Some {
            Some(ManifestFault::LegacyFieldInV2("background_unit"@))
        } else {
            either(self.display_fault(), self.network_fault())
        }
    }

    /// The first fault of the manifest.
    pub open spec fn fault(&self) -> Option<ManifestFault> {
        either(
            self.identity_fault(),
            either(
                self.environment_fault(),
                either(
                    self.arguments_fault(),
                    either(
                        self.compatibility_fault(),
                        either(
                            self.readiness_fault(),
                            either(
                                self.shutdown_fault(),
                                either(
                                    self.background_fault(),
                                    either(
                                        self.data_schema_fault(),
                                        either(
                                            self.runtime_fault(),
                                            either(self.freeze_fault(), self.v2_fault()),
                                        ),
                                    ),
                                ),
                            ),
                        ),
                    ),
                ),
            ),
        )
    }

    /// Checks the manifest.
    pub fn validate(&self) -> (r: Result<(), ManifestError>)
        ensures
            reports(r, self.fault()),
    {
        if let Err(e) = self.validate_identity_and_paths() {
            return Err(e);
        }
        if let Err(e) = self.validate_environment() {
            return Err(e);
        }
        if let Err(e) = self.validate_arguments_and_capabilities() {
            return Err(e);
        }
        if let Err(e) = self.validate_compatibility() {
            return Err(e);
        }
        if let Err(e) = self.validate_readiness() {
            return Err(e);
        }
        if let Err(e) = self.validate_shutdown() {
            return Err(e);
        }
        if let Err(e) = self.validate_background_service() {
            return Err(e);
        }
        if let Err(e) = self.validate_data_schema() {
            return Err(e);
        }
        if let Err(e) = self.runtime.validate(self.schema == MANIFEST_SCHEMA_V2) {
            return Err(ManifestError::Runtime(e));
        }
        if let Err(e) = self.validate_background_execution() {
            return Err(e);
        }
        if self.schema == MANIFEST_SCHEMA_V2 {
            return self.validate_v2_fields();
        }
        Ok(())
    }

    fn validate_identity_and_paths(&self) -> (r: Result<(), ManifestError>)
        ensures
            reports(r, self.identity_fault()),
    {
        if self.schema != MANIFEST_SCHEMA_V1 && self.schema != MANIFEST_SCHEMA_V2 {
            return Err(ManifestError::UnsupportedSchema(self.schema));
        }
        if text_is_blank(self.name.as_str()) {
            return Err(ManifestError::EmptyName(self.id.to_text()));
        }
        if let Err(e) = validate_absolute("exec", &self.executable) {
            return Err(e);
        }
        if let Err(e) = validate_absolute("working_dir", &self.working_dir) {
            return Err(e);
        }
        if let Some(icon) = &self.icon {
            if let Err(e) = validate_absolute("icon", icon) {
                return Err(e);
            }
        }
        if let Err(e) = validate_all_absolute("allowed_open_roots", &self.allowed_open_roots) {
            return Err(e);
        }
        if !(text_eq(self.display.as_str(), "qtfb") || text_eq(self.display.as_str(), "quill")
            || text_eq(self.display.as_str(), "einkface") || text_eq(
            self.display.as_str(),
            "none",
        )) {
            return Err(ManifestError::UnsupportedDisplay(self.display.clone()));
        }
        Ok(())
    }

    fn validate_environment(&self) -> (r: Result<(), ManifestError>)
        ensures
            reports(r, self.environment_fault()),
    {
        let ghost faulty = self.unsafe_keys();
        let n: usize = self.environment.len();
        let ghost keys = self.environment.keys();
        let mut i: usize = 0;
        while i < n
            invariant
                i <= n,
                n == keys.len(),
                keys == self.environment.keys(),
                lists_keys(keys, self.environment@),
                faulty == self.unsafe_keys(),
                forall|j: int| 0 <= j < i ==> !faulty.contains(#[trigger] keys[j]),
            decreases n - i,
        {
            let key = self.environment.key_at(i);
            let value = self.environment.value_at(i);
            if is_unsafe_variable(self.schema, key.as_str(), value.as_str()) {
                proof {
                    assert(faulty.contains(key@));
                    assert forall|other: Seq<char>| #[trigger] faulty.contains(other) implies other
                        == key@ || text_less(key@, other) by {
                        assert(keys.contains(other));
                        let j = choose|j: int| 0 <= j < keys.len() && keys[j] == other;
                        assert(!(j < i));
                    }
                    assert(is_least(faulty, key@));
                    lemma_least_is(faulty, key@);
                }
                return Err(ManifestError::UnsafeEnvironment(key.clone()));
            }
            i = i + 1;
        }
        assert(least(faulty) is None) by {
            if least(faulty) is Some {
                let k = choose|k: Seq<char>| is_least(faulty, k);
                assert(keys.contains(k));
                let j = choose|j: int| 0 <= j < keys.len() && keys[j] == k;
                assert(!faulty.contains(keys[j]));
            }
        }
        Ok(())
    }

    fn capability_repeats(&self, i: usize) -> (r: bool)
        requires
            i < self.capabilities@.len(),
        ensures
            r == text_repeats(self.capability_names(), i as int),
    {
        let ghost names = self.capability_names();
        let mut k: usize = 0;
        while k < i
            invariant
                k <= i < self.capabilities@.len(),
                names == self.capability_names(),
                forall|j: int| 0 <= j < k ==> #[trigger] names[j] != names[i as int],
            decreases i - k,
        {
            if text_eq(self.capabilities[k].as_str(), self.capabilities[i].as_str()) {
                assert(names[k as int] == names[i as int]);
                return true;
            }
            k = k + 1;
        }
        false
    }

    fn validate_arguments_and_capabilities(&self) -> (r: Result<(), ManifestError>)
        ensures
            reports(r, self.arguments_fault()),
    {
        if holds_nul(&self.args) {
            return Err(ManifestError::InvalidArgument);
        }
        let ghost names = self.capability_names();
        let ghost faults = Seq::new(
            names.len(),
            |i: int|
                if text_repeats(names, i) {
                    Some(ManifestFault::DuplicateCapability(names[i]))
                } else {
                    None
                },
        );
        let mut i: usize = 0;
        while i < self.capabilities.len()
            invariant
                i <= self.capabilities@.len(),
                !any_nul(texts(self.args@)),
                names == self.capability_names(),
                faults == Seq::new(
                    names.len(),
                    |i: int|
                        if text_repeats(names, i) {
                            Some(ManifestFault::DuplicateCapability(names[i]))
                        } else {
                            None
                        },
                ),
                forall|j: int| 0 <= j < i ==> faults[j] is None,
            decreases self.capabilities@.len() - i,
        {
            if self.capability_repeats(i) {
                proof {
                    lemma_first_at(faults, i as int);
                }
                return Err(ManifestError::DuplicateCapability(self.capabilities[i].to_text()));
            }
            i = i + 1;
        }
        proof {
            lemma_first_none(faults);
        }
        Ok(())
    }

    fn device_repeats(&self, i: usize) -> (r: bool)
        requires
            i < self.supported_devices@.len(),
        ensures
            r == (self.device_fault(i as int) is Some),
    {
        let mut k: usize = 0;
        while k < i
            invariant
                k <= i < self.supported_devices@.len(),
                forall|j: int|
                    0 <= j < k ==> #[trigger] self.supported_devices@[j]
                        != self.supported_devices@[i as int],
            decreases i - k,
        {
            if self.supported_devices[k] == self.supported_devices[i] {
                assert(self.supported_devices@[k as int] == self.supported_devices@[i as int]);
                return true;
            }
            k = k + 1;
        }
        false
    }

    fn validate_devices(&self) -> (r: Result<(), ManifestError>)
        ensures
            reports(
                r,
                first_some(
                    Seq::new(self.supported_devices@.len(), |i: int| self.device_fault(i)),
                ),
            ),
    {
        let ghost faults = Seq::new(self.supported_devices@.len(), |i: int| self.device_fault(i));
        let mut i: usize = 0;
        while i < self.supported_devices.len()
            invariant
                i <= self.supported_devices@.len(),
                faults == Seq::new(self.supported_devices@.len(), |i: int| self.device_fault(i)),
                forall|j: int| 0 <= j < i ==> faults[j] is None,
            decreases self.supported_devices@.len() - i,
        {
            if self.device_repeats(i) {
                proof {
                    lemma_first_at(faults, i as int);
                }
                return Err(ManifestError::DuplicateSupportedDevice(self.supported_devices[i]));
            }
            i = i + 1;
        }
        proof {
            lemma_first_none(faults);
        }
        Ok(())
    }

    fn validate_os_builds(&self) -> (r: Result<(), ManifestError>)
        ensures
            reports(r, first_some(Seq::new(self.supported_os@.len(), |i: int| self.os_fault(i)))),
    {
        let ghost faults = Seq::new(self.supported_os@.len(), |i: int| self.os_fault(i));
        let mut i: usize = 0;
        while i < self.supported_os.len()
            invariant
                i <= self.supported_os@.len(),
                faults == Seq::new(self.supported_os@.len(), |i: int| self.os_fault(i)),
                forall|j: int| 0 <= j < i ==> faults[j] is None,
            decreases self.supported_os@.len() - i,
        {
            assert(texts(self.supported_os@)[i as int] == self.supported_os@[i as int]@);
            if text_is_blank(self.supported_os[i].as_str()) || repeats_earlier(
                &self.supported_os,
                i,
            ) {
                proof {
                    lemma_first_at(faults, i as int);
                }
                return Err(ManifestError::InvalidSupportedOs(self.supported_os[i].clone()));
            }
            i = i + 1;
        }
        proof {
            lemma_first_none(faults);
        }
        Ok(())
    }

    fn validate_compatibility(&self) -> (r: Result<(), ManifestError>)
        ensures
            reports(r, self.compatibility_fault()),
    {
        if self.required_remagic_api < 1 || self.required_remagic_api > REMAGIC_APP_API_VERSION {
            return Err(ManifestError::UnsupportedRemagicApi(self.required_remagic_api));
        }
        if let Err(e) = self.validate_devices() {
            return Err(e);
        }
        self.validate_os_builds()
    }

    fn validate_readiness(&self) -> (r: Result<(), ManifestError>)
        ensures
            reports(r, self.readiness_fault()),
    {
        if self.readiness.timeout_ms < 100 || self.readiness.timeout_ms > 120_000 {
            return Err(ManifestError::InvalidReadinessTimeout(self.readiness.timeout_ms));
        }
        match &self.readiness.path {
            Some(path) => if self.readiness.mode == ReadinessMode::File {
                validate_absolute("readiness.path", path)
            } else {
                Err(ManifestError::UnexpectedReadinessPath)
            },
            None => if self.readiness.mode == ReadinessMode::File {
                Err(ManifestError::MissingReadinessPath)
            } else {
                Ok(())
            },
        }
    }

    fn validate_shutdown(&self) -> (r: Result<(), ManifestError>)
        ensures
            reports(r, self.shutdown_fault()),
    {
        let policy = &self.shutdown;
        if policy.graceful_timeout_ms < 100 || policy.graceful_timeout_ms > policy.term_timeout_ms
            || policy.term_timeout_ms > policy.kill_timeout_ms || policy.kill_timeout_ms
            > MAX_SHUTDOWN_KILL_TIMEOUT_MS {
            return Err(
                ManifestError::InvalidShutdownPolicy {
                    graceful_timeout_ms: policy.graceful_timeout_ms,
                    term_timeout_ms: policy.term_timeout_ms,
                    kill_timeout_ms: policy.kill_timeout_ms,
                },
            );
        }
        Ok(())
    }

    fn validate_background_service(&self) -> (r: Result<(), ManifestError>)
        ensures
            reports(r, self.background_fault()),
    {
        match &self.background_service {
            Some(service) => validate_service(service),
            None => Ok(()),
        }
    }

    fn validate_data_schema(&self) -> (r: Result<(), ManifestError>)
        ensures
            reports(r, self.data_schema_fault()),
    {
        let schema = match &self.data_schema {
            Some(schema) => schema,
            None => return Ok(()),
        };
        if self.schema != MANIFEST_SCHEMA_V2 {
            return Err(ManifestError::DataSchemaRequiresV2);
        }
        if schema.version == 0 {
            return Err(ManifestError::InvalidDataSchemaVersion);
        }
        if schema.backup_timeout_ms < 100 || schema.backup_timeout_ms > 600_000 {
            return Err(ManifestError::InvalidBackupTimeout(schema.backup_timeout_ms));
        }
        if schema.migration_timeout_ms < 100 || schema.migration_timeout_ms > 600_000 {
            return Err(ManifestError::InvalidMigrationTimeout(schema.migration_timeout_ms));
        }
        if let Some(migrator) = &schema.migrator {
            if let Err(e) = validate_absolute("data_schema.migrator", migrator) {
                return Err(e);
            }
        }
        validate_backup_paths(&schema.backup_paths)
    }

    /// Whether a capability is required.
    pub fn has_capability(&self, name: &str) -> (r: bool)
        ensures
            r == self.requires_capability(name@),
    {
        let ghost names = self.capability_names();
        let mut i: usize = 0;
        while i < self.capabilities.len()
            invariant
                i <= self.capabilities@.len(),
                names == self.capability_names(),
                forall|j: int| 0 <= j < i ==> names[j] != name@,
            decreases self.capabilities@.len() - i,
        {
            if text_eq(self.capabilities[i].as_str(), name) {
                assert(names[i as int] == name@);
                return true;
            }
            i = i + 1;
        }
        false
    }

    fn has_display_capability(&self) -> (r: bool)
        ensures
            r == exists|i: int|
                0 <= i < self.capabilities@.len() && "display:"@.is_prefix_of(
                    (#[trigger] self.capabilities@[i])@,
                ),
    {
        let mut i: usize = 0;
        while i < self.capabilities.len()
            invariant
                i <= self.capabilities@.len(),
                forall|j: int|
                    0 <= j < i ==> !"display:"@.is_prefix_of((#[trigger] self.capabilities@[j])@),
            decreases self.capabilities@.len() - i,
        {
            if has_prefix(self.capabilities[i].as_str(), "display:") {
                assert("display:"@.is_prefix_of(self.capabilities@[i as int]@));
                return true;
            }
            i = i + 1;
        }
        false
    }

    fn validate_background_execution(&self) -> (r: Result<(), ManifestError>)
        ensures
            reports(r, self.freeze_fault()),
    {
        if !self.runtime.background_execution.freezes_process() {
            return Ok(());
        }
        if self.schema != MANIFEST_SCHEMA_V2 {
            return Err(ManifestError::FreezeRequiresV2);
        }
        if !self.resident {
            return Err(ManifestError::FreezeRequiresResident);
        }
        if !self.has_capability("lifecycle:v2") {
            return Err(ManifestError::FreezeRequiresLifecycleV2);
        }
        Ok(())
    }

    fn validate_v2_fields(&self) -> (r: Result<(), ManifestError>)
        requires
            self.schema == MANIFEST_SCHEMA_V2,
        ensures
            reports(r, self.v2_fault()),
    {
        if self.park_strategy == ParkStrategy::Resident && !self.resident {
            return Err(ManifestError::ConflictingResidentPolicy);
        }
        if self.background_unit.is_some() {
            return Err(ManifestError::LegacyFieldInV2("background_unit"));
        }
        self.validate_v2_runtime_contract()
    }

    fn validate_v2_runtime_contract(&self) -> (r: Result<(), ManifestError>)
        ensures
            reports(r, either(self.display_fault(), self.network_fault())),
    {
        let profile = self.runtime.profile;
        let (expected, required): (&'static str, Option<&'static str>) = match profile {
            RuntimeProfile::QtfbCompat => ("qtfb", Some("display:qtfb-v1")),
            RuntimeProfile::NativeV2 => ("quill", Some("display:surface-v2")),
            RuntimeProfile::Headless => ("none", None),
        };
        if !text_eq(self.display.as_str(), expected) {
            return Err(
                ManifestError::RuntimeDisplayMismatch {
                    profile,
                    expected,
                    actual: self.display.clone(),
                },
            );
        }
        match required {
            Some(capability) => {
                if !self.has_capability(capability) {
                    return Err(ManifestError::MissingRuntimeCapability { profile, capability });
                }
            },
            None => {
                if self.has_display_capability() {
                    return Err(ManifestError::HeadlessDisplayCapability);
                }
            },
        }
        let declares_outbound = self.has_capability("network:outbound-v1");
        let mode = self.runtime.network.mode;
        if mode == NetworkMode::Deny && declares_outbound {
            return Err(
                ManifestError::NetworkCapabilityMismatch {
                    mode,
                    expected: "no network:outbound-v1 capability",
                },
            );
        }
        if mode != NetworkMode::Deny && !declares_outbound {
            return Err(
                ManifestError::NetworkCapabilityMismatch { mode, expected: "network:outbound-v1" },
            );
        }
        Ok(())
    }

    /// Whether the process stays alive in the background.
    pub fn is_resident(&self) -> (r: bool)
        ensures
            r == (if self.schema == MANIFEST_SCHEMA_V1 {
                self.park_strategy == ParkStrategy::Resident
            } else {
                self.resident
            }),
    {
        if self.schema == MANIFEST_SCHEMA_V1 {
            self.park_strategy == ParkStrategy::Resident
        } else {
            self.resident
        }
    }

    /// The runtime profile; that of a schema v1 manifest follows its display.
    pub open spec fn profile(&self) -> RuntimeProfile {
        if self.schema != MANIFEST_SCHEMA_V1 {
            self.runtime.profile
        } else if self.display@ == "qtfb"@ || self.display@ == "einkface"@ {
            RuntimeProfile::QtfbCompat
        } else if self.display@ == "none"@ {
            RuntimeProfile::Headless
        } else {
            RuntimeProfile::NativeV2
        }
    }

    /// The runtime profile; that of a schema v1 manifest follows its display.
    pub fn runtime_profile(&self) -> (r: RuntimeProfile)
        ensures
            r == self.profile(),
    {
        if self.schema == MANIFEST_SCHEMA_V1 {
            if text_eq(self.display.as_str(), "qtfb") || text_eq(self.display.as_str(), "einkface") {
                RuntimeProfile::QtfbCompat
            } else if text_eq(self.display.as_str(), "none") {
                RuntimeProfile::Headless
            } else {
                RuntimeProfile::NativeV2
            }
        } else {
            self.runtime.profile
        }
    }

    /// The background service, from the legacy unit where none is declared.
    pub fn effective_background_service(&self) -> (r: Option<BackgroundService>)
        ensures
            match self.background_service {
                Some(service) => r is Some && same_service(r->0, service),
                None => match self.background_unit {
                    Some(unit) => r == Some(BackgroundService::Systemd { unit }),
                    None => r is None,
                },
            },
    {
        match &self.background_service {
            Some(service) => Some(service.clone()),
            None => match &self.background_unit {
                Some(unit) => Some(BackgroundService::Systemd { unit: unit.clone() }),
                None => None,
            },
        }
    }

    /// Whether a canonical path lies within one of the canonical roots.
    pub open spec fn allows(path: Seq<char>, roots: Seq<Option<FilePath>>) -> bool {
        exists|i: int|
            0 <= i < roots.len() && #[trigger] roots[i] is Some && within(path, roots[i]->0@)
    }

    /// Decides on a request to open a path, from the canonical form of the
    /// path and those of the allowed roots that have one.
    pub fn validate_open_path(
        &self,
        path: &FilePath,
        canonical: Result<FilePath, String>,
        roots: &[Option<FilePath>],
    ) -> (r: Result<FilePath, ManifestError>)
        ensures
            match r {
                Ok(opened) => self.supports_open_path && canonical == Ok::<FilePath, String>(opened)
                    && Self::allows(opened@, roots@),
                Err(e) => if !self.supports_open_path {
                    e@ == ManifestFault::OpenPathUnsupported(self.id@)
                } else {
                    match canonical {
                        Err(source) => e@ == ManifestFault::Canonicalize(path@, source@),
                        Ok(opened) => !Self::allows(opened@, roots@) && e@
                            == ManifestFault::OpenPathDenied(opened@),
                    }
                },
            },
    {
        if !self.supports_open_path {
            return Err(ManifestError::OpenPathUnsupported(self.id.to_text()));
        }
        let opened = match canonical {
            Ok(opened) => opened,
            Err(source) => return Err(ManifestError::Canonicalize(path.clone(), source)),
        };
        let mut i: usize = 0;
        while i < roots.len()
            invariant
                i <= roots.len(),
                self.supports_open_path,
                canonical == Ok::<FilePath, String>(opened),
                forall|j: int|
                    0 <= j < i ==> !(#[trigger] roots@[j] is Some && within(
                        opened@,
                        roots@[j]->0@,
                    )),
            decreases roots.len() - i,
        {
            if let Some(root) = &roots[i] {
                if opened.starts_with(root) {
                    assert(roots@[i as int] is Some && within(opened@, roots@[i as int]->0@));
                    return Ok(opened);
                }
            }
            i = i + 1;
        }
        Err(ManifestError::OpenPathDenied(opened))
    }
}

/// The shutdown deadlines of a manifest that passes the checks come in order
/// and within the platform's limit.
pub proof fn valid_shutdown_deadlines_are_ordered(manifest: AppManifest)
    requires
        manifest.fault() is None,
    ensures
        manifest.shutdown_in_order(),
{
}

/// The display of a valid schema v2 manifest is that of its runtime profile.
pub proof fn valid_v2_displays_follow_the_profile(manifest: AppManifest)
    requires
        manifest.fault() is None,
        manifest.schema == MANIFEST_SCHEMA_V2,
    ensures
        manifest.display@ == AppManifest::profile_display(manifest.runtime.profile),
        manifest.profile() == manifest.runtime.profile,
{
}

/// A valid manifest that is to be frozen is resident and speaks the fenced
/// lifecycle of schema v2.
pub proof fn valid_frozen_applications_are_fenced_residents(manifest: AppManifest)
    requires
        manifest.fault() is None,
        manifest.runtime.background_execution == BackgroundExecution::Freeze,
    ensures
        manifest.schema == MANIFEST_SCHEMA_V2,
        manifest.resident,
        manifest.requires_capability("lifecycle:v2"@),
{
}

/// A valid manifest never waits longer than the platform's limit, and within
/// it gives every phase of a cold launch its own allowance.
pub proof fn valid_startup_allowances_are_kept(manifest: AppManifest)
    requires
        manifest.fault() is None,
    ensures
        manifest.schema_allowance() + manifest.readiness_allowance() <= crate::manifest::MAX_STARTUP_TIMEOUT_MS,
{
}

/// The identity of an application is accepted exactly where its schema is known, it has a name,
/// its program, its directory, its icon and every place it may open are absolute and do not lead
/// upwards, and its display is one of the four kinds.
pub proof fn sound_identities_are_accepted(manifest: AppManifest)
    ensures
        manifest.identity_fault() is None <==> {
            let roots = path_texts(manifest.allowed_open_roots@);
            &&& manifest.schema == 1 || manifest.schema == 2
            &&& !is_blank(manifest.name@)
            &&& safe_absolute(manifest.executable@)
            &&& safe_absolute(manifest.working_dir@)
            &&& manifest.icon is Some ==> safe_absolute(manifest.icon->0@)
            &&& forall|i: int| 0 <= i < roots.len() ==> safe_absolute(#[trigger] roots[i])
            &&& manifest.display@ == "qtfb"@ || manifest.display@ == "quill"@ || manifest.display@
                == "einkface"@ || manifest.display@ == "none"@
        },
{
    let roots = path_texts(manifest.allowed_open_roots@);
    let faults = Seq::new(roots.len(), |i: int| path_fault("allowed_open_roots"@, roots[i]));
    no_first_finding_means_none(faults);
    if paths_fault("allowed_open_roots"@, roots) is None {
        assert forall|i: int| 0 <= i < roots.len() implies safe_absolute(#[trigger] roots[i]) by {
            assert(faults[i] is None);
        }
    } else {
        let i = choose|i: int| 0 <= i < faults.len() && !((#[trigger] faults[i]) is None);
        assert(!safe_absolute(roots[i]));
    }
}

/// The variables of an application are accepted exactly where each has a name and no zero
/// character, none is one that the launcher sets, and, in the second schema, none is reserved for
/// the platform or has a name that no process can be given.
pub proof fn sound_variables_are_accepted(keys: Seq<Seq<char>>, manifest: AppManifest)
    requires
        lists_keys(keys, manifest.environment@),
    ensures
        manifest.environment_fault() is None <==> forall|k: Seq<char>| #[trigger]
            manifest.environment@.contains_key(k) ==> {
                let value = manifest.environment@[k]@;
                &&& k.len() > 0 && !k.contains('=') && !k.contains('\0')
                &&& !value.contains('\0')
                &&& k != "PATH"@ && k != "REMAGIC_SOCKET"@ && k != "REMAGIC_APP_ID"@ && k
                    != "REMAGIC_LAUNCH_ID"@
                &&& manifest.schema == 2 ==> !reserved_variable(k) && valid_pair(k, value)
            },
{
    let bad = manifest.unsafe_keys();
    listed_keys_have_a_first(keys, manifest.environment@, bad);
    if manifest.environment_fault() is None {
        assert forall|k: Seq<char>| #[trigger] manifest.environment@.contains_key(k) implies {
            let value = manifest.environment@[k]@;
            &&& k.len() > 0 && !k.contains('=') && !k.contains('\0')
            &&& !value.contains('\0')
            &&& k != "PATH"@ && k != "REMAGIC_SOCKET"@ && k != "REMAGIC_APP_ID"@ && k
                != "REMAGIC_LAUNCH_ID"@
            &&& manifest.schema == 2 ==> !reserved_variable(k) && valid_pair(k, value)
        } by {
            assert(!bad.contains(k));
        }
    } else {
        let k = least(bad)->0;
        assert(bad.contains(k));
        assert(manifest.environment@.contains_key(k));
    }
}

/// The arguments are accepted exactly where none holds a zero character and no capability is asked
/// for twice.
pub proof fn sound_arguments_are_accepted(manifest: AppManifest)
    ensures
        manifest.arguments_fault() is None <==> {
            &&& forall|i: int|
                0 <= i < manifest.args@.len() ==> !(#[trigger] manifest.args@[i])@.contains('\0')
            &&& forall|i: int, j: int|
                0 <= i < j < manifest.capabilities@.len() ==> (#[trigger] manifest.capabilities@[i])@
                    != (#[trigger] manifest.capabilities@[j])@
        },
{
    let args = texts(manifest.args@);
    let names = manifest.capability_names();
    let faults = Seq::new(
        names.len(),
        |i: int|
            if text_repeats(names, i) {
                Some(ManifestFault::DuplicateCapability(names[i]))
            } else {
                None
            },
    );
    no_first_finding_means_none(faults);
    assert(any_nul(args) <==> exists|i: int|
        0 <= i < manifest.args@.len() && (#[trigger] manifest.args@[i])@.contains('\0')) by {
        if any_nul(args) {
            let i = choose|i: int| 0 <= i < args.len() && (#[trigger] args[i]).contains('\0');
            assert(manifest.args@[i]@ == args[i]);
        }
        if exists|i: int|
            0 <= i < manifest.args@.len() && (#[trigger] manifest.args@[i])@.contains('\0') {
            let i = choose|i: int|
                0 <= i < manifest.args@.len() && (#[trigger] manifest.args@[i])@.contains('\0');
            assert(args[i] == manifest.args@[i]@);
        }
    }
    if forall|i: int| 0 <= i < faults.len() ==> (#[trigger] faults[i]) is None {
        assert forall|i: int, j: int| 0 <= i < j < manifest.capabilities@.len() implies (
        #[trigger] manifest.capabilities@[i])@ != (#[trigger] manifest.capabilities@[j])@ by {
            assert(faults[j] is None);
            assert(names[i] == manifest.capabilities@[i]@);
            assert(names[j] == manifest.capabilities@[j]@);
        }
    } else {
        let i = choose|i: int| 0 <= i < faults.len() && !((#[trigger] faults[i]) is None);
        assert(text_repeats(names, i));
        let j = choose|j: int| 0 <= j < i && #[trigger] names[j] == names[i];
        assert(manifest.capabilities@[j]@ == manifest.capabilities@[i]@);
    }
}

/// An application fits the platform exactly where it asks for an interface that there is, and names
/// no device twice and no software twice or without a name.
pub proof fn compatible_manifests_are_accepted(manifest: AppManifest)
    ensures
        manifest.compatibility_fault() is None <==> {
            &&& manifest.required_remagic_api == 1 || manifest.required_remagic_api == 2
            &&& forall|i: int, j: int|
                0 <= i < j < manifest.supported_devices@.len()
                    ==> #[trigger] manifest.supported_devices@[i]
                    != #[trigger] manifest.supported_devices@[j]
            &&& forall|i: int|
                0 <= i < manifest.supported_os@.len() ==> !is_blank(
                    (#[trigger] manifest.supported_os@[i])@,
                )
            &&& forall|i: int, j: int|
                0 <= i < j < manifest.supported_os@.len() ==> (
                #[trigger] manifest.supported_os@[i])@ != (#[trigger] manifest.supported_os@[j])@
        },
{
    let devices = Seq::new(manifest.supported_devices@.len(), |i: int| manifest.device_fault(i));
    let systems = Seq::new(manifest.supported_os@.len(), |i: int| manifest.os_fault(i));
    let list = texts(manifest.supported_os@);
    no_first_finding_means_none(devices);
    no_first_finding_means_none(systems);
    if forall|i: int| 0 <= i < devices.len() ==> (#[trigger] devices[i]) is None {
        assert forall|i: int, j: int|
            0 <= i < j < manifest.supported_devices@.len() implies #[trigger] manifest.supported_devices@[i]
            != #[trigger] manifest.supported_devices@[j] by {
            assert(devices[j] is None);
        }
    } else {
        let i = choose|i: int| 0 <= i < devices.len() && !((#[trigger] devices[i]) is None);
        assert(manifest.device_fault(i) is Some);
        let j = choose|j: int|
            0 <= j < i && #[trigger] manifest.supported_devices@[j]
                == manifest.supported_devices@[i];
        assert(manifest.supported_devices@[j] == manifest.supported_devices@[i]);
    }
    if forall|i: int| 0 <= i < systems.len() ==> (#[trigger] systems[i]) is None {
        assert forall|i: int| 0 <= i < manifest.supported_os@.len() implies !is_blank(
            (#[trigger] manifest.supported_os@[i])@,
        ) by {
            assert(systems[i] is None);
            assert(list[i] == manifest.supported_os@[i]@);
        }
        assert forall|i: int, j: int| 0 <= i < j < manifest.supported_os@.len() implies (
        #[trigger] manifest.supported_os@[i])@ != (#[trigger] manifest.supported_os@[j])@ by {
            assert(systems[j] is None);
            assert(list[i] == manifest.supported_os@[i]@);
            assert(list[j] == manifest.supported_os@[j]@);
        }
    } else {
        let i = choose|i: int| 0 <= i < systems.len() && !((#[trigger] systems[i]) is None);
        assert(manifest.os_fault(i) is Some);
        assert(list[i] == manifest.supported_os@[i]@);
        if text_repeats(list, i) {
            let j = choose|j: int| 0 <= j < i && #[trigger] list[j] == list[i];
            assert(manifest.supported_os@[j]@ == manifest.supported_os@[i]@);
        }
    }
}

/// Readiness is accepted where it may take between a tenth of a second and two minutes, and names
/// a safe path exactly where it is told by a file.
pub proof fn sound_readiness_is_accepted(manifest: AppManifest)
    ensures
        manifest.readiness_fault() is None <==> {
            &&& 100 <= manifest.readiness.timeout_ms <= 120_000
            &&& manifest.readiness.mode == ReadinessMode::File <==> manifest.readiness.path is Some
            &&& manifest.readiness.path is Some ==> safe_absolute(manifest.readiness.path->0@)
        },
{
}

/// The deadlines of a shutdown are accepted where they come in order, from a tenth of a second to
/// five and a half.
pub proof fn sound_shutdowns_are_accepted(manifest: AppManifest)
    ensures
        manifest.shutdown_fault() is None <==> {
            &&& 100 <= manifest.shutdown.graceful_timeout_ms
            &&& manifest.shutdown.graceful_timeout_ms <= manifest.shutdown.term_timeout_ms
            &&& manifest.shutdown.term_timeout_ms <= manifest.shutdown.kill_timeout_ms
            &&& manifest.shutdown.kill_timeout_ms <= 5_500
        },
{
}

/// A background service is accepted where it names a program and a directory by safe paths and has
/// arguments without a zero character, or names a unit.
pub proof fn sound_services_are_accepted(service: BackgroundService)
    ensures
        service is Systemd ==> (service_fault(service) is None <==> byte_len(service->unit@) <= 128
            && ".service"@.is_suffix_of(service->unit@) && all_admitted(
            CharClass::Unit,
            service->unit@,
        )),
        service is Managed ==> (service_fault(service) is None <==> safe_absolute(
            service->executable@,
        ) && safe_absolute(service->Managed_working_dir@) && forall|i: int|
            0 <= i < service->Managed_args@.len() ==> !(
            #[trigger] service->Managed_args@[i])@.contains('\0')),
{
    if service is Managed {
        let list = service->Managed_args@;
        let args = texts(list);
        if any_nul(args) {
            let i = choose|i: int| 0 <= i < args.len() && (#[trigger] args[i]).contains('\0');
            assert(list[i]@ == args[i]);
        } else {
            assert forall|i: int| 0 <= i < list.len() implies !(#[trigger] list[i])@.contains(
                '\0',
            ) by {
                assert(args[i] == list[i]@);
            }
        }
    }
}

/// What is backed up is accepted where every path is safe and none is, or lies below, another one.
pub proof fn backups_do_not_overlap(paths: Seq<Seq<char>>)
    ensures
        backup_paths_fault(paths) is None <==> {
            &&& forall|i: int| 0 <= i < paths.len() ==> safe_absolute(#[trigger] paths[i])
            &&& forall|i: int, j: int|
                0 <= i < j < paths.len() ==> !within(#[trigger] paths[i], #[trigger] paths[j])
                    && !within(paths[j], paths[i])
        },
{
    let alone = Seq::new(paths.len(), |i: int| backup_path_fault(paths, i));
    let pairs = Seq::new(paths.len(), |i: int| later_overlap(paths, i));
    no_first_finding_means_none(alone);
    no_first_finding_means_none(pairs);
    if backup_paths_fault(paths) is None {
        assert forall|i: int| 0 <= i < paths.len() implies safe_absolute(#[trigger] paths[i]) by {
            assert(alone[i] is None);
        }
        assert forall|i: int, j: int| 0 <= i < j < paths.len() implies !within(
            #[trigger] paths[i],
            #[trigger] paths[j],
        ) && !within(paths[j], paths[i]) by {
            assert(pairs[i] is None);
            let later = Seq::new(
                (paths.len() - i - 1) as nat,
                |d: int| overlap_fault(paths, i, i + 1 + d),
            );
            no_first_finding_means_none(later);
            assert(later[j - i - 1] is None);
        }
    } else if first_some(alone) is Some {
        let i = choose|i: int| 0 <= i < alone.len() && !((#[trigger] alone[i]) is None);
        assert(backup_path_fault(paths, i) is Some);
        if safe_absolute(paths[i]) {
            let j = choose|j: int| 0 <= j < i && components(#[trigger] paths[j]) == components(
                paths[i],
            );
            lying_below_is_transitive(paths[j], paths[j], paths[j]);
            assert(within(paths[j], paths[i]));
        }
    } else {
        let i = choose|i: int| 0 <= i < pairs.len() && !((#[trigger] pairs[i]) is None);
        let later = Seq::new(
            (paths.len() - i - 1) as nat,
            |d: int| overlap_fault(paths, i, i + 1 + d),
        );
        no_first_finding_means_none(later);
        let d = choose|d: int| 0 <= d < later.len() && !((#[trigger] later[d]) is None);
        assert(overlap_fault(paths, i, i + 1 + d) is Some);
        assert(within(paths[i], paths[i + 1 + d]) || within(paths[i + 1 + d], paths[i]));
    }
}

/// Stored data are accepted in the second schema only, with a version, with allowances between a
/// tenth of a second and ten minutes, and with safe paths for what moves and backs them up.
pub proof fn sound_data_are_accepted(manifest: AppManifest)
    requires
        manifest.data_schema is Some,
    ensures
        manifest.data_schema_fault() is None <==> {
            let data = manifest.data_schema->0;
            &&& manifest.schema == 2
            &&& data.version > 0
            &&& 100 <= data.backup_timeout_ms <= 600_000
            &&& 100 <= data.migration_timeout_ms <= 600_000
            &&& data.migrator is Some ==> safe_absolute(data.migrator->0@)
            &&& backup_paths_fault(path_texts(data.backup_paths@)) is None
        },
{
}

/// An application that is frozen in the background has to be of the second schema, stay resident
/// and speak the second lifecycle; any other is not concerned.
pub proof fn frozen_applications_stay_resident(manifest: AppManifest)
    ensures
        manifest.freeze_fault() is None <==> manifest.runtime.background_execution
            != BackgroundExecution::Freeze || manifest.schema == 2 && manifest.resident
            && exists|i: int|
            0 <= i < manifest.capabilities@.len() && (#[trigger] manifest.capabilities@[i])@
                == "lifecycle:v2"@,
{
    lemma_capability(manifest, "lifecycle:v2"@);
}

proof fn lemma_capability(manifest: AppManifest, name: Seq<char>)
    ensures
        manifest.requires_capability(name) <==> exists|i: int|
            0 <= i < manifest.capabilities@.len() && (#[trigger] manifest.capabilities@[i])@ == name,
{
    let names = manifest.capability_names();
    if names.contains(name) {
        let i = choose|i: int| 0 <= i < names.len() && names[i] == name;
        assert(manifest.capabilities@[i]@ == name);
    }
    if exists|i: int|
        0 <= i < manifest.capabilities@.len() && (#[trigger] manifest.capabilities@[i])@ == name {
        let i = choose|i: int|
            0 <= i < manifest.capabilities@.len() && (#[trigger] manifest.capabilities@[i])@ == name;
        assert(names[i] == name);
    }
}

/// In the second schema the display follows the profile and its capability is asked for; one
/// without a display asks for none. The network is asked for exactly where it is not denied.
pub proof fn second_schema_manifests_ask_for_what_they_use(manifest: AppManifest)
    requires
        manifest.schema == 2,
    ensures
        manifest.v2_fault() is None <==> {
            let profile = manifest.runtime.profile;
            &&& manifest.park_strategy == ParkStrategy::Resident ==> manifest.resident
            &&& manifest.background_unit is None
            &&& profile == RuntimeProfile::QtfbCompat ==> manifest.display@ == "qtfb"@
                && manifest.requires_capability("display:qtfb-v1"@)
            &&& profile == RuntimeProfile::NativeV2 ==> manifest.display@ == "quill"@
                && manifest.requires_capability("display:surface-v2"@)
            &&& profile == RuntimeProfile::Headless ==> manifest.display@ == "none"@ && forall|i: int|
                0 <= i < manifest.capabilities@.len() ==> !"display:"@.is_prefix_of(
                    (#[trigger] manifest.capabilities@[i])@,
                )
            &&& manifest.requires_capability("network:outbound-v1"@)
                <==> manifest.runtime.network.mode != NetworkMode::Deny
        },
{
}

/// A manifest is accepted exactly where each of its parts is.
pub proof fn sound_manifests_are_accepted(manifest: AppManifest)
    ensures
        manifest.fault() is None <==> {
            &&& manifest.identity_fault() is None
            &&& manifest.environment_fault() is None
            &&& manifest.arguments_fault() is None
            &&& manifest.compatibility_fault() is None
            &&& manifest.readiness_fault() is None
            &&& manifest.shutdown_fault() is None
            &&& manifest.background_service is Some ==> service_fault(
                manifest.background_service->0,
            ) is None
            &&& manifest.data_schema is Some ==> manifest.data_schema_fault() is None
            &&& manifest.runtime.fault(manifest.schema == 2) is None
            &&& manifest.freeze_fault() is None
            &&& manifest.schema == 2 ==> manifest.v2_fault() is None
        },
{
}

/// A path may be opened exactly where it is, or lies below, one of the places that the application
/// may open; what an entry below such a place is called does not matter.
pub proof fn places_below_an_allowed_root_may_be_opened(
    root: FilePath,
    entry: Seq<char>,
    roots: Seq<Option<FilePath>>,
    i: int,
)
    requires
        0 <= i < roots.len(),
        roots[i] == Some(root),
        root@.len() > 0,
        entry.len() > 0,
        entry[0] != '/',
    ensures
        AppManifest::allows(root@, roots),
        AppManifest::allows(joined(root@, entry), roots),
        !AppManifest::allows(root@, Seq::empty()),
{
    lying_below_is_transitive(root@, root@, root@);
    entries_lie_below_their_directory(root@, entry);
    assert(roots[i] is Some);
}

/// In the first schema the profile follows the display, in the second it is what was asked for.
pub proof fn profiles_follow_the_schema(manifest: AppManifest)
    ensures
        manifest.schema == 2 ==> manifest.profile() == manifest.runtime.profile,
        manifest.schema == 1 && (manifest.display@ == "qtfb"@ || manifest.display@ == "einkface"@)
            ==> manifest.profile() == RuntimeProfile::QtfbCompat,
        manifest.schema == 1 && manifest.display@ == "none"@ ==> manifest.profile()
            == RuntimeProfile::Headless,
        manifest.schema == 1 && manifest.display@ == "quill"@ ==> manifest.profile()
            == RuntimeProfile::NativeV2,
{
    reveal_strlit("qtfb");
    reveal_strlit("einkface");
    reveal_strlit("none");
    reveal_strlit("quill");
    assert("qtfb"@.len() == 4 && "einkface"@.len() == 8 && "none"@.len() == 4 && "quill"@.len() == 5);
    assert("qtfb"@[0] != "none"@[0]);
}

} // verus!
