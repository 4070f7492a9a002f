//! What an application asks of its runtime, and the checks on it.
use vstd::prelude::*;
use crate::first::{either, first_some};
use crate::first::{lemma_first_at, lemma_first_none, no_first_finding_means_none};
use crate::ordered::TextSet;
use crate::path::{join_paths, FilePath};
use crate::path::{components, path_texts, safe_absolute, within};
use crate::runtime::error::{reports, RuntimeFault};
use crate::runtime::{RuntimeProfile, RuntimeValidationError};
use crate::text::{
    byte_count, ends_with_char, split_on, starts_with_char, strip_prefix, text_admitted, text_eq,
    CharClass,
};
use crate::text::{
    all_admitted, byte_len, is_alnum, join, split, splitting_undoes_joining, texts,
};

verus! {

/// Concrete filesystem roots assigned to one application.
#[derive(Debug, PartialEq, Eq)]
pub struct RuntimeDirectories {
    pub home: FilePath,
    pub config_home: FilePath,
    pub data_home: FilePath,
    pub state_home: FilePath,
    pub cache_home: FilePath,
    pub runtime_dir: FilePath,
}

impl Clone for RuntimeDirectories {
    fn clone(&self) -> (r: RuntimeDirectories)
        ensures
            r == *self,
    {
        RuntimeDirectories {
            home: self.home.clone(),
            config_home: self.config_home.clone(),
            data_home: self.data_home.clone(),
            state_home: self.state_home.clone(),
            cache_home: self.cache_home.clone(),
            runtime_dir: self.runtime_dir.clone(),
        }
    }
}

/// The fault of a path that has to be absolute and free of upward steps.
pub open spec fn path_fault(field: Seq<char>, path: Seq<char>) -> Option<RuntimeFault> {
    if safe_absolute(path) {
        None
    } else {
        Some(RuntimeFault::UnsafePath(field, path))
    }
}

/// Whether an earlier path of the list has the same components.
pub open spec fn path_repeats(paths: Seq<Seq<char>>, i: int) -> bool {
    exists|j: int| 0 <= j < i && components(#[trigger] paths[j]) == components(paths[i])
}

/// Whether an earlier text of the list is the same.
pub open spec fn text_repeats(list: Seq<Seq<char>>, i: int) -> bool {
    exists|j: int| 0 <= j < i && #[trigger] list[j] == list[i]
}

impl RuntimeDirectories {
    /// The roots in the order of their checks.
    pub open spec fn roots(&self) -> Seq<Seq<char>> {
        seq![
            self.home@,
            self.config_home@,
            self.data_home@,
            self.state_home@,
            self.cache_home@,
            self.runtime_dir@,
        ]
    }

    /// The names of the roots in the same order.
    pub open spec fn fields() -> Seq<Seq<char>> {
        seq![
            "home"@,
            "config_home"@,
            "data_home"@,
            "state_home"@,
            "cache_home"@,
            "runtime_dir"@,
        ]
    }

    /// The fault of one root by itself: it is unsafe, or the root directory.
    pub open spec fn root_fault(&self, i: int) -> Option<RuntimeFault> {
        if safe_absolute(self.roots()[i]) && components(self.roots()[i]) != components("/"@) {
            None
        } else {
            Some(RuntimeFault::UnsafePath(Self::fields()[i], self.roots()[i]))
        }
    }

    /// The fault of one root that repeats an earlier one.
    pub open spec fn repeat_fault(&self, i: int) -> Option<RuntimeFault> {
        if path_repeats(self.roots(), i) {
            Some(RuntimeFault::DuplicatePath(Self::fields()[i], self.roots()[i]))
        } else {
            None
        }
    }

    /// The fault of a persistent root that is not strictly below the home.
    pub open spec fn outside_fault(&self, i: int) -> Option<RuntimeFault> {
        if components(self.roots()[i]) == components(self.home@) || !within(
            self.roots()[i],
            self.home@,
        ) {
            Some(
                RuntimeFault::DirectoryOutsideHome(Self::fields()[i], self.roots()[i], self.home@),
            )
        } else {
            None
        }
    }

    /// The first fault of the roots.
    pub open spec fn fault(&self) -> Option<RuntimeFault> {
        either(
            first_some(Seq::new(6, |i: int| self.root_fault(i))),
            either(
                first_some(Seq::new(6, |i: int| self.repeat_fault(i))),
                either(
                    first_some(Seq::new(4, |i: int| self.outside_fault(i + 1))),
                    if within(self.runtime_dir@, self.home@) {
                        Some(RuntimeFault::PersistentRuntimeDirectory(self.runtime_dir@))
                    } else {
                        None
                    },
                ),
            ),
        )
    }

    /// The root at a place in the order of the checks.
    fn root_at(&self, i: usize) -> (r: (&'static str, &FilePath))
        requires
            i < 6,
        ensures
            r.0@ == Self::fields()[i as int],
            r.1@ == self.roots()[i as int],
    {
        if i == 0 {
            ("home", &self.home)
        } else if i == 1 {
            ("config_home", &self.config_home)
        } else if i == 2 {
            ("data_home", &self.data_home)
        } else if i == 3 {
            ("state_home", &self.state_home)
        } else if i == 4 {
            ("cache_home", &self.cache_home)
        } else {
            ("runtime_dir", &self.runtime_dir)
        }
    }

    fn validate_roots(&self) -> (r: Result<(), RuntimeValidationError>)
        ensures
            reports(r, first_some(Seq::new(6, |i: int| self.root_fault(i)))),
    {
        let ghost faults = Seq::new(6, |i: int| self.root_fault(i));
        let mut i: usize = 0;
        while i < 6
            invariant
                i <= 6,
                faults == Seq::new(6, |i: int| self.root_fault(i)),
                forall|j: int| 0 <= j < i ==> faults[j] is None,
            decreases 6 - i,
        {
            let (field, value) = self.root_at(i);
            if !value.is_safe_absolute() || value.same_as(&FilePath::new("/")) {
                proof {
                    lemma_first_at(faults, i as int);
                }
                return Err(RuntimeValidationError::UnsafePath(field, value.clone()));
            }
            i = i + 1;
        }
        proof {
            lemma_first_none(faults);
        }
        Ok(())
    }

    fn validate_unique(&self) -> (r: Result<(), RuntimeValidationError>)
        ensures
            reports(r, first_some(Seq::new(6, |i: int| self.repeat_fault(i)))),
    {
        let ghost faults = Seq::new(6, |i: int| self.repeat_fault(i));
        let mut i: usize = 0;
        while i < 6
            invariant
                i <= 6,
                faults == Seq::new(6, |i: int| self.repeat_fault(i)),
                forall|j: int| 0 <= j < i ==> faults[j] is None,
            decreases 6 - i,
        {
            let (field, value) = self.root_at(i);
            let mut k: usize = 0;
            while k < i
                invariant
                    k <= i < 6,
                    value@ == self.roots()[i as int],
                    field@ == Self::fields()[i as int],
                    faults == Seq::new(6, |i: int| self.repeat_fault(i)),
                    forall|j: int| 0 <= j < i ==> faults[j] is None,
                    forall|j: int|
                        0 <= j < k ==> components(#[trigger] self.roots()[j]) != components(
                            self.roots()[i as int],
                        ),
                decreases i - k,
            {
                let (_, other) = self.root_at(k);
                if other.same_as(value) {
                    proof {
                        assert(components(self.roots()[k as int]) == components(
                            self.roots()[i as int],
                        ));
                        lemma_first_at(faults, i as int);
                    }
                    return Err(RuntimeValidationError::DuplicatePath(field, value.clone()));
                }
                k = k + 1;
            }
            i = i + 1;
        }
        proof {
            lemma_first_none(faults);
        }
        Ok(())
    }

    fn validate_below_home(&self) -> (r: Result<(), RuntimeValidationError>)
        ensures
            reports(r, first_some(Seq::new(4, |i: int| self.outside_fault(i + 1)))),
    {
        let ghost faults = Seq::new(4, |i: int| self.outside_fault(i + 1));
        let mut i: usize = 0;
        while i < 4
            invariant
                i <= 4,
                faults == Seq::new(4, |i: int| self.outside_fault(i + 1)),
                forall|j: int| 0 <= j < i ==> faults[j] is None,
            decreases 4 - i,
        {
            let (field, value) = self.root_at(i + 1);
            if value.same_as(&self.home) || !value.starts_with(&self.home) {
                proof {
                    lemma_first_at(faults, i as int);
                }
                return Err(
                    RuntimeValidationError::DirectoryOutsideHome(
                        field,
                        value.clone(),
                        self.home.clone(),
                    ),
                );
            }
            i = i + 1;
        }
        proof {
            lemma_first_none(faults);
        }
        Ok(())
    }

    /// Checks that every root is safe and unlike the others, that the
    /// persistent ones lie below the home and that the runtime directory does
    /// not.
    pub fn validate(&self) -> (r: Result<(), RuntimeValidationError>)
        ensures
            reports(r, self.fault()),
    {
        if let Err(e) = self.validate_roots() {
            return Err(e);
        }
        if let Err(e) = self.validate_unique() {
            return Err(e);
        }
        if let Err(e) = self.validate_below_home() {
            return Err(e);
        }
        if self.runtime_dir.starts_with(&self.home) {
            return Err(
                RuntimeValidationError::PersistentRuntimeDirectory(self.runtime_dir.clone()),
            );
        }
        Ok(())
    }
}

/// The locale of an application.
#[derive(Debug, PartialEq, Eq)]
pub struct LocalePolicy {
    pub lang: String,
    pub lc_all: Option<String>,
}

impl Clone for LocalePolicy {
    fn clone(&self) -> (r: LocalePolicy)
        ensures
            r == *self,
    {
        LocalePolicy {
            lang: self.lang.clone(),
            lc_all: match &self.lc_all {
                Some(value) => Some(value.clone()),
                None => None,
            },
        }
    }
}

impl Default for LocalePolicy {
    fn default() -> (r: LocalePolicy)
        ensures
            r.lang@ == "C.UTF-8"@,
            r.lc_all is None,
    {
        LocalePolicy { lang: "C.UTF-8".to_owned(), lc_all: None }
    }
}

/// The time zone of an application.
#[derive(Debug, PartialEq, Eq)]
pub struct TimezonePolicy {
    pub name: String,
}

impl Clone for TimezonePolicy {
    fn clone(&self) -> (r: TimezonePolicy)
        ensures
            r == *self,
    {
        TimezonePolicy { name: self.name.clone() }
    }
}

impl Default for TimezonePolicy {
    fn default() -> (r: TimezonePolicy)
        ensures
            r.name@ == "UTC"@,
    {
        TimezonePolicy { name: "UTC".to_owned() }
    }
}

/// The fonts of an application.
#[derive(Debug, PartialEq, Eq)]
pub struct FontPolicy {
    pub directories: Vec<FilePath>,
    pub fontconfig_file: Option<FilePath>,
}

impl Clone for FontPolicy {
    fn clone(&self) -> (r: FontPolicy)
        ensures
            r.directories@ == self.directories@,
            r.fontconfig_file == self.fontconfig_file,
    {
        FontPolicy {
            directories: self.directories.clone(),
            fontconfig_file: match &self.fontconfig_file {
                Some(value) => Some(value.clone()),
                None => None,
            },
        }
    }
}

impl Default for FontPolicy {
    fn default() -> (r: FontPolicy)
        ensures
            r.directories@.len() == 0,
            r.fontconfig_file is None,
    {
        FontPolicy { directories: Vec::new(), fontconfig_file: None }
    }
}

/// The certificate authorities of an application.
#[derive(Debug, PartialEq, Eq)]
pub struct CertificatePolicy {
    pub required: bool,
    pub ca_bundle: Option<FilePath>,
    pub ca_directory: Option<FilePath>,
}

impl Clone for CertificatePolicy {
    fn clone(&self) -> (r: CertificatePolicy)
        ensures
            r == *self,
    {
        CertificatePolicy {
            required: self.required,
            ca_bundle: match &self.ca_bundle {
                Some(value) => Some(value.clone()),
                None => None,
            },
            ca_directory: match &self.ca_directory {
                Some(value) => Some(value.clone()),
                None => None,
            },
        }
    }
}

impl Default for CertificatePolicy {
    fn default() -> (r: CertificatePolicy)
        ensures
            !r.required,
            r.ca_bundle is None,
            r.ca_directory is None,
    {
        CertificatePolicy { required: false, ca_bundle: None, ca_directory: None }
    }
}

/// Which destinations an application may reach.
#[derive(Clone, Copy, Debug, PartialEq, Eq, Structural)]
pub enum NetworkMode {
    Deny,
    HttpsOnly,
    Outbound,
}

impl Default for NetworkMode {
    fn default() -> (r: NetworkMode)
        ensures
            r == NetworkMode::Deny,
    {
        NetworkMode::Deny
    }
}

impl NetworkMode {
    /// The name of the mode in the launch environment.
    pub open spec fn name(self) -> Seq<char> {
        match self {
            NetworkMode::Deny => "deny"@,
            NetworkMode::HttpsOnly => "https_only"@,
            NetworkMode::Outbound => "outbound"@,
        }
    }

    /// The name of the mode in the launch environment.
    pub fn as_str(self) -> (r: &'static str)
        ensures
            r@ == self.name(),
    {
        match self {
            NetworkMode::Deny => "deny",
            NetworkMode::HttpsOnly => "https_only",
            NetworkMode::Outbound => "outbound",
        }
    }
}

/// Describes what the platform actually did with a requested network policy.
///
/// `MetadataOnly` is deliberately explicit: applications can inspect the
/// requested policy, but the process still has the host's ordinary network
/// namespace. It must never be presented as network isolation.
#[derive(Clone, Copy, Debug, PartialEq, Eq, Structural)]
pub enum NetworkEnforcement {
    MetadataOnly,
    Enforced,
}

impl Default for NetworkEnforcement {
    fn default() -> (r: NetworkEnforcement)
        ensures
            r == NetworkEnforcement::MetadataOnly,
    {
        NetworkEnforcement::MetadataOnly
    }
}

impl NetworkEnforcement {
    /// The name of the enforcement in the launch environment.
    pub open spec fn name(self) -> Seq<char> {
        match self {
            NetworkEnforcement::MetadataOnly => "metadata_only"@,
            NetworkEnforcement::Enforced => "enforced"@,
        }
    }

    /// The name of the enforcement in the launch environment.
    pub fn as_str(self) -> (r: &'static str)
        ensures
            r@ == self.name(),
    {
        match self {
            NetworkEnforcement::MetadataOnly => "metadata_only",
            NetworkEnforcement::Enforced => "enforced",
        }
    }

    /// Whether the operating system enforces the policy.
    pub fn is_enforced(self) -> (r: bool)
        ensures
            r == (self == NetworkEnforcement::Enforced),
    {
        self == NetworkEnforcement::Enforced
    }
}

/// The network access of an application.
#[derive(Debug, PartialEq, Eq)]
pub struct NetworkPolicy {
    pub mode: NetworkMode,
    /// Empty means all destinations allowed by `mode`; values are DNS names,
    /// optionally beginning with `*.` for a subdomain suffix.
    pub allowed_hosts: TextSet<String>,
    /// Refuse to launch unless the platform can prove that it installed an
    /// operating-system enforcement boundary for this policy.
    pub require_enforcement: bool,
}

impl Clone for NetworkPolicy {
    fn clone(&self) -> (r: NetworkPolicy)
        ensures
            r.mode == self.mode,
            r.allowed_hosts@ == self.allowed_hosts@,
            r.allowed_hosts.list() == self.allowed_hosts.list(),
            r.require_enforcement == self.require_enforcement,
    {
        NetworkPolicy {
            mode: self.mode,
            allowed_hosts: self.allowed_hosts.clone(),
            require_enforcement: self.require_enforcement,
        }
    }
}

impl Default for NetworkPolicy {
    fn default() -> (r: NetworkPolicy)
        ensures
            r.mode == NetworkMode::Deny,
            r.allowed_hosts@ == Set::<Seq<char>>::empty(),
            r.allowed_hosts.list().len() == 0,
            !r.require_enforcement,
    {
        NetworkPolicy {
            mode: NetworkMode::Deny,
            allowed_hosts: TextSet::new(),
            require_enforcement: false,
        }
    }
}

/// What happens to a resident process in the background.
#[derive(Clone, Copy, Debug, PartialEq, Eq, Structural)]
pub enum BackgroundExecution {
    /// It goes on running.
    Continue,
    /// It is frozen until it is recalled.
    Freeze,
}

impl Default for BackgroundExecution {
    fn default() -> (r: BackgroundExecution)
        ensures
            r == BackgroundExecution::Continue,
    {
        BackgroundExecution::Continue
    }
}

impl BackgroundExecution {
    /// Whether the process is frozen in the background.
    pub fn freezes_process(self) -> (r: bool)
        ensures
            r == (self == BackgroundExecution::Freeze),
    {
        self == BackgroundExecution::Freeze
    }
}

/// What an application requires of its runtime.
#[derive(Clone, Debug, PartialEq, Eq)]
pub struct RuntimeRequirements {
    pub profile: RuntimeProfile,
    /// SONAMEs (not paths) that must be resolvable before launch.
    pub required_libraries: Vec<String>,
    /// Required in schema v2. Optional here so schema v1 remains readable.
    pub directories: Option<RuntimeDirectories>,
    pub locale: LocalePolicy,
    pub timezone: TimezonePolicy,
    pub fonts: FontPolicy,
    pub certificates: CertificatePolicy,
    pub network: NetworkPolicy,
    pub background_execution: BackgroundExecution,
}

impl Default for RuntimeRequirements {
    fn default() -> (r: RuntimeRequirements)
        ensures
            r.profile == RuntimeProfile::NativeV2,
            r.required_libraries@.len() == 0,
            r.directories is None,
            r.locale.lang@ == "C.UTF-8"@,
            r.locale.lc_all is None,
            r.timezone.name@ == "UTC"@,
            r.fonts.directories@.len() == 0,
            r.fonts.fontconfig_file is None,
            !r.certificates.required,
            r.certificates.ca_bundle is None,
            r.certificates.ca_directory is None,
            r.network.mode == NetworkMode::Deny,
            r.network.allowed_hosts@ == Set::<Seq<char>>::empty(),
            r.network.allowed_hosts.list().len() == 0,
            !r.network.require_enforcement,
            r.background_execution == BackgroundExecution::Continue,
    {
        RuntimeRequirements {
            profile: RuntimeProfile::NativeV2,
            required_libraries: Vec::new(),
            directories: None,
            locale: LocalePolicy::default(),
            timezone: TimezonePolicy::default(),
            fonts: FontPolicy::default(),
            certificates: CertificatePolicy::default(),
            network: NetworkPolicy::default(),
            background_execution: BackgroundExecution::Continue,
        }
    }
}

/// The fault of the application's directories.
pub open spec fn directories_fault(
    directories: Option<RuntimeDirectories>,
    required: bool,
) -> Option<RuntimeFault> {
    match directories {
        Some(directories) => directories.fault(),
        None => if required {
            Some(RuntimeFault::MissingDirectories)
        } else {
            None
        },
    }
}

/// The name of a shared library.
pub open spec fn valid_library(s: Seq<char>) -> bool {
    0 < s.len() && byte_len(s) <= 128 && all_admitted(CharClass::Library, s)
}

/// The fault of one required library: a bad name, or one that stood before.
pub open spec fn library_fault(list: Seq<Seq<char>>, i: int) -> Option<RuntimeFault> {
    if !valid_library(list[i]) {
        Some(RuntimeFault::InvalidLibrary(list[i]))
    } else if text_repeats(list, i) {
        Some(RuntimeFault::DuplicateLibrary(list[i]))
    } else {
        None
    }
}

/// The first fault of the required libraries.
pub open spec fn libraries_fault(list: Seq<Seq<char>>) -> Option<RuntimeFault> {
    first_some(Seq::new(list.len(), |i: int| library_fault(list, i)))
}

/// The name of a locale.
pub open spec fn valid_locale(s: Seq<char>) -> bool {
    0 < s.len() && byte_len(s) <= 64 && all_admitted(CharClass::Locale, s)
}

/// The fault of a locale.
pub open spec fn locale_fault(field: Seq<char>, value: Seq<char>) -> Option<RuntimeFault> {
    if valid_locale(value) {
        None
    } else {
        Some(RuntimeFault::InvalidPolicyValue(field, value))
    }
}

/// The name of a time zone. No dot is admitted, so none leads upwards.
pub open spec fn valid_timezone(s: Seq<char>) -> bool {
    0 < s.len() && byte_len(s) <= 128 && s[0] != '/' && all_admitted(CharClass::Timezone, s)
}

/// The fault of a time zone.
pub open spec fn timezone_fault(value: Seq<char>) -> Option<RuntimeFault> {
    if valid_timezone(value) {
        None
    } else {
        Some(RuntimeFault::InvalidPolicyValue("timezone.name"@, value))
    }
}

/// The fault of one of a list of paths that must be safe and different.
pub open spec fn listed_path_fault(
    field: Seq<char>,
    paths: Seq<Seq<char>>,
    i: int,
) -> Option<RuntimeFault> {
    if !safe_absolute(paths[i]) {
        Some(RuntimeFault::UnsafePath(field, paths[i]))
    } else if path_repeats(paths, i) {
        Some(RuntimeFault::DuplicatePath(field, paths[i]))
    } else {
        None
    }
}

/// The first fault of a list of paths that must be safe and different.
pub open spec fn path_list_fault(field: Seq<char>, paths: Seq<Seq<char>>) -> Option<RuntimeFault> {
    first_some(Seq::new(paths.len(), |i: int| listed_path_fault(field, paths, i)))
}

/// The fault of a path that may be missing.
pub open spec fn optional_path_fault(
    field: Seq<char>,
    path: Option<FilePath>,
) -> Option<RuntimeFault> {
    match path {
        Some(path) => path_fault(field, path@),
        None => None,
    }
}

/// The first fault of a font policy.
pub open spec fn fonts_fault(fonts: FontPolicy) -> Option<RuntimeFault> {
    either(
        path_list_fault("fonts.directories"@, path_texts(fonts.directories@)),
        optional_path_fault("fonts.fontconfig_file"@, fonts.fontconfig_file),
    )
}

/// The first fault of a certificate policy.
pub open spec fn certificates_fault(certificates: CertificatePolicy) -> Option<RuntimeFault> {
    either(
        optional_path_fault("certificates.ca_bundle"@, certificates.ca_bundle),
        either(
            optional_path_fault("certificates.ca_directory"@, certificates.ca_directory),
            if certificates.required && certificates.ca_bundle is None
                && certificates.ca_directory is None {
                Some(RuntimeFault::MissingCertificateSource)
            } else {
                None
            },
        ),
    )
}

/// One label of a host name.
pub open spec fn valid_label(s: Seq<char>) -> bool {
    &&& 0 < s.len()
    &&& byte_len(s) <= 63
    &&& s[0] != '-'
    &&& s.last() != '-'
    &&& all_admitted(CharClass::HostLabel, s)
}

/// A host name: labels between dots.
pub open spec fn valid_host(s: Seq<char>) -> bool {
    &&& byte_len(s) <= 253
    &&& forall|i: int| 0 <= i < split(s, '.').len() ==> valid_label(#[trigger] split(s, '.')[i])
}

/// A host without the mark that stands for its subdomains.
pub open spec fn bare_host(s: Seq<char>) -> Seq<char> {
    if "*."@.is_prefix_of(s) {
        s.skip(2)
    } else {
        s
    }
}

/// The fault of one allowed host.
pub open spec fn host_fault(host: Seq<char>) -> Option<RuntimeFault> {
    if valid_host(bare_host(host)) {
        None
    } else {
        Some(RuntimeFault::InvalidHost(bare_host(host)))
    }
}

/// The first fault of a network policy; hosts are checked in their order.
pub open spec fn network_fault(network: NetworkPolicy) -> Option<RuntimeFault> {
    let hosts = network.allowed_hosts.list();
    if network.mode == NetworkMode::Deny && hosts.len() > 0 {
        Some(RuntimeFault::HostsWithDeniedNetwork)
    } else {
        first_some(Seq::new(hosts.len(), |i: int| host_fault(hosts[i])))
    }
}

impl RuntimeRequirements {
    /// The first fault of the policies that do not concern directories or
    /// libraries.
    pub open spec fn policies_fault(&self) -> Option<RuntimeFault> {
        separate_policies_fault(
            self.locale,
            self.timezone,
            self.fonts,
            self.certificates,
            self.network,
        )
    }

    /// The first fault of the requirements.
    pub open spec fn fault(&self, require_directories: bool) -> Option<RuntimeFault> {
        either(
            directories_fault(self.directories, require_directories),
            either(libraries_fault(texts(self.required_libraries@)), self.policies_fault()),
        )
    }

    /// Checks the requirements. Directories may be missing unless they are
    /// required.
    pub fn validate(&self, require_directories: bool) -> (r: Result<(), RuntimeValidationError>)
        ensures
            reports(r, self.fault(require_directories)),
    {
        if let Err(e) = validate_directories(&self.directories, require_directories) {
            return Err(e);
        }
        if let Err(e) = validate_libraries(&self.required_libraries) {
            return Err(e);
        }
        validate_policies(
            &self.locale,
            &self.timezone,
            &self.fonts,
            &self.certificates,
            &self.network,
        )
    }
}

/// The first fault of policies that stand by themselves.
pub open spec fn separate_policies_fault(
    locale: LocalePolicy,
    timezone: TimezonePolicy,
    fonts: FontPolicy,
    certificates: CertificatePolicy,
    network: NetworkPolicy,
) -> Option<RuntimeFault> {
    either(
        locale_fault("locale.lang"@, locale.lang@),
        either(
            match locale.lc_all {
                Some(value) => locale_fault("locale.lc_all"@, value@),
                None => None,
            },
            either(
                timezone_fault(timezone.name@),
                either(
                    fonts_fault(fonts),
                    either(certificates_fault(certificates), network_fault(network)),
                ),
            ),
        ),
    )
}

/// Checks the policies that do not concern directories or libraries.
pub fn validate_policies(
    locale: &LocalePolicy,
    timezone: &TimezonePolicy,
    fonts: &FontPolicy,
    certificates: &CertificatePolicy,
    network: &NetworkPolicy,
) -> (r: Result<(), RuntimeValidationError>)
    ensures
        reports(
            r,
            separate_policies_fault(*locale, *timezone, *fonts, *certificates, *network),
        ),
{
    if let Err(e) = validate_locale("locale.lang", locale.lang.as_str()) {
        return Err(e);
    }
    if let Some(lc_all) = &locale.lc_all {
        if let Err(e) = validate_locale("locale.lc_all", lc_all.as_str()) {
            return Err(e);
        }
    }
    if let Err(e) = validate_timezone(timezone.name.as_str()) {
        return Err(e);
    }
    if let Err(e) = validate_font_policy(fonts) {
        return Err(e);
    }
    if let Err(e) = validate_certificate_policy(certificates) {
        return Err(e);
    }
    validate_network_policy(network)
}

fn validate_directories(directories: &Option<RuntimeDirectories>, required: bool) -> (r: Result<
    (),
    RuntimeValidationError,
>)
    ensures
        reports(r, directories_fault(*directories, required)),
{
    match directories {
        Some(directories) => directories.validate(),
        None => if required {
            Err(RuntimeValidationError::MissingDirectories)
        } else {
            Ok(())
        },
    }
}

/// Whether an earlier string of the list is the same.
pub fn repeats_earlier(list: &[String], i: usize) -> (r: bool)
    requires
        i < list@.len(),
    ensures
        r == text_repeats(texts(list@), i as int),
{
    let ghost all = texts(list@);
    let mut k: usize = 0;
    while k < i
        invariant
            k <= i < list@.len(),
            all == texts(list@),
            forall|j: int| 0 <= j < k ==> #[trigger] all[j] != all[i as int],
        decreases i - k,
    {
        assert(all[k as int] == list@[k as int]@);
        if text_eq(list[k].as_str(), list[i].as_str()) {
            assert(all[k as int] == all[i as int]);
            return true;
        }
        k = k + 1;
    }
    false
}

/// Whether an earlier path of the list has the same components.
pub fn path_repeats_earlier(list: &[FilePath], i: usize) -> (r: bool)
    requires
        i < list@.len(),
    ensures
        r == path_repeats(path_texts(list@), i as int),
{
    let ghost all = path_texts(list@);
    let mut k: usize = 0;
    while k < i
        invariant
            k <= i < list@.len(),
            all == path_texts(list@),
            forall|j: int|
                0 <= j < k ==> components(#[trigger] all[j]) != components(all[i as int]),
        decreases i - k,
    {
        assert(all[k as int] == list@[k as int]@);
        if list[k].same_as(&list[i]) {
            assert(components(all[k as int]) == components(all[i as int]));
            return true;
        }
        k = k + 1;
    }
    false
}

fn validate_libraries(libraries: &[String]) -> (r: Result<(), RuntimeValidationError>)
    ensures
        reports(r, libraries_fault(texts(libraries@))),
{
    let ghost list = texts(libraries@);
    let ghost faults = Seq::new(list.len(), |i: int| library_fault(list, i));
    let mut i: usize = 0;
    while i < libraries.len()
        invariant
            i <= libraries.len(),
            list == texts(libraries@),
            faults == Seq::new(list.len(), |i: int| library_fault(list, i)),
            forall|j: int| 0 <= j < i ==> faults[j] is None,
        decreases libraries.len() - i,
    {
        let library = &libraries[i];
        assert(list[i as int] == library@);
        if library.as_str().is_empty() || byte_count(library.as_str()) > 128 || !text_admitted(
            CharClass::Library,
            library.as_str(),
        ) {
            proof {
                lemma_first_at(faults, i as int);
            }
            return Err(RuntimeValidationError::InvalidLibrary(library.clone()));
        }
        if repeats_earlier(libraries, i) {
            proof {
                lemma_first_at(faults, i as int);
            }
            return Err(RuntimeValidationError::DuplicateLibrary(library.clone()));
        }
        i = i + 1;
    }
    proof {
        lemma_first_none(faults);
    }
    Ok(())
}

/// Checks a list of paths that must be safe and different.
pub fn validate_path_list(field: &'static str, paths: &[FilePath]) -> (r: Result<
    (),
    RuntimeValidationError,
>)
    ensures
        reports(r, path_list_fault(field@, path_texts(paths@))),
{
    let ghost list = path_texts(paths@);
    let ghost faults = Seq::new(list.len(), |i: int| listed_path_fault(field@, list, i));
    let mut i: usize = 0;
    while i < paths.len()
        invariant
            i <= paths.len(),
            list == path_texts(paths@),
            faults == Seq::new(list.len(), |i: int| listed_path_fault(field@, list, i)),
            forall|j: int| 0 <= j < i ==> faults[j] is None,
        decreases paths.len() - i,
    {
        let path = &paths[i];
        assert(list[i as int] == path@);
        if let Err(e) = validate_absolute(field, path) {
            proof {
                lemma_first_at(faults, i as int);
            }
            return Err(e);
        }
        if path_repeats_earlier(paths, i) {
            proof {
                lemma_first_at(faults, i as int);
            }
            return Err(RuntimeValidationError::DuplicatePath(field, path.clone()));
        }
        i = i + 1;
    }
    proof {
        lemma_first_none(faults);
    }
    Ok(())
}

fn validate_font_policy(fonts: &FontPolicy) -> (r: Result<(), RuntimeValidationError>)
    ensures
        reports(r, fonts_fault(*fonts)),
{
    if let Err(e) = validate_path_list("fonts.directories", &fonts.directories) {
        return Err(e);
    }
    if let Some(file) = &fonts.fontconfig_file {
        if let Err(e) = validate_absolute("fonts.fontconfig_file", file) {
            return Err(e);
        }
    }
    Ok(())
}

fn validate_certificate_policy(certificates: &CertificatePolicy) -> (r: Result<
    (),
    RuntimeValidationError,
>)
    ensures
        reports(r, certificates_fault(*certificates)),
{
    if let Some(bundle) = &certificates.ca_bundle {
        if let Err(e) = validate_absolute("certificates.ca_bundle", bundle) {
            return Err(e);
        }
    }
    if let Some(directory) = &certificates.ca_directory {
        if let Err(e) = validate_absolute("certificates.ca_directory", directory) {
            return Err(e);
        }
    }
    if certificates.required && certificates.ca_bundle.is_none()
        && certificates.ca_directory.is_none() {
        return Err(RuntimeValidationError::MissingCertificateSource);
    }
    Ok(())
}

fn validate_network_policy(network: &NetworkPolicy) -> (r: Result<(), RuntimeValidationError>)
    ensures
        reports(r, network_fault(*network)),
{
    let ghost hosts = network.allowed_hosts.list();
    let ghost faults = Seq::new(hosts.len(), |i: int| host_fault(hosts[i]));
    let n: usize = network.allowed_hosts.len();
    if network.mode == NetworkMode::Deny && n > 0 {
        return Err(RuntimeValidationError::HostsWithDeniedNetwork);
    }
    let mut i: usize = 0;
    while i < n
        invariant
            i <= n,
            n == hosts.len(),
            hosts == network.allowed_hosts.list(),
            !(network.mode == NetworkMode::Deny && n > 0),
            faults == Seq::new(hosts.len(), |i: int| host_fault(hosts[i])),
            forall|j: int| 0 <= j < i ==> faults[j] is None,
        decreases n - i,
    {
        if let Err(e) = validate_host(network.allowed_hosts.at(i).as_str()) {
            proof {
                lemma_first_at(faults, i as int);
            }
            return Err(e);
        }
        i = i + 1;
    }
    proof {
        lemma_first_none(faults);
    }
    Ok(())
}

/// Checks that a path is absolute and free of upward steps.
pub fn validate_absolute(field: &'static str, value: &FilePath) -> (r: Result<
    (),
    RuntimeValidationError,
>)
    ensures
        reports(r, path_fault(field@, value@)),
{
    if value.is_safe_absolute() {
        Ok(())
    } else {
        Err(RuntimeValidationError::UnsafePath(field, value.clone()))
    }
}

fn validate_locale(field: &'static str, value: &str) -> (r: Result<(), RuntimeValidationError>)
    ensures
        reports(r, locale_fault(field@, value@)),
{
    if value.is_empty() || byte_count(value) > 64 || !text_admitted(CharClass::Locale, value) {
        return Err(RuntimeValidationError::InvalidPolicyValue(field, value.to_owned()));
    }
    Ok(())
}

fn validate_timezone(value: &str) -> (r: Result<(), RuntimeValidationError>)
    ensures
        reports(r, timezone_fault(value@)),
{
    if value.is_empty() || byte_count(value) > 128 || starts_with_char(value, '/')
        || !text_admitted(CharClass::Timezone, value) {
        return Err(RuntimeValidationError::InvalidPolicyValue("timezone.name", value.to_owned()));
    }
    Ok(())
}

/// Whether a string is one label of a host name.
fn is_label(s: &str) -> (r: bool)
    ensures
        r == valid_label(s@),
{
    !s.is_empty() && byte_count(s) <= 63 && !starts_with_char(s, '-') && !ends_with_char(s, '-')
        && text_admitted(CharClass::HostLabel, s)
}

fn validate_host(host: &str) -> (r: Result<(), RuntimeValidationError>)
    ensures
        reports(r, host_fault(host@)),
{
    proof {
        reveal_strlit("*.");
    }
    let bare = match strip_prefix(host, "*.") {
        Some(rest) => rest,
        None => host.to_owned(),
    };
    assert(bare@ == bare_host(host@));
    if byte_count(bare.as_str()) > 253 {
        return Err(RuntimeValidationError::InvalidHost(bare));
    }
    let labels = split_on(bare.as_str(), '.');
    let ghost pieces = split(bare@, '.');
    let mut i: usize = 0;
    while i < labels.len()
        invariant
            i <= labels.len(),
            pieces == split(bare@, '.'),
            texts(labels@) == pieces,
            bare@ == bare_host(host@),
            byte_len(bare@) <= 253,
            forall|j: int| 0 <= j < i ==> valid_label(#[trigger] pieces[j]),
        decreases labels.len() - i,
    {
        assert(pieces[i as int] == labels@[i as int]@) by {
            assert(texts(labels@)[i as int] == labels@[i as int]@);
        }
        if !is_label(labels[i].as_str()) {
            return Err(RuntimeValidationError::InvalidHost(bare));
        }
        i = i + 1;
    }
    Ok(())
}

/// The fault of a list of paths that shares one environment variable.
pub open spec fn path_list_unfit(paths: Seq<Seq<char>>) -> bool {
    exists|i: int| 0 <= i < paths.len() && (#[trigger] paths[i]).contains(':')
}

/// The paths as one value of an environment variable.
pub fn encode_path_list(paths: &[FilePath]) -> (r: Result<String, RuntimeValidationError>)
    ensures
        match r {
            Ok(text) => !path_list_unfit(path_texts(paths@)) && text@ == join(
                path_texts(paths@),
                seq![':'],
            ),
            Err(e) => path_list_unfit(path_texts(paths@)) && e@ == RuntimeFault::InvalidPathList(
                "path segment contains separator `:`"@,
            ),
        },
{
    let ghost list = path_texts(paths@);
    assert forall|i: int| 0 <= i < paths@.len() implies list[i] == (#[trigger] paths@[i])@ by {}
    match join_paths(paths) {
        Some(text) => {
            assert(!path_list_unfit(list)) by {
                if path_list_unfit(list) {
                    let i = choose|i: int| 0 <= i < list.len() && (#[trigger] list[i]).contains(':');
                    assert(paths@[i]@.contains(':'));
                }
            }
            Ok(text)
        },
        None => {
            assert(path_list_unfit(list)) by {
                let i = choose|i: int|
                    0 <= i < paths@.len() && (#[trigger] paths@[i])@.contains(':');
                assert(list[i].contains(':'));
            }
            Err(
                RuntimeValidationError::InvalidPathList(
                    "path segment contains separator `:`".to_owned(),
                ),
            )
        },
    }
}

impl NetworkMode {
    /// The name of the variant.
    pub open spec fn debug_name(self) -> Seq<char> {
        match self {
            NetworkMode::Deny => "Deny"@,
            NetworkMode::HttpsOnly => "HttpsOnly"@,
            NetworkMode::Outbound => "Outbound"@,
        }
    }

    /// The name of the variant.
    pub fn debug_str(self) -> (r: &'static str)
        ensures
            r@ == self.debug_name(),
    {
        match self {
            NetworkMode::Deny => "Deny",
            NetworkMode::HttpsOnly => "HttpsOnly",
            NetworkMode::Outbound => "Outbound",
        }
    }
}

/// The directories of an application are accepted exactly where all six are absolute, do not lead
/// upwards, are not the root itself and differ from each other, the four that persist lie strictly
/// below the home, and the one for the running process does not lie there.
pub proof fn sound_directories_are_accepted(directories: RuntimeDirectories)
    ensures
        directories.fault() is None <==> {
            let roots = seq![
                directories.home@,
                directories.config_home@,
                directories.data_home@,
                directories.state_home@,
                directories.cache_home@,
                directories.runtime_dir@,
            ];
            let home = components(directories.home@);
            &&& forall|i: int|
                0 <= i < 6 ==> (#[trigger] roots[i]).len() > 0 && roots[i][0] == '/' && !components(
                    roots[i],
                ).contains(seq!['.', '.']) && components(roots[i]) != components("/"@)
            &&& forall|i: int, j: int|
                0 <= i < j < 6 ==> components(#[trigger] roots[i]) != components(#[trigger] roots[j])
            &&& home.is_prefix_of(components(directories.config_home@))
            &&& home.is_prefix_of(components(directories.data_home@))
            &&& home.is_prefix_of(components(directories.state_home@))
            &&& home.is_prefix_of(components(directories.cache_home@))
            &&& !home.is_prefix_of(components(directories.runtime_dir@))
        },
{
    let roots = directories.roots();
    let alone = Seq::new(6, |i: int| directories.root_fault(i));
    let repeats = Seq::new(6, |i: int| directories.repeat_fault(i));
    let outside = Seq::new(4, |i: int| directories.outside_fault(i + 1));
    no_first_finding_means_none(alone);
    no_first_finding_means_none(repeats);
    no_first_finding_means_none(outside);
    assert(roots[1] == directories.config_home@ && roots[2] == directories.data_home@ && roots[3]
        == directories.state_home@ && roots[4] == directories.cache_home@);
    assert((forall|i: int| 0 <= i < 6 ==> (#[trigger] repeats[i]) is None) <==> (forall|
        i: int,
        j: int,
    |
        0 <= i < j < 6 ==> components(#[trigger] roots[i]) != components(#[trigger] roots[j]))) by {
        if forall|i: int| 0 <= i < 6 ==> (#[trigger] repeats[i]) is None {
            assert forall|i: int, j: int| 0 <= i < j < 6 implies components(#[trigger] roots[i])
                != components(#[trigger] roots[j]) by {
                assert(repeats[j] is None);
                assert(!path_repeats(roots, j));
            }
        }
        if forall|i: int, j: int|
            0 <= i < j < 6 ==> components(#[trigger] roots[i]) != components(#[trigger] roots[j]) {
            assert forall|i: int| 0 <= i < 6 implies (#[trigger] repeats[i]) is None by {
                assert(!path_repeats(roots, i));
            }
        }
    }
    if directories.fault() is None {
        assert forall|i: int|
            0 <= i < 6 implies (#[trigger] roots[i]).len() > 0 && roots[i][0] == '/' && !components(
            roots[i],
        ).contains(seq!['.', '.']) && components(roots[i]) != components("/"@) by {
            assert(alone[i] is None);
        }
        assert(outside[0] is None && outside[1] is None && outside[2] is None && outside[3] is None);
    } else {
        if (forall|i: int|
            0 <= i < 6 ==> (#[trigger] roots[i]).len() > 0 && roots[i][0] == '/' && !components(
                roots[i],
            ).contains(seq!['.', '.']) && components(roots[i]) != components("/"@)) {
            assert forall|i: int| 0 <= i < 6 implies (#[trigger] alone[i]) is None by {
                assert(roots[i].len() > 0);
            }
        }
        if (forall|i: int, j: int|
            0 <= i < j < 6 ==> components(#[trigger] roots[i]) != components(#[trigger] roots[j]))
            && within(roots[1], roots[0]) && within(roots[2], roots[0]) && within(
            roots[3],
            roots[0],
        ) && within(roots[4], roots[0]) {
            assert forall|i: int| 0 <= i < 4 implies (#[trigger] outside[i]) is None by {
                assert(components(roots[0]) != components(roots[i + 1]));
            }
        }
    }
}

/// The required libraries are accepted exactly where each has a name that a library can have and
/// none is required twice.
pub proof fn required_libraries_are_named_once(list: Seq<Seq<char>>)
    ensures
        libraries_fault(list) is None <==> {
            &&& forall|i: int|
                0 <= i < list.len() ==> 0 < (#[trigger] list[i]).len() && byte_len(list[i]) <= 128
                    && all_admitted(CharClass::Library, list[i])
            &&& forall|i: int, j: int|
                0 <= i < j < list.len() ==> #[trigger] list[i] != #[trigger] list[j]
        },
{
    let faults = Seq::new(list.len(), |i: int| library_fault(list, i));
    no_first_finding_means_none(faults);
    if libraries_fault(list) is None {
        assert forall|i: int| 0 <= i < list.len() implies 0 < (#[trigger] list[i]).len()
            && byte_len(list[i]) <= 128 && all_admitted(CharClass::Library, list[i]) by {
            assert(faults[i] is None);
        }
        assert forall|i: int, j: int| 0 <= i < j < list.len() implies #[trigger] list[i]
            != #[trigger] list[j] by {
            assert(faults[j] is None);
        }
    } else {
        let i = choose|i: int| 0 <= i < faults.len() && !((#[trigger] faults[i]) is None);
        assert(library_fault(list, i) is Some);
        assert(0 < list[i].len() || list[i].len() == 0);
        if text_repeats(list, i) {
            let j = choose|j: int| 0 <= j < i && #[trigger] list[j] == list[i];
            assert(list[j] == list[i]);
        }
    }
}

/// A list of paths is accepted exactly where each is absolute and does not lead upwards and no two
/// have the same components.
pub proof fn listed_paths_are_safe_and_different(field: Seq<char>, paths: Seq<Seq<char>>)
    ensures
        path_list_fault(field, paths) is None <==> {
            &&& forall|i: int|
                0 <= i < paths.len() ==> (#[trigger] paths[i]).len() > 0 && paths[i][0] == '/'
                    && !components(paths[i]).contains(seq!['.', '.'])
            &&& forall|i: int, j: int|
                0 <= i < j < paths.len() ==> components(#[trigger] paths[i]) != components(
                    #[trigger] paths[j],
                )
        },
{
    let faults = Seq::new(paths.len(), |i: int| listed_path_fault(field, paths, i));
    no_first_finding_means_none(faults);
    if path_list_fault(field, paths) is None {
        assert forall|i: int| 0 <= i < paths.len() implies (#[trigger] paths[i]).len() > 0
            && paths[i][0] == '/' && !components(paths[i]).contains(seq!['.', '.']) by {
            assert(faults[i] is None);
        }
        assert forall|i: int, j: int| 0 <= i < j < paths.len() implies components(
            #[trigger] paths[i],
        ) != components(#[trigger] paths[j]) by {
            assert(faults[j] is None);
        }
    } else {
        let i = choose|i: int| 0 <= i < faults.len() && !((#[trigger] faults[i]) is None);
        assert(listed_path_fault(field, paths, i) is Some);
        assert(paths[i].len() > 0 || paths[i].len() == 0);
        if path_repeats(paths, i) {
            let j = choose|j: int| 0 <= j < i && components(#[trigger] paths[j]) == components(
                paths[i],
            );
            assert(components(paths[j]) == components(paths[i]));
        }
    }
}

/// Certificates are accepted where what is named is absolute and does not lead upwards, and where
/// a source is named if one is required.
pub proof fn required_certificates_have_a_source(certificates: CertificatePolicy)
    ensures
        certificates_fault(certificates) is None <==> {
            &&& certificates.ca_bundle is Some ==> safe_absolute(certificates.ca_bundle->0@)
            &&& certificates.ca_directory is Some ==> safe_absolute(certificates.ca_directory->0@)
            &&& certificates.required ==> certificates.ca_bundle is Some
                || certificates.ca_directory is Some
        },
{
}

/// A network policy is accepted exactly where a denied network names no host and every host, with
/// or without the mark for its subdomains, is a host name.
pub proof fn network_policies_name_hosts(network: NetworkPolicy)
    ensures
        network_fault(network) is None <==> {
            let hosts = network.allowed_hosts.list();
            &&& network.mode == NetworkMode::Deny ==> hosts.len() == 0
            &&& forall|i: int|
                0 <= i < hosts.len() ==> valid_host(
                    if "*."@.is_prefix_of(#[trigger] hosts[i]) {
                        hosts[i].skip(2)
                    } else {
                        hosts[i]
                    },
                )
        },
{
    let hosts = network.allowed_hosts.list();
    let faults = Seq::new(hosts.len(), |i: int| host_fault(hosts[i]));
    no_first_finding_means_none(faults);
    if network_fault(network) is None {
        assert forall|i: int| 0 <= i < hosts.len() implies valid_host(
            if "*."@.is_prefix_of(#[trigger] hosts[i]) {
                hosts[i].skip(2)
            } else {
                hosts[i]
            },
        ) by {
            assert(faults[i] is None);
        }
    } else if !(network.mode == NetworkMode::Deny && hosts.len() > 0) {
        let i = choose|i: int| 0 <= i < faults.len() && !((#[trigger] faults[i]) is None);
        assert(host_fault(hosts[i]) is Some);
        assert("*."@.is_prefix_of(hosts[i]) || !"*."@.is_prefix_of(hosts[i]));
    }
}

/// Names joined with dots are a host name where each of them is a label: not empty, not too long,
/// of letters, digits and hyphens, and without a hyphen at either end.
pub proof fn hosts_are_labels_between_dots(labels: Seq<Seq<char>>)
    requires
        labels.len() > 0,
        forall|i: int| 0 <= i < labels.len() ==> !(#[trigger] labels[i]).contains('.'),
        byte_len(join(labels, seq!['.'])) <= 253,
    ensures
        valid_host(join(labels, seq!['.'])) <==> forall|i: int|
            0 <= i < labels.len() ==> {
                &&& 0 < (#[trigger] labels[i]).len()
                &&& byte_len(labels[i]) <= 63
                &&& labels[i][0] != '-'
                &&& labels[i].last() != '-'
                &&& all_admitted(CharClass::HostLabel, labels[i])
            },
{
    splitting_undoes_joining(labels, '.');
    if valid_host(join(labels, seq!['.'])) {
        assert forall|i: int| 0 <= i < labels.len() implies {
            &&& 0 < (#[trigger] labels[i]).len()
            &&& byte_len(labels[i]) <= 63
            &&& labels[i][0] != '-'
            &&& labels[i].last() != '-'
            &&& all_admitted(CharClass::HostLabel, labels[i])
        } by {
            assert(valid_label(split(join(labels, seq!['.']), '.')[i]));
        }
    }
}

/// The requirements are accepted exactly where their directories, libraries and policies are;
/// directories may be missing where they are not asked for.
pub proof fn sound_requirements_are_accepted(
    requirements: RuntimeRequirements,
    require_directories: bool,
)
    ensures
        requirements.fault(require_directories) is None <==> {
            &&& requirements.directories is None ==> !require_directories
            &&& requirements.directories is Some ==> requirements.directories->0.fault() is None
            &&& libraries_fault(texts(requirements.required_libraries@)) is None
            &&& valid_locale(requirements.locale.lang@)
            &&& requirements.locale.lc_all is Some ==> valid_locale(requirements.locale.lc_all->0@)
            &&& valid_timezone(requirements.timezone.name@)
            &&& path_list_fault(
                "fonts.directories"@,
                path_texts(requirements.fonts.directories@),
            ) is None
            &&& requirements.fonts.fontconfig_file is Some ==> safe_absolute(
                requirements.fonts.fontconfig_file->0@,
            )
            &&& certificates_fault(requirements.certificates) is None
            &&& network_fault(requirements.network) is None
        },
{
}

/// A locale and a time zone are short names of letters, digits and a few signs; a time zone does
/// not begin at the root.
pub proof fn locales_and_time_zones_are_names(s: Seq<char>)
    ensures
        valid_locale(s) <==> 0 < s.len() && byte_len(s) <= 64 && forall|i: int|
            0 <= i < s.len() ==> is_alnum(#[trigger] s[i]) || s[i] == '.' || s[i] == '_' || s[i]
                == '-' || s[i] == '@',
        valid_timezone(s) <==> 0 < s.len() && byte_len(s) <= 128 && s[0] != '/' && forall|i: int|
            0 <= i < s.len() ==> is_alnum(#[trigger] s[i]) || s[i] == '/' || s[i] == '_' || s[i]
                == '-' || s[i] == '+',
{
}

} // verus!
