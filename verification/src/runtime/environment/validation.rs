//! Checks on a launch environment.
use vstd::prelude::*;
use crate::first::either;
use crate::manifest::AppId;
use crate::ordered::OrderedMap;
use crate::ordered::{
    is_least, least, lemma_least_is, listed_keys_have_a_first, lists_keys, value_texts,
};
use crate::path::FilePath;
use crate::path::{absolute, components, parent_dir, path_texts};
use crate::runtime::environment::{joined_hosts, LaunchEnvironment};
use crate::runtime::environment::{font_directories, font_list_fault, optional_text, Variables};
use crate::runtime::error::{reports, RuntimeFault};
use crate::runtime::policy::{encode_path_list, validate_path_list, validate_policies};
use crate::runtime::policy::{path_list_fault, separate_policies_fault};
use crate::runtime::{
    qtfb_key_for_app, CertificatePolicy, FontPolicy, LocalePolicy, NetworkPolicy,
    RuntimeDirectories, RuntimeProfile, RuntimeValidationError, TimezonePolicy,
};
use crate::runtime::qtfb_key;
use crate::text::{
    byte_count, char_is_digit, chars_of, contains_char, decimal_text, has_prefix, split_on,
    text_admitted, text_eq, CharClass,
};
use crate::text::{
    all_admitted, byte_len, decimal, is_digit, join, split, text_less, texts,
};

verus! {

/// A variable that only the platform may set.
pub open spec fn reserved_variable(key: Seq<char>) -> bool {
    ||| key == "PATH"@
    ||| key == "HOME"@
    ||| key == "LANG"@
    ||| key == "LC_ALL"@
    ||| key == "TZ"@
    ||| key == "LD_LIBRARY_PATH"@
    ||| key == "SSL_CERT_FILE"@
    ||| key == "SSL_CERT_DIR"@
    ||| key == "FONTCONFIG_FILE"@
    ||| key == "QT_QPA_PLATFORM"@
    ||| key == "QT_QPA_FONTDIR"@
    ||| key == "QTFB_KEY"@
    ||| "XDG_"@.is_prefix_of(key)
    ||| "REMAGIC_"@.is_prefix_of(key)
}

/// Whether only the platform may set a variable.
pub fn is_platform_reserved_environment(key: &str) -> (r: bool)
    ensures
        r == reserved_variable(key@),
{
    text_eq(key, "PATH") || text_eq(key, "HOME") || text_eq(key, "LANG") || text_eq(key, "LC_ALL")
        || text_eq(key, "TZ") || text_eq(key, "LD_LIBRARY_PATH") || text_eq(key, "SSL_CERT_FILE")
        || text_eq(key, "SSL_CERT_DIR") || text_eq(key, "FONTCONFIG_FILE") || text_eq(
        key,
        "QT_QPA_PLATFORM",
    ) || text_eq(key, "QT_QPA_FONTDIR") || text_eq(key, "QTFB_KEY") || has_prefix(key, "XDG_")
        || has_prefix(key, "REMAGIC_")
}

/// The name of a variable.
pub open spec fn valid_key(key: Seq<char>) -> bool {
    &&& 0 < key.len()
    &&& byte_len(key) <= 128
    &&& !is_digit(key[0])
    &&& all_admitted(CharClass::Variable, key)
}

/// A variable that a process can be given.
pub open spec fn valid_pair(key: Seq<char>, value: Seq<char>) -> bool {
    valid_key(key) && !value.contains('\0')
}

/// Checks the name and the value of a variable.
pub fn validate_environment_pair(key: &str, value: &str) -> (r: Result<(), RuntimeValidationError>)
    ensures
        reports(
            r,
            if valid_pair(key@, value@) {
                None
            } else {
                Some(RuntimeFault::InvalidEnvironment(key@))
            },
        ),
{
    let chars = chars_of(key);
    if chars.len() == 0 || char_is_digit(chars[0]) || !text_admitted(CharClass::Variable, key)
        || byte_count(key) > 128 || contains_char(value, '\0') {
        return Err(RuntimeValidationError::InvalidEnvironment(key.to_owned()));
    }
    Ok(())
}

/// The variables that no process can be given.
pub open spec fn faulty_keys(variables: Variables) -> Set<Seq<char>> {
    Set::new(|k: Seq<char>| variables.contains_key(k) && !valid_pair(k, variables[k]))
}

/// The fault of the first variable that no process can be given.
pub open spec fn variables_fault(variables: Variables) -> Option<RuntimeFault> {
    match least(faulty_keys(variables)) {
        Some(key) => Some(RuntimeFault::InvalidEnvironment(key)),
        None => None,
    }
}

/// The fault of a variable that has to be a directory.
pub open spec fn directory_variable_fault(
    variables: Variables,
    key: Seq<char>,
    expected: Seq<char>,
) -> Option<RuntimeFault> {
    if !variables.contains_key(key) {
        Some(RuntimeFault::MissingLaunchVariable(key))
    } else if components(variables[key]) != components(expected) {
        Some(RuntimeFault::MismatchedLaunchVariable(key, expected, variables[key]))
    } else {
        None
    }
}

/// The fault of a variable that has to be there.
pub open spec fn required_variable_fault(
    variables: Variables,
    key: Seq<char>,
) -> Option<RuntimeFault> {
    if variables.contains_key(key) {
        None
    } else {
        Some(RuntimeFault::MissingLaunchVariable(key))
    }
}

/// The fault of a variable that has to have one value.
pub open spec fn exact_variable_fault(
    variables: Variables,
    key: Seq<char>,
    expected: Seq<char>,
) -> Option<RuntimeFault> {
    if !variables.contains_key(key) {
        Some(RuntimeFault::MissingLaunchVariable(key))
    } else if variables[key] != expected {
        Some(RuntimeFault::PolicyVariableMismatch(key))
    } else {
        None
    }
}

/// The fault of a variable that has to have one value, or has to be missing.
pub open spec fn optional_variable_fault(
    variables: Variables,
    key: Seq<char>,
    expected: Option<Seq<char>>,
) -> Option<RuntimeFault> {
    let actual = if variables.contains_key(key) {
        Some(variables[key])
    } else {
        None
    };
    if actual == expected {
        None
    } else {
        Some(RuntimeFault::PolicyVariableMismatch(key))
    }
}

/// The first fault of the directory variables.
pub open spec fn directory_variables_fault(
    variables: Variables,
    directories: RuntimeDirectories,
) -> Option<RuntimeFault> {
    either(
        directory_variable_fault(variables, "HOME"@, directories.home@),
        either(
            directory_variable_fault(variables, "XDG_CONFIG_HOME"@, directories.config_home@),
            either(
                directory_variable_fault(variables, "XDG_DATA_HOME"@, directories.data_home@),
                either(
                    directory_variable_fault(variables, "XDG_STATE_HOME"@, directories.state_home@),
                    either(
                        directory_variable_fault(
                            variables,
                            "XDG_CACHE_HOME"@,
                            directories.cache_home@,
                        ),
                        directory_variable_fault(
                            variables,
                            "XDG_RUNTIME_DIR"@,
                            directories.runtime_dir@,
                        ),
                    ),
                ),
            ),
        ),
    )
}

/// The first fault of the variables that describe the network policy.
/// Isolation may be claimed only together with enforcement.
pub open spec fn network_variables_fault(
    variables: Variables,
    network: NetworkPolicy,
) -> Option<RuntimeFault> {
    let enforcement = variables["REMAGIC_NETWORK_POLICY_ENFORCEMENT"@];
    let isolated = variables["REMAGIC_NETWORK_ISOLATED"@];
    let metadata_only = enforcement == "metadata_only"@ && isolated == "0"@;
    let enforced = enforcement == "enforced"@ && isolated == "1"@;
    either(
        exact_variable_fault(variables, "REMAGIC_NETWORK_POLICY_MODE"@, network.mode.name()),
        either(
            exact_variable_fault(
                variables,
                "REMAGIC_NETWORK_ALLOWED_HOSTS"@,
                join(network.allowed_hosts.list(), ","@),
            ),
            either(
                required_variable_fault(variables, "REMAGIC_NETWORK_POLICY_ENFORCEMENT"@),
                either(
                    required_variable_fault(variables, "REMAGIC_NETWORK_ISOLATED"@),
                    if !metadata_only && !enforced {
                        Some(
                            RuntimeFault::PolicyVariableMismatch(
                                "REMAGIC_NETWORK_POLICY_ENFORCEMENT"@,
                            ),
                        )
                    } else if network.require_enforcement && !enforced {
                        Some(RuntimeFault::RequiredNetworkEnforcementUnavailable)
                    } else {
                        None
                    },
                ),
            ),
        ),
    )
}

/// An entry of the executable search path.
pub open spec fn valid_path_entry(s: Seq<char>) -> bool {
    absolute(s) && !components(s).contains(parent_dir())
}

/// An executable search path.
pub open spec fn valid_search_path(s: Seq<char>) -> bool {
    forall|i: int| 0 <= i < split(s, ':').len() ==> valid_path_entry(#[trigger] split(s, ':')[i])
}

/// The fault of the executable search path.
pub open spec fn search_path_fault(variables: Variables) -> Option<RuntimeFault> {
    if !variables.contains_key("PATH"@) {
        Some(RuntimeFault::MissingLaunchVariable("PATH"@))
    } else if !valid_search_path(variables["PATH"@]) {
        Some(RuntimeFault::InvalidPolicyValue("PATH"@, variables["PATH"@]))
    } else {
        None
    }
}

/// The first fault of the variables that say which application this is.
pub open spec fn identity_variables_fault(
    variables: Variables,
    app_id: Seq<char>,
    profile: RuntimeProfile,
) -> Option<RuntimeFault> {
    either(
        exact_variable_fault(variables, "REMAGIC_APP_ID"@, app_id),
        either(
            exact_variable_fault(variables, "REMAGIC_RUNTIME_PROFILE"@, profile.name()),
            either(
                search_path_fault(variables),
                if variables.contains_key("QTFB_KEY"@) && (profile != RuntimeProfile::QtfbCompat
                    || variables["QTFB_KEY"@] != decimal(qtfb_key(app_id) as nat)) {
                    Some(RuntimeFault::PolicyVariableMismatch("QTFB_KEY"@))
                } else {
                    None
                },
            ),
        ),
    )
}

/// The first fault of the variables that describe the locale.
pub open spec fn locale_variables_fault(
    variables: Variables,
    locale: LocalePolicy,
    timezone: TimezonePolicy,
) -> Option<RuntimeFault> {
    either(
        exact_variable_fault(variables, "LANG"@, locale.lang@),
        either(
            exact_variable_fault(variables, "TZ"@, timezone.name@),
            optional_variable_fault(
                variables,
                "LC_ALL"@,
                match locale.lc_all {
                    Some(value) => Some(value@),
                    None => None,
                },
            ),
        ),
    )
}

/// The first fault of the variables that describe the fonts.
pub open spec fn font_variables_fault(
    variables: Variables,
    fonts: FontPolicy,
) -> Option<RuntimeFault> {
    either(
        optional_variable_fault(
            variables,
            "FONTCONFIG_FILE"@,
            optional_text(fonts.fontconfig_file),
        ),
        either(
            font_list_fault(fonts),
            either(
                optional_variable_fault(variables, "QT_QPA_FONTDIR"@, font_directories(fonts)),
                optional_variable_fault(
                    variables,
                    "REMAGIC_FONT_DIRECTORIES"@,
                    font_directories(fonts),
                ),
            ),
        ),
    )
}

/// The first fault of the variables that describe the certificates.
pub open spec fn certificate_variables_fault(
    variables: Variables,
    certificates: CertificatePolicy,
) -> Option<RuntimeFault> {
    either(
        optional_variable_fault(
            variables,
            "SSL_CERT_FILE"@,
            optional_text(certificates.ca_bundle),
        ),
        optional_variable_fault(
            variables,
            "SSL_CERT_DIR"@,
            optional_text(certificates.ca_directory),
        ),
    )
}

/// The first fault of a launch environment.
pub open spec fn launch_fault(
    app_id: Seq<char>,
    profile: RuntimeProfile,
    directories: RuntimeDirectories,
    variables: Variables,
    libraries: Seq<Seq<char>>,
    locale: LocalePolicy,
    timezone: TimezonePolicy,
    fonts: FontPolicy,
    certificates: CertificatePolicy,
    network: NetworkPolicy,
) -> Option<RuntimeFault> {
    either(
        directories.fault(),
        either(
            variables_fault(variables),
            either(
                directory_variables_fault(variables, directories),
                either(
                    network_variables_fault(variables, network),
                    either(
                        identity_variables_fault(variables, app_id, profile),
                        either(
                            locale_variables_fault(variables, locale, timezone),
                            either(
                                font_variables_fault(variables, fonts),
                                either(
                                    certificate_variables_fault(variables, certificates),
                                    either(
                                        path_list_fault("resolved_libraries"@, libraries),
                                        separate_policies_fault(
                                            locale,
                                            timezone,
                                            fonts,
                                            certificates,
                                            network,
                                        ),
                                    ),
                                ),
                            ),
                        ),
                    ),
                ),
            ),
        ),
    )
}

impl LaunchEnvironment {
    /// The variables as texts.
    pub open spec fn variables(&self) -> Variables {
        value_texts(self.variables@)
    }

    /// The first fault of the environment.
    pub open spec fn fault(&self) -> Option<RuntimeFault> {
        launch_fault(
            self.app_id@,
            self.profile,
            self.directories,
            self.variables(),
            path_texts(self.resolved_libraries@),
            self.locale,
            self.timezone,
            self.fonts,
            self.certificates,
            self.network,
        )
    }

    /// Checks that the variables agree with the policies and that the
    /// policies are sound.
    pub fn validate(&self) -> (r: Result<(), RuntimeValidationError>)
        ensures
            reports(r, self.fault()),
    {
        if let Err(e) = self.directories.validate() {
            return Err(e);
        }
        if let Err(e) = validate_environment_variables(&self.variables) {
            return Err(e);
        }
        if let Err(e) = validate_directory_variables(&self.variables, &self.directories) {
            return Err(e);
        }
        if let Err(e) = validate_network_variables(&self.variables, &self.network) {
            return Err(e);
        }
        if let Err(e) = validate_identity_variables(&self.variables, &self.app_id, self.profile) {
            return Err(e);
        }
        if let Err(e) = validate_locale_variables(&self.variables, &self.locale, &self.timezone) {
            return Err(e);
        }
        if let Err(e) = validate_font_variables(&self.variables, &self.fonts) {
            return Err(e);
        }
        if let Err(e) = validate_certificate_variables(&self.variables, &self.certificates) {
            return Err(e);
        }
        if let Err(e) = validate_path_list("resolved_libraries", &self.resolved_libraries) {
            return Err(e);
        }
        validate_policies(
            &self.locale,
            &self.timezone,
            &self.fonts,
            &self.certificates,
            &self.network,
        )
    }
}

fn validate_environment_variables(variables: &OrderedMap<String, String>) -> (r: Result<
    (),
    RuntimeValidationError,
>)
    ensures
        reports(r, variables_fault(value_texts(variables@))),
{
    let ghost all = value_texts(variables@);
    let ghost faulty = faulty_keys(all);
    let n: usize = variables.len();
    let ghost keys = variables.keys();
    let mut i: usize = 0;
    while i < n
        invariant
            i <= n,
            n == keys.len(),
            keys == variables.keys(),
            lists_keys(keys, variables@),
            all == value_texts(variables@),
            faulty == faulty_keys(all),
            forall|j: int| 0 <= j < i ==> !faulty.contains(#[trigger] keys[j]),
        decreases n - i,
    {
        let key = variables.key_at(i);
        let value = variables.value_at(i);
        assert(all[key@] == value@);
        if let Err(e) = validate_environment_pair(key.as_str(), value.as_str()) {
            proof {
                assert(faulty.contains(key@));
                assert forall|other: Seq<char>| #[trigger] faulty.contains(other) implies other
                    == key@ || text_less(key@, other) by {
                    assert(keys.contains(other));
                    let j = choose|j: int| 0 <= j < keys.len() && keys[j] == other;
                    assert(!(j < i));
                }
                assert(is_least(faulty, key@));
                lemma_least_is(faulty, key@);
            }
            return Err(e);
        }
        i = i + 1;
    }
    assert(least(faulty) is None) by {
        if least(faulty) is Some {
            let k = choose|k: Seq<char>| is_least(faulty, k);
            assert(keys.contains(k));
            let j = choose|j: int| 0 <= j < keys.len() && keys[j] == k;
            assert(!faulty.contains(keys[j]));
        }
    }
    Ok(())
}

fn validate_directory_variable(
    variables: &OrderedMap<String, String>,
    key: &'static str,
    expected: &FilePath,
) -> (r: Result<(), RuntimeValidationError>)
    ensures
        reports(r, directory_variable_fault(value_texts(variables@), key@, expected@)),
{
    match variables.get(key) {
        None => Err(RuntimeValidationError::MissingLaunchVariable(key)),
        Some(actual) => {
            let path = FilePath { text: actual.clone() };
            if path.same_as(expected) {
                Ok(())
            } else {
                Err(
                    RuntimeValidationError::MismatchedLaunchVariable(
                        key,
                        expected.clone(),
                        actual.clone(),
                    ),
                )
            }
        },
    }
}

fn validate_directory_variables(
    variables: &OrderedMap<String, String>,
    directories: &RuntimeDirectories,
) -> (r: Result<(), RuntimeValidationError>)
    ensures
        reports(r, directory_variables_fault(value_texts(variables@), *directories)),
{
    if let Err(e) = validate_directory_variable(variables, "HOME", &directories.home) {
        return Err(e);
    }
    if let Err(e) = validate_directory_variable(
        variables,
        "XDG_CONFIG_HOME",
        &directories.config_home,
    ) {
        return Err(e);
    }
    if let Err(e) = validate_directory_variable(
        variables,
        "XDG_DATA_HOME",
        &directories.data_home,
    ) {
        return Err(e);
    }
    if let Err(e) = validate_directory_variable(
        variables,
        "XDG_STATE_HOME",
        &directories.state_home,
    ) {
        return Err(e);
    }
    if let Err(e) = validate_directory_variable(
        variables,
        "XDG_CACHE_HOME",
        &directories.cache_home,
    ) {
        return Err(e);
    }
    validate_directory_variable(variables, "XDG_RUNTIME_DIR", &directories.runtime_dir)
}

fn validate_network_variables(
    variables: &OrderedMap<String, String>,
    network: &NetworkPolicy,
) -> (r: Result<(), RuntimeValidationError>)
    ensures
        reports(r, network_variables_fault(value_texts(variables@), *network)),
{
    if let Err(e) = validate_exact_variable(
        variables,
        "REMAGIC_NETWORK_POLICY_MODE",
        network.mode.as_str(),
    ) {
        return Err(e);
    }
    let allowed_hosts = joined_hosts(network);
    if let Err(e) = validate_exact_variable(
        variables,
        "REMAGIC_NETWORK_ALLOWED_HOSTS",
        allowed_hosts.as_str(),
    ) {
        return Err(e);
    }
    let enforcement = match required_variable(variables, "REMAGIC_NETWORK_POLICY_ENFORCEMENT") {
        Ok(value) => value,
        Err(e) => return Err(e),
    };
    let isolated = match required_variable(variables, "REMAGIC_NETWORK_ISOLATED") {
        Ok(value) => value,
        Err(e) => return Err(e),
    };
    proof {
        reveal_strlit("0");
        reveal_strlit("1");
        assert("0"@[0] != "1"@[0]);
    }
    let enforced = if text_eq(enforcement, "metadata_only") && text_eq(isolated, "0") {
        false
    } else if text_eq(enforcement, "enforced") && text_eq(isolated, "1") {
        true
    } else {
        return Err(policy_mismatch("REMAGIC_NETWORK_POLICY_ENFORCEMENT"));
    };
    if network.require_enforcement && !enforced {
        return Err(RuntimeValidationError::RequiredNetworkEnforcementUnavailable);
    }
    Ok(())
}

fn validate_identity_variables(
    variables: &OrderedMap<String, String>,
    app_id: &AppId,
    profile: RuntimeProfile,
) -> (r: Result<(), RuntimeValidationError>)
    ensures
        reports(r, identity_variables_fault(value_texts(variables@), app_id@, profile)),
{
    if let Err(e) = validate_exact_variable(variables, "REMAGIC_APP_ID", app_id.as_str()) {
        return Err(e);
    }
    if let Err(e) = validate_exact_variable(
        variables,
        "REMAGIC_RUNTIME_PROFILE",
        profile.as_str(),
    ) {
        return Err(e);
    }
    if let Err(e) = validate_platform_path(variables) {
        return Err(e);
    }
    if let Some(actual) = variables.get("QTFB_KEY") {
        let key: i32 = qtfb_key_for_app(app_id);
        let expected = decimal_text(key as u64);
        if profile != RuntimeProfile::QtfbCompat || !text_eq(actual.as_str(), expected.as_str()) {
            return Err(policy_mismatch("QTFB_KEY"));
        }
    }
    Ok(())
}

fn validate_platform_path(variables: &OrderedMap<String, String>) -> (r: Result<
    (),
    RuntimeValidationError,
>)
    ensures
        reports(r, search_path_fault(value_texts(variables@))),
{
    let path = match variables.get("PATH") {
        Some(value) => value,
        None => return Err(RuntimeValidationError::MissingLaunchVariable("PATH")),
    };
    let entries = split_on(path.as_str(), ':');
    let ghost pieces = split(path@, ':');
    let mut i: usize = 0;
    while i < entries.len()
        invariant
            i <= entries.len(),
            variables@.contains_key("PATH"@),
            path == variables@["PATH"@],
            pieces == split(path@, ':'),
            texts(entries@) == pieces,
            forall|j: int| 0 <= j < i ==> valid_path_entry(#[trigger] pieces[j]),
        decreases entries.len() - i,
    {
        assert(pieces[i as int] == entries@[i as int]@) by {
            assert(texts(entries@)[i as int] == entries@[i as int]@);
        }
        let entry = FilePath { text: entries[i].clone() };
        if !entry.is_safe_absolute() {
            assert(!valid_path_entry(pieces[i as int]));
            return Err(RuntimeValidationError::InvalidPolicyValue("PATH", path.clone()));
        }
        i = i + 1;
    }
    Ok(())
}

fn validate_locale_variables(
    variables: &OrderedMap<String, String>,
    locale: &LocalePolicy,
    timezone: &TimezonePolicy,
) -> (r: Result<(), RuntimeValidationError>)
    ensures
        reports(r, locale_variables_fault(value_texts(variables@), *locale, *timezone)),
{
    if let Err(e) = validate_exact_variable(variables, "LANG", locale.lang.as_str()) {
        return Err(e);
    }
    if let Err(e) = validate_exact_variable(variables, "TZ", timezone.name.as_str()) {
        return Err(e);
    }
    validate_optional_variable(variables, "LC_ALL", &locale.lc_all)
}

/// The text of a path that may be missing.
fn optional_path_text(path: &Option<FilePath>) -> (r: Option<String>)
    ensures
        match r {
            Some(text) => optional_text(*path) == Some(text@),
            None => optional_text(*path) is None,
        },
{
    match path {
        Some(path) => Some(path.text.clone()),
        None => None,
    }
}

fn validate_font_variables(variables: &OrderedMap<String, String>, fonts: &FontPolicy) -> (r:
    Result<(), RuntimeValidationError>)
    ensures
        reports(r, font_variables_fault(value_texts(variables@), *fonts)),
{
    let file = optional_path_text(&fonts.fontconfig_file);
    if let Err(e) = validate_optional_variable(variables, "FONTCONFIG_FILE", &file) {
        return Err(e);
    }
    let directories = if fonts.directories.len() == 0 {
        None
    } else {
        match encode_path_list(&fonts.directories) {
            Ok(list) => Some(list),
            Err(e) => return Err(e),
        }
    };
    if let Err(e) = validate_optional_variable(variables, "QT_QPA_FONTDIR", &directories) {
        return Err(e);
    }
    validate_optional_variable(variables, "REMAGIC_FONT_DIRECTORIES", &directories)
}

fn validate_certificate_variables(
    variables: &OrderedMap<String, String>,
    certificates: &CertificatePolicy,
) -> (r: Result<(), RuntimeValidationError>)
    ensures
        reports(r, certificate_variables_fault(value_texts(variables@), *certificates)),
{
    let bundle = optional_path_text(&certificates.ca_bundle);
    let directory = optional_path_text(&certificates.ca_directory);
    if let Err(e) = validate_optional_variable(variables, "SSL_CERT_FILE", &bundle) {
        return Err(e);
    }
    validate_optional_variable(variables, "SSL_CERT_DIR", &directory)
}

fn required_variable<'a>(
    variables: &'a OrderedMap<String, String>,
    key: &'static str,
) -> (r: Result<&'a str, RuntimeValidationError>)
    ensures
        match r {
            Ok(value) => value_texts(variables@).contains_key(key@) && value@ == value_texts(
                variables@,
            )[key@],
            Err(e) => required_variable_fault(value_texts(variables@), key@) == Some(e@),
        },
{
    match variables.get(key) {
        Some(value) => Ok(value.as_str()),
        None => Err(RuntimeValidationError::MissingLaunchVariable(key)),
    }
}

fn validate_exact_variable(
    variables: &OrderedMap<String, String>,
    key: &'static str,
    expected: &str,
) -> (r: Result<(), RuntimeValidationError>)
    ensures
        reports(r, exact_variable_fault(value_texts(variables@), key@, expected@)),
{
    match required_variable(variables, key) {
        Ok(value) => if text_eq(value, expected) {
            Ok(())
        } else {
            Err(policy_mismatch(key))
        },
        Err(e) => Err(e),
    }
}

fn validate_optional_variable(
    variables: &OrderedMap<String, String>,
    key: &'static str,
    expected: &Option<String>,
) -> (r: Result<(), RuntimeValidationError>)
    ensures
        reports(
            r,
            optional_variable_fault(
                value_texts(variables@),
                key@,
                match *expected {
                    Some(value) => Some(value@),
                    None => None,
                },
            ),
        ),
{
    let agrees = match (variables.get(key), expected) {
        (Some(actual), Some(value)) => text_eq(actual.as_str(), value.as_str()),
        (None, None) => true,
        _ => false,
    };
    if agrees {
        Ok(())
    } else {
        Err(policy_mismatch(key))
    }
}

fn policy_mismatch(key: &'static str) -> (r: RuntimeValidationError)
    ensures
        r@ == RuntimeFault::PolicyVariableMismatch(key@),
{
    RuntimeValidationError::PolicyVariableMismatch(key)
}

/// The variables that no process can be given are found: there is a complaint exactly where one
/// has a bad name or a zero character in its value.
pub proof fn bad_variables_are_found(keys: Seq<Seq<char>>, variables: Variables)
    requires
        lists_keys(keys, variables),
    ensures
        variables_fault(variables) is None <==> forall|k: Seq<char>| #[trigger]
            variables.contains_key(k) ==> {
                &&& 0 < k.len()
                &&& byte_len(k) <= 128
                &&& !is_digit(k[0])
                &&& all_admitted(CharClass::Variable, k)
                &&& !variables[k].contains('\0')
            },
{
    let faulty = faulty_keys(variables);
    listed_keys_have_a_first(keys, variables, faulty);
    if variables_fault(variables) is None {
        assert forall|k: Seq<char>| #[trigger] variables.contains_key(k) implies {
            &&& 0 < k.len()
            &&& byte_len(k) <= 128
            &&& !is_digit(k[0])
            &&& all_admitted(CharClass::Variable, k)
            &&& !variables[k].contains('\0')
        } by {
            assert(!faulty.contains(k));
        }
    } else {
        let k = least(faulty)->0;
        assert(faulty.contains(k));
        assert(variables.contains_key(k));
    }
}

/// The directories that an application is told are those it was given: each variable is there and
/// has the components of its directory.
pub proof fn directory_variables_match_the_directories(
    variables: Variables,
    directories: RuntimeDirectories,
)
    ensures
        directory_variables_fault(variables, directories) is None <==> {
            &&& variables.contains_key("HOME"@) && components(variables["HOME"@]) == components(
                directories.home@,
            )
            &&& variables.contains_key("XDG_CONFIG_HOME"@) && components(
                variables["XDG_CONFIG_HOME"@],
            ) == components(directories.config_home@)
            &&& variables.contains_key("XDG_DATA_HOME"@) && components(variables["XDG_DATA_HOME"@])
                == components(directories.data_home@)
            &&& variables.contains_key("XDG_STATE_HOME"@) && components(
                variables["XDG_STATE_HOME"@],
            ) == components(directories.state_home@)
            &&& variables.contains_key("XDG_CACHE_HOME"@) && components(
                variables["XDG_CACHE_HOME"@],
            ) == components(directories.cache_home@)
            &&& variables.contains_key("XDG_RUNTIME_DIR"@) && components(
                variables["XDG_RUNTIME_DIR"@],
            ) == components(directories.runtime_dir@)
        },
{
}

/// The variables about the network match its policy, and they claim isolation together with
/// enforcement or neither.
pub proof fn network_variables_match_the_policy(variables: Variables, network: NetworkPolicy)
    ensures
        network_variables_fault(variables, network) is None <==> {
            &&& variables.contains_key("REMAGIC_NETWORK_POLICY_MODE"@)
                && variables["REMAGIC_NETWORK_POLICY_MODE"@] == network.mode.name()
            &&& variables.contains_key("REMAGIC_NETWORK_ALLOWED_HOSTS"@)
                && variables["REMAGIC_NETWORK_ALLOWED_HOSTS"@] == join(
                network.allowed_hosts.list(),
                ","@,
            )
            &&& variables.contains_key("REMAGIC_NETWORK_POLICY_ENFORCEMENT"@)
            &&& variables.contains_key("REMAGIC_NETWORK_ISOLATED"@)
            &&& {
                ||| variables["REMAGIC_NETWORK_POLICY_ENFORCEMENT"@] == "enforced"@
                    && variables["REMAGIC_NETWORK_ISOLATED"@] == "1"@
                ||| !network.require_enforcement && variables["REMAGIC_NETWORK_POLICY_ENFORCEMENT"@]
                    == "metadata_only"@ && variables["REMAGIC_NETWORK_ISOLATED"@] == "0"@
            }
        },
{
    reveal_strlit("0");
    reveal_strlit("1");
    assert("0"@[0] != "1"@[0]);
}

/// The variables about the application are its own name and profile, a search path of safe
/// absolute entries, and a display key only where the profile has one, and then the right one.
pub proof fn identity_variables_match_the_application(
    variables: Variables,
    app_id: Seq<char>,
    profile: RuntimeProfile,
)
    ensures
        identity_variables_fault(variables, app_id, profile) is None <==> {
            &&& variables.contains_key("REMAGIC_APP_ID"@) && variables["REMAGIC_APP_ID"@] == app_id
            &&& variables.contains_key("REMAGIC_RUNTIME_PROFILE"@)
                && variables["REMAGIC_RUNTIME_PROFILE"@] == profile.name()
            &&& variables.contains_key("PATH"@)
            &&& forall|i: int|
                0 <= i < split(variables["PATH"@], ':').len() ==> {
                    let entry = #[trigger] split(variables["PATH"@], ':')[i];
                    entry.len() > 0 && entry[0] == '/' && !components(entry).contains(seq!['.', '.'])
                }
            &&& variables.contains_key("QTFB_KEY"@) ==> profile == RuntimeProfile::QtfbCompat
                && variables["QTFB_KEY"@] == decimal(qtfb_key(app_id) as nat)
        },
{
    let entries = split(variables["PATH"@], ':');
    if valid_search_path(variables["PATH"@]) {
        assert forall|i: int| 0 <= i < entries.len() implies {
            let entry = #[trigger] entries[i];
            entry.len() > 0 && entry[0] == '/' && !components(entry).contains(seq!['.', '.'])
        } by {
            assert(valid_path_entry(entries[i]));
        }
    } else {
        let i = choose|i: int| 0 <= i < entries.len() && !valid_path_entry(#[trigger] entries[i]);
        assert(entries[i].len() > 0 || entries[i].len() == 0);
    }
}

/// A variable has this value, or is missing where there is none.
pub open spec fn has(variables: Variables, key: Seq<char>, value: Option<Seq<char>>) -> bool {
    match value {
        Some(value) => variables.contains_key(key) && variables[key] == value,
        None => !variables.contains_key(key),
    }
}

/// The variables about the locale, the fonts and the certificates are those of the policies, and
/// what a policy leaves open is not set.
pub proof fn policy_variables_match_the_policies(
    variables: Variables,
    locale: LocalePolicy,
    timezone: TimezonePolicy,
    fonts: FontPolicy,
    certificates: CertificatePolicy,
)
    ensures
        locale_variables_fault(variables, locale, timezone) is None <==> {
            &&& has(variables, "LANG"@, Some(locale.lang@))
            &&& has(variables, "TZ"@, Some(timezone.name@))
            &&& locale.lc_all is Some ==> has(variables, "LC_ALL"@, Some(locale.lc_all->0@))
            &&& locale.lc_all is None ==> has(variables, "LC_ALL"@, None)
        },
        font_variables_fault(variables, fonts) is None ==> {
            &&& fonts.fontconfig_file is Some ==> has(
                variables,
                "FONTCONFIG_FILE"@,
                Some(fonts.fontconfig_file->0@),
            )
            &&& fonts.fontconfig_file is None ==> has(variables, "FONTCONFIG_FILE"@, None)
            &&& fonts.directories@.len() == 0 ==> has(variables, "QT_QPA_FONTDIR"@, None) && has(
                variables,
                "REMAGIC_FONT_DIRECTORIES"@,
                None,
            )
            &&& fonts.directories@.len() > 0 ==> has(
                variables,
                "QT_QPA_FONTDIR"@,
                Some(join(path_texts(fonts.directories@), seq![':'])),
            ) && has(
                variables,
                "REMAGIC_FONT_DIRECTORIES"@,
                Some(join(path_texts(fonts.directories@), seq![':'])),
            )
        },
        certificate_variables_fault(variables, certificates) is None <==> {
            &&& certificates.ca_bundle is Some ==> has(
                variables,
                "SSL_CERT_FILE"@,
                Some(certificates.ca_bundle->0@),
            )
            &&& certificates.ca_bundle is None ==> has(variables, "SSL_CERT_FILE"@, None)
            &&& certificates.ca_directory is Some ==> has(
                variables,
                "SSL_CERT_DIR"@,
                Some(certificates.ca_directory->0@),
            )
            &&& certificates.ca_directory is None ==> has(variables, "SSL_CERT_DIR"@, None)
        },
{
}

/// A launch environment is accepted exactly where all of that holds and its own policies and
/// libraries are sound.
pub proof fn sound_environments_are_accepted(environment: LaunchEnvironment)
    ensures
        environment.fault() is None <==> {
            let variables = environment.variables();
            &&& environment.directories.fault() is None
            &&& variables_fault(variables) is None
            &&& directory_variables_fault(variables, environment.directories) is None
            &&& network_variables_fault(variables, environment.network) is None
            &&& identity_variables_fault(variables, environment.app_id@, environment.profile) is None
            &&& locale_variables_fault(variables, environment.locale, environment.timezone) is None
            &&& font_variables_fault(variables, environment.fonts) is None
            &&& certificate_variables_fault(variables, environment.certificates) is None
            &&& path_list_fault(
                "resolved_libraries"@,
                path_texts(environment.resolved_libraries@),
            ) is None
            &&& separate_policies_fault(
                environment.locale,
                environment.timezone,
                environment.fonts,
                environment.certificates,
                environment.network,
            ) is None
        },
{
}

/// Only the platform sets the variables that the system or the platform itself reads: a name with
/// one of its two prefixes, and each of these names.
pub proof fn the_platforms_names_are_reserved(rest: Seq<char>)
    ensures
        reserved_variable("XDG_"@ + rest),
        reserved_variable("REMAGIC_"@ + rest),
        reserved_variable("PATH"@),
        reserved_variable("HOME"@),
        reserved_variable("LANG"@),
        reserved_variable("LC_ALL"@),
        reserved_variable("TZ"@),
        reserved_variable("LD_LIBRARY_PATH"@),
        reserved_variable("SSL_CERT_FILE"@),
        reserved_variable("SSL_CERT_DIR"@),
        reserved_variable("FONTCONFIG_FILE"@),
        reserved_variable("QT_QPA_PLATFORM"@),
        reserved_variable("QT_QPA_FONTDIR"@),
        reserved_variable("QTFB_KEY"@),
{
    assert("XDG_"@ =~= ("XDG_"@ + rest).subrange(0, "XDG_"@.len() as int));
    assert("REMAGIC_"@ =~= ("REMAGIC_"@ + rest).subrange(0, "REMAGIC_"@.len() as int));
}

} // verus!
