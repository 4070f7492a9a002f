//! The environment in which an application is launched.
use vstd::prelude::*;
use crate::first::{either, first_some};
use crate::first::{lemma_first_at, lemma_first_none, no_first_finding_means_none};
use crate::manifest::AppId;
use crate::ordered::{OrderedMap, TextSet};
use crate::ordered::{
    is_least, least, lemma_least_is, listed_keys_have_a_first, lists_keys, value_texts,
};
use crate::path::FilePath;
use crate::path::{components, components_less, file_name, parent_of, path_texts};
use crate::path::{components_are_totally_ordered, parents_lack_the_last_component};
use crate::runtime::error::RuntimeFault;
use crate::runtime::policy::encode_path_list;
use crate::runtime::policy::path_list_unfit;
use crate::runtime::{
    qtfb_key_for_app, Capability, CertificatePolicy, FontPolicy, LocalePolicy, NetworkEnforcement,
    NetworkPolicy, RuntimeDirectories, RuntimeProfile, RuntimeRequirements, RuntimeValidationError,
    TimezonePolicy,
};
use crate::runtime::qtfb_key;
use crate::text::{decimal_text, join_texts, text_eq};
use crate::text::{decimal, join, split, splitting_undoes_joining, text_less, texts};

pub mod validation;

pub use validation::{is_platform_reserved_environment, validate_environment_pair};
use validation::{launch_fault, reserved_variable, valid_pair};

verus! {

/// Fully resolved, platform-owned process environment. Applications receive
/// this object when they start; they never get to override its reserved
/// variables.
#[derive(Clone, Debug, PartialEq, Eq)]
pub struct LaunchEnvironment {
    pub app_id: AppId,
    pub profile: RuntimeProfile,
    pub directories: RuntimeDirectories,
    pub variables: OrderedMap<String, String>,
    pub resolved_libraries: Vec<FilePath>,
    pub platform_capabilities: TextSet<Capability>,
    pub locale: LocalePolicy,
    pub timezone: TimezonePolicy,
    pub fonts: FontPolicy,
    pub certificates: CertificatePolicy,
    pub network: NetworkPolicy,
}

/// A set of environment variables.
pub type Variables = Map<Seq<char>, Seq<char>>;

/// Stores one variable.
fn put(variables: &mut OrderedMap<String, String>, key: &str, value: String)
    ensures
        value_texts(final(variables)@) == value_texts(old(variables)@).insert(key@, value@),
{
    variables.insert(key.to_owned(), value);
    assert(value_texts(variables@) =~= value_texts(old(variables)@).insert(key@, value@));
}

/// The fault of one variable that the application brings along.
pub open spec fn application_pair_fault(key: Seq<char>, value: Seq<char>) -> Option<RuntimeFault> {
    if !valid_pair(key, value) {
        Some(RuntimeFault::InvalidEnvironment(key))
    } else if reserved_variable(key) {
        Some(RuntimeFault::ReservedApplicationEnvironment(key))
    } else {
        None
    }
}

/// The variables of an application that have a fault.
pub open spec fn faulty_application_keys(variables: Variables) -> Set<Seq<char>> {
    Set::new(
        |k: Seq<char>|
            variables.contains_key(k) && application_pair_fault(k, variables[k]) is Some,
    )
}

/// The fault of the first variable of an application that has one.
pub open spec fn application_environment_fault(variables: Variables) -> Option<RuntimeFault> {
    match least(faulty_application_keys(variables)) {
        Some(key) => application_pair_fault(key, variables[key]),
        None => None,
    }
}

/// Checks the variables that an application brings along.
fn validate_application_environment(environment: &OrderedMap<String, String>) -> (r: Result<
    (),
    RuntimeValidationError,
>)
    ensures
        crate::runtime::error::reports(
            r,
            application_environment_fault(value_texts(environment@)),
        ),
        r is Ok ==> forall|k: Seq<char>| #[trigger]
            environment@.contains_key(k) ==> valid_pair(k, environment@[k]@)
                && !reserved_variable(k),
{
    let ghost variables = value_texts(environment@);
    let ghost faulty = faulty_application_keys(variables);
    let n: usize = environment.len();
    let ghost keys = environment.keys();
    let mut i: usize = 0;
    while i < n
        invariant
            i <= n,
            n == keys.len(),
            keys == environment.keys(),
            lists_keys(keys, environment@),
            variables == value_texts(environment@),
            faulty == faulty_application_keys(variables),
            forall|j: int| 0 <= j < i ==> !faulty.contains(#[trigger] keys[j]),
        decreases n - i,
    {
        let key = environment.key_at(i);
        let value = environment.value_at(i);
        assert(variables[key@] == value@);
        let pair = validate_environment_pair(key.as_str(), value.as_str());
        let reserved = is_platform_reserved_environment(key.as_str());
        if pair.is_err() || reserved {
            proof {
                assert(faulty.contains(key@));
                assert forall|other: Seq<char>| #[trigger] faulty.contains(other) implies other
                    == key@ || text_less(key@, other) by {
                    assert(keys.contains(other));
                    let j = choose|j: int| 0 <= j < keys.len() && keys[j] == other;
                    assert(!(j < i));
                }
                assert(is_least(faulty, key@));
                lemma_least_is(faulty, key@);
            }
            if let Err(e) = pair {
                return Err(e);
            }
            return Err(RuntimeValidationError::ReservedApplicationEnvironment(key.clone()));
        }
        i = i + 1;
    }
    assert(least(faulty) is None) by {
        if least(faulty) is Some {
            let k = choose|k: Seq<char>| is_least(faulty, k);
            assert(keys.contains(k));
            let j = choose|j: int| 0 <= j < keys.len() && keys[j] == k;
            assert(!faulty.contains(keys[j]));
        }
    }
    assert forall|k: Seq<char>| #[trigger] environment@.contains_key(k) implies valid_pair(
        k,
        environment@[k]@,
    ) && !reserved_variable(k) by {
        assert(keys.contains(k));
        let j = choose|j: int| 0 <= j < keys.len() && keys[j] == k;
        assert(!faulty.contains(keys[j]));
        assert(variables[k] == environment@[k]@);
    }
    Ok(())
}

/// Whether one of the resolved libraries is the required one.
pub open spec fn is_resolved(resolved: Seq<Seq<char>>, required: Seq<char>) -> bool {
    exists|i: int| 0 <= i < resolved.len() && file_name(#[trigger] resolved[i]) == Some(required)
}

/// The fault of the first required library that was not resolved.
pub open spec fn unresolved_fault(
    required: Seq<Seq<char>>,
    resolved: Seq<Seq<char>>,
) -> Option<RuntimeFault> {
    first_some(
        Seq::new(
            required.len(),
            |i: int|
                if is_resolved(resolved, required[i]) {
                    None
                } else {
                    Some(RuntimeFault::UnresolvedLibrary(required[i]))
                },
        ),
    )
}

/// Whether one of the resolved libraries is the required one.
fn library_is_resolved(resolved: &[FilePath], required: &str) -> (r: bool)
    ensures
        r == is_resolved(path_texts(resolved@), required@),
{
    let ghost list = path_texts(resolved@);
    let mut i: usize = 0;
    while i < resolved.len()
        invariant
            i <= resolved.len(),
            list == path_texts(resolved@),
            forall|j: int| 0 <= j < i ==> file_name(#[trigger] list[j]) != Some(required@),
        decreases resolved.len() - i,
    {
        assert(list[i as int] == resolved@[i as int]@);
        if let Some(name) = resolved[i].file_name() {
            if text_eq(name.as_str(), required) {
                assert(file_name(list[i as int]) == Some(required@));
                return true;
            }
        }
        i = i + 1;
    }
    false
}

fn validate_required_libraries(required: &[String], resolved: &[FilePath]) -> (r: Result<
    (),
    RuntimeValidationError,
>)
    ensures
        crate::runtime::error::reports(
            r,
            unresolved_fault(texts(required@), path_texts(resolved@)),
        ),
{
    let ghost list = texts(required@);
    let ghost found = path_texts(resolved@);
    let ghost faults = Seq::new(
        list.len(),
        |i: int|
            if is_resolved(found, list[i]) {
                None
            } else {
                Some(RuntimeFault::UnresolvedLibrary(list[i]))
            },
    );
    let mut i: usize = 0;
    while i < required.len()
        invariant
            i <= required.len(),
            list == texts(required@),
            found == path_texts(resolved@),
            faults == Seq::new(
                list.len(),
                |i: int|
                    if is_resolved(found, list[i]) {
                        None
                    } else {
                        Some(RuntimeFault::UnresolvedLibrary(list[i]))
                    },
            ),
            forall|j: int| 0 <= j < i ==> faults[j] is None,
        decreases required.len() - i,
    {
        assert(list[i as int] == required@[i as int]@);
        if !library_is_resolved(resolved, required[i].as_str()) {
            proof {
                lemma_first_at(faults, i as int);
            }
            return Err(RuntimeValidationError::UnresolvedLibrary(required[i].clone()));
        }
        i = i + 1;
    }
    proof {
        lemma_first_none(faults);
    }
    Ok(())
}

/// The variables that every application receives.
pub open spec fn with_base_variables(
    variables: Variables,
    app_id: Seq<char>,
    requirements: RuntimeRequirements,
    directories: RuntimeDirectories,
    platform_path: Seq<char>,
) -> Variables {
    variables.insert("HOME"@, directories.home@).insert(
        "XDG_CONFIG_HOME"@,
        directories.config_home@,
    ).insert("XDG_DATA_HOME"@, directories.data_home@).insert(
        "XDG_STATE_HOME"@,
        directories.state_home@,
    ).insert("XDG_CACHE_HOME"@, directories.cache_home@).insert(
        "XDG_RUNTIME_DIR"@,
        directories.runtime_dir@,
    ).insert("LANG"@, requirements.locale.lang@).insert("TZ"@, requirements.timezone.name@).insert(
        "PATH"@,
        platform_path,
    ).insert("REMAGIC_APP_ID"@, app_id).insert(
        "REMAGIC_RUNTIME_PROFILE"@,
        requirements.profile.name(),
    )
}

fn base_variables(
    app_id: &AppId,
    requirements: &RuntimeRequirements,
    directories: &RuntimeDirectories,
    application_environment: &OrderedMap<String, String>,
    platform_path: String,
) -> (variables: OrderedMap<String, String>)
    ensures
        value_texts(variables@) == with_base_variables(
            value_texts(application_environment@),
            app_id@,
            *requirements,
            *directories,
            platform_path@,
        ),
{
    let mut variables = application_environment.clone();
    assert(value_texts(variables@) =~= value_texts(application_environment@)) by {
        assert forall|k: Seq<char>| variables@.contains_key(k) implies variables@[k]
            == application_environment@[k] by {
            assert(application_environment@.contains_key(k));
        }
    }
    put(&mut variables, "HOME", directories.home.text.clone());
    put(&mut variables, "XDG_CONFIG_HOME", directories.config_home.text.clone());
    put(&mut variables, "XDG_DATA_HOME", directories.data_home.text.clone());
    put(&mut variables, "XDG_STATE_HOME", directories.state_home.text.clone());
    put(&mut variables, "XDG_CACHE_HOME", directories.cache_home.text.clone());
    put(&mut variables, "XDG_RUNTIME_DIR", directories.runtime_dir.text.clone());
    put(&mut variables, "LANG", requirements.locale.lang.clone());
    put(&mut variables, "TZ", requirements.timezone.name.clone());
    put(&mut variables, "PATH", platform_path);
    put(&mut variables, "REMAGIC_APP_ID", app_id.to_text());
    put(&mut variables, "REMAGIC_RUNTIME_PROFILE", requirements.profile.as_str().to_owned());
    variables
}

/// The variables that describe the network policy.
pub open spec fn with_network_variables(
    variables: Variables,
    network: NetworkPolicy,
    enforcement: NetworkEnforcement,
) -> Variables {
    variables.insert("REMAGIC_NETWORK_POLICY_MODE"@, network.mode.name()).insert(
        "REMAGIC_NETWORK_POLICY_ENFORCEMENT"@,
        enforcement.name(),
    ).insert(
        "REMAGIC_NETWORK_ISOLATED"@,
        if enforcement == NetworkEnforcement::Enforced {
            "1"@
        } else {
            "0"@
        },
    ).insert("REMAGIC_NETWORK_ALLOWED_HOSTS"@, join(network.allowed_hosts.list(), ","@))
}

/// The allowed hosts of a network policy with commas between them.
pub(crate) fn joined_hosts(network: &NetworkPolicy) -> (r: String)
    ensures
        r@ == join(network.allowed_hosts.list(), ","@),
{
    let ghost hosts = network.allowed_hosts.list();
    let mut list: Vec<String> = Vec::new();
    let n: usize = network.allowed_hosts.len();
    let mut i: usize = 0;
    while i < n
        invariant
            i <= n,
            n == hosts.len(),
            hosts == network.allowed_hosts.list(),
            list@.len() == i,
            forall|j: int| 0 <= j < i ==> (#[trigger] list@[j])@ == hosts[j],
        decreases n - i,
    {
        list.push(network.allowed_hosts.at(i).clone());
        i = i + 1;
    }
    assert(texts(list@) =~= hosts);
    join_texts(&list, ",")
}

fn insert_network_variables(
    variables: &mut OrderedMap<String, String>,
    network: &NetworkPolicy,
    enforcement: NetworkEnforcement,
) -> (r: Result<(), RuntimeValidationError>)
    ensures
        match r {
            Ok(_) => !(network.require_enforcement && enforcement != NetworkEnforcement::Enforced)
                && value_texts(final(variables)@) == with_network_variables(
                value_texts(old(variables)@),
                *network,
                enforcement,
            ),
            Err(e) => network.require_enforcement && enforcement != NetworkEnforcement::Enforced
                && e@ == RuntimeFault::RequiredNetworkEnforcementUnavailable,
        },
{
    if network.require_enforcement && !enforcement.is_enforced() {
        return Err(RuntimeValidationError::RequiredNetworkEnforcementUnavailable);
    }
    put(variables, "REMAGIC_NETWORK_POLICY_MODE", network.mode.as_str().to_owned());
    put(variables, "REMAGIC_NETWORK_POLICY_ENFORCEMENT", enforcement.as_str().to_owned());
    let isolated = if enforcement.is_enforced() {
        "1"
    } else {
        "0"
    };
    put(variables, "REMAGIC_NETWORK_ISOLATED", isolated.to_owned());
    put(variables, "REMAGIC_NETWORK_ALLOWED_HOSTS", joined_hosts(network));
    Ok(())
}

/// Stores a variable where there is a value for it.
pub open spec fn with_optional(
    variables: Variables,
    key: Seq<char>,
    value: Option<Seq<char>>,
) -> Variables {
    match value {
        Some(value) => variables.insert(key, value),
        None => variables,
    }
}

/// The text of a path that may be missing.
pub open spec fn optional_text(path: Option<FilePath>) -> Option<Seq<char>> {
    match path {
        Some(path) => Some(path@),
        None => None,
    }
}

/// The font directories as one value, where there are any.
pub open spec fn font_directories(fonts: FontPolicy) -> Option<Seq<char>> {
    if fonts.directories@.len() > 0 {
        Some(join(path_texts(fonts.directories@), seq![':']))
    } else {
        None
    }
}

/// The variables that only some policies bring.
pub open spec fn with_optional_variables(
    variables: Variables,
    requirements: RuntimeRequirements,
) -> Variables {
    let lc_all = match requirements.locale.lc_all {
        Some(value) => Some(value@),
        None => None,
    };
    let v1 = with_optional(variables, "LC_ALL"@, lc_all);
    let v2 = with_optional(
        v1,
        "FONTCONFIG_FILE"@,
        optional_text(requirements.fonts.fontconfig_file),
    );
    let v3 = with_optional(v2, "QT_QPA_FONTDIR"@, font_directories(requirements.fonts));
    let v4 = with_optional(v3, "REMAGIC_FONT_DIRECTORIES"@, font_directories(requirements.fonts));
    let v5 = with_optional(
        v4,
        "SSL_CERT_FILE"@,
        optional_text(requirements.certificates.ca_bundle),
    );
    with_optional(v5, "SSL_CERT_DIR"@, optional_text(requirements.certificates.ca_directory))
}

/// The fault of font directories that cannot share one variable.
pub open spec fn font_list_fault(fonts: FontPolicy) -> Option<RuntimeFault> {
    if fonts.directories@.len() > 0 && path_list_unfit(path_texts(fonts.directories@)) {
        Some(RuntimeFault::InvalidPathList("path segment contains separator `:`"@))
    } else {
        None
    }
}

fn insert_optional_policy_variables(
    variables: &mut OrderedMap<String, String>,
    requirements: &RuntimeRequirements,
) -> (r: Result<(), RuntimeValidationError>)
    ensures
        crate::runtime::error::reports(r, font_list_fault(requirements.fonts)),
        r is Ok ==> value_texts(final(variables)@) == with_optional_variables(
            value_texts(old(variables)@),
            *requirements,
        ),
{
    if let Some(lc_all) = &requirements.locale.lc_all {
        put(variables, "LC_ALL", lc_all.clone());
    }
    if let Some(file) = &requirements.fonts.fontconfig_file {
        put(variables, "FONTCONFIG_FILE", file.text.clone());
    }
    if requirements.fonts.directories.len() > 0 {
        match encode_path_list(&requirements.fonts.directories) {
            Ok(list) => {
                put(variables, "QT_QPA_FONTDIR", list.clone());
                put(variables, "REMAGIC_FONT_DIRECTORIES", list);
            },
            Err(e) => return Err(e),
        }
    }
    if let Some(bundle) = &requirements.certificates.ca_bundle {
        put(variables, "SSL_CERT_FILE", bundle.text.clone());
    }
    if let Some(directory) = &requirements.certificates.ca_directory {
        put(variables, "SSL_CERT_DIR", directory.text.clone());
    }
    Ok(())
}

/// A list of directories in the order of their components, with one more.
/// One with the same components takes the place of the earlier text.
pub open spec fn with_directory(list: Seq<Seq<char>>, directory: Seq<char>) -> Seq<Seq<char>>
    decreases list.len(),
{
    if list.len() == 0 {
        seq![directory]
    } else if components(directory) == components(list[0]) {
        seq![directory] + list.drop_first()
    } else if components_less(components(directory), components(list[0])) {
        seq![directory] + list
    } else {
        seq![list[0]] + with_directory(list.drop_first(), directory)
    }
}

/// The directories of the resolved libraries, each once, in order.
pub open spec fn library_directories(libraries: Seq<Seq<char>>) -> Seq<Seq<char>>
    decreases libraries.len(),
{
    if libraries.len() == 0 {
        Seq::empty()
    } else {
        let rest = library_directories(libraries.drop_last());
        match parent_of(libraries.last()) {
            Some(directory) => with_directory(rest, directory),
            None => rest,
        }
    }
}

/// Adds a directory to a list that is kept in order.
fn add_directory(list: &mut Vec<String>, directory: FilePath)
    ensures
        texts(final(list)@) == with_directory(texts(old(list)@), directory@),
{
    let ghost before = texts(list@);
    let mut i: usize = 0;
    assert(before.skip(0) =~= before);
    assert(before.take(0) + with_directory(before, directory@) =~= with_directory(
        before,
        directory@,
    ));
    while i < list.len()
        invariant
            i <= list.len(),
            before == texts(list@),
            before == texts(old(list)@),
            with_directory(before, directory@) == before.take(i as int) + with_directory(
                before.skip(i as int),
                directory@,
            ),
        decreases list.len() - i,
    {
        let ghost rest = before.skip(i as int);
        let other = FilePath { text: list[i].clone() };
        assert(rest[0] == other@) by {
            assert(before[i as int] == list@[i as int]@);
        }
        assert(rest.drop_first() =~= before.skip(i + 1));
        if directory.same_as(&other) {
            list.set(i, directory.text);
            assert(texts(list@) =~= before.take(i as int) + (seq![directory@]
                + rest.drop_first()));
            return ;
        }
        if directory.comes_before(&other) {
            list.insert(i, directory.text);
            assert(texts(list@) =~= before.take(i as int) + (seq![directory@] + rest));
            return ;
        }
        assert(before.take(i as int) + (seq![rest[0]] + with_directory(
            rest.drop_first(),
            directory@,
        )) =~= before.take(i + 1) + with_directory(before.skip(i + 1), directory@));
        i = i + 1;
    }
    assert(before.skip(i as int).len() == 0);
    list.push(directory.text);
    assert(texts(list@) =~= before.take(i as int) + seq![directory@]);
}

/// The variables that the loader reads.
pub open spec fn with_loader_variables(
    variables: Variables,
    app_id: Seq<char>,
    profile: RuntimeProfile,
    libraries: Seq<Seq<char>>,
) -> Variables {
    let v1 = with_optional(
        variables,
        "QTFB_KEY"@,
        if profile == RuntimeProfile::QtfbCompat {
            Some(decimal(qtfb_key(app_id) as nat))
        } else {
            None
        },
    );
    let directories = library_directories(libraries);
    with_optional(
        v1,
        "LD_LIBRARY_PATH"@,
        if directories.len() > 0 {
            Some(join(directories, ":"@))
        } else {
            None
        },
    )
}

fn insert_loader_variables(
    variables: &mut OrderedMap<String, String>,
    app_id: &AppId,
    profile: RuntimeProfile,
    libraries: &[FilePath],
)
    ensures
        value_texts(final(variables)@) == with_loader_variables(
            value_texts(old(variables)@),
            app_id@,
            profile,
            path_texts(libraries@),
        ),
{
    if profile == RuntimeProfile::QtfbCompat {
        let key: i32 = qtfb_key_for_app(app_id);
        put(variables, "QTFB_KEY", decimal_text(key as u64));
    }
    let ghost list = path_texts(libraries@);
    let mut directories: Vec<String> = Vec::new();
    let mut i: usize = 0;
    assert(list.take(0) =~= Seq::<Seq<char>>::empty());
    assert(texts(directories@) =~= Seq::<Seq<char>>::empty());
    while i < libraries.len()
        invariant
            i <= libraries.len(),
            list == path_texts(libraries@),
            texts(directories@) == library_directories(list.take(i as int)),
        decreases libraries.len() - i,
    {
        assert(list.take(i + 1).drop_last() =~= list.take(i as int));
        assert(list.take(i + 1).last() == libraries@[i as int]@);
        if let Some(directory) = libraries[i].parent() {
            add_directory(&mut directories, directory);
        }
        i = i + 1;
    }
    assert(list.take(i as int) =~= list);
    assert(texts(directories@).len() == directories@.len());
    if directories.len() > 0 {
        put(variables, "LD_LIBRARY_PATH", join_texts(&directories, ":"));
    }
}

/// All variables of a launch.
pub open spec fn launch_variables(
    app_id: Seq<char>,
    requirements: RuntimeRequirements,
    directories: RuntimeDirectories,
    application: Variables,
    libraries: Seq<Seq<char>>,
    platform_path: Seq<char>,
    enforcement: NetworkEnforcement,
) -> Variables {
    with_loader_variables(
        with_optional_variables(
            with_network_variables(
                with_base_variables(application, app_id, requirements, directories, platform_path),
                requirements.network,
                enforcement,
            ),
            requirements,
        ),
        app_id,
        requirements.profile,
        libraries,
    )
}

/// The first reason why an environment cannot be resolved.
pub open spec fn resolve_fault(
    app_id: Seq<char>,
    requirements: RuntimeRequirements,
    application: Variables,
    libraries: Seq<Seq<char>>,
    platform_path: Seq<char>,
    enforcement: NetworkEnforcement,
) -> Option<RuntimeFault> {
    either(
        requirements.fault(true),
        either(
            application_environment_fault(application),
            either(
                unresolved_fault(texts(requirements.required_libraries@), libraries),
                either(
                    if requirements.network.require_enforcement && enforcement
                        != NetworkEnforcement::Enforced {
                        Some(RuntimeFault::RequiredNetworkEnforcementUnavailable)
                    } else {
                        None
                    },
                    either(
                        font_list_fault(requirements.fonts),
                        launch_fault(
                            app_id,
                            requirements.profile,
                            requirements.directories->0,
                            launch_variables(
                                app_id,
                                requirements,
                                requirements.directories->0,
                                application,
                                libraries,
                                platform_path,
                                enforcement,
                            ),
                            libraries,
                            requirements.locale,
                            requirements.timezone,
                            requirements.fonts,
                            requirements.certificates,
                            requirements.network,
                        ),
                    ),
                ),
            ),
        ),
    )
}

impl LaunchEnvironment {
    /// The environment that the platform gives to an application.
    pub fn resolve(
        app_id: AppId,
        requirements: &RuntimeRequirements,
        application_environment: &OrderedMap<String, String>,
        resolved_libraries: Vec<FilePath>,
        platform_capabilities: TextSet<Capability>,
        platform_path: String,
        network_enforcement: NetworkEnforcement,
    ) -> (r: Result<LaunchEnvironment, RuntimeValidationError>)
        ensures
            match r {
                Ok(environment) => {
                    &&& resolve_fault(
                        app_id@,
                        *requirements,
                        value_texts(application_environment@),
                        path_texts(resolved_libraries@),
                        platform_path@,
                        network_enforcement,
                    ) is None
                    &&& environment.fault() is None
                    &&& forall|k: Seq<char>| #[trigger]
                        application_environment@.contains_key(k) ==> valid_pair(
                            k,
                            application_environment@[k]@,
                        ) && !reserved_variable(k)
                    &&& environment.app_id == app_id
                    &&& environment.profile == requirements.profile
                    &&& requirements.directories == Some(environment.directories)
                    &&& environment.variables() == launch_variables(
                        app_id@,
                        *requirements,
                        environment.directories,
                        value_texts(application_environment@),
                        path_texts(resolved_libraries@),
                        platform_path@,
                        network_enforcement,
                    )
                    &&& environment.resolved_libraries == resolved_libraries
                    &&& environment.platform_capabilities == platform_capabilities
                    &&& environment.locale == requirements.locale
                    &&& environment.timezone == requirements.timezone
                    &&& environment.fonts.directories@ == requirements.fonts.directories@
                    &&& environment.fonts.fontconfig_file == requirements.fonts.fontconfig_file
                    &&& environment.certificates == requirements.certificates
                    &&& environment.network.mode == requirements.network.mode
                    &&& environment.network.allowed_hosts@ == requirements.network.allowed_hosts@
                    &&& environment.network.allowed_hosts.list()
                        == requirements.network.allowed_hosts.list()
                    &&& environment.network.require_enforcement
                        == requirements.network.require_enforcement
                },
                Err(e) => resolve_fault(
                    app_id@,
                    *requirements,
                    value_texts(application_environment@),
                    path_texts(resolved_libraries@),
                    platform_path@,
                    network_enforcement,
                ) == Some(e@),
            },
    {
        if let Err(e) = requirements.validate(true) {
            return Err(e);
        }
        let directories = match &requirements.directories {
            Some(directories) => directories.clone(),
            None => return Err(RuntimeValidationError::MissingDirectories),
        };
        if let Err(e) = validate_application_environment(application_environment) {
            return Err(e);
        }
        if let Err(e) = validate_required_libraries(
            &requirements.required_libraries,
            &resolved_libraries,
        ) {
            return Err(e);
        }
        let mut variables = base_variables(
            &app_id,
            requirements,
            &directories,
            application_environment,
            platform_path,
        );
        if let Err(e) = insert_network_variables(
            &mut variables,
            &requirements.network,
            network_enforcement,
        ) {
            return Err(e);
        }
        if let Err(e) = insert_optional_policy_variables(&mut variables, requirements) {
            return Err(e);
        }
        insert_loader_variables(
            &mut variables,
            &app_id,
            requirements.profile,
            &resolved_libraries,
        );
        let environment = LaunchEnvironment {
            app_id,
            profile: requirements.profile,
            directories,
            variables,
            resolved_libraries,
            platform_capabilities,
            locale: requirements.locale.clone(),
            timezone: requirements.timezone.clone(),
            fonts: requirements.fonts.clone(),
            certificates: requirements.certificates.clone(),
            network: requirements.network.clone(),
        };
        match environment.validate() {
            Ok(_) => Ok(environment),
            Err(e) => Err(e),
        }
    }
}

/// The names that the platform sets are reserved for it.
proof fn lemma_platform_names_reserved()
    ensures
        reserved_variable("XDG_CONFIG_HOME"@),
        reserved_variable("XDG_DATA_HOME"@),
        reserved_variable("XDG_STATE_HOME"@),
        reserved_variable("XDG_CACHE_HOME"@),
        reserved_variable("XDG_RUNTIME_DIR"@),
        reserved_variable("REMAGIC_APP_ID"@),
        reserved_variable("REMAGIC_RUNTIME_PROFILE"@),
        reserved_variable("REMAGIC_NETWORK_POLICY_MODE"@),
        reserved_variable("REMAGIC_NETWORK_POLICY_ENFORCEMENT"@),
        reserved_variable("REMAGIC_NETWORK_ISOLATED"@),
        reserved_variable("REMAGIC_NETWORK_ALLOWED_HOSTS"@),
        reserved_variable("REMAGIC_FONT_DIRECTORIES"@),
{
    reveal_strlit("XDG_");
    reveal_strlit("REMAGIC_");
    reveal_strlit("XDG_CONFIG_HOME");
    reveal_strlit("XDG_DATA_HOME");
    reveal_strlit("XDG_STATE_HOME");
    reveal_strlit("XDG_CACHE_HOME");
    reveal_strlit("XDG_RUNTIME_DIR");
    reveal_strlit("REMAGIC_APP_ID");
    reveal_strlit("REMAGIC_RUNTIME_PROFILE");
    reveal_strlit("REMAGIC_NETWORK_POLICY_MODE");
    reveal_strlit("REMAGIC_NETWORK_POLICY_ENFORCEMENT");
    reveal_strlit("REMAGIC_NETWORK_ISOLATED");
    reveal_strlit("REMAGIC_NETWORK_ALLOWED_HOSTS");
    reveal_strlit("REMAGIC_FONT_DIRECTORIES");
    assert("XDG_"@ =~= "XDG_CONFIG_HOME"@.subrange(0, 4));
    assert("XDG_"@ =~= "XDG_DATA_HOME"@.subrange(0, 4));
    assert("XDG_"@ =~= "XDG_STATE_HOME"@.subrange(0, 4));
    assert("XDG_"@ =~= "XDG_CACHE_HOME"@.subrange(0, 4));
    assert("XDG_"@ =~= "XDG_RUNTIME_DIR"@.subrange(0, 4));
    assert("REMAGIC_"@ =~= "REMAGIC_APP_ID"@.subrange(0, 8));
    assert("REMAGIC_"@ =~= "REMAGIC_RUNTIME_PROFILE"@.subrange(0, 8));
    assert("REMAGIC_"@ =~= "REMAGIC_NETWORK_POLICY_MODE"@.subrange(0, 8));
    assert("REMAGIC_"@ =~= "REMAGIC_NETWORK_POLICY_ENFORCEMENT"@.subrange(0, 8));
    assert("REMAGIC_"@ =~= "REMAGIC_NETWORK_ISOLATED"@.subrange(0, 8));
    assert("REMAGIC_"@ =~= "REMAGIC_NETWORK_ALLOWED_HOSTS"@.subrange(0, 8));
    assert("REMAGIC_"@ =~= "REMAGIC_FONT_DIRECTORIES"@.subrange(0, 8));
}

/// Two sets of variables agree on one of them.
spec fn agree(a: Variables, b: Variables, key: Seq<char>) -> bool {
    &&& a.contains_key(key) == b.contains_key(key)
    &&& a.contains_key(key) ==> a[key] == b[key]
}

proof fn lemma_base_stage(
    a: Variables,
    b: Variables,
    key: Seq<char>,
    app_id: Seq<char>,
    requirements: RuntimeRequirements,
    directories: RuntimeDirectories,
    platform_path: Seq<char>,
)
    requires
        agree(a, b, key),
    ensures
        agree(
            with_base_variables(a, app_id, requirements, directories, platform_path),
            with_base_variables(b, app_id, requirements, directories, platform_path),
            key,
        ),
        !reserved_variable(key) ==> agree(
            with_base_variables(a, app_id, requirements, directories, platform_path),
            a,
            key,
        ),
{
    assert(!reserved_variable(key) ==> key != "XDG_CONFIG_HOME"@ && key != "XDG_DATA_HOME"@ && key
        != "XDG_STATE_HOME"@ && key != "XDG_CACHE_HOME"@ && key != "XDG_RUNTIME_DIR"@ && key
        != "REMAGIC_APP_ID"@ && key != "REMAGIC_RUNTIME_PROFILE"@) by {
        lemma_platform_names_reserved();
    }
}

proof fn lemma_network_stage(
    a: Variables,
    b: Variables,
    key: Seq<char>,
    network: NetworkPolicy,
    enforcement: NetworkEnforcement,
)
    requires
        agree(a, b, key),
    ensures
        agree(
            with_network_variables(a, network, enforcement),
            with_network_variables(b, network, enforcement),
            key,
        ),
        !reserved_variable(key) ==> agree(
            with_network_variables(a, network, enforcement),
            a,
            key,
        ),
{
    assert(!reserved_variable(key) ==> key != "REMAGIC_NETWORK_POLICY_MODE"@ && key
        != "REMAGIC_NETWORK_POLICY_ENFORCEMENT"@ && key != "REMAGIC_NETWORK_ISOLATED"@ && key
        != "REMAGIC_NETWORK_ALLOWED_HOSTS"@) by {
        lemma_platform_names_reserved();
    }
}

proof fn lemma_optional_stage(
    a: Variables,
    b: Variables,
    key: Seq<char>,
    requirements: RuntimeRequirements,
)
    requires
        agree(a, b, key),
    ensures
        agree(
            with_optional_variables(a, requirements),
            with_optional_variables(b, requirements),
            key,
        ),
        !reserved_variable(key) ==> agree(with_optional_variables(a, requirements), a, key),
{
    assert(!reserved_variable(key) ==> key != "REMAGIC_FONT_DIRECTORIES"@) by {
        lemma_platform_names_reserved();
    }
}

proof fn lemma_loader_stage(
    a: Variables,
    b: Variables,
    key: Seq<char>,
    app_id: Seq<char>,
    profile: RuntimeProfile,
    libraries: Seq<Seq<char>>,
)
    requires
        agree(a, b, key),
    ensures
        agree(
            with_loader_variables(a, app_id, profile, libraries),
            with_loader_variables(b, app_id, profile, libraries),
            key,
        ),
        !reserved_variable(key) ==> agree(
            with_loader_variables(a, app_id, profile, libraries),
            a,
            key,
        ),
{
}

proof fn lemma_stages(
    a: Variables,
    b: Variables,
    key: Seq<char>,
    app_id: Seq<char>,
    requirements: RuntimeRequirements,
    directories: RuntimeDirectories,
    libraries: Seq<Seq<char>>,
    platform_path: Seq<char>,
    enforcement: NetworkEnforcement,
)
    requires
        agree(a, b, key),
    ensures
        agree(
            launch_variables(
                app_id,
                requirements,
                directories,
                a,
                libraries,
                platform_path,
                enforcement,
            ),
            launch_variables(
                app_id,
                requirements,
                directories,
                b,
                libraries,
                platform_path,
                enforcement,
            ),
            key,
        ),
        !reserved_variable(key) ==> agree(
            launch_variables(
                app_id,
                requirements,
                directories,
                a,
                libraries,
                platform_path,
                enforcement,
            ),
            a,
            key,
        ),
{
    let a1 = with_base_variables(a, app_id, requirements, directories, platform_path);
    let b1 = with_base_variables(b, app_id, requirements, directories, platform_path);
    lemma_base_stage(a, b, key, app_id, requirements, directories, platform_path);
    let a2 = with_network_variables(a1, requirements.network, enforcement);
    let b2 = with_network_variables(b1, requirements.network, enforcement);
    lemma_network_stage(a1, b1, key, requirements.network, enforcement);
    let a3 = with_optional_variables(a2, requirements);
    let b3 = with_optional_variables(b2, requirements);
    lemma_optional_stage(a2, b2, key, requirements);
    lemma_loader_stage(a3, b3, key, app_id, requirements.profile, libraries);
}

/// Applications keep the variables they bring along, and every other variable
/// of a launch is one that is reserved for the platform.
pub proof fn other_variables_are_the_applications_own(
    app_id: Seq<char>,
    requirements: RuntimeRequirements,
    directories: RuntimeDirectories,
    application: Variables,
    libraries: Seq<Seq<char>>,
    platform_path: Seq<char>,
    enforcement: NetworkEnforcement,
    key: Seq<char>,
)
    requires
        !reserved_variable(key),
    ensures
        ({
            let variables = launch_variables(
                app_id,
                requirements,
                directories,
                application,
                libraries,
                platform_path,
                enforcement,
            );
            &&& variables.contains_key(key) == application.contains_key(key)
            &&& application.contains_key(key) ==> variables[key] == application[key]
        }),
{
    lemma_stages(
        application,
        application,
        key,
        app_id,
        requirements,
        directories,
        libraries,
        platform_path,
        enforcement,
    );
}

/// Whatever variables the application brings along, the platform's own have
/// the platform's values.
pub proof fn platform_values_do_not_depend_on_the_application(
    app_id: Seq<char>,
    requirements: RuntimeRequirements,
    directories: RuntimeDirectories,
    application: Variables,
    libraries: Seq<Seq<char>>,
    platform_path: Seq<char>,
    enforcement: NetworkEnforcement,
    key: Seq<char>,
)
    requires
        reserved_variable(key),
        forall|k: Seq<char>| #[trigger] application.contains_key(k) ==> !reserved_variable(k),
    ensures
        ({
            let with = launch_variables(
                app_id,
                requirements,
                directories,
                application,
                libraries,
                platform_path,
                enforcement,
            );
            let without = launch_variables(
                app_id,
                requirements,
                directories,
                Map::empty(),
                libraries,
                platform_path,
                enforcement,
            );
            &&& with.contains_key(key) == without.contains_key(key)
            &&& with.contains_key(key) ==> with[key] == without[key]
        }),
{
    assert(!application.contains_key(key));
    lemma_stages(
        application,
        Map::empty(),
        key,
        app_id,
        requirements,
        directories,
        libraries,
        platform_path,
        enforcement,
    );
}

/// A launch claims network isolation only where the platform enforces it.
pub proof fn isolation_is_claimed_only_with_enforcement(
    app_id: Seq<char>,
    requirements: RuntimeRequirements,
    directories: RuntimeDirectories,
    application: Variables,
    libraries: Seq<Seq<char>>,
    platform_path: Seq<char>,
    enforcement: NetworkEnforcement,
)
    ensures
        ({
            let variables = launch_variables(
                app_id,
                requirements,
                directories,
                application,
                libraries,
                platform_path,
                enforcement,
            );
            &&& variables.contains_key("REMAGIC_NETWORK_ISOLATED"@)
            &&& variables["REMAGIC_NETWORK_ISOLATED"@] == "1"@ <==> enforcement
                == NetworkEnforcement::Enforced
            &&& variables["REMAGIC_NETWORK_POLICY_ENFORCEMENT"@] == enforcement.name()
        }),
{
    reveal_strlit("REMAGIC_NETWORK_ISOLATED");
    reveal_strlit("REMAGIC_NETWORK_POLICY_ENFORCEMENT");
    reveal_strlit("REMAGIC_NETWORK_ALLOWED_HOSTS");
    reveal_strlit("REMAGIC_FONT_DIRECTORIES");
    reveal_strlit("LC_ALL");
    reveal_strlit("FONTCONFIG_FILE");
    reveal_strlit("QT_QPA_FONTDIR");
    reveal_strlit("SSL_CERT_FILE");
    reveal_strlit("SSL_CERT_DIR");
    reveal_strlit("QTFB_KEY");
    reveal_strlit("LD_LIBRARY_PATH");
    reveal_strlit("0");
    reveal_strlit("1");
    assert("0"@[0] != "1"@[0]);
    assert("REMAGIC_NETWORK_ISOLATED"@.len() == 24);
    assert("REMAGIC_FONT_DIRECTORIES"@.len() == 24);
    assert("REMAGIC_NETWORK_ISOLATED"@[8] != "REMAGIC_FONT_DIRECTORIES"@[8]);
    assert("REMAGIC_NETWORK_POLICY_ENFORCEMENT"@.len() == 34);
    assert("REMAGIC_NETWORK_ALLOWED_HOSTS"@.len() == 29);
}

/// An environment that passes the checks claims network isolation only
/// together with enforcement, and has enforcement where its policy requires it.
pub proof fn valid_environments_never_overstate_isolation(environment: LaunchEnvironment)
    requires
        environment.fault() is None,
    ensures
        environment.variables()["REMAGIC_NETWORK_ISOLATED"@] == "1"@
            ==> environment.variables()["REMAGIC_NETWORK_POLICY_ENFORCEMENT"@] == "enforced"@,
        environment.network.require_enforcement
            ==> environment.variables()["REMAGIC_NETWORK_ISOLATED"@] == "1"@,
{
    reveal_strlit("0");
    reveal_strlit("1");
    assert("0"@[0] != "1"@[0]);
}

/// Directories in the order of their components, no two with the same ones.
pub open spec fn in_component_order(list: Seq<Seq<char>>) -> bool {
    forall|i: int, j: int|
        0 <= i < j < list.len() ==> #[trigger] components_less(
            components(list[i]),
            components(list[j]),
        )
}

/// One more directory keeps the order, takes the place of one with the same components, and
/// leaves the others where they are.
proof fn lemma_with_directory(list: Seq<Seq<char>>, directory: Seq<char>)
    requires
        in_component_order(list),
    ensures
        in_component_order(with_directory(list, directory)),
        with_directory(list, directory).contains(directory),
        forall|d: Seq<char>| #[trigger]
            with_directory(list, directory).contains(d) ==> d == directory || (list.contains(d)
                && components(d) != components(directory)),
        forall|d: Seq<char>| #[trigger]
            list.contains(d) && components(d) != components(directory) ==> with_directory(
                list,
                directory,
            ).contains(d),
    decreases list.len(),
{
    let result = with_directory(list, directory);
    let own = components(directory);
    if list.len() == 0 {
        assert(result[0] == directory);
    } else {
        let rest = list.drop_first();
        let head = components(list[0]);
        components_are_totally_ordered(own, head, head);
        components_are_totally_ordered(head, own, own);
        assert forall|i: int, j: int| 0 <= i < j < rest.len() implies #[trigger] components_less(
            components(rest[i]),
            components(rest[j]),
        ) by {
            assert(components_less(components(list[i + 1]), components(list[j + 1])));
        }
        assert forall|d: Seq<char>| #[trigger] rest.contains(d) implies list.contains(d)
            && components_less(head, components(d)) by {
            let k = choose|k: int| 0 <= k < rest.len() && rest[k] == d;
            assert(list[k + 1] == d);
            assert(components_less(components(list[0]), components(list[k + 1])));
        }
        assert forall|d: Seq<char>| #[trigger] list.contains(d) implies d == list[0]
            || rest.contains(d) by {
            let k = choose|k: int| 0 <= k < list.len() && list[k] == d;
            if k > 0 {
                assert(rest[k - 1] == d);
            }
        }
        if own == head || components_less(own, head) {
            let tail = if own == head {
                rest
            } else {
                list
            };
            assert(result == seq![directory] + tail);
            assert(result[0] == directory);
            assert forall|d: Seq<char>| #[trigger] tail.contains(d) implies components_less(
                own,
                components(d),
            ) by {
                components_are_totally_ordered(own, head, components(d));
            }
            assert forall|i: int, j: int|
                0 <= i < j < result.len() implies #[trigger] components_less(
                components(result[i]),
                components(result[j]),
            ) by {
                assert(result[j] == tail[j - 1]);
                if i > 0 {
                    assert(result[i] == tail[i - 1]);
                    assert(components_less(components(tail[i - 1]), components(tail[j - 1])));
                } else {
                    assert(tail.contains(tail[j - 1]));
                }
            }
            assert forall|d: Seq<char>| #[trigger] result.contains(d) implies d == directory || (
            list.contains(d) && components(d) != own) by {
                let k = choose|k: int| 0 <= k < result.len() && result[k] == d;
                if k > 0 {
                    assert(tail[k - 1] == d);
                    assert(tail.contains(d));
                    components_are_totally_ordered(own, own, own);
                }
            }
            assert forall|d: Seq<char>| #[trigger] list.contains(d) && components(d)
                != own implies result.contains(d) by {
                assert(tail.contains(d));
                let k = choose|k: int| 0 <= k < tail.len() && tail[k] == d;
                assert(result[k + 1] == d);
            }
        } else {
            lemma_with_directory(rest, directory);
            let tail = with_directory(rest, directory);
            assert(result == seq![list[0]] + tail);
            assert(result[0] == list[0]);
            let k = choose|k: int| 0 <= k < tail.len() && tail[k] == directory;
            assert(result[k + 1] == directory);
            assert forall|i: int, j: int|
                0 <= i < j < result.len() implies #[trigger] components_less(
                components(result[i]),
                components(result[j]),
            ) by {
                assert(result[j] == tail[j - 1]);
                if i > 0 {
                    assert(result[i] == tail[i - 1]);
                    assert(components_less(components(tail[i - 1]), components(tail[j - 1])));
                } else {
                    assert(tail.contains(tail[j - 1]));
                }
            }
            assert forall|d: Seq<char>| #[trigger] result.contains(d) implies d == directory || (
            list.contains(d) && components(d) != own) by {
                let k = choose|k: int| 0 <= k < result.len() && result[k] == d;
                if k > 0 {
                    assert(tail[k - 1] == d);
                    assert(tail.contains(d));
                    assert(rest.contains(d) || d == directory);
                }
            }
            assert forall|d: Seq<char>| #[trigger] list.contains(d) && components(d)
                != own implies result.contains(d) by {
                if d != list[0] {
                    assert(rest.contains(d));
                    assert(tail.contains(d));
                    let k = choose|k: int| 0 <= k < tail.len() && tail[k] == d;
                    assert(result[k + 1] == d);
                }
            }
        }
    }
}

/// The last of the libraries that lie in a directory with these components.
pub open spec fn last_in_directory(libraries: Seq<Seq<char>>, i: int) -> bool {
    &&& 0 <= i < libraries.len()
    &&& parent_of(libraries[i]) is Some
    &&& forall|k: int|
        i < k < libraries.len() && parent_of(#[trigger] libraries[k]) is Some ==> components(
            parent_of(libraries[k])->0,
        ) != components(parent_of(libraries[i])->0)
}

/// The directories of libraries are in order; each is that of a library, the last one where
/// several lie there; and each library that has a directory finds it in the list.
proof fn lemma_library_directories(libraries: Seq<Seq<char>>)
    ensures
        in_component_order(library_directories(libraries)),
        forall|i: int|
            0 <= i < libraries.len() && parent_of(#[trigger] libraries[i]) is Some ==> exists|j: int|
                0 <= j < library_directories(libraries).len() && components(
                    #[trigger] library_directories(libraries)[j],
                ) == components(parent_of(libraries[i])->0),
        forall|d: Seq<char>| #[trigger]
            library_directories(libraries).contains(d) ==> exists|i: int| #[trigger]
                last_in_directory(libraries, i) && parent_of(libraries[i]) == Some(d),
    decreases libraries.len(),
{
    if libraries.len() > 0 {
        let before = libraries.drop_last();
        let n = libraries.len() - 1;
        let earlier = library_directories(before);
        let list = library_directories(libraries);
        lemma_library_directories(before);
        if let Some(directory) = parent_of(libraries.last()) {
            lemma_with_directory(earlier, directory);
            assert forall|i: int|
                0 <= i < libraries.len() && parent_of(
                    #[trigger] libraries[i],
                ) is Some implies exists|j: int|
                0 <= j < list.len() && components(#[trigger] list[j]) == components(
                    parent_of(libraries[i])->0,
                ) by {
                let own = components(parent_of(libraries[i])->0);
                if own == components(directory) {
                    let j = choose|j: int| 0 <= j < list.len() && list[j] == directory;
                    assert(components(list[j]) == own);
                } else {
                    assert(before[i] == libraries[i]);
                    let k = choose|k: int|
                        0 <= k < earlier.len() && components(#[trigger] earlier[k]) == own;
                    assert(earlier.contains(earlier[k]));
                    assert(list.contains(earlier[k]));
                    let j = choose|j: int| 0 <= j < list.len() && list[j] == earlier[k];
                    assert(components(list[j]) == own);
                }
            }
            assert forall|d: Seq<char>| #[trigger] list.contains(d) implies exists|i: int|
                #[trigger] last_in_directory(libraries, i) && parent_of(libraries[i]) == Some(
                d,
            ) by {
                if d == directory {
                    assert(last_in_directory(libraries, n));
                } else {
                    assert(earlier.contains(d));
                    let i = choose|i: int| #[trigger]
                        last_in_directory(before, i) && parent_of(before[i]) == Some(d);
                    assert(libraries[i] == before[i]);
                    assert forall|k: int|
                        i < k < libraries.len() && parent_of(
                            #[trigger] libraries[k],
                        ) is Some implies components(parent_of(libraries[k])->0) != components(
                        d,
                    ) by {
                        if k < n {
                            assert(before[k] == libraries[k]);
                        }
                    }
                    assert(last_in_directory(libraries, i));
                }
            }
        } else {
            assert(list == earlier);
            assert forall|i: int|
                0 <= i < libraries.len() && parent_of(
                    #[trigger] libraries[i],
                ) is Some implies exists|j: int|
                0 <= j < list.len() && components(#[trigger] list[j]) == components(
                    parent_of(libraries[i])->0,
                ) by {
                assert(before[i] == libraries[i]);
            }
            assert forall|d: Seq<char>| #[trigger] list.contains(d) implies exists|i: int|
                #[trigger] last_in_directory(libraries, i) && parent_of(libraries[i]) == Some(
                d,
            ) by {
                let i = choose|i: int| #[trigger]
                    last_in_directory(before, i) && parent_of(before[i]) == Some(d);
                assert(libraries[i] == before[i]);
                assert forall|k: int|
                    i < k < libraries.len() && parent_of(
                        #[trigger] libraries[k],
                    ) is Some implies components(parent_of(libraries[k])->0) != components(d) by {
                    assert(before[k] == libraries[k]);
                }
                assert(last_in_directory(libraries, i));
            }
        }
    }
}

/// The library path names the directory of every resolved library: each library with a directory
/// above it finds an entry with the components of its own path but for the last. There is no
/// other entry, no directory stands there twice, and the entries are in the order of their
/// components. Without such a library there is no library path. Where no library's path holds a
/// colon, the entries are what stands between the colons of the value.
pub proof fn the_library_path_names_every_library_directory(
    app_id: Seq<char>,
    requirements: RuntimeRequirements,
    directories: RuntimeDirectories,
    application: Variables,
    libraries: Seq<Seq<char>>,
    platform_path: Seq<char>,
    enforcement: NetworkEnforcement,
) -> (entries: Seq<Seq<char>>)
    requires
        !application.contains_key("LD_LIBRARY_PATH"@),
    ensures
        ({
            let variables = launch_variables(
                app_id,
                requirements,
                directories,
                application,
                libraries,
                platform_path,
                enforcement,
            );
            let key = "LD_LIBRARY_PATH"@;
            &&& variables.contains_key(key) <==> exists|i: int|
                0 <= i < libraries.len() && components(#[trigger] libraries[i]).len() > 0
                    && components(libraries[i]).last() != seq!['/']
            &&& variables.contains_key(key) ==> variables[key] == join(entries, ":"@)
            &&& forall|i: int|
                0 <= i < libraries.len() && components(#[trigger] libraries[i]).len() > 0
                    && components(libraries[i]).last() != seq!['/'] ==> exists|j: int|
                    0 <= j < entries.len() && components(#[trigger] entries[j]) == components(
                        libraries[i],
                    ).drop_last()
            &&& forall|j: int|
                0 <= j < entries.len() ==> exists|i: int|
                    0 <= i < libraries.len() && parent_of(#[trigger] libraries[i]) == Some(
                        #[trigger] entries[j],
                    ) && components(libraries[i]).drop_last() == components(entries[j]) && forall|
                        k: int,
                    |
                        i < k < libraries.len() && parent_of(#[trigger] libraries[k]) is Some
                            ==> components(libraries[k]).drop_last() != components(entries[j])
            &&& forall|i: int, j: int|
                0 <= i < j < entries.len() ==> #[trigger] components_less(
                    components(entries[i]),
                    components(entries[j]),
                ) && components(entries[i]) != components(entries[j])
            &&& variables.contains_key(key) && (forall|i: int|
                0 <= i < libraries.len() ==> !(#[trigger] libraries[i]).contains(':'))
                ==> entries == split(variables[key], ':')
        }),
{
    let entries = library_directories(libraries);
    lemma_library_directories(libraries);
    let before = with_optional_variables(
        with_network_variables(
            with_base_variables(application, app_id, requirements, directories, platform_path),
            requirements.network,
            enforcement,
        ),
        requirements,
    );
    let key = "LD_LIBRARY_PATH"@;
    lemma_loader_names(before, application, app_id, requirements, directories, platform_path, enforcement);
    assert forall|i: int| 0 <= i < libraries.len() implies (parent_of(#[trigger] libraries[i]) is Some
        <==> components(libraries[i]).len() > 0 && components(libraries[i]).last() != seq!['/'])
        && (parent_of(libraries[i]) is Some ==> components(parent_of(libraries[i])->0)
        == components(libraries[i]).drop_last()) by {
        parents_lack_the_last_component(libraries[i]);
    }
    assert forall|j: int| 0 <= j < entries.len() implies exists|i: int|
        0 <= i < libraries.len() && parent_of(#[trigger] libraries[i]) == Some(
            #[trigger] entries[j],
        ) && components(libraries[i]).drop_last() == components(entries[j]) && forall|k: int|
            i < k < libraries.len() && parent_of(#[trigger] libraries[k]) is Some ==> components(
                libraries[k],
            ).drop_last() != components(entries[j]) by {
        assert(entries.contains(entries[j]));
        let i = choose|i: int| #[trigger]
            last_in_directory(libraries, i) && parent_of(libraries[i]) == Some(entries[j]);
        assert(parent_of(libraries[i]) == Some(entries[j]));
    }
    assert forall|i: int, j: int| 0 <= i < j < entries.len() implies #[trigger] components_less(
        components(entries[i]),
        components(entries[j]),
    ) && components(entries[i]) != components(entries[j]) by {
        components_are_totally_ordered(
            components(entries[i]),
            components(entries[j]),
            components(entries[j]),
        );
    }
    if entries.len() > 0 {
        assert(exists|i: int| 0 <= i < libraries.len() && parent_of(#[trigger] libraries[i]) == Some(
            entries[0],
        ));
    }
    if entries.len() > 0 && (forall|i: int|
        0 <= i < libraries.len() ==> !(#[trigger] libraries[i]).contains(':')) {
        reveal_strlit(":");
        assert(":"@ =~= seq![':']);
        assert forall|j: int| 0 <= j < entries.len() implies !(#[trigger] entries[j]).contains(
            ':',
        ) by {
            let i = choose|i: int|
                0 <= i < libraries.len() && parent_of(#[trigger] libraries[i]) == Some(entries[j]);
            parents_lack_the_last_component(libraries[i]);
            if entries[j].contains(':') {
                let k = choose|k: int| 0 <= k < entries[j].len() && entries[j][k] == ':';
                assert(libraries[i][k] == ':');
            }
        }
        splitting_undoes_joining(entries, ':');
    }
    entries
}

/// Only the loader's own variables name the library path.
proof fn lemma_loader_names(
    before: Variables,
    application: Variables,
    app_id: Seq<char>,
    requirements: RuntimeRequirements,
    directories: RuntimeDirectories,
    platform_path: Seq<char>,
    enforcement: NetworkEnforcement,
)
    requires
        before == with_optional_variables(
            with_network_variables(
                with_base_variables(application, app_id, requirements, directories, platform_path),
                requirements.network,
                enforcement,
            ),
            requirements,
        ),
    ensures
        before.contains_key("LD_LIBRARY_PATH"@) == application.contains_key("LD_LIBRARY_PATH"@),
        "LD_LIBRARY_PATH"@ != "QTFB_KEY"@,
{
    reveal_strlit("LD_LIBRARY_PATH");
    reveal_strlit("HOME");
    reveal_strlit("XDG_CONFIG_HOME");
    reveal_strlit("XDG_DATA_HOME");
    reveal_strlit("XDG_STATE_HOME");
    reveal_strlit("XDG_CACHE_HOME");
    reveal_strlit("XDG_RUNTIME_DIR");
    reveal_strlit("LANG");
    reveal_strlit("TZ");
    reveal_strlit("PATH");
    reveal_strlit("REMAGIC_APP_ID");
    reveal_strlit("REMAGIC_RUNTIME_PROFILE");
    reveal_strlit("REMAGIC_NETWORK_POLICY_MODE");
    reveal_strlit("REMAGIC_NETWORK_POLICY_ENFORCEMENT");
    reveal_strlit("REMAGIC_NETWORK_ISOLATED");
    reveal_strlit("REMAGIC_NETWORK_ALLOWED_HOSTS");
    reveal_strlit("LC_ALL");
    reveal_strlit("FONTCONFIG_FILE");
    reveal_strlit("QT_QPA_FONTDIR");
    reveal_strlit("REMAGIC_FONT_DIRECTORIES");
    reveal_strlit("SSL_CERT_FILE");
    reveal_strlit("SSL_CERT_DIR");
    reveal_strlit("QTFB_KEY");
    let key = "LD_LIBRARY_PATH"@;
    assert(key.len() == 15 && key[0] == 'L' && key[1] == 'D');
    assert("XDG_CONFIG_HOME"@[0] == 'X');
    assert("XDG_RUNTIME_DIR"@[0] == 'X');
    assert("FONTCONFIG_FILE"@[0] == 'F');
}

/// A number by which the names of a launch's variables are told apart.
#[verifier::opaque]
spec fn mark(name: Seq<char>) -> int {
    name.len() * 1_000_000 + name[0] as int * 1_000 + if name.len() > 8 {
        name[4] as int + name[8] as int
    } else {
        0
    }
}

/// The names of a launch's variables differ from each other.
proof fn lemma_names_differ()
    ensures
        mark("TZ"@) < mark("HOME"@),
        mark("HOME"@) < mark("LANG"@),
        mark("LANG"@) < mark("PATH"@),
        mark("PATH"@) < mark("LC_ALL"@),
        mark("LC_ALL"@) < mark("QTFB_KEY"@),
        mark("QTFB_KEY"@) < mark("SSL_CERT_DIR"@),
        mark("SSL_CERT_DIR"@) < mark("SSL_CERT_FILE"@),
        mark("SSL_CERT_FILE"@) < mark("XDG_DATA_HOME"@),
        mark("XDG_DATA_HOME"@) < mark("QT_QPA_FONTDIR"@),
        mark("QT_QPA_FONTDIR"@) < mark("REMAGIC_APP_ID"@),
        mark("REMAGIC_APP_ID"@) < mark("XDG_CACHE_HOME"@),
        mark("XDG_CACHE_HOME"@) < mark("XDG_STATE_HOME"@),
        mark("XDG_STATE_HOME"@) < mark("FONTCONFIG_FILE"@),
        mark("FONTCONFIG_FILE"@) < mark("LD_LIBRARY_PATH"@),
        mark("LD_LIBRARY_PATH"@) < mark("XDG_CONFIG_HOME"@),
        mark("XDG_CONFIG_HOME"@) < mark("XDG_RUNTIME_DIR"@),
        mark("XDG_RUNTIME_DIR"@) < mark("REMAGIC_RUNTIME_PROFILE"@),
        mark("REMAGIC_RUNTIME_PROFILE"@) < mark("REMAGIC_FONT_DIRECTORIES"@),
        mark("REMAGIC_FONT_DIRECTORIES"@) < mark("REMAGIC_NETWORK_ISOLATED"@),
        mark("REMAGIC_NETWORK_ISOLATED"@) < mark("REMAGIC_NETWORK_POLICY_MODE"@),
        mark("REMAGIC_NETWORK_POLICY_MODE"@) < mark("REMAGIC_NETWORK_ALLOWED_HOSTS"@),
        mark("REMAGIC_NETWORK_ALLOWED_HOSTS"@) < mark("REMAGIC_NETWORK_POLICY_ENFORCEMENT"@),
{
    reveal(mark);
    reveal_strlit("TZ");
    reveal_strlit("HOME");
    reveal_strlit("LANG");
    reveal_strlit("PATH");
    reveal_strlit("LC_ALL");
    reveal_strlit("QTFB_KEY");
    reveal_strlit("SSL_CERT_DIR");
    reveal_strlit("SSL_CERT_FILE");
    reveal_strlit("XDG_DATA_HOME");
    reveal_strlit("QT_QPA_FONTDIR");
    reveal_strlit("REMAGIC_APP_ID");
    reveal_strlit("XDG_CACHE_HOME");
    reveal_strlit("XDG_STATE_HOME");
    reveal_strlit("FONTCONFIG_FILE");
    reveal_strlit("LD_LIBRARY_PATH");
    reveal_strlit("XDG_CONFIG_HOME");
    reveal_strlit("XDG_RUNTIME_DIR");
    reveal_strlit("REMAGIC_RUNTIME_PROFILE");
    reveal_strlit("REMAGIC_FONT_DIRECTORIES");
    reveal_strlit("REMAGIC_NETWORK_ISOLATED");
    reveal_strlit("REMAGIC_NETWORK_POLICY_MODE");
    reveal_strlit("REMAGIC_NETWORK_ALLOWED_HOSTS");
    reveal_strlit("REMAGIC_NETWORK_POLICY_ENFORCEMENT");
}

/// An application finds its own directories, its name and what the platform decided in the
/// variables of its launch; what a policy leaves open sets no variable.
#[verifier::rlimit(50)]
pub proof fn launch_variables_say_what_was_decided(
    app_id: Seq<char>,
    requirements: RuntimeRequirements,
    directories: RuntimeDirectories,
    application: Variables,
    libraries: Seq<Seq<char>>,
    platform_path: Seq<char>,
    enforcement: NetworkEnforcement,
)
    requires
        forall|k: Seq<char>| #[trigger] application.contains_key(k) ==> !reserved_variable(k),
    ensures
        ({
            let variables = launch_variables(
                app_id,
                requirements,
                directories,
                application,
                libraries,
                platform_path,
                enforcement,
            );
            &&& variables.contains_key("HOME"@) && variables["HOME"@] == directories.home@
            &&& variables.contains_key("XDG_CONFIG_HOME"@) && variables["XDG_CONFIG_HOME"@]
                == directories.config_home@
            &&& variables.contains_key("XDG_DATA_HOME"@) && variables["XDG_DATA_HOME"@]
                == directories.data_home@
            &&& variables.contains_key("XDG_STATE_HOME"@) && variables["XDG_STATE_HOME"@]
                == directories.state_home@
            &&& variables.contains_key("XDG_CACHE_HOME"@) && variables["XDG_CACHE_HOME"@]
                == directories.cache_home@
            &&& variables.contains_key("XDG_RUNTIME_DIR"@) && variables["XDG_RUNTIME_DIR"@]
                == directories.runtime_dir@
            &&& variables.contains_key("LANG"@) && variables["LANG"@] == requirements.locale.lang@
            &&& variables.contains_key("TZ"@) && variables["TZ"@] == requirements.timezone.name@
            &&& variables.contains_key("PATH"@) && variables["PATH"@] == platform_path
            &&& variables.contains_key("REMAGIC_APP_ID"@) && variables["REMAGIC_APP_ID"@] == app_id
            &&& variables.contains_key("REMAGIC_RUNTIME_PROFILE"@)
                && variables["REMAGIC_RUNTIME_PROFILE"@] == requirements.profile.name()
            &&& variables.contains_key("REMAGIC_NETWORK_POLICY_MODE"@)
                && variables["REMAGIC_NETWORK_POLICY_MODE"@] == requirements.network.mode.name()
            &&& variables.contains_key("REMAGIC_NETWORK_ALLOWED_HOSTS"@)
                && variables["REMAGIC_NETWORK_ALLOWED_HOSTS"@] == join(
                requirements.network.allowed_hosts.list(),
                ","@,
            )
            &&& variables.contains_key("LC_ALL"@) <==> requirements.locale.lc_all is Some
            &&& requirements.locale.lc_all is Some ==> variables["LC_ALL"@]
                == requirements.locale.lc_all->0@
            &&& variables.contains_key("FONTCONFIG_FILE"@)
                <==> requirements.fonts.fontconfig_file is Some
            &&& requirements.fonts.fontconfig_file is Some ==> variables["FONTCONFIG_FILE"@]
                == requirements.fonts.fontconfig_file->0@
            &&& variables.contains_key("QT_QPA_FONTDIR"@) <==> requirements.fonts.directories@.len()
                > 0
            &&& variables.contains_key("REMAGIC_FONT_DIRECTORIES"@)
                <==> requirements.fonts.directories@.len() > 0
            &&& requirements.fonts.directories@.len() > 0 ==> variables["QT_QPA_FONTDIR"@] == join(
                path_texts(requirements.fonts.directories@),
                seq![':'],
            ) && variables["REMAGIC_FONT_DIRECTORIES"@] == variables["QT_QPA_FONTDIR"@]
            &&& variables.contains_key("SSL_CERT_FILE"@)
                <==> requirements.certificates.ca_bundle is Some
            &&& requirements.certificates.ca_bundle is Some ==> variables["SSL_CERT_FILE"@]
                == requirements.certificates.ca_bundle->0@
            &&& variables.contains_key("SSL_CERT_DIR"@)
                <==> requirements.certificates.ca_directory is Some
            &&& requirements.certificates.ca_directory is Some ==> variables["SSL_CERT_DIR"@]
                == requirements.certificates.ca_directory->0@
            &&& variables.contains_key("QTFB_KEY"@) <==> requirements.profile
                == RuntimeProfile::QtfbCompat
            &&& requirements.profile == RuntimeProfile::QtfbCompat ==> variables["QTFB_KEY"@]
                == decimal(qtfb_key(app_id) as nat)
        }),
{
    lemma_platform_names_reserved();
    lemma_names_differ();
    assert(!application.contains_key("LC_ALL"@));
    assert(!application.contains_key("FONTCONFIG_FILE"@));
    assert(!application.contains_key("QT_QPA_FONTDIR"@));
    assert(!application.contains_key("REMAGIC_FONT_DIRECTORIES"@));
    assert(!application.contains_key("SSL_CERT_FILE"@));
    assert(!application.contains_key("SSL_CERT_DIR"@));
    assert(!application.contains_key("QTFB_KEY"@));
}

/// An environment is resolved exactly where the requirements are sound, the application brings no
/// variable that is bad or the platform's own, every required library was found under its file
/// name, the network can be enforced where that is required, the font directories can share one
/// variable, and what comes out passes the checks.
pub proof fn sound_requests_are_resolved(
    app_id: Seq<char>,
    requirements: RuntimeRequirements,
    keys: Seq<Seq<char>>,
    application: Variables,
    libraries: Seq<Seq<char>>,
    platform_path: Seq<char>,
    enforcement: NetworkEnforcement,
)
    requires
        lists_keys(keys, application),
    ensures
        resolve_fault(
            app_id,
            requirements,
            application,
            libraries,
            platform_path,
            enforcement,
        ) is None <==> {
            let required = texts(requirements.required_libraries@);
            &&& requirements.fault(true) is None
            &&& forall|k: Seq<char>| #[trigger]
                application.contains_key(k) ==> valid_pair(k, application[k]) && !reserved_variable(
                    k,
                )
            &&& forall|i: int|
                0 <= i < required.len() ==> exists|j: int|
                    0 <= j < libraries.len() && file_name(#[trigger] libraries[j]) == Some(
                        #[trigger] required[i],
                    )
            &&& requirements.network.require_enforcement ==> enforcement
                == NetworkEnforcement::Enforced
            &&& forall|i: int|
                0 <= i < requirements.fonts.directories@.len()
                    ==> !(#[trigger] requirements.fonts.directories@[i])@.contains(':')
            &&& launch_fault(
                app_id,
                requirements.profile,
                requirements.directories->0,
                launch_variables(
                    app_id,
                    requirements,
                    requirements.directories->0,
                    application,
                    libraries,
                    platform_path,
                    enforcement,
                ),
                libraries,
                requirements.locale,
                requirements.timezone,
                requirements.fonts,
                requirements.certificates,
                requirements.network,
            ) is None
        },
{
    lemma_application_variables(keys, application);
    lemma_required_found(texts(requirements.required_libraries@), libraries);
    let paths = path_texts(requirements.fonts.directories@);
    assert(font_list_fault(requirements.fonts) is None <==> forall|i: int|
        0 <= i < requirements.fonts.directories@.len()
            ==> !(#[trigger] requirements.fonts.directories@[i])@.contains(':')) by {
        assert(paths.len() == requirements.fonts.directories@.len());
        if path_list_unfit(paths) {
            let i = choose|i: int| 0 <= i < paths.len() && (#[trigger] paths[i]).contains(':');
            assert(requirements.fonts.directories@[i]@ == paths[i]);
        } else {
            assert forall|i: int|
                0 <= i < requirements.fonts.directories@.len() implies !(
            #[trigger] requirements.fonts.directories@[i])@.contains(':') by {
                assert(paths[i] == requirements.fonts.directories@[i]@);
            }
        }
    }
}

proof fn lemma_application_variables(keys: Seq<Seq<char>>, application: Variables)
    requires
        lists_keys(keys, application),
    ensures
        application_environment_fault(application) is None <==> forall|k: Seq<char>| #[trigger]
            application.contains_key(k) ==> valid_pair(k, application[k]) && !reserved_variable(k),
{
    let faulty = faulty_application_keys(application);
    listed_keys_have_a_first(keys, application, faulty);
    if application_environment_fault(application) is None {
        assert forall|k: Seq<char>| #[trigger] application.contains_key(k) implies valid_pair(
            k,
            application[k],
        ) && !reserved_variable(k) by {
            if least(faulty) is Some {
                assert(faulty.contains(least(faulty)->0));
            }
            assert(!faulty.contains(k));
        }
    } else {
        let k = least(faulty)->0;
        assert(faulty.contains(k));
        assert(application.contains_key(k));
    }
}

proof fn lemma_required_found(required: Seq<Seq<char>>, libraries: Seq<Seq<char>>)
    ensures
        unresolved_fault(required, libraries) is None <==> forall|i: int|
            0 <= i < required.len() ==> exists|j: int|
                0 <= j < libraries.len() && file_name(#[trigger] libraries[j]) == Some(
                    #[trigger] required[i],
                ),
{
    let faults = Seq::new(
        required.len(),
        |i: int|
            if is_resolved(libraries, required[i]) {
                None
            } else {
                Some(RuntimeFault::UnresolvedLibrary(required[i]))
            },
    );
    no_first_finding_means_none(faults);
    if unresolved_fault(required, libraries) is None {
        assert forall|i: int| 0 <= i < required.len() implies exists|j: int|
            0 <= j < libraries.len() && file_name(#[trigger] libraries[j]) == Some(
                #[trigger] required[i],
            ) by {
            assert(faults[i] is None);
        }
    } else {
        let i = choose|i: int| 0 <= i < faults.len() && !((#[trigger] faults[i]) is None);
        assert(!is_resolved(libraries, required[i]));
    }
}

} // verus!
