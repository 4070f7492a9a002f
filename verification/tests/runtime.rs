use remagic::ordered::{OrderedMap, TextSet};
use remagic::path::FilePath;
use remagic::runtime::NetworkEnforcement;
use remagic::{
    qtfb_key_for_app, AppId, BackgroundExecution, Capability, CertificatePolicy, FontPolicy,
    LaunchEnvironment, LocalePolicy, NetworkMode, NetworkPolicy, PreflightCheck, PreflightReport,
    PreflightStatus, RuntimeDirectories, RuntimeProfile, RuntimeRequirements,
    RuntimeValidationError, TimezonePolicy, REMAGIC_HOME_QTFB_KEY,
};

fn path(text: &str) -> FilePath {
    FilePath::new(text)
}

fn variables(pairs: &[(&str, &str)]) -> OrderedMap<String, String> {
    let mut map = OrderedMap::new();
    for (key, value) in pairs {
        map.insert(key.to_string(), value.to_string());
    }
    map
}

fn capabilities(names: &[&str]) -> TextSet<Capability> {
    let mut set = TextSet::new();
    for name in names {
        set.insert(Capability::new(name).unwrap());
    }
    set
}

fn hosts(names: &[&str]) -> TextSet<String> {
    let mut set = TextSet::new();
    for name in names {
        set.insert(name.to_string());
    }
    set
}


fn directories() -> RuntimeDirectories {
    RuntimeDirectories {
        home: path("/home/root"),
        config_home: path("/home/root/.config/test"),
        data_home: path("/home/root/.local/share/test"),
        state_home: path("/home/root/.local/state/test"),
        cache_home: path("/home/root/.cache/test"),
        runtime_dir: path("/run/user/0/remagic/test"),
    }
}

fn launch_environment() -> LaunchEnvironment {
    let directories = directories();
    let variables = variables(&[
        ("HOME", directories.home.as_str()),
        (
            "XDG_CONFIG_HOME",
            directories.config_home.as_str(),
        ),
        (
            "XDG_DATA_HOME",
            directories.data_home.as_str(),
        ),
        (
            "XDG_STATE_HOME",
            directories.state_home.as_str(),
        ),
        (
            "XDG_CACHE_HOME",
            directories.cache_home.as_str(),
        ),
        (
            "XDG_RUNTIME_DIR",
            directories.runtime_dir.as_str(),
        ),
        ("LANG", "zh_CN.UTF-8"),
        ("TZ", "Asia/Shanghai"),
        ("PATH", "/usr/bin:/bin"),
        ("REMAGIC_APP_ID", "test"),
        ("REMAGIC_RUNTIME_PROFILE", "native_v2"),
        ("REMAGIC_NETWORK_POLICY_MODE", "deny"),
        (
            "REMAGIC_NETWORK_POLICY_ENFORCEMENT",
            "metadata_only",
        ),
        ("REMAGIC_NETWORK_ISOLATED", "0"),
        ("REMAGIC_NETWORK_ALLOWED_HOSTS", ""),
    ]);
    LaunchEnvironment {
        app_id: AppId::new("test").unwrap(),
        profile: RuntimeProfile::NativeV2,
        directories,
        variables,
        resolved_libraries: vec![path("/usr/lib/libqsgepaper.so")],
        platform_capabilities: capabilities(&["display:surface-v2", "ink:direct-v1"]),
        locale: LocalePolicy {
            lang: "zh_CN.UTF-8".into(),
            lc_all: None,
        },
        timezone: TimezonePolicy {
            name: "Asia/Shanghai".into(),
        },
        fonts: FontPolicy::default(),
        certificates: CertificatePolicy::default(),
        network: NetworkPolicy::default(),
    }
}

#[test]
fn capability_syntax_boundaries_are_stable() {
    for valid in ["a", "display:qtfb-v1", "ink:direct-v1", "feature_2.test"] {
        assert!(Capability::new(valid).is_ok(), "{valid}");
    }
    for invalid in ["", "UPPER", ":leading", "trailing-", "white space", "a/b"] {
        assert!(Capability::new(invalid).is_err(), "{invalid}");
    }
    assert!(Capability::new(&"a".repeat(96)).is_ok());
    assert!(Capability::new(&"a".repeat(97)).is_err());
}

#[test]
fn qtfb_keys_are_stable_positive_and_do_not_use_home_reservation() {
    let vectors = [
        ("magicpaper", 1_599_673_631),
        ("koreader", 1_340_486_485),
        ("remagic-home", 1_132_954_932),
    ];
    for (name, expected) in vectors {
        let app_id = AppId::new(name).unwrap();
        let actual = qtfb_key_for_app(&app_id);
        assert_eq!(actual, expected, "stable vector for {name}");
        assert!(actual > 0);
        assert_ne!(actual, REMAGIC_HOME_QTFB_KEY);
    }
}

#[test]
fn launch_environment_requires_platform_owned_xdg_values() {
    let mut environment = launch_environment();
    assert!(environment.validate().is_ok());
    environment
        .variables
        .insert("XDG_DATA_HOME".into(), "/tmp/forged".into());
    assert!(matches!(
        environment.validate(),
        Err(RuntimeValidationError::MismatchedLaunchVariable(
            "XDG_DATA_HOME",
            _,
            _
        ))
    ));
}

#[test]
fn preflight_compatibility_is_derived_from_failures_and_missing_items() {
    let environment = launch_environment();
    let report = PreflightReport {
        app_id: environment.app_id.clone(),
        profile: environment.profile,
        compatible: true,
        checks: vec![PreflightCheck {
            id: "display-owner".into(),
            status: PreflightStatus::Passed,
            message: "available".into(),
        }],
        missing_capabilities: TextSet::new(),
        missing_libraries: Vec::new(),
        launch_environment: Some(environment),
    };
    assert!(report.validate().is_ok());

    let mut invalid = report.clone();
    invalid.missing_libraries.push("libmissing.so".into());
    assert_eq!(
        invalid.validate(),
        Err(RuntimeValidationError::IncoherentPreflight)
    );
}

#[test]
fn runtime_policy_rejects_escape_paths_and_network_policy_conflicts() {
    let mut requirements = RuntimeRequirements {
        directories: Some(directories()),
        ..RuntimeRequirements::default()
    };
    assert!(requirements.validate(true).is_ok());
    requirements.directories.as_mut().unwrap().cache_home = path("../cache");
    assert!(matches!(
        requirements.validate(true),
        Err(RuntimeValidationError::UnsafePath("cache_home", _))
    ));

    requirements.directories = Some(directories());
    requirements
        .network
        .allowed_hosts
        .insert("api.example.com".into());
    assert_eq!(
        requirements.validate(true),
        Err(RuntimeValidationError::HostsWithDeniedNetwork)
    );
}

#[test]
fn resolver_builds_complete_platform_environment_and_rejects_spoofing() {
    let requirements = RuntimeRequirements {
        profile: RuntimeProfile::QtfbCompat,
        required_libraries: vec!["libqsgepaper.so".into()],
        directories: Some(directories()),
        locale: LocalePolicy {
            lang: "zh_CN.UTF-8".into(),
            lc_all: Some("zh_CN.UTF-8".into()),
        },
        timezone: TimezonePolicy {
            name: "Asia/Shanghai".into(),
        },
        fonts: FontPolicy {
            directories: vec![path("/home/root/.local/share/fonts")],
            fontconfig_file: Some(path("/home/root/.config/fontconfig/fonts.conf")),
        },
        certificates: CertificatePolicy {
            required: true,
            ca_bundle: Some(path("/etc/ssl/certs/ca-certificates.crt")),
            ca_directory: None,
        },
        network: NetworkPolicy {
            mode: NetworkMode::HttpsOnly,
            allowed_hosts: hosts(&["api.example.com"]),
            require_enforcement: false,
        },
        background_execution: BackgroundExecution::Continue,
    };
    let app_id = AppId::new("koreader").unwrap();
    let environment = LaunchEnvironment::resolve(
        app_id.clone(),
        &requirements,
        &variables(&[("KOREADER_LANGUAGE", "zh_CN")]),
        vec![path("/usr/lib/libqsgepaper.so")],
        capabilities(&["display:qtfb-v1"]),
        "/usr/bin:/bin".to_string(),
        NetworkEnforcement::MetadataOnly,
    )
    .unwrap();
    assert_eq!(environment.variables.get("REMAGIC_APP_ID").unwrap().as_str(), "koreader");
    assert_eq!(
        environment.variables.get("QTFB_KEY").unwrap().as_str(),
        qtfb_key_for_app(&app_id).to_string().as_str()
    );
    assert_eq!(environment.variables.get("LD_LIBRARY_PATH").unwrap().as_str(), "/usr/lib");
    assert_eq!(
        environment.variables.get("SSL_CERT_FILE").unwrap().as_str(),
        "/etc/ssl/certs/ca-certificates.crt"
    );
    assert!(environment.validate().is_ok());

    let spoofed = LaunchEnvironment::resolve(
        app_id,
        &requirements,
        &variables(&[("HOME", "/tmp/fake")]),
        vec![path("/usr/lib/libqsgepaper.so")],
        TextSet::new(),
        "/usr/bin:/bin".to_string(),
        NetworkEnforcement::MetadataOnly,
    );
    assert_eq!(
        spoofed,
        Err(RuntimeValidationError::ReservedApplicationEnvironment(
            "HOME".into()
        ))
    );
}

#[test]
fn network_policy_never_claims_isolation_without_enforcement() {
    let mut requirements = RuntimeRequirements {
        directories: Some(directories()),
        ..RuntimeRequirements::default()
    };
    let environment = LaunchEnvironment::resolve(
        AppId::new("test").unwrap(),
        &requirements,
        &OrderedMap::new(),
        Vec::new(),
        TextSet::new(),
        "/usr/bin:/bin".to_string(),
        NetworkEnforcement::MetadataOnly,
    )
    .unwrap();
    assert_eq!(
        environment.variables.get("REMAGIC_NETWORK_POLICY_ENFORCEMENT").unwrap().as_str(),
        "metadata_only"
    );
    assert_eq!(environment.variables.get("REMAGIC_NETWORK_ISOLATED").unwrap().as_str(), "0");

    requirements.network.require_enforcement = true;
    assert_eq!(
        LaunchEnvironment::resolve(
            AppId::new("test").unwrap(),
            &requirements,
            &OrderedMap::new(),
            Vec::new(),
            TextSet::new(),
            "/usr/bin:/bin".to_string(),
            NetworkEnforcement::MetadataOnly,
        ),
        Err(RuntimeValidationError::RequiredNetworkEnforcementUnavailable)
    );
}
