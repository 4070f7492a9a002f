use remagic::manifest::error::ManifestError;
use remagic::manifest::store::StoredManifest;
use remagic::ordered::{OrderedMap, TextSet};
use remagic::path::FilePath;
use remagic::{
    AppId, AppKind, AppManifest, BackgroundExecution, BackgroundRestartPolicy, BackgroundService,
    Capability, CertificatePolicy, DataSchema, FontPolicy, LocalePolicy, ManifestStore,
    NetworkMode, NetworkPolicy, ParkStrategy, ReadinessMode, ReadinessPolicy, RuntimeDirectories,
    RuntimeProfile, RuntimeRequirements, ShutdownPolicy, TimezonePolicy, UninstallPolicy,
    MANIFEST_SCHEMA_V1, MANIFEST_SCHEMA_V2, MAX_SHUTDOWN_KILL_TIMEOUT_MS,
};

fn path(text: &str) -> FilePath {
    FilePath::new(text)
}

fn variables(pairs: &[(&str, &str)]) -> OrderedMap<String, String> {
    let mut map = OrderedMap::new();
    for (key, value) in pairs {
        map.insert(key.to_string(), value.to_string());
    }
    map
}


fn legacy_manifest(environment: OrderedMap<String, String>) -> AppManifest {
    AppManifest {
        schema: MANIFEST_SCHEMA_V1,
        id: AppId::new("test").unwrap(),
        name: "Test".into(),
        kind: AppKind::User,
        description: String::new(),
        version: String::new(),
        icon: None,
        package: None,
        supported_devices: Vec::new(),
        supported_os: Vec::new(),
        required_remagic_api: 1,
        uninstall_policy: UninstallPolicy::KeepData,
        executable: path("/bin/true"),
        args: vec![],
        working_dir: path("/tmp"),
        display: "none".into(),
        park_strategy: ParkStrategy::Restart,
        resident: false,
        capabilities: Vec::new(),
        readiness: ReadinessPolicy::default(),
        shutdown: ShutdownPolicy::default(),
        background_service: None,
        data_schema: None,
        runtime: RuntimeRequirements::default(),
        background_unit: None,
        supports_open_path: false,
        allowed_open_roots: vec![],
        environment,
    }
}

#[test]
fn app_ids_are_strict() {
    assert!(AppId::new("magicpaper").is_ok());
    assert!(AppId::new("ko-reader2").is_ok());
    assert!(AppId::new("KOReader").is_err());
    assert!(AppId::new("../reader").is_err());
    assert!(AppId::new("-reader").is_err());
}

#[test]
fn reserved_environment_is_rejected() {
    let mut env = OrderedMap::new();
    env.insert("REMAGIC_SOCKET".into(), "/tmp/fake".into());
    let app = legacy_manifest(env);
    assert!(matches!(
        app.validate(),
        Err(ManifestError::UnsafeEnvironment(_))
    ));
}

#[test]
fn qtfb_display_backend_is_accepted() {
    let mut app = legacy_manifest(OrderedMap::new());
    app.executable = path("/usr/bin/test");
    app.display = "qtfb".into();

    assert!(app.validate().is_ok());
    assert_eq!(app.runtime_profile(), RuntimeProfile::QtfbCompat);
}

#[test]
fn current_schema_v1_manifest_remains_readable() {
    let manifest = AppManifest {
        id: AppId::new("magicpaper").unwrap(),
        name: "MagicPaper".into(),
        executable: path("/home/root/apps/remagic/libexec/magicpaper-qtfb"),
        working_dir: path("/home/root/apps/riddle"),
        display: "qtfb".into(),
        park_strategy: ParkStrategy::Restart,
        background_unit: Some("magicpaper-agent.service".into()),
        ..legacy_manifest(variables(&[
            ("REMAGIC_RUNTIME_SOCKET", "/run/remagic/runtime-app.sock"),
            ("LD_LIBRARY_PATH", "/home/root/apps/riddle:/usr/lib"),
        ]))
    };
    assert!(manifest.validate().is_ok());
    assert_eq!(manifest.schema, MANIFEST_SCHEMA_V1);
    assert_eq!(manifest.runtime_profile(), RuntimeProfile::QtfbCompat);
    assert!(matches!(
        manifest.effective_background_service(),
        Some(BackgroundService::Systemd { unit }) if unit == "magicpaper-agent.service"
    ));
}

fn directories_of(name: &str) -> RuntimeDirectories {
    RuntimeDirectories {
        home: path("/home/root"),
        config_home: path(&format!("/home/root/.config/{name}")),
        data_home: path(&format!("/home/root/.local/share/{name}")),
        state_home: path(&format!("/home/root/.local/state/{name}")),
        cache_home: path(&format!("/home/root/.cache/{name}")),
        runtime_dir: path(&format!("/run/user/0/remagic/{name}")),
    }
}

fn capabilities(names: &[&str]) -> Vec<Capability> {
    names.iter().map(|n| Capability::new(n).unwrap()).collect()
}

#[test]
fn schema_v2_manifest_round_trips_with_full_runtime_contract() {
    let mut allowed_hosts = TextSet::new();
    allowed_hosts.insert("api.example.com".to_string());
    let manifest = AppManifest {
        schema: MANIFEST_SCHEMA_V2,
        id: AppId::new("koreader").unwrap(),
        name: "KOReader".into(),
        version: "2026.03".into(),
        executable: path("/opt/remagic/apps/koreader/current/bin/koreader-for-remagic"),
        working_dir: path("/opt/remagic/apps/koreader/current"),
        display: "qtfb".into(),
        resident: true,
        capabilities: capabilities(&["display:qtfb-v1", "input:touch-v1", "network:outbound-v1"]),
        supports_open_path: true,
        allowed_open_roots: vec![path("/home/root/books")],
        readiness: ReadinessPolicy {
            mode: ReadinessMode::FirstFrame,
            timeout_ms: 20_000,
            path: None,
        },
        shutdown: ShutdownPolicy {
            graceful_timeout_ms: 3_500,
            term_timeout_ms: 4_500,
            kill_timeout_ms: 5_500,
        },
        background_service: Some(BackgroundService::Managed {
            executable: path("/opt/remagic/apps/koreader/current/bin/indexer"),
            args: vec!["--background".into()],
            working_dir: path("/opt/remagic/apps/koreader/current"),
            restart: BackgroundRestartPolicy::OnFailure,
        }),
        data_schema: Some(DataSchema {
            version: 3,
            migrator: Some(path("/opt/remagic/apps/koreader/current/bin/migrate")),
            backup_paths: vec![path("/home/root/.local/share/koreader")],
            backup_timeout_ms: 120_000,
            migration_timeout_ms: 120_000,
        }),
        runtime: RuntimeRequirements {
            profile: RuntimeProfile::QtfbCompat,
            required_libraries: vec!["libQt6Core.so.6".into(), "libqsgepaper.so".into()],
            directories: Some(directories_of("koreader")),
            locale: LocalePolicy {
                lang: "zh_CN.UTF-8".into(),
                lc_all: None,
            },
            timezone: TimezonePolicy {
                name: "Asia/Shanghai".into(),
            },
            fonts: FontPolicy {
                directories: vec![path("/home/root/.local/share/fonts")],
                fontconfig_file: None,
            },
            certificates: CertificatePolicy {
                required: true,
                ca_bundle: Some(path("/etc/ssl/certs/ca-certificates.crt")),
                ca_directory: None,
            },
            network: NetworkPolicy {
                mode: NetworkMode::HttpsOnly,
                allowed_hosts,
                require_enforcement: false,
            },
            background_execution: BackgroundExecution::default(),
        },
        ..legacy_manifest(variables(&[("KOREADER_LANGUAGE", "zh_CN")]))
    };
    assert!(manifest.validate().is_ok());
    assert!(manifest.is_resident());
    assert_eq!(manifest.runtime_profile(), RuntimeProfile::QtfbCompat);
    assert_eq!(
        manifest.effective_background_service(),
        manifest.background_service
    );
}

#[test]
fn background_execution_defaults_to_continue_and_round_trips_freeze() {
    let mut app = AppManifest {
        schema: MANIFEST_SCHEMA_V2,
        id: AppId::new("reader").unwrap(),
        name: "Reader".into(),
        executable: path("/opt/reader/bin/reader"),
        working_dir: path("/opt/reader"),
        display: "qtfb".into(),
        resident: true,
        capabilities: capabilities(&["display:qtfb-v1", "lifecycle:v2"]),
        runtime: RuntimeRequirements {
            profile: RuntimeProfile::QtfbCompat,
            directories: Some(directories_of("reader")),
            ..RuntimeRequirements::default()
        },
        ..legacy_manifest(OrderedMap::new())
    };
    assert_eq!(
        app.runtime.background_execution,
        BackgroundExecution::Continue
    );
    assert!(app.validate().is_ok());

    app.runtime.background_execution = BackgroundExecution::Freeze;
    assert!(app.validate().is_ok());
    assert!(app.runtime.background_execution.freezes_process());
}

#[test]
fn freeze_requires_v2_residency_and_fenced_lifecycle() {
    let mut app = legacy_manifest(OrderedMap::new());
    app.runtime.background_execution = BackgroundExecution::Freeze;
    assert!(matches!(
        app.validate(),
        Err(ManifestError::FreezeRequiresV2)
    ));

    app.schema = MANIFEST_SCHEMA_V2;
    app.runtime.profile = RuntimeProfile::Headless;
    app.runtime.directories = Some(RuntimeDirectories {
        home: path("/home/root"),
        config_home: path("/home/root/.config/test"),
        data_home: path("/home/root/.local/share/test"),
        state_home: path("/home/root/.local/state/test"),
        cache_home: path("/home/root/.cache/test"),
        runtime_dir: path("/run/user/0/remagic/test"),
    });
    assert!(matches!(
        app.validate(),
        Err(ManifestError::FreezeRequiresResident)
    ));

    app.resident = true;
    assert!(matches!(
        app.validate(),
        Err(ManifestError::FreezeRequiresLifecycleV2)
    ));
    app.capabilities
        .push(Capability::new("lifecycle:v2").unwrap());
    assert!(app.validate().is_ok());
}

#[test]
fn schema_v2_rejects_platform_environment_forgery() {
    for key in [
        "HOME",
        "XDG_DATA_HOME",
        "REMAGIC_APP_TOKEN",
        "LD_LIBRARY_PATH",
        "SSL_CERT_FILE",
    ] {
        let mut app = legacy_manifest(variables(&[(key, "/tmp/forged")]));
        app.schema = MANIFEST_SCHEMA_V2;
        app.runtime.directories = Some(RuntimeDirectories {
            home: path("/home/root"),
            config_home: path("/home/root/.config/test"),
            data_home: path("/home/root/.local/share/test"),
            state_home: path("/home/root/.local/state/test"),
            cache_home: path("/home/root/.cache/test"),
            runtime_dir: path("/run/user/0/remagic/test"),
        });
        assert!(matches!(
            app.validate(),
            Err(ManifestError::UnsafeEnvironment(actual)) if actual == key
        ));
    }

    let mut app = legacy_manifest(variables(&[("lowercase", "value")]));
    app.schema = MANIFEST_SCHEMA_V2;
    app.runtime.directories = Some(RuntimeDirectories {
        home: path("/home/root"),
        config_home: path("/home/root/.config/test"),
        data_home: path("/home/root/.local/share/test"),
        state_home: path("/home/root/.local/state/test"),
        cache_home: path("/home/root/.cache/test"),
        runtime_dir: path("/run/user/0/remagic/test"),
    });
    assert!(matches!(
        app.validate(),
        Err(ManifestError::UnsafeEnvironment(actual)) if actual == "lowercase"
    ));
}

#[test]
fn shutdown_deadline_ordering_is_checked_at_boundaries() {
    let mut app = legacy_manifest(OrderedMap::new());
    for (graceful, term, kill, valid) in [
        (100, 100, 100, true),
        (99, 100, 100, false),
        (101, 100, 102, false),
        (100, 102, 101, false),
        (100, 100, MAX_SHUTDOWN_KILL_TIMEOUT_MS, true),
        (100, 100, MAX_SHUTDOWN_KILL_TIMEOUT_MS + 1, false),
    ] {
        app.shutdown = ShutdownPolicy {
            graceful_timeout_ms: graceful,
            term_timeout_ms: term,
            kill_timeout_ms: kill,
        };
        assert_eq!(app.validate().is_ok(), valid, "{graceful}/{term}/{kill}");
    }
}

#[test]
fn schema_v2_binds_display_profile_and_capability() {
    let mut app = legacy_manifest(OrderedMap::new());
    app.schema = MANIFEST_SCHEMA_V2;
    app.display = "qtfb".into();
    app.runtime.profile = RuntimeProfile::QtfbCompat;
    app.runtime.directories = Some(RuntimeDirectories {
        home: path("/home/root"),
        config_home: path("/home/root/.config/test"),
        data_home: path("/home/root/.local/share/test"),
        state_home: path("/home/root/.local/state/test"),
        cache_home: path("/home/root/.cache/test"),
        runtime_dir: path("/run/remagic/apps/test"),
    });
    assert!(matches!(
        app.validate(),
        Err(ManifestError::MissingRuntimeCapability {
            capability: "display:qtfb-v1",
            ..
        })
    ));
    app.capabilities
        .push(Capability::new("display:qtfb-v1").unwrap());
    assert!(app.validate().is_ok());
    app.display = "none".into();
    assert!(matches!(
        app.validate(),
        Err(ManifestError::RuntimeDisplayMismatch { .. })
    ));
}

#[test]
fn schema_v2_network_policy_matches_declared_capability() {
    let mut app = legacy_manifest(OrderedMap::new());
    app.schema = MANIFEST_SCHEMA_V2;
    app.display = "none".into();
    app.runtime.profile = RuntimeProfile::Headless;
    app.runtime.directories = Some(RuntimeDirectories {
        home: path("/home/root"),
        config_home: path("/home/root/.config/test"),
        data_home: path("/home/root/.local/share/test"),
        state_home: path("/home/root/.local/state/test"),
        cache_home: path("/home/root/.cache/test"),
        runtime_dir: path("/run/remagic/apps/test"),
    });
    app.runtime.network.mode = NetworkMode::Outbound;
    assert!(matches!(
        app.validate(),
        Err(ManifestError::NetworkCapabilityMismatch { .. })
    ));
    app.capabilities
        .push(Capability::new("network:outbound-v1").unwrap());
    assert!(app.validate().is_ok());
}

#[test]
fn data_schema_rejects_ancestor_and_descendant_backup_paths() {
    let mut app = legacy_manifest(OrderedMap::new());
    app.schema = MANIFEST_SCHEMA_V2;
    app.runtime.profile = RuntimeProfile::Headless;
    app.runtime.directories = Some(RuntimeDirectories {
        home: path("/home/root"),
        config_home: path("/home/root/.config/test"),
        data_home: path("/home/root/.local/share/test"),
        state_home: path("/home/root/.local/state/test"),
        cache_home: path("/home/root/.cache/test"),
        runtime_dir: path("/run/remagic/apps/test"),
    });
    app.data_schema = Some(DataSchema {
        version: 1,
        migrator: None,
        backup_paths: vec![
            path("/home/root/.local/share/reader"),
            path("/home/root/.local/share/reader/settings"),
        ],
        backup_timeout_ms: 1_000,
        migration_timeout_ms: 1_000,
    });
    assert!(matches!(
        app.validate(),
        Err(ManifestError::OverlappingBackupPaths(left, right))
            if left == path("/home/root/.local/share/reader")
                && right == path("/home/root/.local/share/reader/settings")
    ));
}

#[test]
fn data_schema_is_not_executable_from_a_legacy_manifest() {
    let mut app = legacy_manifest(OrderedMap::new());
    app.data_schema = Some(DataSchema {
        version: 1,
        migrator: None,
        backup_paths: Vec::new(),
        backup_timeout_ms: 1_000,
        migration_timeout_ms: 1_000,
    });
    assert!(matches!(
        app.validate(),
        Err(ManifestError::DataSchemaRequiresV2)
    ));
}

#[test]
fn startup_timeout_preserves_backup_migration_and_readiness_budgets() {
    let mut app = legacy_manifest(OrderedMap::new());
    app.readiness.timeout_ms = 20_000;
    assert_eq!(app.startup_timeout_ms(), 20_000);
    app.data_schema = Some(DataSchema {
        version: 1,
        migrator: None,
        backup_paths: Vec::new(),
        backup_timeout_ms: 120_000,
        migration_timeout_ms: 120_000,
    });
    assert_eq!(app.startup_timeout_ms(), 270_000);
    app.display = "qtfb".into();
    assert_eq!(app.startup_timeout_ms(), 290_000);
}

#[test]
fn services_come_from_the_manifest_or_its_legacy_unit() {
    let mut app = legacy_manifest(OrderedMap::new());
    assert_eq!(app.effective_background_service(), None);
    app.background_unit = Some("old.service".into());
    assert_eq!(
        app.effective_background_service(),
        Some(BackgroundService::Systemd {
            unit: "old.service".into()
        })
    );
    app.background_service = Some(BackgroundService::Systemd {
        unit: "new.service".into(),
    });
    assert_eq!(
        app.effective_background_service(),
        Some(BackgroundService::Systemd {
            unit: "new.service".into()
        })
    );
    assert!(!app.is_resident());
    app.park_strategy = ParkStrategy::Resident;
    assert!(app.is_resident());
}

#[test]
fn paths_are_opened_only_below_the_allowed_roots() {
    let mut app = legacy_manifest(OrderedMap::new());
    let wanted = path("/books/a.epub");
    let roots = [None, Some(path("/books"))];
    let open = |app: &AppManifest, canonical: Result<FilePath, String>| {
        app.validate_open_path(&wanted, canonical, &roots)
    };
    assert!(matches!(
        open(&app, Ok(path("/books/a.epub"))),
        Err(ManifestError::OpenPathUnsupported(_))
    ));
    app.supports_open_path = true;
    assert_eq!(
        open(&app, Ok(path("/books/a.epub"))).ok(),
        Some(path("/books/a.epub"))
    );
    assert!(matches!(
        open(&app, Ok(path("/bookshelf/a.epub"))),
        Err(ManifestError::OpenPathDenied(_))
    ));
    assert!(matches!(
        open(&app, Err("gone".into())),
        Err(ManifestError::Canonicalize(_, _))
    ));
}

#[test]
fn stores_refuse_what_they_cannot_read() {
    let store = ManifestStore::new(path("/m"));
    assert_eq!(store.load_all(None).ok().unwrap().len(), 0);
    let parsed = |name: &str| {
        StoredManifest::Parsed(path(name), legacy_manifest(OrderedMap::new()))
    };
    let one = store.load_all(Some(Ok(vec![parsed("/m/a.toml"), parsed("/m/a.txt")])));
    assert_eq!(one.ok().unwrap().len(), 1);
    let two = store.load_all(Some(Ok(vec![parsed("/m/a.toml"), parsed("/m/b.toml")])));
    assert!(matches!(two, Err(ManifestError::DuplicateId(_))));
    let broken = vec![StoredManifest::Malformed(path("/m/c.toml"), "no".into())];
    assert!(matches!(
        store.load_all(Some(Ok(broken))),
        Err(ManifestError::Parse(_, _))
    ));
    let unread = vec![StoredManifest::Unreadable(path("/m/c.toml"), "no".into())];
    assert!(matches!(
        store.load_all(Some(Ok(unread))),
        Err(ManifestError::Read(_, _))
    ));
    assert!(matches!(
        store.load_all(Some(Err("no".into()))),
        Err(ManifestError::ReadDir(_, _))
    ));
}

#[test]
fn manifest_errors_speak_plainly() {
    assert_eq!(
        AppId::new("Bad Id").unwrap_err().message(),
        "invalid application id: Bad Id"
    );
    let mut app = legacy_manifest(OrderedMap::new());
    app.schema = 9;
    assert_eq!(
        app.validate().unwrap_err().message(),
        "unsupported manifest schema 9"
    );
    let mut os = legacy_manifest(OrderedMap::new());
    os.supported_os = vec!["3.27".into(), "3.27".into()];
    assert_eq!(
        os.validate().unwrap_err().message(),
        "duplicate or empty supported OS build: \"3.27\""
    );
}
