use remagic::backlight::BacklightSnapshot;
use remagic::home::pages::manager::{app_action, app_status, icon_text, render};
use remagic::home::pages::settings::{render_backlight_settings, render_settings};
use remagic::home::pages::store::{
    can_show_store, render_store, render_system_update, store_action, store_entries,
};
use remagic::home::pages::wallpapers::{
    pages_of, render_locked, render_wallpaper_browser, render_welcome, BrowserGrid,
};
use remagic::home::settings::{wallpaper_options, HomeSettings, WallpaperFile, WallpaperFit};
use remagic::home::store::{
    CatalogApp, CatalogStatus, OperationProgress, StoreOperation, SystemUpdateInfo, TaskResult,
};
use remagic::home::ui::{
    initial_mode, input_wait_ms, polls_lock, reconcile_mode, render_resume_target, HomeState, Op,
    Origin, ResumeTarget,
};
use remagic::home::view::{button_at, is_closed, Action, AppView, Page, Screen, UiMode};
use remagic::path::FilePath;
use remagic::{AppId, DomainState};

const SCREEN: Screen = Screen {
    width: 1620,
    height: 2160,
};

fn id(text: &str) -> AppId {
    AppId::new(text).unwrap()
}

fn app(name: &str, session: Option<&str>) -> AppView {
    AppView {
        id: id(name),
        name: name.to_uppercase(),
        installed: true,
        session: session.map(str::to_owned),
        background_active: false,
    }
}

fn update() -> SystemUpdateInfo {
    SystemUpdateInfo {
        current_version: "1".into(),
        available_version: "2".into(),
        update_available: true,
    }
}

fn state(mode: UiMode) -> HomeState {
    let files = [
        WallpaperFile {
            path: FilePath::new("/w/a.png"),
            regular: true,
        },
        WallpaperFile {
            path: FilePath::new("/w/b.png"),
            regular: true,
        },
    ];
    HomeState {
        mode,
        settings: HomeSettings::new(),
        wallpapers: wallpaper_options(None, &files),
        wallpaper_page: 0,
        apps: vec![app("koreader", Some("reading"))],
        store_error: None,
        store_catalog: Vec::new(),
        store_progress: None,
        system_update_error: None,
        system_update: update(),
        system_update_progress: None,
        resume_target: None,
        deferred_cover_sleep: false,
    }
}

fn actions(page: &Page) -> Vec<Action> {
    page.buttons.iter().map(|b| b.action.clone()).collect()
}

fn position(ops: &[Op], wanted: &Op) -> usize {
    ops.iter().position(|op| op == wanted).unwrap()
}

#[test]
fn the_first_page_follows_the_domain() {
    assert_eq!(initial_mode(&DomainState::Sleeping), UiMode::Locked);
    assert_eq!(initial_mode(&DomainState::Manager), UiMode::Manager);
    assert!(reconcile_mode(UiMode::Manager, None).is_empty());
    let locked = reconcile_mode(UiMode::Manager, Some(&DomainState::Sleeping));
    assert!(locked.contains(&Op::Show(UiMode::Locked)));
    let opened = reconcile_mode(UiMode::Locked, Some(&DomainState::Manager));
    assert!(opened.contains(&Op::RefreshApps));
    assert!(opened.contains(&Op::Show(UiMode::Manager)));
    assert!(polls_lock(UiMode::Locked, 300));
    assert!(!polls_lock(UiMode::Manager, 300));
    assert_eq!(input_wait_ms(UiMode::Manager, 0), 500);
    assert_eq!(input_wait_ms(UiMode::Locked, 100), 200);
    assert_eq!(input_wait_ms(UiMode::Locked, 900), 1);
}

#[test]
fn lock_pixels_are_shown_before_sleep() {
    let mut home = state(UiMode::Manager);
    let ops = home.handle(&Action::Sleep);
    let shown = position(&ops, &Op::Show(UiMode::Locked));
    let asked = position(&ops, &Op::Sleep { cover: false });
    assert!(shown < asked);
    home.shown(UiMode::Locked);
    let kept = home.slept(false, false, Some(&DomainState::Sleeping));
    assert!(kept.is_empty());
    let awake = home.slept(false, true, None);
    assert!(awake.contains(&Op::Wake { launch: None }));
}

#[test]
fn locked_surfaces_only_wake() {
    let mut home = state(UiMode::Locked);
    for action in [Action::OpenStore, Action::OpenSettings, Action::Sleep] {
        assert!(home.handle(&action).is_empty());
        assert_eq!(home.mode, UiMode::Locked);
    }
    assert!(!home.handle(&Action::Wake).is_empty());
    assert!(home.woken(true, None, None).is_empty());
    let resumed = home.woken(true, None, Some(id("koreader")));
    assert!(matches!(resumed[0], Op::Launch { .. }));
    assert!(home.woken(false, Some(&DomainState::Manager), None).is_empty());
    let refused = home.woken(false, Some(&DomainState::Sleeping), None);
    assert!(refused.contains(&Op::Show(UiMode::Locked)));
}

#[test]
fn one_store_operation_runs_at_a_time() {
    let mut home = state(UiMode::Store);
    let ops = home.handle(&Action::StoreInstall("koreader".into()));
    let started = Op::StartStore {
        operation: StoreOperation::Install,
        app_id: "koreader".into(),
    };
    assert!(ops.contains(&started));
    assert!(home.maintenance_active());
    assert!(home
        .handle(&Action::StoreUninstall("upload".into()))
        .is_empty());
    home.handle_task_result(TaskResult::Store {
        app_id: "koreader".into(),
        result: Err("no network".into()),
    });
    assert!(!home.maintenance_active());
    assert!(home.store_error.is_some());
}

#[test]
fn closing_the_cover_waits_for_work_that_runs() {
    let mut home = state(UiMode::Manager);
    let ops = home.cover_sleep(ResumeTarget::App(id("koreader")));
    let shown = position(&ops, &Op::Show(UiMode::Locked));
    assert!(shown < position(&ops, &Op::Sleep { cover: true }));
    let mut busy = state(UiMode::SystemUpdate);
    assert!(busy
        .handle(&Action::SystemUpdate)
        .contains(&Op::StartSystemInstall));
    let deferred = busy.cover_sleep(ResumeTarget::Ui(UiMode::Manager));
    assert!(!deferred.contains(&Op::Sleep { cover: true }));
    assert!(busy.deferred_cover_sleep);
    busy.shown(UiMode::Locked);
    let after = busy.handle_task_result(TaskResult::SystemInstall {
        result: Err("refused".into()),
    });
    assert!(after.contains(&Op::Sleep { cover: true }));
    assert!(!busy.deferred_cover_sleep);
    let mut started = state(UiMode::SystemUpdate);
    started.handle_task_result(TaskResult::SystemInstall { result: Ok(()) });
    assert_eq!(started.system_update_progress.unwrap().percent, Some(100));
}

#[test]
fn settings_change_and_are_saved() {
    let mut home = state(UiMode::Settings);
    let ops = home.handle(&Action::ToggleWallpaperFit);
    assert_eq!(home.settings.lock.fit, WallpaperFit::Contain);
    assert!(ops.contains(&Op::SaveSettings));
    let mut browser = state(UiMode::WallpaperBrowser);
    let wanted = browser.wallpapers[2].id.clone();
    let ops = browser.handle(&Action::SelectWallpaper(wanted.clone()));
    assert!(ops.contains(&Op::SaveSettings));
    assert_eq!(browser.settings.lock.wallpaper, wanted);
    let ops = browser.handle(&Action::SelectWallpaper("nothing".into()));
    assert!(!ops.contains(&Op::SaveSettings));
    browser.handle(&Action::WallpaperPage(-1));
    assert_eq!(browser.wallpaper_page, 0);
    browser.handle(&Action::WallpaperPage(2));
    assert_eq!(browser.wallpaper_page, 2);
    let mut light = state(UiMode::Backlight);
    let mut snapshot = BacklightSnapshot::unsupported("x");
    snapshot.supported = true;
    snapshot.percent = Some(95);
    light.light_read(Ok(snapshot));
    assert!(light
        .handle(&Action::AdjustBacklight(10))
        .contains(&Op::SetBacklight(100)));
    assert!(light
        .handle(&Action::SetBacklight(25))
        .contains(&Op::SetBacklight(25)));
    light.light_not_set("stuck".into());
    assert_eq!(
        light.settings.backlight.unwrap().error.as_deref(),
        Some("stuck")
    );
    let mut idle = state(UiMode::Settings);
    idle.settings.idle_suspend_secs = 120;
    assert!(idle
        .handle(&Action::CycleAutoSleep)
        .contains(&Op::SetIdleSuspend(300)));
    idle.power_read(Some(600));
    assert_eq!(idle.settings.idle_suspend_secs, 600);
}

#[test]
fn failures_keep_what_is_known() {
    let mut home = state(UiMode::Manager);
    home.apps_refreshed(None);
    assert_eq!(home.apps.len(), 1);
    home.apps_refreshed(Some(Vec::new()));
    assert!(home.apps.is_empty());
    home.catalog_loaded(Err("down".into()), false);
    assert!(home.store_error.is_some());
    home.update_checked(Err("offline".into()));
    assert!(home.system_update_error.is_some());
    home.update_checked(Ok(update()));
    assert!(home.system_update_progress.is_none());
    assert!(home
        .launch_failed(Origin::Manager, "crashed".into())
        .is_empty());
    assert_eq!(home.store_error.as_deref(), Some("down"));
    home.launch_failed(Origin::Store, "crashed".into());
    assert_eq!(home.store_error.as_deref(), Some("crashed"));
    assert_eq!(
        home.launch_failed(Origin::Resume, "gone".into()),
        [Op::RefreshApps, Op::Show(UiMode::Manager)]
    );
    home.light_read(Err("no light".into()));
    assert_eq!(
        home.settings.backlight,
        Some(BacklightSnapshot::unsupported("no light"))
    );
    assert!(home.wallpapers_changed().is_empty());
    assert!(!state(UiMode::WallpaperBrowser)
        .wallpapers_changed()
        .is_empty());
    let apps = [app("koreader", Some("reading")), app("upload", None)];
    assert!(!is_closed(&apps, &id("koreader")));
    assert!(is_closed(&apps, &id("upload")));
    assert!(is_closed(&apps, &id("magicpaper")));
}

#[test]
fn manager_tiles_open_and_close_applications() {
    let apps = [app("koreader", Some("reading")), app("upload", None)];
    assert_eq!(app_action(&apps[1]), Action::Launch(id("upload")));
    let page = render(SCREEN, &apps, false);
    let all = actions(&page);
    assert!(all.contains(&Action::Close(id("koreader"))));
    assert!(!all.contains(&Action::Close(id("upload"))));
    let close = all
        .iter()
        .position(|a| *a == Action::Close(id("koreader")))
        .unwrap();
    let button = &page.buttons[close];
    let hit = button_at(&page.buttons, button.x + 1, button.y + 1).unwrap();
    assert_eq!(page.buttons[hit].action, Action::Close(id("koreader")));
    assert_ne!(app_status(&apps[0], false), app_status(&apps[1], false));
    assert_eq!(icon_text("zebra"), "Z");
}

#[test]
fn settings_pages_offer_their_changes() {
    let home = state(UiMode::Settings);
    let page = render_settings(SCREEN, &home.settings, &home.wallpapers);
    let all = actions(&page);
    for wanted in [
        Action::BackManager,
        Action::OpenWallpaperBrowser,
        Action::OpenBacklight,
        Action::CycleAutoSleep,
    ] {
        assert!(all.contains(&wanted));
    }
    let mut snapshot = BacklightSnapshot::unsupported("x");
    snapshot.supported = true;
    snapshot.percent = Some(50);
    let light = actions(&render_backlight_settings(SCREEN, Some(&snapshot)));
    assert!(light.iter().any(|a| matches!(a, Action::SetBacklight(_))));
    let unknown = actions(&render_backlight_settings(SCREEN, None));
    assert!(!unknown.iter().any(|a| matches!(a, Action::SetBacklight(_))));
}

fn entry(status: CatalogStatus) -> CatalogApp {
    CatalogApp {
        id: "koreader".into(),
        name: "KOReader".into(),
        summary: "s".into(),
        version: "1".into(),
        status,
    }
}

#[test]
fn store_tiles_follow_the_state_of_the_application() {
    let action = |status: CatalogStatus| store_action(&entry(status), false).1;
    assert_eq!(
        action(CatalogStatus::NotInstalled),
        Action::StoreInstall("koreader".into())
    );
    assert_eq!(
        action(CatalogStatus::UpdateAvailable),
        Action::StoreUpgrade("koreader".into())
    );
    assert_eq!(
        action(CatalogStatus::Installed),
        Action::Launch(id("koreader"))
    );
    assert_eq!(action(CatalogStatus::Incompatible), Action::Unavailable);
    let busy = store_action(&entry(CatalogStatus::Installed), true).1;
    assert_eq!(busy, Action::Unavailable);
    let entries = store_entries(&[app("koreader", None)], &[]);
    assert_eq!(entries.len(), 3);
    assert_eq!(entries[1].status, CatalogStatus::Installed);
    assert!(can_show_store(&entries));
    let page = render_store(SCREEN, &entries, None, false);
    assert!(actions(&page).contains(&Action::StoreUninstall("koreader".into())));
    let progress = OperationProgress::indeterminate("koreader", "正在卸载");
    let running = render_store(SCREEN, &entries, Some(&progress), false);
    assert!(!actions(&running).contains(&Action::StoreUninstall("koreader".into())));
    let mut odd = entry(CatalogStatus::Installed);
    odd.id = "Not An Id".into();
    assert!(!can_show_store(&[odd]));
    let info = update();
    let offered = render_system_update(SCREEN, &info, None, None);
    assert!(actions(&offered).contains(&Action::SystemUpdate));
    let done = OperationProgress::complete("__system__", "done");
    assert_eq!(done.percent, Some(100));
    let working = render_system_update(SCREEN, &info, Some(&done), None);
    assert!(!actions(&working).contains(&Action::SystemUpdate));
}

#[test]
fn wallpaper_pages_stay_in_range() {
    assert_eq!(pages_of(0), 1);
    assert_eq!(pages_of(8), 1);
    assert_eq!(pages_of(9), 2);
    let home = state(UiMode::WallpaperBrowser);
    let (page, shown) = render_wallpaper_browser(SCREEN, &home.settings, &home.wallpapers, 99);
    assert_eq!(shown, 0);
    let chosen = Action::SelectWallpaper(home.wallpapers[1].id.clone());
    assert!(actions(&page).contains(&chosen));
    let locked = render_locked(SCREEN, &home.settings, &home.wallpapers, false);
    assert!(locked.buttons.is_empty());
    let preview = render_locked(SCREEN, &home.settings, &home.wallpapers, true);
    assert!(actions(&preview).contains(&Action::BackSettings));
    assert!(!render_welcome(SCREEN, "Paper Pro").buttons.is_empty());
}

#[test]
fn pages_are_drawn_before_unlocking() {
    assert_eq!(
        render_resume_target(None),
        [
            Op::RefreshApps,
            Op::Show(UiMode::Manager),
            Op::Wake { launch: None }
        ]
    );
    assert_eq!(
        render_resume_target(Some(ResumeTarget::App(id("koreader")))),
        [
            Op::RefreshApps,
            Op::Show(UiMode::Manager),
            Op::Wake {
                launch: Some(id("koreader"))
            }
        ]
    );
    assert_eq!(
        render_resume_target(Some(ResumeTarget::Ui(UiMode::LockPreview))),
        [Op::Show(UiMode::Settings), Op::Wake { launch: None }]
    );
}

fn apart(page: &Page) -> bool {
    let places: Vec<(i32, i32, i32, i32)> = page
        .buttons
        .iter()
        .map(|b| (b.x, b.y, b.x + b.width, b.y + b.height))
        .collect();
    places.iter().enumerate().all(|(i, a)| {
        places[..i]
            .iter()
            .all(|b| a.2 <= b.0 || b.2 <= a.0 || a.3 <= b.1 || b.3 <= a.1)
    })
}

#[test]
fn buttons_of_a_page_are_apart() {
    let home = state(UiMode::Settings);
    let settings = render_settings(SCREEN, &home.settings, &home.wallpapers);
    assert_eq!(settings.buttons.len(), 8);
    assert!(apart(&settings));
    let welcome = render_welcome(SCREEN, "Paper Pro");
    assert_eq!(
        actions(&welcome),
        [Action::OpenStore, Action::System]
    );
    assert!(apart(&welcome));
    let store = render_store(
        SCREEN,
        &store_entries(&[app("koreader", None)], &[]),
        None,
        false,
    );
    assert!(apart(&store));
}

#[test]
fn tiles_stand_in_a_centered_grid() {
    let apps = [app("koreader", None), app("upload", None)];
    let page = render(SCREEN, &apps, false);
    let place = |wanted: &str| {
        let button = page
            .buttons
            .iter()
            .find(|b| b.action == Action::Launch(id(wanted)))
            .unwrap();
        (button.x, button.y, button.width)
    };
    assert_eq!(place("koreader"), (326, 178, 224));
    assert_eq!(place("upload"), (574, 178, 224));
    let many: Vec<AppView> = (0..14).map(|i| app(&format!("app-{i}"), None)).collect();
    let shown = actions(&render(SCREEN, &many, false));
    let opening = |a: &&Action| matches!(a, Action::Launch(_));
    assert_eq!(shown.iter().filter(opening).count(), 12);
    let grid = BrowserGrid::new(SCREEN);
    assert_eq!((grid.columns, grid.card_width, grid.card_height), (4, 368, 886));
    assert_eq!(grid.origin(SCREEN, 5), (430, 1084));
}
