use remagic::backlight::BacklightSnapshot;
use remagic::home::events::{
    event_of, handle_press, handle_release, marker_path, marker_places, offered_home_surface,
    parse_event, poll_timeout, Event, TouchEvent, TouchTracker,
};
use remagic::home::image::{
    check_decoded_size, composite_white, decode_png, image_from, rgb_color, to_rgb, ColorImage,
    ColorType, ImageError, PngFrame, MAX_DECODED_BYTES,
};
use remagic::home::pages::settings::{
    backlight_label, backlight_status_label, idle_suspend_label,
};
use remagic::home::pages::store::{
    store_app, STORE_APP_COUNT, STORE_SUBTITLE, STORE_TITLE, SYSTEM_UPDATE_TITLE,
};
use remagic::home::pixels::{invert, pack_color, press, rect, release, unpack_color};
use remagic::home::settings::{
    is_png_extension, shorten_label, split_name, temporary_settings_path, wallpaper_options,
    HomeSettings, WallpaperFile, WallpaperFit, DEFAULT_WALLPAPER_ID,
};
use remagic::home::store::{
    catalog, catalog_call, check_operation, installed_sequence, installed_version, late_complaint,
    operation_result, package_call, package_result, product_name, system_update_info,
    uninstall_call, update_check_call, update_install_call, CatalogStatus, ProcessOutput,
    ProgramCall, StoreOperation, STORE_BINARY, UPDATE_BINARY,
};
use remagic::home::thumbnails::{
    cache_directory, path, square_thumbnail, temporary_thumbnail_path, thumbnail_file,
    thumbnail_key, thumbnail_sources, CacheEntry, SourceFile, ThumbnailError, CACHE_DIR,
    THUMBNAIL_EDGE,
};
use remagic::home::ui::{
    next_idle_suspend, retain_lock_after_failed_sleep, unlock_committed_after_lost_ack,
};
use remagic::home::view::{Action, Button};
use remagic::path::FilePath;
use remagic::sdk::surface::Surface;
use remagic::{AppId, DeviceProduct, DeviceProfile, DomainState};

#[test]
fn idle_suspend_labels_explain_the_policy() {
    assert_eq!(idle_suspend_label(0), "永不自动休眠");
    assert_eq!(idle_suspend_label(120), "无操作 2 分钟");
}

#[test]
fn backlight_labels_show_supported_state() {
    let snapshot = BacklightSnapshot {
        supported: true,
        percent: Some(75),
        forced_off: false,
        provider: Some("rm_frontlight".into()),
        brightness: Some(1535),
        max_brightness: Some(2047),
        bl_power: Some(0),
        linear_mapping: Some("no".into()),
        error: None,
    };
    assert_eq!(backlight_label(Some(&snapshot)), "75%");
    assert_eq!(backlight_label(None), "读取中");
}

#[test]
fn backlight_states_have_words_of_their_own() {
    let mut snapshot = BacklightSnapshot::unsupported("no light");
    assert_eq!(snapshot.error.as_deref(), Some("no light"));
    let unsupported = backlight_label(Some(&snapshot));
    snapshot.supported = true;
    snapshot.percent = Some(0);
    snapshot.error = None;
    assert_ne!(backlight_label(Some(&snapshot)), unsupported);
    assert_ne!(
        backlight_status_label(&snapshot, 0),
        backlight_status_label(&snapshot, 50)
    );
}

#[test]
fn display_names_never_leak_internal_package_identity() {
    assert_eq!(store_app(1).name, "KOReader");
    assert!(!(0..STORE_APP_COUNT).any(|i| store_app(i).name.contains("for ReMagic")));
}

#[test]
fn store_copy_is_not_the_system_update_center() {
    assert_eq!(STORE_TITLE, "应用商店");
    assert_eq!(STORE_SUBTITLE, "ReMagic 第一方应用");
    assert!(!STORE_TITLE.contains("更新中心"));
    assert!(!STORE_SUBTITLE.contains("系统更新"));
    assert_eq!(SYSTEM_UPDATE_TITLE, "系统更新");
}

#[test]
fn alpha_is_composited_on_white() {
    assert_eq!(composite_white(0, 0), 255);
    assert_eq!(composite_white(0, 255), 0);
    assert_eq!(composite_white(100, 128), 177);
}

#[test]
fn rgba_conversion_preserves_color_and_composites_transparency() {
    let pixels = to_rgb(&[255, 0, 0, 255, 0, 0, 255, 0], ColorType::Rgba, 2, 1)
        .ok()
        .unwrap();
    assert_eq!(pixels, vec![[255, 0, 0], [255, 255, 255]]);
}

#[test]
fn samples_have_to_fit_the_picture() {
    let gray = to_rgb(&[9, 200], ColorType::Grayscale, 1, 2).ok().unwrap();
    assert_eq!(gray, vec![[9, 9, 9], [200, 200, 200]]);
    let faint = to_rgb(&[0, 0], ColorType::GrayscaleAlpha, 1, 1).ok().unwrap();
    assert_eq!(faint, vec![[255, 255, 255]]);
    assert!(matches!(
        to_rgb(&[0], ColorType::Indexed, 1, 1),
        Err(ImageError::NotExpanded)
    ));
    assert!(matches!(
        to_rgb(&[0, 1], ColorType::Rgb, 1, 1),
        Err(ImageError::InvalidLength)
    ));
    assert!(matches!(
        to_rgb(&[], ColorType::Rgb, usize::MAX, 2),
        Err(ImageError::TooLarge)
    ));
    let deep = PngFrame {
        depth: 16,
        color: 2,
        width: 1,
        height: 1,
        data: vec![0; 6],
    };
    let Err(error) = image_from(deep) else {
        panic!("a deep picture was taken");
    };
    assert_eq!(error.message(), "wallpaper did not decode to 8-bit pixels");
    assert_eq!(check_decoded_size(Some(1)).ok(), Some(1));
    let Err(error) = check_decoded_size(Some(MAX_DECODED_BYTES + 1)) else {
        panic!("a huge picture was taken");
    };
    assert_eq!(
        error.message(),
        "decoded size 67108865 is outside the safe limit"
    );
    assert!(check_decoded_size(None).is_err());
    assert_eq!(rgb_color(0x12, 0x34, 0x56), 0xff12_3456);
}

fn png_bytes(color: png::ColorType, width: u32, height: u32, data: &[u8]) -> Vec<u8> {
    let mut bytes = Vec::new();
    let mut encoder = png::Encoder::new(&mut bytes, width, height);
    encoder.set_color(color);
    encoder.set_depth(png::BitDepth::Eight);
    let mut writer = encoder.write_header().unwrap();
    writer.write_image_data(data).unwrap();
    writer.finish().unwrap();
    bytes
}

#[test]
fn png_files_are_decoded_in_color() {
    let bytes = png_bytes(png::ColorType::Rgba, 2, 1, &[255, 0, 0, 255, 0, 0, 255, 0]);
    let image = decode_png(&bytes).ok().unwrap();
    assert_eq!((image.width, image.height), (2, 1));
    assert_eq!(image.pixels, vec![[255, 0, 0], [255, 255, 255]]);
    let gray = decode_png(&png_bytes(png::ColorType::Grayscale, 1, 1, &[7]))
        .ok()
        .unwrap();
    assert_eq!(gray.pixels, vec![[7, 7, 7]]);
    assert!(matches!(
        decode_png(b"no picture"),
        Err(ImageError::Undecodable(_))
    ));
    let cut = &bytes[..bytes.len() - 20];
    assert!(matches!(decode_png(cut), Err(ImageError::Undecodable(_))));
}

fn picture() -> ColorImage {
    ColorImage {
        width: 4,
        height: 2,
        pixels: vec![
            [1, 0, 0],
            [2, 0, 0],
            [3, 0, 0],
            [4, 0, 0],
            [5, 0, 0],
            [6, 0, 0],
            [7, 0, 0],
            [8, 0, 0],
        ],
    }
}

#[test]
fn square_thumbnail_center_crops_and_keeps_rgb_channels() {
    let image = picture();
    let thumbnail = square_thumbnail(&image);
    assert_eq!(thumbnail.len(), THUMBNAIL_EDGE * THUMBNAIL_EDGE * 3);
    assert_eq!(&thumbnail[..3], &[2, 0, 0]);
    assert_eq!(&thumbnail[thumbnail.len() - 3..], &[7, 0, 0]);
}

#[test]
fn thumbnails_read_back_as_they_were_written() {
    let image = picture();
    let bytes = thumbnail_file(&image).unwrap();
    let read = decode_png(&bytes).ok().unwrap();
    assert_eq!((read.width, read.height), (THUMBNAIL_EDGE, THUMBNAIL_EDGE));
    let flat: Vec<u8> = read.pixels.iter().flatten().copied().collect();
    assert_eq!(flat, square_thumbnail(&image));
}

#[test]
fn thumbnails_are_filed_by_path_length_and_time() {
    let source = FilePath::new("/w/a.png");
    let file = SourceFile {
        regular: true,
        length: 10,
        modified: 20,
    };
    let key = thumbnail_key(&source, 10, 20);
    let mut expected: u64 = 0xcbf2_9ce4_8422_2325;
    let bytes = b"/w/a.png".iter().copied();
    let rest = 10_u64.to_le_bytes().into_iter().chain(20_u128.to_le_bytes());
    for byte in bytes.chain(rest) {
        expected = (expected ^ byte as u64).wrapping_mul(0x0100_0000_01b3);
    }
    assert_eq!(key, expected);
    assert_ne!(thumbnail_key(&source, 11, 20), key);
    assert_ne!(thumbnail_key(&source, 10, 21), key);
    assert_eq!(
        path(&source, &file).unwrap(),
        FilePath::new(&format!("{CACHE_DIR}/{key:016x}.png"))
    );
    assert_eq!(
        temporary_thumbnail_path(&source, &file, 77),
        FilePath::new(&format!("{CACHE_DIR}/{key:016x}.tmp-77"))
    );
    let link = SourceFile {
        regular: false,
        length: 10,
        modified: 20,
    };
    assert_eq!(
        path(&source, &link).unwrap_err().message(),
        "wallpaper source is not a regular file"
    );
    assert_eq!(cache_directory(CacheEntry::Directory), Ok(false));
    assert_eq!(cache_directory(CacheEntry::Missing), Ok(true));
    assert_eq!(
        cache_directory(CacheEntry::Other),
        Err(ThumbnailError::NotADirectory)
    );
}

#[test]
fn lost_unlock_ack_requires_authoritative_manager_state() {
    assert!(unlock_committed_after_lost_ack(Some(&DomainState::Manager)));
    assert!(!unlock_committed_after_lost_ack(Some(
        &DomainState::Sleeping
    )));
    assert!(!unlock_committed_after_lost_ack(Some(&DomainState::System)));
    assert!(!unlock_committed_after_lost_ack(None));
}

#[test]
fn failed_suspend_keeps_a_committed_sleeping_domain_locked() {
    assert!(retain_lock_after_failed_sleep(Some(&DomainState::Sleeping)));
    assert!(!retain_lock_after_failed_sleep(Some(&DomainState::Manager)));
    assert!(!retain_lock_after_failed_sleep(None));
}

fn wallpaper_file(name: &str, regular: bool) -> WallpaperFile {
    WallpaperFile {
        path: FilePath::new(&format!("/w/{name}")),
        regular,
    }
}

#[test]
fn wallpaper_catalog_rejects_symlinks_and_cycles_deterministically() {
    let files = [
        wallpaper_file("甲.PNG", true),
        wallpaper_file("ignored.jpg", true),
        wallpaper_file("linked.png", false),
        wallpaper_file("乙.png", true),
    ];
    let options = wallpaper_options(None, &files);
    assert_eq!(options.len(), 3);
    assert_eq!(options[0].id, DEFAULT_WALLPAPER_ID);
    assert_eq!(options[1].label, "乙");
    assert_eq!(options[2].label, "甲");

    let mut settings = HomeSettings::new();
    settings.cycle_wallpaper(&options);
    assert_eq!(settings.lock.wallpaper, options[1].id);
    settings.cycle_wallpaper(&options);
    assert_eq!(settings.lock.wallpaper, options[2].id);
    settings.cycle_wallpaper(&options);
    assert_eq!(settings.lock.wallpaper, DEFAULT_WALLPAPER_ID);

    let sources = thumbnail_sources(&options);
    assert_eq!(
        sources,
        vec![FilePath::new("/w/乙.png"), FilePath::new("/w/甲.PNG")]
    );
    assert!(settings.select_wallpaper(&options[2].id, &options));
    assert_eq!(settings.wallpaper(&options).label, "甲");
    assert!(!settings.select_wallpaper("nothing", &options));
}

#[test]
fn names_are_split_and_shortened() {
    assert_eq!(
        split_name("a.b.png"),
        ("a.b".to_string(), Some("png".to_string()))
    );
    assert_eq!(split_name(".hidden"), (".hidden".to_string(), None));
    assert!(is_png_extension("PnG"));
    assert!(!is_png_extension("jpg"));
    assert_eq!(shorten_label("short", 18), "short");
    assert_eq!(shorten_label("0123456789", 4), "0123…");
    assert_eq!(
        temporary_settings_path(&FilePath::new("/c"), 5),
        FilePath::new("/c/.home.toml.tmp-5")
    );
    let mut fit = WallpaperFit::Cover;
    fit.toggle();
    assert_eq!(fit, WallpaperFit::Contain);
}

#[test]
fn idle_suspend_options_form_a_stable_cycle() {
    assert_eq!(next_idle_suspend(60), 120);
    assert_eq!(next_idle_suspend(1_800), 0);
    assert_eq!(next_idle_suspend(0), 60);
    assert_eq!(next_idle_suspend(999), 60);
}

#[test]
fn store_binary_follows_the_transactional_package_layout() {
    assert_eq!(
        STORE_BINARY,
        "/home/root/apps/remagic-store/current/payload/bin/remagic-store"
    );
}

#[test]
fn unknown_catalog_identity_fails_before_process_launch() {
    let check = |operation: StoreOperation, app_id: &str| check_operation(operation, app_id, true);
    assert!(check(StoreOperation::Install, "koreader-for-remagic").is_err());
    assert!(check(StoreOperation::Uninstall, "koreader-for-remagic").is_err());
    assert!(check(StoreOperation::Install, "koreader").is_ok());
    assert!(check_operation(StoreOperation::Install, "koreader", false).is_err());
}

fn output(success: bool, stdout: &str, stderr: &str) -> ProcessOutput {
    ProcessOutput {
        success,
        stdout: stdout.as_bytes().to_vec(),
        stderr: stderr.into(),
        status: "exit status: 1".into(),
    }
}

#[test]
fn the_catalog_is_read_from_the_stores_answer() {
    let answer = r#"{"apps":[
        {"id":"koreader","name":"KOReader","summary":"s","available_version":"1",
         "status":{"status":"update_available"}},
        {"name":"nameless"}
    ]}"#;
    let apps = catalog(&output(true, answer, "")).unwrap();
    assert_eq!(apps.len(), 1);
    assert_eq!(apps[0].id, "koreader");
    assert_eq!(apps[0].status, CatalogStatus::UpdateAvailable);
    assert!(catalog(&output(true, "no json", "")).is_err());
    let invalid = catalog(&output(true, "{}", ""));
    assert_eq!(invalid.unwrap_err(), "应用商店返回了无效目录");
    assert!(catalog(&output(false, answer, "store is down")).is_err());
    assert_eq!(operation_result(&output(true, "", "")), Ok(()));
    let Err(words) = operation_result(&output(false, "", "broken\n")) else {
        panic!("a failed operation succeeded");
    };
    assert!(words.contains("broken"));
}

#[test]
fn updates_are_newer_than_what_is_installed() {
    let release = "REMAGIC_VERSION=2026.07.01\nREMAGIC_RELEASE_SEQUENCE=7\n";
    assert_eq!(installed_sequence(Some(release.into())), 7);
    assert_eq!(installed_sequence(None), 0);
    assert_eq!(
        installed_version(Some(release.into()), "0.1.0"),
        "2026.07.01"
    );
    assert_eq!(installed_version(None, "0.1.0"), "0.1.0");
    let answer = r#"{"version":"2026.08.01","sequence":8}"#;
    let read = |installed: u64| {
        system_update_info(&output(true, answer, ""), installed, "2026.07.01".into()).unwrap()
    };
    assert_eq!(read(7).current_version, "2026.07.01");
    assert_eq!(read(7).available_version, "2026.08.01");
    assert!(read(7).update_available);
    assert!(!read(8).update_available);
    let unnamed = system_update_info(&output(true, "{}", ""), 7, "v".into()).unwrap();
    assert_eq!(unnamed.available_version, "未知");
    assert!(!unnamed.update_available);
    assert!(system_update_info(&output(false, answer, "no"), 7, "v".into()).is_err());
}

#[test]
fn programs_are_called_for_the_device_at_hand() {
    let device = DeviceProfile::for_product(DeviceProduct::PaperProMove, "3.27.0");
    let names = |call: &ProgramCall| -> Vec<&'static str> {
        let variables = call.environment.as_ref().unwrap();
        variables.iter().map(|(name, _)| *name).collect()
    };
    let call = package_call(false, "koreader", &device, "/run/control");
    assert_eq!(call.program, STORE_BINARY);
    assert_eq!(call.arguments[..3], ["install", "koreader", "paper_pro_move"]);
    let socket = "REMAGIC_CONTROL_SOCKET";
    let api = "REMAGIC_API_VERSION";
    assert_eq!(names(&call), ["PATH", "HOME", api, socket]);
    assert_eq!(
        package_call(true, "koreader", &device, "/run/control").arguments[0],
        "upgrade"
    );
    let removal = uninstall_call("koreader", "/run/control");
    assert_eq!(removal.arguments, ["uninstall", "koreader"]);
    assert_eq!(names(&removal), ["PATH", "HOME", socket]);
    assert_eq!(removal.environment.unwrap()[2].1, "/run/control");
    assert_eq!(names(&catalog_call(&device)), ["PATH", "HOME", api]);
    let check = update_check_call(&device, 7);
    assert_eq!(check.program, UPDATE_BINARY);
    assert!(check.arguments.contains(&"7".to_string()));
    assert_eq!(names(&check), ["PATH"]);
    assert!(check.kill_on_drop);
    let install = update_install_call(&device, 7, 9);
    assert!(install.environment.is_none() && !install.kill_on_drop);
    assert_eq!(install.arguments[2], "remagic-system-update-9");
    let failed = output(false, "", "");
    assert_eq!(
        package_result(StoreOperation::Uninstall, &failed),
        Err(String::new())
    );
    assert!(package_result(StoreOperation::Install, &failed)
        .unwrap_err()
        .starts_with("应用安装失败："));
    assert_eq!(late_complaint(StoreOperation::Uninstall), "应用卸载超时");
    assert_eq!(late_complaint(StoreOperation::Upgrade), "应用安装超时");
    assert_ne!(
        product_name(DeviceProduct::PaperPro),
        product_name(DeviceProduct::PaperProMove)
    );
}

#[test]
fn platform_events_are_single_lines() {
    let plain = |text: &str| event_of(text.as_bytes().to_vec());
    assert_eq!(plain("auto_sleep\n"), Some(Event::AutoSleep));
    assert_eq!(
        plain("wallpapers_changed\n"),
        Some(Event::WallpapersChanged)
    );
    let opened = Some(Event::ResumeUnlock { app_id: None });
    assert_eq!(plain("cover_open\n"), opened);
    assert_eq!(plain("resume_unlock\n"), opened);
    assert_eq!(
        plain("cover_sleep\n"),
        Some(Event::CoverSleep { app_id: None })
    );
    assert_eq!(plain("auto_sleep"), None);
    assert_eq!(event_of(vec![0xff]), None);
    let app_id = Some(AppId::new("koreader").unwrap());
    assert_eq!(
        plain("cover_sleep_app koreader\n"),
        Some(Event::CoverSleep {
            app_id: app_id.clone()
        })
    );
    assert_eq!(
        parse_event("cover_open_app koreader"),
        Some(Event::ResumeUnlock { app_id })
    );
    assert_eq!(parse_event("cover_open_app Not/An/Id"), None);
    assert_eq!(parse_event("something koreader"), None);
    assert_eq!(poll_timeout(None), -1);
    assert_eq!(poll_timeout(Some(0)), 1);
    assert_eq!(poll_timeout(Some(500)), 500);
    assert_eq!(poll_timeout(Some(u64::MAX)), i32::MAX);
}

fn touch_packet(kind: i32, finger: i32, x: i32, y: i32) -> Vec<u8> {
    let mut packet = vec![0_u8; 32];
    packet[0] = 4;
    packet[8..12].copy_from_slice(&kind.to_le_bytes());
    packet[12..16].copy_from_slice(&finger.to_le_bytes());
    packet[16..20].copy_from_slice(&x.to_le_bytes());
    packet[20..24].copy_from_slice(&y.to_le_bytes());
    packet
}

#[test]
fn one_finger_counts_at_a_time() {
    let mut tracker = TouchTracker::new();
    let down = tracker.follow(&touch_packet(0x10, 1, 5, 6), 32);
    assert_eq!(down, Some(TouchEvent::Press { x: 5, y: 6 }));
    assert_eq!(tracker.follow(&touch_packet(0x10, 2, 9, 9), 32), None);
    assert_eq!(tracker.follow(&touch_packet(0x11, 2, 9, 9), 32), None);
    let up = tracker.follow(&touch_packet(0x11, 1, 7, 8), 32);
    assert_eq!(up, Some(TouchEvent::Release { x: 7, y: 8 }));
    assert_eq!(tracker.primary, None);
    assert_eq!(tracker.follow(&touch_packet(0x10, 1, 5, 6), 3), None);
}

fn button(x: i32, y: i32, width: i32, height: i32) -> Button {
    Button {
        x,
        y,
        width,
        height,
        action: Action::OpenStore,
    }
}

#[test]
fn buttons_act_when_the_finger_lifts_on_them() {
    let buttons = [button(0, 0, 10, 10), button(20, 0, 10, 10)];
    assert_eq!(handle_press(&buttons, false, 25, 5), Some(1));
    assert_eq!(handle_press(&buttons, false, 15, 5), None);
    assert_eq!(handle_press(&buttons, true, 25, 5), None);
    assert!(handle_release(Some(&buttons[1]), 21, 1));
    assert!(!handle_release(Some(&buttons[1]), 31, 1));
    assert!(!handle_release(None, 21, 1));
}

#[test]
fn released_buttons_look_as_before() {
    let mut bytes: Vec<u8> = (0..8 * 4 * 2).map(|i| (i * 7 % 251) as u8).collect();
    let before = bytes.clone();
    let held = button(2, 1, 3, 2);
    let mut surface = Surface::new(&mut bytes, 8, 4, 16).unwrap();
    let saved = press(&mut surface, &held);
    assert_eq!(saved.len(), 6);
    drop(surface);
    assert_ne!(bytes, before);
    let mut surface = Surface::new(&mut bytes, 8, 4, 16).unwrap();
    release(&mut surface, &held, &saved);
    drop(surface);
    assert_eq!(bytes, before);
    assert_eq!(unpack_color(pack_color(0xffff_ffff)), 0xffff_ffff);
    assert_eq!(invert(0xff12_3456), 0xffed_cba9);
}

#[test]
fn rectangles_are_clipped_to_the_page() {
    let mut bytes = vec![0_u8; 4 * 3 * 2];
    let mut surface = Surface::new(&mut bytes, 4, 3, 8).unwrap();
    rect(&mut surface, -2, 1, 4, 9, 0xffff_ffff);
    rect(&mut surface, 3, -1, -2, 2, 0xffff_ffff);
    let white: Vec<(i32, i32)> = (0..3)
        .flat_map(|y| (0..4).map(move |x| (x, y)))
        .filter(|(x, y)| surface.pixel(*x, *y) == Some(0xffff))
        .collect();
    assert_eq!(white, [(0, 1), (1, 1), (0, 2), (1, 2)]);
}

#[test]
fn the_welcome_marker_has_a_temporary_neighbour() {
    assert_eq!(
        marker_path(Some("/s/welcome-v1".into())),
        FilePath::new("/s/welcome-v1")
    );
    let (parent, temporary) = marker_places(&FilePath::new("/s/welcome-v1"), 9).unwrap();
    assert_eq!(parent, FilePath::new("/s"));
    assert!(temporary.starts_with(&parent));
    assert_ne!(temporary, FilePath::new("/s/welcome-v1"));
    let mut reply = vec![0_u8; 32];
    reply[4..8].copy_from_slice(&3_i32.to_le_bytes());
    reply[8..16].copy_from_slice(&4096_u64.to_le_bytes());
    assert_eq!(offered_home_surface(&reply, 1), None);
}
