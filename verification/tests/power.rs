use remagic::backlight::BacklightSnapshot;
use remagic::power::{ClickTracker, PowerAction, LONG_PRESS, MULTI_CLICK_GAP};
use remagic::power_policy::{PowerSettings, WorkClass};

const MS: u64 = 1_000_000;
const START: u64 = 1_000_000_000_000;

fn click(tracker: &mut ClickTracker, at: u64) -> PowerAction {
    tracker.press(at);
    tracker.release(at + 60 * MS)
}

#[test]
fn triple_fires_on_third_release() {
    let t = START;
    let mut tracker = ClickTracker::default();
    assert_eq!(click(&mut tracker, t), PowerAction::Nothing);
    assert_eq!(click(&mut tracker, t + 200 * MS), PowerAction::Nothing);
    assert_eq!(click(&mut tracker, t + 400 * MS), PowerAction::Triple);
}

#[test]
fn single_resolves_after_gap() {
    let t = START;
    let mut tracker = ClickTracker::default();
    click(&mut tracker, t);
    assert_eq!(tracker.poll(t + 859 * MS), PowerAction::Nothing);
    assert_eq!(tracker.poll(t + 861 * MS), PowerAction::Single);
}

#[test]
fn long_press_does_not_become_single() {
    let t = START;
    let mut tracker = ClickTracker::default();
    tracker.press(t);
    assert_eq!(tracker.release(t + 4_000 * MS), PowerAction::Long);
    assert_eq!(tracker.poll(t + 5_000 * MS), PowerAction::Nothing);
}

#[test]
fn the_limits_of_a_click_are_exact() {
    assert_eq!(MULTI_CLICK_GAP, 800 * MS);
    assert_eq!(LONG_PRESS, 3_000 * MS);
    let mut tracker = ClickTracker::default();
    tracker.press(START);
    assert_eq!(tracker.release(START + LONG_PRESS - 1), PowerAction::Nothing);
    let mut tracker = ClickTracker::default();
    tracker.press(START);
    assert_eq!(tracker.release(START + LONG_PRESS), PowerAction::Long);
}

#[test]
fn idle_policy_accepts_only_explicit_supported_values() {
    for seconds in [0, 60, 120, 1_800] {
        assert!(PowerSettings {
            idle_suspend_secs: seconds,
            ..PowerSettings::default()
        }
        .validate()
        .is_ok());
    }
    for seconds in [1, 59, 1_801, u64::MAX] {
        assert!(PowerSettings {
            idle_suspend_secs: seconds,
            ..PowerSettings::default()
        }
        .validate()
        .is_err());
    }
}

#[test]
fn every_work_class_has_a_finite_platform_limit() {
    for class in [
        WorkClass::AgentTurn,
        WorkClass::Ocr,
        WorkClass::FileTransfer,
        WorkClass::PackageTransaction,
        WorkClass::StorageCommit,
        WorkClass::DisplayCommit,
    ] {
        assert!(class.maximum_lease_ms() > 0);
        assert!(class.maximum_lease_ms() <= 15 * 60_000);
    }
}

#[test]
fn unsupported_snapshot_has_no_hardware_values() {
    let snapshot = BacklightSnapshot::unsupported("missing");
    assert!(!snapshot.supported);
    assert_eq!(snapshot.percent, None);
    assert_eq!(snapshot.error.as_deref(), Some("missing"));
}
