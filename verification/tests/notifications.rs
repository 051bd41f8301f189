use codex_usage_monitor::dedupe_key;
use codex_usage_monitor::thresholds::{threshold_crossings, usage_status, UsageStatus};
use codex_usage_monitor::tray::{tray_click_action, tray_menu_action, TrayAction};

/// The level of a percentage for `p < t` tests (NaN is below nothing).
fn prev_level(percent: f64) -> i64 {
    if percent.is_nan() { i64::MAX } else { percent.floor() as i64 }
}

/// The level of a percentage for `p >= t` tests (NaN reaches nothing).
fn level(percent: f64) -> i64 {
    if percent.is_nan() { i64::MIN } else { percent.floor() as i64 }
}

#[test]
fn threshold_detection_works() {
    assert_eq!(
        threshold_crossings(prev_level(49.0), level(76.0), &[50, 75, 90, 100]),
        vec![50, 75]
    );
}

#[test]
fn dedupe_key_is_stable() {
    assert_eq!(dedupe_key("weekly", "2026-05-20T00:00:00Z"), "weekly:2026-05-20T00:00:00Z");
}

#[test]
fn dedupe_keys_differ_for_other_resets() {
    assert_ne!(dedupe_key("weekly", "2026-05-20T00:00:00Z"), dedupe_key("weekly", "2026-05-27T00:00:00Z"));
    assert_ne!(dedupe_key("weekly", "x"), dedupe_key("primary", "x"));
    assert_eq!(dedupe_key("", ""), ":");
}

#[test]
fn crossing_at_exact_threshold_counts() {
    assert_eq!(threshold_crossings(prev_level(74.9), level(75.0), &[50, 75, 90, 100]), vec![75]);
    assert_eq!(threshold_crossings(prev_level(75.0), level(89.99), &[50, 75, 90, 100]), Vec::<u8>::new());
}

#[test]
fn no_crossing_when_usage_falls() {
    assert_eq!(threshold_crossings(prev_level(95.0), level(10.0), &[50, 75, 90, 100]), Vec::<u8>::new());
    assert_eq!(threshold_crossings(prev_level(60.0), level(60.0), &[50, 75, 90, 100]), Vec::<u8>::new());
}

#[test]
fn crossings_in_two_steps_add_up() {
    let t = [50, 75, 90, 100];
    let mut two = threshold_crossings(10, 80, &t);
    two.extend(threshold_crossings(80, 120, &t));
    assert_eq!(two, threshold_crossings(10, 120, &t));
    assert_eq!(two, vec![50, 75, 90, 100]);
}

#[test]
fn crossings_keep_given_order() {
    assert_eq!(threshold_crossings(0, 100, &[90, 50, 100, 75]), vec![90, 50, 100, 75]);
    assert_eq!(threshold_crossings(-5, 0, &[0, 1]), vec![0]);
}

#[test]
fn nan_percentages_cross_nothing() {
    assert_eq!(threshold_crossings(prev_level(f64::NAN), level(80.0), &[50, 75]), Vec::<u8>::new());
    assert_eq!(threshold_crossings(prev_level(10.0), level(f64::NAN), &[50, 75]), Vec::<u8>::new());
    assert_eq!(usage_status(level(f64::NAN)), UsageStatus::Normal);
}

#[test]
fn usage_status_levels() {
    assert_eq!(usage_status(level(0.0)), UsageStatus::Normal);
    assert_eq!(usage_status(level(74.99)), UsageStatus::Normal);
    assert_eq!(usage_status(level(75.0)), UsageStatus::Warning);
    assert_eq!(usage_status(level(89.5)), UsageStatus::Warning);
    assert_eq!(usage_status(level(90.0)), UsageStatus::Critical);
    assert_eq!(usage_status(level(99.9)), UsageStatus::Critical);
    assert_eq!(usage_status(level(100.0)), UsageStatus::Exhausted);
    assert_eq!(usage_status(level(250.0)), UsageStatus::Exhausted);
    assert_eq!(usage_status(level(-3.0)), UsageStatus::Normal);
}

#[test]
fn usage_status_labels() {
    assert_eq!(UsageStatus::Normal.label(), "ok");
    assert_eq!(UsageStatus::Warning.label(), "warning");
    assert_eq!(UsageStatus::Critical.label(), "critical");
    assert_eq!(UsageStatus::Exhausted.label(), "exhausted");
}

#[test]
fn tray_menu_items() {
    assert_eq!(tray_menu_action("open"), TrayAction::ShowWindow);
    assert_eq!(tray_menu_action("refresh"), TrayAction::RequestRefresh);
    assert_eq!(tray_menu_action("quit"), TrayAction::Quit);
    assert_eq!(tray_menu_action("other"), TrayAction::Ignore);
    assert_eq!(tray_menu_action(""), TrayAction::Ignore);
}

#[test]
fn tray_left_release_shows_window() {
    assert_eq!(tray_click_action(true, true, true), TrayAction::ShowWindow);
    assert_eq!(tray_click_action(true, true, false), TrayAction::Ignore);
    assert_eq!(tray_click_action(true, false, true), TrayAction::Ignore);
    assert_eq!(tray_click_action(false, true, true), TrayAction::Ignore);
}

#[test]
fn crossings_split_in_any_order() {
    let t = [90, 50, 100, 75, 50];
    let first = threshold_crossings(10, 80, &t);
    let second = threshold_crossings(80, 120, &t);
    let whole = threshold_crossings(10, 120, &t);
    assert_eq!(first, vec![50, 75, 50]);
    assert_eq!(second, vec![90, 100]);
    let mut both = first.clone();
    both.extend(second.iter().copied());
    both.sort();
    let mut all = whole.clone();
    all.sort();
    assert_eq!(both, all);
    assert!(first.iter().all(|x| !second.contains(x)));
}
