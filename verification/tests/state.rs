use codex_usage_monitor::official::{OfficialReading};
use codex_usage_monitor::state::{assemble_snapshot, AppSettings, AppState, Official};

fn reading() -> OfficialReading {
    OfficialReading {
        used: None,
        window_minutes: Some(5),
        resets_at: None,
        plan_type: None,
        rate_limit_reached_type: None,
        windows: Vec::new(),
    }
}

#[test]
fn default_settings() {
    let s = AppSettings::default();
    assert_eq!(s.codex_home_override, None);
    assert_eq!(s.refresh_interval_seconds, 60);
    assert!(!s.start_on_login);
    assert!(s.notifications_enabled);
    assert_eq!(s.notification_thresholds, vec![50, 75, 90, 100]);
    assert_eq!(s.daily_budget_tokens, None);
    assert_eq!(s.weekly_budget_tokens, None);
    assert_eq!(s.monthly_budget_tokens, None);
    assert!(s.show_fallback_when_rpc_unavailable);
}

#[test]
fn settings_read_back_what_was_written() {
    let mut st = AppState::new();
    let mut s = AppSettings::default();
    s.refresh_interval_seconds = 15;
    s.notification_thresholds = vec![10];
    st.update_settings(s);
    assert_eq!(st.get_settings().refresh_interval_seconds, 15);
    assert_eq!(st.get_settings().notification_thresholds, vec![10]);
    st.set_start_on_login(true);
    assert!(st.get_settings().start_on_login);
    assert_eq!(st.get_settings().refresh_interval_seconds, 15);
    st.set_start_on_login(false);
    assert!(!st.get_settings().start_on_login);
}

#[test]
fn snapshot_is_cached() {
    let mut st = AppState::new();
    assert!(st.cached_snapshot().is_none());
    let snap = assemble_snapshot(Ok(reading()), None, Vec::new(), Vec::new(), "NOW".to_string());
    st.store_snapshot(snap);
    assert_eq!(st.cached_snapshot().unwrap().last_updated_at, "NOW");
    st.update_settings(AppSettings::default());
    assert!(st.cached_snapshot().is_some());
}

#[test]
fn snapshot_from_rpc_has_no_warning() {
    let snap = assemble_snapshot(Ok(reading()), Some(reading()), Vec::new(), Vec::new(), "T".to_string());
    assert!(matches!(snap.official, Official::Rpc(_)));
    assert!(snap.parser_warnings.is_empty());
    assert_eq!(snap.last_updated_at, "T");
}

#[test]
fn snapshot_falls_back_to_logs() {
    let snap = assemble_snapshot(Err("spawn failed: x".to_string()), Some(reading()), Vec::new(), Vec::new(), "T".to_string());
    assert!(matches!(snap.official, Official::Local(_)));
    assert_eq!(snap.parser_warnings, vec!["rpc unavailable: spawn failed: x".to_string()]);
    let snap = assemble_snapshot(Err("rpc eof".to_string()), None, Vec::new(), Vec::new(), "T".to_string());
    assert!(matches!(snap.official, Official::Unavailable));
    assert_eq!(snap.parser_warnings, vec!["rpc unavailable: rpc eof".to_string()]);
}
