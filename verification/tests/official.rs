use codex_usage_monitor::json::{parse_json, read_i64, read_number, read_u64, str_at, u64_at};
use codex_usage_monitor::official::{
    build_official_windows, local_reading, read_window, rfc3339_from_epoch, rpc_reading, window_label,
    LatestRate, RpcReplies, RpcStep, WindowLabel,
};

fn json(text: &str) -> serde_json::Value {
    parse_json(text).unwrap()
}

#[test]
fn token_count_line_parsing() {
    let line = r#"{"type":"token_count","totalTokens":1234}"#;
    let json = parse_json(line).expect("valid");
    assert_eq!(u64_at(&json, "/totalTokens"), Some(1234));
}

#[test]
fn parse_errors_carry_the_message() {
    let err = parse_json("{oops").unwrap_err();
    assert!(err.contains("line 1"));
    assert!(parse_json("").is_err());
}

#[test]
fn first_path_with_a_value_wins() {
    let v = json(r#"{"a":{"x":"str","y":-4,"z":7,"f":2.5},"b":[10,20]}"#);
    assert_eq!(read_u64(&v, &["/a/x", "/a/y", "/a/z"]), Some(7));
    assert_eq!(read_i64(&v, &["/a/x", "/a/y", "/a/z"]), Some(-4));
    assert_eq!(read_u64(&v, &["/nope", "/b/1"]), Some(20));
    assert_eq!(read_u64(&v, &["/b/01", "/a/f"]), None);
    assert_eq!(read_u64(&v, &[]), None);
    let n = read_number(&v, &["/a/x", "/a/f", "/a/z"]).unwrap();
    assert_eq!(n.as_f64(), Some(2.5));
    assert!(read_number(&v, &["/a/x", "/b"]).is_none());
    assert_eq!(str_at(&v, "/a/x").as_deref(), Some("str"));
    assert_eq!(str_at(&v, "/a/z"), None);
}

#[test]
fn window_labels() {
    assert_eq!(window_label(Some(300), "secondary"), WindowLabel::FiveHour);
    assert_eq!(window_label(Some(10080), "primary"), WindowLabel::Weekly);
    assert_eq!(window_label(Some(60), "primary"), WindowLabel::Primary);
    assert_eq!(window_label(None, "secondary"), WindowLabel::Secondary);
    assert_eq!(WindowLabel::FiveHour.text(), "5 hour usage limit");
    assert_eq!(WindowLabel::Secondary.text(), "Secondary usage limit");
}

#[test]
fn epoch_is_written_in_rfc3339() {
    assert_eq!(rfc3339_from_epoch(0).as_deref(), Some("1970-01-01T00:00:00+00:00"));
    assert_eq!(rfc3339_from_epoch(1_747_699_200).as_deref(), Some("2025-05-20T00:00:00+00:00"));
    assert_eq!(rfc3339_from_epoch(i64::MAX), None);
}

#[test]
fn windows_are_read_from_any_layout() {
    let v = json(
        r#"{"rateLimits":{"primary":{"usedPercent":42.5,"windowDurationMins":300,"resetsAt":0},"secondary":{"used_percent":7,"window_minutes":10080}}}"#,
    );
    let w = read_window(&v, "primary", true).unwrap();
    assert_eq!(w.label, WindowLabel::FiveHour);
    assert_eq!(w.used.as_f64(), Some(42.5));
    assert_eq!(w.window_minutes, Some(300));
    assert_eq!(w.resets_at.as_deref(), Some("1970-01-01T00:00:00+00:00"));
    assert!(read_window(&v, "primary", false).is_none());
    let ws = build_official_windows(&v, true);
    assert_eq!(ws.len(), 2);
    assert_eq!(ws[1].label, WindowLabel::Weekly);
    assert_eq!(ws[1].resets_at, None);
    assert_eq!(build_official_windows(&v, false).len(), 0);
    let only_secondary = json(r#"{"secondary":{"usedPercent":1}}"#);
    let ws = build_official_windows(&only_secondary, false);
    assert_eq!(ws.len(), 1);
    assert_eq!(ws[0].label, WindowLabel::Secondary);
}

#[test]
fn rpc_exchange_steps() {
    let mut r = RpcReplies::new();
    assert!(matches!(r.on_line(r#"{"id":1,"result":{}}"#), RpcStep::Continue));
    assert!(matches!(r.on_line(r#"{"method":"note"}"#), RpcStep::Continue));
    assert!(matches!(r.on_line(r#"{"id":2,"result":{"planType":"pro"}}"#), RpcStep::Continue));
    assert!(r.account.is_some());
    assert!(r.reading("NOW").is_err());
    assert!(matches!(r.on_line(r#"{"id":3,"result":{"rateLimits":{"primary":{"usedPercent":80,"resetsAt":1747699200}}}}"#), RpcStep::Done));
    let reading = r.reading("NOW").unwrap();
    assert_eq!(reading.used.unwrap().as_f64(), Some(80.0));
    assert_eq!(reading.plan_type.as_deref(), Some("pro"));
    assert_eq!(reading.resets_at.as_deref(), Some("2025-05-20T00:00:00+00:00"));
    assert_eq!(reading.windows.len(), 1);
    assert_eq!(reading.windows[0].label, WindowLabel::Primary);
}

#[test]
fn rpc_exchange_failures() {
    let mut r = RpcReplies::new();
    match r.on_line("garbage") {
        RpcStep::Failed(m) => assert!(!m.is_empty()),
        _ => panic!("expected a failure"),
    }
    match r.on_line(r#"{"id":2,"error":{"code":-1}}"#) {
        RpcStep::Failed(m) => assert_eq!(m, r#"account/read failed: {"code":-1}"#),
        _ => panic!("expected a failure"),
    }
    match r.on_line(r#"{"id":3,"error":"nope"}"#) {
        RpcStep::Failed(m) => assert_eq!(m, r#"account/rateLimits/read failed: "nope""#),
        _ => panic!("expected a failure"),
    }
    assert_eq!(r.reading("NOW").err().as_deref(), Some("rate limit response not received"));
}

#[test]
fn rpc_reading_falls_back() {
    let rate = json(r#"{"rateLimits":{"planType":"plus","rateLimitReachedType":"primary","primary":{"used_percent":12,"resets_at":9223372036854775807}}}"#);
    let account = json(r#"{"planType":5}"#);
    let r = rpc_reading(Some(&account), &rate, "NOW");
    assert_eq!(r.plan_type.as_deref(), Some("plus"));
    assert_eq!(r.rate_limit_reached_type.as_deref(), Some("primary"));
    assert_eq!(r.resets_at.as_deref(), Some("NOW"));
    assert_eq!(r.window_minutes, None);
    let empty = json("{}");
    let r = rpc_reading(None, &empty, "NOW");
    assert!(r.used.is_none());
    assert!(r.windows.is_empty());
}

fn rate_line(ts: &str, used: f64) -> String {
    format!(
        r#"{{"timestamp":"{ts}","type":"event_msg","payload":{{"type":"token_count","rate_limits":{{"primary":{{"used_percent":{used},"window_minutes":300,"resets_at":0}},"plan_type":"pro"}}}}}}"#
    )
}

#[test]
fn latest_rate_limits_win() {
    let mut l = LatestRate::new();
    assert!(l.reading().is_none());
    l.observe_content(&format!("{}\n{}\n{}", rate_line("2025-01-02", 20.0), rate_line("2025-01-03", 30.0), rate_line("2025-01-01", 10.0)));
    l.observe_line(&rate_line("2025-01-03", 99.0));
    l.observe_line(r#"{"timestamp":"2099","type":"event_msg","payload":{"type":"token_count"}}"#);
    let r = l.reading().unwrap();
    assert_eq!(r.used.unwrap().as_f64(), Some(30.0));
    assert_eq!(r.plan_type.as_deref(), Some("pro"));
    assert_eq!(r.window_minutes, Some(300));
    assert_eq!(r.resets_at.as_deref(), Some("1970-01-01T00:00:00+00:00"));
    assert_eq!(r.windows.len(), 1);
    assert_eq!(r.windows[0].label, WindowLabel::FiveHour);
}

#[test]
fn local_reading_needs_a_used_percentage() {
    assert!(local_reading(&json(r#"{"primary":{"window_minutes":5}}"#)).is_none());
    let r = local_reading(&json(r#"{"secondary":{"used_percent":3}}"#)).unwrap();
    assert_eq!(r.used.unwrap().as_u64(), Some(3));
    assert_eq!(r.windows.len(), 1);
}

#[test]
fn rpc_reads_at_most_twenty_lines() {
    let mut r = RpcReplies::new();
    let mut read = 0;
    while r.wants_more_lines() {
        assert!(matches!(r.on_line(r#"{"method":"progress"}"#), RpcStep::Continue));
        read += 1;
    }
    assert_eq!(read, 20);
    assert_eq!(r.lines_read, 20);
    assert!(r.reading("NOW").is_err());
}
