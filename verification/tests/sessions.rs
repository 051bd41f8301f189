use codex_usage_monitor::text::text_lines;
use codex_usage_monitor::date::{calendar_date, date_from_parts, days_before, extract_date_from_path, first_of_month, Date};
use codex_usage_monitor::index::SessionIndex;
use codex_usage_monitor::session::LocalSession;
use codex_usage_monitor::usage::{bucket_bounds, compute_bucket, local_buckets, recent_sessions, BucketLabel, TokenParts};

fn d(year: i32, month: u32, day: u32) -> Date {
    Date { year, month, day }
}

fn parts(xs: &[&str]) -> Vec<String> {
    xs.iter().map(|s| s.to_string()).collect()
}

fn token_line(ts: &str, total: u64, input: u64, cached: u64, output: u64, reasoning: u64) -> String {
    format!(
        r#"{{"timestamp":"{ts}","type":"event_msg","payload":{{"type":"token_count","info":{{"total_token_usage":{{"input_tokens":{input},"cached_input_tokens":{cached},"output_tokens":{output},"reasoning_output_tokens":{reasoning},"total_tokens":{total}}}}}}}}}"#
    )
}

#[test]
fn date_from_session_path_components() {
    let p = parts(&["home", "u", ".codex", "sessions", "2025", "06", "14", "rollout-1.jsonl"]);
    assert_eq!(date_from_parts(&p), Some(d(2025, 6, 14)));
}

#[test]
fn date_needs_a_real_day_in_range() {
    assert_eq!(date_from_parts(&parts(&["2025", "02", "30", "x"])), None);
    assert_eq!(date_from_parts(&parts(&["1999", "02", "03"])), None);
    assert_eq!(date_from_parts(&parts(&["2101", "02", "03"])), None);
    assert_eq!(date_from_parts(&parts(&["2024", "02", "29"])), Some(d(2024, 2, 29)));
    assert_eq!(date_from_parts(&parts(&["2023", "02", "29"])), None);
    assert_eq!(date_from_parts(&parts(&["a", "2023", "xx", "2023", "1", "5"])), Some(d(2023, 1, 5)));
    assert_eq!(date_from_parts(&parts(&["2023", "1"])), None);
    assert_eq!(date_from_parts(&parts(&[])), None);
}

#[test]
fn date_from_full_path() {
    assert_eq!(extract_date_from_path("/home/u/.codex/sessions/2025/06/14/rollout.jsonl"), Some(d(2025, 6, 14)));
    assert_eq!(extract_date_from_path("/home/u/.codex/sessions/rollout.jsonl"), None);
}

#[test]
fn calendar_rules() {
    assert_eq!(calendar_date(2000, 2, 29), Some(d(2000, 2, 29)));
    assert_eq!(calendar_date(1900, 2, 29), None);
    assert_eq!(calendar_date(2025, 4, 31), None);
    assert_eq!(calendar_date(2025, 13, 1), None);
    assert_eq!(calendar_date(2025, 12, 31), Some(d(2025, 12, 31)));
    assert_eq!(calendar_date(400000, 1, 1), None);
}

#[test]
fn week_and_month_bounds() {
    assert_eq!(days_before(d(2025, 3, 2), 6), Some(d(2025, 2, 24)));
    assert_eq!(days_before(d(2024, 3, 2), 6), Some(d(2024, 2, 25)));
    assert_eq!(first_of_month(d(2025, 3, 17)), d(2025, 3, 1));
    assert_eq!(bucket_bounds(d(2025, 1, 3)), Some((d(2024, 12, 28), d(2025, 1, 1))));
}

#[test]
fn session_meta_sets_fields() {
    let mut s = LocalSession::new("/logs/a.jsonl".to_string(), None);
    s.apply_line(r#"{"timestamp":"T0","type":"session_meta","payload":{"id":"abc","cwd":"/work","model_slug":"gpt-5","title":"Fix"}}"#);
    assert_eq!(s.id, "abc");
    assert_eq!(s.cwd.as_deref(), Some("/work"));
    assert_eq!(s.model.as_deref(), Some("gpt-5"));
    assert_eq!(s.title.as_deref(), Some("Fix"));
    assert_eq!(s.started_at.as_deref(), Some("T0"));
    s.apply_line(r#"{"type":"session_meta","payload":{"model":null,"model_slug":"x","timestamp":"T9"}}"#);
    assert_eq!(s.id, "abc");
    assert_eq!(s.cwd, None);
    assert_eq!(s.model, None);
    assert_eq!(s.started_at.as_deref(), Some("T9"));
}

#[test]
fn token_counts_keep_the_maximum() {
    let mut s = LocalSession::new("k".to_string(), None);
    s.apply_line(&token_line("T1", 100, 60, 10, 40, 5));
    s.apply_line(&token_line("T2", 80, 70, 5, 10, 1));
    assert_eq!(s.total_tokens, 100);
    assert_eq!(s.input_tokens, 70);
    assert_eq!(s.cached_input_tokens, 10);
    assert_eq!(s.output_tokens, 40);
    assert_eq!(s.reasoning_output_tokens, 5);
    assert_eq!(s.updated_at.as_deref(), Some("T2"));
}

#[test]
fn camel_case_counts_and_other_lines() {
    let mut s = LocalSession::new("k".to_string(), None);
    s.apply_line("not json");
    s.apply_line(r#"{"type":"event_msg","payload":{"type":"agent_message"}}"#);
    s.apply_line(r#"{"type":"event_msg","payload":{"type":"token_count","info":{"total_token_usage":{"totalTokens":1234,"inputTokens":7}}}}"#);
    assert_eq!(s.total_tokens, 1234);
    assert_eq!(s.input_tokens, 7);
    assert_eq!(s.output_tokens, 0);
    assert_eq!(s.updated_at, None);
    assert_eq!(s.id, "k");
}

#[test]
fn content_is_read_line_by_line() {
    let mut s = LocalSession::new("k".to_string(), None);
    let content = format!("{}\n{}\r\n\n{}", token_line("T1", 5, 1, 1, 1, 1), "garbage", token_line("T3", 9, 2, 2, 2, 2));
    s.apply_content(&content);
    assert_eq!(s.total_tokens, 9);
    assert_eq!(s.updated_at.as_deref(), Some("T3"));
}

#[test]
fn index_keeps_key_order_and_merges_keys() {
    let mut idx = SessionIndex::new();
    idx.ingest_file("b".to_string(), None, &token_line("T", 10, 1, 1, 1, 1));
    idx.ingest_file("a".to_string(), None, &token_line("T", 20, 1, 1, 1, 1));
    idx.ingest_file("c".to_string(), Some(d(2025, 1, 1)), "");
    idx.ingest_file("b".to_string(), Some(d(2025, 1, 1)), &token_line("T", 30, 1, 1, 1, 1));
    assert_eq!(idx.len(), 3);
    assert_eq!(idx.key(0), "a");
    assert_eq!(idx.key(1), "b");
    assert_eq!(idx.key(2), "c");
    assert_eq!(idx.session(1).total_tokens, 30);
    assert_eq!(idx.session(1).date, None);
    assert_eq!(idx.session(2).date, Some(d(2025, 1, 1)));
    assert_eq!(idx.session(0).id, "a");
}

#[test]
fn index_orders_by_code_points() {
    let mut idx = SessionIndex::new();
    for k in ["é", "z", "Z", "ab", "a", ""] {
        idx.ingest_file(k.to_string(), None, "");
    }
    let keys: Vec<String> = (0..idx.len()).map(|i| idx.key(i).clone()).collect();
    let mut sorted = keys.clone();
    sorted.sort();
    assert_eq!(keys, sorted);
    assert_eq!(keys.len(), 6);
}

#[test]
fn log_path_dates_the_session() {
    let mut idx = SessionIndex::new();
    idx.ingest_log("/h/.codex/sessions/2025/05/04/r.jsonl", &token_line("T", 3, 1, 1, 1, 1));
    assert_eq!(idx.session(0).date, Some(d(2025, 5, 4)));
    assert_eq!(idx.session(0).id, "/h/.codex/sessions/2025/05/04/r.jsonl");
}

fn sample_index() -> SessionIndex {
    let mut idx = SessionIndex::new();
    idx.ingest_file("s1".to_string(), Some(d(2025, 3, 10)), &token_line("T", 100, 10, 1, 20, 2));
    idx.ingest_file("s2".to_string(), Some(d(2025, 3, 7)), &token_line("T", 50, 5, 1, 10, 1));
    idx.ingest_file("s3".to_string(), Some(d(2025, 3, 1)), &token_line("T", 7, 1, 0, 1, 0));
    idx.ingest_file("s4".to_string(), Some(d(2025, 2, 28)), &token_line("T", 1000, 1, 1, 1, 1));
    idx.ingest_file("s5".to_string(), None, &token_line("T", 9999, 1, 1, 1, 1));
    idx.ingest_file("s6".to_string(), Some(d(2025, 3, 11)), &token_line("T", 3, 1, 1, 1, 1));
    idx
}

#[test]
fn buckets_sum_sessions_in_range() {
    let idx = sample_index();
    let today = d(2025, 3, 10);
    let (week_start, month_start) = bucket_bounds(today).unwrap();
    assert_eq!(week_start, d(2025, 3, 4));
    assert_eq!(month_start, d(2025, 3, 1));
    let b = local_buckets(&idx, today, week_start, month_start).unwrap();
    assert_eq!(b.len(), 3);
    assert_eq!(b[0].label, BucketLabel::Today);
    assert_eq!(b[0].total_tokens, 100);
    assert_eq!(b[0].session_count, 1);
    assert_eq!(b[1].label, BucketLabel::ThisWeek);
    assert_eq!(b[1].total_tokens, 150);
    assert_eq!(b[1].tokens.input_tokens, 15);
    assert_eq!(b[1].tokens.output_tokens, 30);
    assert_eq!(b[1].session_count, 2);
    assert_eq!(b[2].label, BucketLabel::ThisMonth);
    assert_eq!(b[2].total_tokens, 157);
    assert_eq!(b[2].tokens.reasoning_output_tokens, 3);
    assert_eq!(b[2].session_count, 3);
    assert_eq!(b[2].start, d(2025, 3, 1));
    assert_eq!(b[2].end, today);
    assert_eq!(BucketLabel::ThisWeek.name(), "thisWeek");
    assert!(b[0].total_tokens <= b[1].total_tokens && b[0].total_tokens <= b[2].total_tokens);
}

#[test]
fn bucket_overflow_is_reported() {
    let mut idx = SessionIndex::new();
    let day = d(2025, 3, 10);
    idx.ingest_file("a".to_string(), Some(day), &token_line("T", u64::MAX, 1, 1, 1, 1));
    idx.ingest_file("b".to_string(), Some(day), &token_line("T", 1, 1, 1, 1, 1));
    assert!(compute_bucket(&idx, BucketLabel::Today, day, day).is_none());
    assert!(compute_bucket(&idx, BucketLabel::Today, d(2025, 3, 11), d(2025, 3, 12)).is_some());
    assert!(local_buckets(&idx, day, day, day).is_none());
}

#[test]
fn token_parts_add() {
    let mut t = TokenParts::new();
    let mut s = LocalSession::new("k".to_string(), None);
    s.apply_line(&token_line("T", 9, 1, 2, 3, 4));
    t.add(&s);
    t.add(&s);
    assert_eq!((t.input_tokens, t.cached_input_tokens, t.output_tokens, t.reasoning_output_tokens), (2, 4, 6, 8));
}

#[test]
fn recent_sessions_newest_key_first() {
    let mut idx = SessionIndex::new();
    for i in 0..12 {
        idx.ingest_file(format!("k{:02}", i), None, "");
    }
    idx.ingest_file("k11".to_string(), None, r#"{"type":"session_meta","payload":{"id":"last","timestamp":"S"}}"#);
    let r = recent_sessions(&idx, "NOW");
    assert_eq!(r.len(), 10);
    assert_eq!(r[0].id, "last");
    assert_eq!(r[0].started_at, "S");
    assert_eq!(r[0].updated_at, "S");
    assert_eq!(r[1].id, "k10");
    assert_eq!(r[1].started_at, "NOW");
    assert_eq!(r[1].updated_at, "NOW");
    assert_eq!(r[9].id, "k02");
    let few = recent_sessions(&sample_index(), "NOW");
    assert_eq!(few.len(), 6);
    assert_eq!(few[0].id, "s6");
    assert_eq!(few[0].updated_at, "T");
    assert_eq!(few[0].total_tokens, 3);
}

#[test]
fn date_parts_follow_integer_parsing() {
    assert_eq!(date_from_parts(&parts(&["+2025", "+06", "014"])), Some(d(2025, 6, 14)));
    assert_eq!(date_from_parts(&parts(&["2025", "-6", "14"])), None);
    assert_eq!(date_from_parts(&parts(&["2025", " 6", "14"])), None);
    assert_eq!(date_from_parts(&parts(&["2025", "٦", "14"])), None);
    assert_eq!(date_from_parts(&parts(&["2025", "6", "4294967310"])), None);
}

#[test]
fn portable_paths_split_on_slashes() {
    assert_eq!(extract_date_from_path("2025/06/14"), Some(d(2025, 6, 14)));
    assert_eq!(extract_date_from_path("/x//2025///06/14/"), Some(d(2025, 6, 14)));
    assert_eq!(extract_date_from_path("/2025/06"), None);
    assert_eq!(extract_date_from_path(""), None);
}

#[test]
fn repeated_and_junk_lines_keep_buckets() {
    let today = d(2025, 3, 10);
    let first = token_line("T1", 100, 10, 1, 20, 2);
    let second = token_line("T2", 40, 50, 1, 5, 1);
    let mut a = SessionIndex::new();
    a.ingest_file("k".to_string(), Some(today), &format!("{first}\n{second}"));
    let mut b = SessionIndex::new();
    b.ingest_file("k".to_string(), Some(today), &format!("{first}\n{second}\n{first}\nnot json"));
    let ba = compute_bucket(&a, BucketLabel::Today, today, today).unwrap();
    let bb = compute_bucket(&b, BucketLabel::Today, today, today).unwrap();
    assert_eq!(ba.total_tokens, bb.total_tokens);
    assert_eq!(ba.tokens.input_tokens, bb.tokens.input_tokens);
    assert_eq!(ba.tokens.output_tokens, bb.tokens.output_tokens);
    assert_eq!(ba.session_count, bb.session_count);
    assert_eq!(bb.total_tokens, 100);
    assert_eq!(bb.tokens.input_tokens, 50);
}

#[test]
fn a_new_log_never_lowers_a_bucket() {
    let mut idx = sample_index();
    let today = d(2025, 3, 10);
    let before = compute_bucket(&idx, BucketLabel::ThisWeek, d(2025, 3, 4), today).unwrap();
    idx.ingest_file("s0".to_string(), Some(d(2025, 3, 5)), &token_line("T", 1, 1, 1, 1, 1));
    idx.ingest_file("s1".to_string(), None, &token_line("T", 0, 0, 0, 0, 0));
    let after = compute_bucket(&idx, BucketLabel::ThisWeek, d(2025, 3, 4), today).unwrap();
    assert_eq!(after.total_tokens, before.total_tokens + 1);
    assert_eq!(after.session_count, before.session_count + 1);
    assert!(after.tokens.input_tokens >= before.tokens.input_tokens);
}

#[test]
fn ingest_log_reports_its_date() {
    let mut idx = SessionIndex::new();
    assert_eq!(idx.ingest_log("/h/.codex/sessions/2025/05/04/r.jsonl", ""), Some(d(2025, 5, 4)));
    assert_eq!(idx.ingest_log("/h/.codex/sessions/r.jsonl", ""), None);
    assert_eq!(idx.session(0).date, Some(d(2025, 5, 4)));
    assert_eq!(idx.session(1).date, None);
}

#[test]
fn lines_split_like_str_lines() {
    assert_eq!(text_lines(""), Vec::<String>::new());
    assert_eq!(text_lines("\n"), vec![String::new()]);
    assert_eq!(text_lines("a\r"), vec!["a\r".to_string()]);
    assert_eq!(text_lines("a\r\nb\n"), vec!["a".to_string(), "b".to_string()]);
    assert_eq!(text_lines("a\n\nb"), vec!["a".to_string(), String::new(), "b".to_string()]);
}
