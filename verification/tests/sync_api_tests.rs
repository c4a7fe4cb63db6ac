use mission_control::api::{
    accept_identity, cap_pitch_context_size, header_num, key_from_input, parse_envelope, read_rate,
    ApiClient, HttpMethod, RateInfo, PITCH_CONTEXT_CAP_BYTES,
};
use mission_control::error::{transport_error, AppError, AppResult};
use mission_control::json::{json_text_len_within, JsonNumber, JsonValue};
use mission_control::sync::{
    active_job_tokens, backoff_wait_secs, chapter_email_step, count_change_notice,
    event_email_step, poll_step, tokens_to_poll, ChapterStep, EventStep, PollStep, PollWrite, event_row, followup_source_status, in_backoff,
    is_past_event, job_failure, keep_past_row, logo_cache_fresh, new_job_id, next_event,
    notice_body, parse_retry_after, source_status, sponsor_error_code, sponsor_job_kind,
    sponsor_read_action, traffic_from, tray_title, SponsorKind, SponsorReadAction,
    MAX_BACKOFF_SECS,
};
use mission_control::text::{i64_to_string, parse_i64, str_lt, u64_to_string};

fn obj(fields: Vec<(&str, JsonValue)>) -> JsonValue {
    JsonValue::Object(fields.into_iter().map(|(k, v)| (k.to_string(), v)).collect())
}

fn st(s: &str) -> JsonValue {
    JsonValue::Str(s.to_string())
}

fn num(n: u64) -> JsonValue {
    JsonValue::Number(JsonNumber::PosInt(n))
}

fn neg(n: i64) -> JsonValue {
    JsonValue::Number(JsonNumber::NegInt(n))
}

fn get_u64(v: &JsonValue, key: &str) -> Option<u64> {
    match v.get(key) {
        Some(JsonValue::Number(JsonNumber::PosInt(n))) => Some(*n),
        _ => None,
    }
}

fn get_text<'a>(v: &'a JsonValue, key: &str) -> Option<&'a str> {
    v.get_str(key)
}

// ── Errors ─────────────────────────────────────────────────────────────────

#[test]
fn api_codes_map_to_typed_errors() {
    let e = AppError::from_api_code("forbidden_scope", "no scope".to_string());
    assert!(matches!(&e, AppError::ForbiddenScope(m) if m == "no scope"));
    assert_eq!(e.code(), "forbidden_scope");
    assert!(e.is_capability_block());
    let e = AppError::from_api_code("invalid_api_key", "bad".to_string());
    assert_eq!(e.code(), "unauthorized");
    assert!(!e.is_capability_block());
    let e = AppError::from_api_code("teapot", "short and stout".to_string());
    assert!(matches!(&e, AppError::Other(m) if m == "teapot: short and stout"));
    assert_eq!(e.code(), "other");
}

#[test]
fn every_variant_has_its_code() {
    let cases: Vec<(AppError, &str)> = vec![
        (AppError::NoKey, "no_key"),
        (AppError::RateLimited(String::new()), "rate_limited"),
        (AppError::NotFound(String::new()), "not_found"),
        (AppError::CeilingExceeded(String::new()), "ceiling_exceeded"),
        (AppError::Timeout(String::new()), "timeout"),
        (AppError::Network(String::new()), "network"),
        (AppError::Keychain(String::new()), "keychain"),
        (AppError::Db(String::new()), "db"),
        (AppError::ForbiddenRole(String::new()), "forbidden_role"),
        (AppError::ForbiddenApiGroup(String::new()), "forbidden_api_group"),
    ];
    for (e, code) in cases {
        assert_eq!(e.code(), code);
    }
    assert_eq!(AppError::NoKey.to_text(), "no API key stored");
    assert_eq!(AppError::Db("locked".to_string()).to_text(), "locked");
}

#[test]
fn transport_failures_split_into_timeout_and_network() {
    assert!(matches!(transport_error(true, "t".to_string()), AppError::Timeout(m) if m == "t"));
    assert!(matches!(transport_error(false, "n".to_string()), AppError::Network(m) if m == "n"));
}

// ── API envelope and requests ──────────────────────────────────────────────

#[test]
fn a_429_is_rate_limited_with_its_retry_after() {
    let rate = read_rate(None, Some("0"), None, Some(" 7 "), None);
    assert_eq!(rate.retry_after, Some(7));
    match parse_envelope(429, "429 Too Many Requests", rate, None) {
        Err(AppError::RateLimited(m)) => {
            assert_eq!(m, "Rate limited by the AI Tinkerers API; retry_after=7");
            assert_eq!(parse_retry_after(&m), Some(7));
        }
        _ => panic!("expected a rate limit"),
    }
}

#[test]
fn envelope_data_and_errors() {
    let ok = obj(vec![("ok", JsonValue::Bool(true)), ("data", obj(vec![("count", num(3))]))]);
    match parse_envelope(200, "200 OK", RateInfo::empty(), Some(ok)) {
        Ok(r) => assert_eq!(get_u64(&r.data, "count"), Some(3)),
        Err(_) => panic!("expected data"),
    }
    let failed = obj(vec![
        ("ok", JsonValue::Bool(false)),
        ("error", obj(vec![("code", st("forbidden_api_group")), ("message", st("group off"))])),
    ]);
    match parse_envelope(403, "403 Forbidden", RateInfo::empty(), Some(failed)) {
        Err(AppError::ForbiddenApiGroup(m)) => assert_eq!(m, "group off"),
        _ => panic!("expected a group block"),
    }
    match parse_envelope(502, "502 Bad Gateway", RateInfo::empty(), None) {
        Err(AppError::Network(m)) => assert_eq!(m, "non-JSON response (502 Bad Gateway)"),
        _ => panic!("expected a network error"),
    }
    match parse_envelope(500, "500", RateInfo::empty(), Some(obj(vec![]))) {
        Err(AppError::Other(m)) => assert_eq!(m, "other: Request failed"),
        _ => panic!("expected a generic failure"),
    }
}

#[test]
fn rate_headers_are_trimmed_integers() {
    assert_eq!(header_num(Some(" 42 ")), Some(42));
    assert_eq!(header_num(Some("-3")), Some(-3));
    assert_eq!(header_num(Some("4.5")), None);
    assert_eq!(header_num(None), None);
    let r = read_rate(Some("60"), Some("59"), Some("30"), None, Some("pro"));
    assert_eq!(r.limit, Some(60));
    assert_eq!(r.remaining, Some(59));
    assert_eq!(r.reset, Some(30));
    assert_eq!(r.retry_after, None);
    assert_eq!(r.tier.as_deref(), Some("pro"));
}

#[test]
fn requests_carry_the_key_only_as_a_bearer() {
    let api = ApiClient::new("k123".to_string());
    let r = api.validate();
    assert!(matches!(r.method, HttpMethod::Post));
    assert_eq!(r.url, "https://aitinkerers.org/api/agents/v1/auth/validate");
    assert_eq!(r.bearer, "k123");
    assert!(r.query.is_empty());
    let r = api.upcoming_events(100);
    assert_eq!(r.url, "https://aitinkerers.org/api/agents/v1/meetups/upcoming");
    assert_eq!(get_u64(&r.body, "limit"), Some(100));
}

#[test]
fn onboarding_trims_the_key_and_refuses_an_empty_one() {
    assert_eq!(key_from_input("  abc \n").unwrap(), "abc");
    assert!(matches!(key_from_input("   "), Err(AppError::Unauthorized(m)) if m == "Empty key"));
    assert!(accept_identity(&obj(vec![("valid", JsonValue::Bool(true))])).is_ok());
    assert!(matches!(
        accept_identity(&obj(vec![("valid", JsonValue::Bool(false))])),
        Err(AppError::Unauthorized(m)) if m == "Key did not validate"
    ));
    assert!(accept_identity(&obj(vec![])).is_err());
}

// ── Backoff and degradation ────────────────────────────────────────────────

#[test]
fn retry_after_is_read_from_the_message() {
    assert_eq!(parse_retry_after("Rate limited; retry_after= 30 "), Some(30));
    assert_eq!(parse_retry_after("retry_after=x"), None);
    assert_eq!(parse_retry_after("no hint"), None);
}

#[test]
fn backoff_wait_is_at_least_a_second_and_capped() {
    assert_eq!(backoff_wait_secs(None, None), 1);
    assert_eq!(backoff_wait_secs(Some(-5), None), 1);
    assert_eq!(backoff_wait_secs(Some(90), None), 90);
    assert_eq!(backoff_wait_secs(Some(1_000_000), None), MAX_BACKOFF_SECS);
    assert_eq!(MAX_BACKOFF_SECS, 21600);
}

#[test]
fn repeated_rate_limits_back_off_exponentially() {
    // Without a Retry-After, each rate limit doubles the window still open.
    let mut wait = backoff_wait_secs(None, None);
    let mut seen = vec![wait];
    for _ in 0..5 {
        wait = backoff_wait_secs(None, Some(wait));
        seen.push(wait);
    }
    assert_eq!(seen, vec![1, 2, 4, 8, 16, 32]);
    // A larger Retry-After is still honoured as the floor.
    assert_eq!(backoff_wait_secs(Some(300), Some(4)), 300);
    // Growth stops at the cap.
    assert_eq!(backoff_wait_secs(None, Some(15_000)), MAX_BACKOFF_SECS);
    assert_eq!(backoff_wait_secs(Some(10), Some(i64::MAX)), MAX_BACKOFF_SECS);
}

const NOW_SECS: i64 = 1_767_225_600; // 2026-01-01T00:00:00Z

#[test]
fn backoff_window_is_read_with_chrono() {
    assert!(in_backoff(Some("2026-01-01T00:00:01Z"), NOW_SECS, 0));
    assert!(in_backoff(Some("2026-01-01T01:00:00+01:00"), NOW_SECS - 1, 999_999_999));
    assert!(in_backoff(Some("2026-01-01T00:00:00.5Z"), NOW_SECS, 499_999_999));
    assert!(!in_backoff(Some("2026-01-01T00:00:00.5Z"), NOW_SECS, 500_000_000));
    assert!(!in_backoff(Some("2026-01-01T00:00:00Z"), NOW_SECS, 0));
    assert!(!in_backoff(Some("2025-12-31T23:59:59Z"), NOW_SECS, 0));
    assert!(!in_backoff(Some("not a time"), NOW_SECS, 0));
    assert!(!in_backoff(None, NOW_SECS, 0));
}

#[test]
fn backoff_windows_beyond_2262_still_hold() {
    assert!(in_backoff(Some("2300-01-01T00:00:00Z"), NOW_SECS, 0));
    assert!(!in_backoff(Some("1600-01-01T00:00:00Z"), NOW_SECS, 0));
}

#[test]
fn logo_cache_is_fresh_for_ten_minutes() {
    assert!(logo_cache_fresh(Some("2025-12-31T23:50:01Z"), NOW_SECS, 0));
    assert!(logo_cache_fresh(Some("2025-12-31T23:50:00.000000001Z"), NOW_SECS, 0));
    assert!(!logo_cache_fresh(Some("2025-12-31T23:50:00Z"), NOW_SECS, 0));
    assert!(!logo_cache_fresh(Some("1600-01-01T00:00:00Z"), NOW_SECS, 0));
    assert!(!logo_cache_fresh(Some("garbage"), NOW_SECS, 0));
    assert!(!logo_cache_fresh(None, NOW_SECS, 0));
}

#[test]
fn errors_degrade_sources_to_their_status() {
    assert_eq!(source_status(&AppError::ForbiddenRole(String::new())), "forbidden_role");
    assert_eq!(source_status(&AppError::Network(String::new())), "unavailable");
    assert_eq!(sponsor_error_code(&AppError::RateLimited(String::new())), "rate_limited");
    assert_eq!(sponsor_error_code(&AppError::NotFound(String::new())), "unavailable");
}

#[test]
fn followup_sources_report_their_status() {
    let ok: AppResult<()> = Ok(());
    assert_eq!(followup_source_status(&ok, false), ("ok", None));
    assert_eq!(followup_source_status(&ok, true), ("empty", None));
    let blocked: AppResult<()> = Err(AppError::ForbiddenScope("x".to_string()));
    assert_eq!(followup_source_status(&blocked, false), ("forbidden_scope", None));
    let limited: AppResult<()> = Err(AppError::RateLimited("retry_after=12".to_string()));
    assert_eq!(followup_source_status(&limited, false), ("unavailable", Some(Some(12))));
    let other: AppResult<()> = Err(AppError::Network("down".to_string()));
    assert_eq!(followup_source_status(&other, false), ("unavailable", None));
}

#[test]
fn sponsor_reads_degrade_on_the_cached_row() {
    let ok: AppResult<()> = Ok(());
    assert!(matches!(sponsor_read_action(&ok), SponsorReadAction::Store));
    let blocked: AppResult<()> = Err(AppError::ForbiddenApiGroup("x".to_string()));
    assert!(matches!(
        sponsor_read_action(&blocked),
        SponsorReadAction::Degrade { reason: "forbidden_api_group", backoff: None }
    ));
    let limited: AppResult<()> = Err(AppError::RateLimited("retry_after=5".to_string()));
    assert!(matches!(
        sponsor_read_action(&limited),
        SponsorReadAction::Degrade { reason: "rate_limited", backoff: Some(Some(5)) }
    ));
    let other: AppResult<()> = Err(AppError::Timeout("slow".to_string()));
    assert!(matches!(sponsor_read_action(&other), SponsorReadAction::CacheOnly));
}

// ── Events, notifications and the tray ─────────────────────────────────────

fn event(token: &str, kind: &str, days: i64, starts: &str, attending: u64) -> JsonValue {
    let d = if days < 0 { neg(days) } else { num(days as u64) };
    obj(vec![
        ("meetup_token", st(token)),
        ("event_name", st(&format!("Event {token}"))),
        ("city", st("Denver")),
        ("starts_at_utc", st(starts)),
        ("starts_at_local", st("Jan 1")),
        ("days_until_event_in_event_timezone", d),
        ("kind", st(kind)),
        ("rsvps", obj(vec![("attending", num(attending)), ("capacity", num(80))])),
    ])
}

#[test]
fn the_next_event_is_the_soonest_that_has_not_happened() {
    let events = vec![
        event("late", "upcoming", 30, "2026-03-01T00:00:00Z", 5),
        event("gone", "past", 3, "2025-01-01T00:00:00Z", 9),
        event("soon", "upcoming", 2, "2026-01-03T00:00:00Z", 12),
        event("before", "upcoming", -1, "2025-12-31T00:00:00Z", 1),
    ];
    let next = next_event(&events).expect("an upcoming event qualifies");
    assert_eq!(get_text(&next, "meetup_token"), Some("soon"));
    assert_eq!(get_text(&next, "name"), Some("Event soon"));
    assert_eq!(get_text(&next, "when"), Some("Jan 1"));
    assert_eq!(get_u64(&next, "attending"), Some(12));
    assert_eq!(get_u64(&next, "capacity"), Some(80));
    assert!(matches!(next.get("waitlisted"), Some(JsonValue::Null)));
    assert_eq!(tray_title(Some(&next)), "12 · 2d");
}

#[test]
fn past_events_never_claim_the_tray() {
    let events = vec![event("gone", "past", 5, "2020-01-01T00:00:00Z", 9)];
    assert!(next_event(&events).is_none());
    assert_eq!(tray_title(None), "—");
}

#[test]
fn an_event_marked_today_qualifies_without_a_day_count() {
    let ev = obj(vec![
        ("meetup_token", st("t")),
        ("relative_day_in_event_timezone", st("today")),
    ]);
    let next = next_event(&vec![ev]).expect("today qualifies");
    assert_eq!(get_text(&next, "meetup_token"), Some("t"));
    assert!(matches!(next.get("days"), Some(JsonValue::Null)));
}

#[test]
fn count_changes_notify_only_after_the_first_sync() {
    let ev = obj(vec![("event_name", st("Denver AI"))]);
    assert!(count_change_notice(Some((3, 0)), 5, 0, false, true, &ev).is_none());
    assert!(count_change_notice(Some((3, 0)), 5, 0, true, false, &ev).is_none());
    assert!(count_change_notice(Some((5, 1)), 5, 1, true, true, &ev).is_none());
    assert!(count_change_notice(None, 5, 1, true, true, &ev).is_none());
    let n = count_change_notice(Some((3, 0)), 5, 0, true, true, &ev).unwrap();
    assert_eq!(n.title, "Denver AI");
    assert_eq!(notice_body(n.old_attending, n.new_attending), "attending 3 → 5");
    let n = count_change_notice(Some((5, 0)), 5, 2, true, true, &obj(vec![])).unwrap();
    assert_eq!(n.title, "Event");
}

#[test]
fn event_rows_read_tokens_and_counts() {
    let ev = obj(vec![
        ("refs", obj(vec![("meetup_token", st("m9"))])),
        ("starts_at", st("2026-02-02")),
        ("rsvps", obj(vec![("attending", num(7)), ("waitlisted", num(2))])),
        ("stripe_payment_link_active", JsonValue::Bool(true)),
    ]);
    let row = event_row(&ev).expect("has a token");
    assert_eq!(row.meetup_token, "m9");
    assert_eq!(row.starts_at, "2026-02-02");
    assert_eq!(row.weblog_token, "");
    assert_eq!((row.attending, row.waitlisted, row.paid), (7, 2, true));
    assert!(event_row(&obj(vec![("meetup_token", st(""))])).is_none());
}

#[test]
fn a_past_fetch_never_shadows_an_upcoming_row() {
    assert!(!keep_past_row(Some("upcoming")));
    assert!(keep_past_row(Some("past")));
    assert!(keep_past_row(None));
    assert!(is_past_event(&obj(vec![("kind", st("past"))])));
    assert!(!is_past_event(&obj(vec![])));
}

#[test]
fn the_traffic_window_starts_180_days_before_the_event() {
    assert_eq!(traffic_from("2026-07-01"), "2026-01-02");
    assert_eq!(traffic_from("2024-03-01"), "2023-09-03");
    assert_eq!(traffic_from("soon"), "soon");
}

// ── Generation jobs ────────────────────────────────────────────────────────

#[test]
fn failed_jobs_carry_a_status_and_code() {
    assert_eq!(job_failure(&AppError::Timeout(String::new())), ("timeout", "timeout"));
    assert_eq!(job_failure(&AppError::RateLimited(String::new())), ("error", "rate_limited"));
    assert_eq!(job_failure(&AppError::ForbiddenScope(String::new())), ("error", "forbidden_scope"));
}

#[test]
fn sponsor_generation_kinds() {
    assert!(matches!(sponsor_job_kind("research"), Ok(SponsorKind::Research)));
    assert!(matches!(sponsor_job_kind("pitch"), Ok(SponsorKind::Pitch)));
    assert!(matches!(
        sponsor_job_kind("poem"),
        Err(AppError::Other(m)) if m == "unknown sponsor generation kind: poem"
    ));
}

#[test]
fn job_ids_are_random_hex() {
    let a = new_job_id();
    let b = new_job_id();
    assert!(!a.is_empty());
    assert!(a.chars().all(|c| c.is_ascii_hexdigit()));
    assert_ne!(a, b);
}

// ── Text ───────────────────────────────────────────────────────────────────

#[test]
fn integers_print_and_parse() {
    assert_eq!(i64_to_string(-9_223_372_036_854_775_808), "-9223372036854775808");
    assert_eq!(i64_to_string(0), "0");
    assert_eq!(u64_to_string(18_446_744_073_709_551_615), "18446744073709551615");
    assert_eq!(parse_i64("+12"), Some(12));
    assert_eq!(parse_i64("-0"), Some(0));
    assert_eq!(parse_i64("9223372036854775808"), None);
    assert_eq!(parse_i64(""), None);
}

#[test]
fn strings_order_by_characters() {
    assert!(str_lt("2026-01-01", "2026-01-02"));
    assert!(str_lt("", "a"));
    assert!(str_lt("ab", "abc"));
    assert!(!str_lt("abc", "abc"));
    assert!(!str_lt("b", "abc"));
    assert!(str_lt("Z", "a"));
}

#[test]
fn a_429_without_retry_after_announces_zero() {
    match parse_envelope(429, "429", RateInfo::empty(), None) {
        Err(AppError::RateLimited(m)) => {
            assert_eq!(m, "Rate limited by the AI Tinkerers API; retry_after=0");
            assert_eq!(parse_retry_after(&m), Some(0));
        }
        _ => panic!("expected a rate limit"),
    }
    let rate = read_rate(None, None, None, Some("-3"), None);
    match parse_envelope(429, "429", rate, None) {
        Err(AppError::RateLimited(m)) => assert_eq!(parse_retry_after(&m), Some(-3)),
        _ => panic!("expected a rate limit"),
    }
}

#[test]
fn among_events_starting_together_the_first_listed_is_next() {
    let events = vec![
        event("a", "upcoming", 1, "2026-01-02T00:00:00Z", 1),
        event("b", "upcoming", 1, "2026-01-02T00:00:00Z", 2),
    ];
    let next = next_event(&events).unwrap();
    assert_eq!(get_text(&next, "meetup_token"), Some("a"));
}

#[test]
fn printed_integers_read_back() {
    for n in [0i64, 7, -7, 42, 1_000_000, i64::MAX, i64::MIN] {
        assert_eq!(parse_i64(&i64_to_string(n)), Some(n));
    }
}

fn serde_len(v: &serde_json::Value) -> usize {
    serde_json::to_string(v).unwrap().len()
}

#[test]
fn json_text_length_matches_serde_json() {
    let doc = obj(vec![
        ("name", st("Caf\u{e9} \"Tinkerers\"\n")),
        ("count", num(1234)),
        ("delta", neg(-56)),
        ("ok", JsonValue::Bool(false)),
        ("none", JsonValue::Null),
        ("tags", JsonValue::Array(vec![st("a"), st("b\\c"), JsonValue::Array(vec![])])),
        ("nested", obj(vec![("x", JsonValue::Bool(true))])),
    ]);
    let text = "{\"name\":\"Caf\u{e9} \\\"Tinkerers\\\"\\n\",\"count\":1234,\"delta\":-56,\"ok\":false,\"none\":null,\"tags\":[\"a\",\"b\\\\c\",[]],\"nested\":{\"x\":true}}";
    let expected: serde_json::Value = serde_json::from_str(text).unwrap();
    let n = serde_len(&expected);
    assert!(json_text_len_within(&doc, n));
    assert!(!json_text_len_within(&doc, n - 1));
}

#[test]
fn string_length_counts_quotes_and_escapes() {
    // "a\"b" is six bytes of JSON text; the raw string has three characters.
    let v = st("a\"b");
    assert!(json_text_len_within(&v, 6));
    assert!(!json_text_len_within(&v, 5));
    let empty = JsonValue::Array(vec![]);
    assert!(json_text_len_within(&empty, 2));
    assert!(!json_text_len_within(&empty, 1));
    assert!(!json_text_len_within(&JsonValue::Null, 0));
}

fn pitch_body(notes_len: usize) -> JsonValue {
    obj(vec![
        ("name", st("Acme")),
        (
            "context",
            obj(vec![
                ("notes", st(&"n".repeat(notes_len))),
                ("event", obj(vec![("name", st("Demo night")), ("city", st("Oslo")), ("venue", st("Hall"))])),
            ]),
        ),
    ])
}

#[test]
fn a_small_pitch_body_is_sent_whole() {
    let body = pitch_body(10);
    let out = cap_pitch_context_size(body, PITCH_CONTEXT_CAP_BYTES);
    let ctx = out.get("context").unwrap();
    assert!(ctx.get("notes").is_some());
    assert!(ctx.get("event").unwrap().get("venue").is_some());
}

#[test]
fn an_oversized_pitch_body_drops_its_notes_first() {
    let body = pitch_body(70_000);
    let out = cap_pitch_context_size(body, PITCH_CONTEXT_CAP_BYTES);
    let ctx = out.get("context").unwrap();
    assert!(ctx.get("notes").is_none());
    assert!(ctx.get("event").unwrap().get("venue").is_some());
    assert_eq!(get_text(&out, "name"), Some("Acme"));
}

#[test]
fn the_pitch_cap_trims_the_event_then_drops_the_context() {
    // Under a tight cap the event is cut to name and city.
    let body = pitch_body(0);
    let out = cap_pitch_context_size(body, 80);
    let ev = out.get("context").unwrap().get("event").unwrap();
    assert!(ev.get("venue").is_none());
    assert_eq!(get_text(ev, "city"), Some("Oslo"));
    // Under a tighter one the context goes.
    let out = cap_pitch_context_size(pitch_body(0), 20);
    assert!(out.get("context").is_none());
    assert_eq!(get_text(&out, "name"), Some("Acme"));
}

#[test]
fn pitch_requests_are_capped_at_64_kb() {
    let api = ApiClient::new("k".to_string());
    let ctx = obj(vec![("notes", st(&"n".repeat(70_000)))]);
    let r = api.sponsor_pitch_generate(None, Some("Acme"), None, None, None, Some(&ctx));
    assert_eq!(r.url, "https://aitinkerers.org/api/agents/v1/sponsors/pitch_generate");
    assert!(json_text_len_within(&r.body, PITCH_CONTEXT_CAP_BYTES));
    assert!(r.body.get("context").unwrap().get("notes").is_none());
    assert_eq!(r.timeout_secs, Some(30));
}

fn rate_limited(secs: &str) -> AppResult<()> {
    Err(AppError::RateLimited(format!("rate limited; retry_after={secs}")))
}

#[test]
fn a_chapter_refresh_walks_its_three_calls() {
    let m = chapter_email_step(ChapterStep::Health, &Ok(()));
    assert_eq!(m.next, Some(ChapterStep::Fatigue));
    assert!(m.blocked.is_none() && m.backoff.is_none() && !m.fail);
    let m = chapter_email_step(ChapterStep::Fatigue, &Err::<(), _>(AppError::Network("down".into())));
    assert_eq!(m.next, Some(ChapterStep::JobsList));
    assert!(m.blocked.is_none() && !m.fail);
    let m = chapter_email_step(ChapterStep::JobsList, &Ok(()));
    assert_eq!(m.next, None);
}

#[test]
fn a_capability_block_skips_the_later_chapter_calls() {
    let m = chapter_email_step(ChapterStep::Health, &Err::<(), _>(AppError::ForbiddenApiGroup("no".into())));
    assert_eq!(m.next, None);
    assert_eq!(m.blocked.as_deref(), Some("forbidden_api_group"));
    assert!(!m.fail && m.backoff.is_none());
    let m = chapter_email_step(ChapterStep::Fatigue, &Err::<(), _>(AppError::ForbiddenScope("no".into())));
    assert_eq!(m.next, None);
    assert_eq!(m.blocked.as_deref(), Some("forbidden_scope"));
}

#[test]
fn only_the_first_chapter_call_fails_on_a_rate_limit() {
    let m = chapter_email_step(ChapterStep::Health, &rate_limited("42"));
    assert!(m.fail);
    assert_eq!(m.backoff, Some(Some(42)));
    assert_eq!(m.next, None);
    let m = chapter_email_step(ChapterStep::Fatigue, &rate_limited("7"));
    assert!(!m.fail);
    assert_eq!(m.backoff, Some(Some(7)));
    assert_eq!(m.next, Some(ChapterStep::JobsList));
    assert!(m.blocked.is_none());
}

#[test]
fn the_event_refresh_fetches_campaigns_only_when_not_cached() {
    let m = event_email_step(EventStep::Summary, &Ok(()), false);
    assert_eq!(m.next, Some(EventStep::Campaign));
    let m = event_email_step(EventStep::Summary, &Ok(()), true);
    assert_eq!(m.next, None);
    assert!(!m.fail && m.blocked.is_none());
}

#[test]
fn an_event_summary_block_or_rate_limit_ends_the_refresh() {
    let m = event_email_step(EventStep::Summary, &Err::<(), _>(AppError::ForbiddenRole("no".into())), false);
    assert_eq!(m.blocked.as_deref(), Some("forbidden_role"));
    assert_eq!(m.next, None);
    assert!(!m.fail);
    let m = event_email_step(EventStep::Summary, &rate_limited("9"), false);
    assert!(m.fail);
    assert_eq!(m.backoff, Some(Some(9)));
    assert_eq!(m.next, None);
}

#[test]
fn campaign_failures_never_block_the_event_surface() {
    let m = event_email_step(EventStep::Campaign, &Err::<(), _>(AppError::ForbiddenApiGroup("no".into())), false);
    assert!(m.blocked.is_none() && !m.fail && m.backoff.is_none());
    let m = event_email_step(EventStep::Campaign, &rate_limited("3"), false);
    assert!(!m.fail);
    assert_eq!(m.backoff, Some(Some(3)));
}

#[test]
fn only_active_jobs_not_yet_done_are_polled() {
    let jobs = vec![
        obj(vec![("token", st("a")), ("status", st("sending"))]),
        obj(vec![("send_job_token", st("b")), ("status", st("completed"))]),
        obj(vec![("token", st("c")), ("status", st("queued"))]),
        obj(vec![("status", st("active"))]),
        obj(vec![("token", st("d")), ("status", st("active")), ("done", JsonValue::Bool(true))]),
        obj(vec![("token", st("e")), ("status", st("active"))]),
    ];
    let active = active_job_tokens(&jobs);
    assert_eq!(active, vec!["a".to_string(), "c".to_string(), "e".to_string()]);
    let poll = tokens_to_poll(&active, &vec![false, true, false]);
    assert_eq!(poll, vec!["a".to_string(), "e".to_string()]);
}

#[test]
fn a_send_job_poll_reads_the_job_then_its_series() {
    let m = poll_step(PollStep::Job, &Ok(()));
    assert_eq!(m.next, Some(PollStep::Throughput));
    assert_eq!(m.write, PollWrite::Nothing);
    let m = poll_step(PollStep::Job, &Err::<(), _>(AppError::NotFound("gone".into())));
    assert_eq!(m.next, Some(PollStep::Throughput));
    let m = poll_step(PollStep::Throughput, &Ok(()));
    assert_eq!(m.next, None);
    assert_eq!(m.write, PollWrite::Series);
    assert!(m.backoff.is_none());
}

#[test]
fn a_missing_series_still_caches_the_progress() {
    let m = poll_step(PollStep::Throughput, &Err::<(), _>(AppError::Network("down".into())));
    assert_eq!(m.write, PollWrite::ProgressOnly);
    assert_eq!(m.next, None);
}

#[test]
fn a_rate_limited_poll_backs_off_and_writes_nothing() {
    let m = poll_step(PollStep::Job, &rate_limited("12"));
    assert_eq!(m.next, None);
    assert_eq!(m.backoff, Some(Some(12)));
    assert_eq!(m.write, PollWrite::Nothing);
    let m = poll_step(PollStep::Throughput, &rate_limited("4"));
    assert_eq!(m.backoff, Some(Some(4)));
    assert_eq!(m.write, PollWrite::Nothing);
}
