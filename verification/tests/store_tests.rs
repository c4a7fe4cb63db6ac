use mission_control::json::{JsonNumber, JsonValue};
use mission_control::store::{
    contact_fields, draft_slot_key, event_detail, find_active_job, throughput_write_allowed, retain_plan, rsvp_detail_upsert,
    rsvp_row_fields, send_job_fields, send_job_upsert, set_job_status, sponsor_fields,
    sponsor_rows, sponsor_subject_key, survey_followup_upsert, CachedSendJob, JobRow, JobState,
    RsvpDetailRow, SendJobFields, SourceSlot, SurveyFollowupRow,
};

fn obj(fields: Vec<(&str, JsonValue)>) -> JsonValue {
    JsonValue::Object(fields.into_iter().map(|(k, v)| (k.to_string(), v)).collect())
}

fn st(s: &str) -> JsonValue {
    JsonValue::Str(s.to_string())
}

fn num(n: u64) -> JsonValue {
    JsonValue::Number(JsonNumber::PosInt(n))
}

fn rows(list: &[(&str, &str)]) -> Vec<(String, String)> {
    list.iter().map(|(t, s)| (t.to_string(), s.to_string())).collect()
}

/// The rows left after deleting the plan's keys within `scope`.
fn apply_retain(all: &[(String, String)], scope: &str, plan: &[String]) -> Vec<(String, String)> {
    all.iter()
        .filter(|(t, s)| !(s == scope && plan.iter().any(|p| p == t)))
        .cloned()
        .collect()
}

fn field_u64(v: &JsonValue, key: &str) -> Option<u64> {
    match v.get(key) {
        Some(JsonValue::Number(JsonNumber::PosInt(n))) => Some(*n),
        _ => None,
    }
}

// ── Sponsor subjects ───────────────────────────────────────────────────────

#[test]
fn sponsor_subject_key_distinguishes_token_and_name() {
    assert_eq!(sponsor_subject_key(Some("sp1"), None), "token:sp1");
    assert_eq!(sponsor_subject_key(None, Some("Acme Robotics")), "name:acme robotics");
    // A blank sponsor_token falls back to the name form.
    assert_eq!(sponsor_subject_key(Some(""), Some("Acme")), "name:acme");
}

#[test]
fn sponsor_subject_key_trims_and_lowercases_names() {
    assert_eq!(sponsor_subject_key(None, Some("  ÄBC Corp \n")), "name:äbc corp");
    assert_eq!(sponsor_subject_key(None, None), "name:");
    assert_eq!(sponsor_subject_key(Some("SP1"), Some("x")), "token:SP1");
}

// ── Retention ──────────────────────────────────────────────────────────────

#[test]
fn upcoming_retention_preserves_past_events() {
    let all = rows(&[("up1", "upcoming"), ("past1", "past"), ("past2", "past")]);
    // An upcoming refresh that keeps nothing must not touch past rows.
    let plan = retain_plan(&all, "upcoming", &vec![]);
    let left = apply_retain(&all, "upcoming", &plan);
    let kinds: Vec<&str> = left.iter().map(|(_, k)| k.as_str()).collect();
    assert_eq!(kinds.iter().filter(|k| **k == "past").count(), 2, "past events must survive an upcoming retain");
    assert_eq!(kinds.iter().filter(|k| **k == "upcoming").count(), 0, "upcoming events were retained-out");
}

#[test]
fn past_retention_preserves_upcoming_events() {
    let all = rows(&[("up1", "upcoming"), ("past1", "past")]);
    let plan = retain_plan(&all, "past", &vec![]);
    let left = apply_retain(&all, "past", &plan);
    let kinds: Vec<String> = left.iter().map(|(_, k)| k.clone()).collect();
    assert_eq!(kinds, vec!["upcoming".to_string()], "upcoming must survive a past retain");
}

#[test]
fn send_job_retention_is_partition_scoped() {
    let all = rows(&[("ev1", "event"), ("ch1", "chapter")]);
    // A chapter refresh that keeps nothing must not evict the event job.
    let plan = retain_plan(&all, "chapter", &vec![]);
    let left = apply_retain(&all, "chapter", &plan);
    let event_jobs: Vec<&(String, String)> = left.iter().filter(|(_, p)| p == "event").collect();
    assert_eq!(event_jobs.len(), 1, "event-scoped job must survive a chapter retain");
    assert!(left.iter().all(|(t, _)| t != "ch1"), "chapter job was retained-out");
}

#[test]
fn rsvp_row_retention_is_event_scoped() {
    let all = rows(&[("a1", "m1"), ("b1", "m2")]);
    // A refresh of m1 that keeps nothing must not evict m2's row.
    let plan = retain_plan(&all, "m1", &vec![]);
    let left = apply_retain(&all, "m1", &plan);
    assert_eq!(left.iter().filter(|(_, m)| m == "m1").count(), 0);
    assert_eq!(left.iter().filter(|(_, m)| m == "m2").count(), 1, "other event's row must survive");
}

#[test]
fn retain_plan_keeps_returned_keys_in_row_order() {
    let all = rows(&[("a", "s"), ("b", "s"), ("c", "t"), ("d", "s")]);
    let plan = retain_plan(&all, "s", &vec!["b".to_string(), "zz".to_string()]);
    assert_eq!(plan, vec!["a".to_string(), "d".to_string()]);
}

// ── Send jobs ──────────────────────────────────────────────────────────────

/// The cached state of a send job, as the test's stand-in for the table.
struct CachedJob {
    fields: SendJobFields,
    sent_count: Option<u64>,
}

fn upsert(cache: &mut Option<CachedJob>, job: &JsonValue, scope: Option<&str>) {
    let Some(incoming) = send_job_fields(job, scope) else { return };
    let existing = cache.as_ref().map(|c| CachedSendJob {
        done: c.fields.done,
        meetup_token: c.fields.meetup_token.clone(),
        weblog_token: c.fields.weblog_token.clone(),
        content_page_token: c.fields.content_page_token.clone(),
    });
    if let Some(w) = send_job_upsert(existing.as_ref(), incoming) {
        *cache = Some(CachedJob { fields: w, sent_count: field_u64(job, "sent_count") });
    }
}

#[test]
fn completed_send_job_is_frozen() {
    let mut cache: Option<CachedJob> = None;
    let active = obj(vec![("token", st("j1")), ("status", st("sending")), ("sent_count", num(10)), ("done", JsonValue::Bool(false))]);
    upsert(&mut cache, &active, Some("m1"));
    let done = obj(vec![("token", st("j1")), ("status", st("completed")), ("sent_count", num(100)), ("done", JsonValue::Bool(true))]);
    upsert(&mut cache, &done, Some("m1"));
    // A late refresh with a different snapshot must not overwrite a done job.
    let late = obj(vec![("token", st("j1")), ("status", st("sending")), ("sent_count", num(5)), ("done", JsonValue::Bool(false))]);
    upsert(&mut cache, &late, Some("m1"));

    let job = cache.expect("job must be cached");
    assert_eq!(job.fields.status, "completed");
    assert_eq!(job.sent_count, Some(100));
    assert!(job.fields.done);
}

#[test]
fn send_job_fields_read_fallback_names() {
    let job = obj(vec![
        ("send_job_token", st("s9")),
        ("state", st("failed")),
        ("refs", obj(vec![("meetup_token", st("m7")), ("weblog_token", st("w1"))])),
        ("campaign_label", st("Follow-up")),
        ("distribution", st("all")),
        ("predicted_finish", st("soon")),
    ]);
    let f = send_job_fields(&job, Some("scope")).expect("has a token");
    assert_eq!(f.token, "s9");
    assert_eq!(f.status, "failed");
    assert!(f.done, "a terminal status without a done flag means done");
    assert_eq!(f.meetup_token.as_deref(), Some("m7"));
    assert_eq!(f.weblog_token.as_deref(), Some("w1"));
    assert_eq!(f.content_page_token, None);
    assert_eq!(f.subject.as_deref(), Some("Follow-up"));
    assert_eq!(f.distribution_option.as_deref(), Some("all"));
    assert_eq!(f.predicted_finish.as_deref(), Some("soon"));
}

#[test]
fn send_job_without_token_is_skipped_and_scope_fills_the_event() {
    assert!(send_job_fields(&obj(vec![("status", st("sending"))]), Some("m1")).is_none());
    let f = send_job_fields(&obj(vec![("id", st("x1"))]), Some("m1")).unwrap();
    assert_eq!(f.status, "unknown");
    assert!(!f.done);
    assert_eq!(f.meetup_token.as_deref(), Some("m1"));
}

#[test]
fn send_job_upsert_keeps_cached_tokens_when_absent() {
    let incoming = send_job_fields(&obj(vec![("token", st("j2")), ("status", st("sending"))]), None).unwrap();
    let existing = CachedSendJob {
        done: false,
        meetup_token: Some("m1".to_string()),
        weblog_token: Some("w1".to_string()),
        content_page_token: None,
    };
    let w = send_job_upsert(Some(&existing), incoming).expect("an active job is overwritten");
    assert_eq!(w.meetup_token.as_deref(), Some("m1"));
    assert_eq!(w.weblog_token.as_deref(), Some("w1"));
    assert_eq!(w.status, "sending");
}

// ── Multi-source rows ──────────────────────────────────────────────────────

fn slot(data: Option<JsonValue>, status: &str) -> SourceSlot {
    SourceSlot { data, status: status.to_string() }
}

#[test]
fn survey_followup_upsert_and_read_round_trip() {
    let survey = obj(vec![("response_count", num(12)), ("eligible_attendees", num(40))]);
    let email = obj(vec![("sends", num(40)), ("opens", num(18))]);
    let row = survey_followup_upsert(None, Some(slot(Some(survey), "ok")), Some(slot(Some(email), "ok")), "t1");
    assert_eq!(row.survey.status, "ok");
    assert_eq!(row.email.status, "ok");
    assert_eq!(row.survey.data.as_ref().and_then(|s| field_u64(s, "response_count")), Some(12));
    assert_eq!(row.email.data.as_ref().and_then(|e| field_u64(e, "opens")), Some(18));
    assert_eq!(row.updated_at, "t1");
}

#[test]
fn survey_followup_refreshing_one_source_does_not_clobber_the_other() {
    let survey = obj(vec![("response_count", num(5))]);
    // First cycle: only the survey source was fetched.
    let row1: SurveyFollowupRow = survey_followup_upsert(None, Some(slot(Some(survey), "ok")), None, "t1");
    // Second cycle: only the email source was fetched.
    let email = obj(vec![("sends", num(20)), ("opens", num(9))]);
    let row = survey_followup_upsert(Some(&row1), None, Some(slot(Some(email), "ok")), "t2");
    assert_eq!(
        row.survey.data.as_ref().and_then(|s| field_u64(s, "response_count")),
        Some(5),
        "email-only refresh must not clobber the survey source"
    );
    assert_eq!(row.survey.status, "ok");
    assert_eq!(row.email.data.as_ref().and_then(|e| field_u64(e, "sends")), Some(20));
    assert_eq!(row.email.status, "ok");
}

#[test]
fn survey_followup_degradation_flags_persist() {
    let row = survey_followup_upsert(
        None,
        Some(slot(None, "forbidden_api_group")),
        Some(slot(None, "forbidden_scope")),
        "t1",
    );
    assert_eq!(row.survey.status, "forbidden_api_group");
    assert!(row.survey.data.is_none());
    assert_eq!(row.email.status, "forbidden_scope");
    assert!(row.email.data.is_none());

    // A later cycle that only refreshes the survey source (now succeeding)
    // must leave the still-forbidden email status untouched.
    let survey = obj(vec![("response_count", num(3))]);
    let row2 = survey_followup_upsert(Some(&row), Some(slot(Some(survey), "ok")), None, "t2");
    assert_eq!(row2.survey.status, "ok");
    assert_eq!(row2.email.status, "forbidden_scope", "degradation flag for the untouched source must persist");
}

#[test]
fn rsvp_detail_sources_degrade_independently() {
    let assessment = obj(vec![("summary", st("Strong fit"))]);
    let row: RsvpDetailRow = rsvp_detail_upsert(
        None,
        Some(slot(Some(assessment), "ok")),
        None,
        Some(slot(None, "forbidden_scope")),
        "t1",
    );
    assert_eq!(row.assessment.status, "ok");
    assert_eq!(row.history.status, "unavailable", "untouched source stays at its default");
    assert_eq!(row.score.status, "forbidden_scope");

    // A later fetch of only the history source must not clobber the
    // already-fetched assessment or the still-forbidden score.
    let history = obj(vec![("events", JsonValue::Array(vec![obj(vec![("to_status", st("waitlisted"))])]))]);
    let row2 = rsvp_detail_upsert(Some(&row), None, Some(slot(Some(history), "ok")), None, "t2");
    assert_eq!(row2.assessment.status, "ok");
    assert_eq!(row2.history.status, "ok");
    assert_eq!(row2.score.status, "forbidden_scope", "score status must persist untouched");
    assert_eq!(row2.updated_at, "t2");
}

// ── Jobs and drafts ────────────────────────────────────────────────────────

fn job(id: &str, status: &str, started_at: &str) -> JobRow {
    JobRow { id: id.to_string(), status: status.to_string(), started_at: started_at.to_string() }
}

fn new_state() -> JobState {
    JobState { status: "pending".to_string(), error_code: None, draft_id: None }
}

#[test]
fn promotion_job_status_transitions_persist() {
    let mut state = new_state();
    let jobs = vec![job("job1", &state.status, "t1")];
    assert_eq!(state.status, "pending");
    // Duplicate kickoff suppression: a pending job for the same action is found.
    assert_eq!(find_active_job(&jobs).as_deref(), Some("job1"));

    state = set_job_status(&state, "running", None, None);
    assert_eq!(state.status, "running");
    let jobs = vec![job("job1", &state.status, "t1")];
    assert!(find_active_job(&jobs).is_some(), "a running job must still suppress a duplicate kickoff");

    state = set_job_status(&state, "ready", None, None);
    assert_eq!(state.status, "ready");
    assert!(state.error_code.is_none());
    let jobs = vec![job("job1", &state.status, "t1")];
    // Once terminal, the action is no longer considered in-flight.
    assert!(find_active_job(&jobs).is_none());
}

#[test]
fn promotion_job_error_and_timeout_carry_a_code() {
    let s = set_job_status(&new_state(), "timeout", Some("timeout"), None);
    assert_eq!(s.status, "timeout");
    assert_eq!(s.error_code.as_deref(), Some("timeout"));

    let s = set_job_status(&new_state(), "error", Some("forbidden_api_group"), None);
    assert_eq!(s.status, "error");
    assert_eq!(s.error_code.as_deref(), Some("forbidden_api_group"));
}

#[test]
fn sponsor_job_status_transitions_and_duplicate_suppression() {
    let subject = sponsor_subject_key(Some("sp1"), None);
    assert_eq!(subject, "token:sp1");
    let mut state = new_state();
    assert_eq!(state.status, "pending");
    let research = vec![job("job1", &state.status, "t1")];
    assert_eq!(find_active_job(&research).as_deref(), Some("job1"));
    // A different kind for the same subject has no jobs of its own.
    let pitch: Vec<JobRow> = vec![];
    assert!(find_active_job(&pitch).is_none());

    state = set_job_status(&state, "running", None, None);
    assert_eq!(state.status, "running");
    assert!(find_active_job(&vec![job("job1", &state.status, "t1")]).is_some());

    state = set_job_status(&state, "ready", None, Some("d1"));
    assert_eq!(state.status, "ready");
    assert_eq!(state.draft_id.as_deref(), Some("d1"));
    assert!(find_active_job(&vec![job("job1", &state.status, "t1")]).is_none(), "a terminal job must no longer be in-flight");
}

#[test]
fn sponsor_job_error_and_timeout_carry_a_code() {
    let s = set_job_status(&new_state(), "timeout", Some("timeout"), None);
    assert_eq!(s.status, "timeout");
    assert_eq!(s.error_code.as_deref(), Some("timeout"));

    let s = set_job_status(&new_state(), "error", Some("rate_limited"), None);
    assert_eq!(s.status, "error");
    assert_eq!(s.error_code.as_deref(), Some("rate_limited"));
}

#[test]
fn a_later_status_keeps_the_recorded_draft() {
    let s = set_job_status(&new_state(), "ready", None, Some("d1"));
    let s = set_job_status(&s, "cancelled", None, None);
    assert_eq!(s.draft_id.as_deref(), Some("d1"));
}

#[test]
fn the_most_recently_started_in_flight_job_is_found() {
    let jobs = vec![
        job("old", "pending", "2026-01-01T00:00:00Z"),
        job("done", "ready", "2026-03-01T00:00:00Z"),
        job("new", "running", "2026-02-01T00:00:00Z"),
        job("tie", "pending", "2026-02-01T00:00:00Z"),
    ];
    assert_eq!(find_active_job(&jobs).as_deref(), Some("new"));
    assert!(find_active_job(&vec![job("x", "error", "t"), job("y", "timeout", "t")]).is_none());
}

#[test]
fn draft_slots_are_keyed_by_kind_and_platform() {
    assert_eq!(draft_slot_key("event_promo", ""), "event_promo");
    assert_eq!(draft_slot_key("social_post", "linkedin"), "social_post:linkedin");
    assert_eq!(draft_slot_key("social_post", "x"), "social_post:x");
}

// ── Sponsors and contacts ──────────────────────────────────────────────────

#[test]
fn sponsor_rows_keep_match_order_and_skip_tokenless_matches() {
    let matches = vec![
        obj(vec![("sponsor_token", st("sp1")), ("name", st("Acme Robotics")), ("city", st("Denver")), ("domain", st("acme.dev"))]),
        obj(vec![("name", st("No Token Inc"))]),
        obj(vec![("token", st("sp2")), ("company_name", st("Beta Corp")), ("website_url", st("beta.io")), ("description", st("Beta"))]),
    ];
    let out = sponsor_rows(&matches);
    assert_eq!(out.len(), 2);
    assert_eq!(out[0].sponsor_token, "sp1");
    assert_eq!(out[0].name.as_deref(), Some("Acme Robotics"));
    assert_eq!(out[0].domain.as_deref(), Some("acme.dev"));
    assert_eq!(out[0].city.as_deref(), Some("Denver"));
    assert_eq!(out[1].sponsor_token, "sp2");
    assert_eq!(out[1].name.as_deref(), Some("Beta Corp"));
    assert_eq!(out[1].domain.as_deref(), Some("beta.io"));
    assert_eq!(out[1].short_profile.as_deref(), Some("Beta"));
    assert!(sponsor_fields(&obj(vec![("name", st("x"))])).is_none());
}

#[test]
fn contact_masking_is_explicit_or_inferred_from_the_value() {
    let c1 = obj(vec![("contact_id", st("c1")), ("role", st("Marketing")), ("title", st("VP Marketing")), ("email", st("***@acme.dev")), ("linkedin", st("in/x"))]);
    let c2 = obj(vec![("contact_id", st("c2")), ("role", st("Sales")), ("email", st("sales@acme.dev")), ("email_masked", JsonValue::Bool(false))]);
    let f1 = contact_fields(&c1, 0);
    let f2 = contact_fields(&c2, 1);
    // Masking is inferred from the sentinel value when no explicit flag is present.
    assert!(f1.email_masked);
    assert_eq!(f1.email.as_deref(), Some("***@acme.dev"));
    assert_eq!(f1.title.as_deref(), Some("VP Marketing"));
    assert_eq!(f1.linkedin.as_deref(), Some("in/x"));
    assert!(!f1.phone_masked, "an absent value is not masked");
    // An explicit `email_masked: false` is honored.
    assert!(!f2.email_masked);
    let f3 = contact_fields(&obj(vec![("email", st("a@b.c")), ("email_masked", JsonValue::Bool(true))]), 0);
    assert!(f3.email_masked, "an explicit flag wins over the value");
}

#[test]
fn a_contact_without_an_id_is_keyed_by_its_position() {
    let f = contact_fields(&obj(vec![("role", st("New"))]), 12);
    assert_eq!(f.contact_id, "12");
    assert_eq!(f.role.as_deref(), Some("New"));
    let g = contact_fields(&obj(vec![("token", st("t9")), ("phone_number", st("555-**"))]), 3);
    assert_eq!(g.contact_id, "t9");
    assert_eq!(g.phone.as_deref(), Some("555-**"));
    assert!(g.phone_masked);
}

// ── Attendee rows ──────────────────────────────────────────────────────────

#[test]
fn rsvp_row_missing_token_is_skipped() {
    let row = obj(vec![("rsvp", obj(vec![("state", st("attending"))])), ("client", obj(vec![("name", st("No Token"))]))]);
    assert!(rsvp_row_fields(&row).is_none());
}

#[test]
fn rsvp_row_fields_read_a_search_shaped_payload() {
    let row = obj(vec![
        ("rsvp", obj(vec![
            ("rsvp_token", st("rsvp1")),
            ("state", st("waitlisted")),
            ("registrant_status", st("waitlisted")),
            ("registrant_status_label", st("Waitlisted")),
            ("registrant_status_text", st("You're on the waitlist")),
            ("checked_in", JsonValue::Bool(false)),
        ])),
        ("client", obj(vec![("name", st("Jane Smith")), ("email", st("jane@example.com"))])),
    ]);
    let f = rsvp_row_fields(&row).expect("row has a token");
    assert_eq!(f.rsvp_ref, "rsvp1");
    assert_eq!(f.state, "waitlisted");
    assert_eq!(f.registrant_status_label.as_deref(), Some("Waitlisted"));
    assert_eq!(f.registrant_status_text.as_deref(), Some("You're on the waitlist"));
    assert_eq!(f.name.as_deref(), Some("Jane Smith"));
    assert_eq!(f.email.as_deref(), Some("jane@example.com"));
    assert!(!f.checked_in);
}

#[test]
fn rsvp_row_fields_fall_back_to_the_flat_payload() {
    let row = obj(vec![("token", st("r2")), ("name", st("Flat")), ("checked_in", JsonValue::Bool(true))]);
    let f = rsvp_row_fields(&row).unwrap();
    assert_eq!(f.rsvp_ref, "r2");
    assert_eq!(f.name.as_deref(), Some("Flat"));
    assert_eq!(f.state, "unknown");
    assert!(f.checked_in);
}

// ── Event detail ───────────────────────────────────────────────────────────

#[test]
fn the_event_detail_carries_its_kind_and_cached_sections() {
    let ev = obj(vec![("meetup_token", st("m1")), ("kind", st("stale")), ("title", st("Demo"))]);
    let perf = obj(vec![("unavailable", JsonValue::Bool(false))]);
    let d = event_detail(ev, "past", Some(perf), None, Some(obj(vec![("total_count", num(3))])), None);
    assert!(matches!(d.get("kind"), Some(JsonValue::Str(k)) if k == "past"));
    assert!(matches!(d.get("title"), Some(JsonValue::Str(t)) if t == "Demo"));
    assert!(matches!(d.get("performance").and_then(|p| p.get("unavailable")), Some(JsonValue::Bool(false))));
    assert!(matches!(d.get("awaiting_payment"), Some(JsonValue::Null)));
    assert_eq!(d.get("rsvp_summary").and_then(|v| field_u64(v, "total_count")), Some(3));
    assert!(matches!(d.get("content_page"), Some(JsonValue::Null)));
    // The stale kind is replaced, not duplicated.
    match &d {
        JsonValue::Object(fs) => assert_eq!(fs.iter().filter(|(k, _)| k == "kind").count(), 1),
        _ => panic!("not an object"),
    }
}

#[test]
fn an_unreadable_event_stays_as_it_is() {
    let d = event_detail(JsonValue::Null, "upcoming", None, None, None, None);
    assert!(matches!(d, JsonValue::Null));
}

// ── Throughput ─────────────────────────────────────────────────────────────

#[test]
fn a_finished_send_is_frozen() {
    assert!(throughput_write_allowed(None));
    assert!(throughput_write_allowed(Some(false)));
    assert!(!throughput_write_allowed(Some(true)));
}
