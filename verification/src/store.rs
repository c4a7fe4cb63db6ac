//! Row rules of the local cache: which cached rows a refresh evicts, which
//! columns an upsert writes and which it keeps, how a row is read out of a
//! loosely shaped API payload, and which in-flight job blocks a new one.
//! Executing the statements against the database is the caller's part.
use vstd::prelude::*;

use crate::json::{get_bool, get_spec, get_str, items_view, pick_str, pick_str_spec, Json, JsonValue};
use crate::api::{opt_json_view, opt_str_view, set_key, set_key_exec};
use crate::sync::opt_string_view;
use crate::text::{lowercase, owned, trim};

verus! {

broadcast use vstd::std_specs::vec::group_vec_axioms;

// ---------------------------------------------------------------------------
// Sponsor subjects.
// ---------------------------------------------------------------------------

/// The key that ties sponsor jobs and drafts to a subject: `token:` and the
/// sponsor token when one is given and non-empty, else `name:` and the
/// trimmed, lowercased company name (`""` when absent).
pub open spec fn sponsor_subject_key_spec(
    sponsor_token: Option<Seq<char>>,
    name: Option<Seq<char>>,
) -> Seq<char> {
    match sponsor_token {
        Some(t) if t.len() > 0 => "token:"@ + t,
        _ => "name:"@ + lowercase(
            trim(
                match name {
                    Some(n) => n,
                    None => Seq::empty(),
                },
            ),
        ),
    }
}

/// Builds the subject key of a sponsor job or draft.
pub fn sponsor_subject_key(sponsor_token: Option<&str>, name: Option<&str>) -> (r: String)
    ensures
        r@ == sponsor_subject_key_spec(opt_str_view(sponsor_token), opt_str_view(name)),
{
    proof {
        reveal_strlit("");
        assert(""@ =~= Seq::<char>::empty());
    }
    match sponsor_token {
        Some(t) => {
            let cs = crate::text::chars_of(t);
            if cs.len() > 0 {
                return crate::text::concat("token:", t);
            }
        },
        None => {},
    }
    let n = match name {
        Some(n) => n,
        None => "",
    };
    let cs = crate::text::chars_of(n);
    let trimmed = crate::text::trim_chars(cs.as_slice());
    let ts = crate::text::string_of(trimmed.as_slice());
    let lower = crate::text::to_lowercase(ts.as_str());
    crate::text::concat("name:", lower.as_str())
}

/// A subject keyed by a sponsor token never shares its key with a subject
/// keyed by a company name, whatever the name is.
pub proof fn lemma_subject_keys_distinguish_token_and_name(
    token: Seq<char>,
    name: Option<Seq<char>>,
    other_name: Option<Seq<char>>,
)
    requires
        token.len() > 0,
    ensures
        sponsor_subject_key_spec(Some(token), name) != sponsor_subject_key_spec(None, other_name),
        sponsor_subject_key_spec(Some(token), name) != sponsor_subject_key_spec(
            Some(Seq::empty()),
            other_name,
        ),
{
    reveal_strlit("token:");
    reveal_strlit("name:");
    let a = sponsor_subject_key_spec(Some(token), name);
    let b = sponsor_subject_key_spec(None, other_name);
    let c = sponsor_subject_key_spec(Some(Seq::empty()), other_name);
    assert(a[0] == 't');
    assert(b[0] == 'n');
    assert(c[0] == 'n');
}

// ---------------------------------------------------------------------------
// Retention: evicting rows a refresh no longer returned.
// ---------------------------------------------------------------------------

/// A cached row as retention sees it: its key and the scope it was cached
/// under (an event's kind, a send job's partition, an RSVP's event).
pub open spec fn row_view(row: (String, String)) -> (Seq<char>, Seq<char>) {
    (row.0@, row.1@)
}

pub open spec fn rows_view(rows: Seq<(String, String)>) -> Seq<(Seq<char>, Seq<char>)> {
    rows.map_values(|r: (String, String)| row_view(r))
}

pub open spec fn strings_view(keep: Seq<String>) -> Seq<Seq<char>> {
    keep.map_values(|k: String| k@)
}

/// A refresh of `scope` that returned `keep` evicts this row: it belongs to
/// that scope and its key was not returned.
pub open spec fn evicted(row: (Seq<char>, Seq<char>), scope: Seq<char>, keep: Seq<Seq<char>>) -> bool {
    row.1 == scope && !keep.contains(row.0)
}

/// The keys of the rows, in order, that a refresh of `scope` evicts.
pub open spec fn retain_plan_spec(
    rows: Seq<(Seq<char>, Seq<char>)>,
    scope: Seq<char>,
    keep: Seq<Seq<char>>,
) -> Seq<Seq<char>>
    decreases rows.len(),
{
    if rows.len() == 0 {
        Seq::empty()
    } else {
        let rest = retain_plan_spec(rows.drop_last(), scope, keep);
        if evicted(rows.last(), scope, keep) {
            rest.push(rows.last().0)
        } else {
            rest
        }
    }
}

/// What remains of the rows once the plan's keys are deleted within
/// `scope` (each deletion names both the key and the scope).
pub open spec fn after_retain(
    rows: Seq<(Seq<char>, Seq<char>)>,
    scope: Seq<char>,
    plan: Seq<Seq<char>>,
) -> Seq<(Seq<char>, Seq<char>)> {
    rows.filter(|r: (Seq<char>, Seq<char>)| !(r.1 == scope && plan.contains(r.0)))
}

proof fn lemma_retain_plan_members(
    rows: Seq<(Seq<char>, Seq<char>)>,
    scope: Seq<char>,
    keep: Seq<Seq<char>>,
    k: Seq<char>,
)
    ensures
        retain_plan_spec(rows, scope, keep).contains(k) <==> (exists|i: int|
            0 <= i < rows.len() && rows[i].0 == k && evicted(#[trigger] rows[i], scope, keep)),
    decreases rows.len(),
{
    if rows.len() > 0 {
        let init = rows.drop_last();
        lemma_retain_plan_members(init, scope, keep, k);
        let rest = retain_plan_spec(init, scope, keep);
        if evicted(rows.last(), scope, keep) {
            assert(rest.push(rows.last().0).contains(k) <==> (rest.contains(k) || rows.last().0
                == k)) by {
                if rest.push(rows.last().0).contains(k) {
                    let j = choose|j: int|
                        0 <= j < rest.push(rows.last().0).len() && rest.push(rows.last().0)[j]
                            == k;
                    if j < rest.len() {
                        assert(rest[j] == k);
                    }
                }
                if rest.contains(k) {
                    let j = choose|j: int| 0 <= j < rest.len() && rest[j] == k;
                    assert(rest.push(rows.last().0)[j] == k);
                }
                if rows.last().0 == k {
                    assert(rest.push(rows.last().0)[rest.len() as int] == k);
                }
            }
        }
        if exists|i: int| 0 <= i < rows.len() && rows[i].0 == k && evicted(#[trigger] rows[i], scope, keep) {
            let i = choose|i: int|
                0 <= i < rows.len() && rows[i].0 == k && evicted(#[trigger] rows[i], scope, keep);
            if i < rows.len() - 1 {
                assert(init[i] == rows[i]);
            }
        }
        if exists|i: int| 0 <= i < init.len() && init[i].0 == k && evicted(#[trigger] init[i], scope, keep) {
            let i = choose|i: int|
                0 <= i < init.len() && init[i].0 == k && evicted(#[trigger] init[i], scope, keep);
            assert(rows[i] == init[i]);
        }
    }
}

/// The rows a refresh of `scope` that returned `keep` leaves: those of other
/// scopes, and those of `scope` whose key was returned, in order.
pub open spec fn retained_rows(
    rows: Seq<(Seq<char>, Seq<char>)>,
    scope: Seq<char>,
    keep: Seq<Seq<char>>,
) -> Seq<(Seq<char>, Seq<char>)> {
    rows.filter(|r: (Seq<char>, Seq<char>)| r.1 != scope || keep.contains(r.0))
}

proof fn lemma_after_retain_is_retained(
    rows: Seq<(Seq<char>, Seq<char>)>,
    scope: Seq<char>,
    keep: Seq<Seq<char>>,
    plan: Seq<Seq<char>>,
)
    requires
        forall|k: int|
            0 <= k < rows.len() ==> ((#[trigger] rows[k]).1 == scope && plan.contains(rows[k].0)
                <==> evicted(rows[k], scope, keep)),
    ensures
        after_retain(rows, scope, plan) == retained_rows(rows, scope, keep),
    decreases rows.len(),
{
    reveal(Seq::filter);
    if rows.len() > 0 {
        let init = rows.drop_last();
        assert forall|k: int| 0 <= k < init.len() implies ((#[trigger] init[k]).1 == scope
            && plan.contains(init[k].0) <==> evicted(init[k], scope, keep)) by {
            assert(init[k] == rows[k]);
        }
        lemma_after_retain_is_retained(init, scope, keep, plan);
        assert(rows.last() == rows[rows.len() - 1]);
    }
}

/// Retention is scoped: deleting a refresh's plan within its scope leaves
/// exactly the rows of other scopes and the rows of the refreshed scope
/// whose key was returned, each unchanged and in order.
pub proof fn lemma_retain_is_scoped(
    rows: Seq<(Seq<char>, Seq<char>)>,
    scope: Seq<char>,
    keep: Seq<Seq<char>>,
)
    ensures
        after_retain(rows, scope, retain_plan_spec(rows, scope, keep)) == retained_rows(
            rows,
            scope,
            keep,
        ),
{
    let plan = retain_plan_spec(rows, scope, keep);
    assert forall|k: int| 0 <= k < rows.len() implies ((#[trigger] rows[k]).1 == scope
        && plan.contains(rows[k].0) <==> evicted(rows[k], scope, keep)) by {
        lemma_retain_plan_members(rows, scope, keep, rows[k].0);
        if rows[k].1 == scope && plan.contains(rows[k].0) {
            let j = choose|j: int|
                0 <= j < rows.len() && rows[j].0 == rows[k].0 && evicted(
                    #[trigger] rows[j],
                    scope,
                    keep,
                );
            assert(!keep.contains(rows[k].0));
        }
    }
    lemma_after_retain_is_retained(rows, scope, keep, plan);
}

/// The keys a refresh of `scope` that returned `keep` evicts, in the order
/// of `rows`; the caller deletes each within `scope`.
pub fn retain_plan(rows: &Vec<(String, String)>, scope: &str, keep: &Vec<String>) -> (r: Vec<String>)
    ensures
        strings_view(r@) == retain_plan_spec(rows_view(rows@), scope@, strings_view(keep@)),
{
    let ghost rv = rows_view(rows@);
    let ghost kv = strings_view(keep@);
    let mut out: Vec<String> = Vec::new();
    let mut i: usize = 0;
    while i < rows.len()
        invariant
            rv == rows_view(rows@),
            kv == strings_view(keep@),
            0 <= i <= rows@.len(),
            strings_view(out@) == retain_plan_spec(rv.subrange(0, i as int), scope@, kv),
        decreases rows.len() - i,
    {
        let key = &rows[i].0;
        let sc = &rows[i].1;
        let mut kept = false;
        let mut j: usize = 0;
        while j < keep.len()
            invariant
                kv == strings_view(keep@),
                0 <= j <= keep@.len(),
                kept <==> kv.subrange(0, j as int).contains(key@),
            decreases keep.len() - j,
        {
            if crate::text::str_eq(keep[j].as_str(), key.as_str()) {
                kept = true;
            }
            proof {
                let s0 = kv.subrange(0, j as int);
                let s1 = kv.subrange(0, j + 1);
                assert(s1 =~= s0.push(kv[j as int]));
                if s1.contains(key@) {
                    let m = choose|m: int| 0 <= m < s1.len() && s1[m] == key@;
                    if m < j {
                        assert(s0[m] == key@);
                    }
                }
                if s0.contains(key@) {
                    let m = choose|m: int| 0 <= m < s0.len() && s0[m] == key@;
                    assert(s1[m] == key@);
                }
                if kv[j as int] == key@ {
                    assert(s1[j as int] == key@);
                }
            }
            j = j + 1;
        }
        proof {
            assert(kv.subrange(0, keep@.len() as int) =~= kv);
            assert(rv.subrange(0, i + 1).drop_last() =~= rv.subrange(0, i as int));
            assert(rv.subrange(0, i + 1).last() == rv[i as int]);
            assert(rv[i as int] == (key@, sc@));
        }
        if !kept && crate::text::str_eq(sc.as_str(), scope) {
            out.push(key.clone());
            proof {
                assert(strings_view(out@) =~= retain_plan_spec(rv.subrange(0, i as int), scope@, kv).push(
                    key@,
                ));
            }
        }
        i = i + 1;
    }
    proof {
        assert(rv.subrange(0, rows@.len() as int) =~= rv);
    }
    out
}

// ---------------------------------------------------------------------------
// Email send jobs.
// ---------------------------------------------------------------------------

/// The columns of a cached send job that are read out of a job payload as
/// text or flags (the numeric columns are read by the caller).
pub struct SendJobFields {
    pub token: String,
    pub status: String,
    pub done: bool,
    pub meetup_token: Option<String>,
    pub weblog_token: Option<String>,
    pub content_page_token: Option<String>,
    pub subject: Option<String>,
    pub distribution_option: Option<String>,
    pub predicted_finish: Option<String>,
}

/// What the cache already holds for a send job that the upsert consults.
pub struct CachedSendJob {
    pub done: bool,
    pub meetup_token: Option<String>,
    pub weblog_token: Option<String>,
    pub content_page_token: Option<String>,
}

pub open spec fn names2(a: Seq<char>, b: Seq<char>) -> Seq<Seq<char>> {
    seq![a].push(b)
}

pub open spec fn names3(a: Seq<char>, b: Seq<char>, c: Seq<char>) -> Seq<Seq<char>> {
    seq![a].push(b).push(c)
}

pub open spec fn or_else(o: Option<Seq<char>>, d: Option<Seq<char>>) -> Option<Seq<char>> {
    match o {
        Some(s) => Some(s),
        None => d,
    }
}

/// A string field of a payload, else the same field of its `refs` object.
pub open spec fn ref_str(job: Json, key: Seq<char>) -> Option<Seq<char>> {
    or_else(
        get_str(job, key),
        match get_spec(job, "refs"@) {
            Some(refs) => get_str(refs, key),
            None => None,
        },
    )
}

/// A job's status: `status`, else `state`, else `unknown`.
pub open spec fn send_job_status(job: Json) -> Seq<char> {
    match pick_str_spec(job, names2("status"@, "state"@)) {
        Some(s) => s,
        None => "unknown"@,
    }
}

/// A status after which a send job no longer changes.
pub open spec fn is_terminal_send_status(s: Seq<char>) -> bool {
    s == "completed"@ || s == "failed"@ || s == "cancelled"@
}

/// A job is done when its `done` flag says so, or, without a flag, when its
/// status is terminal.
pub open spec fn send_job_done(job: Json) -> bool {
    match get_bool(job, "done"@) {
        Some(b) => b,
        None => is_terminal_send_status(send_job_status(job)),
    }
}

pub open spec fn send_job_token(job: Json) -> Option<Seq<char>> {
    pick_str_spec(job, names3("token"@, "send_job_token"@, "id"@))
}

/// A job payload's `done` flag decides when it has one; without one, the job
/// is done exactly when its status is completed, failed or cancelled.
pub proof fn lemma_send_job_done_by_status(job: Json)
    ensures
        match get_bool(job, "done"@) {
            Some(b) => send_job_done(job) == b,
            None => send_job_done(job) == (send_job_status(job) == "completed"@
                || send_job_status(job) == "failed"@ || send_job_status(job) == "cancelled"@),
        },
{
}

/// The fields read out of a job payload; `scope` is the event the caller
/// fetched the job for, used when the payload names none.
pub open spec fn send_job_fields_spec(job: Json, scope: Option<Seq<char>>, f: SendJobFields) -> bool {
    &&& send_job_token(job) == Some(f.token@)
    &&& f.status@ == send_job_status(job)
    &&& f.done == send_job_done(job)
    &&& opt_string_view(f.meetup_token) == or_else(ref_str(job, "meetup_token"@), scope)
    &&& opt_string_view(f.weblog_token) == ref_str(job, "weblog_token"@)
    &&& opt_string_view(f.content_page_token) == ref_str(job, "content_page_token"@)
    &&& opt_string_view(f.subject) == pick_str_spec(
        job,
        names3("subject"@, "campaign_label"@, "title"@),
    )
    &&& opt_string_view(f.distribution_option) == pick_str_spec(
        job,
        names2("distribution_option"@, "distribution"@),
    )
    &&& opt_string_view(f.predicted_finish) == pick_str_spec(
        job,
        names2("predicted_finish_at"@, "predicted_finish"@),
    )
}

fn own_opt(o: Option<&str>) -> (r: Option<String>)
    ensures
        opt_string_view(r) == opt_str_view(o),
{
    match o {
        Some(s) => Some(crate::text::owned(s)),
        None => None,
    }
}

fn ref_str_of<'a>(job: &'a JsonValue, key: &str) -> (r: Option<&'a str>)
    ensures
        opt_str_view(r) == ref_str(job@, key@),
{
    match job.get_str(key) {
        Some(s) => Some(s),
        None => match job.get("refs") {
            Some(refs) => refs.get_str(key),
            None => None,
        },
    }
}

/// Reads a send job's text columns out of its payload; `None` when the
/// payload carries no token (such a job is not cached).
pub fn send_job_fields(job: &JsonValue, scope: Option<&str>) -> (r: Option<SendJobFields>)
    ensures
        match r {
            None => send_job_token(job@) is None,
            Some(f) => send_job_fields_spec(job@, opt_str_view(scope), f),
        },
        match r {
            Some(f) => match get_bool(job@, "done"@) {
                Some(b) => f.done == b,
                None => f.done == (f.status@ == "completed"@ || f.status@ == "failed"@ || f.status@
                    == "cancelled"@),
            },
            None => true,
        },
{
    proof {
        reveal_strlit("completed");
        reveal_strlit("failed");
        reveal_strlit("cancelled");
        reveal_strlit("unknown");
    }
    let token_names: [&str; 3] = ["token", "send_job_token", "id"];
    let status_names: [&str; 2] = ["status", "state"];
    let subject_names: [&str; 3] = ["subject", "campaign_label", "title"];
    let dist_names: [&str; 2] = ["distribution_option", "distribution"];
    let pred_names: [&str; 2] = ["predicted_finish_at", "predicted_finish"];
    proof {
        assert(crate::json::names_view(token_names@) =~= names3(
            "token"@,
            "send_job_token"@,
            "id"@,
        ));
        assert(crate::json::names_view(status_names@) =~= names2("status"@, "state"@));
        assert(crate::json::names_view(subject_names@) =~= names3(
            "subject"@,
            "campaign_label"@,
            "title"@,
        ));
        assert(crate::json::names_view(dist_names@) =~= names2(
            "distribution_option"@,
            "distribution"@,
        ));
        assert(crate::json::names_view(pred_names@) =~= names2(
            "predicted_finish_at"@,
            "predicted_finish"@,
        ));
    }
    let token = match pick_str(job, &token_names) {
        Some(t) => t,
        None => {
            return None;
        },
    };
    let status = match pick_str(job, &status_names) {
        Some(s) => s,
        None => "unknown",
    };
    let done = match job.get_bool("done") {
        Some(b) => b,
        None => crate::text::str_eq(status, "completed") || crate::text::str_eq(status, "failed")
            || crate::text::str_eq(status, "cancelled"),
    };
    let meetup = match ref_str_of(job, "meetup_token") {
        Some(m) => Some(m),
        None => scope,
    };
    Some(
        SendJobFields {
            token: crate::text::owned(token),
            status: crate::text::owned(status),
            done,
            meetup_token: own_opt(meetup),
            weblog_token: own_opt(ref_str_of(job, "weblog_token")),
            content_page_token: own_opt(ref_str_of(job, "content_page_token")),
            subject: own_opt(pick_str(job, &subject_names)),
            distribution_option: own_opt(pick_str(job, &dist_names)),
            predicted_finish: own_opt(pick_str(job, &pred_names)),
        },
    )
}

pub open spec fn coalesce(new: Option<Seq<char>>, old: Option<Seq<char>>) -> Option<Seq<char>> {
    or_else(new, old)
}

fn coalesce_string(new: Option<String>, old: &Option<String>) -> (r: Option<String>)
    ensures
        opt_string_view(r) == coalesce(opt_string_view(new), opt_string_view(*old)),
{
    match new {
        Some(s) => Some(s),
        None => match old {
            Some(o) => Some(o.clone()),
            None => None,
        },
    }
}

/// The row an upsert of `incoming` writes, or `None` when it writes nothing.
/// A job the cache already holds as done is frozen: no later snapshot
/// overwrites it. Otherwise every column takes the incoming value, except
/// the event, weblog and content-page tokens, which keep their cached value
/// when the incoming one is absent.
pub fn send_job_upsert(existing: Option<&CachedSendJob>, incoming: SendJobFields) -> (r: Option<
    SendJobFields,
>)
    ensures
        match existing {
            None => r == Some(incoming),
            Some(e) => if e.done {
                r is None
            } else {
                r matches Some(w) && w.token == incoming.token && w.status == incoming.status
                    && w.done == incoming.done && w.subject == incoming.subject
                    && w.distribution_option == incoming.distribution_option && w.predicted_finish
                    == incoming.predicted_finish && opt_string_view(w.meetup_token) == coalesce(
                    opt_string_view(incoming.meetup_token),
                    opt_string_view(e.meetup_token),
                ) && opt_string_view(w.weblog_token) == coalesce(
                    opt_string_view(incoming.weblog_token),
                    opt_string_view(e.weblog_token),
                ) && opt_string_view(w.content_page_token) == coalesce(
                    opt_string_view(incoming.content_page_token),
                    opt_string_view(e.content_page_token),
                )
            },
        },
{
    match existing {
        None => Some(incoming),
        Some(e) => {
            if e.done {
                None
            } else {
                let SendJobFields {
                    token,
                    status,
                    done,
                    meetup_token,
                    weblog_token,
                    content_page_token,
                    subject,
                    distribution_option,
                    predicted_finish,
                } = incoming;
                Some(
                    SendJobFields {
                        token,
                        status,
                        done,
                        meetup_token: coalesce_string(meetup_token, &e.meetup_token),
                        weblog_token: coalesce_string(weblog_token, &e.weblog_token),
                        content_page_token: coalesce_string(
                            content_page_token,
                            &e.content_page_token,
                        ),
                        subject,
                        distribution_option,
                        predicted_finish,
                    },
                )
            }
        },
    }
}

// ---------------------------------------------------------------------------
// Rows fed by several independent sources.
// ---------------------------------------------------------------------------

/// One source of a multi-source row: the payload it last returned (absent
/// when it failed) and its status (`ok`, a degradation code, or
/// `unavailable` when it was never fetched).
pub struct SourceSlot {
    pub data: Option<JsonValue>,
    pub status: String,
}

pub open spec fn slot_view(s: SourceSlot) -> (Option<Json>, Seq<char>) {
    (opt_json_view(s.data), s.status@)
}

/// A source that has never been fetched.
pub open spec fn unfetched_slot() -> (Option<Json>, Seq<char>) {
    (None, "unavailable"@)
}

/// The slot an upsert leaves: the update when this cycle fetched the
/// source, else what the row held, else the unfetched default.
pub open spec fn merged_slot(
    existing: Option<(Option<Json>, Seq<char>)>,
    update: Option<(Option<Json>, Seq<char>)>,
) -> (Option<Json>, Seq<char>) {
    match update {
        Some(u) => u,
        None => match existing {
            Some(e) => e,
            None => unfetched_slot(),
        },
    }
}

pub open spec fn opt_slot_view(o: Option<SourceSlot>) -> Option<(Option<Json>, Seq<char>)> {
    match o {
        Some(s) => Some(slot_view(s)),
        None => None,
    }
}

fn dup_slot(s: &SourceSlot) -> (r: SourceSlot)
    ensures
        slot_view(r) == slot_view(*s),
{
    SourceSlot {
        data: match &s.data {
            Some(v) => Some(v.dup()),
            None => None,
        },
        status: s.status.clone(),
    }
}

fn merge_slot(existing: Option<&SourceSlot>, update: Option<SourceSlot>) -> (r: SourceSlot)
    ensures
        slot_view(r) == merged_slot(
            match existing {
                Some(e) => Some(slot_view(*e)),
                None => None,
            },
            opt_slot_view(update),
        ),
{
    proof {
        reveal_strlit("unavailable");
    }
    match update {
        Some(u) => u,
        None => match existing {
            Some(e) => dup_slot(e),
            None => SourceSlot { data: None, status: crate::text::owned("unavailable") },
        },
    }
}

/// The survey and follow-up-email sources of one event.
pub struct SurveyFollowupRow {
    pub survey: SourceSlot,
    pub email: SourceSlot,
    pub updated_at: String,
}

/// The row an upsert writes for an event's survey and follow-up sources.
/// A source this cycle did not fetch (`None`) keeps what the row held, so
/// refreshing one source never clobbers the other.
pub fn survey_followup_upsert(
    existing: Option<&SurveyFollowupRow>,
    survey_update: Option<SourceSlot>,
    email_update: Option<SourceSlot>,
    now: &str,
) -> (r: SurveyFollowupRow)
    ensures
        slot_view(r.survey) == merged_slot(
            match existing {
                Some(e) => Some(slot_view(e.survey)),
                None => None,
            },
            opt_slot_view(survey_update),
        ),
        slot_view(r.email) == merged_slot(
            match existing {
                Some(e) => Some(slot_view(e.email)),
                None => None,
            },
            opt_slot_view(email_update),
        ),
        r.updated_at@ == now@,
{
    let survey = merge_slot(
        match existing {
            Some(e) => Some(&e.survey),
            None => None,
        },
        survey_update,
    );
    let email = merge_slot(
        match existing {
            Some(e) => Some(&e.email),
            None => None,
        },
        email_update,
    );
    SurveyFollowupRow { survey, email, updated_at: crate::text::owned(now) }
}

/// The three screening sources of one registrant: the assessment, the
/// status history and the score.
pub struct RsvpDetailRow {
    pub assessment: SourceSlot,
    pub history: SourceSlot,
    pub score: SourceSlot,
    pub updated_at: String,
}

/// The row an upsert writes for a registrant's screening sources; each
/// source this cycle did not fetch keeps what the row held.
pub fn rsvp_detail_upsert(
    existing: Option<&RsvpDetailRow>,
    assessment: Option<SourceSlot>,
    history: Option<SourceSlot>,
    score: Option<SourceSlot>,
    now: &str,
) -> (r: RsvpDetailRow)
    ensures
        slot_view(r.assessment) == merged_slot(
            match existing {
                Some(e) => Some(slot_view(e.assessment)),
                None => None,
            },
            opt_slot_view(assessment),
        ),
        slot_view(r.history) == merged_slot(
            match existing {
                Some(e) => Some(slot_view(e.history)),
                None => None,
            },
            opt_slot_view(history),
        ),
        slot_view(r.score) == merged_slot(
            match existing {
                Some(e) => Some(slot_view(e.score)),
                None => None,
            },
            opt_slot_view(score),
        ),
        r.updated_at@ == now@,
{
    let a = merge_slot(
        match existing {
            Some(e) => Some(&e.assessment),
            None => None,
        },
        assessment,
    );
    let h = merge_slot(
        match existing {
            Some(e) => Some(&e.history),
            None => None,
        },
        history,
    );
    let s = merge_slot(
        match existing {
            Some(e) => Some(&e.score),
            None => None,
        },
        score,
    );
    RsvpDetailRow { assessment: a, history: h, score: s, updated_at: crate::text::owned(now) }
}

/// Refreshing one source never clobbers another: a source left out of an
/// upsert reads back as the row held it before, and a source fetched in it
/// reads back as fetched.
pub proof fn lemma_untouched_source_persists(
    before: (Option<Json>, Seq<char>),
    update: Option<(Option<Json>, Seq<char>)>,
)
    ensures
        update is None ==> merged_slot(Some(before), update) == before,
        update matches Some(u) ==> merged_slot(Some(before), update) == u,
{
}

// ---------------------------------------------------------------------------
// Generation jobs and drafts.
// ---------------------------------------------------------------------------

/// The key a promotion draft is listed under: its kind, or `kind:platform`
/// for a per-platform kind.
pub open spec fn draft_slot_key_spec(kind: Seq<char>, platform: Seq<char>) -> Seq<char> {
    if platform.len() == 0 {
        kind
    } else {
        kind + ":"@ + platform
    }
}

pub fn draft_slot_key(kind: &str, platform: &str) -> (r: String)
    ensures
        r@ == draft_slot_key_spec(kind@, platform@),
{
    let cs = crate::text::chars_of(platform);
    if cs.len() == 0 {
        crate::text::owned(kind)
    } else {
        let mut s = crate::text::concat(kind, ":");
        crate::text::push_str(&mut s, platform);
        s
    }
}

/// A generation job that is still in flight blocks a duplicate kickoff.
pub open spec fn is_in_flight(status: Seq<char>) -> bool {
    status == "pending"@ || status == "running"@
}

/// A cached generation job, as the duplicate check reads it.
pub struct JobRow {
    pub id: String,
    pub status: String,
    pub started_at: String,
}

pub open spec fn job_rows_view(jobs: Seq<JobRow>) -> Seq<(Seq<char>, Seq<char>, Seq<char>)> {
    jobs.map_values(|j: JobRow| (j.id@, j.status@, j.started_at@))
}

/// `jobs[i]` is the in-flight job a kickoff finds for its action: in flight,
/// started no earlier than any other in-flight job, and the first listed
/// among those started at the same time.
pub open spec fn is_active_index(jobs: Seq<(Seq<char>, Seq<char>, Seq<char>)>, i: int) -> bool {
    &&& 0 <= i < jobs.len()
    &&& is_in_flight(jobs[i].1)
    &&& forall|j: int|
        0 <= j < jobs.len() && is_in_flight(#[trigger] jobs[j].1) ==> !crate::text::chars_lt(
            jobs[i].2,
            jobs[j].2,
        )
    &&& forall|j: int| 0 <= j < i && is_in_flight(#[trigger] jobs[j].1) ==> jobs[j].2 != jobs[i].2
}

fn in_flight(status: &str) -> (r: bool)
    ensures
        r == is_in_flight(status@),
{
    crate::text::str_eq(status, "pending") || crate::text::str_eq(status, "running")
}

/// The id of the in-flight job among one action's cached jobs, most
/// recently started first; `None` when every job has finished. A job in a
/// terminal state never blocks a kickoff.
pub fn find_active_job(jobs: &Vec<JobRow>) -> (r: Option<String>)
    ensures
        r is None <==> (forall|j: int|
            0 <= j < jobs@.len() ==> !is_in_flight(#[trigger] jobs@[j].status@)),
        r matches Some(id) ==> exists|i: int|
            is_active_index(job_rows_view(jobs@), i) && id@ == jobs@[i].id@,
{
    let ghost view = job_rows_view(jobs@);
    let mut best: Option<usize> = None;
    let mut i: usize = 0;
    while i < jobs.len()
        invariant
            view == job_rows_view(jobs@),
            view.len() == jobs@.len(),
            0 <= i <= jobs@.len(),
            match best {
                None => forall|j: int| 0 <= j < i ==> !is_in_flight(#[trigger] view[j].1),
                Some(b) => {
                    &&& b < i
                    &&& is_in_flight(view[b as int].1)
                    &&& forall|j: int|
                        0 <= j < i && is_in_flight(#[trigger] view[j].1) ==> !crate::text::chars_lt(
                            view[b as int].2,
                            view[j].2,
                        )
                    &&& forall|j: int|
                        0 <= j < b && is_in_flight(#[trigger] view[j].1) ==> view[j].2 != view[b as int].2
                },
            },
        decreases jobs.len() - i,
    {
        assert(view[i as int] == (jobs@[i as int].id@, jobs@[i as int].status@, jobs@[i as int].started_at@));
        if in_flight(jobs[i].status.as_str()) {
            match best {
                None => {
                    proof {
                        crate::text::lemma_chars_lt_irreflexive(view[i as int].2);
                    }
                    best = Some(i);
                },
                Some(b) => {
                    assert(view[b as int] == (jobs@[b as int].id@, jobs@[b as int].status@, jobs@[b as int].started_at@));
                    if crate::text::str_lt(jobs[b].started_at.as_str(), jobs[i].started_at.as_str()) {
                        proof {
                            let old_b = b as int;
                            crate::text::lemma_chars_lt_irreflexive(view[i as int].2);
                            assert forall|j: int|
                                0 <= j < i + 1 && is_in_flight(#[trigger] view[j].1) implies !crate::text::chars_lt(
                                view[i as int].2,
                                view[j].2,
                            ) by {
                                if j < i && crate::text::chars_lt(view[i as int].2, view[j].2) {
                                    crate::text::lemma_chars_lt_transitive(
                                        view[old_b].2,
                                        view[i as int].2,
                                        view[j].2,
                                    );
                                }
                            }
                            assert forall|j: int|
                                0 <= j < i && is_in_flight(#[trigger] view[j].1) implies view[j].2
                                != view[i as int].2 by {
                                if view[j].2 == view[i as int].2 {
                                    assert(!crate::text::chars_lt(view[old_b].2, view[j].2));
                                }
                            }
                        }
                        best = Some(i);
                    }
                },
            }
        }
        i = i + 1;
    }
    match best {
        None => {
            proof {
                assert forall|j: int| 0 <= j < jobs@.len() implies !is_in_flight(
                    #[trigger] jobs@[j].status@,
                ) by {
                    assert(view[j].1 == jobs@[j].status@);
                }
            }
            None
        },
        Some(b) => {
            proof {
                assert(view[b as int].1 == jobs@[b as int].status@);
                assert(is_active_index(view, b as int));
            }
            Some(jobs[b].id.clone())
        },
    }
}

/// A generation job's mutable state.
pub struct JobState {
    pub status: String,
    pub error_code: Option<String>,
    pub draft_id: Option<String>,
}

/// Moves a job to `status` with `error_code`; the draft it produced is
/// recorded when given and otherwise kept.
pub fn set_job_status(
    job: &JobState,
    status: &str,
    error_code: Option<&str>,
    draft_id: Option<&str>,
) -> (r: JobState)
    ensures
        r.status@ == status@,
        opt_string_view(r.error_code) == opt_str_view(error_code),
        opt_string_view(r.draft_id) == coalesce(opt_str_view(draft_id), opt_string_view(job.draft_id)),
{
    JobState {
        status: crate::text::owned(status),
        error_code: own_opt(error_code),
        draft_id: match draft_id {
            Some(d) => Some(crate::text::owned(d)),
            None => match &job.draft_id {
                Some(d) => Some(d.clone()),
                None => None,
            },
        },
    }
}

// ---------------------------------------------------------------------------
// Sponsors and their contacts.
// ---------------------------------------------------------------------------

/// A sponsor row as read out of a search match.
pub struct SponsorFields {
    pub sponsor_token: String,
    pub name: Option<String>,
    pub domain: Option<String>,
    pub city: Option<String>,
    pub short_profile: Option<String>,
}

pub open spec fn names4(a: Seq<char>, b: Seq<char>, c: Seq<char>, d: Seq<char>) -> Seq<Seq<char>> {
    seq![a].push(b).push(c).push(d)
}

pub open spec fn sponsor_token_of(m: Json) -> Option<Seq<char>> {
    pick_str_spec(m, names2("sponsor_token"@, "token"@))
}

/// The fields of a sponsor row, each read under its fallback names.
pub open spec fn sponsor_fields_spec(m: Json, f: SponsorFields) -> bool {
    &&& sponsor_token_of(m) == Some(f.sponsor_token@)
    &&& opt_string_view(f.name) == pick_str_spec(
        m,
        names3("name"@, "company_name"@, "sponsor_name"@),
    )
    &&& opt_string_view(f.domain) == pick_str_spec(m, names3("domain"@, "website"@, "website_url"@))
    &&& opt_string_view(f.city) == get_str(m, "city"@)
    &&& opt_string_view(f.short_profile) == pick_str_spec(
        m,
        names4("short_profile"@, "profile"@, "summary"@, "description"@),
    )
}

/// Reads a sponsor row out of a search match; `None` when the match carries
/// no token.
pub fn sponsor_fields(m: &JsonValue) -> (r: Option<SponsorFields>)
    ensures
        match r {
            None => sponsor_token_of(m@) is None,
            Some(f) => sponsor_fields_spec(m@, f),
        },
{
    let token_names: [&str; 2] = ["sponsor_token", "token"];
    let name_names: [&str; 3] = ["name", "company_name", "sponsor_name"];
    let domain_names: [&str; 3] = ["domain", "website", "website_url"];
    let profile_names: [&str; 4] = ["short_profile", "profile", "summary", "description"];
    proof {
        assert(crate::json::names_view(token_names@) =~= names2("sponsor_token"@, "token"@));
        assert(crate::json::names_view(name_names@) =~= names3(
            "name"@,
            "company_name"@,
            "sponsor_name"@,
        ));
        assert(crate::json::names_view(domain_names@) =~= names3(
            "domain"@,
            "website"@,
            "website_url"@,
        ));
        assert(crate::json::names_view(profile_names@) =~= names4(
            "short_profile"@,
            "profile"@,
            "summary"@,
            "description"@,
        ));
    }
    let token = match pick_str(m, &token_names) {
        Some(t) => t,
        None => {
            return None;
        },
    };
    Some(
        SponsorFields {
            sponsor_token: crate::text::owned(token),
            name: own_opt(pick_str(m, &name_names)),
            domain: own_opt(pick_str(m, &domain_names)),
            city: own_opt(m.get_str("city")),
            short_profile: own_opt(pick_str(m, &profile_names)),
        },
    )
}

/// The sponsor rows a search page caches: one per match that carries a
/// token, in match order. Their tokens, in this order, are the page's cached
/// result list.
pub open spec fn sponsor_rows_spec(matches: Seq<Json>) -> Seq<Json>
    decreases matches.len(),
{
    if matches.len() == 0 {
        Seq::empty()
    } else {
        let rest = sponsor_rows_spec(matches.drop_last());
        if sponsor_token_of(matches.last()) is Some {
            rest.push(matches.last())
        } else {
            rest
        }
    }
}

pub fn sponsor_rows(matches: &Vec<JsonValue>) -> (r: Vec<SponsorFields>)
    ensures
        r@.len() == sponsor_rows_spec(items_view(matches@)).len(),
        forall|k: int|
            0 <= k < r@.len() ==> sponsor_fields_spec(
                #[trigger] sponsor_rows_spec(items_view(matches@))[k],
                r@[k],
            ),
{
    let ghost all = items_view(matches@);
    let mut out: Vec<SponsorFields> = Vec::new();
    let mut i: usize = 0;
    while i < matches.len()
        invariant
            all == items_view(matches@),
            all.len() == matches@.len(),
            0 <= i <= matches@.len(),
            out@.len() == sponsor_rows_spec(all.subrange(0, i as int)).len(),
            forall|k: int|
                0 <= k < out@.len() ==> sponsor_fields_spec(
                    #[trigger] sponsor_rows_spec(all.subrange(0, i as int))[k],
                    out@[k],
                ),
        decreases matches.len() - i,
    {
        let ghost pre = all.subrange(0, i as int);
        let ghost next = all.subrange(0, i + 1);
        proof {
            assert(next.drop_last() =~= pre);
            assert(next.last() == matches@[i as int]@);
        }
        match sponsor_fields(&matches[i]) {
            Some(f) => {
                out.push(f);
                proof {
                    assert(sponsor_rows_spec(next) == sponsor_rows_spec(pre).push(next.last()));
                    assert forall|k: int| 0 <= k < out@.len() implies sponsor_fields_spec(
                        #[trigger] sponsor_rows_spec(next)[k],
                        out@[k],
                    ) by {
                        if k < out@.len() - 1 {
                            assert(sponsor_rows_spec(next)[k] == sponsor_rows_spec(pre)[k]);
                        }
                    }
                }
            },
            None => {
                proof {
                    assert(sponsor_rows_spec(next) == sponsor_rows_spec(pre));
                }
            },
        }
        i = i + 1;
    }
    proof {
        assert(all.subrange(0, matches@.len() as int) =~= all);
    }
    out
}

/// Whether a contact field is masked: an explicit `<field>_masked` flag
/// decides; without one, a `*` in the value marks it masked, and an absent
/// value is not masked.
pub open spec fn field_masked_spec(c: Json, flag: Seq<char>, value: Option<Seq<char>>) -> bool {
    match get_bool(c, flag) {
        Some(b) => b,
        None => match value {
            Some(v) => v.contains('*'),
            None => false,
        },
    }
}

fn field_masked(c: &JsonValue, flag: &str, value: Option<&str>) -> (r: bool)
    ensures
        r == field_masked_spec(c@, flag@, opt_str_view(value)),
{
    match c.get_bool(flag) {
        Some(b) => b,
        None => match value {
            Some(v) => {
                let cs = crate::text::chars_of(v);
                let star = ['*'];
                let found = crate::text::contains_chars(cs.as_slice(), &star);
                proof {
                    assert(star@ =~= seq!['*']);
                    lemma_contains_char(v@, '*');
                }
                found
            },
            None => false,
        },
    }
}

proof fn lemma_contains_char(s: Seq<char>, c: char)
    ensures
        crate::text::contains_text(s, seq![c]) <==> s.contains(c),
{
    if s.contains(c) {
        let i = choose|i: int| 0 <= i < s.len() && s[i] == c;
        assert(s.subrange(i, i + 1) =~= seq![c]);
        assert(crate::text::occurs_at(s, seq![c], i));
    }
    if crate::text::contains_text(s, seq![c]) {
        let i = choose|i: int| crate::text::occurs_at(s, seq![c], i);
        assert(s.subrange(i, i + 1)[0] == s[i]);
        assert(s[i] == c);
    }
}

/// A contact row as read out of a contacts payload (its confidence is read
/// by the caller).
pub struct ContactFields {
    pub contact_id: String,
    pub role: Option<String>,
    pub title: Option<String>,
    pub email: Option<String>,
    pub email_masked: bool,
    pub phone: Option<String>,
    pub phone_masked: bool,
    pub linkedin: Option<String>,
}

/// The fields of the contact at `index`: its id, or the index in decimal
/// when it has none, and each field under its fallback names.
pub open spec fn contact_fields_spec(c: Json, index: nat, f: ContactFields) -> bool {
    let email = pick_str_spec(c, names2("email"@, "contact_email"@));
    let phone = pick_str_spec(c, names2("phone"@, "phone_number"@));
    &&& f.contact_id@ == match pick_str_spec(c, names3("contact_id"@, "id"@, "token"@)) {
        Some(id) => id,
        None => crate::text::nat_digits(index),
    }
    &&& opt_string_view(f.role) == get_str(c, "role"@)
    &&& opt_string_view(f.title) == pick_str_spec(c, names2("title"@, "job_title"@))
    &&& opt_string_view(f.email) == email
    &&& f.email_masked == field_masked_spec(c, "email_masked"@, email)
    &&& opt_string_view(f.phone) == phone
    &&& f.phone_masked == field_masked_spec(c, "phone_masked"@, phone)
    &&& opt_string_view(f.linkedin) == pick_str_spec(c, names2("linkedin"@, "linkedin_url"@))
}

/// Reads the contact at position `index` of a contacts payload.
pub fn contact_fields(c: &JsonValue, index: u64) -> (r: ContactFields)
    ensures
        contact_fields_spec(c@, index as nat, r),
{
    let id_names: [&str; 3] = ["contact_id", "id", "token"];
    let title_names: [&str; 2] = ["title", "job_title"];
    let email_names: [&str; 2] = ["email", "contact_email"];
    let phone_names: [&str; 2] = ["phone", "phone_number"];
    let linkedin_names: [&str; 2] = ["linkedin", "linkedin_url"];
    proof {
        assert(crate::json::names_view(id_names@) =~= names3("contact_id"@, "id"@, "token"@));
        assert(crate::json::names_view(title_names@) =~= names2("title"@, "job_title"@));
        assert(crate::json::names_view(email_names@) =~= names2("email"@, "contact_email"@));
        assert(crate::json::names_view(phone_names@) =~= names2("phone"@, "phone_number"@));
        assert(crate::json::names_view(linkedin_names@) =~= names2("linkedin"@, "linkedin_url"@));
    }
    let contact_id = match pick_str(c, &id_names) {
        Some(id) => crate::text::owned(id),
        None => crate::text::u64_to_string(index),
    };
    let email = pick_str(c, &email_names);
    let phone = pick_str(c, &phone_names);
    ContactFields {
        contact_id,
        role: own_opt(c.get_str("role")),
        title: own_opt(pick_str(c, &title_names)),
        email: own_opt(email),
        email_masked: field_masked(c, "email_masked", email),
        phone: own_opt(phone),
        phone_masked: field_masked(c, "phone_masked", phone),
        linkedin: own_opt(pick_str(c, &linkedin_names)),
    }
}

// ---------------------------------------------------------------------------
// Attendee (RSVP) rows.
// ---------------------------------------------------------------------------

/// An attendee row as read out of an RSVP payload (its score is read by the
/// caller).
pub struct RsvpRowFields {
    pub rsvp_ref: String,
    pub name: Option<String>,
    pub email: Option<String>,
    pub state: String,
    pub registrant_status: Option<String>,
    pub registrant_status_label: Option<String>,
    pub registrant_status_text: Option<String>,
    pub checked_in: bool,
}

/// The record part of an RSVP payload: its `rsvp` object, or the payload
/// itself when it has none.
pub open spec fn rsvp_part(row: Json) -> Json {
    match get_spec(row, "rsvp"@) {
        Some(r) => r,
        None => row,
    }
}

/// The person part of an RSVP payload: its `client` object, or null.
pub open spec fn client_part(row: Json) -> Json {
    match get_spec(row, "client"@) {
        Some(c) => c,
        None => Json::Null,
    }
}

pub open spec fn rsvp_ref_names() -> Seq<Seq<char>> {
    names3("rsvp_token"@, "token"@, "rsvp_ref"@)
}

/// An RSVP payload's token: from the record part, else from the payload.
pub open spec fn rsvp_ref_of(row: Json) -> Option<Seq<char>> {
    or_else(pick_str_spec(rsvp_part(row), rsvp_ref_names()), pick_str_spec(row, rsvp_ref_names()))
}

/// The fields of an attendee row: the person's name and email from the
/// person part, else from the payload; the state (default `unknown`), the
/// registrant statuses and the check-in flag (default `false`) from the
/// record part.
pub open spec fn rsvp_row_fields_spec(row: Json, f: RsvpRowFields) -> bool {
    let rsvp = rsvp_part(row);
    let client = client_part(row);
    &&& rsvp_ref_of(row) == Some(f.rsvp_ref@)
    &&& opt_string_view(f.name) == or_else(get_str(client, "name"@), get_str(row, "name"@))
    &&& opt_string_view(f.email) == or_else(get_str(client, "email"@), get_str(row, "email"@))
    &&& f.state@ == match get_str(rsvp, "state"@) {
        Some(s) => s,
        None => "unknown"@,
    }
    &&& opt_string_view(f.registrant_status) == get_str(rsvp, "registrant_status"@)
    &&& opt_string_view(f.registrant_status_label) == get_str(rsvp, "registrant_status_label"@)
    &&& opt_string_view(f.registrant_status_text) == get_str(rsvp, "registrant_status_text"@)
    &&& f.checked_in == match get_bool(rsvp, "checked_in"@) {
        Some(b) => b,
        None => false,
    }
}

/// Reads an attendee row out of a search result item or a single-RSVP
/// response (both nest the record under `rsvp` and the person under
/// `client`); `None` when the payload carries no token.
pub fn rsvp_row_fields(row: &JsonValue) -> (r: Option<RsvpRowFields>)
    ensures
        match r {
            None => rsvp_ref_of(row@) is None,
            Some(f) => rsvp_row_fields_spec(row@, f),
        },
{
    let ref_names: [&str; 3] = ["rsvp_token", "token", "rsvp_ref"];
    proof {
        assert(crate::json::names_view(ref_names@) =~= rsvp_ref_names());
    }
    let rsvp: &JsonValue = match row.get("rsvp") {
        Some(r) => r,
        None => row,
    };
    let null = JsonValue::Null;
    let client: &JsonValue = match row.get("client") {
        Some(c) => c,
        None => &null,
    };
    let rsvp_ref = match pick_str(rsvp, &ref_names) {
        Some(t) => t,
        None => match pick_str(row, &ref_names) {
            Some(t) => t,
            None => {
                return None;
            },
        },
    };
    let name = match client.get_str("name") {
        Some(n) => Some(n),
        None => row.get_str("name"),
    };
    let email = match client.get_str("email") {
        Some(e) => Some(e),
        None => row.get_str("email"),
    };
    let state = match rsvp.get_str("state") {
        Some(s) => s,
        None => "unknown",
    };
    let checked_in = match rsvp.get_bool("checked_in") {
        Some(b) => b,
        None => false,
    };
    Some(
        RsvpRowFields {
            rsvp_ref: crate::text::owned(rsvp_ref),
            name: own_opt(name),
            email: own_opt(email),
            state: crate::text::owned(state),
            registrant_status: own_opt(rsvp.get_str("registrant_status")),
            registrant_status_label: own_opt(rsvp.get_str("registrant_status_label")),
            registrant_status_text: own_opt(rsvp.get_str("registrant_status_text")),
            checked_in,
        },
    )
}


// ---------------------------------------------------------------------------
// Event detail.
// ---------------------------------------------------------------------------

/// A cached section, or `null` when the cache has none.
pub open spec fn or_null(o: Option<Json>) -> Json {
    match o {
        Some(v) => v,
        None => Json::Null,
    }
}

fn or_null_exec(o: Option<JsonValue>) -> (r: JsonValue)
    ensures
        r@ == or_null(opt_json_view(o)),
{
    match o {
        Some(v) => v,
        None => JsonValue::Null,
    }
}

/// The detail view of a cached event: the event object with its `kind` and
/// its four cached sections (`null` where the cache has none) set on it. An
/// event that is not an object stays as it is.
pub open spec fn event_detail_spec(
    event: Json,
    kind: Seq<char>,
    performance: Option<Json>,
    awaiting_payment: Option<Json>,
    rsvp_summary: Option<Json>,
    content_page: Option<Json>,
) -> Json {
    set_key(
        set_key(
            set_key(
                set_key(
                    set_key(event, "kind"@, Json::Str(kind)),
                    "performance"@,
                    or_null(performance),
                ),
                "awaiting_payment"@,
                or_null(awaiting_payment),
            ),
            "rsvp_summary"@,
            or_null(rsvp_summary),
        ),
        "content_page"@,
        or_null(content_page),
    )
}

pub fn event_detail(
    event: JsonValue,
    kind: &str,
    performance: Option<JsonValue>,
    awaiting_payment: Option<JsonValue>,
    rsvp_summary: Option<JsonValue>,
    content_page: Option<JsonValue>,
) -> (r: JsonValue)
    ensures
        r@ == event_detail_spec(
            event@,
            kind@,
            opt_json_view(performance),
            opt_json_view(awaiting_payment),
            opt_json_view(rsvp_summary),
            opt_json_view(content_page),
        ),
{
    let v = set_key_exec(event, "kind", JsonValue::Str(owned(kind)));
    let v = set_key_exec(v, "performance", or_null_exec(performance));
    let v = set_key_exec(v, "awaiting_payment", or_null_exec(awaiting_payment));
    let v = set_key_exec(v, "rsvp_summary", or_null_exec(rsvp_summary));
    set_key_exec(v, "content_page", or_null_exec(content_page))
}

// ---------------------------------------------------------------------------
// Send job throughput.
// ---------------------------------------------------------------------------

/// A throughput snapshot is written unless the cache already holds the job
/// as done (`cached_done` is the cached row's flag, `None` without a row):
/// a finished send is frozen.
pub open spec fn throughput_writes(cached_done: Option<bool>) -> bool {
    cached_done != Some(true)
}

pub fn throughput_write_allowed(cached_done: Option<bool>) -> (r: bool)
    ensures
        r == throughput_writes(cached_done),
{
    match cached_done {
        Some(d) => !d,
        None => true,
    }
}

/// The cached done flag after a snapshot whose flag is `incoming_done`.
pub open spec fn throughput_after(cached_done: Option<bool>, incoming_done: bool) -> Option<bool> {
    if throughput_writes(cached_done) {
        Some(incoming_done)
    } else {
        cached_done
    }
}

/// The cached done flag after a run of snapshots, written in order.
pub open spec fn throughput_run(cached_done: Option<bool>, snapshots: Seq<bool>) -> Option<bool>
    decreases snapshots.len(),
{
    if snapshots.len() == 0 {
        cached_done
    } else {
        throughput_after(throughput_run(cached_done, snapshots.drop_last()), snapshots.last())
    }
}

/// Once a send job's throughput is cached as done it is frozen: no run of
/// later snapshots, whatever they say, writes to it again.
pub proof fn lemma_done_throughput_is_frozen(snapshots: Seq<bool>)
    ensures
        throughput_run(Some(true), snapshots) == Some(true),
        forall|i: int|
            0 <= i < snapshots.len() ==> !throughput_writes(
                #[trigger] throughput_run(Some(true), snapshots.take(i)),
            ),
    decreases snapshots.len(),
{
    if snapshots.len() > 0 {
        lemma_done_throughput_is_frozen(snapshots.drop_last());
        assert forall|i: int| 0 <= i < snapshots.len() implies !throughput_writes(
            #[trigger] throughput_run(Some(true), snapshots.take(i)),
        ) by {
            if i < snapshots.len() - 1 {
                assert(snapshots.take(i) =~= snapshots.drop_last().take(i));
            } else {
                assert(snapshots.take(i) =~= snapshots.drop_last());
            }
        }
    }
}

} // verus!
