//! Decisions of background sync: what is read out of each API payload, how an
//! API outcome degrades a feature or backs it off, and what the tray shows.
//! Fetching, storing and notifying are the caller's part.
use vstd::prelude::*;

use crate::api::ApiOk;
use crate::store::strings_view;
use crate::error::{code_spec, display_spec, is_capability_block_spec, AppError, AppResult};
use crate::json::{
    array_spec, bool_spec, get_bool, get_i64, get_or_null_spec, get_spec, get_str, i64_spec,
    items_view, pick_str, pick_str_spec, str_spec, Json, JsonValue,
};
use vstd::arithmetic::power2::pow2;
use crate::text::{
    chars_of, concat, decimal, find_from, first_occurrence, i64_to_string, owned,
    parse_i64_chars, parse_i64_spec, push_str, slice_chars, trim, trim_chars,
};

verus! {

broadcast use vstd::std_specs::vec::group_vec_axioms;

/// Key under which the upcoming-events endpoint records its sync state.
pub const UPCOMING_KEY: &'static str = "upcoming";

/// Key under which the past-events endpoint records its sync state.
pub const PAST_KEY: &'static str = "past";

/// How many past events one fetch asks for.
pub const PAST_LIMIT: u32 = 50;

/// Longest backoff honoured from a `Retry-After`, in seconds (6 hours).
pub const MAX_BACKOFF_SECS: i64 = 21600;

// ---------------------------------------------------------------------------
// Rate limits and degradation.
// ---------------------------------------------------------------------------

/// The seconds a rate-limit message asks to wait: the text after the first
/// `retry_after=` (up to any next one), trimmed and read as `i64`.
pub open spec fn retry_after_spec(msg: Seq<char>) -> Option<int> {
    let pat = "retry_after="@;
    match first_occurrence(msg, pat, 0) {
        None => None,
        Some(i) => {
            let start = i + pat.len();
            let end = match first_occurrence(msg, pat, start) {
                Some(j) => j,
                None => msg.len() as int,
            };
            parse_i64_spec(trim(msg.subrange(start, end)))
        },
    }
}

pub open spec fn opt_int(o: Option<i64>) -> Option<int> {
    match o {
        Some(v) => Some(v as int),
        None => None,
    }
}

/// Parses `retry_after=NN` out of a rate-limit error message.
pub fn parse_retry_after(msg: &str) -> (r: Option<i64>)
    ensures
        opt_int(r) == retry_after_spec(msg@),
{
    let cs = chars_of(msg);
    let pat = chars_of("retry_after=");
    match find_from(cs.as_slice(), pat.as_slice(), 0) {
        None => None,
        Some(i) => {
            proof {
                crate::text::lemma_first_occurrence_none(cs@, pat@, 0);
                assert(first_occurrence(cs@, pat@, 0) == Some(i as int));
                assert(crate::text::occurs_at(cs@, pat@, i as int));
                assert(i + pat@.len() <= cs@.len());
                assert(cs@.len() == cs.len() && pat@.len() == pat.len());
            }
            let start = i + pat.len();
            let end = match find_from(cs.as_slice(), pat.as_slice(), start) {
                Some(j) => j,
                None => cs.len(),
            };
            proof {
                crate::text::lemma_first_occurrence_none(cs@, pat@, 0);
                crate::text::lemma_first_occurrence_none(cs@, pat@, start as int);
            }
            let piece = slice_chars(cs.as_slice(), start, end);
            let t = trim_chars(piece.as_slice());
            parse_i64_chars(t.as_slice())
        },
    }
}

/// The wait a rate-limit error announces is read back from its message: a
/// 429 answered with `Retry-After: s` (0 when the header is absent) becomes
/// an error whose message yields `s` again.
pub proof fn lemma_rate_limit_hint_round_trip(retry_after: Option<i64>)
    ensures
        retry_after_spec(crate::api::rate_limited_message(retry_after)) == Some(
            match retry_after {
                Some(s) => s as int,
                None => 0,
            },
        ),
{
    let s: int = match retry_after {
        Some(v) => v as int,
        None => 0,
    };
    let p = "Rate limited by the AI Tinkerers API; retry_after="@;
    let pat = "retry_after="@;
    reveal_strlit("Rate limited by the AI Tinkerers API; retry_after=");
    reveal_strlit("retry_after=");
    let d = decimal(s);
    let msg = p + d;
    assert(msg == crate::api::rate_limited_message(retry_after));
    crate::text::lemma_decimal_round_trip(s);
    let m: nat = if s < 0 {
        (-s) as nat
    } else {
        s as nat
    };
    crate::text::lemma_nat_digits_value(m);
    assert(p.len() == 50);
    assert(pat.len() == 12);
    // Every character of the number is a digit or a leading minus sign.
    assert forall|k: int| 0 <= k < d.len() implies (crate::text::is_digit(#[trigger] d[k]) || d[k]
        == '-') by {
        if s < 0 {
            if k > 0 {
                assert(d[k] == crate::text::nat_digits(m)[k - 1]);
            }
        }
    }
    // The only `=` of the message ends the prefix.
    assert forall|j: int| 0 <= j < msg.len() && msg[j] == '=' implies j == 49 by {
        if j < 49 {
            assert(msg[j] == p[j]);
        } else if j >= 50 {
            assert(msg[j] == d[j - 50]);
        }
    }
    assert(msg.subrange(38, 50) =~= pat);
    assert(crate::text::occurs_at(msg, pat, 38));
    assert forall|i: int| crate::text::occurs_at(msg, pat, i) implies i == 38 by {
        assert(msg.subrange(i, i + 12)[11] == pat[11]);
        assert(msg[i + 11] == '=');
    }
    crate::text::lemma_first_occurrence_none(msg, pat, 0);
    crate::text::lemma_first_occurrence_none(msg, pat, 50);
    assert(first_occurrence(msg, pat, 0) == Some(38int));
    assert(first_occurrence(msg, pat, 50) is None);
    assert(msg.subrange(50, msg.len() as int) =~= d);
    lemma_trim_of_number(d);
}

proof fn lemma_trim_of_number(d: Seq<char>)
    requires
        d.len() > 0,
        forall|k: int| 0 <= k < d.len() ==> (crate::text::is_digit(#[trigger] d[k]) || d[k] == '-'),
    ensures
        trim(d) == d,
{
    assert(!crate::text::is_ws(d[0]));
    assert(crate::text::trim_start(d) == d);
    assert(!crate::text::is_ws(d.last()));
    assert(crate::text::trim_end(d) == d);
}

/// The `Retry-After` floor of a backoff: the header's seconds, 1 s when it
/// is absent, and never less than 1 s.
pub open spec fn retry_floor(retry_after: Option<int>) -> int {
    match retry_after {
        Some(s) => if s < 1 {
            1
        } else {
            s
        },
        None => 1,
    }
}

/// The growth of a backoff: twice the window (in seconds, at least 1) that an
/// earlier rate limit opened and no success has cleared since; nothing when
/// there is none.
pub open spec fn backoff_growth(prior: Option<int>) -> int {
    match prior {
        Some(w) => if w < 1 {
            2
        } else {
            2 * w
        },
        None => 0,
    }
}

/// How long an endpoint backs off after a rate limit: an exponential window
/// that doubles any prior window and honours `Retry-After` as a floor,
/// capped at `MAX_BACKOFF_SECS`.
pub open spec fn backoff_wait_spec(retry_after: Option<int>, prior: Option<int>) -> int {
    let floor = retry_floor(retry_after);
    let grown = backoff_growth(prior);
    let want = if floor < grown {
        grown
    } else {
        floor
    };
    if want < MAX_BACKOFF_SECS {
        want
    } else {
        MAX_BACKOFF_SECS as int
    }
}

/// The window after a run of rate limits in a row, with no success between
/// them and none before: each carries its `Retry-After` (or none).
pub open spec fn backoff_run(hints: Seq<Option<int>>) -> Option<int>
    decreases hints.len(),
{
    if hints.len() == 0 {
        None
    } else {
        Some(backoff_wait_spec(hints.last(), backoff_run(hints.drop_last())))
    }
}

/// Repeated rate limits back off exponentially: after `n` of them in a row
/// that announce no `Retry-After`, the window is 2^(n-1) seconds, up to the
/// six-hour cap.
pub proof fn lemma_backoff_doubles(hints: Seq<Option<int>>)
    requires
        hints.len() > 0,
        forall|i: int| 0 <= i < hints.len() ==> hints[i] is None,
    ensures
        backoff_run(hints) == Some(
            if pow2((hints.len() - 1) as nat) < MAX_BACKOFF_SECS {
                pow2((hints.len() - 1) as nat) as int
            } else {
                MAX_BACKOFF_SECS as int
            },
        ),
    decreases hints.len(),
{
    let n = hints.len();
    assert(hints.last() is None);
    if n == 1 {
        assert(hints.drop_last() =~= Seq::<Option<int>>::empty());
        assert(pow2(0) == 1) by {
            vstd::arithmetic::power2::lemma2_to64();
        }
    } else {
        let init = hints.drop_last();
        assert forall|i: int| 0 <= i < init.len() implies init[i] is None by {
            assert(init[i] == hints[i]);
        }
        lemma_backoff_doubles(init);
        vstd::arithmetic::power2::lemma_pow2_unfold((n - 1) as nat);
        vstd::arithmetic::power2::lemma_pow2_pos((n - 2) as nat);
    }
}

/// The backoff window after a rate limit whose `Retry-After` is
/// `retry_after`, given the window `prior` of an earlier rate limit that no
/// success has cleared.
pub fn backoff_wait_secs(retry_after: Option<i64>, prior: Option<i64>) -> (r: i64)
    ensures
        r == backoff_wait_spec(opt_int(retry_after), opt_int(prior)),
        1 <= r <= MAX_BACKOFF_SECS,
        r >= retry_floor(opt_int(retry_after)) || r == MAX_BACKOFF_SECS,
        r >= backoff_growth(opt_int(prior)) || r == MAX_BACKOFF_SECS,
        prior is None ==> r == (if retry_floor(opt_int(retry_after)) < MAX_BACKOFF_SECS {
            retry_floor(opt_int(retry_after))
        } else {
            MAX_BACKOFF_SECS as int
        }),
{
    let floor: i64 = match retry_after {
        Some(s) => if s < 1 {
            1
        } else {
            s
        },
        None => 1,
    };
    let grown: i64 = match prior {
        Some(w) => if w < 1 {
            2
        } else if w >= MAX_BACKOFF_SECS {
            MAX_BACKOFF_SECS
        } else {
            2 * w
        },
        None => 0,
    };
    let want = if floor < grown {
        grown
    } else {
        floor
    };
    if want < MAX_BACKOFF_SECS {
        want
    } else {
        MAX_BACKOFF_SECS
    }
}

/// The instant an RFC 3339 timestamp denotes, as chrono reads it: whole
/// seconds since the Unix epoch, and the nanoseconds past that second;
/// `None` when the text is not RFC 3339.
pub uninterp spec fn rfc3339_instant(s: Seq<char>) -> Option<(int, int)>;

/// `DateTime::parse_from_rfc3339`, then `timestamp` and
/// `timestamp_subsec_nanos`. The result depends on the text alone.
#[verifier::external_body]
fn parse_rfc3339(s: &str) -> (r: Option<(i64, u32)>)
    ensures
        match r {
            Some(t) => rfc3339_instant(s@) == Some((t.0 as int, t.1 as int)),
            None => rfc3339_instant(s@) is None,
        },
{
    match chrono::DateTime::parse_from_rfc3339(s) {
        Ok(t) => Some((t.timestamp(), t.timestamp_subsec_nanos())),
        Err(_) => None,
    }
}

/// Instant `a` comes after instant `b` (seconds first, then nanoseconds).
pub open spec fn instant_after(a: (int, int), b: (int, int)) -> bool {
    a.0 > b.0 || (a.0 == b.0 && a.1 > b.1)
}

/// The nanoseconds from instant `b` to instant `a`.
pub open spec fn nanos_between(a: (int, int), b: (int, int)) -> int {
    (a.0 - b.0) * 1_000_000_000 + (a.1 - b.1)
}

/// An endpoint is backed off while its stored `backoff_until` lies after
/// `now`; an absent or unreadable timestamp is no backoff.
pub open spec fn in_backoff_spec(until: Option<Seq<char>>, now: (int, int)) -> bool {
    match until {
        Some(u) => match rfc3339_instant(u) {
            Some(t) => instant_after(t, now),
            None => false,
        },
        None => false,
    }
}

/// Whether an endpoint is still inside its backoff window at the instant
/// `now_secs` seconds and `now_nanos` nanoseconds past the Unix epoch.
pub fn in_backoff(until: Option<&str>, now_secs: i64, now_nanos: u32) -> (r: bool)
    ensures
        r == in_backoff_spec(crate::api::opt_str_view(until), (now_secs as int, now_nanos as int)),
{
    match until {
        Some(u) => match parse_rfc3339(u) {
            Some(t) => t.0 > now_secs || (t.0 == now_secs && t.1 > now_nanos),
            None => false,
        },
        None => false,
    }
}

/// How long a cached logo search is served without refetching.
pub const LOGO_FRESHNESS_SECS: i64 = 600;

/// A cached logo search is fresh while less than the freshness window has
/// passed since it was fetched; an absent or unreadable fetch time is stale.
pub open spec fn logo_fresh_spec(fetched_at: Option<Seq<char>>, now: (int, int)) -> bool {
    match fetched_at {
        Some(f) => match rfc3339_instant(f) {
            Some(t) => nanos_between(now, t) < LOGO_FRESHNESS_SECS * 1_000_000_000,
            None => false,
        },
        None => false,
    }
}

/// Whether a cached logo search fetched at `fetched_at` may be served at the
/// instant `now_secs` seconds and `now_nanos` nanoseconds past the Unix epoch.
pub fn logo_cache_fresh(fetched_at: Option<&str>, now_secs: i64, now_nanos: u32) -> (r: bool)
    ensures
        r == logo_fresh_spec(crate::api::opt_str_view(fetched_at), (now_secs as int, now_nanos as int)),
{
    match fetched_at {
        Some(f) => match parse_rfc3339(f) {
            Some(t) => {
                let secs: i128 = now_secs as i128 - t.0 as i128;
                let nanos: i128 = now_nanos as i128 - t.1 as i128;
                proof {
                    assert(-0x1_0000_0000_0000_0000 <= secs <= 0x1_0000_0000_0000_0000);
                    assert(secs * 1_000_000_000 <= 0x1_0000_0000_0000_0000 * 1_000_000_000)
                        by (nonlinear_arith)
                        requires
                            secs <= 0x1_0000_0000_0000_0000,
                    ;
                    assert(secs * 1_000_000_000 >= -0x1_0000_0000_0000_0000 * 1_000_000_000)
                        by (nonlinear_arith)
                        requires
                            secs >= -0x1_0000_0000_0000_0000,
                    ;
                }
                let age: i128 = secs * 1_000_000_000 + nanos;
                age < (LOGO_FRESHNESS_SECS as i128) * 1_000_000_000i128
            },
            None => false,
        },
        None => false,
    }
}

/// The per-source status an API error degrades a section to.
pub open spec fn source_status_spec(e: AppError) -> Seq<char> {
    match e {
        AppError::ForbiddenApiGroup(_) => "forbidden_api_group"@,
        AppError::ForbiddenScope(_) => "forbidden_scope"@,
        AppError::ForbiddenRole(_) => "forbidden_role"@,
        _ => "unavailable"@,
    }
}

/// Maps an API error to the per-source status; anything that isn't a
/// capability block degrades to `unavailable`.
pub fn source_status(e: &AppError) -> (r: &'static str)
    ensures
        r@ == source_status_spec(*e),
{
    match e {
        AppError::ForbiddenApiGroup(_) => "forbidden_api_group",
        AppError::ForbiddenScope(_) => "forbidden_scope",
        AppError::ForbiddenRole(_) => "forbidden_role",
        _ => "unavailable",
    }
}

/// The status a survey or follow-up source is cached with after its call:
/// `ok` for data, `empty` for a success without content, the capability
/// code for a block, `unavailable` for anything else; a rate limit also
/// backs the feature off for the given `Retry-After`. Data is cached only
/// with `ok`.
pub fn followup_source_status<T>(r: &AppResult<T>, empty: bool) -> (out: (
    &'static str,
    Option<Option<i64>>,
))
    ensures
        r is Ok && empty ==> out.0@ == "empty"@ && out.1 is None,
        r is Ok && !empty ==> out.0@ == "ok"@ && out.1 is None,
        r matches Err(e) ==> (if is_capability_block_spec(*e) {
            out.0@ == source_status_spec(*e) && out.1 is None
        } else {
            out.0@ == "unavailable"@ && match e {
                AppError::RateLimited(msg) => (out.1 matches Some(s) && opt_int(s)
                    == retry_after_spec(msg@)),
                _ => out.1 is None,
            }
        }),
{
    match r {
        Ok(_) => {
            if empty {
                ("empty", None)
            } else {
                ("ok", None)
            }
        },
        Err(e) => {
            if e.is_capability_block() {
                (source_status(e), None)
            } else {
                match e {
                    AppError::RateLimited(msg) => (
                        "unavailable",
                        Some(parse_retry_after(msg.as_str())),
                    ),
                    _ => ("unavailable", None),
                }
            }
        },
    }
}

/// Survey and follow-up data is fetched for past events only: a cached event
/// whose `kind` (default `upcoming`) is `past`.
pub fn is_past_event(ev: &JsonValue) -> (r: bool)
    ensures
        r == (get_str(ev@, "kind"@) == Some("past"@)),
{
    proof {
        reveal_strlit("past");
        reveal_strlit("upcoming");
        assert("upcoming"@.len() != "past"@.len());
    }
    match ev.get_str("kind") {
        Some(k) => crate::text::str_eq(k, "past"),
        None => false,
    }
}

/// The reason a sponsor read records for an API error.
pub open spec fn sponsor_error_code_spec(e: AppError) -> Seq<char> {
    match e {
        AppError::ForbiddenApiGroup(_) => "forbidden_api_group"@,
        AppError::ForbiddenScope(_) => "forbidden_scope"@,
        AppError::ForbiddenRole(_) => "forbidden_role"@,
        AppError::RateLimited(_) => "rate_limited"@,
        _ => "unavailable"@,
    }
}

pub fn sponsor_error_code(e: &AppError) -> (r: &'static str)
    ensures
        r@ == sponsor_error_code_spec(*e),
{
    match e {
        AppError::ForbiddenApiGroup(_) => "forbidden_api_group",
        AppError::ForbiddenScope(_) => "forbidden_scope",
        AppError::ForbiddenRole(_) => "forbidden_role",
        AppError::RateLimited(_) => "rate_limited",
        _ => "unavailable",
    }
}

/// What a sponsor read (search or contacts) does with its API outcome.
pub enum SponsorReadAction {
    /// Cache what came back.
    Store,
    /// Cache an empty, unavailable result with this reason; on a rate
    /// limit, also back the endpoint off for the given `Retry-After`.
    Degrade { reason: &'static str, backoff: Option<Option<i64>> },
    /// Any other failure: serve what is cached.
    CacheOnly,
}

/// A capability block records its error code; a rate limit records
/// `rate_limited` and backs off; other failures leave the cache as it is.
pub fn sponsor_read_action<T>(r: &AppResult<T>) -> (a: SponsorReadAction)
    ensures
        r is Ok ==> a is Store,
        r matches Err(e) ==> (if is_capability_block_spec(*e) {
            a matches SponsorReadAction::Degrade { reason, backoff } && reason@
                == sponsor_error_code_spec(*e) && backoff is None
        } else {
            match e {
                AppError::RateLimited(msg) => a matches SponsorReadAction::Degrade {
                    reason,
                    backoff,
                } && reason@ == "rate_limited"@ && (backoff matches Some(s) && opt_int(s)
                    == retry_after_spec(msg@)),
                _ => a is CacheOnly,
            }
        }),
{
    match r {
        Ok(_) => SponsorReadAction::Store,
        Err(e) => {
            if e.is_capability_block() {
                SponsorReadAction::Degrade { reason: sponsor_error_code(e), backoff: None }
            } else {
                match e {
                    AppError::RateLimited(msg) => SponsorReadAction::Degrade {
                        reason: "rate_limited",
                        backoff: Some(parse_retry_after(msg.as_str())),
                    },
                    _ => SponsorReadAction::CacheOnly,
                }
            }
        },
    }
}

/// What a sync step does with the outcome of one optional API source.
pub enum SourceAction {
    /// The call succeeded: store its data.
    Store,
    /// The feature is blocked for this caller: store it as unavailable with
    /// this reason.
    Blocked(String),
    /// Rate limited: back the endpoint off for the given `Retry-After`.
    Backoff(Option<i64>),
    /// Any other failure: keep what is cached.
    Ignore,
}

/// The action for an outcome: store on success, mark unavailable on a
/// capability block, back off on a rate limit, otherwise keep the cache.
pub fn source_action<T>(r: &AppResult<T>) -> (a: SourceAction)
    ensures
        r is Ok ==> a is Store,
        r matches Err(e) ==> (if is_capability_block_spec(*e) {
            a matches SourceAction::Blocked(m) && m@ == display_spec(*e)
        } else {
            match e {
                AppError::RateLimited(msg) => a matches SourceAction::Backoff(s) && opt_int(s)
                    == retry_after_spec(msg@),
                _ => a is Ignore,
            }
        }),
{
    match r {
        Ok(_) => SourceAction::Store,
        Err(e) => {
            if e.is_capability_block() {
                SourceAction::Blocked(e.to_text())
            } else {
                match e {
                    AppError::RateLimited(msg) => SourceAction::Backoff(
                        parse_retry_after(msg.as_str()),
                    ),
                    _ => SourceAction::Ignore,
                }
            }
        },
    }
}

// ---------------------------------------------------------------------------
// Event lists.
// ---------------------------------------------------------------------------

pub open spec fn or_empty(o: Option<Seq<char>>) -> Seq<char> {
    match o {
        Some(s) => s,
        None => Seq::empty(),
    }
}

pub open spec fn or_zero(o: Option<int>) -> int {
    match o {
        Some(v) => v,
        None => 0,
    }
}

pub open spec fn or_false(o: Option<bool>) -> bool {
    match o {
        Some(b) => b,
        None => false,
    }
}

/// `v.get(key).and_then(as_i64).unwrap_or(0)`.
pub fn as_i64(v: &JsonValue, key: &str) -> (r: i64)
    ensures
        r == or_zero(get_i64(v@, key@)),
{
    match v.get_i64(key) {
        Some(x) => x,
        None => 0,
    }
}

/// An event's token: `meetup_token`, else `refs.meetup_token`, else empty.
pub open spec fn event_token_spec(ev: Json) -> Seq<char> {
    match get_str(ev, "meetup_token"@) {
        Some(t) => t,
        None => match get_spec(ev, "refs"@) {
            Some(r) => or_empty(get_str(r, "meetup_token"@)),
            None => Seq::empty(),
        },
    }
}

/// The cached columns of one event of an events payload.
pub struct EventRow {
    pub meetup_token: String,
    pub weblog_token: String,
    pub starts_at: String,
    pub attending: i64,
    pub waitlisted: i64,
    pub paid: bool,
}

/// `starts_at_utc`, else `starts_at`, else empty.
pub open spec fn starts_at_spec(ev: Json) -> Seq<char> {
    match get_str(ev, "starts_at_utc"@) {
        Some(s) => s,
        None => or_empty(get_str(ev, "starts_at"@)),
    }
}

/// The row an event is cached as, or `None` when it carries no token (such an
/// event is skipped).
pub open spec fn event_row_matches(ev: Json, row: EventRow) -> bool {
    let rsvps = get_or_null_spec(ev, "rsvps"@);
    &&& row.meetup_token@ == event_token_spec(ev)
    &&& row.weblog_token@ == or_empty(get_str(ev, "weblog_token"@))
    &&& row.starts_at@ == starts_at_spec(ev)
    &&& row.attending == or_zero(get_i64(rsvps, "attending"@))
    &&& row.waitlisted == or_zero(get_i64(rsvps, "waitlisted"@))
    &&& row.paid == or_false(get_bool(ev, "stripe_payment_link_active"@))
}

/// Reads the cached columns of one event; `None` when it has no token.
pub fn event_row(ev: &JsonValue) -> (r: Option<EventRow>)
    ensures
        r is None <==> event_token_spec(ev@).len() == 0,
        r matches Some(row) ==> event_row_matches(ev@, row),
{
    let token: &str = match ev.get_str("meetup_token") {
        Some(t) => t,
        None => match ev.get("refs") {
            Some(refs) => match refs.get_str("meetup_token") {
                Some(t) => t,
                None => "",
            },
            None => "",
        },
    };
    proof {
        reveal_strlit("");
        assert(""@ =~= Seq::<char>::empty());
    }
    if chars_of(token).len() == 0 {
        return None;
    }
    let weblog: &str = match ev.get_str("weblog_token") {
        Some(w) => w,
        None => "",
    };
    let starts: &str = match ev.get_str("starts_at_utc") {
        Some(s) => s,
        None => match ev.get_str("starts_at") {
            Some(s) => s,
            None => "",
        },
    };
    let rsvps = ev.get_or_null("rsvps");
    let attending = as_i64(&rsvps, "attending");
    let waitlisted = as_i64(&rsvps, "waitlisted");
    let paid = match ev.get_bool("stripe_payment_link_active") {
        Some(b) => b,
        None => false,
    };
    Some(
        EventRow {
            meetup_token: owned(token),
            weblog_token: owned(weblog),
            starts_at: owned(starts),
            attending,
            waitlisted,
            paid,
        },
    )
}

/// The events of an upcoming payload: `data.events`.
pub open spec fn upcoming_events_spec(data: Json) -> Seq<Json> {
    match array_spec(get_spec(data, "events"@)) {
        Some(a) => a,
        None => Seq::empty(),
    }
}

/// The events of a past-events payload: `data.matches`, else `data.events`.
pub open spec fn past_events_spec(data: Json) -> Seq<Json> {
    let src = match get_spec(data, "matches"@) {
        Some(m) => Some(m),
        None => get_spec(data, "events"@),
    };
    match array_spec(src) {
        Some(a) => a,
        None => Seq::empty(),
    }
}

/// A copy of a list of documents.
pub fn dup_all(items: &Vec<JsonValue>) -> (r: Vec<JsonValue>)
    ensures
        items_view(r@) == items_view(items@),
{
    let mut out: Vec<JsonValue> = Vec::new();
    let mut i: usize = 0;
    while i < items.len()
        invariant
            0 <= i <= items@.len(),
            out@.len() == i,
            forall|k: int| 0 <= k < i ==> (#[trigger] out@[k])@ == items@[k]@,
        decreases items.len() - i,
    {
        out.push(items[i].dup());
        i = i + 1;
    }
    proof {
        assert(items_view(out@) =~= items_view(items@));
    }
    out
}

/// The events of an upcoming payload.
pub fn upcoming_events_of(data: &JsonValue) -> (r: Vec<JsonValue>)
    ensures
        items_view(r@) == upcoming_events_spec(data@),
{
    match data.get_array("events") {
        Some(a) => dup_all(a),
        None => {
            let v: Vec<JsonValue> = Vec::new();
            proof {
                assert(items_view(v@) =~= Seq::<Json>::empty());
            }
            v
        },
    }
}

/// The events of a past-events payload (search results, or an `events`
/// fallback).
pub fn past_events_of(data: &JsonValue) -> (r: Vec<JsonValue>)
    ensures
        items_view(r@) == past_events_spec(data@),
{
    let src = match data.get("matches") {
        Some(m) => Some(m),
        None => data.get("events"),
    };
    let arr = match src {
        Some(v) => v.as_array(),
        None => None,
    };
    match arr {
        Some(a) => dup_all(a),
        None => {
            let v: Vec<JsonValue> = Vec::new();
            proof {
                assert(items_view(v@) =~= Seq::<Json>::empty());
            }
            v
        },
    }
}

/// `data.truncated`, false when absent.
pub fn is_truncated(data: &JsonValue) -> (r: bool)
    ensures
        r == or_false(get_bool(data@, "truncated"@)),
{
    match data.get_bool("truncated") {
        Some(b) => b,
        None => false,
    }
}

/// A past event is cached unless its token is already cached as upcoming
/// (around start time the upcoming row wins).
pub fn keep_past_row(cached_kind: Option<&str>) -> (r: bool)
    ensures
        r == !(cached_kind matches Some(k) && k@ == "upcoming"@),
{
    match cached_kind {
        Some(k) => !crate::text::str_eq(k, "upcoming"),
        None => true,
    }
}

/// A notification about changed counts of one event.
pub struct CountNotice {
    pub title: String,
    pub old_attending: i64,
    pub new_attending: i64,
}

/// One notification per changed event per cycle: only after the first sync,
/// only when notifications are on, only when attending or waitlisted moved.
pub fn count_change_notice(
    prev: Option<(i64, i64)>,
    attending: i64,
    waitlisted: i64,
    first_sync_done: bool,
    notifications_on: bool,
    ev: &JsonValue,
) -> (r: Option<CountNotice>)
    ensures
        r is Some <==> (prev matches Some(p) && first_sync_done && notifications_on && (p.0
            != attending || p.1 != waitlisted)),
        r matches Some(n) ==> (n.title@ == (match get_str(ev@, "event_name"@) {
            Some(t) => t,
            None => "Event"@,
        }) && (prev matches Some(p) && n.old_attending == p.0) && n.new_attending == attending),
{
    match prev {
        Some((prev_att, prev_wait)) => {
            if first_sync_done && notifications_on && (prev_att != attending || prev_wait
                != waitlisted) {
                let title = match ev.get_str("event_name") {
                    Some(t) => owned(t),
                    None => owned("Event"),
                };
                Some(CountNotice { title, old_attending: prev_att, new_attending: attending })
            } else {
                None
            }
        },
        None => None,
    }
}

/// The body of a count-change notification: `attending {old} → {new}`.
pub fn notice_body(old: i64, new: i64) -> (r: String)
    ensures
        r@ == "attending "@ + decimal(old as int) + " → "@ + decimal(new as int),
{
    let mut s = owned("attending ");
    let a = i64_to_string(old);
    push_str(&mut s, a.as_str());
    push_str(&mut s, " → ");
    let b = i64_to_string(new);
    push_str(&mut s, b.as_str());
    s
}

// ---------------------------------------------------------------------------
// Event detail.
// ---------------------------------------------------------------------------

/// What the detail refresh of one cached event needs from it.
pub struct DetailPlan {
    pub weblog_token: String,
    pub event_date: String,
    pub paid: bool,
    pub content_page_token: String,
}

/// The first ten characters of `s`.
pub open spec fn first_ten(s: Seq<char>) -> Seq<char> {
    if s.len() <= 10 {
        s
    } else {
        s.subrange(0, 10)
    }
}

/// The event's local date: `starts_at_local_date`, else the date part of
/// `starts_at_utc`, else empty.
pub open spec fn event_date_spec(ev: Json) -> Seq<char> {
    match get_str(ev, "starts_at_local_date"@) {
        Some(d) => d,
        None => match get_str(ev, "starts_at_utc"@) {
            Some(s) => first_ten(s),
            None => Seq::empty(),
        },
    }
}

/// `content_page_token`, else `refs.content_page_token`, else empty.
pub open spec fn content_page_token_spec(ev: Json) -> Seq<char> {
    match get_str(ev, "content_page_token"@) {
        Some(t) => t,
        None => match get_spec(ev, "refs"@) {
            Some(r) => or_empty(get_str(r, "content_page_token"@)),
            None => Seq::empty(),
        },
    }
}

pub fn detail_plan(ev: &JsonValue) -> (r: DetailPlan)
    ensures
        r.weblog_token@ == or_empty(get_str(ev@, "weblog_token"@)),
        r.event_date@ == event_date_spec(ev@),
        r.paid == or_false(get_bool(ev@, "stripe_payment_link_active"@)),
        r.content_page_token@ == content_page_token_spec(ev@),
{
    proof {
        reveal_strlit("");
        assert(""@ =~= Seq::<char>::empty());
    }
    let weblog: &str = match ev.get_str("weblog_token") {
        Some(w) => w,
        None => "",
    };
    let date: String = match ev.get_str("starts_at_local_date") {
        Some(d) => owned(d),
        None => match ev.get_str("starts_at_utc") {
            Some(s) => {
                let cs = chars_of(s);
                let n = if cs.len() <= 10 {
                    cs.len()
                } else {
                    10
                };
                let head = slice_chars(cs.as_slice(), 0, n);
                proof {
                    if cs@.len() <= 10 {
                        assert(cs@.subrange(0, n as int) =~= cs@);
                    }
                }
                crate::text::string_of(head.as_slice())
            },
            None => owned(""),
        },
    };
    let paid = match ev.get_bool("stripe_payment_link_active") {
        Some(b) => b,
        None => false,
    };
    let cpt: &str = match ev.get_str("content_page_token") {
        Some(t) => t,
        None => match ev.get("refs") {
            Some(refs) => match refs.get_str("content_page_token") {
                Some(t) => t,
                None => "",
            },
            None => "",
        },
    };
    DetailPlan {
        weblog_token: owned(weblog),
        event_date: date,
        paid,
        content_page_token: owned(cpt),
    }
}

/// The `YYYY-MM-DD` date `days` days before the `YYYY-MM-DD` date `date`, as
/// chrono computes it; `None` when `date` is not such a date or the result
/// leaves chrono's range.
pub uninterp spec fn date_days_before(date: Seq<char>, days: int) -> Option<Seq<char>>;

pub open spec fn opt_string_view(o: Option<String>) -> Option<Seq<char>> {
    match o {
        Some(s) => Some(s@),
        None => None,
    }
}

/// `NaiveDate::parse_from_str(date, "%Y-%m-%d")`, then `checked_sub_days` of
/// `days` days, then formatted as `%Y-%m-%d`. The result depends on `date`
/// and `days` alone.
#[verifier::external_body]
fn date_days_before_exec(date: &str, days: u64) -> (r: Option<String>)
    ensures
        opt_string_view(r) == date_days_before(date@, days as int),
{
    match chrono::NaiveDate::parse_from_str(date, "%Y-%m-%d") {
        Ok(d) => match d.checked_sub_days(chrono::Days::new(days)) {
            Some(x) => Some(x.format("%Y-%m-%d").to_string()),
            None => None,
        },
        Err(_) => None,
    }
}

/// How far before an event its traffic window starts, in days.
pub const TRAFFIC_WINDOW_DAYS: u64 = 180;

/// Start of the traffic window for an event's performance: about six months
/// (`TRAFFIC_WINDOW_DAYS`) before the event date, or the event date itself
/// when it can't be read as a date.
pub fn traffic_from(event_date: &str) -> (r: String)
    ensures
        r@ == match date_days_before(event_date@, TRAFFIC_WINDOW_DAYS as int) {
            Some(d) => d,
            None => event_date@,
        },
{
    match date_days_before_exec(event_date, TRAFFIC_WINDOW_DAYS) {
        Some(d) => d,
        None => owned(event_date),
    }
}

/// The first item whose `meetup_token` is `token`.
pub open spec fn first_with_token(items: Seq<Json>, token: Seq<char>) -> Option<Json>
    decreases items.len(),
{
    if items.len() == 0 {
        None
    } else if get_str(items[0], "meetup_token"@) == Some(token) {
        Some(items[0])
    } else {
        first_with_token(items.drop_first(), token)
    }
}

/// This event's row of a performance payload (`data.events`).
pub fn performance_row(data: &JsonValue, meetup_token: &str) -> (r: Option<JsonValue>)
    ensures
        match r {
            Some(x) => array_spec(get_spec(data@, "events"@)) matches Some(a)
                && first_with_token(a, meetup_token@) == Some(x@),
            None => !(array_spec(get_spec(data@, "events"@)) matches Some(a) && first_with_token(
                a,
                meetup_token@,
            ) is Some),
        },
{
    let arr = match data.get_array("events") {
        Some(a) => a,
        None => {
            return None;
        },
    };
    let ghost all = items_view(arr@);
    proof {
        assert(all.subrange(0, all.len() as int) =~= all);
    }
    let mut i: usize = 0;
    while i < arr.len()
        invariant
            0 <= i <= arr@.len(),
            all == items_view(arr@),
            array_spec(get_spec(data@, "events"@)) == Some(all),
            first_with_token(all, meetup_token@) == first_with_token(
                all.subrange(i as int, all.len() as int),
                meetup_token@,
            ),
        decreases arr.len() - i,
    {
        let ghost rest = all.subrange(i as int, all.len() as int);
        proof {
            assert(rest.drop_first() =~= all.subrange(i + 1, all.len() as int));
            assert(rest[0] == arr@[i as int]@);
        }
        let matches = match arr[i].get_str("meetup_token") {
            Some(t) => crate::text::str_eq(t, meetup_token),
            None => false,
        };
        if matches {
            return Some(arr[i].dup());
        }
        i = i + 1;
    }
    None
}

// ---------------------------------------------------------------------------
// Email lifecycle.
// ---------------------------------------------------------------------------

/// A send job is still moving when it is queued, sending or active and not
/// done.
pub open spec fn job_is_active_spec(job: Json) -> bool {
    if get_bool(job, "done"@) == Some(true) {
        false
    } else {
        let s = get_str(job, "status"@);
        s == Some("queued"@) || s == Some("sending"@) || s == Some("active"@)
    }
}

pub fn job_is_active(job: &JsonValue) -> (r: bool)
    ensures
        r == job_is_active_spec(job@),
{
    if job.get_bool("done") == Some(true) {
        return false;
    }
    match job.get_str("status") {
        Some(s) => crate::text::str_eq(s, "queued") || crate::text::str_eq(s, "sending")
            || crate::text::str_eq(s, "active"),
        None => false,
    }
}

/// The token a send job row is kept under: `token`, else `send_job_token`
/// (the first field present decides; it must be a string).
pub open spec fn send_job_key_spec(job: Json) -> Option<Seq<char>> {
    let f = match get_spec(job, "token"@) {
        Some(x) => Some(x),
        None => get_spec(job, "send_job_token"@),
    };
    str_spec(f)
}

pub fn send_job_key(job: &JsonValue) -> (r: Option<&str>)
    ensures
        match r {
            Some(t) => send_job_key_spec(job@) == Some(t@),
            None => send_job_key_spec(job@) is None,
        },
{
    let f = match job.get("token") {
        Some(x) => Some(x),
        None => job.get("send_job_token"),
    };
    match f {
        Some(x) => x.as_str(),
        None => None,
    }
}

/// The error code a failed call records its surface as blocked with: only a
/// capability block records one.
pub open spec fn blocked_code<T>(r: AppResult<T>) -> Option<Seq<char>> {
    match r {
        Err(e) => if is_capability_block_spec(e) {
            Some(code_spec(e))
        } else {
            None
        },
        Ok(_) => None,
    }
}

/// The `Retry-After` a rate-limited call backs its surface off with; `None`
/// when the call was not rate limited.
pub open spec fn backoff_hint<T>(r: AppResult<T>) -> Option<Option<int>> {
    match r {
        Err(AppError::RateLimited(msg)) => Some(retry_after_spec(msg@)),
        _ => None,
    }
}

pub open spec fn opt_hint(o: Option<Option<i64>>) -> Option<Option<int>> {
    match o {
        Some(h) => Some(opt_int(h)),
        None => None,
    }
}

/// The calls of a chapter email refresh, in the order they are made:
/// deliverability health, fatigue risk, the recent send jobs.
#[derive(Debug, Clone, Copy, PartialEq, Eq, Structural)]
pub enum ChapterStep {
    Health,
    Fatigue,
    JobsList,
}

/// The call after `step` when nothing stops the refresh.
pub open spec fn chapter_after(step: ChapterStep) -> Option<ChapterStep> {
    match step {
        ChapterStep::Health => Some(ChapterStep::Fatigue),
        ChapterStep::Fatigue => Some(ChapterStep::JobsList),
        ChapterStep::JobsList => None,
    }
}

/// What a chapter email refresh does after the outcome of one call.
pub struct ChapterMove {
    /// The call to make next; `None` once the refresh goes on to store what
    /// it gathered.
    pub next: Option<ChapterStep>,
    /// The error code to record the chapter surface as blocked with.
    pub blocked: Option<String>,
    /// Back the chapter surface off, with the `Retry-After` that came back.
    pub backoff: Option<Option<i64>>,
    /// End the refresh with the call's error, storing nothing.
    pub fail: bool,
}

/// A capability block records its code and skips the later calls; a rate
/// limit backs off, and on the first call also ends the refresh with the
/// error; any other outcome goes on to the next call.
pub fn chapter_email_step<T>(step: ChapterStep, result: &AppResult<T>) -> (m: ChapterMove)
    ensures
        m.fail == (step == ChapterStep::Health && backoff_hint(*result) is Some),
        opt_string_view(m.blocked) == blocked_code(*result),
        opt_hint(m.backoff) == backoff_hint(*result),
        m.next == (if m.fail || blocked_code(*result) is Some {
            None
        } else {
            chapter_after(step)
        }),
{
    let (blocked, backoff) = outcome_parts(result);
    let fail = match step {
        ChapterStep::Health => backoff.is_some(),
        _ => false,
    };
    let next = if fail || blocked.is_some() {
        None
    } else {
        match step {
            ChapterStep::Health => Some(ChapterStep::Fatigue),
            ChapterStep::Fatigue => Some(ChapterStep::JobsList),
            ChapterStep::JobsList => None,
        }
    };
    ChapterMove { next, blocked, backoff, fail }
}

/// The blocked code and the backoff hint of one call's outcome.
fn outcome_parts<T>(result: &AppResult<T>) -> (r: (Option<String>, Option<Option<i64>>))
    ensures
        opt_string_view(r.0) == blocked_code(*result),
        opt_hint(r.1) == backoff_hint(*result),
{
    match result {
        Ok(_) => (None, None),
        Err(e) => {
            if e.is_capability_block() {
                (Some(owned(e.code())), None)
            } else {
                match e {
                    AppError::RateLimited(msg) => (None, Some(parse_retry_after(msg.as_str()))),
                    _ => (None, None),
                }
            }
        },
    }
}

/// The calls of an event email refresh: the send-job summary, then the
/// campaign performance.
#[derive(Debug, Clone, Copy, PartialEq, Eq, Structural)]
pub enum EventStep {
    Summary,
    Campaign,
}

/// What an event email refresh does after the outcome of one call.
pub struct EventMove {
    /// The call to make next; `None` once the refresh goes on to poll the
    /// active send jobs.
    pub next: Option<EventStep>,
    /// The error code to record the event surface as blocked with; the
    /// refresh then ends without polling.
    pub blocked: Option<String>,
    /// Back the event surface off, with the `Retry-After` that came back.
    pub backoff: Option<Option<i64>>,
    /// End the refresh with the call's error, storing nothing.
    pub fail: bool,
}

/// On the summary: a capability block records its code and ends the
/// refresh; a rate limit backs off and ends it with the error; otherwise the
/// campaign performance comes next unless it is cached. On the campaign
/// call, which only enriches: a rate limit backs off, nothing else counts.
pub fn event_email_step<T>(step: EventStep, result: &AppResult<T>, campaign_cached: bool) -> (m: EventMove)
    ensures
        step == EventStep::Summary ==> {
            &&& m.fail == backoff_hint(*result) is Some
            &&& opt_string_view(m.blocked) == blocked_code(*result)
            &&& m.next == (if m.fail || blocked_code(*result) is Some || campaign_cached {
                None
            } else {
                Some(EventStep::Campaign)
            })
        },
        step == EventStep::Campaign ==> !m.fail && m.blocked is None && m.next is None,
        opt_hint(m.backoff) == backoff_hint(*result),
{
    let (blocked, backoff) = outcome_parts(result);
    match step {
        EventStep::Summary => {
            let fail = backoff.is_some();
            let next = if fail || blocked.is_some() || campaign_cached {
                None
            } else {
                Some(EventStep::Campaign)
            };
            EventMove { next, blocked, backoff, fail }
        },
        EventStep::Campaign => EventMove { next: None, blocked: None, backoff, fail: false },
    }
}

/// The calls of one send job poll: the job itself (its progress and whether
/// it is done), then its throughput series.
#[derive(Debug, Clone, Copy, PartialEq, Eq, Structural)]
pub enum PollStep {
    Job,
    Throughput,
}

/// What a poll caches after its throughput call.
#[derive(Debug, Clone, Copy, PartialEq, Eq, Structural)]
pub enum PollWrite {
    /// Nothing.
    Nothing,
    /// The series that came back, with the job's progress.
    Series,
    /// The job's progress alone, the series being unavailable.
    ProgressOnly,
}

/// What a send job poll does after the outcome of one call.
pub struct PollMove {
    /// The call to make next; `None` when the poll is over.
    pub next: Option<PollStep>,
    /// Back throughput polling off, with the `Retry-After` that came back.
    pub backoff: Option<Option<i64>>,
    /// What to cache.
    pub write: PollWrite,
}

/// A rate limit backs off and ends the poll, writing nothing. Otherwise the
/// job call is followed by the throughput call, which caches the series on
/// success and the job's progress alone on any other failure.
pub fn poll_step<T>(step: PollStep, result: &AppResult<T>) -> (m: PollMove)
    ensures
        opt_hint(m.backoff) == backoff_hint(*result),
        m.next == (if step == PollStep::Job && backoff_hint(*result) is None {
            Some(PollStep::Throughput)
        } else {
            None
        }),
        m.write == (if step == PollStep::Job || backoff_hint(*result) is Some {
            PollWrite::Nothing
        } else if result is Ok {
            PollWrite::Series
        } else {
            PollWrite::ProgressOnly
        }),
{
    let backoff = match result {
        Err(AppError::RateLimited(msg)) => Some(parse_retry_after(msg.as_str())),
        _ => None,
    };
    let limited = backoff.is_some();
    match step {
        PollStep::Job => PollMove {
            next: if limited {
                None
            } else {
                Some(PollStep::Throughput)
            },
            backoff,
            write: PollWrite::Nothing,
        },
        PollStep::Throughput => PollMove {
            next: None,
            backoff,
            write: if limited {
                PollWrite::Nothing
            } else if result.is_ok() {
                PollWrite::Series
            } else {
                PollWrite::ProgressOnly
            },
        },
    }
}

/// The tokens of the active send jobs in a summary's job list, in order:
/// the jobs whose throughput is worth polling.
pub open spec fn active_tokens_spec(jobs: Seq<Json>) -> Seq<Seq<char>>
    decreases jobs.len(),
{
    if jobs.len() == 0 {
        Seq::empty()
    } else {
        let rest = active_tokens_spec(jobs.drop_last());
        match send_job_key_spec(jobs.last()) {
            Some(t) => if job_is_active_spec(jobs.last()) {
                rest.push(t)
            } else {
                rest
            },
            None => rest,
        }
    }
}

pub fn active_job_tokens(jobs: &Vec<JsonValue>) -> (r: Vec<String>)
    ensures
        strings_view(r@) == active_tokens_spec(items_view(jobs@)),
{
    let ghost jv = items_view(jobs@);
    let mut out: Vec<String> = Vec::new();
    let mut i: usize = 0;
    while i < jobs.len()
        invariant
            0 <= i <= jobs@.len(),
            jv == items_view(jobs@),
            strings_view(out@) == active_tokens_spec(jv.take(i as int)),
        decreases jobs.len() - i,
    {
        let ghost before = out@;
        proof {
            assert(jv.take(i + 1).drop_last() =~= jv.take(i as int));
            assert(jv.take(i + 1).last() == jobs@[i as int]@);
        }
        match send_job_key(&jobs[i]) {
            Some(t) => {
                if job_is_active(&jobs[i]) {
                    out.push(owned(t));
                    proof {
                        assert(strings_view(out@) =~= strings_view(before).push(t@));
                    }
                }
            },
            None => {},
        }
        i = i + 1;
    }
    proof {
        assert(jv.take(jobs@.len() as int) =~= jv);
    }
    out
}

/// Of the active send jobs, those to poll now: the ones not already cached
/// as done (`done[i]` says so of `tokens[i]`). A finished job is frozen.
pub fn tokens_to_poll(tokens: &Vec<String>, done: &Vec<bool>) -> (r: Vec<String>)
    requires
        tokens@.len() == done@.len(),
    ensures
        strings_view(r@) == undone_spec(strings_view(tokens@), done@),
{
    let ghost tv = strings_view(tokens@);
    let mut out: Vec<String> = Vec::new();
    let mut i: usize = 0;
    while i < tokens.len()
        invariant
            0 <= i <= tokens@.len(),
            tokens@.len() == done@.len(),
            tv == strings_view(tokens@),
            strings_view(out@) == undone_spec(tv.take(i as int), done@.take(i as int)),
        decreases tokens.len() - i,
    {
        let ghost before = out@;
        proof {
            assert(tv.take(i + 1).drop_last() =~= tv.take(i as int));
            assert(done@.take(i + 1).drop_last() =~= done@.take(i as int));
        }
        if !done[i] {
            out.push(tokens[i].clone());
            proof {
                assert(strings_view(out@) =~= strings_view(before).push(tokens@[i as int]@));
            }
        }
        i = i + 1;
    }
    proof {
        assert(tv.take(tokens@.len() as int) =~= tv);
        assert(done@.take(tokens@.len() as int) =~= done@);
    }
    out
}

/// The tokens whose flag in `done` is false, in order.
pub open spec fn undone_spec(tokens: Seq<Seq<char>>, done: Seq<bool>) -> Seq<Seq<char>>
    decreases tokens.len(),
{
    if tokens.len() == 0 || done.len() != tokens.len() {
        Seq::empty()
    } else {
        let rest = undone_spec(tokens.drop_last(), done.drop_last());
        if done.last() {
            rest
        } else {
            rest.push(tokens.last())
        }
    }
}

/// A send job counts as finished when it says `done`, or when its status is
/// terminal (completed, failed or cancelled).
pub open spec fn job_finished_spec(job: Json) -> bool {
    let s = get_str(job, "status"@);
    get_bool(job, "done"@) == Some(true) || s == Some("completed"@) || s == Some("failed"@) || s
        == Some("cancelled"@)
}

/// A polled send job is finished exactly when its `done` flag is true or its
/// status is completed, failed or cancelled, whatever the flag says then;
/// the job is `data.send_job`, else the data itself.
pub proof fn lemma_terminal_job_is_finished(data: Json)
    ensures
        ({
            let job = match get_spec(data, "send_job"@) {
                Some(j) => j,
                None => data,
            };
            job_finished_spec(polled_job_spec(data)) <==> ({
                ||| get_bool(job, "done"@) == Some(true)
                ||| get_str(job, "status"@) == Some("completed"@)
                ||| get_str(job, "status"@) == Some("failed"@)
                ||| get_str(job, "status"@) == Some("cancelled"@)
            })
        }),
{
}

/// The job of a `email_send_jobs/get` payload: `data.send_job`, else the data.
pub open spec fn polled_job_spec(data: Json) -> Json {
    match get_spec(data, "send_job"@) {
        Some(j) => j,
        None => data,
    }
}

/// Progress of a polled send job: whether it is finished, and its
/// `send_progress` (else the job itself).
pub fn poll_progress(data: &JsonValue) -> (r: (bool, JsonValue))
    ensures
        r.0 == job_finished_spec(polled_job_spec(data@)),
        r.0 <==> ({
            let job = match get_spec(data@, "send_job"@) {
                Some(j) => j,
                None => data@,
            };
            ||| get_bool(job, "done"@) == Some(true)
            ||| get_str(job, "status"@) == Some("completed"@)
            ||| get_str(job, "status"@) == Some("failed"@)
            ||| get_str(job, "status"@) == Some("cancelled"@)
        }),
        r.1@ == match get_spec(polled_job_spec(data@), "send_progress"@) {
            Some(p) => p,
            None => polled_job_spec(data@),
        },
{
    let job: &JsonValue = match data.get("send_job") {
        Some(j) => j,
        None => data,
    };
    let done = job.get_bool("done") == Some(true) || match job.get_str("status") {
        Some(s) => crate::text::str_eq(s, "completed") || crate::text::str_eq(s, "failed")
            || crate::text::str_eq(s, "cancelled"),
        None => false,
    };
    let progress = match job.get("send_progress") {
        Some(p) => p.dup(),
        None => job.dup(),
    };
    (done, progress)
}

/// The fatigue tier summary kept for the chapter: only `summary` (null when
/// absent) and `truncated`, never per-subscriber rows.
pub fn fatigue_summary(data: &JsonValue) -> (r: JsonValue)
    ensures
        r@ == Json::Obj(
            seq![("summary"@, get_or_null_spec(data@, "summary"@))].push(
                ("truncated"@, Json::Bool(or_false(get_bool(data@, "truncated"@)))),
            ),
        ),
{
    let mut f: Vec<(String, JsonValue)> = Vec::new();
    f.push((owned("summary"), data.get_or_null("summary")));
    f.push((owned("truncated"), JsonValue::Bool(is_truncated(data))));
    proof {
        crate::json::lemma_object_view(f);
        assert(crate::json::fields_view(f@) =~= seq![
            ("summary"@, get_or_null_spec(data@, "summary"@)),
        ].push(("truncated"@, Json::Bool(or_false(get_bool(data@, "truncated"@))))));
    }
    JsonValue::Object(f)
}


// ---------------------------------------------------------------------------
// Survey and follow-up.
// ---------------------------------------------------------------------------

/// The rows of a survey report: `data.rows`, else `data.meetups` (the first
/// field present decides; it must be an array).
pub open spec fn report_rows_spec(data: Json) -> Option<Seq<Json>> {
    let f = match get_spec(data, "rows"@) {
        Some(x) => Some(x),
        None => get_spec(data, "meetups"@),
    };
    array_spec(f)
}

/// A report row belongs to the meetup when its `meetup_token`, or its
/// `refs.meetup_token`, is the meetup's token.
pub open spec fn report_row_is_for(row: Json, token: Seq<char>) -> bool {
    ||| pick_str_spec(row, seq!["meetup_token"@]) == Some(token)
    ||| (get_spec(row, "refs"@) matches Some(refs) && pick_str_spec(refs, seq!["meetup_token"@])
        == Some(token))
}

/// The first row of `rows` that belongs to the meetup.
pub open spec fn first_row_for(rows: Seq<Json>, token: Seq<char>) -> Option<Json>
    decreases rows.len(),
{
    if rows.len() == 0 {
        None
    } else if report_row_is_for(rows[0], token) {
        Some(rows[0])
    } else {
        first_row_for(rows.drop_first(), token)
    }
}

fn row_is_for(row: &JsonValue, meetup_token: &str) -> (r: bool)
    ensures
        r == report_row_is_for(row@, meetup_token@),
{
    let names: [&str; 1] = ["meetup_token"];
    proof {
        assert(crate::json::names_view(names@) =~= seq!["meetup_token"@]);
    }
    let direct = match pick_str(row, &names) {
        Some(t) => crate::text::str_eq(t, meetup_token),
        None => false,
    };
    if direct {
        return true;
    }
    match row.get("refs") {
        Some(refs) => match pick_str(refs, &names) {
            Some(t) => crate::text::str_eq(t, meetup_token),
            None => false,
        },
        None => false,
    }
}

/// This meetup's row of a cross-meetup survey report, if the report has one.
pub fn find_report_row(data: &JsonValue, meetup_token: &str) -> (r: Option<JsonValue>)
    ensures
        match r {
            Some(x) => report_rows_spec(data@) matches Some(rows) && first_row_for(
                rows,
                meetup_token@,
            ) == Some(x@),
            None => !(report_rows_spec(data@) matches Some(rows) && first_row_for(
                rows,
                meetup_token@,
            ) is Some),
        },
{
    let f = match data.get("rows") {
        Some(x) => Some(x),
        None => data.get("meetups"),
    };
    let arr = match f {
        Some(x) => match x.as_array() {
            Some(a) => a,
            None => {
                return None;
            },
        },
        None => {
            return None;
        },
    };
    let ghost all = items_view(arr@);
    proof {
        assert(all.subrange(0, all.len() as int) =~= all);
    }
    let mut i: usize = 0;
    while i < arr.len()
        invariant
            0 <= i <= arr@.len(),
            all == items_view(arr@),
            report_rows_spec(data@) == Some(all),
            first_row_for(all, meetup_token@) == first_row_for(
                all.subrange(i as int, all.len() as int),
                meetup_token@,
            ),
        decreases arr.len() - i,
    {
        let ghost rest = all.subrange(i as int, all.len() as int);
        proof {
            assert(rest.drop_first() =~= all.subrange(i + 1, all.len() as int));
            assert(rest[0] == arr@[i as int]@);
        }
        if row_is_for(&arr[i], meetup_token) {
            return Some(arr[i].dup());
        }
        i = i + 1;
    }
    None
}

/// A campaign looks like the survey follow-up when its lowercased label
/// mentions "follow" or "survey".
pub open spec fn is_followup_campaign(c: Json) -> bool {
    let label = crate::text::lowercase(or_empty(pick_str_spec(c, seq!["campaign_label"@])));
    crate::text::contains_text(label, "follow"@) || crate::text::contains_text(label, "survey"@)
}

/// The campaigns of a campaign-performance payload (`data.campaigns`).
pub open spec fn campaigns_spec(data: Json) -> Seq<Json> {
    match array_spec(get_spec(data, "campaigns"@)) {
        Some(a) => a,
        None => Seq::empty(),
    }
}

/// The campaigns the follow-up engagement is summed over: those that look
/// like the survey follow-up, or all of them (already scoped to the meetup)
/// when none does.
pub open spec fn followup_rows_spec(data: Json) -> Seq<Json> {
    let all = campaigns_spec(data);
    let f = all.filter(|c: Json| is_followup_campaign(c));
    if f.len() == 0 {
        all
    } else {
        f
    }
}

/// Some campaign's label mentions follow or survey.
pub open spec fn any_followup(campaigns: Seq<Json>) -> bool {
    exists|i: int| 0 <= i < campaigns.len() && is_followup_campaign(#[trigger] campaigns[i])
}

/// The follow-up engagement is summed over the campaigns of
/// `data.campaigns` whose label mentions follow or survey, exactly those;
/// when no label does, over every campaign.
pub proof fn lemma_followup_rows(data: Json)
    ensures
        ({
            let all = match array_spec(get_spec(data, "campaigns"@)) {
                Some(a) => a,
                None => Seq::empty(),
            };
            &&& !any_followup(all) ==> followup_rows_spec(data) == all
            &&& any_followup(all) ==> forall|c: Json|
                #![trigger followup_rows_spec(data).contains(c)]
                followup_rows_spec(data).contains(c) <==> (all.contains(c) && is_followup_campaign(
                    c,
                ))
        }),
{
    broadcast use vstd::seq_lib::group_filter_ensures;

    let all = campaigns_spec(data);
    let pred = |c: Json| is_followup_campaign(c);
    let f = all.filter(pred);
    assert(followup_rows_spec(data) == (if f.len() == 0 {
        all
    } else {
        f
    }));
    if f.len() > 0 {
        assert(pred(f[0]));
        assert(f.contains(f[0]));
        all.lemma_filter_contains_rev(pred, f[0]);
        let j = choose|j: int| 0 <= j < all.len() && all[j] == f[0];
        assert(is_followup_campaign(all[j]));
        assert(any_followup(all));
    }
    if any_followup(all) {
        let i = choose|i: int| 0 <= i < all.len() && is_followup_campaign(#[trigger] all[i]);
        assert(f.contains(all[i]));
        assert(f.len() > 0);
        assert forall|c: Json| #![trigger f.contains(c)]
            f.contains(c) <==> (all.contains(c) && is_followup_campaign(c)) by {
            if f.contains(c) {
                let k = choose|k: int| 0 <= k < f.len() && f[k] == c;
                assert(pred(f[k]));
                all.lemma_filter_contains_rev(pred, c);
            }
            if all.contains(c) && is_followup_campaign(c) {
                let k = choose|k: int| 0 <= k < all.len() && all[k] == c;
                assert(f.contains(all[k]));
            }
        }
        assert(followup_rows_spec(data) == f);
    }
}

fn campaign_is_followup(c: &JsonValue) -> (r: bool)
    ensures
        r == is_followup_campaign(c@),
{
    let names: [&str; 1] = ["campaign_label"];
    proof {
        assert(crate::json::names_view(names@) =~= seq!["campaign_label"@]);
        reveal_strlit("");
        assert(""@ =~= Seq::<char>::empty());
    }
    let label: &str = match pick_str(c, &names) {
        Some(l) => l,
        None => "",
    };
    let lower = crate::text::to_lowercase(label);
    crate::text::contains_str(lower.as_str(), "follow") || crate::text::contains_str(
        lower.as_str(),
        "survey",
    )
}

/// Copies of the campaign rows the follow-up engagement is computed from.
pub fn followup_campaigns(data: &JsonValue) -> (r: Vec<JsonValue>)
    ensures
        items_view(r@) == followup_rows_spec(data@),
{
    let all: Vec<JsonValue> = match data.get_array("campaigns") {
        Some(a) => dup_all(a),
        None => Vec::new(),
    };
    let ghost av = items_view(all@);
    proof {
        assert(av =~= campaigns_spec(data@));
    }
    let ghost pred = |c: Json| is_followup_campaign(c);
    let mut picked: Vec<JsonValue> = Vec::new();
    let mut i: usize = 0;
    proof {
        reveal(Seq::filter);
        assert(av.take(0) =~= Seq::<Json>::empty());
        assert(items_view(picked@) =~= av.take(0).filter(pred));
    }
    while i < all.len()
        invariant
            0 <= i <= all@.len(),
            av == items_view(all@),
            pred == (|c: Json| is_followup_campaign(c)),
            items_view(picked@) == av.take(i as int).filter(pred),
        decreases all.len() - i,
    {
        let ghost before = picked@;
        proof {
            reveal(Seq::filter);
            assert(av.take(i + 1).drop_last() =~= av.take(i as int));
            assert(av.take(i + 1).last() == all@[i as int]@);
        }
        if campaign_is_followup(&all[i]) {
            picked.push(all[i].dup());
            proof {
                assert(items_view(picked@) =~= items_view(before).push(all@[i as int]@));
            }
        }
        i = i + 1;
    }
    proof {
        assert(av.take(all@.len() as int) =~= av);
    }
    if picked.len() == 0 {
        all
    } else {
        picked
    }
}

// ---------------------------------------------------------------------------
// Tray.
// ---------------------------------------------------------------------------

/// The tray title: `{attending} · {days}d` for the next event, `—` when there
/// is none.
pub fn tray_title(next: Option<&JsonValue>) -> (r: String)
    ensures
        r@ == match next {
            Some(ev) => decimal(or_zero(get_i64(ev@, "attending"@))) + " · "@ + decimal(
                or_zero(get_i64(ev@, "days"@)),
            ) + "d"@,
            None => "—"@,
        },
{
    match next {
        Some(ev) => {
            let att = as_i64(ev, "attending");
            let days = as_i64(ev, "days");
            let mut s = i64_to_string(att);
            push_str(&mut s, " · ");
            let d = i64_to_string(days);
            push_str(&mut s, d.as_str());
            push_str(&mut s, "d");
            s
        },
        None => owned("—"),
    }
}

// ---------------------------------------------------------------------------
// The next event.
// ---------------------------------------------------------------------------

/// A cached event may be shown as the next one: it is not a past event, and
/// it is at least zero days away or marked `future` or `today` in its own
/// time zone (a missing day count counts as -9999).
pub open spec fn is_next_candidate(ev: Json) -> bool {
    let days = match get_i64(ev, "days_until_event_in_event_timezone"@) {
        Some(d) => d,
        None => -9999,
    };
    let rel = get_str(ev, "relative_day_in_event_timezone"@);
    &&& get_str(ev, "kind"@) != Some("past"@)
    &&& (days >= 0 || rel == Some("future"@) || rel == Some("today"@))
}

/// The key candidates are ordered by: `starts_at_utc`, or `""`.
pub open spec fn start_key(ev: Json) -> Seq<char> {
    or_empty(get_str(ev, "starts_at_utc"@))
}

/// `events[i]` is the next event: a candidate whose start sorts first, and
/// the earliest in the list among candidates with that start.
pub open spec fn is_next_index(events: Seq<Json>, i: int) -> bool {
    &&& 0 <= i < events.len()
    &&& is_next_candidate(events[i])
    &&& forall|j: int|
        0 <= j < events.len() && is_next_candidate(#[trigger] events[j]) ==> !crate::text::chars_lt(
            start_key(events[j]),
            start_key(events[i]),
        )
    &&& forall|j: int|
        0 <= j < i && is_next_candidate(#[trigger] events[j]) ==> start_key(events[j]) != start_key(
            events[i],
        )
}

/// The compact payload shown for the next event.
pub open spec fn next_event_payload(ev: Json) -> Json {
    let rsvps = get_or_null_spec(ev, "rsvps"@);
    Json::Obj(
        seq![("meetup_token"@, get_or_null_spec(ev, "meetup_token"@))].push(
            ("name"@, get_or_null_spec(ev, "event_name"@)),
        ).push(("city"@, get_or_null_spec(ev, "city"@))).push(
            ("when"@, get_or_null_spec(ev, "starts_at_local"@)),
        ).push(("days"@, get_or_null_spec(ev, "days_until_event_in_event_timezone"@))).push(
            ("attending"@, get_or_null_spec(rsvps, "attending"@)),
        ).push(("capacity"@, get_or_null_spec(rsvps, "capacity"@))).push(
            ("registered"@, get_or_null_spec(rsvps, "registered"@)),
        ).push(("waitlisted"@, get_or_null_spec(rsvps, "waitlisted"@))).push(
            ("cancelled"@, get_or_null_spec(rsvps, "cancelled"@)),
        ),
    )
}

/// At most one position of a list is the next event.
pub proof fn lemma_next_index_unique(events: Seq<Json>, i: int, j: int)
    requires
        is_next_index(events, i),
        is_next_index(events, j),
    ensures
        i == j,
{
    if i != j {
        let (a, b) = if i < j {
            (i, j)
        } else {
            (j, i)
        };
        assert(is_next_candidate(events[a]));
        assert(is_next_candidate(events[b]));
        assert(start_key(events[a]) != start_key(events[b]));
        crate::text::lemma_chars_lt_total(start_key(events[a]), start_key(events[b]));
    }
}

fn is_candidate(ev: &JsonValue) -> (r: bool)
    ensures
        r == is_next_candidate(ev@),
{
    proof {
        reveal_strlit("past");
        reveal_strlit("future");
        reveal_strlit("today");
    }
    match ev.get_str("kind") {
        Some(k) => {
            if crate::text::str_eq(k, "past") {
                return false;
            }
        },
        None => {},
    }
    let days: i64 = match ev.get_i64("days_until_event_in_event_timezone") {
        Some(d) => d,
        None => -9999,
    };
    if days >= 0 {
        return true;
    }
    match ev.get_str("relative_day_in_event_timezone") {
        Some(r) => crate::text::str_eq(r, "future") || crate::text::str_eq(r, "today"),
        None => false,
    }
}

fn start_key_of(ev: &JsonValue) -> (r: &str)
    ensures
        r@ == start_key(ev@),
{
    proof {
        reveal_strlit("");
        assert(""@ =~= Seq::<char>::empty());
    }
    match ev.get_str("starts_at_utc") {
        Some(s) => s,
        None => "",
    }
}

fn next_event_payload_of(ev: &JsonValue) -> (r: JsonValue)
    ensures
        r@ == next_event_payload(ev@),
{
    let rsvps = ev.get_or_null("rsvps");
    let mut f: Vec<(String, JsonValue)> = Vec::new();
    f.push((owned("meetup_token"), ev.get_or_null("meetup_token")));
    f.push((owned("name"), ev.get_or_null("event_name")));
    f.push((owned("city"), ev.get_or_null("city")));
    f.push((owned("when"), ev.get_or_null("starts_at_local")));
    f.push((owned("days"), ev.get_or_null("days_until_event_in_event_timezone")));
    f.push((owned("attending"), rsvps.get_or_null("attending")));
    f.push((owned("capacity"), rsvps.get_or_null("capacity")));
    f.push((owned("registered"), rsvps.get_or_null("registered")));
    f.push((owned("waitlisted"), rsvps.get_or_null("waitlisted")));
    f.push((owned("cancelled"), rsvps.get_or_null("cancelled")));
    proof {
        crate::json::lemma_object_view(f);
        assert(crate::json::fields_view(f@) =~= next_event_payload(ev@)->Obj_0);
    }
    JsonValue::Object(f)
}

/// The soonest cached event that has not happened yet, as the compact
/// payload the tray and popover show; `None` when no event qualifies. Past
/// events are never chosen.
pub fn next_event(events: &Vec<JsonValue>) -> (r: Option<JsonValue>)
    ensures
        r is None <==> (forall|j: int|
            0 <= j < events@.len() ==> !is_next_candidate(#[trigger] events@[j]@)),
        r matches Some(x) ==> exists|i: int|
            is_next_index(items_view(events@), i) && x@ == next_event_payload(
                items_view(events@)[i],
            ),
        r matches Some(x) ==> exists|i: int|
            0 <= i < events@.len() && get_str(#[trigger] events@[i]@, "kind"@) != Some("past"@)
                && x@ == next_event_payload(events@[i]@),
{
    let ghost view = items_view(events@);
    let mut best: Option<usize> = None;
    let mut i: usize = 0;
    while i < events.len()
        invariant
            view == items_view(events@),
            view.len() == events@.len(),
            0 <= i <= events@.len(),
            match best {
                None => forall|j: int| 0 <= j < i ==> !is_next_candidate(#[trigger] view[j]),
                Some(b) => {
                    &&& b < i
                    &&& is_next_candidate(view[b as int])
                    &&& forall|j: int|
                        0 <= j < i && is_next_candidate(#[trigger] view[j])
                            ==> !crate::text::chars_lt(start_key(view[j]), start_key(view[b as int]))
                    &&& forall|j: int|
                        0 <= j < b && is_next_candidate(#[trigger] view[j]) ==> start_key(view[j])
                            != start_key(view[b as int])
                },
            },
        decreases events.len() - i,
    {
        let ev = &events[i];
        assert(view[i as int] == events@[i as int]@);
        if is_candidate(ev) {
            match best {
                None => {
                    proof {
                        crate::text::lemma_chars_lt_irreflexive(start_key(view[i as int]));
                    }
                    best = Some(i);
                },
                Some(b) => {
                    let kb = start_key_of(&events[b]);
                    let ki = start_key_of(ev);
                    assert(view[b as int] == events@[b as int]@);
                    if crate::text::str_lt(ki, kb) {
                        proof {
                            let ghost old_b = b as int;
                            crate::text::lemma_chars_lt_irreflexive(start_key(view[i as int]));
                            assert forall|j: int|
                                0 <= j < i + 1 && is_next_candidate(#[trigger] view[j]) implies !crate::text::chars_lt(
                                start_key(view[j]),
                                start_key(view[i as int]),
                            ) by {
                                if j < i && crate::text::chars_lt(
                                    start_key(view[j]),
                                    start_key(view[i as int]),
                                ) {
                                    crate::text::lemma_chars_lt_transitive(
                                        start_key(view[j]),
                                        start_key(view[i as int]),
                                        start_key(view[old_b]),
                                    );
                                }
                            }
                            assert forall|j: int|
                                0 <= j < i && is_next_candidate(#[trigger] view[j]) implies start_key(
                                view[j],
                            ) != start_key(view[i as int]) by {
                                if start_key(view[j]) == start_key(view[i as int]) {
                                    assert(!crate::text::chars_lt(
                                        start_key(view[j]),
                                        start_key(view[old_b]),
                                    ));
                                }
                            }
                        }
                        best = Some(i);
                    }
                },
            }
        }
        i = i + 1;
    }
    match best {
        None => {
            proof {
                assert forall|j: int| 0 <= j < events@.len() implies !is_next_candidate(
                    #[trigger] events@[j]@,
                ) by {
                    assert(view[j] == events@[j]@);
                }
            }
            None
        },
        Some(b) => {
            let out = next_event_payload_of(&events[b]);
            proof {
                assert(view[b as int] == events@[b as int]@);
                assert(is_next_index(view, b as int));
            }
            Some(out)
        },
    }
}

// ---------------------------------------------------------------------------
// Generation jobs.
// ---------------------------------------------------------------------------

/// A fresh job or draft id: two random numbers in hexadecimal.
pub fn new_job_id() -> (r: String)
    ensures
        exists|a: u64, b: u32|
            r@ == crate::text::hex_digits(a as nat) + crate::text::hex_digits(b as nat),
{
    let a = crate::write_guard::random_u64();
    let b = crate::write_guard::random_u32();
    let mut t = String::new();
    crate::text::push_hex(&mut t, a);
    crate::text::push_hex(&mut t, b as u64);
    proof {
        assert(t@ =~= crate::text::hex_digits(a as nat) + crate::text::hex_digits(b as nat));
    }
    t
}

/// The status and error code a failed generation job ends with: `timeout`
/// for a client timeout, `error`/`rate_limited` for a rate limit, otherwise
/// `error` with the error's code.
pub fn job_failure(e: &AppError) -> (r: (&'static str, &'static str))
    ensures
        e is Timeout ==> r.0@ == "timeout"@ && r.1@ == "timeout"@,
        e is RateLimited ==> r.0@ == "error"@ && r.1@ == "rate_limited"@,
        !(e is Timeout) && !(e is RateLimited) ==> r.0@ == "error"@ && r.1@ == code_spec(*e),
{
    match e {
        AppError::Timeout(_) => ("timeout", "timeout"),
        AppError::RateLimited(_) => ("error", "rate_limited"),
        _ => ("error", e.code()),
    }
}

/// The request a promotion job sends for `kind`, with `params` filling the
/// per-kind fields and their defaults; an unknown kind is an error.
pub fn promotion_request(
    api: &crate::api::ApiClient,
    kind: &str,
    meetup_token: &str,
    platform: &str,
    params: &JsonValue,
) -> (r: AppResult<crate::api::ApiRequest>)
    ensures
        kind@ == "social_post"@ ==> (r matches Ok(req) && crate::api::is_post(
            req,
            api.key(),
            "social_posts/generate"@,
            Json::Obj(
                crate::api::opt_field(
                    crate::api::opt_field(
                        seq![
                            ("source_type"@, Json::Str(or_default(get_str(params@, "source_type"@), "meetup"@))),
                        ].push(("source_ref"@, Json::Str(or_default(get_str(params@, "source_ref"@), meetup_token@)))).push(
                            ("platform"@, Json::Str(platform@)),
                        ).push(("goal"@, Json::Str(or_default(get_str(params@, "goal"@), "promote"@)))),
                        "tone"@,
                        get_str(params@, "tone"@),
                    ),
                    "city"@,
                    get_str(params@, "city"@),
                ),
            ),
            Some(crate::api::GENERATION_TIMEOUT_SECS),
        )),
        kind@ == "event_promo"@ ==> (r matches Ok(req) && crate::api::is_post(
            req,
            api.key(),
            "event_promos/generate"@,
            Json::Obj(
                seq![("meetup_token"@, Json::Str(meetup_token@))].push(
                    ("package_type"@, Json::Str(or_default(get_str(params@, "package_type"@), "full_campaign"@))),
                ).push(("audience"@, Json::Str(or_default(get_str(params@, "audience"@), "general"@)))),
            ),
            Some(crate::api::GENERATION_TIMEOUT_SECS),
        )),
        kind@ == "discussion_topics"@ ==> (r matches Ok(req) && crate::api::is_post(
            req,
            api.key(),
            "meetups/discussion_topics/generate"@,
            Json::Obj(seq![("meetup_token"@, Json::Str(meetup_token@))]),
            Some(crate::api::GENERATION_TIMEOUT_SECS),
        )),
        kind@ != "social_post"@ && kind@ != "event_promo"@ && kind@ != "discussion_topics"@ ==> (
        r matches Err(AppError::Other(m)) && m@ == "unknown promotion kind: "@ + kind@),
{
    proof {
        reveal_strlit("social_post");
        reveal_strlit("event_promo");
        reveal_strlit("discussion_topics");
        assert("social_post"@[0] != "event_promo"@[0]);
        assert("social_post"@.len() != "discussion_topics"@.len());
        assert("event_promo"@.len() != "discussion_topics"@.len());
    }
    if crate::text::str_eq(kind, "social_post") {
        let source_type = match params.get_str("source_type") {
            Some(s) => s,
            None => "meetup",
        };
        let source_ref = match params.get_str("source_ref") {
            Some(s) => s,
            None => meetup_token,
        };
        let goal = match params.get_str("goal") {
            Some(s) => s,
            None => "promote",
        };
        let tone = params.get_str("tone");
        let city = params.get_str("city");
        let req = api.social_post_generate(source_type, source_ref, platform, goal, tone, city);
        proof {
            assert(crate::api::opt_str_view(tone) == get_str(params@, "tone"@));
            assert(crate::api::opt_str_view(city) == get_str(params@, "city"@));
        }
        Ok(req)
    } else if crate::text::str_eq(kind, "event_promo") {
        let package_type = match params.get_str("package_type") {
            Some(s) => s,
            None => "full_campaign",
        };
        let audience = match params.get_str("audience") {
            Some(s) => s,
            None => "general",
        };
        Ok(api.event_promo_generate(meetup_token, package_type, audience))
    } else if crate::text::str_eq(kind, "discussion_topics") {
        Ok(api.discussion_topics_generate(meetup_token))
    } else {
        Err(AppError::Other(concat("unknown promotion kind: ", kind)))
    }
}

pub open spec fn or_default(o: Option<Seq<char>>, d: Seq<char>) -> Seq<char> {
    match o {
        Some(s) => s,
        None => d,
    }
}

/// Parameters for one research/pitch generation kickoff.
pub struct SponsorGenParams {
    pub sponsor_ref: Option<String>,
    pub name: Option<String>,
    pub domain: Option<String>,
    pub city: Option<String>,
    pub channel: Option<String>,
    pub target_audience: Option<String>,
    pub meetup_token: Option<String>,
    pub notes: Option<String>,
}

/// The two kinds of sponsor generation.
pub enum SponsorKind {
    Research,
    Pitch,
}

/// `research` or `pitch`; any other kind is an error.
pub fn sponsor_job_kind(kind: &str) -> (r: AppResult<SponsorKind>)
    ensures
        kind@ == "research"@ ==> r matches Ok(SponsorKind::Research),
        kind@ == "pitch"@ ==> r matches Ok(SponsorKind::Pitch),
        kind@ != "research"@ && kind@ != "pitch"@ ==> (r matches Err(AppError::Other(m)) && m@
            == "unknown sponsor generation kind: "@ + kind@),
{
    proof {
        reveal_strlit("research");
        reveal_strlit("pitch");
        assert("research"@.len() != "pitch"@.len());
    }
    if crate::text::str_eq(kind, "research") {
        Ok(SponsorKind::Research)
    } else if crate::text::str_eq(kind, "pitch") {
        Ok(SponsorKind::Pitch)
    } else {
        Err(AppError::Other(concat("unknown sponsor generation kind: ", kind)))
    }
}

pub open spec fn opt_text(o: Option<String>) -> Json {
    match o {
        Some(s) => Json::Str(s@),
        None => Json::Null,
    }
}

fn text_or_null(o: &Option<String>) -> (r: JsonValue)
    ensures
        r@ == opt_text(*o),
{
    match o {
        Some(s) => JsonValue::Str(s.clone()),
        None => JsonValue::Null,
    }
}

/// The parameters a sponsor draft is stored with (everything but the notes).
pub fn sponsor_params_json(p: &SponsorGenParams) -> (r: JsonValue)
    ensures
        r@ == Json::Obj(
            seq![("sponsor_ref"@, opt_text(p.sponsor_ref))].push(("name"@, opt_text(p.name))).push(
                ("domain"@, opt_text(p.domain)),
            ).push(("city"@, opt_text(p.city))).push(("channel"@, opt_text(p.channel))).push(
                ("target_audience"@, opt_text(p.target_audience)),
            ).push(("meetup_token"@, opt_text(p.meetup_token))),
        ),
{
    let mut f: Vec<(String, JsonValue)> = Vec::new();
    f.push((owned("sponsor_ref"), text_or_null(&p.sponsor_ref)));
    f.push((owned("name"), text_or_null(&p.name)));
    f.push((owned("domain"), text_or_null(&p.domain)));
    f.push((owned("city"), text_or_null(&p.city)));
    f.push((owned("channel"), text_or_null(&p.channel)));
    f.push((owned("target_audience"), text_or_null(&p.target_audience)));
    f.push((owned("meetup_token"), text_or_null(&p.meetup_token)));
    proof {
        crate::json::lemma_object_view(f);
        assert(crate::json::fields_view(f@) =~= seq![("sponsor_ref"@, opt_text(p.sponsor_ref))].push(
            ("name"@, opt_text(p.name)),
        ).push(("domain"@, opt_text(p.domain))).push(("city"@, opt_text(p.city))).push(
            ("channel"@, opt_text(p.channel)),
        ).push(("target_audience"@, opt_text(p.target_audience))).push(
            ("meetup_token"@, opt_text(p.meetup_token)),
        ));
    }
    JsonValue::Object(f)
}

/// `v.get(key)` as a JSON value, `null` when absent.
pub open spec fn field_or_null(v: Json, key: Seq<char>) -> Json {
    get_or_null_spec(v, key)
}

/// The event part of a generation context: a small summary of the cached
/// event.
pub open spec fn context_event_spec(mt: Seq<char>, ev: Json) -> Json {
    let rsvps = get_or_null_spec(ev, "rsvps"@);
    Json::Obj(
        seq![("meetup_token"@, Json::Str(mt))].push(("name"@, field_or_null(ev, "event_name"@))).push(
            ("city"@, field_or_null(ev, "city"@)),
        ).push(("starts_at_local"@, field_or_null(ev, "starts_at_local"@))).push(
            ("event_url"@, field_or_null(ev, "event_url"@)),
        ).push(("attending"@, field_or_null(rsvps, "attending"@))).push(
            ("capacity"@, field_or_null(rsvps, "capacity"@)),
        ),
    )
}

/// Each field of a generation context's event summary is the same-named
/// field of the cached event, or of its `rsvps`: the token it is cached
/// under, `name` from `event_name`, `city`, `starts_at_local`, `event_url`,
/// and `attending` and `capacity` from `rsvps` (`null` where absent); the
/// summary has these seven fields and no other.
pub proof fn lemma_context_event_fields(mt: Seq<char>, ev: Json)
    ensures
        ({
            let e = context_event_spec(mt, ev);
            let rsvps = get_or_null_spec(ev, "rsvps"@);
            &&& e is Obj
            &&& crate::api::obj_fields(e).len() == 7
            &&& get_spec(e, "meetup_token"@) == Some(Json::Str(mt))
            &&& get_spec(e, "name"@) == Some(get_or_null_spec(ev, "event_name"@))
            &&& get_spec(e, "city"@) == Some(get_or_null_spec(ev, "city"@))
            &&& get_spec(e, "starts_at_local"@) == Some(get_or_null_spec(ev, "starts_at_local"@))
            &&& get_spec(e, "event_url"@) == Some(get_or_null_spec(ev, "event_url"@))
            &&& get_spec(e, "attending"@) == Some(get_or_null_spec(rsvps, "attending"@))
            &&& get_spec(e, "capacity"@) == Some(get_or_null_spec(rsvps, "capacity"@))
        }),
{
    reveal_strlit("meetup_token");
    reveal_strlit("name");
    reveal_strlit("city");
    reveal_strlit("starts_at_local");
    reveal_strlit("event_url");
    reveal_strlit("attending");
    reveal_strlit("capacity");
    assert("name"@ != "city"@) by {
        assert("name"@[0] != "city"@[0]);
    }
    assert("event_url"@ != "attending"@) by {
        assert("event_url"@[0] != "attending"@[0]);
    }
    let fs = crate::api::obj_fields(context_event_spec(mt, ev));
    reveal_with_fuel(crate::json::field_of, 8);
    assert(fs.drop_first()[0].0 == "name"@);
    assert(fs.drop_first().drop_first()[0].0 == "city"@);
    assert(fs.drop_first().drop_first().drop_first()[0].0 == "starts_at_local"@);
    assert(fs.drop_first().drop_first().drop_first().drop_first()[0].0 == "event_url"@);
    assert(fs.drop_first().drop_first().drop_first().drop_first().drop_first()[0].0
        == "attending"@);
    assert(fs.drop_first().drop_first().drop_first().drop_first().drop_first().drop_first()[0].0
        == "capacity"@);
}

/// At most the first 4000 characters of `s`.
pub open spec fn first_4000(s: Seq<char>) -> Seq<char> {
    if s.len() <= 4000 {
        s
    } else {
        s.subrange(0, 4000)
    }
}

/// The fields of a generation context: the event summary when the event is
/// cached, and the notes (cut to 4000 characters) when not empty.
pub open spec fn gen_context_fields(event: Option<(Seq<char>, Json)>, notes: Option<Seq<char>>) -> Seq<(Seq<char>, Json)> {
    let with_event = match event {
        Some(p) => seq![("event"@, context_event_spec(p.0, p.1))],
        None => Seq::empty(),
    };
    match notes {
        Some(n) => if first_4000(n).len() > 0 {
            with_event.push(("notes"@, Json::Str(first_4000(n))))
        } else {
            with_event
        },
        None => with_event,
    }
}

pub open spec fn cached_event_view(e: Option<(&str, &JsonValue)>) -> Option<(Seq<char>, Json)> {
    match e {
        Some(p) => Some((p.0@, p.1@)),
        None => None,
    }
}

/// A small, capped context object for a sponsor generation: the summary of
/// the cached event `(meetup_token, detail)` if any, and the notes; `None`
/// when there is neither.
pub fn gen_context(event: Option<(&str, &JsonValue)>, notes: Option<&str>) -> (r: Option<JsonValue>)
    ensures
        match r {
            Some(v) => gen_context_fields(cached_event_view(event), crate::api::opt_str_view(notes)).len()
                > 0 && v@ == Json::Obj(
                gen_context_fields(cached_event_view(event), crate::api::opt_str_view(notes)),
            ),
            None => gen_context_fields(cached_event_view(event), crate::api::opt_str_view(notes)).len()
                == 0,
        },
        match (event, r) {
            (Some(p), Some(v)) => {
                let e = get_or_null_spec(v@, "event"@);
                let rsvps = get_or_null_spec(p.1@, "rsvps"@);
                &&& get_spec(e, "meetup_token"@) == Some(Json::Str(p.0@))
                &&& get_spec(e, "name"@) == Some(get_or_null_spec(p.1@, "event_name"@))
                &&& get_spec(e, "city"@) == Some(get_or_null_spec(p.1@, "city"@))
                &&& get_spec(e, "starts_at_local"@) == Some(
                    get_or_null_spec(p.1@, "starts_at_local"@),
                )
                &&& get_spec(e, "event_url"@) == Some(get_or_null_spec(p.1@, "event_url"@))
                &&& get_spec(e, "attending"@) == Some(get_or_null_spec(rsvps, "attending"@))
                &&& get_spec(e, "capacity"@) == Some(get_or_null_spec(rsvps, "capacity"@))
            },
            (Some(_), None) => false,
            _ => true,
        },
{
    let mut f: Vec<(String, JsonValue)> = Vec::new();
    if let Some((mt, ev)) = event {
        let rsvps = ev.get_or_null("rsvps");
        let mut e: Vec<(String, JsonValue)> = Vec::new();
        e.push((owned("meetup_token"), JsonValue::Str(owned(mt))));
        e.push((owned("name"), ev.get_or_null("event_name")));
        e.push((owned("city"), ev.get_or_null("city")));
        e.push((owned("starts_at_local"), ev.get_or_null("starts_at_local")));
        e.push((owned("event_url"), ev.get_or_null("event_url")));
        e.push((owned("attending"), rsvps.get_or_null("attending")));
        e.push((owned("capacity"), rsvps.get_or_null("capacity")));
        proof {
            crate::json::lemma_object_view(e);
            assert(crate::json::fields_view(e@) =~= match context_event_spec(mt@, ev@) {
                Json::Obj(fs) => fs,
                _ => Seq::empty(),
            });
        }
        f.push((owned("event"), JsonValue::Object(e)));
    }
    if let Some(n) = notes {
        let cs = chars_of(n);
        let k = if cs.len() <= 4000 {
            cs.len()
        } else {
            4000
        };
        let head = slice_chars(cs.as_slice(), 0, k);
        proof {
            if cs@.len() <= 4000 {
                assert(cs@.subrange(0, k as int) =~= cs@);
            }
        }
        if head.len() > 0 {
            f.push((owned("notes"), JsonValue::Str(crate::text::string_of(head.as_slice()))));
        }
    }
    proof {
        crate::json::lemma_object_view(f);
        assert(crate::json::fields_view(f@) =~= gen_context_fields(
            cached_event_view(event),
            crate::api::opt_str_view(notes),
        ));
        if let Some(p) = event {
            lemma_context_event_fields(p.0@, p.1@);
            assert(crate::json::fields_view(f@)[0] == ("event"@, context_event_spec(p.0@, p.1@)));
        }
    }
    if f.len() == 0 {
        None
    } else {
        Some(JsonValue::Object(f))
    }
}

/// `Some(s)` unless `s` is empty (an empty filter means no filter).
pub fn nonempty(s: &str) -> (r: Option<&str>)
    ensures
        match r {
            Some(t) => t@ == s@ && s@.len() > 0,
            None => s@.len() == 0,
        },
{
    if chars_of(s).len() == 0 {
        None
    } else {
        Some(s)
    }
}

/// Whether a result list was cut short: the payload's `truncated`, or, when
/// absent, whether the page came back full.
pub fn page_truncated(data: &JsonValue, count: usize, page: usize) -> (r: bool)
    ensures
        r == match get_bool(data@, "truncated"@) {
            Some(b) => b,
            None => count >= page,
        },
{
    match data.get_bool("truncated") {
        Some(b) => b,
        None => count >= page,
    }
}

} // verus!
