//! The Agents API client: the exact request each call sends, how a response
//! envelope becomes data or a typed error, and the rate-limit accounting read
//! from response headers. Sending the request is the caller's part.
use vstd::prelude::*;

use crate::error::{AppError, AppResult};
use crate::json::{
    array_spec, fields_view, get_spec, lemma_object_view, bool_spec, str_spec, Json, JsonNumber,
    json_text_len, json_text_len_within, JsonValue, Num,
};
use crate::text::{chars_of, concat, decimal, i64_to_string, owned, parse_i64_chars, parse_i64_spec,
    trim, trim_chars};

verus! {

/// The API's base URL, followed by `/` and an endpoint path.
pub open spec fn url_spec(path: Seq<char>) -> Seq<char> {
    "https://aitinkerers.org/api/agents/v1/"@ + path
}

/// Client-side timeout for generation endpoints, in seconds. It sits above
/// the server's ~25 s ceiling.
pub const GENERATION_TIMEOUT_SECS: u64 = 30;

/// Hard cap on the serialized body of a pitch generation request, in bytes.
pub const PITCH_CONTEXT_CAP_BYTES: usize = 65536;

/// Rate-limit accounting captured from every response.
#[derive(Debug)]
pub struct RateInfo {
    pub limit: Option<i64>,
    pub remaining: Option<i64>,
    pub reset: Option<i64>,
    pub retry_after: Option<i64>,
    pub tier: Option<String>,
}

impl RateInfo {
    /// No header information.
    pub fn empty() -> (r: RateInfo)
        ensures
            r.limit is None && r.remaining is None && r.reset is None && r.retry_after is None
                && r.tier is None,
    {
        RateInfo { limit: None, remaining: None, reset: None, retry_after: None, tier: None }
    }
}

/// The integer a rate header carries: its value trimmed, then read as `i64`.
pub open spec fn header_num_spec(v: Option<Seq<char>>) -> Option<int> {
    match v {
        Some(s) => parse_i64_spec(trim(s)),
        None => None,
    }
}

pub open spec fn opt_str_view(o: Option<&str>) -> Option<Seq<char>> {
    match o {
        Some(s) => Some(s@),
        None => None,
    }
}

pub open spec fn opt_i64_view(o: Option<i64>) -> Option<int> {
    match o {
        Some(v) => Some(v as int),
        None => None,
    }
}

/// Reads one numeric rate header.
pub fn header_num(v: Option<&str>) -> (r: Option<i64>)
    ensures
        opt_i64_view(r) == header_num_spec(opt_str_view(v)),
{
    match v {
        Some(s) => {
            let cs = chars_of(s);
            let t = trim_chars(cs.as_slice());
            parse_i64_chars(t.as_slice())
        },
        None => None,
    }
}

/// Rate accounting from the `x-ratelimit-limit`, `x-ratelimit-remaining`,
/// `x-ratelimit-reset`, `retry-after` and `x-ratelimit-tier` header values
/// (each present only when the header is valid visible ASCII).
pub fn read_rate(
    limit: Option<&str>,
    remaining: Option<&str>,
    reset: Option<&str>,
    retry_after: Option<&str>,
    tier: Option<&str>,
) -> (r: RateInfo)
    ensures
        opt_i64_view(r.limit) == header_num_spec(opt_str_view(limit)),
        opt_i64_view(r.remaining) == header_num_spec(opt_str_view(remaining)),
        opt_i64_view(r.reset) == header_num_spec(opt_str_view(reset)),
        opt_i64_view(r.retry_after) == header_num_spec(opt_str_view(retry_after)),
        match r.tier {
            Some(t) => tier matches Some(s) && t@ == s@,
            None => tier is None,
        },
{
    RateInfo {
        limit: header_num(limit),
        remaining: header_num(remaining),
        reset: header_num(reset),
        retry_after: header_num(retry_after),
        tier: match tier {
            Some(t) => Some(owned(t)),
            None => None,
        },
    }
}

/// Result of one API call: the unwrapped `data` plus rate headers.
pub struct ApiOk {
    pub data: JsonValue,
    pub rate: RateInfo,
}

/// The message of a 429 answer.
pub open spec fn rate_limited_message(retry_after: Option<i64>) -> Seq<char> {
    "Rate limited by the AI Tinkerers API; retry_after="@ + decimal(
        match retry_after {
            Some(s) => s as int,
            None => 0,
        },
    )
}

/// How a parsed response envelope resolves.
pub enum EnvelopeKind {
    RateLimited,
    NotJson,
    Data,
    Failed,
}

pub open spec fn envelope_kind(status: u16, parsed: Option<Json>) -> EnvelopeKind {
    if status == 429 {
        EnvelopeKind::RateLimited
    } else if parsed is None {
        EnvelopeKind::NotJson
    } else if bool_spec(get_spec(parsed->0, "ok"@)) == Some(true) {
        EnvelopeKind::Data
    } else {
        EnvelopeKind::Failed
    }
}

pub open spec fn opt_json_view(o: Option<JsonValue>) -> Option<Json> {
    match o {
        Some(v) => Some(v@),
        None => None,
    }
}

/// `error.code` of a failed envelope, `other` when missing.
pub open spec fn envelope_code(parsed: Json) -> Seq<char> {
    match get_spec(parsed, "error"@) {
        Some(e) => match str_spec(get_spec(e, "code"@)) {
            Some(c) => c,
            None => "other"@,
        },
        None => "other"@,
    }
}

/// `error.message` of a failed envelope, `Request failed` when missing.
pub open spec fn envelope_message(parsed: Json) -> Seq<char> {
    match get_spec(parsed, "error"@) {
        Some(e) => match str_spec(get_spec(e, "message"@)) {
            Some(m) => m,
            None => "Request failed"@,
        },
        None => "Request failed"@,
    }
}

/// Shared envelope handling for POST and GET calls. `status` is the HTTP
/// status, `status_text` its display form (such as `502 Bad Gateway`),
/// `parsed` the body read as JSON (`None` when it is not JSON). A 429 is
/// `RateLimited` carrying `retry_after`; `{ok:true, data}` is the data;
/// anything else is the envelope's typed error.
pub fn parse_envelope(status: u16, status_text: &str, rate: RateInfo, parsed: Option<JsonValue>) -> (r:
    AppResult<ApiOk>)
    ensures
        envelope_kind(status, opt_json_view(parsed)) is RateLimited ==> (r matches Err(
            AppError::RateLimited(m),
        ) && m@ == rate_limited_message(rate.retry_after)),
        envelope_kind(status, opt_json_view(parsed)) is NotJson ==> (r matches Err(
            AppError::Network(m),
        ) && m@ == "non-JSON response ("@ + status_text@ + ")"@),
        envelope_kind(status, opt_json_view(parsed)) is Data ==> (r matches Ok(ok) && ok.data@
            == match get_spec(parsed->0@, "data"@) {
            Some(d) => d,
            None => Json::Null,
        } && ok.rate == rate),
        envelope_kind(status, opt_json_view(parsed)) is Failed ==> (r matches Err(e)
            && crate::error::from_api_code_spec(
            envelope_code(parsed->0@),
            envelope_message(parsed->0@),
            e,
        )),
{
    if status == 429 {
        let secs = match rate.retry_after {
            Some(s) => s,
            None => 0,
        };
        let digits = i64_to_string(secs);
        let msg = concat("Rate limited by the AI Tinkerers API; retry_after=", digits.as_str());
        return Err(AppError::RateLimited(msg));
    }
    let parsed = match parsed {
        Some(p) => p,
        None => {
            let head = concat("non-JSON response (", status_text);
            return Err(AppError::Network(concat(head.as_str(), ")")));
        },
    };
    let ok_flag = match parsed.get("ok") {
        Some(v) => v.as_bool(),
        None => None,
    };
    if ok_flag == Some(true) {
        let data = parsed.get_or_null("data");
        return Ok(ApiOk { data, rate });
    }
    let err = parsed.get("error");
    let code: &str = match err {
        Some(e) => match e.get_str("code") {
            Some(c) => c,
            None => "other",
        },
        None => "other",
    };
    let message: &str = match err {
        Some(e) => match e.get_str("message") {
            Some(m) => m,
            None => "Request failed",
        },
        None => "Request failed",
    };
    Err(AppError::from_api_code(code, owned(message)))
}

// ---------------------------------------------------------------------------
// Requests.
// ---------------------------------------------------------------------------

pub enum HttpMethod {
    Get,
    Post,
}

/// One HTTP request to the API. The key is sent only as a bearer token, never
/// in the query or body.
pub struct ApiRequest {
    pub method: HttpMethod,
    pub url: String,
    pub bearer: String,
    /// JSON body of a POST (`Null` for a GET).
    pub body: JsonValue,
    /// Query parameters of a GET, in order.
    pub query: Vec<(String, String)>,
    /// Client-side timeout, when the call sets one.
    pub timeout_secs: Option<u64>,
}

pub open spec fn query_view(q: Seq<(String, String)>) -> Seq<(Seq<char>, Seq<char>)> {
    q.map_values(|p: (String, String)| (p.0@, p.1@))
}

/// `r` is a POST of `body` to `path` with the bearer `key`.
pub open spec fn is_post(r: ApiRequest, key: Seq<char>, path: Seq<char>, body: Json, timeout: Option<u64>) -> bool {
    &&& r.method is Post
    &&& r.url@ == url_spec(path)
    &&& r.bearer@ == key
    &&& r.body@ == body
    &&& r.query@.len() == 0
    &&& r.timeout_secs == timeout
}

/// `r` is a GET of `path` with `query` and the bearer `key`.
pub open spec fn is_get(r: ApiRequest, key: Seq<char>, path: Seq<char>, query: Seq<(Seq<char>, Seq<char>)>) -> bool {
    &&& r.method is Get
    &&& r.url@ == url_spec(path)
    &&& r.bearer@ == key
    &&& r.body@ == Json::Null
    &&& query_view(r.query@) == query
    &&& r.timeout_secs is None
}

pub open spec fn jnum(n: u32) -> Json {
    Json::Num(Num::PosInt(n as u64))
}

/// `fields` with `key: s` appended when `o` is `Some(s)`.
pub open spec fn opt_field(fields: Seq<(Seq<char>, Json)>, key: Seq<char>, o: Option<Seq<char>>) -> Seq<(Seq<char>, Json)> {
    match o {
        Some(s) => fields.push((key, Json::Str(s))),
        None => fields,
    }
}

/// `params` with `(key, s)` appended when `o` is `Some(s)`.
pub open spec fn opt_param(params: Seq<(Seq<char>, Seq<char>)>, key: Seq<char>, o: Option<Seq<char>>) -> Seq<(Seq<char>, Seq<char>)> {
    match o {
        Some(s) => params.push((key, s)),
        None => params,
    }
}

pub open spec fn bool_text(b: bool) -> Seq<char> {
    if b {
        "true"@
    } else {
        "false"@
    }
}

fn new_fields() -> (r: Vec<(String, JsonValue)>)
    ensures
        fields_view(r@) == Seq::<(Seq<char>, Json)>::empty(),
{
    let r: Vec<(String, JsonValue)> = Vec::new();
    proof {
        assert(fields_view(r@) =~= Seq::<(Seq<char>, Json)>::empty());
    }
    r
}

fn new_params() -> (r: Vec<(String, String)>)
    ensures
        query_view(r@) == Seq::<(Seq<char>, Seq<char>)>::empty(),
{
    let r: Vec<(String, String)> = Vec::new();
    proof {
        assert(query_view(r@) =~= Seq::<(Seq<char>, Seq<char>)>::empty());
    }
    r
}

fn push_field(fields: &mut Vec<(String, JsonValue)>, key: &str, v: JsonValue)
    ensures
        fields_view(final(fields)@) == fields_view(old(fields)@).push((key@, v@)),
{
    let ghost before = fields@;
    fields.push((owned(key), v));
    proof {
        assert(fields_view(fields@) =~= fields_view(before).push((key@, v@)));
    }
}

fn push_str_field(fields: &mut Vec<(String, JsonValue)>, key: &str, s: &str)
    ensures
        fields_view(final(fields)@) == fields_view(old(fields)@).push((key@, Json::Str(s@))),
{
    push_field(fields, key, JsonValue::Str(owned(s)));
}

fn push_opt_field(fields: &mut Vec<(String, JsonValue)>, key: &str, o: Option<&str>)
    ensures
        fields_view(final(fields)@) == opt_field(fields_view(old(fields)@), key@, opt_str_view(o)),
{
    if let Some(s) = o {
        push_str_field(fields, key, s);
    }
}

fn object(fields: Vec<(String, JsonValue)>) -> (r: JsonValue)
    ensures
        r@ == Json::Obj(fields_view(fields@)),
{
    proof {
        lemma_object_view(fields);
    }
    JsonValue::Object(fields)
}

fn num_u32(n: u32) -> (r: JsonValue)
    ensures
        r@ == jnum(n),
{
    JsonValue::Number(JsonNumber::PosInt(n as u64))
}

fn push_param(params: &mut Vec<(String, String)>, key: &str, v: String)
    ensures
        query_view(final(params)@) == query_view(old(params)@).push((key@, v@)),
{
    let ghost before = params@;
    params.push((owned(key), v));
    proof {
        assert(query_view(params@) =~= query_view(before).push((key@, v@)));
    }
}

fn bool_string(b: bool) -> (r: String)
    ensures
        r@ == bool_text(b),
{
    if b {
        owned("true")
    } else {
        owned("false")
    }
}

fn u32_string(n: u32) -> (r: String)
    ensures
        r@ == decimal(n as int),
{
    i64_to_string(n as i64)
}

// ---------------------------------------------------------------------------
// Pitch context capping.
// ---------------------------------------------------------------------------

/// The fields whose key is (`keep`) or is not (`!keep`) among `keys`, in order.
pub open spec fn keep_keys(fields: Seq<(Seq<char>, Json)>, keys: Seq<Seq<char>>, keep: bool) -> Seq<(Seq<char>, Json)> {
    fields.filter(|p: (Seq<char>, Json)| keys.contains(p.0) == keep)
}

/// An object without its `key` field (anything else unchanged).
pub open spec fn drop_key(v: Json, key: Seq<char>) -> Json {
    match v {
        Json::Obj(fs) => Json::Obj(keep_keys(fs, seq![key], false)),
        _ => v,
    }
}

/// An object reduced to its `name` and `city` fields.
pub open spec fn keep_name_city(v: Json) -> Json {
    match v {
        Json::Obj(fs) => Json::Obj(keep_keys(fs, seq!["name"@].push("city"@), true)),
        _ => v,
    }
}

/// The fields of an object; none for anything else.
pub open spec fn obj_fields(v: Json) -> Seq<(Seq<char>, Json)> {
    match v {
        Json::Obj(fs) => fs,
        _ => Seq::empty(),
    }
}

/// Trimming an event keeps, of its fields, exactly those whose key is
/// `name` or `city`, each with its value; anything but an object is left
/// as it is.
pub proof fn lemma_event_trim_keeps_name_and_city(ev: Json)
    ensures
        ev is Obj ==> keep_name_city(ev) is Obj,
        !(ev is Obj) ==> keep_name_city(ev) == ev,
        forall|p: (Seq<char>, Json)|
            #![trigger obj_fields(keep_name_city(ev)).contains(p)]
            ev is Obj ==> (obj_fields(keep_name_city(ev)).contains(p) <==> (obj_fields(ev).contains(p)
                && (p.0 == "name"@ || p.0 == "city"@))),
{
    broadcast use vstd::seq_lib::group_filter_ensures;

    if let Json::Obj(fs) = ev {
        let keys = seq!["name"@].push("city"@);
        assert(keys[0] == "name"@ && keys[1] == "city"@);
        assert forall|k: Seq<char>| keys.contains(k) <==> (k == "name"@ || k == "city"@) by {
            if k == "name"@ {
                assert(keys[0] == k);
            }
            if k == "city"@ {
                assert(keys[1] == k);
            }
        }
        let r = keep_keys(fs, keys, true);
        assert forall|p: (Seq<char>, Json)|
            #![trigger obj_fields(keep_name_city(ev)).contains(p)]
            obj_fields(keep_name_city(ev)).contains(p) <==> (fs.contains(p) && (p.0 == "name"@
                || p.0 == "city"@)) by {
            if r.contains(p) {
                let i = choose|i: int| 0 <= i < r.len() && r[i] == p;
                assert(keys.contains(r[i].0) == true);
                fs.lemma_filter_contains_rev(|q: (Seq<char>, Json)| keys.contains(q.0) == true, p);
            }
            if fs.contains(p) && (p.0 == "name"@ || p.0 == "city"@) {
                let i = choose|i: int| 0 <= i < fs.len() && fs[i] == p;
                assert(keys.contains(fs[i].0));
                assert(r.contains(fs[i]));
            }
        }
    }
}

/// The context object without `notes`.
pub open spec fn ctx_without_notes(ctx: Json) -> Json {
    drop_key(ctx, "notes"@)
}

/// The context object with its `event` reduced to name and city.
pub open spec fn ctx_event_trimmed(ctx: Json) -> Json {
    match ctx {
        Json::Obj(fs) => Json::Obj(
            fs.map_values(
                |p: (Seq<char>, Json)|
                    if p.0 == "event"@ {
                        (p.0, keep_name_city(p.1))
                    } else {
                        p
                    },
            ),
        ),
        _ => ctx,
    }
}

/// Applies `which` (0: drop notes, 1: trim the event) to the body's context.
pub open spec fn map_context(body: Json, which: int) -> Json {
    match body {
        Json::Obj(fs) => Json::Obj(
            fs.map_values(
                |p: (Seq<char>, Json)|
                    if p.0 == "context"@ {
                        (p.0, if which == 0 {
                            ctx_without_notes(p.1)
                        } else {
                            ctx_event_trimmed(p.1)
                        })
                    } else {
                        p
                    },
            ),
        ),
        _ => body,
    }
}

/// The three ever smaller bodies tried when a pitch body is over the cap:
/// without `context.notes`; then also with `context.event` cut to name and
/// city; then without `context` at all.
pub open spec fn pitch_step1(body: Json) -> Json {
    map_context(body, 0)
}

pub open spec fn pitch_step2(body: Json) -> Json {
    map_context(pitch_step1(body), 1)
}

pub open spec fn pitch_step3(body: Json) -> Json {
    drop_key(pitch_step2(body), "context"@)
}

/// The body a pitch request sends, given the JSON text lengths of the body
/// and of its first two reductions: the first that fits within `cap`, else
/// the body without its context.
pub open spec fn capped_body(body: Json, len0: int, len1: int, len2: int, cap: int) -> Json {
    if len0 <= cap {
        body
    } else if len1 <= cap {
        pitch_step1(body)
    } else if len2 <= cap {
        pitch_step2(body)
    } else {
        pitch_step3(body)
    }
}

/// A pitch body as it is sent under a cap of `cap` bytes of JSON text.
pub open spec fn pitch_capped(body: Json, cap: int) -> Json {
    capped_body(
        body,
        json_text_len(body) as int,
        json_text_len(pitch_step1(body)) as int,
        json_text_len(pitch_step2(body)) as int,
        cap,
    )
}

fn keys_contain(keys: &[&str], k: &str) -> (r: bool)
    ensures
        r == crate::json::names_view(keys@).contains(k@),
{
    let ghost kv = crate::json::names_view(keys@);
    let mut i: usize = 0;
    while i < keys.len()
        invariant
            0 <= i <= keys@.len(),
            kv == crate::json::names_view(keys@),
            forall|j: int| 0 <= j < i ==> kv[j] != k@,
        decreases keys.len() - i,
    {
        if crate::text::str_eq(keys[i], k) {
            proof {
                assert(kv[i as int] == k@);
            }
            return true;
        }
        i = i + 1;
    }
    false
}

/// The fields of `fields` whose key is (`keep`) or is not (`!keep`) in `keys`.
fn filter_keys(fields: &Vec<(String, JsonValue)>, keys: &[&str], keep: bool) -> (r: Vec<(String, JsonValue)>)
    ensures
        fields_view(r@) == keep_keys(fields_view(fields@), crate::json::names_view(keys@), keep),
{
    let ghost kv = crate::json::names_view(keys@);
    let ghost pred = |p: (Seq<char>, Json)| kv.contains(p.0) == keep;
    let ghost fv = fields_view(fields@);
    let mut out: Vec<(String, JsonValue)> = Vec::new();
    let mut i: usize = 0;
    proof {
        reveal(Seq::filter);
        assert(fv.take(0) =~= Seq::<(Seq<char>, Json)>::empty());
        assert(fields_view(out@) =~= fv.take(0).filter(pred));
    }
    while i < fields.len()
        invariant
            0 <= i <= fields@.len(),
            fv == fields_view(fields@),
            kv == crate::json::names_view(keys@),
            pred == (|p: (Seq<char>, Json)| kv.contains(p.0) == keep),
            fields_view(out@) == fv.take(i as int).filter(pred),
        decreases fields.len() - i,
    {
        let ghost before = out@;
        let listed = keys_contain(keys, fields[i].0.as_str());
        proof {
            reveal(Seq::filter);
            assert(fv.take(i + 1).drop_last() =~= fv.take(i as int));
            assert(fv.take(i + 1).last() == fv[i as int]);
            assert(fv[i as int] == (fields@[i as int].0@, fields@[i as int].1@));
        }
        if listed == keep {
            let k = fields[i].0.clone();
            let v = fields[i].1.dup();
            out.push((k, v));
            proof {
                assert(fields_view(out@) =~= fields_view(before).push(fv[i as int]));
            }
        }
        i = i + 1;
    }
    proof {
        assert(fv.take(fields@.len() as int) =~= fv);
    }
    out
}

fn drop_key_exec(v: &JsonValue, key: &str) -> (r: JsonValue)
    ensures
        r@ == drop_key(v@, key@),
{
    match v {
        JsonValue::Object(fs) => {
            proof {
                lemma_object_view(*fs);
            }
            let keys: [&str; 1] = [key];
            let kept = filter_keys(fs, &keys, false);
            proof {
                assert(crate::json::names_view(keys@) =~= seq![key@]);
            }
            object(kept)
        },
        _ => v.dup(),
    }
}

/// An object with its `key` field set to `val`: any field of that key goes,
/// and `key: val` comes last. Anything but an object is unchanged.
pub open spec fn set_key(v: Json, key: Seq<char>, val: Json) -> Json {
    match v {
        Json::Obj(fs) => Json::Obj(keep_keys(fs, seq![key], false).push((key, val))),
        _ => v,
    }
}

pub(crate) fn set_key_exec(v: JsonValue, key: &str, val: JsonValue) -> (r: JsonValue)
    ensures
        r@ == set_key(v@, key@, val@),
{
    match v {
        JsonValue::Object(fs) => {
            proof {
                lemma_object_view(fs);
            }
            let keys: [&str; 1] = [key];
            let mut kept = filter_keys(&fs, &keys, false);
            proof {
                assert(crate::json::names_view(keys@) =~= seq![key@]);
            }
            let ghost before = kept@;
            kept.push((owned(key), val));
            proof {
                assert(fields_view(kept@) =~= fields_view(before).push((key@, val@)));
            }
            object(kept)
        },
        _ => v,
    }
}

fn keep_name_city_exec(v: &JsonValue) -> (r: JsonValue)
    ensures
        r@ == keep_name_city(v@),
{
    match v {
        JsonValue::Object(fs) => {
            proof {
                lemma_object_view(*fs);
            }
            let keys: [&str; 2] = ["name", "city"];
            let kept = filter_keys(fs, &keys, true);
            proof {
                assert(crate::json::names_view(keys@) =~= seq!["name"@].push("city"@));
            }
            object(kept)
        },
        _ => v.dup(),
    }
}

fn ctx_event_trimmed_exec(ctx: &JsonValue) -> (r: JsonValue)
    ensures
        r@ == ctx_event_trimmed(ctx@),
{
    match ctx {
        JsonValue::Object(fs) => {
            proof {
                lemma_object_view(*fs);
            }
            let ghost f = |p: (Seq<char>, Json)|
                if p.0 == "event"@ {
                    (p.0, keep_name_city(p.1))
                } else {
                    p
                };
            let mut out: Vec<(String, JsonValue)> = Vec::new();
            let mut i: usize = 0;
            proof {
                assert(fields_view(out@) =~= fields_view(fs@).take(0).map_values(f));
            }
            while i < fs.len()
                invariant
                    0 <= i <= fs@.len(),
                    f == (|p: (Seq<char>, Json)|
                        if p.0 == "event"@ {
                            (p.0, keep_name_city(p.1))
                        } else {
                            p
                        }),
                    fields_view(out@) == fields_view(fs@).take(i as int).map_values(f),
                decreases fs.len() - i,
            {
                let ghost before = out@;
                let ghost fv = fields_view(fs@);
                let k = fs[i].0.clone();
                let v = if crate::text::str_eq(fs[i].0.as_str(), "event") {
                    keep_name_city_exec(&fs[i].1)
                } else {
                    fs[i].1.dup()
                };
                proof {
                    assert(fv[i as int] == (fs@[i as int].0@, fs@[i as int].1@));
                    assert(f(fv[i as int]) == (k@, v@));
                    assert(fv.take(i + 1).map_values(f) =~= fv.take(i as int).map_values(f).push(
                        f(fv[i as int]),
                    ));
                }
                out.push((k, v));
                proof {
                    assert(fields_view(out@) =~= fields_view(before).push((k@, v@)));
                }
                i = i + 1;
            }
            proof {
                assert(fields_view(fs@).take(fs@.len() as int) =~= fields_view(fs@));
            }
            object(out)
        },
        _ => ctx.dup(),
    }
}

fn map_context_exec(body: &JsonValue, which: u8) -> (r: JsonValue)
    requires
        which < 2,
    ensures
        r@ == map_context(body@, which as int),
{
    match body {
        JsonValue::Object(fs) => {
            proof {
                lemma_object_view(*fs);
            }
            let ghost f = |p: (Seq<char>, Json)|
                if p.0 == "context"@ {
                    (p.0, if which == 0 {
                        ctx_without_notes(p.1)
                    } else {
                        ctx_event_trimmed(p.1)
                    })
                } else {
                    p
                };
            let mut out: Vec<(String, JsonValue)> = Vec::new();
            let mut i: usize = 0;
            proof {
                assert(fields_view(out@) =~= fields_view(fs@).take(0).map_values(f));
            }
            while i < fs.len()
                invariant
                    0 <= i <= fs@.len(),
                    which < 2,
                    f == (|p: (Seq<char>, Json)|
                        if p.0 == "context"@ {
                            (p.0, if which == 0 {
                                ctx_without_notes(p.1)
                            } else {
                                ctx_event_trimmed(p.1)
                            })
                        } else {
                            p
                        }),
                    fields_view(out@) == fields_view(fs@).take(i as int).map_values(f),
                decreases fs.len() - i,
            {
                let ghost before = out@;
                let ghost fv = fields_view(fs@);
                let k = fs[i].0.clone();
                let v = if crate::text::str_eq(fs[i].0.as_str(), "context") {
                    if which == 0 {
                        drop_key_exec(&fs[i].1, "notes")
                    } else {
                        ctx_event_trimmed_exec(&fs[i].1)
                    }
                } else {
                    fs[i].1.dup()
                };
                proof {
                    assert(fv[i as int] == (fs@[i as int].0@, fs@[i as int].1@));
                    assert(f(fv[i as int]) == (k@, v@));
                    assert(fv.take(i + 1).map_values(f) =~= fv.take(i as int).map_values(f).push(
                        f(fv[i as int]),
                    ));
                }
                out.push((k, v));
                proof {
                    assert(fields_view(out@) =~= fields_view(before).push((k@, v@)));
                }
                i = i + 1;
            }
            proof {
                assert(fields_view(fs@).take(fs@.len() as int) =~= fields_view(fs@));
            }
            object(out)
        },
        _ => body.dup(),
    }
}

/// The three reductions of a pitch body, in the order they are tried.
pub fn pitch_trim_steps(body: &JsonValue) -> (r: (JsonValue, JsonValue, JsonValue))
    ensures
        r.0@ == pitch_step1(body@),
        r.1@ == pitch_step2(body@),
        r.2@ == pitch_step3(body@),
{
    let s1 = map_context_exec(body, 0);
    let s2 = map_context_exec(&s1, 1);
    let s3 = drop_key_exec(&s2, "context");
    (s1, s2, s3)
}

/// Keeps a pitch request body within `cap` bytes of JSON text, dropping
/// context detail step by step (`pitch_trim_steps`) until it fits; the last
/// step drops the context whatever its size.
pub fn cap_pitch_context_size(body: JsonValue, cap: usize) -> (r: JsonValue)
    ensures
        r@ == pitch_capped(body@, cap as int),
{
    if json_text_len_within(&body, cap) {
        return body;
    }
    let (s1, s2, s3) = pitch_trim_steps(&body);
    if json_text_len_within(&s1, cap) {
        s1
    } else if json_text_len_within(&s2, cap) {
        s2
    } else {
        s3
    }
}

/// The API client: the key it authenticates with.
pub struct ApiClient {
    key: String,
}

impl ApiClient {
    pub closed spec fn key(&self) -> Seq<char> {
        self.key@
    }

    pub fn new(key: String) -> (r: ApiClient)
        ensures
            r.key() == key@,
    {
        ApiClient { key }
    }

    fn post(&self, path: &str, body: JsonValue, timeout_secs: Option<u64>) -> (r: ApiRequest)
        ensures
            is_post(r, self.key(), path@, body@, timeout_secs),
    {
        ApiRequest {
            method: HttpMethod::Post,
            url: concat("https://aitinkerers.org/api/agents/v1/", path),
            bearer: self.key.clone(),
            body,
            query: Vec::new(),
            timeout_secs,
        }
    }

    fn get(&self, path: &str, query: Vec<(String, String)>) -> (r: ApiRequest)
        ensures
            is_get(r, self.key(), path@, query_view(query@)),
    {
        ApiRequest {
            method: HttpMethod::Get,
            url: concat("https://aitinkerers.org/api/agents/v1/", path),
            bearer: self.key.clone(),
            body: JsonValue::Null,
            query,
            timeout_secs: None,
        }
    }

    /// `auth/validate`: owner identity, roles, enabled groups.
    pub fn validate(&self) -> (r: ApiRequest)
        ensures
            is_post(r, self.key(), "auth/validate"@, Json::Obj(seq![]), None),
    {
        let fields = new_fields();
        self.post("auth/validate", object(fields), None)
    }

    /// Upcoming events across visible chapters.
    pub fn upcoming_events(&self, limit: u32) -> (r: ApiRequest)
        ensures
            is_post(r, self.key(), "meetups/upcoming"@, Json::Obj(seq![("limit"@, jnum(limit))]), None),
    {
        let mut f = new_fields();
        push_field(&mut f, "limit", num_u32(limit));
        self.post("meetups/upcoming", object(f), None)
    }

    /// The caller's past events (`meetups/search` with `status=past`).
    pub fn past_events(&self, limit: u32) -> (r: ApiRequest)
        ensures
            is_post(
                r,
                self.key(),
                "meetups/search"@,
                Json::Obj(seq![("status"@, Json::Str("past"@))].push(("limit"@, jnum(limit)))),
                None,
            ),
    {
        let mut f = new_fields();
        push_str_field(&mut f, "status", "past");
        push_field(&mut f, "limit", num_u32(limit));
        self.post("meetups/search", object(f), None)
    }

    /// RSVPs awaiting payment for a paid event.
    pub fn awaiting_payment(&self, meetup_token: &str) -> (r: ApiRequest)
        ensures
            is_post(
                r,
                self.key(),
                "rsvps/awaiting_payment"@,
                Json::Obj(seq![("meetup_token"@, Json::Str(meetup_token@))]),
                None,
            ),
    {
        let mut f = new_fields();
        push_str_field(&mut f, "meetup_token", meetup_token);
        self.post("rsvps/awaiting_payment", object(f), None)
    }

    /// RSVP summary count for an event.
    pub fn rsvp_summary(&self, meetup_token: &str) -> (r: ApiRequest)
        ensures
            is_post(
                r,
                self.key(),
                "rsvps/summary"@,
                Json::Obj(seq![("meetup_token"@, Json::Str(meetup_token@))]),
                None,
            ),
    {
        let mut f = new_fields();
        push_str_field(&mut f, "meetup_token", meetup_token);
        self.post("rsvps/summary", object(f), None)
    }

    /// Count of RSVPs checked in at the door (`rsvps/summary`, `status=checked_in`).
    pub fn rsvp_checked_in_count(&self, meetup_token: &str) -> (r: ApiRequest)
        ensures
            is_post(
                r,
                self.key(),
                "rsvps/summary"@,
                Json::Obj(
                    seq![("meetup_token"@, Json::Str(meetup_token@))].push(("status"@, Json::Str("checked_in"@))),
                ),
                None,
            ),
    {
        let mut f = new_fields();
        push_str_field(&mut f, "meetup_token", meetup_token);
        push_str_field(&mut f, "status", "checked_in");
        self.post("rsvps/summary", object(f), None)
    }

    /// Aggregate performance with an explicit traffic window.
    pub fn performance_windowed(
        &self,
        weblog_token: &str,
        date_from: &str,
        date_to: &str,
        traffic_from: &str,
        traffic_to: &str,
    ) -> (r: ApiRequest)
        ensures
            is_post(
                r,
                self.key(),
                "meetups/performance"@,
                Json::Obj(
                    seq![("weblog_token"@, Json::Str(weblog_token@))].push(("date_from"@, Json::Str(date_from@))).push(("date_to"@, Json::Str(date_to@))).push(("traffic_from"@, Json::Str(traffic_from@))).push(("traffic_to"@, Json::Str(traffic_to@))),
                ),
                None,
            ),
    {
        let mut f = new_fields();
        push_str_field(&mut f, "weblog_token", weblog_token);
        push_str_field(&mut f, "date_from", date_from);
        push_str_field(&mut f, "date_to", date_to);
        push_str_field(&mut f, "traffic_from", traffic_from);
        push_str_field(&mut f, "traffic_to", traffic_to);
        self.post("meetups/performance", object(f), None)
    }

    /// The rendered public content page for an event.
    pub fn content_page_get(&self, content_page_token: &str) -> (r: ApiRequest)
        ensures
            is_post(
                r,
                self.key(),
                "content_pages/get"@,
                Json::Obj(seq![("content_page_token"@, Json::Str(content_page_token@))]),
                None,
            ),
    {
        let mut f = new_fields();
        push_str_field(&mut f, "content_page_token", content_page_token);
        self.post("content_pages/get", object(f), None)
    }

    /// Email metrics (sends/opens/clicks) for a content page.
    pub fn content_page_metrics_get(&self, content_page_token: &str) -> (r: ApiRequest)
        ensures
            is_post(
                r,
                self.key(),
                "content_pages/metrics/get"@,
                Json::Obj(seq![("content_page_token"@, Json::Str(content_page_token@))]),
                None,
            ),
    {
        let mut f = new_fields();
        push_str_field(&mut f, "content_page_token", content_page_token);
        self.post("content_pages/metrics/get", object(f), None)
    }

    /// Aggregate send-job delivery for one event.
    pub fn email_send_jobs_summary(
        &self,
        meetup_token: &str,
        limit: u32,
        date_from: Option<&str>,
        date_to: Option<&str>,
    ) -> (r: ApiRequest)
        ensures
            is_post(
                r,
                self.key(),
                "email_send_jobs/summary"@,
                Json::Obj(
                    opt_field(
                        opt_field(
                            seq![("meetup_token"@, Json::Str(meetup_token@))].push(("limit"@, jnum(limit))),
                            "date_from"@,
                            opt_str_view(date_from),
                        ),
                        "date_to"@,
                        opt_str_view(date_to),
                    ),
                ),
                None,
            ),
    {
        let mut f = new_fields();
        push_str_field(&mut f, "meetup_token", meetup_token);
        push_field(&mut f, "limit", num_u32(limit));
        push_opt_field(&mut f, "date_from", date_from);
        push_opt_field(&mut f, "date_to", date_to);
        self.post("email_send_jobs/summary", object(f), None)
    }

    /// Recent send jobs across the caller's visible weblog scope.
    pub fn email_send_jobs_list(
        &self,
        status: Option<&str>,
        content_page_token: Option<&str>,
        limit: u32,
        date_from: Option<&str>,
        date_to: Option<&str>,
    ) -> (r: ApiRequest)
        ensures
            is_post(
                r,
                self.key(),
                "email_send_jobs/list"@,
                Json::Obj(
                    opt_field(
                        opt_field(
                            opt_field(
                                opt_field(
                                    seq![("limit"@, jnum(limit))],
                                    "status"@,
                                    opt_str_view(status),
                                ),
                                "content_page_token"@,
                                opt_str_view(content_page_token),
                            ),
                            "date_from"@,
                            opt_str_view(date_from),
                        ),
                        "date_to"@,
                        opt_str_view(date_to),
                    ),
                ),
                None,
            ),
    {
        let mut f = new_fields();
        push_field(&mut f, "limit", num_u32(limit));
        push_opt_field(&mut f, "status", status);
        push_opt_field(&mut f, "content_page_token", content_page_token);
        push_opt_field(&mut f, "date_from", date_from);
        push_opt_field(&mut f, "date_to", date_to);
        self.post("email_send_jobs/list", object(f), None)
    }

    /// Detailed status for one send job.
    pub fn email_send_job_get(&self, token: &str) -> (r: ApiRequest)
        ensures
            is_post(
                r,
                self.key(),
                "email_send_jobs/get"@,
                Json::Obj(seq![("token"@, Json::Str(token@))]),
                None,
            ),
    {
        let mut f = new_fields();
        push_str_field(&mut f, "token", token);
        self.post("email_send_jobs/get", object(f), None)
    }

    /// Per-bucket throughput series for a send job.
    pub fn email_send_job_throughput_get(&self, token: &str, bucket: &str) -> (r: ApiRequest)
        ensures
            is_post(
                r,
                self.key(),
                "email_send_jobs/throughput"@,
                Json::Obj(seq![("token"@, Json::Str(token@))].push(("bucket"@, Json::Str(bucket@)))),
                None,
            ),
    {
        let mut f = new_fields();
        push_str_field(&mut f, "token", token);
        push_str_field(&mut f, "bucket", bucket);
        self.post("email_send_jobs/throughput", object(f), None)
    }

    /// Campaign open/click performance for an event: summary and campaigns,
    /// no trends, at most 25 campaigns.
    pub fn email_campaign_performance_get(&self, meetup_token: &str) -> (r: ApiRequest)
        ensures
            is_post(
                r,
                self.key(),
                "analytics/email/campaign_performance"@,
                Json::Obj(
                    seq![("meetup_token"@, Json::Str(meetup_token@))].push(("campaign_type"@, Json::Str("meetup"@))).push(("include_campaigns"@, Json::Bool(true))).push(("include_trends"@, Json::Bool(false))).push(("include_summary"@, Json::Bool(true))).push(("limit"@, jnum(25))),
                ),
                None,
            ),
    {
        let mut f = new_fields();
        push_str_field(&mut f, "meetup_token", meetup_token);
        push_str_field(&mut f, "campaign_type", "meetup");
        push_field(&mut f, "include_campaigns", JsonValue::Bool(true));
        push_field(&mut f, "include_trends", JsonValue::Bool(false));
        push_field(&mut f, "include_summary", JsonValue::Bool(true));
        push_field(&mut f, "limit", num_u32(25));
        self.post("analytics/email/campaign_performance", object(f), None)
    }

    /// Per-meetup post-event survey state.
    pub fn survey_diagnostic(&self, meetup_token: &str) -> (r: ApiRequest)
        ensures
            is_post(
                r,
                self.key(),
                "meetups/survey_diagnostic"@,
                Json::Obj(seq![("meetup_token"@, Json::Str(meetup_token@))]),
                None,
            ),
    {
        let mut f = new_fields();
        push_str_field(&mut f, "meetup_token", meetup_token);
        self.post("meetups/survey_diagnostic", object(f), None)
    }

    /// Cross-meetup survey coverage rollup for a lookback window.
    pub fn survey_report(&self, weblog_token: &str, days: u32) -> (r: ApiRequest)
        ensures
            is_post(
                r,
                self.key(),
                "meetups/survey_report"@,
                Json::Obj(
                    seq![("weblog_token"@, Json::Str(weblog_token@))].push(("days"@, jnum(days))).push(("include_rows"@, Json::Bool(true))),
                ),
                None,
            ),
    {
        let mut f = new_fields();
        push_str_field(&mut f, "weblog_token", weblog_token);
        push_field(&mut f, "days", num_u32(days));
        push_field(&mut f, "include_rows", JsonValue::Bool(true));
        self.post("meetups/survey_report", object(f), None)
    }

    /// Sender-domain deliverability health for a weblog (or the default scope).
    pub fn email_deliverability_health_get(
        &self,
        weblog_token: Option<&str>,
        date_from: Option<&str>,
        date_to: Option<&str>,
    ) -> (r: ApiRequest)
        ensures
            is_post(
                r,
                self.key(),
                "analytics/email/deliverability_health"@,
                Json::Obj(
                    opt_field(
                        opt_field(
                            opt_field(seq![], "weblog_token"@, opt_str_view(weblog_token)),
                            "date_from"@,
                            opt_str_view(date_from),
                        ),
                        "date_to"@,
                        opt_str_view(date_to),
                    ),
                ),
                None,
            ),
    {
        let mut f = new_fields();
        push_opt_field(&mut f, "weblog_token", weblog_token);
        push_opt_field(&mut f, "date_from", date_from);
        push_opt_field(&mut f, "date_to", date_to);
        self.post("analytics/email/deliverability_health", object(f), None)
    }

    /// Fatigue-risk tier summary for a weblog scope.
    pub fn email_fatigue_risk_get(&self, weblog_token: Option<&str>, limit: u32) -> (r: ApiRequest)
        ensures
            is_post(
                r,
                self.key(),
                "analytics/email/fatigue_risk"@,
                Json::Obj(
                    opt_field(seq![("limit"@, jnum(limit))], "weblog_token"@, opt_str_view(weblog_token)),
                ),
                None,
            ),
    {
        let mut f = new_fields();
        push_field(&mut f, "limit", num_u32(limit));
        push_opt_field(&mut f, "weblog_token", weblog_token);
        self.post("analytics/email/fatigue_risk", object(f), None)
    }

    /// Per-platform social post package (a generation call).
    pub fn social_post_generate(
        &self,
        source_type: &str,
        source_ref: &str,
        platform: &str,
        goal: &str,
        tone: Option<&str>,
        city: Option<&str>,
    ) -> (r: ApiRequest)
        ensures
            is_post(
                r,
                self.key(),
                "social_posts/generate"@,
                Json::Obj(
                    opt_field(
                        opt_field(
                            seq![("source_type"@, Json::Str(source_type@))].push(("source_ref"@, Json::Str(source_ref@))).push(("platform"@, Json::Str(platform@))).push(("goal"@, Json::Str(goal@))),
                            "tone"@,
                            opt_str_view(tone),
                        ),
                        "city"@,
                        opt_str_view(city),
                    ),
                ),
                Some(GENERATION_TIMEOUT_SECS),
            ),
    {
        let mut f = new_fields();
        push_str_field(&mut f, "source_type", source_type);
        push_str_field(&mut f, "source_ref", source_ref);
        push_str_field(&mut f, "platform", platform);
        push_str_field(&mut f, "goal", goal);
        push_opt_field(&mut f, "tone", tone);
        push_opt_field(&mut f, "city", city);
        self.post("social_posts/generate", object(f), Some(GENERATION_TIMEOUT_SECS))
    }

    /// Launch-ready event promo package (a generation call).
    pub fn event_promo_generate(&self, meetup_token: &str, package_type: &str, audience: &str) -> (r:
        ApiRequest)
        ensures
            is_post(
                r,
                self.key(),
                "event_promos/generate"@,
                Json::Obj(
                    seq![("meetup_token"@, Json::Str(meetup_token@))].push(("package_type"@, Json::Str(package_type@))).push(("audience"@, Json::Str(audience@))),
                ),
                Some(GENERATION_TIMEOUT_SECS),
            ),
    {
        let mut f = new_fields();
        push_str_field(&mut f, "meetup_token", meetup_token);
        push_str_field(&mut f, "package_type", package_type);
        push_str_field(&mut f, "audience", audience);
        self.post("event_promos/generate", object(f), Some(GENERATION_TIMEOUT_SECS))
    }

    /// Moderated discussion topics for a meetup (a generation call).
    pub fn discussion_topics_generate(&self, meetup_token: &str) -> (r: ApiRequest)
        ensures
            is_post(
                r,
                self.key(),
                "meetups/discussion_topics/generate"@,
                Json::Obj(seq![("meetup_token"@, Json::Str(meetup_token@))]),
                Some(GENERATION_TIMEOUT_SECS),
            ),
    {
        let mut f = new_fields();
        push_str_field(&mut f, "meetup_token", meetup_token);
        self.post(
            "meetups/discussion_topics/generate",
            object(f),
            Some(GENERATION_TIMEOUT_SECS),
        )
    }

    /// Logo/brand asset search, a plain GET.
    pub fn logo_search(&self, query: &str, scope: &str, include_co_branded: bool, limit: u32) -> (r:
        ApiRequest)
        ensures
            is_get(
                r,
                self.key(),
                "logos/search"@,
                seq![("query"@, query@)].push(("scope"@, scope@)).push(("include_co_branded"@, bool_text(include_co_branded))).push(("limit"@, decimal(limit as int))),
            ),
    {
        let mut q = new_params();
        push_param(&mut q, "query", owned(query));
        push_param(&mut q, "scope", owned(scope));
        push_param(&mut q, "include_co_branded", bool_string(include_co_branded));
        push_param(&mut q, "limit", u32_string(limit));
        self.get("logos/search", q)
    }

    /// Sponsor search by name/industry/city, a plain GET.
    pub fn sponsor_search(
        &self,
        query: &str,
        city: Option<&str>,
        industry: Option<&str>,
        active_only: bool,
        limit: u32,
    ) -> (r: ApiRequest)
        ensures
            is_get(
                r,
                self.key(),
                "sponsors/search"@,
                opt_param(
                    opt_param(
                        seq![("query"@, query@)].push(("limit"@, decimal(limit as int))).push(("active_only"@, bool_text(active_only))),
                        "city"@,
                        opt_str_view(city),
                    ),
                    "industry"@,
                    opt_str_view(industry),
                ),
            ),
    {
        let mut q = new_params();
        push_param(&mut q, "query", owned(query));
        push_param(&mut q, "limit", u32_string(limit));
        push_param(&mut q, "active_only", bool_string(active_only));
        if let Some(c) = city {
            push_param(&mut q, "city", owned(c));
        }
        if let Some(i) = industry {
            push_param(&mut q, "industry", owned(i));
        }
        self.get("sponsors/search", q)
    }

    /// Contacts for one sponsor, a plain GET.
    pub fn sponsor_contact_list(&self, sponsor_ref: &str) -> (r: ApiRequest)
        ensures
            is_get(r, self.key(), "sponsors/contacts"@, seq![("sponsor_ref"@, sponsor_ref@)]),
    {
        let mut q = new_params();
        push_param(&mut q, "sponsor_ref", owned(sponsor_ref));
        self.get("sponsors/contacts", q)
    }

    /// AI research brief for a sponsor or free-text company (a generation call).
    pub fn sponsor_research_generate(
        &self,
        sponsor_ref: Option<&str>,
        name: Option<&str>,
        domain: Option<&str>,
        city: Option<&str>,
        target_audience: Option<&str>,
        context: Option<&JsonValue>,
    ) -> (r: ApiRequest)
        ensures
            is_post(
                r,
                self.key(),
                "sponsors/research_generate"@,
                Json::Obj(
                    opt_json_field(
                        opt_field(
                            opt_field(
                                opt_field(
                                    opt_field(
                                        opt_field(seq![], "sponsor_ref"@, opt_str_view(sponsor_ref)),
                                        "name"@,
                                        opt_str_view(name),
                                    ),
                                    "domain"@,
                                    opt_str_view(domain),
                                ),
                                "city"@,
                                opt_str_view(city),
                            ),
                            "target_audience"@,
                            opt_str_view(target_audience),
                        ),
                        "context"@,
                        opt_ref_view(context),
                    ),
                ),
                Some(GENERATION_TIMEOUT_SECS),
            ),
    {
        let mut f = new_fields();
        push_opt_field(&mut f, "sponsor_ref", sponsor_ref);
        push_opt_field(&mut f, "name", name);
        push_opt_field(&mut f, "domain", domain);
        push_opt_field(&mut f, "city", city);
        push_opt_field(&mut f, "target_audience", target_audience);
        if let Some(c) = context {
            push_field(&mut f, "context", c.dup());
        }
        self.post("sponsors/research_generate", object(f), Some(GENERATION_TIMEOUT_SECS))
    }

    /// The uncapped body of a sponsorship pitch request: the given fields and
    /// context.
    pub fn sponsor_pitch_body(
        sponsor_ref: Option<&str>,
        name: Option<&str>,
        city: Option<&str>,
        channel: Option<&str>,
        target_audience: Option<&str>,
        context: Option<&JsonValue>,
    ) -> (r: JsonValue)
        ensures
            r@ == pitch_body_spec(sponsor_ref, name, city, channel, target_audience, context),
    {
        let mut f = new_fields();
        push_opt_field(&mut f, "sponsor_ref", sponsor_ref);
        push_opt_field(&mut f, "name", name);
        push_opt_field(&mut f, "city", city);
        push_opt_field(&mut f, "channel", channel);
        push_opt_field(&mut f, "target_audience", target_audience);
        if let Some(c) = context {
            push_field(&mut f, "context", c.dup());
        }
        object(f)
    }

    /// Tailored sponsorship pitch with event context (a generation call). The
    /// body is kept within the API's 64 KB context cap
    /// (`PITCH_CONTEXT_CAP_BYTES`) before it is sent.
    pub fn sponsor_pitch_generate(
        &self,
        sponsor_ref: Option<&str>,
        name: Option<&str>,
        city: Option<&str>,
        channel: Option<&str>,
        target_audience: Option<&str>,
        context: Option<&JsonValue>,
    ) -> (r: ApiRequest)
        ensures
            is_post(
                r,
                self.key(),
                "sponsors/pitch_generate"@,
                pitch_capped(
                    pitch_body_spec(sponsor_ref, name, city, channel, target_audience, context),
                    PITCH_CONTEXT_CAP_BYTES as int,
                ),
                Some(GENERATION_TIMEOUT_SECS),
            ),
    {
        let body = ApiClient::sponsor_pitch_body(sponsor_ref, name, city, channel, target_audience, context);
        let capped = cap_pitch_context_size(body, PITCH_CONTEXT_CAP_BYTES);
        self.post("sponsors/pitch_generate", capped, Some(GENERATION_TIMEOUT_SECS))
    }
}

/// The body of a pitch request: the given fields, in this order.
pub open spec fn pitch_body_spec(
    sponsor_ref: Option<&str>,
    name: Option<&str>,
    city: Option<&str>,
    channel: Option<&str>,
    target_audience: Option<&str>,
    context: Option<&JsonValue>,
) -> Json {
    Json::Obj(
        opt_json_field(
            opt_field(
                opt_field(
                    opt_field(
                        opt_field(
                            opt_field(seq![], "sponsor_ref"@, opt_str_view(sponsor_ref)),
                            "name"@,
                            opt_str_view(name),
                        ),
                        "city"@,
                        opt_str_view(city),
                    ),
                    "channel"@,
                    opt_str_view(channel),
                ),
                "target_audience"@,
                opt_str_view(target_audience),
            ),
            "context"@,
            opt_ref_view(context),
        ),
    )
}

pub open spec fn opt_ref_view(o: Option<&JsonValue>) -> Option<Json> {
    match o {
        Some(v) => Some(v@),
        None => None,
    }
}

/// `fields` with `key: v` appended when `o` is `Some(v)`.
pub open spec fn opt_json_field(fields: Seq<(Seq<char>, Json)>, key: Seq<char>, o: Option<Json>) -> Seq<(Seq<char>, Json)> {
    match o {
        Some(v) => fields.push((key, v)),
        None => fields,
    }
}


// ---------------------------------------------------------------------------
// Onboarding.
// ---------------------------------------------------------------------------

/// The key a pasted value stands for: the value with surrounding whitespace
/// trimmed; an empty key is refused as unauthorized before any call.
pub fn key_from_input(raw: &str) -> (r: AppResult<String>)
    ensures
        crate::text::trim(raw@).len() > 0 ==> (r matches Ok(k) && k@ == crate::text::trim(raw@)),
        crate::text::trim(raw@).len() == 0 ==> (r matches Err(AppError::Unauthorized(m)) && m@
            == "Empty key"@),
{
    let cs = crate::text::chars_of(raw);
    let t = crate::text::trim_chars(cs.as_slice());
    if t.len() == 0 {
        Err(AppError::Unauthorized(crate::text::owned("Empty key")))
    } else {
        Ok(crate::text::string_of(t.as_slice()))
    }
}

/// A validation response accepts the key only when its `valid` flag is
/// `true`; anything else is refused as unauthorized.
pub fn accept_identity(identity: &JsonValue) -> (r: AppResult<()>)
    ensures
        crate::json::get_bool(identity@, "valid"@) == Some(true) ==> r is Ok,
        crate::json::get_bool(identity@, "valid"@) != Some(true) ==> (r matches Err(AppError::Unauthorized(m))
            && m@ == "Key did not validate"@),
{
    match identity.get_bool("valid") {
        Some(true) => Ok(()),
        _ => Err(AppError::Unauthorized(crate::text::owned("Key did not validate"))),
    }
}

} // verus!
