//! A JSON document as plain values, with the accessors the app reads payloads
//! with. Objects keep their keys in the order the payload gave them; a lookup
//! finds the first field with the key.
use vstd::prelude::*;

use crate::text::{chars_of, decimal, i64_to_string, nat_digits, str_eq, u64_to_string};

verus! {

broadcast use vstd::std_specs::vec::group_vec_axioms;

/// A JSON number: a non-negative integer, a negative integer, or any other
/// number, kept as the decimal text of its value.
#[derive(Debug)]
pub enum JsonNumber {
    PosInt(u64),
    NegInt(i64),
    Float(String),
}

/// A JSON document.
pub enum JsonValue {
    Null,
    Bool(bool),
    Number(JsonNumber),
    Str(String),
    Array(Vec<JsonValue>),
    Object(Vec<(String, JsonValue)>),
}

/// The mathematical model of a JSON number.
pub enum Num {
    PosInt(u64),
    NegInt(i64),
    Float(Seq<char>),
}

/// The mathematical model of a JSON document.
pub enum Json {
    Null,
    Bool(bool),
    Num(Num),
    Str(Seq<char>),
    Arr(Seq<Json>),
    Obj(Seq<(Seq<char>, Json)>),
}

pub open spec fn num_view(n: JsonNumber) -> Num {
    match n {
        JsonNumber::PosInt(u) => Num::PosInt(u),
        JsonNumber::NegInt(i) => Num::NegInt(i),
        JsonNumber::Float(t) => Num::Float(t@),
    }
}

pub open spec fn json_view(v: JsonValue) -> Json
    decreases v,
{
    match v {
        JsonValue::Null => Json::Null,
        JsonValue::Bool(b) => Json::Bool(b),
        JsonValue::Number(n) => Json::Num(num_view(n)),
        JsonValue::Str(s) => Json::Str(s@),
        JsonValue::Array(items) => Json::Arr(
            Seq::new(
                items@.len(),
                |i: int|
                    if 0 <= i < items@.len() {
                        json_view(items@[i])
                    } else {
                        Json::Null
                    },
            ),
        ),
        JsonValue::Object(fields) => Json::Obj(
            Seq::new(
                fields@.len(),
                |i: int|
                    if 0 <= i < fields@.len() {
                        (fields@[i].0@, json_view(fields@[i].1))
                    } else {
                        (Seq::empty(), Json::Null)
                    },
            ),
        ),
    }
}

impl View for JsonValue {
    type V = Json;

    open spec fn view(&self) -> Json {
        json_view(*self)
    }
}

/// The models of a sequence of documents.
pub open spec fn items_view(items: Seq<JsonValue>) -> Seq<Json> {
    items.map_values(|x: JsonValue| x@)
}

/// The models of a sequence of object fields.
pub open spec fn fields_view(fields: Seq<(String, JsonValue)>) -> Seq<(Seq<char>, Json)> {
    fields.map_values(|p: (String, JsonValue)| (p.0@, p.1@))
}

pub proof fn lemma_array_view(items: Vec<JsonValue>)
    ensures
        JsonValue::Array(items)@ == Json::Arr(items_view(items@)),
{
    assert(JsonValue::Array(items)@ matches Json::Arr(s) && s =~= items_view(items@));
}

pub proof fn lemma_object_view(fields: Vec<(String, JsonValue)>)
    ensures
        JsonValue::Object(fields)@ == Json::Obj(fields_view(fields@)),
{
    assert(JsonValue::Object(fields)@ matches Json::Obj(s) && s =~= fields_view(fields@));
}

/// The value of the first field named `key`.
pub open spec fn field_of(fields: Seq<(Seq<char>, Json)>, key: Seq<char>) -> Option<Json>
    decreases fields.len(),
{
    if fields.len() == 0 {
        None
    } else if fields[0].0 == key {
        Some(fields[0].1)
    } else {
        field_of(fields.drop_first(), key)
    }
}

/// `v[key]` when `v` is an object holding `key`.
pub open spec fn get_spec(v: Json, key: Seq<char>) -> Option<Json> {
    match v {
        Json::Obj(fields) => field_of(fields, key),
        _ => None,
    }
}

/// The text of a string value.
pub open spec fn str_spec(v: Option<Json>) -> Option<Seq<char>> {
    match v {
        Some(Json::Str(s)) => Some(s),
        _ => None,
    }
}

pub open spec fn bool_spec(v: Option<Json>) -> Option<bool> {
    match v {
        Some(Json::Bool(b)) => Some(b),
        _ => None,
    }
}

/// An integer number that fits in `i64` (`Value::as_i64`).
pub open spec fn i64_spec(v: Option<Json>) -> Option<int> {
    match v {
        Some(Json::Num(Num::PosInt(u))) => if u <= i64::MAX {
            Some(u as int)
        } else {
            None
        },
        Some(Json::Num(Num::NegInt(i))) => Some(i as int),
        _ => None,
    }
}

pub open spec fn array_spec(v: Option<Json>) -> Option<Seq<Json>> {
    match v {
        Some(Json::Arr(a)) => Some(a),
        _ => None,
    }
}

/// `v.get(key).and_then(as_str)`.
pub open spec fn get_str(v: Json, key: Seq<char>) -> Option<Seq<char>> {
    str_spec(get_spec(v, key))
}

/// `v.get(key).and_then(as_bool)`.
pub open spec fn get_bool(v: Json, key: Seq<char>) -> Option<bool> {
    bool_spec(get_spec(v, key))
}

/// `v.get(key).and_then(as_i64)`.
pub open spec fn get_i64(v: Json, key: Seq<char>) -> Option<int> {
    i64_spec(get_spec(v, key))
}

/// `v.get(key).cloned().unwrap_or(Value::Null)`.
pub open spec fn get_or_null_spec(v: Json, key: Seq<char>) -> Json {
    match get_spec(v, key) {
        Some(x) => x,
        None => Json::Null,
    }
}

/// The first of `names` whose value in `v` is a string, and that string
/// (`names.iter().find_map(|n| v.get(n).and_then(as_str))`).
pub open spec fn pick_str_spec(v: Json, names: Seq<Seq<char>>) -> Option<Seq<char>>
    decreases names.len(),
{
    if names.len() == 0 {
        None
    } else if get_str(v, names[0]) is Some {
        get_str(v, names[0])
    } else {
        pick_str_spec(v, names.drop_first())
    }
}

/// A value with no meaningful content: null, `{}` or `[]`.
pub open spec fn is_blank_spec(v: Json) -> bool {
    match v {
        Json::Null => true,
        Json::Obj(m) => m.len() == 0,
        Json::Arr(a) => a.len() == 0,
        _ => false,
    }
}

/// The texts of a list of string slices.
pub open spec fn names_view(names: Seq<&str>) -> Seq<Seq<char>> {
    names.map_values(|n: &str| n@)
}

impl JsonNumber {
    pub fn dup(&self) -> (r: JsonNumber)
        ensures
            num_view(r) == num_view(*self),
    {
        match self {
            JsonNumber::PosInt(u) => JsonNumber::PosInt(*u),
            JsonNumber::NegInt(i) => JsonNumber::NegInt(*i),
            JsonNumber::Float(t) => JsonNumber::Float(t.clone()),
        }
    }
}

impl JsonValue {
    /// A deep copy.
    #[verifier::loop_isolation(false)]
    pub fn dup(&self) -> (r: JsonValue)
        ensures
            r@ == self@,
        decreases self,
    {
        match self {
            JsonValue::Null => JsonValue::Null,
            JsonValue::Bool(b) => JsonValue::Bool(*b),
            JsonValue::Number(n) => JsonValue::Number(n.dup()),
            JsonValue::Str(s) => JsonValue::Str(s.clone()),
            JsonValue::Array(items) => {
                let mut out: Vec<JsonValue> = Vec::new();
                let mut i: usize = 0;
                while i < items.len()
                    invariant
                        0 <= i <= items@.len(),
                        out@.len() == i,
                        forall|k: int| 0 <= k < i ==> (#[trigger] out@[k])@ == items@[k]@,
                    decreases items.len() - i,
                {
                    let x = items[i].dup();
                    out.push(x);
                    i = i + 1;
                }
                proof {
                    lemma_array_view(out);
                    lemma_array_view(*items);
                    assert(items_view(out@) =~= items_view(items@));
                }
                JsonValue::Array(out)
            },
            JsonValue::Object(fields) => {
                let mut out: Vec<(String, JsonValue)> = Vec::new();
                let mut i: usize = 0;
                while i < fields.len()
                    invariant
                        0 <= i <= fields@.len(),
                        out@.len() == i,
                        forall|k: int|
                            0 <= k < i ==> (#[trigger] out@[k]).0@ == fields@[k].0@ && out@[k].1@
                                == fields@[k].1@,
                    decreases fields.len() - i,
                {
                    let k = fields[i].0.clone();
                    let x = fields[i].1.dup();
                    out.push((k, x));
                    i = i + 1;
                }
                proof {
                    lemma_object_view(out);
                    lemma_object_view(*fields);
                    assert(fields_view(out@) =~= fields_view(fields@));
                }
                JsonValue::Object(out)
            },
        }
    }

    /// `value.get(key)`: the first field named `key` of an object.
    pub fn get(&self, key: &str) -> (r: Option<&JsonValue>)
        ensures
            match r {
                Some(x) => get_spec(self@, key@) == Some(x@),
                None => get_spec(self@, key@) is None,
            },
    {
        match self {
            JsonValue::Object(fields) => {
                let ghost fv = fields_view(fields@);
                proof {
                    lemma_object_view(*fields);
                    assert(fv.subrange(0, fv.len() as int) =~= fv);
                }
                let mut i: usize = 0;
                while i < fields.len()
                    invariant
                        0 <= i <= fields@.len(),
                        fv == fields_view(fields@),
                        self@ == Json::Obj(fv),
                        field_of(fv, key@) == field_of(fv.subrange(i as int, fv.len() as int), key@),
                    decreases fields.len() - i,
                {
                    let ghost rest = fv.subrange(i as int, fv.len() as int);
                    proof {
                        assert(rest.drop_first() =~= fv.subrange(i + 1, fv.len() as int));
                        assert(rest[0] == (fields@[i as int].0@, fields@[i as int].1@));
                    }
                    if str_eq(fields[i].0.as_str(), key) {
                        proof {
                            assert(field_of(rest, key@) == Some(fields@[i as int].1@));
                            assert(self@ == Json::Obj(fv));
                        }
                        return Some(&fields[i].1);
                    }
                    i = i + 1;
                }
                None
            },
            _ => None,
        }
    }

    pub fn as_str(&self) -> (r: Option<&str>)
        ensures
            match r {
                Some(s) => str_spec(Some(self@)) == Some(s@),
                None => str_spec(Some(self@)) is None,
            },
    {
        match self {
            JsonValue::Str(s) => Some(s.as_str()),
            _ => None,
        }
    }

    pub fn as_bool(&self) -> (r: Option<bool>)
        ensures
            r == bool_spec(Some(self@)),
    {
        match self {
            JsonValue::Bool(b) => Some(*b),
            _ => None,
        }
    }

    pub fn as_i64(&self) -> (r: Option<i64>)
        ensures
            match r {
                Some(i) => i64_spec(Some(self@)) == Some(i as int),
                None => i64_spec(Some(self@)) is None,
            },
    {
        match self {
            JsonValue::Number(JsonNumber::PosInt(u)) => if *u <= 0x7FFF_FFFF_FFFF_FFFFu64 {
                Some(*u as i64)
            } else {
                None
            },
            JsonValue::Number(JsonNumber::NegInt(i)) => Some(*i),
            _ => None,
        }
    }

    pub fn as_array(&self) -> (r: Option<&Vec<JsonValue>>)
        ensures
            match r {
                Some(a) => array_spec(Some(self@)) == Some(items_view(a@)),
                None => array_spec(Some(self@)) is None,
            },
    {
        match self {
            JsonValue::Array(a) => {
                proof {
                    lemma_array_view(*a);
                }
                Some(a)
            },
            _ => None,
        }
    }

    /// True when this value carries no meaningful fields (null, `{}` or `[]`).
    pub fn is_blank(&self) -> (r: bool)
        ensures
            r == is_blank_spec(self@),
    {
        match self {
            JsonValue::Null => true,
            JsonValue::Object(m) => m.len() == 0,
            JsonValue::Array(a) => a.len() == 0,
            _ => false,
        }
    }

    /// `self.get(key).and_then(as_str)`.
    pub fn get_str(&self, key: &str) -> (r: Option<&str>)
        ensures
            match r {
                Some(s) => get_str(self@, key@) == Some(s@),
                None => get_str(self@, key@) is None,
            },
    {
        match self.get(key) {
            Some(x) => x.as_str(),
            None => None,
        }
    }

    /// `self.get(key).and_then(as_bool)`.
    pub fn get_bool(&self, key: &str) -> (r: Option<bool>)
        ensures
            r == get_bool(self@, key@),
    {
        match self.get(key) {
            Some(x) => x.as_bool(),
            None => None,
        }
    }

    /// `self.get(key).and_then(as_i64)`.
    pub fn get_i64(&self, key: &str) -> (r: Option<i64>)
        ensures
            match r {
                Some(i) => get_i64(self@, key@) == Some(i as int),
                None => get_i64(self@, key@) is None,
            },
    {
        match self.get(key) {
            Some(x) => x.as_i64(),
            None => None,
        }
    }

    /// `self.get(key).and_then(as_array)`.
    pub fn get_array(&self, key: &str) -> (r: Option<&Vec<JsonValue>>)
        ensures
            match r {
                Some(a) => array_spec(get_spec(self@, key@)) == Some(items_view(a@)),
                None => array_spec(get_spec(self@, key@)) is None,
            },
    {
        match self.get(key) {
            Some(x) => x.as_array(),
            None => None,
        }
    }

    /// A copy of `self[key]`, or `Null` when absent.
    pub fn get_or_null(&self, key: &str) -> (r: JsonValue)
        ensures
            r@ == get_or_null_spec(self@, key@),
    {
        match self.get(key) {
            Some(x) => x.dup(),
            None => JsonValue::Null,
        }
    }
}

/// Whether two numbers are the same.
pub fn num_eq(a: &JsonNumber, b: &JsonNumber) -> (r: bool)
    ensures
        r == (num_view(*a) == num_view(*b)),
{
    match (a, b) {
        (JsonNumber::PosInt(x), JsonNumber::PosInt(y)) => *x == *y,
        (JsonNumber::NegInt(x), JsonNumber::NegInt(y)) => *x == *y,
        (JsonNumber::Float(x), JsonNumber::Float(y)) => str_eq(x.as_str(), y.as_str()),
        _ => false,
    }
}

/// Whether two documents are the same value.
#[verifier::loop_isolation(false)]
pub fn json_eq(a: &JsonValue, b: &JsonValue) -> (r: bool)
    ensures
        r == (a@ == b@),
    decreases a,
{
    match (a, b) {
        (JsonValue::Null, JsonValue::Null) => true,
        (JsonValue::Bool(x), JsonValue::Bool(y)) => *x == *y,
        (JsonValue::Number(x), JsonValue::Number(y)) => num_eq(x, y),
        (JsonValue::Str(x), JsonValue::Str(y)) => str_eq(x.as_str(), y.as_str()),
        (JsonValue::Array(x), JsonValue::Array(y)) => {
            proof {
                lemma_array_view(*x);
                lemma_array_view(*y);
            }
            if x.len() != y.len() {
                proof {
                    assert(items_view(x@).len() != items_view(y@).len());
                }
                return false;
            }
            let mut i: usize = 0;
            while i < x.len()
                invariant
                    0 <= i <= x@.len(),
                    x@.len() == y@.len(),
                    forall|k: int| 0 <= k < i ==> (#[trigger] x@[k])@ == y@[k]@,
                decreases x.len() - i,
            {
                if !json_eq(&x[i], &y[i]) {
                    proof {
                        assert(items_view(x@)[i as int] != items_view(y@)[i as int]);
                    }
                    return false;
                }
                i = i + 1;
            }
            proof {
                assert(items_view(x@) =~= items_view(y@));
            }
            true
        },
        (JsonValue::Object(x), JsonValue::Object(y)) => {
            proof {
                lemma_object_view(*x);
                lemma_object_view(*y);
            }
            if x.len() != y.len() {
                proof {
                    assert(fields_view(x@).len() != fields_view(y@).len());
                }
                return false;
            }
            let mut i: usize = 0;
            while i < x.len()
                invariant
                    0 <= i <= x@.len(),
                    x@.len() == y@.len(),
                    forall|k: int|
                        0 <= k < i ==> (#[trigger] x@[k]).0@ == y@[k].0@ && x@[k].1@ == y@[k].1@,
                decreases x.len() - i,
            {
                if !str_eq(x[i].0.as_str(), y[i].0.as_str()) || !json_eq(&x[i].1, &y[i].1) {
                    proof {
                        assert(fields_view(x@)[i as int] != fields_view(y@)[i as int]);
                    }
                    return false;
                }
                i = i + 1;
            }
            proof {
                assert(fields_view(x@) =~= fields_view(y@));
            }
            true
        },
        _ => false,
    }
}

/// The first of `names` whose value in `v` is a string.
pub fn pick_str<'a>(v: &'a JsonValue, names: &[&str]) -> (r: Option<&'a str>)
    ensures
        match r {
            Some(s) => pick_str_spec(v@, names_view(names@)) == Some(s@),
            None => pick_str_spec(v@, names_view(names@)) is None,
        },
{
    let ghost all = names_view(names@);
    proof {
        assert(all.subrange(0, all.len() as int) =~= all);
    }
    let mut i: usize = 0;
    while i < names.len()
        invariant
            0 <= i <= names@.len(),
            all == names_view(names@),
            pick_str_spec(v@, all) == pick_str_spec(v@, all.subrange(i as int, all.len() as int)),
        decreases names.len() - i,
    {
        let ghost rest = all.subrange(i as int, all.len() as int);
        proof {
            assert(rest.drop_first() =~= all.subrange(i + 1, all.len() as int));
            assert(rest[0] == names@[i as int]@);
        }
        let got = v.get_str(names[i]);
        if got.is_some() {
            return got;
        }
        i = i + 1;
    }
    None
}


// ---------------------------------------------------------------------------
// The length of a document's JSON text.
// ---------------------------------------------------------------------------

/// The byte length of `s` written as a JSON string by serde_json: the
/// quotes and the escapes included.
pub uninterp spec fn json_string_text_len(s: Seq<char>) -> nat;

/// `serde_json::to_string` of a string, measured in bytes. Serializing a
/// `str` cannot fail; the result depends on `s` alone.
#[verifier::external_body]
fn string_text_len(s: &str) -> (n: usize)
    ensures
        n as nat == json_string_text_len(s@),
{
    match serde_json::to_string(s) {
        Ok(t) => t.len(),
        Err(_) => 0,
    }
}

/// The length of a number's JSON text: its decimal digits, with a `-` when
/// negative; a non-integer number is kept as its text.
pub open spec fn num_text_len(n: Num) -> nat {
    match n {
        Num::PosInt(u) => nat_digits(u as nat).len(),
        Num::NegInt(i) => decimal(i as int).len(),
        Num::Float(t) => t.len(),
    }
}

/// The byte length of the compact JSON text of `v` (no whitespace): `null`,
/// `true`, `false`, numbers and strings as themselves, arrays and objects
/// in brackets, with `,` between items and `:` after each key.
pub open spec fn json_text_len(v: Json) -> nat
    decreases v, 0nat,
{
    match v {
        Json::Null => 4,
        Json::Bool(b) => if b {
            4
        } else {
            5
        },
        Json::Num(n) => num_text_len(n),
        Json::Str(s) => json_string_text_len(s),
        Json::Arr(items) => 2 + items_text_len(items, items.len()),
        Json::Obj(fields) => 2 + fields_text_len(fields, fields.len()),
    }
}

/// The text length of the first `n` items of an array, with their commas.
pub open spec fn items_text_len(items: Seq<Json>, n: nat) -> nat
    decreases items, n,
{
    if n == 0 || n > items.len() {
        0
    } else {
        items_text_len(items, (n - 1) as nat) + json_text_len(items[n - 1]) + if n > 1 {
            1nat
        } else {
            0nat
        }
    }
}

/// The text length of the first `n` fields of an object: each key, its
/// colon and its value, with their commas.
pub open spec fn fields_text_len(fields: Seq<(Seq<char>, Json)>, n: nat) -> nat
    decreases fields, n,
{
    if n == 0 || n > fields.len() {
        0
    } else {
        fields_text_len(fields, (n - 1) as nat) + json_string_text_len(fields[n - 1].0) + 1
            + json_text_len(fields[n - 1].1) + if n > 1 {
            1nat
        } else {
            0nat
        }
    }
}

/// `x`, or `limit` when `x` is larger.
pub open spec fn clamp(x: nat, limit: nat) -> nat {
    if x < limit {
        x
    } else {
        limit
    }
}

fn clamp_sum(a: u128, b: u128, c: u128, limit: u128) -> (r: u128)
    requires
        a <= limit,
        b <= limit,
        c <= limit,
        limit <= u64::MAX as u128 + 1,
    ensures
        r == clamp((a + b + c) as nat, limit as nat),
{
    let t = a + b + c;
    if t < limit {
        t
    } else {
        limit
    }
}

fn count_upto(n: usize, limit: u128) -> (r: u128)
    requires
        limit <= u64::MAX as u128 + 1,
    ensures
        r == clamp(n as nat, limit as nat),
{
    let t = n as u128;
    if t < limit {
        t
    } else {
        limit
    }
}

/// The text length of `v`, counted only up to `limit`.
#[verifier::loop_isolation(false)]
fn text_len_upto(v: &JsonValue, limit: u128) -> (r: u128)
    requires
        limit <= u64::MAX as u128 + 1,
    ensures
        r == clamp(json_text_len(v@), limit as nat),
    decreases v,
{
    match v {
        JsonValue::Null => count_upto(4, limit),
        JsonValue::Bool(b) => count_upto(
            if *b {
                4
            } else {
                5
            },
            limit,
        ),
        JsonValue::Number(n) => {
            let text = match n {
                JsonNumber::PosInt(u) => u64_to_string(*u),
                JsonNumber::NegInt(i) => i64_to_string(*i),
                JsonNumber::Float(t) => t.clone(),
            };
            count_upto(chars_of(text.as_str()).len(), limit)
        },
        JsonValue::Str(s) => count_upto(string_text_len(s.as_str()), limit),
        JsonValue::Array(items) => {
            let ghost iv = items_view(items@);
            proof {
                lemma_array_view(*items);
            }
            let one = count_upto(1, limit);
            let mut acc: u128 = count_upto(2, limit);
            let mut i: usize = 0;
            while i < items.len()
                invariant
                    0 <= i <= items@.len(),
                    iv == items_view(items@),
                    iv.len() == items@.len(),
                    acc == clamp(2 + items_text_len(iv, i as nat), limit as nat),
                decreases items.len() - i,
            {
                let x = text_len_upto(&items[i], limit);
                let sep = if i > 0 {
                    one
                } else {
                    0
                };
                proof {
                    assert(iv[i as int] == items@[i as int]@);
                }
                acc = clamp_sum(acc, x, sep, limit);
                i = i + 1;
            }
            acc
        },
        JsonValue::Object(fields) => {
            let ghost fv = fields_view(fields@);
            proof {
                lemma_object_view(*fields);
            }
            let one = count_upto(1, limit);
            let mut acc: u128 = count_upto(2, limit);
            let mut i: usize = 0;
            while i < fields.len()
                invariant
                    0 <= i <= fields@.len(),
                    fv == fields_view(fields@),
                    fv.len() == fields@.len(),
                    acc == clamp(2 + fields_text_len(fv, i as nat), limit as nat),
                decreases fields.len() - i,
            {
                let k = count_upto(string_text_len(fields[i].0.as_str()), limit);
                let x = text_len_upto(&fields[i].1, limit);
                let sep = if i > 0 {
                    one
                } else {
                    0
                };
                proof {
                    assert(fv[i as int] == (fields@[i as int].0@, fields@[i as int].1@));
                }
                let with_key = clamp_sum(acc, k, one, limit);
                acc = clamp_sum(with_key, x, sep, limit);
                i = i + 1;
            }
            acc
        },
    }
}

/// Whether the compact JSON text of `v` is at most `cap` bytes long.
pub fn json_text_len_within(v: &JsonValue, cap: usize) -> (r: bool)
    ensures
        r == (json_text_len(v@) <= cap),
{
    let limit = cap as u128 + 1;
    text_len_upto(v, limit) <= cap as u128
}

} // verus!
