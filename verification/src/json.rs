//! The crate's own JSON value tree, and the trusted boundary to the
//! `serde_json` decoder.
//!
//! Every reply of the remote service is a JSON document. Decoding is done by
//! `serde_json`; the decoded tree is rebuilt as [`JsonValue`], a plain
//! datatype that the verifier can see through, so that every field
//! extraction in this crate is ordinary verified logic.
use vstd::prelude::*;

verus! {

/// A JSON number, as the `serde_json` decoder classifies it.
///
/// Decoded documents hold `Int` only for numbers below zero; `Other` keeps
/// the canonical rendering of a number that is not an integer.
#[derive(Debug, PartialEq, Eq)]
pub enum JsonNum {
    UInt(u64),
    Int(i64),
    Other(String),
}

impl DeepView for JsonNum {
    type V = JsonNum;

    open spec fn deep_view(&self) -> JsonNum {
        *self
    }
}

impl Clone for JsonNum {
    fn clone(&self) -> (r: JsonNum)
        ensures
            r == *self,
    {
        match self {
            JsonNum::UInt(u) => JsonNum::UInt(*u),
            JsonNum::Int(i) => JsonNum::Int(*i),
            JsonNum::Other(s) => JsonNum::Other(s.clone()),
        }
    }
}

/// One JSON value: the library's own transparent value tree.
#[derive(Debug, PartialEq, Eq)]
pub enum JsonValue {
    Null,
    Bool(bool),
    Num(JsonNum),
    Str(String),
    Arr(Vec<JsonValue>),
    Obj(Vec<(String, JsonValue)>),
}

impl JsonNum {
    /// The number as a `u64`, exactly when it is a non-negative integer.
    pub open spec fn spec_as_u64(self) -> Option<u64> {
        match self {
            JsonNum::UInt(u) => Some(u),
            _ => None,
        }
    }

    /// The number as an `i64`, exactly when it is an integer in range.
    pub open spec fn spec_as_i64(self) -> Option<i64> {
        match self {
            JsonNum::UInt(u) => if u <= i64::MAX as u64 {
                Some(u as i64)
            } else {
                None
            },
            JsonNum::Int(i) => Some(i),
            JsonNum::Other(_) => None,
        }
    }

    pub fn as_u64(&self) -> (r: Option<u64>)
        ensures
            r == self.spec_as_u64(),
    {
        match self {
            JsonNum::UInt(u) => Some(*u),
            _ => None,
        }
    }

    pub fn as_i64(&self) -> (r: Option<i64>)
        ensures
            r == self.spec_as_i64(),
    {
        match self {
            JsonNum::UInt(u) => if *u <= i64::MAX as u64 {
                Some(*u as i64)
            } else {
                None
            },
            JsonNum::Int(i) => Some(*i),
            JsonNum::Other(_) => None,
        }
    }
}

/// The value under `key` in a field list: the first pair whose key matches.
pub open spec fn spec_lookup(fields: Seq<(String, JsonValue)>, key: Seq<char>) -> Option<JsonValue>
    decreases fields.len(),
{
    if fields.len() == 0 {
        None
    } else if fields[0].0@ == key {
        Some(fields[0].1)
    } else {
        spec_lookup(fields.skip(1), key)
    }
}

/// The value under `key`, when the value is an object; `None` otherwise.
pub open spec fn spec_get(v: JsonValue, key: Seq<char>) -> Option<JsonValue> {
    match v {
        JsonValue::Obj(fields) => spec_lookup(fields@, key),
        _ => None,
    }
}

/// The counter under the `usage` object of `v`, when `usage` is an object
/// and carries `key` as a non-negative integer.
pub open spec fn spec_usage_counter(v: JsonValue, key: Seq<char>) -> Option<u64> {
    match spec_get(v, "usage"@) {
        Some(JsonValue::Obj(fields)) => match spec_lookup(fields@, key) {
            Some(JsonValue::Num(n)) => n.spec_as_u64(),
            _ => None,
        },
        _ => None,
    }
}

/// Read the counter under the `usage` object, best effort.
pub fn usage_counter_of(v: &JsonValue, key: &str) -> (r: Option<u64>)
    ensures
        r == spec_usage_counter(*v, key@),
{
    match v.get("usage") {
        Some(usage) => match usage {
            JsonValue::Obj(_) => match usage.get(key) {
                Some(JsonValue::Num(n)) => n.as_u64(),
                _ => None,
            },
            _ => None,
        },
        None => None,
    }
}

/// An envelope whose JSON object lacks a `usage` field yields no
/// counters at all.
pub proof fn lemma_no_usage_no_counters(v: JsonValue, key: Seq<char>)
    requires
        spec_get(v, "usage"@) is None,
    ensures
        spec_usage_counter(v, key) is None,
{
}

/// The entry's position among its siblings: its integer `index` field.
pub open spec fn spec_index_key(item: JsonValue) -> Option<i64> {
    match spec_get(item, "index"@) {
        Some(JsonValue::Num(n)) => n.spec_as_i64(),
        _ => None,
    }
}

/// Each entry of an array paired with its position: the entry's integer
/// `index` field as the key, the position as the value.
pub open spec fn keyed_positions(items: Seq<JsonValue>) -> Seq<(i64, usize)> {
    Seq::new(items.len(), |k: int| (spec_index_key(items[k])->0, k as usize))
}

/// Every entry of the array carries an integer `index` field.
pub open spec fn all_indexed(items: Seq<JsonValue>) -> bool {
    forall|k: int| 0 <= k < items.len() ==> spec_index_key(items[k]) is Some
}

/// Character-for-character string equality.
pub fn str_eq(a: &str, b: &str) -> (r: bool)
    ensures
        r == (a@ == b@),
{
    let n = a.unicode_len();
    if n != b.unicode_len() {
        return false;
    }
    let mut i: usize = 0;
    while i < n
        invariant
            n == a@.len(),
            n == b@.len(),
            0 <= i <= n,
            forall|k: int| 0 <= k < i ==> a@[k] == b@[k],
        decreases n - i,
    {
        if a.get_char(i) != b.get_char(i) {
            return false;
        }
        i = i + 1;
    }
    proof {
        assert(a@ =~= b@);
    }
    true
}

#[verifier::external_type_specification]
#[verifier::external_body]
pub struct ExValue(serde_json::Value);

/// The JSON document that `text` encodes, rebuilt as the library's own
/// value tree; `None` exactly when the decoder refuses `text` — a text
/// that is not one valid JSON document, or one nested beyond the
/// decoder's depth limit.
pub uninterp spec fn json_parse(text: Seq<char>) -> Option<JsonValue>;

/// What a decoded `serde_json::Value` holds, as the library's own value
/// tree: the outside tree and its model carry the same contents.
pub uninterp spec fn value_model(v: serde_json::Value) -> JsonValue;

/// Relies on `serde_json::from_str::<serde_json::Value>`: it decodes
/// the well-formed JSON documents within its nesting-depth limit,
/// refuses the rest with an error, and the outcome is a function of
/// the text alone.
#[verifier::external_body]
fn parse_value(text: &str) -> (r: Option<serde_json::Value>)
    ensures
        r matches Some(v) ==> json_parse(text@) == Some(value_model(v)),
        r is None ==> json_parse(text@) is None,
{
    serde_json::from_str(text).ok()
}

/// Relies on `serde_json::Value` having exactly these six variants, told
/// apart one arm each; integers are probed with `Number::as_u64` and
/// `Number::as_i64`, and any other number keeps its canonical rendering.
#[verifier::external_body]
fn value_to_json(v: serde_json::Value) -> (r: JsonValue)
    ensures
        r == value_model(v),
{
    match v {
        serde_json::Value::Null => JsonValue::Null,
        serde_json::Value::Bool(b) => JsonValue::Bool(b),
        serde_json::Value::Number(n) => JsonValue::Num(match (n.as_u64(), n.as_i64()) {
            (Some(u), _) => JsonNum::UInt(u),
            (None, Some(i)) => JsonNum::Int(i),
            (None, None) => JsonNum::Other(n.to_string()),
        }),
        serde_json::Value::String(s) => JsonValue::Str(s),
        serde_json::Value::Array(a) => JsonValue::Arr(a.into_iter().map(value_to_json).collect()),
        serde_json::Value::Object(m) => JsonValue::Obj(
            m.into_iter().map(|(k, x)| (k, value_to_json(x))).collect(),
        ),
    }
}

/// Decode one JSON document, `None` when the decoder refuses the text.
pub fn json_from_str(text: &str) -> (r: Option<JsonValue>)
    ensures
        r == json_parse(text@),
{
    match parse_value(text) {
        Some(v) => Some(value_to_json(v)),
        None => None,
    }
}

proof fn lemma_lookup_skip(fields: Seq<(String, JsonValue)>, key: Seq<char>, i: int)
    requires
        0 <= i <= fields.len(),
        forall|k: int| 0 <= k < i ==> fields[k].0@ != key,
    ensures
        spec_lookup(fields, key) == spec_lookup(fields.skip(i), key),
    decreases i,
{
    if i > 0 {
        assert(fields.skip(1).skip(i - 1) =~= fields.skip(i));
        lemma_lookup_skip(fields.skip(1), key, i - 1);
    } else {
        assert(fields.skip(0) =~= fields);
    }
}

impl JsonValue {
    /// Field access on an object, as `serde_json::Value::get` behaves:
    /// `Some` exactly when the value is an object carrying the key.
    pub fn get<'a>(&'a self, key: &str) -> (r: Option<&'a JsonValue>)
        ensures
            match r {
                Some(f) => spec_get(*self, key@) == Some(*f),
                None => spec_get(*self, key@) is None,
            },
    {
        match self {
            JsonValue::Obj(fields) => {
                let n = fields.len();
                let mut i: usize = 0;
                while i < n
                    invariant
                        n == fields@.len(),
                        0 <= i <= n,
                        spec_get(*self, key@) == spec_lookup(fields@, key@),
                        forall|k: int| 0 <= k < i ==> fields@[k].0@ != key@,
                    decreases n - i,
                {
                    if str_eq(fields[i].0.as_str(), key) {
                        proof {
                            lemma_lookup_skip(fields@, key@, i as int);
                            assert(fields@.skip(i as int)[0] == fields@[i as int]);
                            assert(spec_lookup(fields@.skip(i as int), key@) == Some(
                                fields@[i as int].1,
                            ));
                        }
                        return Some(&fields[i].1);
                    }
                    i = i + 1;
                }
                proof {
                    lemma_lookup_skip(fields@, key@, n as int);
                }
                None
            },
            _ => None,
        }
    }
}

} // verus!
