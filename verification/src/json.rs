//! A library-owned JSON value model.
//!
//! The wire format arrives as JSON text. Parsing is delegated to serde_json
//! behind one trusted boundary; everything read out of a parsed value goes
//! through the spec accessors below, so the decoder's behaviour is stated and
//! verified over `Json` values.

use vstd::prelude::*;

verus! {

/// One JSON value. Numbers keep their decimal text, so the model carries
/// no floating point.
#[derive(Debug, PartialEq, Eq)]
pub enum Json {
    Null,
    Bool(bool),
    /// A number, as its decimal text.
    Num(String),
    Str(String),
    Arr(Vec<Json>),
    /// An object, as ordered key/value pairs.
    Obj(Vec<(String, Json)>),
}

/// The JSON document encoded by the given bytes, if they are one valid JSON
/// document. This names what `serde_json::from_slice::<serde_json::Value>`
/// returns: a function of the bytes alone.
pub uninterp spec fn json_doc_of(b: Seq<u8>) -> Option<Json>;

#[verifier::external_type_specification]
#[verifier::external_body]
pub struct ExValue(serde_json::Value);

/// Rebuilds a parsed `serde_json::Value` tree as the library's `Json`, one
/// variant per variant. Only the conversion half of [`parse_json`]; nothing
/// verified calls it directly, so it promises nothing.
#[verifier::external_body]
fn json_of_value(v: serde_json::Value) -> Json {
    match v {
        serde_json::Value::Null => Json::Null,
        serde_json::Value::Bool(b) => Json::Bool(b),
        serde_json::Value::Number(n) => Json::Num(n.to_string()),
        serde_json::Value::String(s) => Json::Str(s),
        serde_json::Value::Array(a) => Json::Arr(a.into_iter().map(json_of_value).collect()),
        serde_json::Value::Object(m) => Json::Obj(
            m.into_iter().map(|(k, x)| (k, json_of_value(x))).collect(),
        ),
    }
}

/// Relies on `serde_json::from_slice::<serde_json::Value>`: deterministically
/// parses one JSON document from the bytes, yielding nothing exactly when
/// they are not one. The parsed tree is rebuilt as [`Json`] by
/// [`json_of_value`].
#[verifier::external_body]
pub(crate) fn parse_json(b: &[u8]) -> (r: Option<Json>)
    ensures
        r == json_doc_of(b@),
{
    match serde_json::from_slice::<serde_json::Value>(b) {
        Ok(v) => Some(json_of_value(v)),
        Err(_) => None,
    }
}

/// Element `i` of `v`, when `v` is an array with more than `i` elements.
pub open spec fn j_get(v: Json, i: int) -> Option<Json> {
    match v {
        Json::Arr(a) => if 0 <= i < a@.len() {
            Some(a@[i])
        } else {
            None
        },
        _ => None,
    }
}

/// The characters of `v`, when `v` is a string.
pub open spec fn j_str_of(v: Json) -> Option<Seq<char>> {
    match v {
        Json::Str(s) => Some(s@),
        _ => None,
    }
}

/// The characters of element `i` of `v`, when that element is a string.
pub open spec fn j_get_str(v: Json, i: int) -> Option<Seq<char>> {
    match j_get(v, i) {
        Some(x) => j_str_of(x),
        None => None,
    }
}

/// The number of elements of `v`, when `v` is an array; zero otherwise.
pub open spec fn j_len(v: Json) -> int {
    match v {
        Json::Arr(a) => a@.len() as int,
        _ => 0,
    }
}

/// The value under the first pair whose key reads `k`.
pub open spec fn assoc_get(pairs: Seq<(String, Json)>, k: Seq<char>) -> Option<Json>
    decreases pairs.len(),
{
    if pairs.len() == 0 {
        None
    } else if pairs[0].0@ == k {
        Some(pairs[0].1)
    } else {
        assoc_get(pairs.skip(1), k)
    }
}

/// The value of field `k` of `v`, when `v` is an object with such a field.
pub open spec fn j_field(v: Json, k: Seq<char>) -> Option<Json> {
    match v {
        Json::Obj(pairs) => assoc_get(pairs@, k),
        _ => None,
    }
}

/// Element `i` of `v`, when `v` is an array with more than `i` elements.
pub fn j_index<'a>(v: &'a Json, i: usize) -> (r: Option<&'a Json>)
    ensures
        match r {
            Some(x) => j_get(*v, i as int) == Some(*x),
            None => j_get(*v, i as int) is None,
        },
{
    match v {
        Json::Arr(a) => if i < a.len() {
            Some(&a[i])
        } else {
            None
        },
        _ => None,
    }
}

/// The string under `v`, when `v` is a string.
pub fn j_as_str<'a>(v: &'a Json) -> (r: Option<&'a String>)
    ensures
        match r {
            Some(s) => j_str_of(*v) == Some(s@),
            None => j_str_of(*v) is None,
        },
{
    match v {
        Json::Str(s) => Some(s),
        _ => None,
    }
}

/// The field `k` of `v`, when `v` is an object with such a field.
pub fn j_lookup<'a>(v: &'a Json, k: &str) -> (r: Option<&'a Json>)
    ensures
        match r {
            Some(x) => j_field(*v, k@) == Some(*x),
            None => j_field(*v, k@) is None,
        },
{
    match v {
        Json::Obj(pairs) => {
            let mut i: usize = 0;
            proof {
                assert(pairs@.skip(0) =~= pairs@);
            }
            while i < pairs.len()
                invariant
                    i <= pairs@.len(),
                    *v == Json::Obj(*pairs),
                    assoc_get(pairs@, k@) == assoc_get(pairs@.skip(i as int), k@),
                decreases pairs@.len() - i,
            {
                if crate::text::str_eq(pairs[i].0.as_str(), k) {
                    proof {
                        assert(pairs@.skip(i as int)[0] == pairs@[i as int]);
                        assert(assoc_get(pairs@.skip(i as int), k@)
                            == Some(pairs@[i as int].1));
                    }
                    return Some(&pairs[i].1);
                }
                proof {
                    assert(pairs@.skip(i as int).skip(1) =~= pairs@.skip(i as int + 1));
                    assert(pairs@.skip(i as int)[0] == pairs@[i as int]);
                }
                i += 1;
            }
            proof {
                assert(pairs@.skip(i as int).len() == 0);
            }
            None
        },
        _ => None,
    }
}

} // verus!
