//! The structured values that RPC messages carry.
//!
//! Payloads are `serde_json::Value`s. The library looks inside one only to
//! read and to write the requests that are its own, so a value is described
//! by three uninterpreted functions: the members of an object, the number
//! behind an unsigned integer and the text behind a string.

use crate::seqs::{any, distinct_keys, entries_map, keyed, lemma_any};
use serde_json::Value;
use vstd::prelude::*;

verus! {

/// `serde_json::Value`: any JSON value. Nothing of its inside is known but
/// what the functions below say.
#[verifier::external_type_specification]
#[verifier::external_body]
pub struct ExValue(serde_json::Value);

/// The members of a JSON object by key, or `None` for a value that is not an
/// object.
pub uninterp spec fn json_entries(v: Value) -> Option<Map<Seq<char>, Value>>;

/// The number behind a JSON integer that fits in 64 unsigned bits, or `None`
/// for every other value.
pub uninterp spec fn json_u64(v: Value) -> Option<u64>;

/// The text of a JSON string, or `None` for every other value.
pub uninterp spec fn json_text(v: Value) -> Option<Seq<char>>;

/// The member of `v` under `key`: present exactly when `v` is an object that
/// has the key.
pub open spec fn json_member(v: Value, key: Seq<char>) -> Option<Value> {
    match json_entries(v) {
        Some(entries) => if entries.contains_key(key) {
            Some(entries[key])
        } else {
            None
        },
        None => None,
    }
}

/// `Clone::clone` of `serde_json::Value`, a derived deep copy: the copy is the
/// same value.
pub assume_specification[ <Value as Clone>::clone ](v: &Value) -> (res: Value)
    ensures
        res == *v,
;

/// `serde_json::Value::get` with a string index: the member under `key` when
/// `v` is an object holding that key, `None` otherwise.
#[verifier::external_body]
pub(crate) fn member<'a>(v: &'a Value, key: &str) -> (res: Option<&'a Value>)
    ensures
        res is Some <==> json_member(*v, key@) is Some,
        res matches Some(m) ==> json_member(*v, key@) == Some(*m),
{
    v.get(key)
}

/// `serde_json::Value::as_u64`: the number when `v` is an integer that fits
/// in a `u64`, `None` otherwise.
#[verifier::external_body]
pub(crate) fn unsigned(v: &Value) -> (res: Option<u64>)
    ensures
        res == json_u64(*v),
{
    v.as_u64()
}

/// `serde_json::Value::as_str`: the text when `v` is a string, `None`
/// otherwise.
#[verifier::external_body]
pub(crate) fn text(v: &Value) -> (res: Option<String>)
    ensures
        res is Some <==> json_text(*v) is Some,
        res matches Some(s) ==> json_text(*v) == Some(s@),
{
    v.as_str().map(String::from)
}

/// `serde_json::Value::from` of a `u64`: the JSON integer with that number.
#[verifier::external_body]
pub(crate) fn number(n: u64) -> (res: Value)
    ensures
        json_u64(res) == Some(n),
{
    Value::from(n)
}

/// `serde_json::Value::String`: the JSON string with that text.
#[verifier::external_body]
pub(crate) fn string(s: String) -> (res: Value)
    ensures
        json_text(res) == Some(s@),
{
    Value::String(s)
}

/// `serde_json::Value::Object` over a `serde_json::Map` that is collected
/// from `members`: the JSON object with these members. The keys are pairwise
/// different, so that no member stands in for another.
#[verifier::external_body]
pub(crate) fn object(members: Vec<(String, Value)>) -> (res: Value)
    requires
        distinct_keys(members@),
    ensures
        json_entries(res) == Some(entries_map(members@)),
{
    Value::Object(members.into_iter().collect())
}

/// The JSON object without members.
pub fn empty_object() -> (res: Value)
    ensures
        json_entries(res) == Some(Map::<Seq<char>, Value>::empty()),
{
    let members: Vec<(String, Value)> = Vec::new();
    proof {
        assert(entries_map(members@) =~= Map::<Seq<char>, Value>::empty()) by {
            assert forall|key: Seq<char>| !any(members@, keyed::<Value>(key)) by {
                lemma_any(members@, keyed::<Value>(key));
            }
        }
    }
    object(members)
}

} // verus!
