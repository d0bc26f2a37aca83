//! The YAML values the library builds and inspects, through `serde_yaml`.
//!
//! `serde_yaml::Value` and `serde_yaml::Mapping` are opaque here. Each
//! `serde_yaml` operation the library performs has a name (an uninterpreted
//! spec function) for its result; contracts elsewhere speak of documents as
//! compositions of these names.

use vstd::prelude::*;

verus! {

#[verifier::external_type_specification]
#[verifier::external_body]
pub struct ExYamlValue(serde_yaml::Value);

#[verifier::external_type_specification]
#[verifier::external_body]
pub struct ExYamlMapping(serde_yaml::Mapping);

/// What `serde_yaml::from_str::<Value>` makes of `text` (`None` on a parse error).
pub uninterp spec fn yaml_parse_spec(text: Seq<char>) -> Option<serde_yaml::Value>;

/// The mapping inside a value of the `Value::Mapping` variant, else `None`.
pub uninterp spec fn yaml_as_mapping(v: serde_yaml::Value) -> Option<serde_yaml::Mapping>;

/// The keys of a mapping in order: `Some(s)` for a `Value::String(s)` key,
/// `None` for a key of any other variant.
pub uninterp spec fn yaml_mapping_keys(m: serde_yaml::Mapping) -> Seq<Option<Seq<char>>>;

/// Whether `Value::as_mapping` finds a mapping (looking through tags).
pub uninterp spec fn yaml_is_mapping(v: serde_yaml::Value) -> bool;

/// The value after `as_mapping_mut().insert(Value::String(key), value)` on a
/// value that holds a mapping.
pub uninterp spec fn yaml_value_insert(
    v: serde_yaml::Value,
    key: Seq<char>,
    value: serde_yaml::Value,
) -> serde_yaml::Value;

/// The mapping collected from `(Value::String(key), value)` pairs, in order.
pub uninterp spec fn yaml_mapping_from(entries: Seq<(Seq<char>, serde_yaml::Value)>) -> serde_yaml::Mapping;

/// `Value::Mapping(m)`.
pub uninterp spec fn yaml_of_mapping(m: serde_yaml::Mapping) -> serde_yaml::Value;

/// `Value::String(s)`.
pub uninterp spec fn yaml_str(s: Seq<char>) -> serde_yaml::Value;

/// `Value::Number(n.into())` for an unsigned integer.
pub uninterp spec fn yaml_uint(n: nat) -> serde_yaml::Value;

/// `Value::Bool(b)`.
pub uninterp spec fn yaml_bool(b: bool) -> serde_yaml::Value;

/// `Value::Sequence(items)`.
pub uninterp spec fn yaml_seq(items: Seq<serde_yaml::Value>) -> serde_yaml::Value;

/// What `serde_yaml::to_string` gives for a value: the emitted text, or
/// `None` where it returns an error.
pub uninterp spec fn yaml_emit_result(v: serde_yaml::Value) -> Option<Seq<char>>;

/// `(key, value)` pairs with each key taken by its characters.
pub open spec fn entries_view(v: Seq<(String, serde_yaml::Value)>) -> Seq<(Seq<char>, serde_yaml::Value)> {
    Seq::new(v.len(), |i: int| (v[i].0@, v[i].1))
}

/// Parses `text` with `serde_yaml::from_str::<serde_yaml::Value>`; a parse
/// error becomes `None`. The contract names the result and says no more.
#[verifier::external_body]
pub(crate) fn parse_yaml(text: &str) -> (res: Option<serde_yaml::Value>)
    ensures
        res == yaml_parse_spec(text@),
{
    serde_yaml::from_str::<serde_yaml::Value>(text).ok()
}

/// Takes the mapping out of a `Value::Mapping`; any other variant gives `None`.
#[verifier::external_body]
pub(crate) fn into_mapping(v: serde_yaml::Value) -> (res: Option<serde_yaml::Mapping>)
    ensures
        res == yaml_as_mapping(v),
{
    match v {
        serde_yaml::Value::Mapping(m) => Some(m),
        _ => None,
    }
}

/// The keys of `m` via `Mapping::keys`, each a string key or `None`.
#[verifier::external_body]
pub(crate) fn mapping_keys(m: &serde_yaml::Mapping) -> (res: Vec<Option<String>>)
    ensures
        res@.len() == yaml_mapping_keys(*m).len(),
        forall|i: int|
            0 <= i < res@.len() ==> match #[trigger] res@[i] {
                Some(s) => yaml_mapping_keys(*m)[i] == Some(s@),
                None => yaml_mapping_keys(*m)[i] is None,
            },
{
    m.keys().map(|k|
        match k {
            serde_yaml::Value::String(s) => Some(s.clone()),
            _ => None,
        }).collect()
}

/// Whether `Value::as_mapping` finds a mapping (tags are looked through).
#[verifier::external_body]
pub(crate) fn is_mapping(v: &serde_yaml::Value) -> (res: bool)
    ensures
        res == yaml_is_mapping(*v),
{
    v.as_mapping().is_some()
}

/// Inserts `(Value::String(key), value)` into the mapping that
/// `Value::as_mapping_mut` reaches; the value still holds a mapping after.
#[verifier::external_body]
pub(crate) fn value_insert(v: &mut serde_yaml::Value, key: &str, value: serde_yaml::Value)
    requires
        yaml_is_mapping(*old(v)),
    ensures
        *final(v) == yaml_value_insert(*old(v), key@, value),
        yaml_is_mapping(*final(v)),
{
    if let Some(m) = v.as_mapping_mut() {
        m.insert(serde_yaml::Value::String(key.to_string()), value);
    }
}

/// A mapping collected (`FromIterator`) from string-keyed pairs.
#[verifier::external_body]
pub(crate) fn mapping_from(entries: Vec<(String, serde_yaml::Value)>) -> (res: serde_yaml::Mapping)
    ensures
        res == yaml_mapping_from(entries_view(entries@)),
{
    entries.into_iter().map(|(k, v)| (serde_yaml::Value::String(k), v)).collect()
}

/// `Value::Mapping(m)`.
#[verifier::external_body]
pub(crate) fn value_of_mapping(m: serde_yaml::Mapping) -> (res: serde_yaml::Value)
    ensures
        res == yaml_of_mapping(m),
{
    serde_yaml::Value::Mapping(m)
}

/// `Value::String(s)`.
#[verifier::external_body]
pub(crate) fn value_str(s: String) -> (res: serde_yaml::Value)
    ensures
        res == yaml_str(s@),
{
    serde_yaml::Value::String(s)
}

/// `Value::Number(n.into())`.
#[verifier::external_body]
pub(crate) fn value_uint(n: u64) -> (res: serde_yaml::Value)
    ensures
        res == yaml_uint(n as nat),
{
    serde_yaml::Value::Number(n.into())
}

/// `Value::Bool(b)`.
#[verifier::external_body]
pub(crate) fn value_bool(b: bool) -> (res: serde_yaml::Value)
    ensures
        res == yaml_bool(b),
{
    serde_yaml::Value::Bool(b)
}

/// `Value::Sequence(items)`.
#[verifier::external_body]
pub(crate) fn value_seq(items: Vec<serde_yaml::Value>) -> (res: serde_yaml::Value)
    ensures
        res == yaml_seq(items@),
{
    serde_yaml::Value::Sequence(items)
}

/// `serde_yaml::to_string(v)`; an error becomes `None`. The contract says
/// that the outcome, text or error, is the named result for `v`: the same
/// value always emits the same way.
#[verifier::external_body]
pub(crate) fn emit_yaml(v: &serde_yaml::Value) -> (res: Option<String>)
    ensures
        match res {
            Some(s) => yaml_emit_result(*v) == Some(s@),
            None => yaml_emit_result(*v) is None,
        },
{
    serde_yaml::to_string(v).ok()
}

} // verus!
