use vstd::prelude::*;

verus! {

/// What `serde_yaml` reads from a text as a mapping of scalar keys to scalar values,
/// as `(key, value)` entries in key order, or `None` when the text is no such mapping.
pub uninterp spec fn yaml_entries_of(text: Seq<char>) -> Option<Seq<(Seq<char>, Seq<char>)>>;

/// The YAML text that `serde_yaml` writes for a mapping with these entries, in order.
pub uninterp spec fn yaml_text_of(entries: Seq<(Seq<char>, Seq<char>)>) -> Seq<char>;

/// The views of a sequence of string pairs.
pub open spec fn entry_views(v: Seq<(String, String)>) -> Seq<(Seq<char>, Seq<char>)> {
    v.map_values(|p: (String, String)| (p.0@, p.1@))
}

/// Relies on `serde_yaml::from_str` into a `BTreeMap<String, String>`: the result depends
/// on the text alone, and a `BTreeMap` hands its entries out in key order. A failure
/// comes back as the text of `serde_yaml`'s error.
#[verifier::external_body]
pub(crate) fn read_yaml_entries(text: &str) -> (r: std::result::Result<Vec<(String, String)>, String>)
    ensures
        r is Ok <==> yaml_entries_of(text@) is Some,
        r matches Ok(v) ==> entry_views(v@) == yaml_entries_of(text@)->Some_0,
{
    serde_yaml::from_str::<std::collections::BTreeMap<String, String>>(text).map(
        |m| m.into_iter().collect(),
    ).map_err(|e| e.to_string())
}

/// Relies on `serde_yaml::to_string` of a `serde_yaml::Mapping` from strings to strings,
/// in the order given; its source has no failure path for such a mapping written to memory.
#[verifier::external_body]
pub(crate) fn write_yaml_entries(entries: &Vec<(String, String)>) -> (r: String)
    ensures
        r@ == yaml_text_of(entry_views(entries@)),
{
    let mapping: serde_yaml::Mapping = entries.iter().map(
        |(k, v)| (serde_yaml::Value::String(k.clone()), serde_yaml::Value::String(v.clone())),
    ).collect();
    serde_yaml::to_string(&mapping).expect("a mapping of strings is always serializable")
}

} // verus!
