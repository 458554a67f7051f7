//! The YAML form of an index: a mapping of strings to strings.
use vstd::prelude::*;

verus! {

/// The key and value of each entry, as text.
pub open spec fn entries_view(v: Seq<(String, String)>) -> Seq<(Seq<char>, Seq<char>)> {
    Seq::new(v.len(), |i: int| (v[i].0@, v[i].1@))
}

/// The YAML text of an index mapping, where it can be written.
pub uninterp spec fn yaml_of_index(entries: Seq<(Seq<char>, Seq<char>)>) -> Option<Seq<char>>;

/// The entries of a YAML mapping of strings to strings, in the order of
/// their keys, where the text is one.
pub uninterp spec fn yaml_index_entries(text: Seq<char>) -> Option<Seq<(Seq<char>, Seq<char>)>>;

/// Relies on serde_yaml::to_string, on the mapping of the entries' keys to
/// their values; a failure is handed on as its message.
#[verifier::external_body]
pub(crate) fn index_to_yaml(entries: &Vec<(String, String)>) -> (r: core::result::Result<
    String,
    String,
>)
    ensures
        r is Ok <==> yaml_of_index(entries_view(entries@)) is Some,
        r matches Ok(text) ==> yaml_of_index(entries_view(entries@)) == Some(text@),
{
    let map: std::collections::BTreeMap<String, String> = entries.iter().cloned().collect();
    serde_yaml::to_string(&map).map_err(|e| e.to_string())
}

/// Relies on serde_yaml::from_str into a BTreeMap of strings, walked in the
/// order of its keys; a failure is handed on as its message.
#[verifier::external_body]
pub(crate) fn index_from_yaml(text: &str) -> (r: core::result::Result<
    Vec<(String, String)>,
    String,
>)
    ensures
        r is Ok <==> yaml_index_entries(text@) is Some,
        r matches Ok(v) ==> yaml_index_entries(text@) == Some(entries_view(v@)),
{
    serde_yaml::from_str::<std::collections::BTreeMap<String, String>>(text).map(
        |m| m.into_iter().collect(),
    ).map_err(|e| e.to_string())
}


} // verus!
