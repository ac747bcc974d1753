//! Reading a manifest from JSON text with `serde_json`.

use vstd::prelude::*;
use crate::manifest::{keys_single, Manifest, ManifestTree};

verus! {

/// `serde_json::Value`, whose inside is read through `json_tree` only.
#[verifier::external_type_specification]
#[verifier::external_body]
pub struct ExJsonValue(serde_json::Value);

/// `serde_json::Error`, of which nothing is read.
#[verifier::external_type_specification]
#[verifier::external_body]
pub struct ExJsonError(serde_json::Error);

/// `serde_json::Map`, whose inside is read through `json_entries` only.
#[verifier::external_type_specification]
#[verifier::external_body]
#[verifier::reject_recursive_types(K)]
#[verifier::reject_recursive_types(V)]
pub struct ExJsonMap<K, V>(serde_json::Map<K, V>);

/// What a `serde_json::Value` holds, as a manifest reads it: an object is the
/// sequence of its entries in the order in which its map yields them, a
/// string is its text, and every other value is `Other`.
pub uninterp spec fn json_tree(value: serde_json::Value) -> ManifestTree;

/// What a `serde_json::Map` holds: its entries in the order in which it
/// yields them, each with the key as text and the value as a tree. The map
/// is built to keep its keys in the order in which they were given.
pub uninterp spec fn json_entries(map: serde_json::Map<String, serde_json::Value>) -> Seq<
    (Seq<char>, ManifestTree),
>;

/// What `serde_json::from_str` makes of `text` when asked for a
/// `serde_json::Value`: the tree of that value, or `None` where the text is
/// rejected.
pub uninterp spec fn json_document(text: Seq<char>) -> Option<ManifestTree>;

/// `serde_json::from_str::<serde_json::Value>`. The outcome depends on the
/// text alone; it is `Ok` exactly where `json_document` is `Some`, and the
/// value then holds that tree.
#[verifier::external_body]
fn parse_value(text: &str) -> (r: Result<serde_json::Value, serde_json::Error>)
    ensures
        r is Ok <==> json_document(text@) is Some,
        r is Ok ==> json_tree(r->Ok_0) == json_document(text@)->Some_0,
{
    serde_json::from_str::<serde_json::Value>(text)
}

/// `serde_json::Value::as_str`: the text of a string value, and `None` for
/// every other kind of value.
pub assume_specification<'a>[ serde_json::Value::as_str ](value: &'a serde_json::Value) -> (r:
    Option<&'a str>)
    ensures
        match json_tree(*value) {
            ManifestTree::Text(s) => r is Some && r->Some_0@ == s,
            _ => r is None,
        },
;

/// `serde_json::Value::as_object`: the map of an object, and `None` for
/// every other kind of value. The map holds the entries of the object.
pub assume_specification<'a>[ serde_json::Value::as_object ](value: &'a serde_json::Value) -> (r:
    Option<&'a serde_json::Map<String, serde_json::Value>>)
    ensures
        match json_tree(*value) {
            ManifestTree::Object(entries) => r is Some && json_entries(*r->Some_0) == entries,
            _ => r is None,
        },
;

/// `serde_json::Map::iter`, collected: the entries of the map in the order
/// in which the map yields them, each key copied and each value borrowed.
/// A map holds no key twice.
#[verifier::external_body]
fn map_entries<'a>(map: &'a serde_json::Map<String, serde_json::Value>) -> (r: Vec<
    (String, &'a serde_json::Value),
>)
    ensures
        r@.len() == json_entries(*map).len(),
        forall|i: int|
            0 <= i < r@.len() ==> (#[trigger] r@[i]).0@ == json_entries(*map)[i].0 && json_tree(
                *r@[i].1,
            ) == json_entries(*map)[i].1,
        forall|i: int, j: int| 0 <= i < j < r@.len() ==> r@[i].0@ != r@[j].0@,
{
    map.iter().map(|(k, v)| (k.clone(), v)).collect()
}

/// Copies a JSON value into a manifest node.
pub fn manifest_of(value: &serde_json::Value) -> (m: Manifest)
    ensures
        m@ == json_tree(*value),
        keys_single(m@),
    decreases json_tree(*value),
{
    match value.as_object() {
        Some(map) => {
            let entries = map_entries(map);
            let ghost tree = json_tree(*value)->Object_0;
            assert forall|a: int, b: int| 0 <= a < b < tree.len() implies tree[a].0
                != tree[b].0 by {
                assert(entries@[a].0@ == tree[a].0 && entries@[b].0@ == tree[b].0);
            }
            let mut out: Vec<(String, Manifest)> = Vec::new();
            let mut i: usize = 0;
            while i < entries.len()
                invariant
                    i <= entries.len(),
                    json_tree(*value) == ManifestTree::Object(tree),
                    entries@.len() == tree.len(),
                    forall|j: int|
                        0 <= j < tree.len() ==> (#[trigger] entries@[j]).0@ == tree[j].0
                            && json_tree(*entries@[j].1) == tree[j].1,
                    out@.len() == i,
                    forall|j: int|
                        0 <= j < i ==> (#[trigger] out@[j]).0@ == tree[j].0 && out@[j].1@
                            == tree[j].1,
                    forall|a: int, b: int| 0 <= a < b < tree.len() ==> tree[a].0 != tree[b].0,
                    forall|j: int| 0 <= j < i ==> keys_single(#[trigger] tree[j].1),
                decreases entries.len() - i,
            {
                let key = entries[i].0.clone();
                proof {
                    assert(entries@[i as int].0@ == tree[i as int].0);
                    let whole = json_tree(*value);
                    assert(decreases_to!(whole => whole->Object_0));
                    assert(decreases_to!(tree => tree[i as int]));
                    assert(decreases_to!(tree[i as int] => tree[i as int].1));
                }
                let child = manifest_of(entries[i].1);
                out.push((key, child));
                i += 1;
            }
            let m = Manifest::Object(out);
            assert(crate::manifest::entries_view(out@) =~= tree);
            m
        },
        None => match value.as_str() {
            Some(s) => Manifest::Text(String::from_str(s)),
            None => Manifest::Other,
        },
    }
}

/// Reads a manifest from JSON text. `None` where the text is not JSON.
pub fn parse_manifest(text: &str) -> (r: Option<Manifest>)
    ensures
        match r {
            Some(m) => json_document(text@) == Some(m@) && keys_single(m@),
            None => json_document(text@) is None,
        },
{
    match parse_value(text) {
        Ok(value) => Some(manifest_of(&value)),
        Err(_) => None,
    }
}

} // verus!
