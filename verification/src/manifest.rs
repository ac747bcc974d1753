//! The target manifest: a nested keyed tree, as the build tool prints it.

use vstd::prelude::*;
use crate::position::{first_position, lemma_first_position_is};
use crate::text::{chars_of, same_chars};

verus! {

/// One node of a manifest. Keyed subtrees keep their entries in the order in
/// which they were given; anything that is neither a keyed subtree nor a text
/// (numbers, booleans, lists, null) is `Other`.
#[derive(Debug)]
pub enum Manifest {
    Object(Vec<(String, Manifest)>),
    Text(String),
    Other,
}

/// The mathematical value of a manifest node.
pub enum ManifestTree {
    Object(Seq<(Seq<char>, ManifestTree)>),
    Text(Seq<char>),
    Other,
}

/// The value of each entry of a keyed subtree, in order.
pub open spec fn entries_view(entries: Seq<(String, Manifest)>) -> Seq<(Seq<char>, ManifestTree)>
    decreases entries,
{
    Seq::new(
        entries.len(),
        |i: int|
            if 0 <= i < entries.len() {
                (entries[i].0@, entries[i].1@)
            } else {
                (Seq::empty(), ManifestTree::Other)
            },
    )
}

impl View for Manifest {
    type V = ManifestTree;

    open spec fn view(&self) -> ManifestTree
        decreases self,
    {
        match self {
            Manifest::Object(entries) => ManifestTree::Object(entries_view(entries@)),
            Manifest::Text(s) => ManifestTree::Text(s@),
            Manifest::Other => ManifestTree::Other,
        }
    }
}

/// The keys of the entries of a keyed subtree, in order.
pub open spec fn entry_keys(entries: Seq<(Seq<char>, ManifestTree)>) -> Seq<Seq<char>> {
    entries.map_values(|e: (Seq<char>, ManifestTree)| e.0)
}

/// The value stored under `key`, if the subtree has that key.
pub open spec fn value_at(entries: Seq<(Seq<char>, ManifestTree)>, key: Seq<char>) -> Option<
    ManifestTree,
> {
    let k = first_position(entry_keys(entries), key);
    if k < entries.len() {
        Some(entries[k].1)
    } else {
        None
    }
}

/// The text stored under `key`; `None` when the key is missing or holds
/// something other than a text.
pub open spec fn text_at(entries: Seq<(Seq<char>, ManifestTree)>, key: Seq<char>) -> Option<
    Seq<char>,
> {
    match value_at(entries, key) {
        Some(ManifestTree::Text(s)) => Some(s),
        _ => None,
    }
}

/// No key occurs twice among the entries of any keyed subtree of `tree`, as
/// it is in every manifest that was read from JSON.
pub open spec fn keys_single(tree: ManifestTree) -> bool
    decreases tree,
{
    match tree {
        ManifestTree::Object(entries) => {
            &&& forall|i: int, j: int|
                0 <= i < j < entries.len() ==> entries[i].0 != entries[j].0
            &&& forall|i: int| 0 <= i < entries.len() ==> keys_single((#[trigger] entries[i]).1)
        },
        _ => true,
    }
}

/// Looks up the text stored under `key` among the entries of a keyed subtree.
pub fn get_text<'a>(entries: &'a Vec<(String, Manifest)>, key: &str) -> (r: Option<&'a String>)
    ensures
        match r {
            Some(s) => text_at(entries_view(entries@), key@) == Some(s@),
            None => text_at(entries_view(entries@), key@) is None,
        },
{
    let k = chars_of(key);
    let mut i: usize = 0;
    while i < entries.len()
        invariant
            i <= entries.len(),
            k@ == key@,
            forall|j: int| 0 <= j < i ==> entries_view(entries@)[j].0 != key@,
        decreases entries.len() - i,
    {
        let name = chars_of(entries[i].0.as_str());
        if same_chars(&name, &k) {
            proof {
                let ev = entries_view(entries@);
                assert(ev[i as int].0 == key@);
                lemma_first_position_is(entry_keys(ev), key@, i as int);
                assert(ev[i as int].1 == entries[i as int].1@);
            }
            return match &entries[i].1 {
                Manifest::Text(s) => Some(s),
                _ => None,
            };
        }
        i += 1;
    }
    proof {
        lemma_first_position_is(entry_keys(entries_view(entries@)), key@, entries.len() as int);
    }
    None
}

} // verus!
