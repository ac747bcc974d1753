//! Dotted manifest paths: why no two targets of one manifest share a path.

use vstd::prelude::*;
use crate::commit::{child_path, targets_below, targets_in, targets_of_child};
use crate::manifest::ManifestTree;
use crate::package::{derivation_at, system_config_at, system_config_suffix, TargetView};
use crate::position::{first_position, lemma_first_position_is};
use crate::text::is_prefix;

verus! {

/// A key that can stand as one segment of a dotted path: not empty and
/// without a `.`.
pub open spec fn plain_key(key: Seq<char>) -> bool {
    key.len() > 0 && !key.contains('.')
}

/// In the subtree `entries` and in every keyed subtree below it, every key
/// is plain and no key occurs twice.
pub open spec fn plain_keys(entries: Seq<(Seq<char>, ManifestTree)>) -> bool
    decreases entries,
{
    &&& forall|i: int, j: int| 0 <= i < j < entries.len() ==> entries[i].0 != entries[j].0
    &&& forall|i: int| 0 <= i < entries.len() ==> plain_key(#[trigger] entries[i].0)
    &&& forall|i: int|
        0 <= i < entries.len() ==> match (#[trigger] entries[i]).1 {
            ManifestTree::Object(sub) => plain_keys(sub),
            _ => true,
        }
}

/// The path `d` is `p` or lies below it.
pub open spec fn at_or_below(p: Seq<char>, d: Seq<char>) -> bool {
    d == p || is_prefix(p.push('.'), d)
}

/// The manifest path at which a target was found: its path, for a system
/// configuration without what was appended to it.
pub open spec fn discovered_at(target: TargetView) -> Seq<char> {
    match target {
        TargetView::Derivation(p) => p.path,
        TargetView::NixosConfig(c) => c.path.subrange(
            0,
            c.path.len() - system_config_suffix().len(),
        ),
    }
}

/// What lies at or below a path that lies at or below `a` lies at or below
/// `a`.
pub proof fn lemma_at_or_below_trans(a: Seq<char>, b: Seq<char>, c: Seq<char>)
    requires
        at_or_below(a, b),
        at_or_below(b, c),
    ensures
        at_or_below(a, c),
{
    if b != a && c != b {
        let ad = a.push('.');
        let bd = b.push('.');
        assert(c.subrange(0, ad.len() as int) =~= b.subrange(0, ad.len() as int)) by {
            assert forall|k: int| 0 <= k < ad.len() implies c[k] == b[k] by {
                assert(c.subrange(0, bd.len() as int)[k] == bd[k]);
            }
        }
    }
}

/// What lies at or below a child of `path` lies below `path`.
pub proof fn lemma_below_child_is_below(path: Seq<char>, key: Seq<char>, d: Seq<char>)
    requires
        path.len() > 0,
        at_or_below(child_path(path, key), d),
    ensures
        is_prefix(path.push('.'), d),
{
    let pd = path.push('.');
    let c = child_path(path, key);
    assert(c.subrange(0, pd.len() as int) =~= pd);
    if d != c {
        let cd = c.push('.');
        assert(d.subrange(0, pd.len() as int) =~= pd) by {
            assert forall|k: int| 0 <= k < pd.len() implies d[k] == pd[k] by {
                assert(d.subrange(0, cd.len() as int)[k] == cd[k]);
            }
        }
    }
}

/// Where `d` lies at or below the path made of `q` and the plain `key`, the
/// segment of `d` that follows `q` is `key`.
proof fn lemma_segment_is_key(q: Seq<char>, key: Seq<char>, d: Seq<char>)
    requires
        plain_key(key),
        at_or_below(q + key, d),
    ensures
        d.len() >= q.len() + key.len(),
        first_position(d.subrange(q.len() as int, d.len() as int), '.') == key.len(),
        d.subrange(q.len() as int, (q.len() + key.len()) as int) == key,
{
    let c = q + key;
    let r = d.subrange(q.len() as int, d.len() as int);
    if d != c {
        let cd = c.push('.');
        assert forall|k: int| 0 <= k < cd.len() implies d[k] == cd[k] by {
            assert(d.subrange(0, cd.len() as int)[k] == cd[k]);
        }
    }
    assert forall|j: int| 0 <= j < key.len() implies r[j] == key[j] by {
        assert(c[q.len() + j] == key[j]);
    }
    assert forall|j: int| 0 <= j < key.len() implies r[j] != '.' by {
        assert(key.contains(key[j]));
    }
    lemma_first_position_is(r, '.', key.len() as int);
    assert(d.subrange(q.len() as int, (q.len() + key.len()) as int) =~= key);
}

/// A path cannot lie at or below two children of one subtree whose keys are
/// plain and differ.
pub proof fn lemma_children_apart(path: Seq<char>, k1: Seq<char>, k2: Seq<char>, d: Seq<char>)
    requires
        plain_key(k1),
        plain_key(k2),
        at_or_below(child_path(path, k1), d),
        at_or_below(child_path(path, k2), d),
    ensures
        k1 == k2,
{
    let q = if path.len() == 0 {
        Seq::<char>::empty()
    } else {
        path.push('.')
    };
    assert(child_path(path, k1) =~= q + k1);
    assert(child_path(path, k2) =~= q + k2);
    lemma_segment_is_key(q, k1, d);
    lemma_segment_is_key(q, k2, d);
}

/// What holds of the targets `found` below `path`: each is where its kind
/// says it is, and none lies at or below another.
pub open spec fn targets_apart(found: Seq<TargetView>) -> bool {
    &&& forall|k: int|
        0 <= k < found.len() ==> ((#[trigger] found[k]) is NixosConfig ==> found[k].path()
            == discovered_at(found[k]) + system_config_suffix())
    &&& forall|i: int, j: int|
        0 <= i < found.len() && 0 <= j < found.len() && i != j ==> !at_or_below(
            discovered_at(#[trigger] found[i]),
            discovered_at(#[trigger] found[j]),
        )
}

/// The targets of a subtree with plain keys lie at or below the path of the
/// subtree, and none of them lies at or below another.
pub proof fn lemma_targets_in_apart(
    entries: Seq<(Seq<char>, ManifestTree)>,
    path: Seq<char>,
    commit_url: Seq<char>,
)
    requires
        plain_keys(entries),
    ensures
        targets_apart(targets_in(entries, path, commit_url)),
        path.len() > 0 ==> forall|k: int|
            0 <= k < targets_in(entries, path, commit_url).len() ==> at_or_below(
                path,
                discovered_at(#[trigger] targets_in(entries, path, commit_url)[k]),
            ),
    decreases entries, 1nat, 0nat,
{
    let found = targets_in(entries, path, commit_url);
    if derivation_at(entries, path, commit_url) is Some {
    } else if system_config_at(entries, path, commit_url) is Some {
        let suffix = system_config_suffix();
        assert((path + suffix).subrange(0, (path + suffix).len() - suffix.len()) =~= path);
    } else {
        lemma_targets_below_apart(entries, entries.len(), path, commit_url);
        if path.len() > 0 {
            assert forall|k: int| 0 <= k < found.len() implies at_or_below(
                path,
                discovered_at(#[trigger] found[k]),
            ) by {
                let c = choose|c: int|
                    0 <= c < entries.len() && at_or_below(
                        child_path(path, entries[c].0),
                        discovered_at(found[k]),
                    );
                lemma_below_child_is_below(path, entries[c].0, discovered_at(found[k]));
            }
        }
    }
}

/// The targets below the first `n` children of a subtree with plain keys
/// each lie at or below one of those children, and none of them lies at or
/// below another.
pub proof fn lemma_targets_below_apart(
    entries: Seq<(Seq<char>, ManifestTree)>,
    n: nat,
    path: Seq<char>,
    commit_url: Seq<char>,
)
    requires
        plain_keys(entries),
        n <= entries.len(),
    ensures
        targets_apart(targets_below(entries, n, path, commit_url)),
        forall|k: int|
            0 <= k < targets_below(entries, n, path, commit_url).len() ==> exists|c: int|
                0 <= c < n && at_or_below(
                    child_path(path, entries[c].0),
                    discovered_at(#[trigger] targets_below(entries, n, path, commit_url)[k]),
                ),
    decreases entries, 0nat, n,
{
    if n > 0 {
        let m = (n - 1) as nat;
        let before = targets_below(entries, m, path, commit_url);
        let child = targets_of_child(entries, m as int, path, commit_url);
        let all = targets_below(entries, n, path, commit_url);
        let here = child_path(path, entries[m as int].0);
        assert(all == before + child);
        lemma_targets_below_apart(entries, m, path, commit_url);
        assert(plain_key(entries[m as int].0));
        assert(here.len() > 0);
        match entries[m as int].1 {
            ManifestTree::Object(sub) => {
                lemma_targets_in_apart(sub, here, commit_url);
            },
            _ => {},
        }
        assert forall|k: int| 0 <= k < all.len() implies exists|c: int|
            0 <= c < n && at_or_below(
                child_path(path, entries[c].0),
                discovered_at(#[trigger] all[k]),
            ) by {
            if k < before.len() {
                assert(all[k] == before[k]);
                let c = choose|c: int|
                    0 <= c < m && at_or_below(
                        child_path(path, entries[c].0),
                        discovered_at(before[k]),
                    );
                assert(0 <= c < n && at_or_below(
                    child_path(path, entries[c].0),
                    discovered_at(all[k]),
                ));
            } else {
                assert(all[k] == child[k - before.len()]);
                assert(at_or_below(child_path(path, entries[m as int].0), discovered_at(all[k])));
            }
        }
        assert forall|k: int|
            0 <= k < all.len() && (#[trigger] all[k]) is NixosConfig implies all[k].path()
            == discovered_at(all[k]) + system_config_suffix() by {
            if k < before.len() {
                assert(all[k] == before[k]);
            } else {
                assert(all[k] == child[k - before.len()]);
            }
        }
        assert forall|i: int, j: int|
            0 <= i < all.len() && 0 <= j < all.len() && i != j implies !at_or_below(
                discovered_at(#[trigger] all[i]),
                discovered_at(#[trigger] all[j]),
            ) by {
            let di = discovered_at(all[i]);
            let dj = discovered_at(all[j]);
            if i < before.len() && j < before.len() {
                assert(all[i] == before[i] && all[j] == before[j]);
            } else if i >= before.len() && j >= before.len() {
                assert(all[i] == child[i - before.len()] && all[j] == child[j - before.len()]);
            } else if at_or_below(di, dj) {
                // one of the two was found below an earlier child, the other below this one
                let (old, new) = if i < before.len() {
                    (i, j)
                } else {
                    (j, i)
                };
                assert(all[old] == before[old]);
                assert(all[new] == child[new - before.len()]);
                let c = choose|c: int|
                    0 <= c < m && at_or_below(
                        child_path(path, entries[c].0),
                        discovered_at(before[old]),
                    );
                let there = child_path(path, entries[c].0);
                assert(at_or_below(here, discovered_at(all[new])));
                assert(at_or_below(there, discovered_at(all[old])));
                if i < before.len() {
                    lemma_at_or_below_trans(there, di, dj);
                } else {
                    lemma_at_or_below_trans(here, di, dj);
                }
                assert(plain_key(entries[c].0));
                lemma_children_apart(path, entries[c].0, entries[m as int].0, dj);
                assert(entries[c].0 != entries[m as int].0);
            }
        }
    }
}

/// In a manifest whose keys are plain (not empty, without a `.`) and occur
/// once in their subtree, no two targets have the same path.
pub proof fn lemma_paths_distinct(
    entries: Seq<(Seq<char>, ManifestTree)>,
    path: Seq<char>,
    commit_url: Seq<char>,
)
    requires
        plain_keys(entries),
    ensures
        forall|i: int, j: int|
            0 <= i < j < targets_in(entries, path, commit_url).len() ==> (#[trigger] targets_in(
                entries,
                path,
                commit_url,
            )[i]).path() != (#[trigger] targets_in(entries, path, commit_url)[j]).path(),
{
    let found = targets_in(entries, path, commit_url);
    let suffix = system_config_suffix();
    lemma_targets_in_apart(entries, path, commit_url);
    reveal_strlit(".config.system.build.toplevel");
    assert(suffix.len() > 0 && suffix[0] == '.');
    assert forall|i: int, j: int| 0 <= i < j < found.len() implies (#[trigger] found[i]).path() != (
    #[trigger] found[j]).path() by {
        let di = discovered_at(found[i]);
        let dj = discovered_at(found[j]);
        assert(!at_or_below(di, dj));
        assert(!at_or_below(dj, di));
        if found[i].path() == found[j].path() {
            if found[i] is NixosConfig && found[j] is NixosConfig {
                assert(di =~= (di + suffix).subrange(0, di.len() as int));
                assert(dj =~= (dj + suffix).subrange(0, dj.len() as int));
            } else if found[i] is NixosConfig {
                // found[j] is a package at `di + suffix`, below found[i]
                assert(dj == di + suffix);
                assert(dj.subrange(0, (di.len() + 1) as int) =~= di.push('.'));
            } else if found[j] is NixosConfig {
                assert(di == dj + suffix);
                assert(di.subrange(0, (dj.len() + 1) as int) =~= dj.push('.'));
            }
        }
    }
}

} // verus!
