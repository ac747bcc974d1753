//! The canonical architecture tags and the tag that a target path names.

use vstd::prelude::*;
use crate::position::first_position;
use crate::text::{chars_of, has_prefix, index_of, is_prefix, same_chars};

verus! {

/// How many canonical architecture tags there are.
pub const ARCHITECTURE_COUNT: usize = 24;

/// The canonical architecture tags, in their canonical order.
pub open spec fn arch_tag(i: int) -> Seq<char> {
    if i == 0 {
        "aarch64-darwin"@
    } else if i == 1 {
        "aarch64-linux"@
    } else if i == 2 {
        "armv5tel-linux"@
    } else if i == 3 {
        "armv6l-linux"@
    } else if i == 4 {
        "armv7a-linux"@
    } else if i == 5 {
        "armv7l-linux"@
    } else if i == 6 {
        "i686-linux"@
    } else if i == 7 {
        "loongarch64-linux"@
    } else if i == 8 {
        "m68k-linux"@
    } else if i == 9 {
        "microblazeel-linux"@
    } else if i == 10 {
        "microblaze-linux"@
    } else if i == 11 {
        "mips64el-linux"@
    } else if i == 12 {
        "mips64-linux"@
    } else if i == 13 {
        "mipsel-linux"@
    } else if i == 14 {
        "mips-linux"@
    } else if i == 15 {
        "powerpc64le-linux"@
    } else if i == 16 {
        "powerpc64-linux"@
    } else if i == 17 {
        "powerpc-linux"@
    } else if i == 18 {
        "riscv32-linux"@
    } else if i == 19 {
        "riscv64-linux"@
    } else if i == 20 {
        "s390-linux"@
    } else if i == 21 {
        "s390x-linux"@
    } else if i == 22 {
        "x86_64-darwin"@
    } else {
        "x86_64-linux"@
    }
}

/// The tag given to a path that names no canonical architecture.
pub open spec fn unknown_arch() -> Seq<char> {
    "unknown"@
}

/// `a` is one of the canonical tags.
pub open spec fn is_canonical_arch(a: Seq<char>) -> bool {
    exists|i: int| 0 <= i < ARCHITECTURE_COUNT && a == #[trigger] arch_tag(i)
}

/// The canonical tag at position `i`.
pub fn architecture(i: usize) -> (r: &'static str)
    requires
        i < ARCHITECTURE_COUNT,
    ensures
        r@ == arch_tag(i as int),
{
    match i {
        0 => "aarch64-darwin",
        1 => "aarch64-linux",
        2 => "armv5tel-linux",
        3 => "armv6l-linux",
        4 => "armv7a-linux",
        5 => "armv7l-linux",
        6 => "i686-linux",
        7 => "loongarch64-linux",
        8 => "m68k-linux",
        9 => "microblazeel-linux",
        10 => "microblaze-linux",
        11 => "mips64el-linux",
        12 => "mips64-linux",
        13 => "mipsel-linux",
        14 => "mips-linux",
        15 => "powerpc64le-linux",
        16 => "powerpc64-linux",
        17 => "powerpc-linux",
        18 => "riscv32-linux",
        19 => "riscv64-linux",
        20 => "s390-linux",
        21 => "s390x-linux",
        22 => "x86_64-darwin",
        _ => "x86_64-linux",
    }
}

/// Whether `name` is one of the canonical tags.
pub fn is_architecture(name: &str) -> (r: bool)
    ensures
        r == is_canonical_arch(name@),
{
    let v = chars_of(name);
    let mut i: usize = 0;
    while i < ARCHITECTURE_COUNT
        invariant
            i <= ARCHITECTURE_COUNT,
            v@ == name@,
            forall|j: int| 0 <= j < i ==> name@ != #[trigger] arch_tag(j),
        decreases ARCHITECTURE_COUNT - i,
    {
        let t = chars_of(architecture(i));
        if same_chars(&v, &t) {
            return true;
        }
        i += 1;
    }
    false
}

/// What follows the first `.` of `path`; `None` when the path has no `.`.
pub open spec fn after_first_dot(path: Seq<char>) -> Option<Seq<char>> {
    let k = first_position(path, '.');
    if k < path.len() {
        Some(path.subrange(k + 1, path.len() as int))
    } else {
        None
    }
}

/// The tag at position `i` starts what follows the first `.` of `path`.
pub open spec fn tag_matches(path: Seq<char>, i: int) -> bool {
    0 <= i < ARCHITECTURE_COUNT && after_first_dot(path) is Some && is_prefix(
        arch_tag(i),
        after_first_dot(path)->Some_0,
    )
}

/// The position of the longest tag among the first `n` that matches `path`,
/// the earliest of them where several are equally long.
pub open spec fn longest_match(path: Seq<char>, n: nat) -> Option<int>
    decreases n,
{
    if n == 0 {
        None
    } else {
        let before = longest_match(path, (n - 1) as nat);
        let j = n - 1;
        if tag_matches(path, j) && (before is None || arch_tag(before->Some_0).len() < arch_tag(
            j,
        ).len()) {
            Some(j)
        } else {
            before
        }
    }
}

/// The architecture tag of a target path: the longest canonical tag that
/// starts the text after the first `.`, or `unknown`.
pub open spec fn arch_of(path: Seq<char>) -> Seq<char> {
    match longest_match(path, ARCHITECTURE_COUNT as nat) {
        Some(k) => arch_tag(k),
        None => unknown_arch(),
    }
}

/// `longest_match` finds a matching tag that no other matching tag among the
/// first `n` exceeds in length, and finds none only if none matches.
pub proof fn lemma_longest_match(path: Seq<char>, n: nat)
    requires
        n <= ARCHITECTURE_COUNT,
    ensures
        match longest_match(path, n) {
            Some(k) => 0 <= k < n && tag_matches(path, k) && forall|j: int|
                0 <= j < n && tag_matches(path, j) ==> arch_tag(j).len() <= arch_tag(k).len(),
            None => forall|j: int| 0 <= j < n ==> !tag_matches(path, j),
        },
    decreases n,
{
    if n > 0 {
        lemma_longest_match(path, (n - 1) as nat);
    }
}

/// Two tags that both match a path and are equally long are the same text.
pub proof fn lemma_equal_length_matches_agree(path: Seq<char>, i: int, j: int)
    requires
        tag_matches(path, i),
        tag_matches(path, j),
        arch_tag(i).len() == arch_tag(j).len(),
    ensures
        arch_tag(i) == arch_tag(j),
{
}

/// The architecture tag is the longest canonical tag that starts the segment
/// after the first `.`: every matching tag is at most as long, and one of that
/// length is the tag itself. Without a match the tag is `unknown`.
pub proof fn lemma_arch_of_is_longest(path: Seq<char>)
    ensures
        (exists|j: int| tag_matches(path, j)) ==> is_canonical_arch(arch_of(path)) && is_prefix(
            arch_of(path),
            after_first_dot(path)->Some_0,
        ),
        forall|j: int| tag_matches(path, j) ==> arch_tag(j).len() <= arch_of(path).len(),
        forall|j: int|
            tag_matches(path, j) && arch_tag(j).len() == arch_of(path).len() ==> arch_tag(j)
                == arch_of(path),
        (forall|j: int| !tag_matches(path, j)) ==> arch_of(path) == unknown_arch(),
{
    lemma_longest_match(path, ARCHITECTURE_COUNT as nat);
    match longest_match(path, ARCHITECTURE_COUNT as nat) {
        Some(k) => {
            assert forall|j: int|
                tag_matches(path, j) && arch_tag(j).len() == arch_of(path).len() implies arch_tag(j)
                == arch_of(path) by {
                lemma_equal_length_matches_agree(path, j, k);
            }
        },
        None => {},
    }
}

/// The architecture tag of `path`.
pub fn detect_arch(path: &Vec<char>) -> (r: String)
    ensures
        r@ == arch_of(path@),
{
    let dot = index_of(path, '.');
    if dot >= path.len() {
        proof {
            lemma_longest_match(path@, ARCHITECTURE_COUNT as nat);
        }
        return String::from_str("unknown");
    }
    let mut rest: Vec<char> = Vec::new();
    let mut k: usize = dot + 1;
    while k < path.len()
        invariant
            dot + 1 <= k <= path.len(),
            rest@ == path@.subrange(dot + 1, k as int),
        decreases path.len() - k,
    {
        rest.push(path[k]);
        assert(rest@ =~= path@.subrange(dot + 1, k + 1));
        k += 1;
    }
    assert(after_first_dot(path@) == Some(rest@));
    let mut best: Option<usize> = None;
    let mut best_len: usize = 0;
    let mut i: usize = 0;
    while i < ARCHITECTURE_COUNT
        invariant
            i <= ARCHITECTURE_COUNT,
            after_first_dot(path@) == Some(rest@),
            match best {
                Some(b) => longest_match(path@, i as nat) == Some(b as int) && b < i && best_len
                    == arch_tag(b as int).len(),
                None => longest_match(path@, i as nat) is None,
            },
        decreases ARCHITECTURE_COUNT - i,
    {
        let t = chars_of(architecture(i));
        let longer = match best {
            Some(_) => best_len < t.len(),
            None => true,
        };
        if longer && has_prefix(&rest, &t) {
            best = Some(i);
            best_len = t.len();
        }
        i += 1;
    }
    match best {
        Some(b) => String::from_str(architecture(b)),
        None => String::from_str("unknown"),
    }
}

} // verus!
