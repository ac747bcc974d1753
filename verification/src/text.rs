//! Text primitives over sequences of characters: prefix tests, search,
//! trimming and joining, each stated against `Seq<char>`.

use vstd::prelude::*;
use vstd::string::*;
use crate::position::{first_position, lemma_first_position, lemma_first_position_is};
use crate::tool::strings_view;

verus! {

/// `String::push` of the standard library: appends exactly one character to
/// the end of the string and leaves the rest as it was.
pub assume_specification[ String::push ](s: &mut String, ch: char)
    ensures
        final(s)@ == old(s)@.push(ch),
;

/// `p` is an initial segment of `s`.
pub open spec fn is_prefix(p: Seq<char>, s: Seq<char>) -> bool {
    p.len() <= s.len() && s.subrange(0, p.len() as int) == p
}

/// The characters of a string slice, one element per character.
pub fn chars_of(s: &str) -> (v: Vec<char>)
    ensures
        v@ == s@,
{
    let mut v: Vec<char> = Vec::new();
    for c in it: s.chars()
        invariant
            it.seq() == s@,
            v@ == s@.subrange(0, it.index() as int),
    {
        v.push(c);
        assert(v@ =~= s@.subrange(0, it.index() + 1));
    }
    assert(s@.subrange(0, s@.len() as int) =~= s@);
    v
}

/// Appends the characters `v[from..to]` to `out`.
pub fn push_range(out: &mut String, v: &Vec<char>, from: usize, to: usize)
    requires
        from <= to <= v.len(),
    ensures
        final(out)@ == old(out)@ + v@.subrange(from as int, to as int),
{
    let mut i: usize = from;
    while i < to
        invariant
            from <= i <= to <= v.len(),
            out@ == old(out)@ + v@.subrange(from as int, i as int),
        decreases to - i,
    {
        out.push(v[i]);
        assert(v@.subrange(from as int, i + 1) =~= v@.subrange(from as int, i as int).push(
            v@[i as int],
        ));
        assert(out@ =~= old(out)@ + v@.subrange(from as int, i + 1));
        i += 1;
    }
}

/// Whether `v` begins with `p`.
pub fn has_prefix(v: &Vec<char>, p: &Vec<char>) -> (r: bool)
    ensures
        r == is_prefix(p@, v@),
{
    let n = p.len();
    if n > v.len() {
        return false;
    }
    let mut i: usize = 0;
    while i < n
        invariant
            n == p.len(),
            n <= v.len(),
            i <= n,
            forall|j: int| 0 <= j < i ==> v@[j] == p@[j],
        decreases n - i,
    {
        if v[i] != p[i] {
            assert(v@.subrange(0, n as int)[i as int] != p@[i as int]);
            return false;
        }
        i += 1;
    }
    assert(v@.subrange(0, n as int) =~= p@);
    true
}

/// Whether the two vectors hold the same characters.
pub fn same_chars(a: &Vec<char>, b: &Vec<char>) -> (r: bool)
    ensures
        r == (a@ == b@),
{
    if a.len() != b.len() {
        return false;
    }
    let r = has_prefix(a, b);
    assert(a@.subrange(0, a.len() as int) =~= a@);
    r
}

/// Whether the two string slices hold the same text.
pub fn str_eq(a: &str, b: &str) -> (r: bool)
    ensures
        r == (a@ == b@),
{
    let x = chars_of(a);
    let y = chars_of(b);
    same_chars(&x, &y)
}

/// The position of the first `c` in `v`, or `v.len()` when there is none.
pub fn index_of(v: &Vec<char>, c: char) -> (k: usize)
    ensures
        k == first_position(v@, c),
{
    let mut i: usize = 0;
    while i < v.len() && v[i] != c
        invariant
            i <= v.len(),
            forall|j: int| 0 <= j < i ==> v@[j] != c,
        decreases v.len() - i,
    {
        i += 1;
    }
    proof {
        lemma_first_position_is(v@, c, i as int);
    }
    i
}

/// Unicode white space (the characters with the `White_Space` property).
pub open spec fn is_space(c: char) -> bool {
    let u = c as u32;
    ||| 0x09 <= u <= 0x0D
    ||| u == 0x20
    ||| u == 0x85
    ||| u == 0xA0
    ||| u == 0x1680
    ||| 0x2000 <= u <= 0x200A
    ||| u == 0x2028
    ||| u == 0x2029
    ||| u == 0x202F
    ||| u == 0x205F
    ||| u == 0x3000
}

/// Whether `c` is Unicode white space.
pub fn char_is_space(c: char) -> (r: bool)
    ensures
        r == is_space(c),
{
    let u: u32 = c as u32;
    (0x09 <= u && u <= 0x0D) || u == 0x20 || u == 0x85 || u == 0xA0 || u == 0x1680 || (0x2000 <= u
        && u <= 0x200A) || u == 0x2028 || u == 0x2029 || u == 0x202F || u == 0x205F || u == 0x3000
}

/// How many white-space characters `s` begins with.
pub open spec fn leading_spaces(s: Seq<char>) -> int
    decreases s.len(),
{
    if s.len() == 0 {
        0
    } else if is_space(s[0]) {
        1 + leading_spaces(s.drop_first())
    } else {
        0
    }
}

/// How many white-space characters `s` ends with.
pub open spec fn trailing_spaces(s: Seq<char>) -> int
    decreases s.len(),
{
    if s.len() == 0 {
        0
    } else if is_space(s.last()) {
        1 + trailing_spaces(s.drop_last())
    } else {
        0
    }
}

/// `s` without the white space at its two ends.
pub open spec fn trimmed(s: Seq<char>) -> Seq<char> {
    let a = leading_spaces(s);
    if a == s.len() {
        Seq::empty()
    } else {
        s.subrange(a, s.len() - trailing_spaces(s))
    }
}

/// A position `k` before which all is white space and which holds a
/// character that is none, or ends the sequence, is `leading_spaces`.
pub proof fn lemma_leading_spaces_is(s: Seq<char>, k: int)
    requires
        0 <= k <= s.len(),
        forall|j: int| 0 <= j < k ==> is_space(s[j]),
        k < s.len() ==> !is_space(s[k]),
    ensures
        leading_spaces(s) == k,
    decreases s.len(),
{
    if k > 0 {
        let t = s.drop_first();
        assert(is_space(s[0]));
        assert forall|j: int| 0 <= j < k - 1 implies is_space(t[j]) by {
            assert(t[j] == s[j + 1]);
        }
        lemma_leading_spaces_is(t, k - 1);
    }
}

/// A position `k` from which on all is white space and before which stands a
/// character that is none, or nothing at all, leaves `s.len() - k` trailing
/// spaces.
pub proof fn lemma_trailing_spaces_is(s: Seq<char>, k: int)
    requires
        0 <= k <= s.len(),
        forall|j: int| k <= j < s.len() ==> is_space(s[j]),
        k > 0 ==> !is_space(s[k - 1]),
    ensures
        trailing_spaces(s) == s.len() - k,
    decreases s.len(),
{
    if k < s.len() {
        let t = s.drop_last();
        assert(is_space(s.last()));
        lemma_trailing_spaces_is(t, k);
    }
}

/// The characters of `v` without the white space at the two ends.
pub fn trim_chars(v: &Vec<char>) -> (r: String)
    ensures
        r@ == trimmed(v@),
{
    let n = v.len();
    let mut a: usize = 0;
    while a < n && char_is_space(v[a])
        invariant
            n == v.len(),
            a <= n,
            forall|j: int| 0 <= j < a ==> is_space(v@[j]),
        decreases n - a,
    {
        a += 1;
    }
    proof {
        lemma_leading_spaces_is(v@, a as int);
    }
    let mut r = String::new();
    if a == n {
        return r;
    }
    let mut b: usize = n;
    while b > a && char_is_space(v[b - 1])
        invariant
            n == v.len(),
            a <= b <= n,
            a < n,
            !is_space(v@[a as int]),
            forall|j: int| b <= j < n ==> is_space(v@[j]),
        decreases b,
    {
        b -= 1;
    }
    proof {
        lemma_trailing_spaces_is(v@, b as int);
    }
    push_range(&mut r, v, a, b);
    assert(Seq::<char>::empty() + v@.subrange(a as int, b as int) =~= v@.subrange(
        a as int,
        b as int,
    ));
    r
}

/// `s` without the white space at its two ends.
pub fn trim(s: &str) -> (r: String)
    ensures
        r@ == trimmed(s@),
{
    let v = chars_of(s);
    trim_chars(&v)
}

/// What precedes the first line feed of `s`; all of `s` when it has none.
pub open spec fn first_line(s: Seq<char>) -> Seq<char> {
    s.subrange(0, first_position(s, '\n'))
}

/// `s` with every `from` replaced by `to`.
pub open spec fn with_char_replaced(s: Seq<char>, from: char, to: char) -> Seq<char> {
    s.map_values(
        |c: char|
            if c == from {
                to
            } else {
                c
            },
    )
}

/// `s` with every `from` replaced by `to`.
pub fn replace_char(s: &str, from: char, to: char) -> (r: String)
    ensures
        r@ == with_char_replaced(s@, from, to),
{
    let v = chars_of(s);
    let mut r = String::new();
    let mut i: usize = 0;
    while i < v.len()
        invariant
            i <= v.len(),
            v@ == s@,
            r@ == with_char_replaced(s@.subrange(0, i as int), from, to),
        decreases v.len() - i,
    {
        let c = v[i];
        r.push(
            if c == from {
                to
            } else {
                c
            },
        );
        assert(r@ =~= with_char_replaced(s@.subrange(0, i + 1), from, to));
        i += 1;
    }
    assert(s@.subrange(0, v.len() as int) =~= s@);
    r
}

/// `s` without `p` at its start; `s` itself where it does not start with `p`.
pub open spec fn without_prefix(s: Seq<char>, p: Seq<char>) -> Seq<char> {
    if is_prefix(p, s) {
        s.subrange(p.len() as int, s.len() as int)
    } else {
        s
    }
}

/// `s` without `p` at its start; `s` itself where it does not start with `p`.
pub fn strip_prefix(s: &str, p: &str) -> (r: String)
    ensures
        r@ == without_prefix(s@, p@),
{
    let v = chars_of(s);
    let q = chars_of(p);
    if has_prefix(&v, &q) {
        let mut r = String::new();
        push_range(&mut r, &v, q.len(), v.len());
        assert(Seq::<char>::empty() + v@.subrange(q.len() as int, v.len() as int) =~= v@.subrange(
            q.len() as int,
            v.len() as int,
        ));
        r
    } else {
        String::from_str(s)
    }
}

/// What precedes the first line feed of `v`; all of `v` when it has none.
pub fn first_line_of(v: &Vec<char>) -> (r: Vec<char>)
    ensures
        r@ == first_line(v@),
{
    let end = index_of(v, '\n');
    proof {
        lemma_first_position(v@, '\n');
    }
    let mut r: Vec<char> = Vec::new();
    let mut i: usize = 0;
    while i < end
        invariant
            i <= end <= v.len(),
            r@ == v@.subrange(0, i as int),
        decreases end - i,
    {
        r.push(v[i]);
        assert(r@ =~= v@.subrange(0, i + 1));
        i += 1;
    }
    r
}

/// `s` with `to` before each of its characters and at its end.
pub open spec fn interleaved(s: Seq<char>, to: Seq<char>) -> Seq<char>
    decreases s.len(),
{
    if s.len() == 0 {
        to
    } else {
        to.push(s[0]) + interleaved(s.drop_first(), to)
    }
}

/// `s` with every occurrence of `pat` replaced by `to`, the occurrences
/// taken from left to right and never overlapping. An empty `pat` occurs
/// before each character and at the end.
pub open spec fn replaced(s: Seq<char>, pat: Seq<char>, to: Seq<char>) -> Seq<char>
    decreases s.len(),
{
    if pat.len() == 0 {
        interleaved(s, to)
    } else if is_prefix(pat, s) {
        to + replaced(s.subrange(pat.len() as int, s.len() as int), pat, to)
    } else if s.len() == 0 {
        s
    } else {
        seq![s[0]] + replaced(s.drop_first(), pat, to)
    }
}

/// Whether `p` stands in `v` at position `at`.
pub fn occurs_at(v: &Vec<char>, at: usize, p: &Vec<char>) -> (r: bool)
    requires
        at <= v.len(),
    ensures
        r == is_prefix(p@, v@.subrange(at as int, v.len() as int)),
{
    let n = p.len();
    if n > v.len() - at {
        return false;
    }
    let ghost rest = v@.subrange(at as int, v.len() as int);
    let mut i: usize = 0;
    while i < n
        invariant
            n == p.len(),
            at + n <= v.len(),
            i <= n,
            rest == v@.subrange(at as int, v.len() as int),
            forall|j: int| 0 <= j < i ==> rest[j] == p@[j],
        decreases n - i,
    {
        if v[at + i] != p[i] {
            assert(rest.subrange(0, n as int)[i as int] != p@[i as int]);
            return false;
        }
        i += 1;
    }
    assert(rest.subrange(0, n as int) =~= p@);
    true
}

/// `s` with every occurrence of `pat` replaced by `to`.
pub fn replace_all(s: &str, pat: &str, to: &str) -> (r: String)
    ensures
        r@ == replaced(s@, pat@, to@),
{
    let v = chars_of(s);
    let p = chars_of(pat);
    let n = v.len();
    let mut r = String::new();
    let mut i: usize = 0;
    assert(v@.subrange(0, n as int) =~= v@);
    assert(Seq::<char>::empty() + replaced(v@, p@, to@) =~= replaced(v@, p@, to@));
    if p.len() == 0 {
        while i < n
            invariant
                n == v.len(),
                i <= n,
                interleaved(v@, to@) == r@ + interleaved(v@.subrange(i as int, n as int), to@),
            decreases n - i,
        {
            let ghost rest = v@.subrange(i as int, n as int);
            let ghost r0 = r@;
            r.append(to);
            r.push(v[i]);
            assert(rest.drop_first() =~= v@.subrange(i + 1, n as int));
            assert(r@ + interleaved(rest.drop_first(), to@) =~= r0 + (to@.push(rest[0])
                + interleaved(rest.drop_first(), to@)));
            i += 1;
        }
        let ghost r0 = r@;
        r.append(to);
        assert(r@ =~= r0 + interleaved(v@.subrange(n as int, n as int), to@));
        return r;
    }
    while i < n
        invariant
            n == v.len(),
            i <= n,
            p@.len() > 0,
            replaced(v@, p@, to@) == r@ + replaced(v@.subrange(i as int, n as int), p@, to@),
        decreases n - i,
    {
        let ghost rest = v@.subrange(i as int, n as int);
        let ghost r0 = r@;
        if occurs_at(&v, i, &p) {
            r.append(to);
            assert(rest.subrange(p@.len() as int, rest.len() as int) =~= v@.subrange(
                i + p@.len(),
                n as int,
            ));
            assert(r@ + replaced(v@.subrange(i + p@.len(), n as int), p@, to@) =~= r0 + (to@
                + replaced(v@.subrange(i + p@.len(), n as int), p@, to@)));
            i += p.len();
        } else {
            r.push(v[i]);
            assert(rest.drop_first() =~= v@.subrange(i + 1, n as int));
            assert(r@ + replaced(rest.drop_first(), p@, to@) =~= r0 + (seq![rest[0]] + replaced(
                rest.drop_first(),
                p@,
                to@,
            )));
            i += 1;
        }
    }
    assert(r@ + replaced(v@.subrange(n as int, n as int), p@, to@) =~= r@);
    r
}

/// The texts of `parts` in a row, with `sep` between each two.
pub open spec fn joined(parts: Seq<Seq<char>>, sep: Seq<char>) -> Seq<char>
    decreases parts.len(),
{
    if parts.len() == 0 {
        Seq::empty()
    } else if parts.len() == 1 {
        parts[0]
    } else {
        joined(parts.drop_last(), sep) + sep + parts.last()
    }
}

/// The texts of `parts` in a row, with `sep` between each two.
pub fn join(parts: &Vec<String>, sep: &str) -> (r: String)
    ensures
        r@ == joined(parts@.map_values(|s: String| s@), sep@),
{
    let ghost views = parts@.map_values(|s: String| s@);
    let mut r = String::new();
    let mut i: usize = 0;
    assert(views.subrange(0, 0) =~= Seq::empty());
    while i < parts.len()
        invariant
            i <= parts.len(),
            views == parts@.map_values(|s: String| s@),
            r@ == joined(views.subrange(0, i as int), sep@),
        decreases parts.len() - i,
    {
        let ghost r0 = r@;
        if i > 0 {
            r.append(sep);
        }
        r.append(parts[i].as_str());
        proof {
            let now = views.subrange(0, i + 1);
            assert(now.drop_last() =~= views.subrange(0, i as int));
            assert(now.last() == parts@[i as int]@);
            if i == 0 {
                assert(r@ =~= now[0]);
            }
        }
        i += 1;
    }
    assert(views.subrange(0, i as int) =~= views);
    r
}

/// Whether `text` is one of the strings of `list`.
pub fn contains_string(list: &Vec<String>, text: &str) -> (r: bool)
    ensures
        r == strings_view(list@).contains(text@),
{
    let mut i: usize = 0;
    while i < list.len()
        invariant
            i <= list.len(),
            forall|j: int| 0 <= j < i ==> strings_view(list@)[j] != text@,
        decreases list.len() - i,
    {
        if str_eq(list[i].as_str(), text) {
            assert(strings_view(list@)[i as int] == text@);
            return true;
        }
        i += 1;
    }
    false
}

} // verus!
