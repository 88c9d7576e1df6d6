//! Character-level helpers over string views.
use vstd::prelude::*;
use vstd::string::{StrSliceExecFns, StringExecFns};

verus! {

/// `pre` is a prefix of `s`.
pub open spec fn is_prefix(pre: Seq<char>, s: Seq<char>) -> bool {
    pre.len() <= s.len() && s.subrange(0, pre.len() as int) == pre
}

/// `suf` is a suffix of `s`.
pub open spec fn is_suffix(suf: Seq<char>, s: Seq<char>) -> bool {
    suf.len() <= s.len() && s.subrange(s.len() - suf.len(), s.len() as int) == suf
}

/// `t` occurs in `s`.
pub open spec fn contains_text(s: Seq<char>, t: Seq<char>) -> bool {
    exists|i: int| 0 <= i && i + t.len() <= s.len() && #[trigger] s.subrange(i, i + t.len()) == t
}

/// The characters of `s`, in order.
pub fn chars_of(s: &str) -> (r: Vec<char>)
    ensures
        r@ == s@,
{
    let mut r: Vec<char> = Vec::new();
    for c in it: s.chars()
        invariant
            r@ == it.seq().subrange(0, it.index() as int),
            it.seq() == s@,
    {
        r.push(c);
    }
    r
}

} // verus!

verus! {

/// Whether `a[a_start..a_start+n]` and `b[b_start..b_start+n]` hold the same characters.
pub fn region_equal(a: &Vec<char>, a_start: usize, b: &Vec<char>, b_start: usize, n: usize) -> (r:
    bool)
    requires
        a_start + n <= a@.len(),
        b_start + n <= b@.len(),
    ensures
        r == (a@.subrange(a_start as int, a_start + n) == b@.subrange(
            b_start as int,
            b_start + n,
        )),
{
    let a_len = a.len();
    let b_len = b.len();
    let mut k: usize = 0;
    while k < n
        invariant
            k <= n,
            a_len == a@.len(),
            b_len == b@.len(),
            a_start + n <= a@.len(),
            b_start + n <= b@.len(),
            forall|j: int|
                0 <= j < k ==> a@.subrange(a_start as int, a_start + n)[j] == #[trigger] b@.subrange(
                    b_start as int,
                    b_start + n,
                )[j],
        decreases n - k,
    {
        if a[a_start + k] != b[b_start + k] {
            assert(a@.subrange(a_start as int, a_start + n)[k as int] != b@.subrange(
                b_start as int,
                b_start + n,
            )[k as int]);
            return false;
        }
        assert(a@.subrange(a_start as int, a_start + n)[k as int] == b@.subrange(
            b_start as int,
            b_start + n,
        )[k as int]);
        k = k + 1;
    }
    assert(a@.subrange(a_start as int, a_start + n) =~= b@.subrange(b_start as int, b_start + n));
    true
}

/// Whether two character sequences are equal.
pub fn chars_equal(a: &Vec<char>, b: &Vec<char>) -> (r: bool)
    ensures
        r == (a@ == b@),
{
    if a.len() != b.len() {
        return false;
    }
    let r = region_equal(a, 0, b, 0, a.len());
    assert(a@.subrange(0, a@.len() as int) =~= a@);
    assert(b@.subrange(0, b@.len() as int) =~= b@);
    r
}

/// The first `n` characters of `s` as a string.
pub fn prefix_string(s: &str, n: usize) -> (r: String)
    requires
        n <= s@.len(),
    ensures
        r@ == s@.subrange(0, n as int),
{
    String::from_str(s.substring_char(0, n))
}

/// The views of a list of strings.
pub open spec fn views_of(v: Seq<String>) -> Seq<Seq<char>> {
    v.map_values(|s: String| s@)
}

/// The views of a list of character vectors.
pub open spec fn char_views_of(v: Seq<Vec<char>>) -> Seq<Seq<char>> {
    v.map_values(|s: Vec<char>| s@)
}

/// A copy of a list of strings.
pub fn copy_strings(v: &Vec<String>) -> (r: Vec<String>)
    ensures
        r@ == v@,
{
    let mut r: Vec<String> = Vec::new();
    for i in 0..v.len()
        invariant
            r@ == v@.subrange(0, i as int),
    {
        r.push(v[i].clone());
        assert(r@ =~= v@.subrange(0, i + 1));
    }
    assert(r@ =~= v@);
    r
}

/// The characters of each string of a list.
pub fn chars_of_all(v: &Vec<String>) -> (r: Vec<Vec<char>>)
    ensures
        char_views_of(r@) == views_of(v@),
{
    let mut r: Vec<Vec<char>> = Vec::new();
    for i in 0..v.len()
        invariant
            r@.len() == i,
            forall|j: int| 0 <= j < i ==> #[trigger] r@[j]@ == v@[j]@,
    {
        let c = chars_of(v[i].as_str());
        r.push(c);
    }
    assert(char_views_of(r@) =~= views_of(v@));
    r
}

/// Whether `s` occurs in the list `v`.
pub fn contains_chars(v: &Vec<Vec<char>>, s: &Vec<char>) -> (r: bool)
    ensures
        r == char_views_of(v@).contains(s@),
{
    for i in 0..v.len()
        invariant
            forall|j: int| 0 <= j < i ==> v@[j]@ != s@,
    {
        if chars_equal(&v[i], s) {
            assert(char_views_of(v@)[i as int] == s@);
            return true;
        }
    }
    false
}

} // verus!
