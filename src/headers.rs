//! HTTP header lists as ordered `(name, value)` pairs; names compare without ASCII case.
use crate::text::chars_of;
use vstd::prelude::*;

verus! {

/// A header as values.
pub type Header = (Seq<char>, Seq<char>);

/// The views of a header list.
pub open spec fn headers_view(hs: Seq<(String, String)>) -> Seq<Header> {
    hs.map_values(|h: (String, String)| (h.0@, h.1@))
}

/// A character with ASCII upper case folded to lower case, as a code point.
pub open spec fn fold(c: char) -> u32 {
    if 'A' <= c && c <= 'Z' {
        (c as u32 + 32) as u32
    } else {
        c as u32
    }
}

/// Header names are equal up to ASCII case.
pub open spec fn names_equal(a: Seq<char>, b: Seq<char>) -> bool {
    a.len() == b.len() && forall|i: int| 0 <= i < a.len() ==> #[trigger] fold(a[i]) == fold(b[i])
}

/// The value of the first header named `name`, if any.
pub open spec fn header_value(hs: Seq<Header>, name: Seq<char>) -> Option<Seq<char>>
    decreases hs.len(),
{
    if hs.len() == 0 {
        None
    } else if names_equal(hs[0].0, name) {
        Some(hs[0].1)
    } else {
        header_value(hs.drop_first(), name)
    }
}

/// Whether a header named `name` is present.
pub open spec fn has_header(hs: Seq<Header>, name: Seq<char>) -> bool {
    exists|i: int| 0 <= i < hs.len() && names_equal(#[trigger] hs[i].0, name)
}

proof fn lemma_header_value_absent(hs: Seq<Header>, name: Seq<char>)
    ensures
        header_value(hs, name) is None <==> !has_header(hs, name),
    decreases hs.len(),
{
    if hs.len() > 0 {
        lemma_header_value_absent(hs.drop_first(), name);
        if has_header(hs, name) && !names_equal(hs[0].0, name) {
            let i = choose|i: int| 0 <= i < hs.len() && names_equal(#[trigger] hs[i].0, name);
            assert(hs.drop_first()[i - 1] == hs[i]);
        }
        if has_header(hs.drop_first(), name) {
            let i = choose|i: int| 0 <= i < hs.len() - 1 && names_equal(#[trigger] hs.drop_first()[i].0, name);
            assert(hs[i + 1] == hs.drop_first()[i]);
        }
    }
}

fn fold_exec(c: char) -> (r: u32)
    ensures
        r == fold(c),
{
    if 'A' <= c && c <= 'Z' {
        c as u32 + 32
    } else {
        c as u32
    }
}

/// Whether two header names are equal up to ASCII case.
pub fn names_equal_exec(a: &str, b: &str) -> (r: bool)
    ensures
        r == names_equal(a@, b@),
{
    let x = chars_of(a);
    let y = chars_of(b);
    if x.len() != y.len() {
        return false;
    }
    for i in 0..x.len()
        invariant
            x@ == a@,
            y@ == b@,
            x@.len() == y@.len(),
            forall|j: int| 0 <= j < i ==> #[trigger] fold(a@[j]) == fold(b@[j]),
    {
        if fold_exec(x[i]) != fold_exec(y[i]) {
            return false;
        }
    }
    true
}

/// The value of the first header named `name`, if any.
pub fn find_header(headers: &Vec<(String, String)>, name: &str) -> (r: Option<String>)
    ensures
        match r {
            Some(v) => header_value(headers_view(headers@), name@) == Some(v@),
            None => header_value(headers_view(headers@), name@) is None,
        },
{
    let ghost hs = headers_view(headers@);
    assert(hs.subrange(0, hs.len() as int) =~= hs);
    for i in 0..headers.len()
        invariant
            hs == headers_view(headers@),
            header_value(hs, name@) == header_value(hs.subrange(i as int, hs.len() as int), name@),
    {
        let ghost rest = hs.subrange(i as int, hs.len() as int);
        assert(rest[0] == (headers@[i as int].0@, headers@[i as int].1@));
        assert(rest.drop_first() =~= hs.subrange(i + 1, hs.len() as int));
        if names_equal_exec(headers[i].0.as_str(), name) {
            return Some(headers[i].1.clone());
        }
    }
    assert(hs.subrange(hs.len() as int, hs.len() as int).len() == 0);
    None
}

/// Whether a header named `name` is present.
pub fn contains_header(headers: &Vec<(String, String)>, name: &str) -> (r: bool)
    ensures
        r == has_header(headers_view(headers@), name@),
{
    proof {
        lemma_header_value_absent(headers_view(headers@), name@);
    }
    find_header(headers, name).is_some()
}

} // verus!
