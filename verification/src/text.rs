//! Moving text between `str`/`String` and vectors of characters, and comparing it.
use vstd::prelude::*;

verus! {

/// The characters of `s` in order.
pub(crate) fn collect_chars(s: &str) -> (res: Vec<char>)
    ensures
        res@ == s@,
{
    let mut res: Vec<char> = Vec::new();
    for c in it: s.chars()
        invariant
            it.seq() == s@,
            res@ == s@.take(it.index()),
    {
        assert(c == s@[it.index()]);
        assert(s@.take(it.index() + 1) =~= res@.push(c));
        res.push(c);
    }
    assert(s@.take(s@.len() as int) =~= s@);
    res
}

/// Calls `String::from_iter` on the characters of `v`: a string of those characters in order.
#[verifier::external_body]
pub(crate) fn string_from_chars(v: Vec<char>) -> (res: String)
    ensures
        res@ == v@,
{
    String::from_iter(v)
}

/// Whether the two texts are the same, character by character.
pub fn text_equal(a: &str, b: &str) -> (res: bool)
    ensures
        res == (a@ == b@),
{
    let x = collect_chars(a);
    let y = collect_chars(b);
    if x.len() != y.len() {
        return false;
    }
    let mut i: usize = 0;
    while i < x.len()
        invariant
            i <= x.len(),
            x.len() == y.len(),
            x@ == a@,
            y@ == b@,
            forall|j: int| 0 <= j < i ==> x@[j] == y@[j],
        decreases x.len() - i,
    {
        if x[i] != y[i] {
            return false;
        }
        i = i + 1;
    }
    assert(a@ =~= b@);
    true
}

/// The characters of an optional text.
pub open spec fn optional_text(s: Option<String>) -> Option<Seq<char>> {
    match s {
        Some(t) => Some(t@),
        None => None,
    }
}

/// Whether the two optional texts are both absent, or both present and the same.
pub fn optional_text_equal(a: &Option<String>, b: &Option<String>) -> (res: bool)
    ensures
        res == (optional_text(*a) == optional_text(*b)),
{
    match (a, b) {
        (Some(x), Some(y)) => text_equal(x.as_str(), y.as_str()),
        (None, None) => true,
        _ => false,
    }
}

} // verus!
