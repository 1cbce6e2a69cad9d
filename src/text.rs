//! Character-sequence facts shared by the provide and maintainer parsers.
use vstd::prelude::*;

verus! {

/// `d` occurs in `s` starting at index `i`.
pub open spec fn occurs_at(s: Seq<char>, d: Seq<char>, i: int) -> bool {
    0 <= i && i + d.len() <= s.len() && s.subrange(i, i + d.len()) == d
}

/// `d` occurs somewhere in `s`.
pub open spec fn occurs(s: Seq<char>, d: Seq<char>) -> bool {
    exists|i: int| occurs_at(s, d, i)
}

/// `i` is the first index at which `d` occurs in `s`.
pub open spec fn is_first_at(s: Seq<char>, d: Seq<char>, i: int) -> bool {
    occurs_at(s, d, i) && forall|j: int| 0 <= j < i ==> !occurs_at(s, d, j)
}

/// The first index at which `d` occurs in `s` (meaningful when `occurs(s, d)`).
pub open spec fn first_at(s: Seq<char>, d: Seq<char>) -> int {
    choose|i: int| is_first_at(s, d, i)
}

/// The part of `s` before the first occurrence of `d`.
pub open spec fn before_first(s: Seq<char>, d: Seq<char>) -> Seq<char> {
    s.subrange(0, first_at(s, d))
}

/// The part of `s` after the first occurrence of `d`.
pub open spec fn after_first(s: Seq<char>, d: Seq<char>) -> Seq<char> {
    s.subrange(first_at(s, d) + d.len(), s.len() as int)
}

/// No character of `s` is `c`.
pub open spec fn lacks(s: Seq<char>, c: char) -> bool {
    forall|i: int| 0 <= i < s.len() ==> s[i] != c
}

/// Some occurrence of `d` in `s` is the first one.
pub proof fn lemma_first_exists(s: Seq<char>, d: Seq<char>, k: int)
    requires
        occurs_at(s, d, k),
    ensures
        exists|i: int| is_first_at(s, d, i),
    decreases k,
{
    if exists|j: int| 0 <= j < k && occurs_at(s, d, j) {
        let j = choose|j: int| 0 <= j < k && occurs_at(s, d, j);
        lemma_first_exists(s, d, j);
    } else {
        assert(is_first_at(s, d, k));
    }
}

/// The first occurrence is unique, so `first_at` names it.
pub proof fn lemma_first_at(s: Seq<char>, d: Seq<char>, i: int)
    requires
        is_first_at(s, d, i),
    ensures
        first_at(s, d) == i,
{
    let k = first_at(s, d);
    assert(is_first_at(s, d, k));
    assert(!(k < i));
    assert(!(i < k));
}

/// When `d` occurs, `s` is the part before it, `d`, and the part after it.
pub proof fn lemma_split_first(s: Seq<char>, d: Seq<char>)
    requires
        occurs(s, d),
    ensures
        is_first_at(s, d, first_at(s, d)),
        s == before_first(s, d) + d + after_first(s, d),
{
    let k = choose|k: int| occurs_at(s, d, k);
    lemma_first_exists(s, d, k);
    let i = first_at(s, d);
    assert(s =~= s.subrange(0, i) + s.subrange(i, i + d.len()) + s.subrange(i + d.len(), s.len() as int));
}

/// Relies on `str::split_once`: it splits `s` at the first occurrence of `d`
/// and returns the parts before and after it, or `None` when `d` does not occur.
#[verifier::external_body]
pub(crate) fn split_once<'a>(s: &'a str, d: &str) -> (r: Option<(&'a str, &'a str)>)
    ensures
        match r {
            Some((a, b)) => is_first_at(s@, d@, a@.len() as int) && a@ == s@.subrange(
                0,
                a@.len() as int,
            ) && b@ == s@.subrange((a@.len() + d@.len()) as int, s@.len() as int),
            None => !occurs(s@, d@),
        },
{
    s.split_once(d)
}

/// Relies on `str::contains`: whether `p` occurs in `s`.
#[verifier::external_body]
pub(crate) fn contains(s: &str, p: &str) -> (r: bool)
    ensures
        r == occurs(s@, p@),
{
    s.contains(p)
}

} // verus!
