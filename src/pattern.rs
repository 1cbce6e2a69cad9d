//! Byte order of strings and `LIKE` patterns, as the store compares text.
use vstd::prelude::*;
use vstd::string::StrSliceExecFns;
use vstd::utf8::encode_utf8;

verus! {

/// Lexicographic order of two byte strings.
pub open spec fn byte_order(a: Seq<u8>, b: Seq<u8>) -> core::cmp::Ordering
    decreases a.len(),
{
    if a.len() == 0 && b.len() == 0 {
        core::cmp::Ordering::Equal
    } else if a.len() == 0 {
        core::cmp::Ordering::Less
    } else if b.len() == 0 {
        core::cmp::Ordering::Greater
    } else if a[0] < b[0] {
        core::cmp::Ordering::Less
    } else if a[0] > b[0] {
        core::cmp::Ordering::Greater
    } else {
        byte_order(a.drop_first(), b.drop_first())
    }
}

/// The order of two texts: by their UTF-8 bytes.
pub open spec fn text_order(a: Seq<char>, b: Seq<char>) -> core::cmp::Ordering {
    byte_order(encode_utf8(a), encode_utf8(b))
}

/// Relies on `<str as Ord>::cmp`: strings are ordered lexicographically by
/// their bytes.
#[verifier::external_body]
pub(crate) fn compare(a: &str, b: &str) -> (r: core::cmp::Ordering)
    ensures
        r == text_order(a@, b@),
{
    a.cmp(b)
}

/// The lowercase form of a text, as `str::to_lowercase` gives it.
pub uninterp spec fn lower_of(s: Seq<char>) -> Seq<char>;

/// Relies on `str::to_lowercase`: the result depends on the characters alone.
#[verifier::external_body]
pub(crate) fn lowercase(s: &str) -> (r: String)
    ensures
        r@ == lower_of(s@),
{
    s.to_lowercase()
}

/// `t` matches the pattern `p`, where `%` stands for any run of characters
/// and `_` for any one character; every other character stands for itself.
pub open spec fn like(t: Seq<char>, p: Seq<char>) -> bool
    decreases p.len(),
{
    if p.len() == 0 {
        t.len() == 0
    } else if p.last() == '%' {
        exists|k: int| 0 <= k <= t.len() && like(t.take(k), p.drop_last())
    } else if t.len() == 0 {
        false
    } else if p.last() == '_' {
        like(t.drop_last(), p.drop_last())
    } else {
        t.last() == p.last() && like(t.drop_last(), p.drop_last())
    }
}

/// The characters of a string.
pub fn chars_of(s: &str) -> (r: Vec<char>)
    ensures
        r@ == s@,
{
    let n = s.unicode_len();
    let mut r: Vec<char> = Vec::new();
    let mut i: usize = 0;
    while i < n
        invariant
            n == s@.len(),
            i <= n,
            r@ == s@.take(i as int),
        decreases n - i,
    {
        r.push(s.get_char(i));
        assert(r@ =~= s@.take(i + 1));
        i += 1;
    }
    assert(s@.take(i as int) =~= s@);
    r
}

/// Whether `text` matches the pattern `pat` (see `like`).
pub fn like_match(text: &str, pat: &str) -> (r: bool)
    ensures
        r == like(text@, pat@),
{
    let t = chars_of(text);
    let p = chars_of(pat);
    let n = t.len();
    let ghost ts = t@;
    let ghost ps = p@;
    // reach[i]: the first i characters of the text match the pattern read so far.
    let mut reach: Vec<bool> = Vec::new();
    reach.push(true);
    proof {
        assert(ps.take(0) =~= Seq::<char>::empty());
        assert(ts.take(0) =~= Seq::<char>::empty());
    }
    let mut i: usize = 0;
    while i < n
        invariant
            n == ts.len(),
            i <= n,
            reach.len() == i + 1,
            ps.take(0) == Seq::<char>::empty(),
            forall|k: int| 0 <= k <= i ==> reach[k] == like(ts.take(k), ps.take(0)),
        decreases n - i,
    {
        reach.push(false);
        i += 1;
    }
    let mut j: usize = 0;
    while j < p.len()
        invariant
            n == ts.len(),
            ts == t@,
            ps == p@,
            j <= ps.len(),
            reach.len() == n + 1,
            forall|k: int| 0 <= k <= n ==> reach[k] == like(ts.take(k), ps.take(j as int)),
        decreases ps.len() - j,
    {
        let c = p[j];
        let mut next: Vec<bool> = Vec::new();
        let mut seen = false;
        let mut i: usize = 0;
        let ghost pj = ps.take(j + 1);
        proof {
            assert(pj.drop_last() =~= ps.take(j as int));
            assert(pj.last() == c);
        }
        loop
            invariant_except_break
                next.len() == i,
                seen == exists|k: int| 0 <= k < i && like(ts.take(k), ps.take(j as int)),
                forall|k: int| 0 <= k < i ==> next[k] == like(ts.take(k), pj),
            invariant
                n == ts.len(),
                ts == t@,
                ps == p@,
                j < ps.len(),
                reach.len() == n + 1,
                forall|k: int| 0 <= k <= n ==> reach[k] == like(ts.take(k), ps.take(j as int)),
                pj.drop_last() == ps.take(j as int),
                pj.len() > 0,
                pj.last() == c,
                i <= n,
            ensures
                next.len() == n + 1,
                forall|k: int| 0 <= k <= n ==> next[k] == like(ts.take(k), pj),
            decreases n - i,
        {
            let ghost tk = ts.take(i as int);
            proof {
                assert forall|k: int| 0 <= k <= i implies tk.take(k) == ts.take(k) by {
                    assert(tk.take(k) =~= ts.take(k));
                }
                if i > 0 {
                    assert(tk.drop_last() =~= ts.take(i - 1));
                    assert(tk.last() == ts[i - 1]);
                }
            }
            let v = if c == '%' {
                seen || reach[i]
            } else if i == 0 {
                false
            } else if c == '_' {
                reach[i - 1]
            } else {
                reach[i - 1] && t[i - 1] == c
            };
            proof {
                if c == '%' {
                    if v {
                        if reach[i as int] {
                            assert(like(tk.take(i as int), pj.drop_last()));
                        } else {
                            let k = choose|k: int| 0 <= k < i && like(ts.take(k), ps.take(j as int));
                            assert(like(tk.take(k), pj.drop_last()));
                        }
                    } else {
                        assert forall|k: int| 0 <= k <= tk.len() implies !like(tk.take(k), pj.drop_last()) by {
                            if k < i {
                            } else {
                                assert(tk.take(k) == ts.take(i as int));
                            }
                        }
                    }
                }
            }
            next.push(v);
            seen = seen || reach[i];
            if i == n {
                break;
            }
            i += 1;
        }
        reach = next;
        proof {
            assert(pj == ps.take(j + 1));
        }
        j += 1;
    }
    proof {
        assert(ts.take(n as int) =~= ts);
        assert(ps.take(j as int) =~= ps);
    }
    reach[n]
}

} // verus!
