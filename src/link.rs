//! Recognising links to GitHub repositories.
use vstd::prelude::*;
use vstd::string::StrSliceExecFns;

use crate::pattern::chars_of;

verus! {

/// `s` begins with `p`.
pub open spec fn starts_with(s: Seq<char>, p: Seq<char>) -> bool {
    p.len() <= s.len() && s.take(p.len() as int) == p
}

/// The link without a leading `https://` or `http://`.
pub open spec fn without_scheme(s: Seq<char>) -> Seq<char> {
    if starts_with(s, "https://"@) {
        s.skip(8)
    } else if starts_with(s, "http://"@) {
        s.skip(7)
    } else {
        s
    }
}

/// What follows the host `github.com` or `github`, if the text begins with one.
pub open spec fn after_host(t: Seq<char>) -> Option<Seq<char>> {
    if starts_with(t, "github.com"@) {
        Some(t.skip(10))
    } else if starts_with(t, "github"@) {
        Some(t.skip(6))
    } else {
        None
    }
}

/// `x` is `USER/REPO`: exactly one `/`, with text on both sides.
pub open spec fn is_user_repo(x: Seq<char>) -> bool {
    exists|k: int|
        0 < k < x.len() - 1 && x[k] == '/' && forall|j: int|
            0 <= j < x.len() && j != k ==> x[j] != '/'
}

/// The `USER/REPO` part of a GitHub repository link: an optional
/// `https://` or `http://`, the host `github` or `github.com`, a `:` or
/// `/`, then `USER/REPO` to the end.
pub open spec fn github_repo_of(s: Seq<char>) -> Option<Seq<char>> {
    match after_host(without_scheme(s)) {
        Some(u) => if u.len() >= 1 && (u[0] == ':' || u[0] == '/') && is_user_repo(u.skip(1)) {
            Some(u.skip(1))
        } else {
            None
        },
        None => None,
    }
}

/// Whether the characters of `c` from `at` on begin with `p`.
fn has_prefix_at(c: &Vec<char>, at: usize, p: &str) -> (r: bool)
    requires
        at <= c@.len(),
    ensures
        r == starts_with(c@.skip(at as int), p@),
{
    let pc = chars_of(p);
    if pc.len() > c.len() - at {
        return false;
    }
    let mut i: usize = 0;
    while i < pc.len()
        invariant
            pc@ == p@,
            at + pc.len() <= c.len(),
            i <= pc.len(),
            forall|j: int| 0 <= j < i ==> c@[at + j] == pc@[j],
        decreases pc.len() - i,
    {
        if c[at + i] != pc[i] {
            assert(c@.skip(at as int).take(pc@.len() as int)[i as int] == c@[at + i]);
            return false;
        }
        i += 1;
    }
    assert(c@.skip(at as int).take(pc@.len() as int) =~= pc@);
    true
}

/// The position of the one `/` of `USER/REPO` in `c` from `from` on.
fn single_slash(c: &Vec<char>, from: usize) -> (r: Option<usize>)
    requires
        from <= c@.len(),
    ensures
        match r {
            Some(k) => from < k < c@.len() - 1 && is_user_repo(c@.skip(from as int)),
            None => !is_user_repo(c@.skip(from as int)),
        },
{
    let ghost s = c@;
    let ghost x = s.skip(from as int);
    let n = c.len();
    let mut slash: usize = n;
    let mut count: usize = 0;
    let mut i: usize = from;
    while i < n
        invariant
            s == c@,
            n == s.len(),
            from <= i <= n,
            count <= i - from,
            count == 0 ==> slash == n && forall|j: int| from <= j < i ==> s[j] != '/',
            count == 1 ==> from <= slash < i && s[slash as int] == '/' && forall|j: int|
                from <= j < i && j != slash ==> s[j] != '/',
            count >= 2 ==> exists|a: int, b: int| from <= a < b < i && s[a] == '/' && s[b] == '/',
        decreases n - i,
    {
        if c[i] == '/' {
            if count == 0 {
                slash = i;
            }
            count += 1;
        }
        i += 1;
    }
    if count != 1 || slash == from || slash + 1 == n {
        proof {
            if is_user_repo(x) {
                let k = choose|k: int|
                    0 < k < x.len() - 1 && x[k] == '/' && forall|j: int|
                        0 <= j < x.len() && j != k ==> x[j] != '/';
                assert(x[k] == s[from + k]);
                if count >= 2 {
                    let (a, b) = choose|a: int, b: int|
                        from <= a < b < n && s[a] == '/' && s[b] == '/';
                    assert(x[a - from] == s[a]);
                    assert(x[b - from] == s[b]);
                } else if count == 1 {
                    assert(x[slash - from] == s[slash as int]);
                }
            }
        }
        return None;
    }
    proof {
        let k = slash - from;
        assert(x[k] == s[slash as int]);
        assert forall|j: int| 0 <= j < x.len() && j != k implies x[j] != '/' by {
            assert(x[j] == s[from + j]);
        }
    }
    Some(slash)
}

/// The `USER/REPO` part of a GitHub repository link, or `None` when the
/// text is not one.
pub fn github_user_repo(link: &str) -> (r: Option<String>)
    ensures
        match r {
            Some(x) => github_repo_of(link@) == Some(x@),
            None => github_repo_of(link@) is None,
        },
{
    proof {
        reveal_strlit("https://");
        reveal_strlit("http://");
        reveal_strlit("github.com");
        reveal_strlit("github");
    }
    let c = chars_of(link);
    let ghost s = c@;
    let start: usize = if has_prefix_at(&c, 0, "https://") {
        8
    } else if has_prefix_at(&c, 0, "http://") {
        7
    } else {
        0
    };
    proof {
        assert(s.skip(0) =~= s);
        assert(without_scheme(s) == s.skip(start as int));
    }
    let host_end: usize = if has_prefix_at(&c, start, "github.com") {
        start + 10
    } else if has_prefix_at(&c, start, "github") {
        start + 6
    } else {
        return None;
    };
    proof {
        assert(s.skip(start as int).skip((host_end - start) as int) =~= s.skip(host_end as int));
    }
    let n = c.len();
    if host_end >= n || (c[host_end] != ':' && c[host_end] != '/') {
        return None;
    }
    let from = host_end + 1;
    proof {
        assert(s.skip(host_end as int).skip(1) =~= s.skip(from as int));
    }
    match single_slash(&c, from) {
        None => None,
        Some(_) => {
            let r = link.substring_char(from, n);
            proof {
                assert(r@ =~= s.skip(from as int));
            }
            Some(r.to_string())
        },
    }
}

/// The index of the first stable release, given whether each release is a
/// prerelease.
pub fn first_stable_release(prerelease: &Vec<bool>) -> (r: Option<usize>)
    ensures
        match r {
            Some(i) => i < prerelease@.len() && !prerelease@[i as int] && forall|j: int|
                0 <= j < i ==> prerelease@[j],
            None => forall|j: int| 0 <= j < prerelease@.len() ==> prerelease@[j],
        },
{
    let mut i: usize = 0;
    while i < prerelease.len()
        invariant
            i <= prerelease@.len(),
            forall|j: int| 0 <= j < i ==> prerelease@[j],
        decreases prerelease.len() - i,
    {
        if !prerelease[i] {
            return Some(i);
        }
        i += 1;
    }
    None
}

/// The asset taken without asking: the first one, when it is the only one
/// or when the user agreed beforehand; `None` when the user must choose.
pub fn asset_without_asking(assets: usize, yes: bool) -> (r: Option<usize>)
    ensures
        r == if assets > 0 && (assets == 1 || yes) {
            Some(0usize)
        } else {
            None
        },
{
    if assets > 0 && (assets == 1 || yes) {
        Some(0)
    } else {
        None
    }
}

} // verus!
