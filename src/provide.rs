//! Which provide declarations a package may make about itself.
use vstd::prelude::*;

use crate::models::{parse_provide, PackageProvide, ProvideStrategy};
use crate::text::occurs;

verus! {

/// The string holds one of the delimiters `==`, `=>` or `:`.
pub open spec fn has_delimiter(p: Seq<char>) -> bool {
    occurs(p, seq!['=', '=']) || occurs(p, seq!['=', '>']) || occurs(p, seq![':'])
}

/// A provide string may be kept for package `owner`: it is the owner's name
/// itself, or the part before its delimiter is.
pub open spec fn attributable(p: Seq<char>, owner: Seq<char>) -> bool {
    p == owner || (has_delimiter(p) && parse_provide(p).name == owner)
}

/// The provide strings kept for `owner`, in their order.
pub open spec fn kept_strings(ps: Seq<Seq<char>>, owner: Seq<char>) -> Seq<Seq<char>>
    decreases ps.len(),
{
    if ps.len() == 0 {
        Seq::empty()
    } else {
        let rest = kept_strings(ps.drop_last(), owner);
        if attributable(ps.last(), owner) {
            rest.push(ps.last())
        } else {
            rest
        }
    }
}

/// The views of a list of strings.
pub open spec fn string_views(v: Seq<String>) -> Seq<Seq<char>> {
    v.map_values(|s: String| s@)
}

/// Whether the provide string may be kept for the package named `owner`.
pub fn is_attributable(provide: &str, owner: &str) -> (r: bool)
    ensures
        r == attributable(provide@, owner@),
{
    let parsed = PackageProvide::from_string(provide);
    let whole = provide.to_string();
    let owner_name = owner.to_string();
    if whole == owner_name {
        true
    } else {
        parsed.strategy != ProvideStrategy::NoAlias && parsed.name == owner_name
    }
}

/// Keeps the provide strings that `owner` may declare, in their order.
pub fn retain_attributable(provides: &Vec<String>, owner: &str) -> (r: Vec<String>)
    ensures
        string_views(r@) == kept_strings(string_views(provides@), owner@),
{
    let mut r: Vec<String> = Vec::new();
    let mut i: usize = 0;
    while i < provides.len()
        invariant
            i <= provides.len(),
            string_views(r@) == kept_strings(string_views(provides@).take(i as int), owner@),
        decreases provides.len() - i,
    {
        let p = &provides[i];
        let ghost before = r@;
        proof {
            assert(string_views(provides@).take(i + 1).drop_last() =~= string_views(
                provides@,
            ).take(i as int));
        }
        if is_attributable(p.as_str(), owner) {
            r.push(p.clone());
            assert(string_views(r@) =~= string_views(before).push(p@));
        }
        i += 1;
    }
    assert(string_views(provides@).take(i as int) =~= string_views(provides@));
    r
}

} // verus!
