//! The filter model of the query engine and the provide records of packages.
use vstd::prelude::*;

use crate::text::{
    after_first, before_first, is_first_at, lemma_first_at, lemma_split_first, occurs,
    split_once,
};

verus! {

/// One constraint on a field of a package row.
#[derive(Debug, Clone)]
pub enum FilterCondition {
    Eq(String),
    Ne(String),
    Gt(String),
    Gte(String),
    Lt(String),
    Lte(String),
    Like(String),
    ILike(String),
    In(Vec<String>),
    NotIn(Vec<String>),
    Between(String, String),
    IsNull,
    IsNotNull,
    NoConstraint,
}

/// Order of a sorted query.
#[derive(Debug, Clone, Copy, PartialEq, Eq, Structural)]
pub enum SortDirection {
    Asc,
    Desc,
}

impl Default for SortDirection {
    fn default() -> (r: Self)
        ensures
            r == SortDirection::Asc,
    {
        SortDirection::Asc
    }
}

/// How a filter's clause joins the clause of the filter after it.
#[derive(Clone, Copy, Debug, PartialEq, Eq, Structural)]
pub enum LogicalOp {
    And,
    Or,
}

/// A field, the condition on it, and the operator to the next filter.
#[derive(Clone, Debug)]
pub struct QueryFilter {
    pub field: String,
    pub condition: FilterCondition,
    pub logical_op: Option<LogicalOp>,
}

/// One page of a query's result.
pub struct PaginatedResponse<T> {
    pub items: Vec<T>,
    pub page: u32,
    pub limit: Option<u32>,
    pub total: u64,
    pub has_next: bool,
}

/// What installing a provided name exposes afterwards.
#[derive(Debug, Clone, Copy, PartialEq, Eq, Structural)]
pub enum ProvideStrategy {
    KeepTargetOnly,
    KeepBoth,
    Alias,
    NoAlias,
}

impl Default for ProvideStrategy {
    fn default() -> (r: Self)
        ensures
            r == ProvideStrategy::NoAlias,
    {
        ProvideStrategy::NoAlias
    }
}

/// The delimiter that introduces a target under the given strategy.
pub open spec fn delimiter(s: ProvideStrategy) -> Seq<char> {
    match s {
        ProvideStrategy::KeepBoth => seq!['=', '='],
        ProvideStrategy::KeepTargetOnly => seq!['=', '>'],
        ProvideStrategy::Alias => seq![':'],
        ProvideStrategy::NoAlias => Seq::empty(),
    }
}

impl ProvideStrategy {
    /// The delimiter of this strategy: `==`, `=>`, `:`, or nothing.
    pub fn to_string(&self) -> (r: String)
        ensures
            r@ == delimiter(*self),
    {
        proof {
            reveal_strlit("==");
            reveal_strlit("=>");
            reveal_strlit(":");
            reveal_strlit("");
        }
        match self {
            ProvideStrategy::KeepTargetOnly => "=>".to_string(),
            ProvideStrategy::KeepBoth => "==".to_string(),
            ProvideStrategy::Alias => ":".to_string(),
            ProvideStrategy::NoAlias => "".to_string(),
        }
    }
}

/// The mathematical value of a provide record.
pub struct ProvideView {
    pub name: Seq<char>,
    pub target_name: Option<Seq<char>>,
    pub strategy: ProvideStrategy,
}

/// A declaration that package `name` provides `target_name`.
#[derive(Debug, Clone)]
pub struct PackageProvide {
    pub name: String,
    pub target_name: Option<String>,
    pub strategy: ProvideStrategy,
}

impl View for PackageProvide {
    type V = ProvideView;

    open spec fn view(&self) -> ProvideView {
        ProvideView {
            name: self.name@,
            target_name: match self.target_name {
                Some(t) => Some(t@),
                None => None,
            },
            strategy: self.strategy,
        }
    }
}

/// The record split off at the first `d`, with the given strategy.
pub open spec fn split_provide(s: Seq<char>, d: Seq<char>, st: ProvideStrategy) -> ProvideView {
    ProvideView { name: before_first(s, d), target_name: Some(after_first(s, d)), strategy: st }
}

/// The record that a provide string declares: `==` is looked for first, then
/// `=>`, then `:`; each splits at its first occurrence. A string with none of
/// them names the package alone.
pub open spec fn parse_provide(s: Seq<char>) -> ProvideView {
    if occurs(s, seq!['=', '=']) {
        split_provide(s, seq!['=', '='], ProvideStrategy::KeepBoth)
    } else if occurs(s, seq!['=', '>']) {
        split_provide(s, seq!['=', '>'], ProvideStrategy::KeepTargetOnly)
    } else if occurs(s, seq![':']) {
        split_provide(s, seq![':'], ProvideStrategy::Alias)
    } else {
        ProvideView { name: s, target_name: None, strategy: ProvideStrategy::NoAlias }
    }
}

/// The provide string that a record is written as.
pub open spec fn render_provide(p: ProvideView) -> Seq<char> {
    match p.target_name {
        Some(t) => p.name + delimiter(p.strategy) + t,
        None => p.name + delimiter(p.strategy),
    }
}

/// Writing a parsed provide string back gives the string itself.
pub proof fn lemma_provide_round_trip(s: Seq<char>)
    ensures
        render_provide(parse_provide(s)) == s,
{
    if occurs(s, seq!['=', '=']) {
        lemma_split_first(s, seq!['=', '=']);
    } else if occurs(s, seq!['=', '>']) {
        lemma_split_first(s, seq!['=', '>']);
    } else if occurs(s, seq![':']) {
        lemma_split_first(s, seq![':']);
    } else {
        assert(s + Seq::<char>::empty() =~= s);
    }
}

/// Turns a part found by `split_once` into the spec's part.
proof fn lemma_split_parts(s: Seq<char>, d: Seq<char>, a: Seq<char>, b: Seq<char>)
    requires
        is_first_at(s, d, a.len() as int),
        a == s.subrange(0, a.len() as int),
        b == s.subrange((a.len() + d.len()) as int, s.len() as int),
    ensures
        occurs(s, d),
        a == before_first(s, d),
        b == after_first(s, d),
{
    lemma_first_at(s, d, a.len() as int);
}

impl PackageProvide {
    /// Parses a provide string of the form `NAME`, `NAME==TARGET`,
    /// `NAME=>TARGET` or `NAME:TARGET`.
    pub fn from_string(provide: &str) -> (r: Self)
        ensures
            r@ == parse_provide(provide@),
    {
        proof {
            reveal_strlit("==");
            reveal_strlit("=>");
            reveal_strlit(":");
            assert("=="@ =~= seq!['=', '=']);
            assert("=>"@ =~= seq!['=', '>']);
            assert(":"@ =~= seq![':']);
        }
        if let Some((name, target_name)) = split_once(provide, "==") {
            proof {
                lemma_split_parts(provide@, "=="@, name@, target_name@);
            }
            PackageProvide {
                name: name.to_string(),
                target_name: Some(target_name.to_string()),
                strategy: ProvideStrategy::KeepBoth,
            }
        } else if let Some((name, target_name)) = split_once(provide, "=>") {
            proof {
                lemma_split_parts(provide@, "=>"@, name@, target_name@);
            }
            PackageProvide {
                name: name.to_string(),
                target_name: Some(target_name.to_string()),
                strategy: ProvideStrategy::KeepTargetOnly,
            }
        } else if let Some((name, target_name)) = split_once(provide, ":") {
            proof {
                lemma_split_parts(provide@, ":"@, name@, target_name@);
            }
            PackageProvide {
                name: name.to_string(),
                target_name: Some(target_name.to_string()),
                strategy: ProvideStrategy::Alias,
            }
        } else {
            PackageProvide {
                name: provide.to_string(),
                target_name: None,
                strategy: ProvideStrategy::NoAlias,
            }
        }
    }

    /// Writes the record back as a provide string.
    pub fn to_string(&self) -> (r: String)
        ensures
            r@ == render_provide(self@),
    {
        let mut r = self.name.clone();
        let d = self.strategy.to_string();
        r.append(d.as_str());
        match &self.target_name {
            Some(t) => {
                r.append(t.as_str());
            },
            None => {},
        }
        r
    }
}

} // verus!
