//! Evaluation of query filters over package rows, and pagination.
use vstd::prelude::*;

use crate::models::{FilterCondition, LogicalOp, PaginatedResponse, QueryFilter, SortDirection};
use crate::pattern::{compare, like, like_match, lower_of, lowercase, text_order};
use crate::store::{PackageRow, PackageRepository, RowView};

verus! {

/// A query that cannot be run on the store.
#[derive(Debug, Clone, Copy, PartialEq, Eq, Structural)]
pub enum QueryError {
    /// A filter names a field that package rows do not have.
    UnknownField,
}

/// The text columns of a package row that filters can name.
#[derive(Debug, Clone, Copy, PartialEq, Eq, Structural)]
pub enum Field {
    RepoName,
    PkgId,
    PkgName,
    PkgFamily,
    Version,
    Description,
    DownloadUrl,
}

/// The column that a field name denotes.
pub open spec fn field_named(f: Seq<char>) -> Option<Field> {
    if f == "repo_name"@ {
        Some(Field::RepoName)
    } else if f == "pkg_id"@ {
        Some(Field::PkgId)
    } else if f == "pkg_name"@ {
        Some(Field::PkgName)
    } else if f == "pkg_family"@ {
        Some(Field::PkgFamily)
    } else if f == "version"@ {
        Some(Field::Version)
    } else if f == "description"@ {
        Some(Field::Description)
    } else if f == "download_url"@ {
        Some(Field::DownloadUrl)
    } else {
        None
    }
}

/// The value of a column in a row; `None` is a null.
pub open spec fn value_of(r: RowView, f: Field) -> Option<Seq<char>> {
    match f {
        Field::RepoName => Some(r.repo_name),
        Field::PkgId => Some(r.pkg_id),
        Field::PkgName => Some(r.pkg_name),
        Field::PkgFamily => r.details.pkg_family,
        Field::Version => Some(r.version),
        Field::Description => r.details.description,
        Field::DownloadUrl => Some(r.details.download_url),
    }
}

/// A value is one of the listed strings.
pub open spec fn listed(xs: Seq<String>, s: Seq<char>) -> bool {
    exists|i: int| 0 <= i < xs.len() && xs[i]@ == s
}

/// A condition holds of a value. A null satisfies only `IsNull`, an empty
/// `NotIn` and the absent condition; `In` with no strings holds of nothing
/// and `NotIn` with no strings of everything. Text is ordered by its bytes.
pub open spec fn holds(c: FilterCondition, v: Option<Seq<char>>) -> bool {
    match c {
        FilterCondition::IsNull => v is None,
        FilterCondition::IsNotNull => v is Some,
        FilterCondition::NoConstraint => true,
        FilterCondition::NotIn(xs) => xs@.len() == 0 || (v matches Some(s) && !listed(xs@, s)),
        _ => v matches Some(s) && match c {
            FilterCondition::Eq(x) => s == x@,
            FilterCondition::Ne(x) => s != x@,
            FilterCondition::Gt(x) => text_order(s, x@) == core::cmp::Ordering::Greater,
            FilterCondition::Gte(x) => text_order(s, x@) != core::cmp::Ordering::Less,
            FilterCondition::Lt(x) => text_order(s, x@) == core::cmp::Ordering::Less,
            FilterCondition::Lte(x) => text_order(s, x@) != core::cmp::Ordering::Greater,
            FilterCondition::Like(x) => like(s, x@),
            FilterCondition::ILike(x) => like(lower_of(s), lower_of(x@)),
            FilterCondition::In(xs) => listed(xs@, s),
            FilterCondition::Between(lo, hi) => text_order(s, lo@) != core::cmp::Ordering::Less
                && text_order(s, hi@) != core::cmp::Ordering::Greater,
            _ => true,
        },
    }
}

/// Every filter names a known field.
pub open spec fn fields_known(fs: Seq<QueryFilter>) -> bool {
    forall|i: int| 0 <= i < fs.len() ==> (#[trigger] field_named(fs[i].field@)) is Some
}

/// The clauses of the filters folded from left to right: each clause after
/// the first joins what came before with its filter's operator (`And` when
/// none is given). Filters without a condition add no clause. `None` when
/// no filter adds one.
pub open spec fn combined(fs: Seq<QueryFilter>, r: RowView) -> Option<bool>
    decreases fs.len(),
{
    if fs.len() == 0 {
        None
    } else {
        let prev = combined(fs.drop_last(), r);
        let f = fs.last();
        if f.condition is NoConstraint {
            prev
        } else {
            let v = holds(f.condition, value_of(r, field_named(f.field@)->Some_0));
            match prev {
                None => Some(v),
                Some(b) => Some(
                    match f.logical_op {
                        Some(LogicalOp::Or) => b || v,
                        _ => b && v,
                    },
                ),
            }
        }
    }
}

/// A row satisfies the filters.
pub open spec fn selects(fs: Seq<QueryFilter>, r: RowView) -> bool {
    combined(fs, r) != Some(false)
}

/// The rows that the filters select, in their order.
pub open spec fn selected(rows: Seq<RowView>, fs: Seq<QueryFilter>) -> Seq<RowView>
    decreases rows.len(),
{
    if rows.len() == 0 {
        Seq::empty()
    } else {
        let prev = selected(rows.drop_last(), fs);
        if selects(fs, rows.last()) {
            prev.push(rows.last())
        } else {
            prev
        }
    }
}

/// The page of `s` that `page` (counted from 1) and `limit` pick; all of
/// `s` when there is no limit.
pub open spec fn window<T>(s: Seq<T>, page: u32, limit: Option<u32>) -> Seq<T> {
    match limit {
        None => s,
        Some(l) => {
            let start = (page - 1) * l;
            if start >= s.len() {
                Seq::empty()
            } else if start + l >= s.len() {
                s.subrange(start, s.len() as int)
            } else {
                s.subrange(start, start + l)
            }
        },
    }
}

/// Whether rows follow the page: never without a limit.
pub open spec fn more_after(total: int, page: u32, limit: Option<u32>) -> bool {
    match limit {
        None => false,
        Some(l) => page * l < total,
    }
}

/// The column that a field name denotes.
fn field_of(name: &String) -> (r: Option<Field>)
    ensures
        r == field_named(name@),
{
    if *name == "repo_name".to_string() {
        Some(Field::RepoName)
    } else if *name == "pkg_id".to_string() {
        Some(Field::PkgId)
    } else if *name == "pkg_name".to_string() {
        Some(Field::PkgName)
    } else if *name == "pkg_family".to_string() {
        Some(Field::PkgFamily)
    } else if *name == "version".to_string() {
        Some(Field::Version)
    } else if *name == "description".to_string() {
        Some(Field::Description)
    } else if *name == "download_url".to_string() {
        Some(Field::DownloadUrl)
    } else {
        None
    }
}

/// The value of a column in a row.
fn value_in(row: &PackageRow, f: Field) -> (r: Option<&String>)
    ensures
        match r {
            Some(s) => value_of(row@, f) == Some(s@),
            None => value_of(row@, f) is None,
        },
{
    match f {
        Field::RepoName => Some(&row.repo_name),
        Field::PkgId => Some(&row.pkg_id),
        Field::PkgName => Some(&row.pkg_name),
        Field::PkgFamily => row.details.pkg_family.as_ref(),
        Field::Version => Some(&row.version),
        Field::Description => row.details.description.as_ref(),
        Field::DownloadUrl => Some(&row.details.download_url),
    }
}

/// Whether `s` is one of the listed strings.
fn is_listed(xs: &Vec<String>, s: &String) -> (r: bool)
    ensures
        r == listed(xs@, s@),
{
    let mut i: usize = 0;
    while i < xs.len()
        invariant
            i <= xs.len(),
            forall|k: int| 0 <= k < i ==> xs@[k]@ != s@,
        decreases xs.len() - i,
    {
        if xs[i] == *s {
            return true;
        }
        i += 1;
    }
    false
}

/// Whether a condition holds of a value.
pub fn condition_holds(c: &FilterCondition, v: Option<&String>) -> (r: bool)
    ensures
        r == holds(
            *c,
            match v {
                Some(s) => Some(s@),
                None => None,
            },
        ),
{
    match c {
        FilterCondition::IsNull => v.is_none(),
        FilterCondition::IsNotNull => v.is_some(),
        FilterCondition::NoConstraint => true,
        FilterCondition::NotIn(xs) => match v {
            _ if xs.len() == 0 => true,
            Some(s) => !is_listed(xs, s),
            None => false,
        },
        _ => match v {
            None => false,
            Some(s) => match c {
                FilterCondition::Eq(x) => *s == *x,
                FilterCondition::Ne(x) => !(*s == *x),
                FilterCondition::Gt(x) => matches!(compare(s.as_str(), x.as_str()), core::cmp::Ordering::Greater),
                FilterCondition::Gte(x) => !matches!(compare(s.as_str(), x.as_str()), core::cmp::Ordering::Less),
                FilterCondition::Lt(x) => matches!(compare(s.as_str(), x.as_str()), core::cmp::Ordering::Less),
                FilterCondition::Lte(x) => !matches!(compare(s.as_str(), x.as_str()), core::cmp::Ordering::Greater),
                FilterCondition::Like(x) => like_match(s.as_str(), x.as_str()),
                FilterCondition::ILike(x) => {
                    let ls = lowercase(s.as_str());
                    let lx = lowercase(x.as_str());
                    like_match(ls.as_str(), lx.as_str())
                },
                FilterCondition::In(xs) => is_listed(xs, s),
                FilterCondition::Between(lo, hi) => !matches!(compare(s.as_str(), lo.as_str()), core::cmp::Ordering::Less) && !matches!(compare(s.as_str(), hi.as_str()), core::cmp::Ordering::Greater),
                _ => true,
            },
        },
    }
}

/// Whether every filter names a known field.
pub fn check_fields(filters: &Vec<QueryFilter>) -> (r: bool)
    ensures
        r == fields_known(filters@),
{
    let mut i: usize = 0;
    while i < filters.len()
        invariant
            i <= filters.len(),
            forall|k: int| 0 <= k < i ==> (#[trigger] field_named(filters@[k].field@)) is Some,
        decreases filters.len() - i,
    {
        if field_of(&filters[i].field).is_none() {
            return false;
        }
        i += 1;
    }
    true
}

/// Whether a row satisfies filters whose fields are all known.
pub fn row_selected(filters: &Vec<QueryFilter>, row: &PackageRow) -> (r: bool)
    requires
        fields_known(filters@),
    ensures
        r == selects(filters@, row@),
{
    let mut acc: Option<bool> = None;
    let mut i: usize = 0;
    while i < filters.len()
        invariant
            i <= filters.len(),
            fields_known(filters@),
            acc == combined(filters@.take(i as int), row@),
        decreases filters.len() - i,
    {
        let f = &filters[i];
        proof {
            assert(filters@.take(i + 1).drop_last() =~= filters@.take(i as int));
            assert(filters@.take(i + 1).last() == filters@[i as int]);
            assert(field_named(filters@[i as int].field@) is Some);
        }
        match f.condition {
            FilterCondition::NoConstraint => {},
            _ => {
                let field = match field_of(&f.field) {
                    Some(field) => field,
                    None => {
                        return false;
                    },
                };
                let v = condition_holds(&f.condition, value_in(row, field));
                acc = match acc {
                    None => Some(v),
                    Some(b) => Some(
                        match f.logical_op {
                            Some(LogicalOp::Or) => b || v,
                            _ => b && v,
                        },
                    ),
                };
            },
        }
        i += 1;
    }
    assert(filters@.take(i as int) =~= filters@);
    match acc {
        Some(false) => false,
        _ => true,
    }
}

/// The page of `matches` that `page` and `limit` pick, with the total count.
pub fn paginate<T>(matches: Vec<T>, page: u32, limit: Option<u32>) -> (r: PaginatedResponse<T>)
    requires
        limit is Some ==> page >= 1,
    ensures
        r.items@ == window(matches@, page, limit),
        r.page == page,
        r.limit == limit,
        r.total == matches@.len(),
        r.has_next == more_after(matches@.len() as int, page, limit),
{
    let total = matches.len() as u64;
    match limit {
        None => PaginatedResponse { items: matches, page, limit, total, has_next: false },
        Some(l) => {
            let ghost all = matches@;
            assert((page - 1) as u64 * l as u64 <= 0xffff_ffffu64 * 0xffff_ffffu64) by (nonlinear_arith)
                requires
                    page >= 1,
            ;
            assert(page as u64 * l as u64 <= 0xffff_ffffu64 * 0xffff_ffffu64) by (nonlinear_arith);
            let start: u64 = (page as u64 - 1) * (l as u64);
            let has_next = (page as u64) * (l as u64) < total;
            let mut items = matches;
            if start >= total {
                items = Vec::new();
            } else {
                let mut rest = items.split_off(start as usize);
                rest.truncate(l as usize);
                items = rest;
            }
            assert(items@ =~= window(all, page, limit));
            PaginatedResponse { items, page, limit, total, has_next }
        },
    }
}


/// Under direction `dir`, value `a` comes strictly before value `b`: in
/// ascending order nulls come first and text goes by its bytes; descending
/// order is the reverse.
pub open spec fn comes_before(a: Option<Seq<char>>, b: Option<Seq<char>>, dir: SortDirection) -> bool {
    match dir {
        SortDirection::Asc => match (a, b) {
            (None, Some(_)) => true,
            (Some(x), Some(y)) => text_order(x, y) == core::cmp::Ordering::Less,
            _ => false,
        },
        SortDirection::Desc => match (b, a) {
            (None, Some(_)) => true,
            (Some(x), Some(y)) => text_order(x, y) == core::cmp::Ordering::Less,
            _ => false,
        },
    }
}

/// Where a row goes in a sorted list: before the first row that it comes
/// before, so that rows with equal values keep their order.
pub open spec fn insert_pos(s: Seq<RowView>, r: RowView, f: Field, dir: SortDirection) -> nat
    decreases s.len(),
{
    if s.len() == 0 {
        0
    } else if comes_before(value_of(r, f), value_of(s[0], f), dir) {
        0
    } else {
        1 + insert_pos(s.drop_first(), r, f, dir)
    }
}

/// The rows stably sorted by the value of column `f`.
pub open spec fn sort_rows(rows: Seq<RowView>, f: Field, dir: SortDirection) -> Seq<RowView>
    decreases rows.len(),
{
    if rows.len() == 0 {
        Seq::empty()
    } else {
        let s = sort_rows(rows.drop_last(), f, dir);
        s.insert(insert_pos(s, rows.last(), f, dir) as int, rows.last())
    }
}

/// The position before the first row that `r` comes before is `insert_pos`.
proof fn lemma_insert_pos(s: Seq<RowView>, r: RowView, f: Field, dir: SortDirection, k: int)
    requires
        0 <= k <= s.len(),
        forall|j: int| 0 <= j < k ==> !comes_before(value_of(r, f), value_of(#[trigger] s[j], f), dir),
        k == s.len() || comes_before(value_of(r, f), value_of(s[k], f), dir),
    ensures
        insert_pos(s, r, f, dir) == k,
    decreases k,
{
    if k > 0 {
        assert(!comes_before(value_of(r, f), value_of(s[0], f), dir));
        assert forall|j: int| 0 <= j < k - 1 implies !comes_before(
            value_of(r, f),
            value_of(#[trigger] s.drop_first()[j], f),
            dir,
        ) by {
            assert(s.drop_first()[j] == s[j + 1]);
        }
        if k < s.len() {
            assert(s.drop_first()[k - 1] == s[k]);
        }
        lemma_insert_pos(s.drop_first(), r, f, dir, k - 1);
    }
}

/// Whether value `a` comes strictly before value `b` under `dir`.
fn value_before(a: Option<&String>, b: Option<&String>, dir: SortDirection) -> (r: bool)
    ensures
        r == comes_before(
            match a {
                Some(s) => Some(s@),
                None => None,
            },
            match b {
                Some(s) => Some(s@),
                None => None,
            },
            dir,
        ),
{
    let (x, y) = match dir {
        SortDirection::Asc => (a, b),
        SortDirection::Desc => (b, a),
    };
    match (x, y) {
        (None, Some(_)) => true,
        (Some(x), Some(y)) => matches!(compare(x.as_str(), y.as_str()), core::cmp::Ordering::Less),
        _ => false,
    }
}

/// Sorts rows stably by the value of column `f`.
pub fn sort_by_field(rows: Vec<PackageRow>, f: Field, dir: SortDirection) -> (r: Vec<PackageRow>)
    ensures
        r@.map_values(|p: PackageRow| p@) == sort_rows(rows@.map_values(|p: PackageRow| p@), f, dir),
{
    let ghost all = rows@.map_values(|p: PackageRow| p@);
    let mut sorted: Vec<PackageRow> = Vec::new();
    let mut rest = rows;
    let mut i: usize = 0;
    let n = rest.len();
    while i < n
        invariant
            n == all.len(),
            i <= n,
            rest@.map_values(|p: PackageRow| p@) == all,
            sorted@.map_values(|p: PackageRow| p@) == sort_rows(all.take(i as int), f, dir),
        decreases n - i,
    {
        let row = rest[i].duplicate();
        let ghost s = sorted@.map_values(|p: PackageRow| p@);
        let mut k: usize = 0;
        while k < sorted.len()
            invariant
                k <= sorted.len(),
                s == sorted@.map_values(|p: PackageRow| p@),
                forall|j: int| 0 <= j < k ==> !comes_before(value_of(row@, f), value_of(#[trigger] s[j], f), dir),
            ensures
                k <= sorted.len(),
                s == sorted@.map_values(|p: PackageRow| p@),
                forall|j: int| 0 <= j < k ==> !comes_before(value_of(row@, f), value_of(#[trigger] s[j], f), dir),
                k == s.len() || comes_before(value_of(row@, f), value_of(s[k as int], f), dir),
            decreases sorted.len() - k,
        {
            assert(s[k as int] == sorted@[k as int]@);
            if value_before(value_in(&row, f), value_in(&sorted[k], f), dir) {
                break;
            }
            k += 1;
        }
        proof {
            lemma_insert_pos(s, row@, f, dir, k as int);
            assert(all.take(i + 1).drop_last() =~= all.take(i as int));
            assert(all.take(i + 1).last() == rest@[i as int]@);
        }
        let ghost rv = row@;
        sorted.insert(k, row);
        assert(sorted@.map_values(|p: PackageRow| p@) =~= s.insert(k as int, rv));
        i += 1;
    }
    assert(all.take(i as int) =~= all);
    sorted
}

/// The filters and the sort column name known fields.
pub open spec fn query_valid(fs: Seq<QueryFilter>, sort: Option<(String, SortDirection)>) -> bool {
    fields_known(fs) && match sort {
        Some((n, _)) => field_named(n@) is Some,
        None => true,
    }
}

/// The selected rows, sorted when a sort is asked for.
pub open spec fn ordered(
    rows: Seq<RowView>,
    fs: Seq<QueryFilter>,
    sort: Option<(String, SortDirection)>,
) -> Seq<RowView> {
    match sort {
        Some((n, d)) => sort_rows(selected(rows, fs), field_named(n@)->Some_0, d),
        None => selected(rows, fs),
    }
}

impl PackageRepository {
    /// Runs a query: the stored rows that the filters select, in insertion
    /// order or sorted by the given column, cut to the requested page. A
    /// filter or a sort on an unknown field gives `UnknownField`.
    pub fn query(
        &self,
        filters: &Vec<QueryFilter>,
        sort: &Option<(String, SortDirection)>,
        page: u32,
        limit: Option<u32>,
    ) -> (r: Result<PaginatedResponse<PackageRow>, QueryError>)
        requires
            limit is Some ==> page >= 1,
        ensures
            match r {
                Ok(resp) => {
                    &&& query_valid(filters@, *sort)
                    &&& resp.items@.map_values(|p: PackageRow| p@) == window(
                        ordered(self@.packages, filters@, *sort),
                        page,
                        limit,
                    )
                    &&& resp.page == page
                    &&& resp.limit == limit
                    &&& resp.total == selected(self@.packages, filters@).len()
                    &&& resp.has_next == more_after(
                        selected(self@.packages, filters@).len() as int,
                        page,
                        limit,
                    )
                },
                Err(e) => !query_valid(filters@, *sort) && e == QueryError::UnknownField,
            },
    {
        if !check_fields(filters) {
            return Err(QueryError::UnknownField);
        }
        let sort_field = match sort {
            Some((name, dir)) => match field_of(name) {
                Some(f) => Some((f, *dir)),
                None => {
                    return Err(QueryError::UnknownField);
                },
            },
            None => None,
        };
        let rows = self.packages();
        let ghost all = self@.packages;
        let mut found: Vec<PackageRow> = Vec::new();
        let mut i: usize = 0;
        while i < rows.len()
            invariant
                i <= rows.len(),
                fields_known(filters@),
                rows@.map_values(|p: PackageRow| p@) == all,
                found@.map_values(|p: PackageRow| p@) == selected(all.take(i as int), filters@),
            decreases rows.len() - i,
        {
            proof {
                assert(all.take(i + 1).drop_last() =~= all.take(i as int));
                assert(all.take(i + 1).last() == rows@[i as int]@);
            }
            let ghost before = found@;
            if row_selected(filters, &rows[i]) {
                found.push(rows[i].duplicate());
                assert(found@.map_values(|p: PackageRow| p@) =~= before.map_values(
                    |p: PackageRow| p@,
                ).push(rows@[i as int]@));
            }
            i += 1;
        }
        assert(all.take(i as int) =~= all);
        let ghost count = found@.len();
        let found = match sort_field {
            Some((f, dir)) => sort_by_field(found, f, dir),
            None => found,
        };
        proof {
            lemma_sort_len(selected(all, filters@), *sort);
        }
        let ghost fv = found@;
        let resp = paginate(found, page, limit);
        proof {
            assert(resp.items@.map_values(|p: PackageRow| p@) =~= window(
                fv.map_values(|p: PackageRow| p@),
                page,
                limit,
            ));
        }
        Ok(resp)
    }
}

/// Sorting keeps the number of rows.
proof fn lemma_sort_rows_len(rows: Seq<RowView>, f: Field, dir: SortDirection)
    ensures
        sort_rows(rows, f, dir).len() == rows.len(),
    decreases rows.len(),
{
    if rows.len() > 0 {
        lemma_sort_rows_len(rows.drop_last(), f, dir);
        lemma_insert_pos_bound(sort_rows(rows.drop_last(), f, dir), rows.last(), f, dir);
    }
}

/// A row goes at most to the end of the list.
proof fn lemma_insert_pos_bound(s: Seq<RowView>, r: RowView, f: Field, dir: SortDirection)
    ensures
        insert_pos(s, r, f, dir) <= s.len(),
    decreases s.len(),
{
    if s.len() > 0 {
        lemma_insert_pos_bound(s.drop_first(), r, f, dir);
    }
}

/// The requested sort keeps the number of rows.
proof fn lemma_sort_len(rows: Seq<RowView>, sort: Option<(String, SortDirection)>)
    requires
        sort matches Some((n, _)) ==> field_named(n@) is Some,
    ensures
        match sort {
            Some((n, d)) => sort_rows(rows, field_named(n@)->Some_0, d).len() == rows.len(),
            None => true,
        },
{
    match sort {
        Some((n, d)) => lemma_sort_rows_len(rows, field_named(n@)->Some_0, d),
        None => {},
    }
}

/// An empty `In` list holds of no value, an empty `NotIn` list of every
/// value, null or not.
pub proof fn lemma_empty_lists(xs: Vec<String>, v: Option<Seq<char>>)
    requires
        xs@.len() == 0,
    ensures
        !holds(FilterCondition::In(xs), v),
        holds(FilterCondition::NotIn(xs), v),
{
}

} // verus!
