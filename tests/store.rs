use soar_core::models::{FilterCondition, LogicalOp, QueryFilter, SortDirection};
use soar_core::query::QueryError;
use soar_core::store::{vec_string, Maintainer, PackageDetails, PackageRepository, RemotePackage, Repository};

fn package(id: &str, name: &str, version: &str) -> RemotePackage {
    let mut details = PackageDetails::default();
    details.description = Some(format!("{name} package"));
    details.download_url = format!("https://example.com/{id}");
    details.size_raw = Some(100);
    RemotePackage {
        pkg_id: id.to_string(),
        pkg_name: name.to_string(),
        version: version.to_string(),
        details,
        disabled_reason: None,
        licenses: None,
        ghcr_files: None,
        homepages: None,
        notes: None,
        src_urls: None,
        tags: None,
        categories: None,
        snapshots: None,
        repology: None,
        replaces: None,
        bundle: None,
        soar_syms: None,
        deprecated: None,
        maintainers: None,
        provides: None,
    }
}

fn rows(n: usize) -> Vec<RemotePackage> {
    (1..=n).map(|i| package(&format!("pkg{i:02}"), "tool", "1.0")).collect()
}

fn filter(field: &str, condition: FilterCondition) -> QueryFilter {
    QueryFilter { field: field.to_string(), condition, logical_op: None }
}

fn ids(repo: &PackageRepository, filters: Vec<QueryFilter>) -> Vec<String> {
    let page = repo.query(&filters, &None, 1, None).unwrap();
    page.items.iter().map(|r| r.pkg_id.clone()).collect()
}

#[test]
fn import_is_idempotent() {
    let mut vim = package("vim", "vim", "9.0");
    vim.maintainers = Some(vec!["Bram (bram@vim.org)".to_string()]);
    vim.provides = Some(vec!["vim=>vi".to_string(), "emacs=>editor".to_string()]);
    vim.notes = Some(vec!["a".to_string(), "b".to_string()]);
    vim.licenses = Some(vec!["Vim".to_string()]);
    vim.tags = Some(vec![]);
    vim.deprecated = Some(true);
    vim.details.bsum = Some("abc".to_string());
    vim.details.download_count = Some(7);
    let snapshot = vec![vim, package("nano", "nano", "7.0")];

    let mut once = PackageRepository::new();
    once.import_packages("main", &snapshot);
    let mut twice = PackageRepository::new();
    twice.import_packages("main", &snapshot);
    twice.import_packages("main", &snapshot);

    assert_eq!(once.packages().len(), 2);
    assert_eq!(twice.packages().len(), 2);
    assert_eq!(once.maintainer_count(), 1);
    assert_eq!(twice.maintainer_count(), 1);
    assert_eq!(once.links(), twice.links());
    let a = &once.packages()[0];
    let b = &twice.packages()[0];
    assert_eq!(a.pkg_id, b.pkg_id);
    assert_eq!(a.notes, "[\"a\",\"b\"]");
    assert_eq!(b.notes, a.notes);
    assert_eq!(a.provides, Some(vec!["vim=>vi".to_string()]));
    assert_eq!(a.licenses, "[\"Vim\"]");
    assert_eq!(a.tags, "[]");
    assert_eq!(a.categories, "null");
    assert!(a.deprecated);
    assert!(!a.bundle);
    assert_eq!(a.details.bsum.as_deref(), Some("abc"));
    assert_eq!(a.details.download_count, Some(7));
    assert_eq!(once.packages()[1].notes, "null");
}

#[test]
fn duplicate_key_in_one_snapshot_is_ignored() {
    let mut first = package("vim", "vim", "9.0");
    first.details.description = Some("first".to_string());
    let mut second = package("vim", "vim", "9.0");
    second.details.description = Some("second".to_string());
    let mut repo = PackageRepository::new();
    repo.import_packages("main", &vec![first, second, package("vim", "vim", "9.1")]);
    assert_eq!(repo.packages().len(), 3 - 1);
    assert_eq!(repo.packages()[0].details.description.as_deref(), Some("first"));
    assert_eq!(repo.packages()[1].version, "9.1");
}

#[test]
fn same_key_in_other_repository_is_kept() {
    let mut repo = PackageRepository::new();
    repo.import_packages("main", &vec![package("vim", "vim", "9.0")]);
    repo.import_packages("extra", &vec![package("vim", "vim", "9.0")]);
    assert_eq!(repo.packages().len(), 2);
    assert_eq!(repo.packages()[1].repo_name, "extra");
}

#[test]
fn maintainers_deduplicated_by_contact() {
    let mut a = package("a", "a", "1");
    a.maintainers = Some(vec!["Alice (dev@example.com)".to_string()]);
    let mut b = package("b", "b", "1");
    b.maintainers = Some(vec![
        "Alice Smith (dev@example.com)".to_string(),
        "not a maintainer".to_string(),
    ]);
    let mut repo = PackageRepository::new();
    repo.import_packages("main", &vec![a, b]);
    assert_eq!(repo.maintainer_count(), 1);
    assert_eq!(
        repo.maintainer(0),
        ("Alice".to_string(), "dev@example.com".to_string())
    );
    assert_eq!(repo.links(), &vec![(0, 0), (0, 1)]);
}

#[test]
fn get_or_create_maintainer_keeps_first_name() {
    let mut repo = PackageRepository::new();
    assert_eq!(repo.get_or_create_maintainer("A", "x@y"), 0);
    assert_eq!(repo.get_or_create_maintainer("B", "z@y"), 1);
    assert_eq!(repo.get_or_create_maintainer("C", "x@y"), 0);
    assert_eq!(repo.maintainer_count(), 2);
    assert_eq!(repo.maintainer(0).0, "A");
}

#[test]
fn marker_empty_until_finalized() {
    let mut repo = PackageRepository::new();
    assert_eq!(repo.marker("main"), None);
    repo.import_packages("main", &rows(3));
    assert_eq!(repo.marker("main"), Some(String::new()));
    repo.finalize("main", "etag-1");
    assert_eq!(repo.marker("main"), Some("etag-1".to_string()));
    repo.import_packages("main", &rows(4));
    assert_eq!(repo.marker("main"), Some(String::new()));
    assert_eq!(repo.marker("other"), None);
}

#[test]
fn pagination_over_twenty_five_rows() {
    let mut repo = PackageRepository::new();
    repo.import_packages("main", &rows(25));
    let filters = vec![filter("pkg_name", FilterCondition::Eq("tool".to_string()))];

    let p2 = repo.query(&filters, &None, 2, Some(10)).unwrap();
    let got: Vec<String> = p2.items.iter().map(|r| r.pkg_id.clone()).collect();
    let want: Vec<String> = (11..=20).map(|i| format!("pkg{i:02}")).collect();
    assert_eq!(got, want);
    assert_eq!(p2.total, 25);
    assert!(p2.has_next);
    assert_eq!(p2.page, 2);
    assert_eq!(p2.limit, Some(10));

    let p3 = repo.query(&filters, &None, 3, Some(10)).unwrap();
    let got: Vec<String> = p3.items.iter().map(|r| r.pkg_id.clone()).collect();
    let want: Vec<String> = (21..=25).map(|i| format!("pkg{i:02}")).collect();
    assert_eq!(got, want);
    assert_eq!(p3.total, 25);
    assert!(!p3.has_next);

    let p4 = repo.query(&filters, &None, 4, Some(10)).unwrap();
    assert!(p4.items.is_empty());
    assert_eq!(p4.total, 25);

    let all = repo.query(&filters, &None, 1, None).unwrap();
    assert_eq!(all.items.len(), 25);
    assert!(!all.has_next);
}

#[test]
fn empty_in_lists() {
    let mut repo = PackageRepository::new();
    repo.import_packages("main", &rows(5));
    let none = repo.query(&vec![filter("pkg_id", FilterCondition::In(vec![]))], &None, 1, None).unwrap();
    assert_eq!(none.total, 0);
    let every = repo.query(&vec![filter("pkg_family", FilterCondition::NotIn(vec![]))], &None, 1, None).unwrap();
    assert_eq!(every.total, 5);
}

#[test]
fn condition_variants() {
    let mut repo = PackageRepository::new();
    let mut c = package("c", "Curl", "8.0");
    c.details.pkg_family = Some("net".to_string());
    let snapshot = vec![package("a", "alpha", "1.0"), package("b", "beta", "2.0"), c];
    repo.import_packages("main", &snapshot);
    let s = |v: &str| v.to_string();
    assert_eq!(ids(&repo, vec![filter("pkg_id", FilterCondition::Eq(s("b")))]), vec!["b"]);
    assert_eq!(ids(&repo, vec![filter("pkg_id", FilterCondition::Ne(s("b")))]), vec!["a", "c"]);
    assert_eq!(ids(&repo, vec![filter("version", FilterCondition::Gt(s("1.0")))]), vec!["b", "c"]);
    assert_eq!(ids(&repo, vec![filter("version", FilterCondition::Gte(s("2.0")))]), vec!["b", "c"]);
    assert_eq!(ids(&repo, vec![filter("version", FilterCondition::Lt(s("2.0")))]), vec!["a"]);
    assert_eq!(ids(&repo, vec![filter("version", FilterCondition::Lte(s("2.0")))]), vec!["a", "b"]);
    assert_eq!(
        ids(&repo, vec![filter("version", FilterCondition::Between(s("1.0"), s("2.0")))]),
        vec!["a", "b"]
    );
    assert_eq!(ids(&repo, vec![filter("pkg_name", FilterCondition::Like(s("%eta")))]), vec!["b"]);
    assert_eq!(ids(&repo, vec![filter("pkg_name", FilterCondition::Like(s("curl")))]), Vec::<String>::new());
    assert_eq!(ids(&repo, vec![filter("pkg_name", FilterCondition::ILike(s("cu_l")))]), vec!["c"]);
    assert_eq!(ids(&repo, vec![filter("pkg_id", FilterCondition::In(vec![s("a"), s("c")]))]), vec!["a", "c"]);
    assert_eq!(ids(&repo, vec![filter("pkg_id", FilterCondition::NotIn(vec![s("a")]))]), vec!["b", "c"]);
    assert_eq!(ids(&repo, vec![filter("pkg_family", FilterCondition::IsNull)]), vec!["a", "b"]);
    assert_eq!(ids(&repo, vec![filter("pkg_family", FilterCondition::IsNotNull)]), vec!["c"]);
    assert_eq!(ids(&repo, vec![filter("pkg_family", FilterCondition::NotIn(vec![s("x")]))]), vec!["c"]);
    assert_eq!(ids(&repo, vec![filter("pkg_id", FilterCondition::NoConstraint)]), vec!["a", "b", "c"]);
}

#[test]
fn filters_combine_left_to_right() {
    let mut repo = PackageRepository::new();
    let snapshot = vec![package("a", "x", "1"), package("b", "y", "1"), package("c", "z", "2")];
    repo.import_packages("main", &snapshot);
    let s = |v: &str| v.to_string();
    let or_then_and = vec![
        filter("pkg_id", FilterCondition::Eq(s("a"))),
        QueryFilter { field: s("pkg_id"), condition: FilterCondition::Eq(s("c")), logical_op: Some(LogicalOp::Or) },
        QueryFilter { field: s("version"), condition: FilterCondition::Eq(s("2")), logical_op: Some(LogicalOp::And) },
    ];
    assert_eq!(ids(&repo, or_then_and), vec!["c"]);
    let with_placeholder = vec![
        QueryFilter { field: s("pkg_id"), condition: FilterCondition::NoConstraint, logical_op: None },
        QueryFilter { field: s("pkg_id"), condition: FilterCondition::Eq(s("b")), logical_op: Some(LogicalOp::And) },
    ];
    assert_eq!(ids(&repo, with_placeholder), vec!["b"]);
}

#[test]
fn unknown_field_is_rejected() {
    let repo = PackageRepository::new();
    let r = repo.query(&vec![filter("nope", FilterCondition::IsNull)], &None, 1, None);
    assert!(matches!(r, Err(QueryError::UnknownField)));
}

#[test]
fn list_encoding() {
    assert_eq!(vec_string(Some(vec!["a".to_string(), "b\"c".to_string()])), Some("[\"a\",\"b\\\"c\"]".to_string()));
    assert_eq!(vec_string(None), None);
    assert_eq!(vec_string(Some(vec![])), Some("[]".to_string()));
}

#[test]
fn sorts_by_column_stably() {
    let mut repo = PackageRepository::new();
    let mut c = package("c", "Curl", "2");
    c.details.pkg_family = Some("net".to_string());
    let snapshot = vec![package("b", "beta", "2"), package("a", "alpha", "1"), c, package("d", "delta", "1")];
    repo.import_packages("main", &snapshot);
    let order = |field: &str, dir: SortDirection| -> Vec<String> {
        let page = repo.query(&vec![], &Some((field.to_string(), dir)), 1, None).unwrap();
        page.items.iter().map(|r| r.pkg_id.clone()).collect()
    };
    assert_eq!(order("version", SortDirection::Asc), vec!["a", "d", "b", "c"]);
    assert_eq!(order("version", SortDirection::Desc), vec!["b", "c", "a", "d"]);
    assert_eq!(order("pkg_name", SortDirection::Asc), vec!["c", "a", "b", "d"]);
    assert_eq!(order("pkg_family", SortDirection::Asc), vec!["b", "a", "d", "c"]);
    assert_eq!(order("pkg_family", SortDirection::Desc), vec!["c", "b", "a", "d"]);
    assert_eq!(SortDirection::default(), SortDirection::Asc);
    let sorted_page = repo.query(&vec![], &Some(("pkg_id".to_string(), SortDirection::Desc)), 2, Some(3)).unwrap();
    assert_eq!(sorted_page.items.len(), 1);
    assert_eq!(sorted_page.items[0].pkg_id, "a");
    assert_eq!(sorted_page.total, 4);
    let bad = repo.query(&vec![], &Some(("nope".to_string(), SortDirection::Asc)), 1, None);
    assert!(matches!(bad, Err(QueryError::UnknownField)));
}

#[test]
fn store_round_trips_through_tables() {
    let mut repo = PackageRepository::new();
    let mut a = package("a", "a", "1");
    a.maintainers = Some(vec!["A (a@x)".to_string()]);
    repo.import_packages("main", &vec![a]);
    let rows: Vec<_> = repo.packages().iter().map(|r| r.duplicate()).collect();
    let repos = vec![Repository { name: "main".to_string(), marker: "e1".to_string() }];
    let ms = vec![Maintainer { name: "A".to_string(), contact: "a@x".to_string() }];
    let mut back = PackageRepository::from_tables(repos, rows, ms, repo.links().clone()).unwrap();
    assert_eq!(back.marker("main"), Some("e1".to_string()));
    back.import_packages("main", &vec![package("a", "a", "1"), package("b", "b", "1")]);
    assert_eq!(back.packages().len(), 2);
    let dup_rows = vec![repo.packages()[0].duplicate(), repo.packages()[0].duplicate()];
    assert!(PackageRepository::from_tables(vec![], dup_rows, vec![], vec![]).is_none());
    let dup_ms = vec![
        Maintainer { name: "A".to_string(), contact: "a@x".to_string() },
        Maintainer { name: "B".to_string(), contact: "a@x".to_string() },
    ];
    assert!(PackageRepository::from_tables(vec![], vec![], dup_ms, vec![]).is_none());
    let dup_repos = vec![
        Repository { name: "r".to_string(), marker: String::new() },
        Repository { name: "r".to_string(), marker: "x".to_string() },
    ];
    assert!(PackageRepository::from_tables(dup_repos, vec![], vec![], vec![]).is_none());
}
