//! The package store: repositories with their freshness markers, package
//! rows keyed by repository, package id and version, maintainers unique by
//! contact, and the links between maintainers and packages.
use vstd::prelude::*;

use crate::maintainer::{extract_name_and_contact, is_maintainer, lemma_maintainer_unique};
use crate::provide::{kept_strings, retain_attributable, string_views};

verus! {

#[verifier::external_type_specification]
#[verifier::external_body]
pub struct ExJsonError(serde_json::Error);

/// The JSON text that serde_json writes for an optional list of strings.
pub uninterp spec fn json_of_list(v: Option<Seq<Seq<char>>>) -> Seq<char>;

/// The view of an optional list of strings.
pub open spec fn opt_list_view(v: Option<Vec<String>>) -> Option<Seq<Seq<char>>> {
    match v {
        Some(l) => Some(string_views(l@)),
        None => None,
    }
}

/// The view of an optional string.
pub open spec fn opt_str_view(v: Option<String>) -> Option<Seq<char>> {
    match v {
        Some(s) => Some(s@),
        None => None,
    }
}

/// Relies on serde_json::to_string: the JSON text of an optional list of
/// strings (`null` for `None`), which depends on the list alone. It writes
/// into memory and cannot fail for strings.
#[verifier::external_body]
fn list_to_json(v: &Option<Vec<String>>) -> (r: Result<String, serde_json::Error>)
    ensures
        r is Ok,
        r matches Ok(s) ==> s@ == json_of_list(opt_list_view(*v)),
{
    serde_json::to_string(v)
}

/// The JSON text of an optional list of strings.
fn encode_list(v: &Option<Vec<String>>) -> (r: String)
    ensures
        r@ == json_of_list(opt_list_view(*v)),
{
    match list_to_json(v) {
        Ok(s) => s,
        Err(_) => {
            proof {
                assert(false);
            }
            String::new()
        },
    }
}

/// Encodes a list of strings as a JSON array; `None` when there is no list.
pub fn vec_string(value: Option<Vec<String>>) -> (r: Option<String>)
    ensures
        opt_str_view(r) == match value {
            None => None,
            Some(l) => Some(json_of_list(Some(string_views(l@)))),
        },
{
    match value {
        None => None,
        Some(l) => {
            let v = Some(l);
            Some(encode_list(&v))
        },
    }
}

/// The list fields of a descriptor, encoded as JSON arrays.
pub struct EncodedLists {
    pub disabled_reason: String,
    pub licenses: String,
    pub ghcr_files: String,
    pub homepages: String,
    pub notes: String,
    pub src_urls: String,
    pub tags: String,
    pub categories: String,
    pub snapshots: String,
    pub repology: String,
    pub replaces: String,
}

impl EncodedLists {
    /// These are the encodings of the descriptor's lists.
    pub open spec fn encodes(&self, p: RemoteView) -> bool {
        &&& self.disabled_reason@ == json_of_list(p.disabled_reason)
        &&& self.licenses@ == json_of_list(p.licenses)
        &&& self.ghcr_files@ == json_of_list(p.ghcr_files)
        &&& self.homepages@ == json_of_list(p.homepages)
        &&& self.notes@ == json_of_list(p.notes)
        &&& self.src_urls@ == json_of_list(p.src_urls)
        &&& self.tags@ == json_of_list(p.tags)
        &&& self.categories@ == json_of_list(p.categories)
        &&& self.snapshots@ == json_of_list(p.snapshots)
        &&& self.repology@ == json_of_list(p.repology)
        &&& self.replaces@ == json_of_list(p.replaces)
    }
}

/// Encodes the list fields of a descriptor.
pub fn encode_lists(p: &RemotePackage) -> (r: EncodedLists)
    ensures
        r.encodes(p@),
{
    EncodedLists {
        disabled_reason: encode_list(&p.disabled_reason),
        licenses: encode_list(&p.licenses),
        ghcr_files: encode_list(&p.ghcr_files),
        homepages: encode_list(&p.homepages),
        notes: encode_list(&p.notes),
        src_urls: encode_list(&p.src_urls),
        tags: encode_list(&p.tags),
        categories: encode_list(&p.categories),
        snapshots: encode_list(&p.snapshots),
        repology: encode_list(&p.repology),
        replaces: encode_list(&p.replaces),
    }
}

/// The descriptive, distribution, build and usage fields of a package,
/// which the store keeps as they come.
pub struct PackageDetails {
    pub disabled: bool,
    pub rank: Option<u64>,
    pub pkg: Option<String>,
    pub pkg_family: Option<String>,
    pub pkg_type: Option<String>,
    pub pkg_webpage: Option<String>,
    pub app_id: Option<String>,
    pub description: Option<String>,
    pub version_upstream: Option<String>,
    pub download_url: String,
    pub size_raw: Option<u64>,
    pub ghcr_pkg: Option<String>,
    pub ghcr_size_raw: Option<u64>,
    pub ghcr_blob: Option<String>,
    pub ghcr_url: Option<String>,
    pub bsum: Option<String>,
    pub shasum: Option<String>,
    pub icon: Option<String>,
    pub desktop: Option<String>,
    pub appstream: Option<String>,
    pub build_id: Option<String>,
    pub build_date: Option<String>,
    pub build_action: Option<String>,
    pub build_script: Option<String>,
    pub build_log: Option<String>,
    pub download_count: Option<u64>,
    pub download_count_week: Option<u64>,
    pub download_count_month: Option<u64>,
    pub bundle_type: Option<String>,
    pub desktop_integration: Option<bool>,
    pub external: Option<bool>,
    pub installable: Option<bool>,
    pub portable: Option<bool>,
    pub recurse_provides: Option<bool>,
    pub trusted: Option<bool>,
    pub version_latest: Option<String>,
    pub version_outdated: Option<bool>,
}

/// The mathematical value of a package's details.
pub struct DetailsView {
    pub disabled: bool,
    pub rank: Option<u64>,
    pub pkg: Option<Seq<char>>,
    pub pkg_family: Option<Seq<char>>,
    pub pkg_type: Option<Seq<char>>,
    pub pkg_webpage: Option<Seq<char>>,
    pub app_id: Option<Seq<char>>,
    pub description: Option<Seq<char>>,
    pub version_upstream: Option<Seq<char>>,
    pub download_url: Seq<char>,
    pub size_raw: Option<u64>,
    pub ghcr_pkg: Option<Seq<char>>,
    pub ghcr_size_raw: Option<u64>,
    pub ghcr_blob: Option<Seq<char>>,
    pub ghcr_url: Option<Seq<char>>,
    pub bsum: Option<Seq<char>>,
    pub shasum: Option<Seq<char>>,
    pub icon: Option<Seq<char>>,
    pub desktop: Option<Seq<char>>,
    pub appstream: Option<Seq<char>>,
    pub build_id: Option<Seq<char>>,
    pub build_date: Option<Seq<char>>,
    pub build_action: Option<Seq<char>>,
    pub build_script: Option<Seq<char>>,
    pub build_log: Option<Seq<char>>,
    pub download_count: Option<u64>,
    pub download_count_week: Option<u64>,
    pub download_count_month: Option<u64>,
    pub bundle_type: Option<Seq<char>>,
    pub desktop_integration: Option<bool>,
    pub external: Option<bool>,
    pub installable: Option<bool>,
    pub portable: Option<bool>,
    pub recurse_provides: Option<bool>,
    pub trusted: Option<bool>,
    pub version_latest: Option<Seq<char>>,
    pub version_outdated: Option<bool>,
}

impl View for PackageDetails {
    type V = DetailsView;

    open spec fn view(&self) -> DetailsView {
        DetailsView {
            disabled: self.disabled,
            rank: self.rank,
            pkg: opt_str_view(self.pkg),
            pkg_family: opt_str_view(self.pkg_family),
            pkg_type: opt_str_view(self.pkg_type),
            pkg_webpage: opt_str_view(self.pkg_webpage),
            app_id: opt_str_view(self.app_id),
            description: opt_str_view(self.description),
            version_upstream: opt_str_view(self.version_upstream),
            download_url: self.download_url@,
            size_raw: self.size_raw,
            ghcr_pkg: opt_str_view(self.ghcr_pkg),
            ghcr_size_raw: self.ghcr_size_raw,
            ghcr_blob: opt_str_view(self.ghcr_blob),
            ghcr_url: opt_str_view(self.ghcr_url),
            bsum: opt_str_view(self.bsum),
            shasum: opt_str_view(self.shasum),
            icon: opt_str_view(self.icon),
            desktop: opt_str_view(self.desktop),
            appstream: opt_str_view(self.appstream),
            build_id: opt_str_view(self.build_id),
            build_date: opt_str_view(self.build_date),
            build_action: opt_str_view(self.build_action),
            build_script: opt_str_view(self.build_script),
            build_log: opt_str_view(self.build_log),
            download_count: self.download_count,
            download_count_week: self.download_count_week,
            download_count_month: self.download_count_month,
            bundle_type: opt_str_view(self.bundle_type),
            desktop_integration: self.desktop_integration,
            external: self.external,
            installable: self.installable,
            portable: self.portable,
            recurse_provides: self.recurse_provides,
            trusted: self.trusted,
            version_latest: opt_str_view(self.version_latest),
            version_outdated: self.version_outdated,
        }
    }
}

/// Details with no value set and an empty download URL.
pub open spec fn no_details() -> DetailsView {
    DetailsView {
        disabled: false,
        rank: None,
        pkg: None,
        pkg_family: None,
        pkg_type: None,
        pkg_webpage: None,
        app_id: None,
        description: None,
        version_upstream: None,
        download_url: Seq::empty(),
        size_raw: None,
        ghcr_pkg: None,
        ghcr_size_raw: None,
        ghcr_blob: None,
        ghcr_url: None,
        bsum: None,
        shasum: None,
        icon: None,
        desktop: None,
        appstream: None,
        build_id: None,
        build_date: None,
        build_action: None,
        build_script: None,
        build_log: None,
        download_count: None,
        download_count_week: None,
        download_count_month: None,
        bundle_type: None,
        desktop_integration: None,
        external: None,
        installable: None,
        portable: None,
        recurse_provides: None,
        trusted: None,
        version_latest: None,
        version_outdated: None,
    }
}

impl Default for PackageDetails {
    fn default() -> (r: Self)
        ensures
            r@ == no_details(),
    {
        let r = PackageDetails {
            disabled: false,
            rank: None,
            pkg: None,
            pkg_family: None,
            pkg_type: None,
            pkg_webpage: None,
            app_id: None,
            description: None,
            version_upstream: None,
            download_url: String::new(),
            size_raw: None,
            ghcr_pkg: None,
            ghcr_size_raw: None,
            ghcr_blob: None,
            ghcr_url: None,
            bsum: None,
            shasum: None,
            icon: None,
            desktop: None,
            appstream: None,
            build_id: None,
            build_date: None,
            build_action: None,
            build_script: None,
            build_log: None,
            download_count: None,
            download_count_week: None,
            download_count_month: None,
            bundle_type: None,
            desktop_integration: None,
            external: None,
            installable: None,
            portable: None,
            recurse_provides: None,
            trusted: None,
            version_latest: None,
            version_outdated: None,
        };
        assert(r@.download_url =~= Seq::<char>::empty());
        r
    }
}

impl PackageDetails {
    /// A copy of the details.
    pub fn duplicate(&self) -> (r: Self)
        ensures
            r@ == self@,
    {
        PackageDetails {
            disabled: self.disabled,
            rank: self.rank,
            pkg: clone_opt_string(&self.pkg),
            pkg_family: clone_opt_string(&self.pkg_family),
            pkg_type: clone_opt_string(&self.pkg_type),
            pkg_webpage: clone_opt_string(&self.pkg_webpage),
            app_id: clone_opt_string(&self.app_id),
            description: clone_opt_string(&self.description),
            version_upstream: clone_opt_string(&self.version_upstream),
            download_url: self.download_url.clone(),
            size_raw: self.size_raw,
            ghcr_pkg: clone_opt_string(&self.ghcr_pkg),
            ghcr_size_raw: self.ghcr_size_raw,
            ghcr_blob: clone_opt_string(&self.ghcr_blob),
            ghcr_url: clone_opt_string(&self.ghcr_url),
            bsum: clone_opt_string(&self.bsum),
            shasum: clone_opt_string(&self.shasum),
            icon: clone_opt_string(&self.icon),
            desktop: clone_opt_string(&self.desktop),
            appstream: clone_opt_string(&self.appstream),
            build_id: clone_opt_string(&self.build_id),
            build_date: clone_opt_string(&self.build_date),
            build_action: clone_opt_string(&self.build_action),
            build_script: clone_opt_string(&self.build_script),
            build_log: clone_opt_string(&self.build_log),
            download_count: self.download_count,
            download_count_week: self.download_count_week,
            download_count_month: self.download_count_month,
            bundle_type: clone_opt_string(&self.bundle_type),
            desktop_integration: self.desktop_integration,
            external: self.external,
            installable: self.installable,
            portable: self.portable,
            recurse_provides: self.recurse_provides,
            trusted: self.trusted,
            version_latest: clone_opt_string(&self.version_latest),
            version_outdated: self.version_outdated,
        }
    }
}

/// One package descriptor of a repository snapshot.
pub struct RemotePackage {
    pub pkg_id: String,
    pub pkg_name: String,
    pub version: String,
    pub details: PackageDetails,
    pub disabled_reason: Option<Vec<String>>,
    pub licenses: Option<Vec<String>>,
    pub ghcr_files: Option<Vec<String>>,
    pub homepages: Option<Vec<String>>,
    pub notes: Option<Vec<String>>,
    pub src_urls: Option<Vec<String>>,
    pub tags: Option<Vec<String>>,
    pub categories: Option<Vec<String>>,
    pub snapshots: Option<Vec<String>>,
    pub repology: Option<Vec<String>>,
    pub replaces: Option<Vec<String>>,
    pub bundle: Option<bool>,
    pub soar_syms: Option<bool>,
    pub deprecated: Option<bool>,
    pub maintainers: Option<Vec<String>>,
    pub provides: Option<Vec<String>>,
}

/// The mathematical value of a package descriptor.
pub struct RemoteView {
    pub pkg_id: Seq<char>,
    pub pkg_name: Seq<char>,
    pub version: Seq<char>,
    pub details: DetailsView,
    pub disabled_reason: Option<Seq<Seq<char>>>,
    pub licenses: Option<Seq<Seq<char>>>,
    pub ghcr_files: Option<Seq<Seq<char>>>,
    pub homepages: Option<Seq<Seq<char>>>,
    pub notes: Option<Seq<Seq<char>>>,
    pub src_urls: Option<Seq<Seq<char>>>,
    pub tags: Option<Seq<Seq<char>>>,
    pub categories: Option<Seq<Seq<char>>>,
    pub snapshots: Option<Seq<Seq<char>>>,
    pub repology: Option<Seq<Seq<char>>>,
    pub replaces: Option<Seq<Seq<char>>>,
    pub bundle: Option<bool>,
    pub soar_syms: Option<bool>,
    pub deprecated: Option<bool>,
    pub maintainers: Option<Seq<Seq<char>>>,
    pub provides: Option<Seq<Seq<char>>>,
}

impl View for RemotePackage {
    type V = RemoteView;

    open spec fn view(&self) -> RemoteView {
        RemoteView {
            pkg_id: self.pkg_id@,
            pkg_name: self.pkg_name@,
            version: self.version@,
            details: self.details@,
            disabled_reason: opt_list_view(self.disabled_reason),
            licenses: opt_list_view(self.licenses),
            ghcr_files: opt_list_view(self.ghcr_files),
            homepages: opt_list_view(self.homepages),
            notes: opt_list_view(self.notes),
            src_urls: opt_list_view(self.src_urls),
            tags: opt_list_view(self.tags),
            categories: opt_list_view(self.categories),
            snapshots: opt_list_view(self.snapshots),
            repology: opt_list_view(self.repology),
            replaces: opt_list_view(self.replaces),
            bundle: self.bundle,
            soar_syms: self.soar_syms,
            deprecated: self.deprecated,
            maintainers: opt_list_view(self.maintainers),
            provides: opt_list_view(self.provides),
        }
    }
}

/// A stored package.
pub struct PackageRow {
    pub repo_name: String,
    pub pkg_id: String,
    pub pkg_name: String,
    pub version: String,
    pub details: PackageDetails,
    /// The disabled reason as JSON.
    pub disabled_reason: String,
    /// The licenses as JSON.
    pub licenses: String,
    /// The ghcr files as JSON.
    pub ghcr_files: String,
    /// The homepages as JSON.
    pub homepages: String,
    /// The notes as JSON.
    pub notes: String,
    /// The src urls as JSON.
    pub src_urls: String,
    /// The tags as JSON.
    pub tags: String,
    /// The categories as JSON.
    pub categories: String,
    /// The snapshots as JSON.
    pub snapshots: String,
    /// The repology as JSON.
    pub repology: String,
    /// The replaces as JSON.
    pub replaces: String,
    pub bundle: bool,
    pub soar_syms: bool,
    pub deprecated: bool,
    /// The provide strings that the package may declare.
    pub provides: Option<Vec<String>>,
}

/// The mathematical value of a stored package.
pub struct RowView {
    pub repo_name: Seq<char>,
    pub pkg_id: Seq<char>,
    pub pkg_name: Seq<char>,
    pub version: Seq<char>,
    pub details: DetailsView,
    pub disabled_reason: Seq<char>,
    pub licenses: Seq<char>,
    pub ghcr_files: Seq<char>,
    pub homepages: Seq<char>,
    pub notes: Seq<char>,
    pub src_urls: Seq<char>,
    pub tags: Seq<char>,
    pub categories: Seq<char>,
    pub snapshots: Seq<char>,
    pub repology: Seq<char>,
    pub replaces: Seq<char>,
    pub bundle: bool,
    pub soar_syms: bool,
    pub deprecated: bool,
    pub provides: Option<Seq<Seq<char>>>,
}

impl View for PackageRow {
    type V = RowView;

    open spec fn view(&self) -> RowView {
        RowView {
            repo_name: self.repo_name@,
            pkg_id: self.pkg_id@,
            pkg_name: self.pkg_name@,
            version: self.version@,
            details: self.details@,
            disabled_reason: self.disabled_reason@,
            licenses: self.licenses@,
            ghcr_files: self.ghcr_files@,
            homepages: self.homepages@,
            notes: self.notes@,
            src_urls: self.src_urls@,
            tags: self.tags@,
            categories: self.categories@,
            snapshots: self.snapshots@,
            repology: self.repology@,
            replaces: self.replaces@,
            bundle: self.bundle,
            soar_syms: self.soar_syms,
            deprecated: self.deprecated,
            provides: opt_list_view(self.provides),
        }
    }
}

/// A copy of an optional string.
fn clone_opt_string(v: &Option<String>) -> (r: Option<String>)
    ensures
        opt_str_view(r) == opt_str_view(*v),
{
    match v {
        Some(s) => Some(s.clone()),
        None => None,
    }
}

/// A copy of an optional list of strings.
fn clone_opt_list(v: &Option<Vec<String>>) -> (r: Option<Vec<String>>)
    ensures
        opt_list_view(r) == opt_list_view(*v),
{
    match v {
        Some(l) => {
            let c = l.clone();
            proof {
                assert(string_views(c@) =~= string_views(l@));
            }
            Some(c)
        },
        None => None,
    }
}

impl PackageRow {
    /// A copy of the row.
    pub fn duplicate(&self) -> (r: Self)
        ensures
            r@ == self@,
    {
        PackageRow {
            repo_name: self.repo_name.clone(),
            pkg_id: self.pkg_id.clone(),
            pkg_name: self.pkg_name.clone(),
            version: self.version.clone(),
            details: self.details.duplicate(),
            disabled_reason: self.disabled_reason.clone(),
            licenses: self.licenses.clone(),
            ghcr_files: self.ghcr_files.clone(),
            homepages: self.homepages.clone(),
            notes: self.notes.clone(),
            src_urls: self.src_urls.clone(),
            tags: self.tags.clone(),
            categories: self.categories.clone(),
            snapshots: self.snapshots.clone(),
            repology: self.repology.clone(),
            replaces: self.replaces.clone(),
            bundle: self.bundle,
            soar_syms: self.soar_syms,
            deprecated: self.deprecated,
            provides: clone_opt_list(&self.provides),
        }
    }
}

/// A repository and its freshness marker.
pub struct Repository {
    pub name: String,
    pub marker: String,
}

/// A maintainer's display name and contact.
pub struct Maintainer {
    pub name: String,
    pub contact: String,
}

/// The mathematical value of the store.
pub struct StoreView {
    /// Name and freshness marker of each repository.
    pub repositories: Seq<(Seq<char>, Seq<char>)>,
    pub packages: Seq<RowView>,
    /// Name and contact of each maintainer; a maintainer's id is its index.
    pub maintainers: Seq<(Seq<char>, Seq<char>)>,
    /// Pairs of maintainer id and package index.
    pub links: Seq<(usize, usize)>,
}

/// Entry `i` is repository `name`.
pub open spec fn repo_at(rs: Seq<(Seq<char>, Seq<char>)>, name: Seq<char>, i: int) -> bool {
    0 <= i < rs.len() && rs[i].0 == name
}

/// The repositories with `name`'s marker set to `m`, the repository being
/// added at the end when absent.
pub open spec fn with_marker(
    rs: Seq<(Seq<char>, Seq<char>)>,
    name: Seq<char>,
    m: Seq<char>,
) -> Seq<(Seq<char>, Seq<char>)> {
    if exists|i: int| repo_at(rs, name, i) {
        rs.update(choose|i: int| repo_at(rs, name, i), (name, m))
    } else {
        rs.push((name, m))
    }
}

/// The freshness marker of repository `name`, if it is present.
pub open spec fn marker_of(rs: Seq<(Seq<char>, Seq<char>)>, name: Seq<char>) -> Option<
    Seq<char>,
> {
    if exists|i: int| repo_at(rs, name, i) {
        Some(rs[choose|i: int| repo_at(rs, name, i)].1)
    } else {
        None
    }
}

/// No two entries share a first component.
pub open spec fn keys_unique(rs: Seq<(Seq<char>, Seq<char>)>) -> bool {
    forall|i: int, j: int| 0 <= i < rs.len() && 0 <= j < rs.len() && rs[i].0 == rs[j].0 ==> i == j
}

/// No two entries share a second component.
pub open spec fn contacts_unique(ms: Seq<(Seq<char>, Seq<char>)>) -> bool {
    forall|i: int, j: int| 0 <= i < ms.len() && 0 <= j < ms.len() && ms[i].1 == ms[j].1 ==> i == j
}

/// Setting a marker keeps names unique, sets that repository's marker and
/// leaves the others' as they were.
pub proof fn lemma_with_marker(rs: Seq<(Seq<char>, Seq<char>)>, name: Seq<char>, m: Seq<char>)
    requires
        keys_unique(rs),
    ensures
        keys_unique(with_marker(rs, name, m)),
        marker_of(with_marker(rs, name, m), name) == Some(m),
        forall|n: Seq<char>| n != name ==> marker_of(with_marker(rs, name, m), n) == marker_of(rs, n),
{
    let r = with_marker(rs, name, m);
    if exists|i: int| repo_at(rs, name, i) {
        let i = choose|i: int| repo_at(rs, name, i);
        assert(repo_at(r, name, i));
        assert(keys_unique(r)) by {
            assert forall|a: int, b: int|
                0 <= a < r.len() && 0 <= b < r.len() && r[a].0 == r[b].0 implies a == b by {
                if a != i && b != i {
                } else {
                    assert(rs[a].0 == r[a].0 && rs[b].0 == r[b].0);
                }
            }
        }
        let k = choose|k: int| repo_at(r, name, k);
        assert(k == i);
        assert forall|n: Seq<char>| n != name implies marker_of(r, n) == marker_of(rs, n) by {
            if exists|k: int| repo_at(rs, n, k) {
                let k = choose|k: int| repo_at(rs, n, k);
                assert(repo_at(r, n, k));
            }
            if exists|k: int| repo_at(r, n, k) {
                let k = choose|k: int| repo_at(r, n, k);
                assert(repo_at(rs, n, k));
            }
        }
    } else {
        let i = rs.len() as int;
        assert(repo_at(r, name, i));
        assert(keys_unique(r)) by {
            assert forall|a: int, b: int|
                0 <= a < r.len() && 0 <= b < r.len() && r[a].0 == r[b].0 implies a == b by {
                if a < i && b < i {
                    assert(rs[a].0 == r[a].0 && rs[b].0 == r[b].0);
                } else if a < i {
                    assert(repo_at(rs, name, a));
                } else if b < i {
                    assert(repo_at(rs, name, b));
                }
            }
        }
        let k = choose|k: int| repo_at(r, name, k);
        if k < i {
            assert(repo_at(rs, name, k));
        }
        assert forall|n: Seq<char>| n != name implies marker_of(r, n) == marker_of(rs, n) by {
            if exists|k: int| repo_at(rs, n, k) {
                let k = choose|k: int| repo_at(rs, n, k);
                assert(repo_at(r, n, k));
            }
            if exists|k: int| repo_at(r, n, k) {
                let k = choose|k: int| repo_at(r, n, k);
                assert(repo_at(rs, n, k));
            }
        }
    }
}

/// Maintainer `i` has contact `c`.
pub open spec fn contact_at(ms: Seq<(Seq<char>, Seq<char>)>, c: Seq<char>, i: int) -> bool {
    0 <= i < ms.len() && ms[i].1 == c
}

/// The maintainers after registering `n (c)`: unchanged when the contact is known.
pub open spec fn registered(ms: Seq<(Seq<char>, Seq<char>)>, n: Seq<char>, c: Seq<char>) -> Seq<
    (Seq<char>, Seq<char>),
> {
    if exists|i: int| contact_at(ms, c, i) {
        ms
    } else {
        ms.push((n, c))
    }
}

/// The id of the maintainer with contact `c` after registering `n (c)`.
pub open spec fn registered_id(ms: Seq<(Seq<char>, Seq<char>)>, c: Seq<char>) -> int {
    if exists|i: int| contact_at(ms, c, i) {
        choose|i: int| contact_at(ms, c, i)
    } else {
        ms.len() as int
    }
}

/// The reading of a maintainer string, if it has one.
pub open spec fn parse_maintainer(s: Seq<char>) -> Option<(Seq<char>, Seq<char>)> {
    if exists|p: (Seq<char>, Seq<char>)| is_maintainer(s, p.0, p.1) {
        Some(choose|p: (Seq<char>, Seq<char>)| is_maintainer(s, p.0, p.1))
    } else {
        None
    }
}

/// The store after linking package `pkg` to the maintainer `n (c)`.
pub open spec fn with_maintainer(st: StoreView, n: Seq<char>, c: Seq<char>, pkg: usize) -> StoreView {
    StoreView {
        maintainers: registered(st.maintainers, n, c),
        links: st.links.push((registered_id(st.maintainers, c) as usize, pkg)),
        ..st
    }
}

/// The store after linking package `pkg` to each well-formed maintainer string.
pub open spec fn link_maintainers(st: StoreView, ms: Seq<Seq<char>>, pkg: usize) -> StoreView
    decreases ms.len(),
{
    if ms.len() == 0 {
        st
    } else {
        let prev = link_maintainers(st, ms.drop_last(), pkg);
        match parse_maintainer(ms.last()) {
            Some((n, c)) => with_maintainer(prev, n, c, pkg),
            None => prev,
        }
    }
}

/// Row `i` has the natural key (`repo`, `id`, `version`).
pub open spec fn key_at(
    rows: Seq<RowView>,
    repo: Seq<char>,
    id: Seq<char>,
    version: Seq<char>,
    i: int,
) -> bool {
    0 <= i < rows.len() && rows[i].repo_name == repo && rows[i].pkg_id == id && rows[i].version
        == version
}

/// A row with this natural key is stored.
pub open spec fn has_key(rows: Seq<RowView>, repo: Seq<char>, id: Seq<char>, version: Seq<char>) -> bool {
    exists|i: int| key_at(rows, repo, id, version, i)
}

/// The row that a descriptor becomes in repository `repo`.
pub open spec fn row_of(repo: Seq<char>, p: RemoteView) -> RowView {
    RowView {
        repo_name: repo,
        pkg_id: p.pkg_id,
        pkg_name: p.pkg_name,
        version: p.version,
        details: p.details,
        disabled_reason: json_of_list(p.disabled_reason),
        licenses: json_of_list(p.licenses),
        ghcr_files: json_of_list(p.ghcr_files),
        homepages: json_of_list(p.homepages),
        notes: json_of_list(p.notes),
        src_urls: json_of_list(p.src_urls),
        tags: json_of_list(p.tags),
        categories: json_of_list(p.categories),
        snapshots: json_of_list(p.snapshots),
        repology: json_of_list(p.repology),
        replaces: json_of_list(p.replaces),
        bundle: p.bundle == Some(true),
        soar_syms: p.soar_syms == Some(true),
        deprecated: p.deprecated == Some(true),
        provides: match p.provides {
            Some(ps) => Some(kept_strings(ps, p.pkg_name)),
            None => None,
        },
    }
}

/// The maintainer strings of a descriptor; none when it lists none.
pub open spec fn maintainer_strings(p: RemoteView) -> Seq<Seq<char>> {
    match p.maintainers {
        Some(ms) => ms,
        None => Seq::empty(),
    }
}

/// Insert-ignore of one descriptor: a known key leaves the store as it is;
/// otherwise the row is added and linked to its maintainers.
pub open spec fn insert_package(st: StoreView, repo: Seq<char>, p: RemoteView) -> StoreView {
    if has_key(st.packages, repo, p.pkg_id, p.version) {
        st
    } else {
        link_maintainers(
            StoreView { packages: st.packages.push(row_of(repo, p)), ..st },
            maintainer_strings(p),
            st.packages.len() as usize,
        )
    }
}

/// The descriptors inserted one after another.
pub open spec fn insert_all(st: StoreView, repo: Seq<char>, ps: Seq<RemoteView>) -> StoreView
    decreases ps.len(),
{
    if ps.len() == 0 {
        st
    } else {
        insert_package(insert_all(st, repo, ps.drop_last()), repo, ps.last())
    }
}

/// The store with repository `repo` touched: present, with an empty marker.
pub open spec fn touch(st: StoreView, repo: Seq<char>) -> StoreView {
    StoreView { repositories: with_marker(st.repositories, repo, Seq::empty()), ..st }
}

/// A whole import: touch the repository, then insert every descriptor.
pub open spec fn import(st: StoreView, repo: Seq<char>, ps: Seq<RemoteView>) -> StoreView {
    insert_all(touch(st, repo), repo, ps)
}

/// The views of a list of descriptors.
pub open spec fn remote_views(v: Seq<RemotePackage>) -> Seq<RemoteView> {
    v.map_values(|p: RemotePackage| p@)
}

/// No two rows share a natural key.
pub open spec fn package_keys_unique(rows: Seq<RowView>) -> bool {
    forall|i: int, j: int|
        0 <= i < rows.len() && 0 <= j < rows.len() && rows[i].repo_name == rows[j].repo_name
            && rows[i].pkg_id == rows[j].pkg_id && rows[i].version == rows[j].version ==> i == j
}

/// The store is well formed: repository names, package keys and
/// maintainer contacts are unique.
pub open spec fn store_wf(st: StoreView) -> bool {
    keys_unique(st.repositories) && package_keys_unique(st.packages) && contacts_unique(
        st.maintainers,
    )
}

/// The store that holds nothing.
pub open spec fn empty_store() -> StoreView {
    StoreView {
        repositories: Seq::empty(),
        packages: Seq::empty(),
        maintainers: Seq::empty(),
        links: Seq::empty(),
    }
}

/// A maintainer string's reading, as `extract_name_and_contact` finds it.
proof fn lemma_parse_maintainer(s: Seq<char>, r: Option<(String, String)>)
    requires
        match r {
            Some((n, c)) => is_maintainer(s, n@, c@),
            None => forall|n: Seq<char>, c: Seq<char>| !is_maintainer(s, n, c),
        },
    ensures
        parse_maintainer(s) == match r {
            Some((n, c)) => Some((n@, c@)),
            None => None::<(Seq<char>, Seq<char>)>,
        },
{
    match r {
        Some((n, c)) => {
            assert(is_maintainer(s, (n@, c@).0, (n@, c@).1));
            let p = choose|p: (Seq<char>, Seq<char>)| is_maintainer(s, p.0, p.1);
            lemma_maintainer_unique(s, n@, c@, p.0, p.1);
        },
        None => {
            if exists|p: (Seq<char>, Seq<char>)| is_maintainer(s, p.0, p.1) {
                let p = choose|p: (Seq<char>, Seq<char>)| is_maintainer(s, p.0, p.1);
                assert(!is_maintainer(s, p.0, p.1));
            }
        },
    }
}


/// The view of stored tables.
pub open spec fn tables_view(
    repositories: Seq<Repository>,
    packages: Seq<PackageRow>,
    maintainers: Seq<Maintainer>,
    links: Seq<(usize, usize)>,
) -> StoreView {
    StoreView {
        repositories: repositories.map_values(|r: Repository| (r.name@, r.marker@)),
        packages: packages.map_values(|r: PackageRow| r@),
        maintainers: maintainers.map_values(|m: Maintainer| (m.name@, m.contact@)),
        links,
    }
}

/// Whether no two repositories share a name.
fn repository_names_unique(rs: &Vec<Repository>) -> (r: bool)
    ensures
        r == keys_unique(rs@.map_values(|r: Repository| (r.name@, r.marker@))),
{
    let ghost v = rs@.map_values(|r: Repository| (r.name@, r.marker@));
    let mut i: usize = 0;
    while i < rs.len()
        invariant
            i <= rs.len(),
            v == rs@.map_values(|r: Repository| (r.name@, r.marker@)),
            forall|a: int, b: int| 0 <= a < b < i ==> v[a].0 != v[b].0,
        decreases rs.len() - i,
    {
        let mut j: usize = 0;
        while j < i
            invariant
                j <= i < rs.len(),
                v == rs@.map_values(|r: Repository| (r.name@, r.marker@)),
                forall|a: int| 0 <= a < j ==> v[a].0 != v[i as int].0,
            decreases i - j,
        {
            if rs[j].name == rs[i].name {
                assert(v[j as int].0 == v[i as int].0);
                return false;
            }
            j += 1;
        }
        i += 1;
    }
    assert forall|a: int, b: int|
        0 <= a < v.len() && 0 <= b < v.len() && v[a].0 == v[b].0 implies a == b by {
        if a < b {
        } else if b < a {
        }
    }
    true
}

/// Whether no two maintainers share a contact.
fn maintainer_contacts_unique(ms: &Vec<Maintainer>) -> (r: bool)
    ensures
        r == contacts_unique(ms@.map_values(|m: Maintainer| (m.name@, m.contact@))),
{
    let ghost v = ms@.map_values(|m: Maintainer| (m.name@, m.contact@));
    let mut i: usize = 0;
    while i < ms.len()
        invariant
            i <= ms.len(),
            v == ms@.map_values(|m: Maintainer| (m.name@, m.contact@)),
            forall|a: int, b: int| 0 <= a < b < i ==> v[a].1 != v[b].1,
        decreases ms.len() - i,
    {
        let mut j: usize = 0;
        while j < i
            invariant
                j <= i < ms.len(),
                v == ms@.map_values(|m: Maintainer| (m.name@, m.contact@)),
                forall|a: int| 0 <= a < j ==> v[a].1 != v[i as int].1,
            decreases i - j,
        {
            if ms[j].contact == ms[i].contact {
                assert(v[j as int].1 == v[i as int].1);
                return false;
            }
            j += 1;
        }
        i += 1;
    }
    assert forall|a: int, b: int|
        0 <= a < v.len() && 0 <= b < v.len() && v[a].1 == v[b].1 implies a == b by {
        if a < b {
        } else if b < a {
        }
    }
    true
}

/// Whether no two rows share a natural key.
fn row_keys_unique(rows: &Vec<PackageRow>) -> (r: bool)
    ensures
        r == package_keys_unique(rows@.map_values(|p: PackageRow| p@)),
{
    let ghost v = rows@.map_values(|p: PackageRow| p@);
    let mut i: usize = 0;
    while i < rows.len()
        invariant
            i <= rows.len(),
            v == rows@.map_values(|p: PackageRow| p@),
            forall|a: int, b: int|
                0 <= a < b < i ==> !(v[a].repo_name == v[b].repo_name && v[a].pkg_id == v[b].pkg_id
                    && v[a].version == v[b].version),
        decreases rows.len() - i,
    {
        let mut j: usize = 0;
        while j < i
            invariant
                j <= i < rows.len(),
                v == rows@.map_values(|p: PackageRow| p@),
                forall|a: int|
                    0 <= a < j ==> !(v[a].repo_name == v[i as int].repo_name && v[a].pkg_id
                        == v[i as int].pkg_id && v[a].version == v[i as int].version),
            decreases i - j,
        {
            let x = &rows[j];
            let y = &rows[i];
            if x.repo_name == y.repo_name && x.pkg_id == y.pkg_id && x.version == y.version {
                assert(v[j as int] == x@ && v[i as int] == y@);
                return false;
            }
            j += 1;
        }
        i += 1;
    }
    assert forall|a: int, b: int|
        0 <= a < v.len() && 0 <= b < v.len() && v[a].repo_name == v[b].repo_name && v[a].pkg_id
            == v[b].pkg_id && v[a].version == v[b].version implies a == b by {
        if a < b {
        } else if b < a {
        }
    }
    true
}

/// The package store: every repository, package, maintainer and link.
pub struct PackageRepository {
    repositories: Vec<Repository>,
    packages: Vec<PackageRow>,
    maintainers: Vec<Maintainer>,
    links: Vec<(usize, usize)>,
}

impl View for PackageRepository {
    type V = StoreView;

    closed spec fn view(&self) -> StoreView {
        StoreView {
            repositories: self.repositories@.map_values(|r: Repository| (r.name@, r.marker@)),
            packages: self.packages@.map_values(|r: PackageRow| r@),
            maintainers: self.maintainers@.map_values(|m: Maintainer| (m.name@, m.contact@)),
            links: self.links@,
        }
    }
}

impl PackageRepository {
    /// An empty store.
    pub fn new() -> (r: Self)
        ensures
            r@ == empty_store(),
            store_wf(r@),
    {
        let r = PackageRepository {
            repositories: Vec::new(),
            packages: Vec::new(),
            maintainers: Vec::new(),
            links: Vec::new(),
        };
        assert(r@.repositories =~= Seq::empty());
        assert(r@.packages =~= Seq::empty());
        assert(r@.maintainers =~= Seq::empty());
        r
    }

    /// A store holding the given tables, as read back from disk; `None`
    /// when two repositories share a name, two rows a natural key, or two
    /// maintainers a contact.
    pub fn from_tables(
        repositories: Vec<Repository>,
        packages: Vec<PackageRow>,
        maintainers: Vec<Maintainer>,
        links: Vec<(usize, usize)>,
    ) -> (r: Option<Self>)
        ensures
            match r {
                Some(st) => st@ == tables_view(repositories@, packages@, maintainers@, links@)
                    && store_wf(st@),
                None => !store_wf(tables_view(repositories@, packages@, maintainers@, links@)),
            },
    {
        if !repository_names_unique(&repositories) || !row_keys_unique(&packages)
            || !maintainer_contacts_unique(&maintainers) {
            return None;
        }
        Some(PackageRepository { repositories, packages, maintainers, links })
    }

    /// The names of the known repositories, in the order they were added.
    pub fn repository_names(&self) -> (r: Vec<String>)
        ensures
            r@.len() == self@.repositories.len(),
            forall|k: int| 0 <= k < r@.len() ==> r@[k]@ == self@.repositories[k].0,
    {
        let mut r: Vec<String> = Vec::new();
        let mut i: usize = 0;
        while i < self.repositories.len()
            invariant
                i <= self.repositories.len(),
                r.len() == i,
                self@.repositories.len() == self.repositories.len(),
                forall|k: int| 0 <= k < i ==> r@[k]@ == self@.repositories[k].0,
            decreases self.repositories.len() - i,
        {
            r.push(self.repositories[i].name.clone());
            assert(self@.repositories[i as int].0 == self.repositories@[i as int].name@);
            i += 1;
        }
        r
    }

    /// The stored packages, in insertion order.
    pub fn packages(&self) -> (r: &Vec<PackageRow>)
        ensures
            r@.map_values(|p: PackageRow| p@) == self@.packages,
    {
        &self.packages
    }

    /// The maintainer links, as pairs of maintainer id and package index.
    pub fn links(&self) -> (r: &Vec<(usize, usize)>)
        ensures
            r@ == self@.links,
    {
        &self.links
    }

    /// The number of maintainers.
    pub fn maintainer_count(&self) -> (r: usize)
        ensures
            r == self@.maintainers.len(),
    {
        self.maintainers.len()
    }

    /// Name and contact of the maintainer with id `id`.
    pub fn maintainer(&self, id: usize) -> (r: (String, String))
        requires
            id < self@.maintainers.len(),
        ensures
            (r.0@, r.1@) == self@.maintainers[id as int],
    {
        let m = &self.maintainers[id];
        (m.name.clone(), m.contact.clone())
    }

    /// The index of repository `name`, if it is known.
    fn find_repository(&self, name: &String) -> (r: Option<usize>)
        ensures
            match r {
                Some(i) => repo_at(self@.repositories, name@, i as int),
                None => !exists|i: int| repo_at(self@.repositories, name@, i),
            },
    {
        let mut i: usize = 0;
        while i < self.repositories.len()
            invariant
                i <= self.repositories.len(),
                forall|j: int| 0 <= j < i ==> !repo_at(self@.repositories, name@, j),
            decreases self.repositories.len() - i,
        {
            if self.repositories[i].name == *name {
                return Some(i);
            }
            i += 1;
        }
        None
    }

    /// The freshness marker of repository `repo`, if the store knows it.
    pub fn marker(&self, repo: &str) -> (r: Option<String>)
        requires
            store_wf(self@),
        ensures
            opt_str_view(r) == marker_of(self@.repositories, repo@),
    {
        let name = repo.to_string();
        match self.find_repository(&name) {
            Some(i) => {
                proof {
                    let k = choose|k: int| repo_at(self@.repositories, repo@, k);
                    assert(k == i);
                }
                Some(self.repositories[i].marker.clone())
            },
            None => None,
        }
    }

    /// Sets the marker of repository `repo`, adding the repository when absent.
    fn set_marker(&mut self, repo: &str, m: String)
        requires
            store_wf(old(self)@),
        ensures
            final(self)@ == (StoreView {
                repositories: with_marker(old(self)@.repositories, repo@, m@),
                ..old(self)@
            }),
            store_wf(final(self)@),
    {
        let ghost rs = self@.repositories;
        proof {
            lemma_with_marker(rs, repo@, m@);
        }
        let name = repo.to_string();
        match self.find_repository(&name) {
            Some(i) => {
                proof {
                    let k = choose|k: int| repo_at(rs, repo@, k);
                    assert(k == i);
                }
                self.repositories.set(i, Repository { name, marker: m });
                assert(self@.repositories =~= with_marker(rs, repo@, m@));
            },
            None => {
                self.repositories.push(Repository { name, marker: m });
                assert(self@.repositories =~= with_marker(rs, repo@, m@));
            },
        }
    }

    /// Stamps repository `repo` with its final freshness marker, once every
    /// package of a snapshot was imported.
    pub fn finalize(&mut self, repo: &str, marker: &str)
        requires
            store_wf(old(self)@),
        ensures
            final(self)@ == (StoreView {
                repositories: with_marker(old(self)@.repositories, repo@, marker@),
                ..old(self)@
            }),
            store_wf(final(self)@),
    {
        self.set_marker(repo, marker.to_string());
    }

    /// The id of the maintainer with this contact; one is added, under
    /// `name`, when none has it. A known maintainer keeps its name.
    pub fn get_or_create_maintainer(&mut self, name: &str, contact: &str) -> (id: usize)
        requires
            store_wf(old(self)@),
        ensures
            final(self)@ == (StoreView {
                maintainers: registered(old(self)@.maintainers, name@, contact@),
                ..old(self)@
            }),
            id as int == registered_id(old(self)@.maintainers, contact@),
            store_wf(final(self)@),
    {
        let ghost ms = self@.maintainers;
        let ghost st = self@;
        let c = contact.to_string();
        let mut i: usize = 0;
        while i < self.maintainers.len()
            invariant
                i <= self.maintainers.len(),
                self@ == st,
                st.maintainers == ms,
                store_wf(st),
                c@ == contact@,
                forall|j: int| 0 <= j < i ==> !contact_at(ms, contact@, j),
            decreases self.maintainers.len() - i,
        {
            if self.maintainers[i].contact == c {
                proof {
                    assert(ms[i as int].1 == c@);
                    assert(contact_at(ms, contact@, i as int));
                    let k = choose|k: int| contact_at(ms, contact@, k);
                    assert(k == i);
                }
                return i;
            }
            i += 1;
        }
        let id = self.maintainers.len();
        self.maintainers.push(Maintainer { name: name.to_string(), contact: c });
        assert(self@.maintainers =~= registered(ms, name@, contact@));
        assert(contacts_unique(self@.maintainers)) by {
            let nm = self@.maintainers;
            assert forall|a: int, b: int|
                0 <= a < nm.len() && 0 <= b < nm.len() && nm[a].1 == nm[b].1 implies a == b by {
                if a < ms.len() && b < ms.len() {
                    assert(nm[a] == ms[a] && nm[b] == ms[b]);
                } else if a < ms.len() {
                    assert(nm[a] == ms[a]);
                    assert(!contact_at(ms, contact@, a));
                } else if b < ms.len() {
                    assert(nm[b] == ms[b]);
                    assert(!contact_at(ms, contact@, b));
                }
            }
        }
        id
    }

    /// Whether a row with this natural key is stored.
    fn has_package(&self, repo: &String, id: &String, version: &String) -> (r: bool)
        ensures
            r == has_key(self@.packages, repo@, id@, version@),
    {
        let mut i: usize = 0;
        while i < self.packages.len()
            invariant
                i <= self.packages.len(),
                forall|j: int| 0 <= j < i ==> !key_at(self@.packages, repo@, id@, version@, j),
            decreases self.packages.len() - i,
        {
            let row = &self.packages[i];
            if row.repo_name == *repo && row.pkg_id == *id && row.version == *version {
                assert(key_at(self@.packages, repo@, id@, version@, i as int));
                return true;
            }
            i += 1;
        }
        false
    }

    /// Links package `pkg` to the maintainer of each well-formed string.
    fn link_maintainers(&mut self, ms: &Vec<String>, pkg: usize)
        requires
            store_wf(old(self)@),
        ensures
            final(self)@ == link_maintainers(old(self)@, string_views(ms@), pkg),
            store_wf(final(self)@),
    {
        let ghost st = self@;
        let mut i: usize = 0;
        while i < ms.len()
            invariant
                i <= ms.len(),
                store_wf(self@),
                self@ == link_maintainers(st, string_views(ms@).take(i as int), pkg),
            decreases ms.len() - i,
        {
            let ghost prev = self@;
            let found = extract_name_and_contact(ms[i].as_str());
            proof {
                lemma_parse_maintainer(ms[i as int]@, found);
                assert(string_views(ms@).take(i + 1).drop_last() =~= string_views(ms@).take(
                    i as int,
                ));
                assert(string_views(ms@).take(i + 1).last() == ms[i as int]@);
            }
            match found {
                Some((n, c)) => {
                    let id = self.get_or_create_maintainer(n.as_str(), c.as_str());
                    self.links.push((id, pkg));
                    assert(self@ == with_maintainer(prev, n@, c@, pkg));
                },
                None => {},
            }
            i += 1;
        }
        assert(string_views(ms@).take(i as int) =~= string_views(ms@));
    }

    /// Inserts one descriptor, whose lists are already encoded, unless its
    /// key is stored.
    fn insert_package(&mut self, repo: &str, p: &RemotePackage, lists: &EncodedLists)
        requires
            store_wf(old(self)@),
            lists.encodes(p@),
        ensures
            final(self)@ == insert_package(old(self)@, repo@, p@),
            store_wf(final(self)@),
    {
        let repo_name = repo.to_string();
        if self.has_package(&repo_name, &p.pkg_id, &p.version) {
            return;
        }
        let provides = match &p.provides {
            Some(v) => Some(retain_attributable(v, p.pkg_name.as_str())),
            None => None,
        };
        let ghost st = self@;
        let idx = self.packages.len();
        let row = PackageRow {
            repo_name,
            pkg_id: p.pkg_id.clone(),
            pkg_name: p.pkg_name.clone(),
            version: p.version.clone(),
            details: p.details.duplicate(),
            disabled_reason: lists.disabled_reason.clone(),
            licenses: lists.licenses.clone(),
            ghcr_files: lists.ghcr_files.clone(),
            homepages: lists.homepages.clone(),
            notes: lists.notes.clone(),
            src_urls: lists.src_urls.clone(),
            tags: lists.tags.clone(),
            categories: lists.categories.clone(),
            snapshots: lists.snapshots.clone(),
            repology: lists.repology.clone(),
            replaces: lists.replaces.clone(),
            bundle: matches!(p.bundle, Some(true)),
            soar_syms: matches!(p.soar_syms, Some(true)),
            deprecated: matches!(p.deprecated, Some(true)),
            provides,
        };
        assert(row@ == row_of(repo@, p@));
        self.packages.push(row);
        assert(self@ == (StoreView { packages: st.packages.push(row_of(repo@, p@)), ..st })) by {
            assert(self@.packages =~= st.packages.push(row_of(repo@, p@)));
        }
        assert(package_keys_unique(self@.packages)) by {
            let rows = self@.packages;
            assert forall|a: int, b: int|
                0 <= a < rows.len() && 0 <= b < rows.len() && rows[a].repo_name == rows[b].repo_name
                    && rows[a].pkg_id == rows[b].pkg_id && rows[a].version == rows[b].version implies a
                == b by {
                if a < idx && b == idx {
                    assert(key_at(st.packages, repo@, p@.pkg_id, p@.version, a));
                } else if b < idx && a == idx {
                    assert(key_at(st.packages, repo@, p@.pkg_id, p@.version, b));
                } else if a < idx && b < idx {
                    assert(rows[a] == st.packages[a] && rows[b] == st.packages[b]);
                }
            }
        }
        match &p.maintainers {
            Some(ms) => self.link_maintainers(ms, idx),
            None => {
                assert(maintainer_strings(p@) =~= Seq::<Seq<char>>::empty());
            },
        }
    }

    /// Imports one snapshot of repository `repo_name`: the repository is
    /// touched with an empty freshness marker, then each descriptor is
    /// inserted unless its key is already stored.
    pub fn import_packages(&mut self, repo_name: &str, metadata: &Vec<RemotePackage>)
        requires
            store_wf(old(self)@),
        ensures
            store_wf(final(self)@),
            final(self)@ == import(old(self)@, repo_name@, remote_views(metadata@)),
    {
        let ghost st = self@;
        proof {
            reveal_strlit("");
        }
        self.set_marker(repo_name, String::new());
        assert(self@ == touch(st, repo_name@));
        let ghost ps = remote_views(metadata@);
        assert(ps.len() == metadata.len());
        let mut i: usize = 0;
        while i < metadata.len()
            invariant
                i <= metadata.len(),
                ps == remote_views(metadata@),
                ps.len() == metadata.len(),
                store_wf(self@),
                self@ == insert_all(touch(st, repo_name@), repo_name@, ps.take(i as int)),
            decreases metadata.len() - i,
        {
            proof {
                assert(ps.take(i + 1).drop_last() =~= ps.take(i as int));
                assert(ps.take(i + 1).last() == metadata[i as int]@);
            }
            let lists = encode_lists(&metadata[i]);
            self.insert_package(repo_name, &metadata[i], &lists);
            i += 1;
        }
        assert(ps.take(i as int) =~= ps);
    }
}

} // verus!
