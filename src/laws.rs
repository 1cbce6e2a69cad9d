//! Laws of the import pipeline, stated over the store's model.
use vstd::prelude::*;

use crate::store::{
    contact_at, contacts_unique, has_key, import, insert_all, insert_package, key_at, keys_unique,
    lemma_with_marker, link_maintainers, marker_of, registered, registered_id, repo_at, store_wf,
    touch, with_maintainer, with_marker, RemoteView, StoreView,
};

verus! {

/// Linking maintainers leaves repositories and packages as they are.
proof fn lemma_link_frame(st: StoreView, ms: Seq<Seq<char>>, pkg: usize)
    ensures
        link_maintainers(st, ms, pkg).repositories == st.repositories,
        link_maintainers(st, ms, pkg).packages == st.packages,
    decreases ms.len(),
{
    if ms.len() > 0 {
        lemma_link_frame(st, ms.drop_last(), pkg);
    }
}

/// Inserting a descriptor keeps the repositories and every stored key, and
/// stores the descriptor's key.
proof fn lemma_insert_keys(st: StoreView, repo: Seq<char>, p: RemoteView)
    ensures
        insert_package(st, repo, p).repositories == st.repositories,
        has_key(insert_package(st, repo, p).packages, repo, p.pkg_id, p.version),
        forall|id: Seq<char>, v: Seq<char>|
            has_key(st.packages, repo, id, v) ==> has_key(
                insert_package(st, repo, p).packages,
                repo,
                id,
                v,
            ),
{
    if !has_key(st.packages, repo, p.pkg_id, p.version) {
        let grown = StoreView { packages: st.packages.push(crate::store::row_of(repo, p)), ..st };
        lemma_link_frame(grown, crate::store::maintainer_strings(p), st.packages.len() as usize);
        assert(key_at(grown.packages, repo, p.pkg_id, p.version, st.packages.len() as int));
        assert forall|id: Seq<char>, v: Seq<char>| has_key(st.packages, repo, id, v) implies has_key(
            grown.packages,
            repo,
            id,
            v,
        ) by {
            let i = choose|i: int| key_at(st.packages, repo, id, v, i);
            assert(key_at(grown.packages, repo, id, v, i));
        }
    }
}

/// After inserting a list of descriptors, every one of their keys is stored,
/// as is every key stored before; the repositories are unchanged.
proof fn lemma_insert_all_keys(st: StoreView, repo: Seq<char>, ps: Seq<RemoteView>)
    ensures
        insert_all(st, repo, ps).repositories == st.repositories,
        forall|k: int|
            0 <= k < ps.len() ==> has_key(
                insert_all(st, repo, ps).packages,
                repo,
                #[trigger] ps[k].pkg_id,
                ps[k].version,
            ),
        forall|id: Seq<char>, v: Seq<char>|
            has_key(st.packages, repo, id, v) ==> has_key(
                insert_all(st, repo, ps).packages,
                repo,
                id,
                v,
            ),
    decreases ps.len(),
{
    if ps.len() > 0 {
        let prev = insert_all(st, repo, ps.drop_last());
        lemma_insert_all_keys(st, repo, ps.drop_last());
        lemma_insert_keys(prev, repo, ps.last());
        assert forall|k: int| 0 <= k < ps.len() implies has_key(
            insert_all(st, repo, ps).packages,
            repo,
            #[trigger] ps[k].pkg_id,
            ps[k].version,
        ) by {
            if k < ps.len() - 1 {
                assert(ps.drop_last()[k] == ps[k]);
            }
        }
    }
}

/// Descriptors whose keys are all stored change nothing.
proof fn lemma_insert_all_known(st: StoreView, repo: Seq<char>, ps: Seq<RemoteView>)
    requires
        forall|k: int|
            0 <= k < ps.len() ==> has_key(st.packages, repo, #[trigger] ps[k].pkg_id, ps[k].version),
    ensures
        insert_all(st, repo, ps) == st,
    decreases ps.len(),
{
    if ps.len() > 0 {
        assert forall|k: int| 0 <= k < ps.drop_last().len() implies has_key(
            st.packages,
            repo,
            #[trigger] ps.drop_last()[k].pkg_id,
            ps.drop_last()[k].version,
        ) by {
            assert(ps.drop_last()[k] == ps[k]);
        }
        lemma_insert_all_known(st, repo, ps.drop_last());
        assert(has_key(st.packages, repo, ps[ps.len() - 1].pkg_id, ps[ps.len() - 1].version));
    }
}

/// Touching a repository twice is touching it once.
proof fn lemma_touch_twice(rs: Seq<(Seq<char>, Seq<char>)>, name: Seq<char>)
    requires
        keys_unique(rs),
    ensures
        with_marker(with_marker(rs, name, Seq::empty()), name, Seq::empty()) == with_marker(
            rs,
            name,
            Seq::empty(),
        ),
{
    let r1 = with_marker(rs, name, Seq::empty());
    lemma_with_marker(rs, name, Seq::empty());
    let i = choose|i: int| repo_at(r1, name, i);
    assert(r1.update(i, (name, Seq::empty())) =~= r1);
}

/// Importing the same snapshot twice gives the store that importing it once
/// gives.
pub proof fn lemma_import_idempotent(st: StoreView, repo: Seq<char>, ps: Seq<RemoteView>)
    requires
        store_wf(st),
    ensures
        import(import(st, repo, ps), repo, ps) == import(st, repo, ps),
{
    let t = touch(st, repo);
    let x = import(st, repo, ps);
    lemma_insert_all_keys(t, repo, ps);
    lemma_touch_twice(st.repositories, repo);
    assert(touch(x, repo) == x);
    lemma_insert_all_known(x, repo, ps);
}

/// After an import, every descriptor's key is stored, as is every key
/// stored before; with `store_wf` each key has exactly one row.
pub proof fn lemma_import_stores_every_key(st: StoreView, repo: Seq<char>, ps: Seq<RemoteView>)
    ensures
        forall|k: int|
            0 <= k < ps.len() ==> has_key(
                import(st, repo, ps).packages,
                repo,
                #[trigger] ps[k].pkg_id,
                ps[k].version,
            ),
        forall|id: Seq<char>, v: Seq<char>|
            has_key(st.packages, repo, id, v) ==> has_key(import(st, repo, ps).packages, repo, id, v),
{
    lemma_insert_all_keys(touch(st, repo), repo, ps);
    assert(touch(st, repo).packages == st.packages);
}

/// While an import runs, after any number of its descriptors, the
/// repository's freshness marker is empty, so an import cut short reads as
/// unfinished.
pub proof fn lemma_marker_empty_during_import(
    st: StoreView,
    repo: Seq<char>,
    ps: Seq<RemoteView>,
    k: int,
)
    requires
        store_wf(st),
        0 <= k <= ps.len(),
    ensures
        marker_of(insert_all(touch(st, repo), repo, ps.take(k)).repositories, repo) == Some(
            Seq::<char>::empty(),
        ),
{
    lemma_insert_all_keys(touch(st, repo), repo, ps.take(k));
    lemma_with_marker(st.repositories, repo, Seq::empty());
}

/// Two maintainers with one contact, linked to two packages in turn, leave
/// a single maintainer with that contact, and both links name it.
pub proof fn lemma_maintainer_dedup(
    st: StoreView,
    n1: Seq<char>,
    n2: Seq<char>,
    c: Seq<char>,
    p1: usize,
    p2: usize,
)
    requires
        store_wf(st),
    ensures
        ({
            let s2 = with_maintainer(with_maintainer(st, n1, c, p1), n2, c, p2);
            let id = registered_id(st.maintainers, c);
            &&& contacts_unique(s2.maintainers)
            &&& contact_at(s2.maintainers, c, id)
            &&& forall|j: int| contact_at(s2.maintainers, c, j) ==> j == id
            &&& s2.links.len() == st.links.len() + 2
            &&& s2.links[st.links.len() as int] == (id as usize, p1)
            &&& s2.links[st.links.len() + 1int] == (id as usize, p2)
        }),
{
    let ms = st.maintainers;
    let m1 = registered(ms, n1, c);
    let id = registered_id(ms, c);
    assert(contact_at(m1, c, id));
    assert(contacts_unique(m1)) by {
        if !exists|i: int| contact_at(ms, c, i) {
            assert forall|a: int, b: int|
                0 <= a < m1.len() && 0 <= b < m1.len() && m1[a].1 == m1[b].1 implies a == b by {
                if a < ms.len() && b == ms.len() {
                    assert(contact_at(ms, c, a));
                } else if b < ms.len() && a == ms.len() {
                    assert(contact_at(ms, c, b));
                }
            }
        }
    }
    assert(registered(m1, n2, c) == m1);
    let k = choose|i: int| contact_at(m1, c, i);
    assert(k == id);
    assert(registered_id(m1, c) == id);
}

} // verus!
