use soar_core::link::{asset_without_asking, first_stable_release, github_user_repo};

#[test]
fn recognises_github_links() {
    assert_eq!(github_user_repo("https://github.com/pkgforge/soar"), Some("pkgforge/soar".to_string()));
    assert_eq!(github_user_repo("http://github.com/a/b"), Some("a/b".to_string()));
    assert_eq!(github_user_repo("github.com/a/b"), Some("a/b".to_string()));
    assert_eq!(github_user_repo("github:a/b"), Some("a/b".to_string()));
    assert_eq!(github_user_repo("github/a/b"), Some("a/b".to_string()));
    assert_eq!(github_user_repo("github.com:a/b"), Some("a/b".to_string()));
}

#[test]
fn rejects_other_links() {
    assert_eq!(github_user_repo("https://gitlab.com/a/b"), None);
    assert_eq!(github_user_repo("https://github.com/a"), None);
    assert_eq!(github_user_repo("https://github.com/a/b/c"), None);
    assert_eq!(github_user_repo("https://github.com//b"), None);
    assert_eq!(github_user_repo("https://github.com/a/"), None);
    assert_eq!(github_user_repo("https://github.comx/a/b"), None);
    assert_eq!(github_user_repo(""), None);
}

#[test]
fn release_and_asset_choice() {
    assert_eq!(first_stable_release(&vec![true, false, false]), Some(1));
    assert_eq!(first_stable_release(&vec![true, true]), None);
    assert_eq!(first_stable_release(&vec![]), None);
    assert_eq!(asset_without_asking(1, false), Some(0));
    assert_eq!(asset_without_asking(3, true), Some(0));
    assert_eq!(asset_without_asking(3, false), None);
    assert_eq!(asset_without_asking(0, true), None);
}
