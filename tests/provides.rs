use soar_core::models::{PackageProvide, ProvideStrategy};
use soar_core::provide::{is_attributable, retain_attributable};

#[test]
fn parses_plain_name() {
    let p = PackageProvide::from_string("vim");
    assert_eq!(p.name, "vim");
    assert_eq!(p.target_name, None);
    assert_eq!(p.strategy, ProvideStrategy::NoAlias);
    assert_eq!(p.to_string(), "vim");
}

#[test]
fn parses_keep_both() {
    let p = PackageProvide::from_string("vim==vi");
    assert_eq!(p.name, "vim");
    assert_eq!(p.target_name.as_deref(), Some("vi"));
    assert_eq!(p.strategy, ProvideStrategy::KeepBoth);
    assert_eq!(p.to_string(), "vim==vi");
}

#[test]
fn parses_keep_target_only() {
    let p = PackageProvide::from_string("vim=>vi");
    assert_eq!(p.name, "vim");
    assert_eq!(p.target_name.as_deref(), Some("vi"));
    assert_eq!(p.strategy, ProvideStrategy::KeepTargetOnly);
    assert_eq!(p.to_string(), "vim=>vi");
}

#[test]
fn parses_alias() {
    let p = PackageProvide::from_string("vim:vi");
    assert_eq!(p.name, "vim");
    assert_eq!(p.target_name.as_deref(), Some("vi"));
    assert_eq!(p.strategy, ProvideStrategy::Alias);
    assert_eq!(p.to_string(), "vim:vi");
}

#[test]
fn keep_both_wins_over_later_delimiters() {
    let p = PackageProvide::from_string("a:b==c=>d");
    assert_eq!(p.name, "a:b");
    assert_eq!(p.target_name.as_deref(), Some("c=>d"));
    assert_eq!(p.strategy, ProvideStrategy::KeepBoth);
    assert_eq!(p.to_string(), "a:b==c=>d");
}

#[test]
fn splits_at_first_occurrence() {
    let p = PackageProvide::from_string("a:b:c");
    assert_eq!(p.name, "a");
    assert_eq!(p.target_name.as_deref(), Some("b:c"));
    let q = PackageProvide::from_string("x==y==z");
    assert_eq!(q.name, "x");
    assert_eq!(q.target_name.as_deref(), Some("y==z"));
}

#[test]
fn strategy_delimiters() {
    assert_eq!(ProvideStrategy::KeepBoth.to_string(), "==");
    assert_eq!(ProvideStrategy::KeepTargetOnly.to_string(), "=>");
    assert_eq!(ProvideStrategy::Alias.to_string(), ":");
    assert_eq!(ProvideStrategy::NoAlias.to_string(), "");
    assert_eq!(ProvideStrategy::default(), ProvideStrategy::NoAlias);
}

#[test]
fn ownership_filtering() {
    assert!(!is_attributable("emacs=>editor", "vim"));
    assert!(is_attributable("vim=>editor", "vim"));
    assert!(is_attributable("vim", "vim"));
    assert!(!is_attributable("vi", "vim"));
    assert!(is_attributable("vim:v", "vim"));
    assert!(!is_attributable("vim2:v", "vim"));
}

#[test]
fn filters_provide_list() {
    let list = vec![
        "emacs=>editor".to_string(),
        "vim=>editor".to_string(),
        "vim".to_string(),
        "nano".to_string(),
    ];
    let strings = retain_attributable(&list, "vim");
    let kept: Vec<PackageProvide> = strings.iter().map(|p| PackageProvide::from_string(p)).collect();
    assert_eq!(kept.len(), 2);
    assert_eq!(kept[0].name, "vim");
    assert_eq!(kept[0].target_name.as_deref(), Some("editor"));
    assert_eq!(kept[0].strategy, ProvideStrategy::KeepTargetOnly);
    assert_eq!(kept[1].name, "vim");
    assert_eq!(kept[1].strategy, ProvideStrategy::NoAlias);
    assert_eq!(strings, vec!["vim=>editor".to_string(), "vim".to_string()]);
}
