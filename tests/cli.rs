use soar_core::cli::{estimated_download_size, get_valid_selection, has_no_desktop_integration};

#[test]
fn selection_in_range() {
    assert_eq!(get_valid_selection("1", 3), Some(0));
    assert_eq!(get_valid_selection("3", 3), Some(2));
    assert_eq!(get_valid_selection("+2", 3), Some(1));
}

#[test]
fn selection_out_of_range_or_invalid() {
    assert_eq!(get_valid_selection("0", 3), None);
    assert_eq!(get_valid_selection("4", 3), None);
    assert_eq!(get_valid_selection("x", 3), None);
    assert_eq!(get_valid_selection("", 3), None);
    assert_eq!(get_valid_selection("-1", 3), None);
    assert_eq!(get_valid_selection("99999999999999999999999", 3), None);
}

#[test]
fn desktop_integration_rules() {
    let notes = vec!["plain".to_string(), "has NO_DESKTOP_INTEGRATION set".to_string()];
    let other = vec!["plain".to_string()];
    assert!(has_no_desktop_integration(false, None));
    assert!(!has_no_desktop_integration(true, None));
    assert!(has_no_desktop_integration(true, Some(&notes[..])));
    assert!(!has_no_desktop_integration(true, Some(&other[..])));
}

#[test]
fn download_size_estimate() {
    let sizes = vec![(Some(10), Some(5)), (None, Some(7)), (None, None)];
    assert_eq!(estimated_download_size(&sizes), 17);
    let big = vec![(Some(u64::MAX), None), (Some(1), None)];
    assert_eq!(estimated_download_size(&big), u64::MAX);
    assert_eq!(estimated_download_size(&vec![]), 0);
}
