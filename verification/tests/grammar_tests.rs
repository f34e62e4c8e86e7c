use prismarine::grammar::is_valid_version;

#[test]
fn plain_versions_are_valid() {
    assert!(is_valid_version("1"));
    assert!(is_valid_version("1.20"));
    assert!(is_valid_version("1.20.1"));
    assert!(is_valid_version("0.0.0"));
    assert!(is_valid_version("10.200.3000"));
}

#[test]
fn suffixed_versions_are_valid() {
    assert!(is_valid_version("1.20-rc1"));
    assert!(is_valid_version("1.20.2-pre2"));
    assert!(is_valid_version("1-rc10"));
}

#[test]
fn suffixes_need_at_least_one_digit() {
    assert!(!is_valid_version("1.20-rc"));
    assert!(!is_valid_version("1.20-pre"));
    assert!(!is_valid_version("1.8.9-rc"));
}

#[test]
fn malformed_versions_are_invalid() {
    assert!(!is_valid_version(""));
    assert!(!is_valid_version("abc"));
    assert!(!is_valid_version("1.2.3.4"));
    assert!(!is_valid_version("1..2"));
    assert!(!is_valid_version("1."));
    assert!(!is_valid_version(".1"));
    assert!(!is_valid_version("1.20-beta1"));
    assert!(!is_valid_version("1.20-rc1x"));
    assert!(!is_valid_version("1.20-"));
    assert!(!is_valid_version("1.20rc1"));
    assert!(!is_valid_version("v1.20"));
    assert!(!is_valid_version("1.20 "));
}
