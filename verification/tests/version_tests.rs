use prismarine::error::PackError;
use prismarine::version::{get_format, get_pack_formats, PackFormatVer};

#[test]
fn table_has_thirteen_rows_in_order() {
    let rows = get_pack_formats();
    assert_eq!(rows.len(), 13);
    let expected: Vec<(&str, &str, i32)> = vec![
        ("1.6.1", "1.8.9", 1),
        ("1.9", "1.10.2", 2),
        ("1.11", "1.12.2", 3),
        ("1.13", "1.14.4", 4),
        ("1.15", "1.16.1", 5),
        ("1.16.2", "1.16.5", 6),
        ("1.17", "1.17.1", 7),
        ("1.18", "1.18.2", 8),
        ("1.19", "1.19.2", 9),
        ("1.19.3", "1.19.3", 12),
        ("1.19.4", "1.19.4", 13),
        ("1.20", "1.20.1", 15),
        ("1.20.2", "1.20.2", 18),
    ];
    for (row, (min_v, max_v, code)) in rows.iter().zip(expected.iter()) {
        assert_eq!(row.min_ver.as_str(), *min_v);
        assert_eq!(row.max_ver.as_str(), *max_v);
        assert_eq!(row.format_ver, *code);
    }
}

#[test]
fn format_codes_increase_along_the_table() {
    let rows = get_pack_formats();
    for pair in rows.windows(2) {
        assert!(pair[0].format_ver < pair[1].format_ver);
    }
}

#[test]
fn capability_flags_follow_format_code() {
    let low = PackFormatVer::new("1.6.1", "1.8.9", 1);
    assert!(!low.supports_filter);
    assert!(!low.supports_supported_formats);
    assert!(!low.supports_overlays);

    let mid = PackFormatVer::new("1.19", "1.19.2", 9);
    assert!(mid.supports_filter);
    assert!(!mid.supports_supported_formats);
    assert!(!mid.supports_overlays);

    let high = PackFormatVer::new("1.20.2", "1.20.2", 18);
    assert!(high.supports_filter);
    assert!(high.supports_supported_formats);
    assert!(high.supports_overlays);
}

#[test]
fn every_range_boundary_resolves_to_its_code() {
    for row in get_pack_formats() {
        assert_eq!(get_format(row.min_ver.clone()), Ok(row.format_ver));
        assert_eq!(get_format(row.max_ver.clone()), Ok(row.format_ver));
    }
}

#[test]
fn below_lowest_and_above_highest_are_not_found() {
    assert_eq!(get_format("1.6".to_string()), Err(PackError::InvalidVersion));
    assert_eq!(get_format("1.20.3".to_string()), Err(PackError::InvalidVersion));
}

#[test]
fn versions_in_table_gaps_are_not_found() {
    assert_eq!(get_format("1.19.5".to_string()), Err(PackError::InvalidVersion));
}

#[test]
fn oversized_numeric_segments_are_unusable() {
    // Nineteen digits in a row would overflow the comparison's 64-bit
    // segment parsing, so such versions are rejected outright.
    assert_eq!(
        get_format("9999999999999999999".to_string()),
        Err(PackError::InvalidVersion)
    );
    assert_eq!(
        get_format("1.9999999999999999999.1".to_string()),
        Err(PackError::InvalidVersion)
    );
}

#[test]
fn interior_versions_resolve() {
    assert_eq!(get_format("1.7.10".to_string()), Ok(1));
    assert_eq!(get_format("1.16.3".to_string()), Ok(6));
    assert_eq!(get_format("1.20.1".to_string()), Ok(15));
}

#[test]
fn adjacent_patch_versions_get_different_codes() {
    let newer = get_format("1.19.3".to_string()).unwrap();
    let older = get_format("1.19.2".to_string()).unwrap();
    assert_eq!(newer, 12);
    assert_eq!(older, 9);
    assert_ne!(newer, older);
}

#[test]
fn release_candidate_orders_below_its_release() {
    // 1.20-rc1 lies above 1.19.4 but below 1.20, so no range holds it,
    // while the bare release resolves.
    assert_eq!(get_format("1.20-rc1".to_string()), Err(PackError::InvalidVersion));
    assert_eq!(get_format("1.20".to_string()), Ok(15));
    // The same holds of a pre-release against its release boundary.
    assert_eq!(get_format("1.16.2-pre1".to_string()), Err(PackError::InvalidVersion));
    assert_eq!(get_format("1.16.2".to_string()), Ok(6));
}
