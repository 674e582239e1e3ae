use ship_shape::semver::{is_at_least, parse_semver};

#[test]
fn semver_accepts_prefixes_and_prerelease_suffix() {
    assert_eq!(parse_semver("v1.2.3"), Some((1, 2, 3)));
    assert_eq!(parse_semver("V4.5.6"), Some((4, 5, 6)));
    assert_eq!(parse_semver("1.2.3-beta.1"), Some((1, 2, 3)));
}

#[test]
fn semver_defaults_missing_parts() {
    assert_eq!(parse_semver("1"), Some((1, 0, 0)));
    assert_eq!(parse_semver("1.2"), Some((1, 2, 0)));
}

#[test]
fn semver_rejects_empty_or_invalid() {
    assert_eq!(parse_semver(""), None);
    assert_eq!(parse_semver("not-a-version"), None);
    assert_eq!(parse_semver("v"), None);
    assert_eq!(parse_semver(".2.3"), None);
}

#[test]
fn semver_trims_whitespace() {
    assert_eq!(parse_semver("  v2.3.4  "), Some((2, 3, 4)));
}

#[test]
fn semver_ignores_extra_segments() {
    assert_eq!(parse_semver("1.2.3.99"), Some((1, 2, 3)));
}

#[test]
fn semver_skips_all_leading_letters() {
    assert_eq!(parse_semver("vVv7.8.9"), Some((7, 8, 9)));
    assert_eq!(parse_semver("v 1"), None);
}

#[test]
fn semver_looks_at_each_part_up_to_its_hyphen() {
    assert_eq!(parse_semver("1-a.2-b.3-c"), Some((1, 2, 3)));
    assert_eq!(parse_semver("1.2-rc"), Some((1, 2, 0)));
    assert_eq!(parse_semver("1.-2.3"), None);
    assert_eq!(parse_semver("1..3"), None);
}

#[test]
fn semver_reads_the_largest_numbers_and_no_larger() {
    assert_eq!(parse_semver("18446744073709551615.0.1"), Some((u64::MAX, 0, 1)));
    assert_eq!(parse_semver("18446744073709551616.0.1"), None);
    assert_eq!(parse_semver("+1.0"), Some((1, 0, 0)));
    assert_eq!(parse_semver("1.+"), None);
}

#[test]
fn versions_that_are_written_out_read_back() {
    for (a, b, c) in [(0u64, 0u64, 0u64), (1, 20, 300), (u64::MAX, 5, 10)] {
        assert_eq!(parse_semver(&format!("{a}.{b}.{c}")), Some((a, b, c)));
        assert_eq!(parse_semver(&format!("v{a}.{b}.{c}")), Some((a, b, c)));
    }
}

#[test]
fn versions_are_ordered_by_major_minor_and_patch() {
    assert!(is_at_least((1, 2, 3), (1, 2, 3)));
    assert!(is_at_least((1, 2, 4), (1, 2, 3)));
    assert!(!is_at_least((1, 2, 3), (1, 2, 4)));
    assert!(is_at_least((1, 3, 0), (1, 2, 9)));
    assert!(!is_at_least((1, 2, 9), (1, 3, 0)));
    assert!(is_at_least((2, 0, 0), (1, 9, 9)));
    assert!(!is_at_least((1, 9, 9), (2, 0, 0)));
}

#[test]
fn what_makes_no_difference_to_a_version() {
    for value in ["1", "1.2", "1.2.3", " v1.2.3", "", "v", "x"] {
        assert_eq!(parse_semver(&format!("\t{value}\u{2003}")), parse_semver(value));
        assert_eq!(parse_semver(&format!("{value}-rc1")), parse_semver(value));
    }
    for value in ["1", "V1.2", "1.2.3-a", "", "x"] {
        assert_eq!(parse_semver(&format!("v{value}")), parse_semver(value));
    }
    for value in ["1.2.3", "\tV1.2.3", "1.2.3.4", "1.2.x"] {
        assert_eq!(parse_semver(&format!("{value}.9.x")), parse_semver(value));
        assert_eq!(parse_semver(&format!("{value}-beta.1")), parse_semver(value));
    }
    assert_eq!(parse_semver("1.2-beta.1"), Some((1, 2, 1)));
}
