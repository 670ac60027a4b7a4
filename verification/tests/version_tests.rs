use scli::version::{is_newer, parse_ver};

#[test]
fn parses_a_v_tag() {
    assert_eq!(parse_ver("v1.2.3"), (1, 2, 3));
    assert_eq!(parse_ver("1.2.3"), (1, 2, 3));
}

#[test]
fn leading_v_does_not_change_the_version() {
    for t in ["0.4.1", "10.0", "2", "1.2.3-rc1", ""] {
        assert_eq!(parse_ver(&format!("v{t}")), parse_ver(t));
        assert_eq!(parse_ver(&format!(" {t}\n")), parse_ver(t));
    }
}

#[test]
fn missing_parts_are_zero() {
    assert_eq!(parse_ver("v2"), (2, 0, 0));
    assert_eq!(parse_ver("v2.5"), (2, 5, 0));
    assert_eq!(parse_ver(""), (0, 0, 0));
    assert_eq!(parse_ver("v"), (0, 0, 0));
}

#[test]
fn extra_parts_are_ignored() {
    assert_eq!(parse_ver("1.2.3.4"), (1, 2, 3));
    assert_eq!(parse_ver("v1.2.3-rc.1"), (1, 2, 3));
    assert_eq!(parse_ver("1.2.3+build.7"), (1, 2, 3));
}

#[test]
fn separators_split_parts() {
    assert_eq!(parse_ver("1-2+3"), (1, 2, 3));
    assert_eq!(parse_ver("1..3"), (1, 0, 3));
}

#[test]
fn whitespace_and_repeated_v_are_trimmed() {
    assert_eq!(parse_ver("  v1.2.3\n"), (1, 2, 3));
    assert_eq!(parse_ver("vv1.2.3"), (1, 2, 3));
    assert_eq!(parse_ver("V1.2.3"), (0, 2, 3));
}

#[test]
fn unparsable_parts_are_zero() {
    assert_eq!(parse_ver("v1.x.3"), (1, 0, 3));
    assert_eq!(parse_ver("1.2.3rc"), (1, 2, 0));
    assert_eq!(parse_ver("18446744073709551615.1"), (u64::MAX, 1, 0));
    assert_eq!(parse_ver("18446744073709551616.1"), (0, 1, 0));
    assert_eq!(parse_ver("1. 2.3"), (1, 0, 3));
}

#[test]
fn newer_compares_triples() {
    assert!(is_newer("v1.3.0", "1.2.9"));
    assert!(is_newer("v2.0.0", "1.99.99"));
    assert!(is_newer("v1.2.10", "1.2.9"));
    assert!(!is_newer("v1.2.3", "1.2.3"));
    assert!(!is_newer("v1.2.2", "1.2.3"));
    assert!(!is_newer("v1.2.3-rc1", "1.2.3"));
}

#[test]
fn no_version_is_newer_than_itself() {
    for v in ["0.0.0", "v1.2.3", "junk", "1.2.3.4"] {
        assert!(!is_newer(v, v));
    }
}

#[test]
fn newer_is_transitive() {
    assert!(is_newer("0.3.0", "0.2.0"));
    assert!(is_newer("0.2.0", "0.1.5"));
    assert!(is_newer("0.3.0", "0.1.5"));
}
