use fabric_scaffold::version::{parse_version, sort_versions, SemVer};

fn sort(input: &[&str]) -> Vec<String> {
    sort_versions(input.iter().map(|s| s.to_string()).collect())
}

#[test]
fn greater_version_comes_first() {
    assert_eq!(sort(&["1.20.4", "1.20.5"]), vec!["1.20.5", "1.20.4"]);
    assert_eq!(sort(&["1.20.5", "1.20.4"]), vec!["1.20.5", "1.20.4"]);
}

#[test]
fn numeric_order_not_lexical() {
    assert_eq!(sort(&["0.99.0", "0.100.0"]), vec!["0.100.0", "0.99.0"]);
    assert_eq!(sort(&["1.2.0", "1.10.0", "1.9.0"]), vec!["1.10.0", "1.9.0", "1.2.0"]);
}

#[test]
fn equal_versions_keep_input_order() {
    assert_eq!(sort(&["1.0.0", "1.0.0"]), vec!["1.0.0", "1.0.0"]);
    // Build metadata takes no part in precedence, so these tie and keep
    // their order.
    assert_eq!(sort(&["1.0.0+b", "1.0.0+a"]), vec!["1.0.0+b", "1.0.0+a"]);
}

#[test]
fn unparsable_versions_are_dropped() {
    assert_eq!(sort(&["24w14a", "1.20.4", "not a version"]), vec!["1.20.4"]);
    assert_eq!(sort(&["snapshot"]), Vec::<String>::new());
}

#[test]
fn prerelease_precedence_matches_the_specification() {
    // The worked example of the semantic-versioning specification,
    // shuffled, must come out in descending order.
    let shuffled = [
        "1.0.0-alpha.1",
        "1.0.0",
        "1.0.0-beta.11",
        "1.0.0-alpha",
        "1.0.0-rc.1",
        "1.0.0-beta.2",
        "1.0.0-alpha.beta",
        "1.0.0-beta",
    ];
    let expected = vec![
        "1.0.0",
        "1.0.0-rc.1",
        "1.0.0-beta.11",
        "1.0.0-beta.2",
        "1.0.0-beta",
        "1.0.0-alpha.beta",
        "1.0.0-alpha.1",
        "1.0.0-alpha",
    ];
    assert_eq!(sort(&shuffled), expected);
}

#[test]
fn parse_version_reads_the_core() {
    let v: SemVer = parse_version("1.20.4").unwrap();
    assert_eq!(v.major, 1);
    assert_eq!(v.minor, 20);
    assert_eq!(v.patch, 4);
    assert!(v.pre.is_empty());
}

#[test]
fn parse_version_rejects_non_versions() {
    assert!(parse_version("").is_none());
    assert!(parse_version("1.2").is_none());
    assert!(parse_version("24w14a").is_none());
    assert!(parse_version("1.2.3.4").is_none());
}

#[test]
fn prerelease_is_split_into_identifiers() {
    let v = parse_version("1.0.0-alpha.7").unwrap();
    assert_eq!(v.pre.len(), 2);
}
