use fabric_scaffold::versions::{
    get_compatible_fabric_api_versions, get_compatible_yarn_versions, stable_versions, ApiEntry,
    YarnEntry,
};

fn yarn(game: &str, version: &str, stable: bool) -> YarnEntry {
    YarnEntry { game_version: game.to_string(), version: version.to_string(), stable }
}

fn api(version: &str, games: &[&str]) -> ApiEntry {
    ApiEntry {
        version_number: version.to_string(),
        game_versions: games.iter().map(|s| s.to_string()).collect(),
    }
}

#[test]
fn yarn_matches_are_exact_not_prefixes() {
    let entries = vec![
        yarn("1.20.4", "1.20.4+build.3", true),
        yarn("1.20.40", "1.20.40+build.1", true),
        yarn("1.20", "1.20+build.9", true),
        yarn("1.20.4", "1.20.4+build.1", true),
        yarn("1.20.41", "1.20.41+build.2", false),
    ];
    let compatible = get_compatible_yarn_versions(&entries, "1.20.4");
    assert_eq!(compatible, vec!["1.20.4+build.3", "1.20.4+build.1"]);
}

#[test]
fn yarn_results_are_sorted_descending() {
    let entries = vec![
        yarn("1.20.0", "1.20.0-rc.1", true),
        yarn("1.20.0", "1.21.3", true),
        yarn("1.20.0", "1.20.0", true),
    ];
    let compatible = get_compatible_yarn_versions(&entries, "1.20.0");
    assert_eq!(compatible, vec!["1.21.3", "1.20.0", "1.20.0-rc.1"]);
}

#[test]
fn build_metadata_takes_no_part_in_precedence() {
    // Versions that differ in build metadata alone tie, and ties keep
    // the catalog order.
    let entries = vec![
        yarn("1.20.4", "1.20.4+build.1", true),
        yarn("1.20.4", "1.20.4+build.10", true),
        yarn("1.20.4", "1.20.4+build.2", true),
    ];
    let compatible = get_compatible_yarn_versions(&entries, "1.20.4");
    assert_eq!(
        compatible,
        vec!["1.20.4+build.1", "1.20.4+build.10", "1.20.4+build.2"]
    );
}

#[test]
fn no_matching_yarn_gives_an_empty_list() {
    let entries = vec![yarn("1.20.4", "1.20.4+build.3", true)];
    assert!(get_compatible_yarn_versions(&entries, "1.20.5").is_empty());
}

#[test]
fn api_versions_filter_on_the_compatibility_set() {
    let entries = vec![
        api("0.91.0+1.20.4", &["1.20.4"]),
        api("0.92.0+1.20.4", &["1.20.4", "1.20.5"]),
        api("0.84.0+1.20.1", &["1.20.1"]),
    ];
    let compatible = get_compatible_fabric_api_versions(&entries, "1.20.4");
    assert_eq!(compatible, vec!["0.92.0+1.20.4", "0.91.0+1.20.4"]);
}

#[test]
fn api_versions_with_empty_sets_never_match() {
    let entries = vec![api("0.91.0", &[])];
    assert!(get_compatible_fabric_api_versions(&entries, "1.20.4").is_empty());
}

#[test]
fn stable_versions_keep_catalog_order() {
    let entries = vec![
        ("1.20.5".to_string(), true),
        ("24w14a".to_string(), false),
        ("1.20.4".to_string(), true),
    ];
    assert_eq!(stable_versions(&entries), vec!["1.20.5", "1.20.4"]);
}
