use fabric_scaffold::utils::{get_java_version, sanitize_mod_id, str_eq};

#[test]
fn java_version_thresholds() {
    assert_eq!(get_java_version("1.20.5"), Some("21"));
    assert_eq!(get_java_version("1.20.4"), Some("17"));
    assert_eq!(get_java_version("1.17.0"), Some("17"));
    assert_eq!(get_java_version("1.16.5"), Some("8"));
}

#[test]
fn java_version_above_and_below() {
    assert_eq!(get_java_version("1.21.0"), Some("21"));
    assert_eq!(get_java_version("2.0.0"), Some("21"));
    assert_eq!(get_java_version("1.0.0"), Some("8"));
    // A prerelease of the threshold comes before the threshold itself.
    assert_eq!(get_java_version("1.20.5-rc.1"), Some("17"));
}

#[test]
fn java_version_needs_a_semantic_version() {
    assert_eq!(get_java_version("24w14a"), None);
    assert_eq!(get_java_version(""), None);
}

#[test]
fn sanitize_mod_id_lowercases_and_filters() {
    assert_eq!(sanitize_mod_id("My Mod! 2"), "mymod2");
    assert_eq!(sanitize_mod_id("MyMod"), "mymod");
    assert_eq!(sanitize_mod_id("my_mod"), "my_mod");
    assert_eq!(sanitize_mod_id(""), "");
    assert_eq!(sanitize_mod_id("!!!"), "");
}

#[test]
fn str_eq_compares_characters() {
    assert!(str_eq("abc", "abc"));
    assert!(!str_eq("abc", "abd"));
    assert!(!str_eq("abc", "ab"));
    assert!(str_eq("", ""));
}
