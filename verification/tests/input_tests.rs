use fabric_scaffold::input::gradle_dsl::GradleDsl;
use fabric_scaffold::input::maven_group::{validate_maven_group, GroupValidation};
use fabric_scaffold::input::project_location::{sanitize_mod_name, ProjectLocation};

#[test]
fn maven_group_accepts_a_plain_group() {
    assert_eq!(validate_maven_group("com.example"), GroupValidation::Valid);
    assert_eq!(validate_maven_group("net.fabricmc"), GroupValidation::Valid);
    assert_eq!(validate_maven_group("single"), GroupValidation::Valid);
}

#[test]
fn maven_group_rejects_the_empty_string() {
    assert_eq!(validate_maven_group(""), GroupValidation::Empty);
}

#[test]
fn maven_group_rejects_edge_dots() {
    assert_eq!(validate_maven_group(".com.example"), GroupValidation::EdgeDot);
    assert_eq!(validate_maven_group("com.example."), GroupValidation::EdgeDot);
}

#[test]
fn maven_group_rejects_bad_characters() {
    assert_eq!(validate_maven_group("com.ex@mple"), GroupValidation::InvalidChar);
    assert_eq!(validate_maven_group("com example"), GroupValidation::InvalidChar);
}

#[test]
fn rejection_messages_name_the_rule() {
    assert!(!GroupValidation::Empty.message().is_empty());
    assert!(!GroupValidation::InvalidChar.message().is_empty());
    assert!(!GroupValidation::EdgeDot.message().is_empty());
    assert!(GroupValidation::Valid.message().is_empty());
}

#[test]
fn sanitize_mod_name_keeps_alphanumerics() {
    assert_eq!(sanitize_mod_name("My Mod! 2"), "MyMod2");
    assert_eq!(sanitize_mod_name("MyMod"), "MyMod");
    assert_eq!(sanitize_mod_name("!?."), "");
}

#[test]
fn location_validates_the_sanitized_name() {
    let good = ProjectLocation { mod_name: "MyMod2".to_string(), path: "MyMod2".to_string() };
    assert!(good.validate());
    let empty = ProjectLocation { mod_name: String::new(), path: String::new() };
    assert!(!empty.validate());
    let spaced = ProjectLocation { mod_name: "My Mod".to_string(), path: "My Mod".to_string() };
    assert!(!spaced.validate());
    // A non-ASCII alphanumeric survives sanitizing but fails validation.
    let accented = ProjectLocation { mod_name: sanitize_mod_name("Modé"), path: String::new() };
    assert!(!accented.validate());
}

#[test]
fn dsl_names() {
    assert_eq!(GradleDsl::Groovy.as_str(), "groovy");
    assert_eq!(GradleDsl::Kotlin.as_str(), "kotlin");
}
