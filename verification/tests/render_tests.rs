use fabric_scaffold::render::render;

fn subs(pairs: &[(&str, &str)]) -> Vec<(String, String)> {
    pairs.iter().map(|(a, b)| (a.to_string(), b.to_string())).collect()
}

#[test]
fn replaces_a_single_token() {
    let r = render("hello ${NAME}!", &subs(&[("${NAME}", "world")]));
    assert_eq!(r, "hello world!");
}

#[test]
fn replaces_every_occurrence() {
    let r = render("${X}-${X}-${X}", &subs(&[("${X}", "a")]));
    assert_eq!(r, "a-a-a");
}

#[test]
fn unknown_tokens_pass_through_unchanged() {
    let r = render("${KNOWN} and ${UNKNOWN}", &subs(&[("${KNOWN}", "v")]));
    assert_eq!(r, "v and ${UNKNOWN}");
}

#[test]
fn substitutions_apply_in_order() {
    let r = render("${A}", &subs(&[("${A}", "${B}"), ("${B}", "done")]));
    assert_eq!(r, "done");
}

#[test]
fn replacement_is_leftmost_and_non_overlapping() {
    let r = render("aaa", &subs(&[("aa", "b")]));
    assert_eq!(r, "ba");
}

#[test]
fn empty_template_stays_empty() {
    let r = render("", &subs(&[("${X}", "y")]));
    assert_eq!(r, "");
}

#[test]
fn no_substitutions_is_the_identity() {
    let r = render("plain ${TEXT}", &subs(&[]));
    assert_eq!(r, "plain ${TEXT}");
}
