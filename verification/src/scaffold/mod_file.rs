//! The rendered mod descriptor of a generated project.

use vstd::prelude::*;
use vstd::string::*;

use crate::input::UserInput;
use crate::render::{apply_subs, render, subs_view};
use crate::scaffold::{Action, ActionV, ScaffoldError};
use crate::utils::{get_java_version, mod_id_of, sanitize_mod_id};
use crate::version::version_of;

verus! {

/// The descriptor's substitutions, the derived Java version among them.
pub open spec fn mod_file_subs(input: UserInput, java: Seq<char>) -> Seq<(Seq<char>, Seq<char>)> {
    seq![
        ("${MAIN_CLASS}"@, input.location.mod_name@),
        ("${MOD_ID}"@, mod_id_of(input.location.mod_name@)),
        ("${PACKAGE}"@, input.maven_group@),
        ("${VERSION}"@, input.version@),
        ("${MOD_NAME}"@, input.location.mod_name@),
        ("${DESCRIPTION}"@, input.description@),
        ("${AUTHOR}"@, input.author@),
        ("${LICENSE}"@, input.license@),
        ("${MINECRAFT_VERSION}"@, input.minecraft_version@),
        ("${JAVA_VERSION}"@, java),
    ]
}

/// The write of the rendered descriptor.
pub open spec fn mod_file_plan(input: UserInput, template: Seq<char>, java: Seq<char>) -> ActionV {
    ActionV::WriteFile {
        path: "src/main/resources/fabric.mod.json"@,
        contents: apply_subs(template, mod_file_subs(input, java)),
    }
}

/// The action that writes the rendered descriptor. Fails exactly where
/// the chosen platform version is not a semantic version.
pub fn create(input: &UserInput, template: &str) -> (r: Result<Action, ScaffoldError>)
    ensures
        version_of(input.minecraft_version@) is Some ==> r is Ok && r->Ok_0@ == mod_file_plan(
            *input,
            template@,
            crate::utils::java_version_for(version_of(input.minecraft_version@)->0),
        ),
        version_of(input.minecraft_version@) is None ==> r is Err && r->Err_0
            == ScaffoldError::BadPlatformVersion,
{
    let java = match get_java_version(input.minecraft_version.as_str()) {
        Some(j) => j,
        None => {
            return Err(ScaffoldError::BadPlatformVersion);
        },
    };
    let mut subs: Vec<(String, String)> = Vec::new();
    subs.push((String::from_str("${MAIN_CLASS}"), input.location.mod_name.clone()));
    subs.push(
        (String::from_str("${MOD_ID}"), sanitize_mod_id(input.location.mod_name.as_str())),
    );
    subs.push((String::from_str("${PACKAGE}"), input.maven_group.clone()));
    subs.push((String::from_str("${VERSION}"), input.version.clone()));
    subs.push((String::from_str("${MOD_NAME}"), input.location.mod_name.clone()));
    subs.push((String::from_str("${DESCRIPTION}"), input.description.clone()));
    subs.push((String::from_str("${AUTHOR}"), input.author.clone()));
    subs.push((String::from_str("${LICENSE}"), input.license.clone()));
    subs.push((String::from_str("${MINECRAFT_VERSION}"), input.minecraft_version.clone()));
    subs.push((String::from_str("${JAVA_VERSION}"), String::from_str(java)));
    proof {
        assert(subs_view(subs@) =~= mod_file_subs(
            *input,
            crate::utils::java_version_for(version_of(input.minecraft_version@)->0),
        ));
    }
    let contents = render(template, &subs);
    Ok(Action::WriteFile { path: String::from_str("src/main/resources/fabric.mod.json"), contents })
}

} // verus!
