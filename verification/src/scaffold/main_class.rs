//! The rendered source entry point of a generated project.

use vstd::prelude::*;
use vstd::string::*;

use crate::input::UserInput;
use crate::render::{apply_subs, render, subs_view};
use crate::scaffold::{package_path, package_path_of, Action, ActionV};
use crate::utils::{mod_id_of, sanitize_mod_id};

verus! {

/// Where the entry point is written: under the package path, named after
/// the mod.
pub open spec fn main_class_path(input: UserInput) -> Seq<char> {
    "src/main/java/"@ + package_path_of(input.maven_group@) + "/"@ + input.location.mod_name@
        + ".java"@
}

/// The entry point's substitutions: package, class name, mod identifier.
pub open spec fn main_class_subs(input: UserInput) -> Seq<(Seq<char>, Seq<char>)> {
    seq![
        ("${PACKAGE}"@, input.maven_group@),
        ("${CLASS_NAME}"@, input.location.mod_name@),
        ("${MOD_ID}"@, mod_id_of(input.location.mod_name@)),
    ]
}

/// The write of the rendered entry point.
pub open spec fn main_class_plan(input: UserInput, template: Seq<char>) -> ActionV {
    ActionV::WriteFile {
        path: main_class_path(input),
        contents: apply_subs(template, main_class_subs(input)),
    }
}

/// The action that writes the rendered source entry point.
pub fn create(input: &UserInput, template: &str) -> (r: Action)
    ensures
        r@ == main_class_plan(*input, template@),
{
    let mut subs: Vec<(String, String)> = Vec::new();
    subs.push((String::from_str("${PACKAGE}"), input.maven_group.clone()));
    subs.push((String::from_str("${CLASS_NAME}"), input.location.mod_name.clone()));
    subs.push(
        (String::from_str("${MOD_ID}"), sanitize_mod_id(input.location.mod_name.as_str())),
    );
    proof {
        assert(subs_view(subs@) =~= main_class_subs(*input));
    }
    let contents = render(template, &subs);
    let mut path = String::from_str("src/main/java/");
    let pkg = package_path(input.maven_group.as_str());
    path.append(pkg.as_str());
    path.append("/");
    path.append(input.location.mod_name.as_str());
    path.append(".java");
    Action::WriteFile { path, contents }
}

} // verus!
