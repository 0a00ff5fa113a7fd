//! The directory skeleton of a generated project.

use vstd::prelude::*;
use vstd::string::*;

use crate::input::UserInput;
use crate::scaffold::{actions_view, package_path, package_path_of, Action, ActionV};

verus! {

/// The source and resource directories, and the package directory the
/// entry point will live in.
pub open spec fn structure_plan(input: UserInput) -> Seq<ActionV> {
    seq![
        ActionV::CreateDir { path: "src/main/java"@ },
        ActionV::CreateDir { path: "src/main/resources"@ },
        ActionV::CreateDir { path: "src/test/java"@ },
        ActionV::CreateDir { path: "src/test/resources"@ },
        ActionV::CreateDir {
            path: "src/main/java/"@ + package_path_of(input.maven_group@),
        },
    ]
}

/// The actions that create the directory skeleton.
pub fn create(input: &UserInput) -> (r: Vec<Action>)
    ensures
        actions_view(r@) == structure_plan(*input),
{
    let mut r: Vec<Action> = Vec::new();
    r.push(Action::CreateDir { path: String::from_str("src/main/java") });
    r.push(Action::CreateDir { path: String::from_str("src/main/resources") });
    r.push(Action::CreateDir { path: String::from_str("src/test/java") });
    r.push(Action::CreateDir { path: String::from_str("src/test/resources") });
    let mut pkg_dir = String::from_str("src/main/java/");
    let pkg = package_path(input.maven_group.as_str());
    pkg_dir.append(pkg.as_str());
    r.push(Action::CreateDir { path: pkg_dir });
    proof {
        assert(actions_view(r@) =~= structure_plan(*input));
    }
    r
}

} // verus!
