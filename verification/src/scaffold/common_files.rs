//! The static repository bookkeeping files copied into every project.

use vstd::prelude::*;
use vstd::string::*;

use crate::scaffold::{actions_view, Action, ActionV};

verus! {

/// The ignore and attributes files, copied from the bundle to the root.
pub open spec fn common_plan() -> Seq<ActionV> {
    seq![
        ActionV::CopyAsset {
            source: "common/.gitignore.template"@,
            dest: ".gitignore"@,
        },
        ActionV::CopyAsset {
            source: "common/.gitattributes.template"@,
            dest: ".gitattributes"@,
        },
    ]
}

/// The actions that copy the bookkeeping files.
pub fn copy() -> (r: Vec<Action>)
    ensures
        actions_view(r@) == common_plan(),
{
    let mut r: Vec<Action> = Vec::new();
    r.push(
        Action::CopyAsset {
            source: String::from_str("common/.gitignore.template"),
            dest: String::from_str(".gitignore"),
        },
    );
    r.push(
        Action::CopyAsset {
            source: String::from_str("common/.gitattributes.template"),
            dest: String::from_str(".gitattributes"),
        },
    );
    proof {
        assert(actions_view(r@) =~= common_plan());
    }
    r
}

} // verus!
