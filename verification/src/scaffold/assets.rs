//! The asset directory of a generated project and its default icon.

use vstd::prelude::*;
use vstd::string::*;

use crate::input::UserInput;
use crate::scaffold::{actions_view, Action, ActionV};
use crate::utils::{mod_id_of, sanitize_mod_id};

verus! {

/// The asset directories, keyed by the mod identifier, and the icon
/// copied into them.
pub open spec fn assets_plan(input: UserInput) -> Seq<ActionV> {
    seq![
        ActionV::CreateDir { path: "src/main/resources/assets"@ },
        ActionV::CreateDir {
            path: "src/main/resources/assets/"@ + mod_id_of(input.location.mod_name@),
        },
        ActionV::CopyAsset {
            source: "common/icon.png"@,
            dest: "src/main/resources/assets/"@ + mod_id_of(input.location.mod_name@)
                + "/icon.png"@,
        },
    ]
}

/// The actions that create the asset directories and copy the icon.
pub fn create(input: &UserInput) -> (r: Vec<Action>)
    ensures
        actions_view(r@) == assets_plan(*input),
{
    let mod_id = sanitize_mod_id(input.location.mod_name.as_str());
    let mut r: Vec<Action> = Vec::new();
    r.push(Action::CreateDir { path: String::from_str("src/main/resources/assets") });
    let mut mod_dir = String::from_str("src/main/resources/assets/");
    mod_dir.append(mod_id.as_str());
    let mut icon_dest = mod_dir.clone();
    icon_dest.append("/icon.png");
    r.push(Action::CreateDir { path: mod_dir });
    r.push(
        Action::CopyAsset { source: String::from_str("common/icon.png"), dest: icon_dest },
    );
    proof {
        assert(actions_view(r@) =~= assets_plan(*input));
    }
    r
}

} // verus!
