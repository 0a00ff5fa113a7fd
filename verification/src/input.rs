//! The validated answer set and the per-question validation rules.

pub mod gradle_dsl;
pub mod maven_group;
pub mod mod_config;
pub mod project_location;

use vstd::prelude::*;

use self::gradle_dsl::GradleDsl;
use self::project_location::ProjectLocation;

verus! {

/// Everything the prompts collect, fully populated before any file is
/// planned and never changed afterwards.
pub struct UserInput {
    pub location: ProjectLocation,
    pub maven_group: String,
    pub gradle_dsl: GradleDsl,
    pub minecraft_version: String,
    pub yarn_version: String,
    pub fabric_loader_version: String,
    pub fabric_api_version: String,
    pub version: String,
    pub description: String,
    pub author: String,
    pub license: String,
    pub git: bool,
}

} // verus!
