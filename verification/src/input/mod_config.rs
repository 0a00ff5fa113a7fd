//! The descriptor of a generated mod, as the manifest file states it.

use vstd::prelude::*;

verus! {

/// The fields the mod descriptor carries.
pub struct ModConfig {
    pub mod_id: String,
    pub name: String,
    pub description: String,
    pub version: String,
    pub authors: Vec<String>,
    pub license: String,
    pub minecraft_version: String,
    pub environment: ModEnvironment,
    pub entry_points: Vec<EntryPoint>,
}

/// Where a mod runs.
#[derive(Clone, Copy, Debug, PartialEq, Eq, Structural)]
pub enum ModEnvironment {
    Client,
    Server,
    Universal,
}

/// Which entry point a mod declares.
#[derive(Clone, Copy, Debug, PartialEq, Eq, Structural)]
pub enum EntryPoint {
    Main,
    Client,
    Server,
}

} // verus!
