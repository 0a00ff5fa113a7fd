//! Verified core of a Fabric mod project scaffolder.
//!
//! The library holds the logic of the tool: semantic-version ordering and
//! catalog filtering, validation of user answers, template substitution,
//! and the materialization plan with its rollback rules. Interactive
//! prompts, HTTP fetches and filesystem work live outside the library and
//! exchange plain values with it.

pub mod input;
pub mod render;
pub mod scaffold;
pub mod utils;
pub mod version;
pub mod versions;
