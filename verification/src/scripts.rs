//! Script-repository vocabulary: the category of one script and the
//! repository's settings.

use vstd::prelude::*;

verus! {

/// The subject area of one administrative script.
#[derive(Debug, Clone, Copy, PartialEq, Eq, Structural)]
pub enum ScriptCategory {
    System,
    Network,
    Security,
    UserManagement,
    Maintenance,
    Custom,
}

/// The script repository's settings.
#[derive(Debug, Clone)]
pub struct ScriptsConfig {
    pub repository_path: String,
}

/// Settings wrapper holding the script repository's section.
#[derive(Debug, Clone)]
pub struct Config {
    pub scripts: ScriptsConfig,
}

} // verus!
