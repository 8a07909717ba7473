//! User settings and where they are kept.

use vstd::prelude::*;
use vstd::string::*;

use crate::session::CoreKind;

verus! {

/// What a user may set: the core new sessions use, a model, and a step limit.
pub struct CrustSettings {
    pub default_core: CoreKind,
    pub default_model: Option<String>,
    pub max_agent_steps: Option<u32>,
}

impl Default for CrustSettings {
    /// The general core, and no model or step limit of the user's own.
    fn default() -> (s: CrustSettings)
        ensures
            s.default_core == CoreKind::General,
            s.default_model is None,
            s.max_agent_steps is None,
    {
        CrustSettings { default_core: CoreKind::General, default_model: None, max_agent_steps: None }
    }
}

/// Where the settings file is.
pub struct SettingsManager {
    path: String,
}

impl SettingsManager {
    /// The file the settings are kept in.
    pub closed spec fn file(&self) -> Seq<char> {
        self.path@
    }

    /// Settings kept in the file at `path`.
    pub fn with_path(path: String) -> (m: SettingsManager)
        ensures
            m.file() == path@,
    {
        SettingsManager { path }
    }

    /// The file the settings are kept in.
    pub fn path(&self) -> (p: &String)
        ensures
            p@ == self.file(),
    {
        &self.path
    }
}

} // verus!
