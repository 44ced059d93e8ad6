//! The settings that the user interface reads and stores.

use vstd::prelude::*;

verus! {

/// Name of the settings file within the application's configuration
/// directory.
pub const SETTINGS_PATH: &'static str = "settings.json";

/// What the user has chosen.
#[derive(Clone, Copy, PartialEq, Eq, Debug)]
pub struct Settings {
    /// Whether the monitor is to run.
    pub enabled: bool,
}

impl Default for Settings {
    /// The settings of a fresh installation: the monitor is off.
    fn default() -> (settings: Settings)
        ensures
            !settings.enabled,
    {
        Settings { enabled: false }
    }
}

} // verus!
