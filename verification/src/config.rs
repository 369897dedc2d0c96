//! The widget's saved preferences.

use vstd::prelude::*;

use crate::cookies::platform::{join_path, joined};

verus! {

/// The preferences saved between runs; each is absent until first saved.
pub struct Config {
    /// Seconds between usage refreshes.
    pub refresh_secs: Option<u64>,
    /// Whether the window stays above others.
    pub always_on_top: Option<bool>,
    /// Whether the window shows on every workspace.
    pub all_workspaces: Option<bool>,
    /// The executable that last showed the Chromium keychain explanation
    /// (macOS ties "Always Allow" to the binary's path).
    pub chromium_prompted_exe: Option<String>,
}

impl Config {
    /// A configuration with nothing saved.
    pub fn empty() -> (c: Config)
        ensures
            c.refresh_secs is None,
            c.always_on_top is None,
            c.all_workspaces is None,
            c.chromium_prompted_exe is None,
    {
        Config { refresh_secs: None, always_on_top: None, all_workspaces: None, chromium_prompted_exe: None }
    }
}

/// The configuration file `<app_dir>/config.json` within the platform's
/// configuration directory.
pub fn config_path(config_dir: Option<&str>, app_dir: &str, windows: bool) -> (r: Option<String>)
    ensures
        match config_dir {
            Some(d) => r matches Some(p) && p@ == joined(d@, app_dir@ + "/config.json"@, windows),
            None => r is None,
        },
{
    match config_dir {
        Some(d) => {
            let mut rel = app_dir.to_owned();
            rel.append("/config.json");
            Some(join_path(d, rel.as_str(), windows))
        },
        None => None,
    }
}

} // verus!
