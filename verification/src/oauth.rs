//! Where the command-line assistant keeps its OAuth credentials.

use vstd::prelude::*;

use crate::cookies::platform::{join_path, joined};

verus! {

/// The credentials file: `<oauth_dir>/.credentials.json` when a directory
/// is given, else `.credentials.json` in the assistant's directory
/// `tool_dir` under the home directory; none without either.
pub fn credentials_path(
    oauth_dir: Option<&str>,
    home: Option<&str>,
    tool_dir: &str,
    windows: bool,
) -> (r: Option<String>)
    ensures
        match oauth_dir {
            Some(d) => r matches Some(p) && p@ == joined(d@, ".credentials.json"@, windows),
            None => match home {
                Some(h) => r matches Some(p) && p@ == joined(
                    h@,
                    tool_dir@ + "/.credentials.json"@,
                    windows,
                ),
                None => r is None,
            },
        },
{
    match oauth_dir {
        Some(d) => Some(join_path(d, ".credentials.json", windows)),
        None => match home {
            Some(h) => {
                let mut rel = tool_dir.to_owned();
                rel.append("/.credentials.json");
                Some(join_path(h, rel.as_str(), windows))
            },
            None => None,
        },
    }
}

} // verus!
