//! The names under which the application goes.

use vstd::prelude::*;

verus! {

/// The application's name.
pub const APP_NAME: &'static str = "git-forest";

/// The channel of releases that updates are looked for in.
pub const VERSION_CHANNEL: &'static str = "stable";

/// The command as the user types it.
pub const CMD: &'static str = "git forest";

/// Where the latest version is asked for.
pub const VERSION_CHECK_BASE_URL: &'static str = "https://forest.dliv.gg/api/latest";

/// The argument that makes the program look for an update and do nothing
/// else.
pub const INTERNAL_VERSION_CHECK_ARG: &'static str = "--internal-version-check";

} // verus!
