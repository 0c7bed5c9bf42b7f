//! Discovery of the fixed, well-known names and paths the tool works
//! with: the application bundle, the launch-agent marker files, and
//! the extension identifiers.
//!
//! Whether a path exists on disk is an observation the caller makes;
//! the functions here construct the paths and decide between the
//! candidates from the observed existence bits.

use vstd::prelude::*;
use vstd::string::*;
use crate::errors::ToggleError;

verus! {

/// The fixed extension identifiers registered by the application, in
/// the fixed order every snapshot reports them in.
pub open spec fn spec_bundle_id(i: int) -> Seq<char> {
    if i == 0 {
        "com.getdropbox.dropbox.fileprovider"@
    } else if i == 1 {
        "com.getdropbox.dropbox.TransferExtension"@
    } else {
        "com.getdropbox.dropbox.garcon"@
    }
}

/// The number of fixed extension identifiers.
pub const BUNDLE_ID_COUNT: usize = 3;

/// The identifier exempted from the ON convergence check: the legacy
/// non-file-provider extension, whose reported state is known to be
/// inconsistent and is not load-bearing for the ON determination.
pub open spec fn spec_exempt_bundle_id() -> Seq<char> {
    "com.getdropbox.dropbox.garcon"@
}

/// The fixed extension identifiers, as owned strings.
pub fn dropbox_bundle_ids() -> (r: Vec<String>)
    ensures
        r@.len() == BUNDLE_ID_COUNT,
        forall|i: int| 0 <= i < r@.len() ==> r@[i]@ == spec_bundle_id(i),
{
    let mut v: Vec<String> = Vec::new();
    v.push(String::from_str("com.getdropbox.dropbox.fileprovider"));
    v.push(String::from_str("com.getdropbox.dropbox.TransferExtension"));
    v.push(String::from_str("com.getdropbox.dropbox.garcon"));
    v
}

/// The exempted identifier, as a string slice.
pub fn exempt_bundle_id() -> (r: &'static str)
    ensures
        r@ == spec_exempt_bundle_id(),
{
    "com.getdropbox.dropbox.garcon"
}

/// The system-wide install location of the application bundle.
pub open spec fn spec_system_app_path() -> Seq<char> {
    "/Applications/Dropbox.app"@
}

/// The per-user install location of the application bundle.
pub open spec fn spec_user_app_path(home: Seq<char>) -> Seq<char> {
    home + "/Applications/Dropbox.app"@
}

/// Pick the application bundle path: the system-wide location wins,
/// the per-user location is the fallback, and neither existing is a
/// discovery failure.
pub fn find_dropbox_app(home: &str, system_exists: bool, user_exists: bool) -> (r: Result<
    String,
    ToggleError,
>)
    ensures
        system_exists ==> (r matches Ok(p) && p@ == spec_system_app_path()),
        !system_exists && user_exists ==> (r matches Ok(p) && p@ == spec_user_app_path(home@)),
        !system_exists && !user_exists ==> r == Err::<String, ToggleError>(
            ToggleError::DiscoveryError,
        ),
{
    if system_exists {
        Ok(String::from_str("/Applications/Dropbox.app"))
    } else if user_exists {
        let mut p = String::from_str(home);
        p.append("/Applications/Dropbox.app");
        Ok(p)
    } else {
        Err(ToggleError::DiscoveryError)
    }
}

/// The active launch-agent marker: the plist under the user's
/// launch-agent directory.
pub open spec fn spec_launch_agent_path(home: Seq<char>) -> Seq<char> {
    home + "/Library/LaunchAgents/com.dropbox.DropboxMacUpdate.agent.plist"@
}

/// The parked marker: the same file name with the fixed suffix
/// appended.
pub open spec fn spec_launch_agent_disabled_path(home: Seq<char>) -> Seq<char> {
    spec_launch_agent_path(home) + ".disabled"@
}

/// Build the active marker path under the given home directory.
pub fn get_launch_agent_path(home: &str) -> (r: String)
    ensures
        r@ == spec_launch_agent_path(home@),
{
    let mut p = String::from_str(home);
    p.append("/Library/LaunchAgents/com.dropbox.DropboxMacUpdate.agent.plist");
    p
}

/// Build the parked marker path under the given home directory.
pub fn get_launch_agent_disabled_path(home: &str) -> (r: String)
    ensures
        r@ == spec_launch_agent_disabled_path(home@),
{
    let mut p = get_launch_agent_path(home);
    p.append(".disabled");
    p
}

} // verus!
