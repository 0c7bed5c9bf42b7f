//! Tests for path discovery, the marker state machine, and snapshot
//! assembly.

use droponoff::discovery::{
    dropbox_bundle_ids, exempt_bundle_id, find_dropbox_app, get_launch_agent_disabled_path,
    get_launch_agent_path,
};
use droponoff::errors::ToggleError;
use droponoff::launchagent::{
    disable_launch_agent, enable_launch_agent, get_launch_agent_state, LaunchAgentState,
    MarkerAction,
};
use droponoff::status::get_status;

#[test]
fn launch_agent_paths_are_fixed_under_home() {
    let active = get_launch_agent_path("/Users/me");
    assert_eq!(
        active,
        "/Users/me/Library/LaunchAgents/com.dropbox.DropboxMacUpdate.agent.plist"
    );
    let parked = get_launch_agent_disabled_path("/Users/me");
    assert_eq!(
        parked,
        "/Users/me/Library/LaunchAgents/com.dropbox.DropboxMacUpdate.agent.plist.disabled"
    );
}

#[test]
fn app_discovery_prefers_the_system_location() {
    assert_eq!(
        find_dropbox_app("/Users/me", true, true),
        Ok(String::from("/Applications/Dropbox.app"))
    );
    assert_eq!(
        find_dropbox_app("/Users/me", false, true),
        Ok(String::from("/Users/me/Applications/Dropbox.app"))
    );
    assert_eq!(
        find_dropbox_app("/Users/me", false, false),
        Err(ToggleError::DiscoveryError)
    );
}

#[test]
fn marker_bits_decide_the_service_state() {
    assert_eq!(get_launch_agent_state(true, false), LaunchAgentState::Enabled);
    assert_eq!(get_launch_agent_state(false, true), LaunchAgentState::Disabled);
    assert_eq!(get_launch_agent_state(false, false), LaunchAgentState::Missing);
}

#[test]
fn disable_is_a_noop_when_already_parked() {
    assert_eq!(disable_launch_agent(false, true), Ok(MarkerAction::AlreadyInPlace));
    assert_eq!(disable_launch_agent(true, false), Ok(MarkerAction::RenameActiveToParked));
    assert_eq!(disable_launch_agent(false, false), Err(ToggleError::DiscoveryError));
}

#[test]
fn enable_mirrors_disable() {
    assert_eq!(enable_launch_agent(true, false), Ok(MarkerAction::AlreadyInPlace));
    assert_eq!(enable_launch_agent(false, true), Ok(MarkerAction::RenameParkedToActive));
    assert_eq!(enable_launch_agent(false, false), Err(ToggleError::DiscoveryError));
}

#[test]
fn rename_round_trip_restores_the_active_marker() {
    // Start enabled, apply the disable rename, then the enable
    // rename: the observed state is Enabled again and the markers
    // stay mutually exclusive throughout.
    let (mut active, mut parked) = (true, false);
    match disable_launch_agent(active, parked) {
        Ok(MarkerAction::RenameActiveToParked) => {
            active = false;
            parked = true;
        }
        other => panic!("expected a rename, got {:?}", other),
    }
    assert_eq!(get_launch_agent_state(active, parked), LaunchAgentState::Disabled);
    match enable_launch_agent(active, parked) {
        Ok(MarkerAction::RenameParkedToActive) => {
            active = true;
            parked = false;
        }
        other => panic!("expected a rename, got {:?}", other),
    }
    assert_eq!(get_launch_agent_state(active, parked), LaunchAgentState::Enabled);
}

#[test]
fn scratch_paths_follow_the_fixed_layout() {
    assert_eq!(
        droponoff::status::data_volume_home("/Users/me"),
        "/System/Volumes/Data/Users/me"
    );
    assert_eq!(
        droponoff::status::data_volume_home("Users/me"),
        "/System/Volumes/Data/Users/me"
    );
    assert_eq!(
        droponoff::status::scratch_root_mount("/System/Volumes/Data/Users/me"),
        "/System/Volumes/Data/Users/me/Library/Group Containers/G7HH3F8CAK.com.getdropbox.dropbox.sync/root-mount"
    );
}

#[test]
fn snapshot_holds_the_fixed_identifiers_in_order() {
    let ids = dropbox_bundle_ids();
    assert_eq!(
        ids,
        vec![
            String::from("com.getdropbox.dropbox.fileprovider"),
            String::from("com.getdropbox.dropbox.TransferExtension"),
            String::from("com.getdropbox.dropbox.garcon"),
        ]
    );
    assert_eq!(exempt_bundle_id(), "com.getdropbox.dropbox.garcon");

    // The second identifier is absent from the registry: the
    // snapshot still lists it, synthesized as not found.
    let listings = vec![
        String::from("+ com.getdropbox.dropbox.fileprovider(1.0)"),
        String::from(""),
        String::from("- com.getdropbox.dropbox.garcon(1.0)"),
    ];
    let status = get_status(None, Vec::new(), LaunchAgentState::Enabled, &listings);
    assert_eq!(status.extensions.len(), 3);
    assert_eq!(status.extensions[0].0, ids[0]);
    assert_eq!(status.extensions[1].0, ids[1]);
    assert_eq!(status.extensions[2].0, ids[2]);
    assert!(status.extensions[0].1.found && status.extensions[0].1.enabled);
    assert!(!status.extensions[1].1.found && !status.extensions[1].1.enabled);
    assert!(status.extensions[2].1.found && !status.extensions[2].1.enabled);
    assert_eq!(status.launch_agent_state, LaunchAgentState::Enabled);
    assert!(status.processes.is_empty());
    assert!(status.dropbox_app_path.is_none());
}
