//! The launch-agent marker state machine.
//!
//! The durable on/off state of the background service is encoded as the
//! presence of one of two mutually exclusive marker files: the plist
//! itself ("active") and the same file under a `.disabled` suffix
//! ("parked").  The functions here take the two observed existence bits
//! and decide what the state is and which single atomic rename, if any,
//! a transition must perform.  The caller performs the rename and the
//! service-manager load/unload calls.

use vstd::prelude::*;
use crate::errors::ToggleError;

verus! {

/// The three-valued durable state of the service registration.
/// `Missing` means neither marker exists: an installation problem, not
/// a mode.
#[derive(Clone, Copy, Debug, PartialEq, Eq, Structural)]
pub enum LaunchAgentState {
    Enabled,
    Disabled,
    Missing,
}

/// The single filesystem action a marker transition asks for.
#[derive(Clone, Copy, Debug, PartialEq, Eq, Structural)]
pub enum MarkerAction {
    /// The target marker is already in place: log and do nothing.
    AlreadyInPlace,
    /// Atomically rename the active marker to the parked name.
    RenameActiveToParked,
    /// Atomically rename the parked marker to the active name.
    RenameParkedToActive,
}

/// What the two existence bits mean as a state.  The active marker
/// wins when, against the invariant, both exist.
pub open spec fn spec_agent_state(active_exists: bool, parked_exists: bool) -> LaunchAgentState {
    if active_exists {
        LaunchAgentState::Enabled
    } else if parked_exists {
        LaunchAgentState::Disabled
    } else {
        LaunchAgentState::Missing
    }
}

/// The intended invariant of the marker pair: at most one marker
/// exists at any time.
pub open spec fn spec_markers_exclusive(active_exists: bool, parked_exists: bool) -> bool {
    !(active_exists && parked_exists)
}

/// Derive the service state from the observed marker existence bits.
pub fn get_launch_agent_state(active_exists: bool, parked_exists: bool) -> (r: LaunchAgentState)
    ensures
        r == spec_agent_state(active_exists, parked_exists),
{
    if active_exists {
        LaunchAgentState::Enabled
    } else if parked_exists {
        LaunchAgentState::Disabled
    } else {
        LaunchAgentState::Missing
    }
}

/// Decide the disable transition from the observed marker bits: a
/// no-op when the parked marker already exists, a rename when only the
/// active marker exists, and an error when neither marker exists.
pub fn disable_launch_agent(active_exists: bool, parked_exists: bool) -> (r: Result<
    MarkerAction,
    ToggleError,
>)
    ensures
        parked_exists ==> r == Ok::<MarkerAction, ToggleError>(MarkerAction::AlreadyInPlace),
        !parked_exists && active_exists ==> r == Ok::<MarkerAction, ToggleError>(
            MarkerAction::RenameActiveToParked,
        ),
        !parked_exists && !active_exists ==> r == Err::<MarkerAction, ToggleError>(
            ToggleError::DiscoveryError,
        ),
{
    if parked_exists {
        Ok(MarkerAction::AlreadyInPlace)
    } else if active_exists {
        Ok(MarkerAction::RenameActiveToParked)
    } else {
        Err(ToggleError::DiscoveryError)
    }
}

/// Decide the enable transition: the exact mirror image of
/// `disable_launch_agent`.
pub fn enable_launch_agent(active_exists: bool, parked_exists: bool) -> (r: Result<
    MarkerAction,
    ToggleError,
>)
    ensures
        active_exists ==> r == Ok::<MarkerAction, ToggleError>(MarkerAction::AlreadyInPlace),
        !active_exists && parked_exists ==> r == Ok::<MarkerAction, ToggleError>(
            MarkerAction::RenameParkedToActive,
        ),
        !active_exists && !parked_exists ==> r == Err::<MarkerAction, ToggleError>(
            ToggleError::DiscoveryError,
        ),
{
    if active_exists {
        Ok(MarkerAction::AlreadyInPlace)
    } else if parked_exists {
        Ok(MarkerAction::RenameParkedToActive)
    } else {
        Err(ToggleError::DiscoveryError)
    }
}

/// The marker bits after the decided action is carried out by a single
/// atomic rename (or by doing nothing).
pub open spec fn spec_apply_marker_action(
    active_exists: bool,
    parked_exists: bool,
    action: MarkerAction,
) -> (bool, bool) {
    match action {
        MarkerAction::AlreadyInPlace => (active_exists, parked_exists),
        MarkerAction::RenameActiveToParked => (false, true),
        MarkerAction::RenameParkedToActive => (true, false),
    }
}

/// A successful disable decision, once its action is performed, always
/// lands the markers in the `Disabled` state and keeps the exclusivity
/// invariant.
pub proof fn lemma_disable_reaches_disabled(active_exists: bool, parked_exists: bool)
    requires
        spec_markers_exclusive(active_exists, parked_exists),
        active_exists || parked_exists,
    ensures
        ({
            let action = if parked_exists {
                MarkerAction::AlreadyInPlace
            } else {
                MarkerAction::RenameActiveToParked
            };
            let after = spec_apply_marker_action(active_exists, parked_exists, action);
            spec_agent_state(after.0, after.1) == LaunchAgentState::Disabled
                && spec_markers_exclusive(after.0, after.1)
        }),
{
}

/// A successful enable decision, once its action is performed, always
/// lands the markers in the `Enabled` state and keeps the exclusivity
/// invariant.
pub proof fn lemma_enable_reaches_enabled(active_exists: bool, parked_exists: bool)
    requires
        spec_markers_exclusive(active_exists, parked_exists),
        active_exists || parked_exists,
    ensures
        ({
            let action = if active_exists {
                MarkerAction::AlreadyInPlace
            } else {
                MarkerAction::RenameParkedToActive
            };
            let after = spec_apply_marker_action(active_exists, parked_exists, action);
            spec_agent_state(after.0, after.1) == LaunchAgentState::Enabled
                && spec_markers_exclusive(after.0, after.1)
        }),
{
}

} // verus!
