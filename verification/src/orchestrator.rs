//! The convergence orchestrator: the fixed OFF and ON step sequences,
//! the convergence predicates over snapshots, the bounded-retry
//! verification combinator, and the laws relating a transition's
//! guaranteed effect to the snapshot it started from.
//!
//! Each step is carried out by the caller; the functions here decide
//! the order of the steps, which step failures abort the sequence,
//! and whether a sequence of observed snapshots counts as converged.

use vstd::prelude::*;
use crate::discovery::spec_exempt_bundle_id;
use crate::errors::{ToggleError, VerifyReport};
use crate::extensions::ExtensionStateView;
use crate::launchagent::LaunchAgentState;
use crate::status::{clean_scratch_files, spec_plan_files, spec_plan_skips, CleanupPlan, ScratchDir, Status, StatusView};
use crate::text::str_eq;

verus! {

/// How many snapshots a convergence verification examines at most.
pub const VERIFY_MAX_ATTEMPTS: usize = 5;

/// Milliseconds between two verification snapshots.
pub const VERIFY_DELAY_MS: u64 = 500;

/// Milliseconds between two process-listing polls while waiting.
pub const POLL_INTERVAL_MS: u64 = 100;

/// Seconds a process wait may take before it times out.
pub const WAIT_TIMEOUT_SECS: u64 = 10;

/// The snapshot counts as fully OFF: no process, the service parked,
/// and no extension reported enabled.
pub open spec fn spec_off_converged(s: StatusView) -> bool {
    &&& s.processes.len() == 0
    &&& s.launch_agent_state == LaunchAgentState::Disabled
    &&& forall|i: int| 0 <= i < s.extensions.len() ==> !(#[trigger] s.extensions[i]).1.enabled
}

/// The snapshot counts as fully ON: some process running, the service
/// active, and every extension enabled except the one exempted legacy
/// identifier, which the ON check deliberately ignores.
pub open spec fn spec_on_converged(s: StatusView) -> bool {
    &&& s.processes.len() > 0
    &&& s.launch_agent_state == LaunchAgentState::Enabled
    &&& forall|i: int|
        0 <= i < s.extensions.len() ==> ((#[trigger] s.extensions[i]).0 == spec_exempt_bundle_id()
            || s.extensions[i].1.enabled)
}

/// The OFF sub-conditions of one snapshot.
pub open spec fn spec_off_report(s: StatusView) -> VerifyReport {
    VerifyReport {
        processes_ok: s.processes.len() == 0,
        agent_ok: s.launch_agent_state == LaunchAgentState::Disabled,
        extensions_ok: forall|i: int|
            0 <= i < s.extensions.len() ==> !(#[trigger] s.extensions[i]).1.enabled,
    }
}

/// The ON sub-conditions of one snapshot.
pub open spec fn spec_on_report(s: StatusView) -> VerifyReport {
    VerifyReport {
        processes_ok: s.processes.len() > 0,
        agent_ok: s.launch_agent_state == LaunchAgentState::Enabled,
        extensions_ok: forall|i: int|
            0 <= i < s.extensions.len() ==> ((#[trigger] s.extensions[i]).0
                == spec_exempt_bundle_id() || s.extensions[i].1.enabled),
    }
}

/// Evaluate the OFF sub-conditions on one snapshot.
pub fn off_report(status: &Status) -> (r: VerifyReport)
    ensures
        r == spec_off_report(status@),
        r.spec_all_ok() == spec_off_converged(status@),
{
    let processes_ok = status.processes.len() == 0;
    let agent_ok = status.launch_agent_state == LaunchAgentState::Disabled;
    let mut extensions_ok = true;
    let mut i: usize = 0;
    while i < status.extensions.len()
        invariant
            0 <= i <= status.extensions@.len(),
            extensions_ok == (forall|j: int|
                0 <= j < i ==> !(#[trigger] status@.extensions[j]).1.enabled),
            status@.extensions.len() == status.extensions@.len(),
        decreases status.extensions@.len() - i,
    {
        proof {
            assert(status@.extensions[i as int] == (
                status.extensions@[i as int].0@,
                status.extensions@[i as int].1@,
            ));
        }
        if status.extensions[i].1.enabled {
            extensions_ok = false;
        }
        i += 1;
    }
    proof {
        assert(status@.processes.len() == status.processes@.len());
    }
    VerifyReport { processes_ok, agent_ok, extensions_ok }
}

/// Evaluate the ON sub-conditions on one snapshot.
pub fn on_report(status: &Status) -> (r: VerifyReport)
    ensures
        r == spec_on_report(status@),
        r.spec_all_ok() == spec_on_converged(status@),
{
    let processes_ok = status.processes.len() > 0;
    let agent_ok = status.launch_agent_state == LaunchAgentState::Enabled;
    let mut extensions_ok = true;
    let mut i: usize = 0;
    while i < status.extensions.len()
        invariant
            0 <= i <= status.extensions@.len(),
            extensions_ok == (forall|j: int|
                0 <= j < i ==> ((#[trigger] status@.extensions[j]).0 == spec_exempt_bundle_id()
                    || status@.extensions[j].1.enabled)),
            status@.extensions.len() == status.extensions@.len(),
        decreases status.extensions@.len() - i,
    {
        proof {
            assert(status@.extensions[i as int] == (
                status.extensions@[i as int].0@,
                status.extensions@[i as int].1@,
            ));
        }
        let exempt = str_eq(status.extensions[i].0.as_str(), crate::discovery::exempt_bundle_id());
        if !exempt && !status.extensions[i].1.enabled {
            extensions_ok = false;
        }
        i += 1;
    }
    proof {
        assert(status@.processes.len() == status.processes@.len());
    }
    VerifyReport { processes_ok, agent_ok, extensions_ok }
}

/// The two convergence goals the retry combinator can verify.
#[derive(Clone, Copy, Debug, PartialEq, Eq, Structural)]
pub enum VerifyGoal {
    Off,
    On,
}

pub open spec fn spec_goal_converged(goal: VerifyGoal, s: StatusView) -> bool {
    match goal {
        VerifyGoal::Off => spec_off_converged(s),
        VerifyGoal::On => spec_on_converged(s),
    }
}

pub open spec fn spec_goal_report(goal: VerifyGoal, s: StatusView) -> VerifyReport {
    match goal {
        VerifyGoal::Off => spec_off_report(s),
        VerifyGoal::On => spec_on_report(s),
    }
}

fn goal_report(goal: VerifyGoal, status: &Status) -> (r: VerifyReport)
    ensures
        r == spec_goal_report(goal, status@),
        r.spec_all_ok() == spec_goal_converged(goal, status@),
{
    match goal {
        VerifyGoal::Off => off_report(status),
        VerifyGoal::On => on_report(status),
    }
}

/// The bounded-retry verification combinator over a sequence of
/// observed snapshots, one per attempt.  It succeeds on the first
/// snapshot that satisfies the goal, reporting how many snapshots it
/// examined; after `max_attempts` failing snapshots it reports a
/// verification failure carrying the attempt count and the
/// sub-conditions still unsatisfied on the last attempt.  It observes
/// only: no attempt mutates any subsystem.
pub fn verify_with_retry(goal: VerifyGoal, observations: &Vec<Status>, max_attempts: usize) -> (r:
    Result<usize, ToggleError>)
    requires
        1 <= max_attempts,
        observations@.len() >= max_attempts,
    ensures
        (exists|j: int| 0 <= j < max_attempts && spec_goal_converged(goal, observations@[j]@))
            <==> r is Ok,
        r matches Ok(k) ==> 1 <= k <= max_attempts && spec_goal_converged(
            goal,
            observations@[k - 1]@,
        ) && forall|j: int| 0 <= j < k - 1 ==> !spec_goal_converged(goal, observations@[j]@),
        r matches Err(e) ==> e == ToggleError::VerificationFailure(
            max_attempts as usize,
            spec_goal_report(goal, observations@[max_attempts - 1]@),
        ) && forall|j: int| 0 <= j < max_attempts ==> !spec_goal_converged(goal, observations@[j]@),
{
    let mut attempt: usize = 0;
    let mut last_report = goal_report(goal, &observations[0]);
    if last_report.all_ok() {
        return Ok(1);
    }
    attempt = 1;
    while attempt < max_attempts
        invariant
            1 <= max_attempts,
            observations@.len() >= max_attempts,
            1 <= attempt <= max_attempts,
            forall|j: int| 0 <= j < attempt ==> !spec_goal_converged(goal, observations@[j]@),
            last_report == spec_goal_report(goal, observations@[attempt - 1]@),
        decreases max_attempts - attempt,
    {
        let report = goal_report(goal, &observations[attempt]);
        if report.all_ok() {
            return Ok(attempt + 1);
        }
        last_report = report;
        attempt += 1;
    }
    Err(ToggleError::VerificationFailure(max_attempts, last_report))
}

/// The steps of the OFF transition, in the only order they may run.
#[derive(Clone, Copy, Debug, PartialEq, Eq, Structural)]
pub enum OffStep {
    /// Ask the application to quit cooperatively.
    RequestQuit,
    /// Ask the service manager to stop the registered service.
    UnloadAgent,
    /// Park the service marker.
    DisableAgent,
    /// Disable every found extension.
    DisableExtensions,
    /// Restart the file-browser host so it releases provider bindings.
    RestartFileBrowser,
    /// Wait until no process outside the file-provider subset remains.
    AwaitCooperativeExit,
    /// Forcefully terminate the file-provider subset.
    TerminateFileProviders,
    /// Wait until no process at all remains.
    AwaitFullExit,
    /// Verify OFF convergence with the bounded retry.
    VerifyConverged,
}

/// The steps of the ON transition, in the only order they may run.
#[derive(Clone, Copy, Debug, PartialEq, Eq, Structural)]
pub enum OnStep {
    /// Restore the active service marker.
    EnableAgent,
    /// Register the service with the service manager.
    LoadAgent,
    /// Enable every found extension.
    EnableExtensions,
    /// Ask the OS to start the application by identity.
    LaunchApp,
    /// Wait until at least one process appears.
    AwaitStart,
    /// Verify ON convergence with the bounded retry.
    VerifyConverged,
}

/// The OFF sequence: strictly ordered, no step begins before the
/// previous one completed.
pub fn off_steps() -> (r: Vec<OffStep>)
    ensures
        r@ == seq![
            OffStep::RequestQuit,
            OffStep::UnloadAgent,
            OffStep::DisableAgent,
            OffStep::DisableExtensions,
            OffStep::RestartFileBrowser,
            OffStep::AwaitCooperativeExit,
            OffStep::TerminateFileProviders,
            OffStep::AwaitFullExit,
            OffStep::VerifyConverged,
        ],
{
    let mut v: Vec<OffStep> = Vec::new();
    v.push(OffStep::RequestQuit);
    v.push(OffStep::UnloadAgent);
    v.push(OffStep::DisableAgent);
    v.push(OffStep::DisableExtensions);
    v.push(OffStep::RestartFileBrowser);
    v.push(OffStep::AwaitCooperativeExit);
    v.push(OffStep::TerminateFileProviders);
    v.push(OffStep::AwaitFullExit);
    v.push(OffStep::VerifyConverged);
    proof {
        assert(v@ =~= seq![
            OffStep::RequestQuit,
            OffStep::UnloadAgent,
            OffStep::DisableAgent,
            OffStep::DisableExtensions,
            OffStep::RestartFileBrowser,
            OffStep::AwaitCooperativeExit,
            OffStep::TerminateFileProviders,
            OffStep::AwaitFullExit,
            OffStep::VerifyConverged,
        ]);
    }
    v
}

/// The ON sequence.
pub fn on_steps() -> (r: Vec<OnStep>)
    ensures
        r@ == seq![
            OnStep::EnableAgent,
            OnStep::LoadAgent,
            OnStep::EnableExtensions,
            OnStep::LaunchApp,
            OnStep::AwaitStart,
            OnStep::VerifyConverged,
        ],
{
    let mut v: Vec<OnStep> = Vec::new();
    v.push(OnStep::EnableAgent);
    v.push(OnStep::LoadAgent);
    v.push(OnStep::EnableExtensions);
    v.push(OnStep::LaunchApp);
    v.push(OnStep::AwaitStart);
    v.push(OnStep::VerifyConverged);
    proof {
        assert(v@ =~= seq![
            OnStep::EnableAgent,
            OnStep::LoadAgent,
            OnStep::EnableExtensions,
            OnStep::LaunchApp,
            OnStep::AwaitStart,
            OnStep::VerifyConverged,
        ]);
    }
    v
}

/// The OFF steps whose own failure is swallowed with a warning: the
/// cooperative quit request, the service unload, and the file-browser
/// restart.  Every other step's failure aborts the sequence.
pub open spec fn spec_off_step_best_effort(step: OffStep) -> bool {
    step is RequestQuit || step is UnloadAgent || step is RestartFileBrowser
}

pub fn off_step_is_best_effort(step: OffStep) -> (r: bool)
    ensures
        r == spec_off_step_best_effort(step),
{
    match step {
        OffStep::RequestQuit => true,
        OffStep::UnloadAgent => true,
        OffStep::RestartFileBrowser => true,
        _ => false,
    }
}

/// No ON step is best-effort: each must succeed for the sequence to
/// continue.
pub fn on_step_is_best_effort(step: OnStep) -> (r: bool)
    ensures
        r == false,
{
    let _ = step;
    false
}

/// The extension table after an apply pass toward `target`: every
/// found record is driven to `target`, absent records are untouched.
pub open spec fn spec_set_all_extensions(
    exts: Seq<(Seq<char>, ExtensionStateView)>,
    target: bool,
) -> Seq<(Seq<char>, ExtensionStateView)> {
    exts.map_values(
        |e: (Seq<char>, ExtensionStateView)|
            if e.1.found {
                (
                    e.0,
                    ExtensionStateView { bundle_id: e.1.bundle_id, enabled: target, found: true },
                )
            } else {
                e
            },
    )
}

/// What a successful OFF transition guarantees of the next snapshot,
/// absent concurrent interference: the waits saw every process gone,
/// the marker is parked, and every found extension was disabled.
pub open spec fn spec_after_off(s: StatusView) -> StatusView {
    StatusView {
        dropbox_app_path: s.dropbox_app_path,
        processes: Seq::empty(),
        launch_agent_state: LaunchAgentState::Disabled,
        extensions: spec_set_all_extensions(s.extensions, false),
    }
}

/// What a successful ON transition guarantees of the next snapshot:
/// the marker is active, every found extension was enabled, and at
/// least one process appeared.  Which processes run, and under which
/// ids, is not determined by the transition.
pub open spec fn spec_on_transition(pre: StatusView, post: StatusView) -> bool {
    &&& post.dropbox_app_path == pre.dropbox_app_path
    &&& post.launch_agent_state == LaunchAgentState::Enabled
    &&& post.extensions == spec_set_all_extensions(pre.extensions, true)
    &&& post.processes.len() > 0
}

/// Idempotence of OFF: a snapshot that already satisfies the OFF
/// predicate is a fixed point of the OFF transition's guaranteed
/// effect, and still satisfies the predicate afterwards.  Every step
/// is a no-op there: there is no process to wait out, the marker is
/// already parked, and no extension is enabled.
pub proof fn lemma_off_idempotent(s: StatusView)
    requires
        spec_off_converged(s),
        forall|i: int|
            0 <= i < s.extensions.len() ==> (!(#[trigger] s.extensions[i]).1.found
                ==> !s.extensions[i].1.enabled),
    ensures
        spec_after_off(s) == s,
        spec_off_converged(spec_after_off(s)),
{
    assert forall|i: int|
        0 <= i < s.extensions.len() implies #[trigger] spec_set_all_extensions(s.extensions, false)[i]
        == s.extensions[i] by {
        let e = s.extensions[i];
        if e.1.found {
            assert(!e.1.enabled);
            assert(spec_set_all_extensions(s.extensions, false)[i].1 =~= e.1);
            assert(spec_set_all_extensions(s.extensions, false)[i] =~= e);
        }
    }
    assert(spec_set_all_extensions(s.extensions, false) =~= s.extensions);
    assert(spec_after_off(s).processes =~= s.processes);
    assert(spec_after_off(s) =~= s);
}

/// Idempotence of ON, on the snapshots where it holds: if every found
/// extension is already enabled and the snapshot satisfies the ON
/// predicate, a successful ON transition changes neither the service
/// state, nor the extension table, nor the application path, and the
/// predicate still holds.  The premise is strictly stronger than the
/// ON predicate itself: the predicate exempts the legacy identifier,
/// so a snapshot with the exempted extension found-but-disabled
/// passes the ON check yet is changed by the enable pass.
pub proof fn lemma_on_idempotent(s: StatusView, post: StatusView)
    requires
        spec_on_converged(s),
        forall|i: int|
            0 <= i < s.extensions.len() ==> ((#[trigger] s.extensions[i]).1.found
                ==> s.extensions[i].1.enabled),
        spec_on_transition(s, post),
    ensures
        post.launch_agent_state == s.launch_agent_state,
        post.extensions == s.extensions,
        post.dropbox_app_path == s.dropbox_app_path,
        spec_on_converged(post),
{
    assert forall|i: int|
        0 <= i < s.extensions.len() implies #[trigger] spec_set_all_extensions(s.extensions, true)[i]
        == s.extensions[i] by {
        let e = s.extensions[i];
        if e.1.found {
            assert(e.1.enabled);
            assert(spec_set_all_extensions(s.extensions, true)[i].1 =~= e.1);
            assert(spec_set_all_extensions(s.extensions, true)[i] =~= e);
        }
    }
    assert(spec_set_all_extensions(s.extensions, true) =~= s.extensions);
    assert forall|i: int|
        0 <= i < post.extensions.len() implies ((#[trigger] post.extensions[i]).0
        == spec_exempt_bundle_id() || post.extensions[i].1.enabled) by {
        assert(post.extensions[i] == s.extensions[i]);
    }
}

/// A successful OFF run converges: the snapshot it guarantees passes
/// the OFF check, provided the starting snapshot never reported an
/// absent extension as enabled (the snapshot invariant).
pub proof fn lemma_off_transition_converges(s: StatusView)
    requires
        forall|i: int|
            0 <= i < s.extensions.len() ==> (!(#[trigger] s.extensions[i]).1.found
                ==> !s.extensions[i].1.enabled),
    ensures
        spec_off_converged(spec_after_off(s)),
{
    let post = spec_after_off(s);
    assert forall|i: int|
        0 <= i < post.extensions.len() implies !(#[trigger] post.extensions[i]).1.enabled by {
        assert(post.extensions[i] == spec_set_all_extensions(s.extensions, false)[i]);
    }
}

/// A successful ON run converges: the snapshot it guarantees passes
/// the ON check, provided every extension outside the exemption was
/// found in the registry.  An absent non-exempted extension is the one
/// thing a successful ON run cannot repair: the enable pass skips it,
/// and the ON check then still counts it as disabled.
pub proof fn lemma_on_transition_converges(pre: StatusView, post: StatusView)
    requires
        spec_on_transition(pre, post),
        forall|i: int|
            0 <= i < pre.extensions.len() ==> ((#[trigger] pre.extensions[i]).0
                == spec_exempt_bundle_id() || pre.extensions[i].1.found),
    ensures
        spec_on_converged(post),
{
    assert forall|i: int|
        0 <= i < post.extensions.len() implies ((#[trigger] post.extensions[i]).0
        == spec_exempt_bundle_id() || post.extensions[i].1.enabled) by {
        assert(post.extensions[i] == spec_set_all_extensions(pre.extensions, true)[i]);
    }
}

/// Round-trip: after OFF and then ON, the service state is active
/// again and every found extension is enabled again, whatever process
/// ids the relaunch produced.  Identifiers and found flags are
/// preserved throughout.
pub proof fn lemma_round_trip(s: StatusView, mid: StatusView, post: StatusView)
    requires
        mid == spec_after_off(s),
        spec_on_transition(mid, post),
    ensures
        post.launch_agent_state == LaunchAgentState::Enabled,
        post.extensions.len() == s.extensions.len(),
        forall|i: int|
            0 <= i < s.extensions.len() ==> ((#[trigger] post.extensions[i]).0
                == s.extensions[i].0 && post.extensions[i].1.found == s.extensions[i].1.found && (
            s.extensions[i].1.found ==> post.extensions[i].1.enabled)),
{
    assert forall|i: int|
        0 <= i < s.extensions.len() implies ((#[trigger] post.extensions[i]).0
        == s.extensions[i].0 && post.extensions[i].1.found == s.extensions[i].1.found && (
    s.extensions[i].1.found ==> post.extensions[i].1.enabled)) by {
        assert(mid.extensions[i] == spec_set_all_extensions(s.extensions, false)[i]);
        assert(post.extensions[i] == spec_set_all_extensions(mid.extensions, true)[i]);
    }
}

/// The decision core of the destructive cleanup command: refuse with
/// a precondition failure, touching nothing, while any process is
/// running; otherwise hand back the full cleanup plan.
pub fn cmd_nuke_scratch(status: &Status, dirs: &Vec<ScratchDir>) -> (r: Result<
    CleanupPlan,
    ToggleError,
>)
    ensures
        status@.processes.len() != 0 ==> r == Err::<CleanupPlan, ToggleError>(
            ToggleError::PreconditionError,
        ),
        status@.processes.len() == 0 ==> (r matches Ok(plan) && plan.files@.map_values(
            |t: crate::status::ScratchTarget| t@,
        ) == spec_plan_files(dirs@.map_values(|d: ScratchDir| d@)) && plan.skipped_dirs@.map_values(
            |n: String| n@,
        ) == spec_plan_skips(dirs@.map_values(|d: ScratchDir| d@)) && plan.found_any == (dirs@.len()
            > 0)),
{
    match crate::status::scratch_precondition(status) {
        Ok(_) => Ok(clean_scratch_files(dirs)),
        Err(e) => Err(e),
    }
}

} // verus!
