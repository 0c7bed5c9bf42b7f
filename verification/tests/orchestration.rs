//! Tests for the convergence predicates, the bounded-retry verifier,
//! the poll waits, and the fixed step sequences.

use droponoff::errors::ToggleError;
use droponoff::extensions::ExtensionState;
use droponoff::launchagent::LaunchAgentState;
use droponoff::orchestrator::{
    off_report, off_step_is_best_effort, off_steps, on_report, on_step_is_best_effort, on_steps,
    verify_with_retry, OffStep, OnStep, VerifyGoal, VERIFY_MAX_ATTEMPTS,
};
use droponoff::processes::{
    wait_for_dropbox_to_start, wait_for_non_fileprovider_processes_to_die,
    wait_for_processes_to_die, DropboxProcess,
};
use droponoff::status::Status;

fn ext(id: &str, enabled: bool, found: bool) -> (String, ExtensionState) {
    (
        String::from(id),
        ExtensionState { bundle_id: String::from(id), enabled, found },
    )
}

fn proc(pid: u32, name: &str) -> DropboxProcess {
    DropboxProcess { pid, name: String::from(name) }
}

fn off_status() -> Status {
    Status {
        dropbox_app_path: None,
        processes: Vec::new(),
        launch_agent_state: LaunchAgentState::Disabled,
        extensions: vec![ext("A", false, true), ext("B", false, true)],
    }
}

fn on_status() -> Status {
    Status {
        dropbox_app_path: Some(String::from("/Applications/Dropbox.app")),
        processes: vec![proc(100, "Dropbox")],
        launch_agent_state: LaunchAgentState::Enabled,
        extensions: vec![
            ext("com.getdropbox.dropbox.fileprovider", true, true),
            ext("com.getdropbox.dropbox.garcon", false, true),
        ],
    }
}

#[test]
fn already_off_verifies_on_first_attempt() {
    let observations = vec![off_status()];
    let r = verify_with_retry(VerifyGoal::Off, &observations, 1);
    assert_eq!(r, Ok(1));
}

#[test]
fn off_scenario_reports_success_immediately() {
    // processes = [], service parked, extensions A and B found but
    // disabled: the OFF predicate holds on the very first snapshot.
    let observations = vec![
        off_status(),
        off_status(),
        off_status(),
        off_status(),
        off_status(),
    ];
    let r = verify_with_retry(VerifyGoal::Off, &observations, VERIFY_MAX_ATTEMPTS);
    assert_eq!(r, Ok(1));
}

#[test]
fn already_on_verifies_on_first_attempt() {
    let observations = vec![on_status()];
    assert_eq!(verify_with_retry(VerifyGoal::On, &observations, 1), Ok(1));
}

#[test]
fn retry_exhausts_exactly_max_attempts() {
    let mut observations = Vec::new();
    for _ in 0..VERIFY_MAX_ATTEMPTS {
        observations.push(on_status());
    }
    let r = verify_with_retry(VerifyGoal::Off, &observations, VERIFY_MAX_ATTEMPTS);
    match r {
        Err(ToggleError::VerificationFailure(attempts, report)) => {
            assert_eq!(attempts, VERIFY_MAX_ATTEMPTS);
            assert!(!report.processes_ok);
            assert!(!report.agent_ok);
            assert!(!report.extensions_ok);
        }
        other => panic!("expected a verification failure, got {:?}", other),
    }
}

#[test]
fn retry_stops_at_first_converged_snapshot() {
    let observations = vec![on_status(), on_status(), off_status(), off_status(), off_status()];
    let r = verify_with_retry(VerifyGoal::Off, &observations, VERIFY_MAX_ATTEMPTS);
    assert_eq!(r, Ok(3));
}

#[test]
fn on_check_exempts_the_legacy_identifier() {
    // garcon is found but disabled; the ON predicate ignores it.
    let report = on_report(&on_status());
    assert!(report.processes_ok);
    assert!(report.agent_ok);
    assert!(report.extensions_ok);
    assert!(report.all_ok());
}

#[test]
fn off_check_does_not_exempt_the_legacy_identifier() {
    // The asymmetry is deliberate: OFF counts every enabled
    // extension, the exempted one included.
    let status = Status {
        dropbox_app_path: None,
        processes: Vec::new(),
        launch_agent_state: LaunchAgentState::Disabled,
        extensions: vec![ext("com.getdropbox.dropbox.garcon", true, true)],
    };
    let report = off_report(&status);
    assert!(report.processes_ok);
    assert!(report.agent_ok);
    assert!(!report.extensions_ok);
    assert!(!report.all_ok());
}

#[test]
fn round_trip_restores_enabled_state() {
    // Emulate one OFF/ON round trip over the extension table: the
    // disable pass drives every found record to disabled, the enable
    // pass drives every found record back to enabled; the relaunched
    // process list need not match the original one.
    // The absent extension is the exempted one: an absent record
    // outside the exemption would count as disabled in the ON check.
    let mut table = vec![
        ext("com.getdropbox.dropbox.fileprovider", true, true),
        ext("com.getdropbox.dropbox.TransferExtension", false, true),
        ext("com.getdropbox.dropbox.garcon", false, false),
    ];
    let states: Vec<ExtensionState> = table.iter().map(|e| ExtensionState {
        bundle_id: e.1.bundle_id.clone(),
        enabled: e.1.enabled,
        found: e.1.found,
    }).collect();
    for id in droponoff::extensions::disable_all_extensions(&states) {
        for e in table.iter_mut() {
            if e.0 == id {
                e.1.enabled = false;
            }
        }
    }
    for id in droponoff::extensions::enable_all_extensions(&states) {
        for e in table.iter_mut() {
            if e.0 == id {
                e.1.enabled = true;
            }
        }
    }
    let post = Status {
        dropbox_app_path: None,
        processes: vec![proc(999, "Dropbox")],
        launch_agent_state: LaunchAgentState::Enabled,
        extensions: table,
    };
    let report = on_report(&post);
    assert!(report.all_ok());
    for e in &post.extensions {
        if e.1.found {
            assert!(e.1.enabled);
        }
    }
}

#[test]
fn wait_succeeds_on_first_empty_observation() {
    let observations: Vec<Vec<DropboxProcess>> = vec![Vec::new()];
    assert_eq!(wait_for_processes_to_die(&observations, 1), Ok(1));
}

#[test]
fn wait_times_out_naming_survivors() {
    // One process matching the cooperative pattern never exits: with
    // one observation per poll over the whole timeout window, the
    // wait fails and names it.
    let mut observations: Vec<Vec<DropboxProcess>> = Vec::new();
    for _ in 0..100 {
        observations.push(vec![proc(321, "Dropbox")]);
    }
    let r = wait_for_non_fileprovider_processes_to_die(&observations, 100);
    match r {
        Err(ToggleError::TimeoutError(names)) => {
            assert_eq!(names, vec![String::from("Dropbox")]);
        }
        other => panic!("expected a timeout, got {:?}", other),
    }
}

#[test]
fn non_fileprovider_wait_ignores_fileprovider_survivors() {
    let observations: Vec<Vec<DropboxProcess>> = vec![
        vec![proc(1, "Dropbox"), proc(2, "DropboxFileProvider")],
        vec![proc(2, "DropboxFileProvider")],
    ];
    assert_eq!(wait_for_non_fileprovider_processes_to_die(&observations, 2), Ok(2));
    match wait_for_processes_to_die(&observations, 2) {
        Err(ToggleError::TimeoutError(names)) => {
            assert_eq!(names, vec![String::from("DropboxFileProvider")]);
        }
        other => panic!("expected a timeout, got {:?}", other),
    }
}

#[test]
fn start_wait_succeeds_when_a_process_appears() {
    let observations: Vec<Vec<DropboxProcess>> = vec![
        Vec::new(),
        Vec::new(),
        vec![proc(42, "Dropbox")],
    ];
    assert_eq!(wait_for_dropbox_to_start(&observations, 3), Ok(3));
}

#[test]
fn start_wait_times_out_on_no_processes() {
    let observations: Vec<Vec<DropboxProcess>> = vec![Vec::new(), Vec::new()];
    match wait_for_dropbox_to_start(&observations, 2) {
        Err(ToggleError::TimeoutError(names)) => assert!(names.is_empty()),
        other => panic!("expected a timeout, got {:?}", other),
    }
}

#[test]
fn off_sequence_is_fixed_and_ordered() {
    let steps = off_steps();
    assert_eq!(
        steps,
        vec![
            OffStep::RequestQuit,
            OffStep::UnloadAgent,
            OffStep::DisableAgent,
            OffStep::DisableExtensions,
            OffStep::RestartFileBrowser,
            OffStep::AwaitCooperativeExit,
            OffStep::TerminateFileProviders,
            OffStep::AwaitFullExit,
            OffStep::VerifyConverged,
        ]
    );
    let best_effort: Vec<OffStep> = steps
        .into_iter()
        .filter(|s| off_step_is_best_effort(*s))
        .collect();
    assert_eq!(
        best_effort,
        vec![OffStep::RequestQuit, OffStep::UnloadAgent, OffStep::RestartFileBrowser]
    );
}

#[test]
fn on_sequence_is_fixed_and_all_mandatory() {
    let steps = on_steps();
    assert_eq!(
        steps,
        vec![
            OnStep::EnableAgent,
            OnStep::LoadAgent,
            OnStep::EnableExtensions,
            OnStep::LaunchApp,
            OnStep::AwaitStart,
            OnStep::VerifyConverged,
        ]
    );
    for s in steps {
        assert!(!on_step_is_best_effort(s));
    }
}
