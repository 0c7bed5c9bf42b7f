//! Tests for the safety-gated scratch-file cleanup planner.

use droponoff::errors::ToggleError;
use droponoff::launchagent::LaunchAgentState;
use droponoff::orchestrator::cmd_nuke_scratch;
use droponoff::processes::DropboxProcess;
use droponoff::status::{
    clean_scratch_files, cleanup_totals, scratch_precondition, ScratchDir, ScratchEntry,
    ScratchEntryKind, Status,
};

fn entry(name: &str, kind: ScratchEntryKind, size: u64) -> ScratchEntry {
    ScratchEntry { name: String::from(name), kind, size }
}

fn quiet_status() -> Status {
    Status {
        dropbox_app_path: None,
        processes: Vec::new(),
        launch_agent_state: LaunchAgentState::Disabled,
        extensions: Vec::new(),
    }
}

fn busy_status() -> Status {
    Status {
        dropbox_app_path: None,
        processes: vec![DropboxProcess { pid: 7, name: String::from("Dropbox") }],
        launch_agent_state: LaunchAgentState::Disabled,
        extensions: Vec::new(),
    }
}

#[test]
fn cleanup_never_recurses_into_subdirectories() {
    // One top-level file and one nested subdirectory with a file
    // inside: only the top-level file is planned for deletion; the
    // subdirectory is reported as skipped, never entered.
    let dirs = vec![ScratchDir {
        path: String::from("/root-mount/u1/scratch_files"),
        entries: vec![
            entry("top.bin", ScratchEntryKind::File, 100),
            entry("nested", ScratchEntryKind::Directory, 0),
        ],
    }];
    let plan = clean_scratch_files(&dirs);
    assert_eq!(plan.files.len(), 1);
    assert_eq!(plan.files[0].path, "/root-mount/u1/scratch_files/top.bin");
    assert_eq!(plan.files[0].size, 100);
    assert_eq!(plan.skipped_dirs, vec![String::from("/root-mount/u1/scratch_files/nested")]);
    assert!(plan.found_any);
}

#[test]
fn cleanup_takes_files_and_symlinks_in_order() {
    let dirs = vec![
        ScratchDir {
            path: String::from("/m/a/scratch_files"),
            entries: vec![
                entry("x", ScratchEntryKind::File, 1),
                entry("l", ScratchEntryKind::Symlink, 2),
            ],
        },
        ScratchDir {
            path: String::from("/m/b/scratch_files"),
            entries: vec![entry("y", ScratchEntryKind::File, 3)],
        },
    ];
    let plan = clean_scratch_files(&dirs);
    let paths: Vec<&str> = plan.files.iter().map(|t| t.path.as_str()).collect();
    assert_eq!(
        paths,
        vec!["/m/a/scratch_files/x", "/m/a/scratch_files/l", "/m/b/scratch_files/y"]
    );
    let (total, count) = cleanup_totals(&plan.files);
    assert_eq!(total, 6);
    assert_eq!(count, 3);
}

#[test]
fn none_found_is_distinct_from_found_but_empty() {
    let none = clean_scratch_files(&Vec::new());
    assert!(!none.found_any);
    assert!(none.files.is_empty());

    let empty = clean_scratch_files(&vec![ScratchDir {
        path: String::from("/m/a/scratch_files"),
        entries: Vec::new(),
    }]);
    assert!(empty.found_any);
    assert!(empty.files.is_empty());
}

#[test]
fn byte_total_saturates() {
    let dirs = vec![ScratchDir {
        path: String::from("/m/a/scratch_files"),
        entries: vec![
            entry("big", ScratchEntryKind::File, u64::MAX),
            entry("one", ScratchEntryKind::File, 1),
        ],
    }];
    let plan = clean_scratch_files(&dirs);
    let (total, count) = cleanup_totals(&plan.files);
    assert_eq!(total, u64::MAX);
    assert_eq!(count, 2);
}

#[test]
fn cleanup_refuses_while_processes_run() {
    // A non-empty process list: the guard refuses with the
    // precondition error and no plan comes back, so nothing can be
    // deleted.
    let dirs = vec![ScratchDir {
        path: String::from("/m/a/scratch_files"),
        entries: vec![entry("x", ScratchEntryKind::File, 1)],
    }];
    let r = cmd_nuke_scratch(&busy_status(), &dirs);
    assert_eq!(scratch_precondition(&busy_status()), Err(ToggleError::PreconditionError));
    match r {
        Err(ToggleError::PreconditionError) => {}
        Err(e) => panic!("expected the precondition error, got {:?}", e),
        Ok(_) => panic!("expected the precondition error, got a plan"),
    }
}

#[test]
fn cleanup_proceeds_on_a_quiet_snapshot() {
    let dirs = vec![ScratchDir {
        path: String::from("/m/a/scratch_files"),
        entries: vec![entry("x", ScratchEntryKind::File, 5)],
    }];
    assert_eq!(scratch_precondition(&quiet_status()), Ok(()));
    match cmd_nuke_scratch(&quiet_status(), &dirs) {
        Ok(plan) => {
            assert_eq!(plan.files.len(), 1);
            assert_eq!(plan.files[0].path, "/m/a/scratch_files/x");
            assert!(plan.found_any);
        }
        Err(e) => panic!("expected a plan, got {:?}", e),
    }
}
