//! Tests for the process-listing and extension-listing parsers.

use droponoff::extensions::{disable_all_extensions, enable_all_extensions, get_extension_state, ExtensionState};
use droponoff::processes::{is_fileprovider_process, list_all_dropbox_processes, list_dropbox_processes};
use droponoff::text::{str_contains, str_eq};

#[test]
fn parses_two_process_lines() {
    let procs = list_dropbox_processes("123 Dropbox\n456 DropboxFileProvider\n");
    assert_eq!(procs.len(), 2);
    assert_eq!(procs[0].pid, 123);
    assert_eq!(procs[0].name, "Dropbox");
    assert_eq!(procs[1].pid, 456);
    assert_eq!(procs[1].name, "DropboxFileProvider");
}

#[test]
fn empty_listing_means_no_processes() {
    assert_eq!(list_dropbox_processes("").len(), 0);
    assert_eq!(list_dropbox_processes("\n\n").len(), 0);
}

#[test]
fn malformed_lines_are_skipped() {
    let procs = list_dropbox_processes("abc Dropbox\n999\n 12 x\n77 Name with spaces");
    assert_eq!(procs.len(), 1);
    assert_eq!(procs[0].pid, 77);
    assert_eq!(procs[0].name, "Name with spaces");
}

#[test]
fn pid_bounds_are_respected() {
    let procs = list_dropbox_processes("4294967295 A\n4294967296 B\n");
    assert_eq!(procs.len(), 1);
    assert_eq!(procs[0].pid, u32::MAX);
    assert_eq!(procs[0].name, "A");
}

#[test]
fn listing_without_trailing_newline_keeps_last_line() {
    let procs = list_dropbox_processes("5 Dropbox");
    assert_eq!(procs.len(), 1);
    assert_eq!(procs[0].pid, 5);
}

#[test]
fn partition_separates_fileprovider_processes() {
    let part = list_all_dropbox_processes(
        "1 Dropbox\n2 DropboxFileProvider\n3 Dropbox Web Helper\n4 MyDropboxFileProviderX\n",
    );
    assert_eq!(part.all.len(), 4);
    assert_eq!(part.fileprovider.len(), 2);
    assert_eq!(part.fileprovider[0].pid, 2);
    assert_eq!(part.fileprovider[1].pid, 4);
    assert_eq!(part.non_fileprovider.len(), 2);
    assert_eq!(part.non_fileprovider[0].pid, 1);
    assert_eq!(part.non_fileprovider[1].pid, 3);
}

#[test]
fn fileprovider_classification_is_substring_based() {
    let p = droponoff::processes::DropboxProcess {
        pid: 9,
        name: String::from("com.apple.DropboxFileProvider.host"),
    };
    assert!(is_fileprovider_process(&p));
    let q = droponoff::processes::DropboxProcess { pid: 10, name: String::from("Dropbox") };
    assert!(!is_fileprovider_process(&q));
}

#[test]
fn text_helpers_behave_like_std() {
    assert!(str_eq("abc", "abc"));
    assert!(!str_eq("abc", "abd"));
    assert!(!str_eq("abc", "ab"));
    assert!(str_contains("hello world", "lo wo"));
    assert!(str_contains("hello", ""));
    assert!(!str_contains("hello", "hello!"));
}

#[test]
fn absent_extension_is_found_false() {
    let s = get_extension_state("com.example.ext", "");
    assert!(!s.found);
    assert!(!s.enabled);
    assert_eq!(s.bundle_id, "com.example.ext");

    let blank = get_extension_state("com.example.ext", "  \t\r\n ");
    assert!(!blank.found);
    assert!(!blank.enabled);
}

#[test]
fn leading_marker_decides_enabled() {
    let on = get_extension_state("id", "+    com.example.ext(1.2.3)\n");
    assert!(on.found);
    assert!(on.enabled);

    let off = get_extension_state("id", "   -    com.example.ext(1.2.3)\n");
    assert!(off.found);
    assert!(!off.enabled);
}

fn ext(id: &str, enabled: bool, found: bool) -> ExtensionState {
    ExtensionState { bundle_id: String::from(id), enabled, found }
}

#[test]
fn apply_pass_skips_absent_extensions() {
    let states = vec![
        ext("a", false, true),
        ext("b", false, false),
        ext("c", true, true),
    ];
    let disable_targets = disable_all_extensions(&states);
    assert_eq!(disable_targets, vec![String::from("a"), String::from("c")]);
    let enable_targets = enable_all_extensions(&states);
    assert_eq!(enable_targets, vec![String::from("a"), String::from("c")]);
}

#[test]
fn apply_pass_on_all_absent_is_empty_not_an_error() {
    let states = vec![ext("a", false, false), ext("b", false, false)];
    assert!(disable_all_extensions(&states).is_empty());
    assert!(enable_all_extensions(&states).is_empty());
}
