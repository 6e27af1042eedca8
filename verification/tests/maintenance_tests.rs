use wsl_core::executor::WslCommandExecutor;
use wsl_core::lifecycle::{build_import_args, build_keep_alive_args, build_move_args};
use wsl_core::maintenance::{classify_compaction, classify_uid_update, diskpart_compact_script};

#[test]
fn diskpart_script_names_the_disk_and_the_four_steps() {
    assert_eq!(
        diskpart_compact_script("C:\\wsl\\ubuntu\\ext4.vhdx"),
        "select vdisk file=\"C:\\wsl\\ubuntu\\ext4.vhdx\"\r\nattach vdisk readonly\r\ncompact vdisk\r\ndetach vdisk\r\n"
    );
}

#[test]
fn compaction_outcome_classifies_by_exit_status() {
    let ok = classify_compaction(true, "noise".to_string());
    assert!(ok.success);
    assert_eq!(ok.output, "Disk compacted successfully");
    assert_eq!(ok.error, None);
    let bad = classify_compaction(false, "DiskPart has encountered an error".to_string());
    assert!(!bad.success);
    assert_eq!(bad.output, "DiskPart has encountered an error");
    assert_eq!(bad.error.as_deref(), Some("Diskpart failed"));
}

#[test]
fn uid_update_succeeds_only_on_the_success_marker() {
    let ok = classify_uid_update("Success\r\n".to_string());
    assert!(ok.success);
    assert_eq!(ok.output, "Default UID updated");
    let bad = classify_uid_update("".to_string());
    assert!(!bad.success);
    assert_eq!(bad.error.as_deref(), Some("Failed to find or update registry key"));
    let noisy = classify_uid_update("Success stories".to_string());
    assert!(!noisy.success);
}

#[test]
fn probe_argument_vectors_match_the_tool_surface() {
    assert!(WslCommandExecutor::path_always_exists("~"));
    assert!(!WslCommandExecutor::path_always_exists("/home"));
    assert_eq!(
        WslCommandExecutor::build_path_exists_args("Ubuntu", "/srv"),
        vec!["-d", "Ubuntu", "-e", "test", "-d", "/srv"]
    );
    assert_eq!(
        WslCommandExecutor::build_file_exists_args("Ubuntu", "/usr/bin/x"),
        vec!["-d", "Ubuntu", "-u", "root", "-e", "test", "-f", "/usr/bin/x"]
    );
    assert_eq!(
        WslCommandExecutor::build_file_executable_args("Ubuntu", "/usr/bin/x"),
        vec!["-d", "Ubuntu", "-u", "root", "-e", "test", "-x", "/usr/bin/x"]
    );
}

#[test]
fn lifecycle_argument_vectors_match_the_tool_surface() {
    assert_eq!(
        build_keep_alive_args("Ubuntu"),
        vec!["-d", "Ubuntu", "--", "sleep", "infinity"]
    );
    assert_eq!(
        build_import_args("New", "C:\\wsl\\new", "C:\\backup.tar"),
        vec!["--import", "New", "C:\\wsl\\new", "C:\\backup.tar"]
    );
    assert_eq!(
        build_move_args("Ubuntu", "D:\\wsl\\ubuntu"),
        vec!["--manage", "Ubuntu", "--move", "D:\\wsl\\ubuntu"]
    );
}
