use wsl_core::executor::{
    classify_exit, command_display_string, command_timeout_secs, fault_result,
    is_write_operation, spawn_failure_result, timeout_result, WslCommandExecutor,
};

fn args(tokens: &[&str]) -> Vec<String> {
    tokens.iter().map(|t| t.to_string()).collect()
}

#[test]
fn every_write_verb_selects_the_long_timeout() {
    let verbs = [
        "--import",
        "--export",
        "--unregister",
        "--install",
        "--set-version",
        "--set-default-version",
        "--set-default",
        "-s",
        "--shutdown",
        "--terminate",
        "-t",
        "--mount",
        "--unmount",
        "--update",
    ];
    for verb in verbs {
        let a = args(&[verb, "Ubuntu"]);
        assert!(is_write_operation(&a), "verb {verb} must classify as write");
        assert_eq!(command_timeout_secs(&a), 600);
    }
}

#[test]
fn write_verbs_match_case_insensitively() {
    assert_eq!(command_timeout_secs(&args(&["-T", "Ubuntu"])), 600);
    assert_eq!(command_timeout_secs(&args(&["--IMPORT", "a", "b", "c"])), 600);
    assert_eq!(command_timeout_secs(&args(&["--Set-Default", "x"])), 600);
}

#[test]
fn read_commands_select_the_short_timeout() {
    assert_eq!(command_timeout_secs(&args(&["-l", "-v"])), 15);
    assert_eq!(command_timeout_secs(&args(&["-l", "-o"])), 15);
    assert_eq!(
        command_timeout_secs(&args(&["-d", "Ubuntu", "--", "sh", "-c", "echo 'starting'"])),
        15
    );
    assert_eq!(command_timeout_secs(&args(&[])), 15);
}

#[test]
fn verb_must_be_a_whole_token() {
    // The verb list matches tokens, not substrings of other tokens.
    assert_eq!(command_timeout_secs(&args(&["--exporting"])), 15);
    assert_eq!(command_timeout_secs(&args(&["export"])), 15);
}

#[test]
fn non_zero_exit_with_blank_stderr_uses_stdout_as_error() {
    let r = classify_exit(false, "disk image in use".to_string(), "".to_string());
    assert!(!r.success);
    assert_eq!(r.output, "disk image in use");
    assert_eq!(r.error.as_deref(), Some("disk image in use"));
}

#[test]
fn non_zero_exit_with_whitespace_stderr_uses_stdout_as_error() {
    let r = classify_exit(false, "real failure".to_string(), "  \r\t ".to_string());
    assert_eq!(r.error.as_deref(), Some("real failure"));
}

#[test]
fn non_zero_exit_with_stderr_content_keeps_stderr() {
    let r = classify_exit(false, "partial output".to_string(), "boom".to_string());
    assert!(!r.success);
    assert_eq!(r.output, "partial output");
    assert_eq!(r.error.as_deref(), Some("boom"));
}

#[test]
fn non_zero_exit_with_both_streams_blank_keeps_stderr() {
    let r = classify_exit(false, "   ".to_string(), "".to_string());
    assert_eq!(r.error.as_deref(), Some(""));
}

#[test]
fn zero_exit_is_a_success_with_no_error() {
    let r = classify_exit(true, "NAME  STATE\n".to_string(), "ignored".to_string());
    assert!(r.success);
    assert_eq!(r.output, "NAME  STATE\n");
    assert_eq!(r.error, None);
}

#[test]
fn timeout_result_names_deadline_and_command() {
    let a = args(&["--shutdown"]);
    let r = timeout_result(600, &a);
    assert!(!r.success);
    assert_eq!(
        r.error.as_deref(),
        Some("WSL command timed out after 600s: wsl --shutdown")
    );
}

#[test]
fn spawn_and_fault_results_carry_the_cause() {
    let r = spawn_failure_result("program not found");
    assert!(!r.success);
    assert_eq!(r.error.as_deref(), Some("Failed to execute command: program not found"));
    let f = fault_result("task 7 panicked");
    assert!(!f.success);
    assert_eq!(f.error.as_deref(), Some("Command execution panicked: task 7 panicked"));
}

#[test]
fn command_display_joins_tokens() {
    let a = args(&["-d", "Ubuntu", "--", "ls"]);
    assert_eq!(command_display_string(&a), "wsl -d Ubuntu -- ls");
    let _ = WslCommandExecutor::new();
}
