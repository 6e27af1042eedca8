use wsl_core::dashboard::WslDashboard;
use wsl_core::executor::WslCommandExecutor;
use wsl_core::lifecycle::RestartDecision;
use wsl_core::models::{WslDistro, WslRegInfo, WslStatus, WslVersion};
use wsl_core::parser::parse_distros_list;
use wsl_core::result::WslCommandResult;

fn fresh() -> WslDashboard {
    WslDashboard::new(WslCommandExecutor::new())
}

fn reg(name: &str, pfn: &str) -> WslRegInfo {
    WslRegInfo {
        name: name.to_string(),
        base_path: format!("C:\\\\wsl\\\\{name}"),
        version: 2,
        package_family_name: pfn.to_string(),
    }
}

#[test]
fn start_success_balances_busy_after_delayed_recheck() {
    let mut d = fresh();
    let args = d.start_begin("Ubuntu-22.04");
    assert_eq!(d.busy_count, 1);
    assert_eq!(
        args,
        vec!["-d", "Ubuntu-22.04", "--", "sh", "-c", "echo 'starting'"]
    );
    let probe = WslCommandResult::success("starting\n".to_string(), None);
    let (result, ticket) = d.start_on_probe("Ubuntu-22.04", probe);
    assert!(result.success);
    assert_eq!(
        result.output,
        "Distro 'Ubuntu-22.04' started and keep-alive process initiated"
    );
    // The busy booking is still held by the delayed re-check.
    assert_eq!(d.busy_count, 1);
    let ticket = ticket.expect("a successful start schedules a re-check");
    assert_eq!(ticket.delay_secs, 3);
    // The re-check window reflects the new status in the cache.
    let listing = "  NAME            STATE           VERSION\n* Ubuntu-22.04    Running         2\n";
    let refreshed = parse_distros_list(listing);
    d.finish_delayed_recheck(ticket, Some(refreshed));
    assert_eq!(d.busy_count, 0);
    assert!(d.change_pending);
    assert_eq!(d.distros.len(), 1);
    assert_eq!(d.distros[0].name, "Ubuntu-22.04");
    assert_eq!(d.distros[0].status, WslStatus::Running);
}

#[test]
fn start_failure_balances_busy_at_once() {
    let mut d = fresh();
    let _ = d.start_begin("Debian");
    assert_eq!(d.busy_count, 1);
    let probe = WslCommandResult::error("".to_string(), "no such distro".to_string());
    let (result, ticket) = d.start_on_probe("Debian", probe);
    assert!(!result.success);
    assert_eq!(result.error.as_deref(), Some("no such distro"));
    assert!(ticket.is_none());
    assert_eq!(d.busy_count, 0);
}

#[test]
fn stop_follows_the_same_busy_pattern() {
    let mut d = fresh();
    let args = d.stop_begin("Ubuntu");
    assert_eq!(args, vec!["--terminate", "Ubuntu"]);
    assert_eq!(d.busy_count, 1);
    let (result, ticket) = d.stop_on_result(WslCommandResult::success("".to_string(), None));
    assert!(result.success);
    let ticket = ticket.expect("a successful stop schedules a re-check");
    d.finish_delayed_recheck(ticket, None);
    assert_eq!(d.busy_count, 0);
}

#[test]
fn restart_aborts_on_stop_failure_and_mirrors_it() {
    let stop = WslCommandResult::error("out".to_string(), "could not terminate".to_string());
    match WslDashboard::restart_after_stop(stop) {
        RestartDecision::Abort(r) => {
            assert!(!r.success);
            assert_eq!(r.output, "out");
            assert_eq!(r.error.as_deref(), Some("could not terminate"));
        }
        RestartDecision::ProceedAfterDelay { .. } => {
            panic!("restart must not issue start after a failed stop")
        }
    }
}

#[test]
fn restart_waits_four_seconds_after_a_successful_stop() {
    let stop = WslCommandResult::success("".to_string(), None);
    match WslDashboard::restart_after_stop(stop) {
        RestartDecision::ProceedAfterDelay { delay_secs } => assert_eq!(delay_secs, 4),
        RestartDecision::Abort(_) => panic!("a successful stop must proceed to start"),
    }
}

#[test]
fn shutdown_balances_busy_and_refreshes_only_on_success() {
    let mut d = fresh();
    let args = d.shutdown_begin();
    assert_eq!(args, vec!["--shutdown"]);
    let r = d.shutdown_finish(WslCommandResult::error("".to_string(), "busy".to_string()), None);
    assert!(!r.success);
    assert_eq!(d.busy_count, 0);
    assert!(!d.change_pending);
}

#[test]
fn heavy_operations_hold_the_lock_for_their_whole_run() {
    let mut d = fresh();
    assert!(!d.heavy_op_held);
    let ticket = d.heavy_begin();
    assert!(d.heavy_op_held);
    assert_eq!(d.busy_count, 1);
    let r = d.export_finish(ticket, WslCommandResult::success("".to_string(), None));
    assert!(r.success);
    assert!(!d.heavy_op_held);
    assert_eq!(d.busy_count, 0);
    // Only now can the next heavy operation take the lock.
    let ticket2 = d.heavy_begin();
    assert!(d.heavy_op_held);
    let _ = d.import_finish(
        ticket2,
        WslCommandResult::success("".to_string(), None),
        Some(Vec::new()),
    );
    assert!(!d.heavy_op_held);
    assert_eq!(d.busy_count, 0);
}

#[test]
fn import_refreshes_the_cache_on_success() {
    let mut d = fresh();
    let ticket = d.heavy_begin();
    let list = vec![WslDistro {
        name: "Imported".to_string(),
        status: WslStatus::Stopped,
        version: WslVersion::V2,
        is_default: false,
    }];
    let r = d.import_finish(ticket, WslCommandResult::success("".to_string(), None), Some(list));
    assert!(r.success);
    assert!(d.change_pending);
    assert_eq!(d.distros.len(), 1);
    assert_eq!(d.distros[0].name, "Imported");
}

#[test]
fn delete_schedules_cleanup_for_a_sole_user_package() {
    let records = vec![
        reg("Debian", "CanonicalGroupLimited.Debian_abc123"),
        reg("Ubuntu", "CanonicalGroupLimited.Ubuntu_xyz"),
    ];
    let mut d = fresh();
    let (ticket, args) = d.delete_begin("Debian", &records);
    assert_eq!(args, vec!["--unregister", "Debian"]);
    assert!(d.heavy_op_held);
    assert_eq!(
        ticket.pfn_to_remove.as_deref(),
        Some("CanonicalGroupLimited.Debian_abc123")
    );
    let (result, follow_up) = d.delete_on_unregister(
        "Debian",
        ticket,
        WslCommandResult::success("".to_string(), None),
        None,
    );
    assert!(result.success);
    assert_eq!(result.output, "Distro 'Debian' deleted and launcher cleanup initiated");
    assert!(!d.heavy_op_held);
    assert_eq!(d.busy_count, 1);
    let follow_up = follow_up.expect("a successful delete schedules the settling work");
    assert_eq!(
        follow_up.pfn_to_remove.as_deref(),
        Some("CanonicalGroupLimited.Debian_abc123")
    );
    assert_eq!(follow_up.settle_delay_secs, 1);
    assert_eq!(follow_up.refresh_timeout_secs, 5);
    assert_eq!(follow_up.cleanup_timeout_secs, 15);
    // Even a failed launcher cleanup never escalates; busy still settles.
    d.delete_finish(follow_up, None, false);
    assert_eq!(d.busy_count, 0);
}

#[test]
fn delete_schedules_no_cleanup_for_a_shared_package() {
    let records = vec![
        reg("Debian", "CanonicalGroupLimited.Debian_abc123"),
        reg("Debian-Clone", "CanonicalGroupLimited.Debian_abc123"),
    ];
    let mut d = fresh();
    let (ticket, _) = d.delete_begin("Debian", &records);
    assert_eq!(ticket.pfn_to_remove, None);
}

#[test]
fn delete_schedules_no_cleanup_for_a_blank_package() {
    let records = vec![reg("Sideloaded", "")];
    let mut d = fresh();
    let (ticket, _) = d.delete_begin("Sideloaded", &records);
    assert_eq!(ticket.pfn_to_remove, None);
}

#[test]
fn delete_failure_ends_the_operation_at_once() {
    let records = vec![reg("Debian", "CanonicalGroupLimited.Debian_abc123")];
    let mut d = fresh();
    let (ticket, _) = d.delete_begin("Debian", &records);
    let (result, follow_up) = d.delete_on_unregister(
        "Debian",
        ticket,
        WslCommandResult::error("".to_string(), "in use".to_string()),
        None,
    );
    assert!(!result.success);
    assert_eq!(result.error.as_deref(), Some("in use"));
    assert!(follow_up.is_none());
    assert!(!d.heavy_op_held);
    assert_eq!(d.busy_count, 0);
}

#[test]
fn change_signals_coalesce_into_one_wakeup() {
    let mut d = fresh();
    assert!(!d.consume_change());
    d.signal_change();
    d.signal_change();
    d.signal_change();
    assert!(d.consume_change());
    assert!(!d.consume_change());
}

#[test]
fn refresh_guard_turns_a_second_refresh_away() {
    let mut d = fresh();
    assert!(d.try_begin_refresh());
    assert!(!d.try_begin_refresh());
    d.end_refresh();
    assert!(d.try_begin_refresh());
}
