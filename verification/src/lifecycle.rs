//! The lifecycle verbs of the coordinator: start, stop, restart, global
//! shutdown, delete, export, import and move.
//!
//! Each verb follows the state machine `Idle -> BusyIncremented ->
//! (LockAcquired) -> CommandIssued -> Succeeded | Failed -> (detached
//! re-check) -> BusyDecremented`. The command and timer I/O happens outside
//! the crate; the functions here make every decision: which argument vector
//! to run, what the result means, when the lock and the busy counter move,
//! and what a detached continuation must still do.

use vstd::prelude::*;

use crate::dashboard::WslDashboard;
use crate::models::{WslDistro, WslRegInfo};
use crate::result::WslCommandResult;
use crate::text::{push_string, str_eq};

verus! {

/// Argument vector of the lightweight probe that triggers a distribution's
/// lazy activation.
pub open spec fn start_probe_args(name: Seq<char>) -> Seq<Seq<char>> {
    seq!["-d"@, name, "--"@, "sh"@, "-c"@, "echo 'starting'"@]
}

/// Argument vector of the detached keep-alive process that prevents the
/// tool from auto-suspending a freshly started distribution.
pub open spec fn keep_alive_args(name: Seq<char>) -> Seq<Seq<char>> {
    seq!["-d"@, name, "--"@, "sleep"@, "infinity"@]
}

/// Argument vector of the terminate command.
pub open spec fn stop_args(name: Seq<char>) -> Seq<Seq<char>> {
    seq!["--terminate"@, name]
}

/// Argument vector of the global shutdown command.
pub open spec fn shutdown_args() -> Seq<Seq<char>> {
    seq!["--shutdown"@]
}

/// Argument vector of the unregister command.
pub open spec fn unregister_args(name: Seq<char>) -> Seq<Seq<char>> {
    seq!["--unregister"@, name]
}

/// Argument vector of the export command.
pub open spec fn export_args(name: Seq<char>, archive: Seq<char>) -> Seq<Seq<char>> {
    seq!["--export"@, name, archive]
}

/// Argument vector of the import command.
pub open spec fn import_args(
    name: Seq<char>,
    location: Seq<char>,
    archive: Seq<char>,
) -> Seq<Seq<char>> {
    seq!["--import"@, name, location, archive]
}

/// Argument vector of the move command.
pub open spec fn move_args(name: Seq<char>, new_path: Seq<char>) -> Seq<Seq<char>> {
    seq!["--manage"@, name, "--move"@, new_path]
}

/// Argument vector of the verbose listing the cache is rebuilt from.
pub open spec fn list_args() -> Seq<Seq<char>> {
    seq!["-l"@, "-v"@]
}

/// The message a successful start reports.
pub open spec fn start_success_message(name: Seq<char>) -> Seq<char> {
    "Distro '"@ + name + "' started and keep-alive process initiated"@
}

/// The message a successful delete reports.
pub open spec fn delete_success_message(name: Seq<char>) -> Seq<char> {
    "Distro '"@ + name + "' deleted and launcher cleanup initiated"@
}

/// Builds the listing argument vector.
pub fn build_list_args() -> (args: Vec<String>)
    ensures
        args.deep_view() == list_args(),
{
    let mut v: Vec<String> = Vec::new();
    push_string(&mut v, "-l");
    push_string(&mut v, "-v");
    proof {
        assert(v.deep_view() =~= list_args());
    }
    v
}

/// Builds the probe argument vector.
pub fn build_start_probe_args(name: &str) -> (args: Vec<String>)
    ensures
        args.deep_view() == start_probe_args(name@),
{
    let mut v: Vec<String> = Vec::new();
    push_string(&mut v, "-d");
    push_string(&mut v, name);
    push_string(&mut v, "--");
    push_string(&mut v, "sh");
    push_string(&mut v, "-c");
    push_string(&mut v, "echo 'starting'");
    proof {
        assert(v.deep_view() =~= start_probe_args(name@));
    }
    v
}

/// Builds the keep-alive argument vector.
pub fn build_keep_alive_args(name: &str) -> (args: Vec<String>)
    ensures
        args.deep_view() == keep_alive_args(name@),
{
    let mut v: Vec<String> = Vec::new();
    push_string(&mut v, "-d");
    push_string(&mut v, name);
    push_string(&mut v, "--");
    push_string(&mut v, "sleep");
    push_string(&mut v, "infinity");
    proof {
        assert(v.deep_view() =~= keep_alive_args(name@));
    }
    v
}

/// Builds the terminate argument vector.
pub fn build_stop_args(name: &str) -> (args: Vec<String>)
    ensures
        args.deep_view() == stop_args(name@),
{
    let mut v: Vec<String> = Vec::new();
    push_string(&mut v, "--terminate");
    push_string(&mut v, name);
    proof {
        assert(v.deep_view() =~= stop_args(name@));
    }
    v
}

/// Builds the global shutdown argument vector.
pub fn build_shutdown_args() -> (args: Vec<String>)
    ensures
        args.deep_view() == shutdown_args(),
{
    let mut v: Vec<String> = Vec::new();
    push_string(&mut v, "--shutdown");
    proof {
        assert(v.deep_view() =~= shutdown_args());
    }
    v
}

/// Builds the unregister argument vector.
pub fn build_unregister_args(name: &str) -> (args: Vec<String>)
    ensures
        args.deep_view() == unregister_args(name@),
{
    let mut v: Vec<String> = Vec::new();
    push_string(&mut v, "--unregister");
    push_string(&mut v, name);
    proof {
        assert(v.deep_view() =~= unregister_args(name@));
    }
    v
}

/// Builds the export argument vector.
pub fn build_export_args(name: &str, archive: &str) -> (args: Vec<String>)
    ensures
        args.deep_view() == export_args(name@, archive@),
{
    let mut v: Vec<String> = Vec::new();
    push_string(&mut v, "--export");
    push_string(&mut v, name);
    push_string(&mut v, archive);
    proof {
        assert(v.deep_view() =~= export_args(name@, archive@));
    }
    v
}

/// Builds the import argument vector.
pub fn build_import_args(name: &str, location: &str, archive: &str) -> (args: Vec<String>)
    ensures
        args.deep_view() == import_args(name@, location@, archive@),
{
    let mut v: Vec<String> = Vec::new();
    push_string(&mut v, "--import");
    push_string(&mut v, name);
    push_string(&mut v, location);
    push_string(&mut v, archive);
    proof {
        assert(v.deep_view() =~= import_args(name@, location@, archive@));
    }
    v
}

/// Builds the move argument vector.
pub fn build_move_args(name: &str, new_path: &str) -> (args: Vec<String>)
    ensures
        args.deep_view() == move_args(name@, new_path@),
{
    let mut v: Vec<String> = Vec::new();
    push_string(&mut v, "--manage");
    push_string(&mut v, name);
    push_string(&mut v, "--move");
    push_string(&mut v, new_path);
    proof {
        assert(v.deep_view() =~= move_args(name@, new_path@));
    }
    v
}

/// Renders the start success message.
fn start_success_string(name: &str) -> (r: String)
    ensures
        r@ == start_success_message(name@),
{
    let mut s = String::from_str("Distro '");
    s.append(name);
    s.append("' started and keep-alive process initiated");
    s
}

/// Renders the delete success message.
fn delete_success_string(name: &str) -> (r: String)
    ensures
        r@ == delete_success_message(name@),
{
    let mut s = String::from_str("Distro '");
    s.append(name);
    s.append("' deleted and launcher cleanup initiated");
    s
}

/// Obligation left behind by a successful start or stop: after roughly this
/// many seconds, refresh once more and settle the busy counter.
pub struct RecheckTicket {
    pub delay_secs: u64,
}

/// Obligation held by a running export, import or move: the lock and one
/// busy booking, both settled by the matching finish step.
pub struct HeavyTicket {
}

/// State a delete carries between resolving the launcher package and the
/// unregister command's outcome.
pub struct DeleteTicket {
    /// The launcher package to remove afterwards, present exactly when the
    /// deleted distribution was its only user.
    pub pfn_to_remove: Option<String>,
}

/// The detached continuation a successful delete schedules: wait for the
/// external state to settle, refresh under a bounded timeout, and then
/// remove the flagged launcher package, best-effort, under its own bounded
/// timeout.
pub struct DeleteFollowUp {
    /// The launcher package to remove, if the deleted distribution was its
    /// only user.
    pub pfn_to_remove: Option<String>,
    /// Seconds to wait before the re-refresh.
    pub settle_delay_secs: u64,
    /// Deadline for the re-refresh.
    pub refresh_timeout_secs: u64,
    /// Deadline for the launcher package removal, after which the removal
    /// process is terminated by force.
    pub cleanup_timeout_secs: u64,
}

/// What restart does once stop has finished.
pub enum RestartDecision {
    /// Stop failed: restart fails with exactly the stop failure, and start
    /// is never issued.
    Abort(WslCommandResult<String>),
    /// Stop succeeded: wait this many seconds, then run start.
    ProceedAfterDelay { delay_secs: u64 },
}

/// The image of an optional owned string.
pub open spec fn view_opt_string(o: Option<String>) -> Option<Seq<char>> {
    match o {
        Some(s) => Some(s@),
        None => None,
    }
}

/// Index of the first registry record with the given distribution name, or
/// the record count when there is none.
pub open spec fn first_name_match(reg: Seq<WslRegInfo>, name: Seq<char>) -> int
    decreases reg.len(),
{
    if reg.len() == 0 {
        0
    } else if reg[0].name@ == name {
        0
    } else {
        1 + first_name_match(reg.drop_first(), name)
    }
}

/// `first_name_match` points at the first matching record, or past the end.
pub proof fn lemma_first_name_match(reg: Seq<WslRegInfo>, name: Seq<char>)
    ensures
        0 <= first_name_match(reg, name) <= reg.len(),
        first_name_match(reg, name) < reg.len() ==> reg[first_name_match(reg, name)].name@
            == name,
        forall|j: int| 0 <= j < first_name_match(reg, name) ==> (#[trigger] reg[j]).name@ != name,
    decreases reg.len(),
{
    if reg.len() > 0 && reg[0].name@ != name {
        lemma_first_name_match(reg.drop_first(), name);
        assert(forall|j: int| 1 <= j < reg.len() ==> reg[j] == reg.drop_first()[j - 1]);
    }
}

/// How many registry records use the given launcher package.
pub open spec fn pfn_users(reg: Seq<WslRegInfo>, pfn: Seq<char>) -> int
    decreases reg.len(),
{
    if reg.len() == 0 {
        0
    } else {
        (if reg[0].package_family_name@ == pfn {
            1int
        } else {
            0int
        }) + pfn_users(reg.drop_first(), pfn)
    }
}

/// The launcher package a delete must clean up afterwards: the deleted
/// distribution's package, exactly when that distribution is the package's
/// only user. A blank package or a package shared with another
/// distribution is left alone.
pub open spec fn spec_resolve_launcher(reg: Seq<WslRegInfo>, name: Seq<char>) -> Option<
    Seq<char>,
> {
    let i = first_name_match(reg, name);
    if i < reg.len() {
        let pfn = reg[i].package_family_name@;
        if pfn.len() > 0 && pfn_users(reg, pfn) == 1 {
            Some(pfn)
        } else {
            None
        }
    } else {
        None
    }
}

/// Counts the records using the given launcher package.
fn count_pfn_users(reg: &Vec<WslRegInfo>, pfn: &str) -> (n: usize)
    ensures
        n == pfn_users(reg@, pfn@),
{
    let len = reg.len();
    let mut n: usize = 0;
    let mut k: usize = 0;
    proof {
        assert(reg@.skip(0) =~= reg@);
    }
    while k < len
        invariant
            k <= len,
            n <= k,
            len == reg@.len(),
            n + pfn_users(reg@.skip(k as int), pfn@) == pfn_users(reg@, pfn@),
        decreases len - k,
    {
        proof {
            assert(reg@.skip(k as int)[0] == reg@[k as int]);
            assert(reg@.skip(k as int).drop_first() =~= reg@.skip(k as int + 1));
        }
        if str_eq(reg[k].package_family_name.as_str(), pfn) {
            n = n + 1;
        }
        k = k + 1;
    }
    n
}

/// Resolves whether deleting the named distribution must also remove its
/// launcher package: yes exactly when the distribution has a registry
/// record with a non-blank package that no other record shares.
pub fn resolve_launcher_removal(reg: &Vec<WslRegInfo>, name: &str) -> (r: Option<String>)
    ensures
        view_opt_string(r) == spec_resolve_launcher(reg@, name@),
{
    let len = reg.len();
    let mut k: usize = 0;
    proof {
        lemma_first_name_match(reg@, name@);
    }
    while k < len
        invariant
            k <= len,
            len == reg@.len(),
            forall|j: int| 0 <= j < k ==> (#[trigger] reg@[j]).name@ != name@,
        decreases len - k,
    {
        if str_eq(reg[k].name.as_str(), name) {
            proof {
                lemma_first_name_match(reg@, name@);
                let fnm = first_name_match(reg@, name@);
                if fnm < k {
                    assert(reg@[fnm].name@ == name@);
                    assert(false);
                }
                if fnm > k {
                    assert(reg@[k as int].name@ != name@);
                    assert(false);
                }
                assert(fnm == k);
            }
            let pfn = &reg[k].package_family_name;
            if pfn.as_str().unicode_len() > 0 && count_pfn_users(reg, pfn.as_str()) == 1 {
                return Some(pfn.clone());
            } else {
                return None;
            }
        }
        k = k + 1;
    }
    proof {
        assert(first_name_match(reg@, name@) == len);
    }
    None
}

impl WslDashboard {
    /// First step of `start`: books the busy counter and hands back the
    /// probe command to run.
    pub fn start_begin(&mut self, name: &str) -> (args: Vec<String>)
        requires
            old(self).busy_count < u64::MAX,
        ensures
            *final(self) == old(self).with_busy((old(self).busy_count + 1) as u64),
            args.deep_view() == start_probe_args(name@),
    {
        self.increment_manual_operation();
        build_start_probe_args(name)
    }

    /// Second step of `start`, on the probe's outcome. On success the
    /// returned result is the start success message, the caller must spawn
    /// the keep-alive process (whose own outcome is not reflected here),
    /// refresh, and honor the returned re-check ticket, which still holds
    /// the busy booking. On failure the probe's failure is returned as is
    /// and the busy booking is settled at once.
    pub fn start_on_probe(&mut self, name: &str, probe: WslCommandResult<String>) -> (r: (
        WslCommandResult<String>,
        Option<RecheckTicket>,
    ))
        requires
            old(self).busy_count > 0,
        ensures
            probe.success ==> *final(self) == *old(self),
            probe.success ==> r.0.success && r.0.output@ == start_success_message(name@)
                && r.0.error is None,
            probe.success ==> (r.1 matches Some(t) && t.delay_secs == 3),
            !probe.success ==> *final(self) == old(self).with_busy(
                (old(self).busy_count - 1) as u64,
            ),
            !probe.success ==> r.0 == probe && r.1 is None,
    {
        if probe.success {
            let msg = start_success_string(name);
            (WslCommandResult::success(msg, None), Some(RecheckTicket { delay_secs: 3 }))
        } else {
            self.decrement_manual_operation();
            (probe, None)
        }
    }

    /// First step of `stop`: books the busy counter and hands back the
    /// terminate command to run.
    pub fn stop_begin(&mut self, name: &str) -> (args: Vec<String>)
        requires
            old(self).busy_count < u64::MAX,
        ensures
            *final(self) == old(self).with_busy((old(self).busy_count + 1) as u64),
            args.deep_view() == stop_args(name@),
    {
        self.increment_manual_operation();
        build_stop_args(name)
    }

    /// Second step of `stop`, on the terminate command's outcome, returned
    /// as is either way. On success the caller must refresh and honor the
    /// re-check ticket, which still holds the busy booking; on failure the
    /// booking is settled at once.
    pub fn stop_on_result(&mut self, result: WslCommandResult<String>) -> (r: (
        WslCommandResult<String>,
        Option<RecheckTicket>,
    ))
        requires
            old(self).busy_count > 0,
        ensures
            r.0 == result,
            result.success ==> *final(self) == *old(self),
            result.success ==> (r.1 matches Some(t) && t.delay_secs == 3),
            !result.success ==> *final(self) == old(self).with_busy(
                (old(self).busy_count - 1) as u64,
            ),
            !result.success ==> r.1 is None,
    {
        if result.success {
            (result, Some(RecheckTicket { delay_secs: 3 }))
        } else {
            self.decrement_manual_operation();
            (result, None)
        }
    }

    /// Last step of `start` and `stop`: the detached, delayed re-check.
    /// Applies the re-read list, if the re-read succeeded, and settles the
    /// busy booking the ticket was holding.
    pub fn finish_delayed_recheck(&mut self, ticket: RecheckTicket, refreshed: Option<
        Vec<WslDistro>,
    >)
        requires
            old(self).busy_count > 0,
        ensures
            refreshed matches Some(list) ==> *final(self) == old(self).with_cache(
                list,
            ).with_busy((old(self).busy_count - 1) as u64),
            refreshed is None ==> *final(self) == old(self).with_busy(
                (old(self).busy_count - 1) as u64,
            ),
    {
        match refreshed {
            Some(list) => {
                self.apply_refresh(list);
            },
            None => {},
        }
        self.decrement_manual_operation();
        let _ = ticket;
    }

    /// What `restart` does once `stop` has finished: a failed stop aborts
    /// the restart with exactly the stop failure, and start is never
    /// issued; a successful stop is followed by a fixed settling delay and
    /// only then by start.
    pub fn restart_after_stop(stop_result: WslCommandResult<String>) -> (d: RestartDecision)
        ensures
            stop_result.success ==> (d matches RestartDecision::ProceedAfterDelay {
                delay_secs,
            } && delay_secs == 4),
            !stop_result.success ==> (d matches RestartDecision::Abort(r) && r == stop_result),
    {
        if stop_result.success {
            RestartDecision::ProceedAfterDelay { delay_secs: 4 }
        } else {
            RestartDecision::Abort(stop_result)
        }
    }

    /// First step of the global shutdown: books the busy counter and hands
    /// back the shutdown command.
    pub fn shutdown_begin(&mut self) -> (args: Vec<String>)
        requires
            old(self).busy_count < u64::MAX,
        ensures
            *final(self) == old(self).with_busy((old(self).busy_count + 1) as u64),
            args.deep_view() == shutdown_args(),
    {
        self.increment_manual_operation();
        build_shutdown_args()
    }

    /// Second step of the global shutdown: applies the re-read list (only a
    /// successful shutdown refreshes), settles the busy booking, and
    /// returns the command's outcome as is.
    pub fn shutdown_finish(
        &mut self,
        result: WslCommandResult<String>,
        refreshed: Option<Vec<WslDistro>>,
    ) -> (r: WslCommandResult<String>)
        requires
            old(self).busy_count > 0,
            refreshed is Some ==> result.success,
        ensures
            r == result,
            refreshed matches Some(list) ==> *final(self) == old(self).with_cache(
                list,
            ).with_busy((old(self).busy_count - 1) as u64),
            refreshed is None ==> *final(self) == old(self).with_busy(
                (old(self).busy_count - 1) as u64,
            ),
    {
        match refreshed {
            Some(list) => {
                self.apply_refresh(list);
            },
            None => {},
        }
        self.decrement_manual_operation();
        result
    }

    /// First step of export, import and move: takes the heavy-operation
    /// lock for the whole operation and books the busy counter.
    pub fn heavy_begin(&mut self) -> (t: HeavyTicket)
        requires
            !old(self).heavy_op_held,
            old(self).busy_count < u64::MAX,
        ensures
            *final(self) == old(self).with_busy((old(self).busy_count + 1) as u64).with_lock(
                true,
            ),
    {
        self.acquire_heavy_lock();
        self.increment_manual_operation();
        HeavyTicket {  }
    }

    /// Finishes an export: lock and busy booking are settled whatever the
    /// outcome, and the cached list is untouched, since export does not
    /// mutate it.
    pub fn export_finish(&mut self, ticket: HeavyTicket, result: WslCommandResult<String>) -> (r:
        WslCommandResult<String>)
        requires
            old(self).busy_count > 0,
            old(self).heavy_op_held,
        ensures
            r == result,
            *final(self) == old(self).with_busy((old(self).busy_count - 1) as u64).with_lock(
                false,
            ),
    {
        self.release_heavy_lock();
        self.decrement_manual_operation();
        let _ = ticket;
        result
    }

    /// Finishes an import or move: applies the re-read list (only a
    /// successful command refreshes), settles lock and busy booking
    /// whatever the outcome, and returns the command's outcome as is.
    pub fn import_finish(
        &mut self,
        ticket: HeavyTicket,
        result: WslCommandResult<String>,
        refreshed: Option<Vec<WslDistro>>,
    ) -> (r: WslCommandResult<String>)
        requires
            old(self).busy_count > 0,
            old(self).heavy_op_held,
            refreshed is Some ==> result.success,
        ensures
            r == result,
            refreshed matches Some(list) ==> *final(self) == old(self).with_cache(
                list,
            ).with_busy((old(self).busy_count - 1) as u64).with_lock(false),
            refreshed is None ==> *final(self) == old(self).with_busy(
                (old(self).busy_count - 1) as u64,
            ).with_lock(false),
    {
        match refreshed {
            Some(list) => {
                self.apply_refresh(list);
            },
            None => {},
        }
        self.release_heavy_lock();
        self.decrement_manual_operation();
        let _ = ticket;
        result
    }

    /// First step of `delete`: takes the lock for the whole operation,
    /// books the busy counter, resolves from the registry records whether
    /// the launcher package must be removed afterwards, and hands back the
    /// unregister command. Before running it the caller must remove the
    /// distribution's persisted configuration entry and autostart line
    /// through the external collaborators; their "not found" outcomes are
    /// not errors and change nothing here.
    pub fn delete_begin(&mut self, name: &str, reg: &Vec<WslRegInfo>) -> (r: (
        DeleteTicket,
        Vec<String>,
    ))
        requires
            !old(self).heavy_op_held,
            old(self).busy_count < u64::MAX,
        ensures
            *final(self) == old(self).with_busy((old(self).busy_count + 1) as u64).with_lock(
                true,
            ),
            view_opt_string(r.0.pfn_to_remove) == spec_resolve_launcher(reg@, name@),
            r.1.deep_view() == unregister_args(name@),
    {
        self.acquire_heavy_lock();
        self.increment_manual_operation();
        let pfn = resolve_launcher_removal(reg, name);
        (DeleteTicket { pfn_to_remove: pfn }, build_unregister_args(name))
    }

    /// Second step of `delete`, on the unregister command's outcome. On
    /// failure the operation ends at once: lock and busy booking settled,
    /// the failure returned, no cleanup scheduled. On success the cache is
    /// refreshed synchronously, the lock is released, and the returned
    /// follow-up, which still holds the busy booking, schedules the
    /// detached settling work: a short wait, a bounded re-refresh, and the
    /// flagged launcher package's removal.
    pub fn delete_on_unregister(
        &mut self,
        name: &str,
        ticket: DeleteTicket,
        result: WslCommandResult<String>,
        refreshed: Option<Vec<WslDistro>>,
    ) -> (r: (WslCommandResult<String>, Option<DeleteFollowUp>))
        requires
            old(self).busy_count > 0,
            old(self).heavy_op_held,
            refreshed is Some ==> result.success,
        ensures
            !result.success ==> r.0 == result && r.1 is None,
            !result.success ==> *final(self) == old(self).with_busy(
                (old(self).busy_count - 1) as u64,
            ).with_lock(false),
            result.success ==> r.0.success && r.0.output@ == delete_success_message(name@)
                && r.0.error is None,
            result.success ==> (r.1 matches Some(f) && f.pfn_to_remove == ticket.pfn_to_remove
                && f.settle_delay_secs == 1 && f.refresh_timeout_secs == 5
                && f.cleanup_timeout_secs == 15),
            result.success ==> (match refreshed {
                Some(list) => *final(self) == old(self).with_cache(list).with_lock(false),
                None => *final(self) == old(self).with_lock(false),
            }),
    {
        if !result.success {
            self.release_heavy_lock();
            self.decrement_manual_operation();
            let _ = ticket;
            (result, None)
        } else {
            match refreshed {
                Some(list) => {
                    self.apply_refresh(list);
                },
                None => {},
            }
            self.release_heavy_lock();
            let msg = delete_success_string(name);
            (
                WslCommandResult::success(msg, None),
                Some(
                    DeleteFollowUp {
                        pfn_to_remove: ticket.pfn_to_remove,
                        settle_delay_secs: 1,
                        refresh_timeout_secs: 5,
                        cleanup_timeout_secs: 15,
                    },
                ),
            )
        }
    }

    /// Last step of `delete`: the detached settling work reports back.
    /// Applies the bounded re-refresh's list if it arrived in time and
    /// settles the busy booking. Whether the launcher package removal
    /// succeeded, failed or timed out is logged by the caller and never
    /// escalated: it does not change the coordinator's state beyond this.
    pub fn delete_finish(
        &mut self,
        follow_up: DeleteFollowUp,
        refreshed: Option<Vec<WslDistro>>,
        cleanup_ok: bool,
    )
        requires
            old(self).busy_count > 0,
        ensures
            refreshed matches Some(list) ==> *final(self) == old(self).with_cache(
                list,
            ).with_busy((old(self).busy_count - 1) as u64),
            refreshed is None ==> *final(self) == old(self).with_busy(
                (old(self).busy_count - 1) as u64,
            ),
    {
        match refreshed {
            Some(list) => {
                self.apply_refresh(list);
            },
            None => {},
        }
        self.decrement_manual_operation();
        let _ = follow_up;
        let _ = cleanup_ok;
    }
}

/// The coordinator state after one whole `start` or `stop` invocation, as
/// the step contracts compose it: `start_begin`/`stop_begin`, then
/// `start_on_probe`/`stop_on_result` with the given outcome, then, on
/// success, the synchronous refresh and the detached delayed re-check
/// (`finish_delayed_recheck`). The same composition with no re-check list
/// and no delayed step is `shutdown_begin` followed by `shutdown_finish`.
pub open spec fn spec_lifecycle_flow(
    d: WslDashboard,
    success: bool,
    sync_list: Option<Vec<WslDistro>>,
    recheck_list: Option<Vec<WslDistro>>,
) -> WslDashboard {
    let booked = d.with_busy((d.busy_count + 1) as u64);
    if success {
        let after_sync = match sync_list {
            Some(l) => booked.with_cache(l),
            None => booked,
        };
        let after_recheck = match recheck_list {
            Some(l) => after_sync.with_cache(l),
            None => after_sync,
        };
        after_recheck.with_busy((after_recheck.busy_count - 1) as u64)
    } else {
        booked.with_busy((booked.busy_count - 1) as u64)
    }
}

/// Law: for any single start, stop or global-shutdown invocation, the busy
/// counter after completion, the detached re-check included, equals its
/// value before the invocation, whether the verb succeeded or failed; and
/// none of these verbs touches the heavy-operation lock.
pub proof fn lemma_lifecycle_busy_balanced(
    d: WslDashboard,
    success: bool,
    sync_list: Option<Vec<WslDistro>>,
    recheck_list: Option<Vec<WslDistro>>,
)
    requires
        d.busy_count < u64::MAX,
    ensures
        spec_lifecycle_flow(d, success, sync_list, recheck_list).busy_count == d.busy_count,
        spec_lifecycle_flow(d, success, sync_list, recheck_list).heavy_op_held
            == d.heavy_op_held,
{
}

/// The coordinator state after one whole export, import or move, as the
/// step contracts compose it: `heavy_begin`, then `export_finish` or
/// `import_finish` with the given outcome.
pub open spec fn spec_heavy_flow(
    d: WslDashboard,
    refreshed: Option<Vec<WslDistro>>,
) -> WslDashboard {
    let booked = d.with_busy((d.busy_count + 1) as u64).with_lock(true);
    let after = match refreshed {
        Some(l) => booked.with_cache(l),
        None => booked,
    };
    after.with_busy((after.busy_count - 1) as u64).with_lock(false)
}

/// Law: a whole export, import or move leaves the busy counter at its value
/// before the invocation and the lock released, whatever the outcome.
pub proof fn lemma_heavy_busy_balanced(d: WslDashboard, refreshed: Option<Vec<WslDistro>>)
    requires
        d.busy_count < u64::MAX,
        !d.heavy_op_held,
    ensures
        spec_heavy_flow(d, refreshed).busy_count == d.busy_count,
        spec_heavy_flow(d, refreshed).heavy_op_held == d.heavy_op_held,
{
}

/// The coordinator state after one whole `delete`, as the step contracts
/// compose it: `delete_begin`, then `delete_on_unregister` with the given
/// outcome, then, on success, the detached settling work
/// (`delete_finish`).
pub open spec fn spec_delete_flow(
    d: WslDashboard,
    success: bool,
    sync_list: Option<Vec<WslDistro>>,
    final_list: Option<Vec<WslDistro>>,
) -> WslDashboard {
    let booked = d.with_busy((d.busy_count + 1) as u64).with_lock(true);
    if success {
        let after_sync = match sync_list {
            Some(l) => booked.with_cache(l),
            None => booked,
        };
        let released = after_sync.with_lock(false);
        let after_final = match final_list {
            Some(l) => released.with_cache(l),
            None => released,
        };
        after_final.with_busy((after_final.busy_count - 1) as u64)
    } else {
        booked.with_busy((booked.busy_count - 1) as u64).with_lock(false)
    }
}

/// Law: a whole delete, the detached settling work included, leaves the
/// busy counter at its value before the invocation and the lock released,
/// whether the unregister command succeeded or failed, and whatever became
/// of the best-effort launcher cleanup.
pub proof fn lemma_delete_busy_balanced(
    d: WslDashboard,
    success: bool,
    sync_list: Option<Vec<WslDistro>>,
    final_list: Option<Vec<WslDistro>>,
)
    requires
        d.busy_count < u64::MAX,
        !d.heavy_op_held,
    ensures
        spec_delete_flow(d, success, sync_list, final_list).busy_count == d.busy_count,
        spec_delete_flow(d, success, sync_list, final_list).heavy_op_held == d.heavy_op_held,
{
}

} // verus!
