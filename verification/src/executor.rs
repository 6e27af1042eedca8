//! Classification logic of the command executor: which argument vectors are
//! state-mutating (and therefore get the long timeout), and how a finished,
//! failed or timed-out process becomes a `WslCommandResult`.
//!
//! Spawning the `wsl.exe` process, reading its output and enforcing the
//! timeout are I/O and live outside the crate; they feed their outcomes to
//! the functions here.

use vstd::prelude::*;

use crate::result::WslCommandResult;
use crate::text::{
    ascii_lower, ascii_lower_string, spec_join, spec_trim, spec_u64_digits, str_eq, trim_str,
    u64_to_string, join_strings,
};

verus! {

/// The fixed set of state-mutating verbs, matched case-insensitively
/// against each argument token on its own.
pub open spec fn write_op_tokens() -> Seq<Seq<char>> {
    seq![
        "--import"@,
        "--export"@,
        "--unregister"@,
        "--install"@,
        "--set-version"@,
        "--set-default-version"@,
        "--set-default"@,
        "-s"@,
        "--shutdown"@,
        "--terminate"@,
        "-t"@,
        "--mount"@,
        "--unmount"@,
        "--update"@,
    ]
}

/// True when the token, folded to lower case, is one of the write verbs.
pub open spec fn is_write_token(arg: Seq<char>) -> bool {
    write_op_tokens().contains(ascii_lower(arg))
}

/// True when any token of the argument vector is a write verb: the command
/// mutates state and runs under the long timeout.
pub open spec fn is_write_command(args: Seq<Seq<char>>) -> bool {
    exists|i: int| 0 <= i < args.len() && is_write_token(#[trigger] args[i])
}

/// Timeout for write-class commands, in seconds.
pub open spec fn write_timeout_secs() -> u64 {
    600
}

/// Timeout for read-class commands, in seconds.
pub open spec fn read_timeout_secs() -> u64 {
    15
}

/// Executor for commands of the external `wsl.exe` tool. The executor
/// itself is stateless; every call takes the full argument vector.
#[derive(Clone, Default)]
pub struct WslCommandExecutor;

impl WslCommandExecutor {
    /// A new executor instance.
    pub fn new() -> Self {
        WslCommandExecutor
    }
}

/// Argument vector of the in-distribution probe that tests whether a path
/// is a directory.
pub open spec fn path_exists_args(name: Seq<char>, path: Seq<char>) -> Seq<Seq<char>> {
    seq!["-d"@, name, "-e"@, "test"@, "-d"@, path]
}

/// Argument vector of the in-distribution probe that tests whether a path
/// is a regular file.
pub open spec fn file_exists_args(name: Seq<char>, path: Seq<char>) -> Seq<Seq<char>> {
    seq!["-d"@, name, "-u"@, "root"@, "-e"@, "test"@, "-f"@, path]
}

/// Argument vector of the in-distribution probe that tests whether a path
/// is executable.
pub open spec fn file_executable_args(name: Seq<char>, path: Seq<char>) -> Seq<Seq<char>> {
    seq!["-d"@, name, "-u"@, "root"@, "-e"@, "test"@, "-x"@, path]
}

impl WslCommandExecutor {
    /// Whether the path check can be answered without a probe: the home
    /// shorthand always exists.
    pub fn path_always_exists(path: &str) -> (r: bool)
        ensures
            r == (path@ == "~"@),
    {
        crate::text::str_eq(path, "~")
    }

    /// Builds the directory-probe argument vector.
    pub fn build_path_exists_args(name: &str, path: &str) -> (args: Vec<String>)
        ensures
            args.deep_view() == path_exists_args(name@, path@),
    {
        let mut v: Vec<String> = Vec::new();
        crate::text::push_string(&mut v, "-d");
        crate::text::push_string(&mut v, name);
        crate::text::push_string(&mut v, "-e");
        crate::text::push_string(&mut v, "test");
        crate::text::push_string(&mut v, "-d");
        crate::text::push_string(&mut v, path);
        proof {
            assert(v.deep_view() =~= path_exists_args(name@, path@));
        }
        v
    }

    /// Builds the file-probe argument vector.
    pub fn build_file_exists_args(name: &str, path: &str) -> (args: Vec<String>)
        ensures
            args.deep_view() == file_exists_args(name@, path@),
    {
        let mut v: Vec<String> = Vec::new();
        crate::text::push_string(&mut v, "-d");
        crate::text::push_string(&mut v, name);
        crate::text::push_string(&mut v, "-u");
        crate::text::push_string(&mut v, "root");
        crate::text::push_string(&mut v, "-e");
        crate::text::push_string(&mut v, "test");
        crate::text::push_string(&mut v, "-f");
        crate::text::push_string(&mut v, path);
        proof {
            assert(v.deep_view() =~= file_exists_args(name@, path@));
        }
        v
    }

    /// Builds the executable-probe argument vector.
    pub fn build_file_executable_args(name: &str, path: &str) -> (args: Vec<String>)
        ensures
            args.deep_view() == file_executable_args(name@, path@),
    {
        let mut v: Vec<String> = Vec::new();
        crate::text::push_string(&mut v, "-d");
        crate::text::push_string(&mut v, name);
        crate::text::push_string(&mut v, "-u");
        crate::text::push_string(&mut v, "root");
        crate::text::push_string(&mut v, "-e");
        crate::text::push_string(&mut v, "test");
        crate::text::push_string(&mut v, "-x");
        crate::text::push_string(&mut v, path);
        proof {
            assert(v.deep_view() =~= file_executable_args(name@, path@));
        }
        v
    }
}

/// Whether one token, folded to lower case, equals any write verb.
fn token_is_write(arg: &str) -> (r: bool)
    ensures
        r == is_write_token(arg@),
{
    let lower = ascii_lower_string(arg);
    let l = lower.as_str();
    let r = str_eq(l, "--import") || str_eq(l, "--export") || str_eq(l, "--unregister")
        || str_eq(l, "--install") || str_eq(l, "--set-version") || str_eq(
        l,
        "--set-default-version",
    ) || str_eq(l, "--set-default") || str_eq(l, "-s") || str_eq(l, "--shutdown") || str_eq(
        l,
        "--terminate",
    ) || str_eq(l, "-t") || str_eq(l, "--mount") || str_eq(l, "--unmount") || str_eq(
        l,
        "--update",
    );
    proof {
        let toks = write_op_tokens();
        if r {
            assert(toks.contains(lower@));
        } else {
            assert(forall|k: int| 0 <= k < toks.len() ==> toks[k] != lower@);
        }
    }
    r
}

/// Marks an argument vector as a write operation when it contains any token
/// from the fixed set of state-mutating verbs, matched case-insensitively
/// against the token itself.
pub fn is_write_operation(args: &Vec<String>) -> (r: bool)
    ensures
        r == is_write_command(args.deep_view()),
{
    let n = args.len();
    let mut i: usize = 0;
    while i < n
        invariant
            i <= n,
            n == args@.len(),
            args.deep_view().len() == n,
            forall|j: int| 0 <= j < i ==> !is_write_token(#[trigger] args.deep_view()[j]),
        decreases n - i,
    {
        if token_is_write(args[i].as_str()) {
            proof {
                assert(args.deep_view()[i as int] == args@[i as int]@);
            }
            return true;
        }
        proof {
            assert(args.deep_view()[i as int] == args@[i as int]@);
        }
        i = i + 1;
    }
    false
}

/// Selects the timeout for an argument vector: write operations get the
/// 600-second timeout, everything else the 15-second one.
pub fn command_timeout_secs(args: &Vec<String>) -> (t: u64)
    ensures
        is_write_command(args.deep_view()) ==> t == write_timeout_secs(),
        !is_write_command(args.deep_view()) ==> t == read_timeout_secs(),
{
    if is_write_operation(args) {
        600
    } else {
        15
    }
}

/// The display form of a command, as failure messages quote it.
pub open spec fn command_display(args: Seq<Seq<char>>) -> Seq<char> {
    "wsl "@ + spec_join(args, " "@)
}

/// Renders the command's display form.
pub fn command_display_string(args: &Vec<String>) -> (r: String)
    ensures
        r@ == command_display(args.deep_view()),
{
    let mut s = String::from_str("wsl ");
    let joined = join_strings(args, " ");
    s.append(joined.as_str());
    s
}

/// Classifies a process that ran to completion. On success the accumulated
/// primary stream is the output; on a non-zero exit the secondary stream is
/// the error message, except that a blank secondary stream with a non-blank
/// primary stream makes the primary stream the error message (the tool
/// sometimes reports failures on the normal stream).
pub fn classify_exit(
    exit_success: bool,
    stdout: String,
    stderr: String,
) -> (r: WslCommandResult<String>)
    ensures
        r.wf(),
        r.success == exit_success,
        r.output@ == stdout@,
        r.data is None,
        exit_success ==> r.error is None,
        !exit_success ==> (r.error matches Some(e) && e@ == (if spec_trim(stderr@).len() == 0
            && spec_trim(stdout@).len() > 0 {
            stdout@
        } else {
            stderr@
        })),
{
    if exit_success {
        WslCommandResult::success(stdout, None)
    } else {
        let stderr_blank = trim_str(stderr.as_str()).unicode_len() == 0;
        let stdout_blank = trim_str(stdout.as_str()).unicode_len() == 0;
        if stderr_blank && !stdout_blank {
            let msg = stdout.clone();
            WslCommandResult::error(stdout, msg)
        } else {
            WslCommandResult::error(stdout, stderr)
        }
    }
}

/// The failure result for a process that could not be spawned; never
/// propagated as a fault to the caller.
pub fn spawn_failure_result(os_error: &str) -> (r: WslCommandResult<String>)
    ensures
        r.wf(),
        !r.success,
        r.output@.len() == 0,
        r.error matches Some(e) && e@ == "Failed to execute command: "@ + os_error@,
{
    let mut msg = String::from_str("Failed to execute command: ");
    msg.append(os_error);
    WslCommandResult::error(String::new(), msg)
}

/// The failure result for a panic or unexpected fault while supervising the
/// process; never propagated as a fault to the caller.
pub fn fault_result(fault: &str) -> (r: WslCommandResult<String>)
    ensures
        r.wf(),
        !r.success,
        r.output@.len() == 0,
        r.error matches Some(e) && e@ == "Command execution panicked: "@ + fault@,
{
    let mut msg = String::from_str("Command execution panicked: ");
    msg.append(fault);
    WslCommandResult::error(String::new(), msg)
}

/// The failure result for a command that exceeded its class's deadline,
/// naming the deadline and the command.
pub fn timeout_result(secs: u64, args: &Vec<String>) -> (r: WslCommandResult<String>)
    ensures
        r.wf(),
        !r.success,
        r.output@.len() == 0,
        r.error matches Some(e) && e@ == "WSL command timed out after "@ + spec_u64_digits(
            secs as nat,
        ) + "s: "@ + command_display(args.deep_view()),
{
    let mut msg = String::from_str("WSL command timed out after ");
    let digits = u64_to_string(secs);
    msg.append(digits.as_str());
    msg.append("s: ");
    let display = command_display_string(args);
    msg.append(display.as_str());
    WslCommandResult::error(String::new(), msg)
}

} // verus!
