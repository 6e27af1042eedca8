//! Maintenance helpers around the backing store: the script that compacts a
//! distribution's virtual disk and the classification of the host-side
//! helper that updates a distribution's default user id. Running the host
//! tools is I/O and lives outside the crate.

use vstd::prelude::*;

use crate::result::WslCommandResult;
use crate::text::{spec_trim, str_eq, trim_str};

verus! {

/// The disk-tool script that compacts the given virtual disk file: select,
/// attach read-only, compact, detach.
pub open spec fn spec_diskpart_script(vhdx_path: Seq<char>) -> Seq<char> {
    "select vdisk file=\""@ + vhdx_path
        + "\"\r\nattach vdisk readonly\r\ncompact vdisk\r\ndetach vdisk\r\n"@
}

/// Renders the disk-compaction script for the given virtual disk file. The
/// path must already be an absolute host path.
pub fn diskpart_compact_script(vhdx_path: &str) -> (r: String)
    ensures
        r@ == spec_diskpart_script(vhdx_path@),
{
    let mut s = String::from_str("select vdisk file=\"");
    s.append(vhdx_path);
    s.append("\"\r\nattach vdisk readonly\r\ncompact vdisk\r\ndetach vdisk\r\n");
    s
}

/// Classifies the disk-compaction run: a zero exit reports success, a
/// non-zero exit reports the tool's output with a fixed failure message.
pub fn classify_compaction(exit_success: bool, stdout: String) -> (r: WslCommandResult<String>)
    ensures
        r.wf(),
        r.success == exit_success,
        exit_success ==> r.output@ == "Disk compacted successfully"@ && r.error is None,
        !exit_success ==> r.output@ == stdout@ && (r.error matches Some(e) && e@
            == "Diskpart failed"@),
{
    if exit_success {
        WslCommandResult::success(String::from_str("Disk compacted successfully"), None)
    } else {
        WslCommandResult::error(stdout, String::from_str("Diskpart failed"))
    }
}

/// Classifies the default-user-id update: the host-side helper prints
/// `Success` exactly when it found and updated the distribution's record.
pub fn classify_uid_update(stdout: String) -> (r: WslCommandResult<String>)
    ensures
        r.wf(),
        r.success == (spec_trim(stdout@) == "Success"@),
        r.success ==> r.output@ == "Default UID updated"@ && r.error is None,
        !r.success ==> r.output@ == spec_trim(stdout@) && (r.error matches Some(e) && e@
            == "Failed to find or update registry key"@),
    {
    let t = trim_str(stdout.as_str());
    if str_eq(t, "Success") {
        WslCommandResult::success(String::from_str("Default UID updated"), None)
    } else {
        let trimmed = String::from_str(t);
        WslCommandResult::error(trimmed, String::from_str("Failed to find or update registry key"))
    }
}

} // verus!
