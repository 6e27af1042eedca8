//! The uniform result type returned by every executor call and every
//! lifecycle verb.

use vstd::prelude::*;

verus! {

/// Outcome of one command or lifecycle operation.
///
/// `success` tells whether the operation succeeded; `output` carries the
/// accumulated console text; `error` carries the failure message (present
/// exactly when the operation failed, unless a caller withheld one on
/// purpose); `data` carries an optional typed payload such as a parsed
/// distribution list.
pub struct WslCommandResult<T> {
    pub success: bool,
    pub output: String,
    pub error: Option<String>,
    pub data: Option<T>,
}

impl<T> WslCommandResult<T> {
    /// A failed result always carries an error message.
    pub open spec fn wf(self) -> bool {
        !self.success ==> self.error is Some
    }

    /// Build a successful result with the given output and payload.
    pub fn success(output: String, data: Option<T>) -> (r: Self)
        ensures
            r.success,
            r.output == output,
            r.error is None,
            r.data == data,
            r.wf(),
    {
        WslCommandResult { success: true, output, error: None, data }
    }

    /// Build a failed result with the given output and error message.
    pub fn error(output: String, error: String) -> (r: Self)
        ensures
            !r.success,
            r.output == output,
            r.error == Some(error),
            r.data is None,
            r.wf(),
    {
        WslCommandResult { success: false, output, error: Some(error), data: None }
    }
}

} // verus!
