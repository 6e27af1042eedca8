//! The streaming execution session: the state behind the executor's
//! streaming mode, which pushes decoded text fragments to a caller-supplied
//! sink as they arrive from either output channel while accumulating the
//! combined text for the final result.
//!
//! The cooperative multiplexing itself (reading both pipes, watching for
//! process exit) is I/O and lives outside the crate; it reports each event
//! here. Each channel has its own decoder, so buffered multi-byte state
//! never crosses channels, and the contracts say so.

use vstd::prelude::*;

use crate::decoder::{lossy_decode, stream_emit, stream_tail, WslOutputDecoder};
use crate::result::WslCommandResult;

verus! {

/// One streaming invocation's state.
pub struct StreamSession {
    /// Decoder of the primary output channel.
    pub out_decoder: WslOutputDecoder,
    /// Decoder of the secondary output channel.
    pub err_decoder: WslOutputDecoder,
    /// Every emitted fragment from either channel, in arrival order.
    pub full_output: String,
    /// Whether the primary channel reached end-of-stream or failed.
    pub stdout_done: bool,
    /// Whether the secondary channel reached end-of-stream or failed.
    pub stderr_done: bool,
    /// Whether the child's exit notification arrived.
    pub exited: bool,
}

impl StreamSession {
    /// Both decoders hold at most an incomplete encoding.
    pub open spec fn wf(self) -> bool {
        self.out_decoder.wf() && self.err_decoder.wf()
    }

    /// A fresh session: empty decoders, no accumulated text, both channels
    /// open, no exit seen.
    pub fn new() -> (s: Self)
        ensures
            s.wf(),
            s.out_decoder.pending_view().len() == 0,
            s.err_decoder.pending_view().len() == 0,
            s.full_output@.len() == 0,
            !s.stdout_done,
            !s.stderr_done,
            !s.exited,
    {
        StreamSession {
            out_decoder: WslOutputDecoder::new(),
            err_decoder: WslOutputDecoder::new(),
            full_output: String::new(),
            stdout_done: false,
            stderr_done: false,
            exited: false,
        }
    }

    /// Whether the multiplexer must keep draining: some channel is still
    /// open and the child has not exited. Once this is false, any channel
    /// not yet drained is flushed and the session is finished.
    pub fn keep_polling(&self) -> (r: bool)
        ensures
            r == ((!self.stdout_done || !self.stderr_done) && !self.exited),
    {
        (!self.stdout_done || !self.stderr_done) && !self.exited
    }

    /// A chunk arrived on the primary channel: decodes it with the primary
    /// decoder and accumulates the fragment. The secondary channel's
    /// decoder state is untouched. The caller hands the fragment to the
    /// sink when it is non-empty.
    pub fn on_stdout_chunk(&mut self, bytes: &[u8]) -> (frag: String)
        requires
            old(self).wf(),
        ensures
            final(self).wf(),
            frag@ == stream_emit(old(self).out_decoder.pending_view() + bytes@),
            final(self).out_decoder.pending_view() == stream_tail(
                old(self).out_decoder.pending_view() + bytes@,
            ),
            final(self).err_decoder == old(self).err_decoder,
            final(self).full_output@ == old(self).full_output@ + frag@,
            final(self).stdout_done == old(self).stdout_done,
            final(self).stderr_done == old(self).stderr_done,
            final(self).exited == old(self).exited,
    {
        let frag = self.out_decoder.decode(bytes);
        self.full_output.append(frag.as_str());
        frag
    }

    /// A chunk arrived on the secondary channel; symmetric to the primary
    /// one, with the primary decoder untouched.
    pub fn on_stderr_chunk(&mut self, bytes: &[u8]) -> (frag: String)
        requires
            old(self).wf(),
        ensures
            final(self).wf(),
            frag@ == stream_emit(old(self).err_decoder.pending_view() + bytes@),
            final(self).err_decoder.pending_view() == stream_tail(
                old(self).err_decoder.pending_view() + bytes@,
            ),
            final(self).out_decoder == old(self).out_decoder,
            final(self).full_output@ == old(self).full_output@ + frag@,
            final(self).stdout_done == old(self).stdout_done,
            final(self).stderr_done == old(self).stderr_done,
            final(self).exited == old(self).exited,
    {
        let frag = self.err_decoder.decode(bytes);
        self.full_output.append(frag.as_str());
        frag
    }

    /// The primary channel ended (end-of-stream or read error): flushes its
    /// buffered tail lossily instead of discarding it, accumulates the
    /// fragment, and closes the channel.
    pub fn on_stdout_end(&mut self) -> (frag: String)
        requires
            old(self).wf(),
        ensures
            final(self).wf(),
            frag@ == lossy_decode(old(self).out_decoder.pending_view()),
            final(self).out_decoder.pending_view().len() == 0,
            final(self).err_decoder == old(self).err_decoder,
            final(self).full_output@ == old(self).full_output@ + frag@,
            final(self).stdout_done,
            final(self).stderr_done == old(self).stderr_done,
            final(self).exited == old(self).exited,
    {
        let frag = self.out_decoder.flush();
        self.full_output.append(frag.as_str());
        self.stdout_done = true;
        frag
    }

    /// The secondary channel ended; symmetric to the primary one.
    pub fn on_stderr_end(&mut self) -> (frag: String)
        requires
            old(self).wf(),
        ensures
            final(self).wf(),
            frag@ == lossy_decode(old(self).err_decoder.pending_view()),
            final(self).err_decoder.pending_view().len() == 0,
            final(self).out_decoder == old(self).out_decoder,
            final(self).full_output@ == old(self).full_output@ + frag@,
            final(self).stderr_done,
            final(self).stdout_done == old(self).stdout_done,
            final(self).exited == old(self).exited,
    {
        let frag = self.err_decoder.flush();
        self.full_output.append(frag.as_str());
        self.stderr_done = true;
        frag
    }

    /// The child's own exit notification arrived; whichever channels are
    /// not drained yet are flushed next.
    pub fn on_exit(&mut self)
        requires
            old(self).wf(),
        ensures
            final(self).wf(),
            final(self).exited,
            final(self).out_decoder == old(self).out_decoder,
            final(self).err_decoder == old(self).err_decoder,
            final(self).full_output == old(self).full_output,
            final(self).stdout_done == old(self).stdout_done,
            final(self).stderr_done == old(self).stderr_done,
    {
        self.exited = true;
    }

    /// Final classification, mirroring single-shot mode: a zero exit is a
    /// success carrying the accumulated text; a non-zero exit is a failure
    /// that still preserves the accumulated text, with an error naming the
    /// exit status.
    pub fn finish(self, exit_success: bool, status_display: &str) -> (r: WslCommandResult<
        String,
    >)
        ensures
            r.wf(),
            r.success == exit_success,
            r.output@ == self.full_output@,
            r.data is None,
            exit_success ==> r.error is None,
            !exit_success ==> (r.error matches Some(e) && e@ == "Process exited with error: "@
                + status_display@),
    {
        if exit_success {
            WslCommandResult::success(self.full_output, None)
        } else {
            let mut msg = String::from_str("Process exited with error: ");
            msg.append(status_display);
            WslCommandResult::error(self.full_output, msg)
        }
    }

    /// Final classification when waiting for the process itself failed: a
    /// failure carrying the accumulated text and the wait error.
    pub fn finish_wait_error(self, wait_error: &str) -> (r: WslCommandResult<String>)
        ensures
            r.wf(),
            !r.success,
            r.output@ == self.full_output@,
            r.error matches Some(e) && e@ == wait_error@,
    {
        WslCommandResult::error(self.full_output, String::from_str(wait_error))
    }
}

/// The failure result for a streaming invocation whose process could not be
/// spawned.
pub fn stream_spawn_failure(os_error: &str) -> (r: WslCommandResult<String>)
    ensures
        r.wf(),
        !r.success,
        r.output@.len() == 0,
        r.error matches Some(e) && e@ == "Failed to spawn wsl: "@ + os_error@,
{
    let mut msg = String::from_str("Failed to spawn wsl: ");
    msg.append(os_error);
    WslCommandResult::error(String::new(), msg)
}

} // verus!
