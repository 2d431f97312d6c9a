//! The outcome of a finished `git` or `tmux` process, as the decision machines see it.

use vstd::prelude::*;

use crate::text::{i64_decimal, push_str, signed_decimal, trim, trim_str};

verus! {

/// Exit status and captured output of one process run.
#[derive(Debug, Clone, Default)]
pub struct CmdOutput {
    pub status: i32,
    pub stdout: String,
    pub stderr: String,
}

/// A process outcome as plain values.
pub struct CmdOutputView {
    pub status: i32,
    pub stdout: Seq<char>,
    pub stderr: Seq<char>,
}

impl View for CmdOutput {
    type V = CmdOutputView;

    open spec fn view(&self) -> CmdOutputView {
        CmdOutputView { status: self.status, stdout: self.stdout@, stderr: self.stderr@ }
    }
}

/// The error text for a failed step: `"<label> failed (exit <status>): <stderr, trimmed>"`.
pub open spec fn failure_message(label: Seq<char>, status: i32, stderr: Seq<char>) -> Seq<char> {
    label + " failed (exit "@ + signed_decimal(status as int) + "): "@ + trim(stderr)
}

/// What `ensure_success` gives for an outcome.
pub open spec fn ensure_success_spec(o: CmdOutputView, label: Seq<char>) -> Result<(), Seq<char>> {
    if o.status == 0 {
        Ok(())
    } else {
        Err(failure_message(label, o.status, o.stderr))
    }
}

impl CmdOutput {
    /// The process exited with status 0.
    pub fn success(&self) -> (r: bool)
        ensures
            r == (self.status == 0),
    {
        self.status == 0
    }

    /// `Ok` on exit status 0, otherwise the failure message for `label`.
    pub fn ensure_success(&self, label: &str) -> (r: Result<(), String>)
        ensures
            match r {
                Ok(()) => ensure_success_spec(self@, label@) == Ok::<(), Seq<char>>(()),
                Err(m) => ensure_success_spec(self@, label@) == Err::<(), Seq<char>>(m@),
            },
    {
        if self.success() {
            Ok(())
        } else {
            let mut m = label.to_owned();
            push_str(&mut m, " failed (exit ");
            let code = i64_decimal(self.status as i64);
            push_str(&mut m, code.as_str());
            push_str(&mut m, "): ");
            let t = trim_str(self.stderr.as_str());
            push_str(&mut m, t.as_str());
            Err(m)
        }
    }
}

} // verus!
