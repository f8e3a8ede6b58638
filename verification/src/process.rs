//! How a child process ended and what it printed.

use vstd::prelude::*;

verus! {

/// How a process ended: with an exit code, or without one when a signal
/// ended it.
#[derive(Clone, Copy, Debug, PartialEq, Eq, Structural)]
pub struct ExitStatus {
    pub code: Option<i32>,
}

/// Only the exit code zero is a success.
pub open spec fn succeeded(code: Option<i32>) -> bool {
    code == Some(0i32)
}

impl ExitStatus {
    /// Whether the process ended with the exit code zero.
    pub fn success(&self) -> (r: bool)
        ensures
            r == succeeded(self.code),
    {
        match self.code {
            Some(code) => code == 0,
            None => false,
        }
    }
}

/// What a finished process left behind.
#[derive(Debug, PartialEq, Eq)]
pub struct ProcessOutput {
    pub status: ExitStatus,
    pub stdout: Vec<u8>,
    pub stderr: Vec<u8>,
}

/// The exit code and the bytes of a finished process.
pub struct OutputView {
    pub code: Option<i32>,
    pub stdout: Seq<u8>,
    pub stderr: Seq<u8>,
}

impl View for ProcessOutput {
    type V = OutputView;

    open spec fn view(&self) -> OutputView {
        OutputView { code: self.status.code, stdout: self.stdout@, stderr: self.stderr@ }
    }
}

/// A process succeeded exactly where its exit code is zero: no other code,
/// and no end by a signal, is a success.
pub proof fn law_only_zero_is_success(code: Option<i32>)
    ensures
        succeeded(code) <==> (code matches Some(n) && n == 0),
{
}

/// Nothing that a process left behind is lost to its view.
pub proof fn law_output_is_seen_in_full(output: ProcessOutput)
    ensures
        output@.code == output.status.code,
        output@.stdout == output.stdout@,
        output@.stderr == output.stderr@,
{
}

} // verus!
