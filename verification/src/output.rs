//! The captured result of one command invocation, and the assertion helpers
//! that judge it.
//!
//! Output is captured to completion and kept byte for byte: stdout and
//! stderr separately, never merged, with no newline normalization beyond
//! what the explicitly named helpers do. Every helper that can fail hands
//! back the offending captured value, so a mismatch is diagnosable without
//! rerunning anything. A non-zero exit status is an observation for the
//! assertions, never a failure of the harness itself; only exceeding the
//! safety timeout is.

use crate::bytes::contains_seq;
use crate::bytes::contains_slice;
use crate::bytes::copy_bytes;
use crate::bytes::count_lines_containing;
use crate::bytes::count_matching;
use crate::bytes::spec_lines;
use crate::bytes::spec_trim_trailing_nl;
use crate::bytes::trim_trailing_nl;
use vstd::prelude::*;

verus! {

/// How one invocation ended: with an exit code, or without one (the child
/// was terminated by the system before it could exit).
#[derive(Clone, Copy, Debug)]
pub struct ExitStatus {
    pub code: Option<i32>,
}

/// Everything observable from one completed invocation.
#[derive(Debug)]
pub struct CapturedOutput {
    pub status: ExitStatus,
    /// Complete standard output, byte for byte.
    pub stdout: Vec<u8>,
    /// Complete standard error, byte for byte, never merged into stdout.
    pub stderr: Vec<u8>,
}

/// An expected/actual mismatch found by an assertion helper. Each variant
/// carries the offending captured value.
#[derive(Debug)]
pub enum AssertionError {
    /// The exit status differs from the expected one.
    WrongStatus { expected: Option<i32>, actual: Option<i32>, stderr: Vec<u8> },
    /// A required piece of text does not occur in the captured stream.
    MissingText { needle: Vec<u8>, actual: Vec<u8> },
    /// The number of lines containing the needle differs from the expected
    /// count.
    WrongLineCount { expected: usize, actual: usize, needle: Vec<u8>, text: Vec<u8> },
    /// The captured text differs from the recorded baseline.
    SnapshotMismatch { baseline: Vec<u8>, actual: Vec<u8> },
}

impl CapturedOutput {
    /// The invocation exited with the conventional success code.
    pub open spec fn spec_success(&self) -> bool {
        self.status.code == Some(0i32)
    }

    /// Standard output with one final line feed removed, the way a shell
    /// user reads a tool's answer.
    pub fn stdout_trimmed(&self) -> (r: Vec<u8>)
        ensures
            r@ == spec_trim_trailing_nl(self.stdout@),
    {
        trim_trailing_nl(self.stdout.as_slice())
    }

    /// Whether the captured standard error contains the given text.
    pub fn stderr_contains(&self, needle: &[u8]) -> (r: bool)
        ensures
            r == contains_seq(self.stderr@, needle@),
    {
        contains_slice(self.stderr.as_slice(), needle)
    }

    /// Whether the captured standard output contains the given text.
    pub fn stdout_contains(&self, needle: &[u8]) -> (r: bool)
        ensures
            r == contains_seq(self.stdout@, needle@),
    {
        contains_slice(self.stdout.as_slice(), needle)
    }

    /// How many standard-error lines contain the given text; the helper
    /// behind counting password prompts.
    pub fn stderr_lines_containing(&self, needle: &[u8]) -> (r: usize)
        ensures
            r == count_matching(spec_lines(self.stderr@), needle@),
    {
        count_lines_containing(self.stderr.as_slice(), needle)
    }

    /// Check that the invocation succeeded (exit code zero).
    pub fn check_success(&self) -> (r: Result<(), AssertionError>)
        ensures
            r is Ok <==> self.spec_success(),
            match r {
                Ok(_) => true,
                Err(e) => match e {
                    AssertionError::WrongStatus { expected, actual, stderr } => expected == Some(
                        0i32,
                    ) && actual == self.status.code && stderr@ == self.stderr@,
                    _ => false,
                },
            },
    {
        self.check_exit_code(0)
    }

    /// Check that the invocation exited with exactly the given code.
    pub fn check_exit_code(&self, expected: i32) -> (r: Result<(), AssertionError>)
        ensures
            r is Ok <==> self.status.code == Some(expected),
            match r {
                Ok(_) => true,
                Err(e) => match e {
                    AssertionError::WrongStatus { expected: want, actual, stderr } => want == Some(
                        expected,
                    ) && actual == self.status.code && stderr@ == self.stderr@,
                    _ => false,
                },
            },
    {
        let matches_code = match self.status.code {
            Some(c) => c == expected,
            None => false,
        };
        if matches_code {
            Ok(())
        } else {
            Err(
                AssertionError::WrongStatus {
                    expected: Some(expected),
                    actual: self.status.code,
                    stderr: copy_bytes(&self.stderr),
                },
            )
        }
    }

    /// Check that standard output, read the way a shell user reads it
    /// (one final line feed removed), is exactly the expected text.
    pub fn check_stdout_trimmed(&self, expected: &[u8]) -> (r: Result<(), AssertionError>)
        ensures
            r is Ok <==> spec_trim_trailing_nl(self.stdout@) == expected@,
            match r {
                Ok(_) => true,
                Err(e) => match e {
                    AssertionError::SnapshotMismatch { baseline, actual } => baseline@ == expected@
                        && actual@ == spec_trim_trailing_nl(self.stdout@),
                    _ => false,
                },
            },
    {
        let trimmed = self.stdout_trimmed();
        check_snapshot(trimmed.as_slice(), expected)
    }

    /// Check that standard error contains the given text.
    pub fn check_stderr_contains(&self, needle: &[u8]) -> (r: Result<(), AssertionError>)
        ensures
            r is Ok <==> contains_seq(self.stderr@, needle@),
            match r {
                Ok(_) => true,
                Err(e) => match e {
                    AssertionError::MissingText { needle: n, actual } => n@ == needle@ && actual@
                        == self.stderr@,
                    _ => false,
                },
            },
    {
        if contains_slice(self.stderr.as_slice(), needle) {
            Ok(())
        } else {
            Err(
                AssertionError::MissingText {
                    needle: vstd::slice::slice_to_vec(needle),
                    actual: copy_bytes(&self.stderr),
                },
            )
        }
    }

    /// Check that exactly `expected` standard-error lines contain the
    /// given text.
    pub fn check_stderr_line_count(&self, needle: &[u8], expected: usize) -> (r: Result<
        (),
        AssertionError,
    >)
        ensures
            r is Ok <==> count_matching(spec_lines(self.stderr@), needle@) == expected,
            match r {
                Ok(_) => true,
                Err(e) => match e {
                    AssertionError::WrongLineCount { expected: want, actual, needle: n, text } =>
                        want == expected && actual == count_matching(
                            spec_lines(self.stderr@),
                            needle@,
                        ) && n@ == needle@ && text@ == self.stderr@,
                    _ => false,
                },
            },
    {
        let actual = count_lines_containing(self.stderr.as_slice(), needle);
        if actual == expected {
            Ok(())
        } else {
            Err(
                AssertionError::WrongLineCount {
                    expected,
                    actual,
                    needle: vstd::slice::slice_to_vec(needle),
                    text: copy_bytes(&self.stderr),
                },
            )
        }
    }
}

/// Compare captured text against a recorded baseline, byte for byte; the
/// comparison behind snapshot assertions over long, low-density text.
pub fn check_snapshot(actual: &[u8], baseline: &[u8]) -> (r: Result<(), AssertionError>)
    ensures
        r is Ok <==> actual@ == baseline@,
        match r {
            Ok(_) => true,
            Err(e) => match e {
                AssertionError::SnapshotMismatch { baseline: b, actual: a } => b@ == baseline@
                    && a@ == actual@,
                _ => false,
            },
        },
{
    if crate::bytes::bytes_eq(actual, baseline) {
        Ok(())
    } else {
        Err(
            AssertionError::SnapshotMismatch {
                baseline: vstd::slice::slice_to_vec(baseline),
                actual: vstd::slice::slice_to_vec(actual),
            },
        )
    }
}

/// A failure of the harness itself while running one command. A non-zero
/// exit of the command under test is deliberately not represented here.
#[derive(Debug)]
pub enum ExecError {
    /// The child did not exit within the safety bound and was terminated.
    Timeout { elapsed_millis: u64, bound_millis: u64 },
}

/// Judge one completed wait: within the bound, the captured output is
/// handed to the assertions unchanged, whatever its exit status; past the
/// bound, the invocation is a framework failure, never a silent hang.
pub fn judge_completion(elapsed_millis: u64, bound_millis: u64, out: CapturedOutput) -> (r: Result<
    CapturedOutput,
    ExecError,
>)
    ensures
        match r {
            Ok(o) => elapsed_millis <= bound_millis && o == out,
            Err(e) => elapsed_millis > bound_millis && match e {
                ExecError::Timeout { elapsed_millis: em, bound_millis: bm } => em == elapsed_millis
                    && bm == bound_millis,
            },
        },
{
    if elapsed_millis <= bound_millis {
        Ok(out)
    } else {
        Err(ExecError::Timeout { elapsed_millis, bound_millis })
    }
}

} // verus!
