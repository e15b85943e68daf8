//! A verified core for a compliance-test harness around a privileged
//! command-execution tool.
//!
//! The library models disposable, fully specified execution environments
//! (files with exact modes and owners, users with passwords), commands run
//! inside such an environment under a chosen identity with controlled
//! standard input, the captured result of one invocation, an oracle that
//! selects between the diagnostics of two implementations under test, and
//! the assertion helpers that test bodies use to judge captured output.
//!
//! Everything the harness decides — spec validation, the exact execution
//! request derived from a command description, line splitting and counting,
//! timestamp parsing for retry-delay measurement, permission fault
//! expectations — is verified here over plain byte sequences. The container
//! runtime that materializes an environment is outside this crate; it only
//! carries out the requests this library constructs.

pub mod bytes;
pub mod command;
pub mod env_spec;
pub mod oracle;
pub mod output;
pub mod runtime;
pub mod sudoers;
pub mod timing;
