//! The implementation oracle: one process-wide value saying which of the
//! two implementations is under test, resolved once from build or run
//! configuration and then only queried.
//!
//! The reference implementation and the candidate are expected to behave
//! alike, but may word their diagnostics differently. The oracle lets one
//! test body keep a single behavioral assertion and select between two
//! literal expectations — a diagnostic string, a prompt wording, a line
//! count — instead of duplicating the whole test per implementation.

use vstd::prelude::*;

verus! {

/// Which implementation the harness is exercising.
#[derive(Clone, Copy, Debug, PartialEq, Eq, Structural)]
pub enum ImplKind {
    /// The trusted baseline tool.
    Reference,
    /// The tool under test, expected to match the reference except where
    /// documented to diverge.
    Candidate,
}

/// The resolved implementation choice. Built once at process start from
/// external configuration and passed by value; never re-derived per call.
#[derive(Clone, Copy, Debug)]
pub struct Oracle {
    pub kind: ImplKind,
}

impl Oracle {
    /// Resolve the oracle from the one external fact: whether the binary
    /// under test is the reference implementation.
    pub fn resolve(reference_under_test: bool) -> (r: Oracle)
        ensures
            r.kind == (if reference_under_test {
                ImplKind::Reference
            } else {
                ImplKind::Candidate
            }),
    {
        if reference_under_test {
            Oracle { kind: ImplKind::Reference }
        } else {
            Oracle { kind: ImplKind::Candidate }
        }
    }

    /// Is the trusted baseline the implementation under test?
    pub fn is_reference_implementation(&self) -> (r: bool)
        ensures
            r == (self.kind is Reference),
    {
        match self.kind {
            ImplKind::Reference => true,
            ImplKind::Candidate => false,
        }
    }

    /// Select the expectation belonging to the implementation under test:
    /// a diagnostic wording, a prompt line, a line count.
    pub fn select<T>(&self, reference: T, candidate: T) -> (r: T)
        ensures
            self.kind is Reference ==> r == reference,
            self.kind is Candidate ==> r == candidate,
    {
        match self.kind {
            ImplKind::Reference => reference,
            ImplKind::Candidate => candidate,
        }
    }
}

} // verus!
