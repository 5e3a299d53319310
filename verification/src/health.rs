//! Health reporting for daemon lifecycle events.

use vstd::prelude::*;

verus! {

/// The reporter that records lifecycle events as structured log events.
#[derive(Debug, Clone, Copy)]
pub struct StructuredHealthReporter;

impl StructuredHealthReporter {
    /// Builds a new reporter.
    pub fn new() -> (r: Self)
        ensures
            r == StructuredHealthReporter,
    {
        StructuredHealthReporter
    }
}

} // verus!
