//! The analyzer's behaviour toggles.

use vstd::prelude::*;

verus! {

/// Analyzer behavior toggles.
#[derive(Debug, Clone, Copy, PartialEq, Eq, Structural)]
pub struct AnalysisOptions {
    pub include_tests: bool,
}

impl Default for AnalysisOptions {
    fn default() -> (o: AnalysisOptions)
        ensures
            o.include_tests,
    {
        AnalysisOptions { include_tests: true }
    }
}

impl AnalysisOptions {
    /// Exclude common test files and Rust `#[cfg(test)]` modules.
    pub fn without_tests() -> (o: AnalysisOptions)
        ensures
            !o.include_tests,
    {
        AnalysisOptions { include_tests: false }
    }
}

} // verus!
