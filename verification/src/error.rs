//! The ways an analysis can fail, and which of them end the run.

use vstd::prelude::*;

verus! {

/// A failure of one stage of the analysis.
#[derive(Clone, Copy, Debug, PartialEq, Eq, Structural)]
pub enum AnalysisError {
    /// A date filter is not a calendar date written as `YYYY-MM-DD`.
    DateParse,
    /// No repository could be opened at the given path.
    RepositoryOpen,
    /// The head reference, or a commit met while walking from it, could not
    /// be resolved.
    Traversal,
    /// A commit chosen for extraction could not be found.
    CommitResolution,
    /// A tree could not be resolved or the diff could not be built.
    DiffComputation,
}

impl AnalysisError {
    /// A fatal failure ends the run; any other costs only the commit it
    /// happened on.
    pub open spec fn fatal(self) -> bool {
        self is DateParse || self is RepositoryOpen || self is Traversal
    }

    /// Whether the run must stop on this failure.
    pub fn is_fatal(&self) -> (r: bool)
        ensures
            r == self.fatal(),
    {
        match self {
            AnalysisError::DateParse => true,
            AnalysisError::RepositoryOpen => true,
            AnalysisError::Traversal => true,
            AnalysisError::CommitResolution => false,
            AnalysisError::DiffComputation => false,
        }
    }
}

} // verus!
