//! The bridge to the external fuzzy matcher: what is written to it, and what
//! its termination means.

use crate::text::{decoded, join, join_lines, string_from_utf8, texts, trim, trimmed, Text};
use vstd::prelude::*;

verus! {

/// How the run of the matcher ended.
#[derive(Debug, PartialEq, Eq)]
pub enum MatcherExit {
    /// The matcher could not be started, fed or awaited.
    Failed { reason: String },
    /// The matcher terminated, successfully or not, and wrote `stdout`.
    Finished { success: bool, stdout: Vec<u8> },
}

/// Why the filter yielded no target.
#[derive(Debug, PartialEq, Eq)]
pub enum FilterError {
    /// The matcher could not be run.
    NotRun { reason: String },
    /// The matcher ended without a selection.
    NoSelection,
    /// The matcher's selection names nothing in the current view.
    Unknown { selection: String },
}

/// The mathematical value of a [`FilterError`].
pub enum FilterErrorModel {
    NotRun { reason: Text },
    NoSelection,
    Unknown { selection: Text },
}

impl View for FilterError {
    type V = FilterErrorModel;

    open spec fn view(&self) -> FilterErrorModel {
        match self {
            FilterError::NotRun { reason } => FilterErrorModel::NotRun { reason: reason@ },
            FilterError::NoSelection => FilterErrorModel::NoSelection,
            FilterError::Unknown { selection } => FilterErrorModel::Unknown {
                selection: selection@,
            },
        }
    }
}

/// What the matcher selected: its output without the whitespace around it,
/// where it terminated successfully and that text is not empty. Any other
/// termination is no selection.
pub open spec fn selected(exit: MatcherExit) -> Result<Text, FilterErrorModel> {
    match exit {
        MatcherExit::Failed { reason } => Err(FilterErrorModel::NotRun { reason: reason@ }),
        MatcherExit::Finished { success, stdout } => match decoded(stdout@) {
            Some(output) => if success && trimmed(output).len() > 0 {
                Ok(trimmed(output))
            } else {
                Err(FilterErrorModel::NoSelection)
            },
            None => Err(FilterErrorModel::NoSelection),
        },
    }
}

/// What is written to the matcher's input: the names, one to a line.
pub fn matcher_input(names: &Vec<String>) -> (input: String)
    ensures
        input@ == join_lines(texts(names@)),
{
    join(names)
}

/// What the matcher selected, by the way its run ended.
pub fn selection(exit: MatcherExit) -> (r: Result<String, FilterError>)
    ensures
        match selected(exit) {
            Ok(name) => r matches Ok(s) && s@ == name,
            Err(error) => r matches Err(e) && e@ == error,
        },
{
    match exit {
        MatcherExit::Failed { reason } => Err(FilterError::NotRun { reason }),
        MatcherExit::Finished { success, stdout } => {
            if !success {
                return Err(FilterError::NoSelection);
            }
            match string_from_utf8(stdout) {
                Some(output) => {
                    let name = trim(output.as_str());
                    if !name.as_str().is_empty() {
                        Ok(name)
                    } else {
                        Err(FilterError::NoSelection)
                    }
                },
                None => Err(FilterError::NoSelection),
            }
        },
    }
}

} // verus!
