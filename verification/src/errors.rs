//! Failures of branch and repository operations. They are recoverable at the
//! interface boundary: collected, shown on the error screen, and cleared only
//! when that screen is dismissed.

use vstd::prelude::*;

verus! {

/// Mathematical content of an error: the failed operation together with the
/// text shown on the error screen.
pub ghost enum GituiErrorV {
    BranchSwitch(Seq<char>),
    FetchAll(Seq<char>),
    BranchMerge(Seq<char>),
}

impl GituiErrorV {
    /// The text carried by the error.
    pub open spec fn text(self) -> Seq<char> {
        match self {
            GituiErrorV::BranchSwitch(s) => s,
            GituiErrorV::FetchAll(s) => s,
            GituiErrorV::BranchMerge(s) => s,
        }
    }
}

/// The mathematical content of a sequence of collected errors.
pub open spec fn errors_view(es: Seq<GituiError>) -> Seq<GituiErrorV> {
    es.map_values(|e: GituiError| e@)
}

/// A failed branch or repository operation, kept until the user dismisses the
/// error screen.
#[derive(Debug)]
pub enum GituiError {
    BranchSwitch(String),
    FetchAll(String),
    BranchMerge(String),
}

impl View for GituiError {
    type V = GituiErrorV;

    open spec fn view(&self) -> GituiErrorV {
        match self {
            GituiError::BranchSwitch(s) => GituiErrorV::BranchSwitch(s@),
            GituiError::FetchAll(s) => GituiErrorV::FetchAll(s@),
            GituiError::BranchMerge(s) => GituiErrorV::BranchMerge(s@),
        }
    }
}

impl GituiError {
    /// The message displayed on the error screen.
    pub fn message(&self) -> (r: String)
        ensures
            r@ == self@.text(),
    {
        match self {
            GituiError::BranchSwitch(s) => s.clone(),
            GituiError::FetchAll(s) => s.clone(),
            GituiError::BranchMerge(s) => s.clone(),
        }
    }
}

} // verus!
