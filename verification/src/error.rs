//! The failures that end an ingestion run.

use vstd::prelude::*;

verus! {

/// Why a run was abandoned. Every one of these is fatal: nothing is retried.
#[derive(Debug, PartialEq, Eq)]
pub enum IngestError {
    /// A relation name outside the closed set of supported relations.
    UnknownRelation { name: String },
    /// A row with too few columns, or a value that does not read as its
    /// declared type.
    MalformedField,
    /// An update row whose first column is neither `1` nor `-1`.
    InvalidSignToken { token: String },
    /// The engine rejected a call; `diagnostic` is what it said.
    EngineFailure { diagnostic: String },
    /// A source could not be read.
    IOFailure { path: String, cause: String },
}

/// An [`IngestError`] with its texts as sequences of characters.
pub enum IngestErrorView {
    UnknownRelation { name: Seq<char> },
    MalformedField,
    InvalidSignToken { token: Seq<char> },
    EngineFailure { diagnostic: Seq<char> },
    IOFailure { path: Seq<char>, cause: Seq<char> },
}

impl View for IngestError {
    type V = IngestErrorView;

    open spec fn view(&self) -> IngestErrorView {
        match *self {
            IngestError::UnknownRelation { name } => IngestErrorView::UnknownRelation {
                name: name@,
            },
            IngestError::MalformedField => IngestErrorView::MalformedField,
            IngestError::InvalidSignToken { token } => IngestErrorView::InvalidSignToken {
                token: token@,
            },
            IngestError::EngineFailure { diagnostic } => IngestErrorView::EngineFailure {
                diagnostic: diagnostic@,
            },
            IngestError::IOFailure { path, cause } => IngestErrorView::IOFailure {
                path: path@,
                cause: cause@,
            },
        }
    }
}

impl DeepView for IngestError {
    type V = IngestErrorView;

    open spec fn deep_view(&self) -> IngestErrorView {
        self@
    }
}

impl Clone for IngestError {
    fn clone(&self) -> (copy: IngestError)
        ensures
            copy@ == self@,
    {
        match self {
            IngestError::UnknownRelation { name } => IngestError::UnknownRelation {
                name: name.clone(),
            },
            IngestError::MalformedField => IngestError::MalformedField,
            IngestError::InvalidSignToken { token } => IngestError::InvalidSignToken {
                token: token.clone(),
            },
            IngestError::EngineFailure { diagnostic } => IngestError::EngineFailure {
                diagnostic: diagnostic.clone(),
            },
            IngestError::IOFailure { path, cause } => IngestError::IOFailure {
                path: path.clone(),
                cause: cause.clone(),
            },
        }
    }
}

/// A result with its value and its error taken by their views.
pub open spec fn outcome<T: DeepView>(result: Result<T, IngestError>) -> Result<
    T::V,
    IngestErrorView,
> {
    match result {
        Ok(value) => Ok(value.deep_view()),
        Err(error) => Err(error@),
    }
}

} // verus!
