//! The ways in which an extraction can fail.

use vstd::prelude::*;

verus! {

/// Why a dump could not be turned into a table.
#[derive(Debug)]
pub enum ExtractError {
    /// An attribute that must hold a number is absent or holds something
    /// else. `key` names the attribute.
    MalformedInput { key: String },
    /// A declared player lacks a field of the fixed schema. `key` names the
    /// attribute that was looked for.
    MissingField { key: String },
    /// The pattern for player attributes could not be compiled.
    PatternRejected,
}

/// An extraction error with its key as plain text.
pub enum ErrorModel {
    MalformedInput(Seq<char>),
    MissingField(Seq<char>),
    PatternRejected,
}

impl View for ExtractError {
    type V = ErrorModel;

    open spec fn view(&self) -> ErrorModel {
        match self {
            ExtractError::MalformedInput { key } => ErrorModel::MalformedInput(key@),
            ExtractError::MissingField { key } => ErrorModel::MissingField(key@),
            ExtractError::PatternRejected => ErrorModel::PatternRejected,
        }
    }
}

impl ExtractError {
    /// The name of the attribute that the error is about, or the empty text
    /// where it is about none.
    pub fn key(&self) -> (key: &str)
        ensures
            key@ == match self@ {
                ErrorModel::MalformedInput(k) => k,
                ErrorModel::MissingField(k) => k,
                ErrorModel::PatternRejected => Seq::<char>::empty(),
            },
    {
        match self {
            ExtractError::MalformedInput { key } => key.as_str(),
            ExtractError::MissingField { key } => key.as_str(),
            ExtractError::PatternRejected => {
                proof {
                    reveal_strlit("");
                }
                assert(""@ =~= Seq::<char>::empty());
                ""
            },
        }
    }
}

} // verus!
