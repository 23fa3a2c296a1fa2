//! Errors reported while parsing arguments, building the pool or generating.
use vstd::prelude::*;

verus! {

/// Which argument an error speaks of.
#[derive(Clone, Copy, Debug, PartialEq, Eq, Structural)]
pub enum ArgName {
    Length,
    RepeatCount,
}

/// Every way a run can fail.
#[derive(Debug)]
pub enum GenError {
    /// A required argument was not given.
    MissingArgument(ArgName),
    /// The argument's token is not an integer in the allowed range.
    InvalidInteger(ArgName, Vec<char>),
    /// A token starting with `-` before the length names no known flag.
    UnknownFlag(Vec<char>),
    /// A directive group does not start with `+` or `-`.
    InvalidPrefix(char),
    /// A character of a directive group names no set.
    InvalidPoolEntry(char),
    /// A custom character to add is already in the pool (shown as it was then).
    DuplicateCharacter(char, Vec<char>),
    /// A custom character to remove is not in the pool (shown as it was then).
    CharacterNotFound(char, Vec<char>),
    /// The operating system's random source failed.
    RandomSourceFailure,
    /// The clipboard could not be opened or written.
    ClipboardFailure,
}

/// The mathematical value of a [`GenError`].
pub enum ErrorModel {
    MissingArgument(ArgName),
    InvalidInteger(ArgName, Seq<char>),
    UnknownFlag(Seq<char>),
    InvalidPrefix(char),
    InvalidPoolEntry(char),
    DuplicateCharacter(char, Seq<char>),
    CharacterNotFound(char, Seq<char>),
    RandomSourceFailure,
    ClipboardFailure,
}

impl View for GenError {
    type V = ErrorModel;

    open spec fn view(&self) -> ErrorModel {
        match self {
            GenError::MissingArgument(a) => ErrorModel::MissingArgument(*a),
            GenError::InvalidInteger(a, t) => ErrorModel::InvalidInteger(*a, t@),
            GenError::UnknownFlag(t) => ErrorModel::UnknownFlag(t@),
            GenError::InvalidPrefix(c) => ErrorModel::InvalidPrefix(*c),
            GenError::InvalidPoolEntry(c) => ErrorModel::InvalidPoolEntry(*c),
            GenError::DuplicateCharacter(c, p) => ErrorModel::DuplicateCharacter(*c, p@),
            GenError::CharacterNotFound(c, p) => ErrorModel::CharacterNotFound(*c, p@),
            GenError::RandomSourceFailure => ErrorModel::RandomSourceFailure,
            GenError::ClipboardFailure => ErrorModel::ClipboardFailure,
        }
    }
}

} // verus!
