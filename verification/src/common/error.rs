//! The error value that every stage reports.

use super::position::{Position, PositionView};
use super::text::{fragments_view, plain, plain_text, Fragment, FragmentView};
use vstd::prelude::*;

verus! {

/// The stage that failed.
#[derive(Clone, Copy, Debug, PartialEq, Eq, Structural)]
pub enum ErrorType {
    LexingError,
    ParsingError,
    RuntimeError,
}

impl ErrorType {
    /// The name under which the kind is reported.
    pub open spec fn name(self) -> Seq<char> {
        match self {
            ErrorType::LexingError => "LexingError"@,
            ErrorType::ParsingError => "ParsingError"@,
            ErrorType::RuntimeError => "RuntimeError"@,
        }
    }

    /// The name under which the kind is reported.
    pub fn to_text(&self) -> (text: String)
        ensures
            text@ == self.name(),
    {
        match self {
            ErrorType::LexingError => "LexingError".to_owned(),
            ErrorType::ParsingError => "ParsingError".to_owned(),
            ErrorType::RuntimeError => "RuntimeError".to_owned(),
        }
    }
}

/// A failure: its kind, what went wrong and where. The message may name a number,
/// which is why it is kept as fragments.
#[derive(Debug)]
pub struct Error {
    pub e_type: ErrorType,
    pub message: Vec<Fragment>,
    pub position: Position,
}

/// The mathematical value of an [`Error`].
pub struct ErrorView {
    pub e_type: ErrorType,
    pub message: Seq<FragmentView>,
    pub position: PositionView,
}

impl View for Error {
    type V = ErrorView;

    open spec fn view(&self) -> ErrorView {
        ErrorView {
            e_type: self.e_type,
            message: fragments_view(self.message@),
            position: self.position@,
        }
    }
}

impl Error {
    /// An error whose message is plain text.
    pub fn new(e_type: ErrorType, message: String, position: Position) -> (error: Self)
        ensures
            error@ == (ErrorView { e_type, message: plain(message@), position: position@ }),
    {
        Self { e_type, message: plain_text(message), position }
    }

    /// An error whose message is given in fragments.
    pub fn with_fragments(e_type: ErrorType, message: Vec<Fragment>, position: Position) -> (error:
        Self)
        ensures
            error@ == (ErrorView {
                e_type,
                message: fragments_view(message@),
                position: position@,
            }),
    {
        Self { e_type, message, position }
    }
}

} // verus!
