use vstd::prelude::*;

verus! {

/// The mathematical value of an [`EasyDbError`]: the same three kinds, with
/// the message as a sequence of characters.
pub enum ErrorView {
    Internal(Seq<char>),
    Parse(Seq<char>),
    Value(Seq<char>),
}

/// Errors reported while lexing and parsing. `Internal` marks an invariant
/// violation inside this crate, `Parse` a lexical or syntactic failure, and
/// `Value` input that is syntactically well formed but semantically invalid.
#[derive(Clone, Debug, PartialEq)]
pub enum EasyDbError {
    Internal(String),
    Parse(String),
    Value(String),
}

impl View for EasyDbError {
    type V = ErrorView;

    open spec fn view(&self) -> ErrorView {
        match self {
            EasyDbError::Internal(m) => ErrorView::Internal(m@),
            EasyDbError::Parse(m) => ErrorView::Parse(m@),
            EasyDbError::Value(m) => ErrorView::Value(m@),
        }
    }
}

/// The usual result type of this crate.
pub type EasyDbResult<T> = Result<T, EasyDbError>;

} // verus!
