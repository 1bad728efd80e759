//! Errors that can occur while lexing source code.
use vstd::prelude::*;

verus! {

/// Errors that can occur while lexing source code.
#[derive(Debug, PartialEq, Eq)]
pub enum LexError {
    /// A character was encountered that is disallowed by the lexer.
    UnexpectedCharacter(char),
    /// A numeric literal could not be parsed; it holds the literal's text.
    InvalidNumeric(String),
    /// The lexer reached the end of the source unexpectedly.
    UnexpectedEof,
}

/// The mathematical value of a [`LexError`].
pub enum LexErrorView {
    UnexpectedCharacter(char),
    InvalidNumeric(Seq<char>),
    UnexpectedEof,
}

impl View for LexError {
    type V = LexErrorView;

    open spec fn view(&self) -> LexErrorView {
        match self {
            LexError::UnexpectedCharacter(c) => LexErrorView::UnexpectedCharacter(*c),
            LexError::InvalidNumeric(s) => LexErrorView::InvalidNumeric(s@),
            LexError::UnexpectedEof => LexErrorView::UnexpectedEof,
        }
    }
}

impl Clone for LexError {
    fn clone(&self) -> (r: Self)
        ensures
            r == *self,
    {
        match self {
            LexError::UnexpectedCharacter(c) => LexError::UnexpectedCharacter(*c),
            LexError::InvalidNumeric(s) => LexError::InvalidNumeric(s.clone()),
            LexError::UnexpectedEof => LexError::UnexpectedEof,
        }
    }
}

} // verus!
