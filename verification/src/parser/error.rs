//! Errors that the parser reports.
use vstd::prelude::*;
use crate::lexer::TokenKind;

verus! {

/// Errors that the parser reports.
#[derive(Debug, PartialEq, Clone)]
pub enum ParserError {
    /// An expression was expected.
    ExpectedExpression,
    /// A primary was expected.
    PrimaryExpected,
    /// A unary was expected.
    UnaryExpected,
    /// An unexpected token was encountered.
    UnexpectedToken(TokenKind),
    /// An lparen is missing a closing rparen.
    UnclosedParen,
    /// A semicolon was expected following an expression.
    ExpectedSemicolon,
    /// An assignment was expected following a declaration.
    ExpectedAssignment,
}

} // verus!
