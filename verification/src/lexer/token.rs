//! Tokens produced by the lexer, and their mathematical views.
use vstd::prelude::*;
use std::ops::Range;
use std::str::FromStr;

verus! {

/// A token produced by the lexer.
#[derive(Debug, PartialEq)]
pub struct Token<'a> {
    /// The category of this token.
    pub kind: TokenKind,
    /// The location of this token in the source code.
    pub position: TokenPosition,
    /// The source text that this token was read from.
    pub lexeme: &'a str,
}

/// The different categories of tokens recognized by the lexer.
///
/// A numeric literal carries its source text (ASCII digits with at most one
/// `.`), which `f64::from_str` accepts.
#[derive(Debug, PartialEq)]
pub enum TokenKind {
    // single character tokens
    SemiColon,
    Colon,
    Assign,
    Plus,
    Minus,
    Slash,
    Asterisk,
    LParen,
    RParen,
    Bang,
    GreaterThan,
    LessThan,
    // dual character tokens
    Equals,
    NotEquals,
    GreaterEquals,
    LesserEquals,
    LogicalAnd,
    LogicalOr,
    // literals
    Variable(String),
    Numeric(String),
    Boolean(bool),
    Keyword(Keyword),
}

/// A reserved keyword recognized by the lexer.
#[derive(Debug, PartialEq, Eq, Copy, Clone)]
pub enum Keyword {
    /// The `set` keyword.
    SetKeyword,
}

/// The location of a token in the source code.
#[derive(Debug, PartialEq, Eq)]
pub struct TokenPosition {
    /// The byte range of this token in the source code.
    pub span: Range<usize>,
    /// The line number (from 0) where this token begins.
    pub line: usize,
    /// The column (from 0, in characters) where this token begins.
    pub column: usize,
}

/// An error returned when a string could not match any of the reserved keywords;
/// it holds that string.
#[derive(Debug, PartialEq, Eq, Clone)]
pub struct ParseKeywordError(pub String);

/// The mathematical value of a [`TokenKind`]: texts are character sequences.
pub enum TokenKindView {
    SemiColon,
    Colon,
    Assign,
    Plus,
    Minus,
    Slash,
    Asterisk,
    LParen,
    RParen,
    Bang,
    GreaterThan,
    LessThan,
    Equals,
    NotEquals,
    GreaterEquals,
    LesserEquals,
    LogicalAnd,
    LogicalOr,
    Variable(Seq<char>),
    Numeric(Seq<char>),
    Boolean(bool),
    Keyword(Keyword),
}

impl View for TokenKind {
    type V = TokenKindView;

    open spec fn view(&self) -> TokenKindView {
        match self {
            TokenKind::SemiColon => TokenKindView::SemiColon,
            TokenKind::Colon => TokenKindView::Colon,
            TokenKind::Assign => TokenKindView::Assign,
            TokenKind::Plus => TokenKindView::Plus,
            TokenKind::Minus => TokenKindView::Minus,
            TokenKind::Slash => TokenKindView::Slash,
            TokenKind::Asterisk => TokenKindView::Asterisk,
            TokenKind::LParen => TokenKindView::LParen,
            TokenKind::RParen => TokenKindView::RParen,
            TokenKind::Bang => TokenKindView::Bang,
            TokenKind::GreaterThan => TokenKindView::GreaterThan,
            TokenKind::LessThan => TokenKindView::LessThan,
            TokenKind::Equals => TokenKindView::Equals,
            TokenKind::NotEquals => TokenKindView::NotEquals,
            TokenKind::GreaterEquals => TokenKindView::GreaterEquals,
            TokenKind::LesserEquals => TokenKindView::LesserEquals,
            TokenKind::LogicalAnd => TokenKindView::LogicalAnd,
            TokenKind::LogicalOr => TokenKindView::LogicalOr,
            TokenKind::Variable(s) => TokenKindView::Variable(s@),
            TokenKind::Numeric(s) => TokenKindView::Numeric(s@),
            TokenKind::Boolean(b) => TokenKindView::Boolean(*b),
            TokenKind::Keyword(k) => TokenKindView::Keyword(*k),
        }
    }
}

/// The mathematical value of a [`Token`].
pub struct TokenView {
    pub kind: TokenKindView,
    /// Byte offsets where the token starts and ends.
    pub span_start: int,
    pub span_end: int,
    pub line: int,
    pub column: int,
    pub lexeme: Seq<char>,
}

impl<'a> View for Token<'a> {
    type V = TokenView;

    open spec fn view(&self) -> TokenView {
        TokenView {
            kind: self.kind@,
            span_start: self.position.span.start as int,
            span_end: self.position.span.end as int,
            line: self.position.line as int,
            column: self.position.column as int,
            lexeme: self.lexeme@,
        }
    }
}

impl Clone for TokenPosition {
    fn clone(&self) -> (r: Self)
        ensures
            r == *self,
    {
        TokenPosition { span: self.span.start..self.span.end, line: self.line, column: self.column }
    }
}

impl<'a> Clone for Token<'a> {
    fn clone(&self) -> (r: Self)
        ensures
            r == *self,
    {
        Token { kind: self.kind.clone(), position: self.position.clone(), lexeme: self.lexeme }
    }
}

impl Clone for TokenKind {
    fn clone(&self) -> (r: Self)
        ensures
            r == *self,
    {
        match self {
            TokenKind::SemiColon => TokenKind::SemiColon,
            TokenKind::Colon => TokenKind::Colon,
            TokenKind::Assign => TokenKind::Assign,
            TokenKind::Plus => TokenKind::Plus,
            TokenKind::Minus => TokenKind::Minus,
            TokenKind::Slash => TokenKind::Slash,
            TokenKind::Asterisk => TokenKind::Asterisk,
            TokenKind::LParen => TokenKind::LParen,
            TokenKind::RParen => TokenKind::RParen,
            TokenKind::Bang => TokenKind::Bang,
            TokenKind::GreaterThan => TokenKind::GreaterThan,
            TokenKind::LessThan => TokenKind::LessThan,
            TokenKind::Equals => TokenKind::Equals,
            TokenKind::NotEquals => TokenKind::NotEquals,
            TokenKind::GreaterEquals => TokenKind::GreaterEquals,
            TokenKind::LesserEquals => TokenKind::LesserEquals,
            TokenKind::LogicalAnd => TokenKind::LogicalAnd,
            TokenKind::LogicalOr => TokenKind::LogicalOr,
            TokenKind::Variable(s) => TokenKind::Variable(s.clone()),
            TokenKind::Numeric(s) => TokenKind::Numeric(s.clone()),
            TokenKind::Boolean(b) => TokenKind::Boolean(*b),
            TokenKind::Keyword(k) => TokenKind::Keyword(*k),
        }
    }
}

/// The text of the `set` keyword.
pub open spec fn set_text() -> Seq<char> {
    seq!['s', 'e', 't']
}

/// Whether `s` and `t` hold the same characters.
pub fn str_eq(s: &str, t: &str) -> (b: bool)
    ensures
        b == (s@ == t@),
{
    let n = s.unicode_len();
    let m = t.unicode_len();
    if n != m {
        return false;
    }
    let mut i: usize = 0;
    while i < n
        invariant
            n == s@.len(),
            m == t@.len(),
            n == m,
            i <= n,
            forall|j: int| 0 <= j < i ==> s@[j] == t@[j],
        decreases n - i,
    {
        if s.get_char(i) != t.get_char(i) {
            return false;
        }
        i = i + 1;
    }
    assert(s@ =~= t@);
    true
}

impl FromStr for Keyword {
    type Err = ParseKeywordError;

    /// Parses a keyword from its source representation.
    ///
    /// Returns [`ParseKeywordError`] if the input is not a recognized keyword.
    fn from_str(s: &str) -> (r: Result<Self, Self::Err>)
        ensures
            r matches Ok(k) ==> s@ == set_text() && k == Keyword::SetKeyword,
            r matches Err(e) ==> s@ != set_text() && e.0@ == s@,
    {
        let set = "set";
        proof {
            reveal_strlit("set");
            assert(set@ =~= set_text());
        }
        if str_eq(s, set) {
            Ok(Keyword::SetKeyword)
        } else {
            Err(ParseKeywordError(s.to_owned()))
        }
    }
}

} // verus!
