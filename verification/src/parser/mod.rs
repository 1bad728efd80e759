//! The parser: builds expressions from tokens.
pub mod error;
pub mod expr;
pub mod grammar;
pub mod laws;

pub use error::ParserError;
pub use expr::{BinaryOperator, Expr, UnaryOperator};

use vstd::prelude::*;
use crate::lexer::{Keyword, TokenKind};
use grammar::{
    and_level, binary_spec, comparison_level, declaration_spec, equality_level, expression_spec,
    factor_level, or_level, parse_spec, primary_spec, term_level, tok, unary_spec,
};

verus! {

pub type ParserResult<T> = Result<T, ParserError>;

/// A parser over a list of tokens, with the index of its current token.
pub struct Parser {
    tokens: Vec<TokenKind>,
    index: usize,
}

/// A rule moved the index forward, or not at all; when it succeeded it moved it
/// and stopped on a token.
pub open spec fn moved_on(r: ParserResult<Expr>, before: int, after: int, len: int) -> bool {
    &&& before <= after
    &&& r is Ok ==> before < after < len
}

impl Parser {
    /// The tokens that this parser reads.
    pub closed spec fn tokens(&self) -> Seq<TokenKind> {
        self.tokens@
    }

    /// The index of the current token.
    pub closed spec fn index(&self) -> int {
        self.index as int
    }

    /// The index stays within three of the end of the tokens, and that bound
    /// stays within `usize`.
    pub closed spec fn wf(&self) -> bool {
        &&& self.tokens@.len() + 3 <= usize::MAX
        &&& self.index <= self.tokens@.len() + 3
    }

    /// What `wf` bounds: the index lies within three past the end of the
    /// tokens, and that stays within `usize`.
    pub proof fn lemma_wf_bounds(&self)
        requires
            self.wf(),
        ensures
            0 <= self.index() <= self.tokens().len() + 3,
            self.tokens().len() + 3 <= usize::MAX,
    {
    }

    /// A parser at the first of `tokens`.
    pub fn new(tokens: Vec<TokenKind>) -> (p: Self)
        requires
            tokens@.len() + 3 <= usize::MAX,
        ensures
            p.wf(),
            p.tokens() == tokens@,
            p.index() == 0,
    {
        Self { tokens, index: 0 }
    }

    /// Parses expressions while tokens are left: each round reads an
    /// expression and then a second one from where the first stopped, and
    /// keeps the second; the first error ends the parse.
    pub fn parse(&mut self) -> (r: ParserResult<Vec<Expr>>)
        requires
            old(self).wf(),
        ensures
            final(self).wf(),
            final(self).tokens() == old(self).tokens(),
            final(self).index() == parse_spec(old(self).tokens(), old(self).index()).1,
            match (r, parse_spec(old(self).tokens(), old(self).index()).0) {
                (Ok(es), Ok(ss)) => es@ == ss,
                (Err(e), Err(se)) => e == se,
                _ => false,
            },
    {
        let ghost t = self.tokens@;
        let ghost i0 = self.index as int;
        let mut expressions: Vec<Expr> = Vec::new();
        while !self.is_at_end()
            invariant
                self.wf(),
                self.tokens() == t,
                t == old(self).tokens(),
                i0 == old(self).index(),
                parse_spec(t, i0).1 == parse_spec(t, self.index()).1,
                parse_spec(t, i0).0 == match parse_spec(t, self.index()).0 {
                    Ok(ss) => Ok(expressions@ + ss),
                    Err(e) => Err(e),
                },
            decreases t.len() - self.index(),
        {
            let ghost i = self.index();
            let _first = self.expression()?;
            let ghost j = self.index();
            let ex = self.expression()?;
            let ghost before = expressions@;
            expressions.push(ex);
            proof {
                match parse_spec(t, self.index()).0 {
                    Ok(ss) => {
                        assert(before + (seq![ex] + ss) =~= expressions@ + ss);
                    },
                    Err(_) => {},
                }
            }
        }
        proof {
            assert(expressions@ + Seq::<Expr>::empty() =~= expressions@);
        }
        Ok(expressions)
    }

    fn is_at_end(&self) -> (b: bool)
        ensures
            b == (self.index() >= self.tokens().len()),
    {
        self.index >= self.tokens.len()
    }

    /// A copy of the current token, if there is one.
    fn peek(&self) -> (r: Option<TokenKind>)
        ensures
            r == tok(self.tokens(), self.index()),
    {
        if self.index < self.tokens.len() {
            Some(self.tokens[self.index].clone())
        } else {
            None
        }
    }

    /// Moves to the next token, and gives a copy of it.
    fn advance(&mut self) -> (r: Option<TokenKind>)
        requires
            old(self).wf(),
            old(self).index() <= old(self).tokens().len() + 2,
        ensures
            final(self).wf(),
            final(self).tokens() == old(self).tokens(),
            final(self).index() == old(self).index() + 1,
            r == tok(old(self).tokens(), old(self).index() + 1),
    {
        self.index = self.index + 1;
        self.peek()
    }

    fn expression(&mut self) -> (r: ParserResult<Expr>)
        requires
            old(self).wf(),
        ensures
            final(self).wf(),
            final(self).tokens() == old(self).tokens(),
            (r, final(self).index()) == expression_spec(old(self).tokens(), old(self).index()),
            moved_on(r, old(self).index(), final(self).index(), old(self).tokens().len() as int),
        decreases old(self).tokens().len() - old(self).index(), 16int,
    {
        let expression = match self.peek() {
            Some(TokenKind::Keyword(Keyword::SetKeyword)) => self.declaration(),
            Some(_) => self.or(),
            None => Err(ParserError::ExpectedExpression),
        };
        match self.peek() {
            Some(TokenKind::SemiColon) => expression,
            _ => Err(ParserError::ExpectedSemicolon),
        }
    }

    fn declaration(&mut self) -> (r: ParserResult<Expr>)
        requires
            old(self).wf(),
            old(self).index() <= old(self).tokens().len(),
        ensures
            final(self).wf(),
            final(self).tokens() == old(self).tokens(),
            (r, final(self).index()) == declaration_spec(old(self).tokens(), old(self).index()),
            moved_on(r, old(self).index(), final(self).index(), old(self).tokens().len() as int),
        decreases old(self).tokens().len() - old(self).index(), 15int,
    {
        match (self.advance(), self.advance(), self.advance()) {
            (
                Some(TokenKind::Keyword(Keyword::SetKeyword)),
                Some(TokenKind::Variable(var)),
                Some(TokenKind::SemiColon),
            ) => Ok(Expr::Declaration { variable: var, assignment: None }),
            (
                Some(TokenKind::Keyword(Keyword::SetKeyword)),
                Some(TokenKind::Variable(var)),
                Some(TokenKind::Assign),
            ) => {
                let assignment = self.expression()?;
                Ok(Expr::Declaration { variable: var, assignment: Some(Box::new(assignment)) })
            },
            _ => Err(ParserError::ExpectedAssignment),
        }
    }

    fn or(&mut self) -> (r: ParserResult<Expr>)
        requires
            old(self).wf(),
        ensures
            final(self).wf(),
            final(self).tokens() == old(self).tokens(),
            (r, final(self).index()) == binary_spec(old(self).tokens(), old(self).index(), or_level()),
            moved_on(r, old(self).index(), final(self).index(), old(self).tokens().len() as int),
        decreases old(self).tokens().len() - old(self).index(), 14int,
    {
        let left = self.and()?;
        let operator = match self.peek() {
            Some(TokenKind::Equals) => BinaryOperator::LogicalOr,
            Some(token) => {
                return Err(ParserError::UnexpectedToken(token));
            },
            None => {
                return Ok(left);
            },
        };
        let right = self.and()?;
        Ok(Expr::BinOp { operator, left: Box::new(left), right: Box::new(right) })
    }

    fn and(&mut self) -> (r: ParserResult<Expr>)
        requires
            old(self).wf(),
        ensures
            final(self).wf(),
            final(self).tokens() == old(self).tokens(),
            (r, final(self).index()) == binary_spec(old(self).tokens(), old(self).index(), and_level()),
            moved_on(r, old(self).index(), final(self).index(), old(self).tokens().len() as int),
        decreases old(self).tokens().len() - old(self).index(), 12int,
    {
        let left = self.equality()?;
        let operator = match self.peek() {
            Some(TokenKind::Equals) => BinaryOperator::LogicalAnd,
            Some(token) => {
                return Err(ParserError::UnexpectedToken(token));
            },
            None => {
                return Ok(left);
            },
        };
        let right = self.equality()?;
        Ok(Expr::BinOp { operator, left: Box::new(left), right: Box::new(right) })
    }

    fn equality(&mut self) -> (r: ParserResult<Expr>)
        requires
            old(self).wf(),
        ensures
            final(self).wf(),
            final(self).tokens() == old(self).tokens(),
            (r, final(self).index()) == binary_spec(old(self).tokens(), old(self).index(), equality_level()),
            moved_on(r, old(self).index(), final(self).index(), old(self).tokens().len() as int),
        decreases old(self).tokens().len() - old(self).index(), 10int,
    {
        let left = self.comparison()?;
        let operator = match self.peek() {
            Some(TokenKind::Equals) => BinaryOperator::Equals,
            Some(TokenKind::NotEquals) => BinaryOperator::NotEquals,
            Some(token) => {
                return Err(ParserError::UnexpectedToken(token));
            },
            None => {
                return Ok(left);
            },
        };
        let right = self.comparison()?;
        Ok(Expr::BinOp { operator, left: Box::new(left), right: Box::new(right) })
    }

    fn comparison(&mut self) -> (r: ParserResult<Expr>)
        requires
            old(self).wf(),
        ensures
            final(self).wf(),
            final(self).tokens() == old(self).tokens(),
            (r, final(self).index()) == binary_spec(old(self).tokens(), old(self).index(), comparison_level()),
            moved_on(r, old(self).index(), final(self).index(), old(self).tokens().len() as int),
        decreases old(self).tokens().len() - old(self).index(), 8int,
    {
        let left = self.term()?;
        let operator = match self.peek() {
            Some(TokenKind::GreaterThan) => BinaryOperator::GreaterThan,
            Some(TokenKind::GreaterEquals) => BinaryOperator::GreaterEquals,
            Some(TokenKind::LessThan) => BinaryOperator::LesserThan,
            Some(TokenKind::LesserEquals) => BinaryOperator::LesserEquals,
            Some(token) => {
                return Err(ParserError::UnexpectedToken(token));
            },
            None => {
                return Ok(left);
            },
        };
        let right = self.term()?;
        Ok(Expr::BinOp { operator, left: Box::new(left), right: Box::new(right) })
    }

    fn term(&mut self) -> (r: ParserResult<Expr>)
        requires
            old(self).wf(),
        ensures
            final(self).wf(),
            final(self).tokens() == old(self).tokens(),
            (r, final(self).index()) == binary_spec(old(self).tokens(), old(self).index(), term_level()),
            moved_on(r, old(self).index(), final(self).index(), old(self).tokens().len() as int),
        decreases old(self).tokens().len() - old(self).index(), 6int,
    {
        let left = self.factor()?;
        let operator = match self.peek() {
            Some(TokenKind::Plus) => BinaryOperator::Plus,
            Some(TokenKind::Minus) => BinaryOperator::Minus,
            Some(token) => {
                return Err(ParserError::UnexpectedToken(token));
            },
            None => {
                return Ok(left);
            },
        };
        let right = self.factor()?;
        Ok(Expr::BinOp { operator, left: Box::new(left), right: Box::new(right) })
    }

    fn factor(&mut self) -> (r: ParserResult<Expr>)
        requires
            old(self).wf(),
        ensures
            final(self).wf(),
            final(self).tokens() == old(self).tokens(),
            (r, final(self).index()) == binary_spec(old(self).tokens(), old(self).index(), factor_level()),
            moved_on(r, old(self).index(), final(self).index(), old(self).tokens().len() as int),
        decreases old(self).tokens().len() - old(self).index(), 4int,
    {
        let left = self.unary()?;
        let operator = match self.peek() {
            Some(TokenKind::Asterisk) => BinaryOperator::Times,
            Some(TokenKind::Slash) => BinaryOperator::Divide,
            Some(token) => {
                return Err(ParserError::UnexpectedToken(token));
            },
            None => {
                return Ok(left);
            },
        };
        let right = self.unary()?;
        Ok(Expr::BinOp { operator, left: Box::new(left), right: Box::new(right) })
    }

    fn unary(&mut self) -> (r: ParserResult<Expr>)
        requires
            old(self).wf(),
        ensures
            final(self).wf(),
            final(self).tokens() == old(self).tokens(),
            (r, final(self).index()) == unary_spec(old(self).tokens(), old(self).index()),
            moved_on(r, old(self).index(), final(self).index(), old(self).tokens().len() as int),
        decreases old(self).tokens().len() - old(self).index(), 2int,
    {
        match self.peek() {
            Some(TokenKind::Bang) => {
                self.advance();
                Ok(Expr::UnOp { operator: UnaryOperator::Not, expression: Box::new(self.unary()?) })
            },
            Some(TokenKind::Minus) => {
                self.advance();
                Ok(
                    Expr::UnOp {
                        operator: UnaryOperator::Minus,
                        expression: Box::new(self.unary()?),
                    },
                )
            },
            Some(_) => self.primary(),
            None => Err(ParserError::UnaryExpected),
        }
    }

    fn primary(&mut self) -> (r: ParserResult<Expr>)
        requires
            old(self).wf(),
            old(self).index() <= old(self).tokens().len() + 2,
        ensures
            final(self).wf(),
            final(self).tokens() == old(self).tokens(),
            (r, final(self).index()) == primary_spec(old(self).tokens(), old(self).index()),
            moved_on(r, old(self).index(), final(self).index(), old(self).tokens().len() as int),
        decreases old(self).tokens().len() - old(self).index(), 1int,
    {
        match self.advance() {
            Some(TokenKind::Numeric(num)) => Ok(Expr::NumericLiteral(num)),
            Some(TokenKind::Boolean(b)) => Ok(Expr::BooleanLiteral(b)),
            Some(TokenKind::Variable(var)) => Ok(Expr::Variable(var)),
            Some(TokenKind::LParen) => {
                self.advance();
                let expression = self.expression()?;
                match self.peek() {
                    Some(TokenKind::RParen) => {
                        return Ok(expression);
                    },
                    _ => {},
                }
                Err(ParserError::UnclosedParen)
            },
            Some(token) => Err(ParserError::UnexpectedToken(token)),
            None => Err(ParserError::PrimaryExpected),
        }
    }
}

} // verus!
