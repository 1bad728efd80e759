//! What the parser does with a list of tokens, as spec functions: each takes
//! the tokens and the index of the current token, and gives the result and the
//! index that the parser stands at afterwards.
use vstd::prelude::*;
use crate::lexer::{Keyword, TokenKind};
use super::error::ParserError;
use super::expr::{BinaryOperator, Expr, UnaryOperator};

verus! {

/// The token at index `i`, if there is one.
pub open spec fn tok(t: Seq<TokenKind>, i: int) -> Option<TokenKind> {
    if 0 <= i < t.len() {
        Some(t[i])
    } else {
        None
    }
}

/// What one rule of the parser gives, and the index it stops at.
pub type Parsed = (Result<Expr, ParserError>, int);

/// The binary levels of the grammar, from the loosest.
pub open spec fn or_level() -> nat {
    5
}

pub open spec fn and_level() -> nat {
    4
}

pub open spec fn equality_level() -> nat {
    3
}

pub open spec fn comparison_level() -> nat {
    2
}

pub open spec fn term_level() -> nat {
    1
}

pub open spec fn factor_level() -> nat {
    0
}

/// The operator that token `k` stands for at binary level `level`, if any.
pub open spec fn level_operator(level: nat, k: TokenKind) -> Option<BinaryOperator> {
    if level == 5 {
        match k {
            TokenKind::Equals => Some(BinaryOperator::LogicalOr),
            _ => None,
        }
    } else if level == 4 {
        match k {
            TokenKind::Equals => Some(BinaryOperator::LogicalAnd),
            _ => None,
        }
    } else if level == 3 {
        match k {
            TokenKind::Equals => Some(BinaryOperator::Equals),
            TokenKind::NotEquals => Some(BinaryOperator::NotEquals),
            _ => None,
        }
    } else if level == 2 {
        match k {
            TokenKind::GreaterThan => Some(BinaryOperator::GreaterThan),
            TokenKind::GreaterEquals => Some(BinaryOperator::GreaterEquals),
            TokenKind::LessThan => Some(BinaryOperator::LesserThan),
            TokenKind::LesserEquals => Some(BinaryOperator::LesserEquals),
            _ => None,
        }
    } else if level == 1 {
        match k {
            TokenKind::Plus => Some(BinaryOperator::Plus),
            TokenKind::Minus => Some(BinaryOperator::Minus),
            _ => None,
        }
    } else {
        match k {
            TokenKind::Asterisk => Some(BinaryOperator::Times),
            TokenKind::Slash => Some(BinaryOperator::Divide),
            _ => None,
        }
    }
}

/// An expression: a declaration when the current token is `set`, else an `or`;
/// it must stop on a `;`.
pub open spec fn expression_spec(t: Seq<TokenKind>, i: int) -> Parsed
    decreases t.len() - i, 16int,
{
    let (r, j) = match tok(t, i) {
        Some(TokenKind::Keyword(Keyword::SetKeyword)) => declaration_spec(t, i),
        Some(_) => binary_spec(t, i, or_level()),
        None => (Err(ParserError::ExpectedExpression), i),
    };
    match tok(t, j) {
        Some(TokenKind::SemiColon) => (r, j),
        _ => (Err(ParserError::ExpectedSemicolon), j),
    }
}

/// A declaration: the three tokens after the current one are `set`, a
/// variable, and `;` or `=` followed by an expression.
pub open spec fn declaration_spec(t: Seq<TokenKind>, i: int) -> Parsed
    decreases t.len() - i, 15int,
{
    let k = i + 3;
    match (tok(t, i + 1), tok(t, i + 2), tok(t, k)) {
        (
            Some(TokenKind::Keyword(Keyword::SetKeyword)),
            Some(TokenKind::Variable(v)),
            Some(TokenKind::SemiColon),
        ) => (Ok(Expr::Declaration { variable: v, assignment: None }), k),
        (
            Some(TokenKind::Keyword(Keyword::SetKeyword)),
            Some(TokenKind::Variable(v)),
            Some(TokenKind::Assign),
        ) => {
            let (r, m) = expression_spec(t, k);
            match r {
                Ok(e) => (Ok(Expr::Declaration { variable: v, assignment: Some(Box::new(e)) }), m),
                Err(e) => (Err(e), m),
            }
        },
        _ => (Err(ParserError::ExpectedAssignment), k),
    }
}

/// An operand of binary level `level`: the next tighter level, or a unary.
pub open spec fn operand_spec(t: Seq<TokenKind>, i: int, level: nat) -> Parsed
    decreases t.len() - i, 2 * level + 3,
{
    if level == 0 {
        unary_spec(t, i)
    } else {
        binary_spec(t, i, (level - 1) as nat)
    }
}

/// Binary level `level`: an operand; then, where a token follows, it must be an
/// operator of this level, and a second operand is read from that token on.
pub open spec fn binary_spec(t: Seq<TokenKind>, i: int, level: nat) -> Parsed
    decreases t.len() - i, 2 * level + 4,
{
    let (l, j) = operand_spec(t, i, level);
    match l {
        Err(e) => (Err(e), j),
        Ok(left) => match tok(t, j) {
            None => (Ok(left), j),
            Some(k) => match level_operator(level, k) {
                None => (Err(ParserError::UnexpectedToken(k)), j),
                Some(operator) => if i < j <= t.len() {
                    let (r, m) = operand_spec(t, j, level);
                    match r {
                        Err(e) => (Err(e), m),
                        Ok(right) => (
                            Ok(
                                Expr::BinOp {
                                    operator,
                                    left: Box::new(left),
                                    right: Box::new(right),
                                },
                            ),
                            m,
                        ),
                    }
                } else {
                    (Err(ParserError::UnexpectedToken(k)), j)
                },
            },
        },
    }
}

/// A unary: `!` or `-` before a unary, or else a primary.
pub open spec fn unary_spec(t: Seq<TokenKind>, i: int) -> Parsed
    decreases t.len() - i, 2int,
{
    match tok(t, i) {
        Some(TokenKind::Bang) => {
            let (r, j) = unary_spec(t, i + 1);
            match r {
                Ok(e) => (Ok(Expr::UnOp { operator: UnaryOperator::Not, expression: Box::new(e) }), j),
                Err(e) => (Err(e), j),
            }
        },
        Some(TokenKind::Minus) => {
            let (r, j) = unary_spec(t, i + 1);
            match r {
                Ok(e) => (Ok(Expr::UnOp { operator: UnaryOperator::Minus, expression: Box::new(e) }), j),
                Err(e) => (Err(e), j),
            }
        },
        Some(_) => primary_spec(t, i),
        None => (Err(ParserError::UnaryExpected), i),
    }
}

/// A primary, read from the token after the current one: a literal, a
/// variable, or `(` followed by an expression and `)`.
pub open spec fn primary_spec(t: Seq<TokenKind>, i: int) -> Parsed
    decreases t.len() - i, 1int,
{
    let j = i + 1;
    match tok(t, j) {
        Some(TokenKind::Numeric(n)) => (Ok(Expr::NumericLiteral(n)), j),
        Some(TokenKind::Boolean(b)) => (Ok(Expr::BooleanLiteral(b)), j),
        Some(TokenKind::Variable(v)) => (Ok(Expr::Variable(v)), j),
        Some(TokenKind::LParen) => {
            let (r, m) = expression_spec(t, j + 1);
            match r {
                Err(e) => (Err(e), m),
                Ok(e) => match tok(t, m) {
                    Some(TokenKind::RParen) => (Ok(e), m),
                    _ => (Err(ParserError::UnclosedParen), m),
                },
            }
        },
        Some(k) => (Err(ParserError::UnexpectedToken(k)), j),
        None => (Err(ParserError::PrimaryExpected), j),
    }
}

/// The whole parse from index `i`: while tokens are left, an expression is
/// read, then a second one, which is kept.
pub open spec fn parse_spec(t: Seq<TokenKind>, i: int) -> (Result<Seq<Expr>, ParserError>, int)
    decreases t.len() - i,
{
    if i >= t.len() {
        (Ok(Seq::empty()), i)
    } else {
        let (first, j) = expression_spec(t, i);
        match first {
            Err(e) => (Err(e), j),
            Ok(_) => {
                let (second, k) = expression_spec(t, j);
                match second {
                    Err(e) => (Err(e), k),
                    Ok(e) => if i < k <= t.len() {
                        let (rest, m) = parse_spec(t, k);
                        match rest {
                            Ok(es) => (Ok(seq![e] + es), m),
                            Err(err) => (Err(err), m),
                        }
                    } else {
                        (Ok(seq![e]), k)
                    },
                }
            },
        }
    }
}

} // verus!
