//! Expressions that the parser builds, and their operators.
use vstd::prelude::*;
use vstd::string::StringExecFns;
use crate::lexer::TokenKind;

verus! {

/// A binary operator.
#[derive(Debug, PartialEq, Eq, Copy, Clone)]
pub enum BinaryOperator {
    Plus,
    Minus,
    Divide,
    Times,
    LogicalAnd,
    LogicalOr,
    Equals,
    NotEquals,
    GreaterThan,
    LesserThan,
    GreaterEquals,
    LesserEquals,
}

/// A unary operator.
#[derive(Debug, PartialEq, Eq, Copy, Clone)]
pub enum UnaryOperator {
    Not,
    Minus,
}

/// An expression.
///
/// A numeric literal carries its source text (see [`TokenKind::Numeric`]).
#[derive(Debug, PartialEq)]
pub enum Expr {
    Declaration { variable: String, assignment: Option<Box<Expr>> },
    BinOp { operator: BinaryOperator, left: Box<Expr>, right: Box<Expr> },
    UnOp { operator: UnaryOperator, expression: Box<Expr> },
    NumericLiteral(String),
    BooleanLiteral(bool),
    Variable(String),
}

/// How a binary operator is written.
pub open spec fn binary_text(op: BinaryOperator) -> Seq<char> {
    match op {
        BinaryOperator::Plus => seq!['+'],
        BinaryOperator::Minus => seq!['-'],
        BinaryOperator::Divide => seq!['/'],
        BinaryOperator::Times => seq!['*'],
        BinaryOperator::LogicalAnd => seq!['&', '&'],
        BinaryOperator::LogicalOr => seq!['|', '|'],
        BinaryOperator::Equals => seq!['=', '='],
        BinaryOperator::NotEquals => seq!['!', '='],
        BinaryOperator::GreaterThan => seq!['>'],
        BinaryOperator::LesserThan => seq!['<'],
        BinaryOperator::GreaterEquals => seq!['>', '='],
        BinaryOperator::LesserEquals => seq!['<', '='],
    }
}

/// How a unary operator is written.
pub open spec fn unary_text(op: UnaryOperator) -> Seq<char> {
    match op {
        UnaryOperator::Not => seq!['!'],
        UnaryOperator::Minus => seq!['-'],
    }
}

/// The binary operator that a token stands for, if any.
pub open spec fn binary_of_token(kind: TokenKind) -> Result<BinaryOperator, ()> {
    match kind {
        TokenKind::Minus => Ok(BinaryOperator::Minus),
        TokenKind::Plus => Ok(BinaryOperator::Plus),
        TokenKind::Slash => Ok(BinaryOperator::Divide),
        TokenKind::Asterisk => Ok(BinaryOperator::Times),
        TokenKind::GreaterThan => Ok(BinaryOperator::GreaterThan),
        TokenKind::LessThan => Ok(BinaryOperator::LesserThan),
        TokenKind::Equals => Ok(BinaryOperator::Equals),
        TokenKind::NotEquals => Ok(BinaryOperator::NotEquals),
        TokenKind::GreaterEquals => Ok(BinaryOperator::GreaterEquals),
        TokenKind::LesserEquals => Ok(BinaryOperator::LesserEquals),
        TokenKind::LogicalAnd => Ok(BinaryOperator::LogicalAnd),
        TokenKind::LogicalOr => Ok(BinaryOperator::LogicalOr),
        _ => Err(()),
    }
}

/// The unary operator that a token stands for, if any.
pub open spec fn unary_of_token(kind: TokenKind) -> Result<UnaryOperator, ()> {
    match kind {
        TokenKind::Minus => Ok(UnaryOperator::Minus),
        TokenKind::Bang => Ok(UnaryOperator::Not),
        _ => Err(()),
    }
}

impl BinaryOperator {
    /// How this operator is written.
    pub fn symbol(&self) -> (s: &'static str)
        ensures
            s@ == binary_text(*self),
    {
        match self {
            BinaryOperator::Plus => {
                proof { reveal_strlit("+"); }
                "+"
            },
            BinaryOperator::Minus => {
                proof { reveal_strlit("-"); }
                "-"
            },
            BinaryOperator::Divide => {
                proof { reveal_strlit("/"); }
                "/"
            },
            BinaryOperator::Times => {
                proof { reveal_strlit("*"); }
                "*"
            },
            BinaryOperator::LogicalAnd => {
                proof { reveal_strlit("&&"); }
                "&&"
            },
            BinaryOperator::LogicalOr => {
                proof { reveal_strlit("||"); }
                "||"
            },
            BinaryOperator::Equals => {
                proof { reveal_strlit("=="); }
                "=="
            },
            BinaryOperator::NotEquals => {
                proof { reveal_strlit("!="); }
                "!="
            },
            BinaryOperator::GreaterThan => {
                proof { reveal_strlit(">"); }
                ">"
            },
            BinaryOperator::LesserThan => {
                proof { reveal_strlit("<"); }
                "<"
            },
            BinaryOperator::GreaterEquals => {
                proof { reveal_strlit(">="); }
                ">="
            },
            BinaryOperator::LesserEquals => {
                proof { reveal_strlit("<="); }
                "<="
            },
        }
    }
}

impl UnaryOperator {
    /// How this operator is written.
    pub fn symbol(&self) -> (s: &'static str)
        ensures
            s@ == unary_text(*self),
    {
        match self {
            UnaryOperator::Not => {
                proof { reveal_strlit("!"); }
                "!"
            },
            UnaryOperator::Minus => {
                proof { reveal_strlit("-"); }
                "-"
            },
        }
    }
}

impl TryFrom<TokenKind> for BinaryOperator {
    type Error = ();

    fn try_from(value: TokenKind) -> (r: Result<Self, Self::Error>) {
        match value {
            TokenKind::Minus => Ok(Self::Minus),
            TokenKind::Plus => Ok(Self::Plus),
            TokenKind::Slash => Ok(Self::Divide),
            TokenKind::Asterisk => Ok(Self::Times),
            TokenKind::GreaterThan => Ok(Self::GreaterThan),
            TokenKind::LessThan => Ok(Self::LesserThan),
            TokenKind::Equals => Ok(Self::Equals),
            TokenKind::NotEquals => Ok(Self::NotEquals),
            TokenKind::GreaterEquals => Ok(Self::GreaterEquals),
            TokenKind::LesserEquals => Ok(Self::LesserEquals),
            TokenKind::LogicalAnd => Ok(Self::LogicalAnd),
            TokenKind::LogicalOr => Ok(Self::LogicalOr),
            _ => Err(()),
        }
    }
}

impl vstd::std_specs::convert::TryFromSpecImpl<TokenKind> for BinaryOperator {
    open spec fn obeys_try_from_spec() -> bool {
        true
    }

    open spec fn try_from_spec(v: TokenKind) -> Result<Self, ()> {
        binary_of_token(v)
    }
}

impl TryFrom<TokenKind> for UnaryOperator {
    type Error = ();

    fn try_from(value: TokenKind) -> (r: Result<Self, Self::Error>) {
        match value {
            TokenKind::Minus => Ok(Self::Minus),
            TokenKind::Bang => Ok(Self::Not),
            _ => Err(()),
        }
    }
}

impl vstd::std_specs::convert::TryFromSpecImpl<TokenKind> for UnaryOperator {
    open spec fn obeys_try_from_spec() -> bool {
        true
    }

    open spec fn try_from_spec(v: TokenKind) -> Result<Self, ()> {
        unary_of_token(v)
    }
}

/// How an expression is written out: in prefix form, with parentheses.
pub open spec fn expr_text(e: Expr) -> Seq<char>
    decreases e,
{
    match e {
        Expr::Declaration { variable, assignment } => match assignment {
            Some(a) => seq!['(', 's', 'e', 't', ' '] + variable@ + seq![' ', '=', ' '] + expr_text(*a)
                + seq![')'],
            None => seq!['(', 's', 'e', 't', ' '] + variable@ + seq![')'],
        },
        Expr::BinOp { operator, left, right } => seq!['('] + binary_text(operator) + seq![' ']
            + expr_text(*left) + seq![' '] + expr_text(*right) + seq![')'],
        Expr::UnOp { operator, expression } => seq!['('] + unary_text(operator) + seq![' ']
            + expr_text(*expression) + seq![')'],
        Expr::NumericLiteral(text) => text@,
        Expr::BooleanLiteral(b) => if b {
            seq!['t', 'r', 'u', 'e']
        } else {
            seq!['f', 'a', 'l', 's', 'e']
        },
        Expr::Variable(name) => name@,
    }
}

impl Expr {
    /// Writes this expression out in prefix form, with parentheses, as
    /// `(set x = (+ 1 2))`. A numeric literal is written as its text.
    pub fn render(&self) -> (s: String)
        ensures
            s@ == expr_text(*self),
        decreases self,
    {
        let mut out = String::new();
        match self {
            Expr::Declaration { variable, assignment } => {
                let open = "(set ";
                let close = ")";
                proof {
                    reveal_strlit("(set ");
                    reveal_strlit(")");
                }
                out.append(open);
                out.append(variable.as_str());
                match assignment {
                    Some(a) => {
                        let eq = " = ";
                        proof {
                            reveal_strlit(" = ");
                        }
                        out.append(eq);
                        let inner = a.render();
                        out.append(inner.as_str());
                    },
                    None => {},
                }
                out.append(close);
            },
            Expr::BinOp { operator, left, right } => {
                let open = "(";
                let space = " ";
                let close = ")";
                proof {
                    reveal_strlit("(");
                    reveal_strlit(" ");
                    reveal_strlit(")");
                }
                out.append(open);
                out.append(operator.symbol());
                out.append(space);
                let l = left.render();
                out.append(l.as_str());
                out.append(space);
                let r = right.render();
                out.append(r.as_str());
                out.append(close);
            },
            Expr::UnOp { operator, expression } => {
                let open = "(";
                let space = " ";
                let close = ")";
                proof {
                    reveal_strlit("(");
                    reveal_strlit(" ");
                    reveal_strlit(")");
                }
                out.append(open);
                out.append(operator.symbol());
                out.append(space);
                let inner = expression.render();
                out.append(inner.as_str());
                out.append(close);
            },
            Expr::NumericLiteral(text) => {
                out.append(text.as_str());
            },
            Expr::BooleanLiteral(b) => {
                if *b {
                    let t = "true";
                    proof {
                        reveal_strlit("true");
                    }
                    out.append(t);
                } else {
                    let f = "false";
                    proof {
                        reveal_strlit("false");
                    }
                    out.append(f);
                }
            },
            Expr::Variable(name) => {
                out.append(name.as_str());
            },
        }
        out
    }
}

} // verus!
