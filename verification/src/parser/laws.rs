//! What holds of every run of the parser, and of operators read from source.
use vstd::prelude::*;
use crate::lexer::rules::{
    char_at, lemma_scan_bounds, next_token_spec, scan, CharClass,
};
use crate::lexer::{TokenKind, TokenKindView, TokenView, LexErrorView};
use crate::lexer::rules::token_at;
use super::error::ParserError;
use super::expr::{
    binary_of_token, binary_text, expr_text, unary_of_token, unary_text, BinaryOperator, Expr,
    UnaryOperator,
};
use super::grammar::{binary_spec, declaration_spec, expression_spec, operand_spec, parse_spec, primary_spec, tok, unary_spec};

verus! {

/// A token that a literal or a variable is read from.
pub open spec fn is_value_token(k: Option<TokenKind>) -> bool {
    match k {
        Some(TokenKind::Numeric(_)) => true,
        Some(TokenKind::Boolean(_)) => true,
        Some(TokenKind::Variable(_)) => true,
        _ => false,
    }
}

/// An expression that is read successfully stops on a `;`.
pub proof fn lemma_expression_stops_on_semicolon(t: Seq<TokenKind>, i: int)
    ensures
        expression_spec(t, i).0 is Ok ==> tok(t, expression_spec(t, i).1) == Some(TokenKind::SemiColon),
{
}

/// A unary that is read successfully stops on the literal or variable that it
/// read last.
pub proof fn lemma_unary_stops_on_value(t: Seq<TokenKind>, i: int)
    ensures
        unary_spec(t, i).0 is Ok ==> is_value_token(tok(t, unary_spec(t, i).1)),
    decreases t.len() - i,
{
    match tok(t, i) {
        Some(TokenKind::Bang) => {
            lemma_unary_stops_on_value(t, i + 1);
        },
        Some(TokenKind::Minus) => {
            lemma_unary_stops_on_value(t, i + 1);
        },
        Some(_) => {
            let j = i + 1;
            lemma_expression_stops_on_semicolon(t, j + 1);
            assert(primary_spec(t, i).0 is Ok ==> is_value_token(tok(t, primary_spec(t, i).1)));
        },
        None => {},
    }
}

/// No binary level of the grammar ever succeeds: after a successful operand
/// the parser stands on a literal or variable, which is no operator.
pub proof fn lemma_binary_fails(t: Seq<TokenKind>, i: int, level: nat)
    ensures
        binary_spec(t, i, level).0 is Err,
    decreases level,
{
    if level == 0 {
        lemma_unary_stops_on_value(t, i);
    } else {
        lemma_binary_fails(t, i, (level - 1) as nat);
    }
    assert(operand_spec(t, i, level).0 is Ok ==> is_value_token(tok(t, operand_spec(t, i, level).1)));
}

/// An expression is read successfully only from a `set` token.
pub proof fn lemma_expression_needs_set(t: Seq<TokenKind>, i: int)
    ensures
        expression_spec(t, i).0 is Ok ==> tok(t, i) matches Some(TokenKind::Keyword(_)),
{
    lemma_binary_fails(t, i, 5);
}

/// `parse` succeeds exactly when no token is left to read: every round reads
/// its second expression from the `;` where the first stopped, and no
/// expression can be read from a `;`.
pub proof fn law_parse_succeeds_only_at_end(t: Seq<TokenKind>, i: int)
    requires
        0 <= i,
    ensures
        parse_spec(t, i).0 is Ok <==> i >= t.len(),
{
    if i < t.len() {
        let (first, j) = expression_spec(t, i);
        lemma_expression_stops_on_semicolon(t, i);
        lemma_expression_needs_set(t, j);
    }
}

/// A token that the lexer reads as an operator is written as that operator's
/// symbol.
pub proof fn law_operator_tokens_are_written_as_symbols(src: Seq<char>, pos: int, kind: TokenKind)
    requires
        0 <= pos <= src.len(),
    ensures
        next_token_spec(src, pos).0 matches Ok(Some(tv)) ==> (tv.kind == kind@ ==> {
            &&& (binary_of_token(kind) matches Ok(op) ==> binary_text(op) == tv.lexeme)
            &&& (unary_of_token(kind) matches Ok(op) ==> unary_text(op) == tv.lexeme)
        }),
    decreases src.len() - pos,
{
    lemma_scan_bounds(src, pos, CharClass::Whitespace);
    let s = scan(src, pos, CharClass::Whitespace);
    if 0 <= s < src.len() {
        let p = s + 1;
        if src[s] == '/' && char_at(src, p) == Some('/') {
            lemma_scan_bounds(src, p + 1, CharClass::NotNewline);
            law_operator_tokens_are_written_as_symbols(src, scan(src, p + 1, CharClass::NotNewline), kind);
        } else if p < src.len() {
            assert(src.subrange(s, p) =~= seq![src[s]]);
            assert(src.subrange(s, p + 1) =~= seq![src[s], src[p]]);
        } else {
            assert(src.subrange(s, p) =~= seq![src[s]]);
        }
    }
}

/// Past the end of the tokens every rule fails and leaves the index where it
/// was: an expression with `ExpectedSemicolon`, a unary (and so every binary
/// level) with `UnaryExpected`, a primary with `PrimaryExpected`.
pub proof fn law_past_the_end(t: Seq<TokenKind>, i: int, level: nat)
    requires
        i >= t.len(),
    ensures
        expression_spec(t, i) == (Err::<Expr, ParserError>(ParserError::ExpectedSemicolon), i),
        unary_spec(t, i) == (Err::<Expr, ParserError>(ParserError::UnaryExpected), i),
        binary_spec(t, i, level) == (Err::<Expr, ParserError>(ParserError::UnaryExpected), i),
        primary_spec(t, i).0 == Err::<Expr, ParserError>(ParserError::PrimaryExpected),
    decreases level,
{
    if level > 0 {
        law_past_the_end(t, i, (level - 1) as nat);
    }
    assert(operand_spec(t, i, level) == (Err::<Expr, ParserError>(ParserError::UnaryExpected), i));
}

/// A declaration that succeeds is a `Declaration` of a variable that stands
/// two tokens after the current one.
pub proof fn law_declaration_names_a_variable(t: Seq<TokenKind>, i: int)
    ensures
        declaration_spec(t, i).0 matches Ok(e) ==> e matches Expr::Declaration { variable, .. }
            && tok(t, i + 2) == Some(TokenKind::Variable(variable)),
{
}

/// How each binary operator is written, and the token kind that stands for it.
pub proof fn law_binary_operator_table()
    ensures
        binary_text(BinaryOperator::Plus) == seq!['+'],
        binary_text(BinaryOperator::Minus) == seq!['-'],
        binary_text(BinaryOperator::Divide) == seq!['/'],
        binary_text(BinaryOperator::Times) == seq!['*'],
        binary_text(BinaryOperator::LogicalAnd) == seq!['&', '&'],
        binary_text(BinaryOperator::LogicalOr) == seq!['|', '|'],
        binary_text(BinaryOperator::Equals) == seq!['=', '='],
        binary_text(BinaryOperator::NotEquals) == seq!['!', '='],
        binary_text(BinaryOperator::GreaterThan) == seq!['>'],
        binary_text(BinaryOperator::LesserThan) == seq!['<'],
        binary_text(BinaryOperator::GreaterEquals) == seq!['>', '='],
        binary_text(BinaryOperator::LesserEquals) == seq!['<', '='],
        binary_of_token(TokenKind::Plus) == Ok::<BinaryOperator, ()>(BinaryOperator::Plus),
        binary_of_token(TokenKind::Minus) == Ok::<BinaryOperator, ()>(BinaryOperator::Minus),
        binary_of_token(TokenKind::Slash) == Ok::<BinaryOperator, ()>(BinaryOperator::Divide),
        binary_of_token(TokenKind::Asterisk) == Ok::<BinaryOperator, ()>(BinaryOperator::Times),
        binary_of_token(TokenKind::LogicalAnd) == Ok::<BinaryOperator, ()>(BinaryOperator::LogicalAnd),
        binary_of_token(TokenKind::LogicalOr) == Ok::<BinaryOperator, ()>(BinaryOperator::LogicalOr),
        binary_of_token(TokenKind::Equals) == Ok::<BinaryOperator, ()>(BinaryOperator::Equals),
        binary_of_token(TokenKind::NotEquals) == Ok::<BinaryOperator, ()>(BinaryOperator::NotEquals),
        binary_of_token(TokenKind::GreaterThan) == Ok::<BinaryOperator, ()>(
            BinaryOperator::GreaterThan,
        ),
        binary_of_token(TokenKind::LessThan) == Ok::<BinaryOperator, ()>(BinaryOperator::LesserThan),
        binary_of_token(TokenKind::GreaterEquals) == Ok::<BinaryOperator, ()>(
            BinaryOperator::GreaterEquals,
        ),
        binary_of_token(TokenKind::LesserEquals) == Ok::<BinaryOperator, ()>(
            BinaryOperator::LesserEquals,
        ),
        binary_of_token(TokenKind::Assign) == Err::<BinaryOperator, ()>(()),
        binary_of_token(TokenKind::Bang) == Err::<BinaryOperator, ()>(()),
{
}

/// How each unary operator is written, and the token kind that stands for it.
pub proof fn law_unary_operator_table()
    ensures
        unary_text(UnaryOperator::Not) == seq!['!'],
        unary_text(UnaryOperator::Minus) == seq!['-'],
        unary_of_token(TokenKind::Bang) == Ok::<UnaryOperator, ()>(UnaryOperator::Not),
        unary_of_token(TokenKind::Minus) == Ok::<UnaryOperator, ()>(UnaryOperator::Minus),
        unary_of_token(TokenKind::Plus) == Err::<UnaryOperator, ()>(()),
{
}

/// Lexing a binary operator's symbol alone yields one token over the whole
/// symbol, whose kind converts back to that operator.
pub proof fn law_binary_symbol_relexes(op: BinaryOperator)
    ensures
        next_token_spec(binary_text(op), 0).1 == binary_text(op).len(),
        next_token_spec(binary_text(op), 0).0 matches Ok(Some(t)) && t.lexeme == binary_text(op)
            && forall|k: TokenKind| #[trigger] k@ == t.kind ==> binary_of_token(k) == Ok::<
            BinaryOperator,
            (),
        >(op),
{
    let w = binary_text(op);
    assert(scan(w, 0, CharClass::Whitespace) == 0);
    assert(w.subrange(0, w.len() as int) =~= w);
}

/// Lexing a unary operator's symbol alone yields one token over the whole
/// symbol, whose kind converts back to that operator.
pub proof fn law_unary_symbol_relexes(op: UnaryOperator)
    ensures
        next_token_spec(unary_text(op), 0).1 == unary_text(op).len(),
        next_token_spec(unary_text(op), 0).0 matches Ok(Some(t)) && t.lexeme == unary_text(op)
            && forall|k: TokenKind| #[trigger] k@ == t.kind ==> unary_of_token(k) == Ok::<
            UnaryOperator,
            (),
        >(op),
{
    let w = unary_text(op);
    assert(scan(w, 0, CharClass::Whitespace) == 0);
    assert(w.subrange(0, w.len() as int) =~= w);
}

/// A boolean literal is written as the word that the lexer reads back as that
/// same boolean.
pub proof fn law_boolean_renders_as_its_word(b: bool)
    ensures
        next_token_spec(expr_text(Expr::BooleanLiteral(b)), 0) == (
            Ok::<Option<TokenView>, LexErrorView>(
                Some(
                    token_at(
                        expr_text(Expr::BooleanLiteral(b)),
                        0,
                        expr_text(Expr::BooleanLiteral(b)).len() as int,
                        TokenKindView::Boolean(b),
                    ),
                ),
            ),
            expr_text(Expr::BooleanLiteral(b)).len() as int,
        ),
{
    let w = expr_text(Expr::BooleanLiteral(b));
    assert(scan(w, 0, CharClass::Whitespace) == 0);
    assert(scan(w, 1, CharClass::Word) == w.len()) by {
        reveal_with_fuel(scan, 6);
    }
    assert(w.subrange(0, w.len() as int) =~= w);
}

} // verus!
