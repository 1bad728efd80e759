use synta::lexer::{tokenize, Keyword, TokenKind};
use synta::parser::{BinaryOperator, Expr, Parser, ParserError, UnaryOperator};

fn var(name: &str) -> TokenKind {
    TokenKind::Variable(String::from(name))
}

fn parse(tokens: Vec<TokenKind>) -> Result<Vec<Expr>, ParserError> {
    Parser::new(tokens).parse()
}

#[test]
fn blabla() {
    let tokens = vec![TokenKind::Keyword(Keyword::SetKeyword)];
    let _parser = Parser::new(tokens);
}

#[test]
fn empty_input_parses_to_nothing() {
    assert_eq!(parse(vec![]), Ok(vec![]));
}

#[test]
fn parse_fails_on_any_token() {
    let cases = vec![
        vec![TokenKind::SemiColon],
        vec![TokenKind::Keyword(Keyword::SetKeyword), TokenKind::Keyword(Keyword::SetKeyword), var("x"), TokenKind::SemiColon],
        vec![TokenKind::Numeric(String::from("1")), TokenKind::SemiColon],
        vec![TokenKind::Bang, TokenKind::Boolean(true), TokenKind::SemiColon],
    ];
    for tokens in cases {
        assert!(parse(tokens).is_err());
    }
}

#[test]
fn declaration_then_missing_semicolon() {
    // The first expression reads `set set x ;`, the second starts on `;`.
    let tokens = vec![
        TokenKind::Keyword(Keyword::SetKeyword),
        TokenKind::Keyword(Keyword::SetKeyword),
        var("x"),
        TokenKind::SemiColon,
    ];
    assert_eq!(parse(tokens), Err(ParserError::ExpectedSemicolon));
}

#[test]
fn unexpected_token() {
    let tokens = vec![TokenKind::Plus, TokenKind::SemiColon];
    assert_eq!(parse(tokens), Err(ParserError::UnexpectedToken(TokenKind::SemiColon)));
}

#[test]
fn expected_assignment() {
    let tokens = vec![
        TokenKind::Keyword(Keyword::SetKeyword),
        var("x"),
        TokenKind::Assign,
        TokenKind::SemiColon,
    ];
    assert_eq!(parse(tokens), Err(ParserError::ExpectedAssignment));
}

#[test]
fn unclosed_paren() {
    let tokens = vec![
        TokenKind::Plus,
        TokenKind::LParen,
        TokenKind::Keyword(Keyword::SetKeyword),
        TokenKind::Keyword(Keyword::SetKeyword),
        var("x"),
        TokenKind::SemiColon,
    ];
    assert_eq!(parse(tokens), Err(ParserError::UnclosedParen));
}

#[test]
fn parse_lexed_source() {
    // `set x = 1;`: the declaration reads the three tokens after `set`, which
    // are no `set`, and stops on `1`, where no `;` stands.
    let kinds: Vec<TokenKind> = tokenize("set x = 1;").unwrap().into_iter().map(|t| t.kind).collect();
    assert_eq!(parse(kinds), Err(ParserError::ExpectedSemicolon));
}

#[test]
fn binary_operator_from_token() {
    assert_eq!(BinaryOperator::try_from(TokenKind::Minus), Ok(BinaryOperator::Minus));
    assert_eq!(BinaryOperator::try_from(TokenKind::Slash), Ok(BinaryOperator::Divide));
    assert_eq!(BinaryOperator::try_from(TokenKind::LessThan), Ok(BinaryOperator::LesserThan));
    assert_eq!(BinaryOperator::try_from(TokenKind::LogicalOr), Ok(BinaryOperator::LogicalOr));
    assert_eq!(BinaryOperator::try_from(TokenKind::Bang), Err(()));
    assert_eq!(BinaryOperator::try_from(var("x")), Err(()));
}

#[test]
fn unary_operator_from_token() {
    assert_eq!(UnaryOperator::try_from(TokenKind::Minus), Ok(UnaryOperator::Minus));
    assert_eq!(UnaryOperator::try_from(TokenKind::Bang), Ok(UnaryOperator::Not));
    assert_eq!(UnaryOperator::try_from(TokenKind::Plus), Err(()));
}

#[test]
fn operator_tokens_are_written_as_symbols() {
    for token in tokenize("+ - / * == != > < >= <= && || !").unwrap() {
        if let Ok(op) = BinaryOperator::try_from(token.kind.clone()) {
            assert_eq!(op.symbol(), token.lexeme);
        }
        if let Ok(op) = UnaryOperator::try_from(token.kind.clone()) {
            assert_eq!(op.symbol(), token.lexeme);
        }
    }
}

#[test]
fn symbols() {
    assert_eq!(BinaryOperator::Times.symbol(), "*");
    assert_eq!(BinaryOperator::LogicalAnd.symbol(), "&&");
    assert_eq!(BinaryOperator::GreaterEquals.symbol(), ">=");
    assert_eq!(UnaryOperator::Not.symbol(), "!");
    assert_eq!(UnaryOperator::Minus.symbol(), "-");
}

#[test]
fn render_expressions() {
    let sum = Expr::BinOp {
        operator: BinaryOperator::Plus,
        left: Box::new(Expr::NumericLiteral(String::from("1"))),
        right: Box::new(Expr::UnOp {
            operator: UnaryOperator::Minus,
            expression: Box::new(Expr::Variable(String::from("y"))),
        }),
    };
    assert_eq!(sum.render(), "(+ 1 (- y))");
    let decl = Expr::Declaration { variable: String::from("x"), assignment: Some(Box::new(sum)) };
    assert_eq!(decl.render(), "(set x = (+ 1 (- y)))");
    let bare = Expr::Declaration { variable: String::from("z"), assignment: None };
    assert_eq!(bare.render(), "(set z)");
    assert_eq!(Expr::BooleanLiteral(false).render(), "false");
}
