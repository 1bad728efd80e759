use std::str::FromStr;
use synta::lexer::{tokenize, Keyword, LexError, Lexer, ParseKeywordError, Token, TokenKind};

/// What a test expects of a token kind: a kind, or a numeric literal of a value.
#[derive(Debug)]
enum Expected {
    Kind(TokenKind),
    Number(f64),
}

fn matches(expected: &Expected, kind: &TokenKind) -> bool {
    match (expected, kind) {
        (Expected::Kind(k), kind) => k == kind,
        (Expected::Number(v), TokenKind::Numeric(text)) => text.parse::<f64>().unwrap() == *v,
        _ => false,
    }
}

fn all_tokens(source: &str) -> Vec<Result<Token<'_>, LexError>> {
    let mut lexer = Lexer::new(source);
    let mut out = Vec::new();
    while let Some(item) = lexer.next() {
        out.push(item);
    }
    out
}

#[test]
fn mod_lex_symbols() {
    let source = ";:=+-/*()!!===//set\nvariable 167\nhello 12.4\n>= <= < >\ntrue false\n";

    let expected = vec![
        Expected::Kind(TokenKind::SemiColon),
        Expected::Kind(TokenKind::Colon),
        Expected::Kind(TokenKind::Assign),
        Expected::Kind(TokenKind::Plus),
        Expected::Kind(TokenKind::Minus),
        Expected::Kind(TokenKind::Slash),
        Expected::Kind(TokenKind::Asterisk),
        Expected::Kind(TokenKind::LParen),
        Expected::Kind(TokenKind::RParen),
        Expected::Kind(TokenKind::Bang),
        Expected::Kind(TokenKind::NotEquals),
        Expected::Kind(TokenKind::Equals),
        Expected::Kind(TokenKind::Variable(String::from("variable"))),
        Expected::Number(167f64),
        Expected::Kind(TokenKind::Variable(String::from("hello"))),
        Expected::Number(12.4),
        Expected::Kind(TokenKind::GreaterEquals),
        Expected::Kind(TokenKind::LesserEquals),
        Expected::Kind(TokenKind::LessThan),
        Expected::Kind(TokenKind::GreaterThan),
        Expected::Kind(TokenKind::Boolean(true)),
        Expected::Kind(TokenKind::Boolean(false)),
    ];

    let tokens: Vec<TokenKind> = all_tokens(source).into_iter().map(|t| t.unwrap().kind).collect();
    assert_eq!(expected.len(), tokens.len());
    for (e, k) in expected.iter().zip(tokens.iter()) {
        assert!(matches(e, k), "expected {:?}, got {:?}", e, k);
    }
}

#[test]
fn invalid_symbols() {
    let source = "@";
    let mut lexer = Lexer::new(source);

    while let Some(token) = lexer.next() {
        assert!(token.is_err());
    }
}

#[test]
fn unexpected_character_is_reported() {
    let items = all_tokens("@");
    assert_eq!(items.len(), 1);
    assert_eq!(items[0].as_ref().unwrap_err(), &LexError::UnexpectedCharacter('@'));
}

#[test]
fn lone_ampersand_reports_the_next_character() {
    let items = all_tokens("&x");
    assert_eq!(items[0].as_ref().unwrap_err(), &LexError::UnexpectedCharacter('x'));
    // The cursor stays on `x`, which is read next.
    assert_eq!(items[1].as_ref().unwrap().kind, TokenKind::Variable(String::from("x")));
}

#[test]
fn ampersand_at_end_is_unexpected_eof() {
    assert_eq!(all_tokens("&")[0].as_ref().unwrap_err(), &LexError::UnexpectedEof);
    assert_eq!(all_tokens("|")[0].as_ref().unwrap_err(), &LexError::UnexpectedEof);
}

#[test]
fn logical_operators() {
    let kinds: Vec<TokenKind> = all_tokens("&& ||").into_iter().map(|t| t.unwrap().kind).collect();
    assert_eq!(kinds, vec![TokenKind::LogicalAnd, TokenKind::LogicalOr]);
}

#[test]
fn numeric_with_two_dots_is_invalid() {
    let items = all_tokens("1.2.3 4");
    assert_eq!(items[0].as_ref().unwrap_err(), &LexError::InvalidNumeric(String::from("1.2.3")));
    assert_eq!(items[1].as_ref().unwrap().kind, TokenKind::Numeric(String::from("4")));
}

#[test]
fn numeric_with_trailing_dot_is_valid() {
    let items = all_tokens("12.");
    let kind = &items[0].as_ref().unwrap().kind;
    assert_eq!(kind, &TokenKind::Numeric(String::from("12.")));
    assert_eq!("12.".parse::<f64>().unwrap(), 12.0);
}

#[test]
fn words() {
    let kinds: Vec<TokenKind> =
        all_tokens("set true false x_1 Set").into_iter().map(|t| t.unwrap().kind).collect();
    assert_eq!(
        kinds,
        vec![
            TokenKind::Keyword(Keyword::SetKeyword),
            TokenKind::Boolean(true),
            TokenKind::Boolean(false),
            TokenKind::Variable(String::from("x_1")),
            TokenKind::Variable(String::from("Set")),
        ]
    );
}

#[test]
fn keyword_from_str() {
    assert_eq!(Keyword::from_str("set"), Ok(Keyword::SetKeyword));
    assert_eq!(Keyword::from_str("sets"), Err(ParseKeywordError(String::from("sets"))));
    assert_eq!(Keyword::from_str(""), Err(ParseKeywordError(String::new())));
}

#[test]
fn comment_runs_to_end_of_line() {
    let kinds: Vec<TokenKind> =
        all_tokens("+ // - * \n /").into_iter().map(|t| t.unwrap().kind).collect();
    assert_eq!(kinds, vec![TokenKind::Plus, TokenKind::Slash]);
}

#[test]
fn comment_runs_over_crlf() {
    // A `\r\n` pair is one step of the cursor, so a comment skips past it.
    let kinds: Vec<TokenKind> =
        all_tokens("; // c \r\n+\n-").into_iter().map(|t| t.unwrap().kind).collect();
    assert_eq!(kinds, vec![TokenKind::SemiColon, TokenKind::Minus]);
}

#[test]
fn positions_are_where_tokens_begin() {
    let tokens: Vec<Token> = all_tokens("ab  cd\n  ef\r\ng").into_iter().map(|t| t.unwrap()).collect();
    let at: Vec<(usize, usize)> = tokens.iter().map(|t| (t.position.line, t.position.column)).collect();
    assert_eq!(at, vec![(0, 0), (0, 4), (1, 2), (2, 0)]);
    assert_eq!(tokens[1].position.span, 4..6);
    assert_eq!(tokens[1].lexeme, "cd");
}

#[test]
fn span_is_byte_range_of_lexeme() {
    let source = "é := ünïcode + 1.5 ; ΩΩ";
    for item in all_tokens(source) {
        if let Ok(token) = item {
            assert_eq!(&source[token.position.span.clone()], token.lexeme);
        }
    }
    let tokens = tokenize(":= ab").unwrap();
    assert_eq!(tokens[0].position.span, 0..1);
    assert_eq!(tokens[1].position.span, 1..2);
    assert_eq!(tokens[2].position.span, 3..5);
}

#[test]
fn spans_come_in_order() {
    let tokens = tokenize("set x = (1 + 22) * y; // done\n!true").unwrap();
    for pair in tokens.windows(2) {
        assert!(pair[0].position.span.end <= pair[1].position.span.start);
        assert!(pair[0].position.span.start < pair[0].position.span.end);
    }
    assert_eq!(tokens.len(), 13);
}

#[test]
fn end_stays_end() {
    let mut lexer = Lexer::new("x  ");
    assert!(lexer.next().is_some());
    assert!(lexer.next().is_none());
    assert!(lexer.next().is_none());
    assert_eq!(lexer.next_token(), Ok(None));
}

#[test]
fn tokenize_stops_at_first_error() {
    assert_eq!(tokenize("1 + # 2").unwrap_err(), LexError::UnexpectedCharacter('#'));
    assert_eq!(tokenize("").unwrap(), Vec::<Token>::new());
    assert_eq!(tokenize("  \t\n ").unwrap().len(), 0);
}

#[test]
fn unicode_whitespace_is_skipped() {
    let kinds: Vec<TokenKind> =
        all_tokens("\u{3000}+\u{00A0}-\u{2009}*").into_iter().map(|t| t.unwrap().kind).collect();
    assert_eq!(kinds, vec![TokenKind::Plus, TokenKind::Minus, TokenKind::Asterisk]);
}
