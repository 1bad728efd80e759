//! The lexer: turns source text into tokens.
pub mod blank;
pub mod chars;
pub mod error;
pub mod laws;
pub mod rules;
pub mod token;

pub use error::{LexError, LexErrorView};
pub use token::{Keyword, ParseKeywordError, Token, TokenKind, TokenKindView, TokenPosition, TokenView};

use vstd::prelude::*;
use chars::{
    byte_len, is_ascii_digit, is_ascii_letter, len_utf8, lemma_byte_len_mono, lemma_byte_len_step,
    lemma_char_boundary, lemma_encode_injective,
};
use laws::lemma_char_range_bytes;
use vstd::string::StringSliceAdditionalSpecFns;
use vstd::utf8::encode_utf8;
use rules::{
    char_at, column_of, dots, is_float_text, line_of, next_token_spec, scan, step, token_at,
    tokens_spec, word_kind, CharClass, LexStep, false_text, true_text, at_crlf,
    lemma_scan_bounds, lemma_next_token_progress,
};
use token::str_eq;
use std::str::FromStr;

verus! {

pub type LexResult<T> = Result<T, LexError>;

/// A lexer over one source text: a cursor that reads it token by token.
pub struct Lexer<'a> {
    source: &'a str,
    chars: Vec<char>,
    /// Characters read so far.
    position: usize,
    line: usize,
    column: usize,
    /// Bytes read so far.
    byte_offset: usize,
}

/// Where a token starts.
struct Mark {
    position: usize,
    byte_offset: usize,
    line: usize,
    column: usize,
}

/// The characters of `s`, in order.
fn collect_chars(s: &str) -> (v: Vec<char>)
    ensures
        v@ == s@,
{
    let mut v: Vec<char> = Vec::new();
    for c in it: s.chars()
        invariant
            v@ == it.seq().take(it.index() as int),
    {
        v.push(c);
    }
    v
}

/// What one lexer step gave, as a mathematical value.
pub open spec fn step_view<'a>(r: LexResult<Option<Token<'a>>>) -> LexStep {
    match r {
        Ok(Some(t)) => Ok(Some(t@)),
        Ok(None) => Ok(None),
        Err(e) => Err(e@),
    }
}

/// The position that `position` characters of reading give.
pub open spec fn mark_of(src: Seq<char>, position: int) -> (int, int, int) {
    (
        byte_len(src.take(position)) as int,
        line_of(src.take(position)) as int,
        column_of(src.take(position)) as int,
    )
}

/// Whether `s` holds at most one `.`.
fn is_float_syntax(s: &Vec<char>, from: usize, to: usize) -> (b: bool)
    requires
        from <= to <= s@.len(),
    ensures
        b == is_float_text(s@.subrange(from as int, to as int)),
{
    let mut count: usize = 0;
    let mut i: usize = from;
    while i < to
        invariant
            from <= i <= to <= s@.len(),
            count == dots(s@.subrange(from as int, i as int)),
            count <= i - from,
        decreases to - i,
    {
        assert(s@.subrange(from as int, i + 1).drop_last() =~= s@.subrange(from as int, i as int));
        if s[i] == '.' {
            count = count + 1;
        }
        i = i + 1;
    }
    count <= 1
}

impl<'a> Lexer<'a> {
    /// The text that this lexer reads.
    pub closed spec fn text(&self) -> Seq<char> {
        self.source@
    }

    /// How many characters of the text have been read.
    pub closed spec fn cursor(&self) -> int {
        self.position as int
    }

    /// The lexer's fields agree with its cursor.
    pub closed spec fn wf(&self) -> bool {
        &&& self.chars@ == self.source@
        &&& self.position <= self.chars@.len()
        &&& byte_len(self.source@) <= usize::MAX
        &&& (self.byte_offset as int, self.line as int, self.column as int) == mark_of(
            self.source@,
            self.position as int,
        )
        &&& self.line <= self.position
        &&& self.column <= self.position
    }

    /// What `wf` bounds: the cursor lies within the text, and the text's UTF-8
    /// encoding fits in `usize`.
    pub proof fn lemma_wf_bounds(&self)
        requires
            self.wf(),
        ensures
            0 <= self.cursor() <= self.text().len(),
            byte_len(self.text()) <= usize::MAX,
    {
    }

    /// A lexer at the start of `source`.
    pub fn new(source: &'a str) -> (l: Self)
        ensures
            l.wf(),
            l.text() == source@,
            l.cursor() == 0,
    {
        // The length of the byte slice, a `usize`, bounds the encoding's length.
        let byte_count = source.as_bytes().len();
        let chars = collect_chars(source);
        proof {
            assert(byte_len(source@) == byte_count);
            assert(source@.take(0) =~= Seq::<char>::empty());
            assert(byte_len(Seq::<char>::empty()) == 0) by {
                assert(vstd::utf8::encode_utf8(Seq::<char>::empty()) =~= Seq::<u8>::empty());
            }
        }
        Lexer { source, chars, position: 0, line: 0, column: 0, byte_offset: 0 }
    }

    /// The next character, or `None` at the end of the text.
    fn peek(&self) -> (r: Option<char>)
        requires
            self.wf(),
        ensures
            r == char_at(self.text(), self.cursor()),
    {
        if self.position < self.chars.len() {
            Some(self.chars[self.position])
        } else {
            None
        }
    }

    /// Moves the cursor along by one character; a `\r\n` pair is read as one `\n`.
    fn advance(&mut self) -> (r: Option<char>)
        requires
            old(self).wf(),
        ensures
            final(self).wf(),
            final(self).text() == old(self).text(),
            old(self).cursor() < old(self).text().len() ==> {
                &&& final(self).cursor() == step(old(self).text(), old(self).cursor())
                &&& r == Some(
                    if at_crlf(old(self).text(), old(self).cursor()) {
                        '\n'
                    } else {
                        old(self).text()[old(self).cursor()]
                    },
                )
            },
            old(self).cursor() >= old(self).text().len() ==> {
                &&& final(self).cursor() == old(self).cursor()
                &&& r is None
            },
    {
        if self.position >= self.chars.len() {
            return None;
        }
        let ghost src = self.source@;
        let ghost p = self.position as int;
        let c = self.chars[self.position];
        proof {
            lemma_byte_len_step(src, p);
            lemma_byte_len_mono(src, p + 1, src.len() as int);
            assert(src.take(p + 1).drop_last() =~= src.take(p));
        }
        self.byte_offset = self.byte_offset + len_utf8(c);
        self.position = self.position + 1;
        self.column = self.column + 1;
        if c == '\n' {
            self.column = 0;
            self.line = self.line + 1;
        } else if c == '\r' && self.position < self.chars.len() && self.chars[self.position] == '\n' {
            proof {
                lemma_byte_len_step(src, p + 1);
                lemma_byte_len_mono(src, p + 2, src.len() as int);
                assert(src.take(p + 2).drop_last() =~= src.take(p + 1));
                assert(src.take(p + 1).last() == '\r');
                assert(src.take(p + 2).last() == '\n');
                assert(line_of(src.take(p + 1)) == line_of(src.take(p)));
                assert(line_of(src.take(p + 2)) == line_of(src.take(p + 1)) + 1);
            }
            self.position = self.position + 1;
            self.byte_offset = self.byte_offset + 1;
            self.column = 0;
            self.line = self.line + 1;
            return Some('\n');
        }
        Some(c)
    }

    /// Keeps advancing the cursor while the next character is in `class`.
    fn advance_while(&mut self, class: CharClass)
        requires
            old(self).wf(),
        ensures
            final(self).wf(),
            final(self).text() == old(self).text(),
            final(self).cursor() == scan(old(self).text(), old(self).cursor(), class),
    {
        let ghost src = self.text();
        let ghost target = scan(src, self.cursor(), class);
        loop
            invariant
                self.wf(),
                self.text() == src,
                0 <= self.cursor() <= src.len(),
                scan(src, self.cursor(), class) == target,
            ensures
                self.wf(),
                self.text() == src,
                self.cursor() == target,
            decreases src.len() - self.cursor(),
        {
            match self.peek() {
                Some(c) => {
                    if class.holds(c) {
                        self.advance();
                    } else {
                        break ;
                    }
                },
                None => {
                    break ;
                },
            }
        }
    }

    fn skip_whitespace(&mut self)
        requires
            old(self).wf(),
        ensures
            final(self).wf(),
            final(self).text() == old(self).text(),
            final(self).cursor() == scan(old(self).text(), old(self).cursor(), CharClass::Whitespace),
    {
        self.advance_while(CharClass::Whitespace);
    }

    fn next_line(&mut self)
        requires
            old(self).wf(),
        ensures
            final(self).wf(),
            final(self).text() == old(self).text(),
            final(self).cursor() == scan(old(self).text(), old(self).cursor(), CharClass::NotNewline),
    {
        self.advance_while(CharClass::NotNewline);
    }

    spec fn mark_wf(&self, m: &Mark) -> bool {
        &&& m.position <= self.position
        &&& (m.byte_offset as int, m.line as int, m.column as int) == mark_of(
            self.source@,
            m.position as int,
        )
    }

    fn mark(&self) -> (m: Mark)
        requires
            self.wf(),
        ensures
            self.mark_wf(&m),
            m.position == self.cursor(),
    {
        Mark {
            position: self.position,
            byte_offset: self.byte_offset,
            line: self.line,
            column: self.column,
        }
    }

    /// The text read from `start` up to the cursor: the bytes between the two
    /// byte offsets.
    fn lexeme(&self, start: &Mark) -> (r: &'a str)
        requires
            self.wf(),
            self.mark_wf(start),
        ensures
            r@ == self.text().subrange(start.position as int, self.cursor()),
    {
        let ghost src = self.source@;
        let ghost s = start.position as int;
        let ghost e = self.position as int;
        proof {
            lemma_char_range_bytes(src, s, src.len() as int);
            assert(src.take(src.len() as int) =~= src);
            lemma_char_boundary(src, s);
            let tail = src.subrange(s, src.len() as int);
            lemma_char_boundary(tail, e - s);
            assert(tail.take(e - s) =~= src.subrange(s, e));
            lemma_char_range_bytes(src, s, e);
        }
        let (_, rest) = self.source.split_at(start.byte_offset);
        proof {
            let tail = src.subrange(s, src.len() as int);
            assert(rest.spec_bytes() == encode_utf8(tail));
            lemma_encode_injective(rest@, tail);
            assert(byte_len(tail.take(e - s)) == self.byte_offset - start.byte_offset) by {
                assert(tail.take(e - s) =~= src.subrange(s, e));
            }
        }
        let (word, _) = rest.split_at(self.byte_offset - start.byte_offset);
        proof {
            let tail = src.subrange(s, src.len() as int);
            lemma_char_range_bytes(tail, 0, e - s);
            assert(tail.take(0) =~= Seq::<char>::empty());
            assert(encode_utf8(Seq::<char>::empty()) =~= Seq::<u8>::empty());
            assert(tail.subrange(0, e - s) =~= src.subrange(s, e));
            assert(word.spec_bytes() =~= encode_utf8(src.subrange(s, e)));
            lemma_encode_injective(word@, src.subrange(s, e));
        }
        word
    }

    /// The token of kind `kind` read from `start` up to the cursor.
    fn token_from(&self, kind: TokenKind, start: &Mark) -> (t: Token<'a>)
        requires
            self.wf(),
            self.mark_wf(start),
        ensures
            t@ == token_at(self.text(), start.position as int, self.cursor(), kind@),
    {
        Token {
            kind,
            position: TokenPosition {
                span: start.byte_offset..self.byte_offset,
                line: start.line,
                column: start.column,
            },
            lexeme: self.lexeme(start),
        }
    }

    /// Reads the rest of a word: a boolean, a keyword or a variable.
    fn character_sequence(&mut self, start: &Mark) -> (k: TokenKind)
        requires
            old(self).wf(),
            old(self).mark_wf(start),
        ensures
            final(self).wf(),
            final(self).mark_wf(start),
            final(self).text() == old(self).text(),
            final(self).cursor() == scan(old(self).text(), old(self).cursor(), CharClass::Word),
            k@ == word_kind(final(self).text().subrange(start.position as int, final(self).cursor())),
    {
        proof {
            lemma_scan_bounds(self.text(), self.cursor(), CharClass::Word);
        }
        self.advance_while(CharClass::Word);
        let word = self.lexeme(start);
        let t = "true";
        let f = "false";
        proof {
            reveal_strlit("true");
            reveal_strlit("false");
            assert(t@ =~= true_text());
            assert(f@ =~= false_text());
        }
        if str_eq(word, t) {
            TokenKind::Boolean(true)
        } else if str_eq(word, f) {
            TokenKind::Boolean(false)
        } else {
            match Keyword::from_str(word) {
                Ok(keyword) => TokenKind::Keyword(keyword),
                Err(_) => TokenKind::Variable(word.to_owned()),
            }
        }
    }

    /// Reads the rest of a numeric literal.
    fn numeric(&mut self, start: &Mark) -> (r: LexResult<TokenKind>)
        requires
            old(self).wf(),
            old(self).mark_wf(start),
        ensures
            final(self).wf(),
            final(self).mark_wf(start),
            final(self).text() == old(self).text(),
            final(self).cursor() == scan(old(self).text(), old(self).cursor(), CharClass::Numeric),
            ({
                let text = final(self).text().subrange(start.position as int, final(self).cursor());
                match r {
                    Ok(k) => is_float_text(text) && k@ == TokenKindView::Numeric(text),
                    Err(e) => !is_float_text(text) && e@ == LexErrorView::InvalidNumeric(text),
                }
            }),
    {
        proof {
            lemma_scan_bounds(self.text(), self.cursor(), CharClass::Numeric);
        }
        self.advance_while(CharClass::Numeric);
        let text = self.lexeme(start);
        if is_float_syntax(&self.chars, start.position, self.position) {
            Ok(TokenKind::Numeric(text.to_owned()))
        } else {
            Err(LexError::InvalidNumeric(text.to_owned()))
        }
    }

    /// Reads the next token, skipping whitespace and `//` comments before it.
    /// A comment runs up to the next `\n`; where that `\n` closes a `\r\n`
    /// pair, the pair is read as one step and the comment runs on over the
    /// next line.
    /// Gives `Ok(None)` at the end of the text.
    pub fn next_token(&mut self) -> (r: LexResult<Option<Token<'a>>>)
        requires
            old(self).wf(),
        ensures
            final(self).wf(),
            final(self).text() == old(self).text(),
            (step_view(r), final(self).cursor()) == next_token_spec(old(self).text(), old(self).cursor()),
    {
        let ghost src = self.text();
        let ghost target = next_token_spec(src, self.cursor());
        loop
            invariant
                self.wf(),
                self.text() == src,
                src == old(self).text(),
                target == next_token_spec(old(self).text(), old(self).cursor()),
                0 <= self.cursor() <= src.len(),
                next_token_spec(src, self.cursor()) == target,
            decreases src.len() - self.cursor(),
        {
            let ghost pos = self.cursor();
            proof {
                lemma_scan_bounds(src, pos, CharClass::Whitespace);
            }
            self.skip_whitespace();
            let start = self.mark();
            let ghost s = self.cursor();
            let c = match self.advance() {
                None => {
                    return Ok(None);
                },
                Some(c) => c,
            };
            assert(c == src[s]);
            let kind = if c == ';' {
                TokenKind::SemiColon
            } else if c == ':' {
                TokenKind::Colon
            } else if c == '+' {
                TokenKind::Plus
            } else if c == '-' {
                TokenKind::Minus
            } else if c == '*' {
                TokenKind::Asterisk
            } else if c == '(' {
                TokenKind::LParen
            } else if c == ')' {
                TokenKind::RParen
            } else if c == '/' {
                match self.peek() {
                    Some('/') => {
                        self.advance();
                        proof {
                            lemma_scan_bounds(src, s + 2, CharClass::NotNewline);
                        }
                        self.next_line();
                        continue ;
                    },
                    _ => TokenKind::Slash,
                }
            } else if c == '=' {
                match self.peek() {
                    Some('=') => {
                        self.advance();
                        TokenKind::Equals
                    },
                    _ => TokenKind::Assign,
                }
            } else if c == '!' {
                match self.peek() {
                    Some('=') => {
                        self.advance();
                        TokenKind::NotEquals
                    },
                    _ => TokenKind::Bang,
                }
            } else if c == '>' {
                match self.peek() {
                    Some('=') => {
                        self.advance();
                        TokenKind::GreaterEquals
                    },
                    _ => TokenKind::GreaterThan,
                }
            } else if c == '<' {
                match self.peek() {
                    Some('=') => {
                        self.advance();
                        TokenKind::LesserEquals
                    },
                    _ => TokenKind::LessThan,
                }
            } else if c == '&' {
                match self.peek() {
                    Some('&') => {
                        self.advance();
                        TokenKind::LogicalAnd
                    },
                    Some(d) => {
                        return Err(LexError::UnexpectedCharacter(d));
                    },
                    None => {
                        return Err(LexError::UnexpectedEof);
                    },
                }
            } else if c == '|' {
                match self.peek() {
                    Some('|') => {
                        self.advance();
                        TokenKind::LogicalOr
                    },
                    Some(d) => {
                        return Err(LexError::UnexpectedCharacter(d));
                    },
                    None => {
                        return Err(LexError::UnexpectedEof);
                    },
                }
            } else if is_ascii_digit(c) {
                match self.numeric(&start) {
                    Ok(k) => k,
                    Err(e) => {
                        return Err(e);
                    },
                }
            } else if is_ascii_letter(c) {
                self.character_sequence(&start)
            } else {
                return Err(LexError::UnexpectedCharacter(c));
            };
            return Ok(Some(self.token_from(kind, &start)));
        }
    }

    /// The next item of the token stream: `None` at the end of the text,
    /// else the next token or the error met in its place.
    pub fn next(&mut self) -> (r: Option<LexResult<Token<'a>>>)
        requires
            old(self).wf(),
        ensures
            final(self).wf(),
            final(self).text() == old(self).text(),
            final(self).cursor() == next_token_spec(old(self).text(), old(self).cursor()).1,
            ({
                let spec = next_token_spec(old(self).text(), old(self).cursor()).0;
                match r {
                    None => spec == Ok::<Option<TokenView>, LexErrorView>(None),
                    Some(Ok(t)) => spec == Ok::<Option<TokenView>, LexErrorView>(Some(t@)),
                    Some(Err(e)) => spec == Err::<Option<TokenView>, LexErrorView>(e@),
                }
            }),
    {
        match self.next_token() {
            Ok(Some(token)) => Some(Ok(token)),
            Ok(None) => None,
            Err(e) => Some(Err(e)),
        }
    }
}

/// The views of a list of tokens.
pub open spec fn tokens_view<'a>(ts: Seq<Token<'a>>) -> Seq<TokenView> {
    ts.map_values(|t: Token<'a>| t@)
}

/// `tail` after the tokens `head`, or the error of `tail`.
pub open spec fn prepend_tokens(head: Seq<TokenView>, tail: Result<Seq<TokenView>, LexErrorView>) -> Result<
    Seq<TokenView>,
    LexErrorView,
> {
    match tail {
        Ok(ts) => Ok(head + ts),
        Err(e) => Err(e),
    }
}

/// Reads all the tokens of `source`, in order, up to its end; or gives the
/// first error that the lexer meets.
pub fn tokenize<'a>(source: &'a str) -> (r: LexResult<Vec<Token<'a>>>)
    ensures
        match (r, tokens_spec(source@, 0)) {
            (Ok(ts), Ok(vs)) => tokens_view(ts@) == vs,
            (Err(e), Err(ev)) => e@ == ev,
            _ => false,
        },
{
    let mut lexer = Lexer::new(source);
    let mut tokens: Vec<Token<'a>> = Vec::new();
    let ghost src = source@;
    loop
        invariant
            lexer.wf(),
            lexer.text() == src,
            src == source@,
            0 <= lexer.cursor() <= src.len(),
            tokens_spec(src, 0) == prepend_tokens(tokens_view(tokens@), tokens_spec(src, lexer.cursor())),
        decreases src.len() - lexer.cursor(),
    {
        let ghost pos = lexer.cursor();
        proof {
            lemma_next_token_progress(src, pos);
        }
        match lexer.next_token() {
            Ok(Some(token)) => {
                let ghost before = tokens@;
                tokens.push(token);
                proof {
                    assert(tokens_view(tokens@) =~= tokens_view(before) + seq![token@]);
                    match tokens_spec(src, lexer.cursor()) {
                        Ok(ts) => {
                            assert(tokens_view(before) + (seq![token@] + ts) =~= tokens_view(tokens@) + ts);
                        },
                        Err(_) => {},
                    }
                }
            },
            Ok(None) => {
                assert(tokens_view(tokens@) + Seq::<TokenView>::empty() =~= tokens_view(tokens@));
                return Ok(tokens);
            },
            Err(e) => {
                return Err(e);
            },
        }
    }
}

} // verus!
