//! What the lexer reads from a source text: the rules of its tokens, as
//! spec functions over the text's characters, and their lemmas.
use vstd::prelude::*;
use super::chars::{
    byte_len, is_ascii_digit, is_ascii_letter, is_digit, is_letter, is_numeric_char,
    is_white_space, is_whitespace, is_word_char,
};
use super::error::LexErrorView;
use super::token::{set_text, Keyword, TokenKindView, TokenView};

verus! {

/// The runs of characters that the lexer skips over in one go.
#[derive(Clone, Copy)]
pub enum CharClass {
    /// Characters with the Unicode `White_Space` property.
    Whitespace,
    /// Anything but `\n`.
    NotNewline,
    /// ASCII letters and digits, and `_`.
    Word,
    /// ASCII digits and `.`.
    Numeric,
}

pub open spec fn in_class(class: CharClass, c: char) -> bool {
    match class {
        CharClass::Whitespace => is_white_space(c),
        CharClass::NotNewline => c != '\n',
        CharClass::Word => is_word_char(c),
        CharClass::Numeric => is_numeric_char(c),
    }
}

impl CharClass {
    pub fn holds(&self, c: char) -> (b: bool)
        ensures
            b == in_class(*self, c),
    {
        match self {
            CharClass::Whitespace => is_whitespace(c),
            CharClass::NotNewline => c != '\n',
            CharClass::Word => is_ascii_letter(c) || is_ascii_digit(c) || c == '_',
            CharClass::Numeric => is_ascii_digit(c) || c == '.',
        }
    }
}

/// The character at `p`, if there is one.
pub open spec fn char_at(src: Seq<char>, p: int) -> Option<char> {
    if 0 <= p < src.len() {
        Some(src[p])
    } else {
        None
    }
}

/// Whether the cursor at `p` stands on a `\r` that a `\n` follows.
pub open spec fn at_crlf(src: Seq<char>, p: int) -> bool {
    src[p] == '\r' && p + 1 < src.len() && src[p + 1] == '\n'
}

/// Where one step of the cursor from `p` (with `p` inside the text) lands:
/// a `\r\n` pair is taken as one step.
pub open spec fn step(src: Seq<char>, p: int) -> int {
    if at_crlf(src, p) {
        p + 2
    } else {
        p + 1
    }
}

/// Where a run of characters of `class` that starts at `p` ends: the cursor
/// steps on while the character under it is in `class`.
pub open spec fn scan(src: Seq<char>, p: int, class: CharClass) -> int
    decreases src.len() - p,
{
    if 0 <= p < src.len() && in_class(class, src[p]) {
        scan(src, step(src, p), class)
    } else {
        p
    }
}

/// The line (from 0) reached after reading `s`: the number of `\n` in it.
pub open spec fn line_of(s: Seq<char>) -> nat
    decreases s.len(),
{
    if s.len() == 0 {
        0
    } else {
        line_of(s.drop_last()) + if s.last() == '\n' {
            1nat
        } else {
            0nat
        }
    }
}

/// The column (from 0) reached after reading `s`: the number of characters
/// after its last `\n`.
pub open spec fn column_of(s: Seq<char>) -> nat
    decreases s.len(),
{
    if s.len() == 0 {
        0
    } else if s.last() == '\n' {
        0
    } else {
        column_of(s.drop_last()) + 1
    }
}

/// The number of `.` in `s`.
pub open spec fn dots(s: Seq<char>) -> nat
    decreases s.len(),
{
    if s.len() == 0 {
        0
    } else {
        dots(s.drop_last()) + if s.last() == '.' {
            1nat
        } else {
            0nat
        }
    }
}

/// `f64::from_str` accepts a text of ASCII digits and `.` that starts with a
/// digit exactly when the text holds at most one `.` (its grammar is
/// `Digit+ ('.' Digit*)?` there).
pub open spec fn is_float_text(s: Seq<char>) -> bool {
    dots(s) <= 1
}

pub open spec fn true_text() -> Seq<char> {
    seq!['t', 'r', 'u', 'e']
}

pub open spec fn false_text() -> Seq<char> {
    seq!['f', 'a', 'l', 's', 'e']
}

/// The kind of token that a word (a letter, then letters, digits and `_`) is.
pub open spec fn word_kind(w: Seq<char>) -> TokenKindView {
    if w == true_text() {
        TokenKindView::Boolean(true)
    } else if w == false_text() {
        TokenKindView::Boolean(false)
    } else if w == set_text() {
        TokenKindView::Keyword(Keyword::SetKeyword)
    } else {
        TokenKindView::Variable(w)
    }
}

/// The token of kind `kind` that occupies the characters `s..e` of `src`.
pub open spec fn token_at(src: Seq<char>, s: int, e: int, kind: TokenKindView) -> TokenView {
    TokenView {
        kind,
        span_start: byte_len(src.take(s)) as int,
        span_end: byte_len(src.take(e)) as int,
        line: line_of(src.take(s)) as int,
        column: column_of(src.take(s)) as int,
        lexeme: src.subrange(s, e),
    }
}

/// What one call of the lexer yields: a token, the end of the text, or an error.
pub type LexStep = Result<Option<TokenView>, LexErrorView>;

pub open spec fn emit(src: Seq<char>, s: int, e: int, kind: TokenKindView) -> (LexStep, int) {
    (Ok(Some(token_at(src, s, e, kind))), e)
}

/// A kind that is one character long, or another when the next character is `second`.
pub open spec fn one_or_two(
    src: Seq<char>,
    s: int,
    second: char,
    one: TokenKindView,
    two: TokenKindView,
) -> (LexStep, int) {
    if char_at(src, s + 1) == Some(second) {
        emit(src, s, s + 2, two)
    } else {
        emit(src, s, s + 1, one)
    }
}

/// A kind that is written as `c` twice; a single `c` is an error.
pub open spec fn doubled(src: Seq<char>, s: int, c: char, kind: TokenKindView) -> (LexStep, int) {
    match char_at(src, s + 1) {
        Some(d) => if d == c {
            emit(src, s, s + 2, kind)
        } else {
            (Err(LexErrorView::UnexpectedCharacter(d)), s + 1)
        },
        None => (Err(LexErrorView::UnexpectedEof), s + 1),
    }
}

/// The next step of the lexer on `src` with the cursor at `pos`, and where the
/// cursor stands after it. Whitespace and `//` comments are skipped first. A
/// comment runs up to the next `\n`; a `\r\n` pair is one step of the
/// cursor, so where the `\n` closes such a pair the comment runs on over the
/// next line.
pub open spec fn next_token_spec(src: Seq<char>, pos: int) -> (LexStep, int)
    decreases src.len() - pos,
{
    let s = scan(src, pos, CharClass::Whitespace);
    if !(0 <= s < src.len()) {
        (Ok(None), s)
    } else {
        let c = src[s];
        let p = s + 1;
        if c == ';' {
            emit(src, s, p, TokenKindView::SemiColon)
        } else if c == ':' {
            emit(src, s, p, TokenKindView::Colon)
        } else if c == '+' {
            emit(src, s, p, TokenKindView::Plus)
        } else if c == '-' {
            emit(src, s, p, TokenKindView::Minus)
        } else if c == '*' {
            emit(src, s, p, TokenKindView::Asterisk)
        } else if c == '(' {
            emit(src, s, p, TokenKindView::LParen)
        } else if c == ')' {
            emit(src, s, p, TokenKindView::RParen)
        } else if c == '/' {
            if char_at(src, p) == Some('/') {
                let q = scan(src, p + 1, CharClass::NotNewline);
                proof {
                    lemma_scan_bounds(src, pos, CharClass::Whitespace);
                    lemma_scan_bounds(src, p + 1, CharClass::NotNewline);
                }
                next_token_spec(src, q)
            } else {
                emit(src, s, p, TokenKindView::Slash)
            }
        } else if c == '=' {
            one_or_two(src, s, '=', TokenKindView::Assign, TokenKindView::Equals)
        } else if c == '!' {
            one_or_two(src, s, '=', TokenKindView::Bang, TokenKindView::NotEquals)
        } else if c == '>' {
            one_or_two(src, s, '=', TokenKindView::GreaterThan, TokenKindView::GreaterEquals)
        } else if c == '<' {
            one_or_two(src, s, '=', TokenKindView::LessThan, TokenKindView::LesserEquals)
        } else if c == '&' {
            doubled(src, s, '&', TokenKindView::LogicalAnd)
        } else if c == '|' {
            doubled(src, s, '|', TokenKindView::LogicalOr)
        } else if is_digit(c) {
            let e = scan(src, p, CharClass::Numeric);
            let text = src.subrange(s, e);
            if is_float_text(text) {
                emit(src, s, e, TokenKindView::Numeric(text))
            } else {
                (Err(LexErrorView::InvalidNumeric(text)), e)
            }
        } else if is_letter(c) {
            let e = scan(src, p, CharClass::Word);
            emit(src, s, e, word_kind(src.subrange(s, e)))
        } else {
            (Err(LexErrorView::UnexpectedCharacter(c)), p)
        }
    }
}

/// All the tokens that the lexer yields from `pos` on, up to the end of the
/// text, or the first error.
pub open spec fn tokens_spec(src: Seq<char>, pos: int) -> Result<Seq<TokenView>, LexErrorView>
    decreases src.len() - pos,
{
    let (r, p) = next_token_spec(src, pos);
    match r {
        Ok(Some(t)) => if pos < p <= src.len() {
            match tokens_spec(src, p) {
                Ok(ts) => Ok(seq![t] + ts),
                Err(e) => Err(e),
            }
        } else {
            Ok(seq![t])
        },
        Ok(None) => Ok(Seq::empty()),
        Err(e) => Err(e),
    }
}

/// A scan ends inside the text, at or after its start, on a character
/// outside its class.
pub proof fn lemma_scan_bounds(src: Seq<char>, p: int, class: CharClass)
    ensures
        scan(src, p, class) >= p,
        0 <= p <= src.len() ==> scan(src, p, class) <= src.len(),
        0 <= p && scan(src, p, class) < src.len() ==> !in_class(class, src[scan(src, p, class)]),
    decreases src.len() - p,
{
    if 0 <= p < src.len() && in_class(class, src[p]) {
        lemma_scan_bounds(src, step(src, p), class);
    }
}

/// One step of the lexer moves the cursor forward and stays inside the text; a
/// token that it yields occupies the characters just before the new cursor.
pub proof fn lemma_next_token_progress(src: Seq<char>, pos: int)
    requires
        0 <= pos <= src.len(),
    ensures
        pos <= next_token_spec(src, pos).1 <= src.len(),
        next_token_spec(src, pos).0 matches Ok(Some(t)) ==> {
            &&& pos < next_token_spec(src, pos).1
            &&& exists|s: int|
                pos <= s < next_token_spec(src, pos).1 && t == #[trigger] token_at(
                    src,
                    s,
                    next_token_spec(src, pos).1,
                    t.kind,
                )
        },
    decreases src.len() - pos,
{
    lemma_scan_bounds(src, pos, CharClass::Whitespace);
    let s = scan(src, pos, CharClass::Whitespace);
    if 0 <= s < src.len() {
        let c = src[s];
        let p = s + 1;
        if c == '/' && char_at(src, p) == Some('/') {
            lemma_scan_bounds(src, p + 1, CharClass::NotNewline);
            let q = scan(src, p + 1, CharClass::NotNewline);
            lemma_next_token_progress(src, q);
        } else if is_digit(c) {
            lemma_scan_bounds(src, p, CharClass::Numeric);
        } else if is_letter(c) {
            lemma_scan_bounds(src, p, CharClass::Word);
        }
        let r = next_token_spec(src, pos);
        if r.0 is Ok && r.0->Ok_0 is Some && !(c == '/' && char_at(src, p) == Some('/')) {
            let t = r.0->Ok_0->Some_0;
            assert(t == token_at(src, s, r.1, t.kind));
        }
    }
}

/// Where a `//` comment whose text starts at `j` ends, looking no further
/// than `b`: at the first `\n` from `j` on that does not close a `\r\n`
/// pair, or at `b`.
pub open spec fn line_end(src: Seq<char>, j: int, b: int) -> int
    decreases b - j,
{
    if j >= b {
        b
    } else if src[j] == '\n' && src[j - 1] != '\r' {
        j
    } else {
        line_end(src, j + 1, b)
    }
}

/// The characters `a..b` of `src` hold only whitespace and `//` comments.
pub open spec fn blank_span(src: Seq<char>, a: int, b: int) -> bool
    decreases b - a,
{
    if a >= b {
        a == b
    } else if is_white_space(src[a]) {
        blank_span(src, a + 1, b)
    } else if a + 2 <= b && src[a] == '/' && src[a + 1] == '/' {
        let k = line_end(src, a + 2, b);
        proof {
            lemma_line_end_bounds(src, a + 2, b);
        }
        blank_span(src, k, b)
    } else {
        false
    }
}

/// Where the lexer's next read starts when the cursor is at `pos`: past the
/// whitespace and `//` comments there.
pub open spec fn skip_blank(src: Seq<char>, pos: int) -> int
    decreases src.len() - pos,
{
    let s = scan(src, pos, CharClass::Whitespace);
    if 0 <= s && s + 1 < src.len() && src[s] == '/' && src[s + 1] == '/' {
        let q = scan(src, s + 2, CharClass::NotNewline);
        proof {
            lemma_scan_bounds(src, pos, CharClass::Whitespace);
            lemma_scan_bounds(src, s + 2, CharClass::NotNewline);
        }
        skip_blank(src, q)
    } else {
        s
    }
}

/// A character that starts a token of one or two symbol characters.
pub open spec fn is_symbol_start(c: char) -> bool {
    c == ';' || c == ':' || c == '+' || c == '-' || c == '*' || c == '(' || c == ')' || c == '/'
        || c == '=' || c == '!' || c == '>' || c == '<' || c == '&' || c == '|'
}

/// The error that a read starting on character `s` meets, if any: a
/// character that starts no token; `&` or `|` not doubled; or a run of digits
/// and `.` that holds more than one `.`.
pub open spec fn error_at(src: Seq<char>, s: int) -> Option<LexErrorView> {
    if !(0 <= s < src.len()) {
        None
    } else {
        let c = src[s];
        if c == '&' || c == '|' {
            match char_at(src, s + 1) {
                Some(d) => if d == c {
                    None
                } else {
                    Some(LexErrorView::UnexpectedCharacter(d))
                },
                None => Some(LexErrorView::UnexpectedEof),
            }
        } else if is_digit(c) {
            let run = src.subrange(s, scan(src, s + 1, CharClass::Numeric));
            if is_float_text(run) {
                None
            } else {
                Some(LexErrorView::InvalidNumeric(run))
            }
        } else if is_letter(c) || is_symbol_start(c) {
            None
        } else {
            Some(LexErrorView::UnexpectedCharacter(c))
        }
    }
}

/// Where the cursor stands after `n` steps of the lexer from `pos`.
pub open spec fn position_after(src: Seq<char>, pos: int, n: nat) -> int
    decreases n,
{
    if n == 0 {
        pos
    } else {
        position_after(src, next_token_spec(src, pos).1, (n - 1) as nat)
    }
}

/// What step `n` (from 0) of the lexer from `pos` yields.
pub open spec fn step_at(src: Seq<char>, pos: int, n: nat) -> LexStep {
    next_token_spec(src, position_after(src, pos, n)).0
}

/// A comment's end lies between its start and the bound, on a `\n` unless at
/// the bound.
pub proof fn lemma_line_end_bounds(src: Seq<char>, j: int, b: int)
    requires
        j <= b,
    ensures
        j <= line_end(src, j, b) <= b,
        line_end(src, j, b) < b ==> src[line_end(src, j, b)] == '\n',
    decreases b - j,
{
    if j < b && !(src[j] == '\n' && src[j - 1] != '\r') {
        lemma_line_end_bounds(src, j + 1, b);
    }
}

} // verus!
