//! What holds of every run of the lexer.
use vstd::prelude::*;
use vstd::utf8::encode_utf8;
use super::chars::{byte_len, lemma_byte_len_mono, lemma_byte_len_step, lemma_encode_concat};
use super::blank::{lemma_blank_reaches_end, lemma_skip};
use super::chars::{is_digit, is_letter, is_numeric_char, is_word_char};
use super::rules::{
    blank_span, char_at, error_at, in_class, is_symbol_start, lemma_next_token_progress,
    lemma_scan_bounds, next_token_spec, position_after, scan, skip_blank, step_at, token_at,
    tokens_spec, word_kind, CharClass, LexStep, line_of, column_of, dots,
};
use super::token::{Keyword, TokenKindView};
use super::error::LexErrorView;
use super::token::TokenView;

verus! {

/// The bytes `byte_len(src.take(s))..byte_len(src.take(e))` of the text's
/// encoding are the encoding of the characters `s..e`.
pub proof fn lemma_char_range_bytes(src: Seq<char>, s: int, e: int)
    requires
        0 <= s <= e <= src.len(),
    ensures
        byte_len(src.take(s)) <= byte_len(src.take(e)) <= encode_utf8(src).len(),
        encode_utf8(src).subrange(byte_len(src.take(s)) as int, byte_len(src.take(e)) as int)
            == encode_utf8(src.subrange(s, e)),
{
    assert(src.take(e) =~= src.take(s) + src.subrange(s, e));
    lemma_encode_concat(src.take(s), src.subrange(s, e));
    assert(src =~= src.take(e) + src.skip(e));
    lemma_encode_concat(src.take(e), src.skip(e));
    assert(encode_utf8(src).subrange(byte_len(src.take(s)) as int, byte_len(src.take(e)) as int)
        =~= encode_utf8(src.subrange(s, e)));
}

/// A token's span is the range of the bytes, in the UTF-8 encoding of the
/// source, that encode its lexeme.
pub proof fn law_span_is_byte_range(src: Seq<char>, pos: int)
    requires
        0 <= pos <= src.len(),
    ensures
        next_token_spec(src, pos).0 matches Ok(Some(t)) ==> {
            &&& 0 <= t.span_start <= t.span_end <= encode_utf8(src).len()
            &&& encode_utf8(src).subrange(t.span_start, t.span_end) == encode_utf8(t.lexeme)
        },
{
    lemma_next_token_progress(src, pos);
    let (r, e) = next_token_spec(src, pos);
    if r is Ok && r->Ok_0 is Some {
        let t = r->Ok_0->Some_0;
        let s = choose|s: int| pos <= s < e && t == #[trigger] token_at(src, s, e, t.kind);
        lemma_char_range_bytes(src, s, e);
    }
}

/// The spans of the tokens lie, in order and without overlap, between the
/// byte offset of `lo` and the end of the text; none is empty.
pub open spec fn spans_in_order(ts: Seq<TokenView>, lo: int, hi: int) -> bool {
    &&& forall|i: int| 0 <= i < ts.len() ==> lo <= #[trigger] ts[i].span_start < ts[i].span_end <= hi
    &&& forall|i: int, j: int|
        0 <= i < j < ts.len() ==> #[trigger] ts[i].span_end <= #[trigger] ts[j].span_start
}

/// The tokens of a text come in the order of their place in it, each taking
/// at least one byte, none overlapping another.
pub proof fn law_tokens_in_order(src: Seq<char>, pos: int)
    requires
        0 <= pos <= src.len(),
    ensures
        tokens_spec(src, pos) matches Ok(ts) ==> spans_in_order(
            ts,
            byte_len(src.take(pos)) as int,
            byte_len(src) as int,
        ),
    decreases src.len() - pos,
{
    lemma_next_token_progress(src, pos);
    let (r, p) = next_token_spec(src, pos);
    if r is Ok && r->Ok_0 is Some {
        let t = r->Ok_0->Some_0;
        let s = choose|s: int| pos <= s < p && t == #[trigger] token_at(src, s, p, t.kind);
        lemma_byte_len_mono(src, pos, s);
        lemma_byte_len_step(src, s);
        lemma_byte_len_mono(src, s + 1, p);
        lemma_byte_len_mono(src, p, src.len() as int);
        assert(src.take(src.len() as int) =~= src);
        law_tokens_in_order(src, p);
        match tokens_spec(src, p) {
            Ok(rest) => {
                let ts = seq![t] + rest;
                assert(tokens_spec(src, pos) == Ok::<Seq<TokenView>, LexErrorView>(ts));
                assert forall|i: int| 0 <= i < ts.len() implies byte_len(src.take(pos)) <= #[trigger] ts[i].span_start
                    < ts[i].span_end <= byte_len(src) by {
                    if i > 0 {
                        assert(ts[i] == rest[i - 1]);
                    }
                }
                assert forall|i: int, j: int| 0 <= i < j < ts.len() implies #[trigger] ts[i].span_end
                    <= #[trigger] ts[j].span_start by {
                    assert(ts[j] == rest[j - 1]);
                    if i > 0 {
                        assert(ts[i] == rest[i - 1]);
                    }
                }
            },
            Err(_) => {},
        }
    }
}

/// Once the lexer has reached the end of the text, it stays there and gives
/// the end again.
pub proof fn law_end_stays_end(src: Seq<char>, pos: int)
    requires
        0 <= pos <= src.len(),
        next_token_spec(src, pos).0 is Ok,
        next_token_spec(src, pos).0->Ok_0 is None,
    ensures
        next_token_spec(src, pos).1 == src.len(),
        next_token_spec(src, next_token_spec(src, pos).1) == next_token_spec(src, pos),
    decreases src.len() - pos,
{
    lemma_scan_bounds(src, pos, CharClass::Whitespace);
    let s = scan(src, pos, CharClass::Whitespace);
    if 0 <= s < src.len() {
        let p = s + 1;
        lemma_scan_bounds(src, p + 1, CharClass::NotNewline);
        let q = scan(src, p + 1, CharClass::NotNewline);
        law_end_stays_end(src, q);
    }
    let n = src.len() as int;
    assert(scan(src, n, CharClass::Whitespace) == n);
}

/// What lies before the next token is only whitespace and `//` comments: the
/// step from `pos` reads from `skip_blank(src, pos)`, a token that it yields
/// starts there, anything but the end moves the cursor, and the end comes
/// exactly when the read starts at the end of the text.
pub proof fn law_gap_is_blank(src: Seq<char>, pos: int)
    requires
        0 <= pos <= src.len(),
    ensures
        pos <= skip_blank(src, pos) <= src.len(),
        blank_span(src, pos, skip_blank(src, pos)),
        next_token_spec(src, pos).0 matches Ok(Some(t)) ==> t == token_at(
            src,
            skip_blank(src, pos),
            next_token_spec(src, pos).1,
            t.kind,
        ),
        next_token_spec(src, pos).0 != Ok::<Option<TokenView>, LexErrorView>(None) ==> skip_blank(
            src,
            pos,
        ) < next_token_spec(src, pos).1,
        next_token_spec(src, pos).0 == Ok::<Option<TokenView>, LexErrorView>(None) <==> skip_blank(
            src,
            pos,
        ) == src.len(),
{
    lemma_skip(src, pos);
    let s = skip_blank(src, pos);
    if s < src.len() {
        let c = src[s];
        if is_digit(c) {
            lemma_scan_bounds(src, s + 1, CharClass::Numeric);
        } else if is_letter(c) {
            lemma_scan_bounds(src, s + 1, CharClass::Word);
        }
    }
}

/// The lexer gives the end exactly when the rest of the text holds only
/// whitespace and `//` comments.
pub proof fn law_end_iff_blank(src: Seq<char>, pos: int)
    requires
        0 <= pos <= src.len(),
    ensures
        next_token_spec(src, pos).0 == Ok::<Option<TokenView>, LexErrorView>(None) <==> blank_span(
            src,
            pos,
            src.len() as int,
        ),
{
    law_gap_is_blank(src, pos);
    if blank_span(src, pos, src.len() as int) {
        lemma_blank_reaches_end(src, pos);
    }
}

/// The lexer fails exactly when the read that starts past the blank meets one
/// of the errors of `error_at`: a character that starts no token, `&` or `|`
/// not doubled (the error names the character after it, or the end), or a run
/// of digits and `.` that `f64::from_str` refuses.
pub proof fn law_errors(src: Seq<char>, pos: int)
    requires
        0 <= pos <= src.len(),
    ensures
        next_token_spec(src, pos).0 is Err <==> error_at(src, skip_blank(src, pos)) is Some,
        error_at(src, skip_blank(src, pos)) matches Some(e) ==> next_token_spec(src, pos).0
            == Err::<Option<TokenView>, LexErrorView>(e),
{
    lemma_skip(src, pos);
}

/// The characters from `p` up to the end of the text all lie in `class`.
pub open spec fn all_in_class(w: Seq<char>, p: int, class: CharClass) -> bool {
    forall|k: int| p <= k < w.len() ==> in_class(class, #[trigger] w[k])
}

/// A run of a class that holds no `\r` holds only characters of the class.
pub proof fn lemma_scan_run(src: Seq<char>, p: int, class: CharClass)
    requires
        0 <= p <= src.len(),
        !in_class(class, '\r'),
    ensures
        forall|k: int| p <= k < scan(src, p, class) ==> in_class(class, #[trigger] src[k]),
    decreases src.len() - p,
{
    if p < src.len() && in_class(class, src[p]) {
        lemma_scan_run(src, p + 1, class);
    }
}

/// A text whose characters from `p` on all lie in `class` is read to its end.
pub proof fn lemma_scan_full(w: Seq<char>, p: int, class: CharClass)
    requires
        0 <= p <= w.len(),
        all_in_class(w, p, class),
    ensures
        scan(w, p, class) == w.len(),
    decreases w.len() - p,
{
    if p < w.len() {
        assert(in_class(class, w[p]));
        let q = if w[p] == '\r' && p + 1 < w.len() && w[p + 1] == '\n' {
            p + 2
        } else {
            p + 1
        };
        lemma_scan_full(w, q, class);
    }
}

/// A token's kind depends on its own text only: lexing its lexeme alone yields
/// the same kind, with that whole lexeme.
pub proof fn law_token_relexes(src: Seq<char>, pos: int)
    requires
        0 <= pos <= src.len(),
    ensures
        next_token_spec(src, pos).0 matches Ok(Some(t)) ==> next_token_spec(t.lexeme, 0) == (
            Ok::<Option<TokenView>, LexErrorView>(
                Some(token_at(t.lexeme, 0, t.lexeme.len() as int, t.kind)),
            ),
            t.lexeme.len() as int,
        ),
{
    law_gap_is_blank(src, pos);
    lemma_skip(src, pos);
    lemma_next_token_progress(src, pos);
    let (r, p) = next_token_spec(src, pos);
    if r is Ok && r->Ok_0 is Some {
        let t = r->Ok_0->Some_0;
        let s = skip_blank(src, pos);
        let w = src.subrange(s, p);
        assert(s < p <= src.len());
        assert(t.lexeme == w);
        let c = src[s];
        assert(w[0] == c);
        assert(scan(w, 0, CharClass::Whitespace) == 0);
        if is_digit(c) {
            lemma_scan_run(src, s + 1, CharClass::Numeric);
            assert(all_in_class(w, 1, CharClass::Numeric)) by {
                assert forall|k: int| 1 <= k < w.len() implies in_class(
                    CharClass::Numeric,
                    #[trigger] w[k],
                ) by {
                    assert(w[k] == src[s + k]);
                }
            }
            lemma_scan_full(w, 1, CharClass::Numeric);
            assert(w.subrange(0, w.len() as int) =~= w);
        } else if is_letter(c) {
            lemma_scan_run(src, s + 1, CharClass::Word);
            assert(all_in_class(w, 1, CharClass::Word)) by {
                assert forall|k: int| 1 <= k < w.len() implies in_class(
                    CharClass::Word,
                    #[trigger] w[k],
                ) by {
                    assert(w[k] == src[s + k]);
                }
            }
            lemma_scan_full(w, 1, CharClass::Word);
            assert(w.subrange(0, w.len() as int) =~= w);
        } else if p == s + 2 {
            assert(w[1] == src[s + 1]);
            assert(w.subrange(0, 2) =~= w);
        } else {
            assert(w.subrange(0, 1) =~= w);
        }
    }
}

/// From any cursor, the lexer reaches the end of the text within as many
/// steps as characters are left, and gives the end at no step before.
pub proof fn law_end_within_len(src: Seq<char>, pos: int)
    requires
        0 <= pos <= src.len(),
    ensures
        exists|n: nat|
            n <= src.len() - pos && step_at(src, pos, n) == Ok::<Option<TokenView>, LexErrorView>(
                None,
            ) && forall|k: nat| k < n ==> #[trigger] step_at(src, pos, k) != Ok::<
                Option<TokenView>,
                LexErrorView,
            >(None),
    decreases src.len() - pos,
{
    law_gap_is_blank(src, pos);
    lemma_next_token_progress(src, pos);
    let none = Ok::<Option<TokenView>, LexErrorView>(None);
    if step_at(src, pos, 0) == none {
        assert(forall|k: nat| k < 0 ==> #[trigger] step_at(src, pos, k) != none);
    } else {
        let p = next_token_spec(src, pos).1;
        law_end_within_len(src, p);
        let m = choose|m: nat|
            m <= src.len() - p && step_at(src, p, m) == none && forall|k: nat|
                k < m ==> #[trigger] step_at(src, p, k) != none;
        assert(step_at(src, pos, m + 1) == step_at(src, p, m));
        assert forall|k: nat| k < m + 1 implies #[trigger] step_at(src, pos, k) != none by {
            if k > 0 {
                assert(step_at(src, pos, k) == step_at(src, p, (k - 1) as nat));
            }
        }
    }
}

/// `tokenize` follows the steps of the lexer: its tokens are the tokens of the
/// steps up to the end; its error is the error of the first step that fails.
pub proof fn law_tokenize_follows_steps(src: Seq<char>, pos: int)
    requires
        0 <= pos <= src.len(),
    ensures
        tokens_spec(src, pos) matches Ok(ts) ==> {
            &&& forall|k: nat| k < ts.len() ==> #[trigger] step_at(src, pos, k) == Ok::<
                Option<TokenView>,
                LexErrorView,
            >(Some(ts[k as int]))
            &&& step_at(src, pos, ts.len()) == Ok::<Option<TokenView>, LexErrorView>(None)
        },
        tokens_spec(src, pos) matches Err(e) ==> exists|n: nat|
            {
                &&& forall|k: nat| k < n ==> (#[trigger] step_at(src, pos, k) is Ok && step_at(
                    src,
                    pos,
                    k,
                )->Ok_0 is Some)
                &&& step_at(src, pos, n) == Err::<Option<TokenView>, LexErrorView>(e)
            },
    decreases src.len() - pos,
{
    lemma_next_token_progress(src, pos);
    let (r, p) = next_token_spec(src, pos);
    if r is Ok && r->Ok_0 is Some {
        let t = r->Ok_0->Some_0;
        law_tokenize_follows_steps(src, p);
        match tokens_spec(src, p) {
            Ok(rest) => {
                let ts = seq![t] + rest;
                assert forall|k: nat| k < ts.len() implies #[trigger] step_at(src, pos, k) == Ok::<
                    Option<TokenView>,
                    LexErrorView,
                >(Some(ts[k as int])) by {
                    if k > 0 {
                        assert(step_at(src, pos, k) == step_at(src, p, (k - 1) as nat));
                    }
                }
                assert(step_at(src, pos, ts.len()) == step_at(src, p, rest.len()));
            },
            Err(e) => {
                let m = choose|m: nat|
                    {
                        &&& forall|k: nat| k < m ==> (#[trigger] step_at(src, p, k) is Ok && step_at(
                            src,
                            p,
                            k,
                        )->Ok_0 is Some)
                        &&& step_at(src, p, m) == Err::<Option<TokenView>, LexErrorView>(e)
                    };
                assert(step_at(src, pos, m + 1) == step_at(src, p, m));
                assert forall|k: nat| k < m + 1 implies (#[trigger] step_at(src, pos, k) is Ok
                    && step_at(src, pos, k)->Ok_0 is Some) by {
                    if k > 0 {
                        assert(step_at(src, pos, k) == step_at(src, p, (k - 1) as nat));
                    }
                }
            },
        }
    } else if r is Err {
        assert(step_at(src, pos, 0) == r);
        assert(forall|k: nat| k < 0 ==> #[trigger] step_at(src, pos, k) is Ok);
    }
}

/// `tokenize` fails with the error of a step that fails after only tokens.
pub proof fn law_tokenize_errs_on_error_step(src: Seq<char>, pos: int, n: nat, e: LexErrorView)
    requires
        0 <= pos <= src.len(),
        forall|k: nat| k < n ==> (#[trigger] step_at(src, pos, k) is Ok && step_at(
            src,
            pos,
            k,
        )->Ok_0 is Some),
        step_at(src, pos, n) == Err::<Option<TokenView>, LexErrorView>(e),
    ensures
        tokens_spec(src, pos) == Err::<Seq<TokenView>, LexErrorView>(e),
{
    law_tokenize_follows_steps(src, pos);
    match tokens_spec(src, pos) {
        Ok(ts) => {
            if n < ts.len() {
                assert(step_at(src, pos, n) is Ok);
            } else if n > ts.len() {
                assert(step_at(src, pos, ts.len()) is Ok && step_at(src, pos, ts.len())->Ok_0 is Some);
            }
        },
        Err(e2) => {
            let m = choose|m: nat|
                {
                    &&& forall|k: nat| k < m ==> (#[trigger] step_at(src, pos, k) is Ok && step_at(
                        src,
                        pos,
                        k,
                    )->Ok_0 is Some)
                    &&& step_at(src, pos, m) == Err::<Option<TokenView>, LexErrorView>(e2)
                };
            if m < n {
                assert(step_at(src, pos, m) is Ok);
            } else if n < m {
                assert(step_at(src, pos, n) is Ok);
            }
        },
    }
}

/// The tokens `ts`, read from `pos` on, tile the text: each lies on the
/// characters it was read from, only whitespace and `//` comments lie before,
/// between and after them.
pub open spec fn tiles(src: Seq<char>, pos: int, ts: Seq<TokenView>) -> bool
    decreases ts.len(),
{
    if ts.len() == 0 {
        blank_span(src, pos, src.len() as int)
    } else {
        exists|s: int, e: int|
            pos <= s < e <= src.len() && blank_span(src, pos, s) && ts[0] == #[trigger] token_at(
                src,
                s,
                e,
                ts[0].kind,
            ) && tiles(src, e, ts.drop_first())
    }
}

/// Over a whole run of the lexer, the gaps before the first token, between
/// tokens and after the last hold only whitespace and `//` comments.
pub proof fn law_run_gaps_are_blank(src: Seq<char>, pos: int)
    requires
        0 <= pos <= src.len(),
    ensures
        tokens_spec(src, pos) matches Ok(ts) ==> tiles(src, pos, ts),
    decreases src.len() - pos,
{
    law_gap_is_blank(src, pos);
    law_end_iff_blank(src, pos);
    lemma_next_token_progress(src, pos);
    let (r, p) = next_token_spec(src, pos);
    if r is Ok && r->Ok_0 is Some {
        let t = r->Ok_0->Some_0;
        law_run_gaps_are_blank(src, p);
        match tokens_spec(src, p) {
            Ok(rest) => {
                let ts = seq![t] + rest;
                assert(ts.drop_first() =~= rest);
                let s = skip_blank(src, pos);
                assert(ts[0] == token_at(src, s, p, ts[0].kind));
                assert(tiles(src, pos, ts));
            },
            Err(_) => {},
        }
    }
}

/// The number of `\n` before the end of `s` is the line it reaches.
pub proof fn lemma_line_of_counts(s: Seq<char>)
    ensures
        line_of(s) == s.filter(|c: char| c == '\n').len(),
    decreases s.len(),
{
    reveal(Seq::filter);
    if s.len() > 0 {
        lemma_line_of_counts(s.drop_last());
    }
}

/// The column that `s` reaches counts the characters after its last `\n`.
pub proof fn lemma_column_of(s: Seq<char>)
    ensures
        column_of(s) <= s.len(),
        forall|k: int| s.len() - column_of(s) <= k < s.len() ==> s[k] != '\n',
        column_of(s) == s.len() || s[s.len() - column_of(s) - 1] == '\n',
    decreases s.len(),
{
    if s.len() > 0 && s.last() != '\n' {
        lemma_column_of(s.drop_last());
        assert forall|k: int| s.len() - column_of(s) <= k < s.len() implies s[k] != '\n' by {
            if k < s.len() - 1 {
                assert(s[k] == s.drop_last()[k]);
            }
        }
        if column_of(s) != s.len() {
            assert(s[s.len() - column_of(s) - 1] == s.drop_last()[s.len() - column_of(s) - 1]);
        }
    }
}

/// Where a token stands, told from the text alone: it lies on the characters
/// just before the new cursor; its span is the byte range those characters
/// take in the UTF-8 encoding; its line is the number of `\n` before it; its
/// column is the number of characters between the last `\n` before it and it.
pub proof fn law_token_position(src: Seq<char>, pos: int)
    requires
        0 <= pos <= src.len(),
    ensures
        next_token_spec(src, pos).0 matches Ok(Some(t)) ==> ({
            let p = next_token_spec(src, pos).1;
            let s = p - t.lexeme.len();
            &&& 0 <= s < p <= src.len()
            &&& t.lexeme == src.subrange(s, p)
            &&& t.span_start == encode_utf8(src.take(s)).len()
            &&& t.span_end == encode_utf8(src.take(p)).len()
            &&& t.line == src.take(s).filter(|c: char| c == '\n').len()
            &&& 0 <= t.column <= s
            &&& forall|k: int| s - t.column <= k < s ==> src[k] != '\n'
            &&& (t.column == s || src[s - t.column - 1] == '\n')
        }),
{
    law_gap_is_blank(src, pos);
    lemma_next_token_progress(src, pos);
    let (r, p) = next_token_spec(src, pos);
    if r is Ok && r->Ok_0 is Some {
        let t = r->Ok_0->Some_0;
        let s = skip_blank(src, pos);
        let pre = src.take(s);
        lemma_line_of_counts(pre);
        lemma_column_of(pre);
        assert forall|k: int| s - t.column <= k < s implies src[k] != '\n' by {
            assert(pre[k] == src[k]);
        }
        if t.column != s {
            assert(pre[s - t.column - 1] == src[s - t.column - 1]);
        }
    }
}

/// What a word is read as, told from its text alone: a token that starts with a
/// letter runs over letters, digits and `_` up to the first other character,
/// and is `true`, `false`, the keyword exactly when its text is `set`, or else
/// a variable named by its text. A token that does not start with a letter is
/// none of these.
pub proof fn law_word_tokens(src: Seq<char>, pos: int)
    requires
        0 <= pos <= src.len(),
    ensures
        next_token_spec(src, pos).0 matches Ok(Some(t)) ==> ({
            let p = next_token_spec(src, pos).1;
            &&& t.lexeme.len() > 0
            &&& is_letter(t.lexeme[0]) ==> {
                &&& forall|k: int| 0 <= k < t.lexeme.len() ==> is_word_char(#[trigger] t.lexeme[k])
                &&& (p == src.len() || !is_word_char(src[p]))
                &&& t.kind == if t.lexeme == seq!['t', 'r', 'u', 'e'] {
                    TokenKindView::Boolean(true)
                } else if t.lexeme == seq!['f', 'a', 'l', 's', 'e'] {
                    TokenKindView::Boolean(false)
                } else if t.lexeme == seq!['s', 'e', 't'] {
                    TokenKindView::Keyword(Keyword::SetKeyword)
                } else {
                    TokenKindView::Variable(t.lexeme)
                }
            }
            &&& !is_letter(t.lexeme[0]) ==> !(t.kind is Keyword) && !(t.kind is Variable) && !(
            t.kind is Boolean)
        }),
{
    law_gap_is_blank(src, pos);
    lemma_next_token_progress(src, pos);
    let (r, p) = next_token_spec(src, pos);
    if r is Ok && r->Ok_0 is Some {
        let t = r->Ok_0->Some_0;
        let s = skip_blank(src, pos);
        lemma_skip(src, pos);
        let w = scan(src, s + 1, CharClass::Word);
        let c = src[s];
        assert(t.lexeme[0] == c);
        if is_letter(c) {
            assert(p == w);
            lemma_scan_run(src, s + 1, CharClass::Word);
            lemma_scan_bounds(src, s + 1, CharClass::Word);
            assert forall|k: int| 0 <= k < t.lexeme.len() implies is_word_char(#[trigger] t.lexeme[k]) by {
                assert(t.lexeme[k] == src[s + k]);
                if k > 0 {
                    assert(in_class(CharClass::Word, src[s + k]));
                }
            }
        }
    }
}

/// The number of `.` in `s` is what `dots` counts.
pub proof fn lemma_dots_counts(s: Seq<char>)
    ensures
        dots(s) == s.filter(|c: char| c == '.').len(),
    decreases s.len(),
{
    reveal(Seq::filter);
    if s.len() > 0 {
        lemma_dots_counts(s.drop_last());
    }
}

/// What a numeric literal is read as, told from its text alone: a read that
/// starts on a digit takes the whole run of digits and `.` after it; with at
/// most one `.` in the run it is a numeric token of that text, with more it is
/// the error `InvalidNumeric` naming the run.
pub proof fn law_numeric_tokens(src: Seq<char>, pos: int)
    requires
        0 <= pos <= src.len(),
    ensures
        ({
            let s = skip_blank(src, pos);
            let (r, p) = next_token_spec(src, pos);
            s < src.len() && is_digit(src[s]) ==> {
                let run = src.subrange(s, p);
                &&& s < p <= src.len()
                &&& forall|k: int| s <= k < p ==> is_numeric_char(#[trigger] src[k])
                &&& (p == src.len() || !is_numeric_char(src[p]))
                &&& if run.filter(|c: char| c == '.').len() <= 1 {
                    r == Ok::<Option<TokenView>, LexErrorView>(
                        Some(token_at(src, s, p, TokenKindView::Numeric(run))),
                    )
                } else {
                    r == Err::<Option<TokenView>, LexErrorView>(LexErrorView::InvalidNumeric(run))
                }
            }
        }),
{
    lemma_skip(src, pos);
    let s = skip_blank(src, pos);
    if s < src.len() && is_digit(src[s]) {
        lemma_scan_run(src, s + 1, CharClass::Numeric);
        lemma_scan_bounds(src, s + 1, CharClass::Numeric);
        let p = scan(src, s + 1, CharClass::Numeric);
        assert(next_token_spec(src, pos).1 == p);
        lemma_dots_counts(src.subrange(s, p));
        assert forall|k: int| s <= k < p implies is_numeric_char(#[trigger] src[k]) by {
            if k > s {
                assert(in_class(CharClass::Numeric, src[k]));
            }
        }
    }
}

/// What a read that starts on a symbol reads, told from the text alone: the
/// one-character tokens; `=`, `!`, `>` and `<`, taken with a following `=`
/// when there is one; `&&` and `||`, where a single `&` or `|` is an error that
/// names the character after it, or the end; and any other character that
/// starts no token is an error that names it. A `/` here starts no comment.
pub proof fn law_symbol_tokens(src: Seq<char>, pos: int)
    requires
        0 <= pos <= src.len(),
    ensures
        ({
            let s = skip_blank(src, pos);
            let r = next_token_spec(src, pos);
            let d = char_at(src, s + 1);
            s < src.len() ==> {
                let c = src[s];
            &&& c == ';' ==> r == (Ok::<Option<TokenView>, LexErrorView>(Some(token_at(src, s, s + 1, TokenKindView::SemiColon))), s + 1)
            &&& c == ':' ==> r == (Ok::<Option<TokenView>, LexErrorView>(Some(token_at(src, s, s + 1, TokenKindView::Colon))), s + 1)
            &&& c == '+' ==> r == (Ok::<Option<TokenView>, LexErrorView>(Some(token_at(src, s, s + 1, TokenKindView::Plus))), s + 1)
            &&& c == '-' ==> r == (Ok::<Option<TokenView>, LexErrorView>(Some(token_at(src, s, s + 1, TokenKindView::Minus))), s + 1)
            &&& c == '*' ==> r == (Ok::<Option<TokenView>, LexErrorView>(Some(token_at(src, s, s + 1, TokenKindView::Asterisk))), s + 1)
            &&& c == '(' ==> r == (Ok::<Option<TokenView>, LexErrorView>(Some(token_at(src, s, s + 1, TokenKindView::LParen))), s + 1)
            &&& c == ')' ==> r == (Ok::<Option<TokenView>, LexErrorView>(Some(token_at(src, s, s + 1, TokenKindView::RParen))), s + 1)
            &&& c == '/' ==> r == (Ok::<Option<TokenView>, LexErrorView>(Some(token_at(src, s, s + 1, TokenKindView::Slash))), s + 1)
            &&& c == '=' ==> r == if d == Some('=') {
                (Ok::<Option<TokenView>, LexErrorView>(Some(token_at(src, s, s + 2, TokenKindView::Equals))), s + 2)
            } else {
                (Ok::<Option<TokenView>, LexErrorView>(Some(token_at(src, s, s + 1, TokenKindView::Assign))), s + 1)
            }
            &&& c == '!' ==> r == if d == Some('=') {
                (Ok::<Option<TokenView>, LexErrorView>(Some(token_at(src, s, s + 2, TokenKindView::NotEquals))), s + 2)
            } else {
                (Ok::<Option<TokenView>, LexErrorView>(Some(token_at(src, s, s + 1, TokenKindView::Bang))), s + 1)
            }
            &&& c == '>' ==> r == if d == Some('=') {
                (Ok::<Option<TokenView>, LexErrorView>(Some(token_at(src, s, s + 2, TokenKindView::GreaterEquals))), s + 2)
            } else {
                (Ok::<Option<TokenView>, LexErrorView>(Some(token_at(src, s, s + 1, TokenKindView::GreaterThan))), s + 1)
            }
            &&& c == '<' ==> r == if d == Some('=') {
                (Ok::<Option<TokenView>, LexErrorView>(Some(token_at(src, s, s + 2, TokenKindView::LesserEquals))), s + 2)
            } else {
                (Ok::<Option<TokenView>, LexErrorView>(Some(token_at(src, s, s + 1, TokenKindView::LessThan))), s + 1)
            }
            &&& c == '&' ==> r == match d {
                Some(x) => if x == '&' {
                    (Ok::<Option<TokenView>, LexErrorView>(Some(token_at(src, s, s + 2, TokenKindView::LogicalAnd))), s + 2)
                } else {
                    (Err::<Option<TokenView>, LexErrorView>(LexErrorView::UnexpectedCharacter(x)), s + 1)
                },
                None => (Err::<Option<TokenView>, LexErrorView>(LexErrorView::UnexpectedEof), s + 1),
            }
            &&& c == '|' ==> r == match d {
                Some(x) => if x == '|' {
                    (Ok::<Option<TokenView>, LexErrorView>(Some(token_at(src, s, s + 2, TokenKindView::LogicalOr))), s + 2)
                } else {
                    (Err::<Option<TokenView>, LexErrorView>(LexErrorView::UnexpectedCharacter(x)), s + 1)
                },
                None => (Err::<Option<TokenView>, LexErrorView>(LexErrorView::UnexpectedEof), s + 1),
            }
            &&& !is_letter(c) && !is_digit(c) && !(c == ';' || c == ':' || c == '+' || c == '-' || c == '*'
                || c == '(' || c == ')' || c == '/' || c == '=' || c == '!' || c == '>' || c == '<'
                || c == '&' || c == '|') ==> r == (Err::<Option<TokenView>, LexErrorView>(
                LexErrorView::UnexpectedCharacter(c)), s + 1)
            }
        }),
{
    lemma_skip(src, pos);
}

} // verus!
