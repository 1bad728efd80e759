//! Lemmas on how the lexer skips whitespace and `//` comments.
use vstd::prelude::*;
use super::chars::is_white_space;
use super::rules::{
    at_crlf, blank_span, char_at, in_class, lemma_line_end_bounds, lemma_scan_bounds, line_end,
    next_token_spec, scan, skip_blank, step, CharClass,
};

verus! {

/// Looking no further than `b` cuts a comment's end at `b`.
pub proof fn lemma_line_end_cut(src: Seq<char>, j: int, b: int)
    requires
        j <= b <= src.len(),
    ensures
        line_end(src, j, b) == if line_end(src, j, src.len() as int) <= b {
            line_end(src, j, src.len() as int)
        } else {
            b
        },
    decreases b - j,
{
    lemma_line_end_bounds(src, j, src.len() as int);
    if j < b && !(src[j] == '\n' && src[j - 1] != '\r') {
        lemma_line_end_cut(src, j + 1, b);
    }
}

/// Skipping a comment's text ends where the comment ends, when the cursor does
/// not stand on the `\n` of a `\r\n` pair.
pub proof fn lemma_scan_comment(src: Seq<char>, j: int)
    requires
        1 <= j <= src.len(),
        j < src.len() && src[j] == '\n' ==> src[j - 1] != '\r',
    ensures
        scan(src, j, CharClass::NotNewline) == line_end(src, j, src.len() as int),
    decreases src.len() - j,
{
    if j < src.len() && src[j] != '\n' {
        if at_crlf(src, j) {
            assert(line_end(src, j + 1, src.len() as int) == line_end(src, j + 2, src.len() as int));
            lemma_scan_comment(src, j + 2);
        } else {
            lemma_scan_comment(src, j + 1);
        }
    }
}

/// Whitespace in front of a blank span keeps it blank.
pub proof fn lemma_blank_extend_ws(src: Seq<char>, a: int, c: int)
    requires
        0 <= a <= src.len(),
        scan(src, a, CharClass::Whitespace) <= c,
        blank_span(src, scan(src, a, CharClass::Whitespace), c),
    ensures
        blank_span(src, a, c),
    decreases src.len() - a,
{
    if a < src.len() && is_white_space(src[a]) {
        lemma_scan_bounds(src, step(src, a), CharClass::Whitespace);
        lemma_blank_extend_ws(src, step(src, a), c);
        if at_crlf(src, a) {
            assert(blank_span(src, a + 1, c));
        }
    }
}

/// From a whitespace character, skipping whitespace ends where it ends from
/// the next character.
pub proof fn lemma_ws_scan_step(src: Seq<char>, a: int)
    requires
        0 <= a < src.len(),
        is_white_space(src[a]),
    ensures
        scan(src, a, CharClass::Whitespace) == scan(src, a + 1, CharClass::Whitespace),
{
    if at_crlf(src, a) {
        assert(in_class(CharClass::Whitespace, src[a + 1]));
        assert(step(src, a + 1) == a + 2);
    }
}

/// Where the next read starts: past a blank span, on no whitespace and no
/// comment; the step from the cursor is the step from there.
pub proof fn lemma_skip(src: Seq<char>, pos: int)
    requires
        0 <= pos <= src.len(),
    ensures
        pos <= skip_blank(src, pos) <= src.len(),
        blank_span(src, pos, skip_blank(src, pos)),
        scan(src, skip_blank(src, pos), CharClass::Whitespace) == skip_blank(src, pos),
        skip_blank(src, pos) < src.len() ==> {
            &&& !is_white_space(src[skip_blank(src, pos)])
            &&& !(src[skip_blank(src, pos)] == '/' && char_at(src, skip_blank(src, pos) + 1)
                == Some('/'))
        },
        next_token_spec(src, pos) == next_token_spec(src, skip_blank(src, pos)),
    decreases src.len() - pos,
{
    lemma_scan_bounds(src, pos, CharClass::Whitespace);
    let s = scan(src, pos, CharClass::Whitespace);
    if s + 1 < src.len() && src[s] == '/' && src[s + 1] == '/' {
        lemma_scan_bounds(src, s + 2, CharClass::NotNewline);
        let q = scan(src, s + 2, CharClass::NotNewline);
        lemma_scan_comment(src, s + 2);
        lemma_skip(src, q);
        let sb = skip_blank(src, q);
        lemma_line_end_cut(src, s + 2, sb);
        assert(blank_span(src, s, sb));
        lemma_blank_extend_ws(src, pos, sb);
    } else {
        lemma_blank_extend_ws(src, pos, s);
        if s < src.len() {
            assert(scan(src, s, CharClass::Whitespace) == s);
        }
    }
}

/// When the rest of the text is blank, the next read starts at its end.
pub proof fn lemma_blank_reaches_end(src: Seq<char>, a: int)
    requires
        0 <= a <= src.len(),
        blank_span(src, a, src.len() as int),
    ensures
        skip_blank(src, a) == src.len(),
    decreases src.len() - a,
{
    if a < src.len() {
        if is_white_space(src[a]) {
            lemma_ws_scan_step(src, a);
            lemma_blank_reaches_end(src, a + 1);
        } else {
            let k = line_end(src, a + 2, src.len() as int);
            lemma_line_end_bounds(src, a + 2, src.len() as int);
            lemma_scan_comment(src, a + 2);
            lemma_blank_reaches_end(src, k);
        }
    }
}

} // verus!
