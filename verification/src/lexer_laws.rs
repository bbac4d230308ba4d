//! What the lexer promises of whole words and of the positions it reports.
use vstd::prelude::*;
use crate::ast::Span;
use crate::lexer::{
    TokenV, TokenDataV, spec_next_token, skip_ws, ident_end, is_ident_char, is_keyword, line_at, col_at, span_at,
    char_at, comment_end, is_two_char_op, is_symbol_char, is_operator_char, lemma_scan_bounds, lemma_next_token_bounds,
};
use crate::text::{alphabetic, numeric, ascii_digit, unicode_white_space};

verus! {

proof fn lemma_ident_runs_to_end(s: Seq<char>, p: int)
    requires
        0 <= p <= s.len(),
        forall|i: int| p <= i < s.len() ==> is_ident_char(#[trigger] s[i]),
    ensures
        ident_end(s, p) == s.len(),
    decreases s.len() - p,
{
    if p < s.len() {
        lemma_ident_runs_to_end(s, p + 1);
    }
}

/// A word, that is a letter or `_` followed by letters, digits and `_`, lexes as one token that
/// takes the whole word: the keyword if the word is one, else an identifier, at line 1, column 1.
/// A keyword inside a longer word does not count: `letter` is an identifier.
pub proof fn law_word_is_one_token(s: Seq<char>)
    requires
        s.len() >= 1,
        alphabetic(s[0]) || s[0] == '_',
        forall|i: int| 1 <= i < s.len() ==> is_ident_char(#[trigger] s[i]),
    ensures
        spec_next_token(s, 0) == (
            TokenV {
                data: if is_keyword(s) { TokenDataV::Keyword(s) } else { TokenDataV::Identifier(s) },
                span: Span { line: 1, col: 1 },
            },
            s.len() as int,
        ),
{
    assert(!unicode_white_space(s[0]));
    assert(skip_ws(s, 0) == 0);
    assert(s[0] != '/');
    assert(line_at(s, 0) == 1);
    assert(col_at(s, 0) == 1);
    assert(is_ident_char(s[0]));
    lemma_ident_runs_to_end(s, 0);
    assert(s.subrange(0, s.len() as int) =~= s);
}

/// The number of newline characters in `s`.
pub open spec fn newlines(s: Seq<char>) -> nat {
    s.filter(|c: char| c == '\n').len()
}

/// The line of a position is one more than the number of newlines before it.
pub proof fn law_line_counts_newlines(s: Seq<char>, p: int)
    requires
        0 <= p <= s.len(),
    ensures
        line_at(s, p) == 1 + newlines(s.take(p)),
    decreases p,
{
    reveal(Seq::filter);
    if p > 0 {
        law_line_counts_newlines(s, p - 1);
        assert(s.take(p).drop_last() =~= s.take(p - 1));
        assert(s.take(p).last() == s[p - 1]);
    } else {
        assert(s.take(0) =~= Seq::<char>::empty());
    }
}

/// The column of a position is one more than the number of characters between the start of its
/// line (the start of the input, or just after the last newline before it) and the position.
pub proof fn law_column_counts_from_line_start(s: Seq<char>, j: int, p: int)
    requires
        0 <= j <= p <= s.len(),
        j == 0 || s[j - 1] == '\n',
        forall|k: int| j <= k < p ==> s[k] != '\n',
    ensures
        col_at(s, p) == p - j + 1,
    decreases p - j,
{
    if p > j {
        law_column_counts_from_line_start(s, j, p - 1);
    }
}

/// Once the input is used up, the lexer keeps answering with the same end-of-input token, at the
/// same position.
pub proof fn law_eof_repeats(s: Seq<char>, p: int)
    requires
        0 <= p <= s.len(),
        spec_next_token(s, p).0.data is EOF,
    ensures
        spec_next_token(s, spec_next_token(s, p).1) == spec_next_token(s, p),
{
    lemma_next_token_bounds(s, p);
    lemma_eof_at_end(s, p);
    let e = s.len() as int;
    assert(skip_ws(s, e) == e);
}

proof fn lemma_eof_at_end(s: Seq<char>, p: int)
    requires
        0 <= p <= s.len(),
        spec_next_token(s, p).0.data is EOF,
    ensures
        spec_next_token(s, p).0.span == span_at(s, s.len() as int),
    decreases s.len() - p,
{
    lemma_scan_bounds(s, p);
    let q = skip_ws(s, p);
    if q < s.len() {
        let ch = s[q];
        let nx = char_at(s, q + 1);
        lemma_scan_bounds(s, q);
        if q + 1 <= s.len() {
            lemma_scan_bounds(s, q + 1);
        }
        if ch == '/' && nx == '/' {
            lemma_eof_at_end(s, comment_end(s, q + 1));
        } else if alphabetic(ch) || ch == '_' {
        } else if numeric(ch) {
        } else if ch == '"' {
        } else if ch == '#' {
        } else if ch == '-' && nx == '>' {
        } else if is_two_char_op(ch, nx) {
        } else if is_symbol_char(ch) {
        } else if is_operator_char(ch) {
        } else {
            lemma_eof_at_end(s, q + 1);
        }
    }
}

/// Every token carries the line and column of one position of the input at or after where
/// lexing started: for end-of-input, the end of the input; for any other token, a position
/// before the end of the token (the position of its first character).
pub proof fn law_token_span(s: Seq<char>, p: int)
    requires
        0 <= p <= s.len(),
    ensures
        exists|i: int| {
            &&& p <= i <= s.len()
            &&& spec_next_token(s, p).0.span == span_at(s, i)
            &&& (spec_next_token(s, p).0.data is EOF ==> i == s.len())
            &&& (!(spec_next_token(s, p).0.data is EOF) ==> i < spec_next_token(s, p).1)
        },
    decreases s.len() - p,
{
    lemma_next_token_bounds(s, p);
    lemma_scan_bounds(s, p);
    let q = skip_ws(s, p);
    if q >= s.len() {
        assert(spec_next_token(s, p).0.span == span_at(s, q));
    } else {
        let ch = s[q];
        let nx = char_at(s, q + 1);
        lemma_scan_bounds(s, q);
        if q + 1 <= s.len() {
            lemma_scan_bounds(s, q + 1);
        }
        if ch == '/' && nx == '/' {
            law_token_span(s, comment_end(s, q + 1));
        } else if alphabetic(ch) || ch == '_' || numeric(ch) || ch == '"' || ch == '#' || (ch == '-' && nx == '>')
            || is_two_char_op(ch, nx) || is_symbol_char(ch) || is_operator_char(ch) {
            assert(spec_next_token(s, p).0.span == span_at(s, q));
            if alphabetic(ch) || ch == '_' {
                assert(ident_end(s, q) > q);
            } else if numeric(ch) {
                assert(crate::lexer::number_end(s, q) > q);
            }
        } else {
            law_token_span(s, q + 1);
        }
    }
}

/// Each two-character operator (`++ -- == != <= >= += -= ->`) lexes as one operator token of
/// exactly those two characters, at the line and column of its first character.
pub proof fn law_two_char_operator(s: Seq<char>, p: int)
    requires
        0 <= p,
        p + 1 < s.len(),
        ({
            let (a, b) = (s[p], s[p + 1]);
            ||| (a == '+' && b == '+')
            ||| (a == '-' && b == '-')
            ||| (a == '=' && b == '=')
            ||| (a == '!' && b == '=')
            ||| (a == '<' && b == '=')
            ||| (a == '>' && b == '=')
            ||| (a == '+' && b == '=')
            ||| (a == '-' && b == '=')
            ||| (a == '-' && b == '>')
        }),
    ensures
        spec_next_token(s, p) == (
            TokenV { data: TokenDataV::Operator(seq![s[p], s[p + 1]]), span: span_at(s, p) },
            p + 2,
        ),
{
    let ch = s[p];
    assert(!unicode_white_space(ch));
    assert(skip_ws(s, p) == p);
    assert(!alphabetic(ch));
    assert(!numeric(ch));
    assert(char_at(s, p + 1) == s[p + 1]);
}

/// A lone `=` (not followed by `=`) is the assignment operator, one character long.
pub proof fn law_single_equals(s: Seq<char>, p: int)
    requires
        0 <= p < s.len(),
        s[p] == '=',
        p + 1 >= s.len() || s[p + 1] != '=',
    ensures
        spec_next_token(s, p) == (TokenV { data: TokenDataV::Operator(seq!['=']), span: span_at(s, p) }, p + 1),
{
    assert(!unicode_white_space(s[p]));
    assert(skip_ws(s, p) == p);
    assert(!alphabetic(s[p]));
    assert(!numeric(s[p]));
}

proof fn lemma_number_runs_to(s: Seq<char>, q: int, e: int)
    requires
        0 <= q <= e <= s.len(),
        forall|k: int| q <= k < e ==> ascii_digit(#[trigger] s[k]) || s[k] == '.',
        e == s.len() || ((s[e] as u32) < 0x80 && !ascii_digit(s[e]) && s[e] != '.'),
    ensures
        crate::lexer::number_end(s, q) == e,
    decreases e - q,
{
    if q < e {
        lemma_number_runs_to(s, q + 1, e);
    }
}

/// A run of ASCII digits (with `.`s after the first digit) lexes as one number token holding the
/// whole run, at the line and column of its first digit.
pub proof fn law_number_token(s: Seq<char>, p: int, e: int)
    requires
        0 <= p < e <= s.len(),
        ascii_digit(s[p]),
        forall|k: int| p < k < e ==> ascii_digit(#[trigger] s[k]) || s[k] == '.',
        e == s.len() || ((s[e] as u32) < 0x80 && !ascii_digit(s[e]) && s[e] != '.'),
    ensures
        spec_next_token(s, p) == (TokenV { data: TokenDataV::Number(s.subrange(p, e)), span: span_at(s, p) }, e),
{
    assert(!unicode_white_space(s[p]));
    assert(skip_ws(s, p) == p);
    assert(!alphabetic(s[p]));
    assert(s[p] != '_' && s[p] != '/');
    lemma_number_runs_to(s, p, e);
}

/// Each punctuation character `{ } ( ) [ ] ; , :` lexes as a symbol token of its own.
pub proof fn law_symbol_token(s: Seq<char>, p: int)
    requires
        0 <= p < s.len(),
        ({
            let c = s[p];
            c == '{' || c == '}' || c == '(' || c == ')' || c == '[' || c == ']' || c == ';' || c == ',' || c == ':'
        }),
    ensures
        spec_next_token(s, p) == (TokenV { data: TokenDataV::Symbol(s[p]), span: span_at(s, p) }, p + 1),
{
    assert(!unicode_white_space(s[p]));
    assert(skip_ws(s, p) == p);
    assert(!alphabetic(s[p]));
    assert(!numeric(s[p]));
}

} // verus!
