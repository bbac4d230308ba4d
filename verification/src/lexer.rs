//! The lexer: turns source text into tokens, each tagged with the line and column
//! where it starts.
use vstd::prelude::*;
use crate::ast::Span;
use crate::text::{alphabetic, numeric, unicode_white_space, alphanumeric, char_is_alphabetic, char_is_numeric, char_is_whitespace, char_is_alphanumeric, push_char, chars_of, string_of_range, str_is};

verus! {

#[derive(Debug, Clone, PartialEq)]
pub enum TokenData {
    Keyword(String),
    Identifier(String),
    Number(String),
    Operator(String),
    Symbol(char),
    StringLiteral(String),
    RawC(String),
    Whitespace,
    EOF,
}

#[derive(Debug, Clone, PartialEq)]
pub struct Token {
    pub data: TokenData,
    pub span: Span,
}

/// The mathematical model of a token's payload.
pub enum TokenDataV {
    Keyword(Seq<char>),
    Identifier(Seq<char>),
    Number(Seq<char>),
    Operator(Seq<char>),
    Symbol(char),
    StringLiteral(Seq<char>),
    RawC(Seq<char>),
    Whitespace,
    EOF,
}

pub struct TokenV {
    pub data: TokenDataV,
    pub span: Span,
}

impl View for TokenData {
    type V = TokenDataV;

    open spec fn view(&self) -> TokenDataV {
        match self {
            TokenData::Keyword(s) => TokenDataV::Keyword(s@),
            TokenData::Identifier(s) => TokenDataV::Identifier(s@),
            TokenData::Number(s) => TokenDataV::Number(s@),
            TokenData::Operator(s) => TokenDataV::Operator(s@),
            TokenData::Symbol(c) => TokenDataV::Symbol(*c),
            TokenData::StringLiteral(s) => TokenDataV::StringLiteral(s@),
            TokenData::RawC(s) => TokenDataV::RawC(s@),
            TokenData::Whitespace => TokenDataV::Whitespace,
            TokenData::EOF => TokenDataV::EOF,
        }
    }
}

impl View for Token {
    type V = TokenV;

    open spec fn view(&self) -> TokenV {
        TokenV { data: self.data@, span: self.span }
    }
}

/// A copy of `t` (equal to it).
pub fn clone_token(t: &Token) -> (r: Token)
    ensures
        r == *t,
{
    let data = match &t.data {
        TokenData::Keyword(s) => TokenData::Keyword(s.clone()),
        TokenData::Identifier(s) => TokenData::Identifier(s.clone()),
        TokenData::Number(s) => TokenData::Number(s.clone()),
        TokenData::Operator(s) => TokenData::Operator(s.clone()),
        TokenData::Symbol(c) => TokenData::Symbol(*c),
        TokenData::StringLiteral(s) => TokenData::StringLiteral(s.clone()),
        TokenData::RawC(s) => TokenData::RawC(s.clone()),
        TokenData::Whitespace => TokenData::Whitespace,
        TokenData::EOF => TokenData::EOF,
    };
    Token { data, span: t.span }
}

// ---------------------------------------------------------------------------
// Specification of the lexer over the character sequence of the input.
// ---------------------------------------------------------------------------

/// The character at `i`, or `'\0'` past the end.
pub open spec fn char_at(s: Seq<char>, i: int) -> char {
    if 0 <= i < s.len() { s[i] } else { '\0' }
}

/// The 1-based line of position `p`: one more than the newlines before it.
pub open spec fn line_at(s: Seq<char>, p: int) -> int
    decreases p,
{
    if p <= 0 { 1 } else { line_at(s, p - 1) + if s[p - 1] == '\n' { 1int } else { 0 } }
}

/// The 1-based column of position `p`: one more than the characters since the last newline.
pub open spec fn col_at(s: Seq<char>, p: int) -> int
    decreases p,
{
    if p <= 0 { 1 } else if s[p - 1] == '\n' { 1 } else { col_at(s, p - 1) + 1 }
}

pub open spec fn span_at(s: Seq<char>, p: int) -> Span {
    Span { line: line_at(s, p) as usize, col: col_at(s, p) as usize }
}

pub proof fn lemma_line_col_bounds(s: Seq<char>, p: int)
    requires
        0 <= p,
    ensures
        1 <= line_at(s, p) <= p + 1,
        1 <= col_at(s, p) <= p + 1,
    decreases p,
{
    if p > 0 {
        lemma_line_col_bounds(s, p - 1);
    }
}

/// Whitespace is skipped up to the first non-whitespace character.
pub open spec fn skip_ws(s: Seq<char>, p: int) -> int
    decreases s.len() - p,
{
    if 0 <= p < s.len() && unicode_white_space(s[p]) { skip_ws(s, p + 1) } else { p }
}

/// A line comment runs up to (not including) the next newline.
pub open spec fn comment_end(s: Seq<char>, p: int) -> int
    decreases s.len() - p,
{
    if 0 <= p < s.len() && s[p] != '\n' { comment_end(s, p + 1) } else { p }
}

pub open spec fn is_ident_char(c: char) -> bool {
    alphanumeric(c) || c == '_'
}

pub open spec fn ident_end(s: Seq<char>, p: int) -> int
    decreases s.len() - p,
{
    if 0 <= p < s.len() && is_ident_char(s[p]) { ident_end(s, p + 1) } else { p }
}

pub open spec fn is_number_char(c: char) -> bool {
    numeric(c) || c == '.'
}

pub open spec fn number_end(s: Seq<char>, p: int) -> int
    decreases s.len() - p,
{
    if 0 <= p < s.len() && is_number_char(s[p]) { number_end(s, p + 1) } else { p }
}

/// A string literal's body runs up to the next double quote.
pub open spec fn string_end(s: Seq<char>, p: int) -> int
    decreases s.len() - p,
{
    if 0 <= p < s.len() && s[p] != '"' { string_end(s, p + 1) } else { p }
}

pub proof fn lemma_scan_bounds(s: Seq<char>, p: int)
    requires
        0 <= p <= s.len(),
    ensures
        p <= skip_ws(s, p) <= s.len(),
        p <= comment_end(s, p) <= s.len(),
        p <= ident_end(s, p) <= s.len(),
        p <= number_end(s, p) <= s.len(),
        p <= string_end(s, p) <= s.len(),
    decreases s.len() - p,
{
    if p < s.len() {
        lemma_scan_bounds(s, p + 1);
    }
}

/// The words that lex as keywords.
pub open spec fn is_keyword(w: Seq<char>) -> bool {
    ||| w == "let"@
    ||| w == "unsafe"@
    ||| w == "struct"@
    ||| w == "bind"@
    ||| w == "fork"@
    ||| w == "patch"@
    ||| w == "host"@
    ||| w == "as"@
    ||| w == "alias"@
    ||| w == "mut"@
    ||| w == "return"@
    ||| w == "if"@
    ||| w == "else"@
    ||| w == "spawn"@
    ||| w == "for"@
    ||| w == "while"@
}

/// Pairs of characters that lex as one two-character operator (besides `->`).
pub open spec fn is_two_char_op(a: char, b: char) -> bool {
    ||| (a == '+' && b == '+')
    ||| (a == '-' && b == '-')
    ||| (a == '=' && b == '=')
    ||| (a == '!' && b == '=')
    ||| (a == '<' && b == '=')
    ||| (a == '>' && b == '=')
    ||| (a == '+' && b == '=')
    ||| (a == '-' && b == '=')
}

pub open spec fn is_symbol_char(c: char) -> bool {
    c == '{' || c == '}' || c == '(' || c == ')' || c == '[' || c == ']' || c == ';' || c == ','
        || c == ':'
}

pub open spec fn is_operator_char(c: char) -> bool {
    c == '+' || c == '-' || c == '*' || c == '/' || c == '=' || c == '.' || c == '&' || c == '<'
        || c == '>' || c == '!'
}

/// The token that starts at or after position `p`, with the position after it.
/// Line comments and characters that belong to no token are skipped.
pub open spec fn spec_next_token(s: Seq<char>, p: int) -> (TokenV, int)
    decreases s.len() - p,
{
    if !(0 <= p <= s.len()) {
        (TokenV { data: TokenDataV::EOF, span: span_at(s, p) }, p)
    } else {
        let q = skip_ws(s, p);
        let span = span_at(s, q);
        proof {
            lemma_scan_bounds(s, p);
        }
        if q >= s.len() {
            (TokenV { data: TokenDataV::EOF, span }, q)
        } else {
            let ch = s[q];
            let nx = char_at(s, q + 1);
            if ch == '/' && nx == '/' {
                proof {
                    lemma_scan_bounds(s, q + 1);
                }
                spec_next_token(s, comment_end(s, q + 1))
            } else if alphabetic(ch) || ch == '_' {
                let e = ident_end(s, q);
                let w = s.subrange(q, e);
                let data = if is_keyword(w) { TokenDataV::Keyword(w) } else { TokenDataV::Identifier(w) };
                (TokenV { data, span }, e)
            } else if numeric(ch) {
                let e = number_end(s, q);
                (TokenV { data: TokenDataV::Number(s.subrange(q, e)), span }, e)
            } else if ch == '"' {
                let e = string_end(s, q + 1);
                let after = if e < s.len() { e + 1 } else { e };
                (TokenV { data: TokenDataV::StringLiteral(s.subrange(q + 1, e)), span }, after)
            } else if ch == '#' {
                let e = comment_end(s, q);
                let after = if e < s.len() { e + 1 } else { e };
                (TokenV { data: TokenDataV::RawC(s.subrange(q, e)), span }, after)
            } else if ch == '-' && nx == '>' {
                (TokenV { data: TokenDataV::Operator(seq!['-', '>']), span }, q + 2)
            } else if is_two_char_op(ch, nx) {
                (TokenV { data: TokenDataV::Operator(seq![ch, nx]), span }, q + 2)
            } else if is_symbol_char(ch) {
                (TokenV { data: TokenDataV::Symbol(ch), span }, q + 1)
            } else if is_operator_char(ch) {
                (TokenV { data: TokenDataV::Operator(seq![ch]), span }, q + 1)
            } else {
                spec_next_token(s, q + 1)
            }
        }
    }
}

/// Lexing makes progress: the next token ends at or after `p` and within the input, a token
/// other than end-of-input consumes at least one character, end-of-input is only reported at
/// the end, and no token is ever the skipped `Whitespace` kind.
pub proof fn lemma_next_token_bounds(s: Seq<char>, p: int)
    requires
        0 <= p <= s.len(),
    ensures
        p <= spec_next_token(s, p).1 <= s.len(),
        spec_next_token(s, p).0.data is EOF ==> spec_next_token(s, p).1 == s.len(),
        !(spec_next_token(s, p).0.data is EOF) ==> p < spec_next_token(s, p).1,
        !(spec_next_token(s, p).0.data is Whitespace),
    decreases s.len() - p,
{
    lemma_scan_bounds(s, p);
    let q = skip_ws(s, p);
    if q < s.len() {
        let ch = s[q];
        let nx = char_at(s, q + 1);
        lemma_scan_bounds(s, q);
        if q + 1 <= s.len() {
            lemma_scan_bounds(s, q + 1);
        }
        if ch == '/' && nx == '/' {
            lemma_next_token_bounds(s, comment_end(s, q + 1));
        } else if alphabetic(ch) || ch == '_' {
            assert(ident_end(s, q) > q);
        } else if numeric(ch) {
            assert(number_end(s, q) > q);
        } else if ch == '"' {
        } else if ch == '#' {
        } else if ch == '-' && nx == '>' {
        } else if is_two_char_op(ch, nx) {
        } else if is_symbol_char(ch) {
        } else if is_operator_char(ch) {
        } else {
            lemma_next_token_bounds(s, q + 1);
        }
    }
}

// ---------------------------------------------------------------------------
// Executable lexer.
// ---------------------------------------------------------------------------

pub struct Lexer {
    input: Vec<char>,
    pos: usize,
    line: usize,
    col: usize,
}

impl Lexer {
    /// The characters being lexed.
    pub closed spec fn text(&self) -> Seq<char> {
        self.input@
    }

    /// The position (in characters) of the next character to read.
    pub closed spec fn position(&self) -> int {
        self.pos as int
    }

    /// The lexer's internal invariant: the position lies within the input, and the
    /// line and column it tracks are those of the position.
    pub closed spec fn wf(&self) -> bool {
        &&& self.input@.len() < usize::MAX
        &&& self.pos <= self.input@.len()
        &&& self.line == line_at(self.input@, self.pos as int)
        &&& self.col == col_at(self.input@, self.pos as int)
    }

    /// A well-formed lexer's position lies within its text.
    pub proof fn lemma_position_in_text(&self)
        requires
            self.wf(),
        ensures
            0 <= self.position() <= self.text().len(),
            self.text().len() < usize::MAX,
    {
    }

    pub fn new(input: &str) -> (r: Self)
        requires
            input@.len() < usize::MAX,
        ensures
            r.wf(),
            r.text() == input@,
            r.position() == 0,
    {
        let chars = chars_of(input);
        Lexer { input: chars, pos: 0, line: 1, col: 1 }
    }

    /// The next token. Whitespace, line comments and characters that start no token
    /// are skipped; at the end of the input the token is `EOF`, and every later call
    /// returns `EOF` again. A token's span is the line and column of its first character.
    pub fn next_token(&mut self) -> (t: Token)
        requires
            old(self).wf(),
        ensures
            final(self).wf(),
            final(self).text() == old(self).text(),
            (t@, final(self).position()) == spec_next_token(old(self).text(), old(self).position()),
            0 <= final(self).position() <= final(self).text().len(),
        decreases old(self).text().len() - old(self).position(),
    {
        self.skip_whitespace();
        let span = Span { line: self.line, col: self.col };
        proof {
            lemma_scan_bounds(self.input@, old(self).pos as int);
        }
        if self.pos >= self.input.len() {
            return Token { data: TokenData::EOF, span };
        }
        let ch = self.current_char();
        if ch == '/' && self.peek_char() == '/' {
            let ghost q = self.pos as int;
            self.skip_comment();
            proof {
                lemma_scan_bounds(self.input@, q + 1);
                assert(comment_end(self.input@, q) == comment_end(self.input@, q + 1));
            }
            return self.next_token();
        }
        if char_is_alphabetic(ch) || ch == '_' {
            let start = self.pos;
            self.read_identifier();
            proof {
                lemma_scan_bounds(self.input@, start as int);
            }
            let ident = string_of_range(&self.input, start, self.pos);
            let kw = str_is(&ident, "let") || str_is(&ident, "unsafe") || str_is(&ident, "struct")
                || str_is(&ident, "bind") || str_is(&ident, "fork") || str_is(&ident, "patch")
                || str_is(&ident, "host") || str_is(&ident, "as") || str_is(&ident, "alias")
                || str_is(&ident, "mut") || str_is(&ident, "return") || str_is(&ident, "if")
                || str_is(&ident, "else") || str_is(&ident, "spawn") || str_is(&ident, "for")
                || str_is(&ident, "while");
            let data = if kw { TokenData::Keyword(ident) } else { TokenData::Identifier(ident) };
            return Token { data, span };
        }
        if char_is_numeric(ch) {
            let start = self.pos;
            self.read_number();
            proof {
                lemma_scan_bounds(self.input@, start as int);
            }
            let num = string_of_range(&self.input, start, self.pos);
            return Token { data: TokenData::Number(num), span };
        }
        if ch == '"' {
            return Token { data: TokenData::StringLiteral(self.read_string()), span };
        }
        if ch == '#' {
            return Token { data: TokenData::RawC(self.read_raw_line()), span };
        }
        let nx = self.peek_char();
        if ch == '-' && nx == '>' {
            self.advance();
            self.advance();
            let mut op = String::new();
            push_char(&mut op, '-');
            push_char(&mut op, '>');
            assert(op@ =~= seq!['-', '>']);
            return Token { data: TokenData::Operator(op), span };
        }
        if (ch == '+' && nx == '+') || (ch == '-' && nx == '-') || (ch == '=' && nx == '=') || (ch
            == '!' && nx == '=') || (ch == '<' && nx == '=') || (ch == '>' && nx == '=') || (ch
            == '+' && nx == '=') || (ch == '-' && nx == '=') {
            let mut op = String::new();
            push_char(&mut op, ch);
            push_char(&mut op, nx);
            self.advance();
            self.advance();
            assert(op@ =~= seq![ch, nx]);
            return Token { data: TokenData::Operator(op), span };
        }
        if ch == '{' || ch == '}' || ch == '(' || ch == ')' || ch == '[' || ch == ']' || ch == ';'
            || ch == ',' || ch == ':' {
            self.advance();
            return Token { data: TokenData::Symbol(ch), span };
        }
        if ch == '+' || ch == '-' || ch == '*' || ch == '/' || ch == '=' || ch == '.' || ch == '&'
            || ch == '<' || ch == '>' || ch == '!' {
            self.advance();
            let mut op = String::new();
            push_char(&mut op, ch);
            assert(op@ =~= seq![ch]);
            return Token { data: TokenData::Operator(op), span };
        }
        self.advance();
        self.next_token()
    }

    fn current_char(&self) -> (c: char)
        requires
            self.wf(),
        ensures
            c == char_at(self.input@, self.pos as int),
    {
        if self.pos < self.input.len() {
            self.input[self.pos]
        } else {
            '\0'
        }
    }

    fn peek_char(&self) -> (c: char)
        requires
            self.wf(),
        ensures
            c == char_at(self.input@, self.pos + 1),
    {
        if self.pos + 1 < self.input.len() {
            self.input[self.pos + 1]
        } else {
            '\0'
        }
    }

    /// Moves past one character, keeping line and column in step.
    fn advance(&mut self)
        requires
            old(self).wf(),
        ensures
            final(self).wf(),
            final(self).input == old(self).input,
            final(self).pos == if old(self).pos < old(self).input@.len() { old(self).pos + 1 } else { old(self).pos as int },
    {
        if self.pos < self.input.len() {
            let ch = self.input[self.pos];
            proof {
                lemma_line_col_bounds(self.input@, self.pos as int);
            }
            self.pos = self.pos + 1;
            if ch == '\n' {
                self.line = self.line + 1;
                self.col = 1;
            } else {
                self.col = self.col + 1;
            }
        }
    }

    fn skip_whitespace(&mut self)
        requires
            old(self).wf(),
        ensures
            final(self).wf(),
            final(self).input == old(self).input,
            final(self).pos == skip_ws(old(self).input@, old(self).pos as int),
    {
        while self.pos < self.input.len() && char_is_whitespace(self.current_char())
            invariant
                self.wf(),
                self.input == old(self).input,
                skip_ws(self.input@, self.pos as int) == skip_ws(old(self).input@, old(self).pos as int),
            decreases self.input@.len() - self.pos,
        {
            self.advance();
        }
    }

    fn skip_comment(&mut self)
        requires
            old(self).wf(),
        ensures
            final(self).wf(),
            final(self).input == old(self).input,
            final(self).pos == comment_end(old(self).input@, old(self).pos as int),
    {
        while self.pos < self.input.len() && self.current_char() != '\n'
            invariant
                self.wf(),
                self.input == old(self).input,
                comment_end(self.input@, self.pos as int) == comment_end(old(self).input@, old(self).pos as int),
            decreases self.input@.len() - self.pos,
        {
            self.advance();
        }
    }

    fn read_identifier(&mut self)
        requires
            old(self).wf(),
        ensures
            final(self).wf(),
            final(self).input == old(self).input,
            final(self).pos == ident_end(old(self).input@, old(self).pos as int),
    {
        while self.pos < self.input.len() && (char_is_alphanumeric(self.current_char())
            || self.current_char() == '_')
            invariant
                self.wf(),
                self.input == old(self).input,
                ident_end(self.input@, self.pos as int) == ident_end(old(self).input@, old(self).pos as int),
            decreases self.input@.len() - self.pos,
        {
            self.advance();
        }
    }

    fn read_number(&mut self)
        requires
            old(self).wf(),
        ensures
            final(self).wf(),
            final(self).input == old(self).input,
            final(self).pos == number_end(old(self).input@, old(self).pos as int),
    {
        while self.pos < self.input.len() && (char_is_numeric(self.current_char())
            || self.current_char() == '.')
            invariant
                self.wf(),
                self.input == old(self).input,
                number_end(self.input@, self.pos as int) == number_end(old(self).input@, old(self).pos as int),
            decreases self.input@.len() - self.pos,
        {
            self.advance();
        }
    }

    /// Reads a string literal that starts at the opening quote; returns its body.
    fn read_string(&mut self) -> (r: String)
        requires
            old(self).wf(),
            old(self).pos < old(self).input@.len(),
        ensures
            final(self).wf(),
            final(self).input == old(self).input,
            ({
                let e = string_end(old(self).input@, old(self).pos + 1);
                &&& r@ == old(self).input@.subrange(old(self).pos + 1, e)
                &&& final(self).pos == if e < old(self).input@.len() { e + 1 } else { e }
            }),
    {
        self.advance();
        let start = self.pos;
        while self.pos < self.input.len() && self.current_char() != '"'
            invariant
                self.wf(),
                self.input == old(self).input,
                start <= self.pos,
                string_end(self.input@, self.pos as int) == string_end(old(self).input@, old(self).pos + 1),
            decreases self.input@.len() - self.pos,
        {
            self.advance();
        }
        let res = string_of_range(&self.input, start, self.pos);
        self.advance();
        res
    }

    /// Reads the rest of the line (a preprocessor or raw C line) and the newline after it.
    fn read_raw_line(&mut self) -> (r: String)
        requires
            old(self).wf(),
        ensures
            final(self).wf(),
            final(self).input == old(self).input,
            ({
                let e = comment_end(old(self).input@, old(self).pos as int);
                &&& r@ == old(self).input@.subrange(old(self).pos as int, e)
                &&& final(self).pos == if e < old(self).input@.len() { e + 1 } else { e }
            }),
    {
        let start = self.pos;
        while self.pos < self.input.len() && self.current_char() != '\n'
            invariant
                self.wf(),
                self.input == old(self).input,
                start <= self.pos,
                comment_end(self.input@, self.pos as int) == comment_end(old(self).input@, old(self).pos as int),
            decreases self.input@.len() - self.pos,
        {
            self.advance();
        }
        let res = string_of_range(&self.input, start, self.pos);
        if self.current_char() == '\n' {
            self.advance();
        }
        res
    }
}

} // verus!
