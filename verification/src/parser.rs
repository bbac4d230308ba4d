//! The recursive-descent parser. It reads the whole token stream first and then
//! follows the grammar of `parser_spec`, which its contracts state exactly.
use vstd::prelude::*;
use crate::ast::{
    Span, Node, Statement, Expression, StructDef, Field, BindBlock, FunctionDef, ForkBlock, ForkOp,
    BindOp, VariableDeclaration, ConstructorCall, AliasDeclaration, NodeV, ExprNodeV, StmtNodeV,
    StructDefV, FunctionDefV, BindBlockV, ForkBlockV, AliasDeclV, ExprV,
    expr_node_view, expr_view, exprs_view, stmt_node_view, stmts_view, struct_def_view, field_view,
    fields_view, func_view, funcs_view, params_view, fork_op_view, fork_ops_view, bind_op_view,
    bind_ops_view, alias_view, opt_expr_view,
};
use crate::lexer::{Lexer, Token, TokenData, TokenV, TokenDataV, spec_next_token, clone_token};
use crate::parser_spec::{
    ParseErrorV, wf_tokens, adv, fwd, fwd_eq, is_close_or_eof, sp_ident, sp_expect_sym,
    sp_expect_op, sp_optional_semi, sp_ptr_suffix, lemma_ptr_suffix, sp_skip_to_as,
    sp_params, lemma_params, sp_alias, precedence, cast_type_text, sp_primary, sp_expression, sp_expr_loop, sp_exprlist, sp_default,
    sp_struct_fields, sp_struct, sp_block_node, sp_block_loop, sp_function_inner, sp_bind_funcs,
    sp_bind, sp_fork_ops, sp_bind_ops, sp_fork, sp_declaration, sp_return, sp_spawn, sp_if,
    sp_expr_stmt, sp_statement, sp_program, loop_body, sp_while, sp_for_init, sp_opt_expr, sp_for, };
use crate::text::{str_is, string_from, push_char};

verus! {

/// What the parser reports when the input does not fit the grammar.
#[allow(inconsistent_fields)]
#[derive(Debug)]
pub enum ParseError {
    ExpectedSymbol { span: Span, expected: char, found: TokenData },
    ExpectedOperator { span: Span, expected: String, found: TokenData },
    KeywordAsIdentifier { span: Span, keyword: String },
    ExpectedIdentifier { span: Span, found: TokenData },
    UnexpectedToken { span: Span, found: TokenData },
    MissingThenBranch,
    MissingElseBranch,
}

impl View for ParseError {
    type V = ParseErrorV;

    open spec fn view(&self) -> ParseErrorV {
        match self {
            ParseError::ExpectedSymbol { span, expected, found } => ParseErrorV::ExpectedSymbol {
                span: *span,
                expected: *expected,
                found: found@,
            },
            ParseError::ExpectedOperator { span, expected, found } => ParseErrorV::ExpectedOperator {
                span: *span,
                expected: expected@,
                found: found@,
            },
            ParseError::KeywordAsIdentifier { span, keyword } => ParseErrorV::KeywordAsIdentifier {
                span: *span,
                keyword: keyword@,
            },
            ParseError::ExpectedIdentifier { span, found } => ParseErrorV::ExpectedIdentifier {
                span: *span,
                found: found@,
            },
            ParseError::UnexpectedToken { span, found } => ParseErrorV::UnexpectedToken {
                span: *span,
                found: found@,
            },
            ParseError::MissingThenBranch => ParseErrorV::MissingThenBranch,
            ParseError::MissingElseBranch => ParseErrorV::MissingElseBranch,
        }
    }
}

pub open spec fn tokens_view(s: Seq<Token>) -> Seq<TokenV> {
    Seq::new(s.len(), |i: int| s[i]@)
}

pub open spec fn opt_stmt_view(o: Option<Node<Statement>>) -> Option<StmtNodeV> {
    match o {
        Some(n) => Some(stmt_node_view(n)),
        None => None,
    }
}

/// The tokens of `s` from position `p` on, up to and including the first `EOF`.
pub open spec fn spec_tokens(s: Seq<char>, p: int) -> Seq<TokenV>
    decreases s.len() - p,
    when 0 <= p <= s.len()
{
    let (t, q) = spec_next_token(s, p);
    proof {
        crate::lexer::lemma_next_token_bounds(s, p);
    }
    if t.data is EOF {
        seq![t]
    } else {
        seq![t] + spec_tokens(s, q)
    }
}

pub struct Parser {
    tokens: Vec<Token>,
    pos: usize,
}

impl Parser {
    /// The token stream being parsed.
    pub closed spec fn toks(&self) -> Seq<TokenV> {
        tokens_view(self.tokens@)
    }

    pub closed spec fn position(&self) -> int {
        self.pos as int
    }

    pub closed spec fn wf(&self) -> bool {
        &&& wf_tokens(self.toks())
        &&& self.pos < self.tokens@.len()
    }

    /// A parser positioned at the first token of `input`.
    pub fn new(input: &str) -> (r: Self)
        requires
            input@.len() < usize::MAX,
        ensures
            r.wf(),
            r.toks() == spec_tokens(input@, 0),
            r.position() == 0,
    {
        let mut lexer = Lexer::new(input);
        let mut tokens: Vec<Token> = Vec::new();
        loop
            invariant
                lexer.wf(),
                lexer.text() == input@,
                0 <= lexer.position() <= input@.len(),
                tokens_view(tokens@) + spec_tokens(input@, lexer.position()) == spec_tokens(input@, 0),
                forall|i: int| 0 <= i < tokens@.len() ==> !(#[trigger] tokens@[i]@.data is EOF),
            decreases input@.len() - lexer.position(),
        {
            let ghost p = lexer.position();
            let t = lexer.next_token();
            proof {
                crate::lexer::lemma_next_token_bounds(input@, p);
            }
            let is_eof = match t.data {
                TokenData::EOF => true,
                _ => false,
            };
            let ghost tv = t@;
            let ghost before = tokens_view(tokens@);
            tokens.push(t);
            assert(tokens_view(tokens@) =~= before.push(tv));
            if is_eof {
                assert(spec_tokens(input@, p) == seq![tv]);
                assert(tokens_view(tokens@) =~= spec_tokens(input@, 0));
                return Parser { tokens, pos: 0 };
            }
            assert(spec_tokens(input@, p) == seq![tv] + spec_tokens(input@, lexer.position()));
            assert(tokens_view(tokens@) + spec_tokens(input@, lexer.position()) =~= before + spec_tokens(input@, p));
        }
    }

    /// Parses the whole token stream into top-level statements.
    #[verifier::loop_isolation(false)]
    pub fn parse(&mut self) -> (r: Result<Vec<Node<Statement>>, ParseError>)
        requires
            old(self).wf(),
        ensures
            final(self).wf(),
            final(self).toks() == old(self).toks(),
            match r {
                Ok(v) => sp_program(old(self).toks(), old(self).position(), seq![]) == Ok::<_, ParseErrorV>(stmts_view(v@)),
                Err(e) => sp_program(old(self).toks(), old(self).position(), seq![]) == Err::<Seq<StmtNodeV>, _>(e@),
            },
    {
        let ghost t = self.toks();
        let mut stmts: Vec<Node<Statement>> = Vec::new();
        assert(stmts_view(stmts@) =~= seq![]);
        while !self.cur_is_eof()
            invariant
                self.wf(),
                self.toks() == t,
                t == old(self).toks(),
                self.tokens == old(self).tokens,
                sp_program(t, self.pos as int, stmts_view(stmts@)) == sp_program(t, old(self).pos as int, seq![]),
            decreases t.len() - self.pos,
        {
            let ghost p = self.pos as int;
            let ghost acc = stmts_view(stmts@);
            match self.parse_statement() {
                Err(e) => {
                    return Err(e);
                },
                Ok(Some(stmt)) => {
                    let ghost sv = stmt_node_view(stmt);
                    stmts.push(stmt);
                    assert(stmts_view(stmts@) =~= acc.push(sv));
                },
                Ok(None) => {},
            }
        }
        assert(sp_program(t, self.pos as int, stmts_view(stmts@)) == Ok::<_, ParseErrorV>(stmts_view(stmts@)));
        Ok(stmts)
    }

    // --- token access --------------------------------------------------------

    fn cur_is_eof(&self) -> (b: bool)
        requires
            self.wf(),
        ensures
            b == self.toks()[self.pos as int].data is EOF,
    {
        match &self.tokens[self.pos].data {
            TokenData::EOF => true,
            _ => false,
        }
    }

    fn cur_is_symbol(&self, c: char) -> (b: bool)
        requires
            self.wf(),
        ensures
            b == (self.toks()[self.pos as int].data == TokenDataV::Symbol(c)),
    {
        match &self.tokens[self.pos].data {
            TokenData::Symbol(ch) => *ch == c,
            _ => false,
        }
    }

    fn cur_is_close_or_eof(&self, c: char) -> (b: bool)
        requires
            self.wf(),
        ensures
            b == is_close_or_eof(self.toks()[self.pos as int].data, c),
    {
        match &self.tokens[self.pos].data {
            TokenData::Symbol(ch) => *ch == c,
            TokenData::EOF => true,
            _ => false,
        }
    }

    fn cur_is_operator(&self, op: &str) -> (b: bool)
        requires
            self.wf(),
        ensures
            b == (self.toks()[self.pos as int].data == TokenDataV::Operator(op@)),
    {
        match &self.tokens[self.pos].data {
            TokenData::Operator(s) => str_is(s, op),
            _ => false,
        }
    }

    fn cur_is_keyword(&self, kw: &str) -> (b: bool)
        requires
            self.wf(),
        ensures
            b == (self.toks()[self.pos as int].data == TokenDataV::Keyword(kw@)),
    {
        match &self.tokens[self.pos].data {
            TokenData::Keyword(s) => str_is(s, kw),
            _ => false,
        }
    }

    fn cur_is_identifier(&self) -> (b: bool)
        requires
            self.wf(),
        ensures
            b == self.toks()[self.pos as int].data is Identifier,
    {
        match &self.tokens[self.pos].data {
            TokenData::Identifier(_) => true,
            _ => false,
        }
    }

    fn peek_index(&self) -> (i: usize)
        requires
            self.wf(),
        ensures
            i == adv(self.toks(), self.pos as int),
    {
        if self.pos < self.tokens.len() - 1 {
            self.pos + 1
        } else {
            self.pos
        }
    }

    fn cur_span(&self) -> (s: Span)
        requires
            self.wf(),
        ensures
            s == self.toks()[self.pos as int].span,
    {
        self.tokens[self.pos].span
    }

    fn cur_data(&self) -> (d: TokenData)
        requires
            self.wf(),
        ensures
            d@ == self.toks()[self.pos as int].data,
    {
        clone_token(&self.tokens[self.pos]).data
    }

    fn advance(&mut self)
        requires
            old(self).wf(),
        ensures
            final(self).wf(),
            final(self).tokens == old(self).tokens,
            final(self).pos == adv(old(self).toks(), old(self).pos as int),
            !(old(self).toks()[old(self).pos as int].data is EOF) ==> final(self).pos == old(self).pos + 1,
    {
        if self.pos < self.tokens.len() - 1 {
            self.pos = self.pos + 1;
        }
    }

    fn expect_symbol(&mut self, s: char) -> (r: Result<(), ParseError>)
        requires
            old(self).wf(),
        ensures
            final(self).wf(),
            final(self).tokens == old(self).tokens,
            match r {
                Ok(_) => sp_expect_sym(old(self).toks(), old(self).pos as int, s) == Ok::<int, ParseErrorV>(final(self).pos as int)
                    && final(self).pos == old(self).pos + 1,
                Err(e) => sp_expect_sym(old(self).toks(), old(self).pos as int, s) == Err::<int, ParseErrorV>(e@),
            },
    {
        if self.cur_is_symbol(s) {
            self.advance();
            Ok(())
        } else {
            Err(ParseError::ExpectedSymbol { span: self.cur_span(), expected: s, found: self.cur_data() })
        }
    }

    fn expect_operator(&mut self, op: &str) -> (r: Result<(), ParseError>)
        requires
            old(self).wf(),
        ensures
            final(self).wf(),
            final(self).tokens == old(self).tokens,
            match r {
                Ok(_) => sp_expect_op(old(self).toks(), old(self).pos as int, op@) == Ok::<int, ParseErrorV>(final(self).pos as int)
                    && final(self).pos == old(self).pos + 1,
                Err(e) => sp_expect_op(old(self).toks(), old(self).pos as int, op@) == Err::<int, ParseErrorV>(e@),
            },
    {
        if self.cur_is_operator(op) {
            self.advance();
            Ok(())
        } else {
            Err(ParseError::ExpectedOperator { span: self.cur_span(), expected: string_from(op), found: self.cur_data() })
        }
    }

    fn read_identifier(&mut self) -> (r: Result<String, ParseError>)
        requires
            old(self).wf(),
        ensures
            final(self).wf(),
            final(self).tokens == old(self).tokens,
            match r {
                Ok(s) => sp_ident(old(self).toks(), old(self).pos as int) == Ok::<_, ParseErrorV>((s@, final(self).pos as int))
                    && final(self).pos == old(self).pos + 1,
                Err(e) => sp_ident(old(self).toks(), old(self).pos as int) == Err::<(Seq<char>, int), _>(e@),
            },
    {
        let span = self.cur_span();
        let d = self.cur_data();
        match d {
            TokenData::Identifier(s) => {
                self.advance();
                Ok(s)
            },
            TokenData::Keyword(s) => {
                if str_is(&s, "host") || str_is(&s, "patch") || str_is(&s, "as") || str_is(&s, "mut") {
                    self.advance();
                    Ok(s)
                } else {
                    Err(ParseError::KeywordAsIdentifier { span, keyword: s })
                }
            },
            d => Err(ParseError::ExpectedIdentifier { span, found: d }),
        }
    }

    fn consume_optional_semi(&mut self)
        requires
            old(self).wf(),
        ensures
            final(self).wf(),
            final(self).tokens == old(self).tokens,
            final(self).pos == sp_optional_semi(old(self).toks(), old(self).pos as int),
    {
        if self.cur_is_symbol(';') {
            self.advance();
        }
    }

    #[verifier::loop_isolation(false)]
    fn read_ptr_suffix(&mut self, ty: &mut String)
        requires
            old(self).wf(),
        ensures
            final(self).wf(),
            final(self).tokens == old(self).tokens,
            sp_ptr_suffix(old(self).toks(), old(self).pos as int, old(ty)@) == (final(ty)@, final(self).pos as int),
    {
        let ghost t = self.toks();
        while self.cur_is_operator("*")
            invariant
                self.wf(),
                self.toks() == t,
                t == old(self).toks(),
                self.tokens == old(self).tokens,
                sp_ptr_suffix(t, self.pos as int, ty@) == sp_ptr_suffix(t, old(self).pos as int, old(ty)@),
            decreases t.len() - self.pos,
        {
            push_char(ty, '*');
            self.advance();
        }
    }

    // --- expressions -----------------------------------------------------------

    fn parse_primary(&mut self) -> (r: Result<Node<Expression>, ParseError>)
        requires
            old(self).wf(),
        ensures
            final(self).wf(),
            final(self).tokens == old(self).tokens,
            match r {
                Ok(v) => sp_primary(old(self).toks(), old(self).pos as int) == Ok::<_, ParseErrorV>((expr_node_view(v), final(self).pos as int))
                    && fwd(old(self).toks(), old(self).pos as int, final(self).pos as int),
                Err(e) => sp_primary(old(self).toks(), old(self).pos as int) == Err::<(ExprNodeV, int), _>(e@),
            },
        decreases old(self).toks().len() - old(self).pos, 1int,
    {
        let ghost t = self.toks();
        let span = self.cur_span();
        let d = self.cur_data();
        match d {
            TokenData::Identifier(s) => {
                self.advance();
                if self.cur_is_symbol('(') {
                    self.advance();
                    let args = match self.parse_expression_list() {
                        Ok(a) => a,
                        Err(e) => { return Err(e); },
                    };
                    match self.expect_symbol(')') {
                        Ok(_) => {},
                        Err(e) => { return Err(e); },
                    }
                    Ok(Node { data: Expression::Call(s, args), span })
                } else {
                    Ok(Node { data: Expression::Identifier(s), span })
                }
            },
            TokenData::Keyword(s) => {
                if str_is(&s, "host") {
                    self.advance();
                    Ok(Node { data: Expression::Identifier(string_from("host")), span })
                } else {
                    Err(ParseError::UnexpectedToken { span, found: TokenData::Keyword(s) })
                }
            },
            TokenData::Number(s) => {
                self.advance();
                Ok(Node { data: Expression::Number(s), span })
            },
            TokenData::StringLiteral(s) => {
                self.advance();
                Ok(Node { data: Expression::StringLiteral(s), span })
            },
            TokenData::Symbol(c) => {
                if c == '(' {
                    self.advance();
                    let expr = match self.parse_expression(0) {
                        Ok(e) => e,
                        Err(e) => { return Err(e); },
                    };
                    match self.expect_symbol(')') {
                        Ok(_) => {},
                        Err(e) => { return Err(e); },
                    }
                    let castable = match &self.tokens[self.pos].data {
                        TokenData::Identifier(_) | TokenData::Number(_) | TokenData::StringLiteral(_) => true,
                        TokenData::Symbol(ch) => *ch == '(',
                        _ => false,
                    };
                    if castable {
                        match expr.data {
                            Expression::Identifier(ty) => {
                                let inner = match self.parse_expression(100) {
                                    Ok(e) => e,
                                    Err(e) => { return Err(e); },
                                };
                                let cast_span = expr.span;
                                let mut text = String::new();
                                push_char(&mut text, '(');
                                text.append(ty.as_str());
                                push_char(&mut text, ')');
                                assert(text@ =~= cast_type_text(ty@));
                                let left_node = Node { data: Expression::Identifier(text), span: cast_span };
                                let ghost lv = expr_node_view(left_node);
                                let ghost iv = expr_node_view(inner);
                                assert(lv == NodeV { data: ExprV::Identifier(cast_type_text(ty@)), span: cast_span });
                                let res = Node {
                                    data: Expression::BinaryOp(Box::new(left_node), String::new(), Box::new(inner)),
                                    span: cast_span,
                                };
                                assert(expr_view(res.data) == ExprV::BinaryOp(Box::new(lv), Seq::empty(), Box::new(iv)));
                                return Ok(res);
                            },
                            other => {
                                return Ok(Node { data: other, span: expr.span });
                            },
                        }
                    }
                    Ok(expr)
                } else {
                    Err(ParseError::UnexpectedToken { span, found: TokenData::Symbol(c) })
                }
            },
            TokenData::Operator(op) => {
                if str_is(&op, "&") || str_is(&op, "*") || str_is(&op, "!") || str_is(&op, "-") {
                    self.advance();
                    let operand = match self.parse_expression(4) {
                        Ok(e) => e,
                        Err(e) => { return Err(e); },
                    };
                    Ok(Node { data: Expression::UnaryOp(op, Box::new(operand), false), span })
                } else {
                    Err(ParseError::UnexpectedToken { span, found: TokenData::Operator(op) })
                }
            },
            d => Err(ParseError::UnexpectedToken { span, found: d }),
        }
    }

    fn get_precedence(op: &String) -> (r: i8)
        ensures
            r as int == precedence(op@),
    {
        if str_is(op, "=") {
            1
        } else if str_is(op, "==") || str_is(op, "!=") || str_is(op, "<") || str_is(op, ">") {
            2
        } else if str_is(op, "+") || str_is(op, "-") {
            3
        } else if str_is(op, "*") || str_is(op, "/") {
            4
        } else if str_is(op, ".") || str_is(op, "->") {
            5
        } else {
            0
        }
    }

    #[verifier::loop_isolation(false)]
    fn parse_expression(&mut self, precedence: i8) -> (r: Result<Node<Expression>, ParseError>)
        requires
            old(self).wf(),
        ensures
            final(self).wf(),
            final(self).tokens == old(self).tokens,
            match r {
                Ok(v) => sp_expression(old(self).toks(), old(self).pos as int, precedence as int) == Ok::<_, ParseErrorV>((expr_node_view(v), final(self).pos as int))
                    && fwd(old(self).toks(), old(self).pos as int, final(self).pos as int),
                Err(e) => sp_expression(old(self).toks(), old(self).pos as int, precedence as int) == Err::<(ExprNodeV, int), _>(e@),
            },
        decreases old(self).toks().len() - old(self).pos, 2int,
    {
        let ghost t = self.toks();
        let ghost p0 = self.pos as int;
        let mut left = match self.parse_primary() {
            Ok(e) => e,
            Err(e) => { return Err(e); },
        };
        loop
            invariant
                self.wf(),
                self.toks() == t,
                t == old(self).toks(),
                self.tokens == old(self).tokens,
                p0 < self.pos,
                p0 == old(self).pos,
                sp_expression(t, p0, precedence as int) == sp_expr_loop(t, self.pos as int, precedence as int, expr_node_view(left)),
            decreases t.len() - self.pos,
        {
            let op = match &self.tokens[self.pos].data {
                TokenData::Operator(op) => op.clone(),
                _ => { return Ok(left); },
            };
            let p = Self::get_precedence(&op);
            if p <= precedence {
                return Ok(left);
            }
            self.advance();
            if str_is(&op, ".") || str_is(&op, "->") {
                let member = match self.read_identifier() {
                    Ok(m) => m,
                    Err(e) => { return Err(e); },
                };
                if self.cur_is_symbol('(') {
                    self.advance();
                    let args = match self.parse_expression_list() {
                        Ok(a) => a,
                        Err(e) => { return Err(e); },
                    };
                    match self.expect_symbol(')') {
                        Ok(_) => {},
                        Err(e) => { return Err(e); },
                    }
                    let span = left.span;
                    left = Node { data: Expression::MethodCall { receiver: Box::new(left), method: member, args }, span };
                } else {
                    let span = left.span;
                    let is_ptr = str_is(&op, "->");
                    left = Node { data: Expression::MemberAccess { receiver: Box::new(left), member, is_ptr }, span };
                }
            } else {
                let right = match self.parse_expression(p) {
                    Ok(e) => e,
                    Err(e) => { return Err(e); },
                };
                let span = left.span;
                left = Node { data: Expression::BinaryOp(Box::new(left), op, Box::new(right)), span };
            }
        }
    }

    #[verifier::loop_isolation(false)]
    fn parse_expression_list(&mut self) -> (r: Result<Vec<Node<Expression>>, ParseError>)
        requires
            old(self).wf(),
        ensures
            final(self).wf(),
            final(self).tokens == old(self).tokens,
            match r {
                Ok(v) => sp_exprlist(old(self).toks(), old(self).pos as int, seq![]) == Ok::<_, ParseErrorV>((exprs_view(v@), final(self).pos as int))
                    && fwd_eq(old(self).toks(), old(self).pos as int, final(self).pos as int),
                Err(e) => sp_exprlist(old(self).toks(), old(self).pos as int, seq![]) == Err::<(Seq<ExprNodeV>, int), _>(e@),
            },
        decreases old(self).toks().len() - old(self).pos, 3int,
    {
        let ghost t = self.toks();
        let mut list: Vec<Node<Expression>> = Vec::new();
        assert(exprs_view(list@) =~= seq![]);
        while !self.cur_is_close_or_eof(')')
            invariant
                self.wf(),
                self.toks() == t,
                t == old(self).toks(),
                self.tokens == old(self).tokens,
                old(self).pos <= self.pos,
                sp_exprlist(t, self.pos as int, exprs_view(list@)) == sp_exprlist(t, old(self).pos as int, seq![]),
            decreases t.len() - self.pos,
        {
            let ghost acc = exprs_view(list@);
            let e = match self.parse_expression(0) {
                Ok(e) => e,
                Err(e) => { return Err(e); },
            };
            let ghost ev = expr_node_view(e);
            list.push(e);
            assert(exprs_view(list@) =~= acc.push(ev));
            if self.cur_is_symbol(',') {
                self.advance();
            }
        }
        Ok(list)
    }


    // --- declarations and blocks -------------------------------------------------

    fn parse_default(&mut self) -> (r: Result<Option<Node<Expression>>, ParseError>)
        requires
            old(self).wf(),
        ensures
            final(self).wf(),
            final(self).tokens == old(self).tokens,
            match r {
                Ok(v) => sp_default(old(self).toks(), old(self).pos as int) == Ok::<_, ParseErrorV>((opt_expr_view(v), final(self).pos as int))
                    && fwd_eq(old(self).toks(), old(self).pos as int, final(self).pos as int),
                Err(e) => sp_default(old(self).toks(), old(self).pos as int) == Err::<(Option<ExprNodeV>, int), _>(e@),
            },
        decreases old(self).toks().len() - old(self).pos, 3int,
    {
        if self.cur_is_operator("=") {
            self.advance();
            match self.parse_expression(0) {
                Ok(e) => Ok(Some(e)),
                Err(e) => Err(e),
            }
        } else {
            Ok(None)
        }
    }

    #[verifier::loop_isolation(false)]
    fn parse_parameters(&mut self) -> (r: Result<Vec<(String, String)>, ParseError>)
        requires
            old(self).wf(),
        ensures
            final(self).wf(),
            final(self).tokens == old(self).tokens,
            match r {
                Ok(v) => sp_params(old(self).toks(), old(self).pos as int, seq![]) == Ok::<_, ParseErrorV>((params_view(v@), final(self).pos as int)),
                Err(e) => sp_params(old(self).toks(), old(self).pos as int, seq![]) == Err::<(Seq<(Seq<char>, Seq<char>)>, int), _>(e@),
            },
    {
        let ghost t = self.toks();
        let mut params: Vec<(String, String)> = Vec::new();
        assert(params_view(params@) =~= seq![]);
        while !self.cur_is_close_or_eof(')')
            invariant
                self.wf(),
                self.toks() == t,
                t == old(self).toks(),
                self.tokens == old(self).tokens,
                sp_params(t, self.pos as int, params_view(params@)) == sp_params(t, old(self).pos as int, seq![]),
            decreases t.len() - self.pos,
        {
            let ghost p = self.pos as int;
            let ghost acc = params_view(params@);
            if self.cur_is_keyword("let") {
                self.advance();
            }
            let mut ty = match self.read_identifier() {
                Ok(s) => s,
                Err(e) => { return Err(e); },
            };
            let ghost p2 = self.pos as int;
            let ghost ty0 = ty@;
            self.read_ptr_suffix(&mut ty);
            proof {
                lemma_ptr_suffix(t, p2, ty0);
            }
            let second = match &self.tokens[self.pos].data {
                TokenData::Identifier(second) => Some(second.clone()),
                _ => None,
            };
            match second {
                Some(second_name) => {
                    self.advance();
                    let ghost item = (ty@, second_name@);
                    params.push((ty, second_name));
                    assert(params_view(params@) =~= acc.push(item));
                },
                None => {
                    let ghost item = ("int"@, ty@);
                    params.push((string_from("int"), ty));
                    assert(params_view(params@) =~= acc.push(item));
                },
            }
            if self.cur_is_symbol(',') {
                self.advance();
            }
        }
        Ok(params)
    }

    #[verifier::loop_isolation(false)]
    fn parse_struct(&mut self) -> (r: Result<StructDef, ParseError>)
        requires
            old(self).wf(),
            !(old(self).toks()[old(self).pos as int].data is EOF),
        ensures
            final(self).wf(),
            final(self).tokens == old(self).tokens,
            match r {
                Ok(v) => sp_struct(old(self).toks(), old(self).pos as int) == Ok::<_, ParseErrorV>((struct_def_view(v), final(self).pos as int))
                    && fwd(old(self).toks(), old(self).pos as int, final(self).pos as int),
                Err(e) => sp_struct(old(self).toks(), old(self).pos as int) == Err::<(StructDefV, int), _>(e@),
            },
        decreases old(self).toks().len() - old(self).pos, 5int,
    {
        let ghost t = self.toks();
        self.advance();
        let name = match self.read_identifier() {
            Ok(s) => s,
            Err(e) => { return Err(e); },
        };
        match self.expect_symbol('{') {
            Ok(_) => {},
            Err(e) => { return Err(e); },
        }
        let ghost p3 = self.pos as int;
        let mut fields: Vec<Field> = Vec::new();
        assert(fields_view(fields@) =~= seq![]);
        while !self.cur_is_close_or_eof('}')
            invariant
                self.wf(),
                self.toks() == t,
                t == old(self).toks(),
                self.tokens == old(self).tokens,
                old(self).pos < self.pos,
                sp_struct_fields(t, self.pos as int, fields_view(fields@)) == sp_struct_fields(t, p3, seq![]),
            decreases t.len() - self.pos,
        {
            let ghost acc = fields_view(fields@);
            let mut ty = match self.read_identifier() {
                Ok(s) => s,
                Err(e) => { return Err(e); },
            };
            let ghost p1 = self.pos as int;
            let ghost ty0 = ty@;
            self.read_ptr_suffix(&mut ty);
            proof {
                lemma_ptr_suffix(t, p1, ty0);
            }
            let field_name = match self.read_identifier() {
                Ok(s) => s,
                Err(e) => { return Err(e); },
            };
            let default_value = match self.parse_default() {
                Ok(d) => d,
                Err(e) => { return Err(e); },
            };
            match self.expect_symbol(';') {
                Ok(_) => {},
                Err(e) => { return Err(e); },
            }
            let f = Field { name: field_name, ty, default_value };
            let ghost fv = field_view(f);
            fields.push(f);
            assert(fields_view(fields@) =~= acc.push(fv));
        }
        match self.expect_symbol('}') {
            Ok(_) => {},
            Err(e) => { return Err(e); },
        }
        Ok(StructDef { name, fields })
    }

    #[verifier::loop_isolation(false)]
    fn parse_block_node(&mut self) -> (r: Result<Node<Statement>, ParseError>)
        requires
            old(self).wf(),
        ensures
            final(self).wf(),
            final(self).tokens == old(self).tokens,
            match r {
                Ok(v) => sp_block_node(old(self).toks(), old(self).pos as int) == Ok::<_, ParseErrorV>((stmt_node_view(v), final(self).pos as int))
                    && fwd(old(self).toks(), old(self).pos as int, final(self).pos as int),
                Err(e) => sp_block_node(old(self).toks(), old(self).pos as int) == Err::<(StmtNodeV, int), _>(e@),
            },
        decreases old(self).toks().len() - old(self).pos, 5int,
    {
        let ghost t = self.toks();
        let span = self.cur_span();
        match self.expect_symbol('{') {
            Ok(_) => {},
            Err(e) => { return Err(e); },
        }
        let ghost p1 = self.pos as int;
        let mut stmts: Vec<Node<Statement>> = Vec::new();
        assert(stmts_view(stmts@) =~= seq![]);
        while !self.cur_is_close_or_eof('}')
            invariant
                self.wf(),
                self.toks() == t,
                t == old(self).toks(),
                self.tokens == old(self).tokens,
                old(self).pos < p1 <= self.pos,
                sp_block_loop(t, self.pos as int, stmts_view(stmts@)) == sp_block_loop(t, p1, seq![]),
            decreases t.len() - self.pos,
        {
            let ghost acc = stmts_view(stmts@);
            match self.parse_statement() {
                Ok(Some(s)) => {
                    let ghost sv = stmt_node_view(s);
                    stmts.push(s);
                    assert(stmts_view(stmts@) =~= acc.push(sv));
                },
                Ok(None) => {},
                Err(e) => { return Err(e); },
            }
        }
        match self.expect_symbol('}') {
            Ok(_) => {},
            Err(e) => { return Err(e); },
        }
        Ok(Node { data: Statement::Block(stmts), span })
    }

    fn parse_function_inner(&mut self) -> (r: Result<FunctionDef, ParseError>)
        requires
            old(self).wf(),
        ensures
            final(self).wf(),
            final(self).tokens == old(self).tokens,
            match r {
                Ok(v) => sp_function_inner(old(self).toks(), old(self).pos as int) == Ok::<_, ParseErrorV>((func_view(v), final(self).pos as int))
                    && fwd(old(self).toks(), old(self).pos as int, final(self).pos as int),
                Err(e) => sp_function_inner(old(self).toks(), old(self).pos as int) == Err::<(FunctionDefV, int), _>(e@),
            },
        decreases old(self).toks().len() - old(self).pos, 5int,
    {
        let ghost t = self.toks();
        let first = match self.read_identifier() {
            Ok(s) => s,
            Err(e) => { return Err(e); },
        };
        let mut name = first.clone();
        let mut return_ty = string_from("void");
        if !self.cur_is_symbol('(') {
            return_ty = first;
            name = match self.read_identifier() {
                Ok(s) => s,
                Err(e) => { return Err(e); },
            };
        }
        match self.expect_symbol('(') {
            Ok(_) => {},
            Err(e) => { return Err(e); },
        }
        let ghost p3 = self.pos as int;
        let params = match self.parse_parameters() {
            Ok(p) => p,
            Err(e) => { return Err(e); },
        };
        proof {
            lemma_params(t, p3, seq![]);
        }
        match self.expect_symbol(')') {
            Ok(_) => {},
            Err(e) => { return Err(e); },
        }
        let body = match self.parse_block_node() {
            Ok(b) => b,
            Err(e) => { return Err(e); },
        };
        Ok(FunctionDef { name, params, return_ty, body: Box::new(body) })
    }

    #[verifier::rlimit(40)]
    #[verifier::loop_isolation(false)]
    fn parse_bind(&mut self) -> (r: Result<BindBlock, ParseError>)
        requires
            old(self).wf(),
            !(old(self).toks()[old(self).pos as int].data is EOF),
        ensures
            final(self).wf(),
            final(self).tokens == old(self).tokens,
            match r {
                Ok(v) => sp_bind(old(self).toks(), old(self).pos as int) == Ok::<_, ParseErrorV>((
                    BindBlockV { struct_name: v.struct_name@, functions: funcs_view(v.functions@) },
                    final(self).pos as int,
                )) && fwd(old(self).toks(), old(self).pos as int, final(self).pos as int),
                Err(e) => sp_bind(old(self).toks(), old(self).pos as int) == Err::<(BindBlockV, int), _>(e@),
            },
        decreases old(self).toks().len() - old(self).pos, 7int,
    {
        let ghost t = self.toks();
        self.advance();
        let struct_name = match self.read_identifier() {
            Ok(s) => s,
            Err(e) => { return Err(e); },
        };
        match self.expect_symbol('{') {
            Ok(_) => {},
            Err(e) => { return Err(e); },
        }
        let ghost p3 = self.pos as int;
        let mut functions: Vec<FunctionDef> = Vec::new();
        assert(funcs_view(functions@) =~= seq![]);
        while !self.cur_is_close_or_eof('}')
            invariant
                self.wf(),
                self.toks() == t,
                t == old(self).toks(),
                self.tokens == old(self).tokens,
                old(self).pos < p3 <= self.pos,
                sp_bind_funcs(t, self.pos as int, funcs_view(functions@)) == sp_bind_funcs(t, p3, seq![]),
            decreases t.len() - self.pos,
        {
            let ghost acc = funcs_view(functions@);
            let f = match self.parse_function_inner() {
                Ok(f) => f,
                Err(e) => { return Err(e); },
            };
            let ghost fv = func_view(f);
            functions.push(f);
            assert(funcs_view(functions@) =~= acc.push(fv));
        }
        match self.expect_symbol('}') {
            Ok(_) => {},
            Err(e) => { return Err(e); },
        }
        Ok(BindBlock { struct_name, functions })
    }

    fn parse_declaration(&mut self, is_let: bool) -> (r: Result<Node<Statement>, ParseError>)
        requires
            old(self).wf(),
            !(old(self).toks()[old(self).pos as int].data is EOF),
        ensures
            final(self).wf(),
            final(self).tokens == old(self).tokens,
            match r {
                Ok(v) => sp_declaration(old(self).toks(), old(self).pos as int, is_let) == Ok::<_, ParseErrorV>((stmt_node_view(v), final(self).pos as int))
                    && fwd(old(self).toks(), old(self).pos as int, final(self).pos as int),
                Err(e) => sp_declaration(old(self).toks(), old(self).pos as int, is_let) == Err::<(StmtNodeV, int), _>(e@),
            },
        decreases old(self).toks().len() - old(self).pos, 7int,
    {
        let ghost t = self.toks();
        let span = self.cur_span();
        self.advance();
        let mut ty = match self.read_identifier() {
            Ok(s) => s,
            Err(e) => { return Err(e); },
        };
        let ghost p2 = self.pos as int;
        let ghost ty0 = ty@;
        self.read_ptr_suffix(&mut ty);
        proof {
            lemma_ptr_suffix(t, p2, ty0);
        }
        let name = match self.read_identifier() {
            Ok(s) => s,
            Err(e) => { return Err(e); },
        };
        let mut init: Option<Node<Expression>> = None;
        let mut constructor_call: Option<ConstructorCall> = None;
        if self.cur_is_operator(".") {
            self.advance();
            let c_name = match self.read_identifier() {
                Ok(s) => s,
                Err(e) => { return Err(e); },
            };
            match self.expect_symbol('(') {
                Ok(_) => {},
                Err(e) => { return Err(e); },
            }
            let args = match self.parse_expression_list() {
                Ok(a) => a,
                Err(e) => { return Err(e); },
            };
            match self.expect_symbol(')') {
                Ok(_) => {},
                Err(e) => { return Err(e); },
            }
            constructor_call = Some(ConstructorCall { _name: c_name, args });
        } else if self.cur_is_operator("=") {
            self.advance();
            init = match self.parse_expression(0) {
                Ok(e) => Some(e),
                Err(e) => { return Err(e); },
            };
        }
        match self.expect_symbol(';') {
            Ok(_) => {},
            Err(e) => { return Err(e); },
        }
        let decl = VariableDeclaration { ty, name, init, constructor_call };
        if is_let {
            Ok(Node { data: Statement::LetDeclaration(decl), span })
        } else {
            Ok(Node { data: Statement::UnsafeDeclaration(decl), span })
        }
    }

    fn parse_alias(&mut self) -> (r: Result<AliasDeclaration, ParseError>)
        requires
            old(self).wf(),
            !(old(self).toks()[old(self).pos as int].data is EOF),
        ensures
            final(self).wf(),
            final(self).tokens == old(self).tokens,
            match r {
                Ok(v) => sp_alias(old(self).toks(), old(self).pos as int) == Ok::<_, ParseErrorV>((alias_view(v), final(self).pos as int)),
                Err(e) => sp_alias(old(self).toks(), old(self).pos as int) == Err::<(AliasDeclV, int), _>(e@),
            },
    {
        self.advance();
        let mut is_mut = false;
        if self.cur_is_keyword("mut") {
            is_mut = true;
            self.advance();
        }
        let ty = match self.read_identifier() {
            Ok(s) => s,
            Err(e) => { return Err(e); },
        };
        let name = match self.read_identifier() {
            Ok(s) => s,
            Err(e) => { return Err(e); },
        };
        match self.expect_operator("=") {
            Ok(_) => {},
            Err(e) => { return Err(e); },
        }
        let source = match self.read_identifier() {
            Ok(s) => s,
            Err(e) => { return Err(e); },
        };
        match self.expect_symbol(';') {
            Ok(_) => {},
            Err(e) => { return Err(e); },
        }
        Ok(AliasDeclaration { is_mut, ty, name, source })
    }

    fn parse_return(&mut self) -> (r: Result<Option<Node<Expression>>, ParseError>)
        requires
            old(self).wf(),
            !(old(self).toks()[old(self).pos as int].data is EOF),
        ensures
            final(self).wf(),
            final(self).tokens == old(self).tokens,
            match r {
                Ok(v) => sp_return(old(self).toks(), old(self).pos as int) == Ok::<_, ParseErrorV>((opt_expr_view(v), final(self).pos as int))
                    && fwd(old(self).toks(), old(self).pos as int, final(self).pos as int),
                Err(e) => sp_return(old(self).toks(), old(self).pos as int) == Err::<(Option<ExprNodeV>, int), _>(e@),
            },
        decreases old(self).toks().len() - old(self).pos, 7int,
    {
        self.advance();
        if self.cur_is_symbol(';') {
            self.advance();
            Ok(None)
        } else {
            let e = match self.parse_expression(0) {
                Ok(e) => e,
                Err(e) => { return Err(e); },
            };
            match self.expect_symbol(';') {
                Ok(_) => {},
                Err(err) => { return Err(err); },
            }
            Ok(Some(e))
        }
    }

    fn parse_spawn(&mut self) -> (r: Result<Node<Statement>, ParseError>)
        requires
            old(self).wf(),
            !(old(self).toks()[old(self).pos as int].data is EOF),
        ensures
            final(self).wf(),
            final(self).tokens == old(self).tokens,
            match r {
                Ok(v) => sp_spawn(old(self).toks(), old(self).pos as int) == Ok::<_, ParseErrorV>((stmt_node_view(v), final(self).pos as int))
                    && fwd(old(self).toks(), old(self).pos as int, final(self).pos as int),
                Err(e) => sp_spawn(old(self).toks(), old(self).pos as int) == Err::<(StmtNodeV, int), _>(e@),
            },
        decreases old(self).toks().len() - old(self).pos, 7int,
    {
        let span = self.cur_span();
        self.advance();
        let func_name = match self.read_identifier() {
            Ok(s) => s,
            Err(e) => { return Err(e); },
        };
        match self.expect_symbol('(') {
            Ok(_) => {},
            Err(e) => { return Err(e); },
        }
        let args = match self.parse_expression_list() {
            Ok(a) => a,
            Err(e) => { return Err(e); },
        };
        match self.expect_symbol(')') {
            Ok(_) => {},
            Err(e) => { return Err(e); },
        }
        self.consume_optional_semi();
        Ok(Node { data: Statement::Spawn(func_name, args), span })
    }

    fn parse_if(&mut self) -> (r: Result<Node<Statement>, ParseError>)
        requires
            old(self).wf(),
            !(old(self).toks()[old(self).pos as int].data is EOF),
        ensures
            final(self).wf(),
            final(self).tokens == old(self).tokens,
            match r {
                Ok(v) => sp_if(old(self).toks(), old(self).pos as int) == Ok::<_, ParseErrorV>((stmt_node_view(v), final(self).pos as int))
                    && fwd(old(self).toks(), old(self).pos as int, final(self).pos as int),
                Err(e) => sp_if(old(self).toks(), old(self).pos as int) == Err::<(StmtNodeV, int), _>(e@),
            },
        decreases old(self).toks().len() - old(self).pos, 7int,
    {
        let span = self.cur_span();
        self.advance();
        match self.expect_symbol('(') {
            Ok(_) => {},
            Err(e) => { return Err(e); },
        }
        let condition = match self.parse_expression(0) {
            Ok(e) => e,
            Err(e) => { return Err(e); },
        };
        match self.expect_symbol(')') {
            Ok(_) => {},
            Err(e) => { return Err(e); },
        }
        let then_branch = match self.parse_statement() {
            Ok(Some(s)) => Box::new(s),
            Ok(None) => { return Err(ParseError::MissingThenBranch); },
            Err(e) => { return Err(e); },
        };
        let mut else_branch: Option<Box<Node<Statement>>> = None;
        if self.cur_is_keyword("else") {
            self.advance();
            else_branch = match self.parse_statement() {
                Ok(Some(s)) => Some(Box::new(s)),
                Ok(None) => { return Err(ParseError::MissingElseBranch); },
                Err(e) => { return Err(e); },
            };
        }
        Ok(Node { data: Statement::If { condition, then_branch, else_branch }, span })
    }


    #[verifier::rlimit(40)]
    #[verifier::loop_isolation(false)]
    fn parse_fork(&mut self) -> (r: Result<ForkBlock, ParseError>)
        requires
            old(self).wf(),
            !(old(self).toks()[old(self).pos as int].data is EOF),
        ensures
            final(self).wf(),
            final(self).tokens == old(self).tokens,
            match r {
                Ok(v) => sp_fork(old(self).toks(), old(self).pos as int) == Ok::<_, ParseErrorV>((
                    ForkBlockV {
                        base_name: v.base_name@,
                        new_name: v.new_name@,
                        operations: fork_ops_view(v.operations@),
                        bind_ops: bind_ops_view(v.bind_ops@),
                    },
                    final(self).pos as int,
                )) && fwd(old(self).toks(), old(self).pos as int, final(self).pos as int),
                Err(e) => sp_fork(old(self).toks(), old(self).pos as int) == Err::<(ForkBlockV, int), _>(e@),
            },
        decreases old(self).toks().len() - old(self).pos, 7int,
    {
        let ghost t = self.toks();
        self.advance();
        let base_name = match self.read_identifier() {
            Ok(s) => s,
            Err(e) => { return Err(e); },
        };
        self.advance();
        let new_name = match self.read_identifier() {
            Ok(s) => s,
            Err(e) => { return Err(e); },
        };
        match self.expect_symbol('{') {
            Ok(_) => {},
            Err(e) => { return Err(e); },
        }
        let ghost p5 = self.pos as int;
        let mut operations: Vec<ForkOp> = Vec::new();
        assert(fork_ops_view(operations@) =~= seq![]);
        while !self.cur_is_close_or_eof('}')
            invariant
                self.wf(),
                self.toks() == t,
                t == old(self).toks(),
                self.tokens == old(self).tokens,
                old(self).pos < p5 <= self.pos,
                sp_fork_ops(t, self.pos as int, fork_ops_view(operations@)) == sp_fork_ops(t, p5, seq![]),
            decreases t.len() - self.pos,
        {
            let ghost acc = fork_ops_view(operations@);
            if self.cur_is_operator("+") {
                self.advance();
                let ty = match self.read_identifier() {
                    Ok(s) => s,
                    Err(e) => { return Err(e); },
                };
                let name = match self.read_identifier() {
                    Ok(s) => s,
                    Err(e) => { return Err(e); },
                };
                let default_value = match self.parse_default() {
                    Ok(d) => d,
                    Err(e) => { return Err(e); },
                };
                match self.expect_symbol(';') {
                    Ok(_) => {},
                    Err(e) => { return Err(e); },
                }
                let op = ForkOp::Add(Field { name, ty, default_value });
                let ghost ov = fork_op_view(op);
                operations.push(op);
                assert(fork_ops_view(operations@) =~= acc.push(ov));
            } else if self.cur_is_operator("-") {
                self.advance();
                let name = match self.read_identifier() {
                    Ok(s) => s,
                    Err(e) => { return Err(e); },
                };
                match self.expect_symbol(';') {
                    Ok(_) => {},
                    Err(e) => { return Err(e); },
                }
                let op = ForkOp::Remove(name);
                let ghost ov = fork_op_view(op);
                operations.push(op);
                assert(fork_ops_view(operations@) =~= acc.push(ov));
            } else {
                self.advance();
            }
        }
        match self.expect_symbol('}') {
            Ok(_) => {},
            Err(e) => { return Err(e); },
        }
        let mut bind_ops: Vec<BindOp> = Vec::new();
        assert(bind_ops_view(bind_ops@) =~= seq![]);
        if self.cur_is_keyword("bind") {
            self.advance();
            if self.cur_is_identifier() {
                self.advance();
            }
            match self.expect_symbol('{') {
                Ok(_) => {},
                Err(e) => { return Err(e); },
            }
            let ghost p10 = self.pos as int;
            while !self.cur_is_close_or_eof('}')
                invariant
                    self.wf(),
                    self.toks() == t,
                    t == old(self).toks(),
                t == old(self).toks(),
                    self.tokens == old(self).tokens,
                    old(self).pos < p10 <= self.pos,
                    sp_bind_ops(t, self.pos as int, bind_ops_view(bind_ops@)) == sp_bind_ops(t, p10, seq![]),
                decreases t.len() - self.pos,
            {
                let ghost acc = bind_ops_view(bind_ops@);
                let op;
                if self.cur_is_operator("+") {
                    self.advance();
                    op = match self.parse_function_inner() {
                        Ok(f) => BindOp::Add(f),
                        Err(e) => { return Err(e); },
                    };
                } else if self.cur_is_operator("-") {
                    self.advance();
                    let name = match self.read_identifier() {
                        Ok(s) => s,
                        Err(e) => { return Err(e); },
                    };
                    if self.cur_is_symbol('(') {
                        self.advance();
                        match self.expect_symbol(')') {
                            Ok(_) => {},
                            Err(e) => { return Err(e); },
                        }
                    }
                    match self.expect_symbol(';') {
                        Ok(_) => {},
                        Err(e) => { return Err(e); },
                    }
                    op = BindOp::Remove(name);
                } else if self.cur_is_keyword("patch") {
                    self.advance();
                    let old_name = match self.read_identifier() {
                        Ok(s) => s,
                        Err(e) => { return Err(e); },
                    };
                    let ghost p2 = self.pos as int;
                    while !self.cur_is_keyword("as") && !self.cur_is_eof()
                        invariant
                            self.wf(),
                            self.toks() == t,
                    t == old(self).toks(),
                t == old(self).toks(),
                            self.tokens == old(self).tokens,
                            p2 <= self.pos,
                            sp_skip_to_as(t, self.pos as int) == sp_skip_to_as(t, p2),
                        decreases t.len() - self.pos,
                    {
                        self.advance();
                    }
                    if self.cur_is_keyword("as") {
                        self.advance();
                    }
                    op = match self.parse_function_inner() {
                        Ok(f) => BindOp::Patch { _old_fn_name: old_name, new_fn_def: f },
                        Err(e) => { return Err(e); },
                    };
                } else {
                    op = match self.parse_function_inner() {
                        Ok(f) => BindOp::Add(f),
                        Err(e) => { return Err(e); },
                    };
                }
                let ghost ov = bind_op_view(op);
                bind_ops.push(op);
                assert(bind_ops_view(bind_ops@) =~= acc.push(ov));
            }
            match self.expect_symbol('}') {
                Ok(_) => {},
                Err(e) => { return Err(e); },
            }
        }
        Ok(ForkBlock { base_name, new_name, operations, bind_ops })
    }

    /// The body of a loop; a lone `;` gives an empty block.
    fn loop_body(s: Option<Node<Statement>>, span: Span) -> (r: Node<Statement>)
        ensures
            stmt_node_view(r) == loop_body(opt_stmt_view(s), span),
    {
        match s {
            Some(b) => b,
            None => {
                let r = Node { data: Statement::Block(Vec::new()), span };
                assert(stmts_view(Seq::<Node<Statement>>::empty()) =~= Seq::<StmtNodeV>::empty());
                r
            },
        }
    }

    fn parse_while(&mut self) -> (r: Result<Node<Statement>, ParseError>)
        requires
            old(self).wf(),
            !(old(self).toks()[old(self).pos as int].data is EOF),
        ensures
            final(self).wf(),
            final(self).tokens == old(self).tokens,
            match r {
                Ok(v) => sp_while(old(self).toks(), old(self).pos as int) == Ok::<_, ParseErrorV>((stmt_node_view(v), final(self).pos as int))
                    && fwd(old(self).toks(), old(self).pos as int, final(self).pos as int),
                Err(e) => sp_while(old(self).toks(), old(self).pos as int) == Err::<(StmtNodeV, int), _>(e@),
            },
        decreases old(self).toks().len() - old(self).pos, 7int,
    {
        let span = self.cur_span();
        self.advance();
        match self.expect_symbol('(') {
            Ok(_) => {},
            Err(e) => { return Err(e); },
        }
        let condition = match self.parse_expression(0) {
            Ok(e) => e,
            Err(e) => { return Err(e); },
        };
        match self.expect_symbol(')') {
            Ok(_) => {},
            Err(e) => { return Err(e); },
        }
        let body_span = self.cur_span();
        let body = match self.parse_statement() {
            Ok(s) => Self::loop_body(s, body_span),
            Err(e) => { return Err(e); },
        };
        Ok(Node { data: Statement::While { condition, body: Box::new(body) }, span })
    }

    fn parse_for_init(&mut self) -> (r: Result<Option<Node<Statement>>, ParseError>)
        requires
            old(self).wf(),
        ensures
            final(self).wf(),
            final(self).tokens == old(self).tokens,
            match r {
                Ok(v) => sp_for_init(old(self).toks(), old(self).pos as int) == Ok::<_, ParseErrorV>((opt_stmt_view(v), final(self).pos as int))
                    && fwd(old(self).toks(), old(self).pos as int, final(self).pos as int),
                Err(e) => sp_for_init(old(self).toks(), old(self).pos as int) == Err::<(Option<StmtNodeV>, int), _>(e@),
            },
        decreases old(self).toks().len() - old(self).pos, 8int,
    {
        if self.cur_is_symbol(';') {
            self.advance();
            Ok(None)
        } else if self.cur_is_keyword("let") {
            match self.parse_declaration(true) {
                Ok(d) => Ok(Some(d)),
                Err(e) => Err(e),
            }
        } else if self.cur_is_keyword("unsafe") {
            match self.parse_declaration(false) {
                Ok(d) => Ok(Some(d)),
                Err(e) => Err(e),
            }
        } else {
            let span = self.cur_span();
            let x = match self.parse_expression(0) {
                Ok(e) => e,
                Err(e) => { return Err(e); },
            };
            match self.expect_symbol(';') {
                Ok(_) => {},
                Err(e) => { return Err(e); },
            }
            Ok(Some(Node { data: Statement::Expression(x), span }))
        }
    }

    fn parse_opt_expr(&mut self, close: char) -> (r: Result<Option<Node<Expression>>, ParseError>)
        requires
            old(self).wf(),
        ensures
            final(self).wf(),
            final(self).tokens == old(self).tokens,
            match r {
                Ok(v) => sp_opt_expr(old(self).toks(), old(self).pos as int, close) == Ok::<_, ParseErrorV>((opt_expr_view(v), final(self).pos as int))
                    && fwd_eq(old(self).toks(), old(self).pos as int, final(self).pos as int),
                Err(e) => sp_opt_expr(old(self).toks(), old(self).pos as int, close) == Err::<(Option<ExprNodeV>, int), _>(e@),
            },
        decreases old(self).toks().len() - old(self).pos, 3int,
    {
        if self.cur_is_symbol(close) {
            Ok(None)
        } else {
            match self.parse_expression(0) {
                Ok(e) => Ok(Some(e)),
                Err(e) => Err(e),
            }
        }
    }

    #[verifier::rlimit(40)]
    fn parse_for(&mut self) -> (r: Result<Node<Statement>, ParseError>)
        requires
            old(self).wf(),
            !(old(self).toks()[old(self).pos as int].data is EOF),
        ensures
            final(self).wf(),
            final(self).tokens == old(self).tokens,
            match r {
                Ok(v) => sp_for(old(self).toks(), old(self).pos as int) == Ok::<_, ParseErrorV>((stmt_node_view(v), final(self).pos as int))
                    && fwd(old(self).toks(), old(self).pos as int, final(self).pos as int),
                Err(e) => sp_for(old(self).toks(), old(self).pos as int) == Err::<(StmtNodeV, int), _>(e@),
            },
        decreases old(self).toks().len() - old(self).pos, 7int,
    {
        let span = self.cur_span();
        self.advance();
        match self.expect_symbol('(') {
            Ok(_) => {},
            Err(e) => { return Err(e); },
        }
        let init = match self.parse_for_init() {
            Ok(s) => s,
            Err(e) => { return Err(e); },
        };
        let condition = match self.parse_opt_expr(';') {
            Ok(e) => e,
            Err(e) => { return Err(e); },
        };
        match self.expect_symbol(';') {
            Ok(_) => {},
            Err(e) => { return Err(e); },
        }
        let step = match self.parse_opt_expr(')') {
            Ok(e) => e,
            Err(e) => { return Err(e); },
        };
        match self.expect_symbol(')') {
            Ok(_) => {},
            Err(e) => { return Err(e); },
        }
        let body_span = self.cur_span();
        let body = match self.parse_statement() {
            Ok(s) => Self::loop_body(s, body_span),
            Err(e) => { return Err(e); },
        };
        let init_box: Option<Box<Node<Statement>>> = match init {
            Some(s) => Some(Box::new(s)),
            None => None,
        };
        Ok(Node { data: Statement::For { init: init_box, condition, step, body: Box::new(body) }, span })
    }

    fn parse_expr_stmt(&mut self) -> (r: Result<Option<Node<Statement>>, ParseError>)
        requires
            old(self).wf(),
        ensures
            final(self).wf(),
            final(self).tokens == old(self).tokens,
            match r {
                Ok(v) => sp_expr_stmt(old(self).toks(), old(self).pos as int) == Ok::<_, ParseErrorV>((opt_stmt_view(v), final(self).pos as int))
                    && fwd(old(self).toks(), old(self).pos as int, final(self).pos as int),
                Err(e) => sp_expr_stmt(old(self).toks(), old(self).pos as int) == Err::<(Option<StmtNodeV>, int), _>(e@),
            },
        decreases old(self).toks().len() - old(self).pos, 3int,
    {
        let span = self.cur_span();
        let expr = match self.parse_expression(0) {
            Ok(e) => e,
            Err(e) => { return Err(e); },
        };
        self.consume_optional_semi();
        Ok(Some(Node { data: Statement::Expression(expr), span }))
    }

    #[verifier::rlimit(40)]
    fn parse_statement(&mut self) -> (r: Result<Option<Node<Statement>>, ParseError>)
        requires
            old(self).wf(),
        ensures
            final(self).wf(),
            final(self).tokens == old(self).tokens,
            match r {
                Ok(v) => sp_statement(old(self).toks(), old(self).pos as int) == Ok::<_, ParseErrorV>((opt_stmt_view(v), final(self).pos as int))
                    && fwd(old(self).toks(), old(self).pos as int, final(self).pos as int),
                Err(e) => sp_statement(old(self).toks(), old(self).pos as int) == Err::<(Option<StmtNodeV>, int), _>(e@),
            },
        decreases old(self).toks().len() - old(self).pos, 10int,
    {
        let ghost t = self.toks();
        let ghost p = self.pos as int;
        let span = self.cur_span();
        if self.cur_is_keyword("struct") {
            match self.parse_struct() {
                Ok(d) => Ok(Some(Node { data: Statement::StructDef(d), span })),
                Err(e) => Err(e),
            }
        } else if self.cur_is_keyword("bind") {
            match self.parse_bind() {
                Ok(d) => Ok(Some(Node { data: Statement::BindBlock(d), span })),
                Err(e) => Err(e),
            }
        } else if self.cur_is_keyword("fork") {
            match self.parse_fork() {
                Ok(d) => Ok(Some(Node { data: Statement::ForkBlock(d), span })),
                Err(e) => Err(e),
            }
        } else if self.cur_is_keyword("let") {
            match self.parse_declaration(true) {
                Ok(d) => Ok(Some(d)),
                Err(e) => Err(e),
            }
        } else if self.cur_is_keyword("unsafe") {
            match self.parse_declaration(false) {
                Ok(d) => Ok(Some(d)),
                Err(e) => Err(e),
            }
        } else if self.cur_is_keyword("alias") {
            match self.parse_alias() {
                Ok(d) => Ok(Some(Node { data: Statement::AliasDeclaration(d), span })),
                Err(e) => Err(e),
            }
        } else if self.cur_is_keyword("return") {
            match self.parse_return() {
                Ok(d) => Ok(Some(Node { data: Statement::Return(d), span })),
                Err(e) => Err(e),
            }
        } else if self.cur_is_keyword("if") {
            match self.parse_if() {
                Ok(d) => Ok(Some(d)),
                Err(e) => Err(e),
            }
        } else if self.cur_is_keyword("spawn") {
            match self.parse_spawn() {
                Ok(d) => Ok(Some(d)),
                Err(e) => Err(e),
            }
        } else if self.cur_is_keyword("while") {
            match self.parse_while() {
                Ok(d) => Ok(Some(d)),
                Err(e) => Err(e),
            }
        } else if self.cur_is_keyword("for") {
            match self.parse_for() {
                Ok(d) => Ok(Some(d)),
                Err(e) => Err(e),
            }
        } else {
            let raw = match &self.tokens[self.pos].data {
                TokenData::RawC(c) => Some(c.clone()),
                _ => None,
            };
            if let Some(content) = raw {
                self.advance();
                return Ok(Some(Node { data: Statement::RawC(content), span }));
            }
            if self.cur_is_symbol('{') {
                return match self.parse_block_node() {
                    Ok(d) => Ok(Some(d)),
                    Err(e) => Err(e),
                };
            }
            if self.cur_is_symbol(';') {
                self.advance();
                return Ok(None);
            }
            if self.cur_is_identifier() {
                return self.parse_ident_statement();
            }
            self.parse_expr_stmt()
        }
    }


    /// A statement that starts with an identifier: a function definition, a
    /// declaration written without `let`/`unsafe`, a call, or an expression.
    #[verifier::rlimit(40)]
    fn parse_ident_statement(&mut self) -> (r: Result<Option<Node<Statement>>, ParseError>)
        requires
            old(self).wf(),
            old(self).toks()[old(self).pos as int].data is Identifier,
        ensures
            final(self).wf(),
            final(self).tokens == old(self).tokens,
            match r {
                Ok(v) => sp_statement(old(self).toks(), old(self).pos as int) == Ok::<_, ParseErrorV>((opt_stmt_view(v), final(self).pos as int))
                    && fwd(old(self).toks(), old(self).pos as int, final(self).pos as int),
                Err(e) => sp_statement(old(self).toks(), old(self).pos as int) == Err::<(Option<StmtNodeV>, int), _>(e@),
            },
        decreases old(self).toks().len() - old(self).pos, 9int,
    {
        let ghost t = self.toks();
        let ghost p = self.pos as int;
        let span = self.cur_span();
        let pi = self.peek_index();
        let peek_ident = match &self.tokens[pi].data {
            TokenData::Identifier(_) => true,
            _ => false,
        };
        let peek_paren = match &self.tokens[pi].data {
            TokenData::Symbol(c) => *c == '(',
            _ => false,
        };
        if peek_ident {
            let ty_span = self.cur_span();
            let ty = match self.read_identifier() {
                Ok(s) => s,
                Err(e) => { return Err(e); },
            };
            let name_span = self.cur_span();
            let name = match self.read_identifier() {
                Ok(s) => s,
                Err(e) => { return Err(e); },
            };
            assert(sp_ident(t, p) == Ok::<_, ParseErrorV>((ty@, p + 1)));
            assert(sp_ident(t, p + 1) == Ok::<_, ParseErrorV>((name@, p + 2)));
            assert(t[adv(t, p)].data is Identifier);
            if self.cur_is_symbol('(') {
                self.advance();
                let ghost p3 = self.pos as int;
                let params = match self.parse_parameters() {
                    Ok(ps) => ps,
                    Err(e) => { return Err(e); },
                };
                proof {
                    lemma_params(t, p3, seq![]);
                }
                match self.expect_symbol(')') {
                    Ok(_) => {},
                    Err(e) => { return Err(e); },
                }
                let body = match self.parse_block_node() {
                    Ok(b) => b,
                    Err(e) => { return Err(e); },
                };
                let fd = FunctionDef { name, params, return_ty: ty, body: Box::new(body) };
                assert(func_view(fd) == FunctionDefV { name: fd.name@, params: params_view(fd.params@), return_ty: fd.return_ty@, body: Box::new(stmt_node_view(*fd.body)) });
                return Ok(Some(Node { data: Statement::FunctionDef(fd), span }));
            } else {
                let left = Node { data: Expression::Identifier(ty), span: ty_span };
                let right = Node { data: Expression::Identifier(name), span: name_span };
                let mut sp = String::new();
                push_char(&mut sp, ' ');
                assert(sp@ =~= seq![' ']);
                let ghost lv = expr_node_view(left);
                let ghost rv = expr_node_view(right);
                assert(lv == NodeV { data: ExprV::Identifier(ty@), span: ty_span });
                assert(rv == NodeV { data: ExprV::Identifier(name@), span: name_span });
                let expr = Node { data: Expression::BinaryOp(Box::new(left), sp, Box::new(right)), span };
                assert(expr_node_view(expr).data == ExprV::BinaryOp(Box::new(lv), seq![' '], Box::new(rv)));
                return Ok(Some(Node { data: Statement::Expression(expr), span }));
            }
        } else if peek_paren {
            return match self.parse_expression(0) {
                Ok(e) => Ok(Some(Node { data: Statement::Expression(e), span })),
                Err(e) => Err(e),
            };
        } else {
            return self.parse_expr_stmt();
        }
        }

}

} // verus!
