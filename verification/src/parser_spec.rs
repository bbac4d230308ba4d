//! The grammar the parser accepts, written as functions over the token sequence.
//! Every function takes the tokens and a position and returns what it parsed with
//! the position after it, or the error the parser reports.
use vstd::prelude::*;
use crate::ast::{Span, NodeV, ExprV, ExprNodeV, StmtV, StmtNodeV, FieldV, StructDefV, AliasDeclV, CtorCallV, VarDeclV, FunctionDefV, BindBlockV, ForkOpV, BindOpV, ForkBlockV};
use crate::lexer::{TokenV, TokenDataV};

verus! {

/// What the parser reports when the input does not fit the grammar.
#[allow(inconsistent_fields)]
pub enum ParseErrorV {
    ExpectedSymbol { span: Span, expected: char, found: TokenDataV },
    ExpectedOperator { span: Span, expected: Seq<char>, found: TokenDataV },
    KeywordAsIdentifier { span: Span, keyword: Seq<char> },
    ExpectedIdentifier { span: Span, found: TokenDataV },
    UnexpectedToken { span: Span, found: TokenDataV },
    MissingThenBranch,
    MissingElseBranch,
}

pub type PRes<T> = Result<(T, int), ParseErrorV>;

/// A token sequence as the lexer produces it: non-empty and ending in `EOF`.
pub open spec fn wf_tokens(t: Seq<TokenV>) -> bool {
    t.len() > 0 && t.last().data is EOF
}

/// Moving past a token; past the end, the final `EOF` is read again.
pub open spec fn adv(t: Seq<TokenV>, p: int) -> int {
    if p + 1 < t.len() { p + 1 } else { p }
}

pub open spec fn fwd(t: Seq<TokenV>, p: int, q: int) -> bool {
    p < q < t.len()
}

pub open spec fn fwd_eq(t: Seq<TokenV>, p: int, q: int) -> bool {
    p <= q < t.len()
}

pub open spec fn is_close_or_eof(d: TokenDataV, c: char) -> bool {
    d == TokenDataV::Symbol(c) || d is EOF
}

pub open spec fn sp_ident(t: Seq<TokenV>, p: int) -> PRes<Seq<char>> {
    match t[p].data {
        TokenDataV::Identifier(s) => Ok((s, adv(t, p))),
        TokenDataV::Keyword(s) => if s == "host"@ || s == "patch"@ || s == "as"@ || s == "mut"@ {
            Ok((s, adv(t, p)))
        } else {
            Err(ParseErrorV::KeywordAsIdentifier { span: t[p].span, keyword: s })
        },
        d => Err(ParseErrorV::ExpectedIdentifier { span: t[p].span, found: d }),
    }
}

pub open spec fn sp_expect_sym(t: Seq<TokenV>, p: int, c: char) -> Result<int, ParseErrorV> {
    if t[p].data == TokenDataV::Symbol(c) {
        Ok(adv(t, p))
    } else {
        Err(ParseErrorV::ExpectedSymbol { span: t[p].span, expected: c, found: t[p].data })
    }
}

pub open spec fn sp_expect_op(t: Seq<TokenV>, p: int, op: Seq<char>) -> Result<int, ParseErrorV> {
    if t[p].data == TokenDataV::Operator(op) {
        Ok(adv(t, p))
    } else {
        Err(ParseErrorV::ExpectedOperator { span: t[p].span, expected: op, found: t[p].data })
    }
}

pub open spec fn sp_optional_semi(t: Seq<TokenV>, p: int) -> int {
    if t[p].data == TokenDataV::Symbol(';') { adv(t, p) } else { p }
}

/// `*` tokens after a type name make it a pointer type.
pub open spec fn sp_ptr_suffix(t: Seq<TokenV>, p: int, ty: Seq<char>) -> (Seq<char>, int)
    decreases t.len() - p,
    when wf_tokens(t) && 0 <= p < t.len()
{
    if t[p].data == TokenDataV::Operator("*"@) {
        sp_ptr_suffix(t, adv(t, p), ty.push('*'))
    } else {
        (ty, p)
    }
}

pub proof fn lemma_ptr_suffix(t: Seq<TokenV>, p: int, ty: Seq<char>)
    requires
        wf_tokens(t),
        0 <= p < t.len(),
    ensures
        fwd_eq(t, p, sp_ptr_suffix(t, p, ty).1),
    decreases t.len() - p,
{
    if t[p].data == TokenDataV::Operator("*"@) {
        lemma_ptr_suffix(t, adv(t, p), ty.push('*'));
    }
}

/// Skips tokens up to the keyword `as` (or the end).
pub open spec fn sp_skip_to_as(t: Seq<TokenV>, p: int) -> int
    decreases t.len() - p,
    when wf_tokens(t) && 0 <= p < t.len()
{
    if t[p].data == TokenDataV::Keyword("as"@) || t[p].data is EOF {
        p
    } else {
        sp_skip_to_as(t, adv(t, p))
    }
}

pub proof fn lemma_skip_to_as(t: Seq<TokenV>, p: int)
    requires
        wf_tokens(t),
        0 <= p < t.len(),
    ensures
        fwd_eq(t, p, sp_skip_to_as(t, p)),
    decreases t.len() - p,
{
    if !(t[p].data == TokenDataV::Keyword("as"@) || t[p].data is EOF) {
        lemma_skip_to_as(t, adv(t, p));
    }
}

/// A parameter list: `[let] type [*...] name` items separated by commas; a lone
/// name is a parameter of type `int`.
pub open spec fn sp_params(t: Seq<TokenV>, p: int, acc: Seq<(Seq<char>, Seq<char>)>) -> PRes<
    Seq<(Seq<char>, Seq<char>)>,
>
    decreases t.len() - p,
    when wf_tokens(t) && 0 <= p < t.len()
{
    if is_close_or_eof(t[p].data, ')') {
        Ok((acc, p))
    } else {
        let p1 = if t[p].data == TokenDataV::Keyword("let"@) { adv(t, p) } else { p };
        match sp_ident(t, p1) {
            Err(e) => Err(e),
            Ok((ty0, p2)) => {
                let (ty, p3) = sp_ptr_suffix(t, p2, ty0);
                proof {
                    lemma_ptr_suffix(t, p2, ty0);
                }
                let (acc2, p4) = match t[p3].data {
                    TokenDataV::Identifier(second) => (acc.push((ty, second)), adv(t, p3)),
                    _ => (acc.push(("int"@, ty)), p3),
                };
                let p5 = if t[p4].data == TokenDataV::Symbol(',') { adv(t, p4) } else { p4 };
                sp_params(t, p5, acc2)
            },
        }
    }
}

pub proof fn lemma_params(t: Seq<TokenV>, p: int, acc: Seq<(Seq<char>, Seq<char>)>)
    requires
        wf_tokens(t),
        0 <= p < t.len(),
    ensures
        sp_params(t, p, acc) matches Ok((_, q)) ==> fwd_eq(t, p, q),
    decreases t.len() - p,
{
    if !is_close_or_eof(t[p].data, ')') {
        let p1 = if t[p].data == TokenDataV::Keyword("let"@) { adv(t, p) } else { p };
        if let Ok((ty0, p2)) = sp_ident(t, p1) {
            let (ty, p3) = sp_ptr_suffix(t, p2, ty0);
            lemma_ptr_suffix(t, p2, ty0);
            let (acc2, p4) = match t[p3].data {
                TokenDataV::Identifier(second) => (acc.push((ty, second)), adv(t, p3)),
                _ => (acc.push(("int"@, ty)), p3),
            };
            let p5 = if t[p4].data == TokenDataV::Symbol(',') { adv(t, p4) } else { p4 };
            lemma_params(t, p5, acc2);
        }
    }
}

pub open spec fn sp_alias(t: Seq<TokenV>, p: int) -> PRes<AliasDeclV> {
    let p1 = adv(t, p);
    let (is_mut, p2) = if t[p1].data == TokenDataV::Keyword("mut"@) {
        (true, adv(t, p1))
    } else {
        (false, p1)
    };
    match sp_ident(t, p2) {
        Err(e) => Err(e),
        Ok((ty, p3)) => match sp_ident(t, p3) {
            Err(e) => Err(e),
            Ok((name, p4)) => match sp_expect_op(t, p4, "="@) {
                Err(e) => Err(e),
                Ok(p5) => match sp_ident(t, p5) {
                    Err(e) => Err(e),
                    Ok((source, p6)) => match sp_expect_sym(t, p6, ';') {
                        Err(e) => Err(e),
                        Ok(p7) => Ok((AliasDeclV { is_mut, ty, name, source }, p7)),
                    },
                },
            },
        },
    }
}

/// Binding strength of a binary operator; 0 for tokens that end an expression.
pub open spec fn precedence(op: Seq<char>) -> int {
    if op == "="@ {
        1
    } else if op == "=="@ || op == "!="@ || op == "<"@ || op == ">"@ {
        2
    } else if op == "+"@ || op == "-"@ {
        3
    } else if op == "*"@ || op == "/"@ {
        4
    } else if op == "."@ || op == "->"@ {
        5
    } else {
        0
    }
}

pub open spec fn can_start_cast_operand(d: TokenDataV) -> bool {
    d is Identifier || d is Number || d == TokenDataV::Symbol('(') || d is StringLiteral
}

/// The operators that may stand before an operand: address-of, dereference, not, negation.
/// The operand binds tighter than `*` and `/`, so `-a * b` is `(-a) * b`.
pub open spec fn is_prefix_op(op: Seq<char>) -> bool {
    op == "&"@ || op == "*"@ || op == "!"@ || op == "-"@
}

pub open spec fn cast_type_text(ty: Seq<char>) -> Seq<char> {
    seq!['('] + ty + seq![')']
}

// The mutually recursive part of the grammar. Each function decreases the number of
// tokens left and, at the same position, a rank; a call on what a recursive call
// returned is made only once that position is known to lie further on.

pub open spec fn sp_primary(t: Seq<TokenV>, p: int) -> PRes<ExprNodeV>
    decreases t.len() - p, 1int,
    when wf_tokens(t) && 0 <= p < t.len()
{
    let span = t[p].span;
    match t[p].data {
        TokenDataV::Identifier(s) => {
            let p1 = adv(t, p);
            if t[p1].data == TokenDataV::Symbol('(') {
                let p2 = adv(t, p1);
                match sp_exprlist(t, p2, seq![]) {
                    Err(e) => Err(e),
                    Ok((args, p3)) => if fwd_eq(t, p2, p3) {
                        match sp_expect_sym(t, p3, ')') {
                            Err(e) => Err(e),
                            Ok(p4) => Ok((NodeV { data: ExprV::Call(s, args), span }, p4)),
                        }
                    } else {
                        vstd::pervasive::arbitrary()
                    },
                }
            } else {
                Ok((NodeV { data: ExprV::Identifier(s), span }, p1))
            }
        },
        TokenDataV::Keyword(s) => if s == "host"@ {
            Ok((NodeV { data: ExprV::Identifier("host"@), span }, adv(t, p)))
        } else {
            Err(ParseErrorV::UnexpectedToken { span, found: t[p].data })
        },
        TokenDataV::Number(s) => Ok((NodeV { data: ExprV::Number(s), span }, adv(t, p))),
        TokenDataV::StringLiteral(s) => Ok((NodeV { data: ExprV::StringLiteral(s), span }, adv(t, p))),
        TokenDataV::Symbol(c) => if c == '(' {
            let p1 = adv(t, p);
            match sp_expression(t, p1, 0) {
                Err(e) => Err(e),
                Ok((e, p2)) => if fwd(t, p1, p2) {
                    match sp_expect_sym(t, p2, ')') {
                        Err(err) => Err(err),
                        Ok(p3) => if can_start_cast_operand(t[p3].data) && e.data is Identifier {
                            let ty = match e.data {
                                ExprV::Identifier(ty) => ty,
                                _ => Seq::empty(),
                            };
                            match sp_expression(t, p3, 100) {
                                Err(err) => Err(err),
                                Ok((inner, p4)) => Ok((
                                    NodeV {
                                        data: ExprV::BinaryOp(
                                            Box::new(NodeV { data: ExprV::Identifier(cast_type_text(ty)), span: e.span }),
                                            Seq::empty(),
                                            Box::new(inner),
                                        ),
                                        span: e.span,
                                    },
                                    p4,
                                )),
                            }
                        } else {
                            Ok((e, p3))
                        },
                    }
                } else {
                    vstd::pervasive::arbitrary()
                },
            }
        } else {
            Err(ParseErrorV::UnexpectedToken { span, found: t[p].data })
        },
        TokenDataV::Operator(op) => if is_prefix_op(op) {
            match sp_expression(t, adv(t, p), 4) {
                Err(e) => Err(e),
                Ok((x, p1)) => Ok((NodeV { data: ExprV::UnaryOp(op, Box::new(x), false), span }, p1)),
            }
        } else {
            Err(ParseErrorV::UnexpectedToken { span, found: t[p].data })
        },
        d => Err(ParseErrorV::UnexpectedToken { span, found: d }),
    }
}

pub open spec fn sp_expression(t: Seq<TokenV>, p: int, prec: int) -> PRes<ExprNodeV>
    decreases t.len() - p, 2int,
    when wf_tokens(t) && 0 <= p < t.len()
{
    match sp_primary(t, p) {
        Err(e) => Err(e),
        Ok((left, p1)) => if fwd(t, p, p1) {
            sp_expr_loop(t, p1, prec, left)
        } else {
            vstd::pervasive::arbitrary()
        },
    }
}

/// Extends `left` with operators binding tighter than `prec`, member accesses and
/// method calls.
pub open spec fn sp_expr_loop(t: Seq<TokenV>, p: int, prec: int, left: ExprNodeV) -> PRes<ExprNodeV>
    decreases t.len() - p, 1int,
    when wf_tokens(t) && 0 <= p < t.len()
{
    match t[p].data {
        TokenDataV::Operator(op) => {
            let pr = precedence(op);
            if pr <= prec {
                Ok((left, p))
            } else {
                let p1 = adv(t, p);
                if op == "."@ || op == "->"@ {
                    match sp_ident(t, p1) {
                        Err(e) => Err(e),
                        Ok((member, p2)) => if t[p2].data == TokenDataV::Symbol('(') {
                            let p3 = adv(t, p2);
                            match sp_exprlist(t, p3, seq![]) {
                                Err(e) => Err(e),
                                Ok((args, p4)) => if fwd_eq(t, p3, p4) {
                                    match sp_expect_sym(t, p4, ')') {
                                        Err(e) => Err(e),
                                        Ok(p5) => sp_expr_loop(
                                            t,
                                            p5,
                                            prec,
                                            NodeV {
                                                data: ExprV::MethodCall { receiver: Box::new(left), method: member, args },
                                                span: left.span,
                                            },
                                        ),
                                    }
                                } else {
                                    vstd::pervasive::arbitrary()
                                },
                            }
                        } else {
                            sp_expr_loop(
                                t,
                                p2,
                                prec,
                                NodeV {
                                    data: ExprV::MemberAccess { receiver: Box::new(left), member, is_ptr: op == "->"@ },
                                    span: left.span,
                                },
                            )
                        },
                    }
                } else {
                    match sp_expression(t, p1, pr) {
                        Err(e) => Err(e),
                        Ok((right, p2)) => if fwd(t, p1, p2) {
                            sp_expr_loop(
                                t,
                                p2,
                                prec,
                                NodeV { data: ExprV::BinaryOp(Box::new(left), op, Box::new(right)), span: left.span },
                            )
                        } else {
                            vstd::pervasive::arbitrary()
                        },
                    }
                }
            }
        },
        _ => Ok((left, p)),
    }
}

/// Comma-separated expressions up to `)`.
pub open spec fn sp_exprlist(t: Seq<TokenV>, p: int, acc: Seq<ExprNodeV>) -> PRes<Seq<ExprNodeV>>
    decreases t.len() - p, 3int,
    when wf_tokens(t) && 0 <= p < t.len()
{
    if is_close_or_eof(t[p].data, ')') {
        Ok((acc, p))
    } else {
        match sp_expression(t, p, 0) {
            Err(e) => Err(e),
            Ok((e, q)) => if fwd(t, p, q) {
                let q2 = if t[q].data == TokenDataV::Symbol(',') { adv(t, q) } else { q };
                sp_exprlist(t, q2, acc.push(e))
            } else {
                vstd::pervasive::arbitrary()
            },
        }
    }
}

/// An optional `= expression` default value.
pub open spec fn sp_default(t: Seq<TokenV>, p: int) -> PRes<Option<ExprNodeV>>
    decreases t.len() - p, 3int,
    when wf_tokens(t) && 0 <= p < t.len()
{
    if t[p].data == TokenDataV::Operator("="@) {
        let p1 = adv(t, p);
        match sp_expression(t, p1, 0) {
            Err(e) => Err(e),
            Ok((e, q)) => if fwd(t, p1, q) { Ok((Some(e), q)) } else { vstd::pervasive::arbitrary() },
        }
    } else {
        Ok((None, p))
    }
}

pub open spec fn sp_struct_fields(t: Seq<TokenV>, p: int, acc: Seq<FieldV>) -> PRes<Seq<FieldV>>
    decreases t.len() - p, 4int,
    when wf_tokens(t) && 0 <= p < t.len()
{
    if is_close_or_eof(t[p].data, '}') {
        Ok((acc, p))
    } else {
        match sp_ident(t, p) {
            Err(e) => Err(e),
            Ok((ty0, p1)) => {
                let (ty, p2) = sp_ptr_suffix(t, p1, ty0);
                proof {
                    lemma_ptr_suffix(t, p1, ty0);
                }
                match sp_ident(t, p2) {
                    Err(e) => Err(e),
                    Ok((name, p3)) => match sp_default(t, p3) {
                        Err(e) => Err(e),
                        Ok((default_value, p4)) => if fwd_eq(t, p3, p4) {
                            match sp_expect_sym(t, p4, ';') {
                                Err(e) => Err(e),
                                Ok(p5) => sp_struct_fields(t, p5, acc.push(FieldV { name, ty, default_value })),
                            }
                        } else {
                            vstd::pervasive::arbitrary()
                        },
                    },
                }
            },
        }
    }
}

pub open spec fn sp_struct(t: Seq<TokenV>, p: int) -> PRes<StructDefV>
    decreases t.len() - p, 5int,
    when wf_tokens(t) && 0 <= p < t.len()
{
    let p1 = adv(t, p);
    match sp_ident(t, p1) {
        Err(e) => Err(e),
        Ok((name, p2)) => match sp_expect_sym(t, p2, '{') {
            Err(e) => Err(e),
            Ok(p3) => if fwd(t, p, p3) {
                match sp_struct_fields(t, p3, seq![]) {
                    Err(e) => Err(e),
                    Ok((fields, p4)) => match sp_expect_sym(t, p4, '}') {
                        Err(e) => Err(e),
                        Ok(p5) => Ok((StructDefV { name, fields }, p5)),
                    },
                }
            } else {
                vstd::pervasive::arbitrary()
            },
        },
    }
}

pub open spec fn sp_block_node(t: Seq<TokenV>, p: int) -> PRes<StmtNodeV>
    decreases t.len() - p, 5int,
    when wf_tokens(t) && 0 <= p < t.len()
{
    let span = t[p].span;
    match sp_expect_sym(t, p, '{') {
        Err(e) => Err(e),
        Ok(p1) => if fwd(t, p, p1) {
            match sp_block_loop(t, p1, seq![]) {
                Err(e) => Err(e),
                Ok((stmts, p2)) => match sp_expect_sym(t, p2, '}') {
                    Err(e) => Err(e),
                    Ok(p3) => Ok((NodeV { data: StmtV::Block(stmts), span }, p3)),
                },
            }
        } else {
            vstd::pervasive::arbitrary()
        },
    }
}

pub open spec fn sp_block_loop(t: Seq<TokenV>, p: int, acc: Seq<StmtNodeV>) -> PRes<Seq<StmtNodeV>>
    decreases t.len() - p, 11int,
    when wf_tokens(t) && 0 <= p < t.len()
{
    if is_close_or_eof(t[p].data, '}') {
        Ok((acc, p))
    } else {
        match sp_statement(t, p) {
            Err(e) => Err(e),
            Ok((o, q)) => if fwd(t, p, q) {
                sp_block_loop(t, q, match o { Some(s) => acc.push(s), None => acc })
            } else {
                vstd::pervasive::arbitrary()
            },
        }
    }
}

pub open spec fn sp_function_inner(t: Seq<TokenV>, p: int) -> PRes<FunctionDefV>
    decreases t.len() - p, 5int,
    when wf_tokens(t) && 0 <= p < t.len()
{
    match sp_ident(t, p) {
        Err(e) => Err(e),
        Ok((first, p1)) => {
            let named = if t[p1].data == TokenDataV::Symbol('(') {
                Ok((first, "void"@, p1))
            } else {
                match sp_ident(t, p1) {
                    Err(e) => Err(e),
                    Ok((name, p2)) => Ok((name, first, p2)),
                }
            };
            match named {
                Err(e) => Err(e),
                Ok((name, return_ty, p2)) => match sp_expect_sym(t, p2, '(') {
                    Err(e) => Err(e),
                    Ok(p3) => match sp_params(t, p3, seq![]) {
                        Err(e) => Err(e),
                        Ok((params, p4)) => match sp_expect_sym(t, p4, ')') {
                            Err(e) => Err(e),
                            Ok(p5) => if fwd(t, p, p5) {
                                match sp_block_node(t, p5) {
                                    Err(e) => Err(e),
                                    Ok((body, p6)) => Ok((FunctionDefV { name, params, return_ty, body: Box::new(body) }, p6)),
                                }
                            } else {
                                vstd::pervasive::arbitrary()
                            },
                        },
                    },
                },
            }
        },
    }
}

pub open spec fn sp_bind_funcs(t: Seq<TokenV>, p: int, acc: Seq<FunctionDefV>) -> PRes<Seq<FunctionDefV>>
    decreases t.len() - p, 6int,
    when wf_tokens(t) && 0 <= p < t.len()
{
    if is_close_or_eof(t[p].data, '}') {
        Ok((acc, p))
    } else {
        match sp_function_inner(t, p) {
            Err(e) => Err(e),
            Ok((f, q)) => if fwd(t, p, q) { sp_bind_funcs(t, q, acc.push(f)) } else { vstd::pervasive::arbitrary() },
        }
    }
}

pub open spec fn sp_bind(t: Seq<TokenV>, p: int) -> PRes<BindBlockV>
    decreases t.len() - p, 7int,
    when wf_tokens(t) && 0 <= p < t.len()
{
    let p1 = adv(t, p);
    match sp_ident(t, p1) {
        Err(e) => Err(e),
        Ok((struct_name, p2)) => match sp_expect_sym(t, p2, '{') {
            Err(e) => Err(e),
            Ok(p3) => if fwd(t, p, p3) {
                match sp_bind_funcs(t, p3, seq![]) {
                    Err(e) => Err(e),
                    Ok((functions, p4)) => match sp_expect_sym(t, p4, '}') {
                        Err(e) => Err(e),
                        Ok(p5) => Ok((BindBlockV { struct_name, functions }, p5)),
                    },
                }
            } else {
                vstd::pervasive::arbitrary()
            },
        },
    }
}

pub open spec fn sp_fork_ops(t: Seq<TokenV>, p: int, acc: Seq<ForkOpV>) -> PRes<Seq<ForkOpV>>
    decreases t.len() - p, 4int,
    when wf_tokens(t) && 0 <= p < t.len()
{
    if is_close_or_eof(t[p].data, '}') {
        Ok((acc, p))
    } else if t[p].data == TokenDataV::Operator("+"@) {
        let p1 = adv(t, p);
        match sp_ident(t, p1) {
            Err(e) => Err(e),
            Ok((ty, p2)) => match sp_ident(t, p2) {
                Err(e) => Err(e),
                Ok((name, p3)) => if fwd(t, p, p3) {
                    match sp_default(t, p3) {
                        Err(e) => Err(e),
                        Ok((default_value, p4)) => if fwd_eq(t, p3, p4) {
                            match sp_expect_sym(t, p4, ';') {
                                Err(e) => Err(e),
                                Ok(p5) => sp_fork_ops(t, p5, acc.push(ForkOpV::Add(FieldV { name, ty, default_value }))),
                            }
                        } else {
                            vstd::pervasive::arbitrary()
                        },
                    }
                } else {
                    vstd::pervasive::arbitrary()
                },
            },
        }
    } else if t[p].data == TokenDataV::Operator("-"@) {
        let p1 = adv(t, p);
        match sp_ident(t, p1) {
            Err(e) => Err(e),
            Ok((name, p2)) => match sp_expect_sym(t, p2, ';') {
                Err(e) => Err(e),
                Ok(p3) => sp_fork_ops(t, p3, acc.push(ForkOpV::Remove(name))),
            },
        }
    } else {
        sp_fork_ops(t, adv(t, p), acc)
    }
}

pub open spec fn sp_bind_ops(t: Seq<TokenV>, p: int, acc: Seq<BindOpV>) -> PRes<Seq<BindOpV>>
    decreases t.len() - p, 6int,
    when wf_tokens(t) && 0 <= p < t.len()
{
    if is_close_or_eof(t[p].data, '}') {
        Ok((acc, p))
    } else if t[p].data == TokenDataV::Operator("+"@) {
        let p1 = adv(t, p);
        match sp_function_inner(t, p1) {
            Err(e) => Err(e),
            Ok((f, q)) => if fwd(t, p1, q) { sp_bind_ops(t, q, acc.push(BindOpV::Add(f))) } else { vstd::pervasive::arbitrary() },
        }
    } else if t[p].data == TokenDataV::Operator("-"@) {
        let p1 = adv(t, p);
        match sp_ident(t, p1) {
            Err(e) => Err(e),
            Ok((name, p2)) => {
                let p3 = if t[p2].data == TokenDataV::Symbol('(') {
                    sp_expect_sym(t, adv(t, p2), ')')
                } else {
                    Ok(p2)
                };
                match p3 {
                    Err(e) => Err(e),
                    Ok(p3) => match sp_expect_sym(t, p3, ';') {
                        Err(e) => Err(e),
                        Ok(p4) => if fwd(t, p, p4) {
                            sp_bind_ops(t, p4, acc.push(BindOpV::Remove(name)))
                        } else {
                            vstd::pervasive::arbitrary()
                        },
                    },
                }
            },
        }
    } else if t[p].data == TokenDataV::Keyword("patch"@) {
        let p1 = adv(t, p);
        match sp_ident(t, p1) {
            Err(e) => Err(e),
            Ok((old_fn_name, p2)) => {
                let p3 = sp_skip_to_as(t, p2);
                proof {
                    lemma_skip_to_as(t, p2);
                }
                let p4 = if t[p3].data == TokenDataV::Keyword("as"@) { adv(t, p3) } else { p3 };
                match sp_function_inner(t, p4) {
                    Err(e) => Err(e),
                    Ok((f, q)) => if fwd(t, p4, q) {
                        sp_bind_ops(t, q, acc.push(BindOpV::Patch { old_fn_name, new_fn_def: f }))
                    } else {
                        vstd::pervasive::arbitrary()
                    },
                }
            },
        }
    } else {
        match sp_function_inner(t, p) {
            Err(e) => Err(e),
            Ok((f, q)) => if fwd(t, p, q) { sp_bind_ops(t, q, acc.push(BindOpV::Add(f))) } else { vstd::pervasive::arbitrary() },
        }
    }
}

/// `fork Base as New { +type name [= e]; -name; ... } [bind [Name] { ... }]`
pub open spec fn sp_fork(t: Seq<TokenV>, p: int) -> PRes<ForkBlockV>
    decreases t.len() - p, 7int,
    when wf_tokens(t) && 0 <= p < t.len()
{
    let p1 = adv(t, p);
    match sp_ident(t, p1) {
        Err(e) => Err(e),
        Ok((base_name, p2)) => {
            let p3 = adv(t, p2);
            match sp_ident(t, p3) {
                Err(e) => Err(e),
                Ok((new_name, p4)) => match sp_expect_sym(t, p4, '{') {
                    Err(e) => Err(e),
                    Ok(p5) => if fwd(t, p, p5) {
                        match sp_fork_ops(t, p5, seq![]) {
                            Err(e) => Err(e),
                            Ok((operations, p6)) => match sp_expect_sym(t, p6, '}') {
                                Err(e) => Err(e),
                                Ok(p7) => if t[p7].data == TokenDataV::Keyword("bind"@) {
                                    let p8 = adv(t, p7);
                                    let p9 = if t[p8].data is Identifier { adv(t, p8) } else { p8 };
                                    match sp_expect_sym(t, p9, '{') {
                                        Err(e) => Err(e),
                                        Ok(p10) => if fwd(t, p, p10) {
                                            match sp_bind_ops(t, p10, seq![]) {
                                                Err(e) => Err(e),
                                                Ok((bind_ops, p11)) => match sp_expect_sym(t, p11, '}') {
                                                    Err(e) => Err(e),
                                                    Ok(p12) => Ok((ForkBlockV { base_name, new_name, operations, bind_ops }, p12)),
                                                },
                                            }
                                        } else {
                                            vstd::pervasive::arbitrary()
                                        },
                                    }
                                } else {
                                    Ok((ForkBlockV { base_name, new_name, operations, bind_ops: seq![] }, p7))
                                },
                            },
                        }
                    } else {
                        vstd::pervasive::arbitrary()
                    },
                },
            }
        },
    }
}

/// `let`/`unsafe type [*...] name [.ctor(args) | = expr];`
pub open spec fn sp_declaration(t: Seq<TokenV>, p: int, is_let: bool) -> PRes<StmtNodeV>
    decreases t.len() - p, 7int,
    when wf_tokens(t) && 0 <= p < t.len()
{
    let span = t[p].span;
    let p1 = adv(t, p);
    match sp_ident(t, p1) {
        Err(e) => Err(e),
        Ok((ty0, p2)) => {
            let (ty, p3) = sp_ptr_suffix(t, p2, ty0);
            match sp_ident(t, p3) {
                Err(e) => Err(e),
                Ok((name, p4)) => {
                    let tail: PRes<(Option<ExprNodeV>, Option<CtorCallV>)> = if t[p4].data == TokenDataV::Operator("."@) {
                        let p5 = adv(t, p4);
                        match sp_ident(t, p5) {
                            Err(e) => Err(e),
                            Ok((cname, p6)) => match sp_expect_sym(t, p6, '(') {
                                Err(e) => Err(e),
                                Ok(p7) => if fwd(t, p, p7) {
                                    match sp_exprlist(t, p7, seq![]) {
                                        Err(e) => Err(e),
                                        Ok((args, p8)) => match sp_expect_sym(t, p8, ')') {
                                            Err(e) => Err(e),
                                            Ok(p9) => Ok(((None, Some(CtorCallV { name: cname, args })), p9)),
                                        },
                                    }
                                } else {
                                    vstd::pervasive::arbitrary()
                                },
                            },
                        }
                    } else if t[p4].data == TokenDataV::Operator("="@) {
                        let p5 = adv(t, p4);
                        if fwd(t, p, p5) {
                            match sp_expression(t, p5, 0) {
                                Err(e) => Err(e),
                                Ok((e, p6)) => Ok(((Some(e), None), p6)),
                            }
                        } else {
                            vstd::pervasive::arbitrary()
                        }
                    } else {
                        Ok(((None, None), p4))
                    };
                    match tail {
                        Err(e) => Err(e),
                        Ok(((init, constructor_call), p10)) => match sp_expect_sym(t, p10, ';') {
                            Err(e) => Err(e),
                            Ok(p11) => {
                                let decl = VarDeclV { ty, name, init, constructor_call };
                                Ok((
                                    NodeV {
                                        data: if is_let { StmtV::LetDeclaration(decl) } else { StmtV::UnsafeDeclaration(decl) },
                                        span,
                                    },
                                    p11,
                                ))
                            },
                        },
                    }
                },
            }
        },
    }
}

pub open spec fn sp_return(t: Seq<TokenV>, p: int) -> PRes<Option<ExprNodeV>>
    decreases t.len() - p, 7int,
    when wf_tokens(t) && 0 <= p < t.len()
{
    let p1 = adv(t, p);
    if t[p1].data == TokenDataV::Symbol(';') {
        Ok((None, adv(t, p1)))
    } else if fwd(t, p, p1) {
        match sp_expression(t, p1, 0) {
            Err(e) => Err(e),
            Ok((e, p2)) => match sp_expect_sym(t, p2, ';') {
                Err(err) => Err(err),
                Ok(p3) => Ok((Some(e), p3)),
            },
        }
    } else {
        vstd::pervasive::arbitrary()
    }
}

pub open spec fn sp_spawn(t: Seq<TokenV>, p: int) -> PRes<StmtNodeV>
    decreases t.len() - p, 7int,
    when wf_tokens(t) && 0 <= p < t.len()
{
    let span = t[p].span;
    let p1 = adv(t, p);
    match sp_ident(t, p1) {
        Err(e) => Err(e),
        Ok((name, p2)) => match sp_expect_sym(t, p2, '(') {
            Err(e) => Err(e),
            Ok(p3) => if fwd(t, p, p3) {
                match sp_exprlist(t, p3, seq![]) {
                    Err(e) => Err(e),
                    Ok((args, p4)) => match sp_expect_sym(t, p4, ')') {
                        Err(e) => Err(e),
                        Ok(p5) => Ok((NodeV { data: StmtV::Spawn(name, args), span }, sp_optional_semi(t, p5))),
                    },
                }
            } else {
                vstd::pervasive::arbitrary()
            },
        },
    }
}

pub open spec fn sp_if(t: Seq<TokenV>, p: int) -> PRes<StmtNodeV>
    decreases t.len() - p, 7int,
    when wf_tokens(t) && 0 <= p < t.len()
{
    let span = t[p].span;
    let p1 = adv(t, p);
    match sp_expect_sym(t, p1, '(') {
        Err(e) => Err(e),
        Ok(p2) => if fwd(t, p, p2) {
            match sp_expression(t, p2, 0) {
                Err(e) => Err(e),
                Ok((condition, p3)) => match sp_expect_sym(t, p3, ')') {
                    Err(e) => Err(e),
                    Ok(p4) => if fwd(t, p, p4) {
                        match sp_statement(t, p4) {
                            Err(e) => Err(e),
                            Ok((None, _)) => Err(ParseErrorV::MissingThenBranch),
                            Ok((Some(th), p5)) => if fwd(t, p4, p5) {
                                if t[p5].data == TokenDataV::Keyword("else"@) {
                                    let p6 = adv(t, p5);
                                    match sp_statement(t, p6) {
                                        Err(e) => Err(e),
                                        Ok((None, _)) => Err(ParseErrorV::MissingElseBranch),
                                        Ok((Some(el), p7)) => Ok((
                                            NodeV {
                                                data: StmtV::If {
                                                    condition,
                                                    then_branch: Box::new(th),
                                                    else_branch: Some(Box::new(el)),
                                                },
                                                span,
                                            },
                                            p7,
                                        )),
                                    }
                                } else {
                                    Ok((
                                        NodeV {
                                            data: StmtV::If { condition, then_branch: Box::new(th), else_branch: None },
                                            span,
                                        },
                                        p5,
                                    ))
                                }
                            } else {
                                vstd::pervasive::arbitrary()
                            },
                        }
                    } else {
                        vstd::pervasive::arbitrary()
                    },
                },
            }
        } else {
            vstd::pervasive::arbitrary()
        },
    }
}

/// The body of a loop; a lone `;` is an empty block.
pub open spec fn loop_body(s: Option<StmtNodeV>, span: Span) -> StmtNodeV {
    match s {
        Some(b) => b,
        None => NodeV { data: StmtV::Block(seq![]), span },
    }
}

/// `while (condition) body`
pub open spec fn sp_while(t: Seq<TokenV>, p: int) -> PRes<StmtNodeV>
    decreases t.len() - p, 7int,
    when wf_tokens(t) && 0 <= p < t.len()
{
    let span = t[p].span;
    match sp_expect_sym(t, adv(t, p), '(') {
        Err(e) => Err(e),
        Ok(p2) => if fwd(t, p, p2) {
            match sp_expression(t, p2, 0) {
                Err(e) => Err(e),
                Ok((condition, p3)) => match sp_expect_sym(t, p3, ')') {
                    Err(e) => Err(e),
                    Ok(p4) => if fwd(t, p, p4) {
                        match sp_statement(t, p4) {
                            Err(e) => Err(e),
                            Ok((body, p5)) => Ok((
                                NodeV { data: StmtV::While { condition, body: Box::new(loop_body(body, t[p4].span)) }, span },
                                p5,
                            )),
                        }
                    } else {
                        vstd::pervasive::arbitrary()
                    },
                },
            }
        } else {
            vstd::pervasive::arbitrary()
        },
    }
}

/// The first clause of a `for` head, with its `;`: empty, a declaration, or an expression.
pub open spec fn sp_for_init(t: Seq<TokenV>, p: int) -> PRes<Option<StmtNodeV>>
    decreases t.len() - p, 8int,
    when wf_tokens(t) && 0 <= p < t.len()
{
    let d = t[p].data;
    if d == TokenDataV::Symbol(';') {
        Ok((None, adv(t, p)))
    } else if d == TokenDataV::Keyword("let"@) {
        some_stmt(sp_declaration(t, p, true))
    } else if d == TokenDataV::Keyword("unsafe"@) {
        some_stmt(sp_declaration(t, p, false))
    } else {
        match sp_expression(t, p, 0) {
            Err(e) => Err(e),
            Ok((x, q)) => match sp_expect_sym(t, q, ';') {
                Err(e) => Err(e),
                Ok(q1) => Ok((Some(NodeV { data: StmtV::Expression(x), span: t[p].span }), q1)),
            },
        }
    }
}

/// An expression that may be left out before the symbol `close`.
pub open spec fn sp_opt_expr(t: Seq<TokenV>, p: int, close: char) -> PRes<Option<ExprNodeV>>
    decreases t.len() - p, 3int,
    when wf_tokens(t) && 0 <= p < t.len()
{
    if t[p].data == TokenDataV::Symbol(close) {
        Ok((None, p))
    } else {
        match sp_expression(t, p, 0) {
            Err(e) => Err(e),
            Ok((x, q)) => Ok((Some(x), q)),
        }
    }
}

/// `for (init; condition; step) body`, each clause of the head optional.
pub open spec fn sp_for(t: Seq<TokenV>, p: int) -> PRes<StmtNodeV>
    decreases t.len() - p, 7int,
    when wf_tokens(t) && 0 <= p < t.len()
{
    let span = t[p].span;
    match sp_expect_sym(t, adv(t, p), '(') {
        Err(e) => Err(e),
        Ok(p2) => if fwd(t, p, p2) {
            match sp_for_init(t, p2) {
                Err(e) => Err(e),
                Ok((init, p3)) => if fwd_eq(t, p, p3) {
                    match sp_opt_expr(t, p3, ';') {
                        Err(e) => Err(e),
                        Ok((condition, p4)) => match sp_expect_sym(t, p4, ';') {
                            Err(e) => Err(e),
                            Ok(p5) => if fwd(t, p, p5) {
                                match sp_opt_expr(t, p5, ')') {
                                    Err(e) => Err(e),
                                    Ok((step, p6)) => match sp_expect_sym(t, p6, ')') {
                                        Err(e) => Err(e),
                                        Ok(p7) => if fwd(t, p, p7) {
                                            match sp_statement(t, p7) {
                                                Err(e) => Err(e),
                                                Ok((body, p8)) => Ok((
                                                    NodeV {
                                                        data: StmtV::For {
                                                            init: match init {
                                                                Some(s) => Some(Box::new(s)),
                                                                None => None,
                                                            },
                                                            condition,
                                                            step,
                                                            body: Box::new(loop_body(body, t[p7].span)),
                                                        },
                                                        span,
                                                    },
                                                    p8,
                                                )),
                                            }
                                        } else {
                                            vstd::pervasive::arbitrary()
                                        },
                                    },
                                }
                            } else {
                                vstd::pervasive::arbitrary()
                            },
                        },
                    }
                } else {
                    vstd::pervasive::arbitrary()
                },
            }
        } else {
            vstd::pervasive::arbitrary()
        },
    }
}

/// An expression used as a statement, with an optional `;` after it.
pub open spec fn sp_expr_stmt(t: Seq<TokenV>, p: int) -> PRes<Option<StmtNodeV>>
    decreases t.len() - p, 3int,
    when wf_tokens(t) && 0 <= p < t.len()
{
    match sp_expression(t, p, 0) {
        Err(e) => Err(e),
        Ok((e, q)) => if fwd(t, p, q) {
            Ok((Some(NodeV { data: StmtV::Expression(e), span: t[p].span }), sp_optional_semi(t, q)))
        } else {
            vstd::pervasive::arbitrary()
        },
    }
}

pub open spec fn wrap_stmt<T>(r: PRes<T>, f: spec_fn(T) -> StmtV, span: Span) -> PRes<Option<StmtNodeV>> {
    match r {
        Err(e) => Err(e),
        Ok((v, q)) => Ok((Some(NodeV { data: f(v), span }), q)),
    }
}

pub open spec fn some_stmt(r: PRes<StmtNodeV>) -> PRes<Option<StmtNodeV>> {
    match r {
        Err(e) => Err(e),
        Ok((v, q)) => Ok((Some(v), q)),
    }
}

/// A statement, or `None` for a lone `;`.
pub open spec fn sp_statement(t: Seq<TokenV>, p: int) -> PRes<Option<StmtNodeV>>
    decreases t.len() - p, 10int,
    when wf_tokens(t) && 0 <= p < t.len()
{
    let span = t[p].span;
    let d = t[p].data;
    if d == TokenDataV::Keyword("struct"@) {
        wrap_stmt(sp_struct(t, p), |v: StructDefV| StmtV::StructDef(v), span)
    } else if d == TokenDataV::Keyword("bind"@) {
        wrap_stmt(sp_bind(t, p), |v: BindBlockV| StmtV::BindBlock(v), span)
    } else if d == TokenDataV::Keyword("fork"@) {
        wrap_stmt(sp_fork(t, p), |v: ForkBlockV| StmtV::ForkBlock(v), span)
    } else if d == TokenDataV::Keyword("let"@) {
        some_stmt(sp_declaration(t, p, true))
    } else if d == TokenDataV::Keyword("unsafe"@) {
        some_stmt(sp_declaration(t, p, false))
    } else if d == TokenDataV::Keyword("alias"@) {
        wrap_stmt(sp_alias(t, p), |v: AliasDeclV| StmtV::AliasDeclaration(v), span)
    } else if d == TokenDataV::Keyword("return"@) {
        wrap_stmt(sp_return(t, p), |v: Option<ExprNodeV>| StmtV::Return(v), span)
    } else if d == TokenDataV::Keyword("if"@) {
        some_stmt(sp_if(t, p))
    } else if d == TokenDataV::Keyword("spawn"@) {
        some_stmt(sp_spawn(t, p))
    } else if d == TokenDataV::Keyword("while"@) {
        some_stmt(sp_while(t, p))
    } else if d == TokenDataV::Keyword("for"@) {
        some_stmt(sp_for(t, p))
    } else if d is RawC {
        let c = match d {
            TokenDataV::RawC(c) => c,
            _ => Seq::empty(),
        };
        Ok((Some(NodeV { data: StmtV::RawC(c), span }), adv(t, p)))
    } else if d == TokenDataV::Symbol('{') {
        some_stmt(sp_block_node(t, p))
    } else if d == TokenDataV::Symbol(';') {
        Ok((None, adv(t, p)))
    } else if d is Identifier {
        let p1 = adv(t, p);
        if t[p1].data is Identifier {
            match sp_ident(t, p) {
                Err(e) => Err(e),
                Ok((ty, p1)) => match sp_ident(t, p1) {
                    Err(e) => Err(e),
                    Ok((name, p2)) => if t[p2].data == TokenDataV::Symbol('(') {
                        let p3 = adv(t, p2);
                        match sp_params(t, p3, seq![]) {
                            Err(e) => Err(e),
                            Ok((params, p4)) => match sp_expect_sym(t, p4, ')') {
                                Err(e) => Err(e),
                                Ok(p5) => if fwd(t, p, p5) {
                                    match sp_block_node(t, p5) {
                                        Err(e) => Err(e),
                                        Ok((body, p6)) => Ok((
                                            Some(
                                                NodeV {
                                                    data: StmtV::FunctionDef(
                                                        FunctionDefV { name, params, return_ty: ty, body: Box::new(body) },
                                                    ),
                                                    span,
                                                },
                                            ),
                                            p6,
                                        )),
                                    }
                                } else {
                                    vstd::pervasive::arbitrary()
                                },
                            },
                        }
                    } else {
                        let left = NodeV { data: ExprV::Identifier(ty), span: t[p].span };
                        let right = NodeV { data: ExprV::Identifier(name), span: t[p1].span };
                        Ok((
                            Some(
                                NodeV {
                                    data: StmtV::Expression(
                                        NodeV { data: ExprV::BinaryOp(Box::new(left), seq![' '], Box::new(right)), span },
                                    ),
                                    span,
                                },
                            ),
                            p2,
                        ))
                    },
                },
            }
        } else if t[p1].data == TokenDataV::Symbol('(') {
            match sp_expression(t, p, 0) {
                Err(e) => Err(e),
                Ok((e, q)) => Ok((Some(NodeV { data: StmtV::Expression(e), span }), q)),
            }
        } else {
            sp_expr_stmt(t, p)
        }
    } else {
        sp_expr_stmt(t, p)
    }
}

/// The whole program: statements up to `EOF`. A lone `;` is an empty statement and
/// leaves nothing in the tree.
pub open spec fn sp_program(t: Seq<TokenV>, p: int, acc: Seq<StmtNodeV>) -> Result<Seq<StmtNodeV>, ParseErrorV>
    decreases t.len() - p, 12int,
    when wf_tokens(t) && 0 <= p < t.len()
{
    if t[p].data is EOF {
        Ok(acc)
    } else {
        match sp_statement(t, p) {
            Err(e) => Err(e),
            Ok((o, q)) => if fwd(t, p, q) {
                match o {
                    Some(s) => sp_program(t, q, acc.push(s)),
                    None => sp_program(t, q, acc),
                }
            } else {
                vstd::pervasive::arbitrary()
            },
        }
    }
}

} // verus!
