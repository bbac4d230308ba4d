//! What the parser promises of operator precedence.
use vstd::prelude::*;
use crate::ast::{NodeV, ExprV, ExprNodeV};
use crate::lexer::{TokenV, TokenDataV};
use crate::parser_spec::{wf_tokens, precedence, sp_primary, sp_expression, sp_expr_loop};

verus! {

/// Binding strengths: `*` and `/` bind alike and tighter than `+` and `-`, which bind alike and
/// tighter than comparisons, which bind tighter than assignment; member access binds tightest.
pub proof fn law_precedence_order()
    ensures
        precedence("/"@) == precedence("*"@),
        precedence("+"@) == precedence("-"@),
        precedence("*"@) > precedence("+"@),
        precedence("+"@) > precedence("<"@),
        precedence("<"@) == precedence("=="@),
        precedence("<"@) > precedence("="@),
        precedence("="@) > 0,
        precedence("."@) > precedence("*"@),
{
    reveal_strlit("/");
    reveal_strlit("*");
    reveal_strlit("+");
    reveal_strlit("-");
    reveal_strlit("<");
    reveal_strlit("==");
    reveal_strlit("=");
    reveal_strlit(".");
    reveal_strlit("!=");
    reveal_strlit(">");
    reveal_strlit("->");
    assert("/"@[0] == '/' && "*"@[0] == '*' && "+"@[0] == '+' && "-"@[0] == '-' && "<"@[0] == '<');
    assert("="@[0] == '=' && "."@[0] == '.' && "=="@[0] == '=' && "!="@[0] == '!' && ">"@[0] == '>');
    assert("->"@[0] == '-' && "->"@[1] == '>' && "=="@[1] == '=');
    assert("="@.len() == 1 && "=="@.len() == 2 && "!="@.len() == 2 && "<"@.len() == 1);
}

pub open spec fn ident_node(t: Seq<TokenV>, q: int) -> ExprNodeV {
    NodeV {
        data: ExprV::Identifier(match t[q].data {
            TokenDataV::Identifier(s) => s,
            _ => Seq::empty(),
        }),
        span: t[q].span,
    }
}

pub open spec fn op_text(t: Seq<TokenV>, q: int) -> Seq<char> {
    match t[q].data {
        TokenDataV::Operator(s) => s,
        _ => Seq::empty(),
    }
}

proof fn lemma_ident_primary(t: Seq<TokenV>, q: int)
    requires
        wf_tokens(t),
        0 <= q,
        q + 1 < t.len(),
        t[q].data is Identifier,
        t[q + 1].data != TokenDataV::Symbol('('),
    ensures
        sp_primary(t, q) == Ok::<(ExprNodeV, int), crate::parser_spec::ParseErrorV>((ident_node(t, q), q + 1)),
{
}

/// In `a o1 b o2 c`, where the expression ends after `c`, the operator that binds tighter is
/// applied first: `a + b / c` is `a + (b / c)` and `a / b + c` is `(a / b) + c`.
pub proof fn law_tighter_operator_first(t: Seq<TokenV>, p: int)
    requires
        wf_tokens(t),
        0 <= p,
        p + 5 < t.len(),
        t[p].data is Identifier,
        t[p + 1].data is Operator,
        t[p + 2].data is Identifier,
        t[p + 3].data is Operator,
        t[p + 4].data is Identifier,
        !(t[p + 5].data is Operator),
        t[p + 5].data != TokenDataV::Symbol('('),
        op_text(t, p + 1) == "+"@ || op_text(t, p + 1) == "-"@ || op_text(t, p + 1) == "*"@ || op_text(t, p + 1) == "/"@,
        op_text(t, p + 3) == "+"@ || op_text(t, p + 3) == "-"@ || op_text(t, p + 3) == "*"@ || op_text(t, p + 3) == "/"@,
        (op_text(t, p + 1) == "*"@ || op_text(t, p + 1) == "/"@) != (op_text(t, p + 3) == "*"@ || op_text(t, p + 3) == "/"@),
    ensures
        ({
            let (a, o1, b, o2, c) = (ident_node(t, p), op_text(t, p + 1), ident_node(t, p + 2), op_text(t, p + 3), ident_node(t, p + 4));
            let e = if o1 == "+"@ || o1 == "-"@ {
                ExprV::BinaryOp(Box::new(a), o1, Box::new(NodeV { data: ExprV::BinaryOp(Box::new(b), o2, Box::new(c)), span: b.span }))
            } else {
                ExprV::BinaryOp(Box::new(NodeV { data: ExprV::BinaryOp(Box::new(a), o1, Box::new(b)), span: a.span }), o2, Box::new(c))
            };
            sp_expression(t, p, 0) == Ok::<(ExprNodeV, int), crate::parser_spec::ParseErrorV>((NodeV { data: e, span: a.span }, p + 5))
        }),
{
    law_precedence_order();
    let (a, o1, b, o2, c) = (ident_node(t, p), op_text(t, p + 1), ident_node(t, p + 2), op_text(t, p + 3), ident_node(t, p + 4));
    assert(t[p + 1].data == TokenDataV::Operator(o1));
    assert(t[p + 3].data == TokenDataV::Operator(o2));
    assert(o1 != "."@ && o1 != "->"@ && o2 != "."@ && o2 != "->"@) by {
        reveal_strlit(".");
        reveal_strlit("->");
        reveal_strlit("+");
        reveal_strlit("-");
        reveal_strlit("*");
        reveal_strlit("/");
        assert("."@[0] == '.' && "->"@.len() == 2 && "->"@[1] == '>');
        assert("+"@[0] == '+' && "-"@[0] == '-' && "*"@[0] == '*' && "/"@[0] == '/');
        assert("+"@.len() == 1 && "-"@.len() == 1 && "*"@.len() == 1 && "/"@.len() == 1 && "."@.len() == 1);
    }
    lemma_ident_primary(t, p);
    lemma_ident_primary(t, p + 2);
    lemma_ident_primary(t, p + 4);
    let pr1 = precedence(o1);
    let pr2 = precedence(o2);
    if o1 == "+"@ || o1 == "-"@ {
        assert(pr1 == 3 && pr2 == 4);
        // c, then b o2 c, then a o1 (b o2 c)
        assert(sp_expr_loop(t, p + 5, 4, c) == Ok::<(ExprNodeV, int), crate::parser_spec::ParseErrorV>((c, p + 5)));
        assert(sp_expression(t, p + 4, 4) == Ok::<(ExprNodeV, int), crate::parser_spec::ParseErrorV>((c, p + 5)));
        let bc = NodeV { data: ExprV::BinaryOp(Box::new(b), o2, Box::new(c)), span: b.span };
        assert(sp_expr_loop(t, p + 5, 3, bc) == Ok::<(ExprNodeV, int), crate::parser_spec::ParseErrorV>((bc, p + 5)));
        assert(sp_expr_loop(t, p + 3, 3, b) == Ok::<(ExprNodeV, int), crate::parser_spec::ParseErrorV>((bc, p + 5)));
        assert(sp_expression(t, p + 2, 3) == Ok::<(ExprNodeV, int), crate::parser_spec::ParseErrorV>((bc, p + 5)));
        let abc = NodeV { data: ExprV::BinaryOp(Box::new(a), o1, Box::new(bc)), span: a.span };
        assert(sp_expr_loop(t, p + 5, 0, abc) == Ok::<(ExprNodeV, int), crate::parser_spec::ParseErrorV>((abc, p + 5)));
        assert(sp_expr_loop(t, p + 1, 0, a) == Ok::<(ExprNodeV, int), crate::parser_spec::ParseErrorV>((abc, p + 5)));
    } else {
        assert(pr1 == 4 && pr2 == 3);
        // b, then a o1 b, then (a o1 b) o2 c
        assert(sp_expr_loop(t, p + 3, 4, b) == Ok::<(ExprNodeV, int), crate::parser_spec::ParseErrorV>((b, p + 3)));
        assert(sp_expression(t, p + 2, 4) == Ok::<(ExprNodeV, int), crate::parser_spec::ParseErrorV>((b, p + 3)));
        let ab = NodeV { data: ExprV::BinaryOp(Box::new(a), o1, Box::new(b)), span: a.span };
        assert(sp_expr_loop(t, p + 5, 3, c) == Ok::<(ExprNodeV, int), crate::parser_spec::ParseErrorV>((c, p + 5)));
        assert(sp_expression(t, p + 4, 3) == Ok::<(ExprNodeV, int), crate::parser_spec::ParseErrorV>((c, p + 5)));
        let abc = NodeV { data: ExprV::BinaryOp(Box::new(ab), o2, Box::new(c)), span: a.span };
        assert(sp_expr_loop(t, p + 5, 0, abc) == Ok::<(ExprNodeV, int), crate::parser_spec::ParseErrorV>((abc, p + 5)));
        assert(sp_expr_loop(t, p + 3, 0, ab) == Ok::<(ExprNodeV, int), crate::parser_spec::ParseErrorV>((abc, p + 5)));
        assert(sp_expr_loop(t, p + 1, 0, a) == Ok::<(ExprNodeV, int), crate::parser_spec::ParseErrorV>((abc, p + 5)));
    }
}

} // verus!
