//! Promises that span modules: an ownership error is located where the report looks,
//! a fork holds its base's fields with the additions and without the removals, and a
//! block destroys what it still owns.
use vstd::prelude::*;
use crate::ast::{Span, NodeV, ExprV, StmtV, FieldV, ForkOpV, ForkBlockV, VarDeclV};
use crate::checker::located;
use crate::codegen::OwnershipStatus;
use crate::codegen_spec::{
    GenV, VarEntry, first_pos, lemma_first_pos, keys_of, assoc_get, assoc_put, drop_field, fork_fields, pre_register,
    gen_stmt, gen_stmts, gen_var_decl, indent_text, destroy_line, var_level, scope_destroys,
    emit_destroys, translate, moved_if_ident, open_scope, close_scope, emit, indented, inc, return_destroys,
    emit_return_destroys,
};
use crate::report::{
    is_digit, all_digits, digits_value, number_in, char_pos, lemma_char_pos, loc_at, find_location, error_location,
};
use crate::text::{decimal, digit_char};

verus! {

// ---------------------------------------------------------------------------
// Error locations.
// ---------------------------------------------------------------------------

proof fn lemma_digit_char(d: int)
    requires
        0 <= d < 10,
    ensures
        is_digit(digit_char(d)),
        (digit_char(d) as int) - ('0' as int) == d,
{
}

proof fn lemma_decimal(n: nat)
    ensures
        decimal(n).len() > 0,
        all_digits(decimal(n)),
        digits_value(decimal(n)) == n,
    decreases n,
{
    if n < 10 {
        lemma_digit_char(n as int);
        let s = decimal(n);
        assert(s.drop_last() =~= Seq::<char>::empty());
        assert(digits_value(s.drop_last()) == 0);
        assert(digits_value(s) == n);
    } else {
        lemma_decimal(n / 10);
        lemma_digit_char((n % 10) as int);
        let s = decimal(n / 10);
        let t = decimal(n);
        assert(t == s.push(digit_char((n % 10) as int)));
        assert(t.drop_last() =~= s);
        assert forall|i: int| 0 <= i < t.len() implies is_digit(#[trigger] t[i]) by {
            if i < s.len() {
                assert(t[i] == s[i]);
            }
        }
        assert(digits_value(t) == digits_value(s) * 10 + (n % 10));
        assert((n / 10) * 10 + n % 10 == n) by (nonlinear_arith);
    }
}

proof fn lemma_char_pos_is(s: Seq<char>, c: char, e: int)
    requires
        0 <= e < s.len(),
        s[e] == c,
        forall|j: int| 0 <= j < e ==> s[j] != c,
    ensures
        char_pos(s, c) == e,
{
    lemma_char_pos(s, c);
    let r = char_pos(s, c);
    if r < e {
        if r == -1 {
            assert(s[e] != c);
        } else {
            assert(s[r] == c);
        }
    } else if r > e {
        assert(s[e] != c);
    }
}

proof fn lemma_find_skip(m: Seq<char>, i: int)
    requires
        0 <= i < m.len(),
        forall|j: int| 0 < j <= i ==> m[j] != '[',
    ensures
        find_location(m, i) == find_location(m, 0),
    decreases i,
{
    if i > 0 {
        assert(loc_at(m, i) is None);
        lemma_find_skip(m, i - 1);
    }
}

/// An ownership error reads `[line:col] message'name'`; where neither the message nor the
/// name holds a `[`, the location the report reads back is the one the checker wrote.
pub proof fn law_error_location_roundtrip(span: Span, msg: Seq<char>, name: Seq<char>)
    requires
        forall|i: int| 0 <= i < msg.len() ==> msg[i] != '[',
        forall|i: int| 0 <= i < name.len() ==> name[i] != '[',
    ensures
        error_location(located(span, msg, name)) matches Some((at, line, col, _)) && at == 0 && line == span.line
            && col == span.col,
{
    let m = located(span, msg, name);
    let l = decimal(span.line as nat);
    let c = decimal(span.col as nat);
    lemma_decimal(span.line as nat);
    lemma_decimal(span.col as nat);
    let pos = l + seq![':'] + c;
    let tail = seq![' '] + msg + seq!['\''] + name + seq!['\''];
    let rest = pos + seq![']'] + tail;
    assert(m =~= seq!['['] + rest);
    assert forall|j: int| 0 < j < m.len() implies m[j] != '[' by {
        assert(m[j] == rest[j - 1]);
        let k = j - 1;
        if k < l.len() {
            assert(rest[k] == l[k]);
            assert(is_digit(l[k]));
        } else if k == l.len() {
        } else if k < l.len() + 1 + c.len() {
            assert(rest[k] == c[k - l.len() - 1]);
            assert(is_digit(c[k - l.len() - 1]));
        } else if k == pos.len() {
        } else {
            let t = k - pos.len() - 1;
            assert(rest[k] == tail[t]);
            if t == 0 {
            } else if t < 1 + msg.len() {
                assert(tail[t] == msg[t - 1]);
            } else if t == 1 + msg.len() {
            } else if t < 2 + msg.len() + name.len() {
                assert(tail[t] == name[t - 2 - msg.len()]);
            }
        }
    }
    lemma_find_skip(m, m.len() - 1);
    assert(m.skip(1) =~= rest);
    assert forall|j: int| 0 <= j < pos.len() implies rest[j] != ']' by {
        assert(rest[j] == pos[j]);
        if j < l.len() {
            assert(pos[j] == l[j]);
            assert(is_digit(l[j]));
        } else if j > l.len() {
            assert(pos[j] == c[j - l.len() - 1]);
            assert(is_digit(c[j - l.len() - 1]));
        }
    }
    lemma_char_pos_is(rest, ']', pos.len() as int);
    assert(rest.take(pos.len() as int) =~= pos);
    assert forall|j: int| 0 <= j < l.len() implies pos[j] != ':' by {
        assert(pos[j] == l[j]);
        assert(is_digit(l[j]));
    }
    lemma_char_pos_is(pos, ':', l.len() as int);
    assert(pos.take(l.len() as int) =~= l);
    assert(pos.skip(l.len() as int + 1) =~= c);
    assert forall|j: int| 0 <= j < c.len() implies c[j] != ':' by {
        assert(is_digit(c[j]));
    }
    lemma_char_pos(c, ':');
    assert(number_in(l) == Some(span.line as nat));
    assert(number_in(c) == Some(span.col as nat));
    assert(loc_at(m, 0) == Some((span.line as nat, span.col as nat, pos.len() as int)));
}

// ---------------------------------------------------------------------------
// Forks.
// ---------------------------------------------------------------------------

proof fn lemma_first_pos_is(keys: Seq<Seq<char>>, k: Seq<char>, e: int)
    requires
        0 <= e < keys.len(),
        keys[e] == k,
        forall|j: int| 0 <= j < e ==> keys[j] != k,
    ensures
        first_pos(keys, k) == e,
{
    lemma_first_pos(keys, k);
    let r = first_pos(keys, k);
    if r < e {
        if r == -1 {
            assert(keys[e] != k);
        } else {
            assert(keys[r] == k);
        }
    } else if r > e {
        assert(keys[e] != k);
    }
}

proof fn lemma_assoc_put_get<V>(s: Seq<(Seq<char>, V)>, k: Seq<char>, v: V)
    ensures
        assoc_get(assoc_put(s, k, v), k) == Some(v),
{
    lemma_first_pos(keys_of(s), k);
    let p = first_pos(keys_of(s), k);
    let t = assoc_put(s, k, v);
    if p >= 0 {
        assert(keys_of(t) =~= keys_of(s));
        assert(t[p] == (k, v));
    } else {
        assert(keys_of(t) =~= keys_of(s).push(k));
        lemma_first_pos_is(keys_of(t), k, s.len() as int);
    }
}

proof fn lemma_assoc_put_other<V>(s: Seq<(Seq<char>, V)>, k: Seq<char>, v: V, j: Seq<char>)
    requires
        j != k,
    ensures
        assoc_get(assoc_put(s, k, v), j) == assoc_get(s, j),
{
    lemma_first_pos(keys_of(s), k);
    lemma_first_pos(keys_of(s), j);
    let t = assoc_put(s, k, v);
    lemma_first_pos(keys_of(t), j);
    let q = first_pos(keys_of(s), j);
    if first_pos(keys_of(s), k) >= 0 {
        assert(keys_of(t) =~= keys_of(s));
    } else {
        assert(keys_of(t) =~= keys_of(s).push(k));
        if q >= 0 {
            lemma_first_pos_is(keys_of(t), j, q);
        } else {
            assert(keys_of(t)[s.len() as int] == k);
            assert forall|i: int| 0 <= i < keys_of(t).len() implies keys_of(t)[i] != j by {
                if i < s.len() {
                    assert(keys_of(t)[i] == keys_of(s)[i]);
                }
            }
        }
    }
}

proof fn lemma_drop_field_absent(s: Seq<FieldV>, n: Seq<char>)
    ensures
        forall|i: int| 0 <= i < drop_field(s, n).len() ==> (#[trigger] drop_field(s, n)[i]).name != n,
    decreases s.len(),
{
    if s.len() > 0 {
        lemma_drop_field_absent(s.drop_last(), n);
    }
}

proof fn lemma_drop_field_keeps(s: Seq<FieldV>, n: Seq<char>, f: FieldV)
    requires
        s.contains(f),
        f.name != n,
    ensures
        drop_field(s, n).contains(f),
    decreases s.len(),
{
    let r = drop_field(s.drop_last(), n);
    if s.last() == f {
        assert(drop_field(s, n) == r.push(f));
        assert(r.push(f)[r.len() as int] == f);
    } else {
        let i = choose|i: int| 0 <= i < s.len() && s[i] == f;
        assert(i < s.len() - 1);
        assert(s.drop_last()[i] == f);
        lemma_drop_field_keeps(s.drop_last(), n, f);
        let j = choose|j: int| 0 <= j < r.len() && r[j] == f;
        if s.last().name != n {
            assert(r.push(s.last())[j] == f);
        }
    }
}

/// A fork of a registered struct is registered under its new name with the fields that its
/// operations make of the base's.
pub proof fn law_fork_registers_fields(g: GenV, f: ForkBlockV, base: Seq<FieldV>)
    requires
        assoc_get(g.structs, f.base_name) == Some(base),
    ensures
        assoc_get(pre_register(g, StmtV::ForkBlock(f)).structs, f.new_name) == Some(fork_fields(base, f.operations)),
{
    lemma_assoc_put_get(g.structs, f.new_name, fork_fields(base, f.operations));
}

/// A fork leaves its base's registration as it was; a fork of a struct that is not registered
/// registers nothing at all.
pub proof fn law_fork_keeps_base(g: GenV, f: ForkBlockV)
    requires
        f.new_name != f.base_name,
    ensures
        assoc_get(pre_register(g, StmtV::ForkBlock(f)).structs, f.base_name) == assoc_get(g.structs, f.base_name),
        assoc_get(g.structs, f.base_name) is None ==> pre_register(g, StmtV::ForkBlock(f)) == g,
{
    match assoc_get(g.structs, f.base_name) {
        Some(base) => lemma_assoc_put_other(g.structs, f.new_name, fork_fields(base, f.operations), f.base_name),
        None => {},
    }
}

/// A field that a fork removes is absent from the result.
pub proof fn law_fork_removed_field_absent(base: Seq<FieldV>, ops: Seq<ForkOpV>, name: Seq<char>)
    ensures
        forall|i: int| 0 <= i < fork_fields(base, ops.push(ForkOpV::Remove(name))).len()
            ==> (#[trigger] fork_fields(base, ops.push(ForkOpV::Remove(name)))[i]).name != name,
{
    assert(ops.push(ForkOpV::Remove(name)).drop_last() =~= ops);
    lemma_drop_field_absent(fork_fields(base, ops), name);
}

/// A field that a fork adds comes last.
pub proof fn law_fork_added_field_last(base: Seq<FieldV>, ops: Seq<ForkOpV>, field: FieldV)
    ensures
        fork_fields(base, ops.push(ForkOpV::Add(field))).last() == field,
{
    assert(ops.push(ForkOpV::Add(field)).drop_last() =~= ops);
}

/// A field of the base that no operation removes is kept.
pub proof fn law_fork_keeps_unremoved(base: Seq<FieldV>, ops: Seq<ForkOpV>, field: FieldV)
    requires
        base.contains(field),
        forall|i: int| 0 <= i < ops.len() ==> !(#[trigger] ops[i] matches ForkOpV::Remove(n) && n == field.name),
    ensures
        fork_fields(base, ops).contains(field),
    decreases ops.len(),
{
    if ops.len() > 0 {
        let d = ops.drop_last();
        assert forall|i: int| 0 <= i < d.len() implies !(#[trigger] d[i] matches ForkOpV::Remove(n) && n == field.name) by {
            assert(d[i] == ops[i]);
        }
        law_fork_keeps_unremoved(base, d, field);
        let r = fork_fields(base, d);
        match ops.last() {
            ForkOpV::Add(x) => {
                let j = choose|j: int| 0 <= j < r.len() && r[j] == field;
                assert(r.push(x)[j] == field);
            },
            ForkOpV::Remove(n) => {
                assert(ops[ops.len() - 1] == ops.last());
                lemma_drop_field_keeps(r, n, field);
            },
        }
    }
}

// ---------------------------------------------------------------------------
// Destruction at the end of a block.
// ---------------------------------------------------------------------------

/// RAII with moves: in a block `{ let T a; let T b = a; }` of a type with a destructor, the
/// value moved out of `a` is destroyed once, through `b`, at the end of the block; `a` is not.
pub proof fn law_block_destroys_what_it_owns(
    g: GenV,
    ty: Seq<char>,
    a: Seq<char>,
    b: Seq<char>,
    block_span: Span,
    a_span: Span,
    b_span: Span,
    use_span: Span,
)
    requires
        g.vars.len() >= 1,
        g.destructors.contains(ty),
        g.indent < usize::MAX,
        a != b,
    ensures
        ({
            let s1 = NodeV {
                data: StmtV::LetDeclaration(VarDeclV { ty, name: a, init: None, constructor_call: None }),
                span: a_span,
            };
            let s2 = NodeV {
                data: StmtV::LetDeclaration(
                    VarDeclV {
                        ty,
                        name: b,
                        init: Some(NodeV { data: ExprV::Identifier(a), span: use_span }),
                        constructor_call: None,
                    },
                ),
                span: b_span,
            };
            let r = gen_stmt(g, NodeV { data: StmtV::Block(seq![s1, s2]), span: block_span });
            let ind1 = indent_text((g.indent + 1) as nat);
            &&& r.output == g.output + "{\n"@ + ind1 + ty + " "@ + a + " "@ + "= {0};\n"@ + ind1 + ty + " "@ + b
                + " "@ + "= "@ + a + ";\n"@ + ind1 + destroy_line((b, ty)) + indent_text(g.indent as nat) + "}"@
            &&& r.vars == g.vars
        }),
{
    let s1 = NodeV {
        data: StmtV::LetDeclaration(VarDeclV { ty, name: a, init: None, constructor_call: None }),
        span: a_span,
    };
    let use_a = NodeV { data: ExprV::Identifier(a), span: use_span };
    let s2 = NodeV {
        data: StmtV::LetDeclaration(VarDeclV { ty, name: b, init: Some(use_a), constructor_call: None }),
        span: b_span,
    };
    let stmts = seq![s1, s2];
    let ind1 = indent_text((g.indent + 1) as nat);
    let g1 = emit(g, "{\n"@);
    let g2 = open_scope(GenV { indent: inc(g1.indent), ..g1 });
    assert(g2.indent == g.indent + 1);
    let empty = Seq::<VarEntry>::empty();
    assert(g2.vars.last() == empty);
    // `let T a;`
    let ga = gen_var_decl(g2, ty, a, None, None, OwnershipStatus::Active);
    assert(first_pos(keys_of(empty), a) == -1);
    let sa = seq![(a, (ty, OwnershipStatus::Active))];
    assert(assoc_put(empty, a, (ty, OwnershipStatus::Active)) =~= sa);
    assert(ga.vars == g2.vars.update(g2.vars.len() - 1, sa));
    assert(ga.output == g2.output + ind1 + (ty + " "@ + a + " "@) + "= {0};\n"@);
    assert(gen_stmt(g2, s1) == ga);
    // `let T b = a;`
    let gb1 = emit(indented(ga), ty + " "@ + b + " "@);
    assert(translate(gb1, use_a) == (gb1, a));
    let gb2 = moved_if_ident(emit(gb1, "= "@ + a + ";\n"@), use_a);
    let last = ga.vars.len() - 1;
    assert(keys_of(sa) =~= seq![a]);
    assert(first_pos(keys_of(sa), a) == 0);
    assert(var_level(ga.vars, a) == last);
    assert(assoc_get(sa, a) == Some((ty, OwnershipStatus::Active)));
    let sm = seq![(a, (ty, OwnershipStatus::Moved))];
    assert(assoc_put(sa, a, (ty, OwnershipStatus::Moved)) =~= sm);
    assert(gb2.vars == ga.vars.update(last, sm));
    let gb = gen_var_decl(ga, ty, b, Some(use_a), None, OwnershipStatus::Active);
    assert(keys_of(sm) =~= seq![a]);
    assert(keys_of(sm).drop_first() =~= Seq::<Seq<char>>::empty());
    assert(first_pos(keys_of(sm).drop_first(), b) == -1);
    assert(first_pos(keys_of(sm), b) == -1);
    let sb = seq![(a, (ty, OwnershipStatus::Moved)), (b, (ty, OwnershipStatus::Active))];
    assert(assoc_put(sm, b, (ty, OwnershipStatus::Active)) =~= sb);
    assert(gb.vars == gb2.vars.update(last, sb));
    assert(gen_stmt(ga, s2) == gb);
    assert(gen_stmts(gb, stmts, 2) == gb);
    assert(gen_stmts(ga, stmts, 1) == gb);
    assert(gen_stmts(g2, stmts, 0) == gb);
    // the end of the block
    assert(gb.vars.last() == sb);
    assert(sb.drop_last() =~= sm);
    assert(sm.drop_last() =~= empty);
    assert(scope_destroys(empty, gb.destructors) == Seq::<(Seq<char>, Seq<char>)>::empty());
    assert(scope_destroys(sm, gb.destructors) =~= Seq::<(Seq<char>, Seq<char>)>::empty());
    let list = seq![(b, ty)];
    assert(scope_destroys(sb, gb.destructors) =~= list);
    let gc = close_scope(gb);
    assert(gc.vars =~= g.vars);
    assert(list.drop_last() =~= Seq::<(Seq<char>, Seq<char>)>::empty());
    let g3 = emit_destroys(gc, list);
    assert(emit_destroys(gc, list.drop_last()) == gc);
    assert(list.last() == (b, ty));
    assert(g3 == emit(indented(gc), destroy_line((b, ty))));
    let r = gen_stmt(g, NodeV { data: StmtV::Block(stmts), span: block_span });
    assert(r == emit(indented(GenV { indent: g1.indent, ..g3 }), "}"@));
    assert(r.output =~= g.output + "{\n"@ + ind1 + ty + " "@ + a + " "@ + "= {0};\n"@ + ind1 + ty + " "@ + b + " "@
        + "= "@ + a + ";\n"@ + ind1 + destroy_line((b, ty)) + indent_text(g.indent as nat) + "}"@);
}

/// `let` is the only way to automatic destruction: in a block `{ unsafe T u; }` the plain C
/// variable `u` gets no destructor call, though its type has one.
pub proof fn law_unsafe_is_never_destroyed(g: GenV, ty: Seq<char>, u: Seq<char>, block_span: Span, u_span: Span)
    requires
        g.vars.len() >= 1,
        g.indent < usize::MAX,
    ensures
        ({
            let s1 = NodeV {
                data: StmtV::UnsafeDeclaration(VarDeclV { ty, name: u, init: None, constructor_call: None }),
                span: u_span,
            };
            let r = gen_stmt(g, NodeV { data: StmtV::Block(seq![s1]), span: block_span });
            let ind1 = indent_text((g.indent + 1) as nat);
            &&& r.output == g.output + "{\n"@ + ind1 + ty + " "@ + u + " "@ + "= {0};\n"@ + indent_text(g.indent as nat)
                + "}"@
            &&& r.vars == g.vars
        }),
{
    let s1 = NodeV {
        data: StmtV::UnsafeDeclaration(VarDeclV { ty, name: u, init: None, constructor_call: None }),
        span: u_span,
    };
    let stmts = seq![s1];
    let ind1 = indent_text((g.indent + 1) as nat);
    let g1 = emit(g, "{\n"@);
    let g2 = open_scope(GenV { indent: inc(g1.indent), ..g1 });
    assert(g2.indent == g.indent + 1);
    let empty = Seq::<VarEntry>::empty();
    assert(g2.vars.last() == empty);
    let gu = gen_var_decl(g2, ty, u, None, None, OwnershipStatus::Unmanaged);
    assert(first_pos(keys_of(empty), u) == -1);
    let su = seq![(u, (ty, OwnershipStatus::Unmanaged))];
    assert(assoc_put(empty, u, (ty, OwnershipStatus::Unmanaged)) =~= su);
    assert(gu.vars == g2.vars.update(g2.vars.len() - 1, su));
    assert(gu.output == g2.output + ind1 + (ty + " "@ + u + " "@) + "= {0};\n"@);
    assert(gen_stmt(g2, s1) == gu);
    assert(gen_stmts(gu, stmts, 1) == gu);
    assert(gen_stmts(g2, stmts, 0) == gu);
    assert(gu.vars.last() == su);
    assert(su.drop_last() =~= empty);
    assert(scope_destroys(empty, gu.destructors) == Seq::<(Seq<char>, Seq<char>)>::empty());
    let none = Seq::<(Seq<char>, Seq<char>)>::empty();
    assert(scope_destroys(su, gu.destructors) =~= none);
    let gc = close_scope(gu);
    assert(gc.vars =~= g.vars);
    assert(emit_destroys(gc, none) == gc);
    let r = gen_stmt(g, NodeV { data: StmtV::Block(stmts), span: block_span });
    assert(r == emit(indented(GenV { indent: g1.indent, ..gc }), "}"@));
    assert(r.output =~= g.output + "{\n"@ + ind1 + ty + " "@ + u + " "@ + "= {0};\n"@ + indent_text(g.indent as nat) + "}"@);
}

/// A returned value moves out to the caller: in a block `{ let T r; let T s; return s; }` of a
/// type with a destructor, only `r` is destroyed, once, before the `return`; `s` is never
/// destroyed. (Live variables of the enclosing scopes would be destroyed too; here there are none.)
pub proof fn law_return_moves_out(
    g: GenV,
    ty: Seq<char>,
    r: Seq<char>,
    s: Seq<char>,
    block_span: Span,
    r_span: Span,
    s_span: Span,
    ret_span: Span,
    use_span: Span,
)
    requires
        g.vars.len() >= 1,
        g.destructors.contains(ty),
        g.indent < usize::MAX,
        r != s,
        return_destroys(g.vars, g.destructors) == Seq::<(Seq<char>, Seq<char>)>::empty(),
    ensures
        ({
            let s1 = NodeV {
                data: StmtV::LetDeclaration(VarDeclV { ty, name: r, init: None, constructor_call: None }),
                span: r_span,
            };
            let s2 = NodeV {
                data: StmtV::LetDeclaration(VarDeclV { ty, name: s, init: None, constructor_call: None }),
                span: s_span,
            };
            let s3 = NodeV { data: StmtV::Return(Some(NodeV { data: ExprV::Identifier(s), span: use_span })), span: ret_span };
            let out = gen_stmt(g, NodeV { data: StmtV::Block(seq![s1, s2, s3]), span: block_span });
            let ind1 = indent_text((g.indent + 1) as nat);
            &&& out.output == g.output + "{\n"@ + ind1 + ty + " "@ + r + " "@ + "= {0};\n"@ + ind1 + ty + " "@ + s
                + " "@ + "= {0};\n"@ + ind1 + destroy_line((r, ty)) + ind1 + "return"@ + " "@ + s + ";\n"@
                + indent_text(g.indent as nat) + "}"@
            &&& out.vars == g.vars
        }),
{
    let s1 = NodeV {
        data: StmtV::LetDeclaration(VarDeclV { ty, name: r, init: None, constructor_call: None }),
        span: r_span,
    };
    let s2 = NodeV {
        data: StmtV::LetDeclaration(VarDeclV { ty, name: s, init: None, constructor_call: None }),
        span: s_span,
    };
    let use_s = NodeV { data: ExprV::Identifier(s), span: use_span };
    let s3 = NodeV { data: StmtV::Return(Some(use_s)), span: ret_span };
    let stmts = seq![s1, s2, s3];
    let ind1 = indent_text((g.indent + 1) as nat);
    let g1 = emit(g, "{\n"@);
    let g2 = open_scope(GenV { indent: inc(g1.indent), ..g1 });
    assert(g2.indent == g.indent + 1);
    let empty = Seq::<VarEntry>::empty();
    assert(g2.vars.last() == empty);
    let last = g2.vars.len() - 1;
    // `let T r;`
    let ga = gen_var_decl(g2, ty, r, None, None, OwnershipStatus::Active);
    assert(first_pos(keys_of(empty), r) == -1);
    let sa = seq![(r, (ty, OwnershipStatus::Active))];
    assert(assoc_put(empty, r, (ty, OwnershipStatus::Active)) =~= sa);
    assert(ga.vars == g2.vars.update(last, sa));
    assert(gen_stmt(g2, s1) == ga);
    // `let T s;`
    let gb = gen_var_decl(ga, ty, s, None, None, OwnershipStatus::Active);
    assert(keys_of(sa) =~= seq![r]);
    assert(keys_of(sa).drop_first() =~= Seq::<Seq<char>>::empty());
    assert(first_pos(keys_of(sa).drop_first(), s) == -1);
    assert(first_pos(keys_of(sa), s) == -1);
    let sb = seq![(r, (ty, OwnershipStatus::Active)), (s, (ty, OwnershipStatus::Active))];
    assert(assoc_put(sa, s, (ty, OwnershipStatus::Active)) =~= sb);
    assert(gb.vars == ga.vars.update(last, sb));
    assert(gen_stmt(ga, s2) == gb);
    // `return s;`: `s` moves out first
    let g0 = moved_if_ident(gb, use_s);
    assert(keys_of(sb) =~= seq![r, s]);
    assert(keys_of(sb).drop_first() =~= seq![s]);
    assert(first_pos(keys_of(sb).drop_first(), s) == 0);
    assert(first_pos(keys_of(sb), s) == 1);
    assert(var_level(gb.vars, s) == last);
    assert(assoc_get(sb, s) == Some((ty, OwnershipStatus::Active)));
    let sc = seq![(r, (ty, OwnershipStatus::Active)), (s, (ty, OwnershipStatus::Moved))];
    assert(assoc_put(sb, s, (ty, OwnershipStatus::Moved)) =~= sc);
    assert(g0.vars == gb.vars.update(last, sc));
    assert(g0.vars.drop_last() =~= g.vars);
    assert(sc.drop_last() =~= sa);
    assert(sa.drop_last() =~= empty);
    assert(scope_destroys(empty, g0.destructors) == Seq::<(Seq<char>, Seq<char>)>::empty());
    assert(scope_destroys(sa, g0.destructors) =~= seq![(r, ty)]);
    assert(scope_destroys(sc, g0.destructors) =~= seq![(r, ty)]);
    let list = seq![(r, ty)];
    assert(return_destroys(g0.vars, g0.destructors) =~= list);
    assert(list.drop_last() =~= Seq::<(Seq<char>, Seq<char>)>::empty());
    assert(emit_return_destroys(g0, list.drop_last()) == g0);
    let gd = emit(indented(g0), destroy_line((r, ty)));
    assert(keys_of(sc) =~= seq![r, s]);
    assert(first_pos(keys_of(sc), r) == 0);
    assert(var_level(gd.vars, r) == last);
    assert(assoc_get(sc, r) == Some((ty, OwnershipStatus::Active)));
    let sd = seq![(r, (ty, OwnershipStatus::Moved)), (s, (ty, OwnershipStatus::Moved))];
    assert(assoc_put(sc, r, (ty, OwnershipStatus::Moved)) =~= sd);
    let ge = emit_return_destroys(g0, list);
    assert(ge.vars == g0.vars.update(last, sd));
    let gf = emit(indented(ge), "return"@);
    assert(translate(gf, use_s) == (gf, s));
    let gr = emit(emit(gf, " "@ + s), ";\n"@);
    assert(gen_stmt(gb, s3) == gr);
    assert(gen_stmts(gr, stmts, 3) == gr);
    assert(gen_stmts(gb, stmts, 2) == gr);
    assert(gen_stmts(ga, stmts, 1) == gr);
    assert(gen_stmts(g2, stmts, 0) == gr);
    // the end of the block: nothing left to destroy
    assert(gr.vars.last() == sd);
    assert(sd.drop_last() =~= seq![(r, (ty, OwnershipStatus::Moved))]);
    assert(seq![(r, (ty, OwnershipStatus::Moved))].drop_last() =~= empty);
    let none = Seq::<(Seq<char>, Seq<char>)>::empty();
    assert(scope_destroys(seq![(r, (ty, OwnershipStatus::Moved))], gr.destructors) =~= none);
    assert(scope_destroys(sd, gr.destructors) =~= none);
    let gc = close_scope(gr);
    assert(gc.vars =~= g.vars);
    assert(emit_destroys(gc, none) == gc);
    let out = gen_stmt(g, NodeV { data: StmtV::Block(stmts), span: block_span });
    assert(out == emit(indented(GenV { indent: g1.indent, ..gc }), "}"@));
    assert(out.output =~= g.output + "{\n"@ + ind1 + ty + " "@ + r + " "@ + "= {0};\n"@ + ind1 + ty + " "@ + s
        + " "@ + "= {0};\n"@ + ind1 + destroy_line((r, ty)) + ind1 + "return"@ + " "@ + s + ";\n"@
        + indent_text(g.indent as nat) + "}"@);
}

/// The generator's tables (structs, bound functions, the variables of a scope) hold each name
/// at most once: recording a name keeps that so.
pub proof fn law_assoc_put_keeps_names_unique<V>(s: Seq<(Seq<char>, V)>, k: Seq<char>, v: V)
    requires
        keys_of(s).no_duplicates(),
    ensures
        keys_of(assoc_put(s, k, v)).no_duplicates(),
{
    lemma_first_pos(keys_of(s), k);
    let t = assoc_put(s, k, v);
    if first_pos(keys_of(s), k) >= 0 {
        assert(keys_of(t) =~= keys_of(s));
    } else {
        assert(keys_of(t) =~= keys_of(s).push(k));
    }
}

} // verus!
