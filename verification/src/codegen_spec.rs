//! The model of C generation: the text produced for each construct, as a function of
//! the generator's state and of the syntax tree.
use vstd::prelude::*;
use crate::ast::{
    ExprV, ExprNodeV, StmtV, StmtNodeV, FieldV, FunctionDefV, ForkOpV, BindOpV, AliasDeclV,
};
use crate::codegen::OwnershipStatus;
use crate::text::decimal;

verus! {

/// A variable known to the generator: its name, its declared type and its status.
pub type VarEntry = (Seq<char>, (Seq<char>, OwnershipStatus));

/// The generator's state.
pub struct GenV {
    pub output: Seq<char>,
    pub spawn_decls: Seq<char>,
    pub spawn_funcs: Seq<char>,
    pub indent: usize,
    /// Struct names with their fields, in the order first registered.
    pub structs: Seq<(Seq<char>, Seq<FieldV>)>,
    /// Struct names with their bound functions, each under the name it is generated as.
    pub binds: Seq<(Seq<char>, Seq<(Seq<char>, FunctionDefV)>)>,
    /// The variable scopes, innermost last.
    pub vars: Seq<Seq<VarEntry>>,
    /// The structs that have a destructor.
    pub destructors: Seq<Seq<char>>,
    pub spawns: usize,
}

// ---------------------------------------------------------------------------
// Association lists keyed by name.
// ---------------------------------------------------------------------------

/// The first position of `k` in `keys`, or -1.
pub open spec fn first_pos(keys: Seq<Seq<char>>, k: Seq<char>) -> int
    decreases keys.len(),
{
    if keys.len() == 0 {
        -1
    } else if keys[0] == k {
        0
    } else {
        let r = first_pos(keys.drop_first(), k);
        if r < 0 { -1 } else { r + 1 }
    }
}

pub proof fn lemma_first_pos(keys: Seq<Seq<char>>, k: Seq<char>)
    ensures
        -1 <= first_pos(keys, k) < keys.len(),
        first_pos(keys, k) == -1 <==> forall|j: int| 0 <= j < keys.len() ==> keys[j] != k,
        first_pos(keys, k) >= 0 ==> keys[first_pos(keys, k)] == k
            && forall|j: int| 0 <= j < first_pos(keys, k) ==> keys[j] != k,
    decreases keys.len(),
{
    if keys.len() > 0 {
        lemma_first_pos(keys.drop_first(), k);
        if keys[0] != k {
            assert forall|j: int| 1 <= j < keys.len() implies keys[j] == keys.drop_first()[j - 1] by {}
        }
    }
}

pub open spec fn keys_of<V>(s: Seq<(Seq<char>, V)>) -> Seq<Seq<char>> {
    Seq::new(s.len(), |i: int| s[i].0)
}

pub open spec fn assoc_get<V>(s: Seq<(Seq<char>, V)>, k: Seq<char>) -> Option<V> {
    let p = first_pos(keys_of(s), k);
    if p >= 0 { Some(s[p].1) } else { None }
}

/// Sets the value of `k`: in place where `k` is, else as a new last entry.
pub open spec fn assoc_put<V>(s: Seq<(Seq<char>, V)>, k: Seq<char>, v: V) -> Seq<(Seq<char>, V)> {
    let p = first_pos(keys_of(s), k);
    if p >= 0 { s.update(p, (k, v)) } else { s.push((k, v)) }
}

/// The entries whose key is not `k`, in order.
pub open spec fn drop_key<V>(s: Seq<(Seq<char>, V)>, k: Seq<char>) -> Seq<(Seq<char>, V)>
    decreases s.len(),
{
    if s.len() == 0 {
        s
    } else {
        let r = drop_key(s.drop_last(), k);
        if s.last().0 == k { r } else { r.push(s.last()) }
    }
}

/// The fields not named `k`, in order.
pub open spec fn drop_field(s: Seq<FieldV>, k: Seq<char>) -> Seq<FieldV>
    decreases s.len(),
{
    if s.len() == 0 {
        s
    } else {
        let r = drop_field(s.drop_last(), k);
        if s.last().name == k { r } else { r.push(s.last()) }
    }
}

/// The position of the field named `k`, or -1.
pub open spec fn field_pos(fields: Seq<FieldV>, k: Seq<char>) -> int {
    first_pos(Seq::new(fields.len(), |i: int| fields[i].name), k)
}

// ---------------------------------------------------------------------------
// Variables.
// ---------------------------------------------------------------------------

/// The index of the innermost scope that holds `k`, or -1.
pub open spec fn var_level(vars: Seq<Seq<VarEntry>>, k: Seq<char>) -> int
    decreases vars.len(),
{
    if vars.len() == 0 {
        -1
    } else if first_pos(keys_of(vars.last()), k) >= 0 {
        vars.len() - 1
    } else {
        var_level(vars.drop_last(), k)
    }
}

pub proof fn lemma_var_level(vars: Seq<Seq<VarEntry>>, k: Seq<char>)
    ensures
        -1 <= var_level(vars, k) < vars.len(),
        var_level(vars, k) >= 0 ==> first_pos(keys_of(vars[var_level(vars, k)]), k) >= 0,
        forall|j: int| var_level(vars, k) < j < vars.len() ==> first_pos(keys_of(#[trigger] vars[j]), k) < 0,
    decreases vars.len(),
{
    if vars.len() > 0 && first_pos(keys_of(vars.last()), k) < 0 {
        lemma_var_level(vars.drop_last(), k);
        assert forall|j: int| var_level(vars, k) < j < vars.len() implies first_pos(keys_of(#[trigger] vars[j]), k) < 0 by {
            if j < vars.len() - 1 {
                assert(vars[j] == vars.drop_last()[j]);
            }
        }
    }
}

/// The type and status of the innermost variable named `k`.
pub open spec fn var_info(vars: Seq<Seq<VarEntry>>, k: Seq<char>) -> Option<(Seq<char>, OwnershipStatus)> {
    let l = var_level(vars, k);
    if l >= 0 { assoc_get(vars[l], k) } else { None }
}

/// Marks the innermost variable named `k` as moved.
pub open spec fn set_moved(vars: Seq<Seq<VarEntry>>, k: Seq<char>) -> Seq<Seq<VarEntry>> {
    let l = var_level(vars, k);
    if l >= 0 {
        let info = assoc_get(vars[l], k)->0;
        vars.update(l, assoc_put(vars[l], k, (info.0, OwnershipStatus::Moved)))
    } else {
        vars
    }
}

// ---------------------------------------------------------------------------
// Text.
// ---------------------------------------------------------------------------

pub open spec fn ends_star(s: Seq<char>) -> bool {
    s.len() > 0 && s.last() == '*'
}

/// `s` without its trailing `*`s.
pub open spec fn trim_stars(s: Seq<char>) -> Seq<char>
    decreases s.len(),
{
    if s.len() > 0 && s.last() == '*' { trim_stars(s.drop_last()) } else { s }
}

/// Four spaces per level.
pub open spec fn indent_text(n: nat) -> Seq<char>
    decreases n,
{
    if n == 0 { Seq::empty() } else { indent_text((n - 1) as nat) + "    "@ }
}

/// The parts, separated by `sep`.
pub open spec fn join(parts: Seq<Seq<char>>, sep: Seq<char>) -> Seq<char>
    decreases parts.len(),
{
    if parts.len() == 0 {
        Seq::empty()
    } else if parts.len() == 1 {
        parts[0]
    } else {
        join(parts.drop_last(), sep) + sep + parts.last()
    }
}

/// Every non-overlapping occurrence of `pat`, from the left, replaced by `rep`.
pub open spec fn replace_all(s: Seq<char>, pat: Seq<char>, rep: Seq<char>) -> Seq<char>
    decreases s.len(),
{
    if pat.len() == 0 || s.len() < pat.len() {
        s
    } else if s.take(pat.len() as int) == pat {
        rep + replace_all(s.skip(pat.len() as int), pat, rep)
    } else {
        seq![s[0]] + replace_all(s.skip(1), pat, rep)
    }
}

pub open spec fn unknown_type() -> Seq<char> {
    "Unknown"@
}

pub open spec fn header_text() -> Seq<char> {
    "#include <stdio.h>\n#include <stdlib.h>\n#include <string.h>\n#include <stdbool.h>\n#include <pthread.h>\n\n"@
}

pub open spec fn spawn_marker() -> Seq<char> {
    "/*SPAWN_DECLS*/"@
}

// ---------------------------------------------------------------------------
// State steps.
// ---------------------------------------------------------------------------

pub open spec fn emit(g: GenV, s: Seq<char>) -> GenV {
    GenV { output: g.output + s, ..g }
}

pub open spec fn indented(g: GenV) -> GenV {
    emit(g, indent_text(g.indent as nat))
}

/// One more level, short of `usize::MAX`.
pub open spec fn inc(x: usize) -> usize {
    if x < usize::MAX { (x + 1) as usize } else { x }
}

pub open spec fn moved(g: GenV, k: Seq<char>) -> GenV {
    GenV { vars: set_moved(g.vars, k), ..g }
}

/// An identifier handed over by value is moved.
pub open spec fn moved_if_ident(g: GenV, e: ExprNodeV) -> GenV {
    match e.data {
        ExprV::Identifier(n) => moved(g, n),
        _ => g,
    }
}

/// Records `k` with its type and status in the innermost scope.
pub open spec fn put_var(g: GenV, k: Seq<char>, ty: Seq<char>, st: OwnershipStatus) -> GenV {
    if g.vars.len() > 0 {
        GenV { vars: g.vars.update(g.vars.len() - 1, assoc_put(g.vars.last(), k, (ty, st))), ..g }
    } else {
        g
    }
}

pub open spec fn put_params(g: GenV, ps: Seq<(Seq<char>, Seq<char>)>) -> GenV
    decreases ps.len(),
{
    if ps.len() == 0 {
        g
    } else {
        put_var(put_params(g, ps.drop_last()), ps.last().1, ps.last().0, OwnershipStatus::Active)
    }
}

pub open spec fn open_scope(g: GenV) -> GenV {
    GenV { vars: g.vars.push(Seq::empty()), ..g }
}

pub open spec fn close_scope(g: GenV) -> GenV {
    GenV { vars: g.vars.drop_last(), ..g }
}

// ---------------------------------------------------------------------------
// Expressions.
// ---------------------------------------------------------------------------

/// The type of an expression, without trailing `*`s, and whether it is reached through a pointer.
pub open spec fn type_info(g: GenV, e: ExprNodeV) -> (Seq<char>, bool)
    decreases e,
{
    match e.data {
        ExprV::Identifier(name) => match var_info(g.vars, name) {
            Some(info) => (trim_stars(info.0), ends_star(info.0) || info.1 is Alias),
            None => (unknown_type(), false),
        },
        ExprV::MemberAccess { receiver, member, .. } => {
            let base = type_info(g, *receiver).0;
            match assoc_get(g.structs, base) {
                Some(fields) => {
                    let p = field_pos(fields, member);
                    if p >= 0 {
                        (trim_stars(fields[p].ty), ends_star(fields[p].ty))
                    } else {
                        (unknown_type(), false)
                    }
                },
                None => (unknown_type(), false),
            }
        },
        _ => (unknown_type(), false),
    }
}

/// The C text of an expression; identifiers handed over by value are marked moved.
pub open spec fn translate(g: GenV, e: ExprNodeV) -> (GenV, Seq<char>)
    decreases e, 0int,
{
    match e.data {
        ExprV::Identifier(n) => (g, n),
        ExprV::Number(n) => (g, n),
        ExprV::StringLiteral(s) => (g, seq!['"'] + s + seq!['"']),
        ExprV::BinaryOp(l, op, r) => {
            let (g1, ls) = translate(g, *l);
            let (g2, rs) = translate(g1, *r);
            if op == " "@ {
                (g2, ls + " "@ + rs)
            } else if op == "="@ || op == "+="@ || op == "-="@ {
                (moved_if_ident(g2, *r), ls + " "@ + op + " "@ + rs)
            } else {
                (g2, "("@ + ls + ") "@ + op + " ("@ + rs + ")"@)
            }
        },
        ExprV::Assignment(name, val) => {
            let (g1, vs) = translate(g, *val);
            (moved_if_ident(g1, *val), name + " = "@ + vs)
        },
        ExprV::UnaryOp(op, x, postfix) => {
            let (g1, xs) = translate(g, *x);
            (g1, if postfix { xs + op } else { op + xs })
        },
        ExprV::Call(name, args) => {
            let (g1, parts) = translate_args(g, args, 0);
            (g1, name + "("@ + join(parts, ", "@) + ")"@)
        },
        ExprV::MethodCall { receiver, method, args } => {
            let (ty, is_ptr) = type_info(g, *receiver);
            let (g1, raw) = translate(g, *receiver);
            let self_arg = if is_ptr { raw } else { "&"@ + raw };
            if method == "clone"@ {
                (g1, ty + "_clone("@ + self_arg + ")"@)
            } else {
                let (g2, parts) = translate_args(g1, args, 0);
                (g2, ty + "_"@ + method + "("@ + join(seq![self_arg] + parts, ", "@) + ")"@)
            }
        },
        ExprV::MemberAccess { receiver, member, is_ptr: forced } => {
            let p = type_info(g, *receiver).1;
            let (g1, raw) = translate(g, *receiver);
            (g1, raw + (if p || forced { "->"@ } else { "."@ }) + member)
        },
    }
}

/// The arguments from `i` on, each translated and, if an identifier, moved.
pub open spec fn translate_args(g: GenV, args: Seq<ExprNodeV>, i: int) -> (GenV, Seq<Seq<char>>)
    decreases args, args.len() - i,
{
    if i < 0 || i >= args.len() {
        (g, Seq::empty())
    } else {
        let (g1, s) = translate(g, args[i]);
        let (g2, rest) = translate_args(moved_if_ident(g1, args[i]), args, i + 1);
        (g2, seq![s] + rest)
    }
}

// ---------------------------------------------------------------------------
// Structs.
// ---------------------------------------------------------------------------

pub open spec fn field_lines(fields: Seq<FieldV>) -> Seq<char>
    decreases fields.len(),
{
    if fields.len() == 0 {
        Seq::empty()
    } else {
        field_lines(fields.drop_last()) + "    "@ + fields.last().ty + " "@ + fields.last().name + ";\n"@
    }
}

/// A field whose type is a registered struct is cloned with that struct's `_clone`.
pub open spec fn clone_lines(structs: Seq<(Seq<char>, Seq<FieldV>)>, fields: Seq<FieldV>) -> Seq<char>
    decreases fields.len(),
{
    if fields.len() == 0 {
        Seq::empty()
    } else {
        let f = fields.last();
        clone_lines(structs, fields.drop_last()) + if assoc_get(structs, f.ty) is Some {
            "    dest."@ + f.name + " = "@ + f.ty + "_clone(&source->"@ + f.name + ");\n"@
        } else {
            "    dest."@ + f.name + " = source->"@ + f.name + ";\n"@
        }
    }
}

/// The body of `_init_defaults`: a default value is assigned, other fields are zeroed.
pub open spec fn gen_defaults(g: GenV, fields: Seq<FieldV>, i: int) -> GenV
    decreases fields.len() - i,
{
    if i < 0 || i >= fields.len() {
        g
    } else {
        let f = fields[i];
        let g1 = match f.default_value {
            Some(v) => {
                let (ga, t) = translate(g, v);
                emit(ga, "    host->"@ + f.name + " = "@ + t + ";\n"@)
            },
            None => emit(g, "    memset(&host->"@ + f.name + ", 0, sizeof("@ + f.ty + "));\n"@),
        };
        gen_defaults(g1, fields, i + 1)
    }
}

/// A struct becomes a `typedef`, a `_clone` function and an `_init_defaults` function.
pub open spec fn gen_struct_def(g: GenV, name: Seq<char>, fields: Seq<FieldV>) -> GenV {
    let g1 = emit(
        g,
        "typedef struct "@ + name + " {\n"@ + field_lines(fields) + "} "@ + name + ";\n\n"@ + name + " "@ + name
            + "_clone(const "@ + name + "* source) {\n"@ + "    "@ + name + " dest;\n"@ + clone_lines(g.structs, fields)
            + "    return dest;\n"@ + "}\n\n"@ + "void "@ + name + "_init_defaults("@ + name + "* host) {\n"@,
    );
    emit(gen_defaults(g1, fields, 0), "}\n\n"@)
}

// ---------------------------------------------------------------------------
// Statements.
// ---------------------------------------------------------------------------

/// `ty name` for each parameter, separated by `, `.
pub open spec fn param_list(ps: Seq<(Seq<char>, Seq<char>)>) -> Seq<char>
    decreases ps.len(),
{
    if ps.len() == 0 {
        Seq::empty()
    } else if ps.len() == 1 {
        ps[0].0 + " "@ + ps[0].1
    } else {
        param_list(ps.drop_last()) + ", "@ + ps.last().0 + " "@ + ps.last().1
    }
}

/// `, ty name` for each parameter.
pub open spec fn param_tail(ps: Seq<(Seq<char>, Seq<char>)>) -> Seq<char>
    decreases ps.len(),
{
    if ps.len() == 0 { Seq::empty() } else { param_tail(ps.drop_last()) + ", "@ + ps.last().0 + " "@ + ps.last().1 }
}

/// The live variables of a scope that have a destructor, last declared first.
pub open spec fn scope_destroys(s: Seq<VarEntry>, dtors: Seq<Seq<char>>) -> Seq<(Seq<char>, Seq<char>)>
    decreases s.len(),
{
    if s.len() == 0 {
        Seq::empty()
    } else {
        let e = s.last();
        (if e.1.1 == OwnershipStatus::Active && dtors.contains(e.1.0) { seq![(e.0, e.1.0)] } else { Seq::empty() })
            + scope_destroys(s.drop_last(), dtors)
    }
}

/// The live variables with a destructor in every scope, innermost scope first.
pub open spec fn return_destroys(vars: Seq<Seq<VarEntry>>, dtors: Seq<Seq<char>>) -> Seq<(Seq<char>, Seq<char>)>
    decreases vars.len(),
{
    if vars.len() == 0 {
        Seq::empty()
    } else {
        scope_destroys(vars.last(), dtors) + return_destroys(vars.drop_last(), dtors)
    }
}

pub open spec fn destroy_line(v: (Seq<char>, Seq<char>)) -> Seq<char> {
    v.1 + "_destroy(&"@ + v.0 + ");\n"@
}

/// One indented destructor call per variable.
pub open spec fn emit_destroys(g: GenV, list: Seq<(Seq<char>, Seq<char>)>) -> GenV
    decreases list.len(),
{
    if list.len() == 0 { g } else { emit(indented(emit_destroys(g, list.drop_last())), destroy_line(list.last())) }
}

/// Before a `return`: one destructor call per variable, each then counted as moved.
pub open spec fn emit_return_destroys(g: GenV, list: Seq<(Seq<char>, Seq<char>)>) -> GenV
    decreases list.len(),
{
    if list.len() == 0 {
        g
    } else {
        moved(emit(indented(emit_return_destroys(g, list.drop_last())), destroy_line(list.last())), list.last().0)
    }
}

/// The constructor arguments from `i` on, each after `, `.
pub open spec fn ctor_args(g: GenV, args: Seq<ExprNodeV>, i: int) -> GenV
    decreases args.len() - i,
{
    if i < 0 || i >= args.len() {
        g
    } else {
        let (g1, t) = translate(g, args[i]);
        ctor_args(moved_if_ident(emit(g1, ", "@ + t), args[i]), args, i + 1)
    }
}

pub open spec fn bound_c_name(sname: Seq<char>, fname: Seq<char>) -> Seq<char> {
    if fname == sname {
        sname + "_init"@
    } else if fname == "destroy"@ {
        sname + "_destroy"@
    } else {
        sname + "_"@ + fname
    }
}

/// A bound function becomes a C function whose first parameter is `host`.
pub open spec fn gen_bound_fn(g: GenV, sname: Seq<char>, fname: Seq<char>, f: FunctionDefV) -> GenV
    decreases f, 0int,
{
    let g1 = emit(g, f.return_ty + " "@ + bound_c_name(sname, fname) + "("@ + sname + "* host"@ + param_tail(f.params) + ") "@);
    let g2 = put_var(open_scope(g1), "host"@, sname + "*"@, OwnershipStatus::Active);
    let g3 = gen_stmt(put_params(g2, f.params), *f.body);
    emit(close_scope(g3), "\n\n"@)
}

pub open spec fn gen_bound_fns(g: GenV, sname: Seq<char>, fs: Seq<FunctionDefV>, i: int) -> GenV
    decreases fs, fs.len() - i,
{
    if i < 0 || i >= fs.len() {
        g
    } else {
        gen_bound_fns(gen_bound_fn(g, sname, fs[i].name, fs[i]), sname, fs, i + 1)
    }
}

pub open spec fn gen_stmts(g: GenV, s: Seq<StmtNodeV>, i: int) -> GenV
    decreases s, s.len() - i,
{
    if i < 0 || i >= s.len() {
        g
    } else {
        gen_stmts(gen_stmt(g, s[i]), s, i + 1)
    }
}

pub open spec fn gen_opt_expr(g: GenV, e: Option<ExprNodeV>) -> GenV {
    match e {
        Some(x) => {
            let (g1, t) = translate(g, x);
            emit(g1, t)
        },
        None => g,
    }
}

/// The C text of one statement.
pub open spec fn gen_stmt(g: GenV, n: StmtNodeV) -> GenV
    decreases n, 0int,
{
    match n.data {
        StmtV::StructDef(d) => gen_struct_def(g, d.name, d.fields),
        StmtV::BindBlock(b) => gen_bound_fns(g, b.struct_name, b.functions, 0),
        StmtV::FunctionDef(f) => {
            let g1 = emit(g, f.return_ty + " "@ + f.name + "("@ + param_list(f.params) + ") "@);
            let g2 = gen_stmt(put_params(open_scope(g1), f.params), *f.body);
            emit(close_scope(g2), "\n\n"@)
        },
        StmtV::Block(stmts) => {
            let g1 = emit(g, "{\n"@);
            let g2 = gen_stmts(open_scope(GenV { indent: inc(g1.indent), ..g1 }), stmts, 0);
            let g3 = emit_destroys(close_scope(g2), scope_destroys(g2.vars.last(), g2.destructors));
            emit(indented(GenV { indent: g1.indent, ..g3 }), "}"@)
        },
        StmtV::LetDeclaration(d) => gen_var_decl(g, d.ty, d.name, d.init, d.constructor_call, OwnershipStatus::Active),
        StmtV::UnsafeDeclaration(d) => gen_var_decl(g, d.ty, d.name, d.init, d.constructor_call, OwnershipStatus::Unmanaged),
        StmtV::AliasDeclaration(d) => gen_alias(g, d),
        StmtV::Return(e) => gen_return(g, e),
        StmtV::Expression(e) => {
            let (g1, t) = translate(indented(g), e);
            emit(g1, t + ";\n"@)
        },
        StmtV::If { condition, then_branch, else_branch } => {
            let (g1, c) = translate(indented(g), condition);
            let g2 = gen_stmt(emit(g1, "if ("@ + c + ") "@), *then_branch);
            let g3 = match else_branch {
                Some(eb) => gen_stmt(emit(g2, " else "@), *eb),
                None => g2,
            };
            emit(g3, "\n"@)
        },
        StmtV::For { init, condition, step, body } => {
            let g1 = emit(indented(g), "for ("@);
            let g2 = match init {
                Some(s) => match s.data {
                    StmtV::LetDeclaration(d) => gen_for_decl(g1, d.ty, d.name, d.init, OwnershipStatus::Active),
                    StmtV::UnsafeDeclaration(d) => gen_for_decl(g1, d.ty, d.name, d.init, OwnershipStatus::Unmanaged),
                    StmtV::Expression(x) => gen_opt_expr(g1, Some(x)),
                    _ => g1,
                },
                None => g1,
            };
            let g3 = gen_opt_expr(emit(g2, "; "@), condition);
            let g4 = gen_opt_expr(emit(g3, "; "@), step);
            emit(gen_stmt(emit(g4, ") "@), *body), "\n"@)
        },
        StmtV::While { condition, body } => {
            let (g1, c) = translate(indented(g), condition);
            emit(gen_stmt(emit(g1, "while ("@ + c + ") "@), *body), "\n"@)
        },
        StmtV::RawC(c) => emit(emit(g, c), "\n"@),
        StmtV::Spawn(f, args) => gen_spawn(g, f, args),
        StmtV::ForkBlock(_) => g,
    }
}

/// An alias is a pointer to its source: `const` unless the alias is `mut`.
pub open spec fn gen_alias(g: GenV, d: AliasDeclV) -> GenV {
    let text = if d.is_mut {
        d.ty + "* "@ + d.name + " = &"@ + d.source + ";\n"@
    } else {
        "const "@ + d.ty + "* "@ + d.name + " = &"@ + d.source + ";\n"@
    };
    put_var(emit(indented(g), text), d.name, d.ty, OwnershipStatus::Alias { is_mut: d.is_mut })
}

/// A returned variable moves out to the caller; before the `return`, every other live
/// variable with a destructor is destroyed.
pub open spec fn gen_return(g: GenV, e: Option<ExprNodeV>) -> GenV {
    let g0 = match e {
        Some(x) => moved_if_ident(g, x),
        None => g,
    };
    let g1 = emit(indented(emit_return_destroys(g0, return_destroys(g0.vars, g0.destructors))), "return"@);
    let g2 = match e {
        Some(x) => {
            let (ga, t) = translate(g1, x);
            emit(ga, " "@ + t)
        },
        None => g1,
    };
    emit(g2, ";\n"@)
}

/// A `let` or `unsafe` declaration: the C declaration, then the constructor calls. A `let`
/// variable is recorded as an owner (`Active`), an `unsafe` one as `Unmanaged`.
pub open spec fn gen_var_decl(
    g: GenV,
    ty: Seq<char>,
    name: Seq<char>,
    init: Option<ExprNodeV>,
    ctor: Option<crate::ast::CtorCallV>,
    st: OwnershipStatus,
) -> GenV {
    let g1 = emit(indented(g), ty + " "@ + name + " "@);
    let g2 = match init {
        Some(x) => {
            let (ga, t) = translate(g1, x);
            moved_if_ident(emit(ga, "= "@ + t + ";\n"@), x)
        },
        None => emit(g1, "= {0};\n"@),
    };
    let g3 = put_var(g2, name, ty, st);
    match ctor {
        Some(c) => {
            let g4 = emit(indented(g3), ty + "_init_defaults(&"@ + name + ");\n"@);
            let g5 = emit(indented(g4), ty + "_init(&"@ + name);
            emit(ctor_args(g5, c.args, 0), ");\n"@)
        },
        None => g3,
    }
}

/// The declaration in the head of a `for`.
pub open spec fn gen_for_decl(g: GenV, ty: Seq<char>, name: Seq<char>, init: Option<ExprNodeV>, st: OwnershipStatus) -> GenV {
    let g1 = emit(g, ty + " "@ + name + " "@);
    let g2 = match init {
        Some(x) => {
            let (ga, v) = translate(g1, x);
            emit(ga, "= "@ + v)
        },
        None => g1,
    };
    put_var(g2, name, ty, st)
}

// ---------------------------------------------------------------------------
// Threads.
// ---------------------------------------------------------------------------

/// For each argument from `i` on: its type (an identifier of unknown type stands for its own
/// type), whether it is a pointer, and its C text.
pub open spec fn spawn_infos(g: GenV, args: Seq<ExprNodeV>, i: int) -> (GenV, Seq<(Seq<char>, bool, Seq<char>)>)
    decreases args.len() - i,
{
    if i < 0 || i >= args.len() {
        (g, Seq::empty())
    } else {
        let (ty, p) = type_info(g, args[i]);
        let fty = match args[i].data {
            ExprV::Identifier(n) => if ty == unknown_type() { n } else { ty },
            _ => ty,
        };
        let (g1, v) = translate(g, args[i]);
        let (g2, rest) = spawn_infos(g1, args, i + 1);
        (g2, seq![(fty, p, v)] + rest)
    }
}

pub open spec fn star(p: bool) -> Seq<char> {
    if p { "*"@ } else { Seq::empty() }
}

pub open spec fn arg_fields(infos: Seq<(Seq<char>, bool, Seq<char>)>) -> Seq<char>
    decreases infos.len(),
{
    if infos.len() == 0 {
        Seq::empty()
    } else {
        let k = (infos.len() - 1) as nat;
        arg_fields(infos.drop_last()) + "    "@ + infos.last().0 + star(infos.last().1) + " arg"@ + decimal(k) + ";\n"@
    }
}

pub open spec fn unpack_lines(infos: Seq<(Seq<char>, bool, Seq<char>)>) -> Seq<char>
    decreases infos.len(),
{
    if infos.len() == 0 {
        Seq::empty()
    } else {
        let k = (infos.len() - 1) as nat;
        unpack_lines(infos.drop_last()) + "    "@ + infos.last().0 + star(infos.last().1) + " val"@ + decimal(k)
            + " = args->arg"@ + decimal(k) + ";\n"@
    }
}

pub open spec fn val_names(n: nat) -> Seq<Seq<char>> {
    Seq::new(n, |i: int| "val"@ + decimal(i as nat))
}

/// The wrapper destroys each argument whose type has a destructor.
pub open spec fn arg_destroy_lines(infos: Seq<(Seq<char>, bool, Seq<char>)>, dtors: Seq<Seq<char>>) -> Seq<char>
    decreases infos.len(),
{
    if infos.len() == 0 {
        Seq::empty()
    } else {
        let k = (infos.len() - 1) as nat;
        let e = infos.last();
        arg_destroy_lines(infos.drop_last(), dtors) + if dtors.contains(e.0) {
            if e.1 {
                "    "@ + e.0 + "_destroy(val"@ + decimal(k) + ");\n"@
            } else {
                "    "@ + e.0 + "_destroy(&val"@ + decimal(k) + ");\n"@
            }
        } else {
            Seq::empty()
        }
    }
}

/// The caller stores each argument, from `i` on, in the argument block.
pub open spec fn store_args(g: GenV, infos: Seq<(Seq<char>, bool, Seq<char>)>, args: Seq<ExprNodeV>, i: int) -> GenV
    decreases args.len() - i,
{
    if i < 0 || i >= args.len() || i >= infos.len() {
        g
    } else {
        let g1 = emit(indented(g), "spawn_args->arg"@ + decimal(i as nat) + " = "@ + infos[i].2 + ";\n"@);
        store_args(moved_if_ident(g1, args[i]), infos, args, i + 1)
    }
}

/// `spawn f(args)`: an argument struct and a wrapper are declared aside, and the call site
/// packs the arguments and starts a detached thread.
pub open spec fn gen_spawn(g: GenV, func: Seq<char>, args: Seq<ExprNodeV>) -> GenV {
    let id = decimal(g.spawns as nat);
    let g0 = GenV { spawns: inc(g.spawns), ..g };
    let (g1, infos) = spawn_infos(g0, args, 0);
    let sn = "_spawn_args_"@ + id;
    let wn = "_spawn_wrapper_"@ + id;
    let decls = "typedef struct "@ + sn + " {\n"@ + arg_fields(infos) + "} "@ + sn + ";\n"@ + "void* "@ + wn
        + "(void* raw_arg);\n\n"@;
    let wrapper = "void* "@ + wn + "(void* raw_arg) {\n"@ + "    "@ + sn + "* args = ("@ + sn + "*)raw_arg;\n"@
        + unpack_lines(infos) + "    free(args);\n\n"@ + "    "@ + func + "("@ + join(val_names(infos.len()), ", "@)
        + ");\n\n"@ + arg_destroy_lines(infos, g1.destructors) + "    return NULL;\n}\n\n"@;
    let g2 = GenV { spawn_decls: g1.spawn_decls + decls, spawn_funcs: g1.spawn_funcs + wrapper, ..g1 };
    let g3 = emit(indented(g2), "{\n"@);
    let g4 = GenV { indent: inc(g3.indent), ..g3 };
    let g5 = emit(indented(g4), sn + "* spawn_args = malloc(sizeof("@ + sn + "));\n"@);
    let g6 = store_args(g5, infos, args, 0);
    let g7 = emit(indented(g6), "pthread_t thread_id;\n"@);
    let g8 = emit(indented(g7), "pthread_create(&thread_id, NULL, "@ + wn + ", spawn_args);\n"@);
    let g9 = emit(indented(g8), "pthread_detach(thread_id);\n"@);
    emit(indented(GenV { indent: g3.indent, ..g9 }), "}\n"@)
}

// ---------------------------------------------------------------------------
// Registration and the whole program.
// ---------------------------------------------------------------------------

pub open spec fn named_fns(fs: Seq<FunctionDefV>) -> Seq<(Seq<char>, FunctionDefV)> {
    Seq::new(fs.len(), |i: int| (fs[i].name, fs[i]))
}

/// One entry of `sname` for each function named `destroy`.
pub open spec fn destroy_marks(fs: Seq<FunctionDefV>, sname: Seq<char>) -> Seq<Seq<char>>
    decreases fs.len(),
{
    if fs.len() == 0 {
        Seq::empty()
    } else {
        destroy_marks(fs.drop_last(), sname) + if fs.last().name == "destroy"@ { seq![sname] } else { Seq::empty() }
    }
}

/// The fields of a fork: the base's, then each operation in turn.
pub open spec fn fork_fields(base: Seq<FieldV>, ops: Seq<ForkOpV>) -> Seq<FieldV>
    decreases ops.len(),
{
    if ops.len() == 0 {
        base
    } else {
        let r = fork_fields(base, ops.drop_last());
        match ops.last() {
            ForkOpV::Add(f) => r.push(f),
            ForkOpV::Remove(n) => drop_field(r, n),
        }
    }
}

/// The base's functions, its constructor renamed after the fork.
pub open spec fn renamed(fs: Seq<(Seq<char>, FunctionDefV)>, base: Seq<char>, new_name: Seq<char>) -> Seq<(Seq<char>, FunctionDefV)> {
    Seq::new(fs.len(), |i: int| if fs[i].0 == base { (new_name, fs[i].1) } else { fs[i] })
}

/// The functions of a fork after each bind operation in turn.
pub open spec fn fork_fns(fs: Seq<(Seq<char>, FunctionDefV)>, ops: Seq<BindOpV>) -> Seq<(Seq<char>, FunctionDefV)>
    decreases ops.len(),
{
    if ops.len() == 0 {
        fs
    } else {
        let r = fork_fns(fs, ops.drop_last());
        match ops.last() {
            BindOpV::Add(f) => drop_key(r, f.name).push((f.name, f)),
            BindOpV::Remove(n) => drop_key(r, n),
            BindOpV::Patch { old_fn_name, new_fn_def } => drop_key(r, old_fn_name).push((new_fn_def.name, new_fn_def)),
        }
    }
}

/// The fork is added once to the destructors if one of its functions is `destroy`.
pub open spec fn fork_dtors(d: Seq<Seq<char>>, fs: Seq<(Seq<char>, FunctionDefV)>, name: Seq<char>) -> Seq<Seq<char>>
    decreases fs.len(),
{
    if fs.len() == 0 {
        d
    } else {
        let d1 = fork_dtors(d, fs.drop_last(), name);
        if fs.last().0 == "destroy"@ && !d1.contains(name) { d1.push(name) } else { d1 }
    }
}

/// What a top-level statement contributes to the registries.
pub open spec fn pre_register(g: GenV, s: StmtV) -> GenV {
    match s {
        StmtV::StructDef(d) => GenV { structs: assoc_put(g.structs, d.name, d.fields), ..g },
        StmtV::BindBlock(b) => GenV {
            binds: assoc_put(g.binds, b.struct_name, named_fns(b.functions)),
            destructors: g.destructors + destroy_marks(b.functions, b.struct_name),
            ..g
        },
        StmtV::ForkBlock(f) => match assoc_get(g.structs, f.base_name) {
            None => g,
            Some(base) => {
                let structs = assoc_put(g.structs, f.new_name, fork_fields(base, f.operations));
                let inherited = match assoc_get(g.binds, f.base_name) {
                    Some(fs) => renamed(fs, f.base_name, f.new_name),
                    None => Seq::empty(),
                };
                let funcs = fork_fns(inherited, f.bind_ops);
                GenV {
                    structs,
                    binds: assoc_put(g.binds, f.new_name, funcs),
                    destructors: fork_dtors(g.destructors, funcs, f.new_name),
                    ..g
                }
            },
        },
        _ => g,
    }
}

pub open spec fn pre_register_all(g: GenV, ast: Seq<StmtNodeV>) -> GenV
    decreases ast.len(),
{
    if ast.len() == 0 { g } else { pre_register(pre_register_all(g, ast.drop_last()), ast.last().data) }
}

/// The structs to emit, in program order: each struct definition, and each fork that was registered.
pub open spec fn structs_to_gen(structs: Seq<(Seq<char>, Seq<FieldV>)>, ast: Seq<StmtNodeV>) -> Seq<(Seq<char>, Seq<FieldV>)>
    decreases ast.len(),
{
    if ast.len() == 0 {
        Seq::empty()
    } else {
        let r = structs_to_gen(structs, ast.drop_last());
        match ast.last().data {
            StmtV::StructDef(d) => r.push((d.name, d.fields)),
            StmtV::ForkBlock(f) => match assoc_get(structs, f.new_name) {
                Some(fields) => r.push((f.new_name, fields)),
                None => r,
            },
            _ => r,
        }
    }
}

pub open spec fn gen_structs(g: GenV, list: Seq<(Seq<char>, Seq<FieldV>)>) -> GenV
    decreases list.len(),
{
    if list.len() == 0 { g } else { gen_struct_def(gen_structs(g, list.drop_last()), list.last().0, list.last().1) }
}

pub open spec fn gen_fork_fns(g: GenV, sname: Seq<char>, fs: Seq<(Seq<char>, FunctionDefV)>) -> GenV
    decreases fs.len(),
{
    if fs.len() == 0 { g } else { gen_bound_fn(gen_fork_fns(g, sname, fs.drop_last()), sname, fs.last().0, fs.last().1) }
}

/// Code for every top-level statement but struct definitions; a fork yields its functions.
pub open spec fn gen_body(g: GenV, ast: Seq<StmtNodeV>) -> GenV
    decreases ast.len(),
{
    if ast.len() == 0 {
        g
    } else {
        let g1 = gen_body(g, ast.drop_last());
        match ast.last().data {
            StmtV::StructDef(_) => g1,
            StmtV::ForkBlock(f) => match assoc_get(g1.binds, f.new_name) {
                Some(fs) => gen_fork_fns(g1, f.new_name, fs),
                None => g1,
            },
            _ => gen_stmt(g1, ast.last()),
        }
    }
}

/// The translation of a whole program, and the generator's state after it.
pub open spec fn generate(g: GenV, ast: Seq<StmtNodeV>) -> (Seq<char>, GenV) {
    let g1 = pre_register_all(emit(g, header_text()), ast);
    let g2 = gen_structs(g1, structs_to_gen(g1.structs, ast));
    let g3 = gen_body(emit(g2, spawn_marker() + "\n\n"@), ast);
    (replace_all(g3.output, spawn_marker(), g3.spawn_decls) + "\n"@ + g3.spawn_funcs, g3)
}

} // verus!
