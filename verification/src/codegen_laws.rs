//! The generator only appends: every step keeps the text already produced as a prefix. From
//! this follow the includes at the head of every program and the layout of a whole program.
use vstd::prelude::*;
use crate::ast::{Span, NodeV, ExprV, ExprNodeV, StmtV, StmtNodeV, FieldV, FunctionDefV, CtorCallV};
use crate::codegen_spec::{
    GenV, emit, translate, translate_args, moved_if_ident, put_params, gen_defaults, gen_struct_def,
    emit_destroys, emit_return_destroys, ctor_args, gen_var_decl, gen_for_decl, gen_opt_expr, gen_alias,
    gen_return, spawn_infos, store_args, gen_spawn, gen_bound_fn, gen_bound_fns, gen_stmts, gen_stmt,
    pre_register_all, gen_structs, gen_fork_fns, gen_body, generate, header_text, type_info,
};
use crate::codegen::{initial_gen, OwnershipStatus};

verus! {

/// `b`'s text begins with `a`'s.
pub open spec fn grows(a: GenV, b: GenV) -> bool {
    a.output.len() <= b.output.len() && b.output.take(a.output.len() as int) == a.output
}

proof fn lemma_trans(a: GenV, b: GenV, c: GenV)
    requires
        grows(a, b),
        grows(b, c),
    ensures
        grows(a, c),
{
    assert(c.output.take(a.output.len() as int) =~= c.output.take(b.output.len() as int).take(a.output.len() as int));
}

proof fn lemma_same(a: GenV, b: GenV)
    requires
        a.output == b.output,
    ensures
        grows(a, b),
{
    assert(b.output.take(a.output.len() as int) =~= a.output);
}

proof fn lemma_emit(g: GenV, s: Seq<char>)
    ensures
        grows(g, emit(g, s)),
{
    assert(emit(g, s).output.take(g.output.len() as int) =~= g.output);
}

/// Translating an expression never writes text.
proof fn lemma_translate(g: GenV, e: ExprNodeV)
    ensures
        translate(g, e).0.output == g.output,
    decreases e, 0int,
{
    match e.data {
        ExprV::BinaryOp(l, op, r) => {
            lemma_translate(g, *l);
            lemma_translate(translate(g, *l).0, *r);
        },
        ExprV::Assignment(_, v) => {
            lemma_translate(g, *v);
        },
        ExprV::UnaryOp(_, x, _) => {
            lemma_translate(g, *x);
        },
        ExprV::Call(_, args) => {
            lemma_translate_args(g, args, 0);
        },
        ExprV::MethodCall { receiver, method, args } => {
            lemma_translate(g, *receiver);
            lemma_translate_args(translate(g, *receiver).0, args, 0);
        },
        ExprV::MemberAccess { receiver, .. } => {
            lemma_translate(g, *receiver);
        },
        _ => {},
    }
}

proof fn lemma_translate_args(g: GenV, args: Seq<ExprNodeV>, i: int)
    ensures
        translate_args(g, args, i).0.output == g.output,
    decreases args, args.len() - i,
{
    if 0 <= i < args.len() {
        lemma_translate(g, args[i]);
        lemma_translate_args(moved_if_ident(translate(g, args[i]).0, args[i]), args, i + 1);
    }
}

proof fn lemma_put_params(g: GenV, ps: Seq<(Seq<char>, Seq<char>)>)
    ensures
        put_params(g, ps).output == g.output,
    decreases ps.len(),
{
    if ps.len() > 0 {
        lemma_put_params(g, ps.drop_last());
    }
}

proof fn lemma_defaults(g: GenV, fields: Seq<FieldV>, i: int)
    ensures
        grows(g, gen_defaults(g, fields, i)),
    decreases fields.len() - i,
{
    if 0 <= i < fields.len() {
        let f = fields[i];
        let g1 = match f.default_value {
            Some(v) => {
                lemma_translate(g, v);
                let (ga, t) = translate(g, v);
                lemma_emit(ga, "    host->"@ + f.name + " = "@ + t + ";\n"@);
                emit(ga, "    host->"@ + f.name + " = "@ + t + ";\n"@)
            },
            None => {
                lemma_emit(g, "    memset(&host->"@ + f.name + ", 0, sizeof("@ + f.ty + "));\n"@);
                emit(g, "    memset(&host->"@ + f.name + ", 0, sizeof("@ + f.ty + "));\n"@)
            },
        };
        lemma_defaults(g1, fields, i + 1);
        lemma_trans(g, g1, gen_defaults(g1, fields, i + 1));
    } else {
        lemma_same(g, g);
    }
}

proof fn lemma_struct_def(g: GenV, name: Seq<char>, fields: Seq<FieldV>)
    ensures
        grows(g, gen_struct_def(g, name, fields)),
{
    let g1 = emit(
        g,
        "typedef struct "@ + name + " {\n"@ + crate::codegen_spec::field_lines(fields) + "} "@ + name + ";\n\n"@ + name
            + " "@ + name + "_clone(const "@ + name + "* source) {\n"@ + "    "@ + name + " dest;\n"@
            + crate::codegen_spec::clone_lines(g.structs, fields) + "    return dest;\n"@ + "}\n\n"@ + "void "@ + name
            + "_init_defaults("@ + name + "* host) {\n"@,
    );
    lemma_emit(g, g1.output.skip(g.output.len() as int));
    assert(g1.output.take(g.output.len() as int) =~= g.output);
    lemma_defaults(g1, fields, 0);
    let g2 = gen_defaults(g1, fields, 0);
    lemma_emit(g2, "}\n\n"@);
    lemma_trans(g, g1, g2);
    lemma_trans(g, g2, emit(g2, "}\n\n"@));
}

proof fn lemma_emit_destroys(g: GenV, list: Seq<(Seq<char>, Seq<char>)>)
    ensures
        grows(g, emit_destroys(g, list)),
    decreases list.len(),
{
    if list.len() == 0 {
        lemma_same(g, g);
    } else {
        lemma_emit_destroys(g, list.drop_last());
        let a = emit_destroys(g, list.drop_last());
        let b = emit(a, crate::codegen_spec::indent_text(a.indent as nat));
        lemma_emit(a, crate::codegen_spec::indent_text(a.indent as nat));
        lemma_emit(b, crate::codegen_spec::destroy_line(list.last()));
        lemma_trans(g, a, b);
        lemma_trans(g, b, emit_destroys(g, list));
    }
}

proof fn lemma_emit_return_destroys(g: GenV, list: Seq<(Seq<char>, Seq<char>)>)
    ensures
        grows(g, emit_return_destroys(g, list)),
    decreases list.len(),
{
    if list.len() == 0 {
        lemma_same(g, g);
    } else {
        lemma_emit_return_destroys(g, list.drop_last());
        let a = emit_return_destroys(g, list.drop_last());
        let b = emit(a, crate::codegen_spec::indent_text(a.indent as nat));
        let c = emit(b, crate::codegen_spec::destroy_line(list.last()));
        lemma_emit(a, crate::codegen_spec::indent_text(a.indent as nat));
        lemma_emit(b, crate::codegen_spec::destroy_line(list.last()));
        lemma_trans(g, a, b);
        lemma_trans(g, b, c);
        lemma_same(c, emit_return_destroys(g, list));
        lemma_trans(g, c, emit_return_destroys(g, list));
    }
}

proof fn lemma_ctor_args(g: GenV, args: Seq<ExprNodeV>, i: int)
    ensures
        grows(g, ctor_args(g, args, i)),
    decreases args.len() - i,
{
    if 0 <= i < args.len() {
        lemma_translate(g, args[i]);
        let (g1, t) = translate(g, args[i]);
        let g2 = emit(g1, ", "@ + t);
        lemma_emit(g1, ", "@ + t);
        let g3 = moved_if_ident(g2, args[i]);
        lemma_same(g2, g3);
        lemma_ctor_args(g3, args, i + 1);
        lemma_trans(g, g2, g3);
        lemma_trans(g, g3, ctor_args(g3, args, i + 1));
    } else {
        lemma_same(g, g);
    }
}

proof fn lemma_var_decl(g: GenV, ty: Seq<char>, name: Seq<char>, init: Option<ExprNodeV>, ctor: Option<CtorCallV>, st: OwnershipStatus)
    ensures
        grows(g, gen_var_decl(g, ty, name, init, ctor, st)),
{
    let g0 = emit(g, crate::codegen_spec::indent_text(g.indent as nat));
    lemma_emit(g, crate::codegen_spec::indent_text(g.indent as nat));
    let g1 = emit(g0, ty + " "@ + name + " "@);
    lemma_emit(g0, ty + " "@ + name + " "@);
    lemma_trans(g, g0, g1);
    let g2 = match init {
        Some(x) => {
            lemma_translate(g1, x);
            let (ga, t) = translate(g1, x);
            lemma_emit(ga, "= "@ + t + ";\n"@);
            lemma_same(emit(ga, "= "@ + t + ";\n"@), moved_if_ident(emit(ga, "= "@ + t + ";\n"@), x));
            lemma_trans(ga, emit(ga, "= "@ + t + ";\n"@), moved_if_ident(emit(ga, "= "@ + t + ";\n"@), x));
            lemma_same(g1, ga);
            lemma_trans(g1, ga, moved_if_ident(emit(ga, "= "@ + t + ";\n"@), x));
            moved_if_ident(emit(ga, "= "@ + t + ";\n"@), x)
        },
        None => {
            lemma_emit(g1, "= {0};\n"@);
            emit(g1, "= {0};\n"@)
        },
    };
    lemma_trans(g, g1, g2);
    let g3 = crate::codegen_spec::put_var(g2, name, ty, st);
    lemma_same(g2, g3);
    lemma_trans(g, g2, g3);
    match ctor {
        Some(c) => {
            let a = emit(g3, crate::codegen_spec::indent_text(g3.indent as nat));
            lemma_emit(g3, crate::codegen_spec::indent_text(g3.indent as nat));
            let g4 = emit(a, ty + "_init_defaults(&"@ + name + ");\n"@);
            lemma_emit(a, ty + "_init_defaults(&"@ + name + ");\n"@);
            let b = emit(g4, crate::codegen_spec::indent_text(g4.indent as nat));
            lemma_emit(g4, crate::codegen_spec::indent_text(g4.indent as nat));
            let g5 = emit(b, ty + "_init(&"@ + name);
            lemma_emit(b, ty + "_init(&"@ + name);
            lemma_ctor_args(g5, c.args, 0);
            let g6 = ctor_args(g5, c.args, 0);
            lemma_emit(g6, ");\n"@);
            lemma_trans(g, g3, a);
            lemma_trans(g, a, g4);
            lemma_trans(g, g4, b);
            lemma_trans(g, b, g5);
            lemma_trans(g, g5, g6);
            lemma_trans(g, g6, emit(g6, ");\n"@));
        },
        None => {},
    }
}

proof fn lemma_alias(g: GenV, d: crate::ast::AliasDeclV)
    ensures
        grows(g, gen_alias(g, d)),
{
    let text = if d.is_mut {
        d.ty + "* "@ + d.name + " = &"@ + d.source + ";\n"@
    } else {
        "const "@ + d.ty + "* "@ + d.name + " = &"@ + d.source + ";\n"@
    };
    let a = emit(g, crate::codegen_spec::indent_text(g.indent as nat));
    lemma_emit(g, crate::codegen_spec::indent_text(g.indent as nat));
    lemma_emit(a, text);
    lemma_trans(g, a, emit(a, text));
    lemma_same(emit(a, text), gen_alias(g, d));
    lemma_trans(g, emit(a, text), gen_alias(g, d));
}

proof fn lemma_return(g: GenV, e: Option<ExprNodeV>)
    ensures
        grows(g, gen_return(g, e)),
{
    let g0 = match e {
        Some(x) => moved_if_ident(g, x),
        None => g,
    };
    lemma_same(g, g0);
    let list = crate::codegen_spec::return_destroys(g0.vars, g0.destructors);
    let a = emit_return_destroys(g0, list);
    lemma_emit_return_destroys(g0, list);
    lemma_trans(g, g0, a);
    let b = emit(a, crate::codegen_spec::indent_text(a.indent as nat));
    lemma_emit(a, crate::codegen_spec::indent_text(a.indent as nat));
    let g1 = emit(b, "return"@);
    lemma_emit(b, "return"@);
    lemma_trans(g, a, b);
    lemma_trans(g, b, g1);
    let g2 = match e {
        Some(x) => {
            lemma_translate(g1, x);
            let (ga, t) = translate(g1, x);
            lemma_same(g1, ga);
            lemma_emit(ga, " "@ + t);
            lemma_trans(g1, ga, emit(ga, " "@ + t));
            emit(ga, " "@ + t)
        },
        None => {
            lemma_same(g1, g1);
            g1
        },
    };
    lemma_trans(g, g1, g2);
    lemma_emit(g2, ";\n"@);
    lemma_trans(g, g2, emit(g2, ";\n"@));
}

proof fn lemma_for_decl(g: GenV, ty: Seq<char>, name: Seq<char>, init: Option<ExprNodeV>, st: OwnershipStatus)
    ensures
        grows(g, gen_for_decl(g, ty, name, init, st)),
{
    let g1 = emit(g, ty + " "@ + name + " "@);
    lemma_emit(g, ty + " "@ + name + " "@);
    let g2 = match init {
        Some(x) => {
            lemma_translate(g1, x);
            let (ga, v) = translate(g1, x);
            lemma_same(g1, ga);
            lemma_emit(ga, "= "@ + v);
            lemma_trans(g1, ga, emit(ga, "= "@ + v));
            emit(ga, "= "@ + v)
        },
        None => {
            lemma_same(g1, g1);
            g1
        },
    };
    lemma_trans(g, g1, g2);
    let g3 = crate::codegen_spec::put_var(g2, name, ty, st);
    lemma_same(g2, g3);
    lemma_trans(g, g2, g3);
}

proof fn lemma_opt_expr(g: GenV, e: Option<ExprNodeV>)
    ensures
        grows(g, gen_opt_expr(g, e)),
{
    match e {
        Some(x) => {
            lemma_translate(g, x);
            let (g1, t) = translate(g, x);
            lemma_same(g, g1);
            lemma_emit(g1, t);
            lemma_trans(g, g1, emit(g1, t));
        },
        None => {
            lemma_same(g, g);
        },
    }
}

proof fn lemma_spawn_infos(g: GenV, args: Seq<ExprNodeV>, i: int)
    ensures
        spawn_infos(g, args, i).0.output == g.output,
    decreases args.len() - i,
{
    if 0 <= i < args.len() {
        lemma_translate(g, args[i]);
        lemma_spawn_infos(translate(g, args[i]).0, args, i + 1);
    }
}

proof fn lemma_store_args(g: GenV, infos: Seq<(Seq<char>, bool, Seq<char>)>, args: Seq<ExprNodeV>, i: int)
    ensures
        grows(g, store_args(g, infos, args, i)),
    decreases args.len() - i,
{
    if 0 <= i < args.len() && i < infos.len() {
        let a = emit(g, crate::codegen_spec::indent_text(g.indent as nat));
        lemma_emit(g, crate::codegen_spec::indent_text(g.indent as nat));
        let line = "spawn_args->arg"@ + crate::text::decimal(i as nat) + " = "@ + infos[i].2 + ";\n"@;
        let g1 = emit(a, line);
        lemma_emit(a, line);
        let g2 = moved_if_ident(g1, args[i]);
        lemma_same(g1, g2);
        lemma_store_args(g2, infos, args, i + 1);
        lemma_trans(g, a, g1);
        lemma_trans(g, g1, g2);
        lemma_trans(g, g2, store_args(g2, infos, args, i + 1));
    } else {
        lemma_same(g, g);
    }
}

/// One indented line.
proof fn lemma_line(g: GenV, s: Seq<char>)
    ensures
        grows(g, emit(emit(g, crate::codegen_spec::indent_text(g.indent as nat)), s)),
{
    let a = emit(g, crate::codegen_spec::indent_text(g.indent as nat));
    lemma_emit(g, crate::codegen_spec::indent_text(g.indent as nat));
    lemma_emit(a, s);
    lemma_trans(g, a, emit(a, s));
}

proof fn lemma_spawn(g: GenV, func: Seq<char>, args: Seq<ExprNodeV>)
    ensures
        grows(g, gen_spawn(g, func, args)),
{
    let id = crate::text::decimal(g.spawns as nat);
    let g0 = GenV { spawns: crate::codegen_spec::inc(g.spawns), ..g };
    lemma_spawn_infos(g0, args, 0);
    let (g1, infos) = spawn_infos(g0, args, 0);
    let sn = "_spawn_args_"@ + id;
    let wn = "_spawn_wrapper_"@ + id;
    let decls = "typedef struct "@ + sn + " {\n"@ + crate::codegen_spec::arg_fields(infos) + "} "@ + sn + ";\n"@
        + "void* "@ + wn + "(void* raw_arg);\n\n"@;
    let wrapper = "void* "@ + wn + "(void* raw_arg) {\n"@ + "    "@ + sn + "* args = ("@ + sn + "*)raw_arg;\n"@
        + crate::codegen_spec::unpack_lines(infos) + "    free(args);\n\n"@ + "    "@ + func + "("@
        + crate::codegen_spec::join(crate::codegen_spec::val_names(infos.len()), ", "@) + ");\n\n"@
        + crate::codegen_spec::arg_destroy_lines(infos, g1.destructors) + "    return NULL;\n}\n\n"@;
    let g2 = GenV { spawn_decls: g1.spawn_decls + decls, spawn_funcs: g1.spawn_funcs + wrapper, ..g1 };
    lemma_same(g, g2);
    let g3 = emit(emit(g2, crate::codegen_spec::indent_text(g2.indent as nat)), "{\n"@);
    lemma_line(g2, "{\n"@);
    let g4 = GenV { indent: crate::codegen_spec::inc(g3.indent), ..g3 };
    lemma_same(g3, g4);
    let g5 = emit(emit(g4, crate::codegen_spec::indent_text(g4.indent as nat)), sn + "* spawn_args = malloc(sizeof("@ + sn + "));\n"@);
    lemma_line(g4, sn + "* spawn_args = malloc(sizeof("@ + sn + "));\n"@);
    let g6 = store_args(g5, infos, args, 0);
    lemma_store_args(g5, infos, args, 0);
    let g7 = emit(emit(g6, crate::codegen_spec::indent_text(g6.indent as nat)), "pthread_t thread_id;\n"@);
    lemma_line(g6, "pthread_t thread_id;\n"@);
    let g8 = emit(emit(g7, crate::codegen_spec::indent_text(g7.indent as nat)), "pthread_create(&thread_id, NULL, "@ + wn + ", spawn_args);\n"@);
    lemma_line(g7, "pthread_create(&thread_id, NULL, "@ + wn + ", spawn_args);\n"@);
    let g9 = emit(emit(g8, crate::codegen_spec::indent_text(g8.indent as nat)), "pthread_detach(thread_id);\n"@);
    lemma_line(g8, "pthread_detach(thread_id);\n"@);
    let g10 = GenV { indent: g3.indent, ..g9 };
    lemma_same(g9, g10);
    lemma_line(g10, "}\n"@);
    lemma_trans(g, g2, g3);
    lemma_trans(g, g3, g4);
    lemma_trans(g, g4, g5);
    lemma_trans(g, g5, g6);
    lemma_trans(g, g6, g7);
    lemma_trans(g, g7, g8);
    lemma_trans(g, g8, g9);
    lemma_trans(g, g9, g10);
    lemma_trans(g, g10, gen_spawn(g, func, args));
}

proof fn lemma_bound_fn(g: GenV, sname: Seq<char>, fname: Seq<char>, f: FunctionDefV)
    ensures
        grows(g, gen_bound_fn(g, sname, fname, f)),
    decreases f, 0int,
{
    let head = f.return_ty + " "@ + crate::codegen_spec::bound_c_name(sname, fname) + "("@ + sname + "* host"@
        + crate::codegen_spec::param_tail(f.params) + ") "@;
    let g1 = emit(g, head);
    lemma_emit(g, head);
    let g2 = crate::codegen_spec::put_var(crate::codegen_spec::open_scope(g1), "host"@, sname + "*"@, crate::codegen::OwnershipStatus::Active);
    lemma_same(g1, g2);
    let g2p = put_params(g2, f.params);
    lemma_put_params(g2, f.params);
    lemma_same(g2, g2p);
    lemma_stmt(g2p, *f.body);
    let g3 = gen_stmt(g2p, *f.body);
    let g4 = crate::codegen_spec::close_scope(g3);
    lemma_same(g3, g4);
    lemma_emit(g4, "\n\n"@);
    lemma_trans(g, g1, g2);
    lemma_trans(g, g2, g2p);
    lemma_trans(g, g2p, g3);
    lemma_trans(g, g3, g4);
    lemma_trans(g, g4, emit(g4, "\n\n"@));
}

proof fn lemma_bound_fns(g: GenV, sname: Seq<char>, fs: Seq<FunctionDefV>, i: int)
    ensures
        grows(g, gen_bound_fns(g, sname, fs, i)),
    decreases fs, fs.len() - i,
{
    if 0 <= i < fs.len() {
        lemma_bound_fn(g, sname, fs[i].name, fs[i]);
        let g1 = gen_bound_fn(g, sname, fs[i].name, fs[i]);
        lemma_bound_fns(g1, sname, fs, i + 1);
        lemma_trans(g, g1, gen_bound_fns(g1, sname, fs, i + 1));
    } else {
        lemma_same(g, g);
    }
}

proof fn lemma_stmts(g: GenV, s: Seq<StmtNodeV>, i: int)
    ensures
        grows(g, gen_stmts(g, s, i)),
    decreases s, s.len() - i,
{
    if 0 <= i < s.len() {
        lemma_stmt(g, s[i]);
        let g1 = gen_stmt(g, s[i]);
        lemma_stmts(g1, s, i + 1);
        lemma_trans(g, g1, gen_stmts(g1, s, i + 1));
    } else {
        lemma_same(g, g);
    }
}

proof fn lemma_stmt(g: GenV, n: StmtNodeV)
    ensures
        grows(g, gen_stmt(g, n)),
    decreases n, 0int,
{
    match n.data {
        StmtV::StructDef(d) => lemma_struct_def(g, d.name, d.fields),
        StmtV::BindBlock(b) => lemma_bound_fns(g, b.struct_name, b.functions, 0),
        StmtV::FunctionDef(f) => {
            let g1 = emit(g, f.return_ty + " "@ + f.name + "("@ + crate::codegen_spec::param_list(f.params) + ") "@);
            lemma_emit(g, f.return_ty + " "@ + f.name + "("@ + crate::codegen_spec::param_list(f.params) + ") "@);
            let o = crate::codegen_spec::open_scope(g1);
            lemma_put_params(o, f.params);
            let p = put_params(o, f.params);
            lemma_same(g1, p);
            lemma_stmt(p, *f.body);
            let g2 = gen_stmt(p, *f.body);
            let c = crate::codegen_spec::close_scope(g2);
            lemma_same(g2, c);
            lemma_emit(c, "\n\n"@);
            lemma_trans(g, g1, p);
            lemma_trans(g, p, g2);
            lemma_trans(g, g2, c);
            lemma_trans(g, c, emit(c, "\n\n"@));
        },
        StmtV::Block(stmts) => {
            let g1 = emit(g, "{\n"@);
            lemma_emit(g, "{\n"@);
            let o = crate::codegen_spec::open_scope(GenV { indent: crate::codegen_spec::inc(g1.indent), ..g1 });
            lemma_same(g1, o);
            lemma_stmts(o, stmts, 0);
            let g2 = gen_stmts(o, stmts, 0);
            let c = crate::codegen_spec::close_scope(g2);
            lemma_same(g2, c);
            let list = crate::codegen_spec::scope_destroys(g2.vars.last(), g2.destructors);
            lemma_emit_destroys(c, list);
            let g3 = emit_destroys(c, list);
            let r = GenV { indent: g1.indent, ..g3 };
            lemma_same(g3, r);
            lemma_line(r, "}"@);
            lemma_trans(g, g1, o);
            lemma_trans(g, o, g2);
            lemma_trans(g, g2, c);
            lemma_trans(g, c, g3);
            lemma_trans(g, g3, r);
            lemma_trans(g, r, gen_stmt(g, n));
        },
        StmtV::LetDeclaration(d) => lemma_var_decl(g, d.ty, d.name, d.init, d.constructor_call, OwnershipStatus::Active),
        StmtV::UnsafeDeclaration(d) => lemma_var_decl(g, d.ty, d.name, d.init, d.constructor_call, OwnershipStatus::Unmanaged),
        StmtV::AliasDeclaration(d) => lemma_alias(g, d),
        StmtV::Return(e) => lemma_return(g, e),
        StmtV::Expression(e) => {
            let a = emit(g, crate::codegen_spec::indent_text(g.indent as nat));
            lemma_emit(g, crate::codegen_spec::indent_text(g.indent as nat));
            lemma_translate(a, e);
            let (g1, t) = translate(a, e);
            lemma_same(a, g1);
            lemma_emit(g1, t + ";\n"@);
            lemma_trans(g, a, g1);
            lemma_trans(g, g1, emit(g1, t + ";\n"@));
        },
        StmtV::If { condition, then_branch, else_branch } => {
            let a = emit(g, crate::codegen_spec::indent_text(g.indent as nat));
            lemma_emit(g, crate::codegen_spec::indent_text(g.indent as nat));
            lemma_translate(a, condition);
            let (g1, c) = translate(a, condition);
            lemma_same(a, g1);
            let b = emit(g1, "if ("@ + c + ") "@);
            lemma_emit(g1, "if ("@ + c + ") "@);
            lemma_stmt(b, *then_branch);
            let g2 = gen_stmt(b, *then_branch);
            lemma_trans(g, a, g1);
            lemma_trans(g, g1, b);
            lemma_trans(g, b, g2);
            let g3 = match else_branch {
                Some(eb) => {
                    let e = emit(g2, " else "@);
                    lemma_emit(g2, " else "@);
                    lemma_stmt(e, *eb);
                    lemma_trans(g, g2, e);
                    lemma_trans(g, e, gen_stmt(e, *eb));
                    gen_stmt(e, *eb)
                },
                None => g2,
            };
            lemma_emit(g3, "\n"@);
            lemma_trans(g, g3, emit(g3, "\n"@));
        },
        StmtV::For { init, condition, step, body } => {
            let a = emit(g, crate::codegen_spec::indent_text(g.indent as nat));
            lemma_emit(g, crate::codegen_spec::indent_text(g.indent as nat));
            let g1 = emit(a, "for ("@);
            lemma_emit(a, "for ("@);
            lemma_trans(g, a, g1);
            let g2 = match init {
                Some(s) => match s.data {
                    StmtV::LetDeclaration(d) => {
                        lemma_for_decl(g1, d.ty, d.name, d.init, OwnershipStatus::Active);
                        gen_for_decl(g1, d.ty, d.name, d.init, OwnershipStatus::Active)
                    },
                    StmtV::UnsafeDeclaration(d) => {
                        lemma_for_decl(g1, d.ty, d.name, d.init, OwnershipStatus::Unmanaged);
                        gen_for_decl(g1, d.ty, d.name, d.init, OwnershipStatus::Unmanaged)
                    },
                    StmtV::Expression(x) => {
                        lemma_opt_expr(g1, Some(x));
                        gen_opt_expr(g1, Some(x))
                    },
                    _ => {
                        lemma_same(g1, g1);
                        g1
                    },
                },
                None => {
                    lemma_same(g1, g1);
                    g1
                },
            };
            lemma_trans(g, g1, g2);
            let s1 = emit(g2, "; "@);
            lemma_emit(g2, "; "@);
            lemma_opt_expr(s1, condition);
            let g3 = gen_opt_expr(s1, condition);
            let s2 = emit(g3, "; "@);
            lemma_emit(g3, "; "@);
            lemma_opt_expr(s2, step);
            let g4 = gen_opt_expr(s2, step);
            let s3 = emit(g4, ") "@);
            lemma_emit(g4, ") "@);
            lemma_stmt(s3, *body);
            let g5 = gen_stmt(s3, *body);
            lemma_emit(g5, "\n"@);
            lemma_trans(g, g2, s1);
            lemma_trans(g, s1, g3);
            lemma_trans(g, g3, s2);
            lemma_trans(g, s2, g4);
            lemma_trans(g, g4, s3);
            lemma_trans(g, s3, g5);
            lemma_trans(g, g5, emit(g5, "\n"@));
        },
        StmtV::While { condition, body } => {
            let a = emit(g, crate::codegen_spec::indent_text(g.indent as nat));
            lemma_emit(g, crate::codegen_spec::indent_text(g.indent as nat));
            lemma_translate(a, condition);
            let (g1, c) = translate(a, condition);
            lemma_same(a, g1);
            let b = emit(g1, "while ("@ + c + ") "@);
            lemma_emit(g1, "while ("@ + c + ") "@);
            lemma_stmt(b, *body);
            let g2 = gen_stmt(b, *body);
            lemma_emit(g2, "\n"@);
            lemma_trans(g, a, g1);
            lemma_trans(g, g1, b);
            lemma_trans(g, b, g2);
            lemma_trans(g, g2, emit(g2, "\n"@));
        },
        StmtV::RawC(c) => {
            lemma_emit(g, c);
            lemma_emit(emit(g, c), "\n"@);
            lemma_trans(g, emit(g, c), emit(emit(g, c), "\n"@));
        },
        StmtV::Spawn(f, args) => lemma_spawn(g, f, args),
        StmtV::ForkBlock(_) => lemma_same(g, g),
    }
}

/// Generating a statement only appends to the text: what was produced before stays as it was.
pub proof fn law_generation_only_appends(g: GenV, n: StmtNodeV)
    ensures
        grows(g, gen_stmt(g, n)),
{
    lemma_stmt(g, n);
}

proof fn lemma_pre_register_all(g: GenV, ast: Seq<StmtNodeV>)
    ensures
        pre_register_all(g, ast).output == g.output,
    decreases ast.len(),
{
    if ast.len() > 0 {
        lemma_pre_register_all(g, ast.drop_last());
    }
}

proof fn lemma_structs(g: GenV, list: Seq<(Seq<char>, Seq<FieldV>)>)
    ensures
        grows(g, gen_structs(g, list)),
    decreases list.len(),
{
    if list.len() == 0 {
        lemma_same(g, g);
    } else {
        lemma_structs(g, list.drop_last());
        let a = gen_structs(g, list.drop_last());
        lemma_struct_def(a, list.last().0, list.last().1);
        lemma_trans(g, a, gen_structs(g, list));
    }
}

proof fn lemma_fork_fns(g: GenV, sname: Seq<char>, fs: Seq<(Seq<char>, FunctionDefV)>)
    ensures
        grows(g, gen_fork_fns(g, sname, fs)),
    decreases fs.len(),
{
    if fs.len() == 0 {
        lemma_same(g, g);
    } else {
        lemma_fork_fns(g, sname, fs.drop_last());
        let a = gen_fork_fns(g, sname, fs.drop_last());
        lemma_bound_fn(a, sname, fs.last().0, fs.last().1);
        lemma_trans(g, a, gen_fork_fns(g, sname, fs));
    }
}

proof fn lemma_body(g: GenV, ast: Seq<StmtNodeV>)
    ensures
        grows(g, gen_body(g, ast)),
    decreases ast.len(),
{
    if ast.len() == 0 {
        lemma_same(g, g);
    } else {
        lemma_body(g, ast.drop_last());
        let g1 = gen_body(g, ast.drop_last());
        match ast.last().data {
            StmtV::StructDef(_) => {},
            StmtV::ForkBlock(f) => match crate::codegen_spec::assoc_get(g1.binds, f.new_name) {
                Some(fs) => {
                    lemma_fork_fns(g1, f.new_name, fs);
                    lemma_trans(g, g1, gen_body(g, ast));
                },
                None => {},
            },
            _ => {
                lemma_stmt(g1, ast.last());
                lemma_trans(g, g1, gen_body(g, ast));
            },
        }
    }
}

/// The text a fresh generator builds starts with the standard includes.
proof fn lemma_state_starts_with_includes(ast: Seq<StmtNodeV>)
    ensures
        generate(initial_gen(), ast).1.output.take(header_text().len() as int) == header_text(),
        header_text().len() <= generate(initial_gen(), ast).1.output.len(),
{
    let g0 = initial_gen();
    let e = emit(g0, header_text());
    assert(e.output =~= header_text());
    let g1 = pre_register_all(e, ast);
    lemma_pre_register_all(e, ast);
    lemma_same(e, g1);
    let list = crate::codegen_spec::structs_to_gen(g1.structs, ast);
    lemma_structs(g1, list);
    let g2 = gen_structs(g1, list);
    let m = emit(g2, crate::codegen_spec::spawn_marker() + "\n\n"@);
    lemma_emit(g2, crate::codegen_spec::spawn_marker() + "\n\n"@);
    lemma_body(m, ast);
    let g3 = gen_body(m, ast);
    lemma_trans(e, g1, g2);
    lemma_trans(e, g2, m);
    lemma_trans(e, m, g3);
}

/// Replacing in a text whose first part holds no character that starts the pattern leaves
/// that part as it is.
proof fn lemma_replace_after(h: Seq<char>, r: Seq<char>, pat: Seq<char>, rep: Seq<char>)
    requires
        pat.len() > 0,
        forall|i: int| 0 <= i < h.len() ==> h[i] != pat[0],
    ensures
        crate::codegen_spec::replace_all(h + r, pat, rep) == h + crate::codegen_spec::replace_all(r, pat, rep),
    decreases h.len(),
{
    if h.len() > 0 {
        let s = h + r;
        let t = h.skip(1);
        assert(s.skip(1) =~= t + r);
        lemma_replace_after(t, r, pat, rep);
        if s.len() < pat.len() {
            lemma_replace_short(r, pat, rep);
            lemma_replace_short(t + r, pat, rep);
            assert(s =~= seq![h[0]] + (t + r));
        } else {
            assert(s.take(pat.len() as int)[0] != pat[0]);
            assert(s.take(pat.len() as int) != pat);
        }
        assert(h =~= seq![h[0]] + t);
        assert(seq![h[0]] + (t + crate::codegen_spec::replace_all(r, pat, rep))
            =~= h + crate::codegen_spec::replace_all(r, pat, rep));
    } else {
        assert(h + r =~= r);
        assert(h + crate::codegen_spec::replace_all(r, pat, rep) =~= crate::codegen_spec::replace_all(r, pat, rep));
    }
}

proof fn lemma_replace_short(s: Seq<char>, pat: Seq<char>, rep: Seq<char>)
    requires
        s.len() < pat.len(),
    ensures
        crate::codegen_spec::replace_all(s, pat, rep) == s,
{
}

/// For any program, the C text of a fresh generator starts with the standard includes, ahead
/// of every thread declaration, struct and function it generates.
#[verifier::rlimit(50)]
pub proof fn law_program_text_starts_with_includes(ast: Seq<StmtNodeV>)
    ensures
        header_text().len() <= generate(initial_gen(), ast).0.len(),
        generate(initial_gen(), ast).0.take(header_text().len() as int) == header_text(),
{
    lemma_state_starts_with_includes(ast);
    let g3 = generate(initial_gen(), ast).1;
    let h = header_text();
    let marker = crate::codegen_spec::spawn_marker();
    reveal_strlit("#include <stdio.h>\n#include <stdlib.h>\n#include <string.h>\n#include <stdbool.h>\n#include <pthread.h>\n\n");
    reveal_strlit("/*SPAWN_DECLS*/");
    assert(marker[0] == '/');
    assert forall|i: int| 0 <= i < h.len() implies h[i] != marker[0] by {}
    let rest = g3.output.skip(h.len() as int);
    assert(g3.output =~= h + rest);
    lemma_replace_after(h, rest, marker, g3.spawn_decls);
    let out = generate(initial_gen(), ast).0;
    let replaced = crate::codegen_spec::replace_all(g3.output, marker, g3.spawn_decls);
    assert(out == replaced + "\n"@ + g3.spawn_funcs);
    assert(out.take(h.len() as int) =~= h);
}

/// The text of a fresh generator up to the end of the struct typedefs: the includes, then one
/// typedef (with its helper functions) for each struct and fork, in program order.
pub open spec fn struct_section(ast: Seq<StmtNodeV>) -> Seq<char> {
    let g1 = pre_register_all(emit(initial_gen(), header_text()), ast);
    gen_structs(g1, crate::codegen_spec::structs_to_gen(g1.structs, ast)).output
}

/// The code of the program's functions and statements, as a fresh generator writes it after the
/// struct section and the place held for the thread declarations.
pub open spec fn code_section(ast: Seq<StmtNodeV>) -> Seq<char> {
    let g3 = generate(initial_gen(), ast).1;
    g3.output.skip((struct_section(ast).len() + crate::codegen_spec::spawn_marker().len() + 2) as int)
}

/// The layout of a generated program: the includes and struct typedefs come first, then the
/// declarations of every thread's argument struct and wrapper, then the code (in which the
/// place-holder, should user text hold it, is replaced too), and the wrappers' bodies last.
/// This holds wherever the struct section has no `/`, the first character of the place-holder.
pub proof fn law_program_layout(ast: Seq<StmtNodeV>)
    requires
        forall|i: int| 0 <= i < struct_section(ast).len() ==> struct_section(ast)[i] != '/',
    ensures
        ({
            let g3 = generate(initial_gen(), ast).1;
            let marker = crate::codegen_spec::spawn_marker();
            generate(initial_gen(), ast).0 == struct_section(ast) + g3.spawn_decls
                + crate::codegen_spec::replace_all("\n\n"@ + code_section(ast), marker, g3.spawn_decls) + "\n"@
                + g3.spawn_funcs
        }),
{
    let g0 = initial_gen();
    let e = emit(g0, header_text());
    let g1 = pre_register_all(e, ast);
    let list = crate::codegen_spec::structs_to_gen(g1.structs, ast);
    let g2 = gen_structs(g1, list);
    let marker = crate::codegen_spec::spawn_marker();
    reveal_strlit("/*SPAWN_DECLS*/");
    let mm = marker + "\n\n"@;
    let m = emit(g2, mm);
    lemma_body(m, ast);
    let g3 = gen_body(m, ast);
    let p = g2.output;
    assert(p == struct_section(ast));
    let code = code_section(ast);
    assert(g3.output.take(m.output.len() as int) == m.output);
    assert(m.output == p + mm);
    reveal_strlit("\n\n");
    assert(mm.len() == marker.len() + 2);
    assert(m.output.len() == p.len() + marker.len() + 2);
    assert(code =~= g3.output.skip(m.output.len() as int));
    assert(g3.output =~= m.output + code);
    assert(g3.output =~= p + (marker + ("\n\n"@ + code)));
    lemma_replace_after(p, marker + ("\n\n"@ + code), marker, g3.spawn_decls);
    let x = marker + ("\n\n"@ + code);
    assert(x.take(marker.len() as int) =~= marker);
    assert(x.skip(marker.len() as int) =~= "\n\n"@ + code);
    assert(crate::codegen_spec::replace_all(x, marker, g3.spawn_decls) == g3.spawn_decls
        + crate::codegen_spec::replace_all("\n\n"@ + code, marker, g3.spawn_decls));
    assert(generate(initial_gen(), ast).0 =~= p + g3.spawn_decls
        + crate::codegen_spec::replace_all("\n\n"@ + code, marker, g3.spawn_decls) + "\n"@ + g3.spawn_funcs);
}

/// A method call on an alias passes the alias itself, already a pointer, as the receiver
/// argument: `m.f(args)` becomes `T_f(m, args)` (and `m.clone()` becomes `T_clone(m)`), where `T`
/// is the alias's type without trailing `*`s.
pub proof fn law_method_on_alias_passes_pointer(
    g: GenV,
    m: Seq<char>,
    t: Seq<char>,
    is_mut: bool,
    f: Seq<char>,
    args: Seq<ExprNodeV>,
    call_span: Span,
    recv_span: Span,
)
    requires
        crate::codegen_spec::var_info(g.vars, m) == Some((t, OwnershipStatus::Alias { is_mut })),
    ensures
        ({
            let recv = Box::new(NodeV { data: ExprV::Identifier(m), span: recv_span });
            let text = translate(g, NodeV { data: ExprV::MethodCall { receiver: recv, method: f, args }, span: call_span }).1;
            let ty = crate::codegen_spec::trim_stars(t);
            if f == "clone"@ {
                text == ty + "_clone("@ + m + ")"@
            } else {
                text == ty + "_"@ + f + "("@ + crate::codegen_spec::join(seq![m] + translate_args(g, args, 0).1, ", "@) + ")"@
            }
        }),
{
    let recv = NodeV { data: ExprV::Identifier(m), span: recv_span };
    assert(type_info(g, recv) == (crate::codegen_spec::trim_stars(t), true));
    assert(translate(g, recv) == (g, m));
}

/// A method call on an owned variable of a non-pointer type passes its address as the receiver
/// argument: `x.f(args)` becomes `T_f(&x, args)` (and `x.clone()` becomes `T_clone(&x)`).
pub proof fn law_method_on_value_passes_address(
    g: GenV,
    x: Seq<char>,
    t: Seq<char>,
    f: Seq<char>,
    args: Seq<ExprNodeV>,
    call_span: Span,
    recv_span: Span,
)
    requires
        crate::codegen_spec::var_info(g.vars, x) == Some((t, OwnershipStatus::Active)),
        !crate::codegen_spec::ends_star(t),
    ensures
        ({
            let recv = Box::new(NodeV { data: ExprV::Identifier(x), span: recv_span });
            let text = translate(g, NodeV { data: ExprV::MethodCall { receiver: recv, method: f, args }, span: call_span }).1;
            if f == "clone"@ {
                text == t + "_clone(&"@ + x + ")"@
            } else {
                text == t + "_"@ + f + "("@ + crate::codegen_spec::join(seq!["&"@ + x] + translate_args(g, args, 0).1, ", "@)
                    + ")"@
            }
        }),
{
    let recv = NodeV { data: ExprV::Identifier(x), span: recv_span };
    assert(crate::codegen_spec::trim_stars(t) == t);
    assert(type_info(g, recv) == (t, false));
    assert(translate(g, recv) == (g, x));
    if f == "clone"@ {
        reveal_strlit("_clone(");
        reveal_strlit("_clone(&");
        reveal_strlit("&");
        assert(t + "_clone("@ + ("&"@ + x) + ")"@ =~= t + "_clone(&"@ + x + ")"@);
    }
}

/// A field of an alias, or of a variable of pointer type, is reached with `->`; a field of an
/// owned variable of a non-pointer type with `.`.
pub proof fn law_member_access_operator(g: GenV, x: Seq<char>, t: Seq<char>, st: OwnershipStatus, member: Seq<char>, span: Span, recv_span: Span)
    requires
        crate::codegen_spec::var_info(g.vars, x) == Some((t, st)),
    ensures
        ({
            let recv = Box::new(NodeV { data: ExprV::Identifier(x), span: recv_span });
            let text = translate(g, NodeV { data: ExprV::MemberAccess { receiver: recv, member, is_ptr: false }, span }).1;
            text == x + (if st is Alias || crate::codegen_spec::ends_star(t) { "->"@ } else { "."@ }) + member
        }),
{
    let recv = NodeV { data: ExprV::Identifier(x), span: recv_span };
    assert(type_info(g, recv).1 == (crate::codegen_spec::ends_star(t) || st is Alias));
    assert(translate(g, recv) == (g, x));
}

} // verus!
