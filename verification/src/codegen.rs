//! The C code generator.
use vstd::prelude::*;
use crate::ast::{
    Field, FunctionDef, FieldV, FunctionDefV, field_view, func_view, Node, Expression, expr_node_view,
    exprs_view, Statement, StmtV, VariableDeclaration, AliasDeclaration, stmt_node_view, stmt_view,
    stmts_view, funcs_view, fields_view, params_view, opt_expr_view, var_decl_view, alias_view,
    ForkOp, BindOp, fork_ops_view, fork_op_view, bind_ops_view, bind_op_view,
};
use crate::codegen_spec::{
    GenV, VarEntry, first_pos, lemma_first_pos, keys_of, var_level, lemma_var_level, var_info, set_moved,
    put_var, trim_stars, ends_star, indent_text, join, replace_all, emit, indented, assoc_put, assoc_get,
    moved, moved_if_ident, type_info, translate, translate_args, field_pos, field_lines,
    clone_lines, gen_defaults, gen_struct_def, param_list, param_tail, put_params, open_scope, close_scope,
    gen_bound_fn, gen_bound_fns, gen_stmts, gen_stmt, gen_opt_expr, gen_var_decl, gen_for_decl, ctor_args,
    bound_c_name, scope_destroys, return_destroys, destroy_line, emit_destroys, emit_return_destroys,
    gen_alias, gen_return, spawn_infos, arg_fields, unpack_lines, val_names, arg_destroy_lines, store_args,
    gen_spawn, star, pre_register, pre_register_all, named_fns, destroy_marks, fork_fields, renamed, fork_fns,
    fork_dtors, drop_key, drop_field, structs_to_gen, gen_structs, gen_fork_fns, gen_body, generate,
    header_text, };
use crate::text::{decimal, append_decimal, chars_of, string_of_range, push_char, append_str, string_from, str_is};

verus! {

/// What the generator knows of a variable when it decides on destructor calls.
#[derive(Debug, Clone, Copy, PartialEq, Eq, Structural)]
pub enum OwnershipStatus {
    Active,
    Moved,
    Alias { is_mut: bool },
    /// A plain C variable (`unsafe`): it owns nothing and is never destroyed.
    Unmanaged,
}

/// Translates a checked program into C. Registries keep references into the program.
pub struct Generator<'a> {
    output: String,
    spawn_decls: String,
    spawn_funcs: String,
    indent_level: usize,
    struct_registry: Vec<(String, Vec<&'a Field>)>,
    bind_registry: Vec<(String, Vec<(String, &'a FunctionDef)>)>,
    scope_vars: Vec<Vec<(String, (String, OwnershipStatus))>>,
    defined_destructors: Vec<String>,
    spawn_counter: usize,
}

pub open spec fn field_refs_view(s: Seq<&Field>) -> Seq<FieldV> {
    Seq::new(s.len(), |j: int| field_view(*s[j]))
}

pub open spec fn fn_refs_view(s: Seq<(String, &FunctionDef)>) -> Seq<(Seq<char>, FunctionDefV)> {
    Seq::new(s.len(), |j: int| (s[j].0@, func_view(*s[j].1)))
}

pub open spec fn var_scope_view(s: Seq<(String, (String, OwnershipStatus))>) -> Seq<VarEntry> {
    Seq::new(s.len(), |j: int| (s[j].0@, (s[j].1.0@, s[j].1.1)))
}

pub open spec fn strings_view(s: Seq<String>) -> Seq<Seq<char>> {
    Seq::new(s.len(), |i: int| s[i]@)
}

/// The keys of an association list, as text.
pub open spec fn key_texts<V>(s: Seq<(String, V)>) -> Seq<Seq<char>> {
    Seq::new(s.len(), |i: int| s[i].0@)
}

/// The state of a fresh generator.
pub open spec fn initial_gen() -> GenV {
    GenV {
        output: Seq::empty(),
        spawn_decls: Seq::empty(),
        spawn_funcs: Seq::empty(),
        indent: 0,
        structs: Seq::empty(),
        binds: Seq::empty(),
        vars: seq![Seq::empty()],
        destructors: Seq::empty(),
        spawns: 0,
    }
}

impl<'a> View for Generator<'a> {
    type V = GenV;

    closed spec fn view(&self) -> GenV {
        GenV {
            output: self.output@,
            spawn_decls: self.spawn_decls@,
            spawn_funcs: self.spawn_funcs@,
            indent: self.indent_level,
            structs: Seq::new(
                self.struct_registry@.len(),
                |i: int| (self.struct_registry@[i].0@, field_refs_view(self.struct_registry@[i].1@)),
            ),
            binds: Seq::new(
                self.bind_registry@.len(),
                |i: int| (self.bind_registry@[i].0@, fn_refs_view(self.bind_registry@[i].1@)),
            ),
            vars: Seq::new(self.scope_vars@.len(), |i: int| var_scope_view(self.scope_vars@[i]@)),
            destructors: strings_view(self.defined_destructors@),
            spawns: self.spawn_counter,
        }
    }
}

/// The position of the first entry keyed `k`.
pub(crate) fn find_key<V>(v: &Vec<(String, V)>, k: &String) -> (r: Option<usize>)
    ensures
        match r {
            Some(j) => first_pos(key_texts(v@), k@) == j as int && j < v@.len(),
            None => first_pos(key_texts(v@), k@) == -1,
        },
{
    let ghost keys = key_texts(v@);
    proof {
        lemma_first_pos(keys, k@);
    }
    let mut j: usize = 0;
    while j < v.len()
        invariant
            j <= v@.len(),
            keys == key_texts(v@),
            -1 <= first_pos(keys, k@) < keys.len(),
            first_pos(keys, k@) == -1 <==> forall|x: int| 0 <= x < keys.len() ==> keys[x] != k@,
            first_pos(keys, k@) >= 0 ==> keys[first_pos(keys, k@)] == k@,
            forall|x: int| 0 <= x < j ==> keys[x] != k@,
        decreases v.len() - j,
    {
        if v[j].0 == *k {
            proof {
                lemma_first_pos(keys, k@);
                assert(keys[j as int] == k@);
                let r = first_pos(keys, k@);
                if r > j as int {
                    assert(keys[j as int] != k@);
                }
            }
            return Some(j);
        }
        j = j + 1;
    }
    None
}

/// Whether `v` holds `k`.
pub(crate) fn contains_string(v: &Vec<String>, k: &String) -> (r: bool)
    ensures
        r == strings_view(v@).contains(k@),
{
    let mut j: usize = 0;
    while j < v.len()
        invariant
            j <= v@.len(),
            forall|x: int| 0 <= x < j ==> v@[x]@ != k@,
        decreases v.len() - j,
    {
        if v[j] == *k {
            assert(strings_view(v@)[j as int] == k@);
            return true;
        }
        j = j + 1;
    }
    assert forall|x: int| 0 <= x < strings_view(v@).len() implies strings_view(v@)[x] != k@ by {}
    false
}

/// `s` without its trailing `*`s, and whether it had one.
fn strip_stars(s: &String) -> (r: (String, bool))
    ensures
        r.0@ == trim_stars(s@),
        r.1 == ends_star(s@),
{
    let v = chars_of(s.as_str());
    let ends = v.len() > 0 && v[v.len() - 1] == '*';
    let mut e = v.len();
    assert(v@.take(e as int) =~= v@);
    while e > 0 && v[e - 1] == '*'
        invariant
            e <= v@.len(),
            trim_stars(v@.take(e as int)) == trim_stars(v@),
        decreases e,
    {
        assert(v@.take(e as int).drop_last() =~= v@.take(e - 1));
        e = e - 1;
    }
    let r = string_of_range(&v, 0, e);
    assert(v@.subrange(0, e as int) =~= v@.take(e as int));
    (r, ends)
}

/// The parts, separated by `sep`.
fn join_strings(parts: &Vec<String>, sep: &str) -> (r: String)
    ensures
        r@ == join(strings_view(parts@), sep@),
{
    let ghost pv = strings_view(parts@);
    let mut r = String::new();
    let mut i: usize = 0;
    while i < parts.len()
        invariant
            i <= parts@.len(),
            pv == strings_view(parts@),
            r@ == join(pv.take(i as int), sep@),
        decreases parts.len() - i,
    {
        let ghost before = r@;
        if i > 0 {
            append_str(&mut r, sep);
        }
        r.append(parts[i].as_str());
        proof {
            let t = pv.take(i + 1);
            assert(t.drop_last() =~= pv.take(i as int));
            if i == 0 {
                assert(before =~= Seq::<char>::empty());
                assert(r@ =~= t[0]);
            }
        }
        i = i + 1;
    }
    assert(pv.take(i as int) =~= pv);
    r
}

/// Every occurrence of `pat` in `s`, from the left, replaced by `rep`.
fn replace_text(s: &String, pat: &str, rep: &String) -> (r: String)
    ensures
        r@ == replace_all(s@, pat@, rep@),
{
    let v = chars_of(s.as_str());
    let p = chars_of(pat);
    let mut r = String::new();
    if p.len() == 0 {
        r.append(s.as_str());
        assert(r@ =~= s@);
        return r;
    }
    let mut i: usize = 0;
    assert(v@.skip(0) =~= v@);
    assert(r@ + replace_all(v@, p@, rep@) =~= replace_all(v@, p@, rep@));
    while i < v.len()
        invariant
            i <= v@.len(),
            p@ == pat@,
            p@.len() > 0,
            v@ == s@,
            r@ + replace_all(v@.skip(i as int), p@, rep@) == replace_all(v@, p@, rep@),
        decreases v.len() - i,
    {
        let ghost rest = v@.skip(i as int);
        let vlen = v.len();
        let mut matched = vlen - i >= p.len();
        let mut k: usize = 0;
        while matched && k < p.len()
            invariant
                0 <= k <= p@.len(),
                i <= v@.len(),
                rest == v@.skip(i as int),
                rest.len() == v@.len() - i,
                vlen == v@.len(),
                matched ==> rest.len() >= p@.len(),
                matched ==> forall|x: int| 0 <= x < k ==> rest[x] == p@[x],
                !matched ==> rest.len() < p@.len() || rest.take(p@.len() as int) != p@,
            decreases p.len() - k + if matched { 1int } else { 0int },
        {
            assert(k < rest.len());
            assert(i + k < v@.len());
            if v[i + k] != p[k] {
                assert(rest.take(p@.len() as int)[k as int] != p@[k as int]);
                matched = false;
            } else {
                k = k + 1;
            }
        }
        if matched {
            assert(rest.take(p@.len() as int) =~= p@);
            r.append(rep.as_str());
            assert(rest.skip(p@.len() as int) =~= v@.skip(i + p@.len()));
            i = i + p.len();
        } else {
            let ghost before = r@;
            proof {
                if rest.len() < p@.len() {
                    assert(replace_all(rest.skip(1), p@, rep@) == rest.skip(1));
                    assert(rest =~= seq![rest[0]] + rest.skip(1));
                }
                assert(replace_all(rest, p@, rep@) == seq![rest[0]] + replace_all(rest.skip(1), p@, rep@));
            }
            push_char(&mut r, v[i]);
            assert(rest.skip(1) =~= v@.skip(i + 1));
            assert(r@ + replace_all(v@.skip(i + 1), p@, rep@) =~= before + (seq![rest[0]] + replace_all(rest.skip(1), p@, rep@)));
            i = i + 1;
        }
    }
    assert(v@.skip(i as int) =~= Seq::<char>::empty());
    assert(r@ + Seq::<char>::empty() =~= r@);
    r
}

/// One `    ty name;` line per field.
fn field_lines_text(fields: &Vec<&Field>) -> (r: String)
    ensures
        r@ == field_lines(field_refs_view(fields@)),
{
    let ghost fv = field_refs_view(fields@);
    let mut r = String::new();
    let mut i: usize = 0;
    while i < fields.len()
        invariant
            i <= fields@.len(),
            fv == field_refs_view(fields@),
            r@ == field_lines(fv.take(i as int)),
        decreases fields.len() - i,
    {
        append_str(&mut r, "    ");
        r.append(fields[i].ty.as_str());
        append_str(&mut r, " ");
        r.append(fields[i].name.as_str());
        append_str(&mut r, ";\n");
        assert(fv.take(i + 1).drop_last() =~= fv.take(i as int));
        i = i + 1;
    }
    assert(fv.take(i as int) =~= fv);
    r
}

/// `ty name` for each parameter, separated by `, `.
fn param_list_text(params: &Vec<(String, String)>) -> (r: String)
    ensures
        r@ == param_list(params_view(params@)),
{
    let ghost pv = params_view(params@);
    let mut r = String::new();
    let mut i: usize = 0;
    while i < params.len()
        invariant
            i <= params@.len(),
            pv == params_view(params@),
            r@ == param_list(pv.take(i as int)),
        decreases params.len() - i,
    {
        let ghost before = r@;
        if i > 0 {
            append_str(&mut r, ", ");
        }
        r.append(params[i].0.as_str());
        append_str(&mut r, " ");
        r.append(params[i].1.as_str());
        proof {
            assert(pv.take(i + 1).drop_last() =~= pv.take(i as int));
            if i == 0 {
                assert(before =~= Seq::<char>::empty());
                assert(r@ =~= pv.take(1)[0].0 + " "@ + pv.take(1)[0].1);
            }
        }
        i = i + 1;
    }
    assert(pv.take(i as int) =~= pv);
    r
}

/// `, ty name` for each parameter.
fn param_tail_text(params: &Vec<(String, String)>) -> (r: String)
    ensures
        r@ == param_tail(params_view(params@)),
{
    let ghost pv = params_view(params@);
    let mut r = String::new();
    let mut i: usize = 0;
    while i < params.len()
        invariant
            i <= params@.len(),
            pv == params_view(params@),
            r@ == param_tail(pv.take(i as int)),
        decreases params.len() - i,
    {
        append_str(&mut r, ", ");
        r.append(params[i].0.as_str());
        append_str(&mut r, " ");
        r.append(params[i].1.as_str());
        assert(pv.take(i + 1).drop_last() =~= pv.take(i as int));
        i = i + 1;
    }
    assert(pv.take(i as int) =~= pv);
    r
}

/// References to the fields of a struct definition.
fn field_refs<'b>(fields: &'b Vec<Field>) -> (r: Vec<&'b Field>)
    ensures
        field_refs_view(r@) == fields_view(fields@),
{
    let mut r: Vec<&'b Field> = Vec::new();
    let mut i: usize = 0;
    while i < fields.len()
        invariant
            i <= fields@.len(),
            field_refs_view(r@) == fields_view(fields@).take(i as int),
        decreases fields.len() - i,
    {
        let ghost before = field_refs_view(r@);
        r.push(&fields[i]);
        assert(field_refs_view(r@) =~= before.push(field_view(fields@[i as int])));
        assert(fields_view(fields@).take(i + 1) =~= fields_view(fields@).take(i as int).push(field_view(fields@[i as int])));
        i = i + 1;
    }
    assert(fields_view(fields@).take(i as int) =~= fields_view(fields@));
    r
}

pub open spec fn pairs_view(s: Seq<(String, String)>) -> Seq<(Seq<char>, Seq<char>)> {
    Seq::new(s.len(), |i: int| (s[i].0@, s[i].1@))
}

pub open spec fn infos_view(s: Seq<(String, bool, String)>) -> Seq<(Seq<char>, bool, Seq<char>)> {
    Seq::new(s.len(), |i: int| (s[i].0@, s[i].1, s[i].2@))
}

/// One field `argK` per thread argument.
fn arg_fields_text(infos: &Vec<(String, bool, String)>) -> (r: String)
    ensures
        r@ == arg_fields(infos_view(infos@)),
{
    let ghost iv = infos_view(infos@);
    let mut r = String::new();
    let mut i: usize = 0;
    while i < infos.len()
        invariant
            i <= infos@.len(),
            iv == infos_view(infos@),
            r@ == arg_fields(iv.take(i as int)),
        decreases infos.len() - i,
    {
        let ghost before = r@;
        append_str(&mut r, "    ");
        r.append(infos[i].0.as_str());
        let ghost mid = r@;
        if infos[i].1 {
            append_str(&mut r, "*");
        }
        assert(r@ =~= mid + star(infos@[i as int].1));
        append_str(&mut r, " arg");
        append_decimal(&mut r, i);
        append_str(&mut r, ";\n");
        assert(iv.take(i + 1).drop_last() =~= iv.take(i as int));
        assert(r@ =~= arg_fields(iv.take(i + 1)));
        i = i + 1;
    }
    assert(iv.take(i as int) =~= iv);
    r
}

/// One line `ty valK = args->argK;` per thread argument.
fn unpack_text(infos: &Vec<(String, bool, String)>) -> (r: String)
    ensures
        r@ == unpack_lines(infos_view(infos@)),
{
    let ghost iv = infos_view(infos@);
    let mut r = String::new();
    let mut i: usize = 0;
    while i < infos.len()
        invariant
            i <= infos@.len(),
            iv == infos_view(infos@),
            r@ == unpack_lines(iv.take(i as int)),
        decreases infos.len() - i,
    {
        append_str(&mut r, "    ");
        r.append(infos[i].0.as_str());
        let ghost mid = r@;
        if infos[i].1 {
            append_str(&mut r, "*");
        }
        assert(r@ =~= mid + star(infos@[i as int].1));
        append_str(&mut r, " val");
        append_decimal(&mut r, i);
        append_str(&mut r, " = args->arg");
        append_decimal(&mut r, i);
        append_str(&mut r, ";\n");
        assert(iv.take(i + 1).drop_last() =~= iv.take(i as int));
        assert(r@ =~= unpack_lines(iv.take(i + 1)));
        i = i + 1;
    }
    assert(iv.take(i as int) =~= iv);
    r
}

/// `val0`, `val1`, ... up to `n`.
fn val_names_vec(n: usize) -> (r: Vec<String>)
    ensures
        strings_view(r@) == val_names(n as nat),
{
    let mut r: Vec<String> = Vec::new();
    let mut i: usize = 0;
    while i < n
        invariant
            i <= n,
            strings_view(r@) == val_names(i as nat),
        decreases n - i,
    {
        let mut v = string_from("val");
        append_decimal(&mut v, i);
        let ghost before = strings_view(r@);
        r.push(v);
        assert(strings_view(r@) =~= before.push("val"@ + decimal(i as nat)));
        assert(val_names((i + 1) as nat) =~= val_names(i as nat).push("val"@ + decimal(i as nat)));
        i = i + 1;
    }
    r
}

/// A copy of a list of field references.
fn copy_field_refs<'b>(v: &Vec<&'b Field>) -> (r: Vec<&'b Field>)
    ensures
        r@ == v@,
{
    let mut r: Vec<&'b Field> = Vec::new();
    let mut i: usize = 0;
    while i < v.len()
        invariant
            i <= v@.len(),
            r@ == v@.take(i as int),
        decreases v.len() - i,
    {
        let f: &'b Field = v[i];
        r.push(f);
        assert(r@ =~= v@.take(i + 1));
        i = i + 1;
    }
    assert(v@.take(i as int) =~= v@);
    r
}

/// The fields not named `name`, in order.
fn drop_field_refs<'b>(v: &Vec<&'b Field>, name: &String) -> (r: Vec<&'b Field>)
    ensures
        field_refs_view(r@) == drop_field(field_refs_view(v@), name@),
{
    let ghost fv = field_refs_view(v@);
    let mut r: Vec<&'b Field> = Vec::new();
    let mut i: usize = 0;
    while i < v.len()
        invariant
            i <= v@.len(),
            fv == field_refs_view(v@),
            field_refs_view(r@) == drop_field(fv.take(i as int), name@),
        decreases v.len() - i,
    {
        let f: &'b Field = v[i];
        assert(fv.take(i + 1).drop_last() =~= fv.take(i as int));
        assert(fv.take(i + 1).last() == field_view(*f));
        if f.name != *name {
            let ghost before = field_refs_view(r@);
            r.push(f);
            assert(field_refs_view(r@) =~= before.push(field_view(*f)));
        }
        i = i + 1;
    }
    assert(fv.take(i as int) =~= fv);
    r
}

/// A copy of a list of named function references.
fn copy_fn_refs<'b>(v: &Vec<(String, &'b FunctionDef)>) -> (r: Vec<(String, &'b FunctionDef)>)
    ensures
        fn_refs_view(r@) == fn_refs_view(v@),
{
    let mut r: Vec<(String, &'b FunctionDef)> = Vec::new();
    let mut i: usize = 0;
    while i < v.len()
        invariant
            i <= v@.len(),
            fn_refs_view(r@) == fn_refs_view(v@).take(i as int),
        decreases v.len() - i,
    {
        let ghost before = fn_refs_view(r@);
        let f: &'b FunctionDef = v[i].1;
        r.push((v[i].0.clone(), f));
        assert(fn_refs_view(r@) =~= before.push(fn_refs_view(v@)[i as int]));
        assert(fn_refs_view(v@).take(i + 1) =~= fn_refs_view(v@).take(i as int).push(fn_refs_view(v@)[i as int]));
        i = i + 1;
    }
    assert(fn_refs_view(v@).take(i as int) =~= fn_refs_view(v@));
    r
}

/// The entries not named `name`, in order.
fn drop_fn_refs<'b>(v: &Vec<(String, &'b FunctionDef)>, name: &String) -> (r: Vec<(String, &'b FunctionDef)>)
    ensures
        fn_refs_view(r@) == drop_key(fn_refs_view(v@), name@),
{
    let ghost fv = fn_refs_view(v@);
    let mut r: Vec<(String, &'b FunctionDef)> = Vec::new();
    let mut i: usize = 0;
    while i < v.len()
        invariant
            i <= v@.len(),
            fv == fn_refs_view(v@),
            fn_refs_view(r@) == drop_key(fv.take(i as int), name@),
        decreases v.len() - i,
    {
        assert(fv.take(i + 1).drop_last() =~= fv.take(i as int));
        assert(fv.take(i + 1).last() == fv[i as int]);
        if v[i].0 != *name {
            let ghost before = fn_refs_view(r@);
            let f: &'b FunctionDef = v[i].1;
            r.push((v[i].0.clone(), f));
            assert(fn_refs_view(r@) =~= before.push(fv[i as int]));
        }
        i = i + 1;
    }
    assert(fv.take(i as int) =~= fv);
    r
}

/// `first`, then the rest.
fn prepend(first: String, rest: Vec<String>) -> (r: Vec<String>)
    ensures
        strings_view(r@) == seq![first@] + strings_view(rest@),
{
    let mut r: Vec<String> = Vec::new();
    r.push(first);
    let mut i: usize = 0;
    while i < rest.len()
        invariant
            i <= rest@.len(),
            strings_view(r@) == seq![first@] + strings_view(rest@).take(i as int),
        decreases rest.len() - i,
    {
        let ghost before = strings_view(r@);
        let e = rest[i].clone();
        assert(e@ == rest@[i as int]@);
        r.push(e);
        assert(strings_view(r@) =~= before.push(rest@[i as int]@));
        assert(strings_view(rest@).take(i + 1) =~= strings_view(rest@).take(i as int).push(rest@[i as int]@));
        assert(strings_view(r@) =~= seq![first@] + strings_view(rest@).take(i + 1));
        i = i + 1;
    }
    assert(strings_view(rest@).take(i as int) =~= strings_view(rest@));
    r
}

impl<'a> Generator<'a> {
    /// There is always an innermost scope.
    pub closed spec fn wf(&self) -> bool {
        self.scope_vars@.len() >= 1
    }

    /// A generator with empty output, empty registries and one empty scope.
    pub fn new() -> (r: Self)
        ensures
            r.wf(),
            r@ == initial_gen(),
    {
        let mut scope_vars: Vec<Vec<(String, (String, OwnershipStatus))>> = Vec::new();
        scope_vars.push(Vec::new());
        let r = Generator {
            output: String::new(),
            spawn_decls: String::new(),
            spawn_funcs: String::new(),
            indent_level: 0,
            struct_registry: Vec::new(),
            bind_registry: Vec::new(),
            scope_vars,
            defined_destructors: Vec::new(),
            spawn_counter: 0,
        };
        assert(var_scope_view(r.scope_vars@[0]@) =~= Seq::<VarEntry>::empty());
        assert(r@.vars =~= seq![Seq::<VarEntry>::empty()]);
        assert(r@.structs =~= Seq::empty());
        assert(r@.binds =~= Seq::empty());
        assert(r@.destructors =~= Seq::empty());
        r
    }

    fn emit_str(&mut self, s: &str)
        ensures
            final(self).scope_vars@.len() == old(self).scope_vars@.len(),
            final(self)@ == emit(old(self)@, s@),
    {
        self.output.append(s);
    }

    fn emit_string(&mut self, s: &String)
        ensures
            final(self).scope_vars@.len() == old(self).scope_vars@.len(),
            final(self)@ == emit(old(self)@, s@),
    {
        self.output.append(s.as_str());
    }

    fn push_indent(&mut self)
        ensures
            final(self).scope_vars@.len() == old(self).scope_vars@.len(),
            final(self)@ == indented(old(self)@),
    {
        let mut t = String::new();
        let mut i: usize = 0;
        while i < self.indent_level
            invariant
                i <= self.indent_level,
                t@ == indent_text(i as nat),
            decreases self.indent_level - i,
        {
            append_str(&mut t, "    ");
            i = i + 1;
        }
        self.output.append(t.as_str());
    }

    /// The innermost scope holding `name`, and its position there.
    fn var_position(&self, name: &String) -> (r: Option<(usize, usize)>)
        ensures
            match r {
                Some((l, p)) => var_level(self@.vars, name@) == l as int
                    && l < self.scope_vars@.len()
                    && p < self.scope_vars@[l as int]@.len()
                    && first_pos(keys_of(self@.vars[l as int]), name@) == p as int,
                None => var_level(self@.vars, name@) == -1,
            },
    {
        let ghost vs = self@.vars;
        proof {
            lemma_var_level(vs, name@);
        }
        let mut i = self.scope_vars.len();
        while i > 0
            invariant
                i <= self.scope_vars@.len(),
                vs == self@.vars,
                forall|j: int| i <= j < vs.len() ==> first_pos(keys_of(#[trigger] vs[j]), name@) < 0,
            decreases i,
        {
            i = i - 1;
            let ghost sv = vs[i as int];
            assert(keys_of(sv) =~= key_texts(self.scope_vars@[i as int]@));
            match find_key(&self.scope_vars[i], name) {
                Some(p) => {
                    proof {
                        lemma_var_level(vs, name@);
                        lemma_first_pos(keys_of(sv), name@);
                        let l = var_level(vs, name@);
                        if l > i as int {
                            assert(first_pos(keys_of(vs[l]), name@) < 0);
                        }
                    }
                    return Some((i, p));
                },
                None => {},
            }
        }
        proof {
            lemma_var_level(vs, name@);
            let l = var_level(vs, name@);
            if l >= 0 {
                assert(first_pos(keys_of(vs[l]), name@) < 0);
            }
        }
        None
    }

    /// Marks the innermost variable named `name` as moved.
    fn mark_moved(&mut self, name: &String)
        ensures
            final(self).scope_vars@.len() == old(self).scope_vars@.len(),
            final(self)@ == moved(old(self)@, name@),
    {
        let ghost g = self@;
        match self.var_position(name) {
            Some((l, p)) => {
                let ty = self.scope_vars[l][p].1.0.clone();
                let mut scope: Vec<(String, (String, OwnershipStatus))> = Vec::new();
                std::mem::swap(&mut scope, &mut self.scope_vars[l]);
                let ghost sv = var_scope_view(scope@);
                assert(sv == g.vars[l as int]);
                scope.set(p, (name.clone(), (ty, OwnershipStatus::Moved)));
                let ghost nv = var_scope_view(scope@);
                self.scope_vars.set(l, scope);
                proof {
                    lemma_first_pos(keys_of(sv), name@);
                    assert(assoc_get(sv, name@) == Some(sv[p as int].1));
                    assert(nv =~= assoc_put(sv, name@, (sv[p as int].1.0, OwnershipStatus::Moved)));
                    assert(self@.vars =~= set_moved(g.vars, name@));
                }
            },
            None => {},
        }
    }

    fn mark_if_identifier(&mut self, e: &Node<Expression>)
        ensures
            final(self).scope_vars@.len() == old(self).scope_vars@.len(),
            final(self)@ == moved_if_ident(old(self)@, expr_node_view(*e)),
    {
        match &e.data {
            Expression::Identifier(n) => self.mark_moved(n),
            _ => {},
        }
    }

    /// Records `name` with its type and status in the innermost scope.
    fn put_variable(&mut self, name: &String, ty: &String, st: OwnershipStatus)
        ensures
            final(self).scope_vars@.len() == old(self).scope_vars@.len(),
            final(self)@ == put_var(old(self)@, name@, ty@, st),
    {
        let ghost g = self@;
        let n = self.scope_vars.len();
        if n > 0 {
            let mut scope: Vec<(String, (String, OwnershipStatus))> = Vec::new();
            std::mem::swap(&mut scope, &mut self.scope_vars[n - 1]);
            let ghost sv = var_scope_view(scope@);
            assert(sv == g.vars.last());
            assert(keys_of(sv) =~= key_texts(scope@));
            match find_key(&scope, name) {
                Some(p) => {
                    scope.set(p, (name.clone(), (ty.clone(), st)));
                },
                None => {
                    scope.push((name.clone(), (ty.clone(), st)));
                },
            }
            let ghost nv = var_scope_view(scope@);
            assert(nv =~= assoc_put(sv, name@, (ty@, st)));
            self.scope_vars.set(n - 1, scope);
            assert(self@.vars =~= g.vars.update(g.vars.len() - 1, assoc_put(g.vars.last(), name@, (ty@, st))));
        }
    }

    /// The type of an expression, without trailing `*`s, and whether it is reached through a pointer.
    #[verifier::loop_isolation(false)]
    fn get_type_info(&self, e: &Node<Expression>) -> (r: (String, bool))
        ensures
            (r.0@, r.1) == type_info(self@, expr_node_view(*e)),
        decreases *e,
    {
        let ghost g = self@;
        match &e.data {
            Expression::Identifier(name) => {
                match self.var_position(name) {
                    Some((l, p)) => {
                        let entry = &self.scope_vars[l][p].1;
                        let (t, ends) = strip_stars(&entry.0);
                        let alias = match entry.1 {
                            OwnershipStatus::Alias { .. } => true,
                            _ => false,
                        };
                        proof {
                            lemma_first_pos(keys_of(g.vars[l as int]), name@);
                            assert(var_info(g.vars, name@) == Some(g.vars[l as int][p as int].1));
                        }
                        return (t, ends || alias);
                    },
                    None => {},
                }
            },
            Expression::MemberAccess { receiver, member, .. } => {
                let (base, _) = self.get_type_info(receiver);
                assert(keys_of(g.structs) =~= key_texts(self.struct_registry@));
                match find_key(&self.struct_registry, &base) {
                    Some(i) => {
                        let fields = &self.struct_registry[i].1;
                        let ghost fv = field_refs_view(fields@);
                        let ghost names = Seq::new(fv.len(), |x: int| fv[x].name);
                        proof {
                            lemma_first_pos(keys_of(g.structs), base@);
                            lemma_first_pos(names, member@);
                        }
                        let mut j: usize = 0;
                        while j < fields.len()
                            invariant
                                j <= fields@.len(),
                                fv == field_refs_view(fields@),
                                names == Seq::new(fv.len(), |x: int| fv[x].name),
                                forall|x: int| 0 <= x < j ==> names[x] != member@,
                                -1 <= first_pos(names, member@) < names.len(),
                                first_pos(names, member@) == -1 <==> forall|x: int| 0 <= x < names.len() ==> names[x] != member@,
                                first_pos(names, member@) >= 0 ==> names[first_pos(names, member@)] == member@,
                            decreases fields.len() - j,
                        {
                            if fields[j].name == *member {
                                let (t, ends) = strip_stars(&fields[j].ty);
                                proof {
                                    lemma_first_pos(names, member@);
                                    let q = first_pos(names, member@);
                                    assert(names[j as int] == member@);
                                    if q > j as int {
                                        assert(names[j as int] != member@);
                                    }
                                    assert(field_pos(fv, member@) == j as int);
                                    assert(first_pos(keys_of(g.structs), base@) == i as int);
                                    assert(assoc_get(g.structs, base@) == Some(fv));
                                    assert(fv[j as int].ty == fields@[j as int].ty@);
                                }
                                return (t, ends);
                            }
                            j = j + 1;
                        }
                    },
                    None => {},
                }
            },
            _ => {},
        }
        (string_from("Unknown"), false)
    }

    /// The C text of an expression; identifiers handed over by value are marked moved.
    fn translate_expr(&mut self, expr: &Node<Expression>) -> (r: String)
        ensures
            final(self).scope_vars@.len() == old(self).scope_vars@.len(),
            (final(self)@, r@) == translate(old(self)@, expr_node_view(*expr)),
        decreases *expr, 0int,
    {
        match &expr.data {
            Expression::Identifier(name) => name.clone(),
            Expression::Number(n) => n.clone(),
            Expression::StringLiteral(s) => {
                let mut r = String::new();
                push_char(&mut r, '"');
                r.append(s.as_str());
                push_char(&mut r, '"');
                assert(r@ =~= seq!['"'] + s@ + seq!['"']);
                r
            },
            Expression::BinaryOp(left, op, right) => {
                let l_str = self.translate_expr(left);
                let r_str = self.translate_expr(right);
                if str_is(op, " ") {
                    let mut out = l_str;
                    append_str(&mut out, " ");
                    out.append(r_str.as_str());
                    return out;
                }
                if str_is(op, "=") || str_is(op, "+=") || str_is(op, "-=") {
                    self.mark_if_identifier(right);
                    let mut out = l_str;
                    append_str(&mut out, " ");
                    out.append(op.as_str());
                    append_str(&mut out, " ");
                    out.append(r_str.as_str());
                    return out;
                }
                let mut out = string_from("(");
                out.append(l_str.as_str());
                append_str(&mut out, ") ");
                out.append(op.as_str());
                append_str(&mut out, " (");
                out.append(r_str.as_str());
                append_str(&mut out, ")");
                out
            },
            Expression::Assignment(name, val) => {
                let val_str = self.translate_expr(val);
                self.mark_if_identifier(val);
                let mut out = name.clone();
                append_str(&mut out, " = ");
                out.append(val_str.as_str());
                out
            },
            Expression::UnaryOp(op, x, is_postfix) => {
                let x_str = self.translate_expr(x);
                if *is_postfix {
                    let mut out = x_str;
                    out.append(op.as_str());
                    out
                } else {
                    let mut out = op.clone();
                    out.append(x_str.as_str());
                    out
                }
            },
            Expression::Call(name, args) => {
                let parts = self.translate_args(args);
                let mut out = name.clone();
                append_str(&mut out, "(");
                let joined = join_strings(&parts, ", ");
                out.append(joined.as_str());
                append_str(&mut out, ")");
                out
            },
            Expression::MethodCall { receiver, method, args } => {
                let (obj_ty, is_ptr) = self.get_type_info(receiver);
                let receiver_raw = self.translate_receiver(receiver);
                let self_arg = if is_ptr {
                    receiver_raw
                } else {
                    let mut a = string_from("&");
                    a.append(receiver_raw.as_str());
                    a
                };
                if str_is(method, "clone") {
                    let mut out = obj_ty;
                    append_str(&mut out, "_clone(");
                    out.append(self_arg.as_str());
                    append_str(&mut out, ")");
                    return out;
                }
                let parts = self.translate_args(args);
                let all = prepend(self_arg, parts);
                let mut out = obj_ty;
                append_str(&mut out, "_");
                out.append(method.as_str());
                append_str(&mut out, "(");
                let joined = join_strings(&all, ", ");
                out.append(joined.as_str());
                append_str(&mut out, ")");
                out
            },
            Expression::MemberAccess { receiver, member, is_ptr: force_ptr } => {
                let (_, is_ptr) = self.get_type_info(receiver);
                let receiver_raw = self.translate_receiver(receiver);
                let mut out = receiver_raw;
                if is_ptr || *force_ptr {
                    append_str(&mut out, "->");
                } else {
                    append_str(&mut out, ".");
                }
                out.append(member.as_str());
                out
            },
        }
    }

    /// The receiver of a call or member access: a name as it is, anything else translated.
    fn translate_receiver(&mut self, expr: &Node<Expression>) -> (r: String)
        ensures
            final(self).scope_vars@.len() == old(self).scope_vars@.len(),
            (final(self)@, r@) == translate(old(self)@, expr_node_view(*expr)),
        decreases *expr, 1int,
    {
        match &expr.data {
            Expression::Identifier(name) => name.clone(),
            _ => self.translate_expr(expr),
        }
    }

    /// Each argument translated and, if an identifier, moved.
    fn translate_args(&mut self, args: &Vec<Node<Expression>>) -> (r: Vec<String>)
        ensures
            final(self).scope_vars@.len() == old(self).scope_vars@.len(),
            (final(self)@, strings_view(r@)) == translate_args(old(self)@, exprs_view(args@), 0),
        decreases args, 0int,
    {
        let ghost av = exprs_view(args@);
        let mut r: Vec<String> = Vec::new();
        let mut i: usize = 0;
        while i < args.len()
            invariant
                i <= args@.len(),
                av == exprs_view(args@),
                self.scope_vars@.len() == old(self).scope_vars@.len(),
                translate_args(old(self)@, av, 0).0 == translate_args(self@, av, i as int).0,
                translate_args(old(self)@, av, 0).1 == strings_view(r@) + translate_args(self@, av, i as int).1,
            decreases args.len() - i,
        {
            assert(av[i as int] == expr_node_view(args@[i as int]));
            let ghost g = self@;
            let s = self.translate_expr(&args[i]);
            self.mark_if_identifier(&args[i]);
            let ghost rv = strings_view(r@);
            r.push(s);
            proof {
                let (g2, rest) = translate_args(self@, av, i + 1);
                assert(translate_args(g, av, i as int) == (g2, seq![s@] + rest));
                assert(strings_view(r@) =~= rv.push(s@));
                assert(rv + (seq![s@] + rest) =~= rv.push(s@) + rest);
            }
            i = i + 1;
        }
        assert(strings_view(r@) + Seq::<Seq<char>>::empty() =~= strings_view(r@));
        r
    }

    /// The `_clone` lines: a field whose type is a registered struct is cloned with that struct's `_clone`.
    fn clone_lines_text(&self, fields: &Vec<&Field>) -> (r: String)
        ensures
            r@ == clone_lines(self@.structs, field_refs_view(fields@)),
    {
        let ghost fv = field_refs_view(fields@);
        let ghost st = self@.structs;
        assert(keys_of(st) =~= key_texts(self.struct_registry@));
        let mut r = String::new();
        let mut i: usize = 0;
        while i < fields.len()
            invariant
                i <= fields@.len(),
                fv == field_refs_view(fields@),
                st == self@.structs,
                keys_of(st) == key_texts(self.struct_registry@),
                r@ == clone_lines(st, fv.take(i as int)),
            decreases fields.len() - i,
        {
            let f = fields[i];
            assert(fv.take(i + 1).drop_last() =~= fv.take(i as int));
            assert(fv.take(i + 1).last() == field_view(*f));
            append_str(&mut r, "    dest.");
            r.append(f.name.as_str());
            match find_key(&self.struct_registry, &f.ty) {
                Some(_) => {
                    append_str(&mut r, " = ");
                    r.append(f.ty.as_str());
                    append_str(&mut r, "_clone(&source->");
                    r.append(f.name.as_str());
                    append_str(&mut r, ");\n");
                },
                None => {
                    append_str(&mut r, " = source->");
                    r.append(f.name.as_str());
                    append_str(&mut r, ";\n");
                },
            }
            assert(r@ =~= clone_lines(st, fv.take(i + 1)));
            i = i + 1;
        }
        assert(fv.take(i as int) =~= fv);
        r
    }

    /// The body of `_init_defaults`.
    fn gen_defaults(&mut self, fields: &Vec<&Field>)
        ensures
            final(self).scope_vars@.len() == old(self).scope_vars@.len(),
            final(self)@ == gen_defaults(old(self)@, field_refs_view(fields@), 0),
    {
        let ghost fv = field_refs_view(fields@);
        let mut i: usize = 0;
        while i < fields.len()
            invariant
                i <= fields@.len(),
                fv == field_refs_view(fields@),
                self.scope_vars@.len() == old(self).scope_vars@.len(),
                gen_defaults(old(self)@, fv, 0) == gen_defaults(self@, fv, i as int),
            decreases fields.len() - i,
        {
            let f = fields[i];
            assert(fv[i as int] == field_view(*f));
            match &f.default_value {
                Some(v) => {
                    let t = self.translate_expr(v);
                    let mut line = string_from("    host->");
                    line.append(f.name.as_str());
                    append_str(&mut line, " = ");
                    line.append(t.as_str());
                    append_str(&mut line, ";\n");
                    self.emit_string(&line);
                },
                None => {
                    let mut line = string_from("    memset(&host->");
                    line.append(f.name.as_str());
                    append_str(&mut line, ", 0, sizeof(");
                    line.append(f.ty.as_str());
                    append_str(&mut line, "));\n");
                    self.emit_string(&line);
                },
            }
            i = i + 1;
        }
    }

    /// A struct becomes a `typedef`, a `_clone` function and an `_init_defaults` function.
    fn generate_struct_def(&mut self, name: &String, fields: &Vec<&Field>)
        ensures
            final(self).scope_vars@.len() == old(self).scope_vars@.len(),
            final(self)@ == gen_struct_def(old(self)@, name@, field_refs_view(fields@)),
    {
        let lines = field_lines_text(fields);
        let clones = self.clone_lines_text(fields);
        let mut t = string_from("typedef struct ");
        t.append(name.as_str());
        append_str(&mut t, " {\n");
        t.append(lines.as_str());
        append_str(&mut t, "} ");
        t.append(name.as_str());
        append_str(&mut t, ";\n\n");
        t.append(name.as_str());
        append_str(&mut t, " ");
        t.append(name.as_str());
        append_str(&mut t, "_clone(const ");
        t.append(name.as_str());
        append_str(&mut t, "* source) {\n");
        append_str(&mut t, "    ");
        t.append(name.as_str());
        append_str(&mut t, " dest;\n");
        t.append(clones.as_str());
        append_str(&mut t, "    return dest;\n");
        append_str(&mut t, "}\n\n");
        append_str(&mut t, "void ");
        t.append(name.as_str());
        append_str(&mut t, "_init_defaults(");
        t.append(name.as_str());
        append_str(&mut t, "* host) {\n");
        self.emit_string(&t);
        self.gen_defaults(fields);
        self.emit_str("}\n\n");
    }

    /// Records each parameter in the innermost scope.
    fn put_params(&mut self, params: &Vec<(String, String)>)
        ensures
            final(self).scope_vars@.len() == old(self).scope_vars@.len(),
            final(self)@ == put_params(old(self)@, params_view(params@)),
    {
        let ghost pv = params_view(params@);
        let mut i: usize = 0;
        while i < params.len()
            invariant
                i <= params@.len(),
                pv == params_view(params@),
                self.scope_vars@.len() == old(self).scope_vars@.len(),
                self@ == put_params(old(self)@, pv.take(i as int)),
            decreases params.len() - i,
        {
            self.put_variable(&params[i].1, &params[i].0, OwnershipStatus::Active);
            assert(pv.take(i + 1).drop_last() =~= pv.take(i as int));
            i = i + 1;
        }
        assert(pv.take(i as int) =~= pv);
    }

    fn open_scope(&mut self)
        ensures
            final(self)@ == open_scope(old(self)@),
            final(self).scope_vars@.len() == old(self).scope_vars@.len() + 1,
    {
        let ghost g = self@;
        self.scope_vars.push(Vec::new());
        assert(var_scope_view(self.scope_vars@.last()@) =~= Seq::<VarEntry>::empty());
        assert(self@.vars =~= g.vars.push(Seq::empty()));
    }

    fn close_scope(&mut self) -> (r: Vec<(String, (String, OwnershipStatus))>)
        requires
            old(self).scope_vars@.len() >= 1,
        ensures
            final(self)@ == close_scope(old(self)@),
            var_scope_view(r@) == old(self)@.vars.last(),
            final(self).scope_vars@.len() == old(self).scope_vars@.len() - 1,
    {
        let ghost g = self@;
        let r = match self.scope_vars.pop() {
            Some(s) => s,
            None => Vec::new(),
        };
        assert(self@.vars =~= g.vars.drop_last());
        r
    }

    /// A bound function becomes a C function whose first parameter is `host`.
    fn generate_bound_function(&mut self, sname: &String, fname: &String, f: &FunctionDef)
        requires
            old(self).wf(),
        ensures
            final(self).wf(),
            final(self).scope_vars@.len() == old(self).scope_vars@.len(),
            final(self)@ == gen_bound_fn(old(self)@, sname@, fname@, func_view(*f)),
        decreases *f, 0int,
    {
        let mut t = f.return_ty.clone();
        append_str(&mut t, " ");
        if *fname == *sname {
            t.append(sname.as_str());
            append_str(&mut t, "_init");
        } else if str_is(fname, "destroy") {
            t.append(sname.as_str());
            append_str(&mut t, "_destroy");
        } else {
            t.append(sname.as_str());
            append_str(&mut t, "_");
            t.append(fname.as_str());
        }
        let ghost head = t@;
        assert(head =~= f.return_ty@ + " "@ + bound_c_name(sname@, fname@));
        append_str(&mut t, "(");
        t.append(sname.as_str());
        append_str(&mut t, "* host");
        let tail = param_tail_text(&f.params);
        t.append(tail.as_str());
        append_str(&mut t, ") ");
        assert(t@ =~= f.return_ty@ + " "@ + bound_c_name(sname@, fname@) + "("@ + sname@ + "* host"@
            + param_tail(params_view(f.params@)) + ") "@);
        self.emit_string(&t);
        self.open_scope();
        let host = string_from("host");
        let mut host_ty = sname.clone();
        append_str(&mut host_ty, "*");
        self.put_variable(&host, &host_ty, OwnershipStatus::Active);
        self.put_params(&f.params);
        assert(func_view(*f).body == Box::new(stmt_node_view(*f.body)));
        self.generate_statement(&f.body);
        self.close_scope();
        self.emit_str("\n\n");
    }

    /// The C text of one statement.
    fn generate_statement(&mut self, node: &Node<Statement>)
        requires
            old(self).wf(),
        ensures
            final(self).wf(),
            final(self).scope_vars@.len() == old(self).scope_vars@.len(),
            final(self)@ == gen_stmt(old(self)@, stmt_node_view(*node)),
        decreases *node, 1int,
    {
        match &node.data {
            Statement::StructDef(def) => {
                let refs = field_refs(&def.fields);
                self.generate_struct_def(&def.name, &refs);
            },
            Statement::BindBlock(_) => self.gen_bind_block(node),
            Statement::FunctionDef(_) => self.gen_function_def(node),
            Statement::Block(_) => self.gen_block(node),
            Statement::LetDeclaration(decl) => self.gen_var_decl(decl, OwnershipStatus::Active),
            Statement::UnsafeDeclaration(decl) => self.gen_var_decl(decl, OwnershipStatus::Unmanaged),
            Statement::AliasDeclaration(decl) => self.gen_alias(decl),
            Statement::Return(expr) => self.gen_return(expr),
            Statement::Expression(expr) => {
                self.push_indent();
                let mut t = self.translate_expr(expr);
                append_str(&mut t, ";\n");
                self.emit_string(&t);
            },
            Statement::If { .. } => self.gen_if(node),
            Statement::For { .. } => self.gen_for(node),
            Statement::While { .. } => self.gen_while(node),
            Statement::RawC(c) => {
                self.emit_string(c);
                self.emit_str("\n");
            },
            Statement::Spawn(func, args) => self.gen_spawn(func, args),
            Statement::ForkBlock(_) => {},
        }
    }

    #[verifier::loop_isolation(false)]
    fn gen_bind_block(&mut self, node: &Node<Statement>)
        requires
            old(self).wf(),
            node.data is BindBlock,
        ensures
            final(self).wf(),
            final(self).scope_vars@.len() == old(self).scope_vars@.len(),
            final(self)@ == gen_stmt(old(self)@, stmt_node_view(*node)),
        decreases *node, 0int,
    {
        match &node.data {
            Statement::BindBlock(bind) => {
                let ghost fv = funcs_view(bind.functions@);
                let ghost g0 = self@;
                assert(stmt_node_view(*node).data == StmtV::BindBlock(crate::ast::BindBlockV { struct_name: bind.struct_name@, functions: fv }));
                let mut i: usize = 0;
                while i < bind.functions.len()
                    invariant
                        self.wf(),
                        self.scope_vars@.len() == old(self).scope_vars@.len(),
                        i <= bind.functions@.len(),
                        fv == funcs_view(bind.functions@),
                        gen_bound_fns(g0, bind.struct_name@, fv, 0) == gen_bound_fns(self@, bind.struct_name@, fv, i as int),
                        g0 == old(self)@,
                    decreases bind.functions.len() - i,
                {
                    assert(fv[i as int] == func_view(bind.functions@[i as int]));
                    self.generate_bound_function(&bind.struct_name, &bind.functions[i].name, &bind.functions[i]);
                    i = i + 1;
                }
            },
            _ => {},
        }
    }

    fn gen_function_def(&mut self, node: &Node<Statement>)
        requires
            old(self).wf(),
            node.data is FunctionDef,
        ensures
            final(self).wf(),
            final(self).scope_vars@.len() == old(self).scope_vars@.len(),
            final(self)@ == gen_stmt(old(self)@, stmt_node_view(*node)),
        decreases *node, 0int,
    {
        match &node.data {
            Statement::FunctionDef(func) => {
                assert(stmt_node_view(*node).data == StmtV::FunctionDef(func_view(*func)));
                assert(func_view(*func).body == Box::new(stmt_node_view(*func.body)));
                let mut t = func.return_ty.clone();
                append_str(&mut t, " ");
                t.append(func.name.as_str());
                append_str(&mut t, "(");
                let ps = param_list_text(&func.params);
                t.append(ps.as_str());
                append_str(&mut t, ") ");
                self.emit_string(&t);
                self.open_scope();
                self.put_params(&func.params);
                self.generate_statement(&func.body);
                self.close_scope();
                self.emit_str("\n\n");
            },
            _ => {},
        }
    }

    /// A block opens a scope; its live variables with a destructor are destroyed at its end.
    #[verifier::loop_isolation(false)]
    fn gen_block(&mut self, node: &Node<Statement>)
        requires
            old(self).wf(),
            node.data is Block,
        ensures
            final(self).wf(),
            final(self).scope_vars@.len() == old(self).scope_vars@.len(),
            final(self)@ == gen_stmt(old(self)@, stmt_node_view(*node)),
        decreases *node, 0int,
    {
        match &node.data {
            Statement::Block(stmts) => {
                let ghost sv = stmts_view(stmts@);
                assert(stmt_node_view(*node).data == StmtV::Block(sv));
                self.emit_str("{\n");
                let saved = self.indent_level;
                if saved < usize::MAX {
                    self.indent_level = saved + 1;
                }
                self.open_scope();
                let ghost g2 = self@;
                let mut i: usize = 0;
                while i < stmts.len()
                    invariant
                        self.wf(),
                        self.scope_vars@.len() == old(self).scope_vars@.len() + 1,
                        i <= stmts@.len(),
                        sv == stmts_view(stmts@),
                        gen_stmts(g2, sv, 0) == gen_stmts(self@, sv, i as int),
                    decreases stmts.len() - i,
                {
                    assert(sv[i as int] == stmt_node_view(stmts@[i as int]));
                    self.generate_statement(&stmts[i]);
                    i = i + 1;
                }
                let ghost g3 = self@;
                let scope = self.close_scope();
                let ghost list = scope_destroys(g3.vars.last(), g3.destructors);
                let ghost gc = self@;
                let ghost mut done: Seq<(Seq<char>, Seq<char>)> = Seq::empty();
                let mut j = scope.len();
                let ghost svw = var_scope_view(scope@);
                assert(svw.take(j as int) =~= svw);
                while j > 0
                    invariant
                        j <= scope@.len(),
                        svw == var_scope_view(scope@),
                        svw == g3.vars.last(),
                        self.wf(),
                        self.scope_vars@.len() == old(self).scope_vars@.len(),
                        self@.destructors == g3.destructors,
                        list == done + scope_destroys(svw.take(j as int), g3.destructors),
                        self@ == emit_destroys(gc, done),
                    decreases j,
                {
                    j = j - 1;
                    let entry = &scope[j];
                    assert(svw.take(j + 1).drop_last() =~= svw.take(j as int));
                    assert(svw.take(j + 1).last() == svw[j as int]);
                    let has = contains_string(&self.defined_destructors, &entry.1.0);
                    if entry.1.1 == OwnershipStatus::Active && has {
                        self.push_indent();
                        let mut line = entry.1.0.clone();
                        append_str(&mut line, "_destroy(&");
                        line.append(entry.0.as_str());
                        append_str(&mut line, ");\n");
                        self.emit_string(&line);
                        proof {
                            let e = (entry.0@, entry.1.0@);
                            assert(line@ == destroy_line(e));
                            assert(done.push(e).drop_last() =~= done);
                            done = done.push(e);
                            assert(list =~= done + scope_destroys(svw.take(j as int), g3.destructors));
                        }
                    } else {
                        assert(list =~= done + scope_destroys(svw.take(j as int), g3.destructors));
                    }
                }
                assert(svw.take(0) =~= Seq::<VarEntry>::empty());
                assert(done =~= list);
                self.indent_level = saved;
                self.push_indent();
                self.emit_str("}");
            },
            _ => {},
        }
    }

    /// A `let` or `unsafe` declaration, with its constructor calls.
    fn gen_var_decl(&mut self, decl: &VariableDeclaration, status: OwnershipStatus)
        requires
            old(self).wf(),
        ensures
            final(self).wf(),
            final(self).scope_vars@.len() == old(self).scope_vars@.len(),
            final(self)@ == gen_var_decl(
                old(self)@,
                decl.ty@,
                decl.name@,
                opt_expr_view(decl.init),
                var_decl_view(*decl).constructor_call,
                status,
            ),
    {
        self.push_indent();
        let mut t = decl.ty.clone();
        append_str(&mut t, " ");
        t.append(decl.name.as_str());
        append_str(&mut t, " ");
        self.emit_string(&t);
        match &decl.init {
            Some(init) => {
                let tr = self.translate_expr(init);
                let mut line = string_from("= ");
                line.append(tr.as_str());
                append_str(&mut line, ";\n");
                self.emit_string(&line);
                self.mark_if_identifier(init);
            },
            None => {
                self.emit_str("= {0};\n");
            },
        }
        self.put_variable(&decl.name, &decl.ty, status);
        match &decl.constructor_call {
            Some(call) => {
                self.push_indent();
                let mut a = decl.ty.clone();
                append_str(&mut a, "_init_defaults(&");
                a.append(decl.name.as_str());
                append_str(&mut a, ");\n");
                self.emit_string(&a);
                self.push_indent();
                let mut b = decl.ty.clone();
                append_str(&mut b, "_init(&");
                b.append(decl.name.as_str());
                self.emit_string(&b);
                let ghost av = crate::ast::exprs_view(call.args@);
                let ghost g5 = self@;
                let mut i: usize = 0;
                while i < call.args.len()
                    invariant
                        self.wf(),
                        self.scope_vars@.len() == old(self).scope_vars@.len(),
                        i <= call.args@.len(),
                        av == crate::ast::exprs_view(call.args@),
                        ctor_args(g5, av, 0) == ctor_args(self@, av, i as int),
                    decreases call.args.len() - i,
                {
                    assert(av[i as int] == expr_node_view(call.args@[i as int]));
                    let tr = self.translate_expr(&call.args[i]);
                    let mut part = string_from(", ");
                    part.append(tr.as_str());
                    self.emit_string(&part);
                    self.mark_if_identifier(&call.args[i]);
                    i = i + 1;
                }
                self.emit_str(");\n");
            },
            None => {},
        }
    }

    /// An alias is a pointer to its source: `const` unless the alias is `mut`.
    fn gen_alias(&mut self, decl: &AliasDeclaration)
        requires
            old(self).wf(),
        ensures
            final(self).wf(),
            final(self).scope_vars@.len() == old(self).scope_vars@.len(),
            final(self)@ == gen_alias(old(self)@, alias_view(*decl)),
    {
        self.push_indent();
        let mut t = if decl.is_mut {
            decl.ty.clone()
        } else {
            let mut c = string_from("const ");
            c.append(decl.ty.as_str());
            c
        };
        append_str(&mut t, "* ");
        t.append(decl.name.as_str());
        append_str(&mut t, " = &");
        t.append(decl.source.as_str());
        append_str(&mut t, ";\n");
        self.emit_string(&t);
        self.put_variable(&decl.name, &decl.ty, OwnershipStatus::Alias { is_mut: decl.is_mut });
    }

    /// A returned variable moves out; before the `return`, every other live variable with a
    /// destructor is destroyed, innermost scope first.
    fn gen_return(&mut self, expr: &Option<Node<Expression>>)
        requires
            old(self).wf(),
        ensures
            final(self).wf(),
            final(self).scope_vars@.len() == old(self).scope_vars@.len(),
            final(self)@ == gen_return(old(self)@, opt_expr_view(*expr)),
    {
        match expr {
            Some(e) => self.mark_if_identifier(e),
            None => {},
        }
        let ghost g = self@;
        let ghost list = return_destroys(g.vars, g.destructors);
        let mut to_destroy: Vec<(String, String)> = Vec::new();
        let mut i = self.scope_vars.len();
        assert(g.vars.take(i as int) =~= g.vars);
        while i > 0
            invariant
                i <= self.scope_vars@.len(),
                self@ == g,
                list == pairs_view(to_destroy@) + return_destroys(g.vars.take(i as int), g.destructors),
            decreases i,
        {
            i = i - 1;
            let scope = &self.scope_vars[i];
            let ghost svw = g.vars[i as int];
            assert(svw == var_scope_view(scope@));
            assert(g.vars.take(i + 1).drop_last() =~= g.vars.take(i as int));
            assert(g.vars.take(i + 1).last() == svw);
            let mut j = scope.len();
            assert(svw.take(j as int) =~= svw);
            while j > 0
                invariant
                    j <= scope@.len(),
                    self@ == g,
                    svw == var_scope_view(scope@),
                    list == pairs_view(to_destroy@) + scope_destroys(svw.take(j as int), g.destructors)
                        + return_destroys(g.vars.take(i as int), g.destructors),
                decreases j,
            {
                j = j - 1;
                let entry = &scope[j];
                assert(svw.take(j + 1).drop_last() =~= svw.take(j as int));
                assert(svw.take(j + 1).last() == svw[j as int]);
                let ghost before = pairs_view(to_destroy@);
                let has = contains_string(&self.defined_destructors, &entry.1.0);
                if entry.1.1 == OwnershipStatus::Active && has {
                    to_destroy.push((entry.0.clone(), entry.1.0.clone()));
                    assert(pairs_view(to_destroy@) =~= before.push((entry.0@, entry.1.0@)));
                }
                assert(list =~= pairs_view(to_destroy@) + scope_destroys(svw.take(j as int), g.destructors)
                    + return_destroys(g.vars.take(i as int), g.destructors));
            }
            assert(svw.take(0) =~= Seq::<VarEntry>::empty());
            assert(list =~= pairs_view(to_destroy@) + return_destroys(g.vars.take(i as int), g.destructors));
        }
        assert(g.vars.take(0) =~= Seq::<Seq<VarEntry>>::empty());
        assert(list =~= pairs_view(to_destroy@));
        let mut k: usize = 0;
        while k < to_destroy.len()
            invariant
                k <= to_destroy@.len(),
                list == pairs_view(to_destroy@),
                self@ == emit_return_destroys(g, list.take(k as int)),
                self.scope_vars@.len() == old(self).scope_vars@.len(),
            decreases to_destroy.len() - k,
        {
            self.push_indent();
            let mut line = to_destroy[k].1.clone();
            append_str(&mut line, "_destroy(&");
            line.append(to_destroy[k].0.as_str());
            append_str(&mut line, ");\n");
            self.emit_string(&line);
            self.mark_moved(&to_destroy[k].0);
            assert(list.take(k + 1).drop_last() =~= list.take(k as int));
            assert(list.take(k + 1).last() == list[k as int]);
            k = k + 1;
        }
        assert(list.take(k as int) =~= list);
        self.push_indent();
        self.emit_str("return");
        match expr {
            Some(e) => {
                let t = self.translate_expr(e);
                let mut part = string_from(" ");
                part.append(t.as_str());
                self.emit_string(&part);
            },
            None => {},
        }
        self.emit_str(";\n");
    }

    fn gen_if(&mut self, node: &Node<Statement>)
        requires
            old(self).wf(),
            node.data is If,
        ensures
            final(self).wf(),
            final(self).scope_vars@.len() == old(self).scope_vars@.len(),
            final(self)@ == gen_stmt(old(self)@, stmt_node_view(*node)),
        decreases *node, 0int,
    {
        match &node.data {
            Statement::If { condition, then_branch, else_branch } => {
                self.push_indent();
                let c = self.translate_expr(condition);
                let mut t = string_from("if (");
                t.append(c.as_str());
                append_str(&mut t, ") ");
                self.emit_string(&t);
                self.generate_statement(then_branch);
                match else_branch {
                    Some(eb) => {
                        self.emit_str(" else ");
                        self.generate_statement(eb);
                    },
                    None => {},
                }
                self.emit_str("\n");
            },
            _ => {},
        }
    }

    /// The declaration in the head of a `for`.
    fn gen_for_decl(&mut self, d: &VariableDeclaration, status: OwnershipStatus)
        ensures
            final(self).scope_vars@.len() == old(self).scope_vars@.len(),
            final(self)@ == gen_for_decl(old(self)@, d.ty@, d.name@, opt_expr_view(d.init), status),
    {
        let mut t = d.ty.clone();
        append_str(&mut t, " ");
        t.append(d.name.as_str());
        append_str(&mut t, " ");
        self.emit_string(&t);
        match &d.init {
            Some(x) => {
                let v = self.translate_expr(x);
                let mut part = string_from("= ");
                part.append(v.as_str());
                self.emit_string(&part);
            },
            None => {},
        }
        self.put_variable(&d.name, &d.ty, status);
    }

    fn gen_opt_expr(&mut self, e: &Option<Node<Expression>>)
        ensures
            final(self).scope_vars@.len() == old(self).scope_vars@.len(),
            final(self)@ == gen_opt_expr(old(self)@, opt_expr_view(*e)),
    {
        match e {
            Some(x) => {
                let v = self.translate_expr(x);
                self.emit_string(&v);
            },
            None => {},
        }
    }

    fn gen_for(&mut self, node: &Node<Statement>)
        requires
            old(self).wf(),
            node.data is For,
        ensures
            final(self).wf(),
            final(self).scope_vars@.len() == old(self).scope_vars@.len(),
            final(self)@ == gen_stmt(old(self)@, stmt_node_view(*node)),
        decreases *node, 0int,
    {
        match &node.data {
            Statement::For { init, condition, step, body } => {
                self.push_indent();
                self.emit_str("for (");
                match init {
                    Some(s) => {
                        assert(stmt_node_view(**s).data == stmt_view(s.data));
                        match &s.data {
                            Statement::LetDeclaration(d) => self.gen_for_decl(d, OwnershipStatus::Active),
                            Statement::UnsafeDeclaration(d) => self.gen_for_decl(d, OwnershipStatus::Unmanaged),
                            Statement::Expression(x) => {
                                let v = self.translate_expr(x);
                                self.emit_string(&v);
                            },
                            _ => {},
                        }
                    },
                    None => {},
                }
                self.emit_str("; ");
                self.gen_opt_expr(condition);
                self.emit_str("; ");
                self.gen_opt_expr(step);
                self.emit_str(") ");
                self.generate_statement(body);
                self.emit_str("\n");
            },
            _ => {},
        }
    }

    fn gen_while(&mut self, node: &Node<Statement>)
        requires
            old(self).wf(),
            node.data is While,
        ensures
            final(self).wf(),
            final(self).scope_vars@.len() == old(self).scope_vars@.len(),
            final(self)@ == gen_stmt(old(self)@, stmt_node_view(*node)),
        decreases *node, 0int,
    {
        match &node.data {
            Statement::While { condition, body } => {
                self.push_indent();
                let c = self.translate_expr(condition);
                let mut t = string_from("while (");
                t.append(c.as_str());
                append_str(&mut t, ") ");
                self.emit_string(&t);
                self.generate_statement(body);
                self.emit_str("\n");
            },
            _ => {},
        }
    }

    /// The wrapper's destructor calls for arguments whose type has a destructor.
    fn arg_destroy_text(&self, infos: &Vec<(String, bool, String)>) -> (r: String)
        ensures
            r@ == arg_destroy_lines(infos_view(infos@), self@.destructors),
    {
        let ghost iv = infos_view(infos@);
        let mut r = String::new();
        let mut i: usize = 0;
        while i < infos.len()
            invariant
                i <= infos@.len(),
                iv == infos_view(infos@),
                r@ == arg_destroy_lines(iv.take(i as int), self@.destructors),
            decreases infos.len() - i,
        {
            let ghost before = r@;
            assert(iv.take(i + 1).drop_last() =~= iv.take(i as int));
            assert(iv.take(i + 1).last() == iv[i as int]);
            if contains_string(&self.defined_destructors, &infos[i].0) {
                append_str(&mut r, "    ");
                r.append(infos[i].0.as_str());
                if infos[i].1 {
                    append_str(&mut r, "_destroy(val");
                } else {
                    append_str(&mut r, "_destroy(&val");
                }
                append_decimal(&mut r, i);
                append_str(&mut r, ");\n");
            }
            assert(r@ =~= arg_destroy_lines(iv.take(i + 1), self@.destructors));
            i = i + 1;
        }
        assert(iv.take(i as int) =~= iv);
        r
    }

    /// `spawn f(args)`: an argument struct and a wrapper are declared aside, and the call
    /// site packs the arguments and starts a detached thread.
    #[verifier::loop_isolation(false)]
    fn gen_spawn(&mut self, func: &String, args: &Vec<Node<Expression>>)
        requires
            old(self).wf(),
        ensures
            final(self).wf(),
            final(self).scope_vars@.len() == old(self).scope_vars@.len(),
            final(self)@ == gen_spawn(old(self)@, func@, exprs_view(args@)),
    {
        let ghost g = self@;
        let id = self.spawn_counter;
        if id < usize::MAX {
            self.spawn_counter = id + 1;
        }
        let ghost g0 = self@;
        let ghost av = exprs_view(args@);
        let mut infos: Vec<(String, bool, String)> = Vec::new();
        let mut i: usize = 0;
        while i < args.len()
            invariant
                i <= args@.len(),
                infos@.len() == i,
                av == exprs_view(args@),
                self.wf(),
                self.scope_vars@.len() == old(self).scope_vars@.len(),
                spawn_infos(g0, av, 0).0 == spawn_infos(self@, av, i as int).0,
                spawn_infos(g0, av, 0).1 == infos_view(infos@) + spawn_infos(self@, av, i as int).1,
            decreases args.len() - i,
        {
            assert(av[i as int] == expr_node_view(args@[i as int]));
            let ghost gi = self@;
            let (ty, p) = self.get_type_info(&args[i]);
            let fty = match &args[i].data {
                Expression::Identifier(n) => {
                    if str_is(&ty, "Unknown") {
                        n.clone()
                    } else {
                        ty
                    }
                },
                _ => ty,
            };
            let v = self.translate_expr(&args[i]);
            let ghost before = infos_view(infos@);
            infos.push((fty, p, v));
            proof {
                let (g2, rest) = spawn_infos(self@, av, i + 1);
                assert(spawn_infos(gi, av, i as int) == (g2, seq![(fty@, p, v@)] + rest));
                assert(infos_view(infos@) =~= before.push((fty@, p, v@)));
                assert(before + (seq![(fty@, p, v@)] + rest) =~= before.push((fty@, p, v@)) + rest);
            }
            i = i + 1;
        }
        let ghost g1 = self@;
        let ghost iv = infos_view(infos@);
        assert(iv + Seq::<(Seq<char>, bool, Seq<char>)>::empty() =~= iv);
        assert(spawn_infos(g0, av, 0) == (g1, iv));
        let mut sn = string_from("_spawn_args_");
        append_decimal(&mut sn, id);
        let mut wn = string_from("_spawn_wrapper_");
        append_decimal(&mut wn, id);
        let fields = arg_fields_text(&infos);
        let mut d = string_from("typedef struct ");
        d.append(sn.as_str());
        append_str(&mut d, " {\n");
        d.append(fields.as_str());
        append_str(&mut d, "} ");
        d.append(sn.as_str());
        append_str(&mut d, ";\n");
        append_str(&mut d, "void* ");
        d.append(wn.as_str());
        append_str(&mut d, "(void* raw_arg);\n\n");
        self.spawn_decls.append(d.as_str());
        let unpack = unpack_text(&infos);
        let names = val_names_vec(infos.len());
        let joined = join_strings(&names, ", ");
        let dtors = self.arg_destroy_text(&infos);
        let mut w = string_from("void* ");
        w.append(wn.as_str());
        append_str(&mut w, "(void* raw_arg) {\n");
        append_str(&mut w, "    ");
        w.append(sn.as_str());
        append_str(&mut w, "* args = (");
        w.append(sn.as_str());
        append_str(&mut w, "*)raw_arg;\n");
        w.append(unpack.as_str());
        append_str(&mut w, "    free(args);\n\n");
        append_str(&mut w, "    ");
        w.append(func.as_str());
        append_str(&mut w, "(");
        w.append(joined.as_str());
        append_str(&mut w, ");\n\n");
        w.append(dtors.as_str());
        append_str(&mut w, "    return NULL;\n}\n\n");
        self.spawn_funcs.append(w.as_str());
        self.push_indent();
        self.emit_str("{\n");
        let saved = self.indent_level;
        if saved < usize::MAX {
            self.indent_level = saved + 1;
        }
        self.push_indent();
        let mut m = sn.clone();
        append_str(&mut m, "* spawn_args = malloc(sizeof(");
        m.append(sn.as_str());
        append_str(&mut m, "));\n");
        self.emit_string(&m);
        let ghost g5 = self@;
        let mut k: usize = 0;
        while k < infos.len()
            invariant
                k <= infos@.len(),
                infos@.len() == args@.len(),
                iv == infos_view(infos@),
                av == exprs_view(args@),
                self.wf(),
                self.scope_vars@.len() == old(self).scope_vars@.len(),
                store_args(g5, iv, av, 0) == store_args(self@, iv, av, k as int),
            decreases infos.len() - k,
        {
            assert(av[k as int] == expr_node_view(args@[k as int]));
            self.push_indent();
            let mut line = string_from("spawn_args->arg");
            append_decimal(&mut line, k);
            append_str(&mut line, " = ");
            line.append(infos[k].2.as_str());
            append_str(&mut line, ";\n");
            self.emit_string(&line);
            self.mark_if_identifier(&args[k]);
            k = k + 1;
        }
        self.push_indent();
        self.emit_str("pthread_t thread_id;\n");
        self.push_indent();
        let mut c = string_from("pthread_create(&thread_id, NULL, ");
        c.append(wn.as_str());
        append_str(&mut c, ", spawn_args);\n");
        self.emit_string(&c);
        self.push_indent();
        self.emit_str("pthread_detach(thread_id);\n");
        self.indent_level = saved;
        self.push_indent();
        self.emit_str("}\n");
    }

    fn put_struct(&mut self, name: String, fields: Vec<&'a Field>)
        ensures
            final(self)@ == (GenV { structs: assoc_put(old(self)@.structs, name@, field_refs_view(fields@)), ..old(self)@ }),
            final(self).scope_vars == old(self).scope_vars,
    {
        let ghost g = self@;
        let ghost fv = field_refs_view(fields@);
        assert(keys_of(g.structs) =~= key_texts(self.struct_registry@));
        match find_key(&self.struct_registry, &name) {
            Some(p) => {
                self.struct_registry.set(p, (name, fields));
            },
            None => {
                self.struct_registry.push((name, fields));
            },
        }
        assert(self@.structs =~= assoc_put(g.structs, name@, fv));
    }

    fn put_binds(&mut self, name: String, fns: Vec<(String, &'a FunctionDef)>)
        ensures
            final(self)@ == (GenV { binds: assoc_put(old(self)@.binds, name@, fn_refs_view(fns@)), ..old(self)@ }),
            final(self).scope_vars == old(self).scope_vars,
    {
        let ghost g = self@;
        let ghost fv = fn_refs_view(fns@);
        assert(keys_of(g.binds) =~= key_texts(self.bind_registry@));
        match find_key(&self.bind_registry, &name) {
            Some(p) => {
                self.bind_registry.set(p, (name, fns));
            },
            None => {
                self.bind_registry.push((name, fns));
            },
        }
        assert(self@.binds =~= assoc_put(g.binds, name@, fv));
    }

    fn push_destructor(&mut self, name: &String)
        ensures
            final(self)@ == (GenV { destructors: old(self)@.destructors.push(name@), ..old(self)@ }),
            final(self).scope_vars == old(self).scope_vars,
    {
        let ghost g = self@;
        self.defined_destructors.push(name.clone());
        assert(self@.destructors =~= g.destructors.push(name@));
    }

    /// What a top-level statement contributes to the registries.
    fn pre_register(&mut self, stmt: &'a Statement)
        ensures
            final(self)@ == pre_register(old(self)@, stmt_view(*stmt)),
            final(self).scope_vars == old(self).scope_vars,
    {
        match stmt {
            Statement::StructDef(def) => {
                let refs = field_refs(&def.fields);
                self.put_struct(def.name.clone(), refs);
            },
            Statement::BindBlock(bind) => {
                let ghost fv = funcs_view(bind.functions@);
                let mut fns: Vec<(String, &'a FunctionDef)> = Vec::new();
                let mut i: usize = 0;
                while i < bind.functions.len()
                    invariant
                        i <= bind.functions@.len(),
                        fv == funcs_view(bind.functions@),
                        fn_refs_view(fns@) == named_fns(fv).take(i as int),
                    decreases bind.functions.len() - i,
                {
                    let ghost before = fn_refs_view(fns@);
                    let f: &'a FunctionDef = &bind.functions[i];
                    fns.push((f.name.clone(), f));
                    assert(fv[i as int] == func_view(*f));
                    assert(fn_refs_view(fns@) =~= before.push((f.name@, func_view(*f))));
                    assert(named_fns(fv).take(i + 1) =~= named_fns(fv).take(i as int).push((f.name@, func_view(*f))));
                    i = i + 1;
                }
                assert(named_fns(fv).take(i as int) =~= named_fns(fv));
                self.put_binds(bind.struct_name.clone(), fns);
                let ghost g1 = self@;
                let mut k: usize = 0;
                while k < bind.functions.len()
                    invariant
                        k <= bind.functions@.len(),
                        fv == funcs_view(bind.functions@),
                        self@ == (GenV { destructors: g1.destructors + destroy_marks(fv.take(k as int), bind.struct_name@), ..g1 }),
                        self.scope_vars == old(self).scope_vars,
                    decreases bind.functions.len() - k,
                {
                    assert(fv[k as int] == func_view(bind.functions@[k as int]));
                    assert(fv.take(k + 1).drop_last() =~= fv.take(k as int));
                    if str_is(&bind.functions[k].name, "destroy") {
                        self.push_destructor(&bind.struct_name);
                        assert(g1.destructors + destroy_marks(fv.take(k + 1), bind.struct_name@)
                            =~= (g1.destructors + destroy_marks(fv.take(k as int), bind.struct_name@)).push(bind.struct_name@));
                    } else {
                        assert(g1.destructors + destroy_marks(fv.take(k + 1), bind.struct_name@)
                            =~= g1.destructors + destroy_marks(fv.take(k as int), bind.struct_name@));
                    }
                    k = k + 1;
                }
                assert(fv.take(k as int) =~= fv);
            },
            Statement::ForkBlock(fork) => {
                let ghost g = self@;
                assert(keys_of(g.structs) =~= key_texts(self.struct_registry@));
                match find_key(&self.struct_registry, &fork.base_name) {
                    None => {},
                    Some(bi) => {
                        let ghost base = g.structs[bi as int].1;
                        let ghost ov = fork_ops_view(fork.operations@);
                        let mut fields = copy_field_refs(&self.struct_registry[bi].1);
                        assert(field_refs_view(fields@) == base);
                        let mut k: usize = 0;
                        while k < fork.operations.len()
                            invariant
                                k <= fork.operations@.len(),
                                ov == fork_ops_view(fork.operations@),
                                field_refs_view(fields@) == fork_fields(base, ov.take(k as int)),
                            decreases fork.operations.len() - k,
                        {
                            assert(ov.take(k + 1).drop_last() =~= ov.take(k as int));
                            assert(ov.take(k + 1).last() == fork_op_view(fork.operations@[k as int]));
                            match &fork.operations[k] {
                                ForkOp::Add(field) => {
                                    let ghost before = field_refs_view(fields@);
                                    let f: &'a Field = field;
                                    fields.push(f);
                                    assert(field_refs_view(fields@) =~= before.push(field_view(*f)));
                                },
                                ForkOp::Remove(name) => {
                                    fields = drop_field_refs(&fields, name);
                                },
                            }
                            k = k + 1;
                        }
                        assert(ov.take(k as int) =~= ov);
                        self.put_struct(fork.new_name.clone(), fields);
                        let ghost g1 = self@;
                        assert(g1.binds == g.binds);
                        assert(keys_of(g.binds) =~= key_texts(self.bind_registry@));
                        let mut funcs: Vec<(String, &'a FunctionDef)> = Vec::new();
                        match find_key(&self.bind_registry, &fork.base_name) {
                            Some(j) => {
                                let ghost bf = g.binds[j as int].1;
                                let src = &self.bind_registry[j].1;
                                assert(fn_refs_view(src@) == bf);
                                let mut m: usize = 0;
                                while m < src.len()
                                    invariant
                                        m <= src@.len(),
                                        fn_refs_view(src@) == bf,
                                        fn_refs_view(funcs@) == renamed(bf, fork.base_name@, fork.new_name@).take(m as int),
                                    decreases src.len() - m,
                                {
                                    let ghost before = fn_refs_view(funcs@);
                                    let f: &'a FunctionDef = src[m].1;
                                    if src[m].0 == fork.base_name {
                                        funcs.push((fork.new_name.clone(), f));
                                    } else {
                                        funcs.push((src[m].0.clone(), f));
                                    }
                                    assert(fn_refs_view(funcs@) =~= before.push(renamed(bf, fork.base_name@, fork.new_name@)[m as int]));
                                    assert(renamed(bf, fork.base_name@, fork.new_name@).take(m + 1)
                                        =~= renamed(bf, fork.base_name@, fork.new_name@).take(m as int).push(renamed(bf, fork.base_name@, fork.new_name@)[m as int]));
                                    m = m + 1;
                                }
                                assert(renamed(bf, fork.base_name@, fork.new_name@).take(m as int) =~= renamed(bf, fork.base_name@, fork.new_name@));
                            },
                            None => {
                                assert(fn_refs_view(funcs@) =~= Seq::<(Seq<char>, FunctionDefV)>::empty());
                            },
                        }
                        let ghost inherited = fn_refs_view(funcs@);
                        let ghost bv = bind_ops_view(fork.bind_ops@);
                        let mut k: usize = 0;
                        while k < fork.bind_ops.len()
                            invariant
                                k <= fork.bind_ops@.len(),
                                bv == bind_ops_view(fork.bind_ops@),
                                fn_refs_view(funcs@) == fork_fns(inherited, bv.take(k as int)),
                            decreases fork.bind_ops.len() - k,
                        {
                            assert(bv.take(k + 1).drop_last() =~= bv.take(k as int));
                            assert(bv.take(k + 1).last() == bind_op_view(fork.bind_ops@[k as int]));
                            match &fork.bind_ops[k] {
                                BindOp::Add(func) => {
                                    let f: &'a FunctionDef = func;
                                    funcs = drop_fn_refs(&funcs, &f.name);
                                    let ghost before = fn_refs_view(funcs@);
                                    funcs.push((f.name.clone(), f));
                                    assert(fn_refs_view(funcs@) =~= before.push((f.name@, func_view(*f))));
                                },
                                BindOp::Remove(name) => {
                                    funcs = drop_fn_refs(&funcs, name);
                                },
                                BindOp::Patch { _old_fn_name, new_fn_def } => {
                                    let f: &'a FunctionDef = new_fn_def;
                                    funcs = drop_fn_refs(&funcs, _old_fn_name);
                                    let ghost before = fn_refs_view(funcs@);
                                    funcs.push((f.name.clone(), f));
                                    assert(fn_refs_view(funcs@) =~= before.push((f.name@, func_view(*f))));
                                },
                            }
                            k = k + 1;
                        }
                        assert(bv.take(k as int) =~= bv);
                        let ghost fns = fn_refs_view(funcs@);
                        let ghost g2 = self@;
                        let mut m: usize = 0;
                        while m < funcs.len()
                            invariant
                                m <= funcs@.len(),
                                fns == fn_refs_view(funcs@),
                                self@ == (GenV { destructors: fork_dtors(g.destructors, fns.take(m as int), fork.new_name@), ..g2 }),
                                g2.destructors == g.destructors,
                                self.scope_vars == old(self).scope_vars,
                            decreases funcs.len() - m,
                        {
                            assert(fns.take(m + 1).drop_last() =~= fns.take(m as int));
                            assert(fns.take(m + 1).last() == fns[m as int]);
                            let is_destroy = str_is(&funcs[m].0, "destroy");
                            if is_destroy && !contains_string(&self.defined_destructors, &fork.new_name) {
                                self.push_destructor(&fork.new_name);
                            }
                            m = m + 1;
                        }
                        assert(fns.take(m as int) =~= fns);
                        self.put_binds(fork.new_name.clone(), funcs);
                    },
                }
            },
            _ => {},
        }
    }

    /// Translates a whole program: the C text, with the thread declarations in their place
    /// and the thread wrappers at the end.
    #[verifier::loop_isolation(false)]
    pub fn generate(&mut self, ast: &'a [Node<Statement>]) -> (r: String)
        requires
            old(self).wf(),
        ensures
            final(self).wf(),
            (r@, final(self)@) == generate(old(self)@, stmts_view(ast@)),
    {
        let ghost sv = stmts_view(ast@);
        self.emit_str("#include <stdio.h>\n#include <stdlib.h>\n#include <string.h>\n#include <stdbool.h>\n#include <pthread.h>\n\n");
        let ghost g1 = self@;
        assert(g1 == emit(old(self)@, header_text()));
        let mut i: usize = 0;
        while i < ast.len()
            invariant
                i <= ast@.len(),
                sv == stmts_view(ast@),
                self.wf(),
                self@ == pre_register_all(g1, sv.take(i as int)),
            decreases ast.len() - i,
        {
            assert(sv[i as int] == stmt_node_view(ast@[i as int]));
            assert(sv.take(i + 1).drop_last() =~= sv.take(i as int));
            assert(sv.take(i + 1).last().data == stmt_view(ast@[i as int].data));
            self.pre_register(&ast[i].data);
            i = i + 1;
        }
        assert(sv.take(i as int) =~= sv);
        let ghost g2 = self@;
        let mut list: Vec<(String, Vec<&'a Field>)> = Vec::new();
        let mut i: usize = 0;
        assert(keys_of(g2.structs) =~= key_texts(self.struct_registry@));
        while i < ast.len()
            invariant
                i <= ast@.len(),
                sv == stmts_view(ast@),
                self@ == g2,
                keys_of(g2.structs) == key_texts(self.struct_registry@),
                Seq::new(list@.len(), |x: int| (list@[x].0@, field_refs_view(list@[x].1@)))
                    == structs_to_gen(g2.structs, sv.take(i as int)),
            decreases ast.len() - i,
        {
            assert(sv[i as int] == stmt_node_view(ast@[i as int]));
            assert(sv.take(i + 1).drop_last() =~= sv.take(i as int));
            assert(sv.take(i + 1).last().data == stmt_view(ast@[i as int].data));
            let ghost before = Seq::new(list@.len(), |x: int| (list@[x].0@, field_refs_view(list@[x].1@)));
            match &ast[i].data {
                Statement::StructDef(def) => {
                    let refs = field_refs(&def.fields);
                    list.push((def.name.clone(), refs));
                    assert(Seq::new(list@.len(), |x: int| (list@[x].0@, field_refs_view(list@[x].1@)))
                        =~= before.push((def.name@, fields_view(def.fields@))));
                },
                Statement::ForkBlock(fork) => {
                    match find_key(&self.struct_registry, &fork.new_name) {
                        Some(p) => {
                            let refs = copy_field_refs(&self.struct_registry[p].1);
                            list.push((fork.new_name.clone(), refs));
                            assert(Seq::new(list@.len(), |x: int| (list@[x].0@, field_refs_view(list@[x].1@)))
                                =~= before.push((fork.new_name@, g2.structs[p as int].1)));
                        },
                        None => {},
                    }
                },
                _ => {},
            }
            i = i + 1;
        }
        assert(sv.take(i as int) =~= sv);
        let ghost lv = Seq::new(list@.len(), |x: int| (list@[x].0@, field_refs_view(list@[x].1@)));
        let mut k: usize = 0;
        while k < list.len()
            invariant
                k <= list@.len(),
                lv == Seq::new(list@.len(), |x: int| (list@[x].0@, field_refs_view(list@[x].1@))),
                self.wf(),
                self@ == gen_structs(g2, lv.take(k as int)),
            decreases list.len() - k,
        {
            assert(lv.take(k + 1).drop_last() =~= lv.take(k as int));
            assert(lv.take(k + 1).last() == lv[k as int]);
            self.generate_struct_def(&list[k].0, &list[k].1);
            k = k + 1;
        }
        assert(lv.take(k as int) =~= lv);
        let mut marker = string_from("/*SPAWN_DECLS*/");
        append_str(&mut marker, "\n\n");
        self.emit_string(&marker);
        let ghost g4 = self@;
        let mut i: usize = 0;
        while i < ast.len()
            invariant
                i <= ast@.len(),
                sv == stmts_view(ast@),
                self.wf(),
                self@ == gen_body(g4, sv.take(i as int)),
            decreases ast.len() - i,
        {
            assert(sv[i as int] == stmt_node_view(ast@[i as int]));
            assert(sv.take(i + 1).drop_last() =~= sv.take(i as int));
            assert(sv.take(i + 1).last() == sv[i as int]);
            match &ast[i].data {
                Statement::StructDef(_) => {},
                Statement::ForkBlock(fork) => {
                    let ghost gb = self@;
                    assert(keys_of(gb.binds) =~= key_texts(self.bind_registry@));
                    match find_key(&self.bind_registry, &fork.new_name) {
                        Some(j) => {
                            let fs = copy_fn_refs(&self.bind_registry[j].1);
                            let ghost fsv = fn_refs_view(fs@);
                            assert(fsv == gb.binds[j as int].1);
                            let mut m: usize = 0;
                            while m < fs.len()
                                invariant
                                    m <= fs@.len(),
                                    fsv == fn_refs_view(fs@),
                                    self.wf(),
                                    self@ == gen_fork_fns(gb, fork.new_name@, fsv.take(m as int)),
                                decreases fs.len() - m,
                            {
                                assert(fsv.take(m + 1).drop_last() =~= fsv.take(m as int));
                                assert(fsv.take(m + 1).last() == fsv[m as int]);
                                self.generate_bound_function(&fork.new_name, &fs[m].0, fs[m].1);
                                m = m + 1;
                            }
                            assert(fsv.take(m as int) =~= fsv);
                        },
                        None => {},
                    }
                },
                _ => {
                    self.generate_statement(&ast[i]);
                },
            }
            i = i + 1;
        }
        assert(sv.take(i as int) =~= sv);
        let mut final_output = replace_text(&self.output, "/*SPAWN_DECLS*/", &self.spawn_decls);
        append_str(&mut final_output, "\n");
        final_output.append(self.spawn_funcs.as_str());
        final_output
    }
}

} // verus!
