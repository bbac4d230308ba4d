//! Deep copies of syntax trees: each copy has the same model as the tree it copies.
use vstd::prelude::*;
use crate::ast::{
    Node, Expression, Statement, VariableDeclaration, ConstructorCall, AliasDeclaration, StructDef, Field,
    BindBlock, FunctionDef, ForkBlock, ForkOp, BindOp, expr_view, expr_node_view, exprs_view, opt_expr_view,
    stmt_view, stmt_node_view, stmts_view, var_decl_view, ctor_view, alias_view, field_view, fields_view,
    struct_def_view, params_view, func_view, funcs_view, fork_op_view, fork_ops_view, bind_op_view,
    bind_ops_view,
};

verus! {

fn clone_expr(e: &Expression) -> (r: Expression)
    ensures
        expr_view(r) == expr_view(*e),
    decreases *e,
{
    match e {
        Expression::Identifier(s) => Expression::Identifier(s.clone()),
        Expression::Number(s) => Expression::Number(s.clone()),
        Expression::BinaryOp(l, op, r) => Expression::BinaryOp(
            Box::new(clone_expr_node(l)),
            op.clone(),
            Box::new(clone_expr_node(r)),
        ),
        Expression::MethodCall { receiver, method, args } => Expression::MethodCall {
            receiver: Box::new(clone_expr_node(receiver)),
            method: method.clone(),
            args: clone_exprs(args),
        },
        Expression::MemberAccess { receiver, member, is_ptr } => Expression::MemberAccess {
            receiver: Box::new(clone_expr_node(receiver)),
            member: member.clone(),
            is_ptr: *is_ptr,
        },
        Expression::Assignment(s, v) => Expression::Assignment(s.clone(), Box::new(clone_expr_node(v))),
        Expression::UnaryOp(s, v, p) => Expression::UnaryOp(s.clone(), Box::new(clone_expr_node(v)), *p),
        Expression::StringLiteral(s) => Expression::StringLiteral(s.clone()),
        Expression::Call(s, args) => Expression::Call(s.clone(), clone_exprs(args)),
    }
}

/// A deep copy of an expression node.
pub fn clone_expr_node(n: &Node<Expression>) -> (r: Node<Expression>)
    ensures
        expr_node_view(r) == expr_node_view(*n),
    decreases *n,
{
    Node { data: clone_expr(&n.data), span: n.span }
}

fn clone_exprs(v: &Vec<Node<Expression>>) -> (r: Vec<Node<Expression>>)
    ensures
        exprs_view(r@) == exprs_view(v@),
    decreases v,
{
    let mut r: Vec<Node<Expression>> = Vec::new();
    let mut i: usize = 0;
    while i < v.len()
        invariant
            i <= v@.len(),
            r@.len() == i,
            forall|j: int| 0 <= j < i ==> expr_node_view(#[trigger] r@[j]) == expr_node_view(v@[j]),
        decreases v.len() - i,
    {
        r.push(clone_expr_node(&v[i]));
        i = i + 1;
    }
    assert(exprs_view(r@) =~= exprs_view(v@));
    r
}

impl Clone for Expression {
    /// A deep copy, with the same model.
    fn clone(&self) -> (r: Self)
        ensures
            expr_view(r) == expr_view(*self),
    {
        clone_expr(self)
    }
}

fn clone_opt_expr(e: &Option<Node<Expression>>) -> (r: Option<Node<Expression>>)
    ensures
        opt_expr_view(r) == opt_expr_view(*e),
{
    match e {
        Some(x) => Some(clone_expr_node(x)),
        None => None,
    }
}

fn clone_ctor(c: &ConstructorCall) -> (r: ConstructorCall)
    ensures
        ctor_view(r) == ctor_view(*c),
{
    ConstructorCall { _name: c._name.clone(), args: clone_exprs(&c.args) }
}

fn clone_var_decl(d: &VariableDeclaration) -> (r: VariableDeclaration)
    ensures
        var_decl_view(r) == var_decl_view(*d),
{
    VariableDeclaration {
        ty: d.ty.clone(),
        name: d.name.clone(),
        init: clone_opt_expr(&d.init),
        constructor_call: match &d.constructor_call {
            Some(c) => Some(clone_ctor(c)),
            None => None,
        },
    }
}

fn clone_alias(d: &AliasDeclaration) -> (r: AliasDeclaration)
    ensures
        alias_view(r) == alias_view(*d),
{
    AliasDeclaration { is_mut: d.is_mut, ty: d.ty.clone(), name: d.name.clone(), source: d.source.clone() }
}

fn clone_field(f: &Field) -> (r: Field)
    ensures
        field_view(r) == field_view(*f),
{
    Field { name: f.name.clone(), ty: f.ty.clone(), default_value: clone_opt_expr(&f.default_value) }
}

fn clone_fields(v: &Vec<Field>) -> (r: Vec<Field>)
    ensures
        fields_view(r@) == fields_view(v@),
{
    let mut r: Vec<Field> = Vec::new();
    let mut i: usize = 0;
    while i < v.len()
        invariant
            i <= v@.len(),
            r@.len() == i,
            forall|j: int| 0 <= j < i ==> field_view(#[trigger] r@[j]) == field_view(v@[j]),
        decreases v.len() - i,
    {
        r.push(clone_field(&v[i]));
        i = i + 1;
    }
    assert(fields_view(r@) =~= fields_view(v@));
    r
}

fn clone_params(v: &Vec<(String, String)>) -> (r: Vec<(String, String)>)
    ensures
        params_view(r@) == params_view(v@),
{
    let mut r: Vec<(String, String)> = Vec::new();
    let mut i: usize = 0;
    while i < v.len()
        invariant
            i <= v@.len(),
            r@.len() == i,
            forall|j: int| 0 <= j < i ==> (#[trigger] r@[j]).0@ == v@[j].0@ && r@[j].1@ == v@[j].1@,
        decreases v.len() - i,
    {
        r.push((v[i].0.clone(), v[i].1.clone()));
        i = i + 1;
    }
    assert(params_view(r@) =~= params_view(v@));
    r
}

fn clone_fork_ops(v: &Vec<ForkOp>) -> (r: Vec<ForkOp>)
    ensures
        fork_ops_view(r@) == fork_ops_view(v@),
{
    let mut r: Vec<ForkOp> = Vec::new();
    let mut i: usize = 0;
    while i < v.len()
        invariant
            i <= v@.len(),
            r@.len() == i,
            forall|j: int| 0 <= j < i ==> fork_op_view(#[trigger] r@[j]) == fork_op_view(v@[j]),
        decreases v.len() - i,
    {
        let op = match &v[i] {
            ForkOp::Add(f) => ForkOp::Add(clone_field(f)),
            ForkOp::Remove(n) => ForkOp::Remove(n.clone()),
        };
        r.push(op);
        i = i + 1;
    }
    assert(fork_ops_view(r@) =~= fork_ops_view(v@));
    r
}

fn clone_fn_def(f: &FunctionDef) -> (r: FunctionDef)
    ensures
        func_view(r) == func_view(*f),
    decreases *f,
{
    FunctionDef {
        name: f.name.clone(),
        params: clone_params(&f.params),
        return_ty: f.return_ty.clone(),
        body: Box::new(clone_stmt_node(&f.body)),
    }
}

fn clone_fn_defs(v: &Vec<FunctionDef>) -> (r: Vec<FunctionDef>)
    ensures
        funcs_view(r@) == funcs_view(v@),
    decreases v,
{
    let mut r: Vec<FunctionDef> = Vec::new();
    let mut i: usize = 0;
    while i < v.len()
        invariant
            i <= v@.len(),
            r@.len() == i,
            forall|j: int| 0 <= j < i ==> func_view(#[trigger] r@[j]) == func_view(v@[j]),
        decreases v.len() - i,
    {
        r.push(clone_fn_def(&v[i]));
        i = i + 1;
    }
    assert(funcs_view(r@) =~= funcs_view(v@));
    r
}

fn clone_bind_ops(v: &Vec<BindOp>) -> (r: Vec<BindOp>)
    ensures
        bind_ops_view(r@) == bind_ops_view(v@),
    decreases v,
{
    let mut r: Vec<BindOp> = Vec::new();
    let mut i: usize = 0;
    while i < v.len()
        invariant
            i <= v@.len(),
            r@.len() == i,
            forall|j: int| 0 <= j < i ==> bind_op_view(#[trigger] r@[j]) == bind_op_view(v@[j]),
        decreases v.len() - i,
    {
        let op = match &v[i] {
            BindOp::Add(f) => BindOp::Add(clone_fn_def(f)),
            BindOp::Remove(n) => BindOp::Remove(n.clone()),
            BindOp::Patch { _old_fn_name, new_fn_def } => BindOp::Patch {
                _old_fn_name: _old_fn_name.clone(),
                new_fn_def: clone_fn_def(new_fn_def),
            },
        };
        r.push(op);
        i = i + 1;
    }
    assert(bind_ops_view(r@) =~= bind_ops_view(v@));
    r
}

fn clone_boxed(b: &Option<Box<Node<Statement>>>) -> (r: Option<Box<Node<Statement>>>)
    ensures
        match (r, *b) {
            (Some(x), Some(y)) => stmt_node_view(*x) == stmt_node_view(*y),
            (None, None) => true,
            _ => false,
        },
    decreases *b,
{
    match b {
        Some(x) => Some(Box::new(clone_stmt_node(x))),
        None => None,
    }
}

fn clone_stmt(s: &Statement) -> (r: Statement)
    ensures
        stmt_view(r) == stmt_view(*s),
    decreases *s,
{
    match s {
        Statement::StructDef(d) => Statement::StructDef(StructDef { name: d.name.clone(), fields: clone_fields(&d.fields) }),
        Statement::BindBlock(b) => Statement::BindBlock(
            BindBlock { struct_name: b.struct_name.clone(), functions: clone_fn_defs(&b.functions) },
        ),
        Statement::ForkBlock(f) => Statement::ForkBlock(
            ForkBlock {
                base_name: f.base_name.clone(),
                new_name: f.new_name.clone(),
                operations: clone_fork_ops(&f.operations),
                bind_ops: clone_bind_ops(&f.bind_ops),
            },
        ),
        Statement::FunctionDef(f) => Statement::FunctionDef(clone_fn_def(f)),
        Statement::LetDeclaration(d) => Statement::LetDeclaration(clone_var_decl(d)),
        Statement::UnsafeDeclaration(d) => Statement::UnsafeDeclaration(clone_var_decl(d)),
        Statement::AliasDeclaration(d) => Statement::AliasDeclaration(clone_alias(d)),
        Statement::Expression(e) => Statement::Expression(clone_expr_node(e)),
        Statement::Return(e) => Statement::Return(clone_opt_expr(e)),
        Statement::Block(v) => Statement::Block(clone_stmts(v)),
        Statement::If { condition, then_branch, else_branch } => Statement::If {
            condition: clone_expr_node(condition),
            then_branch: Box::new(clone_stmt_node(then_branch)),
            else_branch: clone_boxed(else_branch),
        },
        Statement::For { init, condition, step, body } => Statement::For {
            init: clone_boxed(init),
            condition: clone_opt_expr(condition),
            step: clone_opt_expr(step),
            body: Box::new(clone_stmt_node(body)),
        },
        Statement::While { condition, body } => Statement::While {
            condition: clone_expr_node(condition),
            body: Box::new(clone_stmt_node(body)),
        },
        Statement::RawC(c) => Statement::RawC(c.clone()),
        Statement::Spawn(f, args) => Statement::Spawn(f.clone(), clone_exprs(args)),
    }
}

/// A deep copy of a statement node.
pub fn clone_stmt_node(n: &Node<Statement>) -> (r: Node<Statement>)
    ensures
        stmt_node_view(r) == stmt_node_view(*n),
    decreases *n,
{
    Node { data: clone_stmt(&n.data), span: n.span }
}

fn clone_stmts(v: &Vec<Node<Statement>>) -> (r: Vec<Node<Statement>>)
    ensures
        stmts_view(r@) == stmts_view(v@),
    decreases v,
{
    let mut r: Vec<Node<Statement>> = Vec::new();
    let mut i: usize = 0;
    while i < v.len()
        invariant
            i <= v@.len(),
            r@.len() == i,
            forall|j: int| 0 <= j < i ==> stmt_node_view(#[trigger] r@[j]) == stmt_node_view(v@[j]),
        decreases v.len() - i,
    {
        r.push(clone_stmt_node(&v[i]));
        i = i + 1;
    }
    assert(stmts_view(r@) =~= stmts_view(v@));
    r
}

impl Clone for Statement {
    /// A deep copy, with the same model.
    fn clone(&self) -> (r: Self)
        ensures
            stmt_view(r) == stmt_view(*self),
    {
        clone_stmt(self)
    }
}

impl Clone for Node<Expression> {
    /// A deep copy, with the same model.
    fn clone(&self) -> (r: Self)
        ensures
            expr_node_view(r) == expr_node_view(*self),
    {
        clone_expr_node(self)
    }
}

impl Clone for Node<Statement> {
    /// A deep copy, with the same model.
    fn clone(&self) -> (r: Self)
        ensures
            stmt_node_view(r) == stmt_node_view(*self),
    {
        clone_stmt_node(self)
    }
}

impl Clone for VariableDeclaration {
    /// A deep copy, with the same model.
    fn clone(&self) -> (r: Self)
        ensures
            var_decl_view(r) == var_decl_view(*self),
    {
        clone_var_decl(self)
    }
}

impl Clone for ConstructorCall {
    /// A deep copy, with the same model.
    fn clone(&self) -> (r: Self)
        ensures
            ctor_view(r) == ctor_view(*self),
    {
        clone_ctor(self)
    }
}

impl Clone for Field {
    /// A deep copy, with the same model.
    fn clone(&self) -> (r: Self)
        ensures
            field_view(r) == field_view(*self),
    {
        clone_field(self)
    }
}

impl Clone for StructDef {
    /// A deep copy, with the same model.
    fn clone(&self) -> (r: Self)
        ensures
            struct_def_view(r) == struct_def_view(*self),
    {
        StructDef { name: self.name.clone(), fields: clone_fields(&self.fields) }
    }
}

impl Clone for FunctionDef {
    /// A deep copy, with the same model.
    fn clone(&self) -> (r: Self)
        ensures
            func_view(r) == func_view(*self),
    {
        clone_fn_def(self)
    }
}

impl Clone for BindBlock {
    /// A deep copy, with the same model.
    fn clone(&self) -> (r: Self)
        ensures
            r.struct_name@ == self.struct_name@,
            funcs_view(r.functions@) == funcs_view(self.functions@),
    {
        BindBlock { struct_name: self.struct_name.clone(), functions: clone_fn_defs(&self.functions) }
    }
}

impl Clone for ForkBlock {
    /// A deep copy, with the same model.
    fn clone(&self) -> (r: Self)
        ensures
            r.base_name@ == self.base_name@,
            r.new_name@ == self.new_name@,
            fork_ops_view(r.operations@) == fork_ops_view(self.operations@),
            bind_ops_view(r.bind_ops@) == bind_ops_view(self.bind_ops@),
    {
        ForkBlock {
            base_name: self.base_name.clone(),
            new_name: self.new_name.clone(),
            operations: clone_fork_ops(&self.operations),
            bind_ops: clone_bind_ops(&self.bind_ops),
        }
    }
}

impl Clone for ForkOp {
    /// A deep copy, with the same model.
    fn clone(&self) -> (r: Self)
        ensures
            fork_op_view(r) == fork_op_view(*self),
    {
        match self {
            ForkOp::Add(f) => ForkOp::Add(clone_field(f)),
            ForkOp::Remove(n) => ForkOp::Remove(n.clone()),
        }
    }
}

impl Clone for BindOp {
    /// A deep copy, with the same model.
    fn clone(&self) -> (r: Self)
        ensures
            bind_op_view(r) == bind_op_view(*self),
    {
        match self {
            BindOp::Add(f) => BindOp::Add(clone_fn_def(f)),
            BindOp::Remove(n) => BindOp::Remove(n.clone()),
            BindOp::Patch { _old_fn_name, new_fn_def } => BindOp::Patch {
                _old_fn_name: _old_fn_name.clone(),
                new_fn_def: clone_fn_def(new_fn_def),
            },
        }
    }
}

impl Clone for AliasDeclaration {
    /// A copy, with the same model.
    fn clone(&self) -> (r: Self)
        ensures
            alias_view(r) == alias_view(*self),
    {
        clone_alias(self)
    }
}

} // verus!
