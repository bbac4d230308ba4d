//! The syntax tree of a C+ program, and its model in which every string is a sequence
//! of characters and every vector a sequence.
use vstd::prelude::*;

verus! {

/// A position in the source text: 1-based line and column.
#[derive(Debug, Clone, Copy, PartialEq, Eq, Structural)]
pub struct Span {
    pub line: usize,
    pub col: usize,
}

#[derive(Debug)]
pub struct Node<T> {
    pub data: T,
    pub span: Span,
}

#[allow(inconsistent_fields)]
#[derive(Debug)]
pub enum Statement {
    StructDef(StructDef),
    BindBlock(BindBlock),
    ForkBlock(ForkBlock),
    FunctionDef(FunctionDef),
    LetDeclaration(VariableDeclaration),
    UnsafeDeclaration(VariableDeclaration),
    AliasDeclaration(AliasDeclaration),
    Expression(Node<Expression>),
    Return(Option<Node<Expression>>),
    Block(Vec<Node<Statement>>),
    If {
        condition: Node<Expression>,
        then_branch: Box<Node<Statement>>,
        else_branch: Option<Box<Node<Statement>>>,
    },
    For {
        init: Option<Box<Node<Statement>>>,
        condition: Option<Node<Expression>>,
        step: Option<Node<Expression>>,
        body: Box<Node<Statement>>,
    },
    While { condition: Node<Expression>, body: Box<Node<Statement>> },
    RawC(String),
    Spawn(String, Vec<Node<Expression>>),
}

#[derive(Debug)]
pub struct AliasDeclaration {
    pub is_mut: bool,
    pub ty: String,
    pub name: String,
    pub source: String,
}

#[derive(Debug)]
pub struct StructDef {
    pub name: String,
    pub fields: Vec<Field>,
}

#[derive(Debug)]
pub struct Field {
    pub name: String,
    pub ty: String,
    pub default_value: Option<Node<Expression>>,
}

#[derive(Debug)]
pub struct BindBlock {
    pub struct_name: String,
    pub functions: Vec<FunctionDef>,
}

#[derive(Debug)]
pub struct FunctionDef {
    pub name: String,
    pub params: Vec<(String, String)>,
    pub return_ty: String,
    pub body: Box<Node<Statement>>,
}

#[derive(Debug)]
pub struct ForkBlock {
    pub base_name: String,
    pub new_name: String,
    pub operations: Vec<ForkOp>,
    pub bind_ops: Vec<BindOp>,
}

#[derive(Debug)]
pub enum ForkOp {
    Add(Field),
    Remove(String),
}

#[derive(Debug)]
pub enum BindOp {
    Add(FunctionDef),
    Remove(String),
    Patch { _old_fn_name: String, new_fn_def: FunctionDef },
}

#[derive(Debug)]
pub struct VariableDeclaration {
    pub ty: String,
    pub name: String,
    pub init: Option<Node<Expression>>,
    pub constructor_call: Option<ConstructorCall>,
}

#[derive(Debug)]
pub struct ConstructorCall {
    pub _name: String,
    pub args: Vec<Node<Expression>>,
}

#[derive(Debug)]
pub enum Expression {
    Identifier(String),
    Number(String),
    BinaryOp(Box<Node<Expression>>, String, Box<Node<Expression>>),
    MethodCall { receiver: Box<Node<Expression>>, method: String, args: Vec<Node<Expression>> },
    MemberAccess { receiver: Box<Node<Expression>>, member: String, is_ptr: bool },
    Assignment(String, Box<Node<Expression>>),
    UnaryOp(String, Box<Node<Expression>>, bool),
    StringLiteral(String),
    Call(String, Vec<Node<Expression>>),
}

// ---------------------------------------------------------------------------
// Mathematical model of the syntax tree: every string is a `Seq<char>` and every
// vector a `Seq`.
// ---------------------------------------------------------------------------

pub struct NodeV<T> {
    pub data: T,
    pub span: Span,
}

pub enum ExprV {
    Identifier(Seq<char>),
    Number(Seq<char>),
    BinaryOp(Box<NodeV<ExprV>>, Seq<char>, Box<NodeV<ExprV>>),
    MethodCall { receiver: Box<NodeV<ExprV>>, method: Seq<char>, args: Seq<NodeV<ExprV>> },
    MemberAccess { receiver: Box<NodeV<ExprV>>, member: Seq<char>, is_ptr: bool },
    Assignment(Seq<char>, Box<NodeV<ExprV>>),
    UnaryOp(Seq<char>, Box<NodeV<ExprV>>, bool),
    StringLiteral(Seq<char>),
    Call(Seq<char>, Seq<NodeV<ExprV>>),
}

pub type ExprNodeV = NodeV<ExprV>;

pub open spec fn expr_node_view(n: Node<Expression>) -> ExprNodeV
    decreases n,
{
    NodeV { data: expr_view(n.data), span: n.span }
}

pub open spec fn expr_view(e: Expression) -> ExprV
    decreases e,
{
    match e {
        Expression::Identifier(s) => ExprV::Identifier(s@),
        Expression::Number(s) => ExprV::Number(s@),
        Expression::BinaryOp(l, op, r) => ExprV::BinaryOp(
            Box::new(expr_node_view(*l)),
            op@,
            Box::new(expr_node_view(*r)),
        ),
        Expression::MethodCall { receiver, method, args } => ExprV::MethodCall {
            receiver: Box::new(expr_node_view(*receiver)),
            method: method@,
            args: exprs_view(args@),
        },
        Expression::MemberAccess { receiver, member, is_ptr } => ExprV::MemberAccess {
            receiver: Box::new(expr_node_view(*receiver)),
            member: member@,
            is_ptr,
        },
        Expression::Assignment(s, v) => ExprV::Assignment(s@, Box::new(expr_node_view(*v))),
        Expression::UnaryOp(s, v, p) => ExprV::UnaryOp(s@, Box::new(expr_node_view(*v)), p),
        Expression::StringLiteral(s) => ExprV::StringLiteral(s@),
        Expression::Call(s, args) => ExprV::Call(s@, exprs_view(args@)),
    }
}

pub open spec fn exprs_view(s: Seq<Node<Expression>>) -> Seq<ExprNodeV>
    decreases s,
{
    Seq::new(s.len(), |i: int| if 0 <= i < s.len() { expr_node_view(s[i]) } else { vstd::pervasive::arbitrary() })
}

} // verus!

verus! {

pub open spec fn opt_expr_view(o: Option<Node<Expression>>) -> Option<ExprNodeV> {
    match o {
        Some(n) => Some(expr_node_view(n)),
        None => None,
    }
}

pub struct FieldV {
    pub name: Seq<char>,
    pub ty: Seq<char>,
    pub default_value: Option<ExprNodeV>,
}

pub struct StructDefV {
    pub name: Seq<char>,
    pub fields: Seq<FieldV>,
}

pub struct AliasDeclV {
    pub is_mut: bool,
    pub ty: Seq<char>,
    pub name: Seq<char>,
    pub source: Seq<char>,
}

pub struct CtorCallV {
    pub name: Seq<char>,
    pub args: Seq<ExprNodeV>,
}

pub struct VarDeclV {
    pub ty: Seq<char>,
    pub name: Seq<char>,
    pub init: Option<ExprNodeV>,
    pub constructor_call: Option<CtorCallV>,
}

pub struct FunctionDefV {
    pub name: Seq<char>,
    pub params: Seq<(Seq<char>, Seq<char>)>,
    pub return_ty: Seq<char>,
    pub body: Box<NodeV<StmtV>>,
}

pub struct BindBlockV {
    pub struct_name: Seq<char>,
    pub functions: Seq<FunctionDefV>,
}

pub enum ForkOpV {
    Add(FieldV),
    Remove(Seq<char>),
}

pub enum BindOpV {
    Add(FunctionDefV),
    Remove(Seq<char>),
    Patch { old_fn_name: Seq<char>, new_fn_def: FunctionDefV },
}

pub struct ForkBlockV {
    pub base_name: Seq<char>,
    pub new_name: Seq<char>,
    pub operations: Seq<ForkOpV>,
    pub bind_ops: Seq<BindOpV>,
}

#[allow(inconsistent_fields)]
pub enum StmtV {
    StructDef(StructDefV),
    BindBlock(BindBlockV),
    ForkBlock(ForkBlockV),
    FunctionDef(FunctionDefV),
    LetDeclaration(VarDeclV),
    UnsafeDeclaration(VarDeclV),
    AliasDeclaration(AliasDeclV),
    Expression(ExprNodeV),
    Return(Option<ExprNodeV>),
    Block(Seq<NodeV<StmtV>>),
    If { condition: ExprNodeV, then_branch: Box<NodeV<StmtV>>, else_branch: Option<Box<NodeV<StmtV>>> },
    For {
        init: Option<Box<NodeV<StmtV>>>,
        condition: Option<ExprNodeV>,
        step: Option<ExprNodeV>,
        body: Box<NodeV<StmtV>>,
    },
    While { condition: ExprNodeV, body: Box<NodeV<StmtV>> },
    RawC(Seq<char>),
    Spawn(Seq<char>, Seq<ExprNodeV>),
}

pub type StmtNodeV = NodeV<StmtV>;

pub open spec fn field_view(f: Field) -> FieldV {
    FieldV { name: f.name@, ty: f.ty@, default_value: opt_expr_view(f.default_value) }
}

pub open spec fn fields_view(s: Seq<Field>) -> Seq<FieldV> {
    Seq::new(s.len(), |i: int| field_view(s[i]))
}

pub open spec fn struct_def_view(d: StructDef) -> StructDefV {
    StructDefV { name: d.name@, fields: fields_view(d.fields@) }
}

pub open spec fn params_view(s: Seq<(String, String)>) -> Seq<(Seq<char>, Seq<char>)> {
    Seq::new(s.len(), |i: int| (s[i].0@, s[i].1@))
}

pub open spec fn ctor_view(c: ConstructorCall) -> CtorCallV {
    CtorCallV { name: c._name@, args: exprs_view(c.args@) }
}

pub open spec fn var_decl_view(d: VariableDeclaration) -> VarDeclV {
    VarDeclV {
        ty: d.ty@,
        name: d.name@,
        init: opt_expr_view(d.init),
        constructor_call: match d.constructor_call {
            Some(c) => Some(ctor_view(c)),
            None => None,
        },
    }
}

pub open spec fn alias_view(d: AliasDeclaration) -> AliasDeclV {
    AliasDeclV { is_mut: d.is_mut, ty: d.ty@, name: d.name@, source: d.source@ }
}

pub open spec fn fork_op_view(o: ForkOp) -> ForkOpV {
    match o {
        ForkOp::Add(f) => ForkOpV::Add(field_view(f)),
        ForkOp::Remove(s) => ForkOpV::Remove(s@),
    }
}

pub open spec fn fork_ops_view(s: Seq<ForkOp>) -> Seq<ForkOpV> {
    Seq::new(s.len(), |i: int| fork_op_view(s[i]))
}

pub open spec fn func_view(f: FunctionDef) -> FunctionDefV
    decreases f,
{
    FunctionDefV {
        name: f.name@,
        params: params_view(f.params@),
        return_ty: f.return_ty@,
        body: Box::new(stmt_node_view(*f.body)),
    }
}

pub open spec fn funcs_view(s: Seq<FunctionDef>) -> Seq<FunctionDefV>
    decreases s,
{
    Seq::new(s.len(), |i: int| if 0 <= i < s.len() { func_view(s[i]) } else { vstd::pervasive::arbitrary() })
}

pub open spec fn bind_op_view(o: BindOp) -> BindOpV
    decreases o,
{
    match o {
        BindOp::Add(f) => BindOpV::Add(func_view(f)),
        BindOp::Remove(s) => BindOpV::Remove(s@),
        BindOp::Patch { _old_fn_name, new_fn_def } => BindOpV::Patch {
            old_fn_name: _old_fn_name@,
            new_fn_def: func_view(new_fn_def),
        },
    }
}

pub open spec fn bind_ops_view(s: Seq<BindOp>) -> Seq<BindOpV>
    decreases s,
{
    Seq::new(s.len(), |i: int| if 0 <= i < s.len() { bind_op_view(s[i]) } else { vstd::pervasive::arbitrary() })
}

pub open spec fn stmt_node_view(n: Node<Statement>) -> StmtNodeV
    decreases n,
{
    NodeV { data: stmt_view(n.data), span: n.span }
}

pub open spec fn stmts_view(s: Seq<Node<Statement>>) -> Seq<StmtNodeV>
    decreases s,
{
    Seq::new(s.len(), |i: int| if 0 <= i < s.len() { stmt_node_view(s[i]) } else { vstd::pervasive::arbitrary() })
}

pub open spec fn stmt_view(s: Statement) -> StmtV
    decreases s,
{
    match s {
        Statement::StructDef(d) => StmtV::StructDef(struct_def_view(d)),
        Statement::BindBlock(b) => StmtV::BindBlock(
            BindBlockV { struct_name: b.struct_name@, functions: funcs_view(b.functions@) },
        ),
        Statement::ForkBlock(f) => StmtV::ForkBlock(
            ForkBlockV {
                base_name: f.base_name@,
                new_name: f.new_name@,
                operations: fork_ops_view(f.operations@),
                bind_ops: bind_ops_view(f.bind_ops@),
            },
        ),
        Statement::FunctionDef(f) => StmtV::FunctionDef(func_view(f)),
        Statement::LetDeclaration(d) => StmtV::LetDeclaration(var_decl_view(d)),
        Statement::UnsafeDeclaration(d) => StmtV::UnsafeDeclaration(var_decl_view(d)),
        Statement::AliasDeclaration(d) => StmtV::AliasDeclaration(alias_view(d)),
        Statement::Expression(e) => StmtV::Expression(expr_node_view(e)),
        Statement::Return(e) => StmtV::Return(opt_expr_view(e)),
        Statement::Block(v) => StmtV::Block(stmts_view(v@)),
        Statement::If { condition, then_branch, else_branch } => StmtV::If {
            condition: expr_node_view(condition),
            then_branch: Box::new(stmt_node_view(*then_branch)),
            else_branch: match else_branch {
                Some(b) => Some(Box::new(stmt_node_view(*b))),
                None => None,
            },
        },
        Statement::For { init, condition, step, body } => StmtV::For {
            init: match init {
                Some(b) => Some(Box::new(stmt_node_view(*b))),
                None => None,
            },
            condition: opt_expr_view(condition),
            step: opt_expr_view(step),
            body: Box::new(stmt_node_view(*body)),
        },
        Statement::While { condition, body } => StmtV::While {
            condition: expr_node_view(condition),
            body: Box::new(stmt_node_view(*body)),
        },
        Statement::RawC(c) => StmtV::RawC(c@),
        Statement::Spawn(f, args) => StmtV::Spawn(f@, exprs_view(args@)),
    }
}

} // verus!
