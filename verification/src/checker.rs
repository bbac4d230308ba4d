//! The ownership checker: walks the syntax tree with a stack of scopes and rejects
//! uses of moved values, moves and writes of borrowed values, and conflicting borrows.
use vstd::prelude::*;
use crate::ast::{
    stmt_view, Span, Node, Statement, Expression, FunctionDef, BindOp, ExprV, ExprNodeV, StmtV, StmtNodeV,
    FunctionDefV, BindOpV, expr_node_view, exprs_view, stmt_node_view, stmts_view, func_view,
    funcs_view, bind_op_view, bind_ops_view, params_view,
};
use crate::text::{decimal, append_decimal, append_str, push_char, str_is, string_from};

verus! {

#[derive(Debug, Clone, Copy, PartialEq, Eq, Structural)]
pub enum BorrowState {
    Unborrowed,
    Immutable(usize),
    Mutable,
}

#[derive(Debug, Clone, Copy, PartialEq, Eq, Structural)]
pub enum OwnershipStatus {
    Available,
    Moved,
    /// A plain C variable (`unsafe`): never moved and never borrow-checked.
    Unmanaged,
}

#[derive(Debug, Clone, PartialEq)]
pub struct VariableMeta {
    pub status: OwnershipStatus,
    pub borrows: BorrowState,
    pub is_alias: bool,
    pub alias_source: Option<String>,
    pub is_mut_alias: bool,
}

#[derive(Debug, Clone, Copy, PartialEq, Eq, Structural)]
pub enum AccessContext {
    Move,
    Read,
    MutBorrow,
    ImmBorrow,
    Write,
}

/// The mathematical model of a variable's ownership record.
pub struct MetaV {
    pub status: OwnershipStatus,
    pub borrows: BorrowState,
    pub is_alias: bool,
    pub alias_source: Option<Seq<char>>,
    pub is_mut_alias: bool,
}

impl View for VariableMeta {
    type V = MetaV;

    open spec fn view(&self) -> MetaV {
        MetaV {
            status: self.status,
            borrows: self.borrows,
            is_alias: self.is_alias,
            alias_source: match self.alias_source {
                Some(s) => Some(s@),
                None => None,
            },
            is_mut_alias: self.is_mut_alias,
        }
    }
}

/// One scope: variable names with their records, in the order they were first defined.
pub type ScopeV = Seq<(Seq<char>, MetaV)>;

/// The scope stack, innermost last.
pub type ScopesV = Seq<ScopeV>;

pub open spec fn scope_view(s: Seq<(String, VariableMeta)>) -> ScopeV {
    Seq::new(s.len(), |i: int| (s[i].0@, s[i].1@))
}

pub open spec fn scopes_view(s: Seq<Vec<(String, VariableMeta)>>) -> ScopesV {
    Seq::new(s.len(), |i: int| scope_view(s[i]@))
}

// ---------------------------------------------------------------------------
// Scopes as finite maps.
// ---------------------------------------------------------------------------

/// The index of the entry for `k` in `s`, or -1.
pub open spec fn scope_find(s: ScopeV, k: Seq<char>) -> int
    decreases s.len(),
{
    if s.len() == 0 {
        -1
    } else if s[0].0 == k {
        0
    } else {
        let r = scope_find(s.drop_first(), k);
        if r < 0 { -1 } else { r + 1 }
    }
}

pub proof fn lemma_scope_find(s: ScopeV, k: Seq<char>)
    ensures
        -1 <= scope_find(s, k) < s.len(),
        scope_find(s, k) == -1 <==> forall|j: int| 0 <= j < s.len() ==> s[j].0 != k,
        scope_find(s, k) >= 0 ==> s[scope_find(s, k)].0 == k
            && forall|j: int| 0 <= j < scope_find(s, k) ==> s[j].0 != k,
    decreases s.len(),
{
    if s.len() > 0 {
        lemma_scope_find(s.drop_first(), k);
        if s[0].0 != k {
            assert forall|j: int| 1 <= j < s.len() implies s[j].0 == s.drop_first()[j - 1].0 by {}
        }
    }
}

pub open spec fn scope_get(s: ScopeV, k: Seq<char>) -> Option<MetaV> {
    let i = scope_find(s, k);
    if i >= 0 { Some(s[i].1) } else { None }
}

/// Sets the record of `k`, in place if `k` is defined, else as a new last entry.
pub open spec fn scope_insert(s: ScopeV, k: Seq<char>, m: MetaV) -> ScopeV {
    let i = scope_find(s, k);
    if i >= 0 { s.update(i, (k, m)) } else { s.push((k, m)) }
}

/// The index of the innermost scope that defines `k`, or -1.
pub open spec fn var_scope(sc: ScopesV, k: Seq<char>) -> int
    decreases sc.len(),
{
    if sc.len() == 0 {
        -1
    } else if scope_find(sc.last(), k) >= 0 {
        sc.len() - 1
    } else {
        var_scope(sc.drop_last(), k)
    }
}

pub proof fn lemma_var_scope(sc: ScopesV, k: Seq<char>)
    ensures
        -1 <= var_scope(sc, k) < sc.len(),
        var_scope(sc, k) >= 0 ==> scope_find(sc[var_scope(sc, k)], k) >= 0,
        forall|j: int| var_scope(sc, k) < j < sc.len() ==> scope_find(#[trigger] sc[j], k) < 0,
    decreases sc.len(),
{
    if sc.len() > 0 && scope_find(sc.last(), k) < 0 {
        lemma_var_scope(sc.drop_last(), k);
        assert forall|j: int| var_scope(sc, k) < j < sc.len() implies scope_find(#[trigger] sc[j], k) < 0 by {
            if j < sc.len() - 1 {
                assert(sc[j] == sc.drop_last()[j]);
            }
        }
    }
}

/// The record of the innermost variable named `k`.
pub open spec fn find_var(sc: ScopesV, k: Seq<char>) -> Option<MetaV> {
    let i = var_scope(sc, k);
    if i >= 0 { scope_get(sc[i], k) } else { None }
}

/// Replaces the record of the innermost variable named `k`, if there is one.
pub open spec fn update_var(sc: ScopesV, k: Seq<char>, m: MetaV) -> ScopesV {
    let i = var_scope(sc, k);
    if i >= 0 { sc.update(i, scope_insert(sc[i], k, m)) } else { sc }
}

pub open spec fn fresh_meta(is_alias: bool, source: Option<Seq<char>>, is_mut: bool) -> MetaV {
    MetaV {
        status: OwnershipStatus::Available,
        borrows: BorrowState::Unborrowed,
        is_alias,
        alias_source: source,
        is_mut_alias: is_mut,
    }
}

/// The record of an `unsafe` variable, which ownership does not manage.
pub open spec fn unmanaged_meta() -> MetaV {
    MetaV {
        status: OwnershipStatus::Unmanaged,
        borrows: BorrowState::Unborrowed,
        is_alias: false,
        alias_source: None,
        is_mut_alias: false,
    }
}

/// Defines (or redefines) `k` in the innermost scope.
pub open spec fn define(sc: ScopesV, k: Seq<char>, m: MetaV) -> ScopesV {
    sc.update(sc.len() - 1, scope_insert(sc.last(), k, m))
}

pub open spec fn mark_moved(sc: ScopesV, k: Seq<char>) -> ScopesV {
    match find_var(sc, k) {
        Some(m) => update_var(sc, k, MetaV { status: OwnershipStatus::Moved, ..m }),
        None => sc,
    }
}

pub open spec fn internal_conflict_msg(k: Seq<char>) -> Seq<char> {
    "Internal Error: Borrow conflict not caught for '"@ + k + "'"@
}

/// The borrow state after one more borrow, or `None` for a conflict.
pub open spec fn borrowed(b: BorrowState, is_mut: bool) -> Option<BorrowState> {
    match (b, is_mut) {
        (BorrowState::Unborrowed, false) => Some(BorrowState::Immutable(1)),
        (BorrowState::Unborrowed, true) => Some(BorrowState::Mutable),
        (BorrowState::Immutable(n), false) => Some(BorrowState::Immutable((n + 1) as usize)),
        _ => None,
    }
}

/// The borrow state after one borrow ends.
pub open spec fn released(b: BorrowState, is_mut: bool) -> BorrowState {
    match (b, is_mut) {
        (BorrowState::Immutable(n), false) => if n > 1 {
            BorrowState::Immutable((n - 1) as usize)
        } else if n == 1 {
            BorrowState::Unborrowed
        } else {
            b
        },
        (BorrowState::Mutable, true) => BorrowState::Unborrowed,
        _ => b,
    }
}

pub open spec fn apply_borrow(sc: ScopesV, k: Seq<char>, is_mut: bool) -> Result<ScopesV, Seq<char>> {
    match find_var(sc, k) {
        None => Ok(sc),
        Some(m) => if m.status == OwnershipStatus::Unmanaged {
            Ok(sc)
        } else {
            match borrowed(m.borrows, is_mut) {
                Some(b) => Ok(update_var(sc, k, MetaV { borrows: b, ..m })),
                None => Err(internal_conflict_msg(k)),
            }
        },
    }
}

pub open spec fn release_borrow(sc: ScopesV, k: Seq<char>, is_mut: bool) -> ScopesV {
    match find_var(sc, k) {
        None => sc,
        Some(m) => if m.status == OwnershipStatus::Unmanaged {
            sc
        } else {
            update_var(sc, k, MetaV { borrows: released(m.borrows, is_mut), ..m })
        },
    }
}

/// Ends the borrows that the aliases among `entries[i..]` hold.
pub open spec fn release_entries(sc: ScopesV, entries: ScopeV, i: int) -> ScopesV
    decreases entries.len() - i,
{
    if i < 0 || i >= entries.len() {
        sc
    } else {
        let m = entries[i].1;
        let sc2 = if m.is_alias && m.alias_source is Some {
            release_borrow(sc, m.alias_source->0, m.is_mut_alias)
        } else {
            sc
        };
        release_entries(sc2, entries, i + 1)
    }
}

pub open spec fn enter_scope(sc: ScopesV) -> ScopesV {
    sc.push(Seq::empty())
}

/// Leaving a scope drops it and ends the borrows of the aliases it defined.
pub open spec fn exit_scope(sc: ScopesV) -> ScopesV {
    release_entries(sc.drop_last(), sc.last(), 0)
}

pub open spec fn merged_entry(e: (Seq<char>, MetaV), then_s: ScopeV, else_s: ScopeV) -> (Seq<char>, MetaV) {
    let moved = (e.0, MetaV { status: OwnershipStatus::Moved, ..e.1 });
    match (scope_get(then_s, e.0), scope_get(else_s, e.0)) {
        (Some(t), Some(el)) => if t.status == OwnershipStatus::Moved || el.status == OwnershipStatus::Moved {
            moved
        } else {
            e
        },
        (Some(t), None) => if t.status == OwnershipStatus::Moved { moved } else { e },
        _ => e,
    }
}

/// After an `if`, a variable of the current scope is moved if a branch moved it.
pub open spec fn merge_scopes(sc: ScopesV, then_s: ScopeV, else_s: ScopeV) -> ScopesV {
    let cur = sc.last();
    sc.update(sc.len() - 1, Seq::new(cur.len(), |j: int| merged_entry(cur[j], then_s, else_s)))
}

// ---------------------------------------------------------------------------
// The rules.
// ---------------------------------------------------------------------------

/// `[line:col] msg'name'`
pub open spec fn located(span: Span, msg: Seq<char>, k: Seq<char>) -> Seq<char> {
    seq!['['] + decimal(span.line as nat) + seq![':'] + decimal(span.col as nat) + seq![']', ' '] + msg
        + seq!['\''] + k + seq!['\'']
}

pub open spec fn validate_access(sc: ScopesV, k: Seq<char>, ctx: AccessContext, span: Span) -> Result<ScopesV, Seq<char>> {
    match find_var(sc, k) {
        None => Err(located(span, "Undefined variable "@, k)),
        Some(m) => if m.status == OwnershipStatus::Moved {
            Err(located(span, "Use of moved value: "@, k))
        } else if m.status == OwnershipStatus::Unmanaged {
            Ok(sc)
        } else {
            match ctx {
                AccessContext::Move => if m.borrows != BorrowState::Unborrowed {
                    Err(located(span, "Cannot move borrowed value: "@, k))
                } else {
                    Ok(mark_moved(sc, k))
                },
                AccessContext::MutBorrow => if m.borrows != BorrowState::Unborrowed {
                    Err(located(span, "Cannot mut-borrow value with active borrows: "@, k))
                } else {
                    Ok(sc)
                },
                AccessContext::ImmBorrow => if m.borrows == BorrowState::Mutable {
                    Err(located(span, "Cannot imm-borrow mutably borrowed value: "@, k))
                } else {
                    Ok(sc)
                },
                AccessContext::Write => if m.borrows != BorrowState::Unborrowed {
                    Err(located(span, "Cannot assign to borrowed value: "@, k))
                } else {
                    Ok(sc)
                },
                AccessContext::Read => Ok(sc),
            }
        },
    }
}

pub open spec fn ck_expr(sc: ScopesV, e: ExprNodeV, ctx: AccessContext) -> Result<ScopesV, Seq<char>>
    decreases e, 0int,
{
    match e.data {
        ExprV::Identifier(name) => validate_access(sc, name, ctx, e.span),
        ExprV::MethodCall { receiver, method, args } => {
            let rctx = if method == "clone"@ { AccessContext::Read } else { AccessContext::MutBorrow };
            match ck_expr(sc, *receiver, rctx) {
                Err(m) => Err(m),
                Ok(sc1) => ck_args(sc1, args, 0),
            }
        },
        ExprV::BinaryOp(l, op, r) => {
            let (lc, rc) = if op == "="@ {
                (AccessContext::Write, AccessContext::Move)
            } else {
                (AccessContext::Read, AccessContext::Read)
            };
            match ck_expr(sc, *l, lc) {
                Err(m) => Err(m),
                Ok(sc1) => ck_expr(sc1, *r, rc),
            }
        },
        ExprV::MemberAccess { receiver, .. } => ck_expr(sc, *receiver, AccessContext::Read),
        ExprV::Call(_, args) => ck_args(sc, args, 0),
        ExprV::Assignment(name, val) => match ck_expr(sc, *val, AccessContext::Move) {
            Err(m) => Err(m),
            Ok(sc1) => Ok(define(sc1, name, fresh_meta(false, None, false))),
        },
        _ => Ok(sc),
    }
}

/// Each argument, from `i` on, is moved into the call.
pub open spec fn ck_args(sc: ScopesV, args: Seq<ExprNodeV>, i: int) -> Result<ScopesV, Seq<char>>
    decreases args, args.len() - i,
{
    if i < 0 || i >= args.len() {
        Ok(sc)
    } else {
        match ck_expr(sc, args[i], AccessContext::Move) {
            Err(m) => Err(m),
            Ok(sc1) => ck_args(sc1, args, i + 1),
        }
    }
}

pub open spec fn define_params(sc: ScopesV, ps: Seq<(Seq<char>, Seq<char>)>, i: int) -> ScopesV
    decreases ps.len() - i,
{
    if i < 0 || i >= ps.len() {
        sc
    } else {
        define_params(define(sc, ps[i].1, fresh_meta(false, None, false)), ps, i + 1)
    }
}

/// A function bound to a struct: its body sees `host` and its parameters.
pub open spec fn ck_bound_fn(sc: ScopesV, f: FunctionDefV) -> Result<ScopesV, Seq<char>>
    decreases f, 0int,
{
    let sc1 = define(enter_scope(sc), "host"@, fresh_meta(false, None, false));
    let sc2 = define_params(sc1, f.params, 0);
    match ck_stmt(sc2, *f.body) {
        Err(m) => Err(m),
        Ok(sc3) => Ok(exit_scope(sc3)),
    }
}

pub open spec fn ck_bound_fns(sc: ScopesV, fs: Seq<FunctionDefV>, i: int) -> Result<ScopesV, Seq<char>>
    decreases fs, fs.len() - i,
{
    if i < 0 || i >= fs.len() {
        Ok(sc)
    } else {
        match ck_bound_fn(sc, fs[i]) {
            Err(m) => Err(m),
            Ok(sc1) => ck_bound_fns(sc1, fs, i + 1),
        }
    }
}

pub open spec fn ck_bind_ops(sc: ScopesV, ops: Seq<BindOpV>, i: int) -> Result<ScopesV, Seq<char>>
    decreases ops, ops.len() - i,
{
    if i < 0 || i >= ops.len() {
        Ok(sc)
    } else {
        let r = match ops[i] {
            BindOpV::Add(f) => ck_bound_fn(sc, f),
            BindOpV::Patch { new_fn_def, .. } => ck_bound_fn(sc, new_fn_def),
            BindOpV::Remove(_) => Ok(sc),
        };
        match r {
            Err(m) => Err(m),
            Ok(sc1) => ck_bind_ops(sc1, ops, i + 1),
        }
    }
}

pub open spec fn ck_stmts(sc: ScopesV, s: Seq<StmtNodeV>, i: int) -> Result<ScopesV, Seq<char>>
    decreases s, s.len() - i,
{
    if i < 0 || i >= s.len() {
        Ok(sc)
    } else {
        match ck_stmt(sc, s[i]) {
            Err(m) => Err(m),
            Ok(sc1) => ck_stmts(sc1, s, i + 1),
        }
    }
}

pub open spec fn ck_stmt(sc: ScopesV, n: StmtNodeV) -> Result<ScopesV, Seq<char>>
    decreases n, 0int,
{
    match n.data {
        StmtV::LetDeclaration(d) => {
            let r = match d.init {
                Some(init) => ck_expr(sc, init, AccessContext::Move),
                None => Ok(sc),
            };
            match r {
                Err(m) => Err(m),
                Ok(sc1) => Ok(define(sc1, d.name, fresh_meta(false, None, false))),
            }
        },
        StmtV::UnsafeDeclaration(d) => {
            let r = match d.init {
                Some(init) => ck_expr(sc, init, AccessContext::Read),
                None => Ok(sc),
            };
            match r {
                Err(m) => Err(m),
                Ok(sc1) => Ok(define(sc1, d.name, unmanaged_meta())),
            }
        },
        StmtV::AliasDeclaration(d) => {
            let ctx = if d.is_mut { AccessContext::MutBorrow } else { AccessContext::ImmBorrow };
            match validate_access(sc, d.source, ctx, n.span) {
                Err(m) => Err(m),
                Ok(sc1) => match apply_borrow(sc1, d.source, d.is_mut) {
                    Err(m) => Err(m),
                    Ok(sc2) => Ok(define(sc2, d.name, fresh_meta(true, Some(d.source), d.is_mut))),
                },
            }
        },
        StmtV::Expression(e) => ck_expr(sc, e, AccessContext::Read),
        StmtV::Block(stmts) => match ck_stmts(enter_scope(sc), stmts, 0) {
            Err(m) => Err(m),
            Ok(sc1) => Ok(exit_scope(sc1)),
        },
        StmtV::If { condition, then_branch, else_branch } => match ck_expr(sc, condition, AccessContext::Read) {
            Err(m) => Err(m),
            Ok(sc1) => {
                let before = sc1.last();
                match ck_stmt(sc1, *then_branch) {
                    Err(m) => Err(m),
                    Ok(sc2) => {
                        let after_then = sc2.last();
                        let sc3 = sc2.update(sc2.len() - 1, before);
                        match else_branch {
                            Some(eb) => match ck_stmt(sc3, *eb) {
                                Err(m) => Err(m),
                                Ok(sc4) => Ok(merge_scopes(sc4, after_then, sc4.last())),
                            },
                            None => Ok(merge_scopes(sc3, after_then, sc3.last())),
                        }
                    },
                }
            },
        },
        StmtV::Return(Some(e)) => ck_expr(sc, e, AccessContext::Move),
        StmtV::FunctionDef(f) => {
            let sc1 = define_params(enter_scope(sc), f.params, 0);
            match ck_stmt(sc1, *f.body) {
                Err(m) => Err(m),
                Ok(sc2) => Ok(exit_scope(sc2)),
            }
        },
        StmtV::BindBlock(b) => ck_bound_fns(sc, b.functions, 0),
        StmtV::ForkBlock(f) => ck_bind_ops(sc, f.bind_ops, 0),
        StmtV::Spawn(_, args) => ck_args(sc, args, 0),
        StmtV::While { condition, body } => match ck_expr(sc, condition, AccessContext::Read) {
            Err(m) => Err(m),
            Ok(sc1) => ck_stmt(sc1, *body),
        },
        StmtV::For { init, condition, step, body } => {
            let r1 = match init {
                Some(i) => ck_stmt(sc, *i),
                None => Ok(sc),
            };
            match r1 {
                Err(m) => Err(m),
                Ok(sc1) => {
                    let r2 = match condition {
                        Some(c) => ck_expr(sc1, c, AccessContext::Read),
                        None => Ok(sc1),
                    };
                    match r2 {
                        Err(m) => Err(m),
                        Ok(sc2) => match ck_stmt(sc2, *body) {
                            Err(m) => Err(m),
                            Ok(sc3) => match step {
                                Some(x) => ck_expr(sc3, x, AccessContext::Read),
                                None => Ok(sc3),
                            },
                        },
                    }
                },
            }
        },
        _ => Ok(sc),
    }
}

/// The check of a whole program, from one empty scope.
pub open spec fn spec_check(ast: Seq<StmtNodeV>) -> Result<ScopesV, Seq<char>> {
    ck_stmts(seq![Seq::empty()], ast, 0)
}


// ---------------------------------------------------------------------------
// Bound on borrow counters: a counter never exceeds the number of `alias`
// declarations checked so far.
// ---------------------------------------------------------------------------

pub open spec fn alias_count(n: StmtNodeV) -> nat
    decreases n, 0int,
{
    match n.data {
        StmtV::AliasDeclaration(_) => 1,
        StmtV::Block(s) => alias_count_seq(s, 0),
        StmtV::If { then_branch, else_branch, .. } => alias_count(*then_branch) + match else_branch {
            Some(eb) => alias_count(*eb),
            None => 0,
        },
        StmtV::FunctionDef(f) => alias_count(*f.body),
        StmtV::BindBlock(b) => alias_count_fns(b.functions, 0),
        StmtV::ForkBlock(f) => alias_count_ops(f.bind_ops, 0),
        StmtV::While { body, .. } => alias_count(*body),
        StmtV::For { init, body, .. } => alias_count(*body) + match init {
            Some(i) => alias_count(*i),
            None => 0,
        },
        _ => 0,
    }
}

pub open spec fn alias_count_seq(s: Seq<StmtNodeV>, i: int) -> nat
    decreases s, s.len() - i,
{
    if i < 0 || i >= s.len() { 0 } else { alias_count(s[i]) + alias_count_seq(s, i + 1) }
}

pub open spec fn alias_count_fn(f: FunctionDefV) -> nat
    decreases f, 0int,
{
    alias_count(*f.body)
}

pub open spec fn alias_count_fns(fs: Seq<FunctionDefV>, i: int) -> nat
    decreases fs, fs.len() - i,
{
    if i < 0 || i >= fs.len() { 0 } else { alias_count_fn(fs[i]) + alias_count_fns(fs, i + 1) }
}

pub open spec fn alias_count_ops(ops: Seq<BindOpV>, i: int) -> nat
    decreases ops, ops.len() - i,
{
    if i < 0 || i >= ops.len() {
        0
    } else {
        (match ops[i] {
            BindOpV::Add(f) => alias_count_fn(f),
            BindOpV::Patch { new_fn_def, .. } => alias_count_fn(new_fn_def),
            BindOpV::Remove(_) => 0,
        }) + alias_count_ops(ops, i + 1)
    }
}

/// An immutable-borrow counter is positive and at most `k`.
pub open spec fn count_le(b: BorrowState, k: int) -> bool {
    match b {
        BorrowState::Immutable(n) => 1 <= n <= k,
        _ => true,
    }
}

pub open spec fn scope_bounded(s: ScopeV, k: int) -> bool {
    forall|j: int| 0 <= j < s.len() ==> count_le((#[trigger] s[j]).1.borrows, k)
}

pub open spec fn bounded(sc: ScopesV, k: int) -> bool {
    forall|i: int| 0 <= i < sc.len() ==> scope_bounded(#[trigger] sc[i], k)
}

pub proof fn lemma_scope_get_in(s: ScopeV, k: Seq<char>, b: int)
    requires
        scope_bounded(s, b),
    ensures
        scope_get(s, k) matches Some(m) ==> count_le(m.borrows, b),
{
    lemma_scope_find(s, k);
}

pub proof fn lemma_find_var_bounded(sc: ScopesV, k: Seq<char>, b: int)
    requires
        bounded(sc, b),
    ensures
        find_var(sc, k) matches Some(m) ==> count_le(m.borrows, b),
{
    lemma_var_scope(sc, k);
    let i = var_scope(sc, k);
    if i >= 0 {
        lemma_scope_get_in(sc[i], k, b);
    }
}

pub proof fn lemma_scope_insert_bounded(s: ScopeV, k: Seq<char>, m: MetaV, b: int)
    requires
        scope_bounded(s, b),
        count_le(m.borrows, b),
    ensures
        scope_bounded(scope_insert(s, k, m), b),
{
    lemma_scope_find(s, k);
    let r = scope_insert(s, k, m);
    assert forall|j: int| 0 <= j < r.len() implies count_le((#[trigger] r[j]).1.borrows, b) by {
        if j < s.len() && r[j] != s[j] {
            assert(r[j] == (k, m));
        }
    }
}

pub proof fn lemma_update_var_bounded(sc: ScopesV, k: Seq<char>, m: MetaV, b: int)
    requires
        bounded(sc, b),
        count_le(m.borrows, b),
    ensures
        bounded(update_var(sc, k, m), b),
        update_var(sc, k, m).len() == sc.len(),
{
    lemma_var_scope(sc, k);
    let i = var_scope(sc, k);
    if i >= 0 {
        lemma_scope_insert_bounded(sc[i], k, m, b);
        let r = update_var(sc, k, m);
        assert forall|x: int| 0 <= x < r.len() implies scope_bounded(#[trigger] r[x], b) by {
            if x != i {
                assert(r[x] == sc[x]);
            }
        }
    }
}

pub proof fn lemma_bounded_mono(sc: ScopesV, a: int, b: int)
    requires
        bounded(sc, a),
        a <= b,
    ensures
        bounded(sc, b),
{
    assert forall|i: int| 0 <= i < sc.len() implies scope_bounded(#[trigger] sc[i], b) by {
        assert(scope_bounded(sc[i], a));
        assert forall|j: int| 0 <= j < sc[i].len() implies count_le((#[trigger] sc[i][j]).1.borrows, b) by {
        }
    }
}


pub proof fn lemma_bounded_set(sc: ScopesV, i: int, s: ScopeV, b: int)
    requires
        bounded(sc, b),
        scope_bounded(s, b),
        0 <= i < sc.len(),
    ensures
        bounded(sc.update(i, s), b),
{
    let r = sc.update(i, s);
    assert forall|x: int| 0 <= x < r.len() implies scope_bounded(#[trigger] r[x], b) by {
        if x != i {
            assert(r[x] == sc[x]);
        }
    }
}

pub proof fn lemma_scope_bounded_mono(s: ScopeV, a: int, b: int)
    requires
        scope_bounded(s, a),
        a <= b,
    ensures
        scope_bounded(s, b),
{
    assert forall|j: int| 0 <= j < s.len() implies count_le((#[trigger] s[j]).1.borrows, b) by {}
}

// ---------------------------------------------------------------------------
// Executable checker.
// ---------------------------------------------------------------------------

fn clone_meta(m: &VariableMeta) -> (r: VariableMeta)
    ensures
        r == *m,
{
    VariableMeta {
        status: m.status,
        borrows: m.borrows,
        is_alias: m.is_alias,
        alias_source: match &m.alias_source {
            Some(s) => Some(s.clone()),
            None => None,
        },
        is_mut_alias: m.is_mut_alias,
    }
}

fn clone_scope(s: &Vec<(String, VariableMeta)>) -> (r: Vec<(String, VariableMeta)>)
    ensures
        scope_view(r@) == scope_view(s@),
{
    let mut r: Vec<(String, VariableMeta)> = Vec::new();
    let mut i: usize = 0;
    while i < s.len()
        invariant
            i <= s.len(),
            scope_view(r@) == scope_view(s@).take(i as int),
        decreases s.len() - i,
    {
        let ghost old_r = scope_view(r@);
        let e = (s[i].0.clone(), clone_meta(&s[i].1));
        r.push(e);
        assert(scope_view(r@) =~= old_r.push((s@[i as int].0@, s@[i as int].1@)));
        i = i + 1;
        assert(scope_view(r@) =~= scope_view(s@).take(i as int));
    }
    assert(scope_view(s@).take(i as int) =~= scope_view(s@));
    r
}

fn index_in_scope(scope: &Vec<(String, VariableMeta)>, name: &String) -> (r: Option<usize>)
    ensures
        match r {
            Some(j) => scope_find(scope_view(scope@), name@) == j as int,
            None => scope_find(scope_view(scope@), name@) == -1,
        },
{
    let ghost sv = scope_view(scope@);
    proof {
        lemma_scope_find(sv, name@);
    }
    let mut j: usize = 0;
    while j < scope.len()
        invariant
            j <= scope.len(),
            -1 <= scope_find(sv, name@) < sv.len(),
            scope_find(sv, name@) == -1 <==> forall|x: int| 0 <= x < sv.len() ==> sv[x].0 != name@,
            sv == scope_view(scope@),
            forall|x: int| 0 <= x < j ==> sv[x].0 != name@,
        decreases scope.len() - j,
    {
        if scope[j].0 == *name {
            proof {
                lemma_scope_find(sv, name@);
                let r = scope_find(sv, name@);
                assert(sv[j as int].0 == name@);
                if r > j as int {
                    assert(sv[j as int].0 != name@);
                }
            }
            return Some(j);
        }
        j = j + 1;
    }
    None
}

fn scope_insert_exec(scope: &mut Vec<(String, VariableMeta)>, name: &String, meta: VariableMeta)
    ensures
        scope_view(final(scope)@) == scope_insert(scope_view(old(scope)@), name@, meta@),
{
    let ghost sv = scope_view(scope@);
    let ghost mv = meta@;
    proof {
        lemma_scope_find(sv, name@);
    }
    match index_in_scope(scope, name) {
        Some(j) => {
            scope.set(j, (name.clone(), meta));
            assert(scope_view(scope@) =~= sv.update(j as int, (name@, mv)));
        },
        None => {
            scope.push((name.clone(), meta));
            assert(scope_view(scope@) =~= sv.push((name@, mv)));
        },
    }
}

pub struct OwnershipChecker {
    scopes: Vec<Vec<(String, VariableMeta)>>,
    budget: Ghost<nat>,
}

impl OwnershipChecker {
    /// The scope stack, innermost last.
    pub closed spec fn scopes(&self) -> ScopesV {
        scopes_view(self.scopes@)
    }

    /// How many borrows have been granted so far; every counter is at most this.
    pub closed spec fn borrows_granted(&self) -> nat {
        self.budget@
    }

    pub closed spec fn wf(&self) -> bool {
        &&& self.scopes@.len() >= 1
        &&& bounded(self.scopes(), self.budget@ as int)
    }

    /// A checker with one empty scope.
    pub fn new() -> (r: Self)
        ensures
            r.wf(),
            r.scopes() == seq![Seq::<(Seq<char>, MetaV)>::empty()],
            r.borrows_granted() == 0,
    {
        let mut scopes: Vec<Vec<(String, VariableMeta)>> = Vec::new();
        scopes.push(Vec::new());
        let r = OwnershipChecker { scopes, budget: Ghost(0) };
        assert(scope_view(r.scopes@[0]@) =~= Seq::<(Seq<char>, MetaV)>::empty());
        assert(r.scopes() =~= seq![Seq::<(Seq<char>, MetaV)>::empty()]);
        r
    }

    /// Checks a whole program, statement by statement, stopping at the first error.
    pub fn check(&mut self, ast: &[Node<Statement>]) -> (r: Result<(), String>)
        requires
            old(self).wf(),
            old(self).borrows_granted() + alias_count_seq(stmts_view(ast@), 0) < usize::MAX,
        ensures
            final(self).wf(),
            match r {
                Ok(_) => ck_stmts(old(self).scopes(), stmts_view(ast@), 0) == Ok::<_, Seq<char>>(final(self).scopes()),
                Err(m) => ck_stmts(old(self).scopes(), stmts_view(ast@), 0) == Err::<ScopesV, _>(m@),
            },
    {
        let ghost sv = stmts_view(ast@);
        let ghost b0 = self.budget@;
        let mut i: usize = 0;
        while i < ast.len()
            invariant
                self.wf(),
                i <= ast@.len(),
                sv == stmts_view(ast@),
                b0 == old(self).budget@,
                b0 <= self.budget@,
                self.budget@ + alias_count_seq(sv, i as int) <= b0 + alias_count_seq(sv, 0),
                b0 + alias_count_seq(sv, 0) < usize::MAX,
                ck_stmts(old(self).scopes(), sv, 0) == ck_stmts(self.scopes(), sv, i as int),
            decreases ast.len() - i,
        {
            assert(sv[i as int] == stmt_node_view(ast@[i as int]));
            match self.check_statement(&ast[i]) {
                Ok(_) => {},
                Err(m) => { return Err(m); },
            }
            i = i + 1;
        }
        Ok(())
    }

    fn var_scope_index(&self, name: &String) -> (r: Option<usize>)
        ensures
            match r {
                Some(i) => var_scope(self.scopes(), name@) == i as int,
                None => var_scope(self.scopes(), name@) == -1,
            },
    {
        let ghost sc = self.scopes();
        proof {
            lemma_var_scope(sc, name@);
        }
        let mut i = self.scopes.len();
        while i > 0
            invariant
                i <= self.scopes@.len(),
                sc == self.scopes(),
                forall|j: int| i <= j < sc.len() ==> scope_find(#[trigger] sc[j], name@) < 0,
            decreases i,
        {
            i = i - 1;
            match index_in_scope(&self.scopes[i], name) {
                Some(_) => {
                    proof {
                        lemma_var_scope(sc, name@);
                        assert(sc[i as int] == scope_view(self.scopes@[i as int]@));
                        let vs = var_scope(sc, name@);
                        assert(scope_find(sc[i as int], name@) >= 0);
                        if vs > i as int {
                            assert(scope_find(sc[vs], name@) < 0);
                        }
                    }
                    return Some(i);
                },
                None => {
                    assert(sc[i as int] == scope_view(self.scopes@[i as int]@));
                },
            }
        }
        proof {
            lemma_var_scope(sc, name@);
            let vs = var_scope(sc, name@);
            if vs >= 0 {
                assert(scope_find(sc[vs], name@) < 0);
            }
        }
        None
    }

    fn find_variable(&self, name: &String) -> (r: Option<VariableMeta>)
        ensures
            match r {
                Some(m) => find_var(self.scopes(), name@) == Some(m@),
                None => find_var(self.scopes(), name@) == None::<MetaV>,
            },
    {
        match self.var_scope_index(name) {
            Some(i) => {
                proof {
                    lemma_var_scope(self.scopes(), name@);
                    assert(self.scopes()[i as int] == scope_view(self.scopes@[i as int]@));
                    lemma_scope_find(self.scopes()[i as int], name@);
                }
                match index_in_scope(&self.scopes[i], name) {
                    Some(j) => Some(clone_meta(&self.scopes[i][j].1)),
                    None => None,
                }
            },
            None => None,
        }
    }

    /// Sets the record of `name` in scope `i`.
    fn set_in_scope(&mut self, i: usize, name: &String, meta: VariableMeta)
        requires
            i < old(self).scopes@.len(),
        ensures
            final(self).scopes() == old(self).scopes().update(i as int, scope_insert(old(self).scopes()[i as int], name@, meta@)),
            final(self).budget == old(self).budget,
    {
        let ghost sc = self.scopes();
        let mut scope: Vec<(String, VariableMeta)> = Vec::new();
        std::mem::swap(&mut scope, &mut self.scopes[i]);
        assert(scope_view(scope@) == sc[i as int]);
        scope_insert_exec(&mut scope, name, meta);
        let ghost nv = scope_view(scope@);
        self.scopes.set(i, scope);
        assert(self.scopes() =~= sc.update(i as int, nv));
    }

    fn update_variable(&mut self, name: &String, meta: VariableMeta)
        ensures
            final(self).scopes() == update_var(old(self).scopes(), name@, meta@),
            final(self).budget == old(self).budget,
    {
        proof {
            lemma_var_scope(self.scopes(), name@);
        }
        match self.var_scope_index(name) {
            Some(i) => {
                self.set_in_scope(i, name, meta);
            },
            None => {},
        }
    }

    fn define_variable(&mut self, name: &String, is_alias: bool, source: Option<String>, is_mut: bool)
        requires
            old(self).wf(),
        ensures
            final(self).wf(),
            final(self).budget == old(self).budget,
            final(self).scopes() == define(
                old(self).scopes(),
                name@,
                fresh_meta(is_alias, match source { Some(s) => Some(s@), None => None }, is_mut),
            ),
            final(self).scopes().len() == old(self).scopes().len(),
    {
        let meta = VariableMeta {
            status: OwnershipStatus::Available,
            borrows: BorrowState::Unborrowed,
            is_alias,
            alias_source: source,
            is_mut_alias: is_mut,
        };
        let ghost mv = meta@;
        let last = self.scopes.len() - 1;
        proof {
            lemma_scope_insert_bounded(self.scopes()[last as int], name@, mv, self.budget@ as int);
        }
        self.set_in_scope(last, name, meta);
        proof {
            let sc = self.scopes();
            assert forall|x: int| 0 <= x < sc.len() implies scope_bounded(#[trigger] sc[x], self.budget@ as int) by {
                if x != last {
                    assert(sc[x] == old(self).scopes()[x]);
                }
            }
        }
    }

    fn define_unmanaged(&mut self, name: &String)
        requires
            old(self).wf(),
        ensures
            final(self).wf(),
            final(self).budget == old(self).budget,
            final(self).scopes() == define(old(self).scopes(), name@, unmanaged_meta()),
            final(self).scopes().len() == old(self).scopes().len(),
    {
        let meta = VariableMeta {
            status: OwnershipStatus::Unmanaged,
            borrows: BorrowState::Unborrowed,
            is_alias: false,
            alias_source: None,
            is_mut_alias: false,
        };
        let ghost mv = meta@;
        let last = self.scopes.len() - 1;
        proof {
            lemma_scope_insert_bounded(self.scopes()[last as int], name@, mv, self.budget@ as int);
        }
        self.set_in_scope(last, name, meta);
        proof {
            let sc = self.scopes();
            assert forall|x: int| 0 <= x < sc.len() implies scope_bounded(#[trigger] sc[x], self.budget@ as int) by {
                if x != last {
                    assert(sc[x] == old(self).scopes()[x]);
                }
            }
        }
    }

    fn mark_moved(&mut self, name: &String)
        requires
            old(self).wf(),
        ensures
            final(self).wf(),
            final(self).budget == old(self).budget,
            final(self).scopes() == mark_moved(old(self).scopes(), name@),
            final(self).scopes().len() == old(self).scopes().len(),
    {
        match self.find_variable(name) {
            Some(m) => {
                let moved = VariableMeta { status: OwnershipStatus::Moved, ..m };
                proof {
                    lemma_find_var_bounded(self.scopes(), name@, self.budget@ as int);
                    lemma_update_var_bounded(self.scopes(), name@, moved@, self.budget@ as int);
                }
                self.update_variable(name, moved);
            },
            None => {},
        }
    }

    fn apply_borrow(&mut self, name: &String, is_mut: bool) -> (r: Result<(), String>)
        requires
            old(self).wf(),
            old(self).budget@ + 1 < usize::MAX,
        ensures
            final(self).wf(),
            old(self).budget@ <= final(self).budget@ <= old(self).budget@ + 1,
            final(self).scopes().len() == old(self).scopes().len(),
            match r {
                Ok(_) => apply_borrow(old(self).scopes(), name@, is_mut) == Ok::<_, Seq<char>>(final(self).scopes()),
                Err(e) => apply_borrow(old(self).scopes(), name@, is_mut) == Err::<ScopesV, _>(e@),
            },
    {
        match self.find_variable(name) {
            None => Ok(()),
            Some(m) => {
                if m.status == OwnershipStatus::Unmanaged {
                    return Ok(());
                }
                proof {
                    lemma_find_var_bounded(self.scopes(), name@, self.budget@ as int);
                }
                let b = match (m.borrows, is_mut) {
                    (BorrowState::Unborrowed, false) => BorrowState::Immutable(1),
                    (BorrowState::Unborrowed, true) => BorrowState::Mutable,
                    (BorrowState::Immutable(n), false) => BorrowState::Immutable(n + 1),
                    _ => {
                        let mut msg = string_from("Internal Error: Borrow conflict not caught for '");
                        msg.append(name.as_str());
                        append_str(&mut msg, "'");
                        return Err(msg);
                    },
                };
                let nm = VariableMeta { borrows: b, ..m };
                proof {
                    lemma_bounded_mono(self.scopes(), self.budget@ as int, self.budget@ + 1int);
                    lemma_update_var_bounded(self.scopes(), name@, nm@, self.budget@ + 1int);
                }
                self.update_variable(name, nm);
                self.budget = Ghost(self.budget@ + 1);
                Ok(())
            },
        }
    }

    fn release_borrow(&mut self, name: &String, is_mut: bool)
        requires
            old(self).wf(),
        ensures
            final(self).wf(),
            final(self).budget == old(self).budget,
            final(self).scopes() == release_borrow(old(self).scopes(), name@, is_mut),
            final(self).scopes().len() == old(self).scopes().len(),
    {
        match self.find_variable(name) {
            None => {},
            Some(m) => {
                if m.status == OwnershipStatus::Unmanaged {
                    return;
                }
                proof {
                    lemma_find_var_bounded(self.scopes(), name@, self.budget@ as int);
                }
                let b = match (m.borrows, is_mut) {
                    (BorrowState::Immutable(n), false) => {
                        if n > 1 {
                            BorrowState::Immutable(n - 1)
                        } else if n == 1 {
                            BorrowState::Unborrowed
                        } else {
                            m.borrows
                        }
                    },
                    (BorrowState::Mutable, true) => BorrowState::Unborrowed,
                    (state, _) => state,
                };
                let nm = VariableMeta { borrows: b, ..m };
                proof {
                    lemma_update_var_bounded(self.scopes(), name@, nm@, self.budget@ as int);
                    lemma_update_var_bounded(self.scopes(), name@, nm@, self.budget@ as int);
                }
                self.update_variable(name, nm);
            },
        }
    }

    fn enter_scope(&mut self)
        requires
            old(self).wf(),
        ensures
            final(self).wf(),
            final(self).budget == old(self).budget,
            final(self).scopes() == enter_scope(old(self).scopes()),
    {
        self.scopes.push(Vec::new());
        assert(scope_view(self.scopes@.last()@) =~= Seq::<(Seq<char>, MetaV)>::empty());
        assert(self.scopes() =~= enter_scope(old(self).scopes()));
        proof {
            let sc = self.scopes();
            assert forall|x: int| 0 <= x < sc.len() implies scope_bounded(#[trigger] sc[x], self.budget@ as int) by {
                if x < sc.len() - 1 {
                    assert(sc[x] == old(self).scopes()[x]);
                }
            }
        }
    }

    fn exit_scope(&mut self)
        requires
            old(self).wf(),
            old(self).scopes@.len() >= 2,
        ensures
            final(self).wf(),
            final(self).budget == old(self).budget,
            final(self).scopes() == exit_scope(old(self).scopes()),
            final(self).scopes().len() == old(self).scopes().len() - 1,
    {
        let ghost sc = self.scopes();
        let current_scope = match self.scopes.pop() {
            Some(s) => s,
            None => Vec::new(),
        };
        let ghost entries = scope_view(current_scope@);
        assert(entries == sc.last());
        assert(self.scopes() =~= sc.drop_last());
        let mut i: usize = 0;
        while i < current_scope.len()
            invariant
                self.wf(),
                self.budget == old(self).budget,
                i <= current_scope@.len(),
                self.scopes().len() == sc.len() - 1,
                entries == scope_view(current_scope@),
                release_entries(self.scopes(), entries, i as int) == exit_scope(sc),
            decreases current_scope.len() - i,
        {
            let meta = &current_scope[i].1;
            if meta.is_alias {
                match &meta.alias_source {
                    Some(source) => {
                        self.release_borrow(source, meta.is_mut_alias);
                    },
                    None => {},
                }
            }
            i = i + 1;
        }
    }

    fn merge_scopes(&mut self, then_scope: Vec<(String, VariableMeta)>, else_scope: Vec<(String, VariableMeta)>)
        requires
            old(self).wf(),
        ensures
            final(self).wf(),
            final(self).budget == old(self).budget,
            final(self).scopes() == merge_scopes(old(self).scopes(), scope_view(then_scope@), scope_view(else_scope@)),
            final(self).scopes().len() == old(self).scopes().len(),
    {
        let ghost sc = self.scopes();
        let ghost tv = scope_view(then_scope@);
        let ghost ev = scope_view(else_scope@);
        let last = self.scopes.len() - 1;
        let mut current: Vec<(String, VariableMeta)> = Vec::new();
        std::mem::swap(&mut current, &mut self.scopes[last]);
        let ghost cur = scope_view(current@);
        assert(cur == sc.last());
        let mut j: usize = 0;
        while j < current.len()
            invariant
                j <= current@.len(),
                current@.len() == cur.len(),
                tv == scope_view(then_scope@),
                ev == scope_view(else_scope@),
                forall|x: int| 0 <= x < j ==> #[trigger] scope_view(current@)[x] == merged_entry(cur[x], tv, ev),
                forall|x: int| j <= x < cur.len() ==> #[trigger] scope_view(current@)[x] == cur[x],
            decreases current.len() - j,
        {
            let name = current[j].0.clone();
            proof {
                lemma_scope_find(tv, name@);
                lemma_scope_find(ev, name@);
            }
            let ghost before = scope_view(current@);
            let in_then = index_in_scope(&then_scope, &name);
            let in_else = index_in_scope(&else_scope, &name);
            let moved = match (in_then, in_else) {
                (Some(t), Some(e)) => then_scope[t].1.status == OwnershipStatus::Moved
                    || else_scope[e].1.status == OwnershipStatus::Moved,
                (Some(t), None) => then_scope[t].1.status == OwnershipStatus::Moved,
                _ => false,
            };
            proof {
                assert(before[j as int] == cur[j as int]);
                assert(cur[j as int].0 == name@);
                match in_then {
                    Some(t) => {
                        assert(tv[t as int].1 == then_scope@[t as int].1@);
                        assert(scope_get(tv, name@) == Some(tv[t as int].1));
                    },
                    None => {
                        assert(scope_get(tv, name@) == None::<MetaV>);
                    },
                }
                match in_else {
                    Some(e) => {
                        assert(ev[e as int].1 == else_scope@[e as int].1@);
                        assert(scope_get(ev, name@) == Some(ev[e as int].1));
                    },
                    None => {
                        assert(scope_get(ev, name@) == None::<MetaV>);
                    },
                }
            }
            if moved {
                let m = clone_meta(&current[j].1);
                let nm = VariableMeta { status: OwnershipStatus::Moved, ..m };
                current.set(j, (name, nm));
                assert(scope_view(current@) =~= before.update(j as int, merged_entry(cur[j as int], tv, ev)));
            } else {
                assert(merged_entry(cur[j as int], tv, ev) == cur[j as int]);
            }
            j = j + 1;
        }
        let ghost merged = scope_view(current@);
        assert(merged =~= Seq::new(cur.len(), |x: int| merged_entry(cur[x], tv, ev)));
        self.scopes.set(last, current);
        assert(self.scopes() =~= merge_scopes(sc, tv, ev));
        proof {
            let r = self.scopes();
            assert forall|x: int| 0 <= x < r.len() implies scope_bounded(#[trigger] r[x], self.budget@ as int) by {
                if x == last {
                    assert(scope_bounded(cur, self.budget@ as int));
                    assert forall|y: int| 0 <= y < r[x].len() implies count_le((#[trigger] r[x][y]).1.borrows, self.budget@ as int) by {
                        assert(r[x][y].1.borrows == cur[y].1.borrows);
                    }
                } else {
                    assert(r[x] == sc[x]);
                }
            }
        }
    }

    fn located_msg(span: Span, msg: &str, name: &String) -> (r: String)
        ensures
            r@ == located(span, msg@, name@),
    {
        let mut r = String::new();
        push_char(&mut r, '[');
        append_decimal(&mut r, span.line);
        push_char(&mut r, ':');
        append_decimal(&mut r, span.col);
        push_char(&mut r, ']');
        push_char(&mut r, ' ');
        append_str(&mut r, msg);
        push_char(&mut r, '\'');
        r.append(name.as_str());
        push_char(&mut r, '\'');
        assert(r@ =~= located(span, msg@, name@));
        r
    }

    fn validate_access(&mut self, name: &String, context: AccessContext, span: Span) -> (r: Result<(), String>)
        requires
            old(self).wf(),
        ensures
            final(self).wf(),
            final(self).budget == old(self).budget,
            final(self).scopes().len() == old(self).scopes().len(),
            match r {
                Ok(_) => validate_access(old(self).scopes(), name@, context, span) == Ok::<_, Seq<char>>(final(self).scopes()),
                Err(m) => validate_access(old(self).scopes(), name@, context, span) == Err::<ScopesV, _>(m@),
            },
    {
        let meta = match self.find_variable(name) {
            Some(m) => m,
            None => {
                return Err(Self::located_msg(span, "Undefined variable ", name));
            },
        };
        if meta.status == OwnershipStatus::Moved {
            return Err(Self::located_msg(span, "Use of moved value: ", name));
        }
        if meta.status == OwnershipStatus::Unmanaged {
            return Ok(());
        }
        match context {
            AccessContext::Move => {
                if meta.borrows != BorrowState::Unborrowed {
                    return Err(Self::located_msg(span, "Cannot move borrowed value: ", name));
                }
                self.mark_moved(name);
            },
            AccessContext::MutBorrow => {
                if meta.borrows != BorrowState::Unborrowed {
                    return Err(Self::located_msg(span, "Cannot mut-borrow value with active borrows: ", name));
                }
            },
            AccessContext::ImmBorrow => {
                if meta.borrows == BorrowState::Mutable {
                    return Err(Self::located_msg(span, "Cannot imm-borrow mutably borrowed value: ", name));
                }
            },
            AccessContext::Write => {
                if meta.borrows != BorrowState::Unborrowed {
                    return Err(Self::located_msg(span, "Cannot assign to borrowed value: ", name));
                }
            },
            AccessContext::Read => {},
        }
        Ok(())
    }

    fn check_expression(&mut self, expr_node: &Node<Expression>, context: AccessContext) -> (r: Result<(), String>)
        requires
            old(self).wf(),
        ensures
            final(self).wf(),
            final(self).budget == old(self).budget,
            r is Ok ==> final(self).scopes().len() == old(self).scopes().len(),
            match r {
                Ok(_) => ck_expr(old(self).scopes(), expr_node_view(*expr_node), context) == Ok::<_, Seq<char>>(final(self).scopes()),
                Err(m) => ck_expr(old(self).scopes(), expr_node_view(*expr_node), context) == Err::<ScopesV, _>(m@),
            },
        decreases *expr_node,
    {
        let span = expr_node.span;
        match &expr_node.data {
            Expression::Identifier(name) => self.validate_access(name, context, span),
            Expression::MethodCall { receiver, method, args } => {
                let rctx = if str_is(method, "clone") { AccessContext::Read } else { AccessContext::MutBorrow };
                match self.check_expression(receiver, rctx) {
                    Ok(_) => {},
                    Err(m) => { return Err(m); },
                }
                self.check_args(args)
            },
            Expression::BinaryOp(l, op, r) => {
                if str_is(op, "=") {
                    match self.check_expression(l, AccessContext::Write) {
                        Ok(_) => {},
                        Err(m) => { return Err(m); },
                    }
                    self.check_expression(r, AccessContext::Move)
                } else {
                    match self.check_expression(l, AccessContext::Read) {
                        Ok(_) => {},
                        Err(m) => { return Err(m); },
                    }
                    self.check_expression(r, AccessContext::Read)
                }
            },
            Expression::MemberAccess { receiver, .. } => self.check_expression(receiver, AccessContext::Read),
            Expression::Call(_, args) => self.check_args(args),
            Expression::Assignment(name, val) => {
                match self.check_expression(val, AccessContext::Move) {
                    Ok(_) => {},
                    Err(m) => { return Err(m); },
                }
                self.define_variable(name, false, None, false);
                Ok(())
            },
            _ => Ok(()),
        }
    }

    /// Each argument is moved into the call.
    fn check_args(&mut self, args: &Vec<Node<Expression>>) -> (r: Result<(), String>)
        requires
            old(self).wf(),
        ensures
            final(self).wf(),
            final(self).budget == old(self).budget,
            r is Ok ==> final(self).scopes().len() == old(self).scopes().len(),
            match r {
                Ok(_) => ck_args(old(self).scopes(), exprs_view(args@), 0) == Ok::<_, Seq<char>>(final(self).scopes()),
                Err(m) => ck_args(old(self).scopes(), exprs_view(args@), 0) == Err::<ScopesV, _>(m@),
            },
        decreases args,
    {
        let ghost av = exprs_view(args@);
        let mut i: usize = 0;
        while i < args.len()
            invariant
                self.wf(),
                self.budget == old(self).budget,
                i <= args@.len(),
                av == exprs_view(args@),
                self.scopes().len() == old(self).scopes().len(),
                ck_args(old(self).scopes(), av, 0) == ck_args(self.scopes(), av, i as int),
            decreases args.len() - i,
        {
            assert(av[i as int] == expr_node_view(args@[i as int]));
            match self.check_expression(&args[i], AccessContext::Move) {
                Ok(_) => {},
                Err(m) => { return Err(m); },
            }
            i = i + 1;
        }
        Ok(())
    }

    fn define_params(&mut self, params: &Vec<(String, String)>)
        requires
            old(self).wf(),
        ensures
            final(self).wf(),
            final(self).budget == old(self).budget,
            final(self).scopes().len() == old(self).scopes().len(),
            final(self).scopes() == define_params(old(self).scopes(), params_view(params@), 0),
    {
        let ghost pv = params_view(params@);
        let mut i: usize = 0;
        while i < params.len()
            invariant
                self.wf(),
                self.budget == old(self).budget,
                i <= params@.len(),
                pv == params_view(params@),
                self.scopes().len() == old(self).scopes().len(),
                define_params(old(self).scopes(), pv, 0) == define_params(self.scopes(), pv, i as int),
            decreases params.len() - i,
        {
            assert(pv[i as int].1 == params@[i as int].1@);
            self.define_variable(&params[i].1, false, None, false);
            i = i + 1;
        }
    }

    /// A function of a `bind` block: checked in a scope of its own that defines
    /// `host` and the parameters.
    fn check_bound_fn(&mut self, f: &FunctionDef) -> (r: Result<(), String>)
        requires
            old(self).wf(),
            old(self).budget@ + alias_count_fn(func_view(*f)) < usize::MAX,
        ensures
            final(self).wf(),
            old(self).budget@ <= final(self).budget@ <= old(self).budget@ + alias_count_fn(func_view(*f)),
            r is Ok ==> final(self).scopes().len() == old(self).scopes().len(),
            match r {
                Ok(_) => ck_bound_fn(old(self).scopes(), func_view(*f)) == Ok::<_, Seq<char>>(final(self).scopes()),
                Err(m) => ck_bound_fn(old(self).scopes(), func_view(*f)) == Err::<ScopesV, _>(m@),
            },
        decreases *f, 0int,
    {
        assert(func_view(*f).body == Box::new(stmt_node_view(*f.body)));
        self.enter_scope();
        let host = string_from("host");
        self.define_variable(&host, false, None, false);
        self.define_params(&f.params);
        match self.check_statement(&f.body) {
            Ok(_) => {},
            Err(m) => { return Err(m); },
        }
        self.exit_scope();
        Ok(())
    }

    #[verifier::loop_isolation(false)]
    fn check_statement(&mut self, node: &Node<Statement>) -> (r: Result<(), String>)
        requires
            old(self).wf(),
            old(self).budget@ + alias_count(stmt_node_view(*node)) < usize::MAX,
        ensures
            final(self).wf(),
            old(self).budget@ <= final(self).budget@ <= old(self).budget@ + alias_count(stmt_node_view(*node)),
            r is Ok ==> final(self).scopes().len() == old(self).scopes().len(),
            match r {
                Ok(_) => ck_stmt(old(self).scopes(), stmt_node_view(*node)) == Ok::<_, Seq<char>>(final(self).scopes()),
                Err(m) => ck_stmt(old(self).scopes(), stmt_node_view(*node)) == Err::<ScopesV, _>(m@),
            },
        decreases *node, 1int,
    {
        let span = node.span;
        match &node.data {
            Statement::LetDeclaration(decl) => {
                match &decl.init {
                    Some(init) => {
                        match self.check_expression(init, AccessContext::Move) {
                            Ok(_) => {},
                            Err(m) => { return Err(m); },
                        }
                    },
                    None => {},
                }
                self.define_variable(&decl.name, false, None, false);
                Ok(())
            },
            Statement::UnsafeDeclaration(decl) => {
                match &decl.init {
                    Some(init) => {
                        match self.check_expression(init, AccessContext::Read) {
                            Ok(_) => {},
                            Err(m) => { return Err(m); },
                        }
                    },
                    None => {},
                }
                self.define_unmanaged(&decl.name);
                Ok(())
            },
            Statement::AliasDeclaration(decl) => {
                let context = if decl.is_mut { AccessContext::MutBorrow } else { AccessContext::ImmBorrow };
                match self.validate_access(&decl.source, context, span) {
                    Ok(_) => {},
                    Err(m) => { return Err(m); },
                }
                match self.apply_borrow(&decl.source, decl.is_mut) {
                    Ok(_) => {},
                    Err(m) => { return Err(m); },
                }
                self.define_variable(&decl.name, true, Some(decl.source.clone()), decl.is_mut);
                Ok(())
            },
            Statement::Expression(expr) => self.check_expression(expr, AccessContext::Read),
            Statement::Block(_) => self.check_block(node),
            Statement::If { .. } => self.check_if(node),
            Statement::Return(Some(expr)) => self.check_expression(expr, AccessContext::Move),
            Statement::FunctionDef(func) => {
                assert(stmt_node_view(*node).data == StmtV::FunctionDef(func_view(*func)));
                assert(func_view(*func).body == Box::new(stmt_node_view(*func.body)));
                self.enter_scope();
                self.define_params(&func.params);
                match self.check_statement(&func.body) {
                    Ok(_) => {},
                    Err(m) => { return Err(m); },
                }
                self.exit_scope();
                Ok(())
            },
            Statement::BindBlock(_) => self.check_bind_block(node),
            Statement::ForkBlock(_) => self.check_fork_block(node),
            Statement::Spawn(_, args) => self.check_args(args),
            Statement::While { .. } => self.check_while(node),
            Statement::For { .. } => self.check_for(node),
            _ => Ok(()),
        }
    }

    /// The condition is read, then the body is checked.
    fn check_while(&mut self, node: &Node<Statement>) -> (r: Result<(), String>)
        requires
            old(self).wf(),
            old(self).budget@ + alias_count(stmt_node_view(*node)) < usize::MAX,
            node.data is While,
        ensures
            final(self).wf(),
            old(self).budget@ <= final(self).budget@ <= old(self).budget@ + alias_count(stmt_node_view(*node)),
            r is Ok ==> final(self).scopes().len() == old(self).scopes().len(),
            match r {
                Ok(_) => ck_stmt(old(self).scopes(), stmt_node_view(*node)) == Ok::<_, Seq<char>>(final(self).scopes()),
                Err(m) => ck_stmt(old(self).scopes(), stmt_node_view(*node)) == Err::<ScopesV, _>(m@),
            },
        decreases *node, 0int,
    {
        match &node.data {
            Statement::While { condition, body } => {
                match self.check_expression(condition, AccessContext::Read) {
                    Ok(_) => {},
                    Err(m) => { return Err(m); },
                }
                self.check_statement(body)
            },
            _ => Ok(()),
        }
    }

    /// The head's first clause, the condition, the body and the step, in the order a first
    /// pass through the loop runs them.
    fn check_for(&mut self, node: &Node<Statement>) -> (r: Result<(), String>)
        requires
            old(self).wf(),
            old(self).budget@ + alias_count(stmt_node_view(*node)) < usize::MAX,
            node.data is For,
        ensures
            final(self).wf(),
            old(self).budget@ <= final(self).budget@ <= old(self).budget@ + alias_count(stmt_node_view(*node)),
            r is Ok ==> final(self).scopes().len() == old(self).scopes().len(),
            match r {
                Ok(_) => ck_stmt(old(self).scopes(), stmt_node_view(*node)) == Ok::<_, Seq<char>>(final(self).scopes()),
                Err(m) => ck_stmt(old(self).scopes(), stmt_node_view(*node)) == Err::<ScopesV, _>(m@),
            },
        decreases *node, 0int,
    {
        match &node.data {
            Statement::For { init, condition, step, body } => {
                match init {
                    Some(i) => {
                        match self.check_statement(i) {
                            Ok(_) => {},
                            Err(m) => { return Err(m); },
                        }
                    },
                    None => {},
                }
                match condition {
                    Some(c) => {
                        match self.check_expression(c, AccessContext::Read) {
                            Ok(_) => {},
                            Err(m) => { return Err(m); },
                        }
                    },
                    None => {},
                }
                match self.check_statement(body) {
                    Ok(_) => {},
                    Err(m) => { return Err(m); },
                }
                match step {
                    Some(x) => self.check_expression(x, AccessContext::Read),
                    None => Ok(()),
                }
            },
            _ => Ok(()),
        }
    }

    /// A block is checked in a scope of its own.
    #[verifier::loop_isolation(false)]
    fn check_block(&mut self, node: &Node<Statement>) -> (r: Result<(), String>)
        requires
            old(self).wf(),
            old(self).budget@ + alias_count(stmt_node_view(*node)) < usize::MAX,
            node.data is Block,
        ensures
            final(self).wf(),
            old(self).budget@ <= final(self).budget@ <= old(self).budget@ + alias_count(stmt_node_view(*node)),
            r is Ok ==> final(self).scopes().len() == old(self).scopes().len(),
            match r {
                Ok(_) => ck_stmt(old(self).scopes(), stmt_node_view(*node)) == Ok::<_, Seq<char>>(final(self).scopes()),
                Err(m) => ck_stmt(old(self).scopes(), stmt_node_view(*node)) == Err::<ScopesV, _>(m@),
            },
        decreases *node, 0int,
    {
        match &node.data {
            Statement::Block(stmts) => {
                assert(stmt_view(node.data) == StmtV::Block(stmts_view(stmts@)));
                self.enter_scope();
                let ghost sv = stmts_view(stmts@);
                let ghost sc0 = self.scopes();
                let ghost b0 = self.budget@;
                let mut i: usize = 0;
                while i < stmts.len()
                    invariant
                        self.wf(),
                        i <= stmts@.len(),
                        sv == stmts_view(stmts@),
                        self.scopes().len() == sc0.len(),
                        sc0.len() == old(self).scopes().len() + 1,
                        b0 == old(self).budget@,
                        sv == match stmt_node_view(*node).data { StmtV::Block(s) => s, _ => sv },
                        b0 <= self.budget@,
                        self.budget@ + alias_count_seq(sv, i as int) <= b0 + alias_count_seq(sv, 0),
                        b0 + alias_count_seq(sv, 0) < usize::MAX,
                        ck_stmts(sc0, sv, 0) == ck_stmts(self.scopes(), sv, i as int),
                    decreases stmts.len() - i,
                {
                    assert(sv[i as int] == stmt_node_view(stmts@[i as int]));
                    match self.check_statement(&stmts[i]) {
                        Ok(_) => {},
                        Err(m) => { return Err(m); },
                    }
                    i = i + 1;
                }
                self.exit_scope();
                Ok(())
            },
            _ => Ok(()),
        }
    }

    /// Both branches start from the state after the condition; a variable moved in either is moved after the `if`.
    #[verifier::loop_isolation(false)]
    fn check_if(&mut self, node: &Node<Statement>) -> (r: Result<(), String>)
        requires
            old(self).wf(),
            old(self).budget@ + alias_count(stmt_node_view(*node)) < usize::MAX,
            node.data is If,
        ensures
            final(self).wf(),
            old(self).budget@ <= final(self).budget@ <= old(self).budget@ + alias_count(stmt_node_view(*node)),
            r is Ok ==> final(self).scopes().len() == old(self).scopes().len(),
            match r {
                Ok(_) => ck_stmt(old(self).scopes(), stmt_node_view(*node)) == Ok::<_, Seq<char>>(final(self).scopes()),
                Err(m) => ck_stmt(old(self).scopes(), stmt_node_view(*node)) == Err::<ScopesV, _>(m@),
            },
        decreases *node, 0int,
    {
        match &node.data {
            Statement::If { condition, then_branch, else_branch } => {
                match self.check_expression(condition, AccessContext::Read) {
                    Ok(_) => {},
                    Err(m) => { return Err(m); },
                }
                let last = self.scopes.len() - 1;
                let scope_before = clone_scope(&self.scopes[last]);
                let ghost b0 = self.budget@;
                assert(scope_view(scope_before@) == self.scopes()[last as int]);
                match self.check_statement(then_branch) {
                    Ok(_) => {},
                    Err(m) => { return Err(m); },
                }
                let scope_after_then = clone_scope(&self.scopes[last]);
                proof {
                    assert(scope_bounded(scope_view(scope_before@), b0 as int));
                    lemma_scope_bounded_mono(scope_view(scope_before@), b0 as int, self.budget@ as int);
                    lemma_bounded_set(self.scopes(), last as int, scope_view(scope_before@), self.budget@ as int);
                }
                let ghost sc2 = self.scopes();
                self.scopes.set(last, scope_before);
                assert(self.scopes() =~= sc2.update(last as int, scope_view(scope_before@)));
                match else_branch {
                    Some(eb) => {
                        match self.check_statement(eb) {
                            Ok(_) => {},
                            Err(m) => { return Err(m); },
                        }
                        let scope_after_else = clone_scope(&self.scopes[last]);
                        self.merge_scopes(scope_after_then, scope_after_else);
                    },
                    None => {
                        let current = clone_scope(&self.scopes[last]);
                        self.merge_scopes(scope_after_then, current);
                    },
                }
                Ok(())
            },
            _ => Ok(()),
        }
    }

    /// Each bound function is checked in a scope of its own.
    #[verifier::loop_isolation(false)]
    fn check_bind_block(&mut self, node: &Node<Statement>) -> (r: Result<(), String>)
        requires
            old(self).wf(),
            old(self).budget@ + alias_count(stmt_node_view(*node)) < usize::MAX,
            node.data is BindBlock,
        ensures
            final(self).wf(),
            old(self).budget@ <= final(self).budget@ <= old(self).budget@ + alias_count(stmt_node_view(*node)),
            r is Ok ==> final(self).scopes().len() == old(self).scopes().len(),
            match r {
                Ok(_) => ck_stmt(old(self).scopes(), stmt_node_view(*node)) == Ok::<_, Seq<char>>(final(self).scopes()),
                Err(m) => ck_stmt(old(self).scopes(), stmt_node_view(*node)) == Err::<ScopesV, _>(m@),
            },
        decreases *node, 0int,
    {
        match &node.data {
            Statement::BindBlock(bind) => {
                let ghost fv = funcs_view(bind.functions@);
                assert(stmt_node_view(*node).data == StmtV::BindBlock(crate::ast::BindBlockV { struct_name: bind.struct_name@, functions: fv }));
                let ghost sc0 = self.scopes();
                let ghost b0 = self.budget@;
                let mut i: usize = 0;
                while i < bind.functions.len()
                    invariant
                        self.wf(),
                        i <= bind.functions@.len(),
                        fv == funcs_view(bind.functions@),
                        self.scopes().len() == sc0.len(),
                        sc0 == old(self).scopes(),
                        b0 == old(self).budget@,
                        b0 <= self.budget@,
                        self.budget@ + alias_count_fns(fv, i as int) <= b0 + alias_count_fns(fv, 0),
                        b0 + alias_count_fns(fv, 0) < usize::MAX,
                        ck_bound_fns(sc0, fv, 0) == ck_bound_fns(self.scopes(), fv, i as int),
                    decreases bind.functions.len() - i,
                {
                    assert(fv[i as int] == func_view(bind.functions@[i as int]));
                    match self.check_bound_fn(&bind.functions[i]) {
                        Ok(_) => {},
                        Err(m) => { return Err(m); },
                    }
                    i = i + 1;
                }
                Ok(())
            },
            _ => Ok(()),
        }
    }

    /// The functions a fork adds or patches are checked like bound functions.
    #[verifier::loop_isolation(false)]
    fn check_fork_block(&mut self, node: &Node<Statement>) -> (r: Result<(), String>)
        requires
            old(self).wf(),
            old(self).budget@ + alias_count(stmt_node_view(*node)) < usize::MAX,
            node.data is ForkBlock,
        ensures
            final(self).wf(),
            old(self).budget@ <= final(self).budget@ <= old(self).budget@ + alias_count(stmt_node_view(*node)),
            r is Ok ==> final(self).scopes().len() == old(self).scopes().len(),
            match r {
                Ok(_) => ck_stmt(old(self).scopes(), stmt_node_view(*node)) == Ok::<_, Seq<char>>(final(self).scopes()),
                Err(m) => ck_stmt(old(self).scopes(), stmt_node_view(*node)) == Err::<ScopesV, _>(m@),
            },
        decreases *node, 0int,
    {
        match &node.data {
            Statement::ForkBlock(fork) => {
                let ghost ov = bind_ops_view(fork.bind_ops@);
                assert(stmt_view(node.data) == StmtV::ForkBlock(crate::ast::ForkBlockV {
                    base_name: fork.base_name@,
                    new_name: fork.new_name@,
                    operations: crate::ast::fork_ops_view(fork.operations@),
                    bind_ops: ov,
                }));
                let ghost sc0 = self.scopes();
                let ghost b0 = self.budget@;
                let mut i: usize = 0;
                while i < fork.bind_ops.len()
                    invariant
                        self.wf(),
                        i <= fork.bind_ops@.len(),
                        ov == bind_ops_view(fork.bind_ops@),
                        self.scopes().len() == sc0.len(),
                        sc0 == old(self).scopes(),
                        b0 == old(self).budget@,
                        b0 <= self.budget@,
                        self.budget@ + alias_count_ops(ov, i as int) <= b0 + alias_count_ops(ov, 0),
                        b0 + alias_count_ops(ov, 0) < usize::MAX,
                        ck_bind_ops(sc0, ov, 0) == ck_bind_ops(self.scopes(), ov, i as int),
                    decreases fork.bind_ops.len() - i,
                {
                    assert(ov[i as int] == bind_op_view(fork.bind_ops@[i as int]));
                    match &fork.bind_ops[i] {
                        BindOp::Add(f) => {
                            match self.check_bound_fn(f) {
                                Ok(_) => {},
                                Err(m) => { return Err(m); },
                            }
                        },
                        BindOp::Patch { new_fn_def, .. } => {
                            match self.check_bound_fn(new_fn_def) {
                                Ok(_) => {},
                                Err(m) => { return Err(m); },
                            }
                        },
                        BindOp::Remove(_) => {},
                    }
                    i = i + 1;
                }
                Ok(())
            },
            _ => Ok(()),
        }
    }
}

} // verus!
