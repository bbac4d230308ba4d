//! What the ownership rules promise, proved over the checker's model.
use vstd::prelude::*;
use crate::ast::{Span, NodeV, ExprV, ExprNodeV, StmtV, StmtNodeV, VarDeclV, AliasDeclV};
use crate::checker::{
    ScopeV, ScopesV, MetaV, OwnershipStatus, BorrowState, AccessContext, scope_find, lemma_scope_find,
    scope_get, scope_insert, var_scope, lemma_var_scope, find_var, update_var, define, fresh_meta,
    apply_borrow, release_borrow, borrowed, released, validate_access, located, ck_expr, ck_args,
    ck_stmt, ck_stmts, enter_scope, exit_scope, release_entries, bounded, count_le,
    lemma_find_var_bounded, unmanaged_meta, mark_moved, merge_scopes,
};

verus! {

// ---------------------------------------------------------------------------
// Lookups after the scope operations.
// ---------------------------------------------------------------------------

proof fn lemma_scope_find_is(t: ScopeV, k: Seq<char>, e: int)
    requires
        0 <= e < t.len(),
        t[e].0 == k,
        forall|j: int| 0 <= j < e ==> t[j].0 != k,
    ensures
        scope_find(t, k) == e,
{
    lemma_scope_find(t, k);
    let r = scope_find(t, k);
    if r < e {
        if r == -1 {
            assert(t[e].0 != k);
        } else {
            assert(t[r].0 == k);
        }
    } else if r > e {
        assert(t[e].0 != k);
    }
}

/// Inserting `k` leaves every other name where it was, and `k` with the new record.
proof fn lemma_scope_insert_find(s: ScopeV, k: Seq<char>, m: MetaV, k2: Seq<char>)
    ensures
        k2 != k ==> scope_find(scope_insert(s, k, m), k2) == scope_find(s, k2),
        k2 != k ==> scope_get(scope_insert(s, k, m), k2) == scope_get(s, k2),
        scope_find(scope_insert(s, k, m), k) >= 0,
        scope_find(s, k) >= 0 ==> scope_find(scope_insert(s, k, m), k) == scope_find(s, k),
        scope_get(scope_insert(s, k, m), k) == Some(m),
{
    lemma_scope_find(s, k);
    lemma_scope_find(s, k2);
    let t = scope_insert(s, k, m);
    let i = scope_find(s, k);
    lemma_scope_find(t, k2);
    lemma_scope_find(t, k);
    if i >= 0 {
        lemma_scope_find_is(t, k, i);
    } else {
        assert forall|j: int| 0 <= j < s.len() implies t[j].0 != k by {
            assert(t[j] == s[j]);
        }
        lemma_scope_find_is(t, k, s.len() as int);
    }
    if k2 != k {
        assert forall|j: int| 0 <= j < t.len() && j < s.len() implies t[j].0 == s[j].0 by {}
        let e = scope_find(s, k2);
        if e >= 0 {
            assert forall|j: int| 0 <= j < e implies t[j].0 != k2 by {
                assert(t[j].0 == s[j].0);
            }
            assert(t[e].0 == s[e].0);
            lemma_scope_find_is(t, k2, e);
            assert(e != i);
            assert(t[e] == s[e]);
        } else {
            let r = scope_find(t, k2);
            if r >= 0 {
                if r < s.len() {
                    assert(s[r].0 == t[r].0);
                } else {
                    assert(t[r].0 == k);
                }
            }
        }
    }
}

proof fn lemma_var_scope_is(sc: ScopesV, k: Seq<char>, i: int)
    requires
        0 <= i < sc.len(),
        scope_find(sc[i], k) >= 0,
        forall|j: int| i < j < sc.len() ==> scope_find(#[trigger] sc[j], k) < 0,
    ensures
        var_scope(sc, k) == i,
    decreases sc.len(),
{
    if i < sc.len() - 1 {
        assert(scope_find(sc[sc.len() - 1], k) < 0);
        let d = sc.drop_last();
        assert forall|j: int| i < j < d.len() implies scope_find(#[trigger] d[j], k) < 0 by {
            assert(d[j] == sc[j]);
        }
        assert(d[i] == sc[i]);
        lemma_var_scope_is(d, k, i);
    }
}

proof fn lemma_var_scope_same(a: ScopesV, b: ScopesV, k: Seq<char>)
    requires
        a.len() == b.len(),
        forall|j: int| 0 <= j < a.len() ==> scope_find(#[trigger] a[j], k) == scope_find(b[j], k),
    ensures
        var_scope(a, k) == var_scope(b, k),
    decreases a.len(),
{
    if a.len() > 0 {
        assert(scope_find(a.last(), k) == scope_find(b.last(), k));
        let (da, db) = (a.drop_last(), b.drop_last());
        assert forall|j: int| 0 <= j < da.len() implies scope_find(#[trigger] da[j], k) == scope_find(db[j], k) by {
            assert(da[j] == a[j] && db[j] == b[j]);
        }
        lemma_var_scope_same(da, db, k);
    }
}

/// Replacing the record of a defined variable changes only what a lookup of that name gives.
proof fn lemma_update_find(sc: ScopesV, k: Seq<char>, m: MetaV, k2: Seq<char>)
    requires
        find_var(sc, k) is Some,
    ensures
        find_var(update_var(sc, k, m), k2) == if k2 == k { Some(m) } else { find_var(sc, k2) },
        var_scope(update_var(sc, k, m), k) == var_scope(sc, k),
        update_var(sc, k, m).len() == sc.len(),
{
    lemma_var_scope(sc, k);
    let i = var_scope(sc, k);
    let r = update_var(sc, k, m);
    lemma_scope_insert_find(sc[i], k, m, k2);
    lemma_scope_insert_find(sc[i], k, m, k);
    assert forall|j: int| i < j < r.len() implies scope_find(#[trigger] r[j], k) < 0 by {
        assert(r[j] == sc[j]);
    }
    lemma_var_scope_is(r, k, i);
    if k2 != k {
        assert forall|j: int| 0 <= j < r.len() implies scope_find(#[trigger] r[j], k2) == scope_find(sc[j], k2) by {
            if j != i {
                assert(r[j] == sc[j]);
            }
        }
        lemma_var_scope_same(r, sc, k2);
        lemma_var_scope(sc, k2);
        let v = var_scope(sc, k2);
        if v >= 0 && v != i {
            assert(r[v] == sc[v]);
        }
    }
}

/// A definition is what a lookup of its name gives next; other names are unaffected.
proof fn lemma_define_find(sc: ScopesV, k: Seq<char>, m: MetaV, k2: Seq<char>)
    requires
        sc.len() >= 1,
    ensures
        find_var(define(sc, k, m), k2) == if k2 == k { Some(m) } else { find_var(sc, k2) },
        define(sc, k, m).len() == sc.len(),
{
    let r = define(sc, k, m);
    let last = sc.len() - 1;
    lemma_scope_insert_find(sc[last], k, m, k2);
    if k2 == k {
        lemma_var_scope_is(r, k, last);
    } else {
        assert forall|j: int| 0 <= j < r.len() implies scope_find(#[trigger] r[j], k2) == scope_find(sc[j], k2) by {
            if j != last {
                assert(r[j] == sc[j]);
            }
        }
        lemma_var_scope_same(r, sc, k2);
        lemma_var_scope(sc, k2);
        let v = var_scope(sc, k2);
        if v >= 0 && v != last {
            assert(r[v] == sc[v]);
        }
    }
}

/// Writing back a variable's earlier record undoes an update of it.
proof fn lemma_update_restore(sc: ScopesV, k: Seq<char>, m0: MetaV, m1: MetaV)
    requires
        find_var(sc, k) == Some(m0),
    ensures
        update_var(update_var(sc, k, m1), k, m0) == sc,
{
    lemma_var_scope(sc, k);
    let i = var_scope(sc, k);
    let s = sc[i];
    let e = scope_find(s, k);
    lemma_scope_find(s, k);
    lemma_update_find(sc, k, m1, k);
    let r1 = update_var(sc, k, m1);
    let s1 = scope_insert(s, k, m1);
    lemma_scope_insert_find(s, k, m1, k);
    assert(r1[i] == s1);
    assert(s[e] == (k, m0));
    assert(scope_insert(s1, k, m0) =~= s);
    assert(update_var(r1, k, m0) =~= sc);
}

// ---------------------------------------------------------------------------
// The laws.
// ---------------------------------------------------------------------------

/// A variable that is defined is found, with a fresh record, by the next lookup of its name.
pub proof fn law_define_then_find(sc: ScopesV, name: Seq<char>, is_alias: bool, source: Option<Seq<char>>, is_mut: bool)
    requires
        sc.len() >= 1,
    ensures
        find_var(define(sc, name, fresh_meta(is_alias, source, is_mut)), name)
            == Some(fresh_meta(is_alias, source, is_mut)),
{
    lemma_define_find(sc, name, fresh_meta(is_alias, source, is_mut), name);
}

/// Ending a borrow undoes the borrow that was granted: the scopes are as before it.
pub proof fn law_borrow_then_release(sc: ScopesV, name: Seq<char>, is_mut: bool)
    requires
        bounded(sc, usize::MAX - 1),
        apply_borrow(sc, name, is_mut) is Ok,
    ensures
        release_borrow(apply_borrow(sc, name, is_mut)->Ok_0, name, is_mut) == sc,
{
    match find_var(sc, name) {
        None => {},
        Some(m) => if m.status != OwnershipStatus::Unmanaged {
            lemma_find_var_bounded(sc, name, usize::MAX - 1);
            assert(count_le(m.borrows, usize::MAX - 1));
            let b = borrowed(m.borrows, is_mut)->0;
            let m1 = MetaV { borrows: b, ..m };
            lemma_update_find(sc, name, m1, name);
            match m.borrows {
                BorrowState::Immutable(n) => {
                    assert(!is_mut);
                    assert(b == BorrowState::Immutable((n + 1) as usize));
                    assert((n + 1) as usize == n + 1);
                },
                _ => {},
            }
            assert(released(b, is_mut) == m.borrows);
            assert(MetaV { borrows: released(b, is_mut), ..m1 } == m);
            lemma_update_restore(sc, name, m, m1);
        },
    }
}

/// `let T b = a;` moves `a`: afterwards every use of `a` is refused as a use of a moved value.
pub proof fn law_let_moves_source(
    sc: ScopesV,
    ty: Seq<char>,
    a: Seq<char>,
    b: Seq<char>,
    decl_span: Span,
    init_span: Span,
    use_span: Span,
    ctx: AccessContext,
)
    requires
        sc.len() >= 1,
        a != b,
        find_var(sc, a) matches Some(m) && m.status == OwnershipStatus::Available && m.borrows
            == BorrowState::Unborrowed,
    ensures
        ({
            let decl = VarDeclV {
                ty,
                name: b,
                init: Some(NodeV { data: ExprV::Identifier(a), span: init_span }),
                constructor_call: None,
            };
            let r = ck_stmt(sc, NodeV { data: StmtV::LetDeclaration(decl), span: decl_span });
            &&& r is Ok
            &&& ck_expr(r->Ok_0, NodeV { data: ExprV::Identifier(a), span: use_span }, ctx)
                == Err::<ScopesV, Seq<char>>(located(use_span, "Use of moved value: "@, a))
        }),
{
    let m = find_var(sc, a)->0;
    let mm = MetaV { status: OwnershipStatus::Moved, ..m };
    let sc1 = update_var(sc, a, mm);
    lemma_update_find(sc, a, mm, a);
    let sc2 = define(sc1, b, fresh_meta(false, None, false));
    lemma_define_find(sc1, b, fresh_meta(false, None, false), a);
    assert(find_var(sc2, a) == Some(mm));
}

/// `unsafe T b = a;` only reads `a`: a plain C variable takes no ownership, so `a` keeps its record.
pub proof fn law_unsafe_does_not_move(
    sc: ScopesV,
    ty: Seq<char>,
    a: Seq<char>,
    b: Seq<char>,
    decl_span: Span,
    init_span: Span,
)
    requires
        sc.len() >= 1,
        a != b,
        find_var(sc, a) matches Some(m) && m.status == OwnershipStatus::Available,
    ensures
        ({
            let decl = VarDeclV {
                ty,
                name: b,
                init: Some(NodeV { data: ExprV::Identifier(a), span: init_span }),
                constructor_call: None,
            };
            let r = ck_stmt(sc, NodeV { data: StmtV::UnsafeDeclaration(decl), span: decl_span });
            &&& r is Ok
            &&& find_var(r->Ok_0, a) == find_var(sc, a)
        }),
{
    lemma_define_find(sc, b, unmanaged_meta(), a);
}

/// An `unsafe` variable is a plain C variable: it is found with an unmanaged record, and
/// no access to it, a move, a borrow or a write, is ever refused or changes any record.
pub proof fn law_unsafe_is_unmanaged(sc: ScopesV, ty: Seq<char>, x: Seq<char>, decl_span: Span, ctx: AccessContext, use_span: Span)
    requires
        sc.len() >= 1,
    ensures
        ({
            let decl = VarDeclV { ty, name: x, init: None, constructor_call: None };
            let r = ck_stmt(sc, NodeV { data: StmtV::UnsafeDeclaration(decl), span: decl_span });
            &&& r is Ok
            &&& find_var(r->Ok_0, x) == Some(unmanaged_meta())
            &&& ck_expr(r->Ok_0, NodeV { data: ExprV::Identifier(x), span: use_span }, ctx)
                == Ok::<ScopesV, Seq<char>>(r->Ok_0)
        }),
{
    lemma_define_find(sc, x, unmanaged_meta(), x);
}

/// `x.clone()` reads `x` and leaves it owned: checking it changes nothing.
pub proof fn law_clone_keeps_ownership(sc: ScopesV, x: Seq<char>, recv_span: Span, call_span: Span, ctx: AccessContext)
    requires
        find_var(sc, x) matches Some(m) && m.status == OwnershipStatus::Available,
    ensures
        ck_expr(
            sc,
            NodeV {
                data: ExprV::MethodCall {
                    receiver: Box::new(NodeV { data: ExprV::Identifier(x), span: recv_span }),
                    method: "clone"@,
                    args: Seq::empty(),
                },
                span: call_span,
            },
            ctx,
        ) == Ok::<ScopesV, Seq<char>>(sc),
{
    let recv = NodeV { data: ExprV::Identifier(x), span: recv_span };
    assert(ck_expr(sc, recv, AccessContext::Read) == Ok::<ScopesV, Seq<char>>(sc));
    assert(ck_args(sc, Seq::<ExprNodeV>::empty(), 0) == Ok::<ScopesV, Seq<char>>(sc));
}

/// While an alias of `d` is alive, `d` cannot be moved.
pub proof fn law_alias_blocks_move(
    sc: ScopesV,
    is_mut: bool,
    ty: Seq<char>,
    name: Seq<char>,
    d: Seq<char>,
    decl_span: Span,
    use_span: Span,
)
    requires
        sc.len() >= 1,
        bounded(sc, usize::MAX - 1),
        name != d,
        find_var(sc, d) matches Some(m) && m.status != OwnershipStatus::Unmanaged,
        ck_stmt(
            sc,
            NodeV { data: StmtV::AliasDeclaration(AliasDeclV { is_mut, ty, name, source: d }), span: decl_span },
        ) is Ok,
    ensures
        ({
            let r = ck_stmt(
                sc,
                NodeV { data: StmtV::AliasDeclaration(AliasDeclV { is_mut, ty, name, source: d }), span: decl_span },
            )->Ok_0;
            ck_expr(r, NodeV { data: ExprV::Identifier(d), span: use_span }, AccessContext::Move)
                == Err::<ScopesV, Seq<char>>(located(use_span, "Cannot move borrowed value: "@, d))
        }),
{
    let ctx = if is_mut { AccessContext::MutBorrow } else { AccessContext::ImmBorrow };
    assert(validate_access(sc, d, ctx, decl_span) == Ok::<ScopesV, Seq<char>>(sc));
    let m = find_var(sc, d)->0;
    lemma_find_var_bounded(sc, d, usize::MAX - 1);
    let b = borrowed(m.borrows, is_mut)->0;
    let m1 = MetaV { borrows: b, ..m };
    let sc2 = update_var(sc, d, m1);
    lemma_update_find(sc, d, m1, d);
    let meta = fresh_meta(true, Some(d), is_mut);
    lemma_define_find(sc2, name, meta, d);
}

// ---------------------------------------------------------------------------
// Blocks.
// ---------------------------------------------------------------------------

proof fn lemma_push_empty(sc: ScopesV, k: Seq<char>, m: MetaV)
    ensures
        find_var(enter_scope(sc), k) == find_var(sc, k),
        find_var(sc, k) is Some ==> update_var(enter_scope(sc), k, m) == enter_scope(update_var(sc, k, m)),
{
    let p = enter_scope(sc);
    assert(scope_find(Seq::<(Seq<char>, MetaV)>::empty(), k) == -1);
    assert(p.last() == Seq::<(Seq<char>, MetaV)>::empty());
    assert(p.drop_last() =~= sc);
    assert(var_scope(p, k) == var_scope(sc, k));
    lemma_var_scope(sc, k);
    let i = var_scope(sc, k);
    if i >= 0 {
        assert(p[i] == sc[i]);
        assert(update_var(p, k, m) =~= enter_scope(update_var(sc, k, m)));
    }
}

/// A borrow taken by an alias inside a block ends with the block: a block that only
/// declares an alias leaves the scopes as they were.
pub proof fn law_block_alias_released(
    sc: ScopesV,
    is_mut: bool,
    ty: Seq<char>,
    name: Seq<char>,
    d: Seq<char>,
    decl_span: Span,
    block_span: Span,
)
    requires
        sc.len() >= 1,
        bounded(sc, usize::MAX - 1),
        ck_stmt(
            sc,
            NodeV {
                data: StmtV::Block(
                    seq![NodeV { data: StmtV::AliasDeclaration(AliasDeclV { is_mut, ty, name, source: d }), span: decl_span }],
                ),
                span: block_span,
            },
        ) is Ok,
    ensures
        ck_stmt(
            sc,
            NodeV {
                data: StmtV::Block(
                    seq![NodeV { data: StmtV::AliasDeclaration(AliasDeclV { is_mut, ty, name, source: d }), span: decl_span }],
                ),
                span: block_span,
            },
        ) == Ok::<ScopesV, Seq<char>>(sc),
{
    let alias = NodeV { data: StmtV::AliasDeclaration(AliasDeclV { is_mut, ty, name, source: d }), span: decl_span };
    let stmts = seq![alias];
    let p = enter_scope(sc);
    let ctx = if is_mut { AccessContext::MutBorrow } else { AccessContext::ImmBorrow };
    let m = find_var(sc, d)->0;
    lemma_push_empty(sc, d, m);
    lemma_find_var_bounded(sc, d, usize::MAX - 1);
    assert(find_var(p, d) == Some(m));
    assert(validate_access(p, d, ctx, decl_span) == Ok::<ScopesV, Seq<char>>(p));
    if m.status == OwnershipStatus::Unmanaged {
        let meta = fresh_meta(true, Some(d), is_mut);
        let sc3 = define(p, name, meta);
        assert(ck_stmt(p, alias) == Ok::<ScopesV, Seq<char>>(sc3));
        assert(ck_stmts(sc3, stmts, 1) == Ok::<ScopesV, Seq<char>>(sc3));
        assert(ck_stmts(p, stmts, 0) == Ok::<ScopesV, Seq<char>>(sc3));
        assert(sc3.drop_last() =~= sc);
        assert(sc3.last() =~= seq![(name, meta)]);
        assert(release_entries(release_borrow(sc, d, is_mut), sc3.last(), 1) == release_borrow(sc, d, is_mut));
        assert(exit_scope(sc3) == release_borrow(sc, d, is_mut));
    } else {
        let b = borrowed(m.borrows, is_mut)->0;
        let m1 = MetaV { borrows: b, ..m };
        lemma_push_empty(sc, d, m1);
        let u = update_var(sc, d, m1);
        assert(apply_borrow(p, d, is_mut) == Ok::<ScopesV, Seq<char>>(enter_scope(u)));
        assert(apply_borrow(sc, d, is_mut) == Ok::<ScopesV, Seq<char>>(u));
        let meta = fresh_meta(true, Some(d), is_mut);
        let sc3 = define(enter_scope(u), name, meta);
        assert(ck_stmt(p, alias) == Ok::<ScopesV, Seq<char>>(sc3));
        assert(ck_stmts(sc3, stmts, 1) == Ok::<ScopesV, Seq<char>>(sc3));
        assert(ck_stmts(p, stmts, 0) == Ok::<ScopesV, Seq<char>>(sc3));
        assert(sc3.drop_last() =~= u);
        assert(sc3.last() =~= seq![(name, meta)]);
        assert(release_entries(release_borrow(u, d, is_mut), sc3.last(), 1) == release_borrow(u, d, is_mut));
        assert(exit_scope(sc3) == release_borrow(u, d, is_mut));
        law_borrow_then_release(sc, d, is_mut);
    }
}

// ---------------------------------------------------------------------------
// Programs in parts.
// ---------------------------------------------------------------------------

proof fn lemma_stmts_suffix(sc: ScopesV, a: Seq<StmtNodeV>, b: Seq<StmtNodeV>, j: int)
    requires
        0 <= j <= b.len(),
    ensures
        ck_stmts(sc, a + b, a.len() + j) == ck_stmts(sc, b, j),
    decreases b.len() - j,
{
    if j < b.len() {
        assert((a + b)[a.len() + j] == b[j]);
        match ck_stmt(sc, b[j]) {
            Err(_) => {},
            Ok(sc1) => lemma_stmts_suffix(sc1, a, b, j + 1),
        }
    }
}

proof fn lemma_stmts_prefix(sc: ScopesV, a: Seq<StmtNodeV>, b: Seq<StmtNodeV>, i: int)
    requires
        0 <= i <= a.len(),
    ensures
        ck_stmts(sc, a + b, i) == match ck_stmts(sc, a, i) {
            Err(m) => Err(m),
            Ok(sc1) => ck_stmts(sc1, b, 0),
        },
    decreases a.len() - i,
{
    if i < a.len() {
        assert((a + b)[i] == a[i]);
        match ck_stmt(sc, a[i]) {
            Err(_) => {},
            Ok(sc1) => lemma_stmts_prefix(sc1, a, b, i + 1),
        }
    } else {
        lemma_stmts_suffix(sc, a, b, 0);
    }
}

/// Checking a program in two parts, one after the other and from the scopes the first part
/// left, is checking the whole program: if the first part fails, the whole fails with the same
/// error and the second part is never checked.
pub proof fn law_check_in_parts(sc: ScopesV, a: Seq<StmtNodeV>, b: Seq<StmtNodeV>)
    ensures
        ck_stmts(sc, a + b, 0) == match ck_stmts(sc, a, 0) {
            Err(m) => Err(m),
            Ok(sc1) => ck_stmts(sc1, b, 0),
        },
{
    lemma_stmts_prefix(sc, a, b, 0);
}

// ---------------------------------------------------------------------------
// Single accesses and branches.
// ---------------------------------------------------------------------------

/// An access is refused exactly when the variable is undefined, moved, or managed and borrowed
/// in a way that the access conflicts with; an accepted move marks the variable moved, and every
/// other accepted access changes nothing.
pub proof fn law_access_rules(sc: ScopesV, k: Seq<char>, ctx: AccessContext, span: Span)
    ensures
        validate_access(sc, k, ctx, span) is Err <==> match find_var(sc, k) {
            None => true,
            Some(m) => m.status == OwnershipStatus::Moved || (m.status == OwnershipStatus::Available && (
                ((ctx == AccessContext::Move || ctx == AccessContext::MutBorrow || ctx == AccessContext::Write)
                    && m.borrows != BorrowState::Unborrowed)
                || (ctx == AccessContext::ImmBorrow && m.borrows == BorrowState::Mutable))),
        },
        validate_access(sc, k, ctx, span) matches Ok(r) ==> r == if ctx == AccessContext::Move && find_var(sc, k)->0.status
            == OwnershipStatus::Available {
            mark_moved(sc, k)
        } else {
            sc
        },
{
}

/// After an `if`, each variable of the current scope keeps its name and record, except that it
/// is moved if it was moved before or a branch moved it; no moved variable comes back, and the
/// outer scopes are untouched.
pub proof fn law_merge_only_moves(sc: ScopesV, then_s: ScopeV, else_s: ScopeV)
    requires
        sc.len() >= 1,
    ensures
        merge_scopes(sc, then_s, else_s).len() == sc.len(),
        forall|i: int| 0 <= i < sc.len() - 1 ==> merge_scopes(sc, then_s, else_s)[i] == sc[i],
        merge_scopes(sc, then_s, else_s).last().len() == sc.last().len(),
        forall|j: int| 0 <= j < sc.last().len() ==> {
            let e = #[trigger] sc.last()[j];
            let r = merge_scopes(sc, then_s, else_s).last()[j];
            let moved_in_branch = match scope_get(then_s, e.0) {
                Some(t) => t.status == OwnershipStatus::Moved || (scope_get(else_s, e.0) matches Some(el)
                    && el.status == OwnershipStatus::Moved),
                None => false,
            };
            &&& r.0 == e.0
            &&& r.1.borrows == e.1.borrows
            &&& r.1.is_alias == e.1.is_alias
            &&& r.1.alias_source == e.1.alias_source
            &&& r.1.is_mut_alias == e.1.is_mut_alias
            &&& (r.1.status == OwnershipStatus::Moved <==> (e.1.status == OwnershipStatus::Moved || moved_in_branch))
            &&& (r.1.status != OwnershipStatus::Moved ==> r.1.status == e.1.status)
        },
{
}

/// The names of a scope, in order.
pub open spec fn scope_names(s: ScopeV) -> Seq<Seq<char>> {
    Seq::new(s.len(), |i: int| s[i].0)
}

/// A scope holds each variable name at most once: defining a name keeps that so.
pub proof fn law_scope_names_unique(s: ScopeV, k: Seq<char>, m: MetaV)
    requires
        scope_names(s).no_duplicates(),
    ensures
        scope_names(scope_insert(s, k, m)).no_duplicates(),
{
    lemma_scope_find(s, k);
    let t = scope_insert(s, k, m);
    if scope_find(s, k) >= 0 {
        assert(scope_names(t) =~= scope_names(s));
    } else {
        assert(scope_names(t) =~= scope_names(s).push(k));
    }
}

// ---------------------------------------------------------------------------
// Arguments are moved.
// ---------------------------------------------------------------------------

/// Passing an owned, unborrowed variable `a` to a call `f(a)` moves it into the call: the call
/// is accepted, and afterwards every access to `a` is refused as a use of a moved value.
pub proof fn law_call_moves_argument(
    sc: ScopesV,
    f: Seq<char>,
    a: Seq<char>,
    stmt_span: Span,
    call_span: Span,
    arg_span: Span,
    use_span: Span,
    ctx: AccessContext,
)
    requires
        find_var(sc, a) matches Some(m) && m.status == OwnershipStatus::Available && m.borrows
            == BorrowState::Unborrowed,
    ensures
        ({
            let call = NodeV { data: ExprV::Call(f, seq![NodeV { data: ExprV::Identifier(a), span: arg_span }]), span: call_span };
            let r = ck_stmt(sc, NodeV { data: StmtV::Expression(call), span: stmt_span });
            &&& r is Ok
            &&& ck_expr(r->Ok_0, NodeV { data: ExprV::Identifier(a), span: use_span }, ctx)
                == Err::<ScopesV, Seq<char>>(located(use_span, "Use of moved value: "@, a))
        }),
{
    let arg = NodeV { data: ExprV::Identifier(a), span: arg_span };
    let m = find_var(sc, a)->0;
    let mm = MetaV { status: OwnershipStatus::Moved, ..m };
    let sc1 = update_var(sc, a, mm);
    lemma_update_find(sc, a, mm, a);
    assert(ck_expr(sc, arg, AccessContext::Move) == Ok::<ScopesV, Seq<char>>(sc1));
    assert(ck_args(sc1, seq![arg], 1) == Ok::<ScopesV, Seq<char>>(sc1));
    assert(ck_args(sc, seq![arg], 0) == Ok::<ScopesV, Seq<char>>(sc1));
}

/// `spawn f(a)` hands an owned, unborrowed `a` to the new thread: afterwards every access to `a`
/// is refused as a use of a moved value.
pub proof fn law_spawn_moves_argument(
    sc: ScopesV,
    f: Seq<char>,
    a: Seq<char>,
    stmt_span: Span,
    arg_span: Span,
    use_span: Span,
    ctx: AccessContext,
)
    requires
        find_var(sc, a) matches Some(m) && m.status == OwnershipStatus::Available && m.borrows
            == BorrowState::Unborrowed,
    ensures
        ({
            let r = ck_stmt(
                sc,
                NodeV { data: StmtV::Spawn(f, seq![NodeV { data: ExprV::Identifier(a), span: arg_span }]), span: stmt_span },
            );
            &&& r is Ok
            &&& ck_expr(r->Ok_0, NodeV { data: ExprV::Identifier(a), span: use_span }, ctx)
                == Err::<ScopesV, Seq<char>>(located(use_span, "Use of moved value: "@, a))
        }),
{
    let arg = NodeV { data: ExprV::Identifier(a), span: arg_span };
    let m = find_var(sc, a)->0;
    let mm = MetaV { status: OwnershipStatus::Moved, ..m };
    let sc1 = update_var(sc, a, mm);
    lemma_update_find(sc, a, mm, a);
    assert(ck_expr(sc, arg, AccessContext::Move) == Ok::<ScopesV, Seq<char>>(sc1));
    assert(ck_args(sc1, seq![arg], 1) == Ok::<ScopesV, Seq<char>>(sc1));
    assert(ck_args(sc, seq![arg], 0) == Ok::<ScopesV, Seq<char>>(sc1));
}

/// A method call `x.g(a)` on an owned, unborrowed `x` moves its argument `a` (another owned,
/// unborrowed variable) and leaves `x` usable: afterwards `a` is refused as moved, and `x` can
/// still be moved.
pub proof fn law_method_moves_argument(
    sc: ScopesV,
    x: Seq<char>,
    g: Seq<char>,
    a: Seq<char>,
    stmt_span: Span,
    call_span: Span,
    recv_span: Span,
    arg_span: Span,
    use_span: Span,
    ctx: AccessContext,
)
    requires
        x != a,
        find_var(sc, a) matches Some(m) && m.status == OwnershipStatus::Available && m.borrows
            == BorrowState::Unborrowed,
        find_var(sc, x) matches Some(m) && m.status == OwnershipStatus::Available && m.borrows
            == BorrowState::Unborrowed,
    ensures
        ({
            let call = NodeV {
                data: ExprV::MethodCall {
                    receiver: Box::new(NodeV { data: ExprV::Identifier(x), span: recv_span }),
                    method: g,
                    args: seq![NodeV { data: ExprV::Identifier(a), span: arg_span }],
                },
                span: call_span,
            };
            let r = ck_stmt(sc, NodeV { data: StmtV::Expression(call), span: stmt_span });
            &&& r is Ok
            &&& ck_expr(r->Ok_0, NodeV { data: ExprV::Identifier(a), span: use_span }, ctx)
                == Err::<ScopesV, Seq<char>>(located(use_span, "Use of moved value: "@, a))
            &&& ck_expr(r->Ok_0, NodeV { data: ExprV::Identifier(x), span: use_span }, AccessContext::Move) is Ok
        }),
{
    let arg = NodeV { data: ExprV::Identifier(a), span: arg_span };
    let recv = NodeV { data: ExprV::Identifier(x), span: recv_span };
    let rctx = if g == "clone"@ { AccessContext::Read } else { AccessContext::MutBorrow };
    assert(ck_expr(sc, recv, rctx) == Ok::<ScopesV, Seq<char>>(sc));
    let m = find_var(sc, a)->0;
    let mm = MetaV { status: OwnershipStatus::Moved, ..m };
    let sc1 = update_var(sc, a, mm);
    lemma_update_find(sc, a, mm, a);
    lemma_update_find(sc, a, mm, x);
    assert(ck_expr(sc, arg, AccessContext::Move) == Ok::<ScopesV, Seq<char>>(sc1));
    assert(ck_args(sc1, seq![arg], 1) == Ok::<ScopesV, Seq<char>>(sc1));
    assert(ck_args(sc, seq![arg], 0) == Ok::<ScopesV, Seq<char>>(sc1));
}

/// An assignment `x = a` of an owned, unborrowed `a` to an owned, unborrowed `x` moves `a`:
/// it is accepted, and afterwards every access to `a` is refused as a use of a moved value.
pub proof fn law_assignment_moves_source(
    sc: ScopesV,
    x: Seq<char>,
    a: Seq<char>,
    stmt_span: Span,
    x_span: Span,
    a_span: Span,
    use_span: Span,
    ctx: AccessContext,
)
    requires
        x != a,
        find_var(sc, a) matches Some(m) && m.status == OwnershipStatus::Available && m.borrows
            == BorrowState::Unborrowed,
        find_var(sc, x) matches Some(m) && m.status == OwnershipStatus::Available && m.borrows
            == BorrowState::Unborrowed,
    ensures
        ({
            let e = NodeV {
                data: ExprV::BinaryOp(
                    Box::new(NodeV { data: ExprV::Identifier(x), span: x_span }),
                    "="@,
                    Box::new(NodeV { data: ExprV::Identifier(a), span: a_span }),
                ),
                span: x_span,
            };
            let r = ck_stmt(sc, NodeV { data: StmtV::Expression(e), span: stmt_span });
            &&& r is Ok
            &&& ck_expr(r->Ok_0, NodeV { data: ExprV::Identifier(a), span: use_span }, ctx)
                == Err::<ScopesV, Seq<char>>(located(use_span, "Use of moved value: "@, a))
        }),
{
    let m = find_var(sc, a)->0;
    let mm = MetaV { status: OwnershipStatus::Moved, ..m };
    lemma_update_find(sc, a, mm, a);
    assert(ck_expr(sc, NodeV { data: ExprV::Identifier(x), span: x_span }, AccessContext::Write) == Ok::<ScopesV, Seq<char>>(sc));
    let sc1 = update_var(sc, a, mm);
    assert(ck_expr(sc, NodeV { data: ExprV::Identifier(a), span: a_span }, AccessContext::Move) == Ok::<ScopesV, Seq<char>>(sc1));
    let e = NodeV {
        data: ExprV::BinaryOp(
            Box::new(NodeV { data: ExprV::Identifier(x), span: x_span }),
            "="@,
            Box::new(NodeV { data: ExprV::Identifier(a), span: a_span }),
        ),
        span: x_span,
    };
    assert(ck_expr(sc, e, AccessContext::Read) == Ok::<ScopesV, Seq<char>>(sc1));
}

} // verus!
