//! Validation from a later start of the name counter gives the same
//! translation unit with every minted name advanced, or the same error.

use vstd::prelude::*;
use crate::error::ErrorView;
use crate::name_generator::{next_counter, numbered};
use crate::renaming::{
    advance, lemma_advance_next, shifted, opt_shifted, names_shifted, expr_shifted, exprs_shifted,
    opt_expr_shifted, var_decl_shifted, for_init_shifted, stmt_shifted, item_shifted,
    items_shifted, func_shifted, funcs_shifted, program_shifted,
};
use crate::parser::ast::{
    ExprView, StmtView, BlockItemView, DeclView, VarDeclView, ForInitView, FuncDeclView,
    ProgramView,
};
use crate::validator::scopes::{
    Scope, Linkage, IdentifierInfoView, enter_scope, bind_function, resolve_expr, resolve_exprs,
    resolve_opt_expr, declare_local, resolve_var_decl, resolve_for_init, resolve_params,
    resolve_stmt, resolve_item, resolve_items, resolve_func_decl, resolve_funcs, resolve,
};
use crate::validator::labels::{label_stmt, label_item, label_items, label_func, label_funcs, label};

verus! {

/// Two scopes know the same names, and give them shifted unique names.
pub open spec fn scope_shifted(m1: Scope, m2: Scope, k: nat) -> bool {
    &&& forall|key: Seq<char>| m1.contains_key(key) <==> m2.contains_key(key)
    &&& forall|key: Seq<char>| #[trigger]
        m1.contains_key(key) ==> {
            &&& shifted(m1[key].unique_name, m2[key].unique_name, k)
            &&& m1[key].from_current_scope == m2[key].from_current_scope
            &&& m1[key].linkage == m2[key].linkage
        }
}

/// Two outcomes without a counter are the same error, or results that `rel`
/// relates.
pub open spec fn alike<T>(
    r1: Result<T, ErrorView>,
    r2: Result<T, ErrorView>,
    rel: spec_fn(T, T) -> bool,
) -> bool {
    match (r1, r2) {
        (Ok(x1), Ok(x2)) => rel(x1, x2),
        (Err(e1), Err(e2)) => e1 == e2,
        _ => false,
    }
}

/// Two outcomes are the same error, or results that `rel` relates, with
/// counters that are `k` apart.
pub open spec fn counted_alike<T>(
    r1: Result<(T, usize), ErrorView>,
    r2: Result<(T, usize), ErrorView>,
    rel: spec_fn(T, T) -> bool,
    k: nat,
) -> bool {
    match (r1, r2) {
        (Ok((x1, d1)), Ok((x2, d2))) => rel(x1, x2) && d2 == advance(d1, k),
        (Err(e1), Err(e2)) => e1 == e2,
        _ => false,
    }
}

/// Two outcomes are the same error, or results that `rel` relates, with
/// shifted scopes and counters that are `k` apart.
pub open spec fn scoped_alike<T>(
    r1: Result<(T, Scope, usize), ErrorView>,
    r2: Result<(T, Scope, usize), ErrorView>,
    rel: spec_fn(T, T) -> bool,
    k: nat,
) -> bool {
    match (r1, r2) {
        (Ok((x1, m1, d1)), Ok((x2, m2, d2))) => rel(x1, x2) && scope_shifted(m1, m2, k) && d2
            == advance(d1, k),
        (Err(e1), Err(e2)) => e1 == e2,
        _ => false,
    }
}

/// Entering a block keeps two scopes shifted.
pub proof fn lemma_enter_scope_shifted(m1: Scope, m2: Scope, k: nat)
    requires
        scope_shifted(m1, m2, k),
    ensures
        scope_shifted(enter_scope(m1), enter_scope(m2), k),
{
    assert forall|key: Seq<char>| #[trigger] enter_scope(m1).contains_key(key) implies {
        &&& shifted(enter_scope(m1)[key].unique_name, enter_scope(m2)[key].unique_name, k)
        &&& enter_scope(m1)[key].from_current_scope == enter_scope(m2)[key].from_current_scope
        &&& enter_scope(m1)[key].linkage == enter_scope(m2)[key].linkage
    } by {
        assert(m1.contains_key(key));
    }
}

/// One more binding with shifted unique names keeps two scopes shifted.
pub proof fn lemma_insert_shifted(
    m1: Scope,
    m2: Scope,
    name: Seq<char>,
    i1: IdentifierInfoView,
    i2: IdentifierInfoView,
    k: nat,
)
    requires
        scope_shifted(m1, m2, k),
        shifted(i1.unique_name, i2.unique_name, k),
        i1.from_current_scope == i2.from_current_scope,
        i1.linkage == i2.linkage,
    ensures
        scope_shifted(m1.insert(name, i1), m2.insert(name, i2), k),
{
    let n1 = m1.insert(name, i1);
    let n2 = m2.insert(name, i2);
    assert forall|key: Seq<char>| n1.contains_key(key) <==> n2.contains_key(key) by {
        if key != name {
            assert(m1.contains_key(key) <==> m2.contains_key(key));
        }
    }
    assert forall|key: Seq<char>| #[trigger] n1.contains_key(key) implies {
        &&& shifted(n1[key].unique_name, n2[key].unique_name, k)
        &&& n1[key].from_current_scope == n2[key].from_current_scope
        &&& n1[key].linkage == n2[key].linkage
    } by {
        if key != name {
            assert(m1.contains_key(key));
        }
    }
}

/// An expression resolves in two shifted scopes to two shifted expressions,
/// or to the same error.
pub proof fn lemma_resolve_expr_shifted(e: ExprView, m1: Scope, m2: Scope, k: nat)
    requires
        scope_shifted(m1, m2, k),
    ensures
        alike(
            resolve_expr(e, m1),
            resolve_expr(e, m2),
            |a: ExprView, b: ExprView| expr_shifted(a, b, k),
        ),
    decreases e,
{
    reveal(resolve_expr);
    reveal(resolve_exprs);
    match e {
        ExprView::Integer(_) => {},
        ExprView::Var(name, _) => {
            assert(m1.contains_key(name) <==> m2.contains_key(name));
        },
        ExprView::UnaryOp(_, x) => {
            lemma_resolve_expr_shifted(*x, m1, m2, k);
        },
        ExprView::BinaryOp(_, l, r) => {
            lemma_resolve_expr_shifted(*l, m1, m2, k);
            lemma_resolve_expr_shifted(*r, m1, m2, k);
        },
        ExprView::Assignment(l, r, _) => {
            lemma_resolve_expr_shifted(*l, m1, m2, k);
            lemma_resolve_expr_shifted(*r, m1, m2, k);
        },
        ExprView::Conditional(c, t, f) => {
            lemma_resolve_expr_shifted(*c, m1, m2, k);
            lemma_resolve_expr_shifted(*t, m1, m2, k);
            lemma_resolve_expr_shifted(*f, m1, m2, k);
        },
        ExprView::FunctionCall(name, args, _) => {
            assert(m1.contains_key(name) <==> m2.contains_key(name));
            lemma_resolve_exprs_shifted(args, m1, m2, k);
        },
    }
}

/// A list of expressions resolves in two shifted scopes to two shifted
/// lists, or to the same error.
pub proof fn lemma_resolve_exprs_shifted(es: Seq<ExprView>, m1: Scope, m2: Scope, k: nat)
    requires
        scope_shifted(m1, m2, k),
    ensures
        alike(
            resolve_exprs(es, m1),
            resolve_exprs(es, m2),
            |a: Seq<ExprView>, b: Seq<ExprView>| exprs_shifted(a, b, k),
        ),
    decreases es,
{
    reveal(resolve_expr);
    reveal(resolve_exprs);
    if es.len() > 0 {
        lemma_resolve_exprs_shifted(es.drop_last(), m1, m2, k);
        lemma_resolve_expr_shifted(es.last(), m1, m2, k);
        match (resolve_exprs(es.drop_last(), m1), resolve_exprs(es.drop_last(), m2)) {
            (Ok(d1), Ok(d2)) => {
                match (resolve_expr(es.last(), m1), resolve_expr(es.last(), m2)) {
                    (Ok(x1), Ok(x2)) => {
                        assert forall|i: int| 0 <= i < d1.push(x1).len() implies expr_shifted(
                            #[trigger] d1.push(x1)[i],
                            d2.push(x2)[i],
                            k,
                        ) by {
                            if i < d1.len() {
                                assert(expr_shifted(d1[i], d2[i], k));
                            }
                        }
                    },
                    _ => {},
                }
            },
            _ => {},
        }
    }
}

/// An optional expression resolves in two shifted scopes to two shifted
/// expressions, or to the same error.
pub proof fn lemma_resolve_opt_expr_shifted(e: Option<ExprView>, m1: Scope, m2: Scope, k: nat)
    requires
        scope_shifted(m1, m2, k),
    ensures
        alike(
            resolve_opt_expr(e, m1),
            resolve_opt_expr(e, m2),
            |a: Option<ExprView>, b: Option<ExprView>| opt_expr_shifted(a, b, k),
        ),
{
    match e {
        Some(x) => {
            lemma_resolve_expr_shifted(x, m1, m2, k);
        },
        None => {},
    }
}

/// A local is declared in two shifted scopes under two shifted names.
pub proof fn lemma_declare_local_shifted(
    name: Seq<char>,
    line: usize,
    m1: Scope,
    m2: Scope,
    c1: usize,
    c2: usize,
    k: nat,
)
    requires
        scope_shifted(m1, m2, k),
        c2 == advance(c1, k),
    ensures
        scoped_alike(
            declare_local(name, line, m1, c1),
            declare_local(name, line, m2, c2),
            |a: Seq<char>, b: Seq<char>| shifted(a, b, k),
            k,
        ),
{
    assert(m1.contains_key(name) <==> m2.contains_key(name));
    lemma_advance_next(c1, k);
    let u1 = numbered(name, c1);
    let u2 = numbered(name, c2);
    assert(shifted(u1, u2, k));
    lemma_insert_shifted(
        m1,
        m2,
        name,
        IdentifierInfoView {
            unique_name: u1,
            from_current_scope: true,
            linkage: Linkage::NoLinkage,
        },
        IdentifierInfoView {
            unique_name: u2,
            from_current_scope: true,
            linkage: Linkage::NoLinkage,
        },
        k,
    );
}

/// A variable declaration resolves in two shifted scopes to two shifted
/// declarations, or to the same error.
pub proof fn lemma_resolve_var_decl_shifted(
    d: VarDeclView,
    m1: Scope,
    m2: Scope,
    c1: usize,
    c2: usize,
    k: nat,
)
    requires
        scope_shifted(m1, m2, k),
        c2 == advance(c1, k),
    ensures
        scoped_alike(
            resolve_var_decl(d, m1, c1),
            resolve_var_decl(d, m2, c2),
            |a: VarDeclView, b: VarDeclView| var_decl_shifted(a, b, k),
            k,
        ),
{
    lemma_declare_local_shifted(d.name, d.line, m1, m2, c1, c2, k);
    match (declare_local(d.name, d.line, m1, c1), declare_local(d.name, d.line, m2, c2)) {
        (Ok((_, n1, _)), Ok((_, n2, _))) => {
            lemma_resolve_opt_expr_shifted(d.init, n1, n2, k);
        },
        _ => {},
    }
}

/// The first clause of a `for` header resolves in two shifted scopes to two
/// shifted clauses, or to the same error.
pub proof fn lemma_resolve_for_init_shifted(
    init: Option<ForInitView>,
    m1: Scope,
    m2: Scope,
    c1: usize,
    c2: usize,
    k: nat,
)
    requires
        scope_shifted(m1, m2, k),
        c2 == advance(c1, k),
    ensures
        scoped_alike(
            resolve_for_init(init, m1, c1),
            resolve_for_init(init, m2, c2),
            |a: Option<ForInitView>, b: Option<ForInitView>| for_init_shifted(a, b, k),
            k,
        ),
{
    match init {
        Some(ForInitView::Expr(e)) => {
            lemma_resolve_expr_shifted(e, m1, m2, k);
        },
        Some(ForInitView::Decl(d)) => {
            lemma_resolve_var_decl_shifted(d, m1, m2, c1, c2, k);
        },
        None => {},
    }
}

/// The parameters of a function are declared in two shifted scopes under
/// shifted names, or with the same error.
pub proof fn lemma_resolve_params_shifted(
    params: Seq<Seq<char>>,
    line: usize,
    m1: Scope,
    m2: Scope,
    c1: usize,
    c2: usize,
    k: nat,
)
    requires
        scope_shifted(m1, m2, k),
        c2 == advance(c1, k),
    ensures
        scoped_alike(
            resolve_params(params, line, m1, c1),
            resolve_params(params, line, m2, c2),
            |a: Seq<Seq<char>>, b: Seq<Seq<char>>| names_shifted(a, b, k),
            k,
        ),
    decreases params.len(),
{
    reveal(resolve_params);
    if params.len() > 0 {
        lemma_resolve_params_shifted(params.drop_last(), line, m1, m2, c1, c2, k);
        match (
            resolve_params(params.drop_last(), line, m1, c1),
            resolve_params(params.drop_last(), line, m2, c2),
        ) {
            (Ok((d1, n1, e1)), Ok((d2, n2, e2))) => {
                lemma_declare_local_shifted(params.last(), line, n1, n2, e1, e2, k);
                match (
                    declare_local(params.last(), line, n1, e1),
                    declare_local(params.last(), line, n2, e2),
                ) {
                    (Ok((u1, _, _)), Ok((u2, _, _))) => {
                        assert forall|i: int| 0 <= i < d1.push(u1).len() implies shifted(
                            #[trigger] d1.push(u1)[i],
                            d2.push(u2)[i],
                            k,
                        ) by {
                            if i < d1.len() {
                                assert(shifted(d1[i], d2[i], k));
                            }
                        }
                    },
                    _ => {},
                }
            },
            _ => {},
        }
    }
}

/// A statement resolves in two shifted scopes to two shifted statements, or
/// to the same error.
pub proof fn lemma_resolve_stmt_shifted(
    s: StmtView,
    m1: Scope,
    m2: Scope,
    c1: usize,
    c2: usize,
    k: nat,
)
    requires
        scope_shifted(m1, m2, k),
        c2 == advance(c1, k),
    ensures
        counted_alike(
            resolve_stmt(s, m1, c1),
            resolve_stmt(s, m2, c2),
            |a: StmtView, b: StmtView| stmt_shifted(a, b, k),
            k,
        ),
    decreases s,
{
    reveal(resolve_stmt);
    reveal(resolve_item);
    reveal(resolve_items);
    reveal(resolve_func_decl);
    match s {
        StmtView::Return(e) => {
            lemma_resolve_expr_shifted(e, m1, m2, k);
        },
        StmtView::Expression(e) => {
            lemma_resolve_expr_shifted(e, m1, m2, k);
        },
        StmtView::Null => {},
        StmtView::If(cond, t, e) => {
            lemma_resolve_expr_shifted(cond, m1, m2, k);
            match e {
                Some(e) => {
                    lemma_resolve_stmt_shifted(*e, m1, m2, c1, c2, k);
                    match (resolve_stmt(*e, m1, c1), resolve_stmt(*e, m2, c2)) {
                        (Ok((_, d1)), Ok((_, d2))) => {
                            lemma_resolve_stmt_shifted(*t, m1, m2, d1, d2, k);
                        },
                        _ => {},
                    }
                },
                None => {
                    lemma_resolve_stmt_shifted(*t, m1, m2, c1, c2, k);
                },
            }
        },
        StmtView::Compound(b) => {
            lemma_enter_scope_shifted(m1, m2, k);
            lemma_resolve_items_shifted(b.items, enter_scope(m1), enter_scope(m2), c1, c2, k);
        },
        StmtView::Break(_, _) => {},
        StmtView::Continue(_, _) => {},
        StmtView::While(cond, body, _) => {
            lemma_resolve_expr_shifted(cond, m1, m2, k);
            lemma_resolve_stmt_shifted(*body, m1, m2, c1, c2, k);
        },
        StmtView::DoWhile(body, cond, _) => {
            lemma_resolve_expr_shifted(cond, m1, m2, k);
            lemma_resolve_stmt_shifted(*body, m1, m2, c1, c2, k);
        },
        StmtView::For(init, cond, post, body, _) => {
            lemma_enter_scope_shifted(m1, m2, k);
            lemma_resolve_for_init_shifted(init, enter_scope(m1), enter_scope(m2), c1, c2, k);
            match (
                resolve_for_init(init, enter_scope(m1), c1),
                resolve_for_init(init, enter_scope(m2), c2),
            ) {
                (Ok((_, n1, d1)), Ok((_, n2, d2))) => {
                    lemma_resolve_opt_expr_shifted(cond, n1, n2, k);
                    lemma_resolve_opt_expr_shifted(post, n1, n2, k);
                    lemma_resolve_stmt_shifted(*body, n1, n2, d1, d2, k);
                },
                _ => {},
            }
        },
    }
}

/// A block item resolves in two shifted scopes to two shifted items, or to
/// the same error.
pub proof fn lemma_resolve_item_shifted(
    item: BlockItemView,
    m1: Scope,
    m2: Scope,
    c1: usize,
    c2: usize,
    k: nat,
)
    requires
        scope_shifted(m1, m2, k),
        c2 == advance(c1, k),
    ensures
        scoped_alike(
            resolve_item(item, m1, c1),
            resolve_item(item, m2, c2),
            |a: BlockItemView, b: BlockItemView| item_shifted(a, b, k),
            k,
        ),
    decreases item,
{
    reveal(resolve_stmt);
    reveal(resolve_item);
    reveal(resolve_items);
    reveal(resolve_func_decl);
    match item {
        BlockItemView::Stmt(s) => {
            lemma_resolve_stmt_shifted(s, m1, m2, c1, c2, k);
        },
        BlockItemView::Decl(DeclView::VarDecl(d)) => {
            lemma_resolve_var_decl_shifted(d, m1, m2, c1, c2, k);
        },
        BlockItemView::Decl(DeclView::FuncDecl(f)) => {
            lemma_resolve_func_decl_shifted(f, m1, m2, c1, c2, k);
        },
    }
}

/// The items of a block resolve in two shifted scopes to two shifted lists,
/// or to the same error.
pub proof fn lemma_resolve_items_shifted(
    items: Seq<BlockItemView>,
    m1: Scope,
    m2: Scope,
    c1: usize,
    c2: usize,
    k: nat,
)
    requires
        scope_shifted(m1, m2, k),
        c2 == advance(c1, k),
    ensures
        scoped_alike(
            resolve_items(items, m1, c1),
            resolve_items(items, m2, c2),
            |a: Seq<BlockItemView>, b: Seq<BlockItemView>| items_shifted(a, b, k),
            k,
        ),
    decreases items,
{
    reveal(resolve_stmt);
    reveal(resolve_item);
    reveal(resolve_items);
    reveal(resolve_func_decl);
    if items.len() > 0 {
        lemma_resolve_items_shifted(items.drop_last(), m1, m2, c1, c2, k);
        match (resolve_items(items.drop_last(), m1, c1), resolve_items(items.drop_last(), m2, c2)) {
            (Ok((d1, n1, e1)), Ok((d2, n2, e2))) => {
                lemma_resolve_item_shifted(items.last(), n1, n2, e1, e2, k);
                match (resolve_item(items.last(), n1, e1), resolve_item(items.last(), n2, e2)) {
                    (Ok((x1, _, _)), Ok((x2, _, _))) => {
                        assert forall|i: int| 0 <= i < d1.push(x1).len() implies item_shifted(
                            #[trigger] d1.push(x1)[i],
                            d2.push(x2)[i],
                            k,
                        ) by {
                            if i < d1.len() {
                                assert(item_shifted(d1[i], d2[i], k));
                            }
                        }
                    },
                    _ => {},
                }
            },
            _ => {},
        }
    }
}

/// Names that are the same are shifted, each by each.
pub proof fn lemma_names_shifted_same(names: Seq<Seq<char>>, k: nat)
    ensures
        names_shifted(names, names, k),
{
}

/// A function declaration resolves in two shifted scopes to two shifted
/// declarations, or to the same error.
pub proof fn lemma_resolve_func_decl_shifted(
    f: FuncDeclView,
    m1: Scope,
    m2: Scope,
    c1: usize,
    c2: usize,
    k: nat,
)
    requires
        scope_shifted(m1, m2, k),
        c2 == advance(c1, k),
    ensures
        scoped_alike(
            resolve_func_decl(f, m1, c1),
            resolve_func_decl(f, m2, c2),
            |a: FuncDeclView, b: FuncDeclView| func_shifted(a, b, k),
            k,
        ),
    decreases f,
{
    reveal(resolve_stmt);
    reveal(resolve_item);
    reveal(resolve_items);
    reveal(resolve_func_decl);
    assert(m1.contains_key(f.name) <==> m2.contains_key(f.name));
    let info = IdentifierInfoView {
        unique_name: f.name,
        from_current_scope: true,
        linkage: Linkage::External,
    };
    lemma_insert_shifted(m1, m2, f.name, info, info, k);
    let n1 = bind_function(m1, f.name);
    let n2 = bind_function(m2, f.name);
    lemma_names_shifted_same(f.params, k);
    match f.body {
        None => {},
        Some(b) => {
            lemma_enter_scope_shifted(n1, n2, k);
            lemma_resolve_params_shifted(
                f.params,
                f.line_number,
                enter_scope(n1),
                enter_scope(n2),
                c1,
                c2,
                k,
            );
            match (
                resolve_params(f.params, f.line_number, enter_scope(n1), c1),
                resolve_params(f.params, f.line_number, enter_scope(n2), c2),
            ) {
                (Ok((_, i1, d1)), Ok((_, i2, d2))) => {
                    lemma_resolve_items_shifted(b.items, i1, i2, d1, d2, k);
                },
                _ => {},
            }
        },
    }
}

/// The function declarations of a translation unit resolve in two shifted
/// scopes to two shifted lists, or to the same error.
pub proof fn lemma_resolve_funcs_shifted(
    decls: Seq<FuncDeclView>,
    m1: Scope,
    m2: Scope,
    c1: usize,
    c2: usize,
    k: nat,
)
    requires
        scope_shifted(m1, m2, k),
        c2 == advance(c1, k),
    ensures
        scoped_alike(
            resolve_funcs(decls, m1, c1),
            resolve_funcs(decls, m2, c2),
            |a: Seq<FuncDeclView>, b: Seq<FuncDeclView>| funcs_shifted(a, b, k),
            k,
        ),
    decreases decls.len(),
{
    reveal(resolve_funcs);
    if decls.len() > 0 {
        lemma_resolve_funcs_shifted(decls.drop_last(), m1, m2, c1, c2, k);
        match (resolve_funcs(decls.drop_last(), m1, c1), resolve_funcs(decls.drop_last(), m2, c2)) {
            (Ok((d1, n1, e1)), Ok((d2, n2, e2))) => {
                lemma_resolve_func_decl_shifted(decls.last(), n1, n2, e1, e2, k);
                match (
                    resolve_func_decl(decls.last(), n1, e1),
                    resolve_func_decl(decls.last(), n2, e2),
                ) {
                    (Ok((x1, _, _)), Ok((x2, _, _))) => {
                        assert forall|i: int| 0 <= i < d1.push(x1).len() implies func_shifted(
                            #[trigger] d1.push(x1)[i],
                            d2.push(x2)[i],
                            k,
                        ) by {
                            if i < d1.len() {
                                assert(func_shifted(d1[i], d2[i], k));
                            }
                        }
                    },
                    _ => {},
                }
            },
            _ => {},
        }
    }
}

/// Resolving a translation unit from counters that are `k` apart gives two
/// shifted units and counters that are `k` apart, or the same error.
pub proof fn lemma_resolve_shifted(p: ProgramView, c1: usize, c2: usize, k: nat)
    requires
        c2 == advance(c1, k),
    ensures
        counted_alike(
            resolve(p, c1),
            resolve(p, c2),
            |a: ProgramView, b: ProgramView| program_shifted(a, b, k),
            k,
        ),
{
    assert(scope_shifted(Map::empty(), Map::empty(), k));
    lemma_resolve_funcs_shifted(p.func_decls, Map::empty(), Map::empty(), c1, c2, k);
}

/// Two shifted statements are labelled alike: to two shifted statements, or
/// with the same error.
pub proof fn lemma_label_stmt_shifted(
    s1: StmtView,
    s2: StmtView,
    l1: Option<Seq<char>>,
    l2: Option<Seq<char>>,
    c1: usize,
    c2: usize,
    k: nat,
)
    requires
        stmt_shifted(s1, s2, k),
        opt_shifted(l1, l2, k),
        c2 == advance(c1, k),
    ensures
        counted_alike(
            label_stmt(s1, l1, c1),
            label_stmt(s2, l2, c2),
            |a: StmtView, b: StmtView| stmt_shifted(a, b, k),
            k,
        ),
    decreases s1,
{
    reveal(label_stmt);
    reveal(label_item);
    reveal(label_items);
    lemma_advance_next(c1, k);
    match (s1, s2) {
        (StmtView::While(_, b1, _), StmtView::While(_, b2, _)) => {
            let n1 = numbered("while"@, c1);
            let n2 = numbered("while"@, c2);
            assert(shifted(n1, n2, k));
            lemma_label_stmt_shifted(
                *b1,
                *b2,
                Some(n1),
                Some(n2),
                next_counter(c1),
                next_counter(c2),
                k,
            );
        },
        (StmtView::DoWhile(b1, _, _), StmtView::DoWhile(b2, _, _)) => {
            let n1 = numbered("dowhile"@, c1);
            let n2 = numbered("dowhile"@, c2);
            assert(shifted(n1, n2, k));
            lemma_label_stmt_shifted(
                *b1,
                *b2,
                Some(n1),
                Some(n2),
                next_counter(c1),
                next_counter(c2),
                k,
            );
        },
        (StmtView::For(_, _, _, b1, _), StmtView::For(_, _, _, b2, _)) => {
            let n1 = numbered("for"@, c1);
            let n2 = numbered("for"@, c2);
            assert(shifted(n1, n2, k));
            lemma_label_stmt_shifted(
                *b1,
                *b2,
                Some(n1),
                Some(n2),
                next_counter(c1),
                next_counter(c2),
                k,
            );
        },
        (StmtView::Compound(x1), StmtView::Compound(x2)) => {
            lemma_label_items_shifted(x1.items, x2.items, l1, l2, c1, c2, k);
        },
        (StmtView::If(_, t1, e1), StmtView::If(_, t2, e2)) => {
            lemma_label_stmt_shifted(*t1, *t2, l1, l2, c1, c2, k);
            match (label_stmt(*t1, l1, c1), label_stmt(*t2, l2, c2)) {
                (Ok((_, d1)), Ok((_, d2))) => {
                    match (e1, e2) {
                        (Some(y1), Some(y2)) => {
                            lemma_label_stmt_shifted(*y1, *y2, l1, l2, d1, d2, k);
                        },
                        _ => {},
                    }
                },
                _ => {},
            }
        },
        (StmtView::Break(_, _), StmtView::Break(_, _)) => {},
        (StmtView::Continue(_, _), StmtView::Continue(_, _)) => {},
        (StmtView::Return(_), StmtView::Return(_)) => {},
        (StmtView::Expression(_), StmtView::Expression(_)) => {},
        (StmtView::Null, StmtView::Null) => {},
        _ => {},
    }
}

/// Two shifted block items are labelled alike.
pub proof fn lemma_label_item_shifted(
    i1: BlockItemView,
    i2: BlockItemView,
    l1: Option<Seq<char>>,
    l2: Option<Seq<char>>,
    c1: usize,
    c2: usize,
    k: nat,
)
    requires
        item_shifted(i1, i2, k),
        opt_shifted(l1, l2, k),
        c2 == advance(c1, k),
    ensures
        counted_alike(
            label_item(i1, l1, c1),
            label_item(i2, l2, c2),
            |a: BlockItemView, b: BlockItemView| item_shifted(a, b, k),
            k,
        ),
    decreases i1,
{
    reveal(label_stmt);
    reveal(label_item);
    reveal(label_items);
    match (i1, i2) {
        (BlockItemView::Stmt(x1), BlockItemView::Stmt(x2)) => {
            lemma_label_stmt_shifted(x1, x2, l1, l2, c1, c2, k);
        },
        _ => {},
    }
}

/// Two lists of shifted block items are labelled alike.
pub proof fn lemma_label_items_shifted(
    x1: Seq<BlockItemView>,
    x2: Seq<BlockItemView>,
    l1: Option<Seq<char>>,
    l2: Option<Seq<char>>,
    c1: usize,
    c2: usize,
    k: nat,
)
    requires
        items_shifted(x1, x2, k),
        opt_shifted(l1, l2, k),
        c2 == advance(c1, k),
    ensures
        counted_alike(
            label_items(x1, l1, c1),
            label_items(x2, l2, c2),
            |a: Seq<BlockItemView>, b: Seq<BlockItemView>| items_shifted(a, b, k),
            k,
        ),
    decreases x1,
{
    reveal(label_stmt);
    reveal(label_item);
    reveal(label_items);
    if x1.len() > 0 {
        assert forall|i: int| 0 <= i < x1.drop_last().len() implies item_shifted(
            #[trigger] x1.drop_last()[i],
            x2.drop_last()[i],
            k,
        ) by {
            assert(item_shifted(x1[i], x2[i], k));
        }
        lemma_label_items_shifted(x1.drop_last(), x2.drop_last(), l1, l2, c1, c2, k);
        match (label_items(x1.drop_last(), l1, c1), label_items(x2.drop_last(), l2, c2)) {
            (Ok((d1, e1)), Ok((d2, e2))) => {
                assert(item_shifted(x1[x1.len() - 1], x2[x1.len() - 1], k));
                lemma_label_item_shifted(x1.last(), x2.last(), l1, l2, e1, e2, k);
                match (label_item(x1.last(), l1, e1), label_item(x2.last(), l2, e2)) {
                    (Ok((y1, _)), Ok((y2, _))) => {
                        assert forall|i: int| 0 <= i < d1.push(y1).len() implies item_shifted(
                            #[trigger] d1.push(y1)[i],
                            d2.push(y2)[i],
                            k,
                        ) by {
                            if i < d1.len() {
                                assert(item_shifted(d1[i], d2[i], k));
                            }
                        }
                    },
                    _ => {},
                }
            },
            _ => {},
        }
    }
}

/// Two shifted functions are labelled alike.
pub proof fn lemma_label_func_shifted(
    f1: FuncDeclView,
    f2: FuncDeclView,
    c1: usize,
    c2: usize,
    k: nat,
)
    requires
        func_shifted(f1, f2, k),
        c2 == advance(c1, k),
    ensures
        counted_alike(
            label_func(f1, c1),
            label_func(f2, c2),
            |a: FuncDeclView, b: FuncDeclView| func_shifted(a, b, k),
            k,
        ),
{
    match (f1.body, f2.body) {
        (Some(b1), Some(b2)) => {
            lemma_label_items_shifted(b1.items, b2.items, None, None, c1, c2, k);
        },
        _ => {},
    }
}

/// Two lists of shifted functions are labelled alike.
pub proof fn lemma_label_funcs_shifted(
    x1: Seq<FuncDeclView>,
    x2: Seq<FuncDeclView>,
    c1: usize,
    c2: usize,
    k: nat,
)
    requires
        funcs_shifted(x1, x2, k),
        c2 == advance(c1, k),
    ensures
        counted_alike(
            label_funcs(x1, c1),
            label_funcs(x2, c2),
            |a: Seq<FuncDeclView>, b: Seq<FuncDeclView>| funcs_shifted(a, b, k),
            k,
        ),
    decreases x1.len(),
{
    reveal(label_funcs);
    if x1.len() > 0 {
        assert forall|i: int| 0 <= i < x1.drop_last().len() implies func_shifted(
            #[trigger] x1.drop_last()[i],
            x2.drop_last()[i],
            k,
        ) by {
            assert(func_shifted(x1[i], x2[i], k));
        }
        lemma_label_funcs_shifted(x1.drop_last(), x2.drop_last(), c1, c2, k);
        match (label_funcs(x1.drop_last(), c1), label_funcs(x2.drop_last(), c2)) {
            (Ok((d1, e1)), Ok((d2, e2))) => {
                assert(func_shifted(x1[x1.len() - 1], x2[x1.len() - 1], k));
                lemma_label_func_shifted(x1.last(), x2.last(), e1, e2, k);
                match (label_func(x1.last(), e1), label_func(x2.last(), e2)) {
                    (Ok((y1, _)), Ok((y2, _))) => {
                        assert forall|i: int| 0 <= i < d1.push(y1).len() implies func_shifted(
                            #[trigger] d1.push(y1)[i],
                            d2.push(y2)[i],
                            k,
                        ) by {
                            if i < d1.len() {
                                assert(func_shifted(d1[i], d2[i], k));
                            }
                        }
                    },
                    _ => {},
                }
            },
            _ => {},
        }
    }
}

/// Labelling two shifted translation units from counters that are `k` apart
/// gives two shifted units and counters that are `k` apart, or the same
/// error.
pub proof fn lemma_label_shifted(w1: ProgramView, w2: ProgramView, c1: usize, c2: usize, k: nat)
    requires
        program_shifted(w1, w2, k),
        c2 == advance(c1, k),
    ensures
        counted_alike(
            label(w1, c1),
            label(w2, c2),
            |a: ProgramView, b: ProgramView| program_shifted(a, b, k),
            k,
        ),
{
    lemma_label_funcs_shifted(w1.func_decls, w2.func_decls, c1, c2, k);
}

} // verus!
