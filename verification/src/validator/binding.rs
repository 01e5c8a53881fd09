//! What it means that every name that is used is bound by a declaration that
//! encloses the use. A name is visible from its declaration to the end of
//! the block, of the `for` loop or of the function that holds the
//! declaration.

use vstd::prelude::*;
use crate::validator::scopes::Scope;
use crate::parser::ast::{
    ExprView, StmtView, BlockItemView, DeclView, VarDeclView, ForInitView, FuncDeclView,
    ProgramView,
};

verus! {

/// The names that are visible at a point of the program.
pub type Names = Set<Seq<char>>;

/// Every unique name that the scope gives is among `names`.
pub open spec fn within(m: Scope, names: Names) -> bool {
    forall|k: Seq<char>| #[trigger] m.contains_key(k) ==> names.contains(m[k].unique_name)
}

/// Every variable and every called function of the expression is among
/// `names`.
pub open spec fn expr_bound(e: ExprView, names: Names) -> bool
    decreases e,
{
    match e {
        ExprView::Integer(_) => true,
        ExprView::Var(name, _) => names.contains(name),
        ExprView::UnaryOp(_, x) => expr_bound(*x, names),
        ExprView::BinaryOp(_, l, r) => expr_bound(*l, names) && expr_bound(*r, names),
        ExprView::Assignment(l, r, _) => expr_bound(*l, names) && expr_bound(*r, names),
        ExprView::Conditional(c, t, f) => expr_bound(*c, names) && expr_bound(*t, names)
            && expr_bound(*f, names),
        ExprView::FunctionCall(name, args, _) => names.contains(name) && forall|i: int|
            0 <= i < args.len() ==> expr_bound(#[trigger] args[i], names),
    }
}

/// Every name that the optional expression uses is among `names`.
pub open spec fn opt_expr_bound(e: Option<ExprView>, names: Names) -> bool {
    match e {
        Some(e) => expr_bound(e, names),
        None => true,
    }
}

/// Every name that the initializer uses is visible, where the variable
/// itself is visible in its initializer.
pub open spec fn var_decl_bound(d: VarDeclView, names: Names) -> bool {
    opt_expr_bound(d.init, names.insert(d.name))
}

/// The names that are visible after the first clause of a `for` header.
pub open spec fn names_after_init(init: Option<ForInitView>, names: Names) -> Names {
    match init {
        Some(ForInitView::Decl(d)) => names.insert(d.name),
        _ => names,
    }
}

/// Every name that the first clause of a `for` header uses is visible.
pub open spec fn for_init_bound(init: Option<ForInitView>, names: Names) -> bool {
    match init {
        Some(ForInitView::Decl(d)) => var_decl_bound(d, names),
        Some(ForInitView::Expr(e)) => expr_bound(e, names),
        None => true,
    }
}

/// Every name that the statement uses is visible where it is used.
pub open spec fn stmt_bound(s: StmtView, names: Names) -> bool
    decreases s,
{
    match s {
        StmtView::Return(e) => expr_bound(e, names),
        StmtView::Expression(e) => expr_bound(e, names),
        StmtView::If(c, t, e) => expr_bound(c, names) && stmt_bound(*t, names) && match e {
            Some(e) => stmt_bound(*e, names),
            None => true,
        },
        StmtView::Compound(b) => items_bound(b.items, names),
        StmtView::Break(_, _) => true,
        StmtView::Continue(_, _) => true,
        StmtView::While(c, body, _) => expr_bound(c, names) && stmt_bound(*body, names),
        StmtView::DoWhile(body, c, _) => stmt_bound(*body, names) && expr_bound(c, names),
        StmtView::For(init, cond, post, body, _) => for_init_bound(init, names) && opt_expr_bound(
            cond,
            names_after_init(init, names),
        ) && opt_expr_bound(post, names_after_init(init, names)) && stmt_bound(
            *body,
            names_after_init(init, names),
        ),
        StmtView::Null => true,
    }
}

/// The name that a block item declares, if it declares one.
pub open spec fn declared_name(item: BlockItemView) -> Option<Seq<char>> {
    match item {
        BlockItemView::Stmt(_) => None,
        BlockItemView::Decl(DeclView::VarDecl(d)) => Some(d.name),
        BlockItemView::Decl(DeclView::FuncDecl(f)) => Some(f.name),
    }
}

/// The names that are visible after a block item.
pub open spec fn names_after_item(item: BlockItemView, names: Names) -> Names {
    match declared_name(item) {
        Some(name) => names.insert(name),
        None => names,
    }
}

/// The names that are visible after the items of a block.
pub open spec fn names_after_items(items: Seq<BlockItemView>, names: Names) -> Names
    decreases items.len(),
{
    if items.len() == 0 {
        names
    } else {
        names_after_item(items.last(), names_after_items(items.drop_last(), names))
    }
}

/// Every name that the block item uses is visible where it is used.
pub open spec fn item_bound(item: BlockItemView, names: Names) -> bool
    decreases item,
{
    match item {
        BlockItemView::Stmt(s) => stmt_bound(s, names),
        BlockItemView::Decl(DeclView::VarDecl(d)) => var_decl_bound(d, names),
        BlockItemView::Decl(DeclView::FuncDecl(f)) => func_bound(f, names),
    }
}

/// Every name that the items use is visible where it is used: each item sees
/// `names` and what the items before it declare.
pub open spec fn items_bound(items: Seq<BlockItemView>, names: Names) -> bool
    decreases items,
{
    forall|i: int|
        0 <= i < items.len() ==> item_bound(
            #[trigger] items[i],
            names_after_items(items.take(i), names),
        )
}

/// The names that are visible after the parameters of a function.
pub open spec fn names_after_params(params: Seq<Seq<char>>, names: Names) -> Names
    decreases params.len(),
{
    if params.len() == 0 {
        names
    } else {
        names_after_params(params.drop_last(), names).insert(params.last())
    }
}

/// Every name that the body of the function uses is visible where it is
/// used: the body sees `names`, the function itself and its parameters.
pub open spec fn func_bound(f: FuncDeclView, names: Names) -> bool
    decreases f,
{
    match f.body {
        Some(b) => items_bound(b.items, names_after_params(f.params, names.insert(f.name))),
        None => true,
    }
}

/// The names that are visible after the function declarations.
pub open spec fn names_after_funcs(decls: Seq<FuncDeclView>, names: Names) -> Names
    decreases decls.len(),
{
    if decls.len() == 0 {
        names
    } else {
        names_after_funcs(decls.drop_last(), names).insert(decls.last().name)
    }
}

/// Every name that the translation unit uses is bound by a declaration that
/// encloses the use: each function sees the functions declared before it.
pub open spec fn program_bound(p: ProgramView) -> bool {
    forall|i: int|
        0 <= i < p.func_decls.len() ==> func_bound(
            #[trigger] p.func_decls[i],
            names_after_funcs(p.func_decls.take(i), Set::empty()),
        )
}

/// Items that declare the same names leave the same names visible.
pub proof fn lemma_same_declarations(a: Seq<BlockItemView>, b: Seq<BlockItemView>, names: Names)
    requires
        a.len() == b.len(),
        forall|k: int| 0 <= k < a.len() ==> declared_name(#[trigger] a[k]) == declared_name(b[k]),
    ensures
        names_after_items(a, names) == names_after_items(b, names),
    decreases a.len(),
{
    if a.len() > 0 {
        assert(declared_name(a[a.len() - 1]) == declared_name(b[a.len() - 1]));
        assert forall|k: int| 0 <= k < a.drop_last().len() implies declared_name(
            #[trigger] a.drop_last()[k],
        ) == declared_name(b.drop_last()[k]) by {
            assert(declared_name(a[k]) == declared_name(b[k]));
        }
        lemma_same_declarations(a.drop_last(), b.drop_last(), names);
    }
}

/// Functions of the same names leave the same names visible.
pub proof fn lemma_same_functions(a: Seq<FuncDeclView>, b: Seq<FuncDeclView>, names: Names)
    requires
        a.len() == b.len(),
        forall|k: int| 0 <= k < a.len() ==> (#[trigger] a[k]).name == b[k].name,
    ensures
        names_after_funcs(a, names) == names_after_funcs(b, names),
    decreases a.len(),
{
    if a.len() > 0 {
        assert(a[a.len() - 1].name == b[a.len() - 1].name);
        assert forall|k: int| 0 <= k < a.drop_last().len() implies (#[trigger] a.drop_last()[k]).name
            == b.drop_last()[k].name by {
            assert(a[k].name == b[k].name);
        }
        lemma_same_functions(a.drop_last(), b.drop_last(), names);
    }
}

} // verus!
