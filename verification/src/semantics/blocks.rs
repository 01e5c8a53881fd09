//! What a block without loops and calls computes, and that lowering keeps
//! it. An assignment stands as a statement or as an initializer of its own:
//! the expressions around it change nothing.

use vstd::prelude::*;
use crate::name_generator::{next_counter, numbered, lemma_numbered_injective};
use crate::renaming::advance;
use crate::parser::ast::{ExprView, StmtView, BlockItemView, DeclView};
use crate::tacky::tacky::{InstrView, ValView};
use crate::tacky::lowering::{lower_expr, lower_stmt, lower_item, lower_items};
use crate::tacky::unique::{
    expr_mints, stmt_mints, item_mints, items_mints, lemma_lower_expr_defines,
    lemma_lower_stmt_defines, lemma_lower_items_define,
};
use crate::validator::loops::{
    stmt_loops, item_loops, items_loops, stmt_numbered, item_numbered, items_numbered,
};
use crate::semantics::source::{Env, eval, pure, mentions};
use crate::semantics::ir::{Outcome, value, run_from, lemma_run_push};
use crate::semantics::selection::all_calm;
use crate::semantics::lowering::{
    minted_in, fresh, same_but, elsewhere, lemma_minted_wider, lemma_foreign_place,
    lemma_calm_push, lemma_fresh_part, lemma_same_but_wider, lemma_eval_kept, lemma_lower_calm,
    lemma_lower_passes, lemma_lower_pure,
};

verus! {

/// The expression changes nothing, or it assigns the value of such an
/// expression to a variable.
pub open spec fn simple(e: ExprView) -> bool {
    pure(e) || (e matches ExprView::Assignment(target, r, _) && *target is Var && pure(*r))
}

/// The value of a simple expression and the values of the variables after
/// it, where the value is defined.
pub open spec fn effect(e: ExprView, env: Env) -> Option<(i32, Env)> {
    match e {
        ExprView::Assignment(target, r, _) => match (*target, eval(*r, env)) {
            (ExprView::Var(name, _), Some(v)) => Some((v, env.insert(name, v))),
            _ => None,
        },
        _ => match eval(e, env) {
            Some(v) => Some((v, env)),
            None => None,
        },
    }
}

/// How a block went: it goes on with the values of the variables, or it
/// has returned a value.
pub enum Flow {
    Continues(Env),
    Returned(i32),
}

/// The statement holds no loop and no call, and its assignments are
/// statements of their own.
pub open spec fn plain_stmt(s: StmtView) -> bool
    decreases s,
{
    match s {
        StmtView::Return(e) => simple(e),
        StmtView::Expression(e) => simple(e),
        StmtView::Null => true,
        StmtView::If(c, t, e) => pure(c) && plain_stmt(*t) && match e {
            Some(e) => plain_stmt(*e),
            None => true,
        },
        StmtView::Compound(b) => plain_items(b.items),
        _ => false,
    }
}

/// The block item holds no loop and no call, and its assignments are
/// statements or initializers of their own.
pub open spec fn plain_item(item: BlockItemView) -> bool
    decreases item,
{
    match item {
        BlockItemView::Stmt(s) => plain_stmt(s),
        BlockItemView::Decl(DeclView::VarDecl(d)) => match d.init {
            Some(e) => simple(e),
            None => true,
        },
        BlockItemView::Decl(DeclView::FuncDecl(_)) => true,
    }
}

/// Every item of the block is plain.
pub open spec fn plain_items(items: Seq<BlockItemView>) -> bool
    decreases items,
{
    items.len() == 0 || (plain_items(items.drop_last()) && plain_item(items.last()))
}

/// What a plain statement does, where the values of its expressions are
/// defined.
pub open spec fn exec_stmt(s: StmtView, env: Env) -> Option<Flow>
    decreases s,
{
    match s {
        StmtView::Return(e) => match effect(e, env) {
            Some((v, _)) => Some(Flow::Returned(v)),
            None => None,
        },
        StmtView::Expression(e) => match effect(e, env) {
            Some((_, after)) => Some(Flow::Continues(after)),
            None => None,
        },
        StmtView::Null => Some(Flow::Continues(env)),
        StmtView::If(c, t, e) => match eval(c, env) {
            Some(a) => if a != 0 {
                exec_stmt(*t, env)
            } else {
                match e {
                    Some(e) => exec_stmt(*e, env),
                    None => Some(Flow::Continues(env)),
                }
            },
            None => None,
        },
        StmtView::Compound(b) => exec_items(b.items, env),
        _ => None,
    }
}

/// What a plain block item does. A declaration with an initializer gives
/// the variable the value of the initializer.
pub open spec fn exec_item(item: BlockItemView, env: Env) -> Option<Flow>
    decreases item,
{
    match item {
        BlockItemView::Stmt(s) => exec_stmt(s, env),
        BlockItemView::Decl(DeclView::VarDecl(d)) => match d.init {
            Some(e) => match effect(e, env) {
                Some((v, after)) => Some(Flow::Continues(after.insert(d.name, v))),
                None => None,
            },
            None => Some(Flow::Continues(env)),
        },
        BlockItemView::Decl(DeclView::FuncDecl(_)) => Some(Flow::Continues(env)),
    }
}

/// What the items of a plain block do, in their order, up to the first
/// `return`.
pub open spec fn exec_items(items: Seq<BlockItemView>, env: Env) -> Option<Flow>
    decreases items,
{
    if items.len() == 0 {
        Some(Flow::Continues(env))
    } else {
        match exec_items(items.drop_last(), env) {
            Some(Flow::Continues(after)) => exec_item(items.last(), after),
            o => o,
        }
    }
}

/// The statement reads or assigns the variable.
pub open spec fn stmt_mentions(s: StmtView, name: Seq<char>) -> bool
    decreases s,
{
    match s {
        StmtView::Return(e) => mentions(e, name),
        StmtView::Expression(e) => mentions(e, name),
        StmtView::If(c, t, e) => mentions(c, name) || stmt_mentions(*t, name) || match e {
            Some(e) => stmt_mentions(*e, name),
            None => false,
        },
        StmtView::Compound(b) => items_mention(b.items, name),
        _ => false,
    }
}

/// The block item reads or assigns the variable in a statement or in an
/// initializer.
pub open spec fn item_mentions(item: BlockItemView, name: Seq<char>) -> bool
    decreases item,
{
    match item {
        BlockItemView::Stmt(s) => stmt_mentions(s, name),
        BlockItemView::Decl(DeclView::VarDecl(d)) => match d.init {
            Some(e) => mentions(e, name),
            None => false,
        },
        BlockItemView::Decl(DeclView::FuncDecl(_)) => false,
    }
}

/// An item of the block reads or assigns the variable.
pub open spec fn items_mention(items: Seq<BlockItemView>, name: Seq<char>) -> bool
    decreases items,
{
    items.len() > 0 && (items_mention(items.drop_last(), name) || item_mentions(
        items.last(),
        name,
    ))
}

/// The block mentions none of the temporaries of the places from `a` up
/// to `b`.
pub open spec fn fresh_items(items: Seq<BlockItemView>, base: usize, a: nat, b: nat) -> bool {
    forall|name: Seq<char>| items_mention(items, name) ==> !#[trigger] minted_in(name, base, a, b)
}

/// The statement mentions none of the temporaries of the places from `a`
/// up to `b`.
pub open spec fn fresh_stmt(s: StmtView, base: usize, a: nat, b: nat) -> bool {
    forall|name: Seq<char>| stmt_mentions(s, name) ==> !#[trigger] minted_in(name, base, a, b)
}

/// The block item mentions none of the temporaries of the places from `a`
/// up to `b`.
pub open spec fn fresh_item(item: BlockItemView, base: usize, a: nat, b: nat) -> bool {
    forall|name: Seq<char>| item_mentions(item, name) ==> !#[trigger] minted_in(name, base, a, b)
}

/// What the instructions did follows what the block did: where the block
/// goes on, the instructions ran through and left the values of the
/// variables, but for the temporaries of the places from `lo` up to `hi`;
/// where the block returned, the instructions returned the same.
pub open spec fn matches_flow(flow: Flow, o: Outcome<Env>, base: usize, lo: nat, hi: nat) -> bool {
    match flow {
        Flow::Continues(after) => o is Goes && same_but(after, o->Goes_0, base, lo, hi),
        Flow::Returned(v) => o == Outcome::<Env>::Returns(v),
    }
}

/// Lowering a simple expression appends calm instructions.
pub proof fn lemma_lower_simple_calm(e: ExprView, acc: Seq<InstrView>, base: usize, t: nat)
    requires
        simple(e),
        t + expr_mints(e) <= usize::MAX + 1,
        fresh(e, base, t, t + expr_mints(e)),
        all_calm(acc),
    ensures
        all_calm(lower_expr(e, acc, advance(base, t)).0),
{
    match e {
        ExprView::Assignment(target, r, _) => {
            lemma_fresh_part(e, *r, base, t, t + expr_mints(e), t, t + expr_mints(e));
            lemma_lower_calm(*r, acc, base, t);
            let (a1, val, c1) = lower_expr(*r, acc, advance(base, t));
            match *target {
                ExprView::Var(name, _) => {
                    lemma_calm_push(a1, InstrView::Copy(val, ValView::Var(name)));
                },
                _ => {},
            }
        },
        _ => {
            lemma_lower_calm(e, acc, base, t);
        },
    }
}

/// A run that does not go on passes the instructions that lowering a simple
/// expression appends.
pub proof fn lemma_lower_simple_passes(
    e: ExprView,
    acc: Seq<InstrView>,
    base: usize,
    t: nat,
    from: Outcome<Env>,
    o: Outcome<Env>,
)
    requires
        simple(e),
        elsewhere(o, base, t, t + expr_mints(e)),
        run_from(from, acc) == o,
    ensures
        run_from(from, lower_expr(e, acc, advance(base, t)).0) == o,
{
    match e {
        ExprView::Assignment(target, r, _) => {
            lemma_lower_passes(*r, acc, base, t, from, o);
            let (a1, val, c1) = lower_expr(*r, acc, advance(base, t));
            match *target {
                ExprView::Var(name, _) => {
                    lemma_run_push(from, a1, InstrView::Copy(val, ValView::Var(name)));
                },
                _ => {},
            }
        },
        _ => {
            lemma_lower_passes(e, acc, base, t, from, o);
        },
    }
}

/// Lowering keeps the value and the effect of a simple expression: the
/// instructions run through, leave the value in the value that lowering
/// gives back, and leave the values of the variables but for the
/// temporaries that were minted.
pub proof fn lemma_lower_simple(
    e: ExprView,
    acc: Seq<InstrView>,
    base: usize,
    lo: nat,
    t: nat,
    from: Outcome<Env>,
    env1: Env,
    src: Env,
)
    requires
        simple(e),
        lo <= t,
        t + expr_mints(e) <= usize::MAX + 1,
        fresh(e, base, lo, t + expr_mints(e)),
        run_from(from, acc) == Outcome::Goes(env1),
        same_but(src, env1, base, lo, t),
        effect(e, src) is Some,
    ensures
        run_from(from, lower_expr(e, acc, advance(base, t)).0) is Goes,
        effect(e, src) matches Some((v, after)) && value(
            lower_expr(e, acc, advance(base, t)).1,
            run_from(from, lower_expr(e, acc, advance(base, t)).0)->Goes_0,
        ) == v && same_but(
            after,
            run_from(from, lower_expr(e, acc, advance(base, t)).0)->Goes_0,
            base,
            lo,
            t + expr_mints(e),
        ),
{
    let m = expr_mints(e);
    match e {
        ExprView::Assignment(target, r, _) => {
            lemma_fresh_part(e, *r, base, lo, t, lo, t + m);
            lemma_fresh_part(e, *r, base, t, t + m, lo, t + m);
            lemma_eval_kept(*r, base, lo, t, src, env1);
            lemma_lower_pure(*r, acc, base, t, from, env1);
            let (a1, val, c1) = lower_expr(*r, acc, advance(base, t));
            let envx = run_from(from, a1)->Goes_0;
            lemma_same_but_wider(src, env1, base, lo, t, lo, t + m);
            lemma_same_but_wider(env1, envx, base, t, t + m, lo, t + m);
            match *target {
                ExprView::Var(name, _) => {
                    lemma_run_push(from, a1, InstrView::Copy(val, ValView::Var(name)));
                },
                _ => {},
            }
        },
        _ => {
            lemma_fresh_part(e, e, base, lo, t, lo, t + m);
            lemma_fresh_part(e, e, base, t, t + m, lo, t + m);
            lemma_eval_kept(e, base, lo, t, src, env1);
            lemma_lower_pure(e, acc, base, t, from, env1);
            let envx = run_from(from, lower_expr(e, acc, advance(base, t)).0)->Goes_0;
            lemma_same_but_wider(src, env1, base, lo, t, lo, t + m);
            lemma_same_but_wider(env1, envx, base, t, t + m, lo, t + m);
        },
    }
}

/// The loops of a plain statement are numbered, for it has none.
pub proof fn lemma_plain_stmt_numbered(s: StmtView, base: usize, tl: nat)
    requires
        plain_stmt(s),
    ensures
        stmt_numbered(s, base, tl),
        stmt_loops(s) == 0,
    decreases s,
{
    match s {
        StmtView::If(_, t, e) => {
            lemma_plain_stmt_numbered(*t, base, tl);
            match e {
                Some(e) => {
                    lemma_plain_stmt_numbered(*e, base, tl);
                },
                None => {},
            }
        },
        StmtView::Compound(b) => {
            lemma_plain_items_numbered(b.items, base, tl);
        },
        _ => {},
    }
}

/// The loops of a plain block are numbered, for it has none.
pub proof fn lemma_plain_items_numbered(items: Seq<BlockItemView>, base: usize, tl: nat)
    requires
        plain_items(items),
    ensures
        items_numbered(items, base, tl),
        items_loops(items) == 0,
    decreases items,
{
    if items.len() > 0 {
        lemma_plain_items_numbered(items.drop_last(), base, tl);
        let last = items.last();
        assert(plain_item(last));
        match last {
            BlockItemView::Stmt(s) => {
                assert(plain_stmt(s));
                lemma_plain_stmt_numbered(s, base, tl);
            },
            _ => {},
        }
        assert(item_loops(last) == 0);
        assert(item_numbered(last, base, tl));
        assert(items_loops(items) == items_loops(items.drop_last()) + item_loops(last));
    }
}

/// Lowering a plain statement appends calm instructions.
pub proof fn lemma_lower_stmt_calm(s: StmtView, acc: Seq<InstrView>, base: usize, t: nat)
    requires
        plain_stmt(s),
        t + stmt_mints(s) <= usize::MAX + 1,
        fresh_stmt(s, base, t, t + stmt_mints(s)),
        all_calm(acc),
    ensures
        all_calm(lower_stmt(s, acc, advance(base, t)).0),
    decreases s, 1nat,
{
    let c = advance(base, t);
    let m = stmt_mints(s);
    assert(next_counter(c) == advance(base, t + 1));
    assert(next_counter(advance(base, t + 1)) == advance(base, t + 2));
    match s {
        StmtView::Return(e) => {
            lemma_lower_simple_calm(e, acc, base, t);
            let (a1, val, c1) = lower_expr(e, acc, c);
            lemma_calm_push(a1, InstrView::Return(val));
        },
        StmtView::Expression(e) => {
            lemma_lower_simple_calm(e, acc, base, t);
        },
        StmtView::If(cond, then, e) => {
            let mc = expr_mints(cond);
            let mt = stmt_mints(*then);
            let end = numbered("end"@, c);
            let els = numbered("else"@, next_counter(c));
            assert forall|name: Seq<char>| mentions(cond, name) implies !#[trigger] minted_in(
                name,
                base,
                t + 2,
                t + 2 + mc,
            ) by {
                assert(stmt_mentions(s, name));
                if minted_in(name, base, t + 2, t + 2 + mc) {
                    lemma_minted_wider(name, base, t + 2, t + 2 + mc, t, t + m);
                }
            }
            assert forall|name: Seq<char>| stmt_mentions(*then, name) implies !#[trigger] minted_in(
                name,
                base,
                t + 2 + mc,
                t + 2 + mc + mt,
            ) by {
                assert(stmt_mentions(s, name));
                if minted_in(name, base, t + 2 + mc, t + 2 + mc + mt) {
                    lemma_minted_wider(name, base, t + 2 + mc, t + 2 + mc + mt, t, t + m);
                }
            }
            lemma_lower_calm(cond, acc, base, t + 2);
            lemma_lower_expr_defines(cond, acc, base, t + 2);
            let (a1, cv, c1) = lower_expr(cond, acc, advance(base, t + 2));
            let b1 = a1.push(InstrView::JumpIfZero(cv, els));
            lemma_calm_push(a1, InstrView::JumpIfZero(cv, els));
            lemma_lower_stmt_calm(*then, b1, base, t + 2 + mc);
            lemma_plain_stmt_numbered(*then, base, 0);
            lemma_lower_stmt_defines(*then, b1, base, 0, t + 2 + mc);
            let (a2, c2) = lower_stmt(*then, b1, c1);
            let b2 = a2.push(InstrView::Jump(end));
            let a3 = b2.push(InstrView::Label(els));
            lemma_calm_push(a2, InstrView::Jump(end));
            lemma_calm_push(b2, InstrView::Label(els));
            match e {
                Some(x) => {
                    let mx = stmt_mints(*x);
                    assert forall|name: Seq<char>| stmt_mentions(*x, name) implies
                        !#[trigger] minted_in(
                        name,
                        base,
                        t + 2 + mc + mt,
                        t + 2 + mc + mt + mx,
                    ) by {
                        assert(stmt_mentions(s, name));
                        if minted_in(name, base, t + 2 + mc + mt, t + 2 + mc + mt + mx) {
                            lemma_minted_wider(
                                name,
                                base,
                                t + 2 + mc + mt,
                                t + 2 + mc + mt + mx,
                                t,
                                t + m,
                            );
                        }
                    }
                    lemma_lower_stmt_calm(*x, a3, base, t + 2 + mc + mt);
                    let (a4, c3) = lower_stmt(*x, a3, c2);
                    lemma_calm_push(a4, InstrView::Label(end));
                },
                None => {
                    lemma_calm_push(a3, InstrView::Label(end));
                },
            }
        },
        StmtView::Compound(b) => {
            assert forall|name: Seq<char>| items_mention(b.items, name) implies
                !#[trigger] minted_in(
                name,
                base,
                t,
                t + m,
            ) by {
                assert(stmt_mentions(s, name));
            }
            lemma_lower_items_calm(b.items, acc, base, t);
        },
        _ => {},
    }
}

/// Lowering a plain block item appends calm instructions.
pub proof fn lemma_lower_item_calm(item: BlockItemView, acc: Seq<InstrView>, base: usize, t: nat)
    requires
        plain_item(item),
        t + item_mints(item) <= usize::MAX + 1,
        fresh_item(item, base, t, t + item_mints(item)),
        all_calm(acc),
    ensures
        all_calm(lower_item(item, acc, advance(base, t)).0),
    decreases item, 2nat,
{
    match item {
        BlockItemView::Stmt(s) => {
            assert forall|name: Seq<char>| stmt_mentions(s, name) implies !#[trigger] minted_in(
                name,
                base,
                t,
                t + stmt_mints(s),
            ) by {
                assert(item_mentions(item, name));
            }
            lemma_lower_stmt_calm(s, acc, base, t);
        },
        BlockItemView::Decl(DeclView::VarDecl(d)) => {
            match d.init {
                Some(e) => {
                    assert forall|name: Seq<char>| mentions(e, name) implies !#[trigger] minted_in(
                        name,
                        base,
                        t,
                        t + expr_mints(e),
                    ) by {
                        assert(item_mentions(item, name));
                    }
                    lemma_lower_simple_calm(e, acc, base, t);
                    let (a1, val, c1) = lower_expr(e, acc, advance(base, t));
                    lemma_calm_push(a1, InstrView::Copy(val, ValView::Var(d.name)));
                },
                None => {},
            }
        },
        _ => {},
    }
}

/// Lowering a plain block appends calm instructions.
pub proof fn lemma_lower_items_calm(
    items: Seq<BlockItemView>,
    acc: Seq<InstrView>,
    base: usize,
    t: nat,
)
    requires
        plain_items(items),
        t + items_mints(items) <= usize::MAX + 1,
        fresh_items(items, base, t, t + items_mints(items)),
        all_calm(acc),
    ensures
        all_calm(lower_items(items, acc, advance(base, t)).0),
    decreases items, 0nat,
{
    if items.len() > 0 {
        let front = items.drop_last();
        let last = items.last();
        let mf = items_mints(front);
        let m = items_mints(items);
        assert(m == mf + item_mints(last));
        assert forall|name: Seq<char>| items_mention(front, name) implies !#[trigger] minted_in(
            name,
            base,
            t,
            t + mf,
        ) by {
            assert(items_mention(items, name));
            if minted_in(name, base, t, t + mf) {
                lemma_minted_wider(name, base, t, t + mf, t, t + m);
            }
        }
        assert forall|name: Seq<char>| item_mentions(last, name) implies !#[trigger] minted_in(
            name,
            base,
            t + mf,
            t + m,
        ) by {
            assert(items_mention(items, name));
            if minted_in(name, base, t + mf, t + m) {
                lemma_minted_wider(name, base, t + mf, t + m, t, t + m);
            }
        }
        lemma_lower_items_calm(front, acc, base, t);
        lemma_plain_items_numbered(front, base, 0);
        lemma_lower_items_define(front, acc, base, 0, t);
        let (a1, c1) = lower_items(front, acc, advance(base, t));
        assert(c1 == advance(base, t + mf));
        lemma_lower_item_calm(last, a1, base, t + mf);
    }
}

/// A run that does not go on in a stretch of places does not go on in a
/// stretch within it.
pub proof fn lemma_elsewhere_within(
    o: Outcome<Env>,
    base: usize,
    a: nat,
    b: nat,
    lo: nat,
    hi: nat,
)
    requires
        elsewhere(o, base, lo, hi),
        lo <= a,
        b <= hi,
    ensures
        elsewhere(o, base, a, b),
{
    match o {
        Outcome::Seeks(_, label) => {
            assert forall|prefix: Seq<char>, j: nat| a <= j < b implies label
                != #[trigger] numbered(prefix, advance(base, j)) by {}
        },
        _ => {},
    }
}

/// A run that does not go on passes the instructions that lowering a plain
/// statement appends.
pub proof fn lemma_lower_stmt_passes(
    s: StmtView,
    acc: Seq<InstrView>,
    base: usize,
    t: nat,
    from: Outcome<Env>,
    o: Outcome<Env>,
)
    requires
        plain_stmt(s),
        elsewhere(o, base, t, t + stmt_mints(s)),
        run_from(from, acc) == o,
    ensures
        run_from(from, lower_stmt(s, acc, advance(base, t)).0) == o,
    decreases s, 1nat,
{
    let c = advance(base, t);
    let m = stmt_mints(s);
    assert(next_counter(c) == advance(base, t + 1));
    assert(next_counter(advance(base, t + 1)) == advance(base, t + 2));
    match s {
        StmtView::Return(e) => {
            lemma_lower_simple_passes(e, acc, base, t, from, o);
            let (a1, val, c1) = lower_expr(e, acc, c);
            lemma_run_push(from, a1, InstrView::Return(val));
        },
        StmtView::Expression(e) => {
            lemma_lower_simple_passes(e, acc, base, t, from, o);
        },
        StmtView::If(cond, then, e) => {
            let mc = expr_mints(cond);
            let mt = stmt_mints(*then);
            let end = numbered("end"@, c);
            let els = numbered("else"@, next_counter(c));
            assert(o matches Outcome::Seeks(_, label) ==> end != label && els != label);
            lemma_elsewhere_within(o, base, t + 2, t + 2 + mc, t, t + m);
            lemma_elsewhere_within(o, base, t + 2 + mc, t + 2 + mc + mt, t, t + m);
            lemma_lower_passes(cond, acc, base, t + 2, from, o);
            lemma_lower_expr_defines(cond, acc, base, t + 2);
            let (a1, cv, c1) = lower_expr(cond, acc, advance(base, t + 2));
            let b1 = a1.push(InstrView::JumpIfZero(cv, els));
            lemma_run_push(from, a1, InstrView::JumpIfZero(cv, els));
            lemma_lower_stmt_passes(*then, b1, base, t + 2 + mc, from, o);
            lemma_plain_stmt_numbered(*then, base, 0);
            lemma_lower_stmt_defines(*then, b1, base, 0, t + 2 + mc);
            let (a2, c2) = lower_stmt(*then, b1, c1);
            let b2 = a2.push(InstrView::Jump(end));
            let a3 = b2.push(InstrView::Label(els));
            lemma_run_push(from, a2, InstrView::Jump(end));
            lemma_run_push(from, b2, InstrView::Label(els));
            match e {
                Some(x) => {
                    let mx = stmt_mints(*x);
                    lemma_elsewhere_within(
                        o,
                        base,
                        t + 2 + mc + mt,
                        t + 2 + mc + mt + mx,
                        t,
                        t + m,
                    );
                    lemma_lower_stmt_passes(*x, a3, base, t + 2 + mc + mt, from, o);
                    let (a4, c3) = lower_stmt(*x, a3, c2);
                    lemma_run_push(from, a4, InstrView::Label(end));
                },
                None => {
                    lemma_run_push(from, a3, InstrView::Label(end));
                },
            }
        },
        StmtView::Compound(b) => {
            lemma_lower_items_pass(b.items, acc, base, t, from, o);
        },
        _ => {},
    }
}

/// A run that does not go on passes the instructions that lowering a plain
/// block item appends.
pub proof fn lemma_lower_item_passes(
    item: BlockItemView,
    acc: Seq<InstrView>,
    base: usize,
    t: nat,
    from: Outcome<Env>,
    o: Outcome<Env>,
)
    requires
        plain_item(item),
        elsewhere(o, base, t, t + item_mints(item)),
        run_from(from, acc) == o,
    ensures
        run_from(from, lower_item(item, acc, advance(base, t)).0) == o,
    decreases item, 2nat,
{
    match item {
        BlockItemView::Stmt(s) => {
            lemma_lower_stmt_passes(s, acc, base, t, from, o);
        },
        BlockItemView::Decl(DeclView::VarDecl(d)) => {
            match d.init {
                Some(e) => {
                    lemma_lower_simple_passes(e, acc, base, t, from, o);
                    let (a1, val, c1) = lower_expr(e, acc, advance(base, t));
                    lemma_run_push(from, a1, InstrView::Copy(val, ValView::Var(d.name)));
                },
                None => {},
            }
        },
        _ => {},
    }
}

/// A run that does not go on passes the instructions that lowering a plain
/// block appends.
pub proof fn lemma_lower_items_pass(
    items: Seq<BlockItemView>,
    acc: Seq<InstrView>,
    base: usize,
    t: nat,
    from: Outcome<Env>,
    o: Outcome<Env>,
)
    requires
        plain_items(items),
        elsewhere(o, base, t, t + items_mints(items)),
        run_from(from, acc) == o,
    ensures
        run_from(from, lower_items(items, acc, advance(base, t)).0) == o,
    decreases items, 0nat,
{
    if items.len() > 0 {
        let front = items.drop_last();
        let last = items.last();
        let mf = items_mints(front);
        let m = items_mints(items);
        assert(m == mf + item_mints(last));
        lemma_elsewhere_within(o, base, t, t + mf, t, t + m);
        lemma_elsewhere_within(o, base, t + mf, t + m, t, t + m);
        lemma_lower_items_pass(front, acc, base, t, from, o);
        lemma_plain_items_numbered(front, base, 0);
        lemma_lower_items_define(front, acc, base, 0, t);
        let (a1, c1) = lower_items(front, acc, advance(base, t));
        assert(c1 == advance(base, t + mf));
        lemma_lower_item_passes(last, a1, base, t + mf, from, o);
    }
}

/// Lowering keeps what a plain statement does.
pub proof fn lemma_lower_stmt_keeps(
    s: StmtView,
    acc: Seq<InstrView>,
    base: usize,
    lo: nat,
    t: nat,
    from: Outcome<Env>,
    env1: Env,
    src: Env,
)
    requires
        plain_stmt(s),
        lo <= t,
        t + stmt_mints(s) <= usize::MAX + 1,
        fresh_stmt(s, base, lo, t + stmt_mints(s)),
        run_from(from, acc) == Outcome::Goes(env1),
        same_but(src, env1, base, lo, t),
        exec_stmt(s, src) is Some,
    ensures
        matches_flow(
            exec_stmt(s, src)->0,
            run_from(from, lower_stmt(s, acc, advance(base, t)).0),
            base,
            lo,
            t + stmt_mints(s),
        ),
    decreases s, 1nat,
{
    let c = advance(base, t);
    let m = stmt_mints(s);
    match s {
        StmtView::Return(e) => {
            assert forall|name: Seq<char>| mentions(e, name) implies !#[trigger] minted_in(
                name,
                base,
                lo,
                t + m,
            ) by {
                assert(stmt_mentions(s, name));
            }
            lemma_lower_simple(e, acc, base, lo, t, from, env1, src);
            let (a1, val, c1) = lower_expr(e, acc, c);
            lemma_run_push(from, a1, InstrView::Return(val));
        },
        StmtView::Expression(e) => {
            assert forall|name: Seq<char>| mentions(e, name) implies !#[trigger] minted_in(
                name,
                base,
                lo,
                t + m,
            ) by {
                assert(stmt_mentions(s, name));
            }
            lemma_lower_simple(e, acc, base, lo, t, from, env1, src);
        },
        StmtView::If(_, _, _) => {
            lemma_lower_if_keeps(s, acc, base, lo, t, from, env1, src);
        },
        StmtView::Compound(b) => {
            assert forall|name: Seq<char>| items_mention(b.items, name) implies
                !#[trigger] minted_in(
                name,
                base,
                lo,
                t + m,
            ) by {
                assert(stmt_mentions(s, name));
            }
            lemma_lower_items_keep(b.items, acc, base, lo, t, from, env1, src);
        },
        _ => {},
    }
}

/// Lowering keeps what an `if` does: only the branch that the condition
/// picks runs.
pub proof fn lemma_lower_if_keeps(
    s: StmtView,
    acc: Seq<InstrView>,
    base: usize,
    lo: nat,
    t: nat,
    from: Outcome<Env>,
    env1: Env,
    src: Env,
)
    requires
        s is If,
        plain_stmt(s),
        lo <= t,
        t + stmt_mints(s) <= usize::MAX + 1,
        fresh_stmt(s, base, lo, t + stmt_mints(s)),
        run_from(from, acc) == Outcome::Goes(env1),
        same_but(src, env1, base, lo, t),
        exec_stmt(s, src) is Some,
    ensures
        matches_flow(
            exec_stmt(s, src)->0,
            run_from(from, lower_stmt(s, acc, advance(base, t)).0),
            base,
            lo,
            t + stmt_mints(s),
        ),
    decreases s, 0nat,
{
    let c = advance(base, t);
    let m = stmt_mints(s);
    assert(next_counter(c) == advance(base, t + 1));
    assert(next_counter(advance(base, t + 1)) == advance(base, t + 2));
    match s {
        StmtView::If(cond, then, e) => {
            let mc = expr_mints(cond);
            let mt = stmt_mints(*then);
            let end = numbered("end"@, c);
            let els = numbered("else"@, next_counter(c));
            assert(end != els) by {
                if end == els {
                    lemma_numbered_injective("end"@, c, "else"@, next_counter(c));
                }
            }
            assert forall|name: Seq<char>| mentions(cond, name) implies !#[trigger] minted_in(
                name,
                base,
                lo,
                t + 2 + mc,
            ) by {
                assert(stmt_mentions(s, name));
                if minted_in(name, base, lo, t + 2 + mc) {
                    lemma_minted_wider(name, base, lo, t + 2 + mc, lo, t + m);
                }
            }
            assert forall|name: Seq<char>| stmt_mentions(*then, name) implies !#[trigger] minted_in(
                name,
                base,
                lo,
                t + 2 + mc + mt,
            ) by {
                assert(stmt_mentions(s, name));
                if minted_in(name, base, lo, t + 2 + mc + mt) {
                    lemma_minted_wider(name, base, lo, t + 2 + mc + mt, lo, t + m);
                }
            }
            lemma_fresh_part(cond, cond, base, lo, t, lo, t + 2 + mc);
            lemma_fresh_part(cond, cond, base, t + 2, t + 2 + mc, lo, t + 2 + mc);
            lemma_eval_kept(cond, base, lo, t, src, env1);
            lemma_lower_pure(cond, acc, base, t + 2, from, env1);
            lemma_lower_expr_defines(cond, acc, base, t + 2);
            let (a1, cv, c1) = lower_expr(cond, acc, advance(base, t + 2));
            let envc = run_from(from, a1)->Goes_0;
            let a = eval(cond, src)->0;
            lemma_same_but_wider(src, env1, base, lo, t, lo, t + 2 + mc);
            lemma_same_but_wider(env1, envc, base, t + 2, t + 2 + mc, lo, t + 2 + mc);
            assert(same_but(src, envc, base, lo, t + 2 + mc));
            let b1 = a1.push(InstrView::JumpIfZero(cv, els));
            lemma_run_push(from, a1, InstrView::JumpIfZero(cv, els));
            lemma_plain_stmt_numbered(*then, base, 0);
            lemma_lower_stmt_defines(*then, b1, base, 0, t + 2 + mc);
            let (a2, c2) = lower_stmt(*then, b1, c1);
            let b2 = a2.push(InstrView::Jump(end));
            let a3 = b2.push(InstrView::Label(els));
            lemma_run_push(from, a2, InstrView::Jump(end));
            lemma_run_push(from, b2, InstrView::Label(els));
            let mx = match e {
                Some(x) => stmt_mints(*x),
                None => 0,
            };
            let a4 = match e {
                Some(x) => lower_stmt(*x, a3, c2).0,
                None => a3,
            };
            lemma_run_push(from, a4, InstrView::Label(end));
            assert(lower_stmt(s, acc, c).0 == a4.push(InstrView::Label(end)));
            if a != 0 {
                lemma_lower_stmt_keeps(*then, b1, base, lo, t + 2 + mc, from, envc, src);
                let o = run_from(from, a2);
                let after = match o {
                    Outcome::Goes(envt) => Outcome::Seeks(envt, end),
                    other => other,
                };
                assert(run_from(from, a3) == after);
                match e {
                    Some(x) => {
                        lemma_foreign_place(
                            "end"@,
                            base,
                            t,
                            t + 2 + mc + mt,
                            t + 2 + mc + mt + mx,
                        );
                        lemma_lower_stmt_passes(*x, a3, base, t + 2 + mc + mt, from, after);
                    },
                    None => {},
                }
                match o {
                    Outcome::Goes(envt) => {
                        let flow = exec_stmt(*then, src)->0;
                        lemma_same_but_wider(
                            flow->Continues_0,
                            envt,
                            base,
                            lo,
                            t + 2 + mc + mt,
                            lo,
                            t + m,
                        );
                    },
                    _ => {},
                }
            } else {
                lemma_foreign_place("else"@, base, t + 1, t + 2 + mc, t + 2 + mc + mt);
                lemma_lower_stmt_passes(
                    *then,
                    b1,
                    base,
                    t + 2 + mc,
                    from,
                    Outcome::Seeks(envc, els),
                );
                assert(run_from(from, a3) == Outcome::Goes(envc));
                match e {
                    Some(x) => {
                        assert forall|name: Seq<char>| stmt_mentions(*x, name) implies
                            !#[trigger] minted_in(
                            name,
                            base,
                            lo,
                            t + 2 + mc + mt + mx,
                        ) by {
                            assert(stmt_mentions(s, name));
                            if minted_in(name, base, lo, t + 2 + mc + mt + mx) {
                                lemma_minted_wider(name, base, lo, t + 2 + mc + mt + mx, lo, t + m);
                            }
                        }
                        lemma_same_but_wider(
                            src,
                            envc,
                            base,
                            lo,
                            t + 2 + mc,
                            lo,
                            t + 2 + mc + mt,
                        );
                        lemma_lower_stmt_keeps(
                            *x,
                            a3,
                            base,
                            lo,
                            t + 2 + mc + mt,
                            from,
                            envc,
                            src,
                        );
                    },
                    None => {
                        lemma_same_but_wider(src, envc, base, lo, t + 2 + mc, lo, t + m);
                    },
                }
            }
        },
        _ => {},
    }
}

/// Lowering keeps what a plain block item does.
pub proof fn lemma_lower_item_keeps(
    item: BlockItemView,
    acc: Seq<InstrView>,
    base: usize,
    lo: nat,
    t: nat,
    from: Outcome<Env>,
    env1: Env,
    src: Env,
)
    requires
        plain_item(item),
        lo <= t,
        t + item_mints(item) <= usize::MAX + 1,
        fresh_item(item, base, lo, t + item_mints(item)),
        run_from(from, acc) == Outcome::Goes(env1),
        same_but(src, env1, base, lo, t),
        exec_item(item, src) is Some,
    ensures
        matches_flow(
            exec_item(item, src)->0,
            run_from(from, lower_item(item, acc, advance(base, t)).0),
            base,
            lo,
            t + item_mints(item),
        ),
    decreases item, 2nat,
{
    let m = item_mints(item);
    match item {
        BlockItemView::Stmt(s) => {
            assert forall|name: Seq<char>| stmt_mentions(s, name) implies !#[trigger] minted_in(
                name,
                base,
                lo,
                t + m,
            ) by {
                assert(item_mentions(item, name));
            }
            lemma_lower_stmt_keeps(s, acc, base, lo, t, from, env1, src);
        },
        BlockItemView::Decl(DeclView::VarDecl(d)) => {
            match d.init {
                Some(e) => {
                    assert forall|name: Seq<char>| mentions(e, name) implies !#[trigger] minted_in(
                        name,
                        base,
                        lo,
                        t + m,
                    ) by {
                        assert(item_mentions(item, name));
                    }
                    lemma_lower_simple(e, acc, base, lo, t, from, env1, src);
                    let (a1, val, c1) = lower_expr(e, acc, advance(base, t));
                    lemma_run_push(from, a1, InstrView::Copy(val, ValView::Var(d.name)));
                },
                None => {},
            }
        },
        _ => {},
    }
}

/// Lowering keeps what a plain block does.
pub proof fn lemma_lower_items_keep(
    items: Seq<BlockItemView>,
    acc: Seq<InstrView>,
    base: usize,
    lo: nat,
    t: nat,
    from: Outcome<Env>,
    env1: Env,
    src: Env,
)
    requires
        plain_items(items),
        lo <= t,
        t + items_mints(items) <= usize::MAX + 1,
        fresh_items(items, base, lo, t + items_mints(items)),
        run_from(from, acc) == Outcome::Goes(env1),
        same_but(src, env1, base, lo, t),
        exec_items(items, src) is Some,
    ensures
        matches_flow(
            exec_items(items, src)->0,
            run_from(from, lower_items(items, acc, advance(base, t)).0),
            base,
            lo,
            t + items_mints(items),
        ),
    decreases items, 0nat,
{
    if items.len() > 0 {
        let front = items.drop_last();
        let last = items.last();
        let mf = items_mints(front);
        let m = items_mints(items);
        assert(m == mf + item_mints(last));
        assert forall|name: Seq<char>| items_mention(front, name) implies !#[trigger] minted_in(
            name,
            base,
            lo,
            t + mf,
        ) by {
            assert(items_mention(items, name));
            if minted_in(name, base, lo, t + mf) {
                lemma_minted_wider(name, base, lo, t + mf, lo, t + m);
            }
        }
        assert forall|name: Seq<char>| item_mentions(last, name) implies !#[trigger] minted_in(
            name,
            base,
            lo,
            t + m,
        ) by {
            assert(items_mention(items, name));
            if minted_in(name, base, lo, t + m) {
                lemma_minted_wider(name, base, lo, t + m, lo, t + m);
            }
        }
        lemma_lower_items_keep(front, acc, base, lo, t, from, env1, src);
        lemma_plain_items_numbered(front, base, 0);
        lemma_lower_items_define(front, acc, base, 0, t);
        let (a1, c1) = lower_items(front, acc, advance(base, t));
        assert(c1 == advance(base, t + mf));
        match exec_items(front, src)->0 {
            Flow::Continues(after) => {
                let envf = run_from(from, a1)->Goes_0;
                lemma_lower_item_keeps(last, a1, base, lo, t + mf, from, envf, after);
            },
            Flow::Returned(v) => {
                lemma_lower_item_passes(last, a1, base, t + mf, from, Outcome::Returns(v));
            },
        }
    }
}

} // verus!
