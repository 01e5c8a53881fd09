//! Every label of a lowered function is defined once. A label is the name
//! `prefix.N` of a key: a prefix, and the place of `N` in the row of numbers
//! that the counter gives. Different keys are different labels.

use vstd::prelude::*;
use crate::name_generator::{next_counter, numbered, lemma_numbered_injective};
use crate::renaming::advance;
use crate::parser::ast::{
    ExprView, StmtView, BlockItemView, DeclView, VarDeclView, ForInitView, FuncDeclView,
    ProgramView, BinaryOp,
};
use crate::tacky::tacky::{InstrView, ValView, FunctionView, TackyProgramView};
use crate::validator::labels::label;
use crate::validator::loops::lemma_label_funcs_number;
use crate::tacky::lowering::{
    ir_unary_op, ir_binary_op, break_label, continue_label, tmp, and_tail, or_tail, lower_expr,
    lower_args, lower_opt_expr, lower_var_decl, lower_for_init, lower_for_cond, lower_stmt,
    lower_item, lower_items, lower_function, lower_funcs, lower_program,
};
use crate::validator::fresh::{
    NameList, all_different, lemma_advance_one, lemma_advance_injective,
};
use crate::validator::loops::{
    stmt_loops, item_loops, items_loops, funcs_loops, stmt_numbered, item_numbered,
    items_numbered, func_numbered, funcs_numbered,
};

verus! {

/// The labels that the instructions define, in order.
#[verifier::opaque]
pub open spec fn defined_labels(s: Seq<InstrView>) -> NameList
    decreases s.len(),
{
    if s.len() == 0 {
        Seq::empty()
    } else {
        match s.last() {
            InstrView::Label(l) => defined_labels(s.drop_last()).push(l),
            _ => defined_labels(s.drop_last()),
        }
    }
}

/// A prefix, and the place of a number in the row of numbers that the
/// counter gives.
pub type Key = (Seq<char>, nat);

/// The label of a key, where the counter started from `base`.
pub open spec fn render(k: Key, base: usize) -> Seq<char> {
    numbered(k.0, advance(base, k.1))
}

/// The labels of the keys.
#[verifier::opaque]
pub open spec fn render_all(ks: Seq<Key>, base: usize) -> NameList {
    Seq::new(ks.len(), |i: int| render(ks[i], base))
}

/// The number of names that lowering the expression mints.
pub open spec fn expr_mints(e: ExprView) -> nat
    decreases e,
{
    match e {
        ExprView::Integer(_) => 0,
        ExprView::Var(_, _) => 0,
        ExprView::UnaryOp(_, x) => expr_mints(*x) + 1,
        ExprView::BinaryOp(op, l, r) => if op == BinaryOp::LogicalAnd || op
            == BinaryOp::LogicalOr {
            expr_mints(*l) + 2 + expr_mints(*r) + 1
        } else {
            expr_mints(*l) + expr_mints(*r) + 1
        },
        ExprView::Assignment(_, r, _) => expr_mints(*r),
        ExprView::Conditional(c, t, f) => 3 + expr_mints(*c) + expr_mints(*t) + expr_mints(*f),
        ExprView::FunctionCall(_, args, _) => args_mints(args) + 1,
    }
}

/// The number of names that lowering the arguments of a call mints.
pub open spec fn args_mints(args: Seq<ExprView>) -> nat
    decreases args,
{
    if args.len() == 0 {
        0
    } else {
        args_mints(args.drop_last()) + expr_mints(args.last())
    }
}

/// The keys of the labels that lowering the expression defines, in order,
/// where lowering starts at the place `t` of the counter.
pub open spec fn expr_keys(e: ExprView, t: nat) -> Seq<Key>
    decreases e,
{
    match e {
        ExprView::Integer(_) => Seq::empty(),
        ExprView::Var(_, _) => Seq::empty(),
        ExprView::UnaryOp(_, x) => expr_keys(*x, t),
        ExprView::BinaryOp(op, l, r) => {
            let m = expr_mints(*l);
            if op == BinaryOp::LogicalAnd {
                (expr_keys(*l, t) + expr_keys(*r, t + m + 2)).push(("false"@, t + m)).push(
                    ("end"@, t + m + 1),
                )
            } else if op == BinaryOp::LogicalOr {
                (expr_keys(*l, t) + expr_keys(*r, t + m + 2)).push(("true"@, t + m)).push(
                    ("end"@, t + m + 1),
                )
            } else {
                expr_keys(*l, t) + expr_keys(*r, t + m)
            }
        },
        ExprView::Assignment(_, r, _) => expr_keys(*r, t),
        ExprView::Conditional(c, y, n) => {
            let mc = expr_mints(*c);
            let my = expr_mints(*y);
            ((expr_keys(*c, t + 3) + expr_keys(*y, t + 3 + mc)).push(("e2"@, t)) + expr_keys(
                *n,
                t + 3 + mc + my,
            )).push(("end"@, t + 1))
        },
        ExprView::FunctionCall(_, args, _) => args_keys(args, t),
    }
}

/// The keys of the labels that lowering the arguments of a call defines.
pub open spec fn args_keys(args: Seq<ExprView>, t: nat) -> Seq<Key>
    decreases args,
{
    if args.len() == 0 {
        Seq::empty()
    } else {
        args_keys(args.drop_last(), t) + expr_keys(args.last(), t + args_mints(args.drop_last()))
    }
}

/// One more instruction adds the label that it defines.
pub proof fn lemma_defined_push(s: Seq<InstrView>, x: InstrView)
    ensures
        defined_labels(s.push(x)) == (match x {
            InstrView::Label(l) => defined_labels(s).push(l),
            _ => defined_labels(s),
        }),
{
    reveal(defined_labels);
    assert(s.push(x).drop_last() =~= s);
}

/// What was defined first, then by `a`, then by `b`, was defined first and
/// then by `a` and `b`.
pub proof fn lemma_chain(
    d0: NameList,
    d1: NameList,
    d2: NameList,
    a: Seq<Key>,
    b: Seq<Key>,
    base: usize,
)
    requires
        d1 == d0 + render_all(a, base),
        d2 == d1 + render_all(b, base),
    ensures
        d2 == d0 + render_all(a + b, base),
{
    reveal(render_all);
    assert(render_all(a + b, base) =~= render_all(a, base) + render_all(b, base));
    assert(d2 =~= d0 + render_all(a + b, base));
}

/// What was defined first and then by `a`, with one label more, was defined
/// first and then by `a` and the key of the label.
pub proof fn lemma_chain_label(d0: NameList, d1: NameList, a: Seq<Key>, k: Key, base: usize)
    requires
        d1 == d0 + render_all(a, base),
    ensures
        d1.push(render(k, base)) == d0 + render_all(a.push(k), base),
{
    reveal(render_all);
    assert(render_all(a.push(k), base) =~= render_all(a, base).push(render(k, base)));
    assert(d1.push(render(k, base)) =~= d0 + render_all(a.push(k), base));
}

/// Nothing more was defined.
pub proof fn lemma_chain_none(d0: NameList, base: usize)
    ensures
        d0 == d0 + render_all(Seq::empty(), base),
{
    reveal(render_all);
    assert(d0 =~= d0 + render_all(Seq::empty(), base));
}

/// The tail of a logical operation defines its two labels, the one that
/// skips the right operand first.
pub proof fn lemma_tail_defines(
    acc: Seq<InstrView>,
    right: ValView,
    dst: ValView,
    skip: Seq<char>,
    end: Seq<char>,
)
    ensures
        defined_labels(and_tail(acc, right, dst, skip, end)) == defined_labels(acc).push(
            skip,
        ).push(end),
        defined_labels(or_tail(acc, right, dst, skip, end)) == defined_labels(acc).push(skip).push(
            end,
        ),
{
    {
        let a1 = acc.push(InstrView::JumpIfZero(right, skip));
        let a2 = a1.push(InstrView::Copy(ValView::Integer(1), dst));
        let a3 = a2.push(InstrView::Jump(end));
        let a4 = a3.push(InstrView::Label(skip));
        let a5 = a4.push(InstrView::Copy(ValView::Integer(0), dst));
        lemma_defined_push(acc, InstrView::JumpIfZero(right, skip));
        lemma_defined_push(a1, InstrView::Copy(ValView::Integer(1), dst));
        lemma_defined_push(a2, InstrView::Jump(end));
        lemma_defined_push(a3, InstrView::Label(skip));
        lemma_defined_push(a4, InstrView::Copy(ValView::Integer(0), dst));
        lemma_defined_push(a5, InstrView::Label(end));
    }
    {
        let a1 = acc.push(InstrView::JumpIfNotZero(right, skip));
        let a2 = a1.push(InstrView::Copy(ValView::Integer(0), dst));
        let a3 = a2.push(InstrView::Jump(end));
        let a4 = a3.push(InstrView::Label(skip));
        let a5 = a4.push(InstrView::Copy(ValView::Integer(1), dst));
        lemma_defined_push(acc, InstrView::JumpIfNotZero(right, skip));
        lemma_defined_push(a1, InstrView::Copy(ValView::Integer(0), dst));
        lemma_defined_push(a2, InstrView::Jump(end));
        lemma_defined_push(a3, InstrView::Label(skip));
        lemma_defined_push(a4, InstrView::Copy(ValView::Integer(1), dst));
        lemma_defined_push(a5, InstrView::Label(end));
    }
}

/// Lowering an expression from the place `t` of the counter defines the
/// labels of its keys, and advances the counter by the number of names that
/// it mints.
pub proof fn lemma_lower_expr_defines(e: ExprView, acc: Seq<InstrView>, base: usize, t: nat)
    ensures
        defined_labels(lower_expr(e, acc, advance(base, t)).0) == defined_labels(acc)
            + render_all(expr_keys(e, t), base),
        lower_expr(e, acc, advance(base, t)).2 == advance(base, t + expr_mints(e)),
    decreases e,
{
    let c = advance(base, t);
    let d0 = defined_labels(acc);
    assert(next_counter(c) == advance(base, t + 1));
    assert(next_counter(advance(base, t + 1)) == advance(base, t + 2));
    assert(next_counter(advance(base, t + 2)) == advance(base, t + 3));
    match e {
        ExprView::Integer(_) => {
            lemma_chain_none(d0, base);
        },
        ExprView::Var(_, _) => {
            lemma_chain_none(d0, base);
        },
        ExprView::UnaryOp(op, x) => {
            lemma_lower_expr_defines(*x, acc, base, t);
            let (a1, src, c1) = lower_expr(*x, acc, c);
            lemma_defined_push(a1, InstrView::Unary(ir_unary_op(op), src, tmp(c1)));
            assert(next_counter(c1) == advance(base, t + expr_mints(*x) + 1));
        },
        ExprView::BinaryOp(op, l, r) => {
            lemma_lower_expr_defines(*l, acc, base, t);
            let (a1, lv, c1) = lower_expr(*l, acc, c);
            let m = expr_mints(*l);
            assert(next_counter(c1) == advance(base, t + m + 1));
            assert(next_counter(advance(base, t + m + 1)) == advance(base, t + m + 2));
            if op == BinaryOp::LogicalAnd || op == BinaryOp::LogicalOr {
                let first = if op == BinaryOp::LogicalAnd {
                    "false"@
                } else {
                    "true"@
                };
                let skip = numbered(first, c1);
                let end = numbered("end"@, next_counter(c1));
                let jump = if op == BinaryOp::LogicalAnd {
                    InstrView::JumpIfZero(lv, skip)
                } else {
                    InstrView::JumpIfNotZero(lv, skip)
                };
                lemma_defined_push(a1, jump);
                lemma_lower_expr_defines(*r, a1.push(jump), base, t + m + 2);
                let (a2, rv, c2) = lower_expr(*r, a1.push(jump), advance(base, t + m + 2));
                lemma_tail_defines(a2, rv, tmp(c2), skip, end);
                let d1 = defined_labels(a1);
                let d2 = defined_labels(a2);
                lemma_chain(d0, d1, d2, expr_keys(*l, t), expr_keys(*r, t + m + 2), base);
                let ks = expr_keys(*l, t) + expr_keys(*r, t + m + 2);
                lemma_chain_label(d0, d2, ks, (first, t + m), base);
                lemma_chain_label(
                    d0,
                    d2.push(skip),
                    ks.push((first, t + m)),
                    ("end"@, t + m + 1),
                    base,
                );
                assert(next_counter(c2) == advance(base, t + m + 2 + expr_mints(*r) + 1));
            } else {
                lemma_lower_expr_defines(*r, a1, base, t + m);
                let (a2, rv, c2) = lower_expr(*r, a1, c1);
                lemma_defined_push(a2, InstrView::Binary(ir_binary_op(op), lv, rv, tmp(c2)));
                lemma_chain(
                    d0,
                    defined_labels(a1),
                    defined_labels(a2),
                    expr_keys(*l, t),
                    expr_keys(*r, t + m),
                    base,
                );
                assert(next_counter(c2) == advance(base, t + m + expr_mints(*r) + 1));
            }
        },
        ExprView::Assignment(target, r, _) => {
            lemma_lower_expr_defines(*r, acc, base, t);
            let (a1, val, c1) = lower_expr(*r, acc, c);
            match *target {
                ExprView::Var(name, _) => {
                    lemma_defined_push(a1, InstrView::Copy(val, ValView::Var(name)));
                },
                _ => {},
            }
        },
        ExprView::Conditional(cond, y, n) => {
            let e2 = numbered("e2"@, c);
            let end = numbered("end"@, next_counter(c));
            let dst = tmp(advance(base, t + 2));
            let mc = expr_mints(*cond);
            let my = expr_mints(*y);
            lemma_lower_expr_defines(*cond, acc, base, t + 3);
            let (a1, cv, c1) = lower_expr(*cond, acc, advance(base, t + 3));
            let b1 = a1.push(InstrView::JumpIfZero(cv, e2));
            lemma_defined_push(a1, InstrView::JumpIfZero(cv, e2));
            lemma_lower_expr_defines(*y, b1, base, t + 3 + mc);
            let (a2, tv, c2) = lower_expr(*y, b1, c1);
            let b2 = a2.push(InstrView::Copy(tv, dst));
            let b3 = b2.push(InstrView::Jump(end));
            let b4 = b3.push(InstrView::Label(e2));
            lemma_defined_push(a2, InstrView::Copy(tv, dst));
            lemma_defined_push(b2, InstrView::Jump(end));
            lemma_defined_push(b3, InstrView::Label(e2));
            lemma_lower_expr_defines(*n, b4, base, t + 3 + mc + my);
            let (a3, fv, c3) = lower_expr(*n, b4, c2);
            let b5 = a3.push(InstrView::Copy(fv, dst));
            lemma_defined_push(a3, InstrView::Copy(fv, dst));
            lemma_defined_push(b5, InstrView::Label(end));
            let k1 = expr_keys(*cond, t + 3);
            let k2 = expr_keys(*y, t + 3 + mc);
            let k3 = expr_keys(*n, t + 3 + mc + my);
            lemma_chain(d0, defined_labels(a1), defined_labels(a2), k1, k2, base);
            lemma_chain_label(d0, defined_labels(a2), k1 + k2, ("e2"@, t), base);
            lemma_chain(
                d0,
                defined_labels(b4),
                defined_labels(a3),
                (k1 + k2).push(("e2"@, t)),
                k3,
                base,
            );
            lemma_chain_label(
                d0,
                defined_labels(a3),
                (k1 + k2).push(("e2"@, t)) + k3,
                ("end"@, t + 1),
                base,
            );
        },
        ExprView::FunctionCall(name, args, _) => {
            lemma_lower_args_define(args, acc, base, t);
            let (a1, vals, c1) = lower_args(args, acc, c);
            lemma_defined_push(a1, InstrView::FuncCall(name, vals, tmp(c1)));
            assert(next_counter(c1) == advance(base, t + args_mints(args) + 1));
        },
    }
}

/// Lowering the arguments of a call defines the labels of their keys.
pub proof fn lemma_lower_args_define(args: Seq<ExprView>, acc: Seq<InstrView>, base: usize, t: nat)
    ensures
        defined_labels(lower_args(args, acc, advance(base, t)).0) == defined_labels(acc)
            + render_all(args_keys(args, t), base),
        lower_args(args, acc, advance(base, t)).2 == advance(base, t + args_mints(args)),
    decreases args,
{
    if args.len() == 0 {
        lemma_chain_none(defined_labels(acc), base);
    } else {
        lemma_lower_args_define(args.drop_last(), acc, base, t);
        let (a1, vals, c1) = lower_args(args.drop_last(), acc, advance(base, t));
        let m = args_mints(args.drop_last());
        lemma_lower_expr_defines(args.last(), a1, base, t + m);
        let a2 = lower_expr(args.last(), a1, c1).0;
        lemma_chain(
            defined_labels(acc),
            defined_labels(a1),
            defined_labels(a2),
            args_keys(args.drop_last(), t),
            expr_keys(args.last(), t + m),
            base,
        );
    }
}

/// The number of names that lowering an optional expression mints.
pub open spec fn opt_mints(e: Option<ExprView>) -> nat {
    match e {
        Some(e) => expr_mints(e),
        None => 0,
    }
}

/// The keys of the labels that lowering an optional expression defines.
pub open spec fn opt_keys(e: Option<ExprView>, t: nat) -> Seq<Key> {
    match e {
        Some(e) => expr_keys(e, t),
        None => Seq::empty(),
    }
}

/// The number of names that lowering the first clause of a `for` header
/// mints.
pub open spec fn for_init_mints(init: Option<ForInitView>) -> nat {
    match init {
        Some(ForInitView::Decl(d)) => opt_mints(d.init),
        Some(ForInitView::Expr(e)) => expr_mints(e),
        None => 0,
    }
}

/// The keys of the labels that lowering the first clause of a `for` header
/// defines.
pub open spec fn for_init_keys(init: Option<ForInitView>, t: nat) -> Seq<Key> {
    match init {
        Some(ForInitView::Decl(d)) => opt_keys(d.init, t),
        Some(ForInitView::Expr(e)) => expr_keys(e, t),
        None => Seq::empty(),
    }
}

/// The number of names that lowering the statement mints. The labels of its
/// loops are not minted then: they are in the statement.
pub open spec fn stmt_mints(s: StmtView) -> nat
    decreases s,
{
    match s {
        StmtView::Return(e) => expr_mints(e),
        StmtView::Expression(e) => expr_mints(e),
        StmtView::If(cond, t, e) => 2 + expr_mints(cond) + stmt_mints(*t) + match e {
            Some(e) => stmt_mints(*e),
            None => 0,
        },
        StmtView::Compound(b) => items_mints(b.items),
        StmtView::DoWhile(body, cond, _) => 1 + stmt_mints(*body) + expr_mints(cond),
        StmtView::While(cond, body, _) => expr_mints(cond) + stmt_mints(*body),
        StmtView::For(init, cond, post, body, _) => 1 + for_init_mints(init) + opt_mints(cond)
            + stmt_mints(*body) + opt_mints(post),
        _ => 0,
    }
}

/// The number of names that lowering the block item mints.
pub open spec fn item_mints(item: BlockItemView) -> nat
    decreases item,
{
    match item {
        BlockItemView::Stmt(s) => stmt_mints(s),
        BlockItemView::Decl(DeclView::VarDecl(d)) => opt_mints(d.init),
        BlockItemView::Decl(DeclView::FuncDecl(_)) => 0,
    }
}

/// The number of names that lowering the items of a block mints.
pub open spec fn items_mints(items: Seq<BlockItemView>) -> nat
    decreases items,
{
    if items.len() == 0 {
        0
    } else {
        items_mints(items.drop_last()) + item_mints(items.last())
    }
}

/// The key of the label that `continue` jumps to in a loop of the given
/// kind, the loop being the one with the place `t`.
pub open spec fn continue_key(kind: Seq<char>, t: nat) -> Key {
    ("continue_"@ + kind, t)
}

/// The key of the label that `break` jumps to in a loop of the given kind.
pub open spec fn break_key(kind: Seq<char>, t: nat) -> Key {
    ("break_"@ + kind, t)
}

/// The keys of the labels that lowering the statement defines, in order,
/// where the loops of the statement have the places from `tl` on and
/// lowering starts at the place `tm` of the counter.
pub open spec fn stmt_keys(s: StmtView, tl: nat, tm: nat) -> Seq<Key>
    decreases s,
{
    match s {
        StmtView::Return(e) => expr_keys(e, tm),
        StmtView::Expression(e) => expr_keys(e, tm),
        StmtView::If(cond, t, e) => {
            let mc = expr_mints(cond);
            let mt = stmt_mints(*t);
            ((expr_keys(cond, tm + 2) + stmt_keys(*t, tl, tm + 2 + mc)).push(("else"@, tm + 1))
                + (match e {
                Some(e) => stmt_keys(*e, tl + stmt_loops(*t), tm + 2 + mc + mt),
                None => Seq::empty(),
            })).push(("end"@, tm))
        },
        StmtView::Compound(b) => items_keys(b.items, tl, tm),
        StmtView::DoWhile(body, cond, _) => {
            let mb = stmt_mints(*body);
            ((Seq::<Key>::empty().push(("start"@, tm)) + stmt_keys(*body, tl + 1, tm + 1)).push(
                continue_key("dowhile"@, tl),
            ) + expr_keys(cond, tm + 1 + mb)).push(break_key("dowhile"@, tl))
        },
        StmtView::While(cond, body, _) => {
            let mc = expr_mints(cond);
            (Seq::<Key>::empty().push(continue_key("while"@, tl)) + (expr_keys(cond, tm)
                + stmt_keys(*body, tl + 1, tm + mc))).push(break_key("while"@, tl))
        },
        StmtView::For(init, cond, post, body, _) => {
            let mi = for_init_mints(init);
            let mc = opt_mints(cond);
            let mb = stmt_mints(*body);
            ((for_init_keys(init, tm + 1).push(("start"@, tm)) + (opt_keys(cond, tm + 1 + mi)
                + stmt_keys(*body, tl + 1, tm + 1 + mi + mc))).push(continue_key("for"@, tl))
                + opt_keys(post, tm + 1 + mi + mc + mb)).push(break_key("for"@, tl))
        },
        _ => Seq::empty(),
    }
}

/// The keys of the labels that lowering the block item defines.
pub open spec fn item_keys(item: BlockItemView, tl: nat, tm: nat) -> Seq<Key>
    decreases item,
{
    match item {
        BlockItemView::Stmt(s) => stmt_keys(s, tl, tm),
        BlockItemView::Decl(DeclView::VarDecl(d)) => opt_keys(d.init, tm),
        BlockItemView::Decl(DeclView::FuncDecl(_)) => Seq::empty(),
    }
}

/// The keys of the labels that lowering the items of a block defines.
pub open spec fn items_keys(items: Seq<BlockItemView>, tl: nat, tm: nat) -> Seq<Key>
    decreases items,
{
    if items.len() == 0 {
        Seq::empty()
    } else {
        items_keys(items.drop_last(), tl, tm) + item_keys(
            items.last(),
            tl + items_loops(items.drop_last()),
            tm + items_mints(items.drop_last()),
        )
    }
}

/// The two labels of a loop are the labels of its two keys.
pub proof fn lemma_loop_labels(kind: Seq<char>, base: usize, t: nat)
    ensures
        continue_label(numbered(kind, advance(base, t))) == render(continue_key(kind, t), base),
        break_label(numbered(kind, advance(base, t))) == render(break_key(kind, t), base),
{
    let n = advance(base, t);
    assert("continue_"@ + numbered(kind, n) =~= numbered("continue_"@ + kind, n));
    assert("break_"@ + numbered(kind, n) =~= numbered("break_"@ + kind, n));
}

/// Lowering an optional expression, or the test of a `for` loop, defines
/// the labels of the keys of the expression.
pub proof fn lemma_lower_optional_defines(
    e: Option<ExprView>,
    label: Seq<char>,
    acc: Seq<InstrView>,
    base: usize,
    t: nat,
)
    ensures
        defined_labels(lower_opt_expr(e, acc, advance(base, t)).0) == defined_labels(acc)
            + render_all(opt_keys(e, t), base),
        lower_opt_expr(e, acc, advance(base, t)).1 == advance(base, t + opt_mints(e)),
        defined_labels(lower_for_cond(e, label, acc, advance(base, t)).0) == defined_labels(acc)
            + render_all(opt_keys(e, t), base),
        lower_for_cond(e, label, acc, advance(base, t)).1 == advance(base, t + opt_mints(e)),
{
    match e {
        Some(x) => {
            lemma_lower_expr_defines(x, acc, base, t);
            let (a1, val, c1) = lower_expr(x, acc, advance(base, t));
            lemma_defined_push(a1, InstrView::JumpIfZero(val, break_label(label)));
        },
        None => {
            lemma_chain_none(defined_labels(acc), base);
        },
    }
}

/// Lowering a variable declaration defines the labels of the keys of its
/// initializer.
pub proof fn lemma_lower_var_decl_defines(
    d: VarDeclView,
    acc: Seq<InstrView>,
    base: usize,
    t: nat,
)
    ensures
        defined_labels(lower_var_decl(d, acc, advance(base, t)).0) == defined_labels(acc)
            + render_all(opt_keys(d.init, t), base),
        lower_var_decl(d, acc, advance(base, t)).1 == advance(base, t + opt_mints(d.init)),
{
    match d.init {
        Some(x) => {
            lemma_lower_expr_defines(x, acc, base, t);
            let (a1, val, c1) = lower_expr(x, acc, advance(base, t));
            lemma_defined_push(a1, InstrView::Copy(val, ValView::Var(d.name)));
        },
        None => {
            lemma_chain_none(defined_labels(acc), base);
        },
    }
}

/// Lowering the first clause of a `for` header defines the labels of its
/// keys.
pub proof fn lemma_lower_for_init_defines(
    init: Option<ForInitView>,
    acc: Seq<InstrView>,
    base: usize,
    t: nat,
)
    ensures
        defined_labels(lower_for_init(init, acc, advance(base, t)).0) == defined_labels(acc)
            + render_all(for_init_keys(init, t), base),
        lower_for_init(init, acc, advance(base, t)).1 == advance(base, t + for_init_mints(init)),
{
    match init {
        Some(ForInitView::Decl(d)) => {
            lemma_lower_var_decl_defines(d, acc, base, t);
        },
        Some(ForInitView::Expr(e)) => {
            lemma_lower_expr_defines(e, acc, base, t);
        },
        None => {
            lemma_chain_none(defined_labels(acc), base);
        },
    }
}

/// Lowering a statement whose loops are numbered from the place `tl` on,
/// from the place `tm` of the counter, defines the labels of its keys, and
/// advances the counter by the number of names that it mints.
pub proof fn lemma_lower_stmt_defines(
    s: StmtView,
    acc: Seq<InstrView>,
    base: usize,
    tl: nat,
    tm: nat,
)
    requires
        stmt_numbered(s, base, tl),
    ensures
        defined_labels(lower_stmt(s, acc, advance(base, tm)).0) == defined_labels(acc)
            + render_all(stmt_keys(s, tl, tm), base),
        lower_stmt(s, acc, advance(base, tm)).1 == advance(base, tm + stmt_mints(s)),
    decreases s, 1nat,
{
    let c = advance(base, tm);
    let d0 = defined_labels(acc);
    match s {
        StmtView::Return(e) => {
            lemma_lower_expr_defines(e, acc, base, tm);
            let (a1, val, c1) = lower_expr(e, acc, c);
            lemma_defined_push(a1, InstrView::Return(val));
        },
        StmtView::Expression(e) => {
            lemma_lower_expr_defines(e, acc, base, tm);
        },
        StmtView::Null => {
            lemma_chain_none(d0, base);
        },
        StmtView::If(_, _, _) => {
            lemma_lower_if_defines(s, acc, base, tl, tm);
        },
        StmtView::Compound(b) => {
            lemma_lower_items_define(b.items, acc, base, tl, tm);
        },
        StmtView::Break(label, _) => {
            lemma_defined_push(acc, InstrView::Jump(break_label(label)));
            lemma_chain_none(d0, base);
        },
        StmtView::Continue(label, _) => {
            lemma_defined_push(acc, InstrView::Jump(continue_label(label)));
            lemma_chain_none(d0, base);
        },
        StmtView::DoWhile(_, _, _) => {
            lemma_lower_do_while_defines(s, acc, base, tl, tm);
        },
        StmtView::While(_, _, _) => {
            lemma_lower_while_defines(s, acc, base, tl, tm);
        },
        StmtView::For(_, _, _, _, _) => {
            lemma_lower_for_defines(s, acc, base, tl, tm);
        },
    }
}

/// Lowering an `if` defines the labels of its keys.
pub proof fn lemma_lower_if_defines(
    s: StmtView,
    acc: Seq<InstrView>,
    base: usize,
    tl: nat,
    tm: nat,
)
    requires
        s is If,
        stmt_numbered(s, base, tl),
    ensures
        defined_labels(lower_stmt(s, acc, advance(base, tm)).0) == defined_labels(acc)
            + render_all(stmt_keys(s, tl, tm), base),
        lower_stmt(s, acc, advance(base, tm)).1 == advance(base, tm + stmt_mints(s)),
    decreases s, 0nat,
{
    let c = advance(base, tm);
    let d0 = defined_labels(acc);
    let none = Seq::<Key>::empty();
    assert(next_counter(c) == advance(base, tm + 1));
    assert(next_counter(advance(base, tm + 1)) == advance(base, tm + 2));
    match s {
        StmtView::If(cond, t, e) => {
            let end = numbered("end"@, c);
            let els = numbered("else"@, next_counter(c));
            let mc = expr_mints(cond);
            let mt = stmt_mints(*t);
            lemma_lower_expr_defines(cond, acc, base, tm + 2);
            let (a1, cv, c1) = lower_expr(cond, acc, advance(base, tm + 2));
            let b1 = a1.push(InstrView::JumpIfZero(cv, els));
            lemma_defined_push(a1, InstrView::JumpIfZero(cv, els));
            lemma_lower_stmt_defines(*t, b1, base, tl, tm + 2 + mc);
            let (a2, c2) = lower_stmt(*t, b1, c1);
            let b2 = a2.push(InstrView::Jump(end));
            let a3 = b2.push(InstrView::Label(els));
            lemma_defined_push(a2, InstrView::Jump(end));
            lemma_defined_push(b2, InstrView::Label(els));
            let k1 = expr_keys(cond, tm + 2);
            let k2 = stmt_keys(*t, tl, tm + 2 + mc);
            lemma_chain(d0, defined_labels(a1), defined_labels(a2), k1, k2, base);
            lemma_chain_label(d0, defined_labels(a2), k1 + k2, ("else"@, tm + 1), base);
            let k3 = (k1 + k2).push(("else"@, tm + 1));
            match e {
                Some(x) => {
                    let kx = stmt_keys(*x, tl + stmt_loops(*t), tm + 2 + mc + mt);
                    lemma_lower_stmt_defines(*x, a3, base, tl + stmt_loops(*t), tm + 2 + mc + mt);
                    let (a4, c3) = lower_stmt(*x, a3, c2);
                    lemma_chain(d0, defined_labels(a3), defined_labels(a4), k3, kx, base);
                    lemma_defined_push(a4, InstrView::Label(end));
                    lemma_chain_label(d0, defined_labels(a4), k3 + kx, ("end"@, tm), base);
                },
                None => {
                    lemma_chain_none(defined_labels(a3), base);
                    lemma_chain(d0, defined_labels(a3), defined_labels(a3), k3, none, base);
                    lemma_defined_push(a3, InstrView::Label(end));
                    lemma_chain_label(d0, defined_labels(a3), k3 + none, ("end"@, tm), base);
                },
            }
        },
        _ => {},
    }
}

/// Lowering a `do` loop defines the labels of its keys.
pub proof fn lemma_lower_do_while_defines(
    s: StmtView,
    acc: Seq<InstrView>,
    base: usize,
    tl: nat,
    tm: nat,
)
    requires
        s is DoWhile,
        stmt_numbered(s, base, tl),
    ensures
        defined_labels(lower_stmt(s, acc, advance(base, tm)).0) == defined_labels(acc)
            + render_all(stmt_keys(s, tl, tm), base),
        lower_stmt(s, acc, advance(base, tm)).1 == advance(base, tm + stmt_mints(s)),
    decreases s, 0nat,
{
    let c = advance(base, tm);
    let d0 = defined_labels(acc);
    let none = Seq::<Key>::empty();
    assert(next_counter(c) == advance(base, tm + 1));
    assert(next_counter(advance(base, tm + 1)) == advance(base, tm + 2));
    match s {
        StmtView::DoWhile(body, cond, label) => {
            lemma_loop_labels("dowhile"@, base, tl);
            let start = numbered("start"@, c);
            let mb = stmt_mints(*body);
            let b0 = acc.push(InstrView::Label(start));
            lemma_defined_push(acc, InstrView::Label(start));
            lemma_chain_none(d0, base);
            lemma_chain_label(d0, d0, none, ("start"@, tm), base);
            let k0 = none.push(("start"@, tm));
            lemma_lower_stmt_defines(*body, b0, base, tl + 1, tm + 1);
            let (a1, c1) = lower_stmt(*body, b0, advance(base, tm + 1));
            let kb = stmt_keys(*body, tl + 1, tm + 1);
            lemma_chain(d0, defined_labels(b0), defined_labels(a1), k0, kb, base);
            let b1 = a1.push(InstrView::Label(continue_label(label)));
            lemma_defined_push(a1, InstrView::Label(continue_label(label)));
            lemma_chain_label(d0, defined_labels(a1), k0 + kb, continue_key("dowhile"@, tl), base);
            let k1 = (k0 + kb).push(continue_key("dowhile"@, tl));
            lemma_lower_expr_defines(cond, b1, base, tm + 1 + mb);
            let (a2, cv, c2) = lower_expr(cond, b1, c1);
            let kc = expr_keys(cond, tm + 1 + mb);
            lemma_chain(d0, defined_labels(b1), defined_labels(a2), k1, kc, base);
            let b2 = a2.push(InstrView::JumpIfNotZero(cv, start));
            lemma_defined_push(a2, InstrView::JumpIfNotZero(cv, start));
            lemma_defined_push(b2, InstrView::Label(break_label(label)));
            lemma_chain_label(d0, defined_labels(a2), k1 + kc, break_key("dowhile"@, tl), base);
        },
        _ => {},
    }
}

/// Lowering a `while` loop defines the labels of its keys.
pub proof fn lemma_lower_while_defines(
    s: StmtView,
    acc: Seq<InstrView>,
    base: usize,
    tl: nat,
    tm: nat,
)
    requires
        s is While,
        stmt_numbered(s, base, tl),
    ensures
        defined_labels(lower_stmt(s, acc, advance(base, tm)).0) == defined_labels(acc)
            + render_all(stmt_keys(s, tl, tm), base),
        lower_stmt(s, acc, advance(base, tm)).1 == advance(base, tm + stmt_mints(s)),
    decreases s, 0nat,
{
    let c = advance(base, tm);
    let d0 = defined_labels(acc);
    let none = Seq::<Key>::empty();
    assert(next_counter(c) == advance(base, tm + 1));
    assert(next_counter(advance(base, tm + 1)) == advance(base, tm + 2));
    match s {
        StmtView::While(cond, body, label) => {
            lemma_loop_labels("while"@, base, tl);
            let mc = expr_mints(cond);
            let b0 = acc.push(InstrView::Label(continue_label(label)));
            lemma_defined_push(acc, InstrView::Label(continue_label(label)));
            lemma_chain_none(d0, base);
            lemma_chain_label(d0, d0, none, continue_key("while"@, tl), base);
            let k0 = none.push(continue_key("while"@, tl));
            lemma_lower_expr_defines(cond, b0, base, tm);
            let (a1, cv, c1) = lower_expr(cond, b0, c);
            let kc = expr_keys(cond, tm);
            let b1 = a1.push(InstrView::JumpIfZero(cv, break_label(label)));
            lemma_defined_push(a1, InstrView::JumpIfZero(cv, break_label(label)));
            lemma_lower_stmt_defines(*body, b1, base, tl + 1, tm + mc);
            let (a2, c2) = lower_stmt(*body, b1, c1);
            let kb = stmt_keys(*body, tl + 1, tm + mc);
            lemma_chain(defined_labels(b0), defined_labels(a1), defined_labels(a2), kc, kb, base);
            lemma_chain(d0, defined_labels(b0), defined_labels(a2), k0, kc + kb, base);
            let b2 = a2.push(InstrView::Jump(continue_label(label)));
            lemma_defined_push(a2, InstrView::Jump(continue_label(label)));
            lemma_defined_push(b2, InstrView::Label(break_label(label)));
            lemma_chain_label(
                d0,
                defined_labels(a2),
                k0 + (kc + kb),
                break_key("while"@, tl),
                base,
            );
        },
        _ => {},
    }
}

/// Lowering a `for` loop defines the labels of its keys.
pub proof fn lemma_lower_for_defines(
    s: StmtView,
    acc: Seq<InstrView>,
    base: usize,
    tl: nat,
    tm: nat,
)
    requires
        s is For,
        stmt_numbered(s, base, tl),
    ensures
        defined_labels(lower_stmt(s, acc, advance(base, tm)).0) == defined_labels(acc)
            + render_all(stmt_keys(s, tl, tm), base),
        lower_stmt(s, acc, advance(base, tm)).1 == advance(base, tm + stmt_mints(s)),
    decreases s, 0nat,
{
    let c = advance(base, tm);
    let d0 = defined_labels(acc);
    let none = Seq::<Key>::empty();
    assert(next_counter(c) == advance(base, tm + 1));
    assert(next_counter(advance(base, tm + 1)) == advance(base, tm + 2));
    match s {
        StmtView::For(init, cond, post, body, label) => {
            lemma_loop_labels("for"@, base, tl);
            let start = numbered("start"@, c);
            let mi = for_init_mints(init);
            let mc = opt_mints(cond);
            let mb = stmt_mints(*body);
            lemma_lower_for_init_defines(init, acc, base, tm + 1);
            let (a1, c1) = lower_for_init(init, acc, advance(base, tm + 1));
            let ki = for_init_keys(init, tm + 1);
            let b1 = a1.push(InstrView::Label(start));
            lemma_defined_push(a1, InstrView::Label(start));
            lemma_chain_label(d0, defined_labels(a1), ki, ("start"@, tm), base);
            let k0 = ki.push(("start"@, tm));
            lemma_lower_optional_defines(cond, label, b1, base, tm + 1 + mi);
            let (a2, c2) = lower_for_cond(cond, label, b1, c1);
            let kc = opt_keys(cond, tm + 1 + mi);
            lemma_lower_stmt_defines(*body, a2, base, tl + 1, tm + 1 + mi + mc);
            let (a3, c3) = lower_stmt(*body, a2, c2);
            let kb = stmt_keys(*body, tl + 1, tm + 1 + mi + mc);
            lemma_chain(defined_labels(b1), defined_labels(a2), defined_labels(a3), kc, kb, base);
            lemma_chain(d0, defined_labels(b1), defined_labels(a3), k0, kc + kb, base);
            let b3 = a3.push(InstrView::Label(continue_label(label)));
            lemma_defined_push(a3, InstrView::Label(continue_label(label)));
            lemma_chain_label(
                d0,
                defined_labels(a3),
                k0 + (kc + kb),
                continue_key("for"@, tl),
                base,
            );
            let k1 = (k0 + (kc + kb)).push(continue_key("for"@, tl));
            lemma_lower_optional_defines(post, label, b3, base, tm + 1 + mi + mc + mb);
            let (a4, c4) = lower_opt_expr(post, b3, c3);
            let kp = opt_keys(post, tm + 1 + mi + mc + mb);
            lemma_chain(d0, defined_labels(b3), defined_labels(a4), k1, kp, base);
            let b4 = a4.push(InstrView::Jump(start));
            lemma_defined_push(a4, InstrView::Jump(start));
            lemma_defined_push(b4, InstrView::Label(break_label(label)));
            lemma_chain_label(d0, defined_labels(a4), k1 + kp, break_key("for"@, tl), base);
        },
        _ => {},
    }
}

/// Lowering a block item defines the labels of its keys.
pub proof fn lemma_lower_item_defines(
    item: BlockItemView,
    acc: Seq<InstrView>,
    base: usize,
    tl: nat,
    tm: nat,
)
    requires
        item_numbered(item, base, tl),
    ensures
        defined_labels(lower_item(item, acc, advance(base, tm)).0) == defined_labels(acc)
            + render_all(item_keys(item, tl, tm), base),
        lower_item(item, acc, advance(base, tm)).1 == advance(base, tm + item_mints(item)),
    decreases item, 2nat,
{
    match item {
        BlockItemView::Stmt(s) => {
            lemma_lower_stmt_defines(s, acc, base, tl, tm);
        },
        BlockItemView::Decl(DeclView::VarDecl(d)) => {
            lemma_lower_var_decl_defines(d, acc, base, tm);
        },
        BlockItemView::Decl(DeclView::FuncDecl(_)) => {
            lemma_chain_none(defined_labels(acc), base);
        },
    }
}

/// Lowering the items of a block defines the labels of their keys.
pub proof fn lemma_lower_items_define(
    items: Seq<BlockItemView>,
    acc: Seq<InstrView>,
    base: usize,
    tl: nat,
    tm: nat,
)
    requires
        items_numbered(items, base, tl),
    ensures
        defined_labels(lower_items(items, acc, advance(base, tm)).0) == defined_labels(acc)
            + render_all(items_keys(items, tl, tm), base),
        lower_items(items, acc, advance(base, tm)).1 == advance(base, tm + items_mints(items)),
    decreases items, 0nat,
{
    if items.len() == 0 {
        lemma_chain_none(defined_labels(acc), base);
    } else {
        let front = items.drop_last();
        let last = items.last();
        lemma_lower_items_define(front, acc, base, tl, tm);
        let (a1, c1) = lower_items(front, acc, advance(base, tm));
        let tl1 = tl + items_loops(front);
        let tm1 = tm + items_mints(front);
        assert(c1 == advance(base, tm1));
        assert(item_numbered(last, base, tl1));
        lemma_lower_item_defines(last, a1, base, tl1, tm1);
        let a2 = lower_item(last, a1, c1).0;
        assert(lower_items(items, acc, advance(base, tm)).0 == a2);
        assert(items_mints(items) == items_mints(front) + item_mints(last));
        assert(items_keys(items, tl, tm) == items_keys(front, tl, tm) + item_keys(last, tl1, tm1));
        lemma_chain(
            defined_labels(acc),
            defined_labels(a1),
            defined_labels(a2),
            items_keys(front, tl, tm),
            item_keys(last, tl1, tm1),
            base,
        );
    }
}

/// Two stretches of places: from the first number up to the second, and
/// from the third up to the fourth.
pub type Span = (nat, nat, nat, nat);

/// The place lies in one of the two stretches.
pub open spec fn spot(n: nat, s: Span) -> bool {
    s.0 <= n < s.1 || s.2 <= n < s.3
}

/// The keys are all different, and their places lie in the span.
pub open spec fn tidy(ks: Seq<Key>, s: Span) -> bool {
    &&& forall|i: int| 0 <= i < ks.len() ==> spot((#[trigger] ks[i]).1, s)
    &&& forall|i: int, j: int| 0 <= i < j < ks.len() ==> ks[i] != ks[j]
}

/// Tidy keys are tidy in a wider span.
pub proof fn lemma_tidy_wider(a: Seq<Key>, sa: Span, s: Span)
    requires
        tidy(a, sa),
        forall|n: nat| #[trigger] spot(n, sa) ==> spot(n, s),
    ensures
        tidy(a, s),
{
}

/// Tidy keys in spans that share no place are tidy together.
pub proof fn lemma_tidy_join(a: Seq<Key>, b: Seq<Key>, sa: Span, sb: Span, s: Span)
    requires
        tidy(a, sa),
        tidy(b, sb),
        forall|n: nat| #[trigger] spot(n, sa) ==> !spot(n, sb),
        forall|n: nat| #[trigger] spot(n, sa) ==> spot(n, s),
        forall|n: nat| #[trigger] spot(n, sb) ==> spot(n, s),
    ensures
        tidy(a + b, s),
{
    let ks = a + b;
    assert forall|i: int| 0 <= i < ks.len() implies spot((#[trigger] ks[i]).1, s) by {
        if i < a.len() {
            assert(ks[i] == a[i]);
        } else {
            assert(ks[i] == b[i - a.len()]);
        }
    }
    assert forall|i: int, j: int| 0 <= i < j < ks.len() implies ks[i] != ks[j] by {
        if j < a.len() {
            assert(ks[i] == a[i] && ks[j] == a[j]);
        } else if i >= a.len() {
            assert(ks[i] == b[i - a.len()] && ks[j] == b[j - a.len()]);
        } else {
            assert(ks[i] == a[i] && ks[j] == b[j - a.len()]);
            assert(spot(a[i].1, sa));
            assert(spot(b[j - a.len()].1, sb));
        }
    }
}

/// Tidy keys and one more key, at a place outside their span, are tidy.
pub proof fn lemma_tidy_push(a: Seq<Key>, k: Key, sa: Span, s: Span)
    requires
        tidy(a, sa),
        !spot(k.1, sa),
        spot(k.1, s),
        forall|n: nat| #[trigger] spot(n, sa) ==> spot(n, s),
    ensures
        tidy(a.push(k), s),
{
    let ks = a.push(k);
    assert forall|i: int| 0 <= i < ks.len() implies spot((#[trigger] ks[i]).1, s) by {
        if i < a.len() {
            assert(ks[i] == a[i]);
        }
    }
    assert forall|i: int, j: int| 0 <= i < j < ks.len() implies ks[i] != ks[j] by {
        if j < a.len() {
            assert(ks[i] == a[i] && ks[j] == a[j]);
        } else {
            assert(ks[i] == a[i]);
            assert(spot(a[i].1, sa));
        }
    }
}

/// The two keys of a loop differ.
pub proof fn lemma_loop_keys_differ(kind: Seq<char>, t: nat)
    ensures
        continue_key(kind, t) != break_key(kind, t),
{
    reveal_strlit("continue_");
    reveal_strlit("break_");
    assert(("continue_"@ + kind)[0] == 'c');
    assert(("break_"@ + kind)[0] == 'b');
}

/// The keys before the `continue` label of a loop, the key of that label,
/// the keys between the two labels of the loop and the key of its `break`
/// label are tidy, where the place of the loop is outside the spans of the
/// others.
pub proof fn lemma_tidy_loop(
    a: Seq<Key>,
    b: Seq<Key>,
    kind: Seq<char>,
    t: nat,
    sa: Span,
    sb: Span,
    s: Span,
)
    requires
        tidy(a, sa),
        tidy(b, sb),
        !spot(t, sa),
        !spot(t, sb),
        spot(t, s),
        forall|n: nat| #[trigger] spot(n, sa) ==> !spot(n, sb),
        forall|n: nat| #[trigger] spot(n, sa) ==> spot(n, s),
        forall|n: nat| #[trigger] spot(n, sb) ==> spot(n, s),
    ensures
        tidy((a.push(continue_key(kind, t)) + b).push(break_key(kind, t)), s),
{
    lemma_loop_keys_differ(kind, t);
    let ck = continue_key(kind, t);
    let bk = break_key(kind, t);
    let ks = (a.push(ck) + b).push(bk);
    let n = a.len() as int;
    assert forall|i: int| 0 <= i < ks.len() implies (if i < n {
        ks[i] == a[i] && spot(ks[i].1, sa)
    } else if i == n {
        ks[i] == ck
    } else if i < n + 1 + b.len() {
        ks[i] == b[i - n - 1] && spot(ks[i].1, sb)
    } else {
        ks[i] == bk
    }) by {
        if i < n {
            assert(ks[i] == a[i]);
        } else if i == n {
        } else if i < n + 1 + b.len() {
            assert(ks[i] == b[i - n - 1]);
        }
    }
    assert forall|i: int| 0 <= i < ks.len() implies spot((#[trigger] ks[i]).1, s) by {}
    assert forall|i: int, j: int| 0 <= i < j < ks.len() implies ks[i] != ks[j] by {
        if j < n {
            assert(ks[i] == a[i] && ks[j] == a[j]);
        } else if n < i && j < n + 1 + b.len() {
            assert(ks[i] == b[i - n - 1] && ks[j] == b[j - n - 1]);
        }
    }
}

/// The keys of an expression are tidy: their places are those of the names
/// that lowering the expression mints.
pub proof fn lemma_expr_keys_tidy(e: ExprView, t: nat)
    ensures
        tidy(expr_keys(e, t), (0, 0, t, t + expr_mints(e))),
    decreases e,
{
    match e {
        ExprView::Integer(_) => {},
        ExprView::Var(_, _) => {},
        ExprView::UnaryOp(_, x) => {
            lemma_expr_keys_tidy(*x, t);
            lemma_tidy_wider(
                expr_keys(*x, t),
                (0, 0, t, t + expr_mints(*x)),
                (0, 0, t, t + expr_mints(e)),
            );
        },
        ExprView::BinaryOp(op, l, r) => {
            let m = expr_mints(*l);
            let mr = expr_mints(*r);
            lemma_expr_keys_tidy(*l, t);
            if op == BinaryOp::LogicalAnd || op == BinaryOp::LogicalOr {
                let first = if op == BinaryOp::LogicalAnd {
                    "false"@
                } else {
                    "true"@
                };
                lemma_expr_keys_tidy(*r, t + m + 2);
                let kl = expr_keys(*l, t);
                let kr = expr_keys(*r, t + m + 2);
                lemma_tidy_join(
                    kl,
                    kr,
                    (0, 0, t, t + m),
                    (0, 0, t + m + 2, t + m + 2 + mr),
                    (t, t + m, t + m + 2, t + m + 2 + mr),
                );
                lemma_tidy_push(
                    kl + kr,
                    (first, t + m),
                    (t, t + m, t + m + 2, t + m + 2 + mr),
                    (t, t + m + 1, t + m + 2, t + m + 2 + mr),
                );
                lemma_tidy_push(
                    (kl + kr).push((first, t + m)),
                    ("end"@, t + m + 1),
                    (t, t + m + 1, t + m + 2, t + m + 2 + mr),
                    (0, 0, t, t + expr_mints(e)),
                );
            } else {
                lemma_expr_keys_tidy(*r, t + m);
                lemma_tidy_join(
                    expr_keys(*l, t),
                    expr_keys(*r, t + m),
                    (0, 0, t, t + m),
                    (0, 0, t + m, t + m + mr),
                    (0, 0, t, t + expr_mints(e)),
                );
            }
        },
        ExprView::Assignment(_, r, _) => {
            lemma_expr_keys_tidy(*r, t);
        },
        ExprView::Conditional(c, y, n) => {
            let mc = expr_mints(*c);
            let my = expr_mints(*y);
            let mn = expr_mints(*n);
            lemma_expr_keys_tidy(*c, t + 3);
            lemma_expr_keys_tidy(*y, t + 3 + mc);
            lemma_expr_keys_tidy(*n, t + 3 + mc + my);
            let k1 = expr_keys(*c, t + 3);
            let k2 = expr_keys(*y, t + 3 + mc);
            let k3 = expr_keys(*n, t + 3 + mc + my);
            lemma_tidy_join(
                k1,
                k2,
                (0, 0, t + 3, t + 3 + mc),
                (0, 0, t + 3 + mc, t + 3 + mc + my),
                (0, 0, t + 3, t + 3 + mc + my),
            );
            lemma_tidy_push(
                k1 + k2,
                ("e2"@, t),
                (0, 0, t + 3, t + 3 + mc + my),
                (t, t + 1, t + 3, t + 3 + mc + my),
            );
            lemma_tidy_join(
                (k1 + k2).push(("e2"@, t)),
                k3,
                (t, t + 1, t + 3, t + 3 + mc + my),
                (0, 0, t + 3 + mc + my, t + 3 + mc + my + mn),
                (t, t + 1, t + 3, t + 3 + mc + my + mn),
            );
            lemma_tidy_push(
                (k1 + k2).push(("e2"@, t)) + k3,
                ("end"@, t + 1),
                (t, t + 1, t + 3, t + 3 + mc + my + mn),
                (0, 0, t, t + expr_mints(e)),
            );
        },
        ExprView::FunctionCall(_, args, _) => {
            lemma_args_keys_tidy(args, t);
            lemma_tidy_wider(
                args_keys(args, t),
                (0, 0, t, t + args_mints(args)),
                (0, 0, t, t + expr_mints(e)),
            );
        },
    }
}

/// The keys of the arguments of a call are tidy.
pub proof fn lemma_args_keys_tidy(args: Seq<ExprView>, t: nat)
    ensures
        tidy(args_keys(args, t), (0, 0, t, t + args_mints(args))),
    decreases args,
{
    if args.len() > 0 {
        let front = args.drop_last();
        let m = args_mints(front);
        lemma_args_keys_tidy(front, t);
        lemma_expr_keys_tidy(args.last(), t + m);
        lemma_tidy_join(
            args_keys(front, t),
            expr_keys(args.last(), t + m),
            (0, 0, t, t + m),
            (0, 0, t + m, t + m + expr_mints(args.last())),
            (0, 0, t, t + args_mints(args)),
        );
    }
}

/// The keys of an optional expression are tidy.
pub proof fn lemma_opt_keys_tidy(e: Option<ExprView>, t: nat)
    ensures
        tidy(opt_keys(e, t), (0, 0, t, t + opt_mints(e))),
{
    match e {
        Some(x) => {
            lemma_expr_keys_tidy(x, t);
        },
        None => {},
    }
}

/// The keys of the first clause of a `for` header are tidy.
pub proof fn lemma_for_init_keys_tidy(init: Option<ForInitView>, t: nat)
    ensures
        tidy(for_init_keys(init, t), (0, 0, t, t + for_init_mints(init))),
{
    match init {
        Some(ForInitView::Decl(d)) => {
            lemma_opt_keys_tidy(d.init, t);
        },
        Some(ForInitView::Expr(e)) => {
            lemma_expr_keys_tidy(e, t);
        },
        None => {},
    }
}

/// The keys of a statement are tidy: their places are those of the loops of
/// the statement and those of the names that lowering it mints, where the
/// first come before the second.
pub proof fn lemma_stmt_keys_tidy(s: StmtView, tl: nat, tm: nat)
    requires
        tl + stmt_loops(s) <= tm,
    ensures
        tidy(stmt_keys(s, tl, tm), (tl, tl + stmt_loops(s), tm, tm + stmt_mints(s))),
    decreases s, 1nat,
{
    match s {
        StmtView::Return(e) => {
            lemma_expr_keys_tidy(e, tm);
            lemma_tidy_wider(
                expr_keys(e, tm),
                (0, 0, tm, tm + expr_mints(e)),
                (tl, tl + stmt_loops(s), tm, tm + stmt_mints(s)),
            );
        },
        StmtView::Expression(e) => {
            lemma_expr_keys_tidy(e, tm);
            lemma_tidy_wider(
                expr_keys(e, tm),
                (0, 0, tm, tm + expr_mints(e)),
                (tl, tl + stmt_loops(s), tm, tm + stmt_mints(s)),
            );
        },
        StmtView::If(_, _, _) => {
            lemma_if_keys_tidy(s, tl, tm);
        },
        StmtView::Compound(b) => {
            lemma_items_keys_tidy(b.items, tl, tm);
        },
        StmtView::DoWhile(_, _, _) => {
            lemma_do_while_keys_tidy(s, tl, tm);
        },
        StmtView::While(_, _, _) => {
            lemma_while_keys_tidy(s, tl, tm);
        },
        StmtView::For(_, _, _, _, _) => {
            lemma_for_keys_tidy(s, tl, tm);
        },
        _ => {},
    }
}

/// The keys of an `if` are tidy.
pub proof fn lemma_if_keys_tidy(s: StmtView, tl: nat, tm: nat)
    requires
        s is If,
        tl + stmt_loops(s) <= tm,
    ensures
        tidy(stmt_keys(s, tl, tm), (tl, tl + stmt_loops(s), tm, tm + stmt_mints(s))),
    decreases s, 0nat,
{
    let none = Seq::<Key>::empty();
    let nowhere: Span = (0, 0, 0, 0);
    assert(tidy(none, nowhere));
    match s {
        StmtView::If(cond, t, e) => {
            let mc = expr_mints(cond);
            let mt = stmt_mints(*t);
            let lt = stmt_loops(*t);
            let k1 = expr_keys(cond, tm + 2);
            let k2 = stmt_keys(*t, tl, tm + 2 + mc);
            lemma_expr_keys_tidy(cond, tm + 2);
            lemma_stmt_keys_tidy(*t, tl, tm + 2 + mc);
            lemma_tidy_join(
                k1,
                k2,
                (0, 0, tm + 2, tm + 2 + mc),
                (tl, tl + lt, tm + 2 + mc, tm + 2 + mc + mt),
                (tl, tl + lt, tm + 2, tm + 2 + mc + mt),
            );
            lemma_tidy_push(
                k1 + k2,
                ("else"@, tm + 1),
                (tl, tl + lt, tm + 2, tm + 2 + mc + mt),
                (tl, tl + lt, tm + 1, tm + 2 + mc + mt),
            );
            let k3 = (k1 + k2).push(("else"@, tm + 1));
            match e {
                Some(x) => {
                    let lx = stmt_loops(*x);
                    let mx = stmt_mints(*x);
                    let kx = stmt_keys(*x, tl + lt, tm + 2 + mc + mt);
                    lemma_stmt_keys_tidy(*x, tl + lt, tm + 2 + mc + mt);
                    lemma_tidy_join(
                        k3,
                        kx,
                        (tl, tl + lt, tm + 1, tm + 2 + mc + mt),
                        (tl + lt, tl + lt + lx, tm + 2 + mc + mt, tm + 2 + mc + mt + mx),
                        (tl, tl + lt + lx, tm + 1, tm + 2 + mc + mt + mx),
                    );
                    lemma_tidy_push(
                        k3 + kx,
                        ("end"@, tm),
                        (tl, tl + lt + lx, tm + 1, tm + 2 + mc + mt + mx),
                        (tl, tl + stmt_loops(s), tm, tm + stmt_mints(s)),
                    );
                },
                None => {
                    lemma_tidy_join(
                        k3,
                        none,
                        (tl, tl + lt, tm + 1, tm + 2 + mc + mt),
                        nowhere,
                        (tl, tl + lt, tm + 1, tm + 2 + mc + mt),
                    );
                    lemma_tidy_push(
                        k3 + none,
                        ("end"@, tm),
                        (tl, tl + lt, tm + 1, tm + 2 + mc + mt),
                        (tl, tl + stmt_loops(s), tm, tm + stmt_mints(s)),
                    );
                },
            }
        },
        _ => {},
    }
}

/// The keys of a `do` loop are tidy.
pub proof fn lemma_do_while_keys_tidy(s: StmtView, tl: nat, tm: nat)
    requires
        s is DoWhile,
        tl + stmt_loops(s) <= tm,
    ensures
        tidy(stmt_keys(s, tl, tm), (tl, tl + stmt_loops(s), tm, tm + stmt_mints(s))),
    decreases s, 0nat,
{
    let none = Seq::<Key>::empty();
    let nowhere: Span = (0, 0, 0, 0);
    assert(tidy(none, nowhere));
    match s {
        StmtView::DoWhile(body, cond, _) => {
            let mb = stmt_mints(*body);
            let lb = stmt_loops(*body);
            let mc = expr_mints(cond);
            let k0 = none.push(("start"@, tm));
            let kb = stmt_keys(*body, tl + 1, tm + 1);
            let kc = expr_keys(cond, tm + 1 + mb);
            lemma_tidy_push(none, ("start"@, tm), nowhere, (0, 0, tm, tm + 1));
            lemma_stmt_keys_tidy(*body, tl + 1, tm + 1);
            lemma_tidy_join(
                k0,
                kb,
                (0, 0, tm, tm + 1),
                (tl + 1, tl + 1 + lb, tm + 1, tm + 1 + mb),
                (tl + 1, tl + 1 + lb, tm, tm + 1 + mb),
            );
            lemma_expr_keys_tidy(cond, tm + 1 + mb);
            lemma_tidy_loop(
                k0 + kb,
                kc,
                "dowhile"@,
                tl,
                (tl + 1, tl + 1 + lb, tm, tm + 1 + mb),
                (0, 0, tm + 1 + mb, tm + 1 + mb + mc),
                (tl, tl + stmt_loops(s), tm, tm + stmt_mints(s)),
            );
        },
        _ => {},
    }
}

/// The keys of a `while` loop are tidy.
pub proof fn lemma_while_keys_tidy(s: StmtView, tl: nat, tm: nat)
    requires
        s is While,
        tl + stmt_loops(s) <= tm,
    ensures
        tidy(stmt_keys(s, tl, tm), (tl, tl + stmt_loops(s), tm, tm + stmt_mints(s))),
    decreases s, 0nat,
{
    let none = Seq::<Key>::empty();
    let nowhere: Span = (0, 0, 0, 0);
    assert(tidy(none, nowhere));
    match s {
        StmtView::While(cond, body, _) => {
            let mb = stmt_mints(*body);
            let lb = stmt_loops(*body);
            let mc = expr_mints(cond);
            let kc = expr_keys(cond, tm);
            let kb = stmt_keys(*body, tl + 1, tm + mc);
            lemma_expr_keys_tidy(cond, tm);
            lemma_stmt_keys_tidy(*body, tl + 1, tm + mc);
            lemma_tidy_join(
                kc,
                kb,
                (0, 0, tm, tm + mc),
                (tl + 1, tl + 1 + lb, tm + mc, tm + mc + mb),
                (tl + 1, tl + 1 + lb, tm, tm + mc + mb),
            );
            lemma_tidy_loop(
                none,
                kc + kb,
                "while"@,
                tl,
                nowhere,
                (tl + 1, tl + 1 + lb, tm, tm + mc + mb),
                (tl, tl + stmt_loops(s), tm, tm + stmt_mints(s)),
            );
        },
        _ => {},
    }
}

/// The keys of a `for` loop are tidy.
pub proof fn lemma_for_keys_tidy(s: StmtView, tl: nat, tm: nat)
    requires
        s is For,
        tl + stmt_loops(s) <= tm,
    ensures
        tidy(stmt_keys(s, tl, tm), (tl, tl + stmt_loops(s), tm, tm + stmt_mints(s))),
    decreases s, 0nat,
{
    let none = Seq::<Key>::empty();
    let nowhere: Span = (0, 0, 0, 0);
    assert(tidy(none, nowhere));
    match s {
        StmtView::For(init, cond, post, body, _) => {
            let mi = for_init_mints(init);
            let mc = opt_mints(cond);
            let mb = stmt_mints(*body);
            let lb = stmt_loops(*body);
            let mp = opt_mints(post);
            let ki = for_init_keys(init, tm + 1);
            let k0 = ki.push(("start"@, tm));
            let kc = opt_keys(cond, tm + 1 + mi);
            let kb = stmt_keys(*body, tl + 1, tm + 1 + mi + mc);
            let kp = opt_keys(post, tm + 1 + mi + mc + mb);
            lemma_for_init_keys_tidy(init, tm + 1);
            lemma_tidy_push(
                ki,
                ("start"@, tm),
                (0, 0, tm + 1, tm + 1 + mi),
                (0, 0, tm, tm + 1 + mi),
            );
            lemma_opt_keys_tidy(cond, tm + 1 + mi);
            lemma_stmt_keys_tidy(*body, tl + 1, tm + 1 + mi + mc);
            lemma_tidy_join(
                kc,
                kb,
                (0, 0, tm + 1 + mi, tm + 1 + mi + mc),
                (tl + 1, tl + 1 + lb, tm + 1 + mi + mc, tm + 1 + mi + mc + mb),
                (tl + 1, tl + 1 + lb, tm + 1 + mi, tm + 1 + mi + mc + mb),
            );
            lemma_tidy_join(
                k0,
                kc + kb,
                (0, 0, tm, tm + 1 + mi),
                (tl + 1, tl + 1 + lb, tm + 1 + mi, tm + 1 + mi + mc + mb),
                (tl + 1, tl + 1 + lb, tm, tm + 1 + mi + mc + mb),
            );
            lemma_opt_keys_tidy(post, tm + 1 + mi + mc + mb);
            lemma_tidy_loop(
                k0 + (kc + kb),
                kp,
                "for"@,
                tl,
                (tl + 1, tl + 1 + lb, tm, tm + 1 + mi + mc + mb),
                (0, 0, tm + 1 + mi + mc + mb, tm + 1 + mi + mc + mb + mp),
                (tl, tl + stmt_loops(s), tm, tm + stmt_mints(s)),
            );
        },
        _ => {},
    }
}

/// The keys of the items of a block are tidy.
pub proof fn lemma_items_keys_tidy(items: Seq<BlockItemView>, tl: nat, tm: nat)
    requires
        tl + items_loops(items) <= tm,
    ensures
        tidy(items_keys(items, tl, tm), (tl, tl + items_loops(items), tm, tm + items_mints(items))),
    decreases items, 0nat,
{
    if items.len() > 0 {
        let front = items.drop_last();
        let lf = items_loops(front);
        let mf = items_mints(front);
        let ll = item_loops(items.last());
        let ml = item_mints(items.last());
        lemma_items_keys_tidy(front, tl, tm);
        let kl = item_keys(items.last(), tl + lf, tm + mf);
        match items.last() {
            BlockItemView::Stmt(s) => {
                lemma_stmt_keys_tidy(s, tl + lf, tm + mf);
            },
            BlockItemView::Decl(DeclView::VarDecl(d)) => {
                lemma_opt_keys_tidy(d.init, tm + mf);
                lemma_tidy_wider(
                    kl,
                    (0, 0, tm + mf, tm + mf + ml),
                    (tl + lf, tl + lf + ll, tm + mf, tm + mf + ml),
                );
            },
            BlockItemView::Decl(DeclView::FuncDecl(_)) => {},
        }
        assert(tidy(kl, (tl + lf, tl + lf + ll, tm + mf, tm + mf + ml)));
        lemma_tidy_join(
            items_keys(front, tl, tm),
            kl,
            (tl, tl + lf, tm, tm + mf),
            (tl + lf, tl + lf + ll, tm + mf, tm + mf + ml),
            (tl, tl + items_loops(items), tm, tm + items_mints(items)),
        );
    }
}

/// The labels of tidy keys are all different, as long as their places are
/// values of the counter.
pub proof fn lemma_tidy_labels_different(ks: Seq<Key>, s: Span, base: usize)
    requires
        tidy(ks, s),
        s.1 <= usize::MAX + 1,
        s.3 <= usize::MAX + 1,
    ensures
        all_different(render_all(ks, base)),
{
    reveal(render_all);
    let r = render_all(ks, base);
    assert forall|i: int, j: int| 0 <= i < j < r.len() implies r[i] != r[j] by {
        assert(spot(ks[i].1, s));
        assert(spot(ks[j].1, s));
        if r[i] == r[j] {
            lemma_numbered_injective(
                ks[i].0,
                advance(base, ks[i].1),
                ks[j].0,
                advance(base, ks[j].1),
            );
            if ks[i].1 != ks[j].1 {
                lemma_advance_injective(base, ks[i].1, ks[j].1);
            }
            assert(ks[i] == ks[j]);
        }
    }
}

/// The number of names that lowering the body of a function mints.
pub open spec fn func_mints(f: FuncDeclView) -> nat {
    match f.body {
        Some(b) => items_mints(b.items),
        None => 0,
    }
}

/// The number of names that lowering the functions mints.
pub open spec fn funcs_mints(decls: Seq<FuncDeclView>) -> nat
    decreases decls.len(),
{
    if decls.len() == 0 {
        0
    } else {
        funcs_mints(decls.drop_last()) + func_mints(decls.last())
    }
}

/// The number of labels and temporaries that a labelled translation unit
/// gets: one for each loop, and one for each name that lowering mints.
pub open spec fn program_names(p: ProgramView) -> nat {
    funcs_loops(p.func_decls) + funcs_mints(p.func_decls)
}

/// Every label of the function is defined once.
pub open spec fn defines_once(f: FunctionView) -> bool {
    all_different(defined_labels(f.instrs))
}

/// Every label of every function of the program is defined once.
pub open spec fn program_defines_once(t: TackyProgramView) -> bool {
    forall|k: int| 0 <= k < t.funcs.len() ==> defines_once(#[trigger] t.funcs[k])
}

/// A function lowered from a body whose loops are numbered from the place
/// `tl` on, from the place `tm` of the counter, defines every label once,
/// where the loops come before the names that lowering mints and all of
/// them are values of the counter.
pub proof fn lemma_lower_function_unique(
    name: Seq<char>,
    params: Seq<Seq<char>>,
    items: Seq<BlockItemView>,
    base: usize,
    tl: nat,
    tm: nat,
)
    requires
        items_numbered(items, base, tl),
        tl + items_loops(items) <= tm,
        tm + items_mints(items) <= usize::MAX + 1,
    ensures
        defines_once(lower_function(name, params, items, advance(base, tm)).0),
        lower_function(name, params, items, advance(base, tm)).1 == advance(
            base,
            tm + items_mints(items),
        ),
{
    let none = Seq::<InstrView>::empty();
    let instrs = lower_items(items, none, advance(base, tm)).0;
    let ks = items_keys(items, tl, tm);
    lemma_lower_items_define(items, none, base, tl, tm);
    lemma_defined_push(instrs, InstrView::Return(ValView::Integer(0)));
    assert(defined_labels(none) =~= Seq::<Seq<char>>::empty()) by {
        reveal(defined_labels);
    }
    assert(defined_labels(none) + render_all(ks, base) =~= render_all(ks, base));
    lemma_items_keys_tidy(items, tl, tm);
    lemma_tidy_labels_different(
        ks,
        (tl, tl + items_loops(items), tm, tm + items_mints(items)),
        base,
    );
}

/// The functions lowered from declarations whose loops are numbered in a
/// row define every label once.
pub proof fn lemma_lower_funcs_unique(decls: Seq<FuncDeclView>, base: usize, tl: nat, tm: nat)
    requires
        funcs_numbered(decls, base, tl),
        tl + funcs_loops(decls) <= tm,
        tm + funcs_mints(decls) <= usize::MAX + 1,
    ensures
        forall|k: int|
            0 <= k < lower_funcs(decls, advance(base, tm)).0.len() ==> defines_once(
                #[trigger] lower_funcs(decls, advance(base, tm)).0[k],
            ),
        lower_funcs(decls, advance(base, tm)).1 == advance(base, tm + funcs_mints(decls)),
    decreases decls.len(),
{
    if decls.len() > 0 {
        let front = decls.drop_last();
        let d = decls.last();
        lemma_lower_funcs_unique(front, base, tl, tm);
        let (funcs, c1) = lower_funcs(front, advance(base, tm));
        let tl1 = tl + funcs_loops(front);
        let tm1 = tm + funcs_mints(front);
        assert(c1 == advance(base, tm1));
        assert(func_numbered(d, base, tl1));
        let all = lower_funcs(decls, advance(base, tm)).0;
        match d.body {
            Some(b) => {
                lemma_lower_function_unique(d.name, d.params, b.items, base, tl1, tm1);
                let f = lower_function(d.name, d.params, b.items, c1).0;
                assert(all == funcs.push(f));
                assert forall|k: int| 0 <= k < all.len() implies defines_once(
                    #[trigger] all[k],
                ) by {
                    if k < funcs.len() {
                        assert(all[k] == funcs[k]);
                    }
                }
            },
            None => {
                assert(all == funcs);
            },
        }
    }
}

/// Every label of a program lowered from a labelled translation unit is
/// defined once in its function, as long as the loops of the unit and the
/// names that lowering mints are no more than the counter has values.
pub proof fn lemma_lower_labelled_unique(p: ProgramView, c: usize)
    requires
        label(p, c) is Ok,
        program_names(label(p, c)->Ok_0.0) <= usize::MAX,
    ensures
        program_defines_once(lower_program(label(p, c)->Ok_0.0, label(p, c)->Ok_0.1).0),
{
    lemma_advance_one(c);
    lemma_label_funcs_number(p.func_decls, c, 0);
    let (labelled, c1) = label(p, c)->Ok_0;
    let loops = funcs_loops(labelled.func_decls);
    assert(c1 == advance(c, loops));
    lemma_lower_funcs_unique(labelled.func_decls, c, 0, loops);
}

} // verus!
