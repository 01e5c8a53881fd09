//! Lowering from a later start of the name counter gives the same program
//! with every minted name advanced.

use vstd::prelude::*;
use crate::name_generator::{next_counter, numbered};
use crate::renaming::{
    advance, lemma_advance_next, shifted, lemma_shifted_prefixed, expr_shifted, exprs_shifted,
    opt_expr_shifted, var_decl_shifted, for_init_shifted, stmt_shifted, item_shifted,
    items_shifted, func_shifted, funcs_shifted, program_shifted, val_shifted, vals_shifted,
    instrs_shifted, function_shifted, tacky_shifted, lemma_push_shifted,
};
use crate::parser::ast::{
    ExprView, StmtView, BlockItemView, DeclView, VarDeclView, ForInitView, FuncDeclView,
    ProgramView, BinaryOp,
};
use crate::tacky::tacky::{InstrView, ValView};
use crate::tacky::lowering::{
    ir_unary_op, ir_binary_op, break_label, continue_label, tmp, and_tail, or_tail, lower_expr,
    lower_args, lower_opt_expr, lower_var_decl, lower_for_init, lower_for_cond, lower_stmt,
    lower_item, lower_items, lower_function, lower_funcs, lower_program,
};

verus! {

/// Names minted from counters that are `k` apart are shifted by `k`, and so
/// are the temporaries and the counters afterwards.
pub proof fn lemma_fresh(prefix: Seq<char>, c1: usize, c2: usize, k: nat)
    requires
        c2 == advance(c1, k),
    ensures
        shifted(numbered(prefix, c1), numbered(prefix, c2), k),
        val_shifted(tmp(c1), tmp(c2), k),
        next_counter(c2) == advance(next_counter(c1), k),
{
    lemma_advance_next(c1, k);
    assert(shifted(numbered("tmp"@, c1), numbered("tmp"@, c2), k));
}

/// The labels of two shifted loops are shifted.
pub proof fn lemma_loop_labels_shifted(l1: Seq<char>, l2: Seq<char>, k: nat)
    requires
        shifted(l1, l2, k),
    ensures
        shifted(break_label(l1), break_label(l2), k),
        shifted(continue_label(l1), continue_label(l2), k),
{
    lemma_shifted_prefixed("break_"@, l1, l2, k);
    lemma_shifted_prefixed("continue_"@, l1, l2, k);
}

pub proof fn lemma_and_tail_shifted(
    a1: Seq<InstrView>,
    a2: Seq<InstrView>,
    r1: ValView,
    r2: ValView,
    d1: ValView,
    d2: ValView,
    f1: Seq<char>,
    f2: Seq<char>,
    e1: Seq<char>,
    e2: Seq<char>,
    k: nat,
)
    requires
        instrs_shifted(a1, a2, k),
        val_shifted(r1, r2, k),
        val_shifted(d1, d2, k),
        shifted(f1, f2, k),
        shifted(e1, e2, k),
    ensures
        instrs_shifted(and_tail(a1, r1, d1, f1, e1), and_tail(a2, r2, d2, f2, e2), k),
        instrs_shifted(or_tail(a1, r1, d1, f1, e1), or_tail(a2, r2, d2, f2, e2), k),
{
    let one = ValView::Integer(1);
    let zero = ValView::Integer(0);
    {
        let x1 = a1.push(InstrView::JumpIfZero(r1, f1));
        let x2 = a2.push(InstrView::JumpIfZero(r2, f2));
        lemma_push_shifted(a1, a2, InstrView::JumpIfZero(r1, f1), InstrView::JumpIfZero(r2, f2), k);
        lemma_push_shifted(x1, x2, InstrView::Copy(one, d1), InstrView::Copy(one, d2), k);
        let y1 = x1.push(InstrView::Copy(one, d1));
        let y2 = x2.push(InstrView::Copy(one, d2));
        lemma_push_shifted(y1, y2, InstrView::Jump(e1), InstrView::Jump(e2), k);
        let z1 = y1.push(InstrView::Jump(e1));
        let z2 = y2.push(InstrView::Jump(e2));
        lemma_push_shifted(z1, z2, InstrView::Label(f1), InstrView::Label(f2), k);
        let u1 = z1.push(InstrView::Label(f1));
        let u2 = z2.push(InstrView::Label(f2));
        lemma_push_shifted(u1, u2, InstrView::Copy(zero, d1), InstrView::Copy(zero, d2), k);
        let v1 = u1.push(InstrView::Copy(zero, d1));
        let v2 = u2.push(InstrView::Copy(zero, d2));
        lemma_push_shifted(v1, v2, InstrView::Label(e1), InstrView::Label(e2), k);
    }
    {
        let x1 = a1.push(InstrView::JumpIfNotZero(r1, f1));
        let x2 = a2.push(InstrView::JumpIfNotZero(r2, f2));
        lemma_push_shifted(
            a1,
            a2,
            InstrView::JumpIfNotZero(r1, f1),
            InstrView::JumpIfNotZero(r2, f2),
            k,
        );
        lemma_push_shifted(x1, x2, InstrView::Copy(zero, d1), InstrView::Copy(zero, d2), k);
        let y1 = x1.push(InstrView::Copy(zero, d1));
        let y2 = x2.push(InstrView::Copy(zero, d2));
        lemma_push_shifted(y1, y2, InstrView::Jump(e1), InstrView::Jump(e2), k);
        let z1 = y1.push(InstrView::Jump(e1));
        let z2 = y2.push(InstrView::Jump(e2));
        lemma_push_shifted(z1, z2, InstrView::Label(f1), InstrView::Label(f2), k);
        let u1 = z1.push(InstrView::Label(f1));
        let u2 = z2.push(InstrView::Label(f2));
        lemma_push_shifted(u1, u2, InstrView::Copy(one, d1), InstrView::Copy(one, d2), k);
        let v1 = u1.push(InstrView::Copy(one, d1));
        let v2 = u2.push(InstrView::Copy(one, d2));
        lemma_push_shifted(v1, v2, InstrView::Label(e1), InstrView::Label(e2), k);
    }
}

/// Two shifted expressions lower to shifted instructions and shifted values.
pub proof fn lemma_lower_expr_shifted(
    e1: ExprView,
    e2: ExprView,
    a1: Seq<InstrView>,
    a2: Seq<InstrView>,
    c1: usize,
    c2: usize,
    k: nat,
)
    requires
        expr_shifted(e1, e2, k),
        instrs_shifted(a1, a2, k),
        c2 == advance(c1, k),
    ensures
        instrs_shifted(lower_expr(e1, a1, c1).0, lower_expr(e2, a2, c2).0, k),
        val_shifted(lower_expr(e1, a1, c1).1, lower_expr(e2, a2, c2).1, k),
        lower_expr(e2, a2, c2).2 == advance(lower_expr(e1, a1, c1).2, k),
    decreases e1,
{
    match (e1, e2) {
        (ExprView::UnaryOp(op, x1), ExprView::UnaryOp(_, x2)) => {
            lemma_lower_expr_shifted(*x1, *x2, a1, a2, c1, c2, k);
            let (b1, s1, d1) = lower_expr(*x1, a1, c1);
            let (b2, s2, d2) = lower_expr(*x2, a2, c2);
            lemma_fresh("tmp"@, d1, d2, k);
            lemma_push_shifted(
                b1,
                b2,
                InstrView::Unary(ir_unary_op(op), s1, tmp(d1)),
                InstrView::Unary(ir_unary_op(op), s2, tmp(d2)),
                k,
            );
        },
        (ExprView::BinaryOp(op, l1, r1), ExprView::BinaryOp(_, l2, r2)) => {
            lemma_lower_expr_shifted(*l1, *l2, a1, a2, c1, c2, k);
            let (b1, lv1, d1) = lower_expr(*l1, a1, c1);
            let (b2, lv2, d2) = lower_expr(*l2, a2, c2);
            if op == BinaryOp::LogicalAnd {
                lemma_fresh("false"@, d1, d2, k);
                lemma_fresh("end"@, next_counter(d1), next_counter(d2), k);
                let f1 = numbered("false"@, d1);
                let f2 = numbered("false"@, d2);
                let n1 = numbered("end"@, next_counter(d1));
                let n2 = numbered("end"@, next_counter(d2));
                let j1 = InstrView::JumpIfZero(lv1, f1);
                let j2 = InstrView::JumpIfZero(lv2, f2);
                lemma_push_shifted(b1, b2, j1, j2, k);
                lemma_lower_expr_shifted(
                    *r1,
                    *r2,
                    b1.push(j1),
                    b2.push(j2),
                    next_counter(next_counter(d1)),
                    next_counter(next_counter(d2)),
                    k,
                );
                let (g1, rv1, h1) = lower_expr(*r1, b1.push(j1), next_counter(next_counter(d1)));
                let (g2, rv2, h2) = lower_expr(*r2, b2.push(j2), next_counter(next_counter(d2)));
                lemma_fresh("tmp"@, h1, h2, k);
                lemma_and_tail_shifted(g1, g2, rv1, rv2, tmp(h1), tmp(h2), f1, f2, n1, n2, k);
            } else if op == BinaryOp::LogicalOr {
                lemma_fresh("true"@, d1, d2, k);
                lemma_fresh("end"@, next_counter(d1), next_counter(d2), k);
                let f1 = numbered("true"@, d1);
                let f2 = numbered("true"@, d2);
                let n1 = numbered("end"@, next_counter(d1));
                let n2 = numbered("end"@, next_counter(d2));
                let j1 = InstrView::JumpIfNotZero(lv1, f1);
                let j2 = InstrView::JumpIfNotZero(lv2, f2);
                lemma_push_shifted(b1, b2, j1, j2, k);
                lemma_lower_expr_shifted(
                    *r1,
                    *r2,
                    b1.push(j1),
                    b2.push(j2),
                    next_counter(next_counter(d1)),
                    next_counter(next_counter(d2)),
                    k,
                );
                let (g1, rv1, h1) = lower_expr(*r1, b1.push(j1), next_counter(next_counter(d1)));
                let (g2, rv2, h2) = lower_expr(*r2, b2.push(j2), next_counter(next_counter(d2)));
                lemma_fresh("tmp"@, h1, h2, k);
                lemma_and_tail_shifted(g1, g2, rv1, rv2, tmp(h1), tmp(h2), f1, f2, n1, n2, k);
            } else {
                lemma_lower_expr_shifted(*r1, *r2, b1, b2, d1, d2, k);
                let (g1, rv1, h1) = lower_expr(*r1, b1, d1);
                let (g2, rv2, h2) = lower_expr(*r2, b2, d2);
                lemma_fresh("tmp"@, h1, h2, k);
                lemma_push_shifted(
                    g1,
                    g2,
                    InstrView::Binary(ir_binary_op(op), lv1, rv1, tmp(h1)),
                    InstrView::Binary(ir_binary_op(op), lv2, rv2, tmp(h2)),
                    k,
                );
            }
        },
        (ExprView::Assignment(t1, r1, _), ExprView::Assignment(t2, r2, _)) => {
            lemma_lower_expr_shifted(*r1, *r2, a1, a2, c1, c2, k);
            let (b1, v1, d1) = lower_expr(*r1, a1, c1);
            let (b2, v2, d2) = lower_expr(*r2, a2, c2);
            assert(expr_shifted(*t1, *t2, k));
            match (*t1, *t2) {
                (ExprView::Var(n1, _), ExprView::Var(n2, _)) => {
                    lemma_push_shifted(
                        b1,
                        b2,
                        InstrView::Copy(v1, ValView::Var(n1)),
                        InstrView::Copy(v2, ValView::Var(n2)),
                        k,
                    );
                },
                _ => {},
            }
        },
        (ExprView::Conditional(x1, t1, f1), ExprView::Conditional(x2, t2, f2)) => {
            lemma_fresh("e2"@, c1, c2, k);
            lemma_fresh("end"@, next_counter(c1), next_counter(c2), k);
            lemma_fresh("tmp"@, next_counter(next_counter(c1)), next_counter(next_counter(c2)), k);
            let m1 = numbered("e2"@, c1);
            let m2 = numbered("e2"@, c2);
            let n1 = numbered("end"@, next_counter(c1));
            let n2 = numbered("end"@, next_counter(c2));
            let o1 = next_counter(next_counter(c1));
            let o2 = next_counter(next_counter(c2));
            lemma_lower_expr_shifted(*x1, *x2, a1, a2, next_counter(o1), next_counter(o2), k);
            let (b1, cv1, d1) = lower_expr(*x1, a1, next_counter(o1));
            let (b2, cv2, d2) = lower_expr(*x2, a2, next_counter(o2));
            lemma_push_shifted(
                b1,
                b2,
                InstrView::JumpIfZero(cv1, m1),
                InstrView::JumpIfZero(cv2, m2),
                k,
            );
            let pa = b1.push(InstrView::JumpIfZero(cv1, m1));
            let pb = b2.push(InstrView::JumpIfZero(cv2, m2));
            lemma_lower_expr_shifted(*t1, *t2, pa, pb, d1, d2, k);
            let (g1, tv1, h1) = lower_expr(*t1, pa, d1);
            let (g2, tv2, h2) = lower_expr(*t2, pb, d2);
            lemma_push_shifted(
                g1,
                g2,
                InstrView::Copy(tv1, tmp(o1)),
                InstrView::Copy(tv2, tmp(o2)),
                k,
            );
            let q1 = g1.push(InstrView::Copy(tv1, tmp(o1)));
            let q2 = g2.push(InstrView::Copy(tv2, tmp(o2)));
            lemma_push_shifted(q1, q2, InstrView::Jump(n1), InstrView::Jump(n2), k);
            let r1 = q1.push(InstrView::Jump(n1));
            let r2 = q2.push(InstrView::Jump(n2));
            lemma_push_shifted(r1, r2, InstrView::Label(m1), InstrView::Label(m2), k);
            let s1 = r1.push(InstrView::Label(m1));
            let s2 = r2.push(InstrView::Label(m2));
            lemma_lower_expr_shifted(*f1, *f2, s1, s2, h1, h2, k);
            let (u1, fv1, w1) = lower_expr(*f1, s1, h1);
            let (u2, fv2, w2) = lower_expr(*f2, s2, h2);
            lemma_push_shifted(
                u1,
                u2,
                InstrView::Copy(fv1, tmp(o1)),
                InstrView::Copy(fv2, tmp(o2)),
                k,
            );
            let y1 = u1.push(InstrView::Copy(fv1, tmp(o1)));
            let y2 = u2.push(InstrView::Copy(fv2, tmp(o2)));
            lemma_push_shifted(y1, y2, InstrView::Label(n1), InstrView::Label(n2), k);
        },
        (ExprView::FunctionCall(n1, x1, _), ExprView::FunctionCall(n2, x2, _)) => {
            lemma_lower_args_shifted(x1, x2, a1, a2, c1, c2, k);
            let (b1, v1, d1) = lower_args(x1, a1, c1);
            let (b2, v2, d2) = lower_args(x2, a2, c2);
            lemma_fresh("tmp"@, d1, d2, k);
            lemma_push_shifted(
                b1,
                b2,
                InstrView::FuncCall(n1, v1, tmp(d1)),
                InstrView::FuncCall(n2, v2, tmp(d2)),
                k,
            );
        },
        (ExprView::Integer(_), ExprView::Integer(_)) => {},
        (ExprView::Var(_, _), ExprView::Var(_, _)) => {},
        _ => {},
    }
}

/// Two lists of shifted expressions lower to shifted instructions and
/// shifted values.
pub proof fn lemma_lower_args_shifted(
    x1: Seq<ExprView>,
    x2: Seq<ExprView>,
    a1: Seq<InstrView>,
    a2: Seq<InstrView>,
    c1: usize,
    c2: usize,
    k: nat,
)
    requires
        exprs_shifted(x1, x2, k),
        instrs_shifted(a1, a2, k),
        c2 == advance(c1, k),
    ensures
        instrs_shifted(lower_args(x1, a1, c1).0, lower_args(x2, a2, c2).0, k),
        vals_shifted(lower_args(x1, a1, c1).1, lower_args(x2, a2, c2).1, k),
        lower_args(x2, a2, c2).2 == advance(lower_args(x1, a1, c1).2, k),
    decreases x1,
{
    if x1.len() > 0 {
        assert forall|i: int| 0 <= i < x1.drop_last().len() implies expr_shifted(
            #[trigger] x1.drop_last()[i],
            x2.drop_last()[i],
            k,
        ) by {
            assert(expr_shifted(x1[i], x2[i], k));
        }
        lemma_lower_args_shifted(x1.drop_last(), x2.drop_last(), a1, a2, c1, c2, k);
        let (b1, v1, d1) = lower_args(x1.drop_last(), a1, c1);
        let (b2, v2, d2) = lower_args(x2.drop_last(), a2, c2);
        assert(expr_shifted(x1[x1.len() - 1], x2[x1.len() - 1], k));
        lemma_lower_expr_shifted(x1.last(), x2.last(), b1, b2, d1, d2, k);
        let w1 = lower_expr(x1.last(), b1, d1).1;
        let w2 = lower_expr(x2.last(), b2, d2).1;
        assert forall|i: int| 0 <= i < v1.push(w1).len() implies val_shifted(
            #[trigger] v1.push(w1)[i],
            v2.push(w2)[i],
            k,
        ) by {
            if i < v1.len() {
                assert(val_shifted(v1[i], v2[i], k));
            }
        }
    }
}

/// Two shifted optional expressions lower to shifted instructions.
pub proof fn lemma_lower_opt_expr_shifted(
    e1: Option<ExprView>,
    e2: Option<ExprView>,
    a1: Seq<InstrView>,
    a2: Seq<InstrView>,
    c1: usize,
    c2: usize,
    k: nat,
)
    requires
        opt_expr_shifted(e1, e2, k),
        instrs_shifted(a1, a2, k),
        c2 == advance(c1, k),
    ensures
        instrs_shifted(lower_opt_expr(e1, a1, c1).0, lower_opt_expr(e2, a2, c2).0, k),
        lower_opt_expr(e2, a2, c2).1 == advance(lower_opt_expr(e1, a1, c1).1, k),
{
    match (e1, e2) {
        (Some(x1), Some(x2)) => {
            lemma_lower_expr_shifted(x1, x2, a1, a2, c1, c2, k);
        },
        _ => {},
    }
}

/// Two shifted variable declarations lower to shifted instructions.
pub proof fn lemma_lower_var_decl_shifted(
    d1: VarDeclView,
    d2: VarDeclView,
    a1: Seq<InstrView>,
    a2: Seq<InstrView>,
    c1: usize,
    c2: usize,
    k: nat,
)
    requires
        var_decl_shifted(d1, d2, k),
        instrs_shifted(a1, a2, k),
        c2 == advance(c1, k),
    ensures
        instrs_shifted(lower_var_decl(d1, a1, c1).0, lower_var_decl(d2, a2, c2).0, k),
        lower_var_decl(d2, a2, c2).1 == advance(lower_var_decl(d1, a1, c1).1, k),
{
    match (d1.init, d2.init) {
        (Some(x1), Some(x2)) => {
            lemma_lower_expr_shifted(x1, x2, a1, a2, c1, c2, k);
            let (b1, v1, _) = lower_expr(x1, a1, c1);
            let (b2, v2, _) = lower_expr(x2, a2, c2);
            lemma_push_shifted(
                b1,
                b2,
                InstrView::Copy(v1, ValView::Var(d1.name)),
                InstrView::Copy(v2, ValView::Var(d2.name)),
                k,
            );
        },
        _ => {},
    }
}

/// Two shifted first clauses of `for` headers lower to shifted instructions.
pub proof fn lemma_lower_for_init_shifted(
    i1: Option<ForInitView>,
    i2: Option<ForInitView>,
    a1: Seq<InstrView>,
    a2: Seq<InstrView>,
    c1: usize,
    c2: usize,
    k: nat,
)
    requires
        for_init_shifted(i1, i2, k),
        instrs_shifted(a1, a2, k),
        c2 == advance(c1, k),
    ensures
        instrs_shifted(lower_for_init(i1, a1, c1).0, lower_for_init(i2, a2, c2).0, k),
        lower_for_init(i2, a2, c2).1 == advance(lower_for_init(i1, a1, c1).1, k),
{
    match (i1, i2) {
        (Some(ForInitView::Decl(x1)), Some(ForInitView::Decl(x2))) => {
            lemma_lower_var_decl_shifted(x1, x2, a1, a2, c1, c2, k);
        },
        (Some(ForInitView::Expr(x1)), Some(ForInitView::Expr(x2))) => {
            lemma_lower_expr_shifted(x1, x2, a1, a2, c1, c2, k);
        },
        _ => {},
    }
}

/// Two shifted tests of `for` loops lower to shifted instructions.
pub proof fn lemma_lower_for_cond_shifted(
    e1: Option<ExprView>,
    e2: Option<ExprView>,
    l1: Seq<char>,
    l2: Seq<char>,
    a1: Seq<InstrView>,
    a2: Seq<InstrView>,
    c1: usize,
    c2: usize,
    k: nat,
)
    requires
        opt_expr_shifted(e1, e2, k),
        shifted(l1, l2, k),
        instrs_shifted(a1, a2, k),
        c2 == advance(c1, k),
    ensures
        instrs_shifted(lower_for_cond(e1, l1, a1, c1).0, lower_for_cond(e2, l2, a2, c2).0, k),
        lower_for_cond(e2, l2, a2, c2).1 == advance(lower_for_cond(e1, l1, a1, c1).1, k),
{
    lemma_loop_labels_shifted(l1, l2, k);
    match (e1, e2) {
        (Some(x1), Some(x2)) => {
            lemma_lower_expr_shifted(x1, x2, a1, a2, c1, c2, k);
            let (b1, v1, _) = lower_expr(x1, a1, c1);
            let (b2, v2, _) = lower_expr(x2, a2, c2);
            lemma_push_shifted(
                b1,
                b2,
                InstrView::JumpIfZero(v1, break_label(l1)),
                InstrView::JumpIfZero(v2, break_label(l2)),
                k,
            );
        },
        _ => {},
    }
}

/// Two shifted statements lower to shifted instructions.
pub proof fn lemma_lower_stmt_shifted(
    s1: StmtView,
    s2: StmtView,
    a1: Seq<InstrView>,
    a2: Seq<InstrView>,
    c1: usize,
    c2: usize,
    k: nat,
)
    requires
        stmt_shifted(s1, s2, k),
        instrs_shifted(a1, a2, k),
        c2 == advance(c1, k),
    ensures
        instrs_shifted(lower_stmt(s1, a1, c1).0, lower_stmt(s2, a2, c2).0, k),
        lower_stmt(s2, a2, c2).1 == advance(lower_stmt(s1, a1, c1).1, k),
    decreases s1,
{
    match (s1, s2) {
        (StmtView::Return(x1), StmtView::Return(x2)) => {
            lemma_lower_expr_shifted(x1, x2, a1, a2, c1, c2, k);
            let (b1, v1, _) = lower_expr(x1, a1, c1);
            let (b2, v2, _) = lower_expr(x2, a2, c2);
            lemma_push_shifted(b1, b2, InstrView::Return(v1), InstrView::Return(v2), k);
        },
        (StmtView::Expression(x1), StmtView::Expression(x2)) => {
            lemma_lower_expr_shifted(x1, x2, a1, a2, c1, c2, k);
        },
        (StmtView::Null, StmtView::Null) => {},
        (StmtView::If(x1, t1, e1), StmtView::If(x2, t2, e2)) => {
            lemma_fresh("end"@, c1, c2, k);
            lemma_fresh("else"@, next_counter(c1), next_counter(c2), k);
            lemma_fresh("tmp"@, next_counter(next_counter(c1)), next_counter(next_counter(c2)), k);
            let n1 = numbered("end"@, c1);
            let n2 = numbered("end"@, c2);
            let m1 = numbered("else"@, next_counter(c1));
            let m2 = numbered("else"@, next_counter(c2));
            let o1 = next_counter(next_counter(c1));
            let o2 = next_counter(next_counter(c2));
            lemma_lower_expr_shifted(x1, x2, a1, a2, o1, o2, k);
            let (b1, cv1, d1) = lower_expr(x1, a1, o1);
            let (b2, cv2, d2) = lower_expr(x2, a2, o2);
            lemma_push_shifted(
                b1,
                b2,
                InstrView::JumpIfZero(cv1, m1),
                InstrView::JumpIfZero(cv2, m2),
                k,
            );
            let pa = b1.push(InstrView::JumpIfZero(cv1, m1));
            let pb = b2.push(InstrView::JumpIfZero(cv2, m2));
            lemma_lower_stmt_shifted(*t1, *t2, pa, pb, d1, d2, k);
            let (g1, h1) = lower_stmt(*t1, pa, d1);
            let (g2, h2) = lower_stmt(*t2, pb, d2);
            lemma_push_shifted(g1, g2, InstrView::Jump(n1), InstrView::Jump(n2), k);
            let q1 = g1.push(InstrView::Jump(n1));
            let q2 = g2.push(InstrView::Jump(n2));
            lemma_push_shifted(q1, q2, InstrView::Label(m1), InstrView::Label(m2), k);
            let r1 = q1.push(InstrView::Label(m1));
            let r2 = q2.push(InstrView::Label(m2));
            match (e1, e2) {
                (Some(y1), Some(y2)) => {
                    lemma_lower_stmt_shifted(*y1, *y2, r1, r2, h1, h2, k);
                    let (u1, _) = lower_stmt(*y1, r1, h1);
                    let (u2, _) = lower_stmt(*y2, r2, h2);
                    lemma_push_shifted(u1, u2, InstrView::Label(n1), InstrView::Label(n2), k);
                },
                _ => {
                    lemma_push_shifted(r1, r2, InstrView::Label(n1), InstrView::Label(n2), k);
                },
            }
        },
        (StmtView::Compound(x1), StmtView::Compound(x2)) => {
            lemma_lower_items_shifted(x1.items, x2.items, a1, a2, c1, c2, k);
        },
        (StmtView::Break(l1, _), StmtView::Break(l2, _)) => {
            lemma_loop_labels_shifted(l1, l2, k);
            lemma_push_shifted(
                a1,
                a2,
                InstrView::Jump(break_label(l1)),
                InstrView::Jump(break_label(l2)),
                k,
            );
        },
        (StmtView::Continue(l1, _), StmtView::Continue(l2, _)) => {
            lemma_loop_labels_shifted(l1, l2, k);
            lemma_push_shifted(
                a1,
                a2,
                InstrView::Jump(continue_label(l1)),
                InstrView::Jump(continue_label(l2)),
                k,
            );
        },
        (StmtView::DoWhile(y1, x1, l1), StmtView::DoWhile(y2, x2, l2)) => {
            lemma_loop_labels_shifted(l1, l2, k);
            lemma_fresh("start"@, c1, c2, k);
            let n1 = numbered("start"@, c1);
            let n2 = numbered("start"@, c2);
            lemma_push_shifted(a1, a2, InstrView::Label(n1), InstrView::Label(n2), k);
            let pa = a1.push(InstrView::Label(n1));
            let pb = a2.push(InstrView::Label(n2));
            lemma_lower_stmt_shifted(*y1, *y2, pa, pb, next_counter(c1), next_counter(c2), k);
            let (g1, h1) = lower_stmt(*y1, pa, next_counter(c1));
            let (g2, h2) = lower_stmt(*y2, pb, next_counter(c2));
            lemma_push_shifted(
                g1,
                g2,
                InstrView::Label(continue_label(l1)),
                InstrView::Label(continue_label(l2)),
                k,
            );
            let q1 = g1.push(InstrView::Label(continue_label(l1)));
            let q2 = g2.push(InstrView::Label(continue_label(l2)));
            lemma_lower_expr_shifted(x1, x2, q1, q2, h1, h2, k);
            let (u1, v1, _) = lower_expr(x1, q1, h1);
            let (u2, v2, _) = lower_expr(x2, q2, h2);
            lemma_push_shifted(
                u1,
                u2,
                InstrView::JumpIfNotZero(v1, n1),
                InstrView::JumpIfNotZero(v2, n2),
                k,
            );
            let w1 = u1.push(InstrView::JumpIfNotZero(v1, n1));
            let w2 = u2.push(InstrView::JumpIfNotZero(v2, n2));
            lemma_push_shifted(
                w1,
                w2,
                InstrView::Label(break_label(l1)),
                InstrView::Label(break_label(l2)),
                k,
            );
        },
        (StmtView::While(x1, y1, l1), StmtView::While(x2, y2, l2)) => {
            lemma_loop_labels_shifted(l1, l2, k);
            lemma_push_shifted(
                a1,
                a2,
                InstrView::Label(continue_label(l1)),
                InstrView::Label(continue_label(l2)),
                k,
            );
            let pa = a1.push(InstrView::Label(continue_label(l1)));
            let pb = a2.push(InstrView::Label(continue_label(l2)));
            lemma_lower_expr_shifted(x1, x2, pa, pb, c1, c2, k);
            let (b1, v1, d1) = lower_expr(x1, pa, c1);
            let (b2, v2, d2) = lower_expr(x2, pb, c2);
            lemma_push_shifted(
                b1,
                b2,
                InstrView::JumpIfZero(v1, break_label(l1)),
                InstrView::JumpIfZero(v2, break_label(l2)),
                k,
            );
            let q1 = b1.push(InstrView::JumpIfZero(v1, break_label(l1)));
            let q2 = b2.push(InstrView::JumpIfZero(v2, break_label(l2)));
            lemma_lower_stmt_shifted(*y1, *y2, q1, q2, d1, d2, k);
            let (g1, _) = lower_stmt(*y1, q1, d1);
            let (g2, _) = lower_stmt(*y2, q2, d2);
            lemma_push_shifted(
                g1,
                g2,
                InstrView::Jump(continue_label(l1)),
                InstrView::Jump(continue_label(l2)),
                k,
            );
            let w1 = g1.push(InstrView::Jump(continue_label(l1)));
            let w2 = g2.push(InstrView::Jump(continue_label(l2)));
            lemma_push_shifted(
                w1,
                w2,
                InstrView::Label(break_label(l1)),
                InstrView::Label(break_label(l2)),
                k,
            );
        },
        (StmtView::For(i1, x1, z1, y1, l1), StmtView::For(i2, x2, z2, y2, l2)) => {
            lemma_loop_labels_shifted(l1, l2, k);
            lemma_fresh("start"@, c1, c2, k);
            let n1 = numbered("start"@, c1);
            let n2 = numbered("start"@, c2);
            lemma_lower_for_init_shifted(i1, i2, a1, a2, next_counter(c1), next_counter(c2), k);
            let (b1, d1) = lower_for_init(i1, a1, next_counter(c1));
            let (b2, d2) = lower_for_init(i2, a2, next_counter(c2));
            lemma_push_shifted(b1, b2, InstrView::Label(n1), InstrView::Label(n2), k);
            let pa = b1.push(InstrView::Label(n1));
            let pb = b2.push(InstrView::Label(n2));
            lemma_lower_for_cond_shifted(x1, x2, l1, l2, pa, pb, d1, d2, k);
            let (g1, h1) = lower_for_cond(x1, l1, pa, d1);
            let (g2, h2) = lower_for_cond(x2, l2, pb, d2);
            lemma_lower_stmt_shifted(*y1, *y2, g1, g2, h1, h2, k);
            let (u1, w1) = lower_stmt(*y1, g1, h1);
            let (u2, w2) = lower_stmt(*y2, g2, h2);
            lemma_push_shifted(
                u1,
                u2,
                InstrView::Label(continue_label(l1)),
                InstrView::Label(continue_label(l2)),
                k,
            );
            let q1 = u1.push(InstrView::Label(continue_label(l1)));
            let q2 = u2.push(InstrView::Label(continue_label(l2)));
            lemma_lower_opt_expr_shifted(z1, z2, q1, q2, w1, w2, k);
            let (r1, _) = lower_opt_expr(z1, q1, w1);
            let (r2, _) = lower_opt_expr(z2, q2, w2);
            lemma_push_shifted(r1, r2, InstrView::Jump(n1), InstrView::Jump(n2), k);
            let t1 = r1.push(InstrView::Jump(n1));
            let t2 = r2.push(InstrView::Jump(n2));
            lemma_push_shifted(
                t1,
                t2,
                InstrView::Label(break_label(l1)),
                InstrView::Label(break_label(l2)),
                k,
            );
        },
        _ => {},
    }
}

/// Two shifted block items lower to shifted instructions.
pub proof fn lemma_lower_item_shifted(
    i1: BlockItemView,
    i2: BlockItemView,
    a1: Seq<InstrView>,
    a2: Seq<InstrView>,
    c1: usize,
    c2: usize,
    k: nat,
)
    requires
        item_shifted(i1, i2, k),
        instrs_shifted(a1, a2, k),
        c2 == advance(c1, k),
    ensures
        instrs_shifted(lower_item(i1, a1, c1).0, lower_item(i2, a2, c2).0, k),
        lower_item(i2, a2, c2).1 == advance(lower_item(i1, a1, c1).1, k),
    decreases i1,
{
    match (i1, i2) {
        (BlockItemView::Stmt(x1), BlockItemView::Stmt(x2)) => {
            lemma_lower_stmt_shifted(x1, x2, a1, a2, c1, c2, k);
        },
        (
            BlockItemView::Decl(DeclView::VarDecl(x1)),
            BlockItemView::Decl(DeclView::VarDecl(x2)),
        ) => {
            lemma_lower_var_decl_shifted(x1, x2, a1, a2, c1, c2, k);
        },
        _ => {},
    }
}

/// Two lists of shifted block items lower to shifted instructions.
pub proof fn lemma_lower_items_shifted(
    x1: Seq<BlockItemView>,
    x2: Seq<BlockItemView>,
    a1: Seq<InstrView>,
    a2: Seq<InstrView>,
    c1: usize,
    c2: usize,
    k: nat,
)
    requires
        items_shifted(x1, x2, k),
        instrs_shifted(a1, a2, k),
        c2 == advance(c1, k),
    ensures
        instrs_shifted(lower_items(x1, a1, c1).0, lower_items(x2, a2, c2).0, k),
        lower_items(x2, a2, c2).1 == advance(lower_items(x1, a1, c1).1, k),
    decreases x1,
{
    if x1.len() > 0 {
        assert forall|i: int| 0 <= i < x1.drop_last().len() implies item_shifted(
            #[trigger] x1.drop_last()[i],
            x2.drop_last()[i],
            k,
        ) by {
            assert(item_shifted(x1[i], x2[i], k));
        }
        lemma_lower_items_shifted(x1.drop_last(), x2.drop_last(), a1, a2, c1, c2, k);
        let (b1, d1) = lower_items(x1.drop_last(), a1, c1);
        let (b2, d2) = lower_items(x2.drop_last(), a2, c2);
        assert(item_shifted(x1[x1.len() - 1], x2[x1.len() - 1], k));
        lemma_lower_item_shifted(x1.last(), x2.last(), b1, b2, d1, d2, k);
    }
}

/// Two lists of shifted function declarations lower to shifted functions.
pub proof fn lemma_lower_funcs_shifted(
    x1: Seq<FuncDeclView>,
    x2: Seq<FuncDeclView>,
    c1: usize,
    c2: usize,
    k: nat,
)
    requires
        funcs_shifted(x1, x2, k),
        c2 == advance(c1, k),
    ensures
        lower_funcs(x1, c1).0.len() == lower_funcs(x2, c2).0.len(),
        forall|i: int|
            0 <= i < lower_funcs(x1, c1).0.len() ==> function_shifted(
                #[trigger] lower_funcs(x1, c1).0[i],
                lower_funcs(x2, c2).0[i],
                k,
            ),
        lower_funcs(x2, c2).1 == advance(lower_funcs(x1, c1).1, k),
    decreases x1.len(),
{
    if x1.len() > 0 {
        assert forall|i: int| 0 <= i < x1.drop_last().len() implies func_shifted(
            #[trigger] x1.drop_last()[i],
            x2.drop_last()[i],
            k,
        ) by {
            assert(func_shifted(x1[i], x2[i], k));
        }
        lemma_lower_funcs_shifted(x1.drop_last(), x2.drop_last(), c1, c2, k);
        let (f1, d1) = lower_funcs(x1.drop_last(), c1);
        let (f2, d2) = lower_funcs(x2.drop_last(), c2);
        let y1 = x1.last();
        let y2 = x2.last();
        assert(func_shifted(x1[x1.len() - 1], x2[x1.len() - 1], k));
        match (y1.body, y2.body) {
            (Some(b1), Some(b2)) => {
                lemma_lower_items_shifted(b1.items, b2.items, Seq::empty(), Seq::empty(), d1, d2, k);
                let (g1, _) = lower_items(b1.items, Seq::empty(), d1);
                let (g2, _) = lower_items(b2.items, Seq::empty(), d2);
                lemma_push_shifted(
                    g1,
                    g2,
                    InstrView::Return(ValView::Integer(0)),
                    InstrView::Return(ValView::Integer(0)),
                    k,
                );
                let n1 = lower_function(y1.name, y1.params, b1.items, d1).0;
                let n2 = lower_function(y2.name, y2.params, b2.items, d2).0;
                assert(function_shifted(n1, n2, k));
                assert forall|i: int| 0 <= i < f1.push(n1).len() implies function_shifted(
                    #[trigger] f1.push(n1)[i],
                    f2.push(n2)[i],
                    k,
                ) by {
                    if i < f1.len() {
                        assert(function_shifted(f1[i], f2[i], k));
                    }
                }
            },
            _ => {},
        }
    }
}

/// Lowering two shifted translation units from counters that are `k` apart
/// gives two shifted programs, and counters that are `k` apart.
pub proof fn lemma_lower_program_shifted(
    pa: ProgramView,
    pb: ProgramView,
    c1: usize,
    c2: usize,
    k: nat,
)
    requires
        program_shifted(pa, pb, k),
        c2 == advance(c1, k),
    ensures
        tacky_shifted(lower_program(pa, c1).0, lower_program(pb, c2).0, k),
        lower_program(pb, c2).1 == advance(lower_program(pa, c1).1, k),
{
    lemma_lower_funcs_shifted(pa.func_decls, pb.func_decls, c1, c2, k);
    let f1 = lower_program(pa, c1).0.funcs;
    let f2 = lower_program(pb, c2).0.funcs;
    assert forall|i: int| 0 <= i < f1.len() implies function_shifted(#[trigger] f1[i], f2[i], k) by {
        assert(function_shifted(lower_funcs(pa.func_decls, c1).0[i], lower_funcs(pb.func_decls, c2).0[i], k));
    }
}

} // verus!
