//! Lowering keeps the value of an expression that changes nothing: the
//! instructions that it appends leave that value in the value that it gives
//! back, and change nothing but the temporaries that it mints.

use vstd::prelude::*;
use crate::name_generator::{next_counter, numbered, tmp_name, lemma_numbered_injective};
use crate::renaming::advance;
use crate::parser::ast::{ExprView, UnaryOp, BinaryOp};
use crate::tacky::tacky::{InstrView, ValView};
use crate::tacky::lowering::{ir_unary_op, ir_binary_op, tmp, lower_expr};
use crate::tacky::unique::{expr_mints, lemma_lower_expr_defines};
use crate::validator::fresh::lemma_advance_injective;
use crate::semantics::values::lemma_wrap32_same;
use crate::semantics::source::{
    Env, eval, pure, mentions, unary_value, binary_value, lemma_eval_reads,
};
use crate::semantics::ir::{
    Outcome, value, unary_result, binary_result, run_from, lemma_run_push,
};
use crate::semantics::selection::{calm, all_calm};

verus! {

/// The name is one of the temporaries that the counter gives at the places
/// from `a` up to `b`.
pub open spec fn minted_in(name: Seq<char>, base: usize, a: nat, b: nat) -> bool {
    exists|j: nat| a <= j < b && name == #[trigger] tmp_name(advance(base, j))
}

/// The expression reads none of the temporaries of the places from `a` up
/// to `b`.
pub open spec fn fresh(e: ExprView, base: usize, a: nat, b: nat) -> bool {
    forall|name: Seq<char>| mentions(e, name) ==> !#[trigger] minted_in(name, base, a, b)
}

/// The two environments differ at most in the temporaries of the places
/// from `a` up to `b`.
pub open spec fn same_but(x: Env, y: Env, base: usize, a: nat, b: nat) -> bool {
    forall|name: Seq<char>| !#[trigger] minted_in(name, base, a, b) ==> y[name] == x[name]
}

/// The value is a constant, a variable that the expression reads, or one of
/// the temporaries of the places from `a` up to `b`.
pub open spec fn settled(v: ValView, e: ExprView, base: usize, a: nat, b: nat) -> bool {
    match v {
        ValView::Integer(_) => true,
        ValView::Var(name) => mentions(e, name) || minted_in(name, base, a, b),
    }
}

/// The label is none that the counter numbers at the places from `a` up to
/// `b`.
pub open spec fn foreign(label: Seq<char>, base: usize, a: nat, b: nat) -> bool {
    forall|prefix: Seq<char>, j: nat|
        a <= j < b ==> label != #[trigger] numbered(prefix, advance(base, j))
}

/// A temporary of a stretch of places is one of a wider stretch.
pub proof fn lemma_minted_wider(name: Seq<char>, base: usize, a: nat, b: nat, lo: nat, hi: nat)
    requires
        minted_in(name, base, a, b),
        lo <= a,
        b <= hi,
    ensures
        minted_in(name, base, lo, hi),
{
    let j = choose|j: nat| a <= j < b && name == #[trigger] tmp_name(advance(base, j));
    assert(lo <= j < hi && name == tmp_name(advance(base, j)));
}

/// The temporary of a place is one of every stretch that holds the place.
pub proof fn lemma_minted_here(base: usize, j: nat, a: nat, b: nat)
    requires
        a <= j < b,
    ensures
        minted_in(tmp_name(advance(base, j)), base, a, b),
{
}

/// No temporary belongs to two stretches that follow each other, as long as
/// the places are values of the counter.
pub proof fn lemma_minted_apart(name: Seq<char>, base: usize, a: nat, b: nat, c: nat)
    requires
        a <= b <= c <= usize::MAX + 1,
        minted_in(name, base, a, b),
    ensures
        !minted_in(name, base, b, c),
{
    if minted_in(name, base, b, c) {
        let i = choose|j: nat| a <= j < b && name == #[trigger] tmp_name(advance(base, j));
        let j = choose|j: nat| b <= j < c && name == #[trigger] tmp_name(advance(base, j));
        lemma_numbered_injective("tmp"@, advance(base, i), "tmp"@, advance(base, j));
        lemma_advance_injective(base, i, j);
    }
}

/// A name that the counter numbers at a place outside a stretch is none of
/// the stretch, as long as the places are values of the counter.
pub proof fn lemma_foreign_place(prefix: Seq<char>, base: usize, i: nat, a: nat, b: nat)
    requires
        i < a || b <= i,
        i <= usize::MAX,
        b <= usize::MAX + 1,
    ensures
        foreign(numbered(prefix, advance(base, i)), base, a, b),
{
    assert forall|p: Seq<char>, j: nat| a <= j < b implies numbered(prefix, advance(base, i))
        != #[trigger] numbered(p, advance(base, j)) by {
        if numbered(prefix, advance(base, i)) == numbered(p, advance(base, j)) {
            lemma_numbered_injective(prefix, advance(base, i), p, advance(base, j));
            lemma_advance_injective(base, i, j);
        }
    }
}

/// The operators of the intermediate representation compute what the
/// operators of the language compute.
pub proof fn lemma_operators_agree(a: i32, b: i32)
    ensures
        forall|op: UnaryOp| #[trigger] unary_result(ir_unary_op(op), a) == unary_value(op, a),
        forall|op: BinaryOp|
            op != BinaryOp::LogicalAnd && op != BinaryOp::LogicalOr ==> #[trigger] binary_result(
                ir_binary_op(op),
                a,
                b,
            ) == binary_value(op, a, b),
{
}

/// One more calm instruction keeps a list calm.
pub proof fn lemma_calm_push(s: Seq<InstrView>, i: InstrView)
    requires
        all_calm(s),
        calm(i),
    ensures
        all_calm(s.push(i)),
{
    assert forall|k: int| 0 <= k < s.push(i).len() implies calm(#[trigger] s.push(i)[k]) by {
        if k < s.len() {
            assert(s.push(i)[k] == s[k]);
        }
    }
}

/// The expression reads none of the temporaries of a stretch within a
/// stretch of which it reads none, and neither does a part of it.
pub proof fn lemma_fresh_part(
    e: ExprView,
    part: ExprView,
    base: usize,
    a: nat,
    b: nat,
    lo: nat,
    hi: nat,
)
    requires
        fresh(e, base, lo, hi),
        lo <= a,
        b <= hi,
        forall|name: Seq<char>| mentions(part, name) ==> mentions(e, name),
    ensures
        fresh(part, base, a, b),
{
    assert forall|name: Seq<char>| mentions(part, name) implies !#[trigger] minted_in(
        name,
        base,
        a,
        b,
    ) by {
        assert(mentions(e, name));
        if minted_in(name, base, a, b) {
            lemma_minted_wider(name, base, a, b, lo, hi);
        }
    }
}

/// Two environments that differ in the temporaries of a stretch differ in
/// those of a wider stretch.
pub proof fn lemma_same_but_wider(x: Env, y: Env, base: usize, a: nat, b: nat, lo: nat, hi: nat)
    requires
        same_but(x, y, base, a, b),
        lo <= a,
        b <= hi,
    ensures
        same_but(x, y, base, lo, hi),
{
    assert forall|name: Seq<char>| !#[trigger] minted_in(name, base, lo, hi) implies y[name]
        == x[name] by {
        if minted_in(name, base, a, b) {
            lemma_minted_wider(name, base, a, b, lo, hi);
        }
    }
}

/// A value that is settled for a part of an expression keeps what it holds
/// where only temporaries of a later stretch change.
pub proof fn lemma_settled_kept(
    v: ValView,
    e: ExprView,
    part: ExprView,
    base: usize,
    a: nat,
    b: nat,
    c: nat,
    lo: nat,
    hi: nat,
    x: Env,
    y: Env,
)
    requires
        settled(v, part, base, a, b),
        forall|name: Seq<char>| mentions(part, name) ==> mentions(e, name),
        fresh(e, base, lo, hi),
        lo <= a <= b <= c <= hi <= usize::MAX + 1,
        same_but(x, y, base, b, c),
    ensures
        value(v, y) == value(v, x),
{
    match v {
        ValView::Integer(_) => {},
        ValView::Var(name) => {
            if mentions(part, name) {
                assert(mentions(e, name));
                if minted_in(name, base, b, c) {
                    lemma_minted_wider(name, base, b, c, lo, hi);
                }
            } else {
                lemma_minted_apart(name, base, a, b, c);
            }
        },
    }
}

/// An expression has the same value in two environments that differ in
/// temporaries of which it reads none.
pub proof fn lemma_eval_kept(e: ExprView, base: usize, a: nat, b: nat, x: Env, y: Env)
    requires
        fresh(e, base, a, b),
        same_but(x, y, base, a, b),
    ensures
        eval(e, x) == eval(e, y),
{
    assert forall|name: Seq<char>| mentions(e, name) implies x[name] == y[name] by {
        assert(!minted_in(name, base, a, b));
    }
    lemma_eval_reads(e, x, y);
}

/// Lowering gives back a constant, a variable of the expression or one of
/// the temporaries that it mints.
pub proof fn lemma_lower_settled(e: ExprView, acc: Seq<InstrView>, base: usize, t: nat)
    requires
        pure(e),
        t + expr_mints(e) <= usize::MAX + 1,
        fresh(e, base, t, t + expr_mints(e)),
    ensures
        settled(lower_expr(e, acc, advance(base, t)).1, e, base, t, t + expr_mints(e)),
    decreases e,
{
    let c = advance(base, t);
    let m = expr_mints(e);
    match e {
        ExprView::UnaryOp(op, x) => {
            lemma_lower_expr_defines(*x, acc, base, t);
            lemma_minted_here(base, t + expr_mints(*x), t, t + m);
        },
        ExprView::BinaryOp(op, l, r) => {
            let ml = expr_mints(*l);
            let mr = expr_mints(*r);
            lemma_lower_expr_defines(*l, acc, base, t);
            let (a1, lv, c1) = lower_expr(*l, acc, c);
            assert(next_counter(c1) == advance(base, t + ml + 1));
            assert(next_counter(advance(base, t + ml + 1)) == advance(base, t + ml + 2));
            if op == BinaryOp::LogicalAnd {
                let jump = InstrView::JumpIfZero(lv, numbered("false"@, c1));
                lemma_lower_expr_defines(*r, a1.push(jump), base, t + ml + 2);
                lemma_minted_here(base, t + ml + 2 + mr, t, t + m);
            } else if op == BinaryOp::LogicalOr {
                let jump = InstrView::JumpIfNotZero(lv, numbered("true"@, c1));
                lemma_lower_expr_defines(*r, a1.push(jump), base, t + ml + 2);
                lemma_minted_here(base, t + ml + 2 + mr, t, t + m);
            } else {
                lemma_lower_expr_defines(*r, a1, base, t + ml);
                lemma_minted_here(base, t + ml + mr, t, t + m);
            }
        },
        ExprView::Conditional(_, _, _) => {
            assert(next_counter(c) == advance(base, t + 1));
            assert(next_counter(advance(base, t + 1)) == advance(base, t + 2));
            lemma_minted_here(base, t + 2, t, t + m);
        },
        _ => {},
    }
}

/// Lowering an expression that changes nothing appends calm instructions.
pub proof fn lemma_lower_calm(e: ExprView, acc: Seq<InstrView>, base: usize, t: nat)
    requires
        pure(e),
        t + expr_mints(e) <= usize::MAX + 1,
        fresh(e, base, t, t + expr_mints(e)),
        all_calm(acc),
    ensures
        all_calm(lower_expr(e, acc, advance(base, t)).0),
    decreases e,
{
    let c = advance(base, t);
    let m = expr_mints(e);
    assert(next_counter(c) == advance(base, t + 1));
    assert(next_counter(advance(base, t + 1)) == advance(base, t + 2));
    assert(next_counter(advance(base, t + 2)) == advance(base, t + 3));
    match e {
        ExprView::UnaryOp(op, x) => {
            let mx = expr_mints(*x);
            lemma_fresh_part(e, *x, base, t, t + mx, t, t + m);
            lemma_lower_calm(*x, acc, base, t);
            lemma_lower_expr_defines(*x, acc, base, t);
            let (a1, src, c1) = lower_expr(*x, acc, c);
            lemma_calm_push(a1, InstrView::Unary(ir_unary_op(op), src, tmp(c1)));
            lemma_minted_here(base, t + mx, t, t + m);
        },
        ExprView::BinaryOp(op, l, r) => {
            let ml = expr_mints(*l);
            let mr = expr_mints(*r);
            lemma_fresh_part(e, *l, base, t, t + ml, t, t + m);
            lemma_lower_calm(*l, acc, base, t);
            lemma_lower_expr_defines(*l, acc, base, t);
            let (a1, lv, c1) = lower_expr(*l, acc, c);
            assert(next_counter(c1) == advance(base, t + ml + 1));
            assert(next_counter(advance(base, t + ml + 1)) == advance(base, t + ml + 2));
            if op == BinaryOp::LogicalAnd || op == BinaryOp::LogicalOr {
                let first = if op == BinaryOp::LogicalAnd {
                    "false"@
                } else {
                    "true"@
                };
                let skip = numbered(first, c1);
                let end = numbered("end"@, next_counter(c1));
                let jump = if op == BinaryOp::LogicalAnd {
                    InstrView::JumpIfZero(lv, skip)
                } else {
                    InstrView::JumpIfNotZero(lv, skip)
                };
                lemma_calm_push(a1, jump);
                lemma_fresh_part(e, *r, base, t + ml + 2, t + ml + 2 + mr, t, t + m);
                lemma_lower_calm(*r, a1.push(jump), base, t + ml + 2);
                lemma_lower_expr_defines(*r, a1.push(jump), base, t + ml + 2);
                let (a2, rv, c2) = lower_expr(*r, a1.push(jump), advance(base, t + ml + 2));
                let dst = tmp(c2);
                lemma_minted_here(base, t + ml + 2 + mr, t, t + m);
                if op == BinaryOp::LogicalAnd {
                    let b1 = a2.push(InstrView::JumpIfZero(rv, skip));
                    let b2 = b1.push(InstrView::Copy(ValView::Integer(1), dst));
                    let b3 = b2.push(InstrView::Jump(end));
                    let b4 = b3.push(InstrView::Label(skip));
                    let b5 = b4.push(InstrView::Copy(ValView::Integer(0), dst));
                    lemma_calm_push(a2, InstrView::JumpIfZero(rv, skip));
                    lemma_calm_push(b1, InstrView::Copy(ValView::Integer(1), dst));
                    lemma_calm_push(b2, InstrView::Jump(end));
                    lemma_calm_push(b3, InstrView::Label(skip));
                    lemma_calm_push(b4, InstrView::Copy(ValView::Integer(0), dst));
                    lemma_calm_push(b5, InstrView::Label(end));
                } else {
                    let b1 = a2.push(InstrView::JumpIfNotZero(rv, skip));
                    let b2 = b1.push(InstrView::Copy(ValView::Integer(0), dst));
                    let b3 = b2.push(InstrView::Jump(end));
                    let b4 = b3.push(InstrView::Label(skip));
                    let b5 = b4.push(InstrView::Copy(ValView::Integer(1), dst));
                    lemma_calm_push(a2, InstrView::JumpIfNotZero(rv, skip));
                    lemma_calm_push(b1, InstrView::Copy(ValView::Integer(0), dst));
                    lemma_calm_push(b2, InstrView::Jump(end));
                    lemma_calm_push(b3, InstrView::Label(skip));
                    lemma_calm_push(b4, InstrView::Copy(ValView::Integer(1), dst));
                    lemma_calm_push(b5, InstrView::Label(end));
                }
            } else {
                lemma_fresh_part(e, *r, base, t + ml, t + ml + mr, t, t + m);
                lemma_lower_calm(*r, a1, base, t + ml);
                lemma_lower_settled(*r, a1, base, t + ml);
                lemma_lower_expr_defines(*r, a1, base, t + ml);
                let (a2, rv, c2) = lower_expr(*r, a1, c1);
                lemma_minted_here(base, t + ml + mr, t, t + m);
                lemma_minted_here(base, t + ml + mr, t + ml + mr, t + m);
                assert(rv != tmp(c2)) by {
                    match rv {
                        ValView::Integer(_) => {},
                        ValView::Var(name) => {
                            if mentions(*r, name) {
                                assert(mentions(e, name));
                            } else {
                                lemma_minted_apart(name, base, t + ml, t + ml + mr, t + m);
                            }
                        },
                    }
                }
                lemma_calm_push(a2, InstrView::Binary(ir_binary_op(op), lv, rv, tmp(c2)));
            }
        },
        ExprView::Conditional(cond, y, n) => {
            let mc = expr_mints(*cond);
            let my = expr_mints(*y);
            let mn = expr_mints(*n);
            let e2 = numbered("e2"@, c);
            let end = numbered("end"@, next_counter(c));
            let dst = tmp(advance(base, t + 2));
            lemma_fresh_part(e, *cond, base, t + 3, t + 3 + mc, t, t + m);
            lemma_fresh_part(e, *y, base, t + 3 + mc, t + 3 + mc + my, t, t + m);
            lemma_fresh_part(e, *n, base, t + 3 + mc + my, t + 3 + mc + my + mn, t, t + m);
            lemma_lower_calm(*cond, acc, base, t + 3);
            lemma_lower_expr_defines(*cond, acc, base, t + 3);
            let (a1, cv, c1) = lower_expr(*cond, acc, advance(base, t + 3));
            let b1 = a1.push(InstrView::JumpIfZero(cv, e2));
            lemma_calm_push(a1, InstrView::JumpIfZero(cv, e2));
            lemma_lower_calm(*y, b1, base, t + 3 + mc);
            lemma_lower_expr_defines(*y, b1, base, t + 3 + mc);
            let (a2, tv, c2) = lower_expr(*y, b1, c1);
            let b2 = a2.push(InstrView::Copy(tv, dst));
            let b3 = b2.push(InstrView::Jump(end));
            let b4 = b3.push(InstrView::Label(e2));
            lemma_calm_push(a2, InstrView::Copy(tv, dst));
            lemma_calm_push(b2, InstrView::Jump(end));
            lemma_calm_push(b3, InstrView::Label(e2));
            lemma_lower_calm(*n, b4, base, t + 3 + mc + my);
            let (a3, fv, c3) = lower_expr(*n, b4, c2);
            let b5 = a3.push(InstrView::Copy(fv, dst));
            lemma_calm_push(a3, InstrView::Copy(fv, dst));
            lemma_calm_push(b5, InstrView::Label(end));
            lemma_minted_here(base, t + 2, t, t + m);
        },
        _ => {},
    }
}

/// The run does not go on: it has ended, or it jumped to a label that is
/// none that the counter numbers at the places from `a` up to `b`.
pub open spec fn elsewhere(o: Outcome<Env>, base: usize, a: nat, b: nat) -> bool {
    match o {
        Outcome::Goes(_) => false,
        Outcome::Seeks(_, label) => foreign(label, base, a, b),
        _ => true,
    }
}

/// A run that has ended, or that jumped to a label that lowering does not
/// number, passes the instructions that lowering an expression appends.
pub proof fn lemma_lower_passes(
    e: ExprView,
    acc: Seq<InstrView>,
    base: usize,
    t: nat,
    from: Outcome<Env>,
    o: Outcome<Env>,
)
    requires
        pure(e),
        elsewhere(o, base, t, t + expr_mints(e)),
        run_from(from, acc) == o,
    ensures
        run_from(from, lower_expr(e, acc, advance(base, t)).0) == o,
    decreases e,
{
    let c = advance(base, t);
    let m = expr_mints(e);
    assert(next_counter(c) == advance(base, t + 1));
    assert(next_counter(advance(base, t + 1)) == advance(base, t + 2));
    assert(next_counter(advance(base, t + 2)) == advance(base, t + 3));
    match e {
        ExprView::UnaryOp(op, x) => {
            lemma_lower_passes(*x, acc, base, t, from, o);
            let (a1, src, c1) = lower_expr(*x, acc, c);
            lemma_run_push(from, a1, InstrView::Unary(ir_unary_op(op), src, tmp(c1)));
        },
        ExprView::BinaryOp(op, l, r) => {
            let ml = expr_mints(*l);
            let mr = expr_mints(*r);
            lemma_lower_passes(*l, acc, base, t, from, o);
            lemma_lower_expr_defines(*l, acc, base, t);
            let (a1, lv, c1) = lower_expr(*l, acc, c);
            assert(next_counter(c1) == advance(base, t + ml + 1));
            assert(next_counter(advance(base, t + ml + 1)) == advance(base, t + ml + 2));
            if op == BinaryOp::LogicalAnd || op == BinaryOp::LogicalOr {
                let first = if op == BinaryOp::LogicalAnd {
                    "false"@
                } else {
                    "true"@
                };
                let skip = numbered(first, c1);
                let end = numbered("end"@, next_counter(c1));
                assert(o matches Outcome::Seeks(_, label) ==> skip != label && end != label);
                let jump = if op == BinaryOp::LogicalAnd {
                    InstrView::JumpIfZero(lv, skip)
                } else {
                    InstrView::JumpIfNotZero(lv, skip)
                };
                lemma_run_push(from, a1, jump);
                lemma_lower_passes(*r, a1.push(jump), base, t + ml + 2, from, o);
                let (a2, rv, c2) = lower_expr(*r, a1.push(jump), advance(base, t + ml + 2));
                let dst = tmp(c2);
                if op == BinaryOp::LogicalAnd {
                    let b1 = a2.push(InstrView::JumpIfZero(rv, skip));
                    let b2 = b1.push(InstrView::Copy(ValView::Integer(1), dst));
                    let b3 = b2.push(InstrView::Jump(end));
                    let b4 = b3.push(InstrView::Label(skip));
                    let b5 = b4.push(InstrView::Copy(ValView::Integer(0), dst));
                    lemma_run_push(from, a2, InstrView::JumpIfZero(rv, skip));
                    lemma_run_push(from, b1, InstrView::Copy(ValView::Integer(1), dst));
                    lemma_run_push(from, b2, InstrView::Jump(end));
                    lemma_run_push(from, b3, InstrView::Label(skip));
                    lemma_run_push(from, b4, InstrView::Copy(ValView::Integer(0), dst));
                    lemma_run_push(from, b5, InstrView::Label(end));
                } else {
                    let b1 = a2.push(InstrView::JumpIfNotZero(rv, skip));
                    let b2 = b1.push(InstrView::Copy(ValView::Integer(0), dst));
                    let b3 = b2.push(InstrView::Jump(end));
                    let b4 = b3.push(InstrView::Label(skip));
                    let b5 = b4.push(InstrView::Copy(ValView::Integer(1), dst));
                    lemma_run_push(from, a2, InstrView::JumpIfNotZero(rv, skip));
                    lemma_run_push(from, b1, InstrView::Copy(ValView::Integer(0), dst));
                    lemma_run_push(from, b2, InstrView::Jump(end));
                    lemma_run_push(from, b3, InstrView::Label(skip));
                    lemma_run_push(from, b4, InstrView::Copy(ValView::Integer(1), dst));
                    lemma_run_push(from, b5, InstrView::Label(end));
                }
            } else {
                lemma_lower_passes(*r, a1, base, t + ml, from, o);
                let (a2, rv, c2) = lower_expr(*r, a1, c1);
                lemma_run_push(from, a2, InstrView::Binary(ir_binary_op(op), lv, rv, tmp(c2)));
            }
        },
        ExprView::Conditional(cond, y, n) => {
            let mc = expr_mints(*cond);
            let my = expr_mints(*y);
            let e2 = numbered("e2"@, c);
            let end = numbered("end"@, next_counter(c));
            assert(o matches Outcome::Seeks(_, label) ==> e2 != label && end != label);
            let dst = tmp(advance(base, t + 2));
            lemma_lower_passes(*cond, acc, base, t + 3, from, o);
            lemma_lower_expr_defines(*cond, acc, base, t + 3);
            let (a1, cv, c1) = lower_expr(*cond, acc, advance(base, t + 3));
            let b1 = a1.push(InstrView::JumpIfZero(cv, e2));
            lemma_run_push(from, a1, InstrView::JumpIfZero(cv, e2));
            lemma_lower_passes(*y, b1, base, t + 3 + mc, from, o);
            lemma_lower_expr_defines(*y, b1, base, t + 3 + mc);
            let (a2, tv, c2) = lower_expr(*y, b1, c1);
            let b2 = a2.push(InstrView::Copy(tv, dst));
            let b3 = b2.push(InstrView::Jump(end));
            let b4 = b3.push(InstrView::Label(e2));
            lemma_run_push(from, a2, InstrView::Copy(tv, dst));
            lemma_run_push(from, b2, InstrView::Jump(end));
            lemma_run_push(from, b3, InstrView::Label(e2));
            lemma_lower_passes(*n, b4, base, t + 3 + mc + my, from, o);
            let (a3, fv, c3) = lower_expr(*n, b4, c2);
            let b5 = a3.push(InstrView::Copy(fv, dst));
            lemma_run_push(from, a3, InstrView::Copy(fv, dst));
            lemma_run_push(from, b5, InstrView::Label(end));
        },
        _ => {},
    }
}

/// The instructions before an expression ran through, the expression
/// changes nothing and has a value, it reads none of the temporaries that
/// lowering mints, and their places are values of the counter.
pub open spec fn ready(
    e: ExprView,
    acc: Seq<InstrView>,
    base: usize,
    t: nat,
    from: Outcome<Env>,
    env1: Env,
) -> bool {
    &&& pure(e)
    &&& t + expr_mints(e) <= usize::MAX + 1
    &&& fresh(e, base, t, t + expr_mints(e))
    &&& run_from(from, acc) == Outcome::Goes(env1)
    &&& eval(e, env1) is Some
}

/// The instructions with those of the expression run through, leave the
/// value of the expression in the value that lowering gives back, and
/// change nothing but the temporaries that lowering mints.
pub open spec fn keeps(
    e: ExprView,
    acc: Seq<InstrView>,
    base: usize,
    t: nat,
    from: Outcome<Env>,
    env1: Env,
) -> bool {
    let (out, v, _) = lower_expr(e, acc, advance(base, t));
    &&& run_from(from, out) is Goes
    &&& value(v, run_from(from, out)->Goes_0) == eval(e, env1)->0
    &&& same_but(env1, run_from(from, out)->Goes_0, base, t, t + expr_mints(e))
}

/// Lowering keeps the value of an expression that changes nothing.
pub proof fn lemma_lower_pure(
    e: ExprView,
    acc: Seq<InstrView>,
    base: usize,
    t: nat,
    from: Outcome<Env>,
    env1: Env,
)
    requires
        ready(e, acc, base, t, from, env1),
    ensures
        keeps(e, acc, base, t, from, env1),
    decreases e, 1nat,
{
    match e {
        ExprView::UnaryOp(_, _) => {
            lemma_lower_unary(e, acc, base, t, from, env1);
        },
        ExprView::BinaryOp(op, _, _) => {
            if op == BinaryOp::LogicalAnd || op == BinaryOp::LogicalOr {
                lemma_lower_logical(e, acc, base, t, from, env1);
            } else {
                lemma_lower_binary(e, acc, base, t, from, env1);
            }
        },
        ExprView::Conditional(_, _, _) => {
            lemma_lower_conditional(e, acc, base, t, from, env1);
        },
        _ => {},
    }
}

/// Lowering keeps the value of a unary operation.
pub proof fn lemma_lower_unary(
    e: ExprView,
    acc: Seq<InstrView>,
    base: usize,
    t: nat,
    from: Outcome<Env>,
    env1: Env,
)
    requires
        ready(e, acc, base, t, from, env1),
        e is UnaryOp,
    ensures
        keeps(e, acc, base, t, from, env1),
    decreases e, 0nat,
{
    let c = advance(base, t);
    let m = expr_mints(e);
    match e {
        ExprView::UnaryOp(op, x) => {
            let mx = expr_mints(*x);
            lemma_fresh_part(e, *x, base, t, t + mx, t, t + m);
            lemma_lower_pure(*x, acc, base, t, from, env1);
            lemma_lower_expr_defines(*x, acc, base, t);
            let (a1, src, c1) = lower_expr(*x, acc, c);
            let envx = run_from(from, a1)->Goes_0;
            let a = eval(*x, env1)->0;
            lemma_operators_agree(a, a);
            let i = InstrView::Unary(ir_unary_op(op), src, tmp(c1));
            lemma_run_push(from, a1, i);
            let env2 = envx.insert(tmp_name(c1), unary_value(op, a));
            assert(run_from(from, a1.push(i)) == Outcome::Goes(env2));
            lemma_minted_here(base, t + mx, t, t + m);
            lemma_same_but_wider(env1, envx, base, t, t + mx, t, t + m);
        },
        _ => {},
    }
}

/// Lowering keeps the value of a binary operation that evaluates both
/// operands.
pub proof fn lemma_lower_binary(
    e: ExprView,
    acc: Seq<InstrView>,
    base: usize,
    t: nat,
    from: Outcome<Env>,
    env1: Env,
)
    requires
        ready(e, acc, base, t, from, env1),
        e matches ExprView::BinaryOp(op, _, _) && op != BinaryOp::LogicalAnd && op
            != BinaryOp::LogicalOr,
    ensures
        keeps(e, acc, base, t, from, env1),
    decreases e, 0nat,
{
    let c = advance(base, t);
    let m = expr_mints(e);
    match e {
        ExprView::BinaryOp(op, l, r) => {
            let ml = expr_mints(*l);
            let mr = expr_mints(*r);
            lemma_fresh_part(e, *l, base, t, t + ml, t, t + m);
            lemma_fresh_part(e, *r, base, t + ml, t + ml + mr, t, t + m);
            lemma_fresh_part(e, *r, base, t, t + ml, t, t + m);
            lemma_lower_pure(*l, acc, base, t, from, env1);
            lemma_lower_expr_defines(*l, acc, base, t);
            lemma_lower_settled(*l, acc, base, t);
            let (a1, lv, c1) = lower_expr(*l, acc, c);
            let envl = run_from(from, a1)->Goes_0;
            let a = eval(*l, env1)->0;
            lemma_eval_kept(*r, base, t, t + ml, env1, envl);
            lemma_lower_pure(*r, a1, base, t + ml, from, envl);
            lemma_lower_expr_defines(*r, a1, base, t + ml);
            let (a2, rv, c2) = lower_expr(*r, a1, c1);
            let envr = run_from(from, a2)->Goes_0;
            let b = eval(*r, env1)->0;
            lemma_settled_kept(lv, e, *l, base, t, t + ml, t + ml + mr, t, t + m, envl, envr);
            lemma_operators_agree(a, b);
            let x = binary_value(op, a, b)->0;
            let i = InstrView::Binary(ir_binary_op(op), lv, rv, tmp(c2));
            lemma_run_push(from, a2, i);
            let env2 = envr.insert(tmp_name(c2), x);
            assert(run_from(from, a2.push(i)) == Outcome::Goes(env2));
            lemma_minted_here(base, t + ml + mr, t, t + m);
            lemma_same_but_wider(env1, envl, base, t, t + ml, t, t + m);
            lemma_same_but_wider(envl, envr, base, t + ml, t + ml + mr, t, t + m);
        },
        _ => {},
    }
}

/// Lowering keeps the value of `&&` and of `||`: the right operand runs
/// only where the left one does not decide.
pub proof fn lemma_lower_logical(
    e: ExprView,
    acc: Seq<InstrView>,
    base: usize,
    t: nat,
    from: Outcome<Env>,
    env1: Env,
)
    requires
        ready(e, acc, base, t, from, env1),
        e matches ExprView::BinaryOp(op, _, _) && (op == BinaryOp::LogicalAnd || op
            == BinaryOp::LogicalOr),
    ensures
        keeps(e, acc, base, t, from, env1),
    decreases e, 0nat,
{
    let c = advance(base, t);
    let m = expr_mints(e);
    lemma_wrap32_same(0);
    lemma_wrap32_same(1);
    match e {
        ExprView::BinaryOp(op, l, r) => {
            let ml = expr_mints(*l);
            let mr = expr_mints(*r);
            let and = op == BinaryOp::LogicalAnd;
            lemma_fresh_part(e, *l, base, t, t + ml, t, t + m);
            lemma_fresh_part(e, *r, base, t + ml + 2, t + ml + 2 + mr, t, t + m);
            lemma_fresh_part(e, *r, base, t, t + ml, t, t + m);
            lemma_lower_pure(*l, acc, base, t, from, env1);
            lemma_lower_expr_defines(*l, acc, base, t);
            let (a1, lv, c1) = lower_expr(*l, acc, c);
            let envl = run_from(from, a1)->Goes_0;
            let a = eval(*l, env1)->0;
            assert(next_counter(c1) == advance(base, t + ml + 1));
            assert(next_counter(advance(base, t + ml + 1)) == advance(base, t + ml + 2));
            let first = if and {
                "false"@
            } else {
                "true"@
            };
            let skip = numbered(first, c1);
            let end = numbered("end"@, next_counter(c1));
            assert(skip != end) by {
                if skip == end {
                    lemma_numbered_injective(first, c1, "end"@, next_counter(c1));
                }
            }
            let jump = if and {
                InstrView::JumpIfZero(lv, skip)
            } else {
                InstrView::JumpIfNotZero(lv, skip)
            };
            let b0 = a1.push(jump);
            lemma_run_push(from, a1, jump);
            lemma_lower_expr_defines(*r, b0, base, t + ml + 2);
            let (a2, rv, c2) = lower_expr(*r, b0, advance(base, t + ml + 2));
            let dst = tmp(c2);
            let one = ValView::Integer(1);
            let zero = ValView::Integer(0);
            let jump2 = if and {
                InstrView::JumpIfZero(rv, skip)
            } else {
                InstrView::JumpIfNotZero(rv, skip)
            };
            let through = if and {
                one
            } else {
                zero
            };
            let skipped = if and {
                zero
            } else {
                one
            };
            let b1 = a2.push(jump2);
            let b2 = b1.push(InstrView::Copy(through, dst));
            let b3 = b2.push(InstrView::Jump(end));
            let b4 = b3.push(InstrView::Label(skip));
            let b5 = b4.push(InstrView::Copy(skipped, dst));
            let b6 = b5.push(InstrView::Label(end));
            assert(lower_expr(e, acc, c).0 == b6);
            lemma_run_push(from, a2, jump2);
            lemma_run_push(from, b1, InstrView::Copy(through, dst));
            lemma_run_push(from, b2, InstrView::Jump(end));
            lemma_run_push(from, b3, InstrView::Label(skip));
            lemma_run_push(from, b4, InstrView::Copy(skipped, dst));
            lemma_run_push(from, b5, InstrView::Label(end));
            lemma_minted_here(base, t + ml + 2 + mr, t, t + m);
            lemma_same_but_wider(env1, envl, base, t, t + ml, t, t + m);
            if (and && a == 0) || (!and && a != 0) {
                lemma_foreign_place(first, base, t + ml, t + ml + 2, t + ml + 2 + mr);
                lemma_lower_passes(*r, b0, base, t + ml + 2, from, Outcome::Seeks(envl, skip));
                assert(run_from(from, a2) == Outcome::Seeks(envl, skip));
                assert(run_from(from, b6) == Outcome::Goes(
                    envl.insert(tmp_name(c2), value(skipped, envl)),
                ));
            } else {
                lemma_eval_kept(*r, base, t, t + ml, env1, envl);
                lemma_lower_pure(*r, b0, base, t + ml + 2, from, envl);
                let envr = run_from(from, a2)->Goes_0;
                let b = eval(*r, env1)->0;
                lemma_same_but_wider(envl, envr, base, t + ml + 2, t + ml + 2 + mr, t, t + m);
                if (and && b == 0) || (!and && b != 0) {
                    assert(run_from(from, b6) == Outcome::Goes(
                        envr.insert(tmp_name(c2), value(skipped, envr)),
                    ));
                } else {
                    assert(run_from(from, b6) == Outcome::Goes(
                        envr.insert(tmp_name(c2), value(through, envr)),
                    ));
                }
            }
        },
        _ => {},
    }
}

/// Lowering keeps the value of `?:`: only the branch that the condition
/// picks runs.
pub proof fn lemma_lower_conditional(
    e: ExprView,
    acc: Seq<InstrView>,
    base: usize,
    t: nat,
    from: Outcome<Env>,
    env1: Env,
)
    requires
        ready(e, acc, base, t, from, env1),
        e is Conditional,
    ensures
        keeps(e, acc, base, t, from, env1),
    decreases e, 0nat,
{
    let c = advance(base, t);
    let m = expr_mints(e);
    assert(next_counter(c) == advance(base, t + 1));
    assert(next_counter(advance(base, t + 1)) == advance(base, t + 2));
    assert(next_counter(advance(base, t + 2)) == advance(base, t + 3));
    match e {
        ExprView::Conditional(cond, y, n) => {
            let mc = expr_mints(*cond);
            let my = expr_mints(*y);
            let mn = expr_mints(*n);
            let e2 = numbered("e2"@, c);
            let end = numbered("end"@, next_counter(c));
            let dst = tmp(advance(base, t + 2));
            let d = tmp_name(advance(base, t + 2));
            assert(e2 != end) by {
                if e2 == end {
                    lemma_numbered_injective("e2"@, c, "end"@, next_counter(c));
                }
            }
            lemma_fresh_part(e, *cond, base, t + 3, t + 3 + mc, t, t + m);
            lemma_fresh_part(e, *y, base, t + 3 + mc, t + 3 + mc + my, t, t + m);
            lemma_fresh_part(e, *y, base, t + 3, t + 3 + mc, t, t + m);
            lemma_fresh_part(e, *n, base, t + 3 + mc + my, t + 3 + mc + my + mn, t, t + m);
            lemma_fresh_part(e, *n, base, t + 3, t + 3 + mc, t, t + m);
            lemma_lower_pure(*cond, acc, base, t + 3, from, env1);
            lemma_lower_expr_defines(*cond, acc, base, t + 3);
            let (a1, cv, c1) = lower_expr(*cond, acc, advance(base, t + 3));
            let envc = run_from(from, a1)->Goes_0;
            let a = eval(*cond, env1)->0;
            let b1 = a1.push(InstrView::JumpIfZero(cv, e2));
            lemma_run_push(from, a1, InstrView::JumpIfZero(cv, e2));
            lemma_lower_expr_defines(*y, b1, base, t + 3 + mc);
            let (a2, tv, c2) = lower_expr(*y, b1, c1);
            let b2 = a2.push(InstrView::Copy(tv, dst));
            let b3 = b2.push(InstrView::Jump(end));
            let b4 = b3.push(InstrView::Label(e2));
            lemma_run_push(from, a2, InstrView::Copy(tv, dst));
            lemma_run_push(from, b2, InstrView::Jump(end));
            lemma_run_push(from, b3, InstrView::Label(e2));
            let (a3, fv, c3) = lower_expr(*n, b4, c2);
            let b5 = a3.push(InstrView::Copy(fv, dst));
            let b6 = b5.push(InstrView::Label(end));
            assert(lower_expr(e, acc, c).0 == b6);
            lemma_run_push(from, a3, InstrView::Copy(fv, dst));
            lemma_run_push(from, b5, InstrView::Label(end));
            lemma_minted_here(base, t + 2, t, t + m);
            lemma_same_but_wider(env1, envc, base, t + 3, t + 3 + mc, t, t + m);
            if a != 0 {
                lemma_eval_kept(*y, base, t + 3, t + 3 + mc, env1, envc);
                lemma_lower_pure(*y, b1, base, t + 3 + mc, from, envc);
                let envy = run_from(from, a2)->Goes_0;
                let v = eval(*y, env1)->0;
                let envd = envy.insert(d, v);
                assert(run_from(from, b4) == Outcome::Seeks(envd, end));
                lemma_foreign_place(
                    "end"@,
                    base,
                    t + 1,
                    t + 3 + mc + my,
                    t + 3 + mc + my + mn,
                );
                lemma_lower_passes(*n, b4, base, t + 3 + mc + my, from, Outcome::Seeks(envd, end));
                assert(run_from(from, b6) == Outcome::Goes(envd));
                lemma_same_but_wider(
                    envc,
                    envy,
                    base,
                    t + 3 + mc,
                    t + 3 + mc + my,
                    t,
                    t + m,
                );
            } else {
                lemma_foreign_place("e2"@, base, t, t + 3 + mc, t + 3 + mc + my);
                lemma_lower_passes(*y, b1, base, t + 3 + mc, from, Outcome::Seeks(envc, e2));
                assert(run_from(from, b4) == Outcome::Goes(envc));
                lemma_eval_kept(*n, base, t + 3, t + 3 + mc, env1, envc);
                lemma_lower_pure(*n, b4, base, t + 3 + mc + my, from, envc);
                let envn = run_from(from, a3)->Goes_0;
                let v = eval(*n, env1)->0;
                assert(run_from(from, b6) == Outcome::Goes(envn.insert(d, v)));
                lemma_same_but_wider(
                    envc,
                    envn,
                    base,
                    t + 3 + mc + my,
                    t + 3 + mc + my + mn,
                    t,
                    t + m,
                );
            }
        },
        _ => {},
    }
}

} // verus!
