//! The value of an expression that changes nothing: one without an
//! assignment and without a call.

use vstd::prelude::*;
use crate::parser::ast::{ExprView, UnaryOp, BinaryOp};
use crate::semantics::values::{
    wrap32, add32, sub32, mul32, neg32, not32, and32, or32, xor32, shl32, sar32, divides, div32,
    rem32, truth,
};

verus! {

/// The values of the variables.
pub type Env = Map<Seq<char>, i32>;

/// What a unary operator makes of a value.
pub open spec fn unary_value(op: UnaryOp, a: i32) -> i32 {
    match op {
        UnaryOp::Negate => neg32(a),
        UnaryOp::Complement => not32(a),
        UnaryOp::Not => truth(a == 0),
    }
}

/// What a binary operator makes of two values, where it is defined: a
/// division is not defined by zero, nor of the least integer by -1.
pub open spec fn binary_value(op: BinaryOp, a: i32, b: i32) -> Option<i32> {
    match op {
        BinaryOp::Add => Some(add32(a, b)),
        BinaryOp::Subtract => Some(sub32(a, b)),
        BinaryOp::Multiply => Some(mul32(a, b)),
        BinaryOp::Divide => if divides(a, b) {
            Some(div32(a, b))
        } else {
            None
        },
        BinaryOp::Modulus => if divides(a, b) {
            Some(rem32(a, b))
        } else {
            None
        },
        BinaryOp::BitwiseAnd => Some(and32(a, b)),
        BinaryOp::BitwiseOr => Some(or32(a, b)),
        BinaryOp::BitwiseXor => Some(xor32(a, b)),
        BinaryOp::LeftShift => Some(shl32(a, b)),
        BinaryOp::RightShift => Some(sar32(a, b)),
        BinaryOp::LogicalAnd => Some(truth(a != 0 && b != 0)),
        BinaryOp::LogicalOr => Some(truth(a != 0 || b != 0)),
        BinaryOp::Equal => Some(truth(a == b)),
        BinaryOp::NotEqual => Some(truth(a != b)),
        BinaryOp::LessThan => Some(truth(a < b)),
        BinaryOp::LessOrEqual => Some(truth(a <= b)),
        BinaryOp::GreaterThan => Some(truth(a > b)),
        BinaryOp::GreaterOrEqual => Some(truth(a >= b)),
    }
}

/// The value of an expression, where it is defined and the expression
/// changes nothing. `&&`, `||` and `?:` evaluate only the operands that they
/// need.
pub open spec fn eval(e: ExprView, env: Env) -> Option<i32>
    decreases e,
{
    match e {
        ExprView::Integer(i) => Some(wrap32(i as int)),
        ExprView::Var(name, _) => Some(env[name]),
        ExprView::UnaryOp(op, x) => match eval(*x, env) {
            Some(a) => Some(unary_value(op, a)),
            None => None,
        },
        ExprView::BinaryOp(op, l, r) => match eval(*l, env) {
            Some(a) => if op == BinaryOp::LogicalAnd && a == 0 {
                Some(0)
            } else if op == BinaryOp::LogicalOr && a != 0 {
                Some(1)
            } else {
                match eval(*r, env) {
                    Some(b) => binary_value(op, a, b),
                    None => None,
                }
            },
            None => None,
        },
        ExprView::Conditional(c, t, f) => match eval(*c, env) {
            Some(a) => if a != 0 {
                eval(*t, env)
            } else {
                eval(*f, env)
            },
            None => None,
        },
        ExprView::Assignment(_, _, _) => None,
        ExprView::FunctionCall(_, _, _) => None,
    }
}

/// The expression changes nothing: it holds no assignment and no call.
pub open spec fn pure(e: ExprView) -> bool
    decreases e,
{
    match e {
        ExprView::Integer(_) => true,
        ExprView::Var(_, _) => true,
        ExprView::UnaryOp(_, x) => pure(*x),
        ExprView::BinaryOp(_, l, r) => pure(*l) && pure(*r),
        ExprView::Conditional(c, t, f) => pure(*c) && pure(*t) && pure(*f),
        _ => false,
    }
}

/// The expression reads the variable.
pub open spec fn mentions(e: ExprView, name: Seq<char>) -> bool
    decreases e,
{
    match e {
        ExprView::Integer(_) => false,
        ExprView::Var(n, _) => n == name,
        ExprView::UnaryOp(_, x) => mentions(*x, name),
        ExprView::BinaryOp(_, l, r) => mentions(*l, name) || mentions(*r, name),
        ExprView::Assignment(l, r, _) => mentions(*l, name) || mentions(*r, name),
        ExprView::Conditional(c, t, f) => mentions(*c, name) || mentions(*t, name) || mentions(
            *f,
            name,
        ),
        ExprView::FunctionCall(_, args, _) => exists|i: int|
            0 <= i < args.len() && mentions(#[trigger] args[i], name),
    }
}

/// The value of an expression depends only on the variables that it reads.
pub proof fn lemma_eval_reads(e: ExprView, a: Env, b: Env)
    requires
        forall|name: Seq<char>| mentions(e, name) ==> a[name] == b[name],
    ensures
        eval(e, a) == eval(e, b),
    decreases e,
{
    match e {
        ExprView::UnaryOp(_, x) => {
            lemma_eval_reads(*x, a, b);
        },
        ExprView::BinaryOp(_, l, r) => {
            lemma_eval_reads(*l, a, b);
            lemma_eval_reads(*r, a, b);
        },
        ExprView::Conditional(c, t, f) => {
            lemma_eval_reads(*c, a, b);
            lemma_eval_reads(*t, a, b);
            lemma_eval_reads(*f, a, b);
        },
        _ => {},
    }
}

} // verus!
