//! What a list of instructions of the intermediate representation computes,
//! where it holds no call: the instructions run in their order, up to the
//! first `Return`, and a jump goes on at the next label of its name, further
//! down or, in another round over the list, from the top.

use vstd::prelude::*;
use crate::tacky::tacky::{InstrView, ValView, UnaryOp, BinaryOp};
use crate::semantics::values::{
    wrap32, add32, sub32, mul32, neg32, not32, and32, or32, xor32, shl32, sar32, divides, div32,
    rem32, truth,
};
use crate::semantics::source::Env;

verus! {

/// How far a run came: it goes on in a state, it jumped and goes on at the
/// next label of a name, it has returned a value, or it stopped at an
/// instruction that has no meaning here.
pub enum Outcome<S> {
    Goes(S),
    Seeks(S, Seq<char>),
    Returns(i32),
    Stops,
}

/// The value that a value of the representation stands for.
pub open spec fn value(v: ValView, env: Env) -> i32 {
    match v {
        ValView::Integer(i) => wrap32(i as int),
        ValView::Var(name) => env[name],
    }
}

/// What a unary operation makes of a value.
pub open spec fn unary_result(op: UnaryOp, a: i32) -> i32 {
    match op {
        UnaryOp::Negate => neg32(a),
        UnaryOp::Complement => not32(a),
        UnaryOp::Not => truth(a == 0),
    }
}

/// What a binary operation makes of two values, where it is defined.
pub open spec fn binary_result(op: BinaryOp, a: i32, b: i32) -> Option<i32> {
    match op {
        BinaryOp::Add => Some(add32(a, b)),
        BinaryOp::Subtract => Some(sub32(a, b)),
        BinaryOp::Multiply => Some(mul32(a, b)),
        BinaryOp::Divide => if divides(a, b) {
            Some(div32(a, b))
        } else {
            None
        },
        BinaryOp::Modulus => if divides(a, b) {
            Some(rem32(a, b))
        } else {
            None
        },
        BinaryOp::BitwiseAnd => Some(and32(a, b)),
        BinaryOp::BitwiseOr => Some(or32(a, b)),
        BinaryOp::BitwiseXor => Some(xor32(a, b)),
        BinaryOp::LeftShift => Some(shl32(a, b)),
        BinaryOp::RightShift => Some(sar32(a, b)),
        BinaryOp::Equal => Some(truth(a == b)),
        BinaryOp::NotEqual => Some(truth(a != b)),
        BinaryOp::LessThan => Some(truth(a < b)),
        BinaryOp::LessOrEqual => Some(truth(a <= b)),
        BinaryOp::GreaterThan => Some(truth(a > b)),
        BinaryOp::GreaterOrEqual => Some(truth(a >= b)),
    }
}

/// One instruction, run in `env`.
pub open spec fn step(i: InstrView, env: Env) -> Outcome<Env> {
    match i {
        InstrView::Return(v) => Outcome::Returns(value(v, env)),
        InstrView::Unary(op, src, ValView::Var(dst)) => Outcome::Goes(
            env.insert(dst, unary_result(op, value(src, env))),
        ),
        InstrView::Binary(op, l, r, ValView::Var(dst)) => match binary_result(
            op,
            value(l, env),
            value(r, env),
        ) {
            Some(x) => Outcome::Goes(env.insert(dst, x)),
            None => Outcome::Stops,
        },
        InstrView::Copy(src, ValView::Var(dst)) => Outcome::Goes(env.insert(dst, value(src, env))),
        InstrView::Jump(label) => Outcome::Seeks(env, label),
        InstrView::JumpIfZero(v, label) => if value(v, env) == 0 {
            Outcome::Seeks(env, label)
        } else {
            Outcome::Goes(env)
        },
        InstrView::JumpIfNotZero(v, label) => if value(v, env) != 0 {
            Outcome::Seeks(env, label)
        } else {
            Outcome::Goes(env)
        },
        InstrView::Label(_) => Outcome::Goes(env),
        _ => Outcome::Stops,
    }
}

/// How a run that came to `o` goes on over one more instruction: a run
/// that goes on runs the instruction, a run that jumped goes on at the label
/// of its name and passes everything else.
pub open spec fn next(o: Outcome<Env>, i: InstrView) -> Outcome<Env> {
    match o {
        Outcome::Goes(env) => step(i, env),
        Outcome::Seeks(env, label) => if i == InstrView::Label(label) {
            Outcome::Goes(env)
        } else {
            o
        },
        _ => o,
    }
}

/// How a run that came to `o` goes on over the instructions, in their
/// order.
pub open spec fn run_from(o: Outcome<Env>, s: Seq<InstrView>) -> Outcome<Env>
    decreases s.len(),
{
    if s.len() == 0 {
        o
    } else {
        next(run_from(o, s.drop_last()), s.last())
    }
}

/// The instructions, run in their order from `env`.
pub open spec fn run(s: Seq<InstrView>, env: Env) -> Outcome<Env> {
    run_from(Outcome::Goes(env), s)
}

/// How a run that came to `o` goes on over the instructions where jumps
/// may go backwards: a run that jumped and came to the end of the list goes
/// on at the label of its name from the top, for up to `n` more rounds over
/// the list.
pub open spec fn rounds(o: Outcome<Env>, s: Seq<InstrView>, n: nat) -> Outcome<Env>
    decreases n,
{
    let p = run_from(o, s);
    if n > 0 && p is Seeks {
        rounds(p, s, (n - 1) as nat)
    } else {
        p
    }
}

/// One more instruction runs after the others.
pub proof fn lemma_run_push(o: Outcome<Env>, s: Seq<InstrView>, i: InstrView)
    ensures
        run_from(o, s.push(i)) == next(run_from(o, s), i),
{
    assert(s.push(i).drop_last() =~= s);
}

} // verus!
