//! Instruction selection keeps what a list of instructions computes: the
//! listing that is selected for it goes on and jumps where the list does,
//! leaves the same values in the names, and returns what the list returns.

use vstd::prelude::*;
use crate::tacky::tacky::{InstrView, ValView};
use crate::tacky::tacky::UnaryOp as IrUnaryOp;
use crate::tacky::tacky::BinaryOp as IrBinaryOp;
use crate::codegen::assembly::{InstructionView, OperandView, ConditionCode, UnaryOp, BinaryOp};
use crate::codegen::selection::{
    operand_of, eax, edx, zero, select_compare, select, select_all, param_source, param_moves,
};
use crate::semantics::values::{lemma_wrap32_same, lemma_truth_byte};
use crate::semantics::source::Env;
use crate::semantics::ir::{Outcome, value, binary_result};
use crate::semantics::ir::step as ir_step;
use crate::semantics::ir::run_from as ir_run_from;
use crate::semantics::ir::next as ir_next;
use crate::semantics::machine::{
    Machine, load, store, holds, run, run_from, lemma_run_one, lemma_run_two, lemma_run_three,
    lemma_run_four, lemma_run_concat, lemma_run_passes,
};

verus! {

/// The operation writes its result over its left operand before it reads
/// the right one, so the right operand must not be the destination.
pub open spec fn in_place(op: IrBinaryOp) -> bool {
    match op {
        IrBinaryOp::Add => true,
        IrBinaryOp::Subtract => true,
        IrBinaryOp::Multiply => true,
        IrBinaryOp::BitwiseAnd => true,
        IrBinaryOp::BitwiseOr => true,
        IrBinaryOp::BitwiseXor => true,
        IrBinaryOp::LeftShift => true,
        IrBinaryOp::RightShift => true,
        _ => false,
    }
}

/// The instruction is no call, its destination is a name, and its right
/// operand is not its destination where the operation works in place.
pub open spec fn calm(i: InstrView) -> bool {
    match i {
        InstrView::Unary(_, _, dst) => dst is Var,
        InstrView::Binary(op, _, r, dst) => dst is Var && (in_place(op) ==> r != dst),
        InstrView::Copy(_, dst) => dst is Var,
        InstrView::FuncCall(_, _, _) => false,
        _ => true,
    }
}

/// Every instruction of the list is calm.
pub open spec fn all_calm(s: Seq<InstrView>) -> bool {
    forall|k: int| 0 <= k < s.len() ==> calm(#[trigger] s[k])
}

/// What the listing did follows what the list did: where the list goes on
/// or has jumped, the listing has done the same, with the same values in the
/// names and the slots as they were in `m`; where the list returns, the
/// listing returns the same.
pub open spec fn follows(o: Outcome<Env>, p: Outcome<Machine>, m: Machine) -> bool {
    match o {
        Outcome::Goes(env) => p is Goes && p->Goes_0.vars =~= env && p->Goes_0.slots == m.slots,
        Outcome::Seeks(env, label) => p is Seeks && p->Seeks_0.vars =~= env && p->Seeks_0.slots
            == m.slots && p->Seeks_1 == label,
        Outcome::Returns(v) => p == Outcome::<Machine>::Returns(v),
        Outcome::Stops => true,
    }
}

/// The listing selected for a `Return` returns what the instruction
/// returns.
pub proof fn lemma_select_return(v: ValView, m: Machine)
    ensures
        follows(ir_step(InstrView::Return(v), m.vars), run(select(InstrView::Return(v)), m), m),
{
    lemma_run_two(
        Outcome::Goes(m),
        InstructionView::Mov(operand_of(v), eax()),
        InstructionView::Return,
    );
}

/// The listing selected for a copy copies.
pub proof fn lemma_select_copy(src: ValView, dst: ValView, m: Machine)
    ensures
        follows(
            ir_step(InstrView::Copy(src, dst), m.vars),
            run(select(InstrView::Copy(src, dst)), m),
            m,
        ),
{
    lemma_run_one(Outcome::Goes(m), InstructionView::Mov(operand_of(src), operand_of(dst)));
}

/// The listing selected for a unary operation computes it.
pub proof fn lemma_select_unary(op: IrUnaryOp, src: ValView, dst: ValView, m: Machine)
    ensures
        follows(
            ir_step(InstrView::Unary(op, src, dst), m.vars),
            run(select(InstrView::Unary(op, src, dst)), m),
            m,
        ),
{
    let s = operand_of(src);
    let d = operand_of(dst);
    match dst {
        ValView::Var(name) => {
            let a = value(src, m.vars);
            lemma_wrap32_same(0);
            match op {
                IrUnaryOp::Not => {
                    lemma_run_three(
                        Outcome::Goes(m),
                        InstructionView::Cmp(zero(), s),
                        InstructionView::Mov(zero(), d),
                        InstructionView::SetCC(ConditionCode::E, d),
                    );
                    lemma_truth_byte(a == 0);
                },
                IrUnaryOp::Negate => {
                    lemma_run_two(
                        Outcome::Goes(m),
                        InstructionView::Mov(s, d),
                        InstructionView::Unary(UnaryOp::Neg, d),
                    );
                },
                IrUnaryOp::Complement => {
                    lemma_run_two(
                        Outcome::Goes(m),
                        InstructionView::Mov(s, d),
                        InstructionView::Unary(UnaryOp::Not, d),
                    );
                },
            }
        },
        _ => {},
    }
}

/// The listing selected for an operation that works in place computes it,
/// where the right operand is not the destination.
pub proof fn lemma_select_in_place(
    op: IrBinaryOp,
    l: ValView,
    r: ValView,
    dst: ValView,
    m: Machine,
)
    requires
        in_place(op),
        r != dst,
    ensures
        follows(
            ir_step(InstrView::Binary(op, l, r, dst), m.vars),
            run(select(InstrView::Binary(op, l, r, dst)), m),
            m,
        ),
{
    let lo = operand_of(l);
    let ro = operand_of(r);
    let d = operand_of(dst);
    match dst {
        ValView::Var(name) => {
            let m1 = store(d, load(lo, m), m);
            assert(load(ro, m1) == load(ro, m));
            assert(load(d, m1) == load(lo, m));
            match op {
                IrBinaryOp::LeftShift => {
                    lemma_run_two(
                        Outcome::Goes(m),
                        InstructionView::Mov(lo, d),
                        InstructionView::Shl(ro, d),
                    );
                },
                IrBinaryOp::RightShift => {
                    lemma_run_two(
                        Outcome::Goes(m),
                        InstructionView::Mov(lo, d),
                        InstructionView::Shr(ro, d),
                    );
                },
                IrBinaryOp::Add => {
                    lemma_run_two(
                        Outcome::Goes(m),
                        InstructionView::Mov(lo, d),
                        InstructionView::Binary(BinaryOp::Add, ro, d),
                    );
                },
                IrBinaryOp::Subtract => {
                    lemma_run_two(
                        Outcome::Goes(m),
                        InstructionView::Mov(lo, d),
                        InstructionView::Binary(BinaryOp::Sub, ro, d),
                    );
                },
                IrBinaryOp::Multiply => {
                    lemma_run_two(
                        Outcome::Goes(m),
                        InstructionView::Mov(lo, d),
                        InstructionView::Binary(BinaryOp::Mult, ro, d),
                    );
                },
                IrBinaryOp::BitwiseAnd => {
                    lemma_run_two(
                        Outcome::Goes(m),
                        InstructionView::Mov(lo, d),
                        InstructionView::Binary(BinaryOp::BitwiseAnd, ro, d),
                    );
                },
                IrBinaryOp::BitwiseOr => {
                    lemma_run_two(
                        Outcome::Goes(m),
                        InstructionView::Mov(lo, d),
                        InstructionView::Binary(BinaryOp::BitwiseOr, ro, d),
                    );
                },
                _ => {
                    lemma_run_two(
                        Outcome::Goes(m),
                        InstructionView::Mov(lo, d),
                        InstructionView::Binary(BinaryOp::BitwiseXor, ro, d),
                    );
                },
            }
        },
        _ => {},
    }
}

/// The condition that a comparison of the intermediate representation
/// tests, if the operation is one.
pub open spec fn condition(op: IrBinaryOp) -> Option<ConditionCode> {
    match op {
        IrBinaryOp::Equal => Some(ConditionCode::E),
        IrBinaryOp::NotEqual => Some(ConditionCode::NE),
        IrBinaryOp::LessThan => Some(ConditionCode::L),
        IrBinaryOp::LessOrEqual => Some(ConditionCode::LE),
        IrBinaryOp::GreaterThan => Some(ConditionCode::G),
        IrBinaryOp::GreaterOrEqual => Some(ConditionCode::GE),
        _ => None,
    }
}

/// The listing selected for a comparison leaves 1 where it holds and 0
/// where it does not.
pub proof fn lemma_select_comparison(
    op: IrBinaryOp,
    l: ValView,
    r: ValView,
    dst: ValView,
    m: Machine,
)
    requires
        condition(op) is Some,
    ensures
        follows(
            ir_step(InstrView::Binary(op, l, r, dst), m.vars),
            run(select(InstrView::Binary(op, l, r, dst)), m),
            m,
        ),
{
    let lo = operand_of(l);
    let ro = operand_of(r);
    let d = operand_of(dst);
    let cc = condition(op)->0;
    lemma_wrap32_same(0);
    match dst {
        ValView::Var(name) => {
            lemma_run_three(
                Outcome::Goes(m),
                InstructionView::Cmp(ro, lo),
                InstructionView::Mov(zero(), d),
                InstructionView::SetCC(cc, d),
            );
            lemma_truth_byte(holds(cc, load(lo, m), load(ro, m)));
            assert(select(InstrView::Binary(op, l, r, dst)) == select_compare(cc, lo, ro, d));
        },
        _ => {},
    }
}

/// The listing selected for a division or a remainder computes it, where
/// the quotient exists.
pub proof fn lemma_select_division(
    op: IrBinaryOp,
    l: ValView,
    r: ValView,
    dst: ValView,
    m: Machine,
)
    requires
        op == IrBinaryOp::Divide || op == IrBinaryOp::Modulus,
    ensures
        follows(
            ir_step(InstrView::Binary(op, l, r, dst), m.vars),
            run(select(InstrView::Binary(op, l, r, dst)), m),
            m,
        ),
{
    let lo = operand_of(l);
    let ro = operand_of(r);
    let d = operand_of(dst);
    let out = if op == IrBinaryOp::Divide {
        eax()
    } else {
        edx()
    };
    match dst {
        ValView::Var(name) => {
            if binary_result(op, value(l, m.vars), value(r, m.vars)) is Some {
                lemma_run_four(
                    Outcome::Goes(m),
                    InstructionView::Mov(lo, eax()),
                    InstructionView::Cdq,
                    InstructionView::Idiv(ro),
                    InstructionView::Mov(out, d),
                );
                let m1 = store(eax(), load(lo, m), m);
                assert(load(ro, m1) == load(ro, m));
            }
        },
        _ => {},
    }
}

/// The listing selected for an instruction follows the instruction.
pub proof fn lemma_select_step(i: InstrView, m: Machine)
    requires
        calm(i),
    ensures
        follows(ir_step(i, m.vars), run(select(i), m), m),
{
    match i {
        InstrView::Return(v) => {
            lemma_select_return(v, m);
        },
        InstrView::Copy(src, dst) => {
            lemma_select_copy(src, dst, m);
        },
        InstrView::Unary(op, src, dst) => {
            lemma_select_unary(op, src, dst, m);
        },
        InstrView::Binary(op, l, r, dst) => {
            if in_place(op) {
                lemma_select_in_place(op, l, r, dst, m);
            } else if condition(op) is Some {
                lemma_select_comparison(op, l, r, dst, m);
            } else {
                lemma_select_division(op, l, r, dst, m);
            }
        },
        InstrView::Jump(label) => {
            lemma_run_one(Outcome::Goes(m), InstructionView::Jmp(label));
        },
        InstrView::JumpIfZero(v, label) => {
            lemma_wrap32_same(0);
            lemma_run_two(
                Outcome::Goes(m),
                InstructionView::Cmp(zero(), operand_of(v)),
                InstructionView::JmpCC(ConditionCode::E, label),
            );
        },
        InstrView::JumpIfNotZero(v, label) => {
            lemma_wrap32_same(0);
            lemma_run_two(
                Outcome::Goes(m),
                InstructionView::Cmp(zero(), operand_of(v)),
                InstructionView::JmpCC(ConditionCode::NE, label),
            );
        },
        InstrView::Label(label) => {
            lemma_run_one(Outcome::Goes(m), InstructionView::Label(label));
        },
        _ => {},
    }
}

/// What is selected for a calm instruction holds no label, unless the
/// instruction is one.
pub proof fn lemma_select_no_label(i: InstrView, label: Seq<char>)
    requires
        calm(i),
        i != InstrView::Label(label),
    ensures
        forall|j: int|
            0 <= j < select(i).len() ==> #[trigger] select(i)[j] != InstructionView::Label(label),
{
}

/// The listing selected for an instruction goes on as the instruction
/// does, from wherever a run came to.
pub proof fn lemma_select_next(o: Outcome<Env>, p: Outcome<Machine>, i: InstrView, m: Machine)
    requires
        follows(o, p, m),
        calm(i),
    ensures
        follows(ir_next(o, i), run_from(p, select(i)), m),
{
    match o {
        Outcome::Goes(env) => {
            let n = p->Goes_0;
            assert(n.vars == env);
            lemma_select_step(i, n);
        },
        Outcome::Seeks(env, label) => {
            if i == InstrView::Label(label) {
                lemma_run_one(p, InstructionView::Label(label));
            } else {
                lemma_select_no_label(i, label);
                lemma_run_passes(p, select(i));
            }
        },
        Outcome::Returns(v) => {
            lemma_run_passes(p, select(i));
        },
        Outcome::Stops => {},
    }
}

/// The listing selected for a list of instructions follows the list, from
/// wherever a run came to.
pub proof fn lemma_select_all_follows(
    o: Outcome<Env>,
    p: Outcome<Machine>,
    s: Seq<InstrView>,
    m: Machine,
)
    requires
        follows(o, p, m),
        all_calm(s),
    ensures
        follows(ir_run_from(o, s), run_from(p, select_all(s)), m),
    decreases s.len(),
{
    if s.len() > 0 {
        let front = s.drop_last();
        lemma_select_all_follows(o, p, front, m);
        lemma_run_concat(p, select_all(front), select(s.last()));
        assert(calm(s[s.len() - 1]));
        lemma_select_next(ir_run_from(o, front), run_from(p, select_all(front)), s.last(), m);
    }
}

/// The value of the argument at `i` when a function starts: what the
/// register or the slot of the caller's frame holds.
pub open spec fn argument(i: int, m: Machine) -> i32 {
    load(param_source(i), m)
}

/// The values of the names after the parameters got the values of the
/// arguments, in their order.
pub open spec fn bound(params: Seq<Seq<char>>, m: Machine) -> Env
    decreases params.len(),
{
    if params.len() == 0 {
        m.vars
    } else {
        bound(params.drop_last(), m).insert(params.last(), argument(params.len() - 1, m))
    }
}

/// The moves of the parameters give the parameters the values of the
/// arguments, and change nothing else.
pub proof fn lemma_param_moves_run(params: Seq<Seq<char>>, m: Machine)
    ensures
        run(param_moves(params), m) == Outcome::Goes(Machine { vars: bound(params, m), ..m }),
    decreases params.len(),
{
    if params.len() == 0 {
        assert(param_moves(params) =~= Seq::<InstructionView>::empty());
        assert(Machine { vars: bound(params, m), ..m } == m);
    } else {
        let front = params.drop_last();
        let i = params.len() - 1;
        lemma_param_moves_run(front, m);
        let last = InstructionView::Mov(param_source(i), OperandView::Pseudo(params.last()));
        assert(param_moves(params) =~= param_moves(front).push(last));
        assert(param_moves(front).push(last).drop_last() =~= param_moves(front));
    }
}

} // verus!
