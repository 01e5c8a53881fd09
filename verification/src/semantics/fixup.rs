//! The rewriting of operands keeps what a listing computes: the rewritten
//! listing does what the listing does, but for what it leaves in the
//! registers that carry values in between.

use vstd::prelude::*;
use crate::codegen::assembly::{InstructionView, OperandView, BinaryOp};
use crate::codegen::rewrite::{r10, r11, cl, fixup_instr, fixup_instrs};
use crate::semantics::values::{
    low_byte, neg32, not32, shl32, sar32, truth, lemma_low_byte, lemma_low_byte_stored,
    lemma_shift_low,
};
use crate::semantics::ir::Outcome;
use crate::semantics::machine::{
    Machine, number, load, store, store_low, holds, arithmetic, step, next, run_from,
    lemma_run_one, lemma_run_two, lemma_run_three, lemma_run_concat, lemma_run_passes,
};

verus! {

/// The register is one that the rewriting uses: `R10`, `R11` or `CX`.
pub open spec fn scratch(n: int) -> bool {
    n == 2 || n == 7 || n == 8
}

/// The two machines are the same but for the registers that the rewriting
/// uses.
pub open spec fn agree(n: Machine, k: Machine) -> bool {
    &&& k.slots == n.slots
    &&& k.vars == n.vars
    &&& k.flags == n.flags
    &&& forall|p: int| !scratch(p) ==> #[trigger] k.regs[p] == n.regs[p]
}

/// The operand is not a register that the rewriting uses.
pub open spec fn spares(o: OperandView) -> bool {
    match o {
        OperandView::Register(r) => !scratch(number(r)),
        _ => true,
    }
}

/// No operand of the instruction is a register that the rewriting uses.
pub open spec fn all_spare(i: InstructionView) -> bool {
    match i {
        InstructionView::Mov(x, y) => spares(x) && spares(y),
        InstructionView::Movb(x, y) => spares(x) && spares(y),
        InstructionView::Binary(_, x, y) => spares(x) && spares(y),
        InstructionView::Cmp(x, y) => spares(x) && spares(y),
        InstructionView::Shl(x, y) => spares(x) && spares(y),
        InstructionView::Shr(x, y) => spares(x) && spares(y),
        InstructionView::Unary(_, x) => spares(x),
        InstructionView::Idiv(x) => spares(x),
        InstructionView::SetCC(_, x) => spares(x),
        InstructionView::Push(x) => spares(x),
        _ => true,
    }
}

/// What the rewritten listing did trails what the listing did.
pub open spec fn trails(p: Outcome<Machine>, q: Outcome<Machine>) -> bool {
    match p {
        Outcome::Goes(n) => q is Goes && agree(n, q->Goes_0),
        Outcome::Seeks(n, label) => q is Seeks && agree(n, q->Seeks_0) && q->Seeks_1 == label,
        Outcome::Returns(v) => q == Outcome::<Machine>::Returns(v),
        Outcome::Stops => true,
    }
}

/// An operand that is no such register holds the same value in both
/// machines.
pub proof fn lemma_load_agree(o: OperandView, n: Machine, k: Machine)
    requires
        agree(n, k),
        spares(o),
    ensures
        load(o, k) == load(o, n),
{
}

/// A value stored in both machines leaves them the same but for those
/// registers.
pub proof fn lemma_store_agree(o: OperandView, v: i32, n: Machine, k: Machine)
    requires
        agree(n, k),
        spares(o),
    ensures
        agree(store(o, v, n), store(o, v, k)),
{
}

/// A byte stored in both machines leaves them the same but for those
/// registers.
pub proof fn lemma_store_low_agree(o: OperandView, b: int, n: Machine, k: Machine)
    requires
        agree(n, k),
        spares(o),
    ensures
        agree(store_low(o, b, n), store_low(o, b, k)),
{
}

/// An instruction that reads none of those registers does the same on both
/// machines.
pub proof fn lemma_step_agree(i: InstructionView, n: Machine, k: Machine)
    requires
        agree(n, k),
        all_spare(i),
    ensures
        trails(step(i, n), step(i, k)),
{
    match i {
        InstructionView::Mov(x, y) => {
            lemma_load_agree(x, n, k);
            lemma_store_agree(y, load(x, n), n, k);
        },
        InstructionView::Movb(x, y) => {
            lemma_load_agree(x, n, k);
            lemma_store_low_agree(y, low_byte(load(x, n)), n, k);
        },
        InstructionView::Unary(op, x) => {
            lemma_load_agree(x, n, k);
            lemma_store_agree(x, neg32(load(x, n)), n, k);
            lemma_store_agree(x, not32(load(x, n)), n, k);
        },
        InstructionView::Binary(op, x, y) => {
            lemma_load_agree(x, n, k);
            lemma_load_agree(y, n, k);
            lemma_store_agree(y, arithmetic(op, load(y, n), load(x, n)), n, k);
        },
        InstructionView::Cmp(x, y) => {
            lemma_load_agree(x, n, k);
            lemma_load_agree(y, n, k);
        },
        InstructionView::Shl(x, y) => {
            lemma_load_agree(x, n, k);
            lemma_load_agree(y, n, k);
            lemma_store_agree(y, shl32(load(y, n), load(x, n)), n, k);
        },
        InstructionView::Shr(x, y) => {
            lemma_load_agree(x, n, k);
            lemma_load_agree(y, n, k);
            lemma_store_agree(y, sar32(load(y, n), load(x, n)), n, k);
        },
        InstructionView::Idiv(x) => {
            lemma_load_agree(x, n, k);
            assert(k.regs[0] == n.regs[0]);
            assert(k.regs[1] == n.regs[1]);
        },
        InstructionView::Cdq => {
            assert(k.regs[0] == n.regs[0]);
        },
        InstructionView::SetCC(cc, x) => {
            match n.flags {
                Some((left, right)) => {
                    lemma_store_low_agree(x, truth(holds(cc, left, right)) as int, n, k);
                },
                None => {},
            }
        },
        InstructionView::Return => {
            assert(k.regs[0] == n.regs[0]);
        },
        _ => {},
    }
}

/// A move, a comparison or an arithmetic instruction between two slots does
/// the same when the first slot goes through `R10`.
pub proof fn lemma_fixup_through_r10(i: InstructionView, n: Machine, k: Machine)
    requires
        agree(n, k),
        match i {
            InstructionView::Mov(OperandView::Stack(_), OperandView::Stack(_)) => true,
            InstructionView::Cmp(OperandView::Stack(_), OperandView::Stack(_)) => true,
            InstructionView::Binary(op, OperandView::Stack(_), OperandView::Stack(_)) => op
                != BinaryOp::Mult,
            _ => false,
        },
    ensures
        trails(step(i, n), run_from(Outcome::Goes(k), fixup_instr(i))),
{
    match i {
        InstructionView::Mov(x, y) => {
            lemma_run_two(
                Outcome::Goes(k),
                InstructionView::Mov(x, r10()),
                InstructionView::Mov(r10(), y),
            );
        },
        InstructionView::Cmp(x, y) => {
            lemma_run_two(
                Outcome::Goes(k),
                InstructionView::Mov(x, r10()),
                InstructionView::Cmp(r10(), y),
            );
        },
        InstructionView::Binary(op, x, y) => {
            lemma_run_two(
                Outcome::Goes(k),
                InstructionView::Mov(x, r10()),
                InstructionView::Binary(op, r10(), y),
            );
        },
        _ => {},
    }
}

/// A division by a constant, or a comparison against a constant in second
/// place, does the same when the constant goes through `R10`.
pub proof fn lemma_fixup_constant(i: InstructionView, n: Machine, k: Machine)
    requires
        agree(n, k),
        all_spare(i),
        match i {
            InstructionView::Idiv(OperandView::Immediate(_)) => true,
            InstructionView::Cmp(_, OperandView::Immediate(_)) => true,
            _ => false,
        },
    ensures
        trails(step(i, n), run_from(Outcome::Goes(k), fixup_instr(i))),
{
    match i {
        InstructionView::Idiv(x) => {
            lemma_run_two(
                Outcome::Goes(k),
                InstructionView::Mov(x, r10()),
                InstructionView::Idiv(r10()),
            );
            assert(k.regs[0] == n.regs[0]);
            assert(k.regs[1] == n.regs[1]);
        },
        InstructionView::Cmp(x, y) => {
            lemma_run_two(
                Outcome::Goes(k),
                InstructionView::Mov(y, r10()),
                InstructionView::Cmp(x, r10()),
            );
            lemma_load_agree(x, n, k);
            let k1 = store(r10(), load(y, k), k);
            assert(load(x, k1) == load(x, k));
        },
        _ => {},
    }
}

/// A multiplication into a slot does the same when the product is made in
/// `R11`.
pub proof fn lemma_fixup_product(i: InstructionView, n: Machine, k: Machine)
    requires
        agree(n, k),
        all_spare(i),
        i matches InstructionView::Binary(BinaryOp::Mult, _, OperandView::Stack(_)),
    ensures
        trails(step(i, n), run_from(Outcome::Goes(k), fixup_instr(i))),
{
    match i {
        InstructionView::Binary(op, x, y) => {
            lemma_run_three(
                Outcome::Goes(k),
                InstructionView::Mov(y, r11()),
                InstructionView::Binary(BinaryOp::Mult, x, r11()),
                InstructionView::Mov(r11(), y),
            );
            lemma_load_agree(x, n, k);
            let k1 = store(r11(), load(y, k), k);
            assert(load(x, k1) == load(x, k));
        },
        _ => {},
    }
}

/// A shift by the count in a slot does the same when the count goes
/// through `CL`.
pub proof fn lemma_fixup_shift(i: InstructionView, n: Machine, k: Machine)
    requires
        agree(n, k),
        all_spare(i),
        match i {
            InstructionView::Shl(OperandView::Stack(_), _) => true,
            InstructionView::Shr(OperandView::Stack(_), _) => true,
            _ => false,
        },
    ensures
        trails(step(i, n), run_from(Outcome::Goes(k), fixup_instr(i))),
{
    match i {
        InstructionView::Shl(x, y) => {
            lemma_run_two(
                Outcome::Goes(k),
                InstructionView::Movb(x, cl()),
                InstructionView::Shl(cl(), y),
            );
            let b = low_byte(load(x, k));
            lemma_low_byte(load(x, k));
            let k1 = store_low(cl(), b, k);
            lemma_low_byte_stored(k.regs[2], b);
            assert(load(cl(), k1) == b as i32);
            lemma_load_agree(y, n, k);
            assert(load(y, k1) == load(y, k));
            lemma_low_byte(b as i32);
            lemma_shift_low(load(y, n), load(x, n), b as i32);
            lemma_store_agree(y, shl32(load(y, n), load(x, n)), n, k1);
        },
        InstructionView::Shr(x, y) => {
            lemma_run_two(
                Outcome::Goes(k),
                InstructionView::Movb(x, cl()),
                InstructionView::Shr(cl(), y),
            );
            let b = low_byte(load(x, k));
            lemma_low_byte(load(x, k));
            let k1 = store_low(cl(), b, k);
            lemma_low_byte_stored(k.regs[2], b);
            assert(load(cl(), k1) == b as i32);
            lemma_load_agree(y, n, k);
            assert(load(y, k1) == load(y, k));
            lemma_low_byte(b as i32);
            lemma_shift_low(load(y, n), load(x, n), b as i32);
            lemma_store_agree(y, sar32(load(y, n), load(x, n)), n, k1);
        },
        _ => {},
    }
}

/// What stands for an instruction after the rewriting does what the
/// instruction does.
pub proof fn lemma_fixup_step(i: InstructionView, n: Machine, k: Machine)
    requires
        agree(n, k),
        all_spare(i),
    ensures
        trails(step(i, n), run_from(Outcome::Goes(k), fixup_instr(i))),
{
    match i {
        InstructionView::Mov(OperandView::Stack(_), OperandView::Stack(_)) => {
            lemma_fixup_through_r10(i, n, k);
        },
        InstructionView::Idiv(OperandView::Immediate(_)) => {
            lemma_fixup_constant(i, n, k);
        },
        InstructionView::Binary(BinaryOp::Mult, _, OperandView::Stack(_)) => {
            lemma_fixup_product(i, n, k);
        },
        InstructionView::Binary(_, OperandView::Stack(_), OperandView::Stack(_)) => {
            lemma_fixup_through_r10(i, n, k);
        },
        InstructionView::Shl(OperandView::Stack(_), _) => {
            lemma_fixup_shift(i, n, k);
        },
        InstructionView::Shr(OperandView::Stack(_), _) => {
            lemma_fixup_shift(i, n, k);
        },
        InstructionView::Cmp(OperandView::Stack(_), OperandView::Stack(_)) => {
            lemma_fixup_through_r10(i, n, k);
        },
        InstructionView::Cmp(_, OperandView::Immediate(_)) => {
            lemma_fixup_constant(i, n, k);
        },
        _ => {
            assert(fixup_instr(i) == seq![i]);
            lemma_run_one(Outcome::Goes(k), i);
            lemma_step_agree(i, n, k);
        },
    }
}

/// What stands for an instruction after the rewriting holds no label,
/// unless the instruction is one.
pub proof fn lemma_fixup_no_label(i: InstructionView, label: Seq<char>)
    requires
        i != InstructionView::Label(label),
    ensures
        forall|j: int|
            0 <= j < fixup_instr(i).len() ==> #[trigger] fixup_instr(i)[j]
                != InstructionView::Label(label),
{
}

/// What stands for an instruction after the rewriting goes on as the
/// instruction does, from wherever a run came to.
pub proof fn lemma_fixup_next(p: Outcome<Machine>, q: Outcome<Machine>, i: InstructionView)
    requires
        trails(p, q),
        all_spare(i),
    ensures
        trails(next(p, i), run_from(q, fixup_instr(i))),
{
    match p {
        Outcome::Goes(n) => {
            lemma_fixup_step(i, n, q->Goes_0);
        },
        Outcome::Seeks(n, label) => {
            if i == InstructionView::Label(label) {
                assert(fixup_instr(i) == seq![i]);
                lemma_run_one(q, i);
            } else {
                lemma_fixup_no_label(i, label);
                lemma_run_passes(q, fixup_instr(i));
            }
        },
        Outcome::Returns(v) => {
            lemma_run_passes(q, fixup_instr(i));
        },
        Outcome::Stops => {},
    }
}

/// Every instruction of the list spares the registers that the rewriting
/// uses.
pub open spec fn all_spared(s: Seq<InstructionView>) -> bool {
    forall|j: int| 0 <= j < s.len() ==> all_spare(#[trigger] s[j])
}

/// The rewritten listing does what the listing does.
pub proof fn lemma_fixup_run(s: Seq<InstructionView>, p: Outcome<Machine>, q: Outcome<Machine>)
    requires
        trails(p, q),
        all_spared(s),
    ensures
        trails(run_from(p, s), run_from(q, fixup_instrs(s))),
    decreases s.len(),
{
    if s.len() > 0 {
        let front = s.drop_last();
        lemma_fixup_run(front, p, q);
        lemma_run_concat(q, fixup_instrs(front), fixup_instr(s.last()));
        assert(all_spare(s[s.len() - 1]));
        lemma_fixup_next(run_from(p, front), run_from(q, fixup_instrs(front)), s.last());
    }
}

/// The rewritten listing of two lists one after the other is the rewritten
/// listing of the first and then that of the second.
pub proof fn lemma_fixup_concat(a: Seq<InstructionView>, b: Seq<InstructionView>)
    ensures
        fixup_instrs(a + b) == fixup_instrs(a) + fixup_instrs(b),
    decreases b.len(),
{
    if b.len() == 0 {
        assert(a + b =~= a);
        assert(fixup_instrs(a) + fixup_instrs(b) =~= fixup_instrs(a));
    } else {
        lemma_fixup_concat(a, b.drop_last());
        assert((a + b).drop_last() =~= a + b.drop_last());
        assert((a + b).last() == b.last());
        assert(fixup_instrs(a) + (fixup_instrs(b.drop_last()) + fixup_instr(b.last())) =~= (
            fixup_instrs(a) + fixup_instrs(b.drop_last())) + fixup_instr(b.last()));
    }
}

/// The two machines are the same but for `R10`.
pub open spec fn agree_but_r10(n: Machine, k: Machine) -> bool {
    &&& k.slots == n.slots
    &&& k.vars == n.vars
    &&& k.flags == n.flags
    &&& forall|p: int| p != 7 ==> #[trigger] k.regs[p] == n.regs[p]
}

/// The instruction moves a slot, or a register other than `R10`, into a
/// slot: so a parameter comes to its slot.
pub open spec fn entry_move(i: InstructionView) -> bool {
    i matches InstructionView::Mov(x, y) && y is Stack && match x {
        OperandView::Register(r) => number(r) != 7,
        OperandView::Stack(_) => true,
        _ => false,
    }
}

/// The rewritten moves of the parameters do what the moves do, but for
/// what they leave in `R10`.
pub proof fn lemma_fixup_moves(s: Seq<InstructionView>, n: Machine, k: Machine)
    requires
        agree_but_r10(n, k),
        forall|j: int| 0 <= j < s.len() ==> entry_move(#[trigger] s[j]),
    ensures
        run_from(Outcome::Goes(n), s) is Goes,
        run_from(Outcome::Goes(k), fixup_instrs(s)) is Goes,
        agree_but_r10(
            run_from(Outcome::Goes(n), s)->Goes_0,
            run_from(Outcome::Goes(k), fixup_instrs(s))->Goes_0,
        ),
    decreases s.len(),
{
    if s.len() > 0 {
        let front = s.drop_last();
        assert forall|j: int| 0 <= j < front.len() implies entry_move(#[trigger] front[j]) by {
            assert(front[j] == s[j]);
        }
        lemma_fixup_moves(front, n, k);
        lemma_run_concat(Outcome::Goes(k), fixup_instrs(front), fixup_instr(s.last()));
        let n1 = run_from(Outcome::Goes(n), front)->Goes_0;
        let k1 = run_from(Outcome::Goes(k), fixup_instrs(front))->Goes_0;
        assert(entry_move(s[s.len() - 1]));
        match s.last() {
            InstructionView::Mov(x, y) => {
                match x {
                    OperandView::Stack(_) => {
                        lemma_run_two(
                            Outcome::Goes(k1),
                            InstructionView::Mov(x, r10()),
                            InstructionView::Mov(r10(), y),
                        );
                    },
                    _ => {
                        assert(fixup_instr(s.last()) == seq![s.last()]);
                        lemma_run_one(Outcome::Goes(k1), s.last());
                    },
                }
            },
            _ => {},
        }
    }
}

} // verus!
