//! What an instruction listing computes, where it holds no push and no
//! call: the instructions run in their order, up to the first `Return`, and
//! a jump goes on at the next label of its name, further down or, in another
//! round over the listing, from the top. The machine has the registers of the listing at a width of
//! 32 bits, the slots of the frame, the values of the names that have no slot
//! yet, and the two values that were compared last.

use vstd::prelude::*;
use crate::codegen::assembly::{
    InstructionView, OperandView, Register, ConditionCode, UnaryOp, BinaryOp,
};
use crate::semantics::values::{
    wrap32, low_byte, with_low_byte, add32, sub32, mul32, neg32, not32, and32, or32, xor32, shl32,
    sar32, divides, div32, rem32, truth,
};
use crate::semantics::ir::Outcome;

verus! {

/// The state of the machine.
pub struct Machine {
    /// The registers, by their numbers.
    pub regs: Map<int, i32>,
    /// The values of the names that have no slot yet.
    pub vars: Map<Seq<char>, i32>,
    /// The slots, by their offsets from the frame pointer.
    pub slots: Map<int, i32>,
    /// The two values that were compared last, if no arithmetic has
    /// overwritten the flags since.
    pub flags: Option<(i32, i32)>,
}

/// The number of a register, whatever its width.
pub open spec fn number(r: Register) -> int {
    match r {
        Register::AX(_) => 0,
        Register::DX(_) => 1,
        Register::CX(_) => 2,
        Register::DI(_) => 3,
        Register::SI(_) => 4,
        Register::R8(_) => 5,
        Register::R9(_) => 6,
        Register::R10(_) => 7,
        Register::R11(_) => 8,
    }
}

/// The width in bytes at which the register is used.
pub open spec fn width(r: Register) -> usize {
    match r {
        Register::AX(w) => w,
        Register::DX(w) => w,
        Register::CX(w) => w,
        Register::DI(w) => w,
        Register::SI(w) => w,
        Register::R8(w) => w,
        Register::R9(w) => w,
        Register::R10(w) => w,
        Register::R11(w) => w,
    }
}

/// The number of `%eax`.
pub open spec fn ax() -> int {
    0
}

/// The number of `%edx`.
pub open spec fn dx() -> int {
    1
}

/// The value that an operand holds. A register of one byte holds its low
/// byte.
pub open spec fn load(o: OperandView, m: Machine) -> i32 {
    match o {
        OperandView::Immediate(i) => wrap32(i as int),
        OperandView::Register(r) => if width(r) == 1 {
            low_byte(m.regs[number(r)]) as i32
        } else {
            m.regs[number(r)]
        },
        OperandView::Pseudo(name) => m.vars[name],
        OperandView::Stack(off) => m.slots[off as int],
    }
}

/// The machine after 32 bits were stored in an operand.
pub open spec fn store(o: OperandView, v: i32, m: Machine) -> Machine {
    match o {
        OperandView::Immediate(_) => m,
        OperandView::Register(r) => Machine { regs: m.regs.insert(number(r), v), ..m },
        OperandView::Pseudo(name) => Machine { vars: m.vars.insert(name, v), ..m },
        OperandView::Stack(off) => Machine { slots: m.slots.insert(off as int, v), ..m },
    }
}

/// The machine after the byte `b` was stored in the low byte of an
/// operand.
pub open spec fn store_low(o: OperandView, b: int, m: Machine) -> Machine {
    match o {
        OperandView::Immediate(_) => m,
        OperandView::Register(r) => Machine {
            regs: m.regs.insert(number(r), with_low_byte(m.regs[number(r)], b)),
            ..m
        },
        OperandView::Pseudo(name) => Machine {
            vars: m.vars.insert(name, with_low_byte(m.vars[name], b)),
            ..m
        },
        OperandView::Stack(off) => Machine {
            slots: m.slots.insert(off as int, with_low_byte(m.slots[off as int], b)),
            ..m
        },
    }
}

/// Whether the condition holds of two values that were compared.
pub open spec fn holds(cc: ConditionCode, left: i32, right: i32) -> bool {
    match cc {
        ConditionCode::E => left == right,
        ConditionCode::NE => left != right,
        ConditionCode::G => left > right,
        ConditionCode::GE => left >= right,
        ConditionCode::L => left < right,
        ConditionCode::LE => left <= right,
    }
}

/// What a two-operand arithmetic instruction leaves in its destination.
pub open spec fn arithmetic(op: BinaryOp, dst: i32, src: i32) -> i32 {
    match op {
        BinaryOp::Add => add32(dst, src),
        BinaryOp::Sub => sub32(dst, src),
        BinaryOp::Mult => mul32(dst, src),
        BinaryOp::BitwiseAnd => and32(dst, src),
        BinaryOp::BitwiseOr => or32(dst, src),
        BinaryOp::BitwiseXor => xor32(dst, src),
    }
}

/// The machine with the flags that an arithmetic instruction leaves: no
/// comparison can be told from them.
pub open spec fn clobbered(m: Machine) -> Machine {
    Machine { flags: None, ..m }
}

/// One instruction, run on `m`. A division stops the run unless `%edx`
/// extends the sign of `%eax` and the quotient exists.
pub open spec fn step(i: InstructionView, m: Machine) -> Outcome<Machine> {
    match i {
        InstructionView::Mov(x, y) => Outcome::Goes(store(y, load(x, m), m)),
        InstructionView::Movb(x, y) => Outcome::Goes(store_low(y, low_byte(load(x, m)), m)),
        InstructionView::Unary(UnaryOp::Neg, x) => Outcome::Goes(
            clobbered(store(x, neg32(load(x, m)), m)),
        ),
        InstructionView::Unary(UnaryOp::Not, x) => Outcome::Goes(store(x, not32(load(x, m)), m)),
        InstructionView::Binary(op, x, y) => Outcome::Goes(
            clobbered(store(y, arithmetic(op, load(y, m), load(x, m)), m)),
        ),
        InstructionView::Cmp(x, y) => Outcome::Goes(
            Machine { flags: Some((load(y, m), load(x, m))), ..m },
        ),
        InstructionView::Shl(x, y) => Outcome::Goes(
            clobbered(store(y, shl32(load(y, m), load(x, m)), m)),
        ),
        InstructionView::Shr(x, y) => Outcome::Goes(
            clobbered(store(y, sar32(load(y, m), load(x, m)), m)),
        ),
        InstructionView::Cdq => Outcome::Goes(
            Machine {
                regs: m.regs.insert(
                    dx(),
                    if m.regs[ax()] < 0 {
                        -1i32
                    } else {
                        0i32
                    },
                ),
                ..m
            },
        ),
        InstructionView::Idiv(x) => {
            let a = m.regs[ax()];
            let d = load(x, m);
            if m.regs[dx()] == (if a < 0 {
                -1i32
            } else {
                0i32
            }) && divides(a, d) {
                Outcome::Goes(
                    clobbered(
                        Machine {
                            regs: m.regs.insert(ax(), div32(a, d)).insert(dx(), rem32(a, d)),
                            ..m
                        },
                    ),
                )
            } else {
                Outcome::Stops
            }
        },
        InstructionView::SetCC(cc, x) => match m.flags {
            Some((left, right)) => Outcome::Goes(
                store_low(x, truth(holds(cc, left, right)) as int, m),
            ),
            None => Outcome::Stops,
        },
        InstructionView::AllocateStack(_) => Outcome::Goes(m),
        InstructionView::DeallocateStack(_) => Outcome::Goes(m),
        InstructionView::Return => Outcome::Returns(m.regs[ax()]),
        InstructionView::Jmp(label) => Outcome::Seeks(m, label),
        InstructionView::JmpCC(cc, label) => match m.flags {
            Some((left, right)) => if holds(cc, left, right) {
                Outcome::Seeks(m, label)
            } else {
                Outcome::Goes(m)
            },
            None => Outcome::Stops,
        },
        InstructionView::Label(_) => Outcome::Goes(m),
        _ => Outcome::Stops,
    }
}

/// How a run that came to `o` goes on over one more instruction: a run
/// that goes on runs the instruction, a run that jumped goes on at the label
/// of its name and passes everything else.
pub open spec fn next(o: Outcome<Machine>, i: InstructionView) -> Outcome<Machine> {
    match o {
        Outcome::Goes(m) => step(i, m),
        Outcome::Seeks(m, label) => if i == InstructionView::Label(label) {
            Outcome::Goes(m)
        } else {
            o
        },
        _ => o,
    }
}

/// How a run that came to `o` goes on over the instructions, in their
/// order.
pub open spec fn run_from(o: Outcome<Machine>, s: Seq<InstructionView>) -> Outcome<Machine>
    decreases s.len(),
{
    if s.len() == 0 {
        o
    } else {
        next(run_from(o, s.drop_last()), s.last())
    }
}

/// How a run that came to `o` goes on over the instructions where jumps
/// may go backwards: a run that jumped and came to the end of the listing
/// goes on at the label of its name from the top, for up to `n` more rounds
/// over the listing.
pub open spec fn rounds(o: Outcome<Machine>, s: Seq<InstructionView>, n: nat) -> Outcome<Machine>
    decreases n,
{
    let p = run_from(o, s);
    if n > 0 && p is Seeks {
        rounds(p, s, (n - 1) as nat)
    } else {
        p
    }
}

/// The instructions, run in their order from `m`.
pub open spec fn run(s: Seq<InstructionView>, m: Machine) -> Outcome<Machine> {
    run_from(Outcome::Goes(m), s)
}

/// Two lists one after the other run one after the other.
pub proof fn lemma_run_concat(
    o: Outcome<Machine>,
    a: Seq<InstructionView>,
    b: Seq<InstructionView>,
)
    ensures
        run_from(o, a + b) == run_from(run_from(o, a), b),
    decreases b.len(),
{
    if b.len() == 0 {
        assert(a + b =~= a);
    } else {
        lemma_run_concat(o, a, b.drop_last());
        assert((a + b).drop_last() =~= a + b.drop_last());
        assert((a + b).last() == b.last());
    }
}

/// A single instruction runs as one step.
pub proof fn lemma_run_one(o: Outcome<Machine>, i: InstructionView)
    ensures
        run_from(o, seq![i]) == next(o, i),
{
    let s = seq![i];
    assert(s.drop_last() =~= Seq::<InstructionView>::empty());
    assert(run_from(o, s.drop_last()) == o);
    assert(s.last() == i);
}

/// Two instructions run one after the other.
pub proof fn lemma_run_two(o: Outcome<Machine>, i: InstructionView, j: InstructionView)
    ensures
        run_from(o, seq![i, j]) == next(next(o, i), j),
{
    lemma_run_one(o, i);
    assert(seq![i].push(j) =~= seq![i, j]);
    assert(seq![i, j].drop_last() =~= seq![i]);
}

/// Three instructions run one after the other.
pub proof fn lemma_run_three(
    o: Outcome<Machine>,
    i: InstructionView,
    j: InstructionView,
    k: InstructionView,
)
    ensures
        run_from(o, seq![i, j, k]) == next(next(next(o, i), j), k),
{
    lemma_run_two(o, i, j);
    assert(seq![i, j, k].drop_last() =~= seq![i, j]);
}

/// Four instructions run one after the other.
pub proof fn lemma_run_four(
    o: Outcome<Machine>,
    i: InstructionView,
    j: InstructionView,
    k: InstructionView,
    l: InstructionView,
)
    ensures
        run_from(o, seq![i, j, k, l]) == next(next(next(next(o, i), j), k), l),
{
    lemma_run_three(o, i, j, k);
    assert(seq![i, j, k, l].drop_last() =~= seq![i, j, k]);
}

/// A run that jumped passes a listing that holds no label of the name,
/// and a run that has ended passes every listing.
pub proof fn lemma_run_passes(o: Outcome<Machine>, s: Seq<InstructionView>)
    requires
        o matches Outcome::Seeks(_, label) ==> forall|j: int|
            0 <= j < s.len() ==> #[trigger] s[j] != InstructionView::Label(label),
        !(o is Goes),
    ensures
        run_from(o, s) == o,
    decreases s.len(),
{
    if s.len() > 0 {
        assert forall|j: int| 0 <= j < s.drop_last().len() implies (o matches Outcome::Seeks(
            _,
            label,
        ) ==> #[trigger] s.drop_last()[j] != InstructionView::Label(label)) by {
            assert(s.drop_last()[j] == s[j]);
        }
        lemma_run_passes(o, s.drop_last());
        assert(s.last() == s[s.len() - 1]);
    }
}

} // verus!
