//! What the two passes after instruction selection produce: the replacement
//! of pseudo-operands by stack slots, and the rewriting of instructions whose
//! operands the machine does not accept.

use vstd::prelude::*;
use crate::codegen::assembly::{
    InstructionView, OperandView, Register, BinaryOp, FunctionView, AssemblyView,
};
use crate::codegen::stack_allocator::StackAllocatorView;

verus! {

/// The width in bytes of every stack slot.
pub open spec fn slot_size() -> i64 {
    4
}

/// An operand after replacement: a pseudo-operand becomes the slot of its
/// name, below the frame pointer; any other operand stays.
pub open spec fn replace_operand(o: OperandView, a: StackAllocatorView, size: i64) -> (
    OperandView,
    StackAllocatorView,
) {
    match o {
        OperandView::Pseudo(name) => (
            OperandView::Stack((-a.offset_of(name, size)) as i64),
            a.allocate(name, size),
        ),
        _ => (o, a),
    }
}

/// A two-operand instruction after replacement, first operand first.
pub open spec fn replace_pair(x: OperandView, y: OperandView, a: StackAllocatorView) -> (
    OperandView,
    OperandView,
    StackAllocatorView,
) {
    let (x1, a1) = replace_operand(x, a, slot_size());
    let (y1, a2) = replace_operand(y, a1, slot_size());
    (x1, y1, a2)
}

/// An instruction after replacement. Targets of jumps, labels and calls are
/// names of another kind and stay.
pub open spec fn replace_instr(i: InstructionView, a: StackAllocatorView) -> (
    InstructionView,
    StackAllocatorView,
) {
    match i {
        InstructionView::Mov(x, y) => {
            let (x1, y1, a1) = replace_pair(x, y, a);
            (InstructionView::Mov(x1, y1), a1)
        },
        InstructionView::Movb(x, y) => {
            let (x1, y1, a1) = replace_pair(x, y, a);
            (InstructionView::Movb(x1, y1), a1)
        },
        InstructionView::Binary(op, x, y) => {
            let (x1, y1, a1) = replace_pair(x, y, a);
            (InstructionView::Binary(op, x1, y1), a1)
        },
        InstructionView::Cmp(x, y) => {
            let (x1, y1, a1) = replace_pair(x, y, a);
            (InstructionView::Cmp(x1, y1), a1)
        },
        InstructionView::Shl(x, y) => {
            let (x1, y1, a1) = replace_pair(x, y, a);
            (InstructionView::Shl(x1, y1), a1)
        },
        InstructionView::Shr(x, y) => {
            let (x1, y1, a1) = replace_pair(x, y, a);
            (InstructionView::Shr(x1, y1), a1)
        },
        InstructionView::Unary(op, x) => {
            let (x1, a1) = replace_operand(x, a, slot_size());
            (InstructionView::Unary(op, x1), a1)
        },
        InstructionView::Idiv(x) => {
            let (x1, a1) = replace_operand(x, a, slot_size());
            (InstructionView::Idiv(x1), a1)
        },
        InstructionView::SetCC(cc, x) => {
            let (x1, a1) = replace_operand(x, a, slot_size());
            (InstructionView::SetCC(cc, x1), a1)
        },
        InstructionView::Push(x) => {
            let (x1, a1) = replace_operand(x, a, slot_size());
            (InstructionView::Push(x1), a1)
        },
        _ => (i, a),
    }
}

/// A list of instructions after replacement, walked once from the front.
pub open spec fn replace_instrs(s: Seq<InstructionView>, a: StackAllocatorView) -> (
    Seq<InstructionView>,
    StackAllocatorView,
)
    decreases s.len(),
{
    if s.len() == 0 {
        (Seq::empty(), a)
    } else {
        let (done, a1) = replace_instrs(s.drop_last(), a);
        let (i, a2) = replace_instr(s.last(), a1);
        (done.push(i), a2)
    }
}

/// A function after replacement.
pub open spec fn replace_function(f: FunctionView) -> FunctionView {
    let (instructions, stack_allocator) = replace_instrs(f.instructions, f.stack_allocator);
    FunctionView { name: f.name, instructions, stack_allocator }
}

/// A program after replacement.
pub open spec fn replace_program(p: AssemblyView) -> AssemblyView {
    AssemblyView { functions: p.functions.map_values(|f: FunctionView| replace_function(f)) }
}

/// The operands of an instruction.
pub open spec fn operands(i: InstructionView) -> Seq<OperandView> {
    match i {
        InstructionView::Mov(x, y) => seq![x, y],
        InstructionView::Movb(x, y) => seq![x, y],
        InstructionView::Binary(_, x, y) => seq![x, y],
        InstructionView::Cmp(x, y) => seq![x, y],
        InstructionView::Shl(x, y) => seq![x, y],
        InstructionView::Shr(x, y) => seq![x, y],
        InstructionView::Unary(_, x) => seq![x],
        InstructionView::Idiv(x) => seq![x],
        InstructionView::SetCC(_, x) => seq![x],
        InstructionView::Push(x) => seq![x],
        _ => Seq::empty(),
    }
}

/// No operand of the instruction is a pseudo-operand.
pub open spec fn no_pseudo(i: InstructionView) -> bool {
    forall|k: int| 0 <= k < operands(i).len() ==> !(#[trigger] operands(i)[k] is Pseudo)
}

/// No operand of any instruction of the list is a pseudo-operand.
pub open spec fn all_no_pseudo(s: Seq<InstructionView>) -> bool {
    forall|k: int| 0 <= k < s.len() ==> no_pseudo(#[trigger] s[k])
}

/// The register `%r10d`.
pub open spec fn r10() -> OperandView {
    OperandView::Register(Register::R10(4))
}

/// The register `%r11d`.
pub open spec fn r11() -> OperandView {
    OperandView::Register(Register::R11(4))
}

/// The register `%cl`.
pub open spec fn cl() -> OperandView {
    OperandView::Register(Register::CX(1))
}

/// The bytes of a frame that holds `bytes` bytes of slots: the next multiple
/// of 16.
pub open spec fn frame_size(bytes: i64) -> i64 {
    (((bytes + 15) / 16) * 16) as i64
}

/// The instructions that stand for one instruction after the rewriting of
/// operands. `R10` and `R11` carry the values in between.
pub open spec fn fixup_instr(i: InstructionView) -> Seq<InstructionView> {
    match i {
        InstructionView::Mov(OperandView::Stack(src), OperandView::Stack(dst)) => seq![
            InstructionView::Mov(OperandView::Stack(src), r10()),
            InstructionView::Mov(r10(), OperandView::Stack(dst)),
        ],
        InstructionView::Idiv(OperandView::Immediate(v)) => seq![
            InstructionView::Mov(OperandView::Immediate(v), r10()),
            InstructionView::Idiv(r10()),
        ],
        InstructionView::Binary(BinaryOp::Mult, src, OperandView::Stack(dst)) => seq![
            InstructionView::Mov(OperandView::Stack(dst), r11()),
            InstructionView::Binary(BinaryOp::Mult, src, r11()),
            InstructionView::Mov(r11(), OperandView::Stack(dst)),
        ],
        InstructionView::Binary(op, OperandView::Stack(src), OperandView::Stack(dst)) => seq![
            InstructionView::Mov(OperandView::Stack(src), r10()),
            InstructionView::Binary(op, r10(), OperandView::Stack(dst)),
        ],
        InstructionView::Shl(OperandView::Stack(count), dst) => seq![
            InstructionView::Movb(OperandView::Stack(count), cl()),
            InstructionView::Shl(cl(), dst),
        ],
        InstructionView::Shr(OperandView::Stack(count), dst) => seq![
            InstructionView::Movb(OperandView::Stack(count), cl()),
            InstructionView::Shr(cl(), dst),
        ],
        InstructionView::Cmp(OperandView::Stack(l), OperandView::Stack(r)) => seq![
            InstructionView::Mov(OperandView::Stack(l), r10()),
            InstructionView::Cmp(r10(), OperandView::Stack(r)),
        ],
        InstructionView::Cmp(l, OperandView::Immediate(v)) => seq![
            InstructionView::Mov(OperandView::Immediate(v), r10()),
            InstructionView::Cmp(l, r10()),
        ],
        _ => seq![i],
    }
}

/// The rewritten instructions of a list, in order.
pub open spec fn fixup_instrs(s: Seq<InstructionView>) -> Seq<InstructionView>
    decreases s.len(),
{
    if s.len() == 0 {
        Seq::empty()
    } else {
        fixup_instrs(s.drop_last()) + fixup_instr(s.last())
    }
}

/// A function after the rewriting: the frame is set up first, sized to the
/// slots of the function rounded up to 16 bytes.
pub open spec fn fixup_function(f: FunctionView) -> FunctionView {
    FunctionView {
        name: f.name,
        instructions: seq![InstructionView::AllocateStack(frame_size(f.stack_allocator.offset))]
            + fixup_instrs(f.instructions),
        stack_allocator: f.stack_allocator,
    }
}

/// A program after the rewriting.
pub open spec fn fixup_program(p: AssemblyView) -> AssemblyView {
    AssemblyView { functions: p.functions.map_values(|f: FunctionView| fixup_function(f)) }
}

/// The operands of the instruction are ones that the machine accepts: no
/// move, arithmetic instruction or comparison between two stack slots, no
/// multiplication into a stack slot, no comparison against an immediate in
/// second place, and no division by an immediate.
pub open spec fn legal(i: InstructionView) -> bool {
    match i {
        InstructionView::Mov(x, y) => !(x is Stack && y is Stack),
        InstructionView::Binary(op, x, y) => !(x is Stack && y is Stack) && (op == BinaryOp::Mult
            ==> !(y is Stack)),
        InstructionView::Cmp(x, y) => !(x is Stack && y is Stack) && !(y is Immediate),
        InstructionView::Idiv(x) => !(x is Immediate),
        InstructionView::Shl(x, _) => !(x is Stack),
        InstructionView::Shr(x, _) => !(x is Stack),
        _ => true,
    }
}

/// Every instruction of the list is legal.
pub open spec fn all_legal(s: Seq<InstructionView>) -> bool {
    forall|k: int| 0 <= k < s.len() ==> legal(#[trigger] s[k])
}

/// Replacement leaves no pseudo-operand in an instruction.
pub proof fn lemma_replace_instr_no_pseudo(i: InstructionView, a: StackAllocatorView)
    ensures
        no_pseudo(replace_instr(i, a).0),
{
}

/// Replacement leaves no pseudo-operand in a list of instructions, and keeps
/// its length.
pub proof fn lemma_replace_instrs_no_pseudo(s: Seq<InstructionView>, a: StackAllocatorView)
    ensures
        all_no_pseudo(replace_instrs(s, a).0),
        replace_instrs(s, a).0.len() == s.len(),
    decreases s.len(),
{
    if s.len() > 0 {
        lemma_replace_instrs_no_pseudo(s.drop_last(), a);
        lemma_replace_instr_no_pseudo(s.last(), replace_instrs(s.drop_last(), a).1);
    }
}

/// The rewriting of one instruction yields legal instructions only, and adds
/// no pseudo-operand.
pub proof fn lemma_fixup_instr_legal(i: InstructionView)
    ensures
        all_legal(fixup_instr(i)),
        no_pseudo(i) ==> all_no_pseudo(fixup_instr(i)),
{
    assert forall|k: int| 0 <= k < fixup_instr(i).len() implies legal(
        #[trigger] fixup_instr(i)[k],
    ) by {}
    if no_pseudo(i) {
        assert forall|k: int| 0 <= k < fixup_instr(i).len() implies no_pseudo(
            #[trigger] fixup_instr(i)[k],
        ) by {
            let ops = operands(i);
            assert(forall|j: int| 0 <= j < ops.len() ==> !(#[trigger] ops[j] is Pseudo));
            if ops.len() >= 1 {
                assert(!(ops[0] is Pseudo));
            }
            if ops.len() >= 2 {
                assert(!(ops[1] is Pseudo));
            }
        }
    }
}

/// The rewriting of a list yields legal instructions only, and adds no
/// pseudo-operand.
pub proof fn lemma_fixup_instrs_legal(s: Seq<InstructionView>)
    ensures
        all_legal(fixup_instrs(s)),
        all_no_pseudo(s) ==> all_no_pseudo(fixup_instrs(s)),
    decreases s.len(),
{
    if s.len() > 0 {
        lemma_fixup_instrs_legal(s.drop_last());
        lemma_fixup_instr_legal(s.last());
        if all_no_pseudo(s) {
            assert(no_pseudo(s.last()));
            assert forall|k: int| 0 <= k < s.drop_last().len() implies no_pseudo(
                #[trigger] s.drop_last()[k],
            ) by {
                assert(s.drop_last()[k] == s[k]);
            }
        }
    }
}

/// The size of a frame is a multiple of 16 that holds the slots.
pub proof fn lemma_frame_size(bytes: i64)
    requires
        0 <= bytes <= i64::MAX - 15,
    ensures
        frame_size(bytes) % 16 == 0,
        bytes <= frame_size(bytes) <= bytes + 15,
{
}

} // verus!
