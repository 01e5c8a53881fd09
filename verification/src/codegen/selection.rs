//! What instruction selection produces, stated over the models of the two
//! representations.

use vstd::prelude::*;
use crate::tacky::tacky::{InstrView, ValView};
use crate::tacky::tacky::UnaryOp as IrUnaryOp;
use crate::tacky::tacky::BinaryOp as IrBinaryOp;
use crate::codegen::assembly::{
    InstructionView, OperandView, Register, ConditionCode, UnaryOp, BinaryOp,
};

verus! {

/// The operand that holds a value: an immediate for a constant, a
/// pseudo-operand for a name.
pub open spec fn operand_of(v: ValView) -> OperandView {
    match v {
        ValView::Integer(i) => OperandView::Immediate(i),
        ValView::Var(name) => OperandView::Pseudo(name),
    }
}

/// The register that carries the argument at `i`, for the first six.
pub open spec fn arg_register(i: int) -> Register {
    if i == 0 {
        Register::DI(4)
    } else if i == 1 {
        Register::SI(4)
    } else if i == 2 {
        Register::DX(4)
    } else if i == 3 {
        Register::CX(4)
    } else if i == 4 {
        Register::R8(4)
    } else {
        Register::R9(4)
    }
}

/// Where a function finds its parameter at `i` on entry: in a register, or
/// for the seventh and later in the caller's frame.
pub open spec fn param_source(i: int) -> OperandView {
    if i < 6 {
        OperandView::Register(arg_register(i))
    } else {
        OperandView::Stack((16 + 8 * (i - 6)) as i64)
    }
}

/// The moves that bring the parameters into their pseudo-operands.
pub open spec fn param_moves(params: Seq<Seq<char>>) -> Seq<InstructionView> {
    Seq::new(
        params.len(),
        |i: int| InstructionView::Mov(param_source(i), OperandView::Pseudo(params[i])),
    )
}

/// The register `%eax`.
pub open spec fn eax() -> OperandView {
    OperandView::Register(Register::AX(4))
}

/// The register `%edx`.
pub open spec fn edx() -> OperandView {
    OperandView::Register(Register::DX(4))
}

/// The constant 0.
pub open spec fn zero() -> OperandView {
    OperandView::Immediate(0)
}

/// The instructions for a unary operation.
pub open spec fn select_unary(op: IrUnaryOp, src: OperandView, dst: OperandView) -> Seq<
    InstructionView,
> {
    match op {
        IrUnaryOp::Not => seq![
            InstructionView::Cmp(zero(), src),
            InstructionView::Mov(zero(), dst),
            InstructionView::SetCC(ConditionCode::E, dst),
        ],
        IrUnaryOp::Negate => seq![
            InstructionView::Mov(src, dst),
            InstructionView::Unary(UnaryOp::Neg, dst),
        ],
        IrUnaryOp::Complement => seq![
            InstructionView::Mov(src, dst),
            InstructionView::Unary(UnaryOp::Not, dst),
        ],
    }
}

/// A two-operand arithmetic instruction applied in place to a copy of the
/// left operand.
pub open spec fn select_arith(op: BinaryOp, l: OperandView, r: OperandView, d: OperandView) -> Seq<
    InstructionView,
> {
    seq![InstructionView::Mov(l, d), InstructionView::Binary(op, r, d)]
}

/// A comparison that leaves 0 or 1 in the destination. The right operand
/// comes first, so that the condition reads as "left op right".
pub open spec fn select_compare(cc: ConditionCode, l: OperandView, r: OperandView, d: OperandView)
    -> Seq<InstructionView> {
    seq![
        InstructionView::Cmp(r, l),
        InstructionView::Mov(zero(), d),
        InstructionView::SetCC(cc, d),
    ]
}

/// The instructions for a binary operation.
pub open spec fn select_binary(op: IrBinaryOp, l: OperandView, r: OperandView, d: OperandView)
    -> Seq<InstructionView> {
    match op {
        IrBinaryOp::Add => select_arith(BinaryOp::Add, l, r, d),
        IrBinaryOp::Subtract => select_arith(BinaryOp::Sub, l, r, d),
        IrBinaryOp::Multiply => select_arith(BinaryOp::Mult, l, r, d),
        IrBinaryOp::BitwiseAnd => select_arith(BinaryOp::BitwiseAnd, l, r, d),
        IrBinaryOp::BitwiseOr => select_arith(BinaryOp::BitwiseOr, l, r, d),
        IrBinaryOp::BitwiseXor => select_arith(BinaryOp::BitwiseXor, l, r, d),
        IrBinaryOp::Divide => seq![
            InstructionView::Mov(l, eax()),
            InstructionView::Cdq,
            InstructionView::Idiv(r),
            InstructionView::Mov(eax(), d),
        ],
        IrBinaryOp::Modulus => seq![
            InstructionView::Mov(l, eax()),
            InstructionView::Cdq,
            InstructionView::Idiv(r),
            InstructionView::Mov(edx(), d),
        ],
        IrBinaryOp::LeftShift => seq![InstructionView::Mov(l, d), InstructionView::Shl(r, d)],
        IrBinaryOp::RightShift => seq![InstructionView::Mov(l, d), InstructionView::Shr(r, d)],
        IrBinaryOp::Equal => select_compare(ConditionCode::E, l, r, d),
        IrBinaryOp::NotEqual => select_compare(ConditionCode::NE, l, r, d),
        IrBinaryOp::LessThan => select_compare(ConditionCode::L, l, r, d),
        IrBinaryOp::LessOrEqual => select_compare(ConditionCode::LE, l, r, d),
        IrBinaryOp::GreaterThan => select_compare(ConditionCode::G, l, r, d),
        IrBinaryOp::GreaterOrEqual => select_compare(ConditionCode::GE, l, r, d),
    }
}

/// The number of arguments that travel on the stack.
pub open spec fn stack_arg_count(args: Seq<ValView>) -> int {
    if args.len() > 6 {
        args.len() - 6
    } else {
        0
    }
}

/// The bytes of padding that keep the stack aligned to 16 at the call.
pub open spec fn call_padding(args: Seq<ValView>) -> int {
    if stack_arg_count(args) % 2 == 1 {
        8
    } else {
        0
    }
}

/// The moves of the first `n` arguments into their registers, in order.
pub open spec fn register_moves(args: Seq<ValView>, n: int) -> Seq<InstructionView>
    decreases n,
{
    if n <= 0 {
        Seq::empty()
    } else {
        register_moves(args, n - 1).push(
            InstructionView::Mov(
                operand_of(args[n - 1]),
                OperandView::Register(arg_register(n - 1)),
            ),
        )
    }
}

/// The push of one argument. A constant or a register is pushed as it is;
/// anything else goes through `%eax`, so that a full quadword is pushed.
pub open spec fn push_arg(v: ValView) -> Seq<InstructionView> {
    match operand_of(v) {
        OperandView::Immediate(i) => seq![InstructionView::Push(OperandView::Immediate(i))],
        OperandView::Register(r) => seq![InstructionView::Push(OperandView::Register(r))],
        o => seq![
            InstructionView::Mov(o, eax()),
            InstructionView::Push(OperandView::Register(Register::AX(8))),
        ],
    }
}

/// The pushes of the arguments from the last down to the one at `from`.
pub open spec fn stack_pushes(args: Seq<ValView>, from: int) -> Seq<InstructionView>
    decreases args.len() - from,
{
    if from >= args.len() {
        Seq::empty()
    } else {
        stack_pushes(args, from + 1) + push_arg(args[from])
    }
}

/// The instructions for a call: padding, register arguments, stack arguments
/// in reverse order, the call, the release of the stack, and the move of the
/// result.
pub open spec fn select_call(name: Seq<char>, args: Seq<ValView>, dst: ValView) -> Seq<
    InstructionView,
> {
    let padding = call_padding(args);
    let released = 8 * stack_arg_count(args) + padding;
    (if padding != 0 {
        seq![InstructionView::AllocateStack(8)]
    } else {
        Seq::empty()
    }) + register_moves(args, if args.len() < 6 {
        args.len() as int
    } else {
        6
    }) + stack_pushes(args, 6) + seq![InstructionView::Call(name)] + (if released > 0 {
        seq![InstructionView::DeallocateStack(released as i64)]
    } else {
        Seq::empty()
    }) + seq![InstructionView::Mov(eax(), operand_of(dst))]
}

/// The instructions selected for one instruction of the intermediate
/// representation.
pub open spec fn select(i: InstrView) -> Seq<InstructionView> {
    match i {
        InstrView::Return(v) => seq![
            InstructionView::Mov(operand_of(v), eax()),
            InstructionView::Return,
        ],
        InstrView::Unary(op, src, dst) => select_unary(op, operand_of(src), operand_of(dst)),
        InstrView::Binary(op, l, r, dst) => select_binary(
            op,
            operand_of(l),
            operand_of(r),
            operand_of(dst),
        ),
        InstrView::Copy(src, dst) => seq![InstructionView::Mov(operand_of(src), operand_of(dst))],
        InstrView::Jump(label) => seq![InstructionView::Jmp(label)],
        InstrView::JumpIfZero(v, label) => seq![
            InstructionView::Cmp(zero(), operand_of(v)),
            InstructionView::JmpCC(ConditionCode::E, label),
        ],
        InstrView::JumpIfNotZero(v, label) => seq![
            InstructionView::Cmp(zero(), operand_of(v)),
            InstructionView::JmpCC(ConditionCode::NE, label),
        ],
        InstrView::Label(label) => seq![InstructionView::Label(label)],
        InstrView::FuncCall(name, args, dst) => select_call(name, args, dst),
    }
}

/// The instructions selected for a list of instructions, in order.
pub open spec fn select_all(instrs: Seq<InstrView>) -> Seq<InstructionView>
    decreases instrs.len(),
{
    if instrs.len() == 0 {
        Seq::empty()
    } else {
        select_all(instrs.drop_last()) + select(instrs.last())
    }
}

/// The body of a function before stack slots are assigned: the parameter
/// moves, then the selected instructions.
pub open spec fn function_body(params: Seq<Seq<char>>, instrs: Seq<InstrView>) -> Seq<
    InstructionView,
> {
    param_moves(params) + select_all(instrs)
}

/// A count of parameters or arguments whose stack offsets fit the machine's
/// signed 64-bit integers.
pub open spec fn count_fits(n: nat) -> bool {
    8 * n + 16 <= i64::MAX
}

/// Every call in the list passes a number of arguments that fits.
pub open spec fn calls_fit(instrs: Seq<InstrView>) -> bool {
    forall|k: int|
        0 <= k < instrs.len() ==> (#[trigger] instrs[k] matches InstrView::FuncCall(_, args, _)
            ==> count_fits(args.len()))
}

} // verus!
