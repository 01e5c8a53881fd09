//! The x86-64 instruction listing that the code generator builds, and its
//! model.

use vstd::prelude::*;
use crate::views::{seq_view, clone_string};
use crate::codegen::stack_allocator::{StackAllocator, StackAllocatorView};

verus! {

/// A whole program as an instruction listing.
#[derive(Debug)]
pub struct Assembly {
    pub program: AssemblyProgram,
}

/// The functions of a program, in source order.
#[derive(Debug)]
pub struct AssemblyProgram {
    pub functions: Vec<Function>,
}

/// One function: its name, its instructions and the allocator of its stack
/// slots.
#[derive(Debug)]
pub struct Function {
    pub name: String,
    pub instructions: Vec<Instruction>,
    pub stack_allocator: StackAllocator,
}

/// One instruction. Two-operand instructions name the source first.
#[derive(Debug)]
pub enum Instruction {
    Mov(Operand, Operand),
    Movb(Operand, Operand),
    Unary(UnaryOp, Operand),
    Binary(BinaryOp, Operand, Operand),
    Cmp(Operand, Operand),
    Shl(Operand, Operand),
    Shr(Operand, Operand),
    Idiv(Operand),
    Cdq,
    Jmp(String),
    JmpCC(ConditionCode, String),
    SetCC(ConditionCode, Operand),
    Label(String),
    AllocateStack(i64),
    DeallocateStack(i64),
    Push(Operand),
    Call(String),
    Return,
}

#[derive(Debug, Clone, Copy, PartialEq, Eq, Structural)]
pub enum UnaryOp {
    Neg,
    Not,
}

#[derive(Debug, Clone, Copy, PartialEq, Eq, Structural)]
pub enum BinaryOp {
    Add,
    Sub,
    Mult,
    BitwiseAnd,
    BitwiseOr,
    BitwiseXor,
}

/// An operand: a constant, a register, a name that has no storage yet, or a
/// slot at an offset from the frame pointer.
#[derive(Debug)]
pub enum Operand {
    Immediate(i64),
    Register(Register),
    Pseudo(String),
    Stack(i64),
}

#[derive(Debug, Clone, Copy, PartialEq, Eq, Structural)]
pub enum ConditionCode {
    E,
    NE,
    G,
    GE,
    L,
    LE,
}

/// A register with the width in bytes of the part that is used: 1, 4 or 8.
#[derive(Debug, Clone, Copy, PartialEq, Eq, Structural)]
pub enum Register {
    AX(usize),
    DX(usize),
    CX(usize),
    DI(usize),
    SI(usize),
    R8(usize),
    R9(usize),
    R10(usize),
    R11(usize),
}

/// The model of an operand.
pub enum OperandView {
    Immediate(i64),
    Register(Register),
    Pseudo(Seq<char>),
    Stack(i64),
}

/// The model of an instruction.
pub enum InstructionView {
    Mov(OperandView, OperandView),
    Movb(OperandView, OperandView),
    Unary(UnaryOp, OperandView),
    Binary(BinaryOp, OperandView, OperandView),
    Cmp(OperandView, OperandView),
    Shl(OperandView, OperandView),
    Shr(OperandView, OperandView),
    Idiv(OperandView),
    Cdq,
    Jmp(Seq<char>),
    JmpCC(ConditionCode, Seq<char>),
    SetCC(ConditionCode, OperandView),
    Label(Seq<char>),
    AllocateStack(i64),
    DeallocateStack(i64),
    Push(OperandView),
    Call(Seq<char>),
    Return,
}

/// The model of a function.
pub struct FunctionView {
    pub name: Seq<char>,
    pub instructions: Seq<InstructionView>,
    pub stack_allocator: StackAllocatorView,
}

/// The model of a program.
pub struct AssemblyView {
    pub functions: Seq<FunctionView>,
}

impl View for Operand {
    type V = OperandView;

    open spec fn view(&self) -> OperandView {
        match self {
            Operand::Immediate(i) => OperandView::Immediate(*i),
            Operand::Register(r) => OperandView::Register(*r),
            Operand::Pseudo(name) => OperandView::Pseudo(name@),
            Operand::Stack(off) => OperandView::Stack(*off),
        }
    }
}

impl View for Instruction {
    type V = InstructionView;

    open spec fn view(&self) -> InstructionView {
        match self {
            Instruction::Mov(src, dst) => InstructionView::Mov(src@, dst@),
            Instruction::Movb(src, dst) => InstructionView::Movb(src@, dst@),
            Instruction::Unary(op, operand) => InstructionView::Unary(*op, operand@),
            Instruction::Binary(op, src, dst) => InstructionView::Binary(*op, src@, dst@),
            Instruction::Cmp(a, b) => InstructionView::Cmp(a@, b@),
            Instruction::Shl(a, b) => InstructionView::Shl(a@, b@),
            Instruction::Shr(a, b) => InstructionView::Shr(a@, b@),
            Instruction::Idiv(operand) => InstructionView::Idiv(operand@),
            Instruction::Cdq => InstructionView::Cdq,
            Instruction::Jmp(label) => InstructionView::Jmp(label@),
            Instruction::JmpCC(cc, label) => InstructionView::JmpCC(*cc, label@),
            Instruction::SetCC(cc, operand) => InstructionView::SetCC(*cc, operand@),
            Instruction::Label(label) => InstructionView::Label(label@),
            Instruction::AllocateStack(n) => InstructionView::AllocateStack(*n),
            Instruction::DeallocateStack(n) => InstructionView::DeallocateStack(*n),
            Instruction::Push(operand) => InstructionView::Push(operand@),
            Instruction::Call(name) => InstructionView::Call(name@),
            Instruction::Return => InstructionView::Return,
        }
    }
}

impl View for Function {
    type V = FunctionView;

    open spec fn view(&self) -> FunctionView {
        FunctionView {
            name: self.name@,
            instructions: seq_view(self.instructions@),
            stack_allocator: self.stack_allocator@,
        }
    }
}

impl View for AssemblyProgram {
    type V = AssemblyView;

    open spec fn view(&self) -> AssemblyView {
        AssemblyView { functions: seq_view(self.functions@) }
    }
}

impl View for Assembly {
    type V = AssemblyView;

    open spec fn view(&self) -> AssemblyView {
        self.program@
    }
}

impl Register {
    /// The width in bytes of the part of the register that is used.
    pub open spec fn size(self) -> usize {
        match self {
            Register::AX(s) => s,
            Register::DX(s) => s,
            Register::CX(s) => s,
            Register::DI(s) => s,
            Register::SI(s) => s,
            Register::R8(s) => s,
            Register::R9(s) => s,
            Register::R10(s) => s,
            Register::R11(s) => s,
        }
    }

    /// The width is one that the machine has.
    pub open spec fn wf(self) -> bool {
        self.size() == 1 || self.size() == 4 || self.size() == 8
    }
}

impl Clone for Operand {
    fn clone(&self) -> (r: Operand)
        ensures
            r@ == self@,
    {
        match self {
            Operand::Immediate(i) => Operand::Immediate(*i),
            Operand::Register(r) => Operand::Register(*r),
            Operand::Pseudo(name) => Operand::Pseudo(clone_string(name)),
            Operand::Stack(off) => Operand::Stack(*off),
        }
    }
}

impl Clone for Instruction {
    fn clone(&self) -> (r: Instruction)
        ensures
            r@ == self@,
    {
        match self {
            Instruction::Mov(src, dst) => Instruction::Mov(src.clone(), dst.clone()),
            Instruction::Movb(src, dst) => Instruction::Movb(src.clone(), dst.clone()),
            Instruction::Unary(op, operand) => Instruction::Unary(*op, operand.clone()),
            Instruction::Binary(op, src, dst) => Instruction::Binary(*op, src.clone(), dst.clone()),
            Instruction::Cmp(a, b) => Instruction::Cmp(a.clone(), b.clone()),
            Instruction::Shl(a, b) => Instruction::Shl(a.clone(), b.clone()),
            Instruction::Shr(a, b) => Instruction::Shr(a.clone(), b.clone()),
            Instruction::Idiv(operand) => Instruction::Idiv(operand.clone()),
            Instruction::Cdq => Instruction::Cdq,
            Instruction::Jmp(label) => Instruction::Jmp(clone_string(label)),
            Instruction::JmpCC(cc, label) => Instruction::JmpCC(*cc, clone_string(label)),
            Instruction::SetCC(cc, operand) => Instruction::SetCC(*cc, operand.clone()),
            Instruction::Label(label) => Instruction::Label(clone_string(label)),
            Instruction::AllocateStack(n) => Instruction::AllocateStack(*n),
            Instruction::DeallocateStack(n) => Instruction::DeallocateStack(*n),
            Instruction::Push(operand) => Instruction::Push(operand.clone()),
            Instruction::Call(name) => Instruction::Call(clone_string(name)),
            Instruction::Return => Instruction::Return,
        }
    }
}

} // verus!
