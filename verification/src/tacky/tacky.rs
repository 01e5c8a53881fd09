//! The linear three-address intermediate representation: flat instruction
//! lists with temporaries, labels and explicit jumps.

use vstd::prelude::*;
use crate::views::{seq_view, clone_string};

verus! {

/// A whole program in the intermediate representation.
#[derive(Debug)]
pub struct TackyAST {
    pub program: TackyProgram,
}

/// The functions of a program, in source order.
#[derive(Debug)]
pub struct TackyProgram {
    pub funcs: Vec<Function>,
}

/// One function: its name, its parameters and its instructions.
#[derive(Debug)]
pub struct Function {
    pub name: String,
    pub params: Vec<String>,
    pub instrs: Vec<Instr>,
}

/// One instruction.
#[derive(Debug)]
pub enum Instr {
    Return(Val),
    Unary(UnaryOp, Val, Val),
    Binary(BinaryOp, Val, Val, Val),
    Copy(Val, Val),
    Jump(String),
    JumpIfZero(Val, String),
    JumpIfNotZero(Val, String),
    Label(String),
    FuncCall(String, Vec<Val>, Val),
}

/// A value: a constant, or a named variable or temporary.
#[derive(Debug)]
pub enum Val {
    Integer(i64),
    Var(String),
}

#[derive(Debug, Clone, Copy, PartialEq, Eq, Structural)]
pub enum UnaryOp {
    Negate,
    Complement,
    Not,
}

#[derive(Debug, Clone, Copy, PartialEq, Eq, Structural)]
pub enum BinaryOp {
    Add,
    Subtract,
    Multiply,
    Divide,
    Modulus,
    BitwiseAnd,
    BitwiseOr,
    BitwiseXor,
    LeftShift,
    RightShift,
    Equal,
    NotEqual,
    LessThan,
    LessOrEqual,
    GreaterThan,
    GreaterOrEqual,
}

/// The model of a value.
pub enum ValView {
    Integer(i64),
    Var(Seq<char>),
}

/// The model of an instruction.
pub enum InstrView {
    Return(ValView),
    Unary(UnaryOp, ValView, ValView),
    Binary(BinaryOp, ValView, ValView, ValView),
    Copy(ValView, ValView),
    Jump(Seq<char>),
    JumpIfZero(ValView, Seq<char>),
    JumpIfNotZero(ValView, Seq<char>),
    Label(Seq<char>),
    FuncCall(Seq<char>, Seq<ValView>, ValView),
}

/// The model of a function.
pub struct FunctionView {
    pub name: Seq<char>,
    pub params: Seq<Seq<char>>,
    pub instrs: Seq<InstrView>,
}

/// The model of a program.
pub struct TackyProgramView {
    pub funcs: Seq<FunctionView>,
}

impl View for Val {
    type V = ValView;

    open spec fn view(&self) -> ValView {
        match self {
            Val::Integer(i) => ValView::Integer(*i),
            Val::Var(name) => ValView::Var(name@),
        }
    }
}

impl View for Instr {
    type V = InstrView;

    open spec fn view(&self) -> InstrView {
        match self {
            Instr::Return(v) => InstrView::Return(v@),
            Instr::Unary(op, src, dst) => InstrView::Unary(*op, src@, dst@),
            Instr::Binary(op, l, r, dst) => InstrView::Binary(*op, l@, r@, dst@),
            Instr::Copy(src, dst) => InstrView::Copy(src@, dst@),
            Instr::Jump(label) => InstrView::Jump(label@),
            Instr::JumpIfZero(v, label) => InstrView::JumpIfZero(v@, label@),
            Instr::JumpIfNotZero(v, label) => InstrView::JumpIfNotZero(v@, label@),
            Instr::Label(label) => InstrView::Label(label@),
            Instr::FuncCall(name, args, dst) => InstrView::FuncCall(
                name@,
                seq_view(args@),
                dst@,
            ),
        }
    }
}

impl View for Function {
    type V = FunctionView;

    open spec fn view(&self) -> FunctionView {
        FunctionView {
            name: self.name@,
            params: seq_view(self.params@),
            instrs: seq_view(self.instrs@),
        }
    }
}

impl View for TackyProgram {
    type V = TackyProgramView;

    open spec fn view(&self) -> TackyProgramView {
        TackyProgramView { funcs: seq_view(self.funcs@) }
    }
}

impl View for TackyAST {
    type V = TackyProgramView;

    open spec fn view(&self) -> TackyProgramView {
        self.program@
    }
}

impl Clone for Val {
    fn clone(&self) -> (r: Val)
        ensures
            r@ == self@,
    {
        match self {
            Val::Integer(i) => Val::Integer(*i),
            Val::Var(name) => Val::Var(clone_string(name)),
        }
    }
}

} // verus!
