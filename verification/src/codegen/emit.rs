//! The assembly text of an instruction listing, in AT&T syntax with the
//! name prefixes of macOS: `_` before a function, `L` before a local label.

use vstd::prelude::*;
use vstd::string::*;
use crate::text::{signed_decimal, push_i64};
use crate::views::{seq_view, lemma_take_step};
use crate::codegen::assembly::{
    Assembly, AssemblyProgram, AssemblyView, Function, FunctionView, Instruction,
    InstructionView, Operand, OperandView, Register, ConditionCode, UnaryOp, BinaryOp,
};
use crate::codegen::rewrite::operands;

verus! {

/// The name of a register at the width that is used.
pub open spec fn register_text(r: Register) -> Seq<char>
    recommends
        r.wf(),
{
    match r {
        Register::AX(s) => if s == 8 {
            "%rax"@
        } else if s == 4 {
            "%eax"@
        } else {
            "%al"@
        },
        Register::DX(s) => if s == 8 {
            "%rdx"@
        } else if s == 4 {
            "%edx"@
        } else {
            "%dl"@
        },
        Register::CX(s) => if s == 8 {
            "%rcx"@
        } else if s == 4 {
            "%ecx"@
        } else {
            "%cl"@
        },
        Register::DI(s) => if s == 8 {
            "%rdi"@
        } else if s == 4 {
            "%edi"@
        } else {
            "%dil"@
        },
        Register::SI(s) => if s == 8 {
            "%rsi"@
        } else if s == 4 {
            "%esi"@
        } else {
            "%sil"@
        },
        Register::R8(s) => if s == 8 {
            "%r8"@
        } else if s == 4 {
            "%r8d"@
        } else {
            "%r8b"@
        },
        Register::R9(s) => if s == 8 {
            "%r9"@
        } else if s == 4 {
            "%r9d"@
        } else {
            "%r9b"@
        },
        Register::R10(s) => if s == 8 {
            "%r10"@
        } else if s == 4 {
            "%r10d"@
        } else {
            "%r10b"@
        },
        Register::R11(s) => if s == 8 {
            "%r11"@
        } else if s == 4 {
            "%r11d"@
        } else {
            "%r11b"@
        },
    }
}

/// The suffix of a condition code.
pub open spec fn condition_text(cc: ConditionCode) -> Seq<char> {
    match cc {
        ConditionCode::E => "e"@,
        ConditionCode::NE => "ne"@,
        ConditionCode::G => "g"@,
        ConditionCode::GE => "ge"@,
        ConditionCode::L => "l"@,
        ConditionCode::LE => "le"@,
    }
}

/// The mnemonic of a unary instruction.
pub open spec fn unary_text(op: UnaryOp) -> Seq<char> {
    match op {
        UnaryOp::Neg => "negl"@,
        UnaryOp::Not => "notl"@,
    }
}

/// The mnemonic of a binary instruction.
pub open spec fn binary_text(op: BinaryOp) -> Seq<char> {
    match op {
        BinaryOp::Add => "addl"@,
        BinaryOp::Sub => "subl"@,
        BinaryOp::Mult => "imull"@,
        BinaryOp::BitwiseAnd => "andl"@,
        BinaryOp::BitwiseOr => "orl"@,
        BinaryOp::BitwiseXor => "xorl"@,
    }
}

/// The text of an operand: `$` before an immediate, the name of a register,
/// the name of a pseudo-operand, and `offset(%rbp)` for a stack slot.
pub open spec fn operand_text(o: OperandView) -> Seq<char> {
    match o {
        OperandView::Immediate(v) => "$"@ + signed_decimal(v as int),
        OperandView::Register(r) => register_text(r),
        OperandView::Pseudo(name) => name,
        OperandView::Stack(off) => signed_decimal(off as int) + "(%rbp)"@,
    }
}

/// The text of an instruction with two operands.
pub open spec fn two_operands(mnemonic: Seq<char>, a: OperandView, b: OperandView) -> Seq<char> {
    "\t"@ + mnemonic + " "@ + operand_text(a) + ", "@ + operand_text(b)
}

/// The text of an instruction with one operand.
pub open spec fn one_operand(mnemonic: Seq<char>, a: OperandView) -> Seq<char> {
    "\t"@ + mnemonic + " "@ + operand_text(a)
}

/// The text of an instruction, without the end of its last line. A return
/// is the epilogue of the function, on three lines.
pub open spec fn instruction_text(i: InstructionView) -> Seq<char> {
    match i {
        InstructionView::Mov(a, b) => two_operands("movl"@, a, b),
        InstructionView::Movb(a, b) => two_operands("movb"@, a, b),
        InstructionView::Unary(op, a) => one_operand(unary_text(op), a),
        InstructionView::Binary(op, a, b) => two_operands(binary_text(op), a, b),
        InstructionView::Shl(a, b) => two_operands("shll"@, a, b),
        InstructionView::Shr(a, b) => two_operands("sarl"@, a, b),
        InstructionView::Cmp(a, b) => two_operands("cmpl"@, a, b),
        InstructionView::Cdq => "\tcdq"@,
        InstructionView::Jmp(label) => "\tjmp L"@ + label,
        InstructionView::JmpCC(cc, label) => "\tj"@ + condition_text(cc) + " L"@ + label,
        InstructionView::SetCC(cc, a) => one_operand("set"@ + condition_text(cc), a),
        InstructionView::Label(label) => "L"@ + label + ":"@,
        InstructionView::Idiv(a) => one_operand("idivl"@, a),
        InstructionView::AllocateStack(n) => "\tsubq $"@ + signed_decimal(n as int) + ", %rsp"@,
        InstructionView::DeallocateStack(n) => "\taddq $"@ + signed_decimal(n as int)
            + ", %rsp"@,
        InstructionView::Push(a) => one_operand("pushq"@, a),
        InstructionView::Call(name) => "\tcall _"@ + name,
        InstructionView::Return => "\tmovq\t%rbp, %rsp\n\tpopq\t%rbp\n\tret\n"@,
    }
}

/// The text `acc` with the lines of the instructions appended.
pub open spec fn with_instructions(acc: Seq<char>, instrs: Seq<InstructionView>) -> Seq<char>
    decreases instrs.len(),
{
    if instrs.len() == 0 {
        acc
    } else {
        with_instructions(acc, instrs.drop_last()) + instruction_text(instrs.last()) + "\n"@
    }
}

/// The first lines of a function: its symbol is made global and defined,
/// and the frame pointer is saved and set.
pub open spec fn function_header(name: Seq<char>) -> Seq<char> {
    "\t.globl _"@ + name + "\n_"@ + name + ":\n\tpushq\t%rbp\n\tmovq\t%rsp, %rbp\n"@
}

/// The text of a function.
pub open spec fn function_text(f: FunctionView) -> Seq<char> {
    with_instructions(function_header(f.name), f.instructions)
}

/// The text `acc` with the texts of the functions appended, each followed by
/// an empty line.
pub open spec fn with_functions(acc: Seq<char>, fs: Seq<FunctionView>) -> Seq<char>
    decreases fs.len(),
{
    if fs.len() == 0 {
        acc
    } else {
        with_functions(acc, fs.drop_last()) + function_text(fs.last()) + "\n"@
    }
}

/// The text of a program.
pub open spec fn program_text(p: AssemblyView) -> Seq<char> {
    with_functions(Seq::empty(), p.functions)
}

/// A register operand has a width that the machine has.
pub open spec fn operand_wf(o: OperandView) -> bool {
    o matches OperandView::Register(r) ==> r.wf()
}

/// Every register of the instruction has a width that the machine has.
pub open spec fn instruction_wf(i: InstructionView) -> bool {
    forall|k: int| 0 <= k < operands(i).len() ==> operand_wf(#[trigger] operands(i)[k])
}

/// Every register of the instructions has a width that the machine has.
pub open spec fn instructions_wf(s: Seq<InstructionView>) -> bool {
    forall|k: int| 0 <= k < s.len() ==> instruction_wf(#[trigger] s[k])
}

/// Every register of the program has a width that the machine has.
pub open spec fn program_wf(p: AssemblyView) -> bool {
    forall|k: int| 0 <= k < p.functions.len() ==> instructions_wf(
        (#[trigger] p.functions[k]).instructions,
    )
}

impl Register {
    /// The name of this register at the width that is used.
    pub fn to_text(&self) -> (s: String)
        requires
            self.wf(),
        ensures
            s@ == register_text(*self),
    {
        match self {
            Register::AX(size) => {
                if *size == 8 {
                    String::from_str("%rax")
                } else if *size == 4 {
                    String::from_str("%eax")
                } else {
                    String::from_str("%al")
                }
            },
            Register::DX(size) => {
                if *size == 8 {
                    String::from_str("%rdx")
                } else if *size == 4 {
                    String::from_str("%edx")
                } else {
                    String::from_str("%dl")
                }
            },
            Register::CX(size) => {
                if *size == 8 {
                    String::from_str("%rcx")
                } else if *size == 4 {
                    String::from_str("%ecx")
                } else {
                    String::from_str("%cl")
                }
            },
            Register::DI(size) => {
                if *size == 8 {
                    String::from_str("%rdi")
                } else if *size == 4 {
                    String::from_str("%edi")
                } else {
                    String::from_str("%dil")
                }
            },
            Register::SI(size) => {
                if *size == 8 {
                    String::from_str("%rsi")
                } else if *size == 4 {
                    String::from_str("%esi")
                } else {
                    String::from_str("%sil")
                }
            },
            Register::R8(size) => {
                if *size == 8 {
                    String::from_str("%r8")
                } else if *size == 4 {
                    String::from_str("%r8d")
                } else {
                    String::from_str("%r8b")
                }
            },
            Register::R9(size) => {
                if *size == 8 {
                    String::from_str("%r9")
                } else if *size == 4 {
                    String::from_str("%r9d")
                } else {
                    String::from_str("%r9b")
                }
            },
            Register::R10(size) => {
                if *size == 8 {
                    String::from_str("%r10")
                } else if *size == 4 {
                    String::from_str("%r10d")
                } else {
                    String::from_str("%r10b")
                }
            },
            Register::R11(size) => {
                if *size == 8 {
                    String::from_str("%r11")
                } else if *size == 4 {
                    String::from_str("%r11d")
                } else {
                    String::from_str("%r11b")
                }
            },
        }
    }
}

impl ConditionCode {
    /// The suffix of this condition code.
    pub fn to_text(&self) -> (s: String)
        ensures
            s@ == condition_text(*self),
    {
        match self {
            ConditionCode::E => String::from_str("e"),
            ConditionCode::NE => String::from_str("ne"),
            ConditionCode::G => String::from_str("g"),
            ConditionCode::GE => String::from_str("ge"),
            ConditionCode::L => String::from_str("l"),
            ConditionCode::LE => String::from_str("le"),
        }
    }
}

impl UnaryOp {
    /// The mnemonic of this operation.
    pub fn to_text(&self) -> (s: String)
        ensures
            s@ == unary_text(*self),
    {
        match self {
            UnaryOp::Neg => String::from_str("negl"),
            UnaryOp::Not => String::from_str("notl"),
        }
    }
}

impl BinaryOp {
    /// The mnemonic of this operation.
    pub fn to_text(&self) -> (s: String)
        ensures
            s@ == binary_text(*self),
    {
        match self {
            BinaryOp::Add => String::from_str("addl"),
            BinaryOp::Sub => String::from_str("subl"),
            BinaryOp::Mult => String::from_str("imull"),
            BinaryOp::BitwiseAnd => String::from_str("andl"),
            BinaryOp::BitwiseOr => String::from_str("orl"),
            BinaryOp::BitwiseXor => String::from_str("xorl"),
        }
    }
}

impl Operand {
    /// The text of this operand.
    pub fn to_text(&self) -> (s: String)
        requires
            operand_wf(self@),
        ensures
            s@ == operand_text(self@),
    {
        match self {
            Operand::Immediate(value) => {
                let mut s = String::from_str("$");
                push_i64(&mut s, *value);
                s
            },
            Operand::Register(r) => r.to_text(),
            Operand::Pseudo(name) => name.clone(),
            Operand::Stack(i) => {
                let mut s = String::new();
                push_i64(&mut s, *i);
                s.append("(%rbp)");
                proof {
                    assert(s@ =~= operand_text(self@));
                }
                s
            },
        }
    }
}

fn with_two_operands(mnemonic: &str, a: &Operand, b: &Operand) -> (s: String)
    requires
        operand_wf(a@),
        operand_wf(b@),
    ensures
        s@ == two_operands(mnemonic@, a@, b@),
{
    let mut s = String::from_str("\t");
    s.append(mnemonic);
    s.append(" ");
    let a = a.to_text();
    s.append(a.as_str());
    s.append(", ");
    let b = b.to_text();
    s.append(b.as_str());
    s
}

fn with_one_operand(mnemonic: &str, a: &Operand) -> (s: String)
    requires
        operand_wf(a@),
    ensures
        s@ == one_operand(mnemonic@, a@),
{
    let mut s = String::from_str("\t");
    s.append(mnemonic);
    s.append(" ");
    let a = a.to_text();
    s.append(a.as_str());
    s
}

impl Instruction {
    /// The text of this instruction, without the end of its last line.
    pub fn to_text(&self) -> (s: String)
        requires
            instruction_wf(self@),
        ensures
            s@ == instruction_text(self@),
    {
        proof {
            let ops = operands(self@);
            if ops.len() >= 1 {
                assert(operand_wf(ops[0]));
            }
            if ops.len() >= 2 {
                assert(operand_wf(ops[1]));
            }
        }
        match self {
            Instruction::Mov(src, dest) => with_two_operands("movl", src, dest),
            Instruction::Movb(src, dest) => with_two_operands("movb", src, dest),
            Instruction::Unary(op, operand) => {
                let m = op.to_text();
                with_one_operand(m.as_str(), operand)
            },
            Instruction::Binary(op, left, right) => {
                let m = op.to_text();
                with_two_operands(m.as_str(), left, right)
            },
            Instruction::Shl(a, b) => with_two_operands("shll", a, b),
            Instruction::Shr(a, b) => with_two_operands("sarl", a, b),
            Instruction::Cmp(left, right) => with_two_operands("cmpl", left, right),
            Instruction::Cdq => String::from_str("\tcdq"),
            Instruction::Jmp(label) => {
                let mut s = String::from_str("\tjmp L");
                s.append(label.as_str());
                s
            },
            Instruction::JmpCC(condition, label) => {
                let mut s = String::from_str("\tj");
                let c = condition.to_text();
                s.append(c.as_str());
                s.append(" L");
                s.append(label.as_str());
                s
            },
            Instruction::SetCC(condition, operand) => {
                let mut m = String::from_str("set");
                let c = condition.to_text();
                m.append(c.as_str());
                with_one_operand(m.as_str(), operand)
            },
            Instruction::Label(label) => {
                let mut s = String::from_str("L");
                s.append(label.as_str());
                s.append(":");
                s
            },
            Instruction::Idiv(operand) => with_one_operand("idivl", operand),
            Instruction::AllocateStack(i) => {
                let mut s = String::from_str("\tsubq $");
                push_i64(&mut s, *i);
                s.append(", %rsp");
                s
            },
            Instruction::DeallocateStack(i) => {
                let mut s = String::from_str("\taddq $");
                push_i64(&mut s, *i);
                s.append(", %rsp");
                s
            },
            Instruction::Push(operand) => with_one_operand("pushq", operand),
            Instruction::Call(label) => {
                let mut s = String::from_str("\tcall _");
                s.append(label.as_str());
                s
            },
            Instruction::Return => String::from_str("\tmovq\t%rbp, %rsp\n\tpopq\t%rbp\n\tret\n"),
        }
    }
}

impl Function {
    /// Appends the text of this function to `out`.
    pub fn write_text(&self, out: &mut String)
        requires
            instructions_wf(self@.instructions),
        ensures
            final(out)@ == old(out)@ + function_text(self@),
    {
        let mut s = String::from_str("\t.globl _");
        s.append(self.name.as_str());
        s.append("\n_");
        s.append(self.name.as_str());
        s.append(":\n\tpushq\t%rbp\n\tmovq\t%rsp, %rbp\n");
        let ghost instrs = self@.instructions;
        let mut i: usize = 0;
        proof {
            assert(instrs.take(0) =~= Seq::empty());
        }
        while i < self.instructions.len()
            invariant
                i <= self.instructions.len(),
                instrs == seq_view(self.instructions@),
                instructions_wf(instrs),
                s@ == with_instructions(function_header(self@.name), instrs.take(i as int)),
            decreases self.instructions.len() - i,
        {
            proof {
                lemma_take_step(instrs, i as int);
                assert(instruction_wf(instrs[i as int]));
            }
            let line = self.instructions[i].to_text();
            s.append(line.as_str());
            s.append("\n");
            i += 1;
        }
        proof {
            assert(instrs.take(i as int) =~= instrs);
        }
        out.append(s.as_str());
    }

    /// The text of this function.
    pub fn to_text(&self) -> (s: String)
        requires
            instructions_wf(self@.instructions),
        ensures
            s@ == function_text(self@),
    {
        let mut s = String::new();
        self.write_text(&mut s);
        proof {
            assert(s@ =~= function_text(self@));
        }
        s
    }
}

impl AssemblyProgram {
    /// The text of this program.
    pub fn to_text(&self) -> (s: String)
        requires
            program_wf(self@),
        ensures
            s@ == program_text(self@),
    {
        let mut s = String::new();
        let ghost fs = self@.functions;
        let mut i: usize = 0;
        proof {
            assert(fs.take(0) =~= Seq::empty());
        }
        while i < self.functions.len()
            invariant
                i <= self.functions.len(),
                fs == seq_view(self.functions@),
                program_wf(self@),
                s@ == with_functions(Seq::empty(), fs.take(i as int)),
            decreases self.functions.len() - i,
        {
            proof {
                lemma_take_step(fs, i as int);
                assert(instructions_wf(self@.functions[i as int].instructions));
            }
            self.functions[i].write_text(&mut s);
            s.append("\n");
            i += 1;
        }
        proof {
            assert(fs.take(i as int) =~= fs);
        }
        s
    }
}

impl Assembly {
    /// The assembly text of this program.
    pub fn to_text(&self) -> (s: String)
        requires
            program_wf(self@),
        ensures
            s@ == program_text(self@),
    {
        self.program.to_text()
    }
}

} // verus!
