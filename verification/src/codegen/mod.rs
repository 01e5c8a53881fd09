//! Instruction selection, replacement of pseudo-operands by stack slots, and
//! the rewriting of operands that the machine does not accept.

pub mod assembly;
pub mod emit;
pub mod flow;
pub mod rewrite;
pub mod selection;
pub mod stack_allocator;
pub mod unique;
pub mod widths;

use vstd::prelude::*;
use crate::views::{seq_view, push_view, clone_string, lemma_take_step};
use crate::tacky::tacky::{Instr, InstrView, Val, TackyAST, TackyProgramView};
use crate::tacky::tacky::Function as IrFunction;
use crate::tacky::tacky::FunctionView as IrFunctionView;
use crate::tacky::tacky::UnaryOp as IrUnaryOp;
use crate::tacky::tacky::BinaryOp as IrBinaryOp;
use crate::codegen::assembly::{
    Assembly, AssemblyProgram, AssemblyView, Function, FunctionView, Instruction, InstructionView,
    Operand, Register, ConditionCode, UnaryOp, BinaryOp,
};
use crate::codegen::selection::{
    operand_of, arg_register, param_moves, select, select_all, select_call, register_moves,
    stack_pushes, push_arg, call_padding, stack_arg_count, function_body, count_fits, calls_fit,
};
use crate::codegen::rewrite::{
    replace_operand, replace_pair, replace_instr, replace_instrs, replace_function,
    replace_program, all_no_pseudo, fixup_instr, fixup_instrs, fixup_function, fixup_program,
    frame_size, all_legal, lemma_replace_instrs_no_pseudo, lemma_fixup_instrs_legal,
    lemma_frame_size,
};
use crate::codegen::stack_allocator::{StackAllocator, StackAllocatorView};
use crate::codegen::emit::{instruction_wf, instructions_wf, program_wf};
use crate::codegen::flow::{asm_label_defs, asm_jump_targets, lemma_codegen_labels};
use crate::tacky::flow::{label_defs, jump_targets};
use crate::tacky::unique::defined_labels;
use crate::codegen::unique::{asm_defined_labels, lemma_codegen_defined};
use crate::codegen::widths::{
    lemma_function_body_wf, lemma_replace_instrs_wf, lemma_fixup_instrs_wf, lemma_concat_wf,
};

verus! {

/// The operand that holds a value.
pub fn generate_operand(val: &Val) -> (o: Operand)
    ensures
        o@ == operand_of(val@),
{
    match val {
        Val::Integer(i) => Operand::Immediate(*i),
        Val::Var(name) => Operand::Pseudo(clone_string(name)),
    }
}

fn argument_register(i: usize) -> (r: Register)
    requires
        i < 6,
    ensures
        r == arg_register(i as int),
{
    if i == 0 {
        Register::DI(4)
    } else if i == 1 {
        Register::SI(4)
    } else if i == 2 {
        Register::DX(4)
    } else if i == 3 {
        Register::CX(4)
    } else if i == 4 {
        Register::R8(4)
    } else {
        Register::R9(4)
    }
}

/// Selects the instructions of a function: the moves of its parameters out of
/// the argument registers and the caller's frame, then its body.
pub fn generate_function(name: String, params: &Vec<String>, ir_instrs: &Vec<Instr>) -> (f:
    Function)
    requires
        count_fits(params.len() as nat),
        calls_fit(seq_view(ir_instrs@)),
    ensures
        f@.name == name@,
        f@.instructions == function_body(seq_view(params@), seq_view(ir_instrs@)),
        f@.stack_allocator == StackAllocatorView::empty(),
{
    let mut instructions: Vec<Instruction> = Vec::new();
    let mut i: usize = 0;
    proof {
        assert(seq_view(instructions@) =~= param_moves(seq_view(params@)).take(0));
    }
    while i < params.len()
        invariant
            i <= params.len(),
            count_fits(params.len() as nat),
            seq_view(instructions@) == param_moves(seq_view(params@)).take(i as int),
        decreases params.len() - i,
    {
        let operand = Operand::Pseudo(clone_string(&params[i]));
        let source = if i < 6 {
            Operand::Register(argument_register(i))
        } else {
            Operand::Stack(16 + 8 * ((i - 6) as i64))
        };
        proof {
            lemma_take_step(param_moves(seq_view(params@)), i as int);
        }
        push_view(&mut instructions, Instruction::Mov(source, operand));
        i += 1;
    }
    proof {
        assert(param_moves(seq_view(params@)).take(i as int) =~= param_moves(seq_view(params@)));
    }
    generate_function_instructions(ir_instrs, &mut instructions);
    Function { name, instructions, stack_allocator: StackAllocator::new() }
}

/// Appends to `instructions` what is selected for each instruction of
/// `ir_instrs`, in order.
pub fn generate_function_instructions(ir_instrs: &Vec<Instr>, instructions: &mut Vec<Instruction>)
    requires
        calls_fit(seq_view(ir_instrs@)),
    ensures
        seq_view(final(instructions)@) == seq_view(old(instructions)@) + select_all(
            seq_view(ir_instrs@),
        ),
{
    let ghost ir = seq_view(ir_instrs@);
    let ghost start = seq_view(instructions@);
    let mut k: usize = 0;
    proof {
        assert(ir.take(0) =~= Seq::empty());
        assert(seq_view(instructions@) =~= start + select_all(ir.take(0)));
    }
    while k < ir_instrs.len()
        invariant
            k <= ir_instrs.len(),
            ir == seq_view(ir_instrs@),
            calls_fit(ir),
            seq_view(instructions@) == start + select_all(ir.take(k as int)),
        decreases ir_instrs.len() - k,
    {
        let ghost before = seq_view(instructions@);
        proof {
            lemma_take_step(ir, k as int);
            assert(ir[k as int] == ir_instrs@[k as int]@);
        }
        generate_instruction(&ir_instrs[k], instructions);
        proof {
            assert(seq_view(instructions@) =~= start + select_all(ir.take(k + 1)));
        }
        k += 1;
    }
    proof {
        assert(ir.take(k as int) =~= ir);
    }
}

/// Appends to `instructions` what is selected for one instruction.
fn generate_instruction(instr: &Instr, instructions: &mut Vec<Instruction>)
    requires
        instr@ matches InstrView::FuncCall(_, args, _) ==> count_fits(args.len()),
    ensures
        seq_view(final(instructions)@) == seq_view(old(instructions)@) + select(instr@),
{
    let ghost before = seq_view(instructions@);
    match instr {
        Instr::Return(val) => {
            let ret = generate_operand(val);
            push_view(
                instructions,
                Instruction::Mov(ret, Operand::Register(Register::AX(4))),
            );
            push_view(instructions, Instruction::Return);
        },
        Instr::Unary(IrUnaryOp::Not, src, dest) => {
            push_view(
                instructions,
                Instruction::Cmp(Operand::Immediate(0), generate_operand(src)),
            );
            push_view(
                instructions,
                Instruction::Mov(Operand::Immediate(0), generate_operand(dest)),
            );
            push_view(instructions, Instruction::SetCC(ConditionCode::E, generate_operand(dest)));
        },
        Instr::Unary(operator, src, dest) => {
            let src = generate_operand(src);
            let dst = generate_operand(dest);
            let op = match operator {
                IrUnaryOp::Negate => UnaryOp::Neg,
                _ => UnaryOp::Not,
            };
            push_view(instructions, Instruction::Mov(src, dst.clone()));
            push_view(instructions, Instruction::Unary(op, dst));
        },
        Instr::Binary(
            operator @ (IrBinaryOp::Equal
            | IrBinaryOp::NotEqual
            | IrBinaryOp::LessThan
            | IrBinaryOp::LessOrEqual
            | IrBinaryOp::GreaterThan
            | IrBinaryOp::GreaterOrEqual),
            left,
            right,
            dest,
        ) => {
            push_view(
                instructions,
                Instruction::Cmp(generate_operand(right), generate_operand(left)),
            );
            push_view(
                instructions,
                Instruction::Mov(Operand::Immediate(0), generate_operand(dest)),
            );
            let code = match operator {
                IrBinaryOp::Equal => ConditionCode::E,
                IrBinaryOp::NotEqual => ConditionCode::NE,
                IrBinaryOp::LessThan => ConditionCode::L,
                IrBinaryOp::LessOrEqual => ConditionCode::LE,
                IrBinaryOp::GreaterThan => ConditionCode::G,
                _ => ConditionCode::GE,
            };
            push_view(instructions, Instruction::SetCC(code, generate_operand(dest)));
        },
        Instr::Binary(operator, left, right, dest) => {
            let left = generate_operand(left);
            let right = generate_operand(right);
            let dst = generate_operand(dest);
            match operator {
                IrBinaryOp::Add => {
                    push_view(instructions, Instruction::Mov(left, dst.clone()));
                    push_view(instructions, Instruction::Binary(BinaryOp::Add, right, dst));
                },
                IrBinaryOp::Subtract => {
                    push_view(instructions, Instruction::Mov(left, dst.clone()));
                    push_view(instructions, Instruction::Binary(BinaryOp::Sub, right, dst));
                },
                IrBinaryOp::Multiply => {
                    push_view(instructions, Instruction::Mov(left, dst.clone()));
                    push_view(instructions, Instruction::Binary(BinaryOp::Mult, right, dst));
                },
                IrBinaryOp::Divide => {
                    push_view(
                        instructions,
                        Instruction::Mov(left, Operand::Register(Register::AX(4))),
                    );
                    push_view(instructions, Instruction::Cdq);
                    push_view(instructions, Instruction::Idiv(right));
                    push_view(
                        instructions,
                        Instruction::Mov(Operand::Register(Register::AX(4)), dst),
                    );
                },
                IrBinaryOp::Modulus => {
                    push_view(
                        instructions,
                        Instruction::Mov(left, Operand::Register(Register::AX(4))),
                    );
                    push_view(instructions, Instruction::Cdq);
                    push_view(instructions, Instruction::Idiv(right));
                    push_view(
                        instructions,
                        Instruction::Mov(Operand::Register(Register::DX(4)), dst),
                    );
                },
                IrBinaryOp::BitwiseAnd => {
                    push_view(instructions, Instruction::Mov(left, dst.clone()));
                    push_view(
                        instructions,
                        Instruction::Binary(BinaryOp::BitwiseAnd, right, dst),
                    );
                },
                IrBinaryOp::BitwiseOr => {
                    push_view(instructions, Instruction::Mov(left, dst.clone()));
                    push_view(
                        instructions,
                        Instruction::Binary(BinaryOp::BitwiseOr, right, dst),
                    );
                },
                IrBinaryOp::BitwiseXor => {
                    push_view(instructions, Instruction::Mov(left, dst.clone()));
                    push_view(
                        instructions,
                        Instruction::Binary(BinaryOp::BitwiseXor, right, dst),
                    );
                },
                IrBinaryOp::LeftShift => {
                    push_view(instructions, Instruction::Mov(left, dst.clone()));
                    push_view(instructions, Instruction::Shl(right, dst));
                },
                _ => {
                    push_view(instructions, Instruction::Mov(left, dst.clone()));
                    push_view(instructions, Instruction::Shr(right, dst));
                },
            };
        },
        Instr::Jump(label) => {
            push_view(instructions, Instruction::Jmp(clone_string(label)));
        },
        Instr::JumpIfNotZero(condition, target) => {
            push_view(
                instructions,
                Instruction::Cmp(Operand::Immediate(0), generate_operand(condition)),
            );
            push_view(instructions, Instruction::JmpCC(ConditionCode::NE, clone_string(target)));
        },
        Instr::JumpIfZero(condition, target) => {
            push_view(
                instructions,
                Instruction::Cmp(Operand::Immediate(0), generate_operand(condition)),
            );
            push_view(instructions, Instruction::JmpCC(ConditionCode::E, clone_string(target)));
        },
        Instr::Copy(src, dest) => {
            push_view(
                instructions,
                Instruction::Mov(generate_operand(src), generate_operand(dest)),
            );
        },
        Instr::Label(label) => {
            push_view(instructions, Instruction::Label(clone_string(label)));
        },
        Instr::FuncCall(name, args, dest) => {
            generate_call(name, args, dest, instructions);
        },
    }
    proof {
        assert(seq_view(instructions@) =~= before + select(instr@));
    }
}

/// Appends the instructions of one call.
fn generate_call(name: &String, args: &Vec<Val>, dest: &Val, instructions: &mut Vec<Instruction>)
    requires
        count_fits(args.len() as nat),
    ensures
        seq_view(final(instructions)@) == seq_view(old(instructions)@) + select_call(
            name@,
            seq_view(args@),
            dest@,
        ),
{
    let ghost start = seq_view(instructions@);
    let ghost a = seq_view(args@);
    let n = args.len();
    let stack_args_size: i64 = if n > 6 {
        (n - 6) as i64
    } else {
        0
    };
    let stack_padding: i64 = if stack_args_size % 2 == 1 {
        push_view(instructions, Instruction::AllocateStack(8));
        8
    } else {
        0
    };
    let ghost padded = seq_view(instructions@);
    let ghost pad_seq = if call_padding(a) != 0 {
        seq![InstructionView::AllocateStack(8)]
    } else {
        Seq::empty()
    };
    proof {
        assert(stack_args_size == stack_arg_count(a));
        assert(padded =~= start + pad_seq);
    }
    let in_registers: usize = if n < 6 {
        n
    } else {
        6
    };
    let mut i: usize = 0;
    while i < in_registers
        invariant
            i <= in_registers <= 6,
            in_registers <= args.len(),
            a == seq_view(args@),
            seq_view(instructions@) == padded + register_moves(a, i as int),
        decreases in_registers - i,
    {
        let operand = generate_operand(&args[i]);
        push_view(instructions, Instruction::Mov(operand, Operand::Register(argument_register(i))));
        i += 1;
        proof {
            assert(seq_view(instructions@) =~= padded + register_moves(a, i as int));
        }
    }
    let ghost moved = seq_view(instructions@);
    let mut j: usize = n;
    while j > 6
        invariant
            j <= n,
            n == args.len(),
            n <= 6 ==> j == n,
            n > 6 ==> j >= 6,
            a == seq_view(args@),
            seq_view(instructions@) == moved + stack_pushes(a, if n > 6 { j as int } else { 6 }),
        decreases j,
    {
        j -= 1;
        let ghost before = seq_view(instructions@);
        let operand = generate_operand(&args[j]);
        match operand {
            Operand::Immediate(_) | Operand::Register(_) => {
                push_view(instructions, Instruction::Push(operand));
            },
            _ => {
                push_view(
                    instructions,
                    Instruction::Mov(operand, Operand::Register(Register::AX(4))),
                );
                push_view(instructions, Instruction::Push(Operand::Register(Register::AX(8))));
            },
        }
        proof {
            assert(seq_view(instructions@) =~= before + push_arg(a[j as int]));
            assert(seq_view(instructions@) =~= moved + stack_pushes(a, j as int));
        }
    }
    let ghost pushed = seq_view(instructions@);
    proof {
        assert(pushed == moved + stack_pushes(a, 6));
        assert(moved == padded + register_moves(a, in_registers as int));
    }
    push_view(instructions, Instruction::Call(clone_string(name)));
    let dealloc_bytes = stack_args_size * 8 + stack_padding;
    let ghost released = 8 * stack_arg_count(a) + call_padding(a);
    let ghost release_seq = if released > 0 {
        seq![InstructionView::DeallocateStack(released as i64)]
    } else {
        Seq::empty()
    };
    proof {
        assert(dealloc_bytes == released);
    }
    if dealloc_bytes > 0 {
        push_view(instructions, Instruction::DeallocateStack(dealloc_bytes));
    }
    let result = generate_operand(dest);
    push_view(instructions, Instruction::Mov(Operand::Register(Register::AX(4)), result));
    proof {
        assert(seq_view(instructions@) =~= pushed + seq![InstructionView::Call(name@)]
            + release_seq + seq![
            InstructionView::Mov(crate::codegen::selection::eax(), operand_of(dest@)),
        ]);
        assert(seq_view(instructions@) =~= start + select_call(name@, a, dest@));
    }
}

/// Replaces a pseudo-operand by the stack slot of its name, which is
/// allocated on first sight. Any other operand stays.
pub fn convert_pseudo_stack(pseudo: &mut Operand, size: i64, stack_allocator: &mut StackAllocator)
    requires
        old(stack_allocator)@.wf(),
        0 <= size,
        old(stack_allocator)@.offset + size <= i64::MAX,
    ensures
        final(pseudo)@ == replace_operand(old(pseudo)@, old(stack_allocator)@, size).0,
        final(stack_allocator)@ == replace_operand(old(pseudo)@, old(stack_allocator)@, size).1,
        final(stack_allocator)@.wf(),
        old(stack_allocator)@.offset <= final(stack_allocator)@.offset <= old(
            stack_allocator,
        )@.offset + size,
{
    if let Operand::Pseudo(name) = pseudo {
        let name = clone_string(name);
        *pseudo = Operand::Stack(-stack_allocator.allocate(name, size));
    }
}

fn convert_pair(x: &mut Operand, y: &mut Operand, stack_allocator: &mut StackAllocator)
    requires
        old(stack_allocator)@.wf(),
        old(stack_allocator)@.offset + 8 <= i64::MAX,
    ensures
        (final(x)@, final(y)@, final(stack_allocator)@) == replace_pair(
            old(x)@,
            old(y)@,
            old(stack_allocator)@,
        ),
        final(stack_allocator)@.wf(),
        old(stack_allocator)@.offset <= final(stack_allocator)@.offset <= old(
            stack_allocator,
        )@.offset + 8,
{
    convert_pseudo_stack(x, 4, stack_allocator);
    convert_pseudo_stack(y, 4, stack_allocator);
}

fn replace_in_instruction(instr: &mut Instruction, stack_allocator: &mut StackAllocator)
    requires
        old(stack_allocator)@.wf(),
        old(stack_allocator)@.offset + 8 <= i64::MAX,
    ensures
        (final(instr)@, final(stack_allocator)@) == replace_instr(
            old(instr)@,
            old(stack_allocator)@,
        ),
        final(stack_allocator)@.wf(),
        old(stack_allocator)@.offset <= final(stack_allocator)@.offset <= old(
            stack_allocator,
        )@.offset + 8,
{
    match instr {
        Instruction::Mov(src, dst) => {
            convert_pair(src, dst, stack_allocator);
        },
        Instruction::Movb(src, dst) => {
            convert_pair(src, dst, stack_allocator);
        },
        Instruction::Unary(_, operand) => {
            convert_pseudo_stack(operand, 4, stack_allocator);
        },
        Instruction::Binary(_, left, right) => {
            convert_pair(left, right, stack_allocator);
        },
        Instruction::Idiv(operand) => {
            convert_pseudo_stack(operand, 4, stack_allocator);
        },
        Instruction::Shl(dest, count) => {
            convert_pair(dest, count, stack_allocator);
        },
        Instruction::Shr(dest, count) => {
            convert_pair(dest, count, stack_allocator);
        },
        Instruction::Cmp(left, right) => {
            convert_pair(left, right, stack_allocator);
        },
        Instruction::SetCC(_, operand) => {
            convert_pseudo_stack(operand, 4, stack_allocator);
        },
        Instruction::Push(operand) => {
            convert_pseudo_stack(operand, 4, stack_allocator);
        },
        _ => {},
    }
}

/// The room that replacement needs: the slots of a function, at most two for
/// each instruction, fit the machine's signed 64-bit integers together with
/// the rounding of the frame.
pub open spec fn slots_fit(f: FunctionView) -> bool {
    &&& f.stack_allocator.wf()
    &&& f.stack_allocator.offset + 8 * f.instructions.len() + 15 <= i64::MAX
}

fn replace_in_function(func: &mut Function)
    requires
        slots_fit(old(func)@),
    ensures
        final(func)@ == replace_function(old(func)@),
        final(func)@.stack_allocator.wf(),
        final(func)@.stack_allocator.offset <= i64::MAX - 15,
        all_no_pseudo(final(func)@.instructions),
{
    let n = func.instructions.len();
    let ghost old_instrs = seq_view(func.instructions@);
    let ghost old_alloc = func.stack_allocator@;
    let mut i: usize = 0;
    proof {
        assert(old_instrs.take(0) =~= Seq::empty());
        assert(seq_view(func.instructions@).take(0) =~= Seq::empty());
    }
    while i < n
        invariant
            i <= n,
            n == func.instructions.len(),
            n == old_instrs.len(),
            func.name == old(func).name,
            func.stack_allocator@.wf(),
            func.stack_allocator@.offset + 8 * (n - i) + 15 <= i64::MAX,
            (seq_view(func.instructions@).take(i as int), func.stack_allocator@) == replace_instrs(
                old_instrs.take(i as int),
                old_alloc,
            ),
            forall|k: int| i <= k < n ==> seq_view(func.instructions@)[k] == old_instrs[k],
        decreases n - i,
    {
        let ghost before = seq_view(func.instructions@);
        replace_in_instruction(&mut func.instructions[i], &mut func.stack_allocator);
        proof {
            let after = seq_view(func.instructions@);
            lemma_take_step(old_instrs, i as int);
            lemma_take_step(after, i as int);
            assert(after.take(i as int) =~= before.take(i as int));
        }
        i += 1;
    }
    proof {
        assert(old_instrs.take(n as int) =~= old_instrs);
        assert(seq_view(func.instructions@).take(n as int) =~= seq_view(func.instructions@));
        lemma_replace_instrs_no_pseudo(old_instrs, old_alloc);
    }
}

/// Replaces every pseudo-operand of the program by a stack slot, in one
/// forward walk over each function.
pub fn replace_pseudoregisters(assembly: &mut Assembly)
    requires
        forall|k: int|
            0 <= k < old(assembly)@.functions.len() ==> slots_fit(
                #[trigger] old(assembly)@.functions[k],
            ),
    ensures
        final(assembly)@ == replace_program(old(assembly)@),
        forall|k: int|
            0 <= k < final(assembly)@.functions.len() ==> {
                &&& all_no_pseudo((#[trigger] final(assembly)@.functions[k]).instructions)
                &&& final(assembly)@.functions[k].stack_allocator.wf()
                &&& final(assembly)@.functions[k].stack_allocator.offset <= i64::MAX - 15
            },
{
    let n = assembly.program.functions.len();
    let ghost old_funcs = old(assembly)@.functions;
    let mut i: usize = 0;
    while i < n
        invariant
            i <= n,
            n == assembly.program.functions.len(),
            n == old_funcs.len(),
            old_funcs == old(assembly)@.functions,
            forall|k: int| 0 <= k < n ==> slots_fit(#[trigger] old_funcs[k]),
            forall|k: int|
                0 <= k < i ==> {
                    &&& (#[trigger] assembly.program.functions@[k])@ == replace_function(
                        old_funcs[k],
                    )
                    &&& all_no_pseudo(assembly.program.functions@[k]@.instructions)
                    &&& assembly.program.functions@[k]@.stack_allocator.wf()
                    &&& assembly.program.functions@[k]@.stack_allocator.offset <= i64::MAX - 15
                },
            forall|k: int|
                i <= k < n ==> (#[trigger] assembly.program.functions@[k])@ == old_funcs[k],
        decreases n - i,
    {
        proof {
            assert(slots_fit(old_funcs[i as int]));
        }
        replace_in_function(&mut assembly.program.functions[i]);
        i += 1;
    }
    proof {
        assert(assembly@.functions =~= replace_program(old(assembly)@).functions);
    }
}

/// Rewrites the instructions whose operands the machine does not accept, and
/// puts the set-up of the frame in front of each function.
pub fn fixup_instructions(assembly: &mut Assembly)
    requires
        forall|k: int|
            0 <= k < old(assembly)@.functions.len() ==> 0 <= (#[trigger] old(
                assembly,
            )@.functions[k]).stack_allocator.offset <= i64::MAX - 15,
    ensures
        final(assembly)@ == fixup_program(old(assembly)@),
        forall|k: int|
            0 <= k < final(assembly)@.functions.len() ==> {
                let f = #[trigger] final(assembly)@.functions[k];
                &&& f.instructions.len() > 0
                &&& f.instructions[0] matches InstructionView::AllocateStack(bytes) && bytes % 16
                    == 0 && bytes >= f.stack_allocator.offset
                &&& all_legal(f.instructions)
                &&& (all_no_pseudo(old(assembly)@.functions[k].instructions) ==> all_no_pseudo(
                    f.instructions,
                ))
            },
{
    let n = assembly.program.functions.len();
    let ghost old_funcs = old(assembly)@.functions;
    let mut i: usize = 0;
    while i < n
        invariant
            i <= n,
            n == assembly.program.functions.len(),
            n == old_funcs.len(),
            old_funcs == old(assembly)@.functions,
            forall|k: int|
                0 <= k < n ==> 0 <= (#[trigger] old_funcs[k]).stack_allocator.offset <= i64::MAX
                    - 15,
            forall|k: int|
                0 <= k < i ==> (#[trigger] assembly.program.functions@[k])@ == fixup_function(
                    old_funcs[k],
                ),
            forall|k: int|
                i <= k < n ==> (#[trigger] assembly.program.functions@[k])@ == old_funcs[k],
        decreases n - i,
    {
        proof {
            assert(0 <= old_funcs[i as int].stack_allocator.offset <= i64::MAX - 15);
        }
        fixup_function_instructions(&mut assembly.program.functions[i]);
        i += 1;
    }
    proof {
        assert(assembly@.functions =~= fixup_program(old(assembly)@).functions);
        assert forall|k: int| 0 <= k < assembly@.functions.len() implies {
            let f = #[trigger] assembly@.functions[k];
            &&& f.instructions.len() > 0
            &&& f.instructions[0] matches InstructionView::AllocateStack(bytes) && bytes % 16 == 0
                && bytes >= f.stack_allocator.offset
            &&& all_legal(f.instructions)
            &&& (all_no_pseudo(old(assembly)@.functions[k].instructions) ==> all_no_pseudo(
                f.instructions,
            ))
        } by {
            let g = old_funcs[k];
            assert(assembly@.functions[k] == fixup_function(g));
            lemma_frame_size(g.stack_allocator.offset);
            lemma_fixup_instrs_legal(g.instructions);
        }
    }
}

fn fixup_function_instructions(func: &mut Function)
    requires
        0 <= old(func)@.stack_allocator.offset <= i64::MAX - 15,
    ensures
        final(func)@ == fixup_function(old(func)@),
{
    let stack_size = func.stack_allocator.get();
    let stack_size = ((stack_size + 15) / 16) * 16;
    let mut new_instructions: Vec<Instruction> = Vec::new();
    push_view(&mut new_instructions, Instruction::AllocateStack(stack_size));
    let ghost head = seq_view(new_instructions@);
    let ghost instrs = seq_view(func.instructions@);
    proof {
        assert(stack_size == frame_size(func.stack_allocator@.offset));
        assert(head =~= seq![InstructionView::AllocateStack(stack_size)]);
    }
    let n = func.instructions.len();
    let mut i: usize = 0;
    proof {
        assert(instrs.take(0) =~= Seq::empty());
        assert(seq_view(new_instructions@) =~= head + fixup_instrs(instrs.take(0)));
    }
    while i < n
        invariant
            i <= n,
            n == func.instructions.len(),
            instrs == seq_view(func.instructions@),
            seq_view(new_instructions@) == head + fixup_instrs(instrs.take(i as int)),
        decreases n - i,
    {
        let ghost before = seq_view(new_instructions@);
        let instr = &func.instructions[i];
        proof {
            lemma_take_step(instrs, i as int);
            assert(instrs[i as int] == instr@);
        }
        match instr {
            Instruction::Mov(Operand::Stack(src), Operand::Stack(dst)) => {
                push_view(
                    &mut new_instructions,
                    Instruction::Mov(Operand::Stack(*src), Operand::Register(Register::R10(4))),
                );
                push_view(
                    &mut new_instructions,
                    Instruction::Mov(Operand::Register(Register::R10(4)), Operand::Stack(*dst)),
                );
            },
            Instruction::Idiv(Operand::Immediate(v)) => {
                push_view(
                    &mut new_instructions,
                    Instruction::Mov(Operand::Immediate(*v), Operand::Register(Register::R10(4))),
                );
                push_view(
                    &mut new_instructions,
                    Instruction::Idiv(Operand::Register(Register::R10(4))),
                );
            },
            Instruction::Binary(
                op @ (BinaryOp::Add
                | BinaryOp::Sub
                | BinaryOp::BitwiseAnd
                | BinaryOp::BitwiseOr
                | BinaryOp::BitwiseXor),
                Operand::Stack(src),
                Operand::Stack(dst),
            ) => {
                push_view(
                    &mut new_instructions,
                    Instruction::Mov(Operand::Stack(*src), Operand::Register(Register::R10(4))),
                );
                push_view(
                    &mut new_instructions,
                    Instruction::Binary(
                        *op,
                        Operand::Register(Register::R10(4)),
                        Operand::Stack(*dst),
                    ),
                );
            },
            Instruction::Binary(BinaryOp::Mult, src, Operand::Stack(dst)) => {
                push_view(
                    &mut new_instructions,
                    Instruction::Mov(Operand::Stack(*dst), Operand::Register(Register::R11(4))),
                );
                push_view(
                    &mut new_instructions,
                    Instruction::Binary(
                        BinaryOp::Mult,
                        src.clone(),
                        Operand::Register(Register::R11(4)),
                    ),
                );
                push_view(
                    &mut new_instructions,
                    Instruction::Mov(Operand::Register(Register::R11(4)), Operand::Stack(*dst)),
                );
            },
            Instruction::Shl(Operand::Stack(count), dest) => {
                push_view(
                    &mut new_instructions,
                    Instruction::Movb(Operand::Stack(*count), Operand::Register(Register::CX(1))),
                );
                push_view(
                    &mut new_instructions,
                    Instruction::Shl(Operand::Register(Register::CX(1)), dest.clone()),
                );
            },
            Instruction::Shr(Operand::Stack(count), dest) => {
                push_view(
                    &mut new_instructions,
                    Instruction::Movb(Operand::Stack(*count), Operand::Register(Register::CX(1))),
                );
                push_view(
                    &mut new_instructions,
                    Instruction::Shr(Operand::Register(Register::CX(1)), dest.clone()),
                );
            },
            Instruction::Cmp(Operand::Stack(left), Operand::Stack(right)) => {
                push_view(
                    &mut new_instructions,
                    Instruction::Mov(Operand::Stack(*left), Operand::Register(Register::R10(4))),
                );
                push_view(
                    &mut new_instructions,
                    Instruction::Cmp(Operand::Register(Register::R10(4)), Operand::Stack(*right)),
                );
            },
            Instruction::Cmp(left, Operand::Immediate(v)) => {
                push_view(
                    &mut new_instructions,
                    Instruction::Mov(Operand::Immediate(*v), Operand::Register(Register::R10(4))),
                );
                push_view(
                    &mut new_instructions,
                    Instruction::Cmp(left.clone(), Operand::Register(Register::R10(4))),
                );
            },
            other => {
                push_view(&mut new_instructions, other.clone());
            },
        }
        proof {
            assert(seq_view(new_instructions@) =~= before + fixup_instr(instr@));
            assert(seq_view(new_instructions@) =~= head + fixup_instrs(instrs.take(i + 1)));
        }
        i += 1;
    }
    proof {
        assert(instrs.take(n as int) =~= instrs);
    }
    func.instructions = new_instructions;
}

/// A function right after instruction selection, with no slot allocated yet.
pub open spec fn selected_function(f: IrFunctionView) -> FunctionView {
    FunctionView {
        name: f.name,
        instructions: function_body(f.params, f.instrs),
        stack_allocator: StackAllocatorView::empty(),
    }
}

/// What code generation yields for one function of the intermediate
/// representation: selection, then replacement, then the rewriting.
pub open spec fn codegen_function(f: IrFunctionView) -> FunctionView {
    fixup_function(replace_function(selected_function(f)))
}

/// What code generation yields for a program.
pub open spec fn codegen_program(p: TackyProgramView) -> AssemblyView {
    AssemblyView { functions: p.funcs.map_values(|f: IrFunctionView| codegen_function(f)) }
}

/// Code generation uses registers only at widths that the machine has.
pub proof fn lemma_codegen_function_wf(f: IrFunctionView)
    ensures
        instructions_wf(codegen_function(f).instructions),
{
    let selected = selected_function(f);
    lemma_function_body_wf(f.params, f.instrs);
    lemma_replace_instrs_wf(selected.instructions, selected.stack_allocator);
    let replaced = replace_function(selected);
    lemma_fixup_instrs_wf(replaced.instructions);
    let head = seq![InstructionView::AllocateStack(frame_size(replaced.stack_allocator.offset))];
    assert(instructions_wf(head)) by {
        assert forall|k: int| 0 <= k < head.len() implies instruction_wf(#[trigger] head[k]) by {}
    }
    lemma_concat_wf(head, fixup_instrs(replaced.instructions));
}

/// The function is within the machine's limits: the offsets of its
/// parameters, of the arguments of its calls and of its stack slots fit
/// signed 64-bit integers.
pub open spec fn function_fits(f: IrFunctionView) -> bool {
    &&& count_fits(f.params.len())
    &&& calls_fit(f.instrs)
    &&& 8 * function_body(f.params, f.instrs).len() + 15 <= i64::MAX
}

/// Every function of the program is within the machine's limits.
pub open spec fn program_fits(p: TackyProgramView) -> bool {
    forall|k: int| 0 <= k < p.funcs.len() ==> function_fits(#[trigger] p.funcs[k])
}

fn count_within_limits(n: usize) -> (b: bool)
    ensures
        b == count_fits(n as nat),
{
    (n as u128) * 8 + 16 <= 0x7fff_ffff_ffff_ffffu128
}

/// Tests whether a function is within the machine's limits.
pub fn function_within_limits(f: &IrFunction) -> (b: bool)
    ensures
        b == function_fits(f@),
{
    if !count_within_limits(f.params.len()) {
        return false;
    }
    let mut k: usize = 0;
    while k < f.instrs.len()
        invariant
            k <= f.instrs.len(),
            forall|j: int|
                0 <= j < k ==> (#[trigger] seq_view(f.instrs@)[j] matches InstrView::FuncCall(
                    _,
                    args,
                    _,
                ) ==> count_fits(args.len())),
        decreases f.instrs.len() - k,
    {
        if let Instr::FuncCall(_, args, _) = &f.instrs[k] {
            if !count_within_limits(args.len()) {
                proof {
                    assert(seq_view(f.instrs@)[k as int] == f.instrs@[k as int]@);
                }
                return false;
            }
        }
        k += 1;
    }
    let g = generate_function(clone_string(&f.name), &f.params, &f.instrs);
    (g.instructions.len() as u128) * 8 + 15 <= 0x7fff_ffff_ffff_ffffu128
}

/// Tests whether every function of a program is within the machine's limits.
pub fn within_limits(tacky: &TackyAST) -> (b: bool)
    ensures
        b == program_fits(tacky@),
{
    let mut k: usize = 0;
    while k < tacky.program.funcs.len()
        invariant
            k <= tacky.program.funcs.len(),
            forall|j: int| 0 <= j < k ==> function_fits(#[trigger] tacky@.funcs[j]),
        decreases tacky.program.funcs.len() - k,
    {
        if !function_within_limits(&tacky.program.funcs[k]) {
            proof {
                assert(tacky@.funcs[k as int] == tacky.program.funcs@[k as int]@);
            }
            return false;
        }
        proof {
            assert(tacky@.funcs[k as int] == tacky.program.funcs@[k as int]@);
        }
        k += 1;
    }
    true
}

/// Generates the instruction listing of a program: selection for every
/// function, then replacement of the pseudo-operands, then the rewriting of
/// operands.
pub fn generate_assembly(tacky: &TackyAST) -> (assembly: Assembly)
    requires
        program_fits(tacky@),
    ensures
        assembly@ == codegen_program(tacky@),
        program_wf(assembly@),
        assembly@.functions.len() == tacky@.funcs.len(),
        forall|k: int|
            0 <= k < assembly@.functions.len() ==> {
                let f = #[trigger] assembly@.functions[k];
                &&& asm_label_defs(f.instructions) == label_defs(tacky@.funcs[k].instrs)
                &&& asm_jump_targets(f.instructions) == jump_targets(tacky@.funcs[k].instrs)
                &&& asm_defined_labels(f.instructions) == defined_labels(tacky@.funcs[k].instrs)
            },
        forall|k: int|
            0 <= k < assembly@.functions.len() ==> {
                let f = #[trigger] assembly@.functions[k];
                &&& all_no_pseudo(f.instructions)
                &&& all_legal(f.instructions)
                &&& f.instructions.len() > 0
                &&& f.instructions[0] matches InstructionView::AllocateStack(bytes) && bytes % 16
                    == 0
            },
{
    let mut functions: Vec<Function> = Vec::new();
    let n = tacky.program.funcs.len();
    let mut i: usize = 0;
    while i < n
        invariant
            i <= n,
            n == tacky.program.funcs.len(),
            program_fits(tacky@),
            functions.len() == i,
            forall|k: int|
                0 <= k < i ==> (#[trigger] functions@[k])@ == selected_function(tacky@.funcs[k]),
        decreases n - i,
    {
        let func = &tacky.program.funcs[i];
        proof {
            assert(function_fits(tacky@.funcs[i as int]));
            assert(tacky@.funcs[i as int] == func@);
        }
        let f = generate_function(clone_string(&func.name), &func.params, &func.instrs);
        functions.push(f);
        i += 1;
    }
    let mut assembly = Assembly { program: AssemblyProgram { functions } };
    let ghost selected = assembly@;
    proof {
        assert forall|k: int| 0 <= k < selected.functions.len() implies slots_fit(
            #[trigger] selected.functions[k],
        ) by {
            assert(function_fits(tacky@.funcs[k]));
        }
    }
    replace_pseudoregisters(&mut assembly);
    fixup_instructions(&mut assembly);
    proof {
        assert(assembly@.functions =~= codegen_program(tacky@).functions);
        assert forall|k: int| 0 <= k < assembly@.functions.len() implies instructions_wf(
            (#[trigger] assembly@.functions[k]).instructions,
        ) by {
            lemma_codegen_function_wf(tacky@.funcs[k]);
        }
        assert forall|k: int| 0 <= k < assembly@.functions.len() implies {
            let f = #[trigger] assembly@.functions[k];
            &&& asm_label_defs(f.instructions) == label_defs(tacky@.funcs[k].instrs)
            &&& asm_jump_targets(f.instructions) == jump_targets(tacky@.funcs[k].instrs)
            &&& asm_defined_labels(f.instructions) == defined_labels(tacky@.funcs[k].instrs)
        } by {
            lemma_codegen_labels(tacky@.funcs[k]);
            lemma_codegen_defined(tacky@.funcs[k]);
        }
    }
    assembly
}

/// Generates the instruction listing of a program. Of every function of the
/// result: it defines the labels that the function it was made from does,
/// one for one and in their order, it jumps to the labels that that function
/// jumps to, no operand is a pseudo-operand, every instruction
/// has operands that the machine accepts, and the first instruction sets up
/// a frame whose size is a multiple of 16.
pub fn codegen(tacky: &TackyAST) -> (assembly: Assembly)
    requires
        program_fits(tacky@),
    ensures
        assembly@ == codegen_program(tacky@),
        program_wf(assembly@),
        assembly@.functions.len() == tacky@.funcs.len(),
        forall|k: int|
            0 <= k < assembly@.functions.len() ==> {
                let f = #[trigger] assembly@.functions[k];
                &&& asm_label_defs(f.instructions) == label_defs(tacky@.funcs[k].instrs)
                &&& asm_jump_targets(f.instructions) == jump_targets(tacky@.funcs[k].instrs)
                &&& asm_defined_labels(f.instructions) == defined_labels(tacky@.funcs[k].instrs)
            },
        forall|k: int|
            0 <= k < assembly@.functions.len() ==> {
                let f = #[trigger] assembly@.functions[k];
                &&& all_no_pseudo(f.instructions)
                &&& all_legal(f.instructions)
                &&& f.instructions.len() > 0
                &&& f.instructions[0] matches InstructionView::AllocateStack(bytes) && bytes % 16
                    == 0
            },
{
    generate_assembly(tacky)
}

} // verus!
