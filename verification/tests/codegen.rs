use minicc::codegen::assembly::{
    Assembly, AssemblyProgram, BinaryOp, ConditionCode, Function, Instruction, Operand, Register,
    UnaryOp,
};
use minicc::codegen::stack_allocator::StackAllocator;
use minicc::codegen::{
    codegen, convert_pseudo_stack, fixup_instructions, function_within_limits, generate_assembly,
    generate_function, generate_function_instructions, generate_operand, replace_pseudoregisters,
    within_limits,
};
use minicc::name_map::NameMap;
use minicc::tacky::tacky::BinaryOp as IrBinaryOp;
use minicc::tacky::tacky::Function as IrFunction;
use minicc::tacky::tacky::UnaryOp as IrUnaryOp;
use minicc::tacky::tacky::{Instr, TackyAST, TackyProgram, Val};

fn var(name: &str) -> Val {
    Val::Var(name.to_string())
}

fn num(i: i64) -> Val {
    Val::Integer(i)
}

fn text(instructions: &[Instruction]) -> Vec<String> {
    instructions.iter().map(|i| i.to_text()).collect()
}

/// The text of what is selected for the instructions, with pseudo-operands
/// still in place.
fn selected(instrs: Vec<Instr>) -> Vec<String> {
    let mut out = Vec::new();
    generate_function_instructions(&instrs, &mut out);
    text(&out)
}

fn program(funcs: Vec<IrFunction>) -> TackyAST {
    TackyAST { program: TackyProgram { funcs } }
}

fn function(name: &str, params: &[&str], instrs: Vec<Instr>) -> IrFunction {
    IrFunction {
        name: name.to_string(),
        params: params.iter().map(|p| p.to_string()).collect(),
        instrs,
    }
}

fn listing(instructions: Vec<Instruction>) -> Assembly {
    Assembly {
        program: AssemblyProgram {
            functions: vec![Function {
                name: "f".to_string(),
                instructions,
                stack_allocator: StackAllocator::new(),
            }],
        },
    }
}

fn stack(off: i64) -> Operand {
    Operand::Stack(off)
}

fn imm(v: i64) -> Operand {
    Operand::Immediate(v)
}

fn pseudo(name: &str) -> Operand {
    Operand::Pseudo(name.to_string())
}

fn eax() -> Operand {
    Operand::Register(Register::AX(4))
}

/// The text of the instructions after the rewriting of operands, without the
/// set-up of the frame.
fn fixed(instructions: Vec<Instruction>) -> Vec<String> {
    let mut a = listing(instructions);
    fixup_instructions(&mut a);
    let all = text(&a.program.functions[0].instructions);
    assert_eq!(all[0], "\tsubq $0, %rsp");
    all[1..].to_vec()
}

#[test]
fn operands_of_values() {
    assert!(matches!(generate_operand(&num(5)), Operand::Immediate(5)));
    assert!(matches!(generate_operand(&var("x.1")), Operand::Pseudo(name) if name == "x.1"));
}

#[test]
fn return_moves_into_eax() {
    assert_eq!(
        selected(vec![Instr::Return(num(3))]),
        vec!["\tmovl $3, %eax", "\tmovq\t%rbp, %rsp\n\tpopq\t%rbp\n\tret\n"]
    );
}

#[test]
fn not_compares_with_zero() {
    assert_eq!(
        selected(vec![Instr::Unary(IrUnaryOp::Not, var("a"), var("b"))]),
        vec!["\tcmpl $0, a", "\tmovl $0, b", "\tsete b"]
    );
}

#[test]
fn negate_and_complement_work_in_place_on_a_copy() {
    assert_eq!(
        selected(vec![Instr::Unary(IrUnaryOp::Negate, num(1), var("b"))]),
        vec!["\tmovl $1, b", "\tnegl b"]
    );
    assert_eq!(
        selected(vec![Instr::Unary(IrUnaryOp::Complement, var("a"), var("b"))]),
        vec!["\tmovl a, b", "\tnotl b"]
    );
}

#[test]
fn arithmetic_works_in_place_on_a_copy_of_the_left_operand() {
    let op = |o: IrBinaryOp| selected(vec![Instr::Binary(o, var("l"), var("r"), var("d"))]);
    assert_eq!(op(IrBinaryOp::Add), vec!["\tmovl l, d", "\taddl r, d"]);
    assert_eq!(op(IrBinaryOp::Subtract), vec!["\tmovl l, d", "\tsubl r, d"]);
    assert_eq!(op(IrBinaryOp::Multiply), vec!["\tmovl l, d", "\timull r, d"]);
    assert_eq!(op(IrBinaryOp::BitwiseAnd), vec!["\tmovl l, d", "\tandl r, d"]);
    assert_eq!(op(IrBinaryOp::BitwiseOr), vec!["\tmovl l, d", "\torl r, d"]);
    assert_eq!(op(IrBinaryOp::BitwiseXor), vec!["\tmovl l, d", "\txorl r, d"]);
    assert_eq!(op(IrBinaryOp::LeftShift), vec!["\tmovl l, d", "\tshll r, d"]);
    assert_eq!(op(IrBinaryOp::RightShift), vec!["\tmovl l, d", "\tsarl r, d"]);
}

#[test]
fn division_goes_through_eax_and_edx() {
    assert_eq!(
        selected(vec![Instr::Binary(IrBinaryOp::Divide, var("l"), var("r"), var("d"))]),
        vec!["\tmovl l, %eax", "\tcdq", "\tidivl r", "\tmovl %eax, d"]
    );
    assert_eq!(
        selected(vec![Instr::Binary(IrBinaryOp::Modulus, var("l"), num(3), var("d"))]),
        vec!["\tmovl l, %eax", "\tcdq", "\tidivl $3", "\tmovl %edx, d"]
    );
}

#[test]
fn comparisons_name_the_right_operand_first() {
    let op = |o: IrBinaryOp| selected(vec![Instr::Binary(o, var("l"), var("r"), var("d"))]);
    assert_eq!(op(IrBinaryOp::Equal), vec!["\tcmpl r, l", "\tmovl $0, d", "\tsete d"]);
    assert_eq!(op(IrBinaryOp::NotEqual), vec!["\tcmpl r, l", "\tmovl $0, d", "\tsetne d"]);
    assert_eq!(op(IrBinaryOp::LessThan), vec!["\tcmpl r, l", "\tmovl $0, d", "\tsetl d"]);
    assert_eq!(op(IrBinaryOp::LessOrEqual), vec!["\tcmpl r, l", "\tmovl $0, d", "\tsetle d"]);
    assert_eq!(op(IrBinaryOp::GreaterThan), vec!["\tcmpl r, l", "\tmovl $0, d", "\tsetg d"]);
    assert_eq!(op(IrBinaryOp::GreaterOrEqual), vec!["\tcmpl r, l", "\tmovl $0, d", "\tsetge d"]);
}

#[test]
fn copies_jumps_and_labels() {
    assert_eq!(
        selected(vec![
            Instr::Copy(num(1), var("a")),
            Instr::Jump("end.1".to_string()),
            Instr::JumpIfZero(var("a"), "else.2".to_string()),
            Instr::JumpIfNotZero(num(0), "start.3".to_string()),
            Instr::Label("end.1".to_string()),
        ]),
        vec![
            "\tmovl $1, a",
            "\tjmp Lend.1",
            "\tcmpl $0, a",
            "\tje Lelse.2",
            "\tcmpl $0, $0",
            "\tjne Lstart.3",
            "Lend.1:"
        ]
    );
}

#[test]
fn call_with_arguments_in_registers_only() {
    assert_eq!(
        selected(vec![Instr::FuncCall("f".to_string(), vec![], var("d"))]),
        vec!["\tcall _f", "\tmovl %eax, d"]
    );
    assert_eq!(
        selected(vec![Instr::FuncCall(
            "f".to_string(),
            vec![num(1), var("b"), num(3), num(4), num(5), var("g")],
            var("d")
        )]),
        vec![
            "\tmovl $1, %edi",
            "\tmovl b, %esi",
            "\tmovl $3, %edx",
            "\tmovl $4, %ecx",
            "\tmovl $5, %r8d",
            "\tmovl g, %r9d",
            "\tcall _f",
            "\tmovl %eax, d"
        ]
    );
}

#[test]
fn call_with_an_even_number_of_stack_arguments() {
    assert_eq!(
        selected(vec![Instr::FuncCall(
            "f".to_string(),
            vec![num(0), num(0), num(0), num(0), num(0), num(0), num(20), var("h")],
            var("d")
        )]),
        vec![
            "\tmovl $0, %edi",
            "\tmovl $0, %esi",
            "\tmovl $0, %edx",
            "\tmovl $0, %ecx",
            "\tmovl $0, %r8d",
            "\tmovl $0, %r9d",
            "\tmovl h, %eax",
            "\tpushq %rax",
            "\tpushq $20",
            "\tcall _f",
            "\taddq $16, %rsp",
            "\tmovl %eax, d"
        ]
    );
}

#[test]
fn call_with_an_odd_number_of_stack_arguments_is_padded() {
    assert_eq!(
        selected(vec![Instr::FuncCall(
            "f".to_string(),
            vec![num(1), num(2), num(3), num(4), num(5), num(6), num(7), num(8), num(9)],
            var("d")
        )]),
        vec![
            "\tsubq $8, %rsp",
            "\tmovl $1, %edi",
            "\tmovl $2, %esi",
            "\tmovl $3, %edx",
            "\tmovl $4, %ecx",
            "\tmovl $5, %r8d",
            "\tmovl $6, %r9d",
            "\tpushq $9",
            "\tpushq $8",
            "\tpushq $7",
            "\tcall _f",
            "\taddq $32, %rsp",
            "\tmovl %eax, d"
        ]
    );
}

#[test]
fn parameters_come_from_registers_and_from_the_callers_frame() {
    let f = generate_function(
        "f".to_string(),
        &vec!["a", "b", "c", "d", "e", "f", "g", "h"].iter().map(|s| s.to_string()).collect(),
        &vec![Instr::Return(var("h"))],
    );
    assert_eq!(f.name, "f");
    assert_eq!(f.stack_allocator.get(), 0);
    assert_eq!(
        text(&f.instructions),
        vec![
            "\tmovl %edi, a",
            "\tmovl %esi, b",
            "\tmovl %edx, c",
            "\tmovl %ecx, d",
            "\tmovl %r8d, e",
            "\tmovl %r9d, f",
            "\tmovl 16(%rbp), g",
            "\tmovl 24(%rbp), h",
            "\tmovl h, %eax",
            "\tmovq\t%rbp, %rsp\n\tpopq\t%rbp\n\tret\n"
        ]
    );
}

#[test]
fn allocator_hands_out_slots_in_order_of_first_sight() {
    let mut a = StackAllocator::new();
    assert_eq!(a.get(), 0);
    assert_eq!(a.allocate("x".to_string(), 4), 4);
    assert_eq!(a.allocate("y".to_string(), 4), 8);
    assert_eq!(a.allocate("x".to_string(), 4), 4);
    assert_eq!(a.allocate("z".to_string(), 8), 16);
    assert_eq!(a.allocate("y".to_string(), 8), 8);
    assert_eq!(a.get(), 16);
}

#[test]
fn name_map_keeps_the_last_binding_of_a_name() {
    let mut m: NameMap<i64> = NameMap::new();
    assert!(m.get(&"a".to_string()).is_none());
    assert!(!m.contains_key(&"a".to_string()));
    m.insert("a".to_string(), 1);
    m.insert("b".to_string(), 2);
    m.insert("a".to_string(), 3);
    assert_eq!(m.get(&"a".to_string()), Some(&3));
    assert_eq!(m.get(&"b".to_string()), Some(&2));
    assert!(m.contains_key(&"b".to_string()));
    assert!(m.get(&"c".to_string()).is_none());
}

#[test]
fn a_pseudo_operand_becomes_its_slot() {
    let mut a = StackAllocator::new();
    let mut o = pseudo("x");
    convert_pseudo_stack(&mut o, 4, &mut a);
    assert!(matches!(o, Operand::Stack(-4)));
    let mut o = pseudo("y");
    convert_pseudo_stack(&mut o, 4, &mut a);
    assert!(matches!(o, Operand::Stack(-8)));
    let mut o = pseudo("x");
    convert_pseudo_stack(&mut o, 4, &mut a);
    assert!(matches!(o, Operand::Stack(-4)));
    let mut o = imm(7);
    convert_pseudo_stack(&mut o, 4, &mut a);
    assert!(matches!(o, Operand::Immediate(7)));
    let mut o = eax();
    convert_pseudo_stack(&mut o, 4, &mut a);
    assert!(matches!(o, Operand::Register(Register::AX(4))));
    let mut o = stack(16);
    convert_pseudo_stack(&mut o, 4, &mut a);
    assert!(matches!(o, Operand::Stack(16)));
    assert_eq!(a.get(), 8);
}

#[test]
fn replacement_walks_every_operand_and_no_target() {
    let mut a = listing(vec![
        Instruction::Mov(pseudo("a"), pseudo("b")),
        Instruction::Movb(pseudo("c"), pseudo("a")),
        Instruction::Unary(UnaryOp::Neg, pseudo("b")),
        Instruction::Binary(BinaryOp::Add, pseudo("d"), pseudo("a")),
        Instruction::Cmp(imm(0), pseudo("e")),
        Instruction::Shl(pseudo("f"), pseudo("a")),
        Instruction::Shr(imm(1), pseudo("g")),
        Instruction::Idiv(pseudo("h")),
        Instruction::SetCC(ConditionCode::E, pseudo("i")),
        Instruction::Push(pseudo("j")),
        Instruction::Jmp("a".to_string()),
        Instruction::JmpCC(ConditionCode::NE, "b".to_string()),
        Instruction::Label("c".to_string()),
        Instruction::Call("d".to_string()),
        Instruction::Cdq,
        Instruction::AllocateStack(8),
        Instruction::DeallocateStack(8),
        Instruction::Return,
    ]);
    replace_pseudoregisters(&mut a);
    let f = &a.program.functions[0];
    assert_eq!(f.stack_allocator.get(), 40);
    assert_eq!(
        text(&f.instructions),
        vec![
            "\tmovl -4(%rbp), -8(%rbp)",
            "\tmovb -12(%rbp), -4(%rbp)",
            "\tnegl -8(%rbp)",
            "\taddl -16(%rbp), -4(%rbp)",
            "\tcmpl $0, -20(%rbp)",
            "\tshll -24(%rbp), -4(%rbp)",
            "\tsarl $1, -28(%rbp)",
            "\tidivl -32(%rbp)",
            "\tsete -36(%rbp)",
            "\tpushq -40(%rbp)",
            "\tjmp La",
            "\tjne Lb",
            "Lc:",
            "\tcall _d",
            "\tcdq",
            "\tsubq $8, %rsp",
            "\taddq $8, %rsp",
            "\tmovq\t%rbp, %rsp\n\tpopq\t%rbp\n\tret\n"
        ]
    );
}

#[test]
fn each_function_has_slots_of_its_own() {
    let mut a = Assembly {
        program: AssemblyProgram {
            functions: vec![
                Function {
                    name: "f".to_string(),
                    instructions: vec![Instruction::Mov(pseudo("a"), pseudo("b"))],
                    stack_allocator: StackAllocator::new(),
                },
                Function {
                    name: "g".to_string(),
                    instructions: vec![Instruction::Mov(pseudo("b"), eax())],
                    stack_allocator: StackAllocator::new(),
                },
            ],
        },
    };
    replace_pseudoregisters(&mut a);
    assert_eq!(text(&a.program.functions[0].instructions), vec!["\tmovl -4(%rbp), -8(%rbp)"]);
    assert_eq!(text(&a.program.functions[1].instructions), vec!["\tmovl -4(%rbp), %eax"]);
}

#[test]
fn move_between_slots_goes_through_r10() {
    assert_eq!(
        fixed(vec![Instruction::Mov(stack(-4), stack(-8))]),
        vec!["\tmovl -4(%rbp), %r10d", "\tmovl %r10d, -8(%rbp)"]
    );
    assert_eq!(fixed(vec![Instruction::Mov(imm(1), stack(-8))]), vec!["\tmovl $1, -8(%rbp)"]);
    assert_eq!(fixed(vec![Instruction::Mov(stack(-4), eax())]), vec!["\tmovl -4(%rbp), %eax"]);
}

#[test]
fn division_by_a_constant_goes_through_r10() {
    assert_eq!(
        fixed(vec![Instruction::Idiv(imm(3))]),
        vec!["\tmovl $3, %r10d", "\tidivl %r10d"]
    );
    assert_eq!(fixed(vec![Instruction::Idiv(stack(-4))]), vec!["\tidivl -4(%rbp)"]);
}

#[test]
fn arithmetic_between_slots_goes_through_r10() {
    for (op, name) in [
        (BinaryOp::Add, "addl"),
        (BinaryOp::Sub, "subl"),
        (BinaryOp::BitwiseAnd, "andl"),
        (BinaryOp::BitwiseOr, "orl"),
        (BinaryOp::BitwiseXor, "xorl"),
    ] {
        assert_eq!(
            fixed(vec![Instruction::Binary(op, stack(-4), stack(-8))]),
            vec!["\tmovl -4(%rbp), %r10d".to_string(), format!("\t{} %r10d, -8(%rbp)", name)]
        );
        assert_eq!(
            fixed(vec![Instruction::Binary(op, imm(2), stack(-8))]),
            vec![format!("\t{} $2, -8(%rbp)", name)]
        );
    }
}

#[test]
fn multiplication_into_a_slot_is_staged_through_r11() {
    assert_eq!(
        fixed(vec![Instruction::Binary(BinaryOp::Mult, imm(3), stack(-8))]),
        vec!["\tmovl -8(%rbp), %r11d", "\timull $3, %r11d", "\tmovl %r11d, -8(%rbp)"]
    );
    assert_eq!(
        fixed(vec![Instruction::Binary(BinaryOp::Mult, stack(-4), stack(-8))]),
        vec!["\tmovl -8(%rbp), %r11d", "\timull -4(%rbp), %r11d", "\tmovl %r11d, -8(%rbp)"]
    );
    assert_eq!(
        fixed(vec![Instruction::Binary(BinaryOp::Mult, stack(-4), eax())]),
        vec!["\timull -4(%rbp), %eax"]
    );
}

#[test]
fn shift_count_in_a_slot_goes_through_cl() {
    assert_eq!(
        fixed(vec![Instruction::Shl(stack(-4), stack(-8))]),
        vec!["\tmovb -4(%rbp), %cl", "\tshll %cl, -8(%rbp)"]
    );
    assert_eq!(
        fixed(vec![Instruction::Shr(stack(-4), stack(-8))]),
        vec!["\tmovb -4(%rbp), %cl", "\tsarl %cl, -8(%rbp)"]
    );
    assert_eq!(fixed(vec![Instruction::Shl(imm(2), stack(-8))]), vec!["\tshll $2, -8(%rbp)"]);
}

#[test]
fn comparison_between_slots_or_against_a_constant_goes_through_r10() {
    assert_eq!(
        fixed(vec![Instruction::Cmp(stack(-4), stack(-8))]),
        vec!["\tmovl -4(%rbp), %r10d", "\tcmpl %r10d, -8(%rbp)"]
    );
    assert_eq!(
        fixed(vec![Instruction::Cmp(stack(-4), imm(5))]),
        vec!["\tmovl $5, %r10d", "\tcmpl -4(%rbp), %r10d"]
    );
    assert_eq!(
        fixed(vec![Instruction::Cmp(imm(0), imm(5))]),
        vec!["\tmovl $5, %r10d", "\tcmpl $0, %r10d"]
    );
    assert_eq!(fixed(vec![Instruction::Cmp(imm(0), stack(-4))]), vec!["\tcmpl $0, -4(%rbp)"]);
}

#[test]
fn everything_else_passes_through_the_rewriting() {
    assert_eq!(
        fixed(vec![
            Instruction::Movb(stack(-4), stack(-8)),
            Instruction::Unary(UnaryOp::Not, stack(-4)),
            Instruction::Cdq,
            Instruction::Jmp("a".to_string()),
            Instruction::SetCC(ConditionCode::G, stack(-4)),
            Instruction::Label("a".to_string()),
            Instruction::Push(stack(-4)),
            Instruction::Call("g".to_string()),
        ]),
        vec![
            "\tmovb -4(%rbp), -8(%rbp)",
            "\tnotl -4(%rbp)",
            "\tcdq",
            "\tjmp La",
            "\tsetg -4(%rbp)",
            "La:",
            "\tpushq -4(%rbp)",
            "\tcall _g"
        ]
    );
}

#[test]
fn the_frame_is_rounded_up_to_sixteen_bytes() {
    let frame_of = |slots: usize| {
        let instrs: Vec<Instr> =
            (0..slots).map(|k| Instr::Copy(num(1), var(&format!("v{}", k)))).collect();
        let a = generate_assembly(&program(vec![function("f", &[], instrs)]));
        match &a.program.functions[0].instructions[0] {
            Instruction::AllocateStack(n) => *n,
            _ => panic!("no frame"),
        }
    };
    assert_eq!(frame_of(0), 0);
    assert_eq!(frame_of(1), 16);
    assert_eq!(frame_of(4), 16);
    assert_eq!(frame_of(5), 32);
    assert_eq!(frame_of(8), 32);
    assert_eq!(frame_of(9), 48);
}

#[test]
fn the_three_passes_together() {
    let t = program(vec![function(
        "add",
        &["a.0", "b.1"],
        vec![
            Instr::Binary(IrBinaryOp::Add, var("a.0"), var("b.1"), var("tmp.2")),
            Instr::Return(var("tmp.2")),
            Instr::Return(num(0)),
        ],
    )]);
    assert!(within_limits(&t));
    assert!(function_within_limits(&t.program.funcs[0]));
    let a = codegen(&t);
    assert_eq!(
        a.to_text(),
        "\t.globl _add\n_add:\n\tpushq\t%rbp\n\tmovq\t%rsp, %rbp\n\
         \tsubq $16, %rsp\n\
         \tmovl %edi, -4(%rbp)\n\
         \tmovl %esi, -8(%rbp)\n\
         \tmovl -4(%rbp), %r10d\n\
         \tmovl %r10d, -12(%rbp)\n\
         \tmovl -8(%rbp), %r10d\n\
         \taddl %r10d, -12(%rbp)\n\
         \tmovl -12(%rbp), %eax\n\
         \tmovq\t%rbp, %rsp\n\tpopq\t%rbp\n\tret\n\n\
         \tmovl $0, %eax\n\
         \tmovq\t%rbp, %rsp\n\tpopq\t%rbp\n\tret\n\n\n"
    );
    assert_eq!(a.program.functions[0].to_text() + "\n", a.program.to_text());
}

#[test]
fn the_final_listing_is_legal() {
    let t = program(vec![function(
        "f",
        &["p", "q", "r", "s", "t", "u", "v"],
        vec![
            Instr::Binary(IrBinaryOp::Multiply, var("p"), var("v"), var("m")),
            Instr::Binary(IrBinaryOp::Divide, var("m"), num(3), var("d")),
            Instr::Binary(IrBinaryOp::LessThan, var("d"), num(7), var("c")),
            Instr::Binary(IrBinaryOp::LeftShift, var("c"), var("p"), var("x")),
            Instr::Unary(IrUnaryOp::Not, num(4), var("n")),
            Instr::JumpIfZero(var("n"), "l".to_string()),
            Instr::FuncCall(
                "f".to_string(),
                vec![var("p"), num(1), num(2), num(3), num(4), num(5), var("x")],
                var("y"),
            ),
            Instr::Label("l".to_string()),
            Instr::Return(var("y")),
        ],
    )]);
    let a = codegen(&t);
    let f = &a.program.functions[0];
    assert!(matches!(f.instructions[0], Instruction::AllocateStack(n) if n % 16 == 0 && n >= f.stack_allocator.get()));
    let is_stack = |o: &Operand| matches!(o, Operand::Stack(_));
    let is_pseudo = |o: &Operand| matches!(o, Operand::Pseudo(_));
    let is_imm = |o: &Operand| matches!(o, Operand::Immediate(_));
    for i in &f.instructions {
        match i {
            Instruction::Mov(a, b) | Instruction::Cmp(a, b) => {
                assert!(!(is_stack(a) && is_stack(b)));
                assert!(!is_pseudo(a) && !is_pseudo(b));
                if let Instruction::Cmp(_, b) = i {
                    assert!(!is_imm(b));
                }
            },
            Instruction::Binary(op, a, b) => {
                assert!(!(is_stack(a) && is_stack(b)));
                assert!(!is_pseudo(a) && !is_pseudo(b));
                if matches!(op, BinaryOp::Mult) {
                    assert!(matches!(b, Operand::Register(Register::R11(4))));
                }
            },
            Instruction::Idiv(a) => assert!(!is_imm(a) && !is_pseudo(a)),
            Instruction::Shl(a, b) | Instruction::Shr(a, b) | Instruction::Movb(a, b) => {
                assert!(!is_pseudo(a) && !is_pseudo(b));
            },
            Instruction::Unary(_, a) | Instruction::SetCC(_, a) | Instruction::Push(a) => {
                assert!(!is_pseudo(a));
            },
            _ => {},
        }
    }
}

#[test]
fn text_of_registers_at_every_width() {
    let all: Vec<String> = [1usize, 4, 8]
        .iter()
        .flat_map(|s| {
            vec![
                Register::AX(*s),
                Register::DX(*s),
                Register::CX(*s),
                Register::DI(*s),
                Register::SI(*s),
                Register::R8(*s),
                Register::R9(*s),
                Register::R10(*s),
                Register::R11(*s),
            ]
        })
        .map(|r| r.to_text())
        .collect();
    assert_eq!(
        all,
        vec![
            "%al", "%dl", "%cl", "%dil", "%sil", "%r8b", "%r9b", "%r10b", "%r11b", "%eax", "%edx",
            "%ecx", "%edi", "%esi", "%r8d", "%r9d", "%r10d", "%r11d", "%rax", "%rdx", "%rcx",
            "%rdi", "%rsi", "%r8", "%r9", "%r10", "%r11"
        ]
    );
}

#[test]
fn text_of_operands_and_codes() {
    assert_eq!(imm(-5).to_text(), "$-5");
    assert_eq!(imm(0).to_text(), "$0");
    assert_eq!(stack(-12).to_text(), "-12(%rbp)");
    assert_eq!(stack(16).to_text(), "16(%rbp)");
    assert_eq!(pseudo("tmp.3").to_text(), "tmp.3");
    assert_eq!(Operand::Register(Register::AX(8)).to_text(), "%rax");
    assert_eq!(ConditionCode::E.to_text(), "e");
    assert_eq!(ConditionCode::NE.to_text(), "ne");
    assert_eq!(ConditionCode::G.to_text(), "g");
    assert_eq!(ConditionCode::GE.to_text(), "ge");
    assert_eq!(ConditionCode::L.to_text(), "l");
    assert_eq!(ConditionCode::LE.to_text(), "le");
    assert_eq!(UnaryOp::Neg.to_text(), "negl");
    assert_eq!(UnaryOp::Not.to_text(), "notl");
    assert_eq!(BinaryOp::Mult.to_text(), "imull");
    assert_eq!(stack(-4).clone().to_text(), "-4(%rbp)");
    assert_eq!(Instruction::Push(Operand::Register(Register::AX(8))).clone().to_text(), "\tpushq %rax");
}

#[test]
fn text_of_every_instruction() {
    assert_eq!(Instruction::Mov(imm(1), eax()).to_text(), "\tmovl $1, %eax");
    assert_eq!(
        Instruction::Movb(stack(-4), Operand::Register(Register::CX(1))).to_text(),
        "\tmovb -4(%rbp), %cl"
    );
    assert_eq!(Instruction::AllocateStack(32).to_text(), "\tsubq $32, %rsp");
    assert_eq!(Instruction::DeallocateStack(24).to_text(), "\taddq $24, %rsp");
    assert_eq!(Instruction::Call("main".to_string()).to_text(), "\tcall _main");
    assert_eq!(Instruction::Label("end.4".to_string()).to_text(), "Lend.4:");
    assert_eq!(Instruction::JmpCC(ConditionCode::LE, "x".to_string()).to_text(), "\tjle Lx");
    assert_eq!(Instruction::SetCC(ConditionCode::GE, stack(-8)).to_text(), "\tsetge -8(%rbp)");
    assert_eq!(Instruction::Return.to_text(), "\tmovq\t%rbp, %rsp\n\tpopq\t%rbp\n\tret\n");
}
