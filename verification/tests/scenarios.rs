//! End-to-end scenarios: a source is compiled to an instruction listing, and
//! the listing is run on a small model of the machine.

use std::collections::{BTreeSet, HashMap};

use minicc::codegen::assembly::{
    Assembly, BinaryOp, ConditionCode, Function, Instruction, Operand, Register, UnaryOp,
};
use minicc::codegen::{codegen, within_limits};
use minicc::compiler::Compiler;
use minicc::error::{Error, ErrorType};
use minicc::lexer::lex;
use minicc::parser::parse;
use minicc::tacky::gen_tacky;
use minicc::validator::validate;

fn chars(s: &str) -> Vec<char> {
    s.chars().collect()
}

fn listing(source: &str) -> Result<Assembly, Error> {
    let tokens = lex(chars(source))?;
    let ast = parse(tokens)?;
    let mut counter: usize = 0;
    let ast = validate(&ast, &mut counter)?;
    let tacky = gen_tacky(&ast, &mut counter);
    assert!(within_limits(&tacky));
    Ok(codegen(&tacky))
}

struct Machine<'a> {
    program: &'a Assembly,
    registers: HashMap<&'static str, u64>,
    memory: HashMap<i64, u32>,
    rsp: i64,
    rbp: i64,
    compared: (i32, i32),
    steps: usize,
}

fn register_name(r: &Register) -> (&'static str, usize) {
    match r {
        Register::AX(s) => ("ax", *s),
        Register::DX(s) => ("dx", *s),
        Register::CX(s) => ("cx", *s),
        Register::DI(s) => ("di", *s),
        Register::SI(s) => ("si", *s),
        Register::R8(s) => ("r8", *s),
        Register::R9(s) => ("r9", *s),
        Register::R10(s) => ("r10", *s),
        Register::R11(s) => ("r11", *s),
    }
}

impl<'a> Machine<'a> {
    fn new(program: &'a Assembly) -> Self {
        Machine {
            program,
            registers: HashMap::new(),
            memory: HashMap::new(),
            rsp: 1 << 20,
            rbp: 0,
            compared: (0, 0),
            steps: 0,
        }
    }

    fn read(&self, o: &Operand) -> u64 {
        match o {
            Operand::Immediate(v) => *v as u64,
            Operand::Register(r) => {
                let (name, size) = register_name(r);
                let v = *self.registers.get(name).unwrap_or(&0);
                match size {
                    8 => v,
                    4 => v & 0xffff_ffff,
                    _ => v & 0xff,
                }
            },
            Operand::Stack(off) => *self.memory.get(&(self.rbp + off)).unwrap_or(&0) as u64,
            Operand::Pseudo(name) => panic!("pseudo-operand {} in the final listing", name),
        }
    }

    fn write(&mut self, o: &Operand, value: u64) {
        match o {
            Operand::Register(r) => {
                let (name, size) = register_name(r);
                let old = *self.registers.get(name).unwrap_or(&0);
                let v = match size {
                    8 => value,
                    4 => value & 0xffff_ffff,
                    _ => (old & !0xff) | (value & 0xff),
                };
                self.registers.insert(name, v);
            },
            Operand::Stack(off) => {
                self.memory.insert(self.rbp + off, value as u32);
            },
            _ => panic!("write to an operand that holds no storage"),
        }
    }

    fn write_byte(&mut self, o: &Operand, value: u8) {
        match o {
            Operand::Stack(off) => {
                let old = *self.memory.get(&(self.rbp + off)).unwrap_or(&0);
                self.memory.insert(self.rbp + off, (old & !0xff) | value as u32);
            },
            _ => self.write(o, value as u64),
        }
    }

    fn push(&mut self, value: u64) {
        self.rsp -= 8;
        self.memory.insert(self.rsp, value as u32);
        self.memory.insert(self.rsp + 4, (value >> 32) as u32);
    }

    fn pop(&mut self) -> u64 {
        let low = *self.memory.get(&self.rsp).unwrap_or(&0) as u64;
        let high = *self.memory.get(&(self.rsp + 4)).unwrap_or(&0) as u64;
        self.rsp += 8;
        low | (high << 32)
    }

    fn holds(&self, cc: &ConditionCode) -> bool {
        // `cmpl a, b` compares b with a.
        let (a, b) = self.compared;
        match cc {
            ConditionCode::E => b == a,
            ConditionCode::NE => b != a,
            ConditionCode::G => b > a,
            ConditionCode::GE => b >= a,
            ConditionCode::L => b < a,
            ConditionCode::LE => b <= a,
        }
    }

    fn function(&self, name: &str) -> &'a Function {
        self.program
            .program
            .functions
            .iter()
            .find(|f| f.name == name)
            .unwrap_or_else(|| panic!("no function {}", name))
    }

    fn target(f: &Function, label: &str) -> usize {
        let found: Vec<usize> = f
            .instructions
            .iter()
            .enumerate()
            .filter(|(_, i)| matches!(i, Instruction::Label(l) if l == label))
            .map(|(k, _)| k)
            .collect();
        assert_eq!(found.len(), 1, "label {} is defined {} times", label, found.len());
        found[0]
    }

    /// Runs the function and gives what it leaves in `%eax`.
    fn call(&mut self, name: &str) -> i32 {
        let f = self.function(name);
        assert_eq!(self.rsp % 16, 0, "the stack is not aligned at the call of {}", name);
        self.push(0);
        self.push(self.rbp as u64);
        self.rbp = self.rsp;
        let mut pc: usize = 0;
        loop {
            self.steps += 1;
            assert!(self.steps < 1_000_000, "the program does not end");
            let instr = &f.instructions[pc];
            pc += 1;
            match instr {
                Instruction::Mov(src, dst) => {
                    let v = self.read(src);
                    self.write(dst, v & 0xffff_ffff);
                },
                Instruction::Movb(src, dst) => {
                    let v = self.read(src);
                    self.write_byte(dst, v as u8);
                },
                Instruction::Unary(op, o) => {
                    let v = self.read(o) as u32 as i32;
                    let r = match op {
                        UnaryOp::Neg => v.wrapping_neg(),
                        UnaryOp::Not => !v,
                    };
                    self.write(o, r as u32 as u64);
                },
                Instruction::Binary(op, src, dst) => {
                    let a = self.read(src) as u32 as i32;
                    let b = self.read(dst) as u32 as i32;
                    let r = match op {
                        BinaryOp::Add => b.wrapping_add(a),
                        BinaryOp::Sub => b.wrapping_sub(a),
                        BinaryOp::Mult => b.wrapping_mul(a),
                        BinaryOp::BitwiseAnd => b & a,
                        BinaryOp::BitwiseOr => b | a,
                        BinaryOp::BitwiseXor => b ^ a,
                    };
                    self.write(dst, r as u32 as u64);
                },
                Instruction::Cmp(a, b) => {
                    self.compared = (self.read(a) as u32 as i32, self.read(b) as u32 as i32);
                },
                Instruction::Shl(count, dst) => {
                    let n = (self.read(count) & 31) as u32;
                    let v = self.read(dst) as u32;
                    self.write(dst, (v << n) as u64);
                },
                Instruction::Shr(count, dst) => {
                    let n = (self.read(count) & 31) as u32;
                    let v = self.read(dst) as u32 as i32;
                    self.write(dst, (v >> n) as u32 as u64);
                },
                Instruction::Idiv(o) => {
                    let low = *self.registers.get("ax").unwrap_or(&0) & 0xffff_ffff;
                    let high = *self.registers.get("dx").unwrap_or(&0) & 0xffff_ffff;
                    let dividend = ((high << 32) | low) as i64;
                    let divisor = self.read(o) as u32 as i32 as i64;
                    assert!(divisor != 0, "division by zero");
                    self.registers.insert("ax", (dividend / divisor) as u32 as u64);
                    self.registers.insert("dx", (dividend % divisor) as u32 as u64);
                },
                Instruction::Cdq => {
                    let low = *self.registers.get("ax").unwrap_or(&0) as u32 as i32;
                    self.registers.insert("dx", if low < 0 { 0xffff_ffff } else { 0 });
                },
                Instruction::Jmp(label) => {
                    pc = Self::target(f, label);
                },
                Instruction::JmpCC(cc, label) => {
                    if self.holds(cc) {
                        pc = Self::target(f, label);
                    }
                },
                Instruction::SetCC(cc, o) => {
                    let v = if self.holds(cc) { 1 } else { 0 };
                    self.write_byte(o, v);
                },
                Instruction::Label(_) => {},
                Instruction::AllocateStack(n) => {
                    self.rsp -= n;
                },
                Instruction::DeallocateStack(n) => {
                    self.rsp += n;
                },
                Instruction::Push(o) => {
                    let v = self.read(o);
                    self.push(v);
                },
                Instruction::Call(callee) => {
                    let saved = self.rbp;
                    let result = self.call(callee);
                    assert_eq!(self.rbp, saved);
                    self.registers.insert("ax", result as u32 as u64);
                },
                Instruction::Return => {
                    self.rsp = self.rbp;
                    self.rbp = self.pop() as i64;
                    self.pop();
                    return *self.registers.get("ax").unwrap_or(&0) as u32 as i32;
                },
            }
        }
    }
}

/// What `main` returns when the compiled program runs.
fn run(source: &str) -> i32 {
    let assembly = listing(source).unwrap();
    let mut machine = Machine::new(&assembly);
    machine.call("main")
}

fn semantic_error(source: &str) -> (usize, String) {
    match listing(source) {
        Err(e) => {
            assert_eq!(e.kind(), ErrorType::SemanticError);
            (e.line(), e.message().clone())
        },
        Ok(_) => panic!("the source was accepted"),
    }
}

/// The labels that each function defines and the labels that its jumps go
/// to, in the order of the functions.
fn labels_and_targets(source: &str) -> Vec<(BTreeSet<String>, BTreeSet<String>)> {
    let assembly = listing(source).unwrap();
    assembly
        .program
        .functions
        .iter()
        .map(|f| {
            let mut defs = BTreeSet::new();
            let mut targets = BTreeSet::new();
            for i in &f.instructions {
                match i {
                    Instruction::Label(l) => {
                        assert!(defs.insert(l.clone()), "label {} is defined twice", l);
                    },
                    Instruction::Jmp(l) | Instruction::JmpCC(_, l) => {
                        targets.insert(l.clone());
                    },
                    _ => {},
                }
            }
            (defs, targets)
        })
        .collect()
}

#[test]
fn every_jump_goes_to_a_label_of_its_function() {
    let sources = [
        "int main(void){ int a=1; int b=0; return a && (b || 2) ? a : b; }",
        "int main(void){ int s=0; for(int i=1;i<=5;i=i+1) s=s+i; return s; }",
        "int main(void){ int i=0; do { if (i > 3) break; i = i + 1; } while (1); return i; }",
        "int f(int n){ while (n) { n = n - 1; if (n == 2) continue; } return n; } \
         int main(void){ for (;;) { if (f(3)) break; else break; } return 0; }",
    ];
    for source in sources {
        for (defs, targets) in labels_and_targets(source) {
            assert!(targets.is_subset(&defs), "{:?} is not within {:?}", targets, defs);
        }
    }
}

#[test]
fn labels_and_targets_agree_where_every_loop_is_left_and_repeated_by_jumps() {
    let sources = [
        "int main(void){ int a=1; int b=0; if (a) b = 2; return a && (b || 2) ? a : b; }",
        "int main(void){ int i=0; while (i < 3) i = i + 1; return i; }",
        "int main(void){ int i=0; do { if (i > 3) break; i = i + 1; if (i) continue; } while (1); return i; }",
        "int main(void){ int s=0; for(int i=1;i<=5;i=i+1) { if (i == 3) continue; s=s+i; } return s; }",
        "int main(void){ for(;;) { if (1) break; continue; } return 0; }",
    ];
    for source in sources {
        for (defs, targets) in labels_and_targets(source) {
            assert_eq!(defs, targets);
        }
    }
}

#[test]
fn a_loop_without_continue_defines_a_label_that_no_jump_goes_to() {
    let all = labels_and_targets(
        "int main(void){ int s=0; for(int i=1;i<=5;i=i+1) s=s+i; return s; }",
    );
    let (defs, targets) = &all[0];
    let unused: Vec<&String> = defs.difference(targets).collect();
    assert_eq!(unused, vec!["continue_for.2"]);
    let all = labels_and_targets(
        "int main(void){ int i=0; do i = i + 1; while (i < 3); return i; }",
    );
    let (defs, targets) = &all[0];
    let unused: Vec<&String> = defs.difference(targets).collect();
    assert_eq!(unused, vec!["break_dowhile.1", "continue_dowhile.1"]);
}

#[test]
fn arithmetic_respects_precedence() {
    assert_eq!(run("int main(void){ return 2+3*4; }"), 14);
}

#[test]
fn compound_assignments_update_the_variable() {
    assert_eq!(run("int main(void){ int x=10; x -= 3; x <<= 1; return x; }"), 14);
}

#[test]
fn logical_operators_short_circuit_to_zero_or_one() {
    assert_eq!(
        run("int main(void){ int a=1; int b=0; return a && (b || 2); }"),
        1
    );
}

#[test]
fn a_declaration_declares_one_variable() {
    match listing("int main(void){ int a=1,b=0; return a && (b || 2); }") {
        Err(e) => {
            assert_eq!(e.kind(), ErrorType::SyntaxError);
            assert_eq!(e.line(), 1);
        },
        Ok(_) => panic!("the source was accepted"),
    }
}

#[test]
fn logical_and_skips_the_right_operand() {
    assert_eq!(run("int main(void){ int a=0; int b=5; a && (b = 7); return b; }"), 5);
    assert_eq!(run("int main(void){ int a=1; int b=5; a || (b = 7); return b; }"), 5);
    assert_eq!(run("int main(void){ int a=1; int b=5; a && (b = 7); return b; }"), 7);
}

#[test]
fn for_loop_sums_one_to_five() {
    assert_eq!(
        run("int main(void){ int s=0; for(int i=1;i<=5;i=i+1) s=s+i; return s; }"),
        15
    );
}

#[test]
fn arguments_travel_in_registers() {
    assert_eq!(
        run("int add(int a,int b){ return a+b; } int main(void){ return add(17,25); }"),
        42
    );
}

#[test]
fn seventh_and_eighth_argument_travel_on_the_stack() {
    assert_eq!(
        run(
            "int f(int a,int b,int c,int d,int e,int f,int g,int h){ return g+h; } \
             int main(void){ return f(0,0,0,0,0,0,20,22); }"
        ),
        42
    );
}

#[test]
fn odd_number_of_stack_arguments_is_padded() {
    assert_eq!(
        run(
            "int f(int a,int b,int c,int d,int e,int f,int g){ return a+g; } \
             int main(void){ int x = 30; return f(1,0,0,0,0,0,x + 11); }"
        ),
        42
    );
}

#[test]
fn every_argument_reaches_its_parameter() {
    assert_eq!(
        run(
            "int f(int a,int b,int c,int d,int e,int f,int g,int h,int i){ \
               return a + 2*b + 3*c + 4*d + 5*e + 6*f + 7*g + 8*h + 9*i; } \
             int main(void){ return f(1,1,1,1,1,1,1,1,1) + f(9,0,0,0,0,0,0,0,1); }"
        ),
        45 + 18
    );
}

#[test]
fn undeclared_variable_is_rejected() {
    let (line, msg) = semantic_error("int main(void){ return a; }");
    assert_eq!(msg, "Undeclared variable a");
    assert_eq!(line, 1);
}

#[test]
fn second_declaration_in_a_scope_is_rejected() {
    let (_, msg) = semantic_error("int main(void){ int x; int x; return 0; }");
    assert_eq!(msg, "\"x\" already declared.");
    assert!(msg.contains("already declared"));
}

#[test]
fn break_outside_of_a_loop_is_rejected() {
    let (_, msg) = semantic_error("int main(void){ break; }");
    assert_eq!(msg, "break statement outside of loop");
}

#[test]
fn continue_outside_of_a_loop_is_rejected() {
    let (line, msg) = semantic_error("int main(void){\n continue;\n }");
    assert_eq!(msg, "continue outside of loop");
    assert_eq!(line, 2);
}

#[test]
fn declarations_that_differ_in_arity_are_rejected() {
    let (_, msg) = semantic_error("int f(int a); int f(int a,int b){ return 0; }");
    assert_eq!(msg, "Incompatible function declarations");
}

#[test]
fn a_parameter_without_a_name_is_a_syntax_error() {
    match listing("int f(int); int f(int,int){ return 0; }") {
        Err(e) => {
            assert_eq!(e.kind(), ErrorType::SyntaxError);
            assert_eq!(e.message(), "Expected an identifier, found ')'");
        },
        Ok(_) => panic!("the source was accepted"),
    }
}

#[test]
fn second_definition_is_rejected() {
    let (_, msg) = semantic_error("int f(void){ return 0; } int f(void){ return 1; }");
    assert_eq!(msg, "Function is defined more than once");
}

#[test]
fn call_with_wrong_argument_count_is_rejected() {
    let (_, msg) = semantic_error("int f(int a){ return a; } int main(void){ return f(1, 2); }");
    assert_eq!(msg, "Function called with the wrong number of arguments");
}

#[test]
fn variable_used_as_function_is_rejected() {
    let (_, msg) = semantic_error("int main(void){ int x = 1; return x(); }");
    assert_eq!(msg, "Variable used as function name");
}

#[test]
fn function_used_as_variable_is_rejected() {
    let (_, msg) = semantic_error("int f(void){ return 1; } int main(void){ return f; }");
    assert_eq!(msg, "Function name used as variable");
}

#[test]
fn undeclared_function_is_rejected() {
    let (_, msg) = semantic_error("int main(void){ return g(1); }");
    assert_eq!(msg, "Undeclared function g");
}

#[test]
fn assignment_to_a_constant_is_rejected() {
    let (_, msg) = semantic_error("int main(void){ 1 = 2; return 0; }");
    assert_eq!(msg, "Invalid lvalue");
}

#[test]
fn inner_declaration_shadows_the_outer_one() {
    assert_eq!(
        run("int main(void){ int x = 1; { int x = 2; x = x + 1; } return x; }"),
        1
    );
    assert_eq!(
        run("int main(void){ int x = 1; { int y = 2; x = x + y; } return x; }"),
        3
    );
}

#[test]
fn while_loop_with_break_and_continue() {
    assert_eq!(
        run(
            "int main(void){ int i = 0; int s = 0; \
               while (1) { i = i + 1; if (i > 10) break; if (i % 2) continue; s = s + i; } \
               return s; }"
        ),
        30
    );
}

#[test]
fn do_while_runs_its_body_at_least_once() {
    assert_eq!(run("int main(void){ int i = 5; do i = i + 1; while (i < 3); return i; }"), 6);
    assert_eq!(
        run("int main(void){ int i = 0; do { i = i + 2; } while (i < 7); return i; }"),
        8
    );
}

#[test]
fn nested_loops_break_the_innermost() {
    assert_eq!(
        run(
            "int main(void){ int n = 0; \
               for (int i = 0; i < 3; i = i + 1) { \
                 for (int j = 0; j < 10; j = j + 1) { if (j == 2) break; n = n + 1; } \
               } return n; }"
        ),
        6
    );
}

#[test]
fn for_loop_without_clauses_ends_by_break() {
    assert_eq!(run("int main(void){ int i = 0; for (;;) { i = i + 1; if (i == 4) break; } return i; }"), 4);
}

#[test]
fn conditional_expression_picks_one_branch() {
    assert_eq!(run("int main(void){ int a = 3; return a > 2 ? 10 : 20; }"), 10);
    assert_eq!(run("int main(void){ int a = 1; return a > 2 ? 10 : a ? 30 : 40; }"), 30);
}

#[test]
fn if_and_else_branches() {
    assert_eq!(run("int main(void){ int a = 3; if (a == 3) return 1; else return 2; }"), 1);
    assert_eq!(run("int main(void){ int a = 4; if (a == 3) return 1; else return 2; }"), 2);
    assert_eq!(run("int main(void){ int a = 4; if (a == 3) a = 1; return a; }"), 4);
}

#[test]
fn function_without_return_gives_zero() {
    assert_eq!(run("int main(void){ int a = 4; a = a + 1; }"), 0);
}

#[test]
fn division_and_remainder() {
    assert_eq!(run("int main(void){ return 17 / 5; }"), 3);
    assert_eq!(run("int main(void){ return 17 % 5; }"), 2);
    assert_eq!(run("int main(void){ int a = 0 - 17; return a / 5; }"), -3);
    assert_eq!(run("int main(void){ int a = 0 - 17; return a % 5; }"), -2);
    assert_eq!(run("int main(void){ int a = 17; int b = 5; return a / b * b + a % b; }"), 17);
}

#[test]
fn unary_operators() {
    assert_eq!(run("int main(void){ return -5; }"), -5);
    assert_eq!(run("int main(void){ return ~5; }"), -6);
    assert_eq!(run("int main(void){ return !5; }"), 0);
    assert_eq!(run("int main(void){ return !0; }"), 1);
    assert_eq!(run("int main(void){ return -(~(!3)); }"), 1);
}

#[test]
fn bitwise_and_shift_operators() {
    assert_eq!(run("int main(void){ return 12 & 10; }"), 8);
    assert_eq!(run("int main(void){ return 12 | 10; }"), 14);
    assert_eq!(run("int main(void){ return 12 ^ 10; }"), 6);
    assert_eq!(run("int main(void){ return 3 << 4; }"), 48);
    assert_eq!(run("int main(void){ int a = 0 - 64; return a >> 3; }"), -8);
    assert_eq!(run("int main(void){ int a = 3; int n = 4; return a << n; }"), 48);
}

#[test]
fn comparisons_give_zero_or_one() {
    assert_eq!(run("int main(void){ return 1 < 2; }"), 1);
    assert_eq!(run("int main(void){ return 2 < 1; }"), 0);
    assert_eq!(run("int main(void){ return 2 <= 2; }"), 1);
    assert_eq!(run("int main(void){ return 2 > 2; }"), 0);
    assert_eq!(run("int main(void){ return 2 >= 2; }"), 1);
    assert_eq!(run("int main(void){ return 2 == 2; }"), 1);
    assert_eq!(run("int main(void){ return 2 != 2; }"), 0);
    assert_eq!(run("int main(void){ int a = 1; int b = 2; return (a < b) + (b < a) * 10; }"), 1);
}

#[test]
fn binary_operators_group_to_the_left() {
    assert_eq!(run("int main(void){ return 10 - 3 - 2; }"), 5);
    assert_eq!(run("int main(void){ return 100 / 5 / 2; }"), 10);
    assert_eq!(run("int main(void){ return (10 - 3) * 2; }"), 14);
    assert_eq!(run("int main(void){ return 10 - (3 - 2); }"), 9);
}

#[test]
fn parentheses_regroup_after_a_unary_minus() {
    assert_eq!(run("int main(void){ int a = 1; int b = 2; return (-a < b); }"), 1);
    assert_eq!(run("int main(void){ int a = 0; return (-a || 3); }"), 1);
}

#[test]
fn assignment_groups_to_the_right() {
    assert_eq!(run("int main(void){ int a; int b; a = b = 7; return a + b; }"), 14);
}

#[test]
fn all_compound_assignments() {
    assert_eq!(run("int main(void){ int x = 5; x += 3; return x; }"), 8);
    assert_eq!(run("int main(void){ int x = 5; x *= 3; return x; }"), 15);
    assert_eq!(run("int main(void){ int x = 17; x /= 3; return x; }"), 5);
    assert_eq!(run("int main(void){ int x = 17; x %= 3; return x; }"), 2);
    assert_eq!(run("int main(void){ int x = 12; x &= 10; return x; }"), 8);
    assert_eq!(run("int main(void){ int x = 12; x |= 10; return x; }"), 14);
    assert_eq!(run("int main(void){ int x = 12; x ^= 10; return x; }"), 6);
    assert_eq!(run("int main(void){ int x = 64; x >>= 2; return x; }"), 16);
}

#[test]
fn recursion_through_a_forward_declaration() {
    assert_eq!(
        run(
            "int fib(int n); \
             int main(void){ return fib(10); } \
             int fib(int n){ if (n < 2) return n; return fib(n - 1) + fib(n - 2); }"
        ),
        55
    );
}

#[test]
fn compiler_gives_the_text_of_the_whole_pipeline() {
    let mut c = Compiler::new();
    let text = c.compile(chars("int main(void) { return 2; }\n")).unwrap().unwrap();
    assert_eq!(
        text,
        "\t.globl _main\n_main:\n\tpushq\t%rbp\n\tmovq\t%rsp, %rbp\n\
         \tsubq $0, %rsp\n\
         \tmovl $2, %eax\n\
         \tmovq\t%rbp, %rsp\n\tpopq\t%rbp\n\tret\n\n\
         \tmovl $0, %eax\n\
         \tmovq\t%rbp, %rsp\n\tpopq\t%rbp\n\tret\n\n\n"
    );
    assert_eq!(c.counter, 0);
}

#[test]
fn compiler_counts_the_names_it_mints() {
    let mut c = Compiler::new();
    c.compile(chars("int main(void) { int a = 1; return a + 2; }")).unwrap().unwrap();
    // One unique name for `a`, one temporary for the sum.
    assert_eq!(c.counter, 2);
}

#[test]
fn compiler_reports_the_first_error_of_each_stage() {
    let mut c = Compiler::new();
    assert_eq!(c.compile(chars("int main(void) { return @; }")).unwrap_err().kind(), ErrorType::InvalidToken);
    assert_eq!(c.compile(chars("int main(void) { return 1x; }")).unwrap_err().kind(), ErrorType::InvalidIdentifier);
    assert_eq!(c.compile(chars("int main(void) { return 1 }")).unwrap_err().kind(), ErrorType::SyntaxError);
    assert_eq!(c.compile(chars("int main(void) { return a; }")).unwrap_err().kind(), ErrorType::SemanticError);
}
