use minicc::lexer::lex;
use minicc::parser::ast::AST;
use minicc::parser::parse;
use minicc::tacky::gen_tacky;
use minicc::tacky::tacky::{Instr, TackyAST, Val};
use minicc::validator::validate;

fn chars(s: &str) -> Vec<char> {
    s.chars().collect()
}

fn lower_from(source: &str, start: usize) -> (TackyAST, usize) {
    let ast: AST = parse(lex(chars(source)).unwrap()).unwrap();
    let mut counter = start;
    let ast = validate(&ast, &mut counter).unwrap();
    let tacky = gen_tacky(&ast, &mut counter);
    (tacky, counter)
}

fn val(v: &Val) -> String {
    match v {
        Val::Integer(i) => format!("{}", i),
        Val::Var(name) => name.clone(),
    }
}

fn show(i: &Instr) -> String {
    match i {
        Instr::Return(v) => format!("ret {}", val(v)),
        Instr::Unary(op, s, d) => format!("{} = {:?} {}", val(d), op, val(s)),
        Instr::Binary(op, l, r, d) => format!("{} = {} {:?} {}", val(d), val(l), op, val(r)),
        Instr::Copy(s, d) => format!("{} = {}", val(d), val(s)),
        Instr::Jump(l) => format!("jmp {}", l),
        Instr::JumpIfZero(v, l) => format!("jz {} {}", val(v), l),
        Instr::JumpIfNotZero(v, l) => format!("jnz {} {}", val(v), l),
        Instr::Label(l) => format!("{}:", l),
        Instr::FuncCall(name, args, d) => {
            let args: Vec<String> = args.iter().map(val).collect();
            format!("{} = {}({})", val(d), name, args.join(", "))
        },
    }
}

/// The instructions of `main` in `int main(void) { <body> }`.
fn main_body(body: &str) -> Vec<String> {
    let (tacky, _) = lower_from(&format!("int main(void) {{ {} }}", body), 0);
    assert_eq!(tacky.program.funcs.len(), 1);
    assert_eq!(tacky.program.funcs[0].name, "main");
    tacky.program.funcs[0].instrs.iter().map(show).collect()
}

#[test]
fn constants_and_variables_need_no_instruction() {
    assert_eq!(main_body("return 2;"), vec!["ret 2", "ret 0"]);
    assert_eq!(main_body("int a; return a;"), vec!["ret a.0", "ret 0"]);
    assert_eq!(main_body(";"), vec!["ret 0"]);
    assert_eq!(main_body(""), vec!["ret 0"]);
}

#[test]
fn every_function_ends_with_return_zero() {
    assert_eq!(main_body("int a = 1;"), vec!["a.0 = 1", "ret 0"]);
}

#[test]
fn unary_and_binary_operations_use_fresh_temporaries() {
    assert_eq!(
        main_body("return -(~2);"),
        vec!["tmp.0 = Complement 2", "tmp.1 = Negate tmp.0", "ret tmp.1", "ret 0"]
    );
    assert_eq!(main_body("return !2;"), vec!["tmp.0 = Not 2", "ret tmp.0", "ret 0"]);
    assert_eq!(
        main_body("return 2+3*4;"),
        vec!["tmp.0 = 3 Multiply 4", "tmp.1 = 2 Add tmp.0", "ret tmp.1", "ret 0"]
    );
    assert_eq!(
        main_body("return (1 - 2) / (3 % 4);"),
        vec![
            "tmp.0 = 1 Subtract 2",
            "tmp.1 = 3 Modulus 4",
            "tmp.2 = tmp.0 Divide tmp.1",
            "ret tmp.2",
            "ret 0"
        ]
    );
}

#[test]
fn every_binary_operator_keeps_its_meaning() {
    let op = |text: &str| main_body(&format!("return 1 {} 2;", text))[0].clone();
    assert_eq!(op("+"), "tmp.0 = 1 Add 2");
    assert_eq!(op("-"), "tmp.0 = 1 Subtract 2");
    assert_eq!(op("*"), "tmp.0 = 1 Multiply 2");
    assert_eq!(op("/"), "tmp.0 = 1 Divide 2");
    assert_eq!(op("%"), "tmp.0 = 1 Modulus 2");
    assert_eq!(op("&"), "tmp.0 = 1 BitwiseAnd 2");
    assert_eq!(op("|"), "tmp.0 = 1 BitwiseOr 2");
    assert_eq!(op("^"), "tmp.0 = 1 BitwiseXor 2");
    assert_eq!(op("<<"), "tmp.0 = 1 LeftShift 2");
    assert_eq!(op(">>"), "tmp.0 = 1 RightShift 2");
    assert_eq!(op("=="), "tmp.0 = 1 Equal 2");
    assert_eq!(op("!="), "tmp.0 = 1 NotEqual 2");
    assert_eq!(op("<"), "tmp.0 = 1 LessThan 2");
    assert_eq!(op("<="), "tmp.0 = 1 LessOrEqual 2");
    assert_eq!(op(">"), "tmp.0 = 1 GreaterThan 2");
    assert_eq!(op(">="), "tmp.0 = 1 GreaterOrEqual 2");
}

#[test]
fn logical_and_jumps_over_the_right_operand() {
    assert_eq!(
        main_body("return 1 && 2;"),
        vec![
            "jz 1 false.0",
            "jz 2 false.0",
            "tmp.2 = 1",
            "jmp end.1",
            "false.0:",
            "tmp.2 = 0",
            "end.1:",
            "ret tmp.2",
            "ret 0"
        ]
    );
}

#[test]
fn logical_or_jumps_over_the_right_operand() {
    assert_eq!(
        main_body("return 1 || 2;"),
        vec![
            "jnz 1 true.0",
            "jnz 2 true.0",
            "tmp.2 = 0",
            "jmp end.1",
            "true.0:",
            "tmp.2 = 1",
            "end.1:",
            "ret tmp.2",
            "ret 0"
        ]
    );
}

#[test]
fn assignment_copies_and_yields_the_variable() {
    assert_eq!(
        main_body("int a; int b; a = b = 3; return a;"),
        vec!["b.1 = 3", "a.0 = b.1", "ret a.0", "ret 0"]
    );
    assert_eq!(
        main_body("int x = 10; x -= 3; return x;"),
        vec!["x.0 = 10", "tmp.1 = x.0 Subtract 3", "x.0 = tmp.1", "ret x.0", "ret 0"]
    );
}

#[test]
fn conditional_expression_copies_one_branch() {
    assert_eq!(
        main_body("return 1 ? 2 : 3;"),
        vec![
            "jz 1 e2.0",
            "tmp.2 = 2",
            "jmp end.1",
            "e2.0:",
            "tmp.2 = 3",
            "end.1:",
            "ret tmp.2",
            "ret 0"
        ]
    );
}

#[test]
fn calls_evaluate_their_arguments_from_left_to_right() {
    let (tacky, _) = lower_from(
        "int f(int a, int b, int c); int main(void) { return f(1, 2 + 3, f(4, 5, 6)); }",
        0,
    );
    // The declaration without body yields no function.
    assert_eq!(tacky.program.funcs.len(), 1);
    let instrs: Vec<String> = tacky.program.funcs[0].instrs.iter().map(show).collect();
    assert_eq!(
        instrs,
        vec![
            "tmp.0 = 2 Add 3",
            "tmp.1 = f(4, 5, 6)",
            "tmp.2 = f(1, tmp.0, tmp.1)",
            "ret tmp.2",
            "ret 0"
        ]
    );
}

#[test]
fn functions_carry_their_resolved_parameters() {
    let (tacky, counter) = lower_from("int add(int a, int b) { return a + b; }", 0);
    let f = &tacky.program.funcs[0];
    assert_eq!(f.name, "add");
    assert_eq!(f.params, vec!["a.0", "b.1"]);
    let instrs: Vec<String> = f.instrs.iter().map(show).collect();
    assert_eq!(instrs, vec!["tmp.2 = a.0 Add b.1", "ret tmp.2", "ret 0"]);
    assert_eq!(counter, 3);
}

#[test]
fn if_without_else() {
    assert_eq!(
        main_body("if (1) return 2;"),
        vec!["jz 1 else.1", "ret 2", "jmp end.0", "else.1:", "end.0:", "ret 0"]
    );
}

#[test]
fn if_with_else() {
    assert_eq!(
        main_body("if (1) return 2; else return 3;"),
        vec!["jz 1 else.1", "ret 2", "jmp end.0", "else.1:", "ret 3", "end.0:", "ret 0"]
    );
}

#[test]
fn while_loop() {
    assert_eq!(
        main_body("while (1) { break; continue; }"),
        vec![
            "continue_while.0:",
            "jz 1 break_while.0",
            "jmp break_while.0",
            "jmp continue_while.0",
            "jmp continue_while.0",
            "break_while.0:",
            "ret 0"
        ]
    );
}

#[test]
fn do_while_loop() {
    assert_eq!(
        main_body("do { continue; } while (0);"),
        vec![
            "start.1:",
            "jmp continue_dowhile.0",
            "continue_dowhile.0:",
            "jnz 0 start.1",
            "break_dowhile.0:",
            "ret 0"
        ]
    );
}

#[test]
fn for_loop_with_every_clause() {
    assert_eq!(
        main_body("int s = 0; for (int i = 1; i <= 5; i = i + 1) s = s + i; return s;"),
        vec![
            "s.0 = 0",
            "i.1 = 1",
            "start.3:",
            "tmp.4 = i.1 LessOrEqual 5",
            "jz tmp.4 break_for.2",
            "tmp.5 = s.0 Add i.1",
            "s.0 = tmp.5",
            "continue_for.2:",
            "tmp.6 = i.1 Add 1",
            "i.1 = tmp.6",
            "jmp start.3",
            "break_for.2:",
            "ret s.0",
            "ret 0"
        ]
    );
}

#[test]
fn for_loop_without_clauses() {
    assert_eq!(
        main_body("for (;;) break;"),
        vec![
            "start.1:",
            "jmp break_for.0",
            "continue_for.0:",
            "jmp start.1",
            "break_for.0:",
            "ret 0"
        ]
    );
    assert_eq!(
        main_body("int i; for (i = 0;;) ;"),
        vec!["i.0 = 0", "start.2:", "continue_for.1:", "jmp start.2", "break_for.1:", "ret 0"]
    );
}

#[test]
fn nested_function_declarations_yield_nothing() {
    assert_eq!(main_body("int f(void); return f();"), vec!["tmp.0 = f()", "ret tmp.0", "ret 0"]);
}

#[test]
fn a_later_start_of_the_counter_shifts_every_number() {
    let source = "int main(void) { int a = 1; while (a && 2) { a = a ? 0 : 1; } return !a; }";
    let (first, end_first) = lower_from(source, 0);
    let (second, end_second) = lower_from(source, 100);
    assert_eq!(end_second - 100, end_first);
    let shift = |text: String| {
        // Every number after a dot is a counter value.
        let mut out = String::new();
        let mut rest = text.as_str();
        while let Some(k) = rest.find('.') {
            out.push_str(&rest[..=k]);
            rest = &rest[k + 1..];
            let digits: String = rest.chars().take_while(|c| c.is_ascii_digit()).collect();
            if !digits.is_empty() {
                out.push_str(&format!("{}", digits.parse::<usize>().unwrap() + 100));
                rest = &rest[digits.len()..];
            }
        }
        out.push_str(rest);
        out
    };
    let a: Vec<String> = first.program.funcs[0].instrs.iter().map(show).map(shift).collect();
    let b: Vec<String> = second.program.funcs[0].instrs.iter().map(show).collect();
    assert_eq!(a, b);
}

#[test]
fn lowering_twice_from_the_same_counter_gives_the_same_program() {
    let source = "int f(int a) { return a * 2; } int main(void) { int x = f(3); return x || f(x); }";
    let (first, c1) = lower_from(source, 3);
    let (second, c2) = lower_from(source, 3);
    assert_eq!(format!("{:?}", first), format!("{:?}", second));
    assert_eq!(c1, c2);
}

#[test]
fn copies_of_values_are_equal() {
    let v = Val::Var("x.1".to_string());
    assert_eq!(val(&v.clone()), "x.1");
    assert_eq!(val(&Val::Integer(-3).clone()), "-3");
}

fn labels_of(tacky: &TackyAST) -> Vec<Vec<String>> {
    tacky
        .program
        .funcs
        .iter()
        .map(|f| {
            f.instrs
                .iter()
                .filter_map(|i| match i {
                    Instr::Label(l) => Some(l.clone()),
                    _ => None,
                })
                .collect()
        })
        .collect()
}

#[test]
fn every_label_is_defined_once_in_its_function() {
    let source = "int f(int n) { while (n) { do { n = n - 1; } while (n && 1); } return n; } \
                  int main(void) { \
                      int s = 0; \
                      for (int i = 0; i < 3; i = i + 1) { \
                          for (;;) { if (s || i) break; else s = s ? 1 : 2; } \
                          while (s > 5 && i) { s = s - 1; continue; } \
                      } \
                      if (s) s = f(s); \
                      return s; \
                  }";
    for start in [0usize, 41, usize::MAX - 5, usize::MAX] {
        let (tacky, _) = lower_from(source, start);
        for labels in labels_of(&tacky) {
            let mut seen = std::collections::BTreeSet::new();
            for l in &labels {
                assert!(seen.insert(l.clone()), "{} is defined twice from {}", l, start);
            }
            assert!(!labels.is_empty());
        }
    }
}

#[test]
fn the_counter_wraps_to_zero() {
    let (tacky, end) = lower_from("int main(void) { int a = 1; return -a + 2; }", usize::MAX);
    let shown: Vec<String> = tacky.program.funcs[0].instrs.iter().map(show).collect();
    assert_eq!(
        shown,
        vec![
            format!("a.{} = 1", usize::MAX),
            format!("tmp.0 = Negate a.{}", usize::MAX),
            "tmp.1 = tmp.0 Add 2".to_string(),
            "ret tmp.1".to_string(),
            "ret 0".to_string(),
        ]
    );
    assert_eq!(end, 2);
}
