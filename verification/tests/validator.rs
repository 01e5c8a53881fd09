use minicc::error::ErrorType;
use minicc::lexer::lex;
use minicc::parser::ast::{Block, BlockItem, Decl, Expr, ForInit, FuncDecl, Program, Stmt, VarDecl, AST};
use minicc::parser::parse;
use minicc::validator::checker::typecheck_program;
use minicc::validator::labeler::label_program;
use minicc::validator::resolver::resolve_program;
use minicc::validator::validate;

fn chars(s: &str) -> Vec<char> {
    s.chars().collect()
}

fn program(source: &str) -> Program {
    parse(lex(chars(source)).unwrap()).unwrap().program
}

fn body(f: &FuncDecl) -> &Block {
    f.body.as_ref().unwrap()
}

/// The names of the variables that the statement uses, in source order.
fn vars_of_expr(e: &Expr, out: &mut Vec<String>) {
    match e {
        Expr::Integer(_) => {},
        Expr::Var(name, _) => out.push(name.clone()),
        Expr::UnaryOp(_, x) => vars_of_expr(x, out),
        Expr::BinaryOp(_, l, r) | Expr::Assignment(l, r, _) => {
            vars_of_expr(l, out);
            vars_of_expr(r, out);
        },
        Expr::Conditional(c, t, f) => {
            vars_of_expr(c, out);
            vars_of_expr(t, out);
            vars_of_expr(f, out);
        },
        Expr::FunctionCall(name, args, _) => {
            out.push(format!("{}()", name));
            for a in args {
                vars_of_expr(a, out);
            }
        },
    }
}

fn names_of_stmt(s: &Stmt, out: &mut Vec<String>) {
    match s {
        Stmt::Return(e) | Stmt::Expression(e) => vars_of_expr(e, out),
        Stmt::If(c, t, e) => {
            vars_of_expr(c, out);
            names_of_stmt(t, out);
            if let Some(e) = e {
                names_of_stmt(e, out);
            }
        },
        Stmt::Compound(b) => names_of_block(b, out),
        Stmt::Break(l, _) => out.push(format!("break {}", l)),
        Stmt::Continue(l, _) => out.push(format!("continue {}", l)),
        Stmt::While(c, b, l) => {
            out.push(format!("while {}", l));
            vars_of_expr(c, out);
            names_of_stmt(b, out);
        },
        Stmt::DoWhile(b, c, l) => {
            out.push(format!("do {}", l));
            names_of_stmt(b, out);
            vars_of_expr(c, out);
        },
        Stmt::For(init, c, p, b, l) => {
            out.push(format!("for {}", l));
            match init {
                Some(ForInit::Decl(d)) => names_of_decl(d, out),
                Some(ForInit::Expr(e)) => vars_of_expr(e, out),
                None => {},
            }
            if let Some(c) = c {
                vars_of_expr(c, out);
            }
            if let Some(p) = p {
                vars_of_expr(p, out);
            }
            names_of_stmt(b, out);
        },
        Stmt::Null => {},
    }
}

fn names_of_decl(d: &VarDecl, out: &mut Vec<String>) {
    out.push(format!("int {}", d.name));
    if let Some(e) = &d.init {
        vars_of_expr(e, out);
    }
}

fn names_of_block(b: &Block, out: &mut Vec<String>) {
    for item in &b.items {
        match item {
            BlockItem::Stmt(s) => names_of_stmt(s, out),
            BlockItem::Decl(Decl::VarDecl(d)) => names_of_decl(d, out),
            BlockItem::Decl(Decl::FuncDecl(f)) => names_of_func(f, out),
        }
    }
}

fn names_of_func(f: &FuncDecl, out: &mut Vec<String>) {
    out.push(format!("fn {}({})", f.name, f.params.join(",")));
    if let Some(b) = &f.body {
        names_of_block(b, out);
    }
}

fn names(p: &Program) -> Vec<String> {
    let mut out = Vec::new();
    for f in &p.func_decls {
        names_of_func(f, &mut out);
    }
    out
}

fn resolved(source: &str) -> Vec<String> {
    let mut counter: usize = 0;
    names(&resolve_program(&program(source), &mut counter).unwrap())
}

fn resolve_error(source: &str) -> (usize, String) {
    let mut counter: usize = 0;
    let e = resolve_program(&program(source), &mut counter).unwrap_err();
    assert_eq!(e.kind(), ErrorType::SemanticError);
    (e.line(), e.message().clone())
}

#[test]
fn variables_get_unique_names() {
    assert_eq!(
        resolved("int main(void) { int x = 1; int y = x + 2; return x + y; }"),
        vec!["fn main()", "int x.0", "int y.1", "x.0", "x.0", "y.1"]
    );
}

#[test]
fn the_counter_goes_on_where_it_stood() {
    let mut counter: usize = 7;
    let p = resolve_program(&program("int main(void) { int x; int y; return x; }"), &mut counter)
        .unwrap();
    assert_eq!(names(&p), vec!["fn main()", "int x.7", "int y.8", "x.7"]);
    assert_eq!(counter, 9);
}

#[test]
fn a_block_opens_a_scope() {
    assert_eq!(
        resolved("int main(void) { int x = 1; { int x = 2; x = 3; } return x; }"),
        vec!["fn main()", "int x.0", "int x.1", "x.1", "x.0"]
    );
    assert_eq!(
        resolved("int main(void) { int x = 1; { x = 2; int x = x; } return x; }"),
        vec!["fn main()", "int x.0", "x.0", "int x.1", "x.1", "x.0"]
    );
}

#[test]
fn a_for_header_opens_a_scope() {
    assert_eq!(
        resolved("int main(void) { int i = 9; for (int i = 0; i < 3; i = i + 1) i; return i; }"),
        vec!["fn main()", "int i.0", "for ", "int i.1", "i.1", "i.1", "i.1", "i.1", "i.0"]
    );
    assert_eq!(
        resolved("int main(void) { int i; for (i = 0; i < 3; i = i + 1) { int i = 5; } return i; }"),
        vec!["fn main()", "int i.0", "for ", "i.0", "i.0", "i.0", "i.0", "int i.1", "i.0"]
    );
}

#[test]
fn the_initializer_sees_the_variable_itself() {
    assert_eq!(
        resolved("int main(void) { int x = 1; { int x = x + 1; } return 0; }"),
        vec!["fn main()", "int x.0", "int x.1", "x.1"]
    );
}

#[test]
fn parameters_are_locals_of_the_body() {
    assert_eq!(
        resolved("int f(int a, int b) { return a + b; } int main(void) { return f(1, 2); }"),
        vec!["fn f(a.0,b.1)", "a.0", "b.1", "fn main()", "f()"]
    );
}

#[test]
fn parameters_of_a_declaration_without_body_stay() {
    assert_eq!(resolved("int f(int a, int a);"), vec!["fn f(a,a)"]);
}

#[test]
fn a_parameter_clashes_with_a_local_of_the_body() {
    let (line, msg) = resolve_error("int f(int a) {\n int a = 1; return a; }");
    assert_eq!(msg, "\"a\" already declared.");
    assert_eq!(line, 2);
    let (line, msg) = resolve_error("int f(int a, int a) { return a; }");
    assert_eq!(msg, "\"a\" already declared.");
    assert_eq!(line, 1);
}

#[test]
fn a_function_may_be_declared_again() {
    assert_eq!(
        resolved("int f(void); int f(void); int main(void) { int f(void); return f(); }"),
        vec!["fn f()", "fn f()", "fn main()", "fn f()", "f()"]
    );
}

#[test]
fn a_function_clashes_with_a_local_of_the_same_scope() {
    let (_, msg) = resolve_error("int main(void) { int f = 1; int f(void); return f; }");
    assert_eq!(msg, "\"f\" already declared.");
}

#[test]
fn a_function_shadows_a_local_of_an_outer_scope() {
    assert_eq!(
        resolved("int main(void) { int f = 1; { int f(void); return f(); } }"),
        vec!["fn main()", "int f.0", "fn f()", "f()"]
    );
}

#[test]
fn of_an_if_the_else_branch_is_resolved_first() {
    assert_eq!(
        resolved("int main(void) { if (1) { int a; } else { int b; } return 0; }"),
        vec!["fn main()", "int a.1", "int b.0"]
    );
    let (_, msg) = resolve_error("int main(void) { if (p) q; else r; }");
    assert_eq!(msg, "Undeclared variable r");
}

#[test]
fn uses_without_declaration_are_rejected_with_their_line() {
    let (line, msg) = resolve_error("int main(void) {\n int x;\n return x +\n y;\n}");
    assert_eq!(msg, "Undeclared variable y");
    assert_eq!(line, 4);
    let (line, msg) = resolve_error("int main(void) {\n return g(1);\n}");
    assert_eq!(msg, "Undeclared function g");
    assert_eq!(line, 2);
    let (_, msg) = resolve_error("int main(void) { { int x; } return x; }");
    assert_eq!(msg, "Undeclared variable x");
}

#[test]
fn only_a_variable_can_be_assigned_to() {
    let (line, msg) = resolve_error("int main(void) {\n int a;\n a + 1 = 2;\n}");
    assert_eq!(msg, "Invalid lvalue");
    assert_eq!(line, 3);
    let (_, msg) = resolve_error("int main(void) { int a; (a = 1) += 2; }");
    assert_eq!(msg, "Invalid lvalue");
}

#[test]
fn loops_get_fresh_labels() {
    let mut counter: usize = 0;
    let p = label_program(
        &program(
            "int main(void) { while (1) { break; do continue; while (1); } \
             for (;;) { if (1) break; else continue; } return 0; }",
        ),
        &mut counter,
    )
    .unwrap();
    assert_eq!(
        names(&p),
        vec![
            "fn main()",
            "while while.0",
            "break while.0",
            "do dowhile.1",
            "continue dowhile.1",
            "for for.2",
            "break for.2",
            "continue for.2",
        ]
    );
    assert_eq!(counter, 3);
}

#[test]
fn labeller_leaves_everything_else_as_it_is() {
    let source = "int f(int a); int main(void) { int x = f(1) + 2; { x = x ? 1 : 2; } return -x; }";
    let mut counter: usize = 5;
    let p = label_program(&program(source), &mut counter).unwrap();
    assert_eq!(format!("{:?}", p), format!("{:?}", program(source)));
    assert_eq!(counter, 5);
}

#[test]
fn jumps_outside_of_a_loop_are_rejected() {
    let mut counter: usize = 0;
    let e = label_program(&program("int main(void) {\n if (1) {\n break; } }"), &mut counter)
        .unwrap_err();
    assert_eq!(e.kind(), ErrorType::SemanticError);
    assert_eq!(e.message(), "break statement outside of loop");
    assert_eq!(e.line(), 3);
    let e = label_program(&program("int main(void) { while (1) ; continue; }"), &mut counter)
        .unwrap_err();
    assert_eq!(e.message(), "continue outside of loop");
}

#[test]
fn type_checker_accepts_consistent_programs() {
    assert!(typecheck_program(&program(
        "int f(int a); int f(int b) { return b; } int f(int c); int main(void) { int x = f(1); return x; }"
    ))
    .is_ok());
}

#[test]
fn type_checker_rejects_what_it_knows_to_be_wrong() {
    let check = |source: &str| {
        let e = typecheck_program(&program(source)).unwrap_err();
        assert_eq!(e.kind(), ErrorType::SemanticError);
        (e.line(), e.message().clone())
    };
    assert_eq!(
        check("int f(int a);\nint f(int a, int b);"),
        (2, "Incompatible function declarations".to_string())
    );
    assert_eq!(
        check("int f(void) { return 1; }\n\nint f(void) { return 2; }"),
        (3, "Function is defined more than once".to_string())
    );
    assert_eq!(
        check("int f(void);\nint main(void) {\n return f + 1; }"),
        (3, "Function name used as variable".to_string())
    );
    assert_eq!(
        check("int main(void) { int x;\n return x(); }"),
        (2, "Variable used as function name".to_string())
    );
    assert_eq!(
        check("int f(int a);\nint main(void) { return f(); }"),
        (2, "Function called with the wrong number of arguments".to_string())
    );
    assert_eq!(check("int main(void) { 1 = 2; }"), (1, "Invalid lvalue".to_string()));
}

#[test]
fn a_defined_function_stays_defined() {
    let e = typecheck_program(&program(
        "int f(void) { return 1; } int f(void); int f(void) { return 2; }",
    ))
    .unwrap_err();
    assert_eq!(e.message(), "Function is defined more than once");
}

#[test]
fn validation_resolves_then_labels_then_checks() {
    let ast = AST {
        program: program("int main(void) { int i = 0; while (i < 3) { i = i + 1; if (i == 2) break; } return i; }"),
    };
    let mut counter: usize = 0;
    let out = validate(&ast, &mut counter).unwrap();
    assert_eq!(
        names(&out.program),
        vec![
            "fn main()",
            "int i.0",
            "while while.1",
            "i.0",
            "i.0",
            "i.0",
            "i.0",
            "break while.1",
            "i.0",
        ]
    );
    assert_eq!(counter, 2);
}

#[test]
fn validation_reports_the_error_of_the_first_pass_that_fails() {
    let validate_source = |source: &str| {
        let mut counter: usize = 0;
        validate(&AST { program: program(source) }, &mut counter).unwrap_err().message().clone()
    };
    // Both an undeclared variable and a stray break: resolution comes first.
    assert_eq!(validate_source("int main(void) { break; return y; }"), "Undeclared variable y");
    // Both a stray break and a wrong call: labelling comes before type checking.
    assert_eq!(
        validate_source("int f(int a); int main(void) { f(); break; }"),
        "break statement outside of loop"
    );
    assert_eq!(
        validate_source("int f(int a); int main(void) { return f(); }"),
        "Function called with the wrong number of arguments"
    );
}

#[test]
fn arity_mismatch_between_declarations_built_by_hand() {
    let declaration = FuncDecl {
        name: "f".to_string(),
        params: vec!["a".to_string()],
        body: None,
        line_number: 1,
    };
    let definition = FuncDecl {
        name: "f".to_string(),
        params: vec!["a".to_string(), "b".to_string()],
        body: Some(Block { items: vec![BlockItem::Stmt(Stmt::Return(Expr::Integer(0)))] }),
        line_number: 1,
    };
    let ast = AST { program: Program { func_decls: vec![declaration, definition] } };
    let mut counter: usize = 0;
    let e = validate(&ast, &mut counter).unwrap_err();
    assert_eq!(e.kind(), ErrorType::SemanticError);
    assert_eq!(e.message(), "Incompatible function declarations");
}

#[test]
fn declared_names_are_all_different() {
    let source = "int f(int x, int y) { int z = x; { int x = y; z = x; } return z; } \
                  int main(void) { \
                      int x = 1; \
                      for (int x = 0; x < 2; x = x + 1) { int y = x; { int y = 2; x = y; } } \
                      if (x) { int y = 3; x = y; } else { int y = 4; x = y; } \
                      return f(x, x); \
                  }";
    for start in [0usize, 9, usize::MAX - 4] {
        let mut counter = start;
        let p = validate(&AST { program: program(source) }, &mut counter).unwrap().program;
        let mut declared: Vec<String> = Vec::new();
        for f in &p.func_decls {
            declared.extend(f.params.iter().cloned());
        }
        declared.extend(
            names(&p).into_iter().filter_map(|n| n.strip_prefix("int ").map(String::from)),
        );
        assert_eq!(declared.len(), 10);
        let mut seen = std::collections::BTreeSet::new();
        for n in &declared {
            assert!(seen.insert(n.clone()), "{} is declared twice from {}", n, start);
        }
    }
}
