use minicc::error::ErrorType;
use minicc::lexer::lex;
use minicc::lexer::token::{Token, TokenType};
use minicc::parser::ast::{
    BinaryOp, Block, BlockItem, Decl, Expr, ForInit, FuncDecl, Stmt, UnaryOp, AST,
};
use minicc::parser::{parse, Parser};

fn chars(s: &str) -> Vec<char> {
    s.chars().collect()
}

fn ast(source: &str) -> AST {
    parse(lex(chars(source)).unwrap()).unwrap()
}

fn syntax_error(source: &str) -> (usize, String) {
    let e = parse(lex(chars(source)).unwrap()).unwrap_err();
    assert_eq!(e.kind(), ErrorType::SyntaxError);
    (e.line(), e.message().clone())
}

/// The expression of `int main(void) { return <e>; }`, written with
/// parentheses around every operation.
fn shape(e: &str) -> String {
    let source = format!("int main(void) {{ return {}; }}", e);
    let ast = ast(&source);
    match body(&ast.program.func_decls[0]).items.first() {
        Some(BlockItem::Stmt(Stmt::Return(e))) => show(e),
        _ => panic!("no return statement"),
    }
}

fn body(f: &FuncDecl) -> &Block {
    f.body.as_ref().unwrap()
}

fn show(e: &Expr) -> String {
    match e {
        Expr::Integer(i) => format!("{}", i),
        Expr::Var(name, _) => name.clone(),
        Expr::UnaryOp(op, x) => format!("({:?} {})", op, show(x)),
        Expr::BinaryOp(op, l, r) => format!("({:?} {} {})", op, show(l), show(r)),
        Expr::Assignment(l, r, _) => format!("(= {} {})", show(l), show(r)),
        Expr::Conditional(c, t, f) => format!("(? {} {} {})", show(c), show(t), show(f)),
        Expr::FunctionCall(name, args, _) => {
            let args: Vec<String> = args.iter().map(show).collect();
            format!("{}({})", name, args.join(" "))
        },
    }
}

#[test]
fn the_smallest_program() {
    let ast = ast("int main(void) { return 2; }");
    assert_eq!(ast.program.func_decls.len(), 1);
    let f = &ast.program.func_decls[0];
    assert_eq!(f.name, "main");
    assert!(f.params.is_empty());
    assert_eq!(f.line_number, 1);
    let b = body(f);
    assert_eq!(b.items.len(), 1);
    assert!(matches!(&b.items[0], BlockItem::Stmt(Stmt::Return(Expr::Integer(2)))));
}

#[test]
fn the_empty_program() {
    assert!(ast("").program.func_decls.is_empty());
}

#[test]
fn factors_bind_before_terms() {
    assert_eq!(shape("2+3*4"), "(Add 2 (Multiply 3 4))");
    assert_eq!(shape("2*3+4"), "(Add (Multiply 2 3) 4)");
    assert_eq!(shape("2*(3+4)"), "(Multiply 2 (Add 3 4))");
    assert_eq!(shape("1 - 2 % 3 / 4"), "(Subtract 1 (Divide (Modulus 2 3) 4))");
}

#[test]
fn left_grouping_of_binary_operators() {
    assert_eq!(shape("1-2-3"), "(Subtract (Subtract 1 2) 3)");
    assert_eq!(shape("1<<2>>3"), "(RightShift (LeftShift 1 2) 3)");
    assert_eq!(shape("a && b && c"), "(LogicalAnd (LogicalAnd a b) c)");
}

#[test]
fn every_level_of_precedence() {
    assert_eq!(
        shape("a = b ? c : d || e && f | g ^ h & i == j < k << l + m * n"),
        "(= a (? b c (LogicalOr d (LogicalAnd e (BitwiseOr f (BitwiseXor g (BitwiseAnd h \
         (Equal i (LessThan j (LeftShift k (Add l (Multiply m n))))))))))))"
    );
    assert_eq!(shape("a != b >= c"), "(NotEqual a (GreaterOrEqual b c))");
    assert_eq!(shape("a <= b > c"), "(GreaterThan (LessOrEqual a b) c)");
}

#[test]
fn unary_operators_bind_tighter_than_any_binary_one() {
    assert_eq!(shape("-a * b"), "(Multiply (Negate a) b)");
    assert_eq!(shape("!a == b"), "(Equal (Not a) b)");
    assert_eq!(shape("~-!a"), "(Complement (Negate (Not a)))");
    assert_eq!(shape("a - -b"), "(Subtract a (Negate b))");
}

#[test]
fn parentheses_regroup_whatever_they_start_with() {
    assert_eq!(shape("(-a < b)"), "(LessThan (Negate a) b)");
    assert_eq!(shape("(-a || b) * 2"), "(Multiply (LogicalOr (Negate a) b) 2)");
    assert_eq!(shape("(a = 1)"), "(= a 1)");
}

#[test]
fn assignment_and_conditional_group_to_the_right() {
    assert_eq!(shape("a = b = c"), "(= a (= b c))");
    assert_eq!(shape("a ? b : c ? d : e"), "(? a b (? c d e))");
    assert_eq!(shape("a ? b ? c : d : e"), "(? a (? b c d) e)");
    assert_eq!(shape("a = b ? c : d"), "(= a (? b c d))");
    assert_eq!(shape("a ? b = 1 : c"), "(? a (= b 1) c)");
}

#[test]
fn compound_assignment_stands_for_assignment_of_the_operation() {
    assert_eq!(shape("x += 3"), "(= x (Add x 3))");
    assert_eq!(shape("x -= y * 2"), "(= x (Subtract x (Multiply y 2)))");
    assert_eq!(shape("x *= 1"), "(= x (Multiply x 1))");
    assert_eq!(shape("x /= 1"), "(= x (Divide x 1))");
    assert_eq!(shape("x %= 1"), "(= x (Modulus x 1))");
    assert_eq!(shape("x &= 1"), "(= x (BitwiseAnd x 1))");
    assert_eq!(shape("x |= 1"), "(= x (BitwiseOr x 1))");
    assert_eq!(shape("x ^= 1"), "(= x (BitwiseXor x 1))");
    assert_eq!(shape("x <<= 1"), "(= x (LeftShift x 1))");
    assert_eq!(shape("x >>= 1"), "(= x (RightShift x 1))");
    assert_eq!(shape("x += y -= 2"), "(= x (Add x (= y (Subtract y 2))))");
}

#[test]
fn calls_and_their_arguments() {
    assert_eq!(shape("f()"), "f()");
    assert_eq!(shape("f(1)"), "f(1)");
    assert_eq!(shape("f(1, a + 2, g(3))"), "f(1 (Add a 2) g(3))");
    assert_eq!(shape("f(a) + 1"), "(Add f(a) 1)");
    // A comma between two arguments may be left out.
    assert_eq!(shape("f(1 2)"), "f(1 2)");
}

#[test]
fn lines_are_attached() {
    let ast = ast("int main(void) {\n  int x = 1;\n  x =\n 2;\n  return f(\nx);\n}");
    let items = &body(&ast.program.func_decls[0]).items;
    match &items[0] {
        BlockItem::Decl(Decl::VarDecl(d)) => {
            assert_eq!(d.name, "x");
            assert_eq!(d.line, 2);
            assert!(matches!(d.init, Some(Expr::Integer(1))));
        },
        _ => panic!("no declaration"),
    }
    match &items[1] {
        BlockItem::Stmt(Stmt::Expression(Expr::Assignment(l, _, line))) => {
            assert_eq!(*line, 3);
            assert!(matches!(&**l, Expr::Var(name, 3) if name == "x"));
        },
        _ => panic!("no assignment"),
    }
    match &items[2] {
        BlockItem::Stmt(Stmt::Return(Expr::FunctionCall(name, args, line))) => {
            assert_eq!(name, "f");
            assert_eq!(*line, 5);
            assert!(matches!(&args[0], Expr::Var(name, 6) if name == "x"));
        },
        _ => panic!("no call"),
    }
}

#[test]
fn functions_with_parameters_and_without_body() {
    let ast = ast("int f(int a, int b);\nint g(void);\nint f(int x, int y) { return x; }");
    let fs = &ast.program.func_decls;
    assert_eq!(fs.len(), 3);
    assert_eq!(fs[0].name, "f");
    assert_eq!(fs[0].params, vec!["a", "b"]);
    assert!(fs[0].body.is_none());
    assert_eq!(fs[0].line_number, 1);
    assert_eq!(fs[1].name, "g");
    assert!(fs[1].params.is_empty());
    assert!(fs[1].body.is_none());
    assert_eq!(fs[1].line_number, 2);
    assert_eq!(fs[2].params, vec!["x", "y"]);
    assert!(fs[2].body.is_some());
    assert_eq!(fs[2].line_number, 3);
}

#[test]
fn a_function_may_be_declared_inside_a_block() {
    let ast = ast("int main(void) { int f(int a); return f(1); }");
    let items = &body(&ast.program.func_decls[0]).items;
    assert!(matches!(&items[0], BlockItem::Decl(Decl::FuncDecl(f)) if f.name == "f" && f.body.is_none()));
}

#[test]
fn every_statement() {
    let ast = ast(
        "int main(void) { ; if (a) b; if (a) b; else c; { d; } break; continue; \
         while (a) b; do b; while (a); for (;;) ; for (int i = 0; i < 3; i = i + 1) b; \
         for (i = 0; ; ) b; return 0; }",
    );
    let items = &body(&ast.program.func_decls[0]).items;
    let stmt = |k: usize| match &items[k] {
        BlockItem::Stmt(s) => s,
        _ => panic!("no statement"),
    };
    assert!(matches!(stmt(0), Stmt::Null));
    assert!(matches!(stmt(1), Stmt::If(_, _, None)));
    assert!(matches!(stmt(2), Stmt::If(_, _, Some(_))));
    assert!(matches!(stmt(3), Stmt::Compound(b) if b.items.len() == 1));
    assert!(matches!(stmt(4), Stmt::Break(label, 1) if label.is_empty()));
    assert!(matches!(stmt(5), Stmt::Continue(label, 1) if label.is_empty()));
    assert!(matches!(stmt(6), Stmt::While(_, _, label) if label.is_empty()));
    assert!(matches!(stmt(7), Stmt::DoWhile(_, _, label) if label.is_empty()));
    assert!(matches!(stmt(8), Stmt::For(None, None, None, body, _) if matches!(**body, Stmt::Null)));
    assert!(matches!(
        stmt(9),
        Stmt::For(Some(ForInit::Decl(d)), Some(_), Some(_), _, _) if d.name == "i"
    ));
    assert!(matches!(stmt(10), Stmt::For(Some(ForInit::Expr(_)), None, None, _, _)));
    assert!(matches!(stmt(11), Stmt::Return(Expr::Integer(0))));
    assert_eq!(items.len(), 12);
}

#[test]
fn else_belongs_to_the_nearest_if() {
    let ast = ast("int main(void) { if (a) if (b) c; else d; }");
    match &body(&ast.program.func_decls[0]).items[0] {
        BlockItem::Stmt(Stmt::If(_, inner, None)) => {
            assert!(matches!(&**inner, Stmt::If(_, _, Some(_))));
        },
        _ => panic!("no if"),
    }
}

#[test]
fn a_missing_semicolon_names_both_tokens_and_the_line() {
    let (line, msg) = syntax_error("int main(void) {\n  return 1\n}");
    assert_eq!(msg, "Expected ';', found '}'");
    assert_eq!(line, 3);
}

#[test]
fn a_missing_expression_names_the_text_that_was_found() {
    let (line, msg) = syntax_error("int main(void) {\n\n  return ;\n}");
    assert_eq!(msg, "Expected an expression, found ';'");
    assert_eq!(line, 3);
    let (_, msg) = syntax_error("int main(void) { return 1 + ");
    assert_eq!(msg, "Expected an expression, found ''");
}

#[test]
fn a_missing_identifier_names_the_text_that_was_found() {
    let (line, msg) = syntax_error("int 5(void) { return 1; }");
    assert_eq!(msg, "Expected an identifier, found '5'");
    assert_eq!(line, 1);
}

#[test]
fn expected_tokens_are_named_by_their_kind() {
    let (_, msg) = syntax_error("int main(void) { return (1 + x; }");
    assert_eq!(msg, "Expected ')', found ';'");
    let (_, msg) = syntax_error("int main(void) { return a ? b ; }");
    assert_eq!(msg, "Expected ':', found ';'");
    let (_, msg) = syntax_error("int main(void) { do x; until (1); }");
    assert_eq!(msg, "Expected 'while', found 'identifier'");
    let (_, msg) = syntax_error("int main(void) { if x; }");
    assert_eq!(msg, "Expected '(', found 'identifier'");
    let (_, msg) = syntax_error("int main() { return 0; }");
    assert_eq!(msg, "Expected 'int', found ')'");
    let (_, msg) = syntax_error("int main(void) { return 0;");
    assert_eq!(msg, "Expected '}', found 'EOF'");
    let (_, msg) = syntax_error("int main(void) { x = 12 34; }");
    assert_eq!(msg, "Expected ';', found '34'");
}

#[test]
fn only_functions_are_accepted_at_the_top_level() {
    let (_, msg) = syntax_error("int x = 5; int main(void) { return x; }");
    assert_eq!(msg, "Expected '(', found '='");
    let (_, msg) = syntax_error("return 1;");
    assert_eq!(msg, "Expected 'int', found 'return'");
}

#[test]
fn the_first_error_wins() {
    let (line, msg) = syntax_error("int main(void) {\n return 1 +;\n return (;\n}");
    assert_eq!(line, 2);
    assert_eq!(msg, "Expected an expression, found ';'");
}

#[test]
fn parser_from_tokens_built_by_hand() {
    let token = |t: TokenType, lexeme: &str| Token::new(t, lexeme.to_string(), 1);
    let tokens = vec![
        token(TokenType::Int, "int"),
        token(TokenType::Identifier, "f"),
        token(TokenType::OpenParen, "("),
        token(TokenType::Void, "void"),
        token(TokenType::CloseParen, ")"),
        token(TokenType::Semicolon, ";"),
        token(TokenType::EOF, ""),
    ];
    let mut parser = Parser::new(tokens);
    assert_eq!(parser.current, 0);
    assert_eq!(parser.tokens.len(), 7);
    let ast = parser.parse().unwrap();
    assert_eq!(ast.program.func_decls.len(), 1);
    assert_eq!(ast.program.func_decls[0].name, "f");
    assert_eq!(parser.current, 6);
}

#[test]
fn copies_of_expressions_are_equal_in_shape() {
    let e = Expr::Conditional(
        Box::new(Expr::Var("a".to_string(), 1)),
        Box::new(Expr::FunctionCall(
            "f".to_string(),
            vec![Expr::Integer(1), Expr::UnaryOp(UnaryOp::Not, Box::new(Expr::Integer(2)))],
            2,
        )),
        Box::new(Expr::Assignment(
            Box::new(Expr::Var("b".to_string(), 3)),
            Box::new(Expr::BinaryOp(
                BinaryOp::Add,
                Box::new(Expr::Integer(3)),
                Box::new(Expr::Integer(4)),
            )),
            3,
        )),
    );
    assert_eq!(show(&e.clone()), "(? a f(1 (Not 2)) (= b (Add 3 4)))");
    assert_eq!(format!("{:?}", e.clone()), format!("{:?}", e));
}
