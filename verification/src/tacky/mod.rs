//! Lowering of the syntax tree to the linear intermediate representation.

pub mod flow;
pub mod lowering;
pub mod renaming;
pub mod tacky;
pub mod unique;

use vstd::prelude::*;
use vstd::string::*;
use crate::views::{seq_view, push_view, clone_string, clone_strings, lemma_take_step};
use crate::name_generator::{gen_tmp_name, gen_label};
use crate::parser::ast::{
    AST, Block, BlockItem, Decl, Expr, Stmt, ForInit, VarDecl, expr_targets_ok, stmt_targets_ok,
    items_targets_ok, item_targets_ok, var_decl_targets_ok, func_targets_ok, program_targets_ok,
    opt_expr_targets_ok, opt_expr_view,
};
use crate::parser::ast::UnaryOp as AstUnaryOp;
use crate::parser::ast::BinaryOp as AstBinaryOp;
use crate::tacky::tacky::{TackyAST, TackyProgram, Function, Instr, Val, UnaryOp, BinaryOp};
use crate::validator::labels::program_labelled;
use crate::tacky::flow::{closed, balanced, program_uses_labels, lemma_lower_program_closed};
use crate::tacky::lowering::{ends_with_return, lemma_lowered_functions_return};
use crate::tacky::lowering::{
    ir_unary_op, ir_binary_op, is_logical, lower_expr, lower_args, lower_opt_expr, lower_var_decl,
    lower_stmt, lower_item, lower_items, lower_function, lower_funcs, lower_program,
};

verus! {

/// Lowers a validated translation unit to the intermediate representation.
/// Temporaries and labels are numbered from `counter` on. Every function
/// ends with a `return 0`, whatever its body returns. Where every
/// `break` and `continue` of the unit carries the label of the loop around
/// it, every jump of a function goes to a label that the function defines;
/// where moreover every loop is left and repeated by jumps, the labels that
/// a function defines are exactly the targets of its jumps.
pub fn gen_tacky(ast: &AST, counter: &mut usize) -> (tacky: TackyAST)
    requires
        program_targets_ok(ast@),
    ensures
        (tacky@, *final(counter)) == lower_program(ast@, *old(counter)),
        forall|k: int| 0 <= k < tacky@.funcs.len() ==> ends_with_return(#[trigger] tacky@.funcs[k]),
        program_labelled(ast@) ==> forall|k: int|
            0 <= k < tacky@.funcs.len() ==> closed((#[trigger] tacky@.funcs[k]).instrs),
        program_labelled(ast@) && program_uses_labels(ast@) ==> forall|k: int|
            0 <= k < tacky@.funcs.len() ==> balanced((#[trigger] tacky@.funcs[k]).instrs),
{
    let ghost c0 = *counter;
    let tacky = gen_tacky_program(ast, counter);
    proof {
        lemma_lowered_functions_return(ast@.func_decls, c0);
        assert forall|k: int| 0 <= k < tacky@.funcs.len() implies ends_with_return(
            #[trigger] tacky@.funcs[k],
        ) by {
            assert(tacky@.funcs[k] == lower_funcs(ast@.func_decls, c0).0[k]);
        }
        if program_labelled(ast@) {
            lemma_lower_program_closed(ast@, c0);
            let funcs = lower_program(ast@, c0).0.funcs;
            assert(tacky@.funcs == funcs);
            assert forall|k: int| 0 <= k < tacky@.funcs.len() implies closed(
                (#[trigger] tacky@.funcs[k]).instrs,
            ) by {
                assert(closed(funcs[k].instrs));
            }
            if program_uses_labels(ast@) {
                assert forall|k: int| 0 <= k < tacky@.funcs.len() implies balanced(
                    (#[trigger] tacky@.funcs[k]).instrs,
                ) by {
                    assert(balanced(funcs[k].instrs));
                }
            }
        }
    }
    tacky
}

fn gen_tacky_program(ast: &AST, counter: &mut usize) -> (tacky: TackyAST)
    requires
        program_targets_ok(ast@),
    ensures
        (tacky@, *final(counter)) == lower_program(ast@, *old(counter)),
{
    let mut funcs: Vec<Function> = Vec::new();
    let ghost decls = ast@.func_decls;
    let ghost c0 = *counter;
    let mut i: usize = 0;
    proof {
        assert(decls.take(0) =~= Seq::empty());
        assert(seq_view(funcs@) =~= Seq::empty());
    }
    while i < ast.program.func_decls.len()
        invariant
            i <= ast.program.func_decls.len(),
            decls == ast@.func_decls,
            program_targets_ok(ast@),
            (seq_view(funcs@), *counter) == lower_funcs(decls.take(i as int), c0),
        decreases ast.program.func_decls.len() - i,
    {
        let func_decl = &ast.program.func_decls[i];
        proof {
            lemma_take_step(decls, i as int);
            assert(decls[i as int] == func_decl@);
            assert(func_targets_ok(decls[i as int]));
        }
        if let Some(body) = &func_decl.body {
            let f = gen_tacky_function(
                clone_string(&func_decl.name),
                &func_decl.params,
                body,
                counter,
            );
            push_view(&mut funcs, f);
        }
        i += 1;
    }
    proof {
        assert(decls.take(i as int) =~= decls);
    }
    TackyAST { program: TackyProgram { funcs } }
}

fn gen_tacky_function(name: String, params: &Vec<String>, body: &Block, counter: &mut usize) -> (f:
    Function)
    requires
        items_targets_ok(body@.items),
    ensures
        (f@, *final(counter)) == lower_function(
            name@,
            seq_view(params@),
            body@.items,
            *old(counter),
        ),
{
    let mut instrs: Vec<Instr> = Vec::new();
    proof {
        assert(seq_view(instrs@) =~= Seq::empty());
    }
    generate_block_instrs(body, &mut instrs, counter);
    // A return closes the function in case its body has none.
    push_view(&mut instrs, Instr::Return(Val::Integer(0)));
    let params = clone_strings(params);
    Function { name, params, instrs }
}

fn generate_block_instrs(block: &Block, instrs: &mut Vec<Instr>, counter: &mut usize)
    requires
        items_targets_ok(block@.items),
    ensures
        (seq_view(final(instrs)@), *final(counter)) == lower_items(
            block@.items,
            seq_view(old(instrs)@),
            *old(counter),
        ),
    decreases block,
{
    let ghost items = block@.items;
    let ghost start = seq_view(instrs@);
    let ghost c0 = *counter;
    let mut i: usize = 0;
    proof {
        block.lemma_items_view();
        assert(items.take(0) =~= Seq::empty());
    }
    while i < block.items.len()
        invariant
            i <= block.items.len(),
            items == block@.items,
            items == seq_view(block.items@),
            items_targets_ok(items),
            (seq_view(instrs@), *counter) == lower_items(items.take(i as int), start, c0),
        decreases block.items.len() - i,
    {
        proof {
            lemma_take_step(items, i as int);
            assert(items[i as int] == block.items@[i as int]@);
            assert(item_targets_ok(items[i as int]));
        }
        let ghost before = (seq_view(instrs@), *counter);
        match &block.items[i] {
            BlockItem::Decl(decl) => {
                proof {
                    assert(items[i as int] == crate::parser::ast::BlockItemView::Decl(decl@));
                }
                if let Decl::VarDecl(decl) = decl {
                    generate_decl_instrs(decl, instrs, counter);
                }
            },
            BlockItem::Stmt(stmt) => {
                proof {
                    assert(items[i as int] == crate::parser::ast::BlockItemView::Stmt(stmt@));
                }
                generate_stmt_instrs(stmt, instrs, counter);
            },
        }
        proof {
            assert((seq_view(instrs@), *counter) == lower_item(
                items[i as int],
                before.0,
                before.1,
            ));
        }
        i += 1;
    }
    proof {
        assert(items.take(i as int) =~= items);
    }
}

fn generate_decl_instrs(decl: &VarDecl, instrs: &mut Vec<Instr>, counter: &mut usize)
    requires
        var_decl_targets_ok(decl@),
    ensures
        (seq_view(final(instrs)@), *final(counter)) == lower_var_decl(
            decl@,
            seq_view(old(instrs)@),
            *old(counter),
        ),
{
    if let Some(init) = &decl.init {
        let val = gen_expr_instrs(init, instrs, counter);
        push_view(instrs, Instr::Copy(val, Val::Var(clone_string(&decl.name))));
    }
}

fn prefixed(prefix: &str, label: &String) -> (r: String)
    ensures
        r@ == prefix@ + label@,
{
    let mut s = String::from_str(prefix);
    s.append(label.as_str());
    s
}

fn generate_optional_expr(expr: &Option<Expr>, instrs: &mut Vec<Instr>, counter: &mut usize)
    requires
        opt_expr_targets_ok(opt_expr_view(*expr)),
    ensures
        (seq_view(final(instrs)@), *final(counter)) == lower_opt_expr(
            opt_expr_view(*expr),
            seq_view(old(instrs)@),
            *old(counter),
        ),
{
    if let Some(e) = expr {
        let _ = gen_expr_instrs(e, instrs, counter);
    }
}

fn generate_stmt_instrs(stmt: &Stmt, instrs: &mut Vec<Instr>, counter: &mut usize)
    requires
        stmt_targets_ok(stmt@),
    ensures
        (seq_view(final(instrs)@), *final(counter)) == lower_stmt(
            stmt@,
            seq_view(old(instrs)@),
            *old(counter),
        ),
    decreases stmt,
{
    match stmt {
        Stmt::Return(expr) => {
            gen_return_instrs(expr, instrs, counter);
        },
        Stmt::Expression(expr) => {
            let _ = gen_expr_instrs(expr, instrs, counter);
        },
        Stmt::Null => (),
        Stmt::If(condition, then_stmt, else_stmt) => {
            let end_label = gen_label("end", counter);
            let else_label = gen_label("else", counter);
            let condition: Val = gen_expr_instrs(condition, instrs, counter);
            push_view(instrs, Instr::JumpIfZero(condition, clone_string(&else_label)));
            generate_stmt_instrs(then_stmt, instrs, counter);
            push_view(instrs, Instr::Jump(clone_string(&end_label)));
            push_view(instrs, Instr::Label(else_label));
            if let Some(s) = else_stmt {
                generate_stmt_instrs(s, instrs, counter);
            }
            push_view(instrs, Instr::Label(end_label));
        },
        Stmt::Compound(block) => {
            generate_block_instrs(block, instrs, counter);
        },
        Stmt::Break(label, _) => {
            push_view(instrs, Instr::Jump(prefixed("break_", label)));
        },
        Stmt::Continue(label, _) => {
            push_view(instrs, Instr::Jump(prefixed("continue_", label)));
        },
        Stmt::DoWhile(body, condition, label) => {
            let start_label = gen_label("start", counter);
            push_view(instrs, Instr::Label(clone_string(&start_label)));
            generate_stmt_instrs(body, instrs, counter);
            push_view(instrs, Instr::Label(prefixed("continue_", label)));
            let condition = gen_expr_instrs(condition, instrs, counter);
            push_view(instrs, Instr::JumpIfNotZero(condition, start_label));
            push_view(instrs, Instr::Label(prefixed("break_", label)));
        },
        Stmt::While(condition, body, label) => {
            let continue_label = prefixed("continue_", label);
            let break_label = prefixed("break_", label);
            push_view(instrs, Instr::Label(clone_string(&continue_label)));
            let condition = gen_expr_instrs(condition, instrs, counter);
            push_view(instrs, Instr::JumpIfZero(condition, clone_string(&break_label)));
            generate_stmt_instrs(body, instrs, counter);
            push_view(instrs, Instr::Jump(continue_label));
            push_view(instrs, Instr::Label(break_label));
        },
        Stmt::For(init, condition, post, body, label) => {
            let start_label = gen_label("start", counter);
            let continue_label = prefixed("continue_", label);
            let break_label = prefixed("break_", label);
            if let Some(init) = init {
                match init {
                    ForInit::Decl(d) => {
                        generate_decl_instrs(d, instrs, counter);
                    },
                    ForInit::Expr(e) => {
                        let _ = gen_expr_instrs(e, instrs, counter);
                    },
                }
            }
            push_view(instrs, Instr::Label(clone_string(&start_label)));
            if let Some(condition) = condition {
                let condition = gen_expr_instrs(condition, instrs, counter);
                push_view(instrs, Instr::JumpIfZero(condition, clone_string(&break_label)));
            }
            generate_stmt_instrs(body, instrs, counter);
            push_view(instrs, Instr::Label(continue_label));
            generate_optional_expr(post, instrs, counter);
            push_view(instrs, Instr::Jump(start_label));
            push_view(instrs, Instr::Label(break_label));
        },
    };
}

fn gen_return_instrs(expr: &Expr, instrs: &mut Vec<Instr>, counter: &mut usize)
    requires
        expr_targets_ok(expr@),
    ensures
        (seq_view(final(instrs)@), *final(counter)) == lower_stmt(
            crate::parser::ast::StmtView::Return(expr@),
            seq_view(old(instrs)@),
            *old(counter),
        ),
{
    let val = gen_expr_instrs(expr, instrs, counter);
    push_view(instrs, Instr::Return(val));
}

fn convert_unary_op(operator: AstUnaryOp) -> (op: UnaryOp)
    ensures
        op == ir_unary_op(operator),
{
    match operator {
        AstUnaryOp::Negate => UnaryOp::Negate,
        AstUnaryOp::Complement => UnaryOp::Complement,
        AstUnaryOp::Not => UnaryOp::Not,
    }
}

fn convert_binary_op(operator: AstBinaryOp) -> (op: BinaryOp)
    requires
        !is_logical(operator),
    ensures
        op == ir_binary_op(operator),
{
    match operator {
        AstBinaryOp::Add => BinaryOp::Add,
        AstBinaryOp::Subtract => BinaryOp::Subtract,
        AstBinaryOp::Multiply => BinaryOp::Multiply,
        AstBinaryOp::Divide => BinaryOp::Divide,
        AstBinaryOp::Modulus => BinaryOp::Modulus,
        AstBinaryOp::BitwiseAnd => BinaryOp::BitwiseAnd,
        AstBinaryOp::BitwiseOr => BinaryOp::BitwiseOr,
        AstBinaryOp::BitwiseXor => BinaryOp::BitwiseXor,
        AstBinaryOp::LeftShift => BinaryOp::LeftShift,
        AstBinaryOp::RightShift => BinaryOp::RightShift,
        AstBinaryOp::Equal => BinaryOp::Equal,
        AstBinaryOp::NotEqual => BinaryOp::NotEqual,
        AstBinaryOp::LessThan => BinaryOp::LessThan,
        AstBinaryOp::LessOrEqual => BinaryOp::LessOrEqual,
        AstBinaryOp::GreaterThan => BinaryOp::GreaterThan,
        _ => BinaryOp::GreaterOrEqual,
    }
}

fn gen_expr_instrs(expr: &Expr, instrs: &mut Vec<Instr>, counter: &mut usize) -> (val: Val)
    requires
        expr_targets_ok(expr@),
    ensures
        (seq_view(final(instrs)@), val@, *final(counter)) == lower_expr(
            expr@,
            seq_view(old(instrs)@),
            *old(counter),
        ),
    decreases expr, 1nat,
{
    match expr {
        Expr::Integer(i) => Val::Integer(*i),
        Expr::UnaryOp(operator, inner) => {
            let src = gen_expr_instrs(inner, instrs, counter);
            let dest = Val::Var(gen_tmp_name(counter));
            let unary_op = convert_unary_op(*operator);
            push_view(instrs, Instr::Unary(unary_op, src, dest.clone()));
            dest
        },
        Expr::BinaryOp(AstBinaryOp::LogicalAnd, left, right) => gen_logical_and(
            expr,
            left,
            right,
            instrs,
            counter,
        ),
        Expr::BinaryOp(AstBinaryOp::LogicalOr, left, right) => gen_logical_or(
            expr,
            left,
            right,
            instrs,
            counter,
        ),
        Expr::BinaryOp(operator, left, right) => {
            let left = gen_expr_instrs(left, instrs, counter);
            let right = gen_expr_instrs(right, instrs, counter);
            let dest = Val::Var(gen_tmp_name(counter));
            let binary_op = convert_binary_op(*operator);
            push_view(instrs, Instr::Binary(binary_op, left, right, dest.clone()));
            dest
        },
        Expr::Var(name, _) => Val::Var(clone_string(name)),
        Expr::Assignment(left, right, _) => {
            proof {
                assert(left@ is Var);
            }
            let name = match &**left {
                Expr::Var(name, _) => clone_string(name),
                _ => String::new(),
            };
            let right = gen_expr_instrs(right, instrs, counter);
            push_view(instrs, Instr::Copy(right, Val::Var(clone_string(&name))));
            Val::Var(name)
        },
        Expr::Conditional(condition, middle, right) => {
            let e2_label = gen_label("e2", counter);
            let end_label = gen_label("end", counter);
            let dest = Val::Var(gen_tmp_name(counter));
            let condition = gen_expr_instrs(condition, instrs, counter);
            push_view(instrs, Instr::JumpIfZero(condition, clone_string(&e2_label)));
            let middle = gen_expr_instrs(middle, instrs, counter);
            push_view(instrs, Instr::Copy(middle, dest.clone()));
            push_view(instrs, Instr::Jump(clone_string(&end_label)));
            push_view(instrs, Instr::Label(e2_label));
            let right = gen_expr_instrs(right, instrs, counter);
            push_view(instrs, Instr::Copy(right, dest.clone()));
            push_view(instrs, Instr::Label(end_label));
            dest
        },
        Expr::FunctionCall(name, args, _) => {
            let ghost start = seq_view(instrs@);
            let ghost c0 = *counter;
            let ghost a = seq_view(args@);
            let mut vals: Vec<Val> = Vec::new();
            let mut i: usize = 0;
            proof {
                expr.lemma_call_view();
                assert(a.take(0) =~= Seq::empty());
                assert(seq_view(vals@) =~= Seq::empty());
                assert(expr@->FunctionCall_1 == a);
                assert(forall|k: int| 0 <= k < a.len() ==> expr_targets_ok(#[trigger] a[k]));
            }
            while i < args.len()
                invariant
                    i <= args.len(),
                    expr matches Expr::FunctionCall(_, x, _) && x == args,
                    a == seq_view(args@),
                    forall|k: int| 0 <= k < a.len() ==> expr_targets_ok(#[trigger] a[k]),
                    (seq_view(instrs@), seq_view(vals@), *counter) == lower_args(
                        a.take(i as int),
                        start,
                        c0,
                    ),
                decreases args.len() - i,
            {
                proof {
                    lemma_take_step(a, i as int);
                    assert(a[i as int] == args@[i as int]@);
                }
                let v = gen_expr_instrs(&args[i], instrs, counter);
                push_view(&mut vals, v);
                i += 1;
            }
            proof {
                assert(a.take(i as int) =~= a);
            }
            let dest = Val::Var(gen_tmp_name(counter));
            let call = Instr::FuncCall(clone_string(name), vals, dest.clone());
            push_view(instrs, call);
            dest
        },
    }
}

fn gen_logical_and(
    whole: &Expr,
    left: &Box<Expr>,
    right: &Box<Expr>,
    instrs: &mut Vec<Instr>,
    counter: &mut usize,
) -> (val: Val)
    requires
        whole matches Expr::BinaryOp(op, l, r) && op == AstBinaryOp::LogicalAnd && l == left && r
            == right,
        expr_targets_ok(whole@),
    ensures
        (seq_view(final(instrs)@), val@, *final(counter)) == lower_expr(
            whole@,
            seq_view(old(instrs)@),
            *old(counter),
        ),
    decreases whole, 0nat,
{
    let left = gen_expr_instrs(left, instrs, counter);
    let false_label = gen_label("false", counter);
    let end_label = gen_label("end", counter);
    push_view(instrs, Instr::JumpIfZero(left, clone_string(&false_label)));
    let right = gen_expr_instrs(right, instrs, counter);
    push_view(instrs, Instr::JumpIfZero(right, clone_string(&false_label)));
    let dest = Val::Var(gen_tmp_name(counter));
    push_view(instrs, Instr::Copy(Val::Integer(1), dest.clone()));
    push_view(instrs, Instr::Jump(clone_string(&end_label)));
    push_view(instrs, Instr::Label(false_label));
    push_view(instrs, Instr::Copy(Val::Integer(0), dest.clone()));
    push_view(instrs, Instr::Label(end_label));
    dest
}

fn gen_logical_or(
    whole: &Expr,
    left: &Box<Expr>,
    right: &Box<Expr>,
    instrs: &mut Vec<Instr>,
    counter: &mut usize,
) -> (val: Val)
    requires
        whole matches Expr::BinaryOp(op, l, r) && op == AstBinaryOp::LogicalOr && l == left && r
            == right,
        expr_targets_ok(whole@),
    ensures
        (seq_view(final(instrs)@), val@, *final(counter)) == lower_expr(
            whole@,
            seq_view(old(instrs)@),
            *old(counter),
        ),
    decreases whole, 0nat,
{
    let left = gen_expr_instrs(left, instrs, counter);
    let true_label = gen_label("true", counter);
    let end_label = gen_label("end", counter);
    push_view(instrs, Instr::JumpIfNotZero(left, clone_string(&true_label)));
    let right = gen_expr_instrs(right, instrs, counter);
    push_view(instrs, Instr::JumpIfNotZero(right, clone_string(&true_label)));
    let dest = Val::Var(gen_tmp_name(counter));
    push_view(instrs, Instr::Copy(Val::Integer(0), dest.clone()));
    push_view(instrs, Instr::Jump(clone_string(&end_label)));
    push_view(instrs, Instr::Label(true_label));
    push_view(instrs, Instr::Copy(Val::Integer(1), dest.clone()));
    push_view(instrs, Instr::Label(end_label));
    dest
}

} // verus!
