//! What lowering produces, stated over the models of the syntax tree and of
//! the intermediate representation. Every function here takes the
//! instructions emitted so far and the value of the name counter, and gives
//! the instructions with those of its subject appended and the counter
//! afterwards.

use vstd::prelude::*;
use crate::name_generator::{next_counter, numbered, tmp_name};
use crate::parser::ast::{
    ExprView, StmtView, BlockItemView, DeclView, VarDeclView, ForInitView, FuncDeclView,
    ProgramView, UnaryOp, BinaryOp,
};
use crate::tacky::tacky::{InstrView, ValView, FunctionView, TackyProgramView};
use crate::tacky::tacky::UnaryOp as IrUnaryOp;
use crate::tacky::tacky::BinaryOp as IrBinaryOp;

verus! {

/// The operator of the intermediate representation for a unary operator.
pub open spec fn ir_unary_op(op: UnaryOp) -> IrUnaryOp {
    match op {
        UnaryOp::Negate => IrUnaryOp::Negate,
        UnaryOp::Complement => IrUnaryOp::Complement,
        UnaryOp::Not => IrUnaryOp::Not,
    }
}

/// Whether the operator evaluates its right operand only when needed.
pub open spec fn is_logical(op: BinaryOp) -> bool {
    op == BinaryOp::LogicalAnd || op == BinaryOp::LogicalOr
}

/// The operator of the intermediate representation for a binary operator
/// that evaluates both operands.
pub open spec fn ir_binary_op(op: BinaryOp) -> IrBinaryOp
    recommends
        !is_logical(op),
{
    match op {
        BinaryOp::Add => IrBinaryOp::Add,
        BinaryOp::Subtract => IrBinaryOp::Subtract,
        BinaryOp::Multiply => IrBinaryOp::Multiply,
        BinaryOp::Divide => IrBinaryOp::Divide,
        BinaryOp::Modulus => IrBinaryOp::Modulus,
        BinaryOp::BitwiseAnd => IrBinaryOp::BitwiseAnd,
        BinaryOp::BitwiseOr => IrBinaryOp::BitwiseOr,
        BinaryOp::BitwiseXor => IrBinaryOp::BitwiseXor,
        BinaryOp::LeftShift => IrBinaryOp::LeftShift,
        BinaryOp::RightShift => IrBinaryOp::RightShift,
        BinaryOp::Equal => IrBinaryOp::Equal,
        BinaryOp::NotEqual => IrBinaryOp::NotEqual,
        BinaryOp::LessThan => IrBinaryOp::LessThan,
        BinaryOp::LessOrEqual => IrBinaryOp::LessOrEqual,
        BinaryOp::GreaterThan => IrBinaryOp::GreaterThan,
        _ => IrBinaryOp::GreaterOrEqual,
    }
}

/// The label that `break` jumps to in the loop with the given label.
pub open spec fn break_label(label: Seq<char>) -> Seq<char> {
    "break_"@ + label
}

/// The label that `continue` jumps to in the loop with the given label.
pub open spec fn continue_label(label: Seq<char>) -> Seq<char> {
    "continue_"@ + label
}

/// The temporary that the counter value `c` names.
pub open spec fn tmp(c: usize) -> ValView {
    ValView::Var(tmp_name(c))
}

/// The tail of `l && r` after both operands were evaluated: the result is 1
/// unless one of the tests jumped to the false label.
pub open spec fn and_tail(
    acc: Seq<InstrView>,
    right: ValView,
    dst: ValView,
    false_label: Seq<char>,
    end_label: Seq<char>,
) -> Seq<InstrView> {
    acc.push(InstrView::JumpIfZero(right, false_label)).push(
        InstrView::Copy(ValView::Integer(1), dst),
    ).push(InstrView::Jump(end_label)).push(InstrView::Label(false_label)).push(
        InstrView::Copy(ValView::Integer(0), dst),
    ).push(InstrView::Label(end_label))
}

/// The tail of `l || r` after both operands were evaluated: the result is 0
/// unless one of the tests jumped to the true label.
pub open spec fn or_tail(
    acc: Seq<InstrView>,
    right: ValView,
    dst: ValView,
    true_label: Seq<char>,
    end_label: Seq<char>,
) -> Seq<InstrView> {
    acc.push(InstrView::JumpIfNotZero(right, true_label)).push(
        InstrView::Copy(ValView::Integer(0), dst),
    ).push(InstrView::Jump(end_label)).push(InstrView::Label(true_label)).push(
        InstrView::Copy(ValView::Integer(1), dst),
    ).push(InstrView::Label(end_label))
}

/// Lowers an expression onto `acc`: the instructions with those that
/// evaluate the expression appended, the value that holds the result, and
/// the counter afterwards.
pub open spec fn lower_expr(e: ExprView, acc: Seq<InstrView>, c: usize) -> (
    Seq<InstrView>,
    ValView,
    usize,
)
    decreases e,
{
    match e {
        ExprView::Integer(i) => (acc, ValView::Integer(i), c),
        ExprView::Var(name, _) => (acc, ValView::Var(name), c),
        ExprView::UnaryOp(op, inner) => {
            let (a1, src, c1) = lower_expr(*inner, acc, c);
            (a1.push(InstrView::Unary(ir_unary_op(op), src, tmp(c1))), tmp(c1), next_counter(c1))
        },
        ExprView::BinaryOp(op, l, r) => {
            let (a1, lv, c1) = lower_expr(*l, acc, c);
            if op == BinaryOp::LogicalAnd {
                let false_label = numbered("false"@, c1);
                let end_label = numbered("end"@, next_counter(c1));
                let (a2, rv, c2) = lower_expr(
                    *r,
                    a1.push(InstrView::JumpIfZero(lv, false_label)),
                    next_counter(next_counter(c1)),
                );
                (and_tail(a2, rv, tmp(c2), false_label, end_label), tmp(c2), next_counter(c2))
            } else if op == BinaryOp::LogicalOr {
                let true_label = numbered("true"@, c1);
                let end_label = numbered("end"@, next_counter(c1));
                let (a2, rv, c2) = lower_expr(
                    *r,
                    a1.push(InstrView::JumpIfNotZero(lv, true_label)),
                    next_counter(next_counter(c1)),
                );
                (or_tail(a2, rv, tmp(c2), true_label, end_label), tmp(c2), next_counter(c2))
            } else {
                let (a2, rv, c2) = lower_expr(*r, a1, c1);
                (
                    a2.push(InstrView::Binary(ir_binary_op(op), lv, rv, tmp(c2))),
                    tmp(c2),
                    next_counter(c2),
                )
            }
        },
        ExprView::Assignment(target, r, _) => {
            let (a1, val, c1) = lower_expr(*r, acc, c);
            match *target {
                ExprView::Var(name, _) => (
                    a1.push(InstrView::Copy(val, ValView::Var(name))),
                    ValView::Var(name),
                    c1,
                ),
                _ => (a1, val, c1),
            }
        },
        ExprView::Conditional(cond, t, f) => {
            let e2_label = numbered("e2"@, c);
            let end_label = numbered("end"@, next_counter(c));
            let dst = tmp(next_counter(next_counter(c)));
            let (a1, cv, c1) = lower_expr(
                *cond,
                acc,
                next_counter(next_counter(next_counter(c))),
            );
            let (a2, tv, c2) = lower_expr(*t, a1.push(InstrView::JumpIfZero(cv, e2_label)), c1);
            let (a3, fv, c3) = lower_expr(
                *f,
                a2.push(InstrView::Copy(tv, dst)).push(InstrView::Jump(end_label)).push(
                    InstrView::Label(e2_label),
                ),
                c2,
            );
            (a3.push(InstrView::Copy(fv, dst)).push(InstrView::Label(end_label)), dst, c3)
        },
        ExprView::FunctionCall(name, args, _) => {
            let (a1, vals, c1) = lower_args(args, acc, c);
            (a1.push(InstrView::FuncCall(name, vals, tmp(c1))), tmp(c1), next_counter(c1))
        },
    }
}

/// Lowers the arguments of a call onto `acc`, from left to right, and gives
/// the values that hold them.
pub open spec fn lower_args(args: Seq<ExprView>, acc: Seq<InstrView>, c: usize) -> (
    Seq<InstrView>,
    Seq<ValView>,
    usize,
)
    decreases args,
{
    if args.len() == 0 {
        (acc, Seq::empty(), c)
    } else {
        let (a1, vals, c1) = lower_args(args.drop_last(), acc, c);
        let (a2, v, c2) = lower_expr(args.last(), a1, c1);
        (a2, vals.push(v), c2)
    }
}

/// Lowers an expression whose value is not used.
pub open spec fn lower_effect(e: ExprView, acc: Seq<InstrView>, c: usize) -> (
    Seq<InstrView>,
    usize,
) {
    (lower_expr(e, acc, c).0, lower_expr(e, acc, c).2)
}

/// Lowers an optional expression whose value is not used.
pub open spec fn lower_opt_expr(e: Option<ExprView>, acc: Seq<InstrView>, c: usize) -> (
    Seq<InstrView>,
    usize,
) {
    match e {
        Some(e) => lower_effect(e, acc, c),
        None => (acc, c),
    }
}

/// Lowers a variable declaration: its initializer, if any, is evaluated and
/// copied into the variable.
pub open spec fn lower_var_decl(d: VarDeclView, acc: Seq<InstrView>, c: usize) -> (
    Seq<InstrView>,
    usize,
) {
    match d.init {
        Some(init) => {
            let (a1, val, c1) = lower_expr(init, acc, c);
            (a1.push(InstrView::Copy(val, ValView::Var(d.name))), c1)
        },
        None => (acc, c),
    }
}

/// Lowers the first clause of a `for` header.
pub open spec fn lower_for_init(init: Option<ForInitView>, acc: Seq<InstrView>, c: usize) -> (
    Seq<InstrView>,
    usize,
) {
    match init {
        Some(ForInitView::Decl(d)) => lower_var_decl(d, acc, c),
        Some(ForInitView::Expr(e)) => lower_effect(e, acc, c),
        None => (acc, c),
    }
}

/// Lowers the test of a `for` loop. A missing condition never leaves the
/// loop.
pub open spec fn lower_for_cond(
    cond: Option<ExprView>,
    label: Seq<char>,
    acc: Seq<InstrView>,
    c: usize,
) -> (Seq<InstrView>, usize) {
    match cond {
        Some(e) => {
            let (a1, val, c1) = lower_expr(e, acc, c);
            (a1.push(InstrView::JumpIfZero(val, break_label(label))), c1)
        },
        None => (acc, c),
    }
}

/// Lowers a statement onto `acc`.
pub open spec fn lower_stmt(s: StmtView, acc: Seq<InstrView>, c: usize) -> (Seq<InstrView>, usize)
    decreases s,
{
    match s {
        StmtView::Return(e) => {
            let (a1, val, c1) = lower_expr(e, acc, c);
            (a1.push(InstrView::Return(val)), c1)
        },
        StmtView::Expression(e) => lower_effect(e, acc, c),
        StmtView::Null => (acc, c),
        StmtView::If(cond, t, e) => {
            let end_label = numbered("end"@, c);
            let else_label = numbered("else"@, next_counter(c));
            let (a1, cv, c1) = lower_expr(cond, acc, next_counter(next_counter(c)));
            let (a2, c2) = lower_stmt(*t, a1.push(InstrView::JumpIfZero(cv, else_label)), c1);
            let a3 = a2.push(InstrView::Jump(end_label)).push(InstrView::Label(else_label));
            let (a4, c3) = match e {
                Some(e) => lower_stmt(*e, a3, c2),
                None => (a3, c2),
            };
            (a4.push(InstrView::Label(end_label)), c3)
        },
        StmtView::Compound(b) => lower_items(b.items, acc, c),
        StmtView::Break(label, _) => (acc.push(InstrView::Jump(break_label(label))), c),
        StmtView::Continue(label, _) => (acc.push(InstrView::Jump(continue_label(label))), c),
        StmtView::DoWhile(body, cond, label) => {
            let start_label = numbered("start"@, c);
            let (a1, c1) = lower_stmt(
                *body,
                acc.push(InstrView::Label(start_label)),
                next_counter(c),
            );
            let (a2, cv, c2) = lower_expr(
                cond,
                a1.push(InstrView::Label(continue_label(label))),
                c1,
            );
            (
                a2.push(InstrView::JumpIfNotZero(cv, start_label)).push(
                    InstrView::Label(break_label(label)),
                ),
                c2,
            )
        },
        StmtView::While(cond, body, label) => {
            let (a1, cv, c1) = lower_expr(
                cond,
                acc.push(InstrView::Label(continue_label(label))),
                c,
            );
            let (a2, c2) = lower_stmt(
                *body,
                a1.push(InstrView::JumpIfZero(cv, break_label(label))),
                c1,
            );
            (
                a2.push(InstrView::Jump(continue_label(label))).push(
                    InstrView::Label(break_label(label)),
                ),
                c2,
            )
        },
        StmtView::For(init, cond, post, body, label) => {
            let start_label = numbered("start"@, c);
            let (a1, c1) = lower_for_init(init, acc, next_counter(c));
            let (a2, c2) = lower_for_cond(cond, label, a1.push(InstrView::Label(start_label)), c1);
            let (a3, c3) = lower_stmt(*body, a2, c2);
            let (a4, c4) = lower_opt_expr(
                post,
                a3.push(InstrView::Label(continue_label(label))),
                c3,
            );
            (
                a4.push(InstrView::Jump(start_label)).push(InstrView::Label(break_label(label))),
                c4,
            )
        },
    }
}

/// Lowers a block item onto `acc`. A function declared inside a block yields
/// no instruction.
pub open spec fn lower_item(item: BlockItemView, acc: Seq<InstrView>, c: usize) -> (
    Seq<InstrView>,
    usize,
)
    decreases item,
{
    match item {
        BlockItemView::Stmt(s) => lower_stmt(s, acc, c),
        BlockItemView::Decl(DeclView::VarDecl(d)) => lower_var_decl(d, acc, c),
        BlockItemView::Decl(DeclView::FuncDecl(_)) => (acc, c),
    }
}

/// Lowers the items of a block onto `acc`, in order.
pub open spec fn lower_items(items: Seq<BlockItemView>, acc: Seq<InstrView>, c: usize) -> (
    Seq<InstrView>,
    usize,
)
    decreases items,
{
    if items.len() == 0 {
        (acc, c)
    } else {
        let (a1, c1) = lower_items(items.drop_last(), acc, c);
        lower_item(items.last(), a1, c1)
    }
}

/// The function of the intermediate representation for a body. A `return 0`
/// closes every function, whatever its body returns.
pub open spec fn lower_function(
    name: Seq<char>,
    params: Seq<Seq<char>>,
    items: Seq<BlockItemView>,
    c: usize,
) -> (FunctionView, usize) {
    let (instrs, c1) = lower_items(items, Seq::empty(), c);
    (FunctionView { name, params, instrs: instrs.push(InstrView::Return(ValView::Integer(0))) }, c1)
}

/// The functions of the intermediate representation for a list of function
/// declarations: one for each declaration that has a body.
pub open spec fn lower_funcs(decls: Seq<FuncDeclView>, c: usize) -> (Seq<FunctionView>, usize)
    decreases decls.len(),
{
    if decls.len() == 0 {
        (Seq::empty(), c)
    } else {
        let (funcs, c1) = lower_funcs(decls.drop_last(), c);
        let d = decls.last();
        match d.body {
            Some(b) => {
                let (f, c2) = lower_function(d.name, d.params, b.items, c1);
                (funcs.push(f), c2)
            },
            None => (funcs, c1),
        }
    }
}

/// The program of the intermediate representation for a translation unit.
pub open spec fn lower_program(p: ProgramView, c: usize) -> (TackyProgramView, usize) {
    (TackyProgramView { funcs: lower_funcs(p.func_decls, c).0 }, lower_funcs(p.func_decls, c).1)
}

/// The function ends with a `return 0`.
pub open spec fn ends_with_return(f: FunctionView) -> bool {
    f.instrs.len() > 0 && f.instrs.last() == InstrView::Return(ValView::Integer(0))
}

/// Every lowered function ends with a `return 0`.
pub proof fn lemma_lowered_functions_return(decls: Seq<FuncDeclView>, c: usize)
    ensures
        forall|k: int|
            0 <= k < lower_funcs(decls, c).0.len() ==> ends_with_return(
                #[trigger] lower_funcs(decls, c).0[k],
            ),
    decreases decls.len(),
{
    if decls.len() > 0 {
        lemma_lowered_functions_return(decls.drop_last(), c);
        let (funcs, c1) = lower_funcs(decls.drop_last(), c);
        let all = lower_funcs(decls, c).0;
        assert forall|k: int| 0 <= k < all.len() implies ends_with_return(#[trigger] all[k]) by {
            if k < funcs.len() {
                assert(all[k] == funcs[k]);
            } else {
                let d = decls.last();
                let f = lower_function(d.name, d.params, d.body->0.items, c1).0;
                assert(all[k] == f);
            }
        }
    }
}

} // verus!
