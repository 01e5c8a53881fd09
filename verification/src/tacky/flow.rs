//! Jumps and labels of the intermediate representation: which labels a list
//! of instructions defines, which ones its jumps go to, and that lowering
//! defines every label that it jumps to.

use vstd::prelude::*;
use crate::parser::ast::{
    ExprView, StmtView, BlockItemView, DeclView, VarDeclView, ForInitView, FuncDeclView,
    ProgramView, BinaryOp,
};
use crate::name_generator::{next_counter, numbered};
use crate::validator::labels::{
    stmt_labelled, item_labelled, items_labelled, func_labelled, program_labelled,
};
use crate::tacky::tacky::{InstrView, ValView};
use crate::tacky::lowering::{
    break_label, continue_label, and_tail, or_tail, lower_expr, lower_args, lower_opt_expr,
    lower_var_decl, lower_for_init, lower_for_cond, lower_stmt, lower_item, lower_items,
    lower_function, lower_funcs, lower_program,
};

verus! {

/// A set of labels.
pub type Labels = Set<Seq<char>>;

/// The label that the instruction defines, if it defines one.
pub open spec fn defines(i: InstrView) -> Option<Seq<char>> {
    match i {
        InstrView::Label(l) => Some(l),
        _ => None,
    }
}

/// The label that the instruction jumps to, if it is a jump.
pub open spec fn jumps_to(i: InstrView) -> Option<Seq<char>> {
    match i {
        InstrView::Jump(l) => Some(l),
        InstrView::JumpIfZero(_, l) => Some(l),
        InstrView::JumpIfNotZero(_, l) => Some(l),
        _ => None,
    }
}

/// The labels that the instructions define.
pub open spec fn label_defs(s: Seq<InstrView>) -> Labels {
    Set::new(|l: Seq<char>| exists|i: int| 0 <= i < s.len() && defines(#[trigger] s[i]) == Some(l))
}

/// The labels that the jumps among the instructions go to.
pub open spec fn jump_targets(s: Seq<InstrView>) -> Labels {
    Set::new(|l: Seq<char>| exists|i: int| 0 <= i < s.len() && jumps_to(#[trigger] s[i]) == Some(l))
}

/// Every jump among the instructions goes to a label that the instructions
/// define.
pub open spec fn closed(s: Seq<InstrView>) -> bool {
    jump_targets(s).subset_of(label_defs(s))
}

/// The set of one optional label.
pub open spec fn optional(l: Option<Seq<char>>) -> Labels {
    match l {
        Some(l) => Set::empty().insert(l),
        None => Set::empty(),
    }
}

/// One more instruction adds the label it defines and the label it jumps to.
pub proof fn lemma_push_labels(s: Seq<InstrView>, x: InstrView)
    ensures
        label_defs(s.push(x)) == label_defs(s).union(optional(defines(x))),
        jump_targets(s.push(x)) == jump_targets(s).union(optional(jumps_to(x))),
{
    let t = s.push(x);
    assert forall|l: Seq<char>| label_defs(t).contains(l) <==> label_defs(s).union(
        optional(defines(x)),
    ).contains(l) by {
        if label_defs(t).contains(l) {
            let i = choose|i: int| 0 <= i < t.len() && defines(#[trigger] t[i]) == Some(l);
            if i < s.len() {
                assert(s[i] == t[i]);
            }
        }
        if label_defs(s).contains(l) {
            let i = choose|i: int| 0 <= i < s.len() && defines(#[trigger] s[i]) == Some(l);
            assert(t[i] == s[i]);
        }
        if optional(defines(x)).contains(l) {
            assert(t[s.len() as int] == x);
        }
    }
    assert forall|l: Seq<char>| jump_targets(t).contains(l) <==> jump_targets(s).union(
        optional(jumps_to(x)),
    ).contains(l) by {
        if jump_targets(t).contains(l) {
            let i = choose|i: int| 0 <= i < t.len() && jumps_to(#[trigger] t[i]) == Some(l);
            if i < s.len() {
                assert(s[i] == t[i]);
            }
        }
        if jump_targets(s).contains(l) {
            let i = choose|i: int| 0 <= i < s.len() && jumps_to(#[trigger] s[i]) == Some(l);
            assert(t[i] == s[i]);
        }
        if optional(jumps_to(x)).contains(l) {
            assert(t[s.len() as int] == x);
        }
    }
    assert(label_defs(t) =~= label_defs(s).union(optional(defines(x))));
    assert(jump_targets(t) =~= jump_targets(s).union(optional(jumps_to(x))));
}

/// The empty list defines no label and jumps nowhere.
pub proof fn lemma_empty_labels()
    ensures
        label_defs(Seq::empty()) == Labels::empty(),
        jump_targets(Seq::empty()) == Labels::empty(),
{
    assert(label_defs(Seq::empty()) =~= Labels::empty());
    assert(jump_targets(Seq::empty()) =~= Labels::empty());
}

/// What it means that `out` carries on from `acc`: it keeps the labels that
/// `acc` defines and the targets of the jumps of `acc`, and each of its
/// jumps is a jump of `acc`, or goes to a label that `out` defines, or to
/// one of `open`.
pub open spec fn carries_on(acc: Seq<InstrView>, out: Seq<InstrView>, open: Labels) -> bool {
    &&& label_defs(acc).subset_of(label_defs(out))
    &&& jump_targets(acc).subset_of(jump_targets(out))
    &&& jump_targets(out).subset_of(jump_targets(acc).union(label_defs(out)).union(open))
}

/// What it means that `out` uses what it adds to `acc`: each label that it
/// defines is a label of `acc` or the target of one of its jumps.
pub open spec fn uses_its_labels(acc: Seq<InstrView>, out: Seq<InstrView>) -> bool {
    label_defs(out).subset_of(label_defs(acc).union(jump_targets(out)))
}

/// The labels of a loop that a `break` and a `continue` in its body jump to.
pub open spec fn loop_labels(current: Option<Seq<char>>) -> Labels {
    match current {
        Some(l) => Set::empty().insert(break_label(l)).insert(continue_label(l)),
        None => Set::empty(),
    }
}

/// The tail of `&&` adds its two labels to the labels defined and to the
/// targets.
pub proof fn lemma_and_tail(
    acc: Seq<InstrView>,
    right: ValView,
    dst: ValView,
    false_label: Seq<char>,
    end_label: Seq<char>,
)
    ensures
        label_defs(and_tail(acc, right, dst, false_label, end_label)) == label_defs(acc).insert(
            false_label,
        ).insert(end_label),
        jump_targets(and_tail(acc, right, dst, false_label, end_label)) == jump_targets(
            acc,
        ).insert(false_label).insert(end_label),
{
    let a1 = acc.push(InstrView::JumpIfZero(right, false_label));
    let a2 = a1.push(InstrView::Copy(ValView::Integer(1), dst));
    let a3 = a2.push(InstrView::Jump(end_label));
    let a4 = a3.push(InstrView::Label(false_label));
    let a5 = a4.push(InstrView::Copy(ValView::Integer(0), dst));
    let a6 = a5.push(InstrView::Label(end_label));
    lemma_push_labels(acc, InstrView::JumpIfZero(right, false_label));
    lemma_push_labels(a1, InstrView::Copy(ValView::Integer(1), dst));
    lemma_push_labels(a2, InstrView::Jump(end_label));
    lemma_push_labels(a3, InstrView::Label(false_label));
    lemma_push_labels(a4, InstrView::Copy(ValView::Integer(0), dst));
    lemma_push_labels(a5, InstrView::Label(end_label));
    assert(label_defs(a6) =~= label_defs(acc).insert(false_label).insert(end_label));
    assert(jump_targets(a6) =~= jump_targets(acc).insert(false_label).insert(end_label));
}

/// The tail of `||` adds its two labels to the labels defined and to the
/// targets.
pub proof fn lemma_or_tail(
    acc: Seq<InstrView>,
    right: ValView,
    dst: ValView,
    true_label: Seq<char>,
    end_label: Seq<char>,
)
    ensures
        label_defs(or_tail(acc, right, dst, true_label, end_label)) == label_defs(acc).insert(
            true_label,
        ).insert(end_label),
        jump_targets(or_tail(acc, right, dst, true_label, end_label)) == jump_targets(acc).insert(
            true_label,
        ).insert(end_label),
{
    let a1 = acc.push(InstrView::JumpIfNotZero(right, true_label));
    let a2 = a1.push(InstrView::Copy(ValView::Integer(0), dst));
    let a3 = a2.push(InstrView::Jump(end_label));
    let a4 = a3.push(InstrView::Label(true_label));
    let a5 = a4.push(InstrView::Copy(ValView::Integer(1), dst));
    let a6 = a5.push(InstrView::Label(end_label));
    lemma_push_labels(acc, InstrView::JumpIfNotZero(right, true_label));
    lemma_push_labels(a1, InstrView::Copy(ValView::Integer(0), dst));
    lemma_push_labels(a2, InstrView::Jump(end_label));
    lemma_push_labels(a3, InstrView::Label(true_label));
    lemma_push_labels(a4, InstrView::Copy(ValView::Integer(1), dst));
    lemma_push_labels(a5, InstrView::Label(end_label));
    assert(label_defs(a6) =~= label_defs(acc).insert(true_label).insert(end_label));
    assert(jump_targets(a6) =~= jump_targets(acc).insert(true_label).insert(end_label));
}

/// The instructions of an expression jump only to labels that they define.
pub proof fn lemma_lower_expr_carries_on(e: ExprView, acc: Seq<InstrView>, c: usize)
    ensures
        carries_on(acc, lower_expr(e, acc, c).0, Set::empty()),
        uses_its_labels(acc, lower_expr(e, acc, c).0),
    decreases e,
{
    let out = lower_expr(e, acc, c).0;
    match e {
        ExprView::Integer(_) => {},
        ExprView::Var(_, _) => {},
        ExprView::UnaryOp(op, inner) => {
            lemma_lower_expr_carries_on(*inner, acc, c);
            let (a1, src, c1) = lower_expr(*inner, acc, c);
            lemma_push_labels(
                a1,
                InstrView::Unary(
                    crate::tacky::lowering::ir_unary_op(op),
                    src,
                    crate::tacky::lowering::tmp(c1),
                ),
            );
        },
        ExprView::BinaryOp(op, l, r) => {
            lemma_lower_expr_carries_on(*l, acc, c);
            let (a1, lv, c1) = lower_expr(*l, acc, c);
            if op == BinaryOp::LogicalAnd {
                let false_label = crate::name_generator::numbered("false"@, c1);
                let end_label = crate::name_generator::numbered(
                    "end"@,
                    crate::name_generator::next_counter(c1),
                );
                let jump = InstrView::JumpIfZero(lv, false_label);
                let c2 = crate::name_generator::next_counter(
                    crate::name_generator::next_counter(c1),
                );
                lemma_push_labels(a1, jump);
                lemma_lower_expr_carries_on(*r, a1.push(jump), c2);
                let (a2, rv, c3) = lower_expr(*r, a1.push(jump), c2);
                lemma_and_tail(a2, rv, crate::tacky::lowering::tmp(c3), false_label, end_label);
            } else if op == BinaryOp::LogicalOr {
                let true_label = crate::name_generator::numbered("true"@, c1);
                let end_label = crate::name_generator::numbered(
                    "end"@,
                    crate::name_generator::next_counter(c1),
                );
                let jump = InstrView::JumpIfNotZero(lv, true_label);
                let c2 = crate::name_generator::next_counter(
                    crate::name_generator::next_counter(c1),
                );
                lemma_push_labels(a1, jump);
                lemma_lower_expr_carries_on(*r, a1.push(jump), c2);
                let (a2, rv, c3) = lower_expr(*r, a1.push(jump), c2);
                lemma_or_tail(a2, rv, crate::tacky::lowering::tmp(c3), true_label, end_label);
            } else {
                lemma_lower_expr_carries_on(*r, a1, c1);
                let (a2, rv, c2) = lower_expr(*r, a1, c1);
                lemma_push_labels(
                    a2,
                    InstrView::Binary(
                        crate::tacky::lowering::ir_binary_op(op),
                        lv,
                        rv,
                        crate::tacky::lowering::tmp(c2),
                    ),
                );
            }
        },
        ExprView::Assignment(target, r, _) => {
            lemma_lower_expr_carries_on(*r, acc, c);
            let (a1, val, c1) = lower_expr(*r, acc, c);
            match *target {
                ExprView::Var(name, _) => {
                    lemma_push_labels(a1, InstrView::Copy(val, ValView::Var(name)));
                },
                _ => {},
            }
        },
        ExprView::Conditional(cond, t, f) => {
            let e2_label = crate::name_generator::numbered("e2"@, c);
            let end_label = crate::name_generator::numbered(
                "end"@,
                crate::name_generator::next_counter(c),
            );
            let c0 = crate::name_generator::next_counter(crate::name_generator::next_counter(c));
            let dst = crate::tacky::lowering::tmp(c0);
            lemma_lower_expr_carries_on(*cond, acc, crate::name_generator::next_counter(c0));
            let (a1, cv, c1) = lower_expr(*cond, acc, crate::name_generator::next_counter(c0));
            let b1 = a1.push(InstrView::JumpIfZero(cv, e2_label));
            lemma_push_labels(a1, InstrView::JumpIfZero(cv, e2_label));
            lemma_lower_expr_carries_on(*t, b1, c1);
            let (a2, tv, c2) = lower_expr(*t, b1, c1);
            let b2 = a2.push(InstrView::Copy(tv, dst));
            let b3 = b2.push(InstrView::Jump(end_label));
            let b4 = b3.push(InstrView::Label(e2_label));
            lemma_push_labels(a2, InstrView::Copy(tv, dst));
            lemma_push_labels(b2, InstrView::Jump(end_label));
            lemma_push_labels(b3, InstrView::Label(e2_label));
            lemma_lower_expr_carries_on(*f, b4, c2);
            let (a3, fv, c3) = lower_expr(*f, b4, c2);
            let b5 = a3.push(InstrView::Copy(fv, dst));
            lemma_push_labels(a3, InstrView::Copy(fv, dst));
            lemma_push_labels(b5, InstrView::Label(end_label));
        },
        ExprView::FunctionCall(name, args, _) => {
            lemma_lower_args_carry_on(args, acc, c);
            let (a1, vals, c1) = lower_args(args, acc, c);
            lemma_push_labels(a1, InstrView::FuncCall(name, vals, crate::tacky::lowering::tmp(c1)));
        },
    }
}

/// The instructions of the arguments of a call jump only to labels that they
/// define.
pub proof fn lemma_lower_args_carry_on(args: Seq<ExprView>, acc: Seq<InstrView>, c: usize)
    ensures
        carries_on(acc, lower_args(args, acc, c).0, Set::empty()),
        uses_its_labels(acc, lower_args(args, acc, c).0),
    decreases args,
{
    if args.len() > 0 {
        lemma_lower_args_carry_on(args.drop_last(), acc, c);
        let (a1, vals, c1) = lower_args(args.drop_last(), acc, c);
        lemma_lower_expr_carries_on(args.last(), a1, c1);
    }
}

/// The instructions of an expression whose value is not used jump only to
/// labels that they define.
pub proof fn lemma_lower_opt_expr_carries_on(e: Option<ExprView>, acc: Seq<InstrView>, c: usize)
    ensures
        carries_on(acc, lower_opt_expr(e, acc, c).0, Set::empty()),
        uses_its_labels(acc, lower_opt_expr(e, acc, c).0),
{
    match e {
        Some(e) => {
            lemma_lower_expr_carries_on(e, acc, c);
        },
        None => {},
    }
}

/// The instructions of a variable declaration jump only to labels that they
/// define.
pub proof fn lemma_lower_var_decl_carries_on(d: VarDeclView, acc: Seq<InstrView>, c: usize)
    ensures
        carries_on(acc, lower_var_decl(d, acc, c).0, Set::empty()),
        uses_its_labels(acc, lower_var_decl(d, acc, c).0),
{
    match d.init {
        Some(init) => {
            lemma_lower_expr_carries_on(init, acc, c);
            let (a1, val, c1) = lower_expr(init, acc, c);
            lemma_push_labels(a1, InstrView::Copy(val, ValView::Var(d.name)));
        },
        None => {},
    }
}

/// The instructions of the first clause of a `for` header jump only to
/// labels that they define.
pub proof fn lemma_lower_for_init_carries_on(
    init: Option<ForInitView>,
    acc: Seq<InstrView>,
    c: usize,
)
    ensures
        carries_on(acc, lower_for_init(init, acc, c).0, Set::empty()),
        uses_its_labels(acc, lower_for_init(init, acc, c).0),
{
    match init {
        Some(ForInitView::Decl(d)) => {
            lemma_lower_var_decl_carries_on(d, acc, c);
        },
        Some(ForInitView::Expr(e)) => {
            lemma_lower_expr_carries_on(e, acc, c);
        },
        None => {},
    }
}

/// The test of a `for` loop jumps only to labels that it defines, and to the
/// end of the loop.
pub proof fn lemma_lower_for_cond_carries_on(
    cond: Option<ExprView>,
    label: Seq<char>,
    acc: Seq<InstrView>,
    c: usize,
)
    ensures
        carries_on(acc, lower_for_cond(cond, label, acc, c).0, loop_labels(Some(label))),
        uses_its_labels(acc, lower_for_cond(cond, label, acc, c).0),
        cond is Some ==> jump_targets(lower_for_cond(cond, label, acc, c).0).contains(
            break_label(label),
        ),
{
    match cond {
        Some(e) => {
            lemma_lower_expr_carries_on(e, acc, c);
            let (a1, val, c1) = lower_expr(e, acc, c);
            lemma_push_labels(a1, InstrView::JumpIfZero(val, break_label(label)));
        },
        None => {},
    }
}

/// The statement holds a `break` or a `continue` whose jump goes to
/// `target`.
pub open spec fn stmt_jumps(s: StmtView, target: Seq<char>) -> bool
    decreases s,
{
    match s {
        StmtView::Break(l, _) => break_label(l) == target,
        StmtView::Continue(l, _) => continue_label(l) == target,
        StmtView::If(_, t, e) => stmt_jumps(*t, target) || match e {
            Some(e) => stmt_jumps(*e, target),
            None => false,
        },
        StmtView::Compound(b) => items_jump(b.items, target),
        StmtView::While(_, body, _) => stmt_jumps(*body, target),
        StmtView::DoWhile(body, _, _) => stmt_jumps(*body, target),
        StmtView::For(_, _, _, body, _) => stmt_jumps(*body, target),
        _ => false,
    }
}

/// The block item holds a `break` or a `continue` whose jump goes to
/// `target`.
pub open spec fn item_jumps(item: BlockItemView, target: Seq<char>) -> bool
    decreases item,
{
    match item {
        BlockItemView::Stmt(s) => stmt_jumps(s, target),
        BlockItemView::Decl(_) => false,
    }
}

/// One of the items holds a `break` or a `continue` whose jump goes to
/// `target`.
pub open spec fn items_jump(items: Seq<BlockItemView>, target: Seq<char>) -> bool
    decreases items,
{
    exists|i: int| 0 <= i < items.len() && item_jumps(#[trigger] items[i], target)
}

/// Every loop of the statement is left by a jump to its end and repeated by
/// a jump to its next round. A `while` loop always is: it jumps to both by
/// itself. A `do` loop needs a `break` and a `continue` in its body; a `for`
/// loop needs a `continue`, and a condition or a `break`.
pub open spec fn stmt_uses_labels(s: StmtView) -> bool
    decreases s,
{
    match s {
        StmtView::DoWhile(body, _, l) => stmt_jumps(*body, continue_label(l)) && stmt_jumps(
            *body,
            break_label(l),
        ) && stmt_uses_labels(*body),
        StmtView::For(_, cond, _, body, l) => stmt_jumps(*body, continue_label(l)) && (cond
            is Some || stmt_jumps(*body, break_label(l))) && stmt_uses_labels(*body),
        StmtView::While(_, body, _) => stmt_uses_labels(*body),
        StmtView::If(_, t, e) => stmt_uses_labels(*t) && match e {
            Some(e) => stmt_uses_labels(*e),
            None => true,
        },
        StmtView::Compound(b) => items_use_labels(b.items),
        _ => true,
    }
}

/// Every loop of the block item is left and repeated by jumps.
pub open spec fn item_uses_labels(item: BlockItemView) -> bool
    decreases item,
{
    match item {
        BlockItemView::Stmt(s) => stmt_uses_labels(s),
        BlockItemView::Decl(_) => true,
    }
}

/// Every loop of the items is left and repeated by jumps.
pub open spec fn items_use_labels(items: Seq<BlockItemView>) -> bool
    decreases items,
{
    forall|i: int| 0 <= i < items.len() ==> item_uses_labels(#[trigger] items[i])
}

/// Every loop of the function is left and repeated by jumps.
pub open spec fn func_uses_labels(f: FuncDeclView) -> bool {
    match f.body {
        Some(b) => items_use_labels(b.items),
        None => true,
    }
}

/// Every loop of the translation unit is left and repeated by jumps.
pub open spec fn program_uses_labels(p: ProgramView) -> bool {
    forall|i: int| 0 <= i < p.func_decls.len() ==> func_uses_labels(#[trigger] p.func_decls[i])
}

/// The jumps of a lowered function go to the labels that it defines, and to
/// all of them.
pub open spec fn balanced(s: Seq<InstrView>) -> bool {
    jump_targets(s) == label_defs(s)
}

/// A `break` or a `continue` of a statement is a jump of its instructions.
pub proof fn lemma_lower_stmt_jumps(
    s: StmtView,
    acc: Seq<InstrView>,
    c: usize,
    current: Option<Seq<char>>,
    target: Seq<char>,
)
    requires
        stmt_labelled(s, current),
        stmt_jumps(s, target),
    ensures
        jump_targets(lower_stmt(s, acc, c).0).contains(target),
    decreases s, 2nat,
{
    lemma_lower_stmt_carries_on(s, acc, c, current);
    match s {
        StmtView::Break(label, _) => {
            lemma_push_labels(acc, InstrView::Jump(break_label(label)));
        },
        StmtView::Continue(label, _) => {
            lemma_push_labels(acc, InstrView::Jump(continue_label(label)));
        },
        StmtView::If(cond, t, e) => {
            let end_label = numbered("end"@, c);
            let else_label = numbered("else"@, next_counter(c));
            let (a1, cv, c1) = lower_expr(cond, acc, next_counter(next_counter(c)));
            let b1 = a1.push(InstrView::JumpIfZero(cv, else_label));
            let (a2, c2) = lower_stmt(*t, b1, c1);
            let b2 = a2.push(InstrView::Jump(end_label));
            let a3 = b2.push(InstrView::Label(else_label));
            lemma_push_labels(a2, InstrView::Jump(end_label));
            lemma_push_labels(b2, InstrView::Label(else_label));
            let (a4, c3) = match e {
                Some(e) => lower_stmt(*e, a3, c2),
                None => (a3, c2),
            };
            lemma_push_labels(a4, InstrView::Label(end_label));
            if stmt_jumps(*t, target) {
                lemma_lower_stmt_jumps(*t, b1, c1, current, target);
            }
            match e {
                Some(e) => {
                    lemma_lower_stmt_carries_on(*e, a3, c2, current);
                    if stmt_jumps(*e, target) {
                        lemma_lower_stmt_jumps(*e, a3, c2, current, target);
                    }
                },
                None => {},
            }
        },
        StmtView::Compound(b) => {
            lemma_lower_items_jump(b.items, acc, c, current, target);
        },
        StmtView::DoWhile(body, cond, label) => {
            let start_label = numbered("start"@, c);
            let b0 = acc.push(InstrView::Label(start_label));
            lemma_lower_stmt_jumps(*body, b0, next_counter(c), Some(label), target);
            let (a1, c1) = lower_stmt(*body, b0, next_counter(c));
            let b1 = a1.push(InstrView::Label(continue_label(label)));
            lemma_push_labels(a1, InstrView::Label(continue_label(label)));
            lemma_lower_expr_carries_on(cond, b1, c1);
            let (a2, cv, c2) = lower_expr(cond, b1, c1);
            let b2 = a2.push(InstrView::JumpIfNotZero(cv, start_label));
            lemma_push_labels(a2, InstrView::JumpIfNotZero(cv, start_label));
            lemma_push_labels(b2, InstrView::Label(break_label(label)));
        },
        StmtView::While(cond, body, label) => {
            let b0 = acc.push(InstrView::Label(continue_label(label)));
            let (a1, cv, c1) = lower_expr(cond, b0, c);
            let b1 = a1.push(InstrView::JumpIfZero(cv, break_label(label)));
            lemma_lower_stmt_jumps(*body, b1, c1, Some(label), target);
            let (a2, c2) = lower_stmt(*body, b1, c1);
            let b2 = a2.push(InstrView::Jump(continue_label(label)));
            lemma_push_labels(a2, InstrView::Jump(continue_label(label)));
            lemma_push_labels(b2, InstrView::Label(break_label(label)));
        },
        StmtView::For(init, cond, post, body, label) => {
            let start_label = numbered("start"@, c);
            let (a1, c1) = lower_for_init(init, acc, next_counter(c));
            let b1 = a1.push(InstrView::Label(start_label));
            let (a2, c2) = lower_for_cond(cond, label, b1, c1);
            lemma_lower_stmt_jumps(*body, a2, c2, Some(label), target);
            let (a3, c3) = lower_stmt(*body, a2, c2);
            let b3 = a3.push(InstrView::Label(continue_label(label)));
            lemma_push_labels(a3, InstrView::Label(continue_label(label)));
            lemma_lower_opt_expr_carries_on(post, b3, c3);
            let (a4, c4) = lower_opt_expr(post, b3, c3);
            let b4 = a4.push(InstrView::Jump(start_label));
            lemma_push_labels(a4, InstrView::Jump(start_label));
            lemma_push_labels(b4, InstrView::Label(break_label(label)));
        },
        _ => {},
    }
}

/// A `break` or a `continue` of an item of a block is a jump of the
/// instructions of the block.
pub proof fn lemma_lower_items_jump(
    items: Seq<BlockItemView>,
    acc: Seq<InstrView>,
    c: usize,
    current: Option<Seq<char>>,
    target: Seq<char>,
)
    requires
        items_labelled(items, current),
        items_jump(items, target),
    ensures
        jump_targets(lower_items(items, acc, c).0).contains(target),
    decreases items, 2nat,
{
    let i = choose|i: int| 0 <= i < items.len() && item_jumps(#[trigger] items[i], target);
    assert forall|k: int| 0 <= k < items.drop_last().len() implies item_labelled(
        #[trigger] items.drop_last()[k],
        current,
    ) by {
        assert(items.drop_last()[k] == items[k]);
    }
    let (a1, c1) = lower_items(items.drop_last(), acc, c);
    assert(item_labelled(items.last(), current));
    lemma_lower_item_carries_on(items.last(), a1, c1, current);
    if i < items.len() - 1 {
        assert(items.drop_last()[i] == items[i]);
        lemma_lower_items_jump(items.drop_last(), acc, c, current, target);
    } else {
        match items.last() {
            BlockItemView::Stmt(s) => {
                lemma_lower_stmt_jumps(s, a1, c1, current, target);
            },
            BlockItemView::Decl(_) => {},
        }
    }
}

/// The instructions of a statement jump only to labels that they define, and
/// to the labels of the loop around the statement.
pub proof fn lemma_lower_stmt_carries_on(
    s: StmtView,
    acc: Seq<InstrView>,
    c: usize,
    current: Option<Seq<char>>,
)
    requires
        stmt_labelled(s, current),
    ensures
        carries_on(acc, lower_stmt(s, acc, c).0, loop_labels(current)),
        stmt_uses_labels(s) ==> uses_its_labels(acc, lower_stmt(s, acc, c).0),
    decreases s, 1nat,
{
    match s {
        StmtView::Return(e) => {
            lemma_lower_expr_carries_on(e, acc, c);
            let (a1, val, c1) = lower_expr(e, acc, c);
            lemma_push_labels(a1, InstrView::Return(val));
        },
        StmtView::Expression(e) => {
            lemma_lower_expr_carries_on(e, acc, c);
        },
        StmtView::Null => {},
        StmtView::If(cond, t, e) => {
            let end_label = numbered("end"@, c);
            let else_label = numbered("else"@, next_counter(c));
            lemma_lower_expr_carries_on(cond, acc, next_counter(next_counter(c)));
            let (a1, cv, c1) = lower_expr(cond, acc, next_counter(next_counter(c)));
            let b1 = a1.push(InstrView::JumpIfZero(cv, else_label));
            lemma_push_labels(a1, InstrView::JumpIfZero(cv, else_label));
            lemma_lower_stmt_carries_on(*t, b1, c1, current);
            let (a2, c2) = lower_stmt(*t, b1, c1);
            let b2 = a2.push(InstrView::Jump(end_label));
            let a3 = b2.push(InstrView::Label(else_label));
            lemma_push_labels(a2, InstrView::Jump(end_label));
            lemma_push_labels(b2, InstrView::Label(else_label));
            let (a4, c3) = match e {
                Some(e) => lower_stmt(*e, a3, c2),
                None => (a3, c2),
            };
            match e {
                Some(e) => {
                    lemma_lower_stmt_carries_on(*e, a3, c2, current);
                },
                None => {},
            }
            lemma_push_labels(a4, InstrView::Label(end_label));
        },
        StmtView::Compound(b) => {
            lemma_lower_items_carry_on(b.items, acc, c, current);
        },
        StmtView::Break(label, _) => {
            lemma_push_labels(acc, InstrView::Jump(break_label(label)));
        },
        StmtView::Continue(label, _) => {
            lemma_push_labels(acc, InstrView::Jump(continue_label(label)));
        },
        StmtView::DoWhile(body, cond, label) => {
            let start_label = numbered("start"@, c);
            let b0 = acc.push(InstrView::Label(start_label));
            lemma_push_labels(acc, InstrView::Label(start_label));
            lemma_lower_stmt_carries_on(*body, b0, next_counter(c), Some(label));
            if stmt_uses_labels(s) {
                lemma_lower_stmt_jumps(
                    *body,
                    b0,
                    next_counter(c),
                    Some(label),
                    continue_label(label),
                );
                lemma_lower_stmt_jumps(*body, b0, next_counter(c), Some(label), break_label(label));
            }
            let (a1, c1) = lower_stmt(*body, b0, next_counter(c));
            let b1 = a1.push(InstrView::Label(continue_label(label)));
            lemma_push_labels(a1, InstrView::Label(continue_label(label)));
            lemma_lower_expr_carries_on(cond, b1, c1);
            let (a2, cv, c2) = lower_expr(cond, b1, c1);
            let b2 = a2.push(InstrView::JumpIfNotZero(cv, start_label));
            lemma_push_labels(a2, InstrView::JumpIfNotZero(cv, start_label));
            lemma_push_labels(b2, InstrView::Label(break_label(label)));
        },
        StmtView::While(cond, body, label) => {
            let b0 = acc.push(InstrView::Label(continue_label(label)));
            lemma_push_labels(acc, InstrView::Label(continue_label(label)));
            lemma_lower_expr_carries_on(cond, b0, c);
            let (a1, cv, c1) = lower_expr(cond, b0, c);
            let b1 = a1.push(InstrView::JumpIfZero(cv, break_label(label)));
            lemma_push_labels(a1, InstrView::JumpIfZero(cv, break_label(label)));
            lemma_lower_stmt_carries_on(*body, b1, c1, Some(label));
            let (a2, c2) = lower_stmt(*body, b1, c1);
            let b2 = a2.push(InstrView::Jump(continue_label(label)));
            lemma_push_labels(a2, InstrView::Jump(continue_label(label)));
            lemma_push_labels(b2, InstrView::Label(break_label(label)));
        },
        StmtView::For(init, cond, post, body, label) => {
            let start_label = numbered("start"@, c);
            lemma_lower_for_init_carries_on(init, acc, next_counter(c));
            let (a1, c1) = lower_for_init(init, acc, next_counter(c));
            let b1 = a1.push(InstrView::Label(start_label));
            lemma_push_labels(a1, InstrView::Label(start_label));
            lemma_lower_for_cond_carries_on(cond, label, b1, c1);
            let (a2, c2) = lower_for_cond(cond, label, b1, c1);
            lemma_lower_stmt_carries_on(*body, a2, c2, Some(label));
            if stmt_uses_labels(s) {
                lemma_lower_stmt_jumps(*body, a2, c2, Some(label), continue_label(label));
                if cond is None {
                    lemma_lower_stmt_jumps(*body, a2, c2, Some(label), break_label(label));
                }
            }
            let (a3, c3) = lower_stmt(*body, a2, c2);
            let b3 = a3.push(InstrView::Label(continue_label(label)));
            lemma_push_labels(a3, InstrView::Label(continue_label(label)));
            lemma_lower_opt_expr_carries_on(post, b3, c3);
            let (a4, c4) = lower_opt_expr(post, b3, c3);
            let b4 = a4.push(InstrView::Jump(start_label));
            lemma_push_labels(a4, InstrView::Jump(start_label));
            lemma_push_labels(b4, InstrView::Label(break_label(label)));
        },
    }
}

/// The instructions of a block item jump only to labels that they define,
/// and to the labels of the loop around the item.
pub proof fn lemma_lower_item_carries_on(
    item: BlockItemView,
    acc: Seq<InstrView>,
    c: usize,
    current: Option<Seq<char>>,
)
    requires
        item_labelled(item, current),
    ensures
        carries_on(acc, lower_item(item, acc, c).0, loop_labels(current)),
        item_uses_labels(item) ==> uses_its_labels(acc, lower_item(item, acc, c).0),
    decreases item, 1nat,
{
    match item {
        BlockItemView::Stmt(s) => {
            lemma_lower_stmt_carries_on(s, acc, c, current);
        },
        BlockItemView::Decl(DeclView::VarDecl(d)) => {
            lemma_lower_var_decl_carries_on(d, acc, c);
        },
        BlockItemView::Decl(DeclView::FuncDecl(_)) => {},
    }
}

/// The instructions of the items of a block jump only to labels that they
/// define, and to the labels of the loop around the block.
pub proof fn lemma_lower_items_carry_on(
    items: Seq<BlockItemView>,
    acc: Seq<InstrView>,
    c: usize,
    current: Option<Seq<char>>,
)
    requires
        items_labelled(items, current),
    ensures
        carries_on(acc, lower_items(items, acc, c).0, loop_labels(current)),
        items_use_labels(items) ==> uses_its_labels(acc, lower_items(items, acc, c).0),
    decreases items, 1nat,
{
    if items.len() > 0 {
        if items_use_labels(items) {
            assert forall|i: int| 0 <= i < items.drop_last().len() implies item_uses_labels(
                #[trigger] items.drop_last()[i],
            ) by {
                assert(items.drop_last()[i] == items[i]);
            }
            assert(item_uses_labels(items.last()));
        }
        assert forall|i: int| 0 <= i < items.drop_last().len() implies item_labelled(
            #[trigger] items.drop_last()[i],
            current,
        ) by {
            assert(items.drop_last()[i] == items[i]);
        }
        lemma_lower_items_carry_on(items.drop_last(), acc, c, current);
        let (a1, c1) = lower_items(items.drop_last(), acc, c);
        assert(item_labelled(items.last(), current));
        lemma_lower_item_carries_on(items.last(), a1, c1, current);
    }
}

/// Every jump of a lowered function goes to a label that the function
/// defines, where every `break` and `continue` of its body carries the label
/// of the loop around it.
pub proof fn lemma_lower_function_closed(
    name: Seq<char>,
    params: Seq<Seq<char>>,
    items: Seq<BlockItemView>,
    c: usize,
)
    requires
        items_labelled(items, None),
    ensures
        closed(lower_function(name, params, items, c).0.instrs),
        items_use_labels(items) ==> balanced(lower_function(name, params, items, c).0.instrs),
{
    lemma_empty_labels();
    lemma_lower_items_carry_on(items, Seq::empty(), c, None);
    let (instrs, c1) = lower_items(items, Seq::empty(), c);
    lemma_push_labels(instrs, InstrView::Return(ValView::Integer(0)));
    if items_use_labels(items) {
        let out = lower_function(name, params, items, c).0.instrs;
        assert(jump_targets(out) =~= label_defs(out));
    }
}

/// Every jump of a function of a lowered translation unit goes to a label
/// that the function defines, where every `break` and `continue` of the unit
/// carries the label of the loop around it.
pub proof fn lemma_lower_funcs_closed(decls: Seq<FuncDeclView>, c: usize)
    requires
        forall|i: int| 0 <= i < decls.len() ==> func_labelled(#[trigger] decls[i]),
    ensures
        forall|k: int|
            0 <= k < lower_funcs(decls, c).0.len() ==> closed(
                (#[trigger] lower_funcs(decls, c).0[k]).instrs,
            ),
        (forall|i: int| 0 <= i < decls.len() ==> func_uses_labels(#[trigger] decls[i]))
            ==> forall|k: int|
            0 <= k < lower_funcs(decls, c).0.len() ==> balanced(
                (#[trigger] lower_funcs(decls, c).0[k]).instrs,
            ),
    decreases decls.len(),
{
    if decls.len() > 0 {
        if forall|i: int| 0 <= i < decls.len() ==> func_uses_labels(#[trigger] decls[i]) {
            assert forall|i: int| 0 <= i < decls.drop_last().len() implies func_uses_labels(
                #[trigger] decls.drop_last()[i],
            ) by {
                assert(decls.drop_last()[i] == decls[i]);
            }
            assert(func_uses_labels(decls.last()));
        }
        assert forall|i: int| 0 <= i < decls.drop_last().len() implies func_labelled(
            #[trigger] decls.drop_last()[i],
        ) by {
            assert(decls.drop_last()[i] == decls[i]);
        }
        lemma_lower_funcs_closed(decls.drop_last(), c);
        let (funcs, c1) = lower_funcs(decls.drop_last(), c);
        let d = decls.last();
        assert(func_labelled(d));
        match d.body {
            Some(b) => {
                lemma_lower_function_closed(d.name, d.params, b.items, c1);
            },
            None => {},
        }
    }
}

/// Every jump of a function of the lowered translation unit goes to a label
/// that the function defines.
pub proof fn lemma_lower_program_closed(p: ProgramView, c: usize)
    requires
        program_labelled(p),
    ensures
        forall|k: int|
            0 <= k < lower_program(p, c).0.funcs.len() ==> closed(
                (#[trigger] lower_program(p, c).0.funcs[k]).instrs,
            ),
        program_uses_labels(p) ==> forall|k: int|
            0 <= k < lower_program(p, c).0.funcs.len() ==> balanced(
                (#[trigger] lower_program(p, c).0.funcs[k]).instrs,
            ),
{
    lemma_lower_funcs_closed(p.func_decls, c);
}

} // verus!
