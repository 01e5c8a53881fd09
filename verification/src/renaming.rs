//! What it means that two results of the compiler differ only by the value
//! that the name counter started from: they have the same shape, and where
//! one holds the name `prefix.N` the other holds `prefix.M`, with `M` as far
//! behind `N` as the one start is behind the other.

use vstd::prelude::*;
use crate::name_generator::{next_counter, numbered};
use crate::parser::ast::{
    ExprView, StmtView, BlockItemView, DeclView, VarDeclView, ForInitView, FuncDeclView,
    ProgramView,
};
use crate::tacky::tacky::{InstrView, ValView, FunctionView, TackyProgramView};

verus! {

/// The counter `c` after `k` more names were minted.
pub open spec fn advance(c: usize, k: nat) -> usize
    decreases k,
{
    if k == 0 {
        c
    } else {
        next_counter(advance(c, (k - 1) as nat))
    }
}

/// Minting one name first or last comes to the same counter.
pub proof fn lemma_advance_next(c: usize, k: nat)
    ensures
        advance(next_counter(c), k) == next_counter(advance(c, k)),
    decreases k,
{
    if k > 0 {
        lemma_advance_next(c, (k - 1) as nat);
    }
}

/// The second name is the first one, or the first one with its number
/// advanced by `k`.
pub open spec fn shifted(a: Seq<char>, b: Seq<char>, k: nat) -> bool {
    a == b || exists|prefix: Seq<char>, n: usize|
        a == #[trigger] numbered(prefix, n) && b == numbered(prefix, advance(n, k))
}

/// A text in front of two shifted names leaves them shifted.
pub proof fn lemma_shifted_prefixed(text: Seq<char>, a: Seq<char>, b: Seq<char>, k: nat)
    requires
        shifted(a, b, k),
    ensures
        shifted(text + a, text + b, k),
{
    if a != b {
        let (prefix, n) = choose|prefix: Seq<char>, n: usize|
            a == #[trigger] numbered(prefix, n) && b == numbered(prefix, advance(n, k));
        assert(text + a =~= numbered(text + prefix, n));
        assert(text + b =~= numbered(text + prefix, advance(n, k)));
    }
}

/// Two optional names are both missing, or shifted.
pub open spec fn opt_shifted(a: Option<Seq<char>>, b: Option<Seq<char>>, k: nat) -> bool {
    match (a, b) {
        (Some(a), Some(b)) => shifted(a, b, k),
        (None, None) => true,
        _ => false,
    }
}

/// Two lists of names are shifted name by name.
pub open spec fn names_shifted(a: Seq<Seq<char>>, b: Seq<Seq<char>>, k: nat) -> bool {
    a.len() == b.len() && forall|i: int| 0 <= i < a.len() ==> shifted(#[trigger] a[i], b[i], k)
}

/// Two expressions have the same shape, with shifted names.
pub open spec fn expr_shifted(a: ExprView, b: ExprView, k: nat) -> bool
    decreases a,
{
    match (a, b) {
        (ExprView::Integer(x), ExprView::Integer(y)) => x == y,
        (ExprView::Var(n1, l1), ExprView::Var(n2, l2)) => shifted(n1, n2, k) && l1 == l2,
        (ExprView::UnaryOp(o1, x1), ExprView::UnaryOp(o2, x2)) => o1 == o2 && expr_shifted(
            *x1,
            *x2,
            k,
        ),
        (ExprView::BinaryOp(o1, l1, r1), ExprView::BinaryOp(o2, l2, r2)) => o1 == o2
            && expr_shifted(*l1, *l2, k) && expr_shifted(*r1, *r2, k),
        (ExprView::Assignment(l1, r1, n1), ExprView::Assignment(l2, r2, n2)) => expr_shifted(
            *l1,
            *l2,
            k,
        ) && expr_shifted(*r1, *r2, k) && n1 == n2,
        (ExprView::Conditional(c1, t1, f1), ExprView::Conditional(c2, t2, f2)) => expr_shifted(
            *c1,
            *c2,
            k,
        ) && expr_shifted(*t1, *t2, k) && expr_shifted(*f1, *f2, k),
        (ExprView::FunctionCall(n1, a1, l1), ExprView::FunctionCall(n2, a2, l2)) => shifted(
            n1,
            n2,
            k,
        ) && l1 == l2 && a1.len() == a2.len() && forall|i: int|
            0 <= i < a1.len() ==> expr_shifted(#[trigger] a1[i], a2[i], k),
        _ => false,
    }
}

/// Two lists of expressions are shifted one by one.
pub open spec fn exprs_shifted(a: Seq<ExprView>, b: Seq<ExprView>, k: nat) -> bool {
    a.len() == b.len() && forall|i: int|
        0 <= i < a.len() ==> expr_shifted(#[trigger] a[i], b[i], k)
}

/// Two optional expressions are both missing, or shifted.
pub open spec fn opt_expr_shifted(a: Option<ExprView>, b: Option<ExprView>, k: nat) -> bool {
    match (a, b) {
        (Some(a), Some(b)) => expr_shifted(a, b, k),
        (None, None) => true,
        _ => false,
    }
}

/// Two variable declarations are shifted.
pub open spec fn var_decl_shifted(a: VarDeclView, b: VarDeclView, k: nat) -> bool {
    shifted(a.name, b.name, k) && opt_expr_shifted(a.init, b.init, k) && a.line == b.line
}

/// Two first clauses of `for` headers are shifted.
pub open spec fn for_init_shifted(a: Option<ForInitView>, b: Option<ForInitView>, k: nat) -> bool {
    match (a, b) {
        (Some(ForInitView::Decl(x)), Some(ForInitView::Decl(y))) => var_decl_shifted(x, y, k),
        (Some(ForInitView::Expr(x)), Some(ForInitView::Expr(y))) => expr_shifted(x, y, k),
        (None, None) => true,
        _ => false,
    }
}

/// Two statements have the same shape, with shifted names and labels.
pub open spec fn stmt_shifted(a: StmtView, b: StmtView, k: nat) -> bool
    decreases a,
{
    match (a, b) {
        (StmtView::Return(x), StmtView::Return(y)) => expr_shifted(x, y, k),
        (StmtView::Expression(x), StmtView::Expression(y)) => expr_shifted(x, y, k),
        (StmtView::If(c1, t1, e1), StmtView::If(c2, t2, e2)) => expr_shifted(c1, c2, k)
            && stmt_shifted(*t1, *t2, k) && match (e1, e2) {
            (Some(x), Some(y)) => stmt_shifted(*x, *y, k),
            (None, None) => true,
            _ => false,
        },
        (StmtView::Compound(x), StmtView::Compound(y)) => items_shifted(x.items, y.items, k),
        (StmtView::Break(l1, n1), StmtView::Break(l2, n2)) => shifted(l1, l2, k) && n1 == n2,
        (StmtView::Continue(l1, n1), StmtView::Continue(l2, n2)) => shifted(l1, l2, k) && n1
            == n2,
        (StmtView::While(c1, b1, l1), StmtView::While(c2, b2, l2)) => expr_shifted(c1, c2, k)
            && stmt_shifted(*b1, *b2, k) && shifted(l1, l2, k),
        (StmtView::DoWhile(b1, c1, l1), StmtView::DoWhile(b2, c2, l2)) => stmt_shifted(
            *b1,
            *b2,
            k,
        ) && expr_shifted(c1, c2, k) && shifted(l1, l2, k),
        (StmtView::For(i1, c1, w1, b1, l1), StmtView::For(i2, c2, w2, b2, l2)) => for_init_shifted(
            i1,
            i2,
            k,
        ) && opt_expr_shifted(c1, c2, k) && opt_expr_shifted(w1, w2, k) && stmt_shifted(
            *b1,
            *b2,
            k,
        ) && shifted(l1, l2, k),
        (StmtView::Null, StmtView::Null) => true,
        _ => false,
    }
}

/// Two block items have the same shape, with shifted names and labels.
pub open spec fn item_shifted(a: BlockItemView, b: BlockItemView, k: nat) -> bool
    decreases a,
{
    match (a, b) {
        (BlockItemView::Stmt(x), BlockItemView::Stmt(y)) => stmt_shifted(x, y, k),
        (
            BlockItemView::Decl(DeclView::VarDecl(x)),
            BlockItemView::Decl(DeclView::VarDecl(y)),
        ) => var_decl_shifted(x, y, k),
        (
            BlockItemView::Decl(DeclView::FuncDecl(x)),
            BlockItemView::Decl(DeclView::FuncDecl(y)),
        ) => func_shifted(x, y, k),
        _ => false,
    }
}

/// Two lists of block items are shifted one by one.
pub open spec fn items_shifted(a: Seq<BlockItemView>, b: Seq<BlockItemView>, k: nat) -> bool
    decreases a,
{
    a.len() == b.len() && forall|i: int|
        0 <= i < a.len() ==> item_shifted(#[trigger] a[i], b[i], k)
}

/// Two function declarations have the same shape, with shifted names and
/// labels.
pub open spec fn func_shifted(a: FuncDeclView, b: FuncDeclView, k: nat) -> bool
    decreases a,
{
    shifted(a.name, b.name, k) && names_shifted(a.params, b.params, k) && a.line_number
        == b.line_number && match (a.body, b.body) {
        (Some(x), Some(y)) => items_shifted(x.items, y.items, k),
        (None, None) => true,
        _ => false,
    }
}

/// Two lists of function declarations are shifted one by one.
pub open spec fn funcs_shifted(a: Seq<FuncDeclView>, b: Seq<FuncDeclView>, k: nat) -> bool {
    a.len() == b.len() && forall|i: int|
        0 <= i < a.len() ==> func_shifted(#[trigger] a[i], b[i], k)
}

/// Two translation units have the same shape, with shifted names and labels.
pub open spec fn program_shifted(a: ProgramView, b: ProgramView, k: nat) -> bool {
    funcs_shifted(a.func_decls, b.func_decls, k)
}

/// Two values are the same constant, or shifted names.
pub open spec fn val_shifted(a: ValView, b: ValView, k: nat) -> bool {
    match (a, b) {
        (ValView::Integer(x), ValView::Integer(y)) => x == y,
        (ValView::Var(x), ValView::Var(y)) => shifted(x, y, k),
        _ => false,
    }
}

/// Two lists of values are shifted one by one.
pub open spec fn vals_shifted(a: Seq<ValView>, b: Seq<ValView>, k: nat) -> bool {
    a.len() == b.len() && forall|i: int| 0 <= i < a.len() ==> val_shifted(#[trigger] a[i], b[i], k)
}

/// Two instructions are the same operation on shifted names and labels.
pub open spec fn instr_shifted(a: InstrView, b: InstrView, k: nat) -> bool {
    match (a, b) {
        (InstrView::Return(x), InstrView::Return(y)) => val_shifted(x, y, k),
        (InstrView::Unary(o1, s1, d1), InstrView::Unary(o2, s2, d2)) => o1 == o2 && val_shifted(
            s1,
            s2,
            k,
        ) && val_shifted(d1, d2, k),
        (InstrView::Binary(o1, l1, r1, d1), InstrView::Binary(o2, l2, r2, d2)) => o1 == o2
            && val_shifted(l1, l2, k) && val_shifted(r1, r2, k) && val_shifted(d1, d2, k),
        (InstrView::Copy(s1, d1), InstrView::Copy(s2, d2)) => val_shifted(s1, s2, k)
            && val_shifted(d1, d2, k),
        (InstrView::Jump(x), InstrView::Jump(y)) => shifted(x, y, k),
        (InstrView::JumpIfZero(v1, l1), InstrView::JumpIfZero(v2, l2)) => val_shifted(v1, v2, k)
            && shifted(l1, l2, k),
        (InstrView::JumpIfNotZero(v1, l1), InstrView::JumpIfNotZero(v2, l2)) => val_shifted(
            v1,
            v2,
            k,
        ) && shifted(l1, l2, k),
        (InstrView::Label(x), InstrView::Label(y)) => shifted(x, y, k),
        (InstrView::FuncCall(n1, a1, d1), InstrView::FuncCall(n2, a2, d2)) => shifted(n1, n2, k)
            && vals_shifted(a1, a2, k) && val_shifted(d1, d2, k),
        _ => false,
    }
}

/// Two lists of instructions are shifted one by one.
pub open spec fn instrs_shifted(a: Seq<InstrView>, b: Seq<InstrView>, k: nat) -> bool {
    a.len() == b.len() && forall|i: int|
        0 <= i < a.len() ==> instr_shifted(#[trigger] a[i], b[i], k)
}

/// Two functions of the intermediate representation are shifted.
pub open spec fn function_shifted(a: FunctionView, b: FunctionView, k: nat) -> bool {
    shifted(a.name, b.name, k) && names_shifted(a.params, b.params, k) && instrs_shifted(
        a.instrs,
        b.instrs,
        k,
    )
}

/// Two programs of the intermediate representation are shifted function by
/// function.
pub open spec fn tacky_shifted(a: TackyProgramView, b: TackyProgramView, k: nat) -> bool {
    a.funcs.len() == b.funcs.len() && forall|i: int|
        0 <= i < a.funcs.len() ==> function_shifted(#[trigger] a.funcs[i], b.funcs[i], k)
}

/// One more pair of shifted instructions keeps two lists shifted.
pub proof fn lemma_push_shifted(
    a: Seq<InstrView>,
    b: Seq<InstrView>,
    x: InstrView,
    y: InstrView,
    k: nat,
)
    requires
        instrs_shifted(a, b, k),
        instr_shifted(x, y, k),
    ensures
        instrs_shifted(a.push(x), b.push(y), k),
{
    assert forall|i: int| 0 <= i < a.push(x).len() implies instr_shifted(
        #[trigger] a.push(x)[i],
        b.push(y)[i],
        k,
    ) by {
        if i < a.len() {
            assert(a.push(x)[i] == a[i]);
            assert(b.push(y)[i] == b[i]);
        }
    }
}

} // verus!
