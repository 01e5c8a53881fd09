//! The abstract syntax tree, and its model.

use vstd::prelude::*;
use crate::views::{
    seq_view, clone_string, clone_strings, push_view, lemma_take_step, lemma_seq_view_take,
};

verus! {

/// A parsed translation unit.
#[derive(Debug)]
pub struct AST {
    pub program: Program,
}

/// The function declarations of a translation unit, in source order.
#[derive(Debug)]
pub struct Program {
    pub func_decls: Vec<FuncDecl>,
}

/// A function declaration. It is a definition when it has a body.
#[derive(Debug)]
pub struct FuncDecl {
    pub name: String,
    pub params: Vec<String>,
    pub body: Option<Block>,
    pub line_number: usize,
}

/// A declaration of a variable, with or without an initializer.
#[derive(Debug)]
pub struct VarDecl {
    pub name: String,
    pub init: Option<Expr>,
    pub line: usize,
}

/// A block: statements and declarations in source order.
#[derive(Debug)]
pub struct Block {
    pub items: Vec<BlockItem>,
}

#[derive(Debug)]
pub enum BlockItem {
    Stmt(Stmt),
    Decl(Decl),
}

#[derive(Debug)]
pub enum Decl {
    VarDecl(VarDecl),
    FuncDecl(FuncDecl),
}

/// The first clause of a `for` header.
#[derive(Debug)]
pub enum ForInit {
    Decl(VarDecl),
    Expr(Expr),
}

/// A statement. Loops, `break` and `continue` carry the label of the loop
/// they belong to; `break` and `continue` also carry their source line.
#[derive(Debug)]
pub enum Stmt {
    Return(Expr),
    Expression(Expr),
    If(Expr, Box<Stmt>, Option<Box<Stmt>>),
    Compound(Block),
    Break(String, usize),
    Continue(String, usize),
    While(Expr, Box<Stmt>, String),
    DoWhile(Box<Stmt>, Expr, String),
    For(Option<ForInit>, Option<Expr>, Option<Expr>, Box<Stmt>, String),
    Null,
}

/// An expression. Variables, assignments and calls carry their source line.
#[derive(Debug)]
pub enum Expr {
    Integer(i64),
    Var(String, usize),
    UnaryOp(UnaryOp, Box<Expr>),
    BinaryOp(BinaryOp, Box<Expr>, Box<Expr>),
    Assignment(Box<Expr>, Box<Expr>, usize),
    Conditional(Box<Expr>, Box<Expr>, Box<Expr>),
    FunctionCall(String, Vec<Expr>, usize),
}

#[derive(Debug, Clone, Copy, PartialEq, Eq, Structural)]
pub enum UnaryOp {
    Complement,
    Negate,
    Not,
}

#[derive(Debug, Clone, Copy, PartialEq, Eq, Structural)]
pub enum BinaryOp {
    Add,
    Subtract,
    Multiply,
    Divide,
    Modulus,
    BitwiseOr,
    BitwiseAnd,
    BitwiseXor,
    LeftShift,
    RightShift,
    LogicalAnd,
    LogicalOr,
    Equal,
    NotEqual,
    LessThan,
    LessOrEqual,
    GreaterThan,
    GreaterOrEqual,
}

/// The model of an expression.
pub enum ExprView {
    Integer(i64),
    Var(Seq<char>, usize),
    UnaryOp(UnaryOp, Box<ExprView>),
    BinaryOp(BinaryOp, Box<ExprView>, Box<ExprView>),
    Assignment(Box<ExprView>, Box<ExprView>, usize),
    Conditional(Box<ExprView>, Box<ExprView>, Box<ExprView>),
    FunctionCall(Seq<char>, Seq<ExprView>, usize),
}

/// The model of a variable declaration.
pub struct VarDeclView {
    pub name: Seq<char>,
    pub init: Option<ExprView>,
    pub line: usize,
}

/// The model of the first clause of a `for` header.
pub enum ForInitView {
    Decl(VarDeclView),
    Expr(ExprView),
}

/// The model of a statement.
pub enum StmtView {
    Return(ExprView),
    Expression(ExprView),
    If(ExprView, Box<StmtView>, Option<Box<StmtView>>),
    Compound(BlockView),
    Break(Seq<char>, usize),
    Continue(Seq<char>, usize),
    While(ExprView, Box<StmtView>, Seq<char>),
    DoWhile(Box<StmtView>, ExprView, Seq<char>),
    For(Option<ForInitView>, Option<ExprView>, Option<ExprView>, Box<StmtView>, Seq<char>),
    Null,
}

/// The model of a block.
pub struct BlockView {
    pub items: Seq<BlockItemView>,
}

/// The model of a block item.
pub enum BlockItemView {
    Stmt(StmtView),
    Decl(DeclView),
}

/// The model of a declaration.
pub enum DeclView {
    VarDecl(VarDeclView),
    FuncDecl(FuncDeclView),
}

/// The model of a function declaration.
pub struct FuncDeclView {
    pub name: Seq<char>,
    pub params: Seq<Seq<char>>,
    pub body: Option<BlockView>,
    pub line_number: usize,
}

/// The model of a translation unit.
pub struct ProgramView {
    pub func_decls: Seq<FuncDeclView>,
}

impl Expr {
    /// The model of this expression.
    pub open spec fn model(&self) -> ExprView
        decreases self,
    {
        match self {
            Expr::Integer(i) => ExprView::Integer(*i),
            Expr::Var(name, line) => ExprView::Var(name@, *line),
            Expr::UnaryOp(op, e) => ExprView::UnaryOp(*op, Box::new(e.model())),
            Expr::BinaryOp(op, l, r) => ExprView::BinaryOp(
                *op,
                Box::new(l.model()),
                Box::new(r.model()),
            ),
            Expr::Assignment(l, r, line) => ExprView::Assignment(
                Box::new(l.model()),
                Box::new(r.model()),
                *line,
            ),
            Expr::Conditional(c, t, f) => ExprView::Conditional(
                Box::new(c.model()),
                Box::new(t.model()),
                Box::new(f.model()),
            ),
            Expr::FunctionCall(name, args, line) => ExprView::FunctionCall(
                name@,
                Seq::new(
                    args@.len(),
                    |i: int|
                        if 0 <= i < args@.len() {
                            args@[i].model()
                        } else {
                            ExprView::Integer(0)
                        },
                ),
                *line,
            ),
        }
    }

    /// The model of a call holds the models of its arguments.
    pub proof fn lemma_call_view(self)
        requires
            self is FunctionCall,
        ensures
            self@ == ExprView::FunctionCall(
                self->FunctionCall_0@,
                seq_view(self->FunctionCall_1@),
                self->FunctionCall_2,
            ),
    {
        assert(self@->FunctionCall_1 =~= seq_view(self->FunctionCall_1@));
    }
}

impl View for Expr {
    type V = ExprView;

    open spec fn view(&self) -> ExprView {
        self.model()
    }
}

impl View for VarDecl {
    type V = VarDeclView;

    open spec fn view(&self) -> VarDeclView {
        VarDeclView {
            name: self.name@,
            init: match self.init {
                Some(e) => Some(e@),
                None => None,
            },
            line: self.line,
        }
    }
}

impl View for ForInit {
    type V = ForInitView;

    open spec fn view(&self) -> ForInitView {
        match self {
            ForInit::Decl(d) => ForInitView::Decl(d@),
            ForInit::Expr(e) => ForInitView::Expr(e@),
        }
    }
}

/// The model of an optional name.
pub open spec fn opt_name_view(s: Option<String>) -> Option<Seq<char>> {
    match s {
        Some(s) => Some(s@),
        None => None,
    }
}

/// The model of an optional expression.
pub open spec fn opt_expr_view(e: Option<Expr>) -> Option<ExprView> {
    match e {
        Some(e) => Some(e@),
        None => None,
    }
}

/// The model of an optional first clause of a `for` header.
pub open spec fn opt_init_view(i: Option<ForInit>) -> Option<ForInitView> {
    match i {
        Some(i) => Some(i@),
        None => None,
    }
}

impl Stmt {
    /// The model of this statement.
    pub open spec fn model(&self) -> StmtView
        decreases self,
    {
        match self {
            Stmt::Return(e) => StmtView::Return(e@),
            Stmt::Expression(e) => StmtView::Expression(e@),
            Stmt::If(c, t, e) => StmtView::If(
                c@,
                Box::new(t.model()),
                match e {
                    Some(s) => Some(Box::new(s.model())),
                    None => None,
                },
            ),
            Stmt::Compound(b) => StmtView::Compound(b.model()),
            Stmt::Break(label, line) => StmtView::Break(label@, *line),
            Stmt::Continue(label, line) => StmtView::Continue(label@, *line),
            Stmt::While(c, body, label) => StmtView::While(c@, Box::new(body.model()), label@),
            Stmt::DoWhile(body, c, label) => StmtView::DoWhile(Box::new(body.model()), c@, label@),
            Stmt::For(init, cond, post, body, label) => StmtView::For(
                opt_init_view(*init),
                opt_expr_view(*cond),
                opt_expr_view(*post),
                Box::new(body.model()),
                label@,
            ),
            Stmt::Null => StmtView::Null,
        }
    }
}

impl Block {
    /// The model of this block.
    pub open spec fn model(&self) -> BlockView
        decreases self,
    {
        BlockView {
            items: Seq::new(
                self.items@.len(),
                |i: int|
                    if 0 <= i < self.items@.len() {
                        self.items@[i].model()
                    } else {
                        BlockItemView::Stmt(StmtView::Null)
                    },
            ),
        }
    }

    /// The model of a block holds the models of its items.
    pub proof fn lemma_items_view(self)
        ensures
            self@.items == seq_view(self.items@),
    {
        assert(self@.items =~= seq_view(self.items@));
    }
}

impl BlockItem {
    /// The model of this block item.
    pub open spec fn model(&self) -> BlockItemView
        decreases self,
    {
        match self {
            BlockItem::Stmt(s) => BlockItemView::Stmt(s.model()),
            BlockItem::Decl(d) => BlockItemView::Decl(d.model()),
        }
    }
}

impl Decl {
    /// The model of this declaration.
    pub open spec fn model(&self) -> DeclView
        decreases self,
    {
        match self {
            Decl::VarDecl(d) => DeclView::VarDecl(d@),
            Decl::FuncDecl(d) => DeclView::FuncDecl(d.model()),
        }
    }
}

impl FuncDecl {
    /// The model of this function declaration.
    pub open spec fn model(&self) -> FuncDeclView
        decreases self,
    {
        FuncDeclView {
            name: self.name@,
            params: seq_view(self.params@),
            body: match self.body {
                Some(b) => Some(b.model()),
                None => None,
            },
            line_number: self.line_number,
        }
    }
}

impl View for Stmt {
    type V = StmtView;

    open spec fn view(&self) -> StmtView {
        self.model()
    }
}

impl View for Block {
    type V = BlockView;

    open spec fn view(&self) -> BlockView {
        self.model()
    }
}

impl View for BlockItem {
    type V = BlockItemView;

    open spec fn view(&self) -> BlockItemView {
        self.model()
    }
}

impl View for Decl {
    type V = DeclView;

    open spec fn view(&self) -> DeclView {
        self.model()
    }
}

impl View for FuncDecl {
    type V = FuncDeclView;

    open spec fn view(&self) -> FuncDeclView {
        self.model()
    }
}

impl View for Program {
    type V = ProgramView;

    open spec fn view(&self) -> ProgramView {
        ProgramView { func_decls: seq_view(self.func_decls@) }
    }
}

impl View for AST {
    type V = ProgramView;

    open spec fn view(&self) -> ProgramView {
        self.program@
    }
}

/// A fresh copy of an expression.
pub fn clone_expr(e: &Expr) -> (r: Expr)
    ensures
        r@ == e@,
    decreases e,
{
    match e {
        Expr::Integer(i) => Expr::Integer(*i),
        Expr::Var(name, line) => Expr::Var(clone_string(name), *line),
        Expr::UnaryOp(op, inner) => Expr::UnaryOp(*op, Box::new(clone_expr(inner))),
        Expr::BinaryOp(op, l, r) => Expr::BinaryOp(
            *op,
            Box::new(clone_expr(l)),
            Box::new(clone_expr(r)),
        ),
        Expr::Assignment(l, r, line) => Expr::Assignment(
            Box::new(clone_expr(l)),
            Box::new(clone_expr(r)),
            *line,
        ),
        Expr::Conditional(c, t, f) => Expr::Conditional(
            Box::new(clone_expr(c)),
            Box::new(clone_expr(t)),
            Box::new(clone_expr(f)),
        ),
        Expr::FunctionCall(name, args, line) => {
            let mut copies: Vec<Expr> = Vec::new();
            let mut i: usize = 0;
            proof {
                lemma_seq_view_take(args@, 0);
                assert(seq_view(copies@) =~= seq_view(args@).take(0));
            }
            while i < args.len()
                invariant
                    i <= args.len(),
                    e matches Expr::FunctionCall(_, a, _) && a == args,
                    seq_view(copies@) == seq_view(args@).take(i as int),
                decreases args.len() - i,
            {
                proof {
                    lemma_take_step(seq_view(args@), i as int);
                }
                push_view(&mut copies, clone_expr(&args[i]));
                i += 1;
            }
            let r = Expr::FunctionCall(clone_string(name), copies, *line);
            proof {
                lemma_seq_view_take(args@, args.len() as int);
                e.lemma_call_view();
                r.lemma_call_view();
            }
            r
        },
    }
}

impl Clone for Expr {
    fn clone(&self) -> (r: Expr)
        ensures
            r@ == self@,
    {
        clone_expr(self)
    }
}

/// A fresh copy of an optional expression.
pub fn clone_opt_expr(e: &Option<Expr>) -> (r: Option<Expr>)
    ensures
        opt_expr_view(r) == opt_expr_view(*e),
{
    match e {
        Some(e) => Some(clone_expr(e)),
        None => None,
    }
}

/// A fresh copy of a variable declaration.
pub fn clone_var_decl(d: &VarDecl) -> (r: VarDecl)
    ensures
        r@ == d@,
{
    VarDecl { name: clone_string(&d.name), init: clone_opt_expr(&d.init), line: d.line }
}

/// A fresh copy of the first clause of a `for` header.
pub fn clone_for_init(i: &Option<ForInit>) -> (r: Option<ForInit>)
    ensures
        opt_init_view(r) == opt_init_view(*i),
{
    match i {
        Some(ForInit::Decl(d)) => Some(ForInit::Decl(clone_var_decl(d))),
        Some(ForInit::Expr(e)) => Some(ForInit::Expr(clone_expr(e))),
        None => None,
    }
}

/// A fresh copy of a statement.
pub fn clone_stmt(s: &Stmt) -> (r: Stmt)
    ensures
        r@ == s@,
    decreases s,
{
    match s {
        Stmt::Return(e) => Stmt::Return(clone_expr(e)),
        Stmt::Expression(e) => Stmt::Expression(clone_expr(e)),
        Stmt::If(c, t, e) => {
            let other = match e {
                Some(e) => Some(Box::new(clone_stmt(e))),
                None => None,
            };
            Stmt::If(clone_expr(c), Box::new(clone_stmt(t)), other)
        },
        Stmt::Compound(b) => Stmt::Compound(clone_block(b)),
        Stmt::Break(label, line) => Stmt::Break(clone_string(label), *line),
        Stmt::Continue(label, line) => Stmt::Continue(clone_string(label), *line),
        Stmt::While(c, body, label) => Stmt::While(
            clone_expr(c),
            Box::new(clone_stmt(body)),
            clone_string(label),
        ),
        Stmt::DoWhile(body, c, label) => Stmt::DoWhile(
            Box::new(clone_stmt(body)),
            clone_expr(c),
            clone_string(label),
        ),
        Stmt::For(init, cond, post, body, label) => Stmt::For(
            clone_for_init(init),
            clone_opt_expr(cond),
            clone_opt_expr(post),
            Box::new(clone_stmt(body)),
            clone_string(label),
        ),
        Stmt::Null => Stmt::Null,
    }
}

/// A fresh copy of a block.
pub fn clone_block(b: &Block) -> (r: Block)
    ensures
        r@ == b@,
    decreases b,
{
    let mut items: Vec<BlockItem> = Vec::new();
    let mut i: usize = 0;
    proof {
        lemma_seq_view_take(b.items@, 0);
        assert(seq_view(items@) =~= seq_view(b.items@).take(0));
    }
    while i < b.items.len()
        invariant
            i <= b.items.len(),
            seq_view(items@) == seq_view(b.items@).take(i as int),
        decreases b.items.len() - i,
    {
        proof {
            lemma_take_step(seq_view(b.items@), i as int);
        }
        push_view(&mut items, clone_item(&b.items[i]));
        i += 1;
    }
    let r = Block { items };
    proof {
        lemma_seq_view_take(b.items@, b.items.len() as int);
        b.lemma_items_view();
        r.lemma_items_view();
    }
    r
}

/// A fresh copy of a block item.
pub fn clone_item(item: &BlockItem) -> (r: BlockItem)
    ensures
        r@ == item@,
    decreases item,
{
    match item {
        BlockItem::Stmt(s) => BlockItem::Stmt(clone_stmt(s)),
        BlockItem::Decl(Decl::VarDecl(d)) => BlockItem::Decl(Decl::VarDecl(clone_var_decl(d))),
        BlockItem::Decl(Decl::FuncDecl(f)) => BlockItem::Decl(Decl::FuncDecl(clone_func_decl(f))),
    }
}

/// A fresh copy of a function declaration.
pub fn clone_func_decl(f: &FuncDecl) -> (r: FuncDecl)
    ensures
        r@ == f@,
    decreases f,
{
    let body = match &f.body {
        Some(b) => Some(clone_block(b)),
        None => None,
    };
    FuncDecl {
        name: clone_string(&f.name),
        params: clone_strings(&f.params),
        body,
        line_number: f.line_number,
    }
}

/// Every assignment in the expression assigns to a variable.
pub open spec fn expr_targets_ok(e: ExprView) -> bool
    decreases e,
{
    match e {
        ExprView::Integer(_) => true,
        ExprView::Var(_, _) => true,
        ExprView::UnaryOp(_, x) => expr_targets_ok(*x),
        ExprView::BinaryOp(_, l, r) => expr_targets_ok(*l) && expr_targets_ok(*r),
        ExprView::Assignment(l, r, _) => *l is Var && expr_targets_ok(*r),
        ExprView::Conditional(c, t, f) => expr_targets_ok(*c) && expr_targets_ok(*t)
            && expr_targets_ok(*f),
        ExprView::FunctionCall(_, args, _) => forall|i: int|
            0 <= i < args.len() ==> expr_targets_ok(#[trigger] args[i]),
    }
}

/// Every assignment in the optional expression assigns to a variable.
pub open spec fn opt_expr_targets_ok(e: Option<ExprView>) -> bool {
    match e {
        Some(e) => expr_targets_ok(e),
        None => true,
    }
}

/// Every assignment in the declaration's initializer assigns to a variable.
pub open spec fn var_decl_targets_ok(d: VarDeclView) -> bool {
    opt_expr_targets_ok(d.init)
}

/// Every assignment in the first clause of a `for` header assigns to a
/// variable.
pub open spec fn for_init_targets_ok(init: Option<ForInitView>) -> bool {
    match init {
        Some(ForInitView::Decl(d)) => var_decl_targets_ok(d),
        Some(ForInitView::Expr(e)) => expr_targets_ok(e),
        None => true,
    }
}

/// Every assignment in the statement assigns to a variable.
pub open spec fn stmt_targets_ok(s: StmtView) -> bool
    decreases s,
{
    match s {
        StmtView::Return(e) => expr_targets_ok(e),
        StmtView::Expression(e) => expr_targets_ok(e),
        StmtView::If(c, t, e) => expr_targets_ok(c) && stmt_targets_ok(*t) && match e {
            Some(e) => stmt_targets_ok(*e),
            None => true,
        },
        StmtView::Compound(b) => items_targets_ok(b.items),
        StmtView::Break(_, _) => true,
        StmtView::Continue(_, _) => true,
        StmtView::While(c, body, _) => expr_targets_ok(c) && stmt_targets_ok(*body),
        StmtView::DoWhile(body, c, _) => stmt_targets_ok(*body) && expr_targets_ok(c),
        StmtView::For(init, cond, post, body, _) => for_init_targets_ok(init)
            && opt_expr_targets_ok(cond) && opt_expr_targets_ok(post) && stmt_targets_ok(*body),
        StmtView::Null => true,
    }
}

/// Every assignment in the block item assigns to a variable.
pub open spec fn item_targets_ok(item: BlockItemView) -> bool
    decreases item,
{
    match item {
        BlockItemView::Stmt(s) => stmt_targets_ok(s),
        BlockItemView::Decl(DeclView::VarDecl(d)) => var_decl_targets_ok(d),
        BlockItemView::Decl(DeclView::FuncDecl(f)) => func_targets_ok(f),
    }
}

/// Every assignment in the items assigns to a variable.
pub open spec fn items_targets_ok(items: Seq<BlockItemView>) -> bool
    decreases items,
{
    forall|i: int| 0 <= i < items.len() ==> item_targets_ok(#[trigger] items[i])
}

/// Every assignment in the function assigns to a variable.
pub open spec fn func_targets_ok(f: FuncDeclView) -> bool
    decreases f,
{
    match f.body {
        Some(b) => items_targets_ok(b.items),
        None => true,
    }
}

/// Every assignment in the program assigns to a variable.
pub open spec fn program_targets_ok(p: ProgramView) -> bool {
    forall|i: int| 0 <= i < p.func_decls.len() ==> func_targets_ok(#[trigger] p.func_decls[i])
}

} // verus!
