//! What identifier resolution produces, stated over the model of the syntax
//! tree. A scope maps each visible name to the unique name it stands for.

use vstd::prelude::*;
use crate::error::{ErrorView, semantic_error};
use crate::name_generator::{next_counter, numbered};
use crate::parser::ast::{
    ExprView, StmtView, BlockView, BlockItemView, DeclView, VarDeclView, ForInitView,
    FuncDeclView, ProgramView,
};

verus! {

/// How a name is linked: a local variable has no linkage, a function has
/// external linkage.
#[derive(Debug, Clone, Copy, PartialEq, Eq, Structural)]
pub enum Linkage {
    NoLinkage,
    Internal,
    External,
}

/// What a scope knows of a name: the unique name it stands for, whether it
/// was declared in the innermost scope, and its linkage.
pub struct IdentifierInfoView {
    pub unique_name: Seq<char>,
    pub from_current_scope: bool,
    pub linkage: Linkage,
}

/// The names that are visible at a point of the program.
pub type Scope = Map<Seq<char>, IdentifierInfoView>;

/// The scope inside a new block: every name stays visible, and none counts
/// as declared in the new block.
pub open spec fn enter_scope(m: Scope) -> Scope {
    Map::new(
        |k: Seq<char>| m.contains_key(k),
        |k: Seq<char>|
            IdentifierInfoView {
                unique_name: m[k].unique_name,
                from_current_scope: false,
                linkage: m[k].linkage,
            },
    )
}

/// The error for a name that is declared twice in one scope.
pub open spec fn already_declared(name: Seq<char>, line: usize) -> ErrorView {
    semantic_error(line, "\""@ + name + "\" already declared."@)
}

/// The error for a variable that no visible declaration binds.
pub open spec fn undeclared_variable(name: Seq<char>, line: usize) -> ErrorView {
    semantic_error(line, "Undeclared variable "@ + name)
}

/// The error for a function that no visible declaration binds.
pub open spec fn undeclared_function(name: Seq<char>, line: usize) -> ErrorView {
    semantic_error(line, "Undeclared function "@ + name)
}

/// The error for an assignment to something that is not a variable.
pub open spec fn invalid_lvalue(line: usize) -> ErrorView {
    semantic_error(line, "Invalid lvalue"@)
}

/// Whether a local variable of this name would clash with a declaration of
/// the same scope.
pub open spec fn local_clashes(m: Scope, name: Seq<char>) -> bool {
    m.contains_key(name) && m[name].from_current_scope && m[name].linkage == Linkage::NoLinkage
}

/// Whether a function of this name would clash with a declaration of the
/// same scope.
pub open spec fn function_clashes(m: Scope, name: Seq<char>) -> bool {
    m.contains_key(name) && m[name].from_current_scope && m[name].linkage != Linkage::External
}

/// The scope after a local variable was declared under a unique name.
pub open spec fn bind_local(m: Scope, name: Seq<char>, unique: Seq<char>) -> Scope {
    m.insert(
        name,
        IdentifierInfoView {
            unique_name: unique,
            from_current_scope: true,
            linkage: Linkage::NoLinkage,
        },
    )
}

/// The scope after a function was declared. A function keeps its name.
pub open spec fn bind_function(m: Scope, name: Seq<char>) -> Scope {
    m.insert(
        name,
        IdentifierInfoView {
            unique_name: name,
            from_current_scope: true,
            linkage: Linkage::External,
        },
    )
}

/// The expression with every variable and every called function replaced by
/// the unique name that the scope gives it.
#[verifier::opaque]
pub open spec fn resolve_expr(e: ExprView, m: Scope) -> Result<ExprView, ErrorView>
    decreases e,
{
    match e {
        ExprView::Integer(_) => Ok(e),
        ExprView::Var(name, line) => {
            if m.contains_key(name) {
                Ok(ExprView::Var(m[name].unique_name, line))
            } else {
                Err(undeclared_variable(name, line))
            }
        },
        ExprView::UnaryOp(op, x) => match resolve_expr(*x, m) {
            Ok(x1) => Ok(ExprView::UnaryOp(op, Box::new(x1))),
            Err(e) => Err(e),
        },
        ExprView::BinaryOp(op, l, r) => match resolve_expr(*l, m) {
            Ok(l1) => match resolve_expr(*r, m) {
                Ok(r1) => Ok(ExprView::BinaryOp(op, Box::new(l1), Box::new(r1))),
                Err(e) => Err(e),
            },
            Err(e) => Err(e),
        },
        ExprView::Assignment(l, r, line) => {
            if *l is Var {
                match resolve_expr(*l, m) {
                    Ok(l1) => match resolve_expr(*r, m) {
                        Ok(r1) => Ok(ExprView::Assignment(Box::new(l1), Box::new(r1), line)),
                        Err(e) => Err(e),
                    },
                    Err(e) => Err(e),
                }
            } else {
                Err(invalid_lvalue(line))
            }
        },
        ExprView::Conditional(c, t, f) => match resolve_expr(*c, m) {
            Ok(c1) => match resolve_expr(*t, m) {
                Ok(t1) => match resolve_expr(*f, m) {
                    Ok(f1) => Ok(ExprView::Conditional(Box::new(c1), Box::new(t1), Box::new(f1))),
                    Err(e) => Err(e),
                },
                Err(e) => Err(e),
            },
            Err(e) => Err(e),
        },
        ExprView::FunctionCall(name, args, line) => {
            if m.contains_key(name) {
                match resolve_exprs(args, m) {
                    Ok(args1) => Ok(ExprView::FunctionCall(m[name].unique_name, args1, line)),
                    Err(e) => Err(e),
                }
            } else {
                Err(undeclared_function(name, line))
            }
        },
    }
}

/// The expressions resolved from left to right.
#[verifier::opaque]
pub open spec fn resolve_exprs(es: Seq<ExprView>, m: Scope) -> Result<Seq<ExprView>, ErrorView>
    decreases es,
{
    if es.len() == 0 {
        Ok(Seq::empty())
    } else {
        match resolve_exprs(es.drop_last(), m) {
            Ok(done) => match resolve_expr(es.last(), m) {
                Ok(x) => Ok(done.push(x)),
                Err(e) => Err(e),
            },
            Err(e) => Err(e),
        }
    }
}

/// An optional expression resolved.
pub open spec fn resolve_opt_expr(e: Option<ExprView>, m: Scope) -> Result<
    Option<ExprView>,
    ErrorView,
> {
    match e {
        Some(e) => match resolve_expr(e, m) {
            Ok(e1) => Ok(Some(e1)),
            Err(e) => Err(e),
        },
        None => Ok(None),
    }
}

/// A local variable declared: its unique name `name.N`, the scope with the
/// variable bound, and the counter afterwards.
pub open spec fn declare_local(name: Seq<char>, line: usize, m: Scope, c: usize) -> Result<
    (Seq<char>, Scope, usize),
    ErrorView,
> {
    if local_clashes(m, name) {
        Err(already_declared(name, line))
    } else {
        Ok((numbered(name, c), bind_local(m, name, numbered(name, c)), next_counter(c)))
    }
}

/// A variable declaration resolved. The initializer is resolved in the scope
/// that has the variable already.
pub open spec fn resolve_var_decl(d: VarDeclView, m: Scope, c: usize) -> Result<
    (VarDeclView, Scope, usize),
    ErrorView,
> {
    match declare_local(d.name, d.line, m, c) {
        Ok((unique, m1, c1)) => match resolve_opt_expr(d.init, m1) {
            Ok(init) => Ok((VarDeclView { name: unique, init, line: d.line }, m1, c1)),
            Err(e) => Err(e),
        },
        Err(e) => Err(e),
    }
}

/// The first clause of a `for` header resolved.
pub open spec fn resolve_for_init(init: Option<ForInitView>, m: Scope, c: usize) -> Result<
    (Option<ForInitView>, Scope, usize),
    ErrorView,
> {
    match init {
        Some(ForInitView::Expr(e)) => match resolve_expr(e, m) {
            Ok(e1) => Ok((Some(ForInitView::Expr(e1)), m, c)),
            Err(e) => Err(e),
        },
        Some(ForInitView::Decl(d)) => match resolve_var_decl(d, m, c) {
            Ok((d1, m1, c1)) => Ok((Some(ForInitView::Decl(d1)), m1, c1)),
            Err(e) => Err(e),
        },
        None => Ok((None, m, c)),
    }
}

/// The parameters of a function declared as locals, from left to right.
#[verifier::opaque]
pub open spec fn resolve_params(params: Seq<Seq<char>>, line: usize, m: Scope, c: usize)
    -> Result<(Seq<Seq<char>>, Scope, usize), ErrorView>
    decreases params.len(),
{
    if params.len() == 0 {
        Ok((Seq::empty(), m, c))
    } else {
        match resolve_params(params.drop_last(), line, m, c) {
            Ok((done, m1, c1)) => match declare_local(params.last(), line, m1, c1) {
                Ok((unique, m2, c2)) => Ok((done.push(unique), m2, c2)),
                Err(e) => Err(e),
            },
            Err(e) => Err(e),
        }
    }
}

/// A statement resolved. A compound statement and a `for` loop open a scope
/// of their own. Of an `if`, the `else` branch is resolved first, then the
/// condition, then the other branch.
#[verifier::opaque]
pub open spec fn resolve_stmt(s: StmtView, m: Scope, c: usize) -> Result<
    (StmtView, usize),
    ErrorView,
>
    decreases s,
{
    match s {
        StmtView::Return(e) => match resolve_expr(e, m) {
            Ok(e1) => Ok((StmtView::Return(e1), c)),
            Err(e) => Err(e),
        },
        StmtView::Expression(e) => match resolve_expr(e, m) {
            Ok(e1) => Ok((StmtView::Expression(e1), c)),
            Err(e) => Err(e),
        },
        StmtView::Null => Ok((s, c)),
        StmtView::If(cond, t, e) => {
            let other = match e {
                Some(e) => match resolve_stmt(*e, m, c) {
                    Ok((e1, c1)) => Ok((Some(Box::new(e1)), c1)),
                    Err(e) => Err(e),
                },
                None => Ok((None, c)),
            };
            match other {
                Ok((e1, c1)) => match resolve_expr(cond, m) {
                    Ok(cond1) => match resolve_stmt(*t, m, c1) {
                        Ok((t1, c2)) => Ok((StmtView::If(cond1, Box::new(t1), e1), c2)),
                        Err(e) => Err(e),
                    },
                    Err(e) => Err(e),
                },
                Err(e) => Err(e),
            }
        },
        StmtView::Compound(b) => match resolve_items(b.items, enter_scope(m), c) {
            Ok((items, _, c1)) => Ok((StmtView::Compound(BlockView { items }), c1)),
            Err(e) => Err(e),
        },
        StmtView::Break(_, _) => Ok((s, c)),
        StmtView::Continue(_, _) => Ok((s, c)),
        StmtView::While(cond, body, label) => match resolve_expr(cond, m) {
            Ok(cond1) => match resolve_stmt(*body, m, c) {
                Ok((body1, c1)) => Ok((StmtView::While(cond1, Box::new(body1), label), c1)),
                Err(e) => Err(e),
            },
            Err(e) => Err(e),
        },
        StmtView::DoWhile(body, cond, label) => match resolve_stmt(*body, m, c) {
            Ok((body1, c1)) => match resolve_expr(cond, m) {
                Ok(cond1) => Ok((StmtView::DoWhile(Box::new(body1), cond1, label), c1)),
                Err(e) => Err(e),
            },
            Err(e) => Err(e),
        },
        StmtView::For(init, cond, post, body, label) => match resolve_for_init(
            init,
            enter_scope(m),
            c,
        ) {
            Ok((init1, m1, c1)) => match resolve_opt_expr(cond, m1) {
                Ok(cond1) => match resolve_opt_expr(post, m1) {
                    Ok(post1) => match resolve_stmt(*body, m1, c1) {
                        Ok((body1, c2)) => Ok(
                            (StmtView::For(init1, cond1, post1, Box::new(body1), label), c2),
                        ),
                        Err(e) => Err(e),
                    },
                    Err(e) => Err(e),
                },
                Err(e) => Err(e),
            },
            Err(e) => Err(e),
        },
    }
}

/// A block item resolved, with the scope that the items after it see.
#[verifier::opaque]
pub open spec fn resolve_item(item: BlockItemView, m: Scope, c: usize) -> Result<
    (BlockItemView, Scope, usize),
    ErrorView,
>
    decreases item,
{
    match item {
        BlockItemView::Stmt(s) => match resolve_stmt(s, m, c) {
            Ok((s1, c1)) => Ok((BlockItemView::Stmt(s1), m, c1)),
            Err(e) => Err(e),
        },
        BlockItemView::Decl(DeclView::VarDecl(d)) => match resolve_var_decl(d, m, c) {
            Ok((d1, m1, c1)) => Ok((BlockItemView::Decl(DeclView::VarDecl(d1)), m1, c1)),
            Err(e) => Err(e),
        },
        BlockItemView::Decl(DeclView::FuncDecl(f)) => match resolve_func_decl(f, m, c) {
            Ok((f1, m1, c1)) => Ok((BlockItemView::Decl(DeclView::FuncDecl(f1)), m1, c1)),
            Err(e) => Err(e),
        },
    }
}

/// The items of a block resolved in order, each in the scope that the items
/// before it left.
#[verifier::opaque]
pub open spec fn resolve_items(items: Seq<BlockItemView>, m: Scope, c: usize) -> Result<
    (Seq<BlockItemView>, Scope, usize),
    ErrorView,
>
    decreases items,
{
    if items.len() == 0 {
        Ok((Seq::empty(), m, c))
    } else {
        match resolve_items(items.drop_last(), m, c) {
            Ok((done, m1, c1)) => match resolve_item(items.last(), m1, c1) {
                Ok((item, m2, c2)) => Ok((done.push(item), m2, c2)),
                Err(e) => Err(e),
            },
            Err(e) => Err(e),
        }
    }
}

/// A function declaration resolved. The function is bound under its own name
/// with external linkage. Where it has a body, the parameters are declared
/// as locals in a scope of their own, and the body is resolved in it.
#[verifier::opaque]
pub open spec fn resolve_func_decl(f: FuncDeclView, m: Scope, c: usize) -> Result<
    (FuncDeclView, Scope, usize),
    ErrorView,
>
    decreases f,
{
    if function_clashes(m, f.name) {
        Err(already_declared(f.name, f.line_number))
    } else {
        let m1 = bind_function(m, f.name);
        match f.body {
            None => Ok((f, m1, c)),
            Some(b) => match resolve_params(f.params, f.line_number, enter_scope(m1), c) {
                Ok((params, inner, c1)) => match resolve_items(b.items, inner, c1) {
                    Ok((items, _, c2)) => Ok(
                        (
                            FuncDeclView {
                                name: f.name,
                                params,
                                body: Some(BlockView { items }),
                                line_number: f.line_number,
                            },
                            m1,
                            c2,
                        ),
                    ),
                    Err(e) => Err(e),
                },
                Err(e) => Err(e),
            },
        }
    }
}

/// The function declarations of a translation unit resolved in order.
#[verifier::opaque]
pub open spec fn resolve_funcs(decls: Seq<FuncDeclView>, m: Scope, c: usize) -> Result<
    (Seq<FuncDeclView>, Scope, usize),
    ErrorView,
>
    decreases decls.len(),
{
    if decls.len() == 0 {
        Ok((Seq::empty(), m, c))
    } else {
        match resolve_funcs(decls.drop_last(), m, c) {
            Ok((done, m1, c1)) => match resolve_func_decl(decls.last(), m1, c1) {
                Ok((f, m2, c2)) => Ok((done.push(f), m2, c2)),
                Err(e) => Err(e),
            },
            Err(e) => Err(e),
        }
    }
}

/// A translation unit resolved, starting from the empty scope: the unit with
/// unique names, and the counter afterwards.
pub open spec fn resolve(p: ProgramView, c: usize) -> Result<(ProgramView, usize), ErrorView> {
    match resolve_funcs(p.func_decls, Map::empty(), c) {
        Ok((func_decls, _, c1)) => Ok((ProgramView { func_decls }, c1)),
        Err(e) => Err(e),
    }
}

} // verus!
