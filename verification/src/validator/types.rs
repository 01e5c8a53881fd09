//! What type checking accepts, stated over the model of the syntax tree. The
//! symbol table maps each name to its type: an integer variable, or a
//! function with its number of parameters.

use vstd::prelude::*;
use crate::error::{ErrorView, semantic_error};
use crate::parser::ast::{
    ExprView, StmtView, BlockItemView, DeclView, VarDeclView, ForInitView, FuncDeclView,
    ProgramView,
};
use crate::validator::scopes::invalid_lvalue;

verus! {

/// The type of a declared name.
#[derive(Debug, Clone, Copy, PartialEq, Eq, Structural)]
pub enum DeclType {
    Int,
    Func(usize),
}

/// What the symbol table knows of a name: its type, and for a function
/// whether a definition was seen.
#[derive(Debug, Clone, Copy, PartialEq, Eq, Structural)]
pub struct TypeInfo {
    pub decl_type: DeclType,
    pub defined: bool,
}

impl View for TypeInfo {
    type V = TypeInfo;

    open spec fn view(&self) -> TypeInfo {
        *self
    }
}

/// The symbol table.
pub type Symbols = Map<Seq<char>, TypeInfo>;

/// The error for two declarations of a function that differ in the number of
/// parameters.
pub open spec fn incompatible_declarations(line: usize) -> ErrorView {
    semantic_error(line, "Incompatible function declarations"@)
}

/// The error for a second definition of a function.
pub open spec fn defined_twice(line: usize) -> ErrorView {
    semantic_error(line, "Function is defined more than once"@)
}

/// The error for a function that is used as a variable.
pub open spec fn function_as_variable(line: usize) -> ErrorView {
    semantic_error(line, "Function name used as variable"@)
}

/// The error for a variable that is called.
pub open spec fn variable_as_function(line: usize) -> ErrorView {
    semantic_error(line, "Variable used as function name"@)
}

/// The error for a call whose number of arguments is not the number of
/// parameters.
pub open spec fn wrong_argument_count(line: usize) -> ErrorView {
    semantic_error(line, "Function called with the wrong number of arguments"@)
}

/// The type of an integer variable.
pub open spec fn int_type() -> TypeInfo {
    TypeInfo { decl_type: DeclType::Int, defined: false }
}

/// An expression checked: every variable is an integer, and every call names
/// a function and passes as many arguments as the function has parameters.
/// A name that the table does not know passes.
#[verifier::opaque]
pub open spec fn check_expr(e: ExprView, t: Symbols) -> Result<(), ErrorView>
    decreases e,
{
    match e {
        ExprView::Integer(_) => Ok(()),
        ExprView::Var(name, line) => {
            if t.contains_key(name) && t[name].decl_type != DeclType::Int {
                Err(function_as_variable(line))
            } else {
                Ok(())
            }
        },
        ExprView::UnaryOp(_, x) => check_expr(*x, t),
        ExprView::BinaryOp(_, l, r) => match check_expr(*l, t) {
            Ok(()) => check_expr(*r, t),
            Err(e) => Err(e),
        },
        ExprView::Assignment(l, r, line) => {
            if *l is Var {
                match check_expr(*l, t) {
                    Ok(()) => check_expr(*r, t),
                    Err(e) => Err(e),
                }
            } else {
                Err(invalid_lvalue(line))
            }
        },
        ExprView::Conditional(c, a, b) => match check_expr(*c, t) {
            Ok(()) => match check_expr(*a, t) {
                Ok(()) => check_expr(*b, t),
                Err(e) => Err(e),
            },
            Err(e) => Err(e),
        },
        ExprView::FunctionCall(name, args, line) => {
            if t.contains_key(name) {
                match t[name].decl_type {
                    DeclType::Int => Err(variable_as_function(line)),
                    DeclType::Func(n) => {
                        if n != args.len() {
                            Err(wrong_argument_count(line))
                        } else {
                            check_exprs(args, t)
                        }
                    },
                }
            } else {
                Ok(())
            }
        },
    }
}

/// The expressions checked from left to right.
#[verifier::opaque]
pub open spec fn check_exprs(es: Seq<ExprView>, t: Symbols) -> Result<(), ErrorView>
    decreases es,
{
    if es.len() == 0 {
        Ok(())
    } else {
        match check_exprs(es.drop_last(), t) {
            Ok(()) => check_expr(es.last(), t),
            Err(e) => Err(e),
        }
    }
}

/// An optional expression checked.
pub open spec fn check_opt_expr(e: Option<ExprView>, t: Symbols) -> Result<(), ErrorView> {
    match e {
        Some(e) => check_expr(e, t),
        None => Ok(()),
    }
}

/// A variable declaration checked: the variable enters the table as an
/// integer, and its initializer is checked.
pub open spec fn check_var_decl(d: VarDeclView, t: Symbols) -> Result<Symbols, ErrorView> {
    match check_opt_expr(d.init, t.insert(d.name, int_type())) {
        Ok(()) => Ok(t.insert(d.name, int_type())),
        Err(e) => Err(e),
    }
}

/// The first clause of a `for` header checked.
pub open spec fn check_for_init(init: Option<ForInitView>, t: Symbols) -> Result<
    Symbols,
    ErrorView,
> {
    match init {
        Some(ForInitView::Expr(e)) => match check_expr(e, t) {
            Ok(()) => Ok(t),
            Err(e) => Err(e),
        },
        Some(ForInitView::Decl(d)) => check_var_decl(d, t),
        None => Ok(t),
    }
}

/// The table with every parameter entered as an integer.
pub open spec fn declare_params(params: Seq<Seq<char>>, t: Symbols) -> Symbols
    decreases params.len(),
{
    if params.len() == 0 {
        t
    } else {
        declare_params(params.drop_last(), t).insert(params.last(), int_type())
    }
}

/// A statement checked, with the table afterwards. Of an `if`, the `else`
/// branch is checked first, then the condition, then the other branch.
#[verifier::opaque]
pub open spec fn check_stmt(s: StmtView, t: Symbols) -> Result<Symbols, ErrorView>
    decreases s,
{
    match s {
        StmtView::Return(e) => match check_expr(e, t) {
            Ok(()) => Ok(t),
            Err(e) => Err(e),
        },
        StmtView::Expression(e) => match check_expr(e, t) {
            Ok(()) => Ok(t),
            Err(e) => Err(e),
        },
        StmtView::Null => Ok(t),
        StmtView::If(cond, a, b) => {
            let other = match b {
                Some(b) => check_stmt(*b, t),
                None => Ok(t),
            };
            match other {
                Ok(t1) => match check_expr(cond, t1) {
                    Ok(()) => check_stmt(*a, t1),
                    Err(e) => Err(e),
                },
                Err(e) => Err(e),
            }
        },
        StmtView::Compound(b) => check_items(b.items, t),
        StmtView::Break(_, _) => Ok(t),
        StmtView::Continue(_, _) => Ok(t),
        StmtView::While(cond, body, _) => match check_expr(cond, t) {
            Ok(()) => check_stmt(*body, t),
            Err(e) => Err(e),
        },
        StmtView::DoWhile(body, cond, _) => match check_stmt(*body, t) {
            Ok(t1) => match check_expr(cond, t1) {
                Ok(()) => Ok(t1),
                Err(e) => Err(e),
            },
            Err(e) => Err(e),
        },
        StmtView::For(init, cond, post, body, _) => match check_for_init(init, t) {
            Ok(t1) => match check_opt_expr(cond, t1) {
                Ok(()) => match check_opt_expr(post, t1) {
                    Ok(()) => check_stmt(*body, t1),
                    Err(e) => Err(e),
                },
                Err(e) => Err(e),
            },
            Err(e) => Err(e),
        },
    }
}

/// A block item checked.
#[verifier::opaque]
pub open spec fn check_item(item: BlockItemView, t: Symbols) -> Result<Symbols, ErrorView>
    decreases item,
{
    match item {
        BlockItemView::Stmt(s) => check_stmt(s, t),
        BlockItemView::Decl(DeclView::VarDecl(d)) => check_var_decl(d, t),
        BlockItemView::Decl(DeclView::FuncDecl(f)) => check_func_decl(f, t),
    }
}

/// The items of a block checked in order.
#[verifier::opaque]
pub open spec fn check_items(items: Seq<BlockItemView>, t: Symbols) -> Result<Symbols, ErrorView>
    decreases items,
{
    if items.len() == 0 {
        Ok(t)
    } else {
        match check_items(items.drop_last(), t) {
            Ok(t1) => check_item(items.last(), t1),
            Err(e) => Err(e),
        }
    }
}

/// The type of a function with the given parameters.
pub open spec fn function_type(params: Seq<Seq<char>>) -> DeclType {
    DeclType::Func(params.len() as usize)
}

/// Whether the table has a definition of the function.
pub open spec fn is_defined(t: Symbols, name: Seq<char>) -> bool {
    t.contains_key(name) && t[name].defined
}

/// A function declaration checked. It agrees with an earlier declaration of
/// its name on the number of parameters, and a function is defined at most
/// once. Once defined, a function stays defined.
#[verifier::opaque]
pub open spec fn check_func_decl(f: FuncDeclView, t: Symbols) -> Result<Symbols, ErrorView>
    decreases f,
{
    if t.contains_key(f.name) && t[f.name].decl_type != function_type(f.params) {
        Err(incompatible_declarations(f.line_number))
    } else if is_defined(t, f.name) && f.body is Some {
        Err(defined_twice(f.line_number))
    } else {
        let t1 = t.insert(
            f.name,
            TypeInfo {
                decl_type: function_type(f.params),
                defined: is_defined(t, f.name) || f.body is Some,
            },
        );
        match f.body {
            Some(b) => check_items(b.items, declare_params(f.params, t1)),
            None => Ok(t1),
        }
    }
}

/// The function declarations of a translation unit checked in order.
#[verifier::opaque]
pub open spec fn check_funcs(decls: Seq<FuncDeclView>, t: Symbols) -> Result<Symbols, ErrorView>
    decreases decls.len(),
{
    if decls.len() == 0 {
        Ok(t)
    } else {
        match check_funcs(decls.drop_last(), t) {
            Ok(t1) => check_func_decl(decls.last(), t1),
            Err(e) => Err(e),
        }
    }
}

/// A translation unit checked, starting from the empty table.
pub open spec fn check(p: ProgramView) -> Result<(), ErrorView> {
    match check_funcs(p.func_decls, Map::empty()) {
        Ok(_) => Ok(()),
        Err(e) => Err(e),
    }
}

} // verus!
