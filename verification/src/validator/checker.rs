//! Type checking: functions and variables are told apart, declarations of a
//! function agree, and calls pass the right number of arguments.

use vstd::prelude::*;
use vstd::string::*;
use crate::error::{Error, ErrorType, ErrorView, error};
use crate::views::{seq_view, clone_string, lemma_take_step};
use crate::name_map::NameMap;
use crate::parser::ast::{
    Program, FuncDecl, VarDecl, Block, BlockItem, Decl, ForInit, Stmt, Expr, ExprView,
    BlockItemView, FuncDeclView, opt_expr_view, opt_init_view,
};
use crate::validator::types;
use crate::validator::types::{DeclType, TypeInfo, Symbols};

verus! {

/// The symbol table.
pub type TypeMap = NameMap<TypeInfo>;

/// Checks the types of a translation unit.
pub fn typecheck_program(program: &Program) -> (r: Result<(), Error>)
    ensures
        match r {
            Ok(()) => types::check(program@) == Ok::<(), ErrorView>(()),
            Err(e) => types::check(program@) == Err::<(), ErrorView>(e@),
        },
{
    reveal(types::check_funcs);
    let mut type_map: TypeMap = NameMap::new();
    let ghost decls = program@.func_decls;
    let mut i: usize = 0;
    proof {
        assert(decls.take(0) =~= Seq::empty());
    }
    while i < program.func_decls.len()
        invariant
            i <= program.func_decls.len(),
            decls == program@.func_decls,
            types::check_funcs(decls.take(i as int), Map::empty()) == Ok::<Symbols, ErrorView>(
                type_map@,
            ),
        decreases program.func_decls.len() - i,
    {
        reveal(types::check_funcs);
        proof {
            lemma_take_step(decls, i as int);
            assert(decls[i as int] == program.func_decls@[i as int]@);
        }
        match typecheck_func_declaration(&program.func_decls[i], &mut type_map) {
            Ok(()) => {},
            Err(e) => {
                proof {
                    lemma_check_funcs_error(decls, i as int + 1, Map::empty());
                }
                return Err(e);
            },
        }
        i += 1;
    }
    proof {
        assert(decls.take(i as int) =~= decls);
    }
    Ok(())
}

/// An error in a prefix of the functions is the error of the whole.
pub proof fn lemma_check_funcs_error(decls: Seq<FuncDeclView>, n: int, t: Symbols)
    requires
        0 <= n <= decls.len(),
        types::check_funcs(decls.take(n), t) is Err,
    ensures
        types::check_funcs(decls, t) == types::check_funcs(decls.take(n), t),
    decreases decls.len() - n,
{
    reveal(types::check_funcs);
    if n < decls.len() {
        lemma_take_step(decls, n);
        lemma_check_funcs_error(decls, n + 1, t);
    } else {
        assert(decls.take(n) =~= decls);
    }
}

/// An error in a prefix of the items is the error of the whole.
pub proof fn lemma_check_items_error(items: Seq<BlockItemView>, n: int, t: Symbols)
    requires
        0 <= n <= items.len(),
        types::check_items(items.take(n), t) is Err,
    ensures
        types::check_items(items, t) == types::check_items(items.take(n), t),
    decreases items.len() - n,
{
    reveal(types::check_items);
    if n < items.len() {
        lemma_take_step(items, n);
        lemma_check_items_error(items, n + 1, t);
    } else {
        assert(items.take(n) =~= items);
    }
}

/// An error in a prefix of the expressions is the error of the whole.
pub proof fn lemma_check_exprs_error(es: Seq<ExprView>, n: int, t: Symbols)
    requires
        0 <= n <= es.len(),
        types::check_exprs(es.take(n), t) is Err,
    ensures
        types::check_exprs(es, t) == types::check_exprs(es.take(n), t),
    decreases es.len() - n,
{
    reveal(types::check_exprs);
    if n < es.len() {
        lemma_take_step(es, n);
        lemma_check_exprs_error(es, n + 1, t);
    } else {
        assert(es.take(n) =~= es);
    }
}

fn semantic(line: usize, msg: &str) -> (e: Error)
    ensures
        e@ == crate::error::semantic_error(line, msg@),
{
    error(line, String::from_str(msg), ErrorType::SemanticError)
}

fn typecheck_func_declaration(decl: &FuncDecl, type_map: &mut TypeMap) -> (r: Result<(), Error>)
    ensures
        match r {
            Ok(()) => types::check_func_decl(decl@, old(type_map)@) == Ok::<Symbols, ErrorView>(
                final(type_map)@,
            ),
            Err(e) => types::check_func_decl(decl@, old(type_map)@) == Err::<Symbols, ErrorView>(
                e@,
            ),
        },
    decreases decl,
{
    reveal(types::check_stmt);
    reveal(types::check_item);
    reveal(types::check_items);
    reveal(types::check_func_decl);
    let decl_type = DeclType::Func(decl.params.len());
    let mut already_defined = false;
    let has_body = decl.body.is_some();
    if let Some(existing_decl_type) = type_map.get(&decl.name) {
        if existing_decl_type.decl_type != decl_type {
            return Err(semantic(decl.line_number, "Incompatible function declarations"));
        }
        already_defined = existing_decl_type.defined;
        if already_defined && has_body {
            return Err(semantic(decl.line_number, "Function is defined more than once"));
        }
    }
    type_map.insert(
        clone_string(&decl.name),
        TypeInfo { decl_type, defined: already_defined || has_body },
    );
    if let Some(body) = &decl.body {
        let ghost t1 = type_map@;
        let ghost ps = seq_view(decl.params@);
        let mut i: usize = 0;
        proof {
            assert(ps.take(0) =~= Seq::empty());
        }
        while i < decl.params.len()
            invariant
                i <= decl.params.len(),
                ps == seq_view(decl.params@),
                type_map@ == types::declare_params(ps.take(i as int), t1),
            decreases decl.params.len() - i,
        {
            proof {
                lemma_take_step(ps, i as int);
            }
            type_map.insert(
                clone_string(&decl.params[i]),
                TypeInfo { decl_type: DeclType::Int, defined: false },
            );
            i += 1;
        }
        proof {
            assert(ps.take(i as int) =~= ps);
        }
        return typecheck_block(body, type_map);
    }
    Ok(())
}

fn typecheck_block(block: &Block, type_map: &mut TypeMap) -> (r: Result<(), Error>)
    ensures
        match r {
            Ok(()) => types::check_items(block@.items, old(type_map)@) == Ok::<
                Symbols,
                ErrorView,
            >(final(type_map)@),
            Err(e) => types::check_items(block@.items, old(type_map)@) == Err::<
                Symbols,
                ErrorView,
            >(e@),
        },
    decreases block,
{
    reveal(types::check_stmt);
    reveal(types::check_item);
    reveal(types::check_items);
    reveal(types::check_func_decl);
    let ghost items = block@.items;
    let ghost t0 = type_map@;
    let mut i: usize = 0;
    proof {
        block.lemma_items_view();
        assert(items.take(0) =~= Seq::empty());
    }
    while i < block.items.len()
        invariant
            i <= block.items.len(),
            items == block@.items,
            items == seq_view(block.items@),
            t0 == old(type_map)@,
            types::check_items(items.take(i as int), t0) == Ok::<Symbols, ErrorView>(type_map@),
        decreases block.items.len() - i,
    {
        reveal(types::check_stmt);
        reveal(types::check_item);
        reveal(types::check_items);
        reveal(types::check_func_decl);
        proof {
            lemma_take_step(items, i as int);
            assert(items[i as int] == block.items@[i as int]@);
        }
        match typecheck_block_item(&block.items[i], type_map) {
            Ok(()) => {},
            Err(e) => {
                proof {
                    lemma_check_items_error(items, i as int + 1, t0);
                }
                return Err(e);
            },
        }
        i += 1;
    }
    proof {
        assert(items.take(i as int) =~= items);
    }
    Ok(())
}

fn typecheck_block_item(block_item: &BlockItem, type_map: &mut TypeMap) -> (r: Result<(), Error>)
    ensures
        match r {
            Ok(()) => types::check_item(block_item@, old(type_map)@) == Ok::<Symbols, ErrorView>(
                final(type_map)@,
            ),
            Err(e) => types::check_item(block_item@, old(type_map)@) == Err::<Symbols, ErrorView>(
                e@,
            ),
        },
    decreases block_item,
{
    reveal(types::check_stmt);
    reveal(types::check_item);
    reveal(types::check_items);
    reveal(types::check_func_decl);
    match block_item {
        BlockItem::Stmt(stmt) => typecheck_statement(stmt, type_map),
        BlockItem::Decl(decl) => {
            match decl {
                Decl::VarDecl(decl) => typecheck_var_declaration(decl, type_map),
                Decl::FuncDecl(decl) => typecheck_func_declaration(decl, type_map),
            }
        },
    }
}

#[verifier::rlimit(60)]
fn typecheck_statement(stmt: &Stmt, type_map: &mut TypeMap) -> (r: Result<(), Error>)
    ensures
        match r {
            Ok(()) => types::check_stmt(stmt@, old(type_map)@) == Ok::<Symbols, ErrorView>(
                final(type_map)@,
            ),
            Err(e) => types::check_stmt(stmt@, old(type_map)@) == Err::<Symbols, ErrorView>(e@),
        },
    decreases stmt,
{
    reveal(types::check_stmt);
    reveal(types::check_item);
    reveal(types::check_items);
    reveal(types::check_func_decl);
    match stmt {
        Stmt::Expression(e) => typecheck_expr(e, type_map),
        Stmt::Return(e) => typecheck_expr(e, type_map),
        Stmt::Null => Ok(()),
        Stmt::If(expr, then_stmt, else_stmt) => {
            if let Some(else_stmt) = else_stmt {
                typecheck_statement(else_stmt, type_map)?;
            }
            typecheck_expr(expr, type_map)?;
            typecheck_statement(then_stmt, type_map)
        },
        Stmt::Compound(block) => typecheck_block(block, type_map),
        Stmt::Break(_, _) => Ok(()),
        Stmt::Continue(_, _) => Ok(()),
        Stmt::While(condition, body, _) => {
            typecheck_expr(condition, type_map)?;
            typecheck_statement(body, type_map)
        },
        Stmt::DoWhile(body, condition, _) => {
            typecheck_statement(body, type_map)?;
            typecheck_expr(condition, type_map)
        },
        Stmt::For(init, condition, post, body, _) => {
            typecheck_for_init(init, type_map)?;
            typecheck_optional_expr(condition, type_map)?;
            typecheck_optional_expr(post, type_map)?;
            typecheck_statement(body, type_map)
        },
    }
}

fn typecheck_for_init(init: &Option<ForInit>, type_map: &mut TypeMap) -> (r: Result<(), Error>)
    ensures
        match r {
            Ok(()) => types::check_for_init(opt_init_view(*init), old(type_map)@) == Ok::<
                Symbols,
                ErrorView,
            >(final(type_map)@),
            Err(e) => types::check_for_init(opt_init_view(*init), old(type_map)@) == Err::<
                Symbols,
                ErrorView,
            >(e@),
        },
{
    match init {
        Some(ForInit::Expr(e)) => typecheck_expr(e, type_map),
        Some(ForInit::Decl(d)) => typecheck_var_declaration(d, type_map),
        None => Ok(()),
    }
}

fn typecheck_optional_expr(expr: &Option<Expr>, type_map: &TypeMap) -> (r: Result<(), Error>)
    ensures
        match r {
            Ok(()) => types::check_opt_expr(opt_expr_view(*expr), type_map@) == Ok::<
                (),
                ErrorView,
            >(()),
            Err(e) => types::check_opt_expr(opt_expr_view(*expr), type_map@) == Err::<
                (),
                ErrorView,
            >(e@),
        },
{
    if let Some(e) = expr {
        return typecheck_expr(e, type_map);
    }
    Ok(())
}

fn typecheck_var_declaration(decl: &VarDecl, type_map: &mut TypeMap) -> (r: Result<(), Error>)
    ensures
        match r {
            Ok(()) => types::check_var_decl(decl@, old(type_map)@) == Ok::<Symbols, ErrorView>(
                final(type_map)@,
            ),
            Err(e) => types::check_var_decl(decl@, old(type_map)@) == Err::<Symbols, ErrorView>(
                e@,
            ),
        },
{
    type_map.insert(
        clone_string(&decl.name),
        TypeInfo { decl_type: DeclType::Int, defined: false },
    );
    typecheck_optional_expr(&decl.init, type_map)
}

fn typecheck_expr(expr: &Expr, type_map: &TypeMap) -> (r: Result<(), Error>)
    ensures
        match r {
            Ok(()) => types::check_expr(expr@, type_map@) == Ok::<(), ErrorView>(()),
            Err(e) => types::check_expr(expr@, type_map@) == Err::<(), ErrorView>(e@),
        },
    decreases expr,
{
    reveal(types::check_expr);
    reveal(types::check_exprs);
    match expr {
        Expr::Assignment(left, right, line_number) => {
            if let Expr::Var(_, _) = &**left {
                typecheck_expr(left, type_map)?;
                typecheck_expr(right, type_map)
            } else {
                Err(semantic(*line_number, "Invalid lvalue"))
            }
        },
        Expr::Var(name, line_number) => {
            if let Some(t) = type_map.get(name) {
                if t.decl_type != DeclType::Int {
                    return Err(semantic(*line_number, "Function name used as variable"));
                }
            }
            Ok(())
        },
        Expr::BinaryOp(_, left, right) => {
            typecheck_expr(left, type_map)?;
            typecheck_expr(right, type_map)
        },
        Expr::Integer(_) => Ok(()),
        Expr::UnaryOp(_, inner) => typecheck_expr(inner, type_map),
        Expr::Conditional(condition, middle, right) => {
            typecheck_expr(condition, type_map)?;
            typecheck_expr(middle, type_map)?;
            typecheck_expr(right, type_map)
        },
        Expr::FunctionCall(name, args, line_number) => {
            if let Some(t) = type_map.get(name) {
                proof {
                    expr.lemma_call_view();
                }
                match t.decl_type {
                    DeclType::Int => {
                        return Err(semantic(*line_number, "Variable used as function name"));
                    },
                    DeclType::Func(num_args) => {
                        if num_args != args.len() {
                            return Err(
                                semantic(
                                    *line_number,
                                    "Function called with the wrong number of arguments",
                                ),
                            );
                        }
                    },
                }
                let ghost a = seq_view(args@);
                let mut i: usize = 0;
                proof {
                    assert(a.take(0) =~= Seq::empty());
                }
                while i < args.len()
                    invariant
                        i <= args.len(),
                        expr matches Expr::FunctionCall(_, x, _) && x == args,
                        a == seq_view(args@),
                        expr@ == ExprView::FunctionCall(name@, a, *line_number),
                        type_map@.contains_key(name@),
                        type_map@[name@].decl_type == DeclType::Func(args.len()),
                        types::check_exprs(a.take(i as int), type_map@) == Ok::<(), ErrorView>(()),
                    decreases args.len() - i,
                {
                    reveal(types::check_expr);
                    reveal(types::check_exprs);
                    proof {
                        lemma_take_step(a, i as int);
                        assert(a[i as int] == args@[i as int]@);
                    }
                    match typecheck_expr(&args[i], type_map) {
                        Ok(()) => {},
                        Err(e) => {
                            proof {
                                lemma_check_exprs_error(a, i as int + 1, type_map@);
                            }
                            return Err(e);
                        },
                    }
                    i += 1;
                }
                proof {
                    assert(a.take(i as int) =~= a);
                }
            }
            Ok(())
        },
    }
}

} // verus!
