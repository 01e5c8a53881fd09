//! Identifier resolution: every variable gets a unique name, and every use
//! is rewritten to the unique name of the declaration that is visible there.

use vstd::prelude::*;
use vstd::string::*;
use crate::error::{Error, ErrorType, ErrorView, error};
use crate::views::{seq_view, push_view, clone_string, clone_strings, lemma_take_step};
use crate::name_map::{NameMap, entries_map};
use crate::name_generator::uniquify_identifier;
use crate::parser::ast::{
    Program, FuncDecl, VarDecl, Block, BlockItem, Decl, ForInit, Stmt, Expr, ExprView, StmtView,
    BlockItemView, VarDeclView, ForInitView, FuncDeclView, ProgramView, opt_expr_view,
    opt_init_view, expr_targets_ok, opt_expr_targets_ok, var_decl_targets_ok, for_init_targets_ok,
    stmt_targets_ok, item_targets_ok, items_targets_ok, func_targets_ok, program_targets_ok,
};
use crate::validator::scopes;
use crate::validator::binding::{
    Names, within, expr_bound, opt_expr_bound, var_decl_bound, for_init_bound, names_after_init,
    stmt_bound, item_bound, items_bound, names_after_item, names_after_items, func_bound,
    names_after_params, names_after_funcs, program_bound,
};
use crate::validator::scopes::{Linkage, IdentifierInfoView, Scope};

verus! {

/// What a scope knows of a name.
#[derive(Debug)]
pub struct IdentifierInfo {
    pub unique_name: String,
    pub from_current_scope: bool,
    pub linkage: Linkage,
}

impl View for IdentifierInfo {
    type V = IdentifierInfoView;

    open spec fn view(&self) -> IdentifierInfoView {
        IdentifierInfoView {
            unique_name: self.unique_name@,
            from_current_scope: self.from_current_scope,
            linkage: self.linkage,
        }
    }
}

/// The names that are visible at a point of the program.
pub type IdentifierMap = NameMap<IdentifierInfo>;

/// Resolves the identifiers of a translation unit. Unique names are numbered
/// from `counter` on.
pub fn resolve_program(program: &Program, counter: &mut usize) -> (r: Result<Program, Error>)
    ensures
        r matches Ok(p) ==> program_bound(p@),
        r matches Ok(p) ==> program_targets_ok(p@),
        match r {
            Ok(p) => scopes::resolve(program@, *old(counter)) == Ok::<
                (ProgramView, usize),
                ErrorView,
            >((p@, *final(counter))),
            Err(e) => scopes::resolve(program@, *old(counter)) == Err::<
                (ProgramView, usize),
                ErrorView,
            >(e@),
        },
{
    reveal(scopes::resolve_funcs);
    let mut identifier_map: IdentifierMap = NameMap::new();
    let mut func_decls: Vec<FuncDecl> = Vec::new();
    let ghost decls = program@.func_decls;
    let ghost c0 = *counter;
    let mut i: usize = 0;
    proof {
        assert(decls.take(0) =~= Seq::empty());
        assert(seq_view(func_decls@) =~= Seq::empty());
    }
    while i < program.func_decls.len()
        invariant
            i <= program.func_decls.len(),
            decls == program@.func_decls,
            c0 == *old(counter),
            forall|k: int|
                0 <= k < func_decls.len() ==> func_targets_ok(#[trigger] seq_view(func_decls@)[k]),
            func_decls.len() == i,
            forall|k: int|
                0 <= k < i ==> func_bound(
                    #[trigger] seq_view(func_decls@)[k],
                    names_after_funcs(seq_view(func_decls@).take(k), Set::empty()),
                ),
            within(identifier_map@, names_after_funcs(seq_view(func_decls@), Set::empty())),
            scopes::resolve_funcs(decls.take(i as int), Map::empty(), c0) == Ok::<
                (Seq<FuncDeclView>, Scope, usize),
                ErrorView,
            >((seq_view(func_decls@), identifier_map@, *counter)),
        decreases program.func_decls.len() - i,
    {
        reveal(scopes::resolve_funcs);
        proof {
            lemma_take_step(decls, i as int);
            assert(decls[i as int] == program.func_decls@[i as int]@);
        }
        let ghost done = seq_view(func_decls@);
        let ghost seen = names_after_funcs(done, Set::empty());
        match resolve_func_declaration(&program.func_decls[i], &mut identifier_map, counter) {
            Ok(d) => {
                proof {
                    assert(within(identifier_map@, seen.insert(d@.name)));
                    assert(func_bound(d@, seen));
                }
                push_view(&mut func_decls, d);
                proof {
                    let all = seq_view(func_decls@);
                    assert(all.drop_last() =~= done);
                    assert forall|k: int| 0 <= k < i + 1 implies func_bound(
                        #[trigger] all[k],
                        names_after_funcs(all.take(k), Set::empty()),
                    ) by {
                        if k < i {
                            assert(all.take(k) =~= done.take(k));
                            assert(all[k] == done[k]);
                        } else {
                            assert(all.take(k) =~= done);
                        }
                    }
                }
            },
            Err(e) => {
                proof {
                    lemma_funcs_error(decls, i as int + 1, Map::empty(), c0);
                }
                return Err(e);
            },
        }
        i += 1;
    }
    proof {
        assert(decls.take(i as int) =~= decls);
    }
    Ok(Program { func_decls })
}

/// An error in a prefix of the declarations is the error of the whole.
pub proof fn lemma_funcs_error(decls: Seq<FuncDeclView>, n: int, m: Scope, c: usize)
    requires
        0 <= n <= decls.len(),
        scopes::resolve_funcs(decls.take(n), m, c) is Err,
    ensures
        scopes::resolve_funcs(decls, m, c) == scopes::resolve_funcs(decls.take(n), m, c),
    decreases decls.len() - n,
{
    reveal(scopes::resolve_funcs);
    if n < decls.len() {
        lemma_take_step(decls, n);
        lemma_funcs_error(decls, n + 1, m, c);
    } else {
        assert(decls.take(n) =~= decls);
    }
}

/// An error in a prefix of the items is the error of the whole.
pub proof fn lemma_items_error(items: Seq<BlockItemView>, n: int, m: Scope, c: usize)
    requires
        0 <= n <= items.len(),
        scopes::resolve_items(items.take(n), m, c) is Err,
    ensures
        scopes::resolve_items(items, m, c) == scopes::resolve_items(items.take(n), m, c),
    decreases items.len() - n,
{
    reveal(scopes::resolve_items);
    if n < items.len() {
        lemma_take_step(items, n);
        lemma_items_error(items, n + 1, m, c);
    } else {
        assert(items.take(n) =~= items);
    }
}

/// An error in a prefix of the expressions is the error of the whole.
pub proof fn lemma_exprs_error(es: Seq<ExprView>, n: int, m: Scope)
    requires
        0 <= n <= es.len(),
        scopes::resolve_exprs(es.take(n), m) is Err,
    ensures
        scopes::resolve_exprs(es, m) == scopes::resolve_exprs(es.take(n), m),
    decreases es.len() - n,
{
    reveal(scopes::resolve_exprs);
    if n < es.len() {
        lemma_take_step(es, n);
        lemma_exprs_error(es, n + 1, m);
    } else {
        assert(es.take(n) =~= es);
    }
}

/// An error in a prefix of the parameters is the error of the whole.
pub proof fn lemma_params_error(params: Seq<Seq<char>>, n: int, line: usize, m: Scope, c: usize)
    requires
        0 <= n <= params.len(),
        scopes::resolve_params(params.take(n), line, m, c) is Err,
    ensures
        scopes::resolve_params(params, line, m, c) == scopes::resolve_params(
            params.take(n),
            line,
            m,
            c,
        ),
    decreases params.len() - n,
{
    reveal(scopes::resolve_params);
    if n < params.len() {
        lemma_take_step(params, n);
        lemma_params_error(params, n + 1, line, m, c);
    } else {
        assert(params.take(n) =~= params);
    }
}

fn resolve_func_declaration(
    decl: &FuncDecl,
    identifier_map: &mut IdentifierMap,
    counter: &mut usize,
) -> (r: Result<FuncDecl, Error>)
    ensures
        r matches Ok(d) ==> forall|s: Names| #[trigger]
            within(old(identifier_map)@, s) ==> func_bound(d@, s) && within(
                final(identifier_map)@,
                s.insert(d@.name),
            ),
        r matches Ok(d) ==> func_targets_ok(d@),
        match r {
            Ok(d) => scopes::resolve_func_decl(decl@, old(identifier_map)@, *old(counter)) == Ok::<
                (FuncDeclView, Scope, usize),
                ErrorView,
            >((d@, final(identifier_map)@, *final(counter))),
            Err(e) => scopes::resolve_func_decl(decl@, old(identifier_map)@, *old(counter))
                == Err::<(FuncDeclView, Scope, usize), ErrorView>(e@),
        },
    decreases decl,
{
    reveal(scopes::resolve_stmt);
    reveal(scopes::resolve_item);
    reveal(scopes::resolve_items);
    reveal(scopes::resolve_func_decl);
    reveal(scopes::resolve_params);
    if let Some(prev_decl) = identifier_map.get(&decl.name) {
        if prev_decl.from_current_scope && prev_decl.linkage != Linkage::External {
            let mut msg = String::from_str("\"");
            msg.append(decl.name.as_str());
            msg.append("\" already declared.");
            return Err(error(decl.line_number, msg, ErrorType::SemanticError));
        }
    }
    identifier_map.insert(
        clone_string(&decl.name),
        IdentifierInfo {
            unique_name: clone_string(&decl.name),
            from_current_scope: true,
            linkage: Linkage::External,
        },
    );
    match &decl.body {
        None => Ok(
            FuncDecl {
                name: clone_string(&decl.name),
                params: clone_strings(&decl.params),
                body: None,
                line_number: decl.line_number,
            },
        ),
        Some(body) => {
            let mut inner_map = copy_identifier_map(identifier_map);
            let ghost inner0 = inner_map@;
            let ghost c0 = *counter;
            let ghost ps = seq_view(decl.params@);
            let mut params: Vec<String> = Vec::new();
            let mut i: usize = 0;
            proof {
                assert(ps.take(0) =~= Seq::empty());
                assert(seq_view(params@) =~= Seq::empty());
            }
            while i < decl.params.len()
                invariant
                    i <= decl.params.len(),
                    ps == seq_view(decl.params@),
                    ps == decl@.params,
                    decl@.body is Some,
                    !scopes::function_clashes(old(identifier_map)@, decl@.name),
                    inner0 == scopes::enter_scope(
                        scopes::bind_function(old(identifier_map)@, decl@.name),
                    ),
                    c0 == *old(counter),
                    identifier_map@ == scopes::bind_function(old(identifier_map)@, decl@.name),
                    forall|s: Names| #[trigger]
                        within(old(identifier_map)@, s) ==> within(
                            inner_map@,
                            names_after_params(seq_view(params@), s.insert(decl@.name)),
                        ),
                    scopes::resolve_params(ps.take(i as int), decl.line_number, inner0, c0) == Ok::<
                        (Seq<Seq<char>>, Scope, usize),
                        ErrorView,
                    >((seq_view(params@), inner_map@, *counter)),
                decreases decl.params.len() - i,
            {
                reveal(scopes::resolve_params);
                reveal(scopes::resolve_func_decl);
                proof {
                    lemma_take_step(ps, i as int);
                }
                let ghost done = seq_view(params@);
                let ghost before = inner_map@;
                match resolve_local_var(
                    &decl.params[i],
                    decl.line_number,
                    &mut inner_map,
                    counter,
                ) {
                    Ok(p) => {
                        let ghost unique = p@;
                        push_view(&mut params, p);
                        proof {
                            let all = seq_view(params@);
                            assert(all.drop_last() =~= done);
                            assert(all.last() == unique);
                            assert forall|s: Names| #[trigger]
                                within(old(identifier_map)@, s) implies within(
                                inner_map@,
                                names_after_params(all, s.insert(decl@.name)),
                            ) by {
                                let seen = names_after_params(done, s.insert(decl@.name));
                                assert(within(before, seen));
                            }
                        }
                    },
                    Err(e) => {
                        proof {
                            lemma_params_error(ps, i as int + 1, decl.line_number, inner0, c0);
                        }
                        return Err(e);
                    },
                }
                i += 1;
            }
            proof {
                assert(ps.take(i as int) =~= ps);
            }
            let block = resolve_block(body, &mut inner_map, counter)?;
            Ok(
                FuncDecl {
                    name: clone_string(&decl.name),
                    params,
                    body: Some(block),
                    line_number: decl.line_number,
                },
            )
        },
    }
}

fn resolve_block(block: &Block, identifier_map: &mut IdentifierMap, counter: &mut usize) -> (r:
    Result<Block, Error>)
    ensures
        r matches Ok(b) ==> forall|s: Names| #[trigger]
            within(old(identifier_map)@, s) ==> items_bound(b@.items, s),
        r matches Ok(b) ==> items_targets_ok(b@.items),
        match r {
            Ok(b) => scopes::resolve_items(block@.items, old(identifier_map)@, *old(counter))
                == Ok::<(Seq<BlockItemView>, Scope, usize), ErrorView>(
                (b@.items, final(identifier_map)@, *final(counter)),
            ),
            Err(e) => scopes::resolve_items(block@.items, old(identifier_map)@, *old(counter))
                == Err::<(Seq<BlockItemView>, Scope, usize), ErrorView>(e@),
        },
    decreases block,
{
    reveal(scopes::resolve_stmt);
    reveal(scopes::resolve_item);
    reveal(scopes::resolve_items);
    reveal(scopes::resolve_func_decl);
    let ghost items = block@.items;
    let ghost m0 = identifier_map@;
    let ghost c0 = *counter;
    let mut resolved: Vec<BlockItem> = Vec::new();
    let mut i: usize = 0;
    proof {
        block.lemma_items_view();
        assert(items.take(0) =~= Seq::empty());
        assert(seq_view(resolved@) =~= Seq::empty());
    }
    while i < block.items.len()
        invariant
            i <= block.items.len(),
            items == block@.items,
            items == seq_view(block.items@),
            m0 == old(identifier_map)@,
            c0 == *old(counter),
            forall|k: int|
                0 <= k < resolved.len() ==> item_targets_ok(#[trigger] seq_view(resolved@)[k]),
            resolved.len() == i,
            forall|s: Names| #[trigger]
                within(m0, s) ==> within(
                    identifier_map@,
                    names_after_items(seq_view(resolved@), s),
                ) && forall|k: int|
                    0 <= k < i ==> item_bound(
                        #[trigger] seq_view(resolved@)[k],
                        names_after_items(seq_view(resolved@).take(k), s),
                    ),
            scopes::resolve_items(items.take(i as int), m0, c0) == Ok::<
                (Seq<BlockItemView>, Scope, usize),
                ErrorView,
            >((seq_view(resolved@), identifier_map@, *counter)),
        decreases block.items.len() - i,
    {
        reveal(scopes::resolve_stmt);
        reveal(scopes::resolve_item);
        reveal(scopes::resolve_items);
        reveal(scopes::resolve_func_decl);
        proof {
            lemma_take_step(items, i as int);
            assert(items[i as int] == block.items@[i as int]@);
        }
        let ghost done = seq_view(resolved@);
        let ghost before = identifier_map@;
        match resolve_block_item(&block.items[i], identifier_map, counter) {
            Ok(item) => {
                let ghost it = item@;
                push_view(&mut resolved, item);
                proof {
                    let all = seq_view(resolved@);
                    assert(all.drop_last() =~= done);
                    assert(all.last() == it);
                    assert forall|s: Names| #[trigger] within(m0, s) implies within(
                        identifier_map@,
                        names_after_items(all, s),
                    ) && forall|k: int|
                        0 <= k < i + 1 ==> item_bound(
                            #[trigger] all[k],
                            names_after_items(all.take(k), s),
                        ) by {
                        let seen = names_after_items(done, s);
                        assert(within(before, seen));
                        assert(item_bound(it, seen));
                        assert(within(identifier_map@, names_after_item(it, seen)));
                        assert forall|k: int| 0 <= k < i + 1 implies item_bound(
                            #[trigger] all[k],
                            names_after_items(all.take(k), s),
                        ) by {
                            if k < i {
                                assert(all.take(k) =~= done.take(k));
                                assert(all[k] == done[k]);
                            } else {
                                assert(all.take(k) =~= done);
                            }
                        }
                    }
                }
            },
            Err(e) => {
                proof {
                    lemma_items_error(items, i as int + 1, m0, c0);
                }
                return Err(e);
            },
        }
        i += 1;
    }
    let b = Block { items: resolved };
    proof {
        assert(items.take(i as int) =~= items);
        b.lemma_items_view();
    }
    Ok(b)
}

fn resolve_block_item(item: &BlockItem, identifier_map: &mut IdentifierMap, counter: &mut usize)
    -> (r: Result<BlockItem, Error>)
    ensures
        r matches Ok(i) ==> forall|s: Names| #[trigger]
            within(old(identifier_map)@, s) ==> item_bound(i@, s) && within(
                final(identifier_map)@,
                names_after_item(i@, s),
            ),
        r matches Ok(i) ==> item_targets_ok(i@),
        match r {
            Ok(i) => scopes::resolve_item(item@, old(identifier_map)@, *old(counter)) == Ok::<
                (BlockItemView, Scope, usize),
                ErrorView,
            >((i@, final(identifier_map)@, *final(counter))),
            Err(e) => scopes::resolve_item(item@, old(identifier_map)@, *old(counter)) == Err::<
                (BlockItemView, Scope, usize),
                ErrorView,
            >(e@),
        },
    decreases item,
{
    reveal(scopes::resolve_stmt);
    reveal(scopes::resolve_item);
    reveal(scopes::resolve_items);
    reveal(scopes::resolve_func_decl);
    match item {
        BlockItem::Stmt(stmt) => {
            Ok(BlockItem::Stmt(resolve_statement(stmt, identifier_map, counter)?))
        },
        BlockItem::Decl(decl) => {
            match decl {
                Decl::VarDecl(decl) => {
                    match resolve_var_declaration(decl, identifier_map, counter) {
                        Ok(d) => Ok(BlockItem::Decl(Decl::VarDecl(d))),
                        Err(e) => Err(e),
                    }
                },
                Decl::FuncDecl(decl) => {
                    match resolve_func_declaration(decl, identifier_map, counter) {
                        Ok(d) => Ok(BlockItem::Decl(Decl::FuncDecl(d))),
                        Err(e) => Err(e),
                    }
                },
            }
        },
    }
}

#[verifier::rlimit(60)]
fn resolve_statement(stmt: &Stmt, identifier_map: &IdentifierMap, counter: &mut usize) -> (r:
    Result<Stmt, Error>)
    ensures
        r matches Ok(out) ==> forall|s: Names| #[trigger]
            within(identifier_map@, s) ==> stmt_bound(out@, s),
        r matches Ok(s) ==> stmt_targets_ok(s@),
        match r {
            Ok(s) => scopes::resolve_stmt(stmt@, identifier_map@, *old(counter)) == Ok::<
                (StmtView, usize),
                ErrorView,
            >((s@, *final(counter))),
            Err(e) => scopes::resolve_stmt(stmt@, identifier_map@, *old(counter)) == Err::<
                (StmtView, usize),
                ErrorView,
            >(e@),
        },
    decreases stmt,
{
    reveal(scopes::resolve_stmt);
    reveal(scopes::resolve_item);
    reveal(scopes::resolve_items);
    reveal(scopes::resolve_func_decl);
    match stmt {
        Stmt::Expression(e) => {
            Ok(Stmt::Expression(resolve_expr(e, identifier_map)?))
        },
        Stmt::Return(e) => {
            Ok(Stmt::Return(resolve_expr(e, identifier_map)?))
        },
        Stmt::Null => Ok(Stmt::Null),
        Stmt::If(expr, then_stmt, else_stmt) => {
            let else_stmt = match else_stmt {
                Some(else_stmt) => {
                    Some(Box::new(resolve_statement(else_stmt, identifier_map, counter)?))
                },
                None => None,
            };
            let expr = resolve_expr(expr, identifier_map)?;
            let then_stmt = resolve_statement(then_stmt, identifier_map, counter)?;
            Ok(Stmt::If(expr, Box::new(then_stmt), else_stmt))
        },
        Stmt::Compound(block) => {
            let mut new_variable_map = copy_identifier_map(identifier_map);
            Ok(Stmt::Compound(resolve_block(block, &mut new_variable_map, counter)?))
        },
        Stmt::Break(label, line) => Ok(Stmt::Break(clone_string(label), *line)),
        Stmt::Continue(label, line) => Ok(Stmt::Continue(clone_string(label), *line)),
        Stmt::While(condition, body, label) => {
            let condition = resolve_expr(condition, identifier_map)?;
            let body = resolve_statement(body, identifier_map, counter)?;
            Ok(Stmt::While(condition, Box::new(body), clone_string(label)))
        },
        Stmt::DoWhile(body, condition, label) => {
            let body = resolve_statement(body, identifier_map, counter)?;
            let condition = resolve_expr(condition, identifier_map)?;
            Ok(Stmt::DoWhile(Box::new(body), condition, clone_string(label)))
        },
        Stmt::For(init, condition, post, body, label) => {
            let mut new_variable_map = copy_identifier_map(identifier_map);
            let init = resolve_for_init(init, &mut new_variable_map, counter)?;
            let condition = resolve_optional_expr(condition, &new_variable_map)?;
            let post = resolve_optional_expr(post, &new_variable_map)?;
            let body = resolve_statement(body, &new_variable_map, counter)?;
            Ok(Stmt::For(init, condition, post, Box::new(body), clone_string(label)))
        },
    }
}

fn resolve_for_init(
    init: &Option<ForInit>,
    identifier_map: &mut IdentifierMap,
    counter: &mut usize,
) -> (r: Result<Option<ForInit>, Error>)
    ensures
        r matches Ok(i) ==> forall|s: Names| #[trigger]
            within(old(identifier_map)@, s) ==> for_init_bound(opt_init_view(i), s) && within(
                final(identifier_map)@,
                names_after_init(opt_init_view(i), s),
            ),
        r matches Ok(i) ==> for_init_targets_ok(opt_init_view(i)),
        match r {
            Ok(i) => scopes::resolve_for_init(
                opt_init_view(*init),
                old(identifier_map)@,
                *old(counter),
            ) == Ok::<(Option<ForInitView>, Scope, usize), ErrorView>(
                (opt_init_view(i), final(identifier_map)@, *final(counter)),
            ),
            Err(e) => scopes::resolve_for_init(
                opt_init_view(*init),
                old(identifier_map)@,
                *old(counter),
            ) == Err::<(Option<ForInitView>, Scope, usize), ErrorView>(e@),
        },
{
    match init {
        Some(ForInit::Expr(e)) => {
            Ok(Some(ForInit::Expr(resolve_expr(e, identifier_map)?)))
        },
        Some(ForInit::Decl(d)) => {
            Ok(Some(ForInit::Decl(resolve_var_declaration(d, identifier_map, counter)?)))
        },
        None => Ok(None),
    }
}

fn resolve_optional_expr(expr: &Option<Expr>, identifier_map: &IdentifierMap) -> (r: Result<
    Option<Expr>,
    Error,
>)
    ensures
        r matches Ok(e) ==> forall|s: Names| #[trigger]
            within(identifier_map@, s) ==> opt_expr_bound(opt_expr_view(e), s),
        r matches Ok(e) ==> opt_expr_targets_ok(opt_expr_view(e)),
        match r {
            Ok(e) => scopes::resolve_opt_expr(opt_expr_view(*expr), identifier_map@) == Ok::<
                Option<ExprView>,
                ErrorView,
            >(opt_expr_view(e)),
            Err(e) => scopes::resolve_opt_expr(opt_expr_view(*expr), identifier_map@) == Err::<
                Option<ExprView>,
                ErrorView,
            >(e@),
        },
{
    match expr {
        Some(e) => {
            Ok(Some(resolve_expr(e, identifier_map)?))
        },
        None => Ok(None),
    }
}

fn resolve_local_var(
    name: &String,
    line_number: usize,
    identifier_map: &mut IdentifierMap,
    counter: &mut usize,
) -> (r: Result<String, Error>)
    ensures
        r matches Ok(unique) ==> forall|s: Names| #[trigger]
            within(old(identifier_map)@, s) ==> within(
                final(identifier_map)@,
                s.insert(unique@),
            ),
        match r {
            Ok(unique) => scopes::declare_local(
                name@,
                line_number,
                old(identifier_map)@,
                *old(counter),
            ) == Ok::<(Seq<char>, Scope, usize), ErrorView>(
                (unique@, final(identifier_map)@, *final(counter)),
            ),
            Err(e) => scopes::declare_local(
                name@,
                line_number,
                old(identifier_map)@,
                *old(counter),
            ) == Err::<(Seq<char>, Scope, usize), ErrorView>(e@),
        },
{
    if let Some(info) = identifier_map.get(name) {
        if info.from_current_scope && info.linkage == Linkage::NoLinkage {
            let mut msg = String::from_str("\"");
            msg.append(name.as_str());
            msg.append("\" already declared.");
            return Err(error(line_number, msg, ErrorType::SemanticError));
        }
    }
    let unique_name = uniquify_identifier(name, counter);
    identifier_map.insert(
        clone_string(name),
        IdentifierInfo {
            unique_name: clone_string(&unique_name),
            from_current_scope: true,
            linkage: Linkage::NoLinkage,
        },
    );
    Ok(unique_name)
}

fn resolve_var_declaration(
    decl: &VarDecl,
    identifier_map: &mut IdentifierMap,
    counter: &mut usize,
) -> (r: Result<VarDecl, Error>)
    ensures
        r matches Ok(d) ==> forall|s: Names| #[trigger]
            within(old(identifier_map)@, s) ==> var_decl_bound(d@, s) && within(
                final(identifier_map)@,
                s.insert(d@.name),
            ),
        r matches Ok(d) ==> var_decl_targets_ok(d@),
        match r {
            Ok(d) => scopes::resolve_var_decl(decl@, old(identifier_map)@, *old(counter)) == Ok::<
                (VarDeclView, Scope, usize),
                ErrorView,
            >((d@, final(identifier_map)@, *final(counter))),
            Err(e) => scopes::resolve_var_decl(decl@, old(identifier_map)@, *old(counter))
                == Err::<(VarDeclView, Scope, usize), ErrorView>(e@),
        },
{
    let name = resolve_local_var(&decl.name, decl.line, identifier_map, counter)?;
    let init = resolve_optional_expr(&decl.init, identifier_map)?;
    Ok(VarDecl { name, init, line: decl.line })
}

fn resolve_expr(expr: &Expr, identifier_map: &IdentifierMap) -> (r: Result<Expr, Error>)
    ensures
        r matches Ok(e) ==> forall|s: Names| #[trigger]
            within(identifier_map@, s) ==> expr_bound(e@, s),
        r matches Ok(e) ==> expr_targets_ok(e@),
        match r {
            Ok(e) => scopes::resolve_expr(expr@, identifier_map@) == Ok::<ExprView, ErrorView>(e@),
            Err(e) => scopes::resolve_expr(expr@, identifier_map@) == Err::<ExprView, ErrorView>(
                e@,
            ),
        },
    decreases expr,
{
    reveal(scopes::resolve_expr);
    reveal(scopes::resolve_exprs);
    match expr {
        Expr::Assignment(left, right, line_number) => {
            if let Expr::Var(_, _) = &**left {
                let left = resolve_expr(left, identifier_map)?;
                let right = resolve_expr(right, identifier_map)?;
                Ok(Expr::Assignment(Box::new(left), Box::new(right), *line_number))
            } else {
                Err(
                    error(
                        *line_number,
                        String::from_str("Invalid lvalue"),
                        ErrorType::SemanticError,
                    ),
                )
            }
        },
        Expr::Var(name, line_number) => {
            if let Some(info) = identifier_map.get(name) {
                Ok(Expr::Var(clone_string(&info.unique_name), *line_number))
            } else {
                let mut msg = String::from_str("Undeclared variable ");
                msg.append(name.as_str());
                Err(error(*line_number, msg, ErrorType::SemanticError))
            }
        },
        Expr::BinaryOp(op, left, right) => {
            let left = resolve_expr(left, identifier_map)?;
            let right = resolve_expr(right, identifier_map)?;
            Ok(Expr::BinaryOp(*op, Box::new(left), Box::new(right)))
        },
        Expr::Integer(i) => Ok(Expr::Integer(*i)),
        Expr::UnaryOp(op, inner) => {
            Ok(Expr::UnaryOp(*op, Box::new(resolve_expr(inner, identifier_map)?)))
        },
        Expr::Conditional(condition, middle, right) => {
            let condition = resolve_expr(condition, identifier_map)?;
            let middle = resolve_expr(middle, identifier_map)?;
            let right = resolve_expr(right, identifier_map)?;
            Ok(Expr::Conditional(Box::new(condition), Box::new(middle), Box::new(right)))
        },
        Expr::FunctionCall(name, args, line_number) => {
            if let Some(id_info) = identifier_map.get(name) {
                let ghost a = seq_view(args@);
                let mut resolved: Vec<Expr> = Vec::new();
                let mut i: usize = 0;
                proof {
                    expr.lemma_call_view();
                    assert(a.take(0) =~= Seq::empty());
                    assert(seq_view(resolved@) =~= Seq::empty());
                }
                while i < args.len()
                    invariant
                        i <= args.len(),
                        expr matches Expr::FunctionCall(_, x, _) && x == args,
                        a == seq_view(args@),
                        expr@ == ExprView::FunctionCall(name@, a, *line_number),
                        identifier_map@.contains_key(name@),
                        forall|k: int|
                            0 <= k < resolved.len() ==> expr_targets_ok(
                                #[trigger] seq_view(resolved@)[k],
                            ),
                        forall|s: Names| #[trigger]
                            within(identifier_map@, s) ==> forall|k: int|
                                0 <= k < resolved.len() ==> expr_bound(
                                    #[trigger] seq_view(resolved@)[k],
                                    s,
                                ),
                        scopes::resolve_exprs(a.take(i as int), identifier_map@) == Ok::<
                            Seq<ExprView>,
                            ErrorView,
                        >(seq_view(resolved@)),
                    decreases args.len() - i,
                {
                    reveal(scopes::resolve_expr);
                    reveal(scopes::resolve_exprs);
                    proof {
                        lemma_take_step(a, i as int);
                        assert(a[i as int] == args@[i as int]@);
                    }
                    match resolve_expr(&args[i], identifier_map) {
                        Ok(e) => {
                            push_view(&mut resolved, e);
                        },
                        Err(e) => {
                            proof {
                                lemma_exprs_error(a, i as int + 1, identifier_map@);
                            }
                            return Err(e);
                        },
                    }
                    i += 1;
                }
                let call = Expr::FunctionCall(
                    clone_string(&id_info.unique_name),
                    resolved,
                    *line_number,
                );
                proof {
                    assert(a.take(i as int) =~= a);
                    call.lemma_call_view();
                }
                Ok(call)
            } else {
                let mut msg = String::from_str("Undeclared function ");
                msg.append(name.as_str());
                Err(error(*line_number, msg, ErrorType::SemanticError))
            }
        },
    }
}

/// The map inside a new block: the same bindings, none of which counts as
/// declared in the new block.
fn copy_identifier_map(map: &IdentifierMap) -> (new_map: IdentifierMap)
    ensures
        forall|s: Names| #[trigger] within(map@, s) ==> within(new_map@, s),
        new_map@ == scopes::enter_scope(map@),
{
    let mut new_map: IdentifierMap = NameMap::new();
    let mut i: usize = 0;
    let ghost entries = map.entries@;
    proof {
        assert(entries.take(0) =~= Seq::empty());
        assert(new_map@ =~= scopes::enter_scope(entries_map(entries.take(0))));
    }
    while i < map.entries.len()
        invariant
            i <= map.entries.len(),
            entries == map.entries@,
            new_map@ == scopes::enter_scope(entries_map(entries.take(i as int))),
        decreases map.entries.len() - i,
    {
        let entry = &map.entries[i];
        let ghost before = entries_map(entries.take(i as int));
        proof {
            lemma_take_step(entries, i as int);
        }
        new_map.insert(
            clone_string(&entry.0),
            IdentifierInfo {
                unique_name: clone_string(&entry.1.unique_name),
                from_current_scope: false,
                linkage: entry.1.linkage,
            },
        );
        proof {
            assert(new_map@ =~= scopes::enter_scope(before.insert(entry.0@, entry.1@)));
        }
        i += 1;
    }
    proof {
        assert(entries.take(i as int) =~= entries);
    }
    new_map
}

} // verus!
