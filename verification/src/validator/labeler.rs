//! Loop labelling: every loop gets a fresh label, and every `break` and
//! `continue` gets the label of the loop it belongs to.

use vstd::prelude::*;
use vstd::string::*;
use crate::error::{Error, ErrorType, ErrorView, error};
use crate::views::{seq_view, push_view, clone_string, clone_strings, lemma_take_step};
use crate::name_generator::gen_label;
use crate::parser::ast::{
    Program, FuncDecl, Block, BlockItem, Decl, Stmt, StmtView, BlockItemView, FuncDeclView,
    ProgramView, clone_expr, clone_opt_expr, clone_for_init, clone_var_decl, clone_func_decl,
    opt_name_view, opt_init_view, stmt_targets_ok, item_targets_ok, items_targets_ok, func_targets_ok,
    program_targets_ok,
};
use crate::validator::labels;
use crate::validator::binding::{
    Names, stmt_bound, item_bound, items_bound, declared_name, names_after_items, func_bound,
    names_after_funcs, program_bound, lemma_same_declarations, lemma_same_functions,
};

verus! {

/// The two lists of block items declare the same names in the same places.
pub open spec fn same_declarations(a: Seq<BlockItemView>, b: Seq<BlockItemView>) -> bool {
    a.len() == b.len() && forall|k: int|
        0 <= k < a.len() ==> declared_name(#[trigger] a[k]) == declared_name(b[k])
}

/// Labels the loops of a translation unit. Labels are numbered from
/// `counter` on.
pub fn label_program(program: &Program, counter: &mut usize) -> (r: Result<Program, Error>)
    ensures
        r matches Ok(p) ==> labels::program_labelled(p@),
        program_bound(program@) ==> (r matches Ok(p) ==> program_bound(p@)),
        program_targets_ok(program@) ==> (r matches Ok(p) ==> program_targets_ok(p@)),
        match r {
            Ok(p) => labels::label(program@, *old(counter)) == Ok::<
                (ProgramView, usize),
                ErrorView,
            >((p@, *final(counter))),
            Err(e) => labels::label(program@, *old(counter)) == Err::<
                (ProgramView, usize),
                ErrorView,
            >(e@),
        },
{
    reveal(labels::label_funcs);
    let mut func_decls: Vec<FuncDecl> = Vec::new();
    let ghost decls = program@.func_decls;
    let ghost c0 = *counter;
    let mut i: usize = 0;
    proof {
        assert(decls.take(0) =~= Seq::empty());
        assert(seq_view(func_decls@) =~= Seq::empty());
    }
    while i < program.func_decls.len()
        invariant
            i <= program.func_decls.len(),
            decls == program@.func_decls,
            c0 == *old(counter),
            program_targets_ok(program@) ==> forall|k: int|
                0 <= k < func_decls.len() ==> func_targets_ok(#[trigger] seq_view(func_decls@)[k]),
            func_decls.len() == i,
            forall|k: int| 0 <= k < i ==> labels::func_labelled(#[trigger] seq_view(func_decls@)[k]),
            forall|k: int| 0 <= k < i ==> (#[trigger] seq_view(func_decls@)[k]).name == decls[k].name,
            forall|k: int, s: Names|
                0 <= k < i && #[trigger] func_bound(decls[k], s) ==> func_bound(
                    seq_view(func_decls@)[k],
                    s,
                ),
            labels::label_funcs(decls.take(i as int), c0) == Ok::<
                (Seq<FuncDeclView>, usize),
                ErrorView,
            >((seq_view(func_decls@), *counter)),
        decreases program.func_decls.len() - i,
    {
        reveal(labels::label_funcs);
        proof {
            lemma_take_step(decls, i as int);
            assert(decls[i as int] == program.func_decls@[i as int]@);
        }
        match label_func_declaration(&program.func_decls[i], counter) {
            Ok(d) => {
                push_view(&mut func_decls, d);
            },
            Err(e) => {
                proof {
                    lemma_label_funcs_error(decls, i as int + 1, c0);
                }
                return Err(e);
            },
        }
        i += 1;
    }
    let p = Program { func_decls };
    proof {
        assert(decls.take(i as int) =~= decls);
        if program_bound(program@) {
            let out = p@.func_decls;
            assert forall|k: int| 0 <= k < out.len() implies func_bound(
                #[trigger] out[k],
                names_after_funcs(out.take(k), Set::empty()),
            ) by {
                lemma_same_functions(decls.take(k), out.take(k), Set::empty());
                assert(func_bound(decls[k], names_after_funcs(decls.take(k), Set::empty())));
            }
        }
    }
    Ok(p)
}

/// An error in a prefix of the functions is the error of the whole.
pub proof fn lemma_label_funcs_error(decls: Seq<FuncDeclView>, n: int, c: usize)
    requires
        0 <= n <= decls.len(),
        labels::label_funcs(decls.take(n), c) is Err,
    ensures
        labels::label_funcs(decls, c) == labels::label_funcs(decls.take(n), c),
    decreases decls.len() - n,
{
    reveal(labels::label_funcs);
    if n < decls.len() {
        lemma_take_step(decls, n);
        lemma_label_funcs_error(decls, n + 1, c);
    } else {
        assert(decls.take(n) =~= decls);
    }
}

/// An error in a prefix of the items is the error of the whole.
pub proof fn lemma_label_items_error(
    items: Seq<BlockItemView>,
    n: int,
    current: Option<Seq<char>>,
    c: usize,
)
    requires
        0 <= n <= items.len(),
        labels::label_items(items.take(n), current, c) is Err,
    ensures
        labels::label_items(items, current, c) == labels::label_items(items.take(n), current, c),
    decreases items.len() - n,
{
    reveal(labels::label_items);
    if n < items.len() {
        lemma_take_step(items, n);
        lemma_label_items_error(items, n + 1, current, c);
    } else {
        assert(items.take(n) =~= items);
    }
}

fn label_func_declaration(decl: &FuncDecl, counter: &mut usize) -> (r: Result<FuncDecl, Error>)
    ensures
        r matches Ok(d) ==> labels::func_labelled(d@),
        r matches Ok(d) ==> d@.name == decl@.name && d@.params == decl@.params && forall|
            s: Names,
        | #[trigger] func_bound(decl@, s) ==> func_bound(d@, s),
        func_targets_ok(decl@) ==> (r matches Ok(d) ==> func_targets_ok(d@)),
        match r {
            Ok(d) => labels::label_func(decl@, *old(counter)) == Ok::<
                (FuncDeclView, usize),
                ErrorView,
            >((d@, *final(counter))),
            Err(e) => labels::label_func(decl@, *old(counter)) == Err::<
                (FuncDeclView, usize),
                ErrorView,
            >(e@),
        },
{
    match &decl.body {
        Some(body) => {
            let block = label_block(body, &None, counter)?;
            let ghost labelled = block@.items;
            let out = FuncDecl {
                name: clone_string(&decl.name),
                params: clone_strings(&decl.params),
                body: Some(block),
                line_number: decl.line_number,
            };
            proof {
                assert forall|s: Names| #[trigger] func_bound(decl@, s) implies func_bound(
                    out@,
                    s,
                ) by {
                    let seen = crate::validator::binding::names_after_params(
                        decl@.params,
                        s.insert(decl@.name),
                    );
                    assert(items_bound(body@.items, seen));
                    assert(items_bound(labelled, seen));
                }
            }
            Ok(out)
        },
        None => {
            let out = clone_func_decl(decl);
            proof {
                assert(out@ == decl@);
            }
            Ok(out)
        },
    }
}

fn label_block(block: &Block, loop_label: &Option<String>, counter: &mut usize) -> (r: Result<
    Block,
    Error,
>)
    ensures
        r matches Ok(b) ==> labels::items_labelled(b@.items, opt_name_view(*loop_label)),
        r matches Ok(b) ==> same_declarations(block@.items, b@.items) && forall|s: Names|
             #[trigger] items_bound(block@.items, s) ==> items_bound(b@.items, s),
        items_targets_ok(block@.items) ==> (r matches Ok(b) ==> items_targets_ok(b@.items)),
        match r {
            Ok(b) => labels::label_items(
                block@.items,
                opt_name_view(*loop_label),
                *old(counter),
            ) == Ok::<(Seq<BlockItemView>, usize), ErrorView>((b@.items, *final(counter))),
            Err(e) => labels::label_items(
                block@.items,
                opt_name_view(*loop_label),
                *old(counter),
            ) == Err::<(Seq<BlockItemView>, usize), ErrorView>(e@),
        },
    decreases block,
{
    reveal(labels::label_stmt);
    reveal(labels::label_item);
    reveal(labels::label_items);
    let ghost items = block@.items;
    let ghost current = opt_name_view(*loop_label);
    let ghost c0 = *counter;
    let mut labelled: Vec<BlockItem> = Vec::new();
    let mut i: usize = 0;
    proof {
        block.lemma_items_view();
        assert(items.take(0) =~= Seq::empty());
        assert(seq_view(labelled@) =~= Seq::empty());
    }
    while i < block.items.len()
        invariant
            i <= block.items.len(),
            items == block@.items,
            items == seq_view(block.items@),
            current == opt_name_view(*loop_label),
            c0 == *old(counter),
            items_targets_ok(items) ==> forall|k: int|
                0 <= k < labelled.len() ==> item_targets_ok(#[trigger] seq_view(labelled@)[k]),
            labelled.len() == i,
            forall|k: int|
                0 <= k < i ==> labels::item_labelled(#[trigger] seq_view(labelled@)[k], current),
            forall|k: int|
                0 <= k < i ==> declared_name(#[trigger] seq_view(labelled@)[k]) == declared_name(
                    items[k],
                ),
            forall|k: int, s: Names|
                0 <= k < i && #[trigger] item_bound(items[k], s) ==> item_bound(
                    seq_view(labelled@)[k],
                    s,
                ),
            labels::label_items(items.take(i as int), current, c0) == Ok::<
                (Seq<BlockItemView>, usize),
                ErrorView,
            >((seq_view(labelled@), *counter)),
        decreases block.items.len() - i,
    {
        reveal(labels::label_stmt);
        reveal(labels::label_item);
        reveal(labels::label_items);
        proof {
            lemma_take_step(items, i as int);
            assert(items[i as int] == block.items@[i as int]@);
        }
        match label_block_item(&block.items[i], loop_label, counter) {
            Ok(item) => {
                push_view(&mut labelled, item);
            },
            Err(e) => {
                proof {
                    lemma_label_items_error(items, i as int + 1, current, c0);
                }
                return Err(e);
            },
        }
        i += 1;
    }
    let b = Block { items: labelled };
    proof {
        assert(items.take(i as int) =~= items);
        b.lemma_items_view();
        let out = b@.items;
        assert forall|s: Names| #[trigger] items_bound(items, s) implies items_bound(out, s) by {
            assert forall|k: int| 0 <= k < out.len() implies item_bound(
                #[trigger] out[k],
                names_after_items(out.take(k), s),
            ) by {
                lemma_same_declarations(items.take(k), out.take(k), s);
                assert(item_bound(items[k], names_after_items(items.take(k), s)));
            }
        }
    }
    Ok(b)
}

fn label_block_item(item: &BlockItem, loop_label: &Option<String>, counter: &mut usize) -> (r:
    Result<BlockItem, Error>)
    ensures
        r matches Ok(i) ==> labels::item_labelled(i@, opt_name_view(*loop_label)),
        r matches Ok(i) ==> declared_name(i@) == declared_name(item@) && forall|s: Names|
             #[trigger] item_bound(item@, s) ==> item_bound(i@, s),
        item_targets_ok(item@) ==> (r matches Ok(i) ==> item_targets_ok(i@)),
        match r {
            Ok(i) => labels::label_item(item@, opt_name_view(*loop_label), *old(counter))
                == Ok::<(BlockItemView, usize), ErrorView>((i@, *final(counter))),
            Err(e) => labels::label_item(item@, opt_name_view(*loop_label), *old(counter))
                == Err::<(BlockItemView, usize), ErrorView>(e@),
        },
    decreases item,
{
    reveal(labels::label_stmt);
    reveal(labels::label_item);
    reveal(labels::label_items);
    match item {
        BlockItem::Stmt(stmt) => {
            match label_statement(stmt, loop_label, counter) {
                Ok(labelled) => {
                    let ghost inner = labelled@;
                    let out = BlockItem::Stmt(labelled);
                    proof {
                        assert forall|s: Names| #[trigger] item_bound(item@, s) implies item_bound(
                            out@,
                            s,
                        ) by {
                            assert(stmt_bound(stmt@, s));
                            assert(stmt_bound(inner, s));
                        }
                    }
                    Ok(out)
                },
                Err(e) => Err(e),
            }
        },
        BlockItem::Decl(Decl::VarDecl(d)) => {
            let out = BlockItem::Decl(Decl::VarDecl(clone_var_decl(d)));
            proof {
                assert(out@ == item@);
            }
            Ok(out)
        },
        BlockItem::Decl(Decl::FuncDecl(f)) => {
            let out = BlockItem::Decl(Decl::FuncDecl(clone_func_decl(f)));
            proof {
                assert(out@ == item@);
            }
            Ok(out)
        },
    }
}

fn label_statement(stmt: &Stmt, loop_label: &Option<String>, counter: &mut usize) -> (r: Result<
    Stmt,
    Error,
>)
    ensures
        r matches Ok(out) ==> labels::stmt_labelled(out@, opt_name_view(*loop_label)),
        r matches Ok(out) ==> forall|s: Names| #[trigger]
            stmt_bound(stmt@, s) ==> stmt_bound(out@, s),
        stmt_targets_ok(stmt@) ==> (r matches Ok(s) ==> stmt_targets_ok(s@)),
        match r {
            Ok(s) => labels::label_stmt(stmt@, opt_name_view(*loop_label), *old(counter))
                == Ok::<(StmtView, usize), ErrorView>((s@, *final(counter))),
            Err(e) => labels::label_stmt(stmt@, opt_name_view(*loop_label), *old(counter))
                == Err::<(StmtView, usize), ErrorView>(e@),
        },
    decreases stmt,
{
    reveal(labels::label_stmt);
    reveal(labels::label_item);
    reveal(labels::label_items);
    match stmt {
        Stmt::Break(_, line_number) => {
            if let Some(l) = loop_label {
                let out = Stmt::Break(clone_string(l), *line_number);
                proof {
                    assert forall|s: Names| #[trigger] stmt_bound(stmt@, s) implies stmt_bound(
                        out@,
                        s,
                    ) by {}
                }
                Ok(out)
            } else {
                Err(
                    error(
                        *line_number,
                        String::from_str("break statement outside of loop"),
                        ErrorType::SemanticError,
                    ),
                )
            }
        },
        Stmt::Continue(_, line_number) => {
            if let Some(l) = loop_label {
                let out = Stmt::Continue(clone_string(l), *line_number);
                proof {
                    assert forall|s: Names| #[trigger] stmt_bound(stmt@, s) implies stmt_bound(
                        out@,
                        s,
                    ) by {}
                }
                Ok(out)
            } else {
                Err(
                    error(
                        *line_number,
                        String::from_str("continue outside of loop"),
                        ErrorType::SemanticError,
                    ),
                )
            }
        },
        Stmt::While(condition, body, _) => {
            let ghost inner = body@;
            let new_label = Some(gen_label("while", counter));
            let body = label_statement(body, &new_label, counter)?;
            let ghost labelled = body@;
            let out = Stmt::While(clone_expr(condition), Box::new(body), new_label.unwrap());
            proof {
                assert forall|s: Names| #[trigger] stmt_bound(stmt@, s) implies stmt_bound(
                    out@,
                    s,
                ) by {
                    assert(stmt_bound(inner, s));
                    assert(stmt_bound(labelled, s));
                }
            }
            Ok(out)
        },
        Stmt::DoWhile(body, condition, _) => {
            let ghost inner = body@;
            let new_label = Some(gen_label("dowhile", counter));
            let body = label_statement(body, &new_label, counter)?;
            let ghost labelled = body@;
            let out = Stmt::DoWhile(Box::new(body), clone_expr(condition), new_label.unwrap());
            proof {
                assert forall|s: Names| #[trigger] stmt_bound(stmt@, s) implies stmt_bound(
                    out@,
                    s,
                ) by {
                    assert(stmt_bound(inner, s));
                    assert(stmt_bound(labelled, s));
                }
            }
            Ok(out)
        },
        Stmt::For(init, condition, post, body, _) => {
            let ghost inner = body@;
            let new_label = Some(gen_label("for", counter));
            let body = label_statement(body, &new_label, counter)?;
            let ghost labelled = body@;
            let out = Stmt::For(
                clone_for_init(init),
                clone_opt_expr(condition),
                clone_opt_expr(post),
                Box::new(body),
                new_label.unwrap(),
            );
            proof {
                assert forall|s: Names| #[trigger] stmt_bound(stmt@, s) implies stmt_bound(
                    out@,
                    s,
                ) by {
                    assert(stmt_bound(
                        inner,
                        crate::validator::binding::names_after_init(opt_init_view(*init), s),
                    ));
                    assert(stmt_bound(
                        labelled,
                        crate::validator::binding::names_after_init(opt_init_view(*init), s),
                    ));
                }
            }
            Ok(out)
        },
        Stmt::Compound(block) => {
            match label_block(block, loop_label, counter) {
                Ok(b) => {
                    let ghost labelled = b@.items;
                    let out = Stmt::Compound(b);
                    proof {
                        assert forall|s: Names| #[trigger] stmt_bound(stmt@, s) implies stmt_bound(
                            out@,
                            s,
                        ) by {
                            assert(items_bound(block@.items, s));
                            assert(items_bound(labelled, s));
                        }
                    }
                    Ok(out)
                },
                Err(e) => Err(e),
            }
        },
        Stmt::If(condition, then_stmt, else_stmt) => {
            let ghost then_inner = then_stmt@;
            let ghost else_inner = *else_stmt;
            let then_stmt = label_statement(then_stmt, loop_label, counter)?;
            let else_stmt = label_optional_stmt(else_stmt, loop_label, counter)?;
            let ghost then_labelled = then_stmt@;
            let ghost else_labelled = else_stmt;
            let out = Stmt::If(clone_expr(condition), Box::new(then_stmt), else_stmt);
            proof {
                assert forall|s: Names| #[trigger] stmt_bound(stmt@, s) implies stmt_bound(
                    out@,
                    s,
                ) by {
                    assert(stmt_bound(then_inner, s));
                    assert(stmt_bound(then_labelled, s));
                    if else_inner is Some {
                        assert(stmt_bound(else_inner->0@, s));
                        assert(stmt_bound(else_labelled->0@, s));
                    }
                }
            }
            Ok(out)
        },
        Stmt::Return(e) => Ok(Stmt::Return(clone_expr(e))),
        Stmt::Expression(e) => Ok(Stmt::Expression(clone_expr(e))),
        Stmt::Null => Ok(Stmt::Null),
    }
}

fn label_optional_stmt(
    stmt: &Option<Box<Stmt>>,
    loop_label: &Option<String>,
    counter: &mut usize,
) -> (r: Result<Option<Box<Stmt>>, Error>)
    ensures
        r matches Ok(Some(l)) ==> labels::stmt_labelled(l@, opt_name_view(*loop_label)),
        r matches Ok(Some(l)) ==> forall|s: Names| #[trigger]
            stmt_bound(stmt->0@, s) ==> stmt_bound(l@, s),
        (stmt matches Some(s) && stmt_targets_ok(s@)) ==> (r matches Ok(Some(l)) ==> stmt_targets_ok(l@)),
        match r {
            Ok(labelled) => match stmt {
                Some(s) => labelled is Some && labels::label_stmt(
                    s@,
                    opt_name_view(*loop_label),
                    *old(counter),
                ) == Ok::<(StmtView, usize), ErrorView>((labelled->0@, *final(counter))),
                None => labelled is None && *final(counter) == *old(counter),
            },
            Err(e) => stmt matches Some(s) && labels::label_stmt(
                s@,
                opt_name_view(*loop_label),
                *old(counter),
            ) == Err::<(StmtView, usize), ErrorView>(e@),
        },
    decreases stmt,
{
    match stmt {
        Some(s) => {
            Ok(Some(Box::new(label_statement(s, loop_label, counter)?)))
        },
        None => Ok(None),
    }
}

} // verus!
