//! The labels that labelling gives to the loops: each loop gets the kind of
//! the loop and a number of its own, in the order in which labelling comes
//! to the loops.

use vstd::prelude::*;
use crate::name_generator::{next_counter, numbered};
use crate::renaming::advance;
use crate::parser::ast::{StmtView, BlockItemView, FuncDeclView};
use crate::validator::labels::{label_stmt, label_item, label_items, label_func, label_funcs};

verus! {

/// The number of loops in a statement.
pub open spec fn stmt_loops(s: StmtView) -> nat
    decreases s,
{
    match s {
        StmtView::While(_, body, _) => 1 + stmt_loops(*body),
        StmtView::DoWhile(body, _, _) => 1 + stmt_loops(*body),
        StmtView::For(_, _, _, body, _) => 1 + stmt_loops(*body),
        StmtView::Compound(b) => items_loops(b.items),
        StmtView::If(_, t, e) => stmt_loops(*t) + match e {
            Some(e) => stmt_loops(*e),
            None => 0,
        },
        _ => 0,
    }
}

/// The number of loops in a block item. The loops of a function that is
/// declared in a block do not count.
pub open spec fn item_loops(item: BlockItemView) -> nat
    decreases item,
{
    match item {
        BlockItemView::Stmt(s) => stmt_loops(s),
        BlockItemView::Decl(_) => 0,
    }
}

/// The number of loops in the items of a block.
pub open spec fn items_loops(items: Seq<BlockItemView>) -> nat
    decreases items,
{
    if items.len() == 0 {
        0
    } else {
        items_loops(items.drop_last()) + item_loops(items.last())
    }
}

/// The number of loops in the body of a function.
pub open spec fn func_loops(f: FuncDeclView) -> nat {
    match f.body {
        Some(b) => items_loops(b.items),
        None => 0,
    }
}

/// The number of loops in the functions.
pub open spec fn funcs_loops(decls: Seq<FuncDeclView>) -> nat
    decreases decls.len(),
{
    if decls.len() == 0 {
        0
    } else {
        funcs_loops(decls.drop_last()) + func_loops(decls.last())
    }
}

/// The loops of the statement carry the labels `kind.N`, where the numbers
/// are those of the counter `base` advanced by `t`, `t + 1` and so on, in
/// the order of the loops.
pub open spec fn stmt_numbered(s: StmtView, base: usize, t: nat) -> bool
    decreases s,
{
    match s {
        StmtView::While(_, body, l) => l == numbered("while"@, advance(base, t))
            && stmt_numbered(*body, base, t + 1),
        StmtView::DoWhile(body, _, l) => l == numbered("dowhile"@, advance(base, t))
            && stmt_numbered(*body, base, t + 1),
        StmtView::For(_, _, _, body, l) => l == numbered("for"@, advance(base, t))
            && stmt_numbered(*body, base, t + 1),
        StmtView::Compound(b) => items_numbered(b.items, base, t),
        StmtView::If(_, then, e) => stmt_numbered(*then, base, t) && match e {
            Some(e) => stmt_numbered(*e, base, t + stmt_loops(*then)),
            None => true,
        },
        _ => true,
    }
}

/// The loops of the block item carry the labels that the counter gives.
pub open spec fn item_numbered(item: BlockItemView, base: usize, t: nat) -> bool
    decreases item,
{
    match item {
        BlockItemView::Stmt(s) => stmt_numbered(s, base, t),
        BlockItemView::Decl(_) => true,
    }
}

/// The loops of the items carry the labels that the counter gives.
pub open spec fn items_numbered(items: Seq<BlockItemView>, base: usize, t: nat) -> bool
    decreases items,
{
    if items.len() == 0 {
        true
    } else {
        items_numbered(items.drop_last(), base, t) && item_numbered(
            items.last(),
            base,
            t + items_loops(items.drop_last()),
        )
    }
}

/// The loops of the function carry the labels that the counter gives.
pub open spec fn func_numbered(f: FuncDeclView, base: usize, t: nat) -> bool {
    match f.body {
        Some(b) => items_numbered(b.items, base, t),
        None => true,
    }
}

/// The loops of the functions carry the labels that the counter gives.
pub open spec fn funcs_numbered(decls: Seq<FuncDeclView>, base: usize, t: nat) -> bool
    decreases decls.len(),
{
    if decls.len() == 0 {
        true
    } else {
        funcs_numbered(decls.drop_last(), base, t) && func_numbered(
            decls.last(),
            base,
            t + funcs_loops(decls.drop_last()),
        )
    }
}

/// Labelling a statement from the counter `base` advanced by `t` numbers its
/// loops from there, and advances the counter by the number of loops.
pub proof fn lemma_label_stmt_numbers(
    s: StmtView,
    current: Option<Seq<char>>,
    base: usize,
    t: nat,
)
    requires
        label_stmt(s, current, advance(base, t)) is Ok,
    ensures
        stmt_numbered(label_stmt(s, current, advance(base, t))->Ok_0.0, base, t),
        stmt_loops(label_stmt(s, current, advance(base, t))->Ok_0.0) == stmt_loops(s),
        label_stmt(s, current, advance(base, t))->Ok_0.1 == advance(base, t + stmt_loops(s)),
    decreases s,
{
    reveal(label_stmt);
    reveal(label_item);
    reveal(label_items);
    let c = advance(base, t);
    assert(next_counter(c) == advance(base, t + 1));
    match s {
        StmtView::While(_, body, _) => {
            lemma_label_stmt_numbers(*body, Some(numbered("while"@, c)), base, t + 1);
        },
        StmtView::DoWhile(body, _, _) => {
            lemma_label_stmt_numbers(*body, Some(numbered("dowhile"@, c)), base, t + 1);
        },
        StmtView::For(_, _, _, body, _) => {
            lemma_label_stmt_numbers(*body, Some(numbered("for"@, c)), base, t + 1);
        },
        StmtView::Compound(b) => {
            lemma_label_items_number(b.items, current, base, t);
        },
        StmtView::If(_, then, e) => {
            lemma_label_stmt_numbers(*then, current, base, t);
            match e {
                Some(e) => {
                    lemma_label_stmt_numbers(*e, current, base, t + stmt_loops(*then));
                },
                None => {},
            }
        },
        _ => {},
    }
}

/// Labelling the items of a block numbers their loops in a row.
pub proof fn lemma_label_items_number(
    items: Seq<BlockItemView>,
    current: Option<Seq<char>>,
    base: usize,
    t: nat,
)
    requires
        label_items(items, current, advance(base, t)) is Ok,
    ensures
        items_numbered(label_items(items, current, advance(base, t))->Ok_0.0, base, t),
        items_loops(label_items(items, current, advance(base, t))->Ok_0.0) == items_loops(items),
        label_items(items, current, advance(base, t))->Ok_0.1 == advance(
            base,
            t + items_loops(items),
        ),
    decreases items,
{
    reveal(label_stmt);
    reveal(label_item);
    reveal(label_items);
    if items.len() > 0 {
        lemma_label_items_number(items.drop_last(), current, base, t);
        let (done, c1) = label_items(items.drop_last(), current, advance(base, t))->Ok_0;
        let t1 = t + items_loops(items.drop_last());
        assert(c1 == advance(base, t1));
        let out = label_item(items.last(), current, c1)->Ok_0.0;
        match items.last() {
            BlockItemView::Stmt(s) => {
                lemma_label_stmt_numbers(s, current, base, t1);
                assert(out == BlockItemView::Stmt(label_stmt(s, current, c1)->Ok_0.0));
            },
            _ => {
                assert(out == items.last());
            },
        }
        assert(item_numbered(out, base, t1));
        assert(item_loops(out) == item_loops(items.last()));
        assert(done.push(out).drop_last() =~= done);
        assert(done.push(out).last() == out);
        assert(items_loops(done) == items_loops(items.drop_last()));
    }
}

/// Labelling the functions of a translation unit numbers their loops in a
/// row.
pub proof fn lemma_label_funcs_number(decls: Seq<FuncDeclView>, base: usize, t: nat)
    requires
        label_funcs(decls, advance(base, t)) is Ok,
    ensures
        funcs_numbered(label_funcs(decls, advance(base, t))->Ok_0.0, base, t),
        funcs_loops(label_funcs(decls, advance(base, t))->Ok_0.0) == funcs_loops(decls),
        label_funcs(decls, advance(base, t))->Ok_0.0.len() == decls.len(),
        label_funcs(decls, advance(base, t))->Ok_0.1 == advance(base, t + funcs_loops(decls)),
    decreases decls.len(),
{
    reveal(label_funcs);
    if decls.len() > 0 {
        lemma_label_funcs_number(decls.drop_last(), base, t);
        let (done, c1) = label_funcs(decls.drop_last(), advance(base, t))->Ok_0;
        let t1 = t + funcs_loops(decls.drop_last());
        let f = decls.last();
        match f.body {
            Some(b) => {
                lemma_label_items_number(b.items, None, base, t1);
            },
            None => {},
        }
        let out = label_func(f, c1)->Ok_0.0;
        assert(done.push(out).drop_last() =~= done);
        assert(done.push(out).last() == out);
    }
}

} // verus!
