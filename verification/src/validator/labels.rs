//! What loop labelling produces, stated over the model of the syntax tree.

use vstd::prelude::*;
use crate::error::{ErrorView, semantic_error};
use crate::name_generator::{next_counter, numbered};
use crate::parser::ast::{StmtView, BlockView, BlockItemView, FuncDeclView, ProgramView};

verus! {

/// The error for a `break` that no loop encloses.
pub open spec fn break_outside(line: usize) -> ErrorView {
    semantic_error(line, "break statement outside of loop"@)
}

/// The error for a `continue` that no loop encloses.
pub open spec fn continue_outside(line: usize) -> ErrorView {
    semantic_error(line, "continue outside of loop"@)
}

/// A statement labelled. Every loop gets a fresh label; `break` and
/// `continue` get the label of the innermost loop around them, which is
/// `current`.
#[verifier::opaque]
pub open spec fn label_stmt(s: StmtView, current: Option<Seq<char>>, c: usize) -> Result<
    (StmtView, usize),
    ErrorView,
>
    decreases s,
{
    match s {
        StmtView::Break(_, line) => match current {
            Some(l) => Ok((StmtView::Break(l, line), c)),
            None => Err(break_outside(line)),
        },
        StmtView::Continue(_, line) => match current {
            Some(l) => Ok((StmtView::Continue(l, line), c)),
            None => Err(continue_outside(line)),
        },
        StmtView::While(cond, body, _) => match label_stmt(
            *body,
            Some(numbered("while"@, c)),
            next_counter(c),
        ) {
            Ok((body1, c1)) => Ok(
                (StmtView::While(cond, Box::new(body1), numbered("while"@, c)), c1),
            ),
            Err(e) => Err(e),
        },
        StmtView::DoWhile(body, cond, _) => match label_stmt(
            *body,
            Some(numbered("dowhile"@, c)),
            next_counter(c),
        ) {
            Ok((body1, c1)) => Ok(
                (StmtView::DoWhile(Box::new(body1), cond, numbered("dowhile"@, c)), c1),
            ),
            Err(e) => Err(e),
        },
        StmtView::For(init, cond, post, body, _) => match label_stmt(
            *body,
            Some(numbered("for"@, c)),
            next_counter(c),
        ) {
            Ok((body1, c1)) => Ok(
                (StmtView::For(init, cond, post, Box::new(body1), numbered("for"@, c)), c1),
            ),
            Err(e) => Err(e),
        },
        StmtView::Compound(b) => match label_items(b.items, current, c) {
            Ok((items, c1)) => Ok((StmtView::Compound(BlockView { items }), c1)),
            Err(e) => Err(e),
        },
        StmtView::If(cond, t, e) => match label_stmt(*t, current, c) {
            Ok((t1, c1)) => match e {
                Some(e) => match label_stmt(*e, current, c1) {
                    Ok((e1, c2)) => Ok((StmtView::If(cond, Box::new(t1), Some(Box::new(e1))), c2)),
                    Err(e) => Err(e),
                },
                None => Ok((StmtView::If(cond, Box::new(t1), None), c1)),
            },
            Err(e) => Err(e),
        },
        _ => Ok((s, c)),
    }
}

/// A block item labelled. A declaration stays as it is.
#[verifier::opaque]
pub open spec fn label_item(item: BlockItemView, current: Option<Seq<char>>, c: usize) -> Result<
    (BlockItemView, usize),
    ErrorView,
>
    decreases item,
{
    match item {
        BlockItemView::Stmt(s) => match label_stmt(s, current, c) {
            Ok((s1, c1)) => Ok((BlockItemView::Stmt(s1), c1)),
            Err(e) => Err(e),
        },
        BlockItemView::Decl(_) => Ok((item, c)),
    }
}

/// The items of a block labelled in order.
#[verifier::opaque]
pub open spec fn label_items(items: Seq<BlockItemView>, current: Option<Seq<char>>, c: usize)
    -> Result<(Seq<BlockItemView>, usize), ErrorView>
    decreases items,
{
    if items.len() == 0 {
        Ok((Seq::empty(), c))
    } else {
        match label_items(items.drop_last(), current, c) {
            Ok((done, c1)) => match label_item(items.last(), current, c1) {
                Ok((item, c2)) => Ok((done.push(item), c2)),
                Err(e) => Err(e),
            },
            Err(e) => Err(e),
        }
    }
}

/// A function labelled: its body starts outside of any loop.
pub open spec fn label_func(f: FuncDeclView, c: usize) -> Result<(FuncDeclView, usize), ErrorView> {
    match f.body {
        Some(b) => match label_items(b.items, None, c) {
            Ok((items, c1)) => Ok(
                (
                    FuncDeclView {
                        name: f.name,
                        params: f.params,
                        body: Some(BlockView { items }),
                        line_number: f.line_number,
                    },
                    c1,
                ),
            ),
            Err(e) => Err(e),
        },
        None => Ok((f, c)),
    }
}

/// The functions of a translation unit labelled in order.
#[verifier::opaque]
pub open spec fn label_funcs(decls: Seq<FuncDeclView>, c: usize) -> Result<
    (Seq<FuncDeclView>, usize),
    ErrorView,
>
    decreases decls.len(),
{
    if decls.len() == 0 {
        Ok((Seq::empty(), c))
    } else {
        match label_funcs(decls.drop_last(), c) {
            Ok((done, c1)) => match label_func(decls.last(), c1) {
                Ok((f, c2)) => Ok((done.push(f), c2)),
                Err(e) => Err(e),
            },
            Err(e) => Err(e),
        }
    }
}

/// A translation unit labelled, and the counter afterwards.
pub open spec fn label(p: ProgramView, c: usize) -> Result<(ProgramView, usize), ErrorView> {
    match label_funcs(p.func_decls, c) {
        Ok((func_decls, c1)) => Ok((ProgramView { func_decls }, c1)),
        Err(e) => Err(e),
    }
}

/// Every `break` and `continue` of the statement carries the label of the
/// innermost loop around it, where `current` is the label of the innermost
/// loop around the statement itself.
pub open spec fn stmt_labelled(s: StmtView, current: Option<Seq<char>>) -> bool
    decreases s,
{
    match s {
        StmtView::Break(l, _) => current == Some(l),
        StmtView::Continue(l, _) => current == Some(l),
        StmtView::While(_, body, l) => stmt_labelled(*body, Some(l)),
        StmtView::DoWhile(body, _, l) => stmt_labelled(*body, Some(l)),
        StmtView::For(_, _, _, body, l) => stmt_labelled(*body, Some(l)),
        StmtView::Compound(b) => items_labelled(b.items, current),
        StmtView::If(_, t, e) => stmt_labelled(*t, current) && match e {
            Some(e) => stmt_labelled(*e, current),
            None => true,
        },
        _ => true,
    }
}

/// Every `break` and `continue` of the block item carries the label of the
/// innermost loop around it. A declaration holds none that counts.
pub open spec fn item_labelled(item: BlockItemView, current: Option<Seq<char>>) -> bool
    decreases item,
{
    match item {
        BlockItemView::Stmt(s) => stmt_labelled(s, current),
        BlockItemView::Decl(_) => true,
    }
}

/// Every `break` and `continue` of the items carries the label of the
/// innermost loop around it.
pub open spec fn items_labelled(items: Seq<BlockItemView>, current: Option<Seq<char>>) -> bool
    decreases items,
{
    forall|i: int| 0 <= i < items.len() ==> item_labelled(#[trigger] items[i], current)
}

/// Every `break` and `continue` of the function lies in a loop and carries
/// its label.
pub open spec fn func_labelled(f: FuncDeclView) -> bool {
    match f.body {
        Some(b) => items_labelled(b.items, None),
        None => true,
    }
}

/// Every `break` and `continue` of the translation unit lies in a loop and
/// carries its label.
pub open spec fn program_labelled(p: ProgramView) -> bool {
    forall|i: int| 0 <= i < p.func_decls.len() ==> func_labelled(#[trigger] p.func_decls[i])
}

} // verus!
