//! The names that resolution mints are all different: each declared variable
//! and each parameter of a defined function gets a name of its own.

use vstd::prelude::*;
use crate::name_generator::{next_counter, numbered, lemma_fresh_names_differ};
use crate::renaming::advance;
use crate::parser::ast::{
    StmtView, BlockItemView, DeclView, ForInitView, FuncDeclView, ProgramView,
};
use crate::validator::scopes::{
    Scope, enter_scope, bind_function, resolve_for_init, resolve_params, resolve_stmt,
    resolve_item, resolve_items, resolve_func_decl, resolve_funcs, resolve,
};
use crate::validator::labels::{
    label_stmt, label_item, label_items, label_func, label_funcs, label,
};

verus! {

/// A list of names.
pub type NameList = Seq<Seq<char>>;

/// The variable that the first clause of a `for` header declares, if any.
pub open spec fn init_locals(init: Option<ForInitView>) -> NameList {
    match init {
        Some(ForInitView::Decl(d)) => seq![d.name],
        _ => Seq::empty(),
    }
}

/// The variables and parameters that the statement declares, in the order in
/// which resolution comes to them: of an `if`, the `else` branch first.
pub open spec fn stmt_locals(s: StmtView) -> NameList
    decreases s,
{
    match s {
        StmtView::If(_, t, e) => (match e {
            Some(e) => stmt_locals(*e),
            None => Seq::empty(),
        }) + stmt_locals(*t),
        StmtView::Compound(b) => items_locals(b.items),
        StmtView::While(_, body, _) => stmt_locals(*body),
        StmtView::DoWhile(body, _, _) => stmt_locals(*body),
        StmtView::For(init, _, _, body, _) => init_locals(init) + stmt_locals(*body),
        _ => Seq::empty(),
    }
}

/// The variables and parameters that the block item declares.
pub open spec fn item_locals(item: BlockItemView) -> NameList
    decreases item,
{
    match item {
        BlockItemView::Stmt(s) => stmt_locals(s),
        BlockItemView::Decl(DeclView::VarDecl(d)) => seq![d.name],
        BlockItemView::Decl(DeclView::FuncDecl(f)) => func_locals(f),
    }
}

/// The variables and parameters that the items declare, in order.
pub open spec fn items_locals(items: Seq<BlockItemView>) -> NameList
    decreases items,
{
    if items.len() == 0 {
        Seq::empty()
    } else {
        items_locals(items.drop_last()) + item_locals(items.last())
    }
}

/// The parameters and variables of a function. A declaration without a body
/// has none that count.
pub open spec fn func_locals(f: FuncDeclView) -> NameList
    decreases f,
{
    match f.body {
        Some(b) => f.params + items_locals(b.items),
        None => Seq::empty(),
    }
}

/// The parameters and variables of the functions, in order.
pub open spec fn funcs_locals(decls: Seq<FuncDeclView>) -> NameList
    decreases decls.len(),
{
    if decls.len() == 0 {
        Seq::empty()
    } else {
        funcs_locals(decls.drop_last()) + func_locals(decls.last())
    }
}

/// The parameters and variables of a translation unit.
pub open spec fn program_locals(p: ProgramView) -> NameList {
    funcs_locals(p.func_decls)
}

/// The names with the numbers that the counter gives them from `c` on.
pub open spec fn renumbered(names: NameList, c: usize) -> NameList {
    Seq::new(names.len(), |i: int| numbered(names[i], advance(c, i as nat)))
}

/// No name occurs twice in the list.
pub open spec fn all_different(names: NameList) -> bool {
    forall|i: int, j: int| 0 <= i < j < names.len() ==> names[i] != names[j]
}

/// Advancing in two steps is advancing by their sum.
pub proof fn lemma_advance_twice(c: usize, a: nat, b: nat)
    ensures
        advance(advance(c, a), b) == advance(c, a + b),
    decreases b,
{
    if b > 0 {
        lemma_advance_twice(c, a, (b - 1) as nat);
        assert(advance(c, a + b) == next_counter(advance(c, (a + b - 1) as nat)));
    }
}

/// One name advances the counter by one.
pub proof fn lemma_advance_one(c: usize)
    ensures
        advance(c, 1) == next_counter(c),
        advance(c, 0) == c,
{
    assert(advance(c, 1) == next_counter(advance(c, 0)));
}

/// Where the counter lands after `k` names, as long as it wraps at most
/// once.
pub proof fn lemma_advance_value(c: usize, k: nat)
    requires
        k <= usize::MAX,
    ensures
        advance(c, k) == (if c + k <= usize::MAX {
            c + k
        } else {
            c + k - usize::MAX - 1
        }),
    decreases k,
{
    if k > 0 {
        lemma_advance_value(c, (k - 1) as nat);
    }
}

/// Fewer names than the counter has values get different numbers.
pub proof fn lemma_advance_injective(c: usize, i: nat, j: nat)
    requires
        i <= usize::MAX,
        j <= usize::MAX,
        i != j,
    ensures
        advance(c, i) != advance(c, j),
{
    lemma_advance_value(c, i);
    lemma_advance_value(c, j);
}

/// Names that were numbered in a row are all different, as long as there are
/// no more of them than the counter has values.
pub proof fn lemma_renumbered_different(names: NameList, c: usize)
    requires
        names.len() <= usize::MAX,
    ensures
        all_different(renumbered(names, c)),
{
    let r = renumbered(names, c);
    assert forall|i: int, j: int| 0 <= i < j < r.len() implies r[i] != r[j] by {
        lemma_advance_injective(c, i as nat, j as nat);
        lemma_fresh_names_differ(names[i], advance(c, i as nat), names[j], advance(c, j as nat));
    }
}

/// Numbering two lists in a row is numbering the one and then the other.
pub proof fn lemma_renumbered_concat(a: NameList, b: NameList, c: usize)
    ensures
        renumbered(a + b, c) == renumbered(a, c) + renumbered(b, advance(c, a.len())),
{
    let l = renumbered(a + b, c);
    let r = renumbered(a, c) + renumbered(b, advance(c, a.len()));
    assert(l.len() == r.len());
    assert forall|i: int| 0 <= i < l.len() implies l[i] == r[i] by {
        if i < a.len() {
            assert((a + b)[i] == a[i]);
        } else {
            assert((a + b)[i] == b[i - a.len()]);
            lemma_advance_twice(c, a.len(), (i - a.len()) as nat);
        }
    }
    assert(l =~= r);
}

/// Numbering no name gives no name.
pub proof fn lemma_renumbered_empty(c: usize)
    ensures
        renumbered(Seq::empty(), c) == NameList::empty(),
{
    assert(renumbered(Seq::empty(), c) =~= NameList::empty());
}

/// Numbering one name gives the name with the number of the counter.
pub proof fn lemma_renumbered_one(name: Seq<char>, c: usize)
    ensures
        renumbered(seq![name], c) == seq![numbered(name, c)],
{
    assert(renumbered(seq![name], c) =~= seq![numbered(name, c)]);
}

/// The parameters of a function get the numbers of the counter in a row.
pub proof fn lemma_resolve_params_locals(params: NameList, line: usize, m: Scope, c: usize)
    requires
        resolve_params(params, line, m, c) is Ok,
    ensures
        resolve_params(params, line, m, c)->Ok_0.0 == renumbered(params, c),
        resolve_params(params, line, m, c)->Ok_0.2 == advance(c, params.len()),
    decreases params.len(),
{
    reveal(resolve_params);
    if params.len() == 0 {
        lemma_renumbered_empty(c);
    } else {
        lemma_resolve_params_locals(params.drop_last(), line, m, c);
        lemma_renumbered_concat(params.drop_last(), seq![params.last()], c);
        lemma_renumbered_one(params.last(), advance(c, params.drop_last().len()));
        assert(params.drop_last() + seq![params.last()] =~= params);
        let done = resolve_params(params.drop_last(), line, m, c)->Ok_0.0;
        let unique = numbered(params.last(), advance(c, params.drop_last().len()));
        assert(done.push(unique) =~= done + seq![unique]);
    }
}

/// The first clause of a `for` header gets the number of the counter.
pub proof fn lemma_resolve_for_init_locals(init: Option<ForInitView>, m: Scope, c: usize)
    requires
        resolve_for_init(init, m, c) is Ok,
    ensures
        init_locals(resolve_for_init(init, m, c)->Ok_0.0) == renumbered(init_locals(init), c),
        resolve_for_init(init, m, c)->Ok_0.2 == advance(c, init_locals(init).len()),
{
    match init {
        Some(ForInitView::Decl(d)) => {
            lemma_renumbered_one(d.name, c);
            lemma_advance_one(c);
        },
        _ => {
            lemma_renumbered_empty(c);
        },
    }
}

/// The variables of a resolved statement are the variables of the statement
/// with the numbers of the counter in a row.
pub proof fn lemma_resolve_stmt_locals(s: StmtView, m: Scope, c: usize)
    requires
        resolve_stmt(s, m, c) is Ok,
    ensures
        stmt_locals(resolve_stmt(s, m, c)->Ok_0.0) == renumbered(stmt_locals(s), c),
        resolve_stmt(s, m, c)->Ok_0.1 == advance(c, stmt_locals(s).len()),
    decreases s,
{
    reveal(resolve_stmt);
    reveal(resolve_item);
    reveal(resolve_items);
    reveal(resolve_func_decl);
    match s {
        StmtView::If(cond, t, e) => {
            match e {
                Some(e) => {
                    lemma_resolve_stmt_locals(*e, m, c);
                    let c1 = resolve_stmt(*e, m, c)->Ok_0.1;
                    lemma_resolve_stmt_locals(*t, m, c1);
                    lemma_renumbered_concat(stmt_locals(*e), stmt_locals(*t), c);
                    lemma_advance_twice(c, stmt_locals(*e).len(), stmt_locals(*t).len());
                },
                None => {
                    lemma_resolve_stmt_locals(*t, m, c);
                    assert(Seq::<Seq<char>>::empty() + stmt_locals(*t) =~= stmt_locals(*t));
                    let out = resolve_stmt(*t, m, c)->Ok_0.0;
                    assert(Seq::<Seq<char>>::empty() + stmt_locals(out) =~= stmt_locals(out));
                },
            }
        },
        StmtView::Compound(b) => {
            lemma_resolve_items_locals(b.items, enter_scope(m), c);
        },
        StmtView::While(_, body, _) => {
            lemma_resolve_stmt_locals(*body, m, c);
        },
        StmtView::DoWhile(body, _, _) => {
            lemma_resolve_stmt_locals(*body, m, c);
        },
        StmtView::For(init, _, _, body, _) => {
            lemma_resolve_for_init_locals(init, enter_scope(m), c);
            let (_, m1, c1) = resolve_for_init(init, enter_scope(m), c)->Ok_0;
            lemma_resolve_stmt_locals(*body, m1, c1);
            lemma_renumbered_concat(init_locals(init), stmt_locals(*body), c);
            lemma_advance_twice(c, init_locals(init).len(), stmt_locals(*body).len());
        },
        _ => {
            lemma_renumbered_empty(c);
        },
    }
}

/// The variables of a resolved block item are the variables of the item with
/// the numbers of the counter in a row.
pub proof fn lemma_resolve_item_locals(item: BlockItemView, m: Scope, c: usize)
    requires
        resolve_item(item, m, c) is Ok,
    ensures
        item_locals(resolve_item(item, m, c)->Ok_0.0) == renumbered(item_locals(item), c),
        resolve_item(item, m, c)->Ok_0.2 == advance(c, item_locals(item).len()),
    decreases item,
{
    reveal(resolve_stmt);
    reveal(resolve_item);
    reveal(resolve_items);
    reveal(resolve_func_decl);
    match item {
        BlockItemView::Stmt(s) => {
            lemma_resolve_stmt_locals(s, m, c);
        },
        BlockItemView::Decl(DeclView::VarDecl(d)) => {
            lemma_renumbered_one(d.name, c);
            lemma_advance_one(c);
        },
        BlockItemView::Decl(DeclView::FuncDecl(f)) => {
            lemma_resolve_func_decl_locals(f, m, c);
        },
    }
}

/// The variables of resolved items are the variables of the items with the
/// numbers of the counter in a row.
pub proof fn lemma_resolve_items_locals(items: Seq<BlockItemView>, m: Scope, c: usize)
    requires
        resolve_items(items, m, c) is Ok,
    ensures
        items_locals(resolve_items(items, m, c)->Ok_0.0) == renumbered(items_locals(items), c),
        resolve_items(items, m, c)->Ok_0.2 == advance(c, items_locals(items).len()),
    decreases items,
{
    reveal(resolve_stmt);
    reveal(resolve_item);
    reveal(resolve_items);
    reveal(resolve_func_decl);
    if items.len() == 0 {
        lemma_renumbered_empty(c);
    } else {
        lemma_resolve_items_locals(items.drop_last(), m, c);
        let (done, m1, c1) = resolve_items(items.drop_last(), m, c)->Ok_0;
        lemma_resolve_item_locals(items.last(), m1, c1);
        let out = resolve_item(items.last(), m1, c1)->Ok_0.0;
        lemma_renumbered_concat(items_locals(items.drop_last()), item_locals(items.last()), c);
        lemma_advance_twice(
            c,
            items_locals(items.drop_last()).len(),
            item_locals(items.last()).len(),
        );
        assert(done.push(out).drop_last() =~= done);
    }
}

/// The parameters and variables of a resolved function are those of the
/// function with the numbers of the counter in a row.
pub proof fn lemma_resolve_func_decl_locals(f: FuncDeclView, m: Scope, c: usize)
    requires
        resolve_func_decl(f, m, c) is Ok,
    ensures
        func_locals(resolve_func_decl(f, m, c)->Ok_0.0) == renumbered(func_locals(f), c),
        resolve_func_decl(f, m, c)->Ok_0.2 == advance(c, func_locals(f).len()),
    decreases f,
{
    reveal(resolve_stmt);
    reveal(resolve_item);
    reveal(resolve_items);
    reveal(resolve_func_decl);
    match f.body {
        None => {
            lemma_renumbered_empty(c);
        },
        Some(b) => {
            let inner = enter_scope(bind_function(m, f.name));
            lemma_resolve_params_locals(f.params, f.line_number, inner, c);
            let (_, m1, c1) = resolve_params(f.params, f.line_number, inner, c)->Ok_0;
            lemma_resolve_items_locals(b.items, m1, c1);
            lemma_renumbered_concat(f.params, items_locals(b.items), c);
            lemma_advance_twice(c, f.params.len(), items_locals(b.items).len());
        },
    }
}

/// The parameters and variables of resolved functions are those of the
/// functions with the numbers of the counter in a row.
pub proof fn lemma_resolve_funcs_locals(decls: Seq<FuncDeclView>, m: Scope, c: usize)
    requires
        resolve_funcs(decls, m, c) is Ok,
    ensures
        funcs_locals(resolve_funcs(decls, m, c)->Ok_0.0) == renumbered(funcs_locals(decls), c),
        resolve_funcs(decls, m, c)->Ok_0.2 == advance(c, funcs_locals(decls).len()),
    decreases decls.len(),
{
    reveal(resolve_funcs);
    if decls.len() == 0 {
        lemma_renumbered_empty(c);
    } else {
        lemma_resolve_funcs_locals(decls.drop_last(), m, c);
        let (done, m1, c1) = resolve_funcs(decls.drop_last(), m, c)->Ok_0;
        lemma_resolve_func_decl_locals(decls.last(), m1, c1);
        let out = resolve_func_decl(decls.last(), m1, c1)->Ok_0.0;
        lemma_renumbered_concat(funcs_locals(decls.drop_last()), func_locals(decls.last()), c);
        lemma_advance_twice(
            c,
            funcs_locals(decls.drop_last()).len(),
            func_locals(decls.last()).len(),
        );
        assert(done.push(out).drop_last() =~= done);
    }
}

/// Labelling keeps the variables of a statement.
pub proof fn lemma_label_stmt_locals(s: StmtView, current: Option<Seq<char>>, c: usize)
    requires
        label_stmt(s, current, c) is Ok,
    ensures
        stmt_locals(label_stmt(s, current, c)->Ok_0.0) == stmt_locals(s),
    decreases s,
{
    reveal(label_stmt);
    reveal(label_item);
    reveal(label_items);
    match s {
        StmtView::While(_, body, _) => {
            lemma_label_stmt_locals(*body, Some(numbered("while"@, c)), next_counter(c));
        },
        StmtView::DoWhile(body, _, _) => {
            lemma_label_stmt_locals(*body, Some(numbered("dowhile"@, c)), next_counter(c));
        },
        StmtView::For(_, _, _, body, _) => {
            lemma_label_stmt_locals(*body, Some(numbered("for"@, c)), next_counter(c));
        },
        StmtView::Compound(b) => {
            lemma_label_items_locals(b.items, current, c);
        },
        StmtView::If(_, t, e) => {
            lemma_label_stmt_locals(*t, current, c);
            let c1 = label_stmt(*t, current, c)->Ok_0.1;
            match e {
                Some(e) => {
                    lemma_label_stmt_locals(*e, current, c1);
                },
                None => {},
            }
        },
        _ => {},
    }
}

/// Labelling keeps the variables of the items of a block.
pub proof fn lemma_label_items_locals(
    items: Seq<BlockItemView>,
    current: Option<Seq<char>>,
    c: usize,
)
    requires
        label_items(items, current, c) is Ok,
    ensures
        items_locals(label_items(items, current, c)->Ok_0.0) == items_locals(items),
    decreases items,
{
    reveal(label_stmt);
    reveal(label_item);
    reveal(label_items);
    if items.len() > 0 {
        lemma_label_items_locals(items.drop_last(), current, c);
        let (done, c1) = label_items(items.drop_last(), current, c)->Ok_0;
        let out = label_item(items.last(), current, c1)->Ok_0.0;
        match items.last() {
            BlockItemView::Stmt(s) => {
                lemma_label_stmt_locals(s, current, c1);
                assert(out == BlockItemView::Stmt(label_stmt(s, current, c1)->Ok_0.0));
            },
            _ => {
                assert(out == items.last());
            },
        }
        assert(item_locals(out) == item_locals(items.last()));
        assert(done.push(out).drop_last() =~= done);
        assert(done.push(out).last() == out);
    }
}

/// Labelling keeps the parameters and variables of the functions.
pub proof fn lemma_label_funcs_locals(decls: Seq<FuncDeclView>, c: usize)
    requires
        label_funcs(decls, c) is Ok,
    ensures
        funcs_locals(label_funcs(decls, c)->Ok_0.0) == funcs_locals(decls),
    decreases decls.len(),
{
    reveal(label_funcs);
    if decls.len() > 0 {
        lemma_label_funcs_locals(decls.drop_last(), c);
        let (done, c1) = label_funcs(decls.drop_last(), c)->Ok_0;
        let f = decls.last();
        match f.body {
            Some(b) => {
                lemma_label_items_locals(b.items, None, c1);
            },
            None => {},
        }
        let out = label_func(f, c1)->Ok_0.0;
        assert(done.push(out).drop_last() =~= done);
    }
}

/// The variables and the parameters of a resolved and labelled translation
/// unit have names that are all different, as long as there are no more of
/// them than the counter has values.
pub proof fn lemma_resolved_names_different(p: ProgramView, c: usize)
    requires
        program_locals(p).len() <= usize::MAX,
        resolve(p, c) is Ok,
        label(resolve(p, c)->Ok_0.0, resolve(p, c)->Ok_0.1) is Ok,
    ensures
        all_different(
            program_locals(label(resolve(p, c)->Ok_0.0, resolve(p, c)->Ok_0.1)->Ok_0.0),
        ),
{
    lemma_resolve_funcs_locals(p.func_decls, Map::empty(), c);
    let (resolved, c1) = resolve(p, c)->Ok_0;
    lemma_label_funcs_locals(resolved.func_decls, c1);
    lemma_renumbered_different(program_locals(p), c);
}

} // verus!
