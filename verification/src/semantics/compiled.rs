//! The listing that is generated for a function returns what the function
//! computes: a function whose body holds no loop and no call leaves in
//! `%eax`, when it returns, the value that the body returns for the arguments
//! that it was called with.

use vstd::prelude::*;
use crate::validator::fresh::lemma_advance_one;
use crate::parser::ast::{ExprView, StmtView, BlockItemView};
use crate::tacky::tacky::{InstrView, ValView};
use crate::tacky::tacky::FunctionView as IrFunctionView;
use crate::tacky::lowering::{lower_items, lower_function};
use crate::tacky::unique::{expr_mints, item_mints, items_mints, lemma_lower_function_unique};
use crate::codegen::unique::{asm_defines_once, lemma_codegen_defined};
use crate::codegen::assembly::InstructionView;
use crate::codegen::stack_allocator::StackAllocatorView;
use crate::codegen::selection::{param_moves, select, select_all, count_fits};
use crate::codegen::rewrite::{replace_function, fixup_instr, fixup_instrs, frame_size};
use crate::codegen::{selected_function, codegen_function, function_fits};
use crate::semantics::values::lemma_wrap32_same;
use crate::semantics::source::{Env, eval, pure, mentions};
use crate::semantics::blocks::{
    Flow, plain_item, plain_items, exec_item, exec_items, item_mentions, items_mention,
    fresh_items, lemma_plain_items_numbered, lemma_lower_items_calm, lemma_lower_items_keep,
};
use crate::semantics::ir::Outcome;
use crate::semantics::ir::run as ir_run;
use crate::semantics::ir::run_from as ir_run_from;
use crate::semantics::ir::rounds as ir_rounds;
use crate::semantics::ir::lemma_run_push as lemma_ir_run_push;
use crate::semantics::machine::{
    Machine, run, run_from, rounds, lemma_run_one, lemma_run_concat, lemma_run_passes,
};
use crate::semantics::lowering::{fresh, lemma_calm_push};
use crate::semantics::selection::{
    calm, all_calm, follows, bound, lemma_select_all_follows, lemma_param_moves_run,
};
use crate::semantics::replacement::{
    sound, slotless, all_slotless, slotted, all_placed, tracks, lemma_replace_instrs,
    lemma_run_slot,
};
use crate::semantics::fixup::{
    all_spare, all_spared, entry_move, trails, lemma_fixup_run, lemma_fixup_concat,
    lemma_fixup_moves, lemma_fixup_no_label,
};

verus! {

/// The values of the names as the slots of the machine hold them. A name
/// without a slot has the value 0.
pub open spec fn frame(k: Machine, a: StackAllocatorView) -> Env {
    Map::total(
        |name: Seq<char>|
            if a.map.contains_key(name) {
                k.slots[-a.map[name]]
            } else {
                0i32
            },
    )
}

/// The function whose body is `return e;`, lowered from the counter `c`.
pub open spec fn function_returning(
    name: Seq<char>,
    params: Seq<Seq<char>>,
    e: ExprView,
    c: usize,
) -> IrFunctionView {
    lower_function(name, params, seq![BlockItemView::Stmt(StmtView::Return(e))], c).0
}

/// What is selected for a calm instruction holds no slot, and none of the
/// registers that the rewriting uses.
pub proof fn lemma_select_tame(i: InstrView)
    requires
        calm(i),
    ensures
        forall|j: int|
            0 <= j < select(i).len() ==> slotless(#[trigger] select(i)[j]) && all_spare(
                select(i)[j],
            ),
{
}

/// What is selected for a calm list holds no slot, and none of the
/// registers that the rewriting uses.
pub proof fn lemma_select_all_tame(s: Seq<InstrView>)
    requires
        all_calm(s),
    ensures
        all_slotless(select_all(s)),
        all_spared(select_all(s)),
    decreases s.len(),
{
    if s.len() > 0 {
        let front = s.drop_last();
        lemma_select_all_tame(front);
        assert(calm(s[s.len() - 1]));
        lemma_select_tame(s.last());
        let a = select_all(front);
        let b = select(s.last());
        assert forall|j: int| 0 <= j < (a + b).len() implies slotless(#[trigger] (a + b)[j])
            && all_spare((a + b)[j]) by {
            if j < a.len() {
                assert((a + b)[j] == a[j]);
            } else {
                assert((a + b)[j] == b[j - a.len()]);
            }
        }
    }
}

/// An instruction with the slots of its names uses the registers that the
/// instruction uses.
pub proof fn lemma_slotted_spares(i: InstructionView, a: StackAllocatorView)
    requires
        all_spare(i),
    ensures
        all_spare(slotted(i, a)),
{
}

/// The machine before the slots were given out: the registers, the slots
/// and the flags of `k`, and each name with the value that its slot holds.
pub open spec fn before(k: Machine, a: StackAllocatorView) -> Machine {
    Machine { regs: k.regs, vars: frame(k, a), slots: k.slots, flags: k.flags }
}

/// The values of the names when the body of a function starts on the
/// machine `k`: each parameter has the value of its argument, and each other
/// name the value that its slot holds.
pub open spec fn entry(params: Seq<Seq<char>>, k: Machine, a: StackAllocatorView) -> Env {
    bound(params, before(k, a))
}

/// The moves of the parameters hold no slot below the frame pointer, as
/// long as the number of parameters fits.
pub proof fn lemma_param_moves_slotless(params: Seq<Seq<char>>)
    requires
        count_fits(params.len()),
    ensures
        all_slotless(param_moves(params)),
{
}

/// The slots of a function.
pub open spec fn slots(f: IrFunctionView) -> StackAllocatorView {
    replace_function(selected_function(f)).stack_allocator
}

/// The listing of a function after instruction selection.
pub open spec fn selected_listing(f: IrFunctionView) -> Seq<InstructionView> {
    selected_function(f).instructions
}

/// The listing of a function after the replacement of pseudo-operands.
pub open spec fn replaced_listing(f: IrFunctionView) -> Seq<InstructionView> {
    replace_function(selected_function(f)).instructions
}

/// What the three listings of a function did, on the machine `k`, follows
/// what the instructions of the function did.
pub open spec fn staged(
    f: IrFunctionView,
    k: Machine,
    o: Outcome<Env>,
    p1: Outcome<Machine>,
    p2: Outcome<Machine>,
    p3: Outcome<Machine>,
) -> bool {
    &&& follows(o, p1, before(k, slots(f)))
    &&& tracks(p1, p2, slots(f))
    &&& trails(p2, p3)
}

/// The listings of a function within the machine's limits whose
/// instructions are calm: the slots are sound, the replaced listing is the
/// selected one with the slots of its names, its first part moves the
/// parameters to their slots, and the rest spares the registers that the
/// rewriting uses.
pub proof fn lemma_listings(f: IrFunctionView)
    requires
        function_fits(f),
        all_calm(f.instrs),
    ensures
        sound(slots(f)),
        selected_listing(f) == param_moves(f.params) + select_all(f.instrs),
        replaced_listing(f).len() == selected_listing(f).len(),
        forall|j: int|
            0 <= j < selected_listing(f).len() ==> all_placed(
                #[trigger] selected_listing(f)[j],
                slots(f),
            ) && replaced_listing(f)[j] == slotted(selected_listing(f)[j], slots(f)),
        forall|j: int|
            0 <= j < f.params.len() ==> entry_move(#[trigger] replaced_listing(f)[j]),
        forall|j: int|
            f.params.len() <= j < replaced_listing(f).len() ==> all_spare(
                #[trigger] replaced_listing(f)[j],
            ),
{
    let selected = selected_listing(f);
    let replaced = replaced_listing(f);
    let a = slots(f);
    let moves = param_moves(f.params);
    let body = select_all(f.instrs);
    let n = moves.len() as int;
    lemma_select_all_tame(f.instrs);
    lemma_param_moves_slotless(f.params);
    assert forall|j: int| 0 <= j < selected.len() implies slotless(#[trigger] selected[j]) by {
        if j < n {
            assert(selected[j] == moves[j]);
        } else {
            assert(selected[j] == body[j - n]);
        }
    }
    lemma_replace_instrs(selected, StackAllocatorView::empty(), a);
    assert forall|j: int| 0 <= j < f.params.len() implies entry_move(
        #[trigger] replaced[j],
    ) by {
        assert(replaced[j] == slotted(selected[j], a));
        assert(selected[j] == moves[j]);
    }
    assert forall|j: int| f.params.len() <= j < replaced.len() implies all_spare(
        #[trigger] replaced[j],
    ) by {
        assert(replaced[j] == slotted(selected[j], a));
        assert(selected[j] == body[j - n]);
        lemma_slotted_spares(body[j - n], a);
    }
}

/// The moves of the parameters and what stands for them after the rewriting
/// hold no label: a run that does not go on passes them.
pub proof fn lemma_moves_pass(s: Seq<InstructionView>, q: Outcome<Machine>)
    requires
        forall|j: int| 0 <= j < s.len() ==> entry_move(#[trigger] s[j]),
        !(q is Goes),
    ensures
        run_from(q, s) == q,
        run_from(q, fixup_instrs(s)) == q,
    decreases s.len(),
{
    if s.len() > 0 {
        let front = s.drop_last();
        assert forall|j: int| 0 <= j < front.len() implies entry_move(#[trigger] front[j]) by {
            assert(front[j] == s[j]);
        }
        lemma_moves_pass(front, q);
        assert(entry_move(s[s.len() - 1]));
        lemma_run_concat(q, fixup_instrs(front), fixup_instr(s.last()));
        match q {
            Outcome::Seeks(_, label) => {
                lemma_fixup_no_label(s.last(), label);
            },
            _ => {},
        }
        lemma_run_passes(q, fixup_instr(s.last()));
    }
}

/// The first round over the three listings of a function follows the first
/// round over its instructions, where each parameter has at first the value
/// of its argument and each other name the value that its slot holds.
pub proof fn lemma_first_round(f: IrFunctionView, k: Machine)
    requires
        function_fits(f),
        all_calm(f.instrs),
    ensures
        staged(
            f,
            k,
            ir_run(f.instrs, entry(f.params, k, slots(f))),
            run(selected_listing(f), before(k, slots(f))),
            run(replaced_listing(f), k),
            run(codegen_function(f).instructions, k),
        ),
{
    let selected = selected_listing(f);
    let replaced = replaced_listing(f);
    let a = slots(f);
    let m = before(k, a);
    let moves = param_moves(f.params);
    let body = select_all(f.instrs);
    let go = Outcome::Goes(k);
    lemma_listings(f);
    lemma_param_moves_run(f.params, m);
    let m1 = Machine { vars: bound(f.params, m), ..m };
    lemma_select_all_follows(Outcome::Goes(m1.vars), Outcome::Goes(m1), f.instrs, m);
    lemma_run_concat(Outcome::Goes(m), moves, body);
    lemma_run_slot(selected, replaced, Outcome::Goes(m), go, a);
    let n = moves.len() as int;
    let first = replaced.take(n);
    let rest = replaced.skip(n);
    assert(replaced =~= first + rest);
    assert forall|j: int| 0 <= j < first.len() implies entry_move(#[trigger] first[j]) by {
        assert(first[j] == replaced[j]);
    }
    assert forall|j: int| 0 <= j < rest.len() implies all_spare(#[trigger] rest[j]) by {
        assert(rest[j] == replaced[j + n]);
    }
    lemma_fixup_concat(first, rest);
    lemma_fixup_moves(first, k, k);
    lemma_run_concat(go, first, rest);
    lemma_run_concat(go, fixup_instrs(first), fixup_instrs(rest));
    lemma_fixup_run(rest, run_from(go, first), run_from(go, fixup_instrs(first)));
    let head = InstructionView::AllocateStack(frame_size(a.offset));
    lemma_run_one(go, head);
    lemma_run_concat(go, seq![head], fixup_instrs(replaced));
}

/// One more round over the three listings of a function follows one more
/// round over its instructions, after a jump.
pub proof fn lemma_next_round(
    f: IrFunctionView,
    k: Machine,
    o: Outcome<Env>,
    p1: Outcome<Machine>,
    p2: Outcome<Machine>,
    p3: Outcome<Machine>,
)
    requires
        function_fits(f),
        all_calm(f.instrs),
        staged(f, k, o, p1, p2, p3),
        o is Seeks,
    ensures
        staged(
            f,
            k,
            ir_run_from(o, f.instrs),
            run_from(p1, selected_listing(f)),
            run_from(p2, replaced_listing(f)),
            run_from(p3, codegen_function(f).instructions),
        ),
{
    let selected = selected_listing(f);
    let replaced = replaced_listing(f);
    let a = slots(f);
    let m = before(k, a);
    let moves = param_moves(f.params);
    let body = select_all(f.instrs);
    lemma_listings(f);
    assert forall|j: int| 0 <= j < moves.len() implies #[trigger] moves[j]
        != InstructionView::Label(p1->Seeks_1) by {}
    lemma_run_passes(p1, moves);
    lemma_run_concat(p1, moves, body);
    lemma_select_all_follows(o, p1, f.instrs, m);
    lemma_run_slot(selected, replaced, p1, p2, a);
    let n = moves.len() as int;
    let first = replaced.take(n);
    let rest = replaced.skip(n);
    assert(replaced =~= first + rest);
    assert forall|j: int| 0 <= j < first.len() implies entry_move(#[trigger] first[j]) by {
        assert(first[j] == replaced[j]);
    }
    assert forall|j: int| 0 <= j < rest.len() implies all_spare(#[trigger] rest[j]) by {
        assert(rest[j] == replaced[j + n]);
    }
    lemma_fixup_concat(first, rest);
    lemma_moves_pass(first, p2);
    lemma_moves_pass(first, p3);
    lemma_run_concat(p2, first, rest);
    lemma_run_concat(p3, fixup_instrs(first), fixup_instrs(rest));
    lemma_fixup_run(rest, p2, p3);
    let head = InstructionView::AllocateStack(frame_size(a.offset));
    lemma_run_one(p3, head);
    lemma_run_concat(p3, seq![head], fixup_instrs(replaced));
}

/// The rounds over the listing of a function return what the rounds over
/// its instructions return, after a jump.
pub proof fn lemma_later_rounds(
    f: IrFunctionView,
    k: Machine,
    o: Outcome<Env>,
    p1: Outcome<Machine>,
    p2: Outcome<Machine>,
    p3: Outcome<Machine>,
    n: nat,
    v: i32,
)
    requires
        function_fits(f),
        all_calm(f.instrs),
        staged(f, k, o, p1, p2, p3),
        o is Seeks,
        ir_rounds(o, f.instrs, n) == Outcome::<Env>::Returns(v),
    ensures
        rounds(p3, codegen_function(f).instructions, n) == Outcome::<Machine>::Returns(v),
    decreases n,
{
    lemma_next_round(f, k, o, p1, p2, p3);
    let o1 = ir_run_from(o, f.instrs);
    if n > 0 && o1 is Seeks {
        lemma_later_rounds(
            f,
            k,
            o1,
            run_from(p1, selected_listing(f)),
            run_from(p2, replaced_listing(f)),
            run_from(p3, codegen_function(f).instructions),
            (n - 1) as nat,
            v,
        );
    }
}

/// The listing of a function whose instructions are calm returns what the
/// instructions return, in as many rounds, where each parameter has at first
/// the value of its argument and each other name the value that its slot
/// holds when the listing starts.
pub proof fn lemma_listing_returns(f: IrFunctionView, k: Machine, n: nat, v: i32)
    requires
        function_fits(f),
        all_calm(f.instrs),
        ir_rounds(
            Outcome::Goes(entry(f.params, k, codegen_function(f).stack_allocator)),
            f.instrs,
            n,
        ) == Outcome::<Env>::Returns(v),
    ensures
        rounds(Outcome::Goes(k), codegen_function(f).instructions, n) == Outcome::<
            Machine,
        >::Returns(v),
{
    lemma_first_round(f, k);
    let o1 = ir_run(f.instrs, entry(f.params, k, slots(f)));
    if n > 0 && o1 is Seeks {
        lemma_later_rounds(
            f,
            k,
            o1,
            run(selected_listing(f), before(k, slots(f))),
            run(replaced_listing(f), k),
            run(codegen_function(f).instructions, k),
            (n - 1) as nat,
            v,
        );
    }
}

/// The function whose body is the block, lowered from the counter `c`.
pub open spec fn function_of_block(
    name: Seq<char>,
    params: Seq<Seq<char>>,
    items: Seq<BlockItemView>,
    c: usize,
) -> IrFunctionView {
    lower_function(name, params, items, c).0
}

/// What a function returns whose body went the given way: the value that
/// the body returned, or 0 where the body came to its end.
pub open spec fn returned(flow: Flow) -> i32 {
    match flow {
        Flow::Returned(v) => v,
        Flow::Continues(_) => 0,
    }
}

/// The listing of a function whose body is a plain block returns what the
/// body returns, or 0 where the body comes to its end, where the values of
/// the expressions are defined, each parameter has at first the value of its
/// argument, and each other variable the value that its slot holds when the
/// listing starts. The block mentions none of the temporaries that lowering
/// mints, and their places are values of the counter. Every label of the
/// listing is defined once, so that the next label of a name further down,
/// where a jump of the run goes on, is the label of that name.
pub proof fn lemma_body_returns(
    name: Seq<char>,
    params: Seq<Seq<char>>,
    items: Seq<BlockItemView>,
    c: usize,
    k: Machine,
)
    requires
        plain_items(items),
        items_mints(items) <= usize::MAX + 1,
        fresh_items(items, c, 0, items_mints(items)),
        function_fits(function_of_block(name, params, items, c)),
        exec_items(
            items,
            entry(
                params,
                k,
                codegen_function(function_of_block(name, params, items, c)).stack_allocator,
            ),
        ) is Some,
    ensures
        run(codegen_function(function_of_block(name, params, items, c)).instructions, k)
            == Outcome::<Machine>::Returns(
            returned(
                exec_items(
                    items,
                    entry(
                        params,
                        k,
                        codegen_function(
                            function_of_block(name, params, items, c),
                        ).stack_allocator,
                    ),
                )->0,
            ),
        ),
        asm_defines_once(codegen_function(function_of_block(name, params, items, c))),
{
    let f = function_of_block(name, params, items, c);
    let env = entry(params, k, codegen_function(f).stack_allocator);
    let none = Seq::<InstrView>::empty();
    lemma_advance_one(c);
    lemma_wrap32_same(0);
    assert(all_calm(none));
    lemma_lower_items_calm(items, none, c, 0);
    lemma_lower_items_keep(items, none, c, 0, 0, Outcome::Goes(env), env, env);
    let a1 = lower_items(items, none, c).0;
    let last = InstrView::Return(ValView::Integer(0));
    lemma_ir_run_push(Outcome::Goes(env), a1, last);
    lemma_calm_push(a1, last);
    lemma_listing_returns(f, k, 0, returned(exec_items(items, env)->0));
    lemma_plain_items_numbered(items, c, 0);
    lemma_lower_function_unique(name, params, items, c, 0, 0);
    lemma_codegen_defined(f);
}

/// The listing of a function whose body returns an expression that changes
/// nothing returns the value of the expression, where the value is defined,
/// each parameter has the value of its argument, and each other variable
/// the value that its slot holds when the listing starts. The expression
/// reads none of the temporaries that lowering mints, and their places are
/// values of the counter. Every label of the listing is defined once.
pub proof fn lemma_returns_value(
    name: Seq<char>,
    params: Seq<Seq<char>>,
    e: ExprView,
    c: usize,
    k: Machine,
)
    requires
        pure(e),
        expr_mints(e) <= usize::MAX + 1,
        fresh(e, c, 0, expr_mints(e)),
        function_fits(function_returning(name, params, e, c)),
        eval(
            e,
            entry(
                params,
                k,
                codegen_function(function_returning(name, params, e, c)).stack_allocator,
            ),
        ) is Some,
    ensures
        run(codegen_function(function_returning(name, params, e, c)).instructions, k)
            == Outcome::<Machine>::Returns(
            eval(
                e,
                entry(
                    params,
                    k,
                    codegen_function(function_returning(name, params, e, c)).stack_allocator,
                ),
            )->0,
        ),
        asm_defines_once(codegen_function(function_returning(name, params, e, c))),
{
    let items = seq![BlockItemView::Stmt(StmtView::Return(e))];
    let front = items.drop_last();
    let last = items.last();
    let env = entry(
        params,
        k,
        codegen_function(function_returning(name, params, e, c)).stack_allocator,
    );
    assert(front =~= Seq::<BlockItemView>::empty());
    assert(last == BlockItemView::Stmt(StmtView::Return(e)));
    assert(plain_items(front));
    assert(plain_item(last));
    assert(plain_items(items));
    assert(items_mints(front) == 0);
    assert(item_mints(last) == expr_mints(e));
    assert(items_mints(items) == expr_mints(e));
    assert forall|name: Seq<char>| items_mention(items, name) implies mentions(e, name) by {
        assert(!items_mention(front, name));
        assert(item_mentions(last, name));
    }
    assert(exec_items(front, env) == Some(Flow::Continues(env)));
    assert(exec_item(last, env) == Some(Flow::Returned(eval(e, env)->0)));
    assert(exec_items(items, env) == Some(Flow::Returned(eval(e, env)->0)));
    lemma_body_returns(name, params, items, c, k);
}

} // verus!
