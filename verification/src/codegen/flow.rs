//! Jumps and labels of an instruction listing. Code generation keeps the
//! labels that a function defines and the labels that its jumps go to.

use vstd::prelude::*;
use crate::tacky::tacky::{InstrView, ValView};
use crate::tacky::tacky::FunctionView as IrFunctionView;
use crate::tacky::flow::{Labels, defines, jumps_to, label_defs, jump_targets, optional, closed};
use crate::tacky::flow::lemma_push_labels as lemma_ir_push_labels;
use crate::tacky::flow::lemma_empty_labels as lemma_ir_empty_labels;
use crate::codegen::assembly::InstructionView;
use crate::codegen::stack_allocator::StackAllocatorView;
use crate::codegen::selection::{
    param_moves, select, select_all, select_call, register_moves, stack_pushes, push_arg,
};
use crate::codegen::rewrite::{
    replace_instr, replace_instrs, replace_function, fixup_instr, fixup_instrs, fixup_function,
    frame_size,
};

verus! {

/// The label that the instruction defines, if it defines one.
pub open spec fn asm_defines(i: InstructionView) -> Option<Seq<char>> {
    match i {
        InstructionView::Label(l) => Some(l),
        _ => None,
    }
}

/// The label that the instruction jumps to, if it is a jump.
pub open spec fn asm_jumps_to(i: InstructionView) -> Option<Seq<char>> {
    match i {
        InstructionView::Jmp(l) => Some(l),
        InstructionView::JmpCC(_, l) => Some(l),
        _ => None,
    }
}

/// The labels that the instructions define.
pub open spec fn asm_label_defs(s: Seq<InstructionView>) -> Labels {
    Set::new(
        |l: Seq<char>| exists|i: int| 0 <= i < s.len() && asm_defines(#[trigger] s[i]) == Some(l),
    )
}

/// The labels that the jumps among the instructions go to.
pub open spec fn asm_jump_targets(s: Seq<InstructionView>) -> Labels {
    Set::new(
        |l: Seq<char>| exists|i: int| 0 <= i < s.len() && asm_jumps_to(#[trigger] s[i]) == Some(l),
    )
}

/// Every jump among the instructions goes to a label that the instructions
/// define.
pub open spec fn asm_closed(s: Seq<InstructionView>) -> bool {
    asm_jump_targets(s).subset_of(asm_label_defs(s))
}

/// No instruction of the list is a label or a jump.
pub open spec fn plain(s: Seq<InstructionView>) -> bool {
    forall|i: int|
        0 <= i < s.len() ==> asm_defines(#[trigger] s[i]) is None && asm_jumps_to(s[i]) is None
}

/// A list without labels and jumps defines no label and jumps nowhere.
pub proof fn lemma_plain(s: Seq<InstructionView>)
    requires
        plain(s),
    ensures
        asm_label_defs(s) == Labels::empty(),
        asm_jump_targets(s) == Labels::empty(),
{
    assert forall|l: Seq<char>| !asm_label_defs(s).contains(l) by {
        if asm_label_defs(s).contains(l) {
            let i = choose|i: int| 0 <= i < s.len() && asm_defines(#[trigger] s[i]) == Some(l);
            assert(asm_defines(s[i]) is None);
        }
    }
    assert forall|l: Seq<char>| !asm_jump_targets(s).contains(l) by {
        if asm_jump_targets(s).contains(l) {
            let i = choose|i: int| 0 <= i < s.len() && asm_jumps_to(#[trigger] s[i]) == Some(l);
            assert(asm_jumps_to(s[i]) is None);
        }
    }
    assert(asm_label_defs(s) =~= Labels::empty());
    assert(asm_jump_targets(s) =~= Labels::empty());
}

/// Two lists one after the other define the labels of both, and jump where
/// both jump.
pub proof fn lemma_concat_labels(a: Seq<InstructionView>, b: Seq<InstructionView>)
    ensures
        asm_label_defs(a + b) == asm_label_defs(a).union(asm_label_defs(b)),
        asm_jump_targets(a + b) == asm_jump_targets(a).union(asm_jump_targets(b)),
{
    let t = a + b;
    assert forall|l: Seq<char>| asm_label_defs(t).contains(l) <==> asm_label_defs(a).union(
        asm_label_defs(b),
    ).contains(l) by {
        if asm_label_defs(t).contains(l) {
            let i = choose|i: int| 0 <= i < t.len() && asm_defines(#[trigger] t[i]) == Some(l);
            if i < a.len() {
                assert(a[i] == t[i]);
            } else {
                assert(b[i - a.len()] == t[i]);
            }
        }
        if asm_label_defs(a).contains(l) {
            let i = choose|i: int| 0 <= i < a.len() && asm_defines(#[trigger] a[i]) == Some(l);
            assert(t[i] == a[i]);
        }
        if asm_label_defs(b).contains(l) {
            let i = choose|i: int| 0 <= i < b.len() && asm_defines(#[trigger] b[i]) == Some(l);
            assert(t[a.len() + i] == b[i]);
        }
    }
    assert forall|l: Seq<char>| asm_jump_targets(t).contains(l) <==> asm_jump_targets(a).union(
        asm_jump_targets(b),
    ).contains(l) by {
        if asm_jump_targets(t).contains(l) {
            let i = choose|i: int| 0 <= i < t.len() && asm_jumps_to(#[trigger] t[i]) == Some(l);
            if i < a.len() {
                assert(a[i] == t[i]);
            } else {
                assert(b[i - a.len()] == t[i]);
            }
        }
        if asm_jump_targets(a).contains(l) {
            let i = choose|i: int| 0 <= i < a.len() && asm_jumps_to(#[trigger] a[i]) == Some(l);
            assert(t[i] == a[i]);
        }
        if asm_jump_targets(b).contains(l) {
            let i = choose|i: int| 0 <= i < b.len() && asm_jumps_to(#[trigger] b[i]) == Some(l);
            assert(t[a.len() + i] == b[i]);
        }
    }
    assert(asm_label_defs(t) =~= asm_label_defs(a).union(asm_label_defs(b)));
    assert(asm_jump_targets(t) =~= asm_jump_targets(a).union(asm_jump_targets(b)));
}

/// A single instruction defines its label and jumps to its target.
pub proof fn lemma_single_labels(x: InstructionView)
    ensures
        asm_label_defs(seq![x]) == optional(asm_defines(x)),
        asm_jump_targets(seq![x]) == optional(asm_jumps_to(x)),
{
    let s = seq![x];
    assert forall|l: Seq<char>| asm_label_defs(s).contains(l) <==> optional(
        asm_defines(x),
    ).contains(l) by {
        if asm_label_defs(s).contains(l) {
            let i = choose|i: int| 0 <= i < s.len() && asm_defines(#[trigger] s[i]) == Some(l);
            assert(s[i] == x);
        }
        if optional(asm_defines(x)).contains(l) {
            assert(s[0] == x);
        }
    }
    assert forall|l: Seq<char>| asm_jump_targets(s).contains(l) <==> optional(
        asm_jumps_to(x),
    ).contains(l) by {
        if asm_jump_targets(s).contains(l) {
            let i = choose|i: int| 0 <= i < s.len() && asm_jumps_to(#[trigger] s[i]) == Some(l);
            assert(s[i] == x);
        }
        if optional(asm_jumps_to(x)).contains(l) {
            assert(s[0] == x);
        }
    }
    assert(asm_label_defs(s) =~= optional(asm_defines(x)));
    assert(asm_jump_targets(s) =~= optional(asm_jumps_to(x)));
}

/// The moves of arguments into registers hold no label and no jump.
pub proof fn lemma_register_moves_plain(args: Seq<ValView>, n: int)
    ensures
        plain(register_moves(args, n)),
    decreases n,
{
    if n > 0 {
        lemma_register_moves_plain(args, n - 1);
        assert forall|k: int| 0 <= k < register_moves(args, n).len() implies asm_defines(
            #[trigger] register_moves(args, n)[k],
        ) is None && asm_jumps_to(register_moves(args, n)[k]) is None by {
            if k < register_moves(args, n - 1).len() {
                assert(register_moves(args, n)[k] == register_moves(args, n - 1)[k]);
            }
        }
    }
}

/// The pushes of the stack arguments hold no label and no jump.
pub proof fn lemma_stack_pushes_plain(args: Seq<ValView>, from: int)
    ensures
        plain(stack_pushes(args, from)),
    decreases args.len() - from,
{
    if from < args.len() {
        lemma_stack_pushes_plain(args, from + 1);
        let a = stack_pushes(args, from + 1);
        let b = push_arg(args[from]);
        assert forall|k: int| 0 <= k < (a + b).len() implies asm_defines(#[trigger] (a + b)[k])
            is None && asm_jumps_to((a + b)[k]) is None by {
            if k < a.len() {
                assert((a + b)[k] == a[k]);
            } else {
                assert((a + b)[k] == b[k - a.len()]);
            }
        }
    }
}

/// The instructions of a call hold no label and no jump.
pub proof fn lemma_select_call_plain(name: Seq<char>, args: Seq<ValView>, dst: ValView)
    ensures
        plain(select_call(name, args, dst)),
{
    let n = if args.len() < 6 {
        args.len() as int
    } else {
        6
    };
    lemma_register_moves_plain(args, n);
    lemma_stack_pushes_plain(args, 6);
    let s = select_call(name, args, dst);
    let moves = register_moves(args, n);
    let pushes = stack_pushes(args, 6);
    assert forall|k: int| 0 <= k < s.len() implies asm_defines(#[trigger] s[k]) is None
        && asm_jumps_to(s[k]) is None by {
        let x = s[k];
        if exists|j: int| 0 <= j < moves.len() && moves[j] == x {
            let j = choose|j: int| 0 <= j < moves.len() && moves[j] == x;
            assert(asm_defines(moves[j]) is None);
        } else if exists|j: int| 0 <= j < pushes.len() && pushes[j] == x {
            let j = choose|j: int| 0 <= j < pushes.len() && pushes[j] == x;
            assert(asm_defines(pushes[j]) is None);
        } else {
            assert(x is AllocateStack || x is Call || x is DeallocateStack || x is Mov);
        }
    }
}

/// What is selected for an instruction defines the label that the
/// instruction defines, and jumps where the instruction jumps.
pub proof fn lemma_select_labels(i: InstrView)
    ensures
        asm_label_defs(select(i)) == optional(defines(i)),
        asm_jump_targets(select(i)) == optional(jumps_to(i)),
{
    let s = select(i);
    match i {
        InstrView::FuncCall(name, args, dst) => {
            lemma_select_call_plain(name, args, dst);
            lemma_plain(s);
        },
        InstrView::Label(l) => {
            lemma_single_labels(InstructionView::Label(l));
        },
        InstrView::Jump(l) => {
            lemma_single_labels(InstructionView::Jmp(l));
        },
        InstrView::JumpIfZero(v, l) => {
            lemma_single_labels(s[0]);
            lemma_single_labels(s[1]);
            lemma_concat_labels(seq![s[0]], seq![s[1]]);
            assert(s =~= seq![s[0]] + seq![s[1]]);
        },
        InstrView::JumpIfNotZero(v, l) => {
            lemma_single_labels(s[0]);
            lemma_single_labels(s[1]);
            lemma_concat_labels(seq![s[0]], seq![s[1]]);
            assert(s =~= seq![s[0]] + seq![s[1]]);
        },
        _ => {
            assert(plain(s));
            lemma_plain(s);
        },
    }
}

/// What is selected for a list of instructions defines the labels that the
/// list defines, and jumps where the list jumps.
pub proof fn lemma_select_all_labels(instrs: Seq<InstrView>)
    ensures
        asm_label_defs(select_all(instrs)) == label_defs(instrs),
        asm_jump_targets(select_all(instrs)) == jump_targets(instrs),
    decreases instrs.len(),
{
    if instrs.len() == 0 {
        lemma_ir_empty_labels();
        assert(instrs =~= Seq::empty());
        lemma_plain(select_all(instrs));
    } else {
        lemma_select_all_labels(instrs.drop_last());
        lemma_select_labels(instrs.last());
        lemma_concat_labels(select_all(instrs.drop_last()), select(instrs.last()));
        lemma_ir_push_labels(instrs.drop_last(), instrs.last());
        assert(instrs.drop_last().push(instrs.last()) =~= instrs);
    }
}

/// Replacement keeps the labels and the jumps of a list of instructions.
pub proof fn lemma_replace_labels(s: Seq<InstructionView>, a: StackAllocatorView)
    ensures
        asm_label_defs(replace_instrs(s, a).0) == asm_label_defs(s),
        asm_jump_targets(replace_instrs(s, a).0) == asm_jump_targets(s),
    decreases s.len(),
{
    if s.len() == 0 {
        assert(replace_instrs(s, a).0 =~= s);
    } else {
        lemma_replace_labels(s.drop_last(), a);
        let (done, a1) = replace_instrs(s.drop_last(), a);
        let x = replace_instr(s.last(), a1).0;
        assert(asm_defines(x) == asm_defines(s.last()));
        assert(asm_jumps_to(x) == asm_jumps_to(s.last()));
        lemma_single_labels(x);
        lemma_single_labels(s.last());
        lemma_concat_labels(done, seq![x]);
        lemma_concat_labels(s.drop_last(), seq![s.last()]);
        assert(done.push(x) =~= done + seq![x]);
        assert(s =~= s.drop_last() + seq![s.last()]);
    }
}

/// The rewriting of operands keeps the labels and the jumps of a list of
/// instructions.
pub proof fn lemma_fixup_labels(s: Seq<InstructionView>)
    ensures
        asm_label_defs(fixup_instrs(s)) == asm_label_defs(s),
        asm_jump_targets(fixup_instrs(s)) == asm_jump_targets(s),
    decreases s.len(),
{
    if s.len() == 0 {
        assert(fixup_instrs(s) =~= s);
    } else {
        lemma_fixup_labels(s.drop_last());
        let x = s.last();
        let f = fixup_instr(x);
        if asm_defines(x) is Some || asm_jumps_to(x) is Some {
            assert(f =~= seq![x]);
        } else {
            assert(plain(f));
            lemma_plain(f);
            assert(plain(seq![x]));
            lemma_plain(seq![x]);
        }
        lemma_concat_labels(fixup_instrs(s.drop_last()), f);
        lemma_concat_labels(s.drop_last(), seq![x]);
        assert(s =~= s.drop_last() + seq![x]);
    }
}

/// Code generation keeps the labels that a function defines and the labels
/// that its jumps go to.
pub proof fn lemma_codegen_labels(f: IrFunctionView)
    ensures
        asm_label_defs(crate::codegen::codegen_function(f).instructions) == label_defs(f.instrs),
        asm_jump_targets(crate::codegen::codegen_function(f).instructions) == jump_targets(
            f.instrs,
        ),
{
    let selected = crate::codegen::selected_function(f);
    assert(plain(param_moves(f.params)));
    lemma_plain(param_moves(f.params));
    lemma_select_all_labels(f.instrs);
    lemma_concat_labels(param_moves(f.params), select_all(f.instrs));
    assert(asm_label_defs(selected.instructions) =~= label_defs(f.instrs));
    assert(asm_jump_targets(selected.instructions) =~= jump_targets(f.instrs));
    lemma_replace_labels(selected.instructions, selected.stack_allocator);
    let replaced = replace_function(selected);
    lemma_fixup_labels(replaced.instructions);
    let head = seq![InstructionView::AllocateStack(frame_size(replaced.stack_allocator.offset))];
    assert(plain(head));
    lemma_plain(head);
    lemma_concat_labels(head, fixup_instrs(replaced.instructions));
    assert(asm_label_defs(fixup_function(replaced).instructions) =~= label_defs(f.instrs));
    assert(asm_jump_targets(fixup_function(replaced).instructions) =~= jump_targets(f.instrs));
}

/// Where every jump of a function goes to a label that the function
/// defines, the same holds of the instruction listing of the function.
pub proof fn lemma_codegen_closed(f: IrFunctionView)
    requires
        closed(f.instrs),
    ensures
        asm_closed(crate::codegen::codegen_function(f).instructions),
{
    lemma_codegen_labels(f);
}

} // verus!
