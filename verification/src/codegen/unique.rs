//! Code generation keeps the labels that a function defines, one for one
//! and in their order: a label that is defined once in a function of the
//! intermediate representation is defined once in its instruction listing.

use vstd::prelude::*;
use crate::tacky::tacky::{InstrView, TackyProgramView};
use crate::tacky::tacky::FunctionView as IrFunctionView;
use crate::tacky::unique::{defined_labels, defines_once, program_defines_once};
use crate::validator::fresh::{NameList, all_different};
use crate::codegen::assembly::{InstructionView, FunctionView, AssemblyView};
use crate::codegen::stack_allocator::StackAllocatorView;
use crate::codegen::selection::{param_moves, select, select_all};
use crate::codegen::rewrite::{
    replace_instr, replace_instrs, replace_function, fixup_instr, fixup_instrs, frame_size,
};
use crate::codegen::flow::{asm_defines, lemma_select_call_plain};
use crate::codegen::{selected_function, codegen_function, codegen_program};

verus! {

/// The labels that the instructions define, in order.
#[verifier::opaque]
pub open spec fn asm_defined_labels(s: Seq<InstructionView>) -> NameList
    decreases s.len(),
{
    if s.len() == 0 {
        Seq::empty()
    } else {
        match asm_defines(s.last()) {
            Some(l) => asm_defined_labels(s.drop_last()).push(l),
            None => asm_defined_labels(s.drop_last()),
        }
    }
}

/// Every label of the listing of the function is defined once.
pub open spec fn asm_defines_once(f: FunctionView) -> bool {
    all_different(asm_defined_labels(f.instructions))
}

/// Every label of every function of the program is defined once.
pub open spec fn asm_program_defines_once(a: AssemblyView) -> bool {
    forall|k: int| 0 <= k < a.functions.len() ==> asm_defines_once(#[trigger] a.functions[k])
}

/// No instruction of the list is a label.
pub open spec fn unlabelled(s: Seq<InstructionView>) -> bool {
    forall|i: int| 0 <= i < s.len() ==> asm_defines(#[trigger] s[i]) is None
}

/// A list without labels defines none.
pub proof fn lemma_unlabelled(s: Seq<InstructionView>)
    requires
        unlabelled(s),
    ensures
        asm_defined_labels(s) == NameList::empty(),
    decreases s.len(),
{
    reveal(asm_defined_labels);
    if s.len() > 0 {
        assert(asm_defines(s[s.len() - 1]) is None);
        lemma_unlabelled(s.drop_last());
    }
}

/// Two lists one after the other define the labels of the first and then
/// those of the second.
pub proof fn lemma_concat_defined(a: Seq<InstructionView>, b: Seq<InstructionView>)
    ensures
        asm_defined_labels(a + b) == asm_defined_labels(a) + asm_defined_labels(b),
    decreases b.len(),
{
    reveal(asm_defined_labels);
    if b.len() == 0 {
        assert(a + b =~= a);
        assert(asm_defined_labels(a) + asm_defined_labels(b) =~= asm_defined_labels(a));
    } else {
        lemma_concat_defined(a, b.drop_last());
        assert((a + b).drop_last() =~= a + b.drop_last());
        assert((a + b).last() == b.last());
        let front = asm_defined_labels(a) + asm_defined_labels(b.drop_last());
        match asm_defines(b.last()) {
            Some(l) => {
                assert(front.push(l) =~= asm_defined_labels(a) + asm_defined_labels(
                    b.drop_last(),
                ).push(l));
            },
            None => {},
        }
    }
}

/// A single instruction defines its label.
pub proof fn lemma_single_defined(x: InstructionView)
    ensures
        asm_defined_labels(seq![x]) == (match asm_defines(x) {
            Some(l) => seq![l],
            None => NameList::empty(),
        }),
{
    reveal(asm_defined_labels);
    let s = seq![x];
    assert(s.last() == x);
    assert(s.drop_last() =~= Seq::<InstructionView>::empty());
    assert(asm_defined_labels(s.drop_last()) =~= NameList::empty());
    match asm_defines(x) {
        Some(l) => {
            assert(NameList::empty().push(l) =~= seq![l]);
        },
        None => {},
    }
}

/// What is selected for an instruction defines the label that the
/// instruction defines.
pub proof fn lemma_select_defined(i: InstrView)
    ensures
        asm_defined_labels(select(i)) == (match i {
            InstrView::Label(l) => seq![l],
            _ => NameList::empty(),
        }),
{
    let s = select(i);
    match i {
        InstrView::FuncCall(name, args, dst) => {
            lemma_select_call_plain(name, args, dst);
            assert(unlabelled(s)) by {
                assert forall|k: int| 0 <= k < s.len() implies asm_defines(#[trigger] s[k])
                    is None by {}
            }
            lemma_unlabelled(s);
        },
        InstrView::Label(l) => {
            lemma_single_defined(InstructionView::Label(l));
            assert(s =~= seq![InstructionView::Label(l)]);
        },
        _ => {
            assert(unlabelled(s));
            lemma_unlabelled(s);
        },
    }
}

/// What is selected for a list of instructions defines the labels that the
/// list defines, in the same order.
pub proof fn lemma_select_all_defined(instrs: Seq<InstrView>)
    ensures
        asm_defined_labels(select_all(instrs)) == defined_labels(instrs),
    decreases instrs.len(),
{
    reveal(defined_labels);
    if instrs.len() == 0 {
        lemma_unlabelled(select_all(instrs));
    } else {
        let front = instrs.drop_last();
        lemma_select_all_defined(front);
        lemma_select_defined(instrs.last());
        lemma_concat_defined(select_all(front), select(instrs.last()));
        match instrs.last() {
            InstrView::Label(l) => {
                assert(defined_labels(front) + seq![l] =~= defined_labels(front).push(l));
            },
            _ => {
                assert(defined_labels(front) + NameList::empty() =~= defined_labels(front));
            },
        }
    }
}

/// Replacement keeps the labels that a list of instructions defines.
pub proof fn lemma_replace_defined(s: Seq<InstructionView>, a: StackAllocatorView)
    ensures
        asm_defined_labels(replace_instrs(s, a).0) == asm_defined_labels(s),
    decreases s.len(),
{
    reveal(asm_defined_labels);
    if s.len() > 0 {
        lemma_replace_defined(s.drop_last(), a);
        let (done, a1) = replace_instrs(s.drop_last(), a);
        let x = replace_instr(s.last(), a1).0;
        assert(asm_defines(x) == asm_defines(s.last()));
        assert(done.push(x).drop_last() =~= done);
        assert(done.push(x).last() == x);
    }
}

/// The rewriting of operands keeps the labels that a list of instructions
/// defines.
pub proof fn lemma_fixup_defined(s: Seq<InstructionView>)
    ensures
        asm_defined_labels(fixup_instrs(s)) == asm_defined_labels(s),
    decreases s.len(),
{
    if s.len() == 0 {
        assert(fixup_instrs(s) =~= s);
    } else {
        lemma_fixup_defined(s.drop_last());
        let x = s.last();
        let f = fixup_instr(x);
        if asm_defines(x) is Some {
            assert(f =~= seq![x]);
        } else {
            assert(unlabelled(f));
            lemma_unlabelled(f);
            assert(unlabelled(seq![x]));
            lemma_unlabelled(seq![x]);
        }
        lemma_concat_defined(fixup_instrs(s.drop_last()), f);
        lemma_concat_defined(s.drop_last(), seq![x]);
        assert(s =~= s.drop_last() + seq![x]);
    }
}

/// The listing of a function defines the labels that the function defines,
/// in the same order.
pub proof fn lemma_codegen_defined(f: IrFunctionView)
    ensures
        asm_defined_labels(codegen_function(f).instructions) == defined_labels(f.instrs),
{
    let selected = selected_function(f);
    let moves = param_moves(f.params);
    assert(unlabelled(moves));
    lemma_unlabelled(moves);
    lemma_select_all_defined(f.instrs);
    lemma_concat_defined(moves, select_all(f.instrs));
    assert(NameList::empty() + defined_labels(f.instrs) =~= defined_labels(f.instrs));
    lemma_replace_defined(selected.instructions, selected.stack_allocator);
    let replaced = replace_function(selected);
    lemma_fixup_defined(replaced.instructions);
    let head = seq![InstructionView::AllocateStack(frame_size(replaced.stack_allocator.offset))];
    assert(unlabelled(head));
    lemma_unlabelled(head);
    lemma_concat_defined(head, fixup_instrs(replaced.instructions));
}

/// Where every label of every function of a program is defined once, the
/// same holds of the instruction listing of the program.
pub proof fn lemma_codegen_defines_once(p: TackyProgramView)
    requires
        program_defines_once(p),
    ensures
        asm_program_defines_once(codegen_program(p)),
{
    let a = codegen_program(p);
    assert forall|k: int| 0 <= k < a.functions.len() implies asm_defines_once(
        #[trigger] a.functions[k],
    ) by {
        assert(a.functions[k] == codegen_function(p.funcs[k]));
        assert(defines_once(p.funcs[k]));
        lemma_codegen_defined(p.funcs[k]);
    }
}

} // verus!
