//! Code generation uses registers only at widths that the machine has.

use vstd::prelude::*;
use crate::tacky::tacky::{InstrView, ValView};
use crate::codegen::assembly::InstructionView;
use crate::codegen::stack_allocator::StackAllocatorView;
use crate::codegen::selection::{
    param_moves, select, select_all, select_call, register_moves, stack_pushes,
    push_arg, function_body,
};
use crate::codegen::rewrite::{operands, replace_instr, replace_instrs, fixup_instr, fixup_instrs};
use crate::codegen::emit::{operand_wf, instruction_wf, instructions_wf};

verus! {

/// Two lists of well-formed instructions make a well-formed list.
pub proof fn lemma_concat_wf(a: Seq<InstructionView>, b: Seq<InstructionView>)
    requires
        instructions_wf(a),
        instructions_wf(b),
    ensures
        instructions_wf(a + b),
{
    assert forall|k: int| 0 <= k < (a + b).len() implies instruction_wf(#[trigger] (a + b)[k]) by {
        if k < a.len() {
            assert((a + b)[k] == a[k]);
        } else {
            assert((a + b)[k] == b[k - a.len()]);
        }
    }
}

/// The moves of arguments into registers are well-formed.
pub proof fn lemma_register_moves_wf(args: Seq<ValView>, n: int)
    ensures
        instructions_wf(register_moves(args, n)),
    decreases n,
{
    if n > 0 {
        lemma_register_moves_wf(args, n - 1);
        let last = register_moves(args, n).last();
        assert(instruction_wf(last)) by {
            assert(operands(last).len() == 2);
        }
        assert forall|k: int| 0 <= k < register_moves(args, n).len() implies instruction_wf(
            #[trigger] register_moves(args, n)[k],
        ) by {
            if k < register_moves(args, n - 1).len() {
                assert(register_moves(args, n)[k] == register_moves(args, n - 1)[k]);
            }
        }
    }
}

/// The push of an argument is well-formed.
pub proof fn lemma_push_arg_wf(v: ValView)
    ensures
        instructions_wf(push_arg(v)),
{
    assert forall|k: int| 0 <= k < push_arg(v).len() implies instruction_wf(
        #[trigger] push_arg(v)[k],
    ) by {}
}

/// The pushes of the stack arguments are well-formed.
pub proof fn lemma_stack_pushes_wf(args: Seq<ValView>, from: int)
    ensures
        instructions_wf(stack_pushes(args, from)),
    decreases args.len() - from,
{
    if from < args.len() {
        lemma_stack_pushes_wf(args, from + 1);
        lemma_push_arg_wf(args[from]);
        lemma_concat_wf(stack_pushes(args, from + 1), push_arg(args[from]));
    }
}

/// The instructions of a call are well-formed.
pub proof fn lemma_select_call_wf(name: Seq<char>, args: Seq<ValView>, dst: ValView)
    ensures
        instructions_wf(select_call(name, args, dst)),
{
    let n = if args.len() < 6 {
        args.len() as int
    } else {
        6
    };
    lemma_register_moves_wf(args, n);
    lemma_stack_pushes_wf(args, 6);
    let s = select_call(name, args, dst);
    let moves = register_moves(args, n);
    let pushes = stack_pushes(args, 6);
    assert forall|k: int| 0 <= k < s.len() implies instruction_wf(#[trigger] s[k]) by {
        let x = s[k];
        if exists|j: int| 0 <= j < moves.len() && moves[j] == x {
            let j = choose|j: int| 0 <= j < moves.len() && moves[j] == x;
            assert(instruction_wf(moves[j]));
        } else if exists|j: int| 0 <= j < pushes.len() && pushes[j] == x {
            let j = choose|j: int| 0 <= j < pushes.len() && pushes[j] == x;
            assert(instruction_wf(pushes[j]));
        } else {
            assert(x is AllocateStack || x is Call || x is DeallocateStack || x is Mov);
        }
    }
}

/// The instructions selected for one instruction are well-formed.
pub proof fn lemma_select_wf(i: InstrView)
    ensures
        instructions_wf(select(i)),
{
    match i {
        InstrView::FuncCall(name, args, dst) => {
            lemma_select_call_wf(name, args, dst);
        },
        _ => {
            assert forall|k: int| 0 <= k < select(i).len() implies instruction_wf(
                #[trigger] select(i)[k],
            ) by {}
        },
    }
}

/// The instructions selected for a list are well-formed.
pub proof fn lemma_select_all_wf(instrs: Seq<InstrView>)
    ensures
        instructions_wf(select_all(instrs)),
    decreases instrs.len(),
{
    if instrs.len() > 0 {
        lemma_select_all_wf(instrs.drop_last());
        lemma_select_wf(instrs.last());
        lemma_concat_wf(select_all(instrs.drop_last()), select(instrs.last()));
    }
}

/// The body of a function after selection is well-formed.
pub proof fn lemma_function_body_wf(params: Seq<Seq<char>>, instrs: Seq<InstrView>)
    ensures
        instructions_wf(function_body(params, instrs)),
{
    lemma_select_all_wf(instrs);
    assert forall|k: int| 0 <= k < param_moves(params).len() implies instruction_wf(
        #[trigger] param_moves(params)[k],
    ) by {
        assert(operands(param_moves(params)[k]).len() == 2);
    }
    lemma_concat_wf(param_moves(params), select_all(instrs));
}

/// Replacement keeps an instruction well-formed.
pub proof fn lemma_replace_instr_wf(i: InstructionView, a: StackAllocatorView)
    requires
        instruction_wf(i),
    ensures
        instruction_wf(replace_instr(i, a).0),
{
    let ops = operands(i);
    if ops.len() >= 1 {
        assert(operand_wf(ops[0]));
    }
    if ops.len() >= 2 {
        assert(operand_wf(ops[1]));
    }
}

/// Replacement keeps a list of instructions well-formed.
pub proof fn lemma_replace_instrs_wf(s: Seq<InstructionView>, a: StackAllocatorView)
    requires
        instructions_wf(s),
    ensures
        instructions_wf(replace_instrs(s, a).0),
    decreases s.len(),
{
    if s.len() > 0 {
        assert forall|k: int| 0 <= k < s.drop_last().len() implies instruction_wf(
            #[trigger] s.drop_last()[k],
        ) by {
            assert(s.drop_last()[k] == s[k]);
        }
        lemma_replace_instrs_wf(s.drop_last(), a);
        assert(instruction_wf(s.last()));
        lemma_replace_instr_wf(s.last(), replace_instrs(s.drop_last(), a).1);
    }
}

/// The rewriting of operands keeps an instruction well-formed.
pub proof fn lemma_fixup_instr_wf(i: InstructionView)
    requires
        instruction_wf(i),
    ensures
        instructions_wf(fixup_instr(i)),
{
    let ops = operands(i);
    if ops.len() >= 1 {
        assert(operand_wf(ops[0]));
    }
    if ops.len() >= 2 {
        assert(operand_wf(ops[1]));
    }
    assert forall|k: int| 0 <= k < fixup_instr(i).len() implies instruction_wf(
        #[trigger] fixup_instr(i)[k],
    ) by {}
}

/// The rewriting of operands keeps a list of instructions well-formed.
pub proof fn lemma_fixup_instrs_wf(s: Seq<InstructionView>)
    requires
        instructions_wf(s),
    ensures
        instructions_wf(fixup_instrs(s)),
    decreases s.len(),
{
    if s.len() > 0 {
        assert forall|k: int| 0 <= k < s.drop_last().len() implies instruction_wf(
            #[trigger] s.drop_last()[k],
        ) by {
            assert(s.drop_last()[k] == s[k]);
        }
        lemma_fixup_instrs_wf(s.drop_last());
        assert(instruction_wf(s.last()));
        lemma_fixup_instr_wf(s.last());
        lemma_concat_wf(fixup_instrs(s.drop_last()), fixup_instr(s.last()));
    }
}

} // verus!
