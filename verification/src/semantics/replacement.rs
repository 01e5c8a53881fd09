//! The replacement of pseudo-operands keeps what a listing computes: where
//! each name has its value in the slot that it is given, the listing with
//! the slots does what the listing with the names does.

use vstd::prelude::*;
use crate::codegen::assembly::{InstructionView, OperandView};
use crate::codegen::stack_allocator::StackAllocatorView;
use crate::codegen::rewrite::{
    slot_size, replace_operand, replace_pair, replace_instr, replace_instrs,
};
use crate::semantics::ir::Outcome;
use crate::semantics::values::{low_byte, neg32, not32, shl32, sar32, truth};
use crate::semantics::machine::{
    Machine, load, store, store_low, holds, arithmetic, step, next, run_from,
};

verus! {

/// The slots of the allocator lie below the frame pointer, within the bytes
/// handed out, and no two names share one.
pub open spec fn sound(a: StackAllocatorView) -> bool {
    &&& 0 <= a.offset
    &&& forall|name: Seq<char>| #[trigger]
        a.map.contains_key(name) ==> 0 < a.map[name] <= a.offset
    &&& forall|x: Seq<char>, y: Seq<char>|
        a.map.contains_key(x) && a.map.contains_key(y) && x != y ==> #[trigger] a.map[x]
            != #[trigger] a.map[y]
}

/// The allocator `big` has every slot of `small`.
pub open spec fn extends(big: StackAllocatorView, small: StackAllocatorView) -> bool {
    forall|name: Seq<char>| #[trigger]
        small.map.contains_key(name) ==> big.map.contains_key(name) && big.map[name]
            == small.map[name]
}

/// The operand with the slot of its name in place of the name.
pub open spec fn slot_of(o: OperandView, a: StackAllocatorView) -> OperandView {
    match o {
        OperandView::Pseudo(name) => OperandView::Stack((-a.map[name]) as i64),
        _ => o,
    }
}

/// The operand is one that the allocator can place: a name with a slot, a
/// slot of the caller's frame, a register or a constant.
pub open spec fn placed(o: OperandView, a: StackAllocatorView) -> bool {
    match o {
        OperandView::Pseudo(name) => a.map.contains_key(name),
        OperandView::Stack(off) => off >= 0,
        _ => true,
    }
}

/// The instruction with the slots of its names in place of the names.
pub open spec fn slotted(i: InstructionView, a: StackAllocatorView) -> InstructionView {
    match i {
        InstructionView::Mov(x, y) => InstructionView::Mov(slot_of(x, a), slot_of(y, a)),
        InstructionView::Movb(x, y) => InstructionView::Movb(slot_of(x, a), slot_of(y, a)),
        InstructionView::Binary(op, x, y) => InstructionView::Binary(
            op,
            slot_of(x, a),
            slot_of(y, a),
        ),
        InstructionView::Cmp(x, y) => InstructionView::Cmp(slot_of(x, a), slot_of(y, a)),
        InstructionView::Shl(x, y) => InstructionView::Shl(slot_of(x, a), slot_of(y, a)),
        InstructionView::Shr(x, y) => InstructionView::Shr(slot_of(x, a), slot_of(y, a)),
        InstructionView::Unary(op, x) => InstructionView::Unary(op, slot_of(x, a)),
        InstructionView::Idiv(x) => InstructionView::Idiv(slot_of(x, a)),
        InstructionView::SetCC(cc, x) => InstructionView::SetCC(cc, slot_of(x, a)),
        InstructionView::Push(x) => InstructionView::Push(slot_of(x, a)),
        _ => i,
    }
}

/// Every operand of the instruction is one that the allocator can place.
pub open spec fn all_placed(i: InstructionView, a: StackAllocatorView) -> bool {
    match i {
        InstructionView::Mov(x, y) => placed(x, a) && placed(y, a),
        InstructionView::Movb(x, y) => placed(x, a) && placed(y, a),
        InstructionView::Binary(_, x, y) => placed(x, a) && placed(y, a),
        InstructionView::Cmp(x, y) => placed(x, a) && placed(y, a),
        InstructionView::Shl(x, y) => placed(x, a) && placed(y, a),
        InstructionView::Shr(x, y) => placed(x, a) && placed(y, a),
        InstructionView::Unary(_, x) => placed(x, a),
        InstructionView::Idiv(x) => placed(x, a),
        InstructionView::SetCC(_, x) => placed(x, a),
        InstructionView::Push(x) => placed(x, a),
        _ => true,
    }
}

/// No operand of the instruction is a slot below the frame pointer.
pub open spec fn slotless(i: InstructionView) -> bool {
    all_placed(
        i,
        StackAllocatorView { offset: 0, map: Map::total(|name: Seq<char>| 0i64) },
    )
}

/// Replacing an operand keeps the allocator sound and its slots, hands out
/// at most one slot, and gives the operand the slot that every later
/// allocator has for its name.
pub proof fn lemma_replace_operand(o: OperandView, a: StackAllocatorView, later: StackAllocatorView)
    requires
        sound(a),
        a.offset + 4 <= i64::MAX,
        extends(later, replace_operand(o, a, slot_size()).1),
    ensures
        sound(replace_operand(o, a, slot_size()).1),
        extends(replace_operand(o, a, slot_size()).1, a),
        replace_operand(o, a, slot_size()).1.offset <= a.offset + 4,
        o is Pseudo ==> placed(o, later),
        replace_operand(o, a, slot_size()).0 == slot_of(o, later),
        extends(later, a),
{
    match o {
        OperandView::Pseudo(name) => {
            let a1 = a.allocate(name, slot_size());
            assert(a1.map.contains_key(name));
            assert(a1.map[name] == a.offset_of(name, slot_size()));
        },
        _ => {},
    }
}

/// Replacing two operands keeps the allocator sound and its slots, and
/// gives each operand the slot that every later allocator has for it.
pub proof fn lemma_replace_pair(
    x: OperandView,
    y: OperandView,
    a: StackAllocatorView,
    later: StackAllocatorView,
)
    requires
        sound(a),
        a.offset + 8 <= i64::MAX,
        extends(later, replace_pair(x, y, a).2),
    ensures
        sound(replace_pair(x, y, a).2),
        extends(replace_pair(x, y, a).2, a),
        replace_pair(x, y, a).2.offset <= a.offset + 8,
        x is Pseudo ==> placed(x, later),
        y is Pseudo ==> placed(y, later),
        replace_pair(x, y, a).0 == slot_of(x, later),
        replace_pair(x, y, a).1 == slot_of(y, later),
        extends(later, a),
{
    let (x1, a1) = replace_operand(x, a, slot_size());
    lemma_replace_operand(x, a, a1);
    lemma_replace_operand(y, a1, later);
    lemma_replace_operand(x, a, later);
}

/// Replacing the operands of an instruction keeps the allocator sound and
/// its slots, and gives the instruction the slots that every later
/// allocator has for its names.
pub proof fn lemma_replace_instr(
    i: InstructionView,
    a: StackAllocatorView,
    later: StackAllocatorView,
)
    requires
        sound(a),
        a.offset + 8 <= i64::MAX,
        extends(later, replace_instr(i, a).1),
        slotless(i),
    ensures
        sound(replace_instr(i, a).1),
        extends(replace_instr(i, a).1, a),
        replace_instr(i, a).1.offset <= a.offset + 8,
        all_placed(i, later),
        replace_instr(i, a).0 == slotted(i, later),
        extends(later, a),
{
    match i {
        InstructionView::Mov(x, y) => {
            lemma_replace_pair(x, y, a, later);
        },
        InstructionView::Movb(x, y) => {
            lemma_replace_pair(x, y, a, later);
        },
        InstructionView::Binary(_, x, y) => {
            lemma_replace_pair(x, y, a, later);
        },
        InstructionView::Cmp(x, y) => {
            lemma_replace_pair(x, y, a, later);
        },
        InstructionView::Shl(x, y) => {
            lemma_replace_pair(x, y, a, later);
        },
        InstructionView::Shr(x, y) => {
            lemma_replace_pair(x, y, a, later);
        },
        InstructionView::Unary(_, x) => {
            lemma_replace_operand(x, a, later);
        },
        InstructionView::Idiv(x) => {
            lemma_replace_operand(x, a, later);
        },
        InstructionView::SetCC(_, x) => {
            lemma_replace_operand(x, a, later);
        },
        InstructionView::Push(x) => {
            lemma_replace_operand(x, a, later);
        },
        _ => {},
    }
}

/// Every instruction of the list is slotless.
pub open spec fn all_slotless(s: Seq<InstructionView>) -> bool {
    forall|k: int| 0 <= k < s.len() ==> slotless(#[trigger] s[k])
}

/// Replacement over a list keeps the allocator sound, and gives every
/// instruction the slots that every later allocator has for its names.
pub proof fn lemma_replace_instrs(
    s: Seq<InstructionView>,
    a: StackAllocatorView,
    later: StackAllocatorView,
)
    requires
        sound(a),
        a.offset + 8 * s.len() <= i64::MAX,
        extends(later, replace_instrs(s, a).1),
        all_slotless(s),
    ensures
        sound(replace_instrs(s, a).1),
        replace_instrs(s, a).1.offset <= a.offset + 8 * s.len(),
        replace_instrs(s, a).0.len() == s.len(),
        extends(later, a),
        forall|k: int|
            0 <= k < s.len() ==> all_placed(#[trigger] s[k], later) && replace_instrs(s, a).0[k]
                == slotted(s[k], later),
    decreases s.len(),
{
    if s.len() > 0 {
        let front = s.drop_last();
        let (done, a1) = replace_instrs(front, a);
        let (i, a2) = replace_instr(s.last(), a1);
        assert(slotless(s[s.len() - 1]));
        assert forall|k: int| 0 <= k < front.len() implies slotless(#[trigger] front[k]) by {
            assert(front[k] == s[k]);
        }
        lemma_replace_instrs(front, a, a1);
        lemma_replace_instr(s.last(), a1, later);
        lemma_replace_instrs(front, a, later);
        assert forall|k: int| 0 <= k < s.len() implies all_placed(#[trigger] s[k], later)
            && replace_instrs(s, a).0[k] == slotted(s[k], later) by {
            if k < front.len() {
                assert(front[k] == s[k]);
                assert(done.push(i)[k] == done[k]);
            }
        }
    }
}

/// Every name with a slot has its value in its slot, the slots of the
/// caller's frame are the same, and so are the registers and the flags.
pub open spec fn in_slots(m: Machine, n: Machine, a: StackAllocatorView) -> bool {
    &&& n.regs == m.regs
    &&& n.flags == m.flags
    &&& forall|name: Seq<char>| #[trigger]
        a.map.contains_key(name) ==> n.slots[-a.map[name]] == m.vars[name]
    &&& forall|off: int| off >= 0 ==> #[trigger] n.slots[off] == m.slots[off]
}

/// What the listing with the slots did tracks what the listing with the
/// names did.
pub open spec fn tracks(p: Outcome<Machine>, q: Outcome<Machine>, a: StackAllocatorView) -> bool {
    match p {
        Outcome::Goes(m) => q is Goes && in_slots(m, q->Goes_0, a),
        Outcome::Seeks(m, label) => q is Seeks && in_slots(m, q->Seeks_0, a) && q->Seeks_1
            == label,
        Outcome::Returns(v) => q == Outcome::<Machine>::Returns(v),
        Outcome::Stops => true,
    }
}

/// An operand and its slot hold the same value.
pub proof fn lemma_load_slot(o: OperandView, m: Machine, n: Machine, a: StackAllocatorView)
    requires
        sound(a),
        placed(o, a),
        in_slots(m, n, a),
    ensures
        load(slot_of(o, a), n) == load(o, m),
{
}

/// A value stored in an operand and in its slot keeps the values in the
/// slots.
pub proof fn lemma_store_slot(
    o: OperandView,
    v: i32,
    m: Machine,
    n: Machine,
    a: StackAllocatorView,
)
    requires
        sound(a),
        placed(o, a),
        in_slots(m, n, a),
    ensures
        in_slots(store(o, v, m), store(slot_of(o, a), v, n), a),
{
}

/// A byte stored in an operand and in its slot keeps the values in the
/// slots.
pub proof fn lemma_store_low_slot(
    o: OperandView,
    b: int,
    m: Machine,
    n: Machine,
    a: StackAllocatorView,
)
    requires
        sound(a),
        placed(o, a),
        in_slots(m, n, a),
    ensures
        in_slots(store_low(o, b, m), store_low(slot_of(o, a), b, n), a),
{
}

/// One instruction with the slots tracks the instruction with the names.
pub proof fn lemma_step_slot(i: InstructionView, m: Machine, n: Machine, a: StackAllocatorView)
    requires
        sound(a),
        all_placed(i, a),
        in_slots(m, n, a),
    ensures
        tracks(step(i, m), step(slotted(i, a), n), a),
{
    match i {
        InstructionView::Mov(x, y) => {
            lemma_load_slot(x, m, n, a);
            lemma_store_slot(y, load(x, m), m, n, a);
        },
        InstructionView::Movb(x, y) => {
            lemma_load_slot(x, m, n, a);
            lemma_store_low_slot(y, low_byte(load(x, m)), m, n, a);
        },
        InstructionView::Unary(op, x) => {
            lemma_load_slot(x, m, n, a);
            lemma_store_slot(x, neg32(load(x, m)), m, n, a);
            lemma_store_slot(x, not32(load(x, m)), m, n, a);
        },
        InstructionView::Binary(op, x, y) => {
            lemma_load_slot(x, m, n, a);
            lemma_load_slot(y, m, n, a);
            lemma_store_slot(
                y,
                arithmetic(op, load(y, m), load(x, m)),
                m,
                n,
                a,
            );
        },
        InstructionView::Cmp(x, y) => {
            lemma_load_slot(x, m, n, a);
            lemma_load_slot(y, m, n, a);
        },
        InstructionView::Shl(x, y) => {
            lemma_load_slot(x, m, n, a);
            lemma_load_slot(y, m, n, a);
            lemma_store_slot(
                y,
                shl32(load(y, m), load(x, m)),
                m,
                n,
                a,
            );
        },
        InstructionView::Shr(x, y) => {
            lemma_load_slot(x, m, n, a);
            lemma_load_slot(y, m, n, a);
            lemma_store_slot(
                y,
                sar32(load(y, m), load(x, m)),
                m,
                n,
                a,
            );
        },
        InstructionView::Idiv(x) => {
            lemma_load_slot(x, m, n, a);
        },
        InstructionView::SetCC(cc, x) => {
            match m.flags {
                Some((left, right)) => {
                    lemma_store_low_slot(
                        x,
                        truth(
                            holds(cc, left, right),
                        ) as int,
                        m,
                        n,
                        a,
                    );
                },
                None => {},
            }
        },
        _ => {},
    }
}

/// One more instruction with the slots tracks the instruction with the
/// names, from wherever a run came to.
pub proof fn lemma_next_slot(
    p: Outcome<Machine>,
    q: Outcome<Machine>,
    i: InstructionView,
    a: StackAllocatorView,
)
    requires
        sound(a),
        all_placed(i, a),
        tracks(p, q, a),
    ensures
        tracks(next(p, i), next(q, slotted(i, a)), a),
{
    match p {
        Outcome::Goes(m) => {
            lemma_step_slot(i, m, q->Goes_0, a);
        },
        _ => {},
    }
}

/// A listing with the slots tracks the listing with the names.
pub proof fn lemma_run_slot(
    s: Seq<InstructionView>,
    out: Seq<InstructionView>,
    p: Outcome<Machine>,
    q: Outcome<Machine>,
    a: StackAllocatorView,
)
    requires
        sound(a),
        tracks(p, q, a),
        out.len() == s.len(),
        forall|k: int|
            0 <= k < s.len() ==> all_placed(#[trigger] s[k], a) && out[k] == slotted(s[k], a),
    ensures
        tracks(run_from(p, s), run_from(q, out), a),
    decreases s.len(),
{
    if s.len() > 0 {
        lemma_run_slot(s.drop_last(), out.drop_last(), p, q, a);
        assert(all_placed(s[s.len() - 1], a));
        lemma_next_slot(
            run_from(p, s.drop_last()),
            run_from(q, out.drop_last()),
            s.last(),
            a,
        );
    }
}

} // verus!
