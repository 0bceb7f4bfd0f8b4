//! Laws of the interpreter: properties of whole steps, proved once for all
//! states and inputs.

use vstd::prelude::*;
use crate::instruction::Instruction;
use crate::instruction::InstructionMovement;
use crate::instruction::InstructionOperation;
use crate::interpreter::MachineState;
use crate::interpreter::head_value;
use crate::interpreter::instruct_effect;
use crate::interpreter::movement_effect;
use crate::interpreter::operation_effect;
use crate::interpreter::storage_is_queue;
use crate::storage::pick_contents;
use crate::storage::pick_value;
use crate::storage::put_contents;

verus! {

/// Law: selecting storage `i` leaves every storage untouched, so peeking at
/// the then-selected storage returns what a peek at storage `i` returned
/// before.
pub proof fn lemma_select_then_peek(s: MachineState, i: usize, inst: Instruction)
    requires
        i < 28,
        inst.operation == InstructionOperation::ChangeStorageOperation(i as usize),
    ensures
        ({
            let s2 = instruct_effect(s, inst).0;
            &&& s2.storage_index == i as int
            &&& s2.bank == s.bank
            &&& pick_value(s2.bank[s2.storage_index], storage_is_queue(s2.storage_index))
                == pick_value(s.bank[i as int], storage_is_queue(i as int))
        }),
{
}

/// Law: a comparison pops two values and pushes exactly one of 0 and 1, and
/// it pushes 1 exactly when the second popped value is at least the first.
pub proof fn lemma_compare(s: MachineState, inst: Instruction)
    requires
        0 <= s.storage_index < s.bank.len(),
        inst.operation == InstructionOperation::CompareOperation,
        s.bank[s.storage_index].len() >= 2,
    ensures
        ({
            let q = storage_is_queue(s.storage_index);
            let cur = s.bank[s.storage_index];
            let a = head_value(cur, q);
            let c1 = pick_contents(cur, q);
            let b = head_value(c1, q);
            let c2 = pick_contents(c1, q);
            let s2 = instruct_effect(s, inst).0;
            &&& s2.bank[s.storage_index] == put_contents(c2, (if b >= a { 1i64 } else { 0i64 }))
            &&& (b >= a <==> s2.bank[s.storage_index].last() == 1)
            &&& (!(b >= a) <==> s2.bank[s.storage_index].last() == 0)
        }),
{
}

/// Law: two turn-around cells in a row restore the original direction and
/// last move, and return the counter to where it stood.
pub proof fn lemma_disallow_twice(s: MachineState, inst: Instruction)
    requires
        inst.operation == InstructionOperation::NoOperation,
        inst.movement == InstructionMovement::DisallowMovement,
    ensures
        ({
            let s1 = instruct_effect(s, inst).0;
            let s2 = instruct_effect(s1, inst).0;
            &&& s2.direction == s.direction
            &&& s2.last_move == s.last_move
            &&& s2.counter == s.counter
            &&& s2.bank == s.bank
        }),
{
}

/// Law: a step whose operation succeeds and whose cell is not a wall moves
/// the counter by exactly the movement vector it commits as the last move.
pub proof fn lemma_step_moves_by_vector(s: MachineState, inst: Instruction)
    requires
        !(inst.movement is WallMovement),
        !operation_effect(s, inst.operation).1,
        !operation_effect(s, inst.operation).2,
    ensures
        ({
            let s1 = operation_effect(s, inst.operation).0;
            let v = movement_effect(inst.movement, s1.direction, s1.last_move, s1.counter).1;
            let s2 = instruct_effect(s, inst).0;
            &&& s2.counter == (s.counter.0 + v.0, s.counter.1 + v.1)
            &&& s2.last_move == v
        }),
{
}

} // verus!
