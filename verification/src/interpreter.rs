//! The interpreter core: a program counter and direction walking the padded
//! grid, a bank of 28 storages, and value queues standing for the input and
//! output streams.
//!
//! One step fetches the cell at the counter, executes its operation against
//! the selected storage, computes a movement from the cell and the current
//! direction, flips that movement when the operation could not obtain its
//! operands, and commits the new direction, counter and last move. Reads
//! take values from the input queue; prints append to the output queue; an
//! exhausted input queue fails the operation like a storage underflow.

use vstd::prelude::*;
use crate::instruction::BinaryOperator;
use crate::instruction::COORDINATE_LIMIT;
use crate::instruction::Instruction;
use crate::instruction::InstructionMovement;
use crate::instruction::InstructionOperation;
use crate::instruction::InterpreterDirection;
use crate::source::Source;
use crate::source::cell_at;
use crate::source::content_row_wf;
use crate::source::grid_wf;
use crate::source::wall_row_spec;
use crate::instruction::wall_instruction;
use crate::storage::Storage;
use crate::storage::TempStorage;
use crate::storage::pick_contents;
use crate::storage::put_contents;
use crate::storage::swap_contents;

verus! {

/// One item the interpreter has written to the output.
#[derive(Clone, Copy, Debug, PartialEq, Eq, Structural)]
pub enum OutputItem {
    /// An integer, to be written in base 10.
    Integer(i64),
    /// A Unicode scalar value, as its code point.
    Character(u32),
}

/// What the next step will try to read, if anything.
#[derive(Clone, Copy, Debug, PartialEq, Eq, Structural)]
pub enum InputRequest {
    IntegerInput,
    CharacterInput,
}

/// The storages at indices 21 and 27 are queues; all others are stacks.
pub open spec fn storage_is_queue(i: int) -> bool {
    i == 21 || i == 27
}

/// Whether a popped value is a Unicode scalar value and can be printed as a
/// character.
pub open spec fn valid_scalar(v: i64) -> bool {
    (0 <= v < 0xD800) || (0xE000 <= v <= 0x10FFFF)
}

/// The same, of a code point already narrowed to 32 bits.
pub open spec fn valid_scalar_u32(v: u32) -> bool {
    v < 0xD800 || (0xE000 <= v <= 0x10FFFF)
}

/// Every character item of the output is a Unicode scalar value.
pub open spec fn output_wf(out: Seq<OutputItem>) -> bool {
    forall|i: int| 0 <= i < out.len() ==> (#[trigger] out[i] matches OutputItem::Character(v)
        ==> valid_scalar_u32(v))
}

/// The mutable state of the interpreter, as mathematical values: the bank of
/// storage contents, the selected index, the counter in padded coordinates,
/// the last movement vector, the direction, and the two value queues.
#[verifier::ext_equal]
pub ghost struct MachineState {
    pub bank: Seq<Seq<i64>>,
    pub storage_index: int,
    pub counter: (int, int),
    pub last_move: (int, int),
    pub direction: InterpreterDirection,
    pub input: Seq<i64>,
    pub output: Seq<OutputItem>,
}

/// The value at the reading end of a non-empty storage.
pub open spec fn head_value(s: Seq<i64>, queue: bool) -> i64 {
    if queue {
        s[0]
    } else {
        s.last()
    }
}

/// The state with the selected storage's contents replaced.
pub open spec fn with_current(s: MachineState, contents: Seq<i64>) -> MachineState {
    MachineState { bank: s.bank.update(s.storage_index, contents), ..s }
}

/// The result of a binary operation on the first and second popped values:
/// wrapping addition, multiplication and subtraction; truncated division and
/// remainder, which fail on a zero divisor and on the one overflowing pair.
pub open spec fn binary_result(b: BinaryOperator, v1: i64, v2: i64) -> Option<i64> {
    match b {
        BinaryOperator::Add => Some(vstd::wrapping::i64_specs::wrapping_add(v2, v1)),
        BinaryOperator::Mul => Some(vstd::wrapping::i64_specs::wrapping_mul(v2, v1)),
        BinaryOperator::Sub => Some(vstd::wrapping::i64_specs::wrapping_sub(v2, v1)),
        BinaryOperator::Div => v2.checked_div(v1),
        BinaryOperator::Mod => v2.checked_rem(v1),
    }
}

/// The effect of a read operation: take the front of the input queue and put
/// it on the selected storage; an empty queue is a failure.
pub open spec fn read_effect(s: MachineState) -> (MachineState, bool, bool) {
    if s.input.len() == 0 {
        (s, true, false)
    } else {
        let cur = s.bank[s.storage_index];
        (
            MachineState {
                bank: s.bank.update(s.storage_index, put_contents(cur, s.input[0])),
                input: s.input.drop_first(),
                ..s
            },
            false,
            false,
        )
    }
}

/// The effect of an operation on the state: the new state, whether the
/// operation failed (which will flip the movement), and whether it halts.
pub open spec fn operation_effect(s: MachineState, op: InstructionOperation) -> (
    MachineState,
    bool,
    bool,
) {
    let q = storage_is_queue(s.storage_index);
    let cur = s.bank[s.storage_index];
    match op {
        InstructionOperation::NoOperation => (s, false, false),
        InstructionOperation::HaltOperation => (s, false, true),
        InstructionOperation::PushConstantOperation(v) => (
            with_current(s, put_contents(cur, v)),
            false,
            false,
        ),
        InstructionOperation::PushDuplicationOperation => {
            if cur.len() > 0 {
                (with_current(s, put_contents(cur, head_value(cur, q))), false, false)
            } else {
                (s, true, false)
            }
        },
        InstructionOperation::SwapOperation => {
            if cur.len() >= 2 {
                (with_current(s, swap_contents(cur, q)), false, false)
            } else {
                (s, true, false)
            }
        },
        InstructionOperation::PopOperation => {
            if cur.len() > 0 {
                (with_current(s, pick_contents(cur, q)), false, false)
            } else {
                (s, true, false)
            }
        },
        InstructionOperation::BinaryOperation(b) => {
            if cur.len() >= 2 {
                let v1 = head_value(cur, q);
                let c1 = pick_contents(cur, q);
                let v2 = head_value(c1, q);
                let c2 = pick_contents(c1, q);
                match binary_result(b, v1, v2) {
                    Some(r) => (with_current(s, put_contents(c2, r)), false, false),
                    None => (s, true, false),
                }
            } else {
                (s, true, false)
            }
        },
        InstructionOperation::CompareOperation => {
            if cur.len() >= 2 {
                let v1 = head_value(cur, q);
                let c1 = pick_contents(cur, q);
                let v2 = head_value(c1, q);
                let c2 = pick_contents(c1, q);
                let r: i64 = if v2 >= v1 {
                    1
                } else {
                    0
                };
                (with_current(s, put_contents(c2, r)), false, false)
            } else {
                (s, true, false)
            }
        },
        InstructionOperation::BranchOperation => {
            if cur.len() > 0 {
                (with_current(s, pick_contents(cur, q)), head_value(cur, q) == 0, false)
            } else {
                (s, true, false)
            }
        },
        InstructionOperation::PrintIntegerOperation => {
            if cur.len() > 0 {
                (
                    MachineState {
                        bank: s.bank.update(s.storage_index, pick_contents(cur, q)),
                        output: s.output.push(OutputItem::Integer(head_value(cur, q))),
                        ..s
                    },
                    false,
                    false,
                )
            } else {
                (s, true, false)
            }
        },
        InstructionOperation::PrintCharOperation => {
            if cur.len() == 0 {
                (s, true, false)
            } else {
                let v = head_value(cur, q);
                let s1 = with_current(s, pick_contents(cur, q));
                if valid_scalar(v) {
                    (
                        MachineState { output: s.output.push(OutputItem::Character(v as u32)), ..s1 },
                        false,
                        false,
                    )
                } else {
                    (s1, true, false)
                }
            }
        },
        InstructionOperation::PushIntegerInputOperation => read_effect(s),
        InstructionOperation::PushCharInputOperation => read_effect(s),
        InstructionOperation::ChangeStorageOperation(i) => (
            MachineState { storage_index: i as int, ..s },
            false,
            false,
        ),
        InstructionOperation::MoveToStorageOperation(i) => {
            if cur.len() > 0 {
                let v = head_value(cur, q);
                let b1 = s.bank.update(s.storage_index, pick_contents(cur, q));
                (
                    MachineState {
                        storage_index: i as int,
                        bank: b1.update(i as int, put_contents(b1[i as int], v)),
                        ..s
                    },
                    false,
                    false,
                )
            } else {
                (s, true, false)
            }
        },
    }
}

/// The opposite direction.
pub open spec fn opposite(d: InterpreterDirection) -> InterpreterDirection {
    match d {
        InterpreterDirection::Up => InterpreterDirection::Down,
        InterpreterDirection::Down => InterpreterDirection::Up,
        InterpreterDirection::Left => InterpreterDirection::Right,
        InterpreterDirection::Right => InterpreterDirection::Left,
    }
}

/// The tentative movement a cell produces before any failure flip: the new
/// direction, the movement vector, and the counter after any wall wrap.
pub open spec fn movement_effect(
    m: InstructionMovement,
    d0: InterpreterDirection,
    lm0: (int, int),
    c0: (int, int),
) -> (InterpreterDirection, (int, int), (int, int)) {
    match m {
        InstructionMovement::RegularMovement(nd, dr, dc) => (nd, (dr as int, dc as int), c0),
        InstructionMovement::AllowHorizontalMovement => match d0 {
            InterpreterDirection::Right => (d0, lm0, c0),
            InterpreterDirection::Left => (d0, lm0, c0),
            InterpreterDirection::Up => (InterpreterDirection::Down, (1, 0), c0),
            InterpreterDirection::Down => (InterpreterDirection::Up, (-1, 0), c0),
        },
        InstructionMovement::AllowVerticalMovement => match d0 {
            InterpreterDirection::Up => (d0, lm0, c0),
            InterpreterDirection::Down => (d0, lm0, c0),
            InterpreterDirection::Right => (InterpreterDirection::Left, (0, -1), c0),
            InterpreterDirection::Left => (InterpreterDirection::Right, (1, 0), c0),
        },
        InstructionMovement::DisallowMovement => (opposite(d0), (-lm0.0, -lm0.1), c0),
        InstructionMovement::KeepCurrentMovement => (d0, lm0, c0),
        InstructionMovement::WallMovement(wd, v) => {
            let c1 = match (d0, wd) {
                (InterpreterDirection::Up, InterpreterDirection::Up) => (v + 1, c0.1),
                (InterpreterDirection::Down, InterpreterDirection::Down) => (v - 1, c0.1),
                (InterpreterDirection::Right, InterpreterDirection::Right) => (c0.0, v - 1),
                (InterpreterDirection::Left, InterpreterDirection::Left) => (c0.0, v + 1),
                _ => c0,
            };
            (d0, lm0, c1)
        },
    }
}

/// One full step on a state: the operation's effect, the movement, the
/// failure flip, and the commit. A halting cell leaves the state unchanged
/// and reports termination.
pub open spec fn instruct_effect(s: MachineState, inst: Instruction) -> (MachineState, bool) {
    let (s1, branch, halt) = operation_effect(s, inst.operation);
    if halt {
        (s1, true)
    } else {
        let (d, v, c) = movement_effect(inst.movement, s1.direction, s1.last_move, s1.counter);
        let (d2, v2) = if branch {
            (opposite(d), (-v.0, -v.1))
        } else {
            (d, v)
        };
        (
            MachineState {
                direction: d2,
                counter: (c.0 + v2.0, c.1 + v2.1),
                last_move: v2,
                ..s1
            },
            false,
        )
    }
}

/// The direction matches the last movement vector: a unit or double step
/// along the direction's axis and sign.
pub open spec fn vector_dir_ok(d: InterpreterDirection, lm: (int, int)) -> bool {
    match d {
        InterpreterDirection::Up => lm == (-1int, 0int) || lm == (-2int, 0int),
        InterpreterDirection::Down => lm == (1int, 0int) || lm == (2int, 0int),
        InterpreterDirection::Right => lm == (0int, 1int) || lm == (0int, 2int),
        InterpreterDirection::Left => lm == (0int, -1int) || lm == (0int, -2int),
    }
}

/// The counter addresses a cell of the padded grid, and at the border rows
/// and columns the direction points back along the axis the walk came in on,
/// so that the wall cell there will wrap it.
pub open spec fn position_inv(s: MachineState, g: Seq<Seq<Instruction>>) -> bool {
    let rows = g.len() as int;
    let width = g[0].len() as int;
    &&& 0 <= s.counter.0 < rows
    &&& 0 <= s.counter.1 <= width + 1
    &&& vector_dir_ok(s.direction, s.last_move)
    &&& s.counter.0 <= 1 ==> s.direction == InterpreterDirection::Up
    &&& s.counter.0 >= rows - 2 ==> s.direction == InterpreterDirection::Down
    &&& s.counter.1 <= 1 ==> s.direction == InterpreterDirection::Left
    &&& s.counter.1 >= width ==> s.direction == InterpreterDirection::Right
}

/// The interpreter's state invariant against its grid.
pub open spec fn state_inv(s: MachineState, g: Seq<Seq<Instruction>>) -> bool {
    &&& s.bank.len() == 28
    &&& 0 <= s.storage_index < 28
    &&& output_wf(s.output)
    &&& position_inv(s, g)
}

/// Wrapping addition of the two popped values.
pub fn operation_digeut(v1: i64, v2: i64) -> (r: i64)
    ensures
        r == vstd::wrapping::i64_specs::wrapping_add(v2, v1),
{
    v2.wrapping_add(v1)
}

/// Wrapping multiplication of the two popped values.
pub fn operation_ssang_digeut(v1: i64, v2: i64) -> (r: i64)
    ensures
        r == vstd::wrapping::i64_specs::wrapping_mul(v2, v1),
{
    v2.wrapping_mul(v1)
}

/// Wrapping subtraction: the second popped value minus the first.
pub fn operation_tieut(v1: i64, v2: i64) -> (r: i64)
    ensures
        r == vstd::wrapping::i64_specs::wrapping_sub(v2, v1),
{
    v2.wrapping_sub(v1)
}

/// A divisor that is neither zero nor the one overflowing pair keeps the
/// truncated quotient and remainder within the 64-bit range.
proof fn lemma_div_rem_in_range(v1: i64, v2: i64)
    requires
        v1 != 0,
        !(v2 == i64::MIN && v1 == -1),
    ensures
        v2.checked_div(v1) is Some,
        v2.checked_rem(v1) is Some,
{
    let x = v2 as int;
    let d = v1 as int;
    if x == 0 {
    } else if x > 0 && d > 0 {
        assert(0 <= x / d <= x && 0 <= x % d < d) by (nonlinear_arith)
            requires x > 0 && d > 0;
    } else if x < 0 && d < 0 {
        if d == -1 {
            assert((x * -1) / (d * -1) == x * -1 && (x * -1) % (d * -1) == 0) by (nonlinear_arith)
                requires d == -1;
        } else {
            assert((x * -1) / (d * -1) <= (x * -1) / 2 && 0 <= (x * -1) / (d * -1) && 0 <= (x
                * -1) % (d * -1) < (d * -1)) by (nonlinear_arith)
                requires x < 0 && d <= -2;
            assert((x * -1) / 2 <= i64::MAX) by (nonlinear_arith)
                requires x >= i64::MIN;
        }
    } else if x < 0 {
        assert(0 <= (x * -1) / d <= (x * -1) && 0 <= (x * -1) % d < d) by (nonlinear_arith)
            requires x < 0 && d > 0;
    } else {
        assert(0 <= x / (d * -1) <= x && 0 <= x % (d * -1) < (d * -1)) by (nonlinear_arith)
            requires x > 0 && d < 0;
    }
}

/// Truncated division: the second popped value by the first.
pub fn operation_nieun(v1: i64, v2: i64) -> (r: i64)
    requires
        v1 != 0,
        !(v2 == i64::MIN && v1 == -1),
    ensures
        Some(r) == v2.checked_div(v1),
{
    proof {
        lemma_div_rem_in_range(v1, v2);
    }
    v2.checked_div(v1).unwrap()
}

/// Truncated remainder: the second popped value by the first.
pub fn operation_rieul(v1: i64, v2: i64) -> (r: i64)
    requires
        v1 != 0,
        !(v2 == i64::MIN && v1 == -1),
    ensures
        Some(r) == v2.checked_rem(v1),
{
    proof {
        lemma_div_rem_in_range(v1, v2);
    }
    v2.checked_rem(v1).unwrap()
}

/// Dispatch a binary operation; `None` is a failed division.
fn binary_compute(b: BinaryOperator, v1: i64, v2: i64) -> (r: Option<i64>)
    ensures
        r == binary_result(b, v1, v2),
{
    match b {
        BinaryOperator::Add => Some(operation_digeut(v1, v2)),
        BinaryOperator::Mul => Some(operation_ssang_digeut(v1, v2)),
        BinaryOperator::Sub => Some(operation_tieut(v1, v2)),
        BinaryOperator::Div => {
            if v1 == 0 || (v2 == i64::MIN && v1 == -1) {
                proof {
                    assert(v2.checked_div(v1) is None);
                }
                None
            } else {
                Some(operation_nieun(v1, v2))
            }
        },
        BinaryOperator::Mod => {
            if v1 == 0 || (v2 == i64::MIN && v1 == -1) {
                None
            } else {
                Some(operation_rieul(v1, v2))
            }
        },
    }
}

/// The opposite direction.
fn opposite_direction(d: InterpreterDirection) -> (r: InterpreterDirection)
    ensures
        r == opposite(d),
{
    match d {
        InterpreterDirection::Up => InterpreterDirection::Down,
        InterpreterDirection::Down => InterpreterDirection::Up,
        InterpreterDirection::Left => InterpreterDirection::Right,
        InterpreterDirection::Right => InterpreterDirection::Left,
    }
}

/// A mutable borrow of one storage of the bank.
fn storage_mut(v: &mut Vec<TempStorage>, i: usize) -> (r: &mut TempStorage)
    requires
        i < old(v).len(),
    ensures
        *r == old(v)[i as int],
        final(v)@ == old(v)@.update(i as int, *final(r)),
{
    &mut v[i]
}

/// Updating one storage updates one entry of the bank's view.
proof fn lemma_bank_view_update(olds: Seq<TempStorage>, news: Seq<TempStorage>, i: int)
    requires
        0 <= i < olds.len(),
        news == olds.update(i, news[i]),
    ensures
        news.map_values(|t: TempStorage| t.contents()) == olds.map_values(
            |t: TempStorage| t.contents(),
        ).update(i, news[i].contents()),
{
    assert(news.map_values(|t: TempStorage| t.contents()) =~= olds.map_values(
        |t: TempStorage| t.contents(),
    ).update(i, news[i].contents()));
}

/// The interpreter: the grid, the bank, the walk state, and the two value
/// queues standing for the input and output streams.
pub struct Interpreter {
    source: Source,
    storages: Vec<TempStorage>,
    storage_index: usize,
    counter: (i64, i64),
    last_move: (i64, i64),
    direction: InterpreterDirection,
    input: Vec<i64>,
    output: Vec<OutputItem>,
}

impl View for Interpreter {
    type V = MachineState;

    closed spec fn view(&self) -> MachineState {
        MachineState {
            bank: self.storages@.map_values(|t: TempStorage| t.contents()),
            storage_index: self.storage_index as int,
            counter: (self.counter.0 as int, self.counter.1 as int),
            last_move: (self.last_move.0 as int, self.last_move.1 as int),
            direction: self.direction,
            input: self.input@,
            output: self.output@,
        }
    }
}

impl Interpreter {
    /// The program grid.
    pub closed spec fn grid(&self) -> Seq<Seq<Instruction>> {
        self.source@
    }

    /// The bank holds its 28 storages with the queues at their indices, and
    /// the selected index is in range.
    pub closed spec fn bank_ok(&self) -> bool {
        &&& self.storages@.len() == 28
        &&& self.storage_index < 28
        &&& forall|i: int| 0 <= i < 28 ==> (#[trigger] self.storages@[i].queue_mode())
            == storage_is_queue(i)
    }

    /// What one instruction needs to execute without overflow: the bank in
    /// shape, and the counter and last move small enough that a wrap and a
    /// step stay within 64-bit coordinates.
    pub closed spec fn instruct_ready(&self) -> bool {
        &&& self.bank_ok()
        &&& -(COORDINATE_LIMIT as int) - 1 <= self@.counter.0 <= COORDINATE_LIMIT as int + 1
        &&& -(COORDINATE_LIMIT as int) - 1 <= self@.counter.1 <= COORDINATE_LIMIT as int + 1
        &&& -2 <= self@.last_move.0 <= 2
        &&& -2 <= self@.last_move.1 <= 2
    }

    /// The direction matches the last movement vector.
    pub closed spec fn consistent(&self) -> bool {
        vector_dir_ok(self@.direction, self@.last_move)
    }

    /// The full invariant of a running interpreter.
    pub closed spec fn inv(&self) -> bool {
        &&& self.bank_ok()
        &&& grid_wf(self.grid())
        &&& state_inv(self@, self.grid())
    }

    /// Execute one operation against the bank and the value queues; the
    /// counter, direction and last move are untouched. Returns the failure
    /// flag and the halt flag.
    #[verifier::rlimit(60)]
    fn execute_operation(&mut self, op: InstructionOperation) -> (r: (bool, bool))
        requires
            old(self).bank_ok(),
            crate::instruction::operation_wf(op),
        ensures
            final(self)@ == operation_effect(old(self)@, op).0,
            r.0 == operation_effect(old(self)@, op).1,
            r.1 == operation_effect(old(self)@, op).2,
            final(self).source == old(self).source,
            final(self).counter == old(self).counter,
            final(self).last_move == old(self).last_move,
            final(self).direction == old(self).direction,
            final(self).bank_ok(),
    {
        let ghost s0 = self@;
        let ghost op_spec = operation_effect(s0, op);
        let mut branch: bool = false;
        let mut halt: bool = false;
        let idx = self.storage_index;
        proof {
            assert(s0.bank[idx as int] == self.storages@[idx as int].contents());
        }
        match op {
            InstructionOperation::NoOperation => {},
            InstructionOperation::HaltOperation => {
                halt = true;
            },
            InstructionOperation::PushConstantOperation(v) => {
                let st = storage_mut(&mut self.storages, idx);
                st.put(v);
                proof {
                    lemma_bank_view_update(old(self).storages@, self.storages@, idx as int);
                }
            },
            InstructionOperation::PushDuplicationOperation => {
                let st = storage_mut(&mut self.storages, idx);
                match st.peek() {
                    Some(v) => {
                        st.put(v);
                    },
                    None => {
                        branch = true;
                    },
                }
                proof {
                    lemma_bank_view_update(old(self).storages@, self.storages@, idx as int);
                }
            },
            InstructionOperation::SwapOperation => {
                let st = storage_mut(&mut self.storages, idx);
                if !st.swap() {
                    branch = true;
                }
                proof {
                    lemma_bank_view_update(old(self).storages@, self.storages@, idx as int);
                }
            },
            InstructionOperation::PopOperation => {
                let st = storage_mut(&mut self.storages, idx);
                match st.pick() {
                    Some(_) => {},
                    None => {
                        branch = true;
                    },
                }
                proof {
                    lemma_bank_view_update(old(self).storages@, self.storages@, idx as int);
                }
            },
            InstructionOperation::BinaryOperation(b) => {
                let st = storage_mut(&mut self.storages, idx);
                if st.len() >= 2 {
                    let ghost cur = st.contents();
                    let v1 = st.pick().unwrap();
                    let v2 = st.pick().unwrap();
                    match binary_compute(b, v1, v2) {
                        Some(r) => {
                            st.put(r);
                        },
                        None => {
                            st.rput(v2);
                            st.rput(v1);
                            branch = true;
                            proof {
                                assert(st.contents() =~= cur);
                            }
                        },
                    }
                } else {
                    branch = true;
                }
                proof {
                    lemma_bank_view_update(old(self).storages@, self.storages@, idx as int);
                    assert(self@.bank =~= op_spec.0.bank);
                }
            },
            InstructionOperation::CompareOperation => {
                let st = storage_mut(&mut self.storages, idx);
                if st.len() >= 2 {
                    let v1 = st.pick().unwrap();
                    let v2 = st.pick().unwrap();
                    let r: i64 = if v2 >= v1 {
                        1
                    } else {
                        0
                    };
                    st.put(r);
                } else {
                    branch = true;
                }
                proof {
                    lemma_bank_view_update(old(self).storages@, self.storages@, idx as int);
                }
            },
            InstructionOperation::BranchOperation => {
                let st = storage_mut(&mut self.storages, idx);
                match st.pick() {
                    Some(v) => {
                        if v == 0 {
                            branch = true;
                        }
                    },
                    None => {
                        branch = true;
                    },
                }
                proof {
                    lemma_bank_view_update(old(self).storages@, self.storages@, idx as int);
                }
            },
            InstructionOperation::PrintIntegerOperation => {
                let st = storage_mut(&mut self.storages, idx);
                let picked = st.pick();
                proof {
                    lemma_bank_view_update(old(self).storages@, self.storages@, idx as int);
                }
                match picked {
                    Some(v) => {
                        self.output.push(OutputItem::Integer(v));
                    },
                    None => {
                        branch = true;
                    },
                }
            },
            InstructionOperation::PrintCharOperation => {
                let st = storage_mut(&mut self.storages, idx);
                let picked = st.pick();
                proof {
                    lemma_bank_view_update(old(self).storages@, self.storages@, idx as int);
                }
                match picked {
                    Some(v) => {
                        if (0 <= v && v < 0xD800) || (0xE000 <= v && v <= 0x10FFFF) {
                            self.output.push(OutputItem::Character(v as u32));
                        } else {
                            branch = true;
                        }
                    },
                    None => {
                        branch = true;
                    },
                }
            },
            InstructionOperation::PushIntegerInputOperation => {
                if self.input.len() == 0 {
                    branch = true;
                } else {
                    let v = self.input.remove(0);
                    let st = storage_mut(&mut self.storages, idx);
                    st.put(v);
                    proof {
                        lemma_bank_view_update(old(self).storages@, self.storages@, idx as int);
                        assert(self.input@ =~= s0.input.drop_first());
                    }
                }
            },
            InstructionOperation::PushCharInputOperation => {
                if self.input.len() == 0 {
                    branch = true;
                } else {
                    let v = self.input.remove(0);
                    let st = storage_mut(&mut self.storages, idx);
                    st.put(v);
                    proof {
                        lemma_bank_view_update(old(self).storages@, self.storages@, idx as int);
                        assert(self.input@ =~= s0.input.drop_first());
                    }
                }
            },
            InstructionOperation::ChangeStorageOperation(index) => {
                self.storage_index = index;
            },
            InstructionOperation::MoveToStorageOperation(index) => {
                let st = storage_mut(&mut self.storages, idx);
                let picked = st.pick();
                proof {
                    lemma_bank_view_update(old(self).storages@, self.storages@, idx as int);
                }
                match picked {
                    Some(v) => {
                        let ghost mid = self.storages@;
                        self.storage_index = index;
                        let st2 = storage_mut(&mut self.storages, index);
                        st2.put(v);
                        proof {
                            lemma_bank_view_update(mid, self.storages@, index as int);
                        }
                    },
                    None => {
                        branch = true;
                    },
                }
            },
        };
        proof {
            assert(self@ =~~= op_spec.0);
        }
        (branch, halt)
    }

    /// Apply a cell's movement to the walk state: compute the tentative
    /// direction and vector (wrapping the counter at a wall), flip both on a
    /// failed operation, and commit.
    #[verifier::rlimit(60)]
    fn apply_movement(&mut self, movement: InstructionMovement, branch: bool)
        requires
            crate::instruction::movement_wf(movement),
            -(COORDINATE_LIMIT as int) - 1 <= old(self)@.counter.0 <= COORDINATE_LIMIT as int + 1,
            -(COORDINATE_LIMIT as int) - 1 <= old(self)@.counter.1 <= COORDINATE_LIMIT as int + 1,
            -2 <= old(self)@.last_move.0 <= 2,
            -2 <= old(self)@.last_move.1 <= 2,
        ensures
            final(self)@ == ({
                let (d, v, c) = movement_effect(
                    movement,
                    old(self)@.direction,
                    old(self)@.last_move,
                    old(self)@.counter,
                );
                let (d2, v2) = if branch {
                    (opposite(d), (-v.0, -v.1))
                } else {
                    (d, v)
                };
                MachineState {
                    direction: d2,
                    counter: (c.0 + v2.0, c.1 + v2.1),
                    last_move: v2,
                    ..old(self)@
                }
            }),
            final(self).source == old(self).source,
            final(self).storages == old(self).storages,
            final(self).storage_index == old(self).storage_index,
            -2 <= final(self)@.last_move.0 <= 2,
            -2 <= final(self)@.last_move.1 <= 2,
    {
        let ghost s1 = self@;
        let ghost mv_spec = movement_effect(
            movement,
            s1.direction,
            s1.last_move,
            s1.counter,
        );
        let tentative: (InterpreterDirection, i64, i64) = match movement {
            InstructionMovement::RegularMovement(nd, dr, dc) => (nd, dr, dc),
            InstructionMovement::AllowHorizontalMovement => match self.direction {
                InterpreterDirection::Right => (
                    self.direction,
                    self.last_move.0,
                    self.last_move.1,
                ),
                InterpreterDirection::Left => (self.direction, self.last_move.0, self.last_move.1),
                InterpreterDirection::Up => (InterpreterDirection::Down, 1, 0),
                InterpreterDirection::Down => (InterpreterDirection::Up, -1, 0),
            },
            InstructionMovement::AllowVerticalMovement => match self.direction {
                InterpreterDirection::Up => (self.direction, self.last_move.0, self.last_move.1),
                InterpreterDirection::Down => (self.direction, self.last_move.0, self.last_move.1),
                InterpreterDirection::Right => (InterpreterDirection::Left, 0, -1),
                InterpreterDirection::Left => (InterpreterDirection::Right, 1, 0),
            },
            InstructionMovement::DisallowMovement => (
                opposite_direction(self.direction),
                -self.last_move.0,
                -self.last_move.1,
            ),
            InstructionMovement::KeepCurrentMovement => (
                self.direction,
                self.last_move.0,
                self.last_move.1,
            ),
            InstructionMovement::WallMovement(wall_direction, value) => {
                match (self.direction, wall_direction) {
                    (InterpreterDirection::Up, InterpreterDirection::Up) => {
                        self.counter = (value + 1, self.counter.1);
                    },
                    (InterpreterDirection::Down, InterpreterDirection::Down) => {
                        self.counter = (value - 1, self.counter.1);
                    },
                    (InterpreterDirection::Right, InterpreterDirection::Right) => {
                        self.counter = (self.counter.0, value - 1);
                    },
                    (InterpreterDirection::Left, InterpreterDirection::Left) => {
                        self.counter = (self.counter.0, value + 1);
                    },
                    _ => {},
                }
                (self.direction, self.last_move.0, self.last_move.1)
            },
        };
        proof {
            assert(mv_spec.0 == tentative.0);
            assert(mv_spec.1 == (tentative.1 as int, tentative.2 as int));
            assert(mv_spec.2 == self@.counter);
        }
        let committed: (InterpreterDirection, i64, i64) = if branch {
            (opposite_direction(tentative.0), -tentative.1, -tentative.2)
        } else {
            tentative
        };
        self.direction = committed.0;
        self.counter = (self.counter.0 + committed.1, self.counter.1 + committed.2);
        self.last_move = (committed.1, committed.2);
    }

    /// Execute one instruction against the state: its operation, then its
    /// movement with the failure flip. Returns whether it halted.
    pub fn instruct(&mut self, instruction: &Instruction) -> (halted: bool)
        requires
            old(self).instruct_ready(),
            instruction.wf(),
        ensures
            final(self)@ == instruct_effect(old(self)@, *instruction).0,
            halted == instruct_effect(old(self)@, *instruction).1,
            final(self).grid() == old(self).grid(),
            final(self).bank_ok(),
            -2 <= final(self)@.last_move.0 <= 2,
            -2 <= final(self)@.last_move.1 <= 2,
    {
        let ghost s0 = self@;
        let flags = self.execute_operation(instruction.operation);
        if flags.1 {
            return true;
        }
        self.apply_movement(instruction.movement, flags.0);
        proof {
            assert(self@ =~~= instruct_effect(s0, *instruction).0);
        }
        false
    }

    /// A fresh interpreter on a program: 28 empty storages with the queues
    /// at indices 21 and 27, the counter at the top-left content cell in
    /// padded coordinates, heading down, and empty input and output queues.
    pub fn new(source: Source) -> (r: Interpreter)
        ensures
            r.grid() == source@,
            r@.bank.len() == 28,
            forall|i: int| 0 <= i < 28 ==> r@.bank[i] == Seq::<i64>::empty(),
            r@.storage_index == 0,
            r@.counter == (2int, 2int),
            r@.last_move == (1int, 0int),
            r@.direction == InterpreterDirection::Down,
            r@.input == Seq::<i64>::empty(),
            r@.output == Seq::<OutputItem>::empty(),
            r.inv() <==> source@[0].len() >= 3,
    {
        let mut storages: Vec<TempStorage> = Vec::new();
        for x in 0..28usize
            invariant
                storages@.len() == x,
                forall|i: int| 0 <= i < x ==> (#[trigger] storages@[i]).contents()
                    == Seq::<i64>::empty(),
                forall|i: int| 0 <= i < x ==> (#[trigger] storages@[i]).queue_mode()
                    == storage_is_queue(i),
        {
            storages.push(TempStorage::new(x == 21 || x == 27));
        }
        let r = Interpreter {
            source,
            storages,
            storage_index: 0,
            counter: (2, 2),
            last_move: (1, 0),
            direction: InterpreterDirection::Down,
            input: Vec::new(),
            output: Vec::new(),
        };
        proof {
            use_type_invariant(&r.source);
            assert(forall|i: int| 0 <= i < 28 ==> r@.bank[i] == Seq::<i64>::empty());
        }
        r
    }

    /// The counter in user coordinates, two rows and two columns inside the
    /// padded grid.
    pub fn counter(&self) -> (r: (i64, i64))
        requires
            self@.counter.0 - 2 >= i64::MIN,
            self@.counter.1 - 2 >= i64::MIN,
        ensures
            r.0 == self@.counter.0 - 2,
            r.1 == self@.counter.1 - 2,
    {
        (self.counter.0 - 2, self.counter.1 - 2)
    }

    /// A mutable borrow of the selected storage.
    pub fn storage(&mut self) -> (r: &mut TempStorage)
        requires
            old(self).bank_ok(),
        ensures
            r.contents() == old(self)@.bank[old(self)@.storage_index],
            r.queue_mode() == storage_is_queue(old(self)@.storage_index),
            final(self)@.bank =~= old(self)@.bank.update(
                old(self)@.storage_index,
                final(r).contents(),
            ),
            final(self)@.storage_index == old(self)@.storage_index,
            final(self)@.counter == old(self)@.counter,
            final(self)@.last_move == old(self)@.last_move,
            final(self)@.direction == old(self)@.direction,
            final(self)@.input == old(self)@.input,
            final(self)@.output == old(self)@.output,
            final(self).grid() == old(self).grid(),
            final(r).queue_mode() == storage_is_queue(old(self)@.storage_index)
                ==> final(self).bank_ok(),
    {
        let idx = self.storage_index;
        storage_mut(&mut self.storages, idx)
    }

    /// Append one value to the input queue.
    pub fn push_input(&mut self, value: i64)
        ensures
            final(self)@ == (MachineState { input: old(self)@.input.push(value), ..old(self)@ }),
            final(self).grid() == old(self).grid(),
            old(self).inv() ==> final(self).inv(),
            old(self).instruct_ready() ==> final(self).instruct_ready(),
    {
        self.input.push(value);
    }

    /// Remove and return everything written to the output so far.
    pub fn take_output(&mut self) -> (out: Vec<OutputItem>)
        ensures
            out@ == old(self)@.output,
            final(self)@ == (MachineState { output: Seq::<OutputItem>::empty(), ..old(self)@ }),
            final(self).grid() == old(self).grid(),
            old(self).inv() ==> final(self).inv(),
            old(self).inv() ==> output_wf(out@),
    {
        let mut out: Vec<OutputItem> = Vec::new();
        core::mem::swap(&mut out, &mut self.output);
        proof {
            assert(final(self)@ =~~= MachineState {
                output: Seq::<OutputItem>::empty(),
                ..old(self)@
            });
        }
        out
    }

    /// The cell the counter addresses.
    fn current_cell(&self) -> (inst: Instruction)
        requires
            self.inv(),
        ensures
            inst == cell_at(self.grid(), self@.counter.0, self@.counter.1),
    {
        proof {
            use_type_invariant(&self.source);
        }
        let row = self.counter.0;
        let col = self.counter.1;
        let row_count = self.source.row_count();
        let width = self.source.width();
        proof {
            assert(0 <= row < row_count);
        }
        if col >= width as i64 {
            proof {
                let g = self.grid();
                let r = row as int;
                if 2 <= r < g.len() - 2 {
                    assert(content_row_wf(g[r], g[0].len() as int));
                }
                assert(g[r].len() <= width);
            }
            Instruction::from_wall_data(InterpreterDirection::Right, 2)
        } else {
            self.source.cell(row as usize, col as usize)
        }
    }

    /// Whether the direction matches the last movement vector. A driver
    /// stepping the interpreter itself checks this after each step, as
    /// `execute` does, and stops when it fails.
    pub fn is_consistent(&self) -> (b: bool)
        ensures
            b == self.consistent(),
    {
        let lm = self.last_move;
        match self.direction {
            InterpreterDirection::Up => (lm.0 == -1 || lm.0 == -2) && lm.1 == 0,
            InterpreterDirection::Down => (lm.0 == 1 || lm.0 == 2) && lm.1 == 0,
            InterpreterDirection::Right => lm.0 == 0 && (lm.1 == 1 || lm.1 == 2),
            InterpreterDirection::Left => lm.0 == 0 && (lm.1 == -1 || lm.1 == -2),
        }
    }

    /// Fetch the cell at the counter and execute it. After a step out of an
    /// invariant state, the counter still addresses a cell of the grid, and
    /// the whole invariant holds again whenever the new direction matches
    /// the new movement vector.
    pub fn step(&mut self) -> (halted: bool)
        requires
            old(self).inv(),
        ensures
            ({
                let inst = cell_at(
                    old(self).grid(),
                    old(self)@.counter.0,
                    old(self)@.counter.1,
                );
                &&& final(self)@ == instruct_effect(old(self)@, inst).0
                &&& halted == instruct_effect(old(self)@, inst).1
            }),
            final(self).grid() == old(self).grid(),
            0 <= final(self)@.counter.0 < final(self).grid().len(),
            0 <= final(self)@.counter.1 <= final(self).grid()[0].len() + 1,
            final(self).consistent() ==> final(self).inv(),
            halted ==> final(self).inv(),
    {
        let inst = self.current_cell();
        proof {
            lemma_step_preserves_inv(self@, self.grid(), inst);
        }
        self.instruct(&inst)
    }

    /// Run until a halt cell executes or the step bound is spent. Stops
    /// early, reporting no halt, on the rare walk state whose direction no
    /// longer matches its movement vector, which the border walls could not
    /// wrap.
    pub fn execute(&mut self, max_steps: u64) -> (halted: bool)
        requires
            old(self).inv(),
        ensures
            final(self).grid() == old(self).grid(),
            final(self)@ == run_effect(old(self)@, old(self).grid(), max_steps as nat).0,
            halted == run_effect(old(self)@, old(self).grid(), max_steps as nat).1,
            final(self).inv() || !final(self).consistent(),
    {
        let ghost s0 = self@;
        let ghost g = self.grid();
        let mut remaining = max_steps;
        while remaining > 0
            invariant
                self.inv(),
                self.grid() == g,
                g == old(self).grid(),
                remaining <= max_steps,
                run_effect(s0, g, max_steps as nat) == run_effect(self@, g, remaining as nat),
                s0 == old(self)@,
            decreases remaining,
        {
            let halted = self.step();
            if halted {
                return true;
            }
            if !self.is_consistent() {
                return false;
            }
            remaining = remaining - 1;
        }
        false
    }

    /// What the next step will read, so that a driver can supply it: the
    /// kind of read the cell at the counter performs, when the input queue
    /// is empty.
    pub fn input_request(&self) -> (r: Option<InputRequest>)
        requires
            self.inv(),
        ensures
            r == input_request_of(
                self@,
                cell_at(self.grid(), self@.counter.0, self@.counter.1),
            ),
    {
        if self.input.len() > 0 {
            return None;
        }
        let inst = self.current_cell();
        match inst.operation {
            InstructionOperation::PushIntegerInputOperation => Some(InputRequest::IntegerInput),
            InstructionOperation::PushCharInputOperation => Some(InputRequest::CharacterInput),
            _ => None,
        }
    }
}

/// A bounded run: step until a halt, until the direction no longer matches
/// the movement vector (see `execute`), or until the step bound is spent.
pub open spec fn run_effect(s: MachineState, g: Seq<Seq<Instruction>>, fuel: nat) -> (
    MachineState,
    bool,
)
    decreases fuel,
{
    if fuel == 0 {
        (s, false)
    } else {
        let (s1, halted) = instruct_effect(s, cell_at(g, s.counter.0, s.counter.1));
        if halted {
            (s1, true)
        } else if !vector_dir_ok(s1.direction, s1.last_move) {
            (s1, false)
        } else {
            run_effect(s1, g, (fuel - 1) as nat)
        }
    }
}

/// What the next step will read: the kind of read the cell performs, when
/// the input queue is empty.
pub open spec fn input_request_of(s: MachineState, inst: Instruction) -> Option<InputRequest> {
    if s.input.len() > 0 {
        None
    } else {
        match inst.operation {
            InstructionOperation::PushIntegerInputOperation => Some(InputRequest::IntegerInput),
            InstructionOperation::PushCharInputOperation => Some(InputRequest::CharacterInput),
            _ => None,
        }
    }
}

/// An axis-aligned vector of at most a double step.
pub open spec fn axis_vector(v: (int, int)) -> bool {
    (v.0 == 0 && -2 <= v.1 <= 2) || (v.1 == 0 && -2 <= v.0 <= 2)
}

/// A pushed item that is no invalid character keeps the output well formed.
proof fn lemma_output_push(out: Seq<OutputItem>, item: OutputItem)
    requires
        output_wf(out),
        item matches OutputItem::Character(v) ==> valid_scalar_u32(v),
    ensures
        output_wf(out.push(item)),
{
    assert forall|i: int| 0 <= i < out.push(item).len() implies (#[trigger] out.push(item)[i]
        matches OutputItem::Character(v) ==> valid_scalar_u32(v)) by {
        if i < out.len() {
            assert(out.push(item)[i] == out[i]);
        }
    }
}

/// An operation leaves the walk state alone and keeps the bank's shape and
/// the output well formed; a halting operation changes nothing at all.
proof fn lemma_operation_frame(s: MachineState, op: InstructionOperation)
    requires
        s.bank.len() == 28,
        0 <= s.storage_index < 28,
        output_wf(s.output),
        crate::instruction::operation_wf(op),
    ensures
        operation_effect(s, op).0.bank.len() == 28,
        0 <= operation_effect(s, op).0.storage_index < 28,
        output_wf(operation_effect(s, op).0.output),
        operation_effect(s, op).0.counter == s.counter,
        operation_effect(s, op).0.direction == s.direction,
        operation_effect(s, op).0.last_move == s.last_move,
        operation_effect(s, op).2 ==> operation_effect(s, op).0 == s && !operation_effect(
            s,
            op,
        ).1,
{
    let q = storage_is_queue(s.storage_index);
    let cur = s.bank[s.storage_index];
    match op {
        InstructionOperation::PrintIntegerOperation => {
            if cur.len() > 0 {
                lemma_output_push(s.output, OutputItem::Integer(head_value(cur, q)));
            }
        },
        InstructionOperation::PrintCharOperation => {
            if cur.len() > 0 {
                let v = head_value(cur, q);
                if valid_scalar(v) {
                    assert(valid_scalar_u32(v as u32));
                    lemma_output_push(s.output, OutputItem::Character(v as u32));
                }
            }
        },
        _ => {},
    }
}

/// From an interior cell, one axis-aligned step of at most two cells stays
/// in the grid, and can only land on a border row or column heading into its
/// wall.
proof fn lemma_commit_interior(
    g: Seq<Seq<Instruction>>,
    c: (int, int),
    d2: InterpreterDirection,
    v2: (int, int),
)
    requires
        grid_wf(g),
        2 <= c.0 <= g.len() - 3,
        2 <= c.1 <= g[0].len() - 1,
        axis_vector(v2),
    ensures
        0 <= c.0 + v2.0 < g.len(),
        0 <= c.1 + v2.1 <= g[0].len() + 1,
        vector_dir_ok(d2, v2) ==> {
            &&& (c.0 + v2.0 <= 1 ==> d2 == InterpreterDirection::Up)
            &&& (c.0 + v2.0 >= g.len() - 2 ==> d2 == InterpreterDirection::Down)
            &&& (c.1 + v2.1 <= 1 ==> d2 == InterpreterDirection::Left)
            &&& (c.1 + v2.1 >= g[0].len() ==> d2 == InterpreterDirection::Right)
        },
{
}

/// One step from a state satisfying the invariant stays on the grid, and
/// satisfies the whole invariant again whenever the committed direction
/// matches the committed vector. The one movement that breaks the match is a
/// vertical-keep cell reached moving left, whose tentative pair the
/// instruction table gives as rightward with a downward vector.
pub proof fn lemma_step_preserves_inv(
    s: MachineState,
    g: Seq<Seq<Instruction>>,
    inst: Instruction,
)
    requires
        grid_wf(g),
        state_inv(s, g),
        inst == cell_at(g, s.counter.0, s.counter.1),
    ensures
        inst.wf(),
        ({
            let (s2, halted) = instruct_effect(s, inst);
            &&& s2.bank.len() == 28
            &&& 0 <= s2.storage_index < 28
            &&& output_wf(s2.output)
            &&& 0 <= s2.counter.0 < g.len()
            &&& 0 <= s2.counter.1 <= g[0].len() + 1
            &&& (vector_dir_ok(s2.direction, s2.last_move) ==> state_inv(s2, g))
            &&& (halted ==> s2 == s)
        }),
{
    let rows = g.len() as int;
    let width = g[0].len() as int;
    let c0 = s.counter;
    let d0 = s.direction;
    let lm0 = s.last_move;
    let row = c0.0;
    let col = c0.1;
    if row <= 1 {
        assert(d0 == InterpreterDirection::Up);
        assert(col < width);
        assert(col >= 2);
        assert(g[row] == wall_row_spec(width, InterpreterDirection::Up, (rows - 3) as i64));
        assert(inst == wall_instruction(InterpreterDirection::Up, (rows - 3) as i64));
        assert(((rows - 3) as i64) as int == rows - 3);
    } else if row >= rows - 2 {
        assert(d0 == InterpreterDirection::Down);
        assert(col < width);
        assert(col >= 2);
        assert(g[row] == wall_row_spec(width, InterpreterDirection::Down, 2));
        assert(inst == wall_instruction(InterpreterDirection::Down, 2));
    } else {
        assert(content_row_wf(g[row], width));
        let len = g[row].len() as int;
        if col <= 1 {
            assert(d0 == InterpreterDirection::Left);
            assert(inst == wall_instruction(
                InterpreterDirection::Left,
                (len - 1) as i64,
            ));
            assert(((len - 1) as i64) as int == len - 1);
            assert(row >= 2);
        } else if col >= len {
            assert(inst == wall_instruction(InterpreterDirection::Right, 2));
            if d0 != InterpreterDirection::Right {
                assert(col < width);
                lemma_commit_interior(g, c0, d0, lm0);
            }
        } else {
            assert(crate::instruction::content_cell_wf(inst));
            lemma_operation_frame(s, inst.operation);
            let t = operation_effect(s, inst.operation);
            let s1 = t.0;
            let branch = t.1;
            let halt = t.2;
            if !halt {
                let m = movement_effect(inst.movement, s1.direction, s1.last_move, s1.counter);
                assert(m.2 == c0);
                let d2 = if branch { opposite(m.0) } else { m.0 };
                let v2 = if branch { (-m.1.0, -m.1.1) } else { m.1 };
                assert(axis_vector(v2));
                lemma_commit_interior(g, c0, d2, v2);
            }
        }
    }
}

} // verus!
