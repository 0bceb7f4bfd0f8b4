//! Instructions: the mapping from a source cell to an operation and a
//! movement rule.
//!
//! The leading consonant of a syllable selects the operation, the vowel
//! selects the movement, and the trailing consonant is an operand to some
//! operations. Non-syllable characters are no-op cells that keep the current
//! movement; virtual wall cells wrap the program counter at the grid borders.

use vstd::prelude::*;
use crate::syllable::Syllable;
use crate::syllable::decode;
use crate::syllable::is_hangul_syllable;
use crate::syllable::spec_syllable_of;
use crate::syllable::lemma_syllable_of_wf;

verus! {

/// A direction of travel of the program counter.
#[derive(Clone, Copy, Debug, PartialEq, Eq, Structural)]
pub enum InterpreterDirection {
    Down,
    Up,
    Right,
    Left,
}

/// What a source cell holds: a decoded syllable, any other character, or a
/// virtual wall cell created by the grid padding.
#[derive(Clone, Copy, Debug, PartialEq, Eq, Structural)]
pub enum InstructionData {
    Hangeul(Syllable),
    Character(char),
    Virtual,
}

/// The arithmetic selected by a binary operation.
#[derive(Clone, Copy, Debug, PartialEq, Eq, Structural)]
pub enum BinaryOperator {
    Add,
    Mul,
    Sub,
    Div,
    Mod,
}

/// How a cell moves the program counter.
#[derive(Clone, Copy, Debug, PartialEq, Eq, Structural)]
pub enum InstructionMovement {
    /// Move in the given direction by the given row and column deltas.
    RegularMovement(InterpreterDirection, i64, i64),
    /// Keep a horizontal direction; turn a vertical one around.
    AllowHorizontalMovement,
    /// Keep a vertical direction; turn a horizontal one around.
    AllowVerticalMovement,
    /// Turn around on both axes.
    DisallowMovement,
    /// Reuse the last movement.
    KeepCurrentMovement,
    /// Border sentinel: wrap the counter to the opposite edge when travelling
    /// in the stored direction; the value is the wrap target offset.
    WallMovement(InterpreterDirection, i64),
}

/// What a cell does to the selected storage.
#[derive(Clone, Copy, Debug, PartialEq, Eq, Structural)]
pub enum InstructionOperation {
    NoOperation,
    PushConstantOperation(i64),
    PushDuplicationOperation,
    PushIntegerInputOperation,
    PushCharInputOperation,
    BinaryOperation(BinaryOperator),
    PopOperation,
    PrintIntegerOperation,
    PrintCharOperation,
    SwapOperation,
    ChangeStorageOperation(usize),
    MoveToStorageOperation(usize),
    CompareOperation,
    BranchOperation,
    HaltOperation,
}

/// One cell of the program grid.
#[derive(Clone, Copy, Debug, PartialEq, Eq, Structural)]
pub struct Instruction {
    pub data: InstructionData,
    pub operation: InstructionOperation,
    pub movement: InstructionMovement,
}

// Indices of the leading consonants that select an operation.
pub const INITIAL_NIEUN: u8 = 2;
pub const INITIAL_DIGEUT: u8 = 3;
pub const INITIAL_SSANG_DIGEUT: u8 = 4;
pub const INITIAL_RIEUL: u8 = 5;
pub const INITIAL_MIEUM: u8 = 6;
pub const INITIAL_BIEUP: u8 = 7;
pub const INITIAL_SSANG_BIEUP: u8 = 8;
pub const INITIAL_SIOT: u8 = 9;
pub const INITIAL_SSANG_SIOT: u8 = 10;
pub const INITIAL_IEUNG: u8 = 11;
pub const INITIAL_JIEUT: u8 = 12;
pub const INITIAL_CHIEUT: u8 = 14;
pub const INITIAL_TIEUT: u8 = 16;
pub const INITIAL_PIEUP: u8 = 17;
pub const INITIAL_HIEUT: u8 = 18;

// Indices of the trailing consonants with a positional role.
pub const FINAL_IEUNG: u8 = 21;
pub const FINAL_HIEUT: u8 = 27;

// Indices of the vowels that select a movement.
pub const VOWEL_A: u8 = 0;
pub const VOWEL_YA: u8 = 2;
pub const VOWEL_EO: u8 = 4;
pub const VOWEL_YEO: u8 = 6;
pub const VOWEL_O: u8 = 8;
pub const VOWEL_YO: u8 = 12;
pub const VOWEL_U: u8 = 13;
pub const VOWEL_YU: u8 = 17;
pub const VOWEL_EU: u8 = 18;
pub const VOWEL_UI: u8 = 19;
pub const VOWEL_I: u8 = 20;

/// Largest magnitude a wall value or a counter coordinate may carry, so that
/// stepping past it can never overflow a 64-bit coordinate.
pub const COORDINATE_LIMIT: i64 = 0x4000_0000_0000_0000;

/// The draw-stroke count of the trailing consonant of index `i`; the value a
/// push-constant operation pushes. Indices 21 and 27 only appear in
/// positional roles and carry no count.
pub open spec fn final_draw_count(i: int) -> i64 {
    if i == 0 { 0 }
    else if i == 1 { 2 }
    else if i == 2 { 4 }
    else if i == 3 { 4 }
    else if i == 4 { 2 }
    else if i == 5 { 5 }
    else if i == 6 { 5 }
    else if i == 7 { 3 }
    else if i == 8 { 5 }
    else if i == 9 { 7 }
    else if i == 10 { 9 }
    else if i == 11 { 9 }
    else if i == 12 { 7 }
    else if i == 13 { 9 }
    else if i == 14 { 9 }
    else if i == 15 { 8 }
    else if i == 16 { 4 }
    else if i == 17 { 4 }
    else if i == 18 { 6 }
    else if i == 19 { 2 }
    else if i == 20 { 4 }
    else if i == 22 { 3 }
    else if i == 23 { 4 }
    else if i == 24 { 3 }
    else if i == 25 { 4 }
    else if i == 26 { 4 }
    else { -1i64 }
}

/// The draw-stroke count table, by trailing-consonant index.
pub fn final_draw_counts(index: usize) -> (r: i64)
    ensures
        r == final_draw_count(index as int),
{
    match index {
        0 => 0,
        1 => 2,
        2 => 4,
        3 => 4,
        4 => 2,
        5 => 5,
        6 => 5,
        7 => 3,
        8 => 5,
        9 => 7,
        10 => 9,
        11 => 9,
        12 => 7,
        13 => 9,
        14 => 9,
        15 => 8,
        16 => 4,
        17 => 4,
        18 => 6,
        19 => 2,
        20 => 4,
        21 => -1,
        22 => 3,
        23 => 4,
        24 => 3,
        25 => 4,
        26 => 4,
        _ => -1,
    }
}

/// The operation selected by a leading consonant together with the trailing
/// consonant it may take as operand.
pub open spec fn operation_for_syllable(ini: int, fin: int) -> InstructionOperation {
    if ini == INITIAL_BIEUP as int {
        if fin == FINAL_IEUNG as int {
            InstructionOperation::PushIntegerInputOperation
        } else if fin == FINAL_HIEUT as int {
            InstructionOperation::PushCharInputOperation
        } else {
            InstructionOperation::PushConstantOperation(final_draw_count(fin))
        }
    } else if ini == INITIAL_SSANG_BIEUP as int {
        InstructionOperation::PushDuplicationOperation
    } else if ini == INITIAL_PIEUP as int {
        InstructionOperation::SwapOperation
    } else if ini == INITIAL_DIGEUT as int {
        InstructionOperation::BinaryOperation(BinaryOperator::Add)
    } else if ini == INITIAL_SSANG_DIGEUT as int {
        InstructionOperation::BinaryOperation(BinaryOperator::Mul)
    } else if ini == INITIAL_TIEUT as int {
        InstructionOperation::BinaryOperation(BinaryOperator::Sub)
    } else if ini == INITIAL_NIEUN as int {
        InstructionOperation::BinaryOperation(BinaryOperator::Div)
    } else if ini == INITIAL_RIEUL as int {
        InstructionOperation::BinaryOperation(BinaryOperator::Mod)
    } else if ini == INITIAL_MIEUM as int {
        if fin == FINAL_IEUNG as int {
            InstructionOperation::PrintIntegerOperation
        } else if fin == FINAL_HIEUT as int {
            InstructionOperation::PrintCharOperation
        } else {
            InstructionOperation::PopOperation
        }
    } else if ini == INITIAL_SIOT as int {
        InstructionOperation::ChangeStorageOperation(fin as usize)
    } else if ini == INITIAL_SSANG_SIOT as int {
        InstructionOperation::MoveToStorageOperation(fin as usize)
    } else if ini == INITIAL_JIEUT as int {
        InstructionOperation::CompareOperation
    } else if ini == INITIAL_CHIEUT as int {
        InstructionOperation::BranchOperation
    } else if ini == INITIAL_HIEUT as int {
        InstructionOperation::HaltOperation
    } else {
        InstructionOperation::NoOperation
    }
}

/// The movement selected by a vowel.
pub open spec fn movement_for_vowel(vow: int) -> InstructionMovement {
    if vow == VOWEL_A as int {
        InstructionMovement::RegularMovement(InterpreterDirection::Right, 0i64, 1i64)
    } else if vow == VOWEL_YA as int {
        InstructionMovement::RegularMovement(InterpreterDirection::Right, 0i64, 2i64)
    } else if vow == VOWEL_EO as int {
        InstructionMovement::RegularMovement(InterpreterDirection::Left, 0i64, -1i64)
    } else if vow == VOWEL_YEO as int {
        InstructionMovement::RegularMovement(InterpreterDirection::Left, 0i64, -2i64)
    } else if vow == VOWEL_O as int {
        InstructionMovement::RegularMovement(InterpreterDirection::Up, -1i64, 0i64)
    } else if vow == VOWEL_YO as int {
        InstructionMovement::RegularMovement(InterpreterDirection::Up, -2i64, 0i64)
    } else if vow == VOWEL_U as int {
        InstructionMovement::RegularMovement(InterpreterDirection::Down, 1i64, 0i64)
    } else if vow == VOWEL_YU as int {
        InstructionMovement::RegularMovement(InterpreterDirection::Down, 2i64, 0i64)
    } else if vow == VOWEL_EU as int {
        InstructionMovement::AllowHorizontalMovement
    } else if vow == VOWEL_I as int {
        InstructionMovement::AllowVerticalMovement
    } else if vow == VOWEL_UI as int {
        InstructionMovement::DisallowMovement
    } else {
        InstructionMovement::KeepCurrentMovement
    }
}

/// The operation of a cell holding the given data.
pub open spec fn operation_for(data: InstructionData) -> InstructionOperation {
    match data {
        InstructionData::Hangeul(s) => operation_for_syllable(s.ini as int, s.fin as int),
        _ => InstructionOperation::NoOperation,
    }
}

/// The movement of a cell holding the given data.
pub open spec fn movement_for(data: InstructionData) -> InstructionMovement {
    match data {
        InstructionData::Hangeul(s) => movement_for_vowel(s.vow as int),
        _ => InstructionMovement::KeepCurrentMovement,
    }
}

/// The data a character parses to.
pub open spec fn data_for_char(c: char) -> InstructionData {
    if is_hangul_syllable(c) {
        InstructionData::Hangeul(spec_syllable_of(c))
    } else {
        InstructionData::Character(c)
    }
}

/// The instruction compiled from the given data.
pub open spec fn instruction_for_data(data: InstructionData) -> Instruction {
    Instruction { data, operation: operation_for(data), movement: movement_for(data) }
}

/// The instruction a character parses to.
pub open spec fn instruction_for_char(c: char) -> Instruction {
    instruction_for_data(data_for_char(c))
}

/// A border sentinel cell.
pub open spec fn wall_instruction(direction: InterpreterDirection, value: i64) -> Instruction {
    Instruction {
        data: InstructionData::Virtual,
        operation: InstructionOperation::NoOperation,
        movement: InstructionMovement::WallMovement(direction, value),
    }
}

/// The syllable held by the data, if any, is a valid decoding.
pub open spec fn data_wf(data: InstructionData) -> bool {
    match data {
        InstructionData::Hangeul(s) => s.wf(),
        _ => true,
    }
}

/// Storage indices fit the bank.
pub open spec fn operation_wf(op: InstructionOperation) -> bool {
    match op {
        InstructionOperation::ChangeStorageOperation(i) => i < 28,
        InstructionOperation::MoveToStorageOperation(i) => i < 28,
        _ => true,
    }
}

/// Movement deltas and wall values are small enough that applying them to a
/// bounded counter coordinate cannot overflow.
pub open spec fn movement_wf(movement: InstructionMovement) -> bool {
    match movement {
        InstructionMovement::RegularMovement(_, dr, dc) => -2 <= dr <= 2 && -2 <= dc <= 2,
        InstructionMovement::WallMovement(_, v) => -COORDINATE_LIMIT <= v <= COORDINATE_LIMIT,
        _ => true,
    }
}

impl InstructionData {
    /// Parse one character: a syllable where it decodes, any other character
    /// as itself.
    pub fn from_char(c: char) -> (r: InstructionData)
        ensures
            r == data_for_char(c),
            data_wf(r),
    {
        match decode(c) {
            Some(syllable) => InstructionData::Hangeul(syllable),
            None => InstructionData::Character(c),
        }
    }
}

impl Instruction {
    /// The cell is safe to execute against a 28-storage bank and a bounded
    /// counter.
    pub open spec fn wf(self) -> bool {
        operation_wf(self.operation) && movement_wf(self.movement)
    }

    /// Compile data into its operation and movement.
    pub fn from_data(i: InstructionData) -> (r: Instruction)
        ensures
            r == instruction_for_data(i),
            data_wf(i) ==> r.wf(),
    {
        let operation = match i {
            InstructionData::Hangeul(c) => {
                let ini = c.initial();
                let fin = c.final0();
                if ini == INITIAL_BIEUP {
                    if fin == FINAL_IEUNG {
                        InstructionOperation::PushIntegerInputOperation
                    } else if fin == FINAL_HIEUT {
                        InstructionOperation::PushCharInputOperation
                    } else {
                        InstructionOperation::PushConstantOperation(
                            final_draw_counts(fin as usize),
                        )
                    }
                } else if ini == INITIAL_SSANG_BIEUP {
                    InstructionOperation::PushDuplicationOperation
                } else if ini == INITIAL_PIEUP {
                    InstructionOperation::SwapOperation
                } else if ini == INITIAL_DIGEUT {
                    InstructionOperation::BinaryOperation(BinaryOperator::Add)
                } else if ini == INITIAL_SSANG_DIGEUT {
                    InstructionOperation::BinaryOperation(BinaryOperator::Mul)
                } else if ini == INITIAL_TIEUT {
                    InstructionOperation::BinaryOperation(BinaryOperator::Sub)
                } else if ini == INITIAL_NIEUN {
                    InstructionOperation::BinaryOperation(BinaryOperator::Div)
                } else if ini == INITIAL_RIEUL {
                    InstructionOperation::BinaryOperation(BinaryOperator::Mod)
                } else if ini == INITIAL_MIEUM {
                    if fin == FINAL_IEUNG {
                        InstructionOperation::PrintIntegerOperation
                    } else if fin == FINAL_HIEUT {
                        InstructionOperation::PrintCharOperation
                    } else {
                        InstructionOperation::PopOperation
                    }
                } else if ini == INITIAL_SIOT {
                    InstructionOperation::ChangeStorageOperation(fin as usize)
                } else if ini == INITIAL_SSANG_SIOT {
                    InstructionOperation::MoveToStorageOperation(fin as usize)
                } else if ini == INITIAL_JIEUT {
                    InstructionOperation::CompareOperation
                } else if ini == INITIAL_CHIEUT {
                    InstructionOperation::BranchOperation
                } else if ini == INITIAL_HIEUT {
                    InstructionOperation::HaltOperation
                } else {
                    InstructionOperation::NoOperation
                }
            },
            _ => InstructionOperation::NoOperation,
        };
        let movement = match i {
            InstructionData::Hangeul(c) => {
                let vow = c.peak();
                if vow == VOWEL_A {
                    InstructionMovement::RegularMovement(InterpreterDirection::Right, 0, 1)
                } else if vow == VOWEL_YA {
                    InstructionMovement::RegularMovement(InterpreterDirection::Right, 0, 2)
                } else if vow == VOWEL_EO {
                    InstructionMovement::RegularMovement(InterpreterDirection::Left, 0, -1)
                } else if vow == VOWEL_YEO {
                    InstructionMovement::RegularMovement(InterpreterDirection::Left, 0, -2)
                } else if vow == VOWEL_O {
                    InstructionMovement::RegularMovement(InterpreterDirection::Up, -1, 0)
                } else if vow == VOWEL_YO {
                    InstructionMovement::RegularMovement(InterpreterDirection::Up, -2, 0)
                } else if vow == VOWEL_U {
                    InstructionMovement::RegularMovement(InterpreterDirection::Down, 1, 0)
                } else if vow == VOWEL_YU {
                    InstructionMovement::RegularMovement(InterpreterDirection::Down, 2, 0)
                } else if vow == VOWEL_EU {
                    InstructionMovement::AllowHorizontalMovement
                } else if vow == VOWEL_I {
                    InstructionMovement::AllowVerticalMovement
                } else if vow == VOWEL_UI {
                    InstructionMovement::DisallowMovement
                } else {
                    InstructionMovement::KeepCurrentMovement
                }
            },
            _ => InstructionMovement::KeepCurrentMovement,
        };
        Instruction { data: i, operation, movement }
    }

    /// A border sentinel that wraps a counter travelling in `direction`.
    pub fn from_wall_data(direction: InterpreterDirection, value: i64) -> (r: Instruction)
        requires
            -COORDINATE_LIMIT <= value <= COORDINATE_LIMIT,
        ensures
            r == wall_instruction(direction, value),
            r.wf(),
    {
        Instruction {
            data: InstructionData::Virtual,
            operation: InstructionOperation::NoOperation,
            movement: InstructionMovement::WallMovement(direction, value),
        }
    }

    /// Parse and compile one character.
    pub fn from_char(c: char) -> (r: Instruction)
        ensures
            r == instruction_for_char(c),
            r.wf(),
    {
        proof {
            if is_hangul_syllable(c) {
                lemma_syllable_of_wf(c);
            }
        }
        Instruction::from_data(InstructionData::from_char(c))
    }

    /// The syllable of a cell parsed from one.
    pub fn hangeul(&self) -> (r: Syllable)
        requires
            self.data is Hangeul,
        ensures
            InstructionData::Hangeul(r) == self.data,
    {
        match self.data {
            InstructionData::Hangeul(syllable) => syllable,
            _ => vstd::pervasive::unreached(),
        }
    }
}

/// A movement a character can compile to: one of the eight regular
/// direction-and-vector pairs, or one of the four relative movements.
pub open spec fn char_movement(m: InstructionMovement) -> bool {
    ||| m == InstructionMovement::RegularMovement(InterpreterDirection::Right, 0i64, 1i64)
    ||| m == InstructionMovement::RegularMovement(InterpreterDirection::Right, 0i64, 2i64)
    ||| m == InstructionMovement::RegularMovement(InterpreterDirection::Left, 0i64, -1i64)
    ||| m == InstructionMovement::RegularMovement(InterpreterDirection::Left, 0i64, -2i64)
    ||| m == InstructionMovement::RegularMovement(InterpreterDirection::Up, -1i64, 0i64)
    ||| m == InstructionMovement::RegularMovement(InterpreterDirection::Up, -2i64, 0i64)
    ||| m == InstructionMovement::RegularMovement(InterpreterDirection::Down, 1i64, 0i64)
    ||| m == InstructionMovement::RegularMovement(InterpreterDirection::Down, 2i64, 0i64)
    ||| m is AllowHorizontalMovement
    ||| m is AllowVerticalMovement
    ||| m is DisallowMovement
    ||| m is KeepCurrentMovement
}

/// A cell compiled from a character: storage indices fit the bank and the
/// movement is one a character selects, never a wall.
pub open spec fn content_cell_wf(i: Instruction) -> bool {
    operation_wf(i.operation) && char_movement(i.movement)
}

/// Characters always compile to well-formed, non-wall cells.
pub proof fn lemma_char_instruction_wf(c: char)
    ensures
        instruction_for_char(c).wf(),
        content_cell_wf(instruction_for_char(c)),
        instruction_for_char(c).operation != InstructionOperation::NoOperation
            ==> data_for_char(c) is Hangeul,
{
    if is_hangul_syllable(c) {
        lemma_syllable_of_wf(c);
    }
}

} // verus!
