use aheui::Instruction;
use aheui::InstructionData;
use aheui::InstructionMovement;
use aheui::InstructionOperation;
use aheui::InterpreterDirection;
use aheui::Source;
use aheui::final_draw_counts;
use aheui::syllable::decode;

#[test]
pub fn test_source() {
    let s = Source::new("아희\n밯망희");
    assert_eq!(s.get((0, 0)).hangeul().char(), '아');
    assert_eq!(s.get((0, 1)).hangeul().char(), '희');
    assert_eq!(s.get((1, 0)).hangeul().char(), '밯');
    assert_eq!(s.get((1, 2)).hangeul().char(), '희');
}

#[test]
pub fn test_final_draw_counts() {
    // By trailing-consonant index: blank, giyeok, giyeok-siot, rieul,
    // rieul-bieup, rieul-tieut, chieut.
    assert_eq!(final_draw_counts(0), 0);
    assert_eq!(final_draw_counts(1), 2);
    assert_eq!(final_draw_counts(3), 4);
    assert_eq!(final_draw_counts(8), 5);
    assert_eq!(final_draw_counts(11), 9);
    assert_eq!(final_draw_counts(13), 9);
    assert_eq!(final_draw_counts(23), 4);
}

#[test]
fn grid_walls_surround_the_program() {
    let s = Source::new("아희\n밯망희");
    // Above and below: wall cells that wrap a vertical walk. Two rows of
    // text mean a wrap value of three.
    assert_eq!(
        s.get((-1, 0)).movement,
        InstructionMovement::WallMovement(InterpreterDirection::Up, 3)
    );
    assert_eq!(
        s.get((2, 0)).movement,
        InstructionMovement::WallMovement(InterpreterDirection::Down, 2)
    );
    // Left of each row: wall cells carrying that row's wrap value.
    assert_eq!(
        s.get((0, -1)).movement,
        InstructionMovement::WallMovement(InterpreterDirection::Left, 3)
    );
    assert_eq!(
        s.get((1, -1)).movement,
        InstructionMovement::WallMovement(InterpreterDirection::Left, 4)
    );
    // Past the right end of a row: the right-wall sentinel.
    assert_eq!(
        s.get((0, 2)).movement,
        InstructionMovement::WallMovement(InterpreterDirection::Right, 2)
    );
    assert_eq!(s.get((0, 2)).data, InstructionData::Virtual);
    assert_eq!(s.get((0, 2)).operation, InstructionOperation::NoOperation);
}

#[test]
fn decode_splits_a_syllable_into_components() {
    let s = decode('밟').expect("a Hangul syllable");
    assert_eq!(s.initial(), 7); // bieup
    assert_eq!(s.peak(), 0); // a
    assert_eq!(s.final0(), 11); // rieul-bieup
    assert_eq!(s.char(), '밟');
    assert!(decode('a').is_none());
    assert!(decode('\n').is_none());
    assert!(decode('ㅏ').is_none());
}

#[test]
fn non_syllables_compile_to_transparent_cells() {
    let i = Instruction::from_char('x');
    assert_eq!(i.data, InstructionData::Character('x'));
    assert_eq!(i.operation, InstructionOperation::NoOperation);
    assert_eq!(i.movement, InstructionMovement::KeepCurrentMovement);
}

#[test]
fn compile_table_matches_the_components() {
    assert_eq!(
        Instruction::from_char('희').operation,
        InstructionOperation::HaltOperation
    );
    assert_eq!(
        Instruction::from_char('반').operation,
        InstructionOperation::PushConstantOperation(2)
    );
    assert_eq!(
        Instruction::from_char('방').operation,
        InstructionOperation::PushIntegerInputOperation
    );
    assert_eq!(
        Instruction::from_char('밯').operation,
        InstructionOperation::PushCharInputOperation
    );
    assert_eq!(
        Instruction::from_char('망').operation,
        InstructionOperation::PrintIntegerOperation
    );
    assert_eq!(
        Instruction::from_char('맣').operation,
        InstructionOperation::PrintCharOperation
    );
    assert_eq!(
        Instruction::from_char('상').operation,
        InstructionOperation::ChangeStorageOperation(21)
    );
    assert_eq!(
        Instruction::from_char('쌍').operation,
        InstructionOperation::MoveToStorageOperation(21)
    );
    assert_eq!(
        Instruction::from_char('아').movement,
        InstructionMovement::RegularMovement(InterpreterDirection::Right, 0, 1)
    );
    assert_eq!(
        Instruction::from_char('유').movement,
        InstructionMovement::RegularMovement(InterpreterDirection::Down, 2, 0)
    );
    assert_eq!(
        Instruction::from_char('희').movement,
        InstructionMovement::DisallowMovement
    );
}
