use aheui::Instruction;
use aheui::Interpreter;
use aheui::Source;
use aheui::Storage;

#[test]
pub fn test_interpreter() {
    let mut interpreter = Interpreter::new(Source::new(""));
    assert_eq!(interpreter.counter(), (0, 0));
    interpreter.instruct(&Instruction::from_char('아'));
    assert_eq!(interpreter.counter(), (0, 1));
    interpreter.instruct(&Instruction::from_char('희'));
    assert_eq!(interpreter.counter(), (0, 1));
    {
        let source = Source::new("아희");
        let mut interpreter = Interpreter::new(source);
        interpreter.execute(1000);
    }
}

#[test]
pub fn test_it() {
    {
        let mut it = Interpreter::new(Source::new(""));
        assert_eq!(it.counter(), (0, 0));
        it.instruct(&Instruction::from_char('아'));
        assert_eq!(it.counter(), (0, 1));
        it.instruct(&Instruction::from_char('희'));
        assert_eq!(it.counter(), (0, 1));
    }
    {
        let source = Source::new("아희");
        let mut it = Interpreter::new(source);
        it.execute(1000);
        assert_eq!(it.counter(), (0, 1));
    }
}

#[test]
pub fn test_peak() {
    let mut it = Interpreter::new(Source::new(""));
    assert_eq!(it.counter(), (0, 0));
    it.instruct(&Instruction::from_char('아'));
    assert_eq!(it.counter(), (0, 1));
    it.instruct(&Instruction::from_char('우'));
    assert_eq!(it.counter(), (1, 1));
    it.instruct(&Instruction::from_char('어'));
    assert_eq!(it.counter(), (1, 0));
    it.instruct(&Instruction::from_char('오'));
    assert_eq!(it.counter(), (0, 0));
    it.instruct(&Instruction::from_char('우'));
    assert_eq!(it.counter(), (1, 0));
    it.instruct(&Instruction::from_char('이'));
    assert_eq!(it.counter(), (2, 0));
    it.instruct(&Instruction::from_char('으'));
    assert_eq!(it.counter(), (1, 0));
    it.instruct(&Instruction::from_char('아'));
    assert_eq!(it.counter(), (1, 1));
    it.instruct(&Instruction::from_char('으'));
    assert_eq!(it.counter(), (1, 2));
    it.instruct(&Instruction::from_char('이'));
    assert_eq!(it.counter(), (1, 1));
    it.instruct(&Instruction::from_char('의'));
    assert_eq!(it.counter(), (1, 2));
}

#[test]
pub fn test_initial() {
    let mut it = Interpreter::new(Source::new(""));
    it.instruct(&Instruction::from_char('바'));
    assert_eq!(it.storage().peek(), Some(0));
    it.instruct(&Instruction::from_char('반'));
    assert_eq!(it.storage().peek(), Some(2));
    it.instruct(&Instruction::from_char('밧'));
    assert_eq!(it.storage().peek(), Some(2));
    it.instruct(&Instruction::from_char('나'));
    assert_eq!(it.storage().peek(), Some(1));
    it.instruct(&Instruction::from_char('밟'));
    assert_eq!(it.storage().peek(), Some(9));
    it.instruct(&Instruction::from_char('밭'));
    assert_eq!(it.storage().peek(), Some(4));
    it.instruct(&Instruction::from_char('다'));
    assert_eq!(it.storage().peek(), Some(13));
    it.instruct(&Instruction::from_char('밪'));
    assert_eq!(it.storage().peek(), Some(3));
    it.instruct(&Instruction::from_char('따'));
    assert_eq!(it.storage().peek(), Some(39));
    it.instruct(&Instruction::from_char('반'));
    assert_eq!(it.storage().peek(), Some(2));
    it.instruct(&Instruction::from_char('눔'));
    assert_eq!(it.storage().peek(), Some(19));
    it.instruct(&Instruction::from_char('발'));
    assert_eq!(it.storage().peek(), Some(5));
    it.instruct(&Instruction::from_char('룸'));
    assert_eq!(it.storage().peek(), Some(4));
    it.instruct(&Instruction::from_char('밥'));
    assert_eq!(it.storage().peek(), Some(4));
    it.instruct(&Instruction::from_char('주'));
    assert_eq!(it.storage().peek(), Some(1));
    it.instruct(&Instruction::from_char('반'));
    assert_eq!(it.storage().peek(), Some(2));
    it.instruct(&Instruction::from_char('주'));
    assert_eq!(it.storage().peek(), Some(0));
}

#[test]
pub fn test_chieut() {
    let mut it = Interpreter::new(Source::new(""));
    assert_eq!(it.counter(), (0, 0));
    it.instruct(&Instruction::from_char('반'));
    assert_eq!(it.counter(), (0, 1));
    assert_eq!(it.storage().peek(), Some(2));
    it.instruct(&Instruction::from_char('찬'));
    assert_eq!(it.counter(), (0, 2));
    assert_eq!(it.storage().len(), 0);
    it.instruct(&Instruction::from_char('바'));
    assert_eq!(it.counter(), (0, 3));
    assert_eq!(it.storage().peek(), Some(0));
    it.instruct(&Instruction::from_char('쳐'));
    assert_eq!(it.counter(), (0, 5));
    assert_eq!(it.storage().len(), 0);
}

#[test]
pub fn test_queue() {
    let mut it = Interpreter::new(Source::new(""));
    it.instruct(&Instruction::from_char('상'));
    it.instruct(&Instruction::from_char('반'));
    it.instruct(&Instruction::from_char('발'));
    it.instruct(&Instruction::from_char('밞'));
    assert_eq!(it.storage().peek(), Some(2));
    it.instruct(&Instruction::from_char('팡'));
    assert_eq!(it.storage().peek(), Some(5));
    it.instruct(&Instruction::from_char('덧'));
    assert_eq!(it.storage().peek(), Some(9));
    it.instruct(&Instruction::from_char('멍'));
    assert_eq!(it.storage().peek(), Some(7));
}

#[test]
pub fn test_helloworld() {
    let source = Source::new(
        "밤밣따빠밣밟따뿌\n빠맣파빨받밤뚜뭏\n돋밬탕빠맣붏두붇\n볻뫃박발뚷투뭏붖\n뫃도뫃희멓뭏뭏붘\n뫃봌토범더벌뿌뚜\n뽑뽀멓멓더벓뻐뚠\n뽀덩벐멓뻐덕더벅",
    );
    let mut it = Interpreter::new(source);
    assert_eq!(it.counter(), (0, 0));
    assert_eq!(it.storage().len(), 0);
    assert!(!it.step());
    assert_eq!(it.counter(), (0, 1));
    assert_eq!(it.storage().len(), 1);
    assert_eq!(it.storage().peek(), Some(4));
    assert!(!it.step());
    assert_eq!(it.counter(), (0, 2));
    assert_eq!(it.storage().len(), 2);
    assert_eq!(it.storage().peek(), Some(8));
    assert!(!it.step());
    assert_eq!(it.counter(), (0, 3));
    assert!(!it.step());
    assert_eq!(it.counter(), (0, 4));
    assert!(!it.step());
    assert_eq!(it.counter(), (0, 5));
    assert!(!it.step());
    assert_eq!(it.counter(), (0, 6));
    assert!(!it.step());
    assert_eq!(it.counter(), (0, 7));
    assert!(!it.step());
    assert_eq!(it.counter(), (1, 7));
}

#[test]
pub fn test_99dan() {
    let source = Source::new("삼반반타반빠빠빠빠빠빠뿌\n우어번벋벋범벌벖벍벓벒석\n");
    let mut it = Interpreter::new(source);
    assert_eq!(it.counter(), (0, 0));
    assert_eq!(it.storage().len(), 0);
    assert!(!it.step());
    assert_eq!(it.counter(), (0, 1));
    assert_eq!(it.storage().len(), 0);
    assert!(!it.step());
    assert_eq!(it.counter(), (0, 2));
    assert_eq!(it.storage().len(), 1);
    assert_eq!(it.storage().peek(), Some(2));
    assert!(!it.step());
    assert_eq!(it.counter(), (0, 3));
    assert_eq!(it.storage().len(), 2);
    assert_eq!(it.storage().peek(), Some(2));
    assert!(!it.step());
    assert_eq!(it.counter(), (0, 4));
    assert_eq!(it.storage().len(), 1);
    assert_eq!(it.storage().peek(), Some(0));
    assert!(!it.step());
    assert_eq!(it.counter(), (0, 5));
    assert_eq!(it.storage().len(), 2);
    assert_eq!(it.storage().peek(), Some(2));
    assert!(!it.step());
    assert_eq!(it.counter(), (0, 6));
    assert_eq!(it.storage().len(), 3);
    assert_eq!(it.storage().peek(), Some(2));
    assert!(!it.step());
    assert_eq!(it.counter(), (0, 7));
    assert_eq!(it.storage().len(), 4);
    assert_eq!(it.storage().peek(), Some(2));
    assert!(!it.step());
    assert_eq!(it.counter(), (0, 8));
    assert_eq!(it.storage().len(), 5);
    assert_eq!(it.storage().peek(), Some(2));
    assert!(!it.step());
    assert_eq!(it.counter(), (0, 9));
    assert_eq!(it.storage().len(), 6);
    assert_eq!(it.storage().peek(), Some(2));
    assert!(!it.step());
    assert_eq!(it.counter(), (0, 10));
    assert_eq!(it.storage().len(), 7);
    assert_eq!(it.storage().peek(), Some(2));
    assert!(!it.step());
    assert_eq!(it.counter(), (0, 11));
    assert_eq!(it.storage().len(), 8);
    assert_eq!(it.storage().peek(), Some(2));
    assert!(!it.step());
    assert_eq!(it.counter(), (1, 11));
    assert_eq!(it.storage().len(), 9);
    assert_eq!(it.storage().peek(), Some(2));
    assert!(!it.step());
    assert_eq!(it.counter(), (1, 10));
    assert_eq!(it.storage().len(), 0);
    assert!(!it.step());
    assert_eq!(it.counter(), (1, 9));
    assert_eq!(it.storage().len(), 1);
    assert_eq!(it.storage().peek(), Some(9));
    assert!(!it.step());
    assert_eq!(it.counter(), (1, 8));
    assert_eq!(it.storage().len(), 2);
    assert_eq!(it.storage().peek(), Some(8));
    assert!(!it.step());
    assert_eq!(it.counter(), (1, 7));
    assert_eq!(it.storage().len(), 3);
    assert_eq!(it.storage().peek(), Some(7));
    assert!(!it.step());
    assert_eq!(it.counter(), (1, 6));
    assert_eq!(it.storage().len(), 4);
    assert_eq!(it.storage().peek(), Some(6));
    assert!(!it.step());
    assert_eq!(it.counter(), (1, 5));
    assert_eq!(it.storage().len(), 5);
    assert_eq!(it.storage().peek(), Some(5));
    assert!(!it.step());
    assert_eq!(it.counter(), (1, 4));
    assert_eq!(it.storage().len(), 6);
    assert_eq!(it.storage().peek(), Some(4));
    assert!(!it.step());
    assert_eq!(it.counter(), (1, 3));
    assert_eq!(it.storage().len(), 7);
    assert_eq!(it.storage().peek(), Some(3));
    assert!(!it.step());
    assert_eq!(it.counter(), (1, 2));
    assert_eq!(it.storage().len(), 8);
    assert_eq!(it.storage().peek(), Some(3));
}
