use aheui::InputRequest;
use aheui::Instruction;
use aheui::Interpreter;
use aheui::OutputItem;
use aheui::Source;
use aheui::Storage;
use aheui::TempStorage;
use aheui::decimal::int_to_decimal_digits;
use aheui::decimal::parse_int;

// A stack returns the value just put; a queue returns the oldest one.
#[test]
fn put_then_pick_orders() {
    let mut stack = TempStorage::new(false);
    stack.put(7);
    assert_eq!(stack.pick(), Some(7));
    assert_eq!(stack.pick(), None);

    let mut queue = TempStorage::new(true);
    queue.put(1);
    queue.put(2);
    assert_eq!(queue.pick(), Some(1));
    assert_eq!(queue.pick(), Some(2));
    assert_eq!(queue.pick(), None);
}

#[test]
fn swap_exchanges_the_reading_end() {
    let mut stack = TempStorage::new(false);
    stack.put(1);
    stack.put(2);
    stack.put(3);
    assert!(stack.swap());
    assert_eq!(stack.pick(), Some(2));
    assert_eq!(stack.pick(), Some(3));
    assert_eq!(stack.pick(), Some(1));

    let mut short = TempStorage::new(false);
    short.put(9);
    assert!(!short.swap());
    assert_eq!(short.peek(), Some(9));
}

// Selecting a storage then peeking equals peeking at that storage.
#[test]
fn select_then_peek_reads_the_selected_storage() {
    let mut it = Interpreter::new(Source::new(""));
    it.instruct(&Instruction::from_char('상')); // select storage 21
    it.instruct(&Instruction::from_char('반')); // put 2 there
    it.instruct(&Instruction::from_char('사')); // select storage 0
    assert_eq!(it.storage().peek(), None);
    it.instruct(&Instruction::from_char('상')); // select storage 21 again
    assert_eq!(it.storage().peek(), Some(2));
}

// A comparison pushes 1 exactly when the second popped value is at least
// the first.
#[test]
fn compare_boundaries() {
    let mut it = Interpreter::new(Source::new(""));
    it.instruct(&Instruction::from_char('반')); // 2
    it.instruct(&Instruction::from_char('발')); // 5
    it.instruct(&Instruction::from_char('자')); // compare: 2 >= 5 is false
    assert_eq!(it.storage().pick(), Some(0));
    it.instruct(&Instruction::from_char('발')); // 5
    it.instruct(&Instruction::from_char('반')); // 2
    it.instruct(&Instruction::from_char('자')); // compare: 5 >= 2
    assert_eq!(it.storage().pick(), Some(1));
    it.instruct(&Instruction::from_char('반')); // 2
    it.instruct(&Instruction::from_char('반')); // 2
    it.instruct(&Instruction::from_char('자')); // compare: 2 >= 2
    assert_eq!(it.storage().pick(), Some(1));
}

// Two turn-around cells restore direction, last move and counter.
#[test]
fn disallow_twice_returns() {
    let mut it = Interpreter::new(Source::new(""));
    it.instruct(&Instruction::from_char('아'));
    assert_eq!(it.counter(), (0, 1));
    it.instruct(&Instruction::from_char('의'));
    assert_eq!(it.counter(), (0, 0));
    it.instruct(&Instruction::from_char('의'));
    assert_eq!(it.counter(), (0, 1));
    it.instruct(&Instruction::from_char('아'));
    assert_eq!(it.counter(), (0, 2));
}

// A successful non-wall step moves by exactly the movement's vector.
#[test]
fn double_steps_move_two_cells() {
    let mut it = Interpreter::new(Source::new(""));
    it.instruct(&Instruction::from_char('야'));
    assert_eq!(it.counter(), (0, 2));
    it.instruct(&Instruction::from_char('유'));
    assert_eq!(it.counter(), (2, 2));
    it.instruct(&Instruction::from_char('여'));
    assert_eq!(it.counter(), (2, 0));
    it.instruct(&Instruction::from_char('요'));
    assert_eq!(it.counter(), (0, 0));
}

#[test]
fn read_and_print_through_the_value_queues() {
    // Read an integer, print it, read a character, print it, halt.
    let mut it = Interpreter::new(Source::new("방망밯맣희"));
    assert_eq!(it.input_request(), Some(InputRequest::IntegerInput));
    it.push_input(-42);
    assert_eq!(it.input_request(), None);
    assert!(!it.step());
    assert_eq!(it.input_request(), None);
    assert!(!it.step());
    assert_eq!(it.input_request(), Some(InputRequest::CharacterInput));
    it.push_input(65);
    assert!(!it.step());
    assert!(!it.step());
    assert!(it.step());
    let out = it.take_output();
    assert_eq!(out, vec![OutputItem::Integer(-42), OutputItem::Character(65)]);
    assert!(it.take_output().is_empty());
}

// An empty input queue fails the read like a storage underflow: the
// movement flips.
#[test]
fn read_on_empty_input_branches() {
    let mut it = Interpreter::new(Source::new(""));
    it.instruct(&Instruction::from_char('방'));
    assert_eq!(it.counter(), (0, -1));
    assert_eq!(it.storage().len(), 0);
}

// A zero divisor fails the operation, leaves both operands in place, and
// flips the movement.
#[test]
fn division_by_zero_branches() {
    let mut it = Interpreter::new(Source::new(""));
    it.instruct(&Instruction::from_char('반')); // 2
    it.instruct(&Instruction::from_char('바')); // 0 on top
    assert_eq!(it.counter(), (0, 2));
    it.instruct(&Instruction::from_char('나')); // divide: branch
    assert_eq!(it.counter(), (0, 1));
    assert_eq!(it.storage().len(), 2);
    assert_eq!(it.storage().peek(), Some(0));
    it.instruct(&Instruction::from_char('라')); // remainder: branch too
    assert_eq!(it.counter(), (0, 0));
    assert_eq!(it.storage().len(), 2);
}

// A popped value outside the Unicode scalar range cannot be printed as a
// character: the value is consumed and the movement flips.
#[test]
fn print_char_rejects_surrogates() {
    let mut it = Interpreter::new(Source::new(""));
    it.push_input(0xD800);
    it.instruct(&Instruction::from_char('방')); // read integer
    assert_eq!(it.counter(), (0, 1));
    it.instruct(&Instruction::from_char('맣')); // print character: branch
    assert_eq!(it.counter(), (0, 0));
    assert_eq!(it.storage().len(), 0);
    assert!(it.take_output().is_empty());
}

#[test]
fn decimal_rendering_matches_the_standard_one() {
    for v in [
        0i64,
        7,
        10,
        -1,
        -123,
        9_223_372_036_854_775_807,
        -9_223_372_036_854_775_808,
    ] {
        assert_eq!(int_to_decimal_digits(v), format!("{}", v).into_bytes());
    }
}

#[test]
fn decimal_parsing_accepts_exactly_signed_integers() {
    assert_eq!(parse_int("123"), Some(123));
    assert_eq!(parse_int("+42"), Some(42));
    assert_eq!(parse_int("-7"), Some(-7));
    assert_eq!(parse_int("0"), Some(0));
    assert_eq!(parse_int("9223372036854775807"), Some(i64::MAX));
    assert_eq!(parse_int("-9223372036854775808"), Some(i64::MIN));
    assert_eq!(parse_int("9223372036854775808"), None);
    assert_eq!(parse_int("-9223372036854775809"), None);
    assert_eq!(parse_int(""), None);
    assert_eq!(parse_int("-"), None);
    assert_eq!(parse_int("+"), None);
    assert_eq!(parse_int("12a"), None);
    assert_eq!(parse_int("a12"), None);
    assert_eq!(parse_int(" 12"), None);
    assert_eq!(parse_int("1 2"), None);
}

// A program that reads a number, doubles it and prints the result.
#[test]
fn double_a_number_end_to_end() {
    let source = Source::new("방반따망희");
    let mut it = Interpreter::new(source);
    it.push_input(21);
    assert!(it.execute(100));
    assert_eq!(it.take_output(), vec![OutputItem::Integer(42)]);
}

// A vertical-keep cell met moving left commits a rightward direction with a
// downward vector (the movement table says so); the run stops there instead
// of walking off the grid.
#[test]
fn vertical_keep_met_leftward_stops_the_run() {
    let mut it = Interpreter::new(Source::new("어시"));
    assert!(!it.execute(100));
    assert!(!it.is_consistent());
}

// A program with no halt cell spends its step bound.
#[test]
fn run_without_halt_spends_its_bound() {
    let mut it = Interpreter::new(Source::new("아아"));
    assert!(!it.execute(1000));
    assert!(it.is_consistent());
}

// The classic greeting program runs to its halt cell.
#[test]
fn helloworld_runs_to_halt() {
    let source = Source::new(
        "밤밣따빠밣밟따뿌\n빠맣파빨받밤뚜뭏\n돋밬탕빠맣붏두붇\n볻뫃박발뚷투뭏붖\n뫃도뫃희멓뭏뭏붘\n뫃봌토범더벌뿌뚜\n뽑뽀멓멓더벓뻐뚠\n뽀덩벐멓뻐덕더벅",
    );
    let mut it = Interpreter::new(source);
    assert!(it.execute(1_000_000));
    let mut printed = String::new();
    for item in it.take_output() {
        match item {
            OutputItem::Character(u) => {
                printed.push(char::from_u32(u).expect("a printed code point is a scalar"));
            },
            OutputItem::Integer(_) => panic!("the greeting prints characters only"),
        }
    }
    assert_eq!(printed, "Hello, world!\n");
}
