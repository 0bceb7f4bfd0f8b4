//! An interpreter for Aheui, a two-dimensional esoteric programming language
//! whose source text is a grid of Korean Hangul syllables. Each syllable's
//! three components select an operation, a movement rule and an operand; the
//! program counter walks the grid, reading from and writing to a bank of 28
//! storages (26 stacks and 2 queues).

pub mod decimal;
pub mod instruction;
pub mod interpreter;
pub mod laws;
pub mod source;
pub mod storage;
pub mod syllable;

pub use syllable::Syllable;
pub use source::Source;
pub use instruction::Instruction;
pub use instruction::InstructionData;
pub use instruction::InstructionMovement;
pub use instruction::InstructionOperation;
pub use instruction::InterpreterDirection;
pub use instruction::final_draw_counts;
pub use storage::Storage;
pub use storage::TempStorage;
pub use interpreter::Interpreter;
pub use interpreter::OutputItem;
pub use interpreter::InputRequest;
pub use interpreter::operation_digeut;
pub use interpreter::operation_ssang_digeut;
pub use interpreter::operation_tieut;
pub use interpreter::operation_nieun;
pub use interpreter::operation_rieul;
