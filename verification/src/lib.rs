//! An interpreter for the eight-symbol tape language: a lexer that resolves
//! loop jump targets ahead of time, and a machine that executes the program
//! on a tape of 30000 wrapping byte cells.

pub mod error;
pub mod execution;
pub mod instruction;
pub mod interpreter;
pub mod lexer;
pub mod loops;
pub mod machine;
pub mod nesting;

pub use error::{RuntimeError, StructuralError};
pub use instruction::Instruction;
pub use interpreter::Brainfuck;
pub use lexer::lex;
pub use nesting::build_matched_loops;
