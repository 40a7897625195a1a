//! An interpreter for a small line-oriented assembly language whose programs
//! work on 256 byte cells, the first of which is the instruction pointer.
//!
//! A line of text becomes an [`Instruction`] ([`parse_instruction`]); the
//! lines of a source text become a [`Program`] ([`parse_program`]); a
//! [`Machine`] executes a program one instruction at a time and tells its
//! caller which input or output each step calls for.
//!
//! The library reads and writes nothing itself. A caller that runs a program
//! loops over [`Machine::step`], writes what the step hands out, and feeds
//! the machine what it reads.

pub mod decimal;
pub mod input;
pub mod instruction;
pub mod loader;
pub mod machine;
pub mod parser;
pub mod program;
pub mod render;
pub mod text;

pub use decimal::str_to_u8;
pub use input::{parse_number_line, RuntimeError};
pub use instruction::{Instruction, Opcode, Value};
pub use loader::{parse_program, LoadError};
pub use machine::{Machine, Step};
pub use parser::{parse_instruction, ParseError};
pub use program::Program;
