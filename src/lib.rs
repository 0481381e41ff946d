//! A compiler and simulator for single-tape binary Turing machines, written in a small
//! language: a tape literal, an initial state, final states, composed library machines
//! and instructions.
pub mod compiler;
pub mod grammar;
pub mod instruction;
pub mod keyed;
pub mod laws;
pub mod library;
pub mod output;
pub mod parser;
pub mod turing;
pub mod warnings;

pub use grammar::Rule;
pub use instruction::{Movement, TuringInstruction};
pub use library::{libraries, Library};
pub use output::TuringOutput;
pub use parser::{InstructionRecord, Record, TuringParser};
pub use turing::TuringMachine;
pub use warnings::{CompilerError, CompilerWarning, ErrorPosition, ParseError};
