//! A verified simulator for single-tape Turing machines.
//!
//! A machine is described by a transition table: a finite set of
//! instructions, each mapping a (control state, symbol under the head)
//! pair to a next state (or a halt), a symbol to write, and a head
//! movement. The table is parsed from a line-oriented text format and
//! validated once; the execution engine then steps the machine over an
//! unbounded bidirectional tape until it halts or reaches a pair for
//! which the table has no instruction.

pub mod direction;
pub mod instruction;
pub mod laws;
pub mod machine;
pub mod parse;
pub mod table;

pub use direction::Direction;
pub use instruction::Instruction;
pub use machine::{MachineError, TuringMachine};
pub use table::{ParseFault, TableError, TransitionTable};
