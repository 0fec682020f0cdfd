//! A minimal virtual CPU: a decoder for 16-bit instruction words, the
//! semantics of its five instructions over a three-slot register file, and a
//! fetch-decode-execute loop with a cycle budget.

pub mod instruction;
pub mod machine;
pub mod program;
pub mod semantics;

pub use instruction::Instruction;
pub use machine::{cpu, Machine, Outcome};
pub use program::Program;
pub use semantics::{add, branch, halt, load, swap};
