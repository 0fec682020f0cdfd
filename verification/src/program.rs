//! Instruction memory: a fixed sequence of encoded words, read and never
//! written.

use vstd::prelude::*;

verus! {

/// A program: the instruction memory that a machine fetches from.
#[derive(Debug, Copy, Clone)]
pub struct Program<'a> {
    pub instructions: &'a [u16],
}

impl<'a> View for Program<'a> {
    type V = Seq<u16>;

    /// The words of the program, in order of their addresses.
    open spec fn view(&self) -> Seq<u16> {
        self.instructions@
    }
}

impl<'a> Program<'a> {
    /// The number of words in the program.
    pub fn len(&self) -> (len: usize)
        ensures
            len == self@.len(),
    {
        self.instructions.len()
    }

    /// The word at address `pc`.
    pub fn fetch(&self, pc: usize) -> (word: u16)
        requires
            pc < self@.len(),
        ensures
            word == self@[pc as int],
    {
        self.instructions[pc]
    }
}

} // verus!
