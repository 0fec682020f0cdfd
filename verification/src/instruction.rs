//! The instruction set and its 16-bit encoding.
//!
//! A word is laid out, from the most significant bit down, as a 4-bit opcode
//! followed by three 4-bit register fields. The low 8 bits double as the
//! immediate of `Load`, the low 12 bits as the offset of `Branch`.

use vstd::prelude::*;

verus! {

/// The number of opcodes that name an instruction; opcodes from here up to 15
/// decode to nothing.
pub const OPCODE_COUNT: u16 = 5;

/// Bits 15-12 of `word`: the opcode.
pub open spec fn opcode_field(word: u16) -> int {
    word as int / 0x1000
}

/// Bits 11-8 of `word`: the first register field.
pub open spec fn reg1_field(word: u16) -> int {
    (word as int / 0x100) % 0x10
}

/// Bits 7-4 of `word`: the second register field.
pub open spec fn reg2_field(word: u16) -> int {
    (word as int / 0x10) % 0x10
}

/// Bits 3-0 of `word`: the third register field.
pub open spec fn reg3_field(word: u16) -> int {
    word as int % 0x10
}

/// Bits 7-0 of `word`: the immediate of a load.
pub open spec fn value_field(word: u16) -> int {
    word as int % 0x100
}

/// Bits 11-0 of `word`: the offset of a branch.
pub open spec fn offset_field(word: u16) -> int {
    word as int % 0x1000
}

/// A decoded instruction. Each variant carries only the operand fields that
/// its semantics read. Register indices are the raw 4-bit fields: they may
/// name a register that the machine does not have.
#[derive(Debug, Copy, Clone, PartialEq, Eq, Structural)]
pub enum Instruction {
    /// Emit register 0 and stop.
    Halt,
    /// Set register `reg` to the 8-bit immediate `value`, zero-extended.
    Load { reg: usize, value: u16 },
    /// Rotate three registers through the slot `reg3`.
    Swap { reg1: usize, reg2: usize, reg3: usize },
    /// Set register `reg3` to the wrapping sum of registers `reg1` and `reg2`.
    Add { reg1: usize, reg2: usize, reg3: usize },
    /// Move the program counter back by `offset - 2` words.
    Branch { offset: usize },
}

impl Instruction {
    /// What a word decodes to: the variant that the opcode selects, with the
    /// fields of the word that the variant carries, or `None` for an opcode
    /// that names no instruction.
    pub open spec fn decode_spec(word: u16) -> Option<Instruction> {
        let opcode = opcode_field(word);
        if opcode == 0 {
            Some(Instruction::Halt)
        } else if opcode == 1 {
            Some(Instruction::Load { reg: reg1_field(word) as usize, value: value_field(word) as u16 })
        } else if opcode == 2 {
            Some(
                Instruction::Swap {
                    reg1: reg1_field(word) as usize,
                    reg2: reg2_field(word) as usize,
                    reg3: reg3_field(word) as usize,
                },
            )
        } else if opcode == 3 {
            Some(
                Instruction::Add {
                    reg1: reg1_field(word) as usize,
                    reg2: reg2_field(word) as usize,
                    reg3: reg3_field(word) as usize,
                },
            )
        } else if opcode == 4 {
            Some(Instruction::Branch { offset: offset_field(word) as usize })
        } else {
            None
        }
    }

    /// The opcode that encodes this instruction.
    pub open spec fn opcode_spec(self) -> int {
        match self {
            Instruction::Halt => 0,
            Instruction::Load { .. } => 1,
            Instruction::Swap { .. } => 2,
            Instruction::Add { .. } => 3,
            Instruction::Branch { .. } => 4,
        }
    }

    /// Decodes one instruction word. Decoding reads nothing but the word.
    pub fn decode(encoded_instruction: u16) -> (decoded: Option<Instruction>)
        ensures
            decoded == Instruction::decode_spec(encoded_instruction),
            decoded is Some <==> opcode_field(encoded_instruction) < OPCODE_COUNT,
    {
        let operator: u16 = encoded_instruction >> 12;
        let reg1: usize = ((encoded_instruction >> 8) & 0xF) as usize;
        let reg2: usize = ((encoded_instruction >> 4) & 0xF) as usize;
        let reg3: usize = (encoded_instruction & 0xF) as usize;
        let offset: usize = (encoded_instruction & 0xFFF) as usize;
        let value: u16 = encoded_instruction & 0xFF;
        proof {
            lemma_fields_as_bits(encoded_instruction);
        }
        match operator {
            0 => Some(Instruction::Halt),
            1 => Some(Instruction::Load { reg: reg1, value: value }),
            2 => Some(Instruction::Swap { reg1: reg1, reg2: reg2, reg3: reg3 }),
            3 => Some(Instruction::Add { reg1: reg1, reg2: reg2, reg3: reg3 }),
            4 => Some(Instruction::Branch { offset: offset }),
            _ => None,
        }
    }
}

/// An opcode from 5 to 15 names no instruction: such a word decodes to
/// nothing, whatever its other twelve bits hold.
pub proof fn lemma_undefined_opcode_decodes_to_none(word: u16)
    requires
        opcode_field(word) >= OPCODE_COUNT,
    ensures
        opcode_field(word) <= 15,
        Instruction::decode_spec(word) is None,
{
}

/// Decoding is a total function of the word. A word decodes to an
/// instruction exactly when its opcode is below 5, and then to the
/// instruction of that opcode. The fields that the instruction carries are
/// bounded by their widths: a register index is below 16, an immediate below
/// 256, an offset below 4096. Equal words decode to equal results.
pub proof fn lemma_decode_is_total(word: u16, again: u16)
    ensures
        Instruction::decode_spec(word) is Some <==> opcode_field(word) < OPCODE_COUNT,
        Instruction::decode_spec(word) matches Some(instruction) ==> instruction.opcode_spec()
            == opcode_field(word),
        0 <= opcode_field(word) < 16,
        0 <= reg1_field(word) < 16,
        0 <= reg2_field(word) < 16,
        0 <= reg3_field(word) < 16,
        0 <= value_field(word) < 256,
        0 <= offset_field(word) < 4096,
        word == again ==> Instruction::decode_spec(word) == Instruction::decode_spec(again),
{
}

/// Shifting and masking a word reads the same fields as dividing it and
/// taking remainders.
pub proof fn lemma_fields_as_bits(word: u16)
    ensures
        (word >> 12) == opcode_field(word),
        ((word >> 8) & 0xF) == reg1_field(word),
        ((word >> 4) & 0xF) == reg2_field(word),
        (word & 0xF) == reg3_field(word),
        (word & 0xFF) == value_field(word),
        (word & 0xFFF) == offset_field(word),
{
    assert((word >> 12) == word / 0x1000) by (bit_vector);
    assert(((word >> 8) & 0xF) == (word / 0x100) % 0x10) by (bit_vector);
    assert(((word >> 4) & 0xF) == (word / 0x10) % 0x10) by (bit_vector);
    assert((word & 0xF) == word % 0x10) by (bit_vector);
    assert((word & 0xFF) == word % 0x100) by (bit_vector);
    assert((word & 0xFFF) == word % 0x1000) by (bit_vector);
}

} // verus!
