//! What each instruction does to the register file and the program counter.
//!
//! The register file is modelled as a `Seq<u16>` and the program counter as
//! an `int`. The functions here work on a register file of any length: an
//! index is valid when it is below that length.

use vstd::prelude::*;
use crate::instruction::Instruction;

verus! {

/// The sum of two register values, wrapped around to 16 bits.
pub open spec fn wrapped_sum(a: u16, b: u16) -> u16 {
    ((a as int + b as int) % 0x1_0000) as u16
}

/// The register file after a load: slot `reg` holds `value`.
pub open spec fn load_spec(registers: Seq<u16>, reg: int, value: u16) -> Seq<u16> {
    registers.update(reg, value)
}

/// The register file after a swap: three writes, one after the other, each
/// reading the file as the one before left it. Slot `reg3` takes the value of
/// `reg1`, then `reg1` takes the value of `reg2`, then `reg2` takes the value
/// that `reg3` holds by then.
pub open spec fn swap_spec(registers: Seq<u16>, reg1: int, reg2: int, reg3: int) -> Seq<u16> {
    let first = registers.update(reg3, registers[reg1]);
    let second = first.update(reg1, first[reg2]);
    second.update(reg2, second[reg3])
}

/// The register file after an add: slot `reg3` holds the wrapped sum of the
/// slots `reg1` and `reg2`.
pub open spec fn add_spec(registers: Seq<u16>, reg1: int, reg2: int, reg3: int) -> Seq<u16> {
    registers.update(reg3, wrapped_sum(registers[reg1], registers[reg2]))
}

/// The program counter after a branch, before the cycle's own advance: `pc`
/// moved back by `offset - 1`. For an offset of 0 that is one word forward.
pub open spec fn branch_spec(pc: int, offset: int) -> int {
    pc - (offset - 1)
}

/// A load leaves its value in the register it names, and every other
/// register as it was.
pub proof fn lemma_load_then_read(registers: Seq<u16>, reg: int, value: u16)
    requires
        0 <= reg < registers.len(),
    ensures
        load_spec(registers, reg, value).len() == registers.len(),
        load_spec(registers, reg, value)[reg] == value,
        forall|other: int|
            0 <= other < registers.len() && other != reg ==> load_spec(registers, reg, value)[other]
                == registers[other],
{
}

/// A swap over three different registers that hold `a`, `b` and `c` leaves
/// `b`, `a` and `a` in them: `reg1` gets the value of `reg2`, and both `reg2`
/// and `reg3` get the value of `reg1`. The value of `reg3` is lost, and every
/// other register stays as it was.
pub proof fn lemma_swap_rotates(registers: Seq<u16>, reg1: int, reg2: int, reg3: int)
    requires
        0 <= reg1 < registers.len(),
        0 <= reg2 < registers.len(),
        0 <= reg3 < registers.len(),
        reg1 != reg2,
        reg2 != reg3,
        reg1 != reg3,
    ensures
        swap_spec(registers, reg1, reg2, reg3).len() == registers.len(),
        swap_spec(registers, reg1, reg2, reg3)[reg1] == registers[reg2],
        swap_spec(registers, reg1, reg2, reg3)[reg2] == registers[reg1],
        swap_spec(registers, reg1, reg2, reg3)[reg3] == registers[reg1],
        forall|other: int|
            0 <= other < registers.len() && other != reg1 && other != reg2 && other != reg3
                ==> swap_spec(registers, reg1, reg2, reg3)[other] == registers[other],
{
}

/// Where `reg1` and `reg2` hold the same value, a swap leaves that value in
/// all three registers, whether or not they are different registers: `reg1`
/// and `reg2` hold what `reg2` held, and `reg3` holds what `reg1` held.
pub proof fn lemma_swap_of_equal_values(registers: Seq<u16>, reg1: int, reg2: int, reg3: int)
    requires
        0 <= reg1 < registers.len(),
        0 <= reg2 < registers.len(),
        0 <= reg3 < registers.len(),
        registers[reg1] == registers[reg2],
    ensures
        swap_spec(registers, reg1, reg2, reg3)[reg1] == registers[reg2],
        swap_spec(registers, reg1, reg2, reg3)[reg2] == registers[reg2],
        swap_spec(registers, reg1, reg2, reg3)[reg3] == registers[reg1],
{
}

/// An add leaves in `reg3` the sum of `reg1` and `reg2` where that is at
/// most 65535, and the sum less 65536 where it is more. Every other register
/// stays as it was.
pub proof fn lemma_add_wraps(registers: Seq<u16>, reg1: int, reg2: int, reg3: int)
    requires
        0 <= reg1 < registers.len(),
        0 <= reg2 < registers.len(),
        0 <= reg3 < registers.len(),
    ensures
        add_spec(registers, reg1, reg2, reg3).len() == registers.len(),
        registers[reg1] + registers[reg2] <= 0xFFFF ==> add_spec(registers, reg1, reg2, reg3)[reg3]
            == registers[reg1] + registers[reg2],
        registers[reg1] + registers[reg2] > 0xFFFF ==> add_spec(registers, reg1, reg2, reg3)[reg3]
            == registers[reg1] + registers[reg2] - 0x1_0000,
        forall|other: int|
            0 <= other < registers.len() && other != reg3 ==> add_spec(
                registers,
                reg1,
                reg2,
                reg3,
            )[other] == registers[other],
{
}

/// The value that a halt emits: register 0.
pub fn halt(register_file: &[u16]) -> (output: u16)
    requires
        register_file@.len() > 0,
    ensures
        output == register_file@[0],
{
    register_file[0]
}

/// Sets register `register` to `value`.
pub fn load(register: usize, value: u16, register_file: &mut [u16])
    requires
        register < old(register_file)@.len(),
    ensures
        final(register_file)@ == load_spec(old(register_file)@, register as int, value),
{
    register_file[register] = value;
}

/// Rotates three registers through the slot `reg3`, whose earlier value is
/// lost.
pub fn swap(reg1: usize, reg2: usize, reg3: usize, register_file: &mut [u16])
    requires
        reg1 < old(register_file)@.len(),
        reg2 < old(register_file)@.len(),
        reg3 < old(register_file)@.len(),
    ensures
        final(register_file)@ == swap_spec(
            old(register_file)@,
            reg1 as int,
            reg2 as int,
            reg3 as int,
        ),
{
    register_file[reg3] = register_file[reg1];
    register_file[reg1] = register_file[reg2];
    register_file[reg2] = register_file[reg3];
}

/// Sets register `reg3` to the sum of registers `reg1` and `reg2`. A sum
/// above 65535 wraps around.
pub fn add(reg1: usize, reg2: usize, reg3: usize, register_file: &mut [u16])
    requires
        reg1 < old(register_file)@.len(),
        reg2 < old(register_file)@.len(),
        reg3 < old(register_file)@.len(),
    ensures
        final(register_file)@ == add_spec(
            old(register_file)@,
            reg1 as int,
            reg2 as int,
            reg3 as int,
        ),
{
    register_file[reg3] = register_file[reg1].wrapping_add(register_file[reg2]);
}

/// Moves the program counter back by `offset - 1`.
pub fn branch(offset: usize, pc: &mut usize)
    requires
        0 <= branch_spec(*old(pc) as int, offset as int) <= usize::MAX,
    ensures
        *final(pc) == branch_spec(*old(pc) as int, offset as int),
{
    if offset == 0 {
        *pc = *pc + 1;
    } else {
        *pc = *pc - (offset - 1);
    }
}

impl Instruction {
    /// Whether every register that this instruction names is below `count`.
    pub open spec fn registers_below(self, count: int) -> bool {
        match self {
            Instruction::Halt => true,
            Instruction::Load { reg, .. } => reg < count,
            Instruction::Swap { reg1, reg2, reg3 } => reg1 < count && reg2 < count && reg3 < count,
            Instruction::Add { reg1, reg2, reg3 } => reg1 < count && reg2 < count && reg3 < count,
            Instruction::Branch { .. } => true,
        }
    }

    /// The register file after this instruction.
    pub open spec fn registers_after(self, registers: Seq<u16>) -> Seq<u16> {
        match self {
            Instruction::Halt => registers,
            Instruction::Load { reg, value } => load_spec(registers, reg as int, value),
            Instruction::Swap { reg1, reg2, reg3 } => swap_spec(
                registers,
                reg1 as int,
                reg2 as int,
                reg3 as int,
            ),
            Instruction::Add { reg1, reg2, reg3 } => add_spec(
                registers,
                reg1 as int,
                reg2 as int,
                reg3 as int,
            ),
            Instruction::Branch { .. } => registers,
        }
    }

    /// The program counter after this instruction, before the cycle's own
    /// advance.
    pub open spec fn pc_after(self, pc: int) -> int {
        match self {
            Instruction::Branch { offset } => branch_spec(pc, offset as int),
            _ => pc,
        }
    }

    /// Whether this instruction can run on `count` registers at `pc`: its
    /// registers exist and the program counter that it leaves fits a `usize`.
    pub open spec fn runs_on(self, count: int, pc: int) -> bool {
        self.registers_below(count) && 0 <= self.pc_after(pc) <= usize::MAX
    }

    /// Tests `registers_below`.
    pub fn has_registers_below(&self, count: usize) -> (below: bool)
        ensures
            below == self.registers_below(count as int),
    {
        match *self {
            Instruction::Halt => true,
            Instruction::Load { reg, .. } => reg < count,
            Instruction::Swap { reg1, reg2, reg3 } => reg1 < count && reg2 < count && reg3 < count,
            Instruction::Add { reg1, reg2, reg3 } => reg1 < count && reg2 < count && reg3 < count,
            Instruction::Branch { .. } => true,
        }
    }

    /// Tests whether the program counter that this instruction leaves, coming
    /// from `pc`, fits a `usize`.
    pub fn keeps_pc_in_range(&self, pc: usize) -> (fits: bool)
        ensures
            fits == (0 <= self.pc_after(pc as int) <= usize::MAX),
    {
        match *self {
            Instruction::Branch { offset } => if offset == 0 {
                pc < usize::MAX
            } else {
                offset - 1 <= pc
            },
            _ => true,
        }
    }

    /// Applies this instruction to the register file and the program counter.
    /// The result says whether the machine goes on: `false` after a halt,
    /// which changes nothing, `true` after any other instruction.
    pub fn execute(&self, registers: &mut [u16], pc: &mut usize) -> (running: bool)
        requires
            self.runs_on(old(registers)@.len() as int, *old(pc) as int),
        ensures
            running == !(*self is Halt),
            final(registers)@ == self.registers_after(old(registers)@),
            *final(pc) == self.pc_after(*old(pc) as int),
    {
        match *self {
            Instruction::Load { reg, value } => {
                load(reg, value, registers);
            },
            Instruction::Swap { reg1, reg2, reg3 } => {
                swap(reg1, reg2, reg3, registers);
            },
            Instruction::Add { reg1, reg2, reg3 } => {
                self::add(reg1, reg2, reg3, registers);
            },
            Instruction::Branch { offset } => {
                branch(offset, pc);
            },
            Instruction::Halt => {
                return false;
            },
        }
        true
    }
}

} // verus!
