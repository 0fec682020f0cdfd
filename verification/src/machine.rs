//! The executor: a register file, a program counter, and the
//! fetch-decode-execute cycle that drives them.
//!
//! A cycle fetches the word at the program counter, decodes it, advances the
//! counter to the following word and then applies the instruction. A branch by
//! `offset` therefore leaves the counter at `pc - offset + 2`, where `pc` is
//! the address of the branch itself.

use vstd::prelude::*;
use crate::instruction::Instruction;
use crate::program::Program;
use crate::semantics::halt;

verus! {

/// The number of registers of a machine.
pub const REGISTER_COUNT: usize = 3;

/// How a run ends.
#[derive(Debug, Copy, Clone, PartialEq, Eq)]
pub enum Outcome {
    /// A halt ran. `output` is the value of register 0 at that moment, the
    /// one value that a run emits.
    Halted { output: u16 },
    /// The word at `pc` has an opcode that names no instruction. The run
    /// stops there and emits nothing.
    UnknownOpcode { pc: usize, word: u16 },
    /// The instruction at `pc` names a register that the machine does not
    /// have.
    RegisterIndexOutOfRange { pc: usize, instruction: Instruction },
    /// The program counter left the instruction memory. With no `cause`, the
    /// fetch at `pc` found no word there. With one, it is the instruction at
    /// `pc`, a branch whose offset would move the counter below zero or
    /// beyond what a `usize` holds.
    ProgramCounterOutOfRange { pc: usize, cause: Option<Instruction> },
}

/// The state of a run between two cycles.
#[derive(Debug, Copy, Clone, PartialEq, Eq)]
pub struct Machine {
    pub registers: [u16; 3],
    pub pc: usize,
}

/// A machine as the contracts see it: the register values in order, and the
/// address of the next word to fetch.
pub struct MachineView {
    pub registers: Seq<u16>,
    pub pc: usize,
}

impl View for Machine {
    type V = MachineView;

    open spec fn view(&self) -> MachineView {
        MachineView { registers: self.registers@, pc: self.pc }
    }
}

/// The state in which every run starts: all registers zero, the program
/// counter at the first word.
pub open spec fn initial_state() -> MachineView {
    MachineView { registers: seq![0u16, 0u16, 0u16], pc: 0 }
}

/// How the cycle that starts in `state` ends the run, or `None` where the run
/// goes on after it.
pub open spec fn cycle_outcome(memory: Seq<u16>, state: MachineView) -> Option<Outcome> {
    if state.pc >= memory.len() {
        Some(Outcome::ProgramCounterOutOfRange { pc: state.pc, cause: None })
    } else {
        let word = memory[state.pc as int];
        match Instruction::decode_spec(word) {
            None => Some(Outcome::UnknownOpcode { pc: state.pc, word }),
            Some(instruction) => {
                if !instruction.registers_below(state.registers.len() as int) {
                    Some(Outcome::RegisterIndexOutOfRange { pc: state.pc, instruction })
                } else if !(0 <= instruction.pc_after(state.pc + 1) <= usize::MAX) {
                    Some(
                        Outcome::ProgramCounterOutOfRange {
                            pc: state.pc,
                            cause: Some(instruction),
                        },
                    )
                } else if instruction is Halt {
                    Some(Outcome::Halted { output: state.registers[0] })
                } else {
                    None
                }
            },
        }
    }
}

/// The state after the cycle that starts in `state`. A cycle that ends the
/// run leaves the state as it was.
pub open spec fn cycle_state(memory: Seq<u16>, state: MachineView) -> MachineView {
    if cycle_outcome(memory, state) is Some {
        state
    } else {
        let instruction = Instruction::decode_spec(memory[state.pc as int])->Some_0;
        MachineView {
            registers: instruction.registers_after(state.registers),
            pc: instruction.pc_after(state.pc + 1) as usize,
        }
    }
}

/// How a run of at most `cycles` cycles from `state` ends, or `None` where it
/// has not ended by then.
pub open spec fn run_outcome(memory: Seq<u16>, state: MachineView, cycles: nat) -> Option<Outcome>
    decreases cycles,
{
    if cycles == 0 {
        None
    } else {
        match cycle_outcome(memory, state) {
            Some(outcome) => Some(outcome),
            None => run_outcome(memory, cycle_state(memory, state), (cycles - 1) as nat),
        }
    }
}

/// The state that a run of at most `cycles` cycles from `state` reaches: the
/// state in which it ended, or the state after the last cycle.
pub open spec fn run_state(memory: Seq<u16>, state: MachineView, cycles: nat) -> MachineView
    decreases cycles,
{
    if cycles == 0 {
        state
    } else {
        run_state(memory, cycle_state(memory, state), (cycles - 1) as nat)
    }
}

/// A state in which the run ends stays as it is, and the run from it ends the
/// same way whatever the budget.
pub proof fn lemma_ended_run_stays(memory: Seq<u16>, state: MachineView, cycles: nat)
    requires
        cycle_outcome(memory, state) is Some,
    ensures
        run_state(memory, state, cycles) == state,
        cycles > 0 ==> run_outcome(memory, state, cycles) == cycle_outcome(memory, state),
    decreases cycles,
{
    if cycles > 0 {
        lemma_ended_run_stays(memory, state, (cycles - 1) as nat);
    }
}

/// Budgets add up. A run of `first + second` cycles reaches the state that a
/// run of `first` cycles and then one of `second` cycles from where it
/// stopped reaches. It ends as the first of the two ends, or, where that one
/// has not ended, as the second ends.
pub proof fn lemma_run_in_two_parts(
    memory: Seq<u16>,
    state: MachineView,
    first: nat,
    second: nat,
)
    ensures
        run_state(memory, state, first + second) == run_state(
            memory,
            run_state(memory, state, first),
            second,
        ),
        run_outcome(memory, state, first) is Some ==> run_outcome(memory, state, first + second)
            == run_outcome(memory, state, first),
        run_outcome(memory, state, first) is None ==> run_outcome(memory, state, first + second)
            == run_outcome(memory, run_state(memory, state, first), second),
    decreases first,
{
    if first > 0 {
        if cycle_outcome(memory, state) is Some {
            lemma_ended_run_stays(memory, state, first);
            lemma_ended_run_stays(memory, state, second);
            lemma_ended_run_stays(memory, state, first + second);
        } else {
            lemma_run_in_two_parts(
                memory,
                cycle_state(memory, state),
                (first - 1) as nat,
                second,
            );
        }
    }
}

/// A run that has ended within a budget ends the same way, in the same
/// state, within any larger budget.
pub proof fn lemma_outcome_is_stable(memory: Seq<u16>, state: MachineView, cycles: nat, more: nat)
    requires
        run_outcome(memory, state, cycles) is Some,
    ensures
        run_outcome(memory, state, cycles + more) == run_outcome(memory, state, cycles),
        run_state(memory, state, cycles + more) == run_state(memory, state, cycles),
{
    lemma_run_in_two_parts(memory, state, cycles, more);
    lemma_run_ends_in_ended_state(memory, state, cycles);
    lemma_ended_run_stays(memory, run_state(memory, state, cycles), more);
}

/// Where a run has ended, the state that it reached is one in which the run
/// ends that way.
pub proof fn lemma_run_ends_in_ended_state(memory: Seq<u16>, state: MachineView, cycles: nat)
    requires
        run_outcome(memory, state, cycles) is Some,
    ensures
        cycle_outcome(memory, run_state(memory, state, cycles)) == run_outcome(
            memory,
            state,
            cycles,
        ),
    decreases cycles,
{
    if cycles > 0 {
        if cycle_outcome(memory, state) is Some {
            lemma_ended_run_stays(memory, state, cycles);
        } else {
            lemma_run_ends_in_ended_state(memory, cycle_state(memory, state), (cycles - 1) as nat);
        }
    }
}

/// The address that a branch by `offset` at address `pc` jumps to.
pub open spec fn branch_target(pc: int, offset: int) -> int {
    pc - offset + 2
}

/// The cycle of a branch by `offset` at address `pc` leaves the program
/// counter at `pc - offset + 2` and the registers as they were. With an
/// offset of 2 or more that is a jump back by `offset - 2` words; with an
/// offset of 0 or 1 the counter moves forward. Where the target is below
/// zero, or beyond what a `usize` holds, the run ends there instead.
pub proof fn lemma_branch_cycle(memory: Seq<u16>, state: MachineView, offset: usize)
    requires
        state.pc < memory.len(),
        Instruction::decode_spec(memory[state.pc as int]) == Some(
            Instruction::Branch { offset },
        ),
    ensures
        0 <= branch_target(state.pc as int, offset as int) <= usize::MAX ==> cycle_outcome(
            memory,
            state,
        ) is None,
        0 <= branch_target(state.pc as int, offset as int) <= usize::MAX ==> cycle_state(
            memory,
            state,
        ).pc == branch_target(state.pc as int, offset as int),
        cycle_state(memory, state).registers == state.registers,
        !(0 <= branch_target(state.pc as int, offset as int) <= usize::MAX) ==> cycle_outcome(
            memory,
            state,
        ) == Some(
            Outcome::ProgramCounterOutOfRange {
                pc: state.pc,
                cause: Some(Instruction::Branch { offset }),
            },
        ),
        offset >= 2 ==> branch_target(state.pc as int, offset as int) == state.pc - (offset - 2),
        offset >= 2 ==> branch_target(state.pc as int, offset as int) <= state.pc,
        offset < 2 ==> branch_target(state.pc as int, offset as int) > state.pc,
{
}

/// The cycle of an instruction other than a halt or a branch, whose
/// registers the machine has, leaves the registers as the instruction's
/// semantics say and the program counter at the following word.
pub proof fn lemma_plain_cycle(memory: Seq<u16>, state: MachineView, instruction: Instruction)
    requires
        state.pc < memory.len() <= usize::MAX,
        Instruction::decode_spec(memory[state.pc as int]) == Some(instruction),
        !(instruction is Halt),
        !(instruction is Branch),
        instruction.registers_below(state.registers.len() as int),
    ensures
        cycle_outcome(memory, state) is None,
        cycle_state(memory, state).pc == state.pc + 1,
        cycle_state(memory, state).registers == instruction.registers_after(state.registers),
{
}

impl Machine {
    /// A machine in the initial state.
    pub fn new() -> (machine: Machine)
        ensures
            machine@ == initial_state(),
    {
        let machine = Machine { registers: [0u16;3], pc: 0 };
        assert(machine@.registers =~= initial_state().registers);
        machine
    }

    /// Runs one cycle. Returns how the run ended, or `None` where it goes on.
    pub fn step(&mut self, program: &Program) -> (outcome: Option<Outcome>)
        ensures
            outcome == cycle_outcome(program@, old(self)@),
            final(self)@ == cycle_state(program@, old(self)@),
    {
        let pc: usize = self.pc;
        if pc >= program.len() {
            return Some(Outcome::ProgramCounterOutOfRange { pc, cause: None });
        }
        let word: u16 = program.fetch(pc);
        match Instruction::decode(word) {
            None => Some(Outcome::UnknownOpcode { pc, word }),
            Some(instruction) => {
                if !instruction.has_registers_below(REGISTER_COUNT) {
                    return Some(Outcome::RegisterIndexOutOfRange { pc, instruction });
                }
                let mut next: usize = pc + 1;
                if !instruction.keeps_pc_in_range(next) {
                    return Some(
                        Outcome::ProgramCounterOutOfRange { pc, cause: Some(instruction) },
                    );
                }
                if instruction.execute(&mut self.registers, &mut next) {
                    self.pc = next;
                    None
                } else {
                    Some(Outcome::Halted { output: halt(&self.registers) })
                }
            },
        }
    }

    /// Runs until the run ends, for at most `max_cycles` cycles. Returns how
    /// the run ended, or `None` where it has not ended by then: the machine
    /// then holds the state from which a further call goes on.
    pub fn run(&mut self, program: &Program, max_cycles: u64) -> (outcome: Option<Outcome>)
        ensures
            outcome == run_outcome(program@, old(self)@, max_cycles as nat),
            final(self)@ == run_state(program@, old(self)@, max_cycles as nat),
    {
        let mut remaining: u64 = max_cycles;
        while remaining > 0
            invariant
                run_outcome(program@, self@, remaining as nat) == run_outcome(
                    program@,
                    old(self)@,
                    max_cycles as nat,
                ),
                run_state(program@, self@, remaining as nat) == run_state(
                    program@,
                    old(self)@,
                    max_cycles as nat,
                ),
            decreases remaining,
        {
            let ghost before = self@;
            match self.step(program) {
                Some(outcome) => {
                    proof {
                        lemma_ended_run_stays(program@, before, remaining as nat);
                    }
                    return Some(outcome);
                },
                None => {},
            }
            remaining = remaining - 1;
        }
        None
    }
}

/// Runs `program` from the initial state for at most `max_cycles` cycles.
/// Returns how the run ended, or `None` where it has not ended by then.
pub fn cpu(program: Program, max_cycles: u64) -> (outcome: Option<Outcome>)
    ensures
        outcome == run_outcome(program@, initial_state(), max_cycles as nat),
{
    let mut machine = Machine::new();
    machine.run(&program, max_cycles)
}

} // verus!
