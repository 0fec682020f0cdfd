use tiny_cpu::{cpu, Instruction, Machine, Outcome, Program};

#[test]
fn canonical_program_emits_thirty_two() {
    let program = Program { instructions: &[0x1110, 0x2100, 0x3010, 0x0000] };
    assert_eq!(cpu(program, 100), Some(Outcome::Halted { output: 32 }));
}

#[test]
fn canonical_program_step_by_step() {
    let program = Program { instructions: &[0x1110, 0x2100, 0x3010, 0x0000] };
    let mut machine = Machine::new();
    assert_eq!(machine, Machine { registers: [0, 0, 0], pc: 0 });
    assert_eq!(machine.step(&program), None);
    assert_eq!(machine, Machine { registers: [0, 16, 0], pc: 1 });
    assert_eq!(machine.step(&program), None);
    assert_eq!(machine, Machine { registers: [16, 16, 0], pc: 2 });
    assert_eq!(machine.step(&program), None);
    assert_eq!(machine, Machine { registers: [32, 16, 0], pc: 3 });
    assert_eq!(machine.step(&program), Some(Outcome::Halted { output: 32 }));
    assert_eq!(machine, Machine { registers: [32, 16, 0], pc: 3 });
}

#[test]
fn invalid_opcode_stops_without_output() {
    let program = Program { instructions: &[0x5000] };
    assert_eq!(cpu(program, 100), Some(Outcome::UnknownOpcode { pc: 0, word: 0x5000 }));
}

#[test]
fn halt_alone_emits_zero() {
    let program = Program { instructions: &[0x0000] };
    assert_eq!(cpu(program, 100), Some(Outcome::Halted { output: 0 }));
    assert_eq!(cpu(program, 1), Some(Outcome::Halted { output: 0 }));
}

#[test]
fn unknown_opcode_after_some_work_reports_its_address() {
    let program = Program { instructions: &[0x1005, 0x1106, 0xF123, 0x0000] };
    assert_eq!(cpu(program, 100), Some(Outcome::UnknownOpcode { pc: 2, word: 0xF123 }));
}

#[test]
fn register_index_out_of_range_is_reported() {
    let program = Program { instructions: &[0x1005, 0x1300, 0x0000] };
    assert_eq!(
        cpu(program, 100),
        Some(Outcome::RegisterIndexOutOfRange {
            pc: 1,
            instruction: Instruction::Load { reg: 3, value: 0 },
        })
    );
    let program = Program { instructions: &[0x2013] };
    assert_eq!(
        cpu(program, 100),
        Some(Outcome::RegisterIndexOutOfRange {
            pc: 0,
            instruction: Instruction::Swap { reg1: 0, reg2: 1, reg3: 3 },
        })
    );
    let program = Program { instructions: &[0x3F00] };
    assert_eq!(
        cpu(program, 100),
        Some(Outcome::RegisterIndexOutOfRange {
            pc: 0,
            instruction: Instruction::Add { reg1: 15, reg2: 0, reg3: 0 },
        })
    );
}

#[test]
fn register_fault_leaves_the_machine_as_it_was() {
    let program = Program { instructions: &[0x1005, 0x3013] };
    let mut machine = Machine::new();
    assert_eq!(machine.step(&program), None);
    let before = machine;
    assert!(matches!(machine.step(&program), Some(Outcome::RegisterIndexOutOfRange { .. })));
    assert_eq!(machine, before);
}

#[test]
fn running_off_the_end_is_reported() {
    let program = Program { instructions: &[0x1005] };
    assert_eq!(cpu(program, 100), Some(Outcome::ProgramCounterOutOfRange { pc: 1, cause: None }));
}

#[test]
fn empty_program_has_nothing_to_fetch() {
    let program = Program { instructions: &[] };
    assert_eq!(cpu(program, 100), Some(Outcome::ProgramCounterOutOfRange { pc: 0, cause: None }));
}

#[test]
fn branch_back_lands_at_pc_less_offset_plus_two() {
    // At address 3, an offset of 4 leads to address 1.
    let program = Program { instructions: &[0x1001, 0x1002, 0x1003, 0x4004, 0x0000] };
    let mut machine = Machine { registers: [0, 0, 0], pc: 3 };
    assert_eq!(machine.step(&program), None);
    assert_eq!(machine, Machine { registers: [0, 0, 0], pc: 1 });

    // An offset of 5 leads to address 0.
    let program = Program { instructions: &[0x1001, 0x1002, 0x1003, 0x4005, 0x0000] };
    let mut machine = Machine { registers: [9, 8, 7], pc: 3 };
    assert_eq!(machine.step(&program), None);
    assert_eq!(machine, Machine { registers: [9, 8, 7], pc: 0 });
}

#[test]
fn branch_by_two_stays_on_itself() {
    let program = Program { instructions: &[0x4002, 0x0000] };
    let mut machine = Machine::new();
    assert_eq!(machine.step(&program), None);
    assert_eq!(machine.pc, 0);
    assert_eq!(cpu(program, 10_000), None);
}

#[test]
fn branch_by_zero_or_one_moves_forward() {
    let program = Program { instructions: &[0x4001, 0x4000, 0x1007, 0x0000] };
    let mut machine = Machine::new();
    assert_eq!(machine.step(&program), None);
    assert_eq!(machine.pc, 1);
    assert_eq!(machine.step(&program), None);
    assert_eq!(machine.pc, 3);
    assert_eq!(machine.step(&program), Some(Outcome::Halted { output: 0 }));
}

#[test]
fn branch_below_zero_is_reported() {
    let program = Program { instructions: &[0x4003] };
    assert_eq!(
        cpu(program, 100),
        Some(Outcome::ProgramCounterOutOfRange {
            pc: 0,
            cause: Some(Instruction::Branch { offset: 3 }),
        })
    );
    let program = Program { instructions: &[0x1001, 0x1002, 0x4FFF] };
    assert_eq!(
        cpu(program, 100),
        Some(Outcome::ProgramCounterOutOfRange {
            pc: 2,
            cause: Some(Instruction::Branch { offset: 4095 }),
        })
    );
}

#[test]
fn branch_beyond_the_end_is_reported_at_the_fetch() {
    let program = Program { instructions: &[0x4000, 0x0000] };
    assert_eq!(cpu(program, 100), Some(Outcome::ProgramCounterOutOfRange { pc: 2, cause: None }));
}

#[test]
fn no_budget_runs_nothing() {
    let program = Program { instructions: &[0x0000] };
    assert_eq!(cpu(program, 0), None);
    let mut machine = Machine { registers: [1, 2, 3], pc: 0 };
    assert_eq!(machine.run(&program, 0), None);
    assert_eq!(machine, Machine { registers: [1, 2, 3], pc: 0 });
}

#[test]
fn budget_too_small_leaves_the_run_unfinished() {
    let program = Program { instructions: &[0x1110, 0x2100, 0x3010, 0x0000] };
    assert_eq!(cpu(program, 3), None);
    assert_eq!(cpu(program, 4), Some(Outcome::Halted { output: 32 }));
    assert_eq!(cpu(program, u64::MAX), Some(Outcome::Halted { output: 32 }));
}

#[test]
fn a_run_in_two_parts_equals_the_whole_run() {
    // r1 = 1; then r0 = r0 + r1 for ever.
    let program = Program { instructions: &[0x1101, 0x3010, 0x4003] };
    let mut whole = Machine::new();
    assert_eq!(whole.run(&program, 21), None);
    let mut parts = Machine::new();
    assert_eq!(parts.run(&program, 10), None);
    assert_eq!(parts.run(&program, 11), None);
    assert_eq!(whole, parts);
    assert_eq!(whole, Machine { registers: [10, 1, 0], pc: 1 });
}

#[test]
fn a_run_that_ended_can_be_asked_again() {
    let program = Program { instructions: &[0x1110, 0x2100, 0x3010, 0x0000] };
    let mut machine = Machine::new();
    assert_eq!(machine.run(&program, 2), None);
    assert_eq!(machine.run(&program, 2), Some(Outcome::Halted { output: 32 }));
    let ended = machine;
    assert_eq!(machine.run(&program, 5), Some(Outcome::Halted { output: 32 }));
    assert_eq!(machine, ended);
}

#[test]
fn counting_loop_wraps_the_register_around() {
    // r1 = 1; then r0 = r0 + r1 for ever: 65536 additions bring r0 back to 0.
    let program = Program { instructions: &[0x1101, 0x3010, 0x4003] };
    let mut machine = Machine::new();
    assert_eq!(machine.run(&program, 1 + 2 * 65535), None);
    assert_eq!(machine.registers, [65535, 1, 0]);
    assert_eq!(machine.run(&program, 2), None);
    assert_eq!(machine.registers, [0, 1, 0]);
}

#[test]
fn program_fetch_reads_the_word_at_the_address() {
    let program = Program { instructions: &[0x1110, 0x2100, 0x3010, 0x0000] };
    assert_eq!(program.len(), 4);
    assert_eq!(program.fetch(0), 0x1110);
    assert_eq!(program.fetch(2), 0x3010);
    assert_eq!(program.fetch(3), 0x0000);
}

#[test]
fn instruction_memory_is_shared_between_runs() {
    let words = [0x1110u16, 0x2100, 0x3010, 0x0000];
    let first = cpu(Program { instructions: &words }, 100);
    let second = cpu(Program { instructions: &words }, 100);
    assert_eq!(first, second);
    assert_eq!(words, [0x1110, 0x2100, 0x3010, 0x0000]);
}
