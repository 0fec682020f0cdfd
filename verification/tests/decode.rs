use tiny_cpu::Instruction;

#[test]
fn decode_rejects_every_word_with_an_undefined_opcode() {
    for word in 0x5000u16..=0xFFFF {
        assert_eq!(Instruction::decode(word), None, "word {:#06x}", word);
    }
}

#[test]
fn decode_accepts_every_word_with_a_defined_opcode() {
    for word in 0x0000u16..0x5000 {
        assert!(Instruction::decode(word).is_some(), "word {:#06x}", word);
    }
}

#[test]
fn decode_gives_the_same_result_twice() {
    for word in 0x0000u16..=0xFFFF {
        assert_eq!(Instruction::decode(word), Instruction::decode(word));
    }
}

#[test]
fn decode_halt_ignores_the_operand_bits() {
    assert_eq!(Instruction::decode(0x0000), Some(Instruction::Halt));
    assert_eq!(Instruction::decode(0x0FFF), Some(Instruction::Halt));
    assert_eq!(Instruction::decode(0x0123), Some(Instruction::Halt));
}

#[test]
fn decode_load_reads_register_and_immediate() {
    assert_eq!(Instruction::decode(0x1110), Some(Instruction::Load { reg: 1, value: 16 }));
    assert_eq!(Instruction::decode(0x1000), Some(Instruction::Load { reg: 0, value: 0 }));
    assert_eq!(Instruction::decode(0x12FF), Some(Instruction::Load { reg: 2, value: 255 }));
    assert_eq!(Instruction::decode(0x1FFF), Some(Instruction::Load { reg: 15, value: 255 }));
}

#[test]
fn decode_swap_reads_three_register_fields() {
    assert_eq!(
        Instruction::decode(0x2100),
        Some(Instruction::Swap { reg1: 1, reg2: 0, reg3: 0 })
    );
    assert_eq!(
        Instruction::decode(0x2ABC),
        Some(Instruction::Swap { reg1: 10, reg2: 11, reg3: 12 })
    );
}

#[test]
fn decode_add_reads_three_register_fields() {
    assert_eq!(
        Instruction::decode(0x3010),
        Some(Instruction::Add { reg1: 0, reg2: 1, reg3: 0 })
    );
    assert_eq!(
        Instruction::decode(0x3FED),
        Some(Instruction::Add { reg1: 15, reg2: 14, reg3: 13 })
    );
}

#[test]
fn decode_branch_reads_the_twelve_bit_offset() {
    assert_eq!(Instruction::decode(0x4000), Some(Instruction::Branch { offset: 0 }));
    assert_eq!(Instruction::decode(0x4003), Some(Instruction::Branch { offset: 3 }));
    assert_eq!(Instruction::decode(0x4FFF), Some(Instruction::Branch { offset: 4095 }));
}

#[test]
fn decode_does_not_check_register_indices() {
    assert_eq!(Instruction::decode(0x1300), Some(Instruction::Load { reg: 3, value: 0 }));
    assert_eq!(
        Instruction::decode(0x3333),
        Some(Instruction::Add { reg1: 3, reg2: 3, reg3: 3 })
    );
}

#[test]
fn decode_first_and_last_undefined_opcode() {
    assert_eq!(Instruction::decode(0x5000), None);
    assert_eq!(Instruction::decode(0x4FFF).is_some(), true);
    assert_eq!(Instruction::decode(0xF000), None);
    assert_eq!(Instruction::decode(0xFFFF), None);
}
