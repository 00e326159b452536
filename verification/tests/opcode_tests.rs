use chip_8_emu::cpu::opcode::Opcode;

#[test]
fn test_opcode_clear() {
    let opcode = Opcode::from(0x00E0);

    assert_eq!(opcode, Opcode::Clear);
}

#[test]
fn test_opcode_add_value_to_register() {
    let opcode = Opcode::from(0x7050);

    assert_eq!(opcode, Opcode::AddValueToRegister(0, 0x50));
}

#[test]
fn test_opcode_jump() {
    assert_eq!(Opcode::from(0x1ABC), Opcode::Jump(0xABC));
}

#[test]
fn test_opcode_set_value_to_register() {
    assert_eq!(Opcode::from(0x6A42), Opcode::SetValueToRegister(0xA, 0x42));
}

#[test]
fn test_opcode_invalid_arithmetic_sub_opcode_is_unknown() {
    assert_eq!(Opcode::from(0x8AB8), Opcode::Unknown);
}

#[test]
fn test_opcode_machine_language_routine() {
    assert_eq!(Opcode::from(0x0123), Opcode::MachineLanguageRoutine(0x123));
}

#[test]
fn test_opcode_subroutine_return() {
    assert_eq!(Opcode::from(0x00EE), Opcode::SubroutineReturn);
}

#[test]
fn test_opcode_operand_extraction() {
    assert_eq!(Opcode::from(0x2345), Opcode::SubroutineCall(0x345));
    assert_eq!(Opcode::from(0x3A12), Opcode::SkipEqVal(0xA, 0x12));
    assert_eq!(Opcode::from(0x4B34), Opcode::SkipNotEqVal(0xB, 0x34));
    assert_eq!(Opcode::from(0x5CD0), Opcode::SkipEqReg(0xC, 0xD));
    assert_eq!(Opcode::from(0x9CD0), Opcode::SkipNotEqReg(0xC, 0xD));
    assert_eq!(Opcode::from(0x8120), Opcode::CopyRegister(1, 2));
    assert_eq!(Opcode::from(0x8121), Opcode::BinaryOR(1, 2));
    assert_eq!(Opcode::from(0x8122), Opcode::BinaryAND(1, 2));
    assert_eq!(Opcode::from(0x8123), Opcode::BinaryXOR(1, 2));
    assert_eq!(Opcode::from(0x8124), Opcode::AddRegister(1, 2));
    assert_eq!(Opcode::from(0x8125), Opcode::SubtractRegister(1, 2));
    assert_eq!(Opcode::from(0x8126), Opcode::ShiftRegisterRight(1, 2));
    assert_eq!(Opcode::from(0x8127), Opcode::NegativeSubtractRegister(1, 2));
    assert_eq!(Opcode::from(0x812E), Opcode::ShiftRegisterLeft(1, 2));
    assert_eq!(Opcode::from(0xA987), Opcode::SetIndexRegister(0x987));
    assert_eq!(Opcode::from(0xB654), Opcode::JumpOffset(0x654));
    assert_eq!(Opcode::from(0xC50F), Opcode::Random(5, 0x0F));
    assert_eq!(Opcode::from(0xD125), Opcode::Display(1, 2, 5));
    assert_eq!(Opcode::from(0xE19E), Opcode::SkipIfKeyPressed(1));
    assert_eq!(Opcode::from(0xE1A1), Opcode::SkipIfKeyNotPressed(1));
    assert_eq!(Opcode::from(0xF107), Opcode::CopyDelayTimerValue(1));
    assert_eq!(Opcode::from(0xF115), Opcode::SetDelayTimer(1));
    assert_eq!(Opcode::from(0xF118), Opcode::SetSoundTimer(1));
    assert_eq!(Opcode::from(0xF11E), Opcode::AddIndexRegister(1));
    assert_eq!(Opcode::from(0xF10A), Opcode::GetKey(1));
    assert_eq!(Opcode::from(0xF129), Opcode::FontCharacter(1));
    assert_eq!(Opcode::from(0xF133), Opcode::DecimalConversion(1));
    assert_eq!(Opcode::from(0xF155), Opcode::StoreMemory(1));
    assert_eq!(Opcode::from(0xF165), Opcode::LoadMemory(1));
    assert_eq!(Opcode::from(0xE1FF), Opcode::Unknown);
    assert_eq!(Opcode::from(0xF1FF), Opcode::Unknown);
}
