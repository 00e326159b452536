//! The opcode decoder: a pure mapping from a 16-bit instruction word to a
//! tagged operation. Operands are extracted from fixed nibble positions:
//! register indices from the second and third nibbles, 8-bit literals from
//! the low byte, 12-bit addresses from the low three nibbles. Any word that
//! matches no recognized operation decodes to the explicit `Unknown` tag.

use vstd::prelude::*;

verus! {

#[derive(Debug, Clone, Copy, PartialEq, Eq, Structural)]
pub enum Opcode {
    MachineLanguageRoutine(u16),
    Clear,
    SubroutineReturn,
    SubroutineCall(usize),
    Jump(usize),
    SkipEqVal(u8, u8),
    SkipNotEqVal(u8, u8),
    SkipEqReg(u8, u8),
    SkipNotEqReg(u8, u8),
    SetValueToRegister(u8, u8),
    AddValueToRegister(u8, u8),
    CopyRegister(u8, u8),
    BinaryOR(u8, u8),
    BinaryAND(u8, u8),
    BinaryXOR(u8, u8),
    AddRegister(u8, u8),
    SubtractRegister(u8, u8),
    NegativeSubtractRegister(u8, u8),
    ShiftRegisterLeft(u8, u8),
    ShiftRegisterRight(u8, u8),
    SetIndexRegister(usize),
    JumpOffset(usize),
    Random(u8, u8),
    Display(u8, u8, u8),
    SkipIfKeyPressed(u8),
    SkipIfKeyNotPressed(u8),
    CopyDelayTimerValue(u8),
    SetDelayTimer(u8),
    SetSoundTimer(u8),
    AddIndexRegister(u8),
    GetKey(u8),
    FontCharacter(u8),
    DecimalConversion(u8),
    StoreMemory(u8),
    LoadMemory(u8),
    Unknown,
}

/// The second nibble of the word (`0X00`), the first register operand.
pub open spec fn spec_nibble_x(instruction: u16) -> u8 {
    ((instruction & 0x0F00) >> 8) as u8
}

/// The third nibble of the word (`00X0`), the second register operand.
pub open spec fn spec_nibble_y(instruction: u16) -> u8 {
    ((instruction & 0x00F0) >> 4) as u8
}

/// The last nibble of the word (`000X`).
pub open spec fn spec_nibble_n(instruction: u16) -> u8 {
    (instruction & 0x000F) as u8
}

/// The low byte of the word (`00XX`), the 8-bit literal operand.
pub open spec fn spec_byte_nn(instruction: u16) -> u8 {
    (instruction & 0x00FF) as u8
}

/// The low three nibbles of the word (`0XXX`), the 12-bit address operand.
pub open spec fn spec_addr_nnn(instruction: u16) -> u16 {
    instruction & 0x0FFF
}

/// The top nibble of the word, the primary dispatch key.
pub open spec fn spec_nibble_top(instruction: u16) -> u8 {
    (instruction >> 12) as u8
}

/// What a 16-bit instruction word decodes to.
pub open spec fn spec_decode(instruction: u16) -> Opcode {
    let x = spec_nibble_x(instruction);
    let y = spec_nibble_y(instruction);
    let n = spec_nibble_n(instruction);
    let nn = spec_byte_nn(instruction);
    let nnn = spec_addr_nnn(instruction);
    match spec_nibble_top(instruction) {
        0x0 => match nnn {
            0x0E0 => Opcode::Clear,
            0x0EE => Opcode::SubroutineReturn,
            _ => Opcode::MachineLanguageRoutine(nnn),
        },
        0x1 => Opcode::Jump(nnn as usize),
        0x2 => Opcode::SubroutineCall(nnn as usize),
        0x3 => Opcode::SkipEqVal(x, nn),
        0x4 => Opcode::SkipNotEqVal(x, nn),
        0x5 => Opcode::SkipEqReg(x, y),
        0x6 => Opcode::SetValueToRegister(x, nn),
        0x7 => Opcode::AddValueToRegister(x, nn),
        0x8 => match n {
            0x0 => Opcode::CopyRegister(x, y),
            0x1 => Opcode::BinaryOR(x, y),
            0x2 => Opcode::BinaryAND(x, y),
            0x3 => Opcode::BinaryXOR(x, y),
            0x4 => Opcode::AddRegister(x, y),
            0x5 => Opcode::SubtractRegister(x, y),
            0x6 => Opcode::ShiftRegisterRight(x, y),
            0x7 => Opcode::NegativeSubtractRegister(x, y),
            0xE => Opcode::ShiftRegisterLeft(x, y),
            _ => Opcode::Unknown,
        },
        0x9 => Opcode::SkipNotEqReg(x, y),
        0xA => Opcode::SetIndexRegister(nnn as usize),
        0xB => Opcode::JumpOffset(nnn as usize),
        0xC => Opcode::Random(x, nn),
        0xD => Opcode::Display(x, y, n),
        0xE => match nn {
            0x9E => Opcode::SkipIfKeyPressed(x),
            0xA1 => Opcode::SkipIfKeyNotPressed(x),
            _ => Opcode::Unknown,
        },
        0xF => match nn {
            0x07 => Opcode::CopyDelayTimerValue(x),
            0x15 => Opcode::SetDelayTimer(x),
            0x18 => Opcode::SetSoundTimer(x),
            0x1E => Opcode::AddIndexRegister(x),
            0x0A => Opcode::GetKey(x),
            0x29 => Opcode::FontCharacter(x),
            0x33 => Opcode::DecimalConversion(x),
            0x55 => Opcode::StoreMemory(x),
            0x65 => Opcode::LoadMemory(x),
            _ => Opcode::Unknown,
        },
        _ => Opcode::Unknown,
    }
}

/// Every operand a decoded operation carries lies in its natural range:
/// register indices below 16, addresses at most 12 bits, sprite heights at
/// most 15.
pub open spec fn opcode_wf(op: Opcode) -> bool {
    match op {
        Opcode::MachineLanguageRoutine(a) => a <= 0xFFF,
        Opcode::Clear => true,
        Opcode::SubroutineReturn => true,
        Opcode::SubroutineCall(a) => a <= 0xFFF,
        Opcode::Jump(a) => a <= 0xFFF,
        Opcode::SkipEqVal(x, _) => x < 16,
        Opcode::SkipNotEqVal(x, _) => x < 16,
        Opcode::SkipEqReg(x, y) => x < 16 && y < 16,
        Opcode::SkipNotEqReg(x, y) => x < 16 && y < 16,
        Opcode::SetValueToRegister(x, _) => x < 16,
        Opcode::AddValueToRegister(x, _) => x < 16,
        Opcode::CopyRegister(x, y) => x < 16 && y < 16,
        Opcode::BinaryOR(x, y) => x < 16 && y < 16,
        Opcode::BinaryAND(x, y) => x < 16 && y < 16,
        Opcode::BinaryXOR(x, y) => x < 16 && y < 16,
        Opcode::AddRegister(x, y) => x < 16 && y < 16,
        Opcode::SubtractRegister(x, y) => x < 16 && y < 16,
        Opcode::NegativeSubtractRegister(x, y) => x < 16 && y < 16,
        Opcode::ShiftRegisterLeft(x, y) => x < 16 && y < 16,
        Opcode::ShiftRegisterRight(x, y) => x < 16 && y < 16,
        Opcode::SetIndexRegister(a) => a <= 0xFFF,
        Opcode::JumpOffset(a) => a <= 0xFFF,
        Opcode::Random(x, _) => x < 16,
        Opcode::Display(x, y, n) => x < 16 && y < 16 && n <= 15,
        Opcode::SkipIfKeyPressed(x) => x < 16,
        Opcode::SkipIfKeyNotPressed(x) => x < 16,
        Opcode::CopyDelayTimerValue(x) => x < 16,
        Opcode::SetDelayTimer(x) => x < 16,
        Opcode::SetSoundTimer(x) => x < 16,
        Opcode::AddIndexRegister(x) => x < 16,
        Opcode::GetKey(x) => x < 16,
        Opcode::FontCharacter(x) => x < 16,
        Opcode::DecimalConversion(x) => x < 16,
        Opcode::StoreMemory(x) => x < 16,
        Opcode::LoadMemory(x) => x < 16,
        Opcode::Unknown => true,
    }
}

/// Decoding never produces an operand out of its natural range.
pub proof fn lemma_decode_wf(instruction: u16)
    ensures
        opcode_wf(spec_decode(instruction)),
{
    assert(((instruction & 0x0F00) >> 8) < 16) by (bit_vector);
    assert(((instruction & 0x00F0) >> 4) < 16) by (bit_vector);
    assert((instruction & 0x000F) <= 15) by (bit_vector);
    assert((instruction & 0x0FFF) <= 0xFFF) by (bit_vector);
}

impl From<u16> for Opcode {
    fn from(instruction: u16) -> (op: Opcode) {
        let x: u8 = ((instruction & 0x0F00) >> 8) as u8;
        let y: u8 = ((instruction & 0x00F0) >> 4) as u8;
        let n: u8 = (instruction & 0x000F) as u8;
        let nn: u8 = (instruction & 0x00FF) as u8;
        let nnn: u16 = instruction & 0x0FFF;
        match (instruction >> 12) as u8 {
            0x0 => match nnn {
                0x0E0 => Opcode::Clear,
                0x0EE => Opcode::SubroutineReturn,
                _ => Opcode::MachineLanguageRoutine(nnn),
            },
            0x1 => Opcode::Jump(nnn as usize),
            0x2 => Opcode::SubroutineCall(nnn as usize),
            0x3 => Opcode::SkipEqVal(x, nn),
            0x4 => Opcode::SkipNotEqVal(x, nn),
            0x5 => Opcode::SkipEqReg(x, y),
            0x6 => Opcode::SetValueToRegister(x, nn),
            0x7 => Opcode::AddValueToRegister(x, nn),
            0x8 => match n {
                0x0 => Opcode::CopyRegister(x, y),
                0x1 => Opcode::BinaryOR(x, y),
                0x2 => Opcode::BinaryAND(x, y),
                0x3 => Opcode::BinaryXOR(x, y),
                0x4 => Opcode::AddRegister(x, y),
                0x5 => Opcode::SubtractRegister(x, y),
                0x6 => Opcode::ShiftRegisterRight(x, y),
                0x7 => Opcode::NegativeSubtractRegister(x, y),
                0xE => Opcode::ShiftRegisterLeft(x, y),
                _ => Opcode::Unknown,
            },
            0x9 => Opcode::SkipNotEqReg(x, y),
            0xA => Opcode::SetIndexRegister(nnn as usize),
            0xB => Opcode::JumpOffset(nnn as usize),
            0xC => Opcode::Random(x, nn),
            0xD => Opcode::Display(x, y, n),
            0xE => match nn {
                0x9E => Opcode::SkipIfKeyPressed(x),
                0xA1 => Opcode::SkipIfKeyNotPressed(x),
                _ => Opcode::Unknown,
            },
            0xF => match nn {
                0x07 => Opcode::CopyDelayTimerValue(x),
                0x15 => Opcode::SetDelayTimer(x),
                0x18 => Opcode::SetSoundTimer(x),
                0x1E => Opcode::AddIndexRegister(x),
                0x0A => Opcode::GetKey(x),
                0x29 => Opcode::FontCharacter(x),
                0x33 => Opcode::DecimalConversion(x),
                0x55 => Opcode::StoreMemory(x),
                0x65 => Opcode::LoadMemory(x),
                _ => Opcode::Unknown,
            },
            _ => Opcode::Unknown,
        }
    }
}

impl vstd::std_specs::convert::FromSpecImpl<u16> for Opcode {
    open spec fn obeys_from_spec() -> bool {
        true
    }

    open spec fn from_spec(instruction: u16) -> Opcode {
        spec_decode(instruction)
    }
}

} // verus!
