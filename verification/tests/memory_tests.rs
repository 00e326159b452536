use chip_8_emu::memory::Memory;

#[test]
fn memory_test() {
    let mut memory = Memory::new();
    memory.load_font_data();

    assert_eq!(memory.data[0x0], 0x00);
    assert_eq!(memory.data[0x50], 0xF0);
    assert_eq!(memory.data[0x51], 0x90);
    assert_eq!(memory.data[0x9F], 0x80);
}

#[test]
fn font_address_of_digit_a() {
    let memory = Memory::new();

    assert_eq!(memory.get_font_address(0xA), 0x50 + 5 * 10);
}

#[test]
fn font_load_is_idempotent() {
    let mut once = Memory::new();
    once.load_font_data();
    let mut twice = Memory::new();
    twice.load_font_data();
    twice.load_font_data();

    assert_eq!(once.data, twice.data);
}

#[test]
fn rom_load_and_instruction_read() {
    let mut memory = Memory::new();
    memory.load_rom_data(&[0x12, 0x34, 0xAB, 0xCD]);

    assert_eq!(memory.read_byte(0x200), 0x12);
    assert_eq!(memory.read_byte(0x203), 0xCD);
    assert_eq!(memory.read_instruction(0x200), 0x1234);
    assert_eq!(memory.read_instruction(0x202), 0xABCD);
}

#[test]
fn byte_write_then_read() {
    let mut memory = Memory::new();
    memory.write_byte(0x300, 0x5A);

    assert_eq!(memory.read_byte(0x300), 0x5A);
    assert_eq!(memory.read_byte(0x301), 0x00);
}
