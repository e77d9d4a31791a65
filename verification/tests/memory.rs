use mychip8::chip8::memory::{Memory, MEMORY_SIZE, PROGRAM_START, SPRITES};
use mychip8::error::LoadError;

#[test]
fn memory_size_and_load_address() {
    assert_eq!(MEMORY_SIZE, 4096);
    assert_eq!(PROGRAM_START, 0x200);
}

#[test]
fn new_memory_holds_the_glyphs() {
    let memory = Memory::new();
    for digit in 0..16u16 {
        for row in 0..5u16 {
            assert_eq!(
                memory.read8(digit * 5 + row),
                SPRITES[digit as usize][row as usize]
            );
        }
    }
}

#[test]
fn glyph_zero_is_the_canonical_one() {
    let memory = Memory::new();
    let glyph: Vec<u8> = (0..5u16).map(|a| memory.read8(a)).collect();
    assert_eq!(glyph, vec![0xF0, 0x90, 0x90, 0x90, 0xF0]);
}

#[test]
fn glyph_f_is_the_canonical_one() {
    let memory = Memory::new();
    let glyph: Vec<u8> = (75..80u16).map(|a| memory.read8(a)).collect();
    assert_eq!(glyph, vec![0xF0, 0x80, 0xF0, 0x80, 0x80]);
}

#[test]
fn new_memory_is_zero_behind_the_glyphs() {
    let memory = Memory::new();
    for address in 80..4096u16 {
        assert_eq!(memory.read8(address), 0);
    }
}

#[test]
fn default_memory_is_new_memory() {
    let memory = Memory::default();
    assert_eq!(memory.bytes(0, MEMORY_SIZE), Memory::new().bytes(0, MEMORY_SIZE));
}

#[test]
fn sprite_address_is_five_times_the_digit() {
    assert_eq!(Memory::sprite_address(0), 0);
    assert_eq!(Memory::sprite_address(1), 5);
    assert_eq!(Memory::sprite_address(0xA), 50);
    assert_eq!(Memory::sprite_address(0xF), 75);
    assert_eq!(Memory::sprite_address(255), 1275);
}

#[test]
fn write_then_read() {
    let mut memory = Memory::new();
    memory.write(0x300, 0xAB);
    assert_eq!(memory.read8(0x300), 0xAB);
    assert_eq!(memory.read8(0x2FF), 0);
    assert_eq!(memory.read8(0x301), 0);
    memory.write(4095, 0x01);
    assert_eq!(memory.read8(4095), 0x01);
    memory.write(0, 0x77);
    assert_eq!(memory.read8(0), 0x77);
}

#[test]
fn read16_is_big_endian() {
    let mut memory = Memory::new();
    memory.write(0x200, 0x12);
    memory.write(0x201, 0x34);
    assert_eq!(memory.read16(0x200).get_opcode(), 0x1234);
    assert_eq!(memory.read16(0x201).get_opcode(), 0x3400);
    assert_eq!(memory.read16(0).get_opcode(), 0xF090);
    memory.write(4094, 0xFF);
    memory.write(4095, 0xFE);
    assert_eq!(memory.read16(4094).get_opcode(), 0xFFFE);
}

#[test]
fn bytes_hands_out_a_range() {
    let mut memory = Memory::new();
    memory.write(0x200, 1);
    memory.write(0x201, 2);
    memory.write(0x202, 3);
    assert_eq!(memory.bytes(0x200, 0x203), &[1, 2, 3]);
    assert_eq!(memory.bytes(0x201, 0x201), &[] as &[u8]);
    assert_eq!(memory.bytes(0, 5), &[0xF0, 0x90, 0x90, 0x90, 0xF0]);
    assert_eq!(memory.bytes(0, MEMORY_SIZE).len(), 4096);
}

#[test]
fn load_rom_copies_to_the_load_address() {
    let mut memory = Memory::new();
    let rom = [0x60, 0x05, 0x61, 0x07, 0x80, 0x14];
    assert_eq!(memory.load_rom(&rom), Ok(()));
    assert_eq!(memory.bytes(0x200, 0x206), &rom);
    assert_eq!(memory.read8(0x1FF), 0);
    assert_eq!(memory.read8(0x206), 0);
    assert_eq!(memory.read8(0), 0xF0);
}

#[test]
fn load_rom_accepts_an_empty_program() {
    let mut memory = Memory::new();
    assert_eq!(memory.load_rom(&[]), Ok(()));
    assert_eq!(memory.bytes(0, MEMORY_SIZE), Memory::new().bytes(0, MEMORY_SIZE));
}

#[test]
fn load_rom_accepts_a_program_that_just_fits() {
    let mut memory = Memory::new();
    let rom = vec![0xAA; 4096 - 0x200];
    assert_eq!(memory.load_rom(&rom), Ok(()));
    assert_eq!(memory.read8(0x200), 0xAA);
    assert_eq!(memory.read8(4095), 0xAA);
    assert_eq!(memory.read8(0x1FF), 0);
}

#[test]
fn load_rom_refuses_a_program_that_is_one_byte_too_long() {
    let mut memory = Memory::new();
    memory.write(0x200, 0x42);
    let rom = vec![0xAA; 4096 - 0x200 + 1];
    assert_eq!(
        memory.load_rom(&rom),
        Err(LoadError::RomTooLarge { len: 3585 })
    );
    assert_eq!(memory.read8(0x200), 0x42);
    assert_eq!(memory.read8(0x201), 0);
    assert_eq!(memory.read8(4095), 0);
}

#[test]
fn load_rom_overwrites_an_earlier_program() {
    let mut memory = Memory::new();
    assert_eq!(memory.load_rom(&[1, 2, 3, 4]), Ok(()));
    assert_eq!(memory.load_rom(&[9, 8]), Ok(()));
    assert_eq!(memory.bytes(0x200, 0x204), &[9, 8, 3, 4]);
}
