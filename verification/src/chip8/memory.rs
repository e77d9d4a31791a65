use crate::chip8::operation::OpCode;
use crate::error::LoadError;
use vstd::prelude::*;

verus! {

/// The machine has 4 KiB of memory.
pub const MEMORY_SIZE: usize = 4096;

/// Programs are loaded, and start running, at this address.
pub const PROGRAM_START: u16 = 0x200;

/// The glyphs of the hexadecimal digits start at this address.
pub const SPRITE_ADDRESS: u16 = 0x0000;

/// Each glyph is five rows of eight pixels, one byte per row.
pub const SPRITE_HEIGHT: usize = 5;

/// The glyphs of the hexadecimal digits `0` to `F`.
pub const SPRITES: [[u8; 5]; 16] = [
    [0xF0, 0x90, 0x90, 0x90, 0xF0],  // 0
    [0x20, 0x60, 0x20, 0x20, 0x70],  // 1
    [0xF0, 0x10, 0xF0, 0x80, 0xF0],  // 2
    [0xF0, 0x10, 0xF0, 0x10, 0xF0],  // 3
    [0x90, 0x90, 0xF0, 0x10, 0x10],  // 4
    [0xF0, 0x80, 0xF0, 0x10, 0xF0],  // 5
    [0xF0, 0x80, 0xF0, 0x90, 0xF0],  // 6
    [0xF0, 0x10, 0x20, 0x40, 0x40],  // 7
    [0xF0, 0x90, 0xF0, 0x90, 0xF0],  // 8
    [0xF0, 0x90, 0xF0, 0x10, 0xF0],  // 9
    [0xF0, 0x90, 0xF0, 0x90, 0x90],  // A
    [0xE0, 0x90, 0xE0, 0x90, 0xE0],  // B
    [0xF0, 0x80, 0x80, 0x80, 0xF0],  // C
    [0xE0, 0x90, 0x90, 0x90, 0xE0],  // D
    [0xF0, 0x80, 0xF0, 0x80, 0xF0],  // E
    [0xF0, 0x80, 0xF0, 0x80, 0x80],  // F
];

/// What memory holds before a program is loaded: the sixteen glyphs, five
/// bytes each, from address 0 on, and zero everywhere else.
pub open spec fn initial_memory() -> Seq<u8> {
    Seq::new(
        MEMORY_SIZE as nat,
        |a: int|
            if 0 <= a < 16 * 5 {
                SPRITES[a / 5][a % 5]
            } else {
                0u8
            },
    )
}

/// The big-endian word whose high byte is at `address`.
pub open spec fn word_at(mem: Seq<u8>, address: int) -> u16 {
    (mem[address] as int * 256 + mem[address + 1] as int) as u16
}

/// Memory once `rom` has been copied to the load address.
pub open spec fn with_program(mem: Seq<u8>, rom: Seq<u8>) -> Seq<u8> {
    Seq::new(
        mem.len(),
        |a: int|
            if PROGRAM_START <= a < PROGRAM_START + rom.len() {
                rom[a - PROGRAM_START]
            } else {
                mem[a]
            },
    )
}

/// The machine's memory: a flat array of bytes with no protection between
/// the glyphs and the program.
pub struct Memory {
    mem: [u8; MEMORY_SIZE],
}

impl View for Memory {
    type V = Seq<u8>;

    closed spec fn view(&self) -> Seq<u8> {
        self.mem@
    }
}

impl Memory {
    /// Memory always has `MEMORY_SIZE` bytes.
    pub proof fn lemma_len(&self)
        ensures
            self@.len() == MEMORY_SIZE,
    {
    }

    /// Memory with the glyphs in place and no program.
    pub fn new() -> (memory: Memory)
        ensures
            memory@ == initial_memory(),
    {
        let mut memory = [0u8;MEMORY_SIZE];
        let mut i: usize = 0;
        while i < 16
            invariant
                i <= 16,
                forall|a: int| 0 <= a < i * 5 ==> memory@[a] == SPRITES[a / 5][a % 5],
                forall|a: int| i * 5 <= a < MEMORY_SIZE ==> memory@[a] == 0,
            decreases 16 - i,
        {
            let address = Memory::sprite_address(i as u8) as usize;
            let mut offset: usize = 0;
            while offset < SPRITE_HEIGHT
                invariant
                    i < 16,
                    address == i * 5,
                    offset <= SPRITE_HEIGHT,
                    forall|a: int|
                        0 <= a < address + offset ==> memory@[a] == SPRITES[a / 5][a % 5],
                    forall|a: int| address + offset <= a < MEMORY_SIZE ==> memory@[a] == 0,
                decreases SPRITE_HEIGHT - offset,
            {
                memory[address + offset] = SPRITES[i][offset];
                offset += 1;
            }
            i += 1;
        }
        Memory { mem: memory }
    }

    /// Copies a program to the load address, or refuses one that would
    /// reach past the end of memory and leaves memory as it was.
    pub fn load_rom(&mut self, rom: &[u8]) -> (res: Result<(), LoadError>)
        ensures
            PROGRAM_START + rom@.len() <= MEMORY_SIZE ==> res == Ok::<(), LoadError>(())
                && final(self)@ == with_program(old(self)@, rom@),
            PROGRAM_START + rom@.len() > MEMORY_SIZE ==> res == Err::<(), LoadError>(
                LoadError::RomTooLarge { len: rom@.len() as usize },
            ) && final(self)@ == old(self)@,
    {
        let len = rom.len();
        if len > MEMORY_SIZE - PROGRAM_START as usize {
            return Err(LoadError::RomTooLarge { len });
        }
        let mut i: usize = 0;
        while i < len
            invariant
                len == rom@.len(),
                PROGRAM_START + len <= MEMORY_SIZE,
                i <= len,
                forall|a: int|
                    PROGRAM_START <= a < PROGRAM_START + i ==> self@[a] == rom@[a - PROGRAM_START],
                forall|a: int|
                    0 <= a < MEMORY_SIZE && !(PROGRAM_START <= a < PROGRAM_START + i) ==> self@[a]
                        == old(self)@[a],
            decreases len - i,
        {
            self.write(i as u16 + PROGRAM_START, rom[i]);
            i += 1;
        }
        Ok(())
    }

    /// The address of the glyph for a digit.
    pub fn sprite_address(sprite: u8) -> (address: u16)
        ensures
            address == SPRITE_ADDRESS + sprite * 5,
    {
        SPRITE_ADDRESS + (sprite as u16) * 5
    }

    /// The byte at an address.
    pub fn read8(&self, address: u16) -> (byte: u8)
        requires
            address < MEMORY_SIZE,
        ensures
            byte == self@[address as int],
    {
        self.mem[address as usize]
    }

    /// The big-endian word at an address.
    pub fn read16(&self, address: u16) -> (opcode: OpCode)
        requires
            address + 1 < MEMORY_SIZE,
        ensures
            opcode@ == word_at(self@, address as int),
    {
        let high = self.mem[address as usize];
        let low = self.mem[(address as usize) + 1];
        proof {
            lemma_word(high, low);
        }
        OpCode::new((high as u16) << 8 | low as u16)
    }

    /// The bytes from `start` up to `end`.
    pub fn bytes(&self, start: usize, end: usize) -> (out: &[u8])
        requires
            start <= end <= MEMORY_SIZE,
        ensures
            out@ == self@.subrange(start as int, end as int),
    {
        vstd::slice::slice_subrange(self.mem.as_slice(), start, end)
    }

    /// Stores a byte at an address.
    pub fn write(&mut self, address: u16, byte: u8)
        requires
            address < MEMORY_SIZE,
        ensures
            final(self)@ == old(self)@.update(address as int, byte),
    {
        self.mem[address as usize] = byte;
    }
}

impl Default for Memory {
    fn default() -> (memory: Memory)
        ensures
            memory@ == initial_memory(),
    {
        Memory::new()
    }
}

/// Shifting the high byte up and or-ing the low byte in is `256 * high + low`.
proof fn lemma_word(high: u8, low: u8)
    by (bit_vector)
    ensures
        (high as u16) << 8 | low as u16 == high as u16 * 256 + low as u16,
        high as u16 * 256 + low as u16 <= 0xFFFF,
{
}

} // verus!
