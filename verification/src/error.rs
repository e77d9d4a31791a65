use vstd::prelude::*;

verus! {

/// Why a 16-bit word is not an instruction.
#[derive(Debug, Clone, Copy, PartialEq, Eq)]
pub enum DecodeError {
    /// The word matches none of the instruction patterns.
    UnknownOpcode(u16),
}

/// Why a program could not be placed in memory.
#[derive(Debug, Clone, Copy, PartialEq, Eq)]
pub enum LoadError {
    /// The program does not fit between the load address and the end of
    /// memory; `len` is the program's length in bytes.
    RomTooLarge { len: usize },
}

/// Why a processor cycle could not be carried out. Every one of these ends
/// the run: the machine is left exactly as it was before the cycle.
#[derive(Debug, Clone, Copy, PartialEq, Eq)]
pub enum CpuError {
    /// The fetched word is not an instruction.
    Decode(DecodeError),
    /// The cycle would read or write memory past its last byte.
    MemoryOutOfBounds,
    /// A call was made with sixteen return addresses already on the stack.
    StackOverflow,
    /// A return was made with no return address on the stack.
    StackUnderflow,
    /// A key test named a key that the keypad does not have.
    KeyOutOfRange { key: u8 },
}

} // verus!
