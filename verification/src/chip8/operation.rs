use crate::error::DecodeError;
use vstd::prelude::*;

verus! {

/// A raw 16-bit instruction word as fetched from memory.
#[derive(Debug, Clone, Copy, PartialEq, Eq)]
pub struct OpCode(u16);

impl View for OpCode {
    type V = u16;

    closed spec fn view(&self) -> u16 {
        self.0
    }
}

impl OpCode {
    /// Wraps a raw word.
    pub fn new(opcode: u16) -> (res: OpCode)
        ensures
            res@ == opcode,
    {
        OpCode(opcode)
    }

    /// The raw word.
    pub fn get_opcode(&self) -> (word: u16)
        ensures
            word == self@,
    {
        self.0
    }
}

/// A decoded instruction with its operands.
///
/// In the opcode patterns below `x` and `y` are register numbers, `kk` is an
/// immediate byte, `nnn` a 12-bit address and `n` a nibble.
#[derive(Debug, Clone, Copy, PartialEq, Eq)]
pub enum Op {
    /// `0nnn`: call a machine code routine (ignored)
    SYS { address: u16 },
    /// `00E0`: clear the display
    CLS,
    /// `00EE`: return from a subroutine
    RET,
    /// `1nnn`: jump to `nnn`
    JP { address: u16 },
    /// `2nnn`: call the subroutine at `nnn`
    CALL { address: u16 },
    /// `3xkk`: skip the next instruction if `Vx == kk`
    SE { reg: u8, byte: u8 },
    /// `4xkk`: skip the next instruction if `Vx != kk`
    SNE2 { reg: u8, byte: u8 },
    /// `5xy_`: skip the next instruction if `Vx == Vy`
    SEV { reg_x: u8, reg_y: u8 },
    /// `6xkk`: set `Vx` to `kk`
    LD { reg: u8, byte: u8 },
    /// `7xkk`: add `kk` to `Vx`, without touching the flag
    ADD { reg: u8, byte: u8 },
    /// `8xy0`: set `Vx` to `Vy`
    LDR { reg_x: u8, reg_y: u8 },
    /// `8xy1`: set `Vx` to `Vx | Vy`
    OR { reg_x: u8, reg_y: u8 },
    /// `8xy2`: set `Vx` to `Vx & Vy`
    AND { reg_x: u8, reg_y: u8 },
    /// `8xy3`: set `Vx` to `Vx ^ Vy`
    XOR { reg_x: u8, reg_y: u8 },
    /// `8xy4`: add `Vy` to `Vx`, flag = carry
    ADD2 { reg_x: u8, reg_y: u8 },
    /// `8xy5`: subtract `Vy` from `Vx`, flag = no borrow
    SUB { reg_x: u8, reg_y: u8 },
    /// `8xy6`: shift right by one, flag = the bit shifted out
    SHR { reg_x: u8, reg_y: u8 },
    /// `8xy7`: set `Vx` to `Vy - Vx`, flag = no borrow
    SUBN { reg_x: u8, reg_y: u8 },
    /// `8xyE`: shift left by one, flag = the bit shifted out
    SHL { reg_x: u8, reg_y: u8 },
    /// `9xy_`: skip the next instruction if `Vx != Vy`
    SNE { reg_x: u8, reg_y: u8 },
    /// `Annn`: set `I` to `nnn`
    LDA { address: u16 },
    /// `Bnnn`: jump to `nnn + V0`
    JPV { address: u16 },
    /// `Cxkk`: set `Vx` to a random byte masked with `kk`
    RND { reg: u8, byte: u8 },
    /// `Dxyn`: draw the `n`-row sprite at `I` at `(Vx, Vy)`, flag = collision
    DRW { reg_x: u8, reg_y: u8, n: u8 },
    /// `Ex9E`: skip the next instruction if key `Vx` is down
    SKP { reg: u8 },
    /// `ExA1`: skip the next instruction if key `Vx` is up
    SKNP { reg: u8 },
    /// `Fx07`: set `Vx` to the delay timer
    LDT { reg: u8 },
    /// `Fx0A`: wait for a key press and store the key in `Vx`
    LDK { reg: u8 },
    /// `Fx15`: set the delay timer to `Vx`
    LDF { reg: u8 },
    /// `Fx18`: set the sound timer to `Vx`
    LDS { reg: u8 },
    /// `Fx1E`: add `Vx` to `I`
    ADDI { reg: u8 },
    /// `Fx29`: set `I` to the address of the glyph for digit `Vx`
    LDX { reg: u8 },
    /// `Fx33`: store the three decimal digits of `Vx` at `I`, `I+1`, `I+2`
    LDB { reg: u8 },
    /// `Fx55`: store `V0..=Vx` in memory starting at `I`
    LDI { reg: u8 },
    /// `Fx65`: load `V0..=Vx` from memory starting at `I`
    LDJ { reg: u8 },
}

/// The top hex digit of a word: it selects the instruction family.
pub open spec fn family_of(word: u16) -> int {
    word as int / 0x1000
}

/// The second hex digit of a word: register `x`.
pub open spec fn reg_x_of(word: u16) -> u8 {
    ((word as int / 0x100) % 0x10) as u8
}

/// The third hex digit of a word: register `y`.
pub open spec fn reg_y_of(word: u16) -> u8 {
    ((word as int / 0x10) % 0x10) as u8
}

/// The lowest hex digit of a word.
pub open spec fn nibble_of(word: u16) -> u8 {
    (word as int % 0x10) as u8
}

/// The low byte of a word.
pub open spec fn byte_of(word: u16) -> u8 {
    (word as int % 0x100) as u8
}

/// The low twelve bits of a word.
pub open spec fn address_of(word: u16) -> u16 {
    (word as int % 0x1000) as u16
}

/// The instruction that a word stands for, or the error for a word that
/// stands for none. Families `5` and `9` ignore their lowest digit.
pub open spec fn decode_word(word: u16) -> Result<Op, DecodeError> {
    let address = address_of(word);
    let reg = reg_x_of(word);
    let reg_x = reg_x_of(word);
    let reg_y = reg_y_of(word);
    let byte = byte_of(word);
    let n = nibble_of(word);
    let family = family_of(word);
    if family == 0x0 {
        if address == 0x0E0 {
            Ok(Op::CLS)
        } else if address == 0x0EE {
            Ok(Op::RET)
        } else {
            Ok(Op::SYS { address })
        }
    } else if family == 0x1 {
        Ok(Op::JP { address })
    } else if family == 0x2 {
        Ok(Op::CALL { address })
    } else if family == 0x3 {
        Ok(Op::SE { reg, byte })
    } else if family == 0x4 {
        Ok(Op::SNE2 { reg, byte })
    } else if family == 0x5 {
        Ok(Op::SEV { reg_x, reg_y })
    } else if family == 0x6 {
        Ok(Op::LD { reg, byte })
    } else if family == 0x7 {
        Ok(Op::ADD { reg, byte })
    } else if family == 0x8 {
        if n == 0x0 {
            Ok(Op::LDR { reg_x, reg_y })
        } else if n == 0x1 {
            Ok(Op::OR { reg_x, reg_y })
        } else if n == 0x2 {
            Ok(Op::AND { reg_x, reg_y })
        } else if n == 0x3 {
            Ok(Op::XOR { reg_x, reg_y })
        } else if n == 0x4 {
            Ok(Op::ADD2 { reg_x, reg_y })
        } else if n == 0x5 {
            Ok(Op::SUB { reg_x, reg_y })
        } else if n == 0x6 {
            Ok(Op::SHR { reg_x, reg_y })
        } else if n == 0x7 {
            Ok(Op::SUBN { reg_x, reg_y })
        } else if n == 0xE {
            Ok(Op::SHL { reg_x, reg_y })
        } else {
            Err(DecodeError::UnknownOpcode(word))
        }
    } else if family == 0x9 {
        Ok(Op::SNE { reg_x, reg_y })
    } else if family == 0xA {
        Ok(Op::LDA { address })
    } else if family == 0xB {
        Ok(Op::JPV { address })
    } else if family == 0xC {
        Ok(Op::RND { reg, byte })
    } else if family == 0xD {
        Ok(Op::DRW { reg_x, reg_y, n })
    } else if family == 0xE {
        if byte == 0x9E {
            Ok(Op::SKP { reg })
        } else if byte == 0xA1 {
            Ok(Op::SKNP { reg })
        } else {
            Err(DecodeError::UnknownOpcode(word))
        }
    } else {
        if byte == 0x07 {
            Ok(Op::LDT { reg })
        } else if byte == 0x0A {
            Ok(Op::LDK { reg })
        } else if byte == 0x15 {
            Ok(Op::LDF { reg })
        } else if byte == 0x18 {
            Ok(Op::LDS { reg })
        } else if byte == 0x1E {
            Ok(Op::ADDI { reg })
        } else if byte == 0x29 {
            Ok(Op::LDX { reg })
        } else if byte == 0x33 {
            Ok(Op::LDB { reg })
        } else if byte == 0x55 {
            Ok(Op::LDI { reg })
        } else if byte == 0x65 {
            Ok(Op::LDJ { reg })
        } else {
            Err(DecodeError::UnknownOpcode(word))
        }
    }
}

/// The word of an instruction's pattern with the operands in their places.
/// `SEV` and `SNE` are written with a zero in the digit that they ignore.
pub open spec fn pattern(op: Op) -> int {
    match op {
        Op::SYS { address } => address as int,
        Op::CLS => 0x00E0,
        Op::RET => 0x00EE,
        Op::JP { address } => 0x1000 + address,
        Op::CALL { address } => 0x2000 + address,
        Op::SE { reg, byte } => 0x3000 + reg * 0x100 + byte,
        Op::SNE2 { reg, byte } => 0x4000 + reg * 0x100 + byte,
        Op::SEV { reg_x, reg_y } => 0x5000 + reg_x * 0x100 + reg_y * 0x10,
        Op::LD { reg, byte } => 0x6000 + reg * 0x100 + byte,
        Op::ADD { reg, byte } => 0x7000 + reg * 0x100 + byte,
        Op::LDR { reg_x, reg_y } => 0x8000 + reg_x * 0x100 + reg_y * 0x10,
        Op::OR { reg_x, reg_y } => 0x8001 + reg_x * 0x100 + reg_y * 0x10,
        Op::AND { reg_x, reg_y } => 0x8002 + reg_x * 0x100 + reg_y * 0x10,
        Op::XOR { reg_x, reg_y } => 0x8003 + reg_x * 0x100 + reg_y * 0x10,
        Op::ADD2 { reg_x, reg_y } => 0x8004 + reg_x * 0x100 + reg_y * 0x10,
        Op::SUB { reg_x, reg_y } => 0x8005 + reg_x * 0x100 + reg_y * 0x10,
        Op::SHR { reg_x, reg_y } => 0x8006 + reg_x * 0x100 + reg_y * 0x10,
        Op::SUBN { reg_x, reg_y } => 0x8007 + reg_x * 0x100 + reg_y * 0x10,
        Op::SHL { reg_x, reg_y } => 0x800E + reg_x * 0x100 + reg_y * 0x10,
        Op::SNE { reg_x, reg_y } => 0x9000 + reg_x * 0x100 + reg_y * 0x10,
        Op::LDA { address } => 0xA000 + address,
        Op::JPV { address } => 0xB000 + address,
        Op::RND { reg, byte } => 0xC000 + reg * 0x100 + byte,
        Op::DRW { reg_x, reg_y, n } => 0xD000 + reg_x * 0x100 + reg_y * 0x10 + n,
        Op::SKP { reg } => 0xE09E + reg * 0x100,
        Op::SKNP { reg } => 0xE0A1 + reg * 0x100,
        Op::LDT { reg } => 0xF007 + reg * 0x100,
        Op::LDK { reg } => 0xF00A + reg * 0x100,
        Op::LDF { reg } => 0xF015 + reg * 0x100,
        Op::LDS { reg } => 0xF018 + reg * 0x100,
        Op::ADDI { reg } => 0xF01E + reg * 0x100,
        Op::LDX { reg } => 0xF029 + reg * 0x100,
        Op::LDB { reg } => 0xF033 + reg * 0x100,
        Op::LDI { reg } => 0xF055 + reg * 0x100,
        Op::LDJ { reg } => 0xF065 + reg * 0x100,
    }
}

/// Whether a word is written after an instruction's pattern: it is the
/// pattern's word, whatever it holds in a digit that the pattern ignores.
pub open spec fn matches_pattern(word: u16, op: Op) -> bool {
    &&& op.wf()
    &&& if op is SEV || op is SNE {
        pattern(op) == word - word % 0x10
    } else {
        pattern(op) == word
    }
}

/// A word is made of its four hex digits, and its low byte and its
/// address of the lower ones.
proof fn lemma_digits(word: u16)
    ensures
        word == family_of(word) * 0x1000 + reg_x_of(word) * 0x100 + reg_y_of(word) * 0x10
            + nibble_of(word),
        0 <= family_of(word) < 0x10,
        reg_x_of(word) < 0x10,
        reg_y_of(word) < 0x10,
        nibble_of(word) < 0x10,
        byte_of(word) == reg_y_of(word) * 0x10 + nibble_of(word),
        address_of(word) == reg_x_of(word) * 0x100 + byte_of(word),
{
    lemma_digits_bits(word);
}

/// A word is made of its four hex digits: the same on the bits of the word.
proof fn lemma_digits_bits(w: u16)
    by (bit_vector)
    ensures
        w == (w / 0x1000) * 0x1000 + ((w / 0x100) % 0x10) * 0x100 + ((w / 0x10) % 0x10) * 0x10 + w
            % 0x10,
        w / 0x1000 < 0x10,
        w % 0x100 == ((w / 0x10) % 0x10) * 0x10 + w % 0x10,
        w % 0x1000 == ((w / 0x100) % 0x10) * 0x100 + w % 0x100,
{
}

/// Decoding gives an instruction only for a word that is written after
/// that instruction's pattern.
#[verifier::rlimit(50)]
pub proof fn lemma_decode_sound(word: u16)
    ensures
        decode_word(word) matches Ok(op) ==> matches_pattern(word, op),
        decode_word(word) matches Err(e) ==> e == DecodeError::UnknownOpcode(word),
{
    lemma_digits(word);
    let family = family_of(word);
    if family == 0x8 {
    } else if family == 0xE {
    } else if family == 0xF {
    } else if family == 0x0 {
    } else if family < 0x8 {
    } else {
    }
}

/// The hex digits of the word that four digits make are those digits.
proof fn lemma_digits_of(word: u16, family: int, x: int, y: int, n: int)
    requires
        0 <= family < 0x10,
        0 <= x < 0x10,
        0 <= y < 0x10,
        0 <= n < 0x10,
        word == family * 0x1000 + x * 0x100 + y * 0x10 + n,
    ensures
        family_of(word) == family,
        reg_x_of(word) == x,
        reg_y_of(word) == y,
        nibble_of(word) == n,
        byte_of(word) == y * 0x10 + n,
        address_of(word) == x * 0x100 + y * 0x10 + n,
{
    lemma_digits(word);
    lemma_same_digits(
        family_of(word),
        reg_x_of(word) as int,
        reg_y_of(word) as int,
        nibble_of(word) as int,
        family,
        x,
        y,
        n,
    );
}

/// Two rows of four hex digits that make the same number are the same.
proof fn lemma_same_digits(a3: int, a2: int, a1: int, a0: int, b3: int, b2: int, b1: int, b0: int)
    requires
        0 <= a3 < 0x10 && 0 <= a2 < 0x10 && 0 <= a1 < 0x10 && 0 <= a0 < 0x10,
        0 <= b3 < 0x10 && 0 <= b2 < 0x10 && 0 <= b1 < 0x10 && 0 <= b0 < 0x10,
        a3 * 0x1000 + a2 * 0x100 + a1 * 0x10 + a0 == b3 * 0x1000 + b2 * 0x100 + b1 * 0x10 + b0,
    ensures
        a3 == b3 && a2 == b2 && a1 == b1 && a0 == b0,
{
    assert(a0 - b0 == 0x10 * ((b3 - a3) * 0x100 + (b2 - a2) * 0x10 + (b1 - a1)));
    assert(a0 == b0);
    assert(a1 - b1 == 0x10 * ((b3 - a3) * 0x10 + (b2 - a2)));
    assert(a1 == b1);
    assert(a2 - b2 == 0x10 * (b3 - a3));
    assert(a2 == b2);
}

/// A word that is written after an instruction's pattern decodes, and to
/// that instruction; but that the patterns of `CLS` and `RET` take their two
/// words from the pattern of `SYS`. So a word that does not decode is
/// written after no pattern.
#[verifier::rlimit(50)]
pub proof fn lemma_decode_complete(word: u16, op: Op)
    requires
        matches_pattern(word, op),
    ensures
        decode_word(word) is Ok,
        !(op is SYS) ==> decode_word(word) == Ok::<Op, DecodeError>(op),
        op is SYS && word != 0x00E0 && word != 0x00EE ==> decode_word(word) == Ok::<
            Op,
            DecodeError,
        >(op),
{
    match op {
        Op::CLS => {
            lemma_digits_of(word, 0x0, 0x0, 0xE, 0x0);
        },
        Op::RET => {
            lemma_digits_of(word, 0x0, 0x0, 0xE, 0xE);
        },
        Op::SYS { address } => {
            lemma_digits_of(
                word,
                0x0,
                address as int / 0x100,
                (address as int / 0x10) % 0x10,
                address as int % 0x10,
            );
        },
        Op::JP { address } => {
            lemma_digits_of(
                word,
                0x1,
                address as int / 0x100,
                (address as int / 0x10) % 0x10,
                address as int % 0x10,
            );
        },
        Op::CALL { address } => {
            lemma_digits_of(
                word,
                0x2,
                address as int / 0x100,
                (address as int / 0x10) % 0x10,
                address as int % 0x10,
            );
        },
        Op::LDA { address } => {
            lemma_digits_of(
                word,
                0xa,
                address as int / 0x100,
                (address as int / 0x10) % 0x10,
                address as int % 0x10,
            );
        },
        Op::JPV { address } => {
            lemma_digits_of(
                word,
                0xb,
                address as int / 0x100,
                (address as int / 0x10) % 0x10,
                address as int % 0x10,
            );
        },
        Op::SE { reg, byte } => {
            lemma_digits_of(word, 0x3, reg as int, byte as int / 0x10, byte as int % 0x10);
        },
        Op::SNE2 { reg, byte } => {
            lemma_digits_of(word, 0x4, reg as int, byte as int / 0x10, byte as int % 0x10);
        },
        Op::LD { reg, byte } => {
            lemma_digits_of(word, 0x6, reg as int, byte as int / 0x10, byte as int % 0x10);
        },
        Op::ADD { reg, byte } => {
            lemma_digits_of(word, 0x7, reg as int, byte as int / 0x10, byte as int % 0x10);
        },
        Op::RND { reg, byte } => {
            lemma_digits_of(word, 0xc, reg as int, byte as int / 0x10, byte as int % 0x10);
        },
        Op::SEV { reg_x, reg_y } => {
            lemma_digits_of(word, 0x5, reg_x as int, reg_y as int, word as int % 0x10);
        },
        Op::SNE { reg_x, reg_y } => {
            lemma_digits_of(word, 0x9, reg_x as int, reg_y as int, word as int % 0x10);
        },
        Op::LDR { reg_x, reg_y } => {
            lemma_digits_of(word, 0x8, reg_x as int, reg_y as int, 0x0);
        },
        Op::OR { reg_x, reg_y } => {
            lemma_digits_of(word, 0x8, reg_x as int, reg_y as int, 0x1);
        },
        Op::AND { reg_x, reg_y } => {
            lemma_digits_of(word, 0x8, reg_x as int, reg_y as int, 0x2);
        },
        Op::XOR { reg_x, reg_y } => {
            lemma_digits_of(word, 0x8, reg_x as int, reg_y as int, 0x3);
        },
        Op::ADD2 { reg_x, reg_y } => {
            lemma_digits_of(word, 0x8, reg_x as int, reg_y as int, 0x4);
        },
        Op::SUB { reg_x, reg_y } => {
            lemma_digits_of(word, 0x8, reg_x as int, reg_y as int, 0x5);
        },
        Op::SHR { reg_x, reg_y } => {
            lemma_digits_of(word, 0x8, reg_x as int, reg_y as int, 0x6);
        },
        Op::SUBN { reg_x, reg_y } => {
            lemma_digits_of(word, 0x8, reg_x as int, reg_y as int, 0x7);
        },
        Op::SHL { reg_x, reg_y } => {
            lemma_digits_of(word, 0x8, reg_x as int, reg_y as int, 0xe);
        },
        Op::DRW { reg_x, reg_y, n } => {
            lemma_digits_of(word, 0xd, reg_x as int, reg_y as int, n as int);
        },
        Op::SKP { reg } => {
            lemma_digits_of(word, 0xe, reg as int, 0x9, 0xe);
        },
        Op::SKNP { reg } => {
            lemma_digits_of(word, 0xe, reg as int, 0xa, 0x1);
        },
        Op::LDT { reg } => {
            lemma_digits_of(word, 0xf, reg as int, 0x0, 0x7);
        },
        Op::LDK { reg } => {
            lemma_digits_of(word, 0xf, reg as int, 0x0, 0xa);
        },
        Op::LDF { reg } => {
            lemma_digits_of(word, 0xf, reg as int, 0x1, 0x5);
        },
        Op::LDS { reg } => {
            lemma_digits_of(word, 0xf, reg as int, 0x1, 0x8);
        },
        Op::ADDI { reg } => {
            lemma_digits_of(word, 0xf, reg as int, 0x1, 0xe);
        },
        Op::LDX { reg } => {
            lemma_digits_of(word, 0xf, reg as int, 0x2, 0x9);
        },
        Op::LDB { reg } => {
            lemma_digits_of(word, 0xf, reg as int, 0x3, 0x3);
        },
        Op::LDI { reg } => {
            lemma_digits_of(word, 0xf, reg as int, 0x5, 0x5);
        },
        Op::LDJ { reg } => {
            lemma_digits_of(word, 0xf, reg as int, 0x6, 0x5);
        },
    }
}

/// Masking and shifting a word pick out its hex digits.
proof fn lemma_fields(w: u16)
    by (bit_vector)
    ensures
        w & 0xF000 == (w / 0x1000) * 0x1000,
        w / 0x1000 < 0x10,
        w & 0x0FFF == w % 0x1000,
        w & 0x00FF == w % 0x100,
        w & 0x000F == w % 0x10,
        (w & 0x0F00) >> 8 == (w / 0x100) % 0x10,
        (w & 0x00F0) >> 4 == (w / 0x10) % 0x10,
{
}

/// Register operand `x` of a word.
fn field_x(opcode: u16) -> (x: u8)
    ensures
        x == reg_x_of(opcode),
        x < 16,
{
    proof {
        lemma_fields(opcode);
    }
    ((opcode & 0x0F00) >> 8) as u8
}

/// Register operand `y` of a word.
fn field_y(opcode: u16) -> (y: u8)
    ensures
        y == reg_y_of(opcode),
        y < 16,
{
    proof {
        lemma_fields(opcode);
    }
    ((opcode & 0x00F0) >> 4) as u8
}

/// Immediate byte of a word.
fn field_kk(opcode: u16) -> (kk: u8)
    ensures
        kk == byte_of(opcode),
{
    proof {
        lemma_fields(opcode);
    }
    (opcode & 0x00FF) as u8
}

/// Address operand of a word.
fn field_nnn(opcode: u16) -> (nnn: u16)
    ensures
        nnn == address_of(opcode),
        nnn < 0x1000,
{
    proof {
        lemma_fields(opcode);
    }
    opcode & 0x0FFF
}

/// Nibble operand of a word.
fn field_n(opcode: u16) -> (n: u8)
    ensures
        n == nibble_of(opcode),
        n < 16,
{
    proof {
        lemma_fields(opcode);
    }
    (opcode & 0x000F) as u8
}

impl Op {
    /// Whether every operand is in its range: register numbers and the
    /// nibble below 16, addresses below 4096. What `decode` returns is.
    pub open spec fn wf(self) -> bool {
        match self {
            Op::CLS | Op::RET => true,
            Op::SYS { address }
            | Op::JP { address }
            | Op::CALL { address }
            | Op::LDA { address }
            | Op::JPV { address } => address < 0x1000,
            Op::SE { reg, .. }
            | Op::SNE2 { reg, .. }
            | Op::LD { reg, .. }
            | Op::ADD { reg, .. }
            | Op::RND { reg, .. }
            | Op::SKP { reg }
            | Op::SKNP { reg }
            | Op::LDT { reg }
            | Op::LDK { reg }
            | Op::LDF { reg }
            | Op::LDS { reg }
            | Op::ADDI { reg }
            | Op::LDX { reg }
            | Op::LDB { reg }
            | Op::LDI { reg }
            | Op::LDJ { reg } => reg < 16,
            Op::SEV { reg_x, reg_y }
            | Op::LDR { reg_x, reg_y }
            | Op::OR { reg_x, reg_y }
            | Op::AND { reg_x, reg_y }
            | Op::XOR { reg_x, reg_y }
            | Op::ADD2 { reg_x, reg_y }
            | Op::SUB { reg_x, reg_y }
            | Op::SHR { reg_x, reg_y }
            | Op::SUBN { reg_x, reg_y }
            | Op::SHL { reg_x, reg_y }
            | Op::SNE { reg_x, reg_y } => reg_x < 16 && reg_y < 16,
            Op::DRW { reg_x, reg_y, n } => reg_x < 16 && reg_y < 16 && n < 16,
        }
    }

    /// Decodes a word: the instruction of the pattern that the word
    /// matches, with the operands cut out of it, or `UnknownOpcode` with the
    /// word itself where it matches none.
    pub fn decode(opcode: &OpCode) -> (res: Result<Op, DecodeError>)
        ensures
            res == decode_word(opcode@),
            res matches Ok(op) ==> op.wf(),
    {
        let opcode = opcode.get_opcode();
        proof {
            lemma_fields(opcode);
        }
        match opcode & 0xF000 {
            0x0000 => match opcode & 0x0FFF {
                0x00E0 => Ok(Op::cls()),
                0x00EE => Ok(Op::ret()),
                _ => Ok(Op::sys(opcode)),
            },
            0x1000 => Ok(Op::jp(opcode)),
            0x2000 => Ok(Op::call(opcode)),
            0x3000 => Ok(Op::se(opcode)),
            0x4000 => Ok(Op::sne2(opcode)),
            0x5000 => Ok(Op::sev(opcode)),
            0x6000 => Ok(Op::ld(opcode)),
            0x7000 => Ok(Op::add(opcode)),
            0x8000 => match opcode & 0x000F {
                0x0000 => Ok(Op::ldr(opcode)),
                0x0001 => Ok(Op::or(opcode)),
                0x0002 => Ok(Op::and(opcode)),
                0x0003 => Ok(Op::xor(opcode)),
                0x0004 => Ok(Op::add2(opcode)),
                0x0005 => Ok(Op::sub(opcode)),
                0x0006 => Ok(Op::shr(opcode)),
                0x0007 => Ok(Op::subn(opcode)),
                0x000E => Ok(Op::shl(opcode)),
                _ => Err(DecodeError::UnknownOpcode(opcode)),
            },
            0x9000 => Ok(Op::sne(opcode)),
            0xA000 => Ok(Op::lda(opcode)),
            0xB000 => Ok(Op::jpv(opcode)),
            0xC000 => Ok(Op::rnd(opcode)),
            0xD000 => Ok(Op::drw(opcode)),
            0xE000 => match opcode & 0x00FF {
                0x009E => Ok(Op::skp(opcode)),
                0x00A1 => Ok(Op::sknp(opcode)),
                _ => Err(DecodeError::UnknownOpcode(opcode)),
            },
            _ => match opcode & 0x00FF {
                0x0007 => Ok(Op::ldt(opcode)),
                0x000A => Ok(Op::ldk(opcode)),
                0x0015 => Ok(Op::ldf(opcode)),
                0x0018 => Ok(Op::lds(opcode)),
                0x001E => Ok(Op::addi(opcode)),
                0x0029 => Ok(Op::ldx(opcode)),
                0x0033 => Ok(Op::ldb(opcode)),
                0x0055 => Ok(Op::ldi(opcode)),
                0x0065 => Ok(Op::ldj(opcode)),
                _ => Err(DecodeError::UnknownOpcode(opcode)),
            },
        }
    }

    fn sys(opcode: u16) -> (op: Op)
        ensures
            op == (Op::SYS { address: address_of(opcode) }),
            op.wf(),
    {
        Op::SYS { address: field_nnn(opcode) }
    }

    fn cls() -> (op: Op)
        ensures
            op == Op::CLS,
    {
        Op::CLS
    }

    fn ret() -> (op: Op)
        ensures
            op == Op::RET,
    {
        Op::RET
    }

    fn jp(opcode: u16) -> (op: Op)
        ensures
            op == (Op::JP { address: address_of(opcode) }),
            op.wf(),
    {
        Op::JP { address: field_nnn(opcode) }
    }

    fn call(opcode: u16) -> (op: Op)
        ensures
            op == (Op::CALL { address: address_of(opcode) }),
            op.wf(),
    {
        Op::CALL { address: field_nnn(opcode) }
    }

    fn se(opcode: u16) -> (op: Op)
        ensures
            op == (Op::SE { reg: reg_x_of(opcode), byte: byte_of(opcode) }),
            op.wf(),
    {
        Op::SE { reg: field_x(opcode), byte: field_kk(opcode) }
    }

    fn sne2(opcode: u16) -> (op: Op)
        ensures
            op == (Op::SNE2 { reg: reg_x_of(opcode), byte: byte_of(opcode) }),
            op.wf(),
    {
        Op::SNE2 { reg: field_x(opcode), byte: field_kk(opcode) }
    }

    fn sev(opcode: u16) -> (op: Op)
        ensures
            op == (Op::SEV { reg_x: reg_x_of(opcode), reg_y: reg_y_of(opcode) }),
            op.wf(),
    {
        Op::SEV { reg_x: field_x(opcode), reg_y: field_y(opcode) }
    }

    fn ld(opcode: u16) -> (op: Op)
        ensures
            op == (Op::LD { reg: reg_x_of(opcode), byte: byte_of(opcode) }),
            op.wf(),
    {
        Op::LD { reg: field_x(opcode), byte: field_kk(opcode) }
    }

    fn add(opcode: u16) -> (op: Op)
        ensures
            op == (Op::ADD { reg: reg_x_of(opcode), byte: byte_of(opcode) }),
            op.wf(),
    {
        Op::ADD { reg: field_x(opcode), byte: field_kk(opcode) }
    }

    fn ldr(opcode: u16) -> (op: Op)
        ensures
            op == (Op::LDR { reg_x: reg_x_of(opcode), reg_y: reg_y_of(opcode) }),
            op.wf(),
    {
        Op::LDR { reg_x: field_x(opcode), reg_y: field_y(opcode) }
    }

    fn or(opcode: u16) -> (op: Op)
        ensures
            op == (Op::OR { reg_x: reg_x_of(opcode), reg_y: reg_y_of(opcode) }),
            op.wf(),
    {
        Op::OR { reg_x: field_x(opcode), reg_y: field_y(opcode) }
    }

    fn and(opcode: u16) -> (op: Op)
        ensures
            op == (Op::AND { reg_x: reg_x_of(opcode), reg_y: reg_y_of(opcode) }),
            op.wf(),
    {
        Op::AND { reg_x: field_x(opcode), reg_y: field_y(opcode) }
    }

    fn xor(opcode: u16) -> (op: Op)
        ensures
            op == (Op::XOR { reg_x: reg_x_of(opcode), reg_y: reg_y_of(opcode) }),
            op.wf(),
    {
        Op::XOR { reg_x: field_x(opcode), reg_y: field_y(opcode) }
    }

    fn add2(opcode: u16) -> (op: Op)
        ensures
            op == (Op::ADD2 { reg_x: reg_x_of(opcode), reg_y: reg_y_of(opcode) }),
            op.wf(),
    {
        Op::ADD2 { reg_x: field_x(opcode), reg_y: field_y(opcode) }
    }

    fn sub(opcode: u16) -> (op: Op)
        ensures
            op == (Op::SUB { reg_x: reg_x_of(opcode), reg_y: reg_y_of(opcode) }),
            op.wf(),
    {
        Op::SUB { reg_x: field_x(opcode), reg_y: field_y(opcode) }
    }

    fn shr(opcode: u16) -> (op: Op)
        ensures
            op == (Op::SHR { reg_x: reg_x_of(opcode), reg_y: reg_y_of(opcode) }),
            op.wf(),
    {
        Op::SHR { reg_x: field_x(opcode), reg_y: field_y(opcode) }
    }

    fn subn(opcode: u16) -> (op: Op)
        ensures
            op == (Op::SUBN { reg_x: reg_x_of(opcode), reg_y: reg_y_of(opcode) }),
            op.wf(),
    {
        Op::SUBN { reg_x: field_x(opcode), reg_y: field_y(opcode) }
    }

    fn shl(opcode: u16) -> (op: Op)
        ensures
            op == (Op::SHL { reg_x: reg_x_of(opcode), reg_y: reg_y_of(opcode) }),
            op.wf(),
    {
        Op::SHL { reg_x: field_x(opcode), reg_y: field_y(opcode) }
    }

    fn sne(opcode: u16) -> (op: Op)
        ensures
            op == (Op::SNE { reg_x: reg_x_of(opcode), reg_y: reg_y_of(opcode) }),
            op.wf(),
    {
        Op::SNE { reg_x: field_x(opcode), reg_y: field_y(opcode) }
    }

    fn lda(opcode: u16) -> (op: Op)
        ensures
            op == (Op::LDA { address: address_of(opcode) }),
            op.wf(),
    {
        Op::LDA { address: field_nnn(opcode) }
    }

    fn jpv(opcode: u16) -> (op: Op)
        ensures
            op == (Op::JPV { address: address_of(opcode) }),
            op.wf(),
    {
        Op::JPV { address: field_nnn(opcode) }
    }

    fn rnd(opcode: u16) -> (op: Op)
        ensures
            op == (Op::RND { reg: reg_x_of(opcode), byte: byte_of(opcode) }),
            op.wf(),
    {
        Op::RND { reg: field_x(opcode), byte: field_kk(opcode) }
    }

    fn drw(opcode: u16) -> (op: Op)
        ensures
            op == (Op::DRW {
                reg_x: reg_x_of(opcode),
                reg_y: reg_y_of(opcode),
                n: nibble_of(opcode),
            }),
            op.wf(),
    {
        Op::DRW { reg_x: field_x(opcode), reg_y: field_y(opcode), n: field_n(opcode) }
    }

    fn skp(opcode: u16) -> (op: Op)
        ensures
            op == (Op::SKP { reg: reg_x_of(opcode) }),
            op.wf(),
    {
        Op::SKP { reg: field_x(opcode) }
    }

    fn sknp(opcode: u16) -> (op: Op)
        ensures
            op == (Op::SKNP { reg: reg_x_of(opcode) }),
            op.wf(),
    {
        Op::SKNP { reg: field_x(opcode) }
    }

    fn ldt(opcode: u16) -> (op: Op)
        ensures
            op == (Op::LDT { reg: reg_x_of(opcode) }),
            op.wf(),
    {
        Op::LDT { reg: field_x(opcode) }
    }

    fn ldk(opcode: u16) -> (op: Op)
        ensures
            op == (Op::LDK { reg: reg_x_of(opcode) }),
            op.wf(),
    {
        Op::LDK { reg: field_x(opcode) }
    }

    fn ldf(opcode: u16) -> (op: Op)
        ensures
            op == (Op::LDF { reg: reg_x_of(opcode) }),
            op.wf(),
    {
        Op::LDF { reg: field_x(opcode) }
    }

    fn lds(opcode: u16) -> (op: Op)
        ensures
            op == (Op::LDS { reg: reg_x_of(opcode) }),
            op.wf(),
    {
        Op::LDS { reg: field_x(opcode) }
    }

    fn addi(opcode: u16) -> (op: Op)
        ensures
            op == (Op::ADDI { reg: reg_x_of(opcode) }),
            op.wf(),
    {
        Op::ADDI { reg: field_x(opcode) }
    }

    fn ldx(opcode: u16) -> (op: Op)
        ensures
            op == (Op::LDX { reg: reg_x_of(opcode) }),
            op.wf(),
    {
        Op::LDX { reg: field_x(opcode) }
    }

    fn ldb(opcode: u16) -> (op: Op)
        ensures
            op == (Op::LDB { reg: reg_x_of(opcode) }),
            op.wf(),
    {
        Op::LDB { reg: field_x(opcode) }
    }

    fn ldi(opcode: u16) -> (op: Op)
        ensures
            op == (Op::LDI { reg: reg_x_of(opcode) }),
            op.wf(),
    {
        Op::LDI { reg: field_x(opcode) }
    }

    fn ldj(opcode: u16) -> (op: Op)
        ensures
            op == (Op::LDJ { reg: reg_x_of(opcode) }),
            op.wf(),
    {
        Op::LDJ { reg: field_x(opcode) }
    }
}

} // verus!
