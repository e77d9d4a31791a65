use crate::chip8::display::{visible_rows, Screen};
use crate::chip8::keyboard::{KeyWait, Keypad};
use crate::chip8::memory::{word_at, MEMORY_SIZE, PROGRAM_START};
use crate::chip8::operation::{decode_word, lemma_decode_sound, Op};
use crate::chip8::settings::Settings;
use crate::error::CpuError;
use vstd::prelude::*;

verus! {

/// The processor has sixteen general registers, `V0` to `VF`.
pub const REGISTER_COUNT: usize = 16;

/// The call stack holds sixteen return addresses.
pub const STACK_DEPTH: usize = 16;

/// `VF` doubles as the flag that several instructions set.
pub const FLAG_REGISTER: usize = 0xF;

/// An instruction is two bytes long.
pub const INSTRUCTION_SIZE: u16 = 2;

/// What the processor holds.
#[verifier::ext_equal]
pub struct Registers {
    /// The general registers `V0` to `VF`.
    pub v: Seq<u8>,
    /// The index register `I`.
    pub i: u16,
    /// The delay timer.
    pub dt: u8,
    /// The sound timer.
    pub st: u8,
    /// The program counter.
    pub pc: u16,
    /// The number of return addresses on the stack.
    pub sp: u8,
    /// The call stack; its entries below `sp` are return addresses.
    pub stack: Seq<u16>,
}

/// The instruction that a cycle carried out, for those who want to trace
/// the run.
#[derive(Debug, Clone, Copy, PartialEq, Eq)]
pub struct Executed {
    /// The address that the instruction was fetched from.
    pub address: u16,
    /// The word that was fetched.
    pub opcode: u16,
    /// The instruction that the word stands for.
    pub op: Op,
}

impl Registers {
    /// Sixteen registers, sixteen stack entries, and no more return
    /// addresses than the stack can hold.
    pub open spec fn wf(self) -> bool {
        self.v.len() == REGISTER_COUNT && self.stack.len() == STACK_DEPTH && self.sp <= STACK_DEPTH
    }

    /// The registers of a machine that was just switched on: all zero, and
    /// the program counter at the load address.
    pub open spec fn reset() -> Registers {
        Registers {
            v: Seq::new(REGISTER_COUNT as nat, |r: int| 0u8),
            i: 0,
            dt: 0,
            st: 0,
            pc: PROGRAM_START,
            sp: 0,
            stack: Seq::new(STACK_DEPTH as nat, |r: int| 0u16),
        }
    }

    /// One step of the delay timer: down by one, but not below zero.
    pub open spec fn delay_ticked(self) -> Registers {
        Registers {
            dt: if self.dt > 0 {
                (self.dt - 1) as u8
            } else {
                0
            },
            ..self
        }
    }

    /// One step of the sound timer: down by one, but not below zero.
    pub open spec fn sound_ticked(self) -> Registers {
        Registers {
            st: if self.st > 0 {
                (self.st - 1) as u8
            } else {
                0
            },
            ..self
        }
    }

    /// With register `reg` set to `value`.
    pub open spec fn set_v(self, reg: u8, value: u8) -> Registers {
        Registers { v: self.v.update(reg as int, value), ..self }
    }

    /// With the flag register set to 1 or 0.
    pub open spec fn set_flag(self, on: bool) -> Registers {
        Registers {
            v: self.v.update(
                FLAG_REGISTER as int,
                if on {
                    1u8
                } else {
                    0u8
                },
            ),
            ..self
        }
    }

    /// With the program counter behind the next instruction if `skip`.
    pub open spec fn skip_if(self, skip: bool) -> Registers {
        Registers {
            pc: if skip {
                (self.pc + INSTRUCTION_SIZE) as u16
            } else {
                self.pc
            },
            ..self
        }
    }

    /// With the program counter behind the instruction that it points at.
    pub open spec fn advanced(self) -> Registers {
        Registers { pc: (self.pc + INSTRUCTION_SIZE) as u16, ..self }
    }

    /// `RET`: the topmost return address leaves the stack and becomes the
    /// program counter.
    pub open spec fn ret(self) -> Registers {
        Registers { sp: (self.sp - 1) as u8, pc: self.stack[self.sp - 1], ..self }
    }

    /// `JP`: the program counter is set.
    pub open spec fn jp(self, address: u16) -> Registers {
        Registers { pc: address, ..self }
    }

    /// `CALL`: the program counter goes onto the stack and is set.
    pub open spec fn call(self, address: u16) -> Registers {
        Registers {
            stack: self.stack.update(self.sp as int, self.pc),
            sp: (self.sp + 1) as u8,
            pc: address,
            ..self
        }
    }

    /// `SE`: skip if the register holds the byte.
    pub open spec fn se(self, reg: u8, byte: u8) -> Registers {
        self.skip_if(self.v[reg as int] == byte)
    }

    /// `SNE2`: skip if the register does not hold the byte.
    pub open spec fn sne2(self, reg: u8, byte: u8) -> Registers {
        self.skip_if(self.v[reg as int] != byte)
    }

    /// `SEV`: skip if the two registers hold the same.
    pub open spec fn sev(self, reg_x: u8, reg_y: u8) -> Registers {
        self.skip_if(self.v[reg_x as int] == self.v[reg_y as int])
    }

    /// `SNE`: skip if the two registers differ.
    pub open spec fn sne(self, reg_x: u8, reg_y: u8) -> Registers {
        self.skip_if(self.v[reg_x as int] != self.v[reg_y as int])
    }

    /// `LD`: the register is set to the byte.
    pub open spec fn ld(self, reg: u8, byte: u8) -> Registers {
        self.set_v(reg, byte)
    }

    /// `ADD`: the byte is added to the register modulo 256; the flag stays.
    pub open spec fn add(self, reg: u8, byte: u8) -> Registers {
        self.set_v(reg, ((self.v[reg as int] + byte) % 256) as u8)
    }

    /// `LDR`: `Vx` is set to `Vy`.
    pub open spec fn ldr(self, reg_x: u8, reg_y: u8) -> Registers {
        self.set_v(reg_x, self.v[reg_y as int])
    }

    /// `OR`: `Vy` is or-ed into `Vx`; the flag stays.
    pub open spec fn or(self, reg_x: u8, reg_y: u8) -> Registers {
        self.set_v(reg_x, self.v[reg_x as int] | self.v[reg_y as int])
    }

    /// `AND`: `Vy` is and-ed into `Vx`; the flag stays.
    pub open spec fn and(self, reg_x: u8, reg_y: u8) -> Registers {
        self.set_v(reg_x, self.v[reg_x as int] & self.v[reg_y as int])
    }

    /// `XOR`: `Vy` is xor-ed into `Vx`; the flag stays.
    pub open spec fn xor(self, reg_x: u8, reg_y: u8) -> Registers {
        self.set_v(reg_x, self.v[reg_x as int] ^ self.v[reg_y as int])
    }

    /// `ADD2`: `Vy` is added to `Vx` modulo 256, and the flag says whether
    /// the sum passed 255. Where `Vx` is the flag register, the flag wins.
    pub open spec fn add2(self, reg_x: u8, reg_y: u8) -> Registers {
        let sum = self.v[reg_x as int] + self.v[reg_y as int];
        self.set_v(reg_x, (sum % 256) as u8).set_flag(sum > 255)
    }

    /// `SUB`: `Vy` is subtracted from `Vx` modulo 256, and the flag says
    /// that nothing was borrowed: that `Vx` was at least `Vy`.
    pub open spec fn sub(self, reg_x: u8, reg_y: u8) -> Registers {
        let x = self.v[reg_x as int];
        let y = self.v[reg_y as int];
        self.set_v(reg_x, ((x - y) % 256) as u8).set_flag(x >= y)
    }

    /// `SUBN`: `Vx` is set to `Vy - Vx` modulo 256, and the flag says that
    /// nothing was borrowed: that `Vy` was at least `Vx`.
    pub open spec fn subn(self, reg_x: u8, reg_y: u8) -> Registers {
        let x = self.v[reg_x as int];
        let y = self.v[reg_y as int];
        self.set_v(reg_x, ((y - x) % 256) as u8).set_flag(y >= x)
    }

    /// The register that a shift reads: `Vx` itself where shifts ignore
    /// `Vy`, else `Vy`.
    pub open spec fn shift_source(self, reg_x: u8, reg_y: u8, settings: Settings) -> u8 {
        if settings.shift_vx_ignore_vy {
            self.v[reg_x as int]
        } else {
            self.v[reg_y as int]
        }
    }

    /// `SHR`: the flag is the lowest bit of the source as it was, and `Vx`
    /// is the source halved. Where `Vx` is the flag register, `Vx` wins.
    pub open spec fn shr(self, reg_x: u8, reg_y: u8, settings: Settings) -> Registers {
        let source = self.shift_source(reg_x, reg_y, settings);
        self.set_flag(source % 2 == 1).set_v(reg_x, source / 2)
    }

    /// `SHL`: the flag is the highest bit of the source as it was, and `Vx`
    /// is the source doubled modulo 256. Where `Vx` is the flag register,
    /// `Vx` wins.
    pub open spec fn shl(self, reg_x: u8, reg_y: u8, settings: Settings) -> Registers {
        let source = self.shift_source(reg_x, reg_y, settings);
        self.set_flag(source >= 128).set_v(reg_x, ((source * 2) % 256) as u8)
    }

    /// `LDA`: the index register is set.
    pub open spec fn lda(self, address: u16) -> Registers {
        Registers { i: address, ..self }
    }

    /// `JPV`: the program counter is set to the address plus `V0`.
    pub open spec fn jpv(self, address: u16) -> Registers {
        Registers { pc: (self.v[0] + address) as u16, ..self }
    }

    /// `RND`: the register is set to the random byte masked with the byte
    /// of the instruction.
    pub open spec fn rnd(self, reg: u8, byte: u8, random: u8) -> Registers {
        self.set_v(reg, byte & random)
    }

    /// The rows of the sprite that `DRW` draws: as many bytes from the
    /// index register on as rows of the sprite are drawn.
    pub open spec fn sprite(self, reg_y: u8, n: u8, memory: Seq<u8>, settings: Settings) -> Seq<u8> {
        memory.subrange(
            self.i as int,
            self.i + visible_rows(self.v[reg_y as int] as int, n as int, settings.vertical_wrap),
        )
    }

    /// `SKP` and `SKNP`: skip if the key that the register names is down,
    /// or is up.
    pub open spec fn skip_on_key(self, reg: u8, keys: Seq<bool>, down: bool) -> Registers {
        self.skip_if(keys[self.v[reg as int] as int] == down)
    }

    /// `LDT`: the register is set to the delay timer.
    pub open spec fn ldt(self, reg: u8) -> Registers {
        self.set_v(reg, self.dt)
    }

    /// `LDK`: where the poll of the keypad handed out a key, the register
    /// is set to it; where it handed out none, the program counter goes
    /// back to this instruction, which so runs again in the next cycle.
    pub open spec fn ldk(self, reg: u8, polled: Option<u8>) -> Registers {
        match polled {
            Some(key) => self.set_v(reg, key),
            None => Registers { pc: (self.pc - INSTRUCTION_SIZE) as u16, ..self },
        }
    }

    /// `LDF`: the delay timer is set to the register.
    pub open spec fn ldf(self, reg: u8) -> Registers {
        Registers { dt: self.v[reg as int], ..self }
    }

    /// `LDS`: the sound timer is set to the register.
    pub open spec fn lds(self, reg: u8) -> Registers {
        Registers { st: self.v[reg as int], ..self }
    }

    /// `ADDI`: the register is added to the index register modulo 65536;
    /// where the settings ask for it, the flag says whether the sum passed
    /// 65535.
    pub open spec fn addi(self, reg: u8, settings: Settings) -> Registers {
        let sum = self.i + self.v[reg as int];
        let added = Registers { i: (sum % 0x10000) as u16, ..self };
        if settings.set_vf_when_overflow {
            added.set_flag(sum > 0xFFFF)
        } else {
            added
        }
    }

    /// `LDX`: the index register is set to the address of the glyph for the
    /// digit in the register.
    pub open spec fn ldx(self, reg: u8) -> Registers {
        Registers { i: (self.v[reg as int] * 5) as u16, ..self }
    }

    /// `LDB`: memory with the hundreds, tens and ones of the register at
    /// `I`, `I + 1` and `I + 2`.
    pub open spec fn ldb(self, reg: u8, memory: Seq<u8>) -> Seq<u8> {
        let value = self.v[reg as int];
        memory.update(self.i as int, value / 100).update(self.i + 1, (value / 10) % 10).update(
            self.i + 2,
            value % 10,
        )
    }

    /// `LDI`: memory with `V0` to `Vreg` at `I` and the addresses after it.
    pub open spec fn ldi(self, reg: u8, memory: Seq<u8>) -> Seq<u8> {
        Seq::new(
            memory.len(),
            |a: int|
                if self.i <= a <= self.i + reg {
                    self.v[a - self.i]
                } else {
                    memory[a]
                },
        )
    }

    /// `LDJ`: the registers with `V0` to `Vreg` read from `I` and the
    /// addresses after it.
    pub open spec fn ldj(self, reg: u8, memory: Seq<u8>) -> Registers {
        Registers {
            v: Seq::new(
                self.v.len(),
                |r: int|
                    if r <= reg {
                        memory[self.i + r]
                    } else {
                        self.v[r]
                    },
            ),
            ..self
        }
    }

    /// After `LDI` and `LDJ`: where the settings ask for it, the index
    /// register is behind the last byte that was moved.
    pub open spec fn moved_on(self, reg: u8, settings: Settings) -> Registers {
        if settings.increment_i_register {
            Registers { i: (self.i + reg + 1) as u16, ..self }
        } else {
            self
        }
    }

    /// The error that ends the run in place of the instruction, if there
    /// is one: a return with an empty stack, a call with a full one, a
    /// test of a key that the keypad does not have, and a transfer that
    /// would leave memory.
    pub open spec fn fault(self, op: Op, settings: Settings) -> Option<CpuError> {
        match op {
            Op::RET => if self.sp == 0 {
                Some(CpuError::StackUnderflow)
            } else {
                None
            },
            Op::CALL { .. } => if self.sp >= STACK_DEPTH {
                Some(CpuError::StackOverflow)
            } else {
                None
            },
            Op::SKP { reg } | Op::SKNP { reg } => if self.v[reg as int] >= 16 {
                Some(CpuError::KeyOutOfRange { key: self.v[reg as int] })
            } else {
                None
            },
            Op::LDB { .. } => if self.i + 2 >= MEMORY_SIZE {
                Some(CpuError::MemoryOutOfBounds)
            } else {
                None
            },
            Op::LDI { reg } | Op::LDJ { reg } => if self.i + reg >= MEMORY_SIZE {
                Some(CpuError::MemoryOutOfBounds)
            } else {
                None
            },
            Op::DRW { reg_y, n, .. } => if self.i + visible_rows(
                self.v[reg_y as int] as int,
                n as int,
                settings.vertical_wrap,
            ) > MEMORY_SIZE {
                Some(CpuError::MemoryOutOfBounds)
            } else {
                None
            },
            _ => None,
        }
    }
}

/// The whole machine: the processor and what it works on.
#[verifier::ext_equal]
pub struct Machine {
    pub cpu: Registers,
    pub memory: Seq<u8>,
    pub display: Screen,
    pub keyboard: Keypad,
}

impl Machine {
    /// Every part has its size.
    pub open spec fn wf(self) -> bool {
        &&& self.cpu.wf()
        &&& self.memory.len() == MEMORY_SIZE
        &&& self.display.wf()
        &&& self.keyboard.wf()
    }

    /// The machine after an instruction, the program counter being behind
    /// the instruction already. `random` is the byte that `RND` draws; no
    /// other instruction looks at it.
    pub open spec fn after(self, op: Op, settings: Settings, random: u8) -> Machine {
        let cpu = self.cpu;
        match op {
            Op::SYS { .. } => self,
            Op::CLS => Machine { display: Screen::blank(true), ..self },
            Op::RET => Machine { cpu: cpu.ret(), ..self },
            Op::JP { address } => Machine { cpu: cpu.jp(address), ..self },
            Op::CALL { address } => Machine { cpu: cpu.call(address), ..self },
            Op::SE { reg, byte } => Machine { cpu: cpu.se(reg, byte), ..self },
            Op::SNE2 { reg, byte } => Machine { cpu: cpu.sne2(reg, byte), ..self },
            Op::SEV { reg_x, reg_y } => Machine { cpu: cpu.sev(reg_x, reg_y), ..self },
            Op::LD { reg, byte } => Machine { cpu: cpu.ld(reg, byte), ..self },
            Op::ADD { reg, byte } => Machine { cpu: cpu.add(reg, byte), ..self },
            Op::LDR { reg_x, reg_y } => Machine { cpu: cpu.ldr(reg_x, reg_y), ..self },
            Op::OR { reg_x, reg_y } => Machine { cpu: cpu.or(reg_x, reg_y), ..self },
            Op::AND { reg_x, reg_y } => Machine { cpu: cpu.and(reg_x, reg_y), ..self },
            Op::XOR { reg_x, reg_y } => Machine { cpu: cpu.xor(reg_x, reg_y), ..self },
            Op::ADD2 { reg_x, reg_y } => Machine { cpu: cpu.add2(reg_x, reg_y), ..self },
            Op::SUB { reg_x, reg_y } => Machine { cpu: cpu.sub(reg_x, reg_y), ..self },
            Op::SHR { reg_x, reg_y } => Machine { cpu: cpu.shr(reg_x, reg_y, settings), ..self },
            Op::SUBN { reg_x, reg_y } => Machine { cpu: cpu.subn(reg_x, reg_y), ..self },
            Op::SHL { reg_x, reg_y } => Machine { cpu: cpu.shl(reg_x, reg_y, settings), ..self },
            Op::SNE { reg_x, reg_y } => Machine { cpu: cpu.sne(reg_x, reg_y), ..self },
            Op::LDA { address } => Machine { cpu: cpu.lda(address), ..self },
            Op::JPV { address } => Machine { cpu: cpu.jpv(address), ..self },
            Op::RND { reg, byte } => Machine { cpu: cpu.rnd(reg, byte, random), ..self },
            Op::DRW { reg_x, reg_y, n } => {
                let sprite = cpu.sprite(reg_y, n, self.memory, settings);
                let x = cpu.v[reg_x as int] as int;
                let y = cpu.v[reg_y as int] as int;
                Machine {
                    cpu: cpu.set_flag(self.display.collides(x, y, sprite)),
                    display: self.display.blit(x, y, sprite),
                    ..self
                }
            },
            Op::SKP { reg } => Machine { cpu: cpu.skip_on_key(reg, self.keyboard.keys, true), ..self },
            Op::SKNP { reg } => Machine {
                cpu: cpu.skip_on_key(reg, self.keyboard.keys, false),
                ..self
            },
            Op::LDT { reg } => Machine { cpu: cpu.ldt(reg), ..self },
            Op::LDK { reg } => Machine {
                cpu: cpu.ldk(reg, self.keyboard.poll_result()),
                keyboard: self.keyboard.polled(),
                ..self
            },
            Op::LDF { reg } => Machine { cpu: cpu.ldf(reg), ..self },
            Op::LDS { reg } => Machine { cpu: cpu.lds(reg), ..self },
            Op::ADDI { reg } => Machine { cpu: cpu.addi(reg, settings), ..self },
            Op::LDX { reg } => Machine { cpu: cpu.ldx(reg), ..self },
            Op::LDB { reg } => Machine { memory: cpu.ldb(reg, self.memory), ..self },
            Op::LDI { reg } => Machine {
                cpu: cpu.moved_on(reg, settings),
                memory: cpu.ldi(reg, self.memory),
                ..self
            },
            Op::LDJ { reg } => Machine {
                cpu: cpu.ldj(reg, self.memory).moved_on(reg, settings),
                ..self
            },
        }
    }

    /// The instruction that the program counter points at, or the error
    /// that ends the run: the word does not lie in memory, or it is no
    /// instruction.
    pub open spec fn fetch(self) -> Result<Executed, CpuError> {
        if self.cpu.pc + 1 >= MEMORY_SIZE {
            Err(CpuError::MemoryOutOfBounds)
        } else {
            let opcode = word_at(self.memory, self.cpu.pc as int);
            match decode_word(opcode) {
                Ok(op) => Ok(Executed { address: self.cpu.pc, opcode, op }),
                Err(e) => Err(CpuError::Decode(e)),
            }
        }
    }

    /// One cycle: the machine after it and the instruction it carried out,
    /// or the machine as it was and the error that ended the run. The
    /// instruction is fetched and decoded, the program counter moves
    /// behind it, and then the instruction does its work.
    #[verifier::opaque]
    pub open spec fn step(self, settings: Settings, random: u8) -> (Machine, Result<
        Executed,
        CpuError,
    >) {
        match self.fetch() {
            Err(e) => (self, Err(e)),
            Ok(executed) => match self.cpu.fault(executed.op, settings) {
                Some(e) => (self, Err(e)),
                None => (
                    (Machine { cpu: self.cpu.advanced(), ..self }).after(
                        executed.op,
                        settings,
                        random,
                    ),
                    Ok(executed),
                ),
            },
        }
    }
}

impl Registers {
    /// `ADD2` loses nothing: the register and the flag together hold the
    /// whole sum, the flag counting 256.
    pub proof fn lemma_add2_keeps_sum(self, reg_x: u8, reg_y: u8)
        requires
            self.wf(),
            reg_x < FLAG_REGISTER,
            reg_y < REGISTER_COUNT,
        ensures
            ({
                let added = self.add2(reg_x, reg_y);
                added.v[reg_x as int] + 256 * added.v[FLAG_REGISTER as int] == self.v[reg_x as int]
                    + self.v[reg_y as int]
            }),
    {
    }

    /// `SUB` loses nothing: the register holds the difference, with 256
    /// added to it exactly where the flag says that there was a borrow.
    pub proof fn lemma_sub_keeps_difference(self, reg_x: u8, reg_y: u8)
        requires
            self.wf(),
            reg_x < FLAG_REGISTER,
            reg_y < REGISTER_COUNT,
        ensures
            ({
                let subtracted = self.sub(reg_x, reg_y);
                subtracted.v[reg_x as int] == self.v[reg_x as int] - self.v[reg_y as int] + 256
                    * (1 - subtracted.v[FLAG_REGISTER as int])
            }),
    {
    }

    /// What `LDB` stores are the decimal digits of the register: three
    /// bytes from 0 to 9 that make up its value, hundreds first. No other
    /// byte of memory changes.
    pub proof fn lemma_bcd_digits(self, reg: u8, memory: Seq<u8>)
        requires
            self.i + 2 < memory.len(),
        ensures
            ({
                let stored = self.ldb(reg, memory);
                let i = self.i as int;
                &&& stored.len() == memory.len()
                &&& stored[i] <= 9 && stored[i + 1] <= 9 && stored[i + 2] <= 9
                &&& 100 * stored[i] + 10 * stored[i + 1] + stored[i + 2] == self.v[reg as int]
                &&& forall|a: int|
                    0 <= a < memory.len() && !(i <= a <= i + 2) ==> stored[a] == memory[a]
            }),
    {
    }
}

impl Machine {
    /// An instruction that has no fault keeps every part of the machine
    /// at its size, and the stack within its sixteen entries.
    #[verifier::rlimit(50)]
    pub proof fn lemma_after_keeps_wf(self, op: Op, settings: Settings, random: u8)
        requires
            self.wf(),
            op.wf(),
            self.cpu.fault(op, settings) is None,
        ensures
            self.after(op, settings, random).wf(),
    {
        match op {
            Op::DRW { reg_x, reg_y, n } => {
                self.display.lemma_blit_keeps_size(
                    self.cpu.v[reg_x as int] as int,
                    self.cpu.v[reg_y as int] as int,
                    self.cpu.sprite(reg_y, n, self.memory, settings),
                );
            },
            _ => {},
        }
    }

    /// A cycle keeps every part of the machine at its size, and the stack
    /// within its sixteen entries, whether it succeeds or fails.
    pub proof fn lemma_step_keeps_wf(self, settings: Settings, random: u8)
        requires
            self.wf(),
        ensures
            self.step(settings, random).0.wf(),
    {
        reveal(Machine::step);
        match self.fetch() {
            Ok(executed) => {
                lemma_decode_sound(executed.opcode);
                if self.cpu.fault(executed.op, settings) is None {
                    (Machine { cpu: self.cpu.advanced(), ..self }).lemma_after_keeps_wf(
                        executed.op,
                        settings,
                        random,
                    );
                }
            },
            Err(_) => {},
        }
    }

    /// Whether the instruction at the program counter is `LDK` into `reg`.
    pub open spec fn waits_for_key(self, reg: u8) -> bool {
        self.fetch() matches Ok(executed) && executed.op == (Op::LDK { reg })
    }

    /// A wait for a key stalls the program: a cycle at an `LDK`, with no
    /// key held for the wait, leaves the machine as it was but that the
    /// wait is started. So the cycle after it is at the same `LDK`.
    #[verifier::rlimit(50)]
    pub proof fn lemma_key_wait_stalls(self, reg: u8, settings: Settings, random: u8)
        requires
            self.wf(),
            self.waits_for_key(reg),
            !(self.keyboard.wait is Captured),
        ensures
            ({
                let (next, res) = self.step(settings, random);
                &&& res is Ok
                &&& next == (Machine {
                    keyboard: Keypad { wait: KeyWait::Armed, ..self.keyboard },
                    ..self
                })
                &&& next.wf()
                &&& next.waits_for_key(reg)
                &&& !(next.keyboard.wait is Captured)
            }),
    {
        reveal(Machine::step);
    }

    /// Two cycles in a row at an `LDK`, with no key pressed, leave the
    /// program counter where it was: each moves it on by one instruction
    /// and back again.
    pub proof fn lemma_key_wait_two_cycles(
        self,
        reg: u8,
        settings: Settings,
        first_random: u8,
        second_random: u8,
    )
        requires
            self.wf(),
            self.waits_for_key(reg),
            !(self.keyboard.wait is Captured),
        ensures
            ({
                let (first, first_res) = self.step(settings, first_random);
                let (second, second_res) = first.step(settings, second_random);
                &&& first_res is Ok && second_res is Ok
                &&& first.cpu == self.cpu
                &&& second.cpu == self.cpu
                &&& second == first
            }),
    {
        self.lemma_key_wait_stalls(reg, settings, first_random);
        let (first, first_res) = self.step(settings, first_random);
        first.lemma_key_wait_stalls(reg, settings, second_random);
    }

    /// A key press ends the wait: once a wait is started and a key goes
    /// down, the cycle at the `LDK` puts the key in the register, ends the
    /// wait, and leaves the program counter behind the `LDK`.
    #[verifier::rlimit(50)]
    pub proof fn lemma_key_wait_resumes(self, reg: u8, key: u8, settings: Settings, random: u8)
        requires
            self.wf(),
            self.waits_for_key(reg),
            !(self.keyboard.wait is Idle),
        ensures
            ({
                let pressed = Machine { keyboard: self.keyboard.pressed(key), ..self };
                let (next, res) = pressed.step(settings, random);
                &&& res is Ok
                &&& next.cpu == self.cpu.advanced().set_v(reg, key)
                &&& next.keyboard == (Keypad {
                    keys: self.keyboard.keys.update(key as int, true),
                    wait: KeyWait::Idle,
                })
                &&& next.memory == self.memory
                &&& next.display == self.display
            }),
    {
        reveal(Machine::step);
    }
}

} // verus!
