use crate::chip8::display::{visible_rows, Display};
use crate::chip8::keyboard::KeyBoard;
use crate::chip8::machine::{
    Executed, Machine, Registers, FLAG_REGISTER, INSTRUCTION_SIZE, REGISTER_COUNT, STACK_DEPTH,
};
use crate::chip8::memory::{Memory, MEMORY_SIZE, PROGRAM_START};
use crate::chip8::operation::Op;
use crate::chip8::settings::Settings;
use crate::error::CpuError;
use rand::Rng;
use vstd::prelude::*;

verus! {

/// A byte from `rand::thread_rng().gen_range(0..=255)`: the thread's
/// generator, seeded by the system, samples the whole range of a byte.
/// Which byte comes is left open, so nothing is claimed of it.
#[verifier::external_body]
fn random_byte() -> u8 {
    rand::thread_rng().gen_range(0..=255)
}

/// The machine that four parts make up.
pub open spec fn machine(cpu: Cpu, memory: Memory, display: Display, keyboard: KeyBoard) -> Machine {
    Machine { cpu: cpu@, memory: memory@, display: display@, keyboard: keyboard@ }
}

/// The processor.
pub struct Cpu {
    v: [u8; REGISTER_COUNT],
    i: u16,
    dt: u8,
    st: u8,
    pc: u16,
    sp: u8,
    stack: [u16; STACK_DEPTH],
}

impl View for Cpu {
    type V = Registers;

    closed spec fn view(&self) -> Registers {
        Registers {
            v: self.v@,
            i: self.i,
            dt: self.dt,
            st: self.st,
            pc: self.pc,
            sp: self.sp,
            stack: self.stack@,
        }
    }
}

impl Cpu {
    /// A processor that was just switched on.
    pub fn new() -> (cpu: Cpu)
        ensures
            cpu@ == Registers::reset(),
            cpu@.wf(),
    {
        let cpu = Cpu {
            v: [0;REGISTER_COUNT],
            i: 0,
            dt: 0,
            st: 0,
            pc: PROGRAM_START,
            sp: 0,
            stack: [0;STACK_DEPTH],
        };
        assert(cpu@.v =~= Registers::reset().v);
        assert(cpu@.stack =~= Registers::reset().stack);
        cpu
    }

    /// The value of a general register.
    pub fn register(&self, reg: u8) -> (value: u8)
        requires
            reg < REGISTER_COUNT,
        ensures
            value == self@.v[reg as int],
    {
        self.v[reg as usize]
    }

    /// The index register.
    pub fn index(&self) -> (i: u16)
        ensures
            i == self@.i,
    {
        self.i
    }

    /// The program counter.
    pub fn program_counter(&self) -> (pc: u16)
        ensures
            pc == self@.pc,
    {
        self.pc
    }

    /// The number of return addresses on the stack.
    pub fn stack_pointer(&self) -> (sp: u8)
        ensures
            sp == self@.sp,
    {
        self.sp
    }

    /// The delay timer.
    pub fn delay_timer(&self) -> (dt: u8)
        ensures
            dt == self@.dt,
    {
        self.dt
    }

    /// The sound timer.
    pub fn sound_timer(&self) -> (st: u8)
        ensures
            st == self@.st,
    {
        self.st
    }

    /// One step of the delay timer.
    pub fn cycle_dt(&mut self)
        ensures
            final(self)@ == old(self)@.delay_ticked(),
    {
        if self.dt > 0 {
            self.dt -= 1;
        }
    }

    /// One step of the sound timer; says whether the timer still runs,
    /// which is when a tone should sound.
    pub fn cycle_st(&mut self) -> (sounding: bool)
        ensures
            final(self)@ == old(self)@.sound_ticked(),
            sounding == (final(self)@.st > 0),
    {
        if self.st > 0 {
            self.st -= 1;
        }
        self.st > 0
    }

    /// One cycle: fetches the instruction at the program counter, decodes
    /// it, moves the program counter behind it and carries it out.
    ///
    /// Returns the instruction that was carried out, or the error that
    /// ends the run, with every part of the machine as it was. The byte
    /// that `RND` draws is left open: the outcome is that of the cycle for
    /// some byte.
    #[verifier::rlimit(50)]
    pub fn pipeline_operation(
        &mut self,
        memory: &mut Memory,
        display: &mut Display,
        keyboard: &mut KeyBoard,
        settings: &Settings,
    ) -> (res: Result<Executed, CpuError>)
        requires
            old(self)@.wf(),
        ensures
            final(self)@.wf(),
            exists|random: u8|
                (machine(*final(self), *final(memory), *final(display), *final(keyboard)), res)
                    == #[trigger] machine(
                    *old(self),
                    *old(memory),
                    *old(display),
                    *old(keyboard),
                ).step(*settings, random),
    {
        let ghost before = machine(*self, *memory, *display, *keyboard);
        proof {
            reveal(Machine::step);
            memory.lemma_len();
        }
        if self.pc >= (MEMORY_SIZE - 1) as u16 {
            assert((before, Err::<Executed, CpuError>(CpuError::MemoryOutOfBounds)) == before.step(
                *settings,
                0,
            ));
            return Err(CpuError::MemoryOutOfBounds);
        }
        // read the two bytes of the instruction at the program counter
        let opcode = memory.read16(self.pc);

        // decode the instruction
        let op = match Op::decode(&opcode) {
            Ok(op) => op,
            Err(e) => {
                assert((before, Err::<Executed, CpuError>(CpuError::Decode(e))) == before.step(
                    *settings,
                    0,
                ));
                return Err(CpuError::Decode(e));
            },
        };
        if let Some(e) = self.fault(&op, settings) {
            assert((before, Err::<Executed, CpuError>(e)) == before.step(*settings, 0));
            return Err(e);
        }
        let executed = Executed { address: self.pc, opcode: opcode.get_opcode(), op };

        // move the program counter on
        self.pc += INSTRUCTION_SIZE;

        let ghost fetched = machine(*self, *memory, *display, *keyboard);
        let ghost mut random: u8 = 0;
        assert(fetched == (Machine { cpu: before.cpu.advanced(), ..before }));
        assert(before.fetch() == Ok::<Executed, CpuError>(executed));
        match op {
            Op::SYS { address } => self.sys(address),
            Op::CLS => self.cls(display),
            Op::RET => self.ret(),
            Op::JP { address } => self.jp(address),
            Op::CALL { address } => self.call(address),
            Op::SE { reg, byte } => self.se(reg, byte),
            Op::SNE2 { reg, byte } => self.sne2(reg, byte),
            Op::SEV { reg_x, reg_y } => self.sev(reg_x, reg_y),
            Op::LD { reg, byte } => self.ld(reg, byte),
            Op::ADD { reg, byte } => self.add(reg, byte),
            Op::LDR { reg_x, reg_y } => self.ldr(reg_x, reg_y),
            Op::OR { reg_x, reg_y } => self.or(reg_x, reg_y),
            Op::AND { reg_x, reg_y } => self.and(reg_x, reg_y),
            Op::XOR { reg_x, reg_y } => self.xor(reg_x, reg_y),
            Op::ADD2 { reg_x, reg_y } => self.add2(reg_x, reg_y),
            Op::SUB { reg_x, reg_y } => self.sub(reg_x, reg_y),
            Op::SHR { reg_x, reg_y } => self.shr(reg_x, reg_y, settings),
            Op::SUBN { reg_x, reg_y } => self.subn(reg_x, reg_y),
            Op::SHL { reg_x, reg_y } => self.shl(reg_x, reg_y, settings),
            Op::SNE { reg_x, reg_y } => self.sne(reg_x, reg_y),
            Op::LDA { address } => self.lda(address),
            Op::JPV { address } => self.jpv(address),
            Op::RND { reg, byte } => {
                self.rnd(reg, byte);
                proof {
                    random = choose|random: u8| self@ == fetched.cpu.rnd(reg, byte, random);
                }
            },
            Op::DRW { reg_x, reg_y, n } => self.drw(reg_x, reg_y, n, memory, display, settings),
            Op::SKP { reg } => self.skp(reg, keyboard),
            Op::SKNP { reg } => self.sknp(reg, keyboard),
            Op::LDT { reg } => self.ldt(reg),
            Op::LDK { reg } => self.ldk(reg, keyboard),
            Op::LDF { reg } => self.ldf(reg),
            Op::LDS { reg } => self.lds(reg),
            Op::ADDI { reg } => self.addi(reg, settings),
            Op::LDX { reg } => self.ldx(reg),
            Op::LDB { reg } => self.ldb(reg, memory),
            Op::LDI { reg } => self.ldi(reg, memory, settings),
            Op::LDJ { reg } => self.ldj(reg, memory, settings),
        }
        proof {
            let reached = machine(*self, *memory, *display, *keyboard);
            assert(reached == fetched.after(op, *settings, random));
            assert((reached, Ok::<Executed, CpuError>(executed)) == before.step(*settings, random));
        }
        Ok(executed)
    }

    /// Sets a register to a random byte masked with the byte of the
    /// instruction, the random byte being given.
    pub fn rnd_with(&mut self, reg: u8, byte: u8, random: u8)
        requires
            reg < REGISTER_COUNT,
        ensures
            final(self)@ == old(self)@.rnd(reg, byte, random),
    {
        self.v[reg as usize] = byte & random;
    }

    /// The error that ends the run in place of the instruction, if any.
    fn fault(&self, op: &Op, settings: &Settings) -> (res: Option<CpuError>)
        requires
            op.wf(),
        ensures
            res == self@.fault(*op, *settings),
    {
        match *op {
            Op::RET => if self.sp == 0 {
                Some(CpuError::StackUnderflow)
            } else {
                None
            },
            Op::CALL { .. } => if self.sp as usize >= STACK_DEPTH {
                Some(CpuError::StackOverflow)
            } else {
                None
            },
            Op::SKP { reg } | Op::SKNP { reg } => {
                let key = self.v[reg as usize];
                if key >= 16 {
                    Some(CpuError::KeyOutOfRange { key })
                } else {
                    None
                }
            },
            Op::LDB { .. } => if self.i as usize + 2 >= MEMORY_SIZE {
                Some(CpuError::MemoryOutOfBounds)
            } else {
                None
            },
            Op::LDI { reg } | Op::LDJ { reg } => if self.i as usize + reg as usize >= MEMORY_SIZE {
                Some(CpuError::MemoryOutOfBounds)
            } else {
                None
            },
            Op::DRW { reg_y, n, .. } => {
                let rows = Display::visible_rows(
                    self.v[reg_y as usize] as usize,
                    n as usize,
                    settings.vertical_wrap,
                );
                if self.i as usize + rows > MEMORY_SIZE {
                    Some(CpuError::MemoryOutOfBounds)
                } else {
                    None
                }
            },
            _ => None,
        }
    }

    fn sys(&mut self, _address: u16)
        ensures
            final(self)@ == old(self)@,
    {
        // machine code routines are not run
    }

    fn cls(&mut self, display: &mut Display)
        ensures
            final(self)@ == old(self)@,
            final(display)@ == crate::chip8::display::Screen::blank(true),
    {
        display.clear();
    }

    fn ret(&mut self)
        requires
            0 < old(self)@.sp <= STACK_DEPTH,
        ensures
            final(self)@ == old(self)@.ret(),
    {
        self.sp -= 1;
        self.pc = self.stack[self.sp as usize];
    }

    fn jp(&mut self, address: u16)
        ensures
            final(self)@ == old(self)@.jp(address),
    {
        self.pc = address;
    }

    fn call(&mut self, address: u16)
        requires
            old(self)@.sp < STACK_DEPTH,
        ensures
            final(self)@ == old(self)@.call(address),
    {
        self.stack[self.sp as usize] = self.pc;
        self.sp += 1;
        self.pc = address;
    }

    fn se(&mut self, reg: u8, byte: u8)
        requires
            reg < REGISTER_COUNT,
            old(self)@.pc <= u16::MAX - INSTRUCTION_SIZE,
        ensures
            final(self)@ == old(self)@.se(reg, byte),
    {
        self.pc += if self.v[reg as usize] == byte {
            2
        } else {
            0
        };
    }

    fn sne2(&mut self, reg: u8, byte: u8)
        requires
            reg < REGISTER_COUNT,
            old(self)@.pc <= u16::MAX - INSTRUCTION_SIZE,
        ensures
            final(self)@ == old(self)@.sne2(reg, byte),
    {
        self.pc += if self.v[reg as usize] != byte {
            2
        } else {
            0
        };
    }

    fn sev(&mut self, reg_x: u8, reg_y: u8)
        requires
            reg_x < REGISTER_COUNT,
            reg_y < REGISTER_COUNT,
            old(self)@.pc <= u16::MAX - INSTRUCTION_SIZE,
        ensures
            final(self)@ == old(self)@.sev(reg_x, reg_y),
    {
        self.pc += if self.v[reg_x as usize] == self.v[reg_y as usize] {
            2
        } else {
            0
        };
    }

    fn ld(&mut self, reg: u8, byte: u8)
        requires
            reg < REGISTER_COUNT,
        ensures
            final(self)@ == old(self)@.ld(reg, byte),
    {
        self.v[reg as usize] = byte;
    }

    fn add(&mut self, reg: u8, byte: u8)
        requires
            reg < REGISTER_COUNT,
        ensures
            final(self)@ == old(self)@.add(reg, byte),
    {
        let result = self.v[reg as usize].wrapping_add(byte);
        self.v[reg as usize] = result;
    }

    fn ldr(&mut self, reg_x: u8, reg_y: u8)
        requires
            reg_x < REGISTER_COUNT,
            reg_y < REGISTER_COUNT,
        ensures
            final(self)@ == old(self)@.ldr(reg_x, reg_y),
    {
        self.v[reg_x as usize] = self.v[reg_y as usize];
    }

    fn or(&mut self, reg_x: u8, reg_y: u8)
        requires
            reg_x < REGISTER_COUNT,
            reg_y < REGISTER_COUNT,
        ensures
            final(self)@ == old(self)@.or(reg_x, reg_y),
    {
        self.v[reg_x as usize] = self.v[reg_x as usize] | self.v[reg_y as usize];
    }

    fn and(&mut self, reg_x: u8, reg_y: u8)
        requires
            reg_x < REGISTER_COUNT,
            reg_y < REGISTER_COUNT,
        ensures
            final(self)@ == old(self)@.and(reg_x, reg_y),
    {
        self.v[reg_x as usize] = self.v[reg_x as usize] & self.v[reg_y as usize];
    }

    fn xor(&mut self, reg_x: u8, reg_y: u8)
        requires
            reg_x < REGISTER_COUNT,
            reg_y < REGISTER_COUNT,
        ensures
            final(self)@ == old(self)@.xor(reg_x, reg_y),
    {
        self.v[reg_x as usize] = self.v[reg_x as usize] ^ self.v[reg_y as usize];
    }

    fn add2(&mut self, reg_x: u8, reg_y: u8)
        requires
            reg_x < REGISTER_COUNT,
            reg_y < REGISTER_COUNT,
        ensures
            final(self)@ == old(self)@.add2(reg_x, reg_y),
    {
        let x = self.v[reg_x as usize];
        let y = self.v[reg_y as usize];
        let result = x.wrapping_add(y);
        let carry = x as u16 + y as u16 > 0xFF;
        self.v[reg_x as usize] = result;
        self.v[FLAG_REGISTER] = if carry {
            1
        } else {
            0
        };
    }

    fn sub(&mut self, reg_x: u8, reg_y: u8)
        requires
            reg_x < REGISTER_COUNT,
            reg_y < REGISTER_COUNT,
        ensures
            final(self)@ == old(self)@.sub(reg_x, reg_y),
    {
        let x = self.v[reg_x as usize];
        let y = self.v[reg_y as usize];
        let result = x.wrapping_sub(y);
        let borrow = x < y;
        self.v[reg_x as usize] = result;
        self.v[FLAG_REGISTER] = if borrow {
            0
        } else {
            1
        };
    }

    fn shr(&mut self, reg_x: u8, reg_y: u8, settings: &Settings)
        requires
            reg_x < REGISTER_COUNT,
            reg_y < REGISTER_COUNT,
        ensures
            final(self)@ == old(self)@.shr(reg_x, reg_y, *settings),
    {
        let source = if settings.shift_vx_ignore_vy {
            self.v[reg_x as usize]
        } else {
            self.v[reg_y as usize]
        };
        proof {
            lemma_shifts(source);
        }
        self.v[FLAG_REGISTER] = source & 1;
        self.v[reg_x as usize] = source >> 1;
    }

    fn subn(&mut self, reg_x: u8, reg_y: u8)
        requires
            reg_x < REGISTER_COUNT,
            reg_y < REGISTER_COUNT,
        ensures
            final(self)@ == old(self)@.subn(reg_x, reg_y),
    {
        let x = self.v[reg_x as usize];
        let y = self.v[reg_y as usize];
        let result = y.wrapping_sub(x);
        let borrow = y < x;
        self.v[reg_x as usize] = result;
        self.v[FLAG_REGISTER] = if borrow {
            0
        } else {
            1
        };
    }

    fn shl(&mut self, reg_x: u8, reg_y: u8, settings: &Settings)
        requires
            reg_x < REGISTER_COUNT,
            reg_y < REGISTER_COUNT,
        ensures
            final(self)@ == old(self)@.shl(reg_x, reg_y, *settings),
    {
        let source = if settings.shift_vx_ignore_vy {
            self.v[reg_x as usize]
        } else {
            self.v[reg_y as usize]
        };
        proof {
            lemma_shifts(source);
        }
        self.v[FLAG_REGISTER] = (source >> 7) & 1;
        self.v[reg_x as usize] = source << 1;
    }

    fn sne(&mut self, reg_x: u8, reg_y: u8)
        requires
            reg_x < REGISTER_COUNT,
            reg_y < REGISTER_COUNT,
            old(self)@.pc <= u16::MAX - INSTRUCTION_SIZE,
        ensures
            final(self)@ == old(self)@.sne(reg_x, reg_y),
    {
        self.pc += if self.v[reg_x as usize] != self.v[reg_y as usize] {
            2
        } else {
            0
        };
    }

    fn lda(&mut self, address: u16)
        ensures
            final(self)@ == old(self)@.lda(address),
    {
        self.i = address;
    }

    fn jpv(&mut self, address: u16)
        requires
            address < 0x1000,
        ensures
            final(self)@ == old(self)@.jpv(address),
    {
        self.pc = self.v[0] as u16 + address;
    }

    fn rnd(&mut self, reg: u8, byte: u8)
        requires
            reg < REGISTER_COUNT,
        ensures
            exists|random: u8| final(self)@ == #[trigger] old(self)@.rnd(reg, byte, random),
    {
        let random = random_byte();
        self.rnd_with(reg, byte, random);
    }

    fn drw(
        &mut self,
        reg_x: u8,
        reg_y: u8,
        n: u8,
        memory: &Memory,
        display: &mut Display,
        settings: &Settings,
    )
        requires
            reg_x < REGISTER_COUNT,
            reg_y < REGISTER_COUNT,
            old(self)@.i + visible_rows(
                old(self)@.v[reg_y as int] as int,
                n as int,
                settings.vertical_wrap,
            ) <= MEMORY_SIZE,
        ensures
            final(display)@ == old(display)@.blit(
                old(self)@.v[reg_x as int] as int,
                old(self)@.v[reg_y as int] as int,
                old(self)@.sprite(reg_y, n, memory@, *settings),
            ),
            final(self)@ == old(self)@.set_flag(
                old(display)@.collides(
                    old(self)@.v[reg_x as int] as int,
                    old(self)@.v[reg_y as int] as int,
                    old(self)@.sprite(reg_y, n, memory@, *settings),
                ),
            ),
    {
        let origin_x = self.v[reg_x as usize] as usize;  // origin x coordinate
        let origin_y = self.v[reg_y as usize] as usize;  // origin y coordinate
        // the rows that are drawn are the bytes that are read
        let rows = Display::visible_rows(origin_y, n as usize, settings.vertical_wrap);
        let sprite = memory.bytes(self.i as usize, self.i as usize + rows);
        proof {
            memory.lemma_len();
            assert(sprite@.take(rows as int) =~= sprite@);
        }
        let pixel_erased = display.draw(origin_x, origin_y, sprite, settings.vertical_wrap);
        self.v[FLAG_REGISTER] = if pixel_erased {
            1
        } else {
            0
        };
    }

    fn skp(&mut self, reg: u8, keyboard: &KeyBoard)
        requires
            reg < REGISTER_COUNT,
            old(self)@.v[reg as int] < 16,
            old(self)@.pc <= u16::MAX - INSTRUCTION_SIZE,
        ensures
            final(self)@ == old(self)@.skip_on_key(reg, keyboard@.keys, true),
    {
        self.pc += if keyboard.check_key(self.v[reg as usize]) {
            2
        } else {
            0
        };
    }

    fn sknp(&mut self, reg: u8, keyboard: &KeyBoard)
        requires
            reg < REGISTER_COUNT,
            old(self)@.v[reg as int] < 16,
            old(self)@.pc <= u16::MAX - INSTRUCTION_SIZE,
        ensures
            final(self)@ == old(self)@.skip_on_key(reg, keyboard@.keys, false),
    {
        self.pc += if !keyboard.check_key(self.v[reg as usize]) {
            2
        } else {
            0
        };
    }

    fn ldt(&mut self, reg: u8)
        requires
            reg < REGISTER_COUNT,
        ensures
            final(self)@ == old(self)@.ldt(reg),
    {
        self.v[reg as usize] = self.dt;
    }

    fn ldk(&mut self, reg: u8, keyboard: &mut KeyBoard)
        requires
            reg < REGISTER_COUNT,
            old(self)@.pc >= INSTRUCTION_SIZE,
        ensures
            final(self)@ == old(self)@.ldk(reg, old(keyboard)@.poll_result()),
            final(keyboard)@ == old(keyboard)@.polled(),
    {
        if let Some(key) = keyboard.wait_key_press() {
            self.v[reg as usize] = key;
        } else {
            self.pc -= INSTRUCTION_SIZE;
        }
    }

    fn ldf(&mut self, reg: u8)
        requires
            reg < REGISTER_COUNT,
        ensures
            final(self)@ == old(self)@.ldf(reg),
    {
        self.dt = self.v[reg as usize];
    }

    fn lds(&mut self, reg: u8)
        requires
            reg < REGISTER_COUNT,
        ensures
            final(self)@ == old(self)@.lds(reg),
    {
        self.st = self.v[reg as usize];
    }

    fn addi(&mut self, reg: u8, settings: &Settings)
        requires
            reg < REGISTER_COUNT,
        ensures
            final(self)@ == old(self)@.addi(reg, *settings),
    {
        let value = self.v[reg as usize] as u16;
        let flag = self.i as u32 + value as u32 > 0xFFFF;
        let result = self.i.wrapping_add(value);
        self.i = result;

        if settings.set_vf_when_overflow {
            self.v[FLAG_REGISTER] = if flag {
                1
            } else {
                0
            };
        }
    }

    fn ldx(&mut self, reg: u8)
        requires
            reg < REGISTER_COUNT,
        ensures
            final(self)@ == old(self)@.ldx(reg),
    {
        self.i = Memory::sprite_address(self.v[reg as usize]);
    }

    fn ldb(&mut self, reg: u8, memory: &mut Memory)
        requires
            reg < REGISTER_COUNT,
            old(self)@.i + 2 < MEMORY_SIZE,
        ensures
            final(self)@ == old(self)@,
            final(memory)@ == old(self)@.ldb(reg, old(memory)@),
    {
        memory.write(self.i, self.v[reg as usize] / 100);
        memory.write(self.i + 1, (self.v[reg as usize] / 10) % 10);
        memory.write(self.i + 2, self.v[reg as usize] % 10)
    }

    fn ldi(&mut self, reg: u8, memory: &mut Memory, settings: &Settings)
        requires
            reg < REGISTER_COUNT,
            old(self)@.i + reg < MEMORY_SIZE,
        ensures
            final(self)@ == old(self)@.moved_on(reg, *settings),
            final(memory)@ == old(self)@.ldi(reg, old(memory)@),
    {
        proof {
            memory.lemma_len();
        }
        let mut r: u8 = 0;
        while r <= reg
            invariant
                r <= reg + 1,
                reg < REGISTER_COUNT,
                self@ == old(self)@,
                self@.i + reg < MEMORY_SIZE,
                memory@.len() == MEMORY_SIZE,
                forall|a: int|
                    self@.i <= a < self@.i + r ==> memory@[a] == self@.v[a - self@.i],
                forall|a: int|
                    0 <= a < MEMORY_SIZE && !(self@.i <= a < self@.i + r) ==> memory@[a] == old(
                        memory,
                    )@[a],
            decreases reg + 1 - r,
        {
            let address = self.i + r as u16;
            memory.write(address, self.v[r as usize]);
            r += 1;
        }
        assert(memory@ =~= old(self)@.ldi(reg, old(memory)@));

        if settings.increment_i_register {
            self.i += reg as u16 + 1;
        }
    }

    fn ldj(&mut self, reg: u8, memory: &Memory, settings: &Settings)
        requires
            reg < REGISTER_COUNT,
            old(self)@.i + reg < MEMORY_SIZE,
        ensures
            final(self)@ == old(self)@.ldj(reg, memory@).moved_on(reg, *settings),
    {
        let mut r: u8 = 0;
        while r <= reg
            invariant
                r <= reg + 1,
                reg < REGISTER_COUNT,
                self@.i + reg < MEMORY_SIZE,
                self@ == (Registers { v: self@.v, ..old(self)@ }),
                forall|k: int| 0 <= k < r ==> self@.v[k] == memory@[self@.i + k],
                forall|k: int| r <= k < REGISTER_COUNT ==> self@.v[k] == old(self)@.v[k],
            decreases reg + 1 - r,
        {
            let address = self.i + r as u16;
            self.v[r as usize] = memory.read8(address);
            r += 1;
        }
        assert(self@.v =~= old(self)@.ldj(reg, memory@).v);

        if settings.increment_i_register {
            self.i += reg as u16 + 1;
        }
    }
}

impl Default for Cpu {
    fn default() -> (cpu: Cpu)
        ensures
            cpu@ == Registers::reset(),
    {
        Cpu::new()
    }
}

/// Masks and shifts of a byte are its lowest bit, its highest bit, its half
/// and its double modulo 256.
proof fn lemma_shifts(b: u8)
    by (bit_vector)
    ensures
        b & 1 == b % 2,
        b >> 1 == b / 2,
        (b >> 7) & 1 == b / 128,
        b << 1 == ((b as u16 * 2) % 256) as u8,
        b / 128 <= 1,
{
}

} // verus!
