use crate::error::{CpuError, LoadError};
use crate::manager::{interpret, meaning, HostEvent, ManagerEvent};
use clock::{Clock, Schedule, NANOS_PER_SECOND};
use cpu::Cpu;
use display::{Display, Screen};
use keyboard::KeyBoard;
use keymap::KeyMap;
use machine::{Executed, Machine, Registers};
use memory::{initial_memory, with_program, Memory, MEMORY_SIZE, PROGRAM_START};
use settings::Settings;
use vstd::prelude::*;

pub mod blit;
pub mod clock;
pub mod cpu;
pub mod display;
pub mod keyboard;
pub mod keymap;
pub mod machine;
pub mod memory;
pub mod operation;
pub mod settings;

verus! {

/// What a console holds: the machine, its settings, and the schedules of
/// the three clocks that pace the processor and the two timers.
#[verifier::ext_equal]
pub struct Console {
    pub name: Seq<char>,
    pub machine: Machine,
    pub settings: Settings,
    pub cpu_clock: Schedule,
    pub dt_clock: Schedule,
    pub st_clock: Schedule,
}

/// What a console asks of its host after an event, the picture apart.
pub struct Signals {
    /// The run is over.
    pub quit: bool,
    /// The tone is to be switched on or off.
    pub beep: Option<bool>,
    /// The instruction that was carried out.
    pub executed: Option<Executed>,
    /// The display changed and is to be shown.
    pub redraw: bool,
}

/// What a console asks of its host after an event.
#[derive(Debug, PartialEq, Eq)]
pub struct Reaction {
    /// The run is over.
    pub quit: bool,
    /// The tone is to be switched on or off.
    pub beep: Option<bool>,
    /// The instruction that was carried out.
    pub executed: Option<Executed>,
    /// The display changed: the window is to be cleared, the pixels at
    /// these coordinates drawn, and the result shown.
    pub frame: Option<Vec<(u8, u8)>>,
}

impl Reaction {
    /// Whether the reaction carries the signals, with the picture of
    /// `screen` where the display is to be shown.
    pub open spec fn carries(self, signals: Signals, screen: Screen) -> bool {
        &&& self.quit == signals.quit
        &&& self.beep == signals.beep
        &&& self.executed == signals.executed
        &&& match self.frame {
            Some(cells) => signals.redraw && screen.lit_in_order(cells@),
            None => !signals.redraw,
        }
    }
}

impl Signals {
    /// Nothing is asked of the host.
    pub open spec fn none() -> Signals {
        Signals { quit: false, beep: None, executed: None, redraw: false }
    }
}

impl Console {
    /// Every part of the machine has its size.
    pub open spec fn wf(self) -> bool {
        self.machine.wf()
    }

    /// The console as it is switched on: the machine reset, the glyphs in
    /// memory, a blank display that is due to be shown, every key up, and
    /// each clock at the start of its first period.
    pub open spec fn switched_on(name: Seq<char>, settings: Settings) -> Console {
        Console {
            name,
            machine: Machine {
                cpu: Registers::reset(),
                memory: initial_memory(),
                display: Screen::blank(true),
                keyboard: keyboard::Keypad::released_all(),
            },
            settings,
            cpu_clock: Schedule { period: (NANOS_PER_SECOND / settings.cpu_freq as u64) as nat, offset: 0 },
            dt_clock: Schedule {
                period: (NANOS_PER_SECOND / settings.delay_timer_freq as u64) as nat,
                offset: 0,
            },
            st_clock: Schedule {
                period: (NANOS_PER_SECOND / settings.sound_timer_freq as u64) as nat,
                offset: 0,
            },
        }
    }

    /// The console with another machine.
    pub open spec fn with_machine(self, machine: Machine) -> Console {
        Console { machine, ..self }
    }

    /// The console after each clock was polled at its time.
    pub open spec fn polled(self, st_now: nat, dt_now: nat, cpu_now: nat) -> Console {
        Console {
            st_clock: self.st_clock.polled(st_now),
            dt_clock: self.dt_clock.polled(dt_now),
            cpu_clock: self.cpu_clock.polled(cpu_now),
            ..self
        }
    }

    /// The work that is due, each part only where its clock fired: a step
    /// of the sound timer, after which the tone is on if the timer still
    /// runs and the console is not mute; a step of the delay timer; and a
    /// processor cycle, after which a display that changed is handed out
    /// to be shown and counts as shown. A cycle that fails ends the run
    /// with its error; the timers keep the steps they made.
    pub open spec fn advanced(self, st_due: bool, dt_due: bool, cpu_due: bool, random: u8) -> (
        Console,
        Result<Signals, CpuError>,
    ) {
        let sounded = if st_due {
            self.machine.cpu.sound_ticked()
        } else {
            self.machine.cpu
        };
        let beep = if st_due {
            Some(sounded.st > 0 && !self.settings.mute)
        } else {
            None
        };
        let timed = if dt_due {
            sounded.delay_ticked()
        } else {
            sounded
        };
        let ready = Machine { cpu: timed, ..self.machine };
        if cpu_due {
            let (stepped, outcome) = ready.step(self.settings, random);
            match outcome {
                Err(e) => (self.with_machine(stepped), Err(e)),
                Ok(executed) => (
                    self.with_machine(
                        Machine { display: Screen { dirty: false, ..stepped.display }, ..stepped },
                    ),
                    Ok(
                        Signals {
                            quit: false,
                            beep,
                            executed: Some(executed),
                            redraw: stepped.display.dirty,
                        },
                    ),
                ),
            }
        } else {
            (
                self.with_machine(ready),
                Ok(Signals { quit: false, beep, executed: None, redraw: false }),
            )
        }
    }

    /// The console after an event, and what it asks of its host. A key
    /// going down or coming up is recorded, and the end of the run is
    /// passed on. When nothing happened the clocks are polled, at the
    /// times given, and the work that is due is done.
    pub open spec fn reacted(
        self,
        event: ManagerEvent,
        st_now: nat,
        dt_now: nat,
        cpu_now: nat,
        random: u8,
    ) -> (Console, Result<Signals, CpuError>) {
        match event {
            ManagerEvent::KeyDown(key) => (
                self.with_machine(
                    Machine { keyboard: self.machine.keyboard.pressed(key), ..self.machine },
                ),
                Ok(Signals::none()),
            ),
            ManagerEvent::KeyUp(key) => (
                self.with_machine(
                    Machine { keyboard: self.machine.keyboard.released(key), ..self.machine },
                ),
                Ok(Signals::none()),
            ),
            ManagerEvent::Quit => (self, Ok(Signals { quit: true, ..Signals::none() })),
            ManagerEvent::Nothing => self.polled(st_now, dt_now, cpu_now).advanced(
                self.st_clock.fires(st_now),
                self.dt_clock.fires(dt_now),
                self.cpu_clock.fires(cpu_now),
                random,
            ),
        }
    }

    /// Whether `res` is what `outcome` asks for, with the picture of this
    /// console's display where the display is to be shown.
    pub open spec fn answers(self, outcome: Result<Signals, CpuError>, res: Result<
        Reaction,
        CpuError,
    >) -> bool {
        match outcome {
            Ok(signals) => res matches Ok(reaction) && reaction.carries(
                signals,
                self.machine.display,
            ),
            Err(e) => res == Err::<Reaction, CpuError>(e),
        }
    }
}

/// The console: a processor with its memory, display and keypad, the
/// settings it runs with, and the clocks that pace it.
pub struct CHIP8 {
    game_name: String,
    cpu: Cpu,
    display: Display,
    memory: Memory,
    keyboard: KeyBoard,
    keymap: KeyMap,
    settings: Settings,
    cpu_clock: Clock,
    dt_clock: Clock,
    st_clock: Clock,
}

impl View for CHIP8 {
    type V = Console;

    closed spec fn view(&self) -> Console {
        Console {
            name: self.game_name@,
            machine: cpu::machine(self.cpu, self.memory, self.display, self.keyboard),
            settings: self.settings,
            cpu_clock: self.cpu_clock@,
            dt_clock: self.dt_clock@,
            st_clock: self.st_clock@,
        }
    }
}

impl CHIP8 {
    /// A console for the named game, switched on now, with the default
    /// settings.
    pub fn new(game_name: &str) -> (chip8: CHIP8)
        ensures
            chip8@ == Console::switched_on(game_name@, Settings::defaults()),
            chip8@.wf(),
    {
        CHIP8::with_settings(game_name, Settings::new())
    }

    /// A console for the named game, switched on now, with the settings
    /// given.
    pub fn with_settings(game_name: &str, settings: Settings) -> (chip8: CHIP8)
        requires
            settings.wf(),
        ensures
            chip8@ == Console::switched_on(game_name@, settings),
            chip8@.wf(),
    {
        let cpu = Cpu::default();
        let display = Display::default();
        let memory = Memory::default();
        let keyboard = KeyBoard::default();
        let keymap = KeyMap::default();
        let cpu_clock = Clock::new(settings.cpu_freq);
        let st_clock = Clock::new(settings.sound_timer_freq);
        let dt_clock = Clock::new(settings.delay_timer_freq);
        CHIP8 {
            game_name: game_name.to_owned(),
            cpu,
            display,
            memory,
            keyboard,
            keymap,
            settings,
            cpu_clock,
            st_clock,
            dt_clock,
        }
    }

    /// The name of the game that the console was made for.
    pub fn game_name(&self) -> (name: &str)
        ensures
            name@ == self@.name,
    {
        self.game_name.as_str()
    }

    /// The settings that the console runs with.
    pub fn settings(&self) -> (settings: Settings)
        ensures
            settings == self@.settings,
    {
        self.settings
    }

    /// Copies a program to the load address, or refuses one that does
    /// not fit in memory and leaves the console as it was.
    pub fn load_rom(&mut self, rom: &[u8]) -> (res: Result<(), LoadError>)
        ensures
            PROGRAM_START + rom@.len() <= MEMORY_SIZE ==> res == Ok::<(), LoadError>(())
                && final(self)@ == old(self)@.with_machine(
                Machine {
                    memory: with_program(old(self)@.machine.memory, rom@),
                    ..old(self)@.machine
                },
            ),
            PROGRAM_START + rom@.len() > MEMORY_SIZE ==> res == Err::<(), LoadError>(
                LoadError::RomTooLarge { len: rom@.len() as usize },
            ) && final(self)@ == old(self)@,
            old(self)@.wf() ==> final(self)@.wf(),
    {
        self.memory.load_rom(rom)
    }

    /// Does the work that is due, each part only where its clock fired.
    /// The byte that `RND` draws is left open: the outcome is that for
    /// some byte.
    #[verifier::rlimit(50)]
    pub fn advance(&mut self, st_due: bool, dt_due: bool, cpu_due: bool) -> (res: Result<
        Reaction,
        CpuError,
    >)
        requires
            old(self)@.wf(),
        ensures
            final(self)@.wf(),
            exists|random: u8|
                {
                    let (next, outcome) = #[trigger] old(self)@.advanced(
                        st_due,
                        dt_due,
                        cpu_due,
                        random,
                    );
                    final(self)@ == next && next.answers(outcome, res)
                },
    {
        let ghost before = self@;
        let mut beep: Option<bool> = None;
        if st_due {
            let sounding = self.cpu.cycle_st();
            beep = Some(sounding && !self.settings.mute);
        }
        if dt_due {
            self.cpu.cycle_dt();
        }
        if !cpu_due {
            let reaction = Reaction { quit: false, beep, executed: None, frame: None };
            proof {
                let (next, outcome) = before.advanced(st_due, dt_due, cpu_due, 0);
                assert(self@ =~= next);
                assert(next.answers(outcome, Ok::<Reaction, CpuError>(reaction)));
            }
            return Ok(reaction);
        }
        let ghost ready = self@.machine;
        let stepped = self.cpu.pipeline_operation(
            &mut self.memory,
            &mut self.display,
            &mut self.keyboard,
            &self.settings,
        );
        let ghost random = choose|random: u8|
            (self@.machine, stepped) == #[trigger] ready.step(before.settings, random);
        proof {
            self.memory.lemma_len();
            self.display.lemma_wf();
            self.keyboard.lemma_wf();
        }
        match stepped {
            Err(e) => {
                proof {
                    let (next, outcome) = before.advanced(st_due, dt_due, cpu_due, random);
                    assert(self@ =~= next);
                }
                Err(e)
            },
            Ok(executed) => {
                let mut frame: Option<Vec<(u8, u8)>> = None;
                if self.display.take_dirty() {
                    frame = Some(self.display.lit_pixels());
                }
                let reaction = Reaction { quit: false, beep, executed: Some(executed), frame };
                proof {
                    let (next, outcome) = before.advanced(st_due, dt_due, cpu_due, random);
                    assert(self@ =~= next);
                    assert(next.answers(outcome, Ok::<Reaction, CpuError>(reaction)));
                }
                Ok(reaction)
            },
        }
    }

    /// Reacts to an event: records a key that went down or came up,
    /// passes on the end of the run and, when nothing happened, polls the
    /// three clocks and does the work that is due. The times of the polls
    /// and the byte that `RND` draws are left open: the outcome is that
    /// for some times and some byte.
    pub fn on_event(&mut self, event: ManagerEvent) -> (res: Result<Reaction, CpuError>)
        requires
            old(self)@.wf(),
            event.wf(),
        ensures
            final(self)@.wf(),
            exists|st_now: nat, dt_now: nat, cpu_now: nat, random: u8|
                {
                    let (next, outcome) = #[trigger] old(self)@.reacted(
                        event,
                        st_now,
                        dt_now,
                        cpu_now,
                        random,
                    );
                    final(self)@ == next && next.answers(outcome, res)
                },
    {
        let ghost before = self@;
        match event {
            ManagerEvent::KeyDown(key) => {
                self.keyboard.press_key(key);
                let reaction = Reaction { quit: false, beep: None, executed: None, frame: None };
                proof {
                    let (next, outcome) = before.reacted(event, 0, 0, 0, 0);
                    assert(self@ =~= next);
                    assert(next.answers(outcome, Ok::<Reaction, CpuError>(reaction)));
                    self.keyboard.lemma_wf();
                }
                Ok(reaction)
            },
            ManagerEvent::KeyUp(key) => {
                self.keyboard.release_key(key);
                let reaction = Reaction { quit: false, beep: None, executed: None, frame: None };
                proof {
                    let (next, outcome) = before.reacted(event, 0, 0, 0, 0);
                    assert(self@ =~= next);
                    assert(next.answers(outcome, Ok::<Reaction, CpuError>(reaction)));
                    self.keyboard.lemma_wf();
                }
                Ok(reaction)
            },
            ManagerEvent::Quit => {
                let reaction = Reaction { quit: true, beep: None, executed: None, frame: None };
                proof {
                    let (next, outcome) = before.reacted(event, 0, 0, 0, 0);
                    assert(next.answers(outcome, Ok::<Reaction, CpuError>(reaction)));
                }
                Ok(reaction)
            },
            ManagerEvent::Nothing => {
                let st_due = self.st_clock.tick();
                let ghost st_now = choose|now: nat|
                    st_due == #[trigger] before.st_clock.fires(now) && self@.st_clock
                        == before.st_clock.polled(now);
                let dt_due = self.dt_clock.tick();
                let ghost dt_now = choose|now: nat|
                    dt_due == #[trigger] before.dt_clock.fires(now) && self@.dt_clock
                        == before.dt_clock.polled(now);
                let cpu_due = self.cpu_clock.tick();
                let ghost cpu_now = choose|now: nat|
                    cpu_due == #[trigger] before.cpu_clock.fires(now) && self@.cpu_clock
                        == before.cpu_clock.polled(now);
                let ghost polled = self@;
                assert(polled =~= before.polled(st_now, dt_now, cpu_now));
                let res = self.advance(st_due, dt_due, cpu_due);
                proof {
                    let random = choose|random: u8|
                        {
                            let (next, outcome) = #[trigger] polled.advanced(
                                st_due,
                                dt_due,
                                cpu_due,
                                random,
                            );
                            self@ == next && next.answers(outcome, res)
                        };
                    let (next, outcome) = before.reacted(event, st_now, dt_now, cpu_now, random);
                    assert(self@ == next && next.answers(outcome, res));
                }
                res
            },
        }
    }

    /// Reacts to what the host's window reported: the report is turned
    /// into the console's own event, and that is reacted to.
    pub fn on_host_event(&mut self, event: HostEvent) -> (res: Result<Reaction, CpuError>)
        requires
            old(self)@.wf(),
        ensures
            final(self)@.wf(),
            exists|st_now: nat, dt_now: nat, cpu_now: nat, random: u8|
                {
                    let (next, outcome) = #[trigger] old(self)@.reacted(
                        meaning(event),
                        st_now,
                        dt_now,
                        cpu_now,
                        random,
                    );
                    final(self)@ == next && next.answers(outcome, res)
                },
    {
        let event = interpret(event, &self.keymap);
        self.on_event(event)
    }
}

} // verus!
