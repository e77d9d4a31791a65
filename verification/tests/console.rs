use mychip8::chip8::keymap::HOST_KEY_ESCAPE;
use mychip8::chip8::machine::Executed;
use mychip8::chip8::operation::Op;
use mychip8::chip8::settings::Settings;
use mychip8::chip8::{Reaction, CHIP8};
use mychip8::error::{CpuError, DecodeError, LoadError};
use mychip8::manager::{HostEvent, ManagerEvent};
use std::time::Instant;

fn rom(program: &[u16]) -> Vec<u8> {
    let mut bytes = Vec::new();
    for word in program {
        bytes.push((word >> 8) as u8);
        bytes.push((word & 0xFF) as u8);
    }
    bytes
}

fn console(program: &[u16]) -> CHIP8 {
    let mut chip8 = CHIP8::new("test");
    chip8.load_rom(&rom(program)).unwrap();
    chip8
}

fn quiet() -> Reaction {
    Reaction { quit: false, beep: None, executed: None, frame: None }
}

#[test]
fn a_new_console_has_its_name_and_the_default_settings() {
    let chip8 = CHIP8::new("PONG");
    assert_eq!(chip8.game_name(), "PONG");
    assert_eq!(chip8.settings(), Settings::new());
}

#[test]
fn a_console_can_be_made_with_other_settings() {
    let settings = Settings { mute: true, cpu_freq: 1000, ..Settings::new() };
    let chip8 = CHIP8::with_settings("TETRIS", settings);
    assert_eq!(chip8.game_name(), "TETRIS");
    assert_eq!(chip8.settings(), settings);
}

#[test]
fn a_program_that_is_too_long_is_refused() {
    let mut chip8 = CHIP8::new("big");
    assert_eq!(chip8.load_rom(&vec![0; 3585]), Err(LoadError::RomTooLarge { len: 3585 }));
    assert_eq!(chip8.load_rom(&vec![0; 3584]), Ok(()));
}

#[test]
fn nothing_due_means_nothing_done() {
    let mut chip8 = console(&[0x6001]);
    assert_eq!(chip8.advance(false, false, false), Ok(quiet()));
}

#[test]
fn the_first_cycle_shows_the_blank_display() {
    let mut chip8 = console(&[0x6001, 0x6002]);
    let executed = Executed { address: 0x200, opcode: 0x6001, op: Op::LD { reg: 0, byte: 1 } };
    assert_eq!(
        chip8.advance(false, false, true),
        Ok(Reaction { quit: false, beep: None, executed: Some(executed), frame: Some(vec![]) })
    );
    // and the next has nothing new to show
    let executed = Executed { address: 0x202, opcode: 0x6002, op: Op::LD { reg: 0, byte: 2 } };
    assert_eq!(
        chip8.advance(false, false, true),
        Ok(Reaction { quit: false, beep: None, executed: Some(executed), frame: None })
    );
}

#[test]
fn a_drawing_is_handed_out_once() {
    let mut chip8 = console(&[0x6001, 0xA000, 0xD011, 0x1206]);
    chip8.advance(false, false, true).unwrap();
    chip8.advance(false, false, true).unwrap();
    let drawn = chip8.advance(false, false, true).unwrap();
    assert_eq!(drawn.frame, Some(vec![(1, 0), (2, 0), (3, 0), (4, 0)]));
    let after = chip8.advance(false, false, true).unwrap();
    assert_eq!(after.frame, None);
}

#[test]
fn a_cleared_display_is_shown() {
    let mut chip8 = console(&[0x6001, 0x00E0]);
    chip8.advance(false, false, true).unwrap();
    let cleared = chip8.advance(false, false, true).unwrap();
    assert_eq!(cleared.frame, Some(vec![]));
}

#[test]
fn the_tone_follows_the_sound_timer() {
    // LD V0, 2; LDS V0; JP 0x204
    let mut chip8 = console(&[0x6002, 0xF018, 0x1204]);
    // with the timer at zero the tone is switched off
    assert_eq!(chip8.advance(true, false, false).unwrap().beep, Some(false));
    chip8.advance(false, false, true).unwrap();
    chip8.advance(false, false, true).unwrap();
    assert_eq!(chip8.advance(false, false, true).unwrap().beep, None);
    assert_eq!(chip8.advance(true, false, false).unwrap().beep, Some(true));
    assert_eq!(chip8.advance(true, false, false).unwrap().beep, Some(false));
    assert_eq!(chip8.advance(true, false, false).unwrap().beep, Some(false));
}

#[test]
fn a_mute_console_keeps_the_tone_off() {
    let settings = Settings { mute: true, ..Settings::new() };
    let mut chip8 = CHIP8::with_settings("quiet", settings);
    chip8.load_rom(&rom(&[0x6005, 0xF018, 0x1204])).unwrap();
    chip8.advance(false, false, true).unwrap();
    chip8.advance(false, false, true).unwrap();
    assert_eq!(chip8.advance(true, false, false).unwrap().beep, Some(false));
    assert_eq!(chip8.advance(true, false, true).unwrap().beep, Some(false));
}

#[test]
fn the_delay_timer_steps_when_it_is_due() {
    // LD V0, 3; LDF V0; LDT V1; LDT V2; LDB V1 at 0x300 would show it; use a skip instead
    // 0x204: LDT V1; 0x206: SE V1, 1; 0x208: unknown; 0x20A: JP 0x20A
    let mut chip8 = console(&[0x6003, 0xF015, 0xF107, 0x3101, 0x8008, 0x120A]);
    chip8.advance(false, false, true).unwrap();
    chip8.advance(false, false, true).unwrap();
    // two steps of the timer, the second together with the cycle that reads it
    chip8.advance(false, true, false).unwrap();
    chip8.advance(false, true, true).unwrap();
    // V1 is 1, so the unknown word is skipped
    chip8.advance(false, false, true).unwrap();
    assert_eq!(
        chip8.advance(false, false, true).unwrap().executed,
        Some(Executed { address: 0x20A, opcode: 0x120A, op: Op::JP { address: 0x20A } })
    );
}

#[test]
fn a_failed_cycle_ends_the_run() {
    let mut chip8 = console(&[0x8008]);
    assert_eq!(
        chip8.advance(true, true, true),
        Err(CpuError::Decode(DecodeError::UnknownOpcode(0x8008)))
    );
    let mut chip8 = console(&[0x00EE]);
    assert_eq!(chip8.advance(false, false, true), Err(CpuError::StackUnderflow));
}

#[test]
fn keys_are_recorded() {
    // 0x200: LD V0, 5; 0x202: SKP V0; 0x204: JP 0x202; 0x206: JP 0x206
    let mut chip8 = console(&[0x6005, 0xE09E, 0x1202, 0x1206]);
    chip8.advance(false, false, true).unwrap();
    chip8.advance(false, false, true).unwrap();
    let looped = chip8.advance(false, false, true).unwrap();
    assert_eq!(looped.executed.unwrap().address, 0x204);
    assert_eq!(chip8.on_event(ManagerEvent::KeyDown(5)), Ok(quiet()));
    chip8.advance(false, false, true).unwrap();
    let skipped = chip8.advance(false, false, true).unwrap();
    assert_eq!(skipped.executed.unwrap().address, 0x206);
}

#[test]
fn a_key_that_came_up_is_up() {
    // 0x200: LD V0, 5; 0x202: SKNP V0; 0x204: JP 0x202; 0x206: JP 0x206
    let mut chip8 = console(&[0x6005, 0xE0A1, 0x1202, 0x1206]);
    assert_eq!(chip8.on_event(ManagerEvent::KeyDown(5)), Ok(quiet()));
    chip8.advance(false, false, true).unwrap();
    chip8.advance(false, false, true).unwrap();
    assert_eq!(chip8.advance(false, false, true).unwrap().executed.unwrap().address, 0x204);
    assert_eq!(chip8.on_event(ManagerEvent::KeyUp(5)), Ok(quiet()));
    chip8.advance(false, false, true).unwrap();
    assert_eq!(chip8.advance(false, false, true).unwrap().executed.unwrap().address, 0x206);
}

#[test]
fn quit_is_passed_on() {
    let mut chip8 = console(&[0x1200]);
    assert_eq!(
        chip8.on_event(ManagerEvent::Quit),
        Ok(Reaction { quit: true, beep: None, executed: None, frame: None })
    );
}

#[test]
fn host_events_are_interpreted() {
    // 0x200: LDK V0; 0x202: JP 0x202
    let mut chip8 = console(&[0xF00A, 0x1202]);
    chip8.advance(false, false, true).unwrap();
    // 'q' plays key 4
    assert_eq!(
        chip8.on_host_event(HostEvent::KeyDown { keycode: Some('q' as i32) }),
        Ok(quiet())
    );
    let taken = chip8.advance(false, false, true).unwrap();
    assert_eq!(taken.executed.unwrap().address, 0x200);
    let next = chip8.advance(false, false, true).unwrap();
    assert_eq!(next.executed.unwrap().address, 0x202);
    assert!(chip8.on_host_event(HostEvent::Quit).unwrap().quit);
    assert!(chip8
        .on_host_event(HostEvent::KeyDown { keycode: Some(HOST_KEY_ESCAPE) })
        .unwrap()
        .quit);
    assert_eq!(chip8.on_host_event(HostEvent::KeyUp { keycode: Some('q' as i32) }), Ok(quiet()));
    assert_eq!(chip8.on_host_event(HostEvent::KeyDown { keycode: None }).map(|r| r.quit), Ok(false));
}

#[test]
fn the_key_wait_holds_the_program_until_a_key_comes() {
    let mut chip8 = console(&[0xF30A, 0x1202]);
    for _ in 0..5 {
        let stalled = chip8.advance(false, false, true).unwrap();
        assert_eq!(stalled.executed.unwrap().address, 0x200);
    }
    chip8.on_event(ManagerEvent::KeyDown(9)).unwrap();
    assert_eq!(chip8.advance(false, false, true).unwrap().executed.unwrap().address, 0x200);
    assert_eq!(chip8.advance(false, false, true).unwrap().executed.unwrap().address, 0x202);
}

#[test]
fn with_nothing_happening_the_clocks_pace_the_work() {
    // LD V0, 0xFF; LDS V0; JP 0x204
    let started = Instant::now();
    let mut chip8 = console(&[0x60FF, 0xF018, 0x1204]);
    let mut cycles = 0u128;
    let mut beeps = 0u128;
    while cycles < 50 || beeps < 3 {
        let reaction = chip8.on_event(ManagerEvent::Nothing).unwrap();
        let nanos = started.elapsed().as_nanos();
        assert!(!reaction.quit);
        if reaction.executed.is_some() {
            cycles += 1;
        }
        if reaction.beep.is_some() {
            beeps += 1;
        }
        // 700 cycles and 60 timer steps a second, and no more
        assert!(cycles * 1_428_571 <= nanos);
        assert!(beeps * 16_666_666 <= nanos);
        assert!(nanos < 10_000_000_000, "the clocks do not fire");
    }
}

#[test]
fn the_tone_sounds_while_the_sound_timer_runs() {
    // LD V0, 0xFF; LDS V0; JP 0x204
    let started = Instant::now();
    let mut chip8 = console(&[0x60FF, 0xF018, 0x1204]);
    let mut programmed = false;
    let mut sounded = false;
    while !sounded {
        let reaction = chip8.on_event(ManagerEvent::Nothing).unwrap();
        if let Some(executed) = reaction.executed {
            programmed = programmed || executed.address == 0x204;
        }
        if let Some(beep) = reaction.beep {
            // before the timer is set the tone is off, after it the tone is on
            if programmed {
                assert!(beep);
                sounded = true;
            }
        }
        assert!(started.elapsed().as_secs() < 10, "no tone within ten seconds");
    }
}

#[test]
fn a_host_event_of_no_concern_lets_the_clocks_work() {
    let started = Instant::now();
    let mut chip8 = console(&[0x1200]);
    let mut cycles = 0;
    while cycles < 5 {
        if chip8.on_host_event(HostEvent::Other).unwrap().executed.is_some() {
            cycles += 1;
        }
        assert!(started.elapsed().as_secs() < 10, "no cycle within ten seconds");
    }
}
