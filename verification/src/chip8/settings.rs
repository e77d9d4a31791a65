use vstd::prelude::*;

verus! {

/// How fast the machine runs and which of the historical interpreters'
/// habits it follows. Programs were written for interpreters that differ in
/// these points, so each is a switch.
#[derive(Debug, Clone, Copy, PartialEq, Eq)]
pub struct Settings {
    /// Instructions per second.
    pub cpu_freq: u16,
    /// Steps of the delay timer per second.
    pub delay_timer_freq: u16,
    /// Steps of the sound timer per second.
    pub sound_timer_freq: u16,
    /// `LDI` and `LDJ` leave `I` behind the last byte they moved.
    pub increment_i_register: bool,
    /// `SHR` and `SHL` shift `Vx` itself and ignore `Vy`.
    pub shift_vx_ignore_vy: bool,
    /// `ADDI` sets the flag register to whether `I` overflowed.
    pub set_vf_when_overflow: bool,
    /// The sound timer makes no sound.
    pub mute: bool,
    /// Sprite rows below the bottom edge wrap round to the top.
    pub vertical_wrap: bool,
}

impl Settings {
    /// The settings that `new` gives: 700 instructions and 60 timer steps
    /// per second, shifts in place, and every other switch off.
    pub open spec fn defaults() -> Settings {
        Settings {
            cpu_freq: 700,
            delay_timer_freq: 60,
            sound_timer_freq: 60,
            increment_i_register: false,
            shift_vx_ignore_vy: true,
            set_vf_when_overflow: false,
            mute: false,
            vertical_wrap: false,
        }
    }

    /// Whether clocks can be made for these settings: no rate is zero.
    pub open spec fn wf(self) -> bool {
        self.cpu_freq > 0 && self.delay_timer_freq > 0 && self.sound_timer_freq > 0
    }

    /// The default settings.
    pub fn new() -> (settings: Settings)
        ensures
            settings == Settings::defaults(),
    {
        Settings {
            cpu_freq: 700,
            delay_timer_freq: 60,
            sound_timer_freq: 60,
            increment_i_register: false,
            shift_vx_ignore_vy: true,
            set_vf_when_overflow: false,
            mute: false,
            vertical_wrap: false,
        }
    }
}

} // verus!
