//! A CHIP-8 interpreter core whose behaviour is stated in contracts and
//! proved: the decoder, the memory, the display, the keypad, the clocks and
//! the processor that ties them together.

pub mod chip8;
pub mod error;
pub mod manager;
