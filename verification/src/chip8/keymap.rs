use vstd::prelude::*;

verus! {

// The keypad is laid out as
//     1 2 3 C
//     4 5 6 D
//     7 8 9 E
//     A 0 B F
// and is played on the block of host keys
//     1 2 3 4
//     q w e r
//     a s d f
//     z x c v
// A host key is named by its key code: for a key that prints a character,
// the code of that character.
pub const HOST_KEY_ESCAPE: i32 = 27;

pub const HOST_KEY_1: i32 = 49;

pub const HOST_KEY_2: i32 = 50;

pub const HOST_KEY_3: i32 = 51;

pub const HOST_KEY_4: i32 = 52;

pub const HOST_KEY_A: i32 = 97;

pub const HOST_KEY_C: i32 = 99;

pub const HOST_KEY_D: i32 = 100;

pub const HOST_KEY_E: i32 = 101;

pub const HOST_KEY_F: i32 = 102;

pub const HOST_KEY_Q: i32 = 113;

pub const HOST_KEY_R: i32 = 114;

pub const HOST_KEY_S: i32 = 115;

pub const HOST_KEY_V: i32 = 118;

pub const HOST_KEY_W: i32 = 119;

pub const HOST_KEY_X: i32 = 120;

pub const HOST_KEY_Z: i32 = 122;

/// The key of the keypad that a host key plays, if it plays one.
pub open spec fn key_for(host_key: i32) -> Option<u8> {
    if host_key == HOST_KEY_1 {
        Some(0x1u8)
    } else if host_key == HOST_KEY_2 {
        Some(0x2u8)
    } else if host_key == HOST_KEY_3 {
        Some(0x3u8)
    } else if host_key == HOST_KEY_4 {
        Some(0xCu8)
    } else if host_key == HOST_KEY_Q {
        Some(0x4u8)
    } else if host_key == HOST_KEY_W {
        Some(0x5u8)
    } else if host_key == HOST_KEY_E {
        Some(0x6u8)
    } else if host_key == HOST_KEY_R {
        Some(0xDu8)
    } else if host_key == HOST_KEY_A {
        Some(0x7u8)
    } else if host_key == HOST_KEY_S {
        Some(0x8u8)
    } else if host_key == HOST_KEY_D {
        Some(0x9u8)
    } else if host_key == HOST_KEY_F {
        Some(0xEu8)
    } else if host_key == HOST_KEY_Z {
        Some(0xAu8)
    } else if host_key == HOST_KEY_X {
        Some(0x0u8)
    } else if host_key == HOST_KEY_C {
        Some(0xBu8)
    } else if host_key == HOST_KEY_V {
        Some(0xFu8)
    } else {
        None
    }
}

/// The mapping from host keys to the keys of the keypad.
pub struct KeyMap;

impl KeyMap {
    /// The one mapping there is.
    pub fn new() -> KeyMap {
        KeyMap
    }

    /// The key of the keypad that a host key plays, if it plays one.
    pub fn keycode(&self, key: i32) -> (mapped: Option<u8>)
        ensures
            mapped == key_for(key),
            mapped matches Some(k) ==> k < 16,
    {
        match key {
            HOST_KEY_1 => Some(0x1),
            HOST_KEY_2 => Some(0x2),
            HOST_KEY_3 => Some(0x3),
            HOST_KEY_4 => Some(0xC),
            HOST_KEY_Q => Some(0x4),
            HOST_KEY_W => Some(0x5),
            HOST_KEY_E => Some(0x6),
            HOST_KEY_R => Some(0xD),
            HOST_KEY_A => Some(0x7),
            HOST_KEY_S => Some(0x8),
            HOST_KEY_D => Some(0x9),
            HOST_KEY_F => Some(0xE),
            HOST_KEY_Z => Some(0xA),
            HOST_KEY_X => Some(0x0),
            HOST_KEY_C => Some(0xB),
            HOST_KEY_V => Some(0xF),
            _ => None,
        }
    }
}

impl Default for KeyMap {
    fn default() -> KeyMap {
        KeyMap::new()
    }
}

} // verus!
