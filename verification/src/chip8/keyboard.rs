use vstd::prelude::*;

verus! {

/// The keypad has sixteen keys, `0` to `F`.
pub const KEY_COUNT: usize = 16;

/// Where a program that waits for a key press stands.
pub enum KeyWait {
    /// Nobody waits for a key.
    Idle,
    /// A wait was started and no key is held for it.
    Armed,
    /// A wait was started and this key was pressed since and not let go.
    Captured(u8),
}

/// What a keypad holds: for each key whether it is down, and the state of
/// the wait for a key press.
#[verifier::ext_equal]
pub struct Keypad {
    pub keys: Seq<bool>,
    pub wait: KeyWait,
}

impl Keypad {
    /// A keypad has one entry for each key.
    pub open spec fn wf(self) -> bool {
        self.keys.len() == KEY_COUNT
    }

    /// The keypad with every key up and nobody waiting.
    pub open spec fn released_all() -> Keypad {
        Keypad { keys: Seq::new(KEY_COUNT as nat, |k: int| false), wait: KeyWait::Idle }
    }

    /// The keypad after `key` goes down: a wait that was started holds the
    /// key from now on, whatever it held before.
    pub open spec fn pressed(self, key: u8) -> Keypad {
        Keypad {
            keys: self.keys.update(key as int, true),
            wait: match self.wait {
                KeyWait::Idle => KeyWait::Idle,
                _ => KeyWait::Captured(key),
            },
        }
    }

    /// The keypad after `key` comes up: a wait that held this key holds
    /// none any more.
    pub open spec fn released(self, key: u8) -> Keypad {
        Keypad {
            keys: self.keys.update(key as int, false),
            wait: if self.wait == KeyWait::Captured(key) {
                KeyWait::Armed
            } else {
                self.wait
            },
        }
    }

    /// The key that a poll of the wait hands out, if any: the key held for
    /// a wait that was started.
    pub open spec fn poll_result(self) -> Option<u8> {
        match self.wait {
            KeyWait::Captured(key) => Some(key),
            _ => None,
        }
    }

    /// The keypad after a poll of the wait: handing out a key ends the
    /// wait, and every other poll leaves a wait started with no key held.
    pub open spec fn polled(self) -> Keypad {
        Keypad {
            keys: self.keys,
            wait: match self.wait {
                KeyWait::Captured(_) => KeyWait::Idle,
                _ => KeyWait::Armed,
            },
        }
    }
}

/// The hexadecimal keypad.
pub struct KeyBoard {
    keys: [bool; KEY_COUNT],
    key_press: Option<u8>,
    key_press_wait: bool,
}

impl View for KeyBoard {
    type V = Keypad;

    closed spec fn view(&self) -> Keypad {
        Keypad {
            keys: self.keys@,
            wait: if !self.key_press_wait {
                KeyWait::Idle
            } else {
                match self.key_press {
                    Some(key) => KeyWait::Captured(key),
                    None => KeyWait::Armed,
                }
            },
        }
    }
}

impl KeyBoard {
    /// A keypad always has one entry for each key.
    pub proof fn lemma_wf(&self)
        ensures
            self@.wf(),
    {
    }

    /// A keypad with every key up and nobody waiting.
    pub fn new() -> (keyboard: KeyBoard)
        ensures
            keyboard@ == Keypad::released_all(),
    {
        let keyboard = KeyBoard { keys: [false;KEY_COUNT], key_press: None, key_press_wait: false };
        assert(keyboard@.keys =~= Keypad::released_all().keys);
        keyboard
    }

    /// Whether a key is down.
    pub fn check_key(&self, key: u8) -> (down: bool)
        requires
            key < KEY_COUNT,
        ensures
            down == self@.keys[key as int],
    {
        self.keys[key as usize]
    }

    /// Polls the wait for a key press. The first poll starts the wait and
    /// hands out nothing. A later poll hands out the key that was pressed
    /// since and is still held, and ends the wait; with no such key it
    /// hands out nothing and the wait goes on.
    pub fn wait_key_press(&mut self) -> (key: Option<u8>)
        ensures
            key == old(self)@.poll_result(),
            final(self)@ == old(self)@.polled(),
    {
        if self.key_press_wait {
            if let Some(key) = self.key_press {
                self.key_press = None;
                self.key_press_wait = false;
                Some(key)
            } else {
                None
            }
        } else {
            self.key_press = None;
            self.key_press_wait = true;
            None
        }
    }

    /// Records that a key went down.
    pub fn press_key(&mut self, key: u8)
        requires
            key < KEY_COUNT,
        ensures
            final(self)@ == old(self)@.pressed(key),
    {
        if self.key_press_wait {
            self.key_press = Some(key);
        }
        self.keys[key as usize] = true;
    }

    /// Records that a key came up.
    pub fn release_key(&mut self, key: u8)
        requires
            key < KEY_COUNT,
        ensures
            final(self)@ == old(self)@.released(key),
    {
        if let Some(k) = self.key_press {
            if k == key {
                self.key_press = None;
            }
        }
        self.keys[key as usize] = false;
    }
}

impl Default for KeyBoard {
    fn default() -> (keyboard: KeyBoard)
        ensures
            keyboard@ == Keypad::released_all(),
    {
        KeyBoard::new()
    }
}

} // verus!
