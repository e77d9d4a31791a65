use crate::chip8::keymap::{key_for, KeyMap, HOST_KEY_ESCAPE};
use vstd::prelude::*;

verus! {

/// What the host's window reported, with each key named by its key code.
#[derive(Debug, Clone, Copy, PartialEq, Eq)]
pub enum HostEvent {
    /// The window was asked to close.
    Quit,
    /// A key went down; `None` where the host knows no code for it.
    KeyDown { keycode: Option<i32> },
    /// A key came up; `None` where the host knows no code for it.
    KeyUp { keycode: Option<i32> },
    /// Anything else.
    Other,
}

/// What the machine makes of a host event.
#[derive(Debug, Clone, Copy, PartialEq, Eq)]
pub enum ManagerEvent {
    /// A key of the keypad went down.
    KeyDown(u8),
    /// A key of the keypad came up.
    KeyUp(u8),
    /// The run is to end.
    Quit,
    /// Nothing happened that concerns the machine.
    Nothing,
}

impl ManagerEvent {
    /// Whether the key that the event names is a key of the keypad.
    pub open spec fn wf(self) -> bool {
        match self {
            ManagerEvent::KeyDown(key) => key < 16,
            ManagerEvent::KeyUp(key) => key < 16,
            _ => true,
        }
    }
}

/// What a host event means to the machine: closing the window and pressing
/// the escape key end the run; a key of the playing block going down or
/// coming up is that of its key on the keypad; nothing else counts.
pub open spec fn meaning(event: HostEvent) -> ManagerEvent {
    match event {
        HostEvent::Quit => ManagerEvent::Quit,
        HostEvent::KeyDown { keycode: Some(code) } => if code == HOST_KEY_ESCAPE {
            ManagerEvent::Quit
        } else {
            match key_for(code) {
                Some(key) => ManagerEvent::KeyDown(key),
                None => ManagerEvent::Nothing,
            }
        },
        HostEvent::KeyUp { keycode: Some(code) } => match key_for(code) {
            Some(key) => ManagerEvent::KeyUp(key),
            None => ManagerEvent::Nothing,
        },
        _ => ManagerEvent::Nothing,
    }
}

/// Turns a host event into the machine's own.
pub fn interpret(event: HostEvent, keymap: &KeyMap) -> (res: ManagerEvent)
    ensures
        res == meaning(event),
        res.wf(),
{
    match event {
        HostEvent::Quit => ManagerEvent::Quit,
        HostEvent::KeyDown { keycode: Some(HOST_KEY_ESCAPE) } => ManagerEvent::Quit,
        HostEvent::KeyDown { keycode: Some(keycode) } => {
            if let Some(key) = keymap.keycode(keycode) {
                ManagerEvent::KeyDown(key)
            } else {
                ManagerEvent::Nothing
            }
        },
        HostEvent::KeyUp { keycode: Some(keycode) } => {
            if let Some(key) = keymap.keycode(keycode) {
                ManagerEvent::KeyUp(key)
            } else {
                ManagerEvent::Nothing
            }
        },
        _ => ManagerEvent::Nothing,
    }
}

} // verus!
