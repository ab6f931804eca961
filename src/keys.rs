//! The state of the sixteen logical keys, as the interpreter sees it.
use vstd::prelude::*;

verus! {

/// What the input side reports for one cycle.
///
/// `pressed[k]` tells whether logical key `k` is held. `key_press` is a key
/// that was pressed while the machine waited for one, if any; it is only
/// read by the instruction that waits for a key.
pub struct KeyState {
    pub pressed: [bool; 16],
    pub key_press: Option<u8>,
}

impl KeyState {
    /// Whether the key with the given value is held; a value that names no
    /// key (16 or more) is never held.
    pub open spec fn is_pressed_spec(&self, key: u8) -> bool {
        key < 16 && self.pressed@[key as int]
    }

    /// The key handed in for a pending wait, if it names a logical key.
    pub open spec fn key_press_spec(&self) -> Option<u8> {
        match self.key_press {
            Some(k) => if k < 16 { Some(k) } else { None },
            None => None,
        }
    }

    /// No key held and no key pressed.
    pub fn new() -> (r: Self)
        ensures
            forall|k: u8| !r.is_pressed_spec(k),
            r.key_press is None,
    {
        KeyState { pressed: [false; 16], key_press: None }
    }

    pub fn is_pressed(&self, key: u8) -> (r: bool)
        ensures
            r == self.is_pressed_spec(key),
    {
        key < 16 && self.pressed[key as usize]
    }

    pub fn pressed_key(&self) -> (r: Option<u8>)
        ensures
            r == self.key_press_spec(),
    {
        match self.key_press {
            Some(k) => if k < 16 { Some(k) } else { None },
            None => None,
        }
    }
}

} // verus!
