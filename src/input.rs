//! The keyboard layout of the hex keypad and the handling of key events.
//!
//! The left-hand block of a QWERTY keyboard stands for the keypad:
//!
//! ```text
//! 1 2 3 4        1 2 3 C
//! Q W E R   ->   4 5 6 D
//! A S D F        7 8 9 E
//! Z X C V        A 0 B F
//! ```
//!
//! F5 saves the machine state and F6 restores it.

use vstd::prelude::*;
use crate::chip8::{Chip8, Vm};

verus! {

/// The physical keys the emulator responds to.
#[derive(Clone, Copy, Debug, PartialEq, Eq, Structural)]
pub enum Key {
    Key1,
    Key2,
    Key3,
    Key4,
    Q,
    W,
    E,
    R,
    A,
    S,
    D,
    F,
    Z,
    X,
    C,
    V,
    F5,
    F6,
    /// Any other key.
    Other,
}

/// What the caller has to do after a key event.
#[derive(Clone, Copy, Debug, PartialEq, Eq, Structural)]
pub enum InputAction {
    /// Nothing beyond what the event did to the keypad.
    Nothing,
    /// Write the machine state to the save file.
    SaveState,
    /// Replace the machine state with the one in the save file.
    LoadState,
}

/// The keypad key that physical key `k` stands for, if any.
pub open spec fn keypad_value(k: Key) -> Option<int> {
    match k {
        Key::Key1 => Some(0x1),
        Key::Key2 => Some(0x2),
        Key::Key3 => Some(0x3),
        Key::Key4 => Some(0xC),
        Key::Q => Some(0x4),
        Key::W => Some(0x5),
        Key::E => Some(0x6),
        Key::R => Some(0xD),
        Key::A => Some(0x7),
        Key::S => Some(0x8),
        Key::D => Some(0x9),
        Key::F => Some(0xE),
        Key::Z => Some(0xA),
        Key::X => Some(0x0),
        Key::C => Some(0xB),
        Key::V => Some(0xF),
        _ => None,
    }
}

/// The keypad key that `k` stands for, if any.
pub fn keypad_key(k: Key) -> (r: Option<usize>)
    ensures
        r matches Some(v) ==> v < 16,
        match r {
            Some(v) => keypad_value(k) == Some(v as int),
            None => keypad_value(k) is None,
        },
{
    match k {
        Key::Key1 => Some(0x1),
        Key::Key2 => Some(0x2),
        Key::Key3 => Some(0x3),
        Key::Key4 => Some(0xC),
        Key::Q => Some(0x4),
        Key::W => Some(0x5),
        Key::E => Some(0x6),
        Key::R => Some(0xD),
        Key::A => Some(0x7),
        Key::S => Some(0x8),
        Key::D => Some(0x9),
        Key::F => Some(0xE),
        Key::Z => Some(0xA),
        Key::X => Some(0x0),
        Key::C => Some(0xB),
        Key::V => Some(0xF),
        _ => None,
    }
}

/// Applies a key event: a keypad key is recorded as pressed or released;
/// pressing F5 or F6 asks the caller to save or restore the state.
pub fn parse_input(key: Key, pressed: bool, chip8inst: &mut Chip8) -> (r: InputAction)
    ensures
        keypad_value(key) matches Some(v) ==> final(chip8inst)@ == (Vm {
            keys: old(chip8inst)@.keys.update(v, pressed),
            ..old(chip8inst)@
        }) && r == InputAction::Nothing,
        keypad_value(key) is None ==> final(chip8inst)@ == old(chip8inst)@,
        key == Key::F5 ==> r == if pressed {
            InputAction::SaveState
        } else {
            InputAction::Nothing
        },
        key == Key::F6 ==> r == if pressed {
            InputAction::LoadState
        } else {
            InputAction::Nothing
        },
        key == Key::Other ==> r == InputAction::Nothing,
{
    match keypad_key(key) {
        Some(v) => {
            chip8inst.set_key(v, pressed);
            InputAction::Nothing
        },
        None => match key {
            Key::F5 => if pressed {
                InputAction::SaveState
            } else {
                InputAction::Nothing
            },
            Key::F6 => if pressed {
                InputAction::LoadState
            } else {
                InputAction::Nothing
            },
            _ => InputAction::Nothing,
        },
    }
}

} // verus!
