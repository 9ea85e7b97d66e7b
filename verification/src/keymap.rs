//! Translation of Linux key codes to the engine's key identifiers.

use crate::data::keys;
use vstd::prelude::*;

verus! {

/// Number of key codes the table covers.
pub const LINUX_KEY_CODES: usize = 66;

/// The key identifier of each X11 key code of a Linux keyboard, from 0
/// to 65, without shift: the letters, the digit row, escape, backspace,
/// enter, the full stop and space.
pub const LINUX_KEYS: [u16; 66] = [
    keys::UNMAPPED, keys::UNMAPPED, keys::UNMAPPED, keys::UNMAPPED, keys::UNMAPPED, keys::UNMAPPED,
    keys::UNMAPPED, keys::UNMAPPED, keys::UNMAPPED, keys::ESC, keys::N1, keys::N2,
    keys::N3, keys::N4, keys::N5, keys::N6, keys::N7, keys::N8,
    keys::N9, keys::N0, keys::UNMAPPED, keys::UNMAPPED, keys::BACKSPACE, keys::UNMAPPED,
    keys::Q, keys::W, keys::E, keys::R, keys::T, keys::Y,
    keys::U, keys::I, keys::O, keys::P, keys::UNMAPPED, keys::UNMAPPED,
    keys::ENTER, keys::UNMAPPED, keys::A, keys::S, keys::D, keys::F,
    keys::G, keys::H, keys::J, keys::K, keys::L, keys::UNMAPPED,
    keys::UNMAPPED, keys::UNMAPPED, keys::UNMAPPED, keys::UNMAPPED, keys::Z, keys::X,
    keys::C, keys::V, keys::B, keys::N, keys::M, keys::UNMAPPED,
    keys::PERIOD, keys::UNMAPPED, keys::UNMAPPED, keys::UNMAPPED, keys::UNMAPPED, keys::SPACE,
];

/// The key identifier of a Linux key code; the sentinel for a key code
/// outside the table.
pub open spec fn linux_key(keycode: u32) -> u16 {
    if keycode < LINUX_KEY_CODES {
        LINUX_KEYS[keycode as int]
    } else {
        keys::UNMAPPED
    }
}

/// Key code of the key that types `1`, and `!` with shift.
pub const KEYCODE_1: u32 = 10;

/// Key code of the key that types the full stop.
pub const KEYCODE_PERIOD: u32 = 60;

/// Key code of the key that types `/`, and `?` with shift.
pub const KEYCODE_SLASH: u32 = 61;

/// The key identifier of a Linux key code under the shift state: with
/// shift the keys of `1` and `/` type the exclamation mark and the
/// question mark, and the key of the full stop types no key the engine
/// knows; every other key is the one the table gives.
pub open spec fn linux_key_shifted(keycode: u32, shift: bool) -> u16 {
    if shift && keycode == KEYCODE_1 {
        keys::EXCLAMATION
    } else if shift && keycode == KEYCODE_SLASH {
        keys::QUESTION
    } else if shift && keycode == KEYCODE_PERIOD {
        keys::UNMAPPED
    } else {
        linux_key(keycode)
    }
}

/// Translates a Linux key code and the shift state to a key identifier.
pub fn linux_to_key_shifted(keycode: u32, shift: bool) -> (key: u16)
    ensures
        key == linux_key_shifted(keycode, shift),
{
    if shift && keycode == KEYCODE_1 {
        keys::EXCLAMATION
    } else if shift && keycode == KEYCODE_SLASH {
        keys::QUESTION
    } else if shift && keycode == KEYCODE_PERIOD {
        keys::UNMAPPED
    } else {
        linux_to_key(keycode)
    }
}

/// Translates a Linux key code to a key identifier.
pub fn linux_to_key(keycode: u32) -> (key: u16)
    ensures
        key == linux_key(keycode),
{
    if (keycode as usize) < LINUX_KEY_CODES {
        LINUX_KEYS[keycode as usize]
    } else {
        keys::UNMAPPED
    }
}

} // verus!
