//! The host side of a key event: from the key code and modifier flags of
//! the input method framework to the edit the framework applies.

use crate::data::keys;
use crate::engine::ime::Engine;
use crate::engine::model::{flushed, no_output, step, Action, EngineView, Outcome};
use crate::keymap::{linux_key_shifted, linux_to_key_shifted};
use vstd::prelude::*;

verus! {

/// Modifier flag of the shift key.
pub const SHIFT_MASK: u32 = 0x1;

/// Modifier flag of caps lock.
pub const LOCK_MASK: u32 = 0x2;

/// Modifier flag of the control key.
pub const CONTROL_MASK: u32 = 0x4;

/// Modifier flag of the alt key.
pub const MOD1_MASK: u32 = 0x8;

/// The edit the host applies for a key it must not handle itself.
#[derive(Debug)]
pub struct HostEdit {
    /// Text to commit.
    pub text: String,
    /// Number of characters to delete first.
    pub backspace: u8,
}

/// Whether a modifier flag is set.
pub open spec fn flag_set(modifiers: u32, mask: u32) -> bool {
    modifiers & mask != 0
}

/// Whether control or alt is held.
pub open spec fn command_held(modifiers: u32) -> bool {
    flag_set(modifiers, CONTROL_MASK) || flag_set(modifiers, MOD1_MASK)
}

/// The step of the engine for a key event of the host. The key is the
/// one the key code stands for under the shift state; the letter case is
/// upper when exactly one of caps lock and shift is on; alt counts as
/// control.
pub open spec fn host_step(s: EngineView, keycode: u32, modifiers: u32) -> Outcome {
    step(
        s,
        linux_key_shifted(keycode, flag_set(modifiers, SHIFT_MASK)),
        flag_set(modifiers, LOCK_MASK) != flag_set(modifiers, SHIFT_MASK),
        command_held(modifiers),
        flag_set(modifiers, SHIFT_MASK),
    )
}

/// A key without identifier and a key held with control or alt end the
/// word of an engine that is switched on: the engine has no output, and
/// the next key begins a new word.
pub proof fn lemma_skipped_key_flushes(s: EngineView, keycode: u32, modifiers: u32)
    requires
        s.config.enabled,
        command_held(modifiers) || linux_key_shifted(keycode, flag_set(modifiers, SHIFT_MASK))
            == keys::UNMAPPED,
    ensures
        host_step(s, keycode, modifiers).state == flushed(s),
        host_step(s, keycode, modifiers).result == no_output(),
{
}

/// Processes a key event of the host.
///
/// Every event goes to the engine, which takes its step: a key without
/// identifier and a key held with control or alt end the word and are
/// left to the host. The host gets an edit exactly when the engine sends
/// one.
pub fn process_key(engine: &mut Engine, keycode: u32, modifiers: u32) -> (r: Option<HostEdit>)
    requires
        old(engine).wf(),
    ensures
        final(engine).wf(),
        final(engine)@ == host_step(old(engine)@, keycode, modifiers).state,
        match r {
            Some(edit) => {
                let result = host_step(old(engine)@, keycode, modifiers).result;
                result.action == Action::Send && edit.text@ == result.text && edit.backspace
                    == result.backspace
            },
            None => host_step(old(engine)@, keycode, modifiers).result.action == Action::Pass,
        },
{
    let caps = (modifiers & LOCK_MASK) != 0;
    let shift = (modifiers & SHIFT_MASK) != 0;
    let held = (modifiers & CONTROL_MASK) != 0 || (modifiers & MOD1_MASK) != 0;
    let key = linux_to_key_shifted(keycode, shift);
    let result = engine.on_key(key, caps != shift, held, shift);
    match result.action {
        Action::Send => Some(
            HostEdit { text: result.text_string(), backspace: result.backspace as u8 },
        ),
        Action::Pass => None,
    }
}

} // verus!
