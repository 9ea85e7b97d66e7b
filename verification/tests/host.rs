use vikey::data::keys;
use vikey::engine::ime::Engine;
use vikey::host::{process_key, CONTROL_MASK, LOCK_MASK, MOD1_MASK, SHIFT_MASK};
use vikey::keymap::{linux_to_key, linux_to_key_shifted};

#[test]
fn keymap_letters_digits_and_controls() {
    assert_eq!(linux_to_key(38), keys::A);
    assert_eq!(linux_to_key(24), keys::Q);
    assert_eq!(linux_to_key(33), keys::P);
    assert_eq!(linux_to_key(46), keys::L);
    assert_eq!(linux_to_key(52), keys::Z);
    assert_eq!(linux_to_key(58), keys::M);
    assert_eq!(linux_to_key(10), keys::N1);
    assert_eq!(linux_to_key(18), keys::N9);
    assert_eq!(linux_to_key(19), keys::N0);
    assert_eq!(linux_to_key(9), keys::ESC);
    assert_eq!(linux_to_key(22), keys::BACKSPACE);
    assert_eq!(linux_to_key(36), keys::ENTER);
    assert_eq!(linux_to_key(65), keys::SPACE);
    assert_eq!(linux_to_key(60), keys::PERIOD);
}

#[test]
fn keymap_with_shift() {
    assert_eq!(linux_to_key_shifted(10, true), keys::EXCLAMATION);
    assert_eq!(linux_to_key_shifted(10, false), keys::N1);
    assert_eq!(linux_to_key_shifted(61, true), keys::QUESTION);
    assert_eq!(linux_to_key_shifted(61, false), keys::UNMAPPED);
    assert_eq!(linux_to_key_shifted(60, true), keys::UNMAPPED);
    assert_eq!(linux_to_key_shifted(60, false), keys::PERIOD);
    assert_eq!(linux_to_key_shifted(38, true), keys::A);
    assert_eq!(linux_to_key_shifted(11, true), keys::N2);
}

#[test]
fn keymap_everything_else_is_unmapped() {
    for code in [0u32, 8, 20, 23, 34, 37, 47, 51, 59, 61, 64, 66, 200, u32::MAX] {
        assert_eq!(linux_to_key(code), keys::UNMAPPED);
    }
}

fn engine() -> Engine {
    let mut engine = Engine::new();
    engine.set_english_auto_restore(false);
    engine
}

#[test]
fn process_key_returns_an_edit_only_when_the_engine_sends_one() {
    let mut engine = engine();
    // `a` is left to the host.
    assert!(process_key(&mut engine, 38, 0).is_none());
    assert_eq!(engine.render(), "a");
    // `s` puts the mark on it.
    let edit = process_key(&mut engine, 39, 0).unwrap();
    assert_eq!(edit.text, "á");
    assert_eq!(edit.backspace, 1);
}

#[test]
fn process_key_case_is_caps_lock_xor_shift() {
    let mut e = engine();
    process_key(&mut e, 38, SHIFT_MASK);
    assert_eq!(e.render(), "A");
    let mut e = engine();
    process_key(&mut e, 38, LOCK_MASK);
    assert_eq!(e.render(), "A");
    let mut e = engine();
    process_key(&mut e, 38, LOCK_MASK | SHIFT_MASK);
    assert_eq!(e.render(), "a");
}

#[test]
fn process_key_control_alt_and_unmapped_keys_end_the_word() {
    for (keycode, modifiers) in [(39, CONTROL_MASK), (39, MOD1_MASK), (200, 0), (55, CONTROL_MASK)]
    {
        let mut e = engine();
        process_key(&mut e, 38, 0);
        assert_eq!(e.render(), "a");
        // The key is left to the host, and the word is over.
        assert!(process_key(&mut e, keycode, modifiers).is_none());
        assert_eq!(e.render(), "");
        assert_eq!(e.raw_string(), "");
        // The next key begins a new word: `s` is a plain letter and
        // cannot put a mark on the earlier `a`.
        assert!(process_key(&mut e, 39, 0).is_none());
        assert_eq!(e.render(), "s");
    }
}

#[test]
fn process_key_leaves_a_disabled_engine_alone() {
    let mut e = engine();
    process_key(&mut e, 38, 0);
    e.set_enabled(false);
    assert!(process_key(&mut e, 39, CONTROL_MASK).is_none());
    assert!(process_key(&mut e, 39, 0).is_none());
    assert_eq!(e.render(), "");
}

#[test]
fn process_key_shifted_digit_is_no_vni_key() {
    let mut e = engine();
    e.set_method(1);
    process_key(&mut e, 38, 0);
    assert!(process_key(&mut e, 11, SHIFT_MASK).is_none());
    assert_eq!(e.render(), "");
    process_key(&mut e, 38, 0);
    let edit = process_key(&mut e, 11, 0).unwrap();
    assert_eq!(edit.text, "à");
    assert_eq!(edit.backspace, 1);
}

#[test]
fn process_key_sentence_end_starts_a_capital() {
    let mut e = engine();
    e.set_auto_capitalize(true);
    process_key(&mut e, 38, 0);
    // Shift and `1` type the exclamation mark, which ends the sentence.
    assert!(process_key(&mut e, 10, SHIFT_MASK).is_none());
    assert!(process_key(&mut e, 65, 0).is_none());
    let edit = process_key(&mut e, 38, 0).unwrap();
    assert_eq!(edit.text, "A");
    assert_eq!(edit.backspace, 0);
}
