use vikey::data::english_dict::Dictionary;
use vikey::data::keys;
use vikey::engine::ime::Engine;
use vikey::engine::model::{Action, ActionKind};

/// An engine without English auto-restore.
fn plain_engine() -> Engine {
    let mut engine = Engine::new();
    engine.set_english_auto_restore(false);
    engine
}

fn telex(keys: &str) -> String {
    plain_engine().process_sequence(keys, 0)
}

fn vni(keys: &str) -> String {
    plain_engine().process_sequence(keys, 1)
}

#[test]
fn telex_tieng() {
    assert_eq!(telex("tieengs"), "tiếng");
}

#[test]
fn telex_duoc() {
    assert_eq!(telex("duowcj"), "dược");
    assert_eq!(telex("dduowcj"), "ddược");
}

#[test]
fn telex_double_a_is_circumflex() {
    assert_eq!(telex("aa"), "â");
}

#[test]
fn telex_triple_a_is_two_letters() {
    assert_eq!(telex("aaa"), "aa");
}

#[test]
fn telex_nghieng() {
    assert_eq!(telex("nghieeng"), "nghiêng");
}

#[test]
fn telex_quas() {
    assert_eq!(telex("quas"), "quá");
}

#[test]
fn telex_quasa_has_no_second_circumflex() {
    assert_eq!(telex("quasa"), "quáa");
}

#[test]
fn telex_view_with_auto_restore() {
    let mut engine = Engine::new();
    assert!(engine.config().english_auto_restore);
    assert_eq!(engine.process_sequence("view", 0), "view");
}

#[test]
fn vni_tieng() {
    assert_eq!(vni("tie6ng1"), "tiếng");
}

#[test]
fn telex_double_d_is_two_letters() {
    assert_eq!(telex("dd"), "dd");
}

#[test]
fn double_tap_of_each_telex_letter() {
    assert_eq!(telex("ee"), "ê");
    assert_eq!(telex("eee"), "ee");
    assert_eq!(telex("oo"), "ô");
    assert_eq!(telex("ooo"), "oo");
    assert_eq!(telex("ww"), "ww");
    assert_eq!(telex("uw"), "ư");
    assert_eq!(telex("uww"), "uww");
    assert_eq!(telex("AAA"), "AA");
}

#[test]
fn double_tap_of_each_mark_key() {
    assert_eq!(telex("as"), "á");
    assert_eq!(telex("ass"), "ass");
    assert_eq!(telex("af"), "à");
    assert_eq!(telex("aff"), "aff");
    assert_eq!(telex("ar"), "ả");
    assert_eq!(telex("arr"), "arr");
    assert_eq!(telex("ax"), "ã");
    assert_eq!(telex("axx"), "axx");
    assert_eq!(telex("aj"), "ạ");
    assert_eq!(telex("ajj"), "ajj");
    assert_eq!(telex("aSs"), "aSs");
}

#[test]
fn mark_without_vowel_types_the_letters() {
    assert_eq!(telex("kff"), "kff");
}

#[test]
fn stroke_key_is_appended_and_strokes_a_distant_d() {
    assert_eq!(telex("dod"), "đod");
    assert_eq!(telex("dodd"), "dodd");
    assert_eq!(vni("da9"), "đa");
    assert_eq!(vni("da99"), "da99");
    assert_eq!(vni("9"), "9");
    // Without a vowel the word is no syllable and takes no stroke.
    assert_eq!(vni("d9"), "d9");
    assert_eq!(telex("dnd"), "dnd");
}

#[test]
fn remove_key() {
    assert_eq!(telex("asz"), "a");
    assert_eq!(telex("aasz"), "â");
    assert_eq!(telex("aaszz"), "a");
    assert_eq!(telex("az"), "az");
    assert_eq!(vni("a10"), "a");
}

#[test]
fn a_mark_that_changes_nothing_is_a_letter() {
    assert_eq!(telex("asns"), "áns");
    assert_eq!(telex("asnf"), "àn");
}

#[test]
fn invalid_syllable_takes_no_mark_unless_free_tone() {
    // "ab" is no syllable: `b` is no final consonant.
    assert_eq!(telex("abs"), "abs");
    let mut engine = plain_engine();
    engine.set_free_tone(true);
    assert_eq!(engine.process_sequence("abs", 0), "áb");
}

#[test]
fn foreign_initial_takes_no_mark_unless_allowed() {
    assert_eq!(telex("zas"), "zas");
    let mut engine = plain_engine();
    engine.set_allow_foreign_consonants(true);
    assert_eq!(engine.process_sequence("zas", 0), "zá");
}

#[test]
fn modern_and_traditional_placement() {
    assert_eq!(telex("hoaf"), "hòa");
    let mut engine = plain_engine();
    engine.set_modern_tone(false);
    assert_eq!(engine.process_sequence("hoaf", 0), "hoà");
}

#[test]
fn english_word_is_restored_to_raw() {
    let mut engine = Engine::new();
    assert_eq!(engine.process_sequence("as", 0), "as");
    assert_eq!(engine.process_sequence("see", 0), "see");
    assert_eq!(engine.process_sequence("Off", 0), "Off");
    // Not a word: stays Vietnamese.
    assert_eq!(engine.process_sequence("tieengs", 0), "tiếng");
    // With the feature off the word is transformed.
    engine.set_english_auto_restore(false);
    assert_eq!(engine.process_sequence("as", 0), "á");
}

#[test]
fn english_restore_uses_the_given_dictionary() {
    let mut engine = Engine::new();
    engine.set_dictionary(Dictionary::from_text("tieengs\n"));
    assert_eq!(engine.process_sequence("tieengs", 0), "tieengs");
    assert_eq!(engine.process_sequence("as", 0), "á");
}

#[test]
fn escape_restores_the_raw_keys() {
    let mut engine = plain_engine();
    for c in "tieengs".chars() {
        engine.on_key(c as u16, false, false, false);
    }
    assert_eq!(engine.render(), "tiếng");
    assert_eq!(engine.raw_string(), "tieengs");
    let result = engine.on_key(keys::ESC, false, false, false);
    assert_eq!(result.action, Action::Send);
    assert_eq!(result.backspace, 3);
    assert_eq!(result.text_string(), "eengs");
    assert_eq!(engine.render(), "");
    assert_eq!(engine.raw_string(), "");
    // A second ESC is a no-op.
    let result = engine.on_key(keys::ESC, false, false, false);
    assert_eq!(result.action, Action::Pass);
    assert_eq!(result.backspace, 0);
    assert!(result.text.is_empty());
    assert_eq!(engine.render(), "");
    assert_eq!(plain_engine().process_sequence("tieengs\u{1b}", 0), "tieengs");
    assert_eq!(plain_engine().process_sequence("tieengs\u{1b}\u{1b}", 0), "tieengs");
}

#[test]
fn escape_without_restore_only_ends_the_word() {
    let mut engine = plain_engine();
    engine.set_esc_restore(false);
    assert_eq!(engine.process_sequence("as\u{1b}s", 0), "ás");
}

#[test]
fn outputs_are_minimal_edits() {
    let mut engine = plain_engine();
    let r = engine.on_key(keys::A, false, false, false);
    assert_eq!(r.action, Action::Pass);
    assert_eq!(engine.last_action(), ActionKind::Letter);
    let r = engine.on_key(keys::N, false, false, false);
    assert_eq!(r.action, Action::Pass);
    let r = engine.on_key(keys::S, false, false, false);
    assert_eq!(r.action, Action::Send);
    assert_eq!(r.backspace, 2);
    assert_eq!(r.text_string(), "án");
    assert_eq!(engine.last_action(), ActionKind::Mark);
    assert_eq!(engine.render(), "án");
    assert_eq!(engine.history().len(), 3);
    let entry = engine.history().get(2).unwrap();
    assert_eq!(entry.key, keys::S);
    assert_eq!(entry.backspace, 2);
}

#[test]
fn backspace_backs_off_the_outermost_diacritic() {
    let mut engine = plain_engine();
    for c in "aas".chars() {
        engine.on_key(c as u16, false, false, false);
    }
    assert_eq!(engine.render(), "ấ");
    let r = engine.on_key(keys::BACKSPACE, false, false, false);
    assert_eq!(r.action, Action::Send);
    assert_eq!(r.backspace, 1);
    assert_eq!(r.text_string(), "â");
    let r = engine.on_key(keys::BACKSPACE, false, false, false);
    assert_eq!(r.text_string(), "a");
    assert_eq!(engine.raw_string(), "a");
    // A plain letter is left to the host.
    let r = engine.on_key(keys::BACKSPACE, false, false, false);
    assert_eq!(r.action, Action::Pass);
    assert_eq!(engine.render(), "");
    let r = engine.on_key(keys::BACKSPACE, false, false, false);
    assert_eq!(r.action, Action::Pass);
    assert_eq!(plain_engine().process_sequence("aas\u{8}\u{8}\u{8}b", 0), "b");
}

#[test]
fn word_boundary_starts_a_new_word() {
    assert_eq!(telex("a as"), "a á");
    assert_eq!(telex("a\nas"), "a\ná");
    assert_eq!(telex("a.as"), "a.á");
    assert_eq!(telex("a!as?"), "a!á?");
    // A key without identifier ends the word as well; what it types is
    // the host's business.
    assert_eq!(telex("a,s"), "as");
}

#[test]
fn control_and_shifted_digits_end_the_word() {
    let mut engine = plain_engine();
    engine.set_method(1);
    engine.on_key(keys::A, false, false, false);
    let r = engine.on_key(keys::N2, false, false, true);
    assert_eq!(r.action, Action::Pass);
    assert_eq!(engine.render(), "");
    engine.on_key(keys::A, false, false, false);
    let r = engine.on_key(keys::S, false, true, false);
    assert_eq!(r.action, Action::Pass);
    assert_eq!(engine.render(), "");
}

#[test]
fn disabled_engine_does_nothing() {
    let mut engine = plain_engine();
    engine.set_enabled(false);
    let r = engine.on_key(keys::A, false, false, false);
    assert_eq!(r.action, Action::Pass);
    assert_eq!(engine.render(), "");
    assert_eq!(engine.process_sequence("aas", 0), "aas");
}

#[test]
fn shortcut_expands_at_the_word_boundary() {
    let mut engine = plain_engine();
    engine.add_shortcut("vn", "Việt Nam");
    engine.add_shortcut("hn", "Hà Nội");
    assert_eq!(engine.shortcut_count(), 2);
    assert_eq!(engine.process_sequence("vn hn\nvnn ", 0), "Việt Nam Hà Nội\nvnn ");
    // A later shortcut of the same trigger replaces the earlier one.
    engine.add_shortcut("vn", "Vietnam");
    assert_eq!(engine.shortcut_count(), 2);
    assert_eq!(engine.process_sequence("vn ", 0), "Vietnam ");
    engine.remove_shortcut("vn");
    assert_eq!(engine.process_sequence("vn ", 0), "vn ");
    engine.clear_shortcuts();
    assert_eq!(engine.shortcut_count(), 0);
}

#[test]
fn shortcut_with_nul_or_empty_trigger_is_ignored() {
    let mut engine = plain_engine();
    engine.add_shortcut("", "x");
    engine.add_shortcut("a\0b", "x");
    engine.add_shortcut("ab", "x\0");
    assert_eq!(engine.shortcut_count(), 0);
}

#[test]
fn shortcut_trigger_is_matched_against_raw_keys() {
    let mut engine = plain_engine();
    engine.add_shortcut("as", "always");
    assert_eq!(engine.process_sequence("as ", 0), "always ");
}

#[test]
fn auto_capitalize_after_a_sentence() {
    let mut engine = plain_engine();
    engine.set_auto_capitalize(true);
    assert_eq!(engine.process_sequence("a\nas a", 0), "a\nÁ a");
    assert_eq!(engine.process_sequence("\n as", 0), "\n Á");
    assert_eq!(engine.process_sequence("a. as! ee? oo a", 0), "a. Á! Ê? Ô a");
    // Only a letter is capitalized, and only the first key of the word.
    assert_eq!(engine.process_sequence("a. 1a", 1), "a. 1a");
    // A key without identifier in between drops the pending capital.
    assert_eq!(engine.process_sequence("a.,a", 0), "a.a");
    engine.set_auto_capitalize(false);
    assert_eq!(engine.process_sequence("a\nas", 0), "a\ná");
}

#[test]
fn a_full_word_is_committed_and_a_new_one_starts() {
    // A word takes a key only while two more records fit in the buffer.
    assert_eq!(telex("bbbbbbbbbbbbbaas"), "bbbbbbbbbbbbbấ");
    assert_eq!(telex("bbbbbbbbbbbbbbaas"), "bbbbbbbbbbbbbbaá");
    assert_eq!(telex("bbbbbbbbbbbbbbbas"), "bbbbbbbbbbbbbbbá");
}

#[test]
fn process_sequence_does_not_depend_on_history() {
    let mut used = plain_engine();
    used.process_sequence("dduowcj asdf", 1);
    for c in "nghie".chars() {
        used.on_key(c as u16, false, false, false);
    }
    let mut fresh = plain_engine();
    for keys in ["tieengs", "aaa", "quasa", "da9 a1", "hoaf\u{8}x"] {
        for method in [0u8, 1u8] {
            assert_eq!(used.process_sequence(keys, method), fresh.process_sequence(keys, method));
        }
    }
    assert_eq!(used.history().len(), fresh.history().len());
}

#[test]
fn clear_all_empties_the_history() {
    let mut engine = plain_engine();
    for _ in 0..40 {
        engine.on_key(keys::B, false, false, false);
    }
    assert_eq!(engine.history().len(), 32);
    engine.clear();
    assert_eq!(engine.history().len(), 32);
    assert_eq!(engine.render(), "");
    engine.clear_all();
    assert_eq!(engine.history().len(), 0);
}
