use vikey::data::chars::{mark, tone};
use vikey::data::english_dict::is_english_word;
use vikey::data::keys;
use vikey::engine::buffer::{Buffer, Char};
use vikey::engine::ime::Engine;
use vikey::engine::model::Action;
use vikey::engine::transform::{
    apply_mark, apply_remove, apply_stroke, apply_tone, revert_mark, revert_stroke, revert_tone,
};

/// A small deterministic generator of numbers.
struct Numbers(u64);

impl Numbers {
    fn next(&mut self) -> u64 {
        self.0 = self.0.wrapping_mul(6364136223846793005).wrapping_add(1442695040888963407);
        self.0 >> 33
    }

    fn below(&mut self, n: u64) -> u64 {
        self.next() % n
    }
}

/// Keys of a typical typing session: mostly letters and digits that
/// transform, some boundaries and control keys.
fn some_key(numbers: &mut Numbers) -> u16 {
    const KEYS: [u16; 30] = [
        keys::A, keys::A, keys::E, keys::O, keys::U, keys::I, keys::Y, keys::W, keys::D, keys::D,
        keys::S, keys::F, keys::R, keys::X, keys::J, keys::Z, keys::N, keys::G, keys::C, keys::T,
        keys::Q, keys::H, keys::N1, keys::N6, keys::N7, keys::N8, keys::N9, keys::N0,
        keys::BACKSPACE, keys::SPACE,
    ];
    match numbers.below(40) {
        0 => keys::ESC,
        1 => keys::ENTER,
        2 => keys::UNMAPPED,
        n => KEYS[(n % 30) as usize],
    }
}

fn check_buffer(buf: &Buffer) {
    assert!(buf.len() <= 16);
    let mut marks = 0;
    for i in 0..buf.len() {
        let c = buf.get(i).unwrap();
        let vowel = [keys::A, keys::E, keys::I, keys::O, keys::U, keys::Y].contains(&c.key);
        if c.mark != mark::NONE {
            marks += 1;
            assert!(vowel);
            assert!(c.mark <= mark::NANG);
        }
        if c.tone != tone::NONE {
            assert!(vowel);
            assert!(c.tone <= tone::BREVE);
        }
        if c.stroke {
            assert_eq!(c.key, keys::D);
        }
    }
    assert!(marks <= 1);
    assert_eq!(buf.render().chars().count(), buf.len());
}

#[test]
fn buffer_invariant_holds_in_every_state() {
    let mut numbers = Numbers(7);
    for round in 0..200 {
        let mut engine = Engine::new();
        engine.set_method((round % 2) as u8);
        engine.set_english_auto_restore(round % 3 == 0);
        engine.set_free_tone(round % 5 == 0);
        engine.set_allow_foreign_consonants(round % 7 == 0);
        for _ in 0..60 {
            let key = some_key(&mut numbers);
            let caps = numbers.below(4) == 0;
            engine.on_key(key, caps, false, false);
            check_buffer(engine.buffer());
        }
    }
}

#[test]
fn transformations_keep_the_buffer_invariant() {
    let mut numbers = Numbers(11);
    for _ in 0..300 {
        let mut buf = Buffer::new();
        for _ in 0..numbers.below(10) {
            let key = some_key(&mut numbers);
            buf.push(Char::new(key, numbers.below(2) == 0));
        }
        for _ in 0..12 {
            match numbers.below(7) {
                0 => {
                    apply_mark(&mut buf, (numbers.below(7)) as u8, numbers.below(2) == 0);
                }
                1 => {
                    let key = some_key(&mut numbers);
                    apply_tone(&mut buf, key, (numbers.below(5)) as u8, numbers.below(2) as u8);
                }
                2 => {
                    apply_stroke(&mut buf);
                }
                3 => {
                    apply_remove(&mut buf);
                }
                4 => {
                    revert_mark(&mut buf);
                }
                5 => {
                    revert_stroke(&mut buf);
                }
                _ => {
                    revert_tone(&mut buf, some_key(&mut numbers));
                }
            }
            check_buffer(&buf);
        }
    }
}

/// What the host shows for the word after it has acted on a result.
fn host_word(shown: &str, key: u16, caps: bool, action: Action, backspace: usize, text: &str) -> String {
    let mut word: Vec<char> = shown.chars().collect();
    match action {
        Action::Send => {
            assert!(backspace <= word.len());
            word.truncate(word.len() - backspace);
            word.extend(text.chars());
        }
        Action::Pass => {
            if (keys::A..=keys::Z).contains(&key) || (keys::N0..=keys::N9).contains(&key) {
                let c = key as u8 as char;
                word.push(if caps { c.to_ascii_uppercase() } else { c });
            } else if key == keys::BACKSPACE {
                word.pop();
            }
        }
    }
    word.into_iter().collect()
}

#[test]
fn the_host_stays_in_line_with_the_buffer() {
    let mut numbers = Numbers(3);
    for round in 0..200 {
        let mut engine = Engine::new();
        engine.set_method((round % 2) as u8);
        engine.set_english_auto_restore(round % 3 == 0);
        for _ in 0..60 {
            let key = loop {
                let key = some_key(&mut numbers);
                // Keys that end the word are left out: the host keeps the
                // word it shows and the engine begins a new one.
                if key != keys::SPACE
                    && key != keys::ENTER
                    && key != keys::ESC
                    && key != keys::UNMAPPED
                {
                    break key;
                }
            };
            let caps = numbers.below(4) == 0;
            let is_text = key != keys::BACKSPACE;
            let full = engine.buffer().len() + 2 > 16 || engine.raw_string().chars().count() >= 16;
            let shown = if is_text && full { String::new() } else { engine.render() };
            let result = engine.on_key(key, caps, false, false);
            let word =
                host_word(&shown, key, caps, result.action, result.backspace, &result.text_string());
            assert_eq!(word, engine.render());
        }
    }
}

#[test]
fn english_words_are_rendered_as_typed() {
    let mut numbers = Numbers(5);
    let letters: Vec<u16> = "aeoudswfrxjthnivl".chars().map(|c| c as u16).collect();
    let mut hits = 0;
    for _ in 0..400 {
        let mut engine = Engine::new();
        for _ in 0..8 {
            let key = letters[numbers.below(letters.len() as u64) as usize];
            let caps = numbers.below(5) == 0;
            engine.on_key(key, caps, false, false);
            let raw = engine.raw_string();
            if is_english_word(&raw) {
                hits += 1;
                assert_eq!(engine.render(), raw);
            }
        }
    }
    assert!(hits > 0);
}

#[test]
fn double_tap_leaves_the_raw_letter_twice() {
    for vowel in ["a", "e", "i", "o", "u", "y"] {
        for key in ["s", "f", "r", "x", "j"] {
            let mut engine = Engine::new();
            engine.set_english_auto_restore(false);
            let typed = format!("{vowel}{key}{key}");
            assert_eq!(engine.process_sequence(&typed, 0), typed);
        }
    }
    for letter in ["a", "e", "o", "w", "d"] {
        let mut engine = Engine::new();
        engine.set_english_auto_restore(false);
        let out = engine.process_sequence(&format!("{letter}{letter}{letter}"), 0);
        assert!(out.ends_with(&format!("{letter}{letter}")));
    }
}

#[test]
fn double_tap_with_english_restore_still_ends_as_the_raw_letters() {
    // The built-in list holds `as`; the settings of a fresh engine have
    // English auto-restore on.
    let mut engine = Engine::new();
    assert!(engine.config().english_auto_restore);
    assert!(is_english_word("as"));
    assert_eq!(engine.process_sequence("as", 0), "as");
    assert_eq!(engine.process_sequence("ass", 0), "ass");
    for vowel in ["a", "e", "i", "o", "u", "y"] {
        for key in ["s", "f", "r", "x", "j"] {
            let typed = format!("{vowel}{key}{key}");
            assert_eq!(engine.process_sequence(&typed, 0), typed);
        }
    }
    for letter in ["a", "e", "o", "w", "d"] {
        let out = engine.process_sequence(&format!("{letter}{letter}{letter}"), 0);
        assert!(out.ends_with(&format!("{letter}{letter}")));
    }
    // A custom list with the three letters: the word is rendered as typed.
    engine.set_dictionary(vikey::data::english_dict::Dictionary::from_text("aaa\n"));
    assert_eq!(engine.process_sequence("aa", 0), "â");
    assert_eq!(engine.process_sequence("aaa", 0), "aaa");
    // With the two letters in the list they stay, and the third finds a
    // plain twin to transform.
    engine.set_dictionary(vikey::data::english_dict::Dictionary::from_text("aa\n"));
    assert_eq!(engine.process_sequence("aa", 0), "aa");
    assert_eq!(engine.process_sequence("aaa", 0), "aâ");
}

#[test]
fn escape_gives_the_raw_keys_and_then_nothing() {
    let mut numbers = Numbers(13);
    for round in 0..200 {
        let mut engine = Engine::new();
        engine.set_method((round % 2) as u8);
        engine.set_english_auto_restore(false);
        for _ in 0..numbers.below(12) {
            let key = loop {
                let key = some_key(&mut numbers);
                if key != keys::ESC {
                    break key;
                }
            };
            engine.on_key(key, numbers.below(4) == 0, false, false);
        }
        let shown = engine.render();
        let raw = engine.raw_string();
        let result = engine.on_key(keys::ESC, false, false, false);
        let word = host_word(
            &shown,
            keys::ESC,
            false,
            result.action,
            result.backspace,
            &result.text_string(),
        );
        assert_eq!(word, raw);
        let again = engine.on_key(keys::ESC, false, false, false);
        assert_eq!(again.action, Action::Pass);
        assert_eq!(engine.render(), "");
        assert_eq!(engine.raw_string(), "");
    }
}

#[test]
fn reverts_undo_what_was_applied() {
    let mut buf = Buffer::new();
    for key in [keys::D, keys::U, keys::A] {
        buf.push(Char::new(key, false));
    }
    let before = buf.render();
    apply_stroke(&mut buf);
    revert_stroke(&mut buf);
    assert_eq!(buf.render(), before);
    apply_mark(&mut buf, mark::HOI, true);
    assert_ne!(buf.render(), before);
    revert_mark(&mut buf);
    assert_eq!(buf.render(), before);
}
