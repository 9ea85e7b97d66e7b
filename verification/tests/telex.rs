use vikey::data::keys;
use vikey::input::telex::Telex;
use vikey::input::{Method, ToneType, HORN_TARGETS_TELEX};

#[test]
fn telex_test_marks() {
    let t = Telex;
    assert_eq!(t.mark(keys::S), Some(1));
    assert_eq!(t.mark(keys::F), Some(2));
    assert_eq!(t.mark(keys::A), None);
}

#[test]
fn telex_test_tones() {
    let t = Telex;
    assert_eq!(t.tone(keys::A), Some(ToneType::Circumflex));
    assert_eq!(t.tone(keys::W), Some(ToneType::Horn));
    assert_eq!(t.tone(keys::B), None);
}

#[test]
fn test_tone_targets() {
    let t = Telex;
    assert_eq!(t.tone_targets(keys::A), &[keys::A]);
    assert_eq!(t.tone_targets(keys::W), HORN_TARGETS_TELEX);
}

#[test]
fn telex_all_marks_stroke_and_remove() {
    let t = Telex;
    assert_eq!(t.mark(keys::R), Some(3));
    assert_eq!(t.mark(keys::X), Some(4));
    assert_eq!(t.mark(keys::J), Some(5));
    assert_eq!(t.tone(keys::E), Some(ToneType::Circumflex));
    assert_eq!(t.tone(keys::O), Some(ToneType::Circumflex));
    assert!(t.stroke(keys::D));
    assert!(!t.stroke(keys::N9));
    assert!(t.remove(keys::Z));
    assert!(!t.remove(keys::N0));
    assert!(t.tone_targets(keys::B).is_empty());
    assert_eq!(t.tone_targets(keys::W), &[keys::A, keys::O, keys::U]);
}
