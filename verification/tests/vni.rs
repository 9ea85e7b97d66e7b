use vikey::data::keys;
use vikey::input::vni::Vni;
use vikey::input::{Method, ToneType, BREVE_TARGETS, CIRCUMFLEX_TARGETS, HORN_TARGETS_VNI};

#[test]
fn vni_test_marks() {
    let v = Vni;
    assert_eq!(v.mark(keys::N1), Some(1));
    assert_eq!(v.mark(keys::N5), Some(5));
    assert_eq!(v.mark(keys::A), None);
}

#[test]
fn vni_test_tones() {
    let v = Vni;
    assert_eq!(v.tone(keys::N6), Some(ToneType::Circumflex));
    assert_eq!(v.tone(keys::N7), Some(ToneType::Horn));
    assert_eq!(v.tone(keys::N8), Some(ToneType::Breve));
}

#[test]
fn test_stroke() {
    let v = Vni;
    assert!(v.stroke(keys::N9));
    assert!(!v.stroke(keys::D));
}

#[test]
fn vni_targets_and_remove() {
    let v = Vni;
    assert_eq!(v.mark(keys::N2), Some(2));
    assert_eq!(v.mark(keys::N3), Some(3));
    assert_eq!(v.mark(keys::N4), Some(4));
    assert_eq!(v.tone(keys::N9), None);
    assert_eq!(v.tone_targets(keys::N6), CIRCUMFLEX_TARGETS);
    assert_eq!(v.tone_targets(keys::N7), HORN_TARGETS_VNI);
    assert_eq!(v.tone_targets(keys::N8), BREVE_TARGETS);
    assert!(v.tone_targets(keys::N1).is_empty());
    assert!(v.remove(keys::N0));
    assert!(!v.remove(keys::Z));
    assert_eq!(ToneType::Breve.value(), 3);
}
