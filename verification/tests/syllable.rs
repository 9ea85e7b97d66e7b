use vikey::engine::syllable::{is_valid_structure, parse};
use vikey::utils::keys_from_str;

#[test]
fn parse_simple_syllable() {
    let s = parse(&keys_from_str("ba"));
    assert_eq!(s.initial.len(), 1);
    assert_eq!(s.vowel.len(), 1);
    assert!(s.final_c.is_empty());
}

#[test]
fn parse_ngh_initial() {
    let s = parse(&keys_from_str("nghieng"));
    assert_eq!(s.initial.len(), 3);
    assert_eq!(s.vowel.len(), 2);
    assert_eq!(s.final_c.len(), 2);
}

#[test]
fn parse_qu_initial() {
    let s = parse(&keys_from_str("qua"));
    assert_eq!(s.initial.len(), 2);
    assert_eq!(s.vowel.len(), 1);
    assert!(s.glide.is_none());
}

#[test]
fn parse_hoa_with_glide() {
    let s = parse(&keys_from_str("hoa"));
    assert_eq!(s.initial.len(), 1);
    assert!(s.glide.is_some());
    assert_eq!(s.vowel.len(), 1);
}

#[test]
fn parse_gi_initial() {
    let s = parse(&keys_from_str("giau"));
    assert_eq!(s.initial.len(), 2);
    assert_eq!(s.vowel.len(), 2);
}

#[test]
fn parse_duoc() {
    let s = parse(&keys_from_str("duoc"));
    assert_eq!(s.initial.len(), 1);
    assert_eq!(s.vowel.len(), 2);
    assert_eq!(s.final_c.len(), 1);
}

#[test]
fn parse_vowel_only() {
    let s = parse(&keys_from_str("a"));
    assert!(s.initial.is_empty());
    assert_eq!(s.vowel.len(), 1);
}

#[test]
fn invalid_no_vowel() {
    let s = parse(&keys_from_str("bcd"));
    assert!(s.is_empty());
}

#[test]
fn test_is_valid_structure() {
    assert!(is_valid_structure(&keys_from_str("ba")));
    assert!(is_valid_structure(&keys_from_str("nghieng")));
    assert!(is_valid_structure(&keys_from_str("a")));
    assert!(!is_valid_structure(&keys_from_str("bcd")));
    assert!(!is_valid_structure(&keys_from_str("")));
}

#[test]
fn parse_gives_exact_positions() {
    let s = parse(&keys_from_str("nghieng"));
    assert_eq!(s.initial, vec![0, 1, 2]);
    assert_eq!(s.glide, None);
    assert_eq!(s.vowel, vec![3, 4]);
    assert_eq!(s.final_c, vec![5, 6]);
}

#[test]
fn parse_glide_takes_first_vowel() {
    let s = parse(&keys_from_str("hoa"));
    assert_eq!(s.initial, vec![0]);
    assert_eq!(s.glide, Some(1));
    assert_eq!(s.vowel, vec![2]);
    let s = parse(&keys_from_str("tuy"));
    assert_eq!(s.glide, Some(1));
    assert_eq!(s.vowel, vec![2]);
}

#[test]
fn parse_glide_after_two_consonants() {
    let s = parse(&keys_from_str("thoa"));
    assert_eq!(s.initial, vec![0, 1]);
    assert_eq!(s.glide, Some(2));
    assert_eq!(s.vowel, vec![3]);
}

#[test]
fn parse_no_glide_after_qu() {
    let s = parse(&keys_from_str("quoa"));
    assert_eq!(s.initial, vec![0, 1]);
    assert_eq!(s.glide, None);
    assert_eq!(s.vowel, vec![2, 3]);
}

#[test]
fn parse_absorbs_only_before_a_vowel() {
    let s = parse(&keys_from_str("gin"));
    assert_eq!(s.initial, vec![0]);
    assert_eq!(s.vowel, vec![1]);
    assert_eq!(s.final_c, vec![2]);
    let s = parse(&keys_from_str("qu"));
    assert_eq!(s.initial, vec![0]);
    assert_eq!(s.vowel, vec![1]);
}

#[test]
fn parse_final_prefers_two_letters() {
    let s = parse(&keys_from_str("anh"));
    assert_eq!(s.final_c, vec![1, 2]);
    let s = parse(&keys_from_str("ant"));
    assert_eq!(s.final_c, vec![1]);
    let s = parse(&keys_from_str("as"));
    assert!(s.final_c.is_empty());
    assert!(!s.has_final());
    assert!(!s.has_initial());
    assert_eq!(s.vowel_count(), 1);
}

#[test]
fn parse_without_vowel_has_no_initial() {
    let s = parse(&keys_from_str("bcd"));
    assert!(s.initial.is_empty());
    assert!(s.glide.is_none());
    assert!(s.final_c.is_empty());
}

#[test]
fn keys_from_str_folds_case_and_skips_others() {
    assert_eq!(keys_from_str("aZ 9-b"), vec![97, 122, 57, 98]);
}
