use vikey::data::english_dict::{is_english_word, Dictionary};

#[test]
fn test_common_words() {
    assert!(is_english_word("the"));
    assert!(is_english_word("view"));
    assert!(is_english_word("lists"));
    assert!(is_english_word("about"));
}

#[test]
fn test_case_insensitive() {
    assert!(is_english_word("The"));
    assert!(is_english_word("VIEW"));
    assert!(is_english_word("Lists"));
}

#[test]
fn test_not_english() {
    assert!(!is_english_word("qqq"));
    assert!(!is_english_word("nesu"));
    assert!(!is_english_word("zzzz"));
    assert!(!is_english_word("Ä‘c"));
}

#[test]
fn dictionary_from_text_skips_empty_lines() {
    let dict = Dictionary::from_text("alpha\n\nbeta\r\ngamma");
    assert_eq!(dict.len(), 3);
    assert!(dict.contains("alpha"));
    assert!(dict.contains("BETA"));
    assert!(dict.contains("gamma"));
    assert!(!dict.contains("beta\r"));
    assert!(!dict.contains(""));
}

#[test]
fn dictionary_keeps_a_final_carriage_return() {
    let dict = Dictionary::from_text("one\ntwo\r");
    assert_eq!(dict.len(), 2);
    assert!(dict.contains("two\r"));
    assert!(!dict.contains("two"));
}

#[test]
fn dictionary_lookup_lowers_words_beyond_ascii() {
    let dict = Dictionary::from_text("école\nđường\n");
    assert!(dict.contains("École"));
    assert!(dict.contains("ÉCOLE"));
    assert!(dict.contains("ĐƯỜNG"));
    assert!(!dict.contains("ecole"));
}

#[test]
fn dictionary_lookup_lowers_the_word_not_the_list() {
    let dict = Dictionary::from_text("Mixed\nlower");
    assert!(!dict.contains("mixed"));
    assert!(!dict.contains("Mixed"));
    assert!(dict.contains("LOWER"));
    let exact: Vec<char> = "Mixed".chars().collect();
    assert!(dict.contains_chars(&exact));
}
