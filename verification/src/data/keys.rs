//! The engine's key identifier space.
//!
//! Letters are identified by their lowercase ASCII code point and digits by
//! their ASCII code point. Control keys live in a reserved high range.

use vstd::prelude::*;

verus! {

pub const A: u16 = 97;
pub const B: u16 = 98;
pub const C: u16 = 99;
pub const D: u16 = 100;
pub const E: u16 = 101;
pub const F: u16 = 102;
pub const G: u16 = 103;
pub const H: u16 = 104;
pub const I: u16 = 105;
pub const J: u16 = 106;
pub const K: u16 = 107;
pub const L: u16 = 108;
pub const M: u16 = 109;
pub const N: u16 = 110;
pub const O: u16 = 111;
pub const P: u16 = 112;
pub const Q: u16 = 113;
pub const R: u16 = 114;
pub const S: u16 = 115;
pub const T: u16 = 116;
pub const U: u16 = 117;
pub const V: u16 = 118;
pub const W: u16 = 119;
pub const X: u16 = 120;
pub const Y: u16 = 121;
pub const Z: u16 = 122;

pub const N0: u16 = 48;
pub const N1: u16 = 49;
pub const N2: u16 = 50;
pub const N3: u16 = 51;
pub const N4: u16 = 52;
pub const N5: u16 = 53;
pub const N6: u16 = 54;
pub const N7: u16 = 55;
pub const N8: u16 = 56;
pub const N9: u16 = 57;

pub const SPACE: u16 = 0xFF00;
pub const BACKSPACE: u16 = 0xFF01;
pub const ENTER: u16 = 0xFF02;
pub const ESC: u16 = 0xFF03;
pub const PERIOD: u16 = 0xFF04;
pub const EXCLAMATION: u16 = 0xFF05;
pub const QUESTION: u16 = 0xFF06;

/// Sentinel for a host key that has no identifier in this space.
pub const UNMAPPED: u16 = 0xFFFF;

pub open spec fn is_letter_key(key: u16) -> bool {
    A <= key <= Z
}

pub open spec fn is_digit_key(key: u16) -> bool {
    N0 <= key <= N9
}

/// Keys that stand for a printable character and may sit in the buffer.
pub open spec fn is_text_key(key: u16) -> bool {
    is_letter_key(key) || is_digit_key(key)
}

pub open spec fn is_vowel_key(key: u16) -> bool {
    key == A || key == E || key == I || key == O || key == U || key == Y
}

pub open spec fn is_consonant_key(key: u16) -> bool {
    is_letter_key(key) && !is_vowel_key(key)
}

/// Keys that end a sentence: enter and the full stop, the exclamation
/// mark and the question mark.
pub open spec fn is_sentence_end_key(key: u16) -> bool {
    key == ENTER || key == PERIOD || key == EXCLAMATION || key == QUESTION
}

/// Keys that end a word: space and the keys that end a sentence.
pub open spec fn is_boundary_key(key: u16) -> bool {
    key == SPACE || is_sentence_end_key(key)
}

/// The character a word boundary key types.
pub open spec fn boundary_char(key: u16) -> char {
    if key == ENTER {
        '\n'
    } else if key == PERIOD {
        '.'
    } else if key == EXCLAMATION {
        '!'
    } else if key == QUESTION {
        '?'
    } else {
        ' '
    }
}

/// The lowercase character a text key stands for.
pub open spec fn key_char(key: u16) -> char
    recommends
        is_text_key(key),
{
    key as u8 as char
}

/// The character a text key produces, with the shift state applied to letters.
pub open spec fn key_text(key: u16, caps: bool) -> char
    recommends
        is_text_key(key),
{
    if caps && is_letter_key(key) {
        (key - 32) as u8 as char
    } else {
        key as u8 as char
    }
}

/// The key a character is typed with: letters of either case and digits.
pub open spec fn char_key(c: char) -> Option<u16> {
    if 'a' <= c <= 'z' || '0' <= c <= '9' {
        Some(c as u16)
    } else if 'A' <= c <= 'Z' {
        Some((c as u16 + 32) as u16)
    } else {
        None
    }
}

#[verifier::when_used_as_spec(is_letter_key)]
pub fn is_letter(key: u16) -> (b: bool)
    ensures
        b == is_letter_key(key),
{
    A <= key && key <= Z
}

#[verifier::when_used_as_spec(is_digit_key)]
pub fn is_digit(key: u16) -> (b: bool)
    ensures
        b == is_digit_key(key),
{
    N0 <= key && key <= N9
}

#[verifier::when_used_as_spec(is_text_key)]
pub fn is_text(key: u16) -> (b: bool)
    ensures
        b == is_text_key(key),
{
    is_letter(key) || is_digit(key)
}

#[verifier::when_used_as_spec(is_vowel_key)]
pub fn is_vowel(key: u16) -> (b: bool)
    ensures
        b == is_vowel_key(key),
{
    key == A || key == E || key == I || key == O || key == U || key == Y
}

#[verifier::when_used_as_spec(is_consonant_key)]
pub fn is_consonant(key: u16) -> (b: bool)
    ensures
        b == is_consonant_key(key),
{
    is_letter(key) && !is_vowel(key)
}

#[verifier::when_used_as_spec(is_sentence_end_key)]
pub fn is_sentence_end(key: u16) -> (b: bool)
    ensures
        b == is_sentence_end_key(key),
{
    key == ENTER || key == PERIOD || key == EXCLAMATION || key == QUESTION
}

#[verifier::when_used_as_spec(is_boundary_key)]
pub fn is_boundary(key: u16) -> (b: bool)
    ensures
        b == is_boundary_key(key),
{
    key == SPACE || is_sentence_end(key)
}

/// Character typed by a word boundary key.
pub fn boundary_to_char(key: u16) -> (c: char)
    ensures
        c == boundary_char(key),
{
    if key == ENTER {
        '\n'
    } else if key == PERIOD {
        '.'
    } else if key == EXCLAMATION {
        '!'
    } else if key == QUESTION {
        '?'
    } else {
        ' '
    }
}

/// Character typed by a text key under the given shift state.
pub fn to_char(key: u16, caps: bool) -> (c: char)
    requires
        is_text_key(key),
    ensures
        c == key_text(key, caps),
{
    if caps && is_letter(key) {
        (key - 32) as u8 as char
    } else {
        key as u8 as char
    }
}

/// Key that types the character, if the character is a letter or a digit.
pub fn from_char(c: char) -> (key: Option<u16>)
    ensures
        key == char_key(c),
        key matches Some(k) ==> is_text_key(k),
{
    if ('a' <= c && c <= 'z') || ('0' <= c && c <= '9') {
        Some(c as u16)
    } else if 'A' <= c && c <= 'Z' {
        Some(c as u16 + 32)
    } else {
        None
    }
}

/// Whether a character is an uppercase ASCII letter.
pub fn is_upper_char(c: char) -> (b: bool)
    ensures
        b == ('A' <= c <= 'Z'),
{
    'A' <= c && c <= 'Z'
}

} // verus!
