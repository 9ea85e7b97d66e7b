//! Helpers shared by the engine modules.

use crate::data::keys;
use crate::data::vowel::Vowel;
use crate::engine::buffer::{keys_of, lemma_vowel_positions, vowel_positions, Buffer, Char};
use vstd::prelude::*;

verus! {

/// `String::push` of the standard library: appends one character to the
/// end of the string and changes nothing else.
pub assume_specification[ String::push ](s: &mut String, c: char)
    ensures
        final(s)@ == old(s)@.push(c),
;

/// The characters of a string slice.
pub fn chars_of(s: &str) -> (v: Vec<char>)
    ensures
        v@ == s@,
{
    broadcast use vstd::string::group_string_axioms;

    let mut v: Vec<char> = Vec::new();
    for c in it: s.chars()
        invariant
            it.seq() == s@,
            v@ == it.seq().take(it.index() as int),
    {
        v.push(c);
    }
    v
}

/// The string made of the given characters.
pub fn string_from_chars(v: &Vec<char>) -> (s: String)
    ensures
        s@ == v@,
{
    let mut s = String::new();
    let mut i: usize = 0;
    while i < v.len()
        invariant
            i <= v.len(),
            s@ == v@.take(i as int),
        decreases v.len() - i,
    {
        s.push(v[i]);
        i += 1;
    }
    s
}

/// The keys that type the first `n` characters of a text; characters
/// that are neither letters nor digits are left out.
pub open spec fn text_keys_upto(text: Seq<char>, n: int) -> Seq<u16>
    decreases n,
{
    if n <= 0 {
        Seq::empty()
    } else {
        match keys::char_key(text[n - 1]) {
            Some(key) => text_keys_upto(text, n - 1).push(key),
            None => text_keys_upto(text, n - 1),
        }
    }
}

/// The keys that type a text.
pub open spec fn text_keys(text: Seq<char>) -> Seq<u16> {
    text_keys_upto(text, text.len() as int)
}

/// The vowel record of the buffer position `pos`.
pub open spec fn vowel_at(s: Seq<Char>, pos: usize) -> Vowel {
    Vowel { key: s[pos as int].key, tone: s[pos as int].tone, pos }
}

/// The vowels of the records, in order of position.
pub open spec fn vowels_of(s: Seq<Char>) -> Seq<Vowel> {
    let positions = vowel_positions(keys_of(s));
    Seq::new(positions.len(), |i: int| vowel_at(s, positions[i]))
}

/// Whether a consonant stands after position `pos`.
pub open spec fn consonant_after(s: Seq<Char>, pos: int) -> bool {
    exists|i: int| pos < i < s.len() && keys::is_consonant_key((#[trigger] s[i]).key)
}

/// Whether the records begin with `qu`.
pub open spec fn qu_initial(s: Seq<Char>) -> bool {
    s.len() >= 2 && s[0].key == keys::Q && s[1].key == keys::U
}

/// Whether the records begin with `gi` and a vowel.
pub open spec fn gi_initial(s: Seq<Char>) -> bool {
    s.len() >= 3 && s[0].key == keys::G && s[1].key == keys::I && keys::is_vowel_key(s[2].key)
}

/// The keys that type a text, letters of either case and digits; other
/// characters are skipped.
pub fn keys_from_str(s: &str) -> (ks: Vec<u16>)
    ensures
        ks@ == text_keys(s@),
{
    let text = chars_of(s);
    let mut ks: Vec<u16> = Vec::new();
    let mut i: usize = 0;
    while i < text.len()
        invariant
            i <= text.len(),
            ks@ == text_keys_upto(text@, i as int),
        decreases text.len() - i,
    {
        match keys::from_char(text[i]) {
            Some(key) => {
                ks.push(key);
            },
            None => {},
        }
        i += 1;
    }
    ks
}

/// The vowels of the buffer with their tone modifiers and positions.
pub fn collect_vowels(buf: &Buffer) -> (vowels: Vec<Vowel>)
    ensures
        vowels@ == vowels_of(buf@),
{
    let positions = buf.find_vowels();
    let len = buf.len();
    proof {
        lemma_vowel_positions(keys_of(buf@));
    }
    let mut vowels: Vec<Vowel> = Vec::new();
    let mut i: usize = 0;
    while i < positions.len()
        invariant
            i <= positions.len(),
            positions@ == vowel_positions(keys_of(buf@)),
            forall|k: int| 0 <= k < positions@.len() ==> (#[trigger] positions@[k]) < buf@.len(),
            vowels@.len() == i,
            forall|k: int| 0 <= k < i ==> vowels@[k] == vowel_at(buf@, positions@[k]),
        decreases positions.len() - i,
    {
        let pos = positions[i];
        match buf.get(pos) {
            Some(c) => {
                vowels.push(Vowel::new(c.key, c.tone, pos));
            },
            None => {},
        }
        i += 1;
    }
    assert(vowels@ =~= vowels_of(buf@));
    vowels
}

/// Whether a consonant stands after position `after_pos`.
pub fn has_final_consonant(buf: &Buffer, after_pos: usize) -> (b: bool)
    ensures
        b == consonant_after(buf@, after_pos as int),
{
    let len = buf.len();
    if after_pos >= len {
        return false;
    }
    let mut i: usize = after_pos + 1;
    while i < len
        invariant
            after_pos < i <= len,
            len == buf@.len(),
            forall|j: int| after_pos < j < i ==> !keys::is_consonant_key((#[trigger] buf@[j]).key),
        decreases len - i,
    {
        match buf.get(i) {
            Some(c) => {
                if keys::is_consonant(c.key) {
                    return true;
                }
            },
            None => {},
        }
        i += 1;
    }
    false
}

/// Whether the buffer begins with `qu`.
pub fn has_qu_initial(buf: &Buffer) -> (b: bool)
    ensures
        b == qu_initial(buf@),
{
    match (buf.get(0), buf.get(1)) {
        (Some(first), Some(second)) => first.key == keys::Q && second.key == keys::U,
        _ => false,
    }
}

/// Whether the buffer begins with `gi` and a vowel.
pub fn has_gi_initial(buf: &Buffer) -> (b: bool)
    ensures
        b == gi_initial(buf@),
{
    match (buf.get(0), buf.get(1), buf.get(2)) {
        (Some(first), Some(second), Some(third)) => first.key == keys::G && second.key
            == keys::I && keys::is_vowel(third.key),
        _ => false,
    }
}

} // verus!
