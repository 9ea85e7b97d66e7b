//! Fixed sets of the Vietnamese syllable structure.

use crate::data::keys;
use vstd::prelude::*;

verus! {

/// Final consonants written with one letter.
pub const VALID_FINALS_1: [u16; 5] = [keys::C, keys::M, keys::N, keys::P, keys::T];

/// Final consonants written with two letters: ch, ng, nh.
pub const VALID_FINALS_2: [[u16; 2]; 3] = [
    [keys::C, keys::H],
    [keys::N, keys::G],
    [keys::N, keys::H],
];

/// Whether a key is a legal one-letter final consonant.
pub open spec fn is_final_single(key: u16) -> bool {
    key == keys::C || key == keys::M || key == keys::N || key == keys::P || key == keys::T
}

/// Whether two keys form a legal two-letter final consonant.
pub open spec fn is_final_pair(first: u16, second: u16) -> bool {
    ||| first == keys::C && second == keys::H
    ||| first == keys::N && second == keys::G
    ||| first == keys::N && second == keys::H
}

/// Consonants that no native Vietnamese syllable begins with.
pub open spec fn is_foreign_consonant(key: u16) -> bool {
    key == keys::F || key == keys::J || key == keys::W || key == keys::Z
}

#[verifier::when_used_as_spec(is_final_single)]
pub fn valid_final_1(key: u16) -> (b: bool)
    ensures
        b == is_final_single(key),
{
    let mut i: usize = 0;
    while i < 5
        invariant
            i <= 5,
            forall|j: int| 0 <= j < i ==> VALID_FINALS_1[j] != key,
        decreases 5 - i,
    {
        if VALID_FINALS_1[i] == key {
            return true;
        }
        i += 1;
    }
    assert(VALID_FINALS_1[0] != key && VALID_FINALS_1[1] != key && VALID_FINALS_1[2] != key
        && VALID_FINALS_1[3] != key && VALID_FINALS_1[4] != key);
    false
}

#[verifier::when_used_as_spec(is_final_pair)]
pub fn valid_final_2(first: u16, second: u16) -> (b: bool)
    ensures
        b == is_final_pair(first, second),
{
    let mut i: usize = 0;
    while i < 3
        invariant
            i <= 3,
            forall|j: int|
                0 <= j < i ==> !(VALID_FINALS_2[j][0] == first && VALID_FINALS_2[j][1] == second),
        decreases 3 - i,
    {
        if VALID_FINALS_2[i][0] == first && VALID_FINALS_2[i][1] == second {
            return true;
        }
        i += 1;
    }
    assert(!(VALID_FINALS_2[0][0] == first && VALID_FINALS_2[0][1] == second));
    assert(!(VALID_FINALS_2[1][0] == first && VALID_FINALS_2[1][1] == second));
    assert(!(VALID_FINALS_2[2][0] == first && VALID_FINALS_2[2][1] == second));
    false
}

#[verifier::when_used_as_spec(is_foreign_consonant)]
pub fn foreign_consonant(key: u16) -> (b: bool)
    ensures
        b == is_foreign_consonant(key),
{
    key == keys::F || key == keys::J || key == keys::W || key == keys::Z
}

} // verus!
