//! Tone modifier values: the shape changes of a vowel.

use vstd::prelude::*;

verus! {

pub const NONE: u8 = 0;
/// â, ê, ô
pub const CIRCUMFLEX: u8 = 1;
/// ơ, ư
pub const HORN: u8 = 2;
/// ă
pub const BREVE: u8 = 3;

} // verus!
