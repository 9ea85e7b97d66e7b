//! Tone mark values: the five pitch contours.

use vstd::prelude::*;

verus! {

pub const NONE: u8 = 0;
pub const SAC: u8 = 1;
pub const HUYEN: u8 = 2;
pub const HOI: u8 = 3;
pub const NGA: u8 = 4;
pub const NANG: u8 = 5;

} // verus!
