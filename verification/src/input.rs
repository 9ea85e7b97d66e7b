//! Input methods: which keys stand for which diacritics.

pub mod telex;
pub mod vni;

use crate::data::chars::tone;
use crate::data::keys;
use vstd::prelude::*;

verus! {

/// Kind of tone modifier a key asks for.
#[derive(Debug, Clone, Copy, PartialEq, Eq, Structural)]
pub enum ToneType {
    /// â, ê, ô
    Circumflex,
    /// ơ, ư
    Horn,
    /// ă
    Breve,
}

impl ToneType {
    /// The tone modifier value of the kind.
    pub open spec fn tone_value(self) -> u8 {
        match self {
            ToneType::Circumflex => tone::CIRCUMFLEX,
            ToneType::Horn => tone::HORN,
            ToneType::Breve => tone::BREVE,
        }
    }

    #[verifier::when_used_as_spec(tone_value)]
    pub fn value(self) -> (v: u8)
        ensures
            v == self.tone_value(),
    {
        match self {
            ToneType::Circumflex => tone::CIRCUMFLEX,
            ToneType::Horn => tone::HORN,
            ToneType::Breve => tone::BREVE,
        }
    }
}

/// Vowels the Telex horn key `w` can change: `a` to ă, `o` to ơ, `u` to ư.
pub const HORN_TARGETS_TELEX: [u16; 3] = [keys::A, keys::O, keys::U];

/// Vowels the VNI horn key `7` can change.
pub const HORN_TARGETS_VNI: [u16; 2] = [keys::O, keys::U];

/// Vowels the breve key can change.
pub const BREVE_TARGETS: [u16; 1] = [keys::A];

/// Vowels the circumflex key can change.
pub const CIRCUMFLEX_TARGETS: [u16; 3] = [keys::A, keys::E, keys::O];

/// An input method: the lookup from keys to diacritics. A method never
/// touches the buffer.
pub trait Method {
    /// The mark a key stands for, as a specification.
    spec fn mark_of(&self, key: u16) -> Option<u8>;

    /// The tone modifier a key stands for, as a specification.
    spec fn tone_of(&self, key: u16) -> Option<ToneType>;

    /// The vowels a tone key can change, as a specification.
    spec fn targets_of(&self, key: u16) -> Seq<u16>;

    /// Whether a key is the stroke key, as a specification.
    spec fn is_stroke(&self, key: u16) -> bool;

    /// Whether a key is the remove key, as a specification.
    spec fn is_remove(&self, key: u16) -> bool;

    /// The mark a key stands for.
    fn mark(&self, key: u16) -> (r: Option<u8>)
        ensures
            r == self.mark_of(key),
    ;

    /// The tone modifier a key stands for.
    fn tone(&self, key: u16) -> (r: Option<ToneType>)
        ensures
            r == self.tone_of(key),
    ;

    /// The vowels a tone key can change.
    fn tone_targets(&self, key: u16) -> (r: &'static [u16])
        ensures
            r@ == self.targets_of(key),
    ;

    /// Whether a key is the stroke key.
    fn stroke(&self, key: u16) -> (r: bool)
        ensures
            r == self.is_stroke(key),
    ;

    /// Whether a key is the remove key.
    fn remove(&self, key: u16) -> (r: bool)
        ensures
            r == self.is_remove(key),
    ;
}

} // verus!
