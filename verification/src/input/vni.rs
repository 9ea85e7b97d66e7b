//! VNI input method.
//!
//! Key mappings:
//! - Marks: 1=sắc, 2=huyền, 3=hỏi, 4=ngã, 5=nặng
//! - Tones: 6=circumflex, 7=horn, 8=breve
//! - Stroke: 9
//! - Remove: 0

use crate::data::chars::mark;
use crate::data::keys;
use crate::input::{Method, ToneType, BREVE_TARGETS, CIRCUMFLEX_TARGETS, HORN_TARGETS_VNI};
use vstd::prelude::*;

verus! {

pub struct Vni;

impl Method for Vni {
    open spec fn mark_of(&self, key: u16) -> Option<u8> {
        if key == keys::N1 {
            Some(mark::SAC)
        } else if key == keys::N2 {
            Some(mark::HUYEN)
        } else if key == keys::N3 {
            Some(mark::HOI)
        } else if key == keys::N4 {
            Some(mark::NGA)
        } else if key == keys::N5 {
            Some(mark::NANG)
        } else {
            None
        }
    }

    open spec fn tone_of(&self, key: u16) -> Option<ToneType> {
        if key == keys::N6 {
            Some(ToneType::Circumflex)
        } else if key == keys::N7 {
            Some(ToneType::Horn)
        } else if key == keys::N8 {
            Some(ToneType::Breve)
        } else {
            None
        }
    }

    open spec fn targets_of(&self, key: u16) -> Seq<u16> {
        if key == keys::N6 {
            CIRCUMFLEX_TARGETS@
        } else if key == keys::N7 {
            HORN_TARGETS_VNI@
        } else if key == keys::N8 {
            BREVE_TARGETS@
        } else {
            Seq::empty()
        }
    }

    open spec fn is_stroke(&self, key: u16) -> bool {
        key == keys::N9
    }

    open spec fn is_remove(&self, key: u16) -> bool {
        key == keys::N0
    }

    fn mark(&self, key: u16) -> (r: Option<u8>) {
        if key == keys::N1 {
            Some(mark::SAC)
        } else if key == keys::N2 {
            Some(mark::HUYEN)
        } else if key == keys::N3 {
            Some(mark::HOI)
        } else if key == keys::N4 {
            Some(mark::NGA)
        } else if key == keys::N5 {
            Some(mark::NANG)
        } else {
            None
        }
    }

    fn tone(&self, key: u16) -> (r: Option<ToneType>) {
        if key == keys::N6 {
            Some(ToneType::Circumflex)
        } else if key == keys::N7 {
            Some(ToneType::Horn)
        } else if key == keys::N8 {
            Some(ToneType::Breve)
        } else {
            None
        }
    }

    fn tone_targets(&self, key: u16) -> (r: &'static [u16]) {
        if key == keys::N6 {
            let r: &'static [u16] = &CIRCUMFLEX_TARGETS;
            assert(r@ =~= CIRCUMFLEX_TARGETS@);
            r
        } else if key == keys::N7 {
            let r: &'static [u16] = &HORN_TARGETS_VNI;
            assert(r@ =~= HORN_TARGETS_VNI@);
            r
        } else if key == keys::N8 {
            let r: &'static [u16] = &BREVE_TARGETS;
            assert(r@ =~= BREVE_TARGETS@);
            r
        } else {
            let r: &'static [u16] = &[];
            assert(r@ =~= Seq::<u16>::empty());
            r
        }
    }

    fn stroke(&self, key: u16) -> (r: bool) {
        key == keys::N9
    }

    fn remove(&self, key: u16) -> (r: bool) {
        key == keys::N0
    }
}

} // verus!
