//! Telex input method.
//!
//! Key mappings:
//! - Marks: s=sắc, f=huyền, r=hỏi, x=ngã, j=nặng
//! - Tones: a/e/o=circumflex, w=horn/breve
//! - Stroke: d
//! - Remove: z

use crate::data::chars::mark;
use crate::data::keys;
use crate::input::{Method, ToneType, HORN_TARGETS_TELEX};
use vstd::prelude::*;

verus! {

pub struct Telex;

impl Method for Telex {
    open spec fn mark_of(&self, key: u16) -> Option<u8> {
        if key == keys::S {
            Some(mark::SAC)
        } else if key == keys::F {
            Some(mark::HUYEN)
        } else if key == keys::R {
            Some(mark::HOI)
        } else if key == keys::X {
            Some(mark::NGA)
        } else if key == keys::J {
            Some(mark::NANG)
        } else {
            None
        }
    }

    open spec fn tone_of(&self, key: u16) -> Option<ToneType> {
        if key == keys::A || key == keys::E || key == keys::O {
            Some(ToneType::Circumflex)
        } else if key == keys::W {
            Some(ToneType::Horn)
        } else {
            None
        }
    }

    open spec fn targets_of(&self, key: u16) -> Seq<u16> {
        if key == keys::A {
            seq![keys::A]
        } else if key == keys::E {
            seq![keys::E]
        } else if key == keys::O {
            seq![keys::O]
        } else if key == keys::W {
            HORN_TARGETS_TELEX@
        } else {
            Seq::empty()
        }
    }

    open spec fn is_stroke(&self, key: u16) -> bool {
        key == keys::D
    }

    open spec fn is_remove(&self, key: u16) -> bool {
        key == keys::Z
    }

    fn mark(&self, key: u16) -> (r: Option<u8>) {
        if key == keys::S {
            Some(mark::SAC)
        } else if key == keys::F {
            Some(mark::HUYEN)
        } else if key == keys::R {
            Some(mark::HOI)
        } else if key == keys::X {
            Some(mark::NGA)
        } else if key == keys::J {
            Some(mark::NANG)
        } else {
            None
        }
    }

    fn tone(&self, key: u16) -> (r: Option<ToneType>) {
        if key == keys::A || key == keys::E || key == keys::O {
            Some(ToneType::Circumflex)
        } else if key == keys::W {
            Some(ToneType::Horn)
        } else {
            None
        }
    }

    fn tone_targets(&self, key: u16) -> (r: &'static [u16]) {
        if key == keys::A {
            let r: &'static [u16] = &[keys::A];
            assert(r@ =~= seq![keys::A]);
            r
        } else if key == keys::E {
            let r: &'static [u16] = &[keys::E];
            assert(r@ =~= seq![keys::E]);
            r
        } else if key == keys::O {
            let r: &'static [u16] = &[keys::O];
            assert(r@ =~= seq![keys::O]);
            r
        } else if key == keys::W {
            let r: &'static [u16] = &HORN_TARGETS_TELEX;
            assert(r@ =~= HORN_TARGETS_TELEX@);
            r
        } else {
            let r: &'static [u16] = &[];
            assert(r@ =~= Seq::<u16>::empty());
            r
        }
    }

    fn stroke(&self, key: u16) -> (r: bool) {
        key == keys::D
    }

    fn remove(&self, key: u16) -> (r: bool) {
        key == keys::Z
    }
}

} // verus!
