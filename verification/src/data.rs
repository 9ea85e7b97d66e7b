//! Static data: key identifiers, character tables, phonology and the
//! English word list.

pub mod chars;
pub mod constants;
pub mod english_dict;
pub mod keys;
pub mod vowel;
