//! Character tables: composing a key with its diacritics into one letter.

pub mod mark;
pub mod tone;

use crate::data::keys;
use vstd::prelude::*;

verus! {

/// Number of columns of the letter tables: no mark, then the five marks.
pub const MARK_COLUMNS: usize = 6;

/// Lowercase precomposed vowels. Rows are the vowel shapes
/// a ă â e ê i o ô ơ u ư y; columns are the marks
/// none, sắc, huyền, hỏi, ngã, nặng.
pub const LOWER_VOWELS: [char; 72] = [
    'a', 'á', 'à', 'ả', 'ã', 'ạ',
    'ă', 'ắ', 'ằ', 'ẳ', 'ẵ', 'ặ',
    'â', 'ấ', 'ầ', 'ẩ', 'ẫ', 'ậ',
    'e', 'é', 'è', 'ẻ', 'ẽ', 'ẹ',
    'ê', 'ế', 'ề', 'ể', 'ễ', 'ệ',
    'i', 'í', 'ì', 'ỉ', 'ĩ', 'ị',
    'o', 'ó', 'ò', 'ỏ', 'õ', 'ọ',
    'ô', 'ố', 'ồ', 'ổ', 'ỗ', 'ộ',
    'ơ', 'ớ', 'ờ', 'ở', 'ỡ', 'ợ',
    'u', 'ú', 'ù', 'ủ', 'ũ', 'ụ',
    'ư', 'ứ', 'ừ', 'ử', 'ữ', 'ự',
    'y', 'ý', 'ỳ', 'ỷ', 'ỹ', 'ỵ',
];

/// Uppercase counterpart of [`LOWER_VOWELS`], cell by cell.
pub const UPPER_VOWELS: [char; 72] = [
    'A', 'Á', 'À', 'Ả', 'Ã', 'Ạ',
    'Ă', 'Ắ', 'Ằ', 'Ẳ', 'Ẵ', 'Ặ',
    'Â', 'Ấ', 'Ầ', 'Ẩ', 'Ẫ', 'Ậ',
    'E', 'É', 'È', 'Ẻ', 'Ẽ', 'Ẹ',
    'Ê', 'Ế', 'Ề', 'Ể', 'Ễ', 'Ệ',
    'I', 'Í', 'Ì', 'Ỉ', 'Ĩ', 'Ị',
    'O', 'Ó', 'Ò', 'Ỏ', 'Õ', 'Ọ',
    'Ô', 'Ố', 'Ồ', 'Ổ', 'Ỗ', 'Ộ',
    'Ơ', 'Ớ', 'Ờ', 'Ở', 'Ỡ', 'Ợ',
    'U', 'Ú', 'Ù', 'Ủ', 'Ũ', 'Ụ',
    'Ư', 'Ứ', 'Ừ', 'Ử', 'Ữ', 'Ự',
    'Y', 'Ý', 'Ỳ', 'Ỷ', 'Ỹ', 'Ỵ',
];

/// Whether a tone modifier can sit on a key: circumflex on a, e, o;
/// horn on o, u; breve on a.
pub open spec fn tone_fits_key(key: u16, tone_value: u8) -> bool {
    ||| tone_value == tone::CIRCUMFLEX && (key == keys::A || key == keys::E || key == keys::O)
    ||| tone_value == tone::HORN && (key == keys::O || key == keys::U)
    ||| tone_value == tone::BREVE && key == keys::A
}

/// Row of the letter tables for a vowel key under a tone modifier. A
/// modifier that does not fit the key leaves the plain vowel.
pub open spec fn vowel_row(key: u16, tone_value: u8) -> int
    recommends
        keys::is_vowel_key(key),
{
    if key == keys::A {
        if tone_value == tone::BREVE {
            1
        } else if tone_value == tone::CIRCUMFLEX {
            2
        } else {
            0
        }
    } else if key == keys::E {
        if tone_value == tone::CIRCUMFLEX {
            4
        } else {
            3
        }
    } else if key == keys::I {
        5
    } else if key == keys::O {
        if tone_value == tone::CIRCUMFLEX {
            7
        } else if tone_value == tone::HORN {
            8
        } else {
            6
        }
    } else if key == keys::U {
        if tone_value == tone::HORN {
            10
        } else {
            9
        }
    } else {
        11
    }
}

/// The letter a decorated key is rendered as.
///
/// A vowel takes its shape from the tone modifier and then its mark; `d`
/// takes the stroke; every other text key is its own character. The case
/// is applied last.
pub open spec fn composed(
    key: u16,
    caps: bool,
    tone_value: u8,
    mark_value: u8,
    stroke: bool,
) -> char
    recommends
        keys::is_text_key(key),
        mark_value <= mark::NANG,
{
    if keys::is_vowel_key(key) && mark_value <= mark::NANG {
        let cell = vowel_row(key, tone_value) * 6 + mark_value;
        if caps {
            UPPER_VOWELS[cell]
        } else {
            LOWER_VOWELS[cell]
        }
    } else if key == keys::D && stroke {
        if caps {
            'Đ'
        } else {
            'đ'
        }
    } else {
        keys::key_text(key, caps)
    }
}

#[verifier::when_used_as_spec(tone_fits_key)]
pub fn tone_fits(key: u16, tone_value: u8) -> (b: bool)
    ensures
        b == tone_fits_key(key, tone_value),
{
    (tone_value == tone::CIRCUMFLEX && (key == keys::A || key == keys::E || key == keys::O))
        || (tone_value == tone::HORN && (key == keys::O || key == keys::U))
        || (tone_value == tone::BREVE && key == keys::A)
}

fn row_of(key: u16, tone_value: u8) -> (row: usize)
    requires
        keys::is_vowel_key(key),
    ensures
        row == vowel_row(key, tone_value),
        row < 12,
{
    if key == keys::A {
        if tone_value == tone::BREVE {
            1
        } else if tone_value == tone::CIRCUMFLEX {
            2
        } else {
            0
        }
    } else if key == keys::E {
        if tone_value == tone::CIRCUMFLEX {
            4
        } else {
            3
        }
    } else if key == keys::I {
        5
    } else if key == keys::O {
        if tone_value == tone::CIRCUMFLEX {
            7
        } else if tone_value == tone::HORN {
            8
        } else {
            6
        }
    } else if key == keys::U {
        if tone_value == tone::HORN {
            10
        } else {
            9
        }
    } else {
        11
    }
}

/// Composes a decorated key into the letter it is rendered as.
pub fn compose(key: u16, caps: bool, tone_value: u8, mark_value: u8, stroke: bool) -> (c: char)
    requires
        keys::is_text_key(key),
    ensures
        c == composed(key, caps, tone_value, mark_value, stroke),
{
    if keys::is_vowel(key) && mark_value <= mark::NANG {
        let cell: usize = row_of(key, tone_value) * MARK_COLUMNS + mark_value as usize;
        if caps {
            UPPER_VOWELS[cell]
        } else {
            LOWER_VOWELS[cell]
        }
    } else if key == keys::D && stroke {
        if caps {
            'Đ'
        } else {
            'đ'
        }
    } else {
        keys::to_char(key, caps)
    }
}

} // verus!
