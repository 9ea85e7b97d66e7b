//! Transformations of the buffer: tone modifiers, tone marks, the stroke,
//! and their removal.
//!
//! Each transformation scans the whole buffer for its target and reports
//! the positions it changed.

use crate::data::chars;
use crate::data::chars::{mark, tone};
use crate::data::keys;
use crate::data::vowel::{
    first_horn_pair, horn_positions, last_horn_single, lemma_first_horn_pair,
    lemma_last_horn_single, tone_index, tone_position, Phonology,
};
use crate::engine::buffer::{
    keys_of, lemma_vowel_positions, vowel_positions, well_formed, Buffer, Char,
};
use crate::utils;
use crate::utils::{consonant_after, gi_initial, qu_initial, vowels_of};
use vstd::prelude::*;

verus! {

/// Kind of modifier a key stands for.
#[derive(Debug, Clone, Copy, PartialEq)]
pub enum ModifierType {
    /// Tone modifier: circumflex, horn, breve.
    Tone(u8),
    /// Tone mark: sắc, huyền, hỏi, ngã, nặng.
    Mark(u8),
    /// Stroke: d → đ.
    Stroke,
    /// Removal of the last diacritic.
    Remove,
}

/// What a transformation did.
#[derive(Debug)]
pub struct TransformResult {
    /// Positions that were modified.
    pub modified_positions: Vec<usize>,
    /// Whether the transformation was applied.
    pub applied: bool,
}

/// A property of a record that a transformation looks for.
#[derive(Debug, Clone, Copy)]
pub enum Pattern {
    /// A `d` without stroke.
    PlainD,
    /// A `d` with stroke.
    StrokedD,
    /// Any record with a mark.
    Marked,
    /// A vowel with a mark.
    MarkedVowel,
    /// A vowel with a tone modifier.
    TonedVowel,
    /// A vowel of the given key with a tone modifier.
    TonedKey(u16),
    /// An `a`.
    KeyA,
    /// An `a`, `e` or `o`.
    KeyAEO,
    /// A vowel with a tone modifier or a mark.
    Decorated,
}

impl Pattern {
    pub open spec fn matches(self, c: Char) -> bool {
        match self {
            Pattern::PlainD => c.key == keys::D && !c.stroke,
            Pattern::StrokedD => c.key == keys::D && c.stroke,
            Pattern::Marked => c.mark != mark::NONE,
            Pattern::MarkedVowel => keys::is_vowel_key(c.key) && c.mark != mark::NONE,
            Pattern::TonedVowel => keys::is_vowel_key(c.key) && c.tone != tone::NONE,
            Pattern::TonedKey(key) => keys::is_vowel_key(c.key) && c.key == key && c.tone
                != tone::NONE,
            Pattern::KeyA => c.key == keys::A,
            Pattern::KeyAEO => c.key == keys::A || c.key == keys::E || c.key == keys::O,
            Pattern::Decorated => keys::is_vowel_key(c.key) && (c.tone != tone::NONE || c.mark
                != mark::NONE),
        }
    }

    fn test(self, c: &Char) -> (b: bool)
        ensures
            b == self.matches(*c),
    {
        match self {
            Pattern::PlainD => c.key == keys::D && !c.stroke,
            Pattern::StrokedD => c.key == keys::D && c.stroke,
            Pattern::Marked => c.mark != mark::NONE,
            Pattern::MarkedVowel => keys::is_vowel(c.key) && c.mark != mark::NONE,
            Pattern::TonedVowel => keys::is_vowel(c.key) && c.tone != tone::NONE,
            Pattern::TonedKey(key) => keys::is_vowel(c.key) && c.key == key && c.tone
                != tone::NONE,
            Pattern::KeyA => c.key == keys::A,
            Pattern::KeyAEO => c.key == keys::A || c.key == keys::E || c.key == keys::O,
            Pattern::Decorated => keys::is_vowel(c.key) && (c.tone != tone::NONE || c.mark
                != mark::NONE),
        }
    }
}

/// The first position at or after `from` whose record matches, or the
/// number of records if none does.
pub open spec fn first_match(s: Seq<Char>, pattern: Pattern, from: int) -> int
    decreases s.len() - from,
{
    if from >= s.len() {
        s.len() as int
    } else if pattern.matches(s[from]) {
        from
    } else {
        first_match(s, pattern, from + 1)
    }
}

/// The last position below `n` whose record matches, or -1 if none does.
pub open spec fn last_match(s: Seq<Char>, pattern: Pattern, n: int) -> int
    decreases n,
{
    if n <= 0 {
        -1
    } else if pattern.matches(s[n - 1]) {
        n - 1
    } else {
        last_match(s, pattern, n - 1)
    }
}

/// `first_match` is the least matching position at or after `from`.
pub proof fn lemma_first_match(s: Seq<Char>, pattern: Pattern, from: int)
    requires
        0 <= from <= s.len(),
    ensures
        from <= first_match(s, pattern, from) <= s.len(),
        first_match(s, pattern, from) < s.len() ==> pattern.matches(
            s[first_match(s, pattern, from)],
        ),
        forall|i: int|
            from <= i < first_match(s, pattern, from) ==> !pattern.matches(#[trigger] s[i]),
    decreases s.len() - from,
{
    if from < s.len() && !pattern.matches(s[from]) {
        lemma_first_match(s, pattern, from + 1);
    }
}

/// `last_match` is the greatest matching position below `n`.
pub proof fn lemma_last_match(s: Seq<Char>, pattern: Pattern, n: int)
    requires
        0 <= n <= s.len(),
    ensures
        -1 <= last_match(s, pattern, n) < n,
        last_match(s, pattern, n) >= 0 ==> pattern.matches(s[last_match(s, pattern, n)]),
        forall|i: int| last_match(s, pattern, n) < i < n ==> !pattern.matches(#[trigger] s[i]),
    decreases n,
{
    if n > 0 && !pattern.matches(s[n - 1]) {
        lemma_last_match(s, pattern, n - 1);
    }
}

/// The records with the tone modifier at `i` set to `value`.
pub open spec fn set_tone(s: Seq<Char>, i: int, value: u8) -> Seq<Char> {
    s.update(i, Char { tone: value, ..s[i] })
}

/// The records with the mark at `i` set to `value`.
pub open spec fn set_mark(s: Seq<Char>, i: int, value: u8) -> Seq<Char> {
    s.update(i, Char { mark: value, ..s[i] })
}

/// The records with the stroke at `i` set to `value`.
pub open spec fn set_stroke(s: Seq<Char>, i: int, value: bool) -> Seq<Char> {
    s.update(i, Char { stroke: value, ..s[i] })
}

/// The records with every mark removed.
pub open spec fn unmarked(s: Seq<Char>) -> Seq<Char> {
    Seq::new(s.len(), |i: int| Char { mark: mark::NONE, ..s[i] })
}

/// The list holding `i`, or the empty list when `i` is negative.
pub open spec fn single(i: int) -> Seq<usize> {
    if i >= 0 {
        seq![i as usize]
    } else {
        Seq::empty()
    }
}

/// The tone modifier that a key receives for a requested value: a horn
/// asked for on `a` is the breve.
pub open spec fn stored_tone(key: u16, tone_value: u8) -> u8 {
    if key == keys::A && tone_value == tone::HORN {
        tone::BREVE
    } else {
        tone_value
    }
}

/// The positions a tone key aims at.
///
/// Telex (`method` 0): `a`, `e`, `o` aim at the last record when it has the
/// same key and no vowel carries a tone modifier or a mark; `w` aims at
/// the horn positions, or at the last `a` when there are none. VNI (any
/// other `method`): `6` aims at the last `a`, `e` or `o`; `7` at the horn
/// positions; `8` at the last `a`. Anything else aims at nothing.
pub open spec fn tone_targets(s: Seq<Char>, key: u16, tone_value: u8, method: u8) -> Seq<usize> {
    let ks = keys_of(s);
    let vps = vowel_positions(ks);
    let n = s.len() as int;
    if vps.len() == 0 {
        Seq::empty()
    } else if method == 0 {
        if tone_value == tone::CIRCUMFLEX && (key == keys::A || key == keys::E || key == keys::O) {
            if first_match(s, Pattern::Decorated, 0) < n || s[n - 1].key != key {
                Seq::empty()
            } else {
                seq![(n - 1) as usize]
            }
        } else if tone_value == tone::HORN && key == keys::W {
            if horn_positions(ks, vps).len() > 0 {
                horn_positions(ks, vps)
            } else {
                single(last_match(s, Pattern::KeyA, n))
            }
        } else {
            Seq::empty()
        }
    } else {
        if tone_value == tone::CIRCUMFLEX && key == keys::N6 {
            single(last_match(s, Pattern::KeyAEO, n))
        } else if tone_value == tone::HORN && key == keys::N7 {
            horn_positions(ks, vps)
        } else if tone_value == tone::BREVE && key == keys::N8 {
            single(last_match(s, Pattern::KeyA, n))
        } else {
            Seq::empty()
        }
    }
}

/// The targets among the first `n` that carry no tone modifier yet.
pub open spec fn open_targets(s: Seq<Char>, targets: Seq<usize>, n: int) -> Seq<usize>
    decreases n,
{
    if n <= 0 {
        Seq::empty()
    } else if s[targets[n - 1] as int].tone == tone::NONE {
        open_targets(s, targets, n - 1).push(targets[n - 1])
    } else {
        open_targets(s, targets, n - 1)
    }
}

/// The records after each of the first `n` targets that carries no tone
/// modifier has received one.
pub open spec fn toned(s: Seq<Char>, targets: Seq<usize>, tone_value: u8, n: int) -> Seq<Char> {
    Seq::new(
        s.len(),
        |i: int|
            if s[i].tone == tone::NONE && exists|k: int|
                0 <= k < n && k < targets.len() && #[trigger] targets[k] == i {
                Char { tone: stored_tone(s[i].key, tone_value), ..s[i] }
            } else {
                s[i]
            },
    )
}

/// The position the mark belongs at, by the placement rules.
pub open spec fn mark_target(s: Seq<Char>, modern: bool) -> usize {
    let vowels = vowels_of(s);
    tone_position(
        vowels,
        vowels.len() > 0 && consonant_after(s, vowels.last().pos as int),
        modern,
        qu_initial(s),
        gi_initial(s),
    )
}

/// The records with the mark, if there is one, moved to where modern
/// placement puts it.
pub open spec fn repositioned(s: Seq<Char>) -> Seq<Char> {
    let from = first_match(s, Pattern::Marked, 0);
    let to = mark_target(s, true);
    if from >= s.len() || vowels_of(s).len() == 0 || to == from {
        s
    } else {
        set_mark(set_mark(s, from, mark::NONE), to as int, s[from].mark)
    }
}

/// The records after a tone key: unchanged when no target is open, else
/// with the open targets toned and the mark put where it now belongs.
pub open spec fn tone_applied(s: Seq<Char>, key: u16, tone_value: u8, method: u8) -> Seq<Char> {
    let targets = tone_targets(s, key, tone_value, method);
    if open_targets(s, targets, targets.len() as int).len() == 0 {
        s
    } else {
        repositioned(toned(s, targets, tone_value, targets.len() as int))
    }
}

/// Whether a mark key finds something to do: the value is a mark value
/// and the buffer has a vowel.
pub open spec fn mark_applies(s: Seq<Char>, mark_value: u8) -> bool {
    vowels_of(s).len() > 0 && mark_value <= mark::NANG
}

/// The records after a mark key: every old mark is cleared and the new
/// one sits where the placement rules put it.
pub open spec fn mark_applied(s: Seq<Char>, mark_value: u8, modern: bool) -> Seq<Char> {
    if mark_applies(s, mark_value) {
        set_mark(unmarked(s), mark_target(s, modern) as int, mark_value)
    } else {
        s
    }
}

/// The records with the first plain `d` stroked.
pub open spec fn stroke_applied(s: Seq<Char>) -> Seq<Char> {
    let i = first_match(s, Pattern::PlainD, 0);
    if i < s.len() {
        set_stroke(s, i, true)
    } else {
        s
    }
}

/// The records with the first stroked `d` made plain.
pub open spec fn stroke_reverted(s: Seq<Char>) -> Seq<Char> {
    let i = first_match(s, Pattern::StrokedD, 0);
    if i < s.len() {
        set_stroke(s, i, false)
    } else {
        s
    }
}

/// The records with the mark of the last marked vowel removed.
pub open spec fn mark_reverted(s: Seq<Char>) -> Seq<Char> {
    let i = last_match(s, Pattern::MarkedVowel, s.len() as int);
    if i >= 0 {
        set_mark(s, i, mark::NONE)
    } else {
        s
    }
}

/// The records with the tone modifier removed from the last vowel of the
/// given key that has one.
pub open spec fn tone_reverted(s: Seq<Char>, target_key: u16) -> Seq<Char> {
    let i = last_match(s, Pattern::TonedKey(target_key), s.len() as int);
    if i >= 0 {
        set_tone(s, i, tone::NONE)
    } else {
        s
    }
}

/// The position the remove key changes: the last marked vowel, else the
/// last vowel with a tone modifier, else -1.
pub open spec fn remove_position(s: Seq<Char>) -> int {
    let marked = last_match(s, Pattern::MarkedVowel, s.len() as int);
    if marked >= 0 {
        marked
    } else {
        last_match(s, Pattern::TonedVowel, s.len() as int)
    }
}

/// The records after the remove key: the latest mark goes; if there is
/// none the latest tone modifier goes; if there is none nothing changes.
pub open spec fn removed(s: Seq<Char>) -> Seq<Char> {
    let marked = last_match(s, Pattern::MarkedVowel, s.len() as int);
    let toned = last_match(s, Pattern::TonedVowel, s.len() as int);
    if marked >= 0 {
        set_mark(s, marked, mark::NONE)
    } else if toned >= 0 {
        set_tone(s, toned, tone::NONE)
    } else {
        s
    }
}

/// No target is open exactly when every target carries a tone modifier.
pub proof fn lemma_open_targets(s: Seq<Char>, targets: Seq<usize>, n: int)
    requires
        0 <= n <= targets.len(),
    ensures
        open_targets(s, targets, n).len() == 0 <==> forall|k: int|
            0 <= k < n ==> s[(#[trigger] targets[k]) as int].tone != tone::NONE,
    decreases n,
{
    if n > 0 {
        lemma_open_targets(s, targets, n - 1);
        if open_targets(s, targets, n).len() == 0 {
            assert forall|k: int| 0 <= k < n implies s[(#[trigger] targets[k]) as int].tone
                != tone::NONE by {
                if k < n - 1 {
                } else {
                }
            }
        }
    }
}

/// Setting a tone modifier that fits the key, or none, keeps the buffer
/// invariant.
pub proof fn lemma_set_tone(s: Seq<Char>, i: int, value: u8)
    requires
        well_formed(s),
        0 <= i < s.len(),
        value == tone::NONE || chars::tone_fits_key(s[i].key, value),
    ensures
        well_formed(set_tone(s, i, value)),
{
    let t = set_tone(s, i, value);
    assert forall|j: int| 0 <= j < t.len() implies (#[trigger] t[j]).valid() by {
        assert(s[j].valid());
    }
    assert forall|a: int, b: int|
        0 <= a < t.len() && 0 <= b < t.len() && (#[trigger] t[a]).mark != mark::NONE && (
        #[trigger] t[b]).mark != mark::NONE implies a == b by {
        assert(s[a].mark == t[a].mark && s[b].mark == t[b].mark);
    }
}

/// Setting the stroke of a `d`, or clearing a stroke, keeps the buffer
/// invariant.
pub proof fn lemma_set_stroke(s: Seq<Char>, i: int, value: bool)
    requires
        well_formed(s),
        0 <= i < s.len(),
        value ==> s[i].key == keys::D,
    ensures
        well_formed(set_stroke(s, i, value)),
{
    let t = set_stroke(s, i, value);
    assert forall|j: int| 0 <= j < t.len() implies (#[trigger] t[j]).valid() by {
        assert(s[j].valid());
    }
    assert forall|a: int, b: int|
        0 <= a < t.len() && 0 <= b < t.len() && (#[trigger] t[a]).mark != mark::NONE && (
        #[trigger] t[b]).mark != mark::NONE implies a == b by {
        assert(s[a].mark == t[a].mark && s[b].mark == t[b].mark);
    }
}

/// Setting a mark on a vowel of a buffer whose other records carry none,
/// or clearing a mark, keeps the buffer invariant.
pub proof fn lemma_set_mark(s: Seq<Char>, i: int, value: u8)
    requires
        well_formed(s),
        0 <= i < s.len(),
        value <= mark::NANG,
        value != mark::NONE ==> keys::is_vowel_key(s[i].key) && forall|j: int|
            0 <= j < s.len() && j != i ==> (#[trigger] s[j]).mark == mark::NONE,
    ensures
        well_formed(set_mark(s, i, value)),
{
    let t = set_mark(s, i, value);
    assert forall|j: int| 0 <= j < t.len() implies (#[trigger] t[j]).valid() by {
        assert(s[j].valid());
    }
    assert forall|a: int, b: int|
        0 <= a < t.len() && 0 <= b < t.len() && (#[trigger] t[a]).mark != mark::NONE && (
        #[trigger] t[b]).mark != mark::NONE implies a == b by {
        if a != i {
            assert(s[a].mark == t[a].mark);
        }
        if b != i {
            assert(s[b].mark == t[b].mark);
        }
    }
}

/// The stroke, its removal, the removal of a mark or of a tone modifier
/// and the remove key keep the buffer invariant.
pub proof fn lemma_simple_transforms_well_formed(s: Seq<Char>, key: u16)
    requires
        well_formed(s),
    ensures
        well_formed(stroke_applied(s)),
        well_formed(stroke_reverted(s)),
        well_formed(mark_reverted(s)),
        well_formed(tone_reverted(s, key)),
        well_formed(removed(s)),
{
    let n = s.len() as int;
    lemma_first_match(s, Pattern::PlainD, 0);
    lemma_first_match(s, Pattern::StrokedD, 0);
    lemma_last_match(s, Pattern::MarkedVowel, n);
    lemma_last_match(s, Pattern::TonedVowel, n);
    lemma_last_match(s, Pattern::TonedKey(key), n);
    if first_match(s, Pattern::PlainD, 0) < n {
        lemma_set_stroke(s, first_match(s, Pattern::PlainD, 0), true);
    }
    if first_match(s, Pattern::StrokedD, 0) < n {
        lemma_set_stroke(s, first_match(s, Pattern::StrokedD, 0), false);
    }
    if last_match(s, Pattern::MarkedVowel, n) >= 0 {
        lemma_set_mark(s, last_match(s, Pattern::MarkedVowel, n), mark::NONE);
    }
    if last_match(s, Pattern::TonedVowel, n) >= 0 {
        lemma_set_tone(s, last_match(s, Pattern::TonedVowel, n), tone::NONE);
    }
    if last_match(s, Pattern::TonedKey(key), n) >= 0 {
        lemma_set_tone(s, last_match(s, Pattern::TonedKey(key), n), tone::NONE);
    }
}

/// A mark key keeps the buffer invariant.
pub proof fn lemma_mark_applied_well_formed(s: Seq<Char>, mark_value: u8, modern: bool)
    requires
        well_formed(s),
    ensures
        well_formed(mark_applied(s, mark_value, modern)),
{
    if mark_applies(s, mark_value) {
        lemma_mark_target(s, modern);
        let u = unmarked(s);
        assert forall|j: int| 0 <= j < u.len() implies (#[trigger] u[j]).valid() by {
            assert(s[j].valid());
        }
        assert(well_formed(u));
        lemma_set_mark(u, mark_target(s, modern) as int, mark_value);
    }
}

/// Moving the mark to where it belongs keeps the buffer invariant.
pub proof fn lemma_repositioned_well_formed(s: Seq<Char>)
    requires
        well_formed(s),
    ensures
        well_formed(repositioned(s)),
{
    let from = first_match(s, Pattern::Marked, 0);
    lemma_first_match(s, Pattern::Marked, 0);
    if from < s.len() && vowels_of(s).len() > 0 && mark_target(s, true) != from {
        lemma_mark_target(s, true);
        let to = mark_target(s, true) as int;
        lemma_set_mark(s, from, mark::NONE);
        let cleared = set_mark(s, from, mark::NONE);
        assert(s[from].valid());
        assert forall|j: int| 0 <= j < cleared.len() && j != to implies (
        #[trigger] cleared[j]).mark == mark::NONE by {
            if j != from {
                assert(s[j].mark != mark::NONE ==> j == from);
            }
        }
        lemma_set_mark(cleared, to, s[from].mark);
    }
}

/// A tone key keeps the buffer invariant.
pub proof fn lemma_tone_applied_well_formed(s: Seq<Char>, key: u16, tone_value: u8, method: u8)
    requires
        well_formed(s),
    ensures
        well_formed(tone_applied(s, key, tone_value, method)),
{
    let targets = tone_targets(s, key, tone_value, method);
    lemma_tone_targets(s, key, tone_value, method);
    let t = toned(s, targets, tone_value, targets.len() as int);
    assert forall|j: int| 0 <= j < t.len() implies (#[trigger] t[j]).valid() by {
        assert(s[j].valid());
        if t[j] != s[j] {
            let k = choose|k: int|
                0 <= k < targets.len() && k < targets.len() && #[trigger] targets[k] == j;
            assert(chars::tone_fits_key(s[j].key, stored_tone(s[j].key, tone_value)));
        }
    }
    assert forall|a: int, b: int|
        0 <= a < t.len() && 0 <= b < t.len() && (#[trigger] t[a]).mark != mark::NONE && (
        #[trigger] t[b]).mark != mark::NONE implies a == b by {
        assert(s[a].mark == t[a].mark && s[b].mark == t[b].mark);
    }
    assert(well_formed(t));
    lemma_repositioned_well_formed(t);
}

/// No transformation changes the number of records.
pub proof fn lemma_same_length(s: Seq<Char>, key: u16, tone_value: u8, method: u8, modern: bool)
    requires
        s.len() <= usize::MAX,
    ensures
        tone_applied(s, key, tone_value, method).len() == s.len(),
        mark_applied(s, tone_value, modern).len() == s.len(),
        stroke_applied(s).len() == s.len(),
        stroke_reverted(s).len() == s.len(),
        mark_reverted(s).len() == s.len(),
        tone_reverted(s, key).len() == s.len(),
        removed(s).len() == s.len(),
{
    lemma_first_match(s, Pattern::PlainD, 0);
    lemma_first_match(s, Pattern::StrokedD, 0);
    lemma_first_match(s, Pattern::Marked, 0);
    lemma_last_match(s, Pattern::MarkedVowel, s.len() as int);
    lemma_last_match(s, Pattern::TonedVowel, s.len() as int);
    lemma_last_match(s, Pattern::TonedKey(key), s.len() as int);
    let targets = tone_targets(s, key, tone_value, method);
    let t = toned(s, targets, tone_value, targets.len() as int);
    lemma_first_match(t, Pattern::Marked, 0);
    if vowels_of(s).len() > 0 {
        lemma_mark_target(s, modern);
    }
    if vowels_of(t).len() > 0 {
        lemma_mark_target(t, true);
    }
}

/// Every target of a tone key holds a key that the tone key is meant
/// for: the Telex vowel keys aim at their own letter, the Telex `w` at
/// `a`, `o` or `u`, VNI `6` at `a`, `e` or `o`, VNI `7` at `o` or `u`, and
/// VNI `8` at `a`.
pub proof fn lemma_target_keys(s: Seq<Char>, key: u16, tone_value: u8, method: u8, k: int)
    requires
        s.len() <= usize::MAX,
        0 <= k < tone_targets(s, key, tone_value, method).len(),
    ensures
        ({
            let target = s[tone_targets(s, key, tone_value, method)[k] as int].key;
            if method == 0 {
                if key == keys::W {
                    target == keys::A || target == keys::O || target == keys::U
                } else {
                    target == key
                }
            } else if key == keys::N6 {
                target == keys::A || target == keys::E || target == keys::O
            } else if key == keys::N7 {
                target == keys::O || target == keys::U
            } else {
                target == keys::A
            }
        }),
{
    let ks = keys_of(s);
    let vps = vowel_positions(ks);
    let n = s.len() as int;
    lemma_vowel_positions(ks);
    lemma_first_horn_pair(ks, vps, 0);
    lemma_last_horn_single(ks, vps, vps.len() as int);
    lemma_last_match(s, Pattern::KeyA, n);
    lemma_last_match(s, Pattern::KeyAEO, n);
    let horn = horn_positions(ks, vps);
    if 0 <= k < horn.len() {
        let i = first_horn_pair(ks, vps, 0);
        if i < vps.len() {
            assert(ks[vps[i] as int] == s[vps[i] as int].key);
            assert(ks[vps[i + 1] as int] == s[vps[i + 1] as int].key);
        } else {
            let j = last_horn_single(ks, vps, vps.len() as int);
            assert(ks[vps[j] as int] == s[vps[j] as int].key);
        }
    }
}

/// Taking the stroke back undoes the stroke: on a buffer without a
/// stroked `d`, `revert_stroke` after `apply_stroke` leaves the records
/// as they were.
pub proof fn lemma_revert_undoes_stroke(s: Seq<Char>)
    requires
        first_match(s, Pattern::StrokedD, 0) >= s.len(),
    ensures
        stroke_reverted(stroke_applied(s)) == s,
{
    let i = first_match(s, Pattern::PlainD, 0);
    lemma_first_match(s, Pattern::PlainD, 0);
    lemma_first_match(s, Pattern::StrokedD, 0);
    let t = stroke_applied(s);
    lemma_first_match(t, Pattern::StrokedD, 0);
    if i < s.len() {
        let j = first_match(t, Pattern::StrokedD, 0);
        assert(Pattern::StrokedD.matches(t[i]));
        if j < i {
            assert(t[j] == s[j]);
            assert(Pattern::StrokedD.matches(s[j]));
        }
        assert(j == i);
        assert(stroke_reverted(t) =~= s);
    } else {
        assert(stroke_reverted(t) =~= s);
    }
}

/// Taking the mark back undoes the mark: on a well-formed buffer
/// without a mark, `revert_mark` after `apply_mark` leaves the records as
/// they were.
pub proof fn lemma_revert_undoes_mark(s: Seq<Char>, mark_value: u8, modern: bool)
    requires
        well_formed(s),
        first_match(s, Pattern::Marked, 0) >= s.len(),
    ensures
        mark_reverted(mark_applied(s, mark_value, modern)) == s,
{
    lemma_first_match(s, Pattern::Marked, 0);
    assert(unmarked(s) =~= s);
    let t = mark_applied(s, mark_value, modern);
    let n = s.len() as int;
    if mark_applies(s, mark_value) {
        lemma_mark_target(s, modern);
        let p = mark_target(s, modern) as int;
        lemma_last_match(t, Pattern::MarkedVowel, n);
        let j = last_match(t, Pattern::MarkedVowel, n);
        if mark_value != mark::NONE {
            assert(Pattern::MarkedVowel.matches(t[p]));
            if j > p {
                assert(t[j] == s[j]);
            }
            assert(j == p);
            assert(mark_reverted(t) =~= s);
        } else {
            assert(t =~= s);
            lemma_last_match(s, Pattern::MarkedVowel, n);
            assert(j < 0);
        }
    } else {
        lemma_last_match(s, Pattern::MarkedVowel, n);
        assert(last_match(s, Pattern::MarkedVowel, n) < 0);
    }
}

/// With a vowel in the buffer, the mark target is the position of one.
pub proof fn lemma_mark_target(s: Seq<Char>, modern: bool)
    requires
        s.len() <= usize::MAX,
        vowels_of(s).len() > 0,
    ensures
        mark_target(s, modern) < s.len(),
        keys::is_vowel_key(s[mark_target(s, modern) as int].key),
{
    lemma_vowel_positions(keys_of(s));
    let vowels = vowels_of(s);
    let has_final = consonant_after(s, vowels.last().pos as int);
    let idx = tone_index(vowels, has_final, modern, qu_initial(s), gi_initial(s));
    assert(0 <= idx < vowels.len());
    let vps = vowel_positions(keys_of(s));
    assert(vowels[idx].pos == vps[idx]);
    assert(keys::is_vowel_key(keys_of(s)[vps[idx] as int]));
}

/// Every target of a tone key is a position of the buffer whose key the
/// stored tone fits, and no position is a target twice.
pub proof fn lemma_tone_targets(s: Seq<Char>, key: u16, tone_value: u8, method: u8)
    requires
        s.len() <= usize::MAX,
    ensures
        tone_targets(s, key, tone_value, method).len() <= 2,
        forall|k: int|
            0 <= k < tone_targets(s, key, tone_value, method).len() ==> {
                let p = #[trigger] tone_targets(s, key, tone_value, method)[k];
                &&& p < s.len()
                &&& chars::tone_fits_key(s[p as int].key, stored_tone(s[p as int].key, tone_value))
            },
        forall|k: int, l: int|
            0 <= k < l < tone_targets(s, key, tone_value, method).len() ==> tone_targets(
                s,
                key,
                tone_value,
                method,
            )[k] != tone_targets(s, key, tone_value, method)[l],
{
    let ks = keys_of(s);
    let vps = vowel_positions(ks);
    let n = s.len() as int;
    lemma_vowel_positions(ks);
    lemma_first_horn_pair(ks, vps, 0);
    lemma_last_horn_single(ks, vps, vps.len() as int);
    lemma_last_match(s, Pattern::KeyA, n);
    lemma_last_match(s, Pattern::KeyAEO, n);
    let horn = horn_positions(ks, vps);
    assert forall|k: int| 0 <= k < horn.len() implies {
        let p = #[trigger] horn[k];
        p < s.len() && (s[p as int].key == keys::U || s[p as int].key == keys::O)
    } by {
        let i = first_horn_pair(ks, vps, 0);
        if i < vps.len() {
            assert(ks[vps[i] as int] == s[vps[i] as int].key);
            assert(ks[vps[i + 1] as int] == s[vps[i + 1] as int].key);
        } else {
            let j = last_horn_single(ks, vps, vps.len() as int);
            assert(ks[vps[j] as int] == s[vps[j] as int].key);
        }
    }
}

impl TransformResult {
    /// The result of a transformation that found nothing to do.
    pub fn none() -> (r: TransformResult)
        ensures
            !r.applied,
            r.modified_positions@ == Seq::<usize>::empty(),
    {
        TransformResult { modified_positions: Vec::new(), applied: false }
    }

    /// The result of a transformation that changed the given positions.
    pub fn success(positions: Vec<usize>) -> (r: TransformResult)
        ensures
            r.applied,
            r.modified_positions == positions,
    {
        TransformResult { modified_positions: positions, applied: true }
    }

    /// The least modified position, if any position was modified.
    pub fn earliest_position(&self) -> (r: Option<usize>)
        ensures
            r is None <==> self.modified_positions@.len() == 0,
            r matches Some(least) ==> self.modified_positions@.contains(least) && forall|i: int|
                0 <= i < self.modified_positions@.len() ==> least <= self.modified_positions@[i],
    {
        let len = self.modified_positions.len();
        if len == 0 {
            return None;
        }
        let mut least: usize = self.modified_positions[0];
        let mut i: usize = 1;
        while i < len
            invariant
                1 <= i <= len,
                len == self.modified_positions@.len(),
                self.modified_positions@.contains(least),
                forall|j: int| 0 <= j < i ==> least <= self.modified_positions@[j],
            decreases len - i,
        {
            if self.modified_positions[i] < least {
                least = self.modified_positions[i];
            }
            i += 1;
        }
        Some(least)
    }
}

/// The first position whose record matches the pattern.
fn find_first(buf: &Buffer, pattern: Pattern) -> (r: Option<usize>)
    ensures
        match r {
            Some(i) => i < buf@.len() && i == first_match(buf@, pattern, 0),
            None => first_match(buf@, pattern, 0) == buf@.len(),
        },
{
    let len = buf.len();
    let mut i: usize = 0;
    while i < len
        invariant
            i <= len,
            len == buf@.len(),
            first_match(buf@, pattern, 0) == first_match(buf@, pattern, i as int),
        decreases len - i,
    {
        match buf.get(i) {
            Some(c) => {
                if pattern.test(c) {
                    return Some(i);
                }
            },
            None => {},
        }
        i += 1;
    }
    None
}

/// The last position whose record matches the pattern.
fn find_last(buf: &Buffer, pattern: Pattern) -> (r: Option<usize>)
    ensures
        match r {
            Some(i) => i < buf@.len() && i == last_match(buf@, pattern, buf@.len() as int),
            None => last_match(buf@, pattern, buf@.len() as int) == -1,
        },
{
    let len = buf.len();
    let mut n: usize = len;
    while n > 0
        invariant
            n <= len,
            len == buf@.len(),
            last_match(buf@, pattern, len as int) == last_match(buf@, pattern, n as int),
        decreases n,
    {
        match buf.get(n - 1) {
            Some(c) => {
                if pattern.test(c) {
                    return Some(n - 1);
                }
            },
            None => {},
        }
        n -= 1;
    }
    None
}

/// Where the placement rules put the mark.
fn find_mark_target(buf: &Buffer, modern: bool) -> (pos: usize)
    ensures
        pos == mark_target(buf@, modern),
{
    let vowels = utils::collect_vowels(buf);
    let has_final = if vowels.len() > 0 {
        utils::has_final_consonant(buf, vowels[vowels.len() - 1].pos)
    } else {
        false
    };
    let has_qu = utils::has_qu_initial(buf);
    let has_gi = utils::has_gi_initial(buf);
    Phonology::find_tone_position(vowels.as_slice(), has_final, modern, has_qu, has_gi)
}

/// Sets the tone modifier of the record at `pos`.
fn put_tone(buf: &mut Buffer, pos: usize, value: u8)
    requires
        old(buf).wf(),
        pos < old(buf)@.len(),
        value == tone::NONE || chars::tone_fits_key(old(buf)@[pos as int].key, value),
    ensures
        final(buf).wf(),
        final(buf)@ == set_tone(old(buf)@, pos as int, value),
{
    let c = match buf.get(pos) {
        Some(c) => *c,
        None => Char::new(0, false),
    };
    buf.replace(pos, Char { tone: value, ..c });
}

/// Sets the mark of the record at `pos`.
fn put_mark(buf: &mut Buffer, pos: usize, value: u8)
    requires
        old(buf).wf(),
        pos < old(buf)@.len(),
        value <= mark::NANG,
        value != mark::NONE ==> keys::is_vowel_key(old(buf)@[pos as int].key) && forall|j: int|
            0 <= j < old(buf)@.len() && j != pos ==> (#[trigger] old(buf)@[j]).mark == mark::NONE,
    ensures
        final(buf).wf(),
        final(buf)@ == set_mark(old(buf)@, pos as int, value),
{
    let c = match buf.get(pos) {
        Some(c) => *c,
        None => Char::new(0, false),
    };
    buf.replace(pos, Char { mark: value, ..c });
}

/// Sets the stroke of the record at `pos`.
fn put_stroke(buf: &mut Buffer, pos: usize, value: bool)
    requires
        old(buf).wf(),
        pos < old(buf)@.len(),
        value ==> old(buf)@[pos as int].key == keys::D,
    ensures
        final(buf).wf(),
        final(buf)@ == set_stroke(old(buf)@, pos as int, value),
{
    let c = match buf.get(pos) {
        Some(c) => *c,
        None => Char::new(0, false),
    };
    buf.replace(pos, Char { stroke: value, ..c });
}

/// The list holding `pos`.
fn one(pos: usize) -> (v: Vec<usize>)
    ensures
        v@ == seq![pos],
{
    let mut v: Vec<usize> = Vec::new();
    v.push(pos);
    v
}

/// The list holding the position, or the empty list.
fn one_or_none(pos: Option<usize>) -> (v: Vec<usize>)
    ensures
        pos matches Some(p) ==> v@ == seq![p],
        pos is None ==> v@ == Seq::<usize>::empty(),
{
    match pos {
        Some(p) => one(p),
        None => Vec::new(),
    }
}

/// Applies a tone modifier (circumflex, horn, breve) for a tone key.
///
/// When a tone modifier lands, the mark of the buffer is put where the
/// placement rules now want it.
pub fn apply_tone(buf: &mut Buffer, key: u16, tone_value: u8, method: u8) -> (result:
    TransformResult)
    requires
        old(buf).wf(),
    ensures
        final(buf).wf(),
        final(buf)@ == tone_applied(old(buf)@, key, tone_value, method),
        result.modified_positions@ == open_targets(
            old(buf)@,
            tone_targets(old(buf)@, key, tone_value, method),
            tone_targets(old(buf)@, key, tone_value, method).len() as int,
        ),
        result.applied == (result.modified_positions@.len() > 0),
{
    let targets = find_tone_targets(buf, key, tone_value, method);
    let ghost s = buf@;
    let ghost ts = targets@;
    let len = buf.len();
    proof {
        lemma_tone_targets(s, key, tone_value, method);
    }
    let mut positions: Vec<usize> = Vec::new();
    let mut k: usize = 0;
    while k < targets.len()
        invariant
            k <= targets.len(),
            ts == targets@,
            s.len() == len,
            well_formed(s),
            buf.wf(),
            forall|j: int|
                0 <= j < ts.len() ==> {
                    let p = #[trigger] ts[j];
                    &&& p < s.len()
                    &&& chars::tone_fits_key(
                        s[p as int].key,
                        stored_tone(s[p as int].key, tone_value),
                    )
                },
            forall|i: int, j: int| 0 <= i < j < ts.len() ==> ts[i] != ts[j],
            buf@ == toned(s, ts, tone_value, k as int),
            positions@ == open_targets(s, ts, k as int),
        decreases targets.len() - k,
    {
        let pos = targets[k];
        let ghost before = buf@;
        assert(before[pos as int] == s[pos as int]) by {
            if exists|j: int| 0 <= j < k && j < ts.len() && #[trigger] ts[j] == pos {
                let j = choose|j: int| 0 <= j < k && j < ts.len() && #[trigger] ts[j] == pos;
                assert(ts[j] != ts[k as int]);
            }
        }
        let c = match buf.get(pos) {
            Some(c) => *c,
            None => Char::new(0, false),
        };
        if c.tone == tone::NONE {
            let value = if c.key == keys::A && tone_value == tone::HORN {
                tone::BREVE
            } else {
                tone_value
            };
            put_tone(buf, pos, value);
            positions.push(pos);
        }
        proof {
            let after = toned(s, ts, tone_value, k + 1);
            assert forall|i: int| 0 <= i < s.len() implies buf@[i] == after[i] by {
                let hit_before = exists|j: int| 0 <= j < k && j < ts.len() && #[trigger] ts[j] == i;
                let hit_after = exists|j: int|
                    0 <= j < k + 1 && j < ts.len() && #[trigger] ts[j] == i;
                if i == pos {
                    assert(ts[k as int] == i);
                    assert(hit_after);
                } else {
                    if hit_after {
                        let j = choose|j: int|
                            0 <= j < k + 1 && j < ts.len() && #[trigger] ts[j] == i;
                        assert(j < k);
                        assert(hit_before);
                    }
                    if hit_before {
                        let j = choose|j: int| 0 <= j < k && j < ts.len() && #[trigger] ts[j] == i;
                        assert(0 <= j < k + 1 && ts[j] == i);
                    }
                }
            }
            assert(buf@ =~= after);
        }
        k += 1;
    }

    if positions.len() == 0 {
        proof {
            lemma_open_targets(s, ts, ts.len() as int);
        }
        assert(buf@ =~= s);
        TransformResult::none()
    } else {
        reposition_mark_if_needed(buf);
        TransformResult::success(positions)
    }
}

/// Finds the positions that should receive the tone modifier.
fn find_tone_targets(buf: &Buffer, key: u16, tone_value: u8, method: u8) -> (targets: Vec<usize>)
    ensures
        targets@ == tone_targets(buf@, key, tone_value, method),
{
    let vowel_positions = buf.find_vowels();
    let len = buf.len();
    if vowel_positions.len() == 0 {
        return Vec::new();
    }
    proof {
        lemma_vowel_positions(keys_of(buf@));
    }
    assert(len > 0);
    if method == 0 {
        if tone_value == tone::CIRCUMFLEX && (key == keys::A || key == keys::E || key == keys::O) {
            // A doubled vowel takes the circumflex only right after its
            // twin, and only while no vowel is decorated yet.
            if find_first(buf, Pattern::Decorated).is_some() {
                return Vec::new();
            }
            let last_pos = len - 1;
            match buf.get(last_pos) {
                Some(c) => {
                    if c.key == key {
                        return one(last_pos);
                    }
                },
                None => {},
            }
            Vec::new()
        } else if tone_value == tone::HORN && key == keys::W {
            let buffer_keys = buf.keys();
            let horn = Phonology::find_horn_positions(
                buffer_keys.as_slice(),
                vowel_positions.as_slice(),
            );
            if horn.len() > 0 {
                horn
            } else {
                one_or_none(find_last(buf, Pattern::KeyA))
            }
        } else {
            Vec::new()
        }
    } else {
        if tone_value == tone::CIRCUMFLEX && key == keys::N6 {
            one_or_none(find_last(buf, Pattern::KeyAEO))
        } else if tone_value == tone::HORN && key == keys::N7 {
            let buffer_keys = buf.keys();
            Phonology::find_horn_positions(buffer_keys.as_slice(), vowel_positions.as_slice())
        } else if tone_value == tone::BREVE && key == keys::N8 {
            one_or_none(find_last(buf, Pattern::KeyA))
        } else {
            Vec::new()
        }
    }
}

/// Applies a tone mark (sắc, huyền, hỏi, ngã, nặng).
pub fn apply_mark(buf: &mut Buffer, mark_value: u8, modern: bool) -> (result: TransformResult)
    requires
        old(buf).wf(),
    ensures
        final(buf).wf(),
        final(buf)@ == mark_applied(old(buf)@, mark_value, modern),
        result.applied == mark_applies(old(buf)@, mark_value),
        result.modified_positions@ == if mark_applies(old(buf)@, mark_value) {
            seq![mark_target(old(buf)@, modern)]
        } else {
            Seq::empty()
        },
{
    let vowels = utils::collect_vowels(buf);
    if vowels.len() == 0 || mark_value > mark::NANG {
        return TransformResult::none();
    }
    let pos = find_mark_target(buf, modern);
    let len = buf.len();
    let ghost s = buf@;
    proof {
        lemma_mark_target(s, modern);
    }

    // Clear any existing mark first.
    let mut i: usize = 0;
    while i < len
        invariant
            i <= len,
            len == s.len(),
            buf.wf(),
            buf@.len() == s.len(),
            forall|j: int| 0 <= j < i ==> buf@[j] == unmarked(s)[j],
            forall|j: int| i <= j < len ==> buf@[j] == s[j],
        decreases len - i,
    {
        put_mark(buf, i, mark::NONE);
        i += 1;
    }
    assert(buf@ =~= unmarked(s));
    put_mark(buf, pos, mark_value);
    TransformResult::success(one(pos))
}

/// Applies the stroke (d → đ) to the first `d` that has none.
pub fn apply_stroke(buf: &mut Buffer) -> (result: TransformResult)
    requires
        old(buf).wf(),
    ensures
        final(buf).wf(),
        final(buf)@ == stroke_applied(old(buf)@),
        result.applied == (first_match(old(buf)@, Pattern::PlainD, 0) < old(buf)@.len()),
        result.modified_positions@ == if result.applied {
            seq![first_match(old(buf)@, Pattern::PlainD, 0) as usize]
        } else {
            Seq::empty()
        },
{
    match find_first(buf, Pattern::PlainD) {
        Some(i) => {
            proof {
                lemma_first_match(buf@, Pattern::PlainD, 0);
            }
            put_stroke(buf, i, true);
            TransformResult::success(one(i))
        },
        None => TransformResult::none(),
    }
}

/// Removes the last diacritic: the mark if there is one, else the last
/// tone modifier.
pub fn apply_remove(buf: &mut Buffer) -> (result: TransformResult)
    requires
        old(buf).wf(),
    ensures
        final(buf).wf(),
        final(buf)@ == removed(old(buf)@),
        result.applied == (remove_position(old(buf)@) >= 0),
        result.modified_positions@ == single(remove_position(old(buf)@)),
{
    match find_last(buf, Pattern::MarkedVowel) {
        Some(pos) => {
            put_mark(buf, pos, mark::NONE);
            return TransformResult::success(one(pos));
        },
        None => {},
    }
    match find_last(buf, Pattern::TonedVowel) {
        Some(pos) => {
            put_tone(buf, pos, tone::NONE);
            return TransformResult::success(one(pos));
        },
        None => {},
    }
    TransformResult::none()
}

/// Takes the tone modifier back from the last vowel of the given key
/// that carries one.
pub fn revert_tone(buf: &mut Buffer, target_key: u16) -> (result: TransformResult)
    requires
        old(buf).wf(),
    ensures
        final(buf).wf(),
        final(buf)@ == tone_reverted(old(buf)@, target_key),
        result.applied == (last_match(
            old(buf)@,
            Pattern::TonedKey(target_key),
            old(buf)@.len() as int,
        ) >= 0),
        result.modified_positions@ == single(
            last_match(old(buf)@, Pattern::TonedKey(target_key), old(buf)@.len() as int),
        ),
{
    match find_last(buf, Pattern::TonedKey(target_key)) {
        Some(pos) => {
            put_tone(buf, pos, tone::NONE);
            TransformResult::success(one(pos))
        },
        None => TransformResult::none(),
    }
}

/// Takes the mark back from the last vowel that carries one.
pub fn revert_mark(buf: &mut Buffer) -> (result: TransformResult)
    requires
        old(buf).wf(),
    ensures
        final(buf).wf(),
        final(buf)@ == mark_reverted(old(buf)@),
        result.applied == (last_match(old(buf)@, Pattern::MarkedVowel, old(buf)@.len() as int)
            >= 0),
        result.modified_positions@ == single(
            last_match(old(buf)@, Pattern::MarkedVowel, old(buf)@.len() as int),
        ),
{
    match find_last(buf, Pattern::MarkedVowel) {
        Some(pos) => {
            put_mark(buf, pos, mark::NONE);
            TransformResult::success(one(pos))
        },
        None => TransformResult::none(),
    }
}

/// Takes the stroke back from the first stroked `d`.
pub fn revert_stroke(buf: &mut Buffer) -> (result: TransformResult)
    requires
        old(buf).wf(),
    ensures
        final(buf).wf(),
        final(buf)@ == stroke_reverted(old(buf)@),
        result.applied == (first_match(old(buf)@, Pattern::StrokedD, 0) < old(buf)@.len()),
        result.modified_positions@ == if result.applied {
            seq![first_match(old(buf)@, Pattern::StrokedD, 0) as usize]
        } else {
            Seq::empty()
        },
{
    match find_first(buf, Pattern::StrokedD) {
        Some(i) => {
            put_stroke(buf, i, false);
            TransformResult::success(one(i))
        },
        None => TransformResult::none(),
    }
}

/// Moves the mark to where modern placement puts it, after a tone
/// modifier has changed the vowels.
fn reposition_mark_if_needed(buf: &mut Buffer)
    requires
        old(buf).wf(),
    ensures
        final(buf).wf(),
        final(buf)@ == repositioned(old(buf)@),
{
    match find_first(buf, Pattern::Marked) {
        Some(old_pos) => {
            let vowels = utils::collect_vowels(buf);
            if vowels.len() == 0 {
                return ;
            }
            let mark_value = match buf.get(old_pos) {
                Some(c) => c.mark,
                None => mark::NONE,
            };
            let new_pos = find_mark_target(buf, true);
            proof {
                lemma_mark_target(buf@, true);
                lemma_first_match(buf@, Pattern::Marked, 0);
            }
            if new_pos != old_pos {
                put_mark(buf, old_pos, mark::NONE);
                put_mark(buf, new_pos, mark_value);
            }
        },
        None => {},
    }
}

} // verus!
