//! Syllable parser.
//!
//! Splits the keys of a buffer into the parts of a Vietnamese syllable,
//! (C₁)(G)V(C₂): initial consonants, an optional glide, the vowel nucleus
//! and the final consonants.

use crate::data::constants;
use crate::data::keys;
use vstd::prelude::*;

verus! {

/// The parts of a syllable, each a list of buffer positions.
#[derive(Debug, Clone)]
pub struct Syllable {
    /// Positions of the initial consonants.
    pub initial: Vec<usize>,
    /// Position of the glide (o in "hoa").
    pub glide: Option<usize>,
    /// Positions of the vowel nucleus.
    pub vowel: Vec<usize>,
    /// Positions of the final consonants.
    pub final_c: Vec<usize>,
}

/// Mathematical model of a [`Syllable`].
pub struct SyllableView {
    pub initial: Seq<usize>,
    pub glide: Option<usize>,
    pub vowel: Seq<usize>,
    pub final_c: Seq<usize>,
}

impl View for Syllable {
    type V = SyllableView;

    open spec fn view(&self) -> SyllableView {
        SyllableView {
            initial: self.initial@,
            glide: self.glide,
            vowel: self.vowel@,
            final_c: self.final_c@,
        }
    }
}

/// The syllable with no parts.
pub open spec fn empty_syllable() -> SyllableView {
    SyllableView {
        initial: Seq::empty(),
        glide: None,
        vowel: Seq::empty(),
        final_c: Seq::empty(),
    }
}

/// The positions `from, from + 1, .., to - 1`.
pub open spec fn span(from: int, to: int) -> Seq<usize> {
    Seq::new((to - from) as nat, |i: int| (from + i) as usize)
}

/// The first position at or after `from` that holds a vowel, or the
/// length of the keys if there is none.
pub open spec fn next_vowel(ks: Seq<u16>, from: int) -> int
    decreases ks.len() - from,
{
    if from >= ks.len() {
        ks.len() as int
    } else if keys::is_vowel_key(ks[from]) {
        from
    } else {
        next_vowel(ks, from + 1)
    }
}

/// The first position at or after `from` that holds no vowel, or the
/// length of the keys if there is none.
pub open spec fn vowel_run_end(ks: Seq<u16>, from: int) -> int
    decreases ks.len() - from,
{
    if from >= ks.len() {
        ks.len() as int
    } else if !keys::is_vowel_key(ks[from]) {
        from
    } else {
        vowel_run_end(ks, from + 1)
    }
}

/// Whether the vowel at `pos` belongs to the initial: the `i` of `gi` or
/// the `u` of `qu`, when another vowel follows.
pub open spec fn joins_initial(ks: Seq<u16>, pos: int) -> bool {
    &&& 0 < pos
    &&& pos + 1 < ks.len()
    &&& keys::is_vowel_key(ks[pos + 1])
    &&& (ks[pos - 1] == keys::G && ks[pos] == keys::I) || (ks[pos - 1] == keys::Q && ks[pos]
        == keys::U)
}

/// Whether the syllable begins its vowels right after a `qu` initial.
pub open spec fn after_qu(ks: Seq<u16>, pos: int) -> bool {
    joins_initial(ks, pos) && ks[pos - 1] == keys::Q
}

/// The glide patterns: `o` before `a` or `e`, and `u` before `y` or `e`.
pub open spec fn glide_pair(first: u16, second: u16) -> bool {
    ||| first == keys::O && (second == keys::A || second == keys::E)
    ||| first == keys::U && (second == keys::Y || second == keys::E)
}

/// Number of keys the final consonant takes at `start`: the longest of
/// a two-letter final, a one-letter final, or nothing.
pub open spec fn final_len(ks: Seq<u16>, start: int) -> int {
    if start + 2 <= ks.len() && constants::is_final_pair(ks[start], ks[start + 1]) {
        2
    } else if start + 1 <= ks.len() && constants::is_final_single(ks[start]) {
        1
    } else {
        0
    }
}

/// The syllable structure of a key sequence.
///
/// Without a vowel the syllable is empty. Otherwise everything before the
/// vowel start is the initial, the run of vowels from there is the nucleus
/// (its first vowel being a glide where the pattern asks for it), and the
/// keys right after the run form the final as far as they are legal.
pub open spec fn parsed(ks: Seq<u16>) -> SyllableView {
    let first = next_vowel(ks, 0);
    if first >= ks.len() {
        empty_syllable()
    } else {
        let start = if joins_initial(ks, first) {
            first + 1
        } else {
            first
        };
        let end = vowel_run_end(ks, start);
        let glide = end - start >= 2 && !after_qu(ks, first) && glide_pair(
            ks[start],
            ks[start + 1],
        );
        SyllableView {
            initial: span(0, start),
            glide: if glide {
                Some(start as usize)
            } else {
                None
            },
            vowel: if glide {
                span(start + 1, end)
            } else {
                span(start, end)
            },
            final_c: span(end, end + final_len(ks, end)),
        }
    }
}

/// Whether some key is a vowel.
pub open spec fn has_vowel(ks: Seq<u16>) -> bool {
    exists|i: int| 0 <= i < ks.len() && keys::is_vowel_key(#[trigger] ks[i])
}

/// `next_vowel` is the least vowel position at or after `from`.
pub proof fn lemma_next_vowel(ks: Seq<u16>, from: int)
    requires
        0 <= from <= ks.len(),
    ensures
        from <= next_vowel(ks, from) <= ks.len(),
        next_vowel(ks, from) < ks.len() ==> keys::is_vowel_key(ks[next_vowel(ks, from)]),
        forall|i: int| from <= i < next_vowel(ks, from) ==> !keys::is_vowel_key(#[trigger] ks[i]),
    decreases ks.len() - from,
{
    if from < ks.len() && !keys::is_vowel_key(ks[from]) {
        lemma_next_vowel(ks, from + 1);
    }
}

/// `vowel_run_end` closes the longest run of vowels that begins at `from`.
pub proof fn lemma_vowel_run_end(ks: Seq<u16>, from: int)
    requires
        0 <= from <= ks.len(),
    ensures
        from <= vowel_run_end(ks, from) <= ks.len(),
        vowel_run_end(ks, from) < ks.len() ==> !keys::is_vowel_key(ks[vowel_run_end(ks, from)]),
        forall|i: int| from <= i < vowel_run_end(ks, from) ==> keys::is_vowel_key(#[trigger] ks[i]),
    decreases ks.len() - from,
{
    if from < ks.len() && keys::is_vowel_key(ks[from]) {
        lemma_vowel_run_end(ks, from + 1);
    }
}

/// The parts of a syllable lie within the keys, one after the other.
pub proof fn lemma_parsed_bounds(ks: Seq<u16>)
    ensures
        parsed(ks).initial.len() + (if parsed(ks).glide is Some {
            1nat
        } else {
            0nat
        }) + parsed(ks).vowel.len() + parsed(ks).final_c.len() <= ks.len(),
{
    lemma_next_vowel(ks, 0);
    let first = next_vowel(ks, 0);
    if first < ks.len() {
        let start = if joins_initial(ks, first) {
            first + 1
        } else {
            first
        };
        lemma_vowel_run_end(ks, start);
    }
}

/// A key sequence has a vowel exactly when its syllable has a nucleus.
pub proof fn lemma_parsed_nucleus(ks: Seq<u16>)
    ensures
        has_vowel(ks) <==> parsed(ks).vowel.len() > 0,
        parsed(ks).vowel.len() == 0 ==> parsed(ks) == empty_syllable(),
{
    lemma_next_vowel(ks, 0);
    let first = next_vowel(ks, 0);
    if first < ks.len() {
        assert(keys::is_vowel_key(ks[first]));
        let start = if joins_initial(ks, first) {
            first + 1
        } else {
            first
        };
        lemma_vowel_run_end(ks, start);
        lemma_vowel_run_end(ks, start + 1);
        let end = vowel_run_end(ks, start);
        assert(end > start);
    } else {
        assert(!has_vowel(ks));
    }
}

/// Whether the initial of the syllable may begin a Vietnamese syllable:
/// it holds letters only and, unless foreign consonants are allowed,
/// none of f, j, w, z.
pub open spec fn initial_allowed(ks: Seq<u16>, allow_foreign: bool) -> bool {
    forall|i: int|
        0 <= i < parsed(ks).initial.len() && i < ks.len() ==> keys::is_letter_key(#[trigger] ks[i])
            && (allow_foreign || !constants::is_foreign_consonant(ks[i]))
}

/// Whether the parts of the syllable account for every key.
pub open spec fn syllable_complete(ks: Seq<u16>) -> bool {
    let syllable = parsed(ks);
    syllable.initial.len() + (if syllable.glide is Some {
        1nat
    } else {
        0nat
    }) + syllable.vowel.len() + syllable.final_c.len() == ks.len()
}

/// Whether the keys spell a syllable that Vietnamese phonotactics admit:
/// there is a vowel, nothing follows the final consonant, and the initial
/// is allowed.
pub open spec fn valid_syllable(ks: Seq<u16>, allow_foreign: bool) -> bool {
    has_vowel(ks) && syllable_complete(ks) && initial_allowed(ks, allow_foreign)
}

impl Syllable {
    /// A syllable with no parts.
    pub fn new() -> (s: Syllable)
        ensures
            s@ == empty_syllable(),
    {
        Syllable { initial: Vec::new(), glide: None, vowel: Vec::new(), final_c: Vec::new() }
    }

    /// Whether the syllable lacks a vowel nucleus.
    pub fn is_empty(&self) -> (b: bool)
        ensures
            b == (self@.vowel.len() == 0),
    {
        self.vowel.len() == 0
    }

    pub fn has_initial(&self) -> (b: bool)
        ensures
            b == (self@.initial.len() > 0),
    {
        self.initial.len() != 0
    }

    pub fn has_final(&self) -> (b: bool)
        ensures
            b == (self@.final_c.len() > 0),
    {
        self.final_c.len() != 0
    }

    pub fn vowel_count(&self) -> (n: usize)
        ensures
            n == self@.vowel.len(),
    {
        self.vowel.len()
    }
}

impl Default for Syllable {
    fn default() -> (s: Syllable)
        ensures
            s@ == empty_syllable(),
    {
        Syllable::new()
    }
}

/// Appends the positions `from..to` to a list.
fn push_span(list: &mut Vec<usize>, from: usize, to: usize)
    requires
        from <= to,
    ensures
        final(list)@ == old(list)@ + span(from as int, to as int),
{
    let mut i: usize = from;
    while i < to
        invariant
            from <= i <= to,
            list@ == old(list)@ + span(from as int, i as int),
        decreases to - i,
    {
        list.push(i);
        assert(list@ =~= old(list)@ + span(from as int, i + 1));
        i += 1;
    }
}

/// Parses the keys of a buffer into a syllable.
///
/// The parser is lenient: it does not reject an initial that no Vietnamese
/// syllable has.
pub fn parse(buffer_keys: &[u16]) -> (syllable: Syllable)
    ensures
        syllable@ == parsed(buffer_keys@),
{
    let mut syllable = Syllable::new();
    let len = buffer_keys.len();
    let ghost ks = buffer_keys@;

    // Locate the first vowel.
    let mut first: usize = 0;
    while first < len && !keys::is_vowel(buffer_keys[first])
        invariant
            first <= len,
            len == ks.len(),
            ks == buffer_keys@,
            next_vowel(ks, 0) == next_vowel(ks, first as int),
        decreases len - first,
    {
        first += 1;
    }
    if first >= len {
        return syllable;
    }
    // The `i` of `gi` and the `u` of `qu` belong to the initial when
    // another vowel follows.
    let joins = first > 0 && first + 1 < len && keys::is_vowel(buffer_keys[first + 1]) && ((
    buffer_keys[first - 1] == keys::G && buffer_keys[first] == keys::I) || (buffer_keys[first - 1]
        == keys::Q && buffer_keys[first] == keys::U));
    let qu = joins && buffer_keys[first - 1] == keys::Q;
    let vowel_start: usize = if joins {
        first + 1
    } else {
        first
    };
    push_span(&mut syllable.initial, 0, vowel_start);

    // Take the run of consecutive vowels.
    let mut vowel_end: usize = vowel_start;
    while vowel_end < len && keys::is_vowel(buffer_keys[vowel_end])
        invariant
            vowel_start <= vowel_end <= len,
            len == ks.len(),
            ks == buffer_keys@,
            vowel_run_end(ks, vowel_start as int) == vowel_run_end(ks, vowel_end as int),
        decreases len - vowel_end,
    {
        vowel_end += 1;
    }
    proof {
        lemma_vowel_run_end(ks, vowel_start as int);
        lemma_vowel_run_end(ks, vowel_start + 1);
    }

    if vowel_end - vowel_start >= 2 && is_glide_pattern(
        buffer_keys[vowel_start],
        buffer_keys[vowel_start + 1],
        qu,
    ) {
        syllable.glide = Some(vowel_start);
        push_span(&mut syllable.vowel, vowel_start + 1, vowel_end);
    } else {
        push_span(&mut syllable.vowel, vowel_start, vowel_end);
    }

    if vowel_end < len {
        match_final(buffer_keys, vowel_end, &mut syllable);
    }
    assert(syllable@.initial =~= parsed(ks).initial);
    assert(syllable@.vowel =~= parsed(ks).vowel);
    assert(syllable@.final_c =~= parsed(ks).final_c);
    syllable
}

/// Sets the final consonant of the syllable from the keys at `start`.
fn match_final(keys: &[u16], start: usize, syllable: &mut Syllable)
    requires
        start < keys@.len(),
        old(syllable).final_c@.len() == 0,
    ensures
        final(syllable).final_c@ == span(start as int, start + final_len(keys@, start as int)),
        final(syllable).initial == old(syllable).initial,
        final(syllable).glide == old(syllable).glide,
        final(syllable).vowel == old(syllable).vowel,
{
    let len = keys.len();
    let remaining = len - start;

    if remaining >= 2 && constants::valid_final_2(keys[start], keys[start + 1]) {
        push_span(&mut syllable.final_c, start, start + 2);
    } else if constants::valid_final_1(keys[start]) {
        push_span(&mut syllable.final_c, start, start + 1);
    }
    assert(syllable.final_c@ =~= span(start as int, start + final_len(keys@, start as int)));
}

/// Whether the first of two leading vowels is a glide: `o` before `a` or
/// `e`, `u` before `y` or `e`, and never right after `qu`.
fn is_glide_pattern(first: u16, second: u16, after_qu: bool) -> (b: bool)
    ensures
        b == (!after_qu && glide_pair(first, second)),
{
    if after_qu {
        return false;
    }
    if first == keys::O {
        second == keys::A || second == keys::E
    } else if first == keys::U {
        second == keys::Y || second == keys::E
    } else {
        false
    }
}

/// Whether the keys can be a Vietnamese syllable at all: they are not
/// empty and hold a vowel.
pub fn is_valid_structure(buffer_keys: &[u16]) -> (b: bool)
    ensures
        b == has_vowel(buffer_keys@),
{
    if buffer_keys.len() == 0 {
        return false;
    }
    let syllable = parse(buffer_keys);
    proof {
        lemma_parsed_nucleus(buffer_keys@);
    }
    !syllable.is_empty()
}

/// Whether the keys spell a syllable that Vietnamese phonotactics admit.
pub fn is_valid_syllable(buffer_keys: &[u16], allow_foreign: bool) -> (b: bool)
    ensures
        b == valid_syllable(buffer_keys@, allow_foreign),
{
    let syllable = parse(buffer_keys);
    let len = buffer_keys.len();
    proof {
        lemma_parsed_nucleus(buffer_keys@);
    }
    if syllable.is_empty() {
        return false;
    }
    let glide: usize = if syllable.glide.is_some() {
        1
    } else {
        0
    };
    proof {
        lemma_parsed_bounds(buffer_keys@);
    }
    let count = syllable.initial.len() + glide + syllable.vowel.len() + syllable.final_c.len();
    if count != len {
        return false;
    }
    let initial = syllable.initial.len();
    let mut i: usize = 0;
    while i < initial
        invariant
            i <= initial <= len,
            len == buffer_keys@.len(),
            initial == parsed(buffer_keys@).initial.len(),
            forall|j: int|
                0 <= j < i ==> keys::is_letter_key(#[trigger] buffer_keys@[j]) && (allow_foreign
                    || !constants::is_foreign_consonant(buffer_keys@[j])),
        decreases initial - i,
    {
        let key = buffer_keys[i];
        if !keys::is_letter(key) || (!allow_foreign && constants::foreign_consonant(key)) {
            return false;
        }
        i += 1;
    }
    true
}

} // verus!
