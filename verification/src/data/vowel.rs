//! Vietnamese phonology: where a tone mark lands and which vowels take
//! the horn.

use crate::data::chars::tone;
use crate::data::keys;
use vstd::prelude::*;

verus! {

/// A vowel of the buffer: its key, its tone modifier and its position.
#[derive(Clone, Copy, Debug)]
pub struct Vowel {
    pub key: u16,
    pub tone: u8,
    pub pos: usize,
}

impl Vowel {
    pub fn new(key: u16, tone: u8, pos: usize) -> (v: Vowel)
        ensures
            v == (Vowel { key, tone, pos }),
    {
        Vowel { key, tone, pos }
    }

    pub fn has_tone(&self) -> (b: bool)
        ensures
            b == (self.tone != tone::NONE),
    {
        self.tone != tone::NONE
    }
}

/// Whether the `u` at `pos` follows `q` and precedes another vowel, so
/// that it belongs to the initial `qu` and not to the nucleus.
pub open spec fn qu_absorbs(ks: Seq<u16>, pos: int) -> bool {
    &&& 0 < pos
    &&& pos + 1 < ks.len()
    &&& ks[pos - 1] == keys::Q
    &&& ks[pos] == keys::U
    &&& keys::is_vowel_key(ks[pos + 1])
}

/// Index of the first vowel that counts for the nucleus: the `u` of `qu`
/// and the `i` of `gi` are skipped when another vowel follows.
pub open spec fn nucleus_start(vowels: Seq<Vowel>, has_qu: bool, has_gi: bool) -> int {
    if vowels.len() >= 2 && ((has_qu && vowels[0].key == keys::U) || (has_gi && vowels[0].key
        == keys::I)) {
        1
    } else {
        0
    }
}

/// Index, among the vowels, of the one that carries the tone mark.
///
/// One vowel in the nucleus: that vowel. Two: the one with a tone
/// modifier (the second if both have one); else the second before a final
/// consonant; else the first under modern placement and the second under
/// traditional placement. Three or more: the last but one.
pub open spec fn tone_index(
    vowels: Seq<Vowel>,
    has_final: bool,
    modern: bool,
    has_qu: bool,
    has_gi: bool,
) -> int
    recommends
        vowels.len() > 0,
{
    let k = nucleus_start(vowels, has_qu, has_gi);
    let n = vowels.len() - k;
    if n <= 1 {
        k
    } else if n == 2 {
        if vowels[k + 1].tone != tone::NONE {
            k + 1
        } else if vowels[k].tone != tone::NONE {
            k
        } else if has_final {
            k + 1
        } else if modern {
            k
        } else {
            k + 1
        }
    } else {
        k + n - 2
    }
}

/// Buffer position of the vowel that carries the tone mark; 0 when there
/// is no vowel.
pub open spec fn tone_position(
    vowels: Seq<Vowel>,
    has_final: bool,
    modern: bool,
    has_qu: bool,
    has_gi: bool,
) -> usize {
    if vowels.len() == 0 {
        0
    } else {
        vowels[tone_index(vowels, has_final, modern, has_qu, has_gi)].pos
    }
}

/// Whether the vowels at indices `i` and `i + 1` are an adjacent `u`, `o`
/// of the nucleus.
pub open spec fn horn_pair_at(ks: Seq<u16>, vps: Seq<usize>, i: int) -> bool {
    &&& 0 <= i
    &&& i + 1 < vps.len()
    &&& vps[i + 1] == vps[i] + 1
    &&& ks[vps[i] as int] == keys::U
    &&& ks[vps[i + 1] as int] == keys::O
    &&& !qu_absorbs(ks, vps[i] as int)
}

/// Whether the vowel at index `i` is a `u` or an `o` of the nucleus.
pub open spec fn horn_single_at(ks: Seq<u16>, vps: Seq<usize>, i: int) -> bool {
    &&& 0 <= i < vps.len()
    &&& ks[vps[i] as int] == keys::U || ks[vps[i] as int] == keys::O
    &&& !qu_absorbs(ks, vps[i] as int)
}

/// The least index at or after `from` with a horn pair, or the number of
/// vowels if there is none.
pub open spec fn first_horn_pair(ks: Seq<u16>, vps: Seq<usize>, from: int) -> int
    decreases vps.len() - from,
{
    if from + 1 >= vps.len() {
        vps.len() as int
    } else if horn_pair_at(ks, vps, from) {
        from
    } else {
        first_horn_pair(ks, vps, from + 1)
    }
}

/// The greatest index below `n` with a `u` or `o` of the nucleus, or -1.
pub open spec fn last_horn_single(ks: Seq<u16>, vps: Seq<usize>, n: int) -> int
    decreases n,
{
    if n <= 0 {
        -1
    } else if horn_single_at(ks, vps, n - 1) {
        n - 1
    } else {
        last_horn_single(ks, vps, n - 1)
    }
}

/// The positions that take the horn together: the first adjacent `u`,
/// `o` of the nucleus, both of them; failing that the last `u` or `o`
/// alone; failing that none.
pub open spec fn horn_positions(ks: Seq<u16>, vps: Seq<usize>) -> Seq<usize> {
    let i = first_horn_pair(ks, vps, 0);
    if i < vps.len() {
        seq![vps[i], vps[i + 1]]
    } else {
        let j = last_horn_single(ks, vps, vps.len() as int);
        if j >= 0 {
            seq![vps[j]]
        } else {
            Seq::empty()
        }
    }
}

/// `first_horn_pair` is the least index at or after `from` with a pair.
pub proof fn lemma_first_horn_pair(ks: Seq<u16>, vps: Seq<usize>, from: int)
    requires
        0 <= from,
    ensures
        first_horn_pair(ks, vps, from) < vps.len() ==> from <= first_horn_pair(ks, vps, from)
            && horn_pair_at(ks, vps, first_horn_pair(ks, vps, from)),
        first_horn_pair(ks, vps, from) >= vps.len() ==> first_horn_pair(ks, vps, from)
            == vps.len(),
        forall|i: int|
            from <= i < first_horn_pair(ks, vps, from) ==> !horn_pair_at(ks, vps, i),
    decreases vps.len() - from,
{
    if from + 1 < vps.len() && !horn_pair_at(ks, vps, from) {
        lemma_first_horn_pair(ks, vps, from + 1);
    }
}

/// `last_horn_single` is the greatest index below `n` with a single.
pub proof fn lemma_last_horn_single(ks: Seq<u16>, vps: Seq<usize>, n: int)
    requires
        n <= vps.len(),
    ensures
        -1 <= last_horn_single(ks, vps, n) < n || (n < 0 && last_horn_single(ks, vps, n) == -1),
        last_horn_single(ks, vps, n) >= 0 ==> horn_single_at(
            ks,
            vps,
            last_horn_single(ks, vps, n),
        ),
        forall|i: int| last_horn_single(ks, vps, n) < i < n ==> !horn_single_at(ks, vps, i),
    decreases n,
{
    if n > 0 && !horn_single_at(ks, vps, n - 1) {
        lemma_last_horn_single(ks, vps, n - 1);
    }
}

/// The placement rules of Vietnamese phonology.
pub struct Phonology;

impl Phonology {
    /// Buffer position of the vowel that takes the tone mark.
    pub fn find_tone_position(
        vowels: &[Vowel],
        has_final: bool,
        modern: bool,
        has_qu: bool,
        has_gi: bool,
    ) -> (pos: usize)
        ensures
            pos == tone_position(vowels@, has_final, modern, has_qu, has_gi),
    {
        let len = vowels.len();
        if len == 0 {
            return 0;
        }
        let k: usize = if len >= 2 && ((has_qu && vowels[0].key == keys::U) || (has_gi
            && vowels[0].key == keys::I)) {
            1
        } else {
            0
        };
        let n = len - k;
        if n <= 1 {
            vowels[k].pos
        } else if n == 2 {
            if vowels[k + 1].has_tone() {
                vowels[k + 1].pos
            } else if vowels[k].has_tone() {
                vowels[k].pos
            } else if has_final {
                vowels[k + 1].pos
            } else if modern {
                vowels[k].pos
            } else {
                vowels[k + 1].pos
            }
        } else {
            vowels[k + n - 2].pos
        }
    }

    /// The positions that take the horn together.
    pub fn find_horn_positions(buffer_keys: &[u16], vowel_positions: &[usize]) -> (result: Vec<
        usize,
    >)
        requires
            forall|i: int|
                0 <= i < vowel_positions@.len() ==> (#[trigger] vowel_positions@[i])
                    < buffer_keys@.len(),
        ensures
            result@ == horn_positions(buffer_keys@, vowel_positions@),
    {
        let ghost ks = buffer_keys@;
        let ghost vps = vowel_positions@;
        let mut result: Vec<usize> = Vec::new();
        let len = vowel_positions.len();

        let pairs: usize = if len == 0 {
            0
        } else {
            len - 1
        };
        let mut i: usize = 0;
        while i < pairs
            invariant
                i <= pairs,
                pairs + 1 == len || (pairs == 0 && len == 0),
                len == vps.len(),
                ks == buffer_keys@,
                vps == vowel_positions@,
                forall|j: int| 0 <= j < vps.len() ==> (#[trigger] vps[j]) < ks.len(),
                first_horn_pair(ks, vps, 0) == first_horn_pair(ks, vps, i as int),
                result@.len() == 0,
            decreases pairs - i,
        {
            let pos1 = vowel_positions[i];
            let pos2 = vowel_positions[i + 1];
            if pos1 < usize::MAX && pos2 == pos1 + 1 && buffer_keys[pos1] == keys::U
                && buffer_keys[pos2] == keys::O && !Self::in_qu(buffer_keys, pos1) {
                result.push(pos1);
                result.push(pos2);
                assert(horn_pair_at(ks, vps, i as int));
                assert(result@ =~= horn_positions(ks, vps));
                return result;
            }
            assert(!horn_pair_at(ks, vps, i as int));
            i += 1;
        }

        let mut n: usize = len;
        while n > 0
            invariant
                n <= len,
                len == vps.len(),
                ks == buffer_keys@,
                vps == vowel_positions@,
                forall|j: int| 0 <= j < vps.len() ==> (#[trigger] vps[j]) < ks.len(),
                first_horn_pair(ks, vps, 0) >= vps.len(),
                last_horn_single(ks, vps, vps.len() as int) == last_horn_single(
                    ks,
                    vps,
                    n as int,
                ),
                result@.len() == 0,
            decreases n,
        {
            let pos = vowel_positions[n - 1];
            let key = buffer_keys[pos];
            if (key == keys::U || key == keys::O) && !Self::in_qu(buffer_keys, pos) {
                result.push(pos);
                assert(horn_single_at(ks, vps, n - 1));
                assert(result@ =~= horn_positions(ks, vps));
                return result;
            }
            assert(!horn_single_at(ks, vps, n - 1));
            n -= 1;
        }
        assert(result@ =~= horn_positions(ks, vps));
        result
    }

    /// Whether the `u` at `pos` belongs to the initial `qu`.
    fn in_qu(buffer_keys: &[u16], pos: usize) -> (b: bool)
        requires
            pos < buffer_keys@.len(),
        ensures
            b == qu_absorbs(buffer_keys@, pos as int),
    {
        let len = buffer_keys.len();
        pos > 0 && pos + 1 < len && buffer_keys[pos - 1] == keys::Q && buffer_keys[pos]
            == keys::U && keys::is_vowel(buffer_keys[pos + 1])
    }
}

} // verus!
