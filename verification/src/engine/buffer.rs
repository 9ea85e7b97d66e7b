//! The live buffer of uncommitted keys and their pending diacritics.

use crate::data::chars;
use crate::data::chars::{mark, tone};
use crate::data::keys;
use crate::utils;
use vstd::prelude::*;

verus! {

/// Largest number of records a buffer holds.
pub const CAPACITY: usize = 16;

/// One typed key with the diacritics it carries.
#[derive(Clone, Copy, Debug, PartialEq, Eq, Structural)]
pub struct Char {
    /// Key identifier of the base letter.
    pub key: u16,
    /// Whether the letter was typed in upper case.
    pub caps: bool,
    /// Tone modifier: circumflex, horn or breve.
    pub tone: u8,
    /// Tone mark: sắc, huyền, hỏi, ngã or nặng.
    pub mark: u8,
    /// Stroke through `d`.
    pub stroke: bool,
}

impl Char {
    /// The record invariant: a text key; a tone modifier only where it
    /// fits the key, which makes the key a vowel; a mark only on a vowel;
    /// a stroke only on `d`.
    pub open spec fn valid(self) -> bool {
        &&& keys::is_text_key(self.key)
        &&& self.tone != tone::NONE ==> chars::tone_fits_key(self.key, self.tone)
        &&& self.mark <= mark::NANG
        &&& self.mark != mark::NONE ==> keys::is_vowel_key(self.key)
        &&& self.stroke ==> self.key == keys::D
    }

    /// The letter this record is rendered as.
    pub open spec fn composed(self) -> char {
        chars::composed(self.key, self.caps, self.tone, self.mark, self.stroke)
    }

    /// The record of a key as typed, without diacritics.
    pub open spec fn plain(key: u16, caps: bool) -> Char {
        Char { key, caps, tone: tone::NONE, mark: mark::NONE, stroke: false }
    }

    pub fn new(key: u16, caps: bool) -> (c: Char)
        ensures
            c == Char::plain(key, caps),
    {
        Char { key, caps, tone: tone::NONE, mark: mark::NONE, stroke: false }
    }

    pub fn has_tone(&self) -> (b: bool)
        ensures
            b == (self.tone != tone::NONE),
    {
        self.tone != tone::NONE
    }

    pub fn has_mark(&self) -> (b: bool)
        ensures
            b == (self.mark != mark::NONE),
    {
        self.mark != mark::NONE
    }
}

/// Whether some record of the sequence carries a mark.
pub open spec fn has_mark_in(s: Seq<Char>) -> bool {
    exists|i: int| 0 <= i < s.len() && (#[trigger] s[i]).mark != mark::NONE
}

/// At most one record of the sequence carries a mark.
pub open spec fn at_most_one_mark(s: Seq<Char>) -> bool {
    forall|i: int, j: int|
        0 <= i < s.len() && 0 <= j < s.len() && (#[trigger] s[i]).mark != mark::NONE && (
        #[trigger] s[j]).mark != mark::NONE ==> i == j
}

/// Every record of the sequence satisfies the record invariant.
pub open spec fn records_valid(s: Seq<Char>) -> bool {
    forall|i: int| 0 <= i < s.len() ==> (#[trigger] s[i]).valid()
}

/// The buffer invariant over the sequence of records.
pub open spec fn well_formed(s: Seq<Char>) -> bool {
    &&& s.len() <= CAPACITY
    &&& records_valid(s)
    &&& at_most_one_mark(s)
}

/// The keys of the records, in order.
pub open spec fn keys_of(s: Seq<Char>) -> Seq<u16> {
    Seq::new(s.len(), |i: int| s[i].key)
}

/// The text the records are rendered as, one letter per record.
pub open spec fn rendered(s: Seq<Char>) -> Seq<char> {
    Seq::new(s.len(), |i: int| s[i].composed())
}

/// The positions among the first `n` keys that hold a vowel, ascending.
pub open spec fn vowels_upto(ks: Seq<u16>, n: int) -> Seq<usize>
    decreases n,
{
    if n <= 0 {
        Seq::empty()
    } else if keys::is_vowel_key(ks[n - 1]) {
        vowels_upto(ks, n - 1).push((n - 1) as usize)
    } else {
        vowels_upto(ks, n - 1)
    }
}

/// The positions of all vowel keys, ascending.
pub open spec fn vowel_positions(ks: Seq<u16>) -> Seq<usize> {
    vowels_upto(ks, ks.len() as int)
}

/// Whether a record may be appended: there is room, the record is valid,
/// and it brings no second mark.
pub open spec fn can_push(s: Seq<Char>, c: Char) -> bool {
    &&& s.len() < CAPACITY
    &&& c.valid()
    &&& c.mark != mark::NONE ==> !has_mark_in(s)
}

/// Whether the record at `i` may be replaced by `c`: same key and case,
/// a valid record, and no second mark.
pub open spec fn can_replace(s: Seq<Char>, i: int, c: Char) -> bool {
    &&& 0 <= i < s.len()
    &&& c.valid()
    &&& c.key == s[i].key
    &&& c.caps == s[i].caps
    &&& c.mark != mark::NONE ==> forall|j: int|
        0 <= j < s.len() && j != i ==> (#[trigger] s[j]).mark == mark::NONE
}

/// Every entry of `vowels_upto` is a vowel position below `n`, the entries
/// ascend strictly, and every vowel position below `n` is an entry.
pub proof fn lemma_vowels_upto(ks: Seq<u16>, n: int)
    requires
        0 <= n <= ks.len(),
        ks.len() <= usize::MAX,
    ensures
        vowels_upto(ks, n).len() <= n,
        forall|k: int|
            0 <= k < vowels_upto(ks, n).len() ==> {
                &&& 0 <= (#[trigger] vowels_upto(ks, n)[k]) < n
                &&& keys::is_vowel_key(ks[vowels_upto(ks, n)[k] as int])
            },
        forall|k: int, l: int|
            0 <= k < l < vowels_upto(ks, n).len() ==> (#[trigger] vowels_upto(ks, n)[k]) < (
            #[trigger] vowels_upto(ks, n)[l]),
        forall|p: int|
            0 <= p < n && keys::is_vowel_key(#[trigger] ks[p]) ==> vowels_upto(ks, n).contains(
                p as usize,
            ),
    decreases n,
{
    if n > 0 {
        lemma_vowels_upto(ks, n - 1);
        let prev = vowels_upto(ks, n - 1);
        let cur = vowels_upto(ks, n);
        assert forall|p: int|
            0 <= p < n && keys::is_vowel_key(#[trigger] ks[p]) implies cur.contains(p as usize) by {
            if p < n - 1 {
                let k = choose|k: int| 0 <= k < prev.len() && prev[k] == p as usize;
                assert(cur[k] == p as usize);
            } else {
                assert(cur[cur.len() - 1] == p as usize);
            }
        }
    }
}

/// The vowel positions of a key sequence are exactly its vowel-keyed
/// indices, in ascending order.
pub proof fn lemma_vowel_positions(ks: Seq<u16>)
    requires
        ks.len() <= usize::MAX,
    ensures
        vowel_positions(ks).len() <= ks.len(),
        forall|k: int|
            0 <= k < vowel_positions(ks).len() ==> {
                &&& 0 <= (#[trigger] vowel_positions(ks)[k]) < ks.len()
                &&& keys::is_vowel_key(ks[vowel_positions(ks)[k] as int])
            },
        forall|k: int, l: int|
            0 <= k < l < vowel_positions(ks).len() ==> (#[trigger] vowel_positions(ks)[k]) < (
            #[trigger] vowel_positions(ks)[l]),
        forall|p: int|
            0 <= p < ks.len() && keys::is_vowel_key(#[trigger] ks[p]) ==> vowel_positions(
                ks,
            ).contains(p as usize),
{
    lemma_vowels_upto(ks, ks.len() as int);
}

/// At most one mark: two records of a well-formed buffer that both carry
/// a mark are one and the same record.
pub proof fn lemma_single_mark(s: Seq<Char>, i: int, j: int)
    requires
        well_formed(s),
        0 <= i < s.len(),
        0 <= j < s.len(),
        s[i].mark != mark::NONE,
        s[j].mark != mark::NONE,
    ensures
        i == j,
{
}

/// Diacritics sit where they belong: in a well-formed buffer a record
/// with a tone modifier or a mark is a vowel, and a record with a stroke
/// is a `d`.
pub proof fn lemma_diacritics_fit(s: Seq<Char>, i: int)
    requires
        well_formed(s),
        0 <= i < s.len(),
    ensures
        s[i].tone != tone::NONE || s[i].mark != mark::NONE ==> keys::is_vowel_key(s[i].key),
        s[i].stroke ==> s[i].key == keys::D,
{
    assert(s[i].valid());
}

/// A plain record is rendered as the character its key types.
pub proof fn lemma_plain_composed(key: u16, caps: bool)
    requires
        keys::is_text_key(key),
    ensures
        Char::plain(key, caps).valid(),
        Char::plain(key, caps).composed() == keys::key_text(key, caps),
{
}

/// The buffer: an ordered sequence of decorated key records.
pub struct Buffer {
    data: Vec<Char>,
}

impl View for Buffer {
    type V = Seq<Char>;

    closed spec fn view(&self) -> Seq<Char> {
        self.data@
    }
}

impl Buffer {
    /// The buffer invariant: bounded length, valid records, at most one mark.
    pub open spec fn wf(&self) -> bool {
        well_formed(self@)
    }

    pub fn new() -> (buf: Buffer)
        ensures
            buf@ == Seq::<Char>::empty(),
            buf.wf(),
    {
        Buffer { data: Vec::new() }
    }

    pub fn len(&self) -> (n: usize)
        ensures
            n == self@.len(),
    {
        self.data.len()
    }

    pub fn is_empty(&self) -> (b: bool)
        ensures
            b == (self@.len() == 0),
    {
        self.data.len() == 0
    }

    /// The record at position `i`, if there is one.
    pub fn get(&self, i: usize) -> (r: Option<&Char>)
        ensures
            i < self@.len() ==> r == Some(&self@[i as int]),
            i >= self@.len() ==> r is None,
    {
        if i < self.data.len() {
            Some(&self.data[i])
        } else {
            None
        }
    }

    /// Whether some record carries a mark.
    pub fn has_mark(&self) -> (b: bool)
        ensures
            b == has_mark_in(self@),
    {
        let mut i: usize = 0;
        while i < self.data.len()
            invariant
                i <= self.data.len(),
                forall|j: int| 0 <= j < i ==> (#[trigger] self.data@[j]).mark == mark::NONE,
            decreases self.data.len() - i,
        {
            if self.data[i].mark != mark::NONE {
                return true;
            }
            i += 1;
        }
        false
    }

    /// Appends a record if [`can_push`] allows it, and says whether it did.
    pub fn push(&mut self, c: Char) -> (ok: bool)
        requires
            old(self).wf(),
        ensures
            ok == can_push(old(self)@, c),
            ok ==> final(self)@ == old(self)@.push(c),
            !ok ==> final(self)@ == old(self)@,
            final(self).wf(),
    {
        if self.data.len() >= CAPACITY || !is_valid_record(&c) {
            return false;
        }
        if c.mark != mark::NONE && self.has_mark() {
            return false;
        }
        self.data.push(c);
        true
    }

    /// Removes and returns the last record, if there is one.
    pub fn pop(&mut self) -> (r: Option<Char>)
        requires
            old(self).wf(),
        ensures
            old(self)@.len() > 0 ==> r == Some(old(self)@.last()) && final(self)@ == old(
                self,
            )@.drop_last(),
            old(self)@.len() == 0 ==> r is None && final(self)@ == old(self)@,
            final(self).wf(),
    {
        self.data.pop()
    }

    /// Removes every record.
    pub fn clear(&mut self)
        ensures
            final(self)@ == Seq::<Char>::empty(),
            final(self).wf(),
    {
        self.data.clear();
    }

    /// Replaces the record at `i` by one with the same key and case.
    pub fn replace(&mut self, i: usize, c: Char)
        requires
            old(self).wf(),
            can_replace(old(self)@, i as int, c),
        ensures
            final(self)@ == old(self)@.update(i as int, c),
            final(self).wf(),
    {
        self.data.set(i, c);
        proof {
            let s = self.data@;
            assert forall|a: int, b: int|
                0 <= a < s.len() && 0 <= b < s.len() && (#[trigger] s[a]).mark != mark::NONE && (
                #[trigger] s[b]).mark != mark::NONE implies a == b by {
                if a != i && b != i {
                    assert(old(self)@[a].mark != mark::NONE);
                    assert(old(self)@[b].mark != mark::NONE);
                } else if a != i {
                    assert(old(self)@[a].mark != mark::NONE);
                } else if b != i {
                    assert(old(self)@[b].mark != mark::NONE);
                }
            }
        }
    }

    /// A copy of the records.
    pub fn records(&self) -> (out: Vec<Char>)
        ensures
            out@ == self@,
    {
        let mut out: Vec<Char> = Vec::new();
        let mut i: usize = 0;
        while i < self.data.len()
            invariant
                i <= self.data.len(),
                out@ == self.data@.take(i as int),
            decreases self.data.len() - i,
        {
            out.push(self.data[i]);
            assert(out@ =~= self.data@.take(i + 1));
            i += 1;
        }
        assert(out@ =~= self@);
        out
    }

    /// Replaces the records by the given ones if they satisfy the buffer
    /// invariant, and says whether it did.
    pub fn set_records(&mut self, records: &Vec<Char>) -> (ok: bool)
        requires
            old(self).wf(),
        ensures
            ok == well_formed(records@),
            ok ==> final(self)@ == records@,
            !ok ==> final(self)@ == old(self)@,
            final(self).wf(),
    {
        let mut fresh = Buffer::new();
        let mut i: usize = 0;
        while i < records.len()
            invariant
                i <= records.len(),
                self.wf(),
                self@ == old(self)@,
                fresh.wf(),
                fresh@ == records@.take(i as int),
            decreases records.len() - i,
        {
            let ghost before = fresh@;
            if !fresh.push(records[i]) {
                proof {
                    let c = records@[i as int];
                    if before.len() < CAPACITY && c.valid() {
                        let j = choose|j: int|
                            0 <= j < before.len() && (#[trigger] before[j]).mark != mark::NONE;
                        assert(records@[j] == before[j]);
                        assert(records@[j].mark != mark::NONE && records@[i as int].mark
                            != mark::NONE);
                    }
                }
                return false;
            }
            assert(fresh@ =~= records@.take(i + 1));
            i += 1;
        }
        assert(fresh@ =~= records@);
        self.data = fresh.data;
        true
    }

    /// The positions of the vowel keys, ascending.
    pub fn find_vowels(&self) -> (positions: Vec<usize>)
        ensures
            positions@ == vowel_positions(keys_of(self@)),
    {
        let mut positions: Vec<usize> = Vec::new();
        let mut i: usize = 0;
        while i < self.data.len()
            invariant
                i <= self.data.len(),
                positions@ == vowels_upto(keys_of(self.data@), i as int),
            decreases self.data.len() - i,
        {
            if keys::is_vowel(self.data[i].key) {
                positions.push(i);
            }
            i += 1;
        }
        positions
    }

    /// The keys of the records, in order.
    pub fn keys(&self) -> (ks: Vec<u16>)
        ensures
            ks@ == keys_of(self@),
    {
        let mut ks: Vec<u16> = Vec::new();
        let mut i: usize = 0;
        while i < self.data.len()
            invariant
                i <= self.data.len(),
                ks@.len() == i,
                forall|j: int| 0 <= j < i ==> ks@[j] == self.data@[j].key,
            decreases self.data.len() - i,
        {
            ks.push(self.data[i].key);
            i += 1;
        }
        assert(ks@ =~= keys_of(self@));
        ks
    }

    /// The letters of the records, one per record.
    pub fn render_chars(&self) -> (out: Vec<char>)
        requires
            self.wf(),
        ensures
            out@ == rendered(self@),
    {
        let mut out: Vec<char> = Vec::new();
        let mut i: usize = 0;
        while i < self.data.len()
            invariant
                i <= self.data.len(),
                records_valid(self.data@),
                out@.len() == i,
                forall|j: int| 0 <= j < i ==> out@[j] == self.data@[j].composed(),
            decreases self.data.len() - i,
        {
            let c = self.data[i];
            out.push(chars::compose(c.key, c.caps, c.tone, c.mark, c.stroke));
            i += 1;
        }
        assert(out@ =~= rendered(self@));
        out
    }

    /// The text of the buffer.
    pub fn render(&self) -> (out: String)
        requires
            self.wf(),
        ensures
            out@ == rendered(self@),
    {
        let letters = self.render_chars();
        utils::string_from_chars(&letters)
    }
}

/// Checks the record invariant.
pub fn is_valid_record(c: &Char) -> (b: bool)
    ensures
        b == c.valid(),
{
    keys::is_text(c.key) && (c.tone == tone::NONE || chars::tone_fits(c.key, c.tone)) && c.mark
        <= mark::NANG && (c.mark == mark::NONE || keys::is_vowel(c.key)) && (!c.stroke || c.key
        == keys::D)
}

} // verus!
