//! The history ring: a bounded record of the most recent keystrokes and
//! what each of them put out.

use vstd::prelude::*;

verus! {

/// Largest number of keystrokes the ring remembers.
pub const HISTORY_CAPACITY: usize = 32;

/// One keystroke and its output.
#[derive(Debug, Clone)]
pub struct HistoryEntry {
    /// The key that was typed.
    pub key: u16,
    /// Whether it was typed in upper case.
    pub caps: bool,
    /// Number of characters the output deletes.
    pub backspace: usize,
    /// Text the output inserts.
    pub text: Vec<char>,
}

/// Mathematical model of a [`HistoryEntry`].
pub struct EntryView {
    pub key: u16,
    pub caps: bool,
    pub backspace: usize,
    pub text: Seq<char>,
}

impl View for HistoryEntry {
    type V = EntryView;

    open spec fn view(&self) -> EntryView {
        EntryView { key: self.key, caps: self.caps, backspace: self.backspace, text: self.text@ }
    }
}

/// The views of a list of entries.
pub open spec fn entry_views(list: Seq<HistoryEntry>) -> Seq<EntryView> {
    Seq::new(list.len(), |i: int| list[i]@)
}

/// The ring after an entry is recorded: the entry comes last, and the
/// oldest entry leaves when the ring is full.
pub open spec fn recorded(ring: Seq<EntryView>, entry: EntryView) -> Seq<EntryView> {
    if ring.len() < HISTORY_CAPACITY {
        ring.push(entry)
    } else {
        ring.subrange(1, ring.len() as int).push(entry)
    }
}

/// The history ring, oldest entry first.
#[derive(Debug)]
pub struct History {
    entries: Vec<HistoryEntry>,
}

impl View for History {
    type V = Seq<EntryView>;

    closed spec fn view(&self) -> Seq<EntryView> {
        entry_views(self.entries@)
    }
}

impl History {
    /// The ring invariant: it never holds more than its capacity.
    pub open spec fn wf(&self) -> bool {
        self@.len() <= HISTORY_CAPACITY
    }

    pub fn new() -> (h: History)
        ensures
            h@ == Seq::<EntryView>::empty(),
            h.wf(),
    {
        let h = History { entries: Vec::new() };
        assert(h@ =~= Seq::<EntryView>::empty());
        h
    }

    pub fn len(&self) -> (n: usize)
        ensures
            n == self@.len(),
    {
        self.entries.len()
    }

    /// The entry at position `i`, the oldest being at 0.
    pub fn get(&self, i: usize) -> (r: Option<&HistoryEntry>)
        ensures
            i < self@.len() ==> (r matches Some(entry) && entry@ == self@[i as int]),
            i >= self@.len() ==> r is None,
    {
        if i < self.entries.len() {
            Some(&self.entries[i])
        } else {
            None
        }
    }

    /// Records an entry, dropping the oldest one when the ring is full.
    pub fn record(&mut self, entry: HistoryEntry)
        requires
            old(self).wf(),
        ensures
            final(self)@ == recorded(old(self)@, entry@),
            final(self).wf(),
    {
        let ghost before = self@;
        if self.entries.len() >= HISTORY_CAPACITY {
            self.entries.remove(0);
        }
        self.entries.push(entry);
        assert(self@ =~= recorded(before, entry@));
    }

    /// Forgets every entry.
    pub fn clear(&mut self)
        ensures
            final(self)@ == Seq::<EntryView>::empty(),
            final(self).wf(),
    {
        self.entries.clear();
        assert(self@ =~= Seq::<EntryView>::empty());
    }
}

} // verus!
