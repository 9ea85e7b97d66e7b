//! The engine: the per-keystroke state machine, as it runs.

use crate::data::chars::{mark, tone};
use crate::data::english_dict::{words_of, Dictionary, ENGLISH_WORDS};
use crate::data::keys;
use crate::engine::buffer::{lemma_plain_composed, rendered, well_formed, Buffer, Char, CAPACITY};
use crate::engine::history::{EntryView, History, HistoryEntry};
use crate::engine::laws::lemma_plain_records;
use crate::engine::model::{
    all_letters, appended, backed_off, backspace_step, boundary_step, common_prefix, core_wf,
    default_config, doubled, edit_between, entry_views, escape_step, event_key, flushed, host_text,
    is_undoable, key_modifier, mark_keyed, may_transform, modifier_of, no_output, passed_through,
    plain_records, raw_of, raw_text, raw_valid, raw_word, reconfigured, remove_keyed, reset_word,
    restored, result_for, sequence_output, shortcut_added, shortcut_from, started, state_wf, step,
    stroke_keyed, text_step, tone_keyed, transformed, typed, undo_by_raw, without_trigger, Action,
    ActionKind, Config, EngineView, KeyResult, RawKey, Session, ShortcutEntry, METHOD_TELEX,
};
use crate::engine::syllable::{is_valid_structure, is_valid_syllable};
use crate::engine::transform::{
    apply_mark, apply_remove, apply_stroke, apply_tone, lemma_same_length, ModifierType,
};
use crate::input::Method;
use crate::input::telex::Telex;
use crate::input::vni::Vni;
use crate::settings::ShortcutView;
use crate::utils::{chars_of, string_from_chars};
use vstd::prelude::*;

verus! {

/// The engine.
pub struct Engine {
    config: Config,
    shortcuts: Vec<ShortcutEntry>,
    dict: Dictionary,
    buf: Buffer,
    raw: Vec<RawKey>,
    last: ActionKind,
    last_key: u16,
    undo: Vec<Char>,
    capitalize_next: bool,
    history: History,
}

impl View for Engine {
    type V = EngineView;

    closed spec fn view(&self) -> EngineView {
        EngineView {
            config: self.config,
            shortcuts: entry_views(self.shortcuts@),
            words: self.dict@,
            buf: self.buf@,
            raw: self.raw@,
            last: self.last,
            last_key: self.last_key,
            undo: self.undo@,
            capitalize_next: self.capitalize_next,
            history: self.history@,
        }
    }
}

/// The modifier a key stands for under a method.
fn classify_with<M: Method>(m: &M, key: u16) -> (r: Option<ModifierType>)
    ensures
        r == modifier_of(*m, key),
{
    match m.mark(key) {
        Some(value) => {
            return Some(ModifierType::Mark(value));
        },
        None => {},
    }
    match m.tone(key) {
        Some(kind) => {
            return Some(ModifierType::Tone(kind.value()));
        },
        None => {},
    }
    if m.stroke(key) {
        Some(ModifierType::Stroke)
    } else if m.remove(key) {
        Some(ModifierType::Remove)
    } else {
        None
    }
}

/// The modifier a key stands for under the method of the given number.
pub fn classify(method: u8, key: u16) -> (r: Option<ModifierType>)
    ensures
        r == key_modifier(method, key),
{
    if method == METHOD_TELEX {
        classify_with(&Telex, key)
    } else {
        classify_with(&Vni, key)
    }
}

/// Whether two lists of records are the same.
fn same_records(a: &Vec<Char>, b: &Vec<Char>) -> (same: bool)
    ensures
        same == (a@ == b@),
{
    if a.len() != b.len() {
        return false;
    }
    let mut i: usize = 0;
    while i < a.len()
        invariant
            i <= a.len(),
            a@.len() == b@.len(),
            forall|j: int| 0 <= j < i ==> a@[j] == b@[j],
        decreases a.len() - i,
    {
        if a[i] != b[i] {
            return false;
        }
        i += 1;
    }
    assert(a@ =~= b@);
    true
}

/// Whether two texts are the same.
fn same_text(a: &Vec<char>, b: &Vec<char>) -> (same: bool)
    ensures
        same == (a@ == b@),
{
    if a.len() != b.len() {
        return false;
    }
    let mut i: usize = 0;
    while i < a.len()
        invariant
            i <= a.len(),
            a@.len() == b@.len(),
            forall|j: int| 0 <= j < i ==> a@[j] == b@[j],
        decreases a.len() - i,
    {
        if a[i] != b[i] {
            return false;
        }
        i += 1;
    }
    assert(a@ =~= b@);
    true
}

/// The output that asks the host for nothing.
fn pass() -> (r: KeyResult)
    ensures
        r@ == no_output(),
{
    KeyResult { action: Action::Pass, backspace: 0, text: Vec::new() }
}

/// The shortest edit at the end of `shown` that turns it into `wanted`.
fn edit(shown: &Vec<char>, wanted: &Vec<char>) -> (r: KeyResult)
    ensures
        r@ == edit_between(shown@, wanted@),
        r.backspace <= shown@.len(),
{
    let mut p: usize = 0;
    while p < shown.len() && p < wanted.len() && shown[p] == wanted[p]
        invariant
            p <= shown.len(),
            p <= wanted.len(),
            common_prefix(shown@, wanted@, 0) == common_prefix(shown@, wanted@, p as int),
        decreases shown.len() - p,
    {
        p += 1;
    }
    let mut text: Vec<char> = Vec::new();
    let mut i: usize = p;
    while i < wanted.len()
        invariant
            p <= i <= wanted.len(),
            text@ == wanted@.subrange(p as int, i as int),
        decreases wanted.len() - i,
    {
        text.push(wanted[i]);
        assert(text@ =~= wanted@.subrange(p as int, i + 1));
        i += 1;
    }
    KeyResult { action: Action::Send, backspace: shown.len() - p, text }
}

/// The output that brings the host from `shown` to `wanted` after `key`.
fn output_for(shown: &Vec<char>, wanted: &Vec<char>, key: u16, caps: bool) -> (r: KeyResult)
    ensures
        r@ == result_for(shown@, wanted@, key, caps),
        r.backspace <= shown@.len(),
{
    let mut through = shown.clone();
    assert(through@ =~= shown@);
    if keys::is_text(key) {
        through.push(keys::to_char(key, caps));
    } else if key == keys::BACKSPACE && through.len() > 0 {
        through.pop();
    }
    assert(through@ =~= passed_through(shown@, key, caps));
    if same_text(wanted, &through) {
        pass()
    } else {
        edit(shown, wanted)
    }
}

impl Engine {
    /// The invariant of the engine.
    pub open spec fn wf(&self) -> bool {
        state_wf(self@)
    }

    /// An engine with the given settings and dictionary, at the start
    /// of a word, with an empty history.
    pub fn with_parts(config: Config, dict: Dictionary) -> (engine: Engine)
        ensures
            engine.wf(),
            engine@.config == config,
            engine@.words == dict@,
            engine@.shortcuts == Seq::<ShortcutView>::empty(),
            engine@.history == Seq::<EntryView>::empty(),
            engine@ == flushed(engine@),
    {
        let engine = Engine {
            config,
            shortcuts: Vec::new(),
            dict,
            buf: Buffer::new(),
            raw: Vec::new(),
            last: ActionKind::Nothing,
            last_key: 0,
            undo: Vec::new(),
            capitalize_next: false,
            history: History::new(),
        };
        assert(engine@.shortcuts =~= Seq::<ShortcutView>::empty());
        assert(engine@.buf =~= Seq::<Char>::empty());
        assert(engine@.raw =~= Seq::<RawKey>::empty());
        assert(engine@.undo =~= Seq::<Char>::empty());
        engine
    }

    /// Starts a new word.
    fn reset_word(&mut self)
        requires
            core_wf(old(self)@),
        ensures
            final(self)@ == reset_word(old(self)@),
            state_wf(final(self)@),
    {
        self.buf.clear();
        self.raw = Vec::new();
        self.last = ActionKind::Nothing;
        self.last_key = 0;
        self.undo = Vec::new();
    }

    /// Appends the key as a plain letter.
    fn push_plain(&mut self, key: u16, caps: bool)
        requires
            core_wf(old(self)@),
            old(self)@.buf.len() < CAPACITY,
            keys::is_text_key(key),
        ensures
            final(self)@ == appended(old(self)@, key, caps),
            core_wf(final(self)@),
            !is_undoable(final(self)@.last),
    {
        proof {
            lemma_plain_composed(key, caps);
        }
        let ok = self.buf.push(Char::new(key, caps));
        assert(ok);
        self.last = ActionKind::Letter;
        self.last_key = key;
        self.undo = Vec::new();
    }

    /// Records that a transformation changed the buffer from `before`.
    fn keep(&mut self, before: Vec<Char>, kind: ActionKind, key: u16)
        requires
            core_wf(old(self)@),
            well_formed(before@),
            before@.len() <= old(self)@.buf.len(),
        ensures
            final(self)@ == (EngineView {
                last: kind,
                last_key: key,
                undo: before@,
                ..old(self)@
            }),
            core_wf(final(self)@),
    {
        self.last = kind;
        self.last_key = key;
        self.undo = before;
    }

    /// Takes the last transformation back and spells its key out.
    fn double_tap(&mut self, key: u16, caps: bool)
        requires
            core_wf(old(self)@),
            old(self)@.raw.len() >= 2,
            old(self)@.buf.len() + 2 <= CAPACITY,
            keys::is_text_key(key),
        ensures
            final(self)@ == doubled(old(self)@, key, caps),
            core_wf(final(self)@),
            !is_undoable(final(self)@.last),
    {
        let first_caps = self.raw[self.raw.len() - 2].caps;
        let n = self.undo.len();
        let ends = n > 0 && self.undo[n - 1] == Char::new(key, self.undo[n - 1].caps);
        proof {
            lemma_plain_composed(key, caps);
            lemma_plain_composed(key, first_caps);
        }
        let ok = self.buf.set_records(&self.undo);
        assert(ok);
        if !ends {
            let ok = self.buf.push(Char::new(key, first_caps));
            assert(ok);
        }
        let ok = self.buf.push(Char::new(key, caps));
        assert(ok);
        self.last = ActionKind::Letter;
        self.last_key = key;
        self.undo = Vec::new();
    }

    /// Whether the buffer may take a tone modifier or a mark.
    fn can_transform(&self) -> (b: bool)
        ensures
            b == may_transform(self@),
    {
        if self.config.free_tone {
            return true;
        }
        let buffer_keys = self.buf.keys();
        is_valid_syllable(buffer_keys.as_slice(), self.config.allow_foreign_consonants)
    }

    /// Lets a mark key act on the buffer.
    fn mark_key(&mut self, key: u16, caps: bool, value: u8)
        requires
            core_wf(old(self)@),
            old(self)@.buf.len() < CAPACITY,
            keys::is_text_key(key),
        ensures
            final(self)@ == mark_keyed(old(self)@, key, caps, value),
            core_wf(final(self)@),
    {
        if self.can_transform() {
            let before = self.buf.records();
            proof {
                lemma_same_length(
                    before@,
                    key,
                    value,
                    0,
                    self.config.modern_tone,
                );
            }
            apply_mark(&mut self.buf, value, self.config.modern_tone);
            let after = self.buf.records();
            if !same_records(&before, &after) {
                self.keep(before, ActionKind::Mark, key);
                return ;
            }
        }
        self.push_plain(key, caps);
    }

    /// Lets a tone key act on the buffer.
    fn tone_key(&mut self, key: u16, caps: bool, value: u8)
        requires
            core_wf(old(self)@),
            old(self)@.buf.len() < CAPACITY,
            keys::is_text_key(key),
        ensures
            final(self)@ == tone_keyed(old(self)@, key, caps, value),
            core_wf(final(self)@),
    {
        if self.can_transform() {
            let before = self.buf.records();
            proof {
                lemma_same_length(
                    before@,
                    key,
                    value,
                    self.config.method,
                    true,
                );
            }
            apply_tone(&mut self.buf, key, value, self.config.method);
            let after = self.buf.records();
            if !same_records(&before, &after) {
                self.keep(before, ActionKind::Tone, key);
                return ;
            }
        }
        self.push_plain(key, caps);
    }

    /// Lets the stroke key act on the buffer.
    fn stroke_key(&mut self, key: u16, caps: bool)
        requires
            core_wf(old(self)@),
            old(self)@.buf.len() < CAPACITY,
            keys::is_text_key(key),
        ensures
            final(self)@ == stroke_keyed(old(self)@, key, caps),
            core_wf(final(self)@),
    {
        let before = self.buf.records();
        let n = self.buf.len();
        let follows_d = match self.buf.get(if n > 0 {
            n - 1
        } else {
            0
        }) {
            Some(c) => c.key == keys::D,
            None => false,
        };
        let buffer_keys = self.buf.keys();
        proof {
            lemma_same_length(before@, key, 0, 0, true);
            lemma_plain_composed(key, caps);
        }
        if is_valid_structure(buffer_keys.as_slice()) && !(keys::is_letter(key) && follows_d) {
            apply_stroke(&mut self.buf);
            let after = self.buf.records();
            if !same_records(&before, &after) {
                if keys::is_letter(key) {
                    let ok = self.buf.push(Char::new(key, caps));
                    assert(ok);
                }
                self.keep(before, ActionKind::Stroke, key);
                return ;
            }
        }
        self.push_plain(key, caps);
    }

    /// Lets the remove key act on the buffer.
    fn remove_key(&mut self, key: u16, caps: bool)
        requires
            core_wf(old(self)@),
            old(self)@.buf.len() < CAPACITY,
            keys::is_text_key(key),
        ensures
            final(self)@ == remove_keyed(old(self)@, key, caps),
            core_wf(final(self)@),
    {
        let before = self.buf.records();
        proof {
            lemma_same_length(before@, key, 0, 0, true);
        }
        apply_remove(&mut self.buf);
        let after = self.buf.records();
        if !same_records(&before, &after) {
            self.keep(before, ActionKind::Remove, key);
        } else {
            self.push_plain(key, caps);
        }
    }

    /// Lets a text key act on the buffer. The raw keys already hold it.
    fn transform(&mut self, key: u16, caps: bool)
        requires
            core_wf(old(self)@),
            old(self)@.buf.len() + 2 <= CAPACITY,
            old(self)@.raw.len() >= 1,
            old(self)@.raw.last().key == key,
            is_undoable(old(self)@.last) ==> old(self)@.raw.len() >= 2,
            keys::is_text_key(key),
        ensures
            final(self)@ == transformed(old(self)@, key, caps),
            core_wf(final(self)@),
            undo_by_raw(final(self)@),
            final(self)@.raw == old(self)@.raw,
    {
        reveal(transformed);
        let undoable = match self.last {
            ActionKind::Tone => true,
            ActionKind::Mark => true,
            ActionKind::Stroke => true,
            _ => false,
        };
        if undoable && self.last_key == key {
            self.double_tap(key, caps);
            return ;
        }
        match classify(self.config.method, key) {
            Some(ModifierType::Mark(value)) => self.mark_key(key, caps, value),
            Some(ModifierType::Tone(value)) => self.tone_key(key, caps, value),
            Some(ModifierType::Stroke) => self.stroke_key(key, caps),
            Some(ModifierType::Remove) => self.remove_key(key, caps),
            None => self.push_plain(key, caps),
        }
    }

    /// Puts the buffer back to the raw letters where they spell an
    /// English word.
    fn restore_if_english(&mut self)
        requires
            core_wf(old(self)@),
            undo_by_raw(old(self)@),
        ensures
            final(self)@ == restored(old(self)@),
            state_wf(final(self)@),
    {
        reveal(restored);
        let count = self.raw.len();
        if !self.config.english_auto_restore || count == 0 {
            return ;
        }
        let mut word: Vec<char> = Vec::new();
        let mut plain: Vec<Char> = Vec::new();
        let mut i: usize = 0;
        while i < count
            invariant
                i <= count,
                count == self.raw@.len(),
                self@ == old(self)@,
                core_wf(self@),
                undo_by_raw(self@),
                raw_valid(self.raw@),
                word@.len() == i,
                plain@.len() == i,
                forall|j: int| 0 <= j < i ==> keys::is_letter_key((#[trigger] self.raw@[j]).key),
                forall|j: int| 0 <= j < i ==> word@[j] == keys::key_char(self.raw@[j].key),
                forall|j: int|
                    0 <= j < i ==> plain@[j] == Char::plain(self.raw@[j].key, self.raw@[j].caps),
            decreases count - i,
        {
            let k = self.raw[i];
            if !keys::is_letter(k.key) {
                proof {
                    reveal(restored);
                }
                assert(!all_letters(self.raw@));
                return ;
            }
            word.push(keys::to_char(k.key, false));
            plain.push(Char::new(k.key, k.caps));
            i += 1;
        }
        assert(all_letters(self.raw@));
        assert(word@ =~= raw_word(self.raw@));
        assert(plain@ =~= plain_records(self.raw@));
        if !self.dict.contains_chars(&word) {
            return ;
        }
        let current = self.buf.records();
        if same_records(&current, &plain) {
            return ;
        }
        proof {
            lemma_plain_records(self.raw@);
        }
        let ok = self.buf.set_records(&plain);
        assert(ok);
        self.last = ActionKind::Letter;
        self.undo = Vec::new();
    }

    /// The step of a text key.
    fn text_key(&mut self, key: u16, caps: bool) -> (result: KeyResult)
        requires
            state_wf(old(self)@),
            keys::is_text_key(key),
        ensures
            final(self)@ == text_step(old(self)@, key, caps).state,
            result@ == text_step(old(self)@, key, caps).result,
            state_wf(final(self)@),
            result.backspace <= CAPACITY,
    {
        if !(self.buf.len() + 2 <= CAPACITY && self.raw.len() + 1 <= CAPACITY) {
            self.reset_word();
        }
        let ghost s0 = self@;
        let shown = self.buf.render_chars();
        let up = caps || (self.config.auto_capitalize && self.capitalize_next && keys::is_letter(
            key,
        ) && self.raw.len() == 0);
        self.raw.push(RawKey { key, caps: up });
        self.capitalize_next = false;
        let ghost s1 = self@;
        assert(s1 == (EngineView {
            raw: s0.raw.push(RawKey { key, caps: up }),
            capitalize_next: false,
            ..s0
        }));
        self.transform(key, up);
        self.restore_if_english();
        let wanted = self.buf.render_chars();
        let result = output_for(&shown, &wanted, key, caps);
        let text = result.text.clone();
        assert(text@ =~= result.text@);
        self.history.record(HistoryEntry { key, caps, backspace: result.backspace, text });
        result
    }

    /// The step of backspace.
    fn backspace_key(&mut self) -> (result: KeyResult)
        requires
            state_wf(old(self)@),
        ensures
            final(self)@ == backspace_step(old(self)@).state,
            result@ == backspace_step(old(self)@).result,
            state_wf(final(self)@),
            result.backspace <= CAPACITY,
    {
        let shown = self.buf.render_chars();
        let n = self.buf.len();
        if n > 0 {
            let c = match self.buf.get(n - 1) {
                Some(c) => *c,
                None => Char::new(0, false),
            };
            if c.mark != mark::NONE {
                self.buf.replace(n - 1, Char { mark: mark::NONE, ..c });
            } else if c.tone != tone::NONE {
                self.buf.replace(n - 1, Char { tone: tone::NONE, ..c });
            } else if c.stroke {
                self.buf.replace(n - 1, Char { stroke: false, ..c });
            } else {
                self.buf.pop();
            }
        }
        assert(self.buf@ =~= backed_off(old(self)@.buf));
        let records = self.buf.records();
        let mut raw: Vec<RawKey> = Vec::new();
        let mut i: usize = 0;
        while i < records.len()
            invariant
                i <= records.len(),
                raw@.len() == i,
                forall|j: int|
                    0 <= j < i ==> raw@[j] == (RawKey {
                        key: records@[j].key,
                        caps: records@[j].caps,
                    }),
            decreases records.len() - i,
        {
            raw.push(RawKey { key: records[i].key, caps: records[i].caps });
            i += 1;
        }
        assert(raw@ =~= raw_of(self.buf@));
        self.raw = raw;
        self.last = ActionKind::Nothing;
        self.last_key = 0;
        self.undo = Vec::new();
        self.restore_if_english();
        let wanted = self.buf.render_chars();
        output_for(&shown, &wanted, keys::BACKSPACE, false)
    }

    /// The step of ESC.
    fn escape_key(&mut self) -> (result: KeyResult)
        requires
            state_wf(old(self)@),
        ensures
            final(self)@ == escape_step(old(self)@).state,
            result@ == escape_step(old(self)@).result,
            state_wf(final(self)@),
            result.backspace <= CAPACITY,
    {
        let result = if self.config.esc_restore {
            let shown = self.buf.render_chars();
            let wanted = self.raw_chars();
            output_for(&shown, &wanted, keys::ESC, false)
        } else {
            pass()
        };
        self.reset_word();
        self.capitalize_next = false;
        result
    }

    /// The text of the raw keys.
    fn raw_chars(&self) -> (text: Vec<char>)
        requires
            raw_valid(self@.raw),
        ensures
            text@ == raw_text(self@.raw),
    {
        let mut text: Vec<char> = Vec::new();
        let mut i: usize = 0;
        while i < self.raw.len()
            invariant
                i <= self.raw.len(),
                raw_valid(self.raw@),
                text@.len() == i,
                forall|j: int|
                    0 <= j < i ==> text@[j] == keys::key_text(self.raw@[j].key, self.raw@[j].caps),
            decreases self.raw.len() - i,
        {
            text.push(keys::to_char(self.raw[i].key, self.raw[i].caps));
            i += 1;
        }
        assert(text@ =~= raw_text(self.raw@));
        text
    }

    /// The replacement of the shortcut with the given trigger.
    fn find_shortcut(&self, text: &Vec<char>) -> (r: Option<usize>)
        ensures
            match r {
                Some(i) => i < self.shortcuts@.len() && shortcut_from(self@.shortcuts, text@, 0)
                    == Some(self.shortcuts@[i as int].replacement@),
                None => shortcut_from(self@.shortcuts, text@, 0) is None,
            },
    {
        let mut i: usize = 0;
        while i < self.shortcuts.len()
            invariant
                i <= self.shortcuts.len(),
                shortcut_from(self@.shortcuts, text@, 0) == shortcut_from(
                    self@.shortcuts,
                    text@,
                    i as int,
                ),
            decreases self.shortcuts.len() - i,
        {
            assert(self@.shortcuts[i as int] == self.shortcuts@[i as int]@);
            if same_text(&self.shortcuts[i].trigger, text) {
                return Some(i);
            }
            i += 1;
        }
        None
    }

    /// The step of a word boundary.
    fn boundary_key(&mut self, key: u16) -> (result: KeyResult)
        requires
            state_wf(old(self)@),
            keys::is_boundary_key(key),
        ensures
            final(self)@ == boundary_step(old(self)@, key).state,
            result@ == boundary_step(old(self)@, key).result,
            state_wf(final(self)@),
            result.backspace <= CAPACITY,
    {
        let typed = self.raw_chars();
        let count = self.raw.len();
        let result = match self.find_shortcut(&typed) {
            Some(i) => {
                if count > 0 {
                    let shown = self.buf.render_chars();
                    let mut wanted = self.shortcuts[i].replacement.clone();
                    assert(wanted@ =~= self.shortcuts@[i as int].replacement@);
                    wanted.push(keys::boundary_to_char(key));
                    edit(&shown, &wanted)
                } else {
                    pass()
                }
            },
            None => pass(),
        };
        let sentence = keys::is_sentence_end(key) || (self.capitalize_next && count == 0);
        self.reset_word();
        self.capitalize_next = sentence;
        result
    }

    /// Feeds one key event to the engine and returns the edit for the
    /// host.
    pub fn on_key(&mut self, key: u16, caps: bool, ctrl: bool, shift: bool) -> (result: KeyResult)
        requires
            old(self).wf(),
        ensures
            final(self).wf(),
            final(self)@ == step(old(self)@, key, caps, ctrl, shift).state,
            result@ == step(old(self)@, key, caps, ctrl, shift).result,
            result.backspace <= CAPACITY,
    {
        if !self.config.enabled {
            return pass();
        }
        let known = keys::is_text(key) || keys::is_boundary(key) || key == keys::BACKSPACE || key
            == keys::ESC;
        if ctrl || !known || (shift && keys::is_digit(key)) {
            self.reset_word();
            self.capitalize_next = false;
            return pass();
        }
        if keys::is_boundary(key) {
            self.boundary_key(key)
        } else if key == keys::BACKSPACE {
            self.backspace_key()
        } else if key == keys::ESC {
            self.escape_key()
        } else {
            self.text_key(key, caps)
        }
    }
}

/// Whether a text holds the character.
fn holds(text: &Vec<char>, c: char) -> (b: bool)
    ensures
        b == text@.contains(c),
{
    let mut i: usize = 0;
    while i < text.len()
        invariant
            i <= text.len(),
            forall|j: int| 0 <= j < i ==> text@[j] != c,
        decreases text.len() - i,
    {
        if text[i] == c {
            return true;
        }
        i += 1;
    }
    false
}

/// The key event a character of a typed text stands for.
pub fn event_of(c: char) -> (event: (u16, bool))
    ensures
        event.0 == event_key(c),
        event.1 == ('A' <= c <= 'Z'),
{
    let caps = keys::is_upper_char(c);
    match keys::from_char(c) {
        Some(key) => (key, caps),
        None => {
            if c == ' ' {
                (keys::SPACE, caps)
            } else if c == '\n' {
                (keys::ENTER, caps)
            } else if c == '.' {
                (keys::PERIOD, caps)
            } else if c == '!' {
                (keys::EXCLAMATION, caps)
            } else if c == '?' {
                (keys::QUESTION, caps)
            } else if c == '\u{8}' {
                (keys::BACKSPACE, caps)
            } else if c == '\u{1b}' {
                (keys::ESC, caps)
            } else {
                (keys::UNMAPPED, caps)
            }
        },
    }
}

/// Lets the host text follow the output of a key.
fn host_apply(display: &mut Vec<char>, result: &KeyResult, key: u16, caps: bool)
    ensures
        final(display)@ == host_text(old(display)@, result@, key, caps),
{
    match result.action {
        Action::Send => {
            let len = display.len();
            if result.backspace <= len {
                display.truncate(len - result.backspace);
            } else {
                display.clear();
            }
            let ghost kept = display@;
            let mut i: usize = 0;
            while i < result.text.len()
                invariant
                    i <= result.text.len(),
                    display@ == kept + result.text@.subrange(0, i as int),
                decreases result.text.len() - i,
            {
                display.push(result.text[i]);
                assert(display@ =~= kept + result.text@.subrange(0, i + 1));
                i += 1;
            }
            assert(display@ =~= kept + result.text@);
            assert(display@ =~= host_text(old(display)@, result@, key, caps));
        },
        Action::Pass => {
            if keys::is_text(key) {
                display.push(keys::to_char(key, caps));
            } else if keys::is_boundary(key) {
                display.push(keys::boundary_to_char(key));
            } else if key == keys::BACKSPACE && display.len() > 0 {
                display.pop();
            }
        },
    }
}

impl Engine {
    /// A fresh engine: default settings, the built-in English dictionary,
    /// no shortcuts.
    pub fn new() -> (engine: Engine)
        ensures
            engine.wf(),
            engine@.config == default_config(),
            engine@.words == words_of(
                ENGLISH_WORDS@,
            ),
            engine@.shortcuts == Seq::<ShortcutView>::empty(),
            engine@.history == Seq::<EntryView>::empty(),
            engine@ == flushed(engine@),
    {
        Engine::with_parts(Config::new(), Dictionary::english())
    }

    /// The settings.
    pub fn config(&self) -> (config: Config)
        ensures
            config == self@.config,
    {
        self.config
    }

    /// Replaces the settings. The word starts over.
    pub fn set_config(&mut self, config: Config)
        requires
            old(self).wf(),
        ensures
            final(self).wf(),
            final(self)@ == reconfigured(old(self)@, config),
    {
        self.config = config;
        self.reset_word();
        self.capitalize_next = false;
    }

    /// Selects the input method: 0 is Telex, anything else VNI.
    pub fn set_method(&mut self, method: u8)
        requires
            old(self).wf(),
        ensures
            final(self).wf(),
            final(self)@ == reconfigured(old(self)@, Config { method, ..old(self)@.config }),
    {
        let config = Config { method, ..self.config };
        self.set_config(config);
    }

    /// Switches the engine on or off.
    pub fn set_enabled(&mut self, enabled: bool)
        requires
            old(self).wf(),
        ensures
            final(self).wf(),
            final(self)@ == reconfigured(old(self)@, Config { enabled, ..old(self)@.config }),
    {
        let config = Config { enabled, ..self.config };
        self.set_config(config);
    }

    /// Switches modern tone placement on or off.
    pub fn set_modern_tone(&mut self, modern_tone: bool)
        requires
            old(self).wf(),
        ensures
            final(self).wf(),
            final(self)@ == reconfigured(old(self)@, Config { modern_tone, ..old(self)@.config }),
    {
        let config = Config { modern_tone, ..self.config };
        self.set_config(config);
    }

    /// Switches ESC restore on or off.
    pub fn set_esc_restore(&mut self, esc_restore: bool)
        requires
            old(self).wf(),
        ensures
            final(self).wf(),
            final(self)@ == reconfigured(old(self)@, Config { esc_restore, ..old(self)@.config }),
    {
        let config = Config { esc_restore, ..self.config };
        self.set_config(config);
    }

    /// Switches English auto-restore on or off.
    pub fn set_english_auto_restore(&mut self, english_auto_restore: bool)
        requires
            old(self).wf(),
        ensures
            final(self).wf(),
            final(self)@ == reconfigured(
                old(self)@,
                Config { english_auto_restore, ..old(self)@.config },
            ),
    {
        let config = Config { english_auto_restore, ..self.config };
        self.set_config(config);
    }

    /// Switches auto-capitalize on or off.
    pub fn set_auto_capitalize(&mut self, auto_capitalize: bool)
        requires
            old(self).wf(),
        ensures
            final(self).wf(),
            final(self)@ == reconfigured(
                old(self)@,
                Config { auto_capitalize, ..old(self)@.config },
            ),
    {
        let config = Config { auto_capitalize, ..self.config };
        self.set_config(config);
    }

    /// Switches free-tone mode on or off.
    pub fn set_free_tone(&mut self, free_tone: bool)
        requires
            old(self).wf(),
        ensures
            final(self).wf(),
            final(self)@ == reconfigured(old(self)@, Config { free_tone, ..old(self)@.config }),
    {
        let config = Config { free_tone, ..self.config };
        self.set_config(config);
    }

    /// Stores the skip-w-shortcut switch.
    pub fn set_skip_w_shortcut(&mut self, skip_w_shortcut: bool)
        requires
            old(self).wf(),
        ensures
            final(self).wf(),
            final(self)@ == reconfigured(
                old(self)@,
                Config { skip_w_shortcut, ..old(self)@.config },
            ),
    {
        let config = Config { skip_w_shortcut, ..self.config };
        self.set_config(config);
    }

    /// Stores the bracket-shortcut switch.
    pub fn set_bracket_shortcut(&mut self, bracket_shortcut: bool)
        requires
            old(self).wf(),
        ensures
            final(self).wf(),
            final(self)@ == reconfigured(
                old(self)@,
                Config { bracket_shortcut, ..old(self)@.config },
            ),
    {
        let config = Config { bracket_shortcut, ..self.config };
        self.set_config(config);
    }

    /// Allows or forbids the foreign consonants f, j, w, z at the start
    /// of a syllable.
    pub fn set_allow_foreign_consonants(&mut self, allow_foreign_consonants: bool)
        requires
            old(self).wf(),
        ensures
            final(self).wf(),
            final(self)@ == reconfigured(
                old(self)@,
                Config { allow_foreign_consonants, ..old(self)@.config },
            ),
    {
        let config = Config { allow_foreign_consonants, ..self.config };
        self.set_config(config);
    }

    /// Replaces the dictionary. The word starts over.
    pub fn set_dictionary(&mut self, dict: Dictionary)
        requires
            old(self).wf(),
        ensures
            final(self).wf(),
            final(self)@ == flushed(EngineView { words: dict@, ..old(self)@ }),
    {
        self.dict = dict;
        self.reset_word();
        self.capitalize_next = false;
    }

    /// Registers a shortcut. It replaces a shortcut of the same trigger.
    /// A shortcut with an empty trigger, or with a NUL character in its
    /// trigger or its replacement, is ignored.
    pub fn add_shortcut(&mut self, trigger: &str, replacement: &str)
        requires
            old(self).wf(),
        ensures
            final(self).wf(),
            final(self)@ == (EngineView {
                shortcuts: shortcut_added(old(self)@.shortcuts, trigger@, replacement@),
                ..old(self)@
            }),
    {
        let t = chars_of(trigger);
        let r = chars_of(replacement);
        if t.len() == 0 || holds(&t, '\0') || holds(&r, '\0') {
            return ;
        }
        self.drop_trigger(&t);
        let ghost before = entry_views(self.shortcuts@);
        let entry = ShortcutEntry { trigger: t, replacement: r };
        self.shortcuts.push(entry);
        assert(entry_views(self.shortcuts@) =~= before.push(entry@));
    }

    /// Removes the shortcuts of the given trigger from the table.
    fn drop_trigger(&mut self, trigger: &Vec<char>)
        requires
            old(self).wf(),
        ensures
            final(self).wf(),
            final(self)@ == (EngineView {
                shortcuts: without_trigger(
                    old(self)@.shortcuts,
                    trigger@,
                    old(self)@.shortcuts.len() as int,
                ),
                ..old(self)@
            }),
    {
        let ghost list = self@.shortcuts;
        let mut kept: Vec<ShortcutEntry> = Vec::new();
        let mut i: usize = 0;
        while i < self.shortcuts.len()
            invariant
                i <= self.shortcuts.len(),
                self@ == old(self)@,
                list == self@.shortcuts,
                entry_views(kept@) == without_trigger(list, trigger@, i as int),
            decreases self.shortcuts.len() - i,
        {
            assert(list[i as int] == self.shortcuts@[i as int]@);
            if !same_text(&self.shortcuts[i].trigger, trigger) {
                let ghost before = entry_views(kept@);
                let entry = ShortcutEntry {
                    trigger: self.shortcuts[i].trigger.clone(),
                    replacement: self.shortcuts[i].replacement.clone(),
                };
                assert(entry.trigger@ =~= self.shortcuts@[i as int].trigger@);
                assert(entry.replacement@ =~= self.shortcuts@[i as int].replacement@);
                kept.push(entry);
                assert(entry_views(kept@) =~= before.push(list[i as int]));
            }
            i += 1;
        }
        self.shortcuts = kept;
    }

    /// Removes the shortcut of the given trigger.
    pub fn remove_shortcut(&mut self, trigger: &str)
        requires
            old(self).wf(),
        ensures
            final(self).wf(),
            final(self)@ == (EngineView {
                shortcuts: without_trigger(
                    old(self)@.shortcuts,
                    trigger@,
                    old(self)@.shortcuts.len() as int,
                ),
                ..old(self)@
            }),
    {
        let t = chars_of(trigger);
        self.drop_trigger(&t);
    }

    /// Removes every shortcut.
    pub fn clear_shortcuts(&mut self)
        requires
            old(self).wf(),
        ensures
            final(self).wf(),
            final(self)@ == (EngineView { shortcuts: Seq::empty(), ..old(self)@ }),
    {
        self.shortcuts = Vec::new();
        assert(entry_views(self.shortcuts@) =~= Seq::<ShortcutView>::empty());
    }

    /// The number of shortcuts.
    pub fn shortcut_count(&self) -> (n: usize)
        ensures
            n == self@.shortcuts.len(),
    {
        self.shortcuts.len()
    }

    /// Word boundary reset: the word starts over.
    pub fn clear(&mut self)
        requires
            old(self).wf(),
        ensures
            final(self).wf(),
            final(self)@ == flushed(old(self)@),
    {
        self.reset_word();
        self.capitalize_next = false;
    }

    /// Clears the word and the history ring.
    pub fn clear_all(&mut self)
        requires
            old(self).wf(),
        ensures
            final(self).wf(),
            final(self)@ == (EngineView { history: Seq::empty(), ..flushed(old(self)@) }),
    {
        self.reset_word();
        self.capitalize_next = false;
        self.history.clear();
    }

    /// The text of the word being typed.
    pub fn render(&self) -> (text: String)
        requires
            self.wf(),
        ensures
            text@ == rendered(self@.buf),
    {
        self.buf.render()
    }

    /// The text of the keys pressed for the word being typed.
    pub fn raw_string(&self) -> (text: String)
        requires
            self.wf(),
        ensures
            text@ == raw_text(self@.raw),
    {
        string_from_chars(&self.raw_chars())
    }

    /// The buffer of the word being typed.
    pub fn buffer(&self) -> (buf: &Buffer)
        ensures
            buf@ == self@.buf,
    {
        &self.buf
    }

    /// The history ring.
    pub fn history(&self) -> (history: &History)
        ensures
            history@ == self@.history,
    {
        &self.history
    }

    /// What the last keystroke did to the word.
    pub fn last_action(&self) -> (kind: ActionKind)
        ensures
            kind == self@.last,
    {
        self.last
    }

    /// Types a text from scratch under a method and returns what the
    /// host shows at the end. The word and the history are cleared first,
    /// so the result does not depend on what was typed before.
    pub fn process_sequence(&mut self, keys: &str, method: u8) -> (out: String)
        requires
            old(self).wf(),
        ensures
            final(self).wf(),
            out@ == sequence_output(old(self)@, keys@, method),
    {
        self.clear_all();
        self.set_method(method);
        let ghost start = Session { state: self@, display: Seq::empty() };
        assert(self@ == started(old(self)@, method));
        let text = chars_of(keys);
        let mut display: Vec<char> = Vec::new();
        let mut i: usize = 0;
        while i < text.len()
            invariant
                i <= text.len(),
                self.wf(),
                typed(start, text@, i as int) == (Session { state: self@, display: display@ }),
            decreases text.len() - i,
        {
            let (key, caps) = event_of(text[i]);
            let result = self.on_key(key, caps, false, false);
            host_apply(&mut display, &result, key, caps);
            i += 1;
        }
        string_from_chars(&display)
    }
}

} // verus!
