//! The model of the engine: its states, and the step a key event makes.
//!
//! The engine keeps the buffer of the word being typed, the raw keys the
//! user pressed for it, and what the last transformation changed. Each
//! key event moves the state one step and yields the edit that brings
//! the host's text in line with the buffer.

use crate::data::chars::{mark, tone};
use crate::data::keys;
use crate::engine::buffer::{keys_of, rendered, well_formed, Char, CAPACITY};
use crate::engine::history::{recorded, EntryView, HISTORY_CAPACITY};
use crate::engine::syllable::{has_vowel, valid_syllable};
use crate::engine::transform::{
    mark_applied, removed, set_mark, set_stroke, set_tone, stroke_applied, tone_applied,
    ModifierType,
};
use crate::input::Method;
use crate::input::telex::Telex;
use crate::input::vni::Vni;
use crate::settings::ShortcutView;
use crate::utils::string_from_chars;
use vstd::prelude::*;

verus! {

/// Method number of Telex. Every other number selects VNI.
pub const METHOD_TELEX: u8 = 0;

/// Method number of VNI.
pub const METHOD_VNI: u8 = 1;

/// A key as the user pressed it.
#[derive(Clone, Copy, Debug, PartialEq, Eq, Structural)]
pub struct RawKey {
    pub key: u16,
    pub caps: bool,
}

/// What the last keystroke did to the word.
#[derive(Clone, Copy, Debug, PartialEq, Eq, Structural)]
pub enum ActionKind {
    Nothing,
    Letter,
    Tone,
    Mark,
    Stroke,
    Remove,
}

/// What the host does with a key event.
#[derive(Clone, Copy, Debug, PartialEq, Eq, Structural)]
pub enum Action {
    /// The engine has no output: the host handles the key itself.
    Pass,
    /// The host deletes `backspace` characters, inserts `text`, and drops
    /// the key.
    Send,
}

/// The switches of the engine.
#[derive(Clone, Copy, Debug)]
pub struct Config {
    /// 0 = Telex, anything else = VNI.
    pub method: u8,
    pub enabled: bool,
    pub modern_tone: bool,
    pub esc_restore: bool,
    pub english_auto_restore: bool,
    pub auto_capitalize: bool,
    pub free_tone: bool,
    pub skip_w_shortcut: bool,
    pub bracket_shortcut: bool,
    pub allow_foreign_consonants: bool,
}

/// The output of one key event.
#[derive(Debug)]
pub struct KeyResult {
    pub action: Action,
    /// Number of characters to delete before the cursor.
    pub backspace: usize,
    /// Text to insert.
    pub text: Vec<char>,
}

/// Mathematical model of a [`KeyResult`].
pub struct ResultView {
    pub action: Action,
    pub backspace: usize,
    pub text: Seq<char>,
}

impl View for KeyResult {
    type V = ResultView;

    open spec fn view(&self) -> ResultView {
        ResultView { action: self.action, backspace: self.backspace, text: self.text@ }
    }
}

impl KeyResult {
    /// The text to insert, as a string.
    pub fn text_string(&self) -> (s: String)
        ensures
            s@ == self.text@,
    {
        string_from_chars(&self.text)
    }
}

/// Mathematical model of the engine.
pub struct EngineView {
    pub config: Config,
    /// The shortcut table.
    pub shortcuts: Seq<ShortcutView>,
    /// The English dictionary.
    pub words: Seq<Seq<char>>,
    /// The records of the word being typed.
    pub buf: Seq<Char>,
    /// The keys pressed for the word being typed.
    pub raw: Seq<RawKey>,
    /// What the last keystroke did.
    pub last: ActionKind,
    /// The key of the last keystroke.
    pub last_key: u16,
    /// The records as they were before the last transformation.
    pub undo: Seq<Char>,
    /// Whether the next letter begins a sentence.
    pub capitalize_next: bool,
    /// The history ring.
    pub history: Seq<EntryView>,
}

/// A state with its output.
pub struct Outcome {
    pub state: EngineView,
    pub result: ResultView,
}

/// The output of a key the engine leaves to the host.
pub open spec fn no_output() -> ResultView {
    ResultView { action: Action::Pass, backspace: 0, text: Seq::empty() }
}

/// The text the raw keys type, case included.
pub open spec fn raw_text(raw: Seq<RawKey>) -> Seq<char> {
    Seq::new(raw.len(), |i: int| keys::key_text(raw[i].key, raw[i].caps))
}

/// The word the raw keys spell, in lower case.
pub open spec fn raw_word(raw: Seq<RawKey>) -> Seq<char> {
    Seq::new(raw.len(), |i: int| keys::key_char(raw[i].key))
}

/// Whether every raw key is a text key.
pub open spec fn raw_valid(raw: Seq<RawKey>) -> bool {
    forall|i: int| 0 <= i < raw.len() ==> keys::is_text_key((#[trigger] raw[i]).key)
}

/// Whether every raw key is a letter.
pub open spec fn all_letters(raw: Seq<RawKey>) -> bool {
    forall|i: int| 0 <= i < raw.len() ==> keys::is_letter_key((#[trigger] raw[i]).key)
}

/// The records of the raw keys without any diacritic.
pub open spec fn plain_records(raw: Seq<RawKey>) -> Seq<Char> {
    Seq::new(raw.len(), |i: int| Char::plain(raw[i].key, raw[i].caps))
}

/// The keys that typed the records, had each been typed plainly.
pub open spec fn raw_of(buf: Seq<Char>) -> Seq<RawKey> {
    Seq::new(buf.len(), |i: int| RawKey { key: buf[i].key, caps: buf[i].caps })
}

/// Whether the raw keys spell a word of the dictionary, with English
/// auto-restore switched on.
pub open spec fn is_english(s: EngineView) -> bool {
    &&& s.config.english_auto_restore
    &&& s.raw.len() > 0
    &&& all_letters(s.raw)
    &&& s.words.contains(raw_word(s.raw))
}

/// The state with the buffer put back to the raw letters where the raw
/// keys spell an English word.
#[verifier::opaque]
pub open spec fn restored(s: EngineView) -> EngineView {
    if is_english(s) && s.buf != plain_records(s.raw) {
        EngineView {
            buf: plain_records(s.raw),
            last: ActionKind::Letter,
            undo: Seq::empty(),
            ..s
        }
    } else {
        s
    }
}

/// The state at the start of a word.
pub open spec fn reset_word(s: EngineView) -> EngineView {
    EngineView {
        buf: Seq::empty(),
        raw: Seq::empty(),
        last: ActionKind::Nothing,
        last_key: 0,
        undo: Seq::empty(),
        ..s
    }
}

/// The state at the start of a word that does not begin a sentence.
pub open spec fn flushed(s: EngineView) -> EngineView {
    EngineView { capitalize_next: false, ..reset_word(s) }
}

/// Whether a key has an identifier the engine acts on.
pub open spec fn is_known_key(key: u16) -> bool {
    keys::is_text_key(key) || keys::is_boundary_key(key) || key == keys::BACKSPACE || key
        == keys::ESC
}

/// The modifier a key stands for under a method; `None` for a letter.
pub open spec fn modifier_of<M: Method>(m: M, key: u16) -> Option<ModifierType> {
    if m.mark_of(key) is Some {
        Some(ModifierType::Mark(m.mark_of(key)->0))
    } else if m.tone_of(key) is Some {
        Some(ModifierType::Tone(m.tone_of(key)->0.tone_value()))
    } else if m.is_stroke(key) {
        Some(ModifierType::Stroke)
    } else if m.is_remove(key) {
        Some(ModifierType::Remove)
    } else {
        None
    }
}

/// The modifier a key stands for under the method of the given number.
pub open spec fn key_modifier(method: u8, key: u16) -> Option<ModifierType> {
    if method == METHOD_TELEX {
        modifier_of(Telex, key)
    } else {
        modifier_of(Vni, key)
    }
}

/// Whether the word has room for one more keystroke: two more records
/// and one more raw key.
pub open spec fn has_room(s: EngineView) -> bool {
    s.buf.len() + 2 <= CAPACITY && s.raw.len() + 1 <= CAPACITY
}

/// Whether the last keystroke was a transformation that a second tap
/// of its key takes back.
pub open spec fn is_undoable(kind: ActionKind) -> bool {
    kind == ActionKind::Tone || kind == ActionKind::Mark || kind == ActionKind::Stroke
}

/// Whether the buffer may take a tone modifier or a mark: in free-tone
/// mode always, else when its keys spell a valid syllable.
pub open spec fn may_transform(s: EngineView) -> bool {
    s.config.free_tone || valid_syllable(keys_of(s.buf), s.config.allow_foreign_consonants)
}

/// The state after a key is appended as a plain letter.
pub open spec fn appended(s: EngineView, key: u16, caps: bool) -> EngineView {
    EngineView {
        buf: s.buf.push(Char::plain(key, caps)),
        last: ActionKind::Letter,
        last_key: key,
        undo: Seq::empty(),
        ..s
    }
}

/// The state after a transformation turned the buffer into `buf`.
pub open spec fn changed(s: EngineView, buf: Seq<Char>, kind: ActionKind, key: u16) -> EngineView {
    EngineView { buf, last: kind, last_key: key, undo: s.buf, ..s }
}

/// Whether the records end with the plain letter of a key.
pub open spec fn ends_plain(buf: Seq<Char>, key: u16) -> bool {
    buf.len() > 0 && buf.last() == Char::plain(key, buf.last().caps)
}

/// The state after the second tap of a transforming key: the
/// transformation is taken back and the key is spelled out, so that the
/// word ends with the raw letter twice. The raw keys already hold the
/// second tap.
pub open spec fn doubled(s: EngineView, key: u16, caps: bool) -> EngineView {
    let first_caps = s.raw[s.raw.len() - 2].caps;
    let buf = if ends_plain(s.undo, key) {
        s.undo.push(Char::plain(key, caps))
    } else {
        s.undo.push(Char::plain(key, first_caps)).push(Char::plain(key, caps))
    };
    EngineView { buf, last: ActionKind::Letter, last_key: key, undo: Seq::empty(), ..s }
}

/// The state after a tone key.
pub open spec fn tone_keyed(s: EngineView, key: u16, caps: bool, value: u8) -> EngineView {
    let buf = tone_applied(s.buf, key, value, s.config.method);
    if may_transform(s) && buf != s.buf {
        changed(s, buf, ActionKind::Tone, key)
    } else {
        appended(s, key, caps)
    }
}

/// The state after a mark key.
pub open spec fn mark_keyed(s: EngineView, key: u16, caps: bool, value: u8) -> EngineView {
    let buf = mark_applied(s.buf, value, s.config.modern_tone);
    if may_transform(s) && buf != s.buf {
        changed(s, buf, ActionKind::Mark, key)
    } else {
        appended(s, key, caps)
    }
}

/// The state after the stroke key. The stroke lands only where the
/// word stays a syllable, that is where it has a vowel. A stroke key
/// that is a letter is appended as well, and never strokes the `d` it
/// directly follows.
pub open spec fn stroke_keyed(s: EngineView, key: u16, caps: bool) -> EngineView {
    let buf = stroke_applied(s.buf);
    if !has_vowel(keys_of(s.buf)) || buf == s.buf {
        appended(s, key, caps)
    } else if !keys::is_letter_key(key) {
        changed(s, buf, ActionKind::Stroke, key)
    } else if s.buf.last().key != keys::D {
        changed(s, buf.push(Char::plain(key, caps)), ActionKind::Stroke, key)
    } else {
        appended(s, key, caps)
    }
}

/// The state after the remove key.
pub open spec fn remove_keyed(s: EngineView, key: u16, caps: bool) -> EngineView {
    let buf = removed(s.buf);
    if buf != s.buf {
        changed(s, buf, ActionKind::Remove, key)
    } else {
        appended(s, key, caps)
    }
}

/// The state after a text key has acted on the buffer. The raw keys
/// already hold the key.
#[verifier::opaque]
pub open spec fn transformed(s: EngineView, key: u16, caps: bool) -> EngineView {
    if is_undoable(s.last) && s.last_key == key {
        doubled(s, key, caps)
    } else {
        match key_modifier(s.config.method, key) {
            Some(ModifierType::Mark(value)) => mark_keyed(s, key, caps, value),
            Some(ModifierType::Tone(value)) => tone_keyed(s, key, caps, value),
            Some(ModifierType::Stroke) => stroke_keyed(s, key, caps),
            Some(ModifierType::Remove) => remove_keyed(s, key, caps),
            None => appended(s, key, caps),
        }
    }
}

/// Length of the longest common prefix of two texts, counted from `i`.
pub open spec fn common_prefix(a: Seq<char>, b: Seq<char>, i: int) -> int
    decreases a.len() - i,
{
    if 0 <= i < a.len() && i < b.len() && a[i] == b[i] {
        common_prefix(a, b, i + 1)
    } else {
        i
    }
}

/// The shortest edit at the end of a text that turns it into another:
/// delete what follows the common prefix, insert the rest of the new text.
pub open spec fn edit_between(shown: Seq<char>, wanted: Seq<char>) -> ResultView {
    let p = common_prefix(shown, wanted, 0);
    ResultView {
        action: Action::Send,
        backspace: (shown.len() - p) as usize,
        text: wanted.subrange(p, wanted.len() as int),
    }
}

/// The text of the word after the host has handled a key by itself: a
/// text key adds its character, backspace deletes one, any other key
/// leaves the word.
pub open spec fn passed_through(shown: Seq<char>, key: u16, caps: bool) -> Seq<char> {
    if keys::is_text_key(key) {
        shown.push(keys::key_text(key, caps))
    } else if key == keys::BACKSPACE && shown.len() > 0 {
        shown.drop_last()
    } else {
        shown
    }
}

/// The output that brings the host from `shown` to `wanted`: none where
/// the host gets there by handling the key itself, else the shortest edit.
pub open spec fn result_for(
    shown: Seq<char>,
    wanted: Seq<char>,
    key: u16,
    caps: bool,
) -> ResultView {
    if wanted == passed_through(shown, key, caps) {
        no_output()
    } else {
        edit_between(shown, wanted)
    }
}

/// The text of the word at the host after it has acted on an output.
pub open spec fn applied(shown: Seq<char>, r: ResultView, key: u16, caps: bool) -> Seq<char> {
    match r.action {
        Action::Send => shown.subrange(0, shown.len() - r.backspace) + r.text,
        Action::Pass => passed_through(shown, key, caps),
    }
}

/// The history entry of a keystroke.
pub open spec fn entry_of(key: u16, caps: bool, r: ResultView) -> EntryView {
    EntryView { key, caps, backspace: r.backspace, text: r.text }
}

/// The step of a text key: a letter or a digit.
///
/// A word that has no room left is committed first. The key joins the
/// raw keys, acts on the buffer, and the buffer goes back to the raw
/// letters where they spell an English word.
pub open spec fn text_step(s: EngineView, key: u16, caps: bool) -> Outcome {
    let s0 = if has_room(s) {
        s
    } else {
        reset_word(s)
    };
    let up = caps || (s0.config.auto_capitalize && s0.capitalize_next && keys::is_letter_key(key)
        && s0.raw.len() == 0);
    let s1 = EngineView {
        raw: s0.raw.push(RawKey { key, caps: up }),
        capitalize_next: false,
        ..s0
    };
    let s2 = restored(transformed(s1, key, up));
    let result = result_for(rendered(s0.buf), rendered(s2.buf), key, caps);
    Outcome {
        state: EngineView { history: recorded(s2.history, entry_of(key, caps, result)), ..s2 },
        result,
    }
}

/// The records after backspace: the last record loses its outermost
/// diacritic (the mark, else the tone modifier, else the stroke), and a
/// plain last record is removed.
pub open spec fn backed_off(buf: Seq<Char>) -> Seq<Char> {
    let n = buf.len() - 1;
    if buf.len() == 0 {
        buf
    } else if buf[n].mark != mark::NONE {
        set_mark(buf, n, mark::NONE)
    } else if buf[n].tone != tone::NONE {
        set_tone(buf, n, tone::NONE)
    } else if buf[n].stroke {
        set_stroke(buf, n, false)
    } else {
        buf.drop_last()
    }
}

/// The step of backspace. The raw keys become those of the records that
/// remain.
pub open spec fn backspace_step(s: EngineView) -> Outcome {
    let buf = backed_off(s.buf);
    let s1 = restored(
        EngineView {
            buf,
            raw: raw_of(buf),
            last: ActionKind::Nothing,
            last_key: 0,
            undo: Seq::empty(),
            ..s
        },
    );
    Outcome {
        state: s1,
        result: result_for(rendered(s.buf), rendered(s1.buf), keys::BACKSPACE, false),
    }
}

/// The step of ESC: with ESC restore on, the raw keys take the place of
/// the word; the word is over either way.
pub open spec fn escape_step(s: EngineView) -> Outcome {
    Outcome {
        state: flushed(s),
        result: if s.config.esc_restore {
            result_for(rendered(s.buf), raw_text(s.raw), keys::ESC, false)
        } else {
            no_output()
        },
    }
}

/// The replacement of the first shortcut among the first `n` whose
/// trigger is the given text.
pub open spec fn shortcut_from(list: Seq<ShortcutView>, text: Seq<char>, from: int) -> Option<
    Seq<char>,
>
    decreases list.len() - from,
{
    if from < 0 || from >= list.len() {
        None
    } else if list[from].trigger == text {
        Some(list[from].replacement)
    } else {
        shortcut_from(list, text, from + 1)
    }
}

/// The step of a word boundary: a word whose raw keys are a shortcut
/// trigger gives way to the replacement, followed by the boundary's
/// character; the buffer starts over. After a key that ends a sentence
/// the next letter begins one, and a space in between changes nothing
/// about that.
pub open spec fn boundary_step(s: EngineView, key: u16) -> Outcome {
    let hit = shortcut_from(s.shortcuts, raw_text(s.raw), 0);
    Outcome {
        state: EngineView {
            capitalize_next: keys::is_sentence_end_key(key) || (s.capitalize_next && s.raw.len()
                == 0),
            ..reset_word(s)
        },
        result: if s.raw.len() > 0 && hit is Some {
            edit_between(rendered(s.buf), hit->0.push(keys::boundary_char(key)))
        } else {
            no_output()
        },
    }
}

/// One step of the engine.
///
/// A disabled engine does nothing. A key held with control, a key
/// without identifier and a shifted digit end the word. Space and the
/// keys that end a sentence are word boundaries. Backspace, ESC and text
/// keys act on the word.
pub open spec fn step(s: EngineView, key: u16, caps: bool, ctrl: bool, shift: bool) -> Outcome {
    if !s.config.enabled {
        Outcome { state: s, result: no_output() }
    } else if ctrl || !is_known_key(key) || (shift && keys::is_digit_key(key)) {
        Outcome { state: flushed(s), result: no_output() }
    } else if keys::is_boundary_key(key) {
        boundary_step(s, key)
    } else if key == keys::BACKSPACE {
        backspace_step(s)
    } else if key == keys::ESC {
        escape_step(s)
    } else {
        text_step(s, key, caps)
    }
}

/// The settings of a fresh engine: Telex, enabled, modern tone
/// placement, ESC restore and English auto-restore on, the rest off.
pub open spec fn default_config() -> Config {
    Config {
        method: METHOD_TELEX,
        enabled: true,
        modern_tone: true,
        esc_restore: true,
        english_auto_restore: true,
        auto_capitalize: false,
        free_tone: false,
        skip_w_shortcut: false,
        bracket_shortcut: false,
        allow_foreign_consonants: false,
    }
}

/// The state after the settings change: the new settings hold and the
/// word starts over.
pub open spec fn reconfigured(s: EngineView, config: Config) -> EngineView {
    flushed(EngineView { config, ..s })
}

/// The first `n` shortcuts without those of the given trigger.
pub open spec fn without_trigger(list: Seq<ShortcutView>, trigger: Seq<char>, n: int) -> Seq<
    ShortcutView,
>
    decreases n,
{
    if n <= 0 {
        Seq::empty()
    } else if list[n - 1].trigger == trigger {
        without_trigger(list, trigger, n - 1)
    } else {
        without_trigger(list, trigger, n - 1).push(list[n - 1])
    }
}

/// Whether a shortcut can be registered: its trigger is not empty and
/// neither text holds a NUL character.
pub open spec fn shortcut_accepted(trigger: Seq<char>, replacement: Seq<char>) -> bool {
    trigger.len() > 0 && !trigger.contains('\0') && !replacement.contains('\0')
}

/// The shortcut table after a shortcut is added: it replaces any
/// shortcut of the same trigger and comes last. A shortcut that cannot be
/// registered leaves the table as it is.
pub open spec fn shortcut_added(
    list: Seq<ShortcutView>,
    trigger: Seq<char>,
    replacement: Seq<char>,
) -> Seq<ShortcutView> {
    if shortcut_accepted(trigger, replacement) {
        without_trigger(list, trigger, list.len() as int).push(
            ShortcutView { trigger, replacement },
        )
    } else {
        list
    }
}

/// The key event a character stands for in a typed text: letters and
/// digits are text keys, with the case of the letter; space, line feed,
/// full stop, exclamation mark and question mark are the word
/// boundaries; backspace and escape are themselves; any other character
/// is a key without identifier.
pub open spec fn event_key(c: char) -> u16 {
    if keys::char_key(c) is Some {
        keys::char_key(c)->0
    } else if c == ' ' {
        keys::SPACE
    } else if c == '\n' {
        keys::ENTER
    } else if c == '.' {
        keys::PERIOD
    } else if c == '!' {
        keys::EXCLAMATION
    } else if c == '?' {
        keys::QUESTION
    } else if c == '\u{8}' {
        keys::BACKSPACE
    } else if c == '\u{1b}' {
        keys::ESC
    } else {
        keys::UNMAPPED
    }
}

/// The text at the host after it has acted on the output of a key.
pub open spec fn host_text(display: Seq<char>, r: ResultView, key: u16, caps: bool) -> Seq<char> {
    match r.action {
        Action::Send => if r.backspace <= display.len() {
            display.subrange(0, display.len() - r.backspace) + r.text
        } else {
            r.text
        },
        Action::Pass => if keys::is_text_key(key) {
            display.push(keys::key_text(key, caps))
        } else if keys::is_boundary_key(key) {
            display.push(keys::boundary_char(key))
        } else if key == keys::BACKSPACE && display.len() > 0 {
            display.drop_last()
        } else {
            display
        },
    }
}

/// An engine together with the text its host shows.
pub struct Session {
    pub state: EngineView,
    pub display: Seq<char>,
}

/// The session after the first `n` characters of a text are typed.
pub open spec fn typed(start: Session, text: Seq<char>, n: int) -> Session
    decreases n,
{
    if n <= 0 {
        start
    } else {
        let before = typed(start, text, n - 1);
        let c = text[n - 1];
        let out = step(before.state, event_key(c), 'A' <= c <= 'Z', false, false);
        Session {
            state: out.state,
            display: host_text(before.display, out.result, event_key(c), 'A' <= c <= 'Z'),
        }
    }
}

/// The state a typed sequence starts from: the word starts over, the
/// history is empty, and the method is the given one.
pub open spec fn started(s: EngineView, method: u8) -> EngineView {
    EngineView {
        history: Seq::empty(),
        ..reconfigured(s, Config { method, ..s.config })
    }
}

/// The text the host shows after a text is typed from scratch under a
/// method.
pub open spec fn sequence_output(s: EngineView, text: Seq<char>, method: u8) -> Seq<char> {
    typed(
        Session { state: started(s, method), display: Seq::empty() },
        text,
        text.len() as int,
    ).display
}

/// The part of the state invariant that holds at every moment of a
/// step: the buffer and the snapshot are well formed, the snapshot is no
/// longer than the buffer, the raw keys are text keys within the
/// capacity, and the history ring is within its capacity.
pub open spec fn core_wf(s: EngineView) -> bool {
    &&& well_formed(s.buf)
    &&& s.raw.len() <= CAPACITY
    &&& raw_valid(s.raw)
    &&& well_formed(s.undo)
    &&& s.undo.len() <= s.buf.len()
    &&& s.history.len() <= HISTORY_CAPACITY
}

/// Whether a transformation that can be taken back was made by the last
/// raw key.
pub open spec fn undo_by_raw(s: EngineView) -> bool {
    is_undoable(s.last) ==> s.raw.len() >= 1 && s.raw.last().key == s.last_key
}

/// The invariant of the engine state between key events. Besides the
/// core invariant: a transformation that can be taken back was made by
/// the last raw key; and where the raw keys spell an English word under
/// English auto-restore, the buffer holds exactly the raw letters.
pub open spec fn state_wf(s: EngineView) -> bool {
    &&& core_wf(s)
    &&& undo_by_raw(s)
    &&& is_english(s) ==> s.buf == plain_records(s.raw)
}

/// Whether a text ends with the letter of a key twice, the last time in
/// the given case.
pub open spec fn ends_twice(text: Seq<char>, key: u16, caps: bool) -> bool {
    &&& text.len() >= 2
    &&& text[text.len() - 1] == keys::key_text(key, caps)
    &&& text[text.len() - 2] == keys::key_text(key, false) || text[text.len() - 2]
        == keys::key_text(key, true)
}

/// A shortcut as the engine keeps it.
#[derive(Debug, Clone)]
pub struct ShortcutEntry {
    pub trigger: Vec<char>,
    pub replacement: Vec<char>,
}

impl View for ShortcutEntry {
    type V = ShortcutView;

    open spec fn view(&self) -> ShortcutView {
        ShortcutView { trigger: self.trigger@, replacement: self.replacement@ }
    }
}

/// The views of the shortcut table.
pub open spec fn entry_views(list: Seq<ShortcutEntry>) -> Seq<ShortcutView> {
    Seq::new(list.len(), |i: int| list[i]@)
}

impl Config {
    /// The settings of a fresh engine.
    pub fn new() -> (config: Config)
        ensures
            config == default_config(),
    {
        Config {
            method: METHOD_TELEX,
            enabled: true,
            modern_tone: true,
            esc_restore: true,
            english_auto_restore: true,
            auto_capitalize: false,
            free_tone: false,
            skip_w_shortcut: false,
            bracket_shortcut: false,
            allow_foreign_consonants: false,
        }
    }
}

/// Whether a fresh Telex word may be typed without English auto-restore
/// stepping in on the given raw keys.
pub open spec fn stays_typed(s: EngineView, raw: Seq<RawKey>) -> bool {
    !is_english(EngineView { raw, ..s })
}

/// A state at the start of a word, with Telex switched on.
pub open spec fn fresh_telex(s: EngineView) -> bool {
    &&& state_wf(s)
    &&& s == flushed(s)
    &&& s.config.enabled
    &&& s.config.method == METHOD_TELEX
}

/// The state after a key is typed without control or shift.
pub open spec fn after(s: EngineView, key: u16, caps: bool) -> EngineView {
    step(s, key, caps, false, false).state
}

/// What a keystroke leaves of a state, the history aside, where English
/// auto-restore may step in: the given records, last action and snapshot
/// where it does not, and the raw letters as plain records where it does.
pub open spec fn settles(
    s: EngineView,
    from: EngineView,
    buf: Seq<Char>,
    raw: Seq<RawKey>,
    last: ActionKind,
    key: u16,
    undo: Seq<Char>,
) -> bool {
    if stays_typed(from, raw) {
        leaves(s, from, buf, raw, last, key, undo)
    } else {
        leaves(s, from, plain_records(raw), raw, ActionKind::Letter, key, Seq::empty())
    }
}

/// What a keystroke leaves of a state, the history aside.
pub open spec fn leaves(
    s: EngineView,
    from: EngineView,
    buf: Seq<Char>,
    raw: Seq<RawKey>,
    last: ActionKind,
    key: u16,
    undo: Seq<Char>,
) -> bool {
    &&& s.buf == buf
    &&& s.raw == raw
    &&& s.last == last
    &&& s.last_key == key
    &&& s.undo == undo
    &&& s.config == from.config
    &&& s.words == from.words
    &&& !s.capitalize_next
}

} // verus!
