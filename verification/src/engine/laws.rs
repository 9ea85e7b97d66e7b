//! What holds of the engine's model: its invariant is kept by every
//! step, the output of a key is the edit the host needs, and the laws of
//! ESC restore, English auto-restore and the double tap.

use crate::data::chars::{mark, tone};
use crate::data::keys;
use crate::engine::buffer::{
    keys_of, lemma_plain_composed, rendered, vowel_positions, vowels_upto, well_formed, Char,
    CAPACITY,
};
use crate::engine::model::{
    after, appended, applied, backed_off, changed, common_prefix, core_wf, doubled, ends_plain,
    ends_twice, flushed, fresh_telex, has_room, is_english, is_known_key, is_undoable, key_modifier,
    leaves, mark_keyed, may_transform, no_output, plain_records, raw_of, raw_text, raw_valid,
    reset_word, restored, result_for, sequence_output, settles, started, state_wf, stays_typed,
    step, tone_keyed, transformed, undo_by_raw, ActionKind, EngineView, RawKey, METHOD_TELEX,
};
use crate::engine::syllable::{next_vowel, parsed, valid_syllable, vowel_run_end};
use crate::engine::transform::{
    first_match, last_match, lemma_mark_applied_well_formed, lemma_same_length, lemma_set_mark,
    lemma_set_stroke, lemma_set_tone, lemma_simple_transforms_well_formed, lemma_target_keys,
    lemma_tone_applied_well_formed, mark_applied, mark_target, open_targets, removed, repositioned,
    stroke_applied, tone_applied, tone_targets, toned, ModifierType,
};
use crate::input::Method;
use crate::input::telex::Telex;
use crate::input::vni::Vni;
use crate::utils::vowels_of;
use vstd::prelude::*;

verus! {

/// Plain records of valid raw keys within the capacity are well formed,
/// and are rendered as the text of the raw keys.
pub proof fn lemma_plain_records(raw: Seq<RawKey>)
    requires
        raw_valid(raw),
    ensures
        raw.len() <= CAPACITY ==> well_formed(plain_records(raw)),
        rendered(plain_records(raw)) == raw_text(raw),
{
    assert forall|i: int| 0 <= i < raw.len() implies (#[trigger] plain_records(raw)[i]).valid()
        && plain_records(raw)[i].composed() == keys::key_text(raw[i].key, raw[i].caps) by {
        lemma_plain_composed(raw[i].key, raw[i].caps);
    }
    assert(rendered(plain_records(raw)) =~= raw_text(raw));
}

/// The vowels a tone key of a method changes are among those the method
/// lists for the key.
pub proof fn lemma_targets_are_listed(s: Seq<Char>, method: u8, key: u16, value: u8, k: int)
    requires
        s.len() <= usize::MAX,
        key_modifier(method, key) == Some(ModifierType::Tone(value)),
        0 <= k < tone_targets(s, key, value, method).len(),
    ensures
        ({
            let target = s[tone_targets(s, key, value, method)[k] as int].key;
            if method == METHOD_TELEX {
                Telex.targets_of(key).contains(target)
            } else {
                Vni.targets_of(key).contains(target)
            }
        }),
{
    lemma_target_keys(s, key, value, method, k);
    let target = s[tone_targets(s, key, value, method)[k] as int].key;
    if method == METHOD_TELEX {
        let list = Telex.targets_of(key);
        if key == keys::W {
            assert(list[0] == keys::A && list[1] == keys::O && list[2] == keys::U);
        } else {
            assert(list[0] == key);
        }
    } else {
        let list = Vni.targets_of(key);
        if key == keys::N6 {
            assert(list[0] == keys::A && list[1] == keys::E && list[2] == keys::O);
        } else if key == keys::N7 {
            assert(list[0] == keys::O && list[1] == keys::U);
        } else {
            assert(list[0] == keys::A);
        }
    }
}

/// The common prefix of two texts lies within both and is common.
pub proof fn lemma_common_prefix(a: Seq<char>, b: Seq<char>, i: int)
    requires
        0 <= i <= a.len(),
        i <= b.len(),
        a.subrange(0, i) == b.subrange(0, i),
    ensures
        i <= common_prefix(a, b, i) <= a.len(),
        common_prefix(a, b, i) <= b.len(),
        a.subrange(0, common_prefix(a, b, i)) == b.subrange(0, common_prefix(a, b, i)),
    decreases a.len() - i,
{
    if i < a.len() && i < b.len() && a[i] == b[i] {
        assert(a.subrange(0, i + 1) =~= a.subrange(0, i).push(a[i]));
        assert(b.subrange(0, i + 1) =~= b.subrange(0, i).push(b[i]));
        lemma_common_prefix(a, b, i + 1);
    }
}

/// The output of a key is the edit the host needs: once the host has
/// acted on it, its text of the word is the wanted one.
pub proof fn lemma_result_applies(shown: Seq<char>, wanted: Seq<char>, key: u16, caps: bool)
    requires
        shown.len() <= usize::MAX,
    ensures
        applied(shown, result_for(shown, wanted, key, caps), key, caps) == wanted,
        result_for(shown, wanted, key, caps).backspace <= shown.len(),
{
    assert(shown.subrange(0, 0) =~= wanted.subrange(0, 0));
    lemma_common_prefix(shown, wanted, 0);
    let p = common_prefix(shown, wanted, 0);
    assert(shown.subrange(0, p) + wanted.subrange(p, wanted.len() as int) =~= wanted) by {
        assert(wanted.subrange(0, p) + wanted.subrange(p, wanted.len() as int) =~= wanted);
    }
}

/// English auto-restore: in every state of the engine, when English
/// auto-restore is on and the raw keys spell a word of the dictionary,
/// the word is rendered as the raw keys.
pub proof fn lemma_english_is_raw(s: EngineView)
    requires
        state_wf(s),
        is_english(s),
    ensures
        rendered(s.buf) == raw_text(s.raw),
{
    lemma_plain_records(s.raw);
}

/// ESC restore: with ESC restore on, the output of ESC turns the word
/// at the host into the raw keys; the word is then over, and a second
/// ESC changes nothing and has no output.
pub proof fn lemma_escape_restores(s: EngineView, caps: bool, shift: bool)
    requires
        state_wf(s),
        s.config.enabled,
        s.config.esc_restore,
    ensures
        applied(
            rendered(s.buf),
            step(s, keys::ESC, caps, false, shift).result,
            keys::ESC,
            false,
        ) == raw_text(s.raw),
        step(s, keys::ESC, caps, false, shift).state == flushed(s),
        step(flushed(s), keys::ESC, caps, false, shift).state == flushed(s),
        step(flushed(s), keys::ESC, caps, false, shift).result == no_output(),
{
    assert(rendered(s.buf).len() <= CAPACITY);
    lemma_result_applies(rendered(s.buf), raw_text(s.raw), keys::ESC, false);
    let f = flushed(s);
    assert(rendered(f.buf) =~= Seq::<char>::empty());
    assert(raw_text(f.raw) =~= Seq::<char>::empty());
    assert(flushed(f) == f);
}

/// Determinism: what a typed text yields depends on the settings, the
/// shortcuts and the dictionary alone, not on what was typed before.
pub proof fn lemma_sequence_deterministic(a: EngineView, b: EngineView, text: Seq<char>, method: u8)
    requires
        a.config == b.config,
        a.shortcuts == b.shortcuts,
        a.words == b.words,
    ensures
        sequence_output(a, text, method) == sequence_output(b, text, method),
{
    assert(started(a, method) == started(b, method));
}

/// A text key that acts on a word with room keeps the core of the state
/// invariant.
pub proof fn lemma_transformed_keeps_core(s: EngineView, key: u16, caps: bool)
    requires
        core_wf(s),
        keys::is_text_key(key),
        s.buf.len() + 2 <= CAPACITY,
    ensures
        core_wf(transformed(s, key, caps)),
        is_undoable(transformed(s, key, caps).last) ==> transformed(s, key, caps).last_key == key,
        transformed(s, key, caps).raw == s.raw,
        transformed(s, key, caps).config == s.config,
        transformed(s, key, caps).words == s.words,
        transformed(s, key, caps).history == s.history,
{
    reveal(transformed);
    let first_caps = s.raw[s.raw.len() - 2].caps;
    lemma_plain_composed(key, caps);
    lemma_plain_composed(key, first_caps);
    lemma_same_length(s.buf, key, 0, s.config.method, true);
    lemma_simple_transforms_well_formed(s.buf, key);
    lemma_push_plain(s.buf, key, caps);
    lemma_push_plain(stroke_applied(s.buf), key, caps);
    lemma_push_plain(s.undo, key, caps);
    lemma_push_plain(s.undo, key, first_caps);
    if s.undo.len() + 2 <= CAPACITY {
        lemma_push_plain(s.undo.push(Char::plain(key, first_caps)), key, caps);
    }
    assert forall|value: u8|
        well_formed(#[trigger] tone_applied(s.buf, key, value, s.config.method))
            && tone_applied(s.buf, key, value, s.config.method).len() == s.buf.len() by {
        lemma_tone_applied_well_formed(
            s.buf,
            key,
            value,
            s.config.method,
        );
        lemma_same_length(s.buf, key, value, s.config.method, true);
    }
    assert forall|value: u8|
        well_formed(#[trigger] mark_applied(s.buf, value, s.config.modern_tone)) && mark_applied(
            s.buf,
            value,
            s.config.modern_tone,
        ).len() == s.buf.len() by {
        lemma_mark_applied_well_formed(
            s.buf,
            value,
            s.config.modern_tone,
        );
        lemma_same_length(
            s.buf,
            key,
            value,
            s.config.method,
            s.config.modern_tone,
        );
    }
}

/// Appending a plain record of a text key to a well-formed buffer with
/// room keeps it well formed.
pub proof fn lemma_push_plain(s: Seq<Char>, key: u16, caps: bool)
    requires
        well_formed(s),
        keys::is_text_key(key),
    ensures
        s.len() < CAPACITY ==> well_formed(s.push(Char::plain(key, caps))),
{
    lemma_plain_composed(key, caps);
    let t = s.push(Char::plain(key, caps));
    assert forall|j: int| 0 <= j < t.len() implies (#[trigger] t[j]).valid() by {
        if j < s.len() {
            assert(s[j].valid());
        }
    }
    assert forall|a: int, b: int|
        0 <= a < t.len() && 0 <= b < t.len() && (#[trigger] t[a]).mark != mark::NONE && (
        #[trigger] t[b]).mark != mark::NONE implies a == b by {
        assert(s[a].mark != mark::NONE && s[b].mark != mark::NONE);
    }
}

/// English auto-restore turns a state that meets the core invariant
/// into one that meets the whole invariant.
pub proof fn lemma_restored_keeps_invariant(s: EngineView)
    requires
        core_wf(s),
        undo_by_raw(s),
    ensures
        state_wf(restored(s)),
        restored(s).raw == s.raw,
        restored(s).config == s.config,
        restored(s).words == s.words,
        restored(s).history == s.history,
{
    reveal(restored);
    lemma_plain_records(s.raw);
}

/// The engine invariant is kept by every step: whatever key arrives in a
/// state that meets the invariant, the next state meets it too. So in
/// every state the engine reaches, the buffer holds at most one mark, a
/// tone modifier or a mark only on a vowel, and a stroke only on `d`.
pub proof fn lemma_step_keeps_invariant(
    s: EngineView,
    key: u16,
    caps: bool,
    ctrl: bool,
    shift: bool,
)
    requires
        state_wf(s),
    ensures
        state_wf(step(s, key, caps, ctrl, shift).state),
{
    let next = step(s, key, caps, ctrl, shift).state;
    let f = flushed(s);
    assert(well_formed(f.buf) && well_formed(f.undo) && raw_valid(f.raw));
    assert(!is_english(reset_word(s)));
    if !s.config.enabled {
    } else if ctrl || !is_known_key(key) || (shift && keys::is_digit_key(key)) {
    } else if keys::is_boundary_key(key) {
        assert(!is_english(next));
    } else if key == keys::BACKSPACE {
        let buf = backed_off(s.buf);
        let n = s.buf.len() - 1;
        if s.buf.len() > 0 {
            assert(s.buf[n].valid());
            lemma_set_mark(s.buf, n, mark::NONE);
            lemma_set_tone(s.buf, n, tone::NONE);
            lemma_set_stroke(s.buf, n, false);
            let d = s.buf.drop_last();
            assert forall|j: int| 0 <= j < d.len() implies (#[trigger] d[j]).valid() by {
                assert(s.buf[j].valid());
            }
            assert forall|a: int, b: int|
                0 <= a < d.len() && 0 <= b < d.len() && (#[trigger] d[a]).mark != mark::NONE && (
                #[trigger] d[b]).mark != mark::NONE implies a == b by {
                assert(s.buf[a].mark != mark::NONE && s.buf[b].mark != mark::NONE);
            }
        }
        assert(well_formed(buf));
        let s1 = EngineView {
            buf,
            raw: raw_of(buf),
            last: ActionKind::Nothing,
            last_key: 0,
            undo: Seq::empty(),
            ..s
        };
        assert forall|j: int| 0 <= j < s1.raw.len() implies keys::is_text_key(
            (#[trigger] s1.raw[j]).key,
        ) by {
            assert(buf[j].valid());
        }
        assert(well_formed(s1.undo));
        lemma_restored_keeps_invariant(s1);
    } else if key == keys::ESC {
    } else {
        let s0 = if has_room(s) {
            s
        } else {
            reset_word(s)
        };
        let up = caps || (s0.config.auto_capitalize && s0.capitalize_next && keys::is_letter_key(
            key,
        ) && s0.raw.len() == 0);
        let s1 = EngineView {
            raw: s0.raw.push(RawKey { key, caps: up }),
            capitalize_next: false,
            ..s0
        };
        assert(core_wf(s0));
        assert forall|j: int| 0 <= j < s1.raw.len() implies keys::is_text_key(
            (#[trigger] s1.raw[j]).key,
        ) by {
            if j < s0.raw.len() {
                assert(keys::is_text_key(s0.raw[j].key));
            }
        }
        assert(core_wf(s1));
        lemma_transformed_keeps_core(s1, key, up);
        let s2 = transformed(s1, key, up);
        lemma_restored_keeps_invariant(s2);
    }
}




/// The state a text key leaves when the word has room: the key joins the
/// raw keys and acts on the buffer, English auto-restore follows, and
/// the keystroke is recorded.
pub proof fn lemma_text_step(s: EngineView, key: u16, caps: bool)
    requires
        s.config.enabled,
        keys::is_text_key(key),
        has_room(s),
        !s.capitalize_next || s.raw.len() >= 1,
    ensures
        ({
            let s1 = EngineView {
                raw: s.raw.push(RawKey { key, caps }),
                capitalize_next: false,
                ..s
            };
            let s2 = restored(transformed(s1, key, caps));
            &&& after(s, key, caps).buf == s2.buf
            &&& after(s, key, caps).raw == s2.raw
            &&& after(s, key, caps).last == s2.last
            &&& after(s, key, caps).last_key == s2.last_key
            &&& after(s, key, caps).undo == s2.undo
            &&& after(s, key, caps).config == s2.config
            &&& after(s, key, caps).words == s2.words
            &&& after(s, key, caps).capitalize_next == s2.capitalize_next
        }),
{
}

/// Where English auto-restore steps in after a text key, the buffer
/// holds the raw letters, the new key among them, as plain records.
pub proof fn lemma_english_after(s: EngineView, key: u16, caps: bool)
    requires
        s.config.enabled,
        keys::is_text_key(key),
        has_room(s),
        !s.capitalize_next || s.raw.len() >= 1,
        !stays_typed(s, s.raw.push(RawKey { key, caps })),
    ensures
        after(s, key, caps).buf == plain_records(s.raw.push(RawKey { key, caps })),
        after(s, key, caps).raw == s.raw.push(RawKey { key, caps }),
        after(s, key, caps).config == s.config,
        after(s, key, caps).words == s.words,
{
    reveal(transformed);
    reveal(restored);
    lemma_text_step(s, key, caps);
    let s1 = EngineView { raw: s.raw.push(RawKey { key, caps }), capitalize_next: false, ..s };
    let t = transformed(s1, key, caps);
    assert(t.raw == s1.raw && t.config == s1.config && t.words == s1.words);
    assert(is_english(t));
}


/// On an empty buffer every text key is a letter: the key is appended
/// as it was typed.
pub proof fn lemma_first_key(s: EngineView, key: u16, caps: bool)
    requires
        s.config.enabled,
        keys::is_text_key(key),
        s.buf.len() == 0,
        s.raw.len() == 0,
        !is_undoable(s.last),
        !s.capitalize_next,
    ensures
        leaves(
            after(s, key, caps),
            s,
            seq![Char::plain(key, caps)],
            seq![RawKey { key, caps }],
            ActionKind::Letter,
            key,
            Seq::empty(),
        ),
{
    reveal(transformed);
    reveal(restored);
    reveal_with_fuel(vowels_upto, 2);
    reveal_with_fuel(first_match, 2);
    reveal_with_fuel(last_match, 2);
    reveal_with_fuel(open_targets, 2);
    lemma_text_step(s, key, caps);
    let s1 = EngineView { raw: s.raw.push(RawKey { key, caps }), capitalize_next: false, ..s };
    assert(s1.raw =~= seq![RawKey { key, caps }]);
    assert(keys_of(s1.buf) =~= Seq::<u16>::empty());
    assert(vowels_of(s1.buf) =~= Seq::empty());
    assert(forall|value: u8|
        #[trigger] tone_applied(s1.buf, key, value, s1.config.method) == s1.buf);
    assert(forall|value: u8|
        #[trigger] mark_applied(s1.buf, value, s1.config.modern_tone) == s1.buf);
    assert(stroke_applied(s1.buf) == s1.buf);
    assert(removed(s1.buf) == s1.buf);
    let a = appended(s1, key, caps);
    assert(transformed(s1, key, caps) == a);
    assert(a.buf =~= seq![Char::plain(key, caps)]);
    assert(a.buf =~= plain_records(a.raw));
    assert(restored(a) == a);
}

/// A single vowel is a valid syllable.
pub proof fn lemma_single_vowel(vowel: u16, allow_foreign: bool)
    requires
        keys::is_vowel_key(vowel),
    ensures
        valid_syllable(seq![vowel], allow_foreign),
        vowel_positions(seq![vowel]) == seq![0usize],
{
    reveal_with_fuel(vowels_upto, 3);
    reveal_with_fuel(next_vowel, 3);
    reveal_with_fuel(vowel_run_end, 3);
    let ks = seq![vowel];
    assert(keys::is_vowel_key(ks[0]));
    assert(vowel_positions(ks) =~= seq![0usize]);
    assert(parsed(ks).initial =~= Seq::<usize>::empty());
    assert(parsed(ks).vowel =~= seq![0usize]);
    assert(parsed(ks).final_c =~= Seq::<usize>::empty());
}

/// The Telex key of a plain `a`, `e` or `o` that stands alone gives it
/// the circumflex.
pub proof fn lemma_circumflex_on_twin(key: u16, caps: bool)
    requires
        key == keys::A || key == keys::E || key == keys::O,
    ensures
        tone_applied(seq![Char::plain(key, caps)], key, tone::CIRCUMFLEX, METHOD_TELEX) == seq![
            Char { tone: tone::CIRCUMFLEX, ..Char::plain(key, caps) },
        ],
{
    reveal_with_fuel(first_match, 3);
    reveal_with_fuel(open_targets, 3);
    lemma_single_vowel(key, false);
    let b = seq![Char::plain(key, caps)];
    let wanted = seq![Char { tone: tone::CIRCUMFLEX, ..Char::plain(key, caps) }];
    assert(keys_of(b) =~= seq![key]);
    let targets = tone_targets(b, key, tone::CIRCUMFLEX, METHOD_TELEX);
    assert(targets =~= seq![0usize]);
    assert(targets[0] == 0);
    let toned = toned(b, targets, tone::CIRCUMFLEX, 1);
    assert(toned =~= wanted);
    assert(repositioned(toned) == toned);
}

/// A mark key puts its mark on a plain vowel that stands alone.
pub proof fn lemma_mark_on_vowel(vowel: u16, caps: bool, value: u8, modern: bool)
    requires
        keys::is_vowel_key(vowel),
        value <= mark::NANG,
    ensures
        mark_applied(seq![Char::plain(vowel, caps)], value, modern) == seq![
            Char { mark: value, ..Char::plain(vowel, caps) },
        ],
{
    lemma_single_vowel(vowel, false);
    let b = seq![Char::plain(vowel, caps)];
    assert(keys_of(b) =~= seq![vowel]);
    assert(vowels_of(b).len() == 1);
    assert(vowels_of(b)[0].pos == 0);
    assert(mark_target(b, modern) == 0);
    let wanted = seq![Char { mark: value, ..Char::plain(vowel, caps) }];
    assert(mark_applied(b, value, modern) =~= wanted);
}

/// The second tap of a Telex vowel key: after a plain `a`, `e` or `o`
/// that stands alone, the same key gives it the circumflex, unless
/// English auto-restore steps in and puts the raw letters back.
pub proof fn lemma_second_vowel_tap(s: EngineView, key: u16, caps: bool)
    requires
        s.config.enabled,
        s.config.method == METHOD_TELEX,
        key == keys::A || key == keys::E || key == keys::O,
        s.buf.len() == 1,
        s.buf[0] == Char::plain(key, s.buf[0].caps),
        s.raw.len() + 1 <= CAPACITY,
        s.last == ActionKind::Letter,
        !s.capitalize_next || s.raw.len() >= 1,
    ensures
        settles(
            after(s, key, caps),
            s,
            seq![Char { tone: tone::CIRCUMFLEX, ..s.buf[0] }],
            s.raw.push(RawKey { key, caps }),
            ActionKind::Tone,
            key,
            s.buf,
        ),
{
    reveal(transformed);
    reveal(restored);
    lemma_text_step(s, key, caps);
    lemma_single_vowel(key, s.config.allow_foreign_consonants);
    lemma_circumflex_on_twin(key, s.buf[0].caps);
    let s1 = EngineView { raw: s.raw.push(RawKey { key, caps }), capitalize_next: false, ..s };
    assert(s.buf =~= seq![Char::plain(key, s.buf[0].caps)]);
    assert(keys_of(s.buf) =~= seq![key]);
    let wanted = seq![Char { tone: tone::CIRCUMFLEX, ..s.buf[0] }];
    assert(tone_applied(s1.buf, key, tone::CIRCUMFLEX, METHOD_TELEX) == wanted);
    assert(wanted[0] != s.buf[0]);
    let a = changed(s1, wanted, ActionKind::Tone, key);
    assert(tone_keyed(s1, key, caps, tone::CIRCUMFLEX) == a);
    assert(transformed(s1, key, caps) == a);
    assert(plain_records(a.raw)[0].tone == tone::NONE);
    assert(a.buf != plain_records(a.raw));
    assert(is_english(a) == !stays_typed(s, s.raw.push(RawKey { key, caps })));
}

/// A Telex mark key after a plain vowel that stands alone puts its mark
/// on the vowel, unless English auto-restore steps in and puts the raw
/// letters back.
pub proof fn lemma_mark_tap(s: EngineView, key: u16, caps: bool)
    requires
        s.config.enabled,
        s.config.method == METHOD_TELEX,
        Telex.mark_of(key) is Some,
        s.buf.len() == 1,
        keys::is_vowel_key(s.buf[0].key),
        s.buf[0] == Char::plain(s.buf[0].key, s.buf[0].caps),
        s.raw.len() + 1 <= CAPACITY,
        s.last == ActionKind::Letter,
        !s.capitalize_next || s.raw.len() >= 1,
    ensures
        settles(
            after(s, key, caps),
            s,
            seq![Char { mark: Telex.mark_of(key)->0, ..s.buf[0] }],
            s.raw.push(RawKey { key, caps }),
            ActionKind::Mark,
            key,
            s.buf,
        ),
{
    reveal(transformed);
    reveal(restored);
    lemma_text_step(s, key, caps);
    let vowel = s.buf[0].key;
    let value = Telex.mark_of(key)->0;
    lemma_single_vowel(vowel, s.config.allow_foreign_consonants);
    lemma_mark_on_vowel(vowel, s.buf[0].caps, value, s.config.modern_tone);
    let s1 = EngineView { raw: s.raw.push(RawKey { key, caps }), capitalize_next: false, ..s };
    assert(s.buf =~= seq![Char::plain(vowel, s.buf[0].caps)]);
    assert(keys_of(s.buf) =~= seq![vowel]);
    let wanted = seq![Char { mark: value, ..s.buf[0] }];
    assert(mark_applied(s1.buf, value, s1.config.modern_tone) == wanted);
    assert(wanted[0] != s.buf[0]);
    let a = changed(s1, wanted, ActionKind::Mark, key);
    assert(mark_keyed(s1, key, caps, value) == a);
    assert(transformed(s1, key, caps) == a);
    assert(plain_records(a.raw)[0].mark == mark::NONE);
    assert(a.buf != plain_records(a.raw));
    assert(is_english(a) == !stays_typed(s, s.raw.push(RawKey { key, caps })));
}

/// A vowel followed by a Telex mark key is no syllable: the letter of
/// the key is no final consonant.
pub proof fn lemma_mark_letter_ends_no_syllable(vowel: u16, key: u16, allow_foreign: bool)
    requires
        keys::is_vowel_key(vowel),
        Telex.mark_of(key) is Some,
    ensures
        !valid_syllable(seq![vowel, key], allow_foreign),
{
    reveal_with_fuel(next_vowel, 3);
    reveal_with_fuel(vowel_run_end, 3);
    let ks = seq![vowel, key];
    assert(keys::is_vowel_key(ks[0]));
    assert(!keys::is_vowel_key(ks[1]));
    assert(parsed(ks).initial =~= Seq::<usize>::empty());
    assert(parsed(ks).vowel =~= seq![0usize]);
    assert(parsed(ks).final_c =~= Seq::<usize>::empty());
}

/// A mark key on a buffer that may not take a mark is a letter: where
/// the buffer holds the raw letters as they were typed, the key is
/// appended as it was typed.
pub proof fn lemma_mark_key_is_letter(s: EngineView, key: u16, caps: bool)
    requires
        s.config.enabled,
        s.config.method == METHOD_TELEX,
        Telex.mark_of(key) is Some,
        has_room(s),
        !may_transform(s),
        !is_undoable(s.last),
        s.raw.len() >= 1,
        s.buf == plain_records(s.raw),
    ensures
        after(s, key, caps).buf == plain_records(s.raw.push(RawKey { key, caps })),
{
    reveal(transformed);
    reveal(restored);
    lemma_text_step(s, key, caps);
    let s1 = EngineView { raw: s.raw.push(RawKey { key, caps }), capitalize_next: false, ..s };
    let a = appended(s1, key, caps);
    assert(transformed(s1, key, caps) == a);
    assert(a.buf =~= plain_records(a.raw));
    assert(restored(a) == a);
}

/// The second tap of the Telex keys `w` and `d`: after a plain `w` or
/// `d` that stands alone as it was typed, the same key is appended as a
/// letter.
pub proof fn lemma_second_w_d_tap(s: EngineView, key: u16, caps: bool)
    requires
        s.config.enabled,
        s.config.method == METHOD_TELEX,
        key == keys::W || key == keys::D,
        s.buf.len() == 1,
        s.buf[0] == Char::plain(key, s.buf[0].caps),
        s.buf == plain_records(s.raw),
        s.raw.len() + 1 <= CAPACITY,
        s.last == ActionKind::Letter,
    ensures
        leaves(
            after(s, key, caps),
            s,
            s.buf.push(Char::plain(key, caps)),
            s.raw.push(RawKey { key, caps }),
            ActionKind::Letter,
            key,
            Seq::empty(),
        ),
{
    reveal(transformed);
    reveal(restored);
    reveal_with_fuel(vowels_upto, 3);
    reveal_with_fuel(open_targets, 2);
    lemma_text_step(s, key, caps);
    let s1 = EngineView { raw: s.raw.push(RawKey { key, caps }), capitalize_next: false, ..s };
    assert(s.buf =~= seq![Char::plain(key, s.buf[0].caps)]);
    assert(keys_of(s.buf) =~= seq![key]);
    assert(!keys::is_vowel_key(keys_of(s.buf)[0]));
    assert(vowel_positions(keys_of(s.buf)) =~= Seq::<usize>::empty());
    assert(tone_applied(s1.buf, key, tone::HORN, METHOD_TELEX) == s1.buf);
    assert(s1.buf.last().key == key);
    let a = appended(s1, key, caps);
    assert(transformed(s1, key, caps) == a);
    assert(a.buf =~= plain_records(a.raw));
    assert(restored(a) == a);
}

/// Double tap: when the last keystroke was a transformation made by a
/// key and the word has room, a second tap of the key puts the records
/// back as they were before the transformation and spells the key out.
/// Where English auto-restore steps in, the records are the raw letters
/// instead. Either way the word ends with the raw letter twice.
pub proof fn lemma_double_tap(s: EngineView, key: u16, caps: bool)
    requires
        state_wf(s),
        s.config.enabled,
        keys::is_text_key(key),
        has_room(s),
        is_undoable(s.last),
        s.last_key == key,
    ensures
        settles(
            after(s, key, caps),
            s,
            if ends_plain(s.undo, key) {
                s.undo.push(Char::plain(key, caps))
            } else {
                s.undo.push(Char::plain(key, s.raw.last().caps)).push(Char::plain(key, caps))
            },
            s.raw.push(RawKey { key, caps }),
            ActionKind::Letter,
            key,
            Seq::empty(),
        ),
        ends_twice(rendered(after(s, key, caps).buf), key, caps),
{
    reveal(transformed);
    reveal(restored);
    lemma_text_step(s, key, caps);
    let s1 = EngineView { raw: s.raw.push(RawKey { key, caps }), capitalize_next: false, ..s };
    let d = doubled(s1, key, caps);
    assert(s1.raw[s1.raw.len() - 2] == s.raw.last());
    assert(transformed(s1, key, caps) == d);
    assert(is_english(d) == !stays_typed(s, s.raw.push(RawKey { key, caps })));
    lemma_plain_composed(key, caps);
    lemma_plain_composed(key, false);
    lemma_plain_composed(key, true);
    let n = d.buf.len();
    assert(d.buf[n - 1].composed() == keys::key_text(key, caps));
    assert(d.buf[n - 2].composed() == keys::key_text(key, d.buf[n - 2].caps));
    let p = plain_records(s1.raw);
    let m = p.len();
    assert(p[m - 1].composed() == keys::key_text(key, caps));
    assert(p[m - 2] == Char::plain(key, s.raw.last().caps));
    assert(p[m - 2].composed() == keys::key_text(key, s.raw.last().caps));
}

/// Double tap of a Telex vowel key: at the start of a word, `a`, `e` or
/// `o` typed once is the letter. Typed twice it is the letter with
/// circumflex, and typed three times the raw letter twice — or, where
/// English auto-restore steps in at the third tap, all three raw
/// letters. Either way the word ends with the raw letter twice. Where
/// the two letters are an English word, they stay as they were typed.
pub proof fn lemma_telex_vowel_taps(s: EngineView, key: u16, c1: bool, c2: bool, c3: bool)
    requires
        fresh_telex(s),
        key == keys::A || key == keys::E || key == keys::O,
    ensures
        ({
            let r2 = seq![RawKey { key, caps: c1 }, RawKey { key, caps: c2 }];
            let r3 = r2.push(RawKey { key, caps: c3 });
            let s1 = after(s, key, c1);
            let s2 = after(s1, key, c2);
            let s3 = after(s2, key, c3);
            &&& s1.buf == seq![Char::plain(key, c1)]
            &&& s2.buf == if stays_typed(s, r2) {
                seq![Char { tone: tone::CIRCUMFLEX, ..Char::plain(key, c1) }]
            } else {
                plain_records(r2)
            }
            &&& stays_typed(s, r2) ==> ends_twice(rendered(s3.buf), key, c3)
            &&& stays_typed(s, r2) ==> s3.buf == if stays_typed(s, r3) {
                seq![Char::plain(key, c1), Char::plain(key, c3)]
            } else {
                plain_records(r3)
            }
        }),
{
    let k1 = RawKey { key, caps: c1 };
    let k2 = RawKey { key, caps: c2 };
    let k3 = RawKey { key, caps: c3 };
    let r2 = seq![k1, k2];
    let r3 = r2.push(k3);
    lemma_first_key(s, key, c1);
    let s1 = after(s, key, c1);
    assert(seq![k1].push(k2) =~= r2);
    assert(stays_typed(s1, r2) == stays_typed(s, r2));
    lemma_second_vowel_tap(s1, key, c2);
    let s2 = after(s1, key, c2);
    if stays_typed(s, r2) {
        assert(stays_typed(s2, r3) == stays_typed(s, r3));
        lemma_step_keeps_invariant(s, key, c1, false, false);
        lemma_step_keeps_invariant(s1, key, c2, false, false);
        lemma_double_tap(s2, key, c3);
        assert(seq![Char::plain(key, c1)].push(Char::plain(key, c3)) =~= seq![
            Char::plain(key, c1),
            Char::plain(key, c3),
        ]);
    }
}

/// Double tap of the Telex keys `w` and `d`: at the start of a word,
/// either key typed twice is the raw letter twice.
pub proof fn lemma_telex_w_d_taps(s: EngineView, key: u16, c1: bool, c2: bool)
    requires
        fresh_telex(s),
        key == keys::W || key == keys::D,
    ensures
        after(after(s, key, c1), key, c2).buf == seq![Char::plain(key, c1), Char::plain(key, c2)],
{
    let k1 = RawKey { key, caps: c1 };
    lemma_first_key(s, key, c1);
    let s1 = after(s, key, c1);
    assert(s1.buf =~= plain_records(s1.raw));
    lemma_second_w_d_tap(s1, key, c2);
    assert(seq![Char::plain(key, c1)].push(Char::plain(key, c2)) =~= seq![
        Char::plain(key, c1),
        Char::plain(key, c2),
    ]);
}

/// Double tap of a Telex mark key: at the start of a word, a vowel and
/// then one of `s`, `f`, `r`, `x`, `j` is the vowel with the mark of the
/// key, or the two raw letters where they are an English word. The key
/// once more leaves the vowel and the raw letter of the key twice. The
/// one exception: in free-tone mode, where the two letters are an
/// English word and the three are not, the third key is a mark again.
pub proof fn lemma_telex_mark_taps(
    s: EngineView,
    vowel: u16,
    key: u16,
    c1: bool,
    c2: bool,
    c3: bool,
)
    requires
        fresh_telex(s),
        keys::is_vowel_key(vowel),
        Telex.mark_of(key) is Some,
    ensures
        ({
            let r2 = seq![RawKey { key: vowel, caps: c1 }, RawKey { key, caps: c2 }];
            let r3 = r2.push(RawKey { key, caps: c3 });
            let s2 = after(after(s, vowel, c1), key, c2);
            let s3 = after(s2, key, c3);
            &&& s2.buf == if stays_typed(s, r2) {
                seq![Char { mark: Telex.mark_of(key)->0, ..Char::plain(vowel, c1) }]
            } else {
                plain_records(r2)
            }
            &&& stays_typed(s, r2) || !s.config.free_tone || !stays_typed(s, r3) ==> s3.buf
                == seq![Char::plain(vowel, c1), Char::plain(key, c2), Char::plain(key, c3)]
        }),
{
    let k1 = RawKey { key: vowel, caps: c1 };
    let k2 = RawKey { key, caps: c2 };
    let k3 = RawKey { key, caps: c3 };
    let r2 = seq![k1, k2];
    let r3 = r2.push(k3);
    let wanted = seq![Char::plain(vowel, c1), Char::plain(key, c2), Char::plain(key, c3)];
    lemma_first_key(s, vowel, c1);
    let s1 = after(s, vowel, c1);
    assert(seq![k1].push(k2) =~= r2);
    assert(stays_typed(s1, r2) == stays_typed(s, r2));
    lemma_mark_tap(s1, key, c2);
    let s2 = after(s1, key, c2);
    assert(stays_typed(s2, r3) == stays_typed(s, r3));
    assert(plain_records(r3) =~= wanted);
    if stays_typed(s, r2) {
        lemma_step_keeps_invariant(s, vowel, c1, false, false);
        lemma_step_keeps_invariant(s1, key, c2, false, false);
        assert(!ends_plain(seq![Char::plain(vowel, c1)], key));
        lemma_double_tap(s2, key, c3);
        assert(seq![Char::plain(vowel, c1)].push(Char::plain(key, c2)).push(Char::plain(key, c3))
            =~= wanted);
    } else if !stays_typed(s, r3) {
        lemma_english_after(s2, key, c3);
    } else if !s.config.free_tone {
        assert(keys_of(s2.buf) =~= seq![vowel, key]);
        lemma_mark_letter_ends_no_syllable(vowel, key, s.config.allow_foreign_consonants);
        lemma_mark_key_is_letter(s2, key, c3);
    }
}

/// The host stays in line with the buffer: once the host has acted on
/// the output of a text key or of backspace, its text of the word is the
/// text of the buffer.
pub proof fn lemma_host_in_line(s: EngineView, key: u16, caps: bool)
    requires
        state_wf(s),
        s.config.enabled,
        keys::is_text_key(key) || key == keys::BACKSPACE,
    ensures
        ({
            let shown = if keys::is_text_key(key) && !has_room(s) {
                Seq::<char>::empty()
            } else {
                rendered(s.buf)
            };
            let typed_caps = keys::is_text_key(key) && caps;
            applied(shown, step(s, key, caps, false, false).result, key, typed_caps) == rendered(
                after(s, key, caps).buf,
            )
        }),
{
    let out = step(s, key, caps, false, false);
    if keys::is_text_key(key) {
        let s0 = if has_room(s) {
            s
        } else {
            reset_word(s)
        };
        assert(rendered(reset_word(s).buf) =~= Seq::<char>::empty());
        lemma_result_applies(rendered(s0.buf), rendered(out.state.buf), key, caps);
    } else {
        lemma_result_applies(rendered(s.buf), rendered(out.state.buf), keys::BACKSPACE, false);
    }
}

} // verus!
