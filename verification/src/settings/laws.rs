//! What holds of the settings file format: how the reader cuts a text
//! that the writer has put together, and that written settings are read
//! back as they were.

use crate::settings::json::{
    contracted_from, escaped, expanded_from, field_of, fields_upto, index_of, is_space, joined,
    lead, lookup, lookup_upto, members, object_body, object_fields, split_state, split_step, strip,
    strip_end, strip_start, tail, trimmed, unescaped, CharClass, FieldView, SplitState,
};
use crate::settings::{
    all_digits, array_body, array_items, array_text, bool_text, decimal_u8, digits_value,
    member_text, number_u8, parsed_settings, quoted_member, settings_json, settings_members,
    shortcut_json, shortcut_members, shortcut_of, shortcuts_in, shortcuts_upto, SettingsView,
    ShortcutView,
};
use vstd::prelude::*;

verus! {

/// The scan state after `n` more characters of a text, from a state on.
pub open spec fn split_over(st: SplitState, s: Seq<char>, n: int) -> SplitState
    decreases n,
{
    if n <= 0 {
        st
    } else {
        split_step(split_over(st, s, n - 1), s[n - 1])
    }
}

/// The scan state before any character.
pub open spec fn start_state() -> SplitState {
    SplitState { done: Seq::empty(), current: Seq::empty(), depth: 0 }
}

/// A scan state with a text added to the member being read.
pub open spec fn grown(st: SplitState, x: Seq<char>) -> SplitState {
    SplitState { done: st.done, current: st.current + x, depth: st.depth }
}

/// Whether a character opens a bracket or a brace.
pub open spec fn is_open(c: char) -> bool {
    c == '{' || c == '['
}

/// Whether a character closes a bracket or a brace.
pub open spec fn is_close(c: char) -> bool {
    c == '}' || c == ']'
}

/// Whether a text holds no bracket and no brace.
pub open spec fn calm(x: Seq<char>) -> bool {
    forall|i: int| 0 <= i < x.len() ==> !is_open(#[trigger] x[i]) && !is_close(x[i])
}

/// Whether a text holds no bracket, no brace and no comma.
pub open spec fn quiet(x: Seq<char>) -> bool {
    forall|i: int|
        0 <= i < x.len() ==> !is_open(#[trigger] x[i]) && !is_close(x[i]) && x[i] != ','
}

/// Whether the scan, at the given depth, takes a whole text into the
/// member being read and comes back to that depth.
pub open spec fn passes(x: Seq<char>, depth: int) -> bool {
    forall|st: SplitState|
        st.depth == depth ==> #[trigger] split_over(st, x, x.len() as int) == grown(st, x)
}

/// Whether every character of a text is in a class.
pub open spec fn all_in(x: Seq<char>, class: CharClass) -> bool {
    forall|i: int| 0 <= i < x.len() ==> class.has(#[trigger] x[i])
}

/// The scan of a whole text is the scan from the start state.
pub proof fn lemma_split_state_over(s: Seq<char>, n: int)
    ensures
        split_state(s, n) == split_over(start_state(), s, n),
    decreases n,
{
    if n > 0 {
        lemma_split_state_over(s, n - 1);
    }
}

/// The scan of the first characters of a text does not depend on what
/// follows them.
pub proof fn lemma_split_prefix(st: SplitState, a: Seq<char>, b: Seq<char>, n: int)
    requires
        0 <= n <= a.len(),
    ensures
        split_over(st, a + b, n) == split_over(st, a, n),
    decreases n,
{
    if n > 0 {
        lemma_split_prefix(st, a, b, n - 1);
        assert((a + b)[n - 1] == a[n - 1]);
    }
}

/// The scan of two texts in a row is the scan of the second from where
/// the scan of the first ended.
pub proof fn lemma_split_concat(st: SplitState, a: Seq<char>, b: Seq<char>, n: int)
    requires
        0 <= n <= b.len(),
    ensures
        split_over(st, a + b, a.len() + n) == split_over(
            split_over(st, a, a.len() as int),
            b,
            n,
        ),
    decreases n,
{
    if n == 0 {
        lemma_split_prefix(st, a, b, a.len() as int);
    } else {
        lemma_split_concat(st, a, b, n - 1);
        assert((a + b)[a.len() + n - 1] == b[n - 1]);
    }
}

/// The scan takes a text without brackets into the member being read,
/// provided the text has no comma or the scan is inside a bracket.
pub proof fn lemma_split_calm(st: SplitState, x: Seq<char>, n: int)
    requires
        0 <= n <= x.len(),
        calm(x),
        st.depth != 0 || quiet(x),
    ensures
        split_over(st, x, n) == grown(st, x.take(n)),
    decreases n,
{
    if n > 0 {
        lemma_split_calm(st, x, n - 1);
        let before = split_over(st, x, n - 1);
        let c = x[n - 1];
        assert(!is_open(c) && !is_close(c));
        assert(st.current + x.take(n) =~= (st.current + x.take(n - 1)).push(c));
    } else {
        assert(st.current + x.take(0) =~= st.current);
    }
}

/// A text without brackets passes inside a bracket; a text without
/// brackets and commas passes anywhere.
pub proof fn lemma_calm_passes(x: Seq<char>, depth: int)
    requires
        calm(x),
        depth != 0 || quiet(x),
    ensures
        passes(x, depth),
{
    assert forall|st: SplitState| st.depth == depth implies #[trigger] split_over(
        st,
        x,
        x.len() as int,
    ) == grown(st, x) by {
        lemma_split_calm(st, x, x.len() as int);
        assert(x.take(x.len() as int) =~= x);
    }
}

/// Two texts that pass at a depth pass in a row.
pub proof fn lemma_passes_concat(x: Seq<char>, y: Seq<char>, depth: int)
    requires
        passes(x, depth),
        passes(y, depth),
    ensures
        passes(x + y, depth),
{
    assert forall|st: SplitState| st.depth == depth implies #[trigger] split_over(
        st,
        x + y,
        (x + y).len() as int,
    ) == grown(st, x + y) by {
        lemma_split_concat(st, x, y, y.len() as int);
        let mid = split_over(st, x, x.len() as int);
        assert(mid == grown(st, x));
        assert(split_over(mid, y, y.len() as int) == grown(mid, y));
        assert(st.current + (x + y) =~= (st.current + x) + y);
    }
}

/// A text that passes one level deeper passes between a bracket that
/// opens and one that closes.
pub proof fn lemma_passes_bracketed(o: char, y: Seq<char>, c: char, depth: int)
    requires
        is_open(o),
        is_close(c),
        passes(y, depth + 1),
    ensures
        passes(seq![o] + y + seq![c], depth),
{
    let x = seq![o] + y + seq![c];
    assert forall|st: SplitState| st.depth == depth implies #[trigger] split_over(
        st,
        x,
        x.len() as int,
    ) == grown(st, x) by {
        let s1 = split_over(st, seq![o], 1);
        assert(split_over(st, seq![o], 0) == st);
        assert(seq![o][0] == o);
        assert(s1 == SplitState {
            done: st.done,
            current: st.current.push(o),
            depth: st.depth + 1,
        });
        lemma_split_concat(st, seq![o], y, y.len() as int);
        let s2 = split_over(s1, y, y.len() as int);
        assert(s2 == grown(s1, y));
        lemma_split_concat(st, seq![o] + y, seq![c], 1);
        assert(split_over(s2, seq![c], 0) == s2);
        assert(seq![c][0] == c);
        let s3 = split_over(s2, seq![c], 1);
        assert(s3 == split_step(s2, c));
        assert(s3.current =~= st.current + x);
    }
}

/// Texts that pass inside a bracket still pass when joined by commas.
pub proof fn lemma_joined_passes(items: Seq<Seq<char>>, n: int, depth: int)
    requires
        0 <= n <= items.len(),
        depth != 0,
        forall|i: int| 0 <= i < n ==> passes(#[trigger] items[i], depth),
    ensures
        passes(joined(items, n), depth),
    decreases n,
{
    if n <= 0 {
        lemma_calm_passes(Seq::empty(), depth);
    } else if n == 1 {
    } else {
        lemma_joined_passes(items, n - 1, depth);
        lemma_calm_passes(seq![','], depth);
        lemma_passes_concat(joined(items, n - 1), seq![','], depth);
        lemma_passes_concat(joined(items, n - 1) + seq![','], items[n - 1], depth);
    }
}

/// The scan of texts joined by commas, each passing outside brackets:
/// all but the last are done, trimmed, and the last is being read.
pub proof fn lemma_split_joined(items: Seq<Seq<char>>, n: int)
    requires
        1 <= n <= items.len(),
        forall|i: int| 0 <= i < n ==> passes(#[trigger] items[i], 0),
    ensures
        split_over(start_state(), joined(items, n), joined(items, n).len() as int) == (SplitState {
            done: Seq::new((n - 1) as nat, |i: int| trimmed(items[i])),
            current: items[n - 1],
            depth: 0,
        }),
    decreases n,
{
    let st = start_state();
    if n == 1 {
        let x = items[0];
        assert(split_over(st, x, x.len() as int) == grown(st, x));
        assert(st.current + x =~= x);
        assert(st.done =~= Seq::new(0nat, |i: int| trimmed(items[i])));
    } else {
        lemma_split_joined(items, n - 1);
        let j = joined(items, n - 1);
        let s1 = split_over(st, j, j.len() as int);
        lemma_split_concat(st, j, seq![','], 1);
        assert(split_over(s1, seq![','], 0) == s1);
        assert(seq![','][0] == ',');
        let s2 = split_over(s1, seq![','], 1);
        assert(s2 == split_step(s1, ','));
        assert(s2.done =~= Seq::new((n - 1) as nat, |i: int| trimmed(items[i])));
        let x = items[n - 1];
        lemma_split_concat(st, j + seq![','], x, x.len() as int);
        assert(split_over(s2, x, x.len() as int) == grown(s2, x));
        assert(s2.current + x =~= x);
    }
}

/// The members of texts joined by commas, each passing outside
/// brackets and the last not blank: the texts, trimmed.
pub proof fn lemma_members_joined(items: Seq<Seq<char>>)
    requires
        items.len() >= 1,
        forall|i: int| 0 <= i < items.len() ==> passes(#[trigger] items[i], 0),
        trimmed(items.last()).len() > 0,
    ensures
        members(joined(items, items.len() as int)) == Seq::new(
            items.len(),
            |i: int| trimmed(items[i]),
        ),
{
    let n = items.len() as int;
    let body = joined(items, n);
    lemma_split_joined(items, n);
    lemma_split_state_over(body, body.len() as int);
    assert(members(body) =~= Seq::new(items.len(), |i: int| trimmed(items[i])));
}

/// `lead` is where the leading run of a class ends.
pub proof fn lemma_lead_at(s: Seq<char>, class: CharClass, from: int, k: int)
    requires
        0 <= from <= k <= s.len(),
        forall|i: int| from <= i < k ==> class.has(#[trigger] s[i]),
        k == s.len() || !class.has(s[k]),
    ensures
        lead(s, class, from) == k,
    decreases k - from,
{
    if from < k {
        lemma_lead_at(s, class, from + 1, k);
    }
}

/// `tail` is where the trailing run of a class begins.
pub proof fn lemma_tail_at(s: Seq<char>, class: CharClass, n: int, k: int)
    requires
        0 <= k <= n <= s.len(),
        forall|i: int| k <= i < n ==> class.has(#[trigger] s[i]),
        k == 0 || !class.has(s[k - 1]),
    ensures
        tail(s, class, n) == k,
    decreases n - k,
{
    if k < n {
        lemma_tail_at(s, class, n - 1, k);
    }
}

/// Stripping a class from a text leaves what stands between the
/// leading and the trailing run of the class.
pub proof fn lemma_strip_core(a: Seq<char>, core: Seq<char>, b: Seq<char>, class: CharClass)
    requires
        all_in(a, class),
        all_in(b, class),
        core.len() > 0,
        !class.has(core[0]),
        !class.has(core.last()),
    ensures
        strip(a + core + b, class) == core,
{
    let s = a + core + b;
    let i = a.len() as int;
    let j = i + core.len();
    assert forall|k: int| 0 <= k < i implies class.has(#[trigger] s[k]) by {
        assert(s[k] == a[k]);
    }
    assert(s[i] == core[0]);
    lemma_lead_at(s, class, 0, i);
    let t = strip_start(s, class);
    assert(t =~= core + b);
    assert forall|k: int| core.len() <= k < t.len() implies class.has(#[trigger] t[k]) by {
        assert(t[k] == b[k - core.len()]);
    }
    assert(t[core.len() - 1] == core.last());
    lemma_tail_at(t, class, t.len() as int, core.len() as int);
    assert(strip_end(t, class) =~= core);
}

/// Stripping a class from a text of that class leaves nothing.
pub proof fn lemma_strip_all(a: Seq<char>, class: CharClass)
    requires
        all_in(a, class),
    ensures
        strip(a, class) == Seq::<char>::empty(),
{
    lemma_lead_at(a, class, 0, a.len() as int);
    let t = strip_start(a, class);
    assert(t =~= Seq::<char>::empty());
    assert(strip_end(t, class) =~= Seq::<char>::empty());
}

/// Stripping a class from a text that neither begins nor ends with it
/// leaves the text.
pub proof fn lemma_strip_none(core: Seq<char>, class: CharClass)
    requires
        core.len() > 0,
        !class.has(core[0]),
        !class.has(core.last()),
    ensures
        strip(core, class) == core,
{
    lemma_strip_core(Seq::empty(), core, Seq::empty(), class);
    assert(Seq::<char>::empty() + core + Seq::<char>::empty() =~= core);
}

/// Stripping a class from the start of a text leaves what follows the
/// leading run of the class.
pub proof fn lemma_strip_start_core(a: Seq<char>, rest: Seq<char>, class: CharClass)
    requires
        all_in(a, class),
        rest.len() == 0 || !class.has(rest[0]),
    ensures
        strip_start(a + rest, class) == rest,
{
    let s = a + rest;
    assert forall|k: int| 0 <= k < a.len() implies class.has(#[trigger] s[k]) by {
        assert(s[k] == a[k]);
    }
    if rest.len() > 0 {
        assert(s[a.len() as int] == rest[0]);
    }
    lemma_lead_at(s, class, 0, a.len() as int);
    assert(strip_start(s, class) =~= rest);
}

/// Stripping a class from the end of a text leaves what precedes the
/// trailing run of the class.
pub proof fn lemma_strip_end_core(rest: Seq<char>, b: Seq<char>, class: CharClass)
    requires
        all_in(b, class),
        rest.len() == 0 || !class.has(rest.last()),
    ensures
        strip_end(rest + b, class) == rest,
{
    let s = rest + b;
    assert forall|k: int| rest.len() <= k < s.len() implies class.has(#[trigger] s[k]) by {
        assert(s[k] == b[k - rest.len()]);
    }
    if rest.len() > 0 {
        assert(s[rest.len() - 1] == rest.last());
    }
    lemma_tail_at(s, class, s.len() as int, rest.len() as int);
    assert(strip_end(s, class) =~= rest);
}

/// `index_of` is the first place the character stands at.
pub proof fn lemma_index_at(s: Seq<char>, c: char, from: int, k: int)
    requires
        0 <= from <= k < s.len(),
        forall|i: int| from <= i < k ==> #[trigger] s[i] != c,
        s[k] == c,
    ensures
        index_of(s, c, from) == k,
    decreases k - from,
{
    if from < k {
        lemma_index_at(s, c, from + 1, k);
    }
}

/// Whether a text can be the key of a member: it is not empty and holds
/// neither a colon nor a double quote.
pub open spec fn key_like(key: Seq<char>) -> bool {
    key.len() > 0 && forall|i: int| 0 <= i < key.len() ==> #[trigger] key[i] != ':' && key[i] != '"'
}

/// The field of a member that is written as the key in quotes, a colon,
/// blanks and a value: the key, and the value trimmed and freed of
/// surrounding quotes.
pub proof fn lemma_field_of(key: Seq<char>, pad: Seq<char>, value: Seq<char>)
    requires
        key_like(key),
        all_in(pad, CharClass::Space),
    ensures
        field_of(seq!['"'] + key + seq!['"', ':'] + pad + value) == Some(
            FieldView { key, value: strip(trimmed(pad + value), CharClass::Only('"')) },
        ),
{
    let member = seq!['"'] + key + seq!['"', ':'] + pad + value;
    let colon = (key.len() + 2) as int;
    assert(member[0] == '"');
    assert forall|i: int| 0 <= i < colon implies #[trigger] member[i] != ':' by {
        if 1 <= i <= key.len() {
            assert(member[i] == key[i - 1]);
        } else if i == key.len() + 1 {
            assert(member[i] == '"');
        }
    }
    assert(member[colon] == ':');
    lemma_index_at(member, ':', 0, colon);
    let left = member.subrange(0, colon);
    assert(left =~= seq!['"'] + key + seq!['"']);
    assert(left[0] == '"' && left.last() == '"');
    lemma_strip_none(left, CharClass::Space);
    assert(key[0] != '"' && key.last() != '"');
    lemma_strip_core(seq!['"'], key, seq!['"'], CharClass::Only('"'));
    assert(member.subrange(colon + 1, member.len() as int) =~= pad + value);
}

/// A value that is not empty and neither begins nor ends with a blank
/// or a quote is read as it is written.
pub proof fn lemma_bare_value(pad: Seq<char>, value: Seq<char>)
    requires
        all_in(pad, CharClass::Space),
        value.len() > 0,
        !is_space(value[0]) && value[0] != '"',
        !is_space(value.last()) && value.last() != '"',
    ensures
        strip(trimmed(pad + value), CharClass::Only('"')) == value,
{
    lemma_strip_core(pad, value, Seq::empty(), CharClass::Space);
    assert(pad + value + Seq::<char>::empty() =~= pad + value);
    lemma_strip_none(value, CharClass::Only('"'));
}

/// A text without quotes that is written in quotes is read as it is.
pub proof fn lemma_quoted_value(text: Seq<char>)
    requires
        forall|i: int| 0 <= i < text.len() ==> #[trigger] text[i] != '"',
    ensures
        strip(
            trimmed(Seq::<char>::empty() + (seq!['"'] + text + seq!['"'])),
            CharClass::Only('"'),
        ) == text,
{
    let value = seq!['"'] + text + seq!['"'];
    assert(Seq::<char>::empty() + value =~= value);
    assert(value[0] == '"' && value.last() == '"');
    lemma_strip_none(value, CharClass::Space);
    if text.len() > 0 {
        lemma_strip_core(seq!['"'], text, seq!['"'], CharClass::Only('"'));
    } else {
        assert(value =~= seq!['"', '"']);
        lemma_strip_all(value, CharClass::Only('"'));
        assert(text =~= Seq::<char>::empty());
    }
}

/// Whether a text needs no escape and cannot be mistaken for structure:
/// it holds no quote, backslash, comma, brace, bracket, line break,
/// carriage return or tab. Letters, digits and blanks are such a text.
pub open spec fn plain_text(t: Seq<char>) -> bool {
    forall|i: int|
        0 <= i < t.len() ==> {
            let c = #[trigger] t[i];
            c != '"' && c != '\\' && c != ',' && c != '{' && c != '}' && c != '[' && c != ']'
                && c != '\n' && c != '\r' && c != '\t'
        }
}

/// Replacing a character that a text does not hold leaves the text.
pub proof fn lemma_expanded_none(s: Seq<char>, c: char, a: char, b: char, from: int)
    requires
        0 <= from <= s.len(),
        forall|i: int| 0 <= i < s.len() ==> #[trigger] s[i] != c,
    ensures
        expanded_from(s, c, a, b, from) == s.subrange(from, s.len() as int),
    decreases s.len() - from,
{
    if from < s.len() {
        lemma_expanded_none(s, c, a, b, from + 1);
        assert(seq![s[from]] + s.subrange(from + 1, s.len() as int) =~= s.subrange(
            from,
            s.len() as int,
        ));
    } else {
        assert(s.subrange(from, s.len() as int) =~= Seq::<char>::empty());
    }
}

/// Replacing a pair whose first character a text does not hold leaves
/// the text.
pub proof fn lemma_contracted_none(s: Seq<char>, a: char, b: char, c: char, from: int)
    requires
        0 <= from <= s.len(),
        forall|i: int| 0 <= i < s.len() ==> #[trigger] s[i] != a,
    ensures
        contracted_from(s, a, b, c, from) == s.subrange(from, s.len() as int),
    decreases s.len() - from,
{
    if from < s.len() {
        lemma_contracted_none(s, a, b, c, from + 1);
        assert(seq![s[from]] + s.subrange(from + 1, s.len() as int) =~= s.subrange(
            from,
            s.len() as int,
        ));
    } else {
        assert(s.subrange(from, s.len() as int) =~= Seq::<char>::empty());
    }
}

/// A plain text is written without escapes and read without change.
pub proof fn lemma_plain_escapes(t: Seq<char>)
    requires
        plain_text(t),
    ensures
        escaped(t) == t,
        unescaped(t) == t,
{
    assert(t.subrange(0, t.len() as int) =~= t);
    lemma_expanded_none(t, '\\', '\\', '\\', 0);
    lemma_expanded_none(t, '"', '\\', '"', 0);
    lemma_expanded_none(t, '\n', '\\', 'n', 0);
    lemma_expanded_none(t, '\r', '\\', 'r', 0);
    lemma_expanded_none(t, '\t', '\\', 't', 0);
    lemma_contracted_none(t, '\\', '"', '"', 0);
    lemma_contracted_none(t, '\\', '\\', '\\', 0);
    lemma_contracted_none(t, '\\', 'n', '\n', 0);
    lemma_contracted_none(t, '\\', 'r', '\r', 0);
    lemma_contracted_none(t, '\\', 't', '\t', 0);
}

/// Whether a text is made of lowercase letters and underscores, and is
/// not empty.
pub open spec fn is_name(key: Seq<char>) -> bool {
    key.len() > 0 && forall|i: int|
        0 <= i < key.len() ==> 'a' <= #[trigger] key[i] <= 'z' || key[i] == '_'
}

/// The two keys of a shortcut object are names, and differ.
pub proof fn lemma_shortcut_keys()
    ensures
        is_name("trigger"@),
        is_name("replacement"@),
        "trigger"@ != "replacement"@,
{
    reveal_strlit("trigger");
    reveal_strlit("replacement");
    assert("trigger"@ =~= seq!['t', 'r', 'i', 'g', 'g', 'e', 'r']);
    assert("replacement"@ =~= seq!['r', 'e', 'p', 'l', 'a', 'c', 'e', 'm', 'e', 'n', 't']);
    assert("trigger"@.len() != "replacement"@.len());
}

/// A member written inside a line, with a name for key and a plain
/// text, passes at any depth and is read as the key and the text.
pub proof fn lemma_quoted_member(key: Seq<char>, text: Seq<char>, depth: int)
    requires
        is_name(key),
        plain_text(text),
    ensures
        passes(quoted_member(key, text), depth),
        trimmed(quoted_member(key, text)) == quoted_member(key, text),
        field_of(quoted_member(key, text)) == Some(FieldView { key, value: text }),
{
    let m = quoted_member(key, text);
    assert forall|i: int| 0 <= i < m.len() implies !is_open(#[trigger] m[i]) && !is_close(m[i])
        && m[i] != ',' by {
        if 1 <= i <= key.len() {
            assert(m[i] == key[i - 1]);
        } else if key.len() + 4 <= i < key.len() + 4 + text.len() {
            assert(m[i] == text[i - key.len() - 4]);
        }
    }
    lemma_calm_passes(m, depth);
    assert(m[0] == '"' && m.last() == '"');
    lemma_strip_none(m, CharClass::Space);
    assert(key_like(key));
    let value = seq!['"'] + text + seq!['"'];
    lemma_field_of(key, Seq::empty(), value);
    lemma_quoted_value(text);
    assert(m =~= seq!['"'] + key + seq!['"', ':'] + Seq::<char>::empty() + value);
}

/// The object of a shortcut of plain texts is read back as the
/// shortcut.
pub proof fn lemma_shortcut_object(s: ShortcutView)
    requires
        plain_text(s.trigger),
        plain_text(s.replacement),
    ensures
        shortcut_of(object_fields(shortcut_json(s))) == Some(s),
        shortcut_json(s).len() >= 2,
        shortcut_json(s)[0] == '{',
        shortcut_json(s).last() == '}',
{
    lemma_shortcut_keys();
    lemma_plain_escapes(s.trigger);
    lemma_plain_escapes(s.replacement);
    let ms = shortcut_members(s);
    let m0 = quoted_member("trigger"@, s.trigger);
    let m1 = quoted_member("replacement"@, s.replacement);
    assert(ms[0] == m0 && ms[1] == m1);
    lemma_quoted_member("trigger"@, s.trigger, 0);
    lemma_quoted_member("replacement"@, s.replacement, 0);
    let body = joined(ms, 2);
    assert(joined(ms, 1) == m0);
    assert(body == m0 + seq![','] + m1);
    let text = shortcut_json(s);
    assert(text[0] == '{' && text.last() == '}');
    // The braces go, the members stay.
    lemma_strip_none(text, CharClass::Space);
    assert(body[0] == '"' && body.last() == '"');
    assert(text =~= seq!['{'] + (body + seq!['}']));
    lemma_strip_start_core(seq!['{'], body + seq!['}'], CharClass::Only('{'));
    lemma_strip_end_core(body, seq!['}'], CharClass::Only('}'));
    assert(object_body(text) == body);
    // The members are the two fields.
    assert forall|i: int| 0 <= i < ms.len() implies passes(#[trigger] ms[i], 0) by {
        if i == 0 {
        } else {
            assert(i == 1);
        }
    }
    assert(ms.last() == m1);
    lemma_members_joined(ms);
    let list = members(body);
    assert(list =~= seq![m0, m1]);
    reveal_with_fuel(fields_upto, 3);
    reveal_with_fuel(lookup_upto, 3);
    let fs = fields_upto(list, 2);
    assert(fs =~= seq![
        FieldView { key: "trigger"@, value: s.trigger },
        FieldView { key: "replacement"@, value: s.replacement },
    ]);
    assert(lookup(fs, "trigger"@) == Some(s.trigger));
    assert(lookup(fs, "replacement"@) == Some(s.replacement));
}

/// The object of a shortcut of plain texts passes outside brackets and
/// inside them.
pub proof fn lemma_object_passes(s: ShortcutView, depth: int)
    requires
        plain_text(s.trigger),
        plain_text(s.replacement),
        depth >= 0,
    ensures
        passes(shortcut_json(s), depth),
{
    lemma_shortcut_keys();
    lemma_plain_escapes(s.trigger);
    lemma_plain_escapes(s.replacement);
    let ms = shortcut_members(s);
    let m0 = quoted_member("trigger"@, s.trigger);
    let m1 = quoted_member("replacement"@, s.replacement);
    assert(ms[0] == m0 && ms[1] == m1);
    let body = joined(ms, 2);
    assert(joined(ms, 1) == m0);
    assert(body == m0 + seq![','] + m1);
    lemma_quoted_member("trigger"@, s.trigger, depth + 1);
    lemma_quoted_member("replacement"@, s.replacement, depth + 1);
    lemma_calm_passes(seq![','], depth + 1);
    lemma_passes_concat(m0, seq![','], depth + 1);
    lemma_passes_concat(m0 + seq![','], m1, depth + 1);
    lemma_passes_bracketed('{', body, '}', depth);
}

/// Whether every trigger and every replacement is a plain text.
pub open spec fn plain_shortcuts(list: Seq<ShortcutView>) -> bool {
    forall|i: int|
        0 <= i < list.len() ==> plain_text((#[trigger] list[i]).trigger) && plain_text(
            list[i].replacement,
        )
}

/// Joined texts begin as the first of them begins.
pub proof fn lemma_joined_starts(items: Seq<Seq<char>>, n: int)
    requires
        1 <= n <= items.len(),
        items[0].len() > 0,
    ensures
        joined(items, n).len() > 0,
        joined(items, n)[0] == items[0][0],
    decreases n,
{
    if n > 1 {
        lemma_joined_starts(items, n - 1);
    }
}

/// Joining depends on the texts that are joined alone.
pub proof fn lemma_joined_same(a: Seq<Seq<char>>, b: Seq<Seq<char>>, n: int)
    requires
        0 <= n <= a.len(),
        n <= b.len(),
        forall|i: int| 0 <= i < n ==> a[i] == b[i],
    ensures
        joined(a, n) == joined(b, n),
    decreases n,
{
    if n > 1 {
        lemma_joined_same(a, b, n - 1);
    }
}

/// A text that follows joined texts can be taken as the end of the last
/// of them.
pub proof fn lemma_joined_tail(items: Seq<Seq<char>>, more: Seq<char>)
    requires
        items.len() >= 1,
    ensures
        joined(items.update(items.len() - 1, items.last() + more), items.len() as int) == joined(
            items,
            items.len() as int,
        ) + more,
{
    let n = items.len() as int;
    let longer = items.update(n - 1, items.last() + more);
    if n > 1 {
        lemma_joined_same(items, longer, n - 1);
        assert(joined(longer, n) =~= joined(items, n) + more);
    }
}

/// The objects of plain shortcuts are read back as the shortcuts, one
/// by one.
pub proof fn lemma_shortcuts_each(list: Seq<ShortcutView>, objects: Seq<Seq<char>>, n: int)
    requires
        plain_shortcuts(list),
        objects.len() == list.len(),
        forall|i: int| 0 <= i < list.len() ==> #[trigger] objects[i] == shortcut_json(list[i]),
        0 <= n <= list.len(),
    ensures
        shortcuts_upto(objects, n) == list.take(n),
    decreases n,
{
    if n > 0 {
        lemma_shortcuts_each(list, objects, n - 1);
        lemma_shortcut_object(list[n - 1]);
        assert(objects[n - 1] == shortcut_json(list[n - 1]));
        assert(list.take(n) =~= list.take(n - 1).push(list[n - 1]));
    } else {
        assert(list.take(0) =~= Seq::<ShortcutView>::empty());
    }
}

/// The blanks before an object of the array.
pub open spec fn item_lead() -> Seq<char> {
    seq!['\n', ' ', ' ', ' ', ' ']
}

/// The blanks before the closing bracket of the array.
pub open spec fn array_tail() -> Seq<char> {
    seq!['\n', ' ', ' ']
}

/// What stands between the brackets of the array, the closing line
/// aside.
pub open spec fn array_inner(list: Seq<ShortcutView>) -> Seq<char> {
    if list.len() == 0 {
        item_lead()
    } else {
        joined(array_items(list), list.len() as int)
    }
}

/// The array of plain shortcuts begins and ends with its brackets, and
/// its body is what stands between them.
pub proof fn lemma_array_shape(list: Seq<ShortcutView>)
    requires
        plain_shortcuts(list),
    ensures
        array_text(list).len() >= 2,
        array_text(list)[0] == '[',
        array_text(list).last() == ']',
        array_body(array_text(list)) == array_inner(list) + array_tail(),
        passes(array_text(list), 0),
{
    let text = array_text(list);
    let inner = array_inner(list);
    let n = list.len() as int;
    let items = array_items(list);
    assert(text =~= seq!['['] + (inner + array_tail() + seq![']']));
    assert(text =~= seq!['['] + (inner + array_tail()) + seq![']']);
    assert(text[0] == '[' && text.last() == ']');
    lemma_strip_none(text, CharClass::Space);
    if n > 0 {
        assert(items[0][0] == '\n');
        lemma_joined_starts(items, n);
    }
    assert(inner[0] == '\n');
    let rest = inner + array_tail() + seq![']'];
    assert(rest[0] == inner[0]);
    lemma_strip_start_core(seq!['['], rest, CharClass::Only('['));
    assert((inner + array_tail()).last() == ' ');
    lemma_strip_end_core(inner + array_tail(), seq![']'], CharClass::Only(']'));
    // Inside the brackets everything passes.
    lemma_calm_passes(array_tail(), 1);
    if n == 0 {
        lemma_calm_passes(inner, 1);
    } else {
        assert forall|i: int| 0 <= i < n implies passes(#[trigger] items[i], 1) by {
            lemma_calm_passes(item_lead(), 1);
            lemma_object_passes(list[i], 1);
            lemma_passes_concat(item_lead(), shortcut_json(list[i]), 1);
        }
        lemma_joined_passes(items, n, 1);
    }
    lemma_passes_concat(inner, array_tail(), 1);
    lemma_passes_bracketed('[', inner + array_tail(), ']', 0);
}

/// The array of plain shortcuts is read back as the shortcuts.
pub proof fn lemma_shortcuts_round_trip(list: Seq<ShortcutView>)
    requires
        plain_shortcuts(list),
    ensures
        shortcuts_in(array_text(list)) == list,
{
    lemma_array_shape(list);
    let n = list.len() as int;
    let body = array_inner(list) + array_tail();
    if n == 0 {
        assert forall|i: int| 0 <= i < body.len() implies is_space(#[trigger] body[i]) by {
            if i < 5 {
                assert(body[i] == item_lead()[i]);
            } else {
                assert(body[i] == array_tail()[i - 5]);
            }
        }
        lemma_split_state_over(body, body.len() as int);
        lemma_split_calm(start_state(), body, body.len() as int);
        assert(body.take(body.len() as int) =~= body);
        assert(Seq::<char>::empty() + body =~= body);
        lemma_strip_all(body, CharClass::Space);
        assert(members(body) =~= Seq::<Seq<char>>::empty());
        assert(list =~= Seq::<ShortcutView>::empty());
    } else {
        let items = array_items(list);
        let longer = items.update(n - 1, items.last() + array_tail());
        lemma_joined_tail(items, array_tail());
        assert(body == joined(longer, n));
        assert forall|i: int| 0 <= i < n implies passes(#[trigger] longer[i], 0) && trimmed(
            longer[i],
        ) == shortcut_json(list[i]) by {
            let object = shortcut_json(list[i]);
            lemma_shortcut_object(list[i]);
            lemma_calm_passes(item_lead(), 0);
            lemma_object_passes(list[i], 0);
            lemma_passes_concat(item_lead(), object, 0);
            assert(all_in(item_lead(), CharClass::Space));
            if i == n - 1 {
                lemma_calm_passes(array_tail(), 0);
                lemma_passes_concat(item_lead() + object, array_tail(), 0);
                assert(all_in(array_tail(), CharClass::Space));
                lemma_strip_core(item_lead(), object, array_tail(), CharClass::Space);
            } else {
                lemma_strip_core(item_lead(), object, Seq::empty(), CharClass::Space);
                assert(item_lead() + object + Seq::<char>::empty() =~= item_lead() + object);
            }
        }
        assert(trimmed(longer.last()).len() > 0) by {
            lemma_shortcut_object(list[n - 1]);
        }
        lemma_members_joined(longer);
        let objects = members(body);
        assert(objects =~= Seq::new(list.len(), |i: int| shortcut_json(list[i])));
        lemma_shortcuts_each(list, objects, n);
        assert(list.take(n) =~= list);
    }
}

/// The key `enabled` is a name.
proof fn lemma_key_enabled()
    ensures
        is_name("enabled"@),
        "enabled"@.len() == 7,
        "enabled"@[0] == 'e',
{
    reveal_strlit("enabled");
    assert("enabled"@ =~= seq!['e', 'n', 'a', 'b', 'l', 'e', 'd']);
}

/// The key `method` is a name.
proof fn lemma_key_method()
    ensures
        is_name("method"@),
        "method"@.len() == 6,
        "method"@[0] == 'm',
{
    reveal_strlit("method");
    assert("method"@ =~= seq!['m', 'e', 't', 'h', 'o', 'd']);
}

/// The key `modern_tone` is a name.
proof fn lemma_key_modern_tone()
    ensures
        is_name("modern_tone"@),
        "modern_tone"@.len() == 11,
        "modern_tone"@[0] == 'm',
{
    reveal_strlit("modern_tone");
    assert("modern_tone"@ =~= seq!['m', 'o', 'd', 'e', 'r', 'n', '_', 't', 'o', 'n', 'e']);
}

/// The key `esc_restore` is a name.
proof fn lemma_key_esc_restore()
    ensures
        is_name("esc_restore"@),
        "esc_restore"@.len() == 11,
        "esc_restore"@[0] == 'e',
{
    reveal_strlit("esc_restore");
    assert("esc_restore"@ =~= seq!['e', 's', 'c', '_', 'r', 'e', 's', 't', 'o', 'r', 'e']);
}

/// The key `english_auto_restore` is a name.
proof fn lemma_key_english_auto_restore()
    ensures
        is_name("english_auto_restore"@),
        "english_auto_restore"@.len() == 20,
        "english_auto_restore"@[0] == 'e',
{
    reveal_strlit("english_auto_restore");
    assert("english_auto_restore"@ =~= seq![
        'e', 'n', 'g', 'l', 'i', 's', 'h', '_', 'a', 'u', 't', 'o', '_', 'r', 'e', 's', 't',
        'o', 'r', 'e',
    ]);
}

/// The key `auto_capitalize` is a name.
proof fn lemma_key_auto_capitalize()
    ensures
        is_name("auto_capitalize"@),
        "auto_capitalize"@.len() == 15,
        "auto_capitalize"@[0] == 'a',
{
    reveal_strlit("auto_capitalize");
    assert("auto_capitalize"@ =~= seq![
        'a', 'u', 't', 'o', '_', 'c', 'a', 'p', 'i', 't', 'a', 'l', 'i', 'z', 'e',
    ]);
}

/// The key `free_tone` is a name.
proof fn lemma_key_free_tone()
    ensures
        is_name("free_tone"@),
        "free_tone"@.len() == 9,
        "free_tone"@[0] == 'f',
{
    reveal_strlit("free_tone");
    assert("free_tone"@ =~= seq!['f', 'r', 'e', 'e', '_', 't', 'o', 'n', 'e']);
}

/// The key `skip_w_shortcut` is a name.
proof fn lemma_key_skip_w_shortcut()
    ensures
        is_name("skip_w_shortcut"@),
        "skip_w_shortcut"@.len() == 15,
        "skip_w_shortcut"@[0] == 's',
{
    reveal_strlit("skip_w_shortcut");
    assert("skip_w_shortcut"@ =~= seq![
        's', 'k', 'i', 'p', '_', 'w', '_', 's', 'h', 'o', 'r', 't', 'c', 'u', 't',
    ]);
}

/// The key `bracket_shortcut` is a name.
proof fn lemma_key_bracket_shortcut()
    ensures
        is_name("bracket_shortcut"@),
        "bracket_shortcut"@.len() == 16,
        "bracket_shortcut"@[0] == 'b',
{
    reveal_strlit("bracket_shortcut");
    assert("bracket_shortcut"@ =~= seq![
        'b', 'r', 'a', 'c', 'k', 'e', 't', '_', 's', 'h', 'o', 'r', 't', 'c', 'u', 't',
    ]);
}

/// The key `allow_foreign_consonants` is a name.
proof fn lemma_key_allow_foreign_consonants()
    ensures
        is_name("allow_foreign_consonants"@),
        "allow_foreign_consonants"@.len() == 24,
        "allow_foreign_consonants"@[0] == 'a',
{
    reveal_strlit("allow_foreign_consonants");
    assert("allow_foreign_consonants"@ =~= seq![
        'a', 'l', 'l', 'o', 'w', '_', 'f', 'o', 'r', 'e', 'i', 'g', 'n', '_', 'c', 'o', 'n',
        's', 'o', 'n', 'a', 'n', 't', 's',
    ]);
}

/// The key `shortcuts` is a name.
proof fn lemma_key_shortcuts()
    ensures
        is_name("shortcuts"@),
        "shortcuts"@.len() == 9,
        "shortcuts"@[0] == 's',
{
    reveal_strlit("shortcuts");
    assert("shortcuts"@ =~= seq!['s', 'h', 'o', 'r', 't', 'c', 'u', 't', 's']);
}

/// The keys of the settings object, in the order they are written.
pub open spec fn setting_keys() -> Seq<Seq<char>> {
    seq![
        "enabled"@,
        "method"@,
        "modern_tone"@,
        "esc_restore"@,
        "english_auto_restore"@,
        "auto_capitalize"@,
        "free_tone"@,
        "skip_w_shortcut"@,
        "bracket_shortcut"@,
        "allow_foreign_consonants"@,
        "shortcuts"@,
    ]
}

/// The values of the settings object, in the order they are written.
pub open spec fn setting_values(v: SettingsView) -> Seq<Seq<char>> {
    seq![
        bool_text(v.enabled),
        decimal_u8(v.method),
        bool_text(v.modern_tone),
        bool_text(v.esc_restore),
        bool_text(v.english_auto_restore),
        bool_text(v.auto_capitalize),
        bool_text(v.free_tone),
        bool_text(v.skip_w_shortcut),
        bool_text(v.bracket_shortcut),
        bool_text(v.allow_foreign_consonants),
        array_text(v.shortcuts),
    ]
}

/// The keys of the settings object are names, no two of them the same.
pub proof fn lemma_setting_keys()
    ensures
        forall|i: int| 0 <= i < 11 ==> is_name(#[trigger] setting_keys()[i]),
        forall|i: int, j: int|
            0 <= i < j < 11 ==> #[trigger] setting_keys()[i] != #[trigger] setting_keys()[j],
{
    lemma_key_enabled();
    lemma_key_method();
    lemma_key_modern_tone();
    lemma_key_esc_restore();
    lemma_key_english_auto_restore();
    lemma_key_auto_capitalize();
    lemma_key_free_tone();
    lemma_key_skip_w_shortcut();
    lemma_key_bracket_shortcut();
    lemma_key_allow_foreign_consonants();
    lemma_key_shortcuts();
    let ks = setting_keys();
    assert forall|i: int, j: int| 0 <= i < j < 11 implies #[trigger] ks[i] != #[trigger] ks[j] by {
        assert(ks[i].len() != ks[j].len() || ks[i][0] != ks[j][0]);
    }
}

/// Whether a text can stand as the value of a member on a line of its
/// own: it is not empty, neither begins nor ends with a blank or a
/// quote, and passes outside brackets.
pub open spec fn value_like(value: Seq<char>) -> bool {
    &&& value.len() > 0
    &&& !is_space(value[0]) && value[0] != '"'
    &&& !is_space(value.last()) && value.last() != '"'
    &&& passes(value, 0)
}

/// The notation of a truth value can stand as a value, and is `true`
/// exactly for the value true.
pub proof fn lemma_bool_text(b: bool)
    ensures
        value_like(bool_text(b)),
        (bool_text(b) == "true"@) == b,
{
    reveal_strlit("true");
    reveal_strlit("false");
    assert("true"@ =~= seq!['t', 'r', 'u', 'e']);
    assert("false"@ =~= seq!['f', 'a', 'l', 's', 'e']);
    assert("true"@.len() != "false"@.len());
    lemma_calm_passes(bool_text(b), 0);
}

/// The decimal notation of a number can stand as a value, and is read
/// back as the number.
pub proof fn lemma_decimal(n: u8)
    ensures
        value_like(decimal_u8(n)),
        number_u8(decimal_u8(n)) == n,
{
    let d = decimal_u8(n);
    reveal_with_fuel(digits_value, 4);
    assert forall|i: int| 0 <= i < d.len() implies '0' <= #[trigger] d[i] <= '9' by {
    }
    assert(all_digits(d));
    assert(d[0] != '+');
    lemma_calm_passes(d, 0);
    assert(digits_value(d, d.len() as int) == n);
}

/// The line of a member: the member passes outside brackets, with
/// blanks after it as well, and is read as its key and its value.
pub proof fn lemma_member(key: Seq<char>, value: Seq<char>, more: Seq<char>)
    requires
        is_name(key),
        value_like(value),
        all_in(more, CharClass::Space),
    ensures
        passes(member_text(key, value) + more, 0),
        trimmed(member_text(key, value) + more).len() > 0,
        field_of(trimmed(member_text(key, value) + more)) == Some(FieldView { key, value }),
{
    let lead = seq!['\n', ' ', ' '];
    let head = seq!['\n', ' ', ' ', '"'] + key + seq!['"', ':', ' '];
    let core = seq!['"'] + key + seq!['"', ':'] + seq![' '] + value;
    let line = member_text(key, value);
    assert(line =~= head + value);
    assert(line =~= lead + core);
    assert forall|i: int| 0 <= i < head.len() implies !is_open(#[trigger] head[i]) && !is_close(
        head[i],
    ) && head[i] != ',' by {
        if 4 <= i < 4 + key.len() {
            assert(head[i] == key[i - 4]);
        }
    }
    lemma_calm_passes(head, 0);
    lemma_passes_concat(head, value, 0);
    assert forall|i: int| 0 <= i < more.len() implies !is_open(#[trigger] more[i]) && !is_close(
        more[i],
    ) && more[i] != ',' by {
        assert(is_space(more[i]));
    }
    lemma_calm_passes(more, 0);
    lemma_passes_concat(line, more, 0);
    assert(core[0] == '"');
    assert(core.last() == value.last());
    assert(all_in(lead, CharClass::Space));
    lemma_strip_core(lead, core, more, CharClass::Space);
    assert(line + more =~= lead + core + more);
    assert(key_like(key));
    assert(all_in(seq![' '], CharClass::Space));
    lemma_field_of(key, seq![' '], value);
    lemma_bare_value(seq![' '], value);
}

/// Members that are all fields give their fields in order.
pub proof fn lemma_fields_all(list: Seq<Seq<char>>, fs: Seq<FieldView>, n: int)
    requires
        0 <= n <= list.len(),
        n <= fs.len(),
        forall|i: int| 0 <= i < n ==> field_of(#[trigger] list[i]) == Some(fs[i]),
    ensures
        fields_upto(list, n) == fs.take(n),
    decreases n,
{
    if n > 0 {
        lemma_fields_all(list, fs, n - 1);
        assert(field_of(list[n - 1]) == Some(fs[n - 1]));
        assert(fs.take(n) =~= fs.take(n - 1).push(fs[n - 1]));
    } else {
        assert(fs.take(0) =~= Seq::<FieldView>::empty());
    }
}

/// The value of a key is that of its field when no later field has the
/// key.
pub proof fn lemma_lookup_at(fs: Seq<FieldView>, key: Seq<char>, j: int, n: int)
    requires
        0 <= j < n <= fs.len(),
        fs[j].key == key,
        forall|i: int| j < i < fs.len() ==> (#[trigger] fs[i]).key != key,
    ensures
        lookup_upto(fs, key, n) == Some(fs[j].value),
    decreases n,
{
    if n - 1 > j {
        assert(fs[n - 1].key != key);
        lemma_lookup_at(fs, key, j, n - 1);
    }
}

/// The fields of the written settings: each key with its value, in the
/// order they are written.
pub open spec fn written_fields(v: SettingsView) -> Seq<FieldView> {
    Seq::new(11, |i: int| FieldView { key: setting_keys()[i], value: setting_values(v)[i] })
}

/// The reader finds in the written settings each key with its value.
pub proof fn lemma_written_fields(v: SettingsView)
    requires
        plain_shortcuts(v.shortcuts),
    ensures
        object_fields(settings_json(v)) == written_fields(v),
{
    let ks = setting_keys();
    let vs = setting_values(v);
    let ms = settings_members(v);
    let text = settings_json(v);
    let body = joined(ms, 11);
    let nl = seq!['\n'];
    lemma_setting_keys();
    lemma_array_shape(v.shortcuts);
    lemma_decimal(v.method);
    lemma_bool_text(true);
    lemma_bool_text(false);
    assert forall|i: int| 0 <= i < 11 implies value_like(#[trigger] vs[i]) && ms[i] == member_text(
        ks[i],
        vs[i],
    ) by {
    }
    // The braces go, the members and the last line break stay.
    assert(text =~= seq!['{'] + (body + nl + seq!['}']));
    assert(text[0] == '{' && text.last() == '}');
    lemma_strip_none(text, CharClass::Space);
    assert(ms[0][0] == '\n');
    lemma_joined_starts(ms, 11);
    assert((body + nl + seq!['}'])[0] == body[0]);
    lemma_strip_start_core(seq!['{'], body + nl + seq!['}'], CharClass::Only('{'));
    assert((body + nl).last() == '\n');
    lemma_strip_end_core(body + nl, seq!['}'], CharClass::Only('}'));
    assert(object_body(text) == body + nl);
    // The members are the lines, the last with the line break.
    let longer = ms.update(10, ms[10] + nl);
    assert(ms.last() == ms[10]);
    lemma_joined_tail(ms, nl);
    assert(body + nl == joined(longer, 11));
    assert(all_in(nl, CharClass::Space));
    assert(all_in(Seq::<char>::empty(), CharClass::Space));
    assert forall|i: int| 0 <= i < 11 implies passes(#[trigger] longer[i], 0) && trimmed(
        longer[i],
    ).len() > 0 && field_of(trimmed(longer[i])) == Some(written_fields(v)[i]) by {
        if i == 10 {
            lemma_member(ks[i], vs[i], nl);
        } else {
            lemma_member(ks[i], vs[i], Seq::empty());
            assert(ms[i] + Seq::<char>::empty() =~= ms[i]);
        }
    }
    assert(longer.last() == longer[10]);
    lemma_members_joined(longer);
    let list = members(body + nl);
    assert(list.len() == 11);
    assert forall|i: int| 0 <= i < 11 implies field_of(#[trigger] list[i]) == Some(
        written_fields(v)[i],
    ) by {
        assert(list[i] == trimmed(longer[i]));
    }
    lemma_fields_all(list, written_fields(v), 11);
    assert(written_fields(v).take(11) =~= written_fields(v));
}

/// Written settings are read back as they were: every switch, the
/// method and, where the triggers and replacements are plain texts, the
/// shortcuts in their order.
pub proof fn lemma_settings_round_trip(v: SettingsView)
    requires
        plain_shortcuts(v.shortcuts),
    ensures
        parsed_settings(settings_json(v)) == v,
{
    lemma_written_fields(v);
    lemma_setting_keys();
    let fs = written_fields(v);
    let ks = setting_keys();
    let vs = setting_values(v);
    assert forall|j: int| 0 <= j < 11 implies lookup(fs, #[trigger] ks[j]) == Some(vs[j]) by {
        assert forall|i: int| j < i < fs.len() implies (#[trigger] fs[i]).key != ks[j] by {
            assert(ks[j] != ks[i]);
        }
        lemma_lookup_at(fs, ks[j], j, 11);
    }
    lemma_bool_text(v.enabled);
    lemma_bool_text(v.modern_tone);
    lemma_bool_text(v.esc_restore);
    lemma_bool_text(v.english_auto_restore);
    lemma_bool_text(v.auto_capitalize);
    lemma_bool_text(v.free_tone);
    lemma_bool_text(v.skip_w_shortcut);
    lemma_bool_text(v.bracket_shortcut);
    lemma_bool_text(v.allow_foreign_consonants);
    lemma_decimal(v.method);
    lemma_shortcuts_round_trip(v.shortcuts);
    assert(lookup(fs, ks[0]) == Some(vs[0]));
    assert(lookup(fs, ks[1]) == Some(vs[1]));
    assert(lookup(fs, ks[2]) == Some(vs[2]));
    assert(lookup(fs, ks[3]) == Some(vs[3]));
    assert(lookup(fs, ks[4]) == Some(vs[4]));
    assert(lookup(fs, ks[5]) == Some(vs[5]));
    assert(lookup(fs, ks[6]) == Some(vs[6]));
    assert(lookup(fs, ks[7]) == Some(vs[7]));
    assert(lookup(fs, ks[8]) == Some(vs[8]));
    assert(lookup(fs, ks[9]) == Some(vs[9]));
    assert(lookup(fs, ks[10]) == Some(vs[10]));
    let r = parsed_settings(settings_json(v));
    assert(r.enabled == v.enabled);
    assert(r.method == v.method);
    assert(r.shortcuts == v.shortcuts);
}

} // verus!
