//! The settings file format: a lenient reader and writer for flat JSON
//! objects, working on characters.

use crate::utils::{chars_of, string_from_chars};
use vstd::prelude::*;

verus! {

/// A set of characters that can be trimmed from a text.
#[derive(Debug, Clone, Copy)]
pub enum CharClass {
    /// White space.
    Space,
    /// One given character.
    Only(char),
}

/// White space: the characters with the Unicode property `White_Space`.
pub open spec fn is_space(c: char) -> bool {
    ||| '\u{9}' <= c <= '\u{D}'
    ||| c == ' '
    ||| c == '\u{85}'
    ||| c == '\u{A0}'
    ||| c == '\u{1680}'
    ||| '\u{2000}' <= c <= '\u{200A}'
    ||| c == '\u{2028}'
    ||| c == '\u{2029}'
    ||| c == '\u{202F}'
    ||| c == '\u{205F}'
    ||| c == '\u{3000}'
}

impl CharClass {
    pub open spec fn has(self, c: char) -> bool {
        match self {
            CharClass::Space => is_space(c),
            CharClass::Only(wanted) => c == wanted,
        }
    }

    fn test(self, c: char) -> (b: bool)
        ensures
            b == self.has(c),
    {
        match self {
            CharClass::Space => ('\u{9}' <= c && c <= '\u{D}') || c == ' ' || c == '\u{85}' || c
                == '\u{A0}' || c == '\u{1680}' || ('\u{2000}' <= c && c <= '\u{200A}') || c
                == '\u{2028}' || c == '\u{2029}' || c == '\u{202F}' || c == '\u{205F}' || c
                == '\u{3000}',
            CharClass::Only(wanted) => c == wanted,
        }
    }
}

/// The first index at or after `from` whose character is outside the
/// class, or the length of the text.
pub open spec fn lead(s: Seq<char>, class: CharClass, from: int) -> int
    decreases s.len() - from,
{
    if from >= s.len() {
        s.len() as int
    } else if !class.has(s[from]) {
        from
    } else {
        lead(s, class, from + 1)
    }
}

/// The least index `m` such that the characters from `m` up to `n` are
/// all in the class.
pub open spec fn tail(s: Seq<char>, class: CharClass, n: int) -> int
    decreases n,
{
    if n <= 0 {
        0
    } else if !class.has(s[n - 1]) {
        n
    } else {
        tail(s, class, n - 1)
    }
}

/// The text without its leading characters of the class.
pub open spec fn strip_start(s: Seq<char>, class: CharClass) -> Seq<char> {
    s.subrange(lead(s, class, 0), s.len() as int)
}

/// The text without its trailing characters of the class.
pub open spec fn strip_end(s: Seq<char>, class: CharClass) -> Seq<char> {
    s.subrange(0, tail(s, class, s.len() as int))
}

/// The text without its leading and trailing characters of the class.
pub open spec fn strip(s: Seq<char>, class: CharClass) -> Seq<char> {
    strip_end(strip_start(s, class), class)
}

/// The text without surrounding white space.
pub open spec fn trimmed(s: Seq<char>) -> Seq<char> {
    strip(s, CharClass::Space)
}

/// The first index at or after `from` that holds `c`, or the length.
pub open spec fn index_of(s: Seq<char>, c: char, from: int) -> int
    decreases s.len() - from,
{
    if from >= s.len() {
        s.len() as int
    } else if s[from] == c {
        from
    } else {
        index_of(s, c, from + 1)
    }
}

pub proof fn lemma_index_of(s: Seq<char>, c: char, from: int)
    requires
        0 <= from <= s.len(),
    ensures
        from <= index_of(s, c, from) <= s.len(),
        index_of(s, c, from) < s.len() ==> s[index_of(s, c, from)] == c,
        forall|i: int| from <= i < index_of(s, c, from) ==> s[i] != c,
    decreases s.len() - from,
{
    if from < s.len() && s[from] != c {
        lemma_index_of(s, c, from + 1);
    }
}

/// One `key: value` member of an object.
#[derive(Debug, Clone)]
pub struct Field {
    pub key: Vec<char>,
    pub value: Vec<char>,
}

/// Mathematical model of a [`Field`].
pub struct FieldView {
    pub key: Seq<char>,
    pub value: Seq<char>,
}

impl View for Field {
    type V = FieldView;

    open spec fn view(&self) -> FieldView {
        FieldView { key: self.key@, value: self.value@ }
    }
}

/// The views of a list of texts.
pub open spec fn texts(list: Seq<Vec<char>>) -> Seq<Seq<char>> {
    Seq::new(list.len(), |i: int| list[i]@)
}

/// The views of a list of fields.
pub open spec fn fields(list: Seq<Field>) -> Seq<FieldView> {
    Seq::new(list.len(), |i: int| list[i]@)
}

/// State of the scan that cuts an object body into members: the members
/// cut so far, the member being read, and the bracket depth.
pub struct SplitState {
    pub done: Seq<Seq<char>>,
    pub current: Seq<char>,
    pub depth: int,
}

/// One step of the scan. An opening bracket or brace goes one level
/// deeper and a closing one comes back; a comma at depth 0 ends the
/// member, which is trimmed; every other character joins the member.
pub open spec fn split_step(st: SplitState, c: char) -> SplitState {
    if c == '{' || c == '[' {
        SplitState { done: st.done, current: st.current.push(c), depth: st.depth + 1 }
    } else if c == '}' || c == ']' {
        SplitState { done: st.done, current: st.current.push(c), depth: st.depth - 1 }
    } else if c == ',' && st.depth == 0 {
        SplitState {
            done: st.done.push(trimmed(st.current)),
            current: Seq::empty(),
            depth: st.depth,
        }
    } else {
        SplitState { done: st.done, current: st.current.push(c), depth: st.depth }
    }
}

/// The scan state after the first `n` characters.
pub open spec fn split_state(s: Seq<char>, n: int) -> SplitState
    decreases n,
{
    if n <= 0 {
        SplitState { done: Seq::empty(), current: Seq::empty(), depth: 0 }
    } else {
        split_step(split_state(s, n - 1), s[n - 1])
    }
}

/// The members of an object body: the text cut at the commas outside
/// brackets, each piece trimmed, a blank last piece dropped.
pub open spec fn members(s: Seq<char>) -> Seq<Seq<char>> {
    let st = split_state(s, s.len() as int);
    if trimmed(st.current).len() > 0 {
        st.done.push(trimmed(st.current))
    } else {
        st.done
    }
}

/// The field a member stands for: the text before its first colon is the
/// key, the text after it the value, each trimmed and freed of
/// surrounding double quotes. A member without a colon is no field.
pub open spec fn field_of(member: Seq<char>) -> Option<FieldView> {
    let colon = index_of(member, ':', 0);
    if colon < member.len() {
        Some(
            FieldView {
                key: strip(trimmed(member.subrange(0, colon)), CharClass::Only('"')),
                value: strip(
                    trimmed(member.subrange(colon + 1, member.len() as int)),
                    CharClass::Only('"'),
                ),
            },
        )
    } else {
        None
    }
}

/// The fields of the first `n` members.
pub open spec fn fields_upto(list: Seq<Seq<char>>, n: int) -> Seq<FieldView>
    decreases n,
{
    if n <= 0 {
        Seq::empty()
    } else {
        match field_of(list[n - 1]) {
            Some(field) => fields_upto(list, n - 1).push(field),
            None => fields_upto(list, n - 1),
        }
    }
}

/// The body of an object text: trimmed, then without the braces at its
/// ends.
pub open spec fn object_body(text: Seq<char>) -> Seq<char> {
    strip_end(strip_start(trimmed(text), CharClass::Only('{')), CharClass::Only('}'))
}

/// The fields of an object text, in the order they are written.
pub open spec fn object_fields(text: Seq<char>) -> Seq<FieldView> {
    let list = members(object_body(text));
    fields_upto(list, list.len() as int)
}

/// The value of the last of the first `n` fields with the given key.
pub open spec fn lookup_upto(list: Seq<FieldView>, key: Seq<char>, n: int) -> Option<Seq<char>>
    decreases n,
{
    if n <= 0 {
        None
    } else if list[n - 1].key == key {
        Some(list[n - 1].value)
    } else {
        lookup_upto(list, key, n - 1)
    }
}

/// The value of a key: that of the last field with the key, since a
/// later field replaces an earlier one.
pub open spec fn lookup(list: Seq<FieldView>, key: Seq<char>) -> Option<Seq<char>> {
    lookup_upto(list, key, list.len() as int)
}

/// The first `n` texts joined by commas.
pub open spec fn joined(items: Seq<Seq<char>>, n: int) -> Seq<char>
    decreases n,
{
    if n <= 0 {
        Seq::empty()
    } else if n == 1 {
        items[0]
    } else {
        joined(items, n - 1) + seq![','] + items[n - 1]
    }
}

/// The text from `from` on with every `c` replaced by the two
/// characters `a`, `b`.
pub open spec fn expanded_from(s: Seq<char>, c: char, a: char, b: char, from: int) -> Seq<char>
    decreases s.len() - from,
{
    if from < 0 || from >= s.len() {
        Seq::empty()
    } else if s[from] == c {
        seq![a, b] + expanded_from(s, c, a, b, from + 1)
    } else {
        seq![s[from]] + expanded_from(s, c, a, b, from + 1)
    }
}

/// The text with every `c` replaced by the two characters `a`, `b`.
pub open spec fn expanded(s: Seq<char>, c: char, a: char, b: char) -> Seq<char> {
    expanded_from(s, c, a, b, 0)
}

/// The text from `from` on with every pair `a`, `b` replaced by `c`,
/// the pairs taken from left to right without overlap.
pub open spec fn contracted_from(s: Seq<char>, a: char, b: char, c: char, from: int) -> Seq<char>
    decreases s.len() - from,
{
    if from < 0 || from >= s.len() {
        Seq::empty()
    } else if from + 1 < s.len() && s[from] == a && s[from + 1] == b {
        seq![c] + contracted_from(s, a, b, c, from + 2)
    } else {
        seq![s[from]] + contracted_from(s, a, b, c, from + 1)
    }
}

/// The text with every pair `a`, `b` replaced by `c`.
pub open spec fn contracted(s: Seq<char>, a: char, b: char, c: char) -> Seq<char> {
    contracted_from(s, a, b, c, 0)
}

/// The text escaped for a JSON string: backslashes first, then double
/// quotes, line feeds, carriage returns and tabs.
pub open spec fn escaped(s: Seq<char>) -> Seq<char> {
    expanded(
        expanded(
            expanded(expanded(expanded(s, '\\', '\\', '\\'), '"', '\\', '"'), '\n', '\\', 'n'),
            '\r',
            '\\',
            'r',
        ),
        '\t',
        '\\',
        't',
    )
}

/// The text with its escapes undone, one kind after the other: quotes
/// first, then backslashes, line feeds, carriage returns and tabs.
pub open spec fn unescaped(s: Seq<char>) -> Seq<char> {
    contracted(
        contracted(
            contracted(
                contracted(contracted(s, '\\', '"', '"'), '\\', '\\', '\\'),
                '\\',
                'n',
                '\n',
            ),
            '\\',
            'r',
            '\r',
        ),
        '\\',
        't',
        '\t',
    )
}

/// A copy of the characters from `from` up to `to`.
pub fn slice_of(v: &Vec<char>, from: usize, to: usize) -> (out: Vec<char>)
    requires
        from <= to <= v@.len(),
    ensures
        out@ == v@.subrange(from as int, to as int),
{
    let mut out: Vec<char> = Vec::new();
    let mut i: usize = from;
    while i < to
        invariant
            from <= i <= to <= v@.len(),
            out@ == v@.subrange(from as int, i as int),
        decreases to - i,
    {
        out.push(v[i]);
        assert(out@ =~= v@.subrange(from as int, i + 1));
        i += 1;
    }
    assert(out@ =~= v@.subrange(from as int, to as int));
    out
}

/// Appends the characters of `more` to `out`.
pub fn append(out: &mut Vec<char>, more: &Vec<char>)
    ensures
        final(out)@ == old(out)@ + more@,
{
    let mut i: usize = 0;
    while i < more.len()
        invariant
            i <= more.len(),
            out@ == old(out)@ + more@.subrange(0, i as int),
        decreases more.len() - i,
    {
        out.push(more[i]);
        assert(out@ =~= old(out)@ + more@.subrange(0, i + 1));
        i += 1;
    }
    assert(out@ =~= old(out)@ + more@);
}

/// Appends the characters of a string slice to `out`.
pub fn append_str(out: &mut Vec<char>, more: &str)
    ensures
        final(out)@ == old(out)@ + more@,
{
    let chars = chars_of(more);
    append(out, &chars);
}

/// Whether a text is the given string.
pub fn same_text(text: &Vec<char>, wanted: &str) -> (b: bool)
    ensures
        b == (text@ == wanted@),
{
    let other = chars_of(wanted);
    if text.len() != other.len() {
        return false;
    }
    let mut i: usize = 0;
    while i < text.len()
        invariant
            i <= text.len(),
            text@.len() == other@.len(),
            other@ == wanted@,
            forall|j: int| 0 <= j < i ==> text@[j] == other@[j],
        decreases text.len() - i,
    {
        if text[i] != other[i] {
            assert(text@[i as int] != wanted@[i as int]);
            return false;
        }
        i += 1;
    }
    assert(text@ =~= other@);
    true
}

/// The text without its leading characters of the class.
pub fn trim_start_of(v: &Vec<char>, class: CharClass) -> (out: Vec<char>)
    ensures
        out@ == strip_start(v@, class),
{
    let len = v.len();
    let mut i: usize = 0;
    while i < len && class.test(v[i])
        invariant
            i <= len,
            len == v@.len(),
            lead(v@, class, 0) == lead(v@, class, i as int),
        decreases len - i,
    {
        i += 1;
    }
    slice_of(v, i, len)
}

/// The text without its trailing characters of the class.
pub fn trim_end_of(v: &Vec<char>, class: CharClass) -> (out: Vec<char>)
    ensures
        out@ == strip_end(v@, class),
{
    let len = v.len();
    let mut n: usize = len;
    while n > 0 && class.test(v[n - 1])
        invariant
            n <= len,
            len == v@.len(),
            tail(v@, class, len as int) == tail(v@, class, n as int),
        decreases n,
    {
        n -= 1;
    }
    slice_of(v, 0, n)
}

/// The text without its leading and trailing characters of the class.
pub fn trim_of(v: &Vec<char>, class: CharClass) -> (out: Vec<char>)
    ensures
        out@ == strip(v@, class),
{
    let start = trim_start_of(v, class);
    trim_end_of(&start, class)
}

/// The first index that holds `c`.
pub fn find_char(v: &Vec<char>, c: char) -> (r: Option<usize>)
    ensures
        match r {
            Some(i) => i < v@.len() && i == index_of(v@, c, 0),
            None => index_of(v@, c, 0) == v@.len(),
        },
{
    let len = v.len();
    let mut i: usize = 0;
    while i < len
        invariant
            i <= len,
            len == v@.len(),
            index_of(v@, c, 0) == index_of(v@, c, i as int),
        decreases len - i,
    {
        if v[i] == c {
            return Some(i);
        }
        i += 1;
    }
    None
}

/// Cuts an object body into its members.
pub fn split_members(body: &Vec<char>) -> (list: Vec<Vec<char>>)
    ensures
        texts(list@) == members(body@),
{
    let mut list: Vec<Vec<char>> = Vec::new();
    let mut current: Vec<char> = Vec::new();
    // The depth moves by one per character, so it stays within the
    // number of characters read.
    let mut depth: i128 = 0;
    let len = body.len();
    let mut i: usize = 0;
    while i < len
        invariant
            i <= len,
            len == body@.len(),
            -(i as int) <= depth <= i as int,
            texts(list@) == split_state(body@, i as int).done,
            current@ == split_state(body@, i as int).current,
            depth == split_state(body@, i as int).depth,
        decreases len - i,
    {
        let c = body[i];
        let ghost before = texts(list@);
        if c == '{' || c == '[' {
            depth = depth + 1;
            current.push(c);
        } else if c == '}' || c == ']' {
            depth = depth - 1;
            current.push(c);
        } else if c == ',' && depth == 0 {
            let piece = trim_of(&current, CharClass::Space);
            list.push(piece);
            current = Vec::new();
            assert(texts(list@) =~= before.push(piece@));
        } else {
            current.push(c);
        }
        i += 1;
    }
    let piece = trim_of(&current, CharClass::Space);
    if piece.len() != 0 {
        let ghost before = texts(list@);
        list.push(piece);
        assert(texts(list@) =~= before.push(piece@));
    }
    list
}

/// Reads one member as a field.
fn parse_member(member: &Vec<char>) -> (r: Option<Field>)
    ensures
        match r {
            Some(field) => field_of(member@) == Some(field@),
            None => field_of(member@) is None,
        },
{
    match find_char(member, ':') {
        Some(colon) => {
            let len = member.len();
            let raw_key = slice_of(member, 0, colon);
            let raw_value = slice_of(member, colon + 1, len);
            let key = trim_of(&trim_of(&raw_key, CharClass::Space), CharClass::Only('"'));
            let value = trim_of(&trim_of(&raw_value, CharClass::Space), CharClass::Only('"'));
            Some(Field { key, value })
        },
        None => None,
    }
}

/// Reads the fields of an object given as characters.
pub fn parse_object_chars(text: &Vec<char>) -> (list: Vec<Field>)
    ensures
        fields(list@) == object_fields(text@),
{
    let whole = trim_of(text, CharClass::Space);
    let opened = trim_start_of(&whole, CharClass::Only('{'));
    let body = trim_end_of(&opened, CharClass::Only('}'));
    let pairs = split_members(&body);
    let ghost ms = members(body@);
    let mut list: Vec<Field> = Vec::new();
    let mut i: usize = 0;
    while i < pairs.len()
        invariant
            i <= pairs.len(),
            texts(pairs@) == ms,
            fields(list@) == fields_upto(ms, i as int),
        decreases pairs.len() - i,
    {
        assert(texts(pairs@)[i as int] == pairs@[i as int]@);
        let ghost before = fields(list@);
        match parse_member(&pairs[i]) {
            Some(field) => {
                list.push(field);
                assert(fields(list@) =~= before.push(field@));
            },
            None => {},
        }
        i += 1;
    }
    assert(ms.len() == pairs@.len());
    list
}

/// A flat JSON object: its fields in the order they were written.
#[derive(Debug)]
pub struct JsonObject {
    pub entries: Vec<Field>,
}

impl View for JsonObject {
    type V = Seq<FieldView>;

    open spec fn view(&self) -> Seq<FieldView> {
        fields(self.entries@)
    }
}

impl JsonObject {
    /// The value of a key, as characters.
    pub fn get_chars(&self, key: &str) -> (r: Option<&Vec<char>>)
        ensures
            match r {
                Some(value) => lookup(self@, key@) == Some(value@),
                None => lookup(self@, key@) is None,
            },
    {
        let mut n: usize = self.entries.len();
        while n > 0
            invariant
                n <= self.entries.len(),
                lookup(self@, key@) == lookup_upto(self@, key@, n as int),
            decreases n,
        {
            assert(self@[n - 1] == self.entries@[n - 1]@);
            if same_text(&self.entries[n - 1].key, key) {
                return Some(&self.entries[n - 1].value);
            }
            n -= 1;
        }
        None
    }

    /// The value of a key.
    pub fn get(&self, key: &str) -> (r: Option<String>)
        ensures
            match r {
                Some(value) => lookup(self@, key@) == Some(value@),
                None => lookup(self@, key@) is None,
            },
    {
        match self.get_chars(key) {
            Some(value) => Some(string_from_chars(value)),
            None => None,
        }
    }
}

/// Reads a flat JSON object into its fields.
///
/// The reader is lenient: it cuts the text between the outer braces at
/// the commas outside brackets and each piece at its first colon. It
/// accepts every text.
pub fn parse_json_object(json: &str) -> (r: Option<JsonObject>)
    ensures
        r matches Some(object) && object@ == object_fields(json@),
{
    let text = chars_of(json);
    Some(JsonObject { entries: parse_object_chars(&text) })
}

/// Replaces every `c` by the two characters `a`, `b`.
fn expand(v: &Vec<char>, c: char, a: char, b: char) -> (out: Vec<char>)
    ensures
        out@ == expanded(v@, c, a, b),
{
    let mut out: Vec<char> = Vec::new();
    let len = v.len();
    let mut i: usize = 0;
    while i < len
        invariant
            i <= len,
            len == v@.len(),
            out@ + expanded_from(v@, c, a, b, i as int) == expanded(v@, c, a, b),
        decreases len - i,
    {
        let ghost before = out@;
        let ghost rest = expanded_from(v@, c, a, b, i + 1);
        if v[i] == c {
            out.push(a);
            out.push(b);
            assert(out@ + rest =~= before + (seq![a, b] + rest));
        } else {
            out.push(v[i]);
            assert(out@ + rest =~= before + (seq![v@[i as int]] + rest));
        }
        i += 1;
    }
    assert(out@ =~= out@ + expanded_from(v@, c, a, b, len as int));
    out
}

/// Replaces every pair `a`, `b` by `c`, from left to right.
fn contract(v: &Vec<char>, a: char, b: char, c: char) -> (out: Vec<char>)
    ensures
        out@ == contracted(v@, a, b, c),
{
    let mut out: Vec<char> = Vec::new();
    let len = v.len();
    let mut i: usize = 0;
    while i < len
        invariant
            i <= len,
            len == v@.len(),
            out@ + contracted_from(v@, a, b, c, i as int) == contracted(v@, a, b, c),
        decreases len - i,
    {
        let ghost before = out@;
        if i + 1 < len && v[i] == a && v[i + 1] == b {
            let ghost rest = contracted_from(v@, a, b, c, i + 2);
            out.push(c);
            assert(out@ + rest =~= before + (seq![c] + rest));
            i += 2;
        } else {
            let ghost rest = contracted_from(v@, a, b, c, i + 1);
            out.push(v[i]);
            assert(out@ + rest =~= before + (seq![v@[i as int]] + rest));
            i += 1;
        }
    }
    assert(out@ =~= out@ + contracted_from(v@, a, b, c, len as int));
    out
}

/// Escapes characters for a JSON string.
pub fn escape_chars(v: &Vec<char>) -> (out: Vec<char>)
    ensures
        out@ == escaped(v@),
{
    let a = expand(v, '\\', '\\', '\\');
    let b = expand(&a, '"', '\\', '"');
    let c = expand(&b, '\n', '\\', 'n');
    let d = expand(&c, '\r', '\\', 'r');
    expand(&d, '\t', '\\', 't')
}

/// Undoes the escapes of a JSON string.
pub fn unescape_chars(v: &Vec<char>) -> (out: Vec<char>)
    ensures
        out@ == unescaped(v@),
{
    let a = contract(v, '\\', '"', '"');
    let b = contract(&a, '\\', '\\', '\\');
    let c = contract(&b, '\\', 'n', '\n');
    let d = contract(&c, '\\', 'r', '\r');
    contract(&d, '\\', 't', '\t')
}

/// Escapes a string for JSON.
pub fn escape_json(s: &str) -> (out: String)
    ensures
        out@ == escaped(s@),
{
    string_from_chars(&escape_chars(&chars_of(s)))
}

/// Undoes the escapes of a JSON string.
pub fn unescape_json(s: &str) -> (out: String)
    ensures
        out@ == unescaped(s@),
{
    string_from_chars(&unescape_chars(&chars_of(s)))
}

} // verus!
