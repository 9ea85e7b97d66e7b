//! Engine settings and their persisted form.

pub mod json;
pub mod laws;

use crate::engine::ime::Engine;
use crate::engine::model::{reconfigured, shortcut_added, Config, EngineView};
use crate::settings::json::{
    append, append_str, escape_chars, escaped, joined, lookup, members, object_fields,
    parse_object_chars, same_text, split_members, strip_end, strip_start, texts, trim_end_of,
    trim_of, trim_start_of, trimmed, unescape_chars, unescaped, CharClass, FieldView, JsonObject,
};
use crate::utils::{chars_of, string_from_chars};
use vstd::prelude::*;

verus! {

/// Text shortcut: a trigger and the text that replaces it.
#[derive(Clone, Debug)]
pub struct Shortcut {
    pub trigger: String,
    pub replacement: String,
}

/// Mathematical model of a [`Shortcut`].
pub struct ShortcutView {
    pub trigger: Seq<char>,
    pub replacement: Seq<char>,
}

impl View for Shortcut {
    type V = ShortcutView;

    open spec fn view(&self) -> ShortcutView {
        ShortcutView { trigger: self.trigger@, replacement: self.replacement@ }
    }
}

/// The settings of the engine.
#[derive(Clone, Debug)]
pub struct Settings {
    pub enabled: bool,
    /// 0 = Telex, 1 = VNI.
    pub method: u8,
    pub modern_tone: bool,
    pub esc_restore: bool,
    pub english_auto_restore: bool,
    pub auto_capitalize: bool,
    pub free_tone: bool,
    pub skip_w_shortcut: bool,
    pub bracket_shortcut: bool,
    pub allow_foreign_consonants: bool,
    pub shortcuts: Vec<Shortcut>,
}

/// Mathematical model of [`Settings`].
pub struct SettingsView {
    pub enabled: bool,
    pub method: u8,
    pub modern_tone: bool,
    pub esc_restore: bool,
    pub english_auto_restore: bool,
    pub auto_capitalize: bool,
    pub free_tone: bool,
    pub skip_w_shortcut: bool,
    pub bracket_shortcut: bool,
    pub allow_foreign_consonants: bool,
    pub shortcuts: Seq<ShortcutView>,
}

/// The views of a list of shortcuts.
pub open spec fn shortcut_views(list: Seq<Shortcut>) -> Seq<ShortcutView> {
    Seq::new(list.len(), |i: int| list[i]@)
}

impl View for Settings {
    type V = SettingsView;

    open spec fn view(&self) -> SettingsView {
        SettingsView {
            enabled: self.enabled,
            method: self.method,
            modern_tone: self.modern_tone,
            esc_restore: self.esc_restore,
            english_auto_restore: self.english_auto_restore,
            auto_capitalize: self.auto_capitalize,
            free_tone: self.free_tone,
            skip_w_shortcut: self.skip_w_shortcut,
            bracket_shortcut: self.bracket_shortcut,
            allow_foreign_consonants: self.allow_foreign_consonants,
            shortcuts: shortcut_views(self.shortcuts@),
        }
    }
}

/// The shortcut with the given trigger and replacement.
pub open spec fn shortcut(trigger: Seq<char>, replacement: Seq<char>) -> ShortcutView {
    ShortcutView { trigger, replacement }
}

/// The settings of a fresh installation: Telex, enabled, modern tone
/// placement, ESC restore and English auto-restore on, everything else
/// off, and six shortcuts.
pub open spec fn default_settings() -> SettingsView {
    SettingsView {
        enabled: true,
        method: 0,
        modern_tone: true,
        esc_restore: true,
        english_auto_restore: true,
        auto_capitalize: false,
        free_tone: false,
        skip_w_shortcut: false,
        bracket_shortcut: false,
        allow_foreign_consonants: false,
        shortcuts: seq![
            shortcut("vn"@, "Việt Nam"@),
            shortcut("hn"@, "Hà Nội"@),
            shortcut("hcm"@, "Hồ Chí Minh"@),
            shortcut("->"@, "→"@),
            shortcut("=>"@, "⇒"@),
            shortcut(":)"@, "😊"@),
        ],
    }
}

/// Value of a decimal digit character, 0 for any other character.
pub open spec fn digit_value(c: char) -> nat {
    if '0' <= c <= '9' {
        (c as nat - '0' as nat) as nat
    } else {
        0
    }
}

/// Whether every character is a decimal digit.
pub open spec fn all_digits(s: Seq<char>) -> bool {
    forall|i: int| 0 <= i < s.len() ==> '0' <= #[trigger] s[i] <= '9'
}

/// The number the first `n` digits write.
pub open spec fn digits_value(s: Seq<char>, n: int) -> nat
    decreases n,
{
    if n <= 0 {
        0
    } else {
        digits_value(s, n - 1) * 10 + digit_value(s[n - 1])
    }
}

/// The number a text writes, or 0 when it writes none that fits: digits
/// after an optional plus sign, with a value of at most 255.
pub open spec fn number_u8(s: Seq<char>) -> u8 {
    let digits = if s.len() > 0 && s[0] == '+' {
        s.subrange(1, s.len() as int)
    } else {
        s
    };
    if digits.len() > 0 && all_digits(digits) && digits_value(digits, digits.len() as int) <= 255 {
        digits_value(digits, digits.len() as int) as u8
    } else {
        0
    }
}

/// The digit character of a value below ten.
pub open spec fn digit_char(d: int) -> char {
    (48 + d) as u8 as char
}

/// The decimal notation of a number.
pub open spec fn decimal_u8(n: u8) -> Seq<char> {
    if n >= 100 {
        seq![
            digit_char(n as int / 100),
            digit_char((n as int / 10) % 10),
            digit_char(n as int % 10),
        ]
    } else if n >= 10 {
        seq![digit_char(n as int / 10), digit_char(n as int % 10)]
    } else {
        seq![digit_char(n as int)]
    }
}

/// The notation of a truth value.
pub open spec fn bool_text(b: bool) -> Seq<char> {
    if b {
        "true"@
    } else {
        "false"@
    }
}

/// A member of an object the way it is written on a line of its own:
/// a line break, two blanks, the key in quotes, a colon, a blank, and
/// the value.
pub open spec fn member_text(key: Seq<char>, value: Seq<char>) -> Seq<char> {
    seq!['\n', ' ', ' ', '"'] + key + seq!['"', ':', ' '] + value
}

/// A member of an object the way it is written inside a line: the key
/// in quotes, a colon, and the text in quotes.
pub open spec fn quoted_member(key: Seq<char>, text: Seq<char>) -> Seq<char> {
    seq!['"'] + key + seq!['"', ':', '"'] + text + seq!['"']
}

/// The two members of the object of a shortcut.
pub open spec fn shortcut_members(s: ShortcutView) -> Seq<Seq<char>> {
    seq![
        quoted_member("trigger"@, escaped(s.trigger)),
        quoted_member("replacement"@, escaped(s.replacement)),
    ]
}

/// The JSON object of one shortcut.
pub open spec fn shortcut_json(s: ShortcutView) -> Seq<char> {
    seq!['{'] + joined(shortcut_members(s), 2) + seq!['}']
}

/// The objects of the shortcuts the way they are written in the array,
/// each on a line of its own after four blanks.
pub open spec fn array_items(list: Seq<ShortcutView>) -> Seq<Seq<char>> {
    Seq::new(list.len(), |i: int| seq!['\n', ' ', ' ', ' ', ' '] + shortcut_json(list[i]))
}

/// The JSON array of the shortcuts: the objects joined by commas
/// between brackets; an array without objects holds an empty line.
pub open spec fn array_text(list: Seq<ShortcutView>) -> Seq<char> {
    seq!['['] + (if list.len() == 0 {
        seq!['\n', ' ', ' ', ' ', ' ']
    } else {
        joined(array_items(list), list.len() as int)
    }) + seq!['\n', ' ', ' ', ']']
}

/// The members of the settings object, in the order they are written.
pub open spec fn settings_members(v: SettingsView) -> Seq<Seq<char>> {
    seq![
        member_text("enabled"@, bool_text(v.enabled)),
        member_text("method"@, decimal_u8(v.method)),
        member_text("modern_tone"@, bool_text(v.modern_tone)),
        member_text("esc_restore"@, bool_text(v.esc_restore)),
        member_text("english_auto_restore"@, bool_text(v.english_auto_restore)),
        member_text("auto_capitalize"@, bool_text(v.auto_capitalize)),
        member_text("free_tone"@, bool_text(v.free_tone)),
        member_text("skip_w_shortcut"@, bool_text(v.skip_w_shortcut)),
        member_text("bracket_shortcut"@, bool_text(v.bracket_shortcut)),
        member_text("allow_foreign_consonants"@, bool_text(v.allow_foreign_consonants)),
        member_text("shortcuts"@, array_text(v.shortcuts)),
    ]
}

/// The persisted form of the settings: the members joined by commas
/// between braces, the closing brace on a line of its own.
pub open spec fn settings_json(v: SettingsView) -> Seq<char> {
    seq!['{'] + joined(settings_members(v), 11) + seq!['\n', '}']
}

/// The body of an array text: trimmed, then without the brackets at its
/// ends.
pub open spec fn array_body(text: Seq<char>) -> Seq<char> {
    strip_end(strip_start(trimmed(text), CharClass::Only('[')), CharClass::Only(']'))
}

/// The shortcut a list of fields describes: it needs a trigger and a
/// replacement, whose escapes are undone.
pub open spec fn shortcut_of(list: Seq<FieldView>) -> Option<ShortcutView> {
    match (lookup(list, "trigger"@), lookup(list, "replacement"@)) {
        (Some(trigger), Some(replacement)) => Some(
            ShortcutView { trigger: unescaped(trigger), replacement: unescaped(replacement) },
        ),
        _ => None,
    }
}

/// The shortcuts of the first `n` objects of a list: each object that
/// has a trigger and a replacement gives one.
pub open spec fn shortcuts_upto(list: Seq<Seq<char>>, n: int) -> Seq<ShortcutView>
    decreases n,
{
    if n <= 0 {
        Seq::empty()
    } else {
        match shortcut_of(object_fields(list[n - 1])) {
            Some(s) => shortcuts_upto(list, n - 1).push(s),
            None => shortcuts_upto(list, n - 1),
        }
    }
}

/// The shortcuts an array text lists: its body is cut into its members
/// at the commas outside brackets, white space around a member does not
/// count, and each member is read as an object.
pub open spec fn shortcuts_in(text: Seq<char>) -> Seq<ShortcutView> {
    let list = members(array_body(text));
    shortcuts_upto(list, list.len() as int)
}

/// The truth value of a key: `true` exactly for the value `true`, the
/// given default when the key is absent.
pub open spec fn flag(list: Seq<FieldView>, key: Seq<char>, default: bool) -> bool {
    match lookup(list, key) {
        Some(value) => value == "true"@,
        None => default,
    }
}

/// The settings a text describes: each key that is present replaces the
/// default value.
pub open spec fn parsed_settings(text: Seq<char>) -> SettingsView {
    let list = object_fields(text);
    let d = default_settings();
    SettingsView {
        enabled: flag(list, "enabled"@, d.enabled),
        method: match lookup(list, "method"@) {
            Some(value) => number_u8(value),
            None => d.method,
        },
        modern_tone: flag(list, "modern_tone"@, d.modern_tone),
        esc_restore: flag(list, "esc_restore"@, d.esc_restore),
        english_auto_restore: flag(list, "english_auto_restore"@, d.english_auto_restore),
        auto_capitalize: flag(list, "auto_capitalize"@, d.auto_capitalize),
        free_tone: flag(list, "free_tone"@, d.free_tone),
        skip_w_shortcut: flag(list, "skip_w_shortcut"@, d.skip_w_shortcut),
        bracket_shortcut: flag(list, "bracket_shortcut"@, d.bracket_shortcut),
        allow_foreign_consonants: flag(
            list,
            "allow_foreign_consonants"@,
            d.allow_foreign_consonants,
        ),
        shortcuts: match lookup(list, "shortcuts"@) {
            Some(value) => shortcuts_in(value),
            None => d.shortcuts,
        },
    }
}

/// The switches of the engine that the settings ask for.
pub open spec fn config_of(v: SettingsView) -> Config {
    Config {
        method: v.method,
        enabled: v.enabled,
        modern_tone: v.modern_tone,
        esc_restore: v.esc_restore,
        english_auto_restore: v.english_auto_restore,
        auto_capitalize: v.auto_capitalize,
        free_tone: v.free_tone,
        skip_w_shortcut: v.skip_w_shortcut,
        bracket_shortcut: v.bracket_shortcut,
        allow_foreign_consonants: v.allow_foreign_consonants,
    }
}

/// The shortcut table after the first `n` shortcuts of a list are
/// registered one after the other, starting from an empty table.
pub open spec fn shortcuts_loaded(list: Seq<ShortcutView>, n: int) -> Seq<ShortcutView>
    decreases n,
{
    if n <= 0 {
        Seq::empty()
    } else {
        shortcut_added(
            shortcuts_loaded(list, n - 1),
            list[n - 1].trigger,
            list[n - 1].replacement,
        )
    }
}

/// A path with a name joined to it: a separator comes between them
/// unless the path is empty or ends in one; an absolute name replaces
/// the path.
pub open spec fn path_joined(base: Seq<char>, name: Seq<char>) -> Seq<char> {
    if name.len() > 0 && name[0] == '/' {
        name
    } else if base.len() == 0 || base.last() == '/' {
        base + name
    } else {
        base + seq!['/'] + name
    }
}

/// The configuration directory: `vikey` under the XDG configuration home,
/// which defaults to `.config` under the home directory, which defaults
/// to `/tmp`.
pub open spec fn config_dir_of(xdg_config_home: Option<Seq<char>>, home: Option<Seq<char>>) -> Seq<
    char,
> {
    let base = match xdg_config_home {
        Some(dir) => dir,
        None => path_joined(
            match home {
                Some(dir) => dir,
                None => "/tmp"@,
            },
            ".config"@,
        ),
    };
    path_joined(base, "vikey"@)
}

/// The digits-so-far value never exceeds the value of a longer prefix.
proof fn lemma_digits_value_grows(s: Seq<char>, i: int, n: int)
    requires
        0 <= i <= n,
    ensures
        digits_value(s, i) <= digits_value(s, n),
    decreases n - i,
{
    if i < n {
        lemma_digits_value_grows(s, i, n - 1);
        assert(digits_value(s, n - 1) <= digits_value(s, n - 1) * 10) by (nonlinear_arith)
            requires
                digits_value(s, n - 1) >= 0,
        ;
    }
}

/// Reads a number as `number_u8` defines it.
fn parse_u8(text: &Vec<char>) -> (n: u8)
    ensures
        n == number_u8(text@),
{
    let len = text.len();
    let start: usize = if len > 0 && text[0] == '+' {
        1
    } else {
        0
    };
    let ghost digits = text@.subrange(start as int, len as int);
    assert(start == 0 ==> digits =~= text@);
    if start >= len {
        return 0;
    }
    let mut value: u16 = 0;
    let mut i: usize = start;
    while i < len
        invariant
            start <= i <= len,
            len == text@.len(),
            digits == text@.subrange(start as int, len as int),
            number_u8(text@) == (if digits.len() > 0 && all_digits(digits) && digits_value(
                digits,
                digits.len() as int,
            ) <= 255 {
                digits_value(digits, digits.len() as int) as u8
            } else {
                0
            }),
            value <= 255,
            value == digits_value(digits, i - start),
            forall|j: int| 0 <= j < i - start ==> '0' <= #[trigger] digits[j] <= '9',
        decreases len - i,
    {
        let c = text[i];
        assert(digits[i - start] == c);
        if !('0' <= c && c <= '9') {
            assert(!all_digits(digits));
            return 0;
        }
        let d: u16 = (c as u8 - 48) as u16;
        let next: u16 = value * 10 + d;
        assert(next == digits_value(digits, i - start + 1));
        if next > 255 {
            proof {
                lemma_digits_value_grows(digits, i - start + 1, digits.len() as int);
            }
            return 0;
        }
        value = next;
        i += 1;
    }
    assert(all_digits(digits));
    value as u8
}

/// Writes a number in decimal notation.
fn push_decimal(out: &mut Vec<char>, n: u8)
    ensures
        final(out)@ == old(out)@ + decimal_u8(n),
{
    if n >= 100 {
        out.push((48 + n / 100) as char);
    }
    if n >= 10 {
        out.push((48 + (n / 10) % 10) as char);
    }
    out.push((48 + n % 10) as char);
    assert(out@ =~= old(out)@ + decimal_u8(n));
}

/// Writes a truth value.
fn push_bool(out: &mut Vec<char>, b: bool)
    ensures
        final(out)@ == old(out)@ + bool_text(b),
{
    if b {
        append_str(out, "true");
    } else {
        append_str(out, "false");
    }
}

/// Joins texts by commas.
fn join_texts(items: &Vec<Vec<char>>) -> (out: Vec<char>)
    ensures
        out@ == joined(texts(items@), items@.len() as int),
{
    let mut out: Vec<char> = Vec::new();
    let mut i: usize = 0;
    while i < items.len()
        invariant
            i <= items.len(),
            out@ == joined(texts(items@), i as int),
        decreases items.len() - i,
    {
        assert(texts(items@)[i as int] == items@[i as int]@);
        let ghost before = out@;
        if i > 0 {
            out.push(',');
        }
        append(&mut out, &items[i]);
        assert(i == 0 ==> out@ =~= items@[0]@);
        assert(i > 0 ==> out@ =~= before + seq![','] + items@[i as int]@);
        i += 1;
    }
    out
}

/// Writes a member of an object on a line of its own.
fn member_chars(key: &str, value: &Vec<char>) -> (out: Vec<char>)
    ensures
        out@ == member_text(key@, value@),
{
    let mut out: Vec<char> = Vec::new();
    out.push('\n');
    out.push(' ');
    out.push(' ');
    out.push('"');
    append_str(&mut out, key);
    out.push('"');
    out.push(':');
    out.push(' ');
    append(&mut out, value);
    assert(out@ =~= member_text(key@, value@));
    out
}

/// Writes a member whose value is a truth value.
fn flag_chars(key: &str, b: bool) -> (out: Vec<char>)
    ensures
        out@ == member_text(key@, bool_text(b)),
{
    let mut value: Vec<char> = Vec::new();
    push_bool(&mut value, b);
    assert(value@ =~= bool_text(b));
    member_chars(key, &value)
}

/// Writes a member of an object inside a line, its text in quotes.
fn quoted_chars(key: &str, text: &Vec<char>) -> (out: Vec<char>)
    ensures
        out@ == quoted_member(key@, text@),
{
    let mut out: Vec<char> = Vec::new();
    out.push('"');
    append_str(&mut out, key);
    out.push('"');
    out.push(':');
    out.push('"');
    append(&mut out, text);
    out.push('"');
    assert(out@ =~= quoted_member(key@, text@));
    out
}

/// Writes the JSON object of one shortcut.
fn shortcut_chars(s: &Shortcut) -> (out: Vec<char>)
    ensures
        out@ == shortcut_json(s@),
{
    let trigger = escape_chars(&chars_of(s.trigger.as_str()));
    let replacement = escape_chars(&chars_of(s.replacement.as_str()));
    let mut parts: Vec<Vec<char>> = Vec::new();
    parts.push(quoted_chars("trigger", &trigger));
    parts.push(quoted_chars("replacement", &replacement));
    assert(texts(parts@) =~= shortcut_members(s@));
    let body = join_texts(&parts);
    let mut out: Vec<char> = Vec::new();
    out.push('{');
    append(&mut out, &body);
    out.push('}');
    assert(out@ =~= shortcut_json(s@));
    out
}

/// Writes the JSON array of the shortcuts.
fn array_chars(list: &Vec<Shortcut>) -> (out: Vec<char>)
    ensures
        out@ == array_text(shortcut_views(list@)),
{
    let ghost views = shortcut_views(list@);
    let mut items: Vec<Vec<char>> = Vec::new();
    let mut i: usize = 0;
    while i < list.len()
        invariant
            i <= list.len(),
            views == shortcut_views(list@),
            items@.len() == i,
            forall|j: int| 0 <= j < i ==> (#[trigger] items@[j])@ == array_items(views)[j],
        decreases list.len() - i,
    {
        assert(views[i as int] == list@[i as int]@);
        let object = shortcut_chars(&list[i]);
        let mut item: Vec<char> = Vec::new();
        item.push('\n');
        item.push(' ');
        item.push(' ');
        item.push(' ');
        item.push(' ');
        append(&mut item, &object);
        assert(item@ =~= array_items(views)[i as int]);
        items.push(item);
        i += 1;
    }
    assert(texts(items@) =~= array_items(views));
    let mut out: Vec<char> = Vec::new();
    out.push('[');
    if items.len() == 0 {
        out.push('\n');
        out.push(' ');
        out.push(' ');
        out.push(' ');
        out.push(' ');
    } else {
        let body = join_texts(&items);
        append(&mut out, &body);
    }
    out.push('\n');
    out.push(' ');
    out.push(' ');
    out.push(']');
    assert(out@ =~= array_text(views));
    out
}

/// Joins a name to a path.
fn join_path(base: &Vec<char>, name: &str) -> (out: Vec<char>)
    ensures
        out@ == path_joined(base@, name@),
{
    let tail = chars_of(name);
    if tail.len() > 0 && tail[0] == '/' {
        return tail;
    }
    let mut out = base.clone();
    assert(out@ =~= base@);
    if base.len() > 0 && base[base.len() - 1] != '/' {
        out.push('/');
    }
    append(&mut out, &tail);
    assert(out@ =~= path_joined(base@, name@));
    out
}

/// Reads the array of shortcuts of a settings file.
///
/// An object that lacks a trigger or a replacement is skipped. Every
/// text is accepted.
pub fn parse_shortcuts_array(json: &str) -> (r: Option<Vec<Shortcut>>)
    ensures
        r matches Some(list) && shortcut_views(list@) == shortcuts_in(json@),
{
    let text = chars_of(json);
    Some(parse_shortcuts_chars(&text))
}

/// [`parse_shortcuts_array`] on characters.
fn parse_shortcuts_chars(text: &Vec<char>) -> (list: Vec<Shortcut>)
    ensures
        shortcut_views(list@) == shortcuts_in(text@),
{
    let mut list: Vec<Shortcut> = Vec::new();
    let whole = trim_of(text, CharClass::Space);
    let opened = trim_start_of(&whole, CharClass::Only('['));
    let body = trim_end_of(&opened, CharClass::Only(']'));
    let parts = split_members(&body);
    let ghost ms = members(body@);
    let count = parts.len();
    let mut i: usize = 0;
    while i < count
        invariant
            i <= count,
            count == parts@.len(),
            texts(parts@) == ms,
            shortcut_views(list@) == shortcuts_upto(ms, i as int),
        decreases count - i,
    {
        assert(texts(parts@)[i as int] == parts@[i as int]@);
        let found = JsonObject { entries: parse_object_chars(&parts[i]) };
        let ghost before = shortcut_views(list@);
        match (found.get_chars("trigger"), found.get_chars("replacement")) {
            (Some(trigger), Some(replacement)) => {
                let s = Shortcut {
                    trigger: string_from_chars(&unescape_chars(trigger)),
                    replacement: string_from_chars(&unescape_chars(replacement)),
                };
                list.push(s);
                assert(shortcut_views(list@) =~= before.push(s@));
            },
            _ => {},
        }
        i += 1;
    }
    assert(ms.len() == count);
    list
}

/// Reads the truth value of a key.
fn read_flag(object: &JsonObject, key: &str, default: bool) -> (b: bool)
    ensures
        b == flag(object@, key@, default),
{
    match object.get_chars(key) {
        Some(value) => same_text(value, "true"),
        None => default,
    }
}

impl Default for Settings {
    fn default() -> (s: Settings)
        ensures
            s@ == default_settings(),
    {
        let mut shortcuts: Vec<Shortcut> = Vec::new();
        shortcuts.push(
            Shortcut { trigger: "vn".to_owned(), replacement: "Việt Nam".to_owned() },
        );
        shortcuts.push(Shortcut { trigger: "hn".to_owned(), replacement: "Hà Nội".to_owned() });
        shortcuts.push(
            Shortcut { trigger: "hcm".to_owned(), replacement: "Hồ Chí Minh".to_owned() },
        );
        shortcuts.push(Shortcut { trigger: "->".to_owned(), replacement: "→".to_owned() });
        shortcuts.push(Shortcut { trigger: "=>".to_owned(), replacement: "⇒".to_owned() });
        shortcuts.push(Shortcut { trigger: ":)".to_owned(), replacement: "😊".to_owned() });
        assert(shortcut_views(shortcuts@) =~= default_settings().shortcuts);
        Settings {
            enabled: true,
            method: 0,
            modern_tone: true,
            esc_restore: true,
            english_auto_restore: true,
            auto_capitalize: false,
            free_tone: false,
            skip_w_shortcut: false,
            bracket_shortcut: false,
            allow_foreign_consonants: false,
            shortcuts,
        }
    }
}

impl Settings {
    /// The configuration directory, from the values of the environment
    /// variables `XDG_CONFIG_HOME` and `HOME` where they are set.
    pub fn config_dir(xdg_config_home: Option<&str>, home: Option<&str>) -> (dir: String)
        ensures
            dir@ == config_dir_of(
                match xdg_config_home {
                    Some(s) => Some(s@),
                    None => None,
                },
                match home {
                    Some(s) => Some(s@),
                    None => None,
                },
            ),
    {
        string_from_chars(&Self::config_dir_chars(xdg_config_home, home))
    }

    fn config_dir_chars(xdg_config_home: Option<&str>, home: Option<&str>) -> (dir: Vec<char>)
        ensures
            dir@ == config_dir_of(
                match xdg_config_home {
                    Some(s) => Some(s@),
                    None => None,
                },
                match home {
                    Some(s) => Some(s@),
                    None => None,
                },
            ),
    {
        let base = match xdg_config_home {
            Some(dir) => chars_of(dir),
            None => {
                let home_dir = match home {
                    Some(dir) => chars_of(dir),
                    None => chars_of("/tmp"),
                };
                join_path(&home_dir, ".config")
            },
        };
        join_path(&base, "vikey")
    }

    /// The path of the configuration file: `config.json` in the
    /// configuration directory.
    pub fn config_path(xdg_config_home: Option<&str>, home: Option<&str>) -> (path: String)
        ensures
            path@ == path_joined(
                config_dir_of(
                    match xdg_config_home {
                        Some(s) => Some(s@),
                        None => None,
                    },
                    match home {
                        Some(s) => Some(s@),
                        None => None,
                    },
                ),
                "config.json"@,
            ),
    {
        let dir = Self::config_dir_chars(xdg_config_home, home);
        string_from_chars(&join_path(&dir, "config.json"))
    }

    /// The switches of the engine that the settings ask for.
    pub fn config(&self) -> (config: Config)
        ensures
            config == config_of(self@),
    {
        Config {
            method: self.method,
            enabled: self.enabled,
            modern_tone: self.modern_tone,
            esc_restore: self.esc_restore,
            english_auto_restore: self.english_auto_restore,
            auto_capitalize: self.auto_capitalize,
            free_tone: self.free_tone,
            skip_w_shortcut: self.skip_w_shortcut,
            bracket_shortcut: self.bracket_shortcut,
            allow_foreign_consonants: self.allow_foreign_consonants,
        }
    }

    /// Applies the settings to an engine: its switches become those of
    /// the settings, its shortcut table is emptied and takes the
    /// shortcuts of the settings in their order, and the word starts over.
    pub fn apply(&self, engine: &mut Engine)
        requires
            old(engine).wf(),
        ensures
            final(engine).wf(),
            final(engine)@ == (EngineView {
                shortcuts: shortcuts_loaded(self@.shortcuts, self@.shortcuts.len() as int),
                ..reconfigured(old(engine)@, config_of(self@))
            }),
    {
        engine.set_config(self.config());
        engine.clear_shortcuts();
        let ghost base = engine@;
        let ghost list = self@.shortcuts;
        let mut i: usize = 0;
        while i < self.shortcuts.len()
            invariant
                i <= self.shortcuts.len(),
                list == shortcut_views(self.shortcuts@),
                engine.wf(),
                engine@ == (EngineView { shortcuts: shortcuts_loaded(list, i as int), ..base }),
            decreases self.shortcuts.len() - i,
        {
            assert(list[i as int] == self.shortcuts@[i as int]@);
            engine.add_shortcut(
                self.shortcuts[i].trigger.as_str(),
                self.shortcuts[i].replacement.as_str(),
            );
            i += 1;
        }
    }

    /// Reads the settings from the text of a settings file. A key that
    /// the text lacks keeps its default value. Every text is accepted.
    pub fn parse_json(json: &str) -> (r: Option<Settings>)
        ensures
            r matches Some(settings) && settings@ == parsed_settings(json@),
    {
        let text = chars_of(json);
        let object = JsonObject { entries: parse_object_chars(&text) };
        let mut settings = Settings::default();

        settings.enabled = read_flag(&object, "enabled", settings.enabled);
        match object.get_chars("method") {
            Some(value) => {
                settings.method = parse_u8(value);
            },
            None => {},
        }
        settings.modern_tone = read_flag(&object, "modern_tone", settings.modern_tone);
        settings.esc_restore = read_flag(&object, "esc_restore", settings.esc_restore);
        settings.english_auto_restore = read_flag(
            &object,
            "english_auto_restore",
            settings.english_auto_restore,
        );
        settings.auto_capitalize = read_flag(&object, "auto_capitalize", settings.auto_capitalize);
        settings.free_tone = read_flag(&object, "free_tone", settings.free_tone);
        settings.skip_w_shortcut = read_flag(&object, "skip_w_shortcut", settings.skip_w_shortcut);
        settings.bracket_shortcut = read_flag(
            &object,
            "bracket_shortcut",
            settings.bracket_shortcut,
        );
        settings.allow_foreign_consonants = read_flag(
            &object,
            "allow_foreign_consonants",
            settings.allow_foreign_consonants,
        );
        match object.get_chars("shortcuts") {
            Some(value) => {
                settings.shortcuts = parse_shortcuts_chars(value);
            },
            None => {},
        }
        Some(settings)
    }

    /// The settings of a settings file: those its text describes, or the
    /// defaults when there is no file.
    pub fn from_file_text(content: Option<&str>) -> (settings: Settings)
        ensures
            settings@ == match content {
                Some(text) => parsed_settings(text@),
                None => default_settings(),
            },
    {
        match content {
            Some(text) => match Self::parse_json(text) {
                Some(settings) => settings,
                None => Settings::default(),
            },
            None => Settings::default(),
        }
    }

    /// Writes the settings in their persisted form.
    pub fn to_json(&self) -> (out: String)
        ensures
            out@ == settings_json(self@),
    {
        let mut method: Vec<char> = Vec::new();
        push_decimal(&mut method, self.method);
        assert(method@ =~= decimal_u8(self.method));
        let array = array_chars(&self.shortcuts);
        let mut items: Vec<Vec<char>> = Vec::new();
        items.push(flag_chars("enabled", self.enabled));
        items.push(member_chars("method", &method));
        items.push(flag_chars("modern_tone", self.modern_tone));
        items.push(flag_chars("esc_restore", self.esc_restore));
        items.push(flag_chars("english_auto_restore", self.english_auto_restore));
        items.push(flag_chars("auto_capitalize", self.auto_capitalize));
        items.push(flag_chars("free_tone", self.free_tone));
        items.push(flag_chars("skip_w_shortcut", self.skip_w_shortcut));
        items.push(flag_chars("bracket_shortcut", self.bracket_shortcut));
        items.push(flag_chars("allow_foreign_consonants", self.allow_foreign_consonants));
        items.push(member_chars("shortcuts", &array));
        assert(texts(items@) =~= settings_members(self@));
        let body = join_texts(&items);
        let mut text: Vec<char> = Vec::new();
        text.push('{');
        append(&mut text, &body);
        text.push('\n');
        text.push('}');
        assert(text@ =~= settings_json(self@));
        string_from_chars(&text)
    }
}

} // verus!
