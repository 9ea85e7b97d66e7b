use vikey::engine::ime::Engine;
use vikey::settings::json::{escape_json, parse_json_object, unescape_json};
use vikey::settings::{parse_shortcuts_array, Settings, Shortcut};

#[test]
fn default_settings() {
    let s = Settings::default();
    assert!(s.enabled);
    assert_eq!(s.method, 0);
    assert!(s.modern_tone);
    assert!(s.esc_restore);
    assert!(s.english_auto_restore);
    assert!(!s.auto_capitalize);
    assert!(!s.free_tone);
    assert!(!s.skip_w_shortcut);
    assert!(!s.bracket_shortcut);
    assert!(!s.allow_foreign_consonants);
    let pairs: Vec<(&str, &str)> =
        s.shortcuts.iter().map(|s| (s.trigger.as_str(), s.replacement.as_str())).collect();
    assert_eq!(
        pairs,
        vec![
            ("vn", "Việt Nam"),
            ("hn", "Hà Nội"),
            ("hcm", "Hồ Chí Minh"),
            ("->", "→"),
            ("=>", "⇒"),
            (":)", "😊"),
        ]
    );
}

#[test]
fn escape_json_escapes_each_special_character() {
    assert_eq!(escape_json("a\"b\\c\nd\re\tf"), "a\\\"b\\\\c\\nd\\re\\tf");
    assert_eq!(escape_json("plain"), "plain");
    assert_eq!(escape_json(""), "");
}

#[test]
fn unescape_json_undoes_simple_escapes() {
    assert_eq!(unescape_json("a\\\"b\\nc\\rd\\te"), "a\"b\nc\rd\te");
    assert_eq!(unescape_json("x\\\\y"), "x\\y");
    assert_eq!(unescape_json("plain"), "plain");
}

#[test]
fn unescape_json_works_one_kind_after_the_other() {
    // An escaped backslash before `n` first becomes a backslash and then,
    // with the `n`, a line feed.
    assert_eq!(unescape_json("\\\\n"), "\n");
    // Pairs are taken from left to right without overlap.
    assert_eq!(unescape_json("\\\\\\"), "\\\\");
}

#[test]
fn parse_json_object_cuts_at_top_level_commas() {
    let object =
        parse_json_object(r#" {"a": 1, "b": "x y", "c": [1, 2], "d": {"e": 1, "f": 2}} "#).unwrap();
    assert_eq!(object.entries.len(), 4);
    assert_eq!(object.get("a"), Some("1".to_string()));
    assert_eq!(object.get("b"), Some("x y".to_string()));
    assert_eq!(object.get("c"), Some("[1, 2]".to_string()));
    // Every closing brace at the end of the text goes with the outer one.
    assert_eq!(object.get("d"), Some(r#"{"e": 1, "f": 2"#.to_string()));
    assert_eq!(object.get("e"), None);
}

#[test]
fn parse_json_object_is_lenient() {
    let object = parse_json_object("").unwrap();
    assert_eq!(object.entries.len(), 0);
    let object = parse_json_object("no colon here, k : v , \"q\":\"\"").unwrap();
    assert_eq!(object.entries.len(), 2);
    assert_eq!(object.get("k"), Some("v".to_string()));
    assert_eq!(object.get("q"), Some("".to_string()));
    // A later field replaces an earlier one of the same key.
    let object = parse_json_object(r#"{"k": 1, "k": 2}"#).unwrap();
    assert_eq!(object.get("k"), Some("2".to_string()));
    // The value begins after the first colon.
    let object = parse_json_object(r#"{"k": a:b}"#).unwrap();
    assert_eq!(object.get("k"), Some("a:b".to_string()));
}

fn pairs(list: &[Shortcut]) -> Vec<(String, String)> {
    list.iter().map(|s| (s.trigger.clone(), s.replacement.clone())).collect()
}

#[test]
fn parse_shortcuts_array_reads_compact_objects() {
    let list = parse_shortcuts_array(
        r#"[{"trigger":"vn","replacement":"Việt Nam"},{"trigger":"hn","replacement":"Hà Nội"},{"trigger":"x","replacement":"a\nb"}]"#,
    )
    .unwrap();
    assert_eq!(
        pairs(&list),
        vec![
            ("vn".to_string(), "Việt Nam".to_string()),
            ("hn".to_string(), "Hà Nội".to_string()),
            ("x".to_string(), "a\nb".to_string()),
        ]
    );
    let list = parse_shortcuts_array(r#"  [{"trigger":"a","replacement":"b"}]  "#).unwrap();
    assert_eq!(pairs(&list), vec![("a".to_string(), "b".to_string())]);
    // White space around an object does not count.
    let list = parse_shortcuts_array(r#"[ {"trigger":"a","replacement":"b"} ]"#).unwrap();
    assert_eq!(pairs(&list), vec![("a".to_string(), "b".to_string())]);
    let list = parse_shortcuts_array(
        r#"[{"trigger": "a", "replacement": "b c"} , { "replacement":"d", "trigger":"e" }]"#,
    )
    .unwrap();
    assert_eq!(
        pairs(&list),
        vec![("a".to_string(), "b c".to_string()), ("e".to_string(), "d".to_string())]
    );
}

#[test]
fn parse_shortcuts_array_skips_incomplete_objects() {
    assert!(parse_shortcuts_array("[]").unwrap().is_empty());
    assert!(parse_shortcuts_array("  ").unwrap().is_empty());
    let list = parse_shortcuts_array(
        r#"[{"trigger":"a"},{"trigger":"b","replacement":"c"},{"replacement":"d"}]"#,
    )
    .unwrap();
    assert_eq!(pairs(&list), vec![("b".to_string(), "c".to_string())]);
}

#[test]
fn parse_shortcuts_array_reads_objects_on_lines_of_their_own() {
    let list = parse_shortcuts_array(
        "[\n    {\"trigger\":\"a\",\"replacement\":\"b\"},\n    {\"trigger\":\"c\",\"replacement\":\"d\"}\n  ]",
    )
    .unwrap();
    assert_eq!(
        pairs(&list),
        vec![("a".to_string(), "b".to_string()), ("c".to_string(), "d".to_string())]
    );
}

#[test]
fn parse_shortcuts_array_cuts_a_replacement_at_its_comma() {
    // A comma inside a text ends the field: the reader is lenient, not exact.
    let list = parse_shortcuts_array(r#"[{"trigger":"a","replacement":"b,c"}]"#).unwrap();
    assert_eq!(pairs(&list), vec![("a".to_string(), "b".to_string())]);
}

#[test]
fn parse_json_reads_flags_and_method() {
    let s = Settings::parse_json(
        r#"{"enabled": false, "method": 1, "modern_tone": false, "free_tone": true, "auto_capitalize": "true", "esc_restore": yes}"#,
    )
    .unwrap();
    assert!(!s.enabled);
    assert_eq!(s.method, 1);
    assert!(!s.modern_tone);
    assert!(s.free_tone);
    assert!(s.auto_capitalize);
    // Anything but `true` is false.
    assert!(!s.esc_restore);
    // Absent keys keep their defaults.
    assert!(s.english_auto_restore);
    assert!(!s.skip_w_shortcut);
    assert_eq!(s.shortcuts.len(), 6);
}

#[test]
fn parse_json_method_numbers() {
    let method = |text: &str| Settings::parse_json(text).unwrap().method;
    assert_eq!(method(r#"{"method": 0}"#), 0);
    assert_eq!(method(r#"{"method": +7}"#), 7);
    assert_eq!(method(r#"{"method": 007}"#), 7);
    assert_eq!(method(r#"{"method": 255}"#), 255);
    assert_eq!(method(r#"{"method": 256}"#), 0);
    assert_eq!(method(r#"{"method": 99999999999999999999999}"#), 0);
    assert_eq!(method(r#"{"method": -1}"#), 0);
    assert_eq!(method(r#"{"method": abc}"#), 0);
    assert_eq!(method(r#"{"method": 1x}"#), 0);
    assert_eq!(method(r#"{"method": +}"#), 0);
    assert_eq!(method(r#"{"method": }"#), 0);
    assert_eq!(method(r#"{}"#), 0);
}

#[test]
fn parse_json_shortcuts() {
    let s = Settings::parse_json(
        r#"{"shortcuts": [{"trigger":"kg","replacement":"không"},{"trigger":"dc","replacement":"được"}], "method": 1}"#,
    )
    .unwrap();
    assert_eq!(
        pairs(&s.shortcuts),
        vec![("kg".to_string(), "không".to_string()), ("dc".to_string(), "được".to_string())]
    );
    assert_eq!(s.method, 1);
    let s = Settings::parse_json(r#"{"shortcuts": []}"#).unwrap();
    assert!(s.shortcuts.is_empty());
}

#[test]
fn to_json_writes_every_field() {
    let mut s = Settings::default();
    s.method = 1;
    s.free_tone = true;
    s.shortcuts = vec![
        Shortcut { trigger: "a\"b".to_string(), replacement: "x\ny".to_string() },
        Shortcut { trigger: "c".to_string(), replacement: "d".to_string() },
    ];
    let expected = "{\n  \"enabled\": true,\n  \"method\": 1,\n  \"modern_tone\": true,\n  \"esc_restore\": true,\n  \"english_auto_restore\": true,\n  \"auto_capitalize\": false,\n  \"free_tone\": true,\n  \"skip_w_shortcut\": false,\n  \"bracket_shortcut\": false,\n  \"allow_foreign_consonants\": false,\n  \"shortcuts\": [\n    {\"trigger\":\"a\\\"b\",\"replacement\":\"x\\ny\"},\n    {\"trigger\":\"c\",\"replacement\":\"d\"}\n  ]\n}";
    assert_eq!(s.to_json(), expected);
}

#[test]
fn to_json_writes_numbers_in_decimal() {
    let mut s = Settings::default();
    s.shortcuts.clear();
    for (method, text) in [(0u8, "0"), (9, "9"), (10, "10"), (99, "99"), (100, "100"), (255, "255")] {
        s.method = method;
        assert!(s.to_json().contains(&format!("\"method\": {},\n", text)));
    }
    assert!(s.to_json().ends_with("\"shortcuts\": [\n    \n  ]\n}"));
}

#[test]
fn written_settings_read_back() {
    let mut s = Settings::default();
    s.enabled = false;
    s.method = 1;
    s.auto_capitalize = true;
    s.allow_foreign_consonants = true;
    s.shortcuts = vec![
        Shortcut { trigger: "vn".to_string(), replacement: "Việt Nam".to_string() },
        Shortcut { trigger: "hcm".to_string(), replacement: "Hồ Chí Minh".to_string() },
        Shortcut { trigger: " x1 ".to_string(), replacement: "".to_string() },
    ];
    let read = Settings::parse_json(&s.to_json()).unwrap();
    assert!(!read.enabled);
    assert_eq!(read.method, 1);
    assert!(read.modern_tone);
    assert!(read.esc_restore);
    assert!(read.english_auto_restore);
    assert!(read.auto_capitalize);
    assert!(!read.free_tone);
    assert!(!read.skip_w_shortcut);
    assert!(!read.bracket_shortcut);
    assert!(read.allow_foreign_consonants);
    assert_eq!(pairs(&read.shortcuts), pairs(&s.shortcuts));
}

#[test]
fn written_settings_read_back_for_every_switch_and_method() {
    for bits in 0u32..512 {
        let mut s = Settings::default();
        s.enabled = bits & 1 != 0;
        s.modern_tone = bits & 2 != 0;
        s.esc_restore = bits & 4 != 0;
        s.english_auto_restore = bits & 8 != 0;
        s.auto_capitalize = bits & 16 != 0;
        s.free_tone = bits & 32 != 0;
        s.skip_w_shortcut = bits & 64 != 0;
        s.bracket_shortcut = bits & 128 != 0;
        s.allow_foreign_consonants = bits & 256 != 0;
        s.method = (bits % 256) as u8;
        if bits % 3 == 0 {
            s.shortcuts.clear();
        }
        let read = Settings::parse_json(&s.to_json()).unwrap();
        assert_eq!(read.to_json(), s.to_json());
        assert_eq!(pairs(&read.shortcuts), pairs(&s.shortcuts));
        assert_eq!(read.method, s.method);
        assert_eq!(read.free_tone, s.free_tone);
    }
}

#[test]
fn default_settings_read_back_with_their_shortcuts() {
    let s = Settings::default();
    let read = Settings::parse_json(&s.to_json()).unwrap();
    assert_eq!(pairs(&read.shortcuts), pairs(&s.shortcuts));
    assert_eq!(read.shortcuts.len(), 6);
}

#[test]
fn from_file_text() {
    assert_eq!(Settings::from_file_text(None).method, 0);
    assert_eq!(Settings::from_file_text(None).shortcuts.len(), 6);
    assert_eq!(Settings::from_file_text(Some(r#"{"method": 1}"#)).method, 1);
}

#[test]
fn config_paths() {
    assert_eq!(Settings::config_dir(Some("/x"), Some("/home/u")), "/x/vikey");
    assert_eq!(Settings::config_dir(Some("/x/"), None), "/x/vikey");
    assert_eq!(Settings::config_dir(None, Some("/home/u")), "/home/u/.config/vikey");
    assert_eq!(Settings::config_dir(None, None), "/tmp/.config/vikey");
    assert_eq!(Settings::config_dir(Some(""), None), "vikey");
    assert_eq!(Settings::config_path(None, Some("/home/u")), "/home/u/.config/vikey/config.json");
    assert_eq!(Settings::config_path(Some("/x"), None), "/x/vikey/config.json");
}

#[test]
fn apply_sets_switches_and_shortcuts() {
    let mut s = Settings::default();
    s.method = 1;
    s.english_auto_restore = false;
    s.free_tone = true;
    s.shortcuts.push(Shortcut { trigger: "vn".to_string(), replacement: "Vietnam".to_string() });
    s.shortcuts.push(Shortcut { trigger: "".to_string(), replacement: "x".to_string() });
    let mut engine = Engine::new();
    engine.add_shortcut("old", "gone");
    engine.on_key(97, false, false, false);
    s.apply(&mut engine);
    let config = engine.config();
    assert_eq!(config.method, 1);
    assert!(config.enabled);
    assert!(!config.english_auto_restore);
    assert!(config.free_tone);
    assert_eq!(engine.render(), "");
    // Six defaults, of which `vn` is replaced; the empty trigger is ignored.
    assert_eq!(engine.shortcut_count(), 6);
    assert_eq!(engine.process_sequence("vn old ", 1), "Vietnam old ");
}
