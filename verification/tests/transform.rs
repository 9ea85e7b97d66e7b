use vikey::data::chars::{mark, tone};
use vikey::data::keys;
use vikey::engine::buffer::{Buffer, Char};
use vikey::engine::transform::{
    apply_mark, apply_remove, apply_stroke, apply_tone, revert_mark, revert_stroke, revert_tone,
    TransformResult,
};

fn setup_buffer(s: &str) -> Buffer {
    let mut buf = Buffer::new();
    for ch in s.chars() {
        let key = match ch.to_ascii_lowercase() {
            'a' => keys::A,
            'b' => keys::B,
            'c' => keys::C,
            'd' => keys::D,
            'e' => keys::E,
            'g' => keys::G,
            'h' => keys::H,
            'i' => keys::I,
            'n' => keys::N,
            'o' => keys::O,
            'u' => keys::U,
            _ => continue,
        };
        buf.push(Char::new(key, ch.is_uppercase()));
    }
    buf
}

/// A buffer of plain records for every letter and digit of the text.
fn buffer_of(s: &str) -> Buffer {
    let mut buf = Buffer::new();
    for ch in s.chars() {
        for key in vikey::utils::keys_from_str(&ch.to_string()) {
            buf.push(Char::new(key, ch.is_uppercase()));
        }
    }
    buf
}

#[test]
fn test_apply_stroke() {
    let mut buf = setup_buffer("do");
    let result = apply_stroke(&mut buf);
    assert!(result.applied);
    assert!(buf.get(0).unwrap().stroke);
}

#[test]
fn test_apply_stroke_anywhere() {
    // "dod" should stroke the first 'd'
    let mut buf = setup_buffer("dod");
    let result = apply_stroke(&mut buf);
    assert!(result.applied);
    assert!(buf.get(0).unwrap().stroke); // First d is stroked
}

#[test]
fn test_apply_mark() {
    let mut buf = setup_buffer("an");
    let result = apply_mark(&mut buf, mark::SAC, true);
    assert!(result.applied);
    assert_eq!(buf.get(0).unwrap().mark, mark::SAC);
}

#[test]
fn test_uo_compound() {
    let mut buf = setup_buffer("duoc");
    let result = apply_tone(&mut buf, keys::W, tone::HORN, 0);
    assert!(result.applied);
    // Both u and o should have horn
    assert_eq!(buf.get(1).unwrap().tone, tone::HORN); // u
    assert_eq!(buf.get(2).unwrap().tone, tone::HORN); // o
}

#[test]
fn stroke_goes_to_the_next_plain_d() {
    let mut buf = buffer_of("dod");
    apply_stroke(&mut buf);
    let result = apply_stroke(&mut buf);
    assert_eq!(result.modified_positions, vec![2]);
    assert!(buf.get(2).unwrap().stroke);
    let result = apply_stroke(&mut buf);
    assert!(!result.applied);
    assert!(result.modified_positions.is_empty());
    assert_eq!(buf.render(), "đođ");
}

#[test]
fn revert_stroke_takes_the_first_stroked_d() {
    let mut buf = buffer_of("Dod");
    apply_stroke(&mut buf);
    assert_eq!(buf.render(), "Đod");
    let result = revert_stroke(&mut buf);
    assert!(result.applied);
    assert_eq!(result.modified_positions, vec![0]);
    assert_eq!(buf.render(), "Dod");
    assert!(!revert_stroke(&mut buf).applied);
}

#[test]
fn mark_without_vowel_is_not_applied() {
    let mut buf = buffer_of("bcd");
    let result = apply_mark(&mut buf, mark::HUYEN, true);
    assert!(!result.applied);
    assert_eq!(buf.render(), "bcd");
}

#[test]
fn mark_value_out_of_range_is_not_applied() {
    let mut buf = buffer_of("an");
    let result = apply_mark(&mut buf, 6, true);
    assert!(!result.applied);
    assert_eq!(buf.render(), "an");
}

#[test]
fn mark_placement_two_vowels() {
    // No final: modern puts the mark on the first vowel, traditional on the second.
    let mut buf = buffer_of("hoa");
    apply_mark(&mut buf, mark::HUYEN, true);
    assert_eq!(buf.render(), "hòa");
    let mut buf = buffer_of("hoa");
    apply_mark(&mut buf, mark::HUYEN, false);
    assert_eq!(buf.render(), "hoà");
    // A final consonant puts it on the second vowel.
    let mut buf = buffer_of("hoan");
    apply_mark(&mut buf, mark::SAC, true);
    assert_eq!(buf.render(), "hoán");
}

#[test]
fn mark_placement_prefers_the_toned_vowel() {
    let mut buf = buffer_of("ua");
    apply_tone(&mut buf, keys::N7, tone::HORN, 1);
    assert_eq!(buf.render(), "ưa");
    apply_mark(&mut buf, mark::HOI, false);
    assert_eq!(buf.render(), "ửa");
}

#[test]
fn mark_placement_three_vowels_takes_the_middle() {
    let mut buf = buffer_of("nguoi");
    apply_tone(&mut buf, keys::W, tone::HORN, 0);
    let result = apply_mark(&mut buf, mark::HUYEN, true);
    assert_eq!(result.modified_positions, vec![3]);
    assert_eq!(buf.render(), "người");
}

#[test]
fn mark_placement_skips_the_u_of_qu_and_the_i_of_gi() {
    let mut buf = buffer_of("qua");
    apply_mark(&mut buf, mark::SAC, true);
    assert_eq!(buf.render(), "quá");
    let mut buf = buffer_of("gia");
    apply_mark(&mut buf, mark::HUYEN, true);
    assert_eq!(buf.render(), "già");
}

#[test]
fn a_new_mark_replaces_the_old_one() {
    let mut buf = buffer_of("an");
    apply_mark(&mut buf, mark::SAC, true);
    apply_mark(&mut buf, mark::NANG, true);
    assert_eq!(buf.render(), "ạn");
    assert_eq!(buf.get(0).unwrap().mark, mark::NANG);
}

#[test]
fn telex_circumflex_needs_the_twin_at_the_end() {
    let mut buf = buffer_of("a");
    let result = apply_tone(&mut buf, keys::A, tone::CIRCUMFLEX, 0);
    assert!(result.applied);
    assert_eq!(result.modified_positions, vec![0]);
    assert_eq!(buf.render(), "â");
    let mut buf = buffer_of("an");
    assert!(!apply_tone(&mut buf, keys::A, tone::CIRCUMFLEX, 0).applied);
    let mut buf = buffer_of("e");
    assert!(!apply_tone(&mut buf, keys::A, tone::CIRCUMFLEX, 0).applied);
}

#[test]
fn telex_circumflex_not_after_a_mark() {
    let mut buf = buffer_of("qua");
    apply_mark(&mut buf, mark::SAC, true);
    let result = apply_tone(&mut buf, keys::A, tone::CIRCUMFLEX, 0);
    assert!(!result.applied);
    assert_eq!(buf.render(), "quá");
}

#[test]
fn telex_w_gives_breve_on_a_lone_a() {
    let mut buf = buffer_of("an");
    let result = apply_tone(&mut buf, keys::W, tone::HORN, 0);
    assert!(result.applied);
    assert_eq!(buf.get(0).unwrap().tone, tone::BREVE);
    assert_eq!(buf.render(), "ăn");
}

#[test]
fn horn_on_u_alone_and_not_on_the_u_of_qu() {
    let mut buf = buffer_of("tu");
    apply_tone(&mut buf, keys::W, tone::HORN, 0);
    assert_eq!(buf.render(), "tư");
    let mut buf = buffer_of("quo");
    let result = apply_tone(&mut buf, keys::W, tone::HORN, 0);
    assert_eq!(result.modified_positions, vec![2]);
    assert_eq!(buf.render(), "quơ");
}

#[test]
fn horn_family_leaves_the_tail_vowel() {
    let mut buf = buffer_of("uou");
    let result = apply_tone(&mut buf, keys::N7, tone::HORN, 1);
    assert_eq!(result.modified_positions, vec![0, 1]);
    assert_eq!(buf.render(), "ươu");
}

#[test]
fn vni_tone_keys() {
    let mut buf = buffer_of("tie");
    assert!(apply_tone(&mut buf, keys::N6, tone::CIRCUMFLEX, 1).applied);
    assert_eq!(buf.render(), "tiê");
    let mut buf = buffer_of("an");
    assert!(apply_tone(&mut buf, keys::N8, tone::BREVE, 1).applied);
    assert_eq!(buf.render(), "ăn");
    let mut buf = buffer_of("an");
    assert!(!apply_tone(&mut buf, keys::N7, tone::HORN, 1).applied);
    assert!(!apply_tone(&mut buf, keys::N8, tone::CIRCUMFLEX, 1).applied);
}

#[test]
fn tone_moves_the_mark() {
    // The mark sits on the last vowel but one of "uoi"; the horn leaves it there.
    let mut buf = buffer_of("hoa");
    apply_mark(&mut buf, mark::SAC, false);
    assert_eq!(buf.render(), "hoá");
    // The circumflex cannot apply once a mark is there (Telex) but VNI can.
    let result = apply_tone(&mut buf, keys::N6, tone::CIRCUMFLEX, 1);
    assert!(result.applied);
    assert_eq!(buf.render(), "hoấ");
    let mut buf = buffer_of("uan");
    apply_mark(&mut buf, mark::HOI, true);
    assert_eq!(buf.render(), "uản");
    apply_tone(&mut buf, keys::N7, tone::HORN, 1);
    assert_eq!(buf.render(), "ửan");
}

#[test]
fn remove_takes_the_mark_first_then_the_tone() {
    let mut buf = buffer_of("an");
    apply_tone(&mut buf, keys::W, tone::HORN, 0);
    apply_mark(&mut buf, mark::SAC, true);
    assert_eq!(buf.render(), "ắn");
    let result = apply_remove(&mut buf);
    assert!(result.applied);
    assert_eq!(buf.render(), "ăn");
    let result = apply_remove(&mut buf);
    assert_eq!(result.modified_positions, vec![0]);
    assert_eq!(buf.render(), "an");
    let result = apply_remove(&mut buf);
    assert!(!result.applied);
    assert_eq!(buf.render(), "an");
}

#[test]
fn revert_tone_and_mark() {
    let mut buf = buffer_of("duoc");
    apply_tone(&mut buf, keys::W, tone::HORN, 0);
    apply_mark(&mut buf, mark::NANG, true);
    assert_eq!(buf.render(), "dược");
    let result = revert_mark(&mut buf);
    assert_eq!(result.modified_positions, vec![2]);
    assert_eq!(buf.render(), "dươc");
    assert!(!revert_mark(&mut buf).applied);
    let result = revert_tone(&mut buf, keys::O);
    assert_eq!(result.modified_positions, vec![2]);
    assert_eq!(buf.render(), "dưoc");
    assert!(!revert_tone(&mut buf, keys::A).applied);
    assert!(revert_tone(&mut buf, keys::U).applied);
    assert_eq!(buf.render(), "duoc");
}

#[test]
fn earliest_position_is_the_least() {
    assert_eq!(TransformResult::none().earliest_position(), None);
    assert_eq!(TransformResult::success(vec![4, 2, 7]).earliest_position(), Some(2));
    let r = TransformResult::success(vec![3]);
    assert!(r.applied);
    assert_eq!(r.earliest_position(), Some(3));
}

#[test]
fn buffer_keeps_at_most_one_mark_and_its_bound() {
    let mut buf = Buffer::new();
    let mut marked = Char::new(keys::A, false);
    marked.mark = mark::SAC;
    assert!(buf.push(marked));
    // A second marked record is refused.
    assert!(!buf.push(marked));
    // So are a mark on a consonant, a stroke off `d`, a tone that does not fit.
    let mut bad = Char::new(keys::B, false);
    bad.mark = mark::SAC;
    assert!(!buf.push(bad));
    let mut bad = Char::new(keys::B, false);
    bad.stroke = true;
    assert!(!buf.push(bad));
    let mut bad = Char::new(keys::I, false);
    bad.tone = tone::CIRCUMFLEX;
    assert!(!buf.push(bad));
    assert!(!buf.push(Char::new(keys::SPACE, false)));
    assert_eq!(buf.len(), 1);
    while buf.len() < 16 {
        assert!(buf.push(Char::new(keys::B, false)));
    }
    assert!(!buf.push(Char::new(keys::B, false)));
    assert_eq!(buf.len(), 16);
    assert_eq!(buf.pop().unwrap().key, keys::B);
    assert_eq!(buf.len(), 15);
    buf.clear();
    assert!(buf.is_empty());
    assert!(buf.pop().is_none());
}

#[test]
fn render_composes_every_letter() {
    let mut buf = Buffer::new();
    buf.push(Char::new(keys::D, true));
    buf.push(Char::new(keys::U, true));
    buf.push(Char::new(keys::O, false));
    buf.push(Char::new(keys::N9, false));
    apply_stroke(&mut buf);
    apply_tone(&mut buf, keys::W, tone::HORN, 0);
    apply_mark(&mut buf, mark::NGA, true);
    assert_eq!(buf.render(), "ĐƯỡ9");
    assert_eq!(buf.keys(), vec![keys::D, keys::U, keys::O, keys::N9]);
    assert_eq!(buf.find_vowels(), vec![1, 2]);
}
