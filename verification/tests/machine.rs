use wkb::keymap::{CaseMap, CharMap};
use wkb::modifiers::{
    level_index, KeyDirection, ModKind, ModType, Modifiers, CAPS_LOCK, LEFT_SHIFT, RIGHT_SHIFT,
};
use wkb::casing::{to_lowercase, to_uppercase};
use wkb::doc::{
    hex_string_to_unicode_char, parse_include, str_contains, str_eq,
    unicode_string_to_unicode_char,
};

#[test]
fn level_index_is_a_bijection_onto_0_to_7() {
    let mut seen = [false; 8];
    for &l5 in &[false, true] {
        for &l3 in &[false, true] {
            for &l2 in &[false, true] {
                let i = level_index(l5, l3, l2);
                assert!(i <= 7);
                assert!(!seen[i], "index {} hit twice", i);
                seen[i] = true;
                let expected = (if l5 { 4 } else { 0 }) + (if l3 { 2 } else { 0 }) + (if l2 {
                    1
                } else {
                    0
                });
                assert_eq!(i, expected);
            }
        }
    }
    assert!(seen.iter().all(|&b| b));
}

#[test]
fn lock_tap_parity() {
    let mut k = ModKind::Lock { pressed: false, locked: 0, mod_type: ModType::Plain };
    for round in 1..=6u32 {
        k.update(KeyDirection::Down);
        k.update(KeyDirection::Up);
        let active = k.is_active();
        assert_eq!(active, round % 2 == 1, "after {} taps", round);
    }
}

#[test]
fn lock_hysteresis_counter_steps() {
    let mut k = ModKind::Lock { pressed: false, locked: 0, mod_type: ModType::Plain };
    k.update(KeyDirection::Down);
    assert!(k.is_active());
    assert!(*k.pressed());
    k.update(KeyDirection::Up);
    assert!(k.is_active(), "a single tap leaves the lock active");
    assert!(!*k.pressed());
    k.update(KeyDirection::Down);
    k.update(KeyDirection::Up);
    assert!(!k.is_active(), "a second tap releases it");
}

#[test]
fn latch_persists_until_unlatch() {
    let mut k = ModKind::Latch { pressed: false, latched: false, mod_type: ModType::Level3 };
    k.update(KeyDirection::Down);
    assert!(k.is_active());
    k.update(KeyDirection::Up);
    assert!(k.is_active(), "a released latch stays latched");
    assert!(!*k.pressed());
}

#[test]
fn modifiers_default_bindings() {
    let m = Modifiers::default();
    assert!(!m.level2());
    assert!(!m.level3());
    assert!(!m.level5());
    assert!(!m.pressed(LEFT_SHIFT));
    assert!(!m.locked(CAPS_LOCK));
    let lc = m.level2_code();
    assert_eq!(lc, Some((LEFT_SHIFT, None)), "the lowest code bound to the shift class");
    assert_eq!(m.level3_code(), None);
    assert_eq!(m.level5_code(), None);
}

#[test]
fn modifiers_shift_press_release() {
    let mut m = Modifiers::default();
    assert!(m.set_state(LEFT_SHIFT, KeyDirection::Down));
    assert!(m.level2());
    assert!(m.pressed(LEFT_SHIFT));
    assert!(m.set_state(RIGHT_SHIFT, KeyDirection::Down));
    assert!(m.set_state(LEFT_SHIFT, KeyDirection::Up));
    assert!(m.level2(), "the other shift still feeds the class");
    assert!(m.set_state(RIGHT_SHIFT, KeyDirection::Up));
    assert!(!m.level2());
    assert!(!m.set_state(30, KeyDirection::Down), "an unbound code is not a modifier");
}

#[test]
fn modifiers_latched_binding_clears_on_unlatch() {
    let mut m = Modifiers::default();
    m.insert(
        100,
        ModKind::Latch { pressed: false, latched: false, mod_type: ModType::Level3 },
        0,
    );
    assert!(m.set_state(100, KeyDirection::Down));
    assert!(m.set_state(100, KeyDirection::Up));
    assert!(m.level3(), "latched after the key was released");
    m.unlatch();
    assert!(!m.level3(), "unlatch clears a released latch");
    assert!(m.set_state(100, KeyDirection::Down));
    m.unlatch();
    assert!(m.level3(), "unlatch keeps a latch whose key is still held");
}

#[test]
fn leveled_binding_selects_by_current_level() {
    let mut m = Modifiers::default();
    // Slot 0 feeds Level3, slot 1 (reached while shifted) feeds Level5.
    m.insert(100, ModKind::Pressed { pressed: false, mod_type: ModType::Level3 }, 0);
    m.insert(100, ModKind::Pressed { pressed: false, mod_type: ModType::Level5 }, 1);
    assert_eq!(m.level3_code(), Some((100, Some(0))));
    assert_eq!(m.level5_code(), Some((100, Some(1))));
    assert!(m.set_state(LEFT_SHIFT, KeyDirection::Down));
    assert!(m.set_state(100, KeyDirection::Down));
    assert!(m.level5(), "the slot matching the pre-event level is updated");
    assert!(!m.level3());
    assert!(m.set_state(100, KeyDirection::Up));
    assert!(m.level5(), "the release selects by the now-higher level, falls back to slot 0, and leaves the slot-1 kind pressed");
}

#[test]
fn charmap_put_and_get() {
    let mut cm = CharMap::new();
    assert_eq!(cm.get(10), None);
    cm.put(10, 'a');
    cm.put(5, 'b');
    cm.put(10, 'c');
    assert_eq!(cm.get(10), Some('c'));
    assert_eq!(cm.get(5), Some('b'));
    assert_eq!(cm.get(7), None);
    assert_eq!(cm.len(), 2);
}

#[test]
fn casing_with_custom_table() {
    let mut cm = CaseMap::new();
    cm.put('\u{df}', '\u{1e9e}');
    let table = Some(cm);
    assert_eq!(to_uppercase('\u{df}', &table), '\u{1e9e}');
    assert_eq!(to_uppercase('a', &table), 'A');
    assert_eq!(to_lowercase('B', &table), 'b');
}

#[test]
fn casing_never_expands() {
    // The uppercase mapping of the sharp s is two characters, so the plain
    // fold keeps the character unchanged.
    assert_eq!(to_uppercase('\u{df}', &None), '\u{df}');
    assert_eq!(to_uppercase('q', &None), 'Q');
    // The plain lowercase fold of an already-lowercase character folds up.
    assert_eq!(to_lowercase('x', &None), 'X');
}

#[test]
fn parse_include_forms() {
    assert_eq!(
        parse_include("de(basic)"),
        Some(("de".to_string(), Some("basic".to_string())))
    );
    assert_eq!(parse_include("latin"), Some(("latin".to_string(), None)));
    assert_eq!(
        parse_include("level3(ralt_switch)"),
        Some(("level3".to_string(), Some("ralt_switch".to_string())))
    );
    assert_eq!(
        parse_include("macintosh_vndr/ch(de_nodeadkeys)"),
        Some(("ch".to_string(), Some("de_nodeadkeys".to_string())))
    );
    assert_eq!(parse_include(""), None);
    assert_eq!(parse_include("()"), None);
}

#[test]
fn hex_value_forms() {
    assert_eq!(unicode_string_to_unicode_char("U0041"), Some('A'));
    assert_eq!(unicode_string_to_unicode_char("U1E9E"), Some('\u{1e9e}'));
    assert_eq!(unicode_string_to_unicode_char("U"), None);
    assert_eq!(unicode_string_to_unicode_char("UZZ"), None);
    // The 0x form reads the last five characters, so only five-digit
    // codepoints resolve.
    assert_eq!(hex_string_to_unicode_char("0x1F600"), Some('\u{1f600}'));
    assert_eq!(hex_string_to_unicode_char("0x41"), None);
    assert_eq!(hex_string_to_unicode_char("0xABCD"), None);
}

#[test]
fn string_helpers() {
    assert!(str_eq("abc", "abc"));
    assert!(!str_eq("abc", "abd"));
    assert!(!str_eq("abc", "ab"));
    assert!(str_contains("NoSymbol", "Symbol"));
    assert!(!str_contains("NoSymbol", "none"));
    assert!(str_contains("none", "none"));
}
