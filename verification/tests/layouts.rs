use wkb::doc::{CharTable, DocSet, Document, KeyCodeTable, LayoutBlock, SymbolsItem};
use wkb::interp::WkbError;
use wkb::modifiers::{KeyDirection, ModType, CAPS_LOCK, LEFT_SHIFT, NUM_LOCK};
use wkb::wkb::{RepeatTable, WKB};
use wkb::ComposeStatus;
use wkb::FeedResult;

fn key(id: &str, values: &[&str]) -> SymbolsItem {
    SymbolsItem::Key {
        id: id.to_string(),
        values: values.iter().map(|v| v.to_string()).collect(),
    }
}

fn block(name: &str, items: Vec<SymbolsItem>) -> LayoutBlock {
    LayoutBlock { name: name.to_string(), items }
}

fn keycodes() -> KeyCodeTable {
    let mut t = KeyCodeTable::new();
    t.add("AE11".to_string(), 12);
    t.add("K21".to_string(), 21);
    t.add("K23".to_string(), 23);
    t.add("K44".to_string(), 44);
    t.add("LVL3".to_string(), 100);
    t
}

fn chartab() -> CharTable {
    let mut t = CharTable::new();
    t.add("ssharp".to_string(), '\u{df}');
    t.add("question".to_string(), '?');
    t
}

fn repeats() -> RepeatTable {
    RepeatTable {
        entries: vec![("de".to_string(), vec![("basic".to_string(), vec![12, 30])])],
        default_keys: vec![1, 2],
    }
}

fn fixture_docs() -> DocSet {
    let de = Document {
        blocks: vec![
            block("basic", vec![key("AE11", &["ssharp", "question"])]),
            block(
                "extra",
                vec![SymbolsItem::Include { target: "de(basic)".to_string() }],
            ),
            block(
                "ru",
                vec![key("K21", &["a", "b"]), key("K44", &["c", "d"])],
            ),
            block(
                "lat",
                vec![key("K21", &["a", "b", "x"]), key("LVL3", &["ISO_Level3_Latch"])],
            ),
            block("sun_type6", vec![]),
        ],
    };
    let xy = Document {
        blocks: vec![
            block(
                "ru",
                vec![key("K21", &["a", "b"]), key("K44", &["c", "d"])],
            ),
            block("mac", vec![key("K21", &["a", "b"])]),
        ],
    };
    let us = Document { blocks: vec![block("mac", vec![key("K21", &["a", "b"])])] };
    let az = Document { blocks: vec![block("latin", vec![key("K23", &["a", "b"])])] };
    DocSet {
        docs: vec![
            ("de".to_string(), de),
            ("xy".to_string(), xy),
            ("us".to_string(), us),
            ("az".to_string(), az),
        ],
    }
}

fn build(locale: &str, layout: Option<&str>) -> WKB {
    WKB::new_from_names(
        locale.to_string(),
        layout.map(|l| l.to_string()),
        &fixture_docs(),
        &keycodes(),
        &chartab(),
        &repeats(),
    )
    .expect("construction")
}

#[test]
fn construction_errors() {
    let r = WKB::new_from_names(
        "nowhere".to_string(),
        None,
        &fixture_docs(),
        &keycodes(),
        &chartab(),
        &repeats(),
    );
    assert!(matches!(r, Err(WkbError::MissingDocument(_))));
    let r = WKB::new_from_names(
        "de".to_string(),
        Some("missing".to_string()),
        &fixture_docs(),
        &keycodes(),
        &chartab(),
        &repeats(),
    );
    assert!(matches!(r, Err(WkbError::UnknownLayout(_))));
}

#[test]
fn default_layout_is_first_declared() {
    let w = build("de", None);
    assert_eq!(w.current_layout(), "basic".to_string());
}

#[test]
fn layouts_excludes_compat_names() {
    let w = build("de", Some("basic"));
    let names = w.layouts();
    assert_eq!(names, vec!["basic", "extra", "ru", "lat"]);
}

#[test]
fn plain_and_shifted_resolution() {
    let mut w = build("de", Some("basic"));
    assert_eq!(w.utf8(12), Some('\u{df}'));
    w.update_key(LEFT_SHIFT, KeyDirection::Down);
    assert_eq!(w.utf8(12), Some('?'));
    w.update_key(LEFT_SHIFT, KeyDirection::Up);
    assert_eq!(w.utf8(12), Some('\u{df}'));
}

#[test]
fn caps_lock_uses_custom_case_map() {
    // The German layouts map the sharp s to the capital sharp s under Caps
    // Lock, not to the generic two-character uppercase expansion.
    let mut w = build("de", Some("basic"));
    w.update_key(CAPS_LOCK, KeyDirection::Down);
    assert_eq!(w.utf8(12), Some('\u{1e9e}'));
}

#[test]
fn caps_lock_folds_base_level_generically() {
    // In a locale without a corrective entry, Caps Lock folds the
    // base-level character up.
    let mut w = build("xy", Some("ru"));
    w.update_key(CAPS_LOCK, KeyDirection::Down);
    assert_eq!(w.utf8(21), Some('A'));
}

#[test]
fn num_lock_forces_second_level() {
    let mut w = build("de", Some("basic"));
    assert_eq!(w.utf8(79), None, "keypad 1 has no base-level entry here");
    w.update_key(NUM_LOCK, KeyDirection::Down);
    assert_eq!(w.utf8(79), Some('1'), "Num Lock reads the digit from level 1");
}

#[test]
fn german_russian_swap() {
    let generic = build("xy", Some("ru"));
    let mut corrected = build("de", Some("ru"));
    assert_eq!(generic.level_key(21, 0), Some('a'));
    assert_eq!(generic.level_key(44, 0), Some('c'));
    assert_eq!(corrected.level_key(21, 0), Some('c'));
    assert_eq!(corrected.level_key(44, 0), Some('a'));
    assert_eq!(corrected.level_key(21, 1), Some('d'));
    assert_eq!(corrected.level_key(44, 1), Some('b'));
    assert_eq!(corrected.utf8(21), Some('c'));
}

#[test]
fn include_only_layout_matches_included_table() {
    let basic = build("de", Some("basic"));
    let extra = build("de", Some("extra"));
    assert_eq!(basic.level_keymap(), extra.level_keymap());
}

#[test]
fn caps_level2_disabled_quirk() {
    // us/mac disables the caps-on-shifted folding; the generic locale folds.
    let mut plain = build("xy", Some("mac"));
    plain.update_key(CAPS_LOCK, KeyDirection::Down);
    plain.update_key(LEFT_SHIFT, KeyDirection::Down);
    assert_eq!(plain.utf8(21), Some('B'));
    let mut mac = build("us", Some("mac"));
    mac.update_key(CAPS_LOCK, KeyDirection::Down);
    mac.update_key(LEFT_SHIFT, KeyDirection::Down);
    assert_eq!(mac.utf8(21), Some('b'));
}

#[test]
fn caps_is_level2_quirk() {
    // az/latin reads the shifted character directly under Caps Lock for the
    // listed codes instead of case-folding the base one.
    let mut w = build("az", Some("latin"));
    w.update_key(CAPS_LOCK, KeyDirection::Down);
    assert_eq!(w.utf8(23), Some('b'));
}

#[test]
fn latch_resolves_once() {
    let mut w = build("de", Some("lat"));
    assert_eq!(w.utf8(21), Some('a'));
    w.update_key(100, KeyDirection::Down);
    w.update_key(100, KeyDirection::Up);
    assert_eq!(w.utf8(21), Some('x'), "the latched third level fires once");
    assert_eq!(w.utf8(21), Some('a'), "the latch cleared after the character");
}

#[test]
fn latch_held_key_stays_latched() {
    let mut w = build("de", Some("lat"));
    w.update_key(100, KeyDirection::Down);
    assert_eq!(w.utf8(21), Some('x'));
    assert_eq!(w.utf8(21), Some('x'), "a held latch acts like a held shift");
    w.update_key(100, KeyDirection::Up);
    assert_eq!(w.utf8(21), Some('x'), "still latched until a character resolves");
    assert_eq!(w.utf8(21), Some('a'));
}

#[test]
fn caps_lock_two_tap_toggle() {
    let mut w = build("de", Some("basic"));
    w.update_key(CAPS_LOCK, KeyDirection::Down);
    w.update_key(CAPS_LOCK, KeyDirection::Up);
    assert_eq!(w.utf8(12), Some('\u{1e9e}'), "one tap leaves Caps Lock active");
    w.update_key(CAPS_LOCK, KeyDirection::Down);
    w.update_key(CAPS_LOCK, KeyDirection::Up);
    assert_eq!(w.utf8(12), Some('\u{df}'), "a second tap releases it");
}

#[test]
fn key_repeat_table() {
    let basic = build("de", Some("basic"));
    assert!(basic.key_repeats(12));
    assert!(basic.key_repeats(30));
    assert!(!basic.key_repeats(1));
    let extra = build("de", Some("extra"));
    assert!(extra.key_repeats(1), "an unlisted layout uses the default set");
    assert!(!extra.key_repeats(12));
}

#[test]
fn compose_non_combining_while_idle_cancels() {
    let mut w = build("de", Some("basic"));
    assert_eq!(w.compose_status(), ComposeStatus::Idle);
    assert_eq!(w.compose_feed('x'), FeedResult::Ignored);
    assert_eq!(w.compose_status(), ComposeStatus::Cancelled);
    assert_eq!(w.compose_feed('y'), FeedResult::Ignored);
    assert_eq!(w.compose_status(), ComposeStatus::Cancelled);
}

#[test]
fn compose_combining_then_base_composes() {
    let mut w = build("de", Some("basic"));
    assert_eq!(w.compose_feed('\u{301}'), FeedResult::Accepted);
    assert_eq!(w.compose_status(), ComposeStatus::Composing);
    assert_eq!(w.compose_feed('e'), FeedResult::Accepted);
    assert_eq!(w.compose_status(), ComposeStatus::Composed);
    assert_eq!(w.compose_utf8(), '\u{e9}');
}

#[test]
fn compose_uncomposable_cancels() {
    let mut w = build("de", Some("basic"));
    assert_eq!(w.compose_feed('\u{301}'), FeedResult::Accepted);
    assert_eq!(w.compose_feed('q'), FeedResult::Ignored);
    assert_eq!(w.compose_status(), ComposeStatus::Cancelled);
}

#[test]
fn no_layouts_error() {
    let docs = DocSet {
        docs: vec![(
            "sunonly".to_string(),
            Document { blocks: vec![block("sun_type6", vec![])] },
        )],
    };
    let r = WKB::new_from_names(
        "sunonly".to_string(),
        None,
        &docs,
        &keycodes(),
        &chartab(),
        &repeats(),
    );
    assert!(matches!(r, Err(WkbError::NoLayouts)));
}

#[test]
fn include_cycle_is_rejected() {
    let docs = DocSet {
        docs: vec![(
            "cy".to_string(),
            Document {
                blocks: vec![block(
                    "basic",
                    vec![SymbolsItem::Include { target: "cy(basic)".to_string() }],
                )],
            },
        )],
    };
    let r = WKB::new_from_names(
        "cy".to_string(),
        Some("basic".to_string()),
        &docs,
        &keycodes(),
        &chartab(),
        &repeats(),
    );
    assert!(matches!(r, Err(WkbError::IncludeTooDeep)));
}

#[test]
fn include_of_missing_locale_is_fatal() {
    let docs = DocSet {
        docs: vec![(
            "aa".to_string(),
            Document {
                blocks: vec![block(
                    "basic",
                    vec![SymbolsItem::Include { target: "bb(basic)".to_string() }],
                )],
            },
        )],
    };
    let r = WKB::new_from_names(
        "aa".to_string(),
        Some("basic".to_string()),
        &docs,
        &keycodes(),
        &chartab(),
        &repeats(),
    );
    match r {
        Err(WkbError::MissingDocument(l)) => assert_eq!(l, "bb".to_string()),
        other => panic!("expected a missing-document failure, got {:?}", other),
    }
}

#[test]
fn level3_through_pressed_binding() {
    // A third-level shift registered from the block itself.
    let docs = DocSet {
        docs: vec![(
            "zz".to_string(),
            Document {
                blocks: vec![block(
                    "basic",
                    vec![
                        key("K21", &["a", "b", "c", "d"]),
                        key("LVL3", &["ISO_Level3_Shift"]),
                    ],
                )],
            },
        )],
    };
    let mut w = WKB::new_from_names(
        "zz".to_string(),
        None,
        &docs,
        &keycodes(),
        &chartab(),
        &repeats(),
    )
    .expect("construction");
    assert_eq!(w.utf8(21), Some('a'));
    w.update_key(100, KeyDirection::Down);
    assert_eq!(w.utf8(21), Some('c'), "level 3 while the switch is held");
    w.update_key(LEFT_SHIFT, KeyDirection::Down);
    assert_eq!(w.utf8(21), Some('d'), "level 3 plus shift");
    w.update_key(LEFT_SHIFT, KeyDirection::Up);
    w.update_key(100, KeyDirection::Up);
    assert_eq!(w.utf8(21), Some('a'));
}

#[test]
fn key_symbols_form_resolves_through_table_only() {
    // The `symbols[..]` form resolves through the symbol table alone: a
    // plain letter is not taken literally there.
    let docs = DocSet {
        docs: vec![(
            "zz".to_string(),
            Document {
                blocks: vec![block(
                    "basic",
                    vec![
                        key("K21", &["a", "b"]),
                        SymbolsItem::KeySymbols {
                            id: "K44".to_string(),
                            values: vec!["question".to_string(), "x".to_string()],
                        },
                    ],
                )],
            },
        )],
    };
    let w = WKB::new_from_names(
        "zz".to_string(),
        None,
        &docs,
        &keycodes(),
        &chartab(),
        &repeats(),
    )
    .expect("construction");
    assert_eq!(w.level_key(44, 0), Some('?'));
    assert_eq!(w.level_key(44, 1), Some('?'), "the unresolved slot was filled forward");
}

#[test]
fn none_inherits_and_nosymbol_skips() {
    let docs = DocSet {
        docs: vec![(
            "zz".to_string(),
            Document {
                blocks: vec![block(
                    "basic",
                    vec![
                        key("K21", &["a", "none"]),
                        key("K44", &["NoSymbol", "d"]),
                    ],
                )],
            },
        )],
    };
    let w = WKB::new_from_names(
        "zz".to_string(),
        None,
        &docs,
        &keycodes(),
        &chartab(),
        &repeats(),
    )
    .expect("construction");
    assert_eq!(w.level_key(21, 1), Some('a'), "`none` inherits the previous level");
    assert_eq!(w.level_key(44, 0), None, "`NoSymbol` binds nothing at its level");
    assert_eq!(w.level_key(44, 1), Some('d'));
}

#[test]
fn unicode_values_in_key_entries() {
    let docs = DocSet {
        docs: vec![(
            "zz".to_string(),
            Document {
                blocks: vec![block("basic", vec![key("K21", &["U1E9E", "0x1F600"])])],
            },
        )],
    };
    let w = WKB::new_from_names(
        "zz".to_string(),
        None,
        &docs,
        &keycodes(),
        &chartab(),
        &repeats(),
    )
    .expect("construction");
    assert_eq!(w.level_key(21, 0), Some('\u{1e9e}'));
    assert_eq!(w.level_key(21, 1), Some('\u{1f600}'));
}

#[test]
fn caps_backspace_prestep_seeds_second_level() {
    let docs = DocSet {
        docs: vec![(
            "zz".to_string(),
            Document {
                blocks: vec![block(
                    "basic",
                    vec![key("K21", &["a", "b"]), key("CAPS", &["BackSpace"])],
                )],
            },
        )],
    };
    let mut kt = keycodes();
    kt.add("CAPS".to_string(), 58);
    let w = WKB::new_from_names(
        "zz".to_string(),
        None,
        &docs,
        &kt,
        &chartab(),
        &repeats(),
    )
    .expect("construction");
    assert_eq!(
        w.level_key(58, 1),
        Some('\u{8}'),
        "the repurposed caps key's second level takes the backspace character"
    );
}

#[test]
fn compose_trigger_binding_is_queryable() {
    let docs = DocSet {
        docs: vec![(
            "zz".to_string(),
            Document {
                blocks: vec![block(
                    "basic",
                    vec![key("K21", &["a", "b"]), key("LVL3", &["Multi_key"])],
                )],
            },
        )],
    };
    let w = WKB::new_from_names(
        "zz".to_string(),
        None,
        &docs,
        &keycodes(),
        &chartab(),
        &repeats(),
    )
    .expect("construction");
    assert_eq!(w.modifiers.level_code(ModType::Compose), Some((100, None)));
}
