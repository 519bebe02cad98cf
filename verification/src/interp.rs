//! The symbol-table interpreter: it walks a layout block, resolves each key
//! entry's per-slot values into characters or modifier bindings, and
//! recurses through include directives into other locales' documents.

use vstd::prelude::*;
use crate::doc::{
    ct_get, kt_get, spec_is_alphanumeric, char_is_alphanumeric, hex_digit_val,
    spec_unicode_value_char, spec_hex_value_char, unicode_string_to_unicode_char,
    hex_string_to_unicode_char, spec_str_contains, str_contains, str_eq, CharTable, KeyCodeTable,
};
use crate::keymap::{
    levels_views, levels_wf, lemma_levels_views_push, lemma_levels_views_update, default_level_map,
    spec_default_level, CharMap, CodeMap,
};
use crate::modifiers::{spec_mods_insert, ModKind, ModType, Modifiers, ModsModel};

verus! {

/// The abstract state that interpretation builds up: the per-level character
/// tables, the modifier bindings, the recorded key remap, and the flag for
/// the dual-shift caps convention.
#[verifier::ext_equal]
pub struct MapSt {
    pub levels: Seq<Map<u32, char>>,
    pub mods: ModsModel,
    pub remap: Map<u32, u32>,
    pub rl_shift_caps: bool,
}

/// The concrete interpretation state.
#[derive(Debug, Clone)]
pub struct MapState {
    pub level_keymap: Vec<CharMap>,
    pub modifiers: Modifiers,
    pub remap: CodeMap,
    pub right_left_shift_caps: bool,
}

impl MapState {
    pub open spec fn wf(&self) -> bool {
        levels_wf(self.level_keymap@) && self.modifiers.wf() && self.remap.wf()
    }

    pub open spec fn model(&self) -> MapSt {
        MapSt {
            levels: levels_views(self.level_keymap@),
            mods: self.modifiers.model(),
            remap: self.remap.model(),
            rl_shift_caps: self.right_left_shift_caps,
        }
    }
}

/// Whether every character of the value after the first is a hexadecimal
/// digit.
pub open spec fn spec_all_hex(s: Seq<char>) -> bool {
    forall |j: int| 0 <= j < s.len() ==> (#[trigger] hex_digit_val(s[j])) is Some
}

/// How one symbol value resolves to a character: a single alphanumeric
/// character stands for itself; `U` followed by hexadecimal digits and a
/// `0x`-prefixed value are read as scalar values; anything else is looked up
/// in the symbol table.
pub open spec fn spec_resolve_value(v: Seq<char>, ct: Seq<(String, char)>) -> Option<char> {
    if v.len() == 1 && spec_is_alphanumeric(v[0]) {
        Some(v[0])
    } else if v.len() >= 1 && v[0] == 'U' && spec_all_hex(v.drop_first()) {
        spec_unicode_value_char(v)
    } else if v.len() >= 2 && v[0] == '0' && v[1] == 'x' {
        spec_hex_value_char(v)
    } else {
        ct_get(ct, v)
    }
}

/// Resolve one symbol value to a character, if it denotes one.
pub fn resolve_value(v: &str, ct: &CharTable) -> (r: Option<char>)
    ensures
        r == spec_resolve_value(v@, ct.entries@),
{
    let n = v.unicode_len();
    if n == 1 && char_is_alphanumeric(v.get_char(0)) {
        return Some(v.get_char(0));
    }
    if n >= 1 && v.get_char(0) == 'U' {
        let mut j: usize = 1;
        while j < n && crate::doc::hex_digit_val_exec(v.get_char(j)).is_some()
            invariant
                n == v@.len(),
                1 <= j <= n,
                forall |jj: int| 1 <= jj < j ==> (#[trigger] hex_digit_val(v@[jj])) is Some,
            decreases n - j,
        {
            j = j + 1;
        }
        if j == n {
            proof {
                assert forall |jj: int| 0 <= jj < v@.drop_first().len() implies (
                #[trigger] hex_digit_val(v@.drop_first()[jj])) is Some by {
                    assert(v@.drop_first()[jj] == v@[jj + 1]);
                };
            }
            return unicode_string_to_unicode_char(v);
        }
        proof {
            assert(hex_digit_val(v@[j as int]) is None);
            assert(v@.drop_first()[j - 1] == v@[j as int]);
            assert(!spec_all_hex(v@.drop_first()));
        }
    }
    if n >= 2 && v.get_char(0) == '0' && v.get_char(1) == 'x' {
        return hex_string_to_unicode_char(v);
    }
    ct.get(v)
}

pub open spec fn k_pressed(t: ModType) -> ModKind {
    ModKind::Pressed { pressed: false, mod_type: t }
}

pub open spec fn k_lock(t: ModType) -> ModKind {
    ModKind::Lock { pressed: false, locked: 0, mod_type: t }
}

pub open spec fn k_latch(t: ModType) -> ModKind {
    ModKind::Latch { pressed: false, latched: false, mod_type: t }
}

/// The effect of a symbol value that did not resolve to a character: the
/// named modifiers register a binding at the slot where they were found, a
/// handful of switch conventions named by the layout itself register fixed
/// behavior, `none` inherits the character from the previous level, and
/// everything else is ignored.
pub open spec fn spec_apply_token(
    st: MapSt,
    v: Seq<char>,
    layout: Seq<char>,
    locale: Seq<char>,
    id: Seq<char>,
    code: u32,
    i: nat,
) -> MapSt {
    if v == "Eisu_toggle"@ {
        MapSt { mods: spec_mods_insert(st.mods, code, k_lock(ModType::Plain), 1u8), ..st }
    } else if v == "Control_L"@ {
        if id == "CAPS"@ {
            MapSt { remap: st.remap.insert(code, 29u32), ..st }
        } else {
            st
        }
    } else if v == "Shift_L"@ || v == "Shift_R"@ || v == "Shift_Lock"@ {
        MapSt { mods: spec_mods_insert(st.mods, code, k_lock(ModType::Level2), i as u8), ..st }
    } else if v == "ISO_Level3_Shift"@ {
        MapSt { mods: spec_mods_insert(st.mods, code, k_pressed(ModType::Level3), i as u8), ..st }
    } else if v == "ISO_Level3_Lock"@ {
        MapSt { mods: spec_mods_insert(st.mods, code, k_lock(ModType::Level3), i as u8), ..st }
    } else if v == "ISO_Level3_Latch"@ {
        MapSt { mods: spec_mods_insert(st.mods, code, k_latch(ModType::Level3), i as u8), ..st }
    } else if v == "ISO_Level5_Shift"@ {
        MapSt { mods: spec_mods_insert(st.mods, code, k_pressed(ModType::Level5), i as u8), ..st }
    } else if v == "ISO_Level5_Lock"@ {
        MapSt { mods: spec_mods_insert(st.mods, code, k_lock(ModType::Level5), i as u8), ..st }
    } else if v == "ISO_Level5_Latch"@ {
        MapSt { mods: spec_mods_insert(st.mods, code, k_latch(ModType::Level5), i as u8), ..st }
    } else if v == "Multi_key"@ {
        MapSt { mods: spec_mods_insert(st.mods, code, k_pressed(ModType::Compose), i as u8), ..st }
    } else if layout == "rshift_both_shiftlock"@ || layout == "lshift_both_shiftlock"@ {
        MapSt { rl_shift_caps: true, ..st }
    } else if layout == "bksl_switch"@ {
        MapSt { mods: spec_mods_insert(st.mods, code, k_pressed(ModType::Level3), i as u8), ..st }
    } else if layout == "caps_switch"@ {
        if locale == "level3"@ {
            MapSt { mods: spec_mods_insert(st.mods, code, k_pressed(ModType::Level3), i as u8), ..st }
        } else {
            MapSt { mods: spec_mods_insert(st.mods, code, k_pressed(ModType::Level5), i as u8), ..st }
        }
    } else if spec_str_contains(v, "none"@) {
        if i > 0 && i < st.levels.len() && st.levels[i - 1].dom().contains(code) {
            MapSt {
                levels: st.levels.update(
                    i as int,
                    st.levels[i as int].insert(code, st.levels[i - 1][code]),
                ),
                ..st
            }
        } else {
            st
        }
    } else {
        st
    }
}

impl MapState {
    /// Handle one unresolved symbol value, per [`spec_apply_token`].
    fn apply_token(
        &mut self,
        v: &str,
        layout: &str,
        locale: &str,
        id: &str,
        code: u32,
        i: usize,
    )
        requires
            old(self).wf(),
            i < 8,
        ensures
            final(self).wf(),
            final(self).model() == spec_apply_token(
                old(self).model(),
                v@,
                layout@,
                locale@,
                id@,
                code,
                i as nat,
            ),
    {
        if str_eq(v, "Eisu_toggle") {
            self.modifiers.insert(
                code,
                ModKind::Lock { pressed: false, locked: 0, mod_type: ModType::Plain },
                1,
            );
        } else if str_eq(v, "Control_L") {
            if str_eq(id, "CAPS") {
                self.remap.put(code, 29);
            }
        } else if str_eq(v, "Shift_L") || str_eq(v, "Shift_R") || str_eq(v, "Shift_Lock") {
            self.modifiers.insert(
                code,
                ModKind::Lock { pressed: false, locked: 0, mod_type: ModType::Level2 },
                i as u8,
            );
        } else if str_eq(v, "ISO_Level3_Shift") {
            self.modifiers.insert(
                code,
                ModKind::Pressed { pressed: false, mod_type: ModType::Level3 },
                i as u8,
            );
        } else if str_eq(v, "ISO_Level3_Lock") {
            self.modifiers.insert(
                code,
                ModKind::Lock { pressed: false, locked: 0, mod_type: ModType::Level3 },
                i as u8,
            );
        } else if str_eq(v, "ISO_Level3_Latch") {
            self.modifiers.insert(
                code,
                ModKind::Latch { pressed: false, latched: false, mod_type: ModType::Level3 },
                i as u8,
            );
        } else if str_eq(v, "ISO_Level5_Shift") {
            self.modifiers.insert(
                code,
                ModKind::Pressed { pressed: false, mod_type: ModType::Level5 },
                i as u8,
            );
        } else if str_eq(v, "ISO_Level5_Lock") {
            self.modifiers.insert(
                code,
                ModKind::Lock { pressed: false, locked: 0, mod_type: ModType::Level5 },
                i as u8,
            );
        } else if str_eq(v, "ISO_Level5_Latch") {
            self.modifiers.insert(
                code,
                ModKind::Latch { pressed: false, latched: false, mod_type: ModType::Level5 },
                i as u8,
            );
        } else if str_eq(v, "Multi_key") {
            self.modifiers.insert(
                code,
                ModKind::Pressed { pressed: false, mod_type: ModType::Compose },
                i as u8,
            );
        } else if str_eq(layout, "rshift_both_shiftlock") || str_eq(
            layout,
            "lshift_both_shiftlock",
        ) {
            self.right_left_shift_caps = true;
        } else if str_eq(layout, "bksl_switch") {
            self.modifiers.insert(
                code,
                ModKind::Pressed { pressed: false, mod_type: ModType::Level3 },
                i as u8,
            );
        } else if str_eq(layout, "caps_switch") {
            if str_eq(locale, "level3") {
                self.modifiers.insert(
                    code,
                    ModKind::Pressed { pressed: false, mod_type: ModType::Level3 },
                    i as u8,
                );
            } else {
                self.modifiers.insert(
                    code,
                    ModKind::Pressed { pressed: false, mod_type: ModType::Level5 },
                    i as u8,
                );
            }
        } else if str_contains(v, "none") {
            if i > 0 && i < self.level_keymap.len() {
                if let Some(ch) = self.level_keymap[i - 1].get(code) {
                    let ghost lv_old = self.level_keymap@;
                    let lm = &mut self.level_keymap[i];
                    lm.put(code, ch);
                    proof {
                        lemma_levels_views_update(lv_old, i as int, self.level_keymap@[i as int]);
                        assert(self.model() =~= spec_apply_token(
                            old(self).model(),
                            v@,
                            layout@,
                            locale@,
                            id@,
                            code,
                            i as nat,
                        ));
                    }
                }
            }
        }
    }
}


/// One slot of a key entry: grow the level tables to reach the slot (never
/// past eight levels), record a remap when the value names a key, then bind
/// the resolved character or handle the value as a token.
pub open spec fn spec_do_key_slot(
    kt: Seq<(String, u32)>,
    ct: Seq<(String, char)>,
    locale: Seq<char>,
    layout: Seq<char>,
    id: Seq<char>,
    code: u32,
    i: nat,
    v: Seq<char>,
    st: MapSt,
) -> MapSt {
    if i >= 8 {
        st
    } else {
        let st1 = if i == st.levels.len() {
            MapSt { levels: st.levels.push(spec_default_level(i as int)), ..st }
        } else {
            st
        };
        let st2 = match kt_get(kt, v) {
            Some(rc) => MapSt { remap: st1.remap.insert(code, rc), ..st1 },
            None => st1,
        };
        match spec_resolve_value(v, ct) {
            Some(ch) => (if i < st2.levels.len() {
                MapSt {
                    levels: st2.levels.update(i as int, st2.levels[i as int].insert(code, ch)),
                    ..st2
                }
            } else {
                st2
            }),
            None => spec_apply_token(st2, v, layout, locale, id, code, i),
        }
    }
}

/// The slots of a key entry, processed in order from slot `i` on.
pub open spec fn spec_do_key_values(
    kt: Seq<(String, u32)>,
    ct: Seq<(String, char)>,
    locale: Seq<char>,
    layout: Seq<char>,
    id: Seq<char>,
    code: u32,
    values: Seq<Seq<char>>,
    i: nat,
    st: MapSt,
) -> MapSt
    decreases values.len() - i,
{
    if i >= values.len() {
        st
    } else {
        spec_do_key_values(
            kt,
            ct,
            locale,
            layout,
            id,
            code,
            values,
            i + 1,
            spec_do_key_slot(kt, ct, locale, layout, id, code, i, values[i as int], st),
        )
    }
}

/// The special handling of a `CAPS` key entry whose first value is
/// `BackSpace` or `Tab`: record the intended physical remap, and for
/// `BackSpace` seed the caps key's second level from the backspace key's
/// first level.
pub open spec fn spec_caps_prestep(st: MapSt, id: Seq<char>, values: Seq<Seq<char>>, code: u32) -> MapSt {
    if id == "CAPS"@ && values.len() > 0 && values[0] == "BackSpace"@ {
        let st1 = MapSt { remap: st.remap.insert(code, 14u32), ..st };
        if st1.levels.len() > 1 && st1.levels[0].dom().contains(14u32) {
            MapSt {
                levels: st1.levels.update(1, st1.levels[1].insert(58u32, st1.levels[0][14u32])),
                ..st1
            }
        } else {
            st1
        }
    } else if id == "CAPS"@ && values.len() > 0 && values[0] == "Tab"@ {
        MapSt { remap: st.remap.insert(code, 15u32), ..st }
    } else {
        st
    }
}

/// A whole key entry of the key-names form: look the identifier up in the
/// scan-code table (an unknown identifier skips the entry), apply the `CAPS`
/// prestep, then process the slots in order.
pub open spec fn spec_do_key(
    kt: Seq<(String, u32)>,
    ct: Seq<(String, char)>,
    locale: Seq<char>,
    layout: Seq<char>,
    id: Seq<char>,
    values: Seq<Seq<char>>,
    st: MapSt,
) -> MapSt {
    match kt_get(kt, id) {
        None => st,
        Some(code) => spec_do_key_values(
            kt,
            ct,
            locale,
            layout,
            id,
            code,
            values,
            0,
            spec_caps_prestep(st, id, values, code),
        ),
    }
}

/// A key entry of the `symbols[..]` form: each value resolves through the
/// symbol table alone and binds at its slot, within the levels that exist.
pub open spec fn spec_do_key_symbols_values(
    ct: Seq<(String, char)>,
    code: u32,
    values: Seq<Seq<char>>,
    i: nat,
    st: MapSt,
) -> MapSt
    decreases values.len() - i,
{
    if i >= values.len() {
        st
    } else {
        let st1 = match ct_get(ct, values[i as int]) {
            Some(ch) => (if i < st.levels.len() {
                MapSt {
                    levels: st.levels.update(i as int, st.levels[i as int].insert(code, ch)),
                    ..st
                }
            } else {
                st
            }),
            None => st,
        };
        spec_do_key_symbols_values(ct, code, values, i + 1, st1)
    }
}

pub open spec fn spec_do_key_symbols(
    kt: Seq<(String, u32)>,
    ct: Seq<(String, char)>,
    id: Seq<char>,
    values: Seq<Seq<char>>,
    st: MapSt,
) -> MapSt {
    match kt_get(kt, id) {
        None => st,
        Some(code) => spec_do_key_symbols_values(ct, code, values, 0, st),
    }
}

/// The abstract values of a string list.
pub open spec fn views_of(v: Seq<String>) -> Seq<Seq<char>> {
    crate::doc::views_of_strings(v)
}

impl MapState {
    /// Process one slot of a key entry, per [`spec_do_key_slot`].
    fn do_key_slot(
        &mut self,
        kt: &KeyCodeTable,
        ct: &CharTable,
        locale: &str,
        layout: &str,
        id: &str,
        code: u32,
        i: usize,
        v: &str,
    )
        requires
            old(self).wf(),
        ensures
            final(self).wf(),
            final(self).model() == spec_do_key_slot(
                kt.entries@,
                ct.entries@,
                locale@,
                layout@,
                id@,
                code,
                i as nat,
                v@,
                old(self).model(),
            ),
    {
        if i >= 8 {
            return;
        }
        if i == self.level_keymap.len() {
            let ghost lv_old = self.level_keymap@;
            let dm = default_level_map(i);
            proof {
                lemma_levels_views_push(lv_old, dm);
            }
            self.level_keymap.push(dm);
        }
        if let Some(rc) = kt.get(v) {
            self.remap.put(code, rc);
        }
        match resolve_value(v, ct) {
            Some(ch) => {
                if i < self.level_keymap.len() {
                    let ghost lv_old = self.level_keymap@;
                    let lm = &mut self.level_keymap[i];
                    lm.put(code, ch);
                    proof {
                        lemma_levels_views_update(lv_old, i as int, self.level_keymap@[i as int]);
                    }
                }
            }
            None => {
                self.apply_token(v, layout, locale, id, code, i);
            }
        }
        proof {
            assert(self.model() =~= spec_do_key_slot(
                kt.entries@,
                ct.entries@,
                locale@,
                layout@,
                id@,
                code,
                i as nat,
                v@,
                old(self).model(),
            ));
        }
    }

    /// Process a key entry of the key-names form, per [`spec_do_key`].
    pub fn do_key(
        &mut self,
        kt: &KeyCodeTable,
        ct: &CharTable,
        locale: &str,
        layout: &str,
        id: &str,
        values: &Vec<String>,
    )
        requires
            old(self).wf(),
        ensures
            final(self).wf(),
            final(self).model() == spec_do_key(
                kt.entries@,
                ct.entries@,
                locale@,
                layout@,
                id@,
                views_of(values@),
                old(self).model(),
            ),
    {
        let code = match kt.get(id) {
            Some(c) => c,
            None => {
                return;
            }
        };
        if str_eq(id, "CAPS") && values.len() > 0 {
            if str_eq(values[0].as_str(), "BackSpace") {
                self.remap.put(code, 14);
                if self.level_keymap.len() > 1 {
                    if let Some(ch) = self.level_keymap[0].get(14) {
                        let ghost lv_old = self.level_keymap@;
                        let lm = &mut self.level_keymap[1];
                        lm.put(58, ch);
                        proof {
                            lemma_levels_views_update(lv_old, 1, self.level_keymap@[1]);
                        }
                    }
                }
            } else if str_eq(values[0].as_str(), "Tab") {
                self.remap.put(code, 15);
            }
        }
        proof {
            assert(views_of(values@).len() == values@.len());
            if values@.len() > 0 {
                assert(views_of(values@)[0] == values@[0]@);
            }
            assert(self.model() =~= spec_caps_prestep(
                old(self).model(),
                id@,
                views_of(values@),
                code,
            ));
        }
        let ghost st0 = self.model();
        let n = values.len();
        let mut i: usize = 0;
        while i < n
            invariant
                n == values@.len(),
                0 <= i <= n,
                self.wf(),
                spec_do_key_values(
                    kt.entries@,
                    ct.entries@,
                    locale@,
                    layout@,
                    id@,
                    code,
                    views_of(values@),
                    i as nat,
                    self.model(),
                ) == spec_do_key_values(
                    kt.entries@,
                    ct.entries@,
                    locale@,
                    layout@,
                    id@,
                    code,
                    views_of(values@),
                    0,
                    st0,
                ),
            decreases n - i,
        {
            proof {
                assert(views_of(values@)[i as int] == values@[i as int]@);
            }
            self.do_key_slot(kt, ct, locale, layout, id, code, i, values[i].as_str());
            i = i + 1;
        }
    }

    /// Process a key entry of the `symbols[..]` form, per
    /// [`spec_do_key_symbols`].
    pub fn do_key_symbols(
        &mut self,
        kt: &KeyCodeTable,
        ct: &CharTable,
        id: &str,
        values: &Vec<String>,
    )
        requires
            old(self).wf(),
        ensures
            final(self).wf(),
            final(self).model() == spec_do_key_symbols(
                kt.entries@,
                ct.entries@,
                id@,
                views_of(values@),
                old(self).model(),
            ),
    {
        let code = match kt.get(id) {
            Some(c) => c,
            None => {
                return;
            }
        };
        let ghost st0 = self.model();
        let n = values.len();
        let mut i: usize = 0;
        while i < n
            invariant
                n == values@.len(),
                0 <= i <= n,
                self.wf(),
                spec_do_key_symbols_values(
                    ct.entries@,
                    code,
                    views_of(values@),
                    i as nat,
                    self.model(),
                ) == spec_do_key_symbols_values(ct.entries@, code, views_of(values@), 0, st0),
            decreases n - i,
        {
            proof {
                assert(views_of(values@)[i as int] == values@[i as int]@);
            }
            match ct.get(values[i].as_str()) {
                Some(ch) => {
                    if i < self.level_keymap.len() {
                        let ghost lv_old = self.level_keymap@;
                        let lm = &mut self.level_keymap[i];
                        lm.put(code, ch);
                        proof {
                            lemma_levels_views_update(
                                lv_old,
                                i as int,
                                self.level_keymap@[i as int],
                            );
                        }
                    }
                }
                None => {}
            }
            i = i + 1;
        }
    }
}


/// What interpreting a block can come to: a new state, a missing locale
/// document (fatal), or an include chain deeper than the allowed bound
/// (fatal; the source convention produces no cycles, but the interpreter
/// bounds the recursion rather than trusting that).
pub enum MapOutcome {
    Done(MapSt),
    MissingDoc(Seq<char>),
    TooDeep,
}

/// A fatal construction failure.
#[derive(Debug, Clone, PartialEq, Eq)]
pub enum WkbError {
    /// The document for a referenced locale is not in the document set.
    MissingDocument(String),
    /// The requested layout does not exist in its locale's document.
    UnknownLayout(String),
    /// An include chain exceeded the recursion bound.
    IncludeTooDeep,
    /// The locale's document declares no layouts at all.
    NoLayouts,
}

/// Interpret the items of a block in order: an include directive recurses
/// into the named locale and layout (`basic` when none is named) before the
/// items that follow it, and key entries populate the state in place.
pub open spec fn spec_do_items(
    docs: Seq<(String, crate::doc::Document)>,
    kt: Seq<(String, u32)>,
    ct: Seq<(String, char)>,
    locale: Seq<char>,
    layout: Seq<char>,
    items: Seq<crate::doc::SymbolsItem>,
    st: MapSt,
    depth: nat,
) -> MapOutcome
    decreases depth, 0nat, items.len(),
{
    if items.len() == 0 {
        MapOutcome::Done(st)
    } else {
        match items[0] {
            crate::doc::SymbolsItem::Include { target } => {
                match crate::doc::spec_parse_include(target@) {
                    None => spec_do_items(
                        docs,
                        kt,
                        ct,
                        locale,
                        layout,
                        items.drop_first(),
                        st,
                        depth,
                    ),
                    Some(pair) => {
                        let inc_layout = match pair.1 {
                            Some(l) => l,
                            None => "basic"@,
                        };
                        if depth == 0 {
                            MapOutcome::TooDeep
                        } else {
                            match spec_map_block(
                                docs,
                                kt,
                                ct,
                                pair.0,
                                inc_layout,
                                st,
                                (depth - 1) as nat,
                            ) {
                                MapOutcome::Done(st2) => spec_do_items(
                                    docs,
                                    kt,
                                    ct,
                                    locale,
                                    layout,
                                    items.drop_first(),
                                    st2,
                                    depth,
                                ),
                                MapOutcome::MissingDoc(l) => MapOutcome::MissingDoc(l),
                                MapOutcome::TooDeep => MapOutcome::TooDeep,
                            }
                        }
                    }
                }
            }
            crate::doc::SymbolsItem::Key { id, values } => spec_do_items(
                docs,
                kt,
                ct,
                locale,
                layout,
                items.drop_first(),
                spec_do_key(kt, ct, locale, layout, id@, views_of(values@), st),
                depth,
            ),
            crate::doc::SymbolsItem::KeySymbols { id, values } => spec_do_items(
                docs,
                kt,
                ct,
                locale,
                layout,
                items.drop_first(),
                spec_do_key_symbols(kt, ct, id@, views_of(values@), st),
                depth,
            ),
        }
    }
}

/// Interpret one named block of one locale's document: a missing document is
/// fatal, a missing block inside an included document is a no-op.
pub open spec fn spec_map_block(
    docs: Seq<(String, crate::doc::Document)>,
    kt: Seq<(String, u32)>,
    ct: Seq<(String, char)>,
    locale: Seq<char>,
    layout: Seq<char>,
    st: MapSt,
    depth: nat,
) -> MapOutcome
    decreases depth, 1nat, 0nat,
{
    match crate::doc::spec_find_doc(docs, locale) {
        None => MapOutcome::MissingDoc(locale),
        Some(doc) => match crate::doc::spec_find_block(doc.blocks@, layout) {
            None => MapOutcome::Done(st),
            Some(b) => spec_do_items(docs, kt, ct, locale, layout, b.items@, st, depth),
        },
    }
}

impl MapState {
    /// Interpret the named block, per [`spec_map_block`], recursing into
    /// includes down to `depth` further levels.
    pub fn map_block(
        &mut self,
        docs: &crate::doc::DocSet,
        kt: &KeyCodeTable,
        ct: &CharTable,
        locale: &str,
        layout: &str,
        depth: u32,
    ) -> (r: Result<(), WkbError>)
        requires
            old(self).wf(),
        ensures
            final(self).wf(),
            (match r {
                Ok(()) => spec_map_block(
                    docs.docs@,
                    kt.entries@,
                    ct.entries@,
                    locale@,
                    layout@,
                    old(self).model(),
                    depth as nat,
                ) == MapOutcome::Done(final(self).model()),
                Err(WkbError::MissingDocument(l)) => spec_map_block(
                    docs.docs@,
                    kt.entries@,
                    ct.entries@,
                    locale@,
                    layout@,
                    old(self).model(),
                    depth as nat,
                ) == MapOutcome::MissingDoc(l@),
                Err(WkbError::IncludeTooDeep) => spec_map_block(
                    docs.docs@,
                    kt.entries@,
                    ct.entries@,
                    locale@,
                    layout@,
                    old(self).model(),
                    depth as nat,
                ) == MapOutcome::TooDeep,
                Err(_) => false,
            }),
        decreases depth,
    {
        let doc = match docs.find_doc(locale) {
            Some(d) => d,
            None => {
                return Err(WkbError::MissingDocument(String::from_str(locale)));
            }
        };
        let block = match doc.find_block(layout) {
            Some(b) => b,
            None => {
                return Ok(());
            }
        };
        let ghost st0 = self.model();
        let n = block.items.len();
        let mut i: usize = 0;
        proof {
            assert(block.items@.skip(0) =~= block.items@);
        }
        while i < n
            invariant
                n == block.items@.len(),
                0 <= i <= n,
                self.wf(),
                st0 == old(self).model(),
                crate::doc::spec_find_doc(docs.docs@, locale@) == Some(*doc),
                crate::doc::spec_find_block(doc.blocks@, layout@) == Some(*block),
                spec_do_items(
                    docs.docs@,
                    kt.entries@,
                    ct.entries@,
                    locale@,
                    layout@,
                    block.items@.skip(i as int),
                    self.model(),
                    depth as nat,
                ) == spec_do_items(
                    docs.docs@,
                    kt.entries@,
                    ct.entries@,
                    locale@,
                    layout@,
                    block.items@,
                    st0,
                    depth as nat,
                ),
            decreases n - i,
        {
            proof {
                assert(block.items@.skip(i as int)[0] == block.items@[i as int]);
                assert(block.items@.skip(i as int).drop_first() =~= block.items@.skip(i as int + 1));
            }
            match &block.items[i] {
                crate::doc::SymbolsItem::Include { target } => {
                    match crate::doc::parse_include(target.as_str()) {
                        None => {}
                        Some(pair) => {
                            let inc_locale = pair.0;
                            let inc_layout: String = match pair.1 {
                                Some(l) => l,
                                None => String::from_str("basic"),
                            };
                            proof {
                                assert(match crate::doc::spec_parse_include(target@) {
                                    Some(qq) => inc_locale@ == qq.0 && inc_layout@ == (match qq.1 {
                                        Some(y) => y,
                                        None => "basic"@,
                                    }),
                                    None => false,
                                });
                            }
                            if depth == 0 {
                                return Err(WkbError::IncludeTooDeep);
                            }
                            let res = self.map_block(
                                docs,
                                kt,
                                ct,
                                inc_locale.as_str(),
                                inc_layout.as_str(),
                                depth - 1,
                            );
                            match res {
                                Ok(()) => {}
                                Err(e) => {
                                    return Err(e);
                                }
                            }
                        }
                    }
                }
                crate::doc::SymbolsItem::Key { id, values } => {
                    self.do_key(kt, ct, locale, layout, id.as_str(), values);
                }
                crate::doc::SymbolsItem::KeySymbols { id, values } => {
                    self.do_key_symbols(kt, ct, id.as_str(), values);
                }
            }
            i = i + 1;
        }
        proof {
            assert(block.items@.skip(n as int) =~= Seq::<crate::doc::SymbolsItem>::empty());
        }
        Ok(())
    }
}


/// Include resolution: a layout whose block holds nothing but an include
/// directive is interpreted exactly as the included layout itself, one
/// recursion level deeper. In particular a block that only includes the
/// `basic` layout of its own locale builds the same tables as that layout.
pub proof fn lemma_include_only_block(
    docs: Seq<(String, crate::doc::Document)>,
    kt: Seq<(String, u32)>,
    ct: Seq<(String, char)>,
    locale: Seq<char>,
    layout: Seq<char>,
    inc_locale: Seq<char>,
    inc_layout: Seq<char>,
    st: MapSt,
    depth: nat,
)
    requires
        depth > 0,
        (match crate::doc::spec_find_doc(docs, locale) {
            Some(doc) => match crate::doc::spec_find_block(doc.blocks@, layout) {
                Some(b) => b.items@.len() == 1 && (match b.items@[0] {
                    crate::doc::SymbolsItem::Include { target } => crate::doc::spec_parse_include(
                        target@,
                    ) == Some((inc_locale, Some(inc_layout))),
                    _ => false,
                }),
                None => false,
            },
            None => false,
        }),
    ensures
        spec_map_block(docs, kt, ct, locale, layout, st, depth) == spec_map_block(
            docs,
            kt,
            ct,
            inc_locale,
            inc_layout,
            st,
            (depth - 1) as nat,
        ),
{
    let doc = crate::doc::spec_find_doc(docs, locale)->Some_0;
    let b = crate::doc::spec_find_block(doc.blocks@, layout)->Some_0;
    assert(spec_do_items(docs, kt, ct, locale, layout, b.items@, st, depth) == (
    match spec_map_block(docs, kt, ct, inc_locale, inc_layout, st, (depth - 1) as nat) {
        MapOutcome::Done(st2) => spec_do_items(
            docs,
            kt,
            ct,
            locale,
            layout,
            b.items@.drop_first(),
            st2,
            depth,
        ),
        MapOutcome::MissingDoc(l) => MapOutcome::MissingDoc(l),
        MapOutcome::TooDeep => MapOutcome::TooDeep,
    }));
    assert(b.items@.drop_first().len() == 0);
}

} // verus!
