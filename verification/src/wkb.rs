//! The layout instance: construction from a locale's document, and the
//! runtime surface that resolves key events against the corrected tables.

use vstd::prelude::*;
use crate::casing::{spec_fold_lower, spec_fold_upper, to_lowercase, to_uppercase};
use crate::compose::{
    compose_chars, is_combining_mark, spec_compose_feed, ComposeStatus, FeedResult,
};
use crate::doc::{
    spec_find_block, spec_find_doc, spec_layout_names, str_eq, views_of_strings, read_layouts,
    CharTable, DocSet, Document, KeyCodeTable,
};
use crate::interp::{
    spec_map_block, MapOutcome, MapSt, MapState, WkbError,
};
use crate::keymap::{
    code_list_contains, levels_views, levels_wf, CaseMap, CharMap, CodeMap,
};
use crate::modifiers::{
    model_active, slot_map_locked, spec_current_level, spec_default_mods, spec_level_index,
    spec_set_state, spec_set_state_hit, spec_unlatch_all, level_index, KeyDirection, ModType,
    Modifiers, ModsModel, CAPS_LOCK, NUM_LOCK,
};
use crate::quirks::{
    quirk_ops, quirk_table_facts, spec_apply_ops, spec_finalize, spec_remove_code, QuirkSt,
    apply_quirk_ops, finalize_levels,
};

verus! {

/// The external auto-repeat eligibility table: locale -> layout -> scan
/// codes, with a default set for pairs the table does not name.
#[derive(Debug, Clone)]
pub struct RepeatTable {
    pub entries: Vec<(String, Vec<(String, Vec<u32>)>)>,
    pub default_keys: Vec<u32>,
}

pub open spec fn rt_find_locale(
    s: Seq<(String, Vec<(String, Vec<u32>)>)>,
    locale: Seq<char>,
) -> Option<Vec<(String, Vec<u32>)>>
    decreases s.len(),
{
    if s.len() == 0 {
        None
    } else if s[0].0@ == locale {
        Some(s[0].1)
    } else {
        rt_find_locale(s.drop_first(), locale)
    }
}

pub open spec fn rt_find_layout(s: Seq<(String, Vec<u32>)>, layout: Seq<char>) -> Option<Vec<u32>>
    decreases s.len(),
{
    if s.len() == 0 {
        None
    } else if s[0].0@ == layout {
        Some(s[0].1)
    } else {
        rt_find_layout(s.drop_first(), layout)
    }
}

/// The repeat-eligible codes for a (locale, layout) pair: the table's entry
/// when both names are found, the default set otherwise.
pub open spec fn spec_repeat_keys(rt: RepeatTable, locale: Seq<char>, layout: Seq<char>) -> Seq<
    u32,
> {
    match rt_find_locale(rt.entries@, locale) {
        Some(inner) => match rt_find_layout(inner@, layout) {
            Some(v) => v@,
            None => rt.default_keys@,
        },
        None => rt.default_keys@,
    }
}

fn copy_codes(v: &Vec<u32>) -> (r: Vec<u32>)
    ensures
        r@ == v@,
{
    let n = v.len();
    let mut out: Vec<u32> = Vec::new();
    let mut i: usize = 0;
    while i < n
        invariant
            n == v@.len(),
            0 <= i <= n,
            out@ == v@.subrange(0, i as int),
        decreases n - i,
    {
        out.push(v[i]);
        i = i + 1;
    }
    proof {
        assert(out@ =~= v@);
    }
    out
}

impl RepeatTable {
    /// Look the pair up, per [`spec_repeat_keys`].
    pub fn lookup(&self, locale: &str, layout: &str) -> (r: Vec<u32>)
        ensures
            r@ == spec_repeat_keys(*self, locale@, layout@),
    {
        let n = self.entries.len();
        let mut i: usize = 0;
        proof {
            assert(self.entries@.skip(0) =~= self.entries@);
        }
        while i < n
            invariant
                n == self.entries@.len(),
                0 <= i <= n,
                rt_find_locale(self.entries@, locale@) == rt_find_locale(
                    self.entries@.skip(i as int),
                    locale@,
                ),
            decreases n - i,
        {
            proof {
                assert(self.entries@.skip(i as int)[0] == self.entries@[i as int]);
                assert(self.entries@.skip(i as int).drop_first() =~= self.entries@.skip(
                    i as int + 1,
                ));
            }
            if str_eq(self.entries[i].0.as_str(), locale) {
                let inner = &self.entries[i].1;
                proof {
                    assert(rt_find_locale(self.entries@, locale@) == Some(
                        self.entries@[i as int].1,
                    ));
                }
                let m = inner.len();
                let mut j: usize = 0;
                proof {
                    assert(inner@.skip(0) =~= inner@);
                }
                while j < m
                    invariant
                        m == inner@.len(),
                        0 <= j <= m,
                        i < n,
                        n == self.entries@.len(),
                        rt_find_locale(self.entries@, locale@) == Some(self.entries@[i as int].1),
                        inner == &self.entries@[i as int].1,
                        rt_find_layout(inner@, layout@) == rt_find_layout(
                            inner@.skip(j as int),
                            layout@,
                        ),
                    decreases m - j,
                {
                    proof {
                        assert(inner@.skip(j as int)[0] == inner@[j as int]);
                        assert(inner@.skip(j as int).drop_first() =~= inner@.skip(j as int + 1));
                    }
                    if str_eq(inner[j].0.as_str(), layout) {
                        return copy_codes(&inner[j].1);
                    }
                    j = j + 1;
                }
                proof {
                    assert(inner@.skip(m as int) =~= Seq::<(String, Vec<u32>)>::empty());
                }
                return copy_codes(&self.default_keys);
            }
            i = i + 1;
        }
        proof {
            assert(self.entries@.skip(n as int) =~= Seq::<(String, Vec<(String, Vec<u32>)>)>::empty());
        }
        copy_codes(&self.default_keys)
    }
}

/// A layout instance: the corrected per-level character tables, the modifier
/// state machine, the compose engine's state, and the per-layout casing and
/// lock configuration, built once from a locale's definition document.
#[derive(Debug, Clone)]
pub struct WKB {
    layouts: Vec<String>,
    layout: String,
    pub level_keymap: Vec<CharMap>,
    compose_status: ComposeStatus,
    compose_char: char,
    pressed_keys: Vec<u32>,
    repeat_keys: Vec<u32>,
    pub custom_case_map: Option<CaseMap>,
    pub modifiers: Modifiers,
    num_lock_keys: Vec<u32>,
    remap: CodeMap,
    caps_is_level2: Option<Vec<u32>>,
    caps_lock_disabled: bool,
    caps_lock_level2_disabled: bool,
    right_left_shift_caps: bool,
}

impl WKB {
    pub closed spec fn wf(&self) -> bool {
        levels_wf(self.level_keymap@) && self.modifiers.wf() && self.remap.wf() && (
        match self.custom_case_map {
            Some(c) => c.wf(),
            None => true,
        })
    }

    /// The per-level character tables.
    pub closed spec fn levels(&self) -> Seq<Map<u32, char>> {
        levels_views(self.level_keymap@)
    }

    /// The modifier bindings and their state.
    pub closed spec fn mods_model(&self) -> ModsModel {
        self.modifiers.model()
    }

    pub closed spec fn layout_name(&self) -> Seq<char> {
        self.layout@
    }

    pub closed spec fn layouts_names(&self) -> Seq<Seq<char>> {
        views_of_strings(self.layouts@)
    }

    pub closed spec fn repeat_list(&self) -> Seq<u32> {
        self.repeat_keys@
    }

    pub closed spec fn pressed_list(&self) -> Seq<u32> {
        self.pressed_keys@
    }

    pub closed spec fn compose_state(&self) -> (ComposeStatus, char) {
        (self.compose_status, self.compose_char)
    }

    /// The custom case table, if the layout has one.
    pub closed spec fn case_model(&self) -> Option<Map<char, char>> {
        match self.custom_case_map {
            Some(c) => Some(c.model()),
            None => None,
        }
    }

    pub closed spec fn caps2_list(&self) -> Option<Seq<u32>> {
        match self.caps_is_level2 {
            Some(v) => Some(v@),
            None => None,
        }
    }

    pub closed spec fn caps_disabled(&self) -> bool {
        self.caps_lock_disabled
    }

    pub closed spec fn caps_level2_disabled(&self) -> bool {
        self.caps_lock_level2_disabled
    }

    pub closed spec fn num_lock_list(&self) -> Seq<u32> {
        self.num_lock_keys@
    }

    /// The recorded physical-key remap (the repurposed-caps convention).
    /// Construction fills it, but resolution deliberately does not consult
    /// it: wiring it up is an open question of the design, kept as the most
    /// evolved form of the design has it.
    pub closed spec fn remap_model(&self) -> Map<u32, u32> {
        self.remap.model()
    }

    pub closed spec fn rl_shift_caps(&self) -> bool {
        self.right_left_shift_caps
    }

    /// The quirk-state view of this instance.
    pub closed spec fn quirk_view(&self) -> QuirkSt {
        QuirkSt {
            levels: self.levels(),
            case_map: self.case_model(),
            caps_is_level2: self.caps2_list(),
            caps_lock_disabled: self.caps_disabled(),
            caps_lock_level2_disabled: self.caps_level2_disabled(),
            num_lock_keys: self.num_lock_list(),
        }
    }

    /// The character bound at one level for one scan code, if any.
    pub fn level_key(&self, evdev_code: u32, level_index: usize) -> (r: Option<char>)
        requires
            self.wf(),
        ensures
            r == spec_level_key(self.levels(), level_index as int, evdev_code),
    {
        if level_index < self.level_keymap.len() {
            proof {
                assert(self.levels()[level_index as int]
                    == self.level_keymap@[level_index as int].model());
            }
            self.level_keymap[level_index].get(evdev_code)
        } else {
            None
        }
    }

    /// Whether the key auto-repeats under this layout.
    pub fn key_repeats(&self, evdev_code: u32) -> (r: bool)
        ensures
            r == self.repeat_list().contains(evdev_code),
    {
        code_list_contains(&self.repeat_keys, evdev_code)
    }

    pub fn compose_status(&self) -> (r: ComposeStatus)
        ensures
            r == self.compose_state().0,
    {
        self.compose_status
    }

    pub fn compose_utf8(&self) -> (r: char)
        ensures
            r == self.compose_state().1,
    {
        self.compose_char
    }

    /// The layout names the locale declares.
    pub fn layouts(&self) -> (r: Vec<String>)
        ensures
            views_of_strings(r@) == self.layouts_names(),
    {
        let n = self.layouts.len();
        let mut out: Vec<String> = Vec::new();
        let mut i: usize = 0;
        while i < n
            invariant
                n == self.layouts@.len(),
                0 <= i <= n,
                out@.len() == i,
                forall |j: int| 0 <= j < i ==> out@[j]@ == self.layouts@[j]@,
            decreases n - i,
        {
            out.push(self.layouts[i].clone());
            i = i + 1;
        }
        proof {
            assert(views_of_strings(out@) =~= views_of_strings(self.layouts@));
        }
        out
    }

    pub fn current_layout(&self) -> (r: String)
        ensures
            r@ == self.layout_name(),
    {
        self.layout.clone()
    }

    /// A copy of the per-level character tables.
    pub fn level_keymap(&self) -> (r: Vec<CharMap>)
        requires
            self.wf(),
        ensures
            levels_views(r@) == self.levels(),
            levels_wf(r@),
    {
        let n = self.level_keymap.len();
        let mut out: Vec<CharMap> = Vec::new();
        let mut i: usize = 0;
        while i < n
            invariant
                n == self.level_keymap@.len(),
                0 <= i <= n,
                out@.len() == i,
                levels_wf(self.level_keymap@),
                forall |j: int| 0 <= j < i ==> (#[trigger] out@[j])@ == self.level_keymap@[j]@,
            decreases n - i,
        {
            out.push(self.level_keymap[i].duplicate());
            i = i + 1;
        }
        proof {
            assert forall |j: int| 0 <= j < n implies (#[trigger] levels_views(out@)[j])
                == levels_views(self.level_keymap@)[j] && out@[j].wf() by {
                assert(out@[j]@ == self.level_keymap@[j]@);
            };
            assert(levels_views(out@) =~= levels_views(self.level_keymap@));
        }
        out
    }
}

/// The character at one level of a table list, when the level exists and
/// binds the code.
pub open spec fn spec_level_key(levels: Seq<Map<u32, char>>, i: int, code: u32) -> Option<char> {
    if 0 <= i < levels.len() && levels[i].dom().contains(code) {
        Some(levels[i][code])
    } else {
        None
    }
}


/// The bound on include recursion. The source corpus's include graph is
/// shallow and free of cycles by convention; the interpreter enforces a
/// bound rather than trusting that.
pub const INCLUDE_DEPTH: u32 = 64;

/// The interpretation state a construction starts from: no levels, the
/// default modifier bindings, no remap.
pub open spec fn spec_init_mapst() -> MapSt {
    MapSt {
        levels: Seq::empty(),
        mods: spec_default_mods(),
        remap: Map::empty(),
        rl_shift_caps: false,
    }
}

/// The keypad codes that Num Lock governs by default.
pub open spec fn spec_default_num_lock() -> Seq<u32> {
    seq![71u32, 72u32, 73u32, 75u32, 76u32, 77u32, 79u32, 80u32, 81u32, 82u32, 83u32]
}

fn default_num_lock_vec() -> (r: Vec<u32>)
    ensures
        r@ == spec_default_num_lock(),
{
    let mut v: Vec<u32> = Vec::new();
    v.push(71);
    v.push(72);
    v.push(73);
    v.push(75);
    v.push(76);
    v.push(77);
    v.push(79);
    v.push(80);
    v.push(81);
    v.push(82);
    v.push(83);
    proof {
        assert(v@ =~= spec_default_num_lock());
    }
    v
}

/// The corrective-pass state a construction starts from: the interpreted
/// levels, no custom casing, and the default Num-Lock set.
pub open spec fn spec_quirk_init(m: MapSt) -> QuirkSt {
    QuirkSt {
        levels: m.levels,
        case_map: None,
        caps_is_level2: None,
        caps_lock_disabled: false,
        caps_lock_level2_disabled: false,
        num_lock_keys: spec_default_num_lock(),
    }
}

/// The corrective steps applied, then the three fill passes.
pub open spec fn spec_corrected(st: QuirkSt, ops: Seq<crate::quirks::QuirkOp>) -> QuirkSt {
    let st2 = spec_apply_ops(st, ops);
    QuirkSt { levels: spec_finalize(st2.levels), ..st2 }
}

pub open spec fn spec_layout_opt(layout: Option<String>) -> Option<Seq<char>> {
    match layout {
        Some(l) => Some(l@),
        None => None,
    }
}

/// What a successfully constructed instance holds: the locale's document was
/// found, the layout (the first declared one when none was named) has a
/// block, the block was interpreted with the default bindings, and the
/// exception table's steps plus the fill passes were applied.
/// The layout a construction settles on: the named one, else the first
/// declared layout.
pub open spec fn spec_chosen_layout(doc: Document, layout_opt: Option<Seq<char>>) -> Seq<char> {
    match layout_opt {
        Some(l) => l,
        None => (if spec_layout_names(doc.blocks@).len() > 0 {
            spec_layout_names(doc.blocks@)[0]
        } else {
            Seq::<char>::empty()
        }),
    }
}

/// The interpreted-and-corrected relation between an instance and the
/// outcome of interpreting its block.
pub open spec fn construct_core(w: WKB, locale: Seq<char>, lay: Seq<char>, mo: MapOutcome) -> bool {
    match mo {
        MapOutcome::Done(mst) => {
            &&& w.mods_model() == mst.mods
            &&& w.remap_model() == mst.remap
            &&& w.rl_shift_caps() == mst.rl_shift_caps
            &&& (exists |ops: Seq<crate::quirks::QuirkOp>|
                #[trigger] quirk_table_facts(locale, lay, ops) && w.quirk_view()
                    == spec_corrected(spec_quirk_init(mst), ops))
        },
        _ => false,
    }
}

pub open spec fn construct_ok(
    w: WKB,
    docs: Seq<(String, Document)>,
    kt: Seq<(String, u32)>,
    ct: Seq<(String, char)>,
    rt: RepeatTable,
    locale: Seq<char>,
    layout_opt: Option<Seq<char>>,
) -> bool {
    match spec_find_doc(docs, locale) {
        None => false,
        Some(doc) => {
            let lay = spec_chosen_layout(doc, layout_opt);
            &&& (layout_opt is None ==> spec_layout_names(doc.blocks@).len() > 0)
            &&& spec_find_block(doc.blocks@, lay) is Some
            &&& w.wf()
            &&& w.layout_name() == lay
            &&& w.layouts_names() == spec_layout_names(doc.blocks@)
            &&& w.repeat_list() == spec_repeat_keys(rt, locale, lay)
            &&& w.compose_state() == (ComposeStatus::Idle, '\u{0}')
            &&& w.pressed_list() == Seq::<u32>::empty()
            &&& construct_core(
                w,
                locale,
                lay,
                spec_map_block(docs, kt, ct, locale, lay, spec_init_mapst(), INCLUDE_DEPTH as nat),
            )
        },
    }
}

/// When and why a construction fails: a missing document (the requested
/// locale's, or one reached through an include), a locale that declares no
/// layouts when none was named, a named layout without a block, or an
/// include chain past the bound.
pub open spec fn construct_err(
    e: WkbError,
    docs: Seq<(String, Document)>,
    kt: Seq<(String, u32)>,
    ct: Seq<(String, char)>,
    locale: Seq<char>,
    layout_opt: Option<Seq<char>>,
) -> bool {
    match e {
        WkbError::MissingDocument(l) => (match spec_find_doc(docs, locale) {
            None => l@ == locale,
            Some(doc) => {
                let lay = spec_chosen_layout(doc, layout_opt);
                &&& (layout_opt is None ==> spec_layout_names(doc.blocks@).len() > 0)
                &&& spec_find_block(doc.blocks@, lay) is Some
                &&& spec_map_block(docs, kt, ct, locale, lay, spec_init_mapst(), INCLUDE_DEPTH as nat)
                    == MapOutcome::MissingDoc(l@)
            },
        }),
        WkbError::NoLayouts => (match spec_find_doc(docs, locale) {
            Some(doc) => layout_opt is None && spec_layout_names(doc.blocks@).len() == 0,
            None => false,
        }),
        WkbError::UnknownLayout(l) => (match spec_find_doc(docs, locale) {
            Some(doc) => {
                let lay = spec_chosen_layout(doc, layout_opt);
                &&& (layout_opt is None ==> spec_layout_names(doc.blocks@).len() > 0)
                &&& lay == l@
                &&& spec_find_block(doc.blocks@, lay) is None
            },
            None => false,
        }),
        WkbError::IncludeTooDeep => (match spec_find_doc(docs, locale) {
            Some(doc) => {
                let lay = spec_chosen_layout(doc, layout_opt);
                &&& (layout_opt is None ==> spec_layout_names(doc.blocks@).len() > 0)
                &&& spec_find_block(doc.blocks@, lay) is Some
                &&& spec_map_block(docs, kt, ct, locale, lay, spec_init_mapst(), INCLUDE_DEPTH as nat)
                    == MapOutcome::TooDeep
            },
            None => false,
        }),
    }
}

impl WKB {
    /// The corrective pass: the exception table's steps for this
    /// (locale, layout) pair, then the three fill passes.
    pub fn fix_xkb_edge_cases(&mut self, locale: &str, layout: &str)
        requires
            old(self).wf(),
        ensures
            final(self).wf(),
            final(self).mods_model() == old(self).mods_model(),
            final(self).layout_name() == old(self).layout_name(),
            final(self).layouts_names() == old(self).layouts_names(),
            final(self).repeat_list() == old(self).repeat_list(),
            final(self).pressed_list() == old(self).pressed_list(),
            final(self).compose_state() == old(self).compose_state(),
            final(self).remap_model() == old(self).remap_model(),
            final(self).rl_shift_caps() == old(self).rl_shift_caps(),
            exists |ops: Seq<crate::quirks::QuirkOp>|
                #[trigger] quirk_table_facts(locale@, layout@, ops) && final(self).quirk_view()
                    == spec_corrected(old(self).quirk_view(), ops),
    {
        let ops = quirk_ops(locale, layout);
        apply_quirk_ops(
            &mut self.level_keymap,
            &mut self.custom_case_map,
            &mut self.caps_is_level2,
            &mut self.caps_lock_disabled,
            &mut self.caps_lock_level2_disabled,
            &mut self.num_lock_keys,
            &ops,
        );
        finalize_levels(&mut self.level_keymap);
        proof {
            assert(self.quirk_view() =~~= spec_corrected(old(self).quirk_view(), ops@));
            assert(quirk_table_facts(locale@, layout@, ops@) && self.quirk_view()
                == spec_corrected(old(self).quirk_view(), ops@));
        }
    }

    /// Build a layout instance for `locale`, selecting `layout` or the first
    /// declared layout: read the document, interpret the named block with the
    /// default modifier bindings, and apply the corrective pass.
    #[verifier::rlimit(100)]
    pub fn new_from_names(
        locale: String,
        layout: Option<String>,
        docs: &DocSet,
        keycodes: &KeyCodeTable,
        symbols: &CharTable,
        repeats: &RepeatTable,
    ) -> (r: Result<WKB, WkbError>)
        ensures
            (match r {
                Ok(w) => construct_ok(
                    w,
                    docs.docs@,
                    keycodes.entries@,
                    symbols.entries@,
                    *repeats,
                    locale@,
                    spec_layout_opt(layout),
                ),
                Err(e) => construct_err(
                    e,
                    docs.docs@,
                    keycodes.entries@,
                    symbols.entries@,
                    locale@,
                    spec_layout_opt(layout),
                ),
            }),
    {
        let ghost layout0 = spec_layout_opt(layout);
        let doc = match docs.find_doc(locale.as_str()) {
            Some(d) => d,
            None => {
                return Err(WkbError::MissingDocument(locale));
            }
        };
        let layouts = read_layouts(doc);
        let lay: String = match layout {
            Some(l) => l,
            None => {
                if layouts.len() == 0 {
                    return Err(WkbError::NoLayouts);
                }
                proof {
                    assert(views_of_strings(layouts@)[0] == layouts@[0]@);
                }
                layouts[0].clone()
            }
        };
        if doc.find_block(lay.as_str()).is_none() {
            return Err(WkbError::UnknownLayout(lay));
        }
        let repeat_keys = repeats.lookup(locale.as_str(), lay.as_str());
        let mut ms = MapState {
            level_keymap: Vec::new(),
            modifiers: Modifiers::default(),
            remap: CodeMap::new(),
            right_left_shift_caps: false,
        };
        proof {
            assert(levels_views(ms.level_keymap@) =~= Seq::<Map<u32, char>>::empty());
            assert(ms.model() =~~= spec_init_mapst());
        }
        match ms.map_block(
            docs,
            keycodes,
            symbols,
            locale.as_str(),
            lay.as_str(),
            INCLUDE_DEPTH,
        ) {
            Ok(()) => {}
            Err(e) => {
                return Err(e);
            }
        }
        let ghost mst = ms.model();
        let ops = quirk_ops(locale.as_str(), lay.as_str());
        let mut level_keymap = ms.level_keymap;
        let mut case_map: Option<CaseMap> = None;
        let mut caps2: Option<Vec<u32>> = None;
        let mut caps_dis = false;
        let mut caps2_dis = false;
        let mut nl = default_num_lock_vec();
        apply_quirk_ops(
            &mut level_keymap,
            &mut case_map,
            &mut caps2,
            &mut caps_dis,
            &mut caps2_dis,
            &mut nl,
            &ops,
        );
        finalize_levels(&mut level_keymap);
        let w = WKB {
            layouts,
            layout: lay.clone(),
            level_keymap,
            compose_status: ComposeStatus::Idle,
            compose_char: '\u{0}',
            pressed_keys: Vec::new(),
            repeat_keys,
            custom_case_map: case_map,
            modifiers: ms.modifiers,
            num_lock_keys: nl,
            remap: ms.remap,
            caps_is_level2: caps2,
            caps_lock_disabled: caps_dis,
            caps_lock_level2_disabled: caps2_dis,
            right_left_shift_caps: ms.right_left_shift_caps,
        };
        proof {
            let lay_spec = spec_chosen_layout(*doc, layout0);
            assert(lay@ == lay_spec);
            assert(w.quirk_view() =~~= spec_corrected(spec_quirk_init(mst), ops@));
            assert(quirk_table_facts(locale@, lay_spec, ops@));
            let mo = spec_map_block(
                docs.docs@,
                keycodes.entries@,
                symbols.entries@,
                locale@,
                lay_spec,
                spec_init_mapst(),
                INCLUDE_DEPTH as nat,
            );
            assert(mo == MapOutcome::Done(mst));
            assert(construct_core(w, locale@, lay_spec, mo));
            assert(w.pressed_list() =~= Seq::<u32>::empty());
            assert(construct_ok(
                w,
                docs.docs@,
                keycodes.entries@,
                symbols.entries@,
                *repeats,
                locale@,
                spec_layout_opt(layout),
            ));
        }
        Ok(w)
    }
}


/// The resolution engine: the level index from the class activity bits
/// (each gated on the table being deep enough), the Num-Lock override, and
/// the Caps-Lock casing of the first two levels.
pub open spec fn spec_resolve_output(
    levels: Seq<Map<u32, char>>,
    mods: ModsModel,
    num_lock: Seq<u32>,
    caps_disabled: bool,
    caps_l2_disabled: bool,
    caps2: Option<Seq<u32>>,
    cm: Option<Map<char, char>>,
    code: u32,
) -> Option<char> {
    let level5 = model_active(mods, ModType::Level5) && levels.len() > 4;
    let level3 = model_active(mods, ModType::Level3) && levels.len() > 2;
    let level2 = model_active(mods, ModType::Level2) && levels.len() > 1;
    let idx = spec_level_index(level5, level3, level2);
    let caps_locked = mods.dom().contains(CAPS_LOCK) && slot_map_locked(mods[CAPS_LOCK].1);
    let num_locked = mods.dom().contains(NUM_LOCK) && slot_map_locked(mods[NUM_LOCK].1);
    let in_caps2 = (match caps2 {
        Some(l) => l.contains(code),
        None => false,
    });
    if num_lock.contains(code) && num_locked {
        spec_level_key(levels, 1, code)
    } else if idx == 0 && caps_locked && !caps_disabled {
        if in_caps2 {
            spec_level_key(levels, 1, code)
        } else {
            match spec_level_key(levels, 0, code) {
                Some(c) => Some(spec_fold_upper(c, cm)),
                None => None,
            }
        }
    } else if idx == 1 && caps_locked && !caps_l2_disabled {
        if in_caps2 {
            spec_level_key(levels, 0, code)
        } else {
            match spec_level_key(levels, 1, code) {
                Some(c) => Some(spec_fold_lower(c, cm)),
                None => None,
            }
        }
    } else {
        spec_level_key(levels, idx, code)
    }
}

impl WKB {
    /// Resolve a key press to its character under the current modifier
    /// state, per [`spec_resolve_output`]; a successful resolution resets
    /// every latch.
    pub fn utf8(&mut self, evdev_code: u32) -> (r: Option<char>)
        requires
            old(self).wf(),
        ensures
            final(self).wf(),
            r == spec_resolve_output(
                old(self).levels(),
                old(self).mods_model(),
                old(self).num_lock_list(),
                old(self).caps_disabled(),
                old(self).caps_level2_disabled(),
                old(self).caps2_list(),
                old(self).case_model(),
                evdev_code,
            ),
            (r is Some ==> final(self).mods_model() == spec_unlatch_all(old(self).mods_model())),
            (r is None ==> final(self).mods_model() == old(self).mods_model()),
            final(self).levels() == old(self).levels(),
            final(self).case_model() == old(self).case_model(),
            final(self).caps2_list() == old(self).caps2_list(),
            final(self).caps_disabled() == old(self).caps_disabled(),
            final(self).caps_level2_disabled() == old(self).caps_level2_disabled(),
            final(self).num_lock_list() == old(self).num_lock_list(),
            final(self).layout_name() == old(self).layout_name(),
            final(self).layouts_names() == old(self).layouts_names(),
            final(self).repeat_list() == old(self).repeat_list(),
            final(self).pressed_list() == old(self).pressed_list(),
            final(self).compose_state() == old(self).compose_state(),
            final(self).remap_model() == old(self).remap_model(),
            final(self).rl_shift_caps() == old(self).rl_shift_caps(),
    {
        let level5 = self.modifiers.level(ModType::Level5) && self.level_keymap.len() > 4;
        let level3 = self.modifiers.level(ModType::Level3) && self.level_keymap.len() > 2;
        let level2 = self.modifiers.level(ModType::Level2) && self.level_keymap.len() > 1;
        let idx = level_index(level5, level3, level2);
        // The dual-shift caps convention (`right_left_shift_caps`) is
        // recorded during interpretation, but what resolution should do with
        // it is an unfinished part of the design: it is deliberately not
        // consulted here.
        let key: Option<char> = if code_list_contains(&self.num_lock_keys, evdev_code)
            && self.modifiers.locked(NUM_LOCK) {
            self.level_key(evdev_code, 1)
        } else if idx == 0 && self.modifiers.locked(CAPS_LOCK) && !self.caps_lock_disabled {
            let in2 = match &self.caps_is_level2 {
                Some(l) => code_list_contains(l, evdev_code),
                None => false,
            };
            if in2 {
                self.level_key(evdev_code, 1)
            } else {
                match self.level_key(evdev_code, 0) {
                    Some(c) => Some(to_uppercase(c, &self.custom_case_map)),
                    None => None,
                }
            }
        } else if idx == 1 && self.modifiers.locked(CAPS_LOCK) && !self.caps_lock_level2_disabled {
            let in2 = match &self.caps_is_level2 {
                Some(l) => code_list_contains(l, evdev_code),
                None => false,
            };
            if in2 {
                self.level_key(evdev_code, 0)
            } else {
                match self.level_key(evdev_code, 1) {
                    Some(c) => Some(to_lowercase(c, &self.custom_case_map)),
                    None => None,
                }
            }
        } else {
            self.level_key(evdev_code, idx)
        };
        if key.is_some() {
            self.modifiers.unlatch();
        }
        key
    }

    /// Apply a key event: a recognized modifier code updates its binding,
    /// any other code is tracked in the pressed set.
    pub fn update_key(&mut self, evdev_code: u32, key_direction: KeyDirection)
        requires
            old(self).wf(),
        ensures
            final(self).wf(),
            final(self).mods_model() == spec_set_state(
                old(self).mods_model(),
                evdev_code,
                key_direction,
                spec_current_level(old(self).mods_model()),
            ),
            ({
                let hit = spec_set_state_hit(
                    old(self).mods_model(),
                    evdev_code,
                    spec_current_level(old(self).mods_model()),
                );
                if hit {
                    final(self).pressed_list() == old(self).pressed_list()
                } else {
                    match key_direction {
                        KeyDirection::Up => final(self).pressed_list() == spec_remove_code(
                            old(self).pressed_list(),
                            evdev_code,
                        ),
                        KeyDirection::Down => final(self).pressed_list() == (if old(
                            self,
                        ).pressed_list().contains(evdev_code) {
                            old(self).pressed_list()
                        } else {
                            old(self).pressed_list().push(evdev_code)
                        }),
                    }
                }
            }),
            final(self).levels() == old(self).levels(),
            final(self).case_model() == old(self).case_model(),
            final(self).caps2_list() == old(self).caps2_list(),
            final(self).caps_disabled() == old(self).caps_disabled(),
            final(self).caps_level2_disabled() == old(self).caps_level2_disabled(),
            final(self).num_lock_list() == old(self).num_lock_list(),
            final(self).layout_name() == old(self).layout_name(),
            final(self).layouts_names() == old(self).layouts_names(),
            final(self).repeat_list() == old(self).repeat_list(),
            final(self).compose_state() == old(self).compose_state(),
            final(self).remap_model() == old(self).remap_model(),
            final(self).rl_shift_caps() == old(self).rl_shift_caps(),
    {
        if !self.modifiers.set_state(evdev_code, key_direction) {
            match key_direction {
                KeyDirection::Up => {
                    crate::quirks::remove_code(&mut self.pressed_keys, evdev_code);
                }
                KeyDirection::Down => {
                    if !code_list_contains(&self.pressed_keys, evdev_code) {
                        self.pressed_keys.push(evdev_code);
                    }
                }
            }
        }
    }

    /// Feed a character to the compose engine, per [`spec_compose_feed`].
    pub fn compose_feed(&mut self, character: char) -> (r: FeedResult)
        requires
            old(self).wf(),
        ensures
            final(self).wf(),
            ({
                let t = spec_compose_feed(
                    old(self).compose_state().0,
                    old(self).compose_state().1,
                    character,
                );
                final(self).compose_state() == (t.0, t.1) && r == t.2
            }),
            final(self).mods_model() == old(self).mods_model(),
            final(self).levels() == old(self).levels(),
            final(self).case_model() == old(self).case_model(),
            final(self).caps2_list() == old(self).caps2_list(),
            final(self).caps_disabled() == old(self).caps_disabled(),
            final(self).caps_level2_disabled() == old(self).caps_level2_disabled(),
            final(self).num_lock_list() == old(self).num_lock_list(),
            final(self).layout_name() == old(self).layout_name(),
            final(self).layouts_names() == old(self).layouts_names(),
            final(self).repeat_list() == old(self).repeat_list(),
            final(self).pressed_list() == old(self).pressed_list(),
            final(self).remap_model() == old(self).remap_model(),
            final(self).rl_shift_caps() == old(self).rl_shift_caps(),
    {
        if is_combining_mark(character) {
            match self.compose_status {
                ComposeStatus::Idle | ComposeStatus::Composed | ComposeStatus::Cancelled => {
                    self.compose_char = character;
                    self.compose_status = ComposeStatus::Composing;
                    FeedResult::Accepted
                }
                ComposeStatus::Composing => {
                    if let Some(c) = compose_chars(character, self.compose_char) {
                        self.compose_char = c;
                        FeedResult::Accepted
                    } else {
                        self.compose_status = ComposeStatus::Cancelled;
                        FeedResult::Ignored
                    }
                }
            }
        } else if self.compose_status == ComposeStatus::Composing {
            if let Some(c) = compose_chars(character, self.compose_char) {
                self.compose_status = ComposeStatus::Composed;
                self.compose_char = c;
                FeedResult::Accepted
            } else {
                self.compose_status = ComposeStatus::Cancelled;
                FeedResult::Ignored
            }
        } else {
            self.compose_status = ComposeStatus::Cancelled;
            FeedResult::Ignored
        }
    }
}

/// The Num-Lock override: for a scan code in the layout's Num-Lock set,
/// with Num Lock active, resolution reads the second level directly,
/// whatever the computed level index and the base level hold.
pub proof fn lemma_num_lock_override(
    levels: Seq<Map<u32, char>>,
    mods: ModsModel,
    num_lock: Seq<u32>,
    caps_disabled: bool,
    caps_l2_disabled: bool,
    caps2: Option<Seq<u32>>,
    cm: Option<Map<char, char>>,
    code: u32,
)
    requires
        num_lock.contains(code),
        mods.dom().contains(NUM_LOCK) && slot_map_locked(mods[NUM_LOCK].1),
    ensures
        spec_resolve_output(levels, mods, num_lock, caps_disabled, caps_l2_disabled, caps2, cm, code)
            == spec_level_key(levels, 1, code),
{
}

/// Under Caps Lock at the base level, folding never expands: where the
/// uppercase mapping of the bound character has more than one character and
/// no custom entry applies, resolution returns the character unchanged, one
/// scalar as always.
pub proof fn lemma_resolve_caps_keeps_one_scalar(
    levels: Seq<Map<u32, char>>,
    mods: ModsModel,
    num_lock: Seq<u32>,
    caps2: Option<Seq<u32>>,
    cm: Option<Map<char, char>>,
    code: u32,
    c: char,
)
    requires
        !model_active(mods, ModType::Level5),
        !model_active(mods, ModType::Level3),
        !model_active(mods, ModType::Level2),
        mods.dom().contains(CAPS_LOCK) && slot_map_locked(mods[CAPS_LOCK].1),
        !(num_lock.contains(code) && mods.dom().contains(NUM_LOCK) && slot_map_locked(
            mods[NUM_LOCK].1,
        )),
        (match caps2 {
            Some(l) => !l.contains(code),
            None => true,
        }),
        spec_level_key(levels, 0, code) == Some(c),
        (match cm {
            Some(m) => !m.dom().contains(c),
            None => true,
        }),
        crate::casing::upper_chars_of(c).len() > 1,
    ensures
        spec_resolve_output(levels, mods, num_lock, false, false, caps2, cm, code) == Some(c),
{
    crate::casing::lemma_fold_keeps_one_scalar(c, cm);
}

/// The mirror of [`lemma_resolve_caps_keeps_one_scalar`] for the shifted
/// level: where the lowercase fold of the shifted character would expand and
/// no custom entry applies, resolution returns it unchanged.
pub proof fn lemma_resolve_caps_shifted_keeps_one_scalar(
    levels: Seq<Map<u32, char>>,
    mods: ModsModel,
    num_lock: Seq<u32>,
    caps2: Option<Seq<u32>>,
    cm: Option<Map<char, char>>,
    code: u32,
    c: char,
)
    requires
        !model_active(mods, ModType::Level5),
        !model_active(mods, ModType::Level3),
        model_active(mods, ModType::Level2),
        levels.len() > 1,
        mods.dom().contains(CAPS_LOCK) && slot_map_locked(mods[CAPS_LOCK].1),
        !(num_lock.contains(code) && mods.dom().contains(NUM_LOCK) && slot_map_locked(
            mods[NUM_LOCK].1,
        )),
        (match caps2 {
            Some(l) => !l.contains(code),
            None => true,
        }),
        spec_level_key(levels, 1, code) == Some(c),
        (match cm {
            Some(m) => !m.dom().contains(c),
            None => true,
        }),
        !crate::casing::spec_is_lowercase(c),
        crate::casing::lower_chars_of(c).len() > 1,
    ensures
        spec_resolve_output(levels, mods, num_lock, false, false, caps2, cm, code) == Some(c),
{
    crate::casing::lemma_fold_keeps_one_scalar(c, cm);
}

} // verus!
