//! The modifier state machine: per-key press, lock and latch state, the
//! classes that feed the three shift-level dimensions, and the encoding of
//! the three activity bits as a level index.

use vstd::prelude::*;

verus! {

// Scan codes of the keys that carry a modifier binding by default.
pub const LEFT_CTRL: u32 = 29;
pub const LEFT_SHIFT: u32 = 42;
pub const RIGHT_SHIFT: u32 = 54;
pub const RIGHT_CTRL: u32 = 97;
pub const ALT: u32 = 56;
pub const ALTGR: u32 = 100;
pub const LOGO: u32 = 125;
pub const CAPS_LOCK: u32 = 58;
pub const NUM_LOCK: u32 = 69;
pub const SCROLL_LOCK: u32 = 70;
pub const BACKSPACE: u32 = 14;
pub const TAB: u32 = 15;

#[derive(Debug, Clone, Copy, PartialEq, Eq, Structural)]
pub enum KeyDirection {
    Up,
    Down,
}

#[derive(Debug, Clone, Copy, PartialEq, Eq, Structural)]
pub enum ModType {
    Plain,
    Level2,
    Level3,
    Level5,
    Compose,
}

/// One modifier's state: transient (`Pressed`), two-tap toggle (`Lock`, with a
/// hysteresis counter), or one-shot (`Latch`).
#[derive(Debug, Clone, Copy, PartialEq, Eq, Structural)]
pub enum ModKind {
    Pressed { pressed: bool, mod_type: ModType },
    Lock { pressed: bool, locked: u8, mod_type: ModType },
    Latch { pressed: bool, latched: bool, mod_type: ModType },
    Inert,
}

impl ModKind {
    /// The state after one key event: `Lock` counts a press from counter 0 as 2
    /// and each release as -1, `Latch` sets `latched` on press and keeps it on
    /// release.
    pub open spec fn spec_update(self, key_direction: KeyDirection) -> ModKind {
        match self {
            ModKind::Pressed { pressed, mod_type } => match key_direction {
                KeyDirection::Down => ModKind::Pressed { pressed: true, mod_type },
                KeyDirection::Up => ModKind::Pressed { pressed: false, mod_type },
            },
            ModKind::Lock { pressed, locked, mod_type } => match key_direction {
                KeyDirection::Down => ModKind::Lock {
                    pressed: true,
                    locked: if locked == 0 { 2 } else { locked },
                    mod_type,
                },
                KeyDirection::Up => ModKind::Lock {
                    pressed: false,
                    locked: if locked != 0 { (locked - 1) as u8 } else { 0 },
                    mod_type,
                },
            },
            ModKind::Latch { pressed, latched, mod_type } => match key_direction {
                KeyDirection::Down => ModKind::Latch { pressed: true, latched: true, mod_type },
                KeyDirection::Up => ModKind::Latch { pressed: false, latched, mod_type },
            },
            ModKind::Inert => ModKind::Inert,
        }
    }

    pub open spec fn spec_unlatch(self) -> ModKind {
        match self {
            ModKind::Latch { pressed, latched, mod_type } => ModKind::Latch {
                pressed,
                latched: pressed,
                mod_type,
            },
            _ => self,
        }
    }

    pub open spec fn spec_pressed(self) -> bool {
        match self {
            ModKind::Pressed { pressed, .. } => pressed,
            ModKind::Lock { pressed, .. } => pressed,
            ModKind::Latch { pressed, .. } => pressed,
            ModKind::Inert => false,
        }
    }

    pub open spec fn spec_locked(self) -> bool {
        match self {
            ModKind::Lock { locked, .. } => locked > 0,
            _ => false,
        }
    }

    /// `Pressed` is active while held, `Lock` while its counter is nonzero,
    /// `Latch` while latched.
    pub open spec fn spec_active(self) -> bool {
        match self {
            ModKind::Pressed { pressed, .. } => pressed,
            ModKind::Lock { locked, .. } => locked > 0,
            ModKind::Latch { latched, .. } => latched,
            ModKind::Inert => false,
        }
    }

    pub open spec fn spec_mod_type(self) -> Option<ModType> {
        match self {
            ModKind::Pressed { mod_type, .. } => Some(mod_type),
            ModKind::Lock { mod_type, .. } => Some(mod_type),
            ModKind::Latch { mod_type, .. } => Some(mod_type),
            ModKind::Inert => None,
        }
    }

    pub open spec fn spec_kind_for(self, mod_type: ModType) -> Option<ModKind> {
        if self.spec_mod_type() == Some(mod_type) {
            Some(self)
        } else {
            None
        }
    }

    pub fn update(&mut self, key_direction: KeyDirection)
        ensures
            *final(self) == old(self).spec_update(key_direction),
    {
        match self {
            ModKind::Pressed { pressed, mod_type: _ } => match key_direction {
                KeyDirection::Down => {
                    *pressed = true;
                }
                KeyDirection::Up => {
                    *pressed = false;
                }
            },
            ModKind::Lock { pressed, locked, mod_type: _ } => match key_direction {
                KeyDirection::Down => {
                    *pressed = true;
                    if *locked == 0 {
                        *locked = 2;
                    }
                }
                KeyDirection::Up => {
                    *pressed = false;
                    if *locked != 0 {
                        *locked = *locked - 1;
                    }
                }
            },
            ModKind::Latch { pressed, latched, mod_type: _ } => match key_direction {
                KeyDirection::Down => {
                    *pressed = true;
                    *latched = true;
                }
                KeyDirection::Up => {
                    *pressed = false;
                }
            },
            ModKind::Inert => {}
        }
    }

    fn unlatch(&mut self)
        ensures
            *final(self) == old(self).spec_unlatch(),
    {
        match self {
            ModKind::Latch { pressed, latched, mod_type: _ } => {
                *latched = *pressed;
            }
            _ => {}
        }
    }

    pub fn pressed(&self) -> (r: &bool)
        ensures
            *r == self.spec_pressed(),
    {
        match self {
            ModKind::Pressed { pressed, mod_type: _ } => pressed,
            ModKind::Lock { pressed, locked: _, mod_type: _ } => pressed,
            ModKind::Latch { pressed, latched: _, mod_type: _ } => pressed,
            ModKind::Inert => &false,
        }
    }

    pub fn locked(&self) -> (r: bool)
        ensures
            r == self.spec_locked(),
    {
        match self {
            ModKind::Lock { pressed: _, locked, mod_type: _ } => *locked > 0,
            _ => false,
        }
    }

    pub fn is_active(&self) -> (r: bool)
        ensures
            r == self.spec_active(),
    {
        match self {
            ModKind::Pressed { pressed, mod_type: _ } => *pressed,
            ModKind::Lock { pressed: _, locked, mod_type: _ } => *locked > 0,
            ModKind::Latch { pressed: _, latched, mod_type: _ } => *latched,
            ModKind::Inert => false,
        }
    }

    pub fn get_modkind_from_modtype(&self, mod_type: ModType) -> (r: Option<ModKind>)
        ensures
            r == self.spec_kind_for(mod_type),
    {
        match self {
            ModKind::Pressed { mod_type: m_t, .. }
            | ModKind::Lock { mod_type: m_t, .. }
            | ModKind::Latch { mod_type: m_t, .. } => {
                if *m_t == mod_type {
                    Some(*self)
                } else {
                    None
                }
            }
            ModKind::Inert => None,
        }
    }
}

/// The 3-bit encoding of a shift level: `level5` has weight 4, `level3`
/// weight 2, `level2` weight 1.
pub open spec fn spec_level_index(level5: bool, level3: bool, level2: bool) -> int {
    (if level5 { 4int } else { 0int }) + (if level3 { 2int } else { 0int }) + (if level2 {
        1int
    } else {
        0int
    })
}

pub fn level_index(level5: bool, level3: bool, level2: bool) -> (r: usize)
    ensures
        r == spec_level_index(level5, level3, level2),
        r <= 7,
{
    let mut r: usize = 0;
    if level5 {
        r = r + 4;
    }
    if level3 {
        r = r + 2;
    }
    if level2 {
        r = r + 1;
    }
    r
}

/// The level encoding is a bijection between the three activity bits and the
/// indices 0 through 7: it never leaves that range, and two bit triples give
/// the same index only when they are equal.
pub proof fn lemma_level_index_injective(
    a5: bool,
    a3: bool,
    a2: bool,
    b5: bool,
    b3: bool,
    b2: bool,
)
    ensures
        0 <= spec_level_index(a5, a3, a2) <= 7,
        spec_level_index(a5, a3, a2) == spec_level_index(b5, b3, b2) ==> (a5 == b5 && a3 == b3
            && a2 == b2),
{
}

/// Every index 0 through 7 is reached, by the triple read off its bits.
pub proof fn lemma_level_index_onto(i: int)
    requires
        0 <= i <= 7,
    ensures
        spec_level_index(i >= 4, i % 4 >= 2, i % 2 == 1) == i,
{
}


/// A modifier binding for one scan code: either one kind for every slot, or a
/// small slot-indexed table used when the source declares the same physical
/// key with different roles at different symbol slots.
#[derive(Debug, Clone)]
pub enum Modifier {
    Single(ModKind),
    Leveled(Vec<(u8, ModKind)>),
}

/// A kind counts for a class when it carries that class and is active.
pub open spec fn kind_active_for(k: ModKind, t: ModType) -> bool {
    k.spec_mod_type() == Some(t) && k.spec_active()
}

/// The abstract value of a slot table: slot -> kind, first entry winning.
pub open spec fn slots_has(s: Seq<(u8, ModKind)>, slot: u8) -> bool {
    exists |i: int| 0 <= i < s.len() && s[i].0 == slot
}

pub open spec fn slots_index_of(s: Seq<(u8, ModKind)>, slot: u8) -> int {
    choose |i: int| 0 <= i < s.len() && s[i].0 == slot
}

pub open spec fn slots_model(s: Seq<(u8, ModKind)>) -> Map<u8, ModKind> {
    Map::new(|slot: u8| slots_has(s, slot), |slot: u8| s[slots_index_of(s, slot)].1)
}

pub open spec fn slots_sorted(s: Seq<(u8, ModKind)>) -> bool {
    forall |i: int, j: int| 0 <= i < j < s.len() ==> s[i].0 < s[j].0
}

/// The abstract value of one binding: whether it is a `Single`, and its
/// slot table (`Single(k)` stands for the one-entry table `0 -> k`).
pub open spec fn modifier_model(m: Modifier) -> (bool, Map<u8, ModKind>) {
    match m {
        Modifier::Single(k) => (true, Map::empty().insert(0u8, k)),
        Modifier::Leveled(v) => (false, slots_model(v@)),
    }
}

pub open spec fn modifier_wf(m: Modifier) -> bool {
    match m {
        Modifier::Single(_) => true,
        Modifier::Leveled(v) => slots_sorted(v@),
    }
}

pub open spec fn mods_has(s: Seq<(u32, Modifier)>, code: u32) -> bool {
    exists |i: int| 0 <= i < s.len() && s[i].0 == code
}

pub open spec fn mods_index_of(s: Seq<(u32, Modifier)>, code: u32) -> int {
    choose |i: int| 0 <= i < s.len() && s[i].0 == code
}

/// The abstract value of the whole binding set: code -> binding model.
pub open spec fn mods_model_of(s: Seq<(u32, Modifier)>) -> Map<u32, (bool, Map<u8, ModKind>)> {
    Map::new(
        |code: u32| mods_has(s, code),
        |code: u32| modifier_model(s[mods_index_of(s, code)].1),
    )
}

pub open spec fn mods_sorted(s: Seq<(u32, Modifier)>) -> bool {
    forall |i: int, j: int| 0 <= i < j < s.len() ==> s[i].0 < s[j].0
}

/// The set of per-key modifier bindings, ordered by scan code.
#[derive(Debug, Clone)]
pub struct Modifiers {
    entries: Vec<(u32, Modifier)>,
}

impl View for Modifiers {
    type V = Seq<(u32, Modifier)>;

    closed spec fn view(&self) -> Seq<(u32, Modifier)> {
        self.entries@
    }
}

/// A slot map is active for a class when some slot's kind is.
pub open spec fn slot_map_active(sm: Map<u8, ModKind>, t: ModType) -> bool {
    exists |slot: u8| sm.dom().contains(slot) && kind_active_for(sm[slot], t)
}

/// A slot map mentions a class when some slot's kind carries it.
pub open spec fn slot_map_mentions(sm: Map<u8, ModKind>, t: ModType) -> bool {
    exists |slot: u8| sm.dom().contains(slot) && sm[slot].spec_mod_type() == Some(t)
}

pub open spec fn slot_map_pressed(sm: Map<u8, ModKind>) -> bool {
    exists |slot: u8| sm.dom().contains(slot) && sm[slot].spec_pressed()
}

pub open spec fn slot_map_locked(sm: Map<u8, ModKind>) -> bool {
    exists |slot: u8| sm.dom().contains(slot) && sm[slot].spec_locked()
}

pub type ModsModel = Map<u32, (bool, Map<u8, ModKind>)>;

/// Some binding in the set is active for the class.
pub open spec fn model_active(m: ModsModel, t: ModType) -> bool {
    exists |code: u32| m.dom().contains(code) && slot_map_active(m[code].1, t)
}

/// The effect of registering `kind` for `code` at symbol slot `slot`:
/// a fresh code gets a `Single` binding at slot 0 and a slot table otherwise;
/// a second role at a nonzero slot turns a `Single` binding into a table.
pub open spec fn spec_mods_insert(m: ModsModel, code: u32, kind: ModKind, slot: u8) -> ModsModel {
    if !m.dom().contains(code) {
        if slot == 0 {
            m.insert(code, (true, Map::empty().insert(0u8, kind)))
        } else {
            m.insert(code, (false, Map::empty().insert(slot, kind)))
        }
    } else {
        if m[code].0 && slot == 0 {
            m.insert(code, (true, Map::empty().insert(0u8, kind)))
        } else {
            m.insert(code, (false, m[code].1.insert(slot, kind)))
        }
    }
}

/// Whether a key event on `code` reaches a binding, given the level that was
/// current before the event.
pub open spec fn spec_set_state_hit(m: ModsModel, code: u32, lvl: u8) -> bool {
    m.dom().contains(code) && (m[code].1.dom().contains(lvl) || m[code].1.dom().contains(0u8))
}

/// The effect of a key event on the binding set: the slot matching the level
/// current before the event is updated, falling back to slot 0.
pub open spec fn spec_set_state(m: ModsModel, code: u32, d: KeyDirection, lvl: u8) -> ModsModel {
    if !spec_set_state_hit(m, code, lvl) {
        m
    } else {
        let sm = m[code].1;
        let target = if sm.dom().contains(lvl) { lvl } else { 0u8 };
        m.insert(code, (m[code].0, sm.insert(target, sm[target].spec_update(d))))
    }
}

/// Every latch in the set reset to its pressed state.
pub open spec fn spec_unlatch_all(m: ModsModel) -> ModsModel {
    Map::new(
        |code: u32| m.dom().contains(code),
        |code: u32| (m[code].0, Map::new(
            |slot: u8| m[code].1.dom().contains(slot),
            |slot: u8| m[code].1[slot].spec_unlatch(),
        )),
    )
}

/// In a sorted slot table the model reads back each entry.
proof fn lemma_slots_at(s: Seq<(u8, ModKind)>, i: int)
    requires
        slots_sorted(s),
        0 <= i < s.len(),
    ensures
        slots_has(s, s[i].0),
        slots_model(s).dom().contains(s[i].0),
        slots_model(s)[s[i].0] == s[i].1,
{
    assert(slots_has(s, s[i].0));
    let j = slots_index_of(s, s[i].0);
    assert(0 <= j < s.len() && s[j].0 == s[i].0);
    if j < i {
        assert(s[j].0 < s[i].0);
    }
    if i < j {
        assert(s[i].0 < s[j].0);
    }
}

/// In a sorted binding set the model reads back each entry.
proof fn lemma_mods_at(s: Seq<(u32, Modifier)>, i: int)
    requires
        mods_sorted(s),
        0 <= i < s.len(),
    ensures
        mods_has(s, s[i].0),
        mods_model_of(s).dom().contains(s[i].0),
        mods_model_of(s)[s[i].0] == modifier_model(s[i].1),
{
    assert(mods_has(s, s[i].0));
    let j = mods_index_of(s, s[i].0);
    assert(0 <= j < s.len() && s[j].0 == s[i].0);
    if j < i {
        assert(s[j].0 < s[i].0);
    }
    if i < j {
        assert(s[i].0 < s[j].0);
    }
}

/// Whether a slot table, given as the sorted entry list, has an active kind of
/// the class.
fn slot_table_active(v: &Vec<(u8, ModKind)>, t: ModType) -> (r: bool)
    requires
        slots_sorted(v@),
    ensures
        r == slot_map_active(slots_model(v@), t),
{
    let n = v.len();
    let mut i: usize = 0;
    while i < n
        invariant
            n == v@.len(),
            0 <= i <= n,
            slots_sorted(v@),
            forall |j: int| 0 <= j < i ==> !kind_active_for(v@[j].1, t),
        decreases n - i,
    {
        let active = if let Some(k2) = v[i].1.get_modkind_from_modtype(t) {
            k2.is_active()
        } else {
            false
        };
        if active {
            proof {
                lemma_slots_at(v@, i as int);
                assert(kind_active_for(v@[i as int].1, t));
                assert(slot_map_active(slots_model(v@), t));
            }
            return true;
        }
        i = i + 1;
    }
    proof {
        assert forall |slot: u8| !(slots_model(v@).dom().contains(slot) && kind_active_for(
            slots_model(v@)[slot],
            t,
        )) by {
            if slots_has(v@, slot) {
                let j = slots_index_of(v@, slot);
                assert(0 <= j < v@.len() && v@[j].0 == slot);
                assert(!kind_active_for(v@[j].1, t));
            }
        };
    }
    false
}

impl Modifiers {
    /// Entries are strictly ordered by scan code, and each slot table by slot.
    pub open spec fn wf(&self) -> bool {
        mods_sorted(self@) && (forall |i: int| 0 <= i < self@.len() ==> modifier_wf(self@[i].1))
    }

    /// The abstract value: scan code -> (is-single, slot -> kind).
    pub open spec fn model(&self) -> ModsModel {
        mods_model_of(self@)
    }

    /// Whether any registered modifier of the class is currently active.
    pub fn level(&self, mod_type: ModType) -> (r: bool)
        requires
            self.wf(),
        ensures
            r == model_active(self.model(), mod_type),
    {
        let n = self.entries.len();
        let mut i: usize = 0;
        while i < n
            invariant
                n == self@.len(),
                0 <= i <= n,
                self.wf(),
                forall |j: int| 0 <= j < i ==> !slot_map_active(
                    modifier_model(self@[j].1).1,
                    mod_type,
                ),
            decreases n - i,
        {
            let active = match &self.entries[i].1 {
                Modifier::Single(k) => {
                    let r = if let Some(k2) = k.get_modkind_from_modtype(mod_type) {
                        k2.is_active()
                    } else {
                        false
                    };
                    proof {
                        let sm = modifier_model(self@[i as int].1).1;
                        assert(sm.dom().contains(0u8) && sm[0u8] == *k);
                        if r {
                            assert(slot_map_active(sm, mod_type));
                        } else {
                            assert forall |slot: u8| !(sm.dom().contains(slot) && kind_active_for(
                                sm[slot],
                                mod_type,
                            )) by {
                                if sm.dom().contains(slot) {
                                    assert(slot == 0u8 && sm[slot] == *k);
                                }
                            };
                        }
                    }
                    r
                }
                Modifier::Leveled(v) => slot_table_active(v, mod_type),
            };
            if active {
                proof {
                    lemma_mods_at(self@, i as int);
                    assert(model_active(self.model(), mod_type));
                }
                return true;
            }
            i = i + 1;
        }
        proof {
            assert forall |code: u32| !(self.model().dom().contains(code) && slot_map_active(
                self.model()[code].1,
                mod_type,
            )) by {
                if mods_has(self@, code) {
                    let j = mods_index_of(self@, code);
                    assert(0 <= j < self@.len() && self@[j].0 == code);
                    assert(!slot_map_active(modifier_model(self@[j].1).1, mod_type));
                }
            };
        }
        false
    }

    pub fn level5(&self) -> (r: bool)
        requires
            self.wf(),
        ensures
            r == model_active(self.model(), ModType::Level5),
    {
        self.level(ModType::Level5)
    }

    pub fn level3(&self) -> (r: bool)
        requires
            self.wf(),
        ensures
            r == model_active(self.model(), ModType::Level3),
    {
        self.level(ModType::Level3)
    }

    pub fn level2(&self) -> (r: bool)
        requires
            self.wf(),
        ensures
            r == model_active(self.model(), ModType::Level2),
    {
        self.level(ModType::Level2)
    }
}


/// Replacing the kind at one entry of a sorted slot table replaces it in the
/// model.
proof fn lemma_slots_update_model(s: Seq<(u8, ModKind)>, i: int, k2: ModKind)
    requires
        slots_sorted(s),
        0 <= i < s.len(),
    ensures
        slots_sorted(s.update(i, (s[i].0, k2))),
        slots_model(s.update(i, (s[i].0, k2))) == slots_model(s).insert(s[i].0, k2),
{
    let c0 = s[i].0;
    let s2 = s.update(i, (c0, k2));
    assert(forall |j: int| 0 <= j < s.len() ==> s2[j].0 == s[j].0);
    assert(slots_sorted(s2));
    assert forall |c: u8| slots_has(s2, c) == slots_has(s, c) by {
        if slots_has(s2, c) {
            let j = slots_index_of(s2, c);
            assert(0 <= j < s.len() && s[j].0 == c);
        }
        if slots_has(s, c) {
            let j = slots_index_of(s, c);
            assert(0 <= j < s2.len() && s2[j].0 == c);
        }
    };
    assert forall |c: u8| slots_model(s2).dom().contains(c) implies slots_model(s2)[c]
        == slots_model(s).insert(c0, k2)[c] by {
        let j = slots_index_of(s, c);
        assert(0 <= j < s.len() && s[j].0 == c);
        lemma_slots_at(s, j);
        lemma_slots_at(s2, j);
        if c == c0 {
            if j < i {
                assert(s[j].0 < s[i].0);
            }
            if i < j {
                assert(s[i].0 < s[j].0);
            }
            assert(j == i);
        }
    };
    assert(slots_model(s2) =~= slots_model(s).insert(c0, k2));
}

/// Inserting a fresh slot at its ordered position adds it to the model.
proof fn lemma_slots_insert_model(s: Seq<(u8, ModKind)>, p: int, slot: u8, kind: ModKind)
    requires
        slots_sorted(s),
        0 <= p <= s.len(),
        forall |j: int| 0 <= j < p ==> s[j].0 < slot,
        forall |j: int| p <= j < s.len() ==> slot < s[j].0,
    ensures
        slots_sorted(s.insert(p, (slot, kind))),
        slots_model(s.insert(p, (slot, kind))) == slots_model(s).insert(slot, kind),
{
    let s2 = s.insert(p, (slot, kind));
    assert(s2.len() == s.len() + 1);
    assert(forall |j: int| 0 <= j < p ==> s2[j] == s[j]);
    assert(s2[p] == (slot, kind));
    assert(forall |j: int| p < j < s2.len() ==> s2[j] == s[j - 1]);
    assert(slots_sorted(s2));
    assert forall |c: u8| slots_has(s2, c) == (slots_has(s, c) || c == slot) by {
        if slots_has(s2, c) {
            let j = slots_index_of(s2, c);
            assert(0 <= j < s2.len() && s2[j].0 == c);
            if j != p {
                if j < p {
                    assert(s[j].0 == c);
                } else {
                    assert(s[j - 1].0 == c);
                }
            }
        }
        if slots_has(s, c) {
            let j = slots_index_of(s, c);
            assert(0 <= j < s.len() && s[j].0 == c);
            if j < p {
                assert(s2[j].0 == c);
            } else {
                assert(s2[j + 1].0 == c);
            }
        }
        if c == slot {
            assert(s2[p].0 == c);
        }
    };
    assert forall |c: u8| slots_model(s2).dom().contains(c) implies slots_model(s2)[c]
        == slots_model(s).insert(slot, kind)[c] by {
        lemma_slots_at(s2, p);
        if c == slot {
            assert(slots_model(s2)[c] == kind);
        } else {
            let j = slots_index_of(s, c);
            assert(0 <= j < s.len() && s[j].0 == c);
            lemma_slots_at(s, j);
            if j < p {
                lemma_slots_at(s2, j);
            } else {
                lemma_slots_at(s2, j + 1);
            }
        }
    };
    assert(slots_model(s2) =~= slots_model(s).insert(slot, kind));
}

/// Replacing the binding at one entry of the sorted set replaces it in the
/// model.
proof fn lemma_mods_update_model(s: Seq<(u32, Modifier)>, i: int, m2: Modifier)
    requires
        mods_sorted(s),
        0 <= i < s.len(),
    ensures
        mods_sorted(s.update(i, (s[i].0, m2))),
        mods_model_of(s.update(i, (s[i].0, m2))) == mods_model_of(s).insert(
            s[i].0,
            modifier_model(m2),
        ),
{
    let c0 = s[i].0;
    let s2 = s.update(i, (c0, m2));
    assert(forall |j: int| 0 <= j < s.len() ==> s2[j].0 == s[j].0);
    assert(mods_sorted(s2));
    assert forall |c: u32| mods_has(s2, c) == mods_has(s, c) by {
        if mods_has(s2, c) {
            let j = mods_index_of(s2, c);
            assert(0 <= j < s.len() && s[j].0 == c);
        }
        if mods_has(s, c) {
            let j = mods_index_of(s, c);
            assert(0 <= j < s2.len() && s2[j].0 == c);
        }
    };
    assert forall |c: u32| mods_model_of(s2).dom().contains(c) implies mods_model_of(s2)[c]
        == mods_model_of(s).insert(c0, modifier_model(m2))[c] by {
        let j = mods_index_of(s, c);
        assert(0 <= j < s.len() && s[j].0 == c);
        lemma_mods_at(s, j);
        lemma_mods_at(s2, j);
        if c == c0 {
            if j < i {
                assert(s[j].0 < s[i].0);
            }
            if i < j {
                assert(s[i].0 < s[j].0);
            }
            assert(j == i);
        }
    };
    assert(mods_model_of(s2) =~= mods_model_of(s).insert(c0, modifier_model(m2)));
}

/// Inserting a binding for a fresh code at its ordered position adds it to
/// the model.
proof fn lemma_mods_insert_model(s: Seq<(u32, Modifier)>, p: int, code: u32, m2: Modifier)
    requires
        mods_sorted(s),
        0 <= p <= s.len(),
        forall |j: int| 0 <= j < p ==> s[j].0 < code,
        forall |j: int| p <= j < s.len() ==> code < s[j].0,
    ensures
        mods_sorted(s.insert(p, (code, m2))),
        mods_model_of(s.insert(p, (code, m2))) == mods_model_of(s).insert(
            code,
            modifier_model(m2),
        ),
{
    let s2 = s.insert(p, (code, m2));
    assert(s2.len() == s.len() + 1);
    assert(forall |j: int| 0 <= j < p ==> s2[j] == s[j]);
    assert(s2[p] == (code, m2));
    assert(forall |j: int| p < j < s2.len() ==> s2[j] == s[j - 1]);
    assert(mods_sorted(s2));
    assert forall |c: u32| mods_has(s2, c) == (mods_has(s, c) || c == code) by {
        if mods_has(s2, c) {
            let j = mods_index_of(s2, c);
            assert(0 <= j < s2.len() && s2[j].0 == c);
            if j != p {
                if j < p {
                    assert(s[j].0 == c);
                } else {
                    assert(s[j - 1].0 == c);
                }
            }
        }
        if mods_has(s, c) {
            let j = mods_index_of(s, c);
            assert(0 <= j < s.len() && s[j].0 == c);
            if j < p {
                assert(s2[j].0 == c);
            } else {
                assert(s2[j + 1].0 == c);
            }
        }
        if c == code {
            assert(s2[p].0 == c);
        }
    };
    assert forall |c: u32| mods_model_of(s2).dom().contains(c) implies mods_model_of(s2)[c]
        == mods_model_of(s).insert(code, modifier_model(m2))[c] by {
        lemma_mods_at(s2, p);
        if c == code {
            assert(mods_model_of(s2)[c] == modifier_model(m2));
        } else {
            let j = mods_index_of(s, c);
            assert(0 <= j < s.len() && s[j].0 == c);
            lemma_mods_at(s, j);
            if j < p {
                lemma_mods_at(s2, j);
            } else {
                lemma_mods_at(s2, j + 1);
            }
        }
    };
    assert(mods_model_of(s2) =~= mods_model_of(s).insert(code, modifier_model(m2)));
}

/// Put `kind` at `slot` of a sorted slot table, replacing an existing entry.
fn slot_put(v: &mut Vec<(u8, ModKind)>, slot: u8, kind: ModKind)
    requires
        slots_sorted(old(v)@),
    ensures
        slots_sorted(final(v)@),
        slots_model(final(v)@) == slots_model(old(v)@).insert(slot, kind),
{
    let n = v.len();
    let mut p: usize = 0;
    while p < n && v[p].0 < slot
        invariant
            n == v@.len(),
            0 <= p <= n,
            slots_sorted(v@),
            v@ == old(v)@,
            forall |j: int| 0 <= j < p ==> v@[j].0 < slot,
        decreases n - p,
    {
        p = p + 1;
    }
    if p < n && v[p].0 == slot {
        proof {
            lemma_slots_update_model(v@, p as int, kind);
        }
        v[p] = (slot, kind);
    } else {
        proof {
            assert forall |j: int| p <= j < v@.len() implies slot < v@[j].0 by {
                assert(v@[p as int].0 >= slot);
                assert(v@[p as int].0 != slot);
                if p < j {
                    assert(v@[p as int].0 < v@[j].0);
                }
            };
            lemma_slots_insert_model(v@, p as int, slot, kind);
        }
        v.insert(p, (slot, kind));
    }
}

impl Modifiers {
    /// Register `kind` for `evdev_code` at symbol slot `level`, per
    /// [`spec_mods_insert`].
    pub fn insert(&mut self, evdev_code: u32, mod_kind: ModKind, level: u8)
        requires
            old(self).wf(),
        ensures
            final(self).wf(),
            final(self).model() == spec_mods_insert(old(self).model(), evdev_code, mod_kind, level),
    {
        let n = self.entries.len();
        let mut p: usize = 0;
        while p < n && self.entries[p].0 < evdev_code
            invariant
                n == self@.len(),
                0 <= p <= n,
                self == old(self),
                forall |j: int| 0 <= j < p ==> self@[j].0 < evdev_code,
            decreases n - p,
        {
            p = p + 1;
        }
        if p < n && self.entries[p].0 == evdev_code {
            proof {
                lemma_mods_at(self@, p as int);
            }
            let m2: Modifier = match &self.entries[p].1 {
                Modifier::Single(existing) => {
                    if level == 0 {
                        Modifier::Single(mod_kind)
                    } else {
                        let mut nv: Vec<(u8, ModKind)> = Vec::new();
                        nv.push((0u8, *existing));
                        nv.push((level, mod_kind));
                        proof {
                            let s = nv@;
                            assert(s.len() == 2 && s[0] == (0u8, *existing) && s[1] == (
                                level,
                                mod_kind,
                            ));
                            assert(slots_sorted(s));
                            lemma_slots_at(s, 0);
                            lemma_slots_at(s, 1);
                            assert forall |c: u8| slots_has(s, c) == (c == 0 || c == level) by {
                                if slots_has(s, c) {
                                    let j = slots_index_of(s, c);
                                    assert(0 <= j < 2 && s[j].0 == c);
                                }
                            };
                            assert(slots_model(s) =~= Map::empty().insert(
                                0u8,
                                *existing,
                            ).insert(level, mod_kind));
                        }
                        Modifier::Leveled(nv)
                    }
                }
                Modifier::Leveled(lv) => {
                    let mut nv = Vec::new();
                    let mut q: usize = 0;
                    let ln = lv.len();
                    while q < ln
                        invariant
                            ln == lv@.len(),
                            0 <= q <= ln,
                            nv@ == lv@.subrange(0, q as int),
                        decreases ln - q,
                    {
                        nv.push(lv[q]);
                        q = q + 1;
                    }
                    proof {
                        assert(nv@ =~= lv@);
                    }
                    slot_put(&mut nv, level, mod_kind);
                    Modifier::Leveled(nv)
                }
            };
            proof {
                lemma_mods_update_model(self@, p as int, m2);
            }
            self.entries[p] = (evdev_code, m2);
            proof {
                assert(self.model() =~= spec_mods_insert(
                    old(self).model(),
                    evdev_code,
                    mod_kind,
                    level,
                ));
            }
        } else {
            proof {
                assert forall |j: int| p <= j < self@.len() implies evdev_code < self@[j].0 by {
                    assert(self@[p as int].0 >= evdev_code);
                    assert(self@[p as int].0 != evdev_code);
                    if p < j {
                        assert(self@[p as int].0 < self@[j].0);
                    }
                };
            }
            let m2: Modifier = if level == 0 {
                Modifier::Single(mod_kind)
            } else {
                let mut nv: Vec<(u8, ModKind)> = Vec::new();
                nv.push((level, mod_kind));
                proof {
                    let s = nv@;
                    assert(s.len() == 1 && s[0] == (level, mod_kind));
                    assert(slots_sorted(s));
                    lemma_slots_at(s, 0);
                    assert forall |c: u8| slots_has(s, c) == (c == level) by {
                        if slots_has(s, c) {
                            let j = slots_index_of(s, c);
                            assert(0 <= j < 1 && s[j].0 == c);
                        }
                    };
                    assert(slots_model(s) =~= Map::empty().insert(level, mod_kind));
                }
                Modifier::Leveled(nv)
            };
            proof {
                lemma_mods_insert_model(self@, p as int, evdev_code, m2);
                if level == 0 {
                    assert(modifier_model(m2) =~= (true, Map::empty().insert(0u8, mod_kind)));
                }
            }
            self.entries.insert(p, (evdev_code, m2));
            proof {
                assert(self.model() =~= spec_mods_insert(
                    old(self).model(),
                    evdev_code,
                    mod_kind,
                    level,
                ));
            }
        }
    }
}


/// The level that is current for a binding set: the three class activity bits
/// encoded as an index.
pub open spec fn spec_current_level(m: ModsModel) -> u8 {
    spec_level_index(
        model_active(m, ModType::Level5),
        model_active(m, ModType::Level3),
        model_active(m, ModType::Level2),
    ) as u8
}

/// One binding reset by `unlatch`, entry for entry.
pub open spec fn modifier_unlatched(a: Modifier, b: Modifier) -> bool {
    match (a, b) {
        (Modifier::Single(x), Modifier::Single(y)) => y == x.spec_unlatch(),
        (Modifier::Leveled(u), Modifier::Leveled(w)) => u@.len() == w@.len() && (forall |j: int|
            0 <= j < u@.len() ==> w@[j] == (u@[j].0, u@[j].1.spec_unlatch())),
        _ => false,
    }
}

proof fn lemma_unlatch_modifier_model(a: Modifier, b: Modifier)
    requires
        modifier_wf(a),
        modifier_unlatched(a, b),
    ensures
        modifier_wf(b),
        modifier_model(b).0 == modifier_model(a).0,
        modifier_model(b).1 == Map::<u8, ModKind>::new(
            |slot: u8| modifier_model(a).1.dom().contains(slot),
            |slot: u8| modifier_model(a).1[slot].spec_unlatch(),
        ),
{
    let target = Map::<u8, ModKind>::new(
        |slot: u8| modifier_model(a).1.dom().contains(slot),
        |slot: u8| modifier_model(a).1[slot].spec_unlatch(),
    );
    match (a, b) {
        (Modifier::Single(x), Modifier::Single(y)) => {
            assert(modifier_model(b).1 =~= target);
        }
        (Modifier::Leveled(u), Modifier::Leveled(w)) => {
            assert(forall |j: int| 0 <= j < u@.len() ==> w@[j].0 == u@[j].0);
            assert(slots_sorted(w@));
            assert forall |c: u8| slots_has(w@, c) == slots_has(u@, c) by {
                if slots_has(w@, c) {
                    let j = slots_index_of(w@, c);
                    assert(0 <= j < u@.len() && u@[j].0 == c);
                }
                if slots_has(u@, c) {
                    let j = slots_index_of(u@, c);
                    assert(0 <= j < w@.len() && w@[j].0 == c);
                }
            };
            assert forall |c: u8| slots_model(w@).dom().contains(c) implies slots_model(w@)[c]
                == target[c] by {
                let j = slots_index_of(u@, c);
                assert(0 <= j < u@.len() && u@[j].0 == c);
                lemma_slots_at(u@, j);
                lemma_slots_at(w@, j);
            };
            assert(modifier_model(b).1 =~= target);
        }
        _ => {}
    }
}

/// Find the entry of a sorted slot table that holds `slot`.
fn slot_find(v: &Vec<(u8, ModKind)>, slot: u8) -> (r: Option<usize>)
    requires
        slots_sorted(v@),
    ensures
        match r {
            Some(i) => i < v@.len() && v@[i as int].0 == slot,
            None => !slots_has(v@, slot),
        },
{
    let n = v.len();
    let mut i: usize = 0;
    while i < n
        invariant
            n == v@.len(),
            0 <= i <= n,
            forall |j: int| 0 <= j < i ==> v@[j].0 != slot,
        decreases n - i,
    {
        if v[i].0 == slot {
            return Some(i);
        }
        i = i + 1;
    }
    proof {
        if slots_has(v@, slot) {
            let j = slots_index_of(v@, slot);
            assert(0 <= j < v@.len() && v@[j].0 == slot);
        }
    }
    None
}

impl Modifiers {
    /// Apply a key event to the binding bound to `evdev_code`, selecting the
    /// slot by the level current before the event with fallback to slot 0.
    /// Returns whether the code was recognized as a modifier.
    pub fn set_state(&mut self, evdev_code: u32, key_direction: KeyDirection) -> (r: bool)
        requires
            old(self).wf(),
        ensures
            final(self).wf(),
            r == spec_set_state_hit(
                old(self).model(),
                evdev_code,
                spec_current_level(old(self).model()),
            ),
            final(self).model() == spec_set_state(
                old(self).model(),
                evdev_code,
                key_direction,
                spec_current_level(old(self).model()),
            ),
    {
        let ghost m0 = self.model();
        let ghost lvl0 = spec_current_level(m0);
        let lvl_usize = level_index(self.level5(), self.level3(), self.level2());
        let lvl: u8 = lvl_usize as u8;
        proof {
            assert(lvl == lvl0);
        }
        let n = self.entries.len();
        let mut p: usize = 0;
        while p < n && self.entries[p].0 != evdev_code
            invariant
                n == self@.len(),
                0 <= p <= n,
                self == old(self),
                forall |j: int| 0 <= j < p ==> self@[j].0 != evdev_code,
            decreases n - p,
        {
            p = p + 1;
        }
        if p == n {
            proof {
                if mods_has(self@, evdev_code) {
                    let j = mods_index_of(self@, evdev_code);
                    assert(0 <= j < self@.len() && self@[j].0 == evdev_code);
                }
                assert(!m0.dom().contains(evdev_code));
            }
            return false;
        }
        proof {
            lemma_mods_at(self@, p as int);
        }
        let ghost s_old = self@;
        let ghost sm = m0[evdev_code].1;
        let (code0, m_old) = self.entries.remove(p);
        let hit: bool;
        let m2: Modifier;
        match m_old {
            Modifier::Single(k) => {
                let mut kk = k;
                kk.update(key_direction);
                m2 = Modifier::Single(kk);
                hit = true;
                proof {
                    assert(sm =~= Map::empty().insert(0u8, k));
                    assert(sm.dom().contains(0u8));
                    let target = if sm.dom().contains(lvl) { lvl } else { 0u8 };
                    assert(target == 0u8 || (target == lvl && lvl == 0u8));
                    assert(modifier_model(m2).1 =~= sm.insert(0u8, sm[0u8].spec_update(
                        key_direction,
                    )));
                }
            }
            Modifier::Leveled(v) => {
                let mut nv = v;
                let found = match slot_find(&nv, lvl) {
                    Some(i) => Some(i),
                    None => slot_find(&nv, 0),
                };
                match found {
                    Some(i) => {
                        proof {
                            lemma_slots_at(nv@, i as int);
                            lemma_slots_update_model(nv@, i as int, nv@[i as int].1.spec_update(
                                key_direction,
                            ));
                        }
                        let mut kk = nv[i].1;
                        let c = nv[i].0;
                        kk.update(key_direction);
                        nv[i] = (c, kk);
                        hit = true;
                    }
                    None => {
                        hit = false;
                    }
                }
                m2 = Modifier::Leveled(nv);
            }
        }
        proof {
            assert(s_old.remove(p as int).insert(p as int, (code0, m2)) =~= s_old.update(
                p as int,
                (code0, m2),
            ));
            lemma_mods_update_model(s_old, p as int, m2);
        }
        self.entries.insert(p, (code0, m2));
        proof {
            if hit {
                assert(self.model() =~= spec_set_state(m0, evdev_code, key_direction, lvl0));
            } else {
                assert(modifier_model(m2) == modifier_model(m_old));
                assert(self.model() =~= m0.insert(evdev_code, m0[evdev_code]));
                assert(m0.insert(evdev_code, m0[evdev_code]) =~= m0);
                assert(!spec_set_state_hit(m0, evdev_code, lvl0));
            }
        }
        hit
    }

    /// Reset every latch-kind binding: `latched` becomes `pressed`.
    pub fn unlatch(&mut self)
        requires
            old(self).wf(),
        ensures
            final(self).wf(),
            final(self).model() == spec_unlatch_all(old(self).model()),
    {
        let n = self.entries.len();
        let mut i: usize = 0;
        while i < n
            invariant
                n == old(self)@.len(),
                self@.len() == n,
                0 <= i <= n,
                old(self).wf(),
                forall |j: int| 0 <= j < self@.len() ==> self@[j].0 == old(self)@[j].0,
                forall |j: int| 0 <= j < i ==> modifier_unlatched(old(self)@[j].1, self@[j].1),
                forall |j: int| 0 <= j < i ==> modifier_wf(self@[j].1),
                forall |j: int| i <= j < n ==> self@[j] == old(self)@[j],
            decreases n - i,
        {
            let ghost s_before = self@;
            let (code0, m_old) = self.entries.remove(i);
            let m2: Modifier;
            match m_old {
                Modifier::Single(k) => {
                    let mut kk = k;
                    kk.unlatch();
                    m2 = Modifier::Single(kk);
                }
                Modifier::Leveled(v) => {
                    let mut nv = v;
                    let ln = nv.len();
                    let mut q: usize = 0;
                    while q < ln
                        invariant
                            ln == nv@.len(),
                            0 <= q <= ln,
                            forall |j: int| 0 <= j < q ==> nv@[j] == (
                                v@[j].0,
                                v@[j].1.spec_unlatch(),
                            ),
                            forall |j: int| q <= j < ln ==> nv@[j] == v@[j],
                        decreases ln - q,
                    {
                        let mut kk = nv[q].1;
                        let c = nv[q].0;
                        kk.unlatch();
                        nv[q] = (c, kk);
                        q = q + 1;
                    }
                    m2 = Modifier::Leveled(nv);
                }
            }
            proof {
                assert(modifier_unlatched(m_old, m2));
            }
            self.entries.insert(i, (code0, m2));
            proof {
                assert(self@ =~= s_before.update(i as int, (code0, m2)));
                lemma_unlatch_modifier_model(m_old, m2);
            }
            i = i + 1;
        }
        proof {
            assert(mods_sorted(self@));
            assert forall |c: u32| mods_has(self@, c) == mods_has(old(self)@, c) by {
                if mods_has(self@, c) {
                    let j = mods_index_of(self@, c);
                    assert(0 <= j < old(self)@.len() && old(self)@[j].0 == c);
                }
                if mods_has(old(self)@, c) {
                    let j = mods_index_of(old(self)@, c);
                    assert(0 <= j < self@.len() && self@[j].0 == c);
                }
            };
            assert forall |c: u32| self.model().dom().contains(c) implies self.model()[c]
                == spec_unlatch_all(old(self).model())[c] by {
                let j = mods_index_of(old(self)@, c);
                assert(0 <= j < old(self)@.len() && old(self)@[j].0 == c);
                lemma_mods_at(old(self)@, j);
                lemma_mods_at(self@, j);
                lemma_unlatch_modifier_model(old(self)@[j].1, self@[j].1);
                assert(self.model()[c].1 =~= spec_unlatch_all(old(self).model())[c].1);
            };
            assert(self.model() =~= spec_unlatch_all(old(self).model()));
        }
    }

    /// Whether the binding at `evdev_code` is pressed at any slot.
    pub fn pressed(&self, evdev_code: u32) -> (r: bool)
        requires
            self.wf(),
        ensures
            r == (self.model().dom().contains(evdev_code) && slot_map_pressed(
                self.model()[evdev_code].1,
            )),
    {
        let n = self.entries.len();
        let mut p: usize = 0;
        while p < n && self.entries[p].0 != evdev_code
            invariant
                n == self@.len(),
                0 <= p <= n,
                self.wf(),
                forall |j: int| 0 <= j < p ==> self@[j].0 != evdev_code,
            decreases n - p,
        {
            p = p + 1;
        }
        if p == n {
            proof {
                if mods_has(self@, evdev_code) {
                    let j = mods_index_of(self@, evdev_code);
                    assert(0 <= j < self@.len() && self@[j].0 == evdev_code);
                }
            }
            return false;
        }
        proof {
            lemma_mods_at(self@, p as int);
        }
        match &self.entries[p].1 {
            Modifier::Single(k) => {
                let r = *k.pressed();
                proof {
                    let sm = modifier_model(self@[p as int].1).1;
                    assert(sm.dom().contains(0u8) && sm[0u8] == *k);
                    if !r {
                        assert forall |slot: u8| !(sm.dom().contains(slot)
                            && sm[slot].spec_pressed()) by {
                            if sm.dom().contains(slot) {
                                assert(slot == 0u8 && sm[slot] == *k);
                            }
                        };
                    }
                }
                r
            }
            Modifier::Leveled(v) => {
                proof {
                    assert(self.model().dom().contains(evdev_code));
                    assert(self.model()[evdev_code].1 == slots_model(v@));
                }
                let ln = v.len();
                let mut q: usize = 0;
                while q < ln
                    invariant
                        ln == v@.len(),
                        0 <= q <= ln,
                        slots_sorted(v@),
                        self.model().dom().contains(evdev_code),
                        self.model()[evdev_code].1 == slots_model(v@),
                        forall |j: int| 0 <= j < q ==> !v@[j].1.spec_pressed(),
                    decreases ln - q,
                {
                    if *v[q].1.pressed() {
                        proof {
                            lemma_slots_at(v@, q as int);
                            let sm = slots_model(v@);
                            assert(sm.dom().contains(v@[q as int].0) && sm[v@[
                                q as int
                            ].0].spec_pressed());
                        }
                        return true;
                    }
                    q = q + 1;
                }
                proof {
                    let sm = slots_model(v@);
                    assert forall |slot: u8| !(sm.dom().contains(slot) && sm[slot].spec_pressed())
                        by {
                        if slots_has(v@, slot) {
                            let j = slots_index_of(v@, slot);
                            assert(0 <= j < v@.len() && v@[j].0 == slot);
                        }
                    };
                }
                false
            }
        }
    }

    /// Whether the binding at `evdev_code` is locked at any slot.
    pub fn locked(&self, evdev_code: u32) -> (r: bool)
        requires
            self.wf(),
        ensures
            r == (self.model().dom().contains(evdev_code) && slot_map_locked(
                self.model()[evdev_code].1,
            )),
    {
        let n = self.entries.len();
        let mut p: usize = 0;
        while p < n && self.entries[p].0 != evdev_code
            invariant
                n == self@.len(),
                0 <= p <= n,
                self.wf(),
                forall |j: int| 0 <= j < p ==> self@[j].0 != evdev_code,
            decreases n - p,
        {
            p = p + 1;
        }
        if p == n {
            proof {
                if mods_has(self@, evdev_code) {
                    let j = mods_index_of(self@, evdev_code);
                    assert(0 <= j < self@.len() && self@[j].0 == evdev_code);
                }
            }
            return false;
        }
        proof {
            lemma_mods_at(self@, p as int);
        }
        match &self.entries[p].1 {
            Modifier::Single(k) => {
                let r = k.locked();
                proof {
                    let sm = modifier_model(self@[p as int].1).1;
                    assert(sm.dom().contains(0u8) && sm[0u8] == *k);
                    if !r {
                        assert forall |slot: u8| !(sm.dom().contains(slot)
                            && sm[slot].spec_locked()) by {
                            if sm.dom().contains(slot) {
                                assert(slot == 0u8 && sm[slot] == *k);
                            }
                        };
                    }
                }
                r
            }
            Modifier::Leveled(v) => {
                proof {
                    assert(self.model().dom().contains(evdev_code));
                    assert(self.model()[evdev_code].1 == slots_model(v@));
                }
                let ln = v.len();
                let mut q: usize = 0;
                while q < ln
                    invariant
                        ln == v@.len(),
                        0 <= q <= ln,
                        slots_sorted(v@),
                        self.model().dom().contains(evdev_code),
                        self.model()[evdev_code].1 == slots_model(v@),
                        forall |j: int| 0 <= j < q ==> !v@[j].1.spec_locked(),
                    decreases ln - q,
                {
                    if v[q].1.locked() {
                        proof {
                            lemma_slots_at(v@, q as int);
                            let sm = slots_model(v@);
                            assert(sm.dom().contains(v@[q as int].0) && sm[v@[
                                q as int
                            ].0].spec_locked());
                        }
                        return true;
                    }
                    q = q + 1;
                }
                proof {
                    let sm = slots_model(v@);
                    assert forall |slot: u8| !(sm.dom().contains(slot) && sm[slot].spec_locked())
                        by {
                        if slots_has(v@, slot) {
                            let j = slots_index_of(v@, slot);
                            assert(0 <= j < v@.len() && v@[j].0 == slot);
                        }
                    };
                }
                false
            }
        }
    }
}


/// What `level_code` reports for one binding: `None` for a `Single` binding,
/// otherwise the lowest slot whose kind carries the class.
pub open spec fn is_slot_report(e: (bool, Map<u8, ModKind>), t: ModType, sl: Option<u8>) -> bool {
    if e.0 {
        sl is None
    } else {
        match sl {
            Some(s) => e.1.dom().contains(s) && e.1[s].spec_mod_type() == Some(t) && (forall |
                s2: u8,
            |
                s2 < s && e.1.dom().contains(s2) ==> e.1[s2].spec_mod_type() != Some(t)),
            None => false,
        }
    }
}

/// What `level_code` reports for the whole set: the lowest scan code whose
/// binding mentions the class, with its slot report.
pub open spec fn is_level_code_report(
    m: ModsModel,
    t: ModType,
    r: Option<(u32, Option<u8>)>,
) -> bool {
    match r {
        Some(pair) => m.dom().contains(pair.0) && slot_map_mentions(m[pair.0].1, t) && (forall |
            c2: u32,
        |
            c2 < pair.0 && m.dom().contains(c2) ==> !slot_map_mentions(m[c2].1, t))
            && is_slot_report(m[pair.0], t, pair.1),
        None => forall |c: u32| m.dom().contains(c) ==> !slot_map_mentions(m[c].1, t),
    }
}

/// The first slot of a sorted slot table whose kind carries the class.
fn slot_first_for(v: &Vec<(u8, ModKind)>, t: ModType) -> (r: Option<u8>)
    requires
        slots_sorted(v@),
    ensures
        match r {
            Some(s) => slots_model(v@).dom().contains(s) && slots_model(v@)[s].spec_mod_type()
                == Some(t) && (forall |s2: u8|
                s2 < s && slots_model(v@).dom().contains(s2) ==> slots_model(
                    v@,
                )[s2].spec_mod_type() != Some(t)),
            None => !slot_map_mentions(slots_model(v@), t),
        },
{
    let n = v.len();
    let mut q: usize = 0;
    while q < n
        invariant
            n == v@.len(),
            0 <= q <= n,
            slots_sorted(v@),
            forall |j: int| 0 <= j < q ==> v@[j].1.spec_mod_type() != Some(t),
        decreases n - q,
    {
        if v[q].1.get_modkind_from_modtype(t).is_some() {
            proof {
                lemma_slots_at(v@, q as int);
                assert forall |s2: u8|
                    s2 < v@[q as int].0 && slots_model(v@).dom().contains(s2) implies slots_model(
                    v@,
                )[s2].spec_mod_type() != Some(t) by {
                    let j = slots_index_of(v@, s2);
                    assert(0 <= j < v@.len() && v@[j].0 == s2);
                    lemma_slots_at(v@, j);
                    if j >= q {
                        if j > q {
                            assert(v@[q as int].0 < v@[j].0);
                        }
                        assert(false);
                    }
                };
            }
            return Some(v[q].0);
        }
        q = q + 1;
    }
    proof {
        assert forall |slot: u8| !(slots_model(v@).dom().contains(slot) && slots_model(
            v@,
        )[slot].spec_mod_type() == Some(t)) by {
            if slots_has(v@, slot) {
                let j = slots_index_of(v@, slot);
                assert(0 <= j < v@.len() && v@[j].0 == slot);
                lemma_slots_at(v@, j);
            }
        };
    }
    None
}

impl Modifiers {
    /// The key (and, for a slot table, the slot) that is bound to the class,
    /// preferring the lowest scan code; `None` when no binding mentions it.
    pub fn level_code(&self, mod_type: ModType) -> (r: Option<(u32, Option<u8>)>)
        requires
            self.wf(),
        ensures
            is_level_code_report(self.model(), mod_type, r),
    {
        let n = self.entries.len();
        let mut p: usize = 0;
        while p < n
            invariant
                n == self@.len(),
                0 <= p <= n,
                self.wf(),
                forall |j: int| 0 <= j < p ==> !slot_map_mentions(
                    modifier_model(self@[j].1).1,
                    mod_type,
                ),
            decreases n - p,
        {
            proof {
                lemma_mods_at(self@, p as int);
            }
            let found: Option<Option<u8>> = match &self.entries[p].1 {
                Modifier::Single(k) => {
                    let hit = k.get_modkind_from_modtype(mod_type).is_some();
                    proof {
                        let sm = modifier_model(self@[p as int].1).1;
                        assert(sm.dom().contains(0u8) && sm[0u8] == *k);
                        if !hit {
                            assert forall |slot: u8| !(sm.dom().contains(slot)
                                && sm[slot].spec_mod_type() == Some(mod_type)) by {
                                if sm.dom().contains(slot) {
                                    assert(slot == 0u8 && sm[slot] == *k);
                                }
                            };
                        }
                    }
                    if hit {
                        Some(None)
                    } else {
                        None
                    }
                }
                Modifier::Leveled(v) => {
                    match slot_first_for(v, mod_type) {
                        Some(s) => Some(Some(s)),
                        None => None,
                    }
                }
            };
            if let Some(sl) = found {
                let code = self.entries[p].0;
                proof {
                    assert forall |c2: u32|
                        c2 < code && self.model().dom().contains(c2) implies !slot_map_mentions(
                        self.model()[c2].1,
                        mod_type,
                    ) by {
                        let j = mods_index_of(self@, c2);
                        assert(0 <= j < self@.len() && self@[j].0 == c2);
                        lemma_mods_at(self@, j);
                        if j >= p {
                            if j > p {
                                assert(self@[p as int].0 < self@[j].0);
                            }
                            assert(false);
                        }
                    };
                }
                return Some((code, sl));
            }
            p = p + 1;
        }
        proof {
            assert forall |c: u32| self.model().dom().contains(c) implies !slot_map_mentions(
                self.model()[c].1,
                mod_type,
            ) by {
                let j = mods_index_of(self@, c);
                assert(0 <= j < self@.len() && self@[j].0 == c);
                lemma_mods_at(self@, j);
            };
        }
        None
    }

    pub fn level2_code(&self) -> (r: Option<(u32, Option<u8>)>)
        requires
            self.wf(),
        ensures
            is_level_code_report(self.model(), ModType::Level2, r),
    {
        self.level_code(ModType::Level2)
    }

    pub fn level3_code(&self) -> (r: Option<(u32, Option<u8>)>)
        requires
            self.wf(),
        ensures
            is_level_code_report(self.model(), ModType::Level3, r),
    {
        self.level_code(ModType::Level3)
    }

    pub fn level5_code(&self) -> (r: Option<(u32, Option<u8>)>)
        requires
            self.wf(),
        ensures
            is_level_code_report(self.model(), ModType::Level5, r),
    {
        self.level_code(ModType::Level5)
    }
}

/// The default binding set: both controls, both shifts, alt, alt-gr and the
/// logo key as plain pressed modifiers (the shifts feeding `Level2`), and the
/// three lock keys as locks of no class.
pub open spec fn spec_default_mods() -> ModsModel {
    spec_mods_insert(
        spec_mods_insert(
            spec_mods_insert(
                spec_mods_insert(
                    spec_mods_insert(
                        spec_mods_insert(
                            spec_mods_insert(
                                spec_mods_insert(
                                    spec_mods_insert(
                                        spec_mods_insert(
                                            Map::empty(),
                                            LEFT_CTRL,
                                            ModKind::Pressed {
                                                pressed: false,
                                                mod_type: ModType::Plain,
                                            },
                                            0,
                                        ),
                                        RIGHT_CTRL,
                                        ModKind::Pressed { pressed: false, mod_type: ModType::Plain },
                                        0,
                                    ),
                                    LEFT_SHIFT,
                                    ModKind::Pressed { pressed: false, mod_type: ModType::Level2 },
                                    0,
                                ),
                                RIGHT_SHIFT,
                                ModKind::Pressed { pressed: false, mod_type: ModType::Level2 },
                                0,
                            ),
                            ALT,
                            ModKind::Pressed { pressed: false, mod_type: ModType::Plain },
                            0,
                        ),
                        ALTGR,
                        ModKind::Pressed { pressed: false, mod_type: ModType::Plain },
                        0,
                    ),
                    LOGO,
                    ModKind::Pressed { pressed: false, mod_type: ModType::Plain },
                    0,
                ),
                CAPS_LOCK,
                ModKind::Lock { pressed: false, locked: 0, mod_type: ModType::Plain },
                0,
            ),
            NUM_LOCK,
            ModKind::Lock { pressed: false, locked: 0, mod_type: ModType::Plain },
            0,
        ),
        SCROLL_LOCK,
        ModKind::Lock { pressed: false, locked: 0, mod_type: ModType::Plain },
        0,
    )
}

impl Default for Modifiers {
    fn default() -> (r: Self)
        ensures
            r.wf(),
            r.model() == spec_default_mods(),
    {
        let mut m = Modifiers { entries: Vec::new() };
        proof {
            assert(m.model() =~= Map::empty());
        }
        m.insert(LEFT_CTRL, ModKind::Pressed { pressed: false, mod_type: ModType::Plain }, 0);
        m.insert(RIGHT_CTRL, ModKind::Pressed { pressed: false, mod_type: ModType::Plain }, 0);
        m.insert(LEFT_SHIFT, ModKind::Pressed { pressed: false, mod_type: ModType::Level2 }, 0);
        m.insert(RIGHT_SHIFT, ModKind::Pressed { pressed: false, mod_type: ModType::Level2 }, 0);
        m.insert(ALT, ModKind::Pressed { pressed: false, mod_type: ModType::Plain }, 0);
        m.insert(ALTGR, ModKind::Pressed { pressed: false, mod_type: ModType::Plain }, 0);
        m.insert(LOGO, ModKind::Pressed { pressed: false, mod_type: ModType::Plain }, 0);
        m.insert(CAPS_LOCK, ModKind::Lock { pressed: false, locked: 0, mod_type: ModType::Plain }, 0);
        m.insert(NUM_LOCK, ModKind::Lock { pressed: false, locked: 0, mod_type: ModType::Plain }, 0);
        m.insert(
            SCROLL_LOCK,
            ModKind::Lock { pressed: false, locked: 0, mod_type: ModType::Plain },
            0,
        );
        m
    }
}


/// One tap: a press followed by a release.
pub open spec fn spec_tap(k: ModKind) -> ModKind {
    k.spec_update(KeyDirection::Down).spec_update(KeyDirection::Up)
}

pub open spec fn spec_taps(k: ModKind, n: nat) -> ModKind
    decreases n,
{
    if n == 0 {
        k
    } else {
        spec_tap(spec_taps(k, (n - 1) as nat))
    }
}

/// Lock hysteresis: starting from counter 0, each tap flips the lock, so it
/// is active (counter 1) after an odd number of taps and inactive (counter 0)
/// after an even number; a single press-release pair therefore leaves it
/// active, and a second pair releases it.
pub proof fn lemma_lock_tap_parity(pressed: bool, mod_type: ModType, n: nat)
    ensures
        n > 0 ==> spec_taps((ModKind::Lock { pressed, locked: 0, mod_type }), n) == (ModKind::Lock {
            pressed: false,
            locked: if n % 2 == 1 { 1u8 } else { 0u8 },
            mod_type,
        }),
        spec_taps((ModKind::Lock { pressed, locked: 0, mod_type }), n).spec_active() == (n % 2
            == 1),
    decreases n,
{
    if n > 0 {
        lemma_lock_tap_parity(pressed, mod_type, (n - 1) as nat);
    }
}

/// Latch one-shot behavior: a press sets `latched`, a release keeps it, and
/// the reset that follows a produced character clears it exactly when the key
/// is no longer held.
pub proof fn lemma_latch_one_shot(pressed: bool, latched: bool, mod_type: ModType)
    ensures
        (ModKind::Latch { pressed, latched, mod_type }).spec_update(KeyDirection::Down)
            == (ModKind::Latch { pressed: true, latched: true, mod_type }),
        (ModKind::Latch { pressed: true, latched: true, mod_type }).spec_update(KeyDirection::Up)
            == (ModKind::Latch { pressed: false, latched: true, mod_type }),
        (ModKind::Latch { pressed: false, latched: true, mod_type }).spec_unlatch()
            == (ModKind::Latch { pressed: false, latched: false, mod_type }),
        (ModKind::Latch { pressed: true, latched: true, mod_type }).spec_unlatch()
            == (ModKind::Latch { pressed: true, latched: true, mod_type }),
{
}

} // verus!
