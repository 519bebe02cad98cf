//! The layout quirk corrector: a per-(locale, layout) table of corrective
//! steps that patch the interpreted tables and casing configuration, and
//! the three fill passes that reconstruct the format's convention-based
//! level inheritance.

use vstd::prelude::*;
use crate::doc::str_eq;
use crate::keymap::{
    cm_has, cm_index_of, cm_model_of, cm_sorted, lemma_cm_at, levels_views, levels_wf,
    lemma_levels_views_update, lemma_levels_views_push, default_level_map, spec_default_level,
    CaseMap, CharMap,
};

verus! {

/// The state the corrective pass works on: the level tables and the
/// per-layout casing and lock configuration.
#[verifier::ext_equal]
pub struct QuirkSt {
    pub levels: Seq<Map<u32, char>>,
    pub case_map: Option<Map<char, char>>,
    pub caps_is_level2: Option<Seq<u32>>,
    pub caps_lock_disabled: bool,
    pub caps_lock_level2_disabled: bool,
    pub num_lock_keys: Seq<u32>,
}

/// One corrective step of the per-(locale, layout) exception table.
#[derive(Debug, Clone, Copy, PartialEq, Eq, Structural)]
pub enum QuirkOp {
    /// Swap the characters of two scan codes within levels 0 and 1.
    Swap01(u32, u32),
    /// Add one pair to the custom case table.
    CaseFold(char, char),
    /// Append one code to the caps-is-level2 list.
    CapsIsLevel2(u32),
    CapsLockDisable,
    CapsLevel2Disable,
    /// Set one level's entry outright.
    Put(u8, u32, char),
    /// Copy the entries with codes in the range from one level over another.
    CopyRange(u8, u32, u32, u8),
    /// As `CopyRange`, but keeping entries the target already has.
    CopyRangeIfAbsent(u8, u32, u32, u8),
    NumLockAdd(u32),
    NumLockRemove(u32),
    NumLockClear,
    /// Truncate or extend the level list to the count.
    SetLevelCount(u8),
    /// Append one empty level.
    PushLevel,
    /// Set an entry of the last level.
    PutLast(u32, char),
}

/// `to` filled from `from`, restricted to codes in `[lo, hi]`: with
/// `overwrite` the source wins on overlap, without it existing entries stay.
pub open spec fn map_fill_range(
    to: Map<u32, char>,
    from: Map<u32, char>,
    lo: u32,
    hi: u32,
    overwrite: bool,
) -> Map<u32, char> {
    Map::new(
        |k: u32| to.dom().contains(k) || (from.dom().contains(k) && lo <= k && k <= hi),
        |k: u32|
            if from.dom().contains(k) && lo <= k && k <= hi && (overwrite || !to.dom().contains(
                k,
            )) {
                from[k]
            } else {
                to[k]
            },
    )
}

/// The two codes' entries exchanged, where both are present.
pub open spec fn spec_swap_codes(m: Map<u32, char>, a: u32, b: u32) -> Map<u32, char> {
    if m.dom().contains(a) && m.dom().contains(b) {
        m.insert(a, m[b]).insert(b, m[a])
    } else {
        m
    }
}

/// The list with every occurrence of `c` removed.
pub open spec fn spec_remove_code(s: Seq<u32>, c: u32) -> Seq<u32>
    decreases s.len(),
{
    if s.len() == 0 {
        Seq::empty()
    } else if s[0] == c {
        spec_remove_code(s.drop_first(), c)
    } else {
        seq![s[0]] + spec_remove_code(s.drop_first(), c)
    }
}

/// The effect of one corrective step.
pub open spec fn spec_apply_op(st: QuirkSt, op: QuirkOp) -> QuirkSt {
    match op {
        QuirkOp::Swap01(a, b) => {
            let l0 = if st.levels.len() > 0 {
                st.levels.update(0, spec_swap_codes(st.levels[0], a, b))
            } else {
                st.levels
            };
            let l1 = if l0.len() > 1 {
                l0.update(1, spec_swap_codes(l0[1], a, b))
            } else {
                l0
            };
            QuirkSt { levels: l1, ..st }
        }
        QuirkOp::CaseFold(x, y) => {
            let m = match st.case_map {
                Some(m) => m,
                None => Map::empty(),
            };
            QuirkSt { case_map: Some(m.insert(x, y)), ..st }
        }
        QuirkOp::CapsIsLevel2(c) => {
            let l = match st.caps_is_level2 {
                Some(l) => l,
                None => Seq::empty(),
            };
            QuirkSt { caps_is_level2: Some(l.push(c)), ..st }
        }
        QuirkOp::CapsLockDisable => QuirkSt { caps_lock_disabled: true, ..st },
        QuirkOp::CapsLevel2Disable => QuirkSt { caps_lock_level2_disabled: true, ..st },
        QuirkOp::Put(l, c, ch) => {
            if (l as int) < st.levels.len() {
                QuirkSt {
                    levels: st.levels.update(l as int, st.levels[l as int].insert(c, ch)),
                    ..st
                }
            } else {
                st
            }
        }
        QuirkOp::CopyRange(f, lo, hi, t) => {
            if (f as int) < st.levels.len() && (t as int) < st.levels.len() {
                QuirkSt {
                    levels: st.levels.update(
                        t as int,
                        map_fill_range(st.levels[t as int], st.levels[f as int], lo, hi, true),
                    ),
                    ..st
                }
            } else {
                st
            }
        }
        QuirkOp::CopyRangeIfAbsent(f, lo, hi, t) => {
            if (f as int) < st.levels.len() && (t as int) < st.levels.len() {
                QuirkSt {
                    levels: st.levels.update(
                        t as int,
                        map_fill_range(st.levels[t as int], st.levels[f as int], lo, hi, false),
                    ),
                    ..st
                }
            } else {
                st
            }
        }
        QuirkOp::NumLockAdd(c) => QuirkSt { num_lock_keys: st.num_lock_keys.push(c), ..st },
        QuirkOp::NumLockRemove(c) => QuirkSt {
            num_lock_keys: spec_remove_code(st.num_lock_keys, c),
            ..st
        },
        QuirkOp::NumLockClear => QuirkSt { num_lock_keys: Seq::empty(), ..st },
        QuirkOp::SetLevelCount(n) => QuirkSt {
            levels: Seq::new(
                n as nat,
                |i: int|
                    if i < st.levels.len() {
                        st.levels[i]
                    } else {
                        Map::empty()
                    },
            ),
            ..st
        },
        QuirkOp::PushLevel => QuirkSt { levels: st.levels.push(Map::empty()), ..st },
        QuirkOp::PutLast(c, ch) => {
            if st.levels.len() > 0 {
                let last = st.levels.len() - 1;
                QuirkSt { levels: st.levels.update(last, st.levels[last].insert(c, ch)), ..st }
            } else {
                st
            }
        }
    }
}

/// The corrective steps applied in order, from index `i` on.
pub open spec fn spec_apply_ops_from(st: QuirkSt, ops: Seq<QuirkOp>, i: nat) -> QuirkSt
    decreases ops.len() - i,
{
    if i >= ops.len() {
        st
    } else {
        spec_apply_ops_from(spec_apply_op(st, ops[i as int]), ops, i + 1)
    }
}

pub open spec fn spec_apply_ops(st: QuirkSt, ops: Seq<QuirkOp>) -> QuirkSt {
    spec_apply_ops_from(st, ops, 0)
}

/// The fill after the first `i` source entries have been considered.
pub open spec fn spec_fill_prefix(
    to0: Map<u32, char>,
    s: Seq<(u32, char)>,
    i: int,
    lo: u32,
    hi: u32,
    overwrite: bool,
) -> Map<u32, char>
    decreases i,
{
    if i <= 0 {
        to0
    } else {
        let prev = spec_fill_prefix(to0, s, i - 1, lo, hi, overwrite);
        let k = s[i - 1].0;
        if lo <= k && k <= hi && (overwrite || !prev.dom().contains(k)) {
            prev.insert(k, s[i - 1].1)
        } else {
            prev
        }
    }
}

/// Considering all entries of a sorted table gives exactly the range fill.
proof fn lemma_fill_prefix_full(
    to0: Map<u32, char>,
    s: Seq<(u32, char)>,
    i: int,
    lo: u32,
    hi: u32,
    overwrite: bool,
)
    requires
        cm_sorted(s),
        0 <= i <= s.len(),
    ensures
        spec_fill_prefix(to0, s, i, lo, hi, overwrite) == map_fill_range(
            to0,
            cm_model_of(s.take(i)),
            lo,
            hi,
            overwrite,
        ),
    decreases i,
{
    let m_i = cm_model_of(s.take(i));
    if i == 0 {
        assert forall |k: u32| !cm_has(s.take(0), k) by {
            if cm_has(s.take(0), k) {
                let j = cm_index_of(s.take(0), k);
                assert(0 <= j < s.take(0).len());
            }
        };
        assert(spec_fill_prefix(to0, s, 0, lo, hi, overwrite) =~= map_fill_range(
            to0,
            m_i,
            lo,
            hi,
            overwrite,
        ));
    } else {
        lemma_fill_prefix_full(to0, s, i - 1, lo, hi, overwrite);
        let prev = spec_fill_prefix(to0, s, i - 1, lo, hi, overwrite);
        let m_prev = cm_model_of(s.take(i - 1));
        let k0 = s[i - 1].0;
        let v0 = s[i - 1].1;
        assert(cm_sorted(s.take(i - 1)));
        assert(s.take(i) =~= s.take(i - 1).push((k0, v0)));
        assert forall |j: int| 0 <= j < s.take(i - 1).len() implies (#[trigger] s.take(i - 1)[j]).0 < k0 by {
            assert(s.take(i - 1)[j] == s[j]);
        };
        crate::keymap::lemma_cm_insert_model(s.take(i - 1), i - 1, k0, v0);
        assert(s.take(i - 1).insert(i - 1, (k0, v0)) =~= s.take(i));
        assert(m_i == m_prev.insert(k0, v0));
        assert forall |j: int| 0 <= j < s.take(i - 1).len() implies (#[trigger] s.take(i - 1)[j]).0 != k0 by {
            assert(s.take(i - 1)[j] == s[j]);
        };
        assert(!cm_has(s.take(i - 1), k0)) by {
            if cm_has(s.take(i - 1), k0) {
                let j = cm_index_of(s.take(i - 1), k0);
                assert(0 <= j < s.take(i - 1).len() && s.take(i - 1)[j].0 == k0);
            }
        };
        assert(!m_prev.dom().contains(k0));
        assert(prev.dom().contains(k0) == to0.dom().contains(k0));
        assert(spec_fill_prefix(to0, s, i, lo, hi, overwrite) =~= map_fill_range(
            to0,
            m_i,
            lo,
            hi,
            overwrite,
        ));
    }
}

/// Fill one table from another, per [`map_fill_range`].
pub fn fill_charmap_from(to: &mut CharMap, src: &CharMap, lo: u32, hi: u32, overwrite: bool)
    requires
        old(to).wf(),
        src.wf(),
    ensures
        final(to).wf(),
        final(to).model() == map_fill_range(old(to).model(), src.model(), lo, hi, overwrite),
{
    let ghost to0 = old(to).model();
    let n = src.len();
    let mut i: usize = 0;
    while i < n
        invariant
            n == src@.len(),
            0 <= i <= n,
            to.wf(),
            src.wf(),
            to0 == old(to).model(),
            to.model() == spec_fill_prefix(to0, src@, i as int, lo, hi, overwrite),
        decreases n - i,
    {
        let (k0, v0) = src.entry_at(i);
        let in_range = lo <= k0 && k0 <= hi;
        let do_put: bool = in_range && (overwrite || to.get(k0).is_none());
        if do_put {
            to.put(k0, v0);
        }
        i = i + 1;
    }
    proof {
        lemma_fill_prefix_full(to0, src@, n as int, lo, hi, overwrite);
        assert(src@.take(n as int) =~= src@);
    }
}


/// The abstract value of the corrective pass's concrete state.
pub open spec fn quirk_st_of(
    levels: Seq<CharMap>,
    cm: Option<CaseMap>,
    ci: Option<Vec<u32>>,
    caps_lock_disabled: bool,
    caps_lock_level2_disabled: bool,
    nl: Seq<u32>,
) -> QuirkSt {
    QuirkSt {
        levels: levels_views(levels),
        case_map: match cm {
            Some(c) => Some(c.model()),
            None => None,
        },
        caps_is_level2: match ci {
            Some(v) => Some(v@),
            None => None,
        },
        caps_lock_disabled,
        caps_lock_level2_disabled,
        num_lock_keys: nl,
    }
}

pub open spec fn quirk_parts_wf(levels: Seq<CharMap>, cm: Option<CaseMap>) -> bool {
    levels_wf(levels) && (match cm {
        Some(c) => c.wf(),
        None => true,
    })
}

/// Remove every occurrence of a code from a plain list.
pub(crate) fn remove_code(v: &mut Vec<u32>, c: u32)
    ensures
        final(v)@ == spec_remove_code(old(v)@, c),
{
    let n = v.len();
    let mut out: Vec<u32> = Vec::new();
    let mut i: usize = 0;
    proof {
        assert(old(v)@.skip(0) =~= old(v)@);
    }
    while i < n
        invariant
            n == v@.len(),
            v@ == old(v)@,
            0 <= i <= n,
            out@ + spec_remove_code(v@.skip(i as int), c) == spec_remove_code(v@, c),
        decreases n - i,
    {
        proof {
            assert(v@.skip(i as int)[0] == v@[i as int]);
            assert(v@.skip(i as int).drop_first() =~= v@.skip(i as int + 1));
        }
        if v[i] != c {
            let ghost out_old = out@;
            out.push(v[i]);
            proof {
                assert(out@ =~= out_old + seq![v@[i as int]]);
                assert(out_old + (seq![v@[i as int]] + spec_remove_code(
                    v@.skip(i as int + 1),
                    c,
                )) == (out_old + seq![v@[i as int]]) + spec_remove_code(v@.skip(i as int + 1), c));
            }
        }
        i = i + 1;
    }
    proof {
        assert(v@.skip(n as int) =~= Seq::<u32>::empty());
        assert(out@ + Seq::<u32>::empty() =~= out@);
    }
    *v = out;
}

/// Apply one corrective step to the concrete state, per [`spec_apply_op`].
pub fn apply_quirk_op(
    levels: &mut Vec<CharMap>,
    case_map: &mut Option<CaseMap>,
    caps_is_level2: &mut Option<Vec<u32>>,
    caps_lock_disabled: &mut bool,
    caps_lock_level2_disabled: &mut bool,
    num_lock_keys: &mut Vec<u32>,
    op: QuirkOp,
)
    requires
        quirk_parts_wf(old(levels)@, *old(case_map)),
    ensures
        quirk_parts_wf(final(levels)@, *final(case_map)),
        quirk_st_of(
            final(levels)@,
            *final(case_map),
            *final(caps_is_level2),
            *final(caps_lock_disabled),
            *final(caps_lock_level2_disabled),
            final(num_lock_keys)@,
        ) == spec_apply_op(
            quirk_st_of(
                old(levels)@,
                *old(case_map),
                *old(caps_is_level2),
                *old(caps_lock_disabled),
                *old(caps_lock_level2_disabled),
                old(num_lock_keys)@,
            ),
            op,
        ),
{
    let ghost st0 = quirk_st_of(
        old(levels)@,
        *old(case_map),
        *old(caps_is_level2),
        *old(caps_lock_disabled),
        *old(caps_lock_level2_disabled),
        old(num_lock_keys)@,
    );
    match op {
        QuirkOp::Swap01(a, b) => {
            let mut lvl: usize = 0;
            while lvl < 2
                invariant
                    0 <= lvl <= 2,
                    op == QuirkOp::Swap01(a, b),
                    levels_wf(levels@),
                    *case_map == *old(case_map),
                    *caps_is_level2 == *old(caps_is_level2),
                    *caps_lock_disabled == *old(caps_lock_disabled),
                    *caps_lock_level2_disabled == *old(caps_lock_level2_disabled),
                    num_lock_keys@ == old(num_lock_keys)@,
                    lvl == 0 ==> levels_views(levels@) == st0.levels,
                    lvl == 1 ==> levels_views(levels@) == (if st0.levels.len() > 0 {
                        st0.levels.update(0, spec_swap_codes(st0.levels[0], a, b))
                    } else {
                        st0.levels
                    }),
                    lvl == 2 ==> levels_views(levels@) == spec_apply_op(st0, op).levels,
                decreases 2 - lvl,
            {
                let ghost lv_pre = levels_views(levels@);
                if lvl < levels.len() {
                    proof {
                        assert(lv_pre[lvl as int] == levels@[lvl as int].model());
                    }
                    let ta = levels[lvl].get(a);
                    let tb = levels[lvl].get(b);
                    if let (Some(va), Some(vb)) = (ta, tb) {
                        let ghost before = levels@;
                        let lm = &mut levels[lvl];
                        lm.put(a, vb);
                        lm.put(b, va);
                        proof {
                            lemma_levels_views_update(before, lvl as int, levels@[lvl as int]);
                            assert(levels_views(levels@) =~~= lv_pre.update(
                                lvl as int,
                                spec_swap_codes(lv_pre[lvl as int], a, b),
                            ));
                        }
                    } else {
                        proof {
                            assert(spec_swap_codes(lv_pre[lvl as int], a, b) == lv_pre[lvl as int]);
                            assert(levels_views(levels@) =~~= lv_pre.update(
                                lvl as int,
                                spec_swap_codes(lv_pre[lvl as int], a, b),
                            ));
                        }
                    }
                }
                proof {
                    if lvl == 0 {
                        assert(lv_pre == st0.levels);
                        assert(levels_views(levels@) =~~= (if st0.levels.len() > 0 {
                            st0.levels.update(0, spec_swap_codes(st0.levels[0], a, b))
                        } else {
                            st0.levels
                        }));
                    } else {
                        let l0 = (if st0.levels.len() > 0 {
                            st0.levels.update(0, spec_swap_codes(st0.levels[0], a, b))
                        } else {
                            st0.levels
                        });
                        assert(lv_pre == l0);
                        assert(levels_views(levels@) =~~= (if l0.len() > 1 {
                            l0.update(1, spec_swap_codes(l0[1], a, b))
                        } else {
                            l0
                        }));
                        assert(levels_views(levels@) == spec_apply_op(st0, op).levels);
                    }
                }
                lvl = lvl + 1;
            }
        }
        QuirkOp::CaseFold(x, y) => {
            match case_map {
                Some(cm) => {
                    cm.put(x, y);
                }
                None => {
                    let mut c = CaseMap::new();
                    c.put(x, y);
                    *case_map = Some(c);
                }
            }
        }
        QuirkOp::CapsIsLevel2(c) => {
            match caps_is_level2 {
                Some(v) => {
                    v.push(c);
                }
                None => {
                    let mut v: Vec<u32> = Vec::new();
                    v.push(c);
                    proof {
                        assert(v@ =~= Seq::<u32>::empty().push(c));
                    }
                    *caps_is_level2 = Some(v);
                }
            }
        }
        QuirkOp::CapsLockDisable => {
            *caps_lock_disabled = true;
        }
        QuirkOp::CapsLevel2Disable => {
            *caps_lock_level2_disabled = true;
        }
        QuirkOp::Put(l, c, ch) => {
            let li = l as usize;
            if li < levels.len() {
                let ghost before = levels@;
                let lm = &mut levels[li];
                lm.put(c, ch);
                proof {
                    lemma_levels_views_update(before, li as int, levels@[li as int]);
                }
            }
        }
        QuirkOp::CopyRange(f, lo, hi, t) => {
            let fi = f as usize;
            let ti = t as usize;
            if fi < levels.len() && ti < levels.len() {
                if fi != ti {
                    let src = levels[fi].duplicate();
                    let ghost before = levels@;
                    let lm = &mut levels[ti];
                    fill_charmap_from(lm, &src, lo, hi, true);
                    proof {
                        lemma_levels_views_update(before, ti as int, levels@[ti as int]);
                    }
                } else {
                    proof {
                        let lv = levels_views(levels@);
                        assert(map_fill_range(lv[ti as int], lv[fi as int], lo, hi, true)
                            =~= lv[ti as int]);
                        assert(lv.update(ti as int, lv[ti as int]) =~= lv);
                    }
                }
            }
        }
        QuirkOp::CopyRangeIfAbsent(f, lo, hi, t) => {
            let fi = f as usize;
            let ti = t as usize;
            if fi < levels.len() && ti < levels.len() {
                if fi != ti {
                    let src = levels[fi].duplicate();
                    let ghost before = levels@;
                    let lm = &mut levels[ti];
                    fill_charmap_from(lm, &src, lo, hi, false);
                    proof {
                        lemma_levels_views_update(before, ti as int, levels@[ti as int]);
                    }
                } else {
                    proof {
                        let lv = levels_views(levels@);
                        assert(map_fill_range(lv[ti as int], lv[fi as int], lo, hi, false)
                            =~= lv[ti as int]);
                        assert(lv.update(ti as int, lv[ti as int]) =~= lv);
                    }
                }
            }
        }
        QuirkOp::NumLockAdd(c) => {
            num_lock_keys.push(c);
        }
        QuirkOp::NumLockRemove(c) => {
            remove_code(num_lock_keys, c);
        }
        QuirkOp::NumLockClear => {
            *num_lock_keys = Vec::new();
        }
        QuirkOp::SetLevelCount(n) => {
            let nn = n as usize;
            if levels.len() > nn {
                levels.truncate(nn);
            } else {
                while levels.len() < nn
                    invariant
                        levels@.len() <= nn,
                        *case_map == *old(case_map),
                        levels_wf(levels@),
                        forall |j: int| 0 <= j < levels@.len() ==> levels_views(levels@)[j] == (
                        if j < st0.levels.len() {
                            st0.levels[j]
                        } else {
                            Map::<u32, char>::empty()
                        }),
                        st0.levels.len() <= levels@.len(),
                    decreases nn - levels@.len(),
                {
                    let ghost before = levels@;
                    let m = CharMap::new();
                    proof {
                        lemma_levels_views_push(before, m);
                    }
                    levels.push(m);
                }
            }
            proof {
                assert(levels_views(levels@) =~= spec_apply_op(st0, op).levels);
            }
        }
        QuirkOp::PushLevel => {
            let ghost before = levels@;
            let m = CharMap::new();
            proof {
                lemma_levels_views_push(before, m);
            }
            levels.push(m);
        }
        QuirkOp::PutLast(c, ch) => {
            let n = levels.len();
            if n > 0 {
                let ghost before = levels@;
                let lm = &mut levels[n - 1];
                lm.put(c, ch);
                proof {
                    lemma_levels_views_update(before, n as int - 1, levels@[n as int - 1]);
                }
            }
        }
    }
    proof {
        assert(quirk_st_of(
            levels@,
            *case_map,
            *caps_is_level2,
            *caps_lock_disabled,
            *caps_lock_level2_disabled,
            num_lock_keys@,
        ) =~= spec_apply_op(st0, op));
    }
}


/// First fill pass: when more than one level exists, the second level takes
/// every first-level entry it lacks.
pub open spec fn spec_fill_pass1(levels: Seq<Map<u32, char>>) -> Seq<Map<u32, char>> {
    if levels.len() > 1 {
        levels.update(1, map_fill_range(levels[1], levels[0], 0, 0xFFFFFFFFu32, false))
    } else {
        levels
    }
}

/// Second fill pass, from level `i` on: each level hands its entries forward
/// to the level two above it, clamped to the last level, keeping what is
/// already there.
pub open spec fn spec_fill_pass2_from(levels: Seq<Map<u32, char>>, i: nat) -> Seq<Map<u32, char>>
    decreases levels.len() - i,
{
    if i >= levels.len() {
        levels
    } else {
        let l = levels.len() as int;
        let next: int = if i + 2 < l {
            i as int + 2
        } else {
            l - 1
        };
        let levels2 = if next > i {
            levels.update(
                next,
                map_fill_range(levels[next], levels[i as int], 0, 0xFFFFFFFFu32, false),
            )
        } else {
            levels
        };
        spec_fill_pass2_from(levels2, i + 1)
    }
}

/// Third fill pass, from level `i` on: each level takes the fallback entries
/// it lacks.
pub open spec fn spec_fill_pass3_from(levels: Seq<Map<u32, char>>, i: nat) -> Seq<Map<u32, char>>
    decreases levels.len() - i,
{
    if i >= levels.len() {
        levels
    } else {
        spec_fill_pass3_from(
            levels.update(
                i as int,
                map_fill_range(levels[i as int], spec_default_level(i as int), 0, 0xFFFFFFFFu32, false),
            ),
            i + 1,
        )
    }
}

/// The three-pass reconstruction of the convention-based level inheritance,
/// followed by the fallback fill.
pub open spec fn spec_finalize(levels: Seq<Map<u32, char>>) -> Seq<Map<u32, char>> {
    spec_fill_pass3_from(spec_fill_pass2_from(spec_fill_pass1(levels), 0), 0)
}

/// Run the three fill passes on the level tables, per [`spec_finalize`].
pub fn finalize_levels(levels: &mut Vec<CharMap>)
    requires
        levels_wf(old(levels)@),
    ensures
        levels_wf(final(levels)@),
        levels_views(final(levels)@) == spec_finalize(levels_views(old(levels)@)),
{
    let ghost lv0 = levels_views(levels@);
    if levels.len() > 1 {
        let src = levels[0].duplicate();
        let ghost before = levels@;
        proof {
            assert(levels_views(before)[0] == before[0].model());
            assert(levels_views(before)[1] == before[1].model());
        }
        let lm = &mut levels[1];
        fill_charmap_from(lm, &src, 0, 0xFFFFFFFF, false);
        proof {
            lemma_levels_views_update(before, 1, levels@[1]);
        }
    }
    proof {
        assert(levels_views(levels@) =~~= spec_fill_pass1(lv0));
    }
    let ghost lv1 = levels_views(levels@);
    let n = levels.len();
    let mut i: usize = 0;
    while i < n
        invariant
            n == levels@.len(),
            0 <= i <= n,
            levels_wf(levels@),
            spec_fill_pass2_from(levels_views(levels@), i as nat) == spec_fill_pass2_from(lv1, 0),
        decreases n - i,
    {
        let next = if n - i > 2 {
            i + 2
        } else {
            n - 1
        };
        if next > i {
            let src = levels[i].duplicate();
            let ghost before = levels@;
            proof {
                assert(levels_views(before)[next as int] == before[next as int].model());
                assert(levels_views(before)[i as int] == before[i as int].model());
            }
            let lm = &mut levels[next];
            fill_charmap_from(lm, &src, 0, 0xFFFFFFFF, false);
            proof {
                lemma_levels_views_update(before, next as int, levels@[next as int]);
                assert(levels_views(levels@) =~~= levels_views(before).update(
                    next as int,
                    map_fill_range(
                        levels_views(before)[next as int],
                        levels_views(before)[i as int],
                        0,
                        0xFFFFFFFFu32,
                        false,
                    ),
                ));
            }
        }
        i = i + 1;
    }
    let ghost lv2 = levels_views(levels@);
    proof {
        assert(lv2 == spec_fill_pass2_from(lv1, 0));
    }
    let mut j: usize = 0;
    while j < n
        invariant
            n == levels@.len(),
            0 <= j <= n,
            levels_wf(levels@),
            spec_fill_pass3_from(levels_views(levels@), j as nat) == spec_fill_pass3_from(lv2, 0),
        decreases n - j,
    {
        let src = default_level_map(j);
        let ghost before = levels@;
        proof {
            assert(levels_views(before)[j as int] == before[j as int].model());
        }
        let lm = &mut levels[j];
        fill_charmap_from(lm, &src, 0, 0xFFFFFFFF, false);
        proof {
            lemma_levels_views_update(before, j as int, levels@[j as int]);
            assert(levels_views(levels@) =~~= levels_views(before).update(
                j as int,
                map_fill_range(
                    levels_views(before)[j as int],
                    spec_default_level(j as int),
                    0,
                    0xFFFFFFFFu32,
                    false,
                ),
            ));
        }
        j = j + 1;
    }
    proof {
        assert(levels_views(levels@) == spec_finalize(lv0));
    }
}

/// Apply a list of corrective steps in order.
pub fn apply_quirk_ops(
    levels: &mut Vec<CharMap>,
    case_map: &mut Option<CaseMap>,
    caps_is_level2: &mut Option<Vec<u32>>,
    caps_lock_disabled: &mut bool,
    caps_lock_level2_disabled: &mut bool,
    num_lock_keys: &mut Vec<u32>,
    ops: &Vec<QuirkOp>,
)
    requires
        quirk_parts_wf(old(levels)@, *old(case_map)),
    ensures
        quirk_parts_wf(final(levels)@, *final(case_map)),
        quirk_st_of(
            final(levels)@,
            *final(case_map),
            *final(caps_is_level2),
            *final(caps_lock_disabled),
            *final(caps_lock_level2_disabled),
            final(num_lock_keys)@,
        ) == spec_apply_ops(
            quirk_st_of(
                old(levels)@,
                *old(case_map),
                *old(caps_is_level2),
                *old(caps_lock_disabled),
                *old(caps_lock_level2_disabled),
                old(num_lock_keys)@,
            ),
            ops@,
        ),
{
    let ghost st0 = quirk_st_of(
        old(levels)@,
        *old(case_map),
        *old(caps_is_level2),
        *old(caps_lock_disabled),
        *old(caps_lock_level2_disabled),
        old(num_lock_keys)@,
    );
    let n = ops.len();
    let mut i: usize = 0;
    while i < n
        invariant
            n == ops@.len(),
            0 <= i <= n,
            quirk_parts_wf(levels@, *case_map),
            spec_apply_ops_from(
                quirk_st_of(
                    levels@,
                    *case_map,
                    *caps_is_level2,
                    *caps_lock_disabled,
                    *caps_lock_level2_disabled,
                    num_lock_keys@,
                ),
                ops@,
                i as nat,
            ) == spec_apply_ops_from(st0, ops@, 0),
        decreases n - i,
    {
        apply_quirk_op(
            levels,
            case_map,
            caps_is_level2,
            caps_lock_disabled,
            caps_lock_level2_disabled,
            num_lock_keys,
            ops[i],
        );
        i = i + 1;
    }
}


/// What the exception table holds for the keys that the design pins down:
/// the corrective swap and eszett casing of the German-Russian and plain
/// German layouts, the Turkish dotted-i casing, and the other entries that
/// the scenarios exercise; for a layout of a listed locale that the table
/// does not name, no step applies.
pub open spec fn quirk_table_facts(locale: Seq<char>, layout: Seq<char>, ops: Seq<QuirkOp>) -> bool {
    &&& (locale == "de"@ && layout == "ru"@ ==> ops =~= seq![QuirkOp::Swap01(21, 44), QuirkOp::CaseFold('\u{df}', '\u{1e9e}')])
    &&& (locale == "de"@ && layout == "ru-recom"@ ==> ops =~= seq![QuirkOp::Swap01(21, 44), QuirkOp::CaseFold('~', '\u{1e9e}')])
    &&& (locale == "de"@ && layout == "ru-translit"@ ==> ops =~= seq![QuirkOp::Swap01(21, 44), QuirkOp::CaseFold('~', '\u{1e9e}')])
    &&& (locale == "de"@ && layout == "basic"@ ==> ops =~= seq![QuirkOp::CaseFold('\u{df}', '\u{1e9e}')])
    &&& (locale == "de"@ && layout == "neo"@ ==> ops =~= seq![QuirkOp::NumLockClear, QuirkOp::CaseFold('\u{df}', '\u{1e9e}')])
    &&& (locale == "az"@ && layout == "latin"@ ==> ops =~= seq![QuirkOp::CapsIsLevel2(23), QuirkOp::CapsIsLevel2(39)])
    &&& (locale == "us"@ && layout == "mac"@ ==> ops =~= seq![QuirkOp::CapsLevel2Disable])
    &&& (locale == "la"@ && layout == "stea"@ ==> ops =~= seq![QuirkOp::NumLockRemove(83)])
    &&& (locale == "tr"@ && layout == "basic"@ ==> ops =~= seq![QuirkOp::CaseFold('i', '\u{130}'), QuirkOp::CaseFold('\u{130}', 'i'), QuirkOp::CaseFold('I', '\u{131}')])
    &&& (locale == "am"@ && layout == "eastern"@ ==> ops =~= seq![QuirkOp::NumLockAdd(2), QuirkOp::NumLockAdd(5), QuirkOp::NumLockAdd(6), QuirkOp::NumLockAdd(7)])
    &&& (locale == "gr"@ ==> ops =~= seq![QuirkOp::CapsIsLevel2(17)])
    &&& (locale == "us"@ && layout == "basic"@ ==> ops =~= Seq::<QuirkOp>::empty())
}

/// The per-(locale, layout) exception table: the corrective steps for one
/// layout, looked up by exact match; a pair the table does not name gets
/// none. Each entry compensates for a convention of the source corpus that
/// the generic interpretation cannot infer.
#[verifier::rlimit(100)]
pub fn quirk_ops(locale: &str, layout: &str) -> (r: Vec<QuirkOp>)
    ensures
        quirk_table_facts(locale@, layout@, r@),
{
    let mut ops: Vec<QuirkOp> = Vec::new();
    proof {
        reveal_strlit("3l");
        reveal_strlit("3l-cros");
        reveal_strlit("3l-emacs");
        reveal_strlit("T3");
        reveal_strlit("adnw");
        reveal_strlit("adnw_base");
        reveal_strlit("afnor");
        reveal_strlit("am");
        reveal_strlit("apl");
        reveal_strlit("apl2");
        reveal_strlit("aplplusII");
        reveal_strlit("at");
        reveal_strlit("az");
        reveal_strlit("azerty");
        reveal_strlit("basic");
        reveal_strlit("be");
        reveal_strlit("bepo");
        reveal_strlit("bepo_afnor");
        reveal_strlit("bepo_latin9");
        reveal_strlit("biblical");
        reveal_strlit("biblicalSIL");
        reveal_strlit("bone");
        reveal_strlit("bone_base");
        reveal_strlit("bone_eszett_home");
        reveal_strlit("bone_eszett_home_base");
        reveal_strlit("bqn");
        reveal_strlit("brai");
        reveal_strlit("cd");
        reveal_strlit("chr");
        reveal_strlit("cm");
        reveal_strlit("common");
        reveal_strlit("crh");
        reveal_strlit("crh_dobruja");
        reveal_strlit("crh_f");
        reveal_strlit("cz");
        reveal_strlit("de");
        reveal_strlit("deadacute");
        reveal_strlit("deadgraveacute");
        reveal_strlit("deadtilde");
        reveal_strlit("dsb_qwertz");
        reveal_strlit("dvorak");
        reveal_strlit("dvp");
        reveal_strlit("dyalog_box");
        reveal_strlit("e");
        reveal_strlit("e1");
        reveal_strlit("e2");
        reveal_strlit("eastern");
        reveal_strlit("eastern-alt");
        reveal_strlit("ergonomic");
        reveal_strlit("ext");
        reveal_strlit("f");
        reveal_strlit("fr");
        reveal_strlit("fula");
        reveal_strlit("gag");
        reveal_strlit("ge");
        reveal_strlit("geo");
        reveal_strlit("gh");
        reveal_strlit("glagolica");
        reveal_strlit("gr");
        reveal_strlit("hausa");
        reveal_strlit("home_row");
        reveal_strlit("hu");
        reveal_strlit("hw_keys");
        reveal_strlit("hztg_escape");
        reveal_strlit("ie");
        reveal_strlit("iipa");
        reveal_strlit("il");
        reveal_strlit("in");
        reveal_strlit("intl");
        reveal_strlit("it");
        reveal_strlit("jp");
        reveal_strlit("keypad");
        reveal_strlit("koy");
        reveal_strlit("koy_base");
        reveal_strlit("kr");
        reveal_strlit("kz");
        reveal_strlit("la");
        reveal_strlit("latin");
        reveal_strlit("lk");
        reveal_strlit("lldde");
        reveal_strlit("mac");
        reveal_strlit("mac_nodeadkeys");
        reveal_strlit("md");
        reveal_strlit("mess");
        reveal_strlit("ml");
        reveal_strlit("neo");
        reveal_strlit("neo_base");
        reveal_strlit("neo_qwerty");
        reveal_strlit("neo_qwerty_base");
        reveal_strlit("neo_qwertz");
        reveal_strlit("neo_qwertz_base");
        reveal_strlit("ng");
        reveal_strlit("nodeadkeys");
        reveal_strlit("ogam");
        reveal_strlit("ogam_is434");
        reveal_strlit("oldhun_base");
        reveal_strlit("oldhun_lig");
        reveal_strlit("oldhun_origin");
        reveal_strlit("oldhunlig");
        reveal_strlit("olpc");
        reveal_strlit("oss_latin9");
        reveal_strlit("phonetic");
        reveal_strlit("pl");
        reveal_strlit("qwerty");
        reveal_strlit("right_hand");
        reveal_strlit("right_hand_invert");
        reveal_strlit("ro");
        reveal_strlit("ro_nodeadkeys");
        reveal_strlit("ru");
        reveal_strlit("ru-recom");
        reveal_strlit("ru-translit");
        reveal_strlit("ruintl_en");
        reveal_strlit("rus");
        reveal_strlit("se");
        reveal_strlit("si");
        reveal_strlit("si2");
        reveal_strlit("stea");
        reveal_strlit("tam_TAB");
        reveal_strlit("tamilnet_TAB");
        reveal_strlit("tamilnet_TSCII");
        reveal_strlit("tr");
        reveal_strlit("ua");
        reveal_strlit("ucw");
        reveal_strlit("us");
        reveal_strlit("us-mac");
        reveal_strlit("western");
        assert("3l"@.len() == 2);
        assert("3l"@[0] == '3');
        assert("3l"@[1] == 'l');
        assert("3l-cros"@.len() == 7);
        assert("3l-cros"@[0] == '3');
        assert("3l-cros"@[1] == 'l');
        assert("3l-emacs"@.len() == 8);
        assert("3l-emacs"@[0] == '3');
        assert("3l-emacs"@[1] == 'l');
        assert("T3"@.len() == 2);
        assert("T3"@[0] == 'T');
        assert("T3"@[1] == '3');
        assert("adnw"@.len() == 4);
        assert("adnw"@[0] == 'a');
        assert("adnw"@[1] == 'd');
        assert("adnw_base"@.len() == 9);
        assert("adnw_base"@[0] == 'a');
        assert("adnw_base"@[1] == 'd');
        assert("afnor"@.len() == 5);
        assert("afnor"@[0] == 'a');
        assert("afnor"@[1] == 'f');
        assert("am"@.len() == 2);
        assert("am"@[0] == 'a');
        assert("am"@[1] == 'm');
        assert("apl"@.len() == 3);
        assert("apl"@[0] == 'a');
        assert("apl"@[1] == 'p');
        assert("apl2"@.len() == 4);
        assert("apl2"@[0] == 'a');
        assert("apl2"@[1] == 'p');
        assert("aplplusII"@.len() == 9);
        assert("aplplusII"@[0] == 'a');
        assert("aplplusII"@[1] == 'p');
        assert("at"@.len() == 2);
        assert("at"@[0] == 'a');
        assert("at"@[1] == 't');
        assert("az"@.len() == 2);
        assert("az"@[0] == 'a');
        assert("az"@[1] == 'z');
        assert("azerty"@.len() == 6);
        assert("azerty"@[0] == 'a');
        assert("azerty"@[1] == 'z');
        assert("basic"@.len() == 5);
        assert("basic"@[0] == 'b');
        assert("basic"@[1] == 'a');
        assert("be"@.len() == 2);
        assert("be"@[0] == 'b');
        assert("be"@[1] == 'e');
        assert("bepo"@.len() == 4);
        assert("bepo"@[0] == 'b');
        assert("bepo"@[1] == 'e');
        assert("bepo_afnor"@.len() == 10);
        assert("bepo_afnor"@[0] == 'b');
        assert("bepo_afnor"@[1] == 'e');
        assert("bepo_latin9"@.len() == 11);
        assert("bepo_latin9"@[0] == 'b');
        assert("bepo_latin9"@[1] == 'e');
        assert("biblical"@.len() == 8);
        assert("biblical"@[0] == 'b');
        assert("biblical"@[1] == 'i');
        assert("biblicalSIL"@.len() == 11);
        assert("biblicalSIL"@[0] == 'b');
        assert("biblicalSIL"@[1] == 'i');
        assert("bone"@.len() == 4);
        assert("bone"@[0] == 'b');
        assert("bone"@[1] == 'o');
        assert("bone_base"@.len() == 9);
        assert("bone_base"@[0] == 'b');
        assert("bone_base"@[1] == 'o');
        assert("bone_eszett_home"@.len() == 16);
        assert("bone_eszett_home"@[0] == 'b');
        assert("bone_eszett_home"@[1] == 'o');
        assert("bone_eszett_home_base"@.len() == 21);
        assert("bone_eszett_home_base"@[0] == 'b');
        assert("bone_eszett_home_base"@[1] == 'o');
        assert("bqn"@.len() == 3);
        assert("bqn"@[0] == 'b');
        assert("bqn"@[1] == 'q');
        assert("brai"@.len() == 4);
        assert("brai"@[0] == 'b');
        assert("brai"@[1] == 'r');
        assert("cd"@.len() == 2);
        assert("cd"@[0] == 'c');
        assert("cd"@[1] == 'd');
        assert("chr"@.len() == 3);
        assert("chr"@[0] == 'c');
        assert("chr"@[1] == 'h');
        assert("cm"@.len() == 2);
        assert("cm"@[0] == 'c');
        assert("cm"@[1] == 'm');
        assert("common"@.len() == 6);
        assert("common"@[0] == 'c');
        assert("common"@[1] == 'o');
        assert("crh"@.len() == 3);
        assert("crh"@[0] == 'c');
        assert("crh"@[1] == 'r');
        assert("crh_dobruja"@.len() == 11);
        assert("crh_dobruja"@[0] == 'c');
        assert("crh_dobruja"@[1] == 'r');
        assert("crh_f"@.len() == 5);
        assert("crh_f"@[0] == 'c');
        assert("crh_f"@[1] == 'r');
        assert("cz"@.len() == 2);
        assert("cz"@[0] == 'c');
        assert("cz"@[1] == 'z');
        assert("de"@.len() == 2);
        assert("de"@[0] == 'd');
        assert("de"@[1] == 'e');
        assert("deadacute"@.len() == 9);
        assert("deadacute"@[0] == 'd');
        assert("deadacute"@[1] == 'e');
        assert("deadgraveacute"@.len() == 14);
        assert("deadgraveacute"@[0] == 'd');
        assert("deadgraveacute"@[1] == 'e');
        assert("deadtilde"@.len() == 9);
        assert("deadtilde"@[0] == 'd');
        assert("deadtilde"@[1] == 'e');
        assert("dsb_qwertz"@.len() == 10);
        assert("dsb_qwertz"@[0] == 'd');
        assert("dsb_qwertz"@[1] == 's');
        assert("dvorak"@.len() == 6);
        assert("dvorak"@[0] == 'd');
        assert("dvorak"@[1] == 'v');
        assert("dvp"@.len() == 3);
        assert("dvp"@[0] == 'd');
        assert("dvp"@[1] == 'v');
        assert("dyalog_box"@.len() == 10);
        assert("dyalog_box"@[0] == 'd');
        assert("dyalog_box"@[1] == 'y');
        assert("e"@.len() == 1);
        assert("e"@[0] == 'e');
        assert("e1"@.len() == 2);
        assert("e1"@[0] == 'e');
        assert("e1"@[1] == '1');
        assert("e2"@.len() == 2);
        assert("e2"@[0] == 'e');
        assert("e2"@[1] == '2');
        assert("eastern"@.len() == 7);
        assert("eastern"@[0] == 'e');
        assert("eastern"@[1] == 'a');
        assert("eastern-alt"@.len() == 11);
        assert("eastern-alt"@[0] == 'e');
        assert("eastern-alt"@[1] == 'a');
        assert("ergonomic"@.len() == 9);
        assert("ergonomic"@[0] == 'e');
        assert("ergonomic"@[1] == 'r');
        assert("ext"@.len() == 3);
        assert("ext"@[0] == 'e');
        assert("ext"@[1] == 'x');
        assert("f"@.len() == 1);
        assert("f"@[0] == 'f');
        assert("fr"@.len() == 2);
        assert("fr"@[0] == 'f');
        assert("fr"@[1] == 'r');
        assert("fula"@.len() == 4);
        assert("fula"@[0] == 'f');
        assert("fula"@[1] == 'u');
        assert("gag"@.len() == 3);
        assert("gag"@[0] == 'g');
        assert("gag"@[1] == 'a');
        assert("ge"@.len() == 2);
        assert("ge"@[0] == 'g');
        assert("ge"@[1] == 'e');
        assert("geo"@.len() == 3);
        assert("geo"@[0] == 'g');
        assert("geo"@[1] == 'e');
        assert("gh"@.len() == 2);
        assert("gh"@[0] == 'g');
        assert("gh"@[1] == 'h');
        assert("glagolica"@.len() == 9);
        assert("glagolica"@[0] == 'g');
        assert("glagolica"@[1] == 'l');
        assert("gr"@.len() == 2);
        assert("gr"@[0] == 'g');
        assert("gr"@[1] == 'r');
        assert("hausa"@.len() == 5);
        assert("hausa"@[0] == 'h');
        assert("hausa"@[1] == 'a');
        assert("home_row"@.len() == 8);
        assert("home_row"@[0] == 'h');
        assert("home_row"@[1] == 'o');
        assert("hu"@.len() == 2);
        assert("hu"@[0] == 'h');
        assert("hu"@[1] == 'u');
        assert("hw_keys"@.len() == 7);
        assert("hw_keys"@[0] == 'h');
        assert("hw_keys"@[1] == 'w');
        assert("hztg_escape"@.len() == 11);
        assert("hztg_escape"@[0] == 'h');
        assert("hztg_escape"@[1] == 'z');
        assert("ie"@.len() == 2);
        assert("ie"@[0] == 'i');
        assert("ie"@[1] == 'e');
        assert("iipa"@.len() == 4);
        assert("iipa"@[0] == 'i');
        assert("iipa"@[1] == 'i');
        assert("il"@.len() == 2);
        assert("il"@[0] == 'i');
        assert("il"@[1] == 'l');
        assert("in"@.len() == 2);
        assert("in"@[0] == 'i');
        assert("in"@[1] == 'n');
        assert("intl"@.len() == 4);
        assert("intl"@[0] == 'i');
        assert("intl"@[1] == 'n');
        assert("it"@.len() == 2);
        assert("it"@[0] == 'i');
        assert("it"@[1] == 't');
        assert("jp"@.len() == 2);
        assert("jp"@[0] == 'j');
        assert("jp"@[1] == 'p');
        assert("keypad"@.len() == 6);
        assert("keypad"@[0] == 'k');
        assert("keypad"@[1] == 'e');
        assert("koy"@.len() == 3);
        assert("koy"@[0] == 'k');
        assert("koy"@[1] == 'o');
        assert("koy_base"@.len() == 8);
        assert("koy_base"@[0] == 'k');
        assert("koy_base"@[1] == 'o');
        assert("kr"@.len() == 2);
        assert("kr"@[0] == 'k');
        assert("kr"@[1] == 'r');
        assert("kz"@.len() == 2);
        assert("kz"@[0] == 'k');
        assert("kz"@[1] == 'z');
        assert("la"@.len() == 2);
        assert("la"@[0] == 'l');
        assert("la"@[1] == 'a');
        assert("latin"@.len() == 5);
        assert("latin"@[0] == 'l');
        assert("latin"@[1] == 'a');
        assert("lk"@.len() == 2);
        assert("lk"@[0] == 'l');
        assert("lk"@[1] == 'k');
        assert("lldde"@.len() == 5);
        assert("lldde"@[0] == 'l');
        assert("lldde"@[1] == 'l');
        assert("mac"@.len() == 3);
        assert("mac"@[0] == 'm');
        assert("mac"@[1] == 'a');
        assert("mac_nodeadkeys"@.len() == 14);
        assert("mac_nodeadkeys"@[0] == 'm');
        assert("mac_nodeadkeys"@[1] == 'a');
        assert("md"@.len() == 2);
        assert("md"@[0] == 'm');
        assert("md"@[1] == 'd');
        assert("mess"@.len() == 4);
        assert("mess"@[0] == 'm');
        assert("mess"@[1] == 'e');
        assert("ml"@.len() == 2);
        assert("ml"@[0] == 'm');
        assert("ml"@[1] == 'l');
        assert("neo"@.len() == 3);
        assert("neo"@[0] == 'n');
        assert("neo"@[1] == 'e');
        assert("neo_base"@.len() == 8);
        assert("neo_base"@[0] == 'n');
        assert("neo_base"@[1] == 'e');
        assert("neo_qwerty"@.len() == 10);
        assert("neo_qwerty"@[0] == 'n');
        assert("neo_qwerty"@[1] == 'e');
        assert("neo_qwerty_base"@.len() == 15);
        assert("neo_qwerty_base"@[0] == 'n');
        assert("neo_qwerty_base"@[1] == 'e');
        assert("neo_qwertz"@.len() == 10);
        assert("neo_qwertz"@[0] == 'n');
        assert("neo_qwertz"@[1] == 'e');
        assert("neo_qwertz_base"@.len() == 15);
        assert("neo_qwertz_base"@[0] == 'n');
        assert("neo_qwertz_base"@[1] == 'e');
        assert("ng"@.len() == 2);
        assert("ng"@[0] == 'n');
        assert("ng"@[1] == 'g');
        assert("nodeadkeys"@.len() == 10);
        assert("nodeadkeys"@[0] == 'n');
        assert("nodeadkeys"@[1] == 'o');
        assert("ogam"@.len() == 4);
        assert("ogam"@[0] == 'o');
        assert("ogam"@[1] == 'g');
        assert("ogam_is434"@.len() == 10);
        assert("ogam_is434"@[0] == 'o');
        assert("ogam_is434"@[1] == 'g');
        assert("oldhun_base"@.len() == 11);
        assert("oldhun_base"@[0] == 'o');
        assert("oldhun_base"@[1] == 'l');
        assert("oldhun_lig"@.len() == 10);
        assert("oldhun_lig"@[0] == 'o');
        assert("oldhun_lig"@[1] == 'l');
        assert("oldhun_origin"@.len() == 13);
        assert("oldhun_origin"@[0] == 'o');
        assert("oldhun_origin"@[1] == 'l');
        assert("oldhunlig"@.len() == 9);
        assert("oldhunlig"@[0] == 'o');
        assert("oldhunlig"@[1] == 'l');
        assert("olpc"@.len() == 4);
        assert("olpc"@[0] == 'o');
        assert("olpc"@[1] == 'l');
        assert("oss_latin9"@.len() == 10);
        assert("oss_latin9"@[0] == 'o');
        assert("oss_latin9"@[1] == 's');
        assert("phonetic"@.len() == 8);
        assert("phonetic"@[0] == 'p');
        assert("phonetic"@[1] == 'h');
        assert("pl"@.len() == 2);
        assert("pl"@[0] == 'p');
        assert("pl"@[1] == 'l');
        assert("qwerty"@.len() == 6);
        assert("qwerty"@[0] == 'q');
        assert("qwerty"@[1] == 'w');
        assert("right_hand"@.len() == 10);
        assert("right_hand"@[0] == 'r');
        assert("right_hand"@[1] == 'i');
        assert("right_hand_invert"@.len() == 17);
        assert("right_hand_invert"@[0] == 'r');
        assert("right_hand_invert"@[1] == 'i');
        assert("ro"@.len() == 2);
        assert("ro"@[0] == 'r');
        assert("ro"@[1] == 'o');
        assert("ro_nodeadkeys"@.len() == 13);
        assert("ro_nodeadkeys"@[0] == 'r');
        assert("ro_nodeadkeys"@[1] == 'o');
        assert("ru"@.len() == 2);
        assert("ru"@[0] == 'r');
        assert("ru"@[1] == 'u');
        assert("ru-recom"@.len() == 8);
        assert("ru-recom"@[0] == 'r');
        assert("ru-recom"@[1] == 'u');
        assert("ru-translit"@.len() == 11);
        assert("ru-translit"@[0] == 'r');
        assert("ru-translit"@[1] == 'u');
        assert("ruintl_en"@.len() == 9);
        assert("ruintl_en"@[0] == 'r');
        assert("ruintl_en"@[1] == 'u');
        assert("rus"@.len() == 3);
        assert("rus"@[0] == 'r');
        assert("rus"@[1] == 'u');
        assert("se"@.len() == 2);
        assert("se"@[0] == 's');
        assert("se"@[1] == 'e');
        assert("si"@.len() == 2);
        assert("si"@[0] == 's');
        assert("si"@[1] == 'i');
        assert("si2"@.len() == 3);
        assert("si2"@[0] == 's');
        assert("si2"@[1] == 'i');
        assert("stea"@.len() == 4);
        assert("stea"@[0] == 's');
        assert("stea"@[1] == 't');
        assert("tam_TAB"@.len() == 7);
        assert("tam_TAB"@[0] == 't');
        assert("tam_TAB"@[1] == 'a');
        assert("tamilnet_TAB"@.len() == 12);
        assert("tamilnet_TAB"@[0] == 't');
        assert("tamilnet_TAB"@[1] == 'a');
        assert("tamilnet_TSCII"@.len() == 14);
        assert("tamilnet_TSCII"@[0] == 't');
        assert("tamilnet_TSCII"@[1] == 'a');
        assert("tr"@.len() == 2);
        assert("tr"@[0] == 't');
        assert("tr"@[1] == 'r');
        assert("ua"@.len() == 2);
        assert("ua"@[0] == 'u');
        assert("ua"@[1] == 'a');
        assert("ucw"@.len() == 3);
        assert("ucw"@[0] == 'u');
        assert("ucw"@[1] == 'c');
        assert("us"@.len() == 2);
        assert("us"@[0] == 'u');
        assert("us"@[1] == 's');
        assert("us-mac"@.len() == 6);
        assert("us-mac"@[0] == 'u');
        assert("us-mac"@[1] == 's');
        assert("western"@.len() == 7);
        assert("western"@[0] == 'w');
        assert("western"@[1] == 'e');
    }
    if str_eq(locale, "de") {
        if str_eq(layout, "ru") {
            ops.push(QuirkOp::Swap01(21, 44));
            ops.push(QuirkOp::CaseFold('\u{df}', '\u{1e9e}'));
            proof {
                assert(ops@ =~= seq![QuirkOp::Swap01(21, 44), QuirkOp::CaseFold('\u{df}', '\u{1e9e}')]);
            }
        } else if str_eq(layout, "ru-recom") {
            ops.push(QuirkOp::Swap01(21, 44));
            ops.push(QuirkOp::CaseFold('~', '\u{1e9e}'));
            proof {
                assert(ops@ =~= seq![QuirkOp::Swap01(21, 44), QuirkOp::CaseFold('~', '\u{1e9e}')]);
            }
        } else if str_eq(layout, "ru-translit") {
            ops.push(QuirkOp::Swap01(21, 44));
            ops.push(QuirkOp::CaseFold('~', '\u{1e9e}'));
            proof {
                assert(ops@ =~= seq![QuirkOp::Swap01(21, 44), QuirkOp::CaseFold('~', '\u{1e9e}')]);
            }
        } else if str_eq(layout, "basic") {
            ops.push(QuirkOp::CaseFold('\u{df}', '\u{1e9e}'));
            proof {
                assert(ops@ =~= seq![QuirkOp::CaseFold('\u{df}', '\u{1e9e}')]);
            }
        } else if str_eq(layout, "mac") {
            ops.push(QuirkOp::CaseFold('\u{df}', '\u{1e9e}'));
        } else if str_eq(layout, "mac_nodeadkeys") {
            ops.push(QuirkOp::CaseFold('\u{df}', '\u{1e9e}'));
        } else if str_eq(layout, "deadtilde") {
            ops.push(QuirkOp::CaseFold('\u{df}', '\u{1e9e}'));
        } else if str_eq(layout, "deadgraveacute") {
            ops.push(QuirkOp::CaseFold('\u{df}', '\u{1e9e}'));
        } else if str_eq(layout, "deadacute") {
            ops.push(QuirkOp::CaseFold('\u{df}', '\u{1e9e}'));
        } else if str_eq(layout, "ro") {
            ops.push(QuirkOp::CaseFold('\u{df}', '\u{1e9e}'));
        } else if str_eq(layout, "ro_nodeadkeys") {
            ops.push(QuirkOp::CaseFold('\u{df}', '\u{1e9e}'));
        } else if str_eq(layout, "dsb_qwertz") {
            ops.push(QuirkOp::CaseFold('\u{df}', '\u{1e9e}'));
        } else if str_eq(layout, "qwerty") {
            ops.push(QuirkOp::CaseFold('\u{df}', '\u{1e9e}'));
        } else if str_eq(layout, "pl") {
            ops.push(QuirkOp::CaseFold('\u{df}', '\u{1e9e}'));
        } else if str_eq(layout, "tr") {
            ops.push(QuirkOp::CaseFold('\u{df}', '\u{1e9e}'));
        } else if str_eq(layout, "hu") {
            ops.push(QuirkOp::CaseFold('\u{df}', '\u{1e9e}'));
        } else if str_eq(layout, "e1") {
            ops.push(QuirkOp::CaseFold('\u{df}', '\u{1e9e}'));
        } else if str_eq(layout, "e2") {
            ops.push(QuirkOp::CaseFold('\u{df}', '\u{1e9e}'));
        } else if str_eq(layout, "dvorak") {
            ops.push(QuirkOp::CaseFold('\u{df}', '\u{1e9e}'));
        } else if str_eq(layout, "nodeadkeys") {
            ops.push(QuirkOp::CaseFold('\u{df}', '\u{1e9e}'));
        } else if str_eq(layout, "T3") {
            ops.push(QuirkOp::CaseFold('\u{df}', '\u{1e9e}'));
            ops.push(QuirkOp::Put(3, 2, '\u{2b9}'));
            ops.push(QuirkOp::Put(3, 3, '\u{2ba}'));
            ops.push(QuirkOp::Put(3, 4, '\u{2bf}'));
            ops.push(QuirkOp::Put(3, 5, '\u{2be}'));
            ops.push(QuirkOp::Put(3, 6, '\u{2dd}'));
            ops.push(QuirkOp::Put(3, 7, '\u{2c0}'));
            ops.push(QuirkOp::Put(3, 8, '{'));
            ops.push(QuirkOp::Put(3, 9, '}'));
            ops.push(QuirkOp::Put(3, 10, '['));
            ops.push(QuirkOp::Put(3, 11, ']'));
            ops.push(QuirkOp::Put(3, 12, '\u{2bb}'));
            ops.push(QuirkOp::Put(3, 13, '\u{ac}'));
            ops.push(QuirkOp::Put(3, 15, '\t'));
            ops.push(QuirkOp::Put(3, 16, '\u{30d}'));
            ops.push(QuirkOp::Put(3, 27, '@'));
            ops.push(QuirkOp::Put(3, 30, '\u{329}'));
            ops.push(QuirkOp::Put(3, 35, '\u{332}'));
            ops.push(QuirkOp::Put(3, 38, '\u{338}'));
            ops.push(QuirkOp::Put(3, 39, '\u{b0}'));
            ops.push(QuirkOp::Put(3, 40, '\u{2032}'));
            ops.push(QuirkOp::Put(3, 41, '|'));
            ops.push(QuirkOp::Put(3, 43, '\u{2033}'));
            ops.push(QuirkOp::Put(3, 44, '\u{ab}'));
            ops.push(QuirkOp::Put(3, 45, '\u{bb}'));
            ops.push(QuirkOp::Put(3, 46, '\u{2015}'));
            ops.push(QuirkOp::Put(3, 47, '\u{2039}'));
            ops.push(QuirkOp::Put(3, 48, '\u{203a}'));
            ops.push(QuirkOp::Put(3, 49, '\u{2013}'));
            ops.push(QuirkOp::Put(3, 50, '\u{2014}'));
            ops.push(QuirkOp::Put(3, 51, '$'));
            ops.push(QuirkOp::Put(3, 52, '#'));
            ops.push(QuirkOp::Put(3, 53, '\u{2011}'));
            ops.push(QuirkOp::Put(3, 57, '\u{a0}'));
        } else if str_eq(layout, "neo_base") {
            ops.push(QuirkOp::NumLockClear);
            ops.push(QuirkOp::CaseFold('\u{df}', '\u{1e9e}'));
        } else if str_eq(layout, "neo") {
            ops.push(QuirkOp::NumLockClear);
            ops.push(QuirkOp::CaseFold('\u{df}', '\u{1e9e}'));
            proof {
                assert(ops@ =~= seq![QuirkOp::NumLockClear, QuirkOp::CaseFold('\u{df}', '\u{1e9e}')]);
            }
        } else if str_eq(layout, "neo_qwerty_base") {
            ops.push(QuirkOp::NumLockClear);
            ops.push(QuirkOp::CaseFold('\u{df}', '\u{1e9e}'));
        } else if str_eq(layout, "neo_qwerty") {
            ops.push(QuirkOp::NumLockClear);
            ops.push(QuirkOp::CaseFold('\u{df}', '\u{1e9e}'));
        } else if str_eq(layout, "neo_qwertz_base") {
            ops.push(QuirkOp::NumLockClear);
            ops.push(QuirkOp::CaseFold('\u{df}', '\u{1e9e}'));
        } else if str_eq(layout, "neo_qwertz") {
            ops.push(QuirkOp::NumLockClear);
            ops.push(QuirkOp::CaseFold('\u{df}', '\u{1e9e}'));
        } else if str_eq(layout, "bone_base") {
            ops.push(QuirkOp::NumLockClear);
            ops.push(QuirkOp::CaseFold('\u{df}', '\u{1e9e}'));
        } else if str_eq(layout, "bone_eszett_home_base") {
            ops.push(QuirkOp::NumLockClear);
            ops.push(QuirkOp::CaseFold('\u{df}', '\u{1e9e}'));
        } else if str_eq(layout, "bone_eszett_home") {
            ops.push(QuirkOp::NumLockClear);
            ops.push(QuirkOp::CaseFold('\u{df}', '\u{1e9e}'));
        } else if str_eq(layout, "bone") {
            ops.push(QuirkOp::NumLockClear);
            ops.push(QuirkOp::CaseFold('\u{df}', '\u{1e9e}'));
        } else if str_eq(layout, "koy_base") {
            ops.push(QuirkOp::NumLockClear);
            ops.push(QuirkOp::CaseFold('\u{df}', '\u{1e9e}'));
        } else if str_eq(layout, "koy") {
            ops.push(QuirkOp::NumLockClear);
            ops.push(QuirkOp::CaseFold('\u{df}', '\u{1e9e}'));
        } else if str_eq(layout, "adnw_base") {
            ops.push(QuirkOp::NumLockClear);
            ops.push(QuirkOp::CaseFold('\u{df}', '\u{1e9e}'));
        } else if str_eq(layout, "adnw") {
            ops.push(QuirkOp::NumLockClear);
            ops.push(QuirkOp::CaseFold('\u{df}', '\u{1e9e}'));
        }
    } else if str_eq(locale, "at") {
        ops.push(QuirkOp::CaseFold('\u{df}', '\u{1e9e}'));
    } else if str_eq(locale, "it") {
        if str_eq(layout, "lldde") {
            ops.push(QuirkOp::CaseFold('\u{df}', '\u{1e9e}'));
        } else if str_eq(layout, "geo") {
            ops.push(QuirkOp::CapsIsLevel2(16));
            ops.push(QuirkOp::CapsIsLevel2(18));
            ops.push(QuirkOp::CapsIsLevel2(21));
            ops.push(QuirkOp::CapsIsLevel2(22));
            ops.push(QuirkOp::CapsIsLevel2(23));
            ops.push(QuirkOp::CapsIsLevel2(24));
            ops.push(QuirkOp::CapsIsLevel2(25));
            ops.push(QuirkOp::CapsIsLevel2(30));
            ops.push(QuirkOp::CapsIsLevel2(32));
            ops.push(QuirkOp::CapsIsLevel2(33));
            ops.push(QuirkOp::CapsIsLevel2(34));
            ops.push(QuirkOp::CapsIsLevel2(35));
            ops.push(QuirkOp::CapsIsLevel2(37));
            ops.push(QuirkOp::CapsIsLevel2(38));
            ops.push(QuirkOp::CapsIsLevel2(45));
            ops.push(QuirkOp::CapsIsLevel2(47));
            ops.push(QuirkOp::CapsIsLevel2(48));
            ops.push(QuirkOp::CapsIsLevel2(49));
            ops.push(QuirkOp::CapsIsLevel2(50));
        }
    } else if str_eq(locale, "cz") {
        if str_eq(layout, "ucw") {
            ops.push(QuirkOp::CaseFold('\u{df}', '\u{1e9e}'));
        }
    } else if str_eq(locale, "tr") {
        if str_eq(layout, "basic") {
            ops.push(QuirkOp::CaseFold('i', '\u{130}'));
            ops.push(QuirkOp::CaseFold('\u{130}', 'i'));
            ops.push(QuirkOp::CaseFold('I', '\u{131}'));
            proof {
                assert(ops@ =~= seq![QuirkOp::CaseFold('i', '\u{130}'), QuirkOp::CaseFold('\u{130}', 'i'), QuirkOp::CaseFold('I', '\u{131}')]);
            }
        } else if str_eq(layout, "e") {
            ops.push(QuirkOp::CaseFold('i', '\u{130}'));
            ops.push(QuirkOp::CaseFold('\u{130}', 'i'));
            ops.push(QuirkOp::CaseFold('I', '\u{131}'));
        } else if str_eq(layout, "intl") {
            ops.push(QuirkOp::CaseFold('i', '\u{130}'));
            ops.push(QuirkOp::CaseFold('\u{130}', 'i'));
            ops.push(QuirkOp::CaseFold('I', '\u{131}'));
        } else if str_eq(layout, "olpc") {
            ops.push(QuirkOp::CaseFold('i', '\u{130}'));
            ops.push(QuirkOp::CaseFold('\u{130}', 'i'));
            ops.push(QuirkOp::CaseFold('I', '\u{131}'));
        } else if str_eq(layout, "f") {
            ops.push(QuirkOp::CaseFold('i', '\u{130}'));
            ops.push(QuirkOp::CaseFold('\u{130}', 'i'));
            ops.push(QuirkOp::CaseFold('I', '\u{131}'));
        } else if str_eq(layout, "us") {
            ops.push(QuirkOp::CaseFold('\u{131}', '\u{130}'));
            ops.push(QuirkOp::CaseFold('\u{130}', '\u{131}'));
        }
    } else if str_eq(locale, "ua") {
        if str_eq(layout, "crh") {
            ops.push(QuirkOp::CaseFold('i', '\u{130}'));
            ops.push(QuirkOp::CaseFold('\u{130}', 'i'));
            ops.push(QuirkOp::CaseFold('I', '\u{131}'));
        } else if str_eq(layout, "crh_f") {
            ops.push(QuirkOp::CaseFold('i', '\u{130}'));
            ops.push(QuirkOp::CaseFold('\u{130}', 'i'));
            ops.push(QuirkOp::CaseFold('I', '\u{131}'));
        }
    } else if str_eq(locale, "ro") {
        if str_eq(layout, "crh_dobruja") {
            ops.push(QuirkOp::CaseFold('i', '\u{130}'));
            ops.push(QuirkOp::CaseFold('\u{130}', 'i'));
            ops.push(QuirkOp::CaseFold('I', '\u{131}'));
        }
    } else if str_eq(locale, "az") {
        if str_eq(layout, "latin") {
            ops.push(QuirkOp::CapsIsLevel2(23));
            ops.push(QuirkOp::CapsIsLevel2(39));
            proof {
                assert(ops@ =~= seq![QuirkOp::CapsIsLevel2(23), QuirkOp::CapsIsLevel2(39)]);
            }
        }
    } else if str_eq(locale, "gh") {
        if str_eq(layout, "hausa") {
            ops.push(QuirkOp::CapsIsLevel2(39));
        } else if str_eq(layout, "fula") {
            ops.push(QuirkOp::CaseFold('\u{131}', '\u{130}'));
            ops.push(QuirkOp::CaseFold('\u{130}', '\u{131}'));
        }
    } else if str_eq(locale, "ng") {
        if str_eq(layout, "hausa") {
            ops.push(QuirkOp::CaseFold('\u{131}', '\u{130}'));
            ops.push(QuirkOp::CaseFold('\u{130}', '\u{131}'));
        }
    } else if str_eq(locale, "md") {
        if str_eq(layout, "gag") {
            ops.push(QuirkOp::CaseFold('\u{131}', 'I'));
            ops.push(QuirkOp::CaseFold('I', '\u{131}'));
            ops.push(QuirkOp::CaseFold('i', '\u{130}'));
            ops.push(QuirkOp::CaseFold('\u{130}', 'i'));
        }
    } else if str_eq(locale, "bqn") {
        if str_eq(layout, "bqn") {
            ops.push(QuirkOp::CaseFold('\u{1d568}', '\u{1d54e}'));
            ops.push(QuirkOp::CaseFold('\u{1d564}', '\u{1d54a}'));
            ops.push(QuirkOp::CaseFold('\u{1d557}', '\u{1d53d}'));
            ops.push(QuirkOp::CaseFold('\u{1d558}', '\u{1d53e}'));
            ops.push(QuirkOp::CaseFold('\u{1d569}', '\u{1d54f}'));
            ops.push(QuirkOp::CaseFold('\u{1d54e}', '\u{1d568}'));
            ops.push(QuirkOp::CaseFold('\u{1d54a}', '\u{1d564}'));
            ops.push(QuirkOp::CaseFold('\u{1d53d}', '\u{1d557}'));
            ops.push(QuirkOp::CaseFold('\u{1d53e}', '\u{1d558}'));
            ops.push(QuirkOp::CaseFold('\u{1d54f}', '\u{1d569}'));
            ops.push(QuirkOp::Put(1, 22, '\u{2294}'));
            ops.push(QuirkOp::Put(1, 32, '\u{2195}'));
            ops.push(QuirkOp::Put(1, 36, '\u{2218}'));
            ops.push(QuirkOp::Put(1, 46, '\u{2193}'));
            ops.push(QuirkOp::Put(1, 57, '\u{203f}'));
        }
    } else if str_eq(locale, "hu") {
        if str_eq(layout, "oldhunlig") {
            ops.push(QuirkOp::CapsIsLevel2(2));
            ops.push(QuirkOp::CapsIsLevel2(3));
            ops.push(QuirkOp::CapsIsLevel2(4));
            ops.push(QuirkOp::CapsIsLevel2(5));
            ops.push(QuirkOp::CapsIsLevel2(6));
            ops.push(QuirkOp::CapsIsLevel2(7));
            ops.push(QuirkOp::CapsIsLevel2(41));
            ops.push(QuirkOp::CapsIsLevel2(51));
            ops.push(QuirkOp::CapsIsLevel2(52));
            ops.push(QuirkOp::CapsIsLevel2(53));
        } else if str_eq(layout, "oldhun_base") {
            ops.push(QuirkOp::CapsIsLevel2(51));
            ops.push(QuirkOp::CapsIsLevel2(52));
            ops.push(QuirkOp::CapsIsLevel2(53));
        } else if str_eq(layout, "oldhun_origin") {
            ops.push(QuirkOp::CapsIsLevel2(2));
            ops.push(QuirkOp::CapsIsLevel2(3));
            ops.push(QuirkOp::CapsIsLevel2(4));
            ops.push(QuirkOp::CapsIsLevel2(5));
            ops.push(QuirkOp::CapsIsLevel2(6));
            ops.push(QuirkOp::CapsIsLevel2(7));
            ops.push(QuirkOp::CapsIsLevel2(41));
        } else if str_eq(layout, "oldhun_lig") {
            ops.push(QuirkOp::CapsIsLevel2(2));
            ops.push(QuirkOp::CapsIsLevel2(3));
            ops.push(QuirkOp::CapsIsLevel2(4));
            ops.push(QuirkOp::CapsIsLevel2(5));
            ops.push(QuirkOp::CapsIsLevel2(6));
            ops.push(QuirkOp::CapsIsLevel2(7));
            ops.push(QuirkOp::CapsIsLevel2(41));
        }
    } else if str_eq(locale, "kz") {
        if str_eq(layout, "ext") {
            ops.push(QuirkOp::CapsIsLevel2(2));
            ops.push(QuirkOp::CapsIsLevel2(7));
            ops.push(QuirkOp::CapsIsLevel2(8));
            ops.push(QuirkOp::CapsIsLevel2(43));
        } else if str_eq(layout, "latin") {
            ops.push(QuirkOp::CaseFold('v', 'M'));
        }
    } else if str_eq(locale, "fr") {
        if str_eq(layout, "bepo") {
            ops.push(QuirkOp::CapsIsLevel2(2));
            ops.push(QuirkOp::CapsIsLevel2(3));
            ops.push(QuirkOp::CapsIsLevel2(4));
            ops.push(QuirkOp::CapsIsLevel2(5));
            ops.push(QuirkOp::CapsIsLevel2(6));
            ops.push(QuirkOp::CapsIsLevel2(7));
            ops.push(QuirkOp::CapsIsLevel2(8));
            ops.push(QuirkOp::CapsIsLevel2(9));
            ops.push(QuirkOp::CapsIsLevel2(10));
            ops.push(QuirkOp::CapsIsLevel2(11));
        } else if str_eq(layout, "bepo_afnor") {
            ops.push(QuirkOp::CapsIsLevel2(2));
            ops.push(QuirkOp::CapsIsLevel2(3));
            ops.push(QuirkOp::CapsIsLevel2(4));
            ops.push(QuirkOp::CapsIsLevel2(5));
            ops.push(QuirkOp::CapsIsLevel2(6));
            ops.push(QuirkOp::CapsIsLevel2(7));
            ops.push(QuirkOp::CapsIsLevel2(8));
            ops.push(QuirkOp::CapsIsLevel2(9));
            ops.push(QuirkOp::CapsIsLevel2(10));
            ops.push(QuirkOp::CapsIsLevel2(11));
            ops.push(QuirkOp::SetLevelCount(4));
        } else if str_eq(layout, "dvorak") {
            ops.push(QuirkOp::CapsIsLevel2(2));
            ops.push(QuirkOp::CapsIsLevel2(3));
            ops.push(QuirkOp::CapsIsLevel2(4));
            ops.push(QuirkOp::CapsIsLevel2(5));
            ops.push(QuirkOp::CapsIsLevel2(6));
            ops.push(QuirkOp::CapsIsLevel2(7));
            ops.push(QuirkOp::CapsIsLevel2(8));
            ops.push(QuirkOp::CapsIsLevel2(9));
            ops.push(QuirkOp::CapsIsLevel2(10));
            ops.push(QuirkOp::CapsIsLevel2(11));
            ops.push(QuirkOp::CapsIsLevel2(12));
            ops.push(QuirkOp::CapsIsLevel2(13));
            ops.push(QuirkOp::CapsIsLevel2(17));
            ops.push(QuirkOp::CapsIsLevel2(18));
            ops.push(QuirkOp::CapsIsLevel2(41));
            ops.push(QuirkOp::CaseFold('\u{e0}', '/'));
            ops.push(QuirkOp::CaseFold(';', '-'));
            ops.push(QuirkOp::CaseFold('\u{e7}', '\u{e7}'));
        } else if str_eq(layout, "bepo_latin9") {
            ops.push(QuirkOp::CapsIsLevel2(2));
            ops.push(QuirkOp::CapsIsLevel2(3));
            ops.push(QuirkOp::CapsIsLevel2(4));
            ops.push(QuirkOp::CapsIsLevel2(5));
            ops.push(QuirkOp::CapsIsLevel2(6));
            ops.push(QuirkOp::CapsIsLevel2(7));
            ops.push(QuirkOp::CapsIsLevel2(8));
            ops.push(QuirkOp::CapsIsLevel2(9));
            ops.push(QuirkOp::CapsIsLevel2(10));
            ops.push(QuirkOp::CapsIsLevel2(11));
            ops.push(QuirkOp::CopyRange(2, 55, 55, 3));
            ops.push(QuirkOp::CopyRange(2, 98, 98, 3));
        } else if str_eq(layout, "oss_latin9") {
            ops.push(QuirkOp::CopyRange(2, 55, 55, 3));
            ops.push(QuirkOp::CopyRange(2, 98, 98, 3));
        } else if str_eq(layout, "mac") {
            ops.push(QuirkOp::CopyRange(0, 83, 83, 3));
        } else if str_eq(layout, "azerty") {
            // The source table carries this arm with its correction retired:
            // no step applies.
        } else if str_eq(layout, "afnor") {
            ops.push(QuirkOp::CopyRangeIfAbsent(0, 0, 4294967295, 4));
            ops.push(QuirkOp::CopyRangeIfAbsent(1, 0, 4294967295, 5));
            ops.push(QuirkOp::Put(4, 86, '<'));
            ops.push(QuirkOp::Put(5, 55, '\u{22c5}'));
            ops.push(QuirkOp::Put(5, 74, '\u{2212}'));
            ops.push(QuirkOp::Put(5, 86, '>'));
            ops.push(QuirkOp::Put(5, 98, '\u{2215}'));
        } else if str_eq(layout, "geo") {
            ops.push(QuirkOp::CapsIsLevel2(17));
            ops.push(QuirkOp::CapsIsLevel2(18));
            ops.push(QuirkOp::CapsIsLevel2(20));
            ops.push(QuirkOp::CapsIsLevel2(22));
            ops.push(QuirkOp::CapsIsLevel2(24));
            ops.push(QuirkOp::CapsIsLevel2(25));
            ops.push(QuirkOp::CapsIsLevel2(26));
            ops.push(QuirkOp::CapsIsLevel2(27));
            ops.push(QuirkOp::CapsIsLevel2(30));
            ops.push(QuirkOp::CapsIsLevel2(31));
            ops.push(QuirkOp::CapsIsLevel2(32));
            ops.push(QuirkOp::CapsIsLevel2(37));
            ops.push(QuirkOp::CapsIsLevel2(38));
            ops.push(QuirkOp::CapsIsLevel2(39));
            ops.push(QuirkOp::CapsIsLevel2(40));
            ops.push(QuirkOp::CapsIsLevel2(44));
            ops.push(QuirkOp::CapsIsLevel2(48));
            ops.push(QuirkOp::CapsIsLevel2(51));
        }
    } else if str_eq(locale, "be") {
        if str_eq(layout, "oss_latin9") {
            ops.push(QuirkOp::CopyRange(2, 55, 55, 3));
            ops.push(QuirkOp::CopyRange(2, 98, 98, 3));
        }
    } else if str_eq(locale, "us") {
        if str_eq(layout, "chr") {
            ops.push(QuirkOp::CapsIsLevel2(1));
            ops.push(QuirkOp::CapsIsLevel2(2));
            ops.push(QuirkOp::CapsIsLevel2(3));
            ops.push(QuirkOp::CapsIsLevel2(4));
            ops.push(QuirkOp::CapsIsLevel2(5));
            ops.push(QuirkOp::CapsIsLevel2(6));
            ops.push(QuirkOp::CapsIsLevel2(7));
            ops.push(QuirkOp::CapsIsLevel2(8));
            ops.push(QuirkOp::CapsIsLevel2(9));
            ops.push(QuirkOp::CapsIsLevel2(10));
            ops.push(QuirkOp::CapsIsLevel2(11));
            ops.push(QuirkOp::CapsIsLevel2(12));
            ops.push(QuirkOp::CapsIsLevel2(13));
            ops.push(QuirkOp::CapsIsLevel2(16));
            ops.push(QuirkOp::CapsIsLevel2(17));
            ops.push(QuirkOp::CapsIsLevel2(18));
            ops.push(QuirkOp::CapsIsLevel2(19));
            ops.push(QuirkOp::CapsIsLevel2(20));
            ops.push(QuirkOp::CapsIsLevel2(21));
            ops.push(QuirkOp::CapsIsLevel2(22));
            ops.push(QuirkOp::CapsIsLevel2(23));
            ops.push(QuirkOp::CapsIsLevel2(24));
            ops.push(QuirkOp::CapsIsLevel2(25));
            ops.push(QuirkOp::CapsIsLevel2(26));
            ops.push(QuirkOp::CapsIsLevel2(27));
            ops.push(QuirkOp::CapsIsLevel2(30));
            ops.push(QuirkOp::CapsIsLevel2(31));
            ops.push(QuirkOp::CapsIsLevel2(32));
            ops.push(QuirkOp::CapsIsLevel2(33));
            ops.push(QuirkOp::CapsIsLevel2(34));
            ops.push(QuirkOp::CapsIsLevel2(35));
            ops.push(QuirkOp::CapsIsLevel2(36));
            ops.push(QuirkOp::CapsIsLevel2(37));
            ops.push(QuirkOp::CapsIsLevel2(38));
            ops.push(QuirkOp::CapsIsLevel2(39));
            ops.push(QuirkOp::CapsIsLevel2(40));
            ops.push(QuirkOp::CapsIsLevel2(41));
            ops.push(QuirkOp::CapsIsLevel2(43));
            ops.push(QuirkOp::CapsIsLevel2(44));
            ops.push(QuirkOp::CapsIsLevel2(45));
            ops.push(QuirkOp::CapsIsLevel2(46));
            ops.push(QuirkOp::CapsIsLevel2(47));
            ops.push(QuirkOp::CapsIsLevel2(48));
            ops.push(QuirkOp::CapsIsLevel2(49));
            ops.push(QuirkOp::CapsIsLevel2(50));
            ops.push(QuirkOp::CapsIsLevel2(51));
            ops.push(QuirkOp::CapsIsLevel2(52));
            ops.push(QuirkOp::CapsIsLevel2(53));
        } else if str_eq(layout, "mac") {
            ops.push(QuirkOp::CapsLevel2Disable);
            proof {
                assert(ops@ =~= seq![QuirkOp::CapsLevel2Disable]);
            }
        } else if str_eq(layout, "dvp") {
            ops.push(QuirkOp::CapsIsLevel2(3));
            ops.push(QuirkOp::CapsIsLevel2(4));
            ops.push(QuirkOp::CapsIsLevel2(5));
            ops.push(QuirkOp::CapsIsLevel2(6));
            ops.push(QuirkOp::CapsIsLevel2(7));
            ops.push(QuirkOp::CapsIsLevel2(8));
            ops.push(QuirkOp::CapsIsLevel2(9));
            ops.push(QuirkOp::CapsIsLevel2(10));
            ops.push(QuirkOp::CapsIsLevel2(11));
            ops.push(QuirkOp::CapsIsLevel2(12));
            ops.push(QuirkOp::CapsIsLevel2(40));
        } else if str_eq(layout, "3l") {
            ops.push(QuirkOp::Put(1, 2, '!'));
            ops.push(QuirkOp::Put(1, 3, '@'));
            ops.push(QuirkOp::Put(1, 4, '#'));
            ops.push(QuirkOp::Put(1, 5, '$'));
            ops.push(QuirkOp::Put(1, 6, '%'));
            ops.push(QuirkOp::Put(1, 7, '^'));
            ops.push(QuirkOp::Put(1, 8, '&'));
            ops.push(QuirkOp::Put(1, 9, '*'));
            ops.push(QuirkOp::Put(1, 10, '('));
            ops.push(QuirkOp::Put(1, 11, ')'));
            ops.push(QuirkOp::Put(3, 2, '!'));
            ops.push(QuirkOp::Put(3, 3, '@'));
            ops.push(QuirkOp::Put(3, 4, '#'));
            ops.push(QuirkOp::Put(3, 5, '$'));
            ops.push(QuirkOp::Put(3, 6, '%'));
            ops.push(QuirkOp::Put(3, 7, '^'));
            ops.push(QuirkOp::Put(3, 8, '&'));
            ops.push(QuirkOp::Put(3, 9, '*'));
            ops.push(QuirkOp::Put(3, 10, '('));
            ops.push(QuirkOp::Put(3, 11, ')'));
            ops.push(QuirkOp::CopyRange(0, 15, 15, 1));
            ops.push(QuirkOp::CopyRange(0, 15, 15, 2));
            ops.push(QuirkOp::CopyRange(0, 15, 15, 3));
            ops.push(QuirkOp::CopyRange(0, 15, 15, 4));
            ops.push(QuirkOp::CopyRange(0, 58, 58, 1));
            ops.push(QuirkOp::CopyRange(0, 58, 58, 3));
            ops.push(QuirkOp::CopyRange(0, 86, 86, 4));
            ops.push(QuirkOp::CopyRange(1, 86, 86, 5));
            ops.push(QuirkOp::CopyRange(2, 86, 86, 6));
        } else if str_eq(layout, "3l-cros") {
            ops.push(QuirkOp::Put(1, 2, '!'));
            ops.push(QuirkOp::Put(1, 3, '@'));
            ops.push(QuirkOp::Put(1, 4, '#'));
            ops.push(QuirkOp::Put(1, 5, '$'));
            ops.push(QuirkOp::Put(1, 6, '%'));
            ops.push(QuirkOp::Put(1, 7, '^'));
            ops.push(QuirkOp::Put(1, 8, '&'));
            ops.push(QuirkOp::Put(1, 9, '*'));
            ops.push(QuirkOp::Put(1, 10, '('));
            ops.push(QuirkOp::Put(1, 11, ')'));
            ops.push(QuirkOp::Put(3, 2, '!'));
            ops.push(QuirkOp::Put(3, 3, '@'));
            ops.push(QuirkOp::Put(3, 4, '#'));
            ops.push(QuirkOp::Put(3, 5, '$'));
            ops.push(QuirkOp::Put(3, 6, '%'));
            ops.push(QuirkOp::Put(3, 7, '^'));
            ops.push(QuirkOp::Put(3, 8, '&'));
            ops.push(QuirkOp::Put(3, 9, '*'));
            ops.push(QuirkOp::Put(3, 10, '('));
            ops.push(QuirkOp::Put(3, 11, ')'));
            ops.push(QuirkOp::CopyRange(0, 15, 15, 1));
            ops.push(QuirkOp::CopyRange(0, 15, 15, 2));
            ops.push(QuirkOp::CopyRange(0, 15, 15, 3));
            ops.push(QuirkOp::CopyRange(0, 15, 15, 4));
            ops.push(QuirkOp::CopyRange(0, 58, 58, 1));
            ops.push(QuirkOp::CopyRange(0, 58, 58, 3));
            ops.push(QuirkOp::CopyRange(0, 86, 86, 4));
            ops.push(QuirkOp::CopyRange(1, 86, 86, 5));
            ops.push(QuirkOp::CopyRange(2, 86, 86, 6));
            ops.push(QuirkOp::CopyRange(0, 125, 125, 1));
            ops.push(QuirkOp::CopyRange(0, 125, 125, 3));
        } else if str_eq(layout, "3l-emacs") {
            ops.push(QuirkOp::Put(1, 2, '!'));
            ops.push(QuirkOp::Put(1, 3, '@'));
            ops.push(QuirkOp::Put(1, 4, '#'));
            ops.push(QuirkOp::Put(1, 5, '$'));
            ops.push(QuirkOp::Put(1, 6, '%'));
            ops.push(QuirkOp::Put(1, 7, '^'));
            ops.push(QuirkOp::Put(1, 8, '&'));
            ops.push(QuirkOp::Put(1, 9, '*'));
            ops.push(QuirkOp::Put(1, 10, '('));
            ops.push(QuirkOp::Put(1, 11, ')'));
            ops.push(QuirkOp::Put(3, 2, '!'));
            ops.push(QuirkOp::Put(3, 3, '@'));
            ops.push(QuirkOp::Put(3, 4, '#'));
            ops.push(QuirkOp::Put(3, 5, '$'));
            ops.push(QuirkOp::Put(3, 6, '%'));
            ops.push(QuirkOp::Put(3, 7, '^'));
            ops.push(QuirkOp::Put(3, 8, '&'));
            ops.push(QuirkOp::Put(3, 9, '*'));
            ops.push(QuirkOp::Put(3, 10, '('));
            ops.push(QuirkOp::Put(3, 11, ')'));
            ops.push(QuirkOp::CopyRange(0, 15, 15, 1));
            ops.push(QuirkOp::CopyRange(0, 15, 15, 3));
            ops.push(QuirkOp::CopyRange(0, 86, 86, 4));
            ops.push(QuirkOp::CopyRange(1, 86, 86, 5));
            ops.push(QuirkOp::CopyRange(2, 86, 86, 6));
        }
    } else if str_eq(locale, "pl") {
        if str_eq(layout, "dvp") {
            ops.push(QuirkOp::CapsIsLevel2(3));
            ops.push(QuirkOp::CapsIsLevel2(4));
            ops.push(QuirkOp::CapsIsLevel2(5));
            ops.push(QuirkOp::CapsIsLevel2(6));
            ops.push(QuirkOp::CapsIsLevel2(7));
            ops.push(QuirkOp::CapsIsLevel2(8));
            ops.push(QuirkOp::CapsIsLevel2(9));
            ops.push(QuirkOp::CapsIsLevel2(10));
            ops.push(QuirkOp::CapsIsLevel2(11));
            ops.push(QuirkOp::CapsIsLevel2(12));
            ops.push(QuirkOp::CapsIsLevel2(40));
        } else if str_eq(layout, "glagolica") {
            ops.push(QuirkOp::CapsLevel2Disable);
            ops.push(QuirkOp::CopyRange(0, 40, 40, 1));
        }
    } else if str_eq(locale, "in") {
        if str_eq(layout, "tamilnet_TAB") {
            ops.push(QuirkOp::CapsLockDisable);
            ops.push(QuirkOp::CapsLevel2Disable);
        } else if str_eq(layout, "tamilnet_TSCII") {
            ops.push(QuirkOp::CaseFold('\u{fe}', '\u{fe}'));
            ops.push(QuirkOp::CapsLevel2Disable);
        } else if str_eq(layout, "iipa") {
            ops.push(QuirkOp::CaseFold('b', 'Y'));
        }
    } else if str_eq(locale, "lk") {
        if str_eq(layout, "tam_TAB") {
            ops.push(QuirkOp::CapsLockDisable);
            ops.push(QuirkOp::CapsLevel2Disable);
        }
    } else if str_eq(locale, "ge") {
        if str_eq(layout, "qwerty") {
            ops.push(QuirkOp::CapsIsLevel2(16));
            ops.push(QuirkOp::CapsIsLevel2(18));
            ops.push(QuirkOp::CapsIsLevel2(21));
            ops.push(QuirkOp::CapsIsLevel2(22));
            ops.push(QuirkOp::CapsIsLevel2(23));
            ops.push(QuirkOp::CapsIsLevel2(24));
            ops.push(QuirkOp::CapsIsLevel2(25));
            ops.push(QuirkOp::CapsIsLevel2(30));
            ops.push(QuirkOp::CapsIsLevel2(32));
            ops.push(QuirkOp::CapsIsLevel2(33));
            ops.push(QuirkOp::CapsIsLevel2(34));
            ops.push(QuirkOp::CapsIsLevel2(35));
            ops.push(QuirkOp::CapsIsLevel2(37));
            ops.push(QuirkOp::CapsIsLevel2(38));
            ops.push(QuirkOp::CapsIsLevel2(45));
            ops.push(QuirkOp::CapsIsLevel2(47));
            ops.push(QuirkOp::CapsIsLevel2(48));
            ops.push(QuirkOp::CapsIsLevel2(49));
            ops.push(QuirkOp::CapsIsLevel2(50));
        } else if str_eq(layout, "basic") {
            ops.push(QuirkOp::CapsIsLevel2(16));
            ops.push(QuirkOp::CapsIsLevel2(18));
            ops.push(QuirkOp::CapsIsLevel2(21));
            ops.push(QuirkOp::CapsIsLevel2(22));
            ops.push(QuirkOp::CapsIsLevel2(23));
            ops.push(QuirkOp::CapsIsLevel2(24));
            ops.push(QuirkOp::CapsIsLevel2(25));
            ops.push(QuirkOp::CapsIsLevel2(30));
            ops.push(QuirkOp::CapsIsLevel2(32));
            ops.push(QuirkOp::CapsIsLevel2(33));
            ops.push(QuirkOp::CapsIsLevel2(34));
            ops.push(QuirkOp::CapsIsLevel2(35));
            ops.push(QuirkOp::CapsIsLevel2(37));
            ops.push(QuirkOp::CapsIsLevel2(38));
            ops.push(QuirkOp::CapsIsLevel2(45));
            ops.push(QuirkOp::CapsIsLevel2(47));
            ops.push(QuirkOp::CapsIsLevel2(48));
            ops.push(QuirkOp::CapsIsLevel2(49));
            ops.push(QuirkOp::CapsIsLevel2(50));
        } else if str_eq(layout, "ergonomic") {
            ops.push(QuirkOp::CapsIsLevel2(16));
            ops.push(QuirkOp::CapsIsLevel2(18));
            ops.push(QuirkOp::CapsIsLevel2(21));
            ops.push(QuirkOp::CapsIsLevel2(22));
            ops.push(QuirkOp::CapsIsLevel2(23));
            ops.push(QuirkOp::CapsIsLevel2(24));
            ops.push(QuirkOp::CapsIsLevel2(25));
            ops.push(QuirkOp::CapsIsLevel2(30));
            ops.push(QuirkOp::CapsIsLevel2(32));
            ops.push(QuirkOp::CapsIsLevel2(33));
            ops.push(QuirkOp::CapsIsLevel2(34));
            ops.push(QuirkOp::CapsIsLevel2(35));
            ops.push(QuirkOp::CapsIsLevel2(37));
            ops.push(QuirkOp::CapsIsLevel2(38));
            ops.push(QuirkOp::CapsIsLevel2(45));
            ops.push(QuirkOp::CapsIsLevel2(47));
            ops.push(QuirkOp::CapsIsLevel2(48));
            ops.push(QuirkOp::CapsIsLevel2(49));
            ops.push(QuirkOp::CapsIsLevel2(50));
        } else if str_eq(layout, "mess") {
            ops.push(QuirkOp::CapsIsLevel2(16));
            ops.push(QuirkOp::CapsIsLevel2(17));
            ops.push(QuirkOp::CapsIsLevel2(18));
            ops.push(QuirkOp::CapsIsLevel2(19));
            ops.push(QuirkOp::CapsIsLevel2(20));
            ops.push(QuirkOp::CapsIsLevel2(21));
            ops.push(QuirkOp::CapsIsLevel2(22));
            ops.push(QuirkOp::CapsIsLevel2(23));
            ops.push(QuirkOp::CapsIsLevel2(24));
            ops.push(QuirkOp::CapsIsLevel2(25));
            ops.push(QuirkOp::CapsIsLevel2(30));
            ops.push(QuirkOp::CapsIsLevel2(31));
            ops.push(QuirkOp::CapsIsLevel2(32));
            ops.push(QuirkOp::CapsIsLevel2(33));
            ops.push(QuirkOp::CapsIsLevel2(34));
            ops.push(QuirkOp::CapsIsLevel2(35));
            ops.push(QuirkOp::CapsIsLevel2(36));
            ops.push(QuirkOp::CapsIsLevel2(37));
            ops.push(QuirkOp::CapsIsLevel2(38));
            ops.push(QuirkOp::CapsIsLevel2(44));
            ops.push(QuirkOp::CapsIsLevel2(45));
            ops.push(QuirkOp::CapsIsLevel2(46));
            ops.push(QuirkOp::CapsIsLevel2(47));
            ops.push(QuirkOp::CapsIsLevel2(48));
            ops.push(QuirkOp::CapsIsLevel2(49));
            ops.push(QuirkOp::CapsIsLevel2(50));
        }
    } else if str_eq(locale, "gr") {
        ops.push(QuirkOp::CapsIsLevel2(17));
        proof {
            assert(ops@ =~= seq![QuirkOp::CapsIsLevel2(17)]);
        }
    } else if str_eq(locale, "cd") {
        ops.push(QuirkOp::CapsLevel2Disable);
    } else if str_eq(locale, "ml") {
        if str_eq(layout, "us-mac") {
            ops.push(QuirkOp::CapsLevel2Disable);
        }
    } else if str_eq(locale, "apl") {
        if str_eq(layout, "apl2") {
            ops.push(QuirkOp::CopyRange(0, 16, 25, 1));
            ops.push(QuirkOp::CopyRange(0, 30, 38, 1));
            ops.push(QuirkOp::CopyRange(0, 44, 50, 1));
        } else if str_eq(layout, "aplplusII") {
            ops.push(QuirkOp::CopyRange(0, 16, 25, 1));
            ops.push(QuirkOp::CopyRange(0, 30, 38, 1));
            ops.push(QuirkOp::CopyRange(0, 44, 50, 1));
        } else if str_eq(layout, "common") {
            ops.push(QuirkOp::PushLevel);
            ops.push(QuirkOp::PutLast(43, '|'));
            ops.push(QuirkOp::PutLast(71, '7'));
            ops.push(QuirkOp::PutLast(72, '8'));
            ops.push(QuirkOp::PutLast(73, '9'));
            ops.push(QuirkOp::PutLast(75, '4'));
            ops.push(QuirkOp::PutLast(76, '5'));
            ops.push(QuirkOp::PutLast(77, '6'));
            ops.push(QuirkOp::PutLast(78, '+'));
            ops.push(QuirkOp::PutLast(79, '1'));
            ops.push(QuirkOp::PutLast(80, '2'));
            ops.push(QuirkOp::PutLast(81, '3'));
            ops.push(QuirkOp::PutLast(82, '0'));
            ops.push(QuirkOp::PutLast(83, '.'));
            ops.push(QuirkOp::PutLast(86, '>'));
        } else if str_eq(layout, "dyalog_box") {
            ops.push(QuirkOp::PushLevel);
            ops.push(QuirkOp::PutLast(43, '|'));
            ops.push(QuirkOp::PutLast(71, '7'));
            ops.push(QuirkOp::PutLast(72, '8'));
            ops.push(QuirkOp::PutLast(73, '9'));
            ops.push(QuirkOp::PutLast(75, '4'));
            ops.push(QuirkOp::PutLast(76, '5'));
            ops.push(QuirkOp::PutLast(77, '6'));
            ops.push(QuirkOp::PutLast(78, '+'));
            ops.push(QuirkOp::PutLast(79, '1'));
            ops.push(QuirkOp::PutLast(80, '2'));
            ops.push(QuirkOp::PutLast(81, '3'));
            ops.push(QuirkOp::PutLast(82, '0'));
            ops.push(QuirkOp::PutLast(83, '.'));
            ops.push(QuirkOp::PutLast(86, '>'));
        }
    } else if str_eq(locale, "ie") {
        if str_eq(layout, "ogam") {
            ops.push(QuirkOp::Put(1, 43, '\u{1680}'));
        } else if str_eq(layout, "ogam_is434") {
            ops.push(QuirkOp::CopyRangeIfAbsent(2, 0, 4294967295, 3));
            ops.push(QuirkOp::CopyRange(0, 2, 2, 2));
            ops.push(QuirkOp::CopyRange(1, 2, 2, 3));
            ops.push(QuirkOp::CopyRange(0, 3, 3, 2));
            ops.push(QuirkOp::CopyRange(1, 3, 3, 3));
            ops.push(QuirkOp::CopyRange(0, 4, 4, 2));
            ops.push(QuirkOp::CopyRange(1, 4, 4, 3));
            ops.push(QuirkOp::CopyRange(0, 6, 6, 2));
            ops.push(QuirkOp::CopyRange(1, 6, 6, 3));
            ops.push(QuirkOp::CopyRange(0, 7, 7, 2));
            ops.push(QuirkOp::CopyRange(1, 7, 7, 3));
            ops.push(QuirkOp::CopyRange(0, 9, 9, 2));
            ops.push(QuirkOp::CopyRange(1, 9, 9, 3));
            ops.push(QuirkOp::CopyRange(0, 10, 10, 2));
            ops.push(QuirkOp::CopyRange(1, 10, 10, 3));
            ops.push(QuirkOp::CopyRange(0, 11, 11, 2));
            ops.push(QuirkOp::CopyRange(1, 11, 11, 3));
            ops.push(QuirkOp::CopyRange(0, 12, 12, 2));
            ops.push(QuirkOp::CopyRange(1, 12, 12, 3));
            ops.push(QuirkOp::CopyRange(0, 13, 13, 2));
            ops.push(QuirkOp::CopyRange(1, 13, 13, 3));
        }
    } else if str_eq(locale, "si") {
        ops.push(QuirkOp::CopyRange(0, 41, 41, 2));
        ops.push(QuirkOp::CopyRange(1, 41, 41, 3));
    } else if str_eq(locale, "se") {
        if str_eq(layout, "rus") {
            ops.push(QuirkOp::CopyRange(0, 13, 13, 2));
            ops.push(QuirkOp::CopyRange(1, 13, 13, 3));
            ops.push(QuirkOp::CopyRange(0, 16, 27, 2));
            ops.push(QuirkOp::CopyRange(1, 16, 27, 3));
            ops.push(QuirkOp::CopyRange(0, 30, 41, 2));
            ops.push(QuirkOp::CopyRange(1, 30, 41, 3));
            ops.push(QuirkOp::CopyRange(0, 43, 50, 2));
            ops.push(QuirkOp::CopyRange(1, 43, 50, 3));
            ops.push(QuirkOp::CopyRange(0, 86, 86, 2));
            ops.push(QuirkOp::CopyRange(1, 86, 86, 3));
        }
    } else if str_eq(locale, "il") {
        if str_eq(layout, "si2") {
            ops.push(QuirkOp::CapsIsLevel2(16));
            ops.push(QuirkOp::CapsIsLevel2(17));
            ops.push(QuirkOp::CapsIsLevel2(18));
            ops.push(QuirkOp::CapsIsLevel2(19));
            ops.push(QuirkOp::CapsIsLevel2(20));
            ops.push(QuirkOp::CapsIsLevel2(21));
            ops.push(QuirkOp::CapsIsLevel2(22));
            ops.push(QuirkOp::CapsIsLevel2(23));
            ops.push(QuirkOp::CapsIsLevel2(24));
            ops.push(QuirkOp::CapsIsLevel2(25));
            ops.push(QuirkOp::CapsIsLevel2(30));
            ops.push(QuirkOp::CapsIsLevel2(31));
            ops.push(QuirkOp::CapsIsLevel2(32));
            ops.push(QuirkOp::CapsIsLevel2(33));
            ops.push(QuirkOp::CapsIsLevel2(34));
            ops.push(QuirkOp::CapsIsLevel2(35));
            ops.push(QuirkOp::CapsIsLevel2(36));
            ops.push(QuirkOp::CapsIsLevel2(37));
            ops.push(QuirkOp::CapsIsLevel2(38));
            ops.push(QuirkOp::CapsIsLevel2(39));
            ops.push(QuirkOp::CapsIsLevel2(44));
            ops.push(QuirkOp::CapsIsLevel2(45));
            ops.push(QuirkOp::CapsIsLevel2(46));
            ops.push(QuirkOp::CapsIsLevel2(47));
            ops.push(QuirkOp::CapsIsLevel2(48));
            ops.push(QuirkOp::CapsIsLevel2(49));
            ops.push(QuirkOp::CapsIsLevel2(50));
            ops.push(QuirkOp::CapsIsLevel2(51));
            ops.push(QuirkOp::CapsIsLevel2(52));
        } else if str_eq(layout, "basic") {
            ops.push(QuirkOp::CapsIsLevel2(16));
            ops.push(QuirkOp::CapsIsLevel2(17));
            ops.push(QuirkOp::CapsIsLevel2(18));
            ops.push(QuirkOp::CapsIsLevel2(19));
            ops.push(QuirkOp::CapsIsLevel2(20));
            ops.push(QuirkOp::CapsIsLevel2(21));
            ops.push(QuirkOp::CapsIsLevel2(22));
            ops.push(QuirkOp::CapsIsLevel2(23));
            ops.push(QuirkOp::CapsIsLevel2(24));
            ops.push(QuirkOp::CapsIsLevel2(25));
            ops.push(QuirkOp::CapsIsLevel2(30));
            ops.push(QuirkOp::CapsIsLevel2(31));
            ops.push(QuirkOp::CapsIsLevel2(32));
            ops.push(QuirkOp::CapsIsLevel2(33));
            ops.push(QuirkOp::CapsIsLevel2(34));
            ops.push(QuirkOp::CapsIsLevel2(35));
            ops.push(QuirkOp::CapsIsLevel2(36));
            ops.push(QuirkOp::CapsIsLevel2(37));
            ops.push(QuirkOp::CapsIsLevel2(38));
            ops.push(QuirkOp::CapsIsLevel2(39));
            ops.push(QuirkOp::CapsIsLevel2(44));
            ops.push(QuirkOp::CapsIsLevel2(45));
            ops.push(QuirkOp::CapsIsLevel2(46));
            ops.push(QuirkOp::CapsIsLevel2(47));
            ops.push(QuirkOp::CapsIsLevel2(48));
            ops.push(QuirkOp::CapsIsLevel2(49));
            ops.push(QuirkOp::CapsIsLevel2(50));
            ops.push(QuirkOp::CapsIsLevel2(51));
            ops.push(QuirkOp::CapsIsLevel2(52));
        } else if str_eq(layout, "phonetic") {
            ops.push(QuirkOp::CapsIsLevel2(20));
            ops.push(QuirkOp::CapsIsLevel2(25));
            ops.push(QuirkOp::CapsIsLevel2(33));
            ops.push(QuirkOp::CapsIsLevel2(37));
            ops.push(QuirkOp::CapsIsLevel2(39));
            ops.push(QuirkOp::CapsIsLevel2(46));
            ops.push(QuirkOp::CapsIsLevel2(49));
            ops.push(QuirkOp::CapsIsLevel2(50));
            ops.push(QuirkOp::CapsIsLevel2(51));
            ops.push(QuirkOp::CapsIsLevel2(52));
        } else if str_eq(layout, "biblical") {
            ops.push(QuirkOp::CapsIsLevel2(2));
            ops.push(QuirkOp::CapsIsLevel2(3));
            ops.push(QuirkOp::CapsIsLevel2(4));
            ops.push(QuirkOp::CapsIsLevel2(5));
            ops.push(QuirkOp::CapsIsLevel2(6));
            ops.push(QuirkOp::CapsIsLevel2(7));
            ops.push(QuirkOp::CapsIsLevel2(8));
            ops.push(QuirkOp::CapsIsLevel2(9));
            ops.push(QuirkOp::CapsIsLevel2(10));
            ops.push(QuirkOp::CapsIsLevel2(11));
            ops.push(QuirkOp::CapsIsLevel2(12));
            ops.push(QuirkOp::CapsIsLevel2(13));
            ops.push(QuirkOp::CapsIsLevel2(16));
            ops.push(QuirkOp::CapsIsLevel2(17));
            ops.push(QuirkOp::CapsIsLevel2(18));
            ops.push(QuirkOp::CapsIsLevel2(19));
            ops.push(QuirkOp::CapsIsLevel2(20));
            ops.push(QuirkOp::CapsIsLevel2(21));
            ops.push(QuirkOp::CapsIsLevel2(22));
            ops.push(QuirkOp::CapsIsLevel2(23));
            ops.push(QuirkOp::CapsIsLevel2(24));
            ops.push(QuirkOp::CapsIsLevel2(25));
            ops.push(QuirkOp::CapsIsLevel2(26));
            ops.push(QuirkOp::CapsIsLevel2(27));
            ops.push(QuirkOp::CapsIsLevel2(30));
            ops.push(QuirkOp::CapsIsLevel2(31));
            ops.push(QuirkOp::CapsIsLevel2(32));
            ops.push(QuirkOp::CapsIsLevel2(33));
            ops.push(QuirkOp::CapsIsLevel2(34));
            ops.push(QuirkOp::CapsIsLevel2(35));
            ops.push(QuirkOp::CapsIsLevel2(36));
            ops.push(QuirkOp::CapsIsLevel2(37));
            ops.push(QuirkOp::CapsIsLevel2(38));
            ops.push(QuirkOp::CapsIsLevel2(39));
            ops.push(QuirkOp::CapsIsLevel2(40));
            ops.push(QuirkOp::CapsIsLevel2(41));
            ops.push(QuirkOp::CapsIsLevel2(43));
            ops.push(QuirkOp::CapsIsLevel2(44));
            ops.push(QuirkOp::CapsIsLevel2(45));
            ops.push(QuirkOp::CapsIsLevel2(46));
            ops.push(QuirkOp::CapsIsLevel2(47));
            ops.push(QuirkOp::CapsIsLevel2(48));
            ops.push(QuirkOp::CapsIsLevel2(49));
            ops.push(QuirkOp::CapsIsLevel2(50));
            ops.push(QuirkOp::CapsIsLevel2(51));
            ops.push(QuirkOp::CapsIsLevel2(52));
            ops.push(QuirkOp::CapsIsLevel2(53));
        } else if str_eq(layout, "biblicalSIL") {
            ops.push(QuirkOp::CapsIsLevel2(2));
            ops.push(QuirkOp::CapsIsLevel2(3));
            ops.push(QuirkOp::CapsIsLevel2(4));
            ops.push(QuirkOp::CapsIsLevel2(5));
            ops.push(QuirkOp::CapsIsLevel2(6));
            ops.push(QuirkOp::CapsIsLevel2(8));
            ops.push(QuirkOp::CapsIsLevel2(9));
            ops.push(QuirkOp::CapsIsLevel2(10));
            ops.push(QuirkOp::CapsIsLevel2(11));
            ops.push(QuirkOp::CapsIsLevel2(12));
            ops.push(QuirkOp::CapsIsLevel2(16));
            ops.push(QuirkOp::CapsIsLevel2(18));
            ops.push(QuirkOp::CapsIsLevel2(21));
            ops.push(QuirkOp::CapsIsLevel2(24));
            ops.push(QuirkOp::CapsIsLevel2(25));
            ops.push(QuirkOp::CapsIsLevel2(26));
            ops.push(QuirkOp::CapsIsLevel2(27));
            ops.push(QuirkOp::CapsIsLevel2(30));
            ops.push(QuirkOp::CapsIsLevel2(31));
            ops.push(QuirkOp::CapsIsLevel2(33));
            ops.push(QuirkOp::CapsIsLevel2(36));
            ops.push(QuirkOp::CapsIsLevel2(37));
            ops.push(QuirkOp::CapsIsLevel2(39));
            ops.push(QuirkOp::CapsIsLevel2(40));
            ops.push(QuirkOp::CapsIsLevel2(41));
            ops.push(QuirkOp::CapsIsLevel2(46));
            ops.push(QuirkOp::CapsIsLevel2(49));
            ops.push(QuirkOp::CapsIsLevel2(50));
            ops.push(QuirkOp::CapsIsLevel2(51));
            ops.push(QuirkOp::CapsIsLevel2(52));
            ops.push(QuirkOp::CapsIsLevel2(53));
        }
    } else if str_eq(locale, "brai") {
        if str_eq(layout, "home_row") {
            ops.push(QuirkOp::PushLevel);
            ops.push(QuirkOp::PutLast(43, '|'));
            ops.push(QuirkOp::PutLast(71, '7'));
            ops.push(QuirkOp::PutLast(72, '8'));
            ops.push(QuirkOp::PutLast(73, '9'));
            ops.push(QuirkOp::PutLast(75, '4'));
            ops.push(QuirkOp::PutLast(76, '5'));
            ops.push(QuirkOp::PutLast(77, '6'));
            ops.push(QuirkOp::PutLast(78, '+'));
            ops.push(QuirkOp::PutLast(79, '1'));
            ops.push(QuirkOp::PutLast(80, '2'));
            ops.push(QuirkOp::PutLast(81, '3'));
            ops.push(QuirkOp::PutLast(82, '0'));
            ops.push(QuirkOp::PutLast(83, '.'));
            ops.push(QuirkOp::PutLast(86, '>'));
        } else if str_eq(layout, "right_hand") {
            ops.push(QuirkOp::PushLevel);
            ops.push(QuirkOp::PutLast(43, '|'));
            ops.push(QuirkOp::PutLast(71, '7'));
            ops.push(QuirkOp::PutLast(72, '8'));
            ops.push(QuirkOp::PutLast(73, '9'));
            ops.push(QuirkOp::PutLast(75, '4'));
            ops.push(QuirkOp::PutLast(76, '5'));
            ops.push(QuirkOp::PutLast(77, '6'));
            ops.push(QuirkOp::PutLast(78, '+'));
            ops.push(QuirkOp::PutLast(79, '1'));
            ops.push(QuirkOp::PutLast(80, '2'));
            ops.push(QuirkOp::PutLast(81, '3'));
            ops.push(QuirkOp::PutLast(82, '0'));
            ops.push(QuirkOp::PutLast(83, '.'));
            ops.push(QuirkOp::PutLast(86, '>'));
        } else if str_eq(layout, "keypad") {
            ops.push(QuirkOp::PushLevel);
            ops.push(QuirkOp::PutLast(43, '|'));
            ops.push(QuirkOp::PutLast(71, '7'));
            ops.push(QuirkOp::PutLast(72, '8'));
            ops.push(QuirkOp::PutLast(73, '9'));
            ops.push(QuirkOp::PutLast(75, '4'));
            ops.push(QuirkOp::PutLast(76, '5'));
            ops.push(QuirkOp::PutLast(77, '6'));
            ops.push(QuirkOp::PutLast(78, '+'));
            ops.push(QuirkOp::PutLast(79, '1'));
            ops.push(QuirkOp::PutLast(80, '2'));
            ops.push(QuirkOp::PutLast(81, '3'));
            ops.push(QuirkOp::PutLast(82, '0'));
            ops.push(QuirkOp::PutLast(83, '.'));
            ops.push(QuirkOp::PutLast(86, '>'));
        } else if str_eq(layout, "right_hand_invert") {
            ops.push(QuirkOp::PushLevel);
            ops.push(QuirkOp::PutLast(43, '|'));
            ops.push(QuirkOp::PutLast(71, '7'));
            ops.push(QuirkOp::PutLast(72, '8'));
            ops.push(QuirkOp::PutLast(73, '9'));
            ops.push(QuirkOp::PutLast(75, '4'));
            ops.push(QuirkOp::PutLast(76, '5'));
            ops.push(QuirkOp::PutLast(77, '6'));
            ops.push(QuirkOp::PutLast(78, '+'));
            ops.push(QuirkOp::PutLast(79, '1'));
            ops.push(QuirkOp::PutLast(80, '2'));
            ops.push(QuirkOp::PutLast(81, '3'));
            ops.push(QuirkOp::PutLast(82, '0'));
            ops.push(QuirkOp::PutLast(83, '.'));
            ops.push(QuirkOp::PutLast(86, '>'));
        }
    } else if str_eq(locale, "kr") {
        if str_eq(layout, "hw_keys") {
            ops.push(QuirkOp::PushLevel);
            ops.push(QuirkOp::PutLast(43, '|'));
            ops.push(QuirkOp::PutLast(71, '7'));
            ops.push(QuirkOp::PutLast(72, '8'));
            ops.push(QuirkOp::PutLast(73, '9'));
            ops.push(QuirkOp::PutLast(75, '4'));
            ops.push(QuirkOp::PutLast(76, '5'));
            ops.push(QuirkOp::PutLast(77, '6'));
            ops.push(QuirkOp::PutLast(78, '+'));
            ops.push(QuirkOp::PutLast(79, '1'));
            ops.push(QuirkOp::PutLast(80, '2'));
            ops.push(QuirkOp::PutLast(81, '3'));
            ops.push(QuirkOp::PutLast(82, '0'));
            ops.push(QuirkOp::PutLast(83, '.'));
            ops.push(QuirkOp::PutLast(86, '>'));
        }
    } else if str_eq(locale, "jp") {
        if str_eq(layout, "hztg_escape") {
            ops.push(QuirkOp::PushLevel);
            ops.push(QuirkOp::PutLast(43, '|'));
            ops.push(QuirkOp::PutLast(71, '7'));
            ops.push(QuirkOp::PutLast(72, '8'));
            ops.push(QuirkOp::PutLast(73, '9'));
            ops.push(QuirkOp::PutLast(75, '4'));
            ops.push(QuirkOp::PutLast(76, '5'));
            ops.push(QuirkOp::PutLast(77, '6'));
            ops.push(QuirkOp::PutLast(78, '+'));
            ops.push(QuirkOp::PutLast(79, '1'));
            ops.push(QuirkOp::PutLast(80, '2'));
            ops.push(QuirkOp::PutLast(81, '3'));
            ops.push(QuirkOp::PutLast(82, '0'));
            ops.push(QuirkOp::PutLast(83, '.'));
            ops.push(QuirkOp::PutLast(86, '>'));
        }
    } else if str_eq(locale, "am") {
        if str_eq(layout, "eastern") {
            ops.push(QuirkOp::NumLockAdd(2));
            ops.push(QuirkOp::NumLockAdd(5));
            ops.push(QuirkOp::NumLockAdd(6));
            ops.push(QuirkOp::NumLockAdd(7));
            proof {
                assert(ops@ =~= seq![QuirkOp::NumLockAdd(2), QuirkOp::NumLockAdd(5), QuirkOp::NumLockAdd(6), QuirkOp::NumLockAdd(7)]);
            }
        } else if str_eq(layout, "western") {
            ops.push(QuirkOp::NumLockAdd(2));
            ops.push(QuirkOp::NumLockAdd(5));
            ops.push(QuirkOp::NumLockAdd(6));
            ops.push(QuirkOp::NumLockAdd(7));
        } else if str_eq(layout, "eastern-alt") {
            ops.push(QuirkOp::NumLockAdd(2));
            ops.push(QuirkOp::NumLockAdd(5));
            ops.push(QuirkOp::NumLockAdd(6));
            ops.push(QuirkOp::NumLockAdd(7));
        }
    } else if str_eq(locale, "ru") {
        if str_eq(layout, "ruintl_en") {
            ops.push(QuirkOp::Put(3, 36, '\u{d8}'));
        }
    } else if str_eq(locale, "cm") {
        if str_eq(layout, "azerty") {
            ops.push(QuirkOp::NumLockAdd(2));
            ops.push(QuirkOp::NumLockAdd(3));
            ops.push(QuirkOp::NumLockAdd(4));
            ops.push(QuirkOp::NumLockAdd(5));
            ops.push(QuirkOp::NumLockAdd(6));
            ops.push(QuirkOp::NumLockAdd(7));
            ops.push(QuirkOp::NumLockAdd(8));
            ops.push(QuirkOp::NumLockAdd(9));
            ops.push(QuirkOp::NumLockAdd(10));
            ops.push(QuirkOp::NumLockAdd(11));
        }
    } else if str_eq(locale, "la") {
        if str_eq(layout, "stea") {
            ops.push(QuirkOp::NumLockRemove(83));
            proof {
                assert(ops@ =~= seq![QuirkOp::NumLockRemove(83)]);
            }
        }
    }
    ops
}


} // verus!
