//! The table types: per-level character tables, case tables and remap
//! tables as sorted association lists with map models, and the built-in
//! fallback tables for the common keys.

use vstd::prelude::*;

verus! {

/// One level's character table: scan code -> character, entries strictly
/// ordered by scan code.
#[derive(Debug, Clone, PartialEq)]
pub struct CharMap {
    entries: Vec<(u32, char)>,
}

pub open spec fn cm_has(s: Seq<(u32, char)>, code: u32) -> bool {
    exists |i: int| 0 <= i < s.len() && s[i].0 == code
}

pub open spec fn cm_index_of(s: Seq<(u32, char)>, code: u32) -> int {
    choose |i: int| 0 <= i < s.len() && s[i].0 == code
}

pub open spec fn cm_model_of(s: Seq<(u32, char)>) -> Map<u32, char> {
    Map::new(|code: u32| cm_has(s, code), |code: u32| s[cm_index_of(s, code)].1)
}

pub open spec fn cm_sorted(s: Seq<(u32, char)>) -> bool {
    forall |i: int, j: int| 0 <= i < j < s.len() ==> s[i].0 < s[j].0
}

/// In a sorted table the model reads back each entry.
pub proof fn lemma_cm_at(s: Seq<(u32, char)>, i: int)
    requires
        cm_sorted(s),
        0 <= i < s.len(),
    ensures
        cm_has(s, s[i].0),
        cm_model_of(s).dom().contains(s[i].0),
        cm_model_of(s)[s[i].0] == s[i].1,
{
    assert(cm_has(s, s[i].0));
    let j = cm_index_of(s, s[i].0);
    assert(0 <= j < s.len() && s[j].0 == s[i].0);
    if j < i {
        assert(s[j].0 < s[i].0);
    }
    if i < j {
        assert(s[i].0 < s[j].0);
    }
}

proof fn lemma_cm_update_model(s: Seq<(u32, char)>, i: int, ch: char)
    requires
        cm_sorted(s),
        0 <= i < s.len(),
    ensures
        cm_sorted(s.update(i, (s[i].0, ch))),
        cm_model_of(s.update(i, (s[i].0, ch))) == cm_model_of(s).insert(s[i].0, ch),
{
    let c0 = s[i].0;
    let s2 = s.update(i, (c0, ch));
    assert(forall |j: int| 0 <= j < s.len() ==> s2[j].0 == s[j].0);
    assert(cm_sorted(s2));
    assert forall |c: u32| cm_has(s2, c) == cm_has(s, c) by {
        if cm_has(s2, c) {
            let j = cm_index_of(s2, c);
            assert(0 <= j < s.len() && s[j].0 == c);
        }
        if cm_has(s, c) {
            let j = cm_index_of(s, c);
            assert(0 <= j < s2.len() && s2[j].0 == c);
        }
    };
    assert forall |c: u32| cm_model_of(s2).dom().contains(c) implies cm_model_of(s2)[c]
        == cm_model_of(s).insert(c0, ch)[c] by {
        let j = cm_index_of(s, c);
        assert(0 <= j < s.len() && s[j].0 == c);
        lemma_cm_at(s, j);
        lemma_cm_at(s2, j);
        if c == c0 {
            if j < i {
                assert(s[j].0 < s[i].0);
            }
            if i < j {
                assert(s[i].0 < s[j].0);
            }
            assert(j == i);
        }
    };
    assert(cm_model_of(s2) =~= cm_model_of(s).insert(c0, ch));
}

pub proof fn lemma_cm_insert_model(s: Seq<(u32, char)>, p: int, code: u32, ch: char)
    requires
        cm_sorted(s),
        0 <= p <= s.len(),
        forall |j: int| 0 <= j < p ==> s[j].0 < code,
        forall |j: int| p <= j < s.len() ==> code < s[j].0,
    ensures
        cm_sorted(s.insert(p, (code, ch))),
        cm_model_of(s.insert(p, (code, ch))) == cm_model_of(s).insert(code, ch),
{
    let s2 = s.insert(p, (code, ch));
    assert(s2.len() == s.len() + 1);
    assert(forall |j: int| 0 <= j < p ==> s2[j] == s[j]);
    assert(s2[p] == (code, ch));
    assert(forall |j: int| p < j < s2.len() ==> s2[j] == s[j - 1]);
    assert(cm_sorted(s2));
    assert forall |c: u32| cm_has(s2, c) == (cm_has(s, c) || c == code) by {
        if cm_has(s2, c) {
            let j = cm_index_of(s2, c);
            assert(0 <= j < s2.len() && s2[j].0 == c);
            if j != p {
                if j < p {
                    assert(s[j].0 == c);
                } else {
                    assert(s[j - 1].0 == c);
                }
            }
        }
        if cm_has(s, c) {
            let j = cm_index_of(s, c);
            assert(0 <= j < s.len() && s[j].0 == c);
            if j < p {
                assert(s2[j].0 == c);
            } else {
                assert(s2[j + 1].0 == c);
            }
        }
        if c == code {
            assert(s2[p].0 == c);
        }
    };
    assert forall |c: u32| cm_model_of(s2).dom().contains(c) implies cm_model_of(s2)[c]
        == cm_model_of(s).insert(code, ch)[c] by {
        lemma_cm_at(s2, p);
        if c == code {
            assert(cm_model_of(s2)[c] == ch);
        } else {
            let j = cm_index_of(s, c);
            assert(0 <= j < s.len() && s[j].0 == c);
            lemma_cm_at(s, j);
            if j < p {
                lemma_cm_at(s2, j);
            } else {
                lemma_cm_at(s2, j + 1);
            }
        }
    };
    assert(cm_model_of(s2) =~= cm_model_of(s).insert(code, ch));
}

impl View for CharMap {
    type V = Seq<(u32, char)>;

    closed spec fn view(&self) -> Seq<(u32, char)> {
        self.entries@
    }
}

impl CharMap {
    pub open spec fn wf(&self) -> bool {
        cm_sorted(self@)
    }

    /// The abstract value: scan code -> character.
    pub open spec fn model(&self) -> Map<u32, char> {
        cm_model_of(self@)
    }

    pub fn new() -> (r: CharMap)
        ensures
            r.wf(),
            r.model() == Map::<u32, char>::empty(),
            r@ == Seq::<(u32, char)>::empty(),
    {
        let r = CharMap { entries: Vec::new() };
        proof {
            assert(r.model() =~= Map::<u32, char>::empty());
        }
        r
    }

    pub fn len(&self) -> (r: usize)
        ensures
            r == self@.len(),
    {
        self.entries.len()
    }

    pub fn entry_at(&self, i: usize) -> (r: (u32, char))
        requires
            i < self@.len(),
        ensures
            r == self@[i as int],
    {
        self.entries[i]
    }

    /// The character bound to `code`, if any.
    pub fn get(&self, code: u32) -> (r: Option<char>)
        requires
            self.wf(),
        ensures
            r == if self.model().dom().contains(code) {
                Some(self.model()[code])
            } else {
                Option::<char>::None
            },
    {
        let n = self.entries.len();
        let mut p: usize = 0;
        while p < n
            invariant
                n == self@.len(),
                0 <= p <= n,
                self.wf(),
                forall |j: int| 0 <= j < p ==> self@[j].0 != code,
            decreases n - p,
        {
            if self.entries[p].0 == code {
                proof {
                    lemma_cm_at(self@, p as int);
                }
                return Some(self.entries[p].1);
            }
            p = p + 1;
        }
        proof {
            if cm_has(self@, code) {
                let j = cm_index_of(self@, code);
                assert(0 <= j < self@.len() && self@[j].0 == code);
            }
        }
        None
    }

    /// An entry-for-entry copy.
    pub fn duplicate(&self) -> (r: CharMap)
        ensures
            r@ == self@,
    {
        let n = self.entries.len();
        let mut v: Vec<(u32, char)> = Vec::new();
        let mut i: usize = 0;
        while i < n
            invariant
                n == self@.len(),
                0 <= i <= n,
                v@ == self@.subrange(0, i as int),
            decreases n - i,
        {
            v.push(self.entries[i]);
            i = i + 1;
        }
        proof {
            assert(v@ =~= self@);
        }
        CharMap { entries: v }
    }

    /// Bind `code` to `ch`, replacing an existing binding.
    pub fn put(&mut self, code: u32, ch: char)
        requires
            old(self).wf(),
        ensures
            final(self).wf(),
            final(self).model() == old(self).model().insert(code, ch),
    {
        let n = self.entries.len();
        let mut p: usize = 0;
        while p < n && self.entries[p].0 < code
            invariant
                n == self@.len(),
                0 <= p <= n,
                self == old(self),
                forall |j: int| 0 <= j < p ==> self@[j].0 < code,
            decreases n - p,
        {
            p = p + 1;
        }
        if p < n && self.entries[p].0 == code {
            proof {
                lemma_cm_update_model(self@, p as int, ch);
            }
            self.entries[p] = (code, ch);
        } else {
            proof {
                assert forall |j: int| p <= j < self@.len() implies code < self@[j].0 by {
                    assert(self@[p as int].0 >= code);
                    assert(self@[p as int].0 != code);
                    if p < j {
                        assert(self@[p as int].0 < self@[j].0);
                    }
                };
                lemma_cm_insert_model(self@, p as int, code, ch);
            }
            self.entries.insert(p, (code, ch));
        }
    }
}

/// A custom case table: character -> character, entries strictly ordered by
/// code point.
#[derive(Debug, Clone, PartialEq)]
pub struct CaseMap {
    entries: Vec<(char, char)>,
}

pub open spec fn case_has(s: Seq<(char, char)>, c: char) -> bool {
    exists |i: int| 0 <= i < s.len() && s[i].0 == c
}

pub open spec fn case_index_of(s: Seq<(char, char)>, c: char) -> int {
    choose |i: int| 0 <= i < s.len() && s[i].0 == c
}

pub open spec fn case_model_of(s: Seq<(char, char)>) -> Map<char, char> {
    Map::new(|c: char| case_has(s, c), |c: char| s[case_index_of(s, c)].1)
}

pub open spec fn case_sorted(s: Seq<(char, char)>) -> bool {
    forall |i: int, j: int| 0 <= i < j < s.len() ==> (s[i].0 as u32) < (s[j].0 as u32)
}

pub proof fn lemma_case_at(s: Seq<(char, char)>, i: int)
    requires
        case_sorted(s),
        0 <= i < s.len(),
    ensures
        case_has(s, s[i].0),
        case_model_of(s).dom().contains(s[i].0),
        case_model_of(s)[s[i].0] == s[i].1,
{
    assert(case_has(s, s[i].0));
    let j = case_index_of(s, s[i].0);
    assert(0 <= j < s.len() && s[j].0 == s[i].0);
    if j < i {
        assert((s[j].0 as u32) < (s[i].0 as u32));
    }
    if i < j {
        assert((s[i].0 as u32) < (s[j].0 as u32));
    }
}

proof fn lemma_case_update_model(s: Seq<(char, char)>, i: int, ch: char)
    requires
        case_sorted(s),
        0 <= i < s.len(),
    ensures
        case_sorted(s.update(i, (s[i].0, ch))),
        case_model_of(s.update(i, (s[i].0, ch))) == case_model_of(s).insert(s[i].0, ch),
{
    let c0 = s[i].0;
    let s2 = s.update(i, (c0, ch));
    assert(forall |j: int| 0 <= j < s.len() ==> s2[j].0 == s[j].0);
    assert(case_sorted(s2));
    assert forall |c: char| case_has(s2, c) == case_has(s, c) by {
        if case_has(s2, c) {
            let j = case_index_of(s2, c);
            assert(0 <= j < s.len() && s[j].0 == c);
        }
        if case_has(s, c) {
            let j = case_index_of(s, c);
            assert(0 <= j < s2.len() && s2[j].0 == c);
        }
    };
    assert forall |c: char| case_model_of(s2).dom().contains(c) implies case_model_of(s2)[c]
        == case_model_of(s).insert(c0, ch)[c] by {
        let j = case_index_of(s, c);
        assert(0 <= j < s.len() && s[j].0 == c);
        lemma_case_at(s, j);
        lemma_case_at(s2, j);
        if c == c0 {
            if j < i {
                assert((s[j].0 as u32) < (s[i].0 as u32));
            }
            if i < j {
                assert((s[i].0 as u32) < (s[j].0 as u32));
            }
            assert(j == i);
        }
    };
    assert(case_model_of(s2) =~= case_model_of(s).insert(c0, ch));
}

proof fn lemma_case_insert_model(s: Seq<(char, char)>, p: int, c0: char, ch: char)
    requires
        case_sorted(s),
        0 <= p <= s.len(),
        forall |j: int| 0 <= j < p ==> (s[j].0 as u32) < (c0 as u32),
        forall |j: int| p <= j < s.len() ==> (c0 as u32) < (s[j].0 as u32),
    ensures
        case_sorted(s.insert(p, (c0, ch))),
        case_model_of(s.insert(p, (c0, ch))) == case_model_of(s).insert(c0, ch),
{
    let s2 = s.insert(p, (c0, ch));
    assert(s2.len() == s.len() + 1);
    assert(forall |j: int| 0 <= j < p ==> s2[j] == s[j]);
    assert(s2[p] == (c0, ch));
    assert(forall |j: int| p < j < s2.len() ==> s2[j] == s[j - 1]);
    assert(case_sorted(s2));
    assert forall |c: char| case_has(s2, c) == (case_has(s, c) || c == c0) by {
        if case_has(s2, c) {
            let j = case_index_of(s2, c);
            assert(0 <= j < s2.len() && s2[j].0 == c);
            if j != p {
                if j < p {
                    assert(s[j].0 == c);
                } else {
                    assert(s[j - 1].0 == c);
                }
            }
        }
        if case_has(s, c) {
            let j = case_index_of(s, c);
            assert(0 <= j < s.len() && s[j].0 == c);
            if j < p {
                assert(s2[j].0 == c);
            } else {
                assert(s2[j + 1].0 == c);
            }
        }
        if c == c0 {
            assert(s2[p].0 == c);
        }
    };
    assert forall |c: char| case_model_of(s2).dom().contains(c) implies case_model_of(s2)[c]
        == case_model_of(s).insert(c0, ch)[c] by {
        lemma_case_at(s2, p);
        if c == c0 {
            assert(case_model_of(s2)[c] == ch);
        } else {
            let j = case_index_of(s, c);
            assert(0 <= j < s.len() && s[j].0 == c);
            lemma_case_at(s, j);
            if j < p {
                lemma_case_at(s2, j);
            } else {
                lemma_case_at(s2, j + 1);
            }
        }
    };
    assert(case_model_of(s2) =~= case_model_of(s).insert(c0, ch));
}

impl View for CaseMap {
    type V = Seq<(char, char)>;

    closed spec fn view(&self) -> Seq<(char, char)> {
        self.entries@
    }
}

impl CaseMap {
    pub open spec fn wf(&self) -> bool {
        case_sorted(self@)
    }

    /// The abstract value: character -> its mapped case partner.
    pub open spec fn model(&self) -> Map<char, char> {
        case_model_of(self@)
    }

    pub fn new() -> (r: CaseMap)
        ensures
            r.wf(),
            r.model() == Map::<char, char>::empty(),
    {
        let r = CaseMap { entries: Vec::new() };
        proof {
            assert(r.model() =~= Map::<char, char>::empty());
        }
        r
    }

    pub fn get(&self, c: char) -> (r: Option<char>)
        requires
            self.wf(),
        ensures
            r == if self.model().dom().contains(c) {
                Some(self.model()[c])
            } else {
                Option::<char>::None
            },
    {
        let n = self.entries.len();
        let mut p: usize = 0;
        while p < n
            invariant
                n == self@.len(),
                0 <= p <= n,
                self.wf(),
                forall |j: int| 0 <= j < p ==> self@[j].0 != c,
            decreases n - p,
        {
            if self.entries[p].0 == c {
                proof {
                    lemma_case_at(self@, p as int);
                }
                return Some(self.entries[p].1);
            }
            p = p + 1;
        }
        proof {
            if case_has(self@, c) {
                let j = case_index_of(self@, c);
                assert(0 <= j < self@.len() && self@[j].0 == c);
            }
        }
        None
    }

    pub fn put(&mut self, c: char, ch: char)
        requires
            old(self).wf(),
        ensures
            final(self).wf(),
            final(self).model() == old(self).model().insert(c, ch),
    {
        let n = self.entries.len();
        let mut p: usize = 0;
        while p < n && (self.entries[p].0 as u32) < (c as u32)
            invariant
                n == self@.len(),
                0 <= p <= n,
                self == old(self),
                forall |j: int| 0 <= j < p ==> (self@[j].0 as u32) < (c as u32),
            decreases n - p,
        {
            p = p + 1;
        }
        if p < n && self.entries[p].0 == c {
            proof {
                lemma_case_update_model(self@, p as int, ch);
            }
            self.entries[p] = (c, ch);
        } else {
            proof {
                if (p as int) < self@.len() {
                    assert((self@[p as int].0 as u32) != (c as u32)) by {
                        vstd::utf8::char_u32_cast(self@[p as int].0, (self@[p as int].0 as u32));
                        vstd::utf8::char_u32_cast(c, (c as u32));
                    }
                }
                assert forall |j: int| p <= j < self@.len() implies (c as u32) < (
                self@[j].0 as u32) by {
                    if p < j {
                        assert((self@[p as int].0 as u32) < (self@[j].0 as u32));
                    }
                };
                lemma_case_insert_model(self@, p as int, c, ch);
            }
            self.entries.insert(p, (c, ch));
        }
    }
}

/// Whether a plain code list holds `code`.
pub fn code_list_contains(v: &Vec<u32>, code: u32) -> (r: bool)
    ensures
        r == v@.contains(code),
{
    let n = v.len();
    let mut i: usize = 0;
    while i < n
        invariant
            n == v@.len(),
            0 <= i <= n,
            forall |j: int| 0 <= j < i ==> v@[j] != code,
        decreases n - i,
    {
        if v[i] == code {
            assert(v@[i as int] == code);
            return true;
        }
        i = i + 1;
    }
    proof {
        if v@.contains(code) {
            let j = choose |j: int| 0 <= j < v@.len() && v@[j] == code;
            assert(v@[j] == code);
        }
    }
    false
}


/// A scan-code remap table: scan code -> scan code, entries strictly ordered.
#[derive(Debug, Clone, PartialEq)]
pub struct CodeMap {
    entries: Vec<(u32, u32)>,
}

pub open spec fn cd_has(s: Seq<(u32, u32)>, code: u32) -> bool {
    exists |i: int| 0 <= i < s.len() && s[i].0 == code
}

pub open spec fn cd_index_of(s: Seq<(u32, u32)>, code: u32) -> int {
    choose |i: int| 0 <= i < s.len() && s[i].0 == code
}

pub open spec fn cd_model_of(s: Seq<(u32, u32)>) -> Map<u32, u32> {
    Map::new(|code: u32| cd_has(s, code), |code: u32| s[cd_index_of(s, code)].1)
}

pub open spec fn cd_sorted(s: Seq<(u32, u32)>) -> bool {
    forall |i: int, j: int| 0 <= i < j < s.len() ==> s[i].0 < s[j].0
}

pub proof fn lemma_cd_at(s: Seq<(u32, u32)>, i: int)
    requires
        cd_sorted(s),
        0 <= i < s.len(),
    ensures
        cd_has(s, s[i].0),
        cd_model_of(s).dom().contains(s[i].0),
        cd_model_of(s)[s[i].0] == s[i].1,
{
    assert(cd_has(s, s[i].0));
    let j = cd_index_of(s, s[i].0);
    assert(0 <= j < s.len() && s[j].0 == s[i].0);
    if j < i {
        assert(s[j].0 < s[i].0);
    }
    if i < j {
        assert(s[i].0 < s[j].0);
    }
}

proof fn lemma_cd_update_model(s: Seq<(u32, u32)>, i: int, t: u32)
    requires
        cd_sorted(s),
        0 <= i < s.len(),
    ensures
        cd_sorted(s.update(i, (s[i].0, t))),
        cd_model_of(s.update(i, (s[i].0, t))) == cd_model_of(s).insert(s[i].0, t),
{
    let c0 = s[i].0;
    let s2 = s.update(i, (c0, t));
    assert(forall |j: int| 0 <= j < s.len() ==> s2[j].0 == s[j].0);
    assert(cd_sorted(s2));
    assert forall |c: u32| cd_has(s2, c) == cd_has(s, c) by {
        if cd_has(s2, c) {
            let j = cd_index_of(s2, c);
            assert(0 <= j < s.len() && s[j].0 == c);
        }
        if cd_has(s, c) {
            let j = cd_index_of(s, c);
            assert(0 <= j < s2.len() && s2[j].0 == c);
        }
    };
    assert forall |c: u32| cd_model_of(s2).dom().contains(c) implies cd_model_of(s2)[c]
        == cd_model_of(s).insert(c0, t)[c] by {
        let j = cd_index_of(s, c);
        assert(0 <= j < s.len() && s[j].0 == c);
        lemma_cd_at(s, j);
        lemma_cd_at(s2, j);
        if c == c0 {
            if j < i {
                assert(s[j].0 < s[i].0);
            }
            if i < j {
                assert(s[i].0 < s[j].0);
            }
            assert(j == i);
        }
    };
    assert(cd_model_of(s2) =~= cd_model_of(s).insert(c0, t));
}

proof fn lemma_cd_insert_model(s: Seq<(u32, u32)>, p: int, code: u32, t: u32)
    requires
        cd_sorted(s),
        0 <= p <= s.len(),
        forall |j: int| 0 <= j < p ==> s[j].0 < code,
        forall |j: int| p <= j < s.len() ==> code < s[j].0,
    ensures
        cd_sorted(s.insert(p, (code, t))),
        cd_model_of(s.insert(p, (code, t))) == cd_model_of(s).insert(code, t),
{
    let s2 = s.insert(p, (code, t));
    assert(s2.len() == s.len() + 1);
    assert(forall |j: int| 0 <= j < p ==> s2[j] == s[j]);
    assert(s2[p] == (code, t));
    assert(forall |j: int| p < j < s2.len() ==> s2[j] == s[j - 1]);
    assert(cd_sorted(s2));
    assert forall |c: u32| cd_has(s2, c) == (cd_has(s, c) || c == code) by {
        if cd_has(s2, c) {
            let j = cd_index_of(s2, c);
            assert(0 <= j < s2.len() && s2[j].0 == c);
            if j != p {
                if j < p {
                    assert(s[j].0 == c);
                } else {
                    assert(s[j - 1].0 == c);
                }
            }
        }
        if cd_has(s, c) {
            let j = cd_index_of(s, c);
            assert(0 <= j < s.len() && s[j].0 == c);
            if j < p {
                assert(s2[j].0 == c);
            } else {
                assert(s2[j + 1].0 == c);
            }
        }
        if c == code {
            assert(s2[p].0 == c);
        }
    };
    assert forall |c: u32| cd_model_of(s2).dom().contains(c) implies cd_model_of(s2)[c]
        == cd_model_of(s).insert(code, t)[c] by {
        lemma_cd_at(s2, p);
        if c == code {
            assert(cd_model_of(s2)[c] == t);
        } else {
            let j = cd_index_of(s, c);
            assert(0 <= j < s.len() && s[j].0 == c);
            lemma_cd_at(s, j);
            if j < p {
                lemma_cd_at(s2, j);
            } else {
                lemma_cd_at(s2, j + 1);
            }
        }
    };
    assert(cd_model_of(s2) =~= cd_model_of(s).insert(code, t));
}

impl View for CodeMap {
    type V = Seq<(u32, u32)>;

    closed spec fn view(&self) -> Seq<(u32, u32)> {
        self.entries@
    }
}

impl CodeMap {
    pub open spec fn wf(&self) -> bool {
        cd_sorted(self@)
    }

    /// The abstract value: scan code -> remapped scan code.
    pub open spec fn model(&self) -> Map<u32, u32> {
        cd_model_of(self@)
    }

    pub fn new() -> (r: CodeMap)
        ensures
            r.wf(),
            r.model() == Map::<u32, u32>::empty(),
    {
        let r = CodeMap { entries: Vec::new() };
        proof {
            assert(r.model() =~= Map::<u32, u32>::empty());
        }
        r
    }

    pub fn get(&self, code: u32) -> (r: Option<u32>)
        requires
            self.wf(),
        ensures
            r == if self.model().dom().contains(code) {
                Some(self.model()[code])
            } else {
                Option::<u32>::None
            },
    {
        let n = self.entries.len();
        let mut p: usize = 0;
        while p < n
            invariant
                n == self@.len(),
                0 <= p <= n,
                self.wf(),
                forall |j: int| 0 <= j < p ==> self@[j].0 != code,
            decreases n - p,
        {
            if self.entries[p].0 == code {
                proof {
                    lemma_cd_at(self@, p as int);
                }
                return Some(self.entries[p].1);
            }
            p = p + 1;
        }
        proof {
            if cd_has(self@, code) {
                let j = cd_index_of(self@, code);
                assert(0 <= j < self@.len() && self@[j].0 == code);
            }
        }
        None
    }

    pub fn put(&mut self, code: u32, t: u32)
        requires
            old(self).wf(),
        ensures
            final(self).wf(),
            final(self).model() == old(self).model().insert(code, t),
    {
        let n = self.entries.len();
        let mut p: usize = 0;
        while p < n && self.entries[p].0 < code
            invariant
                n == self@.len(),
                0 <= p <= n,
                self == old(self),
                forall |j: int| 0 <= j < p ==> self@[j].0 < code,
            decreases n - p,
        {
            p = p + 1;
        }
        if p < n && self.entries[p].0 == code {
            proof {
                lemma_cd_update_model(self@, p as int, t);
            }
            self.entries[p] = (code, t);
        } else {
            proof {
                assert forall |j: int| p <= j < self@.len() implies code < self@[j].0 by {
                    assert(self@[p as int].0 >= code);
                    assert(self@[p as int].0 != code);
                    if p < j {
                        assert(self@[p as int].0 < self@[j].0);
                    }
                };
                lemma_cd_insert_model(self@, p as int, code, t);
            }
            self.entries.insert(p, (code, t));
        }
    }
}


/// The format-independent fallback characters for one level: the common
/// symbol, punctuation, navigation and keypad keys that layouts leave
/// implicit. Levels beyond the fourth have no fallback.
pub open spec fn spec_default_level(i: int) -> Map<u32, char> {
    if i == 0 {
        Map::empty().insert(1u32, '\u{1b}').insert(14u32, '\u{8}').insert(15u32, '\t').insert(28u32, '\r').insert(43u32, '\\').insert(55u32, '*').insert(57u32, ' ').insert(74u32, '-').insert(78u32, '+').insert(86u32, '<').insert(96u32, '\r').insert(98u32, '/').insert(101u32, '\n').insert(111u32, '\u{7f}').insert(117u32, '=').insert(118u32, '\u{b1}').insert(121u32, '.').insert(179u32, '(').insert(180u32, ')').insert(434u32, '$').insert(435u32, '\u{20ac}')
    } else if i == 1 {
        Map::empty().insert(1u32, '\u{1b}').insert(14u32, '\u{8}').insert(28u32, '\r').insert(43u32, '|').insert(55u32, '*').insert(57u32, ' ').insert(71u32, '7').insert(72u32, '8').insert(73u32, '9').insert(74u32, '-').insert(75u32, '4').insert(76u32, '5').insert(77u32, '6').insert(78u32, '+').insert(79u32, '1').insert(80u32, '2').insert(81u32, '3').insert(82u32, '0').insert(83u32, '.').insert(86u32, '>').insert(96u32, '\r').insert(98u32, '/').insert(101u32, '\n').insert(111u32, '\u{7f}').insert(117u32, '=').insert(118u32, '\u{b1}').insert(121u32, '.').insert(179u32, '(').insert(180u32, ')').insert(434u32, '$').insert(435u32, '\u{20ac}')
    } else if i == 2 {
        Map::empty().insert(55u32, '*').insert(74u32, '-').insert(78u32, '+').insert(86u32, '|').insert(98u32, '/')
    } else if i == 3 {
        Map::empty().insert(55u32, '*').insert(74u32, '-').insert(78u32, '+').insert(86u32, '\u{a6}').insert(98u32, '/')
    } else {
        Map::empty()
    }
}

/// Build the fallback table for one level.
pub fn default_level_map(i: usize) -> (r: CharMap)
    ensures
        r.wf(),
        r.model() == spec_default_level(i as int),
{
    let mut m = CharMap::new();
    if i == 0 {
        m.put(1, '\u{1b}');
        m.put(14, '\u{8}');
        m.put(15, '\t');
        m.put(28, '\r');
        m.put(43, '\\');
        m.put(55, '*');
        m.put(57, ' ');
        m.put(74, '-');
        m.put(78, '+');
        m.put(86, '<');
        m.put(96, '\r');
        m.put(98, '/');
        m.put(101, '\n');
        m.put(111, '\u{7f}');
        m.put(117, '=');
        m.put(118, '\u{b1}');
        m.put(121, '.');
        m.put(179, '(');
        m.put(180, ')');
        m.put(434, '$');
        m.put(435, '\u{20ac}');
    } else if i == 1 {
        m.put(1, '\u{1b}');
        m.put(14, '\u{8}');
        m.put(28, '\r');
        m.put(43, '|');
        m.put(55, '*');
        m.put(57, ' ');
        m.put(71, '7');
        m.put(72, '8');
        m.put(73, '9');
        m.put(74, '-');
        m.put(75, '4');
        m.put(76, '5');
        m.put(77, '6');
        m.put(78, '+');
        m.put(79, '1');
        m.put(80, '2');
        m.put(81, '3');
        m.put(82, '0');
        m.put(83, '.');
        m.put(86, '>');
        m.put(96, '\r');
        m.put(98, '/');
        m.put(101, '\n');
        m.put(111, '\u{7f}');
        m.put(117, '=');
        m.put(118, '\u{b1}');
        m.put(121, '.');
        m.put(179, '(');
        m.put(180, ')');
        m.put(434, '$');
        m.put(435, '\u{20ac}');
    } else if i == 2 {
        m.put(55, '*');
        m.put(74, '-');
        m.put(78, '+');
        m.put(86, '|');
        m.put(98, '/');
    } else if i == 3 {
        m.put(55, '*');
        m.put(74, '-');
        m.put(78, '+');
        m.put(86, '\u{a6}');
        m.put(98, '/');
    }
    m
}

/// The abstract values of a level table sequence.
pub open spec fn levels_views(v: Seq<CharMap>) -> Seq<Map<u32, char>> {
    v.map_values(|m: CharMap| m.model())
}

pub open spec fn levels_wf(v: Seq<CharMap>) -> bool {
    forall |i: int| 0 <= i < v.len() ==> (#[trigger] v[i]).wf()
}

pub proof fn lemma_levels_views_update(v: Seq<CharMap>, i: int, m: CharMap)
    requires
        0 <= i < v.len(),
    ensures
        levels_views(v.update(i, m)) == levels_views(v).update(i, m.model()),
{
    assert(levels_views(v.update(i, m)) =~= levels_views(v).update(i, m.model()));
}

pub proof fn lemma_levels_views_push(v: Seq<CharMap>, m: CharMap)
    ensures
        levels_views(v.push(m)) == levels_views(v).push(m.model()),
{
    assert(levels_views(v.push(m)) =~= levels_views(v).push(m.model()));
}

} // verus!
