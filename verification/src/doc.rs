//! The layout-definition document model and the external lookup tables, as
//! construction consumes them, along with the small parsers for include
//! names and hexadecimal character values.

use vstd::prelude::*;

verus! {

/// One item of a layout block, as the external grammar parser delivers it:
/// an include directive, a key entry with per-slot symbol values, or a key
/// entry in the `symbols[..]` form whose values resolve through the symbol
/// table only.
#[derive(Debug, Clone)]
pub enum SymbolsItem {
    Include { target: String },
    Key { id: String, values: Vec<String> },
    KeySymbols { id: String, values: Vec<String> },
}

/// A named layout block of a locale's definition document.
#[derive(Debug, Clone)]
pub struct LayoutBlock {
    pub name: String,
    pub items: Vec<SymbolsItem>,
}

/// A locale's definition document: its layout blocks, in order.
#[derive(Debug, Clone)]
pub struct Document {
    pub blocks: Vec<LayoutBlock>,
}

/// A set of definition documents, keyed by locale name.
#[derive(Debug, Clone)]
pub struct DocSet {
    pub docs: Vec<(String, Document)>,
}

/// The first block of the document that carries the name, if any.
pub open spec fn spec_find_block(blocks: Seq<LayoutBlock>, name: Seq<char>) -> Option<LayoutBlock>
    decreases blocks.len(),
{
    if blocks.len() == 0 {
        None
    } else if blocks[0].name@ == name {
        Some(blocks[0])
    } else {
        spec_find_block(blocks.drop_first(), name)
    }
}

/// The first document of the set that carries the locale name, if any.
pub open spec fn spec_find_doc(docs: Seq<(String, Document)>, locale: Seq<char>) -> Option<
    Document,
>
    decreases docs.len(),
{
    if docs.len() == 0 {
        None
    } else if docs[0].0@ == locale {
        Some(docs[0].1)
    } else {
        spec_find_doc(docs.drop_first(), locale)
    }
}

/// Character-wise string equality.
pub fn str_eq(a: &str, b: &str) -> (r: bool)
    ensures
        r == (a@ == b@),
{
    let la = a.unicode_len();
    let lb = b.unicode_len();
    if la != lb {
        proof {
            if a@ == b@ {
                assert(a@.len() == b@.len());
            }
        }
        return false;
    }
    let mut i: usize = 0;
    while i < la
        invariant
            la == a@.len(),
            la == b@.len(),
            0 <= i <= la,
            forall |j: int| 0 <= j < i ==> a@[j] == b@[j],
        decreases la - i,
    {
        if a.get_char(i) != b.get_char(i) {
            return false;
        }
        i = i + 1;
    }
    proof {
        assert(a@ =~= b@);
    }
    true
}

impl Document {
    /// The first block named `name`, if any.
    pub fn find_block(&self, name: &str) -> (r: Option<&LayoutBlock>)
        ensures
            (match r {
                Some(b) => spec_find_block(self.blocks@, name@) == Some(*b),
                None => spec_find_block(self.blocks@, name@) is None,
            }),
    {
        let n = self.blocks.len();
        let mut i: usize = 0;
        proof {
            assert(self.blocks@.skip(0) =~= self.blocks@);
        }
        while i < n
            invariant
                n == self.blocks@.len(),
                0 <= i <= n,
                spec_find_block(self.blocks@, name@) == spec_find_block(
                    self.blocks@.skip(i as int),
                    name@,
                ),
            decreases n - i,
        {
            proof {
                assert(self.blocks@.skip(i as int)[0] == self.blocks@[i as int]);
                assert(self.blocks@.skip(i as int).drop_first() =~= self.blocks@.skip(i as int + 1));
            }
            if str_eq(self.blocks[i].name.as_str(), name) {
                return Some(&self.blocks[i]);
            }
            i = i + 1;
        }
        proof {
            assert(self.blocks@.skip(n as int) =~= Seq::<LayoutBlock>::empty());
        }
        None
    }
}

impl DocSet {
    /// The first document for `locale`, if any.
    pub fn find_doc(&self, locale: &str) -> (r: Option<&Document>)
        ensures
            (match r {
                Some(d) => spec_find_doc(self.docs@, locale@) == Some(*d),
                None => spec_find_doc(self.docs@, locale@) is None,
            }),
    {
        let n = self.docs.len();
        let mut i: usize = 0;
        proof {
            assert(self.docs@.skip(0) =~= self.docs@);
        }
        while i < n
            invariant
                n == self.docs@.len(),
                0 <= i <= n,
                spec_find_doc(self.docs@, locale@) == spec_find_doc(
                    self.docs@.skip(i as int),
                    locale@,
                ),
            decreases n - i,
        {
            proof {
                assert(self.docs@.skip(i as int)[0] == self.docs@[i as int]);
                assert(self.docs@.skip(i as int).drop_first() =~= self.docs@.skip(i as int + 1));
            }
            if str_eq(self.docs[i].0.as_str(), locale) {
                return Some(&self.docs[i].1);
            }
            i = i + 1;
        }
        proof {
            assert(self.docs@.skip(n as int) =~= Seq::<(String, Document)>::empty());
        }
        None
    }
}

/// The external table mapping symbolic key identifiers to scan codes.
#[derive(Debug, Clone)]
pub struct KeyCodeTable {
    pub entries: Vec<(String, u32)>,
}

pub open spec fn kt_get(s: Seq<(String, u32)>, k: Seq<char>) -> Option<u32>
    decreases s.len(),
{
    if s.len() == 0 {
        None
    } else if s[0].0@ == k {
        Some(s[0].1)
    } else {
        kt_get(s.drop_first(), k)
    }
}

impl KeyCodeTable {
    pub fn new() -> (r: KeyCodeTable)
        ensures
            r.entries@.len() == 0,
    {
        KeyCodeTable { entries: Vec::new() }
    }

    pub fn add(&mut self, name: String, code: u32)
        ensures
            final(self).entries@ == old(self).entries@.push((name, code)),
    {
        self.entries.push((name, code));
    }

    pub fn get(&self, name: &str) -> (r: Option<u32>)
        ensures
            r == kt_get(self.entries@, name@),
    {
        let n = self.entries.len();
        let mut i: usize = 0;
        proof {
            assert(self.entries@.skip(0) =~= self.entries@);
        }
        while i < n
            invariant
                n == self.entries@.len(),
                0 <= i <= n,
                kt_get(self.entries@, name@) == kt_get(self.entries@.skip(i as int), name@),
            decreases n - i,
        {
            proof {
                assert(self.entries@.skip(i as int)[0] == self.entries@[i as int]);
                assert(self.entries@.skip(i as int).drop_first() =~= self.entries@.skip(
                    i as int + 1,
                ));
            }
            if str_eq(self.entries[i].0.as_str(), name) {
                return Some(self.entries[i].1);
            }
            i = i + 1;
        }
        proof {
            assert(self.entries@.skip(n as int) =~= Seq::<(String, u32)>::empty());
        }
        None
    }
}

/// The external table mapping symbolic character names to characters.
#[derive(Debug, Clone)]
pub struct CharTable {
    pub entries: Vec<(String, char)>,
}

pub open spec fn ct_get(s: Seq<(String, char)>, k: Seq<char>) -> Option<char>
    decreases s.len(),
{
    if s.len() == 0 {
        None
    } else if s[0].0@ == k {
        Some(s[0].1)
    } else {
        ct_get(s.drop_first(), k)
    }
}

impl CharTable {
    pub fn new() -> (r: CharTable)
        ensures
            r.entries@.len() == 0,
    {
        CharTable { entries: Vec::new() }
    }

    pub fn add(&mut self, name: String, ch: char)
        ensures
            final(self).entries@ == old(self).entries@.push((name, ch)),
    {
        self.entries.push((name, ch));
    }

    pub fn get(&self, name: &str) -> (r: Option<char>)
        ensures
            r == ct_get(self.entries@, name@),
    {
        let n = self.entries.len();
        let mut i: usize = 0;
        proof {
            assert(self.entries@.skip(0) =~= self.entries@);
        }
        while i < n
            invariant
                n == self.entries@.len(),
                0 <= i <= n,
                ct_get(self.entries@, name@) == ct_get(self.entries@.skip(i as int), name@),
            decreases n - i,
        {
            proof {
                assert(self.entries@.skip(i as int)[0] == self.entries@[i as int]);
                assert(self.entries@.skip(i as int).drop_first() =~= self.entries@.skip(
                    i as int + 1,
                ));
            }
            if str_eq(self.entries[i].0.as_str(), name) {
                return Some(self.entries[i].1);
            }
            i = i + 1;
        }
        proof {
            assert(self.entries@.skip(n as int) =~= Seq::<(String, char)>::empty());
        }
        None
    }
}


/// A word character of the include-name grammar: ASCII letter, digit or
/// underscore.
pub open spec fn is_word_char(c: char) -> bool {
    (48 <= (c as u32) && (c as u32) <= 57) || (65 <= (c as u32) && (c as u32) <= 90) || (97 <= (
    c as u32) && (c as u32) <= 122) || c == '_'
}

/// A character allowed in the layout part of an include name: a word
/// character or a dash.
pub open spec fn is_layout_char(c: char) -> bool {
    is_word_char(c) || c == '-'
}

/// The start of the maximal run of word characters that ends at `e`.
pub open spec fn scan_back_word(s: Seq<char>, e: int) -> int
    decreases e,
{
    if e <= 0 {
        0
    } else if is_word_char(s[e - 1]) {
        scan_back_word(s, e - 1)
    } else {
        e
    }
}

/// The start of the maximal run of layout characters that ends at `e`.
pub open spec fn scan_back_layout(s: Seq<char>, e: int) -> int
    decreases e,
{
    if e <= 0 {
        0
    } else if is_layout_char(s[e - 1]) {
        scan_back_layout(s, e - 1)
    } else {
        e
    }
}

/// An include name read from its end: a trailing `name(layout)` gives the
/// pair, a trailing run of word characters gives the name alone, and
/// anything else does not parse.
pub open spec fn spec_parse_include(s: Seq<char>) -> Option<(Seq<char>, Option<Seq<char>>)> {
    let n = s.len() as int;
    if n > 0 && s[n - 1] == ')' {
        let lb = scan_back_layout(s, n - 1);
        if lb > 0 && s[lb - 1] == '(' && lb < n - 1 {
            let nb = scan_back_word(s, lb - 1);
            if nb < lb - 1 {
                Some((s.subrange(nb, lb - 1), Some(s.subrange(lb, n - 1))))
            } else {
                None
            }
        } else {
            None
        }
    } else if n > 0 && is_word_char(s[n - 1]) {
        Some((s.subrange(scan_back_word(s, n), n), None))
    } else {
        None
    }
}

fn is_word_char_exec(c: char) -> (r: bool)
    ensures
        r == is_word_char(c),
{
    (c >= '0' && c <= '9') || (c >= 'A' && c <= 'Z') || (c >= 'a' && c <= 'z') || c == '_'
}

fn is_layout_char_exec(c: char) -> (r: bool)
    ensures
        r == is_layout_char(c),
{
    is_word_char_exec(c) || c == '-'
}

/// Walk back from `e` over word characters.
fn scan_back_word_exec(s: &str, e: usize) -> (r: usize)
    requires
        e <= s@.len(),
    ensures
        r == scan_back_word(s@, e as int),
        r <= e,
{
    let mut b = e;
    while b > 0
        invariant
            b <= e <= s@.len(),
            scan_back_word(s@, e as int) == scan_back_word(s@, b as int),
        decreases b,
    {
        if !is_word_char_exec(s.get_char(b - 1)) {
            return b;
        }
        b = b - 1;
    }
    b
}

/// Walk back from `e` over layout characters.
fn scan_back_layout_exec(s: &str, e: usize) -> (r: usize)
    requires
        e <= s@.len(),
    ensures
        r == scan_back_layout(s@, e as int),
        r <= e,
{
    let mut b = e;
    while b > 0
        invariant
            b <= e <= s@.len(),
            scan_back_layout(s@, e as int) == scan_back_layout(s@, b as int),
        decreases b,
    {
        if !is_layout_char_exec(s.get_char(b - 1)) {
            return b;
        }
        b = b - 1;
    }
    b
}

/// Split an include directive's target into its locale name and optional
/// layout name, reading `name` or `name(layout)` at the end of the string.
pub fn parse_include(input: &str) -> (r: Option<(String, Option<String>)>)
    ensures
        (match (r, spec_parse_include(input@)) {
            (Some(p), Some(q)) => p.0@ == q.0 && (match (p.1, q.1) {
                (Some(x), Some(y)) => x@ == y,
                (None, None) => true,
                _ => false,
            }),
            (None, None) => true,
            _ => false,
        }),
{
    let n = input.unicode_len();
    if n == 0 {
        return None;
    }
    let last = input.get_char(n - 1);
    if last == ')' {
        let lb = scan_back_layout_exec(input, n - 1);
        if lb > 0 && input.get_char(lb - 1) == '(' && lb < n - 1 {
            let nb = scan_back_word_exec(input, lb - 1);
            if nb < lb - 1 {
                let name = input.substring_char(nb, lb - 1);
                let layout = input.substring_char(lb, n - 1);
                return Some((String::from_str(name), Some(String::from_str(layout))));
            }
        }
        None
    } else if is_word_char_exec(last) {
        let nb = scan_back_word_exec(input, n);
        let name = input.substring_char(nb, n);
        Some((String::from_str(name), None))
    } else {
        None
    }
}

/// The value of one hexadecimal digit.
pub open spec fn hex_digit_val(c: char) -> Option<u32> {
    let u = c as u32;
    if 48 <= u && u <= 57 {
        Some((u - 48) as u32)
    } else if 97 <= u && u <= 102 {
        Some((u - 87) as u32)
    } else if 65 <= u && u <= 70 {
        Some((u - 55) as u32)
    } else {
        None
    }
}

/// Fold hexadecimal digits into `acc`; a non-digit or an overflow of `u32`
/// gives `None`.
pub open spec fn hex_fold(s: Seq<char>, acc: u32) -> Option<u32>
    decreases s.len(),
{
    if s.len() == 0 {
        Some(acc)
    } else {
        match hex_digit_val(s[0]) {
            Some(d) => (if acc >= 0x10000000 {
                None
            } else {
                hex_fold(s.drop_first(), (acc * 16 + d) as u32)
            }),
            None => None,
        }
    }
}

/// A hexadecimal number: an optional leading `+`, then one or more digits,
/// rejecting overflow.
pub open spec fn spec_parse_hex_u32(s: Seq<char>) -> Option<u32> {
    if s.len() == 0 {
        None
    } else if s[0] == '+' {
        if s.len() == 1 {
            None
        } else {
            hex_fold(s.drop_first(), 0)
        }
    } else {
        hex_fold(s, 0)
    }
}

pub(crate) fn hex_digit_val_exec(c: char) -> (r: Option<u32>)
    ensures
        r == hex_digit_val(c),
{
    if c >= '0' && c <= '9' {
        Some((c as u32) - 48)
    } else if c >= 'a' && c <= 'f' {
        Some((c as u32) - 87)
    } else if c >= 'A' && c <= 'F' {
        Some((c as u32) - 55)
    } else {
        None
    }
}

/// Parse the characters of `s` from `from` on as a hexadecimal number.
fn parse_hex_str(s: &str, from: usize) -> (r: Option<u32>)
    requires
        from <= s@.len(),
    ensures
        r == spec_parse_hex_u32(s@.skip(from as int)),
{
    let n = s.unicode_len();
    if from == n {
        proof {
            assert(s@.skip(from as int).len() == 0);
        }
        return None;
    }
    let mut i = from;
    if s.get_char(from) == '+' {
        if from + 1 == n {
            proof {
                assert(s@.skip(from as int)[0] == '+');
                assert(s@.skip(from as int).len() == 1);
            }
            return None;
        }
        i = from + 1;
    }
    let ghost digits_start = i;
    let mut acc: u32 = 0;
    proof {
        assert(s@.skip(from as int)[0] == s@[from as int]);
        if s@[from as int] == '+' {
            assert(s@.skip(from as int).drop_first() =~= s@.skip(from as int + 1));
        }
    }
    while i < n
        invariant
            digits_start <= i <= n,
            n == s@.len(),
            from <= digits_start,
            spec_parse_hex_u32(s@.skip(from as int)) == hex_fold(s@.skip(i as int), acc),
        decreases n - i,
    {
        proof {
            assert(s@.skip(i as int)[0] == s@[i as int]);
            assert(s@.skip(i as int).drop_first() =~= s@.skip(i as int + 1));
        }
        match hex_digit_val_exec(s.get_char(i)) {
            Some(d) => {
                if acc >= 0x10000000 {
                    return None;
                }
                acc = acc * 16 + d;
            }
            None => {
                return None;
            }
        }
        i = i + 1;
    }
    proof {
        assert(s@.skip(n as int).len() == 0);
    }
    Some(acc)
}

/// The character with scalar value `u`: defined exactly when `u` is not a
/// surrogate and at most 0x10FFFF.
pub open spec fn spec_char_of(u: u32) -> Option<char> {
    if u < 0xD800 || (0xE000 <= u && u <= 0x10FFFF) {
        Some(u as char)
    } else {
        None
    }
}

/// Relies on char::from_u32: `Some` of the character with that scalar value,
/// exactly when the value is not a surrogate and at most 0x10FFFF.
#[verifier::external_body]
fn char_from_u32(u: u32) -> (r: Option<char>)
    ensures
        r == spec_char_of(u),
{
    char::from_u32(u)
}

/// The character denoted by a `U`-prefixed hexadecimal scalar value.
pub open spec fn spec_unicode_value_char(s: Seq<char>) -> Option<char> {
    if s.len() < 1 {
        None
    } else {
        match spec_parse_hex_u32(s.drop_first()) {
            Some(u) => spec_char_of(u),
            None => None,
        }
    }
}

/// Resolve a value of the form `U<hex>`: the characters after the first are
/// read as a hexadecimal scalar value.
pub fn unicode_string_to_unicode_char(s: &str) -> (r: Option<char>)
    ensures
        r == spec_unicode_value_char(s@),
{
    let n = s.unicode_len();
    if n < 1 {
        return None;
    }
    proof {
        assert(s@.drop_first() =~= s@.skip(1));
    }
    match parse_hex_str(s, 1) {
        Some(u) => char_from_u32(u),
        None => None,
    }
}

/// The character denoted by the last five characters of a `0x`-prefixed
/// value, read as a hexadecimal scalar value; shorter values give `None`.
pub open spec fn spec_hex_value_char(s: Seq<char>) -> Option<char> {
    if s.len() < 5 {
        None
    } else {
        match spec_parse_hex_u32(s.skip(s.len() - 5)) {
            Some(u) => spec_char_of(u),
            None => None,
        }
    }
}

/// Resolve a value of the form `0x<hex>`: its last five characters are read
/// as a hexadecimal scalar value, so only five-digit codepoints resolve.
pub fn hex_string_to_unicode_char(s: &str) -> (r: Option<char>)
    ensures
        r == spec_hex_value_char(s@),
{
    let n = s.unicode_len();
    if n < 5 {
        return None;
    }
    match parse_hex_str(s, n - 5) {
        Some(u) => char_from_u32(u),
        None => None,
    }
}

/// The compatibility-only layout names that `layouts` leaves out.
pub open spec fn spec_is_sun_layout(name: Seq<char>) -> bool {
    name == "sun_type6"@ || name == "sun_type6_de"@ || name == "sun_type6_fr"@ || name
        == "sun_type6_suncompat"@ || name == "sun_type7_suncompat"@ || name == "suncompat"@ || name
        == "sun_type7"@
}

pub open spec fn views_of_strings(v: Seq<String>) -> Seq<Seq<char>> {
    v.map_values(|x: String| x@)
}

/// The names of a document's blocks, in order, without the
/// compatibility-only names.
pub open spec fn spec_layout_names(blocks: Seq<LayoutBlock>) -> Seq<Seq<char>>
    decreases blocks.len(),
{
    if blocks.len() == 0 {
        Seq::empty()
    } else {
        let rest = spec_layout_names(blocks.drop_first());
        if spec_is_sun_layout(blocks[0].name@) {
            rest
        } else {
            seq![blocks[0].name@] + rest
        }
    }
}

/// All layout names a document declares, excluding the compatibility-only
/// ones.
pub fn read_layouts(doc: &Document) -> (r: Vec<String>)
    ensures
        views_of_strings(r@) == spec_layout_names(doc.blocks@),
{
    let n = doc.blocks.len();
    let mut r: Vec<String> = Vec::new();
    let mut i: usize = 0;
    proof {
        assert(doc.blocks@.skip(0) =~= doc.blocks@);
        assert(views_of_strings(r@) =~= Seq::<Seq<char>>::empty());
    }
    while i < n
        invariant
            n == doc.blocks@.len(),
            0 <= i <= n,
            views_of_strings(r@) + spec_layout_names(doc.blocks@.skip(i as int))
                == spec_layout_names(doc.blocks@),
        decreases n - i,
    {
        proof {
            assert(doc.blocks@.skip(i as int)[0] == doc.blocks@[i as int]);
            assert(doc.blocks@.skip(i as int).drop_first() =~= doc.blocks@.skip(i as int + 1));
        }
        let name = doc.blocks[i].name.as_str();
        let sun = str_eq(name, "sun_type6") || str_eq(name, "sun_type6_de") || str_eq(
            name,
            "sun_type6_fr",
        ) || str_eq(name, "sun_type6_suncompat") || str_eq(name, "sun_type7_suncompat") || str_eq(
            name,
            "suncompat",
        ) || str_eq(name, "sun_type7");
        if !sun {
            let ghost r_old = r@;
            r.push(String::from_str(name));
            proof {
                assert(views_of_strings(r@) =~= views_of_strings(r_old) + seq![
                    doc.blocks@[i as int].name@,
                ]);
                assert(views_of_strings(r_old) + (seq![doc.blocks@[i as int].name@]
                    + spec_layout_names(doc.blocks@.skip(i as int + 1))) == (views_of_strings(r_old)
                    + seq![doc.blocks@[i as int].name@]) + spec_layout_names(doc.blocks@.skip(
                    i as int + 1,
                )));
            }
        }
        i = i + 1;
    }
    proof {
        assert(doc.blocks@.skip(n as int) =~= Seq::<LayoutBlock>::empty());
        assert(views_of_strings(r@) + Seq::<Seq<char>>::empty() =~= views_of_strings(r@));
    }
    r
}


/// Whether a character is alphanumeric in the Unicode sense.
pub uninterp spec fn spec_is_alphanumeric(c: char) -> bool;

/// Relies on char::is_alphanumeric: a property of the character alone.
#[verifier::external_body]
pub(crate) fn char_is_alphanumeric(c: char) -> (r: bool)
    ensures
        r == spec_is_alphanumeric(c),
{
    c.is_alphanumeric()
}

/// Whether `pat` occurs in `s` as a contiguous run.
pub open spec fn spec_str_contains(s: Seq<char>, pat: Seq<char>) -> bool {
    exists |k: int| 0 <= k && k + pat.len() <= s.len() && #[trigger] s.subrange(k, k + pat.len()) == pat
}

/// Substring search, character-wise.
pub fn str_contains(s: &str, pat: &str) -> (r: bool)
    ensures
        r == spec_str_contains(s@, pat@),
{
    let n = s.unicode_len();
    let m = pat.unicode_len();
    if m > n {
        proof {
            if spec_str_contains(s@, pat@) {
                let k = choose |k: int| 0 <= k && k + pat@.len() <= s@.len() && #[trigger] s@.subrange(
                    k,
                    k + pat@.len(),
                ) == pat@;
                assert(k + pat@.len() <= s@.len());
            }
        }
        return false;
    }
    let mut k: usize = 0;
    while k <= n - m
        invariant
            n == s@.len(),
            m == pat@.len(),
            m <= n,
            0 <= k <= n - m + 1,
            forall |k2: int| 0 <= k2 < k ==> #[trigger] s@.subrange(k2, k2 + pat@.len()) != pat@,
        decreases n - m + 1 - k,
    {
        let mut j: usize = 0;
        while j < m && s.get_char(k + j) == pat.get_char(j)
            invariant
                n == s@.len(),
                m == pat@.len(),
                k + m <= n,
                0 <= j <= m,
                forall |jj: int| 0 <= jj < j ==> s@[k + jj] == pat@[jj],
            decreases m - j,
        {
            j = j + 1;
        }
        if j == m {
            proof {
                assert(s@.subrange(k as int, k + pat@.len()) =~= pat@);
            }
            return true;
        }
        proof {
            assert(s@[k + j] != pat@[j as int]);
            assert(s@.subrange(k as int, k + pat@.len())[j as int] == s@[k + j]);
        }
        k = k + 1;
    }
    proof {
        if spec_str_contains(s@, pat@) {
            let k2 = choose |k2: int| 0 <= k2 && k2 + pat@.len() <= s@.len() && #[trigger] s@.subrange(
                k2,
                k2 + pat@.len(),
            ) == pat@;
            assert(s@.subrange(k2, k2 + pat@.len()) == pat@);
            assert(k2 < k);
        }
    }
    false
}

} // verus!
