//! Case folding for the resolution engine: the Unicode mappings behind
//! named results, and the fold that keeps a character unchanged rather than
//! expand it to several.

use vstd::prelude::*;
use crate::keymap::CaseMap;

verus! {

/// The uppercase mapping of a character, as the Unicode tables give it.
pub uninterp spec fn upper_chars_of(c: char) -> Seq<char>;

/// The lowercase mapping of a character, as the Unicode tables give it.
pub uninterp spec fn lower_chars_of(c: char) -> Seq<char>;

/// Whether a character has the Unicode property `Lowercase`.
pub uninterp spec fn spec_is_lowercase(c: char) -> bool;

/// Relies on char::to_uppercase: the uppercase mapping of the character
/// alone, one or more characters.
#[verifier::external_body]
fn char_to_uppercase(c: char) -> (r: Vec<char>)
    ensures
        r@ == upper_chars_of(c),
        r@.len() >= 1,
{
    c.to_uppercase().collect()
}

/// Relies on char::to_lowercase: the lowercase mapping of the character
/// alone, one or more characters.
#[verifier::external_body]
fn char_to_lowercase(c: char) -> (r: Vec<char>)
    ensures
        r@ == lower_chars_of(c),
        r@.len() >= 1,
{
    c.to_lowercase().collect()
}

/// Relies on char::is_lowercase: a property of the character alone.
#[verifier::external_body]
fn char_is_lowercase(c: char) -> (r: bool)
    ensures
        r == spec_is_lowercase(c),
{
    c.is_lowercase()
}

/// The abstract value of an optional custom case table.
pub open spec fn spec_case_opt(m: &Option<CaseMap>) -> Option<Map<char, char>> {
    match m {
        Some(cm) => Some(cm.model()),
        None => None,
    }
}

/// The plain uppercase fold: the Unicode mapping, except that a mapping of
/// more than one character leaves the character unchanged.
pub open spec fn spec_upper_plain(c: char) -> char {
    if upper_chars_of(c).len() > 1 {
        c
    } else {
        upper_chars_of(c).last()
    }
}

/// The plain lowercase fold: a character that is already lowercase is folded
/// up instead, and a mapping of more than one character leaves the character
/// unchanged.
pub open spec fn spec_lower_plain(c: char) -> char {
    if spec_is_lowercase(c) {
        spec_upper_plain(c)
    } else if lower_chars_of(c).len() > 1 {
        c
    } else {
        lower_chars_of(c).last()
    }
}

/// Uppercase folding: a custom-table entry wins over the plain fold.
pub open spec fn spec_fold_upper(c: char, cm: Option<Map<char, char>>) -> char {
    match cm {
        Some(m) => (if m.dom().contains(c) {
            m[c]
        } else {
            spec_upper_plain(c)
        }),
        None => spec_upper_plain(c),
    }
}

/// Lowercase folding, mirroring [`spec_fold_upper`].
pub open spec fn spec_fold_lower(c: char, cm: Option<Map<char, char>>) -> char {
    match cm {
        Some(m) => (if m.dom().contains(c) {
            m[c]
        } else {
            spec_lower_plain(c)
        }),
        None => spec_lower_plain(c),
    }
}

pub fn to_uppercase(c: char, custom_case_map: &Option<CaseMap>) -> (r: char)
    requires
        (match custom_case_map {
            Some(m) => m.wf(),
            None => true,
        }),
    ensures
        r == spec_fold_upper(c, spec_case_opt(custom_case_map)),
{
    if let Some(case_map) = custom_case_map {
        if let Some(uc) = case_map.get(c) {
            return uc;
        }
    }
    let uc = char_to_uppercase(c);
    if uc.len() > 1 {
        c
    } else {
        let last = uc.len() - 1;
        proof {
            assert(uc@[last as int] == upper_chars_of(c).last());
        }
        uc[last]
    }
}

pub fn to_lowercase(c: char, custom_case_map: &Option<CaseMap>) -> (r: char)
    requires
        (match custom_case_map {
            Some(m) => m.wf(),
            None => true,
        }),
    ensures
        r == spec_fold_lower(c, spec_case_opt(custom_case_map)),
{
    if let Some(case_map) = custom_case_map {
        if let Some(lc) = case_map.get(c) {
            return lc;
        }
    }
    if char_is_lowercase(c) {
        let uc = char_to_uppercase(c);
        if uc.len() > 1 {
            c
        } else {
            let last = uc.len() - 1;
            proof {
                assert(uc@[last as int] == upper_chars_of(c).last());
            }
            uc[last]
        }
    } else {
        let lc = char_to_lowercase(c);
        if lc.len() > 1 {
            c
        } else {
            let last = lc.len() - 1;
            proof {
                assert(lc@[last as int] == lower_chars_of(c).last());
            }
            lc[last]
        }
    }
}

/// Folding never expands a character: where the Unicode mapping would give
/// more than one character and no custom entry applies, the character is
/// returned unchanged, so the result is always exactly one scalar.
pub proof fn lemma_fold_keeps_one_scalar(c: char, cm: Option<Map<char, char>>)
    requires
        (match cm {
            Some(m) => !m.dom().contains(c),
            None => true,
        }),
    ensures
        upper_chars_of(c).len() > 1 ==> spec_fold_upper(c, cm) == c,
        !spec_is_lowercase(c) && lower_chars_of(c).len() > 1 ==> spec_fold_lower(c, cm) == c,
        spec_is_lowercase(c) && upper_chars_of(c).len() > 1 ==> spec_fold_lower(c, cm) == c,
{
}

} // verus!
