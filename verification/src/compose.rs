//! The dead-key composition engine: a four-state machine that accumulates
//! combining marks into one composed character.

use vstd::prelude::*;

verus! {

#[derive(Debug, Clone, Copy, PartialEq, Eq, Hash, Structural)]
pub enum ComposeStatus {
    Idle,
    Composing,
    Composed,
    Cancelled,
}

#[derive(Debug, Clone, Copy, PartialEq, Eq, Hash, Structural)]
pub enum FeedResult {
    Ignored,
    Accepted,
}

/// Whether a character is a Unicode combining mark
/// (`General_Category=Mark`).
pub uninterp spec fn spec_is_combining_mark(c: char) -> bool;

/// Canonical composition of two characters, if the Unicode tables compose
/// them.
pub uninterp spec fn spec_canonical_compose(a: char, b: char) -> Option<char>;

/// Relies on unicode_normalization::char::is_combining_mark: a property of
/// the character alone.
#[verifier::external_body]
pub(crate) fn is_combining_mark(c: char) -> (r: bool)
    ensures
        r == spec_is_combining_mark(c),
{
    unicode_normalization::char::is_combining_mark(c)
}

/// Relies on unicode_normalization::char::compose: canonical composition, a
/// function of the two characters alone.
#[verifier::external_body]
pub(crate) fn compose_chars(a: char, b: char) -> (r: Option<char>)
    ensures
        r == spec_canonical_compose(a, b),
{
    unicode_normalization::char::compose(a, b)
}

/// The compose engine's transition on feeding `c` to state `(st, buf)`:
/// a combining mark starts or extends an accumulation, a plain character
/// finishes one, and everything else cancels. The result is the new status,
/// the new buffered character, and whether the input was accepted.
pub open spec fn spec_compose_feed(st: ComposeStatus, buf: char, c: char) -> (
    ComposeStatus,
    char,
    FeedResult,
) {
    if spec_is_combining_mark(c) {
        match st {
            ComposeStatus::Idle | ComposeStatus::Composed | ComposeStatus::Cancelled => (
                ComposeStatus::Composing,
                c,
                FeedResult::Accepted,
            ),
            ComposeStatus::Composing => match spec_canonical_compose(c, buf) {
                Some(cc) => (ComposeStatus::Composing, cc, FeedResult::Accepted),
                None => (ComposeStatus::Cancelled, buf, FeedResult::Ignored),
            },
        }
    } else if st == ComposeStatus::Composing {
        match spec_canonical_compose(c, buf) {
            Some(cc) => (ComposeStatus::Composed, cc, FeedResult::Accepted),
            None => (ComposeStatus::Cancelled, buf, FeedResult::Ignored),
        }
    } else {
        (ComposeStatus::Cancelled, buf, FeedResult::Ignored)
    }
}

/// Feeding a plain (non-combining) character outside an accumulation always
/// cancels: from `Idle`, `Composed` or `Cancelled` the result is `Ignored`,
/// the status becomes `Cancelled`, and the buffer is untouched.
pub proof fn lemma_compose_plain_cancels(st: ComposeStatus, buf: char, c: char)
    requires
        !spec_is_combining_mark(c),
        st != ComposeStatus::Composing,
    ensures
        spec_compose_feed(st, buf, c) == (ComposeStatus::Cancelled, buf, FeedResult::Ignored),
{
}

} // verus!
