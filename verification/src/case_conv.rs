//! Case conversions of the `case` crate, with their behaviour stated
//! character by character.

use case::CaseExt;
use vstd::prelude::*;

verus! {

/// The ASCII upper-case counterpart of `c`, or `c` itself.
pub open spec fn ascii_upper(c: char) -> char {
    if 'a' <= c && c <= 'z' {
        ((c as int) - 32) as char
    } else {
        c
    }
}

/// The ASCII lower-case counterpart of `c`, or `c` itself.
pub open spec fn ascii_lower(c: char) -> char {
    if 'A' <= c && c <= 'Z' {
        ((c as int) + 32) as char
    } else {
        c
    }
}

/// Snake case to capitalised camel case, scanning from the front: an
/// underscore is dropped and marks the start of a new word, and the first
/// character of each word is upper-cased (ASCII only).
pub open spec fn camel_from(s: Seq<char>, at_new_word: bool) -> Seq<char>
    decreases s.len(),
{
    if s.len() == 0 {
        Seq::empty()
    } else if s[0] == '_' {
        camel_from(s.drop_first(), true)
    } else if at_new_word {
        seq![ascii_upper(s[0])] + camel_from(s.drop_first(), false)
    } else {
        seq![s[0]] + camel_from(s.drop_first(), false)
    }
}

/// What `CaseExt::to_camel` gives for `s`.
pub open spec fn camel_case(s: Seq<char>) -> Seq<char> {
    camel_from(s, true)
}

/// Camel case to snake case: every ASCII upper-case letter is lower-cased
/// and, unless it is the very first character, preceded by an underscore.
pub open spec fn snake_from(s: Seq<char>, first: bool) -> Seq<char>
    decreases s.len(),
{
    if s.len() == 0 {
        Seq::empty()
    } else if 'A' <= s[0] && s[0] <= 'Z' {
        if first {
            seq![ascii_lower(s[0])] + snake_from(s.drop_first(), false)
        } else {
            seq!['_', ascii_lower(s[0])] + snake_from(s.drop_first(), false)
        }
    } else {
        seq![s[0]] + snake_from(s.drop_first(), false)
    }
}

/// What `CaseExt::to_snake` gives for `s`.
pub open spec fn snake_case(s: Seq<char>) -> Seq<char> {
    snake_from(s, true)
}

/// `case::CaseExt::to_camel` on a string slice. Trusted to behave as
/// `camel_case` states: underscores removed, each word's first letter
/// upper-cased (ASCII), everything else kept.
#[verifier::external_body]
pub(crate) fn to_camel_text(s: &str) -> (r: String)
    ensures
        r@ == camel_case(s@),
{
    s.to_camel()
}

/// `case::CaseExt::to_snake` on a string slice. Trusted to behave as
/// `snake_case` states: each ASCII capital lower-cased and, past the first
/// character, preceded by an underscore.
#[verifier::external_body]
pub(crate) fn to_snake_text(s: &str) -> (r: String)
    ensures
        r@ == snake_case(s@),
{
    s.to_snake()
}

} // verus!
