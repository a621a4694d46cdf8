//! Reading numbers out of command-line text.

use vstd::prelude::*;
use vstd::string::StrSliceExecFns;

verus! {

/// Whether `c` is in one of Unicode's general categories for numbers, as
/// `char::is_numeric` decides it.
pub uninterp spec fn numeric(c: char) -> bool;

/// Calls `char::is_numeric`, which looks the character up in Unicode's
/// general categories for numbers; the result is given the name `numeric`.
#[verifier::external_body]
fn is_numeric(c: char) -> (yes: bool)
    ensures
        yes == numeric(c),
{
    c.is_numeric()
}

/// Whether `c` is one of the ten ASCII digits.
pub open spec fn is_digit(c: char) -> bool {
    '0' as u32 <= c as u32 <= '9' as u32
}

/// The number that a run of ASCII digits writes in base ten.
pub open spec fn digits_value(digits: Seq<char>) -> nat
    decreases digits.len(),
{
    if digits.len() == 0 {
        0
    } else {
        (10 * digits_value(digits.drop_last()) + (digits.last() as u32 - '0' as u32)) as nat
    }
}

/// The number that `text` writes: an optional `+`, then one or more ASCII
/// digits and nothing else, the whole no greater than `u32::MAX`.
pub open spec fn decimal_u32(text: Seq<char>) -> Option<u32> {
    let digits = if text.len() > 0 && text[0] == '+' {
        text.subrange(1, text.len() as int)
    } else {
        text
    };
    if digits.len() > 0 && (forall|i: int| 0 <= i < digits.len() ==> is_digit(digits[i]))
        && digits_value(digits) <= u32::MAX {
        Some(digits_value(digits) as u32)
    } else {
        None
    }
}

/// Calls `str::parse::<u32>`, which accepts an optional `+` followed by
/// decimal digits only and fails on an empty string, on any other
/// character and on a value beyond `u32::MAX`.
#[verifier::external_body]
pub(crate) fn parse_u32(text: &str) -> (value: Option<u32>)
    ensures
        value == decimal_u32(text@),
{
    match text.parse::<u32>() {
        Ok(number) => Some(number),
        Err(_) => None,
    }
}

/// Where the longest run of numeric characters that ends `text` begins.
pub open spec fn numeric_suffix_start(text: Seq<char>) -> int
    decreases text.len(),
{
    if text.len() > 0 && numeric(text.last()) {
        numeric_suffix_start(text.drop_last())
    } else {
        text.len() as int
    }
}

/// `text` without the numeric characters that end it.
pub open spec fn option_name(text: Seq<char>) -> Seq<char> {
    text.subrange(0, numeric_suffix_start(text))
}

/// Finds where the longest run of numeric characters that ends `text` begins.
pub fn numeric_suffix(text: &str) -> (start: usize)
    ensures
        start == numeric_suffix_start(text@),
        start <= text@.len(),
{
    let mut start: usize = text.unicode_len();
    assert(text@.subrange(0, start as int) =~= text@);
    while start > 0 && is_numeric(text.get_char(start - 1))
        invariant
            start <= text@.len(),
            numeric_suffix_start(text@) == numeric_suffix_start(text@.subrange(0, start as int)),
        decreases start,
    {
        assert(text@.subrange(0, start as int).drop_last() =~= text@.subrange(0, start - 1));
        start -= 1;
    }
    start
}

/// Tells whether two pieces of text hold the same characters.
pub fn same_text(left: &str, right: &str) -> (same: bool)
    ensures
        same == (left@ == right@),
{
    let length: usize = left.unicode_len();
    if length != right.unicode_len() {
        return false;
    }
    let mut i: usize = 0;
    while i < length
        invariant
            i <= length,
            length == left@.len(),
            length == right@.len(),
            forall|k: int| 0 <= k < i ==> left@[k] == right@[k],
        decreases length - i,
    {
        if left.get_char(i) != right.get_char(i) {
            return false;
        }
        i += 1;
    }
    assert(left@ =~= right@);
    true
}

} // verus!
