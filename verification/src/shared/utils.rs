use crate::shared::text::chars_of;
use vstd::prelude::*;

verus! {

/// True for the letters `a` to `z` and `A` to `Z` and for the underscore.
pub open spec fn spec_is_alpha_char(c: char) -> bool {
    ('a' <= c <= 'z') || ('A' <= c <= 'Z') || c == '_'
}

/// True for the digits `0` to `9`.
pub open spec fn spec_is_digit(c: char) -> bool {
    '0' <= c <= '9'
}

/// True when `s` is not empty and made of letters and underscores alone.
pub open spec fn spec_is_alpha(s: Seq<char>) -> bool {
    s.len() > 0 && forall|i: int| 0 <= i < s.len() ==> spec_is_alpha_char(#[trigger] s[i])
}

/// Whether the standard library counts `c` as numeric: the decimal digits,
/// and the letter-like and other numerals of other scripts.
pub uninterp spec fn char_is_numeric(c: char) -> bool;

/// True when `c` is numeric: of the ASCII characters the digits `0` to `9`
/// and no other; of the others those that the standard library counts as
/// numeric.
pub open spec fn spec_is_numeric_char(c: char) -> bool {
    if c <= '\x7f' {
        spec_is_digit(c)
    } else {
        char_is_numeric(c)
    }
}

/// True when `s` is not empty and made of numeric characters alone.
pub open spec fn spec_is_numeric(s: Seq<char>) -> bool {
    s.len() > 0 && forall|i: int| 0 <= i < s.len() ==> spec_is_numeric_char(#[trigger] s[i])
}

/// A word of letters and underscores is not numeric.
pub proof fn lemma_alpha_not_numeric(s: Seq<char>)
    requires
        spec_is_alpha(s),
    ensures
        !spec_is_numeric(s),
{
    assert(spec_is_alpha_char(s[0]));
    assert(!spec_is_numeric_char(s[0]));
}

/// A word of decimal digits is numeric.
pub proof fn lemma_digits_numeric(s: Seq<char>)
    requires
        s.len() > 0,
        forall|i: int| 0 <= i < s.len() ==> spec_is_digit(#[trigger] s[i]),
    ensures
        spec_is_numeric(s),
{
    assert forall|i: int| 0 <= i < s.len() implies spec_is_numeric_char(#[trigger] s[i]) by {
        assert(spec_is_digit(s[i]));
    }
}

/// `char::is_numeric` of the standard library. The contract names its
/// result and claims one thing of it: that an ASCII character is numeric
/// exactly when it is a decimal digit. The function is documented to go by
/// the general categories of numbers in Unicode, and of the ASCII
/// characters only the ten digits are in one of them.
#[verifier::external_body]
fn is_numeric_char(c: char) -> (b: bool)
    ensures
        b == char_is_numeric(c),
        c <= '\x7f' ==> b == spec_is_digit(c),
{
    c.is_numeric()
}

/// True when `s` is not empty and made of letters and underscores alone.
pub fn is_alpha(s: &str) -> (b: bool)
    ensures
        b == spec_is_alpha(s@),
{
    let chars = chars_of(s);
    if chars.len() == 0 {
        return false;
    }
    let mut i: usize = 0;
    while i < chars.len()
        invariant
            chars@ == s@,
            0 <= i <= chars@.len(),
            forall|k: int| 0 <= k < i ==> spec_is_alpha_char(#[trigger] chars@[k]),
        decreases chars@.len() - i,
    {
        let c = chars[i];
        if !(('a' <= c && c <= 'z') || ('A' <= c && c <= 'Z') || c == '_') {
            assert(!spec_is_alpha_char(s@[i as int]));
            return false;
        }
        i += 1;
    }
    true
}

/// True when `s` is not empty and made of numeric characters alone.
pub fn is_numeric(s: &str) -> (b: bool)
    ensures
        b == spec_is_numeric(s@),
{
    let chars = chars_of(s);
    if chars.len() == 0 {
        return false;
    }
    let mut i: usize = 0;
    while i < chars.len()
        invariant
            chars@ == s@,
            0 <= i <= chars@.len(),
            forall|k: int| 0 <= k < i ==> spec_is_numeric_char(#[trigger] chars@[k]),
        decreases chars@.len() - i,
    {
        if !is_numeric_char(chars[i]) {
            assert(!spec_is_numeric_char(s@[i as int]));
            return false;
        }
        i += 1;
    }
    true
}

/// The value of the decimal digits `s`, read from the left.
pub open spec fn spec_digits_value(s: Seq<char>) -> nat
    decreases s.len(),
{
    if s.len() == 0 {
        0
    } else {
        (10 * spec_digits_value(s.drop_last()) + (s.last() as u32 - '0' as u32)) as nat
    }
}

/// True when `s` is not empty and made of the digits `0` to `9` alone.
pub open spec fn spec_is_digits(s: Seq<char>) -> bool {
    s.len() > 0 && forall|i: int| 0 <= i < s.len() ==> spec_is_digit(#[trigger] s[i])
}

/// The whole number that `s` writes in decimal digits, where it is at most
/// 2147483647; `None` for any other text.
pub fn digits_value(s: &str) -> (v: Option<u32>)
    ensures
        match v {
            Some(n) => spec_is_digits(s@) && n == spec_digits_value(s@) && n <= i32::MAX,
            None => !spec_is_digits(s@) || spec_digits_value(s@) > i32::MAX,
        },
{
    let chars = chars_of(s);
    if chars.len() == 0 {
        return None;
    }
    let mut total: u64 = 0;
    let mut over = false;
    let mut i: usize = 0;
    while i < chars.len()
        invariant
            chars@ == s@,
            0 <= i <= chars@.len(),
            forall|k: int| 0 <= k < i ==> spec_is_digit(#[trigger] chars@[k]),
            !over ==> total == spec_digits_value(chars@.take(i as int)),
            over ==> spec_digits_value(chars@.take(i as int)) > i32::MAX,
            total <= i32::MAX,
        decreases chars@.len() - i,
    {
        let c = chars[i];
        if !('0' <= c && c <= '9') {
            assert(!spec_is_digit(s@[i as int]));
            return None;
        }
        proof {
            assert(chars@.take(i + 1).drop_last() == chars@.take(i as int));
        }
        if !over {
            let next = 10 * total + (c as u32 - '0' as u32) as u64;
            if next > i32::MAX as u64 {
                over = true;
            } else {
                total = next;
            }
        }
        i += 1;
    }
    assert(chars@.take(chars@.len() as int) == chars@);
    if over {
        None
    } else {
        Some(total as u32)
    }
}

} // verus!
