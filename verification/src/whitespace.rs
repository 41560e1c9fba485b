//! Which characters count as whitespace, and which strings carry whitespace at
//! one of their ends.

use vstd::prelude::*;

verus! {

/// The code points with the Unicode property `White_Space`.
pub open spec fn is_whitespace_char(c: char) -> bool {
    let n = c as u32;
    ||| 0x09 <= n <= 0x0D
    ||| n == 0x20
    ||| n == 0x85
    ||| n == 0xA0
    ||| n == 0x1680
    ||| 0x2000 <= n <= 0x200A
    ||| n == 0x2028
    ||| n == 0x2029
    ||| n == 0x202F
    ||| n == 0x205F
    ||| n == 0x3000
}

/// A text has outer whitespace when it is not empty and its first or its last
/// character is whitespace. What lies between the two ends plays no part.
pub open spec fn has_outer_whitespace(text: Seq<char>) -> bool {
    text.len() > 0 && (is_whitespace_char(text.first()) || is_whitespace_char(text.last()))
}

/// Tells whether `c` is a whitespace character.
pub fn is_whitespace(c: char) -> (result: bool)
    ensures
        result == is_whitespace_char(c),
{
    let n: u32 = c as u32;
    (0x09 <= n && n <= 0x0D) || n == 0x20 || n == 0x85 || n == 0xA0 || n == 0x1680 || (0x2000 <= n
        && n <= 0x200A) || n == 0x2028 || n == 0x2029 || n == 0x202F || n == 0x205F || n == 0x3000
}

/// Tells whether `value` starts or ends with whitespace.
pub fn starts_or_ends_with_whitespace(value: &str) -> (result: bool)
    ensures
        result == has_outer_whitespace(value@),
{
    let length: usize = value.unicode_len();
    if length == 0 {
        false
    } else {
        is_whitespace(value.get_char(0)) || is_whitespace(value.get_char(length - 1))
    }
}

} // verus!
