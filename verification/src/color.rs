//! Validation of cell colors: a color is the character `#` followed by
//! exactly six hexadecimal digits.

use vstd::prelude::*;

verus! {

/// One of the sixteen hexadecimal digits, in either case.
pub open spec fn is_hex_digit(c: char) -> bool {
    let v = c as u32;
    (0x30 <= v && v <= 0x39)  // '0' ..= '9'
    || (0x41 <= v && v <= 0x46)  // 'A' ..= 'F'
    || (0x61 <= v && v <= 0x66)  // 'a' ..= 'f'
}

/// A well-formed color: `#` followed by exactly six hex digits.
pub open spec fn valid_color(s: Seq<char>) -> bool {
    &&& s.len() == 7
    &&& s[0] == '#'
    &&& forall|i: int| 1 <= i < 7 ==> is_hex_digit(#[trigger] s[i])
}

/// Every character of a well-formed color is ASCII.
pub proof fn lemma_valid_color_ascii(s: Seq<char>)
    requires
        valid_color(s),
    ensures
        forall|i: int| 0 <= i < s.len() ==> ((#[trigger] s[i]) as u32) < 128,
{
}

fn hex_digit(c: char) -> (r: bool)
    ensures
        r == is_hex_digit(c),
{
    let v = c as u32;
    (0x30 <= v && v <= 0x39) || (0x41 <= v && v <= 0x46) || (0x61 <= v && v <= 0x66)
}

/// Decides whether `color` is `#` followed by exactly six hex digits.
pub fn is_valid_hex_color(color: &str) -> (r: bool)
    ensures
        r == valid_color(color@),
{
    let n = color.unicode_len();
    if n != 7 {
        return false;
    }
    if color.get_char(0) != '#' {
        return false;
    }
    let mut i: usize = 1;
    while i < 7
        invariant
            1 <= i <= 7,
            color@.len() == 7,
            color@[0] == '#',
            forall|j: int| 1 <= j < i ==> is_hex_digit(#[trigger] color@[j]),
        decreases 7 - i,
    {
        if !hex_digit(color.get_char(i)) {
            return false;
        }
        i = i + 1;
    }
    true
}

} // verus!
