//! Handling of transient text and image items: truncation, the
//! whitespace-only test, the image data-URI test, and the deterministic
//! derivation of a falling item's horizontal position.

use vstd::prelude::*;
use vstd::string::StrSliceExecFns;
use vstd::string::StringSliceAdditionalSpecFns;
use vstd::string::StringExecFns;

verus! {

/// Longest text a falling item may carry, in characters.
pub const MAX_TEXT_CHARS: usize = 50;

/// A character with the Unicode `White_Space` property.
pub open spec fn is_space_char(c: char) -> bool {
    let v = c as u32;
    ||| (0x09 <= v && v <= 0x0D)
    ||| v == 0x20
    ||| v == 0x85
    ||| v == 0xA0
    ||| v == 0x1680
    ||| (0x2000 <= v && v <= 0x200A)
    ||| v == 0x2028
    ||| v == 0x2029
    ||| v == 0x202F
    ||| v == 0x205F
    ||| v == 0x3000
}

/// A text that is empty or made of whitespace only.
pub open spec fn is_blank_text(s: Seq<char>) -> bool {
    forall|i: int| 0 <= i < s.len() ==> is_space_char(#[trigger] s[i])
}

/// The text kept after truncation: the first `max` characters.
pub open spec fn truncated(s: Seq<char>, max: int) -> Seq<char> {
    if s.len() > max {
        s.subrange(0, max)
    } else {
        s
    }
}

fn space_char(c: char) -> (r: bool)
    ensures
        r == is_space_char(c),
{
    let v = c as u32;
    (0x09 <= v && v <= 0x0D) || v == 0x20 || v == 0x85 || v == 0xA0 || v == 0x1680 || (0x2000 <= v
        && v <= 0x200A) || v == 0x2028 || v == 0x2029 || v == 0x202F || v == 0x205F || v == 0x3000
}

/// Decides whether `text` is empty or whitespace-only.
pub fn is_blank(text: &str) -> (r: bool)
    ensures
        r == is_blank_text(text@),
{
    let n = text.unicode_len();
    let mut i: usize = 0;
    while i < n
        invariant
            i <= n,
            n == text@.len(),
            forall|j: int| 0 <= j < i ==> is_space_char(#[trigger] text@[j]),
        decreases n - i,
    {
        if !space_char(text.get_char(i)) {
            return false;
        }
        i = i + 1;
    }
    true
}

/// Keeps the first `MAX_TEXT_CHARS` characters of `text`, counted by
/// character rather than by byte.
pub fn truncate_text(text: &str) -> (r: String)
    ensures
        r@ == truncated(text@, MAX_TEXT_CHARS as int),
{
    let n = text.unicode_len();
    if n > MAX_TEXT_CHARS {
        String::from_str(text.substring_char(0, MAX_TEXT_CHARS))
    } else {
        text.to_owned()
    }
}

/// The data-URI prefix that an accepted image payload must declare.
pub open spec fn image_prefix() -> Seq<char> {
    "data:image/"@
}

/// The payload declares an image data-URI.
pub open spec fn is_image_payload(s: Seq<char>) -> bool {
    s.len() >= 11 && s.subrange(0, 11) == image_prefix()
}

/// Decides whether `data` starts with the image data-URI prefix.
pub fn has_image_prefix(data: &str) -> (r: bool)
    ensures
        r == is_image_payload(data@),
{
    let prefix = "data:image/";
    proof {
        reveal_strlit("data:image/");
    }
    let n = data.unicode_len();
    if n < 11 {
        return false;
    }
    let mut i: usize = 0;
    while i < 11
        invariant
            i <= 11,
            data@.len() >= 11,
            prefix@ == image_prefix(),
            prefix@.len() == 11,
            forall|j: int| 0 <= j < i ==> data@[j] == image_prefix()[j],
        decreases 11 - i,
    {
        proof {
            reveal_strlit("data:image/");
        }
        if data.get_char(i) != prefix.get_char(i) {
            proof {
                assert(data@.subrange(0, 11)[i as int] != image_prefix()[i as int]);
            }
            return false;
        }
        i = i + 1;
    }
    proof {
        assert(data@.subrange(0, 11) =~= image_prefix());
    }
    true
}

/// Sum of the identity's bytes, wrapping as a 32-bit accumulator.
pub open spec fn byte_sum(s: Seq<u8>) -> u32
    decreases s.len(),
{
    if s.len() == 0 {
        0u32
    } else {
        let a = byte_sum(s.drop_last());
        let b = s.last();
        if a + b > u32::MAX {
            (a + b - 0x1_0000_0000) as u32
        } else {
            (a + b) as u32
        }
    }
}

/// The horizontal position of a falling item, as a percentage in
/// `[0, 100)`, derived deterministically from the session identity and
/// the current time.
pub open spec fn spec_x_percent(id_bytes: Seq<u8>, now: u64) -> u64 {
    ((((byte_sum(id_bytes) % 100) + (now % 100)) % 100) as u64)
}

/// Derives the horizontal position for a falling item.
pub fn x_percent_for(user_id: &str, now: u64) -> (r: u64)
    ensures
        r == spec_x_percent(user_id.spec_bytes(), now),
        r < 100,
{
    let bytes = user_id.as_bytes();
    let mut sum: u32 = 0;
    let mut i: usize = 0;
    while i < bytes.len()
        invariant
            i <= bytes@.len(),
            bytes@ == user_id.spec_bytes(),
            sum == byte_sum(bytes@.subrange(0, i as int)),
        decreases bytes@.len() - i,
    {
        let b = bytes[i];
        proof {
            assert(bytes@.subrange(0, i + 1).drop_last() =~= bytes@.subrange(0, i as int));
            assert(bytes@.subrange(0, i + 1).last() == b);
        }
        sum = sum.wrapping_add(b as u32);
        i = i + 1;
    }
    proof {
        assert(bytes@.subrange(0, bytes@.len() as int) =~= bytes@);
    }
    ((sum % 100) as u64 + now % 100) % 100
}

} // verus!
