//! Classification of characters as Han ideographs by code-point block.

use vstd::prelude::*;

verus! {

/// Whether the code point `c` lies in one of the ideograph blocks: the CJK
/// Unified Ideographs block, its extensions A to H, or the CJK Compatibility
/// Ideographs Supplement. Each block is an inclusive range.
pub open spec fn is_han_code_point(c: int) -> bool {
    ||| 0x3400 <= c <= 0x4DBF
    ||| 0x4E00 <= c <= 0x9FFF
    ||| 0x20000 <= c <= 0x2A6DF
    ||| 0x2A700 <= c <= 0x2B73F
    ||| 0x2B740 <= c <= 0x2B81F
    ||| 0x2B820 <= c <= 0x2CEAF
    ||| 0x2CEB0 <= c <= 0x2EBEF
    ||| 0x2F800 <= c <= 0x2FA1F
    ||| 0x30000 <= c <= 0x3134F
    ||| 0x31350 <= c <= 0x323AF
}

/// Decides whether `c` is a Han ideograph, by range membership alone.
#[must_use]
pub fn is_chinese_character(c: &char) -> (r: bool)
    ensures
        r == is_han_code_point(*c as int),
{
    let c: u32 = *c as u32;
    c >= 0x3400 && c <= 0x4DBF  // Extension A
     || c >= 0x4E00 && c <= 0x9FFF  // Unified Ideographs
     || c >= 0x20000 && c <= 0x2A6DF  // Extension B
     || c >= 0x2A700 && c <= 0x2B73F  // Extension C
     || c >= 0x2B740 && c <= 0x2B81F  // Extension D
     || c >= 0x2B820 && c <= 0x2CEAF  // Extension E
     || c >= 0x2CEB0 && c <= 0x2EBEF  // Extension F
     || c >= 0x2F800 && c <= 0x2FA1F  // Compatibility Ideographs Supplement
     || c >= 0x30000 && c <= 0x3134F  // Extension G
     || c >= 0x31350 && c <= 0x323AF  // Extension H
}

} // verus!
