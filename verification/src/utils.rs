//! Small helpers shared by the drivers: bit-field updates, byte fills and
//! string lengths.

use vstd::prelude::*;
use vstd::string::*;

verus! {

/// The mask with the low `width` bits set.
pub open spec fn low_mask(width: u32) -> u32
    recommends
        width < 32,
{
    ((1u32 << width) - 1) as u32
}

/// `field` with the `width` bits starting at bit `offset` cleared and `value`,
/// shifted to `offset`, or-ed in.
pub open spec fn with_bits(field: u32, offset: u32, width: u32, value: u32) -> u32
    recommends
        offset < 32,
        width < 32,
{
    (field & !(low_mask(width) << offset)) | (value << offset)
}

/// Replaces the bit field of `width` bits at bit `offset` of `field` by `value`.
///
/// `value` is not masked: bits of it above `width` land in the neighbouring
/// fields, as `with_bits` says.
pub fn set_bits_with_offset(field: u32, offset: u32, width: u32, value: u32) -> (r: u32)
    requires
        offset < 32,
        width < 32,
    ensures
        r == with_bits(field, offset, width, value),
{
    assert((1u32 << width) >= 1u32) by (bit_vector)
        requires
            width < 32,
    ;
    let mask: u32 = (1u32 << width) - 1;
    let temp: u32 = field & !(mask << offset);
    temp | (value << offset)
}

/// A value that fits the field is read back unchanged from the updated word.
pub proof fn lemma_with_bits_reads_back(field: u32, offset: u32, width: u32, value: u32)
    requires
        offset < 32,
        width < 32,
        offset + width <= 32,
        value <= low_mask(width),
    ensures
        (with_bits(field, offset, width, value) >> offset) & low_mask(width) == value,
{
    let m = low_mask(width);
    assert((1u32 << width) >= 1u32) by (bit_vector)
        requires
            width < 32,
    ;
    assert(((((field & !(m << offset)) | (value << offset)) >> offset) & m) == value)
        by (bit_vector)
        requires
            width < 32,
            offset + width <= 32,
            m == (1u32 << width) - 1,
            value <= m,
    ;
}

/// A value that fits the field leaves every bit outside the field as it was.
pub proof fn lemma_with_bits_keeps_rest(field: u32, offset: u32, width: u32, value: u32)
    requires
        offset < 32,
        width < 32,
        offset + width <= 32,
        value <= low_mask(width),
    ensures
        with_bits(field, offset, width, value) & !(low_mask(width) << offset) == field & !(
        low_mask(width) << offset),
{
    let m = low_mask(width);
    assert((1u32 << width) >= 1u32) by (bit_vector)
        requires
            width < 32,
    ;
    assert((((field & !(m << offset)) | (value << offset)) & !(m << offset)) == (field & !(m
        << offset))) by (bit_vector)
        requires
            width < 32,
            offset + width <= 32,
            m == (1u32 << width) - 1,
            value <= m,
    ;
}

/// The low eight bits of `c`, the byte that a fill with `c` writes.
pub open spec fn fill_byte(c: i32) -> u8 {
    c as u8
}

/// Sets the first `n` bytes of `s` to the low eight bits of `c` and leaves the
/// rest as it was.
pub fn memset(s: &mut [u8], c: i32, n: usize)
    requires
        n <= old(s)@.len(),
    ensures
        final(s)@.len() == old(s)@.len(),
        forall|i: int| 0 <= i < n ==> final(s)@[i] == fill_byte(c),
        forall|i: int| n <= i < old(s)@.len() ==> final(s)@[i] == old(s)@[i],
{
    let byte: u8 = #[verifier::truncate]
    (c as u8);
    let mut i: usize = 0;
    while i < n
        invariant
            i <= n <= s@.len(),
            s@.len() == old(s)@.len(),
            byte == fill_byte(c),
            forall|k: int| 0 <= k < i ==> s@[k] == byte,
            forall|k: int| i <= k < s@.len() ==> s@[k] == old(s)@[k],
        decreases n - i,
    {
        s[i] = byte;
        i += 1;
    }
}

/// A fill value between 0 and 255 is written as it is.
pub proof fn lemma_fill_byte_in_range(c: i32)
    requires
        0 <= c < 256,
    ensures
        fill_byte(c) == c,
{
    assert(0 <= c < 256 ==> (c as u8) == c) by (bit_vector);
}

/// Length of `s` in bytes; for text that is all ASCII, the number of its
/// characters.
pub fn strlen(s: &str) -> (r: usize)
    ensures
        r == s.spec_bytes().len(),
        is_ascii(s) ==> r == s@.len(),
{
    proof {
        is_ascii_spec_bytes(s);
    }
    s.as_bytes().len()
}

} // verus!
