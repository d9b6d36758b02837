//! Bit-field access through the `bit_field` crate.
use vstd::prelude::*;
use bit_field::BitField;

verus! {

/// The `n` low bits set, as a `u16` (`0 < n < 16`).
pub open spec fn mask16(n: u16) -> u16 {
    ((1u16 << n) - 1u16) as u16
}

/// The `n` low bits set, as a `u32` (`0 < n < 32`).
pub open spec fn mask32(n: u32) -> u32 {
    ((1u32 << n) - 1u32) as u32
}

/// `BitField::get_bit` on a `u8`: whether bit `bit` is set.
#[verifier::external_body]
pub(crate) fn u8_get_bit(x: u8, bit: u8) -> (r: bool)
    requires
        bit < 8,
    ensures
        r == (x & (1u8 << bit) != 0),
{
    x.get_bit(bit as usize)
}

/// `BitField::get_bit` on a `u16`: whether bit `bit` is set.
#[verifier::external_body]
pub(crate) fn u16_get_bit(x: u16, bit: u16) -> (r: bool)
    requires
        bit < 16,
    ensures
        r == (x & (1u16 << bit) != 0),
{
    x.get_bit(bit as usize)
}

/// `BitField::set_bit` on a `u16`: sets bit `bit` to `value`, leaving the
/// others.
#[verifier::external_body]
pub(crate) fn u16_set_bit(x: &mut u16, bit: u16, value: bool)
    requires
        bit < 16,
    ensures
        *final(x) == if value { *old(x) | (1u16 << bit) } else { *old(x) & !(1u16 << bit) },
{
    x.set_bit(bit as usize, value);
}

/// `BitField::get_bits` on a `u16`: bits `lo..hi` moved down to bit 0.
#[verifier::external_body]
pub(crate) fn u16_get_bits(x: u16, lo: u16, hi: u16) -> (r: u16)
    requires
        lo < hi,
        hi - lo < 16,
        hi <= 16,
    ensures
        r == (x >> lo) & mask16((hi - lo) as u16),
{
    x.get_bits(lo as usize..hi as usize)
}

/// `BitField::set_bits` on a `u16`: replaces bits `lo..hi` with `value`,
/// which must fit in them.
#[verifier::external_body]
pub(crate) fn u16_set_bits(x: &mut u16, lo: u16, hi: u16, value: u16)
    requires
        lo < hi,
        hi - lo < 16,
        hi <= 16,
        value <= mask16((hi - lo) as u16),
    ensures
        *final(x) == (*old(x) & !(mask16((hi - lo) as u16) << lo)) | (value << lo),
{
    x.set_bits(lo as usize..hi as usize, value);
}

/// `BitField::get_bit` on a `u32`: whether bit `bit` is set.
#[verifier::external_body]
pub(crate) fn u32_get_bit(x: u32, bit: u32) -> (r: bool)
    requires
        bit < 32,
    ensures
        r == (x & (1u32 << bit) != 0),
{
    x.get_bit(bit as usize)
}

/// `BitField::set_bit` on a `u32`: sets bit `bit` to `value`, leaving the
/// others.
#[verifier::external_body]
pub(crate) fn u32_set_bit(x: &mut u32, bit: u32, value: bool)
    requires
        bit < 32,
    ensures
        *final(x) == if value { *old(x) | (1u32 << bit) } else { *old(x) & !(1u32 << bit) },
{
    x.set_bit(bit as usize, value);
}

/// `BitField::get_bits` on a `u32`: bits `lo..hi` moved down to bit 0.
#[verifier::external_body]
pub(crate) fn u32_get_bits(x: u32, lo: u32, hi: u32) -> (r: u32)
    requires
        lo < hi,
        hi - lo < 32,
        hi <= 32,
    ensures
        r == (x >> lo) & mask32((hi - lo) as u32),
{
    x.get_bits(lo as usize..hi as usize)
}

/// `BitField::set_bits` on a `u32`: replaces bits `lo..hi` with `value`,
/// which must fit in them.
#[verifier::external_body]
pub(crate) fn u32_set_bits(x: &mut u32, lo: u32, hi: u32, value: u32)
    requires
        lo < hi,
        hi - lo < 32,
        hi <= 32,
        value <= mask32((hi - lo) as u32),
    ensures
        *final(x) == (*old(x) & !(mask32((hi - lo) as u32) << lo)) | (value << lo),
{
    x.set_bits(lo as usize..hi as usize, value);
}

} // verus!
