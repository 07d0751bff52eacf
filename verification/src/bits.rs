//! Fields of bits inside integers, by way of the `bit_field` crate.

use vstd::prelude::*;
use bit_field::BitField;

verus! {

/// The 32-bit word whose bits `start` to `end - 1` are set.
pub open spec fn mask_u32(start: u32, end: u32) -> u32 {
    (0xffff_ffffu32 >> ((32 - (end - start)) as u32)) << start
}

/// `value` with its bits `start` to `end - 1` replaced by `field`.
pub open spec fn with_bits_u32(value: u32, start: u32, end: u32, field: u32) -> u32 {
    (value & !mask_u32(start, end)) | (field << start)
}

/// `field` has no bit set above its lowest `width` bits.
pub open spec fn fits_u32(field: u32, width: u32) -> bool {
    width >= 32 || field >> width == 0
}

/// `value` with bit `bit` set to `on`.
pub open spec fn with_bit_u32(value: u32, bit: u32, on: bool) -> u32 {
    if on {
        value | (1u32 << bit)
    } else {
        value & !(1u32 << bit)
    }
}

/// The 16-bit word whose bits `start` to `end - 1` are set.
pub open spec fn mask_u16(start: u16, end: u16) -> u16 {
    (0xffffu16 >> ((16 - (end - start)) as u16)) << start
}

/// `value` with its bits `start` to `end - 1` replaced by `field`.
pub open spec fn with_bits_u16(value: u16, start: u16, end: u16, field: u16) -> u16 {
    (value & !mask_u16(start, end)) | (field << start)
}

/// `field` has no bit set above its lowest `width` bits.
pub open spec fn fits_u16(field: u16, width: u16) -> bool {
    width >= 16 || field >> width == 0
}

/// `value` with bit `bit` set to `on`.
pub open spec fn with_bit_u16(value: u16, bit: u16, on: bool) -> u16 {
    if on {
        value | (1u16 << bit)
    } else {
        value & !(1u16 << bit)
    }
}

/// Bits `start` to `end - 1` of `value`, moved down to bit 0.
pub open spec fn bits_u16(value: u16, start: u16, end: u16) -> u16 {
    (value & mask_u16(start, end)) >> start
}

/// Calls `BitField::set_bits` on a `u32`. The contract claims what the
/// crate documents: the bits of the range take the value of `field`, the
/// others stay. The crate panics for a range outside the word and for a
/// field that does not fit the range, which `requires` leaves out.
#[verifier::external_body]
pub(crate) fn set_bits_u32(value: u32, start: usize, end: usize, field: u32) -> (result: u32)
    requires
        start < end <= 32,
        fits_u32(field, (end - start) as u32),
    ensures
        result == with_bits_u32(value, start as u32, end as u32, field),
{
    let mut word = value;
    word.set_bits(start..end, field);
    word
}

/// Calls `BitField::set_bit` on a `u32`. The contract claims what the
/// crate documents: the bit takes the value asked for, the others stay.
/// The crate panics for a bit outside the word.
#[verifier::external_body]
pub(crate) fn set_bit_u32(value: u32, bit: usize, on: bool) -> (result: u32)
    requires
        bit < 32,
    ensures
        result == with_bit_u32(value, bit as u32, on),
{
    let mut word = value;
    word.set_bit(bit, on);
    word
}

/// Calls `BitField::set_bits` on a `u16`; see [`set_bits_u32`].
#[verifier::external_body]
pub(crate) fn set_bits_u16(value: u16, start: usize, end: usize, field: u16) -> (result: u16)
    requires
        start < end <= 16,
        fits_u16(field, (end - start) as u16),
    ensures
        result == with_bits_u16(value, start as u16, end as u16, field),
{
    let mut word = value;
    word.set_bits(start..end, field);
    word
}

/// Calls `BitField::set_bit` on a `u16`; see [`set_bit_u32`].
#[verifier::external_body]
pub(crate) fn set_bit_u16(value: u16, bit: usize, on: bool) -> (result: u16)
    requires
        bit < 16,
    ensures
        result == with_bit_u16(value, bit as u16, on),
{
    let mut word = value;
    word.set_bit(bit, on);
    word
}

/// Calls `BitField::get_bits` on a `u16`. The contract claims what the
/// crate documents: the bits of the range, moved down to bit 0. The crate
/// panics for a range outside the word.
#[verifier::external_body]
pub(crate) fn get_bits_u16(value: u16, start: usize, end: usize) -> (result: u16)
    requires
        start < end <= 16,
    ensures
        result == bits_u16(value, start as u16, end as u16),
{
    value.get_bits(start..end)
}

/// Calls `BitField::get_bit` on a `u16`. The contract claims what the
/// crate documents: whether the bit is set. The crate panics for a bit
/// outside the word.
#[verifier::external_body]
pub(crate) fn get_bit_u16(value: u16, bit: usize) -> (result: bool)
    requires
        bit < 16,
    ensures
        result == (value & (1u16 << (bit as u16)) != 0),
{
    value.get_bit(bit)
}

} // verus!
