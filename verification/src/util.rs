use vstd::prelude::*;

verus! {

/// True iff bit `pos` of `input` is set.
pub open spec fn spec_get_bit(input: u8, pos: u8) -> bool
    recommends
        pos < 8,
{
    input & (1u8 << pos) != 0
}

/// Addition of two bytes, wrapping at the page boundary.
pub open spec fn wrap_add8(a: u8, b: u8) -> u8 {
    ((a + b) % 0x100) as u8
}

/// Addition of two words, wrapping at the end of the address space.
pub open spec fn wrap_add16(a: u16, b: u16) -> u16 {
    ((a + b) % 0x10000) as u16
}

/// Subtraction of two words, wrapping at the start of the address space.
pub open spec fn wrap_sub16(a: u16, b: u16) -> u16 {
    ((a - b) % 0x10000) as u16
}

/// A branch target: `addr` moved by a sign-magnitude offset, with 16-bit
/// wraparound.  Bit 7 of `offset` is the sign, the low 7 bits the magnitude.
pub open spec fn spec_address_from_offset(addr: u16, offset: u8) -> u16 {
    let value = (offset & 0x7F) as u16;
    if spec_get_bit(offset, 7) {
        wrap_sub16(addr, value)
    } else {
        wrap_add16(addr, value)
    }
}

/// Bits 6 and 7 read through `spec_get_bit` are the 0x40 and 0x80 masks.
pub proof fn lemma_get_bit_masks(b: u8)
    ensures
        spec_get_bit(b, 7) == (b & 0x80 != 0),
        spec_get_bit(b, 6) == (b & 0x40 != 0),
{
    assert((b & (1u8 << 7) != 0) == (b & 0x80 != 0)) by (bit_vector);
    assert((b & (1u8 << 6) != 0) == (b & 0x40 != 0)) by (bit_vector);
}

/// 8-bit wraparound addition, spelled out by cases.
pub proof fn lemma_wrap_add8_cases(a: u8, b: u8)
    ensures
        wrap_add8(a, b) == if a + b <= 0xFF {
            (a + b) as u8
        } else {
            (a + b - 0x100) as u8
        },
{
    if a + b <= 0xFF {
        vstd::arithmetic::div_mod::lemma_small_mod((a + b) as nat, 0x100);
    } else {
        vstd::arithmetic::div_mod::lemma_mod_add_multiples_vanish(a + b - 0x100, 0x100);
        vstd::arithmetic::div_mod::lemma_small_mod((a + b - 0x100) as nat, 0x100);
    }
}

/// 16-bit wraparound addition, spelled out by cases.
pub proof fn lemma_wrap_add16_cases(a: u16, b: u16)
    ensures
        wrap_add16(a, b) == if a + b <= 0xFFFF {
            (a + b) as u16
        } else {
            (a + b - 0x10000) as u16
        },
{
    if a + b <= 0xFFFF {
        vstd::arithmetic::div_mod::lemma_small_mod((a + b) as nat, 0x10000);
    } else {
        vstd::arithmetic::div_mod::lemma_mod_add_multiples_vanish(a + b - 0x10000, 0x10000);
        vstd::arithmetic::div_mod::lemma_small_mod((a + b - 0x10000) as nat, 0x10000);
    }
}

/// 16-bit wraparound subtraction, spelled out by cases.
pub proof fn lemma_wrap_sub16_cases(a: u16, b: u16)
    ensures
        wrap_sub16(a, b) == if a - b >= 0 {
            (a - b) as u16
        } else {
            (a - b + 0x10000) as u16
        },
{
    if a - b >= 0 {
        vstd::arithmetic::div_mod::lemma_small_mod((a - b) as nat, 0x10000);
    } else {
        vstd::arithmetic::div_mod::lemma_mod_add_multiples_vanish(a - b, 0x10000);
        vstd::arithmetic::div_mod::lemma_small_mod((a - b + 0x10000) as nat, 0x10000);
    }
}

pub fn get_bit_at(input: u8, pos: u8) -> (r: bool)
    requires
        pos < 8,
    ensures
        r == spec_get_bit(input, pos),
{
    input & (1u8 << pos) != 0
}

pub fn get_address_from_offset(addr: u16, offset: u8) -> (r: u16)
    ensures
        r == spec_address_from_offset(addr, offset),
{
    let value = offset & 0b0111_1111;

    if get_bit_at(offset, 7) {
        addr.wrapping_sub(value as u16)
    } else {
        addr.wrapping_add(value as u16)
    }
}

} // verus!
