//! Byte arithmetic with the carry, borrow and shift flags of the instruction set.

use vstd::prelude::*;

verus! {

/// Adds two bytes; returns the sum modulo 256 and the carry flag.
pub fn add_carry(a: u8, b: u8) -> (r: (u8, u8))
    ensures
        r.0 == (a + b) % 256,
        r.1 == if a + b > 255 { 1u8 } else { 0u8 },
{
    let sum: u16 = a as u16 + b as u16;
    if sum > 255 {
        ((sum - 256) as u8, 1)
    } else {
        (sum as u8, 0)
    }
}

/// Subtracts `b` from `a`; returns the difference modulo 256 and the
/// not-borrow flag (1 when `a >= b`).
pub fn sub_borrow(a: u8, b: u8) -> (r: (u8, u8))
    ensures
        r.0 == (a - b) % 256,
        r.1 == if a >= b { 1u8 } else { 0u8 },
{
    if a >= b {
        (a - b, 1)
    } else {
        (255 - (b - a) + 1, 0)
    }
}

/// Shifts a byte right by one; returns the shifted value and the bit shifted out.
pub fn shift_right(v: u8) -> (r: (u8, u8))
    ensures
        r.0 == v >> 1,
        r.1 == v & 1,
        r.0 == v / 2,
        r.1 == v % 2,
{
    assert(v >> 1 == v / 2 && v & 1 == v % 2) by (bit_vector);
    (v >> 1, v & 1)
}

/// Shifts a byte left by one, dropping the top bit; returns the shifted
/// value and the bit shifted out.
pub fn shift_left(v: u8) -> (r: (u8, u8))
    ensures
        r.0 == (2 * v) % 256,
        r.1 == v / 128,
        r.1 == v >> 7,
{
    assert(v << 1 == (2 * v) % 256 && v >> 7 == v / 128) by (bit_vector);
    (v << 1, v >> 7)
}

} // verus!
