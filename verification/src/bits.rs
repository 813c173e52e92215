//! Bits of numbers, as arithmetic.

use vstd::prelude::*;

verus! {

/// The bit of that weight, a power of two, is up.
pub open spec fn bit(value: int, weight: int) -> bool {
    value / weight % 2 == 1
}

/// The weight of a bit that is up, 0 where it is down.
pub open spec fn weight_if(up: bool, weight: int) -> int {
    if up {
        weight
    } else {
        0
    }
}

/// Masking a single bit tells whether it is up.
pub proof fn law_u16_bits(v: u16)
    ensures
        v & 0x0001 != 0 <==> bit(v as int, 0x0001),
        v & 0x0002 != 0 <==> bit(v as int, 0x0002),
        v & 0x0010 != 0 <==> bit(v as int, 0x0010),
        v & 0x0020 != 0 <==> bit(v as int, 0x0020),
        v & 0x0100 != 0 <==> bit(v as int, 0x0100),
        v & 0x8000 != 0 <==> bit(v as int, 0x8000),
        v & 0x0033 == weight_if(bit(v as int, 0x01), 0x01) + weight_if(bit(v as int, 0x02), 0x02)
            + weight_if(bit(v as int, 0x10), 0x10) + weight_if(bit(v as int, 0x20), 0x20),
        v & 0x0133 == 0x0133 <==> bit(v as int, 0x01) && bit(v as int, 0x02) && bit(
            v as int,
            0x10,
        ) && bit(v as int, 0x20) && bit(v as int, 0x100),
        v & 0x0022 != 0 <==> bit(v as int, 0x02) || bit(v as int, 0x20),
        v & 0x0011 != 0 <==> bit(v as int, 0x01) || bit(v as int, 0x10),
{
    assert((v & 0x0001 != 0) == (v / 0x0001 % 2 == 1) && (v & 0x0002 != 0) == (v / 0x0002 % 2 == 1)
        && (v & 0x0010 != 0) == (v / 0x0010 % 2 == 1) && (v & 0x0020 != 0) == (v / 0x0020 % 2 == 1)
        && (v & 0x0100 != 0) == (v / 0x0100 % 2 == 1) && (v & 0x8000 != 0) == (v / 0x8000 % 2 == 1)
        && v & 0x0033 == (v / 0x01 % 2) * 0x01 + (v / 0x02 % 2) * 0x02 + (v / 0x10 % 2) * 0x10 + (v
        / 0x20 % 2) * 0x20 && (v & 0x0133 == 0x0133) == (v / 0x01 % 2 == 1 && v / 0x02 % 2 == 1 && v / 0x10 % 2 == 1
        && v / 0x20 % 2 == 1 && v / 0x0100 % 2 == 1) && (v & 0x0022 != 0) == (v / 0x02 % 2 == 1 || v
        / 0x20 % 2 == 1) && (v & 0x0011 != 0) == (v / 0x01 % 2 == 1 || v / 0x10 % 2 == 1))
        by (bit_vector);
}

/// Masking a single bit tells whether it is up.
pub proof fn law_u32_bits(v: u32)
    ensures
        v & 0x01 != 0 <==> bit(v as int, 0x01),
        v & 0x02 != 0 <==> bit(v as int, 0x02),
        v & 0x04 != 0 <==> bit(v as int, 0x04),
        v & 0x0100 != 0 <==> bit(v as int, 0x0100),
        v & 0x0800 != 0 <==> bit(v as int, 0x0800),
        v & 0x8000 != 0 <==> bit(v as int, 0x8000),
        v & 0x8000_0000 != 0 <==> bit(v as int, 0x8000_0000),
        v & 0x4300 != 0 <==> bit(v as int, 0x4000) || bit(v as int, 0x0200) || bit(
            v as int,
            0x0100,
        ),
        v & 0xFF == v % 0x100,
        v & 0xFFFF == v % 0x1_0000,
        v >> 16 == v / 0x1_0000,
        (v >> 8) & 0xFF == v / 0x100 % 0x100,
{
    assert((v & 0x01 != 0) == (v / 0x01 % 2 == 1) && (v & 0x02 != 0) == (v / 0x02 % 2 == 1) && (v
        & 0x04 != 0) == (v / 0x04 % 2 == 1) && (v & 0x0100 != 0) == (v / 0x0100 % 2 == 1) && (v
        & 0x0800 != 0) == (v / 0x0800 % 2 == 1) && (v & 0x8000 != 0) == (v / 0x8000 % 2 == 1) && (v
        & 0x8000_0000 != 0) == (v / 0x8000_0000 % 2 == 1) && (v & 0x4300 != 0) == (v / 0x4000 % 2
        == 1 || v / 0x0200 % 2 == 1 || v / 0x0100 % 2 == 1) && v & 0xFF == v % 0x100 && v & 0xFFFF
        == v % 0x1_0000 && v >> 16 == v / 0x1_0000 && (v >> 8) & 0xFF == v / 0x100 % 0x100)
        by (bit_vector);
}

/// The lower half of a number has its lower bits.
pub proof fn law_low_half_bits(v: u32)
    ensures
        ((v & 0xFFFF) as u16) == v % 0x1_0000,
        ((v >> 16) as u16) == v / 0x1_0000,
        ((v & 0xFFFF) as u16) & 0x0001 != 0 <==> bit(v as int, 0x0001),
        ((v & 0xFFFF) as u16) & 0x0002 != 0 <==> bit(v as int, 0x0002),
        ((v & 0xFFFF) as u16) & 0x0010 != 0 <==> bit(v as int, 0x0010),
        ((v & 0xFFFF) as u16) & 0x0020 != 0 <==> bit(v as int, 0x0020),
        ((v & 0xFFFF) as u16) & 0x0100 != 0 <==> bit(v as int, 0x0100),
        ((v & 0xFFFF) as u16) & 0x8000 != 0 <==> bit(v as int, 0x8000),
        ((v & 0xFFFF) as u16) & 0x0033 == weight_if(bit(v as int, 0x01), 0x01) + weight_if(
            bit(v as int, 0x02),
            0x02,
        ) + weight_if(bit(v as int, 0x10), 0x10) + weight_if(bit(v as int, 0x20), 0x20),
{
    assert(((v & 0xFFFF) as u16) == v % 0x1_0000 && ((v >> 16) as u16) == v / 0x1_0000 && (((v & 0xFFFF) as u16) & 0x0001 != 0) == (v / 0x0001 % 2 == 1) && (((v & 0xFFFF) as u16)
        & 0x0002 != 0) == (v / 0x0002 % 2 == 1) && (((v & 0xFFFF) as u16) & 0x0010 != 0) == (v
        / 0x0010 % 2 == 1) && (((v & 0xFFFF) as u16) & 0x0020 != 0) == (v / 0x0020 % 2 == 1) && (((v
        & 0xFFFF) as u16) & 0x0100 != 0) == (v / 0x0100 % 2 == 1) && (((v & 0xFFFF) as u16) & 0x8000
        != 0) == (v / 0x8000 % 2 == 1) && ((v & 0xFFFF) as u16) & 0x0033 == (v / 0x01 % 2) * 0x01 + (v / 0x02 % 2) * 0x02 + (v
        / 0x10 % 2) * 0x10 + (v / 0x20 % 2) * 0x20) by (bit_vector);
}

} // verus!
