//! Memory-mapped I/O operations.
//!
//! The drivers in this library compute which registers to touch and with
//! which values; the volatile accesses themselves are performed by the
//! surrounding program. A [`MmioWrite`] names one such access: the offset
//! of a register from [`MMIO_BASE`] and the value to store there.

use vstd::prelude::*;

verus! {

/// MMIO base address: peripheral registers live at offsets from here.
pub const MMIO_BASE: usize = 0x3f00_0000;

/// A single register write: `value` is to be stored into the register at
/// offset `reg` from the MMIO base address.
#[derive(Debug, Copy, Clone, PartialEq, Eq, Structural)]
pub struct MmioWrite {
    /// Offset of the register from the MMIO base address.
    pub reg: usize,

    /// Value to write.
    pub value: u32,
}

/// Whether bit `b` of `x` is set.
pub open spec fn bit32(x: u32, b: u32) -> bool
    recommends
        b < 32,
{
    x & (1u32 << b) != 0
}

/// Whether bit `b` of `x` is set.
pub open spec fn bit64(x: u64, b: u64) -> bool
    recommends
        b < 64,
{
    x & (1u64 << b) != 0
}

/// Setting one bit leaves every other bit alone.
pub proof fn lemma_bit32_or(x: u32, b: u32, c: u32)
    requires
        b < 32,
        c < 32,
    ensures
        bit32(x | (1u32 << b), c) == (bit32(x, c) || b == c),
{
    assert((b < 32 && c < 32) ==> (((x | (1u32 << b)) & (1u32 << c) != 0) == ((x & (1u32
        << c) != 0) || b == c))) by (bit_vector);
}

/// No bit of zero is set.
pub proof fn lemma_bit32_zero(c: u32)
    requires
        c < 32,
    ensures
        !bit32(0, c),
{
    assert(c < 32 ==> (0u32 & (1u32 << c) == 0)) by (bit_vector);
}

/// Setting one bit of a 64-bit register leaves every other bit alone.
pub proof fn lemma_bit64_or(x: u64, b: u64, c: u64)
    requires
        b < 64,
        c < 64,
    ensures
        bit64(x | (1u64 << b), c) == (bit64(x, c) || b == c),
{
    assert((b < 64 && c < 64) ==> (((x | (1u64 << b)) & (1u64 << c) != 0) == ((x & (1u64
        << c) != 0) || b == c))) by (bit_vector);
}

/// Clearing one bit of a 64-bit register leaves every other bit alone.
pub proof fn lemma_bit64_and_not(x: u64, b: u64, c: u64)
    requires
        b < 64,
        c < 64,
    ensures
        bit64(x & !(1u64 << b), c) == (bit64(x, c) && b != c),
{
    assert((b < 64 && c < 64) ==> (((x & !(1u64 << b)) & (1u64 << c) != 0) == ((x & (1u64
        << c) != 0) && b != c))) by (bit_vector);
}

} // verus!
