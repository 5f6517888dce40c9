//! Bit numbering of byte runs, and the power-of-two test behind alignment.

use vstd::arithmetic::power2::pow2;
use vstd::prelude::*;

verus! {

/// Bit `i` of a byte run, numbered bitwise little-endian: bit 0 is the least
/// significant bit of byte 0, bit 8 the least significant bit of byte 1.
pub open spec fn bit_at(s: Seq<u8>, i: int) -> bool {
    (s[i / 8] as nat / pow2((i % 8) as nat)) % 2 == 1
}

/// The value of the `n` bits of `s` from bit `start`, bit `start` weighing 1.
pub open spec fn packed_bits(s: Seq<u8>, start: int, n: int) -> nat
    decreases n,
{
    if n <= 0 {
        0
    } else {
        packed_bits(s, start, n - 1) + if bit_at(s, start + n - 1) {
            pow2((n - 1) as nat)
        } else {
            0
        }
    }
}

/// The number of bytes that hold `bits` bits.
pub open spec fn bytes_for_bits(bits: int) -> int {
    (bits + 7) / 8
}

/// `len` bits of `s` from bit `offset`, packed from bit 0 of a fresh byte run of
/// `ceil(len / 8)` bytes; the bits of the last byte above `len` are zero.
pub open spec fn bit_slice_spec(s: Seq<u8>, offset: int, len: int) -> Seq<u8> {
    Seq::new(
        bytes_for_bits(len) as nat,
        |k: int|
            packed_bits(
                s,
                offset + 8 * k,
                if len - 8 * k < 8 {
                    len - 8 * k
                } else {
                    8
                },
            ) as u8,
    )
}

/// `n` is a power of two (1, 2, 4, ...).
pub open spec fn is_power_of_two(n: nat) -> bool
    decreases n,
{
    if n == 0 {
        false
    } else if n == 1 {
        true
    } else {
        n % 2 == 0 && is_power_of_two(n / 2)
    }
}

/// Whether `n` is a power of two.
pub fn is_pwr_two(n: u64) -> (r: bool)
    ensures
        r == is_power_of_two(n as nat),
{
    if n == 0 {
        return false;
    }
    let mut m: u64 = n;
    while m > 1 && m % 2 == 0
        invariant
            m > 0,
            is_power_of_two(m as nat) == is_power_of_two(n as nat),
        decreases m,
    {
        m = m / 2;
    }
    m == 1
}

/// Whether bytes that start at `address` must be copied before they can be read as
/// values `bytes_per_value` wide: only where that width is a power of two and the
/// address is not a multiple of it.  Any other width is never read through an
/// alignment-sensitive view, so its bytes can always be shared.
pub fn needs_alignment_copy(bytes_per_value: u64, address: usize) -> (r: bool)
    ensures
        r == (is_power_of_two(bytes_per_value as nat) && (address as nat) % (bytes_per_value as nat) != 0),
{
    is_pwr_two(bytes_per_value) && (address as u64) % bytes_per_value != 0
}

} // verus!
