//! Integers made of the bytes of short texts, and unit conversions between
//! bytes and binary multiples.

use crate::streams::endian::{
    be_value, le_value, lemma_be_value_bound, lemma_le_value_bound, lemma_radix_values, uint_be,
    uint_le,
};
use vstd::prelude::*;

verus! {

/// The `u16` whose bytes, least-significant byte first, are those of `s`.
pub fn ascii_to_u16_le(s: &[u8; 2]) -> (v: u16)
    ensures
        v as nat == le_value(s@),
{
    proof {
        lemma_radix_values();
        lemma_le_value_bound(s@);
    }
    uint_le(s.as_slice()) as u16
}

/// The `u16` whose bytes, most-significant byte first, are those of `s`.
pub fn ascii_to_u16_be(s: &[u8; 2]) -> (v: u16)
    ensures
        v as nat == be_value(s@),
{
    proof {
        lemma_radix_values();
        lemma_be_value_bound(s@);
    }
    uint_be(s.as_slice()) as u16
}

/// The `u32` whose bytes, least-significant byte first, are those of `s`.
pub fn ascii_to_u32_le(s: &[u8; 4]) -> (v: u32)
    ensures
        v as nat == le_value(s@),
{
    proof {
        lemma_radix_values();
        lemma_le_value_bound(s@);
    }
    uint_le(s.as_slice()) as u32
}

/// The `u32` whose bytes, most-significant byte first, are those of `s`.
pub fn ascii_to_u32_be(s: &[u8; 4]) -> (v: u32)
    ensures
        v as nat == be_value(s@),
{
    proof {
        lemma_radix_values();
        lemma_be_value_bound(s@);
    }
    uint_be(s.as_slice()) as u32
}

/// The `u64` whose bytes, least-significant byte first, are those of `s`.
pub fn ascii_to_u64_le(s: &[u8; 8]) -> (v: u64)
    ensures
        v as nat == le_value(s@),
{
    proof {
        lemma_radix_values();
        lemma_le_value_bound(s@);
    }
    uint_le(s.as_slice()) as u64
}

/// The `u64` whose bytes, most-significant byte first, are those of `s`.
pub fn ascii_to_u64_be(s: &[u8; 8]) -> (v: u64)
    ensures
        v as nat == be_value(s@),
{
    proof {
        lemma_radix_values();
        lemma_be_value_bound(s@);
    }
    uint_be(s.as_slice()) as u64
}

/// The `u128` whose bytes, least-significant byte first, are those of `s`.
pub fn ascii_to_u128_le(s: &[u8; 16]) -> (v: u128)
    ensures
        v as nat == le_value(s@),
{
    uint_le(s.as_slice()) as u128
}

/// The `u128` whose bytes, most-significant byte first, are those of `s`.
pub fn ascii_to_u128_be(s: &[u8; 16]) -> (v: u128)
    ensures
        v as nat == be_value(s@),
{
    uint_be(s.as_slice()) as u128
}

/// Number of bytes in `kib` kibibytes.
pub fn kib_to_byte(kib: usize) -> (bytes: usize)
    requires
        kib * 1024 <= usize::MAX,
    ensures
        bytes == kib * 1024,
{
    kib * 1024
}

/// Number of bytes in `mib` mebibytes.
pub fn mib_to_byte(mib: usize) -> (bytes: usize)
    requires
        mib * 1024 * 1024 <= usize::MAX,
    ensures
        bytes == mib * 1024 * 1024,
{
    kib_to_byte(mib) * 1024
}

/// Number of bytes in `gib` gibibytes.
pub fn gib_to_byte(gib: usize) -> (bytes: usize)
    requires
        gib * 1024 * 1024 * 1024 <= usize::MAX,
    ensures
        bytes == gib * 1024 * 1024 * 1024,
{
    mib_to_byte(gib) * 1024
}

/// Number of bytes in `tib` tebibytes.
pub fn tib_to_byte(tib: usize) -> (bytes: usize)
    requires
        tib * 1024 * 1024 * 1024 * 1024 <= usize::MAX,
    ensures
        bytes == tib * 1024 * 1024 * 1024 * 1024,
{
    gib_to_byte(tib) * 1024
}

/// Whole kibibytes contained in `byte` bytes.
pub fn byte_to_kib(byte: usize) -> (kib: usize)
    ensures
        kib == byte / 1024,
{
    byte / 1024
}

/// Whole mebibytes contained in `byte` bytes.
pub fn byte_to_mib(byte: usize) -> (mib: usize)
    ensures
        mib == byte / 1024 / 1024,
{
    byte_to_kib(byte) / 1024
}

/// Whole gibibytes contained in `byte` bytes.
pub fn byte_to_gib(byte: usize) -> (gib: usize)
    ensures
        gib == byte / 1024 / 1024 / 1024,
{
    byte_to_mib(byte) / 1024
}

/// Whole tebibytes contained in `byte` bytes.
pub fn byte_to_tib(byte: usize) -> (tib: usize)
    ensures
        tib == byte / 1024 / 1024 / 1024 / 1024,
{
    byte_to_gib(byte) / 1024
}

} // verus!
