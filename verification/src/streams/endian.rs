//! Byte-order arithmetic: what a run of bytes is worth as an integer, and
//! which bytes an integer is written as. The fixed-width conversions are done
//! by the `byteorder` crate; its functions are called through the thin
//! wrappers at the end of this file, whose contracts are stated over the
//! specification functions defined here.

use byteorder::{BigEndian, ByteOrder, LittleEndian};
use vstd::prelude::*;

verus! {

/// `256^n`: the number of values that `n` bytes can hold.
pub open spec fn radix(n: nat) -> nat
    decreases n,
{
    if n == 0 {
        1
    } else {
        256 * radix((n - 1) as nat)
    }
}

/// The unsigned value of `bytes` read least-significant byte first.
pub open spec fn le_value(bytes: Seq<u8>) -> nat
    decreases bytes.len(),
{
    if bytes.len() == 0 {
        0
    } else {
        bytes[0] as nat + 256 * le_value(bytes.drop_first())
    }
}

/// The unsigned value of `bytes` read most-significant byte first.
pub open spec fn be_value(bytes: Seq<u8>) -> nat
    decreases bytes.len(),
{
    if bytes.len() == 0 {
        0
    } else {
        256 * be_value(bytes.drop_last()) + bytes.last() as nat
    }
}

/// The `n` low-order bytes of `v`, least-significant byte first.
pub open spec fn le_bytes(v: nat, n: nat) -> Seq<u8>
    decreases n,
{
    if n == 0 {
        Seq::<u8>::empty()
    } else {
        seq![(v % 256) as u8] + le_bytes(v / 256, (n - 1) as nat)
    }
}

/// The `n` low-order bytes of `v`, most-significant byte first.
pub open spec fn be_bytes(v: nat, n: nat) -> Seq<u8>
    decreases n,
{
    if n == 0 {
        Seq::<u8>::empty()
    } else {
        be_bytes(v / 256, (n - 1) as nat).push((v % 256) as u8)
    }
}

/// The two's-complement reading of an `n`-byte unsigned value.
pub open spec fn signed_of(v: nat, n: nat) -> int {
    if 2 * v < radix(n) {
        v as int
    } else {
        v - radix(n)
    }
}

/// The `n`-byte unsigned value whose two's-complement reading is `v`.
pub open spec fn unsigned_of(v: int, n: nat) -> nat {
    if v >= 0 {
        v as nat
    } else {
        (v + radix(n)) as nat
    }
}

/// The capacities of the byte widths that this crate works with.
pub proof fn lemma_radix_values()
    ensures
        radix(0) == 1,
        radix(1) == 0x100,
        radix(2) == 0x1_0000,
        radix(4) == 0x1_0000_0000,
        radix(6) == 0x1_0000_0000_0000,
        radix(8) == 0x1_0000_0000_0000_0000,
        radix(15) == 0x1_0000_0000_0000_0000_0000_0000_0000_00,
        radix(16) == 0x1_0000_0000_0000_0000_0000_0000_0000_0000,
{
    reveal_with_fuel(radix, 17);
}

/// The little-endian form of a value in `n` bytes has `n` bytes.
pub proof fn lemma_le_bytes_len(v: nat, n: nat)
    ensures
        le_bytes(v, n).len() == n,
    decreases n,
{
    if n > 0 {
        lemma_le_bytes_len(v / 256, (n - 1) as nat);
    }
}

/// The big-endian form of a value in `n` bytes has `n` bytes.
pub proof fn lemma_be_bytes_len(v: nat, n: nat)
    ensures
        be_bytes(v, n).len() == n,
    decreases n,
{
    if n > 0 {
        lemma_be_bytes_len(v / 256, (n - 1) as nat);
    }
}

/// The little-endian value of `n` bytes is below `256^n`.
pub proof fn lemma_le_value_bound(bytes: Seq<u8>)
    ensures
        le_value(bytes) < radix(bytes.len()),
    decreases bytes.len(),
{
    if bytes.len() > 0 {
        lemma_le_value_bound(bytes.drop_first());
    }
}

/// The big-endian value of `n` bytes is below `256^n`.
pub proof fn lemma_be_value_bound(bytes: Seq<u8>)
    ensures
        be_value(bytes) < radix(bytes.len()),
    decreases bytes.len(),
{
    if bytes.len() > 0 {
        lemma_be_value_bound(bytes.drop_last());
    }
}

/// Reading back the little-endian bytes of a value that fits gives the value.
pub proof fn lemma_le_value_of_bytes(v: nat, n: nat)
    requires
        v < radix(n),
    ensures
        le_value(le_bytes(v, n)) == v,
    decreases n,
{
    if n > 0 {
        let rest = le_bytes(v / 256, (n - 1) as nat);
        let all = le_bytes(v, n);
        assert(all.drop_first() =~= rest);
        lemma_le_value_of_bytes(v / 256, (n - 1) as nat);
    }
}

/// Reading back the big-endian bytes of a value that fits gives the value.
pub proof fn lemma_be_value_of_bytes(v: nat, n: nat)
    requires
        v < radix(n),
    ensures
        be_value(be_bytes(v, n)) == v,
    decreases n,
{
    if n > 0 {
        let rest = be_bytes(v / 256, (n - 1) as nat);
        let all = be_bytes(v, n);
        assert(all.drop_last() =~= rest);
        lemma_be_value_of_bytes(v / 256, (n - 1) as nat);
    }
}

/// A single byte is worth itself in either order.
pub proof fn lemma_single_byte_value(bytes: Seq<u8>)
    requires
        bytes.len() == 1,
    ensures
        le_value(bytes) == bytes[0] as nat,
        be_value(bytes) == bytes[0] as nat,
{
    reveal_with_fuel(le_value, 2);
    reveal_with_fuel(be_value, 2);
}

/// The value of at most sixteen bytes read least-significant byte first.
pub fn uint_le(bytes: &[u8]) -> (v: u128)
    requires
        bytes@.len() <= 16,
    ensures
        v == le_value(bytes@),
{
    let n = bytes.len();
    let mut v: u128 = 0;
    let mut i: usize = n;
    while i > 0
        invariant
            i <= n,
            n == bytes@.len(),
            n <= 16,
            v == le_value(bytes@.skip(i as int)),
        decreases i,
    {
        proof {
            let tail = bytes@.skip(i - 1);
            assert(tail.drop_first() =~= bytes@.skip(i as int));
            lemma_le_value_bound(bytes@.skip(i as int));
            lemma_radix_grows((n - i) as nat, 15);
            lemma_radix_values();
        }
        i -= 1;
        v = v * 256 + bytes[i] as u128;
    }
    assert(bytes@.skip(0) =~= bytes@);
    v
}

/// The value of at most sixteen bytes read most-significant byte first.
pub fn uint_be(bytes: &[u8]) -> (v: u128)
    requires
        bytes@.len() <= 16,
    ensures
        v == be_value(bytes@),
{
    let n = bytes.len();
    let mut v: u128 = 0;
    let mut i: usize = 0;
    while i < n
        invariant
            i <= n,
            n == bytes@.len(),
            n <= 16,
            v == be_value(bytes@.take(i as int)),
        decreases n - i,
    {
        proof {
            let head = bytes@.take(i + 1);
            assert(head.drop_last() =~= bytes@.take(i as int));
            lemma_be_value_bound(bytes@.take(i as int));
            lemma_radix_grows(i as nat, 15);
            lemma_radix_values();
        }
        v = v * 256 + bytes[i] as u128;
        i += 1;
    }
    assert(bytes@.take(n as int) =~= bytes@);
    v
}

/// More bytes hold more values.
pub proof fn lemma_radix_grows(a: nat, b: nat)
    requires
        a <= b,
    ensures
        radix(a) <= radix(b),
    decreases b,
{
    if a < b {
        lemma_radix_grows(a, (b - 1) as nat);
    }
}

/// The `n` low-order bytes of `v`, least-significant byte first.
pub fn uint_bytes_le(v: u128, n: usize) -> (out: Vec<u8>)
    ensures
        out@ == le_bytes(v as nat, n as nat),
{
    let mut out: Vec<u8> = Vec::new();
    let mut rest = v;
    let mut i: usize = 0;
    while i < n
        invariant
            i <= n,
            le_bytes(v as nat, n as nat) == out@ + le_bytes(rest as nat, (n - i) as nat),
        decreases n - i,
    {
        out.push((rest % 256) as u8);
        rest = rest / 256;
        i += 1;
    }
    out
}

/// The `n` low-order bytes of `v`, most-significant byte first.
pub fn uint_bytes_be(v: u128, n: usize) -> (out: Vec<u8>)
    ensures
        out@ == be_bytes(v as nat, n as nat),
{
    let low = uint_bytes_le(v, n);
    let mut out: Vec<u8> = Vec::new();
    let mut i: usize = n;
    proof {
        lemma_be_is_le_reversed(v as nat, n as nat);
    }
    while i > 0
        invariant
            i <= n,
            low@.len() == n,
            out@.len() == n - i,
            forall|j: int| 0 <= j < out@.len() ==> out@[j] == low@[n - 1 - j],
        decreases i,
    {
        i -= 1;
        out.push(low[i]);
    }
    out
}

/// The big-endian bytes of a value are its little-endian bytes in reverse.
pub proof fn lemma_be_is_le_reversed(v: nat, n: nat)
    ensures
        be_bytes(v, n).len() == n,
        le_bytes(v, n).len() == n,
        forall|j: int| 0 <= j < n ==> be_bytes(v, n)[j] == le_bytes(v, n)[n - 1 - j],
    decreases n,
{
    if n > 0 {
        lemma_be_is_le_reversed(v / 256, (n - 1) as nat);
    }
}

/// The two's-complement reading of `x`.
pub fn signed8(x: u8) -> (r: i8)
    ensures
        r as int == signed_of(x as nat, 1),
{
    proof {
        lemma_radix_values();
        assert(x >= 0x80 ==> (x as i8) as int == x as int - 0x100) by (bit_vector);
    }
    x as i8
}

/// The unsigned integer that holds `x` in two's complement.
pub fn unsigned8(x: i8) -> (r: u8)
    ensures
        r as nat == unsigned_of(x as int, 1),
{
    proof {
        lemma_radix_values();
        assert(x < 0 ==> (x as u8) as int == x as int + 0x100) by (bit_vector);
    }
    x as u8
}

/// The two's-complement reading of `x`.
pub fn signed16(x: u16) -> (r: i16)
    ensures
        r as int == signed_of(x as nat, 2),
{
    proof {
        lemma_radix_values();
        assert(x >= 0x8000 ==> (x as i16) as int == x as int - 0x1_0000) by (bit_vector);
    }
    x as i16
}

/// The unsigned integer that holds `x` in two's complement.
pub fn unsigned16(x: i16) -> (r: u16)
    ensures
        r as nat == unsigned_of(x as int, 2),
{
    proof {
        lemma_radix_values();
        assert(x < 0 ==> (x as u16) as int == x as int + 0x1_0000) by (bit_vector);
    }
    x as u16
}

/// The two's-complement reading of `x`.
pub fn signed32(x: u32) -> (r: i32)
    ensures
        r as int == signed_of(x as nat, 4),
{
    proof {
        lemma_radix_values();
        assert(x >= 0x8000_0000 ==> (x as i32) as int == x as int - 0x1_0000_0000) by (bit_vector);
    }
    x as i32
}

/// The unsigned integer that holds `x` in two's complement.
pub fn unsigned32(x: i32) -> (r: u32)
    ensures
        r as nat == unsigned_of(x as int, 4),
{
    proof {
        lemma_radix_values();
        assert(x < 0 ==> (x as u32) as int == x as int + 0x1_0000_0000) by (bit_vector);
    }
    x as u32
}

/// The two's-complement reading of `x`.
pub fn signed64(x: u64) -> (r: i64)
    ensures
        r as int == signed_of(x as nat, 8),
{
    proof {
        lemma_radix_values();
        assert(x >= 0x8000_0000_0000_0000
            ==> (x as i64) as int == x as int - 0x1_0000_0000_0000_0000) by (bit_vector);
    }
    x as i64
}

/// The unsigned integer that holds `x` in two's complement.
pub fn unsigned64(x: i64) -> (r: u64)
    ensures
        r as nat == unsigned_of(x as int, 8),
{
    proof {
        lemma_radix_values();
        assert(x < 0 ==> (x as u64) as int == x as int + 0x1_0000_0000_0000_0000) by (bit_vector);
    }
    x as u64
}

/// The two's-complement reading of `x`.
pub fn signed128(x: u128) -> (r: i128)
    ensures
        r as int == signed_of(x as nat, 16),
{
    proof {
        lemma_radix_values();
        assert(x >= 0x8000_0000_0000_0000_0000_0000_0000_0000
            ==> (x as i128) as int == x as int - 0x1_0000_0000_0000_0000_0000_0000_0000_0000) by (bit_vector);
    }
    x as i128
}

/// The unsigned integer that holds `x` in two's complement.
pub fn unsigned128(x: i128) -> (r: u128)
    ensures
        r as nat == unsigned_of(x as int, 16),
{
    proof {
        lemma_radix_values();
        assert(x < 0
            ==> (x as u128) as int == x as int + 0x1_0000_0000_0000_0000_0000_0000_0000_0000) by (bit_vector);
    }
    x as u128
}

/// `byteorder::LittleEndian::read_u16`: the value of the first two bytes of
/// `buf`, least-significant first. The call panics on a shorter buffer.
#[verifier::external_body]
pub(crate) fn le_read_u16(buf: &[u8]) -> (r: u16)
    requires
        buf@.len() >= 2,
    ensures
        r as nat == le_value(buf@.take(2)),
{
    LittleEndian::read_u16(buf)
}

/// `byteorder::LittleEndian::read_u32`: the value of the first four bytes of
/// `buf`, least-significant first. The call panics on a shorter buffer.
#[verifier::external_body]
pub(crate) fn le_read_u32(buf: &[u8]) -> (r: u32)
    requires
        buf@.len() >= 4,
    ensures
        r as nat == le_value(buf@.take(4)),
{
    LittleEndian::read_u32(buf)
}

/// `byteorder::LittleEndian::read_u64`: the value of the first eight bytes of
/// `buf`, least-significant first. The call panics on a shorter buffer.
#[verifier::external_body]
pub(crate) fn le_read_u64(buf: &[u8]) -> (r: u64)
    requires
        buf@.len() >= 8,
    ensures
        r as nat == le_value(buf@.take(8)),
{
    LittleEndian::read_u64(buf)
}

/// `byteorder::BigEndian::read_u16`: the value of the first two bytes of
/// `buf`, most-significant first. The call panics on a shorter buffer.
#[verifier::external_body]
pub(crate) fn be_read_u16(buf: &[u8]) -> (r: u16)
    requires
        buf@.len() >= 2,
    ensures
        r as nat == be_value(buf@.take(2)),
{
    BigEndian::read_u16(buf)
}

/// `byteorder::BigEndian::read_u32`: the value of the first four bytes of
/// `buf`, most-significant first. The call panics on a shorter buffer.
#[verifier::external_body]
pub(crate) fn be_read_u32(buf: &[u8]) -> (r: u32)
    requires
        buf@.len() >= 4,
    ensures
        r as nat == be_value(buf@.take(4)),
{
    BigEndian::read_u32(buf)
}

/// `byteorder::BigEndian::read_u64`: the value of the first eight bytes of
/// `buf`, most-significant first. The call panics on a shorter buffer.
#[verifier::external_body]
pub(crate) fn be_read_u64(buf: &[u8]) -> (r: u64)
    requires
        buf@.len() >= 8,
    ensures
        r as nat == be_value(buf@.take(8)),
{
    BigEndian::read_u64(buf)
}

/// `byteorder::LittleEndian::read_i16`: the two's-complement reading of the
/// first two bytes of `buf`, least-significant first. Panics on a shorter
/// buffer.
#[verifier::external_body]
pub(crate) fn le_read_i16(buf: &[u8]) -> (r: i16)
    requires
        buf@.len() >= 2,
    ensures
        r as int == signed_of(le_value(buf@.take(2)), 2),
{
    LittleEndian::read_i16(buf)
}

/// `byteorder::LittleEndian::read_i32`: the two's-complement reading of the
/// first four bytes of `buf`, least-significant first. Panics on a shorter
/// buffer.
#[verifier::external_body]
pub(crate) fn le_read_i32(buf: &[u8]) -> (r: i32)
    requires
        buf@.len() >= 4,
    ensures
        r as int == signed_of(le_value(buf@.take(4)), 4),
{
    LittleEndian::read_i32(buf)
}

/// `byteorder::LittleEndian::read_i64`: the two's-complement reading of the
/// first eight bytes of `buf`, least-significant first. Panics on a shorter
/// buffer.
#[verifier::external_body]
pub(crate) fn le_read_i64(buf: &[u8]) -> (r: i64)
    requires
        buf@.len() >= 8,
    ensures
        r as int == signed_of(le_value(buf@.take(8)), 8),
{
    LittleEndian::read_i64(buf)
}

/// `byteorder::BigEndian::read_i16`: the two's-complement reading of the
/// first two bytes of `buf`, most-significant first. Panics on a shorter
/// buffer.
#[verifier::external_body]
pub(crate) fn be_read_i16(buf: &[u8]) -> (r: i16)
    requires
        buf@.len() >= 2,
    ensures
        r as int == signed_of(be_value(buf@.take(2)), 2),
{
    BigEndian::read_i16(buf)
}

/// `byteorder::BigEndian::read_i32`: the two's-complement reading of the
/// first four bytes of `buf`, most-significant first. Panics on a shorter
/// buffer.
#[verifier::external_body]
pub(crate) fn be_read_i32(buf: &[u8]) -> (r: i32)
    requires
        buf@.len() >= 4,
    ensures
        r as int == signed_of(be_value(buf@.take(4)), 4),
{
    BigEndian::read_i32(buf)
}

/// `byteorder::BigEndian::read_i64`: the two's-complement reading of the
/// first eight bytes of `buf`, most-significant first. Panics on a shorter
/// buffer.
#[verifier::external_body]
pub(crate) fn be_read_i64(buf: &[u8]) -> (r: i64)
    requires
        buf@.len() >= 8,
    ensures
        r as int == signed_of(be_value(buf@.take(8)), 8),
{
    BigEndian::read_i64(buf)
}

/// `byteorder::LittleEndian::write_u16`: overwrites the first two bytes of
/// `buf` with `n`, least-significant first, and leaves the rest. Panics on a
/// shorter buffer.
#[verifier::external_body]
pub(crate) fn le_write_u16(buf: &mut [u8], n: u16)
    requires
        old(buf)@.len() >= 2,
    ensures
        final(buf)@ == le_bytes(n as nat, 2) + old(buf)@.skip(2),
{
    LittleEndian::write_u16(buf, n)
}

/// `byteorder::LittleEndian::write_u32`: overwrites the first four bytes of
/// `buf` with `n`, least-significant first, and leaves the rest. Panics on a
/// shorter buffer.
#[verifier::external_body]
pub(crate) fn le_write_u32(buf: &mut [u8], n: u32)
    requires
        old(buf)@.len() >= 4,
    ensures
        final(buf)@ == le_bytes(n as nat, 4) + old(buf)@.skip(4),
{
    LittleEndian::write_u32(buf, n)
}

/// `byteorder::LittleEndian::write_u64`: overwrites the first eight bytes of
/// `buf` with `n`, least-significant first, and leaves the rest. Panics on a
/// shorter buffer.
#[verifier::external_body]
pub(crate) fn le_write_u64(buf: &mut [u8], n: u64)
    requires
        old(buf)@.len() >= 8,
    ensures
        final(buf)@ == le_bytes(n as nat, 8) + old(buf)@.skip(8),
{
    LittleEndian::write_u64(buf, n)
}

/// `byteorder::LittleEndian::write_u128`: overwrites the first sixteen bytes of
/// `buf` with `n`, least-significant first, and leaves the rest. Panics on a
/// shorter buffer.
#[verifier::external_body]
pub(crate) fn le_write_u128(buf: &mut [u8], n: u128)
    requires
        old(buf)@.len() >= 16,
    ensures
        final(buf)@ == le_bytes(n as nat, 16) + old(buf)@.skip(16),
{
    LittleEndian::write_u128(buf, n)
}

/// `byteorder::LittleEndian::write_i16`: overwrites the first two bytes of
/// `buf` with the two's-complement form of `n`, least-significant first, and
/// leaves the rest. Panics on a shorter buffer.
#[verifier::external_body]
pub(crate) fn le_write_i16(buf: &mut [u8], n: i16)
    requires
        old(buf)@.len() >= 2,
    ensures
        final(buf)@ == le_bytes(unsigned_of(n as int, 2), 2) + old(buf)@.skip(2),
{
    LittleEndian::write_i16(buf, n)
}

/// `byteorder::LittleEndian::write_i32`: overwrites the first four bytes of
/// `buf` with the two's-complement form of `n`, least-significant first, and
/// leaves the rest. Panics on a shorter buffer.
#[verifier::external_body]
pub(crate) fn le_write_i32(buf: &mut [u8], n: i32)
    requires
        old(buf)@.len() >= 4,
    ensures
        final(buf)@ == le_bytes(unsigned_of(n as int, 4), 4) + old(buf)@.skip(4),
{
    LittleEndian::write_i32(buf, n)
}

/// `byteorder::LittleEndian::write_i64`: overwrites the first eight bytes of
/// `buf` with the two's-complement form of `n`, least-significant first, and
/// leaves the rest. Panics on a shorter buffer.
#[verifier::external_body]
pub(crate) fn le_write_i64(buf: &mut [u8], n: i64)
    requires
        old(buf)@.len() >= 8,
    ensures
        final(buf)@ == le_bytes(unsigned_of(n as int, 8), 8) + old(buf)@.skip(8),
{
    LittleEndian::write_i64(buf, n)
}

/// `byteorder::LittleEndian::write_i128`: overwrites the first sixteen bytes of
/// `buf` with the two's-complement form of `n`, least-significant first, and
/// leaves the rest. Panics on a shorter buffer.
#[verifier::external_body]
pub(crate) fn le_write_i128(buf: &mut [u8], n: i128)
    requires
        old(buf)@.len() >= 16,
    ensures
        final(buf)@ == le_bytes(unsigned_of(n as int, 16), 16) + old(buf)@.skip(16),
{
    LittleEndian::write_i128(buf, n)
}

/// `byteorder::BigEndian::write_u16`: overwrites the first two bytes of
/// `buf` with `n`, most-significant first, and leaves the rest. Panics on a
/// shorter buffer.
#[verifier::external_body]
pub(crate) fn be_write_u16(buf: &mut [u8], n: u16)
    requires
        old(buf)@.len() >= 2,
    ensures
        final(buf)@ == be_bytes(n as nat, 2) + old(buf)@.skip(2),
{
    BigEndian::write_u16(buf, n)
}

/// `byteorder::BigEndian::write_u32`: overwrites the first four bytes of
/// `buf` with `n`, most-significant first, and leaves the rest. Panics on a
/// shorter buffer.
#[verifier::external_body]
pub(crate) fn be_write_u32(buf: &mut [u8], n: u32)
    requires
        old(buf)@.len() >= 4,
    ensures
        final(buf)@ == be_bytes(n as nat, 4) + old(buf)@.skip(4),
{
    BigEndian::write_u32(buf, n)
}

/// `byteorder::BigEndian::write_u64`: overwrites the first eight bytes of
/// `buf` with `n`, most-significant first, and leaves the rest. Panics on a
/// shorter buffer.
#[verifier::external_body]
pub(crate) fn be_write_u64(buf: &mut [u8], n: u64)
    requires
        old(buf)@.len() >= 8,
    ensures
        final(buf)@ == be_bytes(n as nat, 8) + old(buf)@.skip(8),
{
    BigEndian::write_u64(buf, n)
}

/// `byteorder::BigEndian::write_u128`: overwrites the first sixteen bytes of
/// `buf` with `n`, most-significant first, and leaves the rest. Panics on a
/// shorter buffer.
#[verifier::external_body]
pub(crate) fn be_write_u128(buf: &mut [u8], n: u128)
    requires
        old(buf)@.len() >= 16,
    ensures
        final(buf)@ == be_bytes(n as nat, 16) + old(buf)@.skip(16),
{
    BigEndian::write_u128(buf, n)
}

/// `byteorder::BigEndian::write_i16`: overwrites the first two bytes of
/// `buf` with the two's-complement form of `n`, most-significant first, and
/// leaves the rest. Panics on a shorter buffer.
#[verifier::external_body]
pub(crate) fn be_write_i16(buf: &mut [u8], n: i16)
    requires
        old(buf)@.len() >= 2,
    ensures
        final(buf)@ == be_bytes(unsigned_of(n as int, 2), 2) + old(buf)@.skip(2),
{
    BigEndian::write_i16(buf, n)
}

/// `byteorder::BigEndian::write_i32`: overwrites the first four bytes of
/// `buf` with the two's-complement form of `n`, most-significant first, and
/// leaves the rest. Panics on a shorter buffer.
#[verifier::external_body]
pub(crate) fn be_write_i32(buf: &mut [u8], n: i32)
    requires
        old(buf)@.len() >= 4,
    ensures
        final(buf)@ == be_bytes(unsigned_of(n as int, 4), 4) + old(buf)@.skip(4),
{
    BigEndian::write_i32(buf, n)
}

/// `byteorder::BigEndian::write_i64`: overwrites the first eight bytes of
/// `buf` with the two's-complement form of `n`, most-significant first, and
/// leaves the rest. Panics on a shorter buffer.
#[verifier::external_body]
pub(crate) fn be_write_i64(buf: &mut [u8], n: i64)
    requires
        old(buf)@.len() >= 8,
    ensures
        final(buf)@ == be_bytes(unsigned_of(n as int, 8), 8) + old(buf)@.skip(8),
{
    BigEndian::write_i64(buf, n)
}

/// `byteorder::BigEndian::write_i128`: overwrites the first sixteen bytes of
/// `buf` with the two's-complement form of `n`, most-significant first, and
/// leaves the rest. Panics on a shorter buffer.
#[verifier::external_body]
pub(crate) fn be_write_i128(buf: &mut [u8], n: i128)
    requires
        old(buf)@.len() >= 16,
    ensures
        final(buf)@ == be_bytes(unsigned_of(n as int, 16), 16) + old(buf)@.skip(16),
{
    BigEndian::write_i128(buf, n)
}

} // verus!
