//! A variable-length code for unsigned integers: seven bits of the value in
//! each byte, the low bits first, and the high bit of a byte set where
//! another byte follows.

use vstd::arithmetic::power2::{lemma2_to64, pow2};
use vstd::prelude::*;

verus! {

broadcast use vstd::layout::layout_of_primitives;

/// The failure of the decoder.
#[derive(Debug, Clone, Copy, PartialEq, Eq, Structural)]
pub enum VarintError {
    /// The bytes do not end within the window, or encode a value that the
    /// integer type cannot hold.
    DeserializeBadVarint,
}

/// `128^n`: the number of values that `n` bytes of the code can hold.
pub open spec fn pow128(n: nat) -> nat
    decreases n,
{
    if n == 0 {
        1
    } else {
        128 * pow128((n - 1) as nat)
    }
}

/// The code of `v`: the shortest run of bytes that holds `v` seven bits to
/// the byte, low bits first, every byte but the last with its high bit set.
pub open spec fn varint_bytes(v: nat) -> Seq<u8>
    decreases v,
{
    if v < 128 {
        seq![v as u8]
    } else {
        seq![(v % 128 + 128) as u8] + varint_bytes(v / 128)
    }
}

/// The value that the window `data` encodes, if it encodes one.
///
/// The code ends at the first byte whose high bit is clear. There is no value
/// where no byte of the window has its high bit clear, and where the code
/// fills the window and its last byte is greater than `last_max`.
pub open spec fn varint_value(data: Seq<u8>, last_max: nat) -> Option<nat>
    decreases data.len(),
{
    if data.len() == 0 {
        None
    } else if data[0] < 128 {
        if data.len() == 1 && data[0] > last_max {
            None
        } else {
            Some(data[0] as nat)
        }
    } else {
        match varint_value(data.drop_first(), last_max) {
            Some(v) => Some((data[0] - 128) as nat + 128 * v),
            None => None,
        }
    }
}

/// The greatest number of bytes in the code of an integer of `bits` bits.
pub open spec fn spec_varint_max(bits: nat) -> nat {
    (bits + 6) / 7
}

/// The greatest last byte in a code of full length of an integer of `bits`
/// bits: the bits of the integer that the bytes before it leave over, all
/// set.
pub open spec fn spec_max_of_last_byte(bits: nat) -> nat {
    (pow2((bits - 7 * (spec_varint_max(bits) - 1)) as nat) - 1) as nat
}

/// The powers of 128 that bound the integer types.
pub proof fn lemma_pow128_values()
    ensures
        pow128(0) == 1,
        pow128(1) == 0x80,
        pow128(2) == 0x4000,
        pow128(3) == 0x20_0000,
        pow128(4) == 0x1000_0000,
        pow128(5) == 0x8_0000_0000,
        pow128(9) == 0x8000_0000_0000_0000,
        pow128(10) == 0x40_0000_0000_0000_0000,
        pow128(18) == 0x4000_0000_0000_0000_0000_0000_0000_0000,
{
    reveal_with_fuel(pow128, 19);
}

/// More bytes of the code hold more values, and at least one.
pub proof fn lemma_pow128_grows(a: nat, b: nat)
    requires
        a <= b,
    ensures
        0 < pow128(a) <= pow128(b),
    decreases b,
{
    if a < b {
        lemma_pow128_grows(a, (b - 1) as nat);
    } else if a > 0 {
        lemma_pow128_grows((a - 1) as nat, (a - 1) as nat);
    }
}

/// The code of a value below `128^k` has at most `k` bytes, and at least one.
pub proof fn lemma_varint_bytes_len(v: nat, k: nat)
    requires
        k >= 1,
        v < pow128(k),
    ensures
        1 <= varint_bytes(v).len() <= k,
    decreases v,
{
    if v >= 128 {
        if k == 1 {
            assert(pow128(1) == 128) by {
                reveal_with_fuel(pow128, 2);
            }
        } else {
            lemma_varint_bytes_len(v / 128, (k - 1) as nat);
        }
    }
}

/// A window that begins with the code of `v` encodes `v`, as long as `v` is
/// below the bound that the length of the window and the greatest last byte
/// set.
pub proof fn lemma_varint_roundtrip(v: nat, window: Seq<u8>, last_max: nat)
    requires
        window.len() >= 1,
        last_max < 128,
        v < (last_max + 1) * pow128((window.len() - 1) as nat),
        varint_bytes(v).len() <= window.len(),
        window.take(varint_bytes(v).len() as int) == varint_bytes(v),
    ensures
        varint_value(window, last_max) == Some(v),
    decreases v,
{
    let code = varint_bytes(v);
    if v < 128 {
        assert(code[0] == v as u8);
        if window.len() == 1 {
            assert((last_max + 1) * 1 == last_max + 1);
        }
    } else {
        let rest = window.drop_first();
        let next = v / 128;
        assert(code[0] == (v % 128 + 128) as u8);
        assert(rest.take(varint_bytes(next).len() as int) =~= varint_bytes(next)) by {
            assert(window.take(code.len() as int).drop_first() =~= rest.take(
                (code.len() - 1) as int,
            ));
        }
        assert(next < (last_max + 1) * pow128((rest.len() - 1) as nat)) by {
            let p = pow128((rest.len() - 1) as nat);
            assert(v < 128 * ((last_max + 1) * p)) by (nonlinear_arith)
                requires
                    v < (last_max + 1) * (128 * p),
            ;
        }
        lemma_varint_roundtrip(next, rest, last_max);
    }
}

/// A value that a window encodes is below the bound that the length of the
/// window and the greatest last byte set.
pub proof fn lemma_varint_value_bound(data: Seq<u8>, last_max: nat)
    requires
        last_max < 128,
        varint_value(data, last_max) is Some,
    ensures
        varint_value(data, last_max).unwrap() < (last_max + 1) * pow128((data.len() - 1) as nat),
    decreases data.len(),
{
    let n = data.len();
    let p = pow128((n - 1) as nat);
    lemma_pow128_grows(0, (n - 1) as nat);
    if data[0] < 128 {
        if n == 1 {
            assert((last_max + 1) * 1 == last_max + 1);
        } else {
            assert((last_max + 1) * p >= p) by (nonlinear_arith)
                requires
                    p > 0,
            ;
        }
    } else {
        lemma_varint_value_bound(data.drop_first(), last_max);
        let q = pow128((n - 2) as nat);
        let v = varint_value(data.drop_first(), last_max).unwrap();
        assert(127 + 128 * v < (last_max + 1) * (128 * q)) by (nonlinear_arith)
            requires
                v < (last_max + 1) * q,
        ;
    }
}

/// The window sizes and greatest last bytes of the integer types.
pub proof fn lemma_varint_layout()
    ensures
        spec_varint_max(16) == 3 && spec_max_of_last_byte(16) == 3,
        spec_varint_max(32) == 5 && spec_max_of_last_byte(32) == 15,
        spec_varint_max(64) == 10 && spec_max_of_last_byte(64) == 1,
        spec_varint_max(128) == 19 && spec_max_of_last_byte(128) == 3,
{
    lemma2_to64();
}

/// The greatest number of bytes that the code of a value of type `T` takes:
/// the bits of `T` divided by seven, rounded up.
pub fn varint_max<T: Sized>() -> (max: usize)
    requires
        8 * vstd::layout::size_of::<T>() + 6 <= usize::MAX,
    ensures
        max == spec_varint_max(8 * vstd::layout::size_of::<T>()),
{
    let bits = core::mem::size_of::<T>() * 8;
    (bits + 6) / 7
}

/// The greatest value of the last byte of a code of full length of a value of
/// type `T`.
pub fn max_of_last_byte<T: Sized>() -> (max: u8)
    requires
        8 * vstd::layout::size_of::<T>() <= usize::MAX,
    ensures
        max == spec_max_of_last_byte(8 * vstd::layout::size_of::<T>()),
{
    let max_bits = core::mem::size_of::<T>() * 8;
    let extra_bits = max_bits % 7;
    proof {
        lemma2_to64();
    }
    if extra_bits == 0 {
        127
    } else if extra_bits == 1 {
        1
    } else if extra_bits == 2 {
        3
    } else if extra_bits == 3 {
        7
    } else if extra_bits == 4 {
        15
    } else if extra_bits == 5 {
        31
    } else {
        63
    }
}

/// Writes the code of `value` at the front of `out` and returns its length.
fn encode_varint(value: u128, out: &mut [u8]) -> (used: usize)
    requires
        varint_bytes(value as nat).len() <= old(out)@.len(),
    ensures
        used == varint_bytes(value as nat).len(),
        final(out)@ == varint_bytes(value as nat) + old(out)@.skip(used as int),
{
    let mut v = value;
    let mut i: usize = 0;
    loop
        invariant
            out@.len() == old(out)@.len(),
            varint_bytes(value as nat) == out@.take(i as int) + varint_bytes(v as nat),
            varint_bytes(value as nat).len() <= out@.len(),
            out@.skip(i as int) == old(out)@.skip(i as int),
            i < out@.len(),
        decreases v,
    {
        let ghost before = out@;
        if v < 128 {
            out[i] = v as u8;
            proof {
                assert forall|j: int| i < j < out@.len() implies out@[j] == old(out)@[j] by {
                    assert(before.skip(i as int)[j - i] == old(out)@.skip(i as int)[j - i]);
                }
            }
            return i + 1;
        }
        assert(varint_bytes(v as nat) == seq![(v % 128 + 128) as u8] + varint_bytes(
            (v / 128) as nat,
        ));
        out[i] = (v % 128) as u8 + 128;
        proof {
            assert(old(out)@.skip(i + 1) =~= old(out)@.skip(i as int).skip(1));
        }
        v = v / 128;
        i += 1;
    }
}

/// The value made of `acc`, the low part, and of what `rest` adds above it.
pub open spec fn above(rest: Option<nat>, acc: nat, mult: nat) -> Option<nat> {
    match rest {
        Some(v) => Some(acc + mult * v),
        None => None,
    }
}

/// The value that the window `data` encodes.
fn decode_varint(data: &[u8], last_max: u8) -> (r: Option<u128>)
    requires
        data@.len() >= 1,
        1 <= last_max < 128,
        (last_max + 1) * pow128((data@.len() - 1) as nat) <= u128::MAX + 1,
    ensures
        match varint_value(data@, last_max as nat) {
            Some(v) => v <= u128::MAX && r == Some(v as u128),
            None => r.is_none(),
        },
{
    let n = data.len();
    let mut acc: u128 = 0;
    let mut mult: u128 = 1;
    let mut i: usize = 0;
    let ghost top = pow128((n - 1) as nat);
    proof {
        assert(data@.skip(0) =~= data@);
        lemma_pow128_grows(0, (n - 1) as nat);
        assert(2 * top <= u128::MAX + 1) by (nonlinear_arith)
            requires
                (last_max + 1) * top <= u128::MAX + 1,
                last_max >= 1,
                top > 0,
        ;
    }
    while i < n
        invariant
            i < n,
            n == data@.len(),
            1 <= last_max < 128,
            top == pow128((n - 1) as nat),
            2 * top <= u128::MAX + 1,
            (last_max + 1) * top <= u128::MAX + 1,
            mult == pow128(i as nat),
            acc < mult,
            varint_value(data@, last_max as nat) == above(
                varint_value(data@.skip(i as int), last_max as nat),
                acc as nat,
                mult as nat,
            ),
        decreases n - i,
    {
        let val = data[i];
        let ghost rest = data@.skip(i as int);
        proof {
            lemma_pow128_grows(i as nat, (n - 1) as nat);
            if i + 1 <= n - 1 {
                lemma_pow128_grows((i + 1) as nat, (n - 1) as nat);
            }
        }
        if val < 128 {
            if i == n - 1 && val > last_max {
                return None;
            }
            proof {
                if i == n - 1 {
                    assert(acc + val * mult < (last_max + 1) * mult) by (nonlinear_arith)
                        requires
                            acc < mult,
                            val <= last_max,
                    ;
                } else {
                    assert(acc + val * mult < 128 * mult) by (nonlinear_arith)
                        requires
                            acc < mult,
                            val < 128,
                    ;
                }
                assert(mult * val == val * mult) by (nonlinear_arith);
            }
            return Some(acc + val as u128 * mult);
        }
        if i == n - 1 {
            proof {
                assert(varint_value(rest.drop_first(), last_max as nat) is None);
            }
            return None;
        }
        proof {
            assert(rest.drop_first() =~= data@.skip(i + 1));
            let d = (val - 128) as nat;
            assert(acc + d * mult < 128 * mult) by (nonlinear_arith)
                requires
                    acc < mult,
                    d < 128,
            ;
            let next = varint_value(data@.skip(i + 1), last_max as nat);
            if next is Some {
                let w = next.unwrap();
                assert(acc + mult * (d + 128 * w) == (acc + d * mult) + (mult * 128) * w)
                    by (nonlinear_arith);
            }
        }
        acc = acc + (val - 128) as u128 * mult;
        mult = mult * 128;
        i += 1;
    }
    None
}

/// Writes the code of `n` at the front of `out` and returns the part of
/// `out` that holds it. The bytes of `out` behind the code stay as they were.
pub fn varint_usize(n: usize, out: &mut [u8; 10]) -> (ret: &mut [u8])
    ensures
        ret@ == varint_bytes(n as nat),
        final(out)@ == final(ret)@ + old(out)@.skip(ret@.len() as int),
{
    proof {
        lemma_pow128_values();
        lemma_varint_bytes_len(n as nat, 10);
    }
    let all: &mut [u8] = out;
    let used = encode_varint(n as u128, all);
    let (code, _rest) = all.split_at_mut(used);
    assert(code@ =~= varint_bytes(n as nat));
    code
}

/// Writes the code of `n` at the front of `out` and returns the part of
/// `out` that holds it. The bytes of `out` behind the code stay as they were.
pub fn varint_u16(n: u16, out: &mut [u8; 3]) -> (ret: &mut [u8])
    ensures
        ret@ == varint_bytes(n as nat),
        final(out)@ == final(ret)@ + old(out)@.skip(ret@.len() as int),
{
    proof {
        lemma_pow128_values();
        lemma_varint_bytes_len(n as nat, 3);
    }
    let all: &mut [u8] = out;
    let used = encode_varint(n as u128, all);
    let (code, _rest) = all.split_at_mut(used);
    assert(code@ =~= varint_bytes(n as nat));
    code
}

/// Writes the code of `n` at the front of `out` and returns the part of
/// `out` that holds it. The bytes of `out` behind the code stay as they were.
pub fn varint_u32(n: u32, out: &mut [u8; 5]) -> (ret: &mut [u8])
    ensures
        ret@ == varint_bytes(n as nat),
        final(out)@ == final(ret)@ + old(out)@.skip(ret@.len() as int),
{
    proof {
        lemma_pow128_values();
        lemma_varint_bytes_len(n as nat, 5);
    }
    let all: &mut [u8] = out;
    let used = encode_varint(n as u128, all);
    let (code, _rest) = all.split_at_mut(used);
    assert(code@ =~= varint_bytes(n as nat));
    code
}

/// Writes the code of `n` at the front of `out` and returns the part of
/// `out` that holds it. The bytes of `out` behind the code stay as they were.
pub fn varint_u64(n: u64, out: &mut [u8; 10]) -> (ret: &mut [u8])
    ensures
        ret@ == varint_bytes(n as nat),
        final(out)@ == final(ret)@ + old(out)@.skip(ret@.len() as int),
{
    proof {
        lemma_pow128_values();
        lemma_varint_bytes_len(n as nat, 10);
    }
    let all: &mut [u8] = out;
    let used = encode_varint(n as u128, all);
    let (code, _rest) = all.split_at_mut(used);
    assert(code@ =~= varint_bytes(n as nat));
    code
}

/// Writes the code of `n` at the front of `out` and returns the part of
/// `out` that holds it. The bytes of `out` behind the code stay as they were.
pub fn varint_u128(n: u128, out: &mut [u8; 19]) -> (ret: &mut [u8])
    ensures
        ret@ == varint_bytes(n as nat),
        final(out)@ == final(ret)@ + old(out)@.skip(ret@.len() as int),
{
    proof {
        lemma_pow128_values();
        lemma_pow128_grows(18, 19);
        lemma_varint_bytes_len(n as nat, 19);
    }
    let all: &mut [u8] = out;
    let used = encode_varint(n as u128, all);
    let (code, _rest) = all.split_at_mut(used);
    assert(code@ =~= varint_bytes(n as nat));
    code
}

/// Decoders of the code, one for each integer type.
pub trait TryTakeVarint<T: Sized> {
    /// The `u16` that the window `data` encodes: see [`varint_value`].
    fn try_take_varint_u16(data: &[u8; 3]) -> (r: Result<u16, VarintError>)
        ensures
            match varint_value(data@, 3) {
                Some(v) => v <= u16::MAX && r == Ok::<u16, VarintError>(v as u16),
                None => r == Err::<u16, VarintError>(VarintError::DeserializeBadVarint),
            },
    {
        proof {
            lemma_pow128_values();
            assert(data@.len() == 3);
            assert((3 + 1) * pow128(2) == 0x1_0000);
            if varint_value(data@, 3) is Some {
                lemma_varint_value_bound(data@, 3);
            }
        }
        match decode_varint(data.as_slice(), 3) {
            Some(v) => Ok(v as u16),
            None => Err(VarintError::DeserializeBadVarint),
        }
    }

    /// The `u32` that the window `data` encodes: see [`varint_value`].
    fn try_take_varint_u32(data: &[u8; 5]) -> (r: Result<u32, VarintError>)
        ensures
            match varint_value(data@, 15) {
                Some(v) => v <= u32::MAX && r == Ok::<u32, VarintError>(v as u32),
                None => r == Err::<u32, VarintError>(VarintError::DeserializeBadVarint),
            },
    {
        proof {
            lemma_pow128_values();
            assert(data@.len() == 5);
            assert((15 + 1) * pow128(4) == 0x1_0000_0000);
            if varint_value(data@, 15) is Some {
                lemma_varint_value_bound(data@, 15);
            }
        }
        match decode_varint(data.as_slice(), 15) {
            Some(v) => Ok(v as u32),
            None => Err(VarintError::DeserializeBadVarint),
        }
    }

    /// The `u64` that the window `data` encodes: see [`varint_value`].
    fn try_take_varint_u64(data: &[u8; 10]) -> (r: Result<u64, VarintError>)
        ensures
            match varint_value(data@, 1) {
                Some(v) => v <= u64::MAX && r == Ok::<u64, VarintError>(v as u64),
                None => r == Err::<u64, VarintError>(VarintError::DeserializeBadVarint),
            },
    {
        proof {
            lemma_pow128_values();
            assert(data@.len() == 10);
            assert((1 + 1) * pow128(9) == 0x1_0000_0000_0000_0000);
            if varint_value(data@, 1) is Some {
                lemma_varint_value_bound(data@, 1);
            }
        }
        match decode_varint(data.as_slice(), 1) {
            Some(v) => Ok(v as u64),
            None => Err(VarintError::DeserializeBadVarint),
        }
    }

    /// The `u128` that the window `data` encodes: see [`varint_value`].
    fn try_take_varint_u128(data: &[u8; 19]) -> (r: Result<u128, VarintError>)
        ensures
            match varint_value(data@, 3) {
                Some(v) => v <= u128::MAX && r == Ok::<u128, VarintError>(v as u128),
                None => r == Err::<u128, VarintError>(VarintError::DeserializeBadVarint),
            },
    {
        proof {
            lemma_pow128_values();
            assert(data@.len() == 19);
            assert((3 + 1) * pow128(18) == 0x1_0000_0000_0000_0000_0000_0000_0000_0000);
            if varint_value(data@, 3) is Some {
                lemma_varint_value_bound(data@, 3);
            }
        }
        match decode_varint(data.as_slice(), 3) {
            Some(v) => Ok(v as u128),
            None => Err(VarintError::DeserializeBadVarint),
        }
    }

    /// The `usize` that the window `data` encodes: see [`varint_value`]. A
    /// value that a `usize` cannot hold is refused.
    fn try_take_varint_usize(data: &[u8; 10]) -> (r: Result<usize, VarintError>)
        ensures
            match varint_value(data@, 1) {
                Some(v) => if v <= usize::MAX {
                    r == Ok::<usize, VarintError>(v as usize)
                } else {
                    r == Err::<usize, VarintError>(VarintError::DeserializeBadVarint)
                },
                None => r == Err::<usize, VarintError>(VarintError::DeserializeBadVarint),
            },
    {
        proof {
            lemma_pow128_values();
            assert(data@.len() == 10);
            assert((1 + 1) * pow128(9) == 0x1_0000_0000_0000_0000);
        }
        match decode_varint(data.as_slice(), 1) {
            Some(v) => if v <= usize::MAX as u128 {
                Ok(v as usize)
            } else {
                Err(VarintError::DeserializeBadVarint)
            },
            None => Err(VarintError::DeserializeBadVarint),
        }
    }
}

impl TryTakeVarint<u16> for u16 {

}

impl TryTakeVarint<u32> for u32 {

}

impl TryTakeVarint<u64> for u64 {

}

impl TryTakeVarint<u128> for u128 {

}

impl TryTakeVarint<usize> for usize {

}

/// The code of a `u16` has at most 3 bytes, and a window of 3 bytes that
/// begins with the code of `n` decodes to `n`, whatever stands behind the
/// code.
pub proof fn lemma_varint_u16_roundtrip(n: u16, window: Seq<u8>)
    requires
        window.len() == 3,
        window.take(varint_bytes(n as nat).len() as int) == varint_bytes(n as nat),
    ensures
        varint_bytes(n as nat).len() <= 3,
        varint_value(window, 3) == Some(n as nat),
{
    lemma_pow128_values();
    lemma_varint_bytes_len(n as nat, 3);
    assert((3 + 1) * pow128(2) == 0x1_0000);
    lemma_varint_roundtrip(n as nat, window, 3);
}

/// The code of a `u32` has at most 5 bytes, and a window of 5 bytes that
/// begins with the code of `n` decodes to `n`, whatever stands behind the
/// code.
pub proof fn lemma_varint_u32_roundtrip(n: u32, window: Seq<u8>)
    requires
        window.len() == 5,
        window.take(varint_bytes(n as nat).len() as int) == varint_bytes(n as nat),
    ensures
        varint_bytes(n as nat).len() <= 5,
        varint_value(window, 15) == Some(n as nat),
{
    lemma_pow128_values();
    lemma_varint_bytes_len(n as nat, 5);
    assert((15 + 1) * pow128(4) == 0x1_0000_0000);
    lemma_varint_roundtrip(n as nat, window, 15);
}

/// The code of a `u64` has at most 10 bytes, and a window of 10 bytes that
/// begins with the code of `n` decodes to `n`, whatever stands behind the
/// code.
pub proof fn lemma_varint_u64_roundtrip(n: u64, window: Seq<u8>)
    requires
        window.len() == 10,
        window.take(varint_bytes(n as nat).len() as int) == varint_bytes(n as nat),
    ensures
        varint_bytes(n as nat).len() <= 10,
        varint_value(window, 1) == Some(n as nat),
{
    lemma_pow128_values();
    lemma_varint_bytes_len(n as nat, 10);
    assert((1 + 1) * pow128(9) == 0x1_0000_0000_0000_0000);
    lemma_varint_roundtrip(n as nat, window, 1);
}

/// The code of a `u128` has at most 19 bytes, and a window of 19 bytes that
/// begins with the code of `n` decodes to `n`, whatever stands behind the
/// code.
pub proof fn lemma_varint_u128_roundtrip(n: u128, window: Seq<u8>)
    requires
        window.len() == 19,
        window.take(varint_bytes(n as nat).len() as int) == varint_bytes(n as nat),
    ensures
        varint_bytes(n as nat).len() <= 19,
        varint_value(window, 3) == Some(n as nat),
{
    lemma_pow128_values();
    lemma_pow128_grows(18, 19);
    lemma_varint_bytes_len(n as nat, 19);
    assert((3 + 1) * pow128(18) == 0x1_0000_0000_0000_0000_0000_0000_0000_0000);
    lemma_varint_roundtrip(n as nat, window, 3);
}

} // verus!
