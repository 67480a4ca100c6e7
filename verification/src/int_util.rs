//! Integers read from and written to slices and streams, in an explicit byte
//! order.

pub use crate::streams::Endianness;

use crate::streams::any_int::single_byte;
use crate::streams::byte_stream::written;
use crate::streams::endian::{
    lemma_be_value_bound, lemma_le_value_bound,
    lemma_radix_values, radix, signed128, signed16, signed32, signed64, signed8, signed_of,
    uint_be, uint_bytes_be, uint_bytes_le, uint_le, unsigned128, unsigned16, unsigned32,
    unsigned64, unsigned8, unsigned_of,
};
use crate::streams::helpers::{read_i8, read_u8, short_read};
use crate::streams::write::out_of_range;
use crate::streams::{decode_uint, encode_uint, ByteStream, StreamError};
use vstd::prelude::*;
use vstd::slice::slice_subrange;

verus! {

/// The unsigned value of the `n` bytes of `bytes` from `index` on.
pub open spec fn uint_at(bytes: Seq<u8>, index: nat, n: nat, e: Endianness) -> nat {
    decode_uint(bytes.subrange(index as int, (index + n) as int), e)
}

/// What a write of `bytes` at the cursor of `before` comes to: either all of
/// them are written and the cursor stands behind them, or the write would end
/// beyond the largest offset and nothing changes.
pub open spec fn put(
    before: &ByteStream,
    after: &ByteStream,
    bytes: Seq<u8>,
    r: Result<(), StreamError>,
) -> bool {
    if before.pos() + bytes.len() <= usize::MAX {
        &&& r.is_ok()
        &&& after.bytes() == written(before.bytes(), before.pos(), bytes)
        &&& after.pos() == before.pos() + bytes.len()
    } else {
        &&& r == out_of_range::<()>()
        &&& after.bytes() == before.bytes()
        &&& after.pos() == before.pos()
    }
}

/// The value of the `n` bytes of `bytes` from `index` on, in the byte order
/// `e`.
fn take_uint(bytes: &[u8], index: usize, n: usize, e: Endianness) -> (v: u128)
    requires
        n <= 16,
        index + n <= bytes@.len(),
    ensures
        v == uint_at(bytes@, index as nat, n as nat, e),
        v < radix(n as nat),
{
    let total: usize = bytes.len();
    let part = slice_subrange(bytes, index, index + n);
    proof {
        lemma_le_value_bound(part@);
        lemma_be_value_bound(part@);
    }
    match e {
        Endianness::LittleEndian => uint_le(part),
        Endianness::BigEndian => uint_be(part),
    }
}

/// Reads `n` bytes as an unsigned integer in the byte order `e`.
fn next_uint(stream: &mut ByteStream, n: usize, e: Endianness) -> (r: Result<u128, StreamError>)
    requires
        n <= 16,
    ensures
        old(stream).has(n as nat) ==> r.is_ok() && r.unwrap() == decode_uint(
            old(stream).next(n as nat),
            e,
        ) && r.unwrap() < radix(n as nat) && old(stream).advanced(final(stream), n as nat),
        !old(stream).has(n as nat) ==> r == short_read::<u128>() && old(stream).advanced(
            final(stream),
            0,
        ),
{
    let buf = stream.read_exact(n)?;
    assert(buf@.subrange(0, n as int) =~= buf@);
    Ok(take_uint(buf.as_slice(), 0, n, e))
}

/// Writes the `n` low-order bytes of `v` in the byte order `e`.
fn put_uint(stream: &mut ByteStream, v: u128, n: usize, e: Endianness) -> (r: Result<
    (),
    StreamError,
>)
    ensures
        put(old(stream), final(stream), encode_uint(v as nat, n as nat, e), r),
{
    let bytes = match e {
        Endianness::LittleEndian => uint_bytes_le(v, n),
        Endianness::BigEndian => uint_bytes_be(v, n),
    };
    stream.write_all(bytes.as_slice())
}

/// Integers read from a stream at its cursor.
pub trait StreamReadInt {
    /// The stream that is read from.
    spec fn stream(&self) -> ByteStream;

    /// Reads one byte.
    fn rad_u8(&mut self) -> (r: Result<u8, StreamError>)
        ensures
            old(self).stream().has(1) ==> r.is_ok() && r.unwrap() == old(self).stream().next(1)[0] && old(
                self,
            ).stream().advanced(&final(self).stream(), 1),
            !old(self).stream().has(1) ==> r == short_read::<u8>() && old(
                self,
            ).stream().advanced(&final(self).stream(), 0),
    ;

    /// Reads two bytes as an unsigned integer, in the byte order `endianness`.
    fn read_u16(&mut self, endianness: Endianness) -> (r: Result<u16, StreamError>)
        ensures
            old(self).stream().has(2) ==> r.is_ok() && r.unwrap() as nat == decode_uint(
                old(self).stream().next(2),
                endianness,
            ) && old(
                self,
            ).stream().advanced(&final(self).stream(), 2),
            !old(self).stream().has(2) ==> r == short_read::<u16>() && old(
                self,
            ).stream().advanced(&final(self).stream(), 0),
    ;

    /// Reads four bytes as an unsigned integer, in the byte order
    /// `endianness`.
    fn read_u32(&mut self, endianness: Endianness) -> (r: Result<u32, StreamError>)
        ensures
            old(self).stream().has(4) ==> r.is_ok() && r.unwrap() as nat == decode_uint(
                old(self).stream().next(4),
                endianness,
            ) && old(
                self,
            ).stream().advanced(&final(self).stream(), 4),
            !old(self).stream().has(4) ==> r == short_read::<u32>() && old(
                self,
            ).stream().advanced(&final(self).stream(), 0),
    ;

    /// Reads eight bytes as an unsigned integer, in the byte order
    /// `endianness`.
    fn read_u64(&mut self, endianness: Endianness) -> (r: Result<u64, StreamError>)
        ensures
            old(self).stream().has(8) ==> r.is_ok() && r.unwrap() as nat == decode_uint(
                old(self).stream().next(8),
                endianness,
            ) && old(
                self,
            ).stream().advanced(&final(self).stream(), 8),
            !old(self).stream().has(8) ==> r == short_read::<u64>() && old(
                self,
            ).stream().advanced(&final(self).stream(), 0),
    ;

    /// Reads sixteen bytes as an unsigned integer, in the byte order
    /// `endianness`.
    fn read_u128(&mut self, endianness: Endianness) -> (r: Result<u128, StreamError>)
        ensures
            old(self).stream().has(16) ==> r.is_ok() && r.unwrap() as nat == decode_uint(
                old(self).stream().next(16),
                endianness,
            ) && old(
                self,
            ).stream().advanced(&final(self).stream(), 16),
            !old(self).stream().has(16) ==> r == short_read::<u128>() && old(
                self,
            ).stream().advanced(&final(self).stream(), 0),
    ;

    /// Reads one byte as a signed integer in two's complement.
    fn read_i8(&mut self) -> (r: Result<i8, StreamError>)
        ensures
            old(self).stream().has(1) ==> r.is_ok() && r.unwrap() as int == signed_of(
                old(self).stream().next(1)[0] as nat,
                1,
            ) && old(
                self,
            ).stream().advanced(&final(self).stream(), 1),
            !old(self).stream().has(1) ==> r == short_read::<i8>() && old(
                self,
            ).stream().advanced(&final(self).stream(), 0),
    ;

    /// Reads two bytes as a signed integer in two's complement, in the byte
    /// order `endianness`.
    fn read_i16(&mut self, endianness: Endianness) -> (r: Result<i16, StreamError>)
        ensures
            old(self).stream().has(2) ==> r.is_ok() && r.unwrap() as int == signed_of(
                decode_uint(old(self).stream().next(2), endianness),
                2,
            ) && old(
                self,
            ).stream().advanced(&final(self).stream(), 2),
            !old(self).stream().has(2) ==> r == short_read::<i16>() && old(
                self,
            ).stream().advanced(&final(self).stream(), 0),
    ;

    /// Reads four bytes as a signed integer in two's complement, in the byte
    /// order `endianness`.
    fn read_i32(&mut self, endianness: Endianness) -> (r: Result<i32, StreamError>)
        ensures
            old(self).stream().has(4) ==> r.is_ok() && r.unwrap() as int == signed_of(
                decode_uint(old(self).stream().next(4), endianness),
                4,
            ) && old(
                self,
            ).stream().advanced(&final(self).stream(), 4),
            !old(self).stream().has(4) ==> r == short_read::<i32>() && old(
                self,
            ).stream().advanced(&final(self).stream(), 0),
    ;

    /// Reads eight bytes as a signed integer in two's complement, in the byte
    /// order `endianness`.
    fn read_i64(&mut self, endianness: Endianness) -> (r: Result<i64, StreamError>)
        ensures
            old(self).stream().has(8) ==> r.is_ok() && r.unwrap() as int == signed_of(
                decode_uint(old(self).stream().next(8), endianness),
                8,
            ) && old(
                self,
            ).stream().advanced(&final(self).stream(), 8),
            !old(self).stream().has(8) ==> r == short_read::<i64>() && old(
                self,
            ).stream().advanced(&final(self).stream(), 0),
    ;

    /// Reads sixteen bytes as a signed integer in two's complement, in the
    /// byte order `endianness`.
    fn read_i128(&mut self, endianness: Endianness) -> (r: Result<i128, StreamError>)
        ensures
            old(self).stream().has(16) ==> r.is_ok() && r.unwrap() as int == signed_of(
                decode_uint(old(self).stream().next(16), endianness),
                16,
            ) && old(
                self,
            ).stream().advanced(&final(self).stream(), 16),
            !old(self).stream().has(16) ==> r == short_read::<i128>() && old(
                self,
            ).stream().advanced(&final(self).stream(), 0),
    ;
}

impl StreamReadInt for ByteStream {
    open spec fn stream(&self) -> ByteStream {
        *self
    }

    fn rad_u8(&mut self) -> (r: Result<u8, StreamError>) {
        read_u8(self)
    }

    fn read_u16(&mut self, endianness: Endianness) -> (r: Result<u16, StreamError>) {
        proof {
            lemma_radix_values();
        }
        let v = next_uint(self, 2, endianness)?;
        Ok(v as u16)
    }

    fn read_u32(&mut self, endianness: Endianness) -> (r: Result<u32, StreamError>) {
        proof {
            lemma_radix_values();
        }
        let v = next_uint(self, 4, endianness)?;
        Ok(v as u32)
    }

    fn read_u64(&mut self, endianness: Endianness) -> (r: Result<u64, StreamError>) {
        proof {
            lemma_radix_values();
        }
        let v = next_uint(self, 8, endianness)?;
        Ok(v as u64)
    }

    fn read_u128(&mut self, endianness: Endianness) -> (r: Result<u128, StreamError>) {
        let v = next_uint(self, 16, endianness)?;
        Ok(v as u128)
    }

    fn read_i8(&mut self) -> (r: Result<i8, StreamError>) {
        read_i8(self)
    }

    fn read_i16(&mut self, endianness: Endianness) -> (r: Result<i16, StreamError>) {
        proof {
            lemma_radix_values();
        }
        let v = next_uint(self, 2, endianness)?;
        Ok(signed16(v as u16))
    }

    fn read_i32(&mut self, endianness: Endianness) -> (r: Result<i32, StreamError>) {
        proof {
            lemma_radix_values();
        }
        let v = next_uint(self, 4, endianness)?;
        Ok(signed32(v as u32))
    }

    fn read_i64(&mut self, endianness: Endianness) -> (r: Result<i64, StreamError>) {
        proof {
            lemma_radix_values();
        }
        let v = next_uint(self, 8, endianness)?;
        Ok(signed64(v as u64))
    }

    fn read_i128(&mut self, endianness: Endianness) -> (r: Result<i128, StreamError>) {
        let v = next_uint(self, 16, endianness)?;
        Ok(signed128(v as u128))
    }
}

/// Integers written to a stream at its cursor.
pub trait StreamWriteInt {
    /// The stream that is written to.
    spec fn sink(&self) -> ByteStream;

    /// Writes `value` in one byte.
    fn write_u8(&mut self, value: u8) -> (r: Result<(), StreamError>)
        ensures
            put(
                &old(self).sink(),
                &final(self).sink(),
                seq![value],
                r,
            ),
    ;

    /// Writes `value` in two bytes, in the byte order `endianness`.
    fn write_u16(&mut self, value: u16, endianness: Endianness) -> (r: Result<(), StreamError>)
        ensures
            put(
                &old(self).sink(),
                &final(self).sink(),
                encode_uint(value as nat, 2, endianness),
                r,
            ),
    ;

    /// Writes `value` in four bytes, in the byte order `endianness`.
    fn write_u32(&mut self, value: u32, endianness: Endianness) -> (r: Result<(), StreamError>)
        ensures
            put(
                &old(self).sink(),
                &final(self).sink(),
                encode_uint(value as nat, 4, endianness),
                r,
            ),
    ;

    /// Writes `value` in eight bytes, in the byte order `endianness`.
    fn write_u64(&mut self, value: u64, endianness: Endianness) -> (r: Result<(), StreamError>)
        ensures
            put(
                &old(self).sink(),
                &final(self).sink(),
                encode_uint(value as nat, 8, endianness),
                r,
            ),
    ;

    /// Writes `value` in sixteen bytes, in the byte order `endianness`.
    fn write_u128(&mut self, value: u128, endianness: Endianness) -> (r: Result<(), StreamError>)
        ensures
            put(
                &old(self).sink(),
                &final(self).sink(),
                encode_uint(value as nat, 16, endianness),
                r,
            ),
    ;

    /// Writes `value` in two's complement in one byte.
    fn write_i8(&mut self, value: i8) -> (r: Result<(), StreamError>)
        ensures
            put(
                &old(self).sink(),
                &final(self).sink(),
                seq![unsigned_of(value as int, 1) as u8],
                r,
            ),
    ;

    /// Writes `value` in two's complement in two bytes, in the byte order
    /// `endianness`.
    fn write_i16(&mut self, value: i16, endianness: Endianness) -> (r: Result<(), StreamError>)
        ensures
            put(
                &old(self).sink(),
                &final(self).sink(),
                encode_uint(unsigned_of(value as int, 2), 2, endianness),
                r,
            ),
    ;

    /// Writes `value` in two's complement in four bytes, in the byte order
    /// `endianness`.
    fn write_i32(&mut self, value: i32, endianness: Endianness) -> (r: Result<(), StreamError>)
        ensures
            put(
                &old(self).sink(),
                &final(self).sink(),
                encode_uint(unsigned_of(value as int, 4), 4, endianness),
                r,
            ),
    ;

    /// Writes `value` in two's complement in eight bytes, in the byte order
    /// `endianness`.
    fn write_i64(&mut self, value: i64, endianness: Endianness) -> (r: Result<(), StreamError>)
        ensures
            put(
                &old(self).sink(),
                &final(self).sink(),
                encode_uint(unsigned_of(value as int, 8), 8, endianness),
                r,
            ),
    ;

    /// Writes `value` in two's complement in sixteen bytes, in the byte order
    /// `endianness`.
    fn write_i128(&mut self, value: i128, endianness: Endianness) -> (r: Result<(), StreamError>)
        ensures
            put(
                &old(self).sink(),
                &final(self).sink(),
                encode_uint(unsigned_of(value as int, 16), 16, endianness),
                r,
            ),
    ;
}

impl StreamWriteInt for ByteStream {
    open spec fn sink(&self) -> ByteStream {
        *self
    }

    fn write_u8(&mut self, value: u8) -> (r: Result<(), StreamError>) {
        self.write_all(single_byte(value).as_slice())
    }

    fn write_u16(&mut self, value: u16, endianness: Endianness) -> (r: Result<(), StreamError>) {
        put_uint(self, value as u128, 2, endianness)
    }

    fn write_u32(&mut self, value: u32, endianness: Endianness) -> (r: Result<(), StreamError>) {
        put_uint(self, value as u128, 4, endianness)
    }

    fn write_u64(&mut self, value: u64, endianness: Endianness) -> (r: Result<(), StreamError>) {
        put_uint(self, value as u128, 8, endianness)
    }

    fn write_u128(&mut self, value: u128, endianness: Endianness) -> (r: Result<(), StreamError>) {
        put_uint(self, value as u128, 16, endianness)
    }

    fn write_i8(&mut self, value: i8) -> (r: Result<(), StreamError>) {
        self.write_all(single_byte(unsigned8(value)).as_slice())
    }

    fn write_i16(&mut self, value: i16, endianness: Endianness) -> (r: Result<(), StreamError>) {
        put_uint(self, unsigned16(value) as u128, 2, endianness)
    }

    fn write_i32(&mut self, value: i32, endianness: Endianness) -> (r: Result<(), StreamError>) {
        put_uint(self, unsigned32(value) as u128, 4, endianness)
    }

    fn write_i64(&mut self, value: i64, endianness: Endianness) -> (r: Result<(), StreamError>) {
        put_uint(self, unsigned64(value) as u128, 8, endianness)
    }

    fn write_i128(&mut self, value: i128, endianness: Endianness) -> (r: Result<(), StreamError>) {
        put_uint(self, unsigned128(value) as u128, 16, endianness)
    }
}

/// Integers read from a run of bytes at an index.
pub trait SliceReadInt {
    /// The bytes that are read from.
    spec fn bytes(&self) -> Seq<u8>;

    /// The byte at `index`.
    fn read_u8(&self, index: usize) -> (r: Result<u8, StreamError>)
        requires
            index + 1 <= self.bytes().len(),
        ensures
            r == Ok::<u8, StreamError>(self.bytes()[index as int]),
    ;

    /// The unsigned integer that the two bytes from `index` on hold, in the
    /// byte order `endianness`.
    fn read_u16(&self, index: usize, endianness: Endianness) -> (r: Result<u16, StreamError>)
        requires
            index + 2 <= self.bytes().len(),
        ensures
            r.is_ok() && r.unwrap() as nat == uint_at(
                self.bytes(),
                index as nat,
                2,
                endianness,
            ),
    ;

    /// The unsigned integer that the four bytes from `index` on hold, in the
    /// byte order `endianness`.
    fn read_u32(&self, index: usize, endianness: Endianness) -> (r: Result<u32, StreamError>)
        requires
            index + 4 <= self.bytes().len(),
        ensures
            r.is_ok() && r.unwrap() as nat == uint_at(
                self.bytes(),
                index as nat,
                4,
                endianness,
            ),
    ;

    /// The unsigned integer that the eight bytes from `index` on hold, in the
    /// byte order `endianness`.
    fn read_u64(&self, index: usize, endianness: Endianness) -> (r: Result<u64, StreamError>)
        requires
            index + 8 <= self.bytes().len(),
        ensures
            r.is_ok() && r.unwrap() as nat == uint_at(
                self.bytes(),
                index as nat,
                8,
                endianness,
            ),
    ;

    /// The unsigned integer that the sixteen bytes from `index` on hold, in
    /// the byte order `endianness`.
    fn read_u128(&self, index: usize, endianness: Endianness) -> (r: Result<u128, StreamError>)
        requires
            index + 16 <= self.bytes().len(),
        ensures
            r.is_ok() && r.unwrap() as nat == uint_at(
                self.bytes(),
                index as nat,
                16,
                endianness,
            ),
    ;

    /// The signed integer that the byte at `index` holds in two's complement.
    fn read_i8(&self, index: usize) -> (r: Result<i8, StreamError>)
        requires
            index + 1 <= self.bytes().len(),
        ensures
            r.is_ok() && r.unwrap() as int == signed_of(self.bytes()[index as int] as nat, 1),
    ;

    /// The signed integer that the two bytes from `index` on hold in two's
    /// complement, in the byte order `endianness`.
    fn read_i16(&self, index: usize, endianness: Endianness) -> (r: Result<i16, StreamError>)
        requires
            index + 2 <= self.bytes().len(),
        ensures
            r.is_ok() && r.unwrap() as int == signed_of(
                uint_at(self.bytes(), index as nat, 2, endianness),
                2,
            ),
    ;

    /// The signed integer that the four bytes from `index` on hold in two's
    /// complement, in the byte order `endianness`.
    fn read_i32(&self, index: usize, endianness: Endianness) -> (r: Result<i32, StreamError>)
        requires
            index + 4 <= self.bytes().len(),
        ensures
            r.is_ok() && r.unwrap() as int == signed_of(
                uint_at(self.bytes(), index as nat, 4, endianness),
                4,
            ),
    ;

    /// The signed integer that the eight bytes from `index` on hold in two's
    /// complement, in the byte order `endianness`.
    fn read_i64(&self, index: usize, endianness: Endianness) -> (r: Result<i64, StreamError>)
        requires
            index + 8 <= self.bytes().len(),
        ensures
            r.is_ok() && r.unwrap() as int == signed_of(
                uint_at(self.bytes(), index as nat, 8, endianness),
                8,
            ),
    ;

    /// The signed integer that the sixteen bytes from `index` on hold in two's
    /// complement, in the byte order `endianness`.
    fn read_i128(&self, index: usize, endianness: Endianness) -> (r: Result<i128, StreamError>)
        requires
            index + 16 <= self.bytes().len(),
        ensures
            r.is_ok() && r.unwrap() as int == signed_of(
                uint_at(self.bytes(), index as nat, 16, endianness),
                16,
            ),
    ;
}

impl SliceReadInt for [u8] {
    open spec fn bytes(&self) -> Seq<u8> {
        self@
    }

    fn read_u8(&self, index: usize) -> (r: Result<u8, StreamError>) {
        Ok(self[index])
    }

    fn read_u16(&self, index: usize, endianness: Endianness) -> (r: Result<u16, StreamError>) {
        proof {
            lemma_radix_values();
        }
        let v = take_uint(self, index, 2, endianness);
        Ok(v as u16)
    }

    fn read_u32(&self, index: usize, endianness: Endianness) -> (r: Result<u32, StreamError>) {
        proof {
            lemma_radix_values();
        }
        let v = take_uint(self, index, 4, endianness);
        Ok(v as u32)
    }

    fn read_u64(&self, index: usize, endianness: Endianness) -> (r: Result<u64, StreamError>) {
        proof {
            lemma_radix_values();
        }
        let v = take_uint(self, index, 8, endianness);
        Ok(v as u64)
    }

    fn read_u128(&self, index: usize, endianness: Endianness) -> (r: Result<u128, StreamError>) {
        let v = take_uint(self, index, 16, endianness);
        Ok(v as u128)
    }

    fn read_i8(&self, index: usize) -> (r: Result<i8, StreamError>) {
        Ok(signed8(self[index]))
    }

    fn read_i16(&self, index: usize, endianness: Endianness) -> (r: Result<i16, StreamError>) {
        proof {
            lemma_radix_values();
        }
        let v = take_uint(self, index, 2, endianness);
        Ok(signed16(v as u16))
    }

    fn read_i32(&self, index: usize, endianness: Endianness) -> (r: Result<i32, StreamError>) {
        proof {
            lemma_radix_values();
        }
        let v = take_uint(self, index, 4, endianness);
        Ok(signed32(v as u32))
    }

    fn read_i64(&self, index: usize, endianness: Endianness) -> (r: Result<i64, StreamError>) {
        proof {
            lemma_radix_values();
        }
        let v = take_uint(self, index, 8, endianness);
        Ok(signed64(v as u64))
    }

    fn read_i128(&self, index: usize, endianness: Endianness) -> (r: Result<i128, StreamError>) {
        let v = take_uint(self, index, 16, endianness);
        Ok(signed128(v as u128))
    }
}

} // verus!
