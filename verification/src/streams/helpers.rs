//! Fixed-width integers read from a stream in a chosen byte order.

use super::endian::{
    be_read_i16, be_read_i32, be_read_i64, be_read_u16, be_read_u32, be_read_u64, le_read_i16,
    le_read_i32, le_read_i64, le_read_u16, le_read_u32, le_read_u64, signed8, signed_of,
};
use super::{decode_uint, ByteStream, Endianness, IoErrorKind, LPWidth, StreamError};
use vstd::prelude::*;

verus! {

/// The failure of a read that found too few bytes.
pub open spec fn short_read<T>() -> Result<T, StreamError> {
    Err(StreamError::IOError(IoErrorKind::UnexpectedEndOfStream))
}

/// Reads one byte.
pub fn read_u8(stream: &mut ByteStream) -> (r: Result<u8, StreamError>)
    ensures
        old(stream).has(1) ==> r.is_ok() && r.unwrap() == old(stream).next(1)[0] && old(
            stream,
        ).advanced(final(stream), 1),
        !old(stream).has(1) ==> r == short_read::<u8>() && old(stream).advanced(final(stream), 0),
{
    let buf = stream.read_exact(1)?;
    Ok(buf[0])
}

/// Reads one byte as a signed integer in two's complement.
pub fn read_i8(stream: &mut ByteStream) -> (r: Result<i8, StreamError>)
    ensures
        old(stream).has(1) ==> r.is_ok() && r.unwrap() as int == signed_of(
            old(stream).next(1)[0] as nat,
            1,
        ) && old(stream).advanced(final(stream), 1),
        !old(stream).has(1) ==> r == short_read::<i8>() && old(stream).advanced(final(stream), 0),
{
    let buf = stream.read_exact(1)?;
    Ok(signed8(buf[0]))
}

/// Reads two bytes as an unsigned integer in the byte order `e`.
pub fn read_u16(stream: &mut ByteStream, e: Endianness) -> (r: Result<u16, StreamError>)
    ensures
        old(stream).has(2) ==> r.is_ok() && r.unwrap() as nat == decode_uint(
            old(stream).next(2),
            e,
        ) && old(stream).advanced(final(stream), 2),
        !old(stream).has(2) ==> r == short_read::<u16>() && old(stream).advanced(
            final(stream),
            0,
        ),
{
    let buf = stream.read_exact(2)?;
    assert(buf@.take(2) =~= buf@);
    Ok(
        match e {
            Endianness::LittleEndian => le_read_u16(buf.as_slice()),
            Endianness::BigEndian => be_read_u16(buf.as_slice()),
        },
    )
}

/// Reads two bytes as a signed integer in the byte order `e`.
pub fn read_i16(stream: &mut ByteStream, e: Endianness) -> (r: Result<i16, StreamError>)
    ensures
        old(stream).has(2) ==> r.is_ok() && r.unwrap() as int == signed_of(
            decode_uint(old(stream).next(2), e),
            2,
        ) && old(stream).advanced(final(stream), 2),
        !old(stream).has(2) ==> r == short_read::<i16>() && old(stream).advanced(
            final(stream),
            0,
        ),
{
    let buf = stream.read_exact(2)?;
    assert(buf@.take(2) =~= buf@);
    Ok(
        match e {
            Endianness::LittleEndian => le_read_i16(buf.as_slice()),
            Endianness::BigEndian => be_read_i16(buf.as_slice()),
        },
    )
}

/// Reads four bytes as an unsigned integer in the byte order `e`.
pub fn read_u32(stream: &mut ByteStream, e: Endianness) -> (r: Result<u32, StreamError>)
    ensures
        old(stream).has(4) ==> r.is_ok() && r.unwrap() as nat == decode_uint(
            old(stream).next(4),
            e,
        ) && old(stream).advanced(final(stream), 4),
        !old(stream).has(4) ==> r == short_read::<u32>() && old(stream).advanced(
            final(stream),
            0,
        ),
{
    let buf = stream.read_exact(4)?;
    assert(buf@.take(4) =~= buf@);
    Ok(
        match e {
            Endianness::LittleEndian => le_read_u32(buf.as_slice()),
            Endianness::BigEndian => be_read_u32(buf.as_slice()),
        },
    )
}

/// Reads four bytes as a signed integer in the byte order `e`.
pub fn read_i32(stream: &mut ByteStream, e: Endianness) -> (r: Result<i32, StreamError>)
    ensures
        old(stream).has(4) ==> r.is_ok() && r.unwrap() as int == signed_of(
            decode_uint(old(stream).next(4), e),
            4,
        ) && old(stream).advanced(final(stream), 4),
        !old(stream).has(4) ==> r == short_read::<i32>() && old(stream).advanced(
            final(stream),
            0,
        ),
{
    let buf = stream.read_exact(4)?;
    assert(buf@.take(4) =~= buf@);
    Ok(
        match e {
            Endianness::LittleEndian => le_read_i32(buf.as_slice()),
            Endianness::BigEndian => be_read_i32(buf.as_slice()),
        },
    )
}

/// Reads eight bytes as an unsigned integer in the byte order `e`.
pub fn read_u64(stream: &mut ByteStream, e: Endianness) -> (r: Result<u64, StreamError>)
    ensures
        old(stream).has(8) ==> r.is_ok() && r.unwrap() as nat == decode_uint(
            old(stream).next(8),
            e,
        ) && old(stream).advanced(final(stream), 8),
        !old(stream).has(8) ==> r == short_read::<u64>() && old(stream).advanced(
            final(stream),
            0,
        ),
{
    let buf = stream.read_exact(8)?;
    assert(buf@.take(8) =~= buf@);
    Ok(
        match e {
            Endianness::LittleEndian => le_read_u64(buf.as_slice()),
            Endianness::BigEndian => be_read_u64(buf.as_slice()),
        },
    )
}

/// Reads eight bytes as a signed integer in the byte order `e`.
pub fn read_i64(stream: &mut ByteStream, e: Endianness) -> (r: Result<i64, StreamError>)
    ensures
        old(stream).has(8) ==> r.is_ok() && r.unwrap() as int == signed_of(
            decode_uint(old(stream).next(8), e),
            8,
        ) && old(stream).advanced(final(stream), 8),
        !old(stream).has(8) ==> r == short_read::<i64>() && old(stream).advanced(
            final(stream),
            0,
        ),
{
    let buf = stream.read_exact(8)?;
    assert(buf@.take(8) =~= buf@);
    Ok(
        match e {
            Endianness::LittleEndian => le_read_i64(buf.as_slice()),
            Endianness::BigEndian => be_read_i64(buf.as_slice()),
        },
    )
}

/// Reads a length field of the width `lptype` in the byte order `lpend`.
pub fn read_lpend(stream: &mut ByteStream, lptype: LPWidth, lpend: Endianness) -> (r: Result<
    u64,
    StreamError,
>)
    ensures
        old(stream).has(lptype.spec_size()) ==> r.is_ok() && r.unwrap() as nat == decode_uint(
            old(stream).next(lptype.spec_size()),
            lpend,
        ) && old(stream).advanced(final(stream), lptype.spec_size()),
        !old(stream).has(lptype.spec_size()) ==> r == short_read::<u64>() && old(stream).advanced(
            final(stream),
            0,
        ),
{
    match lptype {
        LPWidth::LP8 => {
            proof {
                if stream.has(1) {
                    super::endian::lemma_single_byte_value(stream.next(1));
                }
            }
            Ok(read_u8(stream)? as u64)
        },
        LPWidth::LP16 => Ok(read_u16(stream, lpend)? as u64),
        LPWidth::LP32 => Ok(read_u32(stream, lpend)? as u64),
        LPWidth::LP64 => read_u64(stream, lpend),
    }
}

} // verus!
